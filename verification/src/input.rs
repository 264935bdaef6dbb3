//! From the keyboard to the player's actions.

use vstd::prelude::*;
use crate::action::Action;

verus! {

/// A key that the simulation listens for.
#[derive(Clone, Copy, Debug, PartialEq, Eq, Structural)]
pub enum KeyCode {
    Enter,
    Escape,
    Up,
    Down,
    Left,
    Right,
    Spacebar,
    Other,
}

/// The action that a key press asks for: Enter held with Alt toggles the
/// full screen, Escape quits, the arrows move, the space bar builds.
pub open spec fn action_of(code: KeyCode, alt: bool) -> Option<Action> {
    match code {
        KeyCode::Enter => if alt {
            Some(Action::FullScreen)
        } else {
            None
        },
        KeyCode::Escape => Some(Action::Quit),
        KeyCode::Up => Some(Action::MoveUp),
        KeyCode::Down => Some(Action::MoveDown),
        KeyCode::Left => Some(Action::MoveLeft),
        KeyCode::Right => Some(Action::MoveRight),
        KeyCode::Spacebar => Some(Action::Build),
        KeyCode::Other => None,
    }
}

/// The actions that one poll of the keyboard yields: the action of the key
/// that was pressed, or none.
pub fn handle_keys(key: Option<(KeyCode, bool)>) -> (actions: Vec<Action>)
    ensures
        actions@ == (match key {
            Some((code, alt)) => match action_of(code, alt) {
                Some(action) => seq![action],
                None => Seq::<Action>::empty(),
            },
            None => Seq::<Action>::empty(),
        }),
{
    let mut actions: Vec<Action> = Vec::new();
    match key {
        Some((code, alt)) => {
            match code {
                KeyCode::Enter => {
                    if alt {
                        actions.push(Action::FullScreen);
                    }
                },
                KeyCode::Escape => actions.push(Action::Quit),
                KeyCode::Up => actions.push(Action::MoveUp),
                KeyCode::Down => actions.push(Action::MoveDown),
                KeyCode::Left => actions.push(Action::MoveLeft),
                KeyCode::Right => actions.push(Action::MoveRight),
                KeyCode::Spacebar => actions.push(Action::Build),
                KeyCode::Other => {},
            }
            assert(actions@ =~= (match action_of(code, alt) {
                Some(action) => seq![action],
                None => Seq::<Action>::empty(),
            }));
        },
        None => {},
    }
    actions
}

} // verus!
