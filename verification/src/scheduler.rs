//! The course of a session: what one tick does.

use vstd::prelude::*;
use rand::rngs::ThreadRng;
use crate::action::Action;
use crate::action::process_player_action;
use crate::components::Position;
use crate::entity::player_of;
use crate::game::Game;
use crate::game::GameState;
use crate::housing::housing_system;
use crate::map::keeps_explored;
use crate::roaming::person_system;

verus! {

/// What a tick asks of the program around the simulation.
#[derive(Clone, Copy, Debug, PartialEq, Eq, Structural)]
pub struct TickReport {
    /// The session is over: the player has quit.
    pub quit: bool,
    /// How often the player asked to switch between window and full
    /// screen.
    pub fullscreen_toggles: usize,
    /// The steered entity does not stand where it stood: what is in view
    /// has to be computed anew.
    pub player_moved: bool,
    /// How many houses could have grown but found no site.
    pub houses_skipped: usize,
}

/// How many of `actions` ask to switch between window and full screen
/// before the first that quits.
pub open spec fn toggles_in(actions: Seq<Action>) -> nat
    decreases actions.len(),
{
    if actions.len() == 0 || actions[0] == Action::Quit {
        0
    } else if actions[0] == Action::FullScreen {
        1 + toggles_in(actions.drop_first())
    } else {
        toggles_in(actions.drop_first())
    }
}

impl GameState {
    /// Where the steered entity stands, if there is one.
    pub open spec fn player_position(self) -> Option<Position> {
        match player_of(self.world) {
            Some(id) => self.world[id].position,
            None => None,
        }
    }

    /// The session after the player's turn: each of `actions` applied in
    /// order, up to the first that quits.
    pub open spec fn after_turn(self, actions: Seq<Action>) -> GameState
        decreases actions.len(),
    {
        if actions.len() == 0 || actions[0] == Action::Quit {
            self
        } else {
            self.after_action(actions[0]).after_turn(actions.drop_first())
        }
    }

    /// Whether `after` is what one tick makes of the session under
    /// `actions`, with `skipped` houses giving up on growing: the player's
    /// turn, and then, unless the player has quit, a round of growth, in
    /// which every growth that is owed is granted, and a round of steps.
    pub open spec fn ticks_to(self, actions: Seq<Action>, after: GameState, skipped: int) -> bool {
        if actions.contains(Action::Quit) {
            after == self.after_turn(actions) && skipped == 0
        } else {
            exists|sites: Seq<Option<Position>>, steps: Seq<(int, int)>|
                sites.len() == self.after_turn(actions).world.len() && steps.len()
                    == self.after_turn(actions).after_housing(sites).world.len() && skipped
                    == self.after_turn(actions).skipped_in(sites) && self.after_turn(
                    actions,
                ).grants_owed_growth(sites) && after == #[trigger] self.after_turn(
                    actions,
                ).after_housing(sites).after_roaming(steps)
        }
    }
}

/// Whether two places, known or not, are the same.
fn same_place(first: Option<Position>, second: Option<Position>) -> (same: bool)
    ensures
        same == (first == second),
{
    match (first, second) {
        (Some(a), Some(b)) => a.x == b.x && a.y == b.y,
        (None, None) => true,
        _ => false,
    }
}

impl Game {
    /// Where the steered entity stands, if there is one.
    pub fn player_position(&self) -> (position: Option<Position>)
        ensures
            position == self@.player_position(),
    {
        match self.world.player() {
            Some(id) => self.world.entities[id].position,
            None => None,
        }
    }

    /// Runs one tick: the player's turn, then a round of growth, then a
    /// round of steps. The player's actions are applied in order; a switch
    /// of the screen is counted for the program to carry out; at the first
    /// action that quits the tick ends there and then.
    pub fn tick(&mut self, actions: &Vec<Action>, rng: &mut ThreadRng) -> (report: TickReport)
        requires
            old(self).wf(),
        ensures
            final(self).wf(),
            report.quit == actions@.contains(Action::Quit),
            report.fullscreen_toggles == toggles_in(actions@),
            report.player_moved == (final(self)@.player_position() != old(
                self,
            )@.player_position()),
            old(self)@.ticks_to(actions@, final(self)@, report.houses_skipped as int),
            keeps_explored(old(self)@.map, final(self)@.map),
    {
        let from: Option<Position> = self.player_position();
        let mut toggles: usize = 0;
        let mut turn: usize = 0;
        assert(actions@.skip(0) =~= actions@);
        while turn < actions.len()
            invariant
                turn <= actions.len(),
                self.wf(),
                from == old(self)@.player_position(),
                toggles <= turn,
                keeps_explored(old(self)@.map, self@.map),
                old(self)@.after_turn(actions@) == self@.after_turn(actions@.skip(turn as int)),
                toggles_in(actions@) == toggles + toggles_in(actions@.skip(turn as int)),
                forall|past: int| 0 <= past < turn ==> actions@[past] != Action::Quit,
            decreases actions.len() - turn,
        {
            let action: Action = actions[turn];
            let ghost rest = actions@.skip(turn as int);
            assert(rest[0] == action);
            assert(rest.drop_first() =~= actions@.skip(turn as int + 1));
            match action {
                Action::Quit => {
                    let to: Option<Position> = self.player_position();
                    return TickReport {
                        quit: true,
                        fullscreen_toggles: toggles,
                        player_moved: !same_place(to, from),
                        houses_skipped: 0,
                    };
                },
                Action::FullScreen => {
                    toggles += 1;
                },
                _ => {
                    process_player_action(action, self);
                },
            }
            turn += 1;
        }
        assert(actions@.skip(turn as int).len() == 0);
        assert(!actions@.contains(Action::Quit));
        let ghost turned = self@;
        let skipped: usize = housing_system(self, rng);
        let ghost housed = self@;
        person_system(self, rng);
        proof {
            let sites = choose|sites: Seq<Option<Position>>|
                sites.len() == turned.world.len() && housed == #[trigger] turned.after_housing(
                    sites,
                ) && skipped == turned.skipped_in(sites) && turned.grants_owed_growth(sites);
            let steps = choose|steps: Seq<(int, int)>|
                steps.len() == housed.world.len() && self@ == #[trigger] housed.after_roaming(
                    steps,
                );
            assert(self@ == old(self)@.after_turn(actions@).after_housing(sites).after_roaming(
                steps,
            ));
        }
        let to: Option<Position> = self.player_position();
        TickReport {
            quit: false,
            fullscreen_toggles: toggles,
            player_moved: !same_place(to, from),
            houses_skipped: skipped,
        }
    }
}

} // verus!
