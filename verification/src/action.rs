//! What the player can do, and what it does to the session.

use vstd::prelude::*;
use vstd::arithmetic::div_mod::lemma_fundamental_div_mod_converse;
use crate::components::House;
use crate::components::Position;
use crate::entity::Entity;
use crate::entity::player_of;
use crate::entity::lemma_player_of;
use crate::game::Game;
use crate::game::GameState;
use crate::game::has_room;
use crate::map::in_grid;
use crate::map::is_explored;
use crate::map::keeps_explored;
use crate::map::with_tile;

verus! {

/// Wood that a house costs.
pub const BUILD_COST: i32 = 10;

/// One step of the player, or a request to the program around the
/// simulation.
#[derive(Clone, Copy, Debug, PartialEq, Eq, Structural)]
pub enum Action {
    MoveUp,
    MoveDown,
    MoveLeft,
    MoveRight,
    Build,
    FullScreen,
    Quit,
}

/// One step towards lower coordinates in the middle copy of a world that is
/// `span` tiles across: leaving the copy leads to its far edge.
pub open spec fn step_back(coordinate: int, span: int) -> int {
    if coordinate - 1 < span {
        2 * span - 1
    } else {
        coordinate - 1
    }
}

/// One step towards higher coordinates in the middle copy of a world that
/// is `span` tiles across: leaving the copy leads to its near edge.
pub open spec fn step_forth(coordinate: int, span: int) -> int {
    if coordinate + 1 >= 2 * span {
        span
    } else {
        coordinate + 1
    }
}

/// Where a step of `action` leads from `from` in a world of `width` by
/// `height` tiles; anything but a move leads nowhere else.
pub open spec fn destination(action: Action, from: Position, width: int, height: int) -> (
    int,
    int,
) {
    match action {
        Action::MoveUp => (from.x as int, step_back(from.y as int, height)),
        Action::MoveDown => (from.x as int, step_forth(from.y as int, height)),
        Action::MoveLeft => (step_back(from.x as int, width), from.y as int),
        Action::MoveRight => (step_forth(from.x as int, width), from.y as int),
        _ => (from.x as int, from.y as int),
    }
}

/// The world wraps around: counted from the near edge of the middle copy, a
/// step back or forth is a step modulo the world's size. So a step back from
/// the first tile leads to the last, and a step forth from the last to the
/// first.
pub proof fn lemma_steps_wrap(coordinate: int, span: int)
    requires
        0 < span,
        span <= coordinate < 2 * span,
    ensures
        span <= step_back(coordinate, span) < 2 * span,
        span <= step_forth(coordinate, span) < 2 * span,
        step_back(coordinate, span) - span == (coordinate - span - 1) % span,
        step_forth(coordinate, span) - span == (coordinate - span + 1) % span,
        coordinate == span ==> step_back(coordinate, span) == 2 * span - 1,
        coordinate == 2 * span - 1 ==> step_forth(coordinate, span) == span,
{
    let local = coordinate - span;
    if local == 0 {
        lemma_fundamental_div_mod_converse(local - 1, span, -1, span - 1);
    } else {
        lemma_fundamental_div_mod_converse(local - 1, span, 0, local - 1);
    }
    if local == span - 1 {
        lemma_fundamental_div_mod_converse(local + 1, span, 1, 0);
    } else {
        lemma_fundamental_div_mod_converse(local + 1, span, 0, local + 1);
    }
}

/// A step forth undoes a step back, and a step back undoes a step forth.
pub proof fn lemma_steps_cancel(coordinate: int, span: int)
    requires
        0 < span,
        span <= coordinate < 2 * span,
    ensures
        step_forth(step_back(coordinate, span), span) == coordinate,
        step_back(step_forth(coordinate, span), span) == coordinate,
{
}

impl GameState {
    /// Whether the entity that walks to `(x, y)` arrives: there is a tile
    /// there, and it is not blocked.
    pub open spec fn can_enter(self, x: int, y: int) -> bool {
        in_grid(self.map, x, y) && !self.map[x][y].blocked
    }

    /// The session after the entity `id` has tried to walk to `(x, y)`: it
    /// stands there if it can enter, and where it stood otherwise.
    pub open spec fn after_walk(self, id: int, x: int, y: int) -> GameState {
        if self.can_enter(x, y) {
            self.with_position(id, Position { x: x as i32, y: y as i32 })
        } else {
            self
        }
    }

    /// Whether a house can be built at `site`: there is a tile there, it is
    /// buildable, and the ledger holds the wood.
    pub open spec fn can_build(self, site: Position) -> bool {
        &&& in_grid(self.map, site.x as int, site.y as int)
        &&& self.map[site.x as int][site.y as int].buildable
        &&& self.wood >= BUILD_COST
    }

    /// The session after a house has been built at `site`: the wood is
    /// spent, the tile is built on, and a new empty house stands there.
    pub open spec fn after_build(self, site: Position) -> GameState {
        GameState {
            wood: self.wood - BUILD_COST,
            map: with_tile(
                self.map,
                site.x as int,
                site.y as int,
                self.map[site.x as int][site.y as int].built_on(),
            ),
            world: self.world.push(Entity::dwelling(site)),
            ..self
        }
    }

    /// The session after `action`. A move takes the steered entity one
    /// tile on, around the edge of the world, unless the tile there is
    /// blocked. `Build` builds a house where the steered entity stands, if
    /// that can be done. Nothing else changes anything, and without a
    /// steered entity nothing happens at all.
    pub open spec fn after_action(self, action: Action) -> GameState {
        match player_of(self.world) {
            None => self,
            Some(id) => {
                let from = self.world[id].position->0;
                match action {
                    Action::Build => if self.can_build(from) {
                        self.after_build(from)
                    } else {
                        self
                    },
                    Action::FullScreen | Action::Quit => self,
                    _ => {
                        let to = destination(action, from, self.width, self.height);
                        self.after_walk(id, to.0, to.1)
                    },
                }
            },
        }
    }
}

/// One step back from `coordinate`.
fn back(coordinate: i32, span: i32) -> (next: i32)
    requires
        0 < span,
        3 * span <= i32::MAX,
    ensures
        next == step_back(coordinate as int, span as int),
{
    if coordinate <= span {
        2 * span - 1
    } else {
        coordinate - 1
    }
}

/// One step forth from `coordinate`.
fn forth(coordinate: i32, span: i32) -> (next: i32)
    requires
        0 < span,
        3 * span <= i32::MAX,
    ensures
        next == step_forth(coordinate as int, span as int),
{
    if coordinate >= 2 * span - 1 {
        span
    } else {
        coordinate + 1
    }
}

/// What building does. Where the steered entity stands on a buildable tile
/// and the ledger holds ten wood, `Build` takes exactly ten wood, leaves the
/// tile blocked and not buildable, and adds exactly one entity: an empty
/// house on that tile. On a tile that is not buildable, or with less wood,
/// `Build` changes nothing.
pub proof fn lemma_build(state: GameState)
    requires
        state.wf(),
        player_of(state.world) is Some,
        in_grid(
            state.map,
            state.world[player_of(state.world)->0].position->0.x as int,
            state.world[player_of(state.world)->0].position->0.y as int,
        ),
    ensures
        ({
            let id = player_of(state.world)->0;
            let site = state.world[id].position->0;
            let tile = state.map[site.x as int][site.y as int];
            let after = state.after_action(Action::Build);
            &&& tile.buildable && state.wood >= BUILD_COST ==> {
                &&& after.wood == state.wood - 10
                &&& in_grid(after.map, site.x as int, site.y as int)
                &&& !after.map[site.x as int][site.y as int].buildable
                &&& after.map[site.x as int][site.y as int].blocked
                &&& after.world.len() == state.world.len() + 1
                &&& after.world.last().house == Some(
                    House { time_since_last_spawn: 0, population: 0 },
                )
                &&& after.world.last().position == Some(site)
                &&& forall|other: int|
                    0 <= other < state.world.len() ==> #[trigger] after.world[other]
                        == state.world[other]
                &&& after.food == state.food
                &&& after.population == state.population
            }
            &&& !tile.buildable || state.wood < BUILD_COST ==> after == state
        }),
{
    lemma_player_of(state.world);
}

/// Whatever the player does, the steered entity stays the one it is, and
/// stays steered.
pub proof fn lemma_action_keeps_player(state: GameState, action: Action)
    ensures
        player_of(state.after_action(action).world) == player_of(state.world),
{
    let after = state.after_action(action);
    lemma_player_of(state.world);
    lemma_player_of(after.world);
    if let Some(id) = player_of(state.world) {
        assert(after.world[id].is_steered());
        assert forall|other: int| 0 <= other < state.world.len() implies (
        #[trigger] after.world[other]).is_steered() == state.world[other].is_steered() by {}
        let found = player_of(after.world)->0;
        if found < id {
            assert(state.world[found].is_steered());
        }
        if id < found {
            assert(after.world[id].is_steered());
        }
    }
}

/// No action of the player takes the explored mark from a tile.
pub proof fn lemma_action_keeps_explored(state: GameState, action: Action)
    ensures
        keeps_explored(state.map, state.after_action(action).map),
{
    let after = state.after_action(action);
    lemma_player_of(state.world);
    if after.map != state.map {
        let id = player_of(state.world)->0;
        let site = state.world[id].position->0;
        assert(after == state.after_build(site));
        assert forall|x: int, y: int| #[trigger]
            is_explored(state.map, x, y) implies is_explored(after.map, x, y) by {}
    }
}

/// Applies one action of the player to the session.
pub fn process_player_action(action: Action, game: &mut Game)
    requires
        old(game).wf(),
    ensures
        final(game).wf(),
        final(game)@ == old(game)@.after_action(action),
        keeps_explored(old(game)@.map, final(game)@.map),
{
    proof {
        lemma_action_keeps_explored(old(game)@, action);
    }
    let found: Option<usize> = game.world.player();
    let id: usize = match found {
        Some(id) => id,
        None => {
            return ;
        },
    };
    let from: Position = match game.world.entities[id].position {
        Some(position) => position,
        None => {
            return ;
        },
    };
    match action {
        Action::Build => {
            if game.on_grid(from.x, from.y) && game.map.is_buildable(from.x, from.y) && game.wood
                >= BUILD_COST {
                game.wood -= BUILD_COST;
                game.map.make_tile_built_on(from.x, from.y);
                game.world.push(Entity::dwelling(from));
                proof {
                    let after = old(game)@.after_build(from);
                    assert(game@.map =~~= after.map);
                    assert(game@ == after);
                    assert forall|any: int| 0 <= any < game@.world.len() implies has_room(
                        #[trigger] game@.world[any],
                    ) by {
                        if any < old(game)@.world.len() {
                            assert(has_room(old(game)@.world[any]));
                        }
                    }
                }
            }
        },
        Action::FullScreen | Action::Quit => {},
        _ => {
            let to: Position = match action {
                Action::MoveUp => Position { x: from.x, y: back(from.y, game.height) },
                Action::MoveDown => Position { x: from.x, y: forth(from.y, game.height) },
                Action::MoveLeft => Position { x: back(from.x, game.width), y: from.y },
                _ => Position { x: forth(from.x, game.width), y: from.y },
            };
            assert((to.x as int, to.y as int) == destination(
                action,
                from,
                game@.width,
                game@.height,
            ));
            if game.on_grid(to.x, to.y) && !game.map.is_tile_blocked(to.x, to.y) {
                game.world.entities[id].position = Some(to);
                proof {
                    let after = old(game)@.with_position(id as int, to);
                    assert(game@.world =~= after.world);
                    assert(game@ == after);
                    assert forall|any: int| 0 <= any < game@.world.len() implies has_room(
                        #[trigger] game@.world[any],
                    ) by {
                        assert(has_room(old(game)@.world[any]));
                    }
                }
            }
        },
    }
}

} // verus!
