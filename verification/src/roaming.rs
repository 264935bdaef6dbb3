//! People wander: one random step per tick, held near home.

use vstd::prelude::*;
use rand::rngs::ThreadRng;
use crate::components::Position;
use crate::entity::Entity;
use crate::game::Game;
use crate::game::GameState;
use crate::game::ROAM_RANGE;
use crate::game::has_room;
use crate::game::is_near;
use crate::random::roll;

verus! {

/// The least step that a person at `at` takes along an axis on which home
/// is at `home`: one back, or none once home lies the whole roaming range
/// ahead.
pub open spec fn least_step(home: int, at: int) -> int {
    if home - at < ROAM_RANGE {
        -1
    } else {
        0
    }
}

/// The greatest step that a person at `at` takes along an axis on which
/// home is at `home`: one forth, or none once home lies the whole roaming
/// range behind.
pub open spec fn greatest_step(home: int, at: int) -> int {
    if home - at > -ROAM_RANGE {
        1
    } else {
        0
    }
}

/// Whether a person at `at`, at home at `home`, may take the step `delta`
/// along that axis.
pub open spec fn may_step(home: int, at: int, delta: int) -> bool {
    least_step(home, at) <= delta <= greatest_step(home, at)
}

impl GameState {
    /// Whether the entity `id` wanders: a person who stands somewhere.
    pub open spec fn roams(self, id: int) -> bool {
        &&& 0 <= id < self.world.len()
        &&& self.world[id].person is Some
        &&& self.world[id].position is Some
    }

    /// Whether the entity `id` takes the step `(dx, dy)`: it wanders, and
    /// may take the step along either axis.
    pub open spec fn steps(self, id: int, dx: int, dy: int) -> bool {
        &&& self.roams(id)
        &&& may_step(
            self.world[id].person->0.home.x as int,
            self.world[id].position->0.x as int,
            dx,
        )
        &&& may_step(
            self.world[id].person->0.home.y as int,
            self.world[id].position->0.y as int,
            dy,
        )
    }

    /// The session after the entity `id` has been told to step by
    /// `(dx, dy)`: it has moved by that much if it takes the step, and
    /// nothing has changed otherwise. Terrain does not hold a person up.
    pub open spec fn after_step(self, id: int, dx: int, dy: int) -> GameState {
        if self.steps(id, dx, dy) {
            let at = self.world[id].position->0;
            self.with_position(id, Position { x: (at.x + dx) as i32, y: (at.y + dy) as i32 })
        } else {
            self
        }
    }

    /// The session after the entities `0`, `1`, ... have been told to take
    /// the steps of `steps`, each in its turn.
    pub open spec fn after_roaming(self, steps: Seq<(int, int)>) -> GameState
        decreases steps.len(),
    {
        if steps.len() == 0 {
            self
        } else {
            self.after_roaming(steps.drop_last()).after_step(
                steps.len() - 1,
                steps.last().0,
                steps.last().1,
            )
        }
    }
}

/// A round of steps moves people and does nothing else: grid and ledger
/// stay, no entity comes or goes, and an entity differs from what it was in
/// where it stands at most, and only if it is a person who stood somewhere.
pub proof fn lemma_roaming_frame(state: GameState, steps: Seq<(int, int)>)
    ensures
        ({
            let after = state.after_roaming(steps);
            &&& after == (GameState { world: after.world, ..state })
            &&& after.world.len() == state.world.len()
            &&& forall|id: int|
                0 <= id < state.world.len() ==> {
                    &&& (#[trigger] after.world[id]) == (Entity {
                        position: after.world[id].position,
                        ..state.world[id]
                    })
                    &&& after.world[id].position is Some <==> state.world[id].position is Some
                    &&& state.world[id].person is None ==> after.world[id] == state.world[id]
                }
        }),
    decreases steps.len(),
{
    if steps.len() > 0 {
        lemma_roaming_frame(state, steps.drop_last());
    }
}

/// A step never takes a person further than the roaming range from home:
/// whoever stands within the range stays within it.
pub proof fn lemma_step_stays_near(home: int, at: int, delta: int)
    requires
        -ROAM_RANGE <= home - at <= ROAM_RANGE,
        may_step(home, at, delta),
    ensures
        -ROAM_RANGE <= home - (at + delta) <= ROAM_RANGE,
        -1 <= delta <= 1,
{
}

/// Whoever stands beyond the roaming range steps towards home or not at
/// all: home is no further after the step than before, and never on the
/// other side.
pub proof fn lemma_step_heads_home(home: int, at: int, delta: int)
    requires
        home - at > ROAM_RANGE || home - at < -ROAM_RANGE,
        may_step(home, at, delta),
    ensures
        home - at > ROAM_RANGE ==> 0 <= delta <= 1 && home - (at + delta) >= ROAM_RANGE,
        home - at < -ROAM_RANGE ==> -1 <= delta <= 0 && home - (at + delta) <= -ROAM_RANGE,
{
}

/// A person who takes a step stays within roaming range of home if they
/// stood within it, and is no further from home along either axis if they
/// stood beyond it.
pub proof fn lemma_step_keeps_near(state: GameState, id: int, dx: int, dy: int)
    requires
        state.roams(id),
        has_room(state.world[id]),
    ensures
        ({
            let home = state.world[id].person->0.home;
            let before = state.world[id].position->0;
            let after = state.after_step(id, dx, dy).world[id].position->0;
            &&& state.after_step(id, dx, dy).roams(id)
            &&& is_near(home, before, ROAM_RANGE as int) ==> is_near(home, after, ROAM_RANGE as int)
            &&& home.x - before.x > ROAM_RANGE ==> before.x <= after.x <= home.x
            &&& home.x - before.x < -ROAM_RANGE ==> home.x <= after.x <= before.x
            &&& home.y - before.y > ROAM_RANGE ==> before.y <= after.y <= home.y
            &&& home.y - before.y < -ROAM_RANGE ==> home.y <= after.y <= before.y
        }),
{
}

/// In a round each entity takes its own step, as it would alone: where it
/// stands afterwards depends on where it stood and on its step, and on no
/// one else.
pub proof fn lemma_roaming_each_their_own(state: GameState, steps: Seq<(int, int)>, id: int)
    requires
        0 <= id < state.world.len(),
    ensures
        state.after_roaming(steps).world.len() == state.world.len(),
        state.after_roaming(steps).world[id] == (if id < steps.len() {
            state.after_step(id, steps[id].0, steps[id].1).world[id]
        } else {
            state.world[id]
        }),
    decreases steps.len(),
{
    if steps.len() > 0 {
        lemma_roaming_each_their_own(state, steps.drop_last(), id);
        if id < steps.len() - 1 {
            assert(steps.drop_last()[id] == steps[id]);
        }
    }
}

/// The steps that a person at `at` may take along an axis on which home is
/// at `home`: the least, and the first that is too great.
pub fn step_range(home: i32, at: i32) -> (range: (i32, i32))
    ensures
        range.0 == least_step(home as int, at as int),
        range.1 == greatest_step(home as int, at as int) + 1,
        range.0 < range.1,
{
    let ahead: i64 = home as i64 - at as i64;
    let low: i32 = if ahead < ROAM_RANGE as i64 { -1 } else { 0 };
    let high: i32 = if ahead > -(ROAM_RANGE as i64) { 2 } else { 1 };
    (low, high)
}

/// Tells the entity `id` to step by `(dx, dy)`. Returns whether it did.
pub fn move_person(game: &mut Game, id: usize, dx: i32, dy: i32) -> (moved: bool)
    requires
        old(game).wf(),
    ensures
        final(game).wf(),
        moved == old(game)@.steps(id as int, dx as int, dy as int),
        final(game)@ == old(game)@.after_step(id as int, dx as int, dy as int),
        old(game)@.roams(id as int) && is_near(
            old(game)@.world[id as int].person->0.home,
            old(game)@.world[id as int].position->0,
            ROAM_RANGE as int,
        ) ==> is_near(
            final(game)@.world[id as int].person->0.home,
            final(game)@.world[id as int].position->0,
            ROAM_RANGE as int,
        ),
{
    proof {
        if old(game)@.roams(id as int) {
            assert(has_room(old(game)@.world[id as int]));
            lemma_step_keeps_near(old(game)@, id as int, dx as int, dy as int);
        }
    }
    if id >= game.world.len() {
        return false;
    }
    let entity: Entity = game.world.entities[id];
    let (person, at) = match (entity.person, entity.position) {
        (Some(person), Some(at)) => (person, at),
        _ => {
            return false;
        },
    };
    let across: (i32, i32) = step_range(person.home.x, at.x);
    let along: (i32, i32) = step_range(person.home.y, at.y);
    if dx < across.0 || dx >= across.1 || dy < along.0 || dy >= along.1 {
        return false;
    }
    assert(has_room(old(game)@.world[id as int]));
    let to: Position = Position { x: at.x + dx, y: at.y + dy };
    game.world.entities[id].position = Some(to);
    proof {
        let after = old(game)@.with_position(id as int, to);
        assert(game@.world =~= after.world);
        assert(game@ == after);
        assert forall|any: int| 0 <= any < game@.world.len() implies has_room(
            #[trigger] game@.world[any],
        ) by {
            assert(has_room(old(game)@.world[any]));
        }
    }
    true
}

/// Lets every person take one random step. Along each axis the step is
/// one back, none or one forth, except that a person who is the whole
/// roaming range from home does not step further away.
///
/// Chance picks the steps, so the outcome is stated for some sequence of
/// them, one for each entity.
pub fn person_system(game: &mut Game, rng: &mut ThreadRng)
    requires
        old(game).wf(),
    ensures
        final(game).wf(),
        exists|steps: Seq<(int, int)>|
            steps.len() == old(game)@.world.len() && final(game)@ == #[trigger] old(
                game,
            )@.after_roaming(steps),
        final(game)@.map == old(game)@.map,
{
    let count: usize = game.world.len();
    let ghost mut steps: Seq<(int, int)> = Seq::empty();
    let mut id: usize = 0;
    while id < count
        invariant
            count == old(game)@.world.len(),
            count == game@.world.len(),
            id <= count,
            game.wf(),
            steps.len() == id,
            game@ == old(game)@.after_roaming(steps),
        decreases count - id,
    {
        let entity: Entity = game.world.entities[id];
        let mut dx: i32 = 0;
        let mut dy: i32 = 0;
        match (entity.person, entity.position) {
            (Some(person), Some(at)) => {
                let across: (i32, i32) = step_range(person.home.x, at.x);
                let along: (i32, i32) = step_range(person.home.y, at.y);
                dx = roll(rng, across.0, across.1);
                dy = roll(rng, along.0, along.1);
            },
            _ => {},
        }
        move_person(game, id, dx, dy);
        proof {
            let step = (dx as int, dy as int);
            assert(steps.push(step).drop_last() =~= steps);
            steps = steps.push(step);
        }
        id += 1;
    }
    proof {
        lemma_roaming_frame(old(game)@, steps);
    }
}

} // verus!
