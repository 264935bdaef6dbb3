//! Houses grow: each takes food from the ledger and settles a new person on
//! a buildable tile nearby.

use vstd::prelude::*;
use rand::rngs::ThreadRng;
use crate::components::House;
use crate::components::Position;
use crate::entity::Entity;
use crate::game::Game;
use crate::game::GameState;
use crate::game::has_room;
use crate::game::is_near;
use crate::map::in_grid;
use crate::random::roll;

verus! {

/// Food that one step of growth costs.
pub const GROWTH_COST: i32 = 10;

/// The largest population from which a house still grows.
pub const GROWING_POPULATION: i32 = 4;

/// How far from its house, along each axis, a new person is settled.
pub const SETTLE_RANGE: i32 = 3;

/// How many tiles are tried before a house gives up on growing this tick.
pub const SETTLE_ATTEMPTS: u32 = 64;

impl GameState {
    /// Whether the entity `id` is a house that grows if it finds a site: it
    /// stands somewhere, is not full yet, and the ledger holds the food.
    pub open spec fn can_grow(self, id: int) -> bool {
        &&& 0 <= id < self.world.len()
        &&& self.world[id].house is Some
        &&& self.world[id].position is Some
        &&& self.world[id].house->0.population <= GROWING_POPULATION
        &&& self.food >= GROWTH_COST
    }

    /// Whether a person of the house at `origin` can be settled at `site`:
    /// a buildable tile of the grid within settling range.
    pub open spec fn is_site(self, origin: Position, site: Position) -> bool {
        &&& in_grid(self.map, site.x as int, site.y as int)
        &&& self.map[site.x as int][site.y as int].buildable
        &&& is_near(origin, site, SETTLE_RANGE as int)
    }

    /// Whether the house `id` grows when it is offered `site`.
    pub open spec fn grows(self, id: int, site: Option<Position>) -> bool {
        &&& self.can_grow(id)
        &&& site matches Some(place)
        &&& self.is_site(self.world[id].position->0, place)
    }

    /// The session after the entity `id` has been offered `site`. If it
    /// grows, the house holds one more, the ledger ten food less, and a new
    /// person stands at the site, at home where the house stands. Otherwise
    /// nothing changes.
    pub open spec fn after_growth(self, id: int, site: Option<Position>) -> GameState {
        if self.grows(id, site) {
            let entity = self.world[id];
            let house = entity.house->0;
            GameState {
                food: self.food - GROWTH_COST,
                world: self.world.update(
                    id,
                    Entity {
                        house: Some(House { population: (house.population + 1) as i32, ..house }),
                        ..entity
                    },
                ).push(Entity::settler(entity.position->0, site->0)),
                ..self
            }
        } else {
            self
        }
    }

    /// Whether the house `id` gives up on growing when it is offered
    /// `site`: it could grow, but not there.
    pub open spec fn skips(self, id: int, site: Option<Position>) -> bool {
        self.can_grow(id) && !self.grows(id, site)
    }

    /// How many houses give up on growing when the entities `0`, `1`, ...
    /// are offered the sites of `sites`, each in its turn.
    pub open spec fn skipped_in(self, sites: Seq<Option<Position>>) -> nat
        decreases sites.len(),
    {
        if sites.len() == 0 {
            0
        } else if self.after_housing(sites.drop_last()).skips(sites.len() - 1, sites.last()) {
            self.skipped_in(sites.drop_last()) + 1
        } else {
            self.skipped_in(sites.drop_last())
        }
    }

    /// The session after the entities `0`, `1`, ... have been offered the
    /// sites of `sites`, each in its turn.
    pub open spec fn after_housing(self, sites: Seq<Option<Position>>) -> GameState
        decreases sites.len(),
    {
        if sites.len() == 0 {
            self
        } else {
            self.after_housing(sites.drop_last()).after_growth(sites.len() - 1, sites.last())
        }
    }

    /// Whether the offers of `sites` grant every growth that is owed: each
    /// entity that can grow at its turn, and around which every tile in
    /// range is a site, is offered a site on which it grows.
    pub open spec fn grants_owed_growth(self, sites: Seq<Option<Position>>) -> bool {
        forall|id: int|
            0 <= id < sites.len() && self.after_housing(sites.take(id)).can_grow(id)
                && is_open_around(self, self.world[id].position->0) ==> self.after_housing(
                sites.take(id),
            ).grows(id, #[trigger] sites[id])
    }
}

/// Growth touches the food, the house and the new person, and nothing
/// else: it costs ten food, raises the population of the house by one and
/// adds one entity.
pub proof fn lemma_growth_frame(state: GameState, id: int, site: Option<Position>)
    ensures
        ({
            let after = state.after_growth(id, site);
            &&& after == (GameState { food: after.food, world: after.world, ..state })
            &&& !state.grows(id, site) ==> after == state
            &&& state.grows(id, site) ==> {
                &&& after.food == state.food - GROWTH_COST
                &&& after.world.len() == state.world.len() + 1
                &&& after.world[id].house->0.population == state.world[id].house->0.population + 1
                &&& after.world.last() == Entity::settler(state.world[id].position->0, site->0)
            }
            &&& forall|other: int|
                0 <= other < state.world.len() && other != id ==> #[trigger] after.world[other]
                    == state.world[other]
        }),
{
}

/// Over a whole round of growth the ledger pays ten food for each new
/// person and nothing else changes hands: grid, wood and population figure
/// stay, no entity leaves, and the food that is left is what was there
/// less ten for each entity that was added. A round never drives the food
/// below zero, and with less than ten food nothing grows at all.
pub proof fn lemma_housing_ledger(state: GameState, sites: Seq<Option<Position>>)
    ensures
        ({
            let after = state.after_housing(sites);
            &&& after == (GameState { food: after.food, world: after.world, ..state })
            &&& after.world.len() >= state.world.len()
            &&& after.food == state.food - GROWTH_COST * (after.world.len() - state.world.len())
            &&& after.world.len() > state.world.len() ==> after.food >= 0
            &&& state.food < GROWTH_COST ==> after == state
        }),
    decreases sites.len(),
{
    if sites.len() > 0 {
        let before = state.after_housing(sites.drop_last());
        lemma_housing_ledger(state, sites.drop_last());
        lemma_growth_frame(before, sites.len() - 1, sites.last());
    }
}

/// A house is offered one site in a round, so it grows by one at most, and
/// a house that holds more than four does not grow. What an entity is
/// besides a house does not change.
pub proof fn lemma_housing_one_step(state: GameState, sites: Seq<Option<Position>>, id: int)
    requires
        0 <= id < state.world.len(),
    ensures
        ({
            let before = state.world[id];
            let after = state.after_housing(sites).world[id];
            &&& id < state.after_housing(sites).world.len()
            &&& after == before || {
                &&& before.house is Some
                &&& before.house->0.population <= GROWING_POPULATION
                &&& id < sites.len()
                &&& after == (Entity {
                    house: Some(
                        House {
                            population: (before.house->0.population + 1) as i32,
                            ..before.house->0
                        },
                    ),
                    ..before
                })
            }
        }),
    decreases sites.len(),
{
    if sites.len() > 0 {
        let earlier = state.after_housing(sites.drop_last());
        lemma_housing_one_step(state, sites.drop_last(), id);
        lemma_housing_ledger(state, sites.drop_last());
        lemma_growth_frame(earlier, sites.len() - 1, sites.last());
        if id == sites.len() - 1 {
            lemma_housing_untouched(state, sites.drop_last(), id);
        }
    }
}

/// The offers of a round reach the entities in order: those that have not
/// had their turn are as they were.
pub proof fn lemma_housing_untouched(state: GameState, sites: Seq<Option<Position>>, id: int)
    requires
        sites.len() <= id < state.world.len(),
    ensures
        id < state.after_housing(sites).world.len(),
        state.after_housing(sites).world[id] == state.world[id],
    decreases sites.len(),
{
    if sites.len() > 0 {
        let earlier = state.after_housing(sites.drop_last());
        lemma_housing_untouched(state, sites.drop_last(), id);
        lemma_growth_frame(earlier, sites.len() - 1, sites.last());
    }
}

/// A house that holds four still grows, to five, if it has the food and
/// finds a site; a house that holds five grows no more, whatever it is
/// offered.
pub proof fn lemma_growth_stops_at_five(
    state: GameState,
    id: int,
    site: Position,
    next: Option<Position>,
)
    requires
        state.can_grow(id),
        state.world[id].house->0.population == GROWING_POPULATION,
        state.is_site(state.world[id].position->0, site),
    ensures
        state.after_growth(id, Some(site)).world[id].house->0.population == 5,
        state.after_growth(id, Some(site)).food == state.food - GROWTH_COST,
        state.after_growth(id, Some(site)).after_growth(id, next) == state.after_growth(
            id,
            Some(site),
        ),
{
}

/// The tile `(dx, dy)` away from `origin`, if the house at `origin` can
/// settle a person there.
pub open spec fn site_at(state: GameState, origin: Position, dx: int, dy: int) -> Option<Position> {
    if in_grid(state.map, origin.x + dx, origin.y + dy) && state.map[origin.x + dx][origin.y
        + dy].buildable && -SETTLE_RANGE <= dx <= SETTLE_RANGE && -SETTLE_RANGE <= dy
        <= SETTLE_RANGE {
        Some(Position { x: (origin.x + dx) as i32, y: (origin.y + dy) as i32 })
    } else {
        None
    }
}

/// Looks at the tile `(dx, dy)` away from `origin` and returns it if a
/// person can be settled there.
pub fn candidate_site(game: &Game, origin: Position, dx: i32, dy: i32) -> (site: Option<Position>)
    requires
        game.wf(),
    ensures
        site == site_at(game@, origin, dx as int, dy as int),
        site matches Some(place) ==> game@.is_site(origin, place),
{
    if dx < -SETTLE_RANGE || dx > SETTLE_RANGE || dy < -SETTLE_RANGE || dy > SETTLE_RANGE {
        return None;
    }
    let x: i64 = origin.x as i64 + dx as i64;
    let y: i64 = origin.y as i64 + dy as i64;
    if x < 0 || x >= 3 * (game.width as i64) || y < 0 || y >= 3 * (game.height as i64) {
        assert(!in_grid(game@.map, x as int, y as int)) by {
            if 0 <= x < 3 * game.width {
                assert(game@.map[x as int].len() == 3 * game.height);
            }
        }
        return None;
    }
    assert(game@.map[x as int].len() == 3 * game.height);
    if game.map.is_buildable(x as i32, y as i32) {
        Some(Position::new(x as i32, y as i32))
    } else {
        None
    }
}

/// Tries tiles near `origin` at random, a bounded number of times, and
/// returns the first on which a person can be settled. Chance decides which
/// tile that is; where every tile in range will do, one is always found.
pub fn search_site(game: &Game, origin: Position, rng: &mut ThreadRng) -> (site: Option<Position>)
    requires
        game.wf(),
    ensures
        site matches Some(place) ==> game@.is_site(origin, place),
        is_open_around(game@, origin) ==> site is Some,
{
    let mut attempt: u32 = 0;
    while attempt < SETTLE_ATTEMPTS
        invariant
            game.wf(),
            is_open_around(game@, origin) ==> attempt == 0,
        decreases SETTLE_ATTEMPTS - attempt,
    {
        let dx: i32 = roll(rng, -SETTLE_RANGE, SETTLE_RANGE + 1);
        let dy: i32 = roll(rng, -SETTLE_RANGE, SETTLE_RANGE + 1);
        let site: Option<Position> = candidate_site(game, origin, dx, dy);
        if site.is_some() {
            return site;
        }
        assert(site_at(game@, origin, dx as int, dy as int) is None);
        attempt += 1;
    }
    None
}

/// Whether a person of the house at `origin` can be settled on every tile
/// within settling range: whichever tile is tried, it is a site.
pub open spec fn is_open_around(state: GameState, origin: Position) -> bool {
    forall|dx: int, dy: int|
        -SETTLE_RANGE <= dx <= SETTLE_RANGE && -SETTLE_RANGE <= dy <= SETTLE_RANGE ==> (
        #[trigger] site_at(state, origin, dx, dy)) is Some
}

/// Whether the ground around a place is open depends on the grid alone.
pub proof fn lemma_open_ground_is_the_grid(first: GameState, second: GameState, origin: Position)
    requires
        first.map == second.map,
    ensures
        is_open_around(first, origin) == is_open_around(second, origin),
{
    assert forall|dx: int, dy: int|
        site_at(first, origin, dx, dy) == #[trigger] site_at(second, origin, dx, dy) by {}
    assert forall|dx: int, dy: int|
        site_at(second, origin, dx, dy) == #[trigger] site_at(first, origin, dx, dy) by {}
}

/// Offers `site` to the entity `id`: a house that can grow and can settle
/// a person there does so. Returns whether it grew.
pub fn grow_house(game: &mut Game, id: usize, site: Option<Position>) -> (grew: bool)
    requires
        old(game).wf(),
    ensures
        final(game).wf(),
        grew == old(game)@.grows(id as int, site),
        final(game)@ == old(game)@.after_growth(id as int, site),
{
    if id >= game.world.len() || game.food < GROWTH_COST {
        return false;
    }
    let entity: Entity = game.world.entities[id];
    let (house, origin, place) = match (entity.house, entity.position, site) {
        (Some(house), Some(origin), Some(place)) => (house, origin, place),
        _ => {
            return false;
        },
    };
    if house.population > GROWING_POPULATION {
        return false;
    }
    if place.x < 0 || place.x >= 3 * game.width || place.y < 0 || place.y >= 3 * game.height {
        assert(!in_grid(game@.map, place.x as int, place.y as int)) by {
            if 0 <= place.x < 3 * game.width {
                assert(game@.map[place.x as int].len() == 3 * game.height);
            }
        }
        return false;
    }
    assert(game@.map[place.x as int].len() == 3 * game.height);
    let dx: i64 = origin.x as i64 - place.x as i64;
    let dy: i64 = origin.y as i64 - place.y as i64;
    if dx < -(SETTLE_RANGE as i64) || dx > SETTLE_RANGE as i64 || dy < -(SETTLE_RANGE as i64) || dy
        > SETTLE_RANGE as i64 {
        return false;
    }
    if !game.map.is_buildable(place.x, place.y) {
        return false;
    }
    assert(old(game)@.grows(id as int, site));
    game.world.entities[id].house = Some(House { population: house.population + 1, ..house });
    game.food -= GROWTH_COST;
    game.world.push(Entity::settler(origin, place));
    proof {
        let after = old(game)@.after_growth(id as int, site);
        assert(game@.world =~= after.world);
        assert(game@ == after);
        assert forall|any: int| 0 <= any < game@.world.len() implies has_room(
            #[trigger] game@.world[any],
        ) by {
            if any < old(game)@.world.len() {
                assert(has_room(old(game)@.world[any]));
            }
        }
    }
    true
}

/// Lets every house grow that can. Each house that is not full, while the
/// ledger holds the food, searches a site nearby and grows if it finds
/// one; a house that finds none skips its growth for this tick. The people
/// settled this way do not take part before the next tick. Returns how
/// many houses skipped their growth.
///
/// Chance picks the sites, so the outcome is stated for some sequence of
/// them, one offer for each entity that was there at the start.
pub fn housing_system(game: &mut Game, rng: &mut ThreadRng) -> (skipped: usize)
    requires
        old(game).wf(),
    ensures
        final(game).wf(),
        exists|sites: Seq<Option<Position>>|
            sites.len() == old(game)@.world.len() && final(game)@ == #[trigger] old(
                game,
            )@.after_housing(sites) && skipped == old(game)@.skipped_in(sites) && old(
                game,
            )@.grants_owed_growth(sites),
        final(game)@.map == old(game)@.map,
{
    let count: usize = game.world.len();
    let ghost mut sites: Seq<Option<Position>> = Seq::empty();
    let mut skipped: usize = 0;
    let mut id: usize = 0;
    while id < count
        invariant
            count == old(game)@.world.len(),
            id <= count,
            game.wf(),
            game@.world.len() >= count,
            sites.len() == id,
            game@ == old(game)@.after_housing(sites),
            skipped == old(game)@.skipped_in(sites),
            skipped <= id,
            old(game)@.grants_owed_growth(sites),
        decreases count - id,
    {
        let entity: Entity = game.world.entities[id];
        let mut site: Option<Position> = None;
        let mut searched: bool = false;
        match (entity.house, entity.position) {
            (Some(house), Some(origin)) => {
                if house.population <= GROWING_POPULATION && game.food >= GROWTH_COST {
                    site = search_site(game, origin, rng);
                    searched = true;
                }
            },
            _ => {},
        }
        assert(searched == game@.can_grow(id as int));
        let ghost before = game@;
        let grew: bool = grow_house(game, id, site);
        if searched && !grew {
            skipped += 1;
        }
        proof {
            let offered = sites.push(site);
            assert(offered.drop_last() =~= sites);
            assert(game@.world.len() >= before.world.len());
            lemma_housing_ledger(old(game)@, sites);
            lemma_housing_untouched(old(game)@, sites, id as int);
            assert forall|turn: int|
                0 <= turn < offered.len() && old(game)@.after_housing(offered.take(turn)).can_grow(
                    turn,
                ) && is_open_around(
                    old(game)@,
                    old(game)@.world[turn].position->0,
                ) implies old(game)@.after_housing(offered.take(turn)).grows(
                turn,
                #[trigger] offered[turn],
            ) by {
                if turn < id {
                    assert(offered.take(turn) =~= sites.take(turn));
                    assert(offered[turn] == sites[turn]);
                } else {
                    assert(offered.take(turn) =~= sites);
                    lemma_open_ground_is_the_grid(
                        old(game)@,
                        before,
                        before.world[turn].position->0,
                    );
                }
            }
            sites = offered;
        }
        id += 1;
    }
    proof {
        lemma_housing_ledger(old(game)@, sites);
    }
    skipped
}

} // verus!
