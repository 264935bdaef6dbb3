//! Where the player starts.

use vstd::prelude::*;
use rand::rngs::ThreadRng;
use crate::components::Position;
use crate::entity::Entity;
use crate::game::Game;
use crate::game::GameState;
use crate::game::has_room;
use crate::map::GameMap;
use crate::map::in_grid;
use crate::random::roll;
use crate::tile::Tile;

verus! {

/// The tile that is probed `(dx, dy)` away from `(x, y)`; probes beyond the
/// near edge are mirrored back onto the grid.
pub open spec fn probe(x: int, y: int, dx: int, dy: int) -> (int, int) {
    (
        if x + dx < 0 {
            -(x + dx)
        } else {
            x + dx
        },
        if y + dy < 0 {
            -(y + dy)
        } else {
            y + dy
        },
    )
}

/// Whether the tile probed `(dx, dy)` away from `(x, y)` can be walked on.
pub open spec fn is_land(grid: Seq<Seq<Tile>>, x: int, y: int, dx: int, dy: int) -> bool {
    !grid[probe(x, y, dx, dy).0][probe(x, y, dx, dy).1].blocked
}

/// Whether all four probes of `(x, y)` lie on the grid: the tile itself
/// and its neighbours one step back along either axis or both.
pub open spec fn can_probe(grid: Seq<Seq<Tile>>, x: int, y: int) -> bool {
    forall|dx: int, dy: int|
        -1 <= dx <= 0 && -1 <= dy <= 0 ==> in_grid(
            grid,
            (#[trigger] probe(x, y, dx, dy)).0,
            probe(x, y, dx, dy).1,
        )
}

/// Whether all four probes of `(x, y)` find land.
pub open spec fn is_landing(grid: Seq<Seq<Tile>>, x: int, y: int) -> bool {
    &&& is_land(grid, x, y, -1, -1)
    &&& is_land(grid, x, y, -1, 0)
    &&& is_land(grid, x, y, 0, -1)
    &&& is_land(grid, x, y, 0, 0)
}

/// Whether the tile probed `(dx, dy)` away from `(x, y)` can be walked on.
fn finds_land(x: i32, y: i32, dx: i32, dy: i32, map: &GameMap) -> (land: bool)
    requires
        -1 <= dx <= 0,
        -1 <= dy <= 0,
        can_probe(map@, x as int, y as int),
    ensures
        land == is_land(map@, x as int, y as int, dx as int, dy as int),
{
    let column: i64 = x as i64 + dx as i64;
    let row: i64 = y as i64 + dy as i64;
    let px: i64 = if column < 0 { -column } else { column };
    let py: i64 = if row < 0 { -row } else { row };
    assert((px as int, py as int) == probe(x as int, y as int, dx as int, dy as int));
    !map.tiles[px as usize][py as usize].blocked
}

/// Whether `(x, y)` is a place to start from: land on the tile itself and
/// on its three neighbours one step back.
pub fn surrounded_by_land(x: i32, y: i32, map: &GameMap) -> (land: bool)
    requires
        can_probe(map@, x as int, y as int),
    ensures
        land == is_landing(map@, x as int, y as int),
{
    finds_land(x, y, -1, -1, map) && finds_land(x, y, -1, 0, map) && finds_land(x, y, 0, -1, map)
        && finds_land(x, y, 0, 0, map)
}

impl GameState {
    /// Whether the player can start on cell `(x, y)` of the world.
    pub open spec fn can_start_at(self, x: int, y: int) -> bool {
        &&& 0 <= x < self.width
        &&& 0 <= y < self.height
        &&& is_landing(self.map, x, y)
    }

    /// The session with the player's entity added on cell `(x, y)` of the
    /// middle copy of the world.
    pub open spec fn with_player_at(self, x: int, y: int) -> GameState {
        GameState {
            world: self.world.push(
                Entity::hero(
                    Position { x: (x + self.width) as i32, y: (y + self.height) as i32 },
                ),
            ),
            ..self
        }
    }
}

impl Game {
    /// Puts the player's entity on cell `(x, y)` of the world if the player
    /// can start there, and returns its id; changes nothing otherwise.
    pub fn try_place_player(&mut self, x: i32, y: i32) -> (placed: Option<usize>)
        requires
            old(self).wf(),
        ensures
            final(self).wf(),
            placed is Some <==> old(self)@.can_start_at(x as int, y as int),
            placed matches Some(id) ==> id == old(self)@.world.len() && final(self)@ == old(
                self,
            )@.with_player_at(x as int, y as int),
            placed is None ==> final(self)@ == old(self)@,
    {
        if x < 0 || x >= self.width || y < 0 || y >= self.height {
            return None;
        }
        assert(can_probe(self.map@, x as int, y as int)) by {
            assert forall|dx: int, dy: int| -1 <= dx <= 0 && -1 <= dy <= 0 implies in_grid(
                self.map@,
                (#[trigger] probe(x as int, y as int, dx, dy)).0,
                probe(x as int, y as int, dx, dy).1,
            ) by {
                let (px, py) = probe(x as int, y as int, dx, dy);
                assert(0 <= px < 3 * self.width);
                assert(0 <= py < 3 * self.height);
                assert(self.map@[px].len() == 3 * self.height);
            }
        }
        if !surrounded_by_land(x, y, &self.map) {
            return None;
        }
        let start: Position = Position::new(x + self.width, y + self.height);
        let id: usize = self.world.push(Entity::hero(start));
        proof {
            assert(self@ == old(self)@.with_player_at(x as int, y as int));
            assert forall|any: int| 0 <= any < self@.world.len() implies has_room(
                #[trigger] self@.world[any],
            ) by {
                if any < old(self)@.world.len() {
                    assert(has_room(old(self)@.world[any]));
                }
            }
        }
        Some(id)
    }

    /// Puts the player's entity on a cell of the world drawn at random on
    /// which the player can start, and returns its id. Gives up after
    /// `attempts` draws, with nothing changed; on open land one draw will do.
    pub fn place_player(&mut self, rng: &mut ThreadRng, attempts: u32) -> (placed: Option<usize>)
        requires
            old(self).wf(),
        ensures
            final(self).wf(),
            attempts == 0 ==> placed is None,
            attempts > 0 && old(self)@.can_start_anywhere() ==> placed is Some,
            placed is None ==> final(self)@ == old(self)@,
            placed matches Some(id) ==> id == old(self)@.world.len() && exists|x: int, y: int|
                old(self)@.can_start_at(x, y) && final(self)@ == #[trigger] old(
                    self,
                )@.with_player_at(x, y),
    {
        let mut attempt: u32 = 0;
        while attempt < attempts
            invariant
                self.wf(),
                self@ == old(self)@,
                old(self)@.can_start_anywhere() ==> attempt == 0,
            decreases attempts - attempt,
        {
            let x: i32 = roll(rng, 0, self.width);
            let y: i32 = roll(rng, 0, self.height);
            let placed: Option<usize> = self.try_place_player(x, y);
            if placed.is_some() {
                assert(old(self)@.can_start_at(x as int, y as int));
                assert(self@ == old(self)@.with_player_at(x as int, y as int));
                return placed;
            }
            assert(!old(self)@.can_start_at(x as int, y as int));
            attempt += 1;
        }
        None
    }
}

impl GameState {
    /// Whether the player can start on every cell of the world: whichever
    /// cell is drawn, it is land with land one step back.
    pub open spec fn can_start_anywhere(self) -> bool {
        forall|x: int, y: int|
            0 <= x < self.width && 0 <= y < self.height ==> #[trigger] self.can_start_at(x, y)
    }
}

} // verus!
