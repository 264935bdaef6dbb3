//! The simulation context: the world grid, the entities and the ledger.

use vstd::prelude::*;
use crate::components::Position;
use crate::entity::Entity;
use crate::entity::EntityStore;
use crate::map::GameMap;
use crate::map::in_grid;
use crate::map::is_rect;
use crate::tile::Tile;

verus! {

/// How far from home, along each axis, a person wanders of their own
/// accord.
pub const ROAM_RANGE: i32 = 5;

/// How far beyond the grid coordinates are still in use: a home may lie
/// three tiles off the grid, and a person roams five tiles around it.
pub const EDGE_MARGIN: i32 = 8;

/// Everything a session holds.
///
/// `width` and `height` are the size of the world; the grid in `map` is
/// three times as wide and as high. The player starts and moves in the
/// middle copy of the world.
pub struct Game {
    pub map: GameMap,
    pub width: i32,
    pub height: i32,
    pub camera_height: i32,
    pub camera_width: i32,
    pub population: i32,
    pub wood: i32,
    pub food: i32,
    pub world: EntityStore,
}

/// A session as a value: what [`Game`] holds, without its storage.
pub struct GameState {
    pub map: Seq<Seq<Tile>>,
    pub width: int,
    pub height: int,
    pub camera_height: int,
    pub camera_width: int,
    pub population: int,
    pub wood: int,
    pub food: int,
    pub world: Seq<Entity>,
}

impl View for Game {
    type V = GameState;

    open spec fn view(&self) -> GameState {
        GameState {
            map: self.map@,
            width: self.width as int,
            height: self.height as int,
            camera_height: self.camera_height as int,
            camera_width: self.camera_width as int,
            population: self.population as int,
            wood: self.wood as int,
            food: self.food as int,
            world: self.world@,
        }
    }
}

/// Whether `position` is within `range` of `home` along each axis.
pub open spec fn is_near(home: Position, position: Position, range: int) -> bool {
    &&& -range <= home.x - position.x <= range
    &&& -range <= home.y - position.y <= range
}

/// Whether a world of `width` by `height` tiles can be laid out three times
/// in each direction with coordinates that fit the machine, the margin
/// beyond the grid included.
pub open spec fn fits_world(width: int, height: int) -> bool {
    &&& 0 < width
    &&& 0 < height
    &&& 3 * width + EDGE_MARGIN <= i32::MAX
    &&& 3 * height + EDGE_MARGIN <= i32::MAX
}

/// Whether `entity` has room to wander: if it is a person who stands
/// somewhere, the coordinates within roaming range of its home fit the
/// machine. Nothing is asked of where the person stands, nor of what else
/// the entity is.
pub open spec fn has_room(entity: Entity) -> bool {
    entity.person is Some && entity.position is Some ==> {
        &&& i32::MIN + ROAM_RANGE <= entity.person->0.home.x <= i32::MAX - ROAM_RANGE
        &&& i32::MIN + ROAM_RANGE <= entity.person->0.home.y <= i32::MAX - ROAM_RANGE
    }
}

impl GameState {
    /// Whether `position` lies in the middle copy of the world.
    pub open spec fn is_canonical(self, position: Position) -> bool {
        &&& self.width <= position.x < 2 * self.width
        &&& self.height <= position.y < 2 * self.height
    }

    /// Whether the session is consistent: the grid is three worlds wide and
    /// three high, and every entity has room to wander.
    pub open spec fn wf(self) -> bool {
        &&& fits_world(self.width, self.height)
        &&& is_rect(self.map, 3 * self.width, 3 * self.height)
        &&& forall|id: int| 0 <= id < self.world.len() ==> has_room(#[trigger] self.world[id])
    }

    /// The session with the entity `id` standing at `position`.
    pub open spec fn with_position(self, id: int, position: Position) -> GameState {
        GameState {
            world: self.world.update(id, Entity { position: Some(position), ..self.world[id] }),
            ..self
        }
    }
}

/// Consistency does not depend on what the tiles hold: a consistent session
/// stays so under any grid of the same size.
pub proof fn lemma_wf_with_map(state: GameState, map: Seq<Seq<Tile>>)
    requires
        state.wf(),
        is_rect(map, 3 * state.width, 3 * state.height),
    ensures
        (GameState { map, ..state }).wf(),
{
    let after = GameState { map, ..state };
    assert forall|id: int| 0 <= id < after.world.len() implies has_room(
        #[trigger] after.world[id],
    ) by {
        assert(has_room(state.world[id]));
    }
}

/// Whether `entity` has room to wander.
pub fn roams_in_range(entity: Entity) -> (roams: bool)
    ensures
        roams == has_room(entity),
{
    match (entity.person, entity.position) {
        (Some(person), Some(_)) => {
            i32::MIN + ROAM_RANGE <= person.home.x && person.home.x <= i32::MAX - ROAM_RANGE
                && i32::MIN + ROAM_RANGE <= person.home.y && person.home.y <= i32::MAX
                - ROAM_RANGE
        },
        _ => true,
    }
}

impl Game {
    /// Whether the session is consistent.
    pub open spec fn wf(&self) -> bool {
        self@.wf()
    }

    /// A session on `map` without entities, or `None` unless `map` is a
    /// grid of three times `width` by three times `height` tiles for a
    /// world that fits.
    pub fn new(
        map: GameMap,
        width: i32,
        height: i32,
        camera_width: i32,
        camera_height: i32,
        population: i32,
        wood: i32,
        food: i32,
    ) -> (game: Option<Game>)
        ensures
            game is Some <==> fits_world(width as int, height as int) && is_rect(
                map@,
                3 * width,
                3 * height,
            ),
            game matches Some(game) ==> game.wf() && game@ == (GameState {
                map: map@,
                width: width as int,
                height: height as int,
                camera_height: camera_height as int,
                camera_width: camera_width as int,
                population: population as int,
                wood: wood as int,
                food: food as int,
                world: Seq::empty(),
            }),
    {
        let game = Game {
            map,
            width,
            height,
            camera_height,
            camera_width,
            population,
            wood,
            food,
            world: EntityStore::new(),
        };
        if game.is_consistent() {
            Some(game)
        } else {
            None
        }
    }

    /// Whether `(x, y)` addresses a tile of the grid.
    pub fn on_grid(&self, x: i32, y: i32) -> (on_grid: bool)
        requires
            self.wf(),
        ensures
            on_grid == in_grid(self@.map, x as int, y as int),
    {
        if 0 <= x && x < 3 * self.width && 0 <= y && y < 3 * self.height {
            assert(self@.map[x as int].len() == 3 * self.height);
            true
        } else {
            assert(!in_grid(self@.map, x as int, y as int)) by {
                if 0 <= x < 3 * self.width {
                    assert(self@.map[x as int].len() == 3 * self.height);
                }
            }
            false
        }
    }

    /// Whether `position` lies in the middle copy of the world.
    pub fn is_canonical(&self, position: Position) -> (canonical: bool)
        ensures
            canonical == self@.is_canonical(position),
    {
        self.width <= position.x && (position.x as i64) < 2 * (self.width as i64) && self.height
            <= position.y && (position.y as i64) < 2 * (self.height as i64)
    }

    /// Whether the session is consistent. A session made by [`Game::new`]
    /// is, and stays so under every operation of the library; one whose
    /// fields were set by hand may not be.
    pub fn is_consistent(&self) -> (consistent: bool)
        ensures
            consistent == self.wf(),
    {
        if self.width <= 0 || self.height <= 0 || self.width > (i32::MAX - EDGE_MARGIN) / 3
            || self.height > (i32::MAX - EDGE_MARGIN) / 3 {
            return false;
        }
        let columns: usize = (3 * self.width) as usize;
        let rows: usize = (3 * self.height) as usize;
        if self.map.tiles.len() != columns {
            return false;
        }
        let mut x: usize = 0;
        while x < columns
            invariant
                columns == self.map.tiles.len(),
                rows == 3 * self.height,
                x <= columns,
                forall|seen: int| 0 <= seen < x ==> (#[trigger] self.map@[seen]).len() == rows,
            decreases columns - x,
        {
            if self.map.tiles[x].len() != rows {
                assert(self.map@[x as int].len() != rows);
                return false;
            }
            x += 1;
        }
        let mut id: usize = 0;
        while id < self.world.entities.len()
            invariant
                id <= self.world@.len(),
                forall|seen: int| 0 <= seen < id ==> has_room(#[trigger] self@.world[seen]),
            decreases self.world.entities.len() - id,
        {
            if !roams_in_range(self.world.entities[id]) {
                assert(!has_room(self@.world[id as int]));
                return false;
            }
            id += 1;
        }
        true
    }
}

} // verus!
