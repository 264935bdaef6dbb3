//! The world grid.

use vstd::prelude::*;
use crate::tile::Tile;

verus! {

/// The grid of tiles, stored column by column: `tiles[x][y]`.
pub struct GameMap {
    pub tiles: Vec<Vec<Tile>>,
}

impl View for GameMap {
    type V = Seq<Seq<Tile>>;

    open spec fn view(&self) -> Seq<Seq<Tile>> {
        self.tiles@.map_values(|column: Vec<Tile>| column@)
    }
}

/// Whether `(x, y)` addresses a tile of `grid`.
pub open spec fn in_grid(grid: Seq<Seq<Tile>>, x: int, y: int) -> bool {
    0 <= x < grid.len() && 0 <= y < grid[x].len()
}

/// `grid` with the tile at `(x, y)` replaced by `tile`.
pub open spec fn with_tile(grid: Seq<Seq<Tile>>, x: int, y: int, tile: Tile) -> Seq<Seq<Tile>> {
    grid.update(x, grid[x].update(y, tile))
}

/// Whether `grid` has `columns` columns of `rows` tiles each.
pub open spec fn is_rect(grid: Seq<Seq<Tile>>, columns: int, rows: int) -> bool {
    &&& grid.len() == columns
    &&& forall|x: int| 0 <= x < grid.len() ==> (#[trigger] grid[x]).len() == rows
}

/// Whether `grid` is a `width` by `height` world laid out three times in
/// each direction, every copy equal to the first.
pub open spec fn is_tiled(grid: Seq<Seq<Tile>>, width: int, height: int) -> bool {
    &&& 0 < width
    &&& 0 < height
    &&& is_rect(grid, 3 * width, 3 * height)
    &&& forall|x: int, y: int, i: int, j: int|
        0 <= x < width && 0 <= y < height && 0 <= i < 3 && 0 <= j < 3
            ==> #[trigger] grid[x + i * width][y + j * height] == grid[x][y]
}

/// Whether `(x, y)` addresses a tile of `grid` that has been seen.
pub open spec fn is_explored(grid: Seq<Seq<Tile>>, x: int, y: int) -> bool {
    in_grid(grid, x, y) && grid[x][y].explored
}

/// Whether every tile explored in `before` is explored in `after`.
pub open spec fn keeps_explored(before: Seq<Seq<Tile>>, after: Seq<Seq<Tile>>) -> bool {
    forall|x: int, y: int| #[trigger] is_explored(before, x, y) ==> is_explored(after, x, y)
}

/// What is explored stays explored over any number of changes that each
/// keep it.
pub proof fn lemma_keeps_explored_onward(
    first: Seq<Seq<Tile>>,
    second: Seq<Seq<Tile>>,
    third: Seq<Seq<Tile>>,
)
    requires
        keeps_explored(first, second),
        keeps_explored(second, third),
    ensures
        keeps_explored(first, third),
{
}

impl GameMap {
    pub fn new(tiles: Vec<Vec<Tile>>) -> (map: GameMap)
        ensures
            map.tiles == tiles,
    {
        GameMap { tiles }
    }

    pub open spec fn in_bounds(&self, x: int, y: int) -> bool {
        in_grid(self@, x, y)
    }

    pub fn is_tile_blocked(&self, x: i32, y: i32) -> (blocked: bool)
        requires
            self.in_bounds(x as int, y as int),
        ensures
            blocked == self@[x as int][y as int].blocked,
    {
        self.tiles[x as usize][y as usize].blocked
    }

    pub fn is_buildable(&self, x: i32, y: i32) -> (buildable: bool)
        requires
            self.in_bounds(x as int, y as int),
        ensures
            buildable == self@[x as int][y as int].buildable,
    {
        self.tiles[x as usize][y as usize].buildable
    }

    /// Marks the tile as occupied: nothing walks onto it or builds on it
    /// again.
    pub fn make_tile_built_on(&mut self, x: i32, y: i32)
        requires
            old(self).in_bounds(x as int, y as int),
        ensures
            final(self)@ == with_tile(
                old(self)@,
                x as int,
                y as int,
                old(self)@[x as int][y as int].built_on(),
            ),
    {
        self.tiles[x as usize][y as usize].blocked = true;
        self.tiles[x as usize][y as usize].buildable = false;
        assert(self@ =~~= with_tile(
            old(self)@,
            x as int,
            y as int,
            old(self)@[x as int][y as int].built_on(),
        ));
    }

    pub fn is_tile_blocking_vision(&self, x: usize, y: usize) -> (blocking: bool)
        requires
            self.in_bounds(x as int, y as int),
        ensures
            blocking == self@[x as int][y as int].block_sight,
    {
        self.tiles[x][y].block_sight
    }

    /// A copy of the tile at `(x, y)`.
    pub fn get_tile(&self, x: usize, y: usize) -> (tile: Tile)
        requires
            self.in_bounds(x as int, y as int),
        ensures
            tile == self@[x as int][y as int],
    {
        self.tiles[x][y]
    }

    pub fn set_tile_explored(&mut self, explored: bool, x: usize, y: usize)
        requires
            old(self).in_bounds(x as int, y as int),
        ensures
            final(self)@ == with_tile(
                old(self)@,
                x as int,
                y as int,
                old(self)@[x as int][y as int].with_explored(explored),
            ),
    {
        self.tiles[x][y].explored = explored;
    }

    /// Harvests the tile at `(x, y)` and returns what it yields.
    pub fn harvest(&mut self, x: i32, y: i32) -> (yielded: i32)
        requires
            old(self).in_bounds(x as int, y as int),
        ensures
            yielded == old(self)@[x as int][y as int].fertility,
            final(self)@ == with_tile(
                old(self)@,
                x as int,
                y as int,
                old(self)@[x as int][y as int].harvested(),
            ),
    {
        self.tiles[x as usize][y as usize].harvest()
    }
}

} // verus!
