//! Terrain generation: from noise samples to the tiled world grid.
//!
//! Noise channels are read from outside as fixed-point numbers, a sample of
//! 1.0 standing at [`SAMPLE_UNIT`]. Elevations are kept in fifteenths of that
//! unit, in which the detail channel's share of 1/7.5 is a whole factor.

use vstd::prelude::*;
use vstd::arithmetic::div_mod::lemma_mod_multiples_vanish;
use vstd::arithmetic::div_mod::lemma_small_mod;
use crate::map::GameMap;
use crate::map::is_tiled;
use crate::tile::Tile;

verus! {

/// The fixed-point value of a noise sample of 1.0.
pub const SAMPLE_UNIT: i64 = 1_000_000;

/// Elevation -0.1, in fifteenths of the sample unit: ground at or above it
/// is roughened.
pub const ROUGH_LINE: i128 = -1_500_000;

/// Elevation 1.1, in fifteenths of the sample unit: mountains start here.
pub const MOUNTAIN_LINE: i128 = 16_500_000;

/// Elevation 0.5, in fifteenths of the sample unit: hills start here.
pub const HILL_LINE: i128 = 7_500_000;

/// Elevation -0.175, in fifteenths of the sample unit: below it lies water.
pub const WATER_LINE: i128 = -2_625_000;

/// Fertility 0.25, in sample units: forest grows from here up.
pub const FOREST_LINE: i64 = 250_000;

/// The four noise channels read at one cell of the world.
#[derive(Clone, Copy, Debug, PartialEq, Eq)]
pub struct NoiseSample {
    /// The broad shape of the land.
    pub height: i64,
    /// Fine detail, which counts for 1/7.5 of its value.
    pub detail: i64,
    /// How rugged the ground is where it is not lowland.
    pub roughness: i64,
    /// What grows on level ground.
    pub fertility: i64,
}

/// What kind of ground a cell is.
#[derive(Clone, Copy, Debug, PartialEq, Eq, Structural)]
pub enum Terrain {
    Mountain,
    Hill,
    Water,
    Forest,
    Plains,
}

impl Terrain {
    /// The tile that a cell of this terrain starts as.
    pub open spec fn tile_spec(self) -> Tile {
        match self {
            Terrain::Mountain => Tile::mountain(),
            Terrain::Hill => Tile::hill(),
            Terrain::Water => Tile::water(),
            Terrain::Forest => Tile::forest(),
            Terrain::Plains => Tile::meadow(),
        }
    }

    #[verifier::when_used_as_spec(tile_spec)]
    pub fn tile(self) -> (tile: Tile)
        ensures
            tile == self.tile_spec(),
    {
        match self {
            Terrain::Mountain => Tile::mountain(),
            Terrain::Hill => Tile::hill(),
            Terrain::Water => Tile::water(),
            Terrain::Forest => Tile::forest(),
            Terrain::Plains => Tile::meadow(),
        }
    }
}

impl NoiseSample {
    /// Fifteen times the cell's elevation: height plus detail over 7.5,
    /// and on top of that the magnitude of the roughness wherever the sum
    /// reaches the rough line.
    pub open spec fn elevation_spec(&self) -> int {
        let base = 15 * self.height + 2 * self.detail;
        if base >= ROUGH_LINE {
            base + 15 * (if self.roughness < 0 { -self.roughness } else { self.roughness as int })
        } else {
            base
        }
    }

    pub fn elevation(&self) -> (elevation: i128)
        ensures
            elevation == self.elevation_spec(),
    {
        let base: i128 = 15 * (self.height as i128) + 2 * (self.detail as i128);
        if base >= ROUGH_LINE {
            let rough: i128 = self.roughness as i128;
            let magnitude: i128 = if rough < 0 { -rough } else { rough };
            base + 15 * magnitude
        } else {
            base
        }
    }

    /// The terrain of the cell, the first of these that applies: mountain
    /// from the mountain line up, hill from the hill line up, water below
    /// the water line, forest where fertility reaches the forest line,
    /// plains otherwise.
    pub open spec fn terrain_spec(&self) -> Terrain {
        if self.elevation_spec() >= MOUNTAIN_LINE {
            Terrain::Mountain
        } else if self.elevation_spec() >= HILL_LINE {
            Terrain::Hill
        } else if self.elevation_spec() < WATER_LINE {
            Terrain::Water
        } else if self.fertility >= FOREST_LINE {
            Terrain::Forest
        } else {
            Terrain::Plains
        }
    }

    #[verifier::when_used_as_spec(terrain_spec)]
    pub fn terrain(&self) -> (terrain: Terrain)
        ensures
            terrain == self.terrain_spec(),
    {
        let elevation: i128 = self.elevation();
        if elevation >= MOUNTAIN_LINE {
            Terrain::Mountain
        } else if elevation >= HILL_LINE {
            Terrain::Hill
        } else if elevation < WATER_LINE {
            Terrain::Water
        } else if self.fertility >= FOREST_LINE {
            Terrain::Forest
        } else {
            Terrain::Plains
        }
    }
}

/// The samples of a world as a grid of values, `samples[x][y]`.
pub open spec fn sample_grid(samples: &Vec<Vec<NoiseSample>>) -> Seq<Seq<NoiseSample>> {
    samples@.map_values(|column: Vec<NoiseSample>| column@)
}

/// Whether `samples` holds one sample for each cell of a world of at least
/// one column and one row.
pub open spec fn covers_world(samples: Seq<Seq<NoiseSample>>) -> bool {
    &&& samples.len() > 0
    &&& samples[0].len() > 0
    &&& forall|x: int| 0 <= x < samples.len() ==> (#[trigger] samples[x]).len() == samples[0].len()
}

/// The grid generated from `samples`: three times as wide and as high as
/// the world, each tile the fresh tile of the terrain at its cell, cells
/// counted modulo the world's size.
pub open spec fn world_of(samples: Seq<Seq<NoiseSample>>) -> Seq<Seq<Tile>> {
    Seq::new(
        3 * samples.len(),
        |x: int|
            Seq::new(
                3 * samples[0].len(),
                |y: int|
                    samples[x % (samples.len() as int)][y % (
                    samples[0].len() as int)].terrain().tile(),
            ),
    )
}

/// A generated grid consists of nine equal copies of the world.
pub proof fn lemma_world_is_tiled(samples: Seq<Seq<NoiseSample>>)
    requires
        covers_world(samples),
    ensures
        is_tiled(world_of(samples), samples.len() as int, samples[0].len() as int),
{
    let width = samples.len() as int;
    let height = samples[0].len() as int;
    let grid = world_of(samples);
    assert forall|x: int, y: int, i: int, j: int|
        0 <= x < width && 0 <= y < height && 0 <= i < 3 && 0 <= j < 3 implies #[trigger] grid[x + i
        * width][y + j * height] == grid[x][y] by {
        lemma_mod_multiples_vanish(i, x, width);
        lemma_mod_multiples_vanish(j, y, height);
        lemma_small_mod(x as nat, width as nat);
        lemma_small_mod(y as nat, height as nat);
        assert(0 <= x + i * width < 3 * width) by (nonlinear_arith)
            requires
                0 <= x < width,
                0 <= i < 3,
        ;
        assert(0 <= y + j * height < 3 * height) by (nonlinear_arith)
            requires
                0 <= y < height,
                0 <= j < 3,
        ;
        assert(width * i + x == x + i * width) by (nonlinear_arith);
        assert(height * j + y == y + j * height) by (nonlinear_arith);
    }
}

/// Generation is deterministic: two grids generated from the same samples
/// are the same, tile for tile.
pub proof fn lemma_same_samples_same_world(
    first: GameMap,
    second: GameMap,
    samples: Seq<Seq<NoiseSample>>,
)
    requires
        first@ == world_of(samples),
        second@ == world_of(samples),
    ensures
        first@ == second@,
        forall|x: int, y: int|
            0 <= x < first@.len() && 0 <= y < first@[x].len() ==> #[trigger] first@[x][y]
                == second@[x][y],
{
}

/// Generates the world grid from one noise sample per cell.
///
/// The grid depends on the samples alone: equal samples give equal grids.
pub fn make_map(samples: &Vec<Vec<NoiseSample>>) -> (map: GameMap)
    requires
        covers_world(sample_grid(samples)),
        3 * samples.len() <= usize::MAX,
        3 * samples[0].len() <= usize::MAX,
    ensures
        map@ == world_of(sample_grid(samples)),
        is_tiled(map@, samples.len() as int, samples[0].len() as int),
{
    let width: usize = samples.len();
    assert(sample_grid(samples)[0] == samples[0]@);
    let height: usize = samples[0].len();
    let ghost grid = sample_grid(samples);
    let mut tiles: Vec<Vec<Tile>> = Vec::new();
    let mut x: usize = 0;
    while x < 3 * width
        invariant
            width == samples.len(),
            height == samples[0].len(),
            grid == sample_grid(samples),
            covers_world(grid),
            3 * width <= usize::MAX,
            3 * height <= usize::MAX,
            x <= 3 * width,
            tiles.len() == x,
            forall|px: int| 0 <= px < x ==> (#[trigger] tiles[px])@ == world_of(grid)[px],
        decreases 3 * width - x,
    {
        let source: &Vec<NoiseSample> = &samples[x % width];
        assert(source@ == grid[x as int % width as int]);
        let mut column: Vec<Tile> = Vec::new();
        let mut y: usize = 0;
        while y < 3 * height
            invariant
                height == grid[0].len(),
                source.len() == height,
                height > 0,
                3 * height <= usize::MAX,
                y <= 3 * height,
                column.len() == y,
                forall|py: int|
                    0 <= py < y ==> #[trigger] column[py] == source[py
                        % height as int].terrain().tile(),
            decreases 3 * height - y,
        {
            let tile: Tile = source[y % height].terrain().tile();
            column.push(tile);
            y += 1;
        }
        assert(column@ =~= world_of(grid)[x as int]);
        tiles.push(column);
        x += 1;
    }
    let map = GameMap { tiles };
    assert(map@ =~~= world_of(grid));
    proof {
        lemma_world_is_tiled(grid);
    }
    map
}

} // verus!
