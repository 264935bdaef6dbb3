use noise::NoiseFn;
use noise::Perlin;
use rouge_civ::color::Color;
use rouge_civ::terrain::make_map;
use rouge_civ::terrain::NoiseSample;
use rouge_civ::terrain::Terrain;
use rouge_civ::terrain::SAMPLE_UNIT;
use rouge_civ::tile::Tile;

fn sample(height: i64, detail: i64, roughness: i64, fertility: i64) -> NoiseSample {
    NoiseSample { height, detail, roughness, fertility }
}

fn fixed_point(value: f64) -> i64 {
    (value * SAMPLE_UNIT as f64).round() as i64
}

fn sampled_world(seed: f64, width: usize, height: usize) -> Vec<Vec<NoiseSample>> {
    let perlin = Perlin::new();
    let mut samples: Vec<Vec<NoiseSample>> = Vec::new();
    for x in 0..width {
        let mut column: Vec<NoiseSample> = Vec::new();
        for y in 0..height {
            let fx = x as f64;
            let fy = y as f64;
            column.push(NoiseSample {
                height: fixed_point(perlin.get([fx / 10.0, fy / 10.0, seed])),
                detail: fixed_point(perlin.get([fx, fy, seed + 1.0])),
                roughness: fixed_point(perlin.get([fx / 10.0, fy / 10.0, 2.5])),
                fertility: fixed_point(perlin.get([fx / 10.0, fy / 10.0, 1.999_282_82])),
            });
        }
        samples.push(column);
    }
    samples
}

fn striped_world(width: usize, height: usize) -> Vec<Vec<NoiseSample>> {
    let kinds = [
        sample(2_000_000, 0, 0, 0),
        sample(600_000, 0, 0, 0),
        sample(-500_000, 0, 0, 0),
        sample(0, 0, 0, 300_000),
        sample(0, 0, 0, 0),
    ];
    let mut samples: Vec<Vec<NoiseSample>> = Vec::new();
    for x in 0..width {
        let mut column: Vec<NoiseSample> = Vec::new();
        for y in 0..height {
            column.push(kinds[(x * 3 + y * 7) % 5]);
        }
        samples.push(column);
    }
    samples
}

#[test]
fn sample_unit_is_a_million() {
    assert_eq!(SAMPLE_UNIT, 1_000_000);
}

#[test]
fn elevation_adds_detail_over_seven_and_a_half() {
    assert_eq!(sample(1_000_000, 0, 0, 0).elevation(), 15_000_000);
    assert_eq!(sample(0, 7_500_000, 0, 0).elevation(), 15_000_000);
    assert_eq!(sample(300_000, 750_000, 0, 0).elevation(), 6_000_000);
    assert_eq!(sample(-1_000_000, 150, 0, 0).elevation(), -14_999_700);
}

#[test]
fn elevation_adds_roughness_from_the_rough_line_up() {
    assert_eq!(sample(-100_000, 0, 200_000, 0).elevation(), 1_500_000);
    assert_eq!(sample(-100_000, 0, -200_000, 0).elevation(), 1_500_000);
    assert_eq!(sample(-100_001, 0, 200_000, 0).elevation(), -1_500_015);
    assert_eq!(sample(0, 0, -1, 0).elevation(), 15);
}

#[test]
fn elevation_of_extreme_samples_does_not_overflow() {
    let top: i128 = i64::MAX as i128;
    assert_eq!(
        sample(i64::MAX, i64::MAX, i64::MIN, 0).elevation(),
        15 * top + 2 * top + 15 * (top + 1)
    );
    assert_eq!(sample(i64::MIN, i64::MIN, i64::MIN, 0).elevation(), 17 * (-top - 1));
}

#[test]
fn mountain_starts_at_one_point_one() {
    assert_eq!(sample(1_100_000, 0, 0, 0).terrain(), Terrain::Mountain);
    assert_eq!(sample(1_099_999, 0, 0, 0).terrain(), Terrain::Hill);
    assert_eq!(sample(1_099_999, 8, 0, 0).terrain(), Terrain::Mountain);
    assert_eq!(sample(1_099_999, 7, 0, 0).terrain(), Terrain::Hill);
}

#[test]
fn hill_starts_at_one_half() {
    assert_eq!(sample(500_000, 0, 0, 0).terrain(), Terrain::Hill);
    assert_eq!(sample(499_999, 0, 0, 0).terrain(), Terrain::Plains);
    assert_eq!(sample(499_999, 0, 0, 900_000).terrain(), Terrain::Forest);
    assert_eq!(sample(500_000, 0, 0, 900_000).terrain(), Terrain::Hill);
}

#[test]
fn water_lies_below_the_water_line() {
    assert_eq!(sample(-175_000, 0, 0, 0).terrain(), Terrain::Plains);
    assert_eq!(sample(-175_001, 0, 0, 0).terrain(), Terrain::Water);
    assert_eq!(sample(-175_001, 0, 0, 900_000).terrain(), Terrain::Water);
    assert_eq!(sample(-175_001, 0, 5_000_000, 0).terrain(), Terrain::Water);
}

#[test]
fn roughness_lifts_level_ground_only() {
    assert_eq!(sample(-100_000, 0, -1_200_000, 0).terrain(), Terrain::Mountain);
    assert_eq!(sample(-100_001, 0, -1_200_000, 0).terrain(), Terrain::Plains);
    assert_eq!(sample(0, 0, 500_000, 0).terrain(), Terrain::Hill);
    assert_eq!(sample(0, 0, 499_999, 0).terrain(), Terrain::Plains);
}

#[test]
fn forest_starts_at_a_quarter_of_fertility() {
    assert_eq!(sample(0, 0, 0, 250_000).terrain(), Terrain::Forest);
    assert_eq!(sample(0, 0, 0, 249_999).terrain(), Terrain::Plains);
    assert_eq!(sample(0, 0, 0, -250_000).terrain(), Terrain::Plains);
}

#[test]
fn each_terrain_starts_as_its_tile() {
    assert_eq!(Terrain::Mountain.tile(), Tile::mountain());
    assert_eq!(Terrain::Hill.tile(), Tile::hill());
    assert_eq!(Terrain::Water.tile(), Tile::water());
    assert_eq!(Terrain::Forest.tile(), Tile::forest());
    assert_eq!(Terrain::Plains.tile(), Tile::meadow());
}

#[test]
fn terrain_tiles_block_and_yield_as_their_kind_does() {
    let mountain = Terrain::Mountain.tile();
    assert!(mountain.blocked && mountain.block_sight && !mountain.buildable);
    assert_eq!(mountain.fertility, 0);
    let hill = Terrain::Hill.tile();
    assert!(hill.blocked && hill.block_sight && !hill.buildable);
    assert_eq!(hill.fertility, 1);
    let water = Terrain::Water.tile();
    assert!(water.blocked && !water.block_sight && !water.buildable);
    assert_eq!(water.fertility, 3);
    let forest = Terrain::Forest.tile();
    assert!(!forest.blocked && !forest.block_sight && forest.buildable);
    assert_eq!(forest.fertility, 1);
    let plains = Terrain::Plains.tile();
    assert!(!plains.blocked && !plains.block_sight && plains.buildable);
    assert_eq!(plains.fertility, 3);
    assert_eq!(plains.color, Color::plains());
    assert!(!plains.explored && !forest.explored && !water.explored);
}

#[test]
fn generated_grid_is_three_worlds_wide_and_high() {
    let map = make_map(&striped_world(4, 7));
    assert_eq!(map.tiles.len(), 12);
    for column in map.tiles.iter() {
        assert_eq!(column.len(), 21);
    }
}

#[test]
fn generated_grid_holds_the_tile_of_each_cell() {
    let samples = striped_world(5, 3);
    let map = make_map(&samples);
    for x in 0..5 {
        for y in 0..3 {
            assert_eq!(map.get_tile(x, y), samples[x][y].terrain().tile());
        }
    }
    assert_eq!(map.get_tile(0, 0), Tile::mountain());
    assert_eq!(map.get_tile(1, 0), Tile::forest());
    assert_eq!(map.get_tile(0, 1), Tile::water());
}

#[test]
fn generated_grid_repeats_the_world_nine_times() {
    let width: usize = 6;
    let height: usize = 4;
    let map = make_map(&striped_world(width, height));
    for x in 0..width {
        for y in 0..height {
            for i in 0..3 {
                for j in 0..3 {
                    assert_eq!(map.get_tile(x + i * width, y + j * height), map.get_tile(x, y));
                }
            }
        }
    }
}

#[test]
fn generation_from_equal_samples_gives_equal_grids() {
    let first = make_map(&striped_world(7, 5));
    let second = make_map(&striped_world(7, 5));
    assert_eq!(first.tiles, second.tiles);
}

#[test]
fn generation_from_noise_is_reproducible() {
    let first = make_map(&sampled_world(1.5, 10, 10));
    let second = make_map(&sampled_world(1.5, 10, 10));
    assert_eq!(first.tiles, second.tiles);
    let other = make_map(&sampled_world(7.25, 10, 10));
    assert_ne!(first.tiles, other.tiles);
}

#[test]
fn world_of_seed_one_and_a_half_has_plains_in_the_middle() {
    let samples = sampled_world(1.5, 10, 10);
    assert_eq!(samples[5][5].terrain(), Terrain::Plains);
    assert_eq!(samples[0][0].terrain(), Terrain::Water);
    assert_eq!(samples[0][9].terrain(), Terrain::Hill);
    assert_eq!(samples[9][9].terrain(), Terrain::Forest);
    let map = make_map(&samples);
    assert_eq!(map.get_tile(15, 15), Tile::meadow());
    assert_eq!(map.get_tile(5, 5), Tile::meadow());
    assert_eq!(map.get_tile(25, 25), Tile::meadow());
}

#[test]
fn single_cell_world_is_a_three_by_three_grid() {
    let map = make_map(&vec![vec![sample(0, 0, 0, 0)]]);
    assert_eq!(map.tiles, vec![vec![Tile::meadow(); 3]; 3]);
}
