use noise::NoiseFn;
use noise::Perlin;
use rouge_civ::action::Action;
use rouge_civ::action::process_player_action;
use rouge_civ::components::House;
use rouge_civ::components::Position;
use rouge_civ::entity::Entity;
use rouge_civ::game::Game;
use rouge_civ::input::KeyCode;
use rouge_civ::input::handle_keys;
use rouge_civ::map::GameMap;
use rouge_civ::start::surrounded_by_land;
use rouge_civ::terrain::NoiseSample;
use rouge_civ::terrain::make_map;
use rouge_civ::tile::Tile;

fn meadows(width: i32, height: i32) -> Game {
    let grid = vec![vec![Tile::meadow(); 3 * height as usize]; 3 * width as usize];
    Game::new(GameMap::new(grid), width, height, 8, 6, 0, 100, 100).unwrap()
}

fn with_hero(mut game: Game, x: i32, y: i32) -> Game {
    game.world.push(Entity::hero(Position::new(x, y)));
    game
}

fn hero_of(game: &Game) -> Position {
    game.world.get(game.world.player().unwrap()).unwrap().position.unwrap()
}

fn noise_world(seed: f64, width: usize, height: usize) -> Vec<Vec<NoiseSample>> {
    let perlin = Perlin::new();
    let fixed = |value: f64| (value * 1_000_000.0).round() as i64;
    let mut samples: Vec<Vec<NoiseSample>> = Vec::new();
    for x in 0..width {
        let mut column: Vec<NoiseSample> = Vec::new();
        for y in 0..height {
            let fx = x as f64;
            let fy = y as f64;
            column.push(NoiseSample {
                height: fixed(perlin.get([fx / 10.0, fy / 10.0, seed])),
                detail: fixed(perlin.get([fx, fy, seed + 1.0])),
                roughness: fixed(perlin.get([fx / 10.0, fy / 10.0, 2.5])),
                fertility: fixed(perlin.get([fx / 10.0, fy / 10.0, 1.999_282_82])),
            });
        }
        samples.push(column);
    }
    samples
}

#[test]
fn keys_ask_for_their_actions() {
    assert_eq!(handle_keys(None), Vec::<Action>::new());
    assert_eq!(handle_keys(Some((KeyCode::Enter, true))), vec![Action::FullScreen]);
    assert_eq!(handle_keys(Some((KeyCode::Enter, false))), Vec::<Action>::new());
    assert_eq!(handle_keys(Some((KeyCode::Escape, false))), vec![Action::Quit]);
    assert_eq!(handle_keys(Some((KeyCode::Escape, true))), vec![Action::Quit]);
    assert_eq!(handle_keys(Some((KeyCode::Up, false))), vec![Action::MoveUp]);
    assert_eq!(handle_keys(Some((KeyCode::Down, false))), vec![Action::MoveDown]);
    assert_eq!(handle_keys(Some((KeyCode::Left, false))), vec![Action::MoveLeft]);
    assert_eq!(handle_keys(Some((KeyCode::Right, true))), vec![Action::MoveRight]);
    assert_eq!(handle_keys(Some((KeyCode::Spacebar, false))), vec![Action::Build]);
    assert_eq!(handle_keys(Some((KeyCode::Other, true))), Vec::<Action>::new());
}

#[test]
fn moves_lead_one_tile_on() {
    let mut game = with_hero(meadows(10, 8), 14, 11);
    process_player_action(Action::MoveLeft, &mut game);
    assert_eq!(hero_of(&game), Position::new(13, 11));
    process_player_action(Action::MoveUp, &mut game);
    assert_eq!(hero_of(&game), Position::new(13, 10));
    process_player_action(Action::MoveRight, &mut game);
    assert_eq!(hero_of(&game), Position::new(14, 10));
    process_player_action(Action::MoveDown, &mut game);
    assert_eq!(hero_of(&game), Position::new(14, 11));
}

#[test]
fn move_left_from_the_first_column_leads_to_the_last() {
    let width: i32 = 10;
    let mut game = with_hero(meadows(width, 8), width, 11);
    process_player_action(Action::MoveLeft, &mut game);
    let at = hero_of(&game);
    assert_eq!(at.x - width, width - 1);
    assert_eq!(at, Position::new(19, 11));
}

#[test]
fn move_right_from_the_last_column_leads_to_the_first() {
    let width: i32 = 10;
    let mut game = with_hero(meadows(width, 8), 2 * width - 1, 11);
    process_player_action(Action::MoveRight, &mut game);
    let at = hero_of(&game);
    assert_eq!(at.x - width, 0);
    assert_eq!(at, Position::new(10, 11));
}

#[test]
fn moves_wrap_along_the_vertical_axis() {
    let height: i32 = 8;
    let mut game = with_hero(meadows(10, height), 12, height);
    process_player_action(Action::MoveUp, &mut game);
    assert_eq!(hero_of(&game), Position::new(12, 2 * height - 1));
    process_player_action(Action::MoveDown, &mut game);
    assert_eq!(hero_of(&game), Position::new(12, height));
}

#[test]
fn world_of_one_tile_leads_back_to_itself() {
    let mut game = with_hero(meadows(1, 1), 1, 1);
    for action in [Action::MoveLeft, Action::MoveRight, Action::MoveUp, Action::MoveDown] {
        process_player_action(action, &mut game);
        assert_eq!(hero_of(&game), Position::new(1, 1));
    }
}

#[test]
fn blocked_tile_rejects_the_move() {
    let mut game = with_hero(meadows(10, 8), 14, 11);
    game.map.tiles[13][11] = Tile::water();
    game.map.tiles[14][10] = Tile::mountain();
    let before = game.world.get(0);
    process_player_action(Action::MoveLeft, &mut game);
    assert_eq!(hero_of(&game), Position::new(14, 11));
    process_player_action(Action::MoveUp, &mut game);
    assert_eq!(hero_of(&game), Position::new(14, 11));
    assert_eq!(game.world.get(0), before);
    assert_eq!(game.world.len(), 1);
}

#[test]
fn blocked_tile_across_the_edge_rejects_the_move() {
    let mut game = with_hero(meadows(10, 8), 10, 8);
    game.map.tiles[19][8] = Tile::hill();
    game.map.tiles[10][15] = Tile::hill();
    process_player_action(Action::MoveLeft, &mut game);
    assert_eq!(hero_of(&game), Position::new(10, 8));
    process_player_action(Action::MoveUp, &mut game);
    assert_eq!(hero_of(&game), Position::new(10, 8));
}

#[test]
fn moves_change_nothing_but_the_place_of_the_hero() {
    let mut game = with_hero(meadows(10, 8), 14, 11);
    game.world.push(Entity::dwelling(Position::new(12, 12)));
    let grid = game.map.tiles.clone();
    process_player_action(Action::MoveRight, &mut game);
    assert_eq!(game.map.tiles, grid);
    assert_eq!((game.wood, game.food, game.population), (100, 100, 0));
    assert_eq!(game.world.len(), 2);
    assert_eq!(game.world.get(1), Some(Entity::dwelling(Position::new(12, 12))));
    assert_eq!(game.world.get(0), Some(Entity::hero(Position::new(15, 11))));
}

#[test]
fn build_spends_ten_wood_and_puts_up_an_empty_house() {
    let mut game = with_hero(meadows(10, 8), 14, 11);
    let grid = game.map.tiles.clone();
    process_player_action(Action::Build, &mut game);
    assert_eq!(game.wood, 90);
    assert!(!game.map.is_buildable(14, 11));
    assert!(game.map.is_tile_blocked(14, 11));
    assert_eq!(game.world.len(), 2);
    assert_eq!(game.world.get(1), Some(Entity::dwelling(Position::new(14, 11))));
    assert_eq!(
        game.world.get(1).unwrap().house,
        Some(House { time_since_last_spawn: 0, population: 0 })
    );
    assert_eq!(game.world.get(0), Some(Entity::hero(Position::new(14, 11))));
    assert_eq!((game.food, game.population), (100, 0));
    for x in 0..30 {
        for y in 0..24 {
            if (x, y) != (14, 11) {
                assert_eq!(game.map.tiles[x][y], grid[x][y]);
            }
        }
    }
    assert_eq!(game.map.tiles[14][11], Tile { blocked: true, buildable: false, ..Tile::meadow() });
}

#[test]
fn build_twice_on_one_tile_builds_once() {
    let mut game = with_hero(meadows(10, 8), 14, 11);
    process_player_action(Action::Build, &mut game);
    process_player_action(Action::Build, &mut game);
    assert_eq!(game.wood, 90);
    assert_eq!(game.world.len(), 2);
}

#[test]
fn build_without_the_wood_changes_nothing() {
    let mut game = with_hero(meadows(10, 8), 14, 11);
    game.wood = 9;
    let grid = game.map.tiles.clone();
    process_player_action(Action::Build, &mut game);
    assert_eq!(game.wood, 9);
    assert_eq!(game.map.tiles, grid);
    assert_eq!(game.world.len(), 1);
    assert_eq!((game.food, game.population), (100, 0));
    game.wood = 10;
    process_player_action(Action::Build, &mut game);
    assert_eq!(game.wood, 0);
    assert_eq!(game.world.len(), 2);
}

#[test]
fn build_on_a_tile_that_is_not_buildable_changes_nothing() {
    let mut game = with_hero(meadows(10, 8), 14, 11);
    game.map.tiles[14][11] = Tile { buildable: false, ..Tile::meadow() };
    let grid = game.map.tiles.clone();
    process_player_action(Action::Build, &mut game);
    assert_eq!(game.wood, 100);
    assert_eq!(game.map.tiles, grid);
    assert_eq!(game.world.len(), 1);
    assert_eq!(game.world.get(0), Some(Entity::hero(Position::new(14, 11))));
}

#[test]
fn screen_and_quit_leave_the_session_alone() {
    let mut game = with_hero(meadows(10, 8), 14, 11);
    let grid = game.map.tiles.clone();
    process_player_action(Action::FullScreen, &mut game);
    process_player_action(Action::Quit, &mut game);
    assert_eq!(game.map.tiles, grid);
    assert_eq!(game.world.len(), 1);
    assert_eq!(game.world.get(0), Some(Entity::hero(Position::new(14, 11))));
    assert_eq!((game.wood, game.food, game.population), (100, 100, 0));
}

#[test]
fn actions_without_a_hero_do_nothing() {
    let mut game = meadows(10, 8);
    game.world.push(Entity::dwelling(Position::new(12, 12)));
    let grid = game.map.tiles.clone();
    for action in [Action::MoveLeft, Action::MoveUp, Action::Build] {
        process_player_action(action, &mut game);
    }
    assert_eq!(game.map.tiles, grid);
    assert_eq!(game.wood, 100);
    assert_eq!(game.world.len(), 1);
}

#[test]
fn first_hero_is_the_one_that_is_steered() {
    let mut game = with_hero(meadows(10, 8), 14, 11);
    game.world.push(Entity::hero(Position::new(12, 9)));
    process_player_action(Action::MoveLeft, &mut game);
    assert_eq!(game.world.get(0), Some(Entity::hero(Position::new(13, 11))));
    assert_eq!(game.world.get(1), Some(Entity::hero(Position::new(12, 9))));
}

#[test]
fn build_in_the_world_of_seed_one_and_a_half() {
    let samples = noise_world(1.5, 10, 10);
    let map = make_map(&samples);
    assert_eq!(map.get_tile(15, 15), Tile::meadow());
    let mut game = Game::new(map, 10, 10, 8, 6, 0, 100, 100).unwrap();
    game.world.push(Entity::hero(Position::new(5 + 10, 5 + 10)));
    process_player_action(Action::Build, &mut game);
    assert_eq!(game.wood, 90);
    assert!(!game.map.get_tile(15, 15).buildable);
    assert!(game.map.get_tile(15, 15).blocked);
    let mut houses: usize = 0;
    for id in 0..game.world.len() {
        let entity = game.world.get(id).unwrap();
        if entity.house.is_some() {
            houses += 1;
            assert_eq!(entity.position, Some(Position::new(15, 15)));
            assert_eq!(entity.house.unwrap().population, 0);
        }
    }
    assert_eq!(houses, 1);
}

#[test]
fn hero_on_the_boundary_moves_left_across_the_edge() {
    let samples = noise_world(1.5, 10, 10);
    let map = make_map(&samples);
    assert_eq!(map.get_tile(19, 15), Tile::meadow());
    let mut game = Game::new(map, 10, 10, 8, 6, 0, 100, 100).unwrap();
    game.world.push(Entity::hero(Position::new(0 + 10, 5 + 10)));
    process_player_action(Action::MoveLeft, &mut game);
    let at = hero_of(&game);
    assert_eq!(at.x - 10, 10 - 1);
    assert_eq!(at.y - 10, 5);
}

#[test]
fn land_is_probed_on_the_tile_and_one_step_back() {
    let mut grid = vec![vec![Tile::meadow(); 9]; 9];
    assert!(surrounded_by_land(2, 2, &GameMap::new(grid.clone())));
    for (x, y) in [(1usize, 1usize), (1, 2), (2, 1), (2, 2)] {
        let mut blocked = grid.clone();
        blocked[x][y] = Tile::water();
        assert!(!surrounded_by_land(2, 2, &GameMap::new(blocked)));
    }
    for (x, y) in [(3usize, 2usize), (2, 3), (3, 3), (0, 0), (3, 1), (1, 3)] {
        let mut blocked = grid.clone();
        blocked[x][y] = Tile::water();
        assert!(surrounded_by_land(2, 2, &GameMap::new(blocked)));
    }
    grid[1][1] = Tile::mountain();
    assert!(!surrounded_by_land(0, 0, &GameMap::new(grid.clone())));
    assert!(surrounded_by_land(0, 3, &GameMap::new(grid)));
}

#[test]
fn hero_starts_in_the_middle_copy_of_the_world() {
    let mut game = meadows(4, 3);
    assert_eq!(game.try_place_player(2, 1), Some(0));
    assert_eq!(game.world.get(0), Some(Entity::hero(Position::new(6, 4))));
    assert_eq!(game.try_place_player(0, 0), Some(1));
    assert_eq!(game.world.get(1), Some(Entity::hero(Position::new(4, 3))));
}

#[test]
fn hero_does_not_start_off_the_world_or_off_land() {
    let mut game = meadows(4, 3);
    game.map.tiles[1][1] = Tile::water();
    for (x, y) in [(-1, 0), (0, -1), (4, 0), (0, 3), (2, 2), (1, 1), (2, 1), (1, 2)] {
        assert_eq!(game.try_place_player(x, y), None);
    }
    assert_eq!(game.world.len(), 0);
    assert_eq!(game.try_place_player(3, 2), Some(0));
}

#[test]
fn moves_count_modulo_the_size_of_the_world() {
    let width: i32 = 7;
    let height: i32 = 4;
    for x in 0..width {
        for y in 0..height {
            let mut game = with_hero(meadows(width, height), width + x, height + y);
            process_player_action(Action::MoveLeft, &mut game);
            assert_eq!(hero_of(&game), Position::new(width + (x + width - 1) % width, height + y));
            process_player_action(Action::MoveRight, &mut game);
            assert_eq!(hero_of(&game), Position::new(width + x, height + y));
            process_player_action(Action::MoveRight, &mut game);
            assert_eq!(hero_of(&game), Position::new(width + (x + 1) % width, height + y));
            process_player_action(Action::MoveUp, &mut game);
            assert_eq!(
                hero_of(&game),
                Position::new(width + (x + 1) % width, height + (y + height - 1) % height)
            );
            process_player_action(Action::MoveDown, &mut game);
            process_player_action(Action::MoveDown, &mut game);
            assert_eq!(
                hero_of(&game),
                Position::new(width + (x + 1) % width, height + (y + 1) % height)
            );
            assert!(game.is_consistent());
        }
    }
}

#[test]
fn hero_off_the_grid_walks_back_or_stays() {
    let mut game = with_hero(meadows(10, 8), 40, 5);
    process_player_action(Action::MoveUp, &mut game);
    assert_eq!(hero_of(&game), Position::new(40, 5));
    process_player_action(Action::Build, &mut game);
    assert_eq!((game.wood, game.world.len()), (100, 1));
    process_player_action(Action::MoveLeft, &mut game);
    assert_eq!(hero_of(&game), Position::new(40, 5));
    process_player_action(Action::MoveRight, &mut game);
    assert_eq!(hero_of(&game), Position::new(10, 5));
    process_player_action(Action::MoveUp, &mut game);
    assert_eq!(hero_of(&game), Position::new(10, 15));
    let mut far = with_hero(meadows(10, 8), i32::MIN, i32::MAX);
    process_player_action(Action::MoveLeft, &mut far);
    assert_eq!(hero_of(&far), Position::new(i32::MIN, i32::MAX));
    process_player_action(Action::MoveDown, &mut far);
    assert_eq!(hero_of(&far), Position::new(i32::MIN, i32::MAX));
    assert!(far.is_consistent());
}

#[test]
fn hero_in_an_outer_copy_builds_and_walks_there() {
    let mut game = with_hero(meadows(10, 8), 3, 20);
    process_player_action(Action::Build, &mut game);
    assert_eq!(game.wood, 90);
    assert_eq!(game.world.get(1), Some(Entity::dwelling(Position::new(3, 20))));
    process_player_action(Action::MoveRight, &mut game);
    assert_eq!(hero_of(&game), Position::new(4, 20));
    process_player_action(Action::MoveDown, &mut game);
    assert_eq!(hero_of(&game), Position::new(4, 8));
    process_player_action(Action::MoveLeft, &mut game);
    assert_eq!(hero_of(&game), Position::new(19, 8));
}
