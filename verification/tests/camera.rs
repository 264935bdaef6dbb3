use rouge_civ::camera::render_all;
use rouge_civ::camera::render_window;
use rouge_civ::camera::Window;
use rouge_civ::color::Color;
use rouge_civ::components::Position;
use rouge_civ::entity::Entity;
use rouge_civ::game::Game;
use rouge_civ::map::GameMap;
use rouge_civ::tile::Tile;
use rouge_civ::visibility::uncover;
use rouge_civ::visibility::VisibilityTracker;

fn steppe(width: i32, height: i32, camera_width: i32, camera_height: i32) -> Game {
    let grid = vec![vec![Tile::meadow(); 3 * height as usize]; 3 * width as usize];
    Game::new(GameMap::new(grid), width, height, camera_width, camera_height, 0, 100, 100).unwrap()
}

fn explored_tiles(game: &Game) -> Vec<(usize, usize)> {
    let mut found: Vec<(usize, usize)> = Vec::new();
    for x in 0..game.map.tiles.len() {
        for y in 0..game.map.tiles[x].len() {
            if game.map.tiles[x][y].explored {
                found.push((x, y));
            }
        }
    }
    found
}

#[test]
fn tile_in_view_is_explored_and_no_other() {
    let mut game = steppe(5, 4, 4, 4);
    uncover(&mut game, 7, 5);
    assert_eq!(explored_tiles(&game), vec![(7, 5)]);
    uncover(&mut game, 2, 1);
    uncover(&mut game, 7, 5);
    uncover(&mut game, 0, 0);
    uncover(&mut game, 14, 11);
    assert_eq!(explored_tiles(&game), vec![(0, 0), (2, 1), (7, 5), (14, 11)]);
    for x in 0..15 {
        for y in 0..12 {
            let tile = game.map.tiles[x][y];
            assert_eq!(tile, Tile { explored: tile.explored, ..Tile::meadow() });
        }
    }
}

#[test]
fn window_of_flags_tells_what_is_in_view() {
    let tracker = VisibilityTracker::new(
        3,
        -2,
        vec![vec![true, false, true], vec![false, false], vec![false, true, false, true]],
    )
    .unwrap();
    assert!(tracker.is_in_fov(3, -2));
    assert!(!tracker.is_in_fov(3, -1));
    assert!(tracker.is_in_fov(3, 0));
    assert!(!tracker.is_in_fov(3, 1));
    assert!(!tracker.is_in_fov(4, -2));
    assert!(!tracker.is_in_fov(4, 0));
    assert!(tracker.is_in_fov(5, -1));
    assert!(tracker.is_in_fov(5, 1));
    assert!(!tracker.is_in_fov(6, -2));
    assert!(!tracker.is_in_fov(2, -2));
    assert!(!tracker.is_in_fov(3, -3));
    assert!(!tracker.is_in_fov(i32::MIN, i32::MAX));
}

#[test]
fn window_of_flags_must_fit_the_coordinates() {
    assert!(VisibilityTracker::new(i32::MAX - 2, 0, vec![vec![true]; 2]).is_some());
    assert!(VisibilityTracker::new(i32::MAX - 2, 0, vec![vec![true]; 3]).is_none());
    assert!(VisibilityTracker::new(0, i32::MAX - 1, vec![vec![true]]).is_some());
    assert!(VisibilityTracker::new(0, i32::MAX - 1, vec![vec![true], vec![true, false]]).is_none());
    assert!(VisibilityTracker::new(i32::MIN, i32::MIN, Vec::new()).is_some());
}

#[test]
fn everything_in_view_is_marked_as_explored() {
    let mut game = steppe(5, 4, 4, 4);
    let tracker =
        VisibilityTracker::new(6, 5, vec![vec![true, false], vec![false, false], vec![false, true]])
            .unwrap();
    tracker.mark_explored(&mut game);
    assert_eq!(explored_tiles(&game), vec![(6, 5), (8, 6)]);
}

#[test]
fn tile_out_of_view_stays_unexplored() {
    let mut game = steppe(5, 4, 4, 4);
    game.world.push(Entity::hero(Position::new(2, 2)));
    let tracker = VisibilityTracker::new(0, 0, vec![vec![false; 4], vec![false, true, true, false]])
        .unwrap();
    render_all(&mut game, &tracker).unwrap();
    assert_eq!(explored_tiles(&game), vec![(1, 1), (1, 2)]);
    assert!(!game.map.get_tile(0, 1).explored);
    assert!(!game.map.get_tile(6, 5).explored);
    assert!(!game.map.get_tile(11, 9).explored);
}

#[test]
fn flag_off_the_grid_marks_no_tile() {
    let mut game = steppe(5, 4, 4, 4);
    let tracker =
        VisibilityTracker::new(-1, 10, vec![vec![true, true, true], vec![true, true, true]])
            .unwrap();
    tracker.mark_explored(&mut game);
    assert_eq!(explored_tiles(&game), vec![(0, 10), (0, 11)]);
    let far = VisibilityTracker::new(15, -3, vec![vec![true, true]]).unwrap();
    far.mark_explored(&mut game);
    assert_eq!(explored_tiles(&game), vec![(0, 10), (0, 11)]);
}

#[test]
fn explored_tiles_stay_explored() {
    let mut game = steppe(5, 4, 4, 4);
    let mut rng = rand::thread_rng();
    game.world.push(Entity::hero(Position::new(7, 5)));
    let first = VisibilityTracker::new(6, 5, vec![vec![true, true], vec![true, false]]).unwrap();
    first.mark_explored(&mut game);
    let seen = explored_tiles(&game);
    assert_eq!(seen, vec![(6, 5), (6, 6), (7, 5)]);
    let nothing =
        VisibilityTracker::new(6, 5, vec![vec![false, false], vec![false, false]]).unwrap();
    nothing.mark_explored(&mut game);
    assert_eq!(explored_tiles(&game), seen);
    let empty = VisibilityTracker::new(0, 0, Vec::new()).unwrap();
    empty.mark_explored(&mut game);
    assert_eq!(explored_tiles(&game), seen);
    let other = VisibilityTracker::new(8, 4, vec![vec![true]]).unwrap();
    other.mark_explored(&mut game);
    let later = explored_tiles(&game);
    assert_eq!(later, vec![(6, 5), (6, 6), (7, 5), (8, 4)]);
    render_all(&mut game, &nothing);
    game.tick(&Vec::new(), &mut rng);
    assert_eq!(explored_tiles(&game), later);
}

#[test]
fn camera_frames_the_hero() {
    let mut game = steppe(10, 8, 8, 6);
    assert_eq!(game.framed(), None);
    game.world.push(Entity::hero(Position::new(14, 11)));
    assert_eq!(game.framed(), Some(Window { left: 10, top: 8, columns: 8, rows: 6 }));
    game.camera_width = 9;
    game.camera_height = 1;
    assert_eq!(game.framed(), Some(Window { left: 10, top: 11, columns: 8, rows: 0 }));
    game.camera_width = -7;
    assert_eq!(game.framed(), Some(Window { left: 14, top: 11, columns: 0, rows: 0 }));
}

#[test]
fn camera_must_lie_on_the_grid() {
    let mut game = steppe(10, 8, 20, 16);
    game.world.push(Entity::hero(Position::new(10, 8)));
    assert_eq!(game.framed(), Some(Window { left: 0, top: 0, columns: 20, rows: 16 }));
    game.camera_width = 22;
    assert_eq!(game.framed(), None);
    let tracker = VisibilityTracker::new(0, 0, vec![vec![true]]).unwrap();
    assert_eq!(render_window(&game, &tracker), None);
    assert_eq!(render_all(&mut game, &tracker), None);
    assert_eq!(explored_tiles(&game), Vec::new());
    game.camera_width = 20;
    game.camera_height = 18;
    assert_eq!(game.framed(), None);
    game.camera_height = 16;
    game.world.entities[0].position = Some(Position::new(i32::MIN, i32::MAX));
    assert_eq!(game.framed(), None);
    game.world.entities[0].position = Some(Position::new(20, 16));
    assert_eq!(game.framed(), Some(Window { left: 10, top: 8, columns: 20, rows: 16 }));
    game.world.entities[0].position = Some(Position::new(21, 16));
    assert_eq!(game.framed(), None);
}

#[test]
fn picture_shows_view_fog_and_memory() {
    let mut game = steppe(10, 8, 4, 2);
    game.world.push(Entity::hero(Position::new(14, 11)));
    game.map.tiles[12][10] = Tile { explored: true, ..Tile::forest() };
    game.map.tiles[13][11] = Tile::water();
    let tracker =
        VisibilityTracker::new(13, 10, vec![vec![false, true], vec![true, false]]).unwrap();
    let before = game.map.tiles.clone();
    let picture = render_window(&game, &tracker).unwrap();
    assert_eq!(
        picture,
        vec![
            vec![Color { r: 42, g: 63, b: 42 }, Color::fog()],
            vec![Color::fog(), Color::sea()],
            vec![Color::plains(), Color::fog()],
            vec![Color::fog(), Color::fog()],
        ]
    );
    assert_eq!(game.map.tiles, before);
}

#[test]
fn rendering_marks_what_is_in_view_and_then_takes_the_picture() {
    let mut game = steppe(10, 8, 4, 2);
    game.world.push(Entity::hero(Position::new(14, 11)));
    let tracker =
        VisibilityTracker::new(13, 10, vec![vec![false, true], vec![true, false]]).unwrap();
    let picture = render_all(&mut game, &tracker).unwrap();
    assert_eq!(
        picture,
        vec![
            vec![Color::fog(), Color::fog()],
            vec![Color::fog(), Color::plains()],
            vec![Color::plains(), Color::fog()],
            vec![Color::fog(), Color::fog()],
        ]
    );
    assert_eq!(explored_tiles(&game), vec![(13, 11), (14, 10)]);
    let nothing = VisibilityTracker::new(0, 0, Vec::new()).unwrap();
    let later = render_all(&mut game, &nothing).unwrap();
    assert_eq!(
        later,
        vec![
            vec![Color::fog(), Color::fog()],
            vec![Color::fog(), Color::plains().dimmed()],
            vec![Color::plains().dimmed(), Color::fog()],
            vec![Color::fog(), Color::fog()],
        ]
    );
}

#[test]
fn picture_of_an_empty_window_is_empty() {
    let mut game = steppe(10, 8, 0, 6);
    game.world.push(Entity::hero(Position::new(14, 11)));
    let tracker = VisibilityTracker::new(0, 0, Vec::new()).unwrap();
    assert_eq!(render_window(&game, &tracker), Some(Vec::new()));
    game.camera_width = 2;
    game.camera_height = 1;
    assert_eq!(render_window(&game, &tracker), Some(vec![Vec::new(), Vec::new()]));
}
