//! The camera: which tiles it frames and in what colour it shows each.

use vstd::prelude::*;
use crate::color::Color;
use crate::components::Position;
use crate::entity::player_of;
use crate::game::Game;
use crate::game::GameState;
use crate::map::keeps_explored;
use crate::tile::Tile;
use crate::visibility::Sight;
use crate::visibility::VisibilityTracker;

verus! {

/// A rectangle of tiles: `columns` by `rows`, the first at `(left, top)`.
#[derive(Clone, Copy, Debug, PartialEq, Eq, Structural)]
pub struct Window {
    pub left: i32,
    pub top: i32,
    pub columns: i32,
    pub rows: i32,
}

/// How far a camera of `extent` tiles reaches to either side of its
/// centre: half its extent, rounded down, and nothing below two tiles.
pub open spec fn reach(extent: int) -> int {
    if extent < 2 {
        0
    } else {
        extent / 2
    }
}

impl GameState {
    /// The window of the camera: centred on the steered entity, reaching
    /// half the camera's width and height to either side. There is none
    /// without a steered entity, and none unless every tile of the window
    /// lies on the grid.
    pub open spec fn framed(self) -> Option<Window> {
        match player_of(self.world) {
            None => None,
            Some(id) => {
                let centre = self.world[id].position->0;
                let left = centre.x - reach(self.camera_width);
                let top = centre.y - reach(self.camera_height);
                let columns = 2 * reach(self.camera_width);
                let rows = 2 * reach(self.camera_height);
                if 0 <= left && left + columns <= 3 * self.width && 0 <= top && top + rows <= 3
                    * self.height {
                    Some(
                        Window {
                            left: left as i32,
                            top: top as i32,
                            columns: columns as i32,
                            rows: rows as i32,
                        },
                    )
                } else {
                    None
                }
            },
        }
    }

    /// What the camera shows in `window` under `sight`, `picture[i][j]`
    /// being the colour of the tile `j` of column `i` of the window.
    pub open spec fn picture(self, window: Window, sight: Sight) -> Seq<Seq<Color>> {
        Seq::new(
            window.columns as nat,
            |i: int|
                Seq::new(
                    window.rows as nat,
                    |j: int|
                        self.map[window.left + i][window.top + j].shown(
                            sight.in_view(window.left + i, window.top + j),
                        ),
                ),
        )
    }
}

/// The colours of a picture as a grid of values.
pub open spec fn color_grid(colors: Vec<Vec<Color>>) -> Seq<Seq<Color>> {
    colors@.map_values(|column: Vec<Color>| column@)
}

/// How far a camera of `extent` tiles reaches to either side.
fn half(extent: i32) -> (half: i32)
    ensures
        half == reach(extent as int),
        0 <= 2 * half <= i32::MAX,
{
    if extent < 2 {
        0
    } else {
        extent / 2
    }
}

impl Game {
    /// The window of the camera, if there is one and it lies on the grid.
    pub fn framed(&self) -> (window: Option<Window>)
        requires
            self.wf(),
        ensures
            window == self@.framed(),
    {
        let id: usize = match self.world.player() {
            Some(id) => id,
            None => {
                return None;
            },
        };
        let centre: Position = match self.world.entities[id].position {
            Some(position) => position,
            None => {
                return None;
            },
        };
        let across: i64 = half(self.camera_width) as i64;
        let along: i64 = half(self.camera_height) as i64;
        let left: i64 = centre.x as i64 - across;
        let top: i64 = centre.y as i64 - along;
        if 0 <= left && left + 2 * across <= 3 * (self.width as i64) && 0 <= top && top + 2 * along
            <= 3 * (self.height as i64) {
            Some(
                Window {
                    left: left as i32,
                    top: top as i32,
                    columns: (2 * across) as i32,
                    rows: (2 * along) as i32,
                },
            )
        } else {
            None
        }
    }
}

/// The picture that the camera shows: for each tile of its window the
/// tile's own colour if it is in view, fog if it has never been seen, and
/// its colour dimmed if it is remembered. `None` if there is no steered
/// entity to centre on or the window does not lie on the grid.
pub fn render_window(game: &Game, tracker: &VisibilityTracker) -> (picture: Option<Vec<Vec<Color>>>)
    requires
        game.wf(),
    ensures
        picture is Some <==> game@.framed() is Some,
        picture matches Some(colors) ==> color_grid(colors) == game@.picture(
            game@.framed()->0,
            tracker@,
        ),
{
    let window: Window = match game.framed() {
        Some(window) => window,
        None => {
            return None;
        },
    };
    let ghost state = game@;
    let ghost sight = tracker@;
    let mut colors: Vec<Vec<Color>> = Vec::new();
    let mut i: i32 = 0;
    while i < window.columns
        invariant
            0 <= i <= window.columns,
            game.wf(),
            state == game@,
            sight == tracker@,
            state.framed() == Some(window),
            colors.len() == i,
            forall|done: int|
                0 <= done < i ==> (#[trigger] colors[done])@ == state.picture(window, sight)[done],
        decreases window.columns - i,
    {
        let x: i32 = window.left + i;
        assert(state.map[x as int].len() == 3 * state.height);
        let mut column: Vec<Color> = Vec::new();
        let mut j: i32 = 0;
        while j < window.rows
            invariant
                0 <= j <= window.rows,
                0 <= i < window.columns,
                x == window.left + i,
                game.wf(),
                state == game@,
                sight == tracker@,
                state.framed() == Some(window),
                state.map[x as int].len() == 3 * state.height,
                column.len() == j,
                forall|done: int|
                    0 <= done < j ==> #[trigger] column[done] == state.picture(
                        window,
                        sight,
                    )[i as int][done],
            decreases window.rows - j,
        {
            let y: i32 = window.top + j;
            let visible: bool = tracker.is_in_fov(x, y);
            let tile: Tile = game.map.get_tile(x as usize, y as usize);
            column.push(tile.shade(visible));
            j += 1;
        }
        assert(column@ =~= state.picture(window, sight)[i as int]);
        colors.push(column);
        i += 1;
    }
    assert(color_grid(colors) =~~= state.picture(window, sight));
    Some(colors)
}

/// Brings the session up to date with what is in view and returns the
/// picture that the camera shows: every tile of the grid that is in view
/// is marked as explored, no other is, and the picture is taken after
/// that. `None`, and no change, if there is no steered entity to centre on
/// or the window does not lie on the grid.
pub fn render_all(game: &mut Game, tracker: &VisibilityTracker) -> (picture: Option<
    Vec<Vec<Color>>,
>)
    requires
        old(game).wf(),
        tracker@.fits(),
    ensures
        final(game).wf(),
        keeps_explored(old(game)@.map, final(game)@.map),
        picture is Some <==> old(game)@.framed() is Some,
        picture is None ==> final(game)@ == old(game)@,
        picture matches Some(colors) ==> final(game)@ == old(game)@.after_sighting(tracker@)
            && color_grid(colors) == final(game)@.picture(old(game)@.framed()->0, tracker@),
{
    if game.framed().is_none() {
        return None;
    }
    tracker.mark_explored(game);
    render_window(game, tracker)
}

} // verus!
