//! Fog of war: what is in view and what has been seen.
//!
//! Which tiles are in view is computed outside, by casting shadows from the
//! entities that see. The result comes in as a window of flags; from there
//! on the bookkeeping is done here. A tile is explored once it has been in
//! view, and no other way.

use vstd::prelude::*;
use crate::game::Game;
use crate::game::GameState;
use crate::game::lemma_wf_with_map;
use crate::map::in_grid;
use crate::map::is_explored;
use crate::map::is_rect;
use crate::map::keeps_explored;
use crate::map::with_tile;
use crate::tile::Tile;

verus! {

/// `grid` with the tile at `(x, y)` marked as explored wherever `seen`
/// holds of it.
pub open spec fn explored_where(
    grid: Seq<Seq<Tile>>,
    seen: spec_fn(int, int) -> bool,
) -> Seq<Seq<Tile>> {
    Seq::new(
        grid.len(),
        |x: int|
            Seq::new(
                grid[x].len(),
                |y: int|
                    if seen(x, y) {
                        grid[x][y].with_explored(true)
                    } else {
                        grid[x][y]
                    },
            ),
    )
}

/// Marking tiles as explored never takes the mark from a tile.
pub proof fn lemma_exploring_keeps_explored(grid: Seq<Seq<Tile>>, seen: spec_fn(int, int) -> bool)
    ensures
        keeps_explored(grid, explored_where(grid, seen)),
{
    let after = explored_where(grid, seen);
    assert forall|x: int, y: int| #[trigger] is_explored(grid, x, y) implies is_explored(
        after,
        x,
        y,
    ) by {}
}

/// Marking tiles as explored leaves alone every tile of which `seen` does
/// not hold: a tile that is not explored and not seen stays unexplored.
pub proof fn lemma_exploring_marks_the_seen_only(
    grid: Seq<Seq<Tile>>,
    seen: spec_fn(int, int) -> bool,
    x: int,
    y: int,
)
    requires
        in_grid(grid, x, y),
    ensures
        in_grid(explored_where(grid, seen), x, y),
        !seen(x, y) ==> explored_where(grid, seen)[x][y] == grid[x][y],
        seen(x, y) ==> explored_where(grid, seen)[x][y] == grid[x][y].with_explored(true),
{
}

impl GameState {
    /// The session after the tile at `(x, y)` has come into view: that
    /// tile is marked as explored, and no other.
    pub open spec fn after_sight(self, x: int, y: int) -> GameState {
        GameState {
            map: with_tile(self.map, x, y, self.map[x][y].with_explored(true)),
            ..self
        }
    }
}

/// Records that the tile at `(x, y)` is in view: marks it as explored.
pub fn uncover(game: &mut Game, x: i32, y: i32)
    requires
        old(game).wf(),
        in_grid(old(game)@.map, x as int, y as int),
    ensures
        final(game).wf(),
        final(game)@ == old(game)@.after_sight(x as int, y as int),
        keeps_explored(old(game)@.map, final(game)@.map),
{
    game.map.set_tile_explored(true, x as usize, y as usize);
    proof {
        assert(is_rect(game@.map, 3 * game@.width, 3 * game@.height)) by {
            assert forall|column: int| 0 <= column < game@.map.len() implies (
            #[trigger] game@.map[column]).len() == 3 * game@.height by {
                assert(old(game)@.map[column].len() == 3 * game@.height);
            }
        }
        lemma_wf_with_map(old(game)@, game@.map);
        assert forall|px: int, py: int| #[trigger]
            is_explored(old(game)@.map, px, py) implies is_explored(game@.map, px, py) by {}
    }
}

/// What is in view this tick: a window of flags over the grid, `flags[i][j]`
/// telling whether the tile at `(left + i, top + j)` is in view. It holds
/// for the tick it was computed in and is no part of the session.
pub struct VisibilityTracker {
    pub left: i32,
    pub top: i32,
    pub flags: Vec<Vec<bool>>,
}

/// A window of flags as a value.
pub struct Sight {
    pub left: int,
    pub top: int,
    pub flags: Seq<Seq<bool>>,
}

impl View for VisibilityTracker {
    type V = Sight;

    open spec fn view(&self) -> Sight {
        Sight {
            left: self.left as int,
            top: self.top as int,
            flags: self.flags@.map_values(|column: Vec<bool>| column@),
        }
    }
}

impl Sight {
    /// Whether the tile at `(x, y)` is in view: it lies in the window and
    /// its flag is set.
    pub open spec fn in_view(self, x: int, y: int) -> bool {
        &&& 0 <= x - self.left < self.flags.len()
        &&& 0 <= y - self.top < self.flags[x - self.left].len()
        &&& self.flags[x - self.left][y - self.top]
    }

    /// Whether every tile of the window has coordinates that fit the
    /// machine.
    pub open spec fn fits(self) -> bool {
        &&& self.left + self.flags.len() <= i32::MAX
        &&& forall|i: int|
            0 <= i < self.flags.len() ==> self.top + (#[trigger] self.flags[i]).len() <= i32::MAX
    }

    /// Whether the tile at `(x, y)` is in view and comes, column by column,
    /// before the tile `j` of column `i` of the window.
    spec fn in_view_before(self, x: int, y: int, i: int, j: int) -> bool {
        &&& self.in_view(x, y)
        &&& x - self.left < i || (x - self.left == i && y - self.top < j)
    }
}

impl GameState {
    /// The session after everything in view has been marked as explored:
    /// every tile of the grid that is in view, and no other.
    pub open spec fn after_sighting(self, sight: Sight) -> GameState {
        GameState { map: explored_where(self.map, |x: int, y: int| sight.in_view(x, y)), ..self }
    }

    /// The session after the tiles in view that come before the tile `j` of
    /// column `i` of the window have been marked as explored.
    spec fn after_sighting_before(self, sight: Sight, i: int, j: int) -> GameState {
        GameState {
            map: explored_where(self.map, |x: int, y: int| sight.in_view_before(x, y, i, j)),
            ..self
        }
    }
}

/// Marking one more tile of the window extends what has been marked by
/// that tile, if it is in view and on the grid, and by nothing otherwise.
proof fn lemma_sighting_step(state: GameState, sight: Sight, i: int, j: int)
    requires
        0 <= i < sight.flags.len(),
        0 <= j < sight.flags[i].len(),
    ensures
        sight.flags[i][j] && in_grid(state.map, sight.left + i, sight.top + j)
            ==> state.after_sighting_before(sight, i, j).after_sight(
            sight.left + i,
            sight.top + j,
        ) == state.after_sighting_before(sight, i, j + 1),
        !(sight.flags[i][j] && in_grid(state.map, sight.left + i, sight.top + j))
            ==> state.after_sighting_before(sight, i, j) == state.after_sighting_before(
            sight,
            i,
            j + 1,
        ),
{
    let x = sight.left + i;
    let y = sight.top + j;
    let before = state.after_sighting_before(sight, i, j);
    let after = state.after_sighting_before(sight, i, j + 1);
    assert forall|px: int, py: int|
        sight.in_view_before(px, py, i, j + 1) == (sight.in_view_before(px, py, i, j) || (
        sight.flags[i][j] && px == x && py == y)) by {}
    if sight.flags[i][j] && in_grid(state.map, x, y) {
        assert(before.after_sight(x, y).map =~~= after.map);
    } else {
        assert(before.map =~~= after.map);
    }
}

/// A finished column of the window is as good as the start of the next.
proof fn lemma_sighting_column(state: GameState, sight: Sight, i: int)
    requires
        0 <= i < sight.flags.len(),
    ensures
        state.after_sighting_before(sight, i, sight.flags[i].len() as int)
            == state.after_sighting_before(sight, i + 1, 0),
{
    let rows = sight.flags[i].len() as int;
    assert forall|px: int, py: int|
        sight.in_view_before(px, py, i, rows) == sight.in_view_before(px, py, i + 1, 0) by {}
    assert(state.after_sighting_before(sight, i, rows).map =~~= state.after_sighting_before(
        sight,
        i + 1,
        0,
    ).map);
}

/// Nothing is marked before the first tile of the window, and after the
/// last column everything in view is marked.
proof fn lemma_sighting_ends(state: GameState, sight: Sight)
    ensures
        state.after_sighting_before(sight, 0, 0).map =~~= state.map,
        state.after_sighting_before(sight, sight.flags.len() as int, 0) == state.after_sighting(
            sight,
        ),
{
    let columns = sight.flags.len() as int;
    assert forall|px: int, py: int|
        sight.in_view_before(px, py, columns, 0) == sight.in_view(px, py) by {}
    assert(state.after_sighting_before(sight, columns, 0).map =~~= state.after_sighting(sight).map);
    assert forall|px: int, py: int| !sight.in_view_before(px, py, 0, 0) by {}
}

impl VisibilityTracker {
    /// The window of `flags` whose first tile is `(left, top)`, or `None`
    /// if its coordinates do not fit the machine.
    pub fn new(left: i32, top: i32, flags: Vec<Vec<bool>>) -> (tracker: Option<VisibilityTracker>)
        ensures
            tracker is Some <==> (Sight {
                left: left as int,
                top: top as int,
                flags: flags@.map_values(|column: Vec<bool>| column@),
            }).fits(),
            tracker matches Some(tracker) ==> tracker.left == left && tracker.top == top
                && tracker.flags == flags,
    {
        let ghost sight = Sight {
            left: left as int,
            top: top as int,
            flags: flags@.map_values(|column: Vec<bool>| column@),
        };
        if flags.len() > (i32::MAX as i64 - left as i64) as usize {
            return None;
        }
        let most: usize = (i32::MAX as i64 - top as i64) as usize;
        let mut i: usize = 0;
        while i < flags.len()
            invariant
                i <= flags.len(),
                most == i32::MAX - top,
                sight.flags == flags@.map_values(|column: Vec<bool>| column@),
                forall|seen: int| 0 <= seen < i ==> (#[trigger] sight.flags[seen]).len() <= most,
            decreases flags.len() - i,
        {
            if flags[i].len() > most {
                assert(sight.flags[i as int].len() > most);
                return None;
            }
            i += 1;
        }
        Some(VisibilityTracker { left, top, flags })
    }

    /// Whether the tile at `(x, y)` is in view.
    pub fn is_in_fov(&self, x: i32, y: i32) -> (visible: bool)
        ensures
            visible == self@.in_view(x as int, y as int),
    {
        let i: i64 = x as i64 - self.left as i64;
        let j: i64 = y as i64 - self.top as i64;
        if i < 0 || j < 0 {
            return false;
        }
        if i as usize >= self.flags.len() {
            return false;
        }
        let column: &Vec<bool> = &self.flags[i as usize];
        assert(column@ == self@.flags[i as int]);
        if j as usize >= column.len() {
            return false;
        }
        column[j as usize]
    }

    /// Marks every tile of the grid that is in view as explored, and no
    /// other. A flag that lies off the grid stands for no tile.
    pub fn mark_explored(&self, game: &mut Game)
        requires
            old(game).wf(),
            self@.fits(),
        ensures
            final(game).wf(),
            final(game)@ == old(game)@.after_sighting(self@),
            keeps_explored(old(game)@.map, final(game)@.map),
    {
        let ghost sight = self@;
        let ghost start = game@;
        let mut i: usize = 0;
        proof {
            lemma_sighting_ends(start, sight);
        }
        while i < self.flags.len()
            invariant
                i <= self.flags.len(),
                sight == self@,
                sight.fits(),
                start == old(game)@,
                start.wf(),
                game.wf(),
                game@ == start.after_sighting_before(sight, i as int, 0),
            decreases self.flags.len() - i,
        {
            let column: &Vec<bool> = &self.flags[i];
            assert(column@ == sight.flags[i as int]);
            let mut j: usize = 0;
            while j < column.len()
                invariant
                    i < self.flags.len(),
                    j <= column.len(),
                    column@ == sight.flags[i as int],
                    sight == self@,
                    sight.fits(),
                    start == old(game)@,
                    start.wf(),
                    game.wf(),
                    game@ == start.after_sighting_before(sight, i as int, j as int),
                decreases column.len() - j,
            {
                proof {
                    lemma_sighting_step(start, sight, i as int, j as int);
                }
                if column[j] {
                    let x: i32 = (self.left as i64 + i as i64) as i32;
                    let y: i32 = (self.top as i64 + j as i64) as i32;
                    assert(in_grid(game@.map, x as int, y as int) == in_grid(
                        start.map,
                        x as int,
                        y as int,
                    ));
                    if game.on_grid(x, y) {
                        uncover(game, x, y);
                    }
                }
                j += 1;
            }
            proof {
                lemma_sighting_column(start, sight, i as int);
            }
            i += 1;
        }
        proof {
            lemma_exploring_keeps_explored(start.map, |x: int, y: int| sight.in_view(x, y));
        }
    }
}

} // verus!
