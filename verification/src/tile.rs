//! One cell of the world grid.

use vstd::prelude::*;
use crate::color::Color;

verus! {

/// The state of one cell: what it lets through, whether it has been seen,
/// how it is drawn and what it yields.
#[derive(Clone, Copy, Debug, PartialEq, Eq, Structural)]
pub struct Tile {
    pub blocked: bool,
    pub block_sight: bool,
    pub explored: bool,
    pub buildable: bool,
    pub color: Color,
    pub fertility: i32,
}

impl Tile {
    pub fn is_blocked(&self) -> (blocked: bool)
        ensures
            blocked == self.blocked,
    {
        self.blocked
    }

    /// The tile after a harvest: plains turn into farmland, anything else
    /// stays as it is.
    pub open spec fn harvested(self) -> Tile {
        if self.color == Color::plains() {
            Tile { color: Color::farm(), ..self }
        } else {
            self
        }
    }

    /// Returns the tile's fertility and turns plains into farmland.
    pub fn harvest(&mut self) -> (yielded: i32)
        ensures
            yielded == old(self).fertility,
            *final(self) == old(self).harvested(),
    {
        if self.color == Color::plains() {
            self.color = Color::farm();
        }
        self.fertility
    }

    /// Open grassland: walkable, buildable, the most fertile ground.
    #[verifier::allow_in_spec]
    pub fn meadow() -> Tile
        returns
            (Tile {
                blocked: false,
                block_sight: false,
                explored: false,
                buildable: true,
                color: Color::plains(),
                fertility: 3,
            }),
    {
        Tile {
            blocked: false,
            block_sight: false,
            explored: false,
            buildable: true,
            color: Color::plains(),
            fertility: 3,
        }
    }

    /// A peak: impassable, hides what lies behind it, barren.
    #[verifier::allow_in_spec]
    pub fn mountain() -> Tile
        returns
            (Tile {
                blocked: true,
                block_sight: true,
                explored: false,
                buildable: false,
                color: Color::mountain(),
                fertility: 0,
            }),
    {
        Tile {
            blocked: true,
            block_sight: true,
            explored: false,
            buildable: false,
            color: Color::mountain(),
            fertility: 0,
        }
    }

    /// High ground: impassable and hides what lies behind it.
    #[verifier::allow_in_spec]
    pub fn hill() -> Tile
        returns
            (Tile {
                blocked: true,
                block_sight: true,
                explored: false,
                buildable: false,
                color: Color::hill(),
                fertility: 1,
            }),
    {
        Tile {
            blocked: true,
            block_sight: true,
            explored: false,
            buildable: false,
            color: Color::hill(),
            fertility: 1,
        }
    }

    /// Woodland: walkable and buildable, poor soil.
    #[verifier::allow_in_spec]
    pub fn forest() -> Tile
        returns
            (Tile {
                blocked: false,
                block_sight: false,
                explored: false,
                buildable: true,
                color: Color::forest(),
                fertility: 1,
            }),
    {
        Tile {
            blocked: false,
            block_sight: false,
            explored: false,
            buildable: true,
            color: Color::forest(),
            fertility: 1,
        }
    }

    /// Open water: impassable, but one can see across it.
    #[verifier::allow_in_spec]
    pub fn water() -> Tile
        returns
            (Tile {
                blocked: true,
                block_sight: false,
                explored: false,
                buildable: false,
                color: Color::sea(),
                fertility: 3,
            }),
    {
        Tile {
            blocked: true,
            block_sight: false,
            explored: false,
            buildable: false,
            color: Color::sea(),
            fertility: 3,
        }
    }

    /// The tile once something stands on it.
    pub open spec fn built_on(self) -> Tile {
        Tile { blocked: true, buildable: false, ..self }
    }

    /// The tile with its seen-before mark set to `explored`.
    pub open spec fn with_explored(self, explored: bool) -> Tile {
        Tile { explored, ..self }
    }

    /// The colour in which the camera shows the tile: its own when it is in
    /// view, fog when it has never been seen, dimmed when it is remembered.
    pub open spec fn shown(self, visible: bool) -> Color {
        if visible {
            self.color
        } else if !self.explored {
            Color::fog()
        } else {
            self.color.dimmed()
        }
    }

    pub fn shade(&self, visible: bool) -> (color: Color)
        ensures
            color == self.shown(visible),
    {
        if visible {
            self.color
        } else if !self.explored {
            Color::fog()
        } else {
            self.color.dimmed()
        }
    }
}

} // verus!
