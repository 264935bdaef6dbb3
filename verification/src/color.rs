//! Colours of tiles and glyphs.

use vstd::prelude::*;

verus! {

/// A colour as red, green and blue channels.
#[derive(Clone, Copy, Debug, PartialEq, Eq, Structural)]
pub struct Color {
    pub r: u8,
    pub g: u8,
    pub b: u8,
}

impl Color {
    #[verifier::allow_in_spec]
    pub fn mountain() -> Color
        returns
            (Color { r: 244, g: 251, b: 252 }),
    {
        Color { r: 244, g: 251, b: 252 }
    }

    #[verifier::allow_in_spec]
    pub fn hill() -> Color
        returns
            (Color { r: 214, g: 163, b: 110 }),
    {
        Color { r: 214, g: 163, b: 110 }
    }

    #[verifier::allow_in_spec]
    pub fn sea() -> Color
        returns
            (Color { r: 127, g: 191, b: 191 }),
    {
        Color { r: 127, g: 191, b: 191 }
    }

    #[verifier::allow_in_spec]
    pub fn forest() -> Color
        returns
            (Color { r: 127, g: 191, b: 127 }),
    {
        Color { r: 127, g: 191, b: 127 }
    }

    #[verifier::allow_in_spec]
    pub fn plains() -> Color
        returns
            (Color { r: 161, g: 214, b: 110 }),
    {
        Color { r: 161, g: 214, b: 110 }
    }

    /// Plains that have been harvested.
    #[verifier::allow_in_spec]
    pub fn farm() -> Color
        returns
            (Color { r: 214, g: 193, b: 110 }),
    {
        Color { r: 214, g: 193, b: 110 }
    }

    #[verifier::allow_in_spec]
    pub fn village() -> Color
        returns
            (Color { r: 161, g: 144, b: 110 }),
    {
        Color { r: 161, g: 144, b: 110 }
    }

    #[verifier::allow_in_spec]
    pub fn person() -> Color
        returns
            (Color { r: 110, g: 80, b: 161 }),
    {
        Color { r: 110, g: 80, b: 161 }
    }

    #[verifier::allow_in_spec]
    pub fn white() -> Color
        returns
            (Color { r: 255, g: 255, b: 255 }),
    {
        Color { r: 255, g: 255, b: 255 }
    }

    /// What the camera shows where nothing has been seen yet.
    #[verifier::allow_in_spec]
    pub fn fog() -> Color
        returns
            (Color { r: 242, g: 227, b: 211 }),
    {
        Color { r: 242, g: 227, b: 211 }
    }

    /// The colour at a third of its brightness, each channel rounded down.
    #[verifier::allow_in_spec]
    pub fn dimmed(self) -> Color
        returns
            (Color { r: self.r / 3, g: self.g / 3, b: self.b / 3 }),
    {
        Color { r: self.r / 3, g: self.g / 3, b: self.b / 3 }
    }
}

} // verus!
