//! RGB colors and the random color choice used by every drawn shape.

use vstd::prelude::*;

use crate::entropy::random_byte;

verus! {

/// An RGB color: three 8-bit channels, each in `[0, 255]` by its type.
/// An immutable value, copied freely.
#[derive(Clone, Copy, Debug, PartialEq, Eq, Structural)]
pub struct Color {
    pub r: u8,
    pub g: u8,
    pub b: u8,
}

impl Color {
    pub fn rgb(r: u8, g: u8, b: u8) -> (c: Color)
        ensures
            c == (Color { r, g, b }),
    {
        Color { r, g, b }
    }
}

/// A freshly, uniformly randomly chosen color: each channel is drawn
/// independently. The channels lie in `[0, 255]` by the type `u8`;
/// repeated calls need not differ.
pub fn pick_color() -> (c: Color) {
    Color::rgb(random_byte(), random_byte(), random_byte())
}

} // verus!
