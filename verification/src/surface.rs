//! The surface abstraction that rasterizers write onto, and a recording
//! surface that keeps every write in order.

use vstd::prelude::*;

use crate::color::Color;

verus! {

/// One pixel write: a coordinate and the color written there. Coordinates may
/// be negative or beyond a surface's bounds; rasterizers never clip.
#[derive(Clone, Copy, Debug, PartialEq, Eq, Structural)]
pub struct PixelWrite {
    pub x: i32,
    pub y: i32,
    pub color: Color,
}

/// A destination for pixel writes. Its model is the sequence of all writes it
/// has received, in order; out-of-range coordinates are the implementor's
/// concern, never a reason to fail.
pub trait Displayable: Sized {
    /// The writes received so far, oldest first.
    spec fn writes(&self) -> Seq<PixelWrite>;

    /// Set the pixel at `(x, y)` to `color`.
    fn display(&mut self, x: i32, y: i32, color: Color)
        ensures
            final(self).writes() == old(self).writes().push(PixelWrite { x, y, color }),
    ;
}

/// A surface that records every write and hands the record back: the library's
/// own implementor of `Displayable`.
pub struct Canvas {
    buf: Vec<PixelWrite>,
}

impl Canvas {
    pub fn new() -> (c: Canvas)
        ensures
            c.writes() == Seq::<PixelWrite>::empty(),
    {
        Canvas { buf: Vec::new() }
    }

    /// The writes received so far, oldest first, as a vector.
    pub fn recorded(&self) -> (r: &Vec<PixelWrite>)
        ensures
            r@ == self.writes(),
    {
        &self.buf
    }
}

impl Displayable for Canvas {
    closed spec fn writes(&self) -> Seq<PixelWrite> {
        self.buf@
    }

    fn display(&mut self, x: i32, y: i32, color: Color) {
        self.buf.push(PixelWrite { x, y, color });
    }
}

} // verus!
