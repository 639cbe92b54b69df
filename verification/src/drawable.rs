//! The drawing capability that every shape variant implements: pick one
//! random color, then emit the shape's pixel writes onto a surface.

use vstd::prelude::*;

use crate::circle_raster::circle_fits;
use crate::circle_raster::circle_pixels;
use crate::circle_raster::draw_circle;
use crate::color::Color;
use crate::color::pick_color;
use crate::line_raster::draw_line;
use crate::line_raster::line_pixels;
use crate::line_raster::pixel_at;
use crate::shapes::Circle;
use crate::shapes::Line;
use crate::shapes::Point;
use crate::shapes::Rectangle;
use crate::shapes::Triangle;
use crate::surface::Displayable;
use crate::surface::PixelWrite;

verus! {

/// Every shape variant can draw itself onto a surface and pick its draw
/// color. A draw call obtains one color and emits exactly the shape's
/// pixel writes in that one color, edges included.
pub trait Drawable: Sized {
    /// The writes this shape emits when drawn with color `c`, in order.
    spec fn pixels(&self, c: Color) -> Seq<PixelWrite>;

    /// Whether rasterizing this shape keeps every emitted coordinate
    /// representable in `i32`.
    spec fn draw_ok(&self) -> bool;

    /// Draw the shape onto `image` in one freshly picked color.
    fn draw<D: Displayable>(&self, image: &mut D)
        requires
            self.draw_ok(),
        ensures
            exists|c: Color| final(image).writes() == old(image).writes() + self.pixels(c),
    ;

    /// A freshly, uniformly randomly chosen color.
    fn color() -> Color;
}

impl Drawable for Point {
    open spec fn pixels(&self, c: Color) -> Seq<PixelWrite> {
        seq![pixel_at(self.x as int, self.y as int, c)]
    }

    open spec fn draw_ok(&self) -> bool {
        true
    }

    fn draw<D: Displayable>(&self, image: &mut D) {
        let c = Self::color();
        image.display(self.x, self.y, c);
        proof {
            assert(image.writes() =~= old(image).writes() + self.pixels(c));
        }
    }

    fn color() -> Color {
        pick_color()
    }
}

impl Drawable for Line {
    open spec fn pixels(&self, c: Color) -> Seq<PixelWrite> {
        line_pixels(self.a.x as int, self.a.y as int, self.b.x as int, self.b.y as int, c)
    }

    open spec fn draw_ok(&self) -> bool {
        true
    }

    fn draw<D: Displayable>(&self, image: &mut D) {
        let c = Self::color();
        draw_line(image, &self.a, &self.b, c);
        proof {
            assert(image.writes() == old(image).writes() + self.pixels(c));
        }
    }

    fn color() -> Color {
        pick_color()
    }
}

impl Drawable for Triangle {
    open spec fn pixels(&self, col: Color) -> Seq<PixelWrite> {
        line_pixels(self.a.x as int, self.a.y as int, self.b.x as int, self.b.y as int, col)
            + line_pixels(self.b.x as int, self.b.y as int, self.c.x as int, self.c.y as int, col)
            + line_pixels(self.c.x as int, self.c.y as int, self.a.x as int, self.a.y as int, col)
    }

    open spec fn draw_ok(&self) -> bool {
        true
    }

    fn draw<D: Displayable>(&self, image: &mut D) {
        let col = Self::color();
        draw_line(image, &self.a, &self.b, col);
        draw_line(image, &self.b, &self.c, col);
        draw_line(image, &self.c, &self.a, col);
        proof {
            assert(image.writes() =~= old(image).writes() + self.pixels(col));
        }
    }

    fn color() -> Color {
        pick_color()
    }
}

impl Drawable for Rectangle {
    open spec fn pixels(&self, col: Color) -> Seq<PixelWrite> {
        line_pixels(self.a.x as int, self.a.y as int, self.b.x as int, self.b.y as int, col)
            + line_pixels(self.b.x as int, self.b.y as int, self.c.x as int, self.c.y as int, col)
            + line_pixels(self.c.x as int, self.c.y as int, self.d.x as int, self.d.y as int, col)
            + line_pixels(self.d.x as int, self.d.y as int, self.a.x as int, self.a.y as int, col)
    }

    open spec fn draw_ok(&self) -> bool {
        true
    }

    fn draw<D: Displayable>(&self, image: &mut D) {
        let col = Self::color();
        draw_line(image, &self.a, &self.b, col);
        draw_line(image, &self.b, &self.c, col);
        draw_line(image, &self.c, &self.d, col);
        draw_line(image, &self.d, &self.a, col);
        proof {
            assert(image.writes() =~= old(image).writes() + self.pixels(col));
        }
    }

    fn color() -> Color {
        pick_color()
    }
}

impl Drawable for Circle {
    open spec fn pixels(&self, c: Color) -> Seq<PixelWrite> {
        circle_pixels(self.center.x as int, self.center.y as int, self.radius as int, c)
    }

    open spec fn draw_ok(&self) -> bool {
        circle_fits(self.center.x as int, self.center.y as int, self.radius as int)
    }

    fn draw<D: Displayable>(&self, image: &mut D) {
        let c = Self::color();
        draw_circle(image, &self.center, self.radius, c);
        proof {
            assert(image.writes() == old(image).writes() + self.pixels(c));
        }
    }

    fn color() -> Color {
        pick_color()
    }
}

} // verus!
