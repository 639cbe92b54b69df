//! The circle rasterizer: the midpoint algorithm with 8-way symmetry, its
//! exact mathematical model, and the facts that hold of the model.

use vstd::prelude::*;

use crate::color::Color;
use crate::line_raster::pixel_at;
use crate::shapes::Point;
use crate::surface::Displayable;
use crate::surface::PixelWrite;

verus! {

/// The eight symmetric writes one midpoint iteration emits for offsets
/// `(x, y)` around the center `(xc, yc)`, in emission order. Coincident
/// points (at x = 0 or x = y) are not deduplicated.
pub open spec fn octant_pixels(xc: int, yc: int, x: int, y: int, c: Color) -> Seq<PixelWrite> {
    seq![
        pixel_at(xc + x, yc + y, c),
        pixel_at(xc - x, yc + y, c),
        pixel_at(xc + x, yc - y, c),
        pixel_at(xc - x, yc - y, c),
        pixel_at(xc + y, yc + x, c),
        pixel_at(xc - y, yc + x, c),
        pixel_at(xc + y, yc - x, c),
        pixel_at(xc - y, yc - x, c),
    ]
}

/// The writes the midpoint loop emits from state `(x, y, d)` on: while
/// x <= y, eight symmetric points per iteration, x incremented each time and
/// y decremented exactly when the decision variable d was non-negative.
pub open spec fn arc_pixels(xc: int, yc: int, x: int, y: int, d: int, c: Color) -> Seq<PixelWrite>
    decreases (if x <= y { y + 1 - x } else { 0 }),
{
    if x > y {
        Seq::empty()
    } else if d < 0 {
        octant_pixels(xc, yc, x, y, c) + arc_pixels(xc, yc, x + 1, y, d + 2 * (x + 1) + 1, c)
    } else {
        octant_pixels(xc, yc, x, y, c)
            + arc_pixels(xc, yc, x + 1, y - 1, d + 2 * ((x + 1) - (y - 1)) + 1, c)
    }
}

/// The exact sequence of writes of the circle rasterizer for center
/// `(xc, yc)` and radius `r`: the midpoint loop started at x = 0, y = r,
/// d = 1 - r.
pub open spec fn circle_pixels(xc: int, yc: int, r: int, c: Color) -> Seq<PixelWrite>
    recommends
        r >= 0,
{
    arc_pixels(xc, yc, 0, r, 1 - r, c)
}

/// Whether a circle of radius `r` around `(xc, yc)` keeps every emitted
/// coordinate representable in `i32`.
pub open spec fn circle_fits(xc: int, yc: int, r: int) -> bool {
    &&& r >= 0
    &&& xc - r >= i32::MIN
    &&& xc + r <= i32::MAX
    &&& yc - r >= i32::MIN
    &&& yc + r <= i32::MAX
}

/// Whether some write in `s` is at the point `(x, y)`.
pub open spec fn writes_point(s: Seq<PixelWrite>, x: int, y: int) -> bool {
    exists|i: int| 0 <= i < s.len() && (#[trigger] s[i]).x as int == x && s[i].y as int == y
}

proof fn lemma_octant_symmetry(xc: int, yc: int, x: int, y: int, c: Color, a: int, b: int)
    requires
        0 <= x <= y,
        xc - y >= i32::MIN,
        xc + y <= i32::MAX,
        yc - y >= i32::MIN,
        yc + y <= i32::MAX,
        writes_point(octant_pixels(xc, yc, x, y, c), xc + a, yc + b),
    ensures
        writes_point(octant_pixels(xc, yc, x, y, c), xc - a, yc + b),
        writes_point(octant_pixels(xc, yc, x, y, c), xc + a, yc - b),
        writes_point(octant_pixels(xc, yc, x, y, c), xc + b, yc + a),
{
    let s = octant_pixels(xc, yc, x, y, c);
    let i = choose|i: int| 0 <= i < s.len() && (#[trigger] s[i]).x as int == xc + a
        && s[i].y as int == yc + b;
    if i == 0 {
        assert(a == x && b == y);
        assert(s[1].x as int == xc - a && s[1].y as int == yc + b);
        assert(s[2].x as int == xc + a && s[2].y as int == yc - b);
        assert(s[4].x as int == xc + b && s[4].y as int == yc + a);
    } else if i == 1 {
        assert(a == -x && b == y);
        assert(s[0].x as int == xc - a && s[0].y as int == yc + b);
        assert(s[3].x as int == xc + a && s[3].y as int == yc - b);
        assert(s[6].x as int == xc + b && s[6].y as int == yc + a);
    } else if i == 2 {
        assert(a == x && b == -y);
        assert(s[3].x as int == xc - a && s[3].y as int == yc + b);
        assert(s[0].x as int == xc + a && s[0].y as int == yc - b);
        assert(s[5].x as int == xc + b && s[5].y as int == yc + a);
    } else if i == 3 {
        assert(a == -x && b == -y);
        assert(s[2].x as int == xc - a && s[2].y as int == yc + b);
        assert(s[1].x as int == xc + a && s[1].y as int == yc - b);
        assert(s[7].x as int == xc + b && s[7].y as int == yc + a);
    } else if i == 4 {
        assert(a == y && b == x);
        assert(s[5].x as int == xc - a && s[5].y as int == yc + b);
        assert(s[6].x as int == xc + a && s[6].y as int == yc - b);
        assert(s[0].x as int == xc + b && s[0].y as int == yc + a);
    } else if i == 5 {
        assert(a == -y && b == x);
        assert(s[4].x as int == xc - a && s[4].y as int == yc + b);
        assert(s[7].x as int == xc + a && s[7].y as int == yc - b);
        assert(s[2].x as int == xc + b && s[2].y as int == yc + a);
    } else if i == 6 {
        assert(a == y && b == -x);
        assert(s[7].x as int == xc - a && s[7].y as int == yc + b);
        assert(s[4].x as int == xc + a && s[4].y as int == yc - b);
        assert(s[1].x as int == xc + b && s[1].y as int == yc + a);
    } else {
        assert(i == 7);
        assert(a == -y && b == -x);
        assert(s[6].x as int == xc - a && s[6].y as int == yc + b);
        assert(s[5].x as int == xc + a && s[5].y as int == yc - b);
        assert(s[3].x as int == xc + b && s[3].y as int == yc + a);
    }
}

proof fn lemma_arc_symmetry(xc: int, yc: int, x: int, y: int, d: int, c: Color, a: int, b: int)
    requires
        0 <= x,
        xc - y >= i32::MIN,
        xc + y <= i32::MAX,
        yc - y >= i32::MIN,
        yc + y <= i32::MAX,
        writes_point(arc_pixels(xc, yc, x, y, d, c), xc + a, yc + b),
    ensures
        writes_point(arc_pixels(xc, yc, x, y, d, c), xc - a, yc + b),
        writes_point(arc_pixels(xc, yc, x, y, d, c), xc + a, yc - b),
        writes_point(arc_pixels(xc, yc, x, y, d, c), xc + b, yc + a),
    decreases (if x <= y { y + 1 - x } else { 0 }),
{
    let s = arc_pixels(xc, yc, x, y, d, c);
    if x > y {
        assert(s.len() == 0);
    } else {
        let oct = octant_pixels(xc, yc, x, y, c);
        let rest = if d < 0 {
            arc_pixels(xc, yc, x + 1, y, d + 2 * (x + 1) + 1, c)
        } else {
            arc_pixels(xc, yc, x + 1, y - 1, d + 2 * ((x + 1) - (y - 1)) + 1, c)
        };
        assert(s == oct + rest);
        let i = choose|i: int| 0 <= i < s.len() && (#[trigger] s[i]).x as int == xc + a
            && s[i].y as int == yc + b;
        if i < 8 {
            assert(oct[i] == s[i]);
            assert(writes_point(oct, xc + a, yc + b));
            lemma_octant_symmetry(xc, yc, x, y, c, a, b);
            let j1 = choose|j: int| 0 <= j < oct.len() && (#[trigger] oct[j]).x as int == xc - a
                && oct[j].y as int == yc + b;
            assert(s[j1] == oct[j1]);
            assert(writes_point(s, xc - a, yc + b));
            let j2 = choose|j: int| 0 <= j < oct.len() && (#[trigger] oct[j]).x as int == xc + a
                && oct[j].y as int == yc - b;
            assert(s[j2] == oct[j2]);
            assert(writes_point(s, xc + a, yc - b));
            let j3 = choose|j: int| 0 <= j < oct.len() && (#[trigger] oct[j]).x as int == xc + b
                && oct[j].y as int == yc + a;
            assert(s[j3] == oct[j3]);
            assert(writes_point(s, xc + b, yc + a));
        } else {
            assert(rest[i - 8] == s[i]);
            assert(writes_point(rest, xc + a, yc + b));
            if d < 0 {
                lemma_arc_symmetry(xc, yc, x + 1, y, d + 2 * (x + 1) + 1, c, a, b);
            } else {
                lemma_arc_symmetry(xc, yc, x + 1, y - 1, d + 2 * ((x + 1) - (y - 1)) + 1, c, a, b);
            }
            let j1 = choose|j: int| 0 <= j < rest.len() && (#[trigger] rest[j]).x as int == xc - a
                && rest[j].y as int == yc + b;
            assert(s[j1 + 8] == rest[j1]);
            assert(writes_point(s, xc - a, yc + b));
            let j2 = choose|j: int| 0 <= j < rest.len() && (#[trigger] rest[j]).x as int == xc + a
                && rest[j].y as int == yc - b;
            assert(s[j2 + 8] == rest[j2]);
            assert(writes_point(s, xc + a, yc - b));
            let j3 = choose|j: int| 0 <= j < rest.len() && (#[trigger] rest[j]).x as int == xc + b
                && rest[j].y as int == yc + a;
            assert(s[j3 + 8] == rest[j3]);
            assert(writes_point(s, xc + b, yc + a));
        }
    }
}

/// The circle rasterizer's emitted point set is symmetric under reflection
/// across the horizontal and the vertical axis through the center, and under
/// swapping the two axes: whenever it writes the point at offset `(a, b)`
/// from the center, it also writes the offsets `(-a, b)`, `(a, -b)` and
/// `(b, a)`.
pub proof fn lemma_circle_symmetry(xc: int, yc: int, r: int, c: Color, a: int, b: int)
    requires
        circle_fits(xc, yc, r),
        writes_point(circle_pixels(xc, yc, r, c), xc + a, yc + b),
    ensures
        writes_point(circle_pixels(xc, yc, r, c), xc - a, yc + b),
        writes_point(circle_pixels(xc, yc, r, c), xc + a, yc - b),
        writes_point(circle_pixels(xc, yc, r, c), xc + b, yc + a),
{
    lemma_arc_symmetry(xc, yc, 0, r, 1 - r, c, a, b);
}

/// A circle of radius 0 emits only the center point — eight coincident
/// writes — and nothing else.
pub proof fn lemma_circle_zero_radius(xc: int, yc: int, c: Color)
    requires
        i32::MIN <= xc <= i32::MAX,
        i32::MIN <= yc <= i32::MAX,
    ensures
        circle_pixels(xc, yc, 0, c).len() == 8,
        forall|i: int| 0 <= i < 8 ==> circle_pixels(xc, yc, 0, c)[i] == pixel_at(xc, yc, c),
{
    assert(arc_pixels(xc, yc, 1, -1, 6, c) =~= Seq::<PixelWrite>::empty());
    assert(circle_pixels(xc, yc, 0, c) =~= octant_pixels(xc, yc, 0, 0, c));
}

/// Draw the circle outline of the given center and radius in `color` onto
/// `image`: the midpoint circle algorithm with 8-way symmetry. It appends
/// exactly `circle_pixels(..)` to the surface; radius 0 emits the center
/// point eight times.
pub fn draw_circle<D: Displayable>(image: &mut D, center: &Point, radius: i32, color: Color)
    requires
        circle_fits(center.x as int, center.y as int, radius as int),
    ensures
        final(image).writes() == old(image).writes()
            + circle_pixels(center.x as int, center.y as int, radius as int, color),
{
    let ghost cx = center.x as int;
    let ghost cy = center.y as int;
    let ghost target = circle_pixels(cx, cy, radius as int, color);

    let xc: i64 = center.x as i64;
    let yc: i64 = center.y as i64;
    let r: i64 = radius as i64;

    let mut x: i64 = 0;
    let mut y: i64 = r;
    let mut d: i128 = 1 - (r as i128);

    while x <= y
        invariant
            xc == cx && yc == cy,
            circle_fits(cx, cy, r as int),
            0 <= x <= y + 2,
            -1 <= y <= r,
            d == (x + 1) * (x + 1) + y * y - y - r * r,
            target == circle_pixels(cx, cy, r as int, color),
            old(image).writes() + target == image.writes() + arc_pixels(cx, cy, x as int, y as int, d as int, color),
        decreases (if x <= y { y + 1 - x } else { 0 }),
    {
        let ghost writes_before = image.writes();
        let ghost x0 = x as int;
        let ghost y0 = y as int;
        let ghost d0 = d as int;

        image.display((xc + x) as i32, (yc + y) as i32, color);
        image.display((xc - x) as i32, (yc + y) as i32, color);
        image.display((xc + x) as i32, (yc - y) as i32, color);
        image.display((xc - x) as i32, (yc - y) as i32, color);
        image.display((xc + y) as i32, (yc + x) as i32, color);
        image.display((xc - y) as i32, (yc + x) as i32, color);
        image.display((xc + y) as i32, (yc - x) as i32, color);
        image.display((xc - y) as i32, (yc - x) as i32, color);
        proof {
            assert(image.writes() =~= writes_before + octant_pixels(cx, cy, x0, y0, color));
        }

        proof {
            assert(-0x1_0000_0000_0000_0000 <= d <= 0x1_0000_0000_0000_0000) by (nonlinear_arith)
                requires
                    d == (x + 1) * (x + 1) + y * y - y - r * r,
                    0 <= x <= y + 2,
                    -1 <= y <= r,
                    0 <= r < 0x8000_0000,
            ;
        }
        x = x + 1;
        if d < 0 {
            d = d + 2 * (x as i128) + 1;
            proof {
                assert((x0 + 2) * (x0 + 2) == (x0 + 1) * (x0 + 1) + 2 * (x0 + 1) + 1)
                    by (nonlinear_arith);
            }
        } else {
            y = y - 1;
            d = d + 2 * ((x as i128) - (y as i128)) + 1;
            proof {
                assert((x0 + 2) * (x0 + 2) + (y0 - 1) * (y0 - 1) - (y0 - 1)
                    == (x0 + 1) * (x0 + 1) + y0 * y0 - y0 + 2 * ((x0 + 1) - (y0 - 1)) + 1)
                    by (nonlinear_arith);
            }
        }
        proof {
            assert(arc_pixels(cx, cy, x0, y0, d0, color)
                == octant_pixels(cx, cy, x0, y0, color)
                    + arc_pixels(cx, cy, x as int, y as int, d as int, color));
            assert(writes_before + arc_pixels(cx, cy, x0, y0, d0, color)
                =~= image.writes() + arc_pixels(cx, cy, x as int, y as int, d as int, color));
        }
    }
    proof {
        assert(arc_pixels(cx, cy, x as int, y as int, d as int, color) =~= Seq::<PixelWrite>::empty());
        assert(image.writes() + arc_pixels(cx, cy, x as int, y as int, d as int, color)
            =~= image.writes());
    }
}

} // verus!
