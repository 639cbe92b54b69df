//! The line rasterizer: the incremental stepping algorithm, its exact
//! mathematical model, and the facts that hold of the model.

use vstd::prelude::*;

use vstd::arithmetic::div_mod::lemma_div_is_ordered;
use vstd::arithmetic::div_mod::lemma_div_multiples_vanish_fancy;
use vstd::math::abs;
use vstd::math::max;
use vstd::math::min;

use crate::color::Color;
use crate::shapes::Point;
use crate::surface::Displayable;
use crate::surface::PixelWrite;

verus! {

/// `n / d` rounded to the nearest integer, halves away from zero: the
/// rounding applied to each stepped position.
pub open spec fn round_div(n: int, d: int) -> int
    recommends
        d > 0,
{
    if n >= 0 {
        (2 * n + d) / (2 * d)
    } else {
        -((2 * -n + d) / (2 * d))
    }
}

/// The step count of the segment from `(x1, y1)` to `(x2, y2)`: its extent
/// along the major axis.
pub open spec fn line_steps(x1: int, y1: int, x2: int, y2: int) -> int {
    max(abs(x2 - x1) as int, abs(y2 - y1) as int)
}

/// A pixel write at coordinates `(x, y)`, which the callers keep within
/// `i32` range.
pub open spec fn pixel_at(x: int, y: int, c: Color) -> PixelWrite {
    PixelWrite { x: x as i32, y: y as i32, color: c }
}

/// The exact sequence of writes the line rasterizer emits for the segment
/// from `(x1, y1)` to `(x2, y2)` in color `c`: a single write at the start
/// point when the endpoints coincide; otherwise one write per step, the
/// i-th at the start point advanced i times by `(dx/steps, dy/steps)` and
/// rounded. The end point itself is never among the writes.
pub open spec fn line_pixels(x1: int, y1: int, x2: int, y2: int, c: Color) -> Seq<PixelWrite> {
    let s = line_steps(x1, y1, x2, y2);
    if s == 0 {
        seq![pixel_at(x1, y1, c)]
    } else {
        Seq::new(
            s as nat,
            |i: int| pixel_at(
                round_div(x1 * s + i * (x2 - x1), s),
                round_div(y1 * s + i * (y2 - y1), s),
                c,
            ),
        )
    }
}

proof fn lemma_round_div_nonneg_bounds(n: int, d: int, lo: int, hi: int)
    requires
        0 <= n,
        0 < d,
        lo * d <= n,
        n <= hi * d,
    ensures
        lo <= (2 * n + d) / (2 * d) <= hi,
{
    assert((2 * d) * lo <= 2 * n + d) by (nonlinear_arith)
        requires lo * d <= n, 0 < d,
    ;
    assert(((2 * d) * lo + 0) / (2 * d) == lo) by {
        lemma_div_multiples_vanish_fancy(lo, 0, 2 * d);
    }
    lemma_div_is_ordered((2 * d) * lo, 2 * n + d, 2 * d);
    assert(2 * n + d <= (2 * d) * hi + d) by (nonlinear_arith)
        requires n <= hi * d, 0 < d,
    ;
    assert(((2 * d) * hi + d) / (2 * d) == hi) by {
        lemma_div_multiples_vanish_fancy(hi, d, 2 * d);
    }
    lemma_div_is_ordered(2 * n + d, (2 * d) * hi + d, 2 * d);
}

/// A quotient between two multiples of the divisor rounds to a value between
/// the two factors.
pub proof fn lemma_round_div_bounds(n: int, d: int, lo: int, hi: int)
    requires
        0 < d,
        lo * d <= n <= hi * d,
    ensures
        lo <= round_div(n, d) <= hi,
{
    if n >= 0 {
        lemma_round_div_nonneg_bounds(n, d, lo, hi);
    } else {
        assert((-hi) * d <= -n && -n <= (-lo) * d) by (nonlinear_arith)
            requires lo * d <= n <= hi * d,
        ;
        lemma_round_div_nonneg_bounds(-n, d, -hi, -lo);
    }
}

/// Rounding an exact multiple of the divisor gives the exact factor.
pub proof fn lemma_round_div_exact(k: int, d: int)
    requires
        0 < d,
    ensures
        round_div(k * d, d) == k,
{
    if k >= 0 {
        assert(k * d >= 0) by (nonlinear_arith)
            requires k >= 0, 0 < d,
        ;
        assert(2 * (k * d) + d == (2 * d) * k + d) by (nonlinear_arith);
        assert(((2 * d) * k + d) / (2 * d) == k) by {
            lemma_div_multiples_vanish_fancy(k, d, 2 * d);
        }
    } else {
        assert(k * d < 0) by (nonlinear_arith)
            requires k < 0, 0 < d,
        ;
        assert(2 * -(k * d) + d == (2 * d) * (-k) + d) by (nonlinear_arith);
        assert(((2 * d) * (-k) + d) / (2 * d) == -k) by {
            lemma_div_multiples_vanish_fancy(-k, d, 2 * d);
        }
    }
}

/// The unit step along an axis whose extent is `d`: the direction of travel.
pub open spec fn sign(d: int) -> int {
    if d > 0 {
        1
    } else if d < 0 {
        -1
    } else {
        0
    }
}

/// A degenerate segment, both endpoints equal, rasterizes to exactly one
/// write, at that point.
pub proof fn lemma_line_degenerate(x1: int, y1: int, c: Color)
    ensures
        line_pixels(x1, y1, x1, y1, c).len() == 1,
        line_pixels(x1, y1, x1, y1, c)[0] == pixel_at(x1, y1, c),
{
}

/// For distinct endpoints the rasterizer emits exactly `max(|dx|, |dy|)`
/// writes, and along the major axis the written positions start at the start
/// point and advance monotonically in unit steps toward the end point.
pub proof fn lemma_line_major_axis(x1: int, y1: int, x2: int, y2: int, c: Color)
    requires
        (x1, y1) != (x2, y2),
        i32::MIN <= x1 <= i32::MAX,
        i32::MIN <= y1 <= i32::MAX,
        i32::MIN <= x2 <= i32::MAX,
        i32::MIN <= y2 <= i32::MAX,
    ensures
        line_pixels(x1, y1, x2, y2, c).len() == line_steps(x1, y1, x2, y2),
        abs(x2 - x1) >= abs(y2 - y1) ==> forall|i: int|
            0 <= i < line_steps(x1, y1, x2, y2)
                ==> (#[trigger] line_pixels(x1, y1, x2, y2, c)[i]).x as int
                    == x1 + i * sign(x2 - x1),
        abs(y2 - y1) > abs(x2 - x1) ==> forall|i: int|
            0 <= i < line_steps(x1, y1, x2, y2)
                ==> (#[trigger] line_pixels(x1, y1, x2, y2, c)[i]).y as int
                    == y1 + i * sign(y2 - y1),
{
    let s = line_steps(x1, y1, x2, y2);
    let dx = x2 - x1;
    let dy = y2 - y1;
    assert(s > 0);
    if abs(dx) >= abs(dy) {
        let sg = sign(dx);
        assert(dx == sg * s) by (nonlinear_arith)
            requires s == abs(dx) as int, sg == sign(dx),
        ;
        assert forall|i: int| 0 <= i < s implies (#[trigger] line_pixels(
            x1,
            y1,
            x2,
            y2,
            c,
        )[i]).x as int == x1 + i * sg by {
            assert(x1 * s + i * dx == (x1 + i * sg) * s) by (nonlinear_arith)
                requires dx == sg * s,
            ;
            lemma_round_div_exact(x1 + i * sg, s);
            assert(x1 <= x1 + i * sg <= x2 || x2 <= x1 + i * sg <= x1) by (nonlinear_arith)
                requires 0 <= i < s, sg == sign(dx), dx == x2 - x1, s == abs(dx) as int,
            ;
        }
    } else {
        let sg = sign(dy);
        assert(dy == sg * s) by (nonlinear_arith)
            requires s == abs(dy) as int, sg == sign(dy),
        ;
        assert forall|i: int| 0 <= i < s implies (#[trigger] line_pixels(
            x1,
            y1,
            x2,
            y2,
            c,
        )[i]).y as int == y1 + i * sg by {
            assert(y1 * s + i * dy == (y1 + i * sg) * s) by (nonlinear_arith)
                requires dy == sg * s,
            ;
            lemma_round_div_exact(y1 + i * sg, s);
            assert(y1 <= y1 + i * sg <= y2 || y2 <= y1 + i * sg <= y1) by (nonlinear_arith)
                requires 0 <= i < s, sg == sign(dy), dy == y2 - y1, s == abs(dy) as int,
            ;
        }
    }
}

fn round_div_exec(n: i128, d: i128) -> (r: i128)
    requires
        0 < d <= 0x2_0000_0000,
        -0x1_0000_0000_0000_0000_0000 <= n <= 0x1_0000_0000_0000_0000_0000,
    ensures
        r == round_div(n as int, d as int),
{
    if n >= 0 {
        (2 * n + d) / (2 * d)
    } else {
        -((2 * -n + d) / (2 * d))
    }
}

/// Draw the segment from `p1` to `p2` in `color` onto `image`: the incremental
/// stepping rasterizer. It appends exactly `line_pixels(..)` to the surface.
pub fn draw_line<D: Displayable>(image: &mut D, p1: &Point, p2: &Point, color: Color)
    ensures
        final(image).writes() == old(image).writes()
            + line_pixels(p1.x as int, p1.y as int, p2.x as int, p2.y as int, color),
{
    let ghost x1 = p1.x as int;
    let ghost y1 = p1.y as int;
    let ghost x2 = p2.x as int;
    let ghost y2 = p2.y as int;
    let ghost target = line_pixels(x1, y1, x2, y2, color);

    let dx: i64 = p2.x as i64 - p1.x as i64;
    let dy: i64 = p2.y as i64 - p1.y as i64;
    let adx: i64 = if dx < 0 { -dx } else { dx };
    let ady: i64 = if dy < 0 { -dy } else { dy };
    let steps: i64 = if adx > ady { adx } else { ady };
    assert(steps as int == line_steps(x1, y1, x2, y2));

    if steps == 0 {
        image.display(p1.x, p1.y, color);
        proof {
            assert(target =~= seq![pixel_at(x1, y1, color)]);
            assert(final(image).writes() =~= old(image).writes() + target);
        }
        return;
    }

    proof {
        assert(-0x1_0000_0000_0000_0000_0000 <= x1 * steps && x1 * steps <= 0x1_0000_0000_0000_0000_0000
            && -0x1_0000_0000_0000_0000_0000 <= y1 * steps && y1 * steps <= 0x1_0000_0000_0000_0000_0000)
            by (nonlinear_arith)
            requires
                -0x8000_0000 <= x1 <= 0x7fff_ffff,
                -0x8000_0000 <= y1 <= 0x7fff_ffff,
                0 < steps <= 0x2_0000_0000,
        ;
    }
    let mut xn: i128 = (p1.x as i128) * (steps as i128);
    let mut yn: i128 = (p1.y as i128) * (steps as i128);
    let mut i: i64 = 0;
    while i < steps
        invariant
            0 < steps <= 0x2_0000_0000,
            0 <= i <= steps,
            steps == line_steps(x1, y1, x2, y2),
            x1 == p1.x as int && y1 == p1.y as int,
            x2 == p2.x as int && y2 == p2.y as int,
            dx == x2 - x1,
            dy == y2 - y1,
            xn == x1 * steps + i * dx,
            yn == y1 * steps + i * dy,
            target == line_pixels(x1, y1, x2, y2, color),
            image.writes() == old(image).writes() + target.subrange(0, i as int),
        decreases steps - i,
    {
        proof {
            assert(min(x1, x2) * steps <= xn <= max(x1, x2) * steps
                && min(y1, y2) * steps <= yn <= max(y1, y2) * steps
                && -0x1_0000_0000_0000_0000_0000 <= xn <= 0x1_0000_0000_0000_0000_0000
                && -0x1_0000_0000_0000_0000_0000 <= yn <= 0x1_0000_0000_0000_0000_0000)
                by (nonlinear_arith)
                requires
                    xn == x1 * steps + i * dx,
                    yn == y1 * steps + i * dy,
                    dx == x2 - x1,
                    dy == y2 - y1,
                    0 <= i <= steps,
                    0 < steps <= 0x2_0000_0000,
                    -0x8000_0000 <= x1 <= 0x7fff_ffff,
                    -0x8000_0000 <= x2 <= 0x7fff_ffff,
                    -0x8000_0000 <= y1 <= 0x7fff_ffff,
                    -0x8000_0000 <= y2 <= 0x7fff_ffff,
            ;
            lemma_round_div_bounds(xn as int, steps as int, min(x1, x2), max(x1, x2));
            lemma_round_div_bounds(yn as int, steps as int, min(y1, y2), max(y1, y2));
        }
        let px: i128 = round_div_exec(xn, steps as i128);
        let py: i128 = round_div_exec(yn, steps as i128);
        image.display(px as i32, py as i32, color);
        proof {
            assert(PixelWrite { x: px as i32, y: py as i32, color } == target.index(i as int));
            assert(target.subrange(0, i as int + 1)
                =~= target.subrange(0, i as int).push(target.index(i as int)));
            assert(image.writes() =~= old(image).writes() + target.subrange(0, i as int + 1));
        }
        proof {
            assert(i * dx + dx == (i + 1) * dx && i * dy + dy == (i + 1) * dy)
                by (nonlinear_arith);
        }
        xn = xn + dx as i128;
        yn = yn + dy as i128;
        i = i + 1;
    }
    proof {
        assert(target.subrange(0, steps as int) =~= target);
        assert(image.writes() =~= old(image).writes() + target);
    }
}

} // verus!
