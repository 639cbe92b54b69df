//! The shape value types, their constructors, and random generation of
//! primitives inside given bounds.

use vstd::prelude::*;

use crate::entropy::random_in_range;

verus! {

/// A 2D integer coordinate. An immutable value, copied freely; it may be
/// negative or lie outside any particular surface's bounds.
#[derive(Clone, Copy, Debug, PartialEq, Eq, Structural)]
pub struct Point {
    pub x: i32,
    pub y: i32,
}

/// Why a constructor or generator refused its inputs.
#[derive(Clone, Copy, Debug, PartialEq, Eq, Structural)]
pub enum ShapeError {
    /// A random generator was given a width or height that is not positive.
    InvalidBounds,
    /// A circle was given a negative radius.
    InvalidRadius,
}

impl Point {
    pub fn new(x: i32, y: i32) -> (p: Point)
        ensures
            p == (Point { x, y }),
    {
        Point { x, y }
    }

    /// A point uniformly distributed in `[0, width) x [0, height)`.
    /// Bounds that are not positive are refused with `InvalidBounds`.
    pub fn random(width: i32, height: i32) -> (r: Result<Point, ShapeError>)
        ensures
            match r {
                Ok(p) => width > 0 && height > 0 && 0 <= p.x < width && 0 <= p.y < height,
                Err(e) => (width <= 0 || height <= 0) && e == ShapeError::InvalidBounds,
            },
    {
        if width <= 0 || height <= 0 {
            return Err(ShapeError::InvalidBounds);
        }
        let x = random_in_range(0, width as i64);
        let y = random_in_range(0, height as i64);
        Ok(Point { x: x as i32, y: y as i32 })
    }
}

/// An ordered pair of coordinates. The direction matters only for the
/// stepping of the rasterizer, not for the resulting pixel set.
#[derive(Clone, Copy, Debug, PartialEq, Eq, Structural)]
pub struct Line {
    pub a: Point,
    pub b: Point,
}

impl Line {
    pub fn new(a: Point, b: Point) -> (l: Line)
        ensures
            l == (Line { a, b }),
    {
        Line { a, b }
    }

    /// A line whose endpoints are drawn independently and uniformly from
    /// `[0, width) x [0, height)`; they may coincide. Bounds that are not
    /// positive are refused with `InvalidBounds`.
    pub fn random(width: i32, height: i32) -> (r: Result<Line, ShapeError>)
        ensures
            match r {
                Ok(l) => width > 0 && height > 0
                    && 0 <= l.a.x < width && 0 <= l.a.y < height
                    && 0 <= l.b.x < width && 0 <= l.b.y < height,
                Err(e) => (width <= 0 || height <= 0) && e == ShapeError::InvalidBounds,
            },
    {
        if width <= 0 || height <= 0 {
            return Err(ShapeError::InvalidBounds);
        }
        let ax = random_in_range(0, width as i64);
        let ay = random_in_range(0, height as i64);
        let bx = random_in_range(0, width as i64);
        let by = random_in_range(0, height as i64);
        Ok(Line {
            a: Point { x: ax as i32, y: ay as i32 },
            b: Point { x: bx as i32, y: by as i32 },
        })
    }
}

/// Three coordinates, interpreted as the closed polygon a -> b -> c -> a.
#[derive(Clone, Copy, Debug, PartialEq, Eq, Structural)]
pub struct Triangle {
    pub a: Point,
    pub b: Point,
    pub c: Point,
}

impl Triangle {
    pub fn new(a: &Point, b: &Point, c: &Point) -> (t: Triangle)
        ensures
            t == (Triangle { a: *a, b: *b, c: *c }),
    {
        Triangle { a: *a, b: *b, c: *c }
    }
}

/// Four corner coordinates, interpreted as the closed polygon
/// a -> b -> c -> d -> a. The canonical form keeps all four corners
/// explicitly, so rectangles need not be axis-aligned; the two-corner
/// constructor derives the other two corners.
#[derive(Clone, Copy, Debug, PartialEq, Eq, Structural)]
pub struct Rectangle {
    pub a: Point,
    pub b: Point,
    pub c: Point,
    pub d: Point,
}

impl Rectangle {
    /// An axis-aligned rectangle from two opposite corners: the two
    /// remaining corners are derived, so the edges run
    /// a -> (b.x, a.y) -> b -> (a.x, b.y) -> a.
    pub fn new(a: &Point, b: &Point) -> (r: Rectangle)
        ensures
            r == (Rectangle {
                a: *a,
                b: Point { x: b.x, y: a.y },
                c: *b,
                d: Point { x: a.x, y: b.y },
            }),
    {
        Rectangle {
            a: *a,
            b: Point { x: b.x, y: a.y },
            c: *b,
            d: Point { x: a.x, y: b.y },
        }
    }

    /// A rectangle from four explicit corners, which need not be
    /// axis-aligned.
    pub fn with_corners(a: &Point, b: &Point, c: &Point, d: &Point) -> (r: Rectangle)
        ensures
            r == (Rectangle { a: *a, b: *b, c: *c, d: *d }),
    {
        Rectangle { a: *a, b: *b, c: *c, d: *d }
    }
}

/// A center coordinate and a non-negative radius; radius 0 degenerates to a
/// single point.
#[derive(Clone, Copy, Debug, PartialEq, Eq, Structural)]
pub struct Circle {
    pub center: Point,
    pub radius: i32,
}

impl Circle {
    /// A circle with the given center and radius. A negative radius is
    /// refused with `InvalidRadius`; radius 0 is valid.
    pub fn new(center: Point, radius: i32) -> (r: Result<Circle, ShapeError>)
        ensures
            match r {
                Ok(c) => radius >= 0 && c == (Circle { center, radius }),
                Err(e) => radius < 0 && e == ShapeError::InvalidRadius,
            },
    {
        if radius < 0 {
            return Err(ShapeError::InvalidRadius);
        }
        Ok(Circle { center, radius })
    }

    /// A circle whose center is uniformly distributed in
    /// `[0, width) x [0, height)` and whose radius is uniformly distributed
    /// in `[0, (width + height) / 2)`. Bounds that are not positive are
    /// refused with `InvalidBounds`.
    pub fn random(width: i32, height: i32) -> (r: Result<Circle, ShapeError>)
        ensures
            match r {
                Ok(c) => width > 0 && height > 0
                    && 0 <= c.center.x < width && 0 <= c.center.y < height
                    && 0 <= c.radius < (width + height) / 2,
                Err(e) => (width <= 0 || height <= 0) && e == ShapeError::InvalidBounds,
            },
    {
        if width <= 0 || height <= 0 {
            return Err(ShapeError::InvalidBounds);
        }
        let cx = random_in_range(0, width as i64);
        let cy = random_in_range(0, height as i64);
        let bound: i64 = (width as i64 + height as i64) / 2;
        let radius = random_in_range(0, bound);
        Ok(Circle {
            center: Point { x: cx as i32, y: cy as i32 },
            radius: radius as i32,
        })
    }
}

} // verus!
