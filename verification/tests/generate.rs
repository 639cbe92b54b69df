use geometrical_shapes::Circle;
use geometrical_shapes::Color;
use geometrical_shapes::Drawable;
use geometrical_shapes::Line;
use geometrical_shapes::Point;
use geometrical_shapes::ShapeError;
use geometrical_shapes::pick_color;

#[test]
fn random_points_stay_in_bounds() {
    for _ in 0..200 {
        let p = Point::random(17, 9).unwrap();
        assert!(0 <= p.x && p.x < 17);
        assert!(0 <= p.y && p.y < 9);
    }
}

#[test]
fn random_lines_stay_in_bounds() {
    for _ in 0..200 {
        let l = Line::random(31, 12).unwrap();
        for p in [l.a, l.b].iter() {
            assert!(0 <= p.x && p.x < 31);
            assert!(0 <= p.y && p.y < 12);
        }
    }
}

#[test]
fn random_circles_stay_in_bounds() {
    for _ in 0..200 {
        let c = Circle::random(8, 6).unwrap();
        assert!(0 <= c.center.x && c.center.x < 8);
        assert!(0 <= c.center.y && c.center.y < 6);
        assert!(0 <= c.radius && c.radius < 7);
    }
}

#[test]
fn non_positive_bounds_are_invalid() {
    assert_eq!(Point::random(0, 5), Err(ShapeError::InvalidBounds));
    assert_eq!(Point::random(5, -1), Err(ShapeError::InvalidBounds));
    assert!(matches!(Line::random(-3, 4), Err(ShapeError::InvalidBounds)));
    assert!(matches!(Circle::random(10, 0), Err(ShapeError::InvalidBounds)));
}

#[test]
fn negative_radius_is_invalid_but_zero_is_not() {
    let center = Point::new(1, 2);
    assert!(matches!(Circle::new(center, -1), Err(ShapeError::InvalidRadius)));
    let c = Circle::new(center, 0).unwrap();
    assert_eq!(c.radius, 0);
    assert_eq!((c.center.x, c.center.y), (1, 2));
}

#[test]
fn picked_colors_vary_over_many_calls() {
    let mut seen = Vec::new();
    for _ in 0..64 {
        let c = pick_color();
        if !seen.contains(&c) {
            seen.push(c);
        }
    }
    // Channels are bytes, so they are always within [0, 255]; over many
    // draws the colors should not all coincide.
    assert!(seen.len() >= 2);
}

#[test]
fn shape_colors_are_freshly_picked() {
    // Drawable::color is random per call; over many calls at least two
    // distinct colors must appear.
    let mut distinct = Vec::new();
    for _ in 0..64 {
        let c: Color = <Point as Drawable>::color();
        if !distinct.contains(&c) {
            distinct.push(c);
        }
    }
    assert!(distinct.len() >= 2);
}
