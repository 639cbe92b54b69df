use geometrical_shapes::Canvas;
use geometrical_shapes::Color;
use geometrical_shapes::Drawable;
use geometrical_shapes::Line;
use geometrical_shapes::Point;
use geometrical_shapes::Rectangle;
use geometrical_shapes::Triangle;
use geometrical_shapes::line_raster::draw_line;

fn positions(canvas: &Canvas) -> Vec<(i32, i32)> {
    canvas.recorded().iter().map(|w| (w.x, w.y)).collect()
}

#[test]
fn degenerate_line_emits_one_write_at_start() {
    let mut canvas = Canvas::new();
    let p = Point::new(7, -3);
    Line::new(p, p).draw(&mut canvas);
    assert_eq!(positions(&canvas), vec![(7, -3)]);
}

#[test]
fn point_draw_emits_one_write() {
    let mut canvas = Canvas::new();
    Point::new(3, 4).draw(&mut canvas);
    assert_eq!(positions(&canvas), vec![(3, 4)]);
}

#[test]
fn horizontal_line_writes_steps_pixels_excluding_endpoint() {
    let mut canvas = Canvas::new();
    Line::new(Point::new(0, 0), Point::new(4, 0)).draw(&mut canvas);
    assert_eq!(positions(&canvas), vec![(0, 0), (1, 0), (2, 0), (3, 0)]);
}

#[test]
fn draw_line_uses_the_given_color() {
    let mut canvas = Canvas::new();
    let color = Color::rgb(9, 8, 7);
    draw_line(&mut canvas, &Point::new(0, 0), &Point::new(2, 0), color);
    let writes = canvas.recorded();
    assert_eq!(writes.len(), 2);
    for w in writes.iter() {
        assert_eq!((w.color.r, w.color.g, w.color.b), (9, 8, 7));
    }
}

#[test]
fn steep_line_is_monotonic_along_major_axis() {
    let mut canvas = Canvas::new();
    let color = Color::rgb(1, 2, 3);
    draw_line(&mut canvas, &Point::new(0, 0), &Point::new(3, 7), color);
    let pos = positions(&canvas);
    assert_eq!(pos.len(), 7);
    for (i, &(_, y)) in pos.iter().enumerate() {
        assert_eq!(y, i as i32);
    }
    assert_eq!(pos, vec![(0, 0), (0, 1), (1, 2), (1, 3), (2, 4), (2, 5), (3, 6)]);
}

#[test]
fn reversed_line_steps_downward() {
    let mut canvas = Canvas::new();
    let color = Color::rgb(0, 0, 0);
    draw_line(&mut canvas, &Point::new(4, 0), &Point::new(0, 0), color);
    assert_eq!(positions(&canvas), vec![(4, 0), (3, 0), (2, 0), (1, 0)]);
}

#[test]
fn rectangle_two_corner_edges() {
    let mut canvas = Canvas::new();
    Rectangle::new(&Point::new(0, 0), &Point::new(5, 3)).draw(&mut canvas);
    let expected = vec![
        // (0,0) -> (5,0)
        (0, 0),
        (1, 0),
        (2, 0),
        (3, 0),
        (4, 0),
        // (5,0) -> (5,3)
        (5, 0),
        (5, 1),
        (5, 2),
        // (5,3) -> (0,3)
        (5, 3),
        (4, 3),
        (3, 3),
        (2, 3),
        (1, 3),
        // (0,3) -> (0,0)
        (0, 3),
        (0, 2),
        (0, 1),
    ];
    assert_eq!(positions(&canvas), expected);
    let writes = canvas.recorded();
    for w in writes.iter() {
        assert_eq!(w.color, writes[0].color);
    }
}

#[test]
fn rectangle_four_corner_form_draws_four_edges() {
    let mut canvas = Canvas::new();
    let r = Rectangle::with_corners(
        &Point::new(0, 0),
        &Point::new(2, 2),
        &Point::new(4, 0),
        &Point::new(2, -2),
    );
    r.draw(&mut canvas);
    // Each diagonal edge has 2 steps.
    assert_eq!(canvas.recorded().len(), 8);
    let writes = canvas.recorded();
    for w in writes.iter() {
        assert_eq!(w.color, writes[0].color);
    }
}

#[test]
fn triangle_edges_share_one_color() {
    let mut canvas = Canvas::new();
    Triangle::new(&Point::new(0, 0), &Point::new(4, 0), &Point::new(0, 4)).draw(&mut canvas);
    let writes = canvas.recorded();
    assert_eq!(writes.len(), 12);
    let first = writes[0].color;
    for w in writes.iter() {
        assert_eq!(w.color, first);
    }
    let pos = positions(&canvas);
    assert_eq!(
        pos,
        vec![
            (0, 0),
            (1, 0),
            (2, 0),
            (3, 0),
            (4, 0),
            (3, 1),
            (2, 2),
            (1, 3),
            (0, 4),
            (0, 3),
            (0, 2),
            (0, 1),
        ]
    );
}
