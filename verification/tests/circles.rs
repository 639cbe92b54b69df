use geometrical_shapes::Canvas;
use geometrical_shapes::Circle;
use geometrical_shapes::Drawable;
use geometrical_shapes::Point;

fn positions(canvas: &Canvas) -> Vec<(i32, i32)> {
    canvas.recorded().iter().map(|w| (w.x, w.y)).collect()
}

#[test]
fn zero_radius_emits_only_the_center() {
    let mut canvas = Canvas::new();
    let c = Circle::new(Point::new(5, 5), 0).unwrap();
    c.draw(&mut canvas);
    let pos = positions(&canvas);
    assert_eq!(pos.len(), 8);
    for &p in pos.iter() {
        assert_eq!(p, (5, 5));
    }
}

#[test]
fn radius_three_circle_stays_near_the_circumference() {
    let mut canvas = Canvas::new();
    let c = Circle::new(Point::new(10, 10), 3).unwrap();
    c.draw(&mut canvas);
    let pos = positions(&canvas);
    // The first midpoint iteration (x = 0, y = 3) emits exactly these four
    // points, each twice.
    let first: Vec<(i32, i32)> = pos[..8].to_vec();
    for &p in [(13, 10), (7, 10), (10, 13), (10, 7)].iter() {
        assert_eq!(first.iter().filter(|&&q| q == p).count(), 2);
    }
    // Every emitted point lies close to the circle of radius 3: squared
    // distance within 1 of 9.
    for &(x, y) in pos.iter() {
        let d2 = (x - 10) * (x - 10) + (y - 10) * (y - 10);
        assert!(8 <= d2 && d2 <= 10, "point ({}, {}) is off the circle", x, y);
    }
}

#[test]
fn circle_point_set_is_symmetric() {
    let mut canvas = Canvas::new();
    let c = Circle::new(Point::new(0, 0), 5).unwrap();
    c.draw(&mut canvas);
    let pos = positions(&canvas);
    for &(x, y) in pos.iter() {
        assert!(pos.contains(&(-x, y)));
        assert!(pos.contains(&(x, -y)));
        assert!(pos.contains(&(y, x)));
    }
}

#[test]
fn circle_writes_share_one_color() {
    let mut canvas = Canvas::new();
    let c = Circle::new(Point::new(4, 4), 2).unwrap();
    c.draw(&mut canvas);
    let writes = canvas.recorded();
    assert!(writes.len() > 0);
    for w in writes.iter() {
        assert_eq!(w.color, writes[0].color);
    }
}
