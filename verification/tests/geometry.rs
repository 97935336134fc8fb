use snek::game::snake::Snake;
use snek::util::{Direction, Point};

fn pt(x: i8, y: i8) -> Point {
    Point { x, y }
}

fn bounds() -> Point {
    pt(24, 16)
}

#[test]
fn opposite_involution_all_directions() {
    let dirs = [
        Direction::Up,
        Direction::Down,
        Direction::Left,
        Direction::Right,
    ];
    for d in dirs {
        assert_eq!(d.opposite().opposite(), d);
        assert_ne!(d.opposite(), d);
    }
    assert_eq!(Direction::Up.opposite(), Direction::Down);
    assert_eq!(Direction::Left.opposite(), Direction::Right);
}

#[test]
fn move_then_wrap_stays_on_board() {
    let dirs = [
        Direction::Up,
        Direction::Down,
        Direction::Left,
        Direction::Right,
    ];
    for x in 0..24i8 {
        for y in 0..16i8 {
            for d in dirs {
                let mut p = pt(x, y);
                p.move_towards(d);
                p.wrap(bounds());
                assert!(0 <= p.x && p.x < 24);
                assert!(0 <= p.y && p.y < 16);
            }
        }
    }
}

#[test]
fn wrap_right_edge() {
    let mut p = pt(23, 5);
    p.move_towards(Direction::Right);
    p.wrap(bounds());
    assert_eq!(p, pt(0, 5));
}

#[test]
fn wrap_left_edge() {
    let mut p = pt(0, 5);
    p.move_towards(Direction::Left);
    p.wrap(bounds());
    assert_eq!(p, pt(23, 5));
}

#[test]
fn wrap_top_and_bottom_edges() {
    let mut p = pt(4, 0);
    p.move_towards(Direction::Up);
    p.wrap(bounds());
    assert_eq!(p, pt(4, 15));
    p.move_towards(Direction::Down);
    p.wrap(bounds());
    assert_eq!(p, pt(4, 0));
}

#[test]
fn wrap_is_identity_inside_the_board() {
    let mut p = pt(10, 10);
    p.move_towards(Direction::Right);
    p.wrap(bounds());
    assert_eq!(p, pt(11, 10));
}

#[test]
fn random_points_land_in_range() {
    for _ in 0..200 {
        let p = Point::random(pt(2, 3));
        assert!(0 <= p.x && p.x < 2);
        assert!(0 <= p.y && p.y < 3);
    }
}

#[test]
fn random_point_on_single_cell_board_is_origin() {
    for _ in 0..10 {
        assert_eq!(Point::random(pt(1, 1)), pt(0, 0));
    }
}

#[test]
fn new_snake_is_a_straight_line_ending_at_center() {
    let s = Snake::new(Direction::Right, 3, bounds());
    assert_eq!(s.len(), 3);
    assert!(s.occupies(pt(14, 8)));
    assert!(s.occupies(pt(13, 8)));
    assert!(s.occupies(pt(12, 8)));
    assert!(!s.occupies(pt(11, 8)));
}

#[test]
fn longer_snake_heads_away_from_center() {
    let s = Snake::new(Direction::Down, 5, bounds());
    assert_eq!(s.len(), 5);
    for k in 0..5i8 {
        assert!(s.occupies(pt(12, 8 + k)));
    }
}

#[test]
fn unoccupied_point_avoids_the_body() {
    let s = Snake::from_segments(
        Direction::Right,
        vec![pt(0, 0), pt(1, 0), pt(2, 0)],
        bounds(),
    );
    for _ in 0..50 {
        let p = s.random_unoccupied_point(bounds()).unwrap();
        assert!(!s.occupies(p));
        assert!(0 <= p.x && p.x < 24 && 0 <= p.y && p.y < 16);
    }
}

#[test]
fn unoccupied_point_is_none_on_a_full_board() {
    let tiny = pt(1, 1);
    let s = Snake::from_segments(Direction::Right, vec![pt(0, 0)], tiny);
    assert_eq!(s.random_unoccupied_point(tiny), None);
}

#[test]
fn unoccupied_point_finds_the_last_free_cell() {
    let small = pt(2, 1);
    let s = Snake::from_segments(Direction::Right, vec![pt(0, 0)], small);
    assert_eq!(s.random_unoccupied_point(small), Some(pt(1, 0)));
}
