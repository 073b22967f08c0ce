use sierpinski::{exact_unit, Coordinates, Triangle};

fn triangle(x: i64, y: i64, height: i64) -> Triangle {
    Triangle::new(Coordinates::new(x, y), height).unwrap()
}

#[test]
fn new_keeps_apex_and_height() {
    let t = triangle(300, 0, 600);
    assert_eq!(t.top(), Coordinates { x: 300, y: 0 });
    assert_eq!(t.height(), 600);
}

#[test]
fn new_refuses_negative_height() {
    assert!(Triangle::new(Coordinates::new(0, 0), -1).is_none());
    assert!(Triangle::new(Coordinates::new(0, 0), i64::MIN).is_none());
}

#[test]
fn new_accepts_zero_height() {
    let t = triangle(5, 9, 0);
    assert_eq!(t.get_left_coordinates(), Coordinates { x: 5, y: 9 });
    assert_eq!(t.get_right_coordinates(), Coordinates { x: 5, y: 9 });
}

#[test]
fn new_refuses_base_below_the_grid() {
    assert!(Triangle::new(Coordinates::new(0, i64::MAX), 1).is_none());
    assert!(Triangle::new(Coordinates::new(0, 1), i64::MAX).is_none());
    assert!(Triangle::new(Coordinates::new(0, 0), i64::MAX).is_some());
}

#[test]
fn new_refuses_base_beside_the_grid() {
    assert!(Triangle::new(Coordinates::new(i64::MIN, 0), 2).is_none());
    assert!(Triangle::new(Coordinates::new(i64::MAX, 0), 2).is_none());
    // a height of one unit has a base width of zero
    assert!(Triangle::new(Coordinates::new(i64::MIN, 0), 1).is_some());
    assert!(Triangle::new(Coordinates::new(i64::MAX, 0), 1).is_some());
    assert!(Triangle::new(Coordinates::new(i64::MIN + 1, 0), 2).is_some());
    assert!(Triangle::new(Coordinates::new(i64::MAX - 1, 0), 3).is_some());
}

#[test]
fn widths_are_half_and_quarter_of_height() {
    let t = triangle(300, 0, 600);
    assert_eq!(t.get_base_width(), 300);
    assert_eq!(t.get_half_base_width(), 150);
    assert_eq!(t.get_half_height(), 300);
}

#[test]
fn halving_rounds_down() {
    let t = triangle(0, 0, 7);
    assert_eq!(t.get_base_width(), 3);
    assert_eq!(t.get_half_base_width(), 1);
    assert_eq!(t.get_half_height(), 3);
    let u = triangle(0, 0, 1);
    assert_eq!(u.get_base_width(), 0);
    assert_eq!(u.get_half_base_width(), 0);
}

#[test]
fn widths_for_every_small_height() {
    for h in 0..200i64 {
        let t = triangle(-3, 4, h);
        assert_eq!(t.get_base_width(), h / 2);
        assert_eq!(t.get_half_base_width(), h / 4);
        assert_eq!(t.get_half_height(), h / 2);
    }
}

#[test]
fn base_vertices() {
    let t = triangle(300, 0, 600);
    assert_eq!(t.get_left_coordinates(), Coordinates { x: 0, y: 600 });
    assert_eq!(t.get_right_coordinates(), Coordinates { x: 600, y: 600 });
    let u = triangle(-10, -20, 8);
    assert_eq!(u.get_left_coordinates(), Coordinates { x: -14, y: -12 });
    assert_eq!(u.get_right_coordinates(), Coordinates { x: -6, y: -12 });
}

#[test]
fn sub_triangles() {
    let t = triangle(300, 0, 600);
    let top = t.get_top_sub_triangle();
    let left = t.get_left_sub_triangle();
    let right = t.get_right_sub_triangle();
    assert_eq!(top, triangle(300, 0, 300));
    assert_eq!(left, triangle(150, 300, 300));
    assert_eq!(right, triangle(450, 300, 300));
}

#[test]
fn sub_triangles_of_an_odd_height() {
    let t = triangle(10, 10, 7);
    assert_eq!(t.get_top_sub_triangle(), triangle(10, 10, 3));
    assert_eq!(t.get_left_sub_triangle(), triangle(9, 13, 3));
    assert_eq!(t.get_right_sub_triangle(), triangle(11, 13, 3));
}

#[test]
fn sub_triangles_at_the_edge_of_the_grid() {
    let t = triangle(0, 0, i64::MAX);
    let left = t.get_left_sub_triangle();
    let right = t.get_right_sub_triangle();
    assert_eq!(left.height(), i64::MAX / 2);
    assert_eq!(left.top(), Coordinates { x: -(i64::MAX / 4), y: i64::MAX / 2 });
    assert_eq!(right.top(), Coordinates { x: i64::MAX / 4, y: i64::MAX / 2 });
    assert_eq!(right.get_right_coordinates().y, i64::MAX - 1);
}

#[test]
fn exact_unit_is_a_power_of_two() {
    assert_eq!(exact_unit(0), Some(2));
    assert_eq!(exact_unit(1), Some(4));
    assert_eq!(exact_unit(6), Some(128));
    assert_eq!(exact_unit(61), Some(1i64 << 62));
    assert_eq!(exact_unit(62), None);
    assert_eq!(exact_unit(u64::MAX), None);
}

#[test]
fn exact_unit_leaves_no_remainder() {
    let depth: u64 = 3;
    let unit = exact_unit(depth).unwrap();
    let root = triangle(5 * unit, 0, 7 * unit);
    let mut level = vec![root];
    for _ in 0..=depth {
        let mut next = Vec::new();
        for t in &level {
            assert_eq!(2 * t.get_base_width(), t.height());
            next.push(t.get_top_sub_triangle());
            next.push(t.get_left_sub_triangle());
            next.push(t.get_right_sub_triangle());
        }
        level = next;
    }
}
