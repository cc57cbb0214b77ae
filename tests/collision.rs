use breakout::geometry::{resolve_collision, resolve_if_fits, Rect, Vec2};

fn rect(x: i32, y: i32, w: i32, h: i32) -> Rect {
    Rect::new(x, y, w, h)
}

fn overlapping(a: &Rect, b: &Rect) -> bool {
    let w = (a.x + a.w).min(b.x + b.w) - a.x.max(b.x);
    let h = (a.y + a.h).min(b.y + b.h) - a.y.max(b.y);
    w > 0 && h > 0
}

#[test]
fn apart_rectangles_are_left_alone() {
    let mut a = rect(0, 0, 10, 10);
    let mut v = Vec2 { x: 3, y: -4 };
    let b = rect(20, 0, 10, 10);
    assert!(!resolve_collision(&mut a, &mut v, &b));
    assert_eq!(a, rect(0, 0, 10, 10));
    assert_eq!(v, Vec2 { x: 3, y: -4 });
}

#[test]
fn touching_edges_are_not_an_overlap() {
    let mut a = rect(0, 0, 10, 10);
    let mut v = Vec2 { x: 5, y: 5 };
    let b = rect(10, 0, 10, 10);
    assert!(!resolve_collision(&mut a, &mut v, &b));
    assert_eq!(a, rect(0, 0, 10, 10));
    assert_eq!(v, Vec2 { x: 5, y: 5 });
}

#[test]
fn wide_overlap_resolves_vertically() {
    // ball coming down onto a block: intersection 30 wide, 4 tall
    let mut a = rect(10, 0, 30, 30);
    let mut v = Vec2 { x: 2, y: 7 };
    let b = rect(0, 26, 100, 40);
    assert!(resolve_collision(&mut a, &mut v, &b));
    assert_eq!(a, rect(10, -4, 30, 30));
    assert_eq!(v, Vec2 { x: 2, y: -7 });
    assert!(!overlapping(&a, &b));
}

#[test]
fn tall_overlap_resolves_horizontally() {
    // moving rectangle enters from the right: intersection 3 wide, 10 tall
    let mut a = rect(17, 0, 10, 10);
    let mut v = Vec2 { x: -6, y: 1 };
    let b = rect(0, 0, 20, 10);
    assert!(resolve_collision(&mut a, &mut v, &b));
    assert_eq!(a, rect(20, 0, 10, 10));
    assert_eq!(v, Vec2 { x: 6, y: 1 });
    assert!(!overlapping(&a, &b));
}

#[test]
fn square_intersection_resolves_horizontally() {
    let mut a = rect(0, 0, 10, 10);
    let mut v = Vec2 { x: 4, y: 9 };
    let b = rect(5, 5, 10, 10);
    assert!(resolve_collision(&mut a, &mut v, &b));
    assert_eq!(a.y, 0);
    assert_eq!(v.y, 9);
    assert_eq!(a.x, -5);
    assert_eq!(v.x, -4);
}

#[test]
fn reflection_keeps_speed_and_flips_one_component() {
    let mut a = rect(10, 0, 30, 30);
    let v0 = Vec2 { x: 3, y: 4 };
    let mut v = v0;
    let b = rect(0, 26, 100, 40);
    assert!(resolve_collision(&mut a, &mut v, &b));
    assert_eq!(v.x, v0.x);
    assert_eq!(v.y, -v0.y);
    assert_eq!(v.x * v.x + v.y * v.y, 25);
}

#[test]
fn velocity_already_leaving_keeps_its_direction() {
    let mut a = rect(10, 0, 30, 30);
    let mut v = Vec2 { x: 3, y: -4 };
    let b = rect(0, 26, 100, 40);
    assert!(resolve_collision(&mut a, &mut v, &b));
    assert_eq!(v, Vec2 { x: 3, y: -4 });
}

#[test]
fn second_resolution_is_a_no_op() {
    let mut a = rect(17, 3, 10, 10);
    let mut v = Vec2 { x: -6, y: 1 };
    let b = rect(0, 0, 20, 20);
    assert!(resolve_collision(&mut a, &mut v, &b));
    let (a1, v1) = (a, v);
    assert!(!resolve_collision(&mut a, &mut v, &b));
    assert_eq!(a, a1);
    assert_eq!(v, v1);
}

#[test]
fn enclosed_rectangle_is_pushed_but_may_stay_inside() {
    let mut a = rect(2, 2, 2, 20);
    let mut v = Vec2 { x: 1, y: 0 };
    let b = rect(0, 0, 10, 100);
    assert!(resolve_collision(&mut a, &mut v, &b));
    assert_eq!(a, rect(0, 2, 2, 20));
    assert_eq!(v, Vec2 { x: -1, y: 0 });
}

#[test]
fn unrepresentable_resolution_is_skipped() {
    let mut a = rect(i32::MIN, 0, 10, 10);
    let mut v = Vec2 { x: 1, y: 1 };
    let b = rect(i32::MIN + 5, 0, 10, 10);
    assert!(!resolve_if_fits(&mut a, &mut v, &b));
    assert_eq!(a, rect(i32::MIN, 0, 10, 10));
    let mut c = rect(0, 0, 10, 10);
    assert!(resolve_if_fits(&mut c, &mut v, &rect(5, 0, 10, 10)));
    assert_eq!(c.x, -5);
}
