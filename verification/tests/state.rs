use rocks2d_physics::{State, Transform2D, Vector2};

fn body(x: f32, y: f32, r: f32) -> Transform2D<f32> {
    Transform2D::new(Vector2::new(x, y), r)
}

#[test]
fn new_state_is_empty_and_open() {
    let s: State<f32> = State::new(4);
    assert_eq!(s.body_count, 0);
    assert!(s.get_native_transforms().is_empty());
    assert!(s.get_native_velocties().is_empty());
}

#[test]
fn push_body_appends_three_scalars_each() {
    let mut s: State<f32> = State::new(2);
    assert!(s.push_body(body(1.0, 2.0, 3.0), (Vector2::new(4.0, 5.0), 6.0)));
    assert!(s.push_body(body(7.0, 8.0, 9.0), (Vector2::new(10.0, 11.0), 12.0)));
    assert_eq!(s.body_count, 2);
    assert_eq!(s.get_native_transforms(), &[1.0, 2.0, 3.0, 7.0, 8.0, 9.0]);
    assert_eq!(s.get_native_velocties(), &[4.0, 5.0, 6.0, 10.0, 11.0, 12.0]);
}

#[test]
fn finalized_state_refuses_bodies() {
    let mut s: State<f32> = State::new(1);
    assert!(s.push_body(body(1.0, 2.0, 3.0), (Vector2::new(0.0, 0.0), 0.0)));
    s.finalize();
    assert!(!s.push_body(body(7.0, 8.0, 9.0), (Vector2::new(1.0, 1.0), 1.0)));
    assert_eq!(s.body_count, 1);
    assert_eq!(s.get_native_transforms(), &[1.0, 2.0, 3.0]);
    assert_eq!(s.get_native_velocties(), &[0.0, 0.0, 0.0]);
}

#[test]
fn query_reads_the_body_pushed() {
    let mut s: State<f32> = State::new(2);
    s.push_body(body(1.0, 2.0, 3.0), (Vector2::new(4.0, 5.0), 6.0));
    s.push_body(body(7.0, 8.0, 9.0), (Vector2::new(10.0, 11.0), 12.0));
    let t = s.query_transform(1);
    assert_eq!((t.position.x, t.position.y, t.rotation), (7.0, 8.0, 9.0));
    let (v, w) = s.query_velocity(0);
    assert_eq!((v.x, v.y, w), (4.0, 5.0, 6.0));
}

#[test]
fn update_then_query_reads_the_update_and_leaves_others() {
    let mut s: State<f32> = State::new(2);
    s.push_body(body(1.0, 2.0, 3.0), (Vector2::new(4.0, 5.0), 6.0));
    s.push_body(body(7.0, 8.0, 9.0), (Vector2::new(10.0, 11.0), 12.0));
    s.update_transform(0, body(-1.0, -2.0, -3.0));
    s.update_velocity(1, (Vector2::new(0.5, 0.25), 0.125));
    let t0 = s.query_transform(0);
    assert_eq!((t0.position.x, t0.position.y, t0.rotation), (-1.0, -2.0, -3.0));
    let t1 = s.query_transform(1);
    assert_eq!((t1.position.x, t1.position.y, t1.rotation), (7.0, 8.0, 9.0));
    let (v1, w1) = s.query_velocity(1);
    assert_eq!((v1.x, v1.y, w1), (0.5, 0.25, 0.125));
    let (v0, w0) = s.query_velocity(0);
    assert_eq!((v0.x, v0.y, w0), (4.0, 5.0, 6.0));
}

#[test]
fn from_copies_everything() {
    let mut s: State<f32> = State::new(1);
    s.push_body(body(1.0, 2.0, 3.0), (Vector2::new(4.0, 5.0), 6.0));
    s.finalize();
    let mut c = State::from(&s);
    assert_eq!(c.body_count, 1);
    assert_eq!(c.get_native_transforms(), s.get_native_transforms());
    assert_eq!(c.get_native_velocties(), s.get_native_velocties());
    // the copy is finalized too
    assert!(!c.push_body(body(0.0, 0.0, 0.0), (Vector2::new(0.0, 0.0), 0.0)));
}

#[test]
fn copy_from_overwrites_arrays_only() {
    let mut a: State<f32> = State::new(1);
    a.push_body(body(1.0, 2.0, 3.0), (Vector2::new(4.0, 5.0), 6.0));
    let mut b: State<f32> = State::new(1);
    b.push_body(body(9.0, 8.0, 7.0), (Vector2::new(6.0, 5.0), 4.0));
    b.finalize();
    a.copy_from(&b);
    assert_eq!(a.get_native_transforms(), &[9.0, 8.0, 7.0]);
    assert_eq!(a.get_native_velocties(), &[6.0, 5.0, 4.0]);
    // `a` is still open: the finalized flag is not copied
    assert!(a.push_body(body(0.0, 0.0, 0.0), (Vector2::new(0.0, 0.0), 0.0)));
}

#[test]
fn transform_zero_is_all_zero() {
    let t: Transform2D<f32> = Transform2D::zero();
    assert_eq!((t.position.x, t.position.y, t.rotation), (0.0, 0.0, 0.0));
    let v: Vector2<i32> = Vector2::zero();
    assert_eq!((v.x, v.y), (0, 0));
}

#[test]
fn state_works_with_integer_scalars() {
    let mut s: State<i64> = State::new(0);
    s.push_body(Transform2D::new(Vector2::new(1, 2), 3), (Vector2::new(4, 5), 6));
    let t = s.query_transform(0);
    assert_eq!((t.position.x, t.position.y, t.rotation), (1, 2, 3));
}
