use rocks2d_physics::{Control, Vector2};

#[test]
fn new_control_has_zero_forces() {
    let c: Control<f32> = Control::new(3);
    assert_eq!(c.body_count, 3);
    assert_eq!(c.get_native_forces(), &[0.0; 9]);
}

#[test]
fn empty_control_has_no_forces() {
    let c: Control<f32> = Control::new(0);
    assert_eq!(c.body_count, 0);
    assert!(c.get_native_forces().is_empty());
}

#[test]
fn update_then_query_forces() {
    let mut c: Control<f32> = Control::new(2);
    c.update_forces(1, (Vector2::new(3.5, -1.0), 2.0));
    let (f, t) = c.query_forces(1);
    assert_eq!((f.x, f.y, t), (3.5, -1.0, 2.0));
    let (f0, t0) = c.query_forces(0);
    assert_eq!((f0.x, f0.y, t0), (0.0, 0.0, 0.0));
    assert_eq!(c.get_native_forces(), &[0.0, 0.0, 0.0, 3.5, -1.0, 2.0]);
}

#[test]
fn set_native_forces_overwrites_all() {
    let mut c: Control<f32> = Control::new(2);
    c.set_native_forces(&[1.0, 2.0, 3.0, 4.0, 5.0, 6.0]);
    assert_eq!(c.get_native_forces(), &[1.0, 2.0, 3.0, 4.0, 5.0, 6.0]);
    let (f, t) = c.query_forces(1);
    assert_eq!((f.x, f.y, t), (4.0, 5.0, 6.0));
    assert_eq!(c.body_count, 2);
}
