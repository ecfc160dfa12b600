use rocks2d_physics::{
    Color, Joint, MassProperty, PrismaticJoint, RevoluteJoint, RigidParameters, Scene, Shape,
    Transform2D, Vector2, XPBDSolver,
};

const GREEN: Color = Color { r: 143, g: 188, b: 139, a: 255 };
const RED: Color = Color { r: 230, g: 41, b: 55, a: 255 };

fn params(x: f32, y: f32, shape: Shape<f32>, color: Color) -> RigidParameters<f32> {
    RigidParameters {
        transform: Transform2D::new(Vector2::new(x, y), 0.0),
        velocities: (Vector2::new(0.0, 0.0), 0.0),
        shape,
        density: 1000.0,
        color,
    }
}

fn mass(m: f32) -> MassProperty<f32> {
    MassProperty { inv_mass: m, inv_inertia: 2.0 * m }
}

/// The cart and pole of the demo: a slider on a rail and a pole pinned to it.
fn pendulum() -> Scene<f32> {
    let mut scene = Scene::new(2);
    let b1 = scene.add_ridig(params(0.0, -1.0, Shape::Rectangle(0.8, 0.4), GREEN), mass(0.5));
    let b2 = scene.add_ridig(params(1.5, -1.0, Shape::Rectangle(1.5, 0.1), RED), mass(0.25));
    assert_eq!((b1, b2), (0, 1));
    scene.add_joint(Joint::PrismaticJoint(PrismaticJoint {
        body_i: b1,
        target_y: -1.0,
        range_x: 5.0,
        compliance: 0.0,
    }));
    scene.add_joint(Joint::RevoluteJoint(RevoluteJoint {
        body1_i: b1,
        body2_i: Some(b2),
        local_attachment_b1: Vector2::new(0.0, 0.0),
        local_attachment_b2: Vector2::new(1.5, 0.0),
        compliance: 0.0,
    }));
    scene
}

fn joint_bodies(j: &Joint<f32>) -> (usize, Option<usize>) {
    match j {
        Joint::PrismaticJoint(p) => (p.body_i, None),
        Joint::RevoluteJoint(r) => (r.body1_i, r.body2_i),
    }
}

#[test]
fn new_scene_is_empty() {
    let s: Scene<f32> = Scene::new(8);
    assert_eq!(s.body_count, 0);
    assert_eq!(s.env_count, 1);
    assert!(s.mass_properties.is_empty() && s.body_shapes.is_empty());
    assert!(s.body_colors.is_empty() && s.joints.is_empty());
    assert_eq!(s.initial_state.body_count, 0);
}

#[test]
fn add_ridig_returns_consecutive_indices_and_stores_the_body() {
    let s = pendulum();
    assert_eq!(s.body_count, 2);
    assert_eq!(s.initial_state.body_count, 2);
    assert_eq!(s.initial_state.get_native_transforms(), &[0.0, -1.0, 0.0, 1.5, -1.0, 0.0]);
    assert_eq!(s.mass_properties[1].inv_mass, 0.25);
    assert_eq!(s.body_colors, vec![GREEN, RED]);
    assert!(matches!(s.body_shapes[0], Shape::Rectangle(w, h) if w == 0.8 && h == 0.4));
    assert_eq!(s.joints.len(), 2);
}

#[test]
fn replicate_below_two_changes_nothing() {
    let mut s = pendulum();
    s.replicate(1);
    assert_eq!((s.body_count, s.env_count, s.joints.len()), (2, 1, 2));
    s.replicate(0);
    assert_eq!((s.body_count, s.env_count, s.joints.len()), (2, 1, 2));
    assert_eq!(s.get_env_index(1), 0);
}

#[test]
fn replicate_copies_bodies_and_shifts_joints() {
    let mut s = pendulum();
    s.replicate(3);
    assert_eq!(s.body_count, 6);
    assert_eq!(s.env_count, 3);
    assert_eq!(s.initial_state.body_count, 6);
    assert_eq!(s.mass_properties.len(), 6);
    assert_eq!(s.body_shapes.len(), 6);
    assert_eq!(s.body_colors, vec![GREEN, RED, GREEN, RED, GREEN, RED]);
    assert_eq!(s.mass_properties[4].inv_mass, 0.5);
    assert_eq!(s.mass_properties[5].inv_inertia, 0.5);
    assert_eq!(
        s.initial_state.get_native_transforms(),
        &[
            0.0, -1.0, 0.0, 1.5, -1.0, 0.0, 0.0, -1.0, 0.0, 1.5, -1.0, 0.0, 0.0, -1.0, 0.0, 1.5,
            -1.0, 0.0
        ]
    );
    let bodies: Vec<(usize, Option<usize>)> = s.joints.iter().map(joint_bodies).collect();
    assert_eq!(
        bodies,
        vec![(0, None), (0, Some(1)), (2, None), (2, Some(3)), (4, None), (4, Some(5))]
    );
}

#[test]
fn env_index_after_replicate() {
    let mut s = pendulum();
    s.replicate(4);
    let envs: Vec<usize> = (0..s.body_count).map(|i| s.get_env_index(i)).collect();
    assert_eq!(envs, vec![0, 0, 1, 1, 2, 2, 3, 3]);
}

#[test]
fn single_environment_is_env_zero() {
    let s = pendulum();
    assert_eq!(s.get_env_index(0), 0);
    assert_eq!(s.get_env_index(1), 0);
}

#[test]
fn joints_of_each_copy_stay_in_their_environment() {
    let mut s = pendulum();
    s.replicate(64);
    for (i, j) in s.joints.iter().enumerate() {
        let env = i / 2;
        let (a, b) = joint_bodies(j);
        assert_eq!(s.get_env_index(a), env);
        if let Some(b) = b {
            assert_eq!(s.get_env_index(b), env);
        }
    }
}

#[test]
fn build_state_is_a_finalized_copy() {
    let mut s = pendulum();
    s.replicate(2);
    let mut st = s.build_state();
    assert_eq!(st.body_count, 4);
    assert_eq!(st.get_native_transforms(), s.initial_state.get_native_transforms());
    assert_eq!(st.get_native_velocties(), s.initial_state.get_native_velocties());
    assert!(!st.push_body(Transform2D::zero(), (Vector2::zero(), 0.0)));
    assert_eq!(st.body_count, 4);
    // the scene's own initial state is still open
    let mut s2 = pendulum();
    let ei = s2.add_ridig(params(3.0, 3.0, Shape::Circle(0.5), GREEN), mass(1.0));
    assert_eq!(ei, 2);
    assert_eq!(s2.initial_state.body_count, 3);
}

#[test]
fn build_control_has_zero_forces_for_every_body() {
    let mut s = pendulum();
    s.replicate(5);
    let c = s.build_control();
    assert_eq!(c.body_count, 10);
    assert_eq!(c.get_native_forces(), &[0.0; 30]);
}

#[test]
fn mass_property_zero_is_immovable() {
    let m: MassProperty<f32> = MassProperty::zero();
    assert_eq!((m.inv_mass, m.inv_inertia), (0.0, 0.0));
}

#[test]
fn solver_new() {
    let _solver = XPBDSolver::new();
}

#[test]
fn body_added_after_replicate_lands_in_last_env_range() {
    let mut s = pendulum();
    s.replicate(2);
    let ei = s.add_ridig(params(0.0, 0.0, Shape::Circle(1.0), RED), mass(1.0));
    assert_eq!(ei, 4);
    assert_eq!(s.body_count, 5);
    assert_eq!(s.get_env_index(ei), 2);
}

#[test]
fn replicating_an_empty_scene_keeps_it_empty() {
    let mut s: Scene<f32> = Scene::new(0);
    s.replicate(8);
    assert_eq!((s.body_count, s.env_count, s.joints.len()), (0, 8, 0));
    assert_eq!(s.body_count_pre_env(), 0);
    assert!(s.initial_state.get_native_transforms().is_empty());
}

#[test]
fn world_anchored_joint_keeps_no_second_body() {
    let mut s: Scene<f32> = Scene::new(1);
    let b = s.add_ridig(params(0.0, 0.0, Shape::Circle(0.5), GREEN), mass(1.0));
    s.add_joint(Joint::RevoluteJoint(RevoluteJoint {
        body1_i: b,
        body2_i: None,
        local_attachment_b1: Vector2::new(0.5, 0.0),
        local_attachment_b2: Vector2::new(0.0, 2.0),
        compliance: 0.001,
    }));
    s.replicate(3);
    assert_eq!(s.body_count_pre_env(), 1);
    let bodies: Vec<(usize, Option<usize>)> = s.joints.iter().map(joint_bodies).collect();
    assert_eq!(bodies, vec![(0, None), (1, None), (2, None)]);
    match s.joints[2] {
        Joint::RevoluteJoint(r) => {
            assert_eq!(r.local_attachment_b2.y, 2.0);
            assert_eq!(r.compliance, 0.001);
        }
        _ => panic!("joint kind changed"),
    }
}
