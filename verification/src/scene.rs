use vstd::prelude::*;
use crate::control::Control;
use crate::replication::{
    append_prefix_copies, lemma_div_mod_of_position, lemma_position_split, lemma_prepend_copy, repeat,
};
use crate::state::{
    law_push_body, law_replicate_keeps_finalized, law_replicated_state, State, StateView,
    Transform2D,
};
use crate::vector::{is_default, Color, Vector2};

verus! {

/// The collision shape of a body.
#[derive(Clone, Copy, Debug)]
pub enum Shape<T> {
    /// A circle of the given radius.
    Circle(T),
    /// A rectangle of the given half width and half height.
    Rectangle(T, T),
}

/// Inverse mass and inverse moment of inertia of a body; zero for a body
/// that nothing moves.
#[derive(Clone, Copy, Debug)]
pub struct MassProperty<T> {
    pub inv_mass: T,
    pub inv_inertia: T,
}

impl<T: Copy + Default> MassProperty<T> {
    /// The mass property of an immovable body: both inverses are the scalar
    /// type's default value (its zero).
    pub fn zero() -> (m: Self)
        ensures
            is_default(m.inv_mass),
            m.inv_inertia == m.inv_mass,
    {
        let d = T::default();
        MassProperty { inv_mass: d, inv_inertia: d }
    }
}

/// A pin between a point of body 1 and a point of body 2, or a point fixed
/// in the world when there is no body 2.
#[derive(Clone, Copy, Debug)]
pub struct RevoluteJoint<T> {
    pub body1_i: usize,
    pub body2_i: Option<usize>,
    pub local_attachment_b1: Vector2<T>,
    pub local_attachment_b2: Vector2<T>,
    pub compliance: T,
}

/// Keeps a body on the horizontal line `y = target_y`, within
/// `|x| <= range_x`.
#[derive(Clone, Copy, Debug)]
pub struct PrismaticJoint<T> {
    pub body_i: usize,
    pub target_y: T,
    pub range_x: T,
    pub compliance: T,
}

/// A constraint between bodies.
#[derive(Clone, Copy, Debug)]
pub enum Joint<T> {
    RevoluteJoint(RevoluteJoint<T>),
    PrismaticJoint(PrismaticJoint<T>),
}

impl<T> Joint<T> {
    /// Every body that the joint names has an index in `lo .. hi`.
    pub open spec fn refs_within(self, lo: int, hi: int) -> bool {
        match self {
            Joint::RevoluteJoint(r) => {
                &&& lo <= r.body1_i < hi
                &&& (r.body2_i matches Some(b) ==> lo <= b < hi)
            },
            Joint::PrismaticJoint(p) => lo <= p.body_i < hi,
        }
    }

    /// The joint names body `b`.
    pub open spec fn names(self, b: int) -> bool {
        match self {
            Joint::RevoluteJoint(r) => r.body1_i == b || (r.body2_i matches Some(c) && c == b),
            Joint::PrismaticJoint(p) => p.body_i == b,
        }
    }

    /// `other` is a joint of the same kind as `self` whose fields, body
    /// indices aside, are all those of `self`, and which has a second body
    /// exactly when `self` has one.
    pub open spec fn same_but_indices(self, other: Joint<T>) -> bool {
        match (self, other) {
            (Joint::RevoluteJoint(a), Joint::RevoluteJoint(b)) => {
                &&& a.local_attachment_b1 == b.local_attachment_b1
                &&& a.local_attachment_b2 == b.local_attachment_b2
                &&& a.compliance == b.compliance
                &&& (a.body2_i is Some <==> b.body2_i is Some)
            },
            (Joint::PrismaticJoint(a), Joint::PrismaticJoint(b)) => {
                &&& a.target_y == b.target_y
                &&& a.range_x == b.range_x
                &&& a.compliance == b.compliance
            },
            _ => false,
        }
    }

    /// Every body that the joint names has an index below `bound`.
    pub open spec fn refs_below(self, bound: int) -> bool {
        self.refs_within(0, bound)
    }

    /// The joint with `off` added to the index of every body it names.
    pub open spec fn offset(self, off: nat) -> Joint<T> {
        match self {
            Joint::RevoluteJoint(r) => Joint::RevoluteJoint(RevoluteJoint {
                body1_i: (r.body1_i + off) as usize,
                body2_i: match r.body2_i {
                    Some(b) => Some((b + off) as usize),
                    None => None,
                },
                ..r
            }),
            Joint::PrismaticJoint(p) => Joint::PrismaticJoint(PrismaticJoint {
                body_i: (p.body_i + off) as usize,
                ..p
            }),
        }
    }
}

/// Shifting a joint by zero leaves it as it is.
proof fn lemma_offset_zero<T>(j: Joint<T>)
    ensures
        j.offset(0) == j,
{
    match j {
        Joint::RevoluteJoint(r) => {
            let body2: Option<usize> = match r.body2_i {
                Some(b) => Some((b + 0nat) as usize),
                None => None,
            };
            assert(body2 == r.body2_i);
        },
        Joint::PrismaticJoint(p) => {},
    }
}

/// A joint that names bodies in `0 .. width`, shifted by `off`, names bodies
/// in `off .. off + width`.
proof fn lemma_offset_within<T>(j: Joint<T>, width: int, off: nat)
    requires
        j.refs_below(width),
        off + width <= usize::MAX + 1,
    ensures
        j.offset(off).refs_within(off as int, off + width),
{
}

/// `n` copies of the joints `js`: copy `k` is shifted by `k * body_count`, so
/// that it names the bodies of environment `k`.
pub open spec fn replicated_joints<T>(js: Seq<Joint<T>>, body_count: nat, n: nat) -> Seq<Joint<T>> {
    Seq::new(
        js.len() * n,
        |i: int| js[i % (js.len() as int)].offset(body_count * (i / (js.len() as int)) as nat),
    )
}

/// What a body is made of when it is added to a scene.
pub struct RigidParameters<T> {
    pub transform: Transform2D<T>,
    pub velocities: (Vector2<T>, T),
    pub shape: Shape<T>,
    pub density: T,
    pub color: Color,
}

/// A scene: its bodies (initial state, mass, shape and colour of each), its
/// joints, and the number of identical environments it holds side by side.
pub struct Scene<T> {
    pub body_count: usize,
    pub initial_state: State<T>,
    pub mass_properties: Vec<MassProperty<T>>,
    pub body_shapes: Vec<Shape<T>>,
    pub body_colors: Vec<Color>,
    pub joints: Vec<Joint<T>>,
    pub env_count: u32,
    body_count_pre_env: usize,
}

/// What a [`Scene`] holds, as mathematical values.
#[verifier::ext_equal]
pub struct SceneView<T> {
    pub body_count: nat,
    pub initial_state: StateView<T>,
    pub mass_properties: Seq<MassProperty<T>>,
    pub body_shapes: Seq<Shape<T>>,
    pub body_colors: Seq<Color>,
    pub joints: Seq<Joint<T>>,
    pub env_count: nat,
    /// The number of bodies in one environment, once the scene is replicated.
    pub body_count_pre_env: nat,
}

impl<T> View for Scene<T> {
    type V = SceneView<T>;

    closed spec fn view(&self) -> SceneView<T> {
        SceneView {
            body_count: self.body_count as nat,
            initial_state: self.initial_state@,
            mass_properties: self.mass_properties@,
            body_shapes: self.body_shapes@,
            body_colors: self.body_colors@,
            joints: self.joints@,
            env_count: self.env_count as nat,
            body_count_pre_env: self.body_count_pre_env as nat,
        }
    }
}

impl<T> SceneView<T> {
    /// One mass property, shape and colour per body, and at least one
    /// environment.
    pub open spec fn wf(self) -> bool {
        &&& self.mass_properties.len() == self.body_count
        &&& self.body_shapes.len() == self.body_count
        &&& self.body_colors.len() == self.body_count
        &&& self.env_count >= 1
    }

    /// The initial state holds exactly the scene's bodies.
    pub open spec fn state_matches(self) -> bool {
        &&& self.initial_state.wf()
        &&& self.initial_state.body_count == self.body_count
    }

    /// Every joint names bodies of the scene only.
    pub open spec fn joints_valid(self) -> bool {
        forall|k: int| 0 <= k < self.joints.len() ==> (#[trigger] self.joints[k]).refs_below(
            self.body_count as int,
        )
    }

    /// The environment that body `ei` belongs to.
    pub open spec fn env_index_of(self, ei: int) -> int {
        if self.env_count == 1 {
            0
        } else {
            ei / (self.body_count_pre_env as int)
        }
    }

    /// The scene after adding a body with `params` and mass property `mass`.
    pub open spec fn with_rigid(self, params: RigidParameters<T>, mass: MassProperty<T>) -> Self {
        SceneView {
            body_count: self.body_count + 1,
            initial_state: if self.initial_state.finalized {
                self.initial_state
            } else {
                self.initial_state.with_body(params.transform, params.velocities)
            },
            mass_properties: self.mass_properties.push(mass),
            body_shapes: self.body_shapes.push(params.shape),
            body_colors: self.body_colors.push(params.color),
            ..self
        }
    }

    /// Replicating `n >= 2` times fits in machine integers and finds the
    /// per-body data it copies.
    pub open spec fn can_replicate(self, n: nat) -> bool {
        let extra = self.body_count * ((n - 1) as nat);
        &&& self.mass_properties.len() >= self.body_count
        &&& self.body_shapes.len() >= self.body_count
        &&& self.body_colors.len() >= self.body_count
        &&& self.mass_properties.len() + extra <= usize::MAX
        &&& self.body_shapes.len() + extra <= usize::MAX
        &&& self.body_colors.len() + extra <= usize::MAX
        &&& self.body_count * n <= usize::MAX
        &&& self.joints.len() * n <= usize::MAX
        &&& forall|k: int|
            0 <= k < self.joints.len() ==> (#[trigger] self.joints[k]).refs_below(
                usize::MAX + 1 - extra,
            )
        &&& self.initial_state.transforms.len() * n <= usize::MAX
        &&& self.initial_state.velocities.len() * n <= usize::MAX
        &&& self.initial_state.body_count * n <= usize::MAX
    }

    /// The scene after replicating it into `n >= 2` environments: the first
    /// `body_count` entries of each per-body array are appended `n - 1` more
    /// times, the initial state is repeated `n` times, and copy `k` of the
    /// joints names the bodies of copy `k`.
    pub open spec fn replicated(self, n: nat) -> Self {
        let bc = self.body_count;
        SceneView {
            body_count: bc * n,
            initial_state: self.initial_state.replicated(n),
            mass_properties: self.mass_properties + repeat(
                self.mass_properties.take(bc as int),
                (n - 1) as nat,
            ),
            body_shapes: self.body_shapes + repeat(self.body_shapes.take(bc as int), (n - 1) as nat),
            body_colors: self.body_colors + repeat(self.body_colors.take(bc as int), (n - 1) as nat),
            joints: replicated_joints(self.joints, bc, n),
            env_count: n,
            body_count_pre_env: bc,
        }
    }
}

/// `js` followed by one more copy, shifted by `body_count * n`, is `n + 1`
/// copies.
proof fn lemma_replicated_joints_push_copy<T>(js: Seq<Joint<T>>, body_count: nat, n: nat)
    ensures
        replicated_joints(js, body_count, n) + Seq::new(
            js.len(),
            |i: int| js[i].offset(body_count * n),
        ) == replicated_joints(js, body_count, n + 1),
{
    let len = js.len() as int;
    let lhs = replicated_joints(js, body_count, n) + Seq::new(
        js.len(),
        |i: int| js[i].offset(body_count * n),
    );
    let rhs = replicated_joints(js, body_count, n + 1);
    assert(len * (n + 1) == len * n + len) by (nonlinear_arith);
    assert forall|i: int| 0 <= i < len * (n + 1) implies lhs[i] == rhs[i] by {
        if i >= len * n {
            lemma_div_mod_of_position(n as int, len, i - len * n);
            assert(n * len == len * n) by (nonlinear_arith);
        }
    }
    assert(lhs =~= rhs);
}

/// One copy of the joints is the joints themselves.
proof fn lemma_replicated_joints_one<T>(js: Seq<Joint<T>>, body_count: nat)
    ensures
        replicated_joints(js, body_count, 1) == js,
{
    assert forall|i: int| 0 <= i < js.len() implies replicated_joints(js, body_count, 1)[i]
        == js[i] by {
        lemma_div_mod_of_position(0, js.len() as int, i);
        assert(i % (js.len() as int) == i && i / (js.len() as int) == 0);
        assert((body_count * 0) as nat == 0);
        lemma_offset_zero(js[i]);
    }
    assert(replicated_joints(js, body_count, 1) =~= js);
}

/// The joint `j` shifted by `off`.
fn offset_joint<T: Copy>(j: Joint<T>, off: usize) -> (r: Joint<T>)
    requires
        j.refs_below(usize::MAX + 1 - off),
    ensures
        r == j.offset(off as nat),
        j.same_but_indices(r),
{
    match j {
        Joint::RevoluteJoint(rj) => {
            let body2_i = match rj.body2_i {
                Some(b) => Some(b + off),
                None => None,
            };
            Joint::RevoluteJoint(RevoluteJoint { body1_i: rj.body1_i + off, body2_i, ..rj })
        },
        Joint::PrismaticJoint(pj) => Joint::PrismaticJoint(
            PrismaticJoint { body_i: pj.body_i + off, ..pj },
        ),
    }
}

/// Turns `joints` into `num_envs` copies of itself, copy `k` shifted by
/// `k * body_count`.
fn replicate_joints<T: Copy>(joints: &mut Vec<Joint<T>>, body_count: usize, num_envs: u32)
    requires
        num_envs >= 1,
        body_count * num_envs <= usize::MAX,
        old(joints)@.len() * num_envs <= usize::MAX,
        forall|k: int|
            0 <= k < old(joints)@.len() ==> (#[trigger] old(joints)@[k]).refs_below(
                usize::MAX + 1 - body_count * ((num_envs - 1) as nat),
            ),
    ensures
        final(joints)@ == replicated_joints(old(joints)@, body_count as nat, num_envs as nat),
{
    let ghost j0 = joints@;
    let ghost bc = body_count as nat;
    let base_joint_count = joints.len();
    proof {
        lemma_replicated_joints_one(j0, bc);
    }
    let mut n: u32 = 1;
    while n < num_envs
        invariant
            1 <= n <= num_envs,
            base_joint_count == j0.len(),
            bc == body_count,
            bc * num_envs <= usize::MAX,
            j0.len() * num_envs <= usize::MAX,
            forall|k: int|
                0 <= k < j0.len() ==> (#[trigger] j0[k]).refs_below(
                    usize::MAX + 1 - bc * ((num_envs - 1) as nat),
                ),
            joints@ == replicated_joints(j0, bc, n as nat),
        decreases num_envs - n,
    {
        proof {
            assert(bc * n <= bc * (num_envs - 1)) by (nonlinear_arith)
                requires
                    n < num_envs,
            ;
            assert(bc * (num_envs - 1) <= bc * num_envs) by (nonlinear_arith)
                requires
                    n < num_envs,
            ;
            assert(j0.len() * n + j0.len() <= j0.len() * num_envs) by (nonlinear_arith)
                requires
                    n < num_envs,
            ;
            assert(j0.len() * n >= j0.len()) by (nonlinear_arith)
                requires
                    n >= 1,
            ;
        }
        let body_offset = body_count * n as usize;
        let ghost copies = joints@;
        let mut k: usize = 0;
        while k < base_joint_count
            invariant
                k <= base_joint_count,
                base_joint_count == j0.len(),
                body_offset == bc * n,
                bc * n <= bc * ((num_envs - 1) as nat),
                j0.len() * n >= j0.len(),
                j0.len() * n + j0.len() <= usize::MAX,
                forall|m: int|
                    0 <= m < j0.len() ==> (#[trigger] j0[m]).refs_below(
                        usize::MAX + 1 - bc * ((num_envs - 1) as nat),
                    ),
                copies == replicated_joints(j0, bc, n as nat),
                joints@ == copies + Seq::new(k as nat, |i: int| j0[i].offset(bc * (n as nat))),
            decreases base_joint_count - k,
        {
            proof {
                lemma_div_mod_of_position(0, j0.len() as int, k as int);
                assert((k as int) % (j0.len() as int) == k && (k as int) / (j0.len() as int) == 0);
                assert((bc * 0) as nat == 0);
                lemma_offset_zero(j0[k as int]);
                assert(copies[k as int] == j0[k as int]);
                assert(j0[k as int].refs_below(usize::MAX + 1 - bc * ((num_envs - 1) as nat)));
            }
            let joint = joints[k];
            assert(joint == j0[k as int]);
            joints.push(offset_joint(joint, body_offset));
            assert(joints@ =~= copies + Seq::new(
                (k + 1) as nat,
                |i: int| j0[i].offset(bc * (n as nat)),
            ));
            k += 1;
        }
        proof {
            lemma_replicated_joints_push_copy(j0, bc, n as nat);
            assert(Seq::new(base_joint_count as nat, |i: int| j0[i].offset(bc * (n as nat)))
                =~= Seq::new(j0.len(), |i: int| j0[i].offset(bc * (n as nat))));
        }
        n += 1;
    }
}

impl<T: Copy> Scene<T> {
    /// An empty scene of one environment.
    pub fn new(capacity: usize) -> (s: Self)
        ensures
            s@ == (SceneView::<T> {
                body_count: 0,
                initial_state: StateView {
                    transforms: Seq::empty(),
                    velocities: Seq::empty(),
                    body_count: 0,
                    finalized: false,
                },
                mass_properties: Seq::empty(),
                body_shapes: Seq::empty(),
                body_colors: Seq::empty(),
                joints: Seq::empty(),
                env_count: 1,
                body_count_pre_env: 0,
            }),
            s@.wf(),
            s@.state_matches(),
            s@.joints_valid(),
    {
        Scene {
            body_count: 0,
            initial_state: State::new(capacity),
            mass_properties: Vec::with_capacity(capacity),
            body_shapes: Vec::with_capacity(capacity),
            body_colors: Vec::with_capacity(capacity),
            joints: Vec::with_capacity(capacity),
            env_count: 1,
            body_count_pre_env: 0,
        }
    }

    /// Adds a body with the given parameters and mass property (computed
    /// from the parameters' shape and density); returns its index. The body
    /// enters the initial state unless that state is finalized.
    pub fn add_ridig(&mut self, params: RigidParameters<T>, mass: MassProperty<T>) -> (ei: usize)
        requires
            old(self)@.body_count < usize::MAX,
            !old(self)@.initial_state.finalized ==> old(self)@.initial_state.body_count
                < usize::MAX,
        ensures
            ei == old(self)@.body_count,
            final(self)@ == old(self)@.with_rigid(params, mass),
            final(self)@.joints == old(self)@.joints,
            final(self)@.env_count == old(self)@.env_count,
            final(self)@.body_count_pre_env == old(self)@.body_count_pre_env,
            final(self)@.body_count == old(self)@.body_count + 1,
    {
        let ei = self.body_count;
        self.body_count += 1;
        self.initial_state.push_body(params.transform, params.velocities);
        self.mass_properties.push(mass);
        self.body_shapes.push(params.shape);
        self.body_colors.push(params.color);
        ei
    }

    /// Adds a joint.
    pub fn add_joint(&mut self, joint: Joint<T>)
        ensures
            final(self)@ == (SceneView { joints: old(self)@.joints.push(joint), ..old(self)@ }),
    {
        self.joints.push(joint);
    }

    /// Turns the scene into `num_envs` identical environments side by side;
    /// fewer than two leaves it as it is.
    pub fn replicate(&mut self, num_envs: u32)
        requires
            num_envs >= 2 ==> old(self)@.can_replicate(num_envs as nat),
        ensures
            num_envs < 2 ==> final(self)@ == old(self)@,
            num_envs >= 2 ==> final(self)@ == old(self)@.replicated(num_envs as nat),
            final(self)@.initial_state.finalized == old(self)@.initial_state.finalized,
    {
        if num_envs < 2 {
            return;
        }
        let ghost bc = self.body_count as nat;
        proof {
            assert(bc * (num_envs - 1) <= bc * num_envs) by (nonlinear_arith)
                requires
                    num_envs >= 2,
            ;
        }
        append_prefix_copies(&mut self.mass_properties, self.body_count, num_envs - 1);
        append_prefix_copies(&mut self.body_shapes, self.body_count, num_envs - 1);
        append_prefix_copies(&mut self.body_colors, self.body_count, num_envs - 1);

        replicate_joints(&mut self.joints, self.body_count, num_envs);
        self.initial_state.replicate(num_envs);
        self.body_count_pre_env = self.body_count;
        self.body_count *= num_envs as usize;
        self.env_count = num_envs;
    }

    /// A finalized copy of the initial state, ready to be simulated.
    pub fn build_state(&self) -> (st: State<T>)
        ensures
            st@ == (StateView { finalized: true, ..self@.initial_state }),
    {
        let mut st = State::from(&self.initial_state);
        st.finalize();
        st
    }

    /// The number of bodies in one environment, set when the scene is
    /// replicated (0 before).
    pub fn body_count_pre_env(&self) -> (n: usize)
        ensures
            n == self@.body_count_pre_env,
    {
        self.body_count_pre_env
    }

    /// The environment that body `ei` belongs to: 0 in a scene of one
    /// environment, else `ei` divided by the number of bodies per environment.
    pub fn get_env_index(&self, ei: usize) -> (env: usize)
        requires
            self@.env_count == 1 || self@.body_count_pre_env > 0,
        ensures
            env == self@.env_index_of(ei as int),
            self@.env_count == 1 ==> env == 0,
    {
        if self.env_count == 1 {
            return 0;
        }
        ei / self.body_count_pre_env
    }
}

impl<T: Copy + Default> Scene<T> {
    /// A control with no force on any body of the scene.
    pub fn build_control(&self) -> (c: Control<T>)
        requires
            self@.body_count * 3 <= usize::MAX,
        ensures
            c@.body_count == self@.body_count,
            c@.forces.len() == 3 * self@.body_count,
            forall|i: int| 0 <= i < 3 * self@.body_count ==> is_default(#[trigger] c@.forces[i]),
    {
        Control::new(self.body_count)
    }
}

/// Adding a body to a consistent scene whose initial state is open keeps it
/// consistent and its joints valid; the new body gets index `body_count` and
/// carries the mass property, shape, colour, transform and velocity given.
pub proof fn law_add_ridig<T>(s: SceneView<T>, params: RigidParameters<T>, mass: MassProperty<T>)
    requires
        s.wf(),
        s.state_matches(),
        s.joints_valid(),
        !s.initial_state.finalized,
    ensures
        s.with_rigid(params, mass).wf(),
        s.with_rigid(params, mass).state_matches(),
        s.with_rigid(params, mass).joints_valid(),
        s.with_rigid(params, mass).mass_properties[s.body_count as int] == mass,
        s.with_rigid(params, mass).body_shapes[s.body_count as int] == params.shape,
        s.with_rigid(params, mass).body_colors[s.body_count as int] == params.color,
        s.with_rigid(params, mass).initial_state.transform_of(s.body_count as int)
            == params.transform,
        s.with_rigid(params, mass).initial_state.velocity_of(s.body_count as int)
            == params.velocities,
{
    law_push_body(s.initial_state, params.transform, params.velocities);
    let r = s.with_rigid(params, mass);
    assert forall|k: int| 0 <= k < r.joints.len() implies (#[trigger] r.joints[k]).refs_below(
        r.body_count as int,
    ) by {
        assert(s.joints[k].refs_below(s.body_count as int));
    }
}

/// Adding a joint that names bodies of the scene only keeps the joints valid.
pub proof fn law_add_joint<T>(s: SceneView<T>, joint: Joint<T>)
    requires
        s.joints_valid(),
        joint.refs_below(s.body_count as int),
    ensures
        (SceneView { joints: s.joints.push(joint), ..s }).joints_valid(),
{
    let r = SceneView { joints: s.joints.push(joint), ..s };
    assert forall|k: int| 0 <= k < r.joints.len() implies (#[trigger] r.joints[k]).refs_below(
        r.body_count as int,
    ) by {
        if k < s.joints.len() {
            assert(s.joints[k].refs_below(s.body_count as int));
        }
    }
}

/// Replicating a consistent scene into `n` environments gives a consistent
/// scene of `n` times the bodies, in which body `i` has the mass property,
/// shape, colour, transform and velocity of body `i mod body_count`.
pub proof fn law_replicated_scene<T>(s: SceneView<T>, n: nat)
    requires
        s.wf(),
        s.state_matches(),
        n >= 1,
    ensures
        s.replicated(n).wf(),
        s.replicated(n).state_matches(),
        s.replicated(n).env_count == n,
        forall|i: int|
            #![trigger s.replicated(n).mass_properties[i]]
            0 <= i < s.body_count * n ==> {
                let r = s.replicated(n);
                let j = i % (s.body_count as int);
                &&& r.mass_properties[i] == s.mass_properties[j]
                &&& r.body_shapes[i] == s.body_shapes[j]
                &&& r.body_colors[i] == s.body_colors[j]
                &&& r.initial_state.transform_of(i) == s.initial_state.transform_of(j)
                &&& r.initial_state.velocity_of(i) == s.initial_state.velocity_of(j)
            },
{
    let bc = s.body_count as int;
    let r = s.replicated(n);
    assert(s.mass_properties.take(bc) =~= s.mass_properties);
    assert(s.body_shapes.take(bc) =~= s.body_shapes);
    assert(s.body_colors.take(bc) =~= s.body_colors);
    lemma_prepend_copy(s.mass_properties, (n - 1) as nat);
    lemma_prepend_copy(s.body_shapes, (n - 1) as nat);
    lemma_prepend_copy(s.body_colors, (n - 1) as nat);
    law_replicated_state(s.initial_state, n);
    assert forall|i: int| #![trigger r.mass_properties[i]] 0 <= i < s.body_count * n implies {
        let j = i % (s.body_count as int);
        &&& r.mass_properties[i] == s.mass_properties[j]
        &&& r.body_shapes[i] == s.body_shapes[j]
        &&& r.body_colors[i] == s.body_colors[j]
        &&& r.initial_state.transform_of(i) == s.initial_state.transform_of(j)
        &&& r.initial_state.velocity_of(i) == s.initial_state.velocity_of(j)
    } by {
        assert(r.initial_state.transform_of(i) == s.initial_state.transform_of(i % bc));
    }
}

/// In a scene replicated into `n` environments from a scene of
/// `body_count > 0` bodies, the environment of body `i` is `i / body_count`,
/// which is below `n`.
pub proof fn law_env_index<T>(s: SceneView<T>, n: nat)
    requires
        n >= 2,
        s.body_count > 0,
    ensures
        forall|i: int|
            0 <= i < s.replicated(n).body_count ==> {
                &&& #[trigger] s.replicated(n).env_index_of(i) == i / (s.body_count as int)
                &&& 0 <= s.replicated(n).env_index_of(i) < n
            },
{
    let bc = s.body_count as int;
    assert forall|i: int| 0 <= i < s.replicated(n).body_count implies {
        &&& #[trigger] s.replicated(n).env_index_of(i) == i / bc
        &&& 0 <= s.replicated(n).env_index_of(i) < n
    } by {
        lemma_position_split(i, bc, n as int);
    }
}

/// In a scene replicated into `n >= 2` environments from a scene of
/// `body_count > 0` bodies whose joints are valid, the joint at position `i`
/// belongs to copy `i / joint_count` and names bodies of that environment
/// only.
pub proof fn law_joint_env<T>(s: SceneView<T>, n: nat)
    requires
        s.joints_valid(),
        n >= 2,
        s.body_count > 0,
        s.body_count * n <= usize::MAX + 1,
    ensures
        forall|i: int, b: int|
            0 <= i < s.replicated(n).joints.len() && #[trigger] s.replicated(n).joints[i].names(b)
                ==> s.replicated(n).env_index_of(b) == i / (s.joints.len() as int),
{
    let bc = s.body_count as int;
    let len = s.joints.len() as int;
    let r = s.replicated(n);
    law_replicated_joints(s, n);
    law_env_index(s, n);
    assert forall|i: int, b: int| 0 <= i < r.joints.len() && #[trigger] r.joints[i].names(b)
        implies r.env_index_of(b) == i / len by {
        lemma_position_split(i, len, n as int);
        let k = i / len;
        let m = i % len;
        assert(k * s.joints.len() + m == i);
        assert(r.joints[k * s.joints.len() + m].refs_within(k * bc, (k + 1) * bc));
        assert(k * bc <= b < (k + 1) * bc);
        assert((k + 1) * bc == k * bc + bc) by (nonlinear_arith);
        assert((k + 1) * bc <= bc * n) by (nonlinear_arith)
            requires
                0 <= k < n,
                bc >= 0,
        ;
        lemma_div_mod_of_position(k, bc, b - k * bc);
    }
}

/// Replicating a scene whose joints are valid into `n` environments keeps
/// the joints valid: copy `k` of joint `m` is joint `m` shifted by
/// `k * body_count`, and names bodies of environment `k` only.
pub proof fn law_replicated_joints<T>(s: SceneView<T>, n: nat)
    requires
        s.joints_valid(),
        n >= 1,
        s.body_count * n <= usize::MAX + 1,
    ensures
        s.replicated(n).joints_valid(),
        s.replicated(n).joints.len() == s.joints.len() * n,
        forall|k: int, m: int|
            0 <= k < n && 0 <= m < s.joints.len() ==> {
                &&& #[trigger] s.replicated(n).joints[k * s.joints.len() + m] == s.joints[m].offset(
                    (s.body_count * k) as nat,
                )
                &&& s.replicated(n).joints[k * s.joints.len() + m].refs_within(
                    k * s.body_count,
                    (k + 1) * s.body_count,
                )
            },
{
    let bc = s.body_count as int;
    let len = s.joints.len() as int;
    let r = s.replicated(n);
    assert forall|k: int, m: int| 0 <= k < n && 0 <= m < len implies {
        &&& #[trigger] r.joints[k * s.joints.len() + m] == s.joints[m].offset((s.body_count * k) as nat)
        &&& r.joints[k * s.joints.len() + m].refs_within(k * s.body_count, (k + 1) * s.body_count)
    } by {
        assert(k * len + m < len * n) by (nonlinear_arith)
            requires
                0 <= k < n,
                0 <= m < len,
        ;
        lemma_div_mod_of_position(k, len, m);
        assert(bc * k + bc <= bc * n) by (nonlinear_arith)
            requires
                0 <= k < n,
                bc >= 0,
        ;
        assert(bc * k >= 0) by (nonlinear_arith)
            requires
                0 <= k,
                bc >= 0,
        ;
        assert(s.joints[m].refs_below(bc));
        lemma_offset_within(s.joints[m], bc, (bc * k) as nat);
        assert((k + 1) * bc == bc * k + bc) by (nonlinear_arith);
        assert(k * bc == bc * k) by (nonlinear_arith);
    }
    assert forall|i: int| 0 <= i < r.joints.len() implies (#[trigger] r.joints[i]).refs_below(
        r.body_count as int,
    ) by {
        lemma_position_split(i, len, n as int);
        let k = i / len;
        let m = i % len;
        assert(k * s.joints.len() + m == i);
        assert(r.joints[k * s.joints.len() + m].refs_within(k * bc, (k + 1) * bc));
        assert((k + 1) * bc <= bc * n) by (nonlinear_arith)
            requires
                0 <= k < n,
                bc >= 0,
        ;
        assert(k * bc >= 0) by (nonlinear_arith)
            requires
                0 <= k,
                bc >= 0,
        ;
    }
}

/// Shifting a joint by any offset changes its body indices only: the kind,
/// the attachments, the target line, the range and the compliance stay;
/// where the shifted indices fit in `usize`, each is the old one plus the
/// offset.
pub proof fn law_offset_changes_only_indices<T>(j: Joint<T>, off: nat)
    ensures
        j.same_but_indices(j.offset(off)),
        j.refs_below(usize::MAX + 1 - off) ==> match (j, j.offset(off)) {
            (Joint::RevoluteJoint(a), Joint::RevoluteJoint(b)) => {
                &&& b.body1_i == a.body1_i + off
                &&& (a.body2_i matches Some(x) ==> b.body2_i == Some((x + off) as usize)
                    && x + off <= usize::MAX)
            },
            (Joint::PrismaticJoint(a), Joint::PrismaticJoint(b)) => b.body_i == a.body_i + off,
            _ => false,
        },
{
}

/// Copy `k` of joint `m` in a replicated scene is joint `m` with its body
/// indices shifted: every other field is that of joint `m`.
pub proof fn law_replicated_joint_fields<T>(s: SceneView<T>, n: nat)
    requires
        n >= 1,
    ensures
        s.replicated(n).joints.len() == s.joints.len() * n,
        forall|i: int|
            0 <= i < s.replicated(n).joints.len() ==> s.joints[i % (s.joints.len() as int)].same_but_indices(
                #[trigger] s.replicated(n).joints[i],
            ),
{
    let len = s.joints.len() as int;
    assert forall|i: int| 0 <= i < s.replicated(n).joints.len() implies s.joints[i
        % len].same_but_indices(#[trigger] s.replicated(n).joints[i]) by {
        law_offset_changes_only_indices(
            s.joints[i % len],
            (s.body_count * (i / len)) as nat,
        );
    }
}

/// Adding a body leaves the joints, the number of environments and the
/// number of bodies per environment as they were, and adds one body.
pub proof fn law_add_ridig_keeps_joints<T>(s: SceneView<T>, params: RigidParameters<T>, mass: MassProperty<T>)
    ensures
        s.with_rigid(params, mass).joints == s.joints,
        s.with_rigid(params, mass).env_count == s.env_count,
        s.with_rigid(params, mass).body_count_pre_env == s.body_count_pre_env,
        s.with_rigid(params, mass).body_count == s.body_count + 1,
        s.with_rigid(params, mass).initial_state.finalized == s.initial_state.finalized,
{
}

/// In a scene of one environment every body is in environment 0.
pub proof fn law_single_env_index<T>(s: SceneView<T>)
    requires
        s.env_count == 1,
    ensures
        forall|i: int| #[trigger] s.env_index_of(i) == 0,
{
}

/// Replicating a consistent scene with an open initial state keeps that
/// state open, so a body added afterwards enters it: the scene stays
/// consistent, with `n * body_count + 1` bodies in both the scene and its
/// initial state.
pub proof fn law_add_after_replicate<T>(
    s: SceneView<T>,
    n: nat,
    params: RigidParameters<T>,
    mass: MassProperty<T>,
)
    requires
        s.wf(),
        s.state_matches(),
        !s.initial_state.finalized,
        n >= 1,
    ensures
        !s.replicated(n).initial_state.finalized,
        s.replicated(n).with_rigid(params, mass).state_matches(),
        s.replicated(n).with_rigid(params, mass).wf(),
        s.replicated(n).with_rigid(params, mass).initial_state.body_count == s.body_count * n + 1,
        s.replicated(n).with_rigid(params, mass).body_count == s.body_count * n + 1,
{
    law_replicated_scene(s, n);
    law_replicate_keeps_finalized(s.initial_state, n);
    let r = s.replicated(n);
    law_push_body(r.initial_state, params.transform, params.velocities);
}

} // verus!
