use vstd::prelude::*;
use crate::replication::{
    append_prefix_copies, copy_of, lemma_div_mod_of_position, lemma_position_split,
    lemma_prepend_copy, overwrite_with, repeat,
};
use crate::vector::{is_default, Vector2};

verus! {

/// Scalars stored per body in the flat transform and velocity arrays:
/// x, y and the angle.
const TRANSFORM_2D_FLOAT_SIZE: usize = 3;

/// Position and rotation of a body.
#[derive(Clone, Copy, Debug)]
pub struct Transform2D<T> {
    pub position: Vector2<T>,
    pub rotation: T,
}

impl<T: Copy> Transform2D<T> {
    /// The transform at `pos` with angle `rot`.
    pub fn new(pos: Vector2<T>, rot: T) -> (t: Self)
        ensures
            t.position == pos,
            t.rotation == rot,
    {
        Transform2D { position: pos, rotation: rot }
    }
}

impl<T: Copy + Default> Transform2D<T> {
    /// The identity transform: position and angle all the scalar type's
    /// default value (its zero).
    pub fn zero() -> (t: Self)
        ensures
            is_default(t.rotation),
            t.position.x == t.rotation,
            t.position.y == t.rotation,
    {
        let d = T::default();
        Transform2D { position: Vector2 { x: d, y: d }, rotation: d }
    }
}

/// The transform stored for body `i` in the flat array `s`: the three
/// scalars from position `3 i` on.
pub open spec fn transform_at<T>(s: Seq<T>, i: int) -> Transform2D<T> {
    Transform2D {
        position: Vector2 { x: s[3 * i], y: s[3 * i + 1] },
        rotation: s[3 * i + 2],
    }
}

/// The linear and angular velocity stored for body `i` in the flat array `s`.
pub open spec fn velocity_at<T>(s: Seq<T>, i: int) -> (Vector2<T>, T) {
    (Vector2 { x: s[3 * i], y: s[3 * i + 1] }, s[3 * i + 2])
}

/// `s` with the three scalars of body `i` replaced by `(x, y, r)`.
pub open spec fn write_triple<T>(s: Seq<T>, i: int, x: T, y: T, r: T) -> Seq<T> {
    s.update(3 * i, x).update(3 * i + 1, y).update(3 * i + 2, r)
}

/// Read after write: writing the triple of body `i` changes what is read
/// for body `i` to the triple written and leaves every other body as it was.
pub proof fn law_read_after_write<T>(s: Seq<T>, i: int, x: T, y: T, r: T)
    requires
        0 <= i,
        3 * i + 2 < s.len(),
    ensures
        write_triple(s, i, x, y, r).len() == s.len(),
        transform_at(write_triple(s, i, x, y, r), i) == (Transform2D {
            position: Vector2 { x, y },
            rotation: r,
        }),
        velocity_at(write_triple(s, i, x, y, r), i) == (Vector2 { x, y }, r),
        forall|j: int|
            0 <= j && 3 * j + 2 < s.len() && j != i ==> {
                &&& #[trigger] transform_at(write_triple(s, i, x, y, r), j) == transform_at(s, j)
                &&& velocity_at(write_triple(s, i, x, y, r), j) == velocity_at(s, j)
            },
{
}

/// What a [`State`] holds, as mathematical values.
#[verifier::ext_equal]
pub struct StateView<T> {
    /// x, y and angle of body 0, then of body 1, ...
    pub transforms: Seq<T>,
    /// vx, vy and angular velocity of body 0, then of body 1, ...
    pub velocities: Seq<T>,
    pub body_count: nat,
    pub finalized: bool,
}

impl<T> StateView<T> {
    /// Both arrays hold exactly three scalars for each of `body_count` bodies.
    pub open spec fn wf(self) -> bool {
        &&& self.transforms.len() == 3 * self.body_count
        &&& self.velocities.len() == 3 * self.body_count
    }

    /// The transform of body `i`.
    pub open spec fn transform_of(self, i: int) -> Transform2D<T> {
        transform_at(self.transforms, i)
    }

    /// The velocity of body `i`.
    pub open spec fn velocity_of(self, i: int) -> (Vector2<T>, T) {
        velocity_at(self.velocities, i)
    }

    /// The state after appending one body with transform `t` and velocity
    /// `v` to an open state.
    pub open spec fn with_body(self, t: Transform2D<T>, v: (Vector2<T>, T)) -> Self {
        StateView {
            transforms: self.transforms + seq![t.position.x, t.position.y, t.rotation],
            velocities: self.velocities + seq![v.0.x, v.0.y, v.1],
            body_count: self.body_count + 1,
            finalized: self.finalized,
        }
    }
}

impl<T> StateView<T> {
    /// `n` copies of the state one after the other: `n` times the bodies.
    pub open spec fn replicated(self, n: nat) -> Self {
        StateView {
            transforms: repeat(self.transforms, n),
            velocities: repeat(self.velocities, n),
            body_count: self.body_count * n,
            finalized: self.finalized,
        }
    }
}

/// Adding a body to a well-formed open state keeps it well formed; the new
/// body, at index `body_count`, reads back with the transform and velocity
/// given, and every earlier body is unchanged.
pub proof fn law_push_body<T>(s: StateView<T>, t: Transform2D<T>, v: (Vector2<T>, T))
    requires
        s.wf(),
    ensures
        s.with_body(t, v).wf(),
        s.with_body(t, v).transform_of(s.body_count as int) == t,
        s.with_body(t, v).velocity_of(s.body_count as int) == v,
        forall|j: int|
            0 <= j < s.body_count ==> {
                &&& #[trigger] s.with_body(t, v).transform_of(j) == s.transform_of(j)
                &&& s.with_body(t, v).velocity_of(j) == s.velocity_of(j)
            },
{
    let bc = s.body_count as int;
    assert(s.with_body(t, v).transform_of(bc).position == t.position);
}

/// Pushing a body never opens or closes a state: an open state stays open,
/// so any number of bodies can be pushed before it is finalized; each push
/// adds one body and three scalars to each array, and keeps every earlier
/// scalar in place.
pub proof fn law_push_keeps_finalized<T>(s: StateView<T>, t: Transform2D<T>, v: (Vector2<T>, T))
    ensures
        s.with_body(t, v).finalized == s.finalized,
        s.with_body(t, v).body_count == s.body_count + 1,
        s.with_body(t, v).transforms.len() == s.transforms.len() + 3,
        s.with_body(t, v).velocities.len() == s.velocities.len() + 3,
        forall|i: int| 0 <= i < s.transforms.len() ==> #[trigger] s.with_body(t, v).transforms[i]
            == s.transforms[i],
        forall|i: int| 0 <= i < s.velocities.len() ==> #[trigger] s.with_body(t, v).velocities[i]
            == s.velocities[i],
{
}

/// Replicating a state keeps its finalized flag: an open state stays open
/// to new bodies, a finalized one stays closed.
pub proof fn law_replicate_keeps_finalized<T>(s: StateView<T>, n: nat)
    ensures
        s.replicated(n).finalized == s.finalized,
        s.replicated(n).body_count == s.body_count * n,
{
}

/// Replicating a well-formed state `n` times gives a well-formed state of `n`
/// times the bodies, in which body `i` has the transform and velocity of body
/// `i mod body_count`: every copy starts as the original.
pub proof fn law_replicated_state<T>(s: StateView<T>, n: nat)
    requires
        s.wf(),
    ensures
        s.replicated(n).wf(),
        forall|i: int|
            0 <= i < s.body_count * n ==> {
                &&& #[trigger] s.replicated(n).transform_of(i) == s.transform_of(i % (s.body_count as int))
                &&& s.replicated(n).velocity_of(i) == s.velocity_of(i % (s.body_count as int))
            },
{
    let bc = s.body_count as int;
    let len = 3 * bc;
    assert(len * n == 3 * (bc * n)) by (nonlinear_arith)
        requires
            len == 3 * bc,
    ;
    assert forall|i: int| 0 <= i < s.body_count * n implies {
        &&& #[trigger] s.replicated(n).transform_of(i) == s.transform_of(i % bc)
        &&& s.replicated(n).velocity_of(i) == s.velocity_of(i % bc)
    } by {
        lemma_position_split(i, bc, n as int);
        let k = i / bc;
        let j = i % bc;
        assert(3 * i == k * len + 3 * j) by (nonlinear_arith)
            requires
                len == 3 * bc,
                i == k * bc + j,
        ;
        assert(k * len + 3 * j + 2 < len * n) by (nonlinear_arith)
            requires
                0 <= k < n,
                0 <= j < bc,
                len == 3 * bc,
        ;
        lemma_div_mod_of_position(k, len, 3 * j);
        lemma_div_mod_of_position(k, len, 3 * j + 1);
        lemma_div_mod_of_position(k, len, 3 * j + 2);
    }
}

/// The bodies of a simulation: their transforms and velocities, three
/// scalars per body each, in two flat arrays. Once finalized, no body can
/// be added.
pub struct State<T> {
    transforms: Vec<T>,
    velocities: Vec<T>,
    pub body_count: usize,
    finalized: bool,
}

impl<T> View for State<T> {
    type V = StateView<T>;

    closed spec fn view(&self) -> StateView<T> {
        StateView {
            transforms: self.transforms@,
            velocities: self.velocities@,
            body_count: self.body_count as nat,
            finalized: self.finalized,
        }
    }
}

impl<T: Copy> State<T> {
    /// An empty state, open to new bodies.
    pub fn new(capacity: usize) -> (s: Self)
        ensures
            s@ == (StateView::<T> {
                transforms: Seq::empty(),
                velocities: Seq::empty(),
                body_count: 0,
                finalized: false,
            }),
            s@.wf(),
    {
        State {
            transforms: Vec::with_capacity(capacity),
            velocities: Vec::with_capacity(capacity),
            body_count: 0,
            finalized: false,
        }
    }

    /// A copy of `other`: same arrays, body count and finalized flag.
    pub fn from(other: &Self) -> (s: Self)
        ensures
            s@ == other@,
    {
        State {
            transforms: copy_of(other.transforms.as_slice()),
            velocities: copy_of(other.velocities.as_slice()),
            body_count: other.body_count,
            finalized: other.finalized,
        }
    }

    /// Overwrites the transforms and velocities with those of `other`, which
    /// holds arrays of the same lengths. The body count and the finalized
    /// flag stay as they were.
    pub fn copy_from(&mut self, other: &Self)
        requires
            old(self)@.transforms.len() == other@.transforms.len(),
            old(self)@.velocities.len() == other@.velocities.len(),
        ensures
            final(self)@ == (StateView {
                transforms: other@.transforms,
                velocities: other@.velocities,
                ..old(self)@
            }),
    {
        overwrite_with(&mut self.transforms, other.transforms.as_slice());
        overwrite_with(&mut self.velocities, other.velocities.as_slice());
    }

    /// Appends a body with the given transform and velocities, unless the
    /// state is finalized; returns whether the body was added.
    pub fn push_body(&mut self, transform: Transform2D<T>, velocities: (Vector2<T>, T)) -> (added: bool)
        requires
            !old(self)@.finalized ==> old(self)@.body_count < usize::MAX,
        ensures
            added == !old(self)@.finalized,
            added ==> final(self)@ == old(self)@.with_body(transform, velocities),
            !added ==> final(self)@ == old(self)@,
            final(self)@.finalized == old(self)@.finalized,
            added ==> final(self)@.body_count == old(self)@.body_count + 1,
            added ==> final(self)@.transforms.len() == old(self)@.transforms.len() + 3,
            added ==> final(self)@.velocities.len() == old(self)@.velocities.len() + 3,
    {
        if self.finalized {
            return false;
        }
        self.transforms.push(transform.position.x);
        self.transforms.push(transform.position.y);
        self.transforms.push(transform.rotation);
        self.velocities.push(velocities.0.x);
        self.velocities.push(velocities.0.y);
        self.velocities.push(velocities.1);
        self.body_count += 1;
        assert(self@.transforms =~= old(self)@.with_body(transform, velocities).transforms);
        assert(self@.velocities =~= old(self)@.with_body(transform, velocities).velocities);
        true
    }

    /// Closes the state to new bodies.
    pub fn finalize(&mut self)
        ensures
            final(self)@ == (StateView { finalized: true, ..old(self)@ }),
    {
        self.finalized = true;
    }

    /// The flat transform array.
    pub fn get_native_transforms(&self) -> (s: &[T])
        ensures
            s@ == self@.transforms,
    {
        self.transforms.as_slice()
    }

    /// The flat velocity array.
    pub fn get_native_velocties(&self) -> (s: &[T])
        ensures
            s@ == self@.velocities,
    {
        self.velocities.as_slice()
    }

    /// The transform of body `body_index`.
    pub fn query_transform(&self, body_index: usize) -> (t: Transform2D<T>)
        requires
            3 * body_index + 2 < self@.transforms.len(),
        ensures
            t == self@.transform_of(body_index as int),
    {
        proof { assert(self.transforms@.len() == self.transforms.len()); }
        let ti = body_index * TRANSFORM_2D_FLOAT_SIZE;
        let x = self.transforms[ti + 0];
        let y = self.transforms[ti + 1];
        let r = self.transforms[ti + 2];
        Transform2D { position: Vector2::new(x, y), rotation: r }
    }

    /// The linear and angular velocity of body `body_index`.
    pub fn query_velocity(&self, body_index: usize) -> (v: (Vector2<T>, T))
        requires
            3 * body_index + 2 < self@.velocities.len(),
        ensures
            v == self@.velocity_of(body_index as int),
    {
        proof { assert(self.velocities@.len() == self.velocities.len()); }
        let ti = body_index * 3;
        let x = self.velocities[ti + 0];
        let y = self.velocities[ti + 1];
        let r = self.velocities[ti + 2];
        (Vector2::new(x, y), r)
    }

    /// Sets the transform of body `body_index`; nothing else changes.
    pub fn update_transform(&mut self, body_index: usize, transform: Transform2D<T>)
        requires
            3 * body_index + 2 < old(self)@.transforms.len(),
        ensures
            final(self)@ == (StateView {
                transforms: write_triple(
                    old(self)@.transforms,
                    body_index as int,
                    transform.position.x,
                    transform.position.y,
                    transform.rotation,
                ),
                ..old(self)@
            }),
    {
        proof { assert(self.transforms@.len() == self.transforms.len()); }
        let ti = body_index * TRANSFORM_2D_FLOAT_SIZE;
        self.transforms[ti + 0] = transform.position.x;
        self.transforms[ti + 1] = transform.position.y;
        self.transforms[ti + 2] = transform.rotation;
    }

    /// Sets the linear and angular velocity of body `body_index`; nothing
    /// else changes.
    pub fn update_velocity(&mut self, body_index: usize, velocities: (Vector2<T>, T))
        requires
            3 * body_index + 2 < old(self)@.velocities.len(),
        ensures
            final(self)@ == (StateView {
                velocities: write_triple(
                    old(self)@.velocities,
                    body_index as int,
                    velocities.0.x,
                    velocities.0.y,
                    velocities.1,
                ),
                ..old(self)@
            }),
    {
        proof { assert(self.velocities@.len() == self.velocities.len()); }
        let ti = body_index * 3;
        self.velocities[ti + 0] = velocities.0.x;
        self.velocities[ti + 1] = velocities.0.y;
        self.velocities[ti + 2] = velocities.1;
    }

    /// Turns the state into `num_envs` copies of itself, one after the
    /// other, for as many environments; fewer than two leaves it as it is.
    pub(crate) fn replicate(&mut self, num_envs: u32)
        requires
            num_envs >= 2 ==> {
                &&& old(self)@.transforms.len() * num_envs <= usize::MAX
                &&& old(self)@.velocities.len() * num_envs <= usize::MAX
                &&& old(self)@.body_count * num_envs <= usize::MAX
            },
        ensures
            num_envs < 2 ==> final(self)@ == old(self)@,
            num_envs >= 2 ==> final(self)@ == old(self)@.replicated(num_envs as nat),
            final(self)@.finalized == old(self)@.finalized,
    {
        if num_envs < 2 {
            return;
        }
        let best_env_transforms = self.transforms.len();
        let best_env_velocities = self.velocities.len();
        proof {
            let t = self.transforms@.len();
            let v = self.velocities@.len();
            assert(t + t * (num_envs - 1) == t * num_envs) by (nonlinear_arith);
            assert(v + v * (num_envs - 1) == v * num_envs) by (nonlinear_arith);
        }
        append_prefix_copies(&mut self.transforms, best_env_transforms, num_envs - 1);
        append_prefix_copies(&mut self.velocities, best_env_velocities, num_envs - 1);
        proof {
            let t0 = old(self)@.transforms;
            let v0 = old(self)@.velocities;
            assert(t0.take(t0.len() as int) =~= t0);
            assert(v0.take(v0.len() as int) =~= v0);
            lemma_prepend_copy(t0, (num_envs - 1) as nat);
            lemma_prepend_copy(v0, (num_envs - 1) as nat);
        }
        self.body_count *= num_envs as usize;
    }
}

} // verus!
