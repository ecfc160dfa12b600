use vstd::prelude::*;
use crate::replication::overwrite_with;
use crate::state::{velocity_at, write_triple};
use crate::vector::{is_default, Vector2};

verus! {

/// The external forces applied to the bodies during a step: a force and a
/// torque per body, three scalars each, in one flat array.
pub struct Control<T> {
    forces: Vec<T>,
    pub body_count: usize,
}

/// What a [`Control`] holds, as mathematical values.
#[verifier::ext_equal]
pub struct ControlView<T> {
    /// fx, fy and torque of body 0, then of body 1, ...
    pub forces: Seq<T>,
    pub body_count: nat,
}

impl<T> ControlView<T> {
    /// The force and torque on body `i`.
    pub open spec fn force_of(self, i: int) -> (Vector2<T>, T) {
        velocity_at(self.forces, i)
    }
}

impl<T> View for Control<T> {
    type V = ControlView<T>;

    closed spec fn view(&self) -> ControlView<T> {
        ControlView { forces: self.forces@, body_count: self.body_count as nat }
    }
}

impl<T: Copy + Default> Control<T> {
    /// No force on any of `body_count` bodies: every scalar is the scalar
    /// type's default value (its zero).
    pub fn new(body_count: usize) -> (c: Self)
        requires
            body_count * 3 <= usize::MAX,
        ensures
            c@.body_count == body_count,
            c@.forces.len() == 3 * body_count,
            forall|i: int| 0 <= i < 3 * body_count ==> is_default(#[trigger] c@.forces[i]),
    {
        let zero = T::default();
        let n = body_count * 3;
        let mut forces: Vec<T> = Vec::with_capacity(n);
        let mut i: usize = 0;
        while i < n
            invariant
                i <= n,
                is_default(zero),
                forces@.len() == i,
                forall|j: int| 0 <= j < i ==> forces@[j] == zero,
            decreases n - i,
        {
            forces.push(zero);
            i += 1;
        }
        Control { forces, body_count }
    }
}

impl<T: Copy> Control<T> {
    /// The flat force array.
    pub fn get_native_forces(&self) -> (s: &[T])
        ensures
            s@ == self@.forces,
    {
        self.forces.as_slice()
    }

    /// Overwrites the flat force array with `forces`, which has its length.
    pub fn set_native_forces(&mut self, forces: &[T])
        requires
            forces@.len() == old(self)@.forces.len(),
        ensures
            final(self)@ == (ControlView { forces: forces@, ..old(self)@ }),
    {
        overwrite_with(&mut self.forces, forces);
    }

    /// The force and torque on body `body_index`.
    pub fn query_forces(&self, body_index: usize) -> (f: (Vector2<T>, T))
        requires
            3 * body_index + 2 < self@.forces.len(),
        ensures
            f == self@.force_of(body_index as int),
    {
        proof { assert(self.forces@.len() == self.forces.len()); }
        let ti = body_index * 3;
        let x = self.forces[ti + 0];
        let y = self.forces[ti + 1];
        let r = self.forces[ti + 2];
        (Vector2::new(x, y), r)
    }

    /// Sets the force and torque on body `body_index`; nothing else changes.
    pub fn update_forces(&mut self, body_index: usize, force: (Vector2<T>, T))
        requires
            3 * body_index + 2 < old(self)@.forces.len(),
        ensures
            final(self)@ == (ControlView {
                forces: write_triple(old(self)@.forces, body_index as int, force.0.x, force.0.y, force.1),
                ..old(self)@
            }),
    {
        proof { assert(self.forces@.len() == self.forces.len()); }
        let ti = body_index * 3;
        self.forces[ti + 0] = force.0.x;
        self.forces[ti + 1] = force.0.y;
        self.forces[ti + 2] = force.1;
    }
}

} // verus!
