//! Data layout and scene bookkeeping of a small 2D rigid-body simulator
//! built around an XPBD (extended position based dynamics) solver.

mod control;
mod replication;
mod scene;
mod solver;
mod state;
mod vector;

pub use control::{Control, ControlView};
pub use scene::{
    Joint, MassProperty, PrismaticJoint, RevoluteJoint, RigidParameters, Scene, SceneView, Shape,
};
pub use solver::XPBDSolver;
pub use state::{State, StateView, Transform2D};
pub use vector::{Color, Vector2};
