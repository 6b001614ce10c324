//! Deterministic fixed-point core for a rhythm-driven shaping minigame.
//!
//! The crate turns noisy three-axis motion samples into a graded skill and
//! progress signal (a recursive noise filter per axis, a PID-style control
//! computation, bounded mastery/progress accumulators and a forward-only
//! task-phase machine), and separately advances a buffer of vertices under a
//! spring-damper model with a tether constraint.
//!
//! All quantities are integers counted in millionths (`fixed::SCALE` stands
//! for the real value 1.0), which keeps every tick bit-reproducible across
//! machines. A host that works in floating point converts at its own
//! boundary.

pub mod engine;
pub mod filter;
pub mod fixed;
pub mod laws;
pub mod physics;

pub use engine::GamePhase;
pub use engine::RhythmEngine;
pub use filter::KalmanFilter;
pub use physics::PhysicsParams;
pub use physics::Vec3;
pub use physics::VertexState;
