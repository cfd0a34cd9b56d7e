//! Pose estimation for a mobile robot that carries only short-range sonar
//! sensors: bounded pools of weighted pose and surface hypotheses, fused per
//! tick by a motion model, arc back-projection and arc-arc triangulation.
pub mod engine;
pub mod fix;
pub mod geom;
pub mod pool;
pub mod position;
pub mod sample;
pub mod surface;
pub mod trig;
