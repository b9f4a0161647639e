//! A flock of sharks on a bounded plane, simulated in fixed-point arithmetic.
//!
//! The sharks flock by cohesion, separation and alignment, are drawn to the
//! nearest goal, and are kept off the land and inside the map. One step
//! moves every shark by one tick from the state of the tick before.
pub mod avoidance;
pub mod closest;
pub mod fixed;
pub mod geometry;
pub mod inside;
pub mod integrator;
pub mod laws;
pub mod shapes;
pub mod simulation;
pub mod spawn;
pub mod steering;
pub mod tick;
pub mod trig;
pub mod vector;

pub use crate::shapes::load_land_polygons;
pub use crate::simulation::Simulation;
pub use crate::spawn::{random_point, random_point_in_water};
pub use crate::steering::Shark;
pub use crate::tick::should_trigger;
