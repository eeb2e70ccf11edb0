//! A minimal 2D collision-detection library.
//!
//! Shapes are discrete clouds of rounded lattice points; two shapes collide
//! exactly when they share a point. The library builds disk- and
//! cuboid-shaped clouds, translates and merges them, tracks anchor positions
//! frame to frame, and scans a collection pairwise for collisions.

pub mod collider;
pub mod point;
pub mod rotate;
pub mod scanner;
pub mod tracker;

pub use collider::{Collider, ColliderError};
pub use point::Point;
pub use scanner::{event_trigger, CollisionEvent};
pub use tracker::{OldColliderPosition, TrackerError};
