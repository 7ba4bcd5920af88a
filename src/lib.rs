//! A Monte-Carlo path tracer's discrete core: the transport-depth policy of
//! the recursive integrator, the scene container, and the rules that turn a
//! rendered frame into image bytes and file names.

pub mod decimal;
pub mod image;
pub mod scene;
pub mod transport;

pub use image::{Format, Image, Resolution, SaveError};
pub use scene::{Intersect, Scene};
pub use transport::{Depth, Event, Step, MAX_DEPTH};
