//! The resource and synchronization core of a GPU rendering engine.
//!
//! Nothing in this crate talks to a device. Each operation decides what has to
//! happen (which barrier to record, whether a view or a resource has to be
//! created, which object to build or release next) and keeps the bookkeeping
//! that makes those decisions correct; a thin device layer carries them out.

pub mod driver;
pub mod gpu;
pub mod math;
