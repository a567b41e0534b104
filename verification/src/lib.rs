//! Verified core of a small first-person sector renderer: decoding of the
//! sector map container, the per-sector render and collision meshes, the
//! input state machine with mouse look, and the order of work in a frame.
//!
//! Everything here works on plain values. Windowing, the graphics device and
//! the rigid-body simulation live with the program that links this library.

pub mod collision;
pub mod encode;
pub mod format;
pub mod frame;
pub mod input;
pub mod map;
pub mod memory;
pub mod mesh;
pub mod pipeline;
pub mod player;
pub mod scalar;
pub mod uniform;
pub mod wire;
