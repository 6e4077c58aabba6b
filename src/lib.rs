//! A relay between one sensor device and any number of viewers: the line
//! codec, the shared liveness flags and the per-connection session logic.
pub mod codec;
pub mod liveness;
pub mod session;
