//! The camera node: frames of an image, a video or a camera, over the bus.

pub mod cli;
pub mod frames;
pub mod jpeg;
pub mod laws;
pub mod receive;
