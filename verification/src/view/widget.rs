//! The parts of the picture.

pub mod camera;
pub mod layout;
