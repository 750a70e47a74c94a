//! Verified byte-level codec for Havok spline-compressed animation blocks,
//! together with the integer logic of the rig import/export tools.

pub mod anim;
pub mod fbx;
pub mod rig;
pub mod spline;
pub mod text;
