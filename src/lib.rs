//! Target selection, build sequencing and per-architecture compiler
//! environments for building a mobile project's Apple targets.
pub mod text;
pub mod target;
pub mod select;
pub mod device;
pub mod pipeline;
pub mod synth;

pub use text::{macos_from_platform, profile_from_configuration, Profile};
