//! Lexical normalization of filesystem paths.
//!
//! A path is split into typed components, `.` entries are dropped and `..`
//! entries are resolved against the components before them, all without
//! touching the filesystem.

pub mod assemble;
pub mod component;
pub mod laws;
pub mod normalize;
pub mod platform;

pub use assemble::component_vec_to_path_buf;
pub use component::Component;
pub use normalize::{normalize_components, normalize_to_component_vec};
