//! The platform's own splitting and joining of paths, taken on trust.
//!
//! Nothing in this file is proved. Each function hands a path's text to the
//! standard library and hands back what it answered, and each contract names
//! that answer so that the verified code can speak of it.

use vstd::prelude::*;
use crate::component::{segments, Component, Segment};
use crate::normalize::prefix_only_first;

verus! {

/// The components that `std::path::Path::components` yields for the path
/// written as `path`, on the platform the crate is built for.
pub uninterp spec fn path_segments(path: Seq<char>) -> Seq<Segment>;

/// The text of the path that `std::path::PathBuf::push` leaves when the root
/// component is pushed onto the path written as `base`, on the platform the
/// crate is built for.
pub uninterp spec fn with_root(base: Seq<char>) -> Seq<char>;

/// The text of the path that `std::path::PathBuf::push` leaves when `entry`
/// is pushed onto the path written as `base`, on the platform the crate is
/// built for.
pub uninterp spec fn with_entry(base: Seq<char>, entry: Seq<char>) -> Seq<char>;

/// Splits a path with `std::path::Path::components`.
///
/// Trusted: the result is what the standard library yields for this text,
/// each component carried over in its own shape with its text unchanged. A
/// prefix component is the leading qualifier of a path, which the standard
/// library places before the root and before everything else, so it stands
/// at the front of the result or nowhere.
#[verifier::external_body]
pub(crate) fn split_path(path: &str) -> (parts: Vec<Component>)
    ensures
        segments(parts@) == path_segments(path@),
        prefix_only_first(segments(parts@)),
{
    let mut parts = Vec::new();
    for part in std::path::Path::new(path).components() {
        parts.push(match part {
            std::path::Component::Prefix(p) => Component::Prefix(p.as_os_str().to_string_lossy().into_owned()),
            std::path::Component::RootDir => Component::RootDir,
            std::path::Component::CurDir => Component::CurDir,
            std::path::Component::ParentDir => Component::ParentDir,
            std::path::Component::Normal(name) => Component::Normal(name.to_string_lossy().into_owned()),
        });
    }
    parts
}

/// Pushes the root component onto a path with `std::path::PathBuf::push`.
///
/// Trusted: the result is the text of the path that the standard library
/// leaves. Nothing more is claimed of it.
#[verifier::external_body]
pub(crate) fn push_root(base: String) -> (path: String)
    ensures
        path@ == with_root(base@),
{
    let mut path = std::path::PathBuf::from(base);
    path.push(std::path::Component::RootDir);
    path.to_string_lossy().into_owned()
}

/// Pushes one entry onto a path with `std::path::PathBuf::push`.
///
/// Trusted: the result is the text of the path that the standard library
/// leaves. Nothing more is claimed of it.
#[verifier::external_body]
pub(crate) fn push_entry(base: String, entry: &str) -> (path: String)
    ensures
        path@ == with_entry(base@, entry@),
{
    let mut path = std::path::PathBuf::from(base);
    path.push(entry);
    path.to_string_lossy().into_owned()
}

} // verus!
