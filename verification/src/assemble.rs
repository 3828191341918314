//! The way back: from a list of components to a path.

use vstd::prelude::*;
use crate::component::{segments, Component, Segment};
use crate::platform::{push_entry, push_root, with_entry, with_root};

verus! {

/// The path that results when `segment` is pushed onto the path `base`.
///
/// A prefix and a named entry are pushed as their own text, `.` and `..` as
/// those marks, and the root as the platform's root component.
pub open spec fn pushed(base: Seq<char>, segment: Segment) -> Seq<char> {
    match segment {
        Segment::Prefix(text) => with_entry(base, text),
        Segment::RootDir => with_root(base),
        Segment::CurDir => with_entry(base, seq!['.']),
        Segment::ParentDir => with_entry(base, seq!['.', '.']),
        Segment::Normal(name) => with_entry(base, name),
    }
}

/// The path that a list of segments spells: each segment in turn pushed
/// onto the empty path.
pub open spec fn joined(list: Seq<Segment>) -> Seq<char>
    decreases list.len(),
{
    if list.len() == 0 {
        Seq::empty()
    } else {
        pushed(joined(list.drop_last()), list.last())
    }
}

/// Builds the path that `components` spell, in order and with nothing
/// removed or resolved; the empty list gives the empty path.
pub fn component_vec_to_path_buf(components: Vec<Component>) -> (path: String)
    ensures
        path@ == joined(segments(components@)),
        components@.len() == 0 ==> path@.len() == 0,
{
    let ghost input = segments(components@);
    let mut path = String::new();
    for component in it: components
        invariant
            input == segments(it.seq()),
            path@ == joined(input.take(it.index() as int)),
    {
        proof {
            let n = it.index() as int;
            assert(input.take(n + 1).drop_last() == input.take(n));
            assert(input.take(n + 1).last() == component@);
            reveal_strlit(".");
            reveal_strlit("..");
            assert("."@ == seq!['.']);
            assert(".."@ == seq!['.', '.']);
        }
        path = match component {
            Component::Prefix(text) => push_entry(path, text.as_str()),
            Component::RootDir => push_root(path),
            Component::CurDir => push_entry(path, "."),
            Component::ParentDir => push_entry(path, ".."),
            Component::Normal(name) => push_entry(path, name.as_str()),
        };
    }
    proof {
        assert(input.take(input.len() as int) == input);
    }
    path
}

} // verus!
