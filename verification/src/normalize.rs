//! The fold that removes `.` entries and resolves `..` entries.

use vstd::prelude::*;
use crate::component::{segments, Component, Segment};
use crate::laws::lemma_normalized_is_normalized;
use crate::platform::{path_segments, split_path};

verus! {

/// One step of the fold: what the output `kept` becomes when `next` is read.
///
/// A `.` adds nothing. A `..` is kept where nothing can be cancelled (the
/// output is empty, or ends in a prefix or in another `..`), is dropped
/// directly after the root, and otherwise removes the entry before it. Every
/// other entry is kept.
pub open spec fn fold_step(kept: Seq<Segment>, next: Segment) -> Seq<Segment> {
    match next {
        Segment::CurDir => kept,
        Segment::ParentDir => {
            if kept.len() == 0 {
                kept.push(next)
            } else {
                match kept.last() {
                    Segment::Prefix(_) => kept.push(next),
                    Segment::ParentDir => kept.push(next),
                    Segment::RootDir => kept,
                    _ => kept.drop_last(),
                }
            }
        },
        _ => kept.push(next),
    }
}

/// The normal form of a list of segments: the left-to-right fold of
/// [`fold_step`] over it, starting from the empty list.
pub open spec fn normalized(input: Seq<Segment>) -> Seq<Segment>
    decreases input.len(),
{
    if input.len() == 0 {
        Seq::empty()
    } else {
        fold_step(normalized(input.drop_last()), input.last())
    }
}

/// A prefix stands at the front of the list or nowhere.
pub open spec fn prefix_only_first(list: Seq<Segment>) -> bool {
    forall|i: int| 0 < i < list.len() ==> !(#[trigger] list[i] is Prefix)
}

/// No entry is a `.`.
pub open spec fn has_no_cur_dir(list: Seq<Segment>) -> bool {
    forall|i: int| 0 <= i < list.len() ==> !(#[trigger] list[i] is CurDir)
}

/// If the entry at `at` is a `..`, it stands where nothing before it can be
/// cancelled: at the front, directly after another `..`, or directly after a
/// prefix.
pub open spec fn parent_is_stuck(list: Seq<Segment>, at: int) -> bool {
    list[at] is ParentDir ==> at == 0 || list[at - 1] is ParentDir || list[at - 1] is Prefix
}

/// Every `..` stands where it cannot be cancelled.
pub open spec fn parents_lead(list: Seq<Segment>) -> bool {
    forall|i: int| 0 <= i < list.len() ==> #[trigger] parent_is_stuck(list, i)
}

/// The invariant of a normalized list: at most one prefix, and only at the
/// front; no `.`; and no `..` that a named entry or the root before it could
/// have absorbed.
pub open spec fn is_normalized(list: Seq<Segment>) -> bool {
    &&& prefix_only_first(list)
    &&& has_no_cur_dir(list)
    &&& parents_lead(list)
}

/// What a `..` does to the output, read off the output's last entry.
enum ParentAction {
    Keep,
    Discard,
    Cancel,
}

/// Decides what a `..` does to the output `kept`.
fn parent_action(kept: &Vec<Component>) -> (action: ParentAction)
    ensures
        fold_step(segments(kept@), Segment::ParentDir) == match action {
            ParentAction::Keep => segments(kept@).push(Segment::ParentDir),
            ParentAction::Discard => segments(kept@),
            ParentAction::Cancel => segments(kept@).drop_last(),
        },
        action is Cancel ==> kept@.len() > 0,
{
    let len: usize = kept.len();
    if len == 0 {
        ParentAction::Keep
    } else {
        assert(segments(kept@).last() == kept@[len - 1]@);
        match &kept[len - 1] {
            Component::Prefix(_) => ParentAction::Keep,
            Component::ParentDir => ParentAction::Keep,
            Component::RootDir => ParentAction::Discard,
            _ => ParentAction::Cancel,
        }
    }
}

/// Folds a list of components into its normal form.
///
/// A prefix may stand only at the front of `components`.
pub fn normalize_components(components: Vec<Component>) -> (kept: Vec<Component>)
    requires
        prefix_only_first(segments(components@)),
    ensures
        segments(kept@) == normalized(segments(components@)),
        is_normalized(segments(kept@)),
{
    let ghost input = segments(components@);
    let mut kept: Vec<Component> = Vec::with_capacity(components.len());
    for component in it: components
        invariant
            input == segments(it.seq()),
            segments(kept@) == normalized(input.take(it.index() as int)),
    {
        let ghost before = segments(kept@);
        proof {
            let n = it.index() as int;
            assert(input.take(n + 1).drop_last() == input.take(n));
            assert(input.take(n + 1).last() == component@);
        }
        match component {
            Component::CurDir => {},
            Component::ParentDir => {
                match parent_action(&kept) {
                    ParentAction::Keep => {
                        kept.push(component);
                        assert(segments(kept@) == before.push(Segment::ParentDir));
                    },
                    ParentAction::Discard => {},
                    ParentAction::Cancel => {
                        kept.pop();
                        assert(segments(kept@) == before.drop_last());
                    },
                }
            },
            _ => {
                kept.push(component);
                assert(segments(kept@) == before.push(component@));
            },
        }
    }
    proof {
        assert(input.take(input.len() as int) == input);
        lemma_normalized_is_normalized(input);
    }
    kept
}

/// Normalizes the path written as `path`: splits it as the platform does and
/// folds the components into their normal form.
pub fn normalize_to_component_vec(path: &str) -> (kept: Vec<Component>)
    ensures
        segments(kept@) == normalized(path_segments(path@)),
        is_normalized(segments(kept@)),
{
    normalize_components(split_path(path))
}

} // verus!
