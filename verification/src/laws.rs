//! What holds of the normal form of every list of segments.

use vstd::prelude::*;
use crate::component::Segment;
use crate::normalize::{
    fold_step, has_no_cur_dir, is_normalized, normalized, parent_is_stuck, prefix_only_first,
};

verus! {

/// The front of a list that keeps its prefix in front does so too.
proof fn lemma_front_keeps_prefix_first(list: Seq<Segment>)
    requires
        prefix_only_first(list),
        list.len() > 0,
    ensures
        prefix_only_first(list.drop_last()),
{
    let front = list.drop_last();
    assert forall|i: int| 0 < i < front.len() implies !(#[trigger] front[i] is Prefix) by {
        assert(front[i] == list[i]);
    }
}

/// One step of the fold keeps the invariant of normalized lists, as long as
/// a prefix is read only while the output is still empty.
proof fn lemma_step_keeps_invariant(kept: Seq<Segment>, next: Segment)
    requires
        is_normalized(kept),
        next is Prefix ==> kept.len() == 0,
    ensures
        is_normalized(fold_step(kept, next)),
{
    let after = fold_step(kept, next);
    assert forall|i: int| 0 <= i < after.len() implies #[trigger] parent_is_stuck(after, i) by {
        if i < kept.len() {
            assert(parent_is_stuck(kept, i));
        }
    }
}

/// The normal form of a list whose only prefix, if any, is its first entry
/// satisfies the invariant of normalized lists.
pub proof fn lemma_normalized_is_normalized(input: Seq<Segment>)
    requires
        prefix_only_first(input),
    ensures
        is_normalized(normalized(input)),
    decreases input.len(),
{
    if input.len() > 0 {
        let front = input.drop_last();
        lemma_front_keeps_prefix_first(input);
        lemma_normalized_is_normalized(front);
        if input.last() is Prefix {
            assert(input[input.len() - 1] is Prefix);
        }
        lemma_step_keeps_invariant(normalized(front), input.last());
    }
}

/// No `.` survives: the normal form of any list holds no `.` entry.
pub proof fn lemma_no_cur_dir_survives(input: Seq<Segment>)
    ensures
        has_no_cur_dir(normalized(input)),
    decreases input.len(),
{
    if input.len() > 0 {
        lemma_no_cur_dir_survives(input.drop_last());
    }
}

/// A list that satisfies the invariant of normalized lists is its own
/// normal form.
pub proof fn lemma_normalized_list_is_fixed(list: Seq<Segment>)
    requires
        is_normalized(list),
    ensures
        normalized(list) == list,
    decreases list.len(),
{
    if list.len() > 0 {
        let front = list.drop_last();
        let n = front.len() as int;
        assert(is_normalized(front)) by {
            lemma_front_keeps_prefix_first(list);
            assert forall|i: int| 0 <= i < front.len() implies !(#[trigger] front[i] is CurDir) by {
                assert(front[i] == list[i]);
            }
            assert forall|i: int| 0 <= i < front.len() implies #[trigger] parent_is_stuck(
                front,
                i,
            ) by {
                assert(parent_is_stuck(list, i));
            }
        }
        lemma_normalized_list_is_fixed(front);
        assert(!(list[n] is CurDir));
        assert(parent_is_stuck(list, n));
        assert(front.push(list.last()) == list);
    }
}

/// Normalizing is idempotent: the normal form of a normal form is that
/// normal form.
pub proof fn lemma_normalized_idempotent(input: Seq<Segment>)
    requires
        prefix_only_first(input),
    ensures
        normalized(normalized(input)) == normalized(input),
{
    lemma_normalized_is_normalized(input);
    lemma_normalized_list_is_fixed(normalized(input));
}

/// One step of the fold leaves a prefix at the front of the output where it
/// is.
proof fn lemma_step_keeps_leading_prefix(kept: Seq<Segment>, next: Segment)
    requires
        kept.len() > 0,
        kept[0] is Prefix,
    ensures
        fold_step(kept, next).len() > 0,
        fold_step(kept, next)[0] == kept[0],
{
    if kept.len() == 1 {
        assert(kept.last() == kept[0]);
    }
}

/// A leading prefix is never removed: it is the first entry of the normal
/// form, and the normal form holds no other prefix.
pub proof fn lemma_prefix_stays_first(input: Seq<Segment>)
    requires
        prefix_only_first(input),
        input.len() > 0,
        input[0] is Prefix,
    ensures
        normalized(input).len() > 0,
        normalized(input)[0] == input[0],
        prefix_only_first(normalized(input)),
    decreases input.len(),
{
    lemma_normalized_is_normalized(input);
    let front = input.drop_last();
    if front.len() > 0 {
        lemma_front_keeps_prefix_first(input);
        assert(front[0] == input[0]);
        lemma_prefix_stays_first(front);
        lemma_step_keeps_leading_prefix(normalized(front), input.last());
    } else {
        assert(normalized(front).len() == 0);
        assert(input.last() == input[0]);
        assert(normalized(input) == seq![input[0]]);
    }
}

/// The positions of `input` whose entries survive into its normal form, in
/// the order in which they survive.
pub open spec fn surviving(input: Seq<Segment>) -> Seq<int>
    decreases input.len(),
{
    if input.len() == 0 {
        Seq::empty()
    } else {
        let front = input.drop_last();
        let kept = normalized(front);
        let after = fold_step(kept, input.last());
        if after.len() > kept.len() {
            surviving(front).push(input.len() - 1)
        } else if after.len() < kept.len() {
            surviving(front).drop_last()
        } else {
            surviving(front)
        }
    }
}

/// `positions` picks `chosen` out of `from`: it rises strictly, stays inside
/// `from`, and names, entry by entry, where `chosen` comes from.
pub open spec fn picks(positions: Seq<int>, from: Seq<Segment>, chosen: Seq<Segment>) -> bool {
    &&& positions.len() == chosen.len()
    &&& forall|i: int, j: int|
        0 <= i < j < positions.len() ==> #[trigger] positions[i] < #[trigger] positions[j]
    &&& forall|i: int|
        0 <= i < positions.len() ==> 0 <= #[trigger] positions[i] < from.len() && chosen[i]
            == from[positions[i]]
}

/// `chosen` is `from` with some entries left out and the rest in their
/// order.
pub open spec fn keeps_order_of(chosen: Seq<Segment>, from: Seq<Segment>) -> bool {
    exists|positions: Seq<int>| picks(positions, from, chosen)
}

/// The surviving positions pick the normal form out of the input.
pub proof fn lemma_surviving_picks_normalized(input: Seq<Segment>)
    ensures
        picks(surviving(input), input, normalized(input)),
    decreases input.len(),
{
    if input.len() > 0 {
        let front = input.drop_last();
        lemma_surviving_picks_normalized(front);
        let before = surviving(front);
        let positions = surviving(input);
        let chosen = normalized(input);
        assert forall|i: int| 0 <= i < positions.len() implies 0 <= #[trigger] positions[i]
            < input.len() && chosen[i] == input[positions[i]] by {
            if i < before.len() {
                assert(positions[i] == before[i]);
                assert(front[before[i]] == input[before[i]]);
            }
        }
        assert forall|i: int, j: int| 0 <= i < j < positions.len() implies #[trigger] positions[i]
            < #[trigger] positions[j] by {
            if j < before.len() {
                assert(positions[i] == before[i] && positions[j] == before[j]);
            } else {
                assert(positions[i] == before[i]);
                assert(before[i] < front.len());
            }
        }
    }
}

/// Nothing is reordered: the normal form is the input with some entries
/// left out, and the entries that survive stand in the order they had.
pub proof fn lemma_order_preserved(input: Seq<Segment>)
    ensures
        keeps_order_of(normalized(input), input),
{
    lemma_surviving_picks_normalized(input);
}

} // verus!
