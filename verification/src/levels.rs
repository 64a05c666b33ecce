//! The items of a sequence, level by level: when the items of a sequence
//! are the items of its left operand followed by those of its right
//! operand.

use vstd::prelude::*;

use crate::items::{
    drain, is_same, items_of, lemma_unwrapped_lighter, lemma_weight_of_joined, unwrapped, weight,
};
use crate::node::{expression_of, ExpressionRef};

verus! {

/// The expressions of a queue that are items themselves, in the order in
/// which they are taken from it: from its back to its front.
pub open spec fn ready<'a>(queue: Seq<ExpressionRef<'a>>) -> Seq<ExpressionRef<'a>>
    decreases queue.len(),
{
    if queue.len() == 0 {
        Seq::empty()
    } else if is_same(queue.last()) {
        ready(queue.drop_last())
    } else {
        seq![queue.last()] + ready(queue.drop_last())
    }
}

/// The queue that is left when all expressions of a queue are taken from
/// it: the operands of its operations of `,`, one level down.
pub open spec fn below<'a>(queue: Seq<ExpressionRef<'a>>) -> Seq<ExpressionRef<'a>>
    decreases queue.len(),
{
    if queue.len() == 0 {
        Seq::empty()
    } else if is_same(queue.last()) {
        below(queue.drop_last()) + unwrapped(queue.last())
    } else {
        below(queue.drop_last())
    }
}

/// Whether all items of the first queue come before all items of the second
/// one when both are drained together, the first queue taken first: the
/// first queue has its items on no deeper level than the second one has
/// its own. Level by level: either the first queue has nothing left under
/// its top level, or the second has no item on its top level, and the same
/// holds of both one level down.
pub open spec fn shallower(first: Seq<ExpressionRef>, second: Seq<ExpressionRef>) -> bool
    decreases weight(first),
{
    if first.len() == 0 || drain(below(first)).len() == 0 {
        true
    } else {
        proof {
            lemma_below_lighter(first);
        }
        ready(second).len() == 0 && shallower(below(first), below(second))
    }
}

/// What is left one level down weighs less than the queue, unless the queue
/// is empty.
pub proof fn lemma_below_lighter(queue: Seq<ExpressionRef>)
    ensures
        queue.len() > 0 ==> weight(below(queue)) < weight(queue),
        queue.len() == 0 ==> weight(below(queue)) == 0,
    decreases queue.len(),
{
    if queue.len() > 0 {
        let rest = queue.drop_last();
        lemma_below_lighter(rest);
        if is_same(queue.last()) {
            lemma_weight_of_joined(below(rest), unwrapped(queue.last()));
            lemma_unwrapped_lighter(queue.last());
        }
    }
}

/// The items of two queues joined, and what is left of them one level
/// down, are those of the two queues, joined.
pub proof fn lemma_levels_of_joined(front: Seq<ExpressionRef>, back: Seq<ExpressionRef>)
    ensures
        ready(front + back) == ready(back) + ready(front),
        below(front + back) == below(front) + below(back),
    decreases back.len(),
{
    if back.len() == 0 {
        assert(front + back =~= front);
        assert(ready(back) + ready(front) =~= ready(front));
        assert(below(front) + below(back) =~= below(front));
    } else {
        let rest = back.drop_last();
        lemma_levels_of_joined(front, rest);
        assert((front + back).drop_last() =~= front + rest);
        assert((front + back).last() == back.last());
        if is_same(back.last()) {
            assert(below(front) + below(rest) + unwrapped(back.last()) =~= below(front) + (below(
                rest,
            ) + unwrapped(back.last())));
        } else {
            assert(seq![back.last()] + (ready(rest) + ready(front)) =~= (seq![back.last()] + ready(
                rest,
            )) + ready(front));
        }
    }
}

/// Draining takes the items of the back of a queue first, and then goes on
/// with what waits at its front, behind what is left of the back one level
/// down.
pub proof fn lemma_drain_level(front: Seq<ExpressionRef>, back: Seq<ExpressionRef>)
    ensures
        drain(front + back) == ready(back) + drain(below(back) + front),
    decreases back.len(),
{
    if back.len() == 0 {
        assert(front + back =~= front);
        assert(below(back) + front =~= front);
        assert(ready(back) + drain(front) =~= drain(front));
    } else {
        let taken = back.last();
        let rest = back.drop_last();
        let queue = front + back;
        assert(queue.drop_last() =~= front + rest);
        assert(queue.last() == taken);
        if is_same(taken) {
            lemma_drain_level(unwrapped(taken) + front, rest);
            assert(unwrapped(taken) + (front + rest) =~= (unwrapped(taken) + front) + rest);
            assert(below(rest) + (unwrapped(taken) + front) =~= below(back) + front);
        } else {
            lemma_drain_level(front, rest);
            assert(seq![taken] + (ready(rest) + drain(below(rest) + front)) =~= ready(back)
                + drain(below(back) + front));
        }
    }
}

/// Draining takes the items of a queue first, and then goes on a level
/// down.
pub proof fn lemma_drain_by_levels(queue: Seq<ExpressionRef>)
    ensures
        drain(queue) == ready(queue) + drain(below(queue)),
{
    lemma_drain_level(Seq::empty(), queue);
    assert(Seq::<ExpressionRef>::empty() + queue =~= queue);
    assert(below(queue) + Seq::<ExpressionRef>::empty() =~= below(queue));
}

/// A queue that yields no item changes nothing of what another queue
/// yields, whether it waits before it or behind it.
pub proof fn lemma_drain_without(empty: Seq<ExpressionRef>, other: Seq<ExpressionRef>)
    requires
        drain(empty).len() == 0,
    ensures
        drain(other + empty) == drain(other),
        drain(empty + other) == drain(other),
    decreases weight(empty) + weight(other),
{
    lemma_drain_by_levels(empty);
    lemma_drain_by_levels(other);
    lemma_below_lighter(empty);
    lemma_below_lighter(other);
    assert(ready(empty).len() == 0);
    assert(drain(below(empty)).len() == 0);
    if empty.len() == 0 {
        assert(other + empty =~= other);
        assert(empty + other =~= other);
    } else if other.len() == 0 {
        assert(other + empty =~= empty);
        assert(empty + other =~= empty);
        assert(drain(empty) =~= drain(other));
    } else {
        lemma_drain_level(other, empty);
        lemma_drain_without(below(empty), other);
        assert(ready(empty) + drain(below(empty) + other) =~= drain(other));
        lemma_drain_level(empty, other);
        lemma_drain_without(empty, below(other));
    }
}

/// Where the items of a first queue lie no deeper than those of a second
/// one, draining both together, the first queue taken first, yields the
/// items of the first queue and then those of the second one.
pub proof fn lemma_drain_in_turn(first: Seq<ExpressionRef>, second: Seq<ExpressionRef>)
    requires
        shallower(first, second),
    ensures
        drain(second + first) == drain(first) + drain(second),
    decreases weight(first),
{
    lemma_drain_by_levels(first);
    lemma_drain_by_levels(second);
    lemma_drain_by_levels(second + first);
    lemma_levels_of_joined(second, first);
    lemma_below_lighter(first);
    if first.len() == 0 {
        assert(second + first =~= second);
        assert(drain(first) + drain(second) =~= drain(second));
    } else if drain(below(first)).len() == 0 {
        lemma_drain_without(below(first), below(second));
        assert(drain(first) =~= ready(first));
        assert(ready(first) + ready(second) + drain(below(second)) =~= ready(first) + (ready(
            second,
        ) + drain(below(second))));
    } else {
        lemma_drain_in_turn(below(first), below(second));
        assert(ready(first) + ready(second) =~= ready(first));
        assert(drain(second) =~= drain(below(second)));
        assert(ready(first) + (drain(below(first)) + drain(below(second))) =~= (ready(first)
            + drain(below(first))) + drain(below(second)));
    }
}

/// The items of a sequence are those of its left operand and then those of
/// its right operand, where no item of the left operand lies deeper below
/// it than an item of the right operand lies below that.
///
/// That is so wherever the left operand is no sequence itself, which is how
/// the grammar nests sequences, the operator `,` grouping to the right; and
/// where both operands are sequences of the same shape. Where the left
/// operand lies deeper, its items come level by level with those of the
/// right operand, the shallow ones first: of `(a, b), c` the items are `c`,
/// `a`, `b`.
pub proof fn lemma_items_of_sequence<'a>(
    sequence: ExpressionRef<'a>,
    left: ExpressionRef<'a>,
    right: ExpressionRef<'a>,
)
    requires
        sequence is InfixOperation,
        is_same(sequence),
        expression_of(sequence.node(), 0) == Some(left),
        expression_of(sequence.node(), 1) == Some(right),
        shallower(seq![left], seq![right]),
    ensures
        items_of(sequence) == items_of(left) + items_of(right),
{
    let queue = seq![sequence];
    assert(queue.drop_last() =~= Seq::<ExpressionRef>::empty());
    assert(unwrapped(sequence) + queue.drop_last() =~= seq![right] + seq![left]);
    lemma_drain_in_turn(seq![left], seq![right]);
}

/// A left operand that is no sequence itself lies no deeper than any right
/// operand.
pub proof fn lemma_item_is_shallower<'a>(left: ExpressionRef<'a>, right: ExpressionRef<'a>)
    requires
        !is_same(left),
    ensures
        shallower(seq![left], seq![right]),
{
    let queue = seq![left];
    assert(queue.drop_last() =~= Seq::<ExpressionRef>::empty());
    assert(below(queue.drop_last()) =~= Seq::<ExpressionRef>::empty());
    assert(below(queue) =~= Seq::<ExpressionRef>::empty());
    assert(drain(below(queue)) =~= Seq::<ExpressionRef>::empty());
}

} // verus!
