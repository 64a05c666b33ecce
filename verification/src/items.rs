//! The items of a sequence written with the operator `,`.

use std::collections::VecDeque;
use vstd::prelude::*;

use crate::node::{
    expression_of, infix_operator_in, lemma_expression_smaller, lemma_expressions_smaller,
    suffix_operator_in, ExpressionRef, List,
};
use crate::operator::{InfixOperator, SuffixOperator};

verus! {

/// Whether an expression is an operation of the operator `,`, infix or
/// suffix.
pub open spec fn is_same(expression: ExpressionRef) -> bool {
    match expression {
        ExpressionRef::InfixOperation(operation) => infix_operator_in(operation.node)
            == InfixOperator::Same,
        ExpressionRef::SuffixOperation(operation) => suffix_operator_in(operation.node) == Some(
            SuffixOperator::Same,
        ),
        _ => false,
    }
}

/// An expression, if there is one, as a run of its own.
pub open spec fn optional<'a>(expression: Option<ExpressionRef<'a>>) -> Seq<ExpressionRef<'a>> {
    match expression {
        Some(expression) => seq![expression],
        None => Seq::empty(),
    }
}

/// What takes the place of an operation of `,` when it is unwrapped: its
/// operands, as far as they are there, the right one first.
pub open spec fn unwrapped<'a>(expression: ExpressionRef<'a>) -> Seq<ExpressionRef<'a>> {
    match expression {
        ExpressionRef::InfixOperation(operation) => optional(expression_of(operation.node, 1))
            + optional(expression_of(operation.node, 0)),
        ExpressionRef::SuffixOperation(operation) => optional(expression_of(operation.node, 0)),
        _ => Seq::empty(),
    }
}

/// The number of nodes and tokens below the expressions of a run.
pub open spec fn weight(queue: Seq<ExpressionRef>) -> nat
    decreases queue.len(),
{
    if queue.len() == 0 {
        0
    } else {
        weight(queue.drop_last()) + queue.last().node().size()
    }
}

/// The weight of two runs, joined, is the sum of their weights.
pub proof fn lemma_weight_of_joined(first: Seq<ExpressionRef>, second: Seq<ExpressionRef>)
    ensures
        weight(first + second) == weight(first) + weight(second),
    decreases second.len(),
{
    if second.len() == 0 {
        assert(first + second =~= first);
    } else {
        lemma_weight_of_joined(first, second.drop_last());
        assert((first + second).drop_last() =~= first + second.drop_last());
    }
}

/// The weight of a run of one expression is the size of its node.
pub proof fn lemma_weight_of_one(expression: ExpressionRef)
    ensures
        weight(seq![expression]) == expression.node().size(),
{
    assert(seq![expression].drop_last() =~= Seq::<ExpressionRef>::empty());
    assert(weight(seq![expression].drop_last()) == 0);
}

/// What takes the place of an operation weighs less than the operation.
pub proof fn lemma_unwrapped_lighter(expression: ExpressionRef)
    ensures
        weight(unwrapped(expression)) < expression.node().size(),
{
    match expression {
        ExpressionRef::InfixOperation(operation) => {
            let left = expression_of(operation.node, 0);
            let right = expression_of(operation.node, 1);
            lemma_weight_of_joined(optional(right), optional(left));
            lemma_expression_smaller(operation.node, 0);
            lemma_expression_smaller(operation.node, 1);
            lemma_expressions_smaller(operation.node, 0, 1);
            if left.is_some() {
                lemma_weight_of_one(left.unwrap());
            }
            if right.is_some() {
                lemma_weight_of_one(right.unwrap());
            }
        },
        ExpressionRef::SuffixOperation(operation) => {
            let left = expression_of(operation.node, 0);
            lemma_expression_smaller(operation.node, 0);
            if left.is_some() {
                lemma_weight_of_one(left.unwrap());
            }
        },
        _ => {},
    }
}

/// The items that a queue of expressions yields. The expression at the
/// back of the queue is taken first. An operation of `,` is unwrapped: its
/// operands join the queue at the front, the left one to be taken before
/// the right one, but after all that wait already. Any other expression is
/// an item.
pub open spec fn drain<'a>(queue: Seq<ExpressionRef<'a>>) -> Seq<ExpressionRef<'a>>
    decreases weight(queue),
{
    if queue.len() == 0 {
        Seq::empty()
    } else {
        let taken = queue.last();
        let rest = queue.drop_last();
        if is_same(taken) {
            proof {
                lemma_weight_of_joined(unwrapped(taken), rest);
                lemma_unwrapped_lighter(taken);
            }
            drain(unwrapped(taken) + rest)
        } else {
            seq![taken] + drain(rest)
        }
    }
}

/// The items of an expression: the expression itself, or, where it is a
/// sequence written with `,`, what its operands yield, level by level.
pub open spec fn items_of<'a>(expression: ExpressionRef<'a>) -> Seq<ExpressionRef<'a>> {
    drain(seq![expression])
}

/// Whether every expression of a run weighs no more than a limit.
pub open spec fn all_within(items: Seq<ExpressionRef>, limit: nat) -> bool {
    forall|index: int| 0 <= index < items.len() ==> (#[trigger] items[index]).node().size() <= limit
}

/// What a queue yields weighs no more than what waits in it.
pub proof fn lemma_drained_within(queue: Seq<ExpressionRef>, limit: nat)
    requires
        all_within(queue, limit),
    ensures
        all_within(drain(queue), limit),
    decreases weight(queue),
{
    if queue.len() > 0 {
        let taken = queue.last();
        let rest = queue.drop_last();
        assert(taken.node().size() <= limit);
        assert forall|index: int| 0 <= index < rest.len() implies (#[trigger] rest[index]).node().size()
            <= limit by {
            assert(rest[index] == queue[index]);
        }
        if is_same(taken) {
            let next = unwrapped(taken) + rest;
            lemma_weight_of_joined(unwrapped(taken), rest);
            lemma_unwrapped_lighter(taken);
            lemma_unwrapped_within(taken);
            assert forall|index: int| 0 <= index < next.len() implies (#[trigger] next[index]).node().size()
                <= limit by {
                if index < unwrapped(taken).len() {
                    assert(next[index] == unwrapped(taken)[index]);
                } else {
                    assert(next[index] == rest[index - unwrapped(taken).len()]);
                }
            }
            lemma_drained_within(next, limit);
        } else {
            lemma_drained_within(rest, limit);
            let drained = drain(rest);
            assert forall|index: int| 0 <= index < drain(queue).len() implies (#[trigger] drain(
                queue,
            )[index]).node().size() <= limit by {
                if index > 0 {
                    assert(drain(queue)[index] == drained[index - 1]);
                }
            }
        }
    }
}

/// Each operand of an operation weighs less than the operation.
pub proof fn lemma_unwrapped_within(expression: ExpressionRef)
    ensures
        forall|index: int|
            0 <= index < unwrapped(expression).len() ==> (#[trigger] unwrapped(
                expression,
            )[index]).node().size() < expression.node().size(),
{
    match expression {
        ExpressionRef::InfixOperation(operation) => {
            lemma_expression_smaller(operation.node, 0);
            lemma_expression_smaller(operation.node, 1);
        },
        ExpressionRef::SuffixOperation(operation) => {
            lemma_expression_smaller(operation.node, 0);
        },
        _ => {},
    }
}

impl<'a> ExpressionRef<'a> {
    /// Whether the expression is an operation of the operator `,`.
    pub fn is_same_operation(self) -> (result: bool)
        ensures
            result == is_same(self),
    {
        match self {
            ExpressionRef::InfixOperation(operation) => matches!(
                operation.operator(),
                InfixOperator::Same
            ),
            ExpressionRef::SuffixOperation(operation) => matches!(
                operation.operator(),
                Some(SuffixOperator::Same)
            ),
            _ => false,
        }
    }

    /// Returns all subexpressions delimited with the same operator, in the
    /// order in which a descent level by level finds them.
    pub fn same_items(self) -> (result: Vec<ExpressionRef<'a>>)
        ensures
            result@ == items_of(self),
            all_within(result@, self.node().size()),
    {
        let mut expressions: VecDeque<ExpressionRef<'a>> = VecDeque::new();
        expressions.push_back(self);
        let mut items: Vec<ExpressionRef<'a>> = Vec::new();
        proof {
            assert(expressions@ =~= seq![self]);
            assert(items@ + drain(expressions@) =~= items_of(self));
        }
        while expressions.len() > 0
            invariant
                items@ + drain(expressions@) == items_of(self),
            decreases weight(expressions@),
        {
            let ghost queue = expressions@;
            let ghost rest = queue.drop_last();
            if let Some(expression) = expressions.pop_back() {
                proof {
                    assert(expressions@ =~= rest);
                    lemma_weight_of_joined(unwrapped(expression), rest);
                    lemma_unwrapped_lighter(expression);
                }
                if expression.is_same_operation() {
                    match expression {
                        ExpressionRef::InfixOperation(operation) => {
                            if let Some(left) = operation.left() {
                                expressions.push_front(left);
                            }
                            if let Some(right) = operation.right() {
                                expressions.push_front(right);
                            }
                        },
                        ExpressionRef::SuffixOperation(operation) => {
                            if let Some(left) = operation.left() {
                                expressions.push_front(left);
                            }
                        },
                        _ => {},
                    }
                    proof {
                        assert(expressions@ =~= unwrapped(expression) + rest);
                    }
                } else {
                    items.push(expression);
                    proof {
                        assert(items@ + drain(rest) =~= items@.drop_last() + (seq![expression]
                            + drain(rest)));
                    }
                }
            }
        }
        proof {
            assert(items@ + Seq::<ExpressionRef>::empty() =~= items@);
            assert(all_within(seq![self], self.node().size()));
            lemma_drained_within(seq![self], self.node().size());
        }
        items
    }
}

/// The items of a list: those of the expression between its brackets, none
/// where there is no expression.
pub open spec fn list_items<'a>(list: List<'a>) -> Seq<ExpressionRef<'a>> {
    match expression_of(list.node, 0) {
        Some(expression) => items_of(expression),
        None => Seq::empty(),
    }
}

impl<'a> List<'a> {
    /// Returns all the items of the list.
    pub fn items(&self) -> (result: Vec<ExpressionRef<'a>>)
        ensures
            result@ == list_items(*self),
            forall|index: int|
                0 <= index < result@.len() ==> (#[trigger] result@[index]).node().size()
                    < self.node.size(),
    {
        match self.expression() {
            Some(expression) => expression.same_items(),
            None => Vec::new(),
        }
    }
}

} // verus!
