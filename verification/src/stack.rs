//! The data stack: a LIFO of unsigned cell values.
//!
//! Underflow is absorbed by design: popping an empty stack yields 0 and
//! never fails.

use vstd::prelude::*;

use crate::ops;
use crate::ops::BinOp;

verus! {

/// LIFO stack of cell values; the view is the sequence of values with the
/// top of the stack last.
#[derive(Debug)]
pub struct Stack(Vec<usize>);

impl View for Stack {
    type V = Seq<usize>;

    closed spec fn view(&self) -> Seq<usize> {
        self.0@
    }
}

impl Stack {
    /// A fresh, empty stack.
    pub fn new() -> (s: Stack)
        ensures
            s@ == Seq::<usize>::empty(),
    {
        Stack(Vec::<usize>::new())
    }

    /// The values on the stack, bottom first, top of the stack last.
    pub fn values(&self) -> (r: Vec<usize>)
        ensures
            r@ == self@,
    {
        let mut r: Vec<usize> = Vec::new();
        let mut i: usize = 0;
        while i < self.0.len()
            invariant
                i <= self.0.len(),
                r@ == self.0@.take(i as int),
            decreases self.0.len() - i,
        {
            r.push(self.0[i]);
            i += 1;
            proof {
                assert(r@ =~= self.0@.take(i as int));
            }
        }
        proof {
            assert(r@ =~= self@);
        }
        r
    }

    /// Push a value onto the top of the stack.
    pub fn push(&mut self, item: usize)
        ensures
            final(self)@ == old(self)@.push(item),
    {
        self.0.push(item);
    }

    /// Pop the top of the stack; an empty stack yields 0 and stays empty.
    pub fn pop(&mut self) -> (r: usize)
        ensures
            old(self)@.len() == 0 ==> r == 0 && final(self)@ == old(self)@,
            old(self)@.len() > 0 ==> r == old(self)@.last() && final(self)@ == old(self)@.drop_last(),
    {
        match self.0.pop() {
            Some(x) => x,
            None => 0,
        }
    }

    /// Pop once and push the popped value twice, so the duplicate sits on
    /// top and the order beneath is preserved. On an empty stack the
    /// absorbed underflow duplicates a 0.
    pub fn dupe(&mut self)
        ensures
            final(self)@ == duped(old(self)@),
    {
        let item = self.pop();
        let duplicate = item;
        self.push(item);
        self.push(duplicate);
        proof {
            assert(final(self)@ =~= duped(old(self)@));
        }
    }

    /// Pop two values and push them back in reversed order, exchanging
    /// which is on top; absorbed underflow supplies 0s.
    pub fn swap(&mut self)
        ensures
            final(self)@ == swapped(old(self)@),
    {
        let item1 = self.pop();
        let item2 = self.pop();
        self.push(item1);
        self.push(item2);
        proof {
            assert(final(self)@ =~= swapped(old(self)@));
        }
    }

    /// Pop the right operand, then the left, and push the operator's
    /// result: the value popped second is the left-hand operand.
    pub fn apply(&mut self, op: BinOp)
        ensures
            final(self)@ == stack_after_bin(old(self)@, op),
    {
        let b = self.pop();
        let a = self.pop();
        let result = ops::eval_bin(op, a, b);
        self.push(result);
        proof {
            assert(final(self)@ =~= stack_after_bin(old(self)@, op));
        }
    }

    /// Pop one value and push the logical-not of it.
    pub fn apply_not(&mut self)
        ensures
            final(self)@ == stack_after_not(old(self)@),
    {
        let v = self.pop();
        let result = ops::eval_not(v);
        self.push(result);
        proof {
            assert(final(self)@ =~= stack_after_not(old(self)@));
        }
    }
}

impl Clone for Stack {
    /// An exact copy: the clone holds the same values in the same order.
    fn clone(&self) -> (r: Self)
        ensures
            r@ == self@,
    {
        Stack(self.values())
    }
}

/// The top of a stack, with absorbed underflow: 0 when the stack is empty.
pub open spec fn top_or_zero(s: Seq<usize>) -> usize {
    if s.len() == 0 {
        0usize
    } else {
        s.last()
    }
}

/// A stack with its top removed; removing from an empty stack is a no-op.
pub open spec fn popped(s: Seq<usize>) -> Seq<usize> {
    if s.len() == 0 {
        s
    } else {
        s.drop_last()
    }
}

/// A stack after duplicating its top: the (absorbed-underflow) top popped
/// once and pushed twice.
pub open spec fn duped(s: Seq<usize>) -> Seq<usize> {
    popped(s).push(top_or_zero(s)).push(top_or_zero(s))
}

/// A stack after swapping its top two (absorbed-underflow) values: the
/// old top ends up beneath the value that was under it.
pub open spec fn swapped(s: Seq<usize>) -> Seq<usize> {
    popped(popped(s)).push(top_or_zero(s)).push(top_or_zero(popped(s)))
}

/// The stack left after applying a binary operator: the right operand is
/// popped first, the left second, and the result is pushed.
pub open spec fn stack_after_bin(s: Seq<usize>, op: BinOp) -> Seq<usize> {
    let b = top_or_zero(s);
    let a = top_or_zero(popped(s));
    popped(popped(s)).push(ops::bin_op_spec(op, a, b))
}

/// The stack left after applying the logical-not operator.
pub open spec fn stack_after_not(s: Seq<usize>) -> Seq<usize> {
    popped(s).push(ops::not_spec(top_or_zero(s)))
}

} // verus!
