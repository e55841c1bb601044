//! Arithmetic and logical operators applied by the executor.
//!
//! All cell arithmetic is unsigned `usize` arithmetic. Overflowing
//! operations wrap around modulo `usize::MAX + 1`; division and modulo by
//! zero are guarded and yield 0 (the guarded policy chosen for the two
//! operations whose mathematical result would be undefined).

use vstd::prelude::*;

verus! {

/// A binary operator: the left operand is the value popped second, the
/// right operand is the value popped first.
#[derive(Clone, Copy, Debug, PartialEq, Eq, Structural)]
pub enum BinOp {
    Add,
    Sub,
    Mul,
    Div,
    Mod,
    Gt,
}

/// What a binary operator returns: `a` is the left operand, `b` the right.
pub open spec fn bin_op_spec(op: BinOp, a: usize, b: usize) -> usize {
    match op {
        BinOp::Add => vstd::wrapping::usize_specs::wrapping_add(a, b),
        BinOp::Sub => vstd::wrapping::usize_specs::wrapping_sub(a, b),
        BinOp::Mul => vstd::wrapping::usize_specs::wrapping_mul(a, b),
        BinOp::Div => if b == 0 { 0usize } else { (a as int / b as int) as usize },
        BinOp::Mod => if b == 0 { 0usize } else { (a as int % b as int) as usize },
        BinOp::Gt => if a > b { 1usize } else { 0usize },
    }
}

/// What the logical-not operator returns.
pub open spec fn not_spec(v: usize) -> usize {
    if v == 0 { 1usize } else { 0usize }
}

/// Apply a binary operator; `a` is the left operand, `b` the right.
pub fn eval_bin(op: BinOp, a: usize, b: usize) -> (r: usize)
    ensures
        r == bin_op_spec(op, a, b),
{
    match op {
        BinOp::Add => a.wrapping_add(b),
        BinOp::Sub => a.wrapping_sub(b),
        BinOp::Mul => a.wrapping_mul(b),
        BinOp::Div => if b == 0 { 0 } else { a / b },
        BinOp::Mod => if b == 0 { 0 } else { a % b },
        BinOp::Gt => if a > b { 1 } else { 0 },
    }
}

/// Apply the logical-not operator: 1 for 0, 0 for anything else.
pub fn eval_not(v: usize) -> (r: usize)
    ensures
        r == not_spec(v),
{
    if v == 0 { 1 } else { 0 }
}

} // verus!
