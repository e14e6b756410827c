//! The closed set of IR operations.
use vstd::prelude::*;
use crate::types::{BlockLabel, Comparator, IntImmed, IntType, LValue, RValue};

verus! {

/// One IR operation. `Branch` and `Exit` are the terminators: exactly one of
/// them ends every basic block.
#[derive(Debug)]
pub enum Operation {
    Add(LValue, RValue<IntImmed>, RValue<IntImmed>, bool),
    Sub(LValue, RValue<IntImmed>, RValue<IntImmed>, bool),
    Mult(LValue, RValue<IntImmed>, RValue<IntImmed>, bool),
    Div(LValue, RValue<IntImmed>, RValue<IntImmed>, bool),
    Rem(LValue, RValue<IntImmed>, RValue<IntImmed>, bool),
    LShift(LValue, RValue<IntImmed>, RValue<IntImmed>),
    RShift(LValue, RValue<IntImmed>, RValue<IntImmed>, bool),
    SignExtend(LValue, RValue<IntImmed>, IntType),
    ZeroExtend(LValue, RValue<IntImmed>, IntType),
    And(LValue, RValue<IntImmed>, RValue<IntImmed>),
    Or(LValue, RValue<IntImmed>, RValue<IntImmed>),
    Xor(LValue, RValue<IntImmed>, RValue<IntImmed>),
    Not(LValue, RValue<IntImmed>),
    /// Reads host memory at a raw address.
    HostReadMem(LValue, RValue<IntImmed>),
    /// Writes host memory at a raw address.
    HostWriteMem(RValue<IntImmed>, RValue<IntImmed>),
    /// Reads guest memory; the byte gives the access width.
    GuestReadMem(LValue, RValue<IntImmed>, u8),
    /// Writes guest memory; the byte gives the access width.
    GuestWriteMem(RValue<IntImmed>, RValue<IntImmed>, u8),
    ICmp(LValue, Comparator, RValue<IntImmed>, RValue<IntImmed>),
    /// `Select(cond, dest, a, b)` stores `a` when `cond` is nonzero, else `b`.
    Select(RValue<IntImmed>, LValue, RValue<IntImmed>, RValue<IntImmed>),
    /// `Branch(cond, taken, not_taken)` continues at `taken` when `cond` is
    /// nonzero, else at `not_taken`.
    Branch(RValue<IntImmed>, BlockLabel, BlockLabel),
    Exit(u8),
}

impl Operation {
    /// Whether the operation may end a basic block.
    pub open spec fn is_terminator(self) -> bool {
        self is Branch || self is Exit
    }

    /// Whether the operation ends a basic block.
    pub fn terminates(&self) -> (r: bool)
        ensures
            r == self.is_terminator(),
    {
        match self {
            Operation::Branch(_, _, _) => true,
            Operation::Exit(_) => true,
            _ => false,
        }
    }
}

impl Clone for Operation {
    fn clone(&self) -> (r: Self)
        ensures
            r == *self,
    {
        match self {
            Operation::Add(d, a, b, s) => Operation::Add(*d, *a, *b, *s),
            Operation::Sub(d, a, b, s) => Operation::Sub(*d, *a, *b, *s),
            Operation::Mult(d, a, b, s) => Operation::Mult(*d, *a, *b, *s),
            Operation::Div(d, a, b, s) => Operation::Div(*d, *a, *b, *s),
            Operation::Rem(d, a, b, s) => Operation::Rem(*d, *a, *b, *s),
            Operation::LShift(d, a, b) => Operation::LShift(*d, *a, *b),
            Operation::RShift(d, a, b, s) => Operation::RShift(*d, *a, *b, *s),
            Operation::SignExtend(d, a, t) => Operation::SignExtend(*d, *a, *t),
            Operation::ZeroExtend(d, a, t) => Operation::ZeroExtend(*d, *a, *t),
            Operation::And(d, a, b) => Operation::And(*d, *a, *b),
            Operation::Or(d, a, b) => Operation::Or(*d, *a, *b),
            Operation::Xor(d, a, b) => Operation::Xor(*d, *a, *b),
            Operation::Not(d, a) => Operation::Not(*d, *a),
            Operation::HostReadMem(d, a) => Operation::HostReadMem(*d, *a),
            Operation::HostWriteMem(a, b) => Operation::HostWriteMem(*a, *b),
            Operation::GuestReadMem(d, a, w) => Operation::GuestReadMem(*d, *a, *w),
            Operation::GuestWriteMem(a, b, w) => Operation::GuestWriteMem(*a, *b, *w),
            Operation::ICmp(d, c, a, b) => Operation::ICmp(*d, *c, *a, *b),
            Operation::Select(c, d, a, b) => Operation::Select(*c, *d, *a, *b),
            Operation::Branch(c, t, n) => Operation::Branch(*c, t.clone(), n.clone()),
            Operation::Exit(code) => Operation::Exit(*code),
        }
    }
}

/// A copy of a sequence of operations.
pub fn clone_ops(ops: &Vec<Operation>) -> (r: Vec<Operation>)
    ensures
        r@ == ops@,
{
    let mut r: Vec<Operation> = Vec::new();
    let mut i: usize = 0;
    while i < ops.len()
        invariant
            i <= ops@.len(),
            r@ == ops@.subrange(0, i as int),
        decreases ops@.len() - i,
    {
        r.push(ops[i].clone());
        i += 1;
    }
    assert(r@ =~= ops@);
    r
}

} // verus!
