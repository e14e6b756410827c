//! Basic blocks and the builder that produces them.
use vstd::prelude::*;
use crate::ops::Operation;
use crate::types::{BlockLabel, Comparator, IntImmed, IntType, LValue, RValue};

verus! {

/// Whether a sequence of operations is a terminated block: it is not empty and
/// its last operation is a terminator.
pub open spec fn is_terminated(ops: Seq<Operation>) -> bool {
    ops.len() > 0 && ops.last().is_terminator()
}

/// An append-only sequence of operations.
#[derive(Debug)]
pub struct InstructionStream {
    ops: Vec<Operation>,
}

impl View for InstructionStream {
    type V = Seq<Operation>;

    closed spec fn view(&self) -> Seq<Operation> {
        self.ops@
    }
}

impl InstructionStream {
    /// An empty stream.
    pub fn new() -> (r: Self)
        ensures
            r@ == Seq::<Operation>::empty(),
    {
        InstructionStream { ops: Vec::new() }
    }

    /// Appends one operation.
    pub fn push(&mut self, op: Operation)
        ensures
            final(self)@ == old(self)@.push(op),
    {
        self.ops.push(op);
    }

    /// The operations, in order.
    pub fn to_vec(&self) -> (r: &Vec<Operation>)
        ensures
            r@ == self@,
    {
        &self.ops
    }

    /// Whether the stream ends in a terminator.
    pub fn validate(&self) -> (r: bool)
        ensures
            r == is_terminated(self@),
    {
        let n = self.ops.len();
        if n == 0 {
            false
        } else {
            self.ops[n - 1].terminates()
        }
    }
}

/// A terminated, immutable sequence of operations. Only the builder makes one,
/// so every `BasicBlock` ends in exactly its terminator.
#[derive(Debug)]
pub struct BasicBlock {
    stream: InstructionStream,
}

impl View for BasicBlock {
    type V = Seq<Operation>;

    closed spec fn view(&self) -> Seq<Operation> {
        self.stream@
    }
}

impl BasicBlock {
    #[verifier::type_invariant]
    spec fn terminated(self) -> bool {
        is_terminated(self.stream@)
    }

    /// A builder with no operations yet.
    pub fn builder() -> (r: BasicBlockBuilder)
        ensures
            r@ == Seq::<Operation>::empty(),
    {
        BasicBlockBuilder { stream: InstructionStream::new() }
    }

    /// The operations of the block, the terminator last.
    pub fn to_vec(&self) -> (r: &Vec<Operation>)
        ensures
            r@ == self@,
            is_terminated(r@),
    {
        proof {
            use_type_invariant(self);
        }
        self.stream.to_vec()
    }

    /// Whether the block ends in a terminator; every block that exists does.
    pub fn validate(&self) -> (r: bool)
        ensures
            r == is_terminated(self@),
            r,
    {
        proof {
            use_type_invariant(self);
        }
        self.stream.validate()
    }
}

impl Clone for BasicBlock {
    fn clone(&self) -> (r: Self)
        ensures
            r@ == self@,
    {
        proof {
            use_type_invariant(self);
        }
        BasicBlock { stream: InstructionStream { ops: crate::ops::clone_ops(&self.stream.ops) } }
    }
}

/// Accumulates non-terminating operations; `finish_branch` or `finish_exit`
/// appends the terminator and yields the block.
#[derive(Debug)]
pub struct BasicBlockBuilder {
    stream: InstructionStream,
}

impl View for BasicBlockBuilder {
    type V = Seq<Operation>;

    closed spec fn view(&self) -> Seq<Operation> {
        self.stream@
    }
}

impl BasicBlockBuilder {
    /// Appends `Add`.
    pub fn add(
        &mut self,
        dest: LValue,
        arg1: RValue<IntImmed>,
        arg2: RValue<IntImmed>,
        signed: bool,
    )
        ensures
            final(self)@ == old(self)@.push(Operation::Add(dest, arg1, arg2, signed)),
    {
        self.stream.push(Operation::Add(dest, arg1, arg2, signed));
    }

    /// Appends `Sub`.
    pub fn sub(
        &mut self,
        dest: LValue,
        arg1: RValue<IntImmed>,
        arg2: RValue<IntImmed>,
        signed: bool,
    )
        ensures
            final(self)@ == old(self)@.push(Operation::Sub(dest, arg1, arg2, signed)),
    {
        self.stream.push(Operation::Sub(dest, arg1, arg2, signed));
    }

    /// Appends `Mult`.
    pub fn mult(
        &mut self,
        dest: LValue,
        arg1: RValue<IntImmed>,
        arg2: RValue<IntImmed>,
        signed: bool,
    )
        ensures
            final(self)@ == old(self)@.push(Operation::Mult(dest, arg1, arg2, signed)),
    {
        self.stream.push(Operation::Mult(dest, arg1, arg2, signed));
    }

    /// Appends `Div`.
    pub fn div(
        &mut self,
        dest: LValue,
        arg1: RValue<IntImmed>,
        arg2: RValue<IntImmed>,
        signed: bool,
    )
        ensures
            final(self)@ == old(self)@.push(Operation::Div(dest, arg1, arg2, signed)),
    {
        self.stream.push(Operation::Div(dest, arg1, arg2, signed));
    }

    /// Appends `Rem`.
    pub fn rem(
        &mut self,
        dest: LValue,
        arg1: RValue<IntImmed>,
        arg2: RValue<IntImmed>,
        signed: bool,
    )
        ensures
            final(self)@ == old(self)@.push(Operation::Rem(dest, arg1, arg2, signed)),
    {
        self.stream.push(Operation::Rem(dest, arg1, arg2, signed));
    }

    /// Appends `LShift`.
    pub fn shift_left(
        &mut self,
        dest: LValue,
        arg1: RValue<IntImmed>,
        arg2: RValue<IntImmed>,
    )
        ensures
            final(self)@ == old(self)@.push(Operation::LShift(dest, arg1, arg2)),
    {
        self.stream.push(Operation::LShift(dest, arg1, arg2));
    }

    /// Appends `RShift`.
    pub fn shift_right(
        &mut self,
        dest: LValue,
        arg1: RValue<IntImmed>,
        arg2: RValue<IntImmed>,
        signed: bool,
    )
        ensures
            final(self)@ == old(self)@.push(Operation::RShift(dest, arg1, arg2, signed)),
    {
        self.stream.push(Operation::RShift(dest, arg1, arg2, signed));
    }

    /// Appends `SignExtend`.
    pub fn sign_extend(
        &mut self,
        dest: LValue,
        arg1: RValue<IntImmed>,
        ty: IntType,
    )
        ensures
            final(self)@ == old(self)@.push(Operation::SignExtend(dest, arg1, ty)),
    {
        self.stream.push(Operation::SignExtend(dest, arg1, ty));
    }

    /// Appends `ZeroExtend`.
    pub fn zero_extend(
        &mut self,
        dest: LValue,
        arg1: RValue<IntImmed>,
        ty: IntType,
    )
        ensures
            final(self)@ == old(self)@.push(Operation::ZeroExtend(dest, arg1, ty)),
    {
        self.stream.push(Operation::ZeroExtend(dest, arg1, ty));
    }

    /// Appends `And`.
    pub fn and(
        &mut self,
        dest: LValue,
        arg1: RValue<IntImmed>,
        arg2: RValue<IntImmed>,
    )
        ensures
            final(self)@ == old(self)@.push(Operation::And(dest, arg1, arg2)),
    {
        self.stream.push(Operation::And(dest, arg1, arg2));
    }

    /// Appends `Or`.
    pub fn or(
        &mut self,
        dest: LValue,
        arg1: RValue<IntImmed>,
        arg2: RValue<IntImmed>,
    )
        ensures
            final(self)@ == old(self)@.push(Operation::Or(dest, arg1, arg2)),
    {
        self.stream.push(Operation::Or(dest, arg1, arg2));
    }

    /// Appends `Xor`.
    pub fn xor(
        &mut self,
        dest: LValue,
        arg1: RValue<IntImmed>,
        arg2: RValue<IntImmed>,
    )
        ensures
            final(self)@ == old(self)@.push(Operation::Xor(dest, arg1, arg2)),
    {
        self.stream.push(Operation::Xor(dest, arg1, arg2));
    }

    /// Appends `Not`.
    pub fn not(
        &mut self,
        dest: LValue,
        arg1: RValue<IntImmed>,
    )
        ensures
            final(self)@ == old(self)@.push(Operation::Not(dest, arg1)),
    {
        self.stream.push(Operation::Not(dest, arg1));
    }

    /// Appends `GuestReadMem`.
    pub fn guest_mem_read(
        &mut self,
        dest: LValue,
        arg1: RValue<IntImmed>,
        width: u8,
    )
        ensures
            final(self)@ == old(self)@.push(Operation::GuestReadMem(dest, arg1, width)),
    {
        self.stream.push(Operation::GuestReadMem(dest, arg1, width));
    }

    /// Appends `GuestWriteMem`.
    pub fn guest_mem_write(
        &mut self,
        arg1: RValue<IntImmed>,
        arg2: RValue<IntImmed>,
        width: u8,
    )
        ensures
            final(self)@ == old(self)@.push(Operation::GuestWriteMem(arg1, arg2, width)),
    {
        self.stream.push(Operation::GuestWriteMem(arg1, arg2, width));
    }

    /// Appends `ICmp`.
    pub fn int_cmp(
        &mut self,
        dest: LValue,
        cmp: Comparator,
        arg1: RValue<IntImmed>,
        arg2: RValue<IntImmed>,
    )
        ensures
            final(self)@ == old(self)@.push(Operation::ICmp(dest, cmp, arg1, arg2)),
    {
        self.stream.push(Operation::ICmp(dest, cmp, arg1, arg2));
    }

    /// Appends `Select`.
    pub fn select(
        &mut self,
        cond: RValue<IntImmed>,
        dest: LValue,
        arg1: RValue<IntImmed>,
        arg2: RValue<IntImmed>,
    )
        ensures
            final(self)@ == old(self)@.push(Operation::Select(cond, dest, arg1, arg2)),
    {
        self.stream.push(Operation::Select(cond, dest, arg1, arg2));
    }

    /// Ends the block with `Branch(cond, label_taken, label_not_taken)`.
    pub fn finish_branch(
        self,
        cond: RValue<IntImmed>,
        label_taken: BlockLabel,
        label_not_taken: BlockLabel,
    ) -> (r: BasicBlock)
        ensures
            r@ == self@.push(Operation::Branch(cond, label_taken, label_not_taken)),
            is_terminated(r@),
    {
        let mut stream = self.stream;
        stream.push(Operation::Branch(cond, label_taken, label_not_taken));
        BasicBlock { stream }
    }

    /// Ends the block with `Exit(code)`.
    pub fn finish_exit(self, code: u8) -> (r: BasicBlock)
        ensures
            r@ == self@.push(Operation::Exit(code)),
            is_terminated(r@),
    {
        let mut stream = self.stream;
        stream.push(Operation::Exit(code));
        BasicBlock { stream }
    }
}

/// A builder that may also append host-memory operations, which bypass guest
/// address-space semantics. It is a separate type so that such blocks are
/// marked where they are built.
#[derive(Debug)]
pub struct UnsafeBasicBlock {
    builder: BasicBlockBuilder,
}

impl View for UnsafeBasicBlock {
    type V = Seq<Operation>;

    closed spec fn view(&self) -> Seq<Operation> {
        self.builder@
    }
}

impl UnsafeBasicBlock {
    /// Continues `builder` with host-memory operations allowed.
    pub fn from_builder(builder: BasicBlockBuilder) -> (r: Self)
        ensures
            r@ == builder@,
    {
        UnsafeBasicBlock { builder }
    }

    /// Appends `HostReadMem(dest, arg1)`.
    pub fn host_mem_read(&mut self, dest: LValue, arg1: RValue<IntImmed>)
        ensures
            final(self)@ == old(self)@.push(Operation::HostReadMem(dest, arg1)),
    {
        self.builder.stream.push(Operation::HostReadMem(dest, arg1));
    }

    /// Appends `HostWriteMem(arg1, arg2)`.
    pub fn host_mem_write(&mut self, arg1: RValue<IntImmed>, arg2: RValue<IntImmed>)
        ensures
            final(self)@ == old(self)@.push(Operation::HostWriteMem(arg1, arg2)),
    {
        self.builder.stream.push(Operation::HostWriteMem(arg1, arg2));
    }

    /// Goes back to the ordinary builder, keeping every operation so far.
    pub fn into_builder(self) -> (r: BasicBlockBuilder)
        ensures
            r@ == self@,
    {
        self.builder
    }
}

} // verus!
