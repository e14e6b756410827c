//! The reference interpreter backend: walks the IR directly against live host
//! state, one block at a time.
use vstd::prelude::*;
use std::rc::Rc;
use crate::backend::{Compiler, Executable};
use crate::ops::Operation;
use crate::reg::{le_byte, pow256, Register, RegisterMap};
use crate::types::{
    lemma_upcast_same_type, lemma_wrap_mod64, modulus64, spec_upcast, BlockLabel, Comparator,
    IntImmed, IntType, LValue, RValue,
};
use crate::unit::{TranslationUnit, UnitModel};
use vstd::arithmetic::power2::pow2;

verus! {

/// Why a run stopped before reaching an exit.
#[derive(Debug, Clone, Copy, PartialEq, Eq, Structural)]
pub enum ExecFault {
    /// The interpreter does not implement this operation.
    UnsupportedOperation,
    /// Scratch locations are not implemented.
    ScratchRegister,
    /// The register index is not in the table, or the register lies outside the state.
    UnknownRegister,
    /// Integer division or remainder by zero.
    DivideByZero,
    /// A branch names a label that the unit does not have.
    UnknownLabel,
    /// The unit has no entry block.
    NoEntrypoint,
    /// A block ran out of operations without a terminator.
    FellThrough,
    /// The run entered more blocks than it was allowed.
    StepLimit,
}

/// The faults that stop execution fatally: integer division or remainder by
/// zero, a block without a terminator, a unit without an entry block, and a
/// scratch location. A unit is expected to be checked by its producer, so runs
/// that would meet one of these are left out by the preconditions.
pub open spec fn is_fatal(e: ExecFault) -> bool {
    e == ExecFault::DivideByZero || e == ExecFault::FellThrough || e == ExecFault::NoEntrypoint
        || e == ExecFault::ScratchRegister
}

/// Whether an outcome is a fatal fault.
pub open spec fn ends_fatally(a: ExitAction) -> bool {
    a matches ExitAction::Fault(e) && is_fatal(e)
}

/// Whether a run ends in a fatal fault.
pub open spec fn run_is_fatal(r: Result<(), ExecFault>) -> bool {
    r matches Err(e) && is_fatal(e)
}

/// What happens after one operation.
#[derive(Debug, Clone, Copy, PartialEq, Eq, Structural)]
pub enum ExitAction {
    /// Go on with the next operation of the block.
    Next,
    /// Continue at the start of the block at this position.
    BranchTo(usize),
    /// Stop; the code is not reported.
    Exit(u8),
    /// Stop with a fault.
    Fault(ExecFault),
}

/// The arithmetic and bitwise operations on two operands.
#[derive(Debug, Clone, Copy, PartialEq, Eq, Structural)]
pub enum BinaryOp {
    Add,
    Sub,
    Mult,
    Div,
    Rem,
    And,
    Or,
    Xor,
    /// Shift left; the operands are read unsigned.
    LShift,
    /// Shift right; arithmetic when signed, logical otherwise.
    RShift,
}

/// The type arithmetic is done in: `Bool` operands are computed on as 8-bit values.
pub open spec fn arith_type(t: IntType) -> IntType {
    if t == IntType::Bool {
        IntType::I8
    } else {
        t
    }
}

/// |a|.
pub open spec fn abs(a: int) -> nat {
    if a >= 0 {
        a as nat
    } else {
        (-a) as nat
    }
}

/// Quotient rounded toward zero.
pub open spec fn trunc_div(a: int, b: int) -> int {
    if (a >= 0) == (b > 0) {
        (abs(a) / abs(b)) as int
    } else {
        -((abs(a) / abs(b)) as int)
    }
}

/// Remainder of the quotient rounded toward zero; it has the sign of `a`.
pub open spec fn trunc_rem(a: int, b: int) -> int {
    if a >= 0 {
        (abs(a) % abs(b)) as int
    } else {
        -((abs(a) % abs(b)) as int)
    }
}

/// The result of a binary operation: both operands are upcast to their common
/// width (sign- or zero-extended as `signed` says), the result wraps modulo
/// 2^width, and division or remainder by zero is a fault. A shift by the width
/// or more gives what shifting one bit at a time would: zero, or for a signed
/// right shift of a negative value, all ones.
pub open spec fn spec_binary(op: BinaryOp, a: IntImmed, b: IntImmed, signed: bool) -> Result<
    IntImmed,
    ExecFault,
> {
    let p = spec_upcast(a, b, signed);
    let t = arith_type(p.0.ty());
    let x = p.0.value() as int;
    let y = p.1.value() as int;
    let sx = p.0.signed_value();
    let sy = p.1.signed_value();
    match op {
        BinaryOp::Add => Ok(t.wrap(x + y)),
        BinaryOp::Sub => Ok(t.wrap(x - y)),
        BinaryOp::Mult => Ok(t.wrap(x * y)),
        BinaryOp::Div => if y == 0 {
            Err(ExecFault::DivideByZero)
        } else if signed {
            Ok(t.wrap(trunc_div(sx, sy)))
        } else {
            Ok(t.wrap(x / y))
        },
        BinaryOp::Rem => if y == 0 {
            Err(ExecFault::DivideByZero)
        } else if signed {
            Ok(t.wrap(trunc_rem(sx, sy)))
        } else {
            Ok(t.wrap(x % y))
        },
        BinaryOp::And => Ok(t.wrap((x as u64 & y as u64) as int)),
        BinaryOp::Or => Ok(t.wrap((x as u64 | y as u64) as int)),
        BinaryOp::Xor => Ok(t.wrap((x as u64 ^ y as u64) as int)),
        BinaryOp::LShift => if y >= t.bits() {
            Ok(t.wrap(0))
        } else {
            Ok(t.wrap(x * pow2(y as nat)))
        },
        BinaryOp::RShift => if signed {
            if y >= t.bits() {
                Ok(
                    t.wrap(
                        if sx < 0 {
                            -1
                        } else {
                            0
                        },
                    ),
                )
            } else {
                Ok(t.wrap(sx / (pow2(y as nat) as int)))
            }
        } else if y >= t.bits() {
            Ok(t.wrap(0))
        } else {
            Ok(t.wrap(x / (pow2(y as nat) as int)))
        },
    }
}

/// For two values of one integer width w, `Add` and `Sub` give (a + b) mod 2^w
/// and (a - b) mod 2^w, and reading them signed or unsigned gives the same
/// result.
pub proof fn lemma_add_sub_wrap(a: IntImmed, b: IntImmed, signed: bool)
    requires
        a.ty() == b.ty(),
        a.ty() != IntType::Bool,
    ensures
        spec_binary(BinaryOp::Add, a, b, signed) matches Ok(r) && r.ty() == a.ty() && r.value() as int == (
        a.value() as int + b.value() as int) % a.ty().modulus(),
        spec_binary(BinaryOp::Sub, a, b, signed) matches Ok(r) && r.ty() == a.ty() && r.value() as int == (
        a.value() as int - b.value() as int) % a.ty().modulus(),
        spec_binary(BinaryOp::Add, a, b, signed) == spec_binary(BinaryOp::Add, a, b, !signed),
        spec_binary(BinaryOp::Sub, a, b, signed) == spec_binary(BinaryOp::Sub, a, b, !signed),
{
    crate::types::lemma_wrap_interp(a, signed);
    crate::types::lemma_wrap_interp(b, signed);
    crate::types::lemma_wrap_interp(a, !signed);
    crate::types::lemma_wrap_interp(b, !signed);
}

/// Byte `k` of a number depends only on its residue modulo 256^n when k < n.
proof fn lemma_le_byte_mod(x1: nat, x2: nat, n: nat, k: nat)
    requires
        k < n,
        x1 % pow256(n) == x2 % pow256(n),
    ensures
        le_byte(x1, k) == le_byte(x2, k),
{
    crate::reg::lemma_pow256_positive(k);
    crate::reg::lemma_pow256_positive((n - k - 1) as nat);
    let p = pow256(k) as int;
    let rest = pow256((n - k - 1) as nat) as int;
    assert(pow256(n) == p * 256 * rest) by {
        lemma_pow256_adds(k, (n - k - 1) as nat);
    }
    vstd::arithmetic::div_mod::lemma_mod_mod(x1 as int, p * 256, rest);
    vstd::arithmetic::div_mod::lemma_mod_mod(x2 as int, p * 256, rest);
    vstd::arithmetic::div_mod::lemma_mod_mod(x1 as int, p, 256);
    vstd::arithmetic::div_mod::lemma_mod_mod(x2 as int, p, 256);
    vstd::arithmetic::div_mod::lemma_mod_breakdown(x1 as int, p, 256);
    vstd::arithmetic::div_mod::lemma_mod_breakdown(x2 as int, p, 256);
    let a1 = (x1 as int / p) % 256;
    let a2 = (x2 as int / p) % 256;
    assert(a1 == a2) by (nonlinear_arith)
        requires
            p * a1 == p * a2,
            p > 0,
    ;
}

/// 256^(a + 1 + b) == 256^a * 256 * 256^b.
proof fn lemma_pow256_adds(a: nat, b: nat)
    ensures
        pow256(a + 1 + b) == pow256(a) * 256 * pow256(b),
    decreases a,
{
    if a == 0 {
        assert(pow256(1 + b) == 256 * pow256(b));
    } else {
        lemma_pow256_adds((a - 1) as nat, b);
        assert(pow256(a + 1 + b) == 256 * pow256((a - 1 + 1 + b) as nat));
        assert(pow256(a) == 256 * pow256((a - 1) as nat));
        assert(256 * (pow256((a - 1) as nat) * 256 * pow256(b)) == (256 * pow256((a - 1) as nat))
            * 256 * pow256(b)) by (nonlinear_arith);
    }
}

/// `Add` and `Sub` of two values of one integer width, stored into a register
/// of that width, leave the same state whether they are marked signed or not:
/// signedness changes how a bit pattern is read, never what is stored.
pub proof fn lemma_add_sub_store_same(
    regs: Seq<Register>,
    bytes: Seq<u8>,
    op: BinaryOp,
    r: u8,
    a: RValue<IntImmed>,
    b: RValue<IntImmed>,
)
    requires
        op == BinaryOp::Add || op == BinaryOp::Sub,
        eval_rvalue(regs, bytes, a) matches Ok(x) && eval_rvalue(regs, bytes, b) matches Ok(y)
            && x.ty() == y.ty() && x.ty() != IntType::Bool && (r as nat) < regs.len()
            && regs[r as int].ty.int_type() == x.ty(),
    ensures
        spec_binary_op(regs, bytes, op, LValue::Register(r), a, b, true) == spec_binary_op(
            regs,
            bytes,
            op,
            LValue::Register(r),
            a,
            b,
            false,
        ),
{
    let x = eval_rvalue(regs, bytes, a).unwrap();
    let y = eval_rvalue(regs, bytes, b).unwrap();
    lemma_add_sub_wrap(x, y, true);
    let v = spec_binary(op, x, y, true).unwrap();
    lemma_store_bits_same_bytes(regs[r as int], bytes, v);
}

/// 256^width of a register type is the modulus of its integer type.
proof fn lemma_pow256_width(t: crate::reg::RegisterType)
    ensures
        pow256(t.width()) == t.int_type().modulus(),
{
    reveal_with_fuel(pow256, 9);
}

/// Storing a value sign-extended or zero-extended writes the same bytes into a
/// register of its own width.
proof fn lemma_store_bits_same_bytes(reg: Register, bytes: Seq<u8>, v: IntImmed)
    requires
        reg.ty.int_type() == v.ty(),
    ensures
        reg.spec_write(bytes, store_bits(v, true)) == reg.spec_write(bytes, store_bits(v, false)),
{
    let w = reg.ty.width();
    lemma_pow256_width(reg.ty);
    let m = v.ty().modulus();
    let k64 = modulus64() / m;
    assert(m * k64 == modulus64());
    vstd::arithmetic::div_mod::lemma_mod_mod(v.interp(true), m, k64);
    vstd::arithmetic::div_mod::lemma_mod_mod(v.interp(false), m, k64);
    assert(v.interp(true) % m == v.interp(false) % m);
    let s1 = store_bits(v, true);
    let s2 = store_bits(v, false);
    assert forall|k: nat| k < w implies le_byte(s1 as nat, k) == le_byte(s2 as nat, k) by {
        lemma_le_byte_mod(s1 as nat, s2 as nat, w, k);
    }
    if reg.fits(bytes.len()) {
        assert(reg.spec_write(bytes, s1).unwrap() =~= reg.spec_write(bytes, s2).unwrap());
    }
}

/// Bitwise complement at the operand's width; logical negation of a `Bool`.
pub open spec fn spec_not(a: IntImmed) -> IntImmed {
    match a {
        IntImmed::Bool(b) => IntImmed::Bool(!b),
        _ => a.ty().wrap((!(a.value() as u64)) as int),
    }
}

/// Whether a comparator reads its operands as signed.
pub open spec fn cmp_signed(cmp: Comparator) -> bool {
    cmp == Comparator::SLT || cmp == Comparator::SGT
}

/// The outcome of comparing two values after upcasting them.
pub open spec fn spec_compare(cmp: Comparator, a: IntImmed, b: IntImmed) -> bool {
    let p = spec_upcast(a, b, cmp_signed(cmp));
    match cmp {
        Comparator::EQ => p.0.value() == p.1.value(),
        Comparator::NEQ => p.0.value() != p.1.value(),
        Comparator::SLT => p.0.signed_value() < p.1.signed_value(),
        Comparator::SGT => p.0.signed_value() > p.1.signed_value(),
        Comparator::ULT => p.0.value() < p.1.value(),
        Comparator::UGT => p.0.value() > p.1.value(),
    }
}

/// The 64-bit word stored for a result: sign-extended when `signed`, else
/// zero-extended.
pub open spec fn store_bits(v: IntImmed, signed: bool) -> u64 {
    (v.interp(signed) % modulus64()) as u64
}

/// The value of an operand in the state.
pub open spec fn eval_rvalue(regs: Seq<Register>, bytes: Seq<u8>, rv: RValue<IntImmed>) -> Result<
    IntImmed,
    ExecFault,
> {
    match rv {
        RValue::Immediate(i) => Ok(i),
        RValue::LValue(LValue::Scratch(_)) => Err(ExecFault::ScratchRegister),
        RValue::LValue(LValue::Register(r)) => if (r as nat) < regs.len() {
            match regs[r as int].spec_read(bytes) {
                Some(v) => Ok(v),
                None => Err(ExecFault::UnknownRegister),
            }
        } else {
            Err(ExecFault::UnknownRegister)
        },
    }
}

/// The state bytes after storing `v` in `dest`.
pub open spec fn spec_store(
    regs: Seq<Register>,
    bytes: Seq<u8>,
    dest: LValue,
    v: IntImmed,
    signed: bool,
) -> Result<Seq<u8>, ExecFault> {
    match dest {
        LValue::Scratch(_) => Err(ExecFault::ScratchRegister),
        LValue::Register(r) => if (r as nat) < regs.len() {
            match regs[r as int].spec_write(bytes, store_bits(v, signed)) {
                Some(b) => Ok(b),
                None => Err(ExecFault::UnknownRegister),
            }
        } else {
            Err(ExecFault::UnknownRegister)
        },
    }
}

/// Stores a computed value, or passes a fault on; the state is unchanged on a fault.
pub open spec fn spec_finish(
    regs: Seq<Register>,
    bytes: Seq<u8>,
    dest: LValue,
    v: Result<IntImmed, ExecFault>,
    signed: bool,
) -> (Seq<u8>, ExitAction) {
    match v {
        Err(e) => (bytes, ExitAction::Fault(e)),
        Ok(v) => match spec_store(regs, bytes, dest, v, signed) {
            Ok(b) => (b, ExitAction::Next),
            Err(e) => (bytes, ExitAction::Fault(e)),
        },
    }
}

/// Evaluates two operands, the first fault winning.
pub open spec fn eval_pair(
    regs: Seq<Register>,
    bytes: Seq<u8>,
    a: RValue<IntImmed>,
    b: RValue<IntImmed>,
) -> Result<(IntImmed, IntImmed), ExecFault> {
    match eval_rvalue(regs, bytes, a) {
        Err(e) => Err(e),
        Ok(x) => match eval_rvalue(regs, bytes, b) {
            Err(e) => Err(e),
            Ok(y) => Ok((x, y)),
        },
    }
}

/// A binary operation from operands to stored result.
pub open spec fn spec_binary_op(
    regs: Seq<Register>,
    bytes: Seq<u8>,
    op: BinaryOp,
    dest: LValue,
    a: RValue<IntImmed>,
    b: RValue<IntImmed>,
    signed: bool,
) -> (Seq<u8>, ExitAction) {
    let v = match eval_pair(regs, bytes, a, b) {
        Err(e) => Err(e),
        Ok(p) => spec_binary(op, p.0, p.1, signed),
    };
    spec_finish(regs, bytes, dest, v, signed)
}

/// A unary operation from operand to stored result.
pub open spec fn spec_unary_op(
    regs: Seq<Register>,
    bytes: Seq<u8>,
    dest: LValue,
    a: RValue<IntImmed>,
    f: spec_fn(IntImmed) -> IntImmed,
    signed: bool,
) -> (Seq<u8>, ExitAction) {
    let v = match eval_rvalue(regs, bytes, a) {
        Err(e) => Err(e),
        Ok(x) => Ok(f(x)),
    };
    spec_finish(regs, bytes, dest, v, signed)
}

/// The block a branch continues at.
pub open spec fn spec_branch(
    unit: UnitModel,
    regs: Seq<Register>,
    bytes: Seq<u8>,
    cond: RValue<IntImmed>,
    taken: BlockLabel,
    not_taken: BlockLabel,
) -> ExitAction {
    match eval_rvalue(regs, bytes, cond) {
        Err(e) => ExitAction::Fault(e),
        Ok(c) => {
            let label = if c.value() != 0 {
                taken@
            } else {
                not_taken@
            };
            if unit.labels.contains_key(label) {
                ExitAction::BranchTo(unit.labels[label] as usize)
            } else {
                ExitAction::Fault(ExecFault::UnknownLabel)
            }
        },
    }
}

/// One operation: the state bytes after it and what comes next.
#[verifier::opaque]
pub open spec fn spec_step(unit: UnitModel, regs: Seq<Register>, bytes: Seq<u8>, op: Operation) -> (
    Seq<u8>,
    ExitAction,
) {
    match op {
        Operation::Add(d, a, b, s) => spec_binary_op(regs, bytes, BinaryOp::Add, d, a, b, s),
        Operation::Sub(d, a, b, s) => spec_binary_op(regs, bytes, BinaryOp::Sub, d, a, b, s),
        Operation::Mult(d, a, b, s) => spec_binary_op(regs, bytes, BinaryOp::Mult, d, a, b, s),
        Operation::Div(d, a, b, s) => spec_binary_op(regs, bytes, BinaryOp::Div, d, a, b, s),
        Operation::Rem(d, a, b, s) => spec_binary_op(regs, bytes, BinaryOp::Rem, d, a, b, s),
        Operation::And(d, a, b) => spec_binary_op(regs, bytes, BinaryOp::And, d, a, b, false),
        Operation::Or(d, a, b) => spec_binary_op(regs, bytes, BinaryOp::Or, d, a, b, false),
        Operation::Xor(d, a, b) => spec_binary_op(regs, bytes, BinaryOp::Xor, d, a, b, false),
        Operation::LShift(d, a, b) => spec_binary_op(regs, bytes, BinaryOp::LShift, d, a, b, false),
        Operation::RShift(d, a, b, s) => spec_binary_op(regs, bytes, BinaryOp::RShift, d, a, b, s),
        Operation::Not(d, a) => spec_unary_op(regs, bytes, d, a, |x: IntImmed| spec_not(x), false),
        Operation::SignExtend(d, a, t) => spec_unary_op(
            regs,
            bytes,
            d,
            a,
            |x: IntImmed| t.wrap(x.interp(true)),
            true,
        ),
        Operation::ZeroExtend(d, a, t) => spec_unary_op(
            regs,
            bytes,
            d,
            a,
            |x: IntImmed| t.wrap(x.interp(false)),
            false,
        ),
        Operation::ICmp(d, cmp, a, b) => {
            let v = match eval_pair(regs, bytes, a, b) {
                Err(e) => Err(e),
                Ok(p) => Ok(IntImmed::Bool(spec_compare(cmp, p.0, p.1))),
            };
            spec_finish(regs, bytes, d, v, false)
        },
        Operation::Select(c, d, a, b) => {
            let v = match eval_rvalue(regs, bytes, c) {
                Err(e) => Err(e),
                Ok(cv) => match eval_pair(regs, bytes, a, b) {
                    Err(e) => Err(e),
                    Ok(p) => Ok(
                        if cv.value() != 0 {
                            p.0
                        } else {
                            p.1
                        },
                    ),
                },
            };
            spec_finish(regs, bytes, d, v, false)
        },
        Operation::Branch(c, t, n) => (bytes, spec_branch(unit, regs, bytes, c, t, n)),
        Operation::Exit(code) => (bytes, ExitAction::Exit(code)),
        _ => (bytes, ExitAction::Fault(ExecFault::UnsupportedOperation)),
    }
}

/// The operations of a block from position `i` on: the state bytes after them
/// and how the block ended.
#[verifier::opaque]
pub open spec fn spec_block(
    unit: UnitModel,
    regs: Seq<Register>,
    bytes: Seq<u8>,
    ops: Seq<Operation>,
    i: nat,
) -> (Seq<u8>, ExitAction)
    decreases ops.len() - i,
{
    if i >= ops.len() {
        (bytes, ExitAction::Fault(ExecFault::FellThrough))
    } else {
        let r = spec_step(unit, regs, bytes, ops[i as int]);
        if r.1 is Next {
            spec_block(unit, regs, r.0, ops, i + 1)
        } else {
            r
        }
    }
}

/// A run from the block at `idx` that may enter at most `fuel` blocks.
pub open spec fn spec_run(
    unit: UnitModel,
    regs: Seq<Register>,
    bytes: Seq<u8>,
    idx: nat,
    fuel: nat,
) -> (Seq<u8>, Result<(), ExecFault>)
    decreases fuel,
{
    if fuel == 0 {
        (bytes, Err(ExecFault::StepLimit))
    } else if idx >= unit.blocks.len() {
        (bytes, Err(ExecFault::UnknownLabel))
    } else {
        let (b, a) = spec_block(unit, regs, bytes, unit.blocks[idx as int], 0);
        match a {
            ExitAction::Exit(_) => (b, Ok(())),
            ExitAction::BranchTo(j) => spec_run(unit, regs, b, j as nat, (fuel - 1) as nat),
            ExitAction::Fault(e) => (b, Err(e)),
            ExitAction::Next => (b, Err(ExecFault::FellThrough)),
        }
    }
}

/// A run of the unit from its entry block.
pub open spec fn spec_execute(unit: UnitModel, regs: Seq<Register>, bytes: Seq<u8>, fuel: nat) -> (
    Seq<u8>,
    Result<(), ExecFault>,
) {
    match unit.entry {
        None => (bytes, Err(ExecFault::NoEntrypoint)),
        Some(e) => spec_run(unit, regs, bytes, e, fuel),
    }
}

/// The number of blocks a run through [`Executable::execute`] may enter.
pub const BLOCK_LIMIT: u64 = 0xffff_ffff_ffff_ffff;

/// For the integer types other than `Bool`, adding or removing 2^64 does not
/// change the value denoted.
proof fn lemma_wrap_shift64(t: IntType, v: int)
    requires
        t != IntType::Bool,
    ensures
        t.wrap(v - modulus64()) == t.wrap(v),
        t.wrap(v + modulus64()) == t.wrap(v),
{
    vstd::arithmetic::div_mod::lemma_mod_multiples_vanish(-1, v, modulus64());
    vstd::arithmetic::div_mod::lemma_mod_multiples_vanish(1, v, modulus64());
    lemma_wrap_mod64(t, v);
    lemma_wrap_mod64(t, v - modulus64());
    lemma_wrap_mod64(t, v + modulus64());
}

/// The type arithmetic is done in.
fn arith_type_of(t: IntType) -> (r: IntType)
    ensures
        r == arith_type(t),
        r != IntType::Bool,
{
    match t {
        IntType::Bool => IntType::I8,
        _ => t,
    }
}

/// |v| as an unsigned word.
fn abs_u64(v: i64) -> (r: u64)
    ensures
        r as int == abs(v as int),
{
    if v >= 0 {
        v as u64
    } else {
        ((-(v + 1)) as u64) + 1
    }
}

/// The value of type `t` that `-q` denotes.
fn wrap_neg(t: IntType, q: u64) -> (r: IntImmed)
    requires
        t != IntType::Bool,
    ensures
        r == t.wrap(-(q as int)),
{
    if q == 0 {
        t.from_u64(0)
    } else {
        proof {
            lemma_wrap_shift64(t, -(q as int));
        }
        t.from_u64(u64::MAX - q + 1)
    }
}

/// Width in bits of an integer type.
fn bits_of(t: IntType) -> (r: u64)
    ensures
        r == t.bits(),
{
    match t {
        IntType::Bool => 1,
        IntType::I8 => 8,
        IntType::I16 => 16,
        IntType::I32 => 32,
        IntType::I64 => 64,
    }
}

/// The largest value of an integer type.
fn type_mask(t: IntType) -> (r: u64)
    requires
        t != IntType::Bool,
    ensures
        r == t.modulus() - 1,
{
    match t {
        IntType::I8 => 0xff,
        IntType::I16 => 0xffff,
        IntType::I32 => 0xffff_ffff,
        _ => 0xffff_ffff_ffff_ffff,
    }
}

/// `x * 2^s` modulo 2^64.
fn shl_wrapping(x: u64, s: u64) -> (r: u64)
    requires
        s < 64,
    ensures
        r as int == (x * pow2(s as nat)) % modulus64(),
{
    proof {
        vstd::arithmetic::power2::lemma2_to64();
    }
    if s == 0 {
        proof {
            vstd::arithmetic::div_mod::lemma_small_mod(x as nat, modulus64() as nat);
        }
        x
    } else {
        let e = 64 - s;
        proof {
            vstd::bits::lemma_u64_pow2_no_overflow(e as nat);
            vstd::bits::lemma_u64_shl_is_mul(1, e);
        }
        let p = 1u64 << e;
        let m = x % p;
        proof {
            let ps = pow2(s as nat);
            vstd::arithmetic::power2::lemma_pow2_adds(e as nat, s as nat);
            vstd::arithmetic::power2::lemma_pow2_pos(s as nat);
            vstd::arithmetic::mul::lemma_mul_strict_inequality(m as int, p as int, ps as int);
            vstd::bits::lemma_u64_shl_is_mul(m, s);
            vstd::arithmetic::div_mod::lemma_fundamental_div_mod(x as int, p as int);
            let q = x as int / p as int;
            assert(x * ps == q * modulus64() + m * ps) by (nonlinear_arith)
                requires
                    x == p * q + m,
                    p * ps == modulus64(),
            ;
            vstd::arithmetic::div_mod::lemma_mod_multiples_vanish(q, m * ps, modulus64());
            vstd::arithmetic::div_mod::lemma_small_mod((m * ps) as nat, modulus64() as nat);
        }
        m << s
    }
}

/// Rounding `-c - 1` down after division by `p` gives `-(c / p) - 1`.
proof fn lemma_floor_div_complement(c: int, p: int)
    requires
        c >= 0,
        p > 0,
    ensures
        (-c - 1) / p == -(c / p) - 1,
{
    vstd::arithmetic::div_mod::lemma_fundamental_div_mod(c, p);
    let q = c / p;
    let r = c % p;
    assert(-c - 1 == (-q - 1) * p + (p - 1 - r)) by (nonlinear_arith)
        requires
            c == p * q + r,
    ;
    vstd::arithmetic::div_mod::lemma_fundamental_div_mod_converse(
        -c - 1,
        p,
        -(c / p) - 1,
        p - 1 - c % p,
    );
}

/// A value of type `t` is unchanged by adding 2^width.
proof fn lemma_wrap_add_modulus(t: IntType, v: int)
    requires
        t != IntType::Bool,
    ensures
        t.wrap(v + t.modulus()) == t.wrap(v),
{
    vstd::arithmetic::div_mod::lemma_mod_multiples_vanish(1, v, t.modulus());
}

/// Computes a binary operation on two values. Division or remainder by zero
/// is fatal, so the divisor must not be zero.
pub fn binary(op: BinaryOp, a: IntImmed, b: IntImmed, signed: bool) -> (r: IntImmed)
    requires
        spec_binary(op, a, b, signed) is Ok,
    ensures
        Ok::<IntImmed, ExecFault>(r) == spec_binary(op, a, b, signed),
{
    let (p0, p1) = IntImmed::upcast(&a, &b, signed);
    proof {
        lemma_upcast_same_type(a, b, signed);
    }
    let t = arith_type_of(p0.get_type());
    let x = p0.to_u64();
    let y = p1.to_u64();
    match op {
        BinaryOp::Add => {
            if x <= u64::MAX - y {
                (t.from_u64(x + y))
            } else {
                proof {
                    lemma_wrap_shift64(t, x + y);
                }
                (t.from_u64(x - (u64::MAX - y) - 1))
            }
        },
        BinaryOp::Sub => {
            if x >= y {
                (t.from_u64(x - y))
            } else {
                proof {
                    lemma_wrap_shift64(t, x - y);
                }
                (t.from_u64(x + (u64::MAX - y) + 1))
            }
        },
        BinaryOp::Mult => {
            proof {
                lemma_wrap_mod64(t, x * y);
            }
            (t.from_u64(x.wrapping_mul(y)))
        },
        BinaryOp::Div => {
            if signed {
                let sx = p0.to_i64();
                let sy = p1.to_i64();
                let q = abs_u64(sx) / abs_u64(sy);
                if (sx >= 0) == (sy > 0) {
                    (t.from_u64(q))
                } else {
                    (wrap_neg(t, q))
                }
            } else {
                (t.from_u64(x / y))
            }
        },
        BinaryOp::Rem => {
            if signed {
                let sx = p0.to_i64();
                let sy = p1.to_i64();
                let m = abs_u64(sx) % abs_u64(sy);
                if sx >= 0 {
                    (t.from_u64(m))
                } else {
                    (wrap_neg(t, m))
                }
            } else {
                (t.from_u64(x % y))
            }
        },
        BinaryOp::And => (t.from_u64(x & y)),
        BinaryOp::Or => (t.from_u64(x | y)),
        BinaryOp::Xor => (t.from_u64(x ^ y)),
        BinaryOp::LShift => {
            if y >= bits_of(t) {
                (t.from_u64(0))
            } else {
                let v = shl_wrapping(x, y);
                proof {
                    lemma_wrap_mod64(t, x * pow2(y as nat));
                }
                (t.from_u64(v))
            }
        },
        BinaryOp::RShift => {
            let negative = signed && p0.to_i64() < 0;
            if y >= bits_of(t) {
                if negative {
                    proof {
                        lemma_wrap_add_modulus(t, -1);
                    }
                    (t.from_u64(type_mask(t)))
                } else {
                    (t.from_u64(0))
                }
            } else if negative {
                let c = type_mask(t) - x;
                proof {
                    vstd::bits::lemma_u64_shr_is_div(c, y);
                    vstd::arithmetic::power2::lemma_pow2_pos(y as nat);
                    lemma_floor_div_complement(c as int, pow2(y as nat) as int);
                    assert(p0.signed_value() == -(c as int) - 1);
                }
                let q = c >> y;
                proof {
                    lemma_wrap_add_modulus(t, -(q as int) - 1);
                }
                (t.from_u64(type_mask(t) - q))
            } else {
                proof {
                    vstd::bits::lemma_u64_shr_is_div(x, y);
                    if signed {
                        assert(p0.signed_value() == x as int);
                    }
                }
                (t.from_u64(x >> y))
            }
        },
    }
}

/// Bitwise complement at the operand's width; logical negation of a `Bool`.
pub fn not(a: IntImmed) -> (r: IntImmed)
    ensures
        r == spec_not(a),
{
    match a {
        IntImmed::Bool(b) => IntImmed::Bool(!b),
        _ => a.get_type().from_u64(!a.to_u64()),
    }
}

/// Compares two values after upcasting them.
pub fn compare(cmp: Comparator, a: IntImmed, b: IntImmed) -> (r: bool)
    ensures
        r == spec_compare(cmp, a, b),
{
    let signed = match cmp {
        Comparator::SLT => true,
        Comparator::SGT => true,
        _ => false,
    };
    let (p0, p1) = IntImmed::upcast(&a, &b, signed);
    match cmp {
        Comparator::EQ => p0.to_u64() == p1.to_u64(),
        Comparator::NEQ => p0.to_u64() != p1.to_u64(),
        Comparator::SLT => p0.to_i64() < p1.to_i64(),
        Comparator::SGT => p0.to_i64() > p1.to_i64(),
        Comparator::ULT => p0.to_u64() < p1.to_u64(),
        Comparator::UGT => p0.to_u64() > p1.to_u64(),
    }
}

/// Division or remainder whose divisor reads as zero does not produce a value:
/// once both operands are read, the operation meets the fatal `DivideByZero`
/// with the state as it was, so no run that reaches it is admitted by `execute`.
pub proof fn lemma_divide_by_zero_faults(
    unit: UnitModel,
    regs: Seq<Register>,
    bytes: Seq<u8>,
    dest: LValue,
    a: RValue<IntImmed>,
    b: RValue<IntImmed>,
    signed: bool,
)
    requires
        eval_rvalue(regs, bytes, a) is Ok,
        eval_rvalue(regs, bytes, b) matches Ok(y) && y.value() == 0,
    ensures
        spec_step(unit, regs, bytes, Operation::Div(dest, a, b, signed)) == (
            bytes,
            ExitAction::Fault(ExecFault::DivideByZero),
        ),
        spec_step(unit, regs, bytes, Operation::Rem(dest, a, b, signed)) == (
            bytes,
            ExitAction::Fault(ExecFault::DivideByZero),
        ),
        is_fatal(ExecFault::DivideByZero),
{
    reveal(spec_step);
}

/// The reference backend.
#[derive(Debug, Default)]
pub struct InterpreterBackend {}

/// A translation unit with the register table of its state type, ready to run.
pub struct InterpreterExecutable {
    unit: TranslationUnit,
    regs: Vec<Register>,
}

impl InterpreterExecutable {
    #[verifier::type_invariant]
    spec fn inv(self) -> bool {
        self.unit.wf()
    }

    /// The unit that runs.
    pub closed spec fn unit_model(self) -> UnitModel {
        self.unit@
    }

    /// The register table it runs with.
    pub closed spec fn registers(self) -> Seq<Register> {
        self.regs@
    }

    /// Pairs a unit with a register table.
    pub fn new(unit: TranslationUnit, regs: Vec<Register>) -> (r: Self)
        requires
            unit.wf(),
        ensures
            r.unit_model() == unit@,
            r.registers() == regs@,
    {
        InterpreterExecutable { unit, regs }
    }

    /// Reads an operand.
    fn rv_to_immed<State: RegisterMap>(&self, state: &State, rv: &RValue<IntImmed>) -> (r: Result<
        IntImmed,
        ExecFault,
    >)
        requires
            !(*rv matches RValue::LValue(LValue::Scratch(_))),
        ensures
            r == eval_rvalue(self.regs@, state.bytes(), *rv),
    {
        match rv {
            RValue::Immediate(i) => Ok(*i),
            RValue::LValue(LValue::Scratch(_)) => Err(ExecFault::ScratchRegister),
            RValue::LValue(LValue::Register(r)) => {
                let r = *r as usize;
                if r < self.regs.len() {
                    match self.regs[r].read(state) {
                        Some(v) => Ok(v),
                        None => Err(ExecFault::UnknownRegister),
                    }
                } else {
                    Err(ExecFault::UnknownRegister)
                }
            },
        }
    }

    /// Reads two operands, the first fault winning.
    fn rv_pair<State: RegisterMap>(
        &self,
        state: &State,
        a: &RValue<IntImmed>,
        b: &RValue<IntImmed>,
    ) -> (r: Result<(IntImmed, IntImmed), ExecFault>)
        requires
            !(eval_pair(self.regs@, state.bytes(), *a, *b) matches Err(e) && is_fatal(e)),
        ensures
            r == eval_pair(self.regs@, state.bytes(), *a, *b),
    {
        let x = self.rv_to_immed(state, a)?;
        let y = self.rv_to_immed(state, b)?;
        Ok((x, y))
    }

    /// Stores a computed value, or passes its fault on.
    fn finish<State: RegisterMap>(
        &self,
        dest: &LValue,
        v: Result<IntImmed, ExecFault>,
        signed: bool,
        state: &mut State,
    ) -> (r: ExitAction)
        requires
            !ends_fatally(spec_finish(self.regs@, old(state).bytes(), *dest, v, signed).1),
        ensures
            (final(state).bytes(), r) == spec_finish(self.regs@, old(state).bytes(), *dest, v, signed),
    {
        let v = match v {
            Ok(v) => v,
            Err(e) => return ExitAction::Fault(e),
        };
        match dest {
            LValue::Scratch(_) => ExitAction::Fault(ExecFault::ScratchRegister),
            LValue::Register(r) => {
                let r = *r as usize;
                if r < self.regs.len() {
                    if self.regs[r].write(v.to_bits64(signed), state) {
                        ExitAction::Next
                    } else {
                        ExitAction::Fault(ExecFault::UnknownRegister)
                    }
                } else {
                    ExitAction::Fault(ExecFault::UnknownRegister)
                }
            },
        }
    }

    /// A binary operation from operands to stored result.
    fn op_binary<State: RegisterMap>(
        &self,
        op: BinaryOp,
        dest: &LValue,
        arg1: &RValue<IntImmed>,
        arg2: &RValue<IntImmed>,
        signed: bool,
        state: &mut State,
    ) -> (r: ExitAction)
        requires
            !ends_fatally(
                spec_binary_op(
                    self.regs@,
                    old(state).bytes(),
                    op,
                    *dest,
                    *arg1,
                    *arg2,
                    signed,
                ).1,
            ),
        ensures
            (final(state).bytes(), r) == spec_binary_op(
                self.regs@,
                old(state).bytes(),
                op,
                *dest,
                *arg1,
                *arg2,
                signed,
            ),
    {
        let v = match self.rv_pair(state, arg1, arg2) {
            Err(e) => Err(e),
            Ok((x, y)) => Ok(binary(op, x, y, signed)),
        };
        self.finish(dest, v, signed, state)
    }

    /// Where a branch continues.
    fn op_branch<State: RegisterMap>(
        &self,
        cond: &RValue<IntImmed>,
        taken: &BlockLabel,
        not_taken: &BlockLabel,
        state: &State,
    ) -> (r: ExitAction)
        requires
            !ends_fatally(spec_branch(self.unit@, self.regs@, state.bytes(), *cond, *taken, *not_taken)),
        ensures
            r == spec_branch(self.unit@, self.regs@, state.bytes(), *cond, *taken, *not_taken),
    {
        proof {
            use_type_invariant(self);
        }
        let value = match self.rv_to_immed(state, cond) {
            Ok(v) => v.to_u64(),
            Err(e) => return ExitAction::Fault(e),
        };
        let branch_sel = if value == 0 {
            not_taken
        } else {
            taken
        };
        match self.unit.lookup(branch_sel) {
            Some(idx) => ExitAction::BranchTo(idx),
            None => ExitAction::Fault(ExecFault::UnknownLabel),
        }
    }

    /// Runs one operation.
    fn execute_op<State: RegisterMap>(&self, op: &Operation, state: &mut State) -> (r: ExitAction)
        requires
            !ends_fatally(spec_step(self.unit@, self.regs@, old(state).bytes(), *op).1),
        ensures
            (final(state).bytes(), r) == spec_step(self.unit@, self.regs@, old(state).bytes(), *op),
    {
        reveal(spec_step);
        match op {
            Operation::Add(d, a, b, s) => self.op_binary(BinaryOp::Add, d, a, b, *s, state),
            Operation::Sub(d, a, b, s) => self.op_binary(BinaryOp::Sub, d, a, b, *s, state),
            Operation::Mult(d, a, b, s) => self.op_binary(BinaryOp::Mult, d, a, b, *s, state),
            Operation::Div(d, a, b, s) => self.op_binary(BinaryOp::Div, d, a, b, *s, state),
            Operation::Rem(d, a, b, s) => self.op_binary(BinaryOp::Rem, d, a, b, *s, state),
            Operation::And(d, a, b) => self.op_binary(BinaryOp::And, d, a, b, false, state),
            Operation::Or(d, a, b) => self.op_binary(BinaryOp::Or, d, a, b, false, state),
            Operation::Xor(d, a, b) => self.op_binary(BinaryOp::Xor, d, a, b, false, state),
            Operation::LShift(d, a, b) => self.op_binary(BinaryOp::LShift, d, a, b, false, state),
            Operation::RShift(d, a, b, s) => self.op_binary(BinaryOp::RShift, d, a, b, *s, state),
            Operation::Not(d, a) => {
                let v = match self.rv_to_immed(state, a) {
                    Err(e) => Err(e),
                    Ok(x) => Ok(not(x)),
                };
                self.finish(d, v, false, state)
            },
            Operation::SignExtend(d, a, t) => {
                let v = match self.rv_to_immed(state, a) {
                    Err(e) => Err(e),
                    Ok(x) => Ok(x.cast(*t, true)),
                };
                self.finish(d, v, true, state)
            },
            Operation::ZeroExtend(d, a, t) => {
                let v = match self.rv_to_immed(state, a) {
                    Err(e) => Err(e),
                    Ok(x) => Ok(x.cast(*t, false)),
                };
                self.finish(d, v, false, state)
            },
            Operation::ICmp(d, cmp, a, b) => {
                let v = match self.rv_pair(state, a, b) {
                    Err(e) => Err(e),
                    Ok((x, y)) => Ok(IntImmed::Bool(compare(*cmp, x, y))),
                };
                self.finish(d, v, false, state)
            },
            Operation::Select(c, d, a, b) => {
                let v = match self.rv_to_immed(state, c) {
                    Err(e) => Err(e),
                    Ok(cv) => match self.rv_pair(state, a, b) {
                        Err(e) => Err(e),
                        Ok((x, y)) => Ok(
                            if cv.to_u64() != 0 {
                                x
                            } else {
                                y
                            },
                        ),
                    },
                };
                self.finish(d, v, false, state)
            },
            Operation::Branch(c, t, n) => self.op_branch(c, t, n, state),
            Operation::Exit(code) => ExitAction::Exit(*code),
            _ => ExitAction::Fault(ExecFault::UnsupportedOperation),
        }
    }

    /// Runs the operations of one block until one of them ends it.
    fn execute_block<State: RegisterMap>(&self, ops: &Vec<Operation>, state: &mut State) -> (r:
        ExitAction)
        requires
            !ends_fatally(spec_block(self.unit@, self.regs@, old(state).bytes(), ops@, 0).1),
        ensures
            (final(state).bytes(), r) == spec_block(
                self.unit@,
                self.regs@,
                old(state).bytes(),
                ops@,
                0,
            ),
    {
        reveal(spec_block);
        let mut i: usize = 0;
        while i < ops.len()
            invariant
                i <= ops@.len(),
                !ends_fatally(spec_block(self.unit@, self.regs@, old(state).bytes(), ops@, 0).1),
                spec_block(self.unit@, self.regs@, old(state).bytes(), ops@, 0) == spec_block(
                    self.unit@,
                    self.regs@,
                    state.bytes(),
                    ops@,
                    i as nat,
                ),
            decreases ops@.len() - i,
        {
            let ghost b0 = state.bytes();
            proof {
                reveal(spec_block);
                let step = spec_step(self.unit@, self.regs@, b0, ops@[i as int]);
                assert(!ends_fatally(step.1)) by {
                    if !(step.1 is Next) {
                        assert(spec_block(self.unit@, self.regs@, b0, ops@, i as nat) == step);
                    }
                }
            }
            let a = self.execute_op(&ops[i], state);
            proof {
                reveal(spec_block);
                assert(spec_block(self.unit@, self.regs@, b0, ops@, i as nat) == (if a is Next {
                    spec_block(self.unit@, self.regs@, state.bytes(), ops@, i as nat + 1)
                } else {
                    (state.bytes(), a)
                }));
            }
            match a {
                ExitAction::Next => {},
                _ => return a,
            }
            i += 1;
        }
        proof {
            reveal(spec_block);
        }
        ExitAction::Fault(ExecFault::FellThrough)
    }

    /// Runs the unit from its entry block, entering at most `fuel` blocks.
    pub fn run<State: RegisterMap>(&self, state: &mut State, fuel: u64) -> (r: Result<
        (),
        ExecFault,
    >)
        requires
            !run_is_fatal(
                spec_execute(self.unit_model(), self.registers(), old(state).bytes(), fuel as nat).1,
            ),
        ensures
            (final(state).bytes(), r) == spec_execute(
                self.unit_model(),
                self.registers(),
                old(state).bytes(),
                fuel as nat,
            ),
    {
        proof {
            use_type_invariant(self);
        }
        let mut idx = match self.unit.entrypoint() {
            Some(e) => e,
            None => return Err(ExecFault::NoEntrypoint),
        };
        let mut remaining = fuel;
        let ghost start = spec_execute(self.unit@, self.regs@, old(state).bytes(), fuel as nat);
        loop
            invariant
                self.unit.wf(),
                start == spec_execute(self.unit_model(), self.registers(), old(state).bytes(), fuel as nat),
                start == spec_run(self.unit@, self.regs@, state.bytes(), idx as nat, remaining as nat),
                !run_is_fatal(start.1),
            decreases remaining,
        {
            if remaining == 0 {
                return Err(ExecFault::StepLimit);
            }
            if idx >= self.unit.num_blocks() {
                return Err(ExecFault::UnknownLabel);
            }
            let block = self.unit.block(idx);
            proof {
                let blk = spec_block(self.unit@, self.regs@, state.bytes(), self.unit@.blocks[idx as int], 0);
                assert(!ends_fatally(blk.1)) by {
                    match blk.1 {
                        ExitAction::Fault(e) => {
                            assert(start.1 == Err::<(), ExecFault>(e));
                        },
                        _ => {},
                    }
                }
            }
            let exit_action = self.execute_block(block.to_vec(), state);
            match exit_action {
                ExitAction::Exit(_) => return Ok(()),
                ExitAction::BranchTo(next) => {
                    idx = next;
                },
                ExitAction::Fault(e) => return Err(e),
                ExitAction::Next => return Err(ExecFault::FellThrough),
            }
            remaining = remaining - 1;
        }
    }
}

impl<State: RegisterMap> Executable<State> for InterpreterExecutable {
    open spec fn runs(&self, before: Seq<u8>, after: Seq<u8>, r: Result<(), ExecFault>) -> bool {
        (after, r) == spec_execute(self.unit_model(), self.registers(), before, BLOCK_LIMIT as nat)
    }

    open spec fn admits(&self, before: Seq<u8>) -> bool {
        !run_is_fatal(
            spec_execute(self.unit_model(), self.registers(), before, BLOCK_LIMIT as nat).1,
        )
    }

    fn execute(&self, state: &mut State) -> (r: Result<(), ExecFault>) {
        self.run(state, BLOCK_LIMIT)
    }
}

impl<State: RegisterMap> Compiler<State> for InterpreterBackend {
    type Artifact = InterpreterExecutable;

    open spec fn compiles_to(unit: UnitModel, artifact: InterpreterExecutable) -> bool {
        artifact.unit_model() == unit && artifact.registers() == State::layout()
    }

    open spec fn accepts(unit: UnitModel) -> bool {
        true
    }

    open spec fn error_of(unit: UnitModel) -> Seq<char> {
        Seq::empty()
    }

    proof fn lemma_deterministic(
        unit: UnitModel,
        a1: InterpreterExecutable,
        a2: InterpreterExecutable,
        before: Seq<u8>,
        after1: Seq<u8>,
        r1: Result<(), ExecFault>,
        after2: Seq<u8>,
        r2: Result<(), ExecFault>,
    ) {
    }

    fn compile_unit(&mut self, unit: &TranslationUnit) -> (r: Result<
        Rc<InterpreterExecutable>,
        String,
    >) {
        Ok(Rc::new(InterpreterExecutable::new(unit.clone(), State::register_offsets())))
    }
}

} // verus!
