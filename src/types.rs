//! Typed integer values, operand expressions and comparators.
use vstd::prelude::*;

verus! {

/// Name of a basic block inside a translation unit.
pub type BlockLabel = String;

/// 2^64, the modulus of the widest integer type.
pub open spec fn modulus64() -> int {
    0x1_0000_0000_0000_0000
}

/// The width tag of an integer value.
#[derive(Debug, Clone, Copy, PartialEq, Eq, Structural)]
pub enum IntType {
    Bool,
    I8,
    I16,
    I32,
    I64,
}

impl IntType {
    /// Logical width in bits.
    pub open spec fn bits(self) -> nat {
        match self {
            IntType::Bool => 1,
            IntType::I8 => 8,
            IntType::I16 => 16,
            IntType::I32 => 32,
            IntType::I64 => 64,
        }
    }

    /// Number of distinct values of the type: 2^bits.
    pub open spec fn modulus(self) -> int {
        match self {
            IntType::Bool => 2,
            IntType::I8 => 0x100,
            IntType::I16 => 0x1_0000,
            IntType::I32 => 0x1_0000_0000,
            IntType::I64 => 0x1_0000_0000_0000_0000,
        }
    }

    /// The value of this type that the mathematical integer `x` denotes:
    /// "nonzero" for `Bool`, `x` modulo 2^bits for the others.
    pub open spec fn wrap(self, x: int) -> IntImmed {
        match self {
            IntType::Bool => IntImmed::Bool(x != 0),
            IntType::I8 => IntImmed::I8((x % 0x100) as u8),
            IntType::I16 => IntImmed::I16((x % 0x1_0000) as u16),
            IntType::I32 => IntImmed::I32((x % 0x1_0000_0000) as u32),
            IntType::I64 => IntImmed::I64((x % 0x1_0000_0000_0000_0000) as u64),
        }
    }

    /// The wider of two types (the first one when they are equally wide).
    pub open spec fn wider(a: IntType, b: IntType) -> IntType {
        if a.bits() >= b.bits() {
            a
        } else {
            b
        }
    }

    /// Builds the value of this type denoted by the unsigned integer `v`.
    pub fn from_u64(&self, v: u64) -> (r: IntImmed)
        ensures
            r == self.wrap(v as int),
    {
        match self {
            IntType::Bool => IntImmed::Bool(v != 0),
            IntType::I8 => IntImmed::I8((v % 0x100) as u8),
            IntType::I16 => IntImmed::I16((v % 0x1_0000) as u16),
            IntType::I32 => IntImmed::I32((v % 0x1_0000_0000) as u32),
            IntType::I64 => IntImmed::I64(v),
        }
    }

    /// Builds the value of this type denoted by the signed integer `v`.
    pub fn from_i64(&self, v: i64) -> (r: IntImmed)
        ensures
            r == self.wrap(v as int),
    {
        match self {
            IntType::Bool => IntImmed::Bool(v != 0),
            _ => {
                let u = i64_bits(v);
                proof {
                    lemma_wrap_mod64(*self, v as int);
                }
                self.from_u64(u)
            },
        }
    }
}

/// For the integer types other than `Bool`, reducing modulo 2^64 first does not
/// change the value denoted.
pub proof fn lemma_wrap_mod64(ty: IntType, x: int)
    requires
        ty != IntType::Bool,
    ensures
        ty.wrap(x % modulus64()) == ty.wrap(x),
{
    let m = ty.modulus();
    let k = modulus64() / m;
    assert(m * k == modulus64()) by {
        match ty {
            IntType::I8 => {},
            IntType::I16 => {},
            IntType::I32 => {},
            _ => {},
        }
    }
    vstd::arithmetic::div_mod::lemma_mod_mod(x, m, k);
}

/// The two's-complement bit pattern of `v` as an unsigned 64-bit integer.
pub fn i64_bits(v: i64) -> (r: u64)
    ensures
        r as int == (v as int) % modulus64(),
{
    if v >= 0 {
        v as u64
    } else {
        let m = (-(v + 1)) as u64;
        let r = u64::MAX - m;
        proof {
            assert(r as int == v as int + modulus64());
            vstd::arithmetic::div_mod::lemma_fundamental_div_mod_converse(
                v as int,
                modulus64(),
                -1,
                r as int,
            );
        }
        r
    }
}

/// A typed integer immediate, stored widened to its unsigned host word.
#[derive(Debug, Clone, Copy, PartialEq, Eq, Structural)]
pub enum IntImmed {
    Bool(bool),
    I8(u8),
    I16(u16),
    I32(u32),
    I64(u64),
}

impl IntImmed {
    /// The width tag of the value.
    pub open spec fn ty(self) -> IntType {
        match self {
            IntImmed::Bool(_) => IntType::Bool,
            IntImmed::I8(_) => IntType::I8,
            IntImmed::I16(_) => IntType::I16,
            IntImmed::I32(_) => IntType::I32,
            IntImmed::I64(_) => IntType::I64,
        }
    }

    /// The value read as an unsigned integer (`Bool` reads as 0 or 1).
    pub open spec fn value(self) -> nat {
        match self {
            IntImmed::Bool(b) => if b {
                1
            } else {
                0
            },
            IntImmed::I8(v) => v as nat,
            IntImmed::I16(v) => v as nat,
            IntImmed::I32(v) => v as nat,
            IntImmed::I64(v) => v as nat,
        }
    }

    /// The value read as a two's-complement signed integer of its width
    /// (`Bool` reads as 0 or 1).
    pub open spec fn signed_value(self) -> int {
        match self {
            IntImmed::Bool(b) => if b {
                1
            } else {
                0
            },
            IntImmed::I8(v) => if v >= 0x80 {
                v - 0x100
            } else {
                v as int
            },
            IntImmed::I16(v) => if v >= 0x8000 {
                v - 0x1_0000
            } else {
                v as int
            },
            IntImmed::I32(v) => if v >= 0x8000_0000 {
                v - 0x1_0000_0000
            } else {
                v as int
            },
            IntImmed::I64(v) => if v >= 0x8000_0000_0000_0000 {
                v - 0x1_0000_0000_0000_0000
            } else {
                v as int
            },
        }
    }

    /// The value read signed or unsigned.
    pub open spec fn interp(self, signed: bool) -> int {
        if signed {
            self.signed_value()
        } else {
            self.value() as int
        }
    }

    /// Width in bits.
    pub fn size(&self) -> (r: u8)
        ensures
            r as nat == self.ty().bits(),
    {
        match self {
            IntImmed::Bool(_) => 1,
            IntImmed::I8(_) => 8,
            IntImmed::I16(_) => 16,
            IntImmed::I32(_) => 32,
            IntImmed::I64(_) => 64,
        }
    }

    /// The width tag of the value.
    pub fn get_type(&self) -> (r: IntType)
        ensures
            r == self.ty(),
    {
        match self {
            IntImmed::Bool(_) => IntType::Bool,
            IntImmed::I8(_) => IntType::I8,
            IntImmed::I16(_) => IntType::I16,
            IntImmed::I32(_) => IntType::I32,
            IntImmed::I64(_) => IntType::I64,
        }
    }

    /// Zero-extends the value to 64 bits.
    pub fn to_u64(&self) -> (r: u64)
        ensures
            r as nat == self.value(),
    {
        match *self {
            IntImmed::Bool(b) => if b {
                1
            } else {
                0
            },
            IntImmed::I8(i) => i as u64,
            IntImmed::I16(i) => i as u64,
            IntImmed::I32(i) => i as u64,
            IntImmed::I64(i) => i,
        }
    }

    /// Sign-extends the value to 64 bits.
    pub fn to_i64(&self) -> (r: i64)
        ensures
            r as int == self.signed_value(),
    {
        match *self {
            IntImmed::Bool(b) => if b {
                1
            } else {
                0
            },
            IntImmed::I8(i) => if i >= 0x80 {
                i as i64 - 0x100
            } else {
                i as i64
            },
            IntImmed::I16(i) => if i >= 0x8000 {
                i as i64 - 0x1_0000
            } else {
                i as i64
            },
            IntImmed::I32(i) => if i >= 0x8000_0000 {
                i as i64 - 0x1_0000_0000
            } else {
                i as i64
            },
            IntImmed::I64(i) => if i >= 0x8000_0000_0000_0000 {
                (i - 0x8000_0000_0000_0000) as i64 - 0x4000_0000_0000_0000 - 0x4000_0000_0000_0000
            } else {
                i as i64
            },
        }
    }

    /// The 64-bit pattern of the value, sign-extended when `signed`,
    /// zero-extended otherwise.
    pub fn to_bits64(&self, signed: bool) -> (r: u64)
        ensures
            r as int == self.interp(signed) % modulus64(),
    {
        if signed {
            i64_bits(self.to_i64())
        } else {
            self.to_u64()
        }
    }

    /// Reinterprets the value at the width of `ty`: the value is read signed or
    /// unsigned as `signed` says, then truncated to the target width (or tested
    /// for nonzero when the target is `Bool`).
    pub fn cast(&self, ty: IntType, signed: bool) -> (r: IntImmed)
        ensures
            r == ty.wrap(self.interp(signed)),
    {
        if signed {
            ty.from_i64(self.to_i64())
        } else {
            ty.from_u64(self.to_u64())
        }
    }

    /// Re-expresses both values at the wider of their two widths, keeping their
    /// order; the narrower one is sign- or zero-extended as `signed` says.
    pub fn upcast(first: &Self, second: &Self, signed: bool) -> (r: (Self, Self))
        ensures
            r == spec_upcast(*first, *second, signed),
    {
        let first_size = first.size();
        let second_size = second.size();
        proof {
            lemma_wrap_interp(*first, signed);
            lemma_wrap_interp(*second, signed);
        }
        if first_size == second_size {
            proof {
                lemma_same_bits_same_type(first.ty(), second.ty());
            }
            (*first, *second)
        } else if first_size > second_size {
            (*first, second.cast(first.get_type(), signed))
        } else {
            (first.cast(second.get_type(), signed), *second)
        }
    }

    /// Upcasts both values as [`IntImmed::upcast`] does and pairs them under
    /// their common width.
    pub fn upcast_zip(first: &Self, second: &Self, signed: bool) -> (r: ZippedIntImmed)
        ensures
            r.first() == spec_upcast(*first, *second, signed).0,
            r.second() == spec_upcast(*first, *second, signed).1,
    {
        let (a, b) = Self::upcast(first, second, signed);
        match (a, b) {
            (IntImmed::Bool(x), IntImmed::Bool(y)) => ZippedIntImmed::Bool(x, y),
            (IntImmed::I8(x), IntImmed::I8(y)) => ZippedIntImmed::I8(x, y),
            (IntImmed::I16(x), IntImmed::I16(y)) => ZippedIntImmed::I16(x, y),
            (IntImmed::I32(x), IntImmed::I32(y)) => ZippedIntImmed::I32(x, y),
            (IntImmed::I64(x), IntImmed::I64(y)) => ZippedIntImmed::I64(x, y),
            _ => {
                proof {
                    lemma_upcast_same_type(*first, *second, signed);
                }
                ZippedIntImmed::Bool(false, false)
            },
        }
    }

    /// The value if it is a `Bool`.
    pub fn maybe_bool(&self) -> (r: Option<bool>)
        ensures
            r == (match *self {
                IntImmed::Bool(v) => Some(v),
                _ => None,
            }),
    {
        match self {
            IntImmed::Bool(v) => Some(*v),
            _ => None,
        }
    }

    /// The value if it is 8 bits wide.
    pub fn maybe_u8(&self) -> (r: Option<u8>)
        ensures
            r == (match *self {
                IntImmed::I8(v) => Some(v),
                _ => None,
            }),
    {
        match self {
            IntImmed::I8(v) => Some(*v),
            _ => None,
        }
    }

    /// The value if it is 16 bits wide.
    pub fn maybe_u16(&self) -> (r: Option<u16>)
        ensures
            r == (match *self {
                IntImmed::I16(v) => Some(v),
                _ => None,
            }),
    {
        match self {
            IntImmed::I16(v) => Some(*v),
            _ => None,
        }
    }

    /// The value if it is 32 bits wide.
    pub fn maybe_u32(&self) -> (r: Option<u32>)
        ensures
            r == (match *self {
                IntImmed::I32(v) => Some(v),
                _ => None,
            }),
    {
        match self {
            IntImmed::I32(v) => Some(*v),
            _ => None,
        }
    }

    /// The value if it is 64 bits wide.
    pub fn maybe_u64(&self) -> (r: Option<u64>)
        ensures
            r == (match *self {
                IntImmed::I64(v) => Some(v),
                _ => None,
            }),
    {
        match self {
            IntImmed::I64(v) => Some(*v),
            _ => None,
        }
    }
}

/// Both values re-expressed at the wider of their widths, in the order given.
pub open spec fn spec_upcast(a: IntImmed, b: IntImmed, signed: bool) -> (IntImmed, IntImmed) {
    let t = IntType::wider(a.ty(), b.ty());
    (t.wrap(a.interp(signed)), t.wrap(b.interp(signed)))
}

/// Casting a value to its own type, either way, gives it back.
pub proof fn lemma_wrap_interp(x: IntImmed, signed: bool)
    ensures
        x.ty().wrap(x.interp(signed)) == x,
{
}

/// Two types of the same width are the same type.
pub proof fn lemma_same_bits_same_type(a: IntType, b: IntType)
    requires
        a.bits() == b.bits(),
    ensures
        a == b,
{
}

/// Both results of an upcast have the wider type.
pub proof fn lemma_upcast_same_type(a: IntImmed, b: IntImmed, signed: bool)
    ensures
        spec_upcast(a, b, signed).0.ty() == IntType::wider(a.ty(), b.ty()),
        spec_upcast(a, b, signed).1.ty() == IntType::wider(a.ty(), b.ty()),
{
}

/// Upcasting yields the wider of the two widths whichever operand comes first.
pub proof fn lemma_upcast_width(a: IntImmed, b: IntImmed, signed: bool)
    ensures
        spec_upcast(a, b, signed).0.ty().bits() == spec_upcast(b, a, signed).0.ty().bits(),
        spec_upcast(a, b, signed).0.ty().bits() == if a.ty().bits() >= b.ty().bits() {
            a.ty().bits()
        } else {
            b.ty().bits()
        },
        spec_upcast(a, b, signed).0.ty() == spec_upcast(a, b, signed).1.ty(),
{
}

/// Casting a value to a type at least as wide and back, with the same
/// signedness both ways, gives the value back.
pub proof fn lemma_cast_round_trip(x: IntImmed, wide: IntType, signed: bool)
    requires
        wide.bits() >= x.ty().bits(),
    ensures
        x.ty().wrap(wide.wrap(x.interp(signed)).interp(signed)) == x,
{
}

/// Two values of one width, as produced by [`IntImmed::upcast_zip`].
#[derive(Debug, Clone, Copy, PartialEq, Eq, Structural)]
pub enum ZippedIntImmed {
    Bool(bool, bool),
    I8(u8, u8),
    I16(u16, u16),
    I32(u32, u32),
    I64(u64, u64),
}

impl ZippedIntImmed {
    /// The first value of the pair.
    pub open spec fn first(self) -> IntImmed {
        match self {
            ZippedIntImmed::Bool(a, _) => IntImmed::Bool(a),
            ZippedIntImmed::I8(a, _) => IntImmed::I8(a),
            ZippedIntImmed::I16(a, _) => IntImmed::I16(a),
            ZippedIntImmed::I32(a, _) => IntImmed::I32(a),
            ZippedIntImmed::I64(a, _) => IntImmed::I64(a),
        }
    }

    /// The second value of the pair.
    pub open spec fn second(self) -> IntImmed {
        match self {
            ZippedIntImmed::Bool(_, b) => IntImmed::Bool(b),
            ZippedIntImmed::I8(_, b) => IntImmed::I8(b),
            ZippedIntImmed::I16(_, b) => IntImmed::I16(b),
            ZippedIntImmed::I32(_, b) => IntImmed::I32(b),
            ZippedIntImmed::I64(_, b) => IntImmed::I64(b),
        }
    }
}

impl From<u32> for IntImmed {
    fn from(value: u32) -> (r: Self)
        ensures
            r == IntImmed::I32(value),
    {
        IntImmed::I32(value)
    }
}

impl vstd::std_specs::convert::FromSpecImpl<u32> for IntImmed {
    open spec fn obeys_from_spec() -> bool {
        true
    }

    open spec fn from_spec(v: u32) -> Self {
        IntImmed::I32(v)
    }
}

/// An assignable location.
#[derive(Debug, Clone, Copy, PartialEq, Eq, Structural)]
pub enum LValue {
    /// A guest register slot, resolved through the register overlay.
    Register(u8),
    /// An IR-local temporary.
    Scratch(u8),
}

/// An operand: a location to read, or an immediate.
#[derive(Debug, Clone, Copy)]
pub enum RValue<T> {
    LValue(LValue),
    Immediate(T),
}

impl<T> From<LValue> for RValue<T> {
    fn from(value: LValue) -> (r: Self)
        ensures
            r == RValue::<T>::LValue(value),
    {
        RValue::LValue(value)
    }
}

impl<T> vstd::std_specs::convert::FromSpecImpl<LValue> for RValue<T> {
    open spec fn obeys_from_spec() -> bool {
        true
    }

    open spec fn from_spec(v: LValue) -> Self {
        RValue::LValue(v)
    }
}

impl From<IntImmed> for RValue<IntImmed> {
    fn from(value: IntImmed) -> (r: Self)
        ensures
            r == RValue::<IntImmed>::Immediate(value),
    {
        RValue::Immediate(value)
    }
}

impl vstd::std_specs::convert::FromSpecImpl<IntImmed> for RValue<IntImmed> {
    open spec fn obeys_from_spec() -> bool {
        true
    }

    open spec fn from_spec(v: IntImmed) -> Self {
        RValue::Immediate(v)
    }
}

/// Integer comparison predicates.
#[derive(Debug, Clone, Copy, PartialEq, Eq, Structural)]
pub enum Comparator {
    EQ,
    NEQ,
    SLT,
    SGT,
    ULT,
    UGT,
}

/// Reserved for condition codes; it carries no information yet.
#[derive(Debug, Clone, Copy, PartialEq, Eq, Structural)]
pub struct Condition;

} // verus!
