//! The register overlay: guest registers as little-endian byte ranges of a host
//! state structure, read and written through a bounds-checked byte view.
use vstd::prelude::*;
use crate::types::{IntImmed, IntType};

verus! {

/// 256^k.
pub open spec fn pow256(k: nat) -> nat
    decreases k,
{
    if k == 0 {
        1
    } else {
        256 * pow256((k - 1) as nat)
    }
}

/// The unsigned integer that a little-endian byte sequence denotes.
pub open spec fn le_value(s: Seq<u8>) -> nat
    decreases s.len(),
{
    if s.len() == 0 {
        0
    } else {
        (s[0] + 256 * le_value(s.drop_first())) as nat
    }
}

/// Byte `k` (counting from the least significant) of `v`.
pub open spec fn le_byte(v: nat, k: nat) -> u8 {
    ((v / pow256(k)) % 256) as u8
}

/// Peeling the first byte off a range.
pub proof fn lemma_le_value_step(s: Seq<u8>, a: int, b: int)
    requires
        0 <= a < b <= s.len(),
    ensures
        le_value(s.subrange(a, b)) == s[a] + 256 * le_value(s.subrange(a + 1, b)),
{
    assert(s.subrange(a, b).drop_first() =~= s.subrange(a + 1, b));
}

/// 256^k grows with k, and 256^7 is 2^56.
pub proof fn lemma_pow256_small(k: nat)
    requires
        k <= 7,
    ensures
        pow256(k) <= 0x100_0000_0000_0000,
        pow256(k) > 0,
{
    reveal_with_fuel(pow256, 8);
}

/// Writing the `n` little-endian bytes of `v` and reading them back gives `v`
/// modulo 256^n.
pub proof fn lemma_le_round_trip(v: nat, n: nat)
    ensures
        le_value(Seq::new(n, |k: int| le_byte(v, k as nat))) == v % pow256(n),
    decreases n,
{
    let s = Seq::new(n, |k: int| le_byte(v, k as nat));
    if n == 0 {
        assert(v % 1 == 0);
    } else {
        let t = Seq::new((n - 1) as nat, |k: int| le_byte(v / 256, k as nat));
        assert forall|k: int| 0 <= k < n - 1 implies #[trigger] s.drop_first()[k] == t[k] by {
            lemma_pow256_positive(k as nat);
            vstd::arithmetic::div_mod::lemma_div_denominator(v as int, 256, pow256(k as nat) as int);
        }
        assert(s.drop_first() =~= t);
        lemma_le_round_trip(v / 256, (n - 1) as nat);
        lemma_pow256_positive((n - 1) as nat);
        vstd::arithmetic::div_mod::lemma_mod_breakdown(v as int, 256, pow256((n - 1) as nat) as int);
        assert(pow256(0) == 1);
    }
}

/// 256^k is positive.
pub proof fn lemma_pow256_positive(k: nat)
    ensures
        pow256(k) > 0,
    decreases k,
{
    if k > 0 {
        lemma_pow256_positive((k - 1) as nat);
    }
}

/// Width of a register slot in the host state.
#[derive(Debug, Clone, Copy, PartialEq, Eq, Structural)]
pub enum RegisterType {
    I8,
    I16,
    I32,
    I64,
}

impl RegisterType {
    /// Width in bytes.
    pub open spec fn width(self) -> nat {
        match self {
            RegisterType::I8 => 1,
            RegisterType::I16 => 2,
            RegisterType::I32 => 4,
            RegisterType::I64 => 8,
        }
    }

    /// The integer type of the values the register holds.
    pub open spec fn int_type(self) -> IntType {
        match self {
            RegisterType::I8 => IntType::I8,
            RegisterType::I16 => IntType::I16,
            RegisterType::I32 => IntType::I32,
            RegisterType::I64 => IntType::I64,
        }
    }

    /// Width in bytes.
    pub fn bytes(&self) -> (r: usize)
        ensures
            r == self.width(),
    {
        match self {
            RegisterType::I8 => 1,
            RegisterType::I16 => 2,
            RegisterType::I32 => 4,
            RegisterType::I64 => 8,
        }
    }

    /// The integer type of the values the register holds.
    pub fn to_int_type(&self) -> (r: IntType)
        ensures
            r == self.int_type(),
    {
        match self {
            RegisterType::I8 => IntType::I8,
            RegisterType::I16 => IntType::I16,
            RegisterType::I32 => IntType::I32,
            RegisterType::I64 => IntType::I64,
        }
    }
}

/// A register resolved to its place in the host state.
#[derive(Debug, Clone, Copy, PartialEq, Eq, Structural)]
pub struct Register {
    pub offset: usize,
    pub ty: RegisterType,
}

impl Register {
    /// Whether the register lies inside a state of `len` bytes.
    pub open spec fn fits(self, len: nat) -> bool {
        self.offset + self.ty.width() <= len && self.offset + self.ty.width() <= usize::MAX
    }

    /// The value the register holds in the state bytes, or `None` when it lies
    /// outside them.
    pub open spec fn spec_read(self, bytes: Seq<u8>) -> Option<IntImmed> {
        if self.fits(bytes.len()) {
            Some(
                self.ty.int_type().wrap(
                    le_value(bytes.subrange(self.offset as int, self.offset + self.ty.width()))
                        as int,
                ),
            )
        } else {
            None
        }
    }

    /// The state bytes after storing the low bytes of `value` in the register, or
    /// `None` when it lies outside them.
    pub open spec fn spec_write(self, bytes: Seq<u8>, value: u64) -> Option<Seq<u8>> {
        if self.fits(bytes.len()) {
            Some(
                Seq::new(
                    bytes.len(),
                    |i: int|
                        if self.offset <= i < self.offset + self.ty.width() {
                            le_byte(value as nat, (i - self.offset) as nat)
                        } else {
                            bytes[i]
                        },
                ),
            )
        } else {
            None
        }
    }

    /// Reading a register after writing `value` to it gives `value` truncated to
    /// the register's width.
    pub proof fn lemma_read_after_write(self, bytes: Seq<u8>, value: u64)
        requires
            self.fits(bytes.len()),
        ensures
            self.spec_read(self.spec_write(bytes, value).unwrap()) == Some(
                self.ty.int_type().wrap(value as int),
            ),
    {
        let w = self.ty.width();
        let written = self.spec_write(bytes, value).unwrap();
        let range = written.subrange(self.offset as int, self.offset + w);
        assert(range =~= Seq::new(w, |k: int| le_byte(value as nat, k as nat)));
        lemma_le_round_trip(value as nat, w);
        reveal_with_fuel(pow256, 9);
        assert(pow256(w) == self.ty.int_type().modulus());
        vstd::arithmetic::div_mod::lemma_mod_mod(value as int, pow256(w) as int, 1);
    }

    /// Reads the register from the state; `None` when it lies outside it.
    pub fn read<State: RegisterMap>(&self, state: &State) -> (r: Option<IntImmed>)
        ensures
            r == self.spec_read(state.bytes()),
    {
        let w = self.ty.bytes();
        if self.offset > usize::MAX - w {
            return None;
        }
        let end = self.offset + w;
        if !state.has_byte(end - 1) {
            return None;
        }
        let ghost bytes = state.bytes();
        let mut acc: u64 = 0;
        let mut k: usize = w;
        while k > 0
            invariant
                bytes == state.bytes(),
                end == self.offset + w,
                w == self.ty.width(),
                end <= bytes.len(),
                k <= w,
                acc == le_value(bytes.subrange(self.offset + k, end as int)),
                acc < pow256((w - k) as nat),
            decreases k,
        {
            proof {
                lemma_pow256_small((w - k) as nat);
            }
            k -= 1;
            let b = state.read_byte(self.offset + k);
            proof {
                lemma_le_value_step(bytes, self.offset + k, end as int);
                assert(pow256((w - k) as nat) == 256 * pow256((w - k - 1) as nat));
            }
            acc = acc * 256 + b as u64;
        }
        Some(self.ty.to_int_type().from_u64(acc))
    }

    /// Stores the low bytes of `value` in the register; returns false, leaving the
    /// state as it was, when the register lies outside it.
    pub fn write<State: RegisterMap>(&self, value: u64, state: &mut State) -> (r: bool)
        ensures
            match self.spec_write(old(state).bytes(), value) {
                Some(b) => r && final(state).bytes() == b,
                None => !r && final(state).bytes() == old(state).bytes(),
            },
    {
        let w = self.ty.bytes();
        if self.offset > usize::MAX - w {
            return false;
        }
        let end = self.offset + w;
        if !state.has_byte(end - 1) {
            return false;
        }
        let ghost orig = state.bytes();
        let mut cur: u64 = value;
        let mut k: usize = 0;
        assert(pow256(0) == 1);
        while k < w
            invariant
                end == self.offset + w,
                w == self.ty.width(),
                end <= orig.len(),
                k <= w,
                cur == value as nat / pow256(k as nat),
                state.bytes() == Seq::new(
                    orig.len(),
                    |i: int|
                        if self.offset <= i < self.offset + k {
                            le_byte(value as nat, (i - self.offset) as nat)
                        } else {
                            orig[i]
                        },
                ),
            decreases w - k,
        {
            let ghost before = state.bytes();
            state.write_byte(self.offset + k, (cur % 256) as u8);
            proof {
                lemma_pow256_positive(k as nat);
                vstd::arithmetic::div_mod::lemma_div_denominator(
                    value as int,
                    pow256(k as nat) as int,
                    256,
                );
                assert(state.bytes() =~= Seq::new(
                    orig.len(),
                    |i: int|
                        if self.offset <= i < self.offset + k + 1 {
                            le_byte(value as nat, (i - self.offset) as nat)
                        } else {
                            orig[i]
                        },
                ));
            }
            cur = cur / 256;
            k += 1;
        }
        proof {
            assert(state.bytes() =~= self.spec_write(orig, value).unwrap());
        }
        true
    }

    /// The value `immed` becomes when held in this register: its unsigned value
    /// truncated to the register's width.
    pub fn trunc_to_type(&self, immed: IntImmed) -> (r: IntImmed)
        ensures
            r == self.ty.int_type().wrap(immed.value() as int),
    {
        self.ty.to_int_type().from_u64(immed.to_u64())
    }
}

/// A host state structure whose registers the IR can address: it reports the
/// table of its registers and offers its bytes through a bounds-checked view.
pub trait RegisterMap: Sized {
    /// The bytes of the state, in memory order.
    spec fn bytes(&self) -> Seq<u8>;

    /// The register table of the state type.
    spec fn layout() -> Seq<Register>;

    /// The register table, one entry per register index.
    fn register_offsets() -> (r: Vec<Register>)
        ensures
            r@ == Self::layout(),
    ;

    /// Whether byte `i` exists.
    fn has_byte(&self, i: usize) -> (r: bool)
        ensures
            r == (i < self.bytes().len()),
    ;

    /// Byte `i`.
    fn read_byte(&self, i: usize) -> (r: u8)
        requires
            i < self.bytes().len(),
        ensures
            r == self.bytes()[i as int],
    ;

    /// Sets byte `i`.
    fn write_byte(&mut self, i: usize, v: u8)
        requires
            i < old(self).bytes().len(),
        ensures
            final(self).bytes() == old(self).bytes().update(i as int, v),
    ;
}

/// An integer type that may back a register slot.
pub trait AsRegister: Copy {
    /// The register type a slot of this type has.
    spec fn reg_type() -> RegisterType;

    /// Byte `k` of `v` as laid out in memory.
    spec fn byte_of(v: Self, k: nat) -> u8;

    /// The register type a slot of this type has.
    fn to_reg_type() -> (r: RegisterType)
        ensures
            r == Self::reg_type(),
    ;

    /// Byte `k` of `v` as laid out in memory.
    fn get_byte(v: Self, k: usize) -> (r: u8)
        requires
            k < Self::reg_type().width(),
        ensures
            r == Self::byte_of(v, k as nat),
    ;

    /// `v` with byte `k` replaced by `b`.
    fn set_byte(v: Self, k: usize, b: u8) -> (r: Self)
        requires
            k < Self::reg_type().width(),
        ensures
            forall|j: nat|
                j < Self::reg_type().width() ==> #[trigger] Self::byte_of(r, j) == if j == k {
                    b
                } else {
                    Self::byte_of(v, j)
                },
    ;
}

/// Replacing one byte of a 64-bit word.
proof fn lemma_set_byte_u64(v: u64, b: u64, s: u64, t: u64)
    requires
        b < 256,
        s < 64,
        t < 64,
        s % 8 == 0,
        t % 8 == 0,
    ensures
        ((((v & !(0xffu64 << s)) | (b << s)) >> t) & 0xff) == if s == t {
            b
        } else {
            (v >> t) & 0xff
        },
{
    assert(((((v & !(0xffu64 << s)) | (b << s)) >> t) & 0xff) == if s == t {
        b
    } else {
        (v >> t) & 0xff
    }) by (bit_vector)
        requires
            b < 256,
            s < 64,
            t < 64,
            s % 8 == 0,
            t % 8 == 0,
    ;
}

/// Replacing one byte of a 32-bit word.
proof fn lemma_set_byte_u32(v: u32, b: u32, s: u32, t: u32)
    requires
        b < 256,
        s < 32,
        t < 32,
        s % 8 == 0,
        t % 8 == 0,
    ensures
        ((((v & !(0xffu32 << s)) | (b << s)) >> t) & 0xff) == if s == t {
            b
        } else {
            (v >> t) & 0xff
        },
{
    assert(((((v & !(0xffu32 << s)) | (b << s)) >> t) & 0xff) == if s == t {
        b
    } else {
        (v >> t) & 0xff
    }) by (bit_vector)
        requires
            b < 256,
            s < 32,
            t < 32,
            s % 8 == 0,
            t % 8 == 0,
    ;
}

/// Replacing one byte of a 16-bit word.
proof fn lemma_set_byte_u16(v: u16, b: u16, s: u16, t: u16)
    requires
        b < 256,
        s < 16,
        t < 16,
        s % 8 == 0,
        t % 8 == 0,
    ensures
        ((((v & !(0xffu16 << s)) | (b << s)) >> t) & 0xff) == if s == t {
            b
        } else {
            (v >> t) & 0xff
        },
{
    assert(((((v & !(0xffu16 << s)) | (b << s)) >> t) & 0xff) == if s == t {
        b
    } else {
        (v >> t) & 0xff
    }) by (bit_vector)
        requires
            b < 256,
            s < 16,
            t < 16,
            s % 8 == 0,
            t % 8 == 0,
    ;
}

/// A masked byte fits in a byte.
proof fn lemma_mask_byte_u64(x: u64)
    ensures
        x & 0xff < 256,
{
    assert(x & 0xff < 256) by (bit_vector);
}

/// A masked byte fits in a byte.
proof fn lemma_mask_byte_u32(x: u32)
    ensures
        x & 0xff < 256,
{
    assert(x & 0xff < 256) by (bit_vector);
}

/// A masked byte fits in a byte.
proof fn lemma_mask_byte_u16(x: u16)
    ensures
        x & 0xff < 256,
{
    assert(x & 0xff < 256) by (bit_vector);
}

impl AsRegister for u8 {
    open spec fn reg_type() -> RegisterType {
        RegisterType::I8
    }

    open spec fn byte_of(v: u8, k: nat) -> u8 {
        v
    }

    fn to_reg_type() -> (r: RegisterType) {
        RegisterType::I8
    }

    fn get_byte(v: u8, k: usize) -> (r: u8) {
        v
    }

    fn set_byte(v: u8, k: usize, b: u8) -> (r: u8) {
        b
    }
}

impl AsRegister for u16 {
    open spec fn reg_type() -> RegisterType {
        RegisterType::I16
    }

    open spec fn byte_of(v: u16, k: nat) -> u8 {
        ((v >> (8 * k) as u16) & 0xff) as u8
    }

    fn to_reg_type() -> (r: RegisterType) {
        RegisterType::I16
    }

    fn get_byte(v: u16, k: usize) -> (r: u8) {
        let s = (8 * k) as u16;
        proof {
            lemma_mask_byte_u16(v >> s);
        }
        ((v >> s) & 0xff) as u8
    }

    fn set_byte(v: u16, k: usize, b: u8) -> (r: u16) {
        let s = (8 * k) as u16;
        let r = (v & !(0xffu16 << s)) | ((b as u16) << s);
        proof {
            assert forall|j: nat| j < 2 implies #[trigger] Self::byte_of(r, j) == if j == k {
                b
            } else {
                Self::byte_of(v, j)
            } by {
                lemma_set_byte_u16(v, b as u16, s, (8 * j) as u16);
            }
        }
        r
    }
}

impl AsRegister for u32 {
    open spec fn reg_type() -> RegisterType {
        RegisterType::I32
    }

    open spec fn byte_of(v: u32, k: nat) -> u8 {
        ((v >> (8 * k) as u32) & 0xff) as u8
    }

    fn to_reg_type() -> (r: RegisterType) {
        RegisterType::I32
    }

    fn get_byte(v: u32, k: usize) -> (r: u8) {
        let s = (8 * k) as u32;
        proof {
            lemma_mask_byte_u32(v >> s);
        }
        ((v >> s) & 0xff) as u8
    }

    fn set_byte(v: u32, k: usize, b: u8) -> (r: u32) {
        let s = (8 * k) as u32;
        let r = (v & !(0xffu32 << s)) | ((b as u32) << s);
        proof {
            assert forall|j: nat| j < 4 implies #[trigger] Self::byte_of(r, j) == if j == k {
                b
            } else {
                Self::byte_of(v, j)
            } by {
                lemma_set_byte_u32(v, b as u32, s, (8 * j) as u32);
            }
        }
        r
    }
}

impl AsRegister for u64 {
    open spec fn reg_type() -> RegisterType {
        RegisterType::I64
    }

    open spec fn byte_of(v: u64, k: nat) -> u8 {
        ((v >> (8 * k) as u64) & 0xff) as u8
    }

    fn to_reg_type() -> (r: RegisterType) {
        RegisterType::I64
    }

    fn get_byte(v: u64, k: usize) -> (r: u8) {
        let s = (8 * k) as u64;
        proof {
            lemma_mask_byte_u64(v >> s);
        }
        ((v >> s) & 0xff) as u8
    }

    fn set_byte(v: u64, k: usize, b: u8) -> (r: u64) {
        let s = (8 * k) as u64;
        let r = (v & !(0xffu64 << s)) | ((b as u64) << s);
        proof {
            assert forall|j: nat| j < 8 implies #[trigger] Self::byte_of(r, j) == if j == k {
                b
            } else {
                Self::byte_of(v, j)
            } by {
                lemma_set_byte_u64(v, b as u64, s, (8 * j) as u64);
            }
        }
        r
    }
}

/// Number of registers of an array state of `n` slots of `w` bytes whose offsets
/// can be written as a `usize`.
pub open spec fn array_register_count(n: nat, w: nat) -> nat {
    if n <= usize::MAX as nat / w + 1 {
        n
    } else {
        (usize::MAX as nat / w + 1) as nat
    }
}

impl<T: AsRegister, const N: usize> RegisterMap for [T; N] {
    open spec fn bytes(&self) -> Seq<u8> {
        let w = T::reg_type().width();
        Seq::new(N as nat * w, |i: int| T::byte_of(self@[i / w as int], (i % w as int) as nat))
    }

    open spec fn layout() -> Seq<Register> {
        let w = T::reg_type().width();
        Seq::new(
            array_register_count(N as nat, w),
            |i: int| Register { offset: (i * w) as usize, ty: T::reg_type() },
        )
    }

    fn register_offsets() -> (r: Vec<Register>) {
        let ty = T::to_reg_type();
        let w = ty.bytes();
        let mut r: Vec<Register> = Vec::new();
        let mut i: usize = 0;
        while i < N && i <= usize::MAX / w
            invariant
                w == T::reg_type().width(),
                ty == T::reg_type(),
                i <= N,
                i <= usize::MAX as nat / (w as nat) + 1,
                r@ == Self::layout().subrange(0, i as int),
            decreases N - i,
        {
            proof {
                vstd::arithmetic::div_mod::lemma_fundamental_div_mod(usize::MAX as int, w as int);
                vstd::arithmetic::mul::lemma_mul_inequality(i as int, usize::MAX as int / w as int, w as int);
            }
            r.push(Register { offset: i * w, ty });
            i += 1;
            proof {
                assert(r@ =~= Self::layout().subrange(0, i as int));
            }
        }
        proof {
            assert(r@ =~= Self::layout());
        }
        r
    }

    fn has_byte(&self, i: usize) -> (r: bool) {
        let w = T::to_reg_type().bytes();
        proof {
            lemma_div_lt(i as int, N as int, w as int);
        }
        i / w < N
    }

    fn read_byte(&self, i: usize) -> (r: u8) {
        let w = T::to_reg_type().bytes();
        proof {
            lemma_div_lt(i as int, N as int, w as int);
        }
        T::get_byte(self[i / w], i % w)
    }

    fn write_byte(&mut self, i: usize, v: u8) {
        let w = T::to_reg_type().bytes();
        proof {
            lemma_div_lt(i as int, N as int, w as int);
        }
        let e = i / w;
        let k = i % w;
        let nv = T::set_byte(self[e], k, v);
        let ghost before = *self;
        self.set(e, nv);
        proof {
            let wi = w as int;
            assert forall|j: int| 0 <= j < N as nat * w implies #[trigger] self.bytes()[j]
                == before.bytes().update(i as int, v)[j] by {
                vstd::arithmetic::div_mod::lemma_fundamental_div_mod(j, wi);
                vstd::arithmetic::div_mod::lemma_fundamental_div_mod(i as int, wi);
                lemma_div_lt(j, N as int, wi);
                if j / wi == e as int {
                    if j % wi == k as int {
                        assert(j == i);
                    } else {
                        assert(j != i);
                    }
                } else {
                    assert(j != i);
                }
            }
            assert(self.bytes() =~= before.bytes().update(i as int, v));
        }
    }
}

/// For positive `w`, `i < n * w` exactly when `i / w < n`.
proof fn lemma_div_lt(i: int, n: int, w: int)
    requires
        0 <= i,
        0 <= n,
        0 < w,
    ensures
        (i < n * w) == (i / w < n),
        0 <= i % w < w,
        i / w >= 0,
{
    vstd::arithmetic::div_mod::lemma_fundamental_div_mod(i, w);
    if i / w < n {
        vstd::arithmetic::mul::lemma_mul_inequality(i / w + 1, n, w);
        assert((i / w + 1) * w == (i / w) * w + w) by (nonlinear_arith);
        assert(w * (i / w) == (i / w) * w) by (nonlinear_arith);
    } else {
        vstd::arithmetic::mul::lemma_mul_inequality(n, i / w, w);
        assert(w * (i / w) == (i / w) * w) by (nonlinear_arith);
    }
}

} // verus!
