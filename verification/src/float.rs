//! Binary floating-point numbers, held as their IEEE 754 bit patterns.
//!
//! Everything that is decided by the bits alone is decided here and verified:
//! equality, order, negation and clamping. What needs a floating-point unit is an
//! operation of [`FloatOps`]. Nothing is taken for granted about what those operations
//! return: a contract that goes through one says which operation was
//! applied to which operands.

use vstd::arithmetic::power2::{
    lemma2_to64, lemma_pow2_adds, lemma_pow2_pos, lemma_pow2_strictly_increases, lemma_pow2_unfold,
    pow2,
};
use vstd::prelude::*;

verus! {

/// The numeric size of a bit pattern without its sign bit, in units of the
/// smallest positive number of the format: a biased exponent above `frac_bits` bits
/// of fraction.
/// The pattern of infinity gets the power of two that follows the largest
/// finite number.
pub open spec fn magnitude(code: nat, frac_bits: nat) -> nat {
    let unit = pow2(frac_bits);
    let exponent = code / unit;
    let fraction = code % unit;
    if exponent == 0 {
        fraction
    } else {
        (unit + fraction) * pow2((exponent - 1) as nat)
    }
}

/// A larger code is a larger number.
proof fn lemma_magnitude_increases(a: nat, b: nat, frac_bits: nat)
    requires
        a < b,
    ensures
        magnitude(a, frac_bits) < magnitude(b, frac_bits),
{
    let unit = pow2(frac_bits);
    lemma_pow2_pos(frac_bits);
    let (ea, fa) = (a / unit, a % unit);
    let (eb, fb) = (b / unit, b % unit);
    assert(a == ea * unit + fa && fa < unit) by (nonlinear_arith)
        requires
            unit > 0,
            ea == a / unit,
            fa == a % unit,
    ;
    assert(b == eb * unit + fb && fb < unit) by (nonlinear_arith)
        requires
            unit > 0,
            eb == b / unit,
            fb == b % unit,
    ;
    assert(ea <= eb && (ea == eb ==> fa < fb)) by (nonlinear_arith)
        requires
            a < b,
            a == ea * unit + fa,
            b == eb * unit + fb,
            fa < unit,
            fb < unit,
    ;
    if eb > 0 {
        let pb = pow2((eb - 1) as nat);
        lemma_pow2_pos((eb - 1) as nat);
        assert((unit + fb) * pb >= unit * pb) by (nonlinear_arith)
            requires
                pb > 0,
        ;
        if ea == eb {
            assert((unit + fa) * pb < (unit + fb) * pb) by (nonlinear_arith)
                requires
                    fa < fb,
                    pb > 0,
            ;
        } else if ea == 0 {
            assert(unit * pb >= unit) by (nonlinear_arith)
                requires
                    pb > 0,
            ;
        } else {
            let pa = pow2((ea - 1) as nat);
            lemma_pow2_pos((ea - 1) as nat);
            lemma_pow2_unfold(ea);
            if ea < eb - 1 {
                lemma_pow2_strictly_increases(ea, (eb - 1) as nat);
            }
            assert(2 * pa <= pb);
            assert((unit + fa) * pa < unit * pb) by (nonlinear_arith)
                requires
                    fa < unit,
                    pa > 0,
                    2 * pa <= pb,
            ;
        }
    }
}

/// Two codes of one numeric size are one code.
proof fn lemma_magnitude_injective(a: nat, b: nat, frac_bits: nat)
    ensures
        magnitude(a, frac_bits) == magnitude(b, frac_bits) ==> a == b,
        magnitude(a, frac_bits) < magnitude(b, frac_bits) <==> a < b,
        magnitude(0, frac_bits) == 0,
{
    lemma_pow2_pos(frac_bits);
    assert(0nat / pow2(frac_bits) == 0 && 0nat % pow2(frac_bits) == 0) by (nonlinear_arith)
        requires
            pow2(frac_bits) > 0,
    ;
    if a < b {
        lemma_magnitude_increases(a, b, frac_bits);
    } else if b < a {
        lemma_magnitude_increases(b, a, frac_bits);
    }
}

/// The bits of the largest number that lies below one by 0.00001 or more.
pub const BELOW_ONE: u32 = 0x3f7f_ff58;

/// The bits of the smallest number that lies above one by 0.00001 or more.
pub const ABOVE_ONE: u32 = 0x3f80_0054;

/// A single-precision number: its bit pattern.
#[derive(Clone, Copy, Debug)]
pub struct F32 {
    pub bits: u32,
}

/// A double-precision number: its bit pattern.
#[derive(Clone, Copy, Debug)]
pub struct F64 {
    pub bits: u64,
}

impl F32 {
    /// Zero, without a sign.
    #[verifier::allow_in_spec]
    pub fn zero() -> F32
        returns
            (F32 { bits: 0 }),
    {
        F32 { bits: 0 }
    }

    /// One.
    #[verifier::allow_in_spec]
    pub fn one() -> F32
        returns
            (F32 { bits: 0x3f80_0000 }),
    {
        F32 { bits: 0x3f80_0000 }
    }

    /// The bit pattern without its sign bit.
    pub open spec fn code(self) -> nat {
        (self.bits % 0x8000_0000) as nat
    }

    /// Whether the sign bit is set.
    pub open spec fn negative(self) -> bool {
        self.bits >= 0x8000_0000
    }

    /// All exponent bits set above a fraction that is not zero.
    pub open spec fn is_nan(self) -> bool {
        self.code() > 0x7f80_0000
    }

    /// The number that a pattern other than a NaN stands for, in units of
    /// 2 to the power -149.
    pub open spec fn units(self) -> int {
        if self.negative() {
            -(magnitude(self.code(), 23) as int)
        } else {
            magnitude(self.code(), 23) as int
        }
    }

    /// `self < other` of two numbers; a NaN is less than nothing and nothing is less
    /// than a NaN.
    pub open spec fn less(self, other: F32) -> bool {
        !self.is_nan() && !other.is_nan() && self.units() < other.units()
    }

    /// `self == other` of two numbers: both zeros are equal, and a NaN equals nothing.
    pub open spec fn same(self, other: F32) -> bool {
        !self.is_nan() && !other.is_nan() && self.units() == other.units()
    }

    /// `self` with its sign bit turned.
    pub open spec fn negated(self) -> F32 {
        if self.negative() {
            F32 { bits: (self.bits - 0x8000_0000) as u32 }
        } else {
            F32 { bits: (self.bits + 0x8000_0000) as u32 }
        }
    }

    /// Neither infinite nor a NaN.
    pub open spec fn is_finite(self) -> bool {
        self.code() < 0x7f80_0000
    }

    /// `self` without its sign.
    pub open spec fn absolute(self) -> F32 {
        F32 { bits: (self.bits % 0x8000_0000) as u32 }
    }

    /// The larger of two numbers.
    pub open spec fn larger(self, other: F32) -> F32 {
        if self.less(other) {
            other
        } else {
            self
        }
    }

    /// Closer to one than the tolerance within which a length counts as one, 0.00001.
    pub open spec fn near_one(self) -> bool {
        (F32 { bits: BELOW_ONE }).less(self) && self.less(F32 { bits: ABOVE_ONE })
    }

    /// Two numbers that lie opposite each other about zero; both zeros do.
    pub open spec fn opposite(self, other: F32) -> bool {
        !self.is_nan() && !other.is_nan() && self.units() == -other.units()
    }

    /// `self` held between zero and one; a NaN stays as it is.
    pub open spec fn clamped(self) -> F32 {
        if self.less(F32::zero()) {
            F32::zero()
        } else if F32::one().less(self) {
            F32::one()
        } else {
            self
        }
    }

    /// The number with the given bit pattern.
    pub fn from_bits(bits: u32) -> (r: F32)
        ensures
            r.bits == bits,
    {
        F32 { bits }
    }

    /// The bit pattern of the number.
    pub fn to_bits(self) -> (r: u32)
        ensures
            r == self.bits,
    {
        self.bits
    }

    /// The integer by which numbers other than NaNs are ordered: the code, with the
    /// sign in front.
    fn key(self) -> (r: i64)
        ensures
            r == if self.negative() {
                -(self.code() as int)
            } else {
                self.code() as int
            },
    {
        if self.bits >= 0x8000_0000 {
            -((self.bits - 0x8000_0000) as i64)
        } else {
            self.bits as i64
        }
    }

    fn nan(self) -> (r: bool)
        ensures
            r == self.is_nan(),
    {
        self.bits % 0x8000_0000 > 0x7f80_0000
    }

    /// Whether `self < other` holds of the two numbers.
    pub fn lt(self, other: F32) -> (r: bool)
        ensures
            r == self.less(other),
    {
        proof {
            lemma_magnitude_injective(self.code(), other.code(), 23);
            lemma_magnitude_injective(other.code(), self.code(), 23);
            lemma_magnitude_injective(self.code(), 0, 23);
            lemma_magnitude_injective(other.code(), 0, 23);
        }
        !self.nan() && !other.nan() && self.key() < other.key()
    }

    /// The number with the other sign.
    pub fn neg(self) -> (r: F32)
        ensures
            r == self.negated(),
    {
        if self.bits >= 0x8000_0000 {
            F32 { bits: self.bits - 0x8000_0000 }
        } else {
            F32 { bits: self.bits + 0x8000_0000 }
        }
    }

    /// Whether the number is neither infinite nor a NaN.
    pub fn finite(self) -> (r: bool)
        ensures
            r == self.is_finite(),
    {
        self.bits % 0x8000_0000 < 0x7f80_0000
    }

    /// The number without its sign.
    pub fn abs(self) -> (r: F32)
        ensures
            r == self.absolute(),
    {
        F32 { bits: self.bits % 0x8000_0000 }
    }

    /// Whether the number is closer to one than 0.00001.
    pub fn close_to_one(self) -> (r: bool)
        ensures
            r == self.near_one(),
    {
        (F32 { bits: BELOW_ONE }).lt(self) && self.lt(F32 { bits: ABOVE_ONE })
    }

    /// The larger of two numbers.
    pub fn max(self, other: F32) -> (r: F32)
        ensures
            r == self.larger(other),
    {
        if self.lt(other) {
            other
        } else {
            self
        }
    }

    /// The number, or the nearer end of the interval from zero to one.
    pub fn clamp_unit(self) -> (r: F32)
        ensures
            r == self.clamped(),
    {
        if self.lt(F32::zero()) {
            F32::zero()
        } else if F32::one().lt(self) {
            F32::one()
        } else {
            self
        }
    }
}

impl F64 {
    /// Zero, without a sign.
    #[verifier::allow_in_spec]
    pub fn zero() -> F64
        returns
            (F64 { bits: 0 }),
    {
        F64 { bits: 0 }
    }

    /// The bit pattern without its sign bit.
    pub open spec fn code(self) -> nat {
        (self.bits % 0x8000_0000_0000_0000) as nat
    }

    /// Whether the sign bit is set.
    pub open spec fn negative(self) -> bool {
        self.bits >= 0x8000_0000_0000_0000
    }

    /// All exponent bits set above a fraction that is not zero.
    pub open spec fn is_nan(self) -> bool {
        self.code() > 0x7ff0_0000_0000_0000
    }

    /// Neither infinite nor a NaN.
    pub open spec fn is_finite(self) -> bool {
        self.code() < 0x7ff0_0000_0000_0000
    }

    /// The number that a pattern other than a NaN stands for, in units of
    /// 2 to the power -1074.
    pub open spec fn units(self) -> int {
        if self.negative() {
            -(magnitude(self.code(), 52) as int)
        } else {
            magnitude(self.code(), 52) as int
        }
    }

    /// `self == other` of two numbers: both zeros are equal, and a NaN equals nothing.
    pub open spec fn same(self, other: F64) -> bool {
        !self.is_nan() && !other.is_nan() && self.units() == other.units()
    }

    /// The number with the given bit pattern.
    pub fn from_bits(bits: u64) -> (r: F64)
        ensures
            r.bits == bits,
    {
        F64 { bits }
    }

    /// The bit pattern of the number.
    pub fn to_bits(self) -> (r: u64)
        ensures
            r == self.bits,
    {
        self.bits
    }

    fn nan(self) -> (r: bool)
        ensures
            r == self.is_nan(),
    {
        self.bits % 0x8000_0000_0000_0000 > 0x7ff0_0000_0000_0000
    }
}

impl PartialEq for F32 {
    fn eq(&self, other: &F32) -> (r: bool) {
        proof {
            lemma_magnitude_injective(self.code(), other.code(), 23);
            lemma_magnitude_injective(self.code(), 0, 23);
            lemma_magnitude_injective(other.code(), 0, 23);
        }
        !self.nan() && !other.nan() && self.key() == other.key()
    }
}

impl vstd::std_specs::cmp::PartialEqSpecImpl for F32 {
    open spec fn obeys_eq_spec() -> bool {
        true
    }

    open spec fn eq_spec(&self, other: &F32) -> bool {
        self.same(*other)
    }
}

impl PartialEq for F64 {
    fn eq(&self, other: &F64) -> (r: bool) {
        proof {
            lemma_magnitude_injective(self.code(), other.code(), 52);
            lemma_magnitude_injective(self.code(), 0, 52);
            lemma_magnitude_injective(other.code(), 0, 52);
        }
        let both_zero = self.bits % 0x8000_0000_0000_0000 == 0 && other.bits
            % 0x8000_0000_0000_0000 == 0;
        !self.nan() && !other.nan() && (self.bits == other.bits || both_zero)
    }
}

impl vstd::std_specs::cmp::PartialEqSpecImpl for F64 {
    open spec fn obeys_eq_spec() -> bool {
        true
    }

    open spec fn eq_spec(&self, other: &F64) -> bool {
        self.same(*other)
    }
}

impl DeepView for F32 {
    type V = F32;

    open spec fn deep_view(&self) -> F32 {
        *self
    }
}

impl DeepView for F64 {
    type V = F64;

    open spec fn deep_view(&self) -> F64 {
        *self
    }
}

/// The operations of a floating-point unit.
///
/// An implementation rounds as it likes; no contract of this library rests on
/// what an operation returns.
pub trait FloatOps {
    /// `a + b`.
    fn add32(a: F32, b: F32) -> F32;

    /// `a - b`.
    fn sub32(a: F32, b: F32) -> F32;

    /// `a * b`.
    fn mul32(a: F32, b: F32) -> F32;

    /// `a / b`.
    fn div32(a: F32, b: F32) -> F32;

    /// The square root of `a`.
    fn sqrt32(a: F32) -> F32;

    /// The sine of `a` radians.
    fn sin32(a: F32) -> F32;

    /// The cosine of `a` radians.
    fn cos32(a: F32) -> F32;

    /// The single-precision number nearest to `n`.
    fn from_u64(n: u64) -> F32;

    /// `a` in single precision.
    fn narrow(a: F64) -> F32;

    /// `a` in double precision.
    fn widen(a: F32) -> F64;

    /// `a + b`.
    fn add64(a: F64, b: F64) -> F64;

    /// `a - b`.
    fn sub64(a: F64, b: F64) -> F64;

    /// `a * b`.
    fn mul64(a: F64, b: F64) -> F64;
}

/// `K` may answer `r` for `a + b`.
pub open spec fn sums<K: FloatOps>(a: F32, b: F32, r: F32) -> bool {
    call_ensures(K::add32, (a, b), r)
}

/// `K` may answer `r` for `a - b`.
pub open spec fn subtracts<K: FloatOps>(a: F32, b: F32, r: F32) -> bool {
    call_ensures(K::sub32, (a, b), r)
}

/// `K` may answer `r` for `a * b`.
pub open spec fn multiplies<K: FloatOps>(a: F32, b: F32, r: F32) -> bool {
    call_ensures(K::mul32, (a, b), r)
}

/// `K` may answer `r` for `a / b`.
pub open spec fn divides<K: FloatOps>(a: F32, b: F32, r: F32) -> bool {
    call_ensures(K::div32, (a, b), r)
}

/// `K` may answer `r` for the square root of `a`.
pub open spec fn roots<K: FloatOps>(a: F32, r: F32) -> bool {
    call_ensures(K::sqrt32, (a,), r)
}

/// `K` may answer `r` for the sine of `a`.
pub open spec fn sines<K: FloatOps>(a: F32, r: F32) -> bool {
    call_ensures(K::sin32, (a,), r)
}

/// `K` may answer `r` for the cosine of `a`.
pub open spec fn cosines<K: FloatOps>(a: F32, r: F32) -> bool {
    call_ensures(K::cos32, (a,), r)
}

/// `K` may answer `r` for the single-precision number nearest to `n`.
pub open spec fn converts<K: FloatOps>(n: u64, r: F32) -> bool {
    call_ensures(K::from_u64, (n,), r)
}

/// `K` may answer `r` for `a` in single precision.
pub open spec fn narrows<K: FloatOps>(a: F64, r: F32) -> bool {
    call_ensures(K::narrow, (a,), r)
}

/// `K` may answer `r` for `a` in double precision.
pub open spec fn widens<K: FloatOps>(a: F32, r: F64) -> bool {
    call_ensures(K::widen, (a,), r)
}

/// `K` may answer `r` for `a + b` in double precision.
pub open spec fn sums64<K: FloatOps>(a: F64, b: F64, r: F64) -> bool {
    call_ensures(K::add64, (a, b), r)
}

/// `K` may answer `r` for `a - b` in double precision.
pub open spec fn subtracts64<K: FloatOps>(a: F64, b: F64, r: F64) -> bool {
    call_ensures(K::sub64, (a, b), r)
}

/// `K` may answer `r` for `a * b` in double precision.
pub open spec fn multiplies64<K: FloatOps>(a: F64, b: F64, r: F64) -> bool {
    call_ensures(K::mul64, (a, b), r)
}

/// Each operation of `K` has one answer to each question.
pub open spec fn deterministic<K: FloatOps>() -> bool {
    &&& forall|a: F32, b: F32, r: F32, s: F32| #[trigger]
        sums::<K>(a, b, r) && #[trigger] sums::<K>(a, b, s) ==> r == s
    &&& forall|a: F32, b: F32, r: F32, s: F32| #[trigger]
        subtracts::<K>(a, b, r) && #[trigger] subtracts::<K>(a, b, s) ==> r == s
    &&& forall|a: F32, b: F32, r: F32, s: F32| #[trigger]
        multiplies::<K>(a, b, r) && #[trigger] multiplies::<K>(a, b, s) ==> r == s
    &&& forall|a: F32, b: F32, r: F32, s: F32| #[trigger]
        divides::<K>(a, b, r) && #[trigger] divides::<K>(a, b, s) ==> r == s
    &&& forall|a: F32, r: F32, s: F32| #[trigger]
        roots::<K>(a, r) && #[trigger] roots::<K>(a, s) ==> r == s
    &&& forall|a: F32, r: F32, s: F32| #[trigger]
        sines::<K>(a, r) && #[trigger] sines::<K>(a, s) ==> r == s
    &&& forall|a: F32, r: F32, s: F32| #[trigger]
        cosines::<K>(a, r) && #[trigger] cosines::<K>(a, s) ==> r == s
    &&& forall|n: u64, r: F32, s: F32| #[trigger]
        converts::<K>(n, r) && #[trigger] converts::<K>(n, s) ==> r == s
    &&& forall|a: F64, r: F32, s: F32| #[trigger]
        narrows::<K>(a, r) && #[trigger] narrows::<K>(a, s) ==> r == s
    &&& forall|a: F32, r: F64, s: F64| #[trigger]
        widens::<K>(a, r) && #[trigger] widens::<K>(a, s) ==> r == s
    &&& forall|a: F64, b: F64, r: F64, s: F64| #[trigger]
        sums64::<K>(a, b, r) && #[trigger] sums64::<K>(a, b, s) ==> r == s
    &&& forall|a: F64, b: F64, r: F64, s: F64| #[trigger]
        subtracts64::<K>(a, b, r) && #[trigger] subtracts64::<K>(a, b, s) ==> r == s
    &&& forall|a: F64, b: F64, r: F64, s: F64| #[trigger]
        multiplies64::<K>(a, b, r) && #[trigger] multiplies64::<K>(a, b, s) ==> r == s
}

/// `K` treats both signs alike: opposite operands have opposite sums and products, and what
/// is made of a NaN is a NaN. A sum or product that is a NaN is left open.
pub open spec fn symmetric<K: FloatOps>() -> bool {
    &&& forall|a: F32, b: F32, r: F32, p: F32, q: F32, s: F32| #[trigger]
        sums::<K>(a, b, r) && #[trigger] sums::<K>(p, q, s) && a.opposite(p) && b.opposite(q)
            && !r.is_nan() ==> r.opposite(s)
    &&& forall|a: F32, b: F32, r: F32, q: F32, s: F32| #[trigger]
        multiplies::<K>(a, b, r) && #[trigger] multiplies::<K>(a, q, s) && b.opposite(q)
            && !r.is_nan() ==> r.opposite(s)
    &&& forall|a: F32, b: F32, r: F32| #[trigger]
        sums::<K>(a, b, r) && (a.is_nan() || b.is_nan()) ==> r.is_nan()
    &&& forall|a: F32, b: F32, r: F32| #[trigger]
        multiplies::<K>(a, b, r) && (a.is_nan() || b.is_nan()) ==> r.is_nan()
}

/// A single-precision number can hold exactly `u` units.
pub open spec fn holds32(u: int) -> bool {
    exists|c: F32| #[trigger] c.is_finite() && c.units() == u
}

/// A double-precision number can hold exactly `u` units.
pub open spec fn holds64(u: int) -> bool {
    exists|c: F64| #[trigger] c.is_finite() && c.units() == u
}

/// The finite number `r` has `u` units.
pub open spec fn is32(r: F32, u: int) -> bool {
    r.is_finite() && r.units() == u
}

/// The finite number `r` has `u` units.
pub open spec fn is64(r: F64, u: int) -> bool {
    r.is_finite() && r.units() == u
}

/// How many units make one, in single precision.
pub open spec fn one32() -> int {
    pow2(149) as int
}

/// How many units make one, in double precision.
pub open spec fn one64() -> int {
    pow2(1074) as int
}

/// `K` rounds nothing that need not be rounded: where a number can hold the exact answer
/// to finite operands, that is the answer.
pub open spec fn exact<K: FloatOps>() -> bool {
    &&& forall|a: F32, b: F32, r: F32| #[trigger]
        sums::<K>(a, b, r) && a.is_finite() && b.is_finite() && holds32(a.units() + b.units())
            ==> is32(r, a.units() + b.units())
    &&& forall|a: F32, b: F32, r: F32| #[trigger]
        subtracts::<K>(a, b, r) && a.is_finite() && b.is_finite() && holds32(a.units() - b.units())
            ==> is32(r, a.units() - b.units())
    &&& forall|a: F32, b: F32, r: F32, u: int| #[trigger]
        multiplies::<K>(a, b, r) && a.is_finite() && b.is_finite() && #[trigger] holds32(u) && u
            * one32() == a.units() * b.units() ==> is32(r, u)
    &&& forall|a: F32, b: F32, r: F32, u: int| #[trigger]
        divides::<K>(a, b, r) && a.is_finite() && b.is_finite() && b.units() != 0
            && #[trigger] holds32(u) && u * b.units() == a.units() * one32() ==> is32(r, u)
    &&& forall|a: F32, r: F32, u: int| #[trigger]
        roots::<K>(a, r) && a.is_finite() && #[trigger] holds32(u) && u >= 0 && u * u == a.units()
            * one32() ==> is32(r, u)
    &&& forall|a: F64, b: F64, r: F64| #[trigger]
        sums64::<K>(a, b, r) && a.is_finite() && b.is_finite() && holds64(a.units() + b.units())
            ==> is64(r, a.units() + b.units())
    &&& forall|a: F64, b: F64, r: F64| #[trigger]
        subtracts64::<K>(a, b, r) && a.is_finite() && b.is_finite() && holds64(
            a.units() - b.units(),
        ) ==> is64(r, a.units() - b.units())
    &&& forall|a: F64, b: F64, r: F64, u: int| #[trigger]
        multiplies64::<K>(a, b, r) && a.is_finite() && b.is_finite() && #[trigger] holds64(u) && u
            * one64() == a.units() * b.units() ==> is64(r, u)
    &&& forall|a: F32, r: F64, u: int| #[trigger]
        widens::<K>(a, r) && a.is_finite() && #[trigger] holds64(u) && u * one32() == a.units()
            * one64() ==> is64(r, u)
}

/// One and zero are what they are called, and every finite number holds its own units.
pub proof fn law_numbers()
    ensures
        is32(F32::zero(), 0),
        is32(F32::one(), one32()),
        is64(F64::zero(), 0),
        holds32(0),
        holds32(one32()),
        holds64(0),
        forall|c: F32| #[trigger] c.is_finite() ==> holds32(c.units()),
        forall|c: F64| #[trigger] c.is_finite() ==> holds64(c.units()),
{
    lemma_magnitude_injective(0, 0, 23);
    lemma_magnitude_injective(0, 0, 52);
    lemma2_to64();
    lemma_pow2_adds(23, 126);
    assert(0x3f80_0000nat / 0x80_0000 == 127 && 0x3f80_0000nat % 0x80_0000 == 0);
    assert((pow2(23) + 0) * pow2(126) == pow2(149));
    assert(magnitude(0x3f80_0000, 23) == pow2(149));
    assert(F32::zero().is_finite() && F32::one().is_finite() && F64::zero().is_finite());
}

/// Turning the sign twice gives the number back, and turning it once turns the
/// number about zero.
pub proof fn law_negation(a: F32)
    ensures
        a.negated().negated() == a,
        a.negated().is_nan() == a.is_nan(),
        a.negated().units() == -a.units(),
{
}

/// Zero counts no units.
pub proof fn lemma_zero_units()
    ensures
        F32::zero().units() == 0,
        !F32::zero().is_nan(),
{
    lemma_magnitude_injective(0, 0, 23);
}

/// A clamped number lies between zero and one, clamping it again changes nothing, a number
/// between them stays as it is, and one outside goes to the end on its side.
pub proof fn law_clamp(t: F32)
    ensures
        t.clamped().clamped() == t.clamped(),
        !t.is_nan() ==> !t.clamped().less(F32::zero()) && !F32::one().less(t.clamped()),
        !t.is_nan() ==> 0 <= t.clamped().units() <= one32(),
        t.is_nan() ==> t.clamped() == t,
        0 <= t.units() <= one32() ==> t.clamped() == t,
        !t.is_nan() && t.units() < 0 ==> is32(t.clamped(), 0),
        !t.is_nan() && t.units() > one32() ==> is32(t.clamped(), one32()),
{
    law_numbers();
    lemma_pow2_pos(149);
}

/// A number without its sign has the size that it had, and the larger of two numbers is
/// one of them and not less than the other.
pub proof fn law_size(a: F32, b: F32)
    ensures
        a.absolute().units() == if a.units() < 0 {
            -a.units()
        } else {
            a.units()
        },
        a.absolute().is_nan() == a.is_nan(),
        a.larger(b) == a || a.larger(b) == b,
        !a.is_nan() && !b.is_nan() ==> a.larger(b).units() >= a.units() && a.larger(b).units()
            >= b.units(),
{
}

} // verus!
