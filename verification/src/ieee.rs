//! IEEE 754 numbers as bit patterns, compared by the number they encode.
//!
//! A finite binary64 number is an integer multiple of 2^-1074, a finite binary32
//! number an integer multiple of 2^-149. `value` gives that integer, and continues
//! the same formula to the two infinities, so that every comparison of numbers is
//! a comparison of integers.
use vstd::prelude::*;

verus! {

/// The integer that an exponent and fraction field encode together, in units of the
/// smallest subnormal. `half` is 2 to the number of fraction bits.
pub open spec fn encoded_magnitude(half: int, field: int) -> int {
    let exponent = field / half;
    let fraction = field % half;
    if exponent == 0 {
        fraction
    } else {
        (half + fraction) * (vstd::arithmetic::power2::pow2((exponent - 1) as nat) as int)
    }
}

/// Bounds of an encoded magnitude by its exponent field.
proof fn lemma_magnitude_bounds(half: int, field: int)
    requires
        half > 0,
        field >= 0,
    ensures
        encoded_magnitude(half, field) >= 0,
        field / half > 0 ==> half * (vstd::arithmetic::power2::pow2((field / half - 1) as nat) as int)
            <= encoded_magnitude(half, field),
        encoded_magnitude(half, field) < half * (vstd::arithmetic::power2::pow2((field / half) as nat) as int),
        field > 0 ==> encoded_magnitude(half, field) > 0,
        field == 0 ==> encoded_magnitude(half, field) == 0,
{
    let e = field / half;
    let f = field % half;
    vstd::arithmetic::div_mod::lemma_fundamental_div_mod(field, half);
    vstd::arithmetic::div_mod::lemma_mod_bound(field, half);
    vstd::arithmetic::div_mod::lemma_div_pos_is_pos(field, half);
    assert(half * e + f == field);
    if e == 0 {
        assert(half * e == 0) by (nonlinear_arith)
            requires
                e == 0,
        ;
        vstd::arithmetic::power2::lemma_pow2(0);
        vstd::arithmetic::power2::lemma2_to64();
        assert(half * 1 == half);
    } else {
        let p = vstd::arithmetic::power2::pow2((e - 1) as nat) as int;
        vstd::arithmetic::power2::lemma_pow2_pos((e - 1) as nat);
        vstd::arithmetic::power2::lemma_pow2_unfold(e as nat);
        assert(vstd::arithmetic::power2::pow2(e as nat) as int == 2 * p);
        assert(half * p <= (half + f) * p && 0 < (half + f) * p && (half + f) * p < half * (2 * p)) by (nonlinear_arith)
            requires
                half > 0,
                0 <= f < half,
                p > 0,
        ;
        if field == 0 {
            assert(half * e > 0) by (nonlinear_arith)
                requires
                    half > 0,
                    e > 0,
            ;
        }
    }
}

/// A larger field encodes a larger magnitude.
pub proof fn lemma_magnitude_is_increasing(half: int, small: int, large: int)
    requires
        half > 0,
        0 <= small < large,
    ensures
        encoded_magnitude(half, small) < encoded_magnitude(half, large),
{
    let e1 = small / half;
    let e2 = large / half;
    let f1 = small % half;
    let f2 = large % half;
    vstd::arithmetic::div_mod::lemma_fundamental_div_mod(small, half);
    vstd::arithmetic::div_mod::lemma_fundamental_div_mod(large, half);
    vstd::arithmetic::div_mod::lemma_div_is_ordered(small, large, half);
    vstd::arithmetic::div_mod::lemma_div_pos_is_pos(small, half);
    lemma_magnitude_bounds(half, small);
    lemma_magnitude_bounds(half, large);
    if e1 == e2 {
        assert(f1 < f2);
        if e1 > 0 {
            let p = vstd::arithmetic::power2::pow2((e1 - 1) as nat) as int;
            vstd::arithmetic::power2::lemma_pow2_pos((e1 - 1) as nat);
            assert((half + f1) * p < (half + f2) * p) by (nonlinear_arith)
                requires
                    f1 < f2,
                    p > 0,
            ;
        }
    } else {
        if e1 < e2 - 1 {
            vstd::arithmetic::power2::lemma_pow2_strictly_increases(e1 as nat, (e2 - 1) as nat);
        }
        let p1 = vstd::arithmetic::power2::pow2(e1 as nat) as int;
        let p2 = vstd::arithmetic::power2::pow2((e2 - 1) as nat) as int;
        assert(half * p1 <= half * p2) by (nonlinear_arith)
            requires
                half > 0,
                p1 <= p2,
        ;
    }
}

/// One in the units of `Real64::value`.
pub open spec fn unit64() -> int {
    vstd::arithmetic::power2::pow2(1074) as int
}

/// `x` limited to the range of `u64`.
pub open spec fn saturated_u64(x: int) -> int {
    if x < 0 {
        0
    } else if x > u64::MAX {
        u64::MAX as int
    } else {
        x
    }
}

/// `x` limited to the range of `i64`.
pub open spec fn saturated_i64(x: int) -> int {
    if x < i64::MIN {
        i64::MIN as int
    } else if x > i64::MAX {
        i64::MAX as int
    } else {
        x
    }
}

proof fn lemma_small_exponent(field: int)
    requires
        0 <= field < 1023 * HALF64,
    ensures
        0 <= encoded_magnitude(HALF64 as int, field) < unit64(),
        encoded_magnitude(HALF64 as int, field) == 0 <==> field == 0,
{
    let half = HALF64 as int;
    lemma_magnitude_bounds(half, field);
    let e = field / half;
    assert(0 <= e <= 1022);
    if e < 1022 {
        vstd::arithmetic::power2::lemma_pow2_strictly_increases(e as nat, 1022);
    }
    vstd::arithmetic::power2::lemma_pow2_adds(52, 1022);
    vstd::arithmetic::power2::lemma2_to64_rest();
    let p = vstd::arithmetic::power2::pow2(e as nat) as int;
    let q = vstd::arithmetic::power2::pow2(1022) as int;
    assert(half * p <= half * q) by (nonlinear_arith)
        requires
            p <= q,
            half > 0,
    ;
}

proof fn lemma_middle_exponent(field: int, m: int, shift: int)
    requires
        field / (HALF64 as int) + shift == 1075,
        0 <= shift <= 52,
        m == HALF64 + field % (HALF64 as int),
    ensures
        encoded_magnitude(HALF64 as int, field) / unit64() == m / (vstd::arithmetic::power2::pow2(shift as nat) as int),
        encoded_magnitude(HALF64 as int, field) % unit64() == 0 <==> m % (vstd::arithmetic::power2::pow2(shift as nat) as int) == 0,
{
    let e = field / (HALF64 as int);
    let a = vstd::arithmetic::power2::pow2((e - 1) as nat) as int;
    let b = vstd::arithmetic::power2::pow2(shift as nat) as int;
    vstd::arithmetic::power2::lemma_pow2_pos((e - 1) as nat);
    vstd::arithmetic::power2::lemma_pow2_pos(shift as nat);
    vstd::arithmetic::power2::lemma_pow2_adds((e - 1) as nat, shift as nat);
    assert(unit64() == a * b);
    assert(m * a == a * m) by (nonlinear_arith);
    vstd::arithmetic::div_mod::lemma_div_denominator(a * m, a, b);
    vstd::arithmetic::div_mod::lemma_div_multiples_vanish(m, a);
    vstd::arithmetic::div_mod::lemma_truncate_middle(m, a, b);
    let r = m % b;
    vstd::arithmetic::div_mod::lemma_mod_bound(m, b);
    assert(a * r == 0 <==> r == 0) by (nonlinear_arith)
        requires
            a > 0,
            r >= 0,
    ;
}

proof fn lemma_large_exponent(field: int, m: int, shift: int)
    requires
        field / (HALF64 as int) == 1075 + shift,
        0 <= shift,
        m == HALF64 + field % (HALF64 as int),
    ensures
        encoded_magnitude(HALF64 as int, field) / unit64() == m * (vstd::arithmetic::power2::pow2(shift as nat) as int),
        encoded_magnitude(HALF64 as int, field) % unit64() == 0,
{
    let e = field / (HALF64 as int);
    let b = vstd::arithmetic::power2::pow2(shift as nat) as int;
    let u = unit64();
    vstd::arithmetic::power2::lemma_pow2_pos(1074);
    vstd::arithmetic::power2::lemma_pow2_adds(1074, shift as nat);
    assert(m * (u * b) == u * (m * b)) by (nonlinear_arith);
    vstd::arithmetic::div_mod::lemma_div_multiples_vanish(m * b, u);
    vstd::arithmetic::div_mod::lemma_mod_multiples_basic(m * b, u);
    assert(u * (m * b) == (m * b) * u) by (nonlinear_arith);
}

/// The whole part of an encoded magnitude, limited to `u64`, and whether nothing was
/// cut off below the unit.
fn whole_part(field: u64) -> (r: (u64, bool))
    requires
        field <= INFINITE64,
    ensures
        r.0 == saturated_u64(encoded_magnitude(HALF64 as int, field as int) / unit64()),
        r.0 < u64::MAX ==> (r.1 <==> encoded_magnitude(HALF64 as int, field as int) % unit64() == 0),
{
    let exponent: u64 = field / HALF64;
    let fraction: u64 = field % HALF64;
    let ghost mag = encoded_magnitude(HALF64 as int, field as int);
    proof {
        vstd::arithmetic::power2::lemma_pow2_pos(1074);
        vstd::arithmetic::power2::lemma2_to64();
        vstd::arithmetic::power2::lemma2_to64_rest();
    }
    if exponent < 1023 {
        proof {
            lemma_small_exponent(field as int);
            vstd::arithmetic::div_mod::lemma_basic_div(mag, unit64());
            vstd::arithmetic::div_mod::lemma_small_mod(mag as nat, unit64() as nat);
        }
        (0, field == 0)
    } else if exponent <= 1075 {
        let m: u64 = HALF64 + fraction;
        let shift: u64 = 1075 - exponent;
        proof {
            lemma_middle_exponent(field as int, m as int, shift as int);
            vstd::arithmetic::power2::lemma_pow2_pos(shift as nat);
            if shift < 52 {
                vstd::arithmetic::power2::lemma_pow2_strictly_increases(shift as nat, 52);
            }
            vstd::bits::lemma_u64_shl_is_mul(1, shift);
        }
        let unit: u64 = 1u64 << shift;
        assert(unit == vstd::arithmetic::power2::pow2(shift as nat));
        proof {
            vstd::arithmetic::div_mod::lemma_div_nonincreasing(m as int, unit as int);
        }
        (m / unit, m % unit == 0)
    } else if exponent <= 1086 {
        let m: u64 = HALF64 + fraction;
        let shift: u64 = exponent - 1075;
        proof {
            lemma_large_exponent(field as int, m as int, shift as int);
            if shift < 11 {
                vstd::arithmetic::power2::lemma_pow2_strictly_increases(shift as nat, 11);
            }
            vstd::bits::lemma_u64_shl_is_mul(1, shift);
        }
        let unit: u64 = 1u64 << shift;
        assert(unit == vstd::arithmetic::power2::pow2(shift as nat));
        assert(0 <= m * unit <= 0x001F_FFFF_FFFF_FFFF * 0x800) by (nonlinear_arith)
            requires
                m <= 0x001F_FFFF_FFFF_FFFF,
                unit <= 0x800,
        ;
        (m * unit, true)
    } else {
        proof {
            let m = HALF64 + fraction;
            let shift = exponent - 1075;
            lemma_large_exponent(field as int, m, shift);
            if shift > 12 {
                vstd::arithmetic::power2::lemma_pow2_strictly_increases(12, shift as nat);
            }
            let unit = vstd::arithmetic::power2::pow2(shift as nat) as int;
            assert(m * unit >= 0x0010_0000_0000_0000 * 0x1000) by (nonlinear_arith)
                requires
                    m >= 0x0010_0000_0000_0000,
                    unit >= 0x1000,
            ;
        }
        (u64::MAX, true)
    }
}

/// A binary64 number by its bit pattern. `==` in code compares numbers: the two zeros are
/// equal, and nothing equals a NaN. In contracts it compares bit patterns.
#[derive(Clone, Copy, Debug)]
pub struct Real64 {
    pub bits: u64,
}

/// A binary32 number by its bit pattern. `==` in code compares numbers: the two zeros are
/// equal, and nothing equals a NaN. In contracts it compares bit patterns.
#[derive(Clone, Copy, Debug)]
pub struct Real32 {
    pub bits: u32,
}

/// 2^52: one more than the largest fraction field of a binary64 number.
pub const HALF64: u64 = 0x0010_0000_0000_0000;

/// 2^63: the sign bit of a binary64 number.
pub const SIGN64: u64 = 0x8000_0000_0000_0000;

/// The exponent and fraction fields of binary64 infinity; larger fields are NaN.
pub const INFINITE64: u64 = 0x7FF0_0000_0000_0000;

/// 2^23: one more than the largest fraction field of a binary32 number.
pub const HALF32: u32 = 0x0080_0000;

/// 2^31: the sign bit of a binary32 number.
pub const SIGN32: u32 = 0x8000_0000;

/// The exponent and fraction fields of binary32 infinity; larger fields are NaN.
pub const INFINITE32: u32 = 0x7F80_0000;

/// The binary64 number with this bit pattern.
#[verifier::allow_in_spec]
pub fn real64(bits: u64) -> Real64
    returns
        (Real64 { bits }),
{
    Real64 { bits }
}

/// The binary32 number with this bit pattern.
#[verifier::allow_in_spec]
pub fn real32(bits: u32) -> Real32
    returns
        (Real32 { bits }),
{
    Real32 { bits }
}

/// +0 as a binary64 number.
#[verifier::allow_in_spec]
pub fn zero64() -> Real64
    returns
        (Real64 { bits: 0 }),
{
    Real64 { bits: 0 }
}

/// 1 as a binary64 number.
#[verifier::allow_in_spec]
pub fn one64() -> Real64
    returns
        (Real64 { bits: 0x3FF0_0000_0000_0000 }),
{
    Real64 { bits: 0x3FF0_0000_0000_0000 }
}

/// +0 as a binary32 number.
#[verifier::allow_in_spec]
pub fn zero32() -> Real32
    returns
        (Real32 { bits: 0 }),
{
    Real32 { bits: 0 }
}

impl Real64 {
    /// Whether the sign bit is set.
    pub open spec fn negative(self) -> bool {
        self.bits >= SIGN64
    }

    /// The exponent and fraction fields, as one integer.
    pub open spec fn field(self) -> int {
        if self.negative() {
            self.bits - SIGN64
        } else {
            self.bits as int
        }
    }

    /// Not a number.
    pub open spec fn nan(self) -> bool {
        self.field() > INFINITE64
    }

    /// Neither infinite nor not a number.
    pub open spec fn finite(self) -> bool {
        self.field() < INFINITE64
    }

    /// The encoded number in units of 2^-1074.
    pub open spec fn value(self) -> int {
        if self.negative() {
            -encoded_magnitude(HALF64 as int, self.field())
        } else {
            encoded_magnitude(HALF64 as int, self.field())
        }
    }

    /// `self < other` as numbers; false where either is not a number.
    pub open spec fn lt(self, other: Self) -> bool {
        !self.nan() && !other.nan() && self.value() < other.value()
    }

    /// `self <= other` as numbers; false where either is not a number.
    pub open spec fn le(self, other: Self) -> bool {
        !self.nan() && !other.nan() && self.value() <= other.value()
    }

    /// `self == other` as numbers; false where either is not a number.
    pub open spec fn eq_number(self, other: Self) -> bool {
        !self.nan() && !other.nan() && self.value() == other.value()
    }

    /// Sign and magnitude fields as one signed integer.
    pub open spec fn key(self) -> int {
        if self.negative() {
            -self.field()
        } else {
            self.field()
        }
    }

    /// The order of keys is the order of values.
    pub proof fn lemma_key_orders_values(self, other: Self)
        ensures
            self.key() < other.key() <==> self.value() < other.value(),
            self.key() == other.key() <==> self.value() == other.value(),
    {
        let half = HALF64 as int;
        lemma_magnitude_bounds(half, self.field());
        lemma_magnitude_bounds(half, other.field());
        if self.field() < other.field() {
            lemma_magnitude_is_increasing(half, self.field(), other.field());
        }
        if other.field() < self.field() {
            lemma_magnitude_is_increasing(half, other.field(), self.field());
        }
    }

    fn signed_field(self) -> (r: i64)
        ensures
            r == self.key(),
    {
        if self.bits >= SIGN64 {
            let field: u64 = self.bits - SIGN64;
            -(field as i64)
        } else {
            self.bits as i64
        }
    }

    /// Whether this is not a number.
    pub fn is_nan(self) -> (r: bool)
        ensures
            r == self.nan(),
    {
        let field: u64 = if self.bits >= SIGN64 { self.bits - SIGN64 } else { self.bits };
        field > INFINITE64
    }

    /// Whether this is neither infinite nor not a number.
    pub fn is_finite(self) -> (r: bool)
        ensures
            r == self.finite(),
    {
        let field: u64 = if self.bits >= SIGN64 { self.bits - SIGN64 } else { self.bits };
        field < INFINITE64
    }

    /// `self < other` as numbers.
    pub fn less(self, other: Self) -> (r: bool)
        ensures
            r == self.lt(other),
    {
        proof {
            self.lemma_key_orders_values(other);
        }
        !self.is_nan() && !other.is_nan() && self.signed_field() < other.signed_field()
    }

    /// `self <= other` as numbers.
    pub fn at_most(self, other: Self) -> (r: bool)
        ensures
            r == self.le(other),
    {
        proof {
            self.lemma_key_orders_values(other);
        }
        !self.is_nan() && !other.is_nan() && self.signed_field() <= other.signed_field()
    }

    /// `self == other` as numbers: the two zeros are equal, nothing equals a NaN.
    pub fn equals(self, other: Self) -> (r: bool)
        ensures
            r == self.eq_number(other),
    {
        proof {
            self.lemma_key_orders_values(other);
        }
        !self.is_nan() && !other.is_nan() && self.signed_field() == other.signed_field()
    }

    /// The bit pattern with its sign bit flipped.
    pub open spec fn negated(self) -> Self {
        Real64 {
            bits: (if self.negative() {
                self.bits - SIGN64
            } else {
                self.bits + SIGN64
            }) as u64,
        }
    }

    /// The number of opposite sign.
    pub fn neg(self) -> (r: Self)
        ensures
            r == self.negated(),
    {
        if self.bits >= SIGN64 {
            Real64 { bits: self.bits - SIGN64 }
        } else {
            Real64 { bits: self.bits + SIGN64 }
        }
    }

    /// Negation changes the sign of the value, and undoes itself.
    pub proof fn lemma_negation(self)
        ensures
            self.negated().value() == -self.value(),
            self.negated().nan() == self.nan(),
            self.negated().negated() == self,
    {
    }

    /// Position in the total order of bit patterns: negative NaN, then the numbers
    /// from negative to positive infinity with -0 before +0, then positive NaN.
    pub open spec fn total_key(self) -> int {
        if self.negative() {
            -1 - self.field()
        } else {
            self.field()
        }
    }

    /// Whether `self` precedes `other` in the total order of bit patterns.
    pub fn total_less(self, other: Self) -> (r: bool)
        ensures
            r == (self.total_key() < other.total_key()),
    {
        let a: i64 = if self.bits >= SIGN64 {
            -1 - ((self.bits - SIGN64) as i64)
        } else {
            self.bits as i64
        };
        let b: i64 = if other.bits >= SIGN64 {
            -1 - ((other.bits - SIGN64) as i64)
        } else {
            other.bits as i64
        };
        a < b
    }

    /// `self` limited to the interval from `low` to `high`; a NaN stays as it is.
    pub open spec fn clamped(self, low: Self, high: Self) -> Self {
        if self.lt(low) {
            low
        } else if high.lt(self) {
            high
        } else {
            self
        }
    }

    /// Limits a number to the interval from `low` to `high`.
    pub fn clamp(self, low: Self, high: Self) -> (r: Self)
        requires
            low.le(high),
        ensures
            r == self.clamped(low, high),
            !self.nan() ==> low.le(r) && r.le(high),
    {
        if self.less(low) {
            low
        } else if high.less(self) {
            high
        } else {
            self
        }
    }

    /// The largest integer that is not above the number.
    pub open spec fn floored(self) -> int {
        self.value() / unit64()
    }

    /// The number with what follows the point cut off.
    pub open spec fn truncated(self) -> int {
        if self.negative() {
            -((-self.value()) / unit64())
        } else {
            self.value() / unit64()
        }
    }

    /// The number rounded down, limited to the range of `i64`; zero for a NaN.
    pub fn floor_to_i64(self) -> (r: i64)
        ensures
            self.nan() ==> r == 0,
            !self.nan() ==> r == saturated_i64(self.floored()),
    {
        if self.is_nan() {
            return 0;
        }
        let ghost mag = encoded_magnitude(HALF64 as int, self.field());
        let ghost u = unit64();
        proof {
            vstd::arithmetic::power2::lemma_pow2_pos(1074);
            lemma_magnitude_bounds(HALF64 as int, self.field());
            vstd::arithmetic::div_mod::lemma_div_pos_is_pos(mag, u);
        }
        if self.bits >= SIGN64 {
            let (whole, exact): (u64, bool) = whole_part(self.bits - SIGN64);
            proof {
                lemma_floor_of_negative(mag, u);
            }
            if whole >= SIGN64 {
                i64::MIN
            } else if exact {
                -(whole as i64)
            } else {
                -1 - (whole as i64)
            }
        } else {
            let (whole, _exact): (u64, bool) = whole_part(self.bits);
            if whole >= SIGN64 {
                i64::MAX
            } else {
                whole as i64
            }
        }
    }

    /// The number with what follows the point cut off, limited to the range of `i64`;
    /// zero for a NaN.
    pub fn trunc_to_i64(self) -> (r: i64)
        ensures
            self.nan() ==> r == 0,
            !self.nan() ==> r == saturated_i64(self.truncated()),
    {
        if self.is_nan() {
            return 0;
        }
        proof {
            let mag = encoded_magnitude(HALF64 as int, self.field());
            vstd::arithmetic::power2::lemma_pow2_pos(1074);
            lemma_magnitude_bounds(HALF64 as int, self.field());
            vstd::arithmetic::div_mod::lemma_div_pos_is_pos(mag, unit64());
        }
        if self.bits >= SIGN64 {
            let (whole, _exact): (u64, bool) = whole_part(self.bits - SIGN64);
            if whole >= SIGN64 {
                i64::MIN
            } else {
                -(whole as i64)
            }
        } else {
            let (whole, _exact): (u64, bool) = whole_part(self.bits);
            if whole >= SIGN64 {
                i64::MAX
            } else {
                whole as i64
            }
        }
    }

    /// The number with what follows the point cut off, limited to the range of `usize`;
    /// zero for a negative number and for a NaN.
    pub open spec fn whole_size(self) -> int {
        if self.nan() || self.negative() {
            0
        } else if self.truncated() > usize::MAX {
            usize::MAX as int
        } else {
            self.truncated()
        }
    }

    /// The number with what follows the point cut off, limited to the range of `usize`.
    pub fn trunc_to_usize(self) -> (r: usize)
        ensures
            r == self.whole_size(),
    {
        if self.is_nan() || self.bits >= SIGN64 {
            return 0;
        }
        let (whole, _exact): (u64, bool) = whole_part(self.bits);
        proof {
            vstd::arithmetic::power2::lemma_pow2_pos(1074);
            lemma_magnitude_bounds(HALF64 as int, self.field());
            vstd::arithmetic::div_mod::lemma_div_pos_is_pos(self.value(), unit64());
        }
        if whole > usize::MAX as u64 {
            usize::MAX
        } else {
            whole as usize
        }
    }

    /// Whether the number is below an integer; false for a NaN.
    pub open spec fn lt_int(self, n: int) -> bool {
        !self.nan() && self.value() < n * unit64()
    }

    /// Whether the number is not below an integer; false for a NaN.
    pub open spec fn ge_int(self, n: int) -> bool {
        !self.nan() && self.value() >= n * unit64()
    }

    /// Whether the number is below an integer.
    pub fn less_than_int(self, n: i64) -> (r: bool)
        requires
            n > i64::MIN,
        ensures
            r == self.lt_int(n as int),
    {
        proof {
            self.lemma_floor_compares(n as int);
        }
        !self.is_nan() && self.floor_to_i64() < n
    }

    /// Whether the number is not below an integer.
    pub fn at_least_int(self, n: i64) -> (r: bool)
        requires
            n > i64::MIN,
        ensures
            r == self.ge_int(n as int),
    {
        proof {
            self.lemma_floor_compares(n as int);
        }
        !self.is_nan() && self.floor_to_i64() >= n
    }

    /// A number without sign bit is not below zero, and one with it not above.
    pub proof fn lemma_value_sign(self)
        ensures
            self.negative() ==> self.value() <= 0,
            !self.negative() ==> self.value() >= 0,
    {
        lemma_magnitude_bounds(HALF64 as int, self.field());
    }

    /// A number that is not below zero is cut off to its floor.
    pub proof fn lemma_trunc_nonnegative(self)
        requires
            !self.lt_int(0),
            !self.nan(),
        ensures
            self.truncated() == self.floored(),
            self.truncated() >= 0,
            self.negative() ==> self.truncated() == 0,
    {
        self.lemma_floor_compares(0);
        vstd::arithmetic::power2::lemma_pow2_pos(1074);
        lemma_magnitude_bounds(HALF64 as int, self.field());
        assert(0 * unit64() == 0);
        if self.negative() {
            assert(self.value() == 0);
            vstd::arithmetic::div_mod::lemma_div_of0(unit64());
        }
    }

    /// A number from zero up to below `n` is cut off to an index below `n`.
    pub proof fn lemma_trunc_below(self, n: int)
        requires
            !self.lt_int(0),
            !self.ge_int(n),
            !self.nan(),
        ensures
            0 <= self.truncated() < n,
    {
        self.lemma_trunc_nonnegative();
        self.lemma_floor_compares(n);
    }

    /// Comparing a number with an integer is comparing its floor.
    pub proof fn lemma_floor_compares(self, n: int)
        ensures
            self.value() < n * unit64() <==> self.floored() < n,
    {
        let u = unit64();
        let v = self.value();
        vstd::arithmetic::power2::lemma_pow2_pos(1074);
        vstd::arithmetic::div_mod::lemma_fundamental_div_mod(v, u);
        vstd::arithmetic::div_mod::lemma_mod_bound(v, u);
        let q = v / u;
        assert(v < n * u <==> q < n) by (nonlinear_arith)
            requires
                v == u * q + v % u,
                0 <= v % u < u,
        ;
    }
}

/// The floor of a negative number from the whole part of its magnitude.
proof fn lemma_floor_of_negative(mag: int, unit: int)
    requires
        mag >= 0,
        unit > 0,
    ensures
        (-mag) / unit == (if mag % unit == 0 {
            -(mag / unit)
        } else {
            -1 - mag / unit
        }),
{
    vstd::arithmetic::div_mod::lemma_fundamental_div_mod(mag, unit);
    vstd::arithmetic::div_mod::lemma_mod_bound(mag, unit);
    let q = mag / unit;
    let r = mag % unit;
    if r == 0 {
        assert(-mag == (-q) * unit + 0) by (nonlinear_arith)
            requires
                mag == unit * q,
        ;
        vstd::arithmetic::div_mod::lemma_fundamental_div_mod_converse(-mag, unit, -q, 0);
    } else {
        assert(-mag == (-1 - q) * unit + (unit - r)) by (nonlinear_arith)
            requires
                mag == unit * q + r,
        ;
        vstd::arithmetic::div_mod::lemma_fundamental_div_mod_converse(-mag, unit, -1 - q, unit - r);
    }
}

impl PartialEq for Real64 {
    fn eq(&self, other: &Self) -> (r: bool) {
        self.equals(*other)
    }
}

impl vstd::std_specs::cmp::PartialEqSpecImpl for Real64 {
    open spec fn obeys_eq_spec() -> bool {
        true
    }

    open spec fn eq_spec(&self, other: &Self) -> bool {
        self.eq_number(*other)
    }
}

impl Real32 {
    /// Whether the sign bit is set.
    pub open spec fn negative(self) -> bool {
        self.bits >= SIGN32
    }

    /// The exponent and fraction fields, as one integer.
    pub open spec fn field(self) -> int {
        if self.negative() {
            self.bits - SIGN32
        } else {
            self.bits as int
        }
    }

    /// Not a number.
    pub open spec fn nan(self) -> bool {
        self.field() > INFINITE32
    }

    /// Neither infinite nor not a number.
    pub open spec fn finite(self) -> bool {
        self.field() < INFINITE32
    }

    /// The encoded number in units of 2^-149.
    pub open spec fn value(self) -> int {
        if self.negative() {
            -encoded_magnitude(HALF32 as int, self.field())
        } else {
            encoded_magnitude(HALF32 as int, self.field())
        }
    }

    /// `self < other` as numbers; false where either is not a number.
    pub open spec fn lt(self, other: Self) -> bool {
        !self.nan() && !other.nan() && self.value() < other.value()
    }

    /// `self <= other` as numbers; false where either is not a number.
    pub open spec fn le(self, other: Self) -> bool {
        !self.nan() && !other.nan() && self.value() <= other.value()
    }

    /// `self == other` as numbers; false where either is not a number.
    pub open spec fn eq_number(self, other: Self) -> bool {
        !self.nan() && !other.nan() && self.value() == other.value()
    }

    /// Sign and magnitude fields as one signed integer.
    pub open spec fn key(self) -> int {
        if self.negative() {
            -self.field()
        } else {
            self.field()
        }
    }

    /// The order of keys is the order of values.
    pub proof fn lemma_key_orders_values(self, other: Self)
        ensures
            self.key() < other.key() <==> self.value() < other.value(),
            self.key() == other.key() <==> self.value() == other.value(),
    {
        let half = HALF32 as int;
        lemma_magnitude_bounds(half, self.field());
        lemma_magnitude_bounds(half, other.field());
        if self.field() < other.field() {
            lemma_magnitude_is_increasing(half, self.field(), other.field());
        }
        if other.field() < self.field() {
            lemma_magnitude_is_increasing(half, other.field(), self.field());
        }
    }

    fn signed_field(self) -> (r: i64)
        ensures
            r == self.key(),
    {
        if self.bits >= SIGN32 {
            -((self.bits - SIGN32) as i64)
        } else {
            self.bits as i64
        }
    }

    /// Whether this is not a number.
    pub fn is_nan(self) -> (r: bool)
        ensures
            r == self.nan(),
    {
        let field: u32 = if self.bits >= SIGN32 { self.bits - SIGN32 } else { self.bits };
        field > INFINITE32
    }

    /// Whether this is neither infinite nor not a number.
    pub fn is_finite(self) -> (r: bool)
        ensures
            r == self.finite(),
    {
        let field: u32 = if self.bits >= SIGN32 { self.bits - SIGN32 } else { self.bits };
        field < INFINITE32
    }

    /// `self < other` as numbers.
    pub fn less(self, other: Self) -> (r: bool)
        ensures
            r == self.lt(other),
    {
        proof {
            self.lemma_key_orders_values(other);
        }
        !self.is_nan() && !other.is_nan() && self.signed_field() < other.signed_field()
    }

    /// `self <= other` as numbers.
    pub fn at_most(self, other: Self) -> (r: bool)
        ensures
            r == self.le(other),
    {
        proof {
            self.lemma_key_orders_values(other);
        }
        !self.is_nan() && !other.is_nan() && self.signed_field() <= other.signed_field()
    }

    /// `self == other` as numbers: the two zeros are equal, nothing equals a NaN.
    pub fn equals(self, other: Self) -> (r: bool)
        ensures
            r == self.eq_number(other),
    {
        proof {
            self.lemma_key_orders_values(other);
        }
        !self.is_nan() && !other.is_nan() && self.signed_field() == other.signed_field()
    }

    /// `self` limited to the interval from `low` to `high`; a NaN stays as it is.
    pub open spec fn clamped(self, low: Self, high: Self) -> Self {
        if self.lt(low) {
            low
        } else if high.lt(self) {
            high
        } else {
            self
        }
    }

    /// Limits a number to the interval from `low` to `high`.
    pub fn clamp(self, low: Self, high: Self) -> (r: Self)
        requires
            low.le(high),
        ensures
            r == self.clamped(low, high),
            !self.nan() ==> low.le(r) && r.le(high),
    {
        if self.less(low) {
            low
        } else if high.less(self) {
            high
        } else {
            self
        }
    }
}

impl PartialEq for Real32 {
    fn eq(&self, other: &Self) -> (r: bool) {
        self.equals(*other)
    }
}

impl vstd::std_specs::cmp::PartialEqSpecImpl for Real32 {
    open spec fn obeys_eq_spec() -> bool {
        true
    }

    open spec fn eq_spec(&self, other: &Self) -> bool {
        self.eq_number(*other)
    }
}

/// The order of numbers is that of their bits where both signs are clear, the reverse where both
/// are set; a number with its sign set is below one without, but for the two zeros. What is not a
/// number is below nothing and above nothing.
pub proof fn law_order_is_that_of_the_bits(x: Real64, y: Real64, less: bool, at_most: bool)
    requires
        call_ensures(Real64::less, (x, y), less),
        call_ensures(Real64::at_most, (x, y), at_most),
    ensures
        ({
            let sign: u64 = 0x8000_0000_0000_0000;
            let x_nan = 0x7FF0_0000_0000_0000 < x.bits < sign || x.bits > 0xFFF0_0000_0000_0000;
            let y_nan = 0x7FF0_0000_0000_0000 < y.bits < sign || y.bits > 0xFFF0_0000_0000_0000;
            &&& x_nan || y_nan ==> !less && !at_most
            &&& !x_nan && !y_nan && x.bits < sign && y.bits < sign ==> (less <==> x.bits < y.bits) && (at_most
                <==> x.bits <= y.bits)
            &&& !x_nan && !y_nan && x.bits >= sign && y.bits >= sign ==> (less <==> x.bits > y.bits) && (at_most
                <==> x.bits >= y.bits)
            &&& !x_nan && !y_nan && x.bits >= sign && y.bits < sign ==> at_most && (less <==> !(x.bits == sign && y.bits
                == 0))
            &&& !x_nan && !y_nan && x.bits < sign && y.bits >= sign ==> !less && (at_most <==> x.bits == 0 && y.bits
                == sign)
        }),
{
    x.lemma_key_orders_values(y);
}

/// A binary32 number is ordered by its bits in the same way.
pub proof fn law_short_order_is_that_of_the_bits(x: Real32, y: Real32, less: bool, at_most: bool)
    requires
        call_ensures(Real32::less, (x, y), less),
        call_ensures(Real32::at_most, (x, y), at_most),
    ensures
        ({
            let sign: u32 = 0x8000_0000;
            let x_nan = 0x7F80_0000 < x.bits < sign || x.bits > 0xFF80_0000;
            let y_nan = 0x7F80_0000 < y.bits < sign || y.bits > 0xFF80_0000;
            &&& x_nan || y_nan ==> !less && !at_most
            &&& !x_nan && !y_nan && x.bits < sign && y.bits < sign ==> (less <==> x.bits < y.bits) && (at_most
                <==> x.bits <= y.bits)
            &&& !x_nan && !y_nan && x.bits >= sign && y.bits >= sign ==> (less <==> x.bits > y.bits) && (at_most
                <==> x.bits >= y.bits)
            &&& !x_nan && !y_nan && x.bits >= sign && y.bits < sign ==> at_most && (less <==> !(x.bits == sign && y.bits
                == 0))
            &&& !x_nan && !y_nan && x.bits < sign && y.bits >= sign ==> !less && (at_most <==> x.bits == 0 && y.bits
                == sign)
        }),
{
    x.lemma_key_orders_values(y);
}

/// A number twice as large has an exponent larger by one; one is the unit, and the smallest
/// number above zero is one step of the value.
pub proof fn law_values_double_with_the_exponent(field: int)
    requires
        0x0010_0000_0000_0000 <= field,
    ensures
        encoded_magnitude(0x0010_0000_0000_0000, field + 0x0010_0000_0000_0000) == 2 * encoded_magnitude(
            0x0010_0000_0000_0000,
            field,
        ),
        one64().value() == unit64(),
        (Real64 { bits: 1 }).value() == 1,
{
    let half: int = 0x0010_0000_0000_0000;
    let e = field / half;
    let f = field % half;
    vstd::arithmetic::div_mod::lemma_fundamental_div_mod(field, half);
    vstd::arithmetic::div_mod::lemma_mod_bound(field, half);
    vstd::arithmetic::div_mod::lemma_fundamental_div_mod_converse(field + half, half, e + 1, f);
    assert(e >= 1);
    vstd::arithmetic::power2::lemma_pow2_unfold(e as nat);
    let p = vstd::arithmetic::power2::pow2((e - 1) as nat) as int;
    assert((half + f) * (2 * p) == 2 * ((half + f) * p)) by (nonlinear_arith);
    vstd::arithmetic::power2::lemma_pow2_adds(52, 1022);
    vstd::arithmetic::power2::lemma2_to64_rest();
}

/// Rounding down gives the whole number that is not above a number while the next one is;
/// cutting off gives the same for what is not negative, and never leads away from zero.
pub proof fn law_whole_numbers_lie_beside_the_number(x: Real64)
    requires
        !x.nan(),
    ensures
        x.floored() * unit64() <= x.value() < (x.floored() + 1) * unit64(),
        !x.negative() ==> x.truncated() == x.floored(),
        !x.negative() ==> 0 <= x.truncated() * unit64() <= x.value(),
        x.negative() ==> x.value() <= x.truncated() * unit64() <= 0,
        x.negative() ==> x.truncated() * unit64() < x.value() + unit64(),
{
    let u = unit64();
    vstd::arithmetic::power2::lemma_pow2_pos(1074);
    x.lemma_value_sign();
    x.lemma_floor_compares(x.floored());
    x.lemma_floor_compares(x.floored() + 1);
    let v = x.value();
    let m = -v;
    vstd::arithmetic::div_mod::lemma_fundamental_div_mod(v, u);
    vstd::arithmetic::div_mod::lemma_mod_bound(v, u);
    vstd::arithmetic::div_mod::lemma_fundamental_div_mod(m, u);
    vstd::arithmetic::div_mod::lemma_mod_bound(m, u);
    if x.negative() {
        vstd::arithmetic::div_mod::lemma_div_pos_is_pos(m, u);
        let q = m / u;
        assert((-q) * u == -(u * q) && u * q >= 0) by (nonlinear_arith)
            requires
                q >= 0,
                u > 0,
        ;
    } else {
        vstd::arithmetic::div_mod::lemma_div_pos_is_pos(v, u);
        let q = v / u;
        assert(q * u == u * q && u * q >= 0) by (nonlinear_arith)
            requires
                q >= 0,
                u > 0,
        ;
    }
}

/// A number that is limited to an interval is the number itself inside it, and the nearer limit
/// outside.
pub proof fn law_limited_number_is_the_nearest(x: Real64, low: Real64, high: Real64, r: Real64)
    requires
        low.le(high),
        call_ensures(Real64::clamp, (x, low, high), r),
    ensures
        low.le(x) && x.le(high) ==> r == x,
        x.lt(low) ==> r == low,
        high.lt(x) ==> r == high,
        x.nan() ==> r == x,
{
}

} // verus!
