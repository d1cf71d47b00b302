//! Numbers carried by their IEEE-754 binary64 bit pattern.
//!
//! The library orders and compares prices and sizes; it never adds or multiplies them. A
//! [`Num`] is therefore a bit pattern with exact comparisons. Its model is `rank`: an integer
//! that grows with the number, the same for both zeros. `rank_orders_values` ties the rank to
//! the rational number that the pattern stands for.
use vstd::prelude::*;
use vstd::arithmetic::power2::pow2;
use vstd::arithmetic::power2::lemma_pow2_pos;
use vstd::arithmetic::power2::lemma_pow2_unfold;

verus! {

/// The bit pattern of 2^63, the sign bit alone.
pub const SIGN_BIT: u64 = 0x8000_0000_0000_0000;

/// The pattern of positive infinity: the largest magnitude that is a number.
pub const INFINITY_BITS: u64 = 0x7FF0_0000_0000_0000;

/// The pattern of one billionth, the tolerance below which a quantity counts as zero.
pub const EPSILON_BITS: u64 = 0x3E11_2E0B_E826_D695;

/// A number in binary64, held as its bit pattern.
#[derive(Clone, Copy, Debug, PartialEq, Eq, Structural)]
pub struct Num {
    pub bits: u64,
}

impl Num {
    /// The pattern without its sign bit.
    pub open spec fn magnitude(self) -> int {
        if self.bits >= SIGN_BIT {
            self.bits - SIGN_BIT
        } else {
            self.bits as int
        }
    }

    /// Whether the pattern stands for no number at all.
    pub open spec fn nan(self) -> bool {
        self.magnitude() > INFINITY_BITS
    }

    /// Whether the pattern stands for a rational number.
    pub open spec fn finite(self) -> bool {
        self.magnitude() < INFINITY_BITS
    }

    /// Position of the number among all numbers; both zeros have rank 0.
    pub open spec fn rank(self) -> int {
        if self.bits >= SIGN_BIT {
            -self.magnitude()
        } else {
            self.magnitude()
        }
    }

    /// `self < other`, as IEEE-754 orders them.
    pub open spec fn below(self, other: Num) -> bool {
        !self.nan() && !other.nan() && self.rank() < other.rank()
    }

    /// `self <= other`, as IEEE-754 orders them.
    pub open spec fn at_most(self, other: Num) -> bool {
        !self.nan() && !other.nan() && self.rank() <= other.rank()
    }

    /// `self == other`, as IEEE-754 compares them.
    pub open spec fn same(self, other: Num) -> bool {
        !self.nan() && !other.nan() && self.rank() == other.rank()
    }

    /// The pattern with its sign bit cleared.
    pub open spec fn absolute(self) -> Num {
        Num { bits: self.magnitude() as u64 }
    }

    /// The pattern with its sign bit flipped.
    pub open spec fn negated(self) -> Num {
        if self.bits >= SIGN_BIT {
            Num { bits: (self.bits - SIGN_BIT) as u64 }
        } else {
            Num { bits: (self.bits + SIGN_BIT) as u64 }
        }
    }

    /// The number with the given bit pattern.
    pub fn new(bits: u64) -> (r: Num)
        ensures
            r.bits == bits,
    {
        Num { bits }
    }

    /// Positive zero.
    pub fn zero() -> (r: Num)
        ensures
            r == spec_zero(),
            r.rank() == 0,
            !r.nan(),
    {
        Num { bits: 0 }
    }

    /// One billionth.
    pub fn epsilon() -> (r: Num)
        ensures
            r == spec_epsilon(),
    {
        Num { bits: EPSILON_BITS }
    }

    /// Whether this is no number.
    pub fn is_nan(self) -> (r: bool)
        ensures
            r == self.nan(),
    {
        let magnitude: u64 = if self.bits >= SIGN_BIT { self.bits - SIGN_BIT } else { self.bits };
        magnitude > INFINITY_BITS
    }

    /// Whether this is a finite number.
    pub fn is_finite(self) -> (r: bool)
        ensures
            r == self.finite(),
    {
        let magnitude: u64 = if self.bits >= SIGN_BIT { self.bits - SIGN_BIT } else { self.bits };
        magnitude < INFINITY_BITS
    }

    /// `self < other`.
    pub fn lt(self, other: Num) -> (r: bool)
        ensures
            r == self.below(other),
    {
        if self.is_nan() || other.is_nan() {
            return false;
        }
        if self.bits >= SIGN_BIT {
            if other.bits >= SIGN_BIT {
                self.bits > other.bits
            } else {
                self.bits > SIGN_BIT || other.bits > 0
            }
        } else {
            other.bits < SIGN_BIT && self.bits < other.bits
        }
    }

    /// `self <= other`.
    pub fn le(self, other: Num) -> (r: bool)
        ensures
            r == self.at_most(other),
    {
        !self.is_nan() && !other.is_nan() && !other.lt(self)
    }

    /// `self == other` as numbers: the two zeros are equal, and nothing equals a non-number.
    pub fn equals(self, other: Num) -> (r: bool)
        ensures
            r == self.same(other),
    {
        self.le(other) && other.le(self)
    }

    /// Whether this is one of the two zeros.
    pub fn is_zero(self) -> (r: bool)
        ensures
            r == (self.rank() == 0),
    {
        self.bits == 0 || self.bits == SIGN_BIT
    }

    /// `self > 0`.
    pub fn is_positive(self) -> (r: bool)
        ensures
            r == spec_zero().below(self),
    {
        Num::zero().lt(self)
    }

    /// The magnitude of the number.
    pub fn abs(self) -> (r: Num)
        ensures
            r == self.absolute(),
            r.nan() == self.nan(),
            r.rank() == self.magnitude(),
    {
        if self.bits >= SIGN_BIT {
            Num { bits: self.bits - SIGN_BIT }
        } else {
            self
        }
    }

    /// The number with the opposite sign.
    pub fn neg(self) -> (r: Num)
        ensures
            r == self.negated(),
            r.nan() == self.nan(),
            r.rank() == -self.rank(),
            r.magnitude() == self.magnitude(),
    {
        if self.bits >= SIGN_BIT {
            Num { bits: self.bits - SIGN_BIT }
        } else {
            Num { bits: self.bits + SIGN_BIT }
        }
    }

    /// The smaller of two numbers; a non-number gives way to the other one.
    pub fn min(self, other: Num) -> (r: Num)
        ensures
            r == smaller(self, other),
    {
        if self.is_nan() {
            other
        } else if other.is_nan() {
            self
        } else if other.lt(self) {
            other
        } else {
            self
        }
    }

    /// The larger of two numbers; a non-number gives way to the other one.
    pub fn max(self, other: Num) -> (r: Num)
        ensures
            r == larger(self, other),
    {
        if self.is_nan() {
            other
        } else if other.is_nan() {
            self
        } else if self.lt(other) {
            other
        } else {
            self
        }
    }
}

/// Positive zero.
pub open spec fn spec_zero() -> Num {
    Num { bits: 0 }
}

/// One billionth.
pub open spec fn spec_epsilon() -> Num {
    Num { bits: EPSILON_BITS }
}

/// The smaller of two numbers, the first where they are equal.
pub open spec fn smaller(a: Num, b: Num) -> Num {
    if a.nan() {
        b
    } else if b.below(a) {
        b
    } else {
        a
    }
}

/// The larger of two numbers, the first where they are equal.
pub open spec fn larger(a: Num, b: Num) -> Num {
    if a.nan() {
        b
    } else if a.below(b) {
        b
    } else {
        a
    }
}

/// What a magnitude stands for, counted in units of 2^-1074, the smallest positive number:
/// the low 52 bits are the significand, the bits above them the exponent, and all but the
/// lowest exponent add a leading one.
pub open spec fn magnitude_units(magnitude: nat) -> nat {
    let exponent = magnitude / 0x10_0000_0000_0000;
    let significand = magnitude % 0x10_0000_0000_0000;
    if exponent == 0 {
        significand
    } else {
        (0x10_0000_0000_0000 + significand) * pow2((exponent - 1) as nat)
    }
}

/// The exact value of a finite number, in units of 2^-1074.
pub open spec fn units(x: Num) -> int {
    if x.bits >= SIGN_BIT {
        -(magnitude_units(x.magnitude() as nat) as int)
    } else {
        magnitude_units(x.magnitude() as nat) as int
    }
}

/// The next magnitude up stands for a larger number.
proof fn lemma_units_step(m: nat)
    ensures
        magnitude_units(m) < magnitude_units(m + 1),
{
    let unit: nat = 0x10_0000_0000_0000;
    let e = m / unit;
    let s = m % unit;
    assert(m == e * unit + s) by (nonlinear_arith)
        requires
            unit == 0x10_0000_0000_0000,
            e == m / unit,
            s == m % unit,
    ;
    if s + 1 < unit {
        assert((m + 1) / unit == e && (m + 1) % unit == s + 1) by (nonlinear_arith)
            requires
                unit == 0x10_0000_0000_0000,
                m == e * unit + s,
                s + 1 < unit,
        ;
        if e > 0 {
            let p = pow2((e - 1) as nat);
            lemma_pow2_pos((e - 1) as nat);
            assert((unit + s) * p < (unit + s + 1) * p) by (nonlinear_arith)
                requires
                    p > 0,
            ;
        }
    } else {
        assert((m + 1) / unit == e + 1 && (m + 1) % unit == 0) by (nonlinear_arith)
            requires
                unit == 0x10_0000_0000_0000,
                m == e * unit + s,
                s + 1 == unit,
        ;
        let q = pow2(e);
        if e == 0 {
            vstd::arithmetic::power2::lemma2_to64();
            assert(q == 1);
        } else {
            let p = pow2((e - 1) as nat);
            lemma_pow2_pos((e - 1) as nat);
            lemma_pow2_unfold(e);
            assert(q == 2 * p);
            assert((unit + s) * p < unit * q) by (nonlinear_arith)
                requires
                    p > 0,
                    q == 2 * p,
                    s + 1 == unit,
            ;
        }
    }
}

/// Larger magnitudes stand for larger numbers.
proof fn lemma_units_grow(a: nat, b: nat)
    requires
        a < b,
    ensures
        magnitude_units(a) < magnitude_units(b),
    decreases b - a,
{
    lemma_units_step((b - 1) as nat);
    if a < b - 1 {
        lemma_units_grow(a, (b - 1) as nat);
    }
}

/// Comparing ranks is comparing the numbers themselves: of two finite patterns the one with
/// the smaller rank has the smaller value, and equal ranks are equal values.
pub proof fn rank_orders_values(a: Num, b: Num)
    requires
        a.finite(),
        b.finite(),
    ensures
        a.rank() < b.rank() <==> units(a) < units(b),
        a.rank() == b.rank() <==> units(a) == units(b),
{
    let x = a.magnitude() as nat;
    let y = b.magnitude() as nat;
    assert(magnitude_units(0) == 0);
    if x > 0 {
        lemma_units_grow(0, x);
    }
    if y > 0 {
        lemma_units_grow(0, y);
    }
    if x < y {
        lemma_units_grow(x, y);
    }
    if y < x {
        lemma_units_grow(y, x);
    }
}

/// Comparing is comparing the values: of two finite numbers one is below the other exactly where its
/// value is, and no more than it, or the same, exactly where its value is; a non-number is neither
/// below, nor above, nor the same as anything.
pub proof fn comparisons_are_of_values(a: Num, b: Num)
    ensures
        a.finite() && b.finite() ==> (a.below(b) <==> units(a) < units(b)),
        a.finite() && b.finite() ==> (a.at_most(b) <==> units(a) <= units(b)),
        a.finite() && b.finite() ==> (a.same(b) <==> units(a) == units(b)),
        a.nan() || b.nan() ==> !a.below(b) && !a.at_most(b) && !a.same(b),
        !a.nan() && !b.nan() ==> a.below(b) || a.same(b) || b.below(a),
        a.nan() <==> a.bits % SIGN_BIT > 0x7FF0_0000_0000_0000,
        a.finite() <==> a.bits % SIGN_BIT < 0x7FF0_0000_0000_0000,
{
    if a.finite() && b.finite() {
        rank_orders_values(a, b);
    }
}

/// The larger and the smaller of two numbers are one of the two, and no number is on the wrong side
/// of them; a non-number gives way to the other one.
pub proof fn larger_and_smaller_are_extremes(a: Num, b: Num)
    ensures
        larger(a, b) == a || larger(a, b) == b,
        smaller(a, b) == a || smaller(a, b) == b,
        !a.nan() && !b.nan() ==> a.at_most(larger(a, b)) && b.at_most(larger(a, b)),
        !a.nan() && !b.nan() ==> smaller(a, b).at_most(a) && smaller(a, b).at_most(b),
        a.nan() ==> larger(a, b) == b && smaller(a, b) == b,
        b.nan() && !a.nan() ==> larger(a, b) == a && smaller(a, b) == a,
{
}

/// Negation changes the sign of a finite number's value, and its magnitude is the value without its
/// sign; zero has the value zero.
pub proof fn signs_are_flipped_and_dropped(a: Num)
    ensures
        a.finite() ==> units(a.negated()) == -units(a),
        a.finite() ==> units(a.absolute()) == if units(a) < 0 {
            -units(a)
        } else {
            units(a)
        },
        a.negated().negated() == a,
        a.absolute().bits < SIGN_BIT,
        units(spec_zero()) == 0,
        spec_zero().rank() < spec_epsilon().rank(),
{
    assert(magnitude_units(0) == 0);
}

/// The tolerance is one billionth, zero has no bits, and a number is finite exactly where its bits, the
/// sign aside, lie below those of infinity.
pub proof fn special_numbers_have_their_bits(a: Num)
    ensures
        spec_epsilon().bits == 0x3E11_2E0B_E826_D695,
        spec_zero().bits == 0,
        a.finite() <==> a.bits % 0x8000_0000_0000_0000 < 0x7FF0_0000_0000_0000,
{
}

/// Of two numbers of the same value the first is the larger and the smaller one.
pub proof fn the_first_of_equals_is_taken(a: Num, b: Num)
    requires
        a.same(b),
    ensures
        larger(a, b) == a,
        smaller(a, b) == a,
{
}

} // verus!
