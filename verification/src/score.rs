//! Likelihoods and confidences.
//!
//! A collaborator reports a likelihood as a single-precision number. The
//! library carries such a number as its IEEE-754 bit pattern, which loses
//! nothing, and reasons about it through its sign and magnitude: among numbers
//! of one sign the order of the magnitudes is the order of the values.

use vstd::arithmetic::power2::{
    lemma2_to64, lemma_pow2_adds, lemma_pow2_pos, lemma_pow2_strictly_increases, pow2,
};
use vstd::prelude::*;

verus! {

/// How many magnitudes share one exponent: 2 to the 23rd.
pub const FRACTIONS: u32 = 0x80_0000;

/// The bit that holds the sign.
pub const SIGN_BIT: u32 = 0x8000_0000;

/// The magnitude of infinity; every larger magnitude is not a number.
pub const INFINITY_MAGNITUDE: u32 = 0x7F80_0000;

/// The magnitude, and the bit pattern, of 1.0.
pub const ONE_MAGNITUDE: u32 = 0x3F80_0000;

/// A single-precision number, held as its bit pattern.
#[derive(Clone, Copy, Debug, PartialEq, Eq, Structural)]
pub struct Score {
    pub bits: u32,
}

impl Score {
    /// Whether the sign bit is set.
    pub open spec fn sign_set(self) -> bool {
        self.bits >= SIGN_BIT
    }

    /// The bit pattern without its sign bit.
    pub open spec fn magnitude(self) -> int {
        if self.bits >= SIGN_BIT {
            self.bits - SIGN_BIT
        } else {
            self.bits as int
        }
    }

    /// Whether the pattern stands for no number at all.
    pub open spec fn is_nan(self) -> bool {
        self.magnitude() > INFINITY_MAGNITUDE
    }

    /// The exponent that the pattern holds, as it is written in it.
    pub open spec fn exponent_field(self) -> int {
        self.magnitude() / (FRACTIONS as int)
    }

    /// The fraction that the pattern holds, as it is written in it.
    pub open spec fn fraction_field(self) -> int {
        self.magnitude() % (FRACTIONS as int)
    }

    /// The absolute value of the number, counted in units of 2 to the power
    /// -149, the smallest step between two numbers: a whole number for every
    /// pattern. Infinity counts as the first step beyond the largest number.
    pub open spec fn scaled_magnitude(self) -> int {
        if self.exponent_field() == 0 {
            self.fraction_field()
        } else {
            (FRACTIONS + self.fraction_field()) * pow2((self.exponent_field() - 1) as nat)
        }
    }

    /// The value of the number, counted in units of 2 to the power -149.
    pub open spec fn scaled_value(self) -> int {
        if self.sign_set() {
            -self.scaled_magnitude()
        } else {
            self.scaled_magnitude()
        }
    }

    /// Where the number stands on the number line: two numbers compare as
    /// their ranks do, and both zeros have rank 0. Meaningful for numbers only.
    pub open spec fn rank(self) -> int {
        if self.sign_set() {
            -self.magnitude()
        } else {
            self.magnitude()
        }
    }

    /// Whether the number lies in the closed interval from 0.0 to 1.0.
    pub open spec fn in_unit_interval(self) -> bool {
        !self.is_nan() && 0 <= self.rank() <= ONE_MAGNITUDE
    }

    /// The number brought into the closed interval from 0.0 to 1.0: what
    /// lies below becomes 0.0, what lies above becomes 1.0, the rest stays.
    /// What is no number stays as it is.
    pub open spec fn clamped(self) -> Score {
        if self.is_nan() {
            self
        } else if self.rank() < 0 {
            Score { bits: 0 }
        } else if self.rank() > ONE_MAGNITUDE {
            Score { bits: ONE_MAGNITUDE }
        } else {
            self
        }
    }

    /// The number with the given bit pattern.
    pub fn from_bits(bits: u32) -> (r: Score)
        ensures
            r.bits == bits,
    {
        Score { bits }
    }

    /// The bit pattern.
    pub fn to_bits(&self) -> (r: u32)
        ensures
            r == self.bits,
    {
        self.bits
    }

    /// 0.0.
    pub fn zero() -> (r: Score)
        ensures
            r.bits == 0,
            r.rank() == 0,
            r.in_unit_interval(),
    {
        Score { bits: 0 }
    }

    /// 1.0.
    pub fn one() -> (r: Score)
        ensures
            r.bits == ONE_MAGNITUDE,
            r.rank() == ONE_MAGNITUDE,
            r.in_unit_interval(),
    {
        Score { bits: ONE_MAGNITUDE }
    }

    fn magnitude_bits(&self) -> (r: u32)
        ensures
            r == self.magnitude(),
    {
        if self.bits >= SIGN_BIT {
            self.bits - SIGN_BIT
        } else {
            self.bits
        }
    }

    pub fn is_not_a_number(&self) -> (r: bool)
        ensures
            r == self.is_nan(),
    {
        self.magnitude_bits() > INFINITY_MAGNITUDE
    }

    pub fn is_in_unit_interval(&self) -> (r: bool)
        ensures
            r == self.in_unit_interval(),
    {
        let m: u32 = self.magnitude_bits();
        if self.bits >= SIGN_BIT {
            m == 0
        } else {
            m <= ONE_MAGNITUDE
        }
    }

    /// Brings the number into the closed interval from 0.0 to 1.0.
    pub fn clamp_unit(&self) -> (r: Score)
        ensures
            r == self.clamped(),
            !self.is_nan() ==> r.in_unit_interval(),
    {
        let m: u32 = self.magnitude_bits();
        if m > INFINITY_MAGNITUDE {
            *self
        } else if self.bits >= SIGN_BIT {
            if m == 0 {
                *self
            } else {
                Score { bits: 0 }
            }
        } else if m > ONE_MAGNITUDE {
            Score { bits: ONE_MAGNITUDE }
        } else {
            *self
        }
    }
}

/// Clamping never leaves the unit interval: whatever number goes in, however
/// large or however far below zero, what comes out lies in it.
pub proof fn lemma_clamped_in_unit_interval(x: Score)
    requires
        !x.is_nan(),
    ensures
        x.clamped().in_unit_interval(),
{
}

/// Clamping keeps what already lies in the unit interval, sends everything
/// below it to 0.0 and everything above it to 1.0.
pub proof fn lemma_clamped_cases(x: Score)
    requires
        !x.is_nan(),
    ensures
        x.in_unit_interval() ==> x.clamped() == x,
        x.rank() < 0 ==> x.clamped().bits == 0,
        x.rank() > ONE_MAGNITUDE ==> x.clamped().bits == ONE_MAGNITUDE,
{
}

/// Clamping twice is clamping once.
pub proof fn lemma_clamped_idempotent(x: Score)
    ensures
        x.clamped().clamped() == x.clamped(),
{
}

/// Clamping keeps the order of numbers.
pub proof fn lemma_clamped_monotone(x: Score, y: Score)
    requires
        !x.is_nan(),
        !y.is_nan(),
        x.rank() <= y.rank(),
    ensures
        x.clamped().rank() <= y.clamped().rank(),
{
}

/// Of two patterns the one with the larger magnitude stands for the number
/// with the larger absolute value.
pub proof fn lemma_magnitude_orders_values(x: Score, y: Score)
    requires
        x.magnitude() < y.magnitude(),
    ensures
        x.scaled_magnitude() < y.scaled_magnitude(),
{
    let ex = x.exponent_field();
    let ey = y.exponent_field();
    let fx = x.fraction_field();
    let fy = y.fraction_field();
    let unit = FRACTIONS as int;
    assert(0 <= fx < unit && 0 <= fy < unit);
    assert(x.magnitude() == ex * unit + fx && y.magnitude() == ey * unit + fy);
    assert(0 <= ex <= ey) by (nonlinear_arith)
        requires
            x.magnitude() == ex * unit + fx,
            y.magnitude() == ey * unit + fy,
            0 <= fx < unit,
            0 <= fy < unit,
            0 <= x.magnitude() < y.magnitude(),
            unit > 0,
    ;
    if ex == ey {
        assert(fx < fy);
        if ex > 0 {
            let step = pow2((ex - 1) as nat) as int;
            lemma_pow2_pos((ex - 1) as nat);
            assert((unit + fx) * step < (unit + fy) * step) by (nonlinear_arith)
                requires
                    fx < fy,
                    step > 0,
            ;
        }
    } else {
        let step_y = pow2((ey - 1) as nat) as int;
        lemma_pow2_pos((ey - 1) as nat);
        assert(unit * step_y <= (unit + fy) * step_y) by (nonlinear_arith)
            requires
                0 <= fy,
                step_y > 0,
        ;
        if ex == 0 {
            assert(unit * 1 <= unit * step_y) by (nonlinear_arith)
                requires
                    step_y >= 1,
                    unit > 0,
            ;
        } else {
            let step_x = pow2((ex - 1) as nat) as int;
            lemma_pow2_pos((ex - 1) as nat);
            lemma_pow2_adds(1, (ex - 1) as nat);
            lemma2_to64();
            assert(pow2(ex as nat) == 2 * step_x);
            if ex < ey - 1 {
                lemma_pow2_strictly_increases(ex as nat, (ey - 1) as nat);
            }
            assert(2 * step_x <= step_y);
            assert((unit + fx) * step_x < unit * step_y) by (nonlinear_arith)
                requires
                    0 <= fx < unit,
                    step_x > 0,
                    2 * step_x <= step_y,
            ;
        }
    }
}

/// Numbers stand on the number line as their values do: the rank of one is
/// below the rank of another exactly when its value is.
pub proof fn lemma_rank_orders_values(x: Score, y: Score)
    ensures
        x.rank() < y.rank() <==> x.scaled_value() < y.scaled_value(),
        x.rank() == y.rank() <==> x.scaled_value() == y.scaled_value(),
{
    lemma_magnitude_is_value(x);
    lemma_magnitude_is_value(y);
    if x.magnitude() < y.magnitude() {
        lemma_magnitude_orders_values(x, y);
    } else if y.magnitude() < x.magnitude() {
        lemma_magnitude_orders_values(y, x);
    } else {
        assert(x.exponent_field() == y.exponent_field());
        assert(x.fraction_field() == y.fraction_field());
    }
}

/// The absolute value of a number is not negative, and is zero for the two
/// zeros only.
pub proof fn lemma_magnitude_is_value(x: Score)
    ensures
        x.scaled_magnitude() >= 0,
        x.scaled_magnitude() == 0 <==> x.magnitude() == 0,
{
    let zero = Score { bits: 0 };
    assert(zero.scaled_magnitude() == 0);
    if x.magnitude() > 0 {
        lemma_magnitude_orders_values(zero, x);
    } else {
        assert(x.exponent_field() == 0 && x.fraction_field() == 0);
    }
}

/// The pattern of 1.0 stands for the value 1: 2 to the power 149 of the
/// units in which values are counted.
pub proof fn lemma_one_is_one()
    ensures
        (Score { bits: ONE_MAGNITUDE }).scaled_value() == pow2(149),
        (Score { bits: 0 }).scaled_value() == 0,
{
    let one = Score { bits: ONE_MAGNITUDE };
    assert(one.exponent_field() == 127);
    assert(one.fraction_field() == 0);
    lemma_pow2_adds(23, 126);
    lemma2_to64();
    assert(pow2(23) == 0x80_0000);
}

/// A number lies in the unit interval exactly when its value is at least 0
/// and at most 1.
pub proof fn lemma_unit_interval_is_zero_to_one(x: Score)
    requires
        !x.is_nan(),
    ensures
        x.in_unit_interval() <==> 0 <= x.scaled_value() <= pow2(149),
{
    let one = Score { bits: ONE_MAGNITUDE };
    let zero = Score { bits: 0 };
    lemma_one_is_one();
    lemma_rank_orders_values(x, one);
    lemma_rank_orders_values(zero, x);
    assert(one.rank() == ONE_MAGNITUDE);
    assert(zero.rank() == 0);
}

/// Clamping gives the value that lies nearest in the unit interval: the
/// value itself where it lies between 0 and 1, 0 where it lies below, and 1
/// where it lies above.
pub proof fn lemma_clamped_value(x: Score)
    requires
        !x.is_nan(),
    ensures
        x.clamped().scaled_value() == if x.scaled_value() < 0 {
            0
        } else if x.scaled_value() > pow2(149) {
            pow2(149) as int
        } else {
            x.scaled_value()
        },
{
    let one = Score { bits: ONE_MAGNITUDE };
    let zero = Score { bits: 0 };
    lemma_one_is_one();
    lemma_rank_orders_values(x, one);
    lemma_rank_orders_values(x, zero);
    lemma_rank_orders_values(zero, x);
    lemma_rank_orders_values(one, x);
    assert(one.rank() == ONE_MAGNITUDE);
    assert(zero.rank() == 0);
    lemma_magnitude_is_value(x);
}

} // verus!
