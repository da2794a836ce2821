//! Classifier scores: floating-point numbers, held by their bit patterns.

use vstd::arithmetic::power2::{lemma_pow2_pos, lemma_pow2_unfold, pow2};
use vstd::prelude::*;

verus! {

/// The weight of the sign bit in a binary64 pattern.
const SIGN: u64 = 0x8000_0000_0000_0000;

/// The magnitude of infinity in a binary64 pattern. Greater magnitudes are not numbers.
const INFINITY: u64 = 0x7ff0_0000_0000_0000;

/// A binary64 floating-point number: the host reads and shows it, the library orders it.
pub struct Score {
    /// The number as an IEEE 754 binary64 bit pattern.
    pub bits: u64,
    /// The number as the host shows it.
    pub text: String,
}

/// The view of a [`Score`].
#[verifier::ext_equal]
pub struct ScoreView {
    pub bits: u64,
    pub text: Seq<char>,
}

impl View for Score {
    type V = ScoreView;

    open spec fn view(&self) -> ScoreView {
        ScoreView { bits: self.bits, text: self.text@ }
    }
}

impl Clone for Score {
    fn clone(&self) -> (r: Self)
        ensures
            r == *self,
    {
        Score { bits: self.bits, text: self.text.clone() }
    }
}

/// The view of an optional score.
pub open spec fn score_view(score: Option<Score>) -> Option<ScoreView> {
    match score {
        Some(score) => Some(score@),
        None => None,
    }
}

/// The sign bit is set.
pub open spec fn is_negative(bits: u64) -> bool {
    bits >= 0x8000_0000_0000_0000
}

/// The pattern without its sign bit.
pub open spec fn magnitude(bits: u64) -> nat {
    if is_negative(bits) {
        (bits - 0x8000_0000_0000_0000) as nat
    } else {
        bits as nat
    }
}

/// The pattern is not a number.
pub open spec fn is_nan(bits: u64) -> bool {
    magnitude(bits) > 0x7ff0_0000_0000_0000
}

/// The absolute value of a pattern in units of the smallest positive binary64 number, which is
/// two to the power of -1074. The upper bits of the magnitude are the exponent field and the
/// lower 52 bits the fraction. Infinity counts as the first value beyond the largest number.
pub open spec fn units(magnitude: nat) -> nat {
    let exponent = magnitude / 0x10_0000_0000_0000;
    let fraction = magnitude % 0x10_0000_0000_0000;
    if exponent == 0 {
        fraction
    } else {
        (0x10_0000_0000_0000 + fraction) * pow2((exponent - 1) as nat)
    }
}

/// The value of a pattern that is a number, in the units of [`units`].
pub open spec fn value(bits: u64) -> int {
    if is_negative(bits) {
        -(units(magnitude(bits)) as int)
    } else {
        units(magnitude(bits)) as int
    }
}

/// `a >= b` as floating-point numbers compare: false as soon as one of them is not a number.
pub open spec fn reaches(a: u64, b: u64) -> bool {
    !is_nan(a) && !is_nan(b) && value(a) >= value(b)
}

proof fn lemma_units_step(m: nat)
    ensures
        units(m) < units(m + 1),
{
    let unit: nat = 0x10_0000_0000_0000;
    let exponent = m / unit;
    let fraction = m % unit;
    if fraction + 1 < unit {
        assert((m + 1) / unit == exponent && (m + 1) % unit == fraction + 1);
        if exponent > 0 {
            let p = pow2((exponent - 1) as nat);
            lemma_pow2_pos((exponent - 1) as nat);
            assert((unit + fraction) * p < (unit + fraction + 1) * p) by (nonlinear_arith)
                requires
                    p > 0,
            ;
        }
    } else {
        assert((m + 1) / unit == exponent + 1 && (m + 1) % unit == 0);
        let q = pow2(exponent);
        lemma_pow2_pos(exponent);
        if exponent > 0 {
            let p = pow2((exponent - 1) as nat);
            lemma_pow2_unfold(exponent);
            lemma_pow2_pos((exponent - 1) as nat);
            assert(q == 2 * p);
            assert((unit + fraction) * p < (unit + 0) * q) by (nonlinear_arith)
                requires
                    q == 2 * p,
                    fraction + 1 == unit,
                    p > 0,
            ;
        } else {
            vstd::arithmetic::power2::lemma2_to64();
            assert(units(m + 1) == (unit + 0) * q);
        }
    }
}

/// A greater magnitude is a greater absolute value.
proof fn lemma_units_increase(a: nat, b: nat)
    requires
        a < b,
    ensures
        units(a) < units(b),
    decreases b,
{
    lemma_units_step((b - 1) as nat);
    if a < b - 1 {
        lemma_units_increase(a, (b - 1) as nat);
    }
}

impl Score {
    /// Whether this number is at or above `threshold`.
    pub fn is_at_least(&self, threshold: &Score) -> (r: bool)
        ensures
            r == reaches(self.bits, threshold.bits),
    {
        let negative: bool = self.bits >= SIGN;
        let size: u64 = if negative {
            self.bits - SIGN
        } else {
            self.bits
        };
        let other_negative: bool = threshold.bits >= SIGN;
        let other_size: u64 = if other_negative {
            threshold.bits - SIGN
        } else {
            threshold.bits
        };
        proof {
            assert(units(0) == 0);
            if 0 < size {
                lemma_units_increase(0, size as nat);
            }
            if 0 < other_size {
                lemma_units_increase(0, other_size as nat);
            }
            if size < other_size {
                lemma_units_increase(size as nat, other_size as nat);
            }
            if other_size < size {
                lemma_units_increase(other_size as nat, size as nat);
            }
        }
        if size > INFINITY || other_size > INFINITY {
            false
        } else if negative {
            if other_negative {
                size <= other_size
            } else {
                size == 0 && other_size == 0
            }
        } else {
            other_negative || size >= other_size
        }
    }
}

} // verus!
