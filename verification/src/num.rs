//! Exact decimal numbers, the scalar type of the decoder and the
//! integrator. A telemetry line carries decimal literals; keeping them
//! as (sign, mantissa, power of ten) lets the core compute with them
//! exactly, and leaves any rounding to the displaying caller.

use vstd::prelude::*;

verus! {

/// Upper bound (exclusive) on decoded mantissas: 18 decimal digits.
pub const MANT_LIMIT: u128 = 1000000000000000000;

/// Bound on the magnitude of decoded exponents.
pub const EXP_LIMIT: i64 = 1000000;

/// An exact decimal number: (-1)^neg * mant * 10^exp.
#[derive(Clone, Copy, PartialEq, Eq, Structural, Debug)]
pub struct Num {
    pub neg: bool,
    pub mant: u128,
    pub exp: i64,
}

/// 10^n.
pub open spec fn pow10(n: nat) -> int
    decreases n,
{
    if n == 0 {
        1
    } else {
        10 * pow10((n - 1) as nat)
    }
}

pub proof fn lemma_pow10_pos(n: nat)
    ensures
        pow10(n) >= 1,
    decreases n,
{
    if n > 0 {
        lemma_pow10_pos((n - 1) as nat);
    }
}

pub proof fn lemma_pow10_mono(a: nat, b: nat)
    requires
        a <= b,
    ensures
        1 <= pow10(a) <= pow10(b),
    decreases b,
{
    lemma_pow10_pos(a);
    if a < b {
        lemma_pow10_mono(a, (b - 1) as nat);
        lemma_pow10_pos((b - 1) as nat);
    }
}

/// Ground values of `pow10` that the bounds proofs lean on.
pub proof fn lemma_pow10_val()
    ensures
        pow10(3) == 1000,
        pow10(18) == MANT_LIMIT,
        pow10(19) == 10000000000000000000,
        pow10(20) == 100000000000000000000,
        pow10(38) < u128::MAX,
{
    reveal_with_fuel(pow10, 40);
}

impl Num {
    /// Decoded numbers have a bounded mantissa and exponent, and zero
    /// carries no sign.
    pub open spec fn wf(self) -> bool {
        &&& self.mant < MANT_LIMIT
        &&& -EXP_LIMIT <= self.exp <= EXP_LIMIT
        &&& (self.mant == 0 ==> !self.neg)
    }

    /// Like `wf`, with room in the exponent for scaled and multiplied
    /// values derived from two well-formed numbers.
    pub open spec fn wide_wf(self) -> bool {
        &&& self.mant < MANT_LIMIT
        &&& -4 * EXP_LIMIT <= self.exp <= 4 * EXP_LIMIT
        &&& (self.mant == 0 ==> !self.neg)
    }

    pub open spec fn spec_zero() -> Num {
        Num { neg: false, mant: 0, exp: 0 }
    }

    pub fn zero() -> (r: Num)
        ensures
            r == Num::spec_zero(),
    {
        Num { neg: false, mant: 0, exp: 0 }
    }

    /// The number denotes zero.
    pub open spec fn is_zero(self) -> bool {
        self.mant == 0
    }
}

/// Exact product of two decimal numbers; defined (without truncation)
/// whenever both mantissas are below `MANT_LIMIT` and the exponents are
/// moderate, which `mul` requires.
pub open spec fn num_mul(a: Num, b: Num) -> Num {
    Num {
        neg: a.mant * b.mant != 0 && a.neg != b.neg,
        mant: (a.mant * b.mant) as u128,
        exp: (a.exp + b.exp) as i64,
    }
}

/// The same number with the opposite sign; zero stays unsigned.
pub open spec fn num_neg(n: Num) -> Num {
    Num { neg: n.mant != 0 && !n.neg, mant: n.mant, exp: n.exp }
}

/// The number scaled by 10^k.
pub open spec fn num_shift(n: Num, k: int) -> Num {
    Num { neg: n.neg, mant: n.mant, exp: (n.exp + k) as i64 }
}

/// Multiplies two decimal numbers exactly.
pub fn product(a: Num, b: Num) -> (r: Num)
    requires
        a.wide_wf(),
        b.wide_wf(),
    ensures
        r == num_mul(a, b),
        r.mant == a.mant * b.mant,
        r.exp == a.exp + b.exp,
{
    proof {
        assert(a.mant * b.mant < MANT_LIMIT * MANT_LIMIT) by (nonlinear_arith)
            requires
                a.mant < MANT_LIMIT,
                b.mant < MANT_LIMIT,
        ;
    }
    let m = a.mant * b.mant;
    Num { neg: m != 0 && a.neg != b.neg, mant: m, exp: a.exp + b.exp }
}

/// Flips the sign of a decimal number.
pub fn negate(n: Num) -> (r: Num)
    ensures
        r == num_neg(n),
{
    Num { neg: n.mant != 0 && !n.neg, mant: n.mant, exp: n.exp }
}

/// A non-negative duration in milliseconds, as whole microseconds
/// (fractional microseconds are discarded).
pub open spec fn us_of(n: Num) -> int {
    if n.exp + 3 >= 0 {
        n.mant * pow10((n.exp + 3) as nat)
    } else {
        n.mant as int / pow10((-(n.exp + 3)) as nat)
    }
}

/// `us_of`, saturated to a machine word.
pub open spec fn us_sat(n: Num) -> u64 {
    if us_of(n) > u64::MAX {
        u64::MAX
    } else {
        us_of(n) as u64
    }
}

pub fn pow10_exec(e: u32) -> (r: u128)
    requires
        e <= 38,
    ensures
        r == pow10(e as nat),
{
    let mut r: u128 = 1;
    let mut i: u32 = 0;
    while i < e
        invariant
            i <= e <= 38,
            r == pow10(i as nat),
        decreases e - i,
    {
        proof {
            lemma_pow10_mono((i + 1) as nat, 38);
            lemma_pow10_val();
            assert(10 * pow10(i as nat) == pow10((i + 1) as nat));
        }
        r = r * 10;
        i = i + 1;
    }
    r
}

/// Converts a non-negative duration in milliseconds to microseconds,
/// flooring to a whole count and saturating at `u64::MAX`.
pub fn dt_to_us(n: Num) -> (r: u64)
    requires
        n.wf(),
        !n.neg,
    ensures
        r == us_sat(n),
{
    proof {
        lemma_pow10_val();
    }
    let e: i64 = n.exp + 3;
    if n.mant == 0 {
        proof {
            if e < 0 {
                lemma_pow10_pos((-e) as nat);
            }
            assert(us_of(n) == 0);
        }
        0
    } else if e >= 0 {
        if e >= 20 {
            proof {
                lemma_pow10_mono(20, e as nat);
                assert(n.mant * pow10(e as nat) >= 1 * pow10(e as nat)) by (nonlinear_arith)
                    requires
                        n.mant >= 1,
                        pow10(e as nat) >= 1,
                ;
                assert(us_of(n) > u64::MAX);
            }
            u64::MAX
        } else {
            let p = pow10_exec(e as u32);
            proof {
                lemma_pow10_mono(e as nat, 19);
                assert(n.mant * p < MANT_LIMIT * pow10(19)) by (nonlinear_arith)
                    requires
                        n.mant < MANT_LIMIT,
                        1 <= p <= pow10(19),
                ;
            }
            let prod = n.mant * p;
            proof {
                assert(us_of(n) == prod);
            }
            if prod > u64::MAX as u128 {
                u64::MAX
            } else {
                prod as u64
            }
        }
    } else {
        let k: i64 = -e;
        if k >= 18 {
            proof {
                lemma_pow10_mono(18, k as nat);
                assert(n.mant as int / pow10(k as nat) == 0) by (nonlinear_arith)
                    requires
                        0 <= n.mant < MANT_LIMIT,
                        pow10(k as nat) >= MANT_LIMIT,
                ;
                assert(us_of(n) == 0);
            }
            0
        } else {
            let p = pow10_exec(k as u32);
            proof {
                lemma_pow10_pos(k as nat);
                assert(0 <= n.mant as int / p as int <= n.mant) by (nonlinear_arith)
                    requires
                        p >= 1,
                        n.mant >= 0,
                ;
                assert(us_of(n) == n.mant as int / p as int);
            }
            (n.mant / p) as u64
        }
    }
}

/// Saturating addition of microsecond counts.
pub open spec fn sat_add64(a: u64, b: u64) -> u64 {
    if a + b > u64::MAX {
        u64::MAX
    } else {
        (a + b) as u64
    }
}

pub fn sat_add(a: u64, b: u64) -> (r: u64)
    ensures
        r == sat_add64(a, b),
{
    if a > u64::MAX - b {
        u64::MAX
    } else {
        a + b
    }
}

} // verus!
