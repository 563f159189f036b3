use vstd::prelude::*;

use crate::factorials::{
    double_fact, double_factorial, fact, factorial, lemma_double_fact_bounds,
    lemma_double_fact_fits, lemma_fact_fits, lemma_fact_positive,
};

verus! {

/// The largest dimension whose gamma value and volume coefficient fit in `u64`.
pub const MAX_DIMENSION: u64 = 34;

/// `b` raised to the natural power `e`.
pub open spec fn power(b: int, e: nat) -> int
    decreases e,
{
    if e == 0 {
        1
    } else {
        b * power(b, (e - 1) as nat)
    }
}

/// Numerator of `Γ(n/2 + 1)`: `(n/2)!` for even `n`, `n!!` for odd `n`.
pub open spec fn gamma_num(n: nat) -> nat {
    if n % 2 == 0 {
        fact(n / 2)
    } else {
        double_fact(n)
    }
}

/// Denominator of `Γ(n/2 + 1)`: 1 for even `n`, `2^((n + 1) / 2)` for odd `n`.
pub open spec fn gamma_den(n: nat) -> int {
    if n % 2 == 0 {
        1
    } else {
        power(2, ((n + 1) / 2) as nat)
    }
}

/// `Γ(n/2 + 1)` in closed form: `num / den`, times `√π` when `with_sqrt_pi` holds.
#[derive(Clone, Copy, Debug, PartialEq, Eq, Structural)]
pub struct HalfGamma {
    pub num: u64,
    pub den: u64,
    pub with_sqrt_pi: bool,
}

impl HalfGamma {
    /// Whether this value is `Γ(n/2 + 1)`.
    pub open spec fn is_gamma_of(&self, n: nat) -> bool {
        &&& self.num == gamma_num(n)
        &&& self.den == gamma_den(n)
        &&& self.with_sqrt_pi == (n % 2 == 1)
    }
}

pub proof fn lemma_power_two_positive(e: nat)
    ensures
        power(2, e) >= 1,
    decreases e,
{
    if e > 0 {
        lemma_power_two_positive((e - 1) as nat);
    }
}

pub proof fn lemma_power_two_monotonic(i: nat, j: nat)
    requires
        i <= j,
    ensures
        power(2, i) <= power(2, j),
    decreases j - i,
{
    if i < j {
        lemma_power_two_monotonic(i, (j - 1) as nat);
        lemma_power_two_positive((j - 1) as nat);
    }
}

pub proof fn lemma_power_nonnegative(b: int, e: nat)
    requires
        b >= 0,
    ensures
        power(b, e) >= 0,
    decreases e,
{
    if e > 0 {
        lemma_power_nonnegative(b, (e - 1) as nat);
        assert(b * power(b, (e - 1) as nat) >= 0) by (nonlinear_arith)
            requires
                b >= 0,
                power(b, (e - 1) as nat) >= 0,
        ;
    }
}

pub proof fn lemma_power_positive(b: int, e: nat)
    requires
        b > 0,
    ensures
        power(b, e) > 0,
    decreases e,
{
    if e > 0 {
        lemma_power_positive(b, (e - 1) as nat);
        assert(b * power(b, (e - 1) as nat) > 0) by (nonlinear_arith)
            requires
                b > 0,
                power(b, (e - 1) as nat) > 0,
        ;
    }
}

pub proof fn lemma_power_small(b: int)
    ensures
        power(b, 0) == 1,
        power(b, 1) == b,
        power(b, 2) == b * b,
        power(b, 3) == b * b * b,
{
    assert(power(b, 0) == 1);
    assert(power(b, 1) == b);
    assert(power(b, 2) == b * b);
    assert(power(b, 3) == b * (b * b));
    assert(b * (b * b) == b * b * b) by (nonlinear_arith);
}

/// Computes `2^e` by repeated doubling.
fn power_of_two(e: u64) -> (r: u64)
    requires
        power(2, e as nat) <= u64::MAX,
    ensures
        r == power(2, e as nat),
{
    let mut result: u64 = 1;
    let mut i: u64 = 0;
    while i < e
        invariant
            i <= e,
            result == power(2, i as nat),
            power(2, e as nat) <= u64::MAX,
        decreases e - i,
    {
        i = i + 1;
        proof {
            lemma_power_two_monotonic(i as nat, e as nat);
        }
        result = result * 2;
    }
    result
}

/// Every dimension up to `MAX_DIMENSION` has a gamma value that fits in `u64`.
pub proof fn lemma_gamma_fits(n: nat)
    requires
        n <= MAX_DIMENSION,
    ensures
        1 <= gamma_num(n) <= u64::MAX,
        1 <= gamma_den(n) <= u64::MAX,
{
    if n % 2 == 0 {
        lemma_fact_fits(n / 2);
        lemma_fact_positive(n / 2);
    } else {
        lemma_double_fact_fits(n);
        lemma_double_fact_bounds(n);
        lemma_power_two_monotonic(((n + 1) / 2) as nat, 17);
        lemma_power_two_positive(((n + 1) / 2) as nat);
        assert(power(2, 17) == 131072) by {
            reveal_with_fuel(power, 18);
        }
    }
}

/// Computes `Γ(n/2 + 1)`: `(n/2)!` for even `n`, `n!! / 2^((n + 1) / 2) · √π` for odd `n`.
pub fn gamma_half_integer(n: u64) -> (g: HalfGamma)
    requires
        n <= MAX_DIMENSION,
    ensures
        g.is_gamma_of(n as nat),
{
    proof {
        lemma_gamma_fits(n as nat);
    }
    if n % 2 == 0 {
        HalfGamma { num: factorial(n / 2), den: 1, with_sqrt_pi: false }
    } else {
        HalfGamma {
            num: double_factorial(n),
            den: power_of_two((n + 1) / 2),
            with_sqrt_pi: true,
        }
    }
}

} // verus!
