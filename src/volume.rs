use vstd::prelude::*;

use crate::factorials::{
    double_fact, fact, lemma_double_fact_bounds, lemma_fact_positive,
};
use crate::gamma::{
    gamma_den, gamma_half_integer, gamma_num, lemma_power_nonnegative, lemma_power_positive,
    lemma_power_small, lemma_power_two_positive, power, MAX_DIMENSION,
};

verus! {

/// Numerator of the coefficient of `V_n = π^(n/2) / Γ(n/2 + 1) · r^n`, once the
/// `√π` of odd dimensions has cancelled: 1 for even `n`, `2^((n + 1) / 2)` for odd `n`.
pub open spec fn volume_coef_num(n: nat) -> int {
    if n % 2 == 0 {
        1
    } else {
        power(2, ((n + 1) / 2) as nat)
    }
}

/// Denominator of the coefficient of `V_n`: `(n/2)!` for even `n`, `n!!` for odd `n`.
pub open spec fn volume_coef_den(n: nat) -> nat {
    if n % 2 == 0 {
        fact(n / 2)
    } else {
        double_fact(n)
    }
}

/// Numerator of `V_n(r)` as a fraction, where `π = pi_num / pi_den` and `r = r_num / r_den`.
pub open spec fn volume_num(n: nat, pi_num: int, r_num: int) -> int {
    volume_coef_num(n) * power(pi_num, n / 2) * power(r_num, n)
}

/// Denominator of `V_n(r)` as a fraction, where `π = pi_num / pi_den` and `r = r_num / r_den`.
pub open spec fn volume_den(n: nat, pi_den: int, r_den: int) -> int {
    volume_coef_den(n) * power(pi_den, n / 2) * power(r_den, n)
}

/// The volume of an `n`-dimensional ball in closed form:
/// `coef_num / coef_den · π^pi_power · r^radius_power`.
#[derive(Clone, Copy, Debug, PartialEq, Eq, Structural)]
pub struct VolumeForm {
    pub coef_num: u64,
    pub coef_den: u64,
    pub pi_power: u64,
    pub radius_power: u64,
}

impl VolumeForm {
    /// Whether this is the closed form of the volume of the `n`-dimensional ball.
    pub open spec fn is_volume_of(&self, n: nat) -> bool {
        &&& self.coef_num == volume_coef_num(n)
        &&& self.coef_den == volume_coef_den(n)
        &&& self.pi_power == n / 2
        &&& self.radius_power == n
    }
}

/// Computes the closed form of `V_n = π^(n/2) / Γ(n/2 + 1) · r^n` for `n = dimension`.
pub fn hyper_sphere_volume(dimension: u64) -> (v: VolumeForm)
    requires
        dimension <= MAX_DIMENSION,
    ensures
        v.is_volume_of(dimension as nat),
        v.coef_num >= 1,
        v.coef_den >= 1,
{
    proof {
        crate::gamma::lemma_gamma_fits(dimension as nat);
    }
    let g = gamma_half_integer(dimension);
    VolumeForm { coef_num: g.den, coef_den: g.num, pi_power: dimension / 2, radius_power: dimension }
}

/// `V_n` is `π^(n/2)` divided by `Γ(n/2 + 1)`: the coefficient is the reciprocal of the
/// rational part of the gamma value, and the power of `π` in `V_n` times the `√π` of the gamma
/// value (odd `n` only) is `π^(n/2)`.
pub proof fn lemma_volume_is_pi_power_over_gamma(n: nat)
    ensures
        volume_coef_num(n) == gamma_den(n),
        volume_coef_den(n) == gamma_num(n),
        2 * (n / 2) + (if n % 2 == 1 { 1int } else { 0 }) == n,
{
}

/// For every dimension `n` and every radius `r >= 0`, `V_n(r) >= 0`: with `π` and `r`
/// written as fractions, the numerator is non-negative and the denominator positive.
pub proof fn lemma_volume_nonnegative(n: nat, pi_num: int, pi_den: int, r_num: int, r_den: int)
    requires
        pi_num > 0,
        pi_den > 0,
        r_num >= 0,
        r_den > 0,
    ensures
        volume_num(n, pi_num, r_num) >= 0,
        volume_den(n, pi_den, r_den) > 0,
{
    let c = volume_coef_num(n);
    let d = volume_coef_den(n) as int;
    if n % 2 == 1 {
        lemma_power_two_positive(((n + 1) / 2) as nat);
        lemma_double_fact_bounds(n);
    } else {
        lemma_fact_positive(n / 2);
    }
    let p = power(pi_num, n / 2);
    let q = power(r_num, n);
    let pd = power(pi_den, n / 2);
    let qd = power(r_den, n);
    lemma_power_positive(pi_num, n / 2);
    lemma_power_nonnegative(r_num, n);
    lemma_power_positive(pi_den, n / 2);
    lemma_power_positive(r_den, n);
    assert(c * p * q >= 0) by (nonlinear_arith)
        requires
            c >= 1,
            p > 0,
            q >= 0,
    ;
    assert(d * pd * qd > 0) by (nonlinear_arith)
        requires
            d >= 1,
            pd > 0,
            qd > 0,
    ;
}

/// `V_1(r) = 2r`: the one-dimensional ball is a segment whose length is the diameter.
pub proof fn lemma_volume_dimension_one(pi_num: int, pi_den: int, r_num: int, r_den: int)
    ensures
        volume_num(1, pi_num, r_num) == 2 * r_num,
        volume_den(1, pi_den, r_den) == r_den,
{
    lemma_power_small(2);
    lemma_power_small(pi_num);
    lemma_power_small(pi_den);
    lemma_power_small(r_num);
    lemma_power_small(r_den);
    assert(double_fact(1) == 1);
    assert(volume_coef_den(1) == 1);
    assert(1 * power(pi_den, 0) * power(r_den, 1) == r_den) by (nonlinear_arith)
        requires
            power(pi_den, 0) == 1,
            power(r_den, 1) == r_den,
    ;
}

/// `V_2(r) = π r²`: the area of the disc.
pub proof fn lemma_volume_dimension_two(pi_num: int, pi_den: int, r_num: int, r_den: int)
    ensures
        volume_num(2, pi_num, r_num) == pi_num * (r_num * r_num),
        volume_den(2, pi_den, r_den) == pi_den * (r_den * r_den),
{
    assert(fact(1) == 1) by {
        assert(fact(0) == 1);
    }
    lemma_power_small(pi_num);
    lemma_power_small(pi_den);
    lemma_power_small(r_num);
    lemma_power_small(r_den);
    assert(volume_coef_den(2) == 1);
    assert(1 * power(pi_den, 1) * power(r_den, 2) == pi_den * (r_den * r_den)) by (nonlinear_arith)
        requires
            power(pi_den, 1) == pi_den,
            power(r_den, 2) == r_den * r_den,
    ;
}

/// `V_3(r) = 4/3 · π r³`: the volume of the ordinary ball.
pub proof fn lemma_volume_dimension_three(pi_num: int, pi_den: int, r_num: int, r_den: int)
    ensures
        volume_num(3, pi_num, r_num) == 4 * pi_num * (r_num * r_num * r_num),
        volume_den(3, pi_den, r_den) == 3 * pi_den * (r_den * r_den * r_den),
{
    lemma_power_small(2);
    assert(double_fact(3) == 3) by {
        assert(double_fact(1) == 1);
    }
    lemma_power_small(pi_num);
    lemma_power_small(pi_den);
    lemma_power_small(r_num);
    lemma_power_small(r_den);
}

/// `V_(n+2) = 2π / (n + 2) · V_n · r²`: two dimensions up, the coefficient is multiplied by
/// `2 / (n + 2)` and the power of `π` grows by one. So for a fixed radius the volume grows from
/// `n` to `n + 2` exactly when `n + 2 < 2π r²`.
pub proof fn lemma_volume_two_dimensions_up(n: nat)
    ensures
        volume_coef_num(n + 2) * volume_coef_den(n) * (n + 2) == 2 * volume_coef_num(n)
            * volume_coef_den(n + 2),
        (n + 2) / 2 == n / 2 + 1,
{
    let m = (n + 2) as nat;
    if n % 2 == 0 {
        let f = fact(n / 2);
        assert(fact(m / 2) == (n / 2 + 1) * f);
        assert(f * (n + 2) == 2 * ((n / 2 + 1) * f)) by (nonlinear_arith)
            requires
                n % 2 == 0,
        ;
    } else {
        let p = power(2, ((n + 1) / 2) as nat);
        let d = double_fact(n);
        let e = ((n + 1) / 2) as nat;
        assert(((m + 1) / 2) as nat == e + 1);
        assert(power(2, e + 1) == 2 * p);
        assert(double_fact(m) == m * d);
        assert((2 * p) * d * m == 2 * p * (m * d)) by (nonlinear_arith);
    }
}

} // verus!
