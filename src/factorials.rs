use vstd::prelude::*;

verus! {

/// `n!`, the product `1 * 2 * ... * n`; the empty product `0! == 1`.
pub open spec fn fact(n: nat) -> nat
    decreases n,
{
    if n == 0 {
        1
    } else {
        n * fact((n - 1) as nat)
    }
}

/// `n!!`, the product `n * (n - 2) * (n - 4) * ...` down to 1 or 2; `0!! == 1!! == 1`.
pub open spec fn double_fact(n: nat) -> nat
    decreases n,
{
    if n <= 1 {
        1
    } else {
        n * double_fact((n - 2) as nat)
    }
}

pub proof fn lemma_fact_positive(n: nat)
    ensures
        fact(n) >= 1,
    decreases n,
{
    if n > 0 {
        lemma_fact_positive((n - 1) as nat);
        assert(n * fact((n - 1) as nat) >= 1) by (nonlinear_arith)
            requires
                n >= 1,
                fact((n - 1) as nat) >= 1,
        ;
    }
}

pub proof fn lemma_fact_monotonic(i: nat, j: nat)
    requires
        i <= j,
    ensures
        fact(i) <= fact(j),
    decreases j - i,
{
    if i < j {
        lemma_fact_monotonic(i, (j - 1) as nat);
        lemma_fact_positive((j - 1) as nat);
        assert(fact((j - 1) as nat) <= j * fact((j - 1) as nat)) by (nonlinear_arith)
            requires
                j >= 1,
        ;
    }
}

/// The largest `n` whose factorial fits in `u64`.
pub const MAX_FACTORIAL_ARG: u64 = 20;

/// The largest `n` whose double factorial fits in `u64`.
pub const MAX_DOUBLE_FACTORIAL_ARG: u64 = 33;

pub proof fn lemma_fact_fits(n: nat)
    requires
        n <= MAX_FACTORIAL_ARG,
    ensures
        fact(n) <= u64::MAX,
{
    lemma_fact_monotonic(n, 20);
    assert(fact(20) == 2432902008176640000) by {
        assert(fact(0) == 1);
        assert(fact(1) == 1);
        assert(fact(2) == 2);
        assert(fact(3) == 6);
        assert(fact(4) == 24);
        assert(fact(5) == 120);
        assert(fact(6) == 720);
        assert(fact(7) == 5040);
        assert(fact(8) == 40320);
        assert(fact(9) == 362880);
        assert(fact(10) == 3628800);
        assert(fact(11) == 39916800);
        assert(fact(12) == 479001600);
        assert(fact(13) == 6227020800);
        assert(fact(14) == 87178291200);
        assert(fact(15) == 1307674368000);
        assert(fact(16) == 20922789888000);
        assert(fact(17) == 355687428096000);
        assert(fact(18) == 6402373705728000);
        assert(fact(19) == 121645100408832000);
        assert(fact(20) == 2432902008176640000);
    }
}

/// Computes `n!` by accumulating the product `1 * 2 * ... * n`.
pub fn factorial(n: u64) -> (r: u64)
    requires
        n <= MAX_FACTORIAL_ARG,
    ensures
        r == fact(n as nat),
{
    proof {
        lemma_fact_fits(n as nat);
    }
    let mut result: u64 = 1;
    let mut i: u64 = 0;
    while i < n
        invariant
            i <= n,
            result == fact(i as nat),
            fact(n as nat) <= u64::MAX,
        decreases n - i,
    {
        i = i + 1;
        proof {
            lemma_fact_monotonic(i as nat, n as nat);
            assert(fact(i as nat) == i * fact((i - 1) as nat));
            assert(result * i == i * result) by (nonlinear_arith);
        }
        result = result * i;
    }
    result
}

pub proof fn lemma_double_fact_bounds(n: nat)
    ensures
        double_fact(n) >= 1,
        double_fact(n) >= n,
    decreases n,
{
    if n > 1 {
        lemma_double_fact_bounds((n - 2) as nat);
        assert(n * double_fact((n - 2) as nat) >= n) by (nonlinear_arith)
            requires
                n >= 1,
                double_fact((n - 2) as nat) >= 1,
        ;
    }
}

pub proof fn lemma_double_fact_monotonic(i: nat, j: nat)
    requires
        i <= j,
        i % 2 == j % 2,
    ensures
        double_fact(i) <= double_fact(j),
    decreases j - i,
{
    if i < j {
        lemma_double_fact_monotonic(i, (j - 2) as nat);
        lemma_double_fact_bounds((j - 2) as nat);
        assert(double_fact((j - 2) as nat) <= j * double_fact((j - 2) as nat)) by (nonlinear_arith)
            requires
                j >= 1,
        ;
    }
}

pub proof fn lemma_double_fact_fits(n: nat)
    requires
        n <= MAX_DOUBLE_FACTORIAL_ARG,
    ensures
        double_fact(n) <= u64::MAX,
{
    if n % 2 == 1 {
        lemma_double_fact_monotonic(n, 33);
        assert(double_fact(33) == 6332659870762850625) by {
            reveal_with_fuel(double_fact, 18);
        }
    } else {
        lemma_double_fact_monotonic(n, 32);
        assert(double_fact(32) == 1371195958099968000) by {
            reveal_with_fuel(double_fact, 18);
        }
    }
}

/// Computes `n!!` by multiplying `n, n - 2, n - 4, ...` while the counter is at least 1.
pub fn double_factorial(n: u64) -> (r: u64)
    requires
        n <= MAX_DOUBLE_FACTORIAL_ARG,
    ensures
        r == double_fact(n as nat),
{
    proof {
        lemma_double_fact_fits(n as nat);
    }
    let mut result: u64 = 1;
    let mut i: u64 = n;
    while i >= 1
        invariant
            result * double_fact(i as nat) == double_fact(n as nat),
            double_fact(n as nat) <= u64::MAX,
        decreases i,
    {
        proof {
            let d = double_fact(i as nat);
            lemma_double_fact_bounds(i as nat);
            assert(result * i <= result * d) by (nonlinear_arith)
                requires
                    i <= d,
            ;
            if i >= 2 {
                let e = double_fact((i - 2) as nat);
                assert(d == i * e);
                assert(result * d == (result * i) * e) by (nonlinear_arith)
                    requires
                        d == i * e,
                ;
            } else {
                assert(d == 1 && double_fact(0) == 1);
            }
        }
        result = result * i;
        i = i.saturating_sub(2);
    }
    assert(i == 0 && double_fact(i as nat) == 1);
    assert(result * double_fact(i as nat) == result) by (nonlinear_arith)
        requires
            double_fact(i as nat) == 1,
    ;
    result
}

} // verus!
