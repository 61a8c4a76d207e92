//! Interest and rent accrual: day counting and the eight-term binomial series.
use vstd::arithmetic::div_mod::lemma_div_is_ordered;
use vstd::arithmetic::power::{lemma_pow_increases, lemma_pow_positive, pow};
use vstd::prelude::*;

use crate::error::Error;

verus! {

/// Milliseconds in one second; timestamps are counted in milliseconds.
pub const MS_PER_SECOND: u64 = 1000;

/// Seconds in one day.
pub const SECONDS_IN_DAYS: u64 = 86_400;

/// Milliseconds in one day, the period of a lease.
pub const DAY_MS: u64 = 86_400_000;

/// Days in a year times one hundred: a yearly rate in whole percent `r`
/// accrues `1 / (RATE_SCALE / r)` per day.
pub const RATE_SCALE: u64 = 36_500;

/// Number of terms of the binomial series that approximates compounding.
pub const SERIES_TERMS: u64 = 8;

// ---------------------------------------------------------------------------
// Day counting
// ---------------------------------------------------------------------------

/// Whole days in `ms` milliseconds, where the milliseconds below a whole second
/// are dropped and any started day counts as a full one.
pub open spec fn ceil_days(ms: nat) -> nat {
    let secs = ms / 1000;
    if secs % 86_400 == 0 {
        secs / 86_400
    } else {
        secs / 86_400 + 1
    }
}

/// `numerator / denominator` scaled by `10^precision`, rounded half up on the
/// next decimal digit.
pub open spec fn rounded_quotient(numerator: nat, denominator: nat, precision: nat) -> nat {
    ((numerator * pow(10, precision + 1) as nat) / denominator + 5) as nat / 10
}

/// The lease day count on `secs` elapsed seconds: the quotient by a day at three
/// decimals, truncated to whole days, plus one day where seconds remain.
pub open spec fn lease_days(secs: nat) -> nat {
    let days = rounded_quotient(secs, 86_400, 3) / 1000;
    if secs > 0 && days == 0 {
        1
    } else if secs > days * 86_400 {
        days + 1
    } else {
        days
    }
}

proof fn lemma_pow10(e: nat)
    requires
        e <= 19,
    ensures
        1 <= pow(10, e) <= 10_000_000_000_000_000_000,
    decreases e,
{
    reveal(pow);
    if e > 0 {
        lemma_pow10((e - 1) as nat);
        assert(pow(10, e) == 10 * pow(10, (e - 1) as nat));
        if e < 19 {
            lemma_pow_increases(10, e, 19);
        }
        assert(pow(10, 19) == 10_000_000_000_000_000_000) by {
            reveal_with_fuel(pow, 20);
        }
    }
}

/// The two-stage rounding of the lease day count always lands on the plain
/// ceiling of seconds over a day.
proof fn lemma_lease_days_is_ceiling(secs: nat)
    ensures
        lease_days(secs) == (if secs % 86_400 == 0 {
            secs / 86_400
        } else {
            secs / 86_400 + 1
        }),
{
    assert(pow(10, 4) == 10_000) by {
        reveal_with_fuel(pow, 5);
    }
    let t = (secs * 10_000) / 86_400;
    let r = (t + 5) / 10;
    let days = r / 1000;
    let f = secs / 86_400;
    let m = secs % 86_400;
    assert(secs == 86_400 * f + m && 0 <= m < 86_400);
    // the scaled quotient is at least the whole days
    assert(secs * 10_000 == 86_400 * (10_000 * f) + 10_000 * m) by (nonlinear_arith)
        requires
            secs == 86_400 * f + m,
    ;
    assert(t >= 10_000 * f) by (nonlinear_arith)
        requires
            t == (secs * 10_000) / 86_400,
            secs * 10_000 == 86_400 * (10_000 * f) + 10_000 * m,
            m >= 0,
            f >= 0,
    ;
    // and below the next whole day unless the division is exact
    if m == 0 {
        assert(t == 10_000 * f) by (nonlinear_arith)
            requires
                t == (secs * 10_000) / 86_400,
                secs * 10_000 == 86_400 * (10_000 * f),
        ;
        assert(days == f);
    } else {
        assert(t <= 10_000 * f + 10_000 - 1) by (nonlinear_arith)
            requires
                t == (secs * 10_000) / 86_400,
                secs * 10_000 == 86_400 * (10_000 * f) + 10_000 * m,
                0 < m < 86_400,
        ;
        assert(f <= days <= f + 1);
        assert(days == f + 1 ==> secs <= days * 86_400) by (nonlinear_arith)
            requires
                secs == 86_400 * f + m,
                m < 86_400,
        ;
        assert(days == f ==> secs > days * 86_400) by (nonlinear_arith)
            requires
                secs == 86_400 * f + m,
                0 < m,
        ;
    }
}

/// Rounded quotient: `numerator · 10^(precision+1) / denominator`, plus five,
/// over ten; that is the quotient at `precision` decimals, rounded half up.
pub fn divide(numerator: u64, denominator: u64, precision: u32) -> (r: u128)
    requires
        denominator > 0,
        precision <= 18,
    ensures
        r == rounded_quotient(numerator as nat, denominator as nat, precision as nat),
{
    let mut power: u128 = 1;
    let mut i: u32 = 0;
    proof {
        reveal(pow);
    }
    while i < precision + 1
        invariant
            i <= precision + 1,
            precision <= 18,
            power == pow(10, i as nat),
        decreases precision + 1 - i,
    {
        proof {
            lemma_pow10((i + 1) as nat);
            reveal(pow);
        }
        power = power * 10;
        i = i + 1;
    }
    proof {
        lemma_pow10((precision + 1) as nat);
        assert(numerator * power <= 0xffff_ffff_ffff_ffff * 10_000_000_000_000_000_000)
            by (nonlinear_arith)
            requires
                numerator <= 0xffff_ffff_ffff_ffff,
                power <= 10_000_000_000_000_000_000,
        ;
    }
    let scaled: u128 = numerator as u128 * power;
    (scaled / denominator as u128 + 5) / 10
}

/// Whole days between two timestamps as a lease counts them: the elapsed
/// seconds over a day, rounded half up at three decimals, truncated, and one
/// more day where seconds remain. That equals the number of started days.
/// A current time before the start is refused.
pub fn duration_in_days(current_time: u64, leased_at: u64) -> (r: Result<u64, Error>)
    ensures
        current_time < leased_at ==> r == Err::<u64, Error>(Error::ArithmeticOverflow),
        current_time >= leased_at ==> r == Ok::<u64, Error>(
            lease_days(((current_time - leased_at) / 1000) as nat) as u64,
        ),
        current_time >= leased_at ==> r == Ok::<u64, Error>(
            ceil_days((current_time - leased_at) as nat) as u64,
        ),
{
    if current_time < leased_at {
        return Err(Error::ArithmeticOverflow);
    }
    let seconds_since_leased: u64 = (current_time - leased_at) / MS_PER_SECOND;
    let quotient: u128 = divide(seconds_since_leased, SECONDS_IN_DAYS, 3);
    proof {
        lemma_lease_days_is_ceiling(seconds_since_leased as nat);
        assert(quotient / 1000 <= seconds_since_leased);
    }
    let mut days: u64 = (quotient / 1000) as u64;
    if seconds_since_leased > 0 && days == 0 {
        days = 1;
    } else if seconds_since_leased as u128 > days as u128 * SECONDS_IN_DAYS as u128 {
        days = days + 1;
    }
    Ok(days)
}

/// Whole days between two timestamps for interest: elapsed seconds over a day,
/// rounded up when a remainder is left. A current time before the start is refused.
pub fn days_elapsed(current_timestamp: u64, start: u64) -> (r: Result<u64, Error>)
    ensures
        current_timestamp < start ==> r == Err::<u64, Error>(Error::ArithmeticOverflow),
        current_timestamp >= start ==> r == Ok::<u64, Error>(
            ceil_days((current_timestamp - start) as nat) as u64,
        ),
{
    if current_timestamp < start {
        return Err(Error::ArithmeticOverflow);
    }
    let seconds: u64 = (current_timestamp - start) / MS_PER_SECOND;
    let whole: u64 = seconds / SECONDS_IN_DAYS;
    if seconds % SECONDS_IN_DAYS != 0 {
        Ok(whole + 1)
    } else {
        Ok(whole)
    }
}

// ---------------------------------------------------------------------------
// The binomial series
// ---------------------------------------------------------------------------

/// The falling factorial `d · (d − 1) ⋯ (d − k + 1)`; zero once `k > d`.
pub open spec fn falling(d: nat, k: nat) -> nat
    decreases k,
{
    if k == 0 {
        1
    } else if k > d {
        0
    } else {
        falling(d, (k - 1) as nat) * ((d - k + 1) as nat)
    }
}

pub open spec fn factorial(k: nat) -> nat
    decreases k,
{
    if k == 0 {
        1
    } else {
        k * factorial((k - 1) as nat)
    }
}

/// Term `x` of the series: `amount · C(days, x) / q^x`, truncated after the
/// division by `x!` and again after the division by `q^x`.
pub open spec fn series_term(amount: nat, q: nat, days: nat, x: nat) -> int {
    (amount * falling(days, x)) as int / (factorial(x) as int) / pow(q as int, x)
}

/// The sum of the first `k` terms.
pub open spec fn series_sum(amount: nat, q: nat, days: nat, k: nat) -> int
    decreases k,
{
    if k == 0 {
        0
    } else {
        series_sum(amount, q, days, (k - 1) as nat) + series_term(amount, q, days, (k - 1) as nat)
    }
}

/// Whether the first `k` terms are computed without leaving `u128`: each falling
/// factorial, each product with the amount, and each partial sum fits.
pub open spec fn series_fits(amount: nat, q: nat, days: nat, k: nat) -> bool
    decreases k,
{
    if k == 0 {
        true
    } else {
        &&& series_fits(amount, q, days, (k - 1) as nat)
        &&& falling(days, (k - 1) as nat) <= u128::MAX
        &&& amount * falling(days, (k - 1) as nat) <= u128::MAX
        &&& series_sum(amount, q, days, k) <= u128::MAX
    }
}

/// The day divisor of a yearly rate in whole percent.
pub open spec fn rate_divisor(rate: nat) -> nat {
    (RATE_SCALE as nat) / rate
}

/// Interest on `amount` over `days` days at a yearly `rate` in whole percent:
/// the eight-term series less the amount. This approximates
/// `amount · ((1 + 1/q)^days − 1)` with `q = 36500 / rate`.
pub open spec fn compound_interest(amount: nat, rate: nat, days: nat) -> int {
    if rate == 0 {
        0
    } else {
        series_sum(amount, rate_divisor(rate), days, SERIES_TERMS as nat) - amount
    }
}

/// Whether the interest on these inputs can be computed: a zero rate always can;
/// otherwise the rate must leave a non-zero day divisor, the series must fit, and
/// so must the multiplier update that follows the last term, `falling(days, 8)`.
pub open spec fn interest_computable(amount: nat, rate: nat, days: nat) -> bool {
    rate == 0 || (rate <= RATE_SCALE && series_fits(
        amount,
        rate_divisor(rate),
        days,
        SERIES_TERMS as nat,
    ) && falling(days, SERIES_TERMS as nat) <= u128::MAX)
}

/// What the series function returns.
pub open spec fn interest_result(amount: u128, rate: u64, days: u64) -> Result<u128, Error> {
    if interest_computable(amount as nat, rate as nat, days as nat) {
        Ok(compound_interest(amount as nat, rate as nat, days as nat) as u128)
    } else {
        Err(Error::ArithmeticOverflow)
    }
}

proof fn lemma_falling_step(d: nat, x: nat)
    requires
        x <= d,
    ensures
        falling(d, x + 1) == falling(d, x) * ((d - x) as nat),
{
    let k = x + 1;
    assert((k - 1) as nat == x);
    if x == d {
        assert(k > d);
        assert(falling(d, k) == 0);
        assert(falling(d, x) * ((d - x) as nat) == 0) by (nonlinear_arith)
            requires
                x == d,
        ;
    } else {
        assert(falling(d, k) == falling(d, (k - 1) as nat) * ((d - k + 1) as nat));
    }
}

proof fn lemma_falling_zero_beyond(d: nat, k: nat)
    requires
        k > d,
    ensures
        falling(d, k) == 0,
{
}

/// The falling factorial does not decrease with its base.
proof fn lemma_falling_monotone(d1: nat, d2: nat, k: nat)
    requires
        d1 <= d2,
    ensures
        falling(d1, k) <= falling(d2, k),
    decreases k,
{
    if k > 0 && k <= d1 {
        lemma_falling_monotone(d1, d2, (k - 1) as nat);
        let a = falling(d1, (k - 1) as nat);
        let b = falling(d2, (k - 1) as nat);
        assert(a * ((d1 - k + 1) as nat) <= b * ((d2 - k + 1) as nat)) by (nonlinear_arith)
            requires
                a <= b,
                0 <= d1 - k + 1 <= d2 - k + 1,
        ;
    }
}

proof fn lemma_factorial_bounds(k: nat)
    requires
        k <= 7,
    ensures
        1 <= factorial(k) <= 5040,
{
    assert(factorial(0) == 1);
    assert(factorial(1) == 1);
    assert(factorial(2) == 2);
    assert(factorial(3) == 6);
    assert(factorial(4) == 24);
    assert(factorial(5) == 120);
    assert(factorial(6) == 720);
    assert(factorial(7) == 5040);
}

proof fn lemma_pow_base_monotone(a: nat, b: nat, e: nat)
    requires
        a <= b,
    ensures
        0 <= pow(a as int, e) <= pow(b as int, e),
    decreases e,
{
    reveal(pow);
    if e > 0 {
        lemma_pow_base_monotone(a, b, (e - 1) as nat);
        let pa = pow(a as int, (e - 1) as nat);
        let pb = pow(b as int, (e - 1) as nat);
        assert(0 <= a * pa <= b * pb) by (nonlinear_arith)
            requires
                0 <= pa <= pb,
                a <= b,
        ;
    }
}

proof fn lemma_divisor_power_bound(q: nat, x: nat)
    requires
        1 <= q <= 36_500,
        x <= 7,
    ensures
        1 <= pow(q as int, x) <= 36_500 * 36_500 * 36_500 * 36_500 * 36_500 * 36_500 * 36_500,
{
    lemma_pow_positive(q as int, x);
    lemma_pow_base_monotone(q, 36_500, x);
    if x < 7 {
        lemma_pow_increases(36_500, x, 7);
    }
    assert(pow(36_500, 7) == 36_500 * 36_500 * 36_500 * 36_500 * 36_500 * 36_500 * 36_500) by {
        reveal_with_fuel(pow, 8);
    }
}

proof fn lemma_term_nonneg(amount: nat, q: nat, days: nat, x: nat)
    requires
        q >= 1,
    ensures
        series_term(amount, q, days, x) >= 0,
{
    lemma_pow_positive(q as int, x);
    reveal(factorial);
    assert(factorial(x) >= 1) by {
        lemma_factorial_positive(x);
    }
    let p = (amount * falling(days, x)) as int;
    let f = factorial(x) as int;
    let w = pow(q as int, x);
    assert(p / f >= 0) by (nonlinear_arith)
        requires
            p >= 0,
            f >= 1,
    ;
    assert((p / f) / w >= 0) by (nonlinear_arith)
        requires
            p / f >= 0,
            w >= 1,
    ;
}

proof fn lemma_factorial_positive(k: nat)
    ensures
        factorial(k) >= 1,
    decreases k,
{
    if k > 0 {
        lemma_factorial_positive((k - 1) as nat);
        assert(k * factorial((k - 1) as nat) >= 1) by (nonlinear_arith)
            requires
                k >= 1,
                factorial((k - 1) as nat) >= 1,
        ;
    }
}

/// Partial sums do not decrease with the number of terms.
proof fn lemma_sum_grows(amount: nat, q: nat, days: nat, j: nat, k: nat)
    requires
        q >= 1,
        j <= k,
    ensures
        series_sum(amount, q, days, j) <= series_sum(amount, q, days, k),
        series_fits(amount, q, days, k) ==> series_fits(amount, q, days, j),
    decreases k - j,
{
    if j < k {
        lemma_sum_grows(amount, q, days, j, (k - 1) as nat);
        lemma_term_nonneg(amount, q, days, (k - 1) as nat);
    }
}

/// Past `days + 1` terms every further term is zero.
proof fn lemma_tail_vanishes(amount: nat, q: nat, days: nat, j: nat, k: nat)
    requires
        q >= 1,
        days < j,
        j + 1 <= k,
    ensures
        series_sum(amount, q, days, k) == series_sum(amount, q, days, j + 1),
        series_fits(amount, q, days, j + 1) ==> series_fits(amount, q, days, k),
    decreases k - j,
{
    if k > j + 1 {
        lemma_tail_vanishes(amount, q, days, j, (k - 1) as nat);
        lemma_falling_zero_beyond(days, (k - 1) as nat);
        let f = factorial((k - 1) as nat) as int;
        let w = pow(q as int, (k - 1) as nat);
        let fz = falling(days, (k - 1) as nat);
        assert(amount * fz == 0) by (nonlinear_arith)
            requires
                fz == 0,
        ;
        lemma_factorial_positive((k - 1) as nat);
        lemma_pow_positive(q as int, (k - 1) as nat);
        assert((0int / f) / w == 0) by (nonlinear_arith)
            requires
                f >= 1,
                w >= 1,
        ;
        assert(series_term(amount, q, days, (k - 1) as nat) == 0);
    }
}

/// The first term is the amount itself.
proof fn lemma_first_term(amount: nat, q: nat, days: nat)
    ensures
        series_sum(amount, q, days, 1) == amount,
{
    assert(pow(q as int, 0) == 1) by {
        reveal(pow);
    }
    assert(falling(days, 0) == 1);
    assert(factorial(0) == 1);
    assert(series_term(amount, q, days, 0) == amount);
    assert(series_sum(amount, q, days, 0) == 0);
}

/// Interest accrued on `amount` over `days` whole days at a yearly `rate` in
/// whole percent, by the eight-term series: with `q = 36500 / rate`,
/// `s = Σ_{x<8} amount · C(days, x) / q^x`, each term truncated as it is
/// computed, and the result `s − amount`. A zero rate accrues nothing. A rate
/// above 36500 (a zero divisor) is refused, as is any overflow of `u128` in the
/// series, including the multiplier update that follows the last term.
pub fn interest_for_days(amount: u128, rate: u64, days: u64) -> (r: Result<u128, Error>)
    ensures
        r == interest_result(amount, rate, days),
{
    if rate == 0 {
        return Ok(0);
    }
    if rate > RATE_SCALE {
        return Err(Error::ArithmeticOverflow);
    }
    let q: u128 = RATE_SCALE as u128 / rate as u128;
    let d: u128 = days as u128;
    let ghost a = amount as nat;
    let ghost qn = q as nat;
    let ghost dn = days as nat;
    assert(qn == rate_divisor(rate as nat));
    assert(1 <= q <= 36_500) by (nonlinear_arith)
        requires
            q == 36_500int / (rate as int),
            1 <= rate <= 36_500,
    ;
    let mut s: u128 = 0;
    let mut n: u128 = 1;
    let mut b: u128 = 1;
    let mut qx: u128 = 1;
    let mut x: u64 = 0;
    proof {
        reveal_with_fuel(falling, 1);
        reveal_with_fuel(factorial, 1);
        reveal(pow);
    }
    while x < SERIES_TERMS
        invariant_except_break
            x <= 8,
            1 <= q <= 36_500,
            1 <= rate <= 36_500,
            qn == q as nat,
            qn == rate_divisor(rate as nat),
            dn == d as nat,
            dn == days as nat,
            a == amount as nat,
            x < 8 ==> n == falling(dn, x as nat),
            x < 8 ==> b == factorial(x as nat),
            x < 8 ==> qx == pow(qn as int, x as nat),
            x > 0 ==> x <= d + 1,
            s == series_sum(a, qn, dn, x as nat),
            series_fits(a, qn, dn, x as nat),
            x == 8 ==> falling(dn, 8) <= u128::MAX,
        ensures
            1 <= q <= 36_500,
            s == series_sum(a, qn, dn, 8),
            series_fits(a, qn, dn, 8),
            falling(dn, 8) <= u128::MAX,
        decreases 8 - x,
    {
        proof {
            lemma_factorial_bounds(x as nat);
            lemma_divisor_power_bound(qn, x as nat);
        }
        let prod: u128 = match amount.checked_mul(n) {
            Some(p) => p,
            None => {
                proof {
                    assert(!series_fits(a, qn, dn, (x + 1) as nat));
                    lemma_sum_grows(a, qn, dn, (x + 1) as nat, 8);
                    assert(!series_fits(a, qn, dn, 8));
                    assert(!interest_computable(a, rate as nat, dn));
                }
                return Err(Error::ArithmeticOverflow);
            },
        };
        let term: u128 = prod / b / qx;
        assert(term == series_term(a, qn, dn, x as nat));
        s = match s.checked_add(term) {
            Some(t) => t,
            None => {
                proof {
                    assert(!series_fits(a, qn, dn, (x + 1) as nat));
                    lemma_sum_grows(a, qn, dn, (x + 1) as nat, 8);
                    assert(!series_fits(a, qn, dn, 8));
                    assert(!interest_computable(a, rate as nat, dn));
                }
                return Err(Error::ArithmeticOverflow);
            },
        };
        assert(series_fits(a, qn, dn, (x + 1) as nat));
        if d < x as u128 {
            proof {
                lemma_tail_vanishes(a, qn, dn, x as nat, 8);
                lemma_falling_zero_beyond(dn, 8);
            }
            break;
        }
        if x + 1 < SERIES_TERMS {
            proof {
                lemma_falling_step(dn, x as nat);
                lemma_factorial_bounds((x + 1) as nat);
                lemma_divisor_power_bound(qn, (x + 1) as nat);
                reveal(pow);
                assert(factorial((x + 1) as nat) == (x + 1) * factorial(x as nat));
                assert(b * (x + 1) == (x + 1) * b) by (nonlinear_arith);
                assert(b * (x + 1) <= 5040);
                assert(pow(qn as int, (x + 1) as nat) == qn * pow(qn as int, x as nat));
                assert(qx * q == q * qx) by (nonlinear_arith);
            }
            n = match n.checked_mul(d - x as u128) {
                Some(m) => m,
                None => {
                    proof {
                        assert(!series_fits(a, qn, dn, (x + 2) as nat));
                        lemma_sum_grows(a, qn, dn, (x + 2) as nat, 8);
                    }
                    return Err(Error::ArithmeticOverflow);
                },
            };
            b = b * (x as u128 + 1);
            qx = qx * q;
        } else {
            // the multiplier is updated after the last term too, and must fit
            proof {
                lemma_falling_step(dn, x as nat);
            }
            if n.checked_mul(d - x as u128).is_none() {
                proof {
                    assert(!interest_computable(a, rate as nat, dn));
                }
                return Err(Error::ArithmeticOverflow);
            }
        }
        x = x + 1;
    }
    proof {
        lemma_first_term(a, qn, dn);
        lemma_sum_grows(a, qn, dn, 1, 8);
    }
    Ok(s - amount)
}

proof fn lemma_term_monotone_in_days(amount: nat, q: nat, d1: nat, d2: nat, x: nat)
    requires
        q >= 1,
        d1 <= d2,
    ensures
        series_term(amount, q, d1, x) <= series_term(amount, q, d2, x),
        amount * falling(d1, x) <= amount * falling(d2, x),
{
    lemma_falling_monotone(d1, d2, x);
    lemma_factorial_positive(x);
    lemma_pow_positive(q as int, x);
    let f1 = falling(d1, x);
    let f2 = falling(d2, x);
    assert(amount * f1 <= amount * f2) by (nonlinear_arith)
        requires
            f1 <= f2,
    ;
    let fx = factorial(x) as int;
    let w = pow(q as int, x);
    lemma_div_is_ordered((amount * f1) as int, (amount * f2) as int, fx);
    lemma_div_is_ordered((amount * f1) as int / fx, (amount * f2) as int / fx, w);
}

proof fn lemma_series_monotone_in_days(amount: nat, q: nat, d1: nat, d2: nat, k: nat)
    requires
        q >= 1,
        d1 <= d2,
    ensures
        series_sum(amount, q, d1, k) <= series_sum(amount, q, d2, k),
        series_fits(amount, q, d2, k) ==> series_fits(amount, q, d1, k),
    decreases k,
{
    if k > 0 {
        lemma_series_monotone_in_days(amount, q, d1, d2, (k - 1) as nat);
        lemma_term_monotone_in_days(amount, q, d1, d2, (k - 1) as nat);
        lemma_falling_monotone(d1, d2, (k - 1) as nat);
    }
}

/// Accrual depends on its inputs alone and does not decrease with the number of
/// days: where the interest over `d2` days can be computed, the interest over any
/// `d1 <= d2` days can be computed too, and it is no larger.
pub proof fn interest_monotone_in_days(amount: u128, rate: u64, d1: u64, d2: u64)
    requires
        d1 <= d2,
        interest_result(amount, rate, d2) is Ok,
    ensures
        interest_result(amount, rate, d1) is Ok,
        interest_result(amount, rate, d1)->Ok_0 <= interest_result(amount, rate, d2)->Ok_0,
{
    if rate > 0 {
        let q = rate_divisor(rate as nat);
        assert(1 <= q) by (nonlinear_arith)
            requires
                q == 36_500int / (rate as int),
                1 <= rate <= 36_500,
        ;
        lemma_series_monotone_in_days(amount as nat, q, d1 as nat, d2 as nat, 8);
        lemma_falling_monotone(d1 as nat, d2 as nat, 8);
        lemma_first_term(amount as nat, q, d1 as nat);
        lemma_sum_grows(amount as nat, q, d1 as nat, 1, 8);
    }
}

/// Interest owed on `amount` borrowed at `date_borrowed` and repaid at
/// `current_timestamp` (milliseconds), at a yearly `interest_rate` in whole
/// percent: the series over the started days in between. A current time before
/// the start is refused, as is any amount the series cannot hold.
pub fn calculate_interest(
    amount: u128,
    interest_rate: u64,
    current_timestamp: u64,
    date_borrowed: u64,
) -> (r: Result<u128, Error>)
    ensures
        current_timestamp < date_borrowed ==> r == Err::<u128, Error>(Error::ArithmeticOverflow),
        current_timestamp >= date_borrowed ==> r == interest_result(
            amount,
            interest_rate,
            ceil_days((current_timestamp - date_borrowed) as nat) as u64,
        ),
{
    let days = days_elapsed(current_timestamp, date_borrowed)?;
    interest_for_days(amount, interest_rate, days)
}

/// Simple interest for a quick estimate: `amount · rate · elapsed / denominator`,
/// truncated. A zero denominator and a product beyond `u128` are refused.
pub fn linear_interest(amount: u128, rate: u64, elapsed: u64, denominator: u128) -> (r: Result<
    u128,
    Error,
>)
    ensures
        denominator == 0 ==> r == Err::<u128, Error>(Error::ArithmeticOverflow),
        denominator > 0 && amount * rate * elapsed > u128::MAX ==> r == Err::<u128, Error>(
            Error::ArithmeticOverflow,
        ),
        denominator > 0 && amount * rate * elapsed <= u128::MAX ==> r == Ok::<u128, Error>(
            ((amount * rate * elapsed) as int / denominator as int) as u128,
        ),
{
    if denominator == 0 {
        return Err(Error::ArithmeticOverflow);
    }
    assert(rate * elapsed <= u128::MAX) by (nonlinear_arith)
        requires
            rate <= u64::MAX,
            elapsed <= u64::MAX,
    ;
    let rate_time: u128 = rate as u128 * elapsed as u128;
    let product: u128 = match amount.checked_mul(rate_time) {
        Some(v) => v,
        None => {
            proof {
                assert(amount * rate * elapsed == amount * (rate * elapsed)) by (nonlinear_arith);
            }
            return Err(Error::ArithmeticOverflow);
        },
    };
    assert(amount * rate * elapsed == amount * (rate * elapsed)) by (nonlinear_arith);
    Ok(product / denominator)
}

} // verus!
