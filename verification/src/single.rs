//! Single-precision rounding on integers.
//!
//! Some figures on the display are single-precision quotients. They are
//! computed here as exact fractions that are rounded where a single-precision
//! operation rounds: to 24 significant binary digits, ties to the even one.

use vstd::arithmetic::power2::{lemma_pow2_pos, lemma_pow2_unfold, pow2};
use vstd::prelude::*;

verus! {

/// The whole number nearest to `num / den`, the even one of two.
pub open spec fn ties_even(num: nat, den: nat) -> nat {
    let q = num / den;
    let r = num % den;
    if 2 * r < den || (2 * r == den && q % 2 == 0) {
        q
    } else {
        q + 1
    }
}

/// How often `num / den` has to be doubled to have 24 digits before the
/// binary point.
pub open spec fn doublings(num: nat, den: nat) -> nat
    decreases
        (if num < 0x80_0000 * den {
            0x80_0000 * den - num
        } else {
            0
        }),
{
    if num == 0 || num >= 0x80_0000 * den {
        0
    } else {
        1 + doublings(2 * num, den)
    }
}

/// How often `num / den` has to be halved to have no more than 24 digits
/// before the binary point.
pub open spec fn halvings(num: nat, den: nat) -> nat
    decreases
        (if num >= 0x100_0000 * den {
            num - 0x100_0000 * den + 1
        } else {
            0
        }),
{
    if den == 0 || num < 0x100_0000 * den {
        0
    } else {
        1 + halvings(num, 2 * den)
    }
}

/// The single-precision number nearest to `num / den`, as a fraction.
pub open spec fn nearest(num: nat, den: nat) -> (nat, nat) {
    let up = pow2(doublings(num, den));
    let down = pow2(halvings(num, den));
    (ties_even(num * up, den * down) * down, up)
}

/// The single-precision number nearest to the fraction `value` divided by
/// `divisor`.
pub open spec fn quotient(value: (nat, nat), divisor: nat) -> (nat, nat) {
    nearest(value.0, value.1 * divisor)
}

/// The single-precision number nearest to the fraction `value` times
/// `halves / 2`.
pub open spec fn half_product(value: (nat, nat), halves: nat) -> (nat, nat) {
    nearest(value.0 * halves, value.1 * 2)
}

/// The fraction `value` in tenths, to the nearest, the even one of two.
pub open spec fn as_tenths(value: (nat, nat)) -> nat {
    ties_even(value.0 * 10, value.1)
}

/// Rounding moves a fraction by no more than one half.
pub proof fn rounding_is_near(num: nat, den: nat)
    requires
        den > 0,
    ensures
        -(den as int) <= 2 * (ties_even(num, den) * den - num) <= den,
{
    let q = num / den;
    let r = num % den;
    vstd::arithmetic::div_mod::lemma_fundamental_div_mod(num as int, den as int);
    vstd::arithmetic::div_mod::lemma_mod_bound(num as int, den as int);
    assert(num == q * den + r) by (nonlinear_arith)
        requires
            num == den * q + r,
    ;
    assert((q + 1) * den == q * den + den) by (nonlinear_arith);
}

/// A fraction that is less than one half away from a whole number rounds to
/// it.
pub proof fn near_rounds_to(num: nat, den: nat, whole: nat)
    requires
        den > 0,
        -(den as int) < 2 * (whole * den - num) < den,
    ensures
        ties_even(num, den) == whole,
{
    rounding_is_near(num, den);
    let t = ties_even(num, den);
    assert(-1 < t - whole < 1) by (nonlinear_arith)
        requires
            den > 0,
            -(den as int) < 2 * (whole * den - num) < den,
            -(den as int) <= 2 * (t * den - num) <= den,
    ;
}

/// Whole numbers of up to 24 binary digits are kept.
pub proof fn whole_numbers_are_kept(n: nat)
    requires
        n < 0x100_0000,
    ensures
        nearest(n, 1).0 == n * nearest(n, 1).1,
        nearest(n, 1).1 > 0,
{
    let up = pow2(doublings(n, 1));
    lemma_pow2_pos(doublings(n, 1));
    vstd::arithmetic::power2::lemma2_to64();
    assert(halvings(n, 1) == 0);
    near_rounds_to(n * up, 1, n * up);
}

/// Doubling brings a fraction to 24 digits before the binary point.
pub proof fn doubled_enough(num: nat, den: nat)
    requires
        0 < num,
        0 < den,
    ensures
        num * pow2(doublings(num, den)) >= 0x80_0000 * den,
    decreases
            (if num < 0x80_0000 * den {
                0x80_0000 * den - num
            } else {
                0
            }),
{
    vstd::arithmetic::power2::lemma2_to64();
    if num < 0x80_0000 * den {
        doubled_enough(2 * num, den);
        let k = doublings(2 * num, den);
        lemma_pow2_unfold(k + 1);
        assert((2 * num) * pow2(k) == num * (2 * pow2(k))) by (nonlinear_arith);
        assert(doublings(num, den) == k + 1);
    } else {
        assert(num * pow2(0) == num) by (nonlinear_arith)
            requires
                pow2(0) == 1,
        ;
    }
}

/// `tenths` tenths of `unit`, divided by `unit` in single precision and shown
/// to one place, are shown as they were.
pub proof fn tenths_are_kept(tenths: nat, unit: nat)
    requires
        tenths < 0x80_0000,
        unit > 0,
        unit % 10 == 0,
        tenths * (unit / 10) < 0x100_0000,
    ensures
        as_tenths(quotient(nearest(tenths * (unit / 10), 1), unit)) == tenths,
{
    let m = unit / 10;
    let n = tenths * m;
    let x = nearest(n, 1);
    let u = x.1;
    whole_numbers_are_kept(n);
    let w = quotient(x, unit);
    let k = w.1;
    let den = u * unit;
    assert(den > 0) by (nonlinear_arith)
        requires
            den == u * unit,
            u > 0,
            unit > 0,
    ;
    lemma_pow2_pos(doublings(x.0, den));
    vstd::arithmetic::power2::lemma2_to64();
    if tenths == 0 {
        assert(x.0 == 0) by (nonlinear_arith)
            requires
                x.0 == n * u,
                n == tenths * m,
                tenths == 0,
        ;
        assert(halvings(0, den) == 0);
        near_rounds_to(x.0 * k, den * 1, 0);
        assert(w.0 == 0);
        near_rounds_to(w.0 * 10, k, 0);
    } else {
        assert(x.0 > 0 && x.0 < 0x100_0000 * den) by (nonlinear_arith)
            requires
                x.0 == n * u,
                n == tenths * m,
                0 < tenths < 0x80_0000,
                unit == 10 * m,
                m > 0,
                den == u * unit,
                u > 0,
        ;
        assert(halvings(x.0, den) == 0);
        doubled_enough(x.0, den);
        assert(k > 10) by (nonlinear_arith)
            requires
                x.0 * k >= 0x80_0000 * den,
                x.0 == n * u,
                n == tenths * m,
                tenths < 0x80_0000,
                unit == 10 * m,
                m > 0,
                den == u * unit,
                u > 0,
        ;
        rounding_is_near(x.0 * k, den);
        let down = pow2(halvings(x.0, den));
        assert(den * down == den) by (nonlinear_arith)
            requires
                down == 1,
        ;
        let t = ties_even(x.0 * k, den);
        assert(t * down == t) by (nonlinear_arith)
            requires
                down == 1,
        ;
        assert(w.0 == t);
        let mu = m * u;
        assert(mu > 0) by (nonlinear_arith)
            requires
                mu == m * u,
                m > 0,
                u > 0,
        ;
        assert(den == 10 * mu) by (nonlinear_arith)
            requires
                den == u * unit,
                unit == 10 * m,
                mu == m * u,
        ;
        assert(x.0 == tenths * mu) by (nonlinear_arith)
            requires
                x.0 == n * u,
                n == tenths * m,
                mu == m * u,
        ;
        assert(-5 <= t * 10 - tenths * k <= 5) by (nonlinear_arith)
            requires
                -(den as int) <= 2 * (t * den - x.0 * k) <= den,
                x.0 == tenths * mu,
                den == 10 * mu,
                mu > 0,
        ;
        near_rounds_to(w.0 * 10, k, tenths);
    }
}

/// Equal fractions round to the same number.
proof fn equal_fractions_round_alike(a: nat, b: nat, c: nat, d: nat)
    requires
        b > 0,
        d > 0,
        a * d == c * b,
    ensures
        ties_even(a, b) == ties_even(c, d),
{
    let q1 = a / b;
    let r1 = a % b;
    let q2 = c / d;
    let r2 = c % d;
    vstd::arithmetic::div_mod::lemma_fundamental_div_mod(a as int, b as int);
    vstd::arithmetic::div_mod::lemma_mod_bound(a as int, b as int);
    vstd::arithmetic::div_mod::lemma_fundamental_div_mod(c as int, d as int);
    vstd::arithmetic::div_mod::lemma_mod_bound(c as int, d as int);
    assert(q1 == q2) by (nonlinear_arith)
        requires
            a == b * q1 + r1,
            c == d * q2 + r2,
            r1 < b,
            r2 < d,
            a * d == c * b,
    ;
    assert(r1 * d == r2 * b) by (nonlinear_arith)
        requires
            a == b * q1 + r1,
            c == d * q1 + r2,
            a * d == c * b,
    ;
    assert((2 * r1 < b) == (2 * r2 < d) && (2 * r1 == b) == (2 * r2 == d)) by (nonlinear_arith)
        requires
            r1 * d == r2 * b,
            b > 0,
            d > 0,
    ;
}

/// A larger fraction rounds to no smaller number.
proof fn rounding_is_monotonic(a: nat, b: nat, c: nat, d: nat)
    requires
        b > 0,
        d > 0,
        a * d <= c * b,
    ensures
        ties_even(a, b) <= ties_even(c, d),
{
    let x = ties_even(a, b);
    let y = ties_even(c, d);
    if a * d == c * b {
        equal_fractions_round_alike(a, b, c, d);
    } else if x > y {
        rounding_is_near(a, b);
        rounding_is_near(c, d);
        assert((2 * x - 1) * b <= 2 * a) by (nonlinear_arith)
            requires
                2 * (x * b - a) <= b,
        ;
        assert((2 * y + 1) * d >= 2 * c) by (nonlinear_arith)
            requires
                -(d as int) <= 2 * (y * d - c),
        ;
        assert((2 * x - 1) * b * d <= 2 * (a * d)) by (nonlinear_arith)
            requires
                (2 * x - 1) * b <= 2 * a,
                d > 0,
        ;
        assert((2 * y + 1) * d * b >= 2 * (c * b)) by (nonlinear_arith)
            requires
                (2 * y + 1) * d >= 2 * c,
                b > 0,
        ;
        assert((2 * x - 1) * b * d >= (2 * y + 1) * d * b) by (nonlinear_arith)
            requires
                x >= y + 1,
                b > 0,
                d > 0,
        ;
    }
}

/// A larger fraction needs no more doublings.
proof fn doublings_fall(a: nat, b: nat, c: nat, d: nat)
    requires
        a > 0,
        b > 0,
        d > 0,
        a * d <= c * b,
    ensures
        doublings(c, d) <= doublings(a, b),
    decreases doublings(c, d),
{
    if c > 0 && c < 0x80_0000 * d {
        assert(a < 0x80_0000 * b) by (nonlinear_arith)
            requires
                a * d <= c * b,
                c < 0x80_0000 * d,
                b > 0,
                d > 0,
        ;
        assert((2 * a) * d <= (2 * c) * b) by (nonlinear_arith)
            requires
                a * d <= c * b,
        ;
        doublings_fall(2 * a, b, 2 * c, d);
    }
}

/// A doubled fraction has at most 24 digits before the binary point.
proof fn doubled_in_bounds(num: nat, den: nat)
    requires
        den > 0,
        num < 0x100_0000 * den,
    ensures
        num * pow2(doublings(num, den)) < 0x100_0000 * den,
    decreases doublings(num, den),
{
    vstd::arithmetic::power2::lemma2_to64();
    if num > 0 && num < 0x80_0000 * den {
        let k = doublings(2 * num, den);
        doubled_in_bounds(2 * num, den);
        lemma_pow2_unfold(k + 1);
        assert((2 * num) * pow2(k) == num * (2 * pow2(k))) by (nonlinear_arith);
        assert(doublings(num, den) == k + 1);
    } else {
        assert(num * pow2(0) == num) by (nonlinear_arith)
            requires
                pow2(0) == 1,
        ;
    }
}

/// More doublings are a larger power.
proof fn more_doublings(few: nat, many: nat)
    requires
        few < many,
    ensures
        2 * pow2(few) <= pow2(many),
{
    lemma_pow2_unfold(few + 1);
    if few + 1 < many {
        vstd::arithmetic::power2::lemma_pow2_strictly_increases(few + 1, many);
    }
}

/// Whether the fraction `x` is no larger than the fraction `y`.
pub open spec fn at_most(x: (nat, nat), y: (nat, nat)) -> bool {
    x.0 * y.1 <= y.0 * x.1
}

/// A larger fraction has no smaller single-precision number, for fractions of
/// no more than 24 digits before the binary point.
pub proof fn nearest_is_monotonic(a: nat, b: nat, c: nat, d: nat)
    requires
        b > 0,
        d > 0,
        a * d <= c * b,
        c < 0x100_0000 * d,
    ensures
        at_most(nearest(a, b), nearest(c, d)),
        nearest(a, b).1 > 0,
        nearest(c, d).1 > 0,
{
    let p = pow2(doublings(a, b));
    let q = pow2(doublings(c, d));
    lemma_pow2_pos(doublings(a, b));
    lemma_pow2_pos(doublings(c, d));
    vstd::arithmetic::power2::lemma2_to64();
    assert(a < 0x100_0000 * b) by (nonlinear_arith)
        requires
            a * d <= c * b,
            c < 0x100_0000 * d,
            b > 0,
            d > 0,
    ;
    assert(halvings(a, b) == 0 && halvings(c, d) == 0);
    let x = ties_even(a * p, b);
    let y = ties_even(c * q, d);
    assert(nearest(a, b) == (x, p) && nearest(c, d) == (y, q)) by {
        assert(b * 1 == b && d * 1 == d);
        assert(x * 1 == x && y * 1 == y);
    }
    if a == 0 {
        assert(a * p == 0) by (nonlinear_arith)
            requires
                a == 0,
        ;
        near_rounds_to(0, b, 0);
        assert(x * q <= y * p) by (nonlinear_arith)
            requires
                x == 0,
                y >= 0,
                p > 0,
        ;
    } else {
        doublings_fall(a, b, c, d);
        if doublings(a, b) == doublings(c, d) {
            assert((a * p) * d <= (c * q) * b) by (nonlinear_arith)
                requires
                    a * d <= c * b,
                    p == q,
                    p > 0,
            ;
            rounding_is_monotonic(a * p, b, c * q, d);
            assert(x * q <= y * p) by (nonlinear_arith)
                requires
                    x <= y,
                    p == q,
                    p > 0,
            ;
        } else {
            more_doublings(doublings(c, d), doublings(a, b));
            doubled_in_bounds(a, b);
            assert(c > 0) by (nonlinear_arith)
                requires
                    a > 0,
                    d > 0,
                    a * d <= c * b,
            ;
            doubled_enough(c, d);
            assert((a * p) * 1 <= 0x100_0000 * b);
            rounding_is_monotonic(a * p, b, 0x100_0000, 1);
            near_rounds_to(0x100_0000, 1, 0x100_0000);
            assert(0x80_0000 * d <= (c * q) * 1);
            rounding_is_monotonic(0x80_0000, 1, c * q, d);
            near_rounds_to(0x80_0000, 1, 0x80_0000);
            assert(x * q <= y * p) by (nonlinear_arith)
                requires
                    x <= 0x100_0000,
                    y >= 0x80_0000,
                    2 * q <= p,
                    q > 0,
            ;
        }
    }
}

/// The whole number nearest to `num / den`, the even one of two.
pub fn round_ties_even(num: u64, den: u64) -> (n: u64)
    requires
        0 < den < 0x8000_0000_0000_0000,
    ensures
        n == ties_even(num as nat, den as nat),
        num / den <= n <= num / den + 1,
{
    let q: u64 = num / den;
    let r: u64 = num % den;
    proof {
        vstd::arithmetic::div_mod::lemma_mod_bound(num as int, den as int);
        vstd::arithmetic::div_mod::lemma_div_is_ordered_by_denominator(
            num as int,
            1,
            den as int,
        );
        if den == 1 {
            assert(r == 0);
        } else if num > 0 {
            vstd::arithmetic::div_mod::lemma_div_decreases(num as int, den as int);
        }
    }
    if 2 * r < den || (2 * r == den && q % 2 == 0) {
        q
    } else {
        q + 1
    }
}

/// The single-precision number nearest to `num / den`, as a fraction.
pub fn nearest_single(num: u64, den: u64) -> (value: (u64, u64))
    requires
        0 < den <= 0x80_0000_0000,
        num <= 0xf000_0000_0000_0000,
    ensures
        (value.0 as nat, value.1 as nat) == nearest(num as nat, den as nat),
        value.1 >= 1,
        num == 0 ==> value.1 == 1,
        value.1 == 1 || num * value.1 < 0x100_0000 * den,
        value.1 > 1 ==> 0x80_0000 <= value.0 <= 0x100_0000,
        value.1 == 1 ==> den * value.0 <= num + num / 0x80_0000 + den,
{
    let ghost k: nat = 0;
    let mut n: u64 = num;
    let mut up: u64 = 1;
    proof {
        vstd::arithmetic::power2::lemma_pow2(0);
        assert(pow2(0) == 1) by {
            vstd::arithmetic::power2::lemma2_to64();
        }
    }
    while n != 0 && n / den < 0x80_0000
        invariant
            0 < den <= 0x80_0000_0000,
            n == num * up,
            up == pow2(k),
            up >= 1,
            up == 1 || n < 0x100_0000 * den,
            num <= 0xf000_0000_0000_0000,
            up == 1 || up <= n,
            num == 0 ==> up == 1,
            doublings(num as nat, den as nat) == k + doublings(n as nat, den as nat),
        decreases
                (if n < 0x80_0000 * den {
                    0x80_0000 * den - n
                } else {
                    0
                }),
    {
        proof {
            vstd::arithmetic::div_mod::lemma_fundamental_div_mod(n as int, den as int);
            vstd::arithmetic::div_mod::lemma_mod_bound(n as int, den as int);
            let q = n as int / den as int;
            assert(n < 0x80_0000 * den) by (nonlinear_arith)
                requires
                    n == den * q + n as int % den as int,
                    q + 1 <= 0x80_0000,
                    0 <= n as int % den as int,
                    (n as int % den as int) < den,
                    den > 0,
            ;
            assert(up <= n) by (nonlinear_arith)
                requires
                    n == num * up,
                    n > 0,
            ;
            lemma_pow2_unfold(k + 1);
            assert(2 * n == num * (2 * up)) by (nonlinear_arith)
                requires
                    n == num * up,
            ;
        }
        n = 2 * n;
        up = 2 * up;
        proof {
            k = k + 1;
        }
    }
    proof {
        vstd::arithmetic::div_mod::lemma_fundamental_div_mod(n as int, den as int);
        vstd::arithmetic::div_mod::lemma_mod_bound(n as int, den as int);
        let q = n as int / den as int;
        if n != 0 {
            assert(n >= 0x80_0000 * den) by (nonlinear_arith)
                requires
                    n == den * q + n as int % den as int,
                    q >= 0x80_0000,
                    0 <= n as int % den as int,
                    den > 0,
            ;
        }
        assert(doublings(n as nat, den as nat) == 0);
    }
    let mut wide: u64 = den;
    let mut down: u64 = 1;
    let ghost j: nat = 0;
    while n / wide >= 0x100_0000
        invariant
            0 < den <= 0x80_0000_0000,
            n == num * up,
            up >= 1,
            n <= 0xf000_0000_0000_0000,
            up > 1 ==> 0x80_0000 <= n / den && n < 0x100_0000 * den && down == 1,
            wide == den * down,
            wide > 0,
            down == pow2(j),
            down >= 1,
            down == 1 || (up == 1 && 0x80_0000 * wide <= n),
            halvings(num as nat, den as nat) == j + halvings(num as nat, wide as nat) || up > 1,
            wide <= 0x2000_0000_0000_0000,
        decreases n - wide,
    {
        proof {
            vstd::arithmetic::div_mod::lemma_fundamental_div_mod(n as int, wide as int);
            vstd::arithmetic::div_mod::lemma_mod_bound(n as int, wide as int);
            let q = n as int / wide as int;
            assert(n >= 0x100_0000 * wide) by (nonlinear_arith)
                requires
                    n == wide * q + n as int % wide as int,
                    q >= 0x100_0000,
                    0 <= n as int % wide as int,
                    wide > 0,
            ;
            lemma_pow2_unfold(j + 1);
            assert(2 * wide == den * (2 * down)) by (nonlinear_arith)
                requires
                    wide == den * down,
            ;
            assert(down <= wide) by (nonlinear_arith)
                requires
                    wide == den * down,
                    den > 0,
            ;
        }
        wide = 2 * wide;
        down = 2 * down;
        proof {
            j = j + 1;
        }
    }
    let m: u64 = round_ties_even(n, wide);
    proof {
        vstd::arithmetic::div_mod::lemma_fundamental_div_mod(n as int, wide as int);
        vstd::arithmetic::div_mod::lemma_mod_bound(n as int, wide as int);
        let q = n as int / wide as int;
        assert(n < 0x100_0000 * wide) by (nonlinear_arith)
            requires
                n == wide * q + n as int % wide as int,
                q + 1 <= 0x100_0000,
                (n as int % wide as int) < wide,
                wide > 0,
        ;
        assert(m <= 0x100_0000);
        if up > 1 {
            assert(m >= 0x80_0000);
            assert(m * down == m) by (nonlinear_arith)
                requires
                    down == 1,
            ;
        }
        assert(down <= wide) by (nonlinear_arith)
            requires
                wide == den * down,
                den > 0,
        ;
        assert(wide * m <= n + wide) by (nonlinear_arith)
            requires
                n == wide * q + n as int % wide as int,
                0 <= n as int % wide as int,
                m <= q + 1,
                wide > 0,
        ;
        assert(den * (m * down) == wide * m) by (nonlinear_arith)
            requires
                wide == den * down,
        ;
        assert(m * down <= den * (m * down)) by (nonlinear_arith)
            requires
                den >= 1,
                m >= 0,
                down >= 0,
        ;
        if down > 1 {
            assert(wide <= n / 0x80_0000);
        } else {
            assert(m * down == m) by (nonlinear_arith)
                requires
                    down == 1,
            ;
        }
    }
    (m * down, up)
}

/// Of two whole numbers that are equally near the even one is taken.
pub proof fn ties_go_to_the_even(num: nat, den: nat)
    requires
        den > 0,
    ensures
        2 * (ties_even(num, den) * den - num) == den || 2 * (ties_even(num, den) * den - num)
            == -(den as int) ==> ties_even(num, den) % 2 == 0,
{
    let q = num / den;
    let r = num % den;
    vstd::arithmetic::div_mod::lemma_fundamental_div_mod(num as int, den as int);
    vstd::arithmetic::div_mod::lemma_mod_bound(num as int, den as int);
    assert(num == q * den + r) by (nonlinear_arith)
        requires
            num == den * q + r,
    ;
    assert((q + 1) * den == q * den + den) by (nonlinear_arith);
}

/// A fraction of no more than 24 digits before the binary point is rounded to
/// 24 digits: to a whole number of that size over a power of two, no further
/// than half of its last digit away, the even one of two.
pub proof fn nearest_has_24_digits(num: nat, den: nat)
    requires
        0 < num < 0x100_0000 * den,
    ensures
        ({
            let v = nearest(num, den);
            &&& exists|k: nat| v.1 == #[trigger] pow2(k)
            &&& 0x80_0000 <= v.0 <= 0x100_0000
            &&& -(den as int) <= 2 * (v.0 * den - num * v.1) <= den
            &&& 2 * (v.0 * den - num * v.1) == den || 2 * (v.0 * den - num * v.1) == -(den as int)
                ==> v.0 % 2 == 0
            &&& num * v.1 >= 0x80_0000 * den
        }),
{
    let k = doublings(num, den);
    let up = pow2(k);
    vstd::arithmetic::power2::lemma2_to64();
    assert(halvings(num, den) == 0);
    doubled_enough(num, den);
    doubled_in_bounds(num, den);
    let t = ties_even(num * up, den);
    assert(nearest(num, den) == (t, up)) by {
        assert(den * 1 == den && t * 1 == t);
    }
    rounding_is_near(num * up, den);
    ties_go_to_the_even(num * up, den);
    assert(0x80_0000 <= t <= 0x100_0000) by (nonlinear_arith)
        requires
            -(den as int) <= 2 * (t * den - num * up) <= den,
            0x80_0000 * den <= num * up < 0x100_0000 * den,
            den > 0,
    ;
}

/// A longer fraction is rounded to a multiple of a power of two, 24 digits of
/// it, no further than half of that power away.
pub proof fn long_numbers_keep_24_digits(num: nat, den: nat, j: nat)
    requires
        den > 0,
        num >= 0x100_0000 * den,
        j == halvings(num, den),
    ensures
        ({
            let v = nearest(num, den);
            let m = ties_even(num, den * pow2(j));
            &&& v.1 == 1
            &&& v.0 == m * pow2(j)
            &&& 0x80_0000 <= m <= 0x100_0000
            &&& -((den * pow2(j)) as int) <= 2 * (v.0 * den - num) <= den * pow2(j)
        }),
{
    vstd::arithmetic::power2::lemma2_to64();
    assert(num >= 0x80_0000 * den);
    assert(doublings(num, den) == 0);
    lemma_pow2_pos(j);
    let wide = den * pow2(j);
    assert(wide > 0) by (nonlinear_arith)
        requires
            wide == den * pow2(j),
            den > 0,
            pow2(j) > 0,
    ;
    halved_in_bounds(num, den);
    rounding_is_near(num, wide);
    let m = ties_even(num, wide);
    assert(num * 1 == num);
    assert((m * pow2(j)) * den == m * wide) by (nonlinear_arith)
        requires
            wide == den * pow2(j),
    ;
    assert(0x80_0000 <= m <= 0x100_0000) by (nonlinear_arith)
        requires
            -(wide as int) <= 2 * (m * wide - num) <= wide,
            0x80_0000 * wide <= num < 0x100_0000 * wide,
            wide > 0,
    ;
}

/// A halved fraction has 24 digits before the binary point.
proof fn halved_in_bounds(num: nat, den: nat)
    requires
        den > 0,
        num >= 0x80_0000 * den,
    ensures
        0x80_0000 * (den * pow2(halvings(num, den))) <= num < 0x100_0000 * (den * pow2(
            halvings(num, den),
        )),
    decreases halvings(num, den),
{
    vstd::arithmetic::power2::lemma2_to64();
    if num >= 0x100_0000 * den {
        let k = halvings(num, 2 * den);
        halved_in_bounds(num, 2 * den);
        lemma_pow2_unfold(k + 1);
        assert((2 * den) * pow2(k) == den * (2 * pow2(k))) by (nonlinear_arith);
        assert(halvings(num, den) == k + 1);
    } else {
        assert(den * 1 == den);
    }
}

/// A quotient shown in tenths is the nearest number of tenths.
pub proof fn tenths_are_nearest(n: nat, unit: nat)
    requires
        n < 0x100_0000,
        unit == 10 || unit == 1000,
        unit == 10 ==> n < 0x80_0000,
    ensures
        -(unit as int) <= 2 * (as_tenths(quotient(nearest(n, 1), unit)) * unit - 10 * n) <= unit,
{
    let x = nearest(n, 1);
    let u = x.1;
    whole_numbers_are_kept(n);
    if unit == 10 || n == 0 {
        if unit == 1000 {
            tenths_are_kept(0, 1000);
        } else {
            tenths_are_kept(n, 10);
        }
        assert(n * 1 == n);
    } else {
        let den = u * unit;
        assert(0 < x.0 < 0x100_0000 * den) by (nonlinear_arith)
            requires
                x.0 == n * u,
                0 < n < 0x100_0000,
                den == u * unit,
                unit == 1000,
                u > 0,
        ;
        nearest_has_24_digits(x.0, den);
        let w = quotient(x, unit);
        let k = w.1;
        assert(-1000 <= 2 * (w.0 * 1000 - n * k) <= 1000) by (nonlinear_arith)
            requires
                -(den as int) <= 2 * (w.0 * den - x.0 * k) <= den,
                x.0 == n * u,
                den == u * 1000,
                u > 0,
        ;
        assert(k > 500) by (nonlinear_arith)
            requires
                x.0 * k >= 0x80_0000 * den,
                x.0 == n * u,
                n < 0x100_0000,
                den == u * 1000,
                u > 0,
        ;
        rounding_is_near(w.0 * 10, k);
        let t = as_tenths(w);
        assert(-51 < t * 100 - n < 51) by (nonlinear_arith)
            requires
                -(k as int) <= 2 * (t * k - w.0 * 10) <= k,
                -1000 <= 2 * (w.0 * 1000 - n * k) <= 1000,
                k > 500,
        ;
    }
}

} // verus!
