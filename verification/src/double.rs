//! Double-precision arithmetic on whole numbers.
//!
//! A double holds 53 significant binary digits. A result with more is rounded to the
//! nearest double, and to the one whose last digit is even where two are as near. That
//! does not depend on where the binary point stands, so whole numbers of some fixed
//! fraction stand for the doubles here.

use vstd::arithmetic::power2::{
    lemma2_to64, lemma2_to64_rest, lemma_pow2_pos, lemma_pow2_unfold, pow2,
};
use vstd::prelude::*;

verus! {

/// The first whole number with more digits than a double holds.
pub const FULL: u128 = 0x20000000000000;

/// How far the doubles around `n` are apart: one where every digit fits.
pub open spec fn spacing(n: nat) -> nat
    decreases n,
{
    if n < FULL {
        1
    } else {
        2 * spacing(n / 2)
    }
}

/// The double nearest to `n`.
pub open spec fn nearest(n: nat) -> nat {
    let u = spacing(n);
    let (q, rest) = (n / u, n % u);
    if 2 * rest > u || (2 * rest == u && q % 2 == 1) {
        (q + 1) * u
    } else {
        q * u
    }
}

proof fn spacing_bounds(n: nat)
    ensures
        1 <= spacing(n),
        n < FULL ==> spacing(n) == 1,
        n >= FULL ==> spacing(n) <= n,
    decreases n,
{
    if n >= FULL {
        spacing_bounds(n / 2);
    }
}

/// The double nearest to `n`.
pub fn nearest_double(n: u128) -> (r: u128)
    requires
        n < 0x8000_0000_0000_0000_0000_0000_0000_0000,
    ensures
        r == nearest(n as nat),
        r <= 2 * n,
{
    let mut u: u128 = 1;
    let mut m: u128 = n;
    while m >= FULL
        invariant
            n < 0x8000_0000_0000_0000_0000_0000_0000_0000,
            1 <= u,
            u * m <= n,
            spacing(n as nat) == u * spacing(m as nat),
        decreases m,
    {
        let half: u128 = m / 2;
        proof {
            assert(spacing(m as nat) == 2 * spacing(half as nat));
            let (a, b, c, h) = (u as int, spacing(half as nat) as int, m as int, half as int);
            assert(a * (2 * b) == (2 * a) * b) by (nonlinear_arith);
            assert(2 * h <= c);
            assert((2 * a) * h <= a * c) by (nonlinear_arith)
                requires
                    2 * h <= c,
                    a >= 1,
            ;
            assert(2 * a <= (2 * a) * h) by (nonlinear_arith)
                requires
                    h >= 1,
                    a >= 1,
            ;
        }
        u = 2 * u;
        m = half;
    }
    proof {
        spacing_bounds(m as nat);
        assert(u * 1 == u) by (nonlinear_arith);
        assert(m >= 1 ==> u <= u * m) by (nonlinear_arith)
            requires
                u >= 1,
        ;
        spacing_bounds(n as nat);
    }
    let q: u128 = n / u;
    let rest: u128 = n % u;
    proof {
        vstd::arithmetic::div_mod::lemma_fundamental_div_mod(n as int, u as int);
        assert(q * u <= n) by (nonlinear_arith)
            requires
                n == u * q + rest,
                rest >= 0,
        ;
    }
    if 2 * rest > u || (2 * rest == u && q % 2 == 1) {
        proof {
            assert((q + 1) * u == q * u + u) by (nonlinear_arith);
        }
        (q + 1) * u
    } else {
        q * u
    }
}

/// The bits of a positive double, given its significant digits as a whole number and
/// the power of two that the last of them stands for. `n` is at least one and has no
/// digit that is lost.
pub open spec fn encoded(n: nat, power: int) -> int
    decreases
        if n >= FULL {
            n as int
        } else {
            FULL - n
        },
{
    if n == 0 {
        0
    } else if n >= FULL {
        encoded(n / 2, power + 1)
    } else if n < FULL / 2 {
        encoded(2 * n, power - 1)
    } else {
        (power + 1075) * 0x10000000000000 + (n - 0x10000000000000)
    }
}

/// The bits of the double nearest to a whole number.
pub open spec fn double_of(n: nat) -> int {
    encoded(nearest(n), 0)
}

proof fn nearest_is_positive(n: nat)
    requires
        n >= 1,
    ensures
        nearest(n) >= 1,
{
    spacing_bounds(n);
    let u = spacing(n);
    let q = n / u;
    assert(q >= 1) by {
        vstd::arithmetic::div_mod::lemma_div_is_ordered(u as int, n as int, u as int);
        vstd::arithmetic::div_mod::lemma_div_by_self(u as int);
    }
    assert(q * u >= 1 && (q + 1) * u >= 1) by (nonlinear_arith)
        requires
            q >= 1,
            u >= 1,
    ;
}

/// The bits of the double nearest to a whole number.
pub fn double_bits(n: u64) -> (r: u64)
    ensures
        r == double_of(n as nat),
        r < 0x8000_0000_0000_0000,
{
    if n == 0 {
        proof {
            spacing_bounds(0);
        }
        return 0;
    }
    let rounded: u128 = nearest_double(n as u128);
    let mut m: u128 = rounded;
    let mut power: u64 = 0;
    proof {
        nearest_is_positive(n as nat);
        lemma2_to64();
    }
    while m >= FULL
        invariant
            1 <= m,
            rounded <= 0x2_0000_0000_0000_0000,
            power <= 13,
            m * pow2(power as nat) <= rounded,
            encoded(rounded as nat, 0) == encoded(m as nat, power as int),
        decreases m,
    {
        proof {
            let (h, p) = ((m / 2) as int, pow2(power as nat) as int);
            lemma_pow2_pos(power as nat);
            lemma_pow2_unfold((power + 1) as nat);
            assert(h * (2 * p) <= m * p) by (nonlinear_arith)
                requires
                    2 * h <= m,
                    p >= 1,
            ;
            assert(p * 0x20000000000000 <= m * p) by (nonlinear_arith)
                requires
                    m >= 0x20000000000000,
                    p >= 1,
            ;
            lemma2_to64();
            if power == 13 {
                assert(p == 0x2000);
            }
        }
        m = m / 2;
        power = power + 1;
    }
    let mut down: u64 = 0;
    while m < FULL / 2
        invariant
            1 <= m < FULL,
            power <= 13,
            down <= 52,
            m >= pow2(down as nat),
            encoded(rounded as nat, 0) == encoded(m as nat, power - down),
        decreases FULL - m,
    {
        proof {
            lemma_pow2_unfold((down + 1) as nat);
            lemma2_to64_rest();
            if down == 52 {
                assert(pow2(52) == 0x10000000000000);
            }
        }
        m = 2 * m;
        down = down + 1;
    }
    (power + 1075 - down) * 0x10000000000000 + (m as u64 - 0x10000000000000)
}

// ---------------------------------------------------------------------------
// What the doubles come to
// ---------------------------------------------------------------------------

proof fn spacing_is_fine(n: nat)
    ensures
        n >= FULL ==> spacing(n) * 0x10000000000000 <= n,
    decreases n,
{
    if n >= FULL {
        if n / 2 >= FULL {
            spacing_is_fine(n / 2);
        } else {
            assert(spacing(n / 2) == 1);
        }
    }
}

/// A double is as near to a number as a double can be: the number itself while it has 53
/// binary digits at most, and beyond that off by no more than one part in two to the
/// power of 53.
pub proof fn nearest_is_near(n: nat)
    ensures
        n <= 0x20000000000000 ==> nearest(n) == n,
        0x20000000000000 * (nearest(n) - n) <= n,
        0x20000000000000 * (n - nearest(n)) <= n,
{
    spacing_bounds(n);
    spacing_is_fine(n);
    let u = spacing(n) as int;
    let (q, rest) = (n as int / u, n as int % u);
    vstd::arithmetic::div_mod::lemma_fundamental_div_mod(n as int, u);
    assert(q * u == u * q && (q + 1) * u == u * q + u) by (nonlinear_arith);
    if n < FULL {
        assert(u == 1);
        assert(q * 1 == q);
    } else if n == FULL {
        reveal_with_fuel(spacing, 3);
        assert(u == 2);
    }
}

/// The bits of a double read back: its exponent and its digits give the number, times a
/// power of two where the number is large, and as a fraction of one where it is small.
pub open spec fn bits_stand_for(bits: int, n: nat) -> bool {
    let (e, digits) = (bits / 0x10000000000000, bits % 0x10000000000000 + 0x10000000000000);
    if e >= 1075 {
        digits * pow2((e - 1075) as nat) == n
    } else {
        digits == n * pow2((1075 - e) as nat)
    }
}

proof fn encoded_reads_back(n: nat, down: nat, whole: nat)
    requires
        pow2(down) <= n < FULL,
        n == whole * pow2(down),
    ensures
        bits_stand_for(encoded(n, -down), whole),
    decreases FULL - n,
{
    lemma_pow2_pos(down);
    lemma_pow2_unfold(down + 1);
    lemma2_to64();
    lemma2_to64_rest();
    if down > 52 {
        vstd::arithmetic::power2::lemma_pow2_strictly_increases(52, down);
        lemma_pow2_unfold(down);
        if down > 53 {
            vstd::arithmetic::power2::lemma_pow2_strictly_increases(53, down);
        }
        assert(pow2(53) == 0x20000000000000);
    }
    if n < FULL / 2 {
        let (w, p) = (whole as int, pow2(down) as int);
        assert(2 * n == w * (2 * p)) by (nonlinear_arith)
            requires
                n == w * p,
        ;
        encoded_reads_back(2 * n, down + 1, whole);
    } else {
        let bits = encoded(n, -down);
        let e = 1075 - down;
        assert(bits == e * 0x10000000000000 + (n - 0x10000000000000));
        assert(bits / 0x10000000000000 == e);
        assert(bits % 0x10000000000000 == n - 0x10000000000000);
        assert(n * 1 == n && whole * 1 == whole);
    }
}

/// The bits that are given for a whole number of at most 53 binary digits stand for that
/// number.
pub proof fn double_reads_back(n: nat)
    requires
        1 <= n < FULL,
    ensures
        bits_stand_for(double_of(n), n),
        double_of(0) == 0,
{
    nearest_is_near(n);
    nearest_is_near(0);
    lemma2_to64();
    assert(n * 1 == n);
    encoded_reads_back(n, 0, n);
}

} // verus!
