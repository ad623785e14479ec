//! Double-precision quantities by their encoding: their order, their value and its rounding.

use vstd::arithmetic::power2::{
    lemma2_to64, lemma2_to64_rest, lemma_pow2_pos, lemma_pow2_strictly_increases, lemma_pow2_unfold,
    pow2,
};
use vstd::prelude::*;

verus! {

/// A double-precision quantity (seconds, milliseconds, percent), kept as its IEEE 754 encoding.
#[derive(Clone, Copy, Debug, PartialEq, Eq, Structural)]
pub struct Measure {
    pub bits: u64,
}

impl Measure {
    /// Whether the sign bit is set.
    pub open spec fn is_negative(self) -> bool {
        self.bits >= 0x8000_0000_0000_0000
    }

    /// The encoding without the sign bit.
    pub open spec fn magnitude(self) -> nat {
        (self.bits % 0x8000_0000_0000_0000) as nat
    }

    /// The exponent as it is encoded.
    pub open spec fn biased(self) -> nat {
        self.magnitude() / 0x10_0000_0000_0000
    }

    /// The significand, an integer: the quantity is this times a power of two.
    pub open spec fn significand(self) -> nat {
        let f = self.magnitude() % 0x10_0000_0000_0000;
        if self.biased() == 0 {
            f
        } else {
            f + 0x10_0000_0000_0000
        }
    }

    /// The power of two by which the significand is multiplied.
    pub open spec fn exponent(self) -> int {
        if self.biased() == 0 {
            -1074
        } else {
            self.biased() - 1075
        }
    }

    /// Whether the encoding stands for no number.
    pub open spec fn is_nan(self) -> bool {
        self.biased() == 2047 && self.magnitude() % 0x10_0000_0000_0000 != 0
    }

    /// Whether the encoding stands for a number that is not less than zero.
    pub open spec fn is_amount(self) -> bool {
        self.biased() != 2047 && (!self.is_negative() || self.magnitude() == 0)
    }

    /// A number that orders two quantities as their values do. Both zeros have the same key.
    pub open spec fn key(self) -> int {
        if self.is_negative() {
            -(self.magnitude() as int)
        } else {
            self.magnitude() as int
        }
    }

    /// The magnitude of the quantity, rounded to an integer, halves away from zero.
    pub open spec fn rounded_magnitude(self) -> nat {
        if self.exponent() >= 0 {
            self.significand() * pow2(self.exponent() as nat)
        } else {
            (self.significand() + pow2((-self.exponent() - 1) as nat)) / pow2(
                (-self.exponent()) as nat,
            )
        }
    }

    /// The quantity in whole numbers, as it is shown: rounded, nothing below zero, and at most
    /// what 64 bits hold.
    pub open spec fn whole_of(self) -> int {
        if self.is_nan() || self.is_negative() {
            0
        } else if self.rounded_magnitude() > i64::MAX {
            i64::MAX as int
        } else {
            self.rounded_magnitude() as int
        }
    }

    /// Whether the encoding stands for a number that is not less than zero: minus zero is none less.
    pub fn amount(&self) -> (r: bool)
        ensures
            r == self.is_amount(),
    {
        let magnitude: u64 = self.bits % 0x8000_0000_0000_0000;
        magnitude / 0x10_0000_0000_0000 != 2047 && (self.bits < 0x8000_0000_0000_0000 || magnitude
            == 0)
    }

    /// Whether this quantity is smaller than the other. Neither may be a NaN.
    pub fn less(&self, other: &Measure) -> (r: bool)
        ensures
            r == (self.key() < other.key()),
    {
        let half: u64 = 0x8000_0000_0000_0000;
        if self.bits < half {
            other.bits < half && self.bits < other.bits
        } else if other.bits < half {
            self.bits > half || other.bits > 0
        } else {
            self.bits > other.bits
        }
    }

    /// The larger of two quantities, this one where they are equal.
    pub fn larger(&self, other: &Measure) -> (r: Measure)
        ensures
            r == if self.key() < other.key() {
                *other
            } else {
                *self
            },
            r.key() >= self.key(),
            r.key() >= other.key(),
    {
        if self.less(other) {
            *other
        } else {
            *self
        }
    }

    /// The quantity in whole numbers, as it is shown: rounded, nothing below zero, and at most
    /// what 64 bits hold.
    pub fn whole(&self) -> (r: i64)
        ensures
            r == self.whole_of(),
            0 <= r,
    {
        if self.bits >= 0x8000_0000_0000_0000 {
            return 0;
        }
        let unit: u64 = 0x10_0000_0000_0000;
        let biased: u64 = self.bits / unit;
        let fraction: u64 = self.bits % unit;
        assert(self.magnitude() == self.bits);
        if biased == 2047 && fraction != 0 {
            return 0;
        }
        let m: u64 = if biased == 0 {
            fraction
        } else {
            fraction + unit
        };
        assert(m == self.significand());
        assert(m < 0x20_0000_0000_0000);
        if biased >= 1075 {
            let k: u64 = biased - 1075;
            assert(self.exponent() == k);
            if k >= 11 {
                proof {
                    lemma_large(m as nat, k as nat);
                }
                return i64::MAX;
            }
            let p = power_of_two(k);
            assert(m * p <= i64::MAX) by (nonlinear_arith)
                requires
                    m < 0x20_0000_0000_0000,
                    p <= 1024,
            ;
            (m * p) as i64
        } else {
            let s: u64 = if biased == 0 {
                1074
            } else {
                1075 - biased
            };
            assert(self.exponent() == -(s as int));
            if s >= 54 {
                proof {
                    lemma_small(m as nat, s as nat);
                }
                return 0;
            }
            let half = power_of_two(s - 1);
            proof {
                lemma_pow2_unfold(s as nat);
            }
            let r: u64 = (m + half) / (2 * half);
            r as i64
        }
    }
}

/// A quantity whose power of two is large does not fit into 64 bits.
proof fn lemma_large(m: nat, k: nat)
    requires
        m >= 0x10_0000_0000_0000,
        k >= 11,
    ensures
        m * pow2(k) > i64::MAX,
{
    lemma2_to64();
    if k > 11 {
        lemma_pow2_strictly_increases(11, k);
    }
    assert(m * pow2(k) >= 0x10_0000_0000_0000 * 2048) by (nonlinear_arith)
        requires
            m >= 0x10_0000_0000_0000,
            pow2(k) >= 2048,
    ;
}

/// A quantity whose power of two is small rounds to zero.
proof fn lemma_small(m: nat, s: nat)
    requires
        m < 0x20_0000_0000_0000,
        s >= 54,
    ensures
        (m + pow2((s - 1) as nat)) / pow2(s) == 0,
{
    lemma2_to64_rest();
    lemma_pow2_unfold(s);
    if s > 54 {
        lemma_pow2_strictly_increases(53, (s - 1) as nat);
    }
    let half = pow2((s - 1) as nat);
    assert((m + half) / (2 * half) == 0) by (nonlinear_arith)
        requires
            m < half,
            half > 0,
    ;
}

/// Two to the power `k`.
fn power_of_two(k: u64) -> (r: u64)
    requires
        k <= 53,
    ensures
        r == pow2(k as nat),
        1 <= r <= 0x20_0000_0000_0000,
        k <= 10 ==> r <= 1024,
{
    let mut p: u64 = 1;
    let mut i: u64 = 0;
    proof {
        lemma2_to64();
        lemma2_to64_rest();
    }
    while i < k
        invariant
            i <= k <= 53,
            p == pow2(i as nat),
            p <= 0x20_0000_0000_0000,
            pow2(53) == 0x20_0000_0000_0000,
        decreases k - i,
    {
        proof {
            lemma_pow2_unfold((i + 1) as nat);
            if i + 1 < 53 {
                lemma_pow2_strictly_increases((i + 1) as nat, 53);
            }
        }
        p = 2 * p;
        i = i + 1;
    }
    proof {
        lemma_pow2_pos(k as nat);
        if k < 10 {
            lemma_pow2_strictly_increases(k as nat, 10);
        }
    }
    p
}

// ---------------------------------------------------------------------------------------------
// Integers as quantities
// ---------------------------------------------------------------------------------------------

/// How often `n` has to be doubled until it fills the significand.
pub open spec fn up_shift(n: nat) -> nat
    decreases 0x20_0000_0000_0000 - n,
{
    if n == 0 || n >= 0x10_0000_0000_0000 {
        0
    } else {
        1 + up_shift(2 * n)
    }
}

/// How often `n` has to be halved until it fits into the significand.
pub open spec fn down_shift(n: nat) -> nat
    decreases n,
{
    if n < 0x20_0000_0000_0000 {
        0
    } else {
        1 + down_shift(n / 2)
    }
}

/// `n` divided by two to the power `s`, rounded to the nearest integer, halves to the even one.
pub open spec fn halved_to_even(n: nat, s: nat) -> nat {
    let q = n / pow2(s);
    let r = n % pow2(s);
    if 2 * r > pow2(s) || (2 * r == pow2(s) && q % 2 == 1) {
        q + 1
    } else {
        q
    }
}

/// The encoding of the quantity nearest to the integer `n`.
pub open spec fn nearest_bits(n: nat) -> nat {
    if n == 0 {
        0
    } else if n < 0x20_0000_0000_0000 {
        let s = up_shift(n);
        ((1075 - s) * 0x10_0000_0000_0000 + (n * pow2(s) - 0x10_0000_0000_0000)) as nat
    } else {
        let s = down_shift(n);
        ((1075 + s) * 0x10_0000_0000_0000 + (halved_to_even(n, s) - 0x10_0000_0000_0000)) as nat
    }
}

impl Measure {
    /// The quantity nearest to the integer `n`.
    pub fn from_unsigned(n: u64) -> (r: Measure)
        ensures
            r.bits == nearest_bits(n as nat),
            !r.is_negative(),
    {
        if n == 0 {
            return Measure { bits: 0 };
        }
        proof {
            lemma2_to64();
        }
        if n < 0x20_0000_0000_0000 {
            let mut m: u64 = n;
            let mut s: u64 = 0;
            while m < 0x10_0000_0000_0000
                invariant
                    0 < n,
                    0 < m < 0x20_0000_0000_0000,
                    s <= 52,
                    m == n * pow2(s as nat),
                    up_shift(n as nat) == s + up_shift(m as nat),
                decreases 0x20_0000_0000_0000 - m,
            {
                proof {
                    lemma_pow2_unfold((s + 1) as nat);
                    assert(n * (2 * pow2(s as nat)) == 2 * (n * pow2(s as nat)))
                        by (nonlinear_arith);
                    lemma_shift_bound(n as nat, s as nat);
                }
                m = 2 * m;
                s = s + 1;
            }
            Measure { bits: (1075 - s) * 0x10_0000_0000_0000 + (m - 0x10_0000_0000_0000) }
        } else {
            let mut q: u64 = n;
            let mut p: u64 = 1;
            let mut s: u64 = 0;
            assert(n / 1 == n);
            while q >= 0x20_0000_0000_0000
                invariant
                    0x10_0000_0000_0000 <= q,
                    p == pow2(s as nat),
                    1 <= p,
                    q == n / p,
                    s <= 11,
                    p <= 2048,
                    q as int * p as int <= n,
                    down_shift(n as nat) == s + down_shift(q as nat),
                decreases q,
            {
                proof {
                    lemma_pow2_unfold((s + 1) as nat);
                    lemma_halving(n as nat, p as nat);
                    assert(p < 2048) by (nonlinear_arith)
                        requires
                            q >= 0x20_0000_0000_0000,
                            q as int * p as int <= n,
                            n <= u64::MAX,
                    ;
                    lemma_exponent_bound(s as nat, p as nat);
                }
                q = q / 2;
                p = 2 * p;
                s = s + 1;
                proof {
                    vstd::arithmetic::div_mod::lemma_fundamental_div_mod(n as int, p as int);
                    assert(q as int * p as int <= n) by (nonlinear_arith)
                        requires
                            n as int == p as int * (n as int / p as int) + (n as int % p as int),
                            q as int == n as int / p as int,
                            n as int % p as int >= 0,
                    ;
                }
            }
            let rest: u64 = n % p;
            let up: bool = 2 * rest > p || (2 * rest == p && q % 2 == 1);
            let m: u64 = if up {
                q + 1
            } else {
                q
            };
            assert(m == halved_to_even(n as nat, s as nat));
            Measure { bits: (1075 + s) * 0x10_0000_0000_0000 + (m - 0x10_0000_0000_0000) }
        }
    }
}

/// An integer that still fits below the significand has been doubled fewer than 52 times.
proof fn lemma_shift_bound(n: nat, s: nat)
    requires
        n > 0,
        n * pow2(s) < 0x10_0000_0000_0000,
    ensures
        s < 52,
{
    if s >= 52 {
        lemma2_to64_rest();
        if s > 52 {
            lemma_pow2_strictly_increases(52, s);
        }
        assert(n * pow2(s) >= 0x10_0000_0000_0000) by (nonlinear_arith)
            requires
                n > 0,
                pow2(s) >= 0x10_0000_0000_0000,
        ;
    }
}

/// Halving a quotient doubles the divisor.
proof fn lemma_halving(n: nat, p: nat)
    requires
        p > 0,
    ensures
        (n / p) / 2 == n / (2 * p),
{
    vstd::arithmetic::div_mod::lemma_div_denominator(n as int, p as int, 2);
    assert(p * 2 == 2 * p);
}

/// A small power of two has a small exponent.
proof fn lemma_exponent_bound(s: nat, p: nat)
    requires
        p == pow2(s),
        p < 2048,
    ensures
        s < 11,
        2 * p <= 2048,
{
    lemma2_to64();
    if s >= 11 {
        if s > 11 {
            lemma_pow2_strictly_increases(11, s);
        }
    } else if s < 10 {
        lemma_pow2_strictly_increases(s, 10);
    }
}

/// The quantity, in units of the smallest one there is, without its sign.
pub open spec fn in_smallest_units(a: Measure) -> nat {
    a.significand() * pow2((a.exponent() + 1074) as nat)
}

/// The key of a quantity orders as its value does.
pub proof fn keys_order_by_value(a: Measure, b: Measure)
    requires
        !a.is_negative(),
        !b.is_negative(),
    ensures
        a.key() < b.key() <==> in_smallest_units(a) < in_smallest_units(b),
{
    if a.biased() < b.biased() {
        lemma_smaller_exponent(a, b);
    } else if b.biased() < a.biased() {
        lemma_smaller_exponent(b, a);
    } else {
        let p = pow2((a.exponent() + 1074) as nat);
        lemma_pow2_pos((a.exponent() + 1074) as nat);
        let x = a.significand();
        let y = b.significand();
        assert(x < y <==> x * p < y * p) by (nonlinear_arith)
            requires
                p > 0,
        ;
    }
}

/// A smaller exponent makes a smaller quantity.
proof fn lemma_smaller_exponent(a: Measure, b: Measure)
    requires
        a.biased() < b.biased(),
    ensures
        a.magnitude() < b.magnitude(),
        in_smallest_units(a) < in_smallest_units(b),
{
    let ka = (a.exponent() + 1074) as nat;
    let kb = (b.exponent() + 1074) as nat;
    lemma_pow2_pos(ka);
    if a.biased() == 0 && b.biased() == 1 {
        assert(ka == kb);
        let p = pow2(ka);
        let x = a.significand();
        let y = b.significand();
        assert(x * p < y * p) by (nonlinear_arith)
            requires
                p > 0,
                x < y,
        ;
    } else {
        assert(ka < kb);
        lemma_pow2_unfold(kb);
        if ka < kb - 1 {
            lemma_pow2_strictly_increases(ka, (kb - 1) as nat);
        }
        let p = pow2(ka);
        let q = pow2(kb);
        let x = a.significand();
        let y = b.significand();
        assert(x * p < y * q) by (nonlinear_arith)
            requires
                p > 0,
                q >= 2 * p,
                x < 0x20_0000_0000_0000,
                y >= 0x10_0000_0000_0000,
        ;
    }
}

/// Doubled as often as is said, a number that fits fills the significand.
proof fn lemma_up_shift(n: nat)
    requires
        0 < n < 0x20_0000_0000_0000,
    ensures
        0x10_0000_0000_0000 <= n * pow2(up_shift(n)) < 0x20_0000_0000_0000,
        up_shift(n) <= 52,
    decreases 0x20_0000_0000_0000 - n,
{
    vstd::arithmetic::power2::lemma2_to64();
    if n < 0x10_0000_0000_0000 {
        lemma_up_shift(2 * n);
        let s = up_shift(2 * n);
        lemma_pow2_unfold(s + 1);
        assert(n * pow2(s + 1) == (2 * n) * pow2(s)) by (nonlinear_arith)
            requires
                pow2(s + 1) == 2 * pow2(s),
        ;
        if s == 52 {
            vstd::arithmetic::power2::lemma2_to64_rest();
            assert((2 * n) * pow2(52) >= 2 * pow2(52)) by (nonlinear_arith)
                requires
                    n >= 1,
                    pow2(52) >= 0,
            ;
        }
        assert(up_shift(n) == s + 1);
    } else {
        assert(up_shift(n) == 0);
        assert(n * pow2(0) == n) by (nonlinear_arith)
            requires
                pow2(0) == 1,
        ;
    }
}

/// An integer below two to the power fifty-three is a quantity as it is: its significand is the
/// integer, doubled as often as the exponent says, and in whole numbers it is shown as itself.
pub proof fn small_integers_are_exact(n: nat)
    requires
        0 < n < 0x20_0000_0000_0000,
    ensures
        ({
            let m = Measure { bits: nearest_bits(n) as u64 };
            &&& !m.is_negative()
            &&& m.exponent() <= 0
            &&& m.significand() == n * pow2((-m.exponent()) as nat)
            &&& m.whole_of() == n
        }),
        nearest_bits(0) == 0,
        (Measure { bits: 0 }).whole_of() == 0,
{
    lemma_up_shift(n);
    let s = up_shift(n);
    let f = (n * pow2(s) - 0x10_0000_0000_0000) as nat;
    let bits = nearest_bits(n);
    assert(bits == (1075 - s) * 0x10_0000_0000_0000 + f);
    assert(bits < 0x8000_0000_0000_0000) by (nonlinear_arith)
        requires
            bits == (1075 - s) * 0x10_0000_0000_0000 + f,
            0 <= s <= 52,
            f < 0x10_0000_0000_0000,
    ;
    let m = Measure { bits: bits as u64 };
    assert(m.magnitude() == bits);
    assert(bits / 0x10_0000_0000_0000 == 1075 - s && bits % 0x10_0000_0000_0000 == f)
        by (nonlinear_arith)
        requires
            bits == (1075 - s) * 0x10_0000_0000_0000 + f,
            0 <= s <= 52,
            f < 0x10_0000_0000_0000,
    ;
    assert(m.exponent() == -(s as int));
    let p = pow2(s);
    lemma_pow2_pos(s);
    vstd::arithmetic::power2::lemma2_to64();
    if s == 0 {
        assert(p == 1);
        assert(n * 1 == n);
        assert(m.rounded_magnitude() == m.significand() * pow2(0));
    } else {
        lemma_pow2_unfold(s);
        let half = pow2((s - 1) as nat);
        lemma_pow2_pos((s - 1) as nat);
        assert((n * p + half) / p == n) by (nonlinear_arith)
            requires
                p == 2 * half,
                half > 0,
        ;
    }
    let zero = Measure { bits: 0 };
    assert(zero.significand() == 0 && zero.exponent() == -1074);
    lemma_small(0, 1074);
}

/// A quantity is shown as the integer next to it, and as the larger one where it lies between two;
/// one below zero is shown as zero.
pub proof fn quantities_are_rounded(m: Measure)
    requires
        m.exponent() < 0,
    ensures
        ({
            let unit = pow2((-m.exponent()) as nat);
            let r = m.rounded_magnitude();
            &&& 2 * (r * unit) <= 2 * m.significand() + unit
            &&& 2 * m.significand() + unit < 2 * (r * unit) + 2 * unit
        }),
        m.is_negative() ==> m.whole_of() == 0,
        m.is_nan() ==> m.whole_of() == 0,
        !m.is_negative() && !m.is_nan() && m.rounded_magnitude() <= i64::MAX ==> m.whole_of()
            == m.rounded_magnitude(),
{
    let k = (-m.exponent()) as nat;
    lemma_pow2_unfold(k);
    lemma_pow2_pos(k);
    let unit = pow2(k);
    let half = pow2((k - 1) as nat);
    let n = m.significand() + half;
    let r = n / unit;
    vstd::arithmetic::div_mod::lemma_fundamental_div_mod(n as int, unit as int);
    vstd::arithmetic::div_mod::lemma_mod_bound(n as int, unit as int);
    assert(unit * r == r * unit) by (nonlinear_arith);
}

} // verus!
