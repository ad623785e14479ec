//! Decimal numbers as text, and padding.

use vstd::prelude::*;

use crate::text::{char_is_digit, chars_of, is_digit};

verus! {

/// The character of the decimal digit `d`.
pub open spec fn digit_char(d: nat) -> char {
    (('0' as u32 + d) as u32) as char
}

/// `n` in decimal, without leading zeros.
pub open spec fn decimal(n: nat) -> Seq<char>
    decreases n,
{
    if n < 10 {
        seq![digit_char(n)]
    } else {
        decimal(n / 10).push(digit_char(n % 10))
    }
}

/// `n` in decimal, with a minus sign where it is negative.
pub open spec fn signed_decimal(n: int) -> Seq<char> {
    if n < 0 {
        seq!['-'] + decimal((-n) as nat)
    } else {
        decimal(n as nat)
    }
}

/// The character of the decimal digit `d`.
fn digit(d: u64) -> (r: char)
    requires
        d < 10,
    ensures
        r == digit_char(d as nat),
{
    (48u8 + d as u8) as char
}

/// `n` in decimal, without leading zeros.
pub fn decimal_text(n: u64) -> (r: String)
    ensures
        r@ == decimal(n as nat),
    decreases n,
{
    if n < 10 {
        let mut out = String::new();
        out.push(digit(n));
        assert(out@ == seq![digit_char(n as nat)]);
        out
    } else {
        let mut out = decimal_text(n / 10);
        out.push(digit(n % 10));
        out
    }
}

/// `n` in decimal, with a minus sign where it is negative.
pub fn signed_text(n: i64) -> (r: String)
    ensures
        r@ == signed_decimal(n as int),
{
    if n < 0 {
        let mut out = String::new();
        out.push('-');
        let magnitude: u64 = if n == i64::MIN {
            0x8000_0000_0000_0000
        } else {
            (-n) as u64
        };
        out.append(decimal_text(magnitude).as_str());
        assert(out@ == seq!['-'] + decimal((-(n as int)) as nat));
        out
    } else {
        decimal_text(n as u64)
    }
}

/// `n` copies of `c`.
pub open spec fn repeated(c: char, n: nat) -> Seq<char> {
    Seq::new(n, |i: int| c)
}

/// `n` copies of `c`.
pub fn repeat(c: char, n: usize) -> (r: String)
    ensures
        r@ == repeated(c, n as nat),
{
    let mut out = String::new();
    let mut i: usize = 0;
    while i < n
        invariant
            i <= n,
            out@ == repeated(c, i as nat),
        decreases n - i,
    {
        out.push(c);
        assert(out@ == repeated(c, (i + 1) as nat));
        i = i + 1;
    }
    out
}

/// `s` filled up with `c` on the left to `width` characters.
pub open spec fn padded_left(s: Seq<char>, c: char, width: nat) -> Seq<char> {
    if s.len() >= width {
        s
    } else {
        repeated(c, (width - s.len()) as nat) + s
    }
}

/// `s` filled up with spaces on the right to `width` characters.
pub open spec fn padded_right(s: Seq<char>, width: nat) -> Seq<char> {
    if s.len() >= width {
        s
    } else {
        s + repeated(' ', (width - s.len()) as nat)
    }
}

/// `s` filled up with `c` on the left to `width` characters.
pub fn pad_left(s: &str, c: char, width: usize) -> (r: String)
    ensures
        r@ == padded_left(s@, c, width as nat),
{
    let n: usize = s.unicode_len();
    if n >= width {
        s.to_owned()
    } else {
        let mut out = repeat(c, width - n);
        out.append(s);
        out
    }
}

/// `s` filled up with spaces on the right to `width` characters.
pub fn pad_right(s: &str, width: usize) -> (r: String)
    ensures
        r@ == padded_right(s@, width as nat),
{
    let n: usize = s.unicode_len();
    if n >= width {
        s.to_owned()
    } else {
        let mut out = s.to_owned();
        out.append(repeat(' ', width - n).as_str());
        out
    }
}

/// A padded text is as wide as asked for, or as wide as it was.
pub proof fn padding_keeps_width(s: Seq<char>, c: char, width: nat)
    ensures
        padded_right(s, width).len() == if s.len() >= width {
            s.len()
        } else {
            width
        },
        padded_left(s, c, width).len() == padded_right(s, width).len(),
{
}

// ---------------------------------------------------------------------------------------------
// Reading numbers
// ---------------------------------------------------------------------------------------------

/// Whether every character of `s` is a decimal digit.
pub open spec fn all_digits(s: Seq<char>) -> bool {
    forall|i: int| 0 <= i < s.len() ==> is_digit(#[trigger] s[i])
}

/// The number that the decimal digits `s` write.
pub open spec fn digits_value(s: Seq<char>) -> nat
    decreases s.len(),
{
    if s.len() == 0 {
        0
    } else {
        (digits_value(s.drop_last()) * 10 + (s.last() as u32 - '0' as u32)) as nat
    }
}

/// The digits of an unsigned number as it is read: without the plus sign it may carry.
pub open spec fn unsigned_digits(s: Seq<char>) -> Seq<char> {
    if s.len() > 0 && s[0] == '+' {
        s.subrange(1, s.len() as int)
    } else {
        s
    }
}

/// The number that `s` writes in decimal, where it is one and at most `max`.
pub open spec fn parsed_unsigned(s: Seq<char>, max: nat) -> Option<nat> {
    let d = unsigned_digits(s);
    if d.len() > 0 && all_digits(d) && digits_value(d) <= max {
        Some(digits_value(d))
    } else {
        None
    }
}

/// A prefix of digits writes no larger a number than the whole.
proof fn lemma_value_grows(s: Seq<char>, n: int)
    requires
        all_digits(s),
        0 <= n <= s.len(),
    ensures
        digits_value(s.subrange(0, n)) <= digits_value(s),
    decreases s.len() - n,
{
    if n < s.len() {
        lemma_value_grows(s, n + 1);
        let t = s.subrange(0, n + 1);
        assert(t.drop_last() == s.subrange(0, n));
        assert(is_digit(s[n]));
        assert(t.last() == s[n]);
    } else {
        assert(s.subrange(0, n) == s);
    }
}

/// The number that `s` writes in decimal, where it is one and fits.
pub fn parse_u64(s: &str) -> (r: Option<u64>)
    ensures
        r matches Some(n) ==> parsed_unsigned(s@, u64::MAX as nat) == Some(n as nat),
        r is None ==> parsed_unsigned(s@, u64::MAX as nat) is None,
{
    let v = chars_of(s);
    let start: usize = if v.len() > 0 && v[0] == '+' {
        1
    } else {
        0
    };
    let ghost d = unsigned_digits(s@);
    assert(d == v@.subrange(start as int, v@.len() as int));
    if start == v.len() {
        return None;
    }
    let mut value: u64 = 0;
    let mut i: usize = start;
    assert(d.subrange(0, 0) == Seq::<char>::empty());
    while i < v.len()
        invariant
            start <= i <= v.len(),
            d == v@.subrange(start as int, v@.len() as int),
            d == unsigned_digits(s@),
            forall|k: int| 0 <= k < i - start ==> is_digit(#[trigger] d[k]),
            value == digits_value(d.subrange(0, i - start)),
        decreases v.len() - i,
    {
        let c = v[i];
        assert(c == d[i - start]);
        if !char_is_digit(c) {
            return None;
        }
        let add: u64 = (c as u32 - 48) as u64;
        let ghost k = i - start;
        proof {
            let t = d.subrange(0, k + 1);
            assert(t.drop_last() == d.subrange(0, k));
            assert(t.last() == c);
        }
        if value > (u64::MAX - add) / 10 {
            proof {
                if all_digits(d) {
                    lemma_value_grows(d, k + 1);
                    assert(value * 10 + add > u64::MAX) by (nonlinear_arith)
                        requires
                            value > (u64::MAX - add) / 10,
                            add <= 9,
                    ;
                }
            }
            return None;
        }
        assert(value * 10 + add <= u64::MAX) by (nonlinear_arith)
            requires
                value <= (u64::MAX - add) / 10,
                add <= 9,
        ;
        value = value * 10 + add;
        i = i + 1;
    }
    assert(d.subrange(0, d.len() as int) == d);
    Some(value)
}

/// The number that `s` writes in decimal, where it is one and at most `max`.
pub fn parse_bounded(s: &str, max: u64) -> (r: Option<u64>)
    ensures
        r matches Some(n) ==> parsed_unsigned(s@, max as nat) == Some(n as nat),
        r is None ==> parsed_unsigned(s@, max as nat) is None,
{
    match parse_u64(s) {
        Some(n) => if n <= max {
            Some(n)
        } else {
            None
        },
        None => None,
    }
}

/// The integer that `s` writes in decimal, where it is one between `min` and `max`.
pub open spec fn parsed_signed(s: Seq<char>, min: int, max: int) -> Option<int> {
    if s.len() > 0 && s[0] == '-' {
        let d = s.subrange(1, s.len() as int);
        if d.len() > 0 && all_digits(d) && -digits_value(d) >= min {
            Some(-(digits_value(d) as int))
        } else {
            None
        }
    } else {
        match parsed_unsigned(s, max as nat) {
            Some(n) => Some(n as int),
            None => None,
        }
    }
}

/// The integer that `s` writes in decimal, where it is one that fits.
pub fn parse_i32(s: &str) -> (r: Option<i32>)
    ensures
        r matches Some(n) ==> parsed_signed(s@, i32::MIN as int, i32::MAX as int) == Some(n as int),
        r is None ==> parsed_signed(s@, i32::MIN as int, i32::MAX as int) is None,
{
    if !s.is_empty() && s.get_char(0) == '-' {
        let n: usize = s.unicode_len();
        let rest = s.substring_char(1, n);
        if !rest.is_empty() && rest.get_char(0) == '+' {
            assert(rest@[0] == s@.subrange(1, s@.len() as int)[0]);
            assert(!is_digit(rest@[0]));
            return None;
        }
        assert(unsigned_digits(rest@) == rest@);
        match parse_bounded(rest, 2_147_483_648) {
            Some(v) => Some((-(v as i64)) as i32),
            None => None,
        }
    } else {
        match parse_bounded(s, 2_147_483_647) {
            Some(v) => Some(v as i32),
            None => None,
        }
    }
}

/// Reading back a number that was written in decimal gives the number.
pub proof fn decimal_reads_back(n: nat)
    ensures
        all_digits(decimal(n)),
        decimal(n).len() > 0,
        digits_value(decimal(n)) == n,
        parsed_unsigned(decimal(n), n) == Some(n),
    decreases n,
{
    if n < 10 {
        let d = decimal(n);
        assert(d.len() == 1);
        assert(d.drop_last() == Seq::<char>::empty());
        assert(d.last() == digit_char(n));
        assert(digits_value(d.drop_last()) == 0);
    } else {
        decimal_reads_back(n / 10);
        let d = decimal(n);
        assert(d.drop_last() == decimal(n / 10));
        assert(d.last() == digit_char(n % 10));
        assert(all_digits(d)) by {
            assert forall|i: int| 0 <= i < d.len() implies is_digit(#[trigger] d[i]) by {
                if i < d.len() - 1 {
                    assert(d[i] == decimal(n / 10)[i]);
                }
            }
        }
        assert(n % 10 < 10);
        assert(digit_char(n % 10) as u32 - '0' as u32 == n % 10);
        assert(digits_value(d) == digits_value(decimal(n / 10)) * 10 + n % 10);
    }
    let d = decimal(n);
    assert(is_digit(d[0]));
    assert(unsigned_digits(d) == d);
}

// ---------------------------------------------------------------------------------------------
// Numbers with a fraction
// ---------------------------------------------------------------------------------------------

/// Where the digits that begin at `i` end.
pub open spec fn digit_run(s: Seq<char>, i: int) -> int
    decreases s.len() - i,
{
    if 0 <= i < s.len() && is_digit(s[i]) {
        digit_run(s, i + 1)
    } else {
        i
    }
}

/// What stands behind a sign at `i`, where there is one.
pub open spec fn past_sign(s: Seq<char>, i: int) -> int {
    if 0 <= i < s.len() && (s[i] == '+' || s[i] == '-') {
        i + 1
    } else {
        i
    }
}

/// Where digits with a point among them end, that begin at `i`: at least one digit is needed.
pub open spec fn past_fraction(s: Seq<char>, i: int) -> Option<int> {
    let a = digit_run(s, i);
    if a < s.len() && s[a] == '.' {
        let b = digit_run(s, a + 1);
        if b - i > 1 {
            Some(b)
        } else {
            None
        }
    } else if a > i {
        Some(a)
    } else {
        None
    }
}

/// Whether a text is a number in decimal: a sign, digits with a point among them, and an exponent,
/// of which the first and the last may be missing.
pub open spec fn is_decimal(s: Seq<char>) -> bool {
    match past_fraction(s, past_sign(s, 0)) {
        Some(m) => m == s.len() || ((s[m] == 'e' || s[m] == 'E') && {
            let j = past_sign(s, m + 1);
            j < digit_run(s, j) && digit_run(s, j) == s.len()
        }),
        None => false,
    }
}

fn skip_digits(v: &Vec<char>, from: usize) -> (r: usize)
    requires
        from <= v.len(),
    ensures
        r == digit_run(v@, from as int),
        from <= r <= v.len(),
{
    let mut i: usize = from;
    while i < v.len() && char_is_digit(v[i])
        invariant
            from <= i <= v.len(),
            digit_run(v@, from as int) == digit_run(v@, i as int),
        decreases v.len() - i,
    {
        i = i + 1;
    }
    i
}

fn skip_sign(v: &Vec<char>, from: usize) -> (r: usize)
    requires
        from <= v.len(),
    ensures
        r == past_sign(v@, from as int),
        from <= r <= v.len(),
{
    if from < v.len() && (v[from] == '+' || v[from] == '-') {
        from + 1
    } else {
        from
    }
}

/// Whether a text is a number in decimal.
pub fn reads_as_decimal(s: &str) -> (r: bool)
    ensures
        r == is_decimal(s@),
{
    let v = chars_of(s);
    let start: usize = skip_sign(&v, 0);
    let a: usize = skip_digits(&v, start);
    let m: usize = if a < v.len() && v[a] == '.' {
        let b: usize = skip_digits(&v, a + 1);
        if b - start > 1 {
            b
        } else {
            return false;
        }
    } else if a > start {
        a
    } else {
        return false;
    };
    if m == v.len() {
        return true;
    }
    if v[m] == 'e' || v[m] == 'E' {
        let j: usize = skip_sign(&v, m + 1);
        let e: usize = skip_digits(&v, j);
        j < e && e == v.len()
    } else {
        false
    }
}

/// The integer that was written is read back, and it is written without a sign only where it is not
/// negative.
pub proof fn signed_numbers_read_back(n: int, min: int, max: int)
    requires
        min <= n <= max,
        0 <= max,
    ensures
        parsed_signed(signed_decimal(n), min, max) == Some(n),
        signed_decimal(n)[0] == '-' <==> n < 0,
{
    if n < 0 {
        let m = (-n) as nat;
        decimal_reads_back(m);
        let s = signed_decimal(n);
        assert(s.subrange(1, s.len() as int) =~= decimal(m));
    } else {
        decimal_reads_back(n as nat);
        assert(is_digit(decimal(n as nat)[0]));
        assert(unsigned_digits(decimal(n as nat)) == decimal(n as nat));
    }
}

/// A number between zero and ninety-nine, written with two digits, reads back.
pub proof fn two_digits_read_back(n: nat)
    requires
        n < 100,
    ensures
        ({
            let s = padded_left(decimal(n), '0', 2);
            &&& s.len() == 2
            &&& is_digit(s[0]) && is_digit(s[1])
            &&& (s[0] as u32 - '0' as u32) * 10 + (s[1] as u32 - '0' as u32) == n
        }),
{
    reveal_with_fuel(decimal, 3);
    let s = padded_left(decimal(n), '0', 2);
    if n < 10 {
        assert(s =~= seq!['0', digit_char(n)]);
    } else {
        assert(s =~= seq![digit_char(n / 10), digit_char(n % 10)]);
    }
}

/// Padding adds what it pads with on its own side, and no more than is needed.
pub proof fn padding_stays_on_its_side(s: Seq<char>, c: char, width: nat)
    ensures
        s.is_suffix_of(padded_left(s, c, width)),
        forall|i: int|
            0 <= i < padded_left(s, c, width).len() - s.len() ==> #[trigger] padded_left(
                s,
                c,
                width,
            )[i] == c,
        s.is_prefix_of(padded_right(s, width)),
        forall|i: int|
            s.len() <= i < padded_right(s, width).len() ==> #[trigger] padded_right(s, width)[i]
                == ' ',
{
    let l = padded_left(s, c, width);
    assert(l.subrange(l.len() - s.len(), l.len() as int) =~= s);
    let r = padded_right(s, width);
    assert(r.subrange(0, s.len() as int) =~= s);
}

/// A number is written with digits, a point and more of them, a sign before it, and an exponent behind;
/// an exponent has digits, and what follows the digits is a point, an exponent or nothing.
pub proof fn numbers_have_points_and_exponents(a: Seq<char>, b: Seq<char>, c: char)
    requires
        a.len() > 0,
        b.len() > 0,
        all_digits(a),
        all_digits(b),
    ensures
        is_decimal(a),
        is_decimal(a + seq!['.'] + b),
        is_decimal(seq!['.'] + b),
        is_decimal(seq!['-'] + a),
        is_decimal(a + seq!['e'] + b),
        is_decimal(a + seq!['E'] + b),
        is_decimal(a + seq!['e', '-'] + b),
        !is_decimal(Seq::empty()),
        !is_decimal(seq!['.']),
        !is_decimal(a + seq!['e']),
        !is_digit(c) && c != '.' && c != 'e' && c != 'E' ==> !is_decimal(a + seq![c] + b),
{
    let n = a.len() as int;
    let m = b.len() as int;
    assert(is_digit(a[0]) && is_digit(b[0]));
    lemma_digit_run_ends(a, 0, n);
    let p = a + seq!['.'] + b;
    assert(forall|i: int| 0 <= i < n ==> #[trigger] p[i] == a[i]);
    assert(forall|i: int| n + 1 <= i < n + 1 + m ==> #[trigger] p[i] == b[i - n - 1]);
    lemma_digit_run_ends(p, 0, n);
    lemma_digit_run_ends(p, n + 1, n + 1 + m);
    let q = seq!['.'] + b;
    assert(forall|i: int| 1 <= i < m + 1 ==> #[trigger] q[i] == b[i - 1]);
    lemma_digit_run_ends(q, 0, 0);
    lemma_digit_run_ends(q, 1, m + 1);
    let r = seq!['-'] + a;
    assert(forall|i: int| 1 <= i < n + 1 ==> #[trigger] r[i] == a[i - 1]);
    lemma_digit_run_ends(r, 1, n + 1);
    lemma_exponent(a, seq!['e'], b);
    lemma_exponent(a, seq!['E'], b);
    lemma_exponent(a, seq!['e', '-'], b);
    lemma_digit_run_ends(Seq::empty(), 0, 0);
    lemma_digit_run_ends(seq!['.'], 0, 0);
    lemma_digit_run_ends(seq!['.'], 1, 1);
    let u = a + seq!['e'];
    assert(forall|i: int| 0 <= i < n ==> #[trigger] u[i] == a[i]);
    assert(u[n] == 'e');
    lemma_digit_run_ends(u, 0, n);
    lemma_digit_run_ends(u, n + 1, n + 1);
    if !is_digit(c) && c != '.' && c != 'e' && c != 'E' {
        let v = a + seq![c] + b;
        assert(forall|i: int| 0 <= i < n ==> #[trigger] v[i] == a[i]);
        assert(v[n] == c);
        lemma_digit_run_ends(v, 0, n);
    }
}

proof fn lemma_exponent(a: Seq<char>, e: Seq<char>, b: Seq<char>)
    requires
        a.len() > 0,
        b.len() > 0,
        all_digits(a),
        all_digits(b),
        e == seq!['e'] || e == seq!['E'] || e == seq!['e', '-'],
    ensures
        is_decimal(a + e + b),
{
    let s = a + e + b;
    let n = a.len() as int;
    let k = n + e.len();
    assert(is_digit(a[0]) && is_digit(b[0]));
    assert(forall|i: int| 0 <= i < n ==> #[trigger] s[i] == a[i]);
    assert(forall|i: int| k <= i < s.len() ==> #[trigger] s[i] == b[i - k]);
    assert(s[n] == e[0]);
    assert(s[k] == b[0]);
    if e.len() == 2 {
        assert(s[n + 1] == e[1]);
    }
    lemma_digit_run_ends(s, 0, n);
    lemma_digit_run_ends(s, k, s.len() as int);
}

proof fn lemma_digit_run_ends(s: Seq<char>, i: int, j: int)
    requires
        0 <= i <= j <= s.len(),
        forall|k: int| i <= k < j ==> is_digit(#[trigger] s[k]),
        j < s.len() ==> !is_digit(s[j]),
    ensures
        digit_run(s, i) == j,
    decreases j - i,
{
    if i < j {
        lemma_digit_run_ends(s, i + 1, j);
    }
}

} // verus!
