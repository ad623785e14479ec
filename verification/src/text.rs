//! Text primitives over sequences of characters: trimming, searching, splitting, replacing and
//! decimal numbers. Every function is stated over the characters of its arguments.

use vstd::prelude::*;

verus! {

/// `String::push` appends one character to the end of the string and changes nothing else.
pub assume_specification[ String::push ](s: &mut String, c: char)
    ensures
        final(s)@ == old(s)@.push(c),
;

/// Whether two strings hold the same characters.
pub fn same(a: &str, b: &str) -> (r: bool)
    ensures
        r == (a@ == b@),
{
    a.to_owned() == b.to_owned()
}

/// The characters of `s`, one by one.
pub fn chars_of(s: &str) -> (r: Vec<char>)
    ensures
        r@ == s@,
{
    let mut out: Vec<char> = Vec::new();
    for c in it: s.chars()
        invariant
            out@ == s@.subrange(0, it.index() as int),
            it.seq() == s@,
    {
        out.push(c);
    }
    out
}

/// The string made of the characters `from..to` of `chars`.
pub fn string_of(chars: &Vec<char>, from: usize, to: usize) -> (r: String)
    requires
        from <= to <= chars.len(),
    ensures
        r@ == chars@.subrange(from as int, to as int),
{
    let mut out = String::new();
    let mut i: usize = from;
    while i < to
        invariant
            from <= i <= to <= chars.len(),
            out@ == chars@.subrange(from as int, i as int),
        decreases to - i,
    {
        out.push(chars[i]);
        i = i + 1;
    }
    out
}

/// The two strings, one behind the other.
pub fn concat(a: &str, b: &str) -> (r: String)
    ensures
        r@ == a@ + b@,
{
    let mut out = a.to_owned();
    out.append(b);
    out
}

/// The three strings, one behind the other.
pub fn concat3(a: &str, b: &str, c: &str) -> (r: String)
    ensures
        r@ == a@ + b@ + c@,
{
    let mut out = a.to_owned();
    out.append(b);
    out.append(c);
    out
}

// ---------------------------------------------------------------------------------------------
// Character classes
// ---------------------------------------------------------------------------------------------

/// The characters with the Unicode property `White_Space`.
pub open spec fn is_space(c: char) -> bool {
    let n = c as u32;
    ||| 0x9 <= n <= 0xd
    ||| n == 0x20
    ||| n == 0x85
    ||| n == 0xa0
    ||| n == 0x1680
    ||| 0x2000 <= n <= 0x200a
    ||| n == 0x2028
    ||| n == 0x2029
    ||| n == 0x202f
    ||| n == 0x205f
    ||| n == 0x3000
}

/// Whether `c` is white space.
pub fn char_is_space(c: char) -> (r: bool)
    ensures
        r == is_space(c),
{
    let n: u32 = c as u32;
    (0x9 <= n && n <= 0xd) || n == 0x20 || n == 0x85 || n == 0xa0 || n == 0x1680 || (0x2000 <= n
        && n <= 0x200a) || n == 0x2028 || n == 0x2029 || n == 0x202f || n == 0x205f || n == 0x3000
}

/// An ASCII decimal digit.
pub open spec fn is_digit(c: char) -> bool {
    '0' <= c <= '9'
}

/// An ASCII letter.
pub open spec fn is_letter(c: char) -> bool {
    'a' <= c <= 'z' || 'A' <= c <= 'Z'
}

/// Whether `c` is an ASCII decimal digit.
pub fn char_is_digit(c: char) -> (r: bool)
    ensures
        r == is_digit(c),
{
    '0' <= c && c <= '9'
}

/// Whether `c` is an ASCII letter.
pub fn char_is_letter(c: char) -> (r: bool)
    ensures
        r == is_letter(c),
{
    ('a' <= c && c <= 'z') || ('A' <= c && c <= 'Z')
}

/// `c` with an ASCII capital letter made small.
pub open spec fn lower_char(c: char) -> char {
    if 'A' <= c <= 'Z' {
        ((c as u32 + 32) as u32) as char
    } else {
        c
    }
}

/// `s` with every ASCII capital letter made small.
pub open spec fn ascii_lower(s: Seq<char>) -> Seq<char> {
    s.map_values(|c: char| lower_char(c))
}

/// `c` with an ASCII capital letter made small.
pub fn to_lower_char(c: char) -> (r: char)
    ensures
        r == lower_char(c),
{
    if 'A' <= c && c <= 'Z' {
        ((c as u8) + 32) as char
    } else {
        c
    }
}

/// `s` with every ASCII capital letter made small.
pub fn to_ascii_lower(s: &str) -> (r: String)
    ensures
        r@ == ascii_lower(s@),
{
    let mut out = String::new();
    for c in it: s.chars()
        invariant
            it.seq() == s@,
            out@ == ascii_lower(s@.subrange(0, it.index() as int)),
    {
        out.push(to_lower_char(c));
        assert(s@.subrange(0, it.index() + 1) == s@.subrange(0, it.index() as int).push(c));
    }
    assert(s@.subrange(0, s@.len() as int) == s@);
    out
}

// ---------------------------------------------------------------------------------------------
// Trimming
// ---------------------------------------------------------------------------------------------

/// `s` without the white space in front.
pub open spec fn trimmed_start(s: Seq<char>) -> Seq<char>
    decreases s.len(),
{
    if s.len() > 0 && is_space(s[0]) {
        trimmed_start(s.subrange(1, s.len() as int))
    } else {
        s
    }
}

/// `s` without the white space behind.
pub open spec fn trimmed_end(s: Seq<char>) -> Seq<char>
    decreases s.len(),
{
    if s.len() > 0 && is_space(s[s.len() - 1]) {
        trimmed_end(s.subrange(0, s.len() - 1))
    } else {
        s
    }
}

/// `s` without the white space at either end.
pub open spec fn trimmed(s: Seq<char>) -> Seq<char> {
    trimmed_end(trimmed_start(s))
}

/// Trimming the end cuts at the last character that is no white space.
pub proof fn lemma_trimmed_end(s: Seq<char>, to: int)
    requires
        0 <= to <= s.len(),
        forall|i: int| to <= i < s.len() ==> is_space(#[trigger] s[i]),
        to > 0 ==> !is_space(s[to - 1]),
    ensures
        trimmed_end(s) == s.subrange(0, to),
    decreases s.len(),
{
    if to < s.len() {
        let t = s.subrange(0, s.len() - 1);
        lemma_trimmed_end(t, to);
        assert(t.subrange(0, to) == s.subrange(0, to));
    } else {
        assert(s.subrange(0, to) == s);
    }
}

/// Trimming the start cuts at the first character that is no white space.
pub proof fn lemma_trimmed_start(s: Seq<char>, from: int)
    requires
        0 <= from <= s.len(),
        forall|i: int| 0 <= i < from ==> is_space(#[trigger] s[i]),
        from < s.len() ==> !is_space(s[from]),
    ensures
        trimmed_start(s) == s.subrange(from, s.len() as int),
    decreases s.len(),
{
    if from > 0 {
        let t = s.subrange(1, s.len() as int);
        lemma_trimmed_start(t, from - 1);
        assert(t.subrange(from - 1, t.len() as int) == s.subrange(from, s.len() as int));
    } else {
        assert(s.subrange(0, s.len() as int) == s);
    }
}

/// A trimmed text is a part of the text, and holds no white space at either end.
pub proof fn lemma_trimmed_shape(s: Seq<char>)
    ensures
        trimmed(s).len() <= s.len(),
        trimmed(s).len() > 0 ==> !is_space(trimmed(s)[0]) && !is_space(
            trimmed(s)[trimmed(s).len() - 1],
        ),
{
    lemma_start_shape(s);
    lemma_end_shape(trimmed_start(s));
}

/// A text without white space at either end is trimmed.
pub proof fn lemma_already_trimmed(s: Seq<char>)
    requires
        s.len() > 0 ==> !is_space(s[0]) && !is_space(s[s.len() - 1]),
    ensures
        trimmed(s) == s,
{
    if s.len() > 0 {
        lemma_trimmed_start(s, 0);
        assert(s.subrange(0, s.len() as int) =~= s);
        lemma_trimmed_end(s, s.len() as int);
    }
}

/// Trimming keeps every character that is no white space.
pub proof fn lemma_trimmed_keeps(s: Seq<char>, k: int)
    requires
        0 <= k < s.len(),
        !is_space(s[k]),
    ensures
        trimmed(s).contains(s[k]),
{
    lemma_start_keeps(s, k);
    let t = trimmed_start(s);
    let j = choose|j: int| 0 <= j < t.len() && t[j] == s[k];
    lemma_end_keeps(t, j);
}

proof fn lemma_start_keeps(s: Seq<char>, k: int)
    requires
        0 <= k < s.len(),
        !is_space(s[k]),
    ensures
        trimmed_start(s).contains(s[k]),
    decreases s.len(),
{
    if is_space(s[0]) {
        let t = s.subrange(1, s.len() as int);
        assert(t[k - 1] == s[k]);
        lemma_start_keeps(t, k - 1);
    }
}

proof fn lemma_end_keeps(s: Seq<char>, k: int)
    requires
        0 <= k < s.len(),
        !is_space(s[k]),
    ensures
        trimmed_end(s).contains(s[k]),
    decreases s.len(),
{
    if is_space(s[s.len() - 1]) {
        let t = s.subrange(0, s.len() - 1);
        assert(t[k] == s[k]);
        lemma_end_keeps(t, k);
    }
}

proof fn lemma_start_shape(s: Seq<char>)
    ensures
        trimmed_start(s).len() <= s.len(),
        trimmed_start(s).len() > 0 ==> !is_space(trimmed_start(s)[0]),
    decreases s.len(),
{
    if s.len() > 0 && is_space(s[0]) {
        lemma_start_shape(s.subrange(1, s.len() as int));
    }
}

proof fn lemma_end_shape(s: Seq<char>)
    ensures
        trimmed_end(s).len() <= s.len(),
        trimmed_end(s).len() > 0 ==> !is_space(trimmed_end(s)[trimmed_end(s).len() - 1]),
        trimmed_end(s).len() > 0 ==> trimmed_end(s)[0] == s[0],
        trimmed_end(s).len() == 0 && s.len() > 0 ==> is_space(s[0]),
    decreases s.len(),
{
    if s.len() > 0 && is_space(s[s.len() - 1]) {
        lemma_end_shape(s.subrange(0, s.len() - 1));
    }
}

/// Trimming twice is trimming once.
pub proof fn trim_is_idempotent(s: Seq<char>)
    ensures
        trimmed(trimmed(s)) == trimmed(s),
{
    lemma_trimmed_shape(s);
    let t = trimmed(s);
    lemma_trimmed_start(t, 0);
    assert(t.subrange(0, t.len() as int) == t);
    lemma_trimmed_end(t, t.len() as int);
}

/// `s` without the white space at either end.
pub fn trim(s: &str) -> (r: String)
    ensures
        r@ == trimmed(s@),
{
    let v = chars_of(s);
    let mut from: usize = 0;
    while from < v.len() && char_is_space(v[from])
        invariant
            from <= v.len(),
            forall|i: int| 0 <= i < from ==> is_space(#[trigger] v@[i]),
        decreases v.len() - from,
    {
        from = from + 1;
    }
    let mut to: usize = v.len();
    while to > from && char_is_space(v[to - 1])
        invariant
            from <= to <= v.len(),
            forall|i: int| to <= i < v.len() ==> is_space(#[trigger] v@[i]),
        decreases to,
    {
        to = to - 1;
    }
    proof {
        let t = v@.subrange(from as int, v.len() as int);
        lemma_trimmed_start(s@, from as int);
        lemma_trimmed_end(t, to - from);
        assert(t.subrange(0, to - from) == v@.subrange(from as int, to as int));
    }
    string_of(&v, from, to)
}

/// `s` without the white space behind.
pub fn trim_end(s: &str) -> (r: String)
    ensures
        r@ == trimmed_end(s@),
{
    let v = chars_of(s);
    let mut to: usize = v.len();
    while to > 0 && char_is_space(v[to - 1])
        invariant
            to <= v.len(),
            forall|i: int| to <= i < v.len() ==> is_space(#[trigger] v@[i]),
        decreases to,
    {
        to = to - 1;
    }
    proof {
        lemma_trimmed_end(s@, to as int);
    }
    string_of(&v, 0, to)
}

/// `s` without the white space in front.
pub fn trim_start(s: &str) -> (r: String)
    ensures
        r@ == trimmed_start(s@),
{
    let v = chars_of(s);
    let mut from: usize = 0;
    while from < v.len() && char_is_space(v[from])
        invariant
            from <= v.len(),
            forall|i: int| 0 <= i < from ==> is_space(#[trigger] v@[i]),
        decreases v.len() - from,
    {
        from = from + 1;
    }
    proof {
        lemma_trimmed_start(s@, from as int);
    }
    string_of(&v, from, v.len())
}

/// Whether nothing is left of `s` once it is trimmed.
pub fn is_blank(s: &str) -> (r: bool)
    ensures
        r == (trimmed(s@).len() == 0),
{
    trim(s).as_str().is_empty()
}

/// A text of white space alone leaves nothing.
pub proof fn lemma_blank_is_trimmed(s: Seq<char>)
    requires
        forall|i: int| 0 <= i < s.len() ==> is_space(#[trigger] s[i]),
    ensures
        trimmed(s).len() == 0,
{
    lemma_trimmed_shape(s);
    lemma_trimmed_part(s);
    if trimmed(s).len() > 0 {
        let k = choose|k: int| 0 <= k && k + trimmed(s).len() <= s.len() && #[trigger] s.subrange(
            k,
            k + trimmed(s).len(),
        ) == trimmed(s);
        assert(s.subrange(k, k + trimmed(s).len())[0] == s[k]);
    }
}

/// A trimmed text is a part of the text.
pub proof fn lemma_trimmed_part(s: Seq<char>)
    ensures
        exists|k: int|
            0 <= k && k + trimmed(s).len() <= s.len() && #[trigger] s.subrange(
                k,
                k + trimmed(s).len(),
            ) == trimmed(s),
{
    lemma_start_part(s);
    let t = trimmed_start(s);
    lemma_end_part(t);
    let k = s.len() - t.len();
    let u = trimmed(s);
    assert(s.subrange(k, k + u.len()) =~= t.subrange(0, u.len() as int));
    assert(s.subrange(k, k + u.len()) == u);
}

proof fn lemma_start_part(s: Seq<char>)
    ensures
        trimmed_start(s).len() <= s.len(),
        s.subrange(s.len() - trimmed_start(s).len(), s.len() as int) == trimmed_start(s),
        forall|i: int|
            0 <= i < s.len() - trimmed_start(s).len() ==> is_space(#[trigger] s[i]),
    decreases s.len(),
{
    if s.len() > 0 && is_space(s[0]) {
        let rest = s.subrange(1, s.len() as int);
        lemma_start_part(rest);
        let n = trimmed_start(s).len();
        assert(s.subrange(s.len() - n, s.len() as int) =~= rest.subrange(
            rest.len() - n,
            rest.len() as int,
        ));
        assert forall|i: int| 0 <= i < s.len() - n implies is_space(#[trigger] s[i]) by {
            if i > 0 {
                assert(rest[i - 1] == s[i]);
            }
        }
    } else {
        assert(s.subrange(0, s.len() as int) =~= s);
    }
}

proof fn lemma_end_part(s: Seq<char>)
    ensures
        trimmed_end(s).len() <= s.len(),
        s.subrange(0, trimmed_end(s).len() as int) == trimmed_end(s),
        forall|i: int| trimmed_end(s).len() <= i < s.len() ==> is_space(#[trigger] s[i]),
    decreases s.len(),
{
    if s.len() > 0 && is_space(s[s.len() - 1]) {
        let rest = s.subrange(0, s.len() - 1);
        lemma_end_part(rest);
        let n = trimmed_end(s).len();
        assert(s.subrange(0, n as int) =~= rest.subrange(0, n as int));
        assert forall|i: int| n <= i < s.len() implies is_space(#[trigger] s[i]) by {
            if i < s.len() - 1 {
                assert(rest[i] == s[i]);
            }
        }
    } else {
        assert(s.subrange(0, s.len() as int) =~= s);
    }
}

/// Trimming takes the white space around a text and nothing else: what stands between, beginning and
/// ending with something that is no white space, is what is left.
pub proof fn trimming_takes_the_space_around(front: Seq<char>, core: Seq<char>, back: Seq<char>)
    requires
        forall|i: int| 0 <= i < front.len() ==> is_space(#[trigger] front[i]),
        forall|i: int| 0 <= i < back.len() ==> is_space(#[trigger] back[i]),
        core.len() > 0,
        !is_space(core[0]),
        !is_space(core.last()),
    ensures
        trimmed(front + core + back) == core,
        trimmed_start(front + core + back) == core + back,
        trimmed_end(front + core + back) == front + core,
{
    let s = front + core + back;
    lemma_start_part(s);
    let n = s.len() - trimmed_start(s).len();
    assert(s[front.len() as int] == core[0]);
    lemma_start_at(s, front.len() as int);
    assert(s.subrange(front.len() as int, s.len() as int) =~= core + back);
    let t = core + back;
    lemma_end_at(t, core.len() as int);
    assert(t.subrange(0, core.len() as int) =~= core);
    lemma_end_at(s, (front.len() + core.len()) as int);
    assert(s.subrange(0, (front.len() + core.len()) as int) =~= front + core);
}

proof fn lemma_start_at(s: Seq<char>, k: int)
    requires
        0 <= k < s.len(),
        forall|i: int| 0 <= i < k ==> is_space(#[trigger] s[i]),
        !is_space(s[k]),
    ensures
        trimmed_start(s) == s.subrange(k, s.len() as int),
    decreases s.len(),
{
    if k > 0 {
        assert(is_space(s[0]));
        let rest = s.subrange(1, s.len() as int);
        assert forall|i: int| 0 <= i < k - 1 implies is_space(#[trigger] rest[i]) by {
            assert(rest[i] == s[i + 1]);
        }
        lemma_start_at(rest, k - 1);
        assert(rest.subrange(k - 1, rest.len() as int) =~= s.subrange(k, s.len() as int));
    } else {
        assert(s.subrange(0, s.len() as int) =~= s);
    }
}

proof fn lemma_end_at(s: Seq<char>, k: int)
    requires
        0 < k <= s.len(),
        forall|i: int| k <= i < s.len() ==> is_space(#[trigger] s[i]),
        !is_space(s[k - 1]),
    ensures
        trimmed_end(s) == s.subrange(0, k),
    decreases s.len(),
{
    if k < s.len() {
        assert(is_space(s[s.len() - 1]));
        let rest = s.subrange(0, s.len() - 1);
        assert forall|i: int| k <= i < rest.len() implies is_space(#[trigger] rest[i]) by {
            assert(rest[i] == s[i]);
        }
        lemma_end_at(rest, k);
        assert(rest.subrange(0, k) =~= s.subrange(0, k));
    } else {
        assert(s.subrange(0, s.len() as int) =~= s);
    }
}

/// Blanks, tabs and line ends are white space; letters, digits and punctuation are not.
pub proof fn white_space_is_blank(c: char)
    ensures
        is_space(' ') && is_space('\t') && is_space('\n') && is_space('\r'),
        '!' <= c <= '~' ==> !is_space(c),
        is_space('\u{a0}') && is_space('\u{2003}') && is_space('\u{3000}'),
        !is_space('\u{200b}'),
{
}

/// Capital letters are made small, one by one, and nothing else changes.
pub proof fn capitals_are_made_small(s: Seq<char>, c: char)
    ensures
        ascii_lower(s.push(c)) == ascii_lower(s).push(lower_char(c)),
        ascii_lower(Seq::empty()).len() == 0,
        !('A' <= c <= 'Z') ==> lower_char(c) == c,
        'A' <= c <= 'Z' ==> 'a' <= lower_char(c) <= 'z' && lower_char(c) as u32 - 'a' as u32 == c as u32
            - 'A' as u32,
{
    assert(ascii_lower(s.push(c)) =~= ascii_lower(s).push(lower_char(c)));
}

} // verus!
