//! Searching for a pattern in a text, and cutting and joining texts.

use vstd::prelude::*;

use crate::text::{char_is_space, chars_of, string_of, is_space};

verus! {

/// Whether `pat` stands in `s` at position `i`.
pub open spec fn occurs_at(s: Seq<char>, pat: Seq<char>, i: int) -> bool {
    &&& 0 <= i
    &&& i + pat.len() <= s.len()
    &&& s.subrange(i, i + pat.len()) == pat
}

/// The first position at or behind `from` at which `pat` stands in `s`.
pub open spec fn find_from(s: Seq<char>, pat: Seq<char>, from: int) -> Option<int>
    decreases s.len() + 1 - from,
{
    if from < 0 || from + pat.len() > s.len() {
        None
    } else if occurs_at(s, pat, from) {
        Some(from)
    } else {
        find_from(s, pat, from + 1)
    }
}

/// The first position at which `pat` stands in `s`.
pub open spec fn find(s: Seq<char>, pat: Seq<char>) -> Option<int> {
    find_from(s, pat, 0)
}

/// Whether `pat` stands anywhere in `s`.
pub open spec fn contains(s: Seq<char>, pat: Seq<char>) -> bool {
    exists|i: int| #[trigger] occurs_at(s, pat, i)
}

/// What `find_from` says: it names the first occurrence, or there is none.
pub proof fn lemma_find_from(s: Seq<char>, pat: Seq<char>, from: int)
    requires
        0 <= from,
    ensures
        match find_from(s, pat, from) {
            Some(i) => from <= i && occurs_at(s, pat, i) && (forall|j: int|
                from <= j < i ==> !#[trigger] occurs_at(s, pat, j)),
            None => forall|j: int| from <= j ==> !#[trigger] occurs_at(s, pat, j),
        },
    decreases s.len() + 1 - from,
{
    if from + pat.len() > s.len() {
    } else if occurs_at(s, pat, from) {
    } else {
        lemma_find_from(s, pat, from + 1);
    }
}

/// `contains` holds exactly where `find` has a position.
pub proof fn lemma_contains_find(s: Seq<char>, pat: Seq<char>)
    ensures
        contains(s, pat) <==> find(s, pat) is Some,
{
    lemma_find_from(s, pat, 0);
}

/// Whether `pat` stands in `s` at position `i`.
pub fn stands_at(s: &Vec<char>, pat: &Vec<char>, i: usize) -> (r: bool)
    ensures
        r == occurs_at(s@, pat@, i as int),
{
    if i > s.len() || pat.len() > s.len() - i {
        return false;
    }
    let mut k: usize = 0;
    while k < pat.len()
        invariant
            i + pat.len() <= s.len(),
            k <= pat.len(),
            forall|j: int| 0 <= j < k ==> s@[i + j] == #[trigger] pat@[j],
        decreases pat.len() - k,
    {
        if s[i + k] != pat[k] {
            assert(s@.subrange(i as int, i + pat@.len())[k as int] != pat@[k as int]);
            return false;
        }
        k = k + 1;
    }
    assert(s@.subrange(i as int, i + pat@.len()) == pat@);
    true
}

/// The first position at or behind `from` at which `pat` stands in `s`.
pub fn find_chars(s: &Vec<char>, pat: &Vec<char>, from: usize) -> (r: Option<usize>)
    requires
        from <= s.len(),
    ensures
        r matches Some(i) ==> find_from(s@, pat@, from as int) == Some(i as int) && i + pat@.len()
            <= s@.len() && from <= i,
        r is None ==> find_from(s@, pat@, from as int) is None,
{
    proof {
        lemma_find_from(s@, pat@, from as int);
    }
    let mut i: usize = from;
    while i <= s.len() && pat.len() <= s.len() - i
        invariant
            from <= i <= s.len() + 1,
            find_from(s@, pat@, from as int) == find_from(s@, pat@, i as int),
        decreases s.len() + 1 - i,
    {
        if stands_at(s, pat, i) {
            return Some(i);
        }
        if i == s.len() {
            assert(find_from(s@, pat@, i + 1) is None);
            return None;
        }
        i = i + 1;
    }
    None
}

/// Whether `pat` stands anywhere in `s`.
pub fn contains_text(s: &str, pat: &str) -> (r: bool)
    ensures
        r == contains(s@, pat@),
{
    let a = chars_of(s);
    let b = chars_of(pat);
    proof {
        lemma_contains_find(s@, pat@);
    }
    find_chars(&a, &b, 0).is_some()
}

/// Whether `s` begins with `pat`.
pub fn starts_with(s: &str, pat: &str) -> (r: bool)
    ensures
        r == pat@.is_prefix_of(s@),
{
    let a = chars_of(s);
    let b = chars_of(pat);
    stands_at(&a, &b, 0)
}

/// Whether `s` ends with `pat`.
pub fn ends_with(s: &str, pat: &str) -> (r: bool)
    ensures
        r == pat@.is_suffix_of(s@),
{
    let a = chars_of(s);
    let b = chars_of(pat);
    if b.len() > a.len() {
        return false;
    }
    stands_at(&a, &b, a.len() - b.len())
}

/// What follows `pat` in `s`, where `s` begins with it.
pub fn strip_prefix(s: &str, pat: &str) -> (r: Option<String>)
    ensures
        r is Some <==> pat@.is_prefix_of(s@),
        r matches Some(t) ==> t@ == s@.subrange(pat@.len() as int, s@.len() as int),
{
    let a = chars_of(s);
    let b = chars_of(pat);
    if stands_at(&a, &b, 0) {
        Some(string_of(&a, b.len(), a.len()))
    } else {
        None
    }
}

/// The last position at which `c` stands in `s`.
pub open spec fn rfind(s: Seq<char>, c: char) -> Option<int>
    decreases s.len(),
{
    if s.len() == 0 {
        None
    } else if s[s.len() - 1] == c {
        Some(s.len() - 1)
    } else {
        rfind(s.subrange(0, s.len() - 1), c)
    }
}

/// The last position of a character stands inside the text.
pub proof fn lemma_rfind(s: Seq<char>, c: char)
    ensures
        rfind(s, c) matches Some(i) ==> 0 <= i < s.len(),
    decreases s.len(),
{
    if s.len() > 0 {
        lemma_rfind(s.subrange(0, s.len() - 1), c);
    }
}

/// The last position at which `c` stands in `s`.
pub fn rfind_char(s: &Vec<char>, c: char) -> (r: Option<usize>)
    ensures
        r matches Some(i) ==> i < s@.len() && rfind(s@, c) == Some(i as int),
        r is None ==> rfind(s@, c) is None,
{
    let mut n: usize = s.len();
    assert(s@.subrange(0, n as int) == s@);
    while n > 0
        invariant
            n <= s.len(),
            rfind(s@, c) == rfind(s@.subrange(0, n as int), c),
        decreases n,
    {
        if s[n - 1] == c {
            return Some(n - 1);
        }
        assert(s@.subrange(0, n as int).subrange(0, n - 1) == s@.subrange(0, n - 1));
        n = n - 1;
    }
    None
}

/// The parts of `s` before and behind the first `pat`, where there is one.
pub open spec fn split_once_of(s: Seq<char>, pat: Seq<char>) -> Option<(Seq<char>, Seq<char>)> {
    match find(s, pat) {
        Some(i) => Some((s.subrange(0, i), s.subrange(i + pat.len(), s.len() as int))),
        None => None,
    }
}

/// The view of an optional pair of strings.
pub open spec fn pair_view(p: Option<(String, String)>) -> Option<(Seq<char>, Seq<char>)> {
    match p {
        Some((a, b)) => Some((a@, b@)),
        None => None,
    }
}

/// The parts of `s` before and behind the first `pat`, where there is one.
pub fn split_once(s: &str, pat: &str) -> (r: Option<(String, String)>)
    ensures
        pair_view(r) == split_once_of(s@, pat@),
{
    let a = chars_of(s);
    let b = chars_of(pat);
    let n: usize = a.len();
    match find_chars(&a, &b, 0) {
        Some(i) => Some((string_of(&a, 0, i), string_of(&a, i + b.len(), n))),
        None => None,
    }
}

// ---------------------------------------------------------------------------------------------
// Replacing
// ---------------------------------------------------------------------------------------------

/// `s` from position `from` on, with every `pat` replaced by `with`, from left to right.
pub open spec fn replaced_from(s: Seq<char>, pat: Seq<char>, with: Seq<char>, from: int) -> Seq<
    char,
>
    decreases s.len() - from,
{
    if pat.len() == 0 || from < 0 || from > s.len() {
        Seq::empty()
    } else {
        match find_from(s, pat, from) {
            Some(i) => if from <= i && i + pat.len() <= s.len() {
                s.subrange(from, i) + with + replaced_from(s, pat, with, i + pat.len())
            } else {
                Seq::empty()
            },
            None => s.subrange(from, s.len() as int),
        }
    }
}

/// `s` with every `pat` replaced by `with`, from left to right and without overlap.
pub open spec fn replaced(s: Seq<char>, pat: Seq<char>, with: Seq<char>) -> Seq<char> {
    replaced_from(s, pat, with, 0)
}

/// `s` with every `pat` replaced by `with`, from left to right and without overlap.
pub fn replace(s: &str, pat: &str, with: &str) -> (r: String)
    requires
        pat@.len() > 0,
    ensures
        r@ == replaced(s@, pat@, with@),
{
    let a = chars_of(s);
    let b = chars_of(pat);
    let mut out = String::new();
    let mut from: usize = 0;
    loop
        invariant
            b@.len() > 0,
            b@ == pat@,
            a@ == s@,
            from <= a.len(),
            out@ + replaced_from(s@, pat@, with@, from as int) == replaced(s@, pat@, with@),
        decreases a.len() - from,
    {
        match find_chars(&a, &b, from) {
            Some(i) => {
                let ghost before = out@;
                let part = string_of(&a, from, i);
                out.append(part.as_str());
                out.append(with);
                proof {
                    assert(before + (s@.subrange(from as int, i as int) + with@ + replaced_from(
                        s@,
                        pat@,
                        with@,
                        i + pat@.len(),
                    )) == out@ + replaced_from(s@, pat@, with@, i + pat@.len()));
                }
                from = i + b.len();
            },
            None => {
                let part = string_of(&a, from, a.len());
                out.append(part.as_str());
                return out;
            },
        }
    }
}

// ---------------------------------------------------------------------------------------------
// Splitting and joining
// ---------------------------------------------------------------------------------------------

/// The views of a list of strings.
pub open spec fn views(v: Seq<String>) -> Seq<Seq<char>> {
    v.map_values(|s: String| s@)
}

/// The pieces of `s` from position `from` on, cut at every `pat`.
pub open spec fn split_from(s: Seq<char>, pat: Seq<char>, from: int) -> Seq<Seq<char>>
    decreases s.len() - from,
{
    if pat.len() == 0 || from < 0 || from > s.len() {
        Seq::empty()
    } else {
        match find_from(s, pat, from) {
            Some(i) => if from <= i && i + pat.len() <= s.len() {
                seq![s.subrange(from, i)] + split_from(s, pat, i + pat.len())
            } else {
                Seq::empty()
            },
            None => seq![s.subrange(from, s.len() as int)],
        }
    }
}

/// The pieces of `s`, cut at every `pat`.
pub open spec fn split_of(s: Seq<char>, pat: Seq<char>) -> Seq<Seq<char>> {
    split_from(s, pat, 0)
}

/// The pieces of `s`, cut at every `pat`.
pub fn split(s: &str, pat: &str) -> (r: Vec<String>)
    requires
        pat@.len() > 0,
    ensures
        views(r@) == split_of(s@, pat@),
{
    let a = chars_of(s);
    let b = chars_of(pat);
    let mut out: Vec<String> = Vec::new();
    let mut from: usize = 0;
    loop
        invariant
            b@.len() > 0,
            b@ == pat@,
            a@ == s@,
            from <= a.len(),
            views(out@) + split_from(s@, pat@, from as int) == split_of(s@, pat@),
        decreases a.len() - from,
    {
        match find_chars(&a, &b, from) {
            Some(i) => {
                let ghost before = out@;
                out.push(string_of(&a, from, i));
                proof {
                    let piece = s@.subrange(from as int, i as int);
                    assert(views(out@) == views(before).push(piece));
                    assert(views(before) + (seq![piece] + split_from(s@, pat@, i + pat@.len()))
                        == views(out@) + split_from(s@, pat@, i + pat@.len()));
                }
                from = i + b.len();
            },
            None => {
                let ghost before = out@;
                out.push(string_of(&a, from, a.len()));
                assert(views(out@) == views(before).push(s@.subrange(from as int, s@.len() as int)));
                assert(views(out@) == views(before) + seq![
                    s@.subrange(from as int, s@.len() as int),
                ]);
                return out;
            },
        }
    }
}

/// `line` without a carriage return at its end.
pub open spec fn without_cr(line: Seq<char>) -> Seq<char> {
    if line.len() > 0 && line[line.len() - 1] == '\r' {
        line.subrange(0, line.len() - 1)
    } else {
        line
    }
}

/// The lines of `s` from position `from` on: each ends at a line feed, which with a carriage
/// return before it is no part of the line, or at the end of the text.
pub open spec fn lines_from(s: Seq<char>, from: int) -> Seq<Seq<char>>
    decreases s.len() - from,
{
    if from < 0 || from >= s.len() {
        Seq::empty()
    } else {
        match find_from(s, seq!['\n'], from) {
            Some(i) => if from <= i < s.len() {
                seq![without_cr(s.subrange(from, i))] + lines_from(s, i + 1)
            } else {
                Seq::empty()
            },
            None => seq![s.subrange(from, s.len() as int)],
        }
    }
}

/// The lines of `s`.
pub open spec fn lines_of(s: Seq<char>) -> Seq<Seq<char>> {
    lines_from(s, 0)
}

/// Where a line ends.
pub proof fn lemma_line_end(s: Seq<char>, from: int, i: int)
    requires
        0 <= from <= i < s.len(),
        s[i] == '\n',
        forall|k: int| from <= k < i ==> s[k] != '\n',
    ensures
        find_from(s, seq!['\n'], from) == Some(i),
{
    lemma_find_from(s, seq!['\n'], from);
    assert(s.subrange(i, i + 1) =~= seq!['\n']);
    assert(occurs_at(s, seq!['\n'], i));
    let j = find_from(s, seq!['\n'], from)->0;
    assert(s.subrange(j, j + 1)[0] == s[j]);
}

/// A text without a line feed is one line.
proof fn lemma_no_line_end(s: Seq<char>, from: int)
    requires
        0 <= from,
        forall|k: int| from <= k < s.len() ==> s[k] != '\n',
    ensures
        find_from(s, seq!['\n'], from) is None,
{
    lemma_find_from(s, seq!['\n'], from);
    if let Some(j) = find_from(s, seq!['\n'], from) {
        assert(s.subrange(j, j + 1)[0] == s[j]);
    }
}

/// The position of the next line feed, or the end of the text.
spec fn line_feed(s: Seq<char>, from: int) -> int
    decreases s.len() - from,
{
    if 0 <= from < s.len() && s[from] != '\n' {
        line_feed(s, from + 1)
    } else {
        from
    }
}

proof fn lemma_line_feed(s: Seq<char>, from: int)
    requires
        0 <= from <= s.len(),
    ensures
        from <= line_feed(s, from) <= s.len(),
        forall|k: int| from <= k < line_feed(s, from) ==> s[k] != '\n',
        line_feed(s, from) < s.len() ==> s[line_feed(s, from)] == '\n',
    decreases s.len() - from,
{
    if from < s.len() && s[from] != '\n' {
        lemma_line_feed(s, from + 1);
    }
}

/// The lines behind a text are those of what follows it.
proof fn lemma_lines_shift(a: Seq<char>, b: Seq<char>, from: int)
    requires
        0 <= from <= b.len(),
    ensures
        lines_from(a + b, a.len() + from) == lines_from(b, from),
    decreases b.len() - from,
{
    let all = a + b;
    let n = a.len() as int;
    if from < b.len() {
        let i = line_feed(b, from);
        lemma_line_feed(b, from);
        assert(all.subrange(n + from, all.len() as int) =~= b.subrange(from, b.len() as int));
        if i < b.len() {
            lemma_line_end(b, from, i);
            assert forall|k: int| n + from <= k < n + i implies all[k] != '\n' by {
                assert(all[k] == b[k - n]);
            }
            lemma_line_end(all, n + from, n + i);
            assert(all.subrange(n + from, n + i) =~= b.subrange(from, i));
            lemma_lines_shift(a, b, i + 1);
        } else {
            lemma_no_line_end(b, from);
            assert forall|k: int| n + from <= k < all.len() implies all[k] != '\n' by {
                assert(all[k] == b[k - n]);
            }
            lemma_no_line_end(all, n + from);
        }
    }
}

/// A text that ends with a line feed, and what follows it, have their own lines.
pub proof fn lemma_lines_append(a: Seq<char>, b: Seq<char>)
    requires
        a.len() > 0 ==> a.last() == '\n',
    ensures
        lines_of(a + b) == lines_of(a) + lines_of(b),
{
    if a.len() > 0 {
        lemma_lines_append_from(a, b, 0);
    } else {
        assert(a + b =~= b);
        assert(lines_of(a) + lines_of(b) =~= lines_of(b));
    }
}

proof fn lemma_lines_append_from(a: Seq<char>, b: Seq<char>, from: int)
    requires
        a.len() > 0,
        a.last() == '\n',
        0 <= from <= a.len(),
    ensures
        lines_from(a + b, from) == lines_from(a, from) + lines_of(b),
    decreases a.len() - from,
{
    let all = a + b;
    if from < a.len() {
        let i = line_feed(a, from);
        lemma_line_feed(a, from);
        assert(a[a.len() - 1] == '\n');
        lemma_line_end(a, from, i);
        assert forall|k: int| from <= k < i implies all[k] != '\n' by {
            assert(all[k] == a[k]);
        }
        lemma_line_end(all, from, i);
        assert(all.subrange(from, i) =~= a.subrange(from, i));
        lemma_lines_append_from(a, b, i + 1);
        assert(lines_from(all, from) =~= lines_from(a, from) + lines_of(b));
    } else {
        lemma_lines_shift(a, b, 0);
        assert(lines_from(all, from) =~= lines_from(a, from) + lines_of(b));
    }
}

/// A text without a line feed is one line, or none where it is empty.
pub proof fn lemma_single_line(s: Seq<char>)
    requires
        !s.contains('\n'),
    ensures
        lines_of(s) == if s.len() == 0 {
            Seq::<Seq<char>>::empty()
        } else {
            seq![s]
        },
{
    assert forall|k: int| 0 <= k < s.len() implies s[k] != '\n' by {
        assert(s.contains(s[k]));
    }
    lemma_no_line_end(s, 0);
    assert(s.subrange(0, s.len() as int) =~= s);
}

/// The lines of `s`.
pub fn lines(s: &str) -> (r: Vec<String>)
    ensures
        views(r@) == lines_of(s@),
{
    let a = chars_of(s);
    let mut nl: Vec<char> = Vec::new();
    nl.push('\n');
    assert(nl@ == seq!['\n']);
    let mut out: Vec<String> = Vec::new();
    let mut from: usize = 0;
    assert(views(out@) + lines_from(s@, 0) == lines_of(s@));
    while from < a.len()
        invariant
            nl@ == seq!['\n'],
            a@ == s@,
            from <= a.len(),
            views(out@) + lines_from(s@, from as int) == lines_of(s@),
        decreases a.len() - from,
    {
        match find_chars(&a, &nl, from) {
            Some(i) => {
                let ghost before = out@;
                let end: usize = if i > from && a[i - 1] == '\r' {
                    i - 1
                } else {
                    i
                };
                out.push(string_of(&a, from, end));
                proof {
                    let piece = without_cr(s@.subrange(from as int, i as int));
                    assert(piece == s@.subrange(from as int, end as int));
                    assert(views(out@) == views(before).push(piece));
                    assert(views(before) + (seq![piece] + lines_from(s@, i + 1)) == views(out@)
                        + lines_from(s@, i + 1));
                }
                from = i + 1;
            },
            None => {
                let ghost before = out@;
                out.push(string_of(&a, from, a.len()));
                assert(views(out@) == views(before).push(s@.subrange(from as int, s@.len() as int)));
                assert(views(out@) == views(before) + seq![
                    s@.subrange(from as int, s@.len() as int),
                ]);
                return out;
            },
        }
    }
    assert(views(out@) == lines_of(s@));
    out
}

/// The first position at or behind `i` whose character is white space (`space`) or is not.
pub open spec fn run_end(s: Seq<char>, i: int, space: bool) -> int
    decreases s.len() - i,
{
    if 0 <= i < s.len() && is_space(s[i]) == space {
        run_end(s, i + 1, space)
    } else {
        i
    }
}

/// A run ends behind its start and within the text.
proof fn lemma_run_end(s: Seq<char>, i: int, space: bool)
    requires
        0 <= i <= s.len(),
    ensures
        i <= run_end(s, i, space) <= s.len(),
        run_end(s, i, space) < s.len() ==> is_space(s[run_end(s, i, space)]) != space,
    decreases s.len() - i,
{
    if i < s.len() && is_space(s[i]) == space {
        lemma_run_end(s, i + 1, space);
    }
}

/// The words of `s` from position `from` on: its longest runs without white space.
pub open spec fn words_from(s: Seq<char>, from: int) -> Seq<Seq<char>>
    decreases s.len() - from,
{
    let start = run_end(s, from, true);
    let end = run_end(s, start, false);
    if from < 0 || start < from || start >= s.len() || end <= start || end > s.len() {
        Seq::empty()
    } else {
        seq![s.subrange(start, end)] + words_from(s, end)
    }
}

/// The words of `s`: its longest runs without white space.
pub open spec fn words_of(s: Seq<char>) -> Seq<Seq<char>> {
    words_from(s, 0)
}

/// The end of the run that starts at `from`.
fn scan_run(a: &Vec<char>, from: usize, space: bool) -> (r: usize)
    requires
        from <= a.len(),
    ensures
        r == run_end(a@, from as int, space),
        from <= r <= a.len(),
        r < a.len() ==> is_space(a@[r as int]) != space,
{
    let mut i: usize = from;
    while i < a.len() && char_is_space(a[i]) == space
        invariant
            from <= i <= a.len(),
            run_end(a@, from as int, space) == run_end(a@, i as int, space),
        decreases a.len() - i,
    {
        i = i + 1;
    }
    i
}

/// The words of `s`: its longest runs without white space.
pub fn words(s: &str) -> (r: Vec<String>)
    ensures
        views(r@) == words_of(s@),
{
    let a = chars_of(s);
    let mut out: Vec<String> = Vec::new();
    let mut from: usize = 0;
    assert(views(out@) + words_from(s@, 0) == words_of(s@));
    loop
        invariant
            a@ == s@,
            from <= a.len(),
            views(out@) + words_from(s@, from as int) == words_of(s@),
        decreases a.len() - from,
    {
        let start = scan_run(&a, from, true);
        if start >= a.len() {
            assert(words_from(s@, from as int) == Seq::<Seq<char>>::empty());
            assert(views(out@) == words_of(s@));
            return out;
        }
        let end = scan_run(&a, start, false);
        let ghost before = out@;
        out.push(string_of(&a, start, end));
        proof {
            let piece = s@.subrange(start as int, end as int);
            assert(run_end(s@, start as int, false) == run_end(s@, start + 1, false));
            lemma_run_end(s@, start + 1, false);
            assert(views(out@) == views(before).push(piece));
            assert(views(before) + (seq![piece] + words_from(s@, end as int)) == views(out@)
                + words_from(s@, end as int));
        }
        from = end;
    }
}

/// The parts of `parts` one behind the other, with `sep` between each two.
pub open spec fn joined(parts: Seq<Seq<char>>, sep: Seq<char>) -> Seq<char>
    decreases parts.len(),
{
    if parts.len() == 0 {
        Seq::empty()
    } else if parts.len() == 1 {
        parts[0]
    } else {
        joined(parts.drop_last(), sep) + sep + parts.last()
    }
}

/// What stands in a part of a text stands in the text.
pub proof fn lemma_contains_around(before: Seq<char>, s: Seq<char>, after: Seq<char>, pat: Seq<char>)
    requires
        contains(s, pat),
    ensures
        contains(before + s + after, pat),
{
    let i = choose|i: int| #[trigger] occurs_at(s, pat, i);
    let all = before + s + after;
    let at = before.len() + i;
    assert(all.subrange(at, at + pat.len()) =~= s.subrange(i, i + pat.len()));
    assert(occurs_at(all, pat, at));
}

/// A text holds itself.
pub proof fn lemma_contains_itself(s: Seq<char>)
    ensures
        contains(s, s),
{
    assert(s.subrange(0, s.len() as int) =~= s);
    assert(occurs_at(s, s, 0));
}

/// Joined parts hold every part.
pub proof fn lemma_joined_contains(parts: Seq<Seq<char>>, sep: Seq<char>, i: int)
    requires
        0 <= i < parts.len(),
    ensures
        contains(joined(parts, sep), parts[i]),
    decreases parts.len(),
{
    let nothing = Seq::<char>::empty();
    lemma_contains_itself(parts[i]);
    if parts.len() > 1 {
        let front = joined(parts.drop_last(), sep);
        if i < parts.len() - 1 {
            lemma_joined_contains(parts.drop_last(), sep, i);
            lemma_contains_around(nothing, front, sep + parts.last(), parts[i]);
            assert(nothing + front + (sep + parts.last()) =~= front + sep + parts.last());
        } else {
            lemma_contains_around(front + sep, parts[i], nothing, parts[i]);
            assert(front + sep + parts[i] + nothing =~= front + sep + parts.last());
        }
    }
}

/// Joined parts, none of which is empty, begin with the first and end with the last.
pub proof fn lemma_joined_ends(parts: Seq<Seq<char>>, sep: Seq<char>)
    requires
        parts.len() > 0,
        forall|i: int| 0 <= i < parts.len() ==> (#[trigger] parts[i]).len() > 0,
    ensures
        joined(parts, sep).len() > 0,
        joined(parts, sep)[0] == parts[0][0],
        joined(parts, sep).last() == parts.last().last(),
    decreases parts.len(),
{
    if parts.len() > 1 {
        let front = parts.drop_last();
        assert forall|i: int| 0 <= i < front.len() implies (#[trigger] front[i]).len() > 0 by {
            assert(front[i] == parts[i]);
        }
        lemma_joined_ends(front, sep);
        assert(parts[parts.len() - 1].len() > 0);
    }
}

proof fn lemma_run_unique(s: Seq<char>, i: int, j: int, space: bool)
    requires
        0 <= i <= j <= s.len(),
        forall|k: int| i <= k < j ==> is_space(#[trigger] s[k]) == space,
        j < s.len() ==> is_space(s[j]) != space,
    ensures
        run_end(s, i, space) == j,
    decreases j - i,
{
    if i < j {
        lemma_run_unique(s, i + 1, j, space);
    }
}

/// The words behind white space are those of what follows it.
proof fn lemma_words_shift(a: Seq<char>, b: Seq<char>, from: int)
    requires
        0 <= from <= b.len(),
    ensures
        words_from(a + b, a.len() + from) == words_from(b, from),
    decreases b.len() - from,
{
    let all = a + b;
    let n = a.len() as int;
    let start = run_end(b, from, true);
    lemma_run_end(b, from, true);
    lemma_run_holds(b, from, true);
    assert forall|k: int| n + from <= k < n + start implies is_space(#[trigger] all[k]) by {
        assert(all[k] == b[k - n]);
    }
    lemma_run_unique(all, n + from, n + start, true);
    if start < b.len() {
        assert(run_end(b, start, false) == run_end(b, start + 1, false));
        let end = run_end(b, start, false);
        lemma_run_end(b, start + 1, false);
        lemma_run_holds(b, start, false);
        assert forall|k: int| n + start <= k < n + end implies !is_space(#[trigger] all[k]) by {
            assert(all[k] == b[k - n]);
        }
        lemma_run_unique(all, n + start, n + end, false);
        assert(all.subrange(n + start, n + end) =~= b.subrange(start, end));
        lemma_words_shift(a, b, end);
    }
}

/// White space parts the words of what stands before and behind it.
pub proof fn lemma_words_append(a: Seq<char>, c: char, b: Seq<char>)
    requires
        is_space(c),
    ensures
        words_of(a + seq![c] + b) == words_of(a) + words_of(b),
{
    lemma_words_append_from(a, c, b, 0);
}

proof fn lemma_words_append_from(a: Seq<char>, c: char, b: Seq<char>, from: int)
    requires
        is_space(c),
        0 <= from <= a.len(),
    ensures
        words_from(a + seq![c] + b, from) == words_from(a, from) + words_of(b),
    decreases a.len() - from,
{
    let all = a + seq![c] + b;
    let start = run_end(a, from, true);
    lemma_run_end(a, from, true);
    lemma_run_holds(a, from, true);
    if start < a.len() {
        assert forall|k: int| from <= k < start implies is_space(#[trigger] all[k]) by {
            assert(all[k] == a[k]);
        }
        lemma_run_unique(all, from, start, true);
        assert(run_end(a, start, false) == run_end(a, start + 1, false));
        let end = run_end(a, start, false);
        lemma_run_end(a, start + 1, false);
        lemma_run_holds(a, start, false);
        assert forall|k: int| start <= k < end implies !is_space(#[trigger] all[k]) by {
            assert(all[k] == a[k]);
        }
        assert(is_space(all[end])) by {
            if end < a.len() {
                assert(all[end] == a[end]);
            } else {
                assert(all[end] == c);
            }
        }
        lemma_run_unique(all, start, end, false);
        assert(all.subrange(start, end) =~= a.subrange(start, end));
        lemma_words_append_from(a, c, b, end);
        assert(words_from(all, from) =~= words_from(a, from) + words_of(b));
    } else {
        let head = a + seq![c];
        let stop = run_end(b, 0, true);
        lemma_run_end(b, 0, true);
        lemma_run_holds(b, 0, true);
        let n = head.len() as int;
        assert forall|k: int| from <= k < n + stop implies is_space(#[trigger] all[k]) by {
            if k < a.len() {
                assert(all[k] == a[k]);
            } else if k >= n {
                assert(all[k] == b[k - n]);
            }
        }
        if stop < b.len() {
            assert(all[n + stop] == b[stop]);
        }
        lemma_run_unique(all, from, n + stop, true);
        assert forall|k: int| n <= k < n + stop implies is_space(#[trigger] all[k]) by {}
        lemma_run_unique(all, n, n + stop, true);
        assert(words_from(all, from) =~= words_from(all, n));
        lemma_words_shift(head, b, 0);
        assert(words_from(all, from) =~= words_from(a, from) + words_of(b));
    }
}

/// White space has no words.
pub proof fn lemma_blank_words(s: Seq<char>)
    requires
        forall|k: int| 0 <= k < s.len() ==> is_space(#[trigger] s[k]),
    ensures
        words_of(s).len() == 0,
{
    lemma_run_unique(s, 0, s.len() as int, true);
}

/// The lines of blank text are blank.
pub proof fn lemma_blank_lines(s: Seq<char>, from: int)
    requires
        0 <= from <= s.len(),
        forall|k: int| 0 <= k < s.len() ==> is_space(#[trigger] s[k]),
    ensures
        forall|i: int|
            0 <= i < lines_from(s, from).len() ==> words_of(#[trigger] lines_from(s, from)[i]).len()
                == 0,
    decreases s.len() - from,
{
    if from < s.len() {
        let i = line_feed(s, from);
        lemma_line_feed(s, from);
        if i < s.len() {
            lemma_line_end(s, from, i);
            lemma_blank_lines(s, i + 1);
            let line = without_cr(s.subrange(from, i));
            lemma_blank_words(line);
            let rest = lines_from(s, i + 1);
            assert(lines_from(s, from) == seq![line] + rest);
            assert forall|k: int| 0 <= k < lines_from(s, from).len() implies words_of(
                #[trigger] lines_from(s, from)[k],
            ).len() == 0 by {
                if k > 0 {
                    assert(lines_from(s, from)[k] == rest[k - 1]);
                }
            }
        } else {
            lemma_no_line_end(s, from);
            lemma_blank_words(s.subrange(from, s.len() as int));
        }
    }
}

/// The words of joined lines are those of the lines: of one more, those of it more.
pub proof fn lemma_joined_words(parts: Seq<Seq<char>>, last: Seq<char>)
    ensures
        words_of(joined(parts.push(last), " "@)) == words_of(joined(parts, " "@)) + words_of(last),
{
    reveal_strlit(" ");
    assert(parts.push(last).drop_last() =~= parts);
    assert(" "@ =~= seq![' ']);
    if parts.len() == 0 {
        lemma_blank_words(joined(parts, " "@));
        assert(words_of(joined(parts, " "@)) + words_of(last) =~= words_of(last));
    } else {
        lemma_words_append(joined(parts, " "@), ' ', last);
    }
}

/// Words are not empty and hold no white space, and a text that does not begin with white space has
/// some.
pub proof fn lemma_words_shape(s: Seq<char>, from: int)
    requires
        0 <= from <= s.len(),
    ensures
        forall|i: int|
            0 <= i < words_from(s, from).len() ==> (#[trigger] words_from(s, from)[i]).len() > 0
                && !is_space(words_from(s, from)[i][0]) && !is_space(words_from(s, from)[i].last()),
        from < s.len() && !is_space(s[from]) ==> words_from(s, from).len() > 0,
    decreases s.len() - from,
{
    let start = run_end(s, from, true);
    lemma_run_end(s, from, true);
    if start < s.len() {
        let end = run_end(s, start, false);
        assert(run_end(s, start, false) == run_end(s, start + 1, false));
        lemma_run_end(s, start + 1, false);
        lemma_run_holds(s, start, false);
        lemma_words_shape(s, end);
        let w = s.subrange(start, end);
        assert(w[0] == s[start]);
        assert(w.last() == s[end - 1]);
        let rest = words_from(s, end);
        assert(words_from(s, from) == seq![w] + rest);
        assert forall|i: int| 0 <= i < words_from(s, from).len() implies (#[trigger] words_from(
            s,
            from,
        )[i]).len() > 0 && !is_space(words_from(s, from)[i][0]) && !is_space(
            words_from(s, from)[i].last(),
        ) by {
            if i > 0 {
                assert(words_from(s, from)[i] == rest[i - 1]);
            }
        }
    }
}

/// A run holds white space, or none.
proof fn lemma_run_holds(s: Seq<char>, i: int, space: bool)
    requires
        0 <= i <= s.len(),
    ensures
        forall|k: int| i <= k < run_end(s, i, space) ==> is_space(#[trigger] s[k]) == space,
    decreases s.len() - i,
{
    if i < s.len() && is_space(s[i]) == space {
        lemma_run_holds(s, i + 1, space);
    }
}

/// The parts of `parts` one behind the other, with `sep` between each two.
pub fn join(parts: &Vec<String>, sep: &str) -> (r: String)
    ensures
        r@ == joined(views(parts@), sep@),
{
    let mut out = String::new();
    let mut i: usize = 0;
    while i < parts.len()
        invariant
            i <= parts.len(),
            out@ == joined(views(parts@.subrange(0, i as int)), sep@),
        decreases parts.len() - i,
    {
        let ghost before = parts@.subrange(0, i as int);
        proof {
            let next = views(parts@.subrange(0, i + 1));
            assert(next.drop_last() == views(before));
            assert(next.last() == parts@[i as int]@);
        }
        if i > 0 {
            out.append(sep);
        }
        out.append(parts[i].as_str());
        i = i + 1;
    }
    assert(parts@.subrange(0, parts@.len() as int) == parts@);
    out
}

/// Lines that are being put together.
pub struct Lines {
    pub lines: Vec<String>,
}

impl View for Lines {
    type V = Seq<Seq<char>>;

    open spec fn view(&self) -> Seq<Seq<char>> {
        views(self.lines@)
    }
}

impl Lines {
    /// No line.
    pub fn new() -> (r: Lines)
        ensures
            r@ == Seq::<Seq<char>>::empty(),
    {
        let r = Lines { lines: Vec::new() };
        assert(r@ =~= Seq::empty());
        r
    }

    /// Adds a line.
    pub fn add(&mut self, line: &str)
        ensures
            final(self)@ == old(self)@.push(line@),
    {
        self.lines.push(line.to_owned());
        assert(self@ =~= old(self)@.push(line@));
    }

    /// Whether there is no line.
    pub fn is_empty(&self) -> (r: bool)
        ensures
            r == (self@.len() == 0),
    {
        self.lines.len() == 0
    }

    /// The lines in one text, with `sep` between each two.
    pub fn join(&self, sep: &str) -> (r: String)
        ensures
            r@ == joined(self@, sep@),
    {
        join(&self.lines, sep)
    }
}

// ---------------------------------------------------------------------------------------------
// Splitting, joining and replacing
// ---------------------------------------------------------------------------------------------

proof fn lemma_joined_first(first: Seq<char>, rest: Seq<Seq<char>>, sep: Seq<char>)
    requires
        rest.len() > 0,
    ensures
        joined(seq![first] + rest, sep) == first + sep + joined(rest, sep),
    decreases rest.len(),
{
    let all = seq![first] + rest;
    assert(all.drop_last() =~= seq![first] + rest.drop_last());
    assert(all.last() == rest.last());
    if rest.len() > 1 {
        lemma_joined_first(first, rest.drop_last(), sep);
        assert(joined(all, sep) =~= first + sep + joined(rest, sep));
    } else {
        assert(all.drop_last() =~= seq![first]);
        assert(joined(all.drop_last(), sep) == first);
    }
}

/// The pieces of a text, joined by what it was cut at, are the text. None of them holds what it was
/// cut at.
pub proof fn pieces_join_back(s: Seq<char>, pat: Seq<char>)
    requires
        pat.len() > 0,
    ensures
        joined(split_of(s, pat), pat) == s,
        forall|k: int|
            0 <= k < split_of(s, pat).len() ==> !contains(#[trigger] split_of(s, pat)[k], pat),
{
    lemma_pieces(s, pat, pat, 0);
    assert(s.subrange(0, s.len() as int) =~= s);
}

/// Replacing puts the new text between the pieces.
pub proof fn replacing_joins_the_pieces(s: Seq<char>, pat: Seq<char>, with: Seq<char>)
    requires
        pat.len() > 0,
    ensures
        replaced(s, pat, with) == joined(split_of(s, pat), with),
{
    lemma_pieces(s, pat, with, 0);
}

proof fn lemma_pieces(s: Seq<char>, pat: Seq<char>, with: Seq<char>, from: int)
    requires
        pat.len() > 0,
        0 <= from <= s.len(),
    ensures
        split_from(s, pat, from).len() > 0,
        joined(split_from(s, pat, from), pat) == s.subrange(from, s.len() as int),
        joined(split_from(s, pat, from), with) == replaced_from(s, pat, with, from),
        forall|k: int|
            0 <= k < split_from(s, pat, from).len() ==> !contains(
                #[trigger] split_from(s, pat, from)[k],
                pat,
            ),
    decreases s.len() - from,
{
    lemma_find_from(s, pat, from);
    let pieces = split_from(s, pat, from);
    match find_from(s, pat, from) {
        Some(i) => {
            let first = s.subrange(from, i);
            let next = i + pat.len();
            lemma_pieces(s, pat, with, next);
            let rest = split_from(s, pat, next);
            lemma_joined_first(first, rest, pat);
            lemma_joined_first(first, rest, with);
            assert(s.subrange(i, next) == pat);
            assert(first + pat + s.subrange(next, s.len() as int) =~= s.subrange(
                from,
                s.len() as int,
            ));
            lemma_piece_is_free(s, pat, from, i);
            assert forall|k: int| 0 <= k < pieces.len() implies !contains(
                #[trigger] pieces[k],
                pat,
            ) by {
                if k > 0 {
                    assert(pieces[k] == rest[k - 1]);
                }
            }
        },
        None => {
            lemma_piece_is_free(s, pat, from, s.len() as int);
        },
    }
}

proof fn lemma_piece_is_free(s: Seq<char>, pat: Seq<char>, from: int, to: int)
    requires
        0 <= from <= to <= s.len(),
        pat.len() > 0,
        forall|j: int| from <= j < to ==> !#[trigger] occurs_at(s, pat, j),
    ensures
        !contains(s.subrange(from, to), pat),
{
    let part = s.subrange(from, to);
    if contains(part, pat) {
        let i = choose|i: int| #[trigger] occurs_at(part, pat, i);
        assert(s.subrange(from + i, from + i + pat.len()) =~= part.subrange(i, i + pat.len()));
        assert(occurs_at(s, pat, from + i));
    }
}

/// A text without what is looked for is one piece, and nothing is replaced in it.
pub proof fn lemma_one_piece(s: Seq<char>, pat: Seq<char>, with: Seq<char>)
    requires
        pat.len() > 0,
        !contains(s, pat),
    ensures
        replaced(s, pat, with) == s,
        split_of(s, pat) == seq![s],
{
    lemma_find_from(s, pat, 0);
    assert(s.subrange(0, s.len() as int) =~= s);
}

/// A text that holds what it is cut at, with none before it, is cut there first, and what stands
/// behind it is cut on its own.
pub proof fn texts_are_cut_at_the_first(front: Seq<char>, pat: Seq<char>, back: Seq<char>)
    requires
        find(front + pat + back, pat) == Some(front.len() as int),
        pat.len() > 0,
    ensures
        split_of(front + pat + back, pat) == seq![front] + split_of(back, pat),
{
    let s = front + pat + back;
    let at = (front.len() + pat.len()) as int;
    assert(s.subrange(0, front.len() as int) =~= front);
    lemma_split_shift(front + pat, pat, back, 0);
    assert(s.subrange(0, front.len() as int) =~= front);
}

/// What is found in a text stands as far behind whatever is put in front of it.
pub proof fn lemma_find_shift(a: Seq<char>, pat: Seq<char>, b: Seq<char>, from: int)
    requires
        0 <= from,
        pat.len() > 0,
    ensures
        find_from(a + b, pat, a.len() + from) == match find_from(b, pat, from) {
            Some(i) => Some(a.len() + i),
            None => None,
        },
    decreases b.len() + 1 - from,
{
    let s = a + b;
    if from + pat.len() <= b.len() {
        assert(s.subrange(a.len() + from, a.len() + from + pat.len()) =~= b.subrange(
            from,
            from + pat.len(),
        ));
        if !occurs_at(b, pat, from) {
            lemma_find_shift(a, pat, b, from + 1);
        }
    }
}

proof fn lemma_split_shift(a: Seq<char>, pat: Seq<char>, b: Seq<char>, from: int)
    requires
        0 <= from <= b.len(),
        pat.len() > 0,
    ensures
        split_from(a + b, pat, a.len() + from) == split_from(b, pat, from),
    decreases b.len() - from,
{
    let s = a + b;
    lemma_find_shift(a, pat, b, from);
    lemma_find_from(b, pat, from);
    match find_from(b, pat, from) {
        Some(i) => {
            assert(s.subrange(a.len() + from, a.len() + i) =~= b.subrange(from, i));
            lemma_split_shift(a, pat, b, i + pat.len());
        },
        None => {
            assert(s.subrange(a.len() + from, s.len() as int) =~= b.subrange(from, b.len() as int));
        },
    }
}

/// Joining two lists puts the separator once between what they come to.
pub proof fn joined_lists_add_up(a: Seq<Seq<char>>, b: Seq<Seq<char>>, sep: Seq<char>)
    requires
        a.len() > 0,
        b.len() > 0,
    ensures
        joined(a + b, sep) == joined(a, sep) + sep + joined(b, sep),
    decreases b.len(),
{
    let all = a + b;
    assert(all.drop_last() =~= a + b.drop_last());
    assert(all.last() == b.last());
    if b.len() == 1 {
        assert(a + b.drop_last() =~= a);
    } else {
        joined_lists_add_up(a, b.drop_last(), sep);
        assert(joined(all, sep) =~= joined(a, sep) + sep + joined(b, sep));
    }
}

/// A text without white space is one word.
pub proof fn texts_without_space_are_words(w: Seq<char>)
    requires
        w.len() > 0,
        forall|i: int| 0 <= i < w.len() ==> !is_space(#[trigger] w[i]),
    ensures
        words_of(w) == seq![w],
{
    let n = w.len() as int;
    lemma_run_unique(w, 0, 0, true);
    lemma_run_unique(w, 0, n, false);
    assert(w.subrange(0, n) =~= w);
    lemma_run_unique(w, n, n, true);
    assert(words_from(w, n) =~= Seq::empty());
    assert(words_from(w, 0) =~= seq![w]);
}

/// The words of a text are those of its parts, where white space parts them, and white space has none.
pub proof fn space_parts_words(a: Seq<char>, c: char, b: Seq<char>)
    requires
        is_space(c),
    ensures
        words_of(a + seq![c] + b) == words_of(a) + words_of(b),
        words_of(seq![c]).len() == 0,
        words_of(Seq::empty()).len() == 0,
{
    lemma_words_append(a, c, b);
    lemma_blank_words(seq![c]);
    lemma_blank_words(Seq::empty());
}

} // verus!
