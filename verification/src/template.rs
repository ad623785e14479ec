//! Shell commands made from templates.

use vstd::prelude::*;

use crate::pattern::{
    contains, find_from, join, joined, lemma_find_from, lemma_one_piece, occurs_at, replace,
    replaced, replaced_from, views,
};
use crate::text::concat3;
use crate::html::{lemma_replaced_add, lemma_replaced_itself, lemma_replaced_nowhere};

verus! {

/// `text` as one argument on a command line: in double quotes, with a backslash before every
/// double quote in it.
pub open spec fn escaped(text: Seq<char>) -> Seq<char> {
    if text.len() == 0 {
        "''"@
    } else {
        "\""@ + replaced(text, "\""@, "\\\""@) + "\""@
    }
}

/// `text` as one argument on a command line: in double quotes, with a backslash before every
/// double quote in it.
pub fn shell_escape(text: &str) -> (r: String)
    ensures
        r@ == escaped(text@),
{
    if text.is_empty() {
        return "''".to_owned();
    }
    proof {
        reveal_strlit("\"");
    }
    let inner = replace(text, "\"", "\\\"");
    concat3("\"", inner.as_str(), "\"")
}

/// The arguments of a command in one line.
pub open spec fn command_line(args: Seq<Seq<char>>) -> Seq<char> {
    joined(args.map_values(|a: Seq<char>| escaped(a)), " "@)
}

/// The arguments of a command in one line, each escaped.
pub fn join_escaped(args: &Vec<String>) -> (r: String)
    ensures
        r@ == command_line(views(args@)),
{
    let ghost all = views(args@);
    let mut out: Vec<String> = Vec::new();
    let mut i: usize = 0;
    while i < args.len()
        invariant
            i <= args.len(),
            all == views(args@),
            views(out@) == all.subrange(0, i as int).map_values(|a: Seq<char>| escaped(a)),
        decreases args.len() - i,
    {
        let ghost before = out@;
        out.push(shell_escape(args[i].as_str()));
        proof {
            let f = |a: Seq<char>| escaped(a);
            assert(all[i as int] == args@[i as int]@);
            assert(views(out@) =~= views(before).push(f(all[i as int])));
            assert(all.subrange(0, i + 1).map_values(f) =~= all.subrange(0, i as int).map_values(
                f,
            ).push(f(all[i as int])));
        }
        i = i + 1;
    }
    assert(all.subrange(0, all.len() as int) == all);
    join(&out, " ")
}

/// The paths that a template speaks of.
pub struct TemplatePaths {
    pub audio: String,
    pub out_base: String,
    pub out_txt: String,
    pub session_dir: String,
}

/// A template with the paths put in for their names, one name after the other.
pub open spec fn with_paths(template: Seq<char>, p: TemplatePaths) -> Seq<char> {
    let s = replaced(template, "{audio}"@, escaped(p.audio@));
    let s = replaced(s, "{out_base}"@, escaped(p.out_base@));
    let s = replaced(s, "{out_txt}"@, escaped(p.out_txt@));
    replaced(s, "{session_dir}"@, escaped(p.session_dir@))
}

/// A template with the paths put in for their names, each escaped.
pub fn fill_template(template: &str, paths: &TemplatePaths) -> (r: String)
    ensures
        r@ == with_paths(template@, *paths),
{
    fill_template_with_transcript(template, paths, None)
}

/// A template with the paths and the transcript put in for their names, each escaped.
pub fn fill_template_with_transcript(
    template: &str,
    paths: &TemplatePaths,
    transcript: Option<&str>,
) -> (r: String)
    ensures
        r@ == match transcript {
            Some(t) => replaced(with_paths(template@, *paths), "{transcript}"@, escaped(t@)),
            None => with_paths(template@, *paths),
        },
{
    proof {
        reveal_strlit("{audio}");
        reveal_strlit("{out_base}");
        reveal_strlit("{out_txt}");
        reveal_strlit("{session_dir}");
        reveal_strlit("{transcript}");
    }
    let s = replace(template, "{audio}", shell_escape(paths.audio.as_str()).as_str());
    let s = replace(s.as_str(), "{out_base}", shell_escape(paths.out_base.as_str()).as_str());
    let s = replace(s.as_str(), "{out_txt}", shell_escape(paths.out_txt.as_str()).as_str());
    let s = replace(s.as_str(), "{session_dir}", shell_escape(paths.session_dir.as_str()).as_str());
    match transcript {
        Some(t) => replace(s.as_str(), "{transcript}", shell_escape(t).as_str()),
        None => s,
    }
}

/// Whether every double quote in `s` stands behind a backslash.
pub open spec fn quotes_are_escaped(s: Seq<char>) -> bool {
    forall|i: int| 0 <= i < s.len() && #[trigger] s[i] == '"' ==> i > 0 && s[i - 1] == '\\'
}

proof fn lemma_no_quote_before(s: Seq<char>, from: int, to: int)
    requires
        0 <= from <= to <= s.len(),
        forall|j: int| from <= j < to ==> !#[trigger] occurs_at(s, "\""@, j),
    ensures
        forall|j: int| from <= j < to ==> #[trigger] s[j] != '"',
{
    reveal_strlit("\"");
    assert forall|j: int| from <= j < to implies #[trigger] s[j] != '"' by {
        if s[j] == '"' {
            assert(s.subrange(j, j + 1) =~= "\""@);
            assert(occurs_at(s, "\""@, j));
        }
    }
}

proof fn lemma_replaced_quotes(s: Seq<char>, from: int)
    requires
        0 <= from <= s.len(),
    ensures
        quotes_are_escaped(replaced_from(s, "\""@, "\\\""@, from)),
    decreases s.len() - from,
{
    reveal_strlit("\"");
    reveal_strlit("\\\"");
    lemma_find_from(s, "\""@, from);
    match find_from(s, "\""@, from) {
        Some(i) => {
            lemma_replaced_quotes(s, i + 1);
            lemma_no_quote_before(s, from, i);
            let head = s.subrange(from, i);
            let tail = replaced_from(s, "\""@, "\\\""@, i + 1);
            let whole = head + "\\\""@ + tail;
            let n = head.len() as int;
            assert forall|k: int| 0 <= k < whole.len() && #[trigger] whole[k] == '"' implies k > 0
                && whole[k - 1] == '\\' by {
                if k < n {
                    assert(whole[k] == s[from + k]);
                } else if k >= n + 2 {
                    assert(whole[k] == tail[k - n - 2]);
                    assert(tail[k - n - 2] == '"');
                    assert(whole[k - 1] == tail[k - n - 3]);
                }
            }
        },
        None => {
            lemma_no_quote_before(s, from, s.len() as int);
            let rest = s.subrange(from, s.len() as int);
            assert forall|k: int| 0 <= k < rest.len() && #[trigger] rest[k] == '"' implies k > 0
                && rest[k - 1] == '\\' by {
                assert(rest[k] == s[from + k]);
            }
        },
    }
}

/// An escaped text that is not empty stands in double quotes, and every double quote within them
/// stands behind a backslash.
pub proof fn escaping_closes_quotes(text: Seq<char>)
    requires
        text.len() > 0,
    ensures
        escaped(text).len() >= 2,
        escaped(text)[0] == '"',
        escaped(text)[escaped(text).len() - 1] == '"',
        quotes_are_escaped(escaped(text).subrange(1, escaped(text).len() - 1)),
{
    reveal_strlit("\"");
    lemma_replaced_quotes(text, 0);
    let e = escaped(text);
    assert(e.subrange(1, e.len() - 1) =~= replaced(text, "\""@, "\\\""@));
}

/// Escaping goes character by character: a double quote gets a backslash in front of it, and every
/// other character stands for itself.
pub proof fn escaping_is_by_character(a: Seq<char>, c: char)
    requires
        a.len() > 0,
    ensures
        c != '"' ==> escaped(a.push(c)) == escaped(a).drop_last() + seq![c, '"'],
        escaped(a.push('"')) == escaped(a).drop_last() + seq!['\\', '"', '"'],
        c != '"' ==> escaped(seq![c]) == seq!['"', c, '"'],
        escaped(Seq::empty()) == seq!['\'', '\''],
{
    reveal_strlit("\"");
    reveal_strlit("\\\"");
    reveal_strlit("''");
    assert("''"@ =~= seq!['\'', '\'']);
    let one = seq![c];
    let quote = seq!['"'];
    lemma_replaced_add(a, one, "\""@, "\\\""@, 0);
    lemma_replaced_add(a, quote, "\""@, "\\\""@, 0);
    assert(a.push(c) =~= a + one);
    assert(a.push('"') =~= a + quote);
    assert(quote =~= "\""@);
    lemma_replaced_itself("\""@, "\\\""@);
    lemma_replaced_nowhere(one, "\""@, "\\\""@);
    let inner = replaced(a, "\""@, "\\\""@);
    assert(escaped(a).drop_last() =~= "\""@ + inner);
    assert("\""@ + (inner + "\\\""@) + "\""@ =~= escaped(a).drop_last() + seq!['\\', '"', '"']);
    if c != '"' {
        assert("\""@ + (inner + one) + "\""@ =~= escaped(a).drop_last() + seq![c, '"']);
        assert("\""@ + one + "\""@ =~= seq!['"', c, '"']);
    }
}

/// The arguments of a command stand in one line with a blank between them, each escaped.
pub proof fn arguments_stand_in_order(args: Seq<Seq<char>>, last: Seq<char>)
    ensures
        command_line(seq![last]) == escaped(last),
        args.len() > 0 ==> command_line(args.push(last)) == command_line(args) + " "@ + escaped(last),
        command_line(Seq::empty()).len() == 0,
{
    let f = |a: Seq<char>| escaped(a);
    assert(seq![last].map_values(f) =~= seq![escaped(last)]);
    let m = args.map_values(f);
    assert(args.push(last).map_values(f) =~= m.push(escaped(last)));
    assert(m.push(escaped(last)).drop_last() =~= m);
}

/// Each name in a template stands for its path, and what stands around it stays. A template without
/// names is taken as it is.
pub proof fn names_stand_for_their_paths(front: Seq<char>, back: Seq<char>, p: TemplatePaths)
    requires
        !front.contains('{'),
        !back.contains('{'),
        !escaped(p.audio@).contains('{'),
        !escaped(p.out_base@).contains('{'),
        !escaped(p.out_txt@).contains('{'),
        !escaped(p.session_dir@).contains('{'),
    ensures
        with_paths(front, p) == front,
        with_paths(front + "{audio}"@ + back, p) == front + escaped(p.audio@) + back,
        with_paths(front + "{out_base}"@ + back, p) == front + escaped(p.out_base@) + back,
        with_paths(front + "{out_txt}"@ + back, p) == front + escaped(p.out_txt@) + back,
        with_paths(front + "{session_dir}"@ + back, p) == front + escaped(p.session_dir@) + back,
{
    reveal_strlit("{audio}");
    reveal_strlit("{out_base}");
    reveal_strlit("{out_txt}");
    reveal_strlit("{session_dir}");
    let a = "{audio}"@;
    let b = "{out_base}"@;
    let c = "{out_txt}"@;
    let d = "{session_dir}"@;
    assert(a[1] == 'a' && b[1] == 'o' && c[1] == 'o' && d[1] == 's');
    assert(b[5] == 'b' && c[5] == 't');
    let ea = escaped(p.audio@);
    let eb = escaped(p.out_base@);
    let ec = escaped(p.out_txt@);
    let ed = escaped(p.session_dir@);
    lemma_no_name(front, a, ea);
    lemma_no_name(front, b, eb);
    lemma_no_name(front, c, ec);
    lemma_no_name(front, d, ed);
    lemma_name_filled(front, a, back, ea, a, 1);
    lemma_no_name(front + ea + back, b, eb);
    lemma_no_name(front + ea + back, c, ec);
    lemma_no_name(front + ea + back, d, ed);
    lemma_name_filled(front, b, back, ea, a, 1);
    lemma_name_filled(front, b, back, eb, b, 1);
    lemma_no_name(front + eb + back, c, ec);
    lemma_no_name(front + eb + back, d, ed);
    lemma_name_filled(front, c, back, ea, a, 1);
    lemma_name_filled(front, c, back, eb, b, 5);
    lemma_name_filled(front, c, back, ec, c, 1);
    lemma_no_name(front + ec + back, d, ed);
    lemma_name_filled(front, d, back, ea, a, 1);
    lemma_name_filled(front, d, back, eb, b, 1);
    lemma_name_filled(front, d, back, ec, c, 1);
    lemma_name_filled(front, d, back, ed, d, 1);
}

proof fn lemma_no_name(s: Seq<char>, name: Seq<char>, with: Seq<char>)
    requires
        name.len() > 1,
        name[0] == '{',
    ensures
        !s.contains('{') ==> replaced(s, name, with) == s,
{
    if !s.contains('{') {
        if contains(s, name) {
            let i = choose|i: int| #[trigger] occurs_at(s, name, i);
            assert(s.subrange(i, i + name.len())[0] == s[i]);
        }
        lemma_one_piece(s, name, with);
    }
}

/// What becomes of a name where `other` is looked for, which differs from it at `k` unless they are
/// the same.
proof fn lemma_name_filled(
    front: Seq<char>,
    name: Seq<char>,
    back: Seq<char>,
    with: Seq<char>,
    other: Seq<char>,
    k: int,
)
    requires
        !front.contains('{'),
        !back.contains('{'),
        !with.contains('{'),
        name.len() > 1,
        other.len() > 1,
        name[0] == '{',
        other[0] == '{',
        forall|i: int| 1 <= i < name.len() ==> name[i] != '{',
        name == other || (1 <= k < name.len() && k < other.len() && name[k] != other[k]),
    ensures
        name == other ==> replaced(front + name + back, other, with) == front + with + back
            && !(front + with + back).contains('{'),
        name != other ==> replaced(front + name + back, other, with) == front + name + back,
{
    let s = front + name + back;
    let at = front.len() as int;
    lemma_find_from(s, other, 0);
    assert forall|j: int| 0 <= j && j != at implies !#[trigger] occurs_at(s, other, j) by {
        if occurs_at(s, other, j) {
            assert(s.subrange(j, j + other.len())[0] == s[j]);
            if j < at {
                assert(front[j] == '{');
            } else if j < at + name.len() {
                assert(name[j - at] == '{');
            } else {
                assert(back[j - at - name.len()] == '{');
            }
        }
    }
    if name == other {
        assert(s.subrange(at, at + name.len()) =~= name);
        assert(occurs_at(s, other, at));
        assert(find_from(s, other, 0) == Some(at));
        let next = at + name.len();
        lemma_find_from(s, other, next);
        if let Some(i) = find_from(s, other, next) {
            assert(occurs_at(s, other, i));
        }
        reveal_with_fuel(replaced_from, 3);
        assert(s.subrange(0, at) =~= front);
        assert(s.subrange(next, s.len() as int) =~= back);
        let r = front + with + back;
        if r.contains('{') {
            let i = choose|i: int| 0 <= i < r.len() && r[i] == '{';
            if i < at {
                assert(front[i] == '{');
            } else if i < at + with.len() {
                assert(with[i - at] == '{');
            } else {
                assert(back[i - at - with.len()] == '{');
            }
        }
    } else {
        if occurs_at(s, other, at) {
            assert(s.subrange(at, at + other.len())[k] == s[at + k]);
            assert(s[at + k] == name[k]);
        }
        if contains(s, other) {
            let i = choose|i: int| #[trigger] occurs_at(s, other, i);
            assert(i == at);
        }
        lemma_one_piece(s, other, with);
    }
}

} // verus!
