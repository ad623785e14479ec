//! The read side of the event bus: filters, and whole-line reads that survive rotation.

use vstd::prelude::*;
use vstd::utf8::{
    decode_utf8, decode_utf8_split, is_char_boundary, is_char_boundary_iff_not_is_continuation_byte,
    is_continuation_byte, is_leading_byte_width_1, leading_bits_width_1, length_of_first_scalar,
    pop_first_scalar, valid_utf8, valid_utf8_split,
};

use crate::json::{opt_view, text_field, Json, Tree};
use crate::moment::{moment_of, parse_iso, rfc3339_instant, Moment};
use crate::pattern::{
    contains, contains_text, lemma_lines_append, lemma_single_line, lines, lines_of, views,
};
use crate::text::{is_blank, lemma_trimmed_shape, same, trimmed};
use crate::wire::{read_json, text_read};

verus! {

/// The text that `str::to_lowercase` makes of a text.
pub uninterp spec fn lowercase(s: Seq<char>) -> Seq<char>;

/// `str::to_lowercase`: the result depends on the text alone.
#[verifier::external_body]
fn to_lowercase(s: &str) -> (r: String)
    ensures
        r@ == lowercase(s@),
{
    s.to_lowercase()
}

/// The text that `String::from_utf8_lossy` reads from bytes.
pub uninterp spec fn lossy_text(bytes: Seq<u8>) -> Seq<char>;

/// `String::from_utf8_lossy`: the text depends on the bytes alone; bytes that are valid UTF-8 are
/// read as what they encode.
#[verifier::external_body]
fn from_utf8_lossy(bytes: &[u8]) -> (r: String)
    ensures
        r@ == lossy_text(bytes@),
        valid_utf8(bytes@) ==> r@ == decode_utf8(bytes@),
{
    String::from_utf8_lossy(bytes).to_string()
}

/// The text that bytes hold, as far as they are UTF-8.
pub fn decode(bytes: &[u8]) -> (r: String)
    ensures
        r@ == lossy_text(bytes@),
        valid_utf8(bytes@) ==> r@ == decode_utf8(bytes@),
{
    from_utf8_lossy(bytes)
}

/// Which events a reader wants. Every criterion that is set must hold; of several values of one
/// criterion one suffices.
pub struct EventFilters {
    pub types: Vec<String>,
    pub commands: Vec<String>,
    pub session: Option<String>,
    pub grep: Option<String>,
    pub since: Option<Moment>,
}

/// The text of a field, empty where there is none.
pub open spec fn text_or_empty(t: Tree, key: Seq<char>) -> Seq<char> {
    match text_field(t, key) {
        Some(s) => s,
        None => Seq::empty(),
    }
}

impl EventFilters {
    /// Whether the filters let an event through, given its line and the search text in small
    /// letters and the time of the event.
    pub open spec fn passes(
        self,
        event: Tree,
        raw_lower: Seq<char>,
        needle_lower: Option<Seq<char>>,
        at: Option<Moment>,
    ) -> bool {
        &&& self.types@.len() > 0 ==> views(self.types@).contains(text_or_empty(event, "type"@))
        &&& self.commands@.len() > 0 ==> views(self.commands@).contains(
            text_or_empty(event, "command"@),
        )
        &&& self.session matches Some(id) ==> text_field(event, "session_id"@) == Some(id@)
        &&& needle_lower matches Some(n) ==> contains(raw_lower, n)
        &&& self.since matches Some(cutoff) ==> at is Some && !at->0.is_before(cutoff)
    }

    /// Whether the filters let an event through that was written as `raw`.
    pub open spec fn lets_through(self, event: Tree, raw: Seq<char>) -> bool {
        self.passes(
            event,
            lowercase(raw),
            match self.grep {
                Some(n) => Some(lowercase(n@)),
                None => None,
            },
            match text_field(event, "ts"@) {
                Some(ts) => moment_of(rfc3339_instant(ts)),
                None => None,
            },
        )
    }

    /// Whether the filters let an event through, given its line and the search text in small
    /// letters and the time of the event.
    pub fn admits(
        &self,
        event: &Json,
        raw_lower: &str,
        needle_lower: &Option<String>,
        at: &Option<Moment>,
    ) -> (r: bool)
        ensures
            r == self.passes(event@, raw_lower@, opt_view(*needle_lower), *at),
    {
        if self.types.len() > 0 && !one_of(&self.types, event, "type") {
            return false;
        }
        if self.commands.len() > 0 && !one_of(&self.commands, event, "command") {
            return false;
        }
        if let Some(session) = &self.session {
            match event.get_text("session_id") {
                Some(id) => if !same(id.as_str(), session.as_str()) {
                    return false;
                },
                None => {
                    return false;
                },
            }
        }
        if let Some(needle) = needle_lower {
            if !contains_text(raw_lower, needle.as_str()) {
                return false;
            }
        }
        if let Some(cutoff) = &self.since {
            match at {
                Some(t) => if t.before(cutoff) {
                    return false;
                },
                None => {
                    return false;
                },
            }
        }
        true
    }

    /// The event that a line holds, where the filters let it through. A line that holds none is
    /// passed over.
    pub fn event_in(&self, raw: &str) -> (r: Option<Json>)
        ensures
            match r {
                Some(event) => text_read(raw@) == Ok::<Tree, Seq<char>>(event@)
                    && self.lets_through(event@, raw@),
                None => !(text_read(raw@) matches Ok(t) && self.lets_through(t, raw@)),
            },
    {
        match read_json(raw) {
            Ok(event) => if self.matches(&event, raw) {
                Some(event)
            } else {
                None
            },
            Err(_) => None,
        }
    }

    /// Whether the filters let an event through that was written as `raw`.
    pub fn matches(&self, event: &Json, raw: &str) -> (r: bool)
        ensures
            r == self.lets_through(event@, raw@),
    {
        let raw_lower = to_lowercase(raw);
        let needle_lower: Option<String> = match &self.grep {
            Some(n) => Some(to_lowercase(n.as_str())),
            None => None,
        };
        let at: Option<Moment> = match event.get_text("ts") {
            Some(ts) => parse_iso(ts.as_str()),
            None => None,
        };
        self.admits(event, raw_lower.as_str(), &needle_lower, &at)
    }
}

/// Whether the text of a field of `event` is one of `wanted`.
fn one_of(wanted: &Vec<String>, event: &Json, key: &str) -> (r: bool)
    ensures
        r == views(wanted@).contains(text_or_empty(event@, key@)),
{
    let value: String = match event.get_text(key) {
        Some(s) => s.clone(),
        None => String::new(),
    };
    let mut i: usize = 0;
    while i < wanted.len()
        invariant
            i <= wanted.len(),
            value@ == text_or_empty(event@, key@),
            forall|k: int| 0 <= k < i ==> (#[trigger] wanted@[k])@ != value@,
        decreases wanted.len() - i,
    {
        if same(wanted[i].as_str(), value.as_str()) {
            assert(views(wanted@)[i as int] == value@);
            return true;
        }
        i = i + 1;
    }
    assert forall|k: int| 0 <= k < wanted@.len() implies views(wanted@)[k] != value@ by {
        assert(wanted@[k]@ != value@);
    }
    false
}

/// The filters that let every event through.
pub fn no_filters() -> (r: EventFilters)
    ensures
        r.types@.len() == 0,
        r.commands@.len() == 0,
        r.session is None,
        r.grep is None,
        r.since is None,
        forall|event: Tree, raw: Seq<char>| #[trigger] r.lets_through(event, raw),
{
    EventFilters { types: Vec::new(), commands: Vec::new(), session: None, grep: None, since: None }
}

/// Every criterion narrows: an event passes filters exactly when it passes each criterion alone.
pub proof fn criteria_are_anded(f: EventFilters, event: Tree, raw: Seq<char>, empty: EventFilters)
    requires
        empty.types@.len() == 0,
        empty.commands@.len() == 0,
        empty.session is None,
        empty.grep is None,
        empty.since is None,
    ensures
        f.lets_through(event, raw) <==> {
            &&& (EventFilters { types: f.types, ..empty }).lets_through(event, raw)
            &&& (EventFilters { commands: f.commands, ..empty }).lets_through(event, raw)
            &&& (EventFilters { session: f.session, ..empty }).lets_through(event, raw)
            &&& (EventFilters { grep: f.grep, ..empty }).lets_through(event, raw)
            &&& (EventFilters { since: f.since, ..empty }).lets_through(event, raw)
        },
{
}

// ---------------------------------------------------------------------------------------------
// Reading the tail of the bus
// ---------------------------------------------------------------------------------------------

/// How many of `bytes` stand before and in the last line feed: the whole lines.
pub open spec fn whole_lines_len(bytes: Seq<u8>) -> nat
    decreases bytes.len(),
{
    if bytes.len() == 0 || bytes[bytes.len() - 1] == 10 {
        bytes.len()
    } else {
        whole_lines_len(bytes.drop_last())
    }
}

/// How many of `bytes` stand before and in the last line feed.
pub fn complete_len(bytes: &Vec<u8>) -> (r: usize)
    ensures
        r == whole_lines_len(bytes@),
        r <= bytes@.len(),
{
    let mut n: usize = bytes.len();
    assert(bytes@.subrange(0, n as int) == bytes@);
    while n > 0 && bytes[n - 1] != 10
        invariant
            n <= bytes.len(),
            whole_lines_len(bytes@) == whole_lines_len(bytes@.subrange(0, n as int)),
        decreases n,
    {
        assert(bytes@.subrange(0, n as int).drop_last() == bytes@.subrange(0, n - 1));
        n = n - 1;
    }
    n
}

/// The lines of `s` that are not blank.
pub open spec fn filled_lines(s: Seq<char>) -> Seq<Seq<char>> {
    lines_of(s).filter(|l: Seq<char>| trimmed(l).len() > 0)
}

/// The lines that are not blank of the text that `bytes` encode.
pub open spec fn lines_in(bytes: Seq<u8>) -> Seq<Seq<char>> {
    filled_lines(decode_utf8(bytes))
}

/// A reader that follows the bus file by its offset.
pub struct BusTailer {
    pub offset: u64,
}

impl BusTailer {
    /// A reader that starts at the end of a file of this length.
    pub fn from_end(len: u64) -> (r: BusTailer)
        ensures
            r.offset == len,
    {
        BusTailer { offset: len }
    }

    /// Whether there is something to read in a file of this length. A file that shrank was
    /// rotated: reading starts over.
    pub fn begin(&mut self, len: u64) -> (r: bool)
        ensures
            final(self).offset == if len < old(self).offset {
                0
            } else {
                old(self).offset
            },
            r == (len > final(self).offset),
    {
        if len < self.offset {
            self.offset = 0;
        }
        len > self.offset
    }

    /// The lines that have been completed, of the bytes that stand behind the offset. A line that
    /// is not complete is read again with the next bytes.
    pub fn accept(&mut self, bytes: &Vec<u8>) -> (r: Vec<String>)
        requires
            old(self).offset + bytes@.len() <= u64::MAX,
        ensures
            final(self).offset == old(self).offset + whole_lines_len(bytes@),
            views(r@) == filled_lines(
                lossy_text(bytes@.subrange(0, whole_lines_len(bytes@) as int)),
            ),
            valid_utf8(bytes@.subrange(0, whole_lines_len(bytes@) as int)) ==> views(r@)
                == lines_in(bytes@.subrange(0, whole_lines_len(bytes@) as int)),
    {
        let n = complete_len(bytes);
        let ghost part = bytes@.subrange(0, n as int);
        self.offset = self.offset + n as u64;
        let text = from_utf8_lossy(&bytes[0..n]);
        let all = lines(text.as_str());
        let mut out: Vec<String> = Vec::new();
        let mut i: usize = 0;
        let ghost filled = |l: Seq<char>| trimmed(l).len() > 0;
        assert(views(all@).subrange(0, 0).filter(filled) =~= Seq::empty());
        while i < all.len()
            invariant
                i <= all.len(),
                filled == (|l: Seq<char>| trimmed(l).len() > 0),
                views(out@) == views(all@).subrange(0, i as int).filter(filled),
            decreases all.len() - i,
        {
            let ghost before = out@;
            let ghost l = views(all@);
            proof {
                assert(l.subrange(0, i + 1).drop_last() == l.subrange(0, i as int));
                assert(l.subrange(0, i + 1).last() == all@[i as int]@);
                reveal(Seq::filter);
            }
            if !is_blank(all[i].as_str()) {
                out.push(all[i].clone());
                assert(views(out@) == views(before).push(all@[i as int]@));
            }
            i = i + 1;
        }
        assert(views(all@).subrange(0, all@.len() as int) == views(all@));
        out
    }

    /// After a read that failed: what is there is given up.
    pub fn fail(&mut self, len: u64)
        ensures
            final(self).offset == len,
    {
        self.offset = len;
    }
}

proof fn lemma_whole_lines(bytes: Seq<u8>)
    ensures
        whole_lines_len(bytes) <= bytes.len(),
        whole_lines_len(bytes) > 0 ==> bytes[whole_lines_len(bytes) - 1] == 10,
        forall|i: int| whole_lines_len(bytes) <= i < bytes.len() ==> #[trigger] bytes[i] != 10,
    decreases bytes.len(),
{
    if bytes.len() == 0 || bytes[bytes.len() - 1] == 10 {
    } else {
        lemma_whole_lines(bytes.drop_last());
        let w = whole_lines_len(bytes);
        assert forall|i: int| w <= i < bytes.len() implies #[trigger] bytes[i] != 10 by {
            if i < bytes.len() - 1 {
                assert(bytes[i] == bytes.drop_last()[i]);
            }
        }
    }
}

proof fn lemma_whole_lines_unique(bytes: Seq<u8>, n: nat)
    requires
        n <= bytes.len(),
        n > 0 ==> bytes[n - 1] == 10,
        forall|i: int| n <= i < bytes.len() ==> #[trigger] bytes[i] != 10,
    ensures
        whole_lines_len(bytes) == n,
{
    lemma_whole_lines(bytes);
    let w = whole_lines_len(bytes);
    if w < n {
        assert(bytes[n - 1] == 10);
    } else if n < w {
        assert(bytes[w - 1] == 10);
    }
}

/// Reading a file while it grows loses nothing and reads nothing twice: what a first read takes of
/// `seen`, and a second read of the rest of it with what has been appended, is together what one
/// read of all of it would take.
pub proof fn tail_reads_are_seamless(seen: Seq<u8>, appended: Seq<u8>)
    ensures
        whole_lines_len(seen) <= seen.len(),
        whole_lines_len(seen) + whole_lines_len(
            seen.subrange(whole_lines_len(seen) as int, seen.len() as int) + appended,
        ) == whole_lines_len(seen + appended),
{
    lemma_whole_lines(seen);
    let w = whole_lines_len(seen);
    let rest = seen.subrange(w as int, seen.len() as int) + appended;
    lemma_whole_lines(rest);
    let m = whole_lines_len(rest);
    let all = seen + appended;
    assert forall|i: int| w <= i < all.len() implies all[i] == #[trigger] rest[i - w] by {}
    assert forall|i: int| w + m <= i < all.len() implies #[trigger] all[i] != 10 by {
        assert(rest[i - w] != 10);
    }
    if m > 0 {
        assert(rest[m - 1] == 10);
        assert(all[w + m - 1] == rest[m - 1]);
    } else if w > 0 {
        assert(all[w - 1] == seen[w - 1]);
    }
    lemma_whole_lines_unique(all, w + m);
}

/// Whether bytes were only appended from one look at a file to the next.
pub open spec fn only_grows(seen: Seq<Seq<u8>>) -> bool {
    forall|i: int, j: int| 0 <= i < j < seen.len() ==> (#[trigger] seen[i]).is_prefix_of(
        #[trigger] seen[j],
    )
}

/// How many bytes a reader has taken that began before the first of them, and at each look found
/// what `seen` says.
pub open spec fn taken(seen: Seq<Seq<u8>>) -> nat
    decreases seen.len(),
{
    if seen.len() == 0 {
        0
    } else {
        let before = taken(seen.drop_last());
        before + whole_lines_len(seen.last().subrange(before as int, seen.last().len() as int))
    }
}

/// The lines that the reader gave, all looks together.
pub open spec fn polled(seen: Seq<Seq<u8>>) -> Seq<Seq<char>>
    decreases seen.len(),
{
    if seen.len() == 0 {
        Seq::empty()
    } else {
        polled(seen.drop_last()) + lines_in(
            seen.last().subrange(taken(seen.drop_last()) as int, taken(seen) as int),
        )
    }
}

/// A reader that follows a file gives every line once, in order, and never a part of one: what all
/// looks together took is everything up to the last line feed, and what they gave are the lines of
/// that which are not blank. It does not matter when the bytes came, also in the middle of a line
/// or of a character: what a look takes is text by itself.
pub proof fn polls_give_every_line_once(seen: Seq<Seq<u8>>)
    requires
        seen.len() > 0,
        only_grows(seen),
        valid_utf8(seen.last().subrange(0, whole_lines_len(seen.last()) as int)),
    ensures
        taken(seen) == whole_lines_len(seen.last()),
        valid_utf8(seen.last().subrange(taken(seen.drop_last()) as int, taken(seen) as int)),
        polled(seen) == lines_in(seen.last().subrange(0, whole_lines_len(seen.last()) as int)),
    decreases seen.len(),
{
    let b = seen.last();
    let whole = whole_lines_len(b) as int;
    lemma_whole_lines(b);
    let front = seen.drop_last();
    if front.len() == 0 {
        assert(taken(front) == 0);
        assert(b.subrange(0, b.len() as int) =~= b);
        assert(polled(front) =~= Seq::empty());
        assert(polled(seen) =~= lines_in(b.subrange(0, whole)));
    } else {
        let a = front.last();
        assert(a == seen[seen.len() - 2] && b == seen[seen.len() - 1]);
        assert(a.is_prefix_of(b));
        let appended = b.subrange(a.len() as int, b.len() as int);
        assert(b =~= a + appended);
        tail_reads_are_seamless(a, appended);
        lemma_whole_lines(a);
        let w = whole_lines_len(a) as int;
        assert(b.subrange(w, b.len() as int) =~= a.subrange(w, a.len() as int) + appended);
        let all = b.subrange(0, whole);
        lemma_boundary_behind_line_feed(all, w);
        valid_utf8_split(all, w);
        decode_utf8_split(all, w);
        assert(all.subrange(0, w) =~= a.subrange(0, w));
        assert(all.subrange(w, all.len() as int) =~= b.subrange(w, whole));
        assert forall|i: int, j: int| 0 <= i < j < front.len() implies (
        #[trigger] front[i]).is_prefix_of(#[trigger] front[j]) by {
            assert(front[i] == seen[i] && front[j] == seen[j]);
        }
        polls_give_every_line_once(front);
        let x = decode_utf8(a.subrange(0, w));
        let y = decode_utf8(b.subrange(w, whole));
        if w > 0 {
            lemma_decoded_line_feed(a.subrange(0, w));
        } else {
            assert(a.subrange(0, w) =~= Seq::empty());
        }
        lemma_lines_append(x, y);
        Seq::filter_distributes_over_add(
            lines_of(x),
            lines_of(y),
            |l: Seq<char>| trimmed(l).len() > 0,
        );
    }
}

/// Where a reader that stands at `offset` looks into a file: at its head where the file shrank.
pub open spec fn looks_from(offset: nat, file: Seq<u8>) -> nat {
    if file.len() < offset {
        0
    } else {
        offset
    }
}

/// Where a reader stands after a look at a file: `begin`, and `accept` of what stands behind.
pub open spec fn stands_after(offset: nat, file: Seq<u8>) -> nat {
    let from = looks_from(offset, file);
    from + whole_lines_len(file.subrange(from as int, file.len() as int))
}

/// The lines that a look gives.
pub open spec fn look_gives(offset: nat, file: Seq<u8>) -> Seq<Seq<char>> {
    lines_in(file.subrange(looks_from(offset, file) as int, stands_after(offset, file) as int))
}

/// Where a reader stands after looks at a file, one after the other, and what they gave.
pub open spec fn looks(offset: nat, files: Seq<Seq<u8>>) -> (nat, Seq<Seq<char>>)
    decreases files.len(),
{
    if files.len() == 0 {
        (offset, Seq::empty())
    } else {
        let (at, given) = looks(offset, files.drop_last());
        (stands_after(at, files.last()), given + look_gives(at, files.last()))
    }
}

/// A reader that began at the end of a file gives what is appended to it from then on: the lines that
/// are not blank, up to the last line feed, in order and each once, never a part of one.
pub proof fn appended_lines_are_given_once(start: Seq<u8>, files: Seq<Seq<u8>>)
    requires
        files.len() > 0,
        start.is_prefix_of(files[0]),
        only_grows(files),
        ({
            let appended = files.last().subrange(start.len() as int, files.last().len() as int);
            valid_utf8(appended.subrange(0, whole_lines_len(appended) as int))
        }),
    ensures
        ({
            let appended = files.last().subrange(start.len() as int, files.last().len() as int);
            let whole = whole_lines_len(appended);
            looks(start.len(), files) == (
                start.len() + whole,
                lines_in(appended.subrange(0, whole as int)),
            )
        }),
{
    let seen = appended_to(start, files);
    lemma_looks(start, files);
    assert forall|i: int, j: int| 0 <= i < j < seen.len() implies (
    #[trigger] seen[i]).is_prefix_of(#[trigger] seen[j]) by {
        lemma_grown(start, files, i);
        assert(files[i].is_prefix_of(files[j]));
        assert(seen[j].subrange(0, seen[i].len() as int) =~= seen[i]);
    }
    polls_give_every_line_once(seen);
}

/// A file that is found shorter than what was read of it is read again from its head.
pub proof fn shrunk_files_are_read_again(offset: nat, file: Seq<u8>)
    requires
        file.len() < offset,
    ensures
        stands_after(offset, file) == stands_after(0, file),
        look_gives(offset, file) == look_gives(0, file),
{
}

spec fn appended_to(start: Seq<u8>, files: Seq<Seq<u8>>) -> Seq<Seq<u8>> {
    files.map_values(|f: Seq<u8>| f.subrange(start.len() as int, f.len() as int))
}

proof fn lemma_grown(start: Seq<u8>, files: Seq<Seq<u8>>, i: int)
    requires
        0 <= i < files.len(),
        start.is_prefix_of(files[0]),
        only_grows(files),
    ensures
        start.len() <= files[i].len(),
{
    if i > 0 {
        assert(files[0].is_prefix_of(files[i]));
    }
}

/// Looks that begin behind `start` are looks at what was appended to it.
proof fn lemma_looks(start: Seq<u8>, files: Seq<Seq<u8>>)
    requires
        files.len() > 0 ==> start.is_prefix_of(files[0]),
        only_grows(files),
    ensures
        looks(start.len(), files) == (
            start.len() + taken(appended_to(start, files)),
            polled(appended_to(start, files)),
        ),
        files.len() > 0 ==> start.len() + taken(appended_to(start, files)) <= files.last().len(),
    decreases files.len(),
{
    let seen = appended_to(start, files);
    if files.len() > 0 {
        let front = files.drop_last();
        assert forall|i: int, j: int| 0 <= i < j < front.len() implies (
        #[trigger] front[i]).is_prefix_of(#[trigger] front[j]) by {
            assert(front[i] == files[i] && front[j] == files[j]);
        }
        lemma_looks(start, front);
        assert(seen.drop_last() =~= appended_to(start, front));
        let f = files.last();
        let n = start.len() as int;
        lemma_grown(start, files, files.len() - 1);
        let t = taken(appended_to(start, front)) as int;
        if front.len() > 0 {
            assert(front.last() == files[files.len() - 2]);
            assert(files[files.len() - 2].is_prefix_of(files[files.len() - 1]));
        } else {
            assert(t == 0);
        }
        assert(n + t <= f.len());
        assert(seen.last() == f.subrange(n, f.len() as int));
        let rest = f.subrange(n + t, f.len() as int);
        assert(seen.last().subrange(t, seen.last().len() as int) =~= rest);
        lemma_whole_lines(rest);
        let u = t + whole_lines_len(rest);
        assert(taken(seen) == u);
        assert(seen.last().subrange(t, u as int) =~= f.subrange(n + t, n + u));
    }
}

/// Behind a line feed a character begins.
proof fn lemma_boundary_behind_line_feed(bytes: Seq<u8>, n: int)
    requires
        valid_utf8(bytes),
        0 <= n <= bytes.len(),
        n > 0 ==> bytes[n - 1] == 10,
    ensures
        is_char_boundary(bytes, n),
    decreases bytes.len(),
{
    if n > 0 {
        let width = length_of_first_scalar(bytes);
        let rest = pop_first_scalar(bytes);
        if n <= width {
            if n > 1 {
                assert(is_continuation_byte(bytes[n - 1]));
            } else {
                assert(is_leading_byte_width_1(bytes[0]));
                assert(width == 1);
            }
            reveal_with_fuel(is_char_boundary, 2);
        } else {
            assert(rest[n - width - 1] == bytes[n - 1]);
            lemma_boundary_behind_line_feed(rest, n - width);
        }
    }
}

/// Bytes that end with a line feed encode a text that does.
proof fn lemma_decoded_line_feed(bytes: Seq<u8>)
    requires
        valid_utf8(bytes),
        bytes.len() > 0,
        bytes.last() == 10,
    ensures
        decode_utf8(bytes).len() > 0,
        decode_utf8(bytes).last() == '\n',
{
    let n = bytes.len() - 1;
    is_char_boundary_iff_not_is_continuation_byte(bytes, n);
    valid_utf8_split(bytes, n);
    decode_utf8_split(bytes, n);
    let last = bytes.subrange(n, bytes.len() as int);
    assert(last =~= seq![10u8]);
    assert(decode_utf8(last) =~= seq!['\n']) by {
        reveal_with_fuel(decode_utf8, 2);
        assert(leading_bits_width_1(10) == 10) by (bit_vector);
        assert(pop_first_scalar(last) =~= Seq::empty());
    }
}

/// What each criterion asks for: one of the types, one of the commands, the session, a line that
/// holds the text, and a time that is not before the cutoff.
pub proof fn criteria_ask_for_what_they_name(
    f: EventFilters,
    event: Tree,
    raw: Seq<char>,
    needle: Option<Seq<char>>,
    at: Option<Moment>,
)
    ensures
        f.passes(event, raw, needle, at) ==> {
            &&& f.types@.len() > 0 && text_field(event, "type"@) is Some ==> views(
                f.types@,
            ).contains(text_field(event, "type"@)->0)
            &&& f.commands@.len() > 0 && text_field(event, "command"@) is Some ==> views(
                f.commands@,
            ).contains(text_field(event, "command"@)->0)
            &&& f.session is Some ==> text_field(event, "session_id"@) == Some((f.session->0)@)
            &&& needle is Some ==> contains(raw, needle->0)
            &&& f.since is Some ==> at is Some && !at->0.is_before(f.since->0)
        },
        f.types@.len() == 0 && f.commands@.len() == 0 && f.session is None && needle is None
            && f.since is None ==> f.passes(event, raw, needle, at),
        f.types@.len() > 0 && text_field(event, "type"@) is Some && views(f.types@).contains(
            text_field(event, "type"@)->0,
        ) && f.commands@.len() == 0 && f.session is None && needle is None && f.since is None
            ==> f.passes(event, raw, needle, at),
        f.types@.len() == 0 && f.commands@.len() > 0 && text_field(event, "command"@) is Some
            && views(f.commands@).contains(text_field(event, "command"@)->0) && f.session is None
            && needle is None && f.since is None ==> f.passes(event, raw, needle, at),
        f.types@.len() == 0 && f.commands@.len() == 0 && f.session is Some && text_field(
            event,
            "session_id"@,
        ) == Some((f.session->0)@) && needle is None && f.since is None ==> f.passes(
            event,
            raw,
            needle,
            at,
        ),
{
}

/// Whole lines end in the last line feed: none stands behind them.
pub proof fn whole_lines_end_at_the_last_feed(bytes: Seq<u8>)
    ensures
        whole_lines_len(bytes) <= bytes.len(),
        whole_lines_len(bytes) > 0 ==> bytes[whole_lines_len(bytes) - 1] == 10,
        forall|i: int| whole_lines_len(bytes) <= i < bytes.len() ==> #[trigger] bytes[i] != 10,
    decreases bytes.len(),
{
    if bytes.len() > 0 && bytes[bytes.len() - 1] != 10 {
        whole_lines_end_at_the_last_feed(bytes.drop_last());
        assert forall|i: int| whole_lines_len(bytes) <= i < bytes.len() implies #[trigger] bytes[i]
            != 10 by {
            if i < bytes.len() - 1 {
                assert(bytes.drop_last()[i] == bytes[i]);
            }
        }
    }
}

/// The lines of two texts, the first of which ends in a line feed, are those of the first and those of
/// the second; a line that is blank is passed over, and every other is taken as it is.
pub proof fn lines_are_taken_unless_blank(a: Seq<char>, b: Seq<char>, line: Seq<char>)
    requires
        a.len() > 0,
        a.last() == '\n',
        !line.contains('\n'),
    ensures
        filled_lines(a + b) == filled_lines(a) + filled_lines(b),
        trimmed(line).len() == 0 ==> filled_lines(line).len() == 0,
        trimmed(line).len() > 0 ==> filled_lines(line) == seq![line],
{
    let pred = |l: Seq<char>| trimmed(l).len() > 0;
    lemma_lines_append(a, b);
    Seq::filter_distributes_over_add(lines_of(a), lines_of(b), pred);
    lemma_single_line(line);
    reveal(Seq::filter);
    if line.len() > 0 {
        let none = Seq::<Seq<char>>::empty();
        assert(seq![line].drop_last() =~= none);
        assert(seq![line].last() == line);
        assert(none.filter(pred) =~= none);
        if pred(line) {
            assert(seq![line].filter(pred) =~= seq![line]);
        } else {
            assert(seq![line].filter(pred) =~= Seq::empty());
        }
    } else {
        lemma_trimmed_shape(line);
        assert(lines_of(line).filter(pred) =~= Seq::empty());
    }
}

/// A reader goes on where it stood, up to the last line feed; a file that is shorter than that is read
/// from its head.
pub proof fn readers_go_on_where_they_stood(offset: nat, file: Seq<u8>, whole: Seq<u8>, rest: Seq<u8>)
    requires
        !rest.contains(10u8),
    ensures
        file.len() < offset ==> look_gives(offset, file) == look_gives(0, file) && stands_after(
            offset,
            file,
        ) == stands_after(0, file),
        offset == file.len() ==> stands_after(offset, file + whole.push(10u8) + rest) == file.len()
            + whole.len() + 1,
        offset == file.len() ==> look_gives(offset, file + whole.push(10u8) + rest) == lines_in(
            whole.push(10u8),
        ),
        offset == file.len() ==> stands_after(offset, file + rest) == offset,
{
    let more = whole.push(10u8) + rest;
    whole_lines_end_at_the_last_feed(more);
    whole_lines_end_at_the_last_feed(rest);
    assert(more[whole.len() as int] == 10u8);
    let n = whole_lines_len(more);
    if n > whole.len() + 1 {
        assert(rest[n - 2 - whole.len()] == more[n - 1]);
        assert(rest.contains(10u8));
    }
    if whole_lines_len(rest) > 0 {
        assert(rest.contains(rest[whole_lines_len(rest) - 1]));
    }
    let all = file + whole.push(10u8) + rest;
    if offset == file.len() {
        assert(all.subrange(offset as int, all.len() as int) =~= whole.push(10u8) + rest);
        assert(all.subrange(offset as int, offset + whole.len() + 1int) =~= whole.push(10u8));
        assert((file + rest).subrange(offset as int, (file + rest).len() as int) =~= rest);
    }
}

/// Words are looked for in the whole line, in small letters, and times are those that the events state.
pub proof fn events_are_looked_through(f: EventFilters, event: Tree, raw: Seq<char>, ts: Seq<char>)
    requires
        f.types@.len() == 0,
        f.commands@.len() == 0,
        f.session is None,
    ensures
        f.since is None ==> (f.grep matches Some(n) ==> (f.lets_through(event, raw) <==> contains(
            lowercase(raw),
            lowercase(n@),
        ))),
        f.grep is None && text_field(event, "ts"@) == Some(ts) ==> (f.since matches Some(cutoff)
            ==> (f.lets_through(event, raw) <==> (moment_of(rfc3339_instant(ts)) matches Some(at)
            && !at.is_before(cutoff)))),
        text_field(event, "ts"@) is None && f.since is Some ==> !f.lets_through(event, raw),
{
}

} // verus!
