//! Past sessions: what is read back of them, and how they are listed and found.

use vstd::prelude::*;

use crate::config::{clamped, env_u64};
use crate::daemon::byte_len;
use crate::error::{app_error, AppError};
use crate::images::{image_names, images_among};
use crate::json::{
    comes_before, count_tree, field, item_views, key_order_is_irreflexive, key_order_is_total,
    key_order_is_transitive, lemma_tree, object_of, opt_view, pairs_read_back, precedes, text_field,
    Json, Number, NumberView, Pairs, Tree,
};
use crate::measure::Measure;
use crate::models::{clip_views, opt_number, shot_views, ClipView, SessionListRow, ShotView};
use crate::note::{
    NoteInput, all_metadata, block, clip_footnote, clip_text_line, duration_lines, file_lines,
    head_lines, hms, note_lines, section, shot_footnote, shot_path_line, status_lines,
    transcript_line, transcript_lines, two_digit_text, two_digits,
};
use crate::number::{
    decimal, decimal_reads_back, decimal_text, pad_left, pad_right, padded_left, padded_right,
    parse_bounded, parsed_unsigned, repeat, repeated, unsigned_digits,
};
use crate::paths::{join_path, joined_path};
use crate::pattern::{
    contains, contains_text, find, find_chars, join, joined, lemma_blank_lines, lemma_blank_words,
    lemma_contains_around, lemma_contains_itself, lemma_find_from, lemma_joined_words,
    lemma_line_end, lemma_lines_append, lemma_single_line, lemma_words_append, lines, lines_from,
    lines_of, occurs_at, starts_with, views, without_cr, words, words_of, Lines,
};
use crate::text::{
    ascii_lower, chars_of, concat, concat3, is_blank, is_digit, is_letter, is_space,
    lemma_trimmed_end, lemma_trimmed_keeps, lemma_trimmed_shape, lemma_trimmed_start, same,
    string_of, to_ascii_lower, trim, trim_is_idempotent, trim_start, trimmed, trimmed_end,
    trimmed_start,
};
use crate::watch::text_or;
use crate::wire::{read_json, text_read};

verus! {

/// The values that lines hold, one in each. A line that holds none is passed over.
pub open spec fn values_read(lines: Seq<Seq<char>>) -> Seq<Tree>
    decreases lines.len(),
{
    if lines.len() == 0 {
        Seq::empty()
    } else {
        let before = values_read(lines.drop_last());
        match text_read(lines.last()) {
            Ok(t) => before.push(t),
            Err(_) => before,
        }
    }
}

/// The values that the lines of a text hold, one in each. A line that holds none, such as one that
/// was not written to its end, is passed over.
pub fn read_jsonl_values(text: &str) -> (r: Vec<Json>)
    ensures
        item_views(r@) == values_read(lines_of(text@)),
{
    let all = lines(text);
    let ghost texts = lines_of(text@);
    let mut out: Vec<Json> = Vec::new();
    let mut i: usize = 0;
    assert(item_views(out@) =~= values_read(texts.subrange(0, 0)));
    while i < all.len()
        invariant
            i <= all.len(),
            texts == views(all@),
            item_views(out@) == values_read(texts.subrange(0, i as int)),
        decreases all.len() - i,
    {
        let ghost before = out@;
        proof {
            assert(texts.subrange(0, i + 1).drop_last() == texts.subrange(0, i as int));
            assert(texts.subrange(0, i + 1).last() == all@[i as int]@);
        }
        if let Ok(value) = read_json(all[i].as_str()) {
            let ghost t = value@;
            out.push(value);
            assert(item_views(out@) == item_views(before).push(t));
        }
        i = i + 1;
    }
    assert(texts.subrange(0, texts.len() as int) == texts);
    out
}

/// What is added to a log leaves what was read from it before, and comes after it.
pub proof fn logs_only_grow(earlier: Seq<Seq<char>>, later: Seq<Seq<char>>)
    ensures
        values_read(earlier + later) == values_read(earlier) + values_read(later),
    decreases later.len(),
{
    if later.len() == 0 {
        assert(earlier + later == earlier);
    } else {
        logs_only_grow(earlier, later.drop_last());
        assert((earlier + later).drop_last() == earlier + later.drop_last());
        assert((earlier + later).last() == later.last());
    }
}

// ---------------------------------------------------------------------------------------------
// Events of a session
// ---------------------------------------------------------------------------------------------

/// Whether an event is of this type.
pub open spec fn is_type(event: Tree, kind: Seq<char>) -> bool {
    text_field(event, "type"@) == Some(kind)
}

/// Whether an event is of this type.
pub fn has_type(event: &Json, kind: &str) -> (r: bool)
    ensures
        r == is_type(event@, kind@),
{
    match event.get_text("type") {
        Some(t) => same(t.as_str(), kind),
        None => false,
    }
}

/// The first event of a type, from `i` on.
pub open spec fn first_of_type(events: Seq<Tree>, kind: Seq<char>, i: int) -> Option<int>
    decreases events.len() - i,
{
    if i < 0 || i >= events.len() {
        None
    } else if is_type(events[i], kind) {
        Some(i)
    } else {
        first_of_type(events, kind, i + 1)
    }
}

/// The last event of a type, among the first `n`.
pub open spec fn last_of_type(events: Seq<Tree>, kind: Seq<char>, n: int) -> Option<int>
    decreases n,
{
    if n <= 0 {
        None
    } else if is_type(events[n - 1], kind) {
        Some(n - 1)
    } else {
        last_of_type(events, kind, n - 1)
    }
}

/// The first event of a type.
fn find_first(events: &Vec<Json>, kind: &str) -> (r: Option<usize>)
    ensures
        r matches Some(i) ==> i < events@.len() && first_of_type(item_views(events@), kind@, 0)
            == Some(i as int),
        r is None ==> first_of_type(item_views(events@), kind@, 0) is None,
{
    let ghost all = item_views(events@);
    let mut i: usize = 0;
    while i < events.len()
        invariant
            i <= events.len(),
            all == item_views(events@),
            first_of_type(all, kind@, 0) == first_of_type(all, kind@, i as int),
        decreases events.len() - i,
    {
        assert(all[i as int] == events@[i as int]@);
        if has_type(&events[i], kind) {
            return Some(i);
        }
        i = i + 1;
    }
    None
}

/// The last event of a type.
fn find_last(events: &Vec<Json>, kind: &str) -> (r: Option<usize>)
    ensures
        r matches Some(i) ==> i < events@.len() && last_of_type(
            item_views(events@),
            kind@,
            events@.len() as int,
        ) == Some(i as int),
        r is None ==> last_of_type(item_views(events@), kind@, events@.len() as int) is None,
{
    let ghost all = item_views(events@);
    let mut n: usize = events.len();
    while n > 0
        invariant
            n <= events.len(),
            all == item_views(events@),
            last_of_type(all, kind@, events@.len() as int) == last_of_type(all, kind@, n as int),
        decreases n,
    {
        assert(all[n - 1] == events@[n - 1]@);
        if has_type(&events[n - 1], kind) {
            return Some(n - 1);
        }
        n = n - 1;
    }
    None
}

/// When a session started, by its events.
pub open spec fn started_of(events: Seq<Tree>) -> Option<Seq<char>> {
    match first_of_type(events, "session_started"@, 0) {
        Some(i) => text_field(events[i], "ts"@),
        None => None,
    }
}

/// When a session ended, by its events.
pub open spec fn ended_of(events: Seq<Tree>) -> Option<Seq<char>> {
    match last_of_type(events, "session_stopped"@, events.len() as int) {
        Some(i) => text_field(events[i], "ts"@),
        None => None,
    }
}

/// What is kept of the transcription of a session: that its status is unknown where nothing is.
pub open spec fn transcription_of(events: Seq<Tree>) -> Tree {
    let kept = match last_of_type(events, "session_stopped"@, events.len() as int) {
        Some(i) => field(events[i], "transcription"@),
        None => None,
    };
    match kept {
        Some(t) => t,
        None => Tree::Object(object_of(seq![("status"@, Tree::Text("unknown"@))])),
    }
}

/// The number in a field, where there is one.
pub open spec fn number_field(t: Tree, key: Seq<char>) -> Option<NumberView> {
    match field(t, key) {
        Some(Tree::Number(n)) => Some(n),
        _ => None,
    }
}

/// The duration that the last of the first `n` events recorded at a stop.
pub open spec fn duration_of(events: Seq<Tree>, n: int) -> Option<NumberView>
    decreases n,
{
    if n <= 0 {
        None
    } else if is_type(events[n - 1], "session_stopped"@) && number_field(
        events[n - 1],
        "audio_duration_sec"@,
    ) is Some {
        number_field(events[n - 1], "audio_duration_sec"@)
    } else {
        duration_of(events, n - 1)
    }
}

/// When a session started, by its events.
pub fn session_started_iso(events: &Vec<Json>) -> (r: Option<String>)
    ensures
        opt_view(r) == started_of(item_views(events@)),
{
    match find_first(events, "session_started") {
        Some(i) => match events[i].get_text("ts") {
            Some(s) => Some(s.clone()),
            None => None,
        },
        None => None,
    }
}

/// When a session ended, by its events.
pub fn session_ended_iso(events: &Vec<Json>) -> (r: Option<String>)
    ensures
        opt_view(r) == ended_of(item_views(events@)),
{
    match find_last(events, "session_stopped") {
        Some(i) => match events[i].get_text("ts") {
            Some(s) => Some(s.clone()),
            None => None,
        },
        None => None,
    }
}

/// What is kept of the transcription of a session.
pub fn transcription_meta_from_events(events: &Vec<Json>) -> (r: Json)
    ensures
        r@ == transcription_of(item_views(events@)),
{
    if let Some(i) = find_last(events, "session_stopped") {
        if let Some(t) = events[i].get("transcription") {
            return t.copy();
        }
    }
    let mut p = Pairs::new();
    p.text("status", "unknown");
    assert(p@ == seq![("status"@, Tree::Text("unknown"@))]);
    p.object()
}

/// The number in a field, where there is one.
pub fn get_number(t: &Json, key: &str) -> (r: Option<Number>)
    ensures
        opt_number(r) == number_field(t@, key@),
{
    match t.get(key) {
        Some(Json::Number(n)) => Some(n.copy()),
        _ => None,
    }
}

/// The duration of a session that was recorded when it stopped. Where none was, the recording
/// itself has to be looked at.
pub fn recorded_duration(events: &Vec<Json>) -> (r: Option<Number>)
    ensures
        opt_number(r) == duration_of(item_views(events@), events@.len() as int),
{
    let ghost all = item_views(events@);
    let mut n: usize = events.len();
    while n > 0
        invariant
            n <= events.len(),
            all == item_views(events@),
            duration_of(all, events@.len() as int) == duration_of(all, n as int),
        decreases n,
    {
        assert(all[n - 1] == events@[n - 1]@);
        if has_type(&events[n - 1], "session_stopped") {
            if let Some(d) = get_number(&events[n - 1], "audio_duration_sec") {
                return Some(d);
            }
        }
        n = n - 1;
    }
    None
}

/// How many of the files of a session are images.
pub fn count_session_images(files: &Vec<String>) -> (r: usize)
    ensures
        r == images_among(views(files@), files@.len() as int).len(),
{
    let images = image_names(files);
    assert(views(images@).len() == images@.len());
    images.len()
}

// ---------------------------------------------------------------------------------------------
// Transcripts
// ---------------------------------------------------------------------------------------------

/// The transcript in a note: its section, where that is not blank.
pub open spec fn note_transcript(note: Seq<char>) -> Option<Seq<char>> {
    match find(note, "## Transcript"@) {
        Some(i) => {
            let after = trimmed_start(
                note.subrange(i + "## Transcript"@.len(), note.len() as int),
            );
            let section = match find(after, "\n## "@) {
                Some(j) => after.subrange(0, j),
                None => after,
            };
            if trimmed(section).len() == 0 {
                None
            } else {
                Some(trimmed(section))
            }
        },
        None => None,
    }
}

/// The transcript in a note: its section, where that is not blank.
pub fn extract_transcript_from_note(note_markdown: &str) -> (r: Option<String>)
    ensures
        opt_view(r) == note_transcript(note_markdown@),
{
    let note = chars_of(note_markdown);
    let marker = chars_of("## Transcript");
    let n: usize = note.len();
    let start: usize = match find_chars(&note, &marker, 0) {
        Some(i) => i + marker.len(),
        None => {
            return None;
        },
    };
    let after_text = trim_start(string_of(&note, start, n).as_str());
    let after = chars_of(after_text.as_str());
    let heading = chars_of("\n## ");
    let section = match find_chars(&after, &heading, 0) {
        Some(j) => trim(string_of(&after, 0, j).as_str()),
        None => trim(after_text.as_str()),
    };
    if section.as_str().is_empty() {
        None
    } else {
        Some(section)
    }
}

proof fn lemma_first_char(s: Seq<char>) -> (k: int)
    ensures
        0 <= k <= s.len(),
        forall|i: int| 0 <= i < k ==> is_space(#[trigger] s[i]),
        k < s.len() ==> !is_space(s[k]),
        trimmed_start(s) == s.subrange(k, s.len() as int),
    decreases s.len(),
{
    if s.len() > 0 && is_space(s[0]) {
        let t = s.subrange(1, s.len() as int);
        let k = lemma_first_char(t);
        assert forall|i: int| 0 <= i < k + 1 implies is_space(#[trigger] s[i]) by {
            if i > 0 {
                assert(s[i] == t[i - 1]);
            }
        }
        assert(t.subrange(k, t.len() as int) =~= s.subrange(k + 1, s.len() as int));
        k + 1
    } else {
        assert(s.subrange(0, s.len() as int) =~= s);
        0
    }
}

proof fn lemma_last_char(s: Seq<char>) -> (k: int)
    ensures
        0 <= k <= s.len(),
        forall|i: int| k <= i < s.len() ==> is_space(#[trigger] s[i]),
        k > 0 ==> !is_space(s[k - 1]),
        trimmed_end(s) == s.subrange(0, k),
    decreases s.len(),
{
    if s.len() > 0 && is_space(s[s.len() - 1]) {
        let t = s.subrange(0, s.len() - 1);
        let k = lemma_last_char(t);
        assert forall|i: int| k <= i < s.len() implies is_space(#[trigger] s[i]) by {
            if i < t.len() {
                assert(s[i] == t[i]);
            }
        }
        assert(t.subrange(0, k) =~= s.subrange(0, k));
        k
    } else {
        assert(s.subrange(0, s.len() as int) =~= s);
        s.len() as int
    }
}

/// The text that stands under the heading of the transcript reads back, without the white space
/// around it, where the heading does not stand in front of it as well and the text holds no other
/// heading.
pub proof fn transcript_section_reads_back(head: Seq<char>, body: Seq<char>, rest: Seq<char>)
    requires
        !contains(head, "## Transcript"@),
        !contains(body, "\n## "@),
        trimmed(body).len() > 0,
    ensures
        note_transcript(head + "\n\n## Transcript\n\n"@ + body + "\n\n## "@ + rest) == Some(
            trimmed(body),
        ),
{
    reveal_strlit("## Transcript");
    reveal_strlit("\n## ");
    reveal_strlit("\n\n## Transcript\n\n");
    reveal_strlit("\n\n## ");
    let mark = "## Transcript"@;
    let note = head + "\n\n## Transcript\n\n"@ + body + "\n\n## "@ + rest;
    let at: int = head.len() as int + 2;
    assert(note.subrange(at, at + mark.len()) =~= mark);
    assert(occurs_at(note, mark, at));
    assert forall|j: int| 0 <= j < at implies !#[trigger] occurs_at(note, mark, j) by {
        if occurs_at(note, mark, j) {
            if j + mark.len() <= head.len() {
                assert(head.subrange(j, j + mark.len()) =~= note.subrange(j, j + mark.len()));
                assert(occurs_at(head, mark, j));
            } else {
                let p = if j <= head.len() {
                    head.len() as int
                } else {
                    j
                };
                assert(note[p] == '\n');
                assert(note.subrange(j, j + mark.len())[p - j] == note[p]);
                assert(mark[p - j] != '\n');
            }
        }
    }
    lemma_find_from(note, mark, 0);
    assert(find(note, mark) == Some(at));
    let raw = note.subrange(at + mark.len(), note.len() as int);
    let lead = lemma_first_char(body);
    let b = body.subrange(lead, body.len() as int);
    assert(b == trimmed_start(body));
    let last = lemma_last_char(b);
    assert(lead < body.len());
    assert(raw =~= seq!['\n', '\n'] + body + "\n\n## "@ + rest);
    assert forall|i: int| 0 <= i < 2 + lead implies is_space(#[trigger] raw[i]) by {
        if i >= 2 {
            assert(raw[i] == body[i - 2]);
        }
    }
    assert(raw[2 + lead] == body[lead]);
    lemma_trimmed_start(raw, 2 + lead);
    let after = trimmed_start(raw);
    assert(after =~= b + "\n\n## "@ + rest);
    let stop = "\n## "@;
    let end: int = b.len() as int + 1;
    assert(after.subrange(end, end + stop.len()) =~= stop);
    assert(occurs_at(after, stop, end));
    assert forall|j: int| 0 <= j < end implies !#[trigger] occurs_at(after, stop, j) by {
        if occurs_at(after, stop, j) {
            let here = after.subrange(j, j + stop.len());
            if j + stop.len() <= b.len() {
                assert(body.subrange(j + lead, j + lead + stop.len()) =~= here);
                assert(occurs_at(body, stop, j + lead));
            } else if j == b.len() {
                assert(here[1] == after[j + 1]);
            } else {
                assert(here[b.len() - j] == after[b.len() as int]);
                assert(after[b.len() as int] == '\n');
                assert(stop[b.len() - j] != '\n');
            }
        }
    }
    lemma_find_from(after, stop, 0);
    assert(find(after, stop) == Some(end));
    let section = after.subrange(0, end);
    assert(section =~= b.push('\n'));
    lemma_trimmed_start(section, 0);
    assert(section.subrange(0, section.len() as int) =~= section);
    assert forall|i: int| last <= i < section.len() implies is_space(#[trigger] section[i]) by {
        if i < b.len() {
            assert(section[i] == b[i]);
        }
    }
    lemma_trimmed_end(section, last);
    assert(section.subrange(0, last) =~= b.subrange(0, last));
}

proof fn lemma_joined_parts(a: Seq<Seq<char>>, b: Seq<Seq<char>>, sep: Seq<char>)
    requires
        a.len() > 0,
        b.len() > 0,
    ensures
        joined(a + b, sep) == joined(a, sep) + sep + joined(b, sep),
    decreases b.len(),
{
    if b.len() == 1 {
        assert((a + b).drop_last() =~= a);
    } else {
        assert((a + b).drop_last() =~= a + b.drop_last());
        lemma_joined_parts(a, b.drop_last(), sep);
        assert(joined(a + b, sep) =~= joined(a, sep) + sep + (joined(b.drop_last(), sep) + sep
            + b.last()));
    }
}

/// What stands in a note in front of its transcript.
pub open spec fn note_head(n: NoteInput) -> Seq<char> {
    joined(head_lines(n) + duration_lines(n) + status_lines(n.transcription@), "\n"@)
}

/// The lines that stand in a note under the heading of the transcript: where the screenshots lie,
/// what the clipboard held, and what was said.
pub open spec fn body_lines(n: NoteInput) -> Seq<Seq<char>> {
    block(shot_views(n.shots@).map_values(|s: ShotView| shot_path_line(n.state.session_dir@, s)))
        + block(clip_views(n.clips@).map_values(|c: ClipView| clip_text_line(c))) + seq![
        transcript_line(n.transcript@),
    ]
}

/// What stands in a note under the heading of the transcript.
pub open spec fn note_body(n: NoteInput) -> Seq<char> {
    joined(body_lines(n), "\n"@)
}

/// The lines that stand in a note behind its transcript.
pub open spec fn tail_lines(n: NoteInput) -> Seq<Seq<char>> {
    section(
        "## Screenshot Footnotes"@,
        shot_views(n.shots@).map_values(|s: ShotView| shot_footnote(s)),
    ) + section(
        "## Screenshot Metadata"@,
        all_metadata(shot_views(n.shots@), n.shots@.len() as int),
    ) + section(
        "## Clipboard Footnotes"@,
        clip_views(n.clips@).map_values(|c: ClipView| clip_footnote(c)),
    ) + file_lines()
}

proof fn lemma_tail_opens_with_heading(n: NoteInput)
    ensures
        joined(tail_lines(n), "\n"@).len() >= 3,
        joined(tail_lines(n), "\n"@).subrange(0, 3) == "## "@,
{
    reveal_strlit("## ");
    reveal_strlit("## Screenshot Footnotes");
    reveal_strlit("## Screenshot Metadata");
    reveal_strlit("## Clipboard Footnotes");
    reveal_strlit("## Files");
    let t = tail_lines(n);
    let a = section(
        "## Screenshot Footnotes"@,
        shot_views(n.shots@).map_values(|s: ShotView| shot_footnote(s)),
    );
    let b = section(
        "## Screenshot Metadata"@,
        all_metadata(shot_views(n.shots@), n.shots@.len() as int),
    );
    let c = section(
        "## Clipboard Footnotes"@,
        clip_views(n.clips@).map_values(|c: ClipView| clip_footnote(c)),
    );
    assert(t == a + b + c + file_lines());
    assert(t[0] == if a.len() > 0 {
        a[0]
    } else if b.len() > 0 {
        b[0]
    } else if c.len() > 0 {
        c[0]
    } else {
        file_lines()[0]
    });
    assert(t[0].len() >= 3 && t[0].subrange(0, 3) =~= "## "@);
    let first = seq![t[0]];
    let others = t.subrange(1, t.len() as int);
    assert(t =~= first + others);
    assert(others.len() > 0);
    lemma_joined_parts(first, others, "\n"@);
    assert(joined(t, "\n"@).subrange(0, 3) =~= t[0].subrange(0, 3));
}

proof fn lemma_note_is_laid_out(n: NoteInput)
    ensures
        note_lines(n) == (head_lines(n) + duration_lines(n) + status_lines(n.transcription@)) + (seq![
            Seq::empty(),
            "## Transcript"@,
            Seq::empty(),
        ] + (body_lines(n) + (seq![Seq::<char>::empty()] + tail_lines(n)))),
{
    let h = head_lines(n) + duration_lines(n) + status_lines(n.transcription@);
    let m = seq![Seq::empty(), "## Transcript"@, Seq::empty()];
    let blank = seq![Seq::<char>::empty()];
    assert(transcript_lines(n) =~= m + body_lines(n) + blank);
    assert(note_lines(n) =~= h + transcript_lines(n) + tail_lines(n));
    assert(h + (m + body_lines(n) + blank) + tail_lines(n) =~= h + (m + (body_lines(n) + (blank
        + tail_lines(n)))));
}

proof fn lemma_text_around(h: Seq<Seq<char>>, body: Seq<Seq<char>>, tail: Seq<Seq<char>>)
    requires
        h.len() > 0,
        body.len() > 0,
        tail.len() > 0,
    ensures
        joined(
            h + (seq![Seq::empty(), "## Transcript"@, Seq::empty()] + (body + (seq![
                Seq::<char>::empty(),
            ] + tail))),
            "\n"@,
        ) == joined(h, "\n"@) + "\n\n## Transcript\n\n"@ + joined(body, "\n"@) + "\n\n"@ + joined(
            tail,
            "\n"@,
        ),
{
    reveal_strlit("\n");
    reveal_strlit("\n\n");
    reveal_strlit("\n\n## Transcript\n\n");
    reveal_strlit("## Transcript");
    let sep = "\n"@;
    let m = seq![Seq::empty(), "## Transcript"@, Seq::empty()];
    let blank = seq![Seq::<char>::empty()];
    lemma_joined_parts(h, m + (body + (blank + tail)), sep);
    lemma_joined_parts(m, body + (blank + tail), sep);
    lemma_joined_parts(body, blank + tail, sep);
    lemma_joined_parts(blank, tail, sep);
    let two = m.drop_last();
    assert(two =~= seq![Seq::empty(), "## Transcript"@]);
    assert(two.drop_last() =~= blank);
    assert(joined(two, sep) =~= sep + "## Transcript"@);
    assert(joined(m, sep) =~= sep + "## Transcript"@ + sep);
    let (jh, jb, jt) = (joined(h, sep), joined(body, sep), joined(tail, sep));
    assert(jh + sep + (sep + "## Transcript"@ + sep + sep + (jb + sep + (Seq::<char>::empty() + sep
        + jt))) =~= jh + "\n\n## Transcript\n\n"@ + jb + "\n\n"@ + jt);
}

/// Whether nothing that is put into the head of a note holds the heading of the transcript: neither
/// the session's id, its times and its directory, nor what is said of the transcription.
pub open spec fn head_lacks_heading(n: NoteInput) -> bool {
    let heading = "## Transcript"@;
    &&& !contains(n.state.session_id@, heading)
    &&& !contains(n.state.started_at_iso@, heading)
    &&& !contains(n.ended_iso@, heading)
    &&& !contains(n.state.screenshot_source_dir@, heading)
    &&& (text_field(n.transcription@, "status"@) matches Some(t) ==> !contains(t, heading))
    &&& (text_field(n.transcription@, "method"@) matches Some(t) ==> !contains(t, heading))
}

/// What was said is read back from a note, without the white space around it: where no other text
/// that the note is made from holds the heading of the transcript, and it holds no heading itself.
pub proof fn notes_give_what_was_said_back(n: NoteInput)
    requires
        n.shots@.len() == 0,
        n.clips@.len() == 0,
        trimmed(n.transcript@).len() > 0,
        !contains(trimmed(n.transcript@), "\n## "@),
        head_lacks_heading(n),
    ensures
        note_transcript(joined(note_lines(n), "\n"@)) == Some(trimmed(n.transcript@)),
{
    assert(body_lines(n) =~= seq![transcript_line(n.transcript@)]);
    notes_give_their_transcript_back(n);
}

/// The transcript in a note is what was written there, without the white space around it: where no
/// text in front of it holds its heading, and it holds no heading itself. Where a session has
/// neither screenshots nor clipboard texts, that is what was said.
pub proof fn notes_give_their_transcript_back(n: NoteInput)
    requires
        head_lacks_heading(n),
        !contains(note_body(n), "\n## "@),
    ensures
        note_transcript(joined(note_lines(n), "\n"@)) == Some(trimmed(note_body(n))),
        n.shots@.len() == 0 && n.clips@.len() == 0 ==> note_transcript(
            joined(note_lines(n), "\n"@),
        ) == Some(transcript_line(n.transcript@)),
{
    lemma_head_lacks_heading(n);
    let h = head_lines(n) + duration_lines(n) + status_lines(n.transcription@);
    lemma_note_is_laid_out(n);
    lemma_text_around(h, body_lines(n), tail_lines(n));
    lemma_tail_opens_with_heading(n);
    let tailed = joined(tail_lines(n), "\n"@);
    let rest = tailed.subrange(3, tailed.len() as int);
    let whole = joined(note_lines(n), "\n"@);
    let front = note_head(n) + "\n\n## Transcript\n\n"@ + note_body(n);
    assert(whole == front + "\n\n"@ + tailed);
    assert(whole == front + "\n\n## "@ + rest) by {
        reveal_strlit("## ");
        reveal_strlit("\n\n");
        reveal_strlit("\n\n## ");
        assert(tailed =~= "## "@ + rest);
        assert(front + "\n\n"@ + ("## "@ + rest) =~= front + "\n\n## "@ + rest);
    }
    lemma_body_is_filled(n);
    transcript_section_reads_back(note_head(n), note_body(n), rest);
    if n.shots@.len() == 0 && n.clips@.len() == 0 {
        assert(body_lines(n) =~= seq![transcript_line(n.transcript@)]);
        lemma_line_is_trimmed(n.transcript@);
    }
}

/// Whether every number sign in a text is followed by something else in it.
spec fn opens_no_heading(s: Seq<char>) -> bool {
    forall|k: int| 0 <= k < s.len() && #[trigger] s[k] == '#' ==> k + 1 < s.len() && s[k + 1] != '#'
}

/// A line does not hold the heading of the transcript where what is put into it does not.
proof fn lemma_line_lacks_heading(label: Seq<char>, text: Seq<char>)
    requires
        opens_no_heading(label),
        !contains(text, "## Transcript"@),
    ensures
        !contains(label + text, "## Transcript"@),
        !contains(label + text + "`"@, "## Transcript"@),
{
    reveal_strlit("## Transcript");
    reveal_strlit("`");
    let heading = "## Transcript"@;
    let n = label.len() as int;
    let m = n + text.len();
    let line = label + text + "`"@;
    assert forall|j: int| !#[trigger] occurs_at(line, heading, j) by {
        if occurs_at(line, heading, j) {
            let here = line.subrange(j, j + heading.len());
            if j < n {
                assert(here[0] == label[j]);
                assert(here[1] == line[j + 1]);
                assert(line[j + 1] == label[j + 1]);
            } else if j + heading.len() <= m {
                assert(text.subrange(j - n, j - n + heading.len()) =~= here);
                assert(occurs_at(text, heading, j - n));
            } else {
                assert(here[12] == line[m]);
                assert(here[12] == 't');
            }
        }
    }
    assert forall|j: int| !#[trigger] occurs_at(label + text, heading, j) by {
        if occurs_at(label + text, heading, j) {
            assert(line.subrange(j, j + heading.len()) =~= (label + text).subrange(
                j,
                j + heading.len(),
            ));
            assert(occurs_at(line, heading, j));
        }
    }
}

/// Joined lines do not hold a heading that none of them holds.
proof fn lemma_joined_lacks_heading(lines: Seq<Seq<char>>)
    requires
        forall|i: int|
            0 <= i < lines.len() ==> !contains(#[trigger] lines[i], "## Transcript"@),
    ensures
        !contains(joined(lines, "\n"@), "## Transcript"@),
    decreases lines.len(),
{
    reveal_strlit("## Transcript");
    reveal_strlit("\n");
    let heading = "## Transcript"@;
    let all = joined(lines, "\n"@);
    if lines.len() > 1 {
        let front = lines.drop_last();
        assert forall|i: int| 0 <= i < front.len() implies !contains(
            #[trigger] front[i],
            heading,
        ) by {
            assert(front[i] == lines[i]);
        }
        lemma_joined_lacks_heading(front);
        let a = joined(front, "\n"@);
        let b = lines.last();
        assert(!contains(lines[lines.len() - 1], heading));
        let n = a.len() as int;
        assert forall|j: int| !#[trigger] occurs_at(all, heading, j) by {
            if occurs_at(all, heading, j) {
                let here = all.subrange(j, j + heading.len());
                if j + heading.len() <= n {
                    assert(a.subrange(j, j + heading.len()) =~= here);
                    assert(occurs_at(a, heading, j));
                } else if j > n {
                    assert(b.subrange(j - n - 1, j - n - 1 + heading.len()) =~= here);
                    assert(occurs_at(b, heading, j - n - 1));
                } else {
                    lemma_heading_has_no_line_feed(n - j);
                    assert(here[n - j] == all[n]);
                }
            }
        }
    } else if lines.len() == 0 {
        assert forall|j: int| !#[trigger] occurs_at(all, heading, j) by {}
    }
}

proof fn lemma_heading_has_no_line_feed(k: int)
    requires
        0 <= k < "## Transcript"@.len(),
    ensures
        "## Transcript"@[k] != '\n',
{
    reveal_strlit("## Transcript");
    assert(k == 0 || k == 1 || k == 2 || k == 3 || k == 4 || k == 5 || k == 6
        || k == 7 || k == 8 || k == 9 || k == 10 || k == 11 || k == 12);
}

/// A text without a number sign holds no heading.
proof fn lemma_no_sign_no_heading(s: Seq<char>)
    requires
        !s.contains('#'),
    ensures
        opens_no_heading(s),
        !contains(s, "## Transcript"@),
{
    reveal_strlit("## Transcript");
    let heading = "## Transcript"@;
    assert forall|j: int| !#[trigger] occurs_at(s, heading, j) by {
        if occurs_at(s, heading, j) {
            assert(s.subrange(j, j + heading.len())[0] == s[j]);
            assert(s.contains(s[j]));
        }
    }
    assert forall|k: int| 0 <= k < s.len() && #[trigger] s[k] == '#' implies k + 1 < s.len() && s[k
        + 1] != '#' by {
        assert(s.contains(s[k]));
    }
}

proof fn lemma_two_digits_have_no_sign(n: nat)
    ensures
        !two_digits(n).contains('#'),
{
    lemma_decimal_digits(n);
    let d = decimal(n);
    let t = two_digits(n);
    assert forall|k: int| 0 <= k < t.len() implies t[k] != '#' by {
        if d.len() >= 2 {
            assert(is_digit(d[k]));
        } else {
            let zeros = repeated('0', (2 - d.len()) as nat);
            assert(t == zeros + d);
            if k < zeros.len() {
                lemma_repeated_holds('0', (2 - d.len()) as nat);
                assert(t[k] == zeros[k]);
            } else {
                assert(t[k] == d[k - zeros.len()]);
                assert(is_digit(d[k - zeros.len()]));
            }
        }
    }
}

proof fn lemma_repeated_holds(c: char, n: nat)
    ensures
        forall|k: int| 0 <= k < repeated(c, n).len() ==> #[trigger] repeated(c, n)[k] == c,
    decreases n,
{
    if n > 0 {
        lemma_repeated_holds(c, (n - 1) as nat);
    }
}

proof fn lemma_hms_has_no_sign(secs: nat)
    ensures
        !hms(secs).contains('#'),
{
    reveal_strlit(":");
    lemma_two_digits_have_no_sign(secs / 3600);
    lemma_two_digits_have_no_sign((secs % 3600) / 60);
    lemma_two_digits_have_no_sign(secs % 60);
    let h = two_digits(secs / 3600);
    let m = two_digits((secs % 3600) / 60);
    let x = two_digits(secs % 60);
    let tail = m + ":"@ + x;
    assert forall|k: int| 0 <= k < tail.len() implies tail[k] != '#' by {
        if k < m.len() {
            assert(m.contains(m[k]));
        } else if k > m.len() {
            assert(x.contains(x[k - m.len() - 1]));
        }
    }
    let all = h + ":"@ + tail;
    assert forall|k: int| 0 <= k < all.len() implies all[k] != '#' by {
        if k < h.len() {
            assert(h.contains(h[k]));
        } else if k > h.len() {
            assert(all[k] == tail[k - h.len() - 1]);
        }
    }
}

proof fn lemma_count_has_no_sign(n: nat)
    ensures
        !decimal(n).contains('#'),
{
    lemma_decimal_digits(n);
    assert forall|k: int| 0 <= k < decimal(n).len() implies decimal(n)[k] != '#' by {
        assert(is_digit(decimal(n)[k]));
    }
}

proof fn lemma_title_label()
    ensures
        opens_no_heading("# Dictation Session "@),
{
    reveal_strlit("# Dictation Session ");
    let label = "# Dictation Session "@;
    assert forall|k: int| 0 <= k < label.len() && #[trigger] label[k] == '#' implies k + 1
        < label.len() && label[k + 1] != '#' by {
        assert(k == 0 || k == 1 || k == 2 || k == 3 || k == 4 || k == 5 || k == 6
            || k == 7 || k == 8 || k == 9 || k == 10 || k == 11 || k == 12 || k == 13
            || k == 14 || k == 15 || k == 16 || k == 17 || k == 18 || k == 19);
    }
}

proof fn lemma_started_label()
    ensures
        opens_no_heading("- Started (UTC): "@),
{
    reveal_strlit("- Started (UTC): ");
    let label = "- Started (UTC): "@;
    assert forall|k: int| 0 <= k < label.len() implies label[k] != '#' by {
        assert(k == 0 || k == 1 || k == 2 || k == 3 || k == 4 || k == 5 || k == 6
            || k == 7 || k == 8 || k == 9 || k == 10 || k == 11 || k == 12 || k == 13
            || k == 14 || k == 15 || k == 16);
    }
    lemma_no_sign_no_heading(label);
}

proof fn lemma_ended_label()
    ensures
        opens_no_heading("- Ended (UTC): "@),
{
    reveal_strlit("- Ended (UTC): ");
    let label = "- Ended (UTC): "@;
    assert forall|k: int| 0 <= k < label.len() implies label[k] != '#' by {
        assert(k == 0 || k == 1 || k == 2 || k == 3 || k == 4 || k == 5 || k == 6
            || k == 7 || k == 8 || k == 9 || k == 10 || k == 11 || k == 12 || k == 13
            || k == 14);
    }
    lemma_no_sign_no_heading(label);
}

proof fn lemma_audio_label()
    ensures
        opens_no_heading("- Audio: `audio.wav`"@),
        !contains("- Audio: `audio.wav`"@, "## Transcript"@),
{
    reveal_strlit("- Audio: `audio.wav`");
    let label = "- Audio: `audio.wav`"@;
    assert forall|k: int| 0 <= k < label.len() implies label[k] != '#' by {
        assert(k == 0 || k == 1 || k == 2 || k == 3 || k == 4 || k == 5 || k == 6
            || k == 7 || k == 8 || k == 9 || k == 10 || k == 11 || k == 12 || k == 13
            || k == 14 || k == 15 || k == 16 || k == 17 || k == 18 || k == 19);
    }
    lemma_no_sign_no_heading(label);
}

proof fn lemma_source_label()
    ensures
        opens_no_heading("- Screenshots moved from: `"@),
{
    reveal_strlit("- Screenshots moved from: `");
    let label = "- Screenshots moved from: `"@;
    assert forall|k: int| 0 <= k < label.len() implies label[k] != '#' by {
        assert(k == 0 || k == 1 || k == 2 || k == 3 || k == 4 || k == 5 || k == 6
            || k == 7 || k == 8 || k == 9 || k == 10 || k == 11 || k == 12 || k == 13
            || k == 14 || k == 15 || k == 16 || k == 17 || k == 18 || k == 19 || k == 20
            || k == 21 || k == 22 || k == 23 || k == 24 || k == 25 || k == 26);
    }
    lemma_no_sign_no_heading(label);
}

proof fn lemma_shots_label()
    ensures
        opens_no_heading("- Screenshots captured: "@),
{
    reveal_strlit("- Screenshots captured: ");
    let label = "- Screenshots captured: "@;
    assert forall|k: int| 0 <= k < label.len() implies label[k] != '#' by {
        assert(k == 0 || k == 1 || k == 2 || k == 3 || k == 4 || k == 5 || k == 6
            || k == 7 || k == 8 || k == 9 || k == 10 || k == 11 || k == 12 || k == 13
            || k == 14 || k == 15 || k == 16 || k == 17 || k == 18 || k == 19 || k == 20
            || k == 21 || k == 22 || k == 23);
    }
    lemma_no_sign_no_heading(label);
}

proof fn lemma_clips_label()
    ensures
        opens_no_heading("- Clipboard captures: "@),
{
    reveal_strlit("- Clipboard captures: ");
    let label = "- Clipboard captures: "@;
    assert forall|k: int| 0 <= k < label.len() implies label[k] != '#' by {
        assert(k == 0 || k == 1 || k == 2 || k == 3 || k == 4 || k == 5 || k == 6
            || k == 7 || k == 8 || k == 9 || k == 10 || k == 11 || k == 12 || k == 13
            || k == 14 || k == 15 || k == 16 || k == 17 || k == 18 || k == 19 || k == 20
            || k == 21);
    }
    lemma_no_sign_no_heading(label);
}

proof fn lemma_duration_label()
    ensures
        opens_no_heading("- Audio duration: "@),
{
    reveal_strlit("- Audio duration: ");
    let label = "- Audio duration: "@;
    assert forall|k: int| 0 <= k < label.len() implies label[k] != '#' by {
        assert(k == 0 || k == 1 || k == 2 || k == 3 || k == 4 || k == 5 || k == 6
            || k == 7 || k == 8 || k == 9 || k == 10 || k == 11 || k == 12 || k == 13
            || k == 14 || k == 15 || k == 16 || k == 17);
    }
    lemma_no_sign_no_heading(label);
}

proof fn lemma_status_label()
    ensures
        opens_no_heading("- Transcription: `"@),
{
    reveal_strlit("- Transcription: `");
    let label = "- Transcription: `"@;
    assert forall|k: int| 0 <= k < label.len() implies label[k] != '#' by {
        assert(k == 0 || k == 1 || k == 2 || k == 3 || k == 4 || k == 5 || k == 6
            || k == 7 || k == 8 || k == 9 || k == 10 || k == 11 || k == 12 || k == 13
            || k == 14 || k == 15 || k == 16 || k == 17);
    }
    lemma_no_sign_no_heading(label);
}

proof fn lemma_method_label()
    ensures
        opens_no_heading("- Transcription method: `"@),
{
    reveal_strlit("- Transcription method: `");
    let label = "- Transcription method: `"@;
    assert forall|k: int| 0 <= k < label.len() implies label[k] != '#' by {
        assert(k == 0 || k == 1 || k == 2 || k == 3 || k == 4 || k == 5 || k == 6
            || k == 7 || k == 8 || k == 9 || k == 10 || k == 11 || k == 12 || k == 13
            || k == 14 || k == 15 || k == 16 || k == 17 || k == 18 || k == 19 || k == 20
            || k == 21 || k == 22 || k == 23 || k == 24);
    }
    lemma_no_sign_no_heading(label);
}

proof fn lemma_unknown_label()
    ensures
        opens_no_heading("unknown"@),
        !contains("unknown"@, "## Transcript"@),
{
    reveal_strlit("unknown");
    let label = "unknown"@;
    assert forall|k: int| 0 <= k < label.len() implies label[k] != '#' by {
        assert(k == 0 || k == 1 || k == 2 || k == 3 || k == 4 || k == 5 || k == 6);
    }
    lemma_no_sign_no_heading(label);
}

proof fn lemma_head_lacks_heading(n: NoteInput)
    requires
        head_lacks_heading(n),
    ensures
        !contains(note_head(n), "## Transcript"@),
{
    let nothing = Seq::<char>::empty();
    let status = text_or(n.transcription@, "status"@, "unknown"@);
    lemma_title_label();
    lemma_started_label();
    lemma_ended_label();
    lemma_audio_label();
    lemma_source_label();
    lemma_shots_label();
    lemma_clips_label();
    lemma_duration_label();
    lemma_status_label();
    lemma_method_label();
    lemma_unknown_label();
    lemma_no_sign_no_heading(nothing);
    lemma_count_has_no_sign(n.shots@.len());
    lemma_count_has_no_sign(n.clips@.len());
    lemma_no_sign_no_heading(decimal(n.shots@.len()));
    lemma_no_sign_no_heading(decimal(n.clips@.len()));
    lemma_line_lacks_heading("# Dictation Session "@, n.state.session_id@);
    lemma_line_lacks_heading("- Started (UTC): "@, n.state.started_at_iso@);
    lemma_line_lacks_heading("- Ended (UTC): "@, n.ended_iso@);
    lemma_line_lacks_heading("- Screenshots moved from: `"@, n.state.screenshot_source_dir@);
    lemma_line_lacks_heading("- Screenshots captured: "@, decimal(n.shots@.len()));
    lemma_line_lacks_heading("- Clipboard captures: "@, decimal(n.clips@.len()));
    lemma_line_lacks_heading("- Transcription: `"@, status);
    if let Some(m) = text_field(n.transcription@, "method"@) {
        lemma_line_lacks_heading("- Transcription method: `"@, m);
    }
    if let Some(d) = n.audio_duration {
        lemma_hms_has_no_sign(d.whole_of() as nat);
        lemma_no_sign_no_heading(hms(d.whole_of() as nat));
        lemma_line_lacks_heading("- Audio duration: "@, hms(d.whole_of() as nat));
    }
    let a = head_lines(n);
    let b = duration_lines(n);
    let c = status_lines(n.transcription@);
    let all = a + b + c;
    assert forall|i: int| 0 <= i < all.len() implies !contains(
        #[trigger] all[i],
        "## Transcript"@,
    ) by {
        if i < a.len() {
            assert(all[i] == a[i]);
            assert(i == 0 || i == 1 || i == 2 || i == 3 || i == 4 || i == 5 || i == 6 || i == 7);
        } else if i < a.len() + b.len() {
            assert(all[i] == b[i - a.len()]);
        } else {
            assert(all[i] == c[i - a.len() - b.len()]);
        }
    }
    lemma_joined_lacks_heading(all);
}

proof fn lemma_line_is_trimmed(t: Seq<char>)
    ensures
        trimmed(transcript_line(t)) == transcript_line(t),
        transcript_line(t).len() > 0,
        !is_space(transcript_line(t)[transcript_line(t).len() - 1]),
{
    reveal_strlit("_No transcript available._");
    let line = transcript_line(t);
    trim_is_idempotent(t);
    lemma_trimmed_shape(t);
    if trimmed(t).len() == 0 {
        lemma_trimmed_start(line, 0);
        assert(line.subrange(0, line.len() as int) =~= line);
        lemma_trimmed_end(line, line.len() as int);
    }
}

proof fn lemma_body_is_filled(n: NoteInput)
    ensures
        trimmed(note_body(n)).len() > 0,
{
    let body = body_lines(n);
    let line = transcript_line(n.transcript@);
    lemma_line_is_trimmed(n.transcript@);
    assert(body.last() == line);
    let text = note_body(n);
    assert(text.len() > 0 && text[text.len() - 1] == line[line.len() - 1]);
    let k = lemma_first_char(text);
    assert(k < text.len());
    let t = trimmed_start(text);
    assert(t[t.len() - 1] == text[text.len() - 1]);
    let e = lemma_last_char(t);
    assert(e == t.len());
}

/// The transcript of a session: its text file where that is not blank, else the section of its
/// note, else nothing.
pub open spec fn session_transcript(
    text: Option<Seq<char>>,
    note: Option<Seq<char>>,
) -> Seq<char> {
    if text matches Some(t) && trimmed(t).len() > 0 {
        text->0
    } else {
        match note {
            Some(n) => match note_transcript(n) {
                Some(s) => s,
                None => Seq::empty(),
            },
            None => Seq::empty(),
        }
    }
}

/// The transcript of a session: its text file where that is not blank, else the section of its
/// note, else nothing.
pub fn read_transcript_text_for_session(text: &Option<String>, note: &Option<String>) -> (r: String)
    ensures
        r@ == session_transcript(opt_view(*text), opt_view(*note)),
{
    if let Some(t) = text {
        if !is_blank(t.as_str()) {
            return t.clone();
        }
    }
    if let Some(n) = note {
        if let Some(section) = extract_transcript_from_note(n.as_str()) {
            return section;
        }
    }
    String::new()
}

/// The transcript that the page of all sessions shows: that of the note, where it has one, else
/// that of the session.
pub fn index_transcript(text: &Option<String>, note: &Option<String>) -> (r: String)
    ensures
        r@ == match opt_view(*note) {
            Some(n) => match note_transcript(n) {
                Some(s) => s,
                None => session_transcript(opt_view(*text), opt_view(*note)),
            },
            None => session_transcript(opt_view(*text), opt_view(*note)),
        },
{
    if let Some(n) = note {
        if let Some(section) = extract_transcript_from_note(n.as_str()) {
            return section;
        }
    }
    read_transcript_text_for_session(text, note)
}

/// The transcript that a note holds, nothing where it holds none or there is none.
pub open spec fn kept_in_note(note: Option<Seq<char>>) -> Seq<char> {
    match note {
        Some(n) => match note_transcript(n) {
            Some(s) => s,
            None => Seq::empty(),
        },
        None => Seq::empty(),
    }
}

/// The transcript of a session that is handed out: that of the note, where it has one, else the text
/// file. `note` and `text` are what the two files hold, where they are there, or why they could not
/// be read; the text file is looked at only where the note has no transcript.
pub fn load_recent_session_transcript(
    note: &Option<Result<String, String>>,
    text: &Option<Result<String, String>>,
    session_dir: &str,
) -> (r: Result<String, AppError>)
    ensures
        match *note {
            Some(Err(e)) => r matches Err(x) && x.code == 1 && x.message@ == "Failed to read "@
                + joined_path(session_dir@, "note.md"@) + ": "@ + e@,
            _ => {
                let kept = kept_in_note(read_view(*note));
                match *text {
                    Some(Err(e)) if trimmed(kept).len() == 0 => r matches Err(x) && x.code == 1
                        && x.message@ == "Failed to read "@ + joined_path(
                        session_dir@,
                        "transcript.txt"@,
                    ) + ": "@ + e@,
                    _ => is_handed_out(kept, read_view(*text), session_dir@, r),
                }
            },
        },
{
    let note_text: Option<String> = match note {
        Some(Err(e)) => {
            return Err(unreadable(session_dir, "note.md", e.as_str()));
        },
        Some(Ok(t)) => Some(t.clone()),
        None => None,
    };
    let plain_text: Option<String> = match text {
        Some(Ok(t)) => Some(t.clone()),
        Some(Err(e)) => {
            let kept: String = match &note_text {
                Some(n) => match extract_transcript_from_note(n.as_str()) {
                    Some(s) => s,
                    None => String::new(),
                },
                None => String::new(),
            };
            if is_blank(kept.as_str()) {
                return Err(unreadable(session_dir, "transcript.txt", e.as_str()));
            }
            None
        },
        None => None,
    };
    handed_out_transcript(&note_text, &plain_text, session_dir)
}

/// What a file holds, where it could be read.
pub open spec fn read_view(file: Option<Result<String, String>>) -> Option<Seq<char>> {
    match file {
        Some(Ok(t)) => Some(t@),
        _ => None,
    }
}

/// The error where a file of a session could not be read.
fn unreadable(session_dir: &str, name: &str, why: &str) -> (r: AppError)
    ensures
        r.code == 1,
        r.message@ == "Failed to read "@ + joined_path(session_dir@, name@) + ": "@ + why@,
{
    let mut m = concat3("Failed to read ", join_path(session_dir, name).as_str(), ": ");
    m.append(why);
    app_error(1, m.as_str())
}

/// Whether `r` is the transcript that is handed out, given that of the note and the text file: the
/// text file where the note has none, trimmed. Where both are blank there is none.
pub open spec fn is_handed_out(
    kept: Seq<char>,
    text: Option<Seq<char>>,
    session_dir: Seq<char>,
    r: Result<String, AppError>,
) -> bool {
    let chosen = if trimmed(kept).len() == 0 {
        match text {
            Some(t) => t,
            None => Seq::empty(),
        }
    } else {
        kept
    };
    if trimmed(chosen).len() == 0 {
        r matches Err(e) && e.code == 8 && e.message@ == "No transcript found for session: "@
            + session_dir
    } else {
        r matches Ok(t) && t@ == trimmed(chosen)
    }
}

/// The transcript that is handed out: that of the note, where it has one, else the text file,
/// trimmed. Where both are blank there is none.
pub fn handed_out_transcript(
    note: &Option<String>,
    text: &Option<String>,
    session_dir: &str,
) -> (r: Result<String, AppError>)
    ensures
        is_handed_out(kept_in_note(opt_view(*note)), opt_view(*text), session_dir@, r),
{
    let kept: String = match note {
        Some(n) => match extract_transcript_from_note(n.as_str()) {
            Some(s) => s,
            None => String::new(),
        },
        None => String::new(),
    };
    let chosen: String = if is_blank(kept.as_str()) {
        match text {
            Some(t) => t.clone(),
            None => String::new(),
        }
    } else {
        kept
    };
    let t = trim(chosen.as_str());
    if t.as_str().is_empty() {
        Err(app_error(8, concat("No transcript found for session: ", session_dir).as_str()))
    } else {
        Ok(t)
    }
}

/// Whether a character is a letter or a digit of any script.
pub uninterp spec fn alphanumeric(c: char) -> bool;

/// `char::is_alphanumeric`: the result depends on the character alone; of the ASCII characters,
/// letters and digits are alphanumeric and no others.
#[verifier::external_body]
fn is_alphanumeric(c: char) -> (r: bool)
    ensures
        r == alphanumeric(c),
        (c as u32) < 128 ==> r == (is_letter(c) || is_digit(c)),
{
    c.is_alphanumeric()
}

/// Whether a word of a summary may hold `c` at its ends.
pub open spec fn is_word_char(c: char) -> bool {
    alphanumeric(c) || c == '\'' || c == '-'
}

/// `w` from its first character that a word may hold at its ends.
pub open spec fn bare_start(w: Seq<char>) -> Seq<char>
    decreases w.len(),
{
    if w.len() > 0 && !is_word_char(w[0]) {
        bare_start(w.subrange(1, w.len() as int))
    } else {
        w
    }
}

/// `w` to its last character that a word may hold at its ends.
pub open spec fn bare_end(w: Seq<char>) -> Seq<char>
    decreases w.len(),
{
    if w.len() > 0 && !is_word_char(w[w.len() - 1]) {
        bare_end(w.subrange(0, w.len() - 1))
    } else {
        w
    }
}

/// `w` without punctuation around it.
pub open spec fn bare_word(w: Seq<char>) -> Seq<char> {
    bare_end(bare_start(w))
}

/// `w` without punctuation around it.
fn strip_punctuation(w: &str) -> (r: String)
    ensures
        r@ == bare_word(w@),
{
    let v = chars_of(w);
    let ghost all = v@;
    let mut from: usize = 0;
    let n: usize = v.len();
    assert(all.subrange(0, n as int) =~= all);
    while from < n
        invariant
            from <= n,
            n == v.len(),
            all == v@,
            bare_start(all) == bare_start(all.subrange(from as int, n as int)),
        ensures
            from <= n,
            bare_start(all) == all.subrange(from as int, n as int),
        decreases n - from,
    {
        let c = v[from];
        assert(all.subrange(from as int, n as int)[0] == c);
        if is_alphanumeric(c) || c == '\'' || c == '-' {
            break ;
        }
        assert(all.subrange(from as int, n as int).subrange(1, n - from) =~= all.subrange(
            from + 1,
            n as int,
        ));
        from = from + 1;
    }
    let ghost start = all.subrange(from as int, n as int);
    let mut to: usize = n;
    assert(start.subrange(0, to - from) =~= start);
    while to > from
        invariant
            from <= to <= n,
            n == v.len(),
            all == v@,
            start == all.subrange(from as int, n as int),
            bare_end(start) == bare_end(start.subrange(0, to - from)),
        ensures
            from <= to <= n,
            bare_end(start) == start.subrange(0, to - from),
        decreases to,
    {
        let c = v[to - 1];
        let ghost s = start.subrange(0, to - from);
        assert(s[s.len() - 1] == c);
        if is_alphanumeric(c) || c == '\'' || c == '-' {
            break ;
        }
        assert(s.subrange(0, s.len() - 1) =~= start.subrange(0, to - from - 1));
        to = to - 1;
    }
    assert(start.subrange(0, to - from) =~= all.subrange(from as int, to as int));
    string_of(&v, from, to)
}

/// Whether a line of a transcript says where a screenshot is kept.
pub open spec fn is_path_line(line: Seq<char>) -> bool {
    "Screenshot "@.is_prefix_of(trimmed(line)) && contains(trimmed(line), ":"@)
}

/// A transcript in one line, without the lines that say where screenshots are kept.
pub open spec fn spoken_text(text: Seq<char>) -> Seq<char> {
    joined(lines_of(text).filter(|l: Seq<char>| !is_path_line(l)), " "@)
}

/// A word as a summary counts it, where it does.
pub open spec fn counted_word(w: Seq<char>) -> Option<Seq<char>> {
    let b = bare_word(w);
    if b.len() == 0 || ascii_lower(b) == "screenshot"@ {
        None
    } else {
        Some(b)
    }
}

/// The words of a transcript as a summary counts them.
pub open spec fn summary_words(text: Seq<char>) -> Seq<Seq<char>> {
    words_of(spoken_text(text)).filter_map(|w: Seq<char>| counted_word(w))
}

/// A summary of words: all of up to six, else the first and the last three, and how many.
pub open spec fn words_summary(w: Seq<Seq<char>>) -> Seq<char> {
    if w.len() == 0 {
        "— [0 words]"@
    } else if w.len() <= 6 {
        joined(w, " "@) + " ["@ + decimal(w.len()) + " words]"@
    } else {
        joined(w.subrange(0, 3), " "@) + ".."@ + joined(
            w.subrange(w.len() - 3, w.len() as int),
            " "@,
        ) + " ["@ + decimal(w.len()) + " words]"@
    }
}

/// The summary of more than six words holds the first three, two dots, the last three and how many
/// they are.
pub proof fn long_summaries_show_both_ends(w: Seq<Seq<char>>)
    requires
        w.len() > 6,
    ensures
        ({
            let n = w.len() as int;
            words_summary(w) == w[0] + " "@ + w[1] + " "@ + w[2] + ".."@ + w[n - 3] + " "@ + w[n - 2]
                + " "@ + w[n - 1] + " ["@ + decimal(w.len()) + " words]"@
        }),
{
    let n = w.len() as int;
    lemma_joined_three(w.subrange(0, 3), " "@);
    lemma_joined_three(w.subrange(n - 3, n), " "@);
    let tail = w[n - 3] + " "@ + w[n - 2] + " "@ + w[n - 1];
    assert(words_summary(w) =~= w[0] + " "@ + w[1] + " "@ + w[2] + ".."@ + tail + " ["@ + decimal(
        w.len(),
    ) + " words]"@);
    assert(words_summary(w) =~= w[0] + " "@ + w[1] + " "@ + w[2] + ".."@ + w[n - 3] + " "@ + w[n - 2]
        + " "@ + w[n - 1] + " ["@ + decimal(w.len()) + " words]"@);
}

/// The summary of up to six words holds all of them, with blanks between, and how many they are.
pub proof fn short_summaries_show_all(w: Seq<Seq<char>>, last: Seq<char>)
    requires
        w.len() < 6,
    ensures
        words_summary(seq![last]) == last + " ["@ + decimal(1) + " words]"@,
        w.len() > 0 ==> words_summary(w.push(last)) == joined(w, " "@) + " "@ + last + " ["@
            + decimal(w.len() + 1) + " words]"@,
{
    assert(w.push(last).drop_last() =~= w);
    assert(seq![last].len() == 1);
}

/// A word that is neither among the first nor among the last three does not show.
pub proof fn words_in_between_do_not_show(a: Seq<Seq<char>>, b: Seq<Seq<char>>)
    requires
        a.len() > 6,
        a.len() == b.len(),
        forall|i: int| 0 <= i < 3 ==> a[i] == b[i],
        forall|i: int| a.len() - 3 <= i < a.len() ==> a[i] == b[i],
    ensures
        words_summary(a) == words_summary(b),
{
    long_summaries_show_both_ends(a);
    long_summaries_show_both_ends(b);
}

/// A word among the last three shows: two transcripts with as many words and the same first three
/// have the same summary only where their last three words are the same.
pub proof fn last_words_show(a: Seq<Seq<char>>, b: Seq<Seq<char>>)
    requires
        a.len() > 6,
        a.len() == b.len(),
        forall|i: int| 0 <= i < 3 ==> a[i] == b[i],
        forall|i: int| 0 <= i < a.len() ==> !(#[trigger] a[i]).contains(' '),
        forall|i: int| 0 <= i < b.len() ==> !(#[trigger] b[i]).contains(' '),
        words_summary(a) == words_summary(b),
    ensures
        forall|i: int| a.len() - 3 <= i < a.len() ==> a[i] == b[i],
{
    let n = a.len() as int;
    long_summaries_show_both_ends(a);
    long_summaries_show_both_ends(b);
    let head = a[0] + " "@ + a[1] + " "@ + a[2] + ".."@;
    lemma_same_tails(head, a[n - 3], a[n - 2], a[n - 1], b[n - 3], b[n - 2], b[n - 1], decimal(a.len()));
}

proof fn lemma_same_tails(
    head: Seq<char>,
    x: Seq<char>,
    y: Seq<char>,
    z: Seq<char>,
    u: Seq<char>,
    v: Seq<char>,
    w: Seq<char>,
    count: Seq<char>,
)
    requires
        !x.contains(' ') && !y.contains(' ') && !u.contains(' ') && !v.contains(' '),
        head + x + " "@ + y + " "@ + z + " ["@ + count + " words]"@ == head + u + " "@ + v + " "@ + w
            + " ["@ + count + " words]"@,
    ensures
        x == u && y == v && z == w,
{
    reveal_strlit(" ");
    assert(" "@ =~= seq![' ']);
    let end = " ["@ + count + " words]"@;
    let (p, q) = (y + seq![' '] + z, v + seq![' '] + w);
    let (s, t) = (x + seq![' '] + p, u + seq![' '] + q);
    assert(head + x + " "@ + y + " "@ + z + " ["@ + count + " words]"@ =~= head + s + end);
    assert(head + u + " "@ + v + " "@ + w + " ["@ + count + " words]"@ =~= head + t + end);
    lemma_same_middle(head, s, t, end);
    lemma_same_first_word(x, p, u, q);
    lemma_same_first_word(y, z, v, w);
}

proof fn lemma_same_middle(head: Seq<char>, s: Seq<char>, t: Seq<char>, end: Seq<char>)
    requires
        head + s + end == head + t + end,
    ensures
        s == t,
{
    let (a, b) = (head + s + end, head + t + end);
    assert(a.len() == b.len());
    assert(a.subrange(head.len() as int, (head.len() + s.len()) as int) =~= s);
    assert(b.subrange(head.len() as int, (head.len() + t.len()) as int) =~= t);
}

proof fn lemma_same_first_word(a: Seq<char>, x: Seq<char>, b: Seq<char>, y: Seq<char>)
    requires
        !a.contains(' '),
        !b.contains(' '),
        a + seq![' '] + x == b + seq![' '] + y,
    ensures
        a == b,
        x == y,
{
    let s = a + seq![' '] + x;
    let t = b + seq![' '] + y;
    if a.len() < b.len() {
        assert(t[a.len() as int] == b[a.len() as int]);
        assert(s[a.len() as int] == ' ');
    }
    if b.len() < a.len() {
        assert(s[b.len() as int] == a[b.len() as int]);
        assert(t[b.len() as int] == ' ');
    }
    assert(s.subrange(0, a.len() as int) =~= a);
    assert(t.subrange(0, b.len() as int) =~= b);
    assert(s.subrange(a.len() as int + 1, s.len() as int) =~= x);
    assert(t.subrange(b.len() as int + 1, t.len() as int) =~= y);
}

proof fn lemma_joined_three(p: Seq<Seq<char>>, sep: Seq<char>)
    requires
        p.len() == 3,
    ensures
        joined(p, sep) == p[0] + sep + p[1] + sep + p[2],
{
    let two = p.drop_last();
    assert(two.drop_last() =~= seq![p[0]]);
    assert(joined(seq![p[0]], sep) == p[0]);
    assert(joined(two, sep) == p[0] + sep + p[1]);
}

/// A word counts without the punctuation around it: what begins and ends with a letter, a digit, an
/// apostrophe or a hyphen is left, and what is within it stays.
pub proof fn punctuation_around_words_is_dropped(
    front: Seq<char>,
    core: Seq<char>,
    back: Seq<char>,
)
    requires
        forall|i: int| 0 <= i < front.len() ==> !is_word_char(#[trigger] front[i]),
        forall|i: int| 0 <= i < back.len() ==> !is_word_char(#[trigger] back[i]),
        core.len() > 0,
        is_word_char(core[0]),
        is_word_char(core.last()),
    ensures
        bare_word(front + core + back) == core,
        bare_word(front).len() == 0,
{
    let s = front + core + back;
    assert(s[front.len() as int] == core[0]);
    assert forall|i: int| 0 <= i < front.len() implies !is_word_char(#[trigger] s[i]) by {
        assert(s[i] == front[i]);
    }
    lemma_bare_start_at(s, front.len() as int);
    assert(s.subrange(front.len() as int, s.len() as int) =~= core + back);
    let t = core + back;
    assert forall|i: int| core.len() <= i < t.len() implies !is_word_char(#[trigger] t[i]) by {
        assert(t[i] == back[i - core.len()]);
    }
    lemma_bare_end_at(t, core.len() as int);
    assert(t.subrange(0, core.len() as int) =~= core);
    lemma_bare_start_at(front, front.len() as int);
    assert(front.subrange(front.len() as int, front.len() as int) =~= Seq::empty());
}

proof fn lemma_bare_start_at(s: Seq<char>, k: int)
    requires
        0 <= k <= s.len(),
        forall|i: int| 0 <= i < k ==> !is_word_char(#[trigger] s[i]),
        k < s.len() ==> is_word_char(s[k]),
    ensures
        bare_start(s) == s.subrange(k, s.len() as int),
    decreases s.len(),
{
    if k > 0 {
        assert(!is_word_char(s[0]));
        let rest = s.subrange(1, s.len() as int);
        assert forall|i: int| 0 <= i < k - 1 implies !is_word_char(#[trigger] rest[i]) by {
            assert(rest[i] == s[i + 1]);
        }
        lemma_bare_start_at(rest, k - 1);
        assert(rest.subrange(k - 1, rest.len() as int) =~= s.subrange(k, s.len() as int));
    } else {
        assert(s.subrange(0, s.len() as int) =~= s);
    }
}

proof fn lemma_bare_end_at(s: Seq<char>, k: int)
    requires
        0 < k <= s.len(),
        forall|i: int| k <= i < s.len() ==> !is_word_char(#[trigger] s[i]),
        is_word_char(s[k - 1]),
    ensures
        bare_end(s) == s.subrange(0, k),
    decreases s.len(),
{
    if k < s.len() {
        assert(!is_word_char(s[s.len() - 1]));
        let rest = s.subrange(0, s.len() - 1);
        assert forall|i: int| k <= i < rest.len() implies !is_word_char(#[trigger] rest[i]) by {
            assert(rest[i] == s[i]);
        }
        lemma_bare_end_at(rest, k);
        assert(rest.subrange(0, k) =~= s.subrange(0, k));
    } else {
        assert(s.subrange(0, s.len() as int) =~= s);
    }
}

/// Whether a text says that there is no transcript.
pub open spec fn says_nothing(text: Seq<char>) -> bool {
    let l = ascii_lower(trimmed(text));
    ||| trimmed(text).len() == 0
    ||| l == "_no transcript available._"@
    ||| l == "no transcript available."@
    ||| l == "no transcript available"@
}

/// The summary of a transcript.
pub open spec fn summary_of(text: Seq<char>) -> Seq<char> {
    if says_nothing(text) {
        "— [0 words]"@
    } else {
        words_summary(summary_words(text))
    }
}

/// A transcript without the lines that say where screenshots are kept.
fn spoken_lines(text: &str) -> (r: Vec<String>)
    ensures
        views(r@) == lines_of(text@).filter(|l: Seq<char>| !is_path_line(l)),
{
    let all = lines(text);
    let ghost av = views(all@);
    let ghost keep = |l: Seq<char>| !is_path_line(l);
    let mut out: Vec<String> = Vec::new();
    let mut i: usize = 0;
    proof {
        reveal(Seq::filter);
    }
    assert(views(out@) =~= av.subrange(0, 0).filter(keep));
    while i < all.len()
        invariant
            i <= all.len(),
            av == views(all@),
            keep == (|l: Seq<char>| !is_path_line(l)),
            views(out@) == av.subrange(0, i as int).filter(keep),
        decreases all.len() - i,
    {
        let ghost before = out@;
        proof {
            assert(av.subrange(0, i + 1).drop_last() == av.subrange(0, i as int));
            assert(av.subrange(0, i + 1).last() == all@[i as int]@);
            reveal(Seq::filter);
        }
        let t = trim(all[i].as_str());
        if !(starts_with(t.as_str(), "Screenshot ") && contains_text(t.as_str(), ":")) {
            out.push(all[i].clone());
            assert(views(out@) =~= views(before).push(all@[i as int]@));
        }
        assert(views(out@) =~= av.subrange(0, i + 1).filter(keep));
        i = i + 1;
    }
    assert(av.subrange(0, av.len() as int) =~= av);
    out
}

/// The words of a transcript as a summary counts them: without punctuation around them, and
/// without the word `screenshot`.
pub fn counted_words(text: &str) -> (r: Vec<String>)
    ensures
        views(r@) == summary_words(text@),
{
    let spoken = join(&spoken_lines(text), " ");
    let all = words(spoken.as_str());
    let ghost av = views(all@);
    let ghost f = |w: Seq<char>| counted_word(w);
    let mut out: Vec<String> = Vec::new();
    let mut i: usize = 0;
    proof {
        reveal(Seq::filter_map);
    }
    assert(views(out@) =~= av.subrange(0, 0).filter_map(f));
    while i < all.len()
        invariant
            i <= all.len(),
            av == views(all@),
            f == (|w: Seq<char>| counted_word(w)),
            views(out@) == av.subrange(0, i as int).filter_map(f),
        decreases all.len() - i,
    {
        let ghost before = out@;
        proof {
            assert(av.subrange(0, i + 1).drop_last() == av.subrange(0, i as int));
            assert(av.subrange(0, i + 1).last() == all@[i as int]@);
            reveal(Seq::filter_map);
        }
        let b = strip_punctuation(all[i].as_str());
        if !b.as_str().is_empty() && !same(to_ascii_lower(b.as_str()).as_str(), "screenshot") {
            let ghost bv = b@;
            out.push(b);
            assert(views(out@) =~= views(before).push(bv));
        }
        assert(views(out@) =~= av.subrange(0, i + 1).filter_map(f));
        i = i + 1;
    }
    assert(av.subrange(0, av.len() as int) =~= av);
    out
}

/// A summary of words: all of up to six, else the first and the last three, and how many.
pub fn summarize_words(w: &Vec<String>) -> (r: String)
    ensures
        r@ == words_summary(views(w@)),
{
    let count: usize = w.len();
    let ghost wv = views(w@);
    if count == 0 {
        return "— [0 words]".to_owned();
    }
    let mut out: String;
    if count <= 6 {
        out = join(w, " ");
    } else {
        let first: Vec<String> = vec![w[0].clone(), w[1].clone(), w[2].clone()];
        let last: Vec<String> = vec![
            w[count - 3].clone(),
            w[count - 2].clone(),
            w[count - 1].clone(),
        ];
        assert(views(first@) =~= wv.subrange(0, 3));
        assert(views(last@) =~= wv.subrange(count - 3, count as int));
        out = concat3(join(&first, " ").as_str(), "..", join(&last, " ").as_str());
    }
    out.append(" [");
    out.append(decimal_text(count as u64).as_str());
    out.append(" words]");
    out
}

/// A summary of a transcript for the list of sessions.
pub fn summarize_transcript(text: &str) -> (r: String)
    ensures
        r@ == summary_of(text@),
{
    let t = trim(text);
    let l = to_ascii_lower(t.as_str());
    if t.as_str().is_empty() || same(l.as_str(), "_no transcript available._") || same(
        l.as_str(),
        "no transcript available.",
    ) || same(l.as_str(), "no transcript available") {
        return "— [0 words]".to_owned();
    }
    summarize_words(&counted_words(text))
}

/// The line that says where a screenshot is kept.
pub open spec fn path_line(n: nat, path: Seq<char>) -> Seq<char> {
    "Screenshot "@ + decimal(n) + ": "@ + path
}

/// Lines that say where screenshots are kept never count as words: one that is added to a transcript
/// leaves its summary as it is. The one exception is a transcript that says that there is none,
/// which is then no longer all that is said.
pub proof fn path_lines_do_not_count(text: Seq<char>, n: nat, path: Seq<char>)
    requires
        !path.contains('\n'),
        trimmed(text).len() > 0 ==> !says_nothing(text),
    ensures
        summary_of(text + "\n"@ + path_line(n, path)) == summary_of(text),
{
    let line = path_line(n, path);
    let all = text + "\n"@ + line;
    lemma_path_line(n, path);
    lemma_says_something(text + "\n"@, line);
    lemma_spoken_words(text, line);
    if trimmed(text).len() == 0 {
        lemma_blank_summary(text);
    }
}

/// The line that says where a screenshot is kept is known as one.
proof fn lemma_path_line(n: nat, path: Seq<char>)
    requires
        !path.contains('\n'),
    ensures
        is_path_line(path_line(n, path)),
        !path_line(n, path).contains('\n'),
        path_line(n, path).contains(':'),
{
    reveal_strlit("Screenshot ");
    reveal_strlit(": ");
    reveal_strlit(":");
    let line = path_line(n, path);
    let d = decimal(n);
    lemma_decimal_digits(n);
    let colon = 11 + d.len() as int;
    assert(line[colon] == ':');
    assert forall|k: int| 0 <= k < line.len() implies line[k] != '\n' by {
        if k < 11 {
            assert(line[k] == "Screenshot "@[k]);
        } else if k < colon {
            assert(line[k] == d[k - 11]);
            assert(is_digit(d[k - 11]));
        } else if k >= colon + 2 {
            assert(line[k] == path[k - colon - 2]);
            assert(path.contains(path[k - colon - 2]));
        }
    }
    let to = last_solid(line, line.len() as int);
    lemma_last_solid(line, line.len() as int, colon);
    assert(!is_space(line[0]));
    lemma_trimmed_start(line, 0);
    assert(line.subrange(0, line.len() as int) =~= line);
    lemma_trimmed_end(line, to);
    let t = line.subrange(0, to);
    assert(trimmed(line) == t);
    assert("Screenshot "@.is_prefix_of(t)) by {
        assert(t.subrange(0, 11) =~= "Screenshot "@);
    }
    assert(t.subrange(colon, colon + 1) =~= ":"@);
    assert(occurs_at(t, ":"@, colon));
}

/// The position behind the last character before `to` that is no white space.
spec fn last_solid(s: Seq<char>, to: int) -> int
    decreases to,
{
    if 0 < to <= s.len() && is_space(s[to - 1]) {
        last_solid(s, to - 1)
    } else {
        to
    }
}

proof fn lemma_last_solid(s: Seq<char>, to: int, k: int)
    requires
        0 <= k < to <= s.len(),
        !is_space(s[k]),
    ensures
        k < last_solid(s, to) <= to,
        !is_space(s[last_solid(s, to) - 1]),
        forall|i: int| last_solid(s, to) <= i < to ==> is_space(#[trigger] s[i]),
    decreases to,
{
    if is_space(s[to - 1]) {
        lemma_last_solid(s, to - 1, k);
    }
}

proof fn lemma_decimal_digits(n: nat)
    ensures
        decimal(n).len() > 0,
        forall|i: int| 0 <= i < decimal(n).len() ==> is_digit(#[trigger] decimal(n)[i]),
    decreases n,
{
    if n >= 10 {
        lemma_decimal_digits(n / 10);
    }
}

/// A text with a colon says something.
proof fn lemma_says_something(before: Seq<char>, line: Seq<char>)
    requires
        line.contains(':'),
    ensures
        !says_nothing(before + line),
{
    let all = before + line;
    let i = choose|i: int| 0 <= i < line.len() && line[i] == ':';
    assert(all[before.len() + i] == ':');
    lemma_trimmed_keeps(all, before.len() + i);
    let t = trimmed(all);
    let k = choose|k: int| 0 <= k < t.len() && t[k] == ':';
    assert(ascii_lower(t)[k] == ':');
    lemma_no_colon(k);
}

/// What says that there is no transcript holds no colon.
proof fn lemma_no_colon(k: int)
    ensures
        0 <= k < "_no transcript available._"@.len() ==> "_no transcript available._"@[k] != ':',
        0 <= k < "no transcript available."@.len() ==> "no transcript available."@[k] != ':',
        0 <= k < "no transcript available"@.len() ==> "no transcript available"@[k] != ':',
{
    reveal_strlit("_no transcript available._");
    reveal_strlit("no transcript available.");
    reveal_strlit("no transcript available");
    let phrase = "_no transcript available._"@;
    if 0 <= k < phrase.len() {
        assert(k == 0 || k == 1 || k == 2 || k == 3 || k == 4 || k == 5 || k == 6 || k == 7
            || k == 8 || k == 9 || k == 10 || k == 11 || k == 12 || k == 13 || k == 14 || k == 15
            || k == 16 || k == 17 || k == 18 || k == 19 || k == 20 || k == 21 || k == 22
            || k == 23 || k == 24 || k == 25);
    }
}

/// A line that says where a screenshot is kept adds no words.
proof fn lemma_spoken_words(text: Seq<char>, line: Seq<char>)
    requires
        is_path_line(line),
        !line.contains('\n'),
        line.len() > 0,
    ensures
        words_of(spoken_text(text + "\n"@ + line)) == words_of(spoken_text(text)),
{
    reveal_strlit("\n");
    let keep = |l: Seq<char>| !is_path_line(l);
    let ended = text + "\n"@;
    assert("\n"@ =~= seq!['\n']);
    lemma_lines_append(ended, line);
    lemma_single_line(line);
    Seq::filter_distributes_over_add(lines_of(ended), lines_of(line), keep);
    lemma_filter_one(line, keep);
    assert(lines_of(ended).filter(keep) + Seq::empty() =~= lines_of(ended).filter(keep));
    let cut = line_start(text, text.len() as int);
    lemma_line_start(text, text.len() as int);
    let head = text.subrange(0, cut);
    let last = text.subrange(cut, text.len() as int);
    assert(text =~= head + last);
    assert(ended =~= head + (last + "\n"@));
    assert(!last.contains('\n'));
    lemma_lines_append(head, last);
    lemma_lines_append(head, last + "\n"@);
    lemma_single_line(last);
    lemma_ended_line(last);
    Seq::filter_distributes_over_add(lines_of(head), lines_of(last), keep);
    Seq::filter_distributes_over_add(lines_of(head), lines_of(last + "\n"@), keep);
    let kept = lines_of(head).filter(keep);
    let bare = without_cr(last);
    lemma_filter_one(bare, keep);
    lemma_filter_one(last, keep);
    lemma_bare_line(last);
    if last.len() == 0 {
        assert(lines_of(last).filter(keep) =~= Seq::empty()) by {
            reveal(Seq::filter);
        }
        assert(kept + Seq::empty() =~= kept);
        if keep(bare) {
            assert(kept + seq![bare] =~= kept.push(bare));
            lemma_joined_words(kept, bare);
            lemma_blank_words(bare);
            assert(words_of(joined(kept, " "@)) + words_of(bare) =~= words_of(joined(kept, " "@)));
        }
    } else if keep(last) {
        assert(kept + seq![bare] =~= kept.push(bare));
        assert(kept + seq![last] =~= kept.push(last));
        lemma_joined_words(kept, bare);
        lemma_joined_words(kept, last);
    }
}

proof fn lemma_filter_one(x: Seq<char>, keep: spec_fn(Seq<char>) -> bool)
    ensures
        seq![x].filter(keep) == if keep(x) {
            seq![x]
        } else {
            Seq::<Seq<char>>::empty()
        },
{
    reveal_with_fuel(Seq::filter, 2);
    assert(seq![x].drop_last() =~= Seq::empty());
    assert(seq![x].filter(keep) =~= if keep(x) {
        seq![x]
    } else {
        Seq::empty()
    });
}

/// The position behind the last line feed before `to`.
spec fn line_start(s: Seq<char>, to: int) -> int
    decreases to,
{
    if 0 < to <= s.len() && s[to - 1] != '\n' {
        line_start(s, to - 1)
    } else {
        to
    }
}

proof fn lemma_line_start(s: Seq<char>, to: int)
    requires
        0 <= to <= s.len(),
    ensures
        0 <= line_start(s, to) <= to,
        line_start(s, to) > 0 ==> s[line_start(s, to) - 1] == '\n',
        forall|k: int| line_start(s, to) <= k < to ==> s[k] != '\n',
    decreases to,
{
    if to > 0 && s[to - 1] != '\n' {
        lemma_line_start(s, to - 1);
    }
}

/// A line that ends is one line, without a carriage return at its end.
proof fn lemma_ended_line(last: Seq<char>)
    requires
        !last.contains('\n'),
    ensures
        lines_of(last + "\n"@) == seq![without_cr(last)],
{
    reveal_strlit("\n");
    let s = last + "\n"@;
    let n = last.len() as int;
    assert(s[n] == '\n');
    assert forall|k: int| 0 <= k < n implies s[k] != '\n' by {
        assert(last.contains(last[k]));
    }
    lemma_line_end(s, 0, n);
    assert(s.subrange(0, n) =~= last);
    assert(lines_from(s, n + 1) =~= Seq::empty());
    assert(lines_of(s) =~= seq![without_cr(last)]);
}

/// A carriage return at its end changes nothing of what a line says.
proof fn lemma_bare_line(last: Seq<char>)
    ensures
        trimmed(without_cr(last)) == trimmed(last),
        words_of(without_cr(last)) == words_of(last),
{
    let bare = without_cr(last);
    if bare != last {
        let nothing = Seq::<char>::empty();
        assert(last =~= bare + seq!['\r'] + nothing);
        lemma_words_append(bare, '\r', nothing);
        lemma_blank_words(nothing);
        assert(words_of(bare) + words_of(nothing) =~= words_of(bare));
        assert(last =~= bare.push('\r'));
        lemma_start_of_more(bare, '\r');
    }
}

proof fn lemma_start_of_more(s: Seq<char>, c: char)
    requires
        is_space(c),
    ensures
        trimmed(s.push(c)) == trimmed(s),
    decreases s.len(),
{
    let t = s.push(c);
    if s.len() == 0 {
        assert(t.subrange(1, 1) =~= s);
    } else if is_space(s[0]) {
        let rest = s.subrange(1, s.len() as int);
        lemma_start_of_more(rest, c);
        assert(t.subrange(1, t.len() as int) =~= rest.push(c));
    } else {
        assert(t.subrange(0, t.len() - 1) =~= s);
    }
}

/// A blank text has no words that count.
proof fn lemma_blank_summary(text: Seq<char>)
    requires
        trimmed(text).len() == 0,
    ensures
        summary_words(text).len() == 0,
{
    assert forall|k: int| 0 <= k < text.len() implies is_space(#[trigger] text[k]) by {
        if !is_space(text[k]) {
            lemma_trimmed_keeps(text, k);
        }
    }
    lemma_blank_lines(text, 0);
    let keep = |l: Seq<char>| !is_path_line(l);
    lemma_blank_joined(lines_of(text), keep);
    reveal(Seq::filter_map);
    assert(words_of(spoken_text(text)) =~= Seq::empty());
}

proof fn lemma_blank_joined(lines: Seq<Seq<char>>, keep: spec_fn(Seq<char>) -> bool)
    requires
        forall|i: int| 0 <= i < lines.len() ==> words_of(#[trigger] lines[i]).len() == 0,
    ensures
        words_of(joined(lines.filter(keep), " "@)).len() == 0,
    decreases lines.len(),
{
    reveal(Seq::filter);
    if lines.len() == 0 {
        lemma_blank_words(joined(lines.filter(keep), " "@));
    } else {
        let front = lines.drop_last();
        assert forall|i: int| 0 <= i < front.len() implies words_of(#[trigger] front[i]).len()
            == 0 by {
            assert(front[i] == lines[i]);
        }
        lemma_blank_joined(front, keep);
        if keep(lines.last()) {
            lemma_joined_words(front.filter(keep), lines.last());
            assert(words_of(lines[lines.len() - 1]).len() == 0);
        }
    }
}

// ---------------------------------------------------------------------------------------------
// Times and durations
// ---------------------------------------------------------------------------------------------

/// A point in time on the local calendar. The week starts on Sunday, with 0.
pub struct LocalTime {
    pub weekday: u32,
    pub month: u32,
    pub day: u32,
    pub hour: u32,
    pub minute: u32,
}

/// The name of a day of the week.
pub open spec fn weekday_of(n: u32) -> Seq<char> {
    if n == 0 {
        "sun"@
    } else if n == 1 {
        "mon"@
    } else if n == 2 {
        "tue"@
    } else if n == 3 {
        "wed"@
    } else if n == 4 {
        "thu"@
    } else if n == 5 {
        "fri"@
    } else {
        "sat"@
    }
}

/// The hour on a dial of twelve.
pub open spec fn dial_hour(hour: nat) -> nat {
    if hour % 12 == 0 {
        12
    } else {
        hour % 12
    }
}

/// A point in time as the list of sessions shows it, such as `tue 7-28 2:05pm`.
pub open spec fn human_time(t: LocalTime) -> Seq<char> {
    weekday_of(t.weekday) + " "@ + decimal(t.month as nat) + "-"@ + decimal(t.day as nat) + " "@
        + decimal(dial_hour(t.hour as nat)) + ":"@ + two_digits(t.minute as nat) + (if t.hour
        >= 12 {
        "pm"@
    } else {
        "am"@
    })
}

/// A point in time as the list of sessions shows it, such as `tue 7-28 2:05pm`.
pub fn format_timestamp_human(at: &Option<LocalTime>) -> (r: String)
    ensures
        r@ == match *at {
            Some(t) => human_time(t),
            None => "unknown"@,
        },
{
    match at {
        None => "unknown".to_owned(),
        Some(t) => {
            let day: &str = if t.weekday == 0 {
                "sun"
            } else if t.weekday == 1 {
                "mon"
            } else if t.weekday == 2 {
                "tue"
            } else if t.weekday == 3 {
                "wed"
            } else if t.weekday == 4 {
                "thu"
            } else if t.weekday == 5 {
                "fri"
            } else {
                "sat"
            };
            let h: u32 = if t.hour % 12 == 0 {
                12
            } else {
                t.hour % 12
            };
            let mut out = day.to_owned();
            out.append(" ");
            out.append(decimal_text(t.month as u64).as_str());
            out.append("-");
            out.append(decimal_text(t.day as u64).as_str());
            out.append(" ");
            out.append(decimal_text(h as u64).as_str());
            out.append(":");
            out.append(two_digit_text(t.minute as u64).as_str());
            out.append(
                if t.hour >= 12 {
                    "pm"
                } else {
                    "am"
                },
            );
            out
        },
    }
}

/// A duration in at most two units, such as `45s`, `3m`, `3m 20s` or `1h 5m`.
pub open spec fn compact_duration(sec: nat) -> Seq<char> {
    if sec < 60 {
        decimal(sec) + "s"@
    } else if sec < 3600 {
        if sec % 60 == 0 {
            decimal(sec / 60) + "m"@
        } else {
            decimal(sec / 60) + "m "@ + decimal(sec % 60) + "s"@
        }
    } else if (sec % 3600) / 60 == 0 {
        decimal(sec / 3600) + "h"@
    } else {
        decimal(sec / 3600) + "h "@ + decimal((sec % 3600) / 60) + "m"@
    }
}

/// A duration in at most two units, and a dash where there is none.
pub fn format_duration_compact(seconds: &Option<Measure>) -> (r: String)
    ensures
        r@ == match *seconds {
            Some(s) => compact_duration(s.whole_of() as nat),
            None => "-"@,
        },
{
    match seconds {
        None => "-".to_owned(),
        Some(raw) => {
            let sec: u64 = raw.whole() as u64;
            if sec < 60 {
                concat(decimal_text(sec).as_str(), "s")
            } else if sec < 3600 {
                let m = decimal_text(sec / 60);
                if sec % 60 == 0 {
                    concat(m.as_str(), "m")
                } else {
                    let head = concat3(m.as_str(), "m ", decimal_text(sec % 60).as_str());
                    concat(head.as_str(), "s")
                }
            } else {
                let h = decimal_text(sec / 3600);
                let m: u64 = (sec % 3600) / 60;
                if m == 0 {
                    concat(h.as_str(), "h")
                } else {
                    let head = concat3(h.as_str(), "h ", decimal_text(m).as_str());
                    concat(head.as_str(), "m")
                }
            }
        },
    }
}

/// Seconds as `hh:mm:ss`.
pub open spec fn clock_duration(sec: nat) -> Seq<char> {
    two_digits(sec / 3600) + ":"@ + two_digits((sec % 3600) / 60) + ":"@ + two_digits(sec % 60)
}

/// Seconds as `hh:mm:ss`.
pub fn format_hms_compact(seconds: &Measure) -> (r: String)
    ensures
        r@ == clock_duration(seconds.whole_of() as nat),
{
    let sec: u64 = seconds.whole() as u64;
    let mut out = two_digit_text(sec / 3600);
    out.append(":");
    out.append(two_digit_text((sec % 3600) / 60).as_str());
    out.append(":");
    out.append(two_digit_text(sec % 60).as_str());
    out
}

// ---------------------------------------------------------------------------------------------
// The table of sessions
// ---------------------------------------------------------------------------------------------

/// A text of at most `max_width` characters: where it is longer it ends in an ellipsis.
pub open spec fn fitted(s: Seq<char>, max_width: nat) -> Seq<char> {
    if s.len() <= max_width {
        s
    } else if max_width <= 1 {
        "…"@
    } else {
        s.subrange(0, max_width - 1) + "…"@
    }
}

/// A text of at most `max_width` characters: where it is longer it ends in an ellipsis.
pub fn truncate_to_width(input: &str, max_width: usize) -> (r: String)
    ensures
        r@ == fitted(input@, max_width as nat),
{
    let v = chars_of(input);
    if v.len() <= max_width {
        return input.to_owned();
    }
    if max_width <= 1 {
        return "…".to_owned();
    }
    let mut out = string_of(&v, 0, max_width - 1);
    out.append("…");
    out
}

/// A fitted text is no wider than asked for, where that is at least one character.
pub proof fn fitted_text_fits(s: Seq<char>, max_width: nat)
    requires
        max_width >= 1,
    ensures
        fitted(s, max_width).len() <= max_width,
        s.len() <= max_width ==> fitted(s, max_width) == s,
{
    reveal_strlit("…");
}

/// The line between rows of a table, for the first `n` columns.
pub open spec fn separator(widths: Seq<usize>, n: int) -> Seq<char>
    decreases n,
{
    if n <= 0 {
        "+"@
    } else {
        separator(widths, n - 1) + repeated('-', (widths[n - 1] + 2) as nat) + "+"@
    }
}

/// The line between rows of a table.
pub fn sep_line(widths: &Vec<usize>) -> (r: String)
    ensures
        r@ == separator(widths@, widths@.len() as int),
{
    let mut line = "+".to_owned();
    let mut i: usize = 0;
    while i < widths.len()
        invariant
            i <= widths.len(),
            line@ == separator(widths@, i as int),
        decreases widths.len() - i,
    {
        let ghost before = line@;
        line.append(repeat('-', widths[i]).as_str());
        line.append("--");
        line.append("+");
        proof {
            reveal_strlit("--");
            let w = widths@[i as int] as nat;
            assert(repeated('-', w) + "--"@ =~= repeated('-', w + 2));
            assert(line@ =~= before + repeated('-', w + 2) + "+"@);
        }
        i = i + 1;
    }
    line
}

/// The widths of the columns of the table.
pub struct TableWidths {
    pub session: usize,
    pub time: usize,
    pub summary: usize,
    pub images: usize,
    pub length: usize,
}

/// The larger of two numbers.
pub open spec fn max_of(a: nat, b: nat) -> nat {
    if a > b {
        a
    } else {
        b
    }
}

/// The smaller of two numbers.
pub open spec fn lesser(a: nat, b: nat) -> nat {
    if a < b {
        a
    } else {
        b
    }
}

/// The widest of the first `n` session ids, in bytes.
pub open spec fn widest_session(rows: Seq<SessionListRow>, n: int) -> nat
    decreases n,
{
    if n <= 0 {
        0
    } else {
        max_of(widest_session(rows, n - 1), byte_len(rows[n - 1].session_id@) as nat)
    }
}

/// The widest of the first `n` timestamps, in bytes.
pub open spec fn widest_time(rows: Seq<SessionListRow>, n: int) -> nat
    decreases n,
{
    if n <= 0 {
        0
    } else {
        max_of(widest_time(rows, n - 1), byte_len(rows[n - 1].timestamp@) as nat)
    }
}

/// The widest of the first `n` durations, in bytes.
pub open spec fn widest_length(rows: Seq<SessionListRow>, n: int) -> nat
    decreases n,
{
    if n <= 0 {
        0
    } else {
        max_of(widest_length(rows, n - 1), byte_len(rows[n - 1].duration@) as nat)
    }
}

/// The widest of the first `n` image counts, in digits.
pub open spec fn widest_images(rows: Seq<SessionListRow>, n: int) -> nat
    decreases n,
{
    if n <= 0 {
        0
    } else {
        max_of(widest_images(rows, n - 1), byte_len(decimal(rows[n - 1].images as nat)) as nat)
    }
}

/// The widest of the first `n` summaries, in characters.
pub open spec fn widest_summary(rows: Seq<SessionListRow>, n: int) -> nat
    decreases n,
{
    if n <= 0 {
        0
    } else {
        max_of(widest_summary(rows, n - 1), rows[n - 1].summary@.len())
    }
}

/// The width of the terminal: the one that is set, where it can be read, else 140.
pub open spec fn terminal_columns(set: Option<Seq<char>>) -> nat {
    match set {
        Some(s) => match parsed_unsigned(s, usize::MAX as nat) {
            Some(n) => n,
            None => 140,
        },
        None => 140,
    }
}

/// The width of the summary column: what is left of the terminal where that is more than 20, but
/// no wider than the summaries and no narrower than 20.
pub open spec fn summary_width(columns: nat, fixed: nat, widest: nat) -> nat {
    let wanted = max_of(7, widest);
    if columns > fixed + 20 {
        max_of(20, lesser(wanted, (columns - fixed) as nat))
    } else {
        max_of(20, lesser(wanted, 70))
    }
}

/// The widths of the columns for these rows.
pub open spec fn widths_of(w: TableWidths, rows: Seq<SessionListRow>, columns: nat) -> bool {
    let n = rows.len() as int;
    &&& w.session == max_of(7, widest_session(rows, n))
    &&& w.time == max_of(9, widest_time(rows, n))
    &&& w.images == max_of(4, widest_images(rows, n))
    &&& w.length == max_of(6, widest_length(rows, n))
    &&& w.summary == summary_width(
        columns,
        w.session as nat + w.time as nat + w.images as nat + w.length as nat + 16,
        widest_summary(rows, n),
    )
}

/// The widths of the columns for these rows.
pub fn table_widths(rows: &Vec<SessionListRow>, columns: Option<&str>) -> (r: TableWidths)
    ensures
        widths_of(
            r,
            rows@,
            terminal_columns(
                match columns {
                    Some(s) => Some(s@),
                    None => None,
                },
            ),
        ),
{
    let mut session: usize = 7;
    let mut time: usize = 9;
    let mut images: usize = 4;
    let mut length: usize = 6;
    let mut widest: usize = 7;
    let mut i: usize = 0;
    while i < rows.len()
        invariant
            i <= rows.len(),
            session == max_of(7, widest_session(rows@, i as int)),
            time == max_of(9, widest_time(rows@, i as int)),
            images == max_of(4, widest_images(rows@, i as int)),
            length == max_of(6, widest_length(rows@, i as int)),
            widest == max_of(7, widest_summary(rows@, i as int)),
        decreases rows.len() - i,
    {
        let row = &rows[i];
        let a: usize = row.session_id.as_str().len();
        let b: usize = row.timestamp.as_str().len();
        let digits = decimal_text(row.images as u64);
        let c: usize = digits.as_str().len();
        let d: usize = row.duration.as_str().len();
        let e: usize = row.summary.as_str().unicode_len();
        if a > session {
            session = a;
        }
        if b > time {
            time = b;
        }
        if c > images {
            images = c;
        }
        if d > length {
            length = d;
        }
        if e > widest {
            widest = e;
        }
        i = i + 1;
    }
    let term: usize = match columns {
        Some(s) => match parse_bounded(s, usize::MAX as u64) {
            Some(n) => n as usize,
            None => 140,
        },
        None => 140,
    };
    let fixed: u128 = session as u128 + time as u128 + images as u128 + length as u128 + 16;
    let limit: usize = if term as u128 > fixed + 20 {
        (term as u128 - fixed) as usize
    } else {
        70
    };
    let bounded: usize = if widest < limit {
        widest
    } else {
        limit
    };
    let summary: usize = if bounded < 20 {
        20
    } else {
        bounded
    };
    TableWidths { session, time, summary, images, length }
}

/// A row of the table.
pub open spec fn table_row(
    w: TableWidths,
    session: Seq<char>,
    time: Seq<char>,
    summary: Seq<char>,
    images: Seq<char>,
    length: Seq<char>,
) -> Seq<char> {
    "| "@ + padded_right(session, w.session as nat) + " | "@ + padded_right(time, w.time as nat)
        + " | "@ + padded_right(summary, w.summary as nat) + " | "@ + padded_left(
        images,
        ' ',
        w.images as nat,
    ) + " | "@ + padded_left(length, ' ', w.length as nat) + " |"@
}

/// The row of a session.
pub open spec fn session_row(w: TableWidths, row: SessionListRow) -> Seq<char> {
    table_row(
        w,
        row.session_id@,
        row.timestamp@,
        fitted(row.summary@, w.summary as nat),
        decimal(row.images as nat),
        row.duration@,
    )
}

/// A row of the table.
fn render_row(
    w: &TableWidths,
    session: &str,
    time: &str,
    summary: &str,
    images: &str,
    length: &str,
) -> (r: String)
    ensures
        r@ == table_row(*w, session@, time@, summary@, images@, length@),
{
    let mut out = "| ".to_owned();
    out.append(pad_right(session, w.session).as_str());
    out.append(" | ");
    out.append(pad_right(time, w.time).as_str());
    out.append(" | ");
    out.append(pad_right(summary, w.summary).as_str());
    out.append(" | ");
    out.append(pad_left(images, ' ', w.images).as_str());
    out.append(" | ");
    out.append(pad_left(length, ' ', w.length).as_str());
    out.append(" |");
    out
}

/// The line between the rows of the table.
pub open spec fn table_separator(w: TableWidths) -> Seq<char> {
    separator(seq![w.session, w.time, w.summary, w.images, w.length], 5)
}

/// The lines of the table.
pub open spec fn table_lines(w: TableWidths, rows: Seq<SessionListRow>) -> Seq<Seq<char>> {
    seq![
        table_separator(w),
        table_row(w, "session"@, "timestamp"@, "summary"@, "imgs"@, "length"@),
        table_separator(w),
    ] + rows.map_values(|r: SessionListRow| session_row(w, r)) + seq![table_separator(w)]
}

/// The table of sessions for a terminal of this width.
pub fn render_sessions_table(rows: &Vec<SessionListRow>, columns: Option<&str>) -> (r: String)
    ensures
        exists|w: TableWidths|
            #![trigger table_lines(w, rows@)]
            widths_of(
                w,
                rows@,
                terminal_columns(
                    match columns {
                        Some(s) => Some(s@),
                        None => None,
                    },
                ),
            ) && r@ == joined(table_lines(w, rows@), "\n"@),
{
    let w = table_widths(rows, columns);
    let widths: Vec<usize> = vec![w.session, w.time, w.summary, w.images, w.length];
    let sep = sep_line(&widths);
    assert(widths@ =~= seq![w.session, w.time, w.summary, w.images, w.length]);
    let mut out = Lines::new();
    out.add(sep.as_str());
    out.add(render_row(&w, "session", "timestamp", "summary", "imgs", "length").as_str());
    out.add(sep.as_str());
    let ghost f = |r: SessionListRow| session_row(w, r);
    let ghost head = out@;
    assert(head =~= seq![
        table_separator(w),
        table_row(w, "session"@, "timestamp"@, "summary"@, "imgs"@, "length"@),
        table_separator(w),
    ]);
    let mut i: usize = 0;
    assert(out@ =~= head + rows@.subrange(0, 0).map_values(f));
    while i < rows.len()
        invariant
            i <= rows.len(),
            f == (|r: SessionListRow| session_row(w, r)),
            out@ == head + rows@.subrange(0, i as int).map_values(f),
        decreases rows.len() - i,
    {
        let row = &rows[i];
        let line = render_row(
            &w,
            row.session_id.as_str(),
            row.timestamp.as_str(),
            truncate_to_width(row.summary.as_str(), w.summary).as_str(),
            decimal_text(row.images as u64).as_str(),
            row.duration.as_str(),
        );
        out.add(line.as_str());
        proof {
            assert(line@ == f(rows@[i as int]));
            assert(rows@.subrange(0, i + 1).map_values(f) =~= rows@.subrange(0, i as int).map_values(
                f,
            ).push(f(rows@[i as int])));
            assert(out@ =~= head + rows@.subrange(0, i + 1).map_values(f));
        }
        i = i + 1;
    }
    out.add(sep.as_str());
    assert(rows@.subrange(0, rows@.len() as int) =~= rows@);
    assert(out@ =~= table_lines(w, rows@));
    out.join("\n")
}

// ---------------------------------------------------------------------------------------------
// Finding a session
// ---------------------------------------------------------------------------------------------

/// `s`, latest first, with `name` put where the order puts it, behind names that are the same.
pub open spec fn insert_latest(s: Seq<Seq<char>>, name: Seq<char>) -> Seq<Seq<char>>
    decreases s.len(),
{
    if s.len() == 0 || !precedes(s.last(), name) {
        s.push(name)
    } else {
        insert_latest(s.drop_last(), name).push(s.last())
    }
}

/// The first `n` names, latest first.
pub open spec fn latest_first(names: Seq<Seq<char>>, n: int) -> Seq<Seq<char>>
    decreases n,
{
    if n <= 0 {
        Seq::empty()
    } else {
        insert_latest(latest_first(names, n - 1), names[n - 1])
    }
}

/// At most `limit` of the names, latest first.
pub open spec fn recent_of(names: Seq<Seq<char>>, limit: nat) -> Seq<Seq<char>> {
    let all = latest_first(names, names.len() as int);
    if all.len() > limit {
        all.subrange(0, limit as int)
    } else {
        all
    }
}

/// Puts `name` where the order, latest first, puts it.
fn insert_recent(v: &mut Vec<String>, name: &str)
    ensures
        views(final(v)@) == insert_latest(views(old(v)@), name@),
{
    let ghost all = views(v@);
    let ghost orig = v@;
    let mut n: usize = v.len();
    assert(all.subrange(0, n as int) =~= all);
    assert(insert_latest(all, name@) =~= insert_latest(all, name@) + all.subrange(
        n as int,
        n as int,
    ));
    while n > 0 && comes_before(v[n - 1].as_str(), name)
        invariant
            n <= v.len(),
            v@ == orig,
            all == views(orig),
            insert_latest(all, name@) == insert_latest(all.subrange(0, n as int), name@)
                + all.subrange(n as int, all.len() as int),
        decreases n,
    {
        proof {
            let s = all.subrange(0, n as int);
            assert(s.last() == orig[n - 1]@);
            assert(s.drop_last() =~= all.subrange(0, n - 1));
            assert(insert_latest(s.drop_last(), name@).push(s.last()) + all.subrange(
                n as int,
                all.len() as int,
            ) =~= insert_latest(s.drop_last(), name@) + all.subrange(n - 1, all.len() as int));
        }
        n = n - 1;
    }
    proof {
        let s = all.subrange(0, n as int);
        if n > 0 {
            assert(s.last() == orig[n - 1]@);
        }
        assert(insert_latest(s, name@) == s.push(name@));
        assert(s.push(name@) + all.subrange(n as int, all.len() as int) =~= all.insert(
            n as int,
            name@,
        ));
    }
    v.insert(n, name.to_owned());
    assert(views(v@) =~= all.insert(n as int, name@));
}

/// At most `limit` of the session directories, latest first.
pub fn collect_recent_session_dirs(names: &Vec<String>, limit: usize) -> (r: Vec<String>)
    ensures
        views(r@) == recent_of(views(names@), limit as nat),
{
    let ghost all = views(names@);
    let mut out: Vec<String> = Vec::new();
    let mut i: usize = 0;
    assert(views(out@) =~= Seq::empty());
    while i < names.len()
        invariant
            i <= names.len(),
            all == views(names@),
            views(out@) == latest_first(all, i as int),
        decreases names.len() - i,
    {
        assert(all[i as int] == names@[i as int]@);
        insert_recent(&mut out, names[i].as_str());
        i = i + 1;
    }
    let ghost sorted = views(out@);
    if out.len() > limit {
        out.truncate(limit);
        assert(views(out@) =~= sorted.subrange(0, limit as int));
    }
    out
}

/// Whether names are in descending order.
pub open spec fn latest_come_first(s: Seq<Seq<char>>) -> bool {
    forall|i: int, j: int| 0 <= i < j < s.len() ==> !precedes(s[i], s[j])
}

proof fn lemma_insert_latest(s: Seq<Seq<char>>, name: Seq<char>)
    requires
        latest_come_first(s),
    ensures
        latest_come_first(insert_latest(s, name)),
        insert_latest(s, name).len() == s.len() + 1,
        forall|k: int|
            0 <= k < insert_latest(s, name).len() ==> (#[trigger] insert_latest(s, name)[k])
                == name || s.contains(insert_latest(s, name)[k]),
    decreases s.len(),
{
    let r = insert_latest(s, name);
    if s.len() == 0 || !precedes(s.last(), name) {
        assert forall|k: int| 0 <= k < r.len() implies (#[trigger] r[k]) == name || s.contains(
            r[k],
        ) by {
            if k < s.len() {
                assert(s[k] == r[k]);
            }
        }
        assert forall|i: int, j: int| 0 <= i < j < r.len() implies !precedes(r[i], r[j]) by {
            if j == s.len() && i < s.len() - 1 {
                if precedes(s[i], name) {
                    assert(!precedes(s[i], s.last()));
                    if s.last() != s[i] {
                        key_order_is_total(s.last(), s[i]);
                        key_order_is_transitive(s.last(), s[i], name);
                    }
                }
            }
        }
    } else {
        let front = s.drop_last();
        lemma_insert_latest(front, name);
        let inner = insert_latest(front, name);
        assert forall|k: int| 0 <= k < r.len() implies (#[trigger] r[k]) == name || s.contains(
            r[k],
        ) by {
            if k < inner.len() {
                assert(r[k] == inner[k]);
                if inner[k] != name {
                    let j = choose|j: int| 0 <= j < front.len() && front[j] == inner[k];
                    assert(s[j] == r[k]);
                }
            } else {
                assert(s[s.len() - 1] == r[k]);
            }
        }
        assert forall|i: int, j: int| 0 <= i < j < r.len() implies !precedes(r[i], r[j]) by {
            if j == inner.len() {
                assert(r[i] == inner[i]);
                if inner[i] == name {
                    if precedes(name, s.last()) {
                        if name == s.last() {
                            key_order_is_irreflexive(name);
                        } else {
                            key_order_is_total(name, s.last());
                        }
                    }
                } else {
                    let k = choose|k: int| 0 <= k < front.len() && front[k] == inner[i];
                    assert(s[k] == inner[i]);
                }
            } else {
                assert(r[i] == inner[i] && r[j] == inner[j]);
            }
        }
    }
}

/// Sessions are listed with the latest first, and none is left out.
pub proof fn sessions_come_latest_first(names: Seq<Seq<char>>, n: int)
    requires
        0 <= n <= names.len(),
    ensures
        latest_come_first(latest_first(names, n)),
        latest_first(names, n).len() == n,
    decreases n,
{
    if n > 0 {
        sessions_come_latest_first(names, n - 1);
        lemma_insert_latest(latest_first(names, n - 1), names[n - 1]);
    }
}

/// The session of this rank: the latest is of rank 1.
pub fn resolve_recent_session_dir(names: &Vec<String>, rank: usize) -> (r: Result<
    String,
    AppError,
>)
    ensures
        if rank == 0 {
            r matches Err(e) && e.code == 8 && e.message@ == "Session index must be >= 1."@
        } else if names@.len() == 0 {
            r matches Err(e) && e.code == 8 && e.message@ == "No sessions found."@
        } else if names@.len() < rank {
            r matches Err(e) && e.code == 8 && e.message@ == "Requested session "@ + decimal(
                rank as nat,
            ) + " but only "@ + decimal(names@.len()) + " session(s) exist."@
        } else {
            r matches Ok(s) && s@ == latest_first(views(names@), names@.len() as int)[rank - 1]
        },
{
    if rank == 0 {
        return Err(app_error(8, "Session index must be >= 1."));
    }
    let recent = collect_recent_session_dirs(names, rank);
    proof {
        sessions_come_latest_first(views(names@), names@.len() as int);
        assert(views(recent@).len() == recent@.len());
    }
    if recent.len() == 0 {
        return Err(app_error(8, "No sessions found."));
    }
    if recent.len() < rank {
        let mut m = concat3(
            "Requested session ",
            decimal_text(rank as u64).as_str(),
            " but only ",
        );
        m.append(decimal_text(recent.len() as u64).as_str());
        m.append(" session(s) exist.");
        return Err(app_error(8, m.as_str()));
    }
    assert(views(recent@)[rank - 1] == recent@[rank - 1]@);
    Ok(recent[rank - 1].clone())
}

/// Whether a session id stays within the directory of the sessions.
pub open spec fn is_plain_id(id: Seq<char>) -> bool {
    !contains(id, "/"@) && !contains(id, ".."@)
}

/// Whether a session id can be looked up: it names no other directory.
pub fn check_session_id(session_id: &str) -> (r: Result<(), AppError>)
    ensures
        r is Ok <==> is_plain_id(session_id@),
        r matches Err(e) ==> e.code == 8 && e.message@ == "Invalid session id: "@ + session_id@,
{
    if contains_text(session_id, "/") || contains_text(session_id, "..") {
        Err(app_error(8, concat("Invalid session id: ", session_id).as_str()))
    } else {
        Ok(())
    }
}

/// The directory of a session, given whether it is there.
pub fn resolve_session_dir_by_id(sessions_dir: &str, session_id: &str, is_dir: bool) -> (r: Result<
    String,
    AppError,
>)
    ensures
        if !is_plain_id(session_id@) {
            r matches Err(e) && e.code == 8 && e.message@ == "Invalid session id: "@ + session_id@
        } else if !is_dir {
            r matches Err(e) && e.code == 8 && e.message@ == "Session not found: "@ + session_id@
                + " (run 'riff list' to see available ids)"@
        } else {
            r matches Ok(p) && p@ == joined_path(sessions_dir@, session_id@)
        },
{
    if let Err(e) = check_session_id(session_id) {
        return Err(e);
    }
    if !is_dir {
        return Err(
            app_error(
                8,
                concat3(
                    "Session not found: ",
                    session_id,
                    " (run 'riff list' to see available ids)",
                ).as_str(),
            ),
        );
    }
    Ok(join_path(sessions_dir, session_id))
}

/// A session that is found by its id lies directly in the directory of the sessions.
pub proof fn found_sessions_stay_inside(sessions_dir: Seq<char>, id: Seq<char>)
    requires
        is_plain_id(id),
        sessions_dir.len() > 0,
        !"/"@.is_suffix_of(sessions_dir),
    ensures
        joined_path(sessions_dir, id) == sessions_dir + "/"@ + id,
{
    reveal_strlit("/");
    if "/"@.is_prefix_of(id) {
        assert(crate::pattern::occurs_at(id, "/"@, 0));
    }
}

// ---------------------------------------------------------------------------------------------
// The list
// ---------------------------------------------------------------------------------------------

/// What the list says of a session.
pub struct SessionFacts {
    pub session_id: String,
    pub at: Option<LocalTime>,
    pub transcript: String,
    pub files: Vec<String>,
    pub duration: Option<Measure>,
}

/// Whether this is the row of a session in the list.
pub open spec fn is_row_of(r: SessionListRow, facts: SessionFacts) -> bool {
    &&& r.session_id@ == facts.session_id@
    &&& r.timestamp@ == match facts.at {
        Some(t) => human_time(t),
        None => "unknown"@,
    }
    &&& r.summary@ == if says_nothing(facts.transcript@) {
        "— [0 words]"@
    } else {
        words_summary(summary_words(facts.transcript@))
    }
    &&& r.images == images_among(views(facts.files@), facts.files@.len() as int).len()
    &&& r.duration@ == match facts.duration {
        Some(s) => compact_duration(s.whole_of() as nat),
        None => "-"@,
    }
}

/// The row of a session in the list.
pub fn build_list_row(facts: &SessionFacts) -> (r: SessionListRow)
    ensures
        is_row_of(r, *facts),
{
    SessionListRow {
        session_id: facts.session_id.clone(),
        timestamp: format_timestamp_human(&facts.at),
        summary: summarize_transcript(facts.transcript.as_str()),
        images: count_session_images(&facts.files),
        duration: format_duration_compact(&facts.duration),
    }
}

/// The rows of the recent sessions, one for each and in their order.
pub fn collect_recent_session_rows(sessions: &Vec<SessionFacts>) -> (r: Vec<SessionListRow>)
    ensures
        r@.len() == sessions@.len(),
        forall|i: int| 0 <= i < r@.len() ==> is_row_of(#[trigger] r@[i], sessions@[i]),
{
    let mut out: Vec<SessionListRow> = Vec::new();
    let mut i: usize = 0;
    while i < sessions.len()
        invariant
            i <= sessions.len(),
            out@.len() == i,
            forall|k: int| 0 <= k < i ==> is_row_of(#[trigger] out@[k], sessions@[k]),
        decreases sessions.len() - i,
    {
        out.push(build_list_row(&sessions[i]));
        i = i + 1;
    }
    out
}

/// How many sessions are listed: ten where nothing is asked for, and one to 200.
pub fn list_limit(n: Option<usize>) -> (r: usize)
    ensures
        r == match n {
            Some(v) => if v < 1 {
                1
            } else if v > 200 {
                200
            } else {
                v
            },
            None => 10,
        },
{
    match n {
        Some(v) => if v < 1 {
            1
        } else if v > 200 {
            200
        } else {
            v
        },
        None => 10,
    }
}

/// What is reported of a session in the list.
pub open spec fn row_tree(r: SessionListRow) -> Tree {
    Tree::Object(
        object_of(
            seq![
                ("session_id"@, Tree::Text(r.session_id@)),
                ("timestamp"@, Tree::Text(r.timestamp@)),
                ("summary"@, Tree::Text(r.summary@)),
                ("images"@, count_tree(r.images as nat)),
                ("duration"@, Tree::Text(r.duration@)),
            ],
        ),
    )
}

/// What is reported of the sessions in the list.
pub fn list_report(rows: &Vec<SessionListRow>) -> (r: Json)
    ensures
        r@ == Tree::Object(
            object_of(
                seq![
                    ("ok"@, Tree::Bool(true)),
                    ("count"@, count_tree(rows@.len())),
                    (
                        "sessions"@,
                        Tree::List(rows@.map_values(|r: SessionListRow| row_tree(r))),
                    ),
                ],
            ),
        ),
{
    let mut items: Vec<Json> = Vec::new();
    let ghost f = |r: SessionListRow| row_tree(r);
    let mut i: usize = 0;
    assert(item_views(items@) =~= rows@.subrange(0, 0).map_values(f));
    while i < rows.len()
        invariant
            i <= rows.len(),
            f == (|r: SessionListRow| row_tree(r)),
            item_views(items@) == rows@.subrange(0, i as int).map_values(f),
        decreases rows.len() - i,
    {
        let row = &rows[i];
        let ghost before = items@;
        let mut p = Pairs::new();
        p.text("session_id", row.session_id.as_str());
        p.text("timestamp", row.timestamp.as_str());
        p.text("summary", row.summary.as_str());
        p.count("images", row.images as u64);
        p.text("duration", row.duration.as_str());
        assert(p@ == seq![
            ("session_id"@, Tree::Text(row.session_id@)),
            ("timestamp"@, Tree::Text(row.timestamp@)),
            ("summary"@, Tree::Text(row.summary@)),
            ("images"@, count_tree(row.images as nat)),
            ("duration"@, Tree::Text(row.duration@)),
        ]);
        items.push(p.object());
        proof {
            assert(item_views(items@) =~= item_views(before).push(f(rows@[i as int])));
            assert(rows@.subrange(0, i + 1).map_values(f) =~= rows@.subrange(
                0,
                i as int,
            ).map_values(f).push(f(rows@[i as int])));
        }
        i = i + 1;
    }
    assert(rows@.subrange(0, rows@.len() as int) =~= rows@);
    let list = Json::List(items);
    proof {
        lemma_tree(list);
    }
    let mut p = Pairs::new();
    p.flag("ok", true);
    p.count("count", rows.len() as u64);
    p.add("sessions", list);
    assert(p@ == seq![
        ("ok"@, Tree::Bool(true)),
        ("count"@, count_tree(rows@.len())),
        ("sessions"@, Tree::List(rows@.map_values(f))),
    ]);
    p.object()
}

/// How many sessions the page of all sessions shows: 500 where nothing is set, and one to 5000.
pub fn sessions_index_limit(set: Option<&str>) -> (r: u64)
    ensures
        r == match set {
            Some(v) => match parsed_unsigned(v@, u64::MAX as nat) {
                Some(n) => clamped(n, 1, 5000),
                None => 500,
            },
            None => 500,
        },
{
    env_u64(set, 500, 1, 5000)
}

// ---------------------------------------------------------------------------------------------
// What the events, the times and the table of sessions say
// ---------------------------------------------------------------------------------------------

/// A session started when its first event of that kind says, and ended when the last one says;
/// what the last one says of the transcription is kept.
pub proof fn first_start_and_last_stop_count(events: Seq<Tree>, first: int, last: int)
    requires
        0 <= first < events.len(),
        0 <= last < events.len(),
        text_field(events[first], "type"@) == Some("session_started"@),
        forall|i: int|
            0 <= i < first ==> text_field(#[trigger] events[i], "type"@) != Some(
                "session_started"@,
            ),
        text_field(events[last], "type"@) == Some("session_stopped"@),
        forall|i: int|
            last < i < events.len() ==> text_field(#[trigger] events[i], "type"@) != Some(
                "session_stopped"@,
            ),
    ensures
        started_of(events) == text_field(events[first], "ts"@),
        ended_of(events) == text_field(events[last], "ts"@),
        field(events[last], "transcription"@) matches Some(t) ==> transcription_of(events) == t,
        number_field(events[last], "audio_duration_sec"@) matches Some(n) ==> duration_of(
            events,
            events.len() as int,
        ) == Some(n),
{
    lemma_first_of_type(events, "session_started"@, 0, first);
    lemma_last_of_type(events, "session_stopped"@, last, events.len() as int);
    lemma_duration_of(events, last, events.len() as int);
}

/// A session without such events has not started, has not ended, and nothing is known of its
/// transcription and of its duration.
pub proof fn silent_logs_say_nothing(events: Seq<Tree>)
    requires
        forall|i: int|
            0 <= i < events.len() ==> text_field(#[trigger] events[i], "type"@) != Some(
                "session_started"@,
            ) && text_field(events[i], "type"@) != Some("session_stopped"@),
    ensures
        started_of(events) is None,
        ended_of(events) is None,
        duration_of(events, events.len() as int) is None,
        text_field(transcription_of(events), "status"@) == Some("unknown"@),
{
    lemma_none_of_type(events, "session_started"@, 0);
    lemma_none_before(events, "session_stopped"@, events.len() as int);
    lemma_no_duration(events, events.len() as int);
    pairs_read_back(seq![("status"@, Tree::Text("unknown"@))], 0);
}

proof fn lemma_first_of_type(events: Seq<Tree>, kind: Seq<char>, i: int, at: int)
    requires
        0 <= i <= at < events.len(),
        is_type(events[at], kind),
        forall|k: int| i <= k < at ==> !is_type(#[trigger] events[k], kind),
    ensures
        first_of_type(events, kind, i) == Some(at),
    decreases at - i,
{
    if i < at {
        assert(!is_type(events[i], kind));
        lemma_first_of_type(events, kind, i + 1, at);
    }
}

proof fn lemma_last_of_type(events: Seq<Tree>, kind: Seq<char>, at: int, n: int)
    requires
        0 <= at < n <= events.len(),
        is_type(events[at], kind),
        forall|k: int| at < k < n ==> !is_type(#[trigger] events[k], kind),
    ensures
        last_of_type(events, kind, n) == Some(at),
    decreases n,
{
    if at < n - 1 {
        assert(!is_type(events[n - 1], kind));
        lemma_last_of_type(events, kind, at, n - 1);
    }
}

proof fn lemma_duration_of(events: Seq<Tree>, at: int, n: int)
    requires
        0 <= at < n <= events.len(),
        is_type(events[at], "session_stopped"@),
        forall|k: int| at < k < n ==> !is_type(#[trigger] events[k], "session_stopped"@),
    ensures
        number_field(events[at], "audio_duration_sec"@) is Some ==> duration_of(events, n)
            == number_field(events[at], "audio_duration_sec"@),
    decreases n,
{
    if at < n - 1 {
        assert(!is_type(events[n - 1], "session_stopped"@));
        lemma_duration_of(events, at, n - 1);
    }
}

proof fn lemma_none_of_type(events: Seq<Tree>, kind: Seq<char>, i: int)
    requires
        0 <= i,
        forall|k: int| 0 <= k < events.len() ==> !is_type(#[trigger] events[k], kind),
    ensures
        first_of_type(events, kind, i) is None,
    decreases events.len() - i,
{
    if i < events.len() {
        assert(!is_type(events[i], kind));
        lemma_none_of_type(events, kind, i + 1);
    }
}

proof fn lemma_none_before(events: Seq<Tree>, kind: Seq<char>, n: int)
    requires
        n <= events.len(),
        forall|k: int| 0 <= k < events.len() ==> !is_type(#[trigger] events[k], kind),
    ensures
        last_of_type(events, kind, n) is None,
    decreases n,
{
    if n > 0 {
        assert(!is_type(events[n - 1], kind));
        lemma_none_before(events, kind, n - 1);
    }
}

proof fn lemma_no_duration(events: Seq<Tree>, n: int)
    requires
        n <= events.len(),
        forall|k: int|
            0 <= k < events.len() ==> !is_type(#[trigger] events[k], "session_stopped"@),
    ensures
        duration_of(events, n) is None,
    decreases n,
{
    if n > 0 {
        assert(!is_type(events[n - 1], "session_stopped"@));
        lemma_no_duration(events, n - 1);
    }
}

/// The text file of a session is its transcript unless it is blank; else the note is looked at. What
/// is handed out is the other way round: the note counts first.
pub proof fn transcripts_have_two_places(
    text: Seq<char>,
    note: Option<Seq<char>>,
    kept: Seq<char>,
    dir: Seq<char>,
    r: Result<String, AppError>,
)
    ensures
        trimmed(text).len() > 0 ==> session_transcript(Some(text), note) == text,
        trimmed(text).len() == 0 ==> session_transcript(Some(text), note) == session_transcript(
            None,
            note,
        ),
        note matches Some(n) ==> (note_transcript(n) matches Some(s) ==> session_transcript(None, note)
            == s),
        session_transcript(None, None).len() == 0,
        trimmed(kept).len() > 0 && is_handed_out(kept, Some(text), dir, r) ==> (r matches Ok(t)
            && t@ == trimmed(kept)),
        trimmed(kept).len() == 0 && trimmed(text).len() > 0 && is_handed_out(
            kept,
            Some(text),
            dir,
            r,
        ) ==> (r matches Ok(t) && t@ == trimmed(text)),
        trimmed(kept).len() == 0 && trimmed(text).len() == 0 && is_handed_out(
            kept,
            Some(text),
            dir,
            r,
        ) ==> (r matches Err(e) && e.code == 8 && e.message@ == "No transcript found for session: "@
            + dir),
        note matches Some(n) ==> (note_transcript(n) matches Some(s) ==> kept_in_note(note) == s),
{
}

/// Every line that is no path of a screenshot adds its words to those that a summary counts.
pub proof fn summaries_count_line_by_line(before: Seq<char>, line: Seq<char>)
    requires
        before.len() > 0 ==> before.last() == '\n',
        line.len() > 0,
        !line.contains('\n'),
        !("Screenshot "@.is_prefix_of(trimmed(line)) && contains(trimmed(line), ":"@)),
    ensures
        summary_words(before + line) == summary_words(before) + words_of(line).filter_map(
            |w: Seq<char>| counted_word(w),
        ),
{
    reveal(Seq::filter);
    reveal_strlit(" ");
    let p = |l: Seq<char>| !is_path_line(l);
    let f = |w: Seq<char>| counted_word(w);
    lemma_lines_append(before, line);
    lemma_single_line(line);
    let all = lines_of(before) + lines_of(line);
    assert(all.drop_last() =~= lines_of(before));
    assert(all.last() == line);
    let kept = lines_of(before).filter(p);
    assert(all.filter(p) == kept.push(line));
    assert(kept.push(line).drop_last() =~= kept);
    assert(" "@ =~= seq![' ']);
    if kept.len() > 0 {
        lemma_words_append(joined(kept, " "@), ' ', line);
        lemma_filter_map_adds(words_of(joined(kept, " "@)), words_of(line), f);
    } else {
        assert(joined(kept.push(line), " "@) == line);
        assert(joined(kept, " "@) =~= Seq::empty());
        lemma_blank_words(Seq::<char>::empty());
        lemma_filter_map_adds(Seq::empty(), words_of(line), f);
        assert(Seq::<Seq<char>>::empty() + words_of(line) =~= words_of(line));
    }
}

/// What is kept of two lists is what is kept of each.
pub proof fn lemma_filter_map_adds<A, B>(a: Seq<A>, b: Seq<A>, f: spec_fn(A) -> Option<B>)
    ensures
        (a + b).filter_map(f) == a.filter_map(f) + b.filter_map(f),
    decreases b.len(),
{
    reveal(Seq::filter_map);
    if b.len() == 0 {
        assert(a + b =~= a);
    } else {
        lemma_filter_map_adds(a, b.drop_last(), f);
        assert((a + b).drop_last() =~= a + b.drop_last());
        assert((a + b).last() == b.last());
    }
}

/// The word `screenshot` does not count, however it is written and whatever stands around it; another
/// word counts without what stands around it.
pub proof fn words_count_bare(front: Seq<char>, core: Seq<char>, back: Seq<char>)
    requires
        forall|i: int| 0 <= i < front.len() ==> !is_word_char(#[trigger] front[i]),
        forall|i: int| 0 <= i < back.len() ==> !is_word_char(#[trigger] back[i]),
        core.len() > 0,
        is_word_char(core[0]),
        is_word_char(core.last()),
    ensures
        ascii_lower(core) == "screenshot"@ ==> counted_word(front + core + back) is None,
        ascii_lower(core) != "screenshot"@ ==> counted_word(front + core + back) == Some(core),
        counted_word(front) is None,
{
    punctuation_around_words_is_dropped(front, core, back);
}

/// The time of a session is shown with the day of the week by its first letters, and by a clock of
/// twelve hours: midnight and noon are at twelve.
pub proof fn shown_times_go_by_a_dial(t: LocalTime)
    requires
        t.weekday < 7,
        t.hour < 24,
    ensures
        ({
            let day = "sunmontuewedthufrisat"@.subrange(3 * t.weekday, 3 * t.weekday + 3);
            let hour = if t.hour == 0 || t.hour == 12 {
                12
            } else if t.hour < 12 {
                t.hour as nat
            } else {
                (t.hour - 12) as nat
            };
            let half = if t.hour < 12 {
                "am"@
            } else {
                "pm"@
            };
            human_time(t) == day + " "@ + decimal(t.month as nat) + "-"@ + decimal(t.day as nat)
                + " "@ + decimal(hour) + ":"@ + padded_left(decimal(t.minute as nat), '0', 2) + half
        }),
{
    reveal_strlit("sunmontuewedthufrisat");
    reveal_strlit("sun");
    reveal_strlit("mon");
    reveal_strlit("tue");
    reveal_strlit("wed");
    reveal_strlit("thu");
    reveal_strlit("fri");
    reveal_strlit("sat");
    let day = "sunmontuewedthufrisat"@.subrange(3 * t.weekday, 3 * t.weekday + 3);
    assert(weekday_of(t.weekday) =~= day);
}

/// A duration is shown in its two largest units, and the smaller one only where it is not zero.
pub proof fn durations_are_shown_in_two_units(h: nat, m: nat, s: nat)
    requires
        m < 60,
        s < 60,
    ensures
        compact_duration(s) == decimal(s) + "s"@,
        m > 0 && s > 0 ==> compact_duration(m * 60 + s) == decimal(m) + "m "@ + decimal(s) + "s"@,
        m > 0 ==> compact_duration(m * 60) == decimal(m) + "m"@,
        h > 0 && m > 0 ==> compact_duration(h * 3600 + m * 60 + s) == decimal(h) + "h "@ + decimal(
            m,
        ) + "m"@,
        h > 0 ==> compact_duration(h * 3600 + s) == decimal(h) + "h"@,
        clock_duration(h * 3600 + m * 60 + s) == padded_left(decimal(h), '0', 2) + ":"@ + padded_left(
            decimal(m),
            '0',
            2,
        ) + ":"@ + padded_left(decimal(s), '0', 2),
{
    let sec = h * 3600 + m * 60 + s;
    assert(sec / 3600 == h && (sec % 3600) / 60 == m && sec % 60 == s);
    let whole = h * 3600 + s;
    assert(whole / 3600 == h && (whole % 3600) / 60 == 0);
    assert((m * 60 + s) / 60 == m && (m * 60 + s) % 60 == s);
    assert((m * 60) / 60 == m && (m * 60) % 60 == 0);
    assert(clock_duration(sec) == two_digits(h) + ":"@ + two_digits(m) + ":"@ + two_digits(s));
}

/// A text that is too wide is cut so that it fits with an ellipsis behind it, and one that fits stays.
pub proof fn cut_texts_end_in_an_ellipsis(s: Seq<char>, width: nat)
    requires
        width >= 2,
    ensures
        s.len() <= width ==> fitted(s, width) == s,
        s.len() > width ==> fitted(s, width).len() == width && fitted(s, width).last() == '…'
            && fitted(s, width).drop_last().is_prefix_of(s),
{
    reveal_strlit("…");
    if s.len() > width {
        assert(fitted(s, width).drop_last() =~= s.subrange(0, width - 1));
    }
}

/// The columns of the table are as wide as the widest of what stands in them and as their headings,
/// and no wider.
pub proof fn columns_hold_what_stands_in_them(
    w: TableWidths,
    rows: Seq<SessionListRow>,
    columns: nat,
    i: int,
)
    requires
        widths_of(w, rows, columns),
        0 <= i < rows.len(),
    ensures
        byte_len(rows[i].session_id@) <= w.session,
        byte_len(rows[i].timestamp@) <= w.time,
        byte_len(rows[i].duration@) <= w.length,
        byte_len(decimal(rows[i].images as nat)) <= w.images,
        "session"@.len() <= w.session,
        "timestamp"@.len() <= w.time,
        "imgs"@.len() <= w.images,
        "length"@.len() <= w.length,
        20 <= w.summary,
{
    reveal_strlit("session");
    reveal_strlit("timestamp");
    reveal_strlit("imgs");
    reveal_strlit("length");
    lemma_widest(rows, i, rows.len() as int);
}

proof fn lemma_widest(rows: Seq<SessionListRow>, i: int, n: int)
    requires
        0 <= i < n <= rows.len(),
    ensures
        byte_len(rows[i].session_id@) <= widest_session(rows, n),
        byte_len(rows[i].timestamp@) <= widest_time(rows, n),
        byte_len(rows[i].duration@) <= widest_length(rows, n),
        byte_len(decimal(rows[i].images as nat)) <= widest_images(rows, n),
        rows[i].summary@.len() <= widest_summary(rows, n),
    decreases n,
{
    if i < n - 1 {
        lemma_widest(rows, i, n - 1);
    }
}

/// The column of the summaries is wide enough for all of them where the terminal has the room.
pub proof fn summaries_use_the_room(columns: nat, fixed: nat, widest: nat)
    requires
        columns > fixed + 20,
    ensures
        20 <= widest <= columns - fixed ==> summary_width(columns, fixed, widest) == widest,
        widest > columns - fixed ==> summary_width(columns, fixed, widest) == columns - fixed,
        widest < 20 ==> summary_width(columns, fixed, widest) == 20,
{
}

/// The table has a line for every session, in their order, behind its heading and in front of its
/// last line.
pub proof fn tables_list_every_session(w: TableWidths, rows: Seq<SessionListRow>, i: int)
    requires
        0 <= i < rows.len(),
    ensures
        ({
            let r = rows[i];
            let lines = table_lines(w, rows);
            &&& lines.len() == rows.len() + 4
            &&& lines[3 + i] == "| "@ + padded_right(r.session_id@, w.session as nat) + " | "@
                + padded_right(r.timestamp@, w.time as nat) + " | "@ + padded_right(
                fitted(r.summary@, w.summary as nat),
                w.summary as nat,
            ) + " | "@ + padded_left(decimal(r.images as nat), ' ', w.images as nat) + " | "@
                + padded_left(r.duration@, ' ', w.length as nat) + " |"@
            &&& lines[0] == lines[2] && lines[2] == lines.last()
        }),
{
    let listed = rows.map_values(|r: SessionListRow| session_row(w, r));
    assert(listed[i] == session_row(w, rows[i]));
    assert(table_lines(w, rows)[3 + i] == listed[i]);
}

/// The line between rows has a cross behind every column, and is two wider than each.
pub proof fn separators_go_by_column(widths: Seq<usize>, width: usize)
    ensures
        separator(widths.push(width), widths.len() + 1int) == separator(widths, widths.len() as int)
            + repeated('-', (width + 2) as nat) + "+"@,
        separator(widths, 0) == "+"@,
{
    lemma_separator_prefix(widths, width, widths.len() as int);
}

proof fn lemma_separator_prefix(widths: Seq<usize>, width: usize, n: int)
    requires
        0 <= n <= widths.len(),
    ensures
        separator(widths.push(width), n) == separator(widths, n),
    decreases n,
{
    if n > 0 {
        lemma_separator_prefix(widths, width, n - 1);
        assert(widths.push(width)[n - 1] == widths[n - 1]);
    }
}

/// The list of the recent sessions holds as many as asked for, or all; every one of them is a
/// session, and none that is left out is later than one that is listed.
pub proof fn recent_sessions_are_the_latest(names: Seq<Seq<char>>, limit: nat)
    ensures
        ({
            let all = latest_first(names, names.len() as int);
            let r = recent_of(names, limit);
            &&& all.to_multiset() == names.to_multiset()
            &&& r.is_prefix_of(all)
            &&& names.len() <= limit ==> r.len() == names.len()
            &&& names.len() > limit ==> r.len() == limit
            &&& forall|i: int, j: int|
                0 <= i < r.len() && r.len() <= j < all.len() ==> !precedes(
                    #[trigger] r[i],
                    #[trigger] all[j],
                )
        }),
{
    let n = names.len() as int;
    sessions_come_latest_first(names, n);
    lemma_latest_holds_all(names, n);
    assert(names.subrange(0, n) =~= names);
    let all = latest_first(names, n);
    let r = recent_of(names, limit);
    assert(all.subrange(0, r.len() as int) =~= r);
    assert forall|i: int, j: int|
        0 <= i < r.len() && r.len() <= j < all.len() implies !precedes(
        #[trigger] r[i],
        #[trigger] all[j],
    ) by {
        assert(r[i] == all[i]);
    }
}

proof fn lemma_latest_holds_all(names: Seq<Seq<char>>, n: int)
    requires
        0 <= n <= names.len(),
    ensures
        latest_first(names, n).to_multiset() == names.subrange(0, n).to_multiset(),
    decreases n,
{
    broadcast use vstd::seq_lib::group_to_multiset_ensures;

    if n > 0 {
        lemma_latest_holds_all(names, n - 1);
        lemma_insert_latest_adds(latest_first(names, n - 1), names[n - 1]);
        assert(names.subrange(0, n) =~= names.subrange(0, n - 1).push(names[n - 1]));
    } else {
        assert(names.subrange(0, 0) =~= Seq::empty());
        assert(latest_first(names, 0) =~= Seq::empty());
    }
}

proof fn lemma_insert_latest_adds(s: Seq<Seq<char>>, name: Seq<char>)
    ensures
        insert_latest(s, name).to_multiset() == s.to_multiset().insert(name),
    decreases s.len(),
{
    broadcast use vstd::seq_lib::group_to_multiset_ensures;

    if s.len() > 0 && precedes(s.last(), name) {
        lemma_insert_latest_adds(s.drop_last(), name);
        assert(s =~= s.drop_last().push(s.last()));
        assert(insert_latest(s, name).to_multiset() =~= s.to_multiset().insert(name));
    }
}

/// What is reported of a session in the list is what its row shows.
pub proof fn rows_are_reported(r: SessionListRow)
    ensures
        text_field(row_tree(r), "session_id"@) == Some(r.session_id@),
        text_field(row_tree(r), "timestamp"@) == Some(r.timestamp@),
        text_field(row_tree(r), "summary"@) == Some(r.summary@),
        field(row_tree(r), "images"@) == Some(count_tree(r.images as nat)),
        text_field(row_tree(r), "duration"@) == Some(r.duration@),
{
    reveal_strlit("session_id");
    reveal_strlit("timestamp");
    reveal_strlit("summary");
    reveal_strlit("images");
    reveal_strlit("duration");
    assert("session_id"@.len() == 10 && "timestamp"@.len() == 9 && "summary"@.len() == 7);
    assert("images"@.len() == 6 && "duration"@.len() == 8);
    let pairs = seq![
        ("session_id"@, Tree::Text(r.session_id@)),
        ("timestamp"@, Tree::Text(r.timestamp@)),
        ("summary"@, Tree::Text(r.summary@)),
        ("images"@, count_tree(r.images as nat)),
        ("duration"@, Tree::Text(r.duration@)),
    ];
    pairs_read_back(pairs, 0);
    pairs_read_back(pairs, 1);
    pairs_read_back(pairs, 2);
    pairs_read_back(pairs, 3);
    pairs_read_back(pairs, 4);
}

/// The width that is set for the terminal counts where it is a number.
pub proof fn set_widths_count(n: nat)
    requires
        n <= usize::MAX,
    ensures
        terminal_columns(Some(decimal(n))) == n,
        terminal_columns(None) == 140,
        terminal_columns(Some(Seq::empty())) == 140,
{
    decimal_reads_back(n);
    assert(unsigned_digits(decimal(n)) == decimal(n)) by {
        assert(is_digit(decimal(n)[0]));
    }
}

/// A line of a log is a value where it can be read, and is passed over where it cannot.
pub proof fn log_lines_are_values_where_they_read(line: Seq<char>)
    ensures
        text_read(line) matches Ok(t) ==> values_read(seq![line]) == seq![t],
        text_read(line) is Err ==> values_read(seq![line]).len() == 0,
        values_read(Seq::empty()).len() == 0,
{
    let one = seq![line];
    assert(one.drop_last() =~= Seq::empty());
    assert(one.last() == line);
    reveal_with_fuel(values_read, 2);
    assert(values_read(one.drop_last()) =~= Seq::empty());
}

/// A transcript says nothing where it is blank or one of three phrases, however they are written, and
/// is summed up as having no words; every other is summed up by its words.
pub proof fn three_phrases_say_nothing(text: Seq<char>)
    ensures
        trimmed(text).len() == 0 ==> summary_of(text) == "— [0 words]"@,
        ascii_lower(trimmed(text)) == "_no transcript available._"@ ==> summary_of(text)
            == "— [0 words]"@,
        ascii_lower(trimmed(text)) == "no transcript available."@ ==> summary_of(text)
            == "— [0 words]"@,
        ascii_lower(trimmed(text)) == "no transcript available"@ ==> summary_of(text)
            == "— [0 words]"@,
        trimmed(text).len() > 0 && ascii_lower(trimmed(text)) != "_no transcript available._"@
            && ascii_lower(trimmed(text)) != "no transcript available."@ && ascii_lower(
            trimmed(text),
        ) != "no transcript available"@ ==> summary_of(text) == words_summary(summary_words(text)),
{
}

/// An id that holds a slash or two dots in a row is no plain one; one without slash and dot is.
pub proof fn plain_ids_lead_nowhere_else(a: Seq<char>, b: Seq<char>, id: Seq<char>)
    requires
        !id.contains('/'),
        !id.contains('.'),
    ensures
        !is_plain_id(a + "/"@ + b),
        !is_plain_id(a + ".."@ + b),
        is_plain_id(id),
{
    reveal_strlit("/");
    reveal_strlit("..");
    lemma_contains_itself("/"@);
    lemma_contains_itself(".."@);
    lemma_contains_around(a, "/"@, b, "/"@);
    lemma_contains_around(a, ".."@, b, ".."@);
    if contains(id, "/"@) {
        let k = choose|k: int| #[trigger] occurs_at(id, "/"@, k);
        assert(id.subrange(k, k + 1)[0] == id[k]);
        assert("/"@[0] == '/');
        assert(id.contains(id[k]));
    }
    if contains(id, ".."@) {
        let k = choose|k: int| #[trigger] occurs_at(id, ".."@, k);
        assert(id.subrange(k, k + 2)[0] == id[k]);
        assert(".."@[0] == '.');
        assert(id.contains(id[k]));
    }
}

/// A table has its columns named above, and lines of dashes as wide as they are around.
pub proof fn tables_name_their_columns(w: TableWidths, rows: Seq<SessionListRow>)
    ensures
        ({
            let lines = table_lines(w, rows);
            &&& lines[0] == "+"@ + repeated('-', (w.session + 2) as nat) + "+"@ + repeated(
                '-',
                (w.time + 2) as nat,
            ) + "+"@ + repeated('-', (w.summary + 2) as nat) + "+"@ + repeated(
                '-',
                (w.images + 2) as nat,
            ) + "+"@ + repeated('-', (w.length + 2) as nat) + "+"@
            &&& lines[1] == "| "@ + padded_right("session"@, w.session as nat) + " | "@
                + padded_right("timestamp"@, w.time as nat) + " | "@ + padded_right(
                "summary"@,
                w.summary as nat,
            ) + " | "@ + padded_left("imgs"@, ' ', w.images as nat) + " | "@ + padded_left(
                "length"@,
                ' ',
                w.length as nat,
            ) + " |"@
        }),
{
    reveal_with_fuel(separator, 7);
    let widths = seq![w.session, w.time, w.summary, w.images, w.length];
    assert(widths[0] == w.session && widths[1] == w.time && widths[2] == w.summary && widths[3]
        == w.images && widths[4] == w.length);
}

/// Words are made of letters and digits, apostrophes and hyphens.
pub proof fn words_hold_letters_and_marks(c: char)
    ensures
        is_word_char('\'') && is_word_char('-'),
        c != '\'' && c != '-' ==> (is_word_char(c) <==> alphanumeric(c)),
{
}

/// A column is no wider than what stands in it makes it: one more row widens it where the row needs
/// more, and the headings are the least.
pub proof fn columns_are_as_wide_as_needed(
    rows: Seq<SessionListRow>,
    r: SessionListRow,
    w: TableWidths,
    columns: nat,
)
    ensures
        ({
            let n = rows.len() as int;
            let more = rows.push(r);
            &&& widest_session(more, n + 1) == max_of(
                widest_session(rows, n),
                byte_len(r.session_id@) as nat,
            )
            &&& widest_time(more, n + 1) == max_of(
                widest_time(rows, n),
                byte_len(r.timestamp@) as nat,
            )
            &&& widest_length(more, n + 1) == max_of(
                widest_length(rows, n),
                byte_len(r.duration@) as nat,
            )
            &&& widest_images(more, n + 1) == max_of(
                widest_images(rows, n),
                byte_len(decimal(r.images as nat)) as nat,
            )
            &&& widest_summary(more, n + 1) == max_of(widest_summary(rows, n), r.summary@.len())
            &&& widths_of(w, Seq::empty(), columns) ==> w.session == 7 && w.time == 9 && w.images == 4
                && w.length == 6
        }),
{
    lemma_widest_prefix(rows, r, rows.len() as int);
    assert(rows.push(r)[rows.len() as int] == r);
}

proof fn lemma_widest_prefix(rows: Seq<SessionListRow>, r: SessionListRow, n: int)
    requires
        0 <= n <= rows.len(),
    ensures
        widest_session(rows.push(r), n) == widest_session(rows, n),
        widest_time(rows.push(r), n) == widest_time(rows, n),
        widest_length(rows.push(r), n) == widest_length(rows, n),
        widest_images(rows.push(r), n) == widest_images(rows, n),
        widest_summary(rows.push(r), n) == widest_summary(rows, n),
    decreases n,
{
    if n > 0 {
        lemma_widest_prefix(rows, r, n - 1);
        assert(rows.push(r)[n - 1] == rows[n - 1]);
    }
}

/// A row of the list is what its session holds: when it was, what was said, how many images it has and
/// how long it is; what is not known of it is said so.
pub proof fn rows_are_what_sessions_hold(r: SessionListRow, facts: SessionFacts)
    requires
        is_row_of(r, facts),
    ensures
        r.session_id@ == facts.session_id@,
        facts.at matches Some(t) ==> r.timestamp@ == human_time(t),
        facts.at is None ==> r.timestamp@ == "unknown"@,
        trimmed(facts.transcript@).len() == 0 ==> r.summary@ == "— [0 words]"@,
        r.summary@ == summary_of(facts.transcript@),
        r.images == images_among(views(facts.files@), facts.files@.len() as int).len(),
        facts.duration matches Some(s) ==> r.duration@ == compact_duration(s.whole_of() as nat),
        facts.duration is None ==> r.duration@ == "-"@,
{
}

} // verus!
