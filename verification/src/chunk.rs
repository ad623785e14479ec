//! Transcription in chunks: what is kept of a session's transcript while it is recorded.

use vstd::prelude::*;

use crate::daemon::byte_len;
use crate::history::{get_number, has_type, is_type, number_field};
use crate::json::{
    count_tree, field, item_views, measure_of, object_of, opt_text_tree, pairs_read_back,
    text_field, unsigned_of, Json, Number, NumberView, Pairs, Tree,
};
use crate::measure::Measure;
use crate::models::SessionState;
use crate::pattern::{words, words_of};
use crate::text::{
    concat, concat3, is_space, lemma_blank_is_trimmed, lemma_trimmed_end, lemma_trimmed_keeps,
    lemma_trimmed_shape, lemma_trimmed_start, same, trim, trim_is_idempotent, trimmed,
};

verus! {

// ---------------------------------------------------------------------------------------------
// Merging
// ---------------------------------------------------------------------------------------------

/// Two texts as one: trimmed, with an empty line between them where neither is blank.
pub open spec fn merged(existing: Seq<char>, chunk: Seq<char>) -> Seq<char> {
    if trimmed(existing).len() == 0 {
        trimmed(chunk)
    } else if trimmed(chunk).len() == 0 {
        trimmed(existing)
    } else {
        trimmed(existing) + "\n\n"@ + trimmed(chunk)
    }
}

/// Two texts as one: trimmed, with an empty line between them where neither is blank.
pub fn merge_manual_chunk_text(existing: &str, chunk: &str) -> (r: String)
    ensures
        r@ == merged(existing@, chunk@),
{
    let e = trim(existing);
    let c = trim(chunk);
    if e.as_str().is_empty() {
        return c;
    }
    if c.as_str().is_empty() {
        return e;
    }
    concat3(e.as_str(), "\n\n", c.as_str())
}

/// What the transcript of a session holds once a chunk is appended.
pub fn appended_transcript(existing: &str, chunk: &str) -> (r: String)
    ensures
        r@ == merged(existing@, chunk@) + "\n"@,
{
    concat(merge_manual_chunk_text(existing, chunk).as_str(), "\n")
}

/// A merged text has no space around it, and is blank only where both texts are.
pub proof fn merged_text_is_trimmed(a: Seq<char>, b: Seq<char>)
    ensures
        trimmed(merged(a, b)) == merged(a, b),
        merged(a, b).len() == 0 <==> trimmed(a).len() == 0 && trimmed(b).len() == 0,
{
    trim_is_idempotent(a);
    trim_is_idempotent(b);
    lemma_trimmed_shape(a);
    lemma_trimmed_shape(b);
    let m = merged(a, b);
    if trimmed(a).len() > 0 && trimmed(b).len() > 0 {
        assert(m[0] == trimmed(a)[0]);
        assert(m[m.len() - 1] == trimmed(b)[trimmed(b).len() - 1]);
        lemma_trimmed_start(m, 0);
        assert(m.subrange(0, m.len() as int) =~= m);
        lemma_trimmed_end(m, m.len() as int);
    }
}

/// Chunks can be merged one by one or in groups: the text is the same.
pub proof fn merging_is_associative(a: Seq<char>, b: Seq<char>, c: Seq<char>)
    ensures
        merged(merged(a, b), c) == merged(a, merged(b, c)),
{
    merged_text_is_trimmed(a, b);
    merged_text_is_trimmed(b, c);
    if trimmed(a).len() > 0 && trimmed(b).len() > 0 && trimmed(c).len() > 0 {
        assert(trimmed(a) + "\n\n"@ + trimmed(b) + "\n\n"@ + trimmed(c) =~= trimmed(a) + "\n\n"@ + (
        trimmed(b) + "\n\n"@ + trimmed(c)));
    }
}

/// The line end that a transcript file has does not get into what is merged with it.
pub proof fn appending_is_merging(existing: Seq<char>, a: Seq<char>, b: Seq<char>)
    ensures
        merged(merged(existing, a) + "\n"@, b) == merged(merged(existing, a), b),
{
    let m = merged(existing, a);
    merged_text_is_trimmed(existing, a);
    reveal_strlit("\n");
    let f = m + "\n"@;
    if m.len() > 0 {
        lemma_trimmed_shape(m);
        lemma_trimmed_start(f, 0);
        assert(f.subrange(0, f.len() as int) =~= f);
        lemma_trimmed_end(f, m.len() as int);
        assert(f.subrange(0, m.len() as int) =~= m);
    } else {
        lemma_trimmed_start(f, 1);
        assert(f.subrange(1, 1) =~= Seq::empty());
        lemma_trimmed_end(Seq::empty(), 0);
        assert(Seq::<char>::empty().subrange(0, 0) =~= Seq::empty());
        assert(trimmed(f).len() == 0);
    }
}

// ---------------------------------------------------------------------------------------------
// Chunk events
// ---------------------------------------------------------------------------------------------

/// Whether an event is that of a chunk.
pub open spec fn is_chunk(event: Tree) -> bool {
    is_type(event, "transcript_chunk"@)
}

/// The number of a chunk, where its event has one.
pub open spec fn chunk_id_of(event: Tree) -> Option<u64> {
    if is_chunk(event) {
        unsigned_of(field(event, "id"@))
    } else {
        None
    }
}

/// The largest number of a chunk among the first `n` events, zero where there is none.
pub open spec fn max_chunk_id_of(events: Seq<Tree>, n: int) -> u64
    decreases n,
{
    if n <= 0 {
        0
    } else {
        let before = max_chunk_id_of(events, n - 1);
        match chunk_id_of(events[n - 1]) {
            Some(id) if id > before => id,
            _ => before,
        }
    }
}

/// The largest number of a chunk, zero where there is none.
pub fn max_chunk_id(events: &Vec<Json>) -> (r: u64)
    ensures
        r == max_chunk_id_of(item_views(events@), events@.len() as int),
{
    let ghost all = item_views(events@);
    let mut max: u64 = 0;
    let mut i: usize = 0;
    while i < events.len()
        invariant
            i <= events.len(),
            all == item_views(events@),
            max == max_chunk_id_of(all, i as int),
        decreases events.len() - i,
    {
        assert(all[i as int] == events@[i as int]@);
        if has_type(&events[i], "transcript_chunk") {
            if let Some(id) = events[i].get_u64("id") {
                if id > max {
                    max = id;
                }
            }
        }
        i = i + 1;
    }
    max
}

/// The number of the next chunk.
pub fn next_transcript_chunk_id(events: &Vec<Json>) -> (r: u64)
    requires
        max_chunk_id_of(item_views(events@), events@.len() as int) < u64::MAX,
    ensures
        r == max_chunk_id_of(item_views(events@), events@.len() as int) + 1,
{
    max_chunk_id(events) + 1
}

/// No chunk before it has the number of the next one.
pub proof fn next_chunk_id_is_fresh(events: Seq<Tree>, n: int)
    requires
        0 <= n <= events.len(),
    ensures
        forall|i: int|
            0 <= i < n ==> (chunk_id_of(#[trigger] events[i]) matches Some(id) ==> id
                <= max_chunk_id_of(events, n)),
    decreases n,
{
    if n > 0 {
        next_chunk_id_is_fresh(events, n - 1);
    }
}

/// How many of the first `n` events are those of chunks.
pub open spec fn chunk_count(events: Seq<Tree>, n: int) -> nat
    decreases n,
{
    if n <= 0 {
        0
    } else {
        chunk_count(events, n - 1) + if is_chunk(events[n - 1]) {
            1nat
        } else {
            0nat
        }
    }
}

/// How many events are those of chunks.
pub fn count_chunk_events(events: &Vec<Json>) -> (r: usize)
    ensures
        r == chunk_count(item_views(events@), events@.len() as int),
{
    let ghost all = item_views(events@);
    let mut count: usize = 0;
    let mut i: usize = 0;
    while i < events.len()
        invariant
            i <= events.len(),
            count <= i,
            all == item_views(events@),
            count == chunk_count(all, i as int),
        decreases events.len() - i,
    {
        assert(all[i as int] == events@[i as int]@);
        if has_type(&events[i], "transcript_chunk") {
            count = count + 1;
        }
        i = i + 1;
    }
    count
}

/// How many of the first `n` events are those of chunks with this status.
pub open spec fn status_count(events: Seq<Tree>, status: Seq<char>, n: int) -> nat
    decreases n,
{
    if n <= 0 {
        0
    } else {
        status_count(events, status, n - 1) + if is_chunk(events[n - 1]) && text_field(
            events[n - 1],
            "status"@,
        ) == Some(status) {
            1nat
        } else {
            0nat
        }
    }
}

/// The last text that a chunk among the first `n` events has in a field.
pub open spec fn last_chunk_text(events: Seq<Tree>, key: Seq<char>, n: int) -> Option<Seq<char>>
    decreases n,
{
    if n <= 0 {
        None
    } else if is_chunk(events[n - 1]) && text_field(events[n - 1], key) is Some {
        text_field(events[n - 1], key)
    } else {
        last_chunk_text(events, key, n - 1)
    }
}

/// Whether one of the first `n` events says that the session is being stopped.
pub open spec fn stopping_among(events: Seq<Tree>, n: int) -> bool {
    exists|i: int| 0 <= i < n && is_type(#[trigger] events[i], "session_stopping"@)
}

/// How many events are those of chunks with this status.
pub fn count_status(events: &Vec<Json>, status: &str) -> (r: usize)
    ensures
        r == status_count(item_views(events@), status@, events@.len() as int),
{
    let ghost all = item_views(events@);
    let mut count: usize = 0;
    let mut i: usize = 0;
    while i < events.len()
        invariant
            i <= events.len(),
            count <= i,
            all == item_views(events@),
            count == status_count(all, status@, i as int),
        decreases events.len() - i,
    {
        assert(all[i as int] == events@[i as int]@);
        let hit = match events[i].get_text("status") {
            Some(s) => same(s.as_str(), status),
            None => false,
        };
        if has_type(&events[i], "transcript_chunk") && hit {
            count = count + 1;
        }
        i = i + 1;
    }
    count
}

/// The last text that a chunk has in a field.
fn find_chunk_text(events: &Vec<Json>, key: &str) -> (r: Option<String>)
    ensures
        crate::json::opt_view(r) == last_chunk_text(
            item_views(events@),
            key@,
            events@.len() as int,
        ),
{
    let ghost all = item_views(events@);
    let mut n: usize = events.len();
    while n > 0
        invariant
            n <= events.len(),
            all == item_views(events@),
            last_chunk_text(all, key@, events@.len() as int) == last_chunk_text(
                all,
                key@,
                n as int,
            ),
        decreases n,
    {
        assert(all[n - 1] == events@[n - 1]@);
        if has_type(&events[n - 1], "transcript_chunk") {
            if let Some(s) = events[n - 1].get_text(key) {
                return Some(s.clone());
            }
        }
        n = n - 1;
    }
    None
}

/// Whether an event says that the session is being stopped.
fn is_stopping(events: &Vec<Json>) -> (r: bool)
    ensures
        r == stopping_among(item_views(events@), events@.len() as int),
{
    let ghost all = item_views(events@);
    let mut i: usize = 0;
    while i < events.len()
        invariant
            i <= events.len(),
            all == item_views(events@),
            !stopping_among(all, i as int),
        decreases events.len() - i,
    {
        assert(all[i as int] == events@[i as int]@);
        if has_type(&events[i], "session_stopping") {
            return true;
        }
        i = i + 1;
    }
    false
}

/// The span of a chunk, in seconds: it starts at zero and ends where it starts, where nothing else
/// is said.
pub open spec fn span_of(event: Tree) -> (Measure, Measure) {
    let start = match number_field(event, "start_sec"@) {
        Some(n) => measure_of(n),
        None => Measure { bits: 0 },
    };
    let end = match number_field(event, "end_sec"@) {
        Some(n) => measure_of(n),
        None => start,
    };
    (start, end)
}

/// The spans of the chunks among the first `n` events.
pub open spec fn spans_of(events: Seq<Tree>, n: int) -> Seq<(Measure, Measure)>
    decreases n,
{
    if n <= 0 {
        Seq::empty()
    } else if is_chunk(events[n - 1]) {
        spans_of(events, n - 1).push(span_of(events[n - 1]))
    } else {
        spans_of(events, n - 1)
    }
}

/// The spans of the chunks, in seconds.
pub fn chunk_spans(events: &Vec<Json>) -> (r: Vec<(Measure, Measure)>)
    ensures
        r@ == spans_of(item_views(events@), events@.len() as int),
{
    let ghost all = item_views(events@);
    let mut out: Vec<(Measure, Measure)> = Vec::new();
    let mut i: usize = 0;
    while i < events.len()
        invariant
            i <= events.len(),
            all == item_views(events@),
            out@ == spans_of(all, i as int),
        decreases events.len() - i,
    {
        assert(all[i as int] == events@[i as int]@);
        if has_type(&events[i], "transcript_chunk") {
            let start = match get_number(&events[i], "start_sec") {
                Some(n) => n.measure(),
                None => Measure { bits: 0 },
            };
            let end = match get_number(&events[i], "end_sec") {
                Some(n) => n.measure(),
                None => start,
            };
            out.push((start, end));
        }
        i = i + 1;
    }
    out
}

/// The status of a transcript that was put together from chunks: an error where chunks failed and
/// none succeeded.
pub open spec fn chunked_status(
    transcript: Seq<char>,
    chunks: nat,
    ok: nat,
    errors: nat,
) -> Seq<char> {
    if transcript.len() == 0 && chunks == 0 {
        "empty"@
    } else if errors > 0 && ok == 0 {
        "error"@
    } else {
        "ok"@
    }
}

/// A text that is there and not empty.
pub open spec fn filled(s: Option<Seq<char>>) -> Option<Seq<char>> {
    match s {
        Some(t) => if t.len() == 0 {
            None
        } else {
            Some(t)
        },
        None => None,
    }
}

/// What is said of a transcript that was put together from chunks.
pub open spec fn chunked_pairs(
    transcript: Seq<char>,
    events: Seq<Tree>,
    method: Seq<char>,
    seconds: Number,
) -> Seq<(Seq<char>, Tree)> {
    let n = events.len() as int;
    let chunks = chunk_count(events, n);
    let ok = status_count(events, "ok"@, n);
    let skipped = status_count(events, "skipped"@, n);
    let errors = status_count(events, "error"@, n);
    seq![
        ("status"@, Tree::Text(chunked_status(transcript, chunks, ok, errors))),
        ("method"@, Tree::Text(method)),
        (
            "mode"@,
            Tree::Text(
                match last_chunk_text(events, "mode"@, n) {
                    Some(m) => m,
                    None => "manual"@,
                },
            ),
        ),
        ("chunks"@, count_tree(chunks)),
        ("chunks_ok"@, count_tree(ok)),
        ("chunks_skipped"@, count_tree(skipped)),
        ("chunks_error"@, count_tree(errors)),
        ("chunk_audio_sec"@, Tree::Number(seconds@)),
        ("stopping_seen"@, Tree::Bool(stopping_among(events, n))),
        ("stop_reason"@, opt_text_tree(filled(last_chunk_text(events, "reason"@, n)))),
    ]
}

/// The transcript that was put together from chunks, and what is said of it. `raw` is what its file
/// holds, and `seconds` what the chunks last together.
pub fn load_chunked_transcript(
    raw: &str,
    events: &Vec<Json>,
    method: &str,
    seconds: &Number,
) -> (r: (String, Json))
    ensures
        r.0@ == trimmed(raw@),
        r.1@ == Tree::Object(
            object_of(chunked_pairs(trimmed(raw@), item_views(events@), method@, *seconds)),
        ),
{
    let transcript = trim(raw);
    let chunks: usize = count_chunk_events(events);
    let ok: usize = count_status(events, "ok");
    let skipped: usize = count_status(events, "skipped");
    let errors: usize = count_status(events, "error");
    let status: &str = if transcript.as_str().is_empty() && chunks == 0 {
        "empty"
    } else if errors > 0 && ok == 0 {
        "error"
    } else {
        "ok"
    };
    let mode: String = match find_chunk_text(events, "mode") {
        Some(m) => m,
        None => "manual".to_owned(),
    };
    let reason: Option<String> = match find_chunk_text(events, "reason") {
        Some(t) => if t.as_str().is_empty() {
            None
        } else {
            Some(t)
        },
        None => None,
    };
    let mut p = Pairs::new();
    p.text("status", status);
    p.text("method", method);
    p.text("mode", mode.as_str());
    p.count("chunks", chunks as u64);
    p.count("chunks_ok", ok as u64);
    p.count("chunks_skipped", skipped as u64);
    p.count("chunks_error", errors as u64);
    p.number("chunk_audio_sec", seconds);
    p.flag("stopping_seen", is_stopping(events));
    p.opt_text("stop_reason", &reason);
    assert(p@ == chunked_pairs(trimmed(raw@), item_views(events@), method@, *seconds));
    (transcript, p.object())
}

// ---------------------------------------------------------------------------------------------
// One chunk
// ---------------------------------------------------------------------------------------------

/// Why a chunk cannot even be tried, where it cannot.
pub fn chunk_precheck(audio_path: &str, audio_exists: bool, has_ffmpeg: bool) -> (r: Option<Json>)
    ensures
        r is None <==> audio_exists && has_ffmpeg,
        r matches Some(j) ==> j@ == Tree::Object(
            object_of(
                if !audio_exists {
                    seq![
                        ("status"@, Tree::Text("skipped"@)),
                        ("reason"@, Tree::Text("Audio file not found: "@ + audio_path@)),
                    ]
                } else {
                    seq![
                        ("status"@, Tree::Text("error"@)),
                        (
                            "reason"@,
                            Tree::Text(
                                "ffmpeg is required for chunking but was not found in PATH."@,
                            ),
                        ),
                    ]
                },
            ),
        ),
{
    let mut p = Pairs::new();
    if !audio_exists {
        let reason = concat("Audio file not found: ", audio_path);
        p.text("status", "skipped");
        p.text("reason", reason.as_str());
        assert(p@ == seq![
            ("status"@, Tree::Text("skipped"@)),
            ("reason"@, Tree::Text("Audio file not found: "@ + audio_path@)),
        ]);
        return Some(p.object());
    }
    if !has_ffmpeg {
        p.text("status", "error");
        p.text("reason", "ffmpeg is required for chunking but was not found in PATH.");
        assert(p@ == seq![
            ("status"@, Tree::Text("error"@)),
            (
                "reason"@,
                Tree::Text("ffmpeg is required for chunking but was not found in PATH."@),
            ),
        ]);
        return Some(p.object());
    }
    None
}

/// A chunk that is asked for. The seconds are rounded to milliseconds.
pub struct ChunkRequest<'a> {
    pub ts: &'a str,
    pub chunk_id: u64,
    pub reason: &'a str,
    pub start_sec: Number,
    pub end_sec: Number,
}

/// What came of the work on a chunk.
pub enum ChunkWork {
    /// Nothing was recorded since the last chunk.
    NoNewAudio,
    /// The audio of the chunk could not be cut out.
    ExtractFailed(String),
    /// The audio was handed to the transcriber, which gave a text and what it says of it.
    Transcribed(String, Json),
}

/// Whether the transcriber succeeded.
pub open spec fn succeeded(meta: Tree) -> bool {
    text_field(meta, "status"@) == Some("ok"@)
}

/// What a chunk comes to.
pub enum ChunkOutcome {
    NoNewAudio,
    ExtractFailed,
    TranscribeFailed,
    Empty,
    Kept,
}

/// What a chunk comes to.
pub open spec fn outcome_of(work: ChunkWork) -> ChunkOutcome {
    match work {
        ChunkWork::NoNewAudio => ChunkOutcome::NoNewAudio,
        ChunkWork::ExtractFailed(_) => ChunkOutcome::ExtractFailed,
        ChunkWork::Transcribed(text, meta) => if !succeeded(meta@) {
            ChunkOutcome::TranscribeFailed
        } else if trimmed(text@).len() == 0 {
            ChunkOutcome::Empty
        } else {
            ChunkOutcome::Kept
        },
    }
}

/// The status of a chunk.
pub open spec fn outcome_status(o: ChunkOutcome) -> Seq<char> {
    match o {
        ChunkOutcome::NoNewAudio => "skipped"@,
        ChunkOutcome::ExtractFailed => "error"@,
        ChunkOutcome::TranscribeFailed => "error"@,
        ChunkOutcome::Empty => "skipped"@,
        ChunkOutcome::Kept => "ok"@,
    }
}

/// Why a chunk has its status.
pub open spec fn outcome_reason(o: ChunkOutcome) -> Seq<char> {
    match o {
        ChunkOutcome::NoNewAudio => "no_new_audio"@,
        ChunkOutcome::ExtractFailed => "segment_extract_failed"@,
        ChunkOutcome::TranscribeFailed => "transcribe_failed"@,
        ChunkOutcome::Empty => "empty_transcript"@,
        ChunkOutcome::Kept => "manual_chunk"@,
    }
}

/// What the work on a chunk adds to its event.
pub open spec fn work_pairs(work: ChunkWork) -> Seq<(Seq<char>, Tree)> {
    match work {
        ChunkWork::NoNewAudio => Seq::empty(),
        ChunkWork::ExtractFailed(e) => seq![("error"@, Tree::Text(e@))],
        ChunkWork::Transcribed(text, meta) => if succeeded(meta@) {
            seq![
                ("chars"@, count_tree(byte_len(trimmed(text@)) as nat)),
                ("words"@, count_tree(words_of(trimmed(text@)).len())),
                ("transcription"@, meta@),
            ]
        } else {
            seq![("transcription"@, meta@)]
        },
    }
}

/// The event of a chunk.
pub open spec fn chunk_event(q: ChunkRequest, work: ChunkWork) -> Tree {
    let o = outcome_of(work);
    Tree::Object(
        object_of(
            seq![
                ("ts"@, Tree::Text(q.ts@)),
                ("type"@, Tree::Text("transcript_chunk"@)),
                ("id"@, count_tree(q.chunk_id as nat)),
                ("mode"@, Tree::Text("manual"@)),
                ("status"@, Tree::Text(outcome_status(o))),
                ("reason"@, Tree::Text(outcome_reason(o))),
                ("requested_reason"@, Tree::Text(q.reason@)),
                ("start_sec"@, Tree::Number(q.start_sec@)),
                ("end_sec"@, Tree::Number(q.end_sec@)),
            ] + work_pairs(work),
        ),
    )
}

/// What the caller is told of a chunk.
pub open spec fn chunk_result(q: ChunkRequest, work: ChunkWork) -> Tree {
    let o = outcome_of(work);
    let told = if o is Kept || o is Empty {
        q.reason@
    } else {
        outcome_reason(o)
    };
    Tree::Object(
        object_of(
            seq![
                ("status"@, Tree::Text(outcome_status(o))),
                ("reason"@, Tree::Text(told)),
                ("start_sec"@, Tree::Number(q.start_sec@)),
                ("end_sec"@, Tree::Number(q.end_sec@)),
                ("chunk_id"@, count_tree(q.chunk_id as nat)),
            ] + if o is ExtractFailed {
                Seq::empty()
            } else {
                work_pairs(work)
            },
        ),
    )
}

/// What is done once the work on a chunk is over.
pub struct ChunkRecord {
    /// What is appended to the events of the session.
    pub event: Json,
    /// What the caller is told.
    pub result: Json,
    /// What is appended to the transcript.
    pub text: Option<String>,
    /// Whether the session has been transcribed up to the end of the chunk.
    pub advance: bool,
}

fn add_work(p: &mut Pairs, work: &ChunkWork)
    ensures
        final(p)@ == old(p)@ + work_pairs(*work),
{
    match work {
        ChunkWork::NoNewAudio => {},
        ChunkWork::ExtractFailed(e) => p.text("error", e.as_str()),
        ChunkWork::Transcribed(text, meta) => {
            if is_success(meta) {
                let t = trim(text.as_str());
                p.count("chars", t.as_str().len() as u64);
                let w = words(t.as_str());
                assert(crate::pattern::views(w@).len() == w@.len());
                p.count("words", w.len() as u64);
            }
            p.add("transcription", meta.copy());
        },
    }
    assert(p@ =~= old(p)@ + work_pairs(*work));
}

/// Whether there is anything to transcribe: the recording goes on beyond `threshold`, a little
/// behind the point up to which it was transcribed.
pub fn has_new_audio(end_sec: &Measure, threshold: &Measure) -> (r: bool)
    ensures
        r == (threshold.key() < end_sec.key()),
{
    threshold.less(end_sec)
}

/// Whether the transcriber succeeded.
pub fn is_success(meta: &Json) -> (r: bool)
    ensures
        r == succeeded(meta@),
{
    match meta.get_text("status") {
        Some(s) => same(s.as_str(), "ok"),
        None => false,
    }
}

/// What is done once the work on a chunk is over. Text is appended, and the session counts as
/// transcribed up to the end of the chunk, only where the transcriber succeeded.
pub fn finish_chunk(q: &ChunkRequest, work: &ChunkWork) -> (r: ChunkRecord)
    ensures
        r.event@ == chunk_event(*q, *work),
        r.result@ == chunk_result(*q, *work),
        match r.text {
            Some(t) => outcome_of(*work) is Kept && t@ == trimmed(work->Transcribed_0@),
            None => !(outcome_of(*work) is Kept),
        },
        r.advance == (outcome_of(*work) is Kept || outcome_of(*work) is Empty),
{
    let outcome: ChunkOutcome = match work {
        ChunkWork::NoNewAudio => ChunkOutcome::NoNewAudio,
        ChunkWork::ExtractFailed(_) => ChunkOutcome::ExtractFailed,
        ChunkWork::Transcribed(text, meta) => if !is_success(meta) {
            ChunkOutcome::TranscribeFailed
        } else if crate::text::is_blank(text.as_str()) {
            ChunkOutcome::Empty
        } else {
            ChunkOutcome::Kept
        },
    };
    let status: &str = match outcome {
        ChunkOutcome::NoNewAudio => "skipped",
        ChunkOutcome::ExtractFailed => "error",
        ChunkOutcome::TranscribeFailed => "error",
        ChunkOutcome::Empty => "skipped",
        ChunkOutcome::Kept => "ok",
    };
    let why: &str = match outcome {
        ChunkOutcome::NoNewAudio => "no_new_audio",
        ChunkOutcome::ExtractFailed => "segment_extract_failed",
        ChunkOutcome::TranscribeFailed => "transcribe_failed",
        ChunkOutcome::Empty => "empty_transcript",
        ChunkOutcome::Kept => "manual_chunk",
    };
    let mut e = Pairs::new();
    e.text("ts", q.ts);
    e.text("type", "transcript_chunk");
    e.count("id", q.chunk_id);
    e.text("mode", "manual");
    e.text("status", status);
    e.text("reason", why);
    e.text("requested_reason", q.reason);
    e.number("start_sec", &q.start_sec);
    e.number("end_sec", &q.end_sec);
    assert(e@ == seq![
        ("ts"@, Tree::Text(q.ts@)),
        ("type"@, Tree::Text("transcript_chunk"@)),
        ("id"@, count_tree(q.chunk_id as nat)),
        ("mode"@, Tree::Text("manual"@)),
        ("status"@, Tree::Text(status@)),
        ("reason"@, Tree::Text(why@)),
        ("requested_reason"@, Tree::Text(q.reason@)),
        ("start_sec"@, Tree::Number(q.start_sec@)),
        ("end_sec"@, Tree::Number(q.end_sec@)),
    ]);
    add_work(&mut e, work);
    let transcribed: bool = match outcome {
        ChunkOutcome::Empty => true,
        ChunkOutcome::Kept => true,
        _ => false,
    };
    let extract_failed: bool = match outcome {
        ChunkOutcome::ExtractFailed => true,
        _ => false,
    };
    let told: &str = if transcribed {
        q.reason
    } else {
        why
    };
    let mut t = Pairs::new();
    t.text("status", status);
    t.text("reason", told);
    t.number("start_sec", &q.start_sec);
    t.number("end_sec", &q.end_sec);
    t.count("chunk_id", q.chunk_id);
    let ghost head = seq![
        ("status"@, Tree::Text(status@)),
        ("reason"@, Tree::Text(told@)),
        ("start_sec"@, Tree::Number(q.start_sec@)),
        ("end_sec"@, Tree::Number(q.end_sec@)),
        ("chunk_id"@, count_tree(q.chunk_id as nat)),
    ];
    assert(t@ == head);
    if !extract_failed {
        add_work(&mut t, work);
    } else {
        assert(head + Seq::<(Seq<char>, Tree)>::empty() =~= head);
    }
    let text: Option<String> = match (&outcome, work) {
        (ChunkOutcome::Kept, ChunkWork::Transcribed(text, _)) => Some(trim(text.as_str())),
        _ => None,
    };
    ChunkRecord { event: e.object(), result: t.object(), text, advance: transcribed }
}

/// Moves the point up to which the session has been transcribed, and never backwards.
pub fn advance_cursor(state: &mut SessionState, end_sec: Measure)
    ensures
        final(state).transcription_cursor_sec == if end_sec.key()
            < old(state).transcription_cursor_sec.key() {
            old(state).transcription_cursor_sec
        } else {
            end_sec
        },
        final(state).transcription_cursor_sec.key() >= old(state).transcription_cursor_sec.key(),
        final(state).session_id == old(state).session_id,
        final(state).transcription_paused == old(state).transcription_paused,
        final(state).transcription_pause_started_sec == old(state).transcription_pause_started_sec,
        *final(state) == (SessionState {
            transcription_cursor_sec: final(state).transcription_cursor_sec,
            ..*old(state)
        }),
{
    state.transcription_cursor_sec = end_sec.larger(&state.transcription_cursor_sec);
}

/// A chunk that failed is lost to nobody: nothing is appended to the transcript, and the next chunk
/// starts where it did.
pub proof fn failed_chunks_change_nothing(work: ChunkWork)
    requires
        outcome_status(outcome_of(work)) == "error"@,
    ensures
        !(outcome_of(work) is Kept),
        !(outcome_of(work) is Empty),
{
    reveal_strlit("error");
    reveal_strlit("ok");
    reveal_strlit("skipped");
    assert("error"@[0] == 'e');
    assert("ok"@[0] == 'o');
    assert("skipped"@[0] == 's');
}

/// Two texts that are filled and have no white space around them stand in the transcript with an
/// empty line between them, the earlier first; a blank one changes nothing.
pub proof fn chunks_are_put_in_order(earlier: Seq<char>, later: Seq<char>)
    requires
        trimmed(earlier) == earlier,
        trimmed(later) == later,
    ensures
        earlier.len() > 0 && later.len() > 0 ==> merged(earlier, later) == earlier + seq!['\n', '\n']
            + later,
        merged(Seq::empty(), later) == later,
        merged(earlier, Seq::empty()) == earlier,
{
    reveal_strlit("\n\n");
    assert("\n\n"@ =~= seq!['\n', '\n']);
    lemma_blank_is_trimmed(Seq::empty());
    lemma_blank_is_trimmed(later.subrange(0, 0));
}

/// The events of chunks are counted, and no others.
pub proof fn chunks_are_counted(events: Seq<Tree>, n: int, status: Seq<char>)
    requires
        0 <= n <= events.len(),
    ensures
        chunk_count(events, n) == events.subrange(0, n).filter(
            |e: Tree| text_field(e, "type"@) == Some("transcript_chunk"@),
        ).len(),
        status_count(events, status, n) == events.subrange(0, n).filter(
            |e: Tree|
                text_field(e, "type"@) == Some("transcript_chunk"@) && text_field(e, "status"@)
                    == Some(status),
        ).len(),
        spans_of(events, n).len() == chunk_count(events, n),
    decreases n,
{
    reveal(Seq::filter);
    if n > 0 {
        chunks_are_counted(events, n - 1, status);
        let all = events.subrange(0, n);
        assert(all.drop_last() =~= events.subrange(0, n - 1));
        assert(all.last() == events[n - 1]);
    }
}

/// Of several texts that chunks tell under one key the last counts.
pub proof fn the_last_chunk_tells(events: Seq<Tree>, key: Seq<char>, n: int, k: int)
    requires
        0 <= k < n <= events.len(),
        text_field(events[k], "type"@) == Some("transcript_chunk"@),
        text_field(events[k], key) is Some,
        forall|i: int|
            k < i < n ==> text_field(#[trigger] events[i], "type"@) != Some("transcript_chunk"@)
                || text_field(events[i], key) is None,
    ensures
        last_chunk_text(events, key, n) == text_field(events[k], key),
    decreases n,
{
    if k < n - 1 {
        the_last_chunk_tells(events, key, n - 1, k);
        assert(text_field(events[n - 1], "type"@) != Some("transcript_chunk"@) || text_field(
            events[n - 1],
            key,
        ) is None);
    }
}

/// The span of a chunk is what its event says.
pub proof fn chunk_spans_are_what_is_said(event: Tree)
    ensures
        field(event, "start_sec"@) matches Some(Tree::Number(n)) ==> span_of(event).0 == measure_of(n),
        field(event, "end_sec"@) matches Some(Tree::Number(n)) ==> span_of(event).1 == measure_of(n),
        field(event, "end_sec"@) is None ==> span_of(event).1 == span_of(event).0,
        field(event, "start_sec"@) is None ==> span_of(event).0 == (Measure { bits: 0 }),
{
}

/// A transcript from chunks failed only where chunks failed and none succeeded, and is empty only
/// where there is neither a text nor a chunk.
pub proof fn chunked_transcripts_fail_rarely(
    transcript: Seq<char>,
    chunks: nat,
    ok: nat,
    errors: nat,
)
    ensures
        chunked_status(transcript, chunks, ok, errors) == "empty"@ <==> transcript.len() == 0 && chunks
            == 0,
        chunked_status(transcript, chunks, ok, errors) == "error"@ <==> errors > 0 && ok == 0 && !(
        transcript.len() == 0 && chunks == 0),
        ok > 0 && chunks > 0 ==> chunked_status(transcript, chunks, ok, errors) == "ok"@,
{
    reveal_strlit("empty");
    reveal_strlit("error");
    reveal_strlit("ok");
    assert("empty"@[1] == 'm' && "error"@[1] == 'r' && "ok"@.len() == 2 && "empty"@.len() == 5);
    assert("error"@.len() == 5);
}

/// What a chunk comes to: its text is kept where the transcriber succeeded and gave one.
pub proof fn transcribed_chunks_are_kept(text: String, meta: Json, error: String)
    ensures
        ({
            let ok = text_field(meta@, "status"@) == Some("ok"@);
            let blank = forall|i: int| 0 <= i < text@.len() ==> is_space(#[trigger] text@[i]);
            let o = outcome_of(ChunkWork::Transcribed(text, meta));
            &&& ok && !blank ==> o is Kept
            &&& ok && blank ==> o is Empty
            &&& !ok ==> o is TranscribeFailed
        }),
        outcome_of(ChunkWork::ExtractFailed(error)) is ExtractFailed,
        outcome_of(ChunkWork::NoNewAudio) is NoNewAudio,
        outcome_status(ChunkOutcome::Kept) == "ok"@,
        outcome_status(ChunkOutcome::Empty) == "skipped"@,
        outcome_status(ChunkOutcome::NoNewAudio) == "skipped"@,
        outcome_status(ChunkOutcome::ExtractFailed) == "error"@,
        outcome_status(ChunkOutcome::TranscribeFailed) == "error"@,
{
    if forall|i: int| 0 <= i < text@.len() ==> is_space(#[trigger] text@[i]) {
        lemma_blank_is_trimmed(text@);
    } else {
        let i = choose|i: int| 0 <= i < text@.len() && !is_space(#[trigger] text@[i]);
        lemma_trimmed_keeps(text@, i);
    }
}

proof fn lemma_chunk_keys()
    ensures
        "ts"@.len() == 2 && "type"@.len() == 4 && "id"@.len() == 2 && "mode"@.len() == 4,
        "status"@.len() == 6 && "reason"@.len() == 6 && "requested_reason"@.len() == 16,
        "start_sec"@.len() == 9 && "end_sec"@.len() == 7 && "error"@.len() == 5,
        "chars"@.len() == 5 && "words"@.len() == 5 && "transcription"@.len() == 13,
        "chunk_id"@.len() == 8 && "ts"@[0] == 't' && "id"@[0] == 'i' && "type"@[0] == 't',
        "mode"@[0] == 'm' && "status"@[0] == 's' && "reason"@[0] == 'r' && "error"@[0] == 'e',
        "chars"@[0] == 'c' && "words"@[0] == 'w' && "method"@.len() == 6 && "method"@[0] == 'm',
        "chunks"@.len() == 6 && "chunks"@[0] == 'c' && "chunks_ok"@.len() == 9,
        "chunks_skipped"@.len() == 14 && "chunks_error"@.len() == 12,
        "chunk_audio_sec"@.len() == 15 && "stopping_seen"@.len() == 13 && "stop_reason"@.len() == 11,
{
    reveal_strlit("ts");
    reveal_strlit("type");
    reveal_strlit("id");
    reveal_strlit("mode");
    reveal_strlit("status");
    reveal_strlit("reason");
    reveal_strlit("requested_reason");
    reveal_strlit("start_sec");
    reveal_strlit("end_sec");
    reveal_strlit("error");
    reveal_strlit("chars");
    reveal_strlit("words");
    reveal_strlit("transcription");
    reveal_strlit("chunk_id");
    reveal_strlit("method");
    reveal_strlit("chunks");
    reveal_strlit("chunks_ok");
    reveal_strlit("chunks_skipped");
    reveal_strlit("chunks_error");
    reveal_strlit("chunk_audio_sec");
    reveal_strlit("stopping_seen");
    reveal_strlit("stop_reason");
}

/// The event of a chunk has its number, its span, what came of it, and of a text how many words it
/// has; the caller is told the same.
pub proof fn chunks_are_reported(q: ChunkRequest, work: ChunkWork)
    ensures
        ({
            let e = chunk_event(q, work);
            let r = chunk_result(q, work);
            let status = outcome_status(outcome_of(work));
            &&& text_field(e, "type"@) == Some("transcript_chunk"@)
            &&& text_field(e, "ts"@) == Some(q.ts@)
            &&& field(e, "id"@) == Some(count_tree(q.chunk_id as nat))
            &&& text_field(e, "status"@) == Some(status)
            &&& field(e, "start_sec"@) == Some(Tree::Number(q.start_sec@))
            &&& field(e, "end_sec"@) == Some(Tree::Number(q.end_sec@))
            &&& text_field(e, "requested_reason"@) == Some(q.reason@)
            &&& outcome_of(work) is Kept ==> text_field(e, "reason"@) == Some("manual_chunk"@)
            &&& outcome_of(work) is Empty ==> text_field(e, "reason"@) == Some("empty_transcript"@)
            &&& outcome_of(work) is NoNewAudio ==> text_field(e, "reason"@) == Some("no_new_audio"@)
            &&& outcome_of(work) is TranscribeFailed ==> text_field(e, "reason"@) == Some(
                "transcribe_failed"@,
            )
            &&& work is ExtractFailed ==> text_field(e, "reason"@) == Some(
                "segment_extract_failed"@,
            ) && status == "error"@
            &&& work is NoNewAudio ==> text_field(e, "reason"@) == Some("no_new_audio"@) && status
                == "skipped"@
            &&& work matches ChunkWork::Transcribed(text, meta) ==> status == if text_field(
                meta@,
                "status"@,
            ) != Some("ok"@) {
                "error"@
            } else if trimmed(text@).len() == 0 {
                "skipped"@
            } else {
                "ok"@
            }
            &&& text_field(e, "mode"@) == Some("manual"@)
            &&& work matches ChunkWork::Transcribed(text, meta) ==> (text_field(meta@, "status"@)
                == Some("ok"@) ==> field(e, "chars"@) == Some(
                count_tree(byte_len(trimmed(text@)) as nat),
            ))
            &&& outcome_of(work) is Empty ==> text_field(r, "reason"@) == Some(q.reason@)
            &&& work is ExtractFailed ==> text_field(r, "reason"@) == Some(
                "segment_extract_failed"@,
            )
            &&& work is NoNewAudio ==> text_field(r, "reason"@) == Some("no_new_audio"@)
            &&& work matches ChunkWork::Transcribed(text, meta) ==> (text_field(meta@, "status"@)
                == Some("ok"@) ==> field(e, "words"@) == Some(
                count_tree(words_of(trimmed(text@)).len()),
            ) && field(e, "transcription"@) == Some(meta@))
            &&& work matches ChunkWork::ExtractFailed(m) ==> text_field(e, "error"@) == Some(m@)
            &&& text_field(r, "status"@) == Some(status)
            &&& field(r, "chunk_id"@) == Some(count_tree(q.chunk_id as nat))
            &&& field(r, "start_sec"@) == Some(Tree::Number(q.start_sec@))
            &&& field(r, "end_sec"@) == Some(Tree::Number(q.end_sec@))
            &&& outcome_of(work) is Kept ==> text_field(r, "reason"@) == Some(q.reason@)
            &&& outcome_of(work) is TranscribeFailed ==> text_field(r, "reason"@) == Some(
                "transcribe_failed"@,
            )
        }),
{
    lemma_chunk_keys();
    let o = outcome_of(work);
    let p = seq![
        ("ts"@, Tree::Text(q.ts@)),
        ("type"@, Tree::Text("transcript_chunk"@)),
        ("id"@, count_tree(q.chunk_id as nat)),
        ("mode"@, Tree::Text("manual"@)),
        ("status"@, Tree::Text(outcome_status(o))),
        ("reason"@, Tree::Text(outcome_reason(o))),
        ("requested_reason"@, Tree::Text(q.reason@)),
        ("start_sec"@, Tree::Number(q.start_sec@)),
        ("end_sec"@, Tree::Number(q.end_sec@)),
    ] + work_pairs(work);
    pairs_read_back(p, 0);
    pairs_read_back(p, 1);
    pairs_read_back(p, 2);
    pairs_read_back(p, 3);
    pairs_read_back(p, 4);
    pairs_read_back(p, 5);
    pairs_read_back(p, 6);
    pairs_read_back(p, 7);
    pairs_read_back(p, 8);
    if work_pairs(work).len() == 3 {
        assert(p[9] == work_pairs(work)[0]);
        assert(p[10] == work_pairs(work)[1] && p[11] == work_pairs(work)[2]);
        pairs_read_back(p, 9);
        pairs_read_back(p, 10);
        pairs_read_back(p, 11);
    }
    if work is ExtractFailed {
        assert(p[9] == work_pairs(work)[0]);
        pairs_read_back(p, 9);
    }
    let told = if o is Kept || o is Empty {
        q.reason@
    } else {
        outcome_reason(o)
    };
    let t = seq![
        ("status"@, Tree::Text(outcome_status(o))),
        ("reason"@, Tree::Text(told)),
        ("start_sec"@, Tree::Number(q.start_sec@)),
        ("end_sec"@, Tree::Number(q.end_sec@)),
        ("chunk_id"@, count_tree(q.chunk_id as nat)),
    ] + if o is ExtractFailed {
        Seq::empty()
    } else {
        work_pairs(work)
    };
    pairs_read_back(t, 0);
    pairs_read_back(t, 1);
    pairs_read_back(t, 2);
    pairs_read_back(t, 3);
    pairs_read_back(t, 4);
}

/// What is said of a transcript from chunks counts them by how they went.
pub proof fn chunked_transcripts_are_reported(
    transcript: Seq<char>,
    events: Seq<Tree>,
    method: Seq<char>,
    seconds: Number,
)
    ensures
        ({
            let n = events.len() as int;
            let t = Tree::Object(object_of(chunked_pairs(transcript, events, method, seconds)));
            &&& text_field(t, "method"@) == Some(method)
            &&& field(t, "chunks"@) == Some(count_tree(chunk_count(events, n)))
            &&& field(t, "chunks_ok"@) == Some(count_tree(status_count(events, "ok"@, n)))
            &&& field(t, "chunks_skipped"@) == Some(
                count_tree(status_count(events, "skipped"@, n)),
            )
            &&& field(t, "chunks_error"@) == Some(count_tree(status_count(events, "error"@, n)))
            &&& field(t, "chunk_audio_sec"@) == Some(Tree::Number(seconds@))
            &&& text_field(t, "status"@) == Some(
                chunked_status(
                    transcript,
                    chunk_count(events, n),
                    status_count(events, "ok"@, n),
                    status_count(events, "error"@, n),
                ),
            )
            &&& last_chunk_text(events, "mode"@, n) is None ==> text_field(t, "mode"@) == Some(
                "manual"@,
            )
            &&& last_chunk_text(events, "mode"@, n) matches Some(m) ==> text_field(t, "mode"@)
                == Some(m)
            &&& (exists|i: int|
                0 <= i < n && text_field(#[trigger] events[i], "type"@) == Some(
                    "session_stopping"@,
                )) ==> field(t, "stopping_seen"@) == Some(Tree::Bool(true))
        }),
{
    lemma_chunk_keys();
    let n = events.len() as int;
    let p = chunked_pairs(transcript, events, method, seconds);
    pairs_read_back(p, 0);
    pairs_read_back(p, 1);
    pairs_read_back(p, 2);
    pairs_read_back(p, 3);
    pairs_read_back(p, 4);
    pairs_read_back(p, 5);
    pairs_read_back(p, 6);
    pairs_read_back(p, 7);
    pairs_read_back(p, 8);
    if exists|i: int|
        0 <= i < n && text_field(#[trigger] events[i], "type"@) == Some("session_stopping"@) {
        let i = choose|i: int|
            0 <= i < n && text_field(#[trigger] events[i], "type"@) == Some("session_stopping"@);
        assert(is_type(events[i], "session_stopping"@));
    }
}

/// The spans of the chunks are told in their order.
pub proof fn spans_are_told_in_order(events: Seq<Tree>, e: Tree)
    ensures
        text_field(e, "type"@) == Some("transcript_chunk"@) ==> spans_of(
            events.push(e),
            events.len() + 1int,
        ) == spans_of(events, events.len() as int).push(span_of(e)),
        text_field(e, "type"@) != Some("transcript_chunk"@) ==> spans_of(
            events.push(e),
            events.len() + 1int,
        ) == spans_of(events, events.len() as int),
{
    lemma_spans_prefix(events, e, events.len() as int);
    assert(events.push(e)[events.len() as int] == e);
}

proof fn lemma_spans_prefix(events: Seq<Tree>, e: Tree, n: int)
    requires
        0 <= n <= events.len(),
    ensures
        spans_of(events.push(e), n) == spans_of(events, n),
    decreases n,
{
    if n > 0 {
        lemma_spans_prefix(events, e, n - 1);
        assert(events.push(e)[n - 1] == events[n - 1]);
    }
}

/// The largest id of chunks is that of one of them, and an event has one where it is that of a chunk.
pub proof fn the_largest_chunk_id_is_one_of_them(events: Seq<Tree>, n: int, e: Tree, id: u64)
    requires
        0 <= n <= events.len(),
    ensures
        max_chunk_id_of(events, 0) == 0,
        max_chunk_id_of(events, n) > 0 ==> exists|k: int|
            0 <= k < n && chunk_id_of(#[trigger] events[k]) == Some(max_chunk_id_of(events, n)),
        text_field(e, "type"@) == Some("transcript_chunk"@) && field(e, "id"@) == Some(
            Tree::Number(NumberView::Unsigned(id)),
        ) ==> chunk_id_of(e) == Some(id),
        text_field(e, "type"@) != Some("transcript_chunk"@) ==> chunk_id_of(e) is None,
        field(e, "id"@) is None ==> chunk_id_of(e) is None,
    decreases n,
{
    if n > 0 {
        the_largest_chunk_id_is_one_of_them(events, n - 1, e, id);
        let before = max_chunk_id_of(events, n - 1);
        if chunk_id_of(events[n - 1]) == Some(max_chunk_id_of(events, n)) {
        } else if before > 0 {
            let k = choose|k: int|
                0 <= k < n - 1 && chunk_id_of(#[trigger] events[k]) == Some(before);
            assert(chunk_id_of(events[k]) == Some(max_chunk_id_of(events, n)));
        }
    }
}

/// A blank line parts a chunk from what was there, and where either says nothing the other is all.
pub proof fn a_blank_line_parts_chunks(a: Seq<char>, b: Seq<char>)
    ensures
        trimmed(a).len() > 0 && trimmed(b).len() > 0 ==> merged(a, b) == trimmed(a) + seq!['\n', '\n']
            + trimmed(b),
        trimmed(a).len() == 0 ==> merged(a, b) == trimmed(b),
        trimmed(b).len() == 0 ==> merged(a, b) == trimmed(a),
{
    reveal_strlit("\n\n");
    assert("\n\n"@ =~= seq!['\n', '\n']);
    if trimmed(a).len() == 0 && trimmed(b).len() == 0 {
        assert(trimmed(a) =~= trimmed(b));
    }
}

/// The reason that is told of a transcript from chunks is that of its last chunk, where it has one.
pub proof fn the_last_reason_is_told(
    transcript: Seq<char>,
    events: Seq<Tree>,
    method: Seq<char>,
    seconds: Number,
)
    ensures
        ({
            let t = Tree::Object(object_of(chunked_pairs(transcript, events, method, seconds)));
            let last = last_chunk_text(events, "reason"@, events.len() as int);
            &&& last matches Some(why) ==> (why.len() > 0 ==> text_field(t, "stop_reason"@) == Some(
                why,
            ))
            &&& last is None ==> field(t, "stop_reason"@) == Some(Tree::Null)
            &&& (forall|i: int|
                0 <= i < events.len() ==> text_field(#[trigger] events[i], "type"@) != Some(
                    "session_stopping"@,
                )) ==> field(t, "stopping_seen"@) == Some(Tree::Bool(false))
        }),
{
    lemma_chunk_keys();
    let p = chunked_pairs(transcript, events, method, seconds);
    pairs_read_back(p, 8);
    pairs_read_back(p, 9);
}

} // verus!
