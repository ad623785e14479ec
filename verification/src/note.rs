//! The note of a session in Markdown.

use vstd::prelude::*;

use crate::annotations::{clip_label, label_of_shot, shot_label};
use crate::json::{measure_of, text_field, Json, NumberView, Tree};
use crate::measure::Measure;
use crate::models::{
    clip_views, shot_views, ClipView, ClipboardMeta, SessionState, ShotMeta, ShotView,
};
use crate::number::{decimal, decimal_text, pad_left, padded_left, two_digits_read_back};
use crate::paths::{join_path, joined_path};
use crate::pattern::{
    contains, join, joined, lemma_one_piece, occurs_at, replace, replaced, split, split_of, views,
    Lines,
};
use crate::text::{chars_of, concat, concat3, is_blank, string_of, trim, trimmed};
use crate::watch::{get_text_or, number_text, number_text_of, text_or};

verus! {

/// A number of two digits at least.
pub open spec fn two_digits(n: nat) -> Seq<char> {
    padded_left(decimal(n), '0', 2)
}

/// A number of two digits at least.
pub fn two_digit_text(n: u64) -> (r: String)
    ensures
        r@ == two_digits(n as nat),
{
    pad_left(decimal_text(n).as_str(), '0', 2)
}

/// Seconds as `mm:ss`, with hours in front where there are any.
pub open spec fn hms(secs: nat) -> Seq<char> {
    let tail = two_digits((secs % 3600) / 60) + ":"@ + two_digits(secs % 60);
    if secs / 3600 > 0 {
        two_digits(secs / 3600) + ":"@ + tail
    } else {
        tail
    }
}

/// Seconds as `mm:ss`, with hours in front where there are any.
pub fn format_hms(seconds: &Measure) -> (r: String)
    ensures
        r@ == hms(seconds.whole_of() as nat),
{
    let sec: u64 = seconds.whole() as u64;
    let tail = concat3(
        two_digit_text((sec % 3600) / 60).as_str(),
        ":",
        two_digit_text(sec % 60).as_str(),
    );
    if sec / 3600 > 0 {
        concat3(two_digit_text(sec / 3600).as_str(), ":", tail.as_str())
    } else {
        tail
    }
}

/// A line of a clipboard text, where it is not blank.
pub open spec fn preview_line(l: Seq<char>) -> Option<Seq<char>> {
    if trimmed(l).len() > 0 {
        Some(trimmed(l))
    } else {
        None
    }
}

/// A clipboard text in one line.
pub open spec fn single_line(text: Seq<char>) -> Seq<char> {
    let t = replaced(replaced(text, "\r\n"@, "\n"@), "\r"@, "\n"@);
    trimmed(joined(split_of(t, "\n"@).filter_map(|l: Seq<char>| preview_line(l)), " "@))
}

/// The start of a clipboard text in one line, with dots where it goes on.
pub open spec fn preview(text: Seq<char>, max_chars: nat) -> Seq<char> {
    let s = single_line(text);
    if s.len() <= max_chars {
        s
    } else {
        s.subrange(0, max_chars as int) + "..."@
    }
}

/// The start of a clipboard text in one line, with dots where it goes on.
pub fn clip_preview(text: &str, max_chars: usize) -> (r: String)
    ensures
        r@ == preview(text@, max_chars as nat),
{
    proof {
        reveal_strlit("\r\n");
        reveal_strlit("\r");
        reveal_strlit("\n");
    }
    let t = replace(text, "\r\n", "\n");
    let t = replace(t.as_str(), "\r", "\n");
    let all = split(t.as_str(), "\n");
    let ghost av = views(all@);
    let ghost f = |l: Seq<char>| preview_line(l);
    let mut parts: Vec<String> = Vec::new();
    let mut i: usize = 0;
    proof {
        reveal(Seq::filter_map);
    }
    assert(views(parts@) =~= av.subrange(0, 0).filter_map(f));
    while i < all.len()
        invariant
            i <= all.len(),
            av == views(all@),
            f == (|l: Seq<char>| preview_line(l)),
            views(parts@) == av.subrange(0, i as int).filter_map(f),
        decreases all.len() - i,
    {
        let ghost before = parts@;
        proof {
            assert(av.subrange(0, i + 1).drop_last() == av.subrange(0, i as int));
            assert(av.subrange(0, i + 1).last() == all@[i as int]@);
            reveal(Seq::filter_map);
        }
        let l = trim(all[i].as_str());
        if !l.as_str().is_empty() {
            let ghost lv = l@;
            parts.push(l);
            assert(views(parts@) =~= views(before).push(lv));
        }
        assert(views(parts@) =~= av.subrange(0, i + 1).filter_map(f));
        i = i + 1;
    }
    assert(av.subrange(0, av.len() as int) =~= av);
    let line = trim(join(&parts, " ").as_str());
    let c = chars_of(line.as_str());
    if c.len() <= max_chars {
        line
    } else {
        let mut out = string_of(&c, 0, max_chars);
        out.append("...");
        out
    }
}

/// A preview is at most the given number of characters and three dots.
pub proof fn previews_are_short(text: Seq<char>, max_chars: nat)
    ensures
        preview(text, max_chars).len() <= max_chars + 3,
{
    reveal_strlit("...");
}

// ---------------------------------------------------------------------------------------------
// The note
// ---------------------------------------------------------------------------------------------

/// What a note is made from.
pub struct NoteInput<'a> {
    pub state: &'a SessionState,
    pub ended_iso: &'a str,
    pub shots: &'a Vec<ShotMeta>,
    pub clips: &'a Vec<ClipboardMeta>,
    pub transcript: &'a str,
    pub transcription: &'a Json,
    pub audio_duration: Option<Measure>,
}

/// The lines that open a note.
pub open spec fn head_lines(n: NoteInput) -> Seq<Seq<char>> {
    seq![
        "# Dictation Session "@ + n.state.session_id@,
        Seq::empty(),
        "- Started (UTC): "@ + n.state.started_at_iso@,
        "- Ended (UTC): "@ + n.ended_iso@,
        "- Audio: `audio.wav`"@,
        "- Screenshots moved from: `"@ + n.state.screenshot_source_dir@ + "`"@,
        "- Screenshots captured: "@ + decimal(n.shots@.len()),
        "- Clipboard captures: "@ + decimal(n.clips@.len()),
    ]
}

/// The line on the duration of the recording, where it is known.
pub open spec fn duration_lines(n: NoteInput) -> Seq<Seq<char>> {
    match n.audio_duration {
        Some(d) => seq!["- Audio duration: "@ + hms(d.whole_of() as nat)],
        None => Seq::empty(),
    }
}

/// The lines on the transcription.
pub open spec fn status_lines(meta: Tree) -> Seq<Seq<char>> {
    seq!["- Transcription: `"@ + text_or(meta, "status"@, "unknown"@) + "`"@] + match text_field(
        meta,
        "method"@,
    ) {
        Some(m) => seq!["- Transcription method: `"@ + m + "`"@],
        None => Seq::empty(),
    }
}

/// The line that says where a screenshot is kept.
pub open spec fn shot_path_line(dir: Seq<char>, s: ShotView) -> Seq<char> {
    shot_label(s) + ": "@ + joined_path(dir, s.dest_rel_path)
}

/// The line that shows a clipboard text.
pub open spec fn clip_text_line(c: ClipView) -> Seq<char> {
    clip_label(c) + ": "@ + preview(c.text, 120)
}

/// `lines` and a blank line, where there are any.
pub open spec fn block(lines: Seq<Seq<char>>) -> Seq<Seq<char>> {
    if lines.len() == 0 {
        Seq::empty()
    } else {
        lines.push(Seq::empty())
    }
}

/// A heading, a blank line, `lines` and a blank line, where there are any.
pub open spec fn section(heading: Seq<char>, lines: Seq<Seq<char>>) -> Seq<Seq<char>> {
    if lines.len() == 0 {
        Seq::empty()
    } else {
        seq![heading, Seq::empty()] + lines.push(Seq::empty())
    }
}

/// The transcript as it stands in the note.
pub open spec fn transcript_line(transcript: Seq<char>) -> Seq<char> {
    if trimmed(transcript).len() == 0 {
        "_No transcript available._"@
    } else {
        trimmed(transcript)
    }
}

/// The footnote of a screenshot.
pub open spec fn shot_footnote(s: ShotView) -> Seq<char> {
    "[Screenshot "@ + decimal(s.shot_id as nat) + "]: "@ + s.dest_rel_path + " (t="@ + hms(
        measure_of(s.audio_sec).whole_of() as nat,
    ) + ")"@
}

/// The footnote of a clipboard text.
pub open spec fn clip_footnote(c: ClipView) -> Seq<char> {
    "[Clipboard "@ + decimal(c.clip_id as nat) + "]: \""@ + replaced(c.text, "\n"@, "\\n"@)
        + "\" (t="@ + hms(measure_of(c.audio_sec).whole_of() as nat) + ", chars="@ + decimal(
        c.text.len(),
    ) + ")"@
}

/// Whether anything is known of what a screenshot shows.
pub open spec fn has_metadata(s: ShotView) -> bool {
    s.app_name is Some || s.proc_cpu_percent is Some || s.proc_mem_percent is Some
}

/// What is known of what a screenshot shows.
pub open spec fn metadata_lines(s: ShotView) -> Seq<Seq<char>> {
    if !has_metadata(s) {
        Seq::empty()
    } else {
        seq!["[Screenshot "@ + decimal(s.shot_id as nat) + "]"@] + (match s.app_name {
            Some(n) => seq!["App: "@ + n],
            None => Seq::empty(),
        }) + (match s.window_title {
            Some(w) => seq!["Window: "@ + w],
            None => Seq::empty(),
        }) + (match s.proc_cpu_percent {
            Some(n) => seq!["cpu="@ + number_text_of(n) + "%"@],
            None => Seq::empty(),
        }) + (match s.proc_mem_percent {
            Some(n) => seq!["mem="@ + number_text_of(n) + "%"@],
            None => Seq::empty(),
        })
    }
}

/// What is known of what the first `n` screenshots show.
pub open spec fn all_metadata(shots: Seq<ShotView>, n: int) -> Seq<Seq<char>>
    decreases n,
{
    if n <= 0 {
        Seq::empty()
    } else {
        all_metadata(shots, n - 1) + metadata_lines(shots[n - 1])
    }
}

/// The lines that close a note.
pub open spec fn file_lines() -> Seq<Seq<char>> {
    seq![
        "## Files"@,
        Seq::empty(),
        "- `audio.wav`"@,
        "- `events.jsonl`"@,
        "- `ffmpeg.log`"@,
        "- `transcript.txt` (if available)"@,
        "- `note.html`"@,
        "- `screenshots/`"@,
        Seq::empty(),
    ]
}

/// The lines of the transcript section.
pub open spec fn transcript_lines(n: NoteInput) -> Seq<Seq<char>> {
    seq![Seq::empty(), "## Transcript"@, Seq::empty()] + block(
        shot_views(n.shots@).map_values(|s: ShotView| shot_path_line(n.state.session_dir@, s)),
    ) + block(clip_views(n.clips@).map_values(|c: ClipView| clip_text_line(c))) + seq![
        transcript_line(n.transcript@),
        Seq::empty(),
    ]
}

/// The lines of a note.
pub open spec fn note_lines(n: NoteInput) -> Seq<Seq<char>> {
    head_lines(n) + duration_lines(n) + status_lines(n.transcription@) + transcript_lines(n)
        + section(
        "## Screenshot Footnotes"@,
        shot_views(n.shots@).map_values(|s: ShotView| shot_footnote(s)),
    ) + section(
        "## Screenshot Metadata"@,
        all_metadata(shot_views(n.shots@), n.shots@.len() as int),
    ) + section(
        "## Clipboard Footnotes"@,
        clip_views(n.clips@).map_values(|c: ClipView| clip_footnote(c)),
    ) + file_lines()
}

/// Adds the lines of `more` to `out`.
fn add_lines(out: &mut Lines, more: &Lines)
    ensures
        final(out)@ == old(out)@ + more@,
{
    let ghost start = out@;
    let ghost all = more@;
    let mut i: usize = 0;
    while i < more.lines.len()
        invariant
            i <= more.lines.len(),
            all == views(more.lines@),
            out@ == start + all.subrange(0, i as int),
        decreases more.lines.len() - i,
    {
        out.add(more.lines[i].as_str());
        assert(all[i as int] == more.lines@[i as int]@);
        assert(out@ =~= start + all.subrange(0, i + 1));
        i = i + 1;
    }
    assert(out@ =~= start + all);
}

/// Adds a heading and `lines`, where there are any.
fn add_section(out: &mut Lines, heading: &str, lines: &Lines)
    ensures
        final(out)@ == old(out)@ + section(heading@, lines@),
{
    assert(lines@.len() == lines.lines@.len());
    if lines.lines.len() == 0 {
        assert(out@ + section(heading@, lines@) =~= out@);
        return ;
    }
    let ghost start = out@;
    out.add(heading);
    out.add("");
    add_lines(out, lines);
    out.add("");
    proof {
        reveal_strlit("");
        assert(""@ =~= Seq::<char>::empty());
        assert(out@ =~= start + section(heading@, lines@));
    }
}

/// Adds `lines` and a blank line, where there are any.
fn add_block(out: &mut Lines, lines: &Lines)
    ensures
        final(out)@ == old(out)@ + block(lines@),
{
    assert(lines@.len() == lines.lines@.len());
    if lines.lines.len() == 0 {
        assert(out@ + block(lines@) =~= out@);
        return ;
    }
    let ghost start = out@;
    add_lines(out, lines);
    out.add("");
    proof {
        reveal_strlit("");
        assert(""@ =~= Seq::<char>::empty());
        assert(out@ =~= start + block(lines@));
    }
}

/// The lines that say where the screenshots are kept.
fn shot_path_lines(dir: &str, shots: &Vec<ShotMeta>) -> (r: Lines)
    ensures
        r@ == shot_views(shots@).map_values(|s: ShotView| shot_path_line(dir@, s)),
{
    let ghost f = |s: ShotView| shot_path_line(dir@, s);
    let ghost sv = shot_views(shots@);
    let mut out = Lines::new();
    let mut i: usize = 0;
    assert(out@ =~= sv.subrange(0, 0).map_values(f));
    while i < shots.len()
        invariant
            i <= shots.len(),
            sv == shot_views(shots@),
            f == (|s: ShotView| shot_path_line(dir@, s)),
            out@ == sv.subrange(0, i as int).map_values(f),
        decreases shots.len() - i,
    {
        let path = join_path(dir, shots[i].dest_rel_path.as_str());
        let line = concat3(label_of_shot(&shots[i]).as_str(), ": ", path.as_str());
        out.add(line.as_str());
        proof {
            assert(sv[i as int] == shots@[i as int]@);
            assert(sv.subrange(0, i + 1).map_values(f) =~= sv.subrange(0, i as int).map_values(
                f,
            ).push(f(sv[i as int])));
        }
        i = i + 1;
    }
    assert(sv.subrange(0, sv.len() as int) =~= sv);
    out
}

/// The footnotes of the screenshots.
fn shot_footnotes(shots: &Vec<ShotMeta>) -> (r: Lines)
    ensures
        r@ == shot_views(shots@).map_values(|s: ShotView| shot_footnote(s)),
{
    let ghost f = |s: ShotView| shot_footnote(s);
    let ghost sv = shot_views(shots@);
    let mut out = Lines::new();
    let mut i: usize = 0;
    assert(out@ =~= sv.subrange(0, 0).map_values(f));
    while i < shots.len()
        invariant
            i <= shots.len(),
            sv == shot_views(shots@),
            f == (|s: ShotView| shot_footnote(s)),
            out@ == sv.subrange(0, i as int).map_values(f),
        decreases shots.len() - i,
    {
        let mut line = "[Screenshot ".to_owned();
        line.append(decimal_text(shots[i].shot_id).as_str());
        line.append("]: ");
        line.append(shots[i].dest_rel_path.as_str());
        line.append(" (t=");
        line.append(format_hms(&shots[i].audio_sec.measure()).as_str());
        line.append(")");
        out.add(line.as_str());
        proof {
            assert(sv[i as int] == shots@[i as int]@);
            assert(line@ =~= f(sv[i as int]));
            assert(sv.subrange(0, i + 1).map_values(f) =~= sv.subrange(0, i as int).map_values(
                f,
            ).push(f(sv[i as int])));
        }
        i = i + 1;
    }
    assert(sv.subrange(0, sv.len() as int) =~= sv);
    out
}

/// The lines that show the clipboard texts.
fn clip_text_lines(clips: &Vec<ClipboardMeta>) -> (r: Lines)
    ensures
        r@ == clip_views(clips@).map_values(|c: ClipView| clip_text_line(c)),
{
    let ghost f = |c: ClipView| clip_text_line(c);
    let ghost cv = clip_views(clips@);
    let mut out = Lines::new();
    let mut i: usize = 0;
    assert(out@ =~= cv.subrange(0, 0).map_values(f));
    while i < clips.len()
        invariant
            i <= clips.len(),
            cv == clip_views(clips@),
            f == (|c: ClipView| clip_text_line(c)),
            out@ == cv.subrange(0, i as int).map_values(f),
        decreases clips.len() - i,
    {
        let label = concat("Clipboard ", decimal_text(clips[i].clip_id).as_str());
        let text = clip_preview(clips[i].text.as_str(), 120);
        out.add(concat3(label.as_str(), ": ", text.as_str()).as_str());
        proof {
            assert(cv[i as int] == clips@[i as int]@);
            assert(cv.subrange(0, i + 1).map_values(f) =~= cv.subrange(0, i as int).map_values(
                f,
            ).push(f(cv[i as int])));
        }
        i = i + 1;
    }
    assert(cv.subrange(0, cv.len() as int) =~= cv);
    out
}

/// The footnotes of the clipboard texts.
fn clip_footnotes(clips: &Vec<ClipboardMeta>) -> (r: Lines)
    ensures
        r@ == clip_views(clips@).map_values(|c: ClipView| clip_footnote(c)),
{
    let ghost f = |c: ClipView| clip_footnote(c);
    let ghost cv = clip_views(clips@);
    let mut out = Lines::new();
    let mut i: usize = 0;
    proof {
        reveal_strlit("\n");
    }
    assert(out@ =~= cv.subrange(0, 0).map_values(f));
    while i < clips.len()
        invariant
            i <= clips.len(),
            "\n"@.len() == 1,
            cv == clip_views(clips@),
            f == (|c: ClipView| clip_footnote(c)),
            out@ == cv.subrange(0, i as int).map_values(f),
        decreases clips.len() - i,
    {
        let n: usize = clips[i].text.as_str().unicode_len();
        let mut line = "[Clipboard ".to_owned();
        line.append(decimal_text(clips[i].clip_id).as_str());
        line.append("]: \"");
        line.append(replace(clips[i].text.as_str(), "\n", "\\n").as_str());
        line.append("\" (t=");
        line.append(format_hms(&clips[i].audio_sec.measure()).as_str());
        line.append(", chars=");
        line.append(decimal_text(n as u64).as_str());
        line.append(")");
        out.add(line.as_str());
        proof {
            assert(cv[i as int] == clips@[i as int]@);
            assert(line@ =~= f(cv[i as int]));
            assert(cv.subrange(0, i + 1).map_values(f) =~= cv.subrange(0, i as int).map_values(
                f,
            ).push(f(cv[i as int])));
        }
        i = i + 1;
    }
    assert(cv.subrange(0, cv.len() as int) =~= cv);
    out
}

/// What is known of what a screenshot shows.
fn add_metadata(out: &mut Lines, s: &ShotMeta)
    ensures
        final(out)@ == old(out)@ + metadata_lines(s@),
{
    let ghost start = out@;
    if s.app_name.is_none() && s.proc_cpu_percent.is_none() && s.proc_mem_percent.is_none() {
        assert(out@ + metadata_lines(s@) =~= out@);
        return ;
    }
    out.add(concat3("[Screenshot ", decimal_text(s.shot_id).as_str(), "]").as_str());
    if let Some(n) = &s.app_name {
        out.add(concat("App: ", n.as_str()).as_str());
    }
    if let Some(w) = &s.window_title {
        out.add(concat("Window: ", w.as_str()).as_str());
    }
    if let Some(n) = &s.proc_cpu_percent {
        out.add(concat3("cpu=", number_text(n).as_str(), "%").as_str());
    }
    if let Some(n) = &s.proc_mem_percent {
        out.add(concat3("mem=", number_text(n).as_str(), "%").as_str());
    }
    assert(out@ =~= start + metadata_lines(s@));
}

/// What is known of what the screenshots show.
fn shot_metadata(shots: &Vec<ShotMeta>) -> (r: Lines)
    ensures
        r@ == all_metadata(shot_views(shots@), shots@.len() as int),
{
    let ghost sv = shot_views(shots@);
    let mut out = Lines::new();
    let mut i: usize = 0;
    while i < shots.len()
        invariant
            i <= shots.len(),
            sv == shot_views(shots@),
            out@ == all_metadata(sv, i as int),
        decreases shots.len() - i,
    {
        assert(sv[i as int] == shots@[i as int]@);
        add_metadata(&mut out, &shots[i]);
        i = i + 1;
    }
    out
}

/// The lines that open a note, down to those on the transcription.
fn add_head(out: &mut Lines, n: &NoteInput)
    ensures
        final(out)@ == old(out)@ + (head_lines(*n) + duration_lines(*n) + status_lines(
            n.transcription@,
        )),
{
    let ghost start = out@;
    out.add(concat("# Dictation Session ", n.state.session_id.as_str()).as_str());
    out.add("");
    out.add(concat("- Started (UTC): ", n.state.started_at_iso.as_str()).as_str());
    out.add(concat("- Ended (UTC): ", n.ended_iso).as_str());
    out.add("- Audio: `audio.wav`");
    out.add(
        concat3(
            "- Screenshots moved from: `",
            n.state.screenshot_source_dir.as_str(),
            "`",
        ).as_str(),
    );
    out.add(
        concat("- Screenshots captured: ", decimal_text(n.shots.len() as u64).as_str()).as_str(),
    );
    out.add(concat("- Clipboard captures: ", decimal_text(n.clips.len() as u64).as_str()).as_str());
    proof {
        reveal_strlit("");
        assert(""@ =~= Seq::<char>::empty());
        assert(out@ =~= start + head_lines(*n));
    }
    if let Some(d) = &n.audio_duration {
        out.add(concat("- Audio duration: ", format_hms(d).as_str()).as_str());
    }
    assert(out@ =~= start + head_lines(*n) + duration_lines(*n));
    let ghost middle = out@;
    out.add(
        concat3(
            "- Transcription: `",
            get_text_or(n.transcription, "status", "unknown").as_str(),
            "`",
        ).as_str(),
    );
    if let Some(m) = n.transcription.get_text("method") {
        out.add(concat3("- Transcription method: `", m.as_str(), "`").as_str());
    }
    assert(out@ =~= middle + status_lines(n.transcription@));
    assert(out@ =~= start + (head_lines(*n) + duration_lines(*n) + status_lines(n.transcription@)));
}

/// The lines of the transcript section.
fn add_transcript(out: &mut Lines, n: &NoteInput)
    ensures
        final(out)@ == old(out)@ + transcript_lines(*n),
{
    let ghost start = out@;
    out.add("");
    out.add("## Transcript");
    out.add("");
    proof {
        reveal_strlit("");
        assert(""@ =~= Seq::<char>::empty());
    }
    assert(out@ =~= start + seq![Seq::empty(), "## Transcript"@, Seq::empty()]);
    let ghost a = out@;
    add_block(out, &shot_path_lines(n.state.session_dir.as_str(), n.shots));
    add_block(out, &clip_text_lines(n.clips));
    let ghost b = out@;
    if is_blank(n.transcript) {
        out.add("_No transcript available._");
    } else {
        out.add(trim(n.transcript).as_str());
    }
    out.add("");
    assert(out@ =~= b + seq![transcript_line(n.transcript@), Seq::empty()]);
    assert(out@ =~= start + transcript_lines(*n));
}

/// The note of a session in Markdown: what it is, its transcript, the screenshots and clipboard
/// texts that belong to it, and its files.
pub fn build_note(n: &NoteInput) -> (r: String)
    ensures
        r@ == joined(note_lines(*n), "\n"@),
{
    let mut out = Lines::new();
    add_head(&mut out, n);
    add_transcript(&mut out, n);
    let ghost a = out@;
    add_section(&mut out, "## Screenshot Footnotes", &shot_footnotes(n.shots));
    add_section(&mut out, "## Screenshot Metadata", &shot_metadata(n.shots));
    add_section(&mut out, "## Clipboard Footnotes", &clip_footnotes(n.clips));
    let ghost b = out@;
    out.add("## Files");
    out.add("");
    out.add("- `audio.wav`");
    out.add("- `events.jsonl`");
    out.add("- `ffmpeg.log`");
    out.add("- `transcript.txt` (if available)");
    out.add("- `note.html`");
    out.add("- `screenshots/`");
    out.add("");
    proof {
        reveal_strlit("");
        assert(""@ =~= Seq::<char>::empty());
        assert(out@ =~= b + file_lines());
        assert(a =~= head_lines(*n) + duration_lines(*n) + status_lines(n.transcription@)
            + transcript_lines(*n));
        assert(out@ =~= note_lines(*n));
    }
    out.join("\n")
}

// ---------------------------------------------------------------------------------------------
// What a note shows
// ---------------------------------------------------------------------------------------------

/// The number that the two digits at `i` write.
pub open spec fn pair_value(s: Seq<char>, i: int) -> int {
    (s[i] as u32 - '0' as u32) * 10 + (s[i + 1] as u32 - '0' as u32)
}

/// A time reads back: minutes and seconds below sixty, with the hours in front from the first hour
/// on.
pub proof fn times_read_back(secs: nat)
    requires
        secs < 360000,
    ensures
        ({
            let s = hms(secs);
            &&& secs < 3600 ==> s.len() == 5 && s[2] == ':' && pair_value(s, 0) * 60 + pair_value(
                s,
                3,
            ) == secs && pair_value(s, 3) < 60
            &&& secs >= 3600 ==> s.len() == 8 && s[2] == ':' && s[5] == ':' && pair_value(s, 0)
                * 3600 + pair_value(s, 3) * 60 + pair_value(s, 6) == secs && pair_value(s, 3) < 60
                && pair_value(s, 6) < 60
        }),
{
    reveal_strlit(":");
    two_digits_read_back((secs % 3600) / 60);
    two_digits_read_back(secs % 60);
    two_digits_read_back(secs / 3600);
    let h = two_digits(secs / 3600);
    let m = two_digits((secs % 3600) / 60);
    let t = two_digits(secs % 60);
    if secs < 3600 {
        assert(hms(secs) =~= seq![m[0], m[1], ':', t[0], t[1]]);
    } else {
        assert(hms(secs) =~= seq![h[0], h[1], ':', m[0], m[1], ':', t[0], t[1]]);
    }
}

/// How many lines stand in front of the screenshots of a note.
pub open spec fn lines_in_front(n: NoteInput) -> int {
    8 + (if n.audio_duration is Some {
        1int
    } else {
        0
    }) + (if text_field(n.transcription@, "method"@) is Some {
        2int
    } else {
        1
    }) + 3
}

/// How many lines a block of `n` lines takes.
pub open spec fn block_lines(n: nat) -> int {
    if n == 0 {
        0
    } else {
        n + 1int
    }
}

/// How many lines a section of `n` lines takes.
pub open spec fn section_lines(n: nat) -> int {
    if n == 0 {
        0
    } else {
        n + 3int
    }
}

/// A note names every screenshot and where it is kept, one to a line and in their order, in front of
/// the transcript, and behind it gives for each its file and its time.
pub proof fn notes_list_every_screenshot(n: NoteInput, i: int)
    requires
        0 <= i < n.shots@.len(),
    ensures
        ({
            let s = n.shots@[i]@;
            let lines = note_lines(n);
            let listed = lines_in_front(n) + i;
            let noted = lines_in_front(n) + block_lines(n.shots@.len()) + block_lines(
                n.clips@.len(),
            ) + 4 + i;
            let label = match s.app_name {
                Some(name) => name + " Screenshot "@,
                None => "Screenshot "@,
            };
            &&& noted < lines.len()
            &&& lines[listed] == label + decimal(s.shot_id as nat) + ": "@ + joined_path(
                n.state.session_dir@,
                s.dest_rel_path,
            )
            &&& lines[noted] == "[Screenshot "@ + decimal(s.shot_id as nat) + "]: "@
                + s.dest_rel_path + " (t="@ + hms(measure_of(s.audio_sec).whole_of() as nat) + ")"@
        }),
{
    let sv = shot_views(n.shots@);
    assert(sv[i] == n.shots@[i]@);
    let listed = sv.map_values(|s: ShotView| shot_path_line(n.state.session_dir@, s));
    let noted = sv.map_values(|s: ShotView| shot_footnote(s));
    lemma_note_parts(n);
    assert(listed[i] == shot_path_line(n.state.session_dir@, sv[i]));
    assert(noted[i] == shot_footnote(sv[i]));
    assert(block(listed)[i] == listed[i]);
    assert(section("## Screenshot Footnotes"@, noted)[i + 2] == noted[i]);
}

/// A note shows the start of every clipboard text, one to a line and in their order, in front of the
/// transcript, and behind it gives for each the whole text, its time and its length.
pub proof fn notes_list_every_clip(n: NoteInput, i: int)
    requires
        0 <= i < n.clips@.len(),
    ensures
        ({
            let c = n.clips@[i]@;
            let lines = note_lines(n);
            let listed = lines_in_front(n) + block_lines(n.shots@.len()) + i;
            let metadata = all_metadata(shot_views(n.shots@), n.shots@.len() as int);
            let noted = lines_in_front(n) + block_lines(n.shots@.len()) + block_lines(
                n.clips@.len(),
            ) + 4 + section_lines(n.shots@.len()) + section_lines(metadata.len()) + i;
            &&& noted < lines.len()
            &&& lines[listed] == "Clipboard "@ + decimal(c.clip_id as nat) + ": "@ + preview(
                c.text,
                120,
            )
            &&& lines[noted] == "[Clipboard "@ + decimal(c.clip_id as nat) + "]: \""@ + replaced(
                c.text,
                "\n"@,
                "\\n"@,
            ) + "\" (t="@ + hms(measure_of(c.audio_sec).whole_of() as nat) + ", chars="@ + decimal(
                c.text.len(),
            ) + ")"@
        }),
{
    let cv = clip_views(n.clips@);
    assert(cv[i] == n.clips@[i]@);
    let listed = cv.map_values(|c: ClipView| clip_text_line(c));
    let noted = cv.map_values(|c: ClipView| clip_footnote(c));
    lemma_note_parts(n);
    assert(listed[i] == clip_text_line(cv[i]));
    assert(noted[i] == clip_footnote(cv[i]));
    assert(block(listed)[i] == listed[i]);
    assert(section("## Clipboard Footnotes"@, noted)[i + 2] == noted[i]);
}

/// A note opens with the session, when it began and ended and how much was captured, and has the
/// transcript behind the screenshots and the clipboard texts.
pub proof fn notes_open_with_the_session(n: NoteInput)
    ensures
        ({
            let lines = note_lines(n);
            let said = lines_in_front(n) + block_lines(n.shots@.len()) + block_lines(
                n.clips@.len(),
            );
            &&& lines[0] == "# Dictation Session "@ + n.state.session_id@
            &&& lines[2] == "- Started (UTC): "@ + n.state.started_at_iso@
            &&& lines[3] == "- Ended (UTC): "@ + n.ended_iso@
            &&& lines[6] == "- Screenshots captured: "@ + decimal(n.shots@.len())
            &&& lines[7] == "- Clipboard captures: "@ + decimal(n.clips@.len())
            &&& n.audio_duration matches Some(d) ==> lines[8] == "- Audio duration: "@ + hms(
                d.whole_of() as nat,
            )
            &&& trimmed(n.transcript@).len() > 0 ==> lines[said] == trimmed(n.transcript@)
            &&& trimmed(n.transcript@).len() == 0 ==> lines[said] == "_No transcript available._"@
        }),
{
    lemma_note_parts(n);
    assert(head_lines(n)[0] == "# Dictation Session "@ + n.state.session_id@);
    assert(head_lines(n)[2] == "- Started (UTC): "@ + n.state.started_at_iso@);
    assert(head_lines(n)[3] == "- Ended (UTC): "@ + n.ended_iso@);
    assert(head_lines(n)[6] == "- Screenshots captured: "@ + decimal(n.shots@.len()));
    assert(head_lines(n)[7] == "- Clipboard captures: "@ + decimal(n.clips@.len()));
}

/// Where the parts of a note stand.
proof fn lemma_note_parts(n: NoteInput)
    ensures
        ({
            let lines = note_lines(n);
            let front = lines_in_front(n);
            let listed = block(
                shot_views(n.shots@).map_values(
                    |s: ShotView| shot_path_line(n.state.session_dir@, s),
                ),
            );
            let shown = block(clip_views(n.clips@).map_values(|c: ClipView| clip_text_line(c)));
            let said = front + listed.len() + shown.len();
            let notes = section(
                "## Screenshot Footnotes"@,
                shot_views(n.shots@).map_values(|s: ShotView| shot_footnote(s)),
            );
            let metadata = section(
                "## Screenshot Metadata"@,
                all_metadata(shot_views(n.shots@), n.shots@.len() as int),
            );
            let clips = section(
                "## Clipboard Footnotes"@,
                clip_views(n.clips@).map_values(|c: ClipView| clip_footnote(c)),
            );
            let past = said + 2 + notes.len() + metadata.len();
            &&& listed.len() == block_lines(n.shots@.len())
            &&& shown.len() == block_lines(n.clips@.len())
            &&& notes.len() == section_lines(n.shots@.len())
            &&& metadata.len() == section_lines(
                all_metadata(shot_views(n.shots@), n.shots@.len() as int).len(),
            )
            &&& clips.len() == section_lines(n.clips@.len())
            &&& lines.len() == past + clips.len() + file_lines().len()
            &&& forall|i: int| 0 <= i < 8 ==> #[trigger] lines[i] == head_lines(n)[i]
            &&& n.audio_duration is Some ==> lines[8] == duration_lines(n)[0]
            &&& forall|i: int| 0 <= i < listed.len() ==> lines[front + i] == #[trigger] listed[i]
            &&& forall|i: int|
                0 <= i < shown.len() ==> lines[front + listed.len() + i] == #[trigger] shown[i]
            &&& lines[said] == transcript_line(n.transcript@)
            &&& forall|i: int| 0 <= i < notes.len() ==> lines[said + 2 + i] == #[trigger] notes[i]
            &&& forall|i: int|
                0 <= i < clips.len() ==> lines[past + i] == #[trigger] clips[i]
        }),
{
    let head = head_lines(n);
    let duration = duration_lines(n);
    let status = status_lines(n.transcription@);
    let open: Seq<Seq<char>> = seq![Seq::empty(), "## Transcript"@, Seq::empty()];
    let listed = block(
        shot_views(n.shots@).map_values(|s: ShotView| shot_path_line(n.state.session_dir@, s)),
    );
    let shown = block(clip_views(n.clips@).map_values(|c: ClipView| clip_text_line(c)));
    let close: Seq<Seq<char>> = seq![transcript_line(n.transcript@), Seq::empty()];
    let notes = section(
        "## Screenshot Footnotes"@,
        shot_views(n.shots@).map_values(|s: ShotView| shot_footnote(s)),
    );
    let metadata = section(
        "## Screenshot Metadata"@,
        all_metadata(shot_views(n.shots@), n.shots@.len() as int),
    );
    let clips = section(
        "## Clipboard Footnotes"@,
        clip_views(n.clips@).map_values(|c: ClipView| clip_footnote(c)),
    );
    lemma_parts_in_order(
        head,
        duration,
        status,
        open,
        listed,
        shown,
        close,
        notes,
        metadata,
        clips,
        file_lines(),
    );
}

/// Where the parts of a list stand that was put together out of them.
proof fn lemma_parts_in_order<T>(
    a: Seq<T>,
    b: Seq<T>,
    c: Seq<T>,
    d: Seq<T>,
    e: Seq<T>,
    f: Seq<T>,
    g: Seq<T>,
    h: Seq<T>,
    i: Seq<T>,
    j: Seq<T>,
    k: Seq<T>,
)
    ensures
        ({
            let all = a + b + c + (d + e + f + g) + h + i + j + k;
            let front = a.len() + b.len() + c.len() + d.len();
            let said = front + e.len() + f.len();
            let past = said + g.len() + h.len() + i.len();
            &&& all.len() == past + j.len() + k.len()
            &&& forall|x: int| 0 <= x < a.len() ==> all[x] == #[trigger] a[x]
            &&& forall|x: int| 0 <= x < b.len() ==> all[a.len() + x] == #[trigger] b[x]
            &&& forall|x: int| 0 <= x < e.len() ==> all[front + x] == #[trigger] e[x]
            &&& forall|x: int| 0 <= x < f.len() ==> all[front + e.len() + x] == #[trigger] f[x]
            &&& forall|x: int| 0 <= x < g.len() ==> all[said + x] == #[trigger] g[x]
            &&& forall|x: int| 0 <= x < h.len() ==> all[said + g.len() + x] == #[trigger] h[x]
            &&& forall|x: int| 0 <= x < j.len() ==> all[past + x] == #[trigger] j[x]
        }),
{
}

/// What is known of the screenshots is told in their order: each is named, and behind its name stand
/// the application, the window and what it used, as far as they are known. Nothing is said of a
/// screenshot of which neither the application nor what it used is known.
pub proof fn metadata_is_told_in_order(shots: Seq<ShotView>, s: ShotView)
    ensures
        ({
            let more = shots.push(s);
            let before = all_metadata(shots, shots.len() as int);
            let after = all_metadata(more, more.len() as int);
            &&& before.is_prefix_of(after)
            &&& s.app_name is None && s.proc_cpu_percent is None && s.proc_mem_percent is None
                ==> after == before
            &&& s.app_name matches Some(name) ==> after.len() >= before.len() + 2
                && after[before.len() as int] == "[Screenshot "@ + decimal(s.shot_id as nat) + "]"@
                && after[before.len() + 1int] == "App: "@ + name && (s.window_title matches Some(title)
                ==> after.len() >= before.len() + 3 && after[before.len() + 2int] == "Window: "@
                + title)
        }),
{
    let more = shots.push(s);
    lemma_metadata_prefix(shots, s, shots.len() as int);
    assert(more[shots.len() as int] == s);
    let before = all_metadata(shots, shots.len() as int);
    let after = all_metadata(more, more.len() as int);
    assert(after == before + metadata_lines(s));
    assert(after.subrange(0, before.len() as int) =~= before);
    if s.app_name is Some {
        assert(metadata_lines(s)[0] == "[Screenshot "@ + decimal(s.shot_id as nat) + "]"@);
        assert(metadata_lines(s)[1] == "App: "@ + s.app_name->0);
    }
}

proof fn lemma_metadata_prefix(shots: Seq<ShotView>, s: ShotView, n: int)
    requires
        0 <= n <= shots.len(),
    ensures
        all_metadata(shots.push(s), n) == all_metadata(shots, n),
    decreases n,
{
    if n > 0 {
        lemma_metadata_prefix(shots, s, n - 1);
        assert(shots.push(s)[n - 1] == shots[n - 1]);
    }
}

/// A line that has no white space around it and no line end within is its own preview, as far as it
/// goes; dots say that it went on.
pub proof fn previews_start_as_the_text_does(text: Seq<char>, max_chars: nat)
    requires
        text.len() > 0,
        trimmed(text) == text,
        !text.contains('\n'),
        !text.contains('\r'),
    ensures
        text.len() <= max_chars ==> preview(text, max_chars) == text,
        text.len() > max_chars ==> preview(text, max_chars) == text.subrange(0, max_chars as int)
            + "..."@,
{
    lemma_plain_line(text);
}

proof fn lemma_plain_line(text: Seq<char>)
    requires
        text.len() > 0,
        trimmed(text) == text,
        !text.contains('\n'),
        !text.contains('\r'),
    ensures
        single_line(text) == text,
{
    reveal_strlit("\r\n");
    reveal_strlit("\n");
    reveal_strlit("\r");
    reveal(Seq::filter_map);
    lemma_holds_not(text, "\r\n"@);
    lemma_holds_not(text, "\r"@);
    lemma_holds_not(text, "\n"@);
    lemma_one_piece(text, "\r\n"@, "\n"@);
    lemma_one_piece(text, "\r"@, "\n"@);
    lemma_one_piece(text, "\n"@, "\n"@);
    let f = |l: Seq<char>| preview_line(l);
    let one = seq![text];
    assert(one.drop_last() =~= Seq::empty());
    assert(one.drop_last().filter_map(f) =~= Seq::empty());
    assert(one.filter_map(f) =~= one);
    assert(joined(one, " "@) == text);
}

/// A text without a character holds nothing that begins with it.
proof fn lemma_holds_not(s: Seq<char>, pat: Seq<char>)
    requires
        pat.len() > 0,
        !s.contains(pat[0]),
    ensures
        !contains(s, pat),
{
    if contains(s, pat) {
        let i = choose|i: int| #[trigger] occurs_at(s, pat, i);
        assert(s.subrange(i, i + pat.len())[0] == s[i]);
    }
}

/// A note says where its screenshots came from and how the transcription went, has the transcript under
/// its heading, and closes with the files of the session.
pub proof fn notes_tell_how_it_went(n: NoteInput)
    ensures
        ({
            let lines = note_lines(n);
            let k: int = if n.audio_duration is Some {
                9
            } else {
                8
            };
            let e = lines.len() as int;
            &&& lines[1].len() == 0
            &&& lines[4] == "- Audio: `audio.wav`"@
            &&& lines[5] == "- Screenshots moved from: `"@ + n.state.screenshot_source_dir@ + "`"@
            &&& text_field(n.transcription@, "status"@) matches Some(s) ==> lines[k]
                == "- Transcription: `"@ + s + "`"@
            &&& text_field(n.transcription@, "status"@) is None ==> lines[k] == "- Transcription: `"@
                + "unknown"@ + "`"@
            &&& text_field(n.transcription@, "method"@) matches Some(m) ==> lines[k + 1]
                == "- Transcription method: `"@ + m + "`"@ && lines[k + 3] == "## Transcript"@
            &&& text_field(n.transcription@, "method"@) is None ==> lines[k + 2] == "## Transcript"@
            &&& lines[e - 9] == "## Files"@ && lines[e - 7] == "- `audio.wav`"@
            &&& lines[e - 6] == "- `events.jsonl`"@ && lines[e - 5] == "- `ffmpeg.log`"@
            &&& lines[e - 4] == "- `transcript.txt` (if available)"@
            &&& lines[e - 3] == "- `note.html`"@ && lines[e - 2] == "- `screenshots/`"@
        }),
{
    let lines = note_lines(n);
    let h = head_lines(n);
    let d = duration_lines(n);
    let s = status_lines(n.transcription@);
    let t = transcript_lines(n);
    let k = (h.len() + d.len()) as int;
    let e = lines.len() as int;
    let front = h + d + s + t;
    let behind = section(
        "## Screenshot Footnotes"@,
        shot_views(n.shots@).map_values(|s: ShotView| shot_footnote(s)),
    ) + section(
        "## Screenshot Metadata"@,
        all_metadata(shot_views(n.shots@), n.shots@.len() as int),
    ) + section(
        "## Clipboard Footnotes"@,
        clip_views(n.clips@).map_values(|c: ClipView| clip_footnote(c)),
    );
    assert(lines =~= front + behind + file_lines());
    assert(forall|i: int| 0 <= i < front.len() ==> lines[i] == #[trigger] front[i]);
    assert(front[1] == h[1] && front[4] == h[4] && front[5] == h[5]);
    assert(front[k] == s[0]);
    assert(s.len() == 2 ==> front[k + 1] == s[1]);
    assert(t[1] == "## Transcript"@);
    assert(front[k + s.len() + 1] == t[1]);
    let f = file_lines();
    assert(f.len() == 9);
    assert(forall|i: int| 0 <= i < 9 ==> lines[e - 9 + i] == #[trigger] f[i]);
    assert(f[0] == "## Files"@ && f[2] == "- `audio.wav`"@ && f[3] == "- `events.jsonl`"@);
    assert(f[4] == "- `ffmpeg.log`"@ && f[5] == "- `transcript.txt` (if available)"@);
    assert(f[6] == "- `note.html`"@ && f[7] == "- `screenshots/`"@);
    assert(lines[e - 9] == f[0] && lines[e - 7] == f[2] && lines[e - 6] == f[3]);
    assert(lines[e - 5] == f[4] && lines[e - 4] == f[5] && lines[e - 3] == f[6] && lines[e - 2]
        == f[7]);
}

/// What a process took is told of it in percent, even where its name is not known.
pub proof fn loads_are_told_in_percent(
    shots: Seq<ShotView>,
    s: ShotView,
    cpu: NumberView,
    mem: NumberView,
)
    requires
        s.app_name is None,
        s.window_title is None,
    ensures
        ({
            let more = shots.push(s);
            let before = all_metadata(shots, shots.len() as int);
            let after = all_metadata(more, more.len() as int);
            &&& s.proc_cpu_percent == Some(cpu) && s.proc_mem_percent == Some(mem) ==> after == before
                + seq![
                "[Screenshot "@ + decimal(s.shot_id as nat) + "]"@,
                "cpu="@ + number_text_of(cpu) + "%"@,
                "mem="@ + number_text_of(mem) + "%"@,
            ]
            &&& s.proc_cpu_percent is None && s.proc_mem_percent == Some(mem) ==> after == before
                + seq![
                "[Screenshot "@ + decimal(s.shot_id as nat) + "]"@,
                "mem="@ + number_text_of(mem) + "%"@,
            ]
        }),
{
    let more = shots.push(s);
    lemma_metadata_prefix(shots, s, shots.len() as int);
    assert(more[shots.len() as int] == s);
    let id = "[Screenshot "@ + decimal(s.shot_id as nat) + "]"@;
    if s.proc_mem_percent == Some(mem) {
        let load = "mem="@ + number_text_of(mem) + "%"@;
        if s.proc_cpu_percent == Some(cpu) {
            assert(metadata_lines(s) =~= seq![id, "cpu="@ + number_text_of(cpu) + "%"@, load]);
        } else if s.proc_cpu_percent is None {
            assert(metadata_lines(s) =~= seq![id, load]);
        }
    }
}

} // verus!
