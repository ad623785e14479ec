//! What of a session is handed out: to the terminal, and to the application in front.

use vstd::prelude::*;

use crate::error::{app_error, AppError};
use crate::images::{extension_of, names_part_at_the_last_dot};
use crate::json::{count_tree, object_of, opt_view, Json, Pairs, Tree};
use crate::models::{clip_views, ClipView, ClipboardMeta};
use crate::number::{decimal, decimal_reads_back, decimal_text};
use crate::paths::{join_path, joined_path};
use crate::pattern::{
    contains, ends_with, find, find_chars, find_from, joined, lemma_find_from, lemma_find_shift,
    lines, lines_of, occurs_at, replace, replaced, starts_with, views, Lines,
};
use crate::text::{
    ascii_lower, char_is_digit, chars_of, concat, concat3, is_digit, same, string_of,
    to_ascii_lower, trim, trimmed,
};
use crate::html::{lemma_replaced_add, lemma_replaced_itself, lemma_replaced_nowhere};

verus! {

// ---------------------------------------------------------------------------------------------
// Marks in a transcript
// ---------------------------------------------------------------------------------------------

/// `s` without the digits at its end.
pub open spec fn without_number(s: Seq<char>) -> Seq<char>
    decreases s.len(),
{
    if s.len() > 0 && is_digit(s.last()) {
        without_number(s.drop_last())
    } else {
        s
    }
}

/// Whether a label is that of a screenshot or of a clipboard text.
pub open spec fn is_mark_label(label: Seq<char>) -> bool {
    let name = without_number(label);
    &&& name.len() < label.len()
    &&& name == "Clipboard "@ || name == "Screenshot "@ || " Screenshot "@.is_suffix_of(name)
}

/// Where the mark that stands at `i` ends, where one does: a label in square brackets.
pub open spec fn mark_end(s: Seq<char>, i: int) -> Option<int> {
    if 0 <= i < s.len() && s[i] == '[' {
        match find_from(s, seq![']'], i + 1) {
            Some(j) => if i < j < s.len() && is_mark_label(s.subrange(i + 1, j)) {
                Some(j + 1)
            } else {
                None
            },
            None => None,
        }
    } else {
        None
    }
}

/// `s` from `i` on without marks, each with one space in front of it.
pub open spec fn unmarked_from(s: Seq<char>, i: int) -> Seq<char>
    decreases s.len() - i,
{
    if i < 0 || i >= s.len() {
        Seq::empty()
    } else {
        match mark_end(s, i) {
            Some(j) => unmarked_from(s, j),
            None => match mark_end(s, i + 1) {
                Some(j) if s[i] == ' ' => unmarked_from(s, j),
                _ => seq![s[i]] + unmarked_from(s, i + 1),
            },
        }
    }
}

/// A transcript without the marks of screenshots and clipboard texts.
pub open spec fn unmarked(s: Seq<char>) -> Seq<char> {
    trimmed(unmarked_from(s, 0))
}

/// `s` without the digits at its end.
fn strip_number(s: &str) -> (r: String)
    ensures
        r@ == without_number(s@),
        r@.len() <= s@.len(),
{
    let v = chars_of(s);
    let ghost all = v@;
    let mut n: usize = v.len();
    assert(all.subrange(0, n as int) =~= all);
    while n > 0 && char_is_digit(v[n - 1])
        invariant
            n <= v.len(),
            all == v@,
            without_number(all) == without_number(all.subrange(0, n as int)),
        decreases n,
    {
        assert(all.subrange(0, n as int).last() == all[n - 1]);
        assert(all.subrange(0, n as int).drop_last() =~= all.subrange(0, n - 1));
        n = n - 1;
    }
    proof {
        if n > 0 {
            assert(all.subrange(0, n as int).last() == all[n - 1]);
        }
        assert(without_number(all) == all.subrange(0, n as int));
    }
    string_of(&v, 0, n)
}

/// Whether a label is that of a screenshot or of a clipboard text.
fn is_label(label: &str) -> (r: bool)
    ensures
        r == is_mark_label(label@),
{
    let name = strip_number(label);
    name.as_str().unicode_len() < label.unicode_len() && (same(name.as_str(), "Clipboard ") || same(
        name.as_str(),
        "Screenshot ",
    ) || ends_with(name.as_str(), " Screenshot "))
}

/// Where the mark that stands at `i` ends, where one does.
fn find_mark(v: &Vec<char>, i: usize) -> (r: Option<usize>)
    ensures
        match r {
            Some(j) => mark_end(v@, i as int) == Some(j as int) && i < j <= v@.len(),
            None => mark_end(v@, i as int) is None,
        },
{
    if i >= v.len() || v[i] != '[' {
        return None;
    }
    let close: Vec<char> = vec![']'];
    assert(close@ =~= seq![']']);
    match find_chars(v, &close, i + 1) {
        Some(j) => {
            proof {
                lemma_find_from(v@, close@, i + 1);
            }
            if is_label(string_of(v, i + 1, j).as_str()) {
                Some(j + 1)
            } else {
                None
            }
        },
        None => None,
    }
}

/// A transcript without the marks of screenshots and clipboard texts.
pub fn without_marks(transcript: &str) -> (r: String)
    ensures
        r@ == unmarked(transcript@),
{
    let v = chars_of(transcript);
    let ghost all = v@;
    let mut out = String::new();
    let mut i: usize = 0;
    assert(unmarked_from(all, 0) =~= out@ + unmarked_from(all, 0));
    while i < v.len()
        invariant
            i <= v.len(),
            all == v@,
            unmarked_from(all, 0) == out@ + unmarked_from(all, i as int),
        decreases v.len() - i,
    {
        match find_mark(&v, i) {
            Some(j) => {
                i = j;
            },
            None => {
                let next: Option<usize> = if v[i] == ' ' {
                    find_mark(&v, i + 1)
                } else {
                    None
                };
                match next {
                    Some(j) => {
                        i = j;
                    },
                    None => {
                        let ghost before = out@;
                        out.push(v[i]);
                        assert(before + (seq![all[i as int]] + unmarked_from(all, i + 1))
                            =~= out@ + unmarked_from(all, i + 1));
                        i = i + 1;
                    },
                }
            },
        }
    }
    assert(out@ + unmarked_from(all, i as int) =~= out@);
    trim(out.as_str())
}

/// A text without a bracket has no mark, and only space around it is taken away.
pub proof fn text_without_brackets_is_kept(s: Seq<char>)
    requires
        !s.contains('['),
    ensures
        unmarked(s) == trimmed(s),
{
    lemma_kept(s, 0);
    assert(s.subrange(0, s.len() as int) =~= s);
}

proof fn lemma_kept(s: Seq<char>, i: int)
    requires
        !s.contains('['),
        0 <= i <= s.len(),
    ensures
        unmarked_from(s, i) == s.subrange(i, s.len() as int),
    decreases s.len() - i,
{
    if i < s.len() {
        assert(s.contains(s[i]));
        if i + 1 < s.len() {
            assert(s.contains(s[i + 1]));
        }
        lemma_kept(s, i + 1);
        assert(seq![s[i]] + s.subrange(i + 1, s.len() as int) =~= s.subrange(i, s.len() as int));
    }
}

// ---------------------------------------------------------------------------------------------
// Images as text
// ---------------------------------------------------------------------------------------------

/// The characters of base 64.
pub const BASE64: &'static str = "ABCDEFGHIJKLMNOPQRSTUVWXYZabcdefghijklmnopqrstuvwxyz0123456789+/";

/// The byte at `i`, and zero behind the end.
pub open spec fn byte_at(b: Seq<u8>, i: int) -> nat {
    if 0 <= i < b.len() {
        b[i] as nat
    } else {
        0
    }
}

/// The three bytes from `i` on as one number.
pub open spec fn triple(b: Seq<u8>, i: int) -> nat {
    byte_at(b, i) * 65536 + byte_at(b, i + 1) * 256 + byte_at(b, i + 2)
}

/// The four characters of three bytes. What has no byte is a `=`.
pub open spec fn quartet(b: Seq<u8>, i: int) -> Seq<char> {
    let n = triple(b, i);
    seq![
        BASE64@[(n / 262144) as int],
        BASE64@[(n / 4096 % 64) as int],
        if i + 1 < b.len() {
            BASE64@[(n / 64 % 64) as int]
        } else {
            '='
        },
        if i + 2 < b.len() {
            BASE64@[(n % 64) as int]
        } else {
            '='
        },
    ]
}

/// Bytes from `i` on in base 64.
pub open spec fn base64_from(b: Seq<u8>, i: int) -> Seq<char>
    decreases b.len() + 3 - i,
{
    if i < 0 || i >= b.len() {
        Seq::empty()
    } else {
        quartet(b, i) + base64_from(b, i + 3)
    }
}

/// Bytes in base 64.
pub fn base64_text(b: &Vec<u8>) -> (r: String)
    ensures
        r@ == base64_from(b@, 0),
{
    proof {
        reveal_strlit("ABCDEFGHIJKLMNOPQRSTUVWXYZabcdefghijklmnopqrstuvwxyz0123456789+/");
    }
    let mut out = String::new();
    let mut i: usize = 0;
    assert(base64_from(b@, 0) =~= out@ + base64_from(b@, 0));
    let count: usize = b.len();
    while i < count
        invariant
            count == b.len(),
            BASE64@.len() == 64,
            base64_from(b@, 0) == out@ + base64_from(b@, i as int),
        decreases count - i,
    {
        let left: usize = count - i;
        let b0: u32 = b[i] as u32;
        let b1: u32 = if left > 1 {
            b[i + 1] as u32
        } else {
            0
        };
        let b2: u32 = if left > 2 {
            b[i + 2] as u32
        } else {
            0
        };
        let n: u32 = b0 * 65536 + b1 * 256 + b2;
        assert(n == triple(b@, i as int));
        let ghost before = out@;
        out.push(BASE64.get_char((n / 262144) as usize));
        out.push(BASE64.get_char((n / 4096 % 64) as usize));
        out.push(
            if left > 1 {
                BASE64.get_char((n / 64 % 64) as usize)
            } else {
                '='
            },
        );
        out.push(
            if left > 2 {
                BASE64.get_char((n % 64) as usize)
            } else {
                '='
            },
        );
        proof {
            assert(out@ =~= before + quartet(b@, i as int));
            assert(before + (quartet(b@, i as int) + base64_from(b@, i + 3)) =~= out@
                + base64_from(b@, i + 3));
            if left <= 3 {
                assert(base64_from(b@, i + 3) =~= Seq::empty());
                assert(base64_from(b@, count as int) =~= Seq::empty());
            }
        }
        i = if left > 3 {
            i + 3
        } else {
            count
        };
    }
    assert(out@ + base64_from(b@, i as int) =~= out@);
    out
}

/// The media type of an image, by the extension of its name.
pub open spec fn media_type_of(ext: Seq<char>) -> Seq<char> {
    if ext == "jpg"@ || ext == "jpeg"@ {
        "image/jpeg"@
    } else if ext == "tif"@ || ext == "tiff"@ {
        "image/tiff"@
    } else {
        "image/"@ + ext
    }
}

/// The media type of an image, by its name.
pub open spec fn media_type(name: Seq<char>) -> Seq<char> {
    match crate::images::extension(name) {
        Some(e) => media_type_of(ascii_lower(e)),
        None => "application/octet-stream"@,
    }
}

/// The media type of an image, by its name.
pub fn image_media_type(name: &str) -> (r: String)
    ensures
        r@ == media_type(name@),
{
    match extension_of(name) {
        None => "application/octet-stream".to_owned(),
        Some(e) => {
            let ext = to_ascii_lower(e.as_str());
            if same(ext.as_str(), "jpg") || same(ext.as_str(), "jpeg") {
                "image/jpeg".to_owned()
            } else if same(ext.as_str(), "tif") || same(ext.as_str(), "tiff") {
                "image/tiff".to_owned()
            } else {
                concat("image/", ext.as_str())
            }
        },
    }
}

// ---------------------------------------------------------------------------------------------
// To the terminal
// ---------------------------------------------------------------------------------------------

/// A file with what it holds.
pub struct ImageFile {
    pub name: String,
    pub bytes: Vec<u8>,
}

/// What is printed of a clipboard text.
pub open spec fn clip_block(c: ClipView) -> Seq<char> {
    "Clipboard "@ + decimal(c.clip_id as nat) + ":\n"@ + c.text
}

/// What is printed of the image at `i`.
pub open spec fn image_block(f: ImageFile, i: int) -> Seq<char> {
    "----- Screenshot "@ + decimal((i + 1) as nat) + " — "@ + f.name@ + " ("@ + media_type(f.name@)
        + ", base64) -----\n"@ + base64_from(f.bytes@, 0)
}

/// The first `n` images, as they are printed.
pub open spec fn image_blocks(files: Seq<ImageFile>, n: int) -> Seq<Seq<char>>
    decreases n,
{
    if n <= 0 {
        Seq::empty()
    } else {
        image_blocks(files, n - 1).push(image_block(files[n - 1], n - 1))
    }
}

/// What is printed of the clipboard texts.
pub open spec fn clip_blocks(clips: Seq<ClipView>) -> Seq<Seq<char>> {
    if clips.len() == 0 {
        Seq::empty()
    } else {
        seq!["----- Clipboard captures -----"@] + clips.map_values(|c: ClipView| clip_block(c))
    }
}

/// What is printed of a session: its transcript without marks, the clipboard texts, and the
/// images in base 64.
pub fn copy_text(transcript: &str, clips: &Vec<ClipboardMeta>, images: &Vec<ImageFile>) -> (r:
    String)
    ensures
        r@ == joined(
            seq![unmarked(transcript@)] + clip_blocks(clip_views(clips@)) + image_blocks(
                images@,
                images@.len() as int,
            ),
            "\n\n"@,
        ),
{
    let mut out = Lines::new();
    out.add(without_marks(transcript).as_str());
    let ghost head = seq![unmarked(transcript@)];
    assert(out@ =~= head);
    let ghost cv = clip_views(clips@);
    let ghost f = |c: ClipView| clip_block(c);
    if clips.len() > 0 {
        out.add("----- Clipboard captures -----");
        let ghost start = head.push("----- Clipboard captures -----"@);
        assert(out@ =~= start + cv.subrange(0, 0).map_values(f));
        let mut i: usize = 0;
        while i < clips.len()
            invariant
                i <= clips.len(),
                cv == clip_views(clips@),
                f == (|c: ClipView| clip_block(c)),
                out@ == start + cv.subrange(0, i as int).map_values(f),
            decreases clips.len() - i,
        {
            assert(cv[i as int] == clips@[i as int]@);
            let mut line = concat3(
                "Clipboard ",
                decimal_text(clips[i].clip_id).as_str(),
                ":\n",
            );
            line.append(clips[i].text.as_str());
            out.add(line.as_str());
            proof {
                assert(line@ == f(cv[i as int]));
                assert(cv.subrange(0, i + 1).map_values(f) =~= cv.subrange(0, i as int).map_values(
                    f,
                ).push(f(cv[i as int])));
                assert(out@ =~= start + cv.subrange(0, i + 1).map_values(f));
            }
            i = i + 1;
        }
        assert(cv.subrange(0, cv.len() as int) =~= cv);
        assert(out@ =~= head + clip_blocks(cv));
    } else {
        assert(out@ =~= head + clip_blocks(cv));
    }
    let ghost text = out@;
    assert(out@ =~= text + image_blocks(images@, 0));
    let mut k: usize = 0;
    while k < images.len()
        invariant
            k <= images.len(),
            out@ == text + image_blocks(images@, k as int),
        decreases images.len() - k,
    {
        let file = &images[k];
        let mut line = concat3("----- Screenshot ", decimal_text(k as u64 + 1).as_str(), " — ");
        line.append(file.name.as_str());
        line.append(" (");
        line.append(image_media_type(file.name.as_str()).as_str());
        line.append(", base64) -----\n");
        line.append(base64_text(&file.bytes).as_str());
        out.add(line.as_str());
        assert(out@ =~= text + image_blocks(images@, k + 1));
        k = k + 1;
    }
    out.join("\n\n")
}

/// A text in double quotes.
pub open spec fn quoted(s: Seq<char>) -> Seq<char> {
    "\""@ + replaced(replaced(s, "\\"@, "\\\\"@), "\""@, "\\\""@) + "\""@
}

/// A text in double quotes, and null where there is none.
pub open spec fn quoted_or_null(s: Option<Seq<char>>) -> Seq<char> {
    match s {
        Some(t) => quoted(t),
        None => "null"@,
    }
}

/// A text in double quotes.
pub fn quote(s: &str) -> (r: String)
    ensures
        r@ == quoted(s@),
{
    proof {
        reveal_strlit("\\");
        reveal_strlit("\"");
    }
    let inner = replace(replace(s, "\\", "\\\\").as_str(), "\"", "\\\"");
    concat3("\"", inner.as_str(), "\"")
}

/// A text in double quotes, and null where there is none.
fn quote_or_null(s: &Option<String>) -> (r: String)
    ensures
        r@ == quoted_or_null(opt_view(*s)),
{
    match s {
        Some(t) => quote(t.as_str()),
        None => "null".to_owned(),
    }
}

/// The files of a session that hold text.
pub struct SessionTexts<'a> {
    pub note: Option<&'a str>,
    pub transcript: Option<&'a str>,
    pub events: Option<&'a str>,
    pub recorder_log: Option<&'a str>,
}

/// All that is known of a session.
pub struct SessionDump<'a> {
    pub session_id: &'a str,
    pub session_dir: &'a str,
    pub started_at: Option<String>,
    pub ended_at: Option<String>,
    pub duration_sec: Option<String>,
    pub event_count: usize,
    pub clip_count: usize,
    pub transcript: &'a str,
    pub texts: SessionTexts<'a>,
    pub images: &'a Vec<String>,
}

/// The entry of a file in the inventory.
pub open spec fn inventory_line(entry: Seq<char>, dir: Seq<char>, name: Seq<char>) -> Seq<char> {
    "  "@ + entry + ": "@ + quoted(joined_path(dir, name))
}

/// The entry of an image in the inventory.
pub open spec fn image_line(dir: Seq<char>, name: Seq<char>) -> Seq<char> {
    "  - "@ + quoted(joined_path(joined_path(dir, "screenshots"@), name))
}

/// What is said of a session before its texts.
pub open spec fn front_matter(d: SessionDump) -> Seq<Seq<char>> {
    let images = views(d.images@);
    let dir = d.session_dir@;
    seq![
        "---"@,
        "session_id: "@ + quoted(d.session_id@),
        "session_dir: "@ + quoted(dir),
        "started_at: "@ + quoted_or_null(opt_view(d.started_at)),
        "ended_at: "@ + quoted_or_null(opt_view(d.ended_at)),
        "duration_sec: "@ + match d.duration_sec {
            Some(s) => s@,
            None => "null"@,
        },
        "event_count: "@ + decimal(d.event_count as nat),
        "clipboard_count: "@ + decimal(d.clip_count as nat),
        "screenshot_count: "@ + decimal(images.len()),
        "files:"@,
        inventory_line("note_md"@, dir, "note.md"@),
        inventory_line("transcript_txt"@, dir, "transcript.txt"@),
        inventory_line("events_jsonl"@, dir, "events.jsonl"@),
        inventory_line("ffmpeg_log"@, dir, "ffmpeg.log"@),
        inventory_line("audio_wav"@, dir, "audio.wav"@),
    ] + (if images.len() == 0 {
        seq!["screenshot_files: []"@]
    } else {
        seq!["screenshot_files:"@] + images.map_values(|n: Seq<char>| image_line(dir, n))
    }) + seq!["---"@]
}

/// A text file as it stands in the dump.
pub open spec fn raw_block(heading: Seq<char>, text: Option<&str>) -> Seq<Seq<char>> {
    match text {
        Some(t) => seq![""@, heading, ""@, t@],
        None => Seq::empty(),
    }
}

/// The lines of the dump of a session.
pub open spec fn dump_lines(d: SessionDump) -> Seq<Seq<char>> {
    front_matter(d) + seq![""@, "## Transcript"@, ""@, d.transcript@] + raw_block(
        "## Note Markdown (note.md)"@,
        d.texts.note,
    ) + raw_block("## Transcript Text (transcript.txt)"@, d.texts.transcript) + raw_block(
        "## Events JSONL (events.jsonl)"@,
        d.texts.events,
    ) + raw_block("## Recorder Log (ffmpeg.log)"@, d.texts.recorder_log)
}

/// Adds a text file to the dump.
fn add_raw(out: &mut Lines, heading: &str, text: Option<&str>)
    ensures
        final(out)@ == old(out)@ + raw_block(heading@, text),
{
    if let Some(t) = text {
        out.add("");
        out.add(heading);
        out.add("");
        out.add(t);
    }
    assert(out@ =~= old(out)@ + raw_block(heading@, text));
}

/// Adds the entry of a file to the inventory.
fn add_file(out: &mut Lines, entry: &str, dir: &str, name: &str)
    ensures
        final(out)@ == old(out)@.push(inventory_line(entry@, dir@, name@)),
{
    let mut line = concat3("  ", entry, ": ");
    line.append(quote(join_path(dir, name).as_str()).as_str());
    out.add(line.as_str());
}

/// Adds what is said of a session before its texts.
fn add_front_matter(out: &mut Lines, d: &SessionDump)
    requires
        old(out)@.len() == 0,
    ensures
        final(out)@ == front_matter(*d),
{
    let ghost images = views(d.images@);
    let ghost dir = d.session_dir@;
    out.add("---");
    out.add(concat("session_id: ", quote(d.session_id).as_str()).as_str());
    out.add(concat("session_dir: ", quote(d.session_dir).as_str()).as_str());
    out.add(concat("started_at: ", quote_or_null(&d.started_at).as_str()).as_str());
    out.add(concat("ended_at: ", quote_or_null(&d.ended_at).as_str()).as_str());
    let duration: &str = match &d.duration_sec {
        Some(s) => s.as_str(),
        None => "null",
    };
    out.add(concat("duration_sec: ", duration).as_str());
    out.add(concat("event_count: ", decimal_text(d.event_count as u64).as_str()).as_str());
    out.add(concat("clipboard_count: ", decimal_text(d.clip_count as u64).as_str()).as_str());
    out.add(concat("screenshot_count: ", decimal_text(d.images.len() as u64).as_str()).as_str());
    out.add("files:");
    add_file(out, "note_md", d.session_dir, "note.md");
    add_file(out, "transcript_txt", d.session_dir, "transcript.txt");
    add_file(out, "events_jsonl", d.session_dir, "events.jsonl");
    add_file(out, "ffmpeg_log", d.session_dir, "ffmpeg.log");
    add_file(out, "audio_wav", d.session_dir, "audio.wav");
    let ghost head = out@;
    if d.images.len() == 0 {
        out.add("screenshot_files: []");
    } else {
        out.add("screenshot_files:");
        let ghost f = |n: Seq<char>| image_line(dir, n);
        let ghost start = head.push("screenshot_files:"@);
        let shots = join_path(d.session_dir, "screenshots");
        let mut i: usize = 0;
        assert(out@ =~= start + images.subrange(0, 0).map_values(f));
        while i < d.images.len()
            invariant
                i <= d.images.len(),
                images == views(d.images@),
                dir == d.session_dir@,
                shots@ == joined_path(dir, "screenshots"@),
                f == (|n: Seq<char>| image_line(dir, n)),
                out@ == start + images.subrange(0, i as int).map_values(f),
            decreases d.images.len() - i,
        {
            assert(images[i as int] == d.images@[i as int]@);
            let line = concat(
                "  - ",
                quote(join_path(shots.as_str(), d.images[i].as_str()).as_str()).as_str(),
            );
            out.add(line.as_str());
            proof {
                assert(line@ == f(images[i as int]));
                assert(images.subrange(0, i + 1).map_values(f) =~= images.subrange(
                    0,
                    i as int,
                ).map_values(f).push(f(images[i as int])));
                assert(out@ =~= start + images.subrange(0, i + 1).map_values(f));
            }
            i = i + 1;
        }
        assert(images.subrange(0, images.len() as int) =~= images);
    }
    out.add("---");
    assert(out@ =~= front_matter(*d));
}

/// All that is known of a session, for the terminal: what is said of it, its transcript, and the
/// texts of its files.
pub fn session_dump(d: &SessionDump) -> (r: String)
    ensures
        r@ == joined(dump_lines(*d), "\n"@),
{
    let mut out = Lines::new();
    add_front_matter(&mut out, d);
    let ghost front = out@;
    out.add("");
    out.add("## Transcript");
    out.add("");
    out.add(d.transcript);
    assert(out@ =~= front + seq![""@, "## Transcript"@, ""@, d.transcript@]);
    add_raw(&mut out, "## Note Markdown (note.md)", d.texts.note);
    add_raw(&mut out, "## Transcript Text (transcript.txt)", d.texts.transcript);
    add_raw(&mut out, "## Events JSONL (events.jsonl)", d.texts.events);
    add_raw(&mut out, "## Recorder Log (ffmpeg.log)", d.texts.recorder_log);
    out.join("\n")
}

/// The error where a session has no note.
pub fn no_note_error(session_dir: &str) -> (r: AppError)
    ensures
        r.code == 8,
        r.message@ == "No note.md found for session: "@ + session_dir@,
{
    app_error(8, concat("No note.md found for session: ", session_dir).as_str())
}

// ---------------------------------------------------------------------------------------------
// To the application in front
// ---------------------------------------------------------------------------------------------

/// Whether a transcript can be sent, given which tools are there.
pub fn check_send_tools(has_pbcopy: bool, has_osascript: bool) -> (r: Result<(), AppError>)
    ensures
        r is Ok <==> has_pbcopy && has_osascript,
        r matches Err(e) ==> e.code == 7 && e.message@ == if !has_pbcopy {
            "pbcopy is unavailable; cannot send transcript"@
        } else {
            "osascript is unavailable; cannot send transcript"@
        },
{
    if !has_pbcopy {
        return Err(app_error(7, "pbcopy is unavailable; cannot send transcript"));
    }
    if !has_osascript {
        return Err(app_error(7, "osascript is unavailable; cannot send transcript"));
    }
    Ok(())
}

/// What is reported of a transcript that was sent, or would be.
pub fn send_report(session_id: &str, rank: usize, transcript: &str, dry_run: bool) -> (r: Json)
    ensures
        r@ == Tree::Object(
            object_of(
                seq![
                    ("ok"@, Tree::Bool(true)),
                    ("action"@, Tree::Text("send"@)),
                    ("session_id"@, Tree::Text(session_id@)),
                    ("rank"@, count_tree(rank as nat)),
                    ("chars"@, count_tree(transcript@.len())),
                    ("dry_run"@, Tree::Bool(dry_run)),
                ],
            ),
        ),
{
    let mut p = Pairs::new();
    p.flag("ok", true);
    p.text("action", "send");
    p.text("session_id", session_id);
    p.count("rank", rank as u64);
    p.count("chars", transcript.unicode_len() as u64);
    p.flag("dry_run", dry_run);
    assert(p@ == seq![
        ("ok"@, Tree::Bool(true)),
        ("action"@, Tree::Text("send"@)),
        ("session_id"@, Tree::Text(session_id@)),
        ("rank"@, count_tree(rank as nat)),
        ("chars"@, count_tree(transcript@.len())),
        ("dry_run"@, Tree::Bool(dry_run)),
    ]);
    p.object()
}

/// What is said of a transcript that was sent, or would be.
pub fn send_line(session_id: &str, transcript: &str, dry_run: bool) -> (r: String)
    ensures
        r@ == if dry_run {
            "[dry-run] Would send transcript from session "@ + session_id@ + " ("@ + decimal(
                transcript@.len(),
            ) + " chars)"@
        } else {
            "Sent transcript from session "@ + session_id@ + " to focused app."@
        },
{
    if dry_run {
        let mut out = concat3("[dry-run] Would send transcript from session ", session_id, " (");
        out.append(decimal_text(transcript.unicode_len() as u64).as_str());
        out.append(" chars)");
        out
    } else {
        concat3("Sent transcript from session ", session_id, " to focused app.")
    }
}

/// What the event stream is told where a session was handed out.
pub fn delivered_event(mode: &str, rank: usize, chars: usize, chunks: usize, images: usize) -> (r:
    Json)
    ensures
        r@ == Tree::Object(
            object_of(
                seq![
                    ("mode"@, Tree::Text(mode@)),
                    ("rank"@, count_tree(rank as nat)),
                    ("chars"@, count_tree(chars as nat)),
                    ("chunks"@, count_tree(chunks as nat)),
                    ("images"@, count_tree(images as nat)),
                ],
            ),
        ),
{
    let mut p = Pairs::new();
    p.text("mode", mode);
    p.count("rank", rank as u64);
    p.count("chars", chars as u64);
    p.count("chunks", chunks as u64);
    p.count("images", images as u64);
    assert(p@ == seq![
        ("mode"@, Tree::Text(mode@)),
        ("rank"@, count_tree(rank as nat)),
        ("chars"@, count_tree(chars as nat)),
        ("chunks"@, count_tree(chunks as nat)),
        ("images"@, count_tree(images as nat)),
    ]);
    p.object()
}

/// A piece of a transcript that is sent with its images.
pub enum Piece {
    Text(String),
    Image(String),
}

/// The model of a piece.
#[verifier::ext_equal]
pub enum PieceView {
    Text(Seq<char>),
    Image(Seq<char>),
}

impl View for Piece {
    type V = PieceView;

    open spec fn view(&self) -> PieceView {
        match self {
            Piece::Text(s) => PieceView::Text(s@),
            Piece::Image(s) => PieceView::Image(s@),
        }
    }
}

/// The models of pieces.
pub open spec fn piece_views(v: Seq<Piece>) -> Seq<PieceView> {
    v.map_values(|p: Piece| p@)
}

/// The image that a line of a transcript refers to: what stands behind the label of a screenshot.
pub open spec fn referenced_image(line: Seq<char>) -> Option<Seq<char>> {
    match find(line, ": "@) {
        Some(i) => {
            let label = line.subrange(0, i);
            let path = trimmed(line.subrange(i + ": "@.len(), line.len() as int));
            let name = without_number(label);
            if name.len() < label.len() && (name == "Screenshot "@ || " Screenshot "@.is_suffix_of(
                name,
            )) && path.len() > 0 {
                Some(path)
            } else {
                None
            }
        },
        None => None,
    }
}

/// What is sent of a line: the image that it refers to, or its address where it lies elsewhere
/// (`http`), and another line as it is.
pub open spec fn piece_of(line: Seq<char>) -> PieceView {
    match referenced_image(line) {
        Some(path) => if "http"@.is_prefix_of(path) {
            PieceView::Text(path)
        } else {
            PieceView::Image(path)
        },
        None => PieceView::Text(line),
    }
}

/// The pieces of the first `n` lines.
pub open spec fn pieces_of(lines: Seq<Seq<char>>, n: int) -> Seq<PieceView>
    decreases n,
{
    if n <= 0 {
        Seq::empty()
    } else {
        pieces_of(lines, n - 1).push(piece_of(lines[n - 1]))
    }
}

/// The image that a line of a transcript refers to.
fn image_reference(line: &str) -> (r: Option<String>)
    ensures
        opt_view(r) == referenced_image(line@),
{
    let v = chars_of(line);
    let sep = chars_of(": ");
    match find_chars(&v, &sep, 0) {
        None => None,
        Some(i) => {
            let count: usize = v.len();
            let label = string_of(&v, 0, i);
            let path = trim(string_of(&v, i + sep.len(), count).as_str());
            let name = strip_number(label.as_str());
            let numbered = name.as_str().unicode_len() < label.as_str().unicode_len();
            if numbered && (same(name.as_str(), "Screenshot ") || ends_with(
                name.as_str(),
                " Screenshot ",
            )) && !path.as_str().is_empty() {
                Some(path)
            } else {
                None
            }
        },
    }
}

/// The pieces in which a transcript is sent with its images, line by line.
pub fn send_pieces(transcript: &str) -> (r: Vec<Piece>)
    ensures
        piece_views(r@) == pieces_of(lines_of(transcript@), lines_of(transcript@).len() as int),
{
    let all = lines(transcript);
    let ghost av = views(all@);
    let mut out: Vec<Piece> = Vec::new();
    let mut i: usize = 0;
    assert(piece_views(out@) =~= Seq::empty());
    while i < all.len()
        invariant
            i <= all.len(),
            av == views(all@),
            piece_views(out@) == pieces_of(av, i as int),
        decreases all.len() - i,
    {
        assert(av[i as int] == all@[i as int]@);
        let ghost before = out@;
        let piece = match image_reference(all[i].as_str()) {
            Some(path) => if starts_with(path.as_str(), "http") {
                Piece::Text(path)
            } else {
                Piece::Image(path)
            },
            None => Piece::Text(all[i].clone()),
        };
        let ghost pv = piece@;
        out.push(piece);
        assert(piece_views(out@) =~= piece_views(before).push(pv));
        i = i + 1;
    }
    out
}

/// Whether an image has to be turned into a PNG before it can be pasted.
pub fn needs_conversion(path: &str) -> (r: bool)
    ensures
        r == !(media_type(path@) == "image/png"@ || media_type(path@) == "image/jpeg"@ || media_type(
            path@,
        ) == "image/tiff"@ || media_type(path@) == "image/gif"@),
{
    let kind = image_media_type(path);
    !(same(kind.as_str(), "image/png") || same(kind.as_str(), "image/jpeg") || same(
        kind.as_str(),
        "image/tiff",
    ) || same(kind.as_str(), "image/gif"))
}

// ---------------------------------------------------------------------------------------------
// What is handed out
// ---------------------------------------------------------------------------------------------

/// The place of a character among the sixty-four.
pub open spec fn place_of(c: char) -> int {
    if 'A' <= c <= 'Z' {
        c as int - 'A' as int
    } else if 'a' <= c <= 'z' {
        c as int - 'a' as int + 26
    } else if '0' <= c <= '9' {
        c as int - '0' as int + 52
    } else if c == '+' {
        62
    } else {
        63
    }
}

proof fn lemma_places(v: int)
    requires
        0 <= v < 64,
    ensures
        place_of(BASE64@[v]) == v,
        BASE64@[v] != '=',
{
    reveal_strlit("ABCDEFGHIJKLMNOPQRSTUVWXYZabcdefghijklmnopqrstuvwxyz0123456789+/");
    if v < 16 {
    } else if v < 32 {
    } else if v < 48 {
    } else {
    }
}

/// Bytes in base 64 read back: every four characters write three bytes, six bits each, the highest
/// first. What has no byte at the end is a `=`.
pub proof fn base64_reads_back(b: Seq<u8>, i: int)
    requires
        0 <= i < b.len(),
        i % 3 == 0,
    ensures
        ({
            let s = base64_from(b, 0);
            let at = i / 3 * 4;
            let x = b[i] as int;
            let y = if i + 1 < b.len() {
                b[i + 1] as int
            } else {
                0
            };
            let z = if i + 2 < b.len() {
                b[i + 2] as int
            } else {
                0
            };
            let third = if i + 1 < b.len() {
                place_of(s[at + 2])
            } else {
                0
            };
            let fourth = if i + 2 < b.len() {
                place_of(s[at + 3])
            } else {
                0
            };
            &&& s.len() == (b.len() + 2) / 3 * 4
            &&& place_of(s[at]) * 262144 + place_of(s[at + 1]) * 4096 + third * 64 + fourth == x
                * 65536 + y * 256 + z
            &&& s[at + 2] == '=' <==> i + 1 == b.len()
            &&& s[at + 3] == '=' <==> i + 2 >= b.len()
        }),
{
    lemma_quartets(b, 0, i);
    let n = triple(b, i);
    lemma_sixes(byte_at(b, i), byte_at(b, i + 1), byte_at(b, i + 2));
    lemma_places((n / 262144) as int);
    lemma_places((n / 4096 % 64) as int);
    lemma_places((n / 64 % 64) as int);
    lemma_places((n % 64) as int);
    let q = quartet(b, i);
    let s = base64_from(b, 0);
    assert(s[i / 3 * 4] == q[0]);
    assert(s[i / 3 * 4 + 1] == q[1]);
    assert(s[i / 3 * 4 + 2] == q[2]);
    assert(s[i / 3 * 4 + 3] == q[3]);
}

/// Three bytes as four numbers of six bits.
proof fn lemma_sixes(x: nat, y: nat, z: nat)
    requires
        x < 256,
        y < 256,
        z < 256,
    ensures
        ({
            let n = x * 65536 + y * 256 + z;
            &&& n / 262144 < 64
            &&& n / 262144 * 262144 + n / 4096 % 64 * 4096 + n / 64 % 64 * 64 + n % 64 == n
            &&& z == 0 ==> n % 64 == 0
            &&& y == 0 && z == 0 ==> n / 64 % 64 == 0
        }),
{
    let n = x * 65536 + y * 256 + z;
    assert(n / 64 == (n - n % 64) / 64);
    assert(n == n / 64 * 64 + n % 64);
    let m = n / 64;
    assert(m == m / 64 * 64 + m % 64);
    assert(m / 64 == n / 4096);
    let k = n / 4096;
    assert(k == k / 64 * 64 + k % 64);
    assert(k / 64 == n / 262144);
}

/// Where the characters of three bytes stand.
proof fn lemma_quartets(b: Seq<u8>, from: int, i: int)
    requires
        0 <= from <= i < b.len(),
        from % 3 == 0,
        i % 3 == 0,
    ensures
        base64_from(b, from).len() == (b.len() - from + 2) / 3 * 4,
        forall|k: int|
            0 <= k < 4 ==> base64_from(b, from)[(i - from) / 3 * 4 + k] == #[trigger] quartet(b, i)[k],
    decreases b.len() - from,
{
    if from + 3 < b.len() {
        if from < i {
            lemma_quartets(b, from + 3, i);
        } else {
            lemma_quartets(b, from + 3, from + 3);
        }
    } else {
        assert(base64_from(b, from + 3) =~= Seq::empty());
    }
}

/// A label that ends in a number is without it what it was before.
proof fn lemma_without_number(name: Seq<char>, n: nat)
    requires
        name.len() > 0,
        !is_digit(name.last()),
    ensures
        without_number(name + decimal(n)) == name,
        decimal(n).len() > 0,
    decreases n,
{
    let s = name + decimal(n);
    reveal_with_fuel(without_number, 2);
    decimal_reads_back(n);
    assert(is_digit(decimal(n)[decimal(n).len() - 1]));
    if n < 10 {
        assert(s.drop_last() =~= name);
    } else {
        lemma_without_number(name, n / 10);
        assert(s.drop_last() =~= name + decimal(n / 10));
    }
}

/// The mark of a screenshot or of a clipboard text is taken out of a transcript together with the
/// space in front of it, and what stands around it stays.
pub proof fn marks_are_taken_out(front: Seq<char>, app: Seq<char>, n: nat, back: Seq<char>)
    requires
        !front.contains('['),
        !app.contains(']'),
    ensures
        unmarked_from(front + seq![' ', '['] + ("Screenshot "@ + decimal(n)) + seq![']'] + back, 0)
            == front + unmarked_from(back, 0),
        unmarked_from(front + seq![' ', '['] + ("Clipboard "@ + decimal(n)) + seq![']'] + back, 0)
            == front + unmarked_from(back, 0),
        unmarked_from(
            front + seq![' ', '['] + (app + " Screenshot "@ + decimal(n)) + seq![']'] + back,
            0,
        ) == front + unmarked_from(back, 0),
{
    reveal_strlit("Screenshot ");
    reveal_strlit("Clipboard ");
    reveal_strlit(" Screenshot ");
    decimal_reads_back(n);
    lemma_without_number("Screenshot "@, n);
    lemma_without_number("Clipboard "@, n);
    let named = app + " Screenshot "@;
    lemma_without_number(named, n);
    assert(named.subrange(named.len() - 12, named.len() as int) =~= " Screenshot "@);
    lemma_mark_out(front, "Screenshot "@ + decimal(n), back);
    lemma_mark_out(front, "Clipboard "@ + decimal(n), back);
    assert(named + decimal(n) == app + " Screenshot "@ + decimal(n));
    lemma_mark_out(front, named + decimal(n), back);
}

proof fn lemma_mark_out(front: Seq<char>, label: Seq<char>, back: Seq<char>)
    requires
        !front.contains('['),
        forall|k: int| 0 <= k < label.len() ==> #[trigger] label[k] != ']',
        is_mark_label(label),
    ensures
        unmarked_from(front + seq![' ', '['] + label + seq![']'] + back, 0) == front + unmarked_from(
            back,
            0,
        ),
{
    let open = front + seq![' ', '['];
    let s = open + label + seq![']'] + back;
    let close = (open.len() + label.len()) as int;
    let head = open + label + seq![']'];
    lemma_bracket_found(s, open.len() as int, close);
    assert(s.subrange(open.len() as int, close) =~= label);
    assert(s[open.len() - 1] == '[');
    assert(mark_end(s, open.len() - 1) == Some(close + 1));
    lemma_unmarked_shift(head, back, 0);
    lemma_unmarked_front(s, front, close + 1, 0);
    assert(front.subrange(0, front.len() as int) =~= front);
}

proof fn lemma_bracket_found(s: Seq<char>, from: int, at: int)
    requires
        0 <= from <= at < s.len(),
        s[at] == ']',
        forall|k: int| from <= k < at ==> s[k] != ']',
    ensures
        find_from(s, seq![']'], from) == Some(at),
    decreases at - from,
{
    let p = seq![']'];
    assert(s.subrange(from, from + 1) =~= seq![s[from]]);
    if from < at {
        assert(s[from] != ']');
        assert(seq![s[from]][0] != p[0]);
        lemma_bracket_found(s, from + 1, at);
    }
}

proof fn lemma_unmarked_front(s: Seq<char>, front: Seq<char>, end: int, i: int)
    requires
        0 <= i <= front.len(),
        front.len() + 1 < s.len(),
        forall|k: int| 0 <= k < front.len() ==> s[k] == front[k],
        !front.contains('['),
        s[front.len() as int] == ' ',
        mark_end(s, front.len() + 1int) == Some(end),
        front.len() < end <= s.len(),
    ensures
        unmarked_from(s, i) == front.subrange(i, front.len() as int) + unmarked_from(s, end),
    decreases front.len() - i,
{
    if i < front.len() {
        assert(front[i] != '[');
        if i + 1 < front.len() {
            assert(front[i + 1] != '[');
        }
        lemma_unmarked_front(s, front, end, i + 1);
        assert(seq![s[i]] + front.subrange(i + 1, front.len() as int) =~= front.subrange(
            i,
            front.len() as int,
        ));
        assert(unmarked_from(s, i) =~= front.subrange(i, front.len() as int) + unmarked_from(s, end));
    } else {
        assert(mark_end(s, i) is None);
        assert(front.subrange(i, i) + unmarked_from(s, end) =~= unmarked_from(s, end));
    }
}

proof fn lemma_mark_end_shift(a: Seq<char>, b: Seq<char>, i: int)
    requires
        0 <= i,
    ensures
        mark_end(a + b, a.len() + i) == match mark_end(b, i) {
            Some(j) => Some(a.len() + j),
            None => None,
        },
{
    let s = a + b;
    if i < b.len() && b[i] == '[' {
        lemma_find_shift(a, seq![']'], b, i + 1);
        match find_from(b, seq![']'], i + 1) {
            Some(j) => {
                if i < j < b.len() {
                    assert(s.subrange(a.len() + i + 1, a.len() + j) =~= b.subrange(i + 1, j));
                }
            },
            None => {},
        }
    }
}

proof fn lemma_unmarked_shift(a: Seq<char>, b: Seq<char>, i: int)
    requires
        0 <= i,
    ensures
        unmarked_from(a + b, a.len() + i) == unmarked_from(b, i),
    decreases b.len() - i,
{
    if i < b.len() {
        lemma_mark_end_shift(a, b, i);
        lemma_mark_end_shift(a, b, i + 1);
        match mark_end(b, i) {
            Some(j) => {
                lemma_unmarked_shift(a, b, j);
            },
            None => match mark_end(b, i + 1) {
                Some(j) if b[i] == ' ' => {
                    lemma_unmarked_shift(a, b, j);
                },
                _ => {
                    lemma_unmarked_shift(a, b, i + 1);
                },
            },
        }
    }
}

/// A line that says where a screenshot is kept is sent as that image, or as its address where it lies
/// elsewhere.
pub proof fn path_lines_are_sent_as_images(n: nat, path: Seq<char>)
    requires
        path.len() > 0,
        trimmed(path) == path,
    ensures
        !"http"@.is_prefix_of(path) ==> piece_of("Screenshot "@ + decimal(n) + ": "@ + path)
            == PieceView::Image(path),
        "http"@.is_prefix_of(path) ==> piece_of("Screenshot "@ + decimal(n) + ": "@ + path)
            == PieceView::Text(path),
{
    reveal_strlit("Screenshot ");
    reveal_strlit(": ");
    let label = "Screenshot "@ + decimal(n);
    let line = label + ": "@ + path;
    decimal_reads_back(n);
    lemma_without_number("Screenshot "@, n);
    lemma_find_from(line, ": "@, 0);
    let at = label.len() as int;
    assert(line.subrange(at, at + 2) =~= ": "@);
    assert(occurs_at(line, ": "@, at));
    assert forall|j: int| 0 <= j < at implies !#[trigger] occurs_at(line, ": "@, j) by {
        if occurs_at(line, ": "@, j) {
            assert(line.subrange(j, j + 2)[0] == line[j]);
            assert(line[j] == label[j]);
            if j >= "Screenshot "@.len() {
                assert(is_digit(decimal(n)[j - "Screenshot "@.len()]));
            }
        }
    }
    assert(find(line, ": "@) == Some(at));
    assert(line.subrange(0, at) =~= label);
    assert(line.subrange(at + 2, line.len() as int) =~= path);
}

/// A line without a colon and a space is sent as it is.
pub proof fn other_lines_are_sent_as_they_are(line: Seq<char>)
    requires
        !contains(line, ": "@),
    ensures
        piece_of(line) == PieceView::Text(line),
{
    lemma_find_from(line, ": "@, 0);
}

/// A transcript is sent line by line, and what is printed of a session holds every image and every
/// clipboard text, in their order.
pub proof fn everything_is_handed_out(
    lines: Seq<Seq<char>>,
    files: Seq<ImageFile>,
    clips: Seq<ClipView>,
    n: int,
    i: int,
)
    ensures
        0 <= i < n <= lines.len() ==> pieces_of(lines, n).len() == n && pieces_of(lines, n)[i]
            == piece_of(lines[i]),
        0 <= i < n <= files.len() ==> image_blocks(files, n).len() == n && image_blocks(files, n)[i]
            == "----- Screenshot "@ + decimal((i + 1) as nat) + " — "@ + files[i].name@ + " ("@
            + media_type(files[i].name@) + ", base64) -----\n"@ + base64_from(files[i].bytes@, 0),
        0 <= i < clips.len() ==> clip_blocks(clips).len() == clips.len() + 1 && clip_blocks(clips)[i
            + 1] == "Clipboard "@ + decimal(clips[i].clip_id as nat) + ":\n"@ + clips[i].text,
        clips.len() == 0 ==> clip_blocks(clips).len() == 0,
{
    lemma_pieces_of(lines, n, i);
    lemma_image_blocks(files, n, i);
}

proof fn lemma_pieces_of(lines: Seq<Seq<char>>, n: int, i: int)
    ensures
        0 <= n <= lines.len() ==> pieces_of(lines, n).len() == n,
        0 <= i < n <= lines.len() ==> pieces_of(lines, n)[i] == piece_of(lines[i]),
    decreases n,
{
    if n > 0 {
        lemma_pieces_of(lines, n - 1, i);
    }
}

proof fn lemma_image_blocks(files: Seq<ImageFile>, n: int, i: int)
    ensures
        0 <= n <= files.len() ==> image_blocks(files, n).len() == n,
        0 <= i < n <= files.len() ==> image_blocks(files, n)[i] == image_block(files[i], i),
    decreases n,
{
    if n > 0 {
        lemma_image_blocks(files, n - 1, i);
    }
}

/// The media type of an image goes by its extension, however that is written; both names of the two
/// formats that have two give one type.
pub proof fn media_types_go_by_extension(front: Seq<char>, ext: Seq<char>)
    requires
        front.len() > 0,
        !ext.contains('.'),
    ensures
        ({
            let e = ascii_lower(ext);
            let t = media_type(front + seq!['.'] + ext);
            &&& e == "jpg"@ || e == "jpeg"@ ==> t == "image/jpeg"@
            &&& e == "tif"@ || e == "tiff"@ ==> t == "image/tiff"@
            &&& e != "jpg"@ && e != "jpeg"@ && e != "tif"@ && e != "tiff"@ ==> t == "image/"@ + e
        }),
        media_type(ext) == "application/octet-stream"@,
{
    reveal_strlit("jpg");
    reveal_strlit("jpeg");
    reveal_strlit("tif");
    reveal_strlit("tiff");
    names_part_at_the_last_dot(front, ext);
    assert("jpg"@[0] != "tif"@[0] && "jpeg"@[0] != "tif"@[0] && "jpg"@[0] != "tiff"@[0]);
    assert("jpeg"@[0] != "tiff"@[0]);
}

/// Quoting goes character by character: a quotation mark and a backslash get a backslash in front of
/// them, and every other character stands for itself.
pub proof fn quoting_is_by_character(a: Seq<char>, c: char)
    ensures
        quoted(Seq::empty()) == "\""@ + "\""@,
        c != '"' && c != '\\' ==> quoted(a.push(c)) == quoted(a).drop_last() + seq![c, '"'],
        quoted(a.push('"')) == quoted(a).drop_last() + seq!['\\', '"', '"'],
        quoted(a.push('\\')) == quoted(a).drop_last() + seq!['\\', '\\', '"'],
{
    reveal_strlit("\"");
    reveal_strlit("\\");
    reveal_strlit("\\\\");
    reveal_strlit("\\\"");
    let none = Seq::<char>::empty();
    lemma_replaced_nowhere(none, "\\"@, "\\\\"@);
    lemma_replaced_nowhere(none, "\""@, "\\\""@);
    assert("\""@ + none + "\""@ =~= "\""@ + "\""@);
    lemma_quoted_push(a, c);
    lemma_quoted_push(a, '"');
    lemma_quoted_push(a, '\\');
}

proof fn lemma_quoted_push(a: Seq<char>, c: char)
    ensures
        quoted(a.push(c)) == quoted(a).drop_last() + (if c == '"' || c == '\\' {
            seq!['\\', c, '"']
        } else {
            seq![c, '"']
        }),
{
    reveal_strlit("\"");
    reveal_strlit("\\");
    reveal_strlit("\\\\");
    reveal_strlit("\\\"");
    let one = seq![c];
    assert(a.push(c) =~= a + one);
    lemma_replaced_add(a, one, "\\"@, "\\\\"@, 0);
    let b = replaced(a, "\\"@, "\\\\"@);
    let d = replaced(one, "\\"@, "\\\\"@);
    lemma_replaced_add(b, d, "\""@, "\\\""@, 0);
    let e = replaced(d, "\""@, "\\\""@);
    if c == '\\' {
        assert(one =~= "\\"@);
        lemma_replaced_itself("\\"@, "\\\\"@);
        lemma_replaced_nowhere("\\\\"@, "\""@, "\\\""@);
        assert(e =~= seq!['\\', c]);
    } else if c == '"' {
        lemma_replaced_nowhere(one, "\\"@, "\\\\"@);
        assert(one =~= "\""@);
        lemma_replaced_itself("\""@, "\\\""@);
        assert(e =~= seq!['\\', c]);
    } else {
        lemma_replaced_nowhere(one, "\\"@, "\\\\"@);
        lemma_replaced_nowhere(one, "\""@, "\\\""@);
        assert(e =~= seq![c]);
    }
    let q = quoted(a);
    assert(q.drop_last() =~= "\""@ + replaced(b, "\""@, "\\\""@));
    assert(quoted(a.push(c)) =~= q.drop_last() + e + "\""@);
    assert(e + "\""@ =~= (if c == '"' || c == '\\' {
        seq!['\\', c, '"']
    } else {
        seq![c, '"']
    }));
    assert(q.drop_last() + e + "\""@ =~= q.drop_last() + (e + "\""@));
}

/// What is said of a session before its texts: which it is, when it was, how much it holds, and
/// where every image lies. The transcript comes right behind it.
pub proof fn dumps_tell_of_the_session(d: SessionDump, i: int)
    ensures
        ({
            let lines = dump_lines(d);
            let n = d.images@.len();
            &&& lines[1] == "session_id: "@ + quoted(d.session_id@)
            &&& lines[2] == "session_dir: "@ + quoted(d.session_dir@)
            &&& d.started_at matches Some(t) ==> lines[3] == "started_at: "@ + quoted(t@)
            &&& d.ended_at matches Some(t) ==> lines[4] == "ended_at: "@ + quoted(t@)
            &&& lines[6] == "event_count: "@ + decimal(d.event_count as nat)
            &&& lines[7] == "clipboard_count: "@ + decimal(d.clip_count as nat)
            &&& lines[8] == "screenshot_count: "@ + decimal(n)
            &&& 0 <= i < n ==> lines[16 + i] == "  - "@ + quoted(
                joined_path(joined_path(d.session_dir@, "screenshots"@), d.images@[i]@),
            )
            &&& lines[16int + n] == "---"@
            &&& lines[16int + n + 4] == d.transcript@
        }),
{
    let head = front_matter(d);
    let n = d.images@.len() as int;
    let images = views(d.images@);
    let listed = images.map_values(|x: Seq<char>| image_line(d.session_dir@, x));
    assert(head.len() == 17 + n);
    if 0 <= i < n {
        assert(images[i] == d.images@[i]@);
        assert(listed[i] == image_line(d.session_dir@, images[i]));
        assert(head[16 + i] == listed[i]);
    }
    assert(head[16 + n] == "---"@);
    assert(head[1] == "session_id: "@ + quoted(d.session_id@));
    assert(head[2] == "session_dir: "@ + quoted(d.session_dir@));
    assert(head[3] == "started_at: "@ + quoted_or_null(opt_view(d.started_at)));
    assert(head[4] == "ended_at: "@ + quoted_or_null(opt_view(d.ended_at)));
    assert(head[6] == "event_count: "@ + decimal(d.event_count as nat));
    assert(head[7] == "clipboard_count: "@ + decimal(d.clip_count as nat));
    assert(head[8] == "screenshot_count: "@ + decimal(d.images@.len()));
    let lines = dump_lines(d);
    let body = seq![""@, "## Transcript"@, ""@, d.transcript@];
    assert(lines.subrange(0, 17 + n) =~= head);
    assert(forall|k: int| 0 <= k < 17 + n ==> lines[k] == #[trigger] head[k]);
    assert(lines[17 + n + 3] == body[3]);
}

/// A dump also lists the five files of a session, says what is not known of it, and has its texts behind
/// the transcript, each under its heading and as it is; a text that is not there is left out.
pub proof fn dumps_hold_the_texts(d: SessionDump)
    ensures
        ({
            let lines = dump_lines(d);
            let dir = d.session_dir@;
            let n = d.images@.len() as int;
            &&& lines[0] == "---"@
            &&& d.started_at is None ==> lines[3] == "started_at: "@ + "null"@
            &&& d.ended_at is None ==> lines[4] == "ended_at: "@ + "null"@
            &&& d.duration_sec matches Some(s) ==> lines[5] == "duration_sec: "@ + s@
            &&& d.duration_sec is None ==> lines[5] == "duration_sec: "@ + "null"@
            &&& lines[9] == "files:"@
            &&& lines[10] == "  "@ + "note_md"@ + ": "@ + quoted(joined_path(dir, "note.md"@))
            &&& lines[11] == "  "@ + "transcript_txt"@ + ": "@ + quoted(
                joined_path(dir, "transcript.txt"@),
            )
            &&& lines[12] == "  "@ + "events_jsonl"@ + ": "@ + quoted(
                joined_path(dir, "events.jsonl"@),
            )
            &&& lines[13] == "  "@ + "ffmpeg_log"@ + ": "@ + quoted(joined_path(dir, "ffmpeg.log"@))
            &&& lines[14] == "  "@ + "audio_wav"@ + ": "@ + quoted(joined_path(dir, "audio.wav"@))
            &&& n == 0 ==> lines[15] == "screenshot_files: []"@
            &&& n > 0 ==> lines[15] == "screenshot_files:"@
            &&& lines[17 + n] == ""@ && lines[18 + n] == "## Transcript"@ && lines[19 + n] == ""@
            &&& d.texts.note is None && d.texts.transcript is None && d.texts.events is None
                && d.texts.recorder_log is None ==> lines.len() == 21 + n
            &&& d.texts.note matches Some(t) ==> lines[21 + n] == ""@ && lines[22 + n]
                == "## Note Markdown (note.md)"@ && lines[23 + n] == ""@ && lines[24 + n] == t@
            &&& d.texts.note is Some ==> (d.texts.transcript matches Some(t) ==> lines[26 + n]
                == "## Transcript Text (transcript.txt)"@ && lines[28 + n] == t@)
            &&& d.texts.note is Some && d.texts.transcript is Some ==> (d.texts.events matches Some(t)
                ==> lines[30 + n] == "## Events JSONL (events.jsonl)"@ && lines[32 + n] == t@)
            &&& d.texts.recorder_log matches Some(t) ==> lines.last() == t@ && lines[lines.len() - 3]
                == "## Recorder Log (ffmpeg.log)"@
        }),
{
    let head = front_matter(d);
    let n = d.images@.len() as int;
    let dir = d.session_dir@;
    let lines = dump_lines(d);
    assert(head.len() == 17 + n);
    assert(forall|k: int| 0 <= k < 17 + n ==> lines[k] == #[trigger] head[k]);
    assert(head[0] == "---"@);
    assert(head[3] == "started_at: "@ + quoted_or_null(opt_view(d.started_at)));
    assert(head[4] == "ended_at: "@ + quoted_or_null(opt_view(d.ended_at)));
    assert(head[9] == "files:"@);
    assert(head[10] == inventory_line("note_md"@, dir, "note.md"@));
    assert(head[11] == inventory_line("transcript_txt"@, dir, "transcript.txt"@));
    assert(head[12] == inventory_line("events_jsonl"@, dir, "events.jsonl"@));
    assert(head[13] == inventory_line("ffmpeg_log"@, dir, "ffmpeg.log"@));
    assert(head[14] == inventory_line("audio_wav"@, dir, "audio.wav"@));
    let body = seq![""@, "## Transcript"@, ""@, d.transcript@];
    assert(lines[17 + n] == body[0] && lines[18 + n] == body[1] && lines[19 + n] == body[2]);
    let a = raw_block("## Note Markdown (note.md)"@, d.texts.note);
    let b = raw_block("## Transcript Text (transcript.txt)"@, d.texts.transcript);
    let c = raw_block("## Events JSONL (events.jsonl)"@, d.texts.events);
    let e = raw_block("## Recorder Log (ffmpeg.log)"@, d.texts.recorder_log);
    assert(lines == head + body + a + b + c + e);
    if d.texts.note is Some {
        assert(lines[21 + n] == a[0] && lines[22 + n] == a[1] && lines[23 + n] == a[2] && lines[24
            + n] == a[3]);
        if d.texts.transcript is Some {
            assert(lines[26 + n] == b[1] && lines[28 + n] == b[3]);
            if d.texts.events is Some {
                assert(lines[30 + n] == c[1] && lines[32 + n] == c[3]);
            }
        }
    }
    if d.texts.recorder_log is Some {
        assert(lines.last() == e[3] && lines[lines.len() - 3] == e[1]);
    }
}

/// What is handed out of a transcript has no mark, and none of the white space around.
pub proof fn handed_out_texts_have_no_marks(front: Seq<char>, app: Seq<char>, n: nat)
    requires
        !front.contains('['),
        !app.contains(']'),
    ensures
        unmarked(front + seq![' ', '['] + ("Screenshot "@ + decimal(n)) + seq![']'] + Seq::empty())
            == trimmed(front),
        unmarked(front + seq![' ', '['] + ("Clipboard "@ + decimal(n)) + seq![']'] + Seq::empty())
            == trimmed(front),
        unmarked(
            front + seq![' ', '['] + (app + " Screenshot "@ + decimal(n)) + seq![']']
                + Seq::empty(),
        ) == trimmed(front),
{
    marks_are_taken_out(front, app, n, Seq::empty());
    assert(unmarked_from(Seq::empty(), 0) =~= Seq::empty());
    assert(front + Seq::<char>::empty() =~= front);
}

/// The clipboard texts that are handed out stand under a heading.
pub proof fn clipboard_texts_have_a_heading(clips: Seq<ClipView>)
    requires
        clips.len() > 0,
    ensures
        clip_blocks(clips)[0] == "----- Clipboard captures -----"@,
{
}

/// A line that names a screenshot without its number is sent as it is.
pub proof fn unnumbered_lines_are_sent_as_they_are(path: Seq<char>)
    ensures
        piece_of("Screenshot "@ + ": "@ + path) == PieceView::Text("Screenshot "@ + ": "@ + path),
{
    reveal_strlit("Screenshot ");
    reveal_strlit(": ");
    let label = "Screenshot "@;
    let line = label + ": "@ + path;
    lemma_find_from(line, ": "@, 0);
    let at = label.len() as int;
    assert(line.subrange(at, at + 2) =~= ": "@);
    assert(occurs_at(line, ": "@, at));
    assert forall|j: int| 0 <= j < at implies !#[trigger] occurs_at(line, ": "@, j) by {
        if occurs_at(line, ": "@, j) {
            assert(line.subrange(j, j + 2)[0] == label[j]);
        }
    }
    assert(find(line, ": "@) == Some(at));
    assert(line.subrange(0, at) =~= label);
    assert(label.last() == ' ');
    assert(without_number(label) == label);
}

} // verus!
