//! What other programs print about processes, applications and interpreters.

use vstd::prelude::*;

use crate::annotations::clip_of;
use crate::json::{
    count_tree, object_of, opt_view, pairs_read_back, Json, Number, NumberView, Pairs, Tree,
};
use crate::models::ClipView;
use crate::number::{
    decimal, decimal_reads_back, decimal_text, parse_bounded, parse_i32, parse_u64, parsed_signed,
    parsed_unsigned, signed_decimal, signed_numbers_read_back, unsigned_digits,
};
use crate::pattern::{
    contains, find, join, joined, lemma_find_from, lemma_one_piece, lines, lines_of, occurs_at,
    replace, replaced, split_once, split_once_of, views, words, words_of,
};
use crate::text::{
    concat3, is_digit, is_space, lemma_already_trimmed, lemma_blank_is_trimmed, lemma_trimmed_part,
    same, trim, trim_is_idempotent, trimmed, trimming_takes_the_space_around,
};
use crate::wire::quantity_of;
use crate::html::lemma_replaced_char;

verus! {

/// A field that is filled in: not blank, and no dash.
pub open spec fn optional_field(value: Seq<char>) -> Option<Seq<char>> {
    let t = trimmed(value);
    if t.len() == 0 || t == "-"@ {
        None
    } else {
        Some(t)
    }
}

/// A field that is filled in: not blank, and no dash.
pub fn parse_optional_field(value: &str) -> (r: Option<String>)
    ensures
        opt_view(r) == optional_field(value@),
{
    let t = trim(value);
    if t.as_str().is_empty() || same(t.as_str(), "-") {
        None
    } else {
        Some(t)
    }
}

// ---------------------------------------------------------------------------------------------
// Processes
// ---------------------------------------------------------------------------------------------

/// The first line of `l`, from `i` on, that is not blank, trimmed.
pub open spec fn first_filled(l: Seq<Seq<char>>, i: int) -> Option<Seq<char>>
    decreases l.len() - i,
{
    if i < 0 || i >= l.len() {
        None
    } else if trimmed(l[i]).len() > 0 {
        Some(trimmed(l[i]))
    } else {
        first_filled(l, i + 1)
    }
}

/// The first line of `text` that is not blank, trimmed.
pub fn first_filled_line(text: &str) -> (r: Option<String>)
    ensures
        opt_view(r) == first_filled(lines_of(text@), 0),
{
    let all = lines(text);
    let ghost l = lines_of(text@);
    assert(l.len() == all@.len());
    let mut i: usize = 0;
    while i < all.len()
        invariant
            i <= all.len(),
            l == views(all@),
            l == lines_of(text@),
            first_filled(l, 0) == first_filled(l, i as int),
        decreases all.len() - i,
    {
        assert(l[i as int] == all@[i as int]@);
        let t = trim(all[i].as_str());
        if !t.as_str().is_empty() {
            return Some(t);
        }
        i = i + 1;
    }
    None
}

/// The columns that `ps` prints of a process.
pub struct ProcessColumns {
    pub cpu: String,
    pub mem: String,
    pub rss: String,
    pub elapsed: Option<String>,
    pub state: Option<String>,
    pub command: Option<String>,
}

/// The columns of a process, in what `ps` printed: the first line that is not blank, which has at
/// least six.
pub fn process_columns(stdout: &str) -> (r: Result<ProcessColumns, String>)
    ensures
        match first_filled(lines_of(stdout@), 0) {
            None => r matches Err(e) && e@ == "ps_empty_output"@,
            Some(line) => {
                let cols = words_of(line);
                if cols.len() < 6 {
                    r matches Err(e) && e@ == "ps_unexpected_output"@
                } else {
                    r matches Ok(c) && {
                        &&& c.cpu@ == cols[0]
                        &&& c.mem@ == cols[1]
                        &&& c.rss@ == cols[2]
                        &&& opt_view(c.elapsed) == optional_field(cols[3])
                        &&& opt_view(c.state) == optional_field(cols[4])
                        &&& opt_view(c.command) == optional_field(
                            joined(cols.subrange(5, cols.len() as int), " "@),
                        )
                    }
                }
            },
        },
{
    let line = match first_filled_line(stdout) {
        Some(l) => l,
        None => {
            return Err("ps_empty_output".to_owned());
        },
    };
    let mut cols = words(line.as_str());
    let ghost all = words_of(line@);
    assert(views(cols@) == all && cols@.len() == all.len());
    if cols.len() < 6 {
        return Err("ps_unexpected_output".to_owned());
    }
    assert(all[0] == cols@[0]@ && all[1] == cols@[1]@ && all[2] == cols@[2]@ && all[3]
        == cols@[3]@ && all[4] == cols@[4]@);
    let rest = cols.split_off(5);
    assert(views(rest@) =~= all.subrange(5, all.len() as int));
    let elapsed = parse_optional_field(cols[3].as_str());
    let state = parse_optional_field(cols[4].as_str());
    let command = parse_optional_field(join(&rest, " ").as_str());
    Ok(
        ProcessColumns {
            cpu: cols[0].clone(),
            mem: cols[1].clone(),
            rss: cols[2].clone(),
            elapsed,
            state,
            command,
        },
    )
}

/// What is known of a process.
pub struct ProcessStats {
    pub cpu_percent: Number,
    pub mem_percent: Number,
    pub rss_kb: u64,
    pub elapsed: Option<String>,
    pub state: Option<String>,
    pub command: Option<String>,
}

/// What the columns of a process say, given the numbers in the first two, where they are numbers.
/// The first column that cannot be read decides what is said.
pub fn process_stats(
    columns: ProcessColumns,
    cpu: Option<Number>,
    mem: Option<Number>,
) -> (r: Result<ProcessStats, String>)
    ensures
        if cpu is None {
            r matches Err(e) && e@ == "ps_parse_cpu_failed"@
        } else if mem is None {
            r matches Err(e) && e@ == "ps_parse_mem_failed"@
        } else {
            match parsed_unsigned(trimmed(columns.rss@), u64::MAX as nat) {
                None => r matches Err(e) && e@ == "ps_parse_rss_failed"@,
                Some(n) => r matches Ok(s) && {
                    &&& s.cpu_percent == cpu->0
                    &&& s.mem_percent == mem->0
                    &&& s.rss_kb == n
                    &&& s.elapsed == columns.elapsed
                    &&& s.state == columns.state
                    &&& s.command == columns.command
                },
            }
        },
{
    let cpu_percent = match cpu {
        Some(n) => n,
        None => {
            return Err("ps_parse_cpu_failed".to_owned());
        },
    };
    let mem_percent = match mem {
        Some(n) => n,
        None => {
            return Err("ps_parse_mem_failed".to_owned());
        },
    };
    match parse_u64(trim(columns.rss.as_str()).as_str()) {
        None => Err("ps_parse_rss_failed".to_owned()),
        Some(rss_kb) => Ok(
            ProcessStats {
                cpu_percent,
                mem_percent,
                rss_kb,
                elapsed: columns.elapsed,
                state: columns.state,
                command: columns.command,
            },
        ),
    }
}

/// The process id that a pid file holds, where it holds one.
pub open spec fn pid_of(text: Seq<char>) -> Option<int> {
    parsed_signed(trimmed(text), i32::MIN as int, i32::MAX as int)
}

/// The process id that a pid file holds, where it holds one.
pub fn parse_pid(text: &str) -> (r: Option<i32>)
    ensures
        r matches Some(p) ==> pid_of(text@) == Some(p as int),
        r is None ==> pid_of(text@) is None,
{
    parse_i32(trim(text).as_str())
}

// ---------------------------------------------------------------------------------------------
// The application in front
// ---------------------------------------------------------------------------------------------

/// The application in front.
pub struct FrontmostAppMeta {
    pub name: String,
    pub bundle_id: Option<String>,
    pub pid: Option<i32>,
    pub window_title: Option<String>,
}

/// What stands before the first tab.
pub open spec fn before_tab(s: Seq<char>) -> Seq<char> {
    match split_once_of(s, "\t"@) {
        Some((a, _)) => a,
        None => s,
    }
}

/// What stands behind the first tab.
pub open spec fn behind_tab(s: Seq<char>) -> Seq<char> {
    match split_once_of(s, "\t"@) {
        Some((_, b)) => b,
        None => Seq::empty(),
    }
}

/// The parts of `s` before and behind its first tab.
fn cut_at_tab(s: &str) -> (r: (String, String))
    ensures
        r.0@ == before_tab(s@),
        r.1@ == behind_tab(s@),
{
    match split_once(s, "\t") {
        Some(p) => p,
        None => (s.to_owned(), String::new()),
    }
}

/// The process id in a field, where it holds one.
pub open spec fn app_pid(value: Seq<char>) -> Option<int> {
    match optional_field(value) {
        Some(t) => parsed_signed(t, i32::MIN as int, i32::MAX as int),
        None => None,
    }
}

/// What an interpreter is asked for its version.
pub const VERSION_SCRIPT: &'static str =
    "import sys; print(f'{sys.version_info.major}.{sys.version_info.minor}')";

/// What an interpreter is asked that tells whether it can transcribe.
pub const MODULES_SCRIPT: &'static str = "import torch; import nemo.collections.asr.models";

/// What asks for the application in front, in the order in which it is read.
pub const FRONTMOST_SCRIPT: &'static str = r#"
set appName to ""
set bundleID to ""
set pidValue to ""
set winTitle to ""
tell application "System Events"
  set frontApp to first application process whose frontmost is true
  set appName to name of frontApp
  try
    set bundleID to bundle identifier of frontApp
  end try
  try
    set pidValue to (unix id of frontApp) as string
  end try
  try
    set winTitle to name of front window of frontApp
  end try
end tell
return appName & tab & bundleID & tab & pidValue & tab & winTitle
"#;

/// The application in front, in the tab-separated line that names it: its name, bundle, process
/// and window.
pub fn parse_frontmost_app(stdout: &str) -> (r: Result<FrontmostAppMeta, String>)
    ensures
        ({
            let line = trimmed(stdout@);
            let r1 = behind_tab(line);
            let r2 = behind_tab(r1);
            let name = trimmed(before_tab(line));
            if line.len() == 0 {
                r matches Err(e) && e@ == "empty_osascript_output"@
            } else if name.len() == 0 {
                r matches Err(e) && e@ == "missing_frontmost_app_name"@
            } else {
                r matches Ok(m) && {
                    &&& m.name@ == name
                    &&& opt_view(m.bundle_id) == optional_field(before_tab(r1))
                    &&& match m.pid {
                        Some(p) => app_pid(before_tab(r2)) == Some(p as int),
                        None => app_pid(before_tab(r2)) is None,
                    }
                    &&& opt_view(m.window_title) == optional_field(behind_tab(r2))
                }
            }
        }),
{
    let line = trim(stdout);
    if line.as_str().is_empty() {
        return Err("empty_osascript_output".to_owned());
    }
    let (first, r1) = cut_at_tab(line.as_str());
    let name = trim(first.as_str());
    if name.as_str().is_empty() {
        return Err("missing_frontmost_app_name".to_owned());
    }
    let (second, r2) = cut_at_tab(r1.as_str());
    let (third, fourth) = cut_at_tab(r2.as_str());
    let bundle_id = parse_optional_field(second.as_str());
    let pid: Option<i32> = match parse_optional_field(third.as_str()) {
        Some(t) => parse_i32(t.as_str()),
        None => None,
    };
    let window_title = parse_optional_field(fourth.as_str());
    Ok(FrontmostAppMeta { name, bundle_id, pid, window_title })
}

// ---------------------------------------------------------------------------------------------
// Interpreters
// ---------------------------------------------------------------------------------------------

/// The major and minor version that an interpreter printed.
pub open spec fn version_of(stdout: Seq<char>) -> Option<(nat, nat)> {
    match split_once_of(trimmed(stdout), "."@) {
        Some((major, minor)) => match (
            parsed_unsigned(major, u32::MAX as nat),
            parsed_unsigned(minor, u32::MAX as nat),
        ) {
            (Some(a), Some(b)) => Some((a, b)),
            _ => None,
        },
        None => None,
    }
}

/// The major and minor version that an interpreter printed.
pub fn python_major_minor(stdout: &str) -> (r: Option<(u32, u32)>)
    ensures
        match version_of(stdout@) {
            Some((a, b)) => r is Some && (r->0).0 == a && (r->0).1 == b,
            None => r is None,
        },
{
    match split_once(trim(stdout).as_str(), ".") {
        Some((major, minor)) => match (
            parse_bounded(major.as_str(), u32::MAX as u64),
            parse_bounded(minor.as_str(), u32::MAX as u64),
        ) {
            (Some(a), Some(b)) => Some((a as u32, b as u32)),
            _ => None,
        },
        None => None,
    }
}

/// Whether an interpreter is one that the transcription script runs on: 3.10, 3.11 or 3.12.
pub open spec fn is_supported(version: Option<(u32, u32)>) -> bool {
    version matches Some((major, minor)) && major == 3 && 10 <= minor <= 12
}

/// Whether an interpreter of this version is one that the transcription script runs on.
pub fn python_supported_for_parakeet(version: Option<(u32, u32)>) -> (r: bool)
    ensures
        r == is_supported(version),
{
    match version {
        Some((major, minor)) => major == 3 && 10 <= minor && minor <= 12,
        None => false,
    }
}

/// The interpreters to try: the configured one, then the supported ones by name, each once.
pub open spec fn candidates_of(primary: Seq<char>) -> Seq<Seq<char>> {
    let c = seq![primary];
    let c = if primary == "python3.12"@ {
        c
    } else {
        c.push("python3.12"@)
    };
    let c = if primary == "python3.11"@ {
        c
    } else {
        c.push("python3.11"@)
    };
    if primary == "python3.10"@ {
        c
    } else {
        c.push("python3.10"@)
    }
}

/// The interpreters to try: the configured one, then the supported ones by name, each once.
pub fn python_candidates(primary: &str) -> (r: Vec<String>)
    ensures
        views(r@) == candidates_of(primary@),
{
    let mut c: Vec<String> = Vec::new();
    c.push(primary.to_owned());
    if !same(primary, "python3.12") {
        c.push("python3.12".to_owned());
    }
    if !same(primary, "python3.11") {
        c.push("python3.11".to_owned());
    }
    if !same(primary, "python3.10") {
        c.push("python3.10".to_owned());
    }
    assert(views(c@) =~= candidates_of(primary@));
    c
}

/// The search for an interpreter: what was considered, and which was chosen.
pub struct PythonSearch {
    pub considered: Vec<String>,
    pub chosen: Option<String>,
}

/// What is noted of an interpreter that was considered.
pub open spec fn considered_note(
    candidate: Seq<char>,
    version: Option<(u32, u32)>,
    deps_ok: bool,
) -> Seq<char> {
    candidate + "@"@ + (match version {
        Some((a, b)) => decimal(a as nat) + "."@ + decimal(b as nat),
        None => "unknown"@,
    }) + (if is_supported(version) {
        ""@
    } else {
        " (unsupported)"@
    }) + (if is_supported(version) && !deps_ok {
        " (deps-missing)"@
    } else {
        ""@
    })
}

/// The interpreter that was remembered, where it is still there and of a version that will do.
pub fn remembered_python(cached: Option<&str>, there: bool, version: Option<(u32, u32)>) -> (r:
    Option<String>)
    ensures
        opt_view(r) == match cached {
            Some(c) => if trimmed(c@).len() > 0 && there && is_supported(version) {
                Some(trimmed(c@))
            } else {
                None
            },
            None => None,
        },
{
    match cached {
        Some(c) => {
            let t = trim(c);
            if !t.as_str().is_empty() && there && python_supported_for_parakeet(version) {
                Some(t)
            } else {
                None
            }
        },
        None => None,
    }
}

impl PythonSearch {
    /// A search that has considered nothing.
    pub fn new() -> (r: PythonSearch)
        ensures
            views(r.considered@) == Seq::<Seq<char>>::empty(),
            r.chosen is None,
    {
        let considered: Vec<String> = Vec::new();
        assert(views(considered@) =~= Seq::empty());
        PythonSearch { considered, chosen: None }
    }

    /// Considers an interpreter that is there: it is noted, and chosen where it is supported and
    /// has what the script needs.
    pub fn consider(&mut self, candidate: &str, version: Option<(u32, u32)>, deps_ok: bool)
        ensures
            views(final(self).considered@) == views(old(self).considered@).push(
                considered_note(candidate@, version, deps_ok),
            ),
            opt_view(final(self).chosen) == if is_supported(version) && deps_ok {
                Some(candidate@)
            } else {
                opt_view(old(self).chosen)
            },
    {
        let supported = python_supported_for_parakeet(version);
        let mut note = candidate.to_owned();
        note.append("@");
        match version {
            Some((a, b)) => {
                let v = concat3(
                    decimal_text(a as u64).as_str(),
                    ".",
                    decimal_text(b as u64).as_str(),
                );
                note.append(v.as_str());
            },
            None => {
                note.append("unknown");
            },
        }
        note.append(
            if supported {
                ""
            } else {
                " (unsupported)"
            },
        );
        note.append(
            if supported && !deps_ok {
                " (deps-missing)"
            } else {
                ""
            },
        );
        let ghost text = note@;
        let ghost before = self.considered@;
        self.considered.push(note);
        assert(views(self.considered@) =~= views(before).push(text));
        if supported && deps_ok {
            self.chosen = Some(candidate.to_owned());
        }
    }
}

// ---------------------------------------------------------------------------------------------
// The clipboard
// ---------------------------------------------------------------------------------------------

/// A text from the clipboard with line feeds for all line ends, trimmed.
pub open spec fn clipboard_text(raw: Seq<char>) -> Seq<char> {
    trimmed(replaced(replaced(raw, "\r\n"@, "\n"@), "\r"@, "\n"@))
}

/// A text from the clipboard with line feeds for all line ends, trimmed.
pub fn normalize_clipboard_text(raw: &str) -> (r: String)
    ensures
        r@ == clipboard_text(raw@),
{
    proof {
        reveal_strlit("\r\n");
        reveal_strlit("\r");
    }
    let s = replace(raw, "\r\n", "\n");
    let s = replace(s.as_str(), "\r", "\n");
    trim(s.as_str())
}

/// What has been seen of the clipboard.
pub struct ClipboardMonitor {
    pub last_seen: String,
    pub next_id: usize,
}

impl ClipboardMonitor {
    /// A monitor that starts behind `start_id`, with what is on the clipboard already seen.
    pub fn new(current: Option<&str>, start_id: usize) -> (r: ClipboardMonitor)
        ensures
            r.last_seen@ == match current {
                Some(s) => clipboard_text(s@),
                None => Seq::empty(),
            },
            r.next_id == if start_id < usize::MAX {
                (start_id + 1) as usize
            } else {
                usize::MAX
            },
    {
        let last_seen = match current {
            Some(s) => normalize_clipboard_text(s),
            None => String::new(),
        };
        let next_id: usize = if start_id < usize::MAX {
            start_id + 1
        } else {
            usize::MAX
        };
        ClipboardMonitor { last_seen, next_id }
    }

    /// Looks at the clipboard: a text that is new and not blank is captured under the next id.
    pub fn observe(&mut self, raw: &str) -> (r: Option<(usize, String)>)
        ensures
            ({
                let t = clipboard_text(raw@);
                if t.len() > 0 && t != old(self).last_seen@ {
                    &&& r is Some && (r->0).0 == old(self).next_id && (r->0).1@ == t
                    &&& final(self).last_seen@ == t
                    &&& final(self).next_id == if old(self).next_id < usize::MAX {
                        (old(self).next_id + 1) as usize
                    } else {
                        usize::MAX
                    }
                } else {
                    r is None && *final(self) == *old(self)
                }
            }),
    {
        let current = normalize_clipboard_text(raw);
        if current.as_str().is_empty() || same(current.as_str(), self.last_seen.as_str()) {
            return None;
        }
        let id: usize = self.next_id;
        self.last_seen = current.clone();
        if self.next_id < usize::MAX {
            self.next_id = self.next_id + 1;
        }
        Some((id, current))
    }
}

/// The event of a text that was copied.
pub open spec fn copied_tree(ts: Seq<char>, id: u64, text: Seq<char>, audio_sec: NumberView) -> Tree {
    Tree::Object(
        object_of(
            seq![
                ("ts"@, Tree::Text(ts)),
                ("type"@, Tree::Text("clipboard_copied"@)),
                ("id"@, count_tree(id as nat)),
                ("text"@, Tree::Text(text)),
                ("audioSec"@, Tree::Number(audio_sec)),
            ],
        ),
    )
}

/// The event of a text that was copied. The seconds are rounded to milliseconds.
pub fn clipboard_copied_event(ts: &str, id: u64, text: &str, audio_sec: &Number) -> (r: Json)
    ensures
        r@ == copied_tree(ts@, id, text@, audio_sec@),
{
    let mut p = Pairs::new();
    p.text("ts", ts);
    p.text("type", "clipboard_copied");
    p.count("id", id);
    p.text("text", text);
    p.number("audioSec", audio_sec);
    assert(p@ == seq![
        ("ts"@, Tree::Text(ts@)),
        ("type"@, Tree::Text("clipboard_copied"@)),
        ("id"@, count_tree(id as nat)),
        ("text"@, Tree::Text(text@)),
        ("audioSec"@, Tree::Number(audio_sec@)),
    ]);
    p.object()
}

/// A text that was copied is read back from its event, with its number and its time.
pub proof fn copied_texts_read_back(
    ts: Seq<char>,
    id: u64,
    text: Seq<char>,
    audio_sec: NumberView,
)
    ensures
        clip_of(copied_tree(ts, id, text, audio_sec)) == Some(
            ClipView { clip_id: id, text, audio_sec: quantity_of(audio_sec) },
        ),
{
    let pairs = seq![
        ("ts"@, Tree::Text(ts)),
        ("type"@, Tree::Text("clipboard_copied"@)),
        ("id"@, count_tree(id as nat)),
        ("text"@, Tree::Text(text)),
        ("audioSec"@, Tree::Number(audio_sec)),
    ];
    reveal_strlit("ts");
    assert("ts"@.len() == 2);
    reveal_strlit("type");
    assert("type"@.len() == 4);
    reveal_strlit("id");
    assert("id"@.len() == 2);
    reveal_strlit("text");
    assert("text"@.len() == 4);
    reveal_strlit("audioSec");
    assert("audioSec"@.len() == 8);
    assert("type"@[1] == 'y' && "text"@[1] == 'e');
    assert("id"@[0] == 'i' && "ts"@[0] == 't');
    pairs_read_back(pairs, 1);
    pairs_read_back(pairs, 2);
    pairs_read_back(pairs, 3);
    pairs_read_back(pairs, 4);
}

// ---------------------------------------------------------------------------------------------
// What is read from what other programs print
// ---------------------------------------------------------------------------------------------

/// A field counts without the space around it, and not at all where it is blank or a dash.
pub proof fn dashes_are_empty_fields(core: Seq<char>)
    requires
        trimmed(core) == core,
    ensures
        core.len() > 0 && core != "-"@ ==> optional_field(core) == Some(core),
        core.len() == 0 ==> optional_field(core) is None,
        optional_field("-"@) is None,
{
    reveal_strlit("-");
    lemma_already_trimmed("-"@);
}

/// The first line that is not blank counts, without the space around it.
pub proof fn blank_lines_are_passed_over(l: Seq<Seq<char>>, at: int)
    requires
        0 <= at < l.len(),
        trimmed(l[at]).len() > 0,
        forall|k: int| 0 <= k < at ==> trimmed(#[trigger] l[k]).len() == 0,
    ensures
        first_filled(l, 0) == Some(trimmed(l[at])),
{
    lemma_first_filled(l, 0, at);
}

proof fn lemma_first_filled(l: Seq<Seq<char>>, i: int, at: int)
    requires
        0 <= i <= at < l.len(),
        trimmed(l[at]).len() > 0,
        forall|k: int| 0 <= k < at ==> trimmed(#[trigger] l[k]).len() == 0,
    ensures
        first_filled(l, i) == Some(trimmed(l[at])),
    decreases at - i,
{
    if i < at {
        assert(trimmed(l[i]).len() == 0);
        lemma_first_filled(l, i + 1, at);
    }
}

/// A process id that was written to a file is read back, with space around it or without.
pub proof fn pids_read_back(n: int, front: Seq<char>, back: Seq<char>)
    requires
        i32::MIN <= n <= i32::MAX,
        forall|i: int| 0 <= i < front.len() ==> is_space(#[trigger] front[i]),
        forall|i: int| 0 <= i < back.len() ==> is_space(#[trigger] back[i]),
    ensures
        pid_of(front + signed_decimal(n) + back) == Some(n),
        app_pid(signed_decimal(n)) == Some(n),
        pid_of(front) is None,
{
    reveal_strlit("-");
    let s = signed_decimal(n);
    signed_numbers_read_back(n, i32::MIN as int, i32::MAX as int);
    let m = if n < 0 {
        (-n) as nat
    } else {
        n as nat
    };
    decimal_reads_back(m);
    let d = decimal(m);
    assert(is_digit(d[0]) && is_digit(d[d.len() - 1]));
    assert(s[s.len() - 1] == d[d.len() - 1]);
    assert(n < 0 ==> s[0] == '-');
    assert(n >= 0 ==> s[0] == d[0]);
    trimming_takes_the_space_around(front, s, back);
    lemma_already_trimmed(s);
    lemma_blank_is_trimmed(front);
    assert(s.len() > 1 || s[0] != '-');
    assert(s != "-"@) by {
        if n < 0 {
            assert(s.len() >= 2);
        } else {
            assert("-"@[0] == '-');
        }
    }
}

/// A line parts at its first tab.
pub proof fn lines_part_at_the_first_tab(a: Seq<char>, rest: Seq<char>)
    requires
        !a.contains('\t'),
    ensures
        before_tab(a + seq!['\t'] + rest) == a,
        behind_tab(a + seq!['\t'] + rest) == rest,
        before_tab(a) == a,
        behind_tab(a).len() == 0,
{
    reveal_strlit("\t");
    assert("\t"@ =~= seq!['\t']);
    lemma_parts_at(a, '\t', rest);
}

proof fn lemma_parts_at(a: Seq<char>, c: char, rest: Seq<char>)
    requires
        !a.contains(c),
    ensures
        split_once_of(a + seq![c] + rest, seq![c]) == Some((a, rest)),
        split_once_of(a, seq![c]) is None,
{
    let s = a + seq![c] + rest;
    let pat = seq![c];
    lemma_find_from(s, pat, 0);
    lemma_find_from(a, pat, 0);
    let at = a.len() as int;
    assert(s.subrange(at, at + 1) =~= pat);
    assert(occurs_at(s, pat, at));
    assert forall|j: int| 0 <= j < at implies !#[trigger] occurs_at(s, pat, j) by {
        assert(s.subrange(j, j + 1)[0] == a[j]);
        assert(pat[0] == c);
        assert(a.contains(a[j]));
    }
    assert(find(s, pat) == Some(at));
    assert(s.subrange(0, at) =~= a);
    assert(s.subrange(at + 1, s.len() as int) =~= rest);
    if let Some(k) = find(a, pat) {
        assert(occurs_at(a, pat, k));
        assert(a.subrange(k, k + 1)[0] == a[k]);
        assert(a.contains(a[k]));
    }
}

/// The version of an interpreter is the two numbers that it prints with a dot between them.
pub proof fn versions_read_back(major: nat, minor: nat)
    requires
        major <= u32::MAX,
        minor <= u32::MAX,
    ensures
        version_of(decimal(major) + seq!['.'] + decimal(minor)) == Some((major, minor)),
{
    reveal_strlit(".");
    assert("."@ =~= seq!['.']);
    let a = decimal(major);
    let b = decimal(minor);
    decimal_reads_back(major);
    decimal_reads_back(minor);
    assert(!a.contains('.')) by {
        if a.contains('.') {
            let k = choose|k: int| 0 <= k < a.len() && a[k] == '.';
            assert(is_digit(a[k]));
        }
    }
    let s = a + seq!['.'] + b;
    assert(is_digit(a[0]) && is_digit(b[0]) && is_digit(b[b.len() - 1]));
    assert(s[0] == a[0] && s[s.len() - 1] == b[b.len() - 1]);
    lemma_already_trimmed(s);
    lemma_parts_at(a, '.', b);
    assert(unsigned_digits(a) == a && unsigned_digits(b) == b);
}

/// The script runs on three versions, and the interpreters that have one are tried by name behind the
/// one that is set.
pub proof fn three_versions_are_supported(major: u32, minor: u32, primary: Seq<char>)
    ensures
        is_supported(Some((major, minor))) <==> major == 3 && (minor == 10 || minor == 11 || minor
            == 12),
        !is_supported(None),
        candidates_of(primary)[0] == primary,
        candidates_of(primary).contains("python3.12"@),
        candidates_of(primary).contains("python3.11"@),
        candidates_of(primary).contains("python3.10"@),
        primary != "python3.12"@ && primary != "python3.11"@ && primary != "python3.10"@
            ==> candidates_of(primary) == seq![
            primary,
            "python3.12"@,
            "python3.11"@,
            "python3.10"@,
        ],
        candidates_of("python3.11"@).len() == 3,
{
    reveal_strlit("python3.12");
    reveal_strlit("python3.11");
    reveal_strlit("python3.10");
    assert("python3.12"@[9] == '2' && "python3.11"@[9] == '1' && "python3.10"@[9] == '0');
    let c = candidates_of(primary);
    let k12: int = if primary == "python3.12"@ {
        0
    } else {
        1
    };
    assert(c[k12] == "python3.12"@);
    let k11: int = if primary == "python3.11"@ {
        0
    } else {
        k12 + 1
    };
    assert(c[k11] == "python3.11"@);
    if primary == "python3.10"@ {
        assert(c[0] == "python3.10"@);
    } else {
        assert(c[c.len() - 1] == "python3.10"@);
    }
    if primary != "python3.12"@ && primary != "python3.11"@ && primary != "python3.10"@ {
        assert(c =~= seq![primary, "python3.12"@, "python3.11"@, "python3.10"@]);
    }
}

/// What is noted of an interpreter is its version and what keeps it from being taken.
pub proof fn considered_interpreters_are_noted(candidate: Seq<char>, a: u32, b: u32)
    ensures
        is_supported(Some((a, b))) ==> considered_note(candidate, Some((a, b)), true) == candidate
            + "@"@ + (decimal(a as nat) + "."@ + decimal(b as nat)) + ""@ + ""@,
        is_supported(Some((a, b))) ==> considered_note(candidate, Some((a, b)), false) == candidate
            + "@"@ + (decimal(a as nat) + "."@ + decimal(b as nat)) + ""@ + " (deps-missing)"@,
        !is_supported(Some((a, b))) ==> considered_note(candidate, Some((a, b)), true) == candidate
            + "@"@ + (decimal(a as nat) + "."@ + decimal(b as nat)) + " (unsupported)"@ + ""@,
        considered_note(candidate, None, true) == candidate + "@"@ + "unknown"@
            + " (unsupported)"@ + ""@,
{
}

/// A text from the clipboard holds no carriage return and has no space around it. One that holds none
/// stays as it is otherwise.
pub proof fn clipboard_texts_have_line_feeds(raw: Seq<char>)
    ensures
        !clipboard_text(raw).contains('\r'),
        trimmed(clipboard_text(raw)) == clipboard_text(raw),
        !raw.contains('\r') ==> clipboard_text(raw) == trimmed(raw),
{
    reveal_strlit("\r\n");
    reveal_strlit("\r");
    reveal_strlit("\n");
    let a = replaced(raw, "\r\n"@, "\n"@);
    let b = replaced(a, "\r"@, "\n"@);
    lemma_replaced_char(a, "\r"@, "\n"@, '\r', 0);
    trim_is_idempotent(b);
    let t = trimmed(b);
    assert(!t.contains('\r')) by {
        if t.contains('\r') {
            let k = choose|k: int| 0 <= k < t.len() && t[k] == '\r';
            lemma_trimmed_part(b);
            let j = choose|j: int|
                0 <= j && j + t.len() <= b.len() && #[trigger] b.subrange(j, j + t.len()) == t;
            assert(b.subrange(j, j + t.len())[k] == b[j + k]);
        }
    }
    if !raw.contains('\r') {
        if contains(raw, "\r\n"@) {
            let k = choose|k: int| #[trigger] occurs_at(raw, "\r\n"@, k);
            assert(raw.subrange(k, k + 2)[0] == raw[k]);
        }
        lemma_one_piece(raw, "\r\n"@, "\n"@);
        if contains(raw, "\r"@) {
            let k = choose|k: int| #[trigger] occurs_at(raw, "\r"@, k);
            assert(raw.subrange(k, k + 1)[0] == raw[k]);
        }
        lemma_one_piece(raw, "\r"@, "\n"@);
    }
}

} // verus!
