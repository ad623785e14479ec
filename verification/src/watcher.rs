//! What runs beside a recording: the transcription watcher, the clipboard watcher, and the watchdog
//! that stops a session that was forgotten.

use vstd::prelude::*;

use crate::cli::{text_list_json, text_list_tree};
use crate::config::{bool_env_enabled, is_off, transcription_worker_enabled};
use crate::engine::set_text;
use crate::json::{
    count_tree, field, field_views, int_json, int_tree, lemma_tree, lookup, object_of,
    opt_text_tree, opt_view, pairs_read_back, put_is_found, str_view, text_field, with_field,
    Fields, Json, Number, Pairs, Tree,
};
use crate::measure::Measure;
use crate::models::SessionState;
use crate::number::{decimal, decimal_text};
use crate::paths::{join_path, joined_path};
use crate::pattern::{contains, contains_text, lines, lines_of, views};
use crate::template::{command_line, join_escaped};
use crate::text::{is_blank, same, trim, trimmed};
use crate::wire::{read_json, text_read};

verus! {

// ---------------------------------------------------------------------------------------------
// The transcription watcher
// ---------------------------------------------------------------------------------------------

/// Why the transcription watcher is not wanted, where it is not: it is switched off, or another
/// command transcribes.
pub open spec fn watcher_refusal(live: Option<Seq<char>>, custom: Option<Seq<char>>) -> Option<
    Seq<char>,
> {
    if !(live matches Some(v) && !is_off(v)) {
        Some("disabled_by_env"@)
    } else if set_text(custom) is Some {
        Some("custom_transcribe_cmd_enabled"@)
    } else {
        None
    }
}

/// Why the transcription watcher is not wanted, where it is not.
pub fn watcher_gate(live: Option<&str>, custom: Option<&str>) -> (r: Option<&'static str>)
    ensures
        str_view(r) == watcher_refusal(str_view(live), str_view(custom)),
{
    if !transcription_worker_enabled(live) {
        return Some("disabled_by_env");
    }
    match custom {
        Some(c) => if is_blank(c) {
            None
        } else {
            Some("custom_transcribe_cmd_enabled")
        },
        None => None,
    }
}

/// The scripts that may watch: the one that comes with the program, then the one that is set.
pub open spec fn watch_scripts(local: Option<Seq<char>>, resolved: Option<Seq<char>>) -> Seq<
    Seq<char>,
> {
    (match local {
        Some(l) => seq![l],
        None => Seq::empty(),
    }) + (match resolved {
        Some(p) => if local == Some(p) {
            Seq::empty()
        } else {
            seq![p]
        },
        None => Seq::empty(),
    })
}

/// The scripts that may watch, in the order in which they are tried.
pub fn watch_script_candidates(local: &Option<String>, resolved: &Option<String>) -> (r: Vec<String>)
    ensures
        views(r@) == watch_scripts(opt_view(*local), opt_view(*resolved)),
{
    let mut out: Vec<String> = Vec::new();
    if let Some(l) = local {
        out.push(l.clone());
    }
    if let Some(p) = resolved {
        let known = match local {
            Some(l) => same(l.as_str(), p.as_str()),
            None => false,
        };
        if !known {
            out.push(p.clone());
        }
    }
    assert(views(out@) =~= watch_scripts(opt_view(*local), opt_view(*resolved)));
    out
}

/// The first of the scripts from `i` on that can watch. Of a script that is there the text is known.
pub open spec fn first_watching(
    scripts: Seq<Seq<char>>,
    texts: Seq<Option<String>>,
    i: int,
) -> Option<Seq<char>>
    decreases scripts.len() - i,
{
    if i < 0 || i >= scripts.len() || i >= texts.len() {
        None
    } else if texts[i] matches Some(t) && contains(t@, "--watch-audio"@) {
        Some(scripts[i])
    } else {
        first_watching(scripts, texts, i + 1)
    }
}

/// The first of the scripts that can watch.
pub fn choose_watch_script(scripts: &Vec<String>, texts: &Vec<Option<String>>) -> (r: Option<String>)
    ensures
        opt_view(r) == first_watching(views(scripts@), texts@, 0),
{
    let ghost sv = views(scripts@);
    let mut i: usize = 0;
    while i < scripts.len() && i < texts.len()
        invariant
            i <= scripts.len(),
            i <= texts.len(),
            sv == views(scripts@),
            first_watching(sv, texts@, 0) == first_watching(sv, texts@, i as int),
        decreases scripts.len() - i,
    {
        assert(sv[i as int] == scripts@[i as int]@);
        if let Some(t) = &texts[i] {
            if contains_text(t.as_str(), "--watch-audio") {
                return Some(scripts[i].clone());
            }
        }
        i = i + 1;
    }
    None
}

/// How the recording is cut. The seconds and decibels are in decimal, with three decimals.
pub struct WatchSettings<'a> {
    pub started_at_epoch: &'a str,
    pub model: &'a str,
    pub min_chunk_sec: &'a str,
    pub max_chunk_sec: &'a str,
    pub silence_sec: &'a str,
    pub silence_db: &'a str,
    pub poll_ms: u64,
}

/// The arguments of the transcription watcher.
pub open spec fn watcher_arguments(script: Seq<char>, state: SessionState, w: WatchSettings) -> Seq<
    Seq<char>,
> {
    seq![
        script,
        "--watch-audio"@,
        "--audio"@,
        state.audio_path@,
        "--out-txt"@,
        joined_path(state.session_dir@, "transcript.txt"@),
        "--events-path"@,
        state.events_path@,
        "--session-id"@,
        state.session_id@,
        "--started-at-epoch"@,
        w.started_at_epoch@,
        "--model"@,
        w.model@,
        "--min-chunk-sec"@,
        w.min_chunk_sec@,
        "--max-chunk-sec"@,
        w.max_chunk_sec@,
        "--silence-sec"@,
        w.silence_sec@,
        "--silence-db"@,
        w.silence_db@,
        "--poll-ms"@,
        decimal(w.poll_ms as nat),
        "--quiet"@,
    ]
}

/// The arguments of the transcription watcher.
pub fn watcher_args(script: &str, state: &SessionState, w: &WatchSettings) -> (r: Vec<String>)
    ensures
        views(r@) == watcher_arguments(script@, *state, *w),
{
    let r: Vec<String> = vec![
        script.to_owned(),
        "--watch-audio".to_owned(),
        "--audio".to_owned(),
        state.audio_path.clone(),
        "--out-txt".to_owned(),
        join_path(state.session_dir.as_str(), "transcript.txt"),
        "--events-path".to_owned(),
        state.events_path.clone(),
        "--session-id".to_owned(),
        state.session_id.clone(),
        "--started-at-epoch".to_owned(),
        w.started_at_epoch.to_owned(),
        "--model".to_owned(),
        w.model.to_owned(),
        "--min-chunk-sec".to_owned(),
        w.min_chunk_sec.to_owned(),
        "--max-chunk-sec".to_owned(),
        w.max_chunk_sec.to_owned(),
        "--silence-sec".to_owned(),
        w.silence_sec.to_owned(),
        "--silence-db".to_owned(),
        w.silence_db.to_owned(),
        "--poll-ms".to_owned(),
        decimal_text(w.poll_ms),
        "--quiet".to_owned(),
    ];
    assert(views(r@) =~= watcher_arguments(script@, *state, *w));
    r
}

/// A command with its arguments in one line, as it is recorded.
pub fn command_preview(program: &str, args: &Vec<String>) -> (r: String)
    ensures
        r@ == command_line(seq![program@] + views(args@)),
{
    let mut all: Vec<String> = vec![program.to_owned()];
    let ghost av = views(args@);
    let mut i: usize = 0;
    assert(views(all@) =~= seq![program@] + av.subrange(0, 0));
    while i < args.len()
        invariant
            i <= args.len(),
            av == views(args@),
            views(all@) == seq![program@] + av.subrange(0, i as int),
        decreases args.len() - i,
    {
        let ghost before = all@;
        all.push(args[i].clone());
        assert(views(all@) =~= views(before).push(av[i as int]));
        assert(av.subrange(0, i + 1) =~= av.subrange(0, i as int).push(av[i as int]));
        assert(views(all@) =~= seq![program@] + av.subrange(0, i + 1));
        i = i + 1;
    }
    assert(av.subrange(0, av.len() as int) =~= av);
    join_escaped(&all)
}

/// How the start of the transcription watcher ended.
pub enum WatcherStart {
    /// It was not wanted, for this reason.
    Unwanted(String),
    /// There is no interpreter that can run it.
    NoPython,
    /// There is no script that can watch.
    NoScript,
    /// Its log could not be opened.
    OpenLogFailed(String),
    /// Its log could not be shared.
    CloneLogFailed(String),
    /// It could not be started.
    SpawnFailed(String),
    /// It ended at once.
    ExitedEarly,
    /// It runs.
    Started(i32),
}

/// What is known of the transcription watcher when it is started.
pub struct WatcherContext<'a> {
    pub python_bin: &'a str,
    pub python_candidates: &'a Vec<String>,
    pub python_from_cache: bool,
    pub local_script: &'a Option<String>,
    pub resolved_script: &'a Option<String>,
    pub script_path: &'a str,
    pub log_path: &'a str,
    pub command_preview: &'a str,
}

/// What is said of how the transcription watcher was run.
pub open spec fn run_pairs(c: WatcherContext) -> Seq<(Seq<char>, Tree)> {
    seq![
        ("python_bin"@, Tree::Text(c.python_bin@)),
        ("python_from_cache"@, Tree::Bool(c.python_from_cache)),
        ("python_candidates"@, text_list_tree(views(c.python_candidates@))),
        ("script_path"@, Tree::Text(c.script_path@)),
        ("log_path"@, Tree::Text(c.log_path@)),
        ("command_preview"@, Tree::Text(c.command_preview@)),
    ]
}

/// The start of what is said where the transcription watcher does not run.
pub open spec fn not_started(reason: Seq<char>) -> Seq<(Seq<char>, Tree)> {
    seq![
        ("type"@, Tree::Text("transcription_watcher_not_started"@)),
        ("reason"@, Tree::Text(reason)),
    ]
}

/// What is said of the start of the transcription watcher.
pub open spec fn start_pairs(s: WatcherStart, c: WatcherContext) -> Seq<(Seq<char>, Tree)> {
    match s {
        WatcherStart::Unwanted(reason) => not_started(reason@),
        WatcherStart::NoPython => not_started(
            "python_incompatible_or_unavailable_or_missing_parakeet_deps"@,
        ).push(("python_candidates"@, text_list_tree(views(c.python_candidates@)))),
        WatcherStart::NoScript => not_started("no_watch_capable_script"@).push(
            ("local_script"@, opt_text_tree(opt_view(*c.local_script))),
        ).push(("resolved_script"@, opt_text_tree(opt_view(*c.resolved_script)))),
        WatcherStart::OpenLogFailed(e) => not_started("open_log_failed"@).push(
            ("log_path"@, Tree::Text(c.log_path@)),
        ).push(("error"@, Tree::Text(e@))),
        WatcherStart::CloneLogFailed(e) => not_started("clone_log_handle_failed"@).push(
            ("log_path"@, Tree::Text(c.log_path@)),
        ).push(("error"@, Tree::Text(e@))),
        WatcherStart::SpawnFailed(e) => not_started("spawn_failed"@) + seq![
            ("error"@, Tree::Text(e@)),
            ("python_bin"@, Tree::Text(c.python_bin@)),
            ("python_candidates"@, text_list_tree(views(c.python_candidates@))),
            ("script_path"@, Tree::Text(c.script_path@)),
            ("log_path"@, Tree::Text(c.log_path@)),
            ("command_preview"@, Tree::Text(c.command_preview@)),
        ],
        WatcherStart::ExitedEarly => seq![
            ("type"@, Tree::Text("transcription_watcher_exited_early"@)),
            ("reason"@, Tree::Text("exited_within_startup_window"@)),
        ] + run_pairs(c),
        WatcherStart::Started(pid) => seq![
            ("type"@, Tree::Text("transcription_watcher_started"@)),
            ("pid"@, int_tree(pid as int)),
        ] + run_pairs(c),
    }
}

fn add_reason(p: &mut Pairs, reason: &str)
    requires
        old(p)@.len() == 0,
    ensures
        final(p)@ == not_started(reason@),
{
    p.text("type", "transcription_watcher_not_started");
    p.text("reason", reason);
    assert(p@ =~= not_started(reason@));
}

fn add_run(p: &mut Pairs, c: &WatcherContext)
    ensures
        final(p)@ == old(p)@ + run_pairs(*c),
{
    p.text("python_bin", c.python_bin);
    p.flag("python_from_cache", c.python_from_cache);
    p.add("python_candidates", text_list_json(c.python_candidates));
    p.text("script_path", c.script_path);
    p.text("log_path", c.log_path);
    p.text("command_preview", c.command_preview);
    assert(p@ =~= old(p)@ + run_pairs(*c));
}

/// What keeps the transcription watcher from being started, where something does. `gate` says why
/// it is not wanted.
pub fn watcher_obstacle(gate: Option<&str>, has_python: bool, has_script: bool) -> (r: Option<
    WatcherStart,
>)
    ensures
        match gate {
            Some(reason) => r matches Some(WatcherStart::Unwanted(s)) && s@ == reason@,
            None => if !has_python {
                r == Some(WatcherStart::NoPython)
            } else if !has_script {
                r == Some(WatcherStart::NoScript)
            } else {
                r is None
            },
        },
{
    match gate {
        Some(reason) => Some(WatcherStart::Unwanted(reason.to_owned())),
        None => if !has_python {
            Some(WatcherStart::NoPython)
        } else if !has_script {
            Some(WatcherStart::NoScript)
        } else {
            None
        },
    }
}

/// What is said of the start of the transcription watcher.
pub fn watcher_payload(start: &WatcherStart, c: &WatcherContext) -> (r: Json)
    ensures
        r@ == Tree::Object(object_of(start_pairs(*start, *c))),
{
    let mut p = Pairs::new();
    match start {
        WatcherStart::Unwanted(reason) => add_reason(&mut p, reason.as_str()),
        WatcherStart::NoPython => {
            add_reason(&mut p, "python_incompatible_or_unavailable_or_missing_parakeet_deps");
            p.add("python_candidates", text_list_json(c.python_candidates));
        },
        WatcherStart::NoScript => {
            add_reason(&mut p, "no_watch_capable_script");
            p.opt_text("local_script", c.local_script);
            p.opt_text("resolved_script", c.resolved_script);
        },
        WatcherStart::OpenLogFailed(e) => {
            add_reason(&mut p, "open_log_failed");
            p.text("log_path", c.log_path);
            p.text("error", e.as_str());
        },
        WatcherStart::CloneLogFailed(e) => {
            add_reason(&mut p, "clone_log_handle_failed");
            p.text("log_path", c.log_path);
            p.text("error", e.as_str());
        },
        WatcherStart::SpawnFailed(e) => {
            add_reason(&mut p, "spawn_failed");
            p.text("error", e.as_str());
            p.text("python_bin", c.python_bin);
            p.add("python_candidates", text_list_json(c.python_candidates));
            p.text("script_path", c.script_path);
            p.text("log_path", c.log_path);
            p.text("command_preview", c.command_preview);
        },
        WatcherStart::ExitedEarly => {
            p.text("type", "transcription_watcher_exited_early");
            p.text("reason", "exited_within_startup_window");
            add_run(&mut p, c);
        },
        WatcherStart::Started(pid) => {
            p.text("type", "transcription_watcher_started");
            p.add("pid", int_json(*pid as i64));
            add_run(&mut p, c);
        },
    }
    assert(p@ =~= start_pairs(*start, *c));
    p.object()
}

/// The process of the transcription watcher, where it runs.
pub fn watcher_pid(start: &WatcherStart) -> (r: Option<i32>)
    ensures
        r == match *start {
            WatcherStart::Started(pid) => Some(pid),
            _ => None,
        },
{
    match start {
        WatcherStart::Started(pid) => Some(*pid),
        _ => None,
    }
}

/// Whether the interpreter that was remembered is forgotten: what it ran ended at once.
pub fn forgets_python(start: &WatcherStart, from_cache: bool) -> (r: bool)
    ensures
        r == (*start is ExitedEarly && from_cache),
{
    match start {
        WatcherStart::ExitedEarly => from_cache,
        _ => false,
    }
}

/// Fields with the first `n` of others put in.
pub open spec fn overlaid_fields(
    base: Seq<(Seq<char>, Tree)>,
    extra: Seq<(Seq<char>, Tree)>,
    n: int,
) -> Seq<(Seq<char>, Tree)>
    decreases n,
{
    if n <= 0 {
        base
    } else {
        with_field(overlaid_fields(base, extra, n - 1), extra[n - 1].0, extra[n - 1].1)
    }
}

/// The event of the transcription watcher: what is said of it, with the time and the session.
pub open spec fn watcher_event_of(ts: Seq<char>, session_id: Seq<char>, payload: Tree) -> Tree {
    let base = object_of(
        seq![("ts"@, Tree::Text(ts)), ("session_id"@, Tree::Text(session_id))],
    );
    Tree::Object(
        match payload {
            Tree::Object(extra) => overlaid_fields(base, extra, extra.len() as int),
            _ => base,
        },
    )
}

/// The event of the transcription watcher.
pub fn append_transcription_watcher_event(ts: &str, session_id: &str, payload: &Json) -> (r: Json)
    ensures
        r@ == watcher_event_of(ts@, session_id@, payload@),
{
    let mut fields = Fields::new();
    fields.put("ts", Json::text(ts));
    fields.put("session_id", Json::text(session_id));
    let ghost base = object_of(
        seq![("ts"@, Tree::Text(ts@)), ("session_id"@, Tree::Text(session_id@))],
    );
    proof {
        let both = seq![("ts"@, Tree::Text(ts@)), ("session_id"@, Tree::Text(session_id@))];
        assert(both.drop_last() =~= seq![("ts"@, Tree::Text(ts@))]);
        assert(both.drop_last().drop_last() =~= Seq::empty());
        reveal_with_fuel(object_of, 4);
        assert(fields@ == base);
        lemma_tree(*payload);
    }
    if let Json::Object(extra) = payload {
        let ghost ev = field_views(extra@);
        let mut i: usize = 0;
        while i < extra.len()
            invariant
                i <= extra.len(),
                ev == field_views(extra@),
                fields@ == overlaid_fields(base, ev, i as int),
            decreases extra.len() - i,
        {
            assert(ev[i as int] == (extra@[i as int].0@, extra@[i as int].1@));
            fields.put(extra[i].0.as_str(), extra[i].1.copy());
            i = i + 1;
        }
    }
    fields.object()
}

/// Whether an event tells how the transcription of a session goes.
pub open spec fn tells_progress(event: Tree) -> bool {
    match text_field(event, "type"@) {
        Some(t) => t == "transcription_watcher_started"@ || t
            == "transcription_watcher_not_started"@ || t == "transcription_watcher_exited_early"@
            || t == "transcription_worker_stopped"@ || t == "transcript_probe"@ || t
            == "transcript_chunk"@,
        None => false,
    }
}

/// The last of the first `n` lines that holds an event that tells how the transcription goes.
pub open spec fn last_progress_line(lines: Seq<Seq<char>>, n: int) -> Option<Tree>
    decreases n,
{
    if n <= 0 {
        None
    } else {
        let line = trimmed(lines[n - 1]);
        match text_read(line) {
            Ok(t) => if line.len() > 0 && tells_progress(t) {
                Some(t)
            } else {
                last_progress_line(lines, n - 1)
            },
            Err(_) => last_progress_line(lines, n - 1),
        }
    }
}

/// The last event in the log of a session that tells how its transcription goes.
pub fn latest_transcription_watcher_event(log: &str) -> (r: Option<Json>)
    ensures
        match r {
            Some(e) => last_progress_line(lines_of(log@), lines_of(log@).len() as int) == Some(e@),
            None => last_progress_line(lines_of(log@), lines_of(log@).len() as int) is None,
        },
{
    let all = lines(log);
    let ghost texts = lines_of(log@);
    let mut n: usize = all.len();
    while n > 0
        invariant
            n <= all.len(),
            texts == views(all@),
            texts == lines_of(log@),
            last_progress_line(texts, texts.len() as int) == last_progress_line(texts, n as int),
        decreases n,
    {
        assert(texts[n - 1] == all@[n - 1]@);
        let line = trim(all[n - 1].as_str());
        if !line.as_str().is_empty() {
            if let Ok(event) = read_json(line.as_str()) {
                if is_progress(&event) {
                    return Some(event);
                }
            }
        }
        n = n - 1;
    }
    None
}

/// Whether an event tells how the transcription of a session goes.
fn is_progress(event: &Json) -> (r: bool)
    ensures
        r == tells_progress(event@),
{
    match event.get_text("type") {
        Some(t) => {
            let t = t.as_str();
            same(t, "transcription_watcher_started") || same(t, "transcription_watcher_not_started")
                || same(t, "transcription_watcher_exited_early") || same(
                t,
                "transcription_worker_stopped",
            ) || same(t, "transcript_probe") || same(t, "transcript_chunk")
        },
        None => false,
    }
}

// ---------------------------------------------------------------------------------------------
// The clipboard watcher
// ---------------------------------------------------------------------------------------------

/// Why the clipboard watcher is not started, where it is not.
pub fn clipboard_watcher_gate(setting: Option<&str>, has_pbpaste: bool) -> (r: Option<&'static str>)
    ensures
        str_view(r) == if setting matches Some(v) && is_off(v@) {
            Some("Clipboard watcher disabled by RIFF_CLIPBOARD_MONITOR."@)
        } else if !has_pbpaste {
            Some("Clipboard watcher not started because pbpaste is unavailable."@)
        } else {
            None
        },
{
    if !bool_env_enabled(setting, true) {
        Some("Clipboard watcher disabled by RIFF_CLIPBOARD_MONITOR.")
    } else if !has_pbpaste {
        Some("Clipboard watcher not started because pbpaste is unavailable.")
    } else {
        None
    }
}

/// The arguments of the clipboard watcher.
pub fn clipboard_watcher_args(state: &SessionState, started_at_epoch: &str, start_id: u64) -> (r: Vec<
    String,
>)
    ensures
        views(r@) == seq![
            "--quiet"@,
            "watch-clipboard"@,
            "--session-id"@,
            state.session_id@,
            "--events-path"@,
            state.events_path@,
            "--started-at-epoch"@,
            started_at_epoch@,
            "--start-id"@,
            decimal(start_id as nat),
        ],
{
    let r: Vec<String> = vec![
        "--quiet".to_owned(),
        "watch-clipboard".to_owned(),
        "--session-id".to_owned(),
        state.session_id.clone(),
        "--events-path".to_owned(),
        state.events_path.clone(),
        "--started-at-epoch".to_owned(),
        started_at_epoch.to_owned(),
        "--start-id".to_owned(),
        decimal_text(start_id),
    ];
    assert(views(r@) =~= seq![
        "--quiet"@,
        "watch-clipboard"@,
        "--session-id"@,
        state.session_id@,
        "--events-path"@,
        state.events_path@,
        "--started-at-epoch"@,
        started_at_epoch@,
        "--start-id"@,
        decimal(start_id as nat),
    ]);
    r
}

// ---------------------------------------------------------------------------------------------
// The watchdog
// ---------------------------------------------------------------------------------------------

/// Ninety seconds.
pub open spec fn default_cap() -> Measure {
    Measure { bits: 0x4056_8000_0000_0000 }
}

/// Five seconds.
pub open spec fn least_cap() -> Measure {
    Measure { bits: 0x4014_0000_0000_0000 }
}

/// A day, in seconds.
pub open spec fn most_cap() -> Measure {
    Measure { bits: 0x40F5_1800_0000_0000 }
}

/// How long a session may last, in seconds: what is set, between five seconds and a day, else
/// ninety seconds. Nothing above zero switches the limit off.
pub open spec fn cap_of(set: Option<Measure>) -> Option<Measure> {
    match set {
        None => Some(default_cap()),
        Some(m) => if m.key() <= 0 {
            None
        } else if m.key() < least_cap().key() {
            Some(least_cap())
        } else if m.key() > most_cap().key() {
            Some(most_cap())
        } else {
            Some(m)
        },
    }
}

/// How long a session may last, in seconds, where there is a limit.
pub fn max_session_sec(set: Option<Measure>) -> (r: Option<Measure>)
    ensures
        r == cap_of(set),
{
    let zero = Measure { bits: 0 };
    let least = Measure { bits: 0x4014_0000_0000_0000 };
    let most = Measure { bits: 0x40F5_1800_0000_0000 };
    match set {
        None => Some(Measure { bits: 0x4056_8000_0000_0000 }),
        Some(m) => if !zero.less(&m) {
            None
        } else if m.less(&least) {
            Some(least)
        } else if most.less(&m) {
            Some(most)
        } else {
            Some(m)
        },
    }
}

/// The limit is what is set, where that is between five seconds and a day; what is above zero and
/// below five seconds gives five seconds, what is above a day gives a day, what is not above zero no
/// limit, and nothing set gives ninety seconds. A quantity is its significand times a power of two.
pub proof fn limits_are_what_is_set(m: Measure)
    ensures
        ({
            let five = Measure { bits: 0x4014_0000_0000_0000 };
            let day = Measure { bits: 0x40F5_1800_0000_0000 };
            let ninety = Measure { bits: 0x4056_8000_0000_0000 };
            &&& five.significand() == 5 * 0x4_0000_0000_0000 && five.exponent() == -50
            &&& day.significand() == 86400 * 0x10_0000_0000 && day.exponent() == -36
            &&& ninety.significand() == 90 * 0x4000_0000_0000 && ninety.exponent() == -46
            &&& five.key() <= m.key() <= day.key() ==> cap_of(Some(m)) == Some(m)
            &&& 0 < m.key() < five.key() ==> cap_of(Some(m)) == Some(five)
            &&& m.key() > day.key() ==> cap_of(Some(m)) == Some(day)
            &&& m.key() <= 0 ==> cap_of(Some(m)) is None
            &&& cap_of(None) == Some(ninety)
        }),
{
}

/// A longer setting never gives a shorter limit.
pub proof fn limits_grow_with_what_is_set(a: Measure, b: Measure)
    requires
        0 < a.key() <= b.key(),
    ensures
        cap_of(Some(a)) matches Some(x) && cap_of(Some(b)) matches Some(y) && x.key() <= y.key(),
{
}

/// A limit is between five seconds and a day, whatever is set.
pub proof fn caps_are_bounded(set: Option<Measure>)
    ensures
        cap_of(set) matches Some(c) ==> least_cap().key() <= c.key() <= most_cap().key(),
{
}

/// The arguments of the watchdog.
pub fn watchdog_args(
    state: &SessionState,
    max_sec: &str,
    recorder_pid: i32,
    started_at_epoch: &str,
) -> (r: Vec<String>)
    ensures
        views(r@) == seq![
            "--quiet"@,
            "watch-max-duration"@,
            "--session-id"@,
            state.session_id@,
            "--max-sec"@,
            max_sec@,
            "--ffmpeg-pid"@,
            crate::number::signed_decimal(recorder_pid as int),
            "--started-at-epoch"@,
            started_at_epoch@,
            "--audio-path"@,
            state.audio_path@,
            "--events-path"@,
            state.events_path@,
        ],
{
    let r: Vec<String> = vec![
        "--quiet".to_owned(),
        "watch-max-duration".to_owned(),
        "--session-id".to_owned(),
        state.session_id.clone(),
        "--max-sec".to_owned(),
        max_sec.to_owned(),
        "--ffmpeg-pid".to_owned(),
        crate::number::signed_text(recorder_pid as i64),
        "--started-at-epoch".to_owned(),
        started_at_epoch.to_owned(),
        "--audio-path".to_owned(),
        state.audio_path.clone(),
        "--events-path".to_owned(),
        state.events_path.clone(),
    ];
    assert(views(r@) =~= seq![
        "--quiet"@,
        "watch-max-duration"@,
        "--session-id"@,
        state.session_id@,
        "--max-sec"@,
        max_sec@,
        "--ffmpeg-pid"@,
        crate::number::signed_decimal(recorder_pid as int),
        "--started-at-epoch"@,
        started_at_epoch@,
        "--audio-path"@,
        state.audio_path@,
        "--events-path"@,
        state.events_path@,
    ]);
    r
}

/// What the watchdog does next.
#[derive(PartialEq, Eq, Structural, Clone, Copy, Debug)]
pub enum WatchdogStep {
    /// It ends: the recorder does not live, or another session runs.
    Leave,
    /// It stops the session.
    Stop,
    /// It waits.
    Wait,
}

/// What the watchdog does next, given the session that runs and how long this one has lasted. It
/// stops its own session and no other.
pub fn watchdog_step(
    session_id: &str,
    active_session: Option<&str>,
    recorder_alive: bool,
    elapsed: &Measure,
    max_sec: &Measure,
) -> (r: WatchdogStep)
    ensures
        r == if !recorder_alive {
            WatchdogStep::Leave
        } else if elapsed.key() < max_sec.key() {
            WatchdogStep::Wait
        } else if str_view(active_session) == Some(session_id@) {
            WatchdogStep::Stop
        } else {
            WatchdogStep::Leave
        },
{
    if !recorder_alive {
        return WatchdogStep::Leave;
    }
    if elapsed.less(max_sec) {
        return WatchdogStep::Wait;
    }
    match active_session {
        Some(s) => if same(s, session_id) {
            WatchdogStep::Stop
        } else {
            WatchdogStep::Leave
        },
        None => WatchdogStep::Leave,
    }
}

/// Whether a recording shows that the microphone is heard: it holds more than a header.
pub fn confirms_mic(confirmed: bool, audio_bytes: u64) -> (r: bool)
    ensures
        r == (!confirmed && audio_bytes > 4096),
{
    !confirmed && audio_bytes > 4096
}

/// The event that says that the microphone is heard.
pub fn mic_listening_event(ts: &str, session_id: &str, audio_bytes: u64, confirm_ms: &Number) -> (r:
    Json)
    ensures
        r@ == Tree::Object(
            object_of(
                seq![
                    ("ts"@, Tree::Text(ts@)),
                    ("type"@, Tree::Text("mic_listening"@)),
                    ("session_id"@, Tree::Text(session_id@)),
                    ("audio_bytes"@, count_tree(audio_bytes as nat)),
                    ("confirm_ms"@, Tree::Number(confirm_ms@)),
                ],
            ),
        ),
{
    let mut p = Pairs::new();
    p.text("ts", ts);
    p.text("type", "mic_listening");
    p.text("session_id", session_id);
    p.count("audio_bytes", audio_bytes);
    p.number("confirm_ms", confirm_ms);
    assert(p@ == seq![
        ("ts"@, Tree::Text(ts@)),
        ("type"@, Tree::Text("mic_listening"@)),
        ("session_id"@, Tree::Text(session_id@)),
        ("audio_bytes"@, count_tree(audio_bytes as nat)),
        ("confirm_ms"@, Tree::Number(confirm_ms@)),
    ]);
    p.object()
}

/// The event that says that a session lasted too long.
pub fn max_duration_event(ts: &str, session_id: &str, max_sec: &Number, elapsed_sec: &Number) -> (r:
    Json)
    ensures
        r@ == Tree::Object(
            object_of(
                seq![
                    ("ts"@, Tree::Text(ts@)),
                    ("type"@, Tree::Text("max_duration_reached"@)),
                    ("session_id"@, Tree::Text(session_id@)),
                    ("max_sec"@, Tree::Number(max_sec@)),
                    ("elapsed_sec"@, Tree::Number(elapsed_sec@)),
                ],
            ),
        ),
{
    let mut p = Pairs::new();
    p.text("ts", ts);
    p.text("type", "max_duration_reached");
    p.text("session_id", session_id);
    p.number("max_sec", max_sec);
    p.number("elapsed_sec", elapsed_sec);
    assert(p@ == seq![
        ("ts"@, Tree::Text(ts@)),
        ("type"@, Tree::Text("max_duration_reached"@)),
        ("session_id"@, Tree::Text(session_id@)),
        ("max_sec"@, Tree::Number(max_sec@)),
        ("elapsed_sec"@, Tree::Number(elapsed_sec@)),
    ]);
    p.object()
}

// ---------------------------------------------------------------------------------------------
// What is run, and what is said of it
// ---------------------------------------------------------------------------------------------

/// The watcher is wanted where it is switched on and no other command transcribes.
pub proof fn watchers_have_to_be_switched_on(live: Seq<char>, custom: Seq<char>)
    ensures
        watcher_refusal(None, None) == Some("disabled_by_env"@),
        is_off(live) ==> watcher_refusal(Some(live), Some(custom)) == Some("disabled_by_env"@),
        !is_off(live) && trimmed(custom).len() > 0 ==> watcher_refusal(Some(live), Some(custom))
            == Some("custom_transcribe_cmd_enabled"@),
        !is_off(live) ==> watcher_refusal(Some(live), None) is None,
        !is_off(live) && trimmed(custom).len() == 0 ==> watcher_refusal(Some(live), Some(custom))
            is None,
{
}

/// The script that comes with the program is tried before the one that is set, and one that is both
/// once. The first that can watch is taken.
pub proof fn own_scripts_are_tried_first(
    local: Seq<char>,
    set: Seq<char>,
    scripts: Seq<Seq<char>>,
    texts: Seq<Option<String>>,
    at: int,
)
    ensures
        local != set ==> watch_scripts(Some(local), Some(set)) == seq![local, set],
        watch_scripts(Some(local), Some(local)) == seq![local],
        watch_scripts(Some(local), None) == seq![local],
        watch_scripts(None, Some(set)) == seq![set],
        watch_scripts(None, None).len() == 0,
        0 <= at < scripts.len() && scripts.len() == texts.len() && (texts[at] matches Some(t)
            && contains(t@, "--watch-audio"@)) && (forall|k: int|
            0 <= k < at ==> (#[trigger] texts[k] matches Some(t) ==> !contains(
                t@,
                "--watch-audio"@,
            ))) ==> first_watching(scripts, texts, 0) == Some(scripts[at]),
{
    assert(watch_scripts(Some(local), Some(local)) =~= seq![local]);
    assert(watch_scripts(Some(local), None) =~= seq![local]);
    assert(watch_scripts(None, Some(set)) =~= seq![set]);
    if local != set {
        assert(watch_scripts(Some(local), Some(set)) =~= seq![local, set]);
    }
    if 0 <= at < scripts.len() && scripts.len() == texts.len() && (texts[at] matches Some(t)
        && contains(t@, "--watch-audio"@)) && (forall|k: int|
        0 <= k < at ==> (#[trigger] texts[k] matches Some(t) ==> !contains(t@, "--watch-audio"@))) {
        lemma_first_watching(scripts, texts, 0, at);
    }
}

proof fn lemma_first_watching(
    scripts: Seq<Seq<char>>,
    texts: Seq<Option<String>>,
    i: int,
    at: int,
)
    requires
        0 <= i <= at < scripts.len(),
        scripts.len() == texts.len(),
        texts[at] matches Some(t) && contains(t@, "--watch-audio"@),
        forall|k: int|
            0 <= k < at ==> (#[trigger] texts[k] matches Some(t) ==> !contains(
                t@,
                "--watch-audio"@,
            )),
    ensures
        first_watching(scripts, texts, i) == Some(scripts[at]),
    decreases at - i,
{
    if i < at {
        let t = texts[i];
        lemma_first_watching(scripts, texts, i + 1, at);
    }
}

/// Whether `value` stands right behind `flag` among arguments.
pub open spec fn has_argument(args: Seq<Seq<char>>, flag: Seq<char>, value: Seq<char>) -> bool {
    exists|i: int| 0 <= i < args.len() - 1 && #[trigger] args[i] == flag && args[i + 1] == value
}

/// The watcher is told what to listen to, where to write, which session it is for and how to cut.
pub proof fn watchers_are_told_everything(script: Seq<char>, state: SessionState, w: WatchSettings)
    ensures
        ({
            let a = watcher_arguments(script, state, w);
            &&& a[0] == script
            &&& a[1] == "--watch-audio"@
            &&& has_argument(a, "--audio"@, state.audio_path@)
            &&& has_argument(
                a,
                "--out-txt"@,
                joined_path(state.session_dir@, "transcript.txt"@),
            )
            &&& has_argument(a, "--events-path"@, state.events_path@)
            &&& has_argument(a, "--session-id"@, state.session_id@)
            &&& has_argument(a, "--started-at-epoch"@, w.started_at_epoch@)
            &&& has_argument(a, "--model"@, w.model@)
            &&& has_argument(a, "--min-chunk-sec"@, w.min_chunk_sec@)
            &&& has_argument(a, "--max-chunk-sec"@, w.max_chunk_sec@)
            &&& has_argument(a, "--silence-sec"@, w.silence_sec@)
            &&& has_argument(a, "--silence-db"@, w.silence_db@)
            &&& has_argument(a, "--poll-ms"@, decimal(w.poll_ms as nat))
        }),
{
    let a = watcher_arguments(script, state, w);
    assert(a[2] == "--audio"@ && a[3] == state.audio_path@);
    assert(a[4] == "--out-txt"@ && a[6] == "--events-path"@ && a[8] == "--session-id"@);
    assert(a[10] == "--started-at-epoch"@ && a[12] == "--model"@ && a[14] == "--min-chunk-sec"@);
    assert(a[16] == "--max-chunk-sec"@ && a[18] == "--silence-sec"@ && a[20] == "--silence-db"@);
    assert(a[22] == "--poll-ms"@);
}

/// What is said of the start names what came of it, and why where nothing did.
pub proof fn starts_are_reported(s: WatcherStart, c: WatcherContext)
    ensures
        ({
            let t = Tree::Object(object_of(start_pairs(s, c)));
            let kind = text_field(t, "type"@);
            let reason = text_field(t, "reason"@);
            match s {
                WatcherStart::Started(pid) => kind == Some("transcription_watcher_started"@) && field(
                    t,
                    "pid"@,
                ) == Some(int_tree(pid as int)),
                WatcherStart::ExitedEarly => kind == Some("transcription_watcher_exited_early"@),
                WatcherStart::Unwanted(why) => kind == Some("transcription_watcher_not_started"@)
                    && reason == Some(why@),
                WatcherStart::NoPython => kind == Some("transcription_watcher_not_started"@) && reason
                    == Some("python_incompatible_or_unavailable_or_missing_parakeet_deps"@),
                WatcherStart::NoScript => kind == Some("transcription_watcher_not_started"@) && reason
                    == Some("no_watch_capable_script"@),
                WatcherStart::OpenLogFailed(e) => kind == Some("transcription_watcher_not_started"@)
                    && reason == Some("open_log_failed"@),
                WatcherStart::CloneLogFailed(e) => kind == Some(
                    "transcription_watcher_not_started"@,
                ) && reason == Some("clone_log_handle_failed"@),
                WatcherStart::SpawnFailed(e) => kind == Some("transcription_watcher_not_started"@)
                    && reason == Some("spawn_failed"@),
            }
        }),
{
    reveal_strlit("type");
    reveal_strlit("reason");
    reveal_strlit("pid");
    reveal_strlit("python_bin");
    reveal_strlit("python_from_cache");
    reveal_strlit("python_candidates");
    reveal_strlit("script_path");
    reveal_strlit("log_path");
    reveal_strlit("command_preview");
    reveal_strlit("local_script");
    reveal_strlit("resolved_script");
    reveal_strlit("error");
    assert("type"@.len() == 4 && "reason"@.len() == 6 && "pid"@.len() == 3 && "error"@.len() == 5);
    assert("python_bin"@.len() == 10 && "python_from_cache"@.len() == 17);
    assert("python_candidates"@.len() == 17 && "script_path"@.len() == 11 && "log_path"@.len() == 8);
    assert("command_preview"@.len() == 15 && "local_script"@.len() == 12);
    assert("resolved_script"@.len() == 15);
    let p = start_pairs(s, c);
    pairs_read_back(p, 0);
    pairs_read_back(p, 1);
}

/// The event of the watcher has the time and the session, and all that is said of it.
pub proof fn watcher_events_carry_what_is_said(
    ts: Seq<char>,
    session_id: Seq<char>,
    extra: Seq<(Seq<char>, Tree)>,
    key: Seq<char>,
    value: Tree,
)
    ensures
        ({
            let before = watcher_event_of(ts, session_id, Tree::Object(extra));
            let after = watcher_event_of(ts, session_id, Tree::Object(extra.push((key, value))));
            &&& field(after, key) == Some(value)
            &&& forall|other: Seq<char>|
                other != key ==> #[trigger] field(after, other) == field(before, other)
        }),
        text_field(watcher_event_of(ts, session_id, Tree::Object(Seq::empty())), "ts"@) == Some(ts),
        text_field(watcher_event_of(ts, session_id, Tree::Object(Seq::empty())), "session_id"@)
            == Some(session_id),
{
    let base = object_of(seq![("ts"@, Tree::Text(ts)), ("session_id"@, Tree::Text(session_id))]);
    lemma_overlaid_prefix(base, extra, (key, value), extra.len() as int);
    let before = overlaid_fields(base, extra, extra.len() as int);
    put_is_found(before, key, value, key);
    assert forall|other: Seq<char>| other != key implies #[trigger] lookup(
        with_field(before, key, value),
        other,
    ) == lookup(before, other) by {
        put_is_found(before, key, value, other);
    }
    reveal_strlit("ts");
    reveal_strlit("session_id");
    assert("ts"@.len() == 2 && "session_id"@.len() == 10);
    let p = seq![("ts"@, Tree::Text(ts)), ("session_id"@, Tree::Text(session_id))];
    pairs_read_back(p, 0);
    pairs_read_back(p, 1);
}

proof fn lemma_overlaid_prefix(
    base: Seq<(Seq<char>, Tree)>,
    extra: Seq<(Seq<char>, Tree)>,
    last: (Seq<char>, Tree),
    n: int,
)
    requires
        0 <= n <= extra.len(),
    ensures
        overlaid_fields(base, extra.push(last), n) == overlaid_fields(base, extra, n),
    decreases n,
{
    if n > 0 {
        lemma_overlaid_prefix(base, extra, last, n - 1);
        assert(extra.push(last)[n - 1] == extra[n - 1]);
    }
}

/// The last line that tells how the transcription goes is the one that counts.
pub proof fn the_last_line_tells(lines: Seq<Seq<char>>, line: Seq<char>, event: Tree)
    requires
        text_read(trimmed(line)) == Ok::<Tree, Seq<char>>(event),
        trimmed(line).len() > 0,
    ensures
        text_field(event, "type"@) == Some("transcript_chunk"@) || text_field(event, "type"@) == Some(
            "transcript_probe"@,
        ) || text_field(event, "type"@) == Some("transcription_watcher_started"@) || text_field(
            event,
            "type"@,
        ) == Some("transcription_worker_stopped"@) || text_field(event, "type"@) == Some(
            "transcription_watcher_not_started"@,
        ) || text_field(event, "type"@) == Some("transcription_watcher_exited_early"@)
            ==> last_progress_line(lines.push(line), lines.len() + 1int) == Some(event),
        text_field(event, "type"@) is None ==> last_progress_line(
            lines.push(line),
            lines.len() + 1int,
        ) == last_progress_line(lines, lines.len() as int),
{
    assert(lines.push(line)[lines.len() as int] == line);
    lemma_progress_prefix(lines, line, lines.len() as int);
}

proof fn lemma_progress_prefix(lines: Seq<Seq<char>>, line: Seq<char>, n: int)
    requires
        0 <= n <= lines.len(),
    ensures
        last_progress_line(lines.push(line), n) == last_progress_line(lines, n),
    decreases n,
{
    if n > 0 {
        lemma_progress_prefix(lines, line, n - 1);
        assert(lines.push(line)[n - 1] == lines[n - 1]);
    }
}

/// A watcher that was started, or that ended at once, is described by what it was run with; one that
/// could not be run by what was wrong.
pub proof fn watcher_runs_are_described(s: WatcherStart, c: WatcherContext)
    ensures
        ({
            let t = Tree::Object(object_of(start_pairs(s, c)));
            &&& s is Started || s is ExitedEarly ==> {
                &&& text_field(t, "python_bin"@) == Some(c.python_bin@)
                &&& field(t, "python_from_cache"@) == Some(Tree::Bool(c.python_from_cache))
                &&& field(t, "python_candidates"@) == Some(
                    text_list_tree(views(c.python_candidates@)),
                )
                &&& text_field(t, "script_path"@) == Some(c.script_path@)
                &&& text_field(t, "log_path"@) == Some(c.log_path@)
                &&& text_field(t, "command_preview"@) == Some(c.command_preview@)
            }
            &&& s is ExitedEarly ==> text_field(t, "reason"@) == Some(
                "exited_within_startup_window"@,
            )
            &&& s is NoPython ==> field(t, "python_candidates"@) == Some(
                text_list_tree(views(c.python_candidates@)),
            )
            &&& s matches WatcherStart::OpenLogFailed(e) ==> text_field(t, "log_path"@) == Some(
                c.log_path@,
            ) && text_field(t, "error"@) == Some(e@)
            &&& s matches WatcherStart::CloneLogFailed(e) ==> text_field(t, "log_path"@) == Some(
                c.log_path@,
            ) && text_field(t, "error"@) == Some(e@)
            &&& s matches WatcherStart::SpawnFailed(e) ==> text_field(t, "error"@) == Some(e@)
                && text_field(t, "python_bin"@) == Some(c.python_bin@) && text_field(
                t,
                "script_path"@,
            ) == Some(c.script_path@) && text_field(t, "log_path"@) == Some(c.log_path@)
                && text_field(t, "command_preview"@) == Some(c.command_preview@)
        }),
{
    reveal_strlit("type");
    reveal_strlit("reason");
    reveal_strlit("pid");
    reveal_strlit("python_bin");
    reveal_strlit("python_from_cache");
    reveal_strlit("python_candidates");
    reveal_strlit("script_path");
    reveal_strlit("log_path");
    reveal_strlit("command_preview");
    reveal_strlit("error");
    assert("type"@.len() == 4 && "reason"@.len() == 6 && "pid"@.len() == 3 && "error"@.len() == 5);
    assert("python_bin"@.len() == 10 && "python_from_cache"@[7] == 'f');
    assert("python_candidates"@[7] == 'c' && "script_path"@.len() == 11 && "log_path"@.len() == 8);
    assert("python_from_cache"@.len() == 17 && "python_candidates"@.len() == 17);
    assert("command_preview"@.len() == 15);
    let p = start_pairs(s, c);
    if s is Started || s is ExitedEarly {
        let r = run_pairs(c);
        assert(p[2] == r[0] && p[3] == r[1] && p[4] == r[2] && p[5] == r[3] && p[6] == r[4] && p[7]
            == r[5]);
        pairs_read_back(p, 1);
        pairs_read_back(p, 2);
        pairs_read_back(p, 3);
        pairs_read_back(p, 4);
        pairs_read_back(p, 5);
        pairs_read_back(p, 6);
        pairs_read_back(p, 7);
    } else if s is NoPython {
        pairs_read_back(p, 2);
    } else if s is OpenLogFailed || s is CloneLogFailed {
        pairs_read_back(p, 2);
        pairs_read_back(p, 3);
    } else if s is SpawnFailed {
        pairs_read_back(p, 2);
        pairs_read_back(p, 3);
        pairs_read_back(p, 5);
        pairs_read_back(p, 6);
        pairs_read_back(p, 7);
    }
}

/// Six kinds of events tell how a transcription gets on.
pub proof fn six_events_tell_progress(event: Tree, kind: Seq<char>)
    requires
        text_field(event, "type"@) == Some(kind),
    ensures
        tells_progress(event) <==> {
            ||| kind == "transcription_watcher_started"@
            ||| kind == "transcription_watcher_not_started"@
            ||| kind == "transcription_watcher_exited_early"@
            ||| kind == "transcription_worker_stopped"@
            ||| kind == "transcript_probe"@
            ||| kind == "transcript_chunk"@
        },
{
}

/// A watcher is told last to be quiet, and nothing else than what it needs.
pub proof fn watchers_are_quiet(script: Seq<char>, state: SessionState, w: WatchSettings)
    ensures
        watcher_arguments(script, state, w).last() == "--quiet"@,
        watcher_arguments(script, state, w).len() == 25,
{
}

/// Where no script can watch, it is told which were looked at.
pub proof fn unfit_scripts_are_told(c: WatcherContext)
    ensures
        ({
            let t = Tree::Object(object_of(start_pairs(WatcherStart::NoScript, c)));
            &&& field(t, "local_script"@) == Some(opt_text_tree(opt_view(*c.local_script)))
            &&& field(t, "resolved_script"@) == Some(opt_text_tree(opt_view(*c.resolved_script)))
        }),
{
    reveal_strlit("local_script");
    reveal_strlit("resolved_script");
    assert("local_script"@.len() == 12 && "resolved_script"@.len() == 15);
    let p = start_pairs(WatcherStart::NoScript, c);
    pairs_read_back(p, 2);
    pairs_read_back(p, 3);
}

} // verus!
