//! A session while it lasts: starting it, pausing it, taking screenshots, and showing how it goes.

use vstd::prelude::*;

use crate::annotations::shot_of;
use crate::chunk::{chunk_count, count_chunk_events, count_status, status_count};
use crate::cli::{StartArgs, StopArgs, ToggleArgs};
use crate::engine::{read_setting, set_text};
use crate::error::{app_error, AppError};
use crate::history::{clock_duration, format_hms_compact};
use crate::json::{
    count_tree, field, int_json, int_tree, item_views, object_of, opt_text_tree, opt_view,
    pairs_read_back, str_view, text_field, Json, Number, NumberView, Pairs, Tree,
};
use crate::measure::Measure;
use crate::models::SessionState;
use crate::number::{decimal, decimal_text, signed_decimal, signed_text};
use crate::paths::{join_path, joined_path};
use crate::parakeet::{trim_slashes, without_slashes};
use crate::pattern::{contains, lemma_contains_itself, views, words, words_of};
use crate::perf::{opt_number_json, opt_number_tree};
use crate::probe::{FrontmostAppMeta, ProcessStats};
use crate::shots::{shot_base, shot_stem};
use crate::text::{concat, concat3, is_blank, trim, trimmed};
use crate::wire::quantity_of;
use crate::html::{lemma_more, lemma_part, lemma_two_more};

verus! {

/// A process id, or null where there is none.
pub open spec fn opt_pid_tree(pid: Option<i32>) -> Tree {
    match pid {
        Some(p) => int_tree(p as int),
        None => Tree::Null,
    }
}

/// A process id, or null where there is none.
pub fn opt_pid_json(pid: Option<i32>) -> (r: Json)
    ensures
        r@ == opt_pid_tree(pid),
{
    match pid {
        Some(p) => int_json(p as i64),
        None => Json::Null,
    }
}

/// How a switch is shown.
pub open spec fn shown_bool(b: bool) -> Seq<char> {
    if b {
        "true"@
    } else {
        "false"@
    }
}

/// How a switch is shown.
pub fn bool_word(b: bool) -> (r: &'static str)
    ensures
        r@ == shown_bool(b),
{
    if b {
        "true"
    } else {
        "false"
    }
}

/// Measured times under their names, as many as there are of both.
pub open spec fn phase_pairs(names: Seq<&'static str>, values: Seq<Number>, n: int) -> Seq<
    (Seq<char>, Tree),
>
    decreases n,
{
    if n <= 0 {
        Seq::empty()
    } else {
        phase_pairs(names, values, n - 1).push((names[n - 1]@, Tree::Number(values[n - 1]@)))
    }
}

/// Measured times under their names.
pub fn phases_json(names: &[&'static str], values: &Vec<Number>) -> (r: Json)
    requires
        names@.len() == values@.len(),
    ensures
        r@ == Tree::Object(object_of(phase_pairs(names@, values@, names@.len() as int))),
{
    let mut p = Pairs::new();
    let mut i: usize = 0;
    while i < names.len()
        invariant
            i <= names.len(),
            names@.len() == values@.len(),
            p@ == phase_pairs(names@, values@, i as int),
        decreases names.len() - i,
    {
        p.number(names[i], &values[i]);
        i = i + 1;
    }
    p.object()
}

/// What is reported where no session runs.
pub open spec fn no_active_tree(action: Seq<char>) -> Tree {
    Tree::Object(
        object_of(
            seq![
                ("ok"@, Tree::Bool(true)),
                ("action"@, Tree::Text(action)),
                ("active"@, Tree::Bool(false)),
                ("message"@, Tree::Text("No active session."@)),
            ],
        ),
    )
}

/// What is reported where no session runs.
pub fn no_active_report(action: &str) -> (r: Json)
    ensures
        r@ == no_active_tree(action@),
{
    let mut p = Pairs::new();
    p.flag("ok", true);
    p.text("action", action);
    p.flag("active", false);
    p.text("message", "No active session.");
    assert(p@ == seq![
        ("ok"@, Tree::Bool(true)),
        ("action"@, Tree::Text(action@)),
        ("active"@, Tree::Bool(false)),
        ("message"@, Tree::Text("No active session."@)),
    ]);
    p.object()
}

/// How a command on the active session begins.
pub enum Beginning {
    /// There is one: the command goes on.
    GoOn,
    /// There is none: this is said and reported, and the command ends with this code.
    Idle(String, Json, i32),
}

/// How a command on the active session begins (`stop`, `chunk`, `pause`, `unpause`, `fork`). Where no
/// session runs it says so, and that is no failure.
pub fn begin(action: &str, active: bool) -> (r: Beginning)
    ensures
        active ==> r is GoOn,
        !active ==> (r matches Beginning::Idle(text, report, code) && text@ == "No active session."@
            && report@ == no_active_tree(action@) && code == 0),
{
    if active {
        Beginning::GoOn
    } else {
        Beginning::Idle("No active session.".to_owned(), no_active_report(action), 0)
    }
}

// ---------------------------------------------------------------------------------------------
// Starting
// ---------------------------------------------------------------------------------------------

/// Why a session cannot be started, where another one runs.
pub fn start_conflict(existing: &SessionState, recorder_alive: bool) -> (r: Option<AppError>)
    ensures
        match existing.ffmpeg_pid {
            Some(pid) => if recorder_alive {
                r matches Some(e) && e.code == 2 && e.message@
                    == "A session is already active (session_id="@ + existing.session_id@
                    + ", pid="@ + signed_decimal(pid as int) + ")."@
            } else {
                r is None
            },
            None => r is None,
        },
{
    match existing.ffmpeg_pid {
        Some(pid) => if recorder_alive {
            let mut m = concat3(
                "A session is already active (session_id=",
                existing.session_id.as_str(),
                ", pid=",
            );
            m.append(signed_text(pid as i64).as_str());
            m.append(").");
            Some(app_error(2, m.as_str()))
        } else {
            None
        },
        None => None,
    }
}

/// Where a session keeps what.
pub struct Layout {
    pub session_dir: String,
    pub screenshots_dir: String,
    pub audio_path: String,
    pub events_path: String,
    pub ffmpeg_log_path: String,
}

/// Whether this is where a session keeps what.
pub open spec fn is_layout(l: Layout, sessions_dir: Seq<char>, session_id: Seq<char>) -> bool {
    let dir = joined_path(sessions_dir, session_id);
    &&& l.session_dir@ == dir
    &&& l.screenshots_dir@ == joined_path(dir, "screenshots"@)
    &&& l.audio_path@ == joined_path(dir, "audio.wav"@)
    &&& l.events_path@ == joined_path(dir, "events.jsonl"@)
    &&& l.ffmpeg_log_path@ == joined_path(dir, "ffmpeg.log"@)
}

/// Where a session keeps what.
pub fn session_layout(sessions_dir: &str, session_id: &str) -> (r: Layout)
    ensures
        is_layout(r, sessions_dir@, session_id@),
{
    let dir = join_path(sessions_dir, session_id);
    Layout {
        screenshots_dir: join_path(dir.as_str(), "screenshots"),
        audio_path: join_path(dir.as_str(), "audio.wav"),
        events_path: join_path(dir.as_str(), "events.jsonl"),
        ffmpeg_log_path: join_path(dir.as_str(), "ffmpeg.log"),
        session_dir: dir,
    }
}

/// What a session is started with.
pub struct SessionStart<'a> {
    pub session_id: &'a str,
    pub started_at_iso: &'a str,
    pub started_at_epoch: Measure,
    pub screenshot_source_dir: &'a str,
    pub audio_device: &'a str,
    pub engine: &'a str,
    pub recorder_pid: i32,
}

/// Whether this is the state of a session that has just begun: nothing is transcribed, nothing is
/// paused, and nothing runs beside the recorder.
pub open spec fn is_fresh(s: SessionState, l: Layout, b: SessionStart) -> bool {
    &&& s.session_id@ == b.session_id@
    &&& s.session_dir@ == l.session_dir@
    &&& s.screenshots_dir@ == l.screenshots_dir@
    &&& s.audio_path@ == l.audio_path@
    &&& s.events_path@ == l.events_path@
    &&& s.ffmpeg_log_path@ == l.ffmpeg_log_path@
    &&& s.ffmpeg_pid == Some(b.recorder_pid)
    &&& s.started_at_iso@ == b.started_at_iso@
    &&& s.started_at_epoch == b.started_at_epoch
    &&& s.screenshot_source_dir@ == b.screenshot_source_dir@
    &&& s.audio_device@ == b.audio_device@
    &&& s.engine@ == b.engine@
    &&& s.clipboard_watcher_pid is None
    &&& s.transcription_watcher_pid is None
    &&& s.transcription_cursor_sec == Measure { bits: 0 }
    &&& !s.transcription_paused
    &&& s.transcription_pause_started_sec is None
}

/// The state of a session that has just begun.
pub fn initial_state(l: &Layout, b: &SessionStart) -> (r: SessionState)
    ensures
        is_fresh(r, *l, *b),
{
    SessionState {
        session_id: b.session_id.to_owned(),
        session_dir: l.session_dir.clone(),
        screenshots_dir: l.screenshots_dir.clone(),
        audio_path: l.audio_path.clone(),
        events_path: l.events_path.clone(),
        ffmpeg_log_path: l.ffmpeg_log_path.clone(),
        ffmpeg_pid: Some(b.recorder_pid),
        started_at_iso: b.started_at_iso.to_owned(),
        started_at_epoch: b.started_at_epoch,
        screenshot_source_dir: b.screenshot_source_dir.to_owned(),
        audio_device: b.audio_device.to_owned(),
        engine: b.engine.to_owned(),
        clipboard_watcher_pid: None,
        transcription_watcher_pid: None,
        transcription_cursor_sec: Measure { bits: 0 },
        transcription_paused: false,
        transcription_pause_started_sec: None,
    }
}

/// Whether the transcription server is warmed up: where it will be needed, and there is a script.
pub fn wants_warmup(custom_cmd: Option<&str>, server_enabled: bool, script: &Option<String>) -> (r:
    bool)
    ensures
        r == (set_text(str_view(custom_cmd)) is None && server_enabled && *script is Some),
{
    let custom = match custom_cmd {
        Some(c) => !is_blank(c),
        None => false,
    };
    !custom && server_enabled && script.is_some()
}

/// The event of a session that begins.
pub fn session_started_event(ts: &str, session_id: &str, screenshot_source_dir: &str) -> (r: Json)
    ensures
        r@ == Tree::Object(
            object_of(
                seq![
                    ("ts"@, Tree::Text(ts@)),
                    ("type"@, Tree::Text("session_started"@)),
                    ("session_id"@, Tree::Text(session_id@)),
                    ("screenshot_source_dir"@, Tree::Text(screenshot_source_dir@)),
                ],
            ),
        ),
{
    let mut p = Pairs::new();
    p.text("ts", ts);
    p.text("type", "session_started");
    p.text("session_id", session_id);
    p.text("screenshot_source_dir", screenshot_source_dir);
    assert(p@ == seq![
        ("ts"@, Tree::Text(ts@)),
        ("type"@, Tree::Text("session_started"@)),
        ("session_id"@, Tree::Text(session_id@)),
        ("screenshot_source_dir"@, Tree::Text(screenshot_source_dir@)),
    ]);
    p.object()
}

/// The error where there is no recorder.
pub fn no_ffmpeg_error() -> (r: AppError)
    ensures
        r.code == 5,
        r.message@ == "ffmpeg is required but was not found in PATH."@,
{
    app_error(5, "ffmpeg is required but was not found in PATH.")
}

/// What is said of a session that would be started.
pub fn dry_start_text(
    session_id: &str,
    l: &Layout,
    screenshot_dir: &str,
    audio_device: &str,
) -> (r: String)
    ensures
        r@ == "[dry-run] Would create session directory and start ffmpeg audio capture."@
            + "\n[dry-run] Planned session "@
            + session_id@
            + "\nsession_dir: "@
            + l.session_dir@
            + "\naudio_path: "@
            + l.audio_path@
            + "\nscreenshot_source_dir: "@
            + screenshot_dir@
            + "\naudio_device: "@
            + audio_device@,
{
    let mut out = concat3(
        "[dry-run] Would create session directory and start ffmpeg audio capture.",
        "\n[dry-run] Planned session ",
        session_id,
    );
    out.append("\nsession_dir: ");
    out.append(l.session_dir.as_str());
    out.append("\naudio_path: ");
    out.append(l.audio_path.as_str());
    out.append("\nscreenshot_source_dir: ");
    out.append(screenshot_dir);
    out.append("\naudio_device: ");
    out.append(audio_device);
    out
}

/// What is reported of a session that would be started.
pub fn dry_start_report(
    session_id: &str,
    l: &Layout,
    screenshot_dir: &str,
    audio_device: &str,
) -> (r: Json)
    ensures
        r@ == Tree::Object(
            object_of(
                seq![
                    ("ok"@, Tree::Bool(true)),
                    ("action"@, Tree::Text("start"@)),
                    ("session_id"@, Tree::Text(session_id@)),
                    ("session_dir"@, Tree::Text(l.session_dir@)),
                    ("audio_path"@, Tree::Text(l.audio_path@)),
                    ("screenshot_source_dir"@, Tree::Text(screenshot_dir@)),
                    ("audio_device"@, Tree::Text(audio_device@)),
                    ("ffmpeg_pid"@, Tree::Null),
                    ("dry_run"@, Tree::Bool(true)),
                    ("state_saved"@, Tree::Bool(false)),
                ],
            ),
        ),
{
    let mut p = Pairs::new();
    p.flag("ok", true);
    p.text("action", "start");
    p.text("session_id", session_id);
    p.text("session_dir", l.session_dir.as_str());
    p.text("audio_path", l.audio_path.as_str());
    p.text("screenshot_source_dir", screenshot_dir);
    p.text("audio_device", audio_device);
    p.null("ffmpeg_pid");
    p.flag("dry_run", true);
    p.flag("state_saved", false);
    assert(p@ == seq![
        ("ok"@, Tree::Bool(true)),
        ("action"@, Tree::Text("start"@)),
        ("session_id"@, Tree::Text(session_id@)),
        ("session_dir"@, Tree::Text(l.session_dir@)),
        ("audio_path"@, Tree::Text(l.audio_path@)),
        ("screenshot_source_dir"@, Tree::Text(screenshot_dir@)),
        ("audio_device"@, Tree::Text(audio_device@)),
        ("ffmpeg_pid"@, Tree::Null),
        ("dry_run"@, Tree::Bool(true)),
        ("state_saved"@, Tree::Bool(false)),
    ]);
    p.object()
}

/// The names of the times that are measured while a session is started.
pub const START_PHASES: [&'static str; 15] = [
    "stale_state_cleanup_ms",
    "detect_screenshot_dir_ms",
    "resolve_audio_device_ms",
    "create_session_dir_ms",
    "write_session_started_event_ms",
    "ffmpeg_check_ms",
    "spawn_recorder_ms",
    "initial_state_save_ms",
    "clipboard_bootstrap_read_ms",
    "clipboard_watcher_spawn_ms",
    "clipboard_state_save_ms",
    "transcription_watcher_spawn_ms",
    "transcription_state_save_ms",
    "parakeet_server_warmup_ms",
    "watcher_setup_ms",
];

/// The record of how long it took to start a session.
pub fn start_perf_event(
    ts: &str,
    state: &SessionState,
    total_ms: &Number,
    phases: Json,
    audio_device_retry: bool,
    warmup_attempted: bool,
    warmup: Json,
) -> (r: Json)
    ensures
        r@ == Tree::Object(
            object_of(
                seq![
                    ("ts"@, Tree::Text(ts@)),
                    ("action"@, Tree::Text("start"@)),
                    ("session_id"@, Tree::Text(state.session_id@)),
                    ("total_ms"@, Tree::Number(total_ms@)),
                    ("phases"@, phases@),
                    ("audio_device_retry"@, Tree::Bool(audio_device_retry)),
                    ("transcription_watcher_spawned"@, Tree::Bool(state.transcription_watcher_pid is Some)),
                    ("transcription_watcher_pid"@, opt_pid_tree(state.transcription_watcher_pid)),
                    ("parakeet_server_warmup_attempted"@, Tree::Bool(warmup_attempted)),
                    ("parakeet_server_warmup"@, warmup@),
                ],
            ),
        ),
{
    let mut p = Pairs::new();
    p.text("ts", ts);
    p.text("action", "start");
    p.text("session_id", state.session_id.as_str());
    p.number("total_ms", total_ms);
    p.add("phases", phases);
    p.flag("audio_device_retry", audio_device_retry);
    p.add("transcription_watcher_spawned", Json::Bool(state.transcription_watcher_pid.is_some()));
    p.add("transcription_watcher_pid", opt_pid_json(state.transcription_watcher_pid));
    p.flag("parakeet_server_warmup_attempted", warmup_attempted);
    p.add("parakeet_server_warmup", warmup);
    assert(p@ == seq![
        ("ts"@, Tree::Text(ts@)),
        ("action"@, Tree::Text("start"@)),
        ("session_id"@, Tree::Text(state.session_id@)),
        ("total_ms"@, Tree::Number(total_ms@)),
        ("phases"@, phases@),
        ("audio_device_retry"@, Tree::Bool(audio_device_retry)),
        ("transcription_watcher_spawned"@, Tree::Bool(state.transcription_watcher_pid is Some)),
        ("transcription_watcher_pid"@, opt_pid_tree(state.transcription_watcher_pid)),
        ("parakeet_server_warmup_attempted"@, Tree::Bool(warmup_attempted)),
        ("parakeet_server_warmup"@, warmup@),
    ]);
    p.object()
}

/// How long it took to start a session, in milliseconds, as it is shown.
pub struct StartTimes<'a> {
    pub total: &'a str,
    pub spawn_recorder: &'a str,
    pub watcher_setup: &'a str,
    pub warmup: &'a str,
    pub audio_device: &'a str,
    pub screenshot_dir: &'a str,
}

/// What is said of a session that was started.
pub fn start_text(state: &SessionState, audio_device_retry: bool, t: &StartTimes) -> (r: String)
    ensures
        r@ == "Started session "@
            + state.session_id@
            + "\nsession_dir: "@
            + state.session_dir@
            + "\naudio_path: "@
            + state.audio_path@
            + "\nscreenshot_source_dir: "@
            + state.screenshot_source_dir@
            + "\naudio_device: "@
            + state.audio_device@
            + "\naudio_device_retry: "@
            + shown_bool(audio_device_retry)
            + "\nstartup_ms: "@
            + t.total@
            + "\nstartup_phase_ms: spawn_recorder="@
            + t.spawn_recorder@
            + " watcher_setup="@
            + t.watcher_setup@
            + " parakeet_server_warmup="@
            + t.warmup@
            + " audio_device="@
            + t.audio_device@
            + " screenshot_dir="@
            + t.screenshot_dir@,
{
    let mut out = concat3("Started session ", state.session_id.as_str(), "\nsession_dir: ");
    out.append(state.session_dir.as_str());
    out.append("\naudio_path: ");
    out.append(state.audio_path.as_str());
    out.append("\nscreenshot_source_dir: ");
    out.append(state.screenshot_source_dir.as_str());
    out.append("\naudio_device: ");
    out.append(state.audio_device.as_str());
    out.append("\naudio_device_retry: ");
    out.append(bool_word(audio_device_retry));
    out.append("\nstartup_ms: ");
    out.append(t.total);
    out.append("\nstartup_phase_ms: spawn_recorder=");
    out.append(t.spawn_recorder);
    out.append(" watcher_setup=");
    out.append(t.watcher_setup);
    out.append(" parakeet_server_warmup=");
    out.append(t.warmup);
    out.append(" audio_device=");
    out.append(t.audio_device);
    out.append(" screenshot_dir=");
    out.append(t.screenshot_dir);
    out
}

/// What is reported of a session that was started.
pub fn start_report(
    state: &SessionState,
    audio_device_retry: bool,
    startup_ms: &Number,
    phases: Json,
    warmup_attempted: bool,
    warmup: Json,
) -> (r: Json)
    ensures
        r@ == Tree::Object(
            object_of(
                seq![
                    ("ok"@, Tree::Bool(true)),
                    ("action"@, Tree::Text("start"@)),
                    ("session_id"@, Tree::Text(state.session_id@)),
                    ("session_dir"@, Tree::Text(state.session_dir@)),
                    ("audio_path"@, Tree::Text(state.audio_path@)),
                    ("screenshot_source_dir"@, Tree::Text(state.screenshot_source_dir@)),
                    ("audio_device"@, Tree::Text(state.audio_device@)),
                    ("audio_device_retry"@, Tree::Bool(audio_device_retry)),
                    ("ffmpeg_pid"@, opt_pid_tree(state.ffmpeg_pid)),
                    ("transcription_watcher_pid"@, opt_pid_tree(state.transcription_watcher_pid)),
                    ("startup_ms"@, Tree::Number(startup_ms@)),
                    ("phases"@, phases@),
                    ("parakeet_server_warmup_attempted"@, Tree::Bool(warmup_attempted)),
                    ("parakeet_server_warmup"@, warmup@),
                    ("dry_run"@, Tree::Bool(false)),
                    ("state_saved"@, Tree::Bool(true)),
                ],
            ),
        ),
{
    let mut p = Pairs::new();
    p.flag("ok", true);
    p.text("action", "start");
    p.text("session_id", state.session_id.as_str());
    p.text("session_dir", state.session_dir.as_str());
    p.text("audio_path", state.audio_path.as_str());
    p.text("screenshot_source_dir", state.screenshot_source_dir.as_str());
    p.text("audio_device", state.audio_device.as_str());
    p.flag("audio_device_retry", audio_device_retry);
    p.add("ffmpeg_pid", opt_pid_json(state.ffmpeg_pid));
    p.add("transcription_watcher_pid", opt_pid_json(state.transcription_watcher_pid));
    p.number("startup_ms", startup_ms);
    p.add("phases", phases);
    p.flag("parakeet_server_warmup_attempted", warmup_attempted);
    p.add("parakeet_server_warmup", warmup);
    p.flag("dry_run", false);
    p.flag("state_saved", true);
    assert(p@ == seq![
        ("ok"@, Tree::Bool(true)),
        ("action"@, Tree::Text("start"@)),
        ("session_id"@, Tree::Text(state.session_id@)),
        ("session_dir"@, Tree::Text(state.session_dir@)),
        ("audio_path"@, Tree::Text(state.audio_path@)),
        ("screenshot_source_dir"@, Tree::Text(state.screenshot_source_dir@)),
        ("audio_device"@, Tree::Text(state.audio_device@)),
        ("audio_device_retry"@, Tree::Bool(audio_device_retry)),
        ("ffmpeg_pid"@, opt_pid_tree(state.ffmpeg_pid)),
        ("transcription_watcher_pid"@, opt_pid_tree(state.transcription_watcher_pid)),
        ("startup_ms"@, Tree::Number(startup_ms@)),
        ("phases"@, phases@),
        ("parakeet_server_warmup_attempted"@, Tree::Bool(warmup_attempted)),
        ("parakeet_server_warmup"@, warmup@),
        ("dry_run"@, Tree::Bool(false)),
        ("state_saved"@, Tree::Bool(true)),
    ]);
    p.object()
}

// ---------------------------------------------------------------------------------------------
// Taking a screenshot
// ---------------------------------------------------------------------------------------------

/// A screenshot that is taken.
pub struct ShotTarget {
    pub shot_id: u64,
    pub dest_rel: String,
    pub dest_abs: String,
}

/// Where the next screenshot goes. `last_id` is the largest number so far.
pub fn next_shot(last_id: u64, screenshots_dir: &str) -> (r: ShotTarget)
    requires
        last_id < u64::MAX,
    ensures
        r.shot_id == last_id + 1,
        r.dest_rel@ == "screenshots/"@ + (shot_stem((last_id + 1) as nat) + ".png"@),
        r.dest_abs@ == joined_path(
            screenshots_dir@,
            shot_stem((last_id + 1) as nat) + ".png"@,
        ),
{
    let shot_id: u64 = last_id + 1;
    let name = concat(shot_base(shot_id).as_str(), ".png");
    ShotTarget {
        shot_id,
        dest_rel: concat("screenshots/", name.as_str()),
        dest_abs: join_path(screenshots_dir, name.as_str()),
    }
}

/// How the tool that takes screenshots ended.
pub enum CaptureEnd {
    /// It could not be run.
    NotRun(String),
    /// It failed: its exit code, and its status as it is shown.
    Failed(Option<i32>, String),
    /// It succeeded, and whether there is a file.
    Done(bool),
}

/// What comes of taking a screenshot.
pub fn capture_result(end: &CaptureEnd, dest_abs: &str) -> (r: Result<(), AppError>)
    ensures
        r is Ok <==> *end == CaptureEnd::Done(true),
        r matches Err(e) ==> match *end {
            CaptureEnd::NotRun(m) => e.code == 1 && e.message@ == "Failed to run screencapture: "@
                + m@,
            CaptureEnd::Failed(code, status) => if code == Some(1i32) {
                e.code == 9 && e.message@ == "Screenshot canceled."@
            } else {
                e.code == 1 && e.message@ == "screencapture failed with status: "@ + status@
            },
            CaptureEnd::Done(_) => e.code == 1 && e.message@
                == "Screenshot did not produce file: "@ + dest_abs@,
        },
{
    match end {
        CaptureEnd::NotRun(m) => Err(
            app_error(1, concat("Failed to run screencapture: ", m.as_str()).as_str()),
        ),
        CaptureEnd::Failed(code, status) => {
            let canceled = match code {
                Some(c) => *c == 1,
                None => false,
            };
            if canceled {
                Err(app_error(9, "Screenshot canceled."))
            } else {
                Err(
                    app_error(
                        1,
                        concat("screencapture failed with status: ", status.as_str()).as_str(),
                    ),
                )
            }
        },
        CaptureEnd::Done(there) => if *there {
            Ok(())
        } else {
            Err(app_error(1, concat("Screenshot did not produce file: ", dest_abs).as_str()))
        },
    }
}

fn opt_string_json(s: &Option<String>) -> (r: Json)
    ensures
        r@ == opt_text_tree(opt_view(*s)),
{
    match s {
        Some(t) => Json::text(t.as_str()),
        None => Json::Null,
    }
}

/// What is kept of the application in front.
pub open spec fn app_tree(m: FrontmostAppMeta) -> Tree {
    Tree::Object(
        object_of(
            seq![
                ("name"@, Tree::Text(m.name@)),
                ("bundle_id"@, opt_text_tree(opt_view(m.bundle_id))),
                ("pid"@, opt_pid_tree(m.pid)),
                ("window_title"@, opt_text_tree(opt_view(m.window_title))),
            ],
        ),
    )
}

/// What is kept of the application in front.
pub fn app_payload(m: &FrontmostAppMeta) -> (r: Json)
    ensures
        r@ == app_tree(*m),
{
    let mut p = Pairs::new();
    p.text("name", m.name.as_str());
    p.add("bundle_id", opt_string_json(&m.bundle_id));
    p.add("pid", opt_pid_json(m.pid));
    p.add("window_title", opt_string_json(&m.window_title));
    assert(p@ == seq![
        ("name"@, Tree::Text(m.name@)),
        ("bundle_id"@, opt_text_tree(opt_view(m.bundle_id))),
        ("pid"@, opt_pid_tree(m.pid)),
        ("window_title"@, opt_text_tree(opt_view(m.window_title))),
    ]);
    p.object()
}

/// What is kept of the process of the application in front.
pub open spec fn process_tree(m: ProcessStats) -> Tree {
    Tree::Object(
        object_of(
            seq![
                ("cpu_percent"@, Tree::Number(m.cpu_percent@)),
                ("mem_percent"@, Tree::Number(m.mem_percent@)),
                ("rss_kb"@, count_tree(m.rss_kb as nat)),
                ("elapsed"@, opt_text_tree(opt_view(m.elapsed))),
                ("state"@, opt_text_tree(opt_view(m.state))),
                ("command"@, opt_text_tree(opt_view(m.command))),
            ],
        ),
    )
}

/// What is kept of the process of the application in front.
pub fn process_payload(m: &ProcessStats) -> (r: Json)
    ensures
        r@ == process_tree(*m),
{
    let mut p = Pairs::new();
    p.add("cpu_percent", Json::Number(m.cpu_percent.copy()));
    p.add("mem_percent", Json::Number(m.mem_percent.copy()));
    p.count("rss_kb", m.rss_kb as u64);
    p.add("elapsed", opt_string_json(&m.elapsed));
    p.add("state", opt_string_json(&m.state));
    p.add("command", opt_string_json(&m.command));
    assert(p@ == seq![
        ("cpu_percent"@, Tree::Number(m.cpu_percent@)),
        ("mem_percent"@, Tree::Number(m.mem_percent@)),
        ("rss_kb"@, count_tree(m.rss_kb as nat)),
        ("elapsed"@, opt_text_tree(opt_view(m.elapsed))),
        ("state"@, opt_text_tree(opt_view(m.state))),
        ("command"@, opt_text_tree(opt_view(m.command))),
    ]);
    p.object()
}

/// What was in front when a screenshot was taken: what is kept of it, or why nothing is.
pub struct ShotContext {
    pub app: Json,
    pub app_capture_error: Option<String>,
    pub process: Json,
    pub process_capture_error: Option<String>,
}

/// The process that is looked at: that of the application in front.
pub open spec fn app_pid(app: Result<FrontmostAppMeta, String>) -> Option<i32> {
    match app {
        Ok(m) => m.pid,
        Err(_) => None,
    }
}

/// What is kept of what was in front. A process is looked at only where its id is known.
pub fn shot_context(
    app: &Result<FrontmostAppMeta, String>,
    process: &Option<Result<ProcessStats, String>>,
) -> (r: ShotContext)
    ensures
        match *app {
            Ok(m) => r.app@ == app_tree(m) && r.app_capture_error is None,
            Err(e) => r.app@ == Tree::Null && opt_view(r.app_capture_error) == Some(e@),
        },
        match (app_pid(*app), *process) {
            (Some(_), Some(Ok(m))) => r.process@ == process_tree(m)
                && r.process_capture_error is None,
            (Some(_), Some(Err(e))) => r.process@ == Tree::Null && opt_view(
                r.process_capture_error,
            ) == Some(e@),
            _ => r.process@ == Tree::Null && opt_view(r.process_capture_error) == Some(
                "app_pid_unavailable"@,
            ),
        },
{
    let (kept, app_capture_error, pid): (Json, Option<String>, Option<i32>) = match app {
        Ok(m) => (app_payload(m), None, m.pid),
        Err(e) => (Json::Null, Some(e.clone()), None),
    };
    let (stats, process_capture_error): (Json, Option<String>) = match (pid, process) {
        (Some(_), Some(Ok(m))) => (process_payload(m), None),
        (Some(_), Some(Err(e))) => (Json::Null, Some(e.clone())),
        _ => (Json::Null, Some("app_pid_unavailable".to_owned())),
    };
    ShotContext { app: kept, app_capture_error, process: stats, process_capture_error }
}

/// What the event of a screenshot that was taken says.
pub open spec fn taken_pairs(
    ts: Seq<char>,
    t: ShotTarget,
    audio_sec: NumberView,
    mtime_epoch: NumberView,
    c: ShotContext,
) -> Seq<(Seq<char>, Tree)> {
    seq![
        ("ts"@, Tree::Text(ts)),
        ("type"@, Tree::Text("screenshot_taken"@)),
        ("id"@, count_tree(t.shot_id as nat)),
        ("dest"@, Tree::Text(t.dest_rel@)),
        ("dest_abs"@, Tree::Text(t.dest_abs@)),
        ("audioSec"@, Tree::Number(audio_sec)),
        ("mtime_epoch"@, Tree::Number(mtime_epoch)),
        ("method"@, Tree::Text("direct_screencapture"@)),
        ("app"@, c.app@),
        ("app_capture_error"@, opt_text_tree(opt_view(c.app_capture_error))),
        ("process"@, c.process@),
        ("process_capture_error"@, opt_text_tree(opt_view(c.process_capture_error))),
    ]
}

/// A screenshot that was taken is read back from its event: with its number, its file, its time,
/// and why nothing is known of what was in front, where nothing is.
pub proof fn taken_shots_read_back(
    ts: Seq<char>,
    t: ShotTarget,
    audio_sec: NumberView,
    mtime_epoch: NumberView,
    c: ShotContext,
)
    ensures
        ({
            let event = Tree::Object(object_of(taken_pairs(ts, t, audio_sec, mtime_epoch, c)));
            &&& field(event, "app"@) == Some(c.app@)
            &&& field(event, "process"@) == Some(c.process@)
            &&& shot_of(event) matches Some(s) && s.shot_id == t.shot_id && s.dest_rel_path
                == t.dest_rel@ && s.audio_sec == quantity_of(audio_sec) && s.app_capture_error == opt_view(
                c.app_capture_error,
            ) && s.proc_capture_error == opt_view(c.process_capture_error)
        }),
{
    let pairs = taken_pairs(ts, t, audio_sec, mtime_epoch, c);
    reveal_strlit("ts");
    assert("ts"@.len() == 2);
    reveal_strlit("type");
    assert("type"@.len() == 4);
    reveal_strlit("id");
    assert("id"@.len() == 2);
    reveal_strlit("dest");
    assert("dest"@.len() == 4);
    reveal_strlit("dest_abs");
    assert("dest_abs"@.len() == 8);
    reveal_strlit("audioSec");
    assert("audioSec"@.len() == 8);
    reveal_strlit("mtime_epoch");
    assert("mtime_epoch"@.len() == 11);
    reveal_strlit("method");
    assert("method"@.len() == 6);
    reveal_strlit("app");
    assert("app"@.len() == 3);
    reveal_strlit("app_capture_error");
    assert("app_capture_error"@.len() == 17);
    reveal_strlit("process");
    assert("process"@.len() == 7);
    reveal_strlit("process_capture_error");
    assert("process_capture_error"@.len() == 21);
    assert("id"@[0] == 'i' && "ts"@[0] == 't');
    assert("type"@[0] == 't' && "dest"@[0] == 'd');
    assert("dest_abs"@[0] == 'd' && "audioSec"@[0] == 'a');
    pairs_read_back(pairs, 1);
    pairs_read_back(pairs, 2);
    pairs_read_back(pairs, 3);
    pairs_read_back(pairs, 5);
    pairs_read_back(pairs, 8);
    pairs_read_back(pairs, 9);
    pairs_read_back(pairs, 10);
    pairs_read_back(pairs, 11);
}

/// What was in front of a screenshot is read back from its event: the application and its process.
pub proof fn fronts_read_back(
    ts: Seq<char>,
    t: ShotTarget,
    audio_sec: NumberView,
    mtime_epoch: NumberView,
    c: ShotContext,
    app: FrontmostAppMeta,
    process: ProcessStats,
)
    requires
        c.app@ == app_tree(app),
        c.process@ == process_tree(process),
    ensures
        shot_of(Tree::Object(object_of(taken_pairs(ts, t, audio_sec, mtime_epoch, c)))) matches Some(
            s,
        ) && s.app_name == Some(app.name@) && s.app_bundle_id == opt_view(app.bundle_id)
            && s.app_pid == app.pid && s.window_title == opt_view(app.window_title)
            && s.proc_cpu_percent == Some(process.cpu_percent@) && s.proc_mem_percent == Some(
            process.mem_percent@,
        ) && s.proc_rss_kb == Some(process.rss_kb) && s.proc_elapsed == opt_view(process.elapsed)
            && s.proc_state == opt_view(process.state) && s.proc_command == opt_view(
            process.command,
        ),
{
    taken_shots_read_back(ts, t, audio_sec, mtime_epoch, c);
    lemma_app_fields(app);
    lemma_process_fields(process);
}

proof fn lemma_app_fields(m: FrontmostAppMeta)
    ensures
        field(app_tree(m), "name"@) == Some(Tree::Text(m.name@)),
        field(app_tree(m), "bundle_id"@) == Some(opt_text_tree(opt_view(m.bundle_id))),
        field(app_tree(m), "pid"@) == Some(opt_pid_tree(m.pid)),
        field(app_tree(m), "window_title"@) == Some(opt_text_tree(opt_view(m.window_title))),
{
    let pairs = seq![
        ("name"@, Tree::Text(m.name@)),
        ("bundle_id"@, opt_text_tree(opt_view(m.bundle_id))),
        ("pid"@, opt_pid_tree(m.pid)),
        ("window_title"@, opt_text_tree(opt_view(m.window_title))),
    ];
    reveal_strlit("name");
    assert("name"@.len() == 4);
    reveal_strlit("bundle_id");
    assert("bundle_id"@.len() == 9);
    reveal_strlit("pid");
    assert("pid"@.len() == 3);
    reveal_strlit("window_title");
    assert("window_title"@.len() == 12);
    pairs_read_back(pairs, 0);
    pairs_read_back(pairs, 1);
    pairs_read_back(pairs, 2);
    pairs_read_back(pairs, 3);
}

proof fn lemma_process_fields(m: ProcessStats)
    ensures
        field(process_tree(m), "cpu_percent"@) == Some(Tree::Number(m.cpu_percent@)),
        field(process_tree(m), "mem_percent"@) == Some(Tree::Number(m.mem_percent@)),
        field(process_tree(m), "rss_kb"@) == Some(count_tree(m.rss_kb as nat)),
        field(process_tree(m), "elapsed"@) == Some(opt_text_tree(opt_view(m.elapsed))),
        field(process_tree(m), "state"@) == Some(opt_text_tree(opt_view(m.state))),
        field(process_tree(m), "command"@) == Some(opt_text_tree(opt_view(m.command))),
{
    let pairs = seq![
        ("cpu_percent"@, Tree::Number(m.cpu_percent@)),
        ("mem_percent"@, Tree::Number(m.mem_percent@)),
        ("rss_kb"@, count_tree(m.rss_kb as nat)),
        ("elapsed"@, opt_text_tree(opt_view(m.elapsed))),
        ("state"@, opt_text_tree(opt_view(m.state))),
        ("command"@, opt_text_tree(opt_view(m.command))),
    ];
    reveal_strlit("cpu_percent");
    assert("cpu_percent"@.len() == 11);
    reveal_strlit("mem_percent");
    assert("mem_percent"@.len() == 11);
    reveal_strlit("rss_kb");
    assert("rss_kb"@.len() == 6);
    reveal_strlit("elapsed");
    assert("elapsed"@.len() == 7);
    reveal_strlit("state");
    assert("state"@.len() == 5);
    reveal_strlit("command");
    assert("command"@.len() == 7);
    assert("cpu_percent"@[0] == 'c' && "mem_percent"@[0] == 'm');
    assert("elapsed"@[0] == 'e' && "command"@[0] == 'c');
    pairs_read_back(pairs, 0);
    pairs_read_back(pairs, 1);
    pairs_read_back(pairs, 2);
    pairs_read_back(pairs, 3);
    pairs_read_back(pairs, 4);
    pairs_read_back(pairs, 5);
}

/// The event of a screenshot that was taken. The seconds are rounded to milliseconds.
pub fn screenshot_taken_event(
    ts: &str,
    t: &ShotTarget,
    audio_sec: &Number,
    mtime_epoch: &Number,
    c: &ShotContext,
) -> (r: Json)
    ensures
        r@ == Tree::Object(object_of(taken_pairs(ts@, *t, audio_sec@, mtime_epoch@, *c))),
{
    let mut p = Pairs::new();
    p.text("ts", ts);
    p.text("type", "screenshot_taken");
    p.count("id", t.shot_id as u64);
    p.text("dest", t.dest_rel.as_str());
    p.text("dest_abs", t.dest_abs.as_str());
    p.number("audioSec", audio_sec);
    p.number("mtime_epoch", mtime_epoch);
    p.text("method", "direct_screencapture");
    p.add("app", c.app.copy());
    p.add("app_capture_error", opt_string_json(&c.app_capture_error));
    p.add("process", c.process.copy());
    p.add("process_capture_error", opt_string_json(&c.process_capture_error));
    assert(p@ == taken_pairs(ts@, *t, audio_sec@, mtime_epoch@, *c));
    p.object()
}

/// What is said of a screenshot that was taken.
pub fn shot_text(t: &ShotTarget) -> (r: String)
    ensures
        r@ == "Captured screenshot "@
            + decimal(t.shot_id as nat)
            + "\npath: "@
            + t.dest_abs@,
{
    let mut out = concat3("Captured screenshot ", decimal_text(t.shot_id as u64).as_str(), "\npath: ");
    out.append(t.dest_abs.as_str());
    out
}

/// What is said of a screenshot that would be taken.
pub fn dry_shot_text(t: &ShotTarget) -> (r: String)
    ensures
        r@ == "[dry-run] Would capture screenshot to "@
            + t.dest_abs@,
{
    concat("[dry-run] Would capture screenshot to ", t.dest_abs.as_str())
}

/// What is reported of a screenshot that would be taken.
pub fn dry_shot_report(session_id: &str, t: &ShotTarget) -> (r: Json)
    ensures
        r@ == Tree::Object(
            object_of(
                seq![
                    ("ok"@, Tree::Bool(true)),
                    ("action"@, Tree::Text("shot"@)),
                    ("session_id"@, Tree::Text(session_id@)),
                    ("id"@, count_tree(t.shot_id as nat)),
                    ("dest"@, Tree::Text(t.dest_abs@)),
                    ("dry_run"@, Tree::Bool(true)),
                ],
            ),
        ),
{
    let mut p = Pairs::new();
    p.flag("ok", true);
    p.text("action", "shot");
    p.text("session_id", session_id);
    p.count("id", t.shot_id as u64);
    p.text("dest", t.dest_abs.as_str());
    p.flag("dry_run", true);
    assert(p@ == seq![
        ("ok"@, Tree::Bool(true)),
        ("action"@, Tree::Text("shot"@)),
        ("session_id"@, Tree::Text(session_id@)),
        ("id"@, count_tree(t.shot_id as nat)),
        ("dest"@, Tree::Text(t.dest_abs@)),
        ("dry_run"@, Tree::Bool(true)),
    ]);
    p.object()
}

/// What is reported of a screenshot that was taken.
pub fn shot_report(
    session_id: &str,
    t: &ShotTarget,
    audio_sec: &Number,
    c: &ShotContext,
) -> (r: Json)
    ensures
        r@ == Tree::Object(
            object_of(
                seq![
                    ("ok"@, Tree::Bool(true)),
                    ("action"@, Tree::Text("shot"@)),
                    ("session_id"@, Tree::Text(session_id@)),
                    ("id"@, count_tree(t.shot_id as nat)),
                    ("dest"@, Tree::Text(t.dest_abs@)),
                    ("dest_rel"@, Tree::Text(t.dest_rel@)),
                    ("audioSec"@, Tree::Number(audio_sec@)),
                    ("app"@, c.app@),
                    ("app_capture_error"@, opt_text_tree(opt_view(c.app_capture_error))),
                    ("process"@, c.process@),
                    ("process_capture_error"@, opt_text_tree(opt_view(c.process_capture_error))),
                    ("dry_run"@, Tree::Bool(false)),
                ],
            ),
        ),
{
    let mut p = Pairs::new();
    p.flag("ok", true);
    p.text("action", "shot");
    p.text("session_id", session_id);
    p.count("id", t.shot_id as u64);
    p.text("dest", t.dest_abs.as_str());
    p.text("dest_rel", t.dest_rel.as_str());
    p.number("audioSec", audio_sec);
    p.add("app", c.app.copy());
    p.add("app_capture_error", opt_string_json(&c.app_capture_error));
    p.add("process", c.process.copy());
    p.add("process_capture_error", opt_string_json(&c.process_capture_error));
    p.flag("dry_run", false);
    assert(p@ == seq![
        ("ok"@, Tree::Bool(true)),
        ("action"@, Tree::Text("shot"@)),
        ("session_id"@, Tree::Text(session_id@)),
        ("id"@, count_tree(t.shot_id as nat)),
        ("dest"@, Tree::Text(t.dest_abs@)),
        ("dest_rel"@, Tree::Text(t.dest_rel@)),
        ("audioSec"@, Tree::Number(audio_sec@)),
        ("app"@, c.app@),
        ("app_capture_error"@, opt_text_tree(opt_view(c.app_capture_error))),
        ("process"@, c.process@),
        ("process_capture_error"@, opt_text_tree(opt_view(c.process_capture_error))),
        ("dry_run"@, Tree::Bool(false)),
    ]);
    p.object()
}

// ---------------------------------------------------------------------------------------------
// Chunks
// ---------------------------------------------------------------------------------------------

/// What is said of a chunk that would be transcribed. The seconds have three decimals.
pub fn dry_chunk_text(start_sec: &str, end_sec: &str) -> (r: String)
    ensures
        r@ == "[dry-run] Would transcribe chunk from "@
            + start_sec@
            + "s to "@
            + end_sec@
            + "s"@,
{
    let mut out = concat3("[dry-run] Would transcribe chunk from ", start_sec, "s to ");
    out.append(end_sec);
    out.append("s");
    out
}

/// What is reported of a chunk that would be transcribed.
pub fn dry_chunk_report(session_id: &str, start_sec: &Number, end_sec: &Number) -> (r: Json)
    ensures
        r@ == Tree::Object(
            object_of(
                seq![
                    ("ok"@, Tree::Bool(true)),
                    ("action"@, Tree::Text("chunk"@)),
                    ("session_id"@, Tree::Text(session_id@)),
                    ("start_sec"@, Tree::Number(start_sec@)),
                    ("end_sec"@, Tree::Number(end_sec@)),
                    ("dry_run"@, Tree::Bool(true)),
                ],
            ),
        ),
{
    let mut p = Pairs::new();
    p.flag("ok", true);
    p.text("action", "chunk");
    p.text("session_id", session_id);
    p.number("start_sec", start_sec);
    p.number("end_sec", end_sec);
    p.flag("dry_run", true);
    assert(p@ == seq![
        ("ok"@, Tree::Bool(true)),
        ("action"@, Tree::Text("chunk"@)),
        ("session_id"@, Tree::Text(session_id@)),
        ("start_sec"@, Tree::Number(start_sec@)),
        ("end_sec"@, Tree::Number(end_sec@)),
        ("dry_run"@, Tree::Bool(true)),
    ]);
    p.object()
}

/// What is said of a chunk.
pub open spec fn chunk_line_of(result: Tree, start: Seq<char>, end: Seq<char>) -> Seq<char> {
    "Chunk "@ + decimal(
        match crate::json::unsigned_of(crate::json::field(result, "chunk_id"@)) {
            Some(n) => n as nat,
            None => 0,
        },
    ) + " ["@ + (match text_field(result, "status"@) {
        Some(s) => s,
        None => "unknown"@,
    }) + "]: "@ + start + "s -> "@ + end + "s ("@ + decimal(
        match crate::json::unsigned_of(crate::json::field(result, "words"@)) {
            Some(n) => n as nat,
            None => 0,
        },
    ) + " words)"@
}

/// What is said of a chunk. The seconds have three decimals.
pub fn chunk_text(result: &Json, start_sec: &str, end_sec: &str) -> (r: String)
    ensures
        r@ == chunk_line_of(result@, start_sec@, end_sec@),
{
    let id: u64 = match result.get_u64("chunk_id") {
        Some(n) => n,
        None => 0,
    };
    let count: u64 = match result.get_u64("words") {
        Some(n) => n,
        None => 0,
    };
    let status: &str = match result.get_text("status") {
        Some(s) => s.as_str(),
        None => "unknown",
    };
    let mut out = concat3("Chunk ", decimal_text(id).as_str(), " [");
    out.append(status);
    out.append("]: ");
    out.append(start_sec);
    out.append("s -> ");
    out.append(end_sec);
    out.append("s (");
    out.append(decimal_text(count).as_str());
    out.append(" words)");
    out
}

/// What is reported of a chunk.
pub fn chunk_report(session_id: &str, chunk: Json) -> (r: Json)
    ensures
        r@ == Tree::Object(
            object_of(
                seq![
                    ("ok"@, Tree::Bool(true)),
                    ("action"@, Tree::Text("chunk"@)),
                    ("session_id"@, Tree::Text(session_id@)),
                    ("chunk"@, chunk@),
                ],
            ),
        ),
{
    let mut p = Pairs::new();
    p.flag("ok", true);
    p.text("action", "chunk");
    p.text("session_id", session_id);
    p.add("chunk", chunk);
    assert(p@ == seq![
        ("ok"@, Tree::Bool(true)),
        ("action"@, Tree::Text("chunk"@)),
        ("session_id"@, Tree::Text(session_id@)),
        ("chunk"@, chunk@),
    ]);
    p.object()
}

// ---------------------------------------------------------------------------------------------
// Pausing
// ---------------------------------------------------------------------------------------------

/// What is done where a session is to be paused, or to go on.
#[derive(PartialEq, Eq, Structural, Clone, Copy, Debug)]
pub enum PauseStep {
    /// Nothing: it is so already.
    Already,
    /// It cannot be done: there is no recorder.
    NoRecorder,
    /// It cannot be done: the recorder does not live.
    RecorderGone(i32),
    /// The recorder is signalled.
    Signal(i32),
}

/// What is done where a session is to be paused (`pause`), or to go on.
pub fn pause_step(state: &SessionState, pause: bool, recorder_alive: bool) -> (r: PauseStep)
    ensures
        r == if state.transcription_paused == pause {
            PauseStep::Already
        } else {
            match state.ffmpeg_pid {
                None => PauseStep::NoRecorder,
                Some(pid) => if recorder_alive {
                    PauseStep::Signal(pid)
                } else {
                    PauseStep::RecorderGone(pid)
                },
            }
        },
{
    if state.transcription_paused == pause {
        return PauseStep::Already;
    }
    match state.ffmpeg_pid {
        None => PauseStep::NoRecorder,
        Some(pid) => if recorder_alive {
            PauseStep::Signal(pid)
        } else {
            PauseStep::RecorderGone(pid)
        },
    }
}

/// The word for what is to be done.
pub open spec fn pause_word(pause: bool) -> Seq<char> {
    if pause {
        "pause"@
    } else {
        "unpause"@
    }
}

/// The error where a session cannot be paused, or cannot go on.
pub fn pause_error(step: PauseStep, pause: bool) -> (r: Option<AppError>)
    ensures
        match step {
            PauseStep::NoRecorder => r matches Some(e) && e.code == 1 && e.message@
                == "Active session has no recorder pid; cannot "@ + pause_word(pause) + "."@,
            PauseStep::RecorderGone(pid) => r matches Some(e) && e.code == 1 && e.message@
                == "Recorder pid="@ + signed_decimal(pid as int) + " is not alive; cannot "@
                + pause_word(pause) + "."@,
            _ => r is None,
        },
{
    let word: &str = if pause {
        "pause"
    } else {
        "unpause"
    };
    match step {
        PauseStep::NoRecorder => Some(
            app_error(
                1,
                concat3("Active session has no recorder pid; cannot ", word, ".").as_str(),
            ),
        ),
        PauseStep::RecorderGone(pid) => {
            let mut m = concat3(
                "Recorder pid=",
                signed_text(pid as i64).as_str(),
                " is not alive; cannot ",
            );
            m.append(word);
            m.append(".");
            Some(app_error(1, m.as_str()))
        },
        _ => None,
    }
}

/// Pauses a session, at this time.
pub fn pause(state: &mut SessionState, now_epoch: Measure)
    ensures
        *final(state) == (SessionState {
            transcription_paused: true,
            transcription_pause_started_sec: Some(now_epoch),
            ..*old(state)
        }),
{
    state.transcription_paused = true;
    state.transcription_pause_started_sec = Some(now_epoch);
}

/// Lets a session go on.
pub fn unpause(state: &mut SessionState)
    ensures
        *final(state) == (SessionState {
            transcription_paused: false,
            transcription_pause_started_sec: None,
            ..*old(state)
        }),
{
    state.transcription_paused = false;
    state.transcription_pause_started_sec = None;
}

/// A session that was paused and goes on is as it was before.
pub proof fn unpausing_undoes_pausing(before: SessionState, now_epoch: Measure)
    requires
        !before.transcription_paused,
        before.transcription_pause_started_sec is None,
    ensures
        ({
            let paused = SessionState {
                transcription_paused: true,
                transcription_pause_started_sec: Some(now_epoch),
                ..before
            };
            let after = SessionState {
                transcription_paused: false,
                transcription_pause_started_sec: None,
                ..paused
            };
            after == before
        }),
{
}

/// Whether a session is to be paused where its pause is toggled.
pub fn toggle_pauses(state: &Option<SessionState>) -> (r: bool)
    ensures
        r == !(*state matches Some(s) && s.transcription_paused),
{
    match state {
        Some(s) => !s.transcription_paused,
        None => true,
    }
}

/// What is reported where a session is paused already.
pub fn already_paused_report(session_id: &str) -> (r: Json)
    ensures
        r@ == Tree::Object(
            object_of(
                seq![
                    ("ok"@, Tree::Bool(true)),
                    ("action"@, Tree::Text("pause"@)),
                    ("session_id"@, Tree::Text(session_id@)),
                    ("already_paused"@, Tree::Bool(true)),
                ],
            ),
        ),
{
    let mut p = Pairs::new();
    p.flag("ok", true);
    p.text("action", "pause");
    p.text("session_id", session_id);
    p.flag("already_paused", true);
    assert(p@ == seq![
        ("ok"@, Tree::Bool(true)),
        ("action"@, Tree::Text("pause"@)),
        ("session_id"@, Tree::Text(session_id@)),
        ("already_paused"@, Tree::Bool(true)),
    ]);
    p.object()
}

/// What is reported where a session is not paused.
pub fn not_paused_report(session_id: &str) -> (r: Json)
    ensures
        r@ == Tree::Object(
            object_of(
                seq![
                    ("ok"@, Tree::Bool(true)),
                    ("action"@, Tree::Text("unpause"@)),
                    ("session_id"@, Tree::Text(session_id@)),
                    ("was_paused"@, Tree::Bool(false)),
                ],
            ),
        ),
{
    let mut p = Pairs::new();
    p.flag("ok", true);
    p.text("action", "unpause");
    p.text("session_id", session_id);
    p.flag("was_paused", false);
    assert(p@ == seq![
        ("ok"@, Tree::Bool(true)),
        ("action"@, Tree::Text("unpause"@)),
        ("session_id"@, Tree::Text(session_id@)),
        ("was_paused"@, Tree::Bool(false)),
    ]);
    p.object()
}

/// What is said of what would be transcribed when a session is paused.
pub fn dry_flush(start_sec: &Number, end_sec: &Number) -> (r: Json)
    ensures
        r@ == Tree::Object(
            object_of(
                seq![
                    ("status"@, Tree::Text("dry_run"@)),
                    ("start_sec"@, Tree::Number(start_sec@)),
                    ("end_sec"@, Tree::Number(end_sec@)),
                ],
            ),
        ),
{
    let mut p = Pairs::new();
    p.text("status", "dry_run");
    p.number("start_sec", start_sec);
    p.number("end_sec", end_sec);
    assert(p@ == seq![
        ("status"@, Tree::Text("dry_run"@)),
        ("start_sec"@, Tree::Number(start_sec@)),
        ("end_sec"@, Tree::Number(end_sec@)),
    ]);
    p.object()
}

/// The event of a session that is paused. The seconds are rounded to milliseconds.
pub fn session_paused_event(
    ts: &str,
    session_id: &str,
    audio_sec: &Number,
    cursor_sec: &Number,
    recorder_pid: i32,
    paused_at_epoch: &Number,
) -> (r: Json)
    ensures
        r@ == Tree::Object(
            object_of(
                seq![
                    ("ts"@, Tree::Text(ts@)),
                    ("type"@, Tree::Text("session_paused"@)),
                    ("session_id"@, Tree::Text(session_id@)),
                    ("audioSec"@, Tree::Number(audio_sec@)),
                    ("cursor_sec"@, Tree::Number(cursor_sec@)),
                    ("ffmpeg_pid"@, int_tree(recorder_pid as int)),
                    ("paused_at_epoch"@, Tree::Number(paused_at_epoch@)),
                ],
            ),
        ),
{
    let mut p = Pairs::new();
    p.text("ts", ts);
    p.text("type", "session_paused");
    p.text("session_id", session_id);
    p.number("audioSec", audio_sec);
    p.number("cursor_sec", cursor_sec);
    p.add("ffmpeg_pid", int_json(recorder_pid as i64));
    p.number("paused_at_epoch", paused_at_epoch);
    assert(p@ == seq![
        ("ts"@, Tree::Text(ts@)),
        ("type"@, Tree::Text("session_paused"@)),
        ("session_id"@, Tree::Text(session_id@)),
        ("audioSec"@, Tree::Number(audio_sec@)),
        ("cursor_sec"@, Tree::Number(cursor_sec@)),
        ("ffmpeg_pid"@, int_tree(recorder_pid as int)),
        ("paused_at_epoch"@, Tree::Number(paused_at_epoch@)),
    ]);
    p.object()
}

/// The event of a session that goes on. The seconds are rounded to milliseconds.
pub fn session_unpaused_event(
    ts: &str,
    session_id: &str,
    audio_sec: &Number,
    paused_sec: &Number,
    cursor_sec: &Number,
    recorder_pid: i32,
) -> (r: Json)
    ensures
        r@ == Tree::Object(
            object_of(
                seq![
                    ("ts"@, Tree::Text(ts@)),
                    ("type"@, Tree::Text("session_unpaused"@)),
                    ("session_id"@, Tree::Text(session_id@)),
                    ("audioSec"@, Tree::Number(audio_sec@)),
                    ("paused_sec"@, Tree::Number(paused_sec@)),
                    ("cursor_sec"@, Tree::Number(cursor_sec@)),
                    ("ffmpeg_pid"@, int_tree(recorder_pid as int)),
                ],
            ),
        ),
{
    let mut p = Pairs::new();
    p.text("ts", ts);
    p.text("type", "session_unpaused");
    p.text("session_id", session_id);
    p.number("audioSec", audio_sec);
    p.number("paused_sec", paused_sec);
    p.number("cursor_sec", cursor_sec);
    p.add("ffmpeg_pid", int_json(recorder_pid as i64));
    assert(p@ == seq![
        ("ts"@, Tree::Text(ts@)),
        ("type"@, Tree::Text("session_unpaused"@)),
        ("session_id"@, Tree::Text(session_id@)),
        ("audioSec"@, Tree::Number(audio_sec@)),
        ("paused_sec"@, Tree::Number(paused_sec@)),
        ("cursor_sec"@, Tree::Number(cursor_sec@)),
        ("ffmpeg_pid"@, int_tree(recorder_pid as int)),
    ]);
    p.object()
}

/// What is said of a session that was paused. The seconds have three decimals.
pub fn pause_text(pause_at: &str, cursor: &str) -> (r: String)
    ensures
        r@ == "Paused recording at "@
            + pause_at@
            + "s (cursor "@
            + cursor@
            + "s)"@,
{
    let mut out = concat3("Paused recording at ", pause_at, "s (cursor ");
    out.append(cursor);
    out.append("s)");
    out
}

/// What is said of a session that goes on. The seconds have three decimals.
pub fn unpause_text(unpause_at: &str, paused: &str) -> (r: String)
    ensures
        r@ == "Resumed recording at "@
            + unpause_at@
            + "s (paused "@
            + paused@
            + "s wall-clock)"@,
{
    let mut out = concat3("Resumed recording at ", unpause_at, "s (paused ");
    out.append(paused);
    out.append("s wall-clock)");
    out
}

/// What is reported of a session that was paused.
pub fn pause_report(
    session_id: &str,
    pause_at_sec: &Number,
    cursor_sec: &Number,
    recorder_pid: i32,
    flush: Json,
    dry_run: bool,
) -> (r: Json)
    ensures
        r@ == Tree::Object(
            object_of(
                seq![
                    ("ok"@, Tree::Bool(true)),
                    ("action"@, Tree::Text("pause"@)),
                    ("session_id"@, Tree::Text(session_id@)),
                    ("paused"@, Tree::Bool(true)),
                    ("pause_at_sec"@, Tree::Number(pause_at_sec@)),
                    ("cursor_sec"@, Tree::Number(cursor_sec@)),
                    ("ffmpeg_pid"@, int_tree(recorder_pid as int)),
                    ("flush"@, flush@),
                    ("dry_run"@, Tree::Bool(dry_run)),
                ],
            ),
        ),
{
    let mut p = Pairs::new();
    p.flag("ok", true);
    p.text("action", "pause");
    p.text("session_id", session_id);
    p.flag("paused", true);
    p.number("pause_at_sec", pause_at_sec);
    p.number("cursor_sec", cursor_sec);
    p.add("ffmpeg_pid", int_json(recorder_pid as i64));
    p.add("flush", flush);
    p.flag("dry_run", dry_run);
    assert(p@ == seq![
        ("ok"@, Tree::Bool(true)),
        ("action"@, Tree::Text("pause"@)),
        ("session_id"@, Tree::Text(session_id@)),
        ("paused"@, Tree::Bool(true)),
        ("pause_at_sec"@, Tree::Number(pause_at_sec@)),
        ("cursor_sec"@, Tree::Number(cursor_sec@)),
        ("ffmpeg_pid"@, int_tree(recorder_pid as int)),
        ("flush"@, flush@),
        ("dry_run"@, Tree::Bool(dry_run)),
    ]);
    p.object()
}

/// What is reported of a session that goes on.
pub fn unpause_report(
    session_id: &str,
    unpause_at_sec: &Number,
    paused_sec: &Number,
    cursor_sec: &Number,
    recorder_pid: i32,
    dry_run: bool,
) -> (r: Json)
    ensures
        r@ == Tree::Object(
            object_of(
                seq![
                    ("ok"@, Tree::Bool(true)),
                    ("action"@, Tree::Text("unpause"@)),
                    ("session_id"@, Tree::Text(session_id@)),
                    ("paused"@, Tree::Bool(false)),
                    ("unpause_at_sec"@, Tree::Number(unpause_at_sec@)),
                    ("paused_sec"@, Tree::Number(paused_sec@)),
                    ("cursor_sec"@, Tree::Number(cursor_sec@)),
                    ("ffmpeg_pid"@, int_tree(recorder_pid as int)),
                    ("dry_run"@, Tree::Bool(dry_run)),
                ],
            ),
        ),
{
    let mut p = Pairs::new();
    p.flag("ok", true);
    p.text("action", "unpause");
    p.text("session_id", session_id);
    p.flag("paused", false);
    p.number("unpause_at_sec", unpause_at_sec);
    p.number("paused_sec", paused_sec);
    p.number("cursor_sec", cursor_sec);
    p.add("ffmpeg_pid", int_json(recorder_pid as i64));
    p.flag("dry_run", dry_run);
    assert(p@ == seq![
        ("ok"@, Tree::Bool(true)),
        ("action"@, Tree::Text("unpause"@)),
        ("session_id"@, Tree::Text(session_id@)),
        ("paused"@, Tree::Bool(false)),
        ("unpause_at_sec"@, Tree::Number(unpause_at_sec@)),
        ("paused_sec"@, Tree::Number(paused_sec@)),
        ("cursor_sec"@, Tree::Number(cursor_sec@)),
        ("ffmpeg_pid"@, int_tree(recorder_pid as int)),
        ("dry_run"@, Tree::Bool(dry_run)),
    ]);
    p.object()
}

// ---------------------------------------------------------------------------------------------
// Toggling and forking
// ---------------------------------------------------------------------------------------------

/// The part of the arguments of `toggle` that a start takes.
pub fn toggle_start_args(args: &ToggleArgs) -> (r: StartArgs)
    ensures
        opt_view(r.screenshot_dir) == opt_view(args.screenshot_dir),
        r.audio_device@ == args.audio_device@,
        opt_view(r.engine) == opt_view(args.engine),
{
    StartArgs {
        screenshot_dir: args.screenshot_dir.clone(),
        audio_device: args.audio_device.clone(),
        engine: args.engine.clone(),
    }
}

fn copy_texts(v: &Vec<String>) -> (r: Vec<String>)
    ensures
        views(r@) == views(v@),
{
    let mut out: Vec<String> = Vec::new();
    let mut i: usize = 0;
    assert(views(out@) =~= views(v@).subrange(0, 0));
    while i < v.len()
        invariant
            i <= v.len(),
            views(out@) == views(v@).subrange(0, i as int),
        decreases v.len() - i,
    {
        let ghost before = out@;
        out.push(v[i].clone());
        assert(views(out@) =~= views(before).push(views(v@)[i as int]));
        assert(views(v@).subrange(0, i + 1) =~= views(v@).subrange(0, i as int).push(
            views(v@)[i as int],
        ));
        i = i + 1;
    }
    assert(views(v@).subrange(0, v@.len() as int) =~= views(v@));
    out
}

/// The part of the arguments of `toggle` that a stop takes.
pub fn toggle_stop_args(args: &ToggleArgs) -> (r: StopArgs)
    ensures
        r.no_stop_hooks == args.no_stop_hooks,
        r.no_hooks == args.no_hooks,
        views(r.with_post_hook@) == views(args.with_post_hook@),
        opt_view(r.transcribe_cmd) == opt_view(args.transcribe_cmd),
        opt_view(r.post_transcribe_cmd) == opt_view(args.post_transcribe_cmd),
        opt_view(r.python_bin) == opt_view(args.python_bin),
        opt_view(r.parakeet_script) == opt_view(args.parakeet_script),
        opt_view(r.parakeet_model) == opt_view(args.parakeet_model),
{
    StopArgs {
        no_stop_hooks: args.no_stop_hooks,
        no_hooks: args.no_hooks,
        with_post_hook: copy_texts(&args.with_post_hook),
        transcribe_cmd: args.transcribe_cmd.clone(),
        post_transcribe_cmd: args.post_transcribe_cmd.clone(),
        python_bin: args.python_bin.clone(),
        parakeet_script: args.parakeet_script.clone(),
        parakeet_model: args.parakeet_model.clone(),
    }
}

/// The arguments of the session that follows one that is split: as that one, from the same
/// directory and device.
pub fn fork_start_args(state: &SessionState) -> (r: StartArgs)
    ensures
        opt_view(r.screenshot_dir) == Some(state.screenshot_source_dir@),
        r.audio_device@ == state.audio_device@,
        opt_view(r.engine) == Some(state.engine@),
{
    StartArgs {
        screenshot_dir: Some(state.screenshot_source_dir.clone()),
        audio_device: state.audio_device.clone(),
        engine: Some(state.engine.clone()),
    }
}

/// The arguments of a stop that nothing was asked for.
pub fn plain_stop_args() -> (r: StopArgs)
    ensures
        !r.no_stop_hooks,
        !r.no_hooks,
        r.with_post_hook@.len() == 0,
        r.transcribe_cmd is None,
        r.post_transcribe_cmd is None,
        r.python_bin is None,
        r.parakeet_script is None,
        r.parakeet_model is None,
{
    StopArgs {
        no_stop_hooks: false,
        no_hooks: false,
        with_post_hook: Vec::new(),
        transcribe_cmd: None,
        post_transcribe_cmd: None,
        python_bin: None,
        parakeet_script: None,
        parakeet_model: None,
    }
}

/// What comes of a split: the new session is the one that runs, whatever became of the old one.
/// `restored` and `finalized` are the errors of putting the new session back, and of stopping the
/// old one.
pub fn fork_result(
    old_id: &str,
    new_id: &str,
    restored: &Option<AppError>,
    finalized: &Option<AppError>,
) -> (r: Result<(), AppError>)
    ensures
        match (*restored, *finalized) {
            (Some(e), _) => r matches Err(x) && x.code == 1 && x.message@
                == "Forked to new session "@ + new_id@
                + ", but failed to restore active state: "@ + e.message@,
            (None, Some(e)) => r matches Err(x) && x.code == e.code && x.message@
                == "Forked to new session "@ + new_id@
                + ", but failed finalizing old session "@ + old_id@ + ": "@ + e.message@,
            (None, None) => r is Ok,
        },
{
    if let Some(e) = restored {
        let mut m = concat3(
            "Forked to new session ",
            new_id,
            ", but failed to restore active state: ",
        );
        m.append(e.message.as_str());
        return Err(app_error(1, m.as_str()));
    }
    if let Some(e) = finalized {
        let mut m = concat3(
            "Forked to new session ",
            new_id,
            ", but failed finalizing old session ",
        );
        m.append(old_id);
        m.append(": ");
        m.append(e.message.as_str());
        return Err(app_error(e.code, m.as_str()));
    }
    Ok(())
}

/// What is said of a session that would be split.
pub fn dry_fork_text(session_id: &str) -> (r: String)
    ensures
        r@ == "[dry-run] Would fork active session "@
            + session_id@
            + " into a new session."@,
{
    concat3("[dry-run] Would fork active session ", session_id, " into a new session.")
}

/// What is reported of a session that would be split.
pub fn dry_fork_report(session_id: &str) -> (r: Json)
    ensures
        r@ == Tree::Object(
            object_of(
                seq![
                    ("ok"@, Tree::Bool(true)),
                    ("action"@, Tree::Text("fork"@)),
                    ("old_session_id"@, Tree::Text(session_id@)),
                    ("dry_run"@, Tree::Bool(true)),
                ],
            ),
        ),
{
    let mut p = Pairs::new();
    p.flag("ok", true);
    p.text("action", "fork");
    p.text("old_session_id", session_id);
    p.flag("dry_run", true);
    assert(p@ == seq![
        ("ok"@, Tree::Bool(true)),
        ("action"@, Tree::Text("fork"@)),
        ("old_session_id"@, Tree::Text(session_id@)),
        ("dry_run"@, Tree::Bool(true)),
    ]);
    p.object()
}

/// What is said of a session that was split. The times are in milliseconds.
pub fn fork_text(old_id: &str, new_id: &str, gap_ms: &str, running_ms: &str) -> (r: String)
    ensures
        r@ == "Forked session "@
            + old_id@
            + "\nnew session "@
            + new_id@
            + "\nsplit_gap_ms: "@
            + gap_ms@
            + "\nsplit_to_running_ms: "@
            + running_ms@,
{
    let mut out = concat3("Forked session ", old_id, "\nnew session ");
    out.append(new_id);
    out.append("\nsplit_gap_ms: ");
    out.append(gap_ms);
    out.append("\nsplit_to_running_ms: ");
    out.append(running_ms);
    out
}

/// What is reported of a session that was split.
pub fn fork_report(
    old_id: &str,
    new_id: &str,
    gap_ms: &Number,
    running_ms: &Number,
    new_session_dir: &str,
) -> (r: Json)
    ensures
        r@ == Tree::Object(
            object_of(
                seq![
                    ("ok"@, Tree::Bool(true)),
                    ("action"@, Tree::Text("fork"@)),
                    ("old_session_id"@, Tree::Text(old_id@)),
                    ("new_session_id"@, Tree::Text(new_id@)),
                    ("split_gap_ms"@, Tree::Number(gap_ms@)),
                    ("split_to_running_ms"@, Tree::Number(running_ms@)),
                    ("new_session_dir"@, Tree::Text(new_session_dir@)),
                ],
            ),
        ),
{
    let mut p = Pairs::new();
    p.flag("ok", true);
    p.text("action", "fork");
    p.text("old_session_id", old_id);
    p.text("new_session_id", new_id);
    p.number("split_gap_ms", gap_ms);
    p.number("split_to_running_ms", running_ms);
    p.text("new_session_dir", new_session_dir);
    assert(p@ == seq![
        ("ok"@, Tree::Bool(true)),
        ("action"@, Tree::Text("fork"@)),
        ("old_session_id"@, Tree::Text(old_id@)),
        ("new_session_id"@, Tree::Text(new_id@)),
        ("split_gap_ms"@, Tree::Number(gap_ms@)),
        ("split_to_running_ms"@, Tree::Number(running_ms@)),
        ("new_session_dir"@, Tree::Text(new_session_dir@)),
    ]);
    p.object()
}

// ---------------------------------------------------------------------------------------------
// Showing how it goes
// ---------------------------------------------------------------------------------------------

/// A process id as it is shown.
pub open spec fn shown_pid(pid: Option<i32>) -> Seq<char> {
    match pid {
        Some(p) => signed_decimal(p as int),
        None => "none"@,
    }
}

/// A process id as it is shown.
pub fn pid_word(pid: Option<i32>) -> (r: String)
    ensures
        r@ == shown_pid(pid),
{
    match pid {
        Some(p) => signed_text(p as i64),
        None => "none".to_owned(),
    }
}

/// Which processes of a session live.
pub struct Alive {
    pub recorder: bool,
    pub clipboard_watcher: bool,
    pub transcription_watcher: bool,
}

/// What the last event on the transcription of a session says.
pub struct Progress {
    pub kind: Option<String>,
    pub reason: Option<String>,
    pub log_path: Option<String>,
    pub command_preview: Option<String>,
}

/// What an event says of the transcription of a session.
pub open spec fn is_progress(p: Progress, event: Option<Tree>) -> bool {
    match event {
        Some(e) => {
            &&& opt_view(p.kind) == text_field(e, "type"@)
            &&& opt_view(p.reason) == text_field(e, "reason"@)
            &&& opt_view(p.log_path) == text_field(e, "log_path"@)
            &&& opt_view(p.command_preview) == text_field(e, "command_preview"@)
        },
        None => p.kind is None && p.reason is None && p.log_path is None && p.command_preview is None,
    }
}

fn copied(s: Option<&String>) -> (r: Option<String>)
    ensures
        match s {
            Some(t) => r matches Some(u) && u@ == t@,
            None => r is None,
        },
{
    match s {
        Some(t) => Some(t.clone()),
        None => None,
    }
}

/// What an event says of the transcription of a session.
pub fn progress_of(event: &Option<Json>) -> (r: Progress)
    ensures
        is_progress(
            r,
            match *event {
                Some(e) => Some(e@),
                None => None,
            },
        ),
{
    match event {
        Some(e) => Progress {
            kind: copied(e.get_text("type")),
            reason: copied(e.get_text("reason")),
            log_path: copied(e.get_text("log_path")),
            command_preview: copied(e.get_text("command_preview")),
        },
        None => Progress { kind: None, reason: None, log_path: None, command_preview: None },
    }
}

/// The times of a session, in seconds, as they are shown: rounded to milliseconds.
pub struct StatusTimes<'a> {
    pub cursor: &'a str,
    pub paused_for: Option<&'a str>,
    pub max_session: Option<&'a str>,
    pub auto_stop_in: Option<&'a str>,
}

/// What stands behind a label, where it is there.
pub open spec fn suffix(head: Seq<char>, value: Option<Seq<char>>, tail: Seq<char>) -> Seq<char> {
    match value {
        Some(v) => head + v + tail,
        None => Seq::empty(),
    }
}

fn suffix_text(head: &str, value: Option<&str>, tail: &str) -> (r: String)
    ensures
        r@ == suffix(head@, str_view(value), tail@),
{
    match value {
        Some(v) => concat3(head, v, tail),
        None => String::new(),
    }
}

/// A text, and `none` where there is none.
pub open spec fn or_none(s: Option<Seq<char>>) -> Seq<char> {
    match s {
        Some(t) => t,
        None => "none"@,
    }
}

fn none_word<'a>(s: &'a Option<String>) -> (r: &'a str)
    ensures
        r@ == or_none(opt_view(*s)),
{
    match s {
        Some(t) => t.as_str(),
        None => "none",
    }
}

/// What is said of the processes of a session.
pub open spec fn process_lines(state: SessionState, a: Alive) -> Seq<char> {
    "Active session: "@ + state.session_id@ + "\nsession_dir: "@ + state.session_dir@
        + "\nffmpeg_pid: "@ + shown_pid(state.ffmpeg_pid) + " (alive="@ + shown_bool(a.recorder)
        + ")\nclipboard_watcher_pid: "@ + shown_pid(state.clipboard_watcher_pid) + " (alive="@
        + shown_bool(a.clipboard_watcher) + ")\ntranscription_watcher_pid: "@ + shown_pid(
        state.transcription_watcher_pid,
    ) + " (alive="@ + shown_bool(a.transcription_watcher) + ")"@
}

/// What is said of the transcription of a session.
pub open spec fn progress_lines(state: SessionState, p: Progress, t: StatusTimes) -> Seq<char> {
    "\ntranscription_watcher_event: "@ + or_none(opt_view(p.kind)) + suffix(
        " (reason="@,
        opt_view(p.reason),
        ")"@,
    ) + "\ntranscription_watcher_log: "@ + or_none(opt_view(p.log_path))
        + "\ntranscription_cursor_sec: "@ + t.cursor@ + "\ntranscription_paused: "@ + shown_bool(
        state.transcription_paused,
    ) + suffix(" (paused_for="@, str_view(t.paused_for), "s)"@)
}

fn process_text(state: &SessionState, a: &Alive) -> (r: String)
    ensures
        r@ == process_lines(*state, *a),
{
    let mut out = concat3("Active session: ", state.session_id.as_str(), "\nsession_dir: ");
    out.append(state.session_dir.as_str());
    out.append("\nffmpeg_pid: ");
    out.append(pid_word(state.ffmpeg_pid).as_str());
    out.append(" (alive=");
    out.append(bool_word(a.recorder));
    out.append(")\nclipboard_watcher_pid: ");
    out.append(pid_word(state.clipboard_watcher_pid).as_str());
    out.append(" (alive=");
    out.append(bool_word(a.clipboard_watcher));
    out.append(")\ntranscription_watcher_pid: ");
    out.append(pid_word(state.transcription_watcher_pid).as_str());
    out.append(" (alive=");
    out.append(bool_word(a.transcription_watcher));
    out.append(")");
    out
}

fn progress_text(state: &SessionState, p: &Progress, t: &StatusTimes) -> (r: String)
    ensures
        r@ == progress_lines(*state, *p, *t),
{
    let reason: Option<&str> = match &p.reason {
        Some(s) => Some(s.as_str()),
        None => None,
    };
    let mut out = concat3(
        "\ntranscription_watcher_event: ",
        none_word(&p.kind),
        suffix_text(" (reason=", reason, ")").as_str(),
    );
    out.append("\ntranscription_watcher_log: ");
    out.append(none_word(&p.log_path));
    out.append("\ntranscription_cursor_sec: ");
    out.append(t.cursor);
    out.append("\ntranscription_paused: ");
    out.append(bool_word(state.transcription_paused));
    out.append(suffix_text(" (paused_for=", t.paused_for, "s)").as_str());
    out
}

/// What is said of how long a session may last.
pub open spec fn cap_line(t: StatusTimes) -> Seq<char> {
    match t.max_session {
        Some(m) => "\nmax_session_sec: "@ + m@ + suffix(
            " (auto_stop_in="@,
            str_view(t.auto_stop_in),
            "s)"@,
        ),
        None => Seq::empty(),
    }
}

/// What is said of a session that runs.
pub fn status_text(state: &SessionState, a: &Alive, p: &Progress, t: &StatusTimes, build_id: &str) -> (r:
    String)
    ensures
        r@ == process_lines(*state, *a) + progress_lines(*state, *p, *t) + cap_line(*t)
            + "\nbuild_id: "@ + build_id@,
{
    let cap: String = match t.max_session {
        Some(m) => concat3(
            "\nmax_session_sec: ",
            m,
            suffix_text(" (auto_stop_in=", t.auto_stop_in, "s)").as_str(),
        ),
        None => String::new(),
    };
    let mut out = concat3(
        process_text(state, a).as_str(),
        progress_text(state, p, t).as_str(),
        cap.as_str(),
    );
    out.append("\nbuild_id: ");
    out.append(build_id);
    out
}

/// What is said where no session runs.
pub fn idle_status_text(build_id: &str) -> (r: String)
    ensures
        r@ == "No active session.\nbuild_id: "@
            + build_id@,
{
    concat("No active session.\nbuild_id: ", build_id)
}

/// What is reported where no session runs.
pub fn idle_status_report(build_id: &str) -> (r: Json)
    ensures
        r@ == Tree::Object(
            object_of(
                seq![
                    ("active"@, Tree::Bool(false)),
                    ("build_id"@, Tree::Text(build_id@)),
                ],
            ),
        ),
{
    let mut p = Pairs::new();
    p.flag("active", false);
    p.text("build_id", build_id);
    assert(p@ == seq![
        ("active"@, Tree::Bool(false)),
        ("build_id"@, Tree::Text(build_id@)),
    ]);
    p.object()
}

/// What is reported of a session that runs. The seconds are rounded to milliseconds.
#[verifier::rlimit(40)]
pub fn status_report(
    state: &SessionState,
    a: &Alive,
    w: &Progress,
    cursor_sec: &Number,
    pause_started_sec: &Option<Number>,
    paused_for_sec: &Option<Number>,
    max_session_sec: &Option<Number>,
    auto_stop_in_sec: &Option<Number>,
    build_id: &str,
) -> (r: Json)
    ensures
        r@ == Tree::Object(
            object_of(
                seq![
                    ("active"@, Tree::Bool(true)),
                    ("session_id"@, Tree::Text(state.session_id@)),
                    ("session_dir"@, Tree::Text(state.session_dir@)),
                    ("started_at_iso"@, Tree::Text(state.started_at_iso@)),
                    ("ffmpeg_pid"@, opt_pid_tree(state.ffmpeg_pid)),
                    ("ffmpeg_alive"@, Tree::Bool(a.recorder)),
                    ("clipboard_watcher_pid"@, opt_pid_tree(state.clipboard_watcher_pid)),
                    ("clipboard_watcher_alive"@, Tree::Bool(a.clipboard_watcher)),
                    ("transcription_watcher_pid"@, opt_pid_tree(state.transcription_watcher_pid)),
                    ("transcription_watcher_alive"@, Tree::Bool(a.transcription_watcher)),
                    ("transcription_watcher_last_event"@, opt_text_tree(opt_view(w.kind))),
                    ("transcription_watcher_last_reason"@, opt_text_tree(opt_view(w.reason))),
                    ("transcription_watcher_log_path"@, opt_text_tree(opt_view(w.log_path))),
                    ("transcription_watcher_command_preview"@, opt_text_tree(opt_view(w.command_preview))),
                    ("transcription_cursor_sec"@, Tree::Number(cursor_sec@)),
                    ("transcription_paused"@, Tree::Bool(state.transcription_paused)),
                    ("transcription_pause_started_sec"@, opt_number_tree(*pause_started_sec)),
                    ("transcription_paused_for_sec"@, opt_number_tree(*paused_for_sec)),
                    ("max_session_sec"@, opt_number_tree(*max_session_sec)),
                    ("auto_stop_in_sec"@, opt_number_tree(*auto_stop_in_sec)),
                    ("build_id"@, Tree::Text(build_id@)),
                ],
            ),
        ),
{
    let mut p = Pairs::new();
    p.flag("active", true);
    p.text("session_id", state.session_id.as_str());
    p.text("session_dir", state.session_dir.as_str());
    p.text("started_at_iso", state.started_at_iso.as_str());
    p.add("ffmpeg_pid", opt_pid_json(state.ffmpeg_pid));
    p.flag("ffmpeg_alive", a.recorder);
    p.add("clipboard_watcher_pid", opt_pid_json(state.clipboard_watcher_pid));
    p.flag("clipboard_watcher_alive", a.clipboard_watcher);
    p.add("transcription_watcher_pid", opt_pid_json(state.transcription_watcher_pid));
    p.flag("transcription_watcher_alive", a.transcription_watcher);
    p.add("transcription_watcher_last_event", opt_string_json(&w.kind));
    p.add("transcription_watcher_last_reason", opt_string_json(&w.reason));
    p.add("transcription_watcher_log_path", opt_string_json(&w.log_path));
    p.add("transcription_watcher_command_preview", opt_string_json(&w.command_preview));
    p.number("transcription_cursor_sec", cursor_sec);
    p.flag("transcription_paused", state.transcription_paused);
    p.add("transcription_pause_started_sec", opt_number_json(pause_started_sec));
    p.add("transcription_paused_for_sec", opt_number_json(paused_for_sec));
    p.add("max_session_sec", opt_number_json(max_session_sec));
    p.add("auto_stop_in_sec", opt_number_json(auto_stop_in_sec));
    p.text("build_id", build_id);
    assert(p@ == seq![
        ("active"@, Tree::Bool(true)),
        ("session_id"@, Tree::Text(state.session_id@)),
        ("session_dir"@, Tree::Text(state.session_dir@)),
        ("started_at_iso"@, Tree::Text(state.started_at_iso@)),
        ("ffmpeg_pid"@, opt_pid_tree(state.ffmpeg_pid)),
        ("ffmpeg_alive"@, Tree::Bool(a.recorder)),
        ("clipboard_watcher_pid"@, opt_pid_tree(state.clipboard_watcher_pid)),
        ("clipboard_watcher_alive"@, Tree::Bool(a.clipboard_watcher)),
        ("transcription_watcher_pid"@, opt_pid_tree(state.transcription_watcher_pid)),
        ("transcription_watcher_alive"@, Tree::Bool(a.transcription_watcher)),
        ("transcription_watcher_last_event"@, opt_text_tree(opt_view(w.kind))),
        ("transcription_watcher_last_reason"@, opt_text_tree(opt_view(w.reason))),
        ("transcription_watcher_log_path"@, opt_text_tree(opt_view(w.log_path))),
        ("transcription_watcher_command_preview"@, opt_text_tree(opt_view(w.command_preview))),
        ("transcription_cursor_sec"@, Tree::Number(cursor_sec@)),
        ("transcription_paused"@, Tree::Bool(state.transcription_paused)),
        ("transcription_pause_started_sec"@, opt_number_tree(*pause_started_sec)),
        ("transcription_paused_for_sec"@, opt_number_tree(*paused_for_sec)),
        ("max_session_sec"@, opt_number_tree(*max_session_sec)),
        ("auto_stop_in_sec"@, opt_number_tree(*auto_stop_in_sec)),
        ("build_id"@, Tree::Text(build_id@)),
    ]);
    p.object()
}

/// How the chunks of a session went.
#[derive(PartialEq, Eq, Structural, Clone, Copy, Debug)]
pub struct LiveChunkStats {
    pub total: usize,
    pub ok: usize,
    pub skipped: usize,
    pub error: usize,
}

/// How the chunks of a session went.
pub fn live_chunk_stats(events: &Vec<Json>) -> (r: LiveChunkStats)
    ensures
        r.total == chunk_count(item_views(events@), events@.len() as int),
        r.ok == status_count(item_views(events@), "ok"@, events@.len() as int),
        r.skipped == status_count(item_views(events@), "skipped"@, events@.len() as int),
        r.error == status_count(item_views(events@), "error"@, events@.len() as int),
{
    LiveChunkStats {
        total: count_chunk_events(events),
        ok: count_status(events, "ok"),
        skipped: count_status(events, "skipped"),
        error: count_status(events, "error"),
    }
}

/// How many words a text has.
pub fn word_count(text: &str) -> (r: usize)
    ensures
        r == words_of(text@).len(),
{
    let w = words(text);
    assert(views(w@).len() == w@.len());
    w.len()
}

/// What a session is doing. Where it is paused, it is said for how long.
pub open spec fn listen_state(paused: bool, paused_for: Measure) -> Seq<char> {
    if paused {
        "Paused "@ + clock_duration(paused_for.whole_of() as nat)
    } else {
        "Listening"@
    }
}

/// The line on a session that runs.
pub fn live_line(
    elapsed: &Measure,
    screenshots: usize,
    words: usize,
    chunks: LiveChunkStats,
    paused: bool,
    paused_for: &Measure,
) -> (r: String)
    ensures
        r@ == "LIVE • "@ + clock_duration(elapsed.whole_of() as nat) + " • "@ + decimal(
            screenshots as nat,
        ) + " screenshots • "@ + decimal(words as nat) + " words • chunks "@ + decimal(
            chunks.total as nat,
        ) + " (ok "@ + decimal(chunks.ok as nat) + ", skipped "@ + decimal(chunks.skipped as nat)
            + ", err "@ + decimal(chunks.error as nat) + ") • "@ + listen_state(
            paused,
            *paused_for,
        ),
{
    let state: String = if paused {
        concat("Paused ", format_hms_compact(paused_for).as_str())
    } else {
        "Listening".to_owned()
    };
    let mut out = concat3("LIVE • ", format_hms_compact(elapsed).as_str(), " • ");
    out.append(decimal_text(screenshots as u64).as_str());
    out.append(" screenshots • ");
    out.append(decimal_text(words as u64).as_str());
    out.append(" words • chunks ");
    out.append(decimal_text(chunks.total as u64).as_str());
    out.append(" (ok ");
    out.append(decimal_text(chunks.ok as u64).as_str());
    out.append(", skipped ");
    out.append(decimal_text(chunks.skipped as u64).as_str());
    out.append(", err ");
    out.append(decimal_text(chunks.error as u64).as_str());
    out.append(") • ");
    out.append(state.as_str());
    out
}

/// What is new in a transcript since it was last shown: what was added to it, else all of it, where
/// it changed.
pub open spec fn news(transcript: Seq<char>, shown: Seq<char>) -> Seq<char> {
    if shown.is_prefix_of(transcript) {
        trimmed(transcript.subrange(shown.len() as int, transcript.len() as int))
    } else {
        transcript
    }
}

/// What is said before a session is looked at again and again.
pub fn live_banner(session_id: &str) -> (r: String)
    ensures
        r@ == "Manual chunking enabled: run `riff chunk` to process captured audio.\nUse `riff pause` / `riff unpause` to skip transcription windows.\nSession: "@
            + session_id@,
{
    concat(
        "Manual chunking enabled: run `riff chunk` to process captured audio.\nUse `riff pause` / `riff unpause` to skip transcription windows.\nSession: ",
        session_id,
    )
}

/// What is new in a transcript since it was last shown.
pub fn new_words(transcript: &str, shown: &str) -> (r: String)
    ensures
        r@ == news(transcript@, shown@),
{
    match crate::pattern::strip_prefix(transcript, shown) {
        Some(rest) => trim(rest.as_str()),
        None => transcript.to_owned(),
    }
}

/// Where nothing was added there is nothing new.
pub proof fn unchanged_text_is_no_news(transcript: Seq<char>)
    ensures
        news(transcript, transcript).len() == 0,
{
    assert(transcript.is_prefix_of(transcript));
    assert(transcript.subrange(transcript.len() as int, transcript.len() as int) =~= Seq::empty());
    crate::text::lemma_trimmed_shape(Seq::empty());
}

/// How long it is waited before a session is looked at again: at least a fifth of a second.
pub fn live_poll_ms(set: u64) -> (r: u64)
    ensures
        r == if set < 200 {
            200
        } else {
            set
        },
{
    if set < 200 {
        200
    } else {
        set
    }
}

/// What is reported where no session runs that could be looked at.
pub fn idle_live_report() -> (r: Json)
    ensures
        r@ == Tree::Object(object_of(seq![("active"@, Tree::Bool(false))])),
{
    let mut p = Pairs::new();
    p.flag("active", false);
    assert(p@ == seq![("active"@, Tree::Bool(false))]);
    p.object()
}

/// What is reported of a session that runs. The seconds are rounded to milliseconds.
pub fn live_report(
    state: &SessionState,
    elapsed_sec: &Number,
    screenshots: usize,
    words: usize,
    chunks: LiveChunkStats,
    cursor_sec: &Number,
    pause_started_sec: &Option<Number>,
    transcript: &str,
) -> (r: Json)
    ensures
        r@ == Tree::Object(
            object_of(
                seq![
                    ("active"@, Tree::Bool(true)),
                    ("session_id"@, Tree::Text(state.session_id@)),
                    ("elapsed_sec"@, Tree::Number(elapsed_sec@)),
                    ("screenshots"@, count_tree(screenshots as nat)),
                    ("words"@, count_tree(words as nat)),
                    ("chunks_total"@, count_tree(chunks.total as nat)),
                    ("chunks_ok"@, count_tree(chunks.ok as nat)),
                    ("chunks_skipped"@, count_tree(chunks.skipped as nat)),
                    ("chunks_error"@, count_tree(chunks.error as nat)),
                    ("transcription_cursor_sec"@, Tree::Number(cursor_sec@)),
                    ("transcription_paused"@, Tree::Bool(state.transcription_paused)),
                    ("transcription_pause_started_sec"@, opt_number_tree(*pause_started_sec)),
                    ("transcript_text"@, Tree::Text(transcript@)),
                ],
            ),
        ),
{
    let mut p = Pairs::new();
    p.flag("active", true);
    p.text("session_id", state.session_id.as_str());
    p.number("elapsed_sec", elapsed_sec);
    p.count("screenshots", screenshots as u64);
    p.count("words", words as u64);
    p.count("chunks_total", chunks.total as u64);
    p.count("chunks_ok", chunks.ok as u64);
    p.count("chunks_skipped", chunks.skipped as u64);
    p.count("chunks_error", chunks.error as u64);
    p.number("transcription_cursor_sec", cursor_sec);
    p.flag("transcription_paused", state.transcription_paused);
    p.add("transcription_pause_started_sec", opt_number_json(pause_started_sec));
    p.text("transcript_text", transcript);
    assert(p@ == seq![
        ("active"@, Tree::Bool(true)),
        ("session_id"@, Tree::Text(state.session_id@)),
        ("elapsed_sec"@, Tree::Number(elapsed_sec@)),
        ("screenshots"@, count_tree(screenshots as nat)),
        ("words"@, count_tree(words as nat)),
        ("chunks_total"@, count_tree(chunks.total as nat)),
        ("chunks_ok"@, count_tree(chunks.ok as nat)),
        ("chunks_skipped"@, count_tree(chunks.skipped as nat)),
        ("chunks_error"@, count_tree(chunks.error as nat)),
        ("transcription_cursor_sec"@, Tree::Number(cursor_sec@)),
        ("transcription_paused"@, Tree::Bool(state.transcription_paused)),
        ("transcription_pause_started_sec"@, opt_number_tree(*pause_started_sec)),
        ("transcript_text"@, Tree::Text(transcript@)),
    ]);
    p.object()
}

// ---------------------------------------------------------------------------------------------
// Settings and pages
// ---------------------------------------------------------------------------------------------

/// Where a settings file lies: where it is set to, else in the home directory.
pub fn settings_path(custom: Option<&str>, home: Option<&str>, name: &str) -> (r: Option<String>)
    ensures
        opt_view(r) == match custom {
            Some(c) => Some(c@),
            None => match home {
                Some(h) => Some(joined_path(h@, name@)),
                None => None,
            },
        },
{
    match custom {
        Some(c) => Some(c.to_owned()),
        None => match home {
            Some(h) => Some(join_path(h, name)),
            None => None,
        },
    }
}

/// The value that switches the sounds on or off.
pub fn beep_value(enabled: bool) -> (r: &'static str)
    ensures
        r@ == if enabled {
            "1"@
        } else {
            "0"@
        },
{
    if enabled {
        "1"
    } else {
        "0"
    }
}

/// The error where there is nowhere to keep a setting.
pub fn no_rc_error() -> (r: AppError)
    ensures
        r.code == 1,
        r.message@ == "Cannot resolve rc path. Set HOME or RIFF_RC_FILE."@,
{
    app_error(1, "Cannot resolve rc path. Set HOME or RIFF_RC_FILE.")
}

/// What is said where the sounds were switched, or would be.
pub fn beep_text(enabled: bool, rc_file: &str, dry_run: bool) -> (r: String)
    ensures
        r@ == if dry_run {
            "[dry-run] Would write export RIFF_BEEP="@ + (if enabled {
                "1"@
            } else {
                "0"@
            }) + " to "@ + rc_file@
        } else {
            "Global beeps "@ + (if enabled {
                "enabled"@
            } else {
                "disabled"@
            }) + ".\nrc_file: "@ + rc_file@
        },
{
    if dry_run {
        let mut out = concat3(
            "[dry-run] Would write export RIFF_BEEP=",
            beep_value(enabled),
            " to ",
        );
        out.append(rc_file);
        out
    } else {
        let mut out = concat3(
            "Global beeps ",
            if enabled {
                "enabled"
            } else {
                "disabled"
            },
            ".\nrc_file: ",
        );
        out.append(rc_file);
        out
    }
}

/// What is reported where the sounds would be switched.
pub fn dry_beep_report(enabled: bool, rc_file: &str) -> (r: Json)
    ensures
        r@ == Tree::Object(
            object_of(
                seq![
                    ("ok"@, Tree::Bool(true)),
                    ("beeps_enabled"@, Tree::Bool(enabled)),
                    ("riffrc"@, Tree::Text(rc_file@)),
                    ("dry_run"@, Tree::Bool(true)),
                ],
            ),
        ),
{
    let mut p = Pairs::new();
    p.flag("ok", true);
    p.flag("beeps_enabled", enabled);
    p.text("riffrc", rc_file);
    p.flag("dry_run", true);
    assert(p@ == seq![
        ("ok"@, Tree::Bool(true)),
        ("beeps_enabled"@, Tree::Bool(enabled)),
        ("riffrc"@, Tree::Text(rc_file@)),
        ("dry_run"@, Tree::Bool(true)),
    ]);
    p.object()
}

/// What is reported where the sounds were switched.
pub fn beep_report(enabled: bool, rc_file: &str) -> (r: Json)
    ensures
        r@ == Tree::Object(
            object_of(
                seq![
                    ("ok"@, Tree::Bool(true)),
                    ("action"@, Tree::Text(if enabled { "loud"@ } else { "silence"@ })),
                    ("beeps_enabled"@, Tree::Bool(enabled)),
                    ("riffrc"@, Tree::Text(rc_file@)),
                    ("dry_run"@, Tree::Bool(false)),
                ],
            ),
        ),
{
    let mut p = Pairs::new();
    p.flag("ok", true);
    p.add("action", Json::text(if enabled { "loud" } else { "silence" }));
    p.flag("beeps_enabled", enabled);
    p.text("riffrc", rc_file);
    p.flag("dry_run", false);
    assert(p@ == seq![
        ("ok"@, Tree::Bool(true)),
        ("action"@, Tree::Text(if enabled { "loud"@ } else { "silence"@ })),
        ("beeps_enabled"@, Tree::Bool(enabled)),
        ("riffrc"@, Tree::Text(rc_file@)),
        ("dry_run"@, Tree::Bool(false)),
    ]);
    p.object()
}

/// What is opened to show a session: its page on the web server, where that runs, else its file.
pub fn html_target(html_path: &str, base_url: &str, session_id: &str, server_ready: bool) -> (r: String)
    ensures
        r@ == if server_ready {
            without_slashes(base_url@) + "/sessions/"@ + session_id@ + "/note.html"@
        } else {
            html_path@
        },
{
    if server_ready {
        let mut out = concat3(trim_slashes(base_url).as_str(), "/sessions/", session_id);
        out.append("/note.html");
        out
    } else {
        html_path.to_owned()
    }
}

/// What is reported of a session whose page was opened.
pub fn html_report(
    session_dir: &str,
    html_path: &str,
    index_path: &str,
    opened_target: &str,
    server_ready: bool,
    base_url: &str,
) -> (r: Json)
    ensures
        r@ == Tree::Object(
            object_of(
                seq![
                    ("ok"@, Tree::Bool(true)),
                    ("session_dir"@, Tree::Text(session_dir@)),
                    ("html_path"@, Tree::Text(html_path@)),
                    ("sessions_index_path"@, Tree::Text(index_path@)),
                    ("opened"@, Tree::Bool(true)),
                    ("opened_target"@, Tree::Text(opened_target@)),
                    ("web_server_ready"@, Tree::Bool(server_ready)),
                    ("web_server_url"@, if server_ready { Tree::Text(base_url@) } else { Tree::Null }),
                ],
            ),
        ),
{
    let mut p = Pairs::new();
    p.flag("ok", true);
    p.text("session_dir", session_dir);
    p.text("html_path", html_path);
    p.text("sessions_index_path", index_path);
    p.flag("opened", true);
    p.text("opened_target", opened_target);
    p.flag("web_server_ready", server_ready);
    p.add("web_server_url", if server_ready { Json::text(base_url) } else { Json::Null });
    assert(p@ == seq![
        ("ok"@, Tree::Bool(true)),
        ("session_dir"@, Tree::Text(session_dir@)),
        ("html_path"@, Tree::Text(html_path@)),
        ("sessions_index_path"@, Tree::Text(index_path@)),
        ("opened"@, Tree::Bool(true)),
        ("opened_target"@, Tree::Text(opened_target@)),
        ("web_server_ready"@, Tree::Bool(server_ready)),
        ("web_server_url"@, if server_ready { Tree::Text(base_url@) } else { Tree::Null }),
    ]);
    p.object()
}

/// What is reported of an error.
pub fn error_report(e: &AppError) -> (r: Json)
    ensures
        r@ == Tree::Object(
            object_of(
                seq![
                    ("ok"@, Tree::Bool(false)),
                    ("error"@, Tree::Text(e.message@)),
                    ("code"@, int_tree(e.code as int)),
                ],
            ),
        ),
{
    let mut p = Pairs::new();
    p.flag("ok", false);
    p.text("error", e.message.as_str());
    p.add("code", int_json(e.code as i64));
    assert(p@ == seq![
        ("ok"@, Tree::Bool(false)),
        ("error"@, Tree::Text(e.message@)),
        ("code"@, int_tree(e.code as int)),
    ]);
    p.object()
}

/// The error where no session runs.
pub fn no_session_error() -> (r: AppError)
    ensures
        r.code == 4,
        r.message@ == "No active session. Run 'riff start' first."@,
{
    app_error(4, "No active session. Run 'riff start' first.")
}

/// What the event stream is told where a toggle has chosen.
pub fn toggle_resolved(stops: bool) -> (r: Json)
    ensures
        r@ == Tree::Object(
            object_of(
                seq![
                    ("resolved_to"@, Tree::Text(if stops { "stop"@ } else { "start"@ })),
                ],
            ),
        ),
{
    let mut p = Pairs::new();
    p.add("resolved_to", Json::text(if stops { "stop" } else { "start" }));
    assert(p@ == seq![
        ("resolved_to"@, Tree::Text(if stops { "stop"@ } else { "start"@ })),
    ]);
    p.object()
}

/// What the event stream is told of a session that was split.
pub fn session_forked(old_id: &str, new_id: &str, gap_ms: &Number, running_ms: &Number) -> (r: Json)
    ensures
        r@ == Tree::Object(
            object_of(
                seq![
                    ("old_session_id"@, Tree::Text(old_id@)),
                    ("new_session_id"@, Tree::Text(new_id@)),
                    ("split_gap_ms"@, Tree::Number(gap_ms@)),
                    ("split_to_running_ms"@, Tree::Number(running_ms@)),
                ],
            ),
        ),
{
    let mut p = Pairs::new();
    p.text("old_session_id", old_id);
    p.text("new_session_id", new_id);
    p.number("split_gap_ms", gap_ms);
    p.number("split_to_running_ms", running_ms);
    assert(p@ == seq![
        ("old_session_id"@, Tree::Text(old_id@)),
        ("new_session_id"@, Tree::Text(new_id@)),
        ("split_gap_ms"@, Tree::Number(gap_ms@)),
        ("split_to_running_ms"@, Tree::Number(running_ms@)),
    ]);
    p.object()
}

/// What the event stream is told of a page that was opened.
pub fn report_opened(target: &str, server_ready: bool) -> (r: Json)
    ensures
        r@ == Tree::Object(
            object_of(
                seq![
                    ("target"@, Tree::Text(target@)),
                    ("web_server_ready"@, Tree::Bool(server_ready)),
                ],
            ),
        ),
{
    let mut p = Pairs::new();
    p.text("target", target);
    p.flag("web_server_ready", server_ready);
    assert(p@ == seq![
        ("target"@, Tree::Text(target@)),
        ("web_server_ready"@, Tree::Bool(server_ready)),
    ]);
    p.object()
}

/// What the event stream is told of a setting that was changed.
pub fn config_changed(key: &str, value: &str, rc_file: &str) -> (r: Json)
    ensures
        r@ == Tree::Object(
            object_of(
                seq![
                    ("key"@, Tree::Text(key@)),
                    ("value"@, Tree::Text(value@)),
                    ("rc_file"@, Tree::Text(rc_file@)),
                ],
            ),
        ),
{
    let mut p = Pairs::new();
    p.text("key", key);
    p.text("value", value);
    p.text("rc_file", rc_file);
    assert(p@ == seq![
        ("key"@, Tree::Text(key@)),
        ("value"@, Tree::Text(value@)),
        ("rc_file"@, Tree::Text(rc_file@)),
    ]);
    p.object()
}

/// What comes of opening a page. `run` is how the tool that opens it ended, as it is shown.
pub fn open_result(run: Result<Option<&str>, &str>) -> (r: Result<(), AppError>)
    ensures
        match run {
            Ok(None) => r is Ok,
            Ok(Some(status)) => r matches Err(e) && e.code == 1 && e.message@
                == "open command failed with status: "@ + status@,
            Err(m) => r matches Err(e) && e.code == 1 && e.message@ == "Failed to run 'open': "@
                + m@,
        },
{
    match run {
        Ok(None) => Ok(()),
        Ok(Some(status)) => Err(
            app_error(1, concat("open command failed with status: ", status).as_str()),
        ),
        Err(m) => Err(app_error(1, concat("Failed to run 'open': ", m).as_str())),
    }
}

/// What a build goes by: what it is told, else its version and the revision that it was made from.
pub open spec fn build_name(
    told: Option<Seq<char>>,
    version: Seq<char>,
    revision: Option<Seq<char>>,
    changed: bool,
) -> Seq<char> {
    match set_text(told) {
        Some(t) => t,
        None => version + "+"@ + (match revision {
            Some(r) => r,
            None => "nogit"@,
        }) + (if changed {
            "-dirty"@
        } else {
            ""@
        }),
    }
}

/// What a build goes by. `changed` says whether there is something that no revision holds.
pub fn build_id(told: Option<&str>, version: &str, revision: Option<&str>, changed: bool) -> (r:
    String)
    ensures
        r@ == build_name(str_view(told), version@, str_view(revision), changed),
{
    match read_setting(told) {
        Some(t) => t,
        None => {
            let mut out = concat3(
                version,
                "+",
                match revision {
                    Some(r) => r,
                    None => "nogit",
                },
            );
            out.append(
                if changed {
                    "-dirty"
                } else {
                    ""
                },
            );
            out
        },
    }
}

// ---------------------------------------------------------------------------------------------
// What is said of a session
// ---------------------------------------------------------------------------------------------

/// Every measured time stands under its name, in order.
pub proof fn phases_stand_under_their_names(
    names: Seq<&'static str>,
    values: Seq<Number>,
    n: int,
    i: int,
)
    requires
        0 <= i < n,
    ensures
        phase_pairs(names, values, n).len() == n,
        phase_pairs(names, values, n)[i] == (names[i]@, Tree::Number(values[i]@)),
    decreases n,
{
    if i < n - 1 {
        phases_stand_under_their_names(names, values, n - 1, i);
    } else if n > 1 {
        phases_stand_under_their_names(names, values, n - 1, 0);
    } else {
        assert(phase_pairs(names, values, 0) =~= Seq::empty());
    }
}

/// A session has a directory of its own under its id, with all that it keeps in it.
pub proof fn sessions_keep_everything_in_their_directory(
    l: Layout,
    sessions_dir: Seq<char>,
    id: Seq<char>,
)
    requires
        is_layout(l, sessions_dir, id),
        sessions_dir.len() > 0,
        sessions_dir.last() != '/',
        id.len() > 0,
        id[0] != '/',
        id.last() != '/',
    ensures
        l.session_dir@ == sessions_dir + seq!['/'] + id,
        l.screenshots_dir@ == l.session_dir@ + seq!['/'] + "screenshots"@,
        l.audio_path@ == l.session_dir@ + seq!['/'] + "audio.wav"@,
        l.events_path@ == l.session_dir@ + seq!['/'] + "events.jsonl"@,
        l.ffmpeg_log_path@ == l.session_dir@ + seq!['/'] + "ffmpeg.log"@,
{
    reveal_strlit("screenshots");
    reveal_strlit("audio.wav");
    reveal_strlit("events.jsonl");
    reveal_strlit("ffmpeg.log");
    lemma_path_inside(sessions_dir, id);
    let dir = l.session_dir@;
    assert(dir.last() == id.last());
    lemma_path_inside(dir, "screenshots"@);
    lemma_path_inside(dir, "audio.wav"@);
    lemma_path_inside(dir, "events.jsonl"@);
    lemma_path_inside(dir, "ffmpeg.log"@);
}

proof fn lemma_path_inside(dir: Seq<char>, rel: Seq<char>)
    requires
        dir.len() > 0,
        dir.last() != '/',
        rel.len() > 0,
        rel[0] != '/',
    ensures
        joined_path(dir, rel) == dir + seq!['/'] + rel,
{
    reveal_strlit("/");
    assert("/"@ =~= seq!['/']);
    if "/"@.is_prefix_of(rel) {
        assert(rel.subrange(0, 1)[0] == rel[0]);
    }
    if "/"@.is_suffix_of(dir) {
        assert(dir.subrange(dir.len() - 1, dir.len() as int)[0] == dir.last());
    }
}

/// A session that has just begun has nothing transcribed, is not paused, and has only its recorder.
pub proof fn sessions_begin_with_their_recorder(s: SessionState, l: Layout, b: SessionStart)
    requires
        is_fresh(s, l, b),
    ensures
        s.ffmpeg_pid == Some(b.recorder_pid),
        s.session_id@ == b.session_id@,
        s.audio_path@ == l.audio_path@,
        s.events_path@ == l.events_path@,
        s.session_dir@ == l.session_dir@,
        s.screenshots_dir@ == l.screenshots_dir@,
        s.ffmpeg_log_path@ == l.ffmpeg_log_path@,
        s.started_at_iso@ == b.started_at_iso@,
        s.screenshot_source_dir@ == b.screenshot_source_dir@,
        s.audio_device@ == b.audio_device@,
        s.engine@ == b.engine@,
        s.started_at_epoch == b.started_at_epoch,
        s.clipboard_watcher_pid is None && s.transcription_watcher_pid is None,
        !s.transcription_paused && s.transcription_pause_started_sec is None,
        s.transcription_cursor_sec == (Measure { bits: 0 }),
{
}

/// What was added to a transcript is what is new, without the space around it; where it was not added
/// to but changed, all of it is.
pub proof fn added_words_are_news(shown: Seq<char>, added: Seq<char>, other: Seq<char>)
    ensures
        news(shown + added, shown) == trimmed(added),
        !shown.is_prefix_of(other) ==> news(other, shown) == other,
        news(added, Seq::empty()) == trimmed(added),
{
    let all = shown + added;
    assert(all.subrange(0, shown.len() as int) =~= shown);
    assert(all.subrange(shown.len() as int, all.len() as int) =~= added);
    assert(added.subrange(0, 0) =~= Seq::<char>::empty());
    assert(added.subrange(0, added.len() as int) =~= added);
}

/// A session listens, or is paused for as long as is said.
pub proof fn paused_sessions_say_for_how_long(paused_for: Measure)
    ensures
        listen_state(false, paused_for) == "Listening"@,
        listen_state(true, paused_for) == "Paused "@ + clock_duration(paused_for.whole_of() as nat),
{
}

/// A build goes by what it is told, and else by its version and revision; what no revision holds is
/// marked.
pub proof fn builds_go_by_version_and_revision(
    told: Seq<char>,
    version: Seq<char>,
    revision: Seq<char>,
    changed: bool,
)
    ensures
        trimmed(told).len() > 0 ==> build_name(Some(told), version, Some(revision), changed)
            == trimmed(told),
        build_name(None, version, Some(revision), true) == version + "+"@ + revision + "-dirty"@,
        build_name(None, version, Some(revision), false) == version + "+"@ + revision,
        build_name(None, version, None, false) == version + "+"@ + "nogit"@,
        trimmed(told).len() == 0 ==> build_name(Some(told), version, Some(revision), changed)
            == build_name(None, version, Some(revision), changed),
{
    reveal_strlit("");
    let a = version + "+"@ + revision;
    assert(a + ""@ =~= a);
    let b = version + "+"@ + "nogit"@;
    assert(b + ""@ =~= b);
}

/// What is said of a session names its processes and says which of them live.
pub proof fn statuses_name_the_processes(state: SessionState, a: Alive)
    ensures
        ({
            let t = process_lines(state, a);
            &&& contains(t, "Active session: "@ + state.session_id@ + "\nsession_dir: "@)
            &&& contains(t, "\nsession_dir: "@ + state.session_dir@ + "\nffmpeg_pid: "@)
            &&& contains(
                t,
                "\nffmpeg_pid: "@ + shown_pid(state.ffmpeg_pid) + " (alive="@ + shown_bool(
                    a.recorder,
                ),
            )
            &&& contains(
                t,
                ")\nclipboard_watcher_pid: "@ + shown_pid(state.clipboard_watcher_pid) + " (alive="@
                    + shown_bool(a.clipboard_watcher),
            )
            &&& contains(
                t,
                ")\ntranscription_watcher_pid: "@ + shown_pid(state.transcription_watcher_pid)
                    + " (alive="@ + shown_bool(a.transcription_watcher),
            )
        }),
        shown_pid(None) == "none"@,
        state.ffmpeg_pid matches Some(p) ==> shown_pid(state.ffmpeg_pid) == signed_decimal(p as int),
        shown_bool(true) == "true"@,
        shown_bool(false) == "false"@,
{
    lemma_status_parts(
        "Active session: "@,
        state.session_id@,
        "\nsession_dir: "@,
        state.session_dir@,
        "\nffmpeg_pid: "@,
        shown_pid(state.ffmpeg_pid),
        " (alive="@,
        shown_bool(a.recorder),
        ")\nclipboard_watcher_pid: "@,
        shown_pid(state.clipboard_watcher_pid),
        shown_bool(a.clipboard_watcher),
        ")\ntranscription_watcher_pid: "@,
        shown_pid(state.transcription_watcher_pid),
        shown_bool(a.transcription_watcher),
        ")"@,
    );
}

proof fn lemma_status_parts(
    l1: Seq<char>,
    id: Seq<char>,
    l2: Seq<char>,
    dir: Seq<char>,
    l3: Seq<char>,
    p1: Seq<char>,
    l4: Seq<char>,
    b1: Seq<char>,
    l5: Seq<char>,
    p2: Seq<char>,
    b2: Seq<char>,
    l6: Seq<char>,
    p3: Seq<char>,
    b3: Seq<char>,
    l7: Seq<char>,
)
    ensures
        ({
            let t = l1 + id + l2 + dir + l3 + p1 + l4 + b1 + l5 + p2 + l4 + b2 + l6 + p3 + l4 + b3
                + l7;
            &&& contains(t, l1 + id + l2)
            &&& contains(t, l2 + dir + l3)
            &&& contains(t, l3 + p1 + l4 + b1)
            &&& contains(t, l5 + p2 + l4 + b2)
            &&& contains(t, l6 + p3 + l4 + b3)
        }),
{
    let none = Seq::<char>::empty();
    let s1 = l1 + id + l2;
    let s2 = s1 + dir + l3;
    let s3 = s2 + p1 + l4 + b1;
    let s4 = s3 + l5 + p2 + l4 + b2;
    let s5 = s4 + l6 + p3 + l4 + b3;
    lemma_contains_itself(s1);
    lemma_part(s2, l1 + id, l2 + dir + l3, none);
    lemma_part(s3, s1 + dir, l3 + p1 + l4 + b1, none);
    lemma_part(s4, s3, l5 + p2 + l4 + b2, none);
    lemma_part(s5, s4, l6 + p3 + l4 + b3, none);
    lemma_two_more(s1, dir, l3, s1);
    let q2 = l2 + dir + l3;
    lemma_two_more(s2, p1, l4, s1);
    lemma_two_more(s2, p1, l4, q2);
    lemma_more(s2 + p1 + l4, b1, s1);
    lemma_more(s2 + p1 + l4, b1, q2);
    let q3 = l3 + p1 + l4 + b1;
    let parts = seq![s1, q2, q3];
    assert forall|k: int| 0 <= k < 3 implies contains(s5 + l7, #[trigger] parts[k]) by {
        let q = parts[k];
        lemma_two_more(s3, l5, p2, q);
        lemma_two_more(s3 + l5 + p2, l4, b2, q);
        lemma_two_more(s4, l6, p3, q);
        lemma_two_more(s4 + l6 + p3, l4, b3, q);
        lemma_more(s5, l7, q);
    }
    assert(parts[0] == s1 && parts[1] == q2 && parts[2] == q3);
    let q4 = l5 + p2 + l4 + b2;
    lemma_two_more(s4, l6, p3, q4);
    lemma_two_more(s4 + l6 + p3, l4, b3, q4);
    lemma_more(s5, l7, q4);
    lemma_more(s5, l7, l6 + p3 + l4 + b3);
}

/// What is said of the transcription names the last event and its reason, the log, the cursor, and
/// for how long it is paused.
pub proof fn statuses_tell_the_progress(state: SessionState, p: Progress, t: StatusTimes)
    ensures
        p.kind is None && p.reason is None && p.log_path is None && t.paused_for is None
            ==> progress_lines(state, p, t) == "\ntranscription_watcher_event: "@ + "none"@
            + Seq::<char>::empty() + "\ntranscription_watcher_log: "@ + "none"@
            + "\ntranscription_cursor_sec: "@ + t.cursor@ + "\ntranscription_paused: "@ + (
        if state.transcription_paused {
            "true"@
        } else {
            "false"@
        }) + Seq::<char>::empty(),
        p.kind matches Some(k) ==> (p.reason matches Some(why) ==> ("\ntranscription_watcher_event: "@
            + k@ + (" (reason="@ + why@ + ")"@)).is_prefix_of(progress_lines(state, p, t))),
        t.max_session is None ==> cap_line(t).len() == 0,
        t.max_session matches Some(m) ==> (t.auto_stop_in matches Some(a) ==> cap_line(t)
            == "\nmax_session_sec: "@ + m@ + (" (auto_stop_in="@ + a@ + "s)"@)),
{
    if let Some(k) = p.kind {
        if let Some(why) = p.reason {
            let front = "\ntranscription_watcher_event: "@ + k@ + (" (reason="@ + why@ + ")"@);
            let l = progress_lines(state, p, t);
            assert(l.subrange(0, front.len() as int) =~= front);
        }
    }
}

/// Where no session runs that is reported, under the command that was given.
pub proof fn idle_commands_say_so(action: Seq<char>)
    ensures
        field(no_active_tree(action), "ok"@) == Some(Tree::Bool(true)),
        text_field(no_active_tree(action), "action"@) == Some(action),
        field(no_active_tree(action), "active"@) == Some(Tree::Bool(false)),
        text_field(no_active_tree(action), "message"@) == Some("No active session."@),
{
    reveal_strlit("ok");
    reveal_strlit("action");
    reveal_strlit("active");
    reveal_strlit("message");
    assert("ok"@.len() == 2 && "action"@.len() == 6 && "active"@.len() == 6);
    assert("action"@[4] == 'o' && "active"@[4] == 'v' && "message"@.len() == 7);
    let p = seq![
        ("ok"@, Tree::Bool(true)),
        ("action"@, Tree::Text(action)),
        ("active"@, Tree::Bool(false)),
        ("message"@, Tree::Text("No active session."@)),
    ];
    pairs_read_back(p, 0);
    pairs_read_back(p, 1);
    pairs_read_back(p, 2);
    pairs_read_back(p, 3);
}

/// What an event says of the transcription is kept field by field.
pub proof fn progress_is_what_the_event_says(p: Progress, event: Tree)
    requires
        is_progress(p, Some(event)),
    ensures
        opt_view(p.kind) == text_field(event, "type"@),
        opt_view(p.reason) == text_field(event, "reason"@),
        opt_view(p.log_path) == text_field(event, "log_path"@),
        opt_view(p.command_preview) == text_field(event, "command_preview"@),
{
}

/// A chunk is shown by its number, how it went, its span and how many words it has.
pub proof fn chunks_are_shown_on_a_line(
    result: Tree,
    id: u64,
    status: Seq<char>,
    words: u64,
    start: Seq<char>,
    end: Seq<char>,
)
    requires
        crate::json::field(result, "chunk_id"@) == Some(Tree::Number(NumberView::Unsigned(id))),
        text_field(result, "status"@) == Some(status),
        crate::json::field(result, "words"@) == Some(Tree::Number(NumberView::Unsigned(words))),
    ensures
        chunk_line_of(result, start, end) == "Chunk "@ + decimal(id as nat) + " ["@ + status
            + "]: "@ + start + "s -> "@ + end + "s ("@ + decimal(words as nat) + " words)"@,
        pause_word(true) == "pause"@,
        pause_word(false) == "unpause"@,
{
}

/// The event of a screenshot that was taken says when, where it lies and how it was made.
pub proof fn taken_shots_say_where_they_lie(
    ts: Seq<char>,
    t: ShotTarget,
    audio_sec: NumberView,
    mtime_epoch: NumberView,
    c: ShotContext,
)
    ensures
        ({
            let e = Tree::Object(object_of(taken_pairs(ts, t, audio_sec, mtime_epoch, c)));
            &&& text_field(e, "ts"@) == Some(ts)
            &&& text_field(e, "type"@) == Some("screenshot_taken"@)
            &&& text_field(e, "dest_abs"@) == Some(t.dest_abs@)
            &&& crate::json::field(e, "mtime_epoch"@) == Some(Tree::Number(mtime_epoch))
            &&& text_field(e, "method"@) == Some("direct_screencapture"@)
        }),
{
    reveal_strlit("ts");
    reveal_strlit("type");
    reveal_strlit("id");
    reveal_strlit("dest");
    reveal_strlit("dest_abs");
    reveal_strlit("audioSec");
    reveal_strlit("mtime_epoch");
    reveal_strlit("method");
    reveal_strlit("app");
    reveal_strlit("app_capture_error");
    reveal_strlit("process");
    reveal_strlit("process_capture_error");
    assert("ts"@.len() == 2 && "ts"@[0] == 't' && "type"@.len() == 4 && "type"@[0] == 't');
    assert("id"@.len() == 2 && "id"@[0] == 'i' && "dest"@.len() == 4 && "dest"@[0] == 'd');
    assert("dest_abs"@.len() == 8 && "dest_abs"@[0] == 'd' && "audioSec"@.len() == 8);
    assert("audioSec"@[0] == 'a' && "mtime_epoch"@.len() == 11 && "method"@.len() == 6);
    assert("app"@.len() == 3 && "app_capture_error"@.len() == 17 && "process"@.len() == 7);
    assert("process_capture_error"@.len() == 21);
    let p = taken_pairs(ts, t, audio_sec, mtime_epoch, c);
    pairs_read_back(p, 0);
    pairs_read_back(p, 1);
    pairs_read_back(p, 4);
    pairs_read_back(p, 6);
    pairs_read_back(p, 7);
}

} // verus!
