//! A session from start to fork, and the parts that everything is built from.

use riff::cli::{Commands, DaemonAction, ListArgs, StopArgs, ToggleArgs};
use riff::error::app_error;
use riff::json::{comes_before, Fields, Json, Number};
use riff::measure::Measure;
use riff::models::SessionState;
use riff::moment::{now_iso, parse_iso, session_stamp, started_moment, Moment};
use riff::number::{
    decimal_text, pad_left, pad_right, parse_bounded, parse_i32, parse_u64, reads_as_decimal,
    repeat, signed_text,
};
use riff::pattern::{
    contains_text, ends_with, join, lines, replace, split, split_once, starts_with, strip_prefix,
    words,
};
use riff::probe::{FrontmostAppMeta, ProcessStats};
use riff::session::{
    already_paused_report, capture_result, chunk_text, error_report, fork_result, fork_start_args,
    html_target, idle_status_report, idle_status_text, initial_state, live_chunk_stats, live_line,
    live_poll_ms, new_words, next_shot, no_active_report, no_ffmpeg_error, no_session_error,
    open_result, pause, pause_error, pause_step, phases_json, progress_of, screenshot_taken_event,
    session_forked, session_layout, shot_context, start_conflict, status_text, toggle_pauses,
    toggle_resolved, toggle_start_args, toggle_stop_args, unpause, wants_warmup, word_count, Alive,
    CaptureEnd, PauseStep, SessionStart, StatusTimes, START_PHASES,
};
use riff::shots::{
    backup_name, detect_screenshot_dir, expand_tilde, find_session_screenshots, find_shot, framed,
    module_source, normalize_module, screenshot_variant_selected, shot_base, shot_move,
    shot_variant, system_screenshot_dir, DatedFile, Place, Raster,
};
use riff::text::{is_blank, same, to_ascii_lower, trim, trim_end, trim_start};
use riff::watcher::{
    choose_watch_script, clipboard_watcher_gate, confirms_mic, latest_transcription_watcher_event,
    max_session_sec, watchdog_step, watcher_gate, watcher_pid, WatchdogStep, WatcherStart,
};
use riff::wire::read_json;
use serde_json::Value;

fn float(f: f64) -> Number {
    Number::Float(Measure { bits: f.to_bits() }, format!("{:?}", f))
}

fn to_value(j: &Json) -> Value {
    match j {
        Json::Null => Value::Null,
        Json::Bool(b) => Value::Bool(*b),
        Json::Number(Number::Unsigned(u)) => Value::from(*u),
        Json::Number(Number::Negative(i)) => Value::from(*i),
        Json::Number(Number::Float(m, _)) => Value::from(f64::from_bits(m.bits)),
        Json::Text(s) => Value::String(s.clone()),
        Json::List(items) => Value::Array(items.iter().map(to_value).collect()),
        Json::Object(fields) => {
            Value::Object(fields.iter().map(|(k, v)| (k.clone(), to_value(v))).collect())
        }
    }
}

fn parse(text: &str) -> Json {
    read_json(text).unwrap()
}

fn check(j: &Json, text: &str) {
    assert_eq!(to_value(j), serde_json::from_str::<Value>(text).unwrap());
}

fn measure(f: f64) -> Measure {
    Measure { bits: f.to_bits() }
}

fn started() -> SessionState {
    let layout = session_layout("/r/sessions", "20260101-000000");
    initial_state(
        &layout,
        &SessionStart {
            session_id: "20260101-000000",
            started_at_iso: "2026-01-01T00:00:00.000Z",
            started_at_epoch: measure(1767225600.0),
            screenshot_source_dir: "/shots",
            audio_device: ":0",
            engine: "parakeet",
            recorder_pid: 10,
        },
    )
}

#[test]
fn a_session_begins_fresh() {
    let s = started();
    assert_eq!(s.session_dir, "/r/sessions/20260101-000000");
    assert_eq!(s.audio_path, "/r/sessions/20260101-000000/audio.wav");
    assert_eq!(s.events_path, "/r/sessions/20260101-000000/events.jsonl");
    assert_eq!(s.ffmpeg_pid, Some(10));
    assert_eq!(s.transcription_cursor_sec, measure(0.0));
    assert!(!s.transcription_paused);
    let e = start_conflict(&s, true).unwrap();
    assert_eq!(e.code, 2);
    assert_eq!(
        e.message,
        "A session is already active (session_id=20260101-000000, pid=10)."
    );
    assert!(start_conflict(&s, false).is_none());
    assert_eq!(no_ffmpeg_error().code, 5);
    assert_eq!(no_session_error().code, 4);
    assert!(wants_warmup(None, true, &Some("/p.py".to_string())));
    assert!(!wants_warmup(Some("cmd"), true, &Some("/p.py".to_string())));
    assert!(!wants_warmup(None, true, &None));
    check(
        &no_active_report("stop"),
        r#"{"ok":true,"action":"stop","active":false,"message":"No active session."}"#,
    );
    let values: Vec<Number> = START_PHASES.iter().map(|_| Number::Unsigned(1)).collect();
    let phases = phases_json(&START_PHASES, &values);
    assert_eq!(phases.get_u64("ffmpeg_check_ms"), Some(1));
    assert_eq!(to_value(&phases).as_object().unwrap().len(), 15);
}

#[test]
fn pausing_and_going_on_are_inverse() {
    let mut s = started();
    assert_eq!(pause_step(&s, true, true), PauseStep::Signal(10));
    assert_eq!(pause_step(&s, false, true), PauseStep::Already);
    assert_eq!(pause_step(&s, true, false), PauseStep::RecorderGone(10));
    assert!(toggle_pauses(&None));
    pause(&mut s, measure(5.0));
    assert!(s.transcription_paused);
    assert_eq!(s.transcription_pause_started_sec, Some(measure(5.0)));
    assert_eq!(pause_step(&s, true, true), PauseStep::Already);
    unpause(&mut s);
    assert!(!s.transcription_paused);
    assert_eq!(s.transcription_pause_started_sec, None);
    s.ffmpeg_pid = None;
    assert_eq!(pause_step(&s, true, true), PauseStep::NoRecorder);
    assert_eq!(
        pause_error(PauseStep::NoRecorder, false).unwrap().message,
        "Active session has no recorder pid; cannot unpause."
    );
    assert_eq!(
        pause_error(PauseStep::RecorderGone(3), true).unwrap().message,
        "Recorder pid=3 is not alive; cannot pause."
    );
    assert!(pause_error(PauseStep::Already, true).is_none());
    check(
        &already_paused_report("s"),
        r#"{"ok":true,"action":"pause","session_id":"s","already_paused":true}"#,
    );
    assert!(!toggle_pauses(&Some(SessionState { transcription_paused: true, ..s })));
}

#[test]
fn screenshots_are_taken_and_described() {
    let t = next_shot(4, "/d/screenshots");
    assert_eq!((t.shot_id, t.dest_rel.as_str()), (5, "screenshots/shot-005.png"));
    assert_eq!(t.dest_abs, "/d/screenshots/shot-005.png");
    assert!(capture_result(&CaptureEnd::Done(true), "/d").is_ok());
    assert_eq!(
        capture_result(&CaptureEnd::Failed(Some(1), "x".to_string()), "/d").unwrap_err().code,
        9
    );
    assert_eq!(
        capture_result(&CaptureEnd::Failed(Some(2), "exit status: 2".to_string()), "/d")
            .unwrap_err()
            .message,
        "screencapture failed with status: exit status: 2"
    );
    assert!(capture_result(&CaptureEnd::Done(false), "/d").is_err());
    assert!(capture_result(&CaptureEnd::NotRun("x".to_string()), "/d").is_err());
    let app = FrontmostAppMeta {
        name: "Safari".to_string(),
        bundle_id: None,
        pid: Some(7),
        window_title: Some("t".to_string()),
    };
    let stats = ProcessStats {
        cpu_percent: float(1.5),
        mem_percent: float(0.5),
        rss_kb: 3,
        elapsed: None,
        state: None,
        command: None,
    };
    let context = shot_context(&Ok(app), &Some(Ok(stats)));
    let event = screenshot_taken_event("t", &t, &float(1.0), &float(2.0), &context);
    check(
        &event,
        r#"{"ts":"t","type":"screenshot_taken","id":5,"dest":"screenshots/shot-005.png",
            "dest_abs":"/d/screenshots/shot-005.png","audioSec":1.0,"mtime_epoch":2.0,
            "method":"direct_screencapture",
            "app":{"name":"Safari","bundle_id":null,"pid":7,"window_title":"t"},
            "app_capture_error":null,
            "process":{"cpu_percent":1.5,"mem_percent":0.5,"rss_kb":3,"elapsed":null,"state":null,
                "command":null},
            "process_capture_error":null}"#,
    );
    let none = shot_context(&Err("denied".to_string()), &None);
    assert_eq!(none.app_capture_error.as_deref(), Some("denied"));
    assert_eq!(none.process_capture_error.as_deref(), Some("app_pid_unavailable"));
}

#[test]
fn chunks_are_told_in_a_line() {
    let result = parse(r#"{"chunk_id":2,"status":"ok","words":7}"#);
    assert_eq!(
        chunk_text(&result, "0.000", "2.500"),
        "Chunk 2 [ok]: 0.000s -> 2.500s (7 words)"
    );
    assert_eq!(chunk_text(&parse("{}"), "0", "1"), "Chunk 0 [unknown]: 0s -> 1s (0 words)");
}

fn toggle_args() -> ToggleArgs {
    ToggleArgs {
        screenshot_dir: Some("/s".to_string()),
        audio_device: ":1".to_string(),
        engine: Some("elevenlabs".to_string()),
        no_stop_hooks: true,
        no_hooks: false,
        with_post_hook: vec!["h".to_string()],
        transcribe_cmd: Some("t".to_string()),
        post_transcribe_cmd: None,
        python_bin: None,
        parakeet_script: None,
        parakeet_model: Some("m".to_string()),
    }
}

#[test]
fn toggles_hand_their_arguments_on() {
    let start = toggle_start_args(&toggle_args());
    assert_eq!(start.screenshot_dir.as_deref(), Some("/s"));
    assert_eq!(start.engine.as_deref(), Some("elevenlabs"));
    let stop: StopArgs = toggle_stop_args(&toggle_args());
    assert!(stop.no_stop_hooks);
    assert_eq!(stop.with_post_hook, vec!["h"]);
    assert_eq!(stop.parakeet_model.as_deref(), Some("m"));
    check(&toggle_resolved(true), r#"{"resolved_to":"stop"}"#);
}

#[test]
fn forks_go_on_as_the_session_did() {
    let args = fork_start_args(&started());
    assert_eq!(args.screenshot_dir.as_deref(), Some("/shots"));
    assert_eq!(args.audio_device, ":0");
    assert!(fork_result("a", "b", &None, &None).is_ok());
    let e = fork_result("a", "b", &None, &Some(app_error(7, "gone"))).unwrap_err();
    assert_eq!(e.code, 7);
    assert_eq!(
        e.message,
        "Forked to new session b, but failed finalizing old session a: gone"
    );
    let e = fork_result("a", "b", &Some(app_error(3, "disk")), &Some(app_error(7, "gone")))
        .unwrap_err();
    assert_eq!(e.code, 1);
    assert!(e.message.ends_with("failed to restore active state: disk"));
    check(
        &session_forked("a", "b", &Number::Unsigned(1), &Number::Unsigned(2)),
        r#"{"old_session_id":"a","new_session_id":"b","split_gap_ms":1,"split_to_running_ms":2}"#,
    );
}

#[test]
fn the_status_is_shown() {
    assert_eq!(idle_status_text("b"), "No active session.\nbuild_id: b");
    check(&idle_status_report("b"), r#"{"active":false,"build_id":"b"}"#);
    let alive = Alive { recorder: true, clipboard_watcher: false, transcription_watcher: false };
    let progress = progress_of(&Some(parse(
        r#"{"type":"transcription_watcher_not_started","reason":"disabled"}"#,
    )));
    let times = StatusTimes {
        cursor: "0.000",
        paused_for: None,
        max_session: Some("90"),
        auto_stop_in: Some("63.204"),
    };
    let text = status_text(&started(), &alive, &progress, &times, "b");
    assert!(text.contains("ffmpeg_pid: 10 (alive=true)"));
    assert!(text.contains("clipboard_watcher_pid: none (alive=false)"));
    assert!(text.contains(
        "transcription_watcher_event: transcription_watcher_not_started (reason=disabled)"
    ));
    assert!(text.contains("max_session_sec: 90 (auto_stop_in=63.204s)"));
    assert!(text.ends_with("build_id: b"));
}

#[test]
fn live_sessions_are_shown_on_a_line() {
    let events = vec![
        parse(r#"{"type":"transcript_chunk","status":"ok"}"#),
        parse(r#"{"type":"transcript_chunk","status":"skipped"}"#),
        parse(r#"{"type":"x","status":"ok"}"#),
    ];
    let stats = live_chunk_stats(&events);
    assert_eq!((stats.total, stats.ok, stats.skipped, stats.error), (2, 1, 1, 0));
    let line = live_line(&measure(61.0), 2, word_count("a b\nc"), stats, false, &measure(0.0));
    assert_eq!(
        line,
        "LIVE • 00:01:01 • 2 screenshots • 3 words • chunks 2 (ok 1, skipped 1, err 0) • Listening"
    );
    let paused = live_line(&measure(61.0), 2, 3, stats, true, &measure(5.0));
    assert!(paused.ends_with("• Paused 00:00:05"));
    assert_eq!(new_words("hello there", "hello"), "there");
    assert_eq!(new_words("hello", "hello"), "");
    assert_eq!(new_words("other", "hello"), "other");
    assert_eq!(live_poll_ms(1), 200);
    assert_eq!(live_poll_ms(500), 500);
}

#[test]
fn pages_are_opened() {
    assert_eq!(html_target("/d/note.html", "http://h/", "s", true), "http://h/sessions/s/note.html");
    assert_eq!(html_target("/d/note.html", "http://h/", "s", false), "/d/note.html");
    assert!(open_result(Ok(None)).is_ok());
    assert_eq!(open_result(Err("x")).unwrap_err().message, "Failed to run 'open': x");
    assert!(open_result(Ok(Some("exit status: 1"))).is_err());
    check(&error_report(&app_error(8, "x")), r#"{"ok":false,"error":"x","code":8}"#);
}

#[test]
fn watchers_start_where_they_should() {
    assert!(watcher_gate(Some("0"), None).is_some());
    assert!(watcher_gate(Some("1"), None).is_none());
    assert!(clipboard_watcher_gate(None, true).is_none());
    assert!(clipboard_watcher_gate(None, false).is_some());
    let scripts = vec!["/a".to_string(), "/b".to_string()];
    let texts = vec![Some("nothing".to_string()), Some("x --watch-audio y".to_string())];
    assert_eq!(choose_watch_script(&scripts, &texts).as_deref(), Some("/b"));
    assert_eq!(watcher_pid(&WatcherStart::Started(5)), Some(5));
    assert_eq!(watcher_pid(&WatcherStart::NoPython), None);
    let log = "{\"type\":\"transcript_probe\"}\n{\"type\":\"transcription_watcher_started\",\"n\":1}\n\
               {\"type\":\"screenshot_taken\"}\n \n{\"type\":\"transcript_ch";
    assert_eq!(latest_transcription_watcher_event(log).unwrap().get_u64("n"), Some(1));
    assert!(latest_transcription_watcher_event("{}\n[]\n").is_none());
}

#[test]
fn sessions_are_capped() {
    assert_eq!(max_session_sec(Some(measure(0.0))), None);
    assert!(max_session_sec(None).is_some());
    assert_eq!(
        watchdog_step("s", Some("s"), true, &measure(91.0), &measure(90.0)),
        WatchdogStep::Stop
    );
    assert_eq!(
        watchdog_step("s", Some("s"), true, &measure(10.0), &measure(90.0)),
        WatchdogStep::Wait
    );
    assert_eq!(
        watchdog_step("s", Some("other"), true, &measure(91.0), &measure(90.0)),
        WatchdogStep::Leave
    );
    assert!(confirms_mic(false, 10_000));
    assert!(!confirms_mic(true, 10_000));
    assert!(!confirms_mic(false, 0));
}

#[test]
fn screenshots_are_found_by_their_time() {
    let files = vec![
        DatedFile { name: "b.png".to_string(), mtime: measure(20.0) },
        DatedFile { name: "a.jpg".to_string(), mtime: measure(10.0) },
        DatedFile { name: "late.png".to_string(), mtime: measure(99.0) },
        DatedFile { name: "x.txt".to_string(), mtime: measure(15.0) },
    ];
    let found = find_session_screenshots(&files, &measure(5.0), &measure(30.0));
    let names: Vec<&str> = found.iter().map(|f| f.name.as_str()).collect();
    assert_eq!(names, vec!["a.jpg", "b.png"]);
    let m = shot_move("a.JPG", "/d/screenshots", 3, 0);
    assert_eq!(m.shot_id, 4);
    assert!(m.dest_abs.starts_with("/d/screenshots/shot-004."));
    assert_eq!(shot_base(12), "shot-012");
    assert_eq!(expand_tilde("~/x", "/h"), "/h/x");
    assert_eq!(system_screenshot_dir(Some("~/Desktop\n"), "/h").as_deref(), Some("/h/Desktop"));
    let desktop = Place { path: "/h/Desktop", is_dir: false };
    assert_eq!(detect_screenshot_dir(None, None, desktop).unwrap_err().code, 3);
    let explicit = Place { path: "/s", is_dir: true };
    let desktop = Place { path: "/h/Desktop", is_dir: true };
    assert_eq!(detect_screenshot_dir(Some(explicit), None, desktop).unwrap(), "/s");
}

#[test]
fn frames_surround_the_picture() {
    let img = Raster { width: 1, height: 1, pixels: vec![1, 2, 3, 255] };
    let out = framed(&img, 1);
    assert_eq!((out.width, out.height), (3, 3));
    assert_eq!(&out.pixels[0..4], [236, 241, 248, 255]);
    assert_eq!(&out.pixels[16..20], [1, 2, 3, 255]);
    let clear = Raster { width: 1, height: 1, pixels: vec![1, 2, 3, 0] };
    assert_eq!(&framed(&clear, 1).pixels[16..20], [236, 241, 248, 255]);
}

#[test]
fn variants_of_a_screenshot_are_swapped() {
    let shots = vec![riff::images::plain_shot(2, "screenshots/shot-002.png", Number::Unsigned(0))];
    assert_eq!(find_shot(&shots, 2, "s").unwrap(), 0);
    assert!(find_shot(&shots, 3, "s").is_err());
    assert_eq!(normalize_module(" Framed "), "framed");
    assert!(backup_name("shot-002.png").contains("shot-002"));
    assert_eq!(module_source("/d", "/backup.png", 2, "original"), "/backup.png");
    assert!(module_source("/d", "/backup.png", 2, "framed").contains("framed"));
    let v = shot_variant("/d", 2, "framed", "Framed");
    assert!(v.abs_path.starts_with("/d/"));
    check(
        &screenshot_variant_selected(2, "framed", "/t"),
        r#"{"shot_id":2,"module":"framed","target_path":"/t"}"#,
    );
}

#[test]
fn command_templates_stay_out_of_the_log() {
    let mut args = riff::session::plain_stop_args();
    args.transcribe_cmd = Some("secret --key 1".to_string());
    args.with_post_hook = vec!["secret".to_string()];
    let command = Commands::Stop(args);
    assert_eq!(command.event_name(), "stop");
    let logged = to_value(&command.event_args()).to_string();
    assert!(!logged.contains("secret"));
    assert_eq!(command.event_args().get_u64("post_hooks"), Some(1));
    assert_eq!(Commands::TogglePause.event_name(), "toggle-pause");
    assert_eq!(DaemonAction::Status.name(), "status");
    check(&Commands::List(ListArgs { n: Some(3) }).event_args(), r#"{"n":3}"#);
}

#[test]
fn moments_are_read_and_written() {
    let at = Moment { secs: 1767225600, nanos: 123_456_789 };
    assert_eq!(now_iso(&at).as_deref(), Some("2026-01-01T00:00:00.123Z"));
    assert_eq!(session_stamp(&at).as_deref(), Some("20260101-000000"));
    assert_eq!(
        parse_iso("2026-01-01T01:00:00.123+01:00"),
        Some(Moment { secs: 1767225600, nanos: 123_000_000 })
    );
    assert_eq!(parse_iso("yesterday"), None);
    assert_eq!(
        started_moment(&None, "20260101-000000"),
        Some(Moment { secs: 1767225600, nanos: 0 })
    );
    assert_eq!(started_moment(&None, "x"), None);
    assert!(Moment { secs: 1, nanos: 0 }.before(&at));
}

#[test]
fn measures_order_as_their_values() {
    let values = [-2.5, -0.0, 0.0, 1e-300, 0.5, 1.5, 2.5, 1e18];
    for a in values {
        for b in values {
            assert_eq!(measure(a).less(&measure(b)), a < b, "{a} {b}");
        }
    }
    for v in [0.0, 0.4, 0.5, 1.5, 2.5, 1234567.49, 1e15] {
        assert_eq!(measure(v).whole(), (v as f64).round() as i64, "{v}");
    }
    assert_eq!(Measure::from_unsigned(7), measure(7.0));
    assert_eq!(Measure::from_unsigned(u64::MAX), measure(u64::MAX as f64));
    assert!(measure(-0.0).amount());
    assert!(!measure(-1.0).amount());
    assert!(!measure(f64::INFINITY).amount());
    assert!(!measure(f64::NAN).amount());
}

#[test]
fn numbers_are_written_and_read() {
    assert_eq!(decimal_text(0), "0");
    assert_eq!(decimal_text(u64::MAX), u64::MAX.to_string());
    assert_eq!(signed_text(i64::MIN), i64::MIN.to_string());
    assert_eq!(parse_u64("+7"), Some(7));
    assert_eq!(parse_u64("18446744073709551616"), None);
    assert_eq!(parse_u64(""), None);
    assert_eq!(parse_bounded("256", 255), None);
    assert_eq!(parse_i32("-2147483648"), Some(i32::MIN));
    assert_eq!(parse_i32("2147483648"), None);
    assert_eq!(pad_left("7", '0', 3), "007");
    assert_eq!(pad_right("é", 3), "é  ");
    assert_eq!(repeat('-', 3), "---");
    for good in ["1", "1.", ".5", "-1.5e-3", "+2E10"] {
        assert!(reads_as_decimal(good) && good.parse::<f64>().is_ok(), "{good}");
    }
    for bad in ["", ".", "-", "1e", "1.2.3", "0x1", " 1"] {
        assert!(!reads_as_decimal(bad) && bad.parse::<f64>().is_err(), "{bad}");
    }
}

#[test]
fn texts_are_taken_apart() {
    assert_eq!(trim(" \u{a0}a b\n"), "a b");
    assert_eq!(trim_start(" a "), "a ");
    assert_eq!(trim_end(" a "), " a");
    assert!(is_blank("\t\u{3000}"));
    assert!(same("é", "é"));
    assert_eq!(to_ascii_lower("ÄBC"), "Äbc");
    assert!(contains_text("abc", "bc") && !contains_text("abc", "cb"));
    assert!(starts_with("abc", "ab") && ends_with("abc", "bc"));
    assert_eq!(strip_prefix("abc", "a").as_deref(), Some("bc"));
    assert_eq!(split_once("a=b=c", "="), Some(("a".to_string(), "b=c".to_string())));
    assert_eq!(replace("aaa", "aa", "b"), "ba");
    assert_eq!(split("a,,b", ","), vec!["a", "", "b"]);
    assert_eq!(lines("a\r\nb\n\nc"), vec!["a", "b", "", "c"]);
    assert_eq!(words(" a  b\tc "), vec!["a", "b", "c"]);
    assert_eq!(join(&vec!["a".to_string(), "b".to_string()], "-"), "a-b");
}

#[test]
fn objects_keep_their_keys_in_order() {
    let mut fields = Fields::new();
    for key in ["b", "a", "é", "aa", "b"] {
        fields.put(key, Json::text(key));
    }
    assert!(fields.has("aa"));
    let keys: Vec<String> = fields.fields.iter().map(|(k, _)| k.clone()).collect();
    let mut sorted = keys.clone();
    sorted.sort();
    assert_eq!(keys, sorted);
    assert_eq!(keys.len(), 4);
    assert!(comes_before("a", "aa") && !comes_before("b", "aa"));
    let value = parse(r#"{"n":-5,"u":7,"b":true,"t":"x","f":1.5}"#);
    assert_eq!(value.get_i64("n"), Some(-5));
    assert_eq!(value.get_u64("n"), None);
    assert_eq!(value.get_u64("u"), Some(7));
    assert_eq!(value.get_bool("b"), Some(true));
    assert_eq!(value.get_text("t").map(|s| s.as_str()), Some("x"));
    assert!(value.get("missing").is_none());
    check(&value.copy(), r#"{"n":-5,"u":7,"b":true,"t":"x","f":1.5}"#);
    check(&Json::Null.with("a", Json::Null), "null");
}
