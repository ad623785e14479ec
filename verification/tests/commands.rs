//! The commands, as far as they decide and say something.

use riff::annotations::clipboard_from_events;
use riff::cli::Commands;
use riff::daemon::{emit_payload, validate_event_type, validate_level};
use riff::delivery::{
    copy_text, send_line, session_dump, without_marks, ImageFile, SessionDump, SessionTexts,
};
use riff::bus::no_filters;
use riff::error::AppError;
use riff::events::{command_finished, command_started, rotation_due, BusContext};
use riff::history::{
    handed_out_transcript, resolve_recent_session_dir, resolve_session_dir_by_id,
    session_started_iso,
};
use riff::json::{Json, Number};
use riff::measure::Measure;
use riff::perf::{
    count_startup_failures, empty_report, percentile, perf_report, sorted_totals, startup_line,
    Spread, NO_PERF_RECORDS,
};
use riff::session::{idle_status_text, no_active_report};
use riff::watch::{backfill, parse_since, render_line, since_error, BusLine};
use riff::wire::read_json;
use serde_json::Value;

fn float(f: f64) -> Number {
    Number::Float(Measure { bits: f.to_bits() }, format!("{:?}", f))
}

fn to_value(j: &Json) -> Value {
    match j {
        Json::Null => Value::Null,
        Json::Bool(b) => Value::Bool(*b),
        Json::Number(Number::Unsigned(u)) => Value::from(*u),
        Json::Number(Number::Negative(i)) => Value::from(*i),
        Json::Number(Number::Float(m, _)) => Value::from(f64::from_bits(m.bits)),
        Json::Text(s) => Value::String(s.clone()),
        Json::List(items) => Value::Array(items.iter().map(to_value).collect()),
        Json::Object(fields) => {
            Value::Object(fields.iter().map(|(k, v)| (k.clone(), to_value(v))).collect())
        }
    }
}

fn parse(text: &str) -> Json {
    read_json(text).unwrap()
}

fn check(j: &Json, text: &str) {
    assert_eq!(to_value(j), serde_json::from_str::<Value>(text).unwrap());
}

fn context(command: &str) -> BusContext {
    BusContext {
        inv: "1-2".to_string(),
        command: command.to_string(),
        pid: 2,
        seq: 0,
        enabled: true,
    }
}

fn lifecycle(command: &Commands, result: &Result<i32, AppError>) -> Vec<Value> {
    let mut ctx = context(command.event_name());
    let mut records = Vec::new();
    let opened = command_started(&command.event_args());
    records.extend(ctx.emit("2026-01-01T00:00:00.000Z", "command_started", None, &opened));
    let closed = command_finished(result, &Number::Unsigned(1));
    records.extend(ctx.emit_leveled(
        "2026-01-01T00:00:00.001Z",
        &closed.level,
        &closed.event_type,
        None,
        &closed.payload,
    ));
    records.iter().map(to_value).collect()
}

#[test]
fn list_on_empty_root_reports_no_sessions() {
    let e = resolve_recent_session_dir(&vec![], 1).unwrap_err();
    assert!(e.message.contains("No sessions found."));
}

#[test]
fn perf_reports_no_records_when_empty() {
    assert!(NO_PERF_RECORDS.contains("No perf records found."));
    assert_eq!(empty_report().get_u64("count"), Some(0));
}

#[test]
fn perf_json_reports_parakeet_startup_separately() {
    let events = vec![
        parse(r#"{"action":"start","total_ms":100.0}"#),
        parse(r#"{"action":"parakeet_server_startup","status":"ready","total_ms":8000.0}"#),
        parse(r#"{"action":"parakeet_server_startup","status":"ready","total_ms":10000.0}"#),
        parse(r#"{"action":"parakeet_server_startup","status":"error","total_ms":5000.0}"#),
    ];
    let spread = |action: &str| {
        let totals = sorted_totals(&events, action);
        let values: Vec<f64> = totals.iter().map(|m| f64::from_bits(m.bits)).collect();
        let at = |part: u32| percentile(&totals, part, 100).map(|m| float(f64::from_bits(m.bits)));
        Spread {
            count: totals.len(),
            avg: if values.is_empty() {
                None
            } else {
                Some(float(values.iter().sum::<f64>() / values.len() as f64))
            },
            p50: at(50),
            p95: at(95),
        }
    };
    let failures = count_startup_failures(&events);
    assert_eq!(
        startup_line(2, Some("9000.0"), Some("10000.0"), Some("10000.0"), failures),
        "parakeet cold start: count=2 avg=9000.0ms p50=10000.0ms p95=10000.0ms errors=1"
    );
    let payload = to_value(&perf_report(
        1,
        vec![],
        &spread("start"),
        &spread("stop"),
        &spread("parakeet_server_startup"),
        failures,
    ));
    let summary = &payload["summary"]["parakeet_server_startup"];
    assert_eq!(summary["count"].as_u64(), Some(2));
    assert_eq!(summary["avg_ms"].as_f64(), Some(9000.0));
    assert_eq!(summary["p50_ms"].as_f64(), Some(10000.0));
    assert_eq!(summary["p95_ms"].as_f64(), Some(10000.0));
    assert_eq!(summary["error_count"].as_u64(), Some(1));
    assert_eq!(payload["summary"]["start"]["avg_ms"].as_f64(), Some(100.0));
}

#[test]
fn show_with_missing_session_id_fails_cleanly() {
    let e = resolve_session_dir_by_id("/r/sessions", "does-not-exist", false).unwrap_err();
    assert_eq!(e.code, 8);
    assert!(e.message.contains("Session not found: does-not-exist"));
}

#[test]
fn copy_fails_when_transcript_not_available() {
    let note = Some("# Session\n\nNo transcript here\n".to_string());
    let e = handed_out_transcript(&note, &None, "/r/sessions/20260413-013012").unwrap_err();
    assert_eq!(e.code, 8);
    assert!(e.message.contains("No transcript found for session"));
}

#[test]
fn copy_prints_transcript_from_most_recent_session() {
    let names = vec!["20260413-013011".to_string(), "20260413-013012".to_string()];
    assert_eq!(resolve_recent_session_dir(&names, 1).unwrap(), "20260413-013012");
    let note = Some("# Session\n\n## Transcript\nnew words here\n".to_string());
    let text = handed_out_transcript(&note, &None, "/r").unwrap();
    let copied = copy_text(&without_marks(&text), &vec![], &vec![]);
    assert!(copied.contains("new words here"));
    assert!(!copied.contains("older words"));
}

#[test]
fn copy_omits_redundant_annotation_markers_from_transcript_body() {
    let note = concat_note();
    let text = handed_out_transcript(&Some(note), &None, "/r").unwrap();
    let copied = without_marks(&text);
    assert!(copied
        .contains("Testing, testing, testing. I've got a screenshot and copied text."));
    assert!(!copied.contains("[ghostty Screenshot 1]"));
    assert!(!copied.contains("[Clipboard 1]"));
}

fn concat_note() -> String {
    [
        "# Session\n\n",
        "## Transcript\n",
        "ghostty Screenshot 1: /tmp/riff/sessions/20260413-013012/screenshots/shot-001.png\n",
        "Clipboard 1: \"git add <file>\"\n\n",
        "Testing, testing, testing. I've got a screenshot and copied text. ",
        "[ghostty Screenshot 1] [Clipboard 1]\n",
    ]
    .concat()
}

#[test]
fn copy_appends_clipboard_captures_and_base64_screenshots() {
    let events = vec![
        parse(r#"{"ts":"2026-04-13T01:30:12.000Z","type":"session_started"}"#),
        parse(r#"{"ts":"2026-04-13T01:31:00.000Z","type":"clipboard_copied","id":1,"audioSec":3.2,"text":"line one\nline two"}"#),
    ];
    let images = vec![ImageFile { name: "shot-001.png".to_string(), bytes: b"Man".to_vec() }];
    let copied = copy_text("new words here", &clipboard_from_events(&events), &images);
    assert!(copied.contains("new words here"));
    assert!(copied.contains("----- Clipboard captures -----"));
    assert!(copied.contains("Clipboard 1:\nline one\nline two"));
    assert!(copied.contains("----- Screenshot 1 — shot-001.png (image/png, base64) -----"));
    assert!(copied.contains("TWFu"));
}

#[test]
fn copy_verbose_prints_frontmatter_and_session_payload() {
    let raw = [
        r#"{"ts":"2026-04-13T01:30:12.000Z","type":"session_started"}"#,
        r#"{"ts":"2026-04-13T01:31:22.000Z","type":"session_stopped","audio_duration_sec":10.5}"#,
    ]
    .join("\n")
        + "\n";
    let events: Vec<Json> = raw.lines().map(parse).collect();
    let images = vec!["shot-001.png".to_string()];
    let dump = session_dump(&SessionDump {
        session_id: "20260413-013012",
        session_dir: "/r/sessions/20260413-013012",
        started_at: session_started_iso(&events),
        ended_at: None,
        duration_sec: Some("10.5".to_string()),
        event_count: events.len(),
        clip_count: 0,
        transcript: "new words here",
        texts: SessionTexts {
            note: Some("# Session\n\n## Transcript\nnew words here\n"),
            transcript: Some("new words here\n"),
            events: Some(&raw),
            recorder_log: Some("ffmpeg details\n"),
        },
        images: &images,
    });
    assert!(dump.contains("---\nsession_id: \"20260413-013012\""));
    assert!(dump.contains("files:\n  note_md:"));
    assert!(dump.contains("screenshot_files:\n  - "));
    assert!(dump.contains("## Transcript"));
    assert!(dump.contains("new words here"));
    assert!(dump.contains("## Events JSONL (events.jsonl)"));
    assert!(dump.contains("\"type\":\"session_started\""));
}

#[test]
fn send_fails_when_transcript_not_available() {
    let note = Some("# Session\n\nNo transcript here\n".to_string());
    let e = handed_out_transcript(&note, &None, "/r/sessions/20260413-013012").unwrap_err();
    assert_eq!(e.code, 8);
    assert!(e.message.contains("No transcript found for session"));
}

#[test]
fn send_copies_and_pastes_transcript_from_most_recent_session() {
    let note = Some("# Session\n\n## Transcript\nnew words here\n".to_string());
    let text = handed_out_transcript(&note, &None, "/r").unwrap();
    assert_eq!(text, "new words here");
    assert!(send_line("20260413-013012", &text, false)
        .contains("Sent transcript from session 20260413-013012 to focused app."));
}

#[test]
fn status_reports_no_active_session_when_idle() {
    assert!(idle_status_text("dev").contains("No active session."));
}

#[test]
fn stop_reports_no_active_session_when_idle() {
    assert_eq!(no_active_report("stop").get_text("message").unwrap(), "No active session.");
}

#[test]
fn every_invocation_emits_command_lifecycle_events() {
    let commands = [
        Commands::List(riff::cli::ListArgs { n: None }),
        Commands::Hooks,
        Commands::Status,
    ];
    for (command, name) in commands.iter().zip(["list", "hooks", "status"]) {
        let events = lifecycle(command, &Ok(0));
        let types: Vec<&str> = events.iter().map(|e| e["type"].as_str().unwrap()).collect();
        assert_eq!(types, vec!["command_started", "command_finished"]);
        for event in &events {
            assert_eq!(event["command"], Value::from(name));
            for key in ["v", "ts", "seq", "inv", "pid", "command", "type", "level"] {
                assert!(event.get(key).is_some(), "event missing envelope key '{key}': {event}");
            }
            assert_eq!(event["v"], Value::from(1));
        }
    }
}

fn failed_show(id: &str) -> Value {
    let command = Commands::Show(riff::cli::ShowArgs { session_id: id.to_string() });
    let result = match resolve_session_dir_by_id("/r/sessions", id, false) {
        Ok(_) => panic!("there is no such session"),
        Err(e) => Err(e),
    };
    let events = lifecycle(&command, &result);
    events
        .into_iter()
        .find(|e| e["type"] == Value::from("command_failed"))
        .expect("command_failed event")
}

#[test]
fn failing_command_emits_command_failed_with_exit_code() {
    let failed = failed_show("no-such-session");
    assert_eq!(failed["command"], Value::from("show"));
    assert_eq!(failed["exit_code"], Value::from(8));
    assert_eq!(failed["level"], Value::from("error"));
    assert!(failed["error"].as_str().unwrap_or_default().contains("no-such-session"));
}

#[test]
fn bus_clips_long_payload_strings() {
    let failed = failed_show(&"z".repeat(500));
    let message = failed["error"].as_str().expect("error message");
    assert!(message.chars().count() <= 201, "error not clipped: {message}");
    assert_eq!(failed["truncated"], Value::from(true));
}

fn recorded() -> Vec<String> {
    let mut lines = Vec::new();
    for command in [Commands::Hooks, Commands::List(riff::cli::ListArgs { n: None })] {
        for record in lifecycle(&command, &Ok(0)) {
            lines.push(record.to_string());
        }
    }
    lines
}

#[test]
fn watch_once_backfills_and_filters() {
    let lines = recorded();
    let shown = |picked: Vec<BusLine>| {
        picked.iter().map(|l| render_line("", &l.event, false)).collect::<Vec<_>>().join("\n")
    };
    let all = shown(backfill(&no_filters(), &lines, None));
    assert!(all.contains("hooks") && all.contains("list"));

    let mut filters = no_filters();
    filters.commands = vec!["list".to_string()];
    let listed = shown(backfill(&filters, &lines, None));
    assert!(listed.contains("list") && !listed.contains("hooks"));

    let mut filters = no_filters();
    filters.types = vec!["command_failed".to_string()];
    assert!(shown(backfill(&filters, &lines, None)).is_empty());
}

#[test]
fn watch_json_emits_one_json_object_per_line() {
    let picked = backfill(&no_filters(), &recorded(), None);
    assert!(!picked.is_empty());
    for line in picked {
        let value: Value = serde_json::from_str(&line.raw).expect("NDJSON line");
        assert!(value.get("type").is_some());
    }
}

#[test]
fn watch_tail_limits_backfill_to_last_n() {
    assert_eq!(backfill(&no_filters(), &recorded(), Some(1)).len(), 1);
}

#[test]
fn watch_rejects_an_unparseable_since_value() {
    assert!(parse_since("whenever").is_none());
    assert!(since_error("whenever").message.contains("Invalid --since"));
}

#[test]
fn bus_rotates_once_it_passes_the_size_cap() {
    assert!(rotation_due(401, 400));
    assert!(!rotation_due(400, 400));
}

#[test]
fn event_bus_can_be_disabled() {
    let mut ctx = context("hooks");
    ctx.enabled = riff::config::bool_env_enabled(Some("0"), true);
    assert!(ctx.emit("now", "command_started", None, &Json::Null).is_none());
}

#[test]
fn emit_appends_a_fully_enveloped_event_without_the_daemon() {
    let payload = emit_payload(Some(r#"{"env":"prod","attempt":2}"#)).unwrap();
    let level = validate_level("warn").unwrap();
    let mut ctx = context("emit");
    let event = to_value(
        &ctx.emit_leveled("now", level, "deploy_started", None, &payload).expect("enabled"),
    );
    assert_eq!(event["command"], Value::from("emit"));
    assert_eq!(event["level"], Value::from("warn"));
    assert_eq!(event["env"], Value::from("prod"));
    assert_eq!(event["attempt"], Value::from(2));
    assert_eq!(event["v"], Value::from(1));
}

#[test]
fn emit_rejects_bad_types_payloads_and_levels() {
    assert!(validate_event_type("has space").is_err());
    assert!(validate_event_type("ok_type").is_ok());
    assert!(emit_payload(Some("not json")).is_err());
    assert!(emit_payload(Some("[1,2]")).is_err());
    assert!(validate_level("fatal").is_err());
}
