//! The event bus: filters, records, following the file.

use riff::bus::{complete_len, no_filters, BusTailer, EventFilters};
use riff::error::app_error;
use riff::events::{
    command_finished, command_started, invocation_id, max_bytes, reserved, rotation_due,
    truncate_value, BusContext, DEFAULT_MAX_BYTES, MAX_STRING_LEN, RESERVED_KEYS, SCHEMA_VERSION,
};
use riff::json::{Fields, Json, Number};
use riff::measure::Measure;
use riff::moment::parse_iso;
use riff::watch::{
    backfill, clock_text, describe, parse_since, poll_interval_ms, render_line, since_error,
    wants_backfill, watch_session, ClockTime,
};
use riff::wire::read_json;
use serde_json::Value;
use std::time::Duration;

fn to_value(j: &Json) -> Value {
    match j {
        Json::Null => Value::Null,
        Json::Bool(b) => Value::Bool(*b),
        Json::Number(Number::Unsigned(u)) => Value::from(*u),
        Json::Number(Number::Negative(i)) => Value::from(*i),
        Json::Number(Number::Float(m, _)) => Value::from(f64::from_bits(m.bits)),
        Json::Text(s) => Value::String(s.clone()),
        Json::List(items) => Value::Array(items.iter().map(to_value).collect()),
        Json::Object(fields) => {
            Value::Object(fields.iter().map(|(k, v)| (k.clone(), to_value(v))).collect())
        }
    }
}

fn parse(text: &str) -> Json {
    read_json(text).unwrap()
}

fn check(j: &Json, text: &str) {
    assert_eq!(to_value(j), serde_json::from_str::<Value>(text).unwrap());
}

fn bus(enabled: bool) -> BusContext {
    BusContext {
        inv: invocation_id(1700000000123, 42),
        command: "stop".to_string(),
        pid: 42,
        seq: 7,
        enabled,
    }
}

#[test]
fn empty_filters_match_everything() {
    let filters = no_filters();
    let event = parse(r#"{ "type": "anything" }"#);
    assert!(filters.matches(&event, "{\"type\":\"anything\"}"));
}

#[test]
fn type_and_command_filters_are_anded() {
    let mut filters = no_filters();
    filters.types = vec!["a".to_string()];
    filters.commands = vec!["stop".to_string()];
    assert!(filters.matches(&parse(r#"{ "type": "a", "command": "stop" }"#), ""));
    assert!(!filters.matches(&parse(r#"{ "type": "a", "command": "start" }"#), ""));
    assert!(!filters.matches(&parse(r#"{ "type": "b", "command": "stop" }"#), ""));
}

#[test]
fn grep_ignores_case_and_reads_the_raw_line() {
    let mut filters = no_filters();
    filters.grep = Some("ÄRGER".to_string());
    let event = parse(r#"{"type":"x"}"#);
    assert!(filters.matches(&event, "{\"type\":\"x\",\"note\":\"viel ärger\"}"));
    assert!(!filters.matches(&event, "{\"type\":\"x\"}"));
}

#[test]
fn since_filters_by_the_time_of_the_event() {
    let filters = EventFilters {
        types: vec![],
        commands: vec![],
        session: Some("s1".to_string()),
        grep: None,
        since: parse_iso("2026-07-28T18:00:00Z"),
    };
    let late = parse(r#"{"ts":"2026-07-28T20:03:11.482+02:00","session_id":"s1"}"#);
    let early = parse(r#"{"ts":"2026-07-28T17:59:59.999Z","session_id":"s1"}"#);
    let undated = parse(r#"{"session_id":"s1"}"#);
    let other = parse(r#"{"ts":"2026-07-28T18:03:11Z","session_id":"s2"}"#);
    assert!(filters.matches(&late, ""));
    assert!(!filters.matches(&early, ""));
    assert!(!filters.matches(&undated, ""));
    assert!(!filters.matches(&other, ""));
}

#[test]
fn long_strings_are_clipped_and_flagged() {
    let mut fields = Fields::new();
    fields.put("text", Json::text(&"x".repeat(MAX_STRING_LEN + 50)));
    let mut value = fields.object();
    let mut clipped = false;
    truncate_value(&mut value, &mut clipped);
    assert!(clipped);
    let text = value.get_text("text").expect("text");
    assert_eq!(text.chars().count(), MAX_STRING_LEN + 1); // clipped + ellipsis
}

#[test]
fn short_strings_are_left_alone() {
    let mut value = parse(r#"{ "nested": { "text": "hello" }, "list": ["a", "b"] }"#);
    let mut clipped = false;
    truncate_value(&mut value, &mut clipped);
    assert!(!clipped);
    assert_eq!(to_value(&value)["nested"]["text"], Value::from("hello"));
}

#[test]
fn truncation_recurses_into_arrays_and_objects() {
    let long = "y".repeat(MAX_STRING_LEN + 10);
    let mut deep = Fields::new();
    deep.put("deep", Json::text(&long));
    let mut outer = Fields::new();
    outer.put("list", Json::list(vec![deep.object()]));
    let mut value = outer.object();
    let mut clipped = false;
    truncate_value(&mut value, &mut clipped);
    assert!(clipped);
}

#[test]
fn envelope_contract_is_stable() {
    assert_eq!(SCHEMA_VERSION, 1);
    assert!(RESERVED_KEYS.contains(&"session_id"));
    assert!(RESERVED_KEYS.contains(&"inv"));
    assert!(reserved("pid"));
    assert!(!reserved("shot_id"));
}

#[test]
fn records_carry_the_envelope_over_the_payload() {
    let mut ctx = bus(true);
    let payload = parse(r#"{"pid":1,"server":"web","ts":"2020-01-01T00:00:00.000Z"}"#);
    let record = ctx
        .emit_leveled("2026-01-01T00:00:00.000Z", "warn", "server_killed", Some("s"), &payload)
        .expect("enabled");
    check(
        &record,
        r#"{"v":1,"ts":"2020-01-01T00:00:00.000Z","type":"server_killed","seq":7,
            "inv":"1700000000123-42","pid":42,"command":"stop","level":"warn","session_id":"s",
            "server":"web"}"#,
    );
    assert_eq!(ctx.seq, 8);
    let next = ctx.emit("now", "x", None, &Json::text("bare")).expect("enabled");
    check(
        &next,
        r#"{"v":1,"ts":"now","type":"x","seq":8,"inv":"1700000000123-42","pid":42,
            "command":"stop","level":"info","value":"bare"}"#,
    );
}

#[test]
fn long_payloads_are_flagged_in_the_record() {
    let mut ctx = bus(true);
    let mut fields = Fields::new();
    fields.put("text", Json::text(&"é".repeat(201)));
    let record = ctx.emit("now", "x", None, &fields.object()).expect("enabled");
    assert_eq!(record.get_bool("truncated"), Some(true));
    let text = record.get_text("text").expect("text");
    assert_eq!(text.as_str(), format!("{}…", "é".repeat(200)));
}

#[test]
fn a_bus_that_is_off_emits_nothing() {
    let mut ctx = bus(false);
    assert!(ctx.emit("now", "x", None, &Json::Null).is_none());
    assert_eq!(ctx.seq, 7);
}

#[test]
fn sent_events_go_by_their_sender() {
    let mut ctx = bus(true);
    let record = ctx
        .emit_as("external:ci", "now", "error", "build", None, &Json::Null)
        .expect("enabled");
    assert_eq!(record.get_text("command").unwrap(), "external:ci");
    assert_eq!(ctx.command, "stop");
    assert_eq!(ctx.seq, 8);
}

#[test]
fn session_events_are_mirrored_by_their_status() {
    let mut ctx = bus(true);
    for (status, level) in [("error", "error"), ("skipped", "warn"), ("ok", "info")] {
        let payload = parse(&format!(r#"{{"type":"transcript_chunk","status":"{status}"}}"#));
        let record = ctx.mirror_session_event("now", Some("sid"), &payload).unwrap();
        assert_eq!(record.get_text("level").unwrap(), level);
        assert_eq!(record.get_text("type").unwrap(), "transcript_chunk");
        assert_eq!(record.get_text("session_id").unwrap(), "sid");
    }
    let untyped = ctx.mirror_session_event("now", None, &parse("{}")).unwrap();
    assert_eq!(untyped.get_text("type").unwrap(), "session_event");
}

#[test]
fn commands_open_and_close_with_an_event() {
    check(&command_started(&parse(r#"{"n":1}"#)), r#"{"args":{"n":1}}"#);
    let done = command_finished(&Ok(0), &Number::Unsigned(5));
    assert_eq!((done.level.as_str(), done.event_type.as_str()), ("info", "command_finished"));
    check(&done.payload, r#"{"exit_code":0,"duration_ms":5}"#);
    let bad = command_finished(&Ok(1), &Number::Unsigned(5));
    assert_eq!(bad.level, "warn");
    let failed = command_finished(&Err(app_error(8, "boom")), &Number::Unsigned(5));
    assert_eq!((failed.level.as_str(), failed.event_type.as_str()), ("error", "command_failed"));
    check(&failed.payload, r#"{"exit_code":8,"duration_ms":5,"error":"boom"}"#);
}

#[test]
fn the_bus_rotates_past_its_cap() {
    assert_eq!(max_bytes(None), DEFAULT_MAX_BYTES);
    assert_eq!(max_bytes(Some("1024")), 1024);
    assert_eq!(max_bytes(Some("lots")), DEFAULT_MAX_BYTES);
    assert!(!rotation_due(1024, 1024));
    assert!(rotation_due(1025, 1024));
}

#[test]
fn only_whole_lines_are_read() {
    assert_eq!(complete_len(&b"a\nb".to_vec()), 2);
    assert_eq!(complete_len(&b"ab".to_vec()), 0);
    let mut tailer = BusTailer::from_end(10);
    assert!(!tailer.begin(10));
    assert!(tailer.begin(20));
    assert_eq!(tailer.accept(&b"one\n\ntwo\nthr".to_vec()), vec!["one", "two"]);
    assert_eq!(tailer.offset, 19);
    assert_eq!(tailer.accept(&b"three\n".to_vec()), vec!["three"]);
    assert_eq!(tailer.offset, 25);
    assert!(tailer.begin(3));
    assert_eq!(tailer.offset, 0);
}

#[test]
fn bytes_that_are_no_text_are_marked() {
    let mut tailer = BusTailer::from_end(0);
    assert_eq!(tailer.accept(&vec![0xff, b'a', b'\n']), vec!["\u{fffd}a"]);
}

fn span(raw: &str) -> Option<Duration> {
    let since = parse_since(raw)?;
    let value: f64 = since.digits.parse().ok()?;
    if !since.takes(&Measure { bits: value.to_bits() }) {
        return None;
    }
    Some(Duration::from_secs_f64(value * since.unit_secs as f64))
}

#[test]
fn since_accepts_suffixes_and_bare_seconds() {
    assert_eq!(span("30s"), Some(Duration::from_secs(30)));
    assert_eq!(span("10m"), Some(Duration::from_secs(600)));
    assert_eq!(span("2h"), Some(Duration::from_secs(7200)));
    assert_eq!(span("1d"), Some(Duration::from_secs(86_400)));
    assert_eq!(span("45"), Some(Duration::from_secs(45)));
    assert_eq!(span(" 90 "), Some(Duration::from_secs(90)));
    assert_eq!(span("1.5 m"), Some(Duration::from_secs(90)));
}

#[test]
fn since_rejects_garbage() {
    assert_eq!(span(""), None);
    assert_eq!(span("soon"), None);
    assert_eq!(span("-5m"), None);
    assert!(parse_since("").is_none());
    assert!(parse_since("soon").is_none());
    assert!(parse_since("infs").is_none());
    assert_eq!(span("1e999"), None);
    assert_eq!(span("-0"), Some(Duration::from_secs(0)));
    assert_eq!(
        since_error("soon").message,
        "Invalid --since value 'soon'. Use forms like 30s, 10m, 2h, 1d."
    );
    assert_eq!(since_error("soon").code, 2);
}

#[test]
fn describe_skips_envelope_and_nulls() {
    let event = parse(
        r#"{
            "v": 1,
            "ts": "2026-07-28T18:03:11.482Z",
            "type": "screenshot_taken",
            "command": "shot",
            "session_id": "20260728-180302",
            "seq": 2,
            "inv": "1-2",
            "pid": 3,
            "level": "info",
            "shot_id": 1,
            "audio_sec": 2.41,
            "app_name": null
        }"#,
    );
    let described = describe(&event);
    assert!(described.contains("shot_id=1"));
    assert!(described.contains("audio_sec=2.41"));
    assert!(!described.contains("app_name"));
    assert!(!described.contains("session_id"));
    assert!(!described.contains("pid"));
}

#[test]
fn watch_picks_sessions_and_backfill() {
    assert_eq!(watch_session(Some("s1"), None).unwrap(), Some("s1".to_string()));
    assert_eq!(watch_session(Some("current"), Some("live")).unwrap(), Some("live".to_string()));
    let e = watch_session(Some("active"), None).unwrap_err();
    assert_eq!((e.code, e.message.as_str()), (2, "No active session for --session current."));
    assert_eq!(watch_session(None, Some("live")).unwrap(), None);
    assert!(wants_backfill(false, true, false, false));
    assert!(!wants_backfill(false, false, false, false));
    assert_eq!(poll_interval_ms(1), 50);
    assert_eq!(poll_interval_ms(400), 400);
    let lines: Vec<String> =
        ["{\"n\":0}", "{\"n\":", "{\"n\":2}", "[3]"].iter().map(|l| l.to_string()).collect();
    let raws = |tail| -> Vec<String> {
        backfill(&no_filters(), &lines, tail).into_iter().map(|l| l.raw).collect()
    };
    assert_eq!(raws(None), vec!["{\"n\":0}", "{\"n\":2}", "[3]"]);
    assert_eq!(raws(Some(2)), vec!["{\"n\":2}", "[3]"]);
    assert_eq!(raws(Some(0)), Vec::<String>::new());
    assert_eq!(raws(Some(9)).len(), 3);
    check(&backfill(&no_filters(), &lines, Some(1))[0].event, "[3]");
    assert!(no_filters().event_in("{").is_none());
    check(&no_filters().event_in(" {} ").unwrap(), "{}");
}

#[test]
fn watched_events_are_shown_on_one_line() {
    let clock = ClockTime { hour: 8, minute: 3, second: 1, milli: 42 };
    assert_eq!(clock_text(&Some(clock)), "08:03:01.042");
    let event = parse(r#"{"type":"session_started","command":"start","level":"warn","n":{"a":1}}"#);
    let plain = render_line("08:03:01.042", &event, false);
    assert!(plain.contains("session_started"));
    assert!(plain.contains("n={a=1}"));
    assert!(!plain.contains('\u{1b}'));
    assert!(render_line("08:03:01.042", &event, true).contains('\u{1b}'));
}
