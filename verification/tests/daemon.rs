//! The daemon: what it accepts, what it answers, and how it is asked.

use riff::daemon::{
    accepted_summary, answer_pid, check_claimed_root, data_payload, emit_payload, emit_report, existing_socket,
    event_of_body, filters_from_query, identity_is_riffd, identity_owns_root, ingest_external_event,
    lifecycle_report, not_ready_error, refusal, status_report, stop_target, validate_event_type,
    validate_identifier, validate_level, validate_source, wait_step, Identity, WaitStep,
};
use riff::http::{
    build_request_head, no_route, read_request_head, request_text, response_body, response_text,
    route, subscribe_head, HeadReader, HeadStep, Route, SubscriptionReader, MAX_BODY_BYTES,
    MAX_HEAD_BYTES,
};
use riff::json::{Json, Number};
use riff::wire::read_json;
use serde_json::Value;

fn to_value(j: &Json) -> Value {
    match j {
        Json::Null => Value::Null,
        Json::Bool(b) => Value::Bool(*b),
        Json::Number(Number::Unsigned(u)) => Value::from(*u),
        Json::Number(Number::Negative(i)) => Value::from(*i),
        Json::Number(Number::Float(m, _)) => Value::from(f64::from_bits(m.bits)),
        Json::Text(s) => Value::String(s.clone()),
        Json::List(items) => Value::Array(items.iter().map(to_value).collect()),
        Json::Object(fields) => {
            Value::Object(fields.iter().map(|(k, v)| (k.clone(), to_value(v))).collect())
        }
    }
}

fn parse(text: &str) -> Json {
    read_json(text).unwrap()
}

fn check(j: &Json, text: &str) {
    assert_eq!(to_value(j), serde_json::from_str::<Value>(text).unwrap());
}

#[test]
fn identifiers_are_validated() {
    assert!(validate_identifier("build_finished", "event type").is_ok());
    assert!(validate_identifier("ci.pipeline-2", "event type").is_ok());
    assert!(validate_identifier("", "event type").is_err());
    assert!(validate_identifier("2fast", "event type").is_err());
    assert!(validate_identifier("has space", "event type").is_err());
    assert!(validate_identifier(&"x".repeat(65), "event type").is_err());
    assert!(validate_identifier(&"x".repeat(64), "event type").is_ok());
    assert!(validate_event_type("1").is_err());
    assert!(validate_source("ci").is_ok());
}

#[test]
fn levels_are_validated() {
    assert_eq!(validate_level("info"), Ok("info"));
    assert!(validate_level("fatal").is_err());
    assert_eq!(
        validate_level("fatal").unwrap_err(),
        "Invalid level 'fatal': use info, warn, or error."
    );
}

#[test]
fn external_events_require_a_valid_type() {
    assert!(ingest_external_event(b"not json").is_err());
    assert!(ingest_external_event(b"{}").is_err());
    assert!(ingest_external_event(br#"{"type":"has space"}"#).is_err());
    assert!(ingest_external_event(br#"{"type":"ok_event","payload":"str"}"#).is_err());
    assert!(ingest_external_event(br#"{"type":"ok_event","source":"ci"}"#).is_ok());
}

#[test]
fn external_events_are_taken_apart() {
    let event = ingest_external_event(
        br#"{"type":"built","source":"ci","level":"warn","session_id":"s","payload":{"n":1}}"#,
    )
    .unwrap();
    assert_eq!(event.command, "external:ci");
    assert_eq!(event.level, "warn");
    assert_eq!(event.event_type, "built");
    assert_eq!(event.session_id.as_deref(), Some("s"));
    check(&event.payload, r#"{"n":1}"#);
    let plain = ingest_external_event(br#"{"type":"built"}"#).unwrap();
    assert_eq!((plain.command.as_str(), plain.level.as_str()), ("external:unknown", "info"));
    assert!(accepted_summary(&plain).get_bool("ok").unwrap());
    for (text, says) in [
        ("[]", "Body must be a JSON object."),
        ("{\"kind\":1}", "Missing required string field 'type'."),
        ("{\"type\":\"a\",\"source\":1}", "'source' must be a string."),
        ("{\"type\":\"a\",\"level\":1}", "'level' must be a string."),
        ("{\"type\":\"a\",\"session_id\":1}", "'session_id' must be a string."),
    ] {
        let complaint = match ingest_external_event(text.as_bytes()) {
            Ok(_) => panic!("{text} should be refused"),
            Err(e) => e,
        };
        assert_eq!(complaint, says);
    }
    check(&refusal("no"), r#"{"ok":false,"error":"no"}"#);
}

#[test]
fn subscribe_query_maps_to_filters() {
    let query = vec![
        ("type".to_string(), "a,b".to_string()),
        ("command".to_string(), "stop".to_string()),
        ("session".to_string(), "s1".to_string()),
    ];
    let filters = filters_from_query(&query);
    assert_eq!(filters.types, vec!["a", "b"]);
    assert_eq!(filters.commands, vec!["stop"]);
    assert_eq!(filters.session.as_deref(), Some("s1"));
}

#[test]
fn emitted_payloads_are_objects() {
    check(&emit_payload(None).unwrap(), "{}");
    check(&emit_payload(Some(r#"{"a":1}"#)).unwrap(), r#"{"a":1}"#);
    let e = emit_payload(Some("[1]")).unwrap_err();
    assert_eq!((e.code, e.message.as_str()), (2, "--data must be a JSON object."));
    let e = emit_payload(Some("[1")).unwrap_err();
    assert_eq!(e.code, 2);
    assert_eq!(e.message, "--data is not valid JSON: EOF while parsing a list at line 1 column 2");
    assert_eq!(data_payload(&Some(Err("bad".to_string()))).unwrap_err().code, 2);
    let e = event_of_body(&Err("bad".to_string())).err().unwrap();
    assert_eq!(e, "Body is not valid JSON: bad");
    let report = emit_report("built", &None, "info");
    assert_eq!(report.get_bool("ok"), Some(true));
}

#[test]
fn the_daemon_says_who_it_is() {
    let me = Identity {
        pid: 9,
        root: "/tmp/riff".to_string(),
        version: "1".to_string(),
        build_id: "b".to_string(),
        started_at: "t".to_string(),
        socket: "/tmp/riff/riffd.sock".to_string(),
    };
    let identity = me.identity_value();
    assert!(identity_is_riffd(&identity));
    assert!(identity_owns_root(&identity, "/tmp/riff"));
    assert!(!identity_owns_root(&identity, "/tmp/other"));
    assert_eq!(answer_pid(&identity), 9);
    assert_eq!(answer_pid(&parse("{}")), -1);
    let health = me.health_value(&Number::Unsigned(3), 2);
    assert_eq!(health.get_u64("subscribers"), Some(2));
    let e = existing_socket(&Some(identity)).unwrap_err();
    assert_eq!((e.code, e.message.as_str()), (2, "riffd is already running (pid=9)."));
    assert!(existing_socket(&None).is_ok());
    assert!(check_claimed_root(None, "/a").is_ok());
    assert!(check_claimed_root(Some("/a"), "/a").is_ok());
    let wrong = check_claimed_root(Some("/b"), "/a").unwrap_err();
    assert_eq!(wrong.message, "--root /b does not match RIFF_ROOT /a.");
    let (down, code) = status_report(&None);
    assert_eq!(code, 1);
    assert_eq!(down.get_bool("running"), Some(false));
    assert_eq!(status_report(&Some(health)).1, 0);
    assert_eq!(stop_target(Some(4), Some(5)), Some(4));
    assert_eq!(stop_target(None, Some(5)), Some(5));
    assert_eq!(stop_target(None, None), None);
    assert!(matches!(wait_step(true, true), WaitStep::Ready | WaitStep::GiveUp));
    assert!(matches!(wait_step(false, true), WaitStep::Ready));
    assert!(matches!(wait_step(false, false), WaitStep::Pause));
    assert!(matches!(wait_step(true, false), WaitStep::GiveUp));
    assert!(not_ready_error("/log").message.contains("/log"));
    assert_eq!(lifecycle_report("started", Some(7)).get_text("status").unwrap(), "started");
}

#[test]
fn requests_are_read_to_their_head() {
    let raw = b"post /events?type=a&x HTTP/1.1\r\nContent-Length: 12\r\n\r\n";
    let mut reader = HeadReader::new();
    let mut taken: usize = 0;
    while let HeadStep::ReadByte = reader.step() {
        reader.push(raw[taken]);
        taken += 1;
    }
    assert!(matches!(reader.step(), HeadStep::Complete));
    assert_eq!(taken, raw.len());
    let head = read_request_head(&reader.head).unwrap();
    assert_eq!(head.method, "POST");
    assert_eq!(head.path, "/events");
    assert_eq!(head.query[0], ("type".to_string(), "a".to_string()));
    assert_eq!(head.content_length, 12);
    assert!(build_request_head("GET / HTTP/1.1\r\n\r\n", "GET").is_ok());
    let too_long = format!("POST / HTTP/1.1\r\nContent-Length: {}\r\n\r\n", MAX_BODY_BYTES + 1);
    assert!(read_request_head(&too_long.into_bytes()).is_err());
}

#[test]
fn heads_that_do_not_end_are_refused() {
    let mut reader = HeadReader::new();
    let mut pushed: usize = 0;
    while let HeadStep::ReadByte = reader.step() {
        reader.push(b'a');
        pushed += 1;
    }
    assert!(matches!(reader.step(), HeadStep::TooLarge));
    assert!(pushed <= MAX_HEAD_BYTES + 1);
}

#[test]
fn routes_and_responses_are_plain_http() {
    assert!(matches!(route("GET", "/identity"), Route::Identity));
    assert!(matches!(route("GET", "/health"), Route::Health));
    assert!(matches!(route("POST", "/events"), Route::Events));
    assert!(matches!(route("GET", "/subscribe"), Route::Subscribe));
    assert!(matches!(route("DELETE", "/events"), Route::Unknown));
    assert!(no_route("DELETE", "/events").contains("DELETE"));
    let response = response_text(404, "{}");
    assert!(response.starts_with("HTTP/1.1 404"));
    assert_eq!(response_body(&response).as_deref(), Some("{}"));
    assert!(subscribe_head().contains("application/x-ndjson"));
    assert_eq!(
        request_text("/health"),
        "GET /health HTTP/1.1\r\nHost: riffd\r\nConnection: close\r\n\r\n"
    );
    let mut sub = SubscriptionReader { past_headers: false };
    assert_eq!(sub.accept("HTTP/1.1 200 OK\r\n"), None);
    assert_eq!(sub.accept("\r\n"), None);
    assert_eq!(sub.accept("{\"type\":\"a\"}\n").as_deref(), Some("{\"type\":\"a\"}"));
    assert_eq!(sub.accept("\n"), None);
}
