//! What is shown of sessions: notes, pages, lists, and what is handed out.

use riff::annotations::{
    annotation_markers, clipboard_from_events, inject_annotation_markers, max_clipboard_id,
    max_shot_id, shots_from_events, Marker,
};
use riff::delivery::{
    base64_text, check_send_tools, copy_text, delivered_event, image_media_type, needs_conversion,
    no_note_error, quote, send_line, send_pieces, send_report, session_dump, without_marks,
    ImageFile, Piece, SessionDump, SessionTexts,
};
use riff::history::{
    build_list_row, check_session_id, collect_recent_session_dirs, collect_recent_session_rows,
    count_session_images, counted_words, extract_transcript_from_note, format_duration_compact,
    format_hms_compact, format_timestamp_human, handed_out_transcript, index_transcript,
    list_limit, list_report, read_transcript_text_for_session, recorded_duration,
    render_sessions_table, resolve_recent_session_dir, resolve_session_dir_by_id, sep_line,
    session_ended_iso, session_started_iso, summarize_transcript, transcription_meta_from_events,
    truncate_to_width, LocalTime, SessionFacts,
};
use riff::html::{build_html_note, build_sessions_index_html, html_escape, IndexEntry, PageInput};
use riff::images::{
    extension_of, image_names, is_image_name, load_shots_for_session, plain_shot, stem_of,
};
use riff::json::{Json, Number};
use riff::measure::Measure;
use riff::models::{ClipboardMeta, SessionState, ShotMeta};
use riff::note::{build_note, clip_preview, format_hms, two_digit_text, NoteInput};
use riff::perf::{
    command_records, compute_total_stats, count_startup_failures, dominant_phase, empty_report,
    percentile, perf_limit, perf_report, recent_records, record_line, sorted_totals, spread_line,
    startup_line, Spread,
};
use riff::wire::read_json;
use serde_json::Value;

fn float(f: f64) -> Number {
    Number::Float(Measure { bits: f.to_bits() }, format!("{:?}", f))
}

fn to_value(j: &Json) -> Value {
    match j {
        Json::Null => Value::Null,
        Json::Bool(b) => Value::Bool(*b),
        Json::Number(Number::Unsigned(u)) => Value::from(*u),
        Json::Number(Number::Negative(i)) => Value::from(*i),
        Json::Number(Number::Float(m, _)) => Value::from(f64::from_bits(m.bits)),
        Json::Text(s) => Value::String(s.clone()),
        Json::List(items) => Value::Array(items.iter().map(to_value).collect()),
        Json::Object(fields) => {
            Value::Object(fields.iter().map(|(k, v)| (k.clone(), to_value(v))).collect())
        }
    }
}

fn parse(text: &str) -> Json {
    read_json(text).unwrap()
}

fn check(j: &Json, text: &str) {
    assert_eq!(to_value(j), serde_json::from_str::<Value>(text).unwrap());
}

fn measure(f: f64) -> Measure {
    Measure { bits: f.to_bits() }
}

fn strings(v: &[&str]) -> Vec<String> {
    v.iter().map(|s| s.to_string()).collect()
}

fn annotate(
    transcript: &str,
    shots: &Vec<ShotMeta>,
    clips: &Vec<ClipboardMeta>,
    duration: Option<f64>,
) -> String {
    let mut markers: Vec<Marker> = annotation_markers(shots, clips);
    if let Some(d) = duration {
        let words = transcript.split_whitespace().count() as f64;
        for m in markers.iter_mut() {
            m.slot = ((f64::from_bits(m.at.bits) / d).clamp(0.0, 1.0) * words).round() as usize;
        }
    }
    inject_annotation_markers(transcript, &markers, &duration.map(measure))
}

#[test]
fn inject_annotation_markers_does_not_duplicate_existing_screenshot_marker() {
    let transcript =
        "Screenshot 1: /tmp/ispy/sessions/abc/screenshots/shot-001.png Testing, testing, [Screenshot 1] testing.";
    let shots = vec![plain_shot(1, "screenshots/shot-001.png", float(1.0))];

    let out = annotate(transcript, &shots, &vec![], Some(3.0));
    assert_eq!(out, transcript);
    assert!(!out.contains("[Screenshot [Screenshot 1] 1]"));
}

#[test]
fn markers_are_placed_by_time() {
    let shots = vec![plain_shot(2, "screenshots/shot-002.png", float(5.0))];
    let clips = vec![ClipboardMeta { clip_id: 1, text: "x".to_string(), audio_sec: float(1.0) }];
    let out = annotate("a b c d e f g h i j", &shots, &clips, Some(10.0));
    let shot = out.find("Screenshot 2").expect("shot");
    let clip = out.find("Clipboard 1").expect("clip");
    assert!(clip < shot);
    let words: Vec<&str> = out
        .split_whitespace()
        .filter(|w| w.len() == 1)
        .filter(|w| !w.chars().all(|c| c.is_ascii_digit()))
        .collect();
    assert_eq!(words, vec!["a", "b", "c", "d", "e", "f", "g", "h", "i", "j"]);
}

#[test]
fn annotations_are_read_from_events() {
    let events = vec![
        parse(r#"{"type":"screenshot_taken","id":2,"dest":"screenshots/shot-002.png","audioSec":4.5,"app":{"name":"Safari","pid":7}}"#),
        parse(r#"{"type":"screenshot_moved","id":1,"dest":"screenshots/shot-001.png"}"#),
        parse(r#"{"type":"clipboard_copied","id":3,"text":"hi","audioSec":1}"#),
        parse(r#"{"type":"screenshot_taken","id":2,"dest":"screenshots/again.png"}"#),
    ];
    let shots = shots_from_events(&events);
    assert_eq!(shots.iter().map(|s| s.shot_id).collect::<Vec<_>>(), vec![1, 2]);
    assert_eq!(shots[1].dest_rel_path, "screenshots/again.png");
    let clips = clipboard_from_events(&events);
    assert_eq!(clips[0].text, "hi");
    assert_eq!(max_shot_id(&shots), 2);
    assert_eq!(max_clipboard_id(&clips), 3);
    assert_eq!(max_shot_id(&vec![]), 0);
}

#[test]
fn screenshots_fall_back_to_files() {
    let files = strings(&["b.PNG", "a.jpg", "notes.txt", "c"]);
    let shots = load_shots_for_session(&vec![], &files);
    assert_eq!(shots.len(), 2);
    assert!(shots[0].dest_rel_path.ends_with("a.jpg"));
    assert_eq!(image_names(&files), strings(&["a.jpg", "b.PNG"]));
    assert!(is_image_name("x.webp"));
    assert!(!is_image_name(".png"));
    assert_eq!(extension_of("a.tar.gz").as_deref(), Some("gz"));
    assert_eq!(stem_of("a.tar.gz"), "a.tar");
    assert_eq!(count_session_images(&files), 2);
}

fn sample_html() -> String {
    let shots = vec![plain_shot(1, "screenshots/shot-001.png", float(1.2))];
    let clips = vec![];
    build_html_note(&PageInput {
        session_id: "20260413-151333",
        started_iso: "2026-04-13T15:13:33Z",
        ended_iso: "2026-04-13T15:14:33Z",
        duration: "60.0s",
        transcription: &parse(r#"{ "status": "ok", "method": "parakeet_server" }"#),
        transcript: "hello world",
        markdown: "hello world",
        shots: &shots,
        clips: &clips,
        session_dir: "/tmp/ispy/sessions/20260413-151333",
        index_href: "../index.html",
    })
}

#[test]
fn html_has_annotate_button_on_screenshot_cards() {
    let html = sample_html();
    assert!(html.contains("annotate-image"));
    assert!(html.contains("data-url=\"screenshots/shot-001.png\""));
    assert!(html.contains("data-path=\"/tmp/ispy/sessions/20260413-151333/screenshots/shot-001.png\""));
}

#[test]
fn save_and_close_writes_back_original_image_path() {
    let html = sample_html();
    assert!(html.contains("Save &amp; close"));
    assert!(html.contains("await window.__ispySaveExcalidraw();"));
    assert!(html.contains("closeAnnotator();"));
    assert!(html.contains("absPath: currentContext.path"));
    assert!(html.contains("refreshScreenshotPreview(currentContext.path, currentContext.url);"));
}

#[test]
fn html_includes_excalidraw_ui_container_and_loader() {
    let html = sample_html();
    assert!(html.contains("id=\"annotatorHost\""));
    assert!(html.contains("Loading Excalidraw"));
    assert!(html.contains("window.__ispyOpenExcalidraw"));
    assert!(html.contains("h(pkg.Excalidraw"));
    assert!(html.contains("@excalidraw/excalidraw@0.18.0"));
}

#[test]
fn pages_escape_what_they_show() {
    assert_eq!(html_escape("<a b=\"c\">&'"), "&lt;a b=&quot;c&quot;&gt;&amp;&#39;");
    let rows = vec![IndexEntry {
        row: build_list_row(&facts("20260413-151333", "a <b> c")),
        transcript: "a <b> c".to_string(),
        images: strings(&["x.png"]),
    }];
    let page = build_sessions_index_html(&rows);
    assert!(page.contains("20260413-151333"));
    assert!(!page.contains("a <b> c"));
    assert!(page.contains("a &lt;b&gt; c"));
}

fn facts(id: &str, transcript: &str) -> SessionFacts {
    SessionFacts {
        session_id: id.to_string(),
        at: Some(LocalTime { weekday: 2, month: 7, day: 28, hour: 14, minute: 5 }),
        transcript: transcript.to_string(),
        files: strings(&["a.png", "b.txt"]),
        duration: Some(measure(65.0)),
    }
}

#[test]
fn sessions_are_listed() {
    let rows = collect_recent_session_rows(&vec![facts("20260101-000000", "the quick brown fox")]);
    assert_eq!(rows[0].timestamp, "tue 7-28 2:05pm");
    assert_eq!(rows[0].images, 1);
    let table = render_sessions_table(&rows, Some("100"));
    assert!(table.contains("20260101-000000"));
    assert!(table.lines().all(|l| l.chars().count() == table.lines().next().unwrap().chars().count()));
    let report = list_report(&rows);
    assert!(to_value(&report).to_string().contains("20260101-000000"));
    assert_eq!(list_limit(Some(3)), 3);
    assert_eq!(format_timestamp_human(&None), "unknown");
    assert_eq!(sep_line(&vec![1, 2]), "+---+----+");
    let names = strings(&["20260101-000000", "20260301-000000", "20260201-000000"]);
    assert_eq!(collect_recent_session_dirs(&names, 2), strings(&["20260301-000000", "20260201-000000"]));
    assert_eq!(resolve_recent_session_dir(&names, 2).unwrap(), "20260201-000000");
    assert!(resolve_recent_session_dir(&names, 4).is_err());
    assert!(check_session_id("20260101-000000").is_ok());
    for bad in ["..", "a/b", "a..b"] {
        assert!(check_session_id(bad).is_err());
    }
    assert_eq!(resolve_session_dir_by_id("/s", "x", true).unwrap(), "/s/x");
    assert_eq!(resolve_session_dir_by_id("/s", "x", false).unwrap_err().code, 8);
}

#[test]
fn lengths_are_shown_compactly() {
    assert_eq!(format_hms(&measure(65.4)), "01:05");
    assert_eq!(format_hms(&measure(3661.0)), "01:01:01");
    assert_eq!(two_digit_text(7), "07");
    assert_eq!(format_hms_compact(&measure(3661.0)), "01:01:01");
    assert!(!format_duration_compact(&Some(measure(65.0))).is_empty());
    assert_eq!(truncate_to_width("abcdef", 10), "abcdef");
    assert!(truncate_to_width("abcdef", 4).chars().count() <= 4);
}

#[test]
fn summaries_keep_the_words_that_matter() {
    let words = counted_words("Hello, WORLD — hello!");
    assert!(words.iter().all(|w| w.chars().all(|c| c.is_alphanumeric() || c == '\'' || c == '-')));
    assert!(words.iter().any(|w| w.eq_ignore_ascii_case("world")));
    assert!(!summarize_transcript("we fixed the parser and the parser tests").is_empty());
}

#[test]
fn transcripts_are_taken_from_where_they_are() {
    let note = "# x\n\n## Transcript\n\nhello there\n\n## Other\n";
    let extracted = extract_transcript_from_note(note);
    assert!(extracted.is_none() || extracted.unwrap().contains("hello there"));
    let text = Some(" spoken \n".to_string());
    assert_eq!(read_transcript_text_for_session(&text, &None).trim(), "spoken");
    assert_eq!(index_transcript(&text, &None).trim(), "spoken");
    assert_eq!(handed_out_transcript(&None, &text, "/d").unwrap(), "spoken");
    let e = handed_out_transcript(&None, &None, "/d").unwrap_err();
    assert_eq!((e.code, e.message.as_str()), (8, "No transcript found for session: /d"));
    let events = vec![
        parse(r#"{"type":"session_started","ts":"a"}"#),
        parse(r#"{"type":"session_stopped","ts":"b","audio_duration_sec":2.5,"transcription":{"status":"ok"}}"#),
    ];
    assert_eq!(session_started_iso(&events).as_deref(), Some("a"));
    assert_eq!(session_ended_iso(&events).as_deref(), Some("b"));
    assert!(recorded_duration(&events).is_some());
    check(&transcription_meta_from_events(&events), r#"{"status":"ok"}"#);
}

fn state() -> SessionState {
    SessionState {
        session_id: "20260101-000000".to_string(),
        session_dir: "/r/sessions/20260101-000000".to_string(),
        screenshots_dir: "/r/sessions/20260101-000000/screenshots".to_string(),
        audio_path: "/r/sessions/20260101-000000/audio.wav".to_string(),
        events_path: "/r/sessions/20260101-000000/events.jsonl".to_string(),
        ffmpeg_log_path: "/r/sessions/20260101-000000/ffmpeg.log".to_string(),
        ffmpeg_pid: Some(10),
        started_at_iso: "2026-01-01T00:00:00.000Z".to_string(),
        started_at_epoch: measure(1767225600.0),
        screenshot_source_dir: "/shots".to_string(),
        audio_device: ":0".to_string(),
        engine: "parakeet".to_string(),
        clipboard_watcher_pid: None,
        transcription_watcher_pid: None,
        transcription_cursor_sec: measure(0.0),
        transcription_paused: false,
        transcription_pause_started_sec: None,
    }
}

#[test]
fn notes_hold_the_session() {
    let s = state();
    let shots = vec![plain_shot(1, "screenshots/shot-001.png", float(1.0))];
    let clips = vec![ClipboardMeta { clip_id: 1, text: "a\r\n b".to_string(), audio_sec: float(2.0) }];
    let note = build_note(&NoteInput {
        state: &s,
        ended_iso: "2026-01-01T00:01:00.000Z",
        shots: &shots,
        clips: &clips,
        transcript: "hello world",
        transcription: &parse(r#"{"status":"ok"}"#),
        audio_duration: Some(measure(60.0)),
    });
    assert!(note.contains("20260101-000000"));
    assert!(note.contains("hello world"));
    assert!(note.contains("shot-001.png"));
    assert_eq!(clip_preview("a\r\n b \n\n c", 100), "a b c");
    assert_eq!(clip_preview("abcdef", 3), "abc...");
}

#[test]
fn copies_carry_clips_and_pictures() {
    assert_eq!(without_marks("a [Screenshot 1] b"), without_marks("a [Screenshot 1] b").trim());
    assert!(!without_marks("a [Screenshot 1] b").contains("Screenshot"));
    assert_eq!(without_marks("plain"), "plain");
    assert_eq!(base64_text(&b"Man".to_vec()), "TWFu");
    assert_eq!(base64_text(&b"Ma".to_vec()), "TWE=");
    assert_eq!(base64_text(&b"M".to_vec()), "TQ==");
    assert_eq!(base64_text(&vec![]), "");
    assert_eq!(image_media_type("x.PNG"), "image/png");
    assert_eq!(image_media_type("x.jpg"), "image/jpeg");
    let clips = vec![ClipboardMeta { clip_id: 1, text: "clip".to_string(), audio_sec: float(0.0) }];
    let images = vec![ImageFile { name: "shot-001.png".to_string(), bytes: b"Man".to_vec() }];
    let text = copy_text("hello", &clips, &images);
    assert!(text.starts_with("hello"));
    assert!(text.contains("clip"));
    assert!(text.contains("(image/png, base64) -----\nTWFu"));
    assert_eq!(copy_text("hello", &vec![], &vec![]), "hello");
    assert_eq!(quote("a\"b"), "\"a\\\"b\"");
}

#[test]
fn dumps_hold_everything() {
    let images = strings(&["shot-001.png"]);
    let dump = session_dump(&SessionDump {
        session_id: "s",
        session_dir: "/d",
        started_at: Some("a".to_string()),
        ended_at: None,
        duration_sec: None,
        event_count: 2,
        clip_count: 0,
        transcript: "hello",
        texts: SessionTexts {
            note: Some("NOTE"),
            transcript: None,
            events: Some("EVENTS"),
            recorder_log: None,
        },
        images: &images,
    });
    assert!(dump.starts_with("---"));
    for part in ["hello", "NOTE", "EVENTS", "shot-001.png"] {
        assert!(dump.contains(part), "{part} is missing");
    }
}

#[test]
fn sending_needs_its_tools() {
    assert!(check_send_tools(true, true).is_ok());
    assert_eq!(check_send_tools(false, true).unwrap_err().code, 7);
    assert_eq!(check_send_tools(true, false).unwrap_err().code, 7);
    assert!(send_line("s", "hello", false).contains("s"));
    assert_eq!(send_report("s", 1, "hello", false).get_bool("ok"), Some(true));
    check(
        &delivered_event("send", 1, 5, 0, 0),
        r#"{"mode":"send","rank":1,"chars":5,"chunks":0,"images":0}"#,
    );
    assert_eq!(no_note_error("/d").code, 8);
    let pieces = send_pieces("hello\nScreenshot 1: /d/shot-001.png\nScreenshot 2: http://h/x.png\nend");
    let sent: Vec<String> = pieces
        .iter()
        .map(|p| match p {
            Piece::Text(s) => format!("text {s}"),
            Piece::Image(s) => format!("image {s}"),
        })
        .collect();
    assert_eq!(sent, ["text hello", "image /d/shot-001.png", "text http://h/x.png", "text end"]);
    assert!(needs_conversion("/x.webp") || needs_conversion("/x.jpg") || needs_conversion("/x.heic"));
    assert!(!needs_conversion("/x.png"));
}

#[test]
fn performance_is_summed_up() {
    let events = vec![
        parse(r#"{"action":"stop","total_ms":30.0,"phases":{"a_ms":1,"b_ms":9}}"#),
        parse(r#"{"action":"stop","total_ms":10.0}"#),
        parse(r#"{"action":"start","total_ms":20.0}"#),
        parse(r#"{"action":"parakeet_server_startup","status":"error","total_ms":5}"#),
    ];
    let totals = sorted_totals(&events, "stop");
    assert_eq!(totals, vec![measure(10.0), measure(30.0)]);
    assert_eq!(percentile(&totals, 50, 100), Some(measure(30.0)));
    assert_eq!(percentile(&totals, 0, 100), Some(measure(10.0)));
    assert_eq!(percentile(&totals, 95, 100), Some(measure(30.0)));
    assert_eq!(percentile(&vec![], 50, 100), None);
    assert_eq!(dominant_phase(&events[0]).map(|d| d.0), Some("b_ms".to_string()));
    assert_eq!(dominant_phase(&events[1]).map(|d| d.0), None);
    assert!(count_startup_failures(&events) <= 1);
    let commands = command_records(&events);
    assert_eq!(commands.len(), 3);
    assert_eq!(recent_records(&commands, 2).len(), 2);
    assert!(perf_limit(None) > 0);
    let none = Spread { count: 0, avg: None, p50: None, p95: None };
    assert_eq!(compute_total_stats(&none).get_u64("count"), Some(0));
    assert!(spread_line("stop", 2, Some("20.0"), None, None).contains("20.0"));
    assert!(startup_line(1, None, None, None, 1).contains('1'));
    assert!(record_line(&events[0], Some("30.0"), Some(("b_ms", "9.0"))).contains("b_ms"));
    assert_eq!(to_value(&empty_report())["count"], Value::from(0));
    let report = perf_report(3, commands, &none, &none, &none, 0);
    assert_eq!(report.get_u64("count"), Some(3));
}
