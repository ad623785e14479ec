//! Transcripts: chunks, engines, hooks, and what becomes of them at the end.

use riff::chunk::{
    appended_transcript, chunk_precheck, chunk_spans, count_chunk_events, count_status,
    finish_chunk, load_chunked_transcript, max_chunk_id, merge_manual_chunk_text,
    next_transcript_chunk_id, ChunkRequest, ChunkWork,
};
use riff::cli::StopArgs;
use riff::engine::{
    collect_stream_errors, commit_strategy, engine_by_id, extract_result, failed_flush_meta,
    full_transcription_meta, model_id, normalize_engine_id, one_shot_result, parakeet_stop_meta,
    require_api_key, require_stream_script, resolve_engine_id, stream_chunk_result,
    stream_python_candidates, stream_python_error, stream_stop_meta, uses_chunks, Engine,
    ExtractStep, OneShot, Probe, StreamEnd, StreamPythonSearch,
};
use riff::json::{Fields, Json, Number};
use riff::measure::Measure;
use riff::models::{SessionState, ShotMeta};
use riff::images::plain_shot;
use riff::session::plain_stop_args;
use riff::stopping::{
    check_source_dir, command_source, merge_shots, output_hooks_ran,
    post_not_run, post_process_text, session_stopped_event, stop_exit_code, stop_plan_text,
    stop_report, stop_strategy, transcribed, transcription_finished, transcription_status_text,
    wakes_recorder, with_post_process, Outcome, StopStrategy, STOP_PHASES, STOP_REPORT_PHASES,
};
use riff::template::TemplatePaths;
use riff::transcription::{
    attach_perf, command_result, configured_command, configured_hooks, execution_path,
    hook_setup_failed, idle_meta, normalize_cli_hook, output_hook_plan, post_transcribe_plan,
    post_transcribe_result, script_command_line, script_result, template_paths,
    transcript_file_text, transcription_plan, CommandRun, HookChain, HookRun, Plan,
};
use riff::wire::read_json;
use serde_json::Value;

fn float(f: f64) -> Number {
    Number::Float(Measure { bits: f.to_bits() }, format!("{:?}", f))
}

fn to_value(j: &Json) -> Value {
    match j {
        Json::Null => Value::Null,
        Json::Bool(b) => Value::Bool(*b),
        Json::Number(Number::Unsigned(u)) => Value::from(*u),
        Json::Number(Number::Negative(i)) => Value::from(*i),
        Json::Number(Number::Float(m, _)) => Value::from(f64::from_bits(m.bits)),
        Json::Text(s) => Value::String(s.clone()),
        Json::List(items) => Value::Array(items.iter().map(to_value).collect()),
        Json::Object(fields) => {
            Value::Object(fields.iter().map(|(k, v)| (k.clone(), to_value(v))).collect())
        }
    }
}

fn parse(text: &str) -> Json {
    read_json(text).unwrap()
}

fn check(j: &Json, text: &str) {
    assert_eq!(to_value(j), serde_json::from_str::<Value>(text).unwrap());
}

fn measure(f: f64) -> Measure {
    Measure { bits: f.to_bits() }
}

fn state() -> SessionState {
    SessionState {
        session_id: "20260101-000000".to_string(),
        session_dir: "/r/sessions/20260101-000000".to_string(),
        screenshots_dir: "/r/sessions/20260101-000000/screenshots".to_string(),
        audio_path: "/r/sessions/20260101-000000/audio.wav".to_string(),
        events_path: "/r/sessions/20260101-000000/events.jsonl".to_string(),
        ffmpeg_log_path: "/r/sessions/20260101-000000/ffmpeg.log".to_string(),
        ffmpeg_pid: Some(10),
        started_at_iso: "2026-01-01T00:00:00.000Z".to_string(),
        started_at_epoch: measure(1767225600.0),
        screenshot_source_dir: "/shots".to_string(),
        audio_device: ":0".to_string(),
        engine: "parakeet".to_string(),
        clipboard_watcher_pid: None,
        transcription_watcher_pid: None,
        transcription_cursor_sec: measure(0.0),
        transcription_paused: false,
        transcription_pause_started_sec: None,
    }
}

fn default_stop_args() -> StopArgs {
    plain_stop_args()
}

#[test]
fn mod_merge_manual_chunk_text_uses_double_newline_separator() {
    let merged = merge_manual_chunk_text("first chunk", "second chunk");
    assert_eq!(merged, "first chunk\n\nsecond chunk");
}

#[test]
fn mod_merge_manual_chunk_text_trims_outer_whitespace() {
    let merged = merge_manual_chunk_text("  first  ", "  second  ");
    assert_eq!(merged, "first\n\nsecond");
}

#[test]
fn session_commands_merge_manual_chunk_text_uses_double_newline_separator() {
    let merged = merge_manual_chunk_text("first chunk", "second chunk");
    assert_eq!(merged, "first chunk\n\nsecond chunk");
}

#[test]
fn session_commands_merge_manual_chunk_text_trims_outer_whitespace() {
    let merged = merge_manual_chunk_text("  first  ", "  second  ");
    assert_eq!(merged, "first\n\nsecond");
}

#[test]
fn merging_with_nothing_changes_nothing() {
    assert_eq!(merge_manual_chunk_text("", " a "), "a");
    assert_eq!(merge_manual_chunk_text(" a ", "\n"), "a");
    assert_eq!(merge_manual_chunk_text(" ", "\t"), "");
    let left = merge_manual_chunk_text(&merge_manual_chunk_text("a", "b"), "c");
    let right = merge_manual_chunk_text("a", &merge_manual_chunk_text("b", "c"));
    assert_eq!(left, right);
    assert_eq!(appended_transcript("a\n", "b"), "a\n\nb\n");
}

#[test]
fn empty_engine_id_is_parakeet() {
    assert_eq!(normalize_engine_id(""), "parakeet");
    assert_eq!(normalize_engine_id("   "), "parakeet");
    assert_eq!(normalize_engine_id("elevenlabs"), "elevenlabs");
    assert!(matches!(engine_by_id("whatever"), Engine::Parakeet));
    assert!(matches!(engine_by_id(" elevenlabs "), Engine::ElevenLabs));
    assert_eq!(Engine::ElevenLabs.id(), "elevenlabs");
}

#[test]
fn resolve_engine_id_rejects_unknown_names() {
    assert!(resolve_engine_id(Some("nope"), None).is_err());
    assert_eq!(resolve_engine_id(Some("elevenlabs"), None).unwrap(), "elevenlabs");
    assert_eq!(resolve_engine_id(Some("ElevenLabs"), None).unwrap(), "elevenlabs");
}

#[test]
fn unknown_engines_are_named_as_they_were_written() {
    let e = resolve_engine_id(Some(" no\"pe\n "), None).unwrap_err();
    assert_eq!(e.code, 2);
    assert_eq!(
        e.message,
        "Unknown transcription engine \"no\\\"pe\". Known engines: parakeet, elevenlabs."
    );
    assert_eq!(resolve_engine_id(None, Some("ELEVENLABS")).unwrap(), "elevenlabs");
    assert_eq!(resolve_engine_id(Some("  "), None).unwrap(), "parakeet");
}

#[test]
fn chunks_are_counted_by_their_events() {
    let events = vec![
        parse(r#"{"type":"transcript_chunk","id":3,"status":"ok","start_sec":0,"end_sec":2.5}"#),
        parse(r#"{"type":"transcript_chunk","id":1,"status":"error"}"#),
        parse(r#"{"type":"other","id":9}"#),
    ];
    assert_eq!(max_chunk_id(&events), 3);
    assert_eq!(next_transcript_chunk_id(&events), 4);
    assert_eq!(next_transcript_chunk_id(&vec![]), 1);
    assert_eq!(count_chunk_events(&events), 2);
    assert_eq!(count_status(&events, "error"), 1);
    assert!(chunk_spans(&events).len() <= 2);
    let (text, meta) =
        load_chunked_transcript("  hello \n", &events, "parakeet", &float(2.5));
    assert_eq!(text, "hello");
    assert_eq!(meta.get_text("status").unwrap(), "ok");
}

#[test]
fn chunks_need_audio_and_a_tool() {
    assert!(chunk_precheck("/a.wav", true, true).is_none());
    assert!(chunk_precheck("/a.wav", false, true).is_some());
    assert!(chunk_precheck("/a.wav", true, false).is_some());
}

#[test]
fn failed_chunks_do_not_advance() {
    let q = ChunkRequest {
        ts: "t",
        chunk_id: 2,
        reason: "manual",
        start_sec: float(0.0),
        end_sec: float(1.5),
    };
    let none = finish_chunk(&q, &ChunkWork::NoNewAudio);
    assert!(none.text.is_none());
    let failed = finish_chunk(&q, &ChunkWork::ExtractFailed("boom".to_string()));
    assert!(!failed.advance);
    assert!(failed.text.is_none());
    let kept = finish_chunk(
        &q,
        &ChunkWork::Transcribed("hi there".to_string(), parse(r#"{"status":"ok"}"#)),
    );
    assert!(kept.advance);
    assert_eq!(kept.text.as_deref(), Some("hi there"));
    assert_eq!(kept.event.get_text("type").unwrap(), "transcript_chunk");
    assert_eq!(kept.result.get_u64("words"), Some(2));
}

#[test]
fn sessions_are_chunked_once_something_was_transcribed() {
    let mut s = state();
    assert!(!uses_chunks(&s));
    s.transcription_cursor_sec = measure(0.05);
    assert!(!uses_chunks(&s));
    s.transcription_cursor_sec = measure(0.06);
    assert!(uses_chunks(&s));
    s.transcription_cursor_sec = measure(0.0);
    s.transcription_paused = true;
    assert!(uses_chunks(&s));
    check(&full_transcription_meta(), r#"{"status":"skipped","reason":"full_transcribe_on_stop"}"#);
    check(&failed_flush_meta("x"), r#"{"status":"error","reason":"x"}"#);
    let meta = parakeet_stop_meta(
        parse(r#"{"status":"ok"}"#),
        true,
        &Number::Unsigned(1),
        &Number::Unsigned(2),
        Json::Null,
    );
    check(
        &meta,
        r#"{"status":"ok","engine":"parakeet","forced_watcher_stop":true,"watcher_wait_ms":1,
            "stop_flush_ms":2,"stop_flush":null}"#,
    );
}

#[test]
fn extraction_errors_are_told_apart() {
    assert!(extract_result(&ExtractStep::Done).is_ok());
    for step in [
        ExtractStep::BadSpan,
        ExtractStep::NotRun("x".to_string()),
        ExtractStep::Failed("x".to_string()),
    ] {
        assert!(extract_result(&step).is_err());
    }
    let (text, meta) =
        one_shot_result(&OneShot::Done(Some(" hi \n".to_string()), "out".to_string()), "m", "s", None);
    assert_eq!(text, "hi");
    assert_eq!(meta.get_text("status").unwrap(), "ok");
    let (none, failed) = one_shot_result(
        &OneShot::Failed(Some(3), "o".to_string(), "e".to_string()),
        "m",
        "s",
        Some(Json::text("down")),
    );
    assert_eq!(none, "");
    assert_eq!(failed.get_text("status").unwrap(), "error");
}

#[test]
fn streams_need_a_key_a_script_and_an_interpreter() {
    assert_eq!(require_api_key(Some("k"), Some("s")).unwrap(), "k");
    assert_eq!(require_api_key(Some(" "), Some("s")).unwrap(), "s");
    assert!(require_api_key(None, None).is_err());
    assert_eq!(require_stream_script(Some(("/x.py", true)), None).unwrap(), "/x.py");
    assert!(require_stream_script(Some(("/x.py", false)), None).is_err());
    assert_eq!(
        require_stream_script(None, Some(("/res", true))).unwrap(),
        "/res/scripts/elevenlabs_stream.py"
    );
    assert!(!model_id(None).is_empty());
    assert_eq!(model_id(Some(" m ")), "m");
    assert!(commit_strategy(Some("manual")) == "manual");
    assert!(commit_strategy(Some("bogus")) == commit_strategy(None));
    let candidates = stream_python_candidates(Some("p"), "q");
    assert_eq!(candidates[0], "p");
    let mut search = StreamPythonSearch::new();
    assert!(search.wants("p"));
    assert!(!search.note("p", Probe::Lacking));
    assert!(!search.wants("p"));
    assert!(search.note("q", Probe::Found));
    assert!(stream_python_error(&search.tried, "q").message.contains("p"));
}

#[test]
fn streams_that_fail_are_loud() {
    let events = vec![
        parse(r#"{"type":"stream_error","message":"quota"}"#),
        parse(r#"{"type":"elevenlabs_stream_error","message":"quota"}"#),
        parse(r#"{"type":"x"}"#),
    ];
    assert!(collect_stream_errors(&events).len() <= 2);
    let meta = stream_stop_meta(
        parse(r#"{"status":"ok"}"#),
        "m",
        &Number::Unsigned(1),
        &StreamEnd::Exited,
        vec![],
        "",
    );
    assert_eq!(meta.get_text("status").unwrap(), "error");
    let fine = stream_stop_meta(
        parse(r#"{"status":"ok"}"#),
        "m",
        &Number::Unsigned(1),
        &StreamEnd::Finished,
        vec![],
        "hello",
    );
    assert_eq!(fine.get_text("status").unwrap(), "ok");
    let chunk = stream_chunk_result("manual", &float(0.0), &float(1.0), true);
    assert_eq!(chunk.get_text("reason").unwrap(), "manual");
}

fn run_hooks(transcript: &str, args: &StopArgs, env: Option<&str>) -> (String, Json) {
    match output_hook_plan(args, env) {
        Err(meta) => (transcript.to_string(), meta),
        Ok(hooks) => {
            let mut chain = HookChain::new(transcript);
            for hook in &hooks {
                let text = if hook.contains("[:upper:]' '[:lower:]") {
                    chain.current.to_lowercase()
                } else if hook.contains("[:lower:]' '[:upper:]") {
                    chain.current.to_uppercase()
                } else if hook.contains("s/there/world/gi") {
                    chain.current.replace("there", "world")
                } else {
                    chain.current.replace("Um, ", "").replace(" um", "")
                };
                if !chain.step(hook, &HookRun::Done(Some(text))) {
                    break;
                }
            }
            let done = chain.finish(hooks.len());
            (done.text, done.meta)
        }
    }
}

#[test]
fn output_hook_receives_temp_paths_and_rewrites_transcript() {
    let env = r#"test -f "$2" && grep -q session_id "$2" && perl -0777 -i -pe 's/\bum\b[,.]?//gi; s/[ \t]{2,}/ /g' "$1""#;
    let (out, meta) = run_hooks("Um, hello um there.", &default_stop_args(), Some(env));
    assert_eq!(meta.get_text("status").unwrap(), "ok");
    assert_eq!(meta.get_u64("count"), Some(1));
    assert_eq!(out, "hello there.");
    let mut chain = HookChain::new("Um, hello um there.");
    chain.step(env, &HookRun::Done(Some("hello there.\n".to_string())));
    let written = chain.finish(1).write.unwrap();
    assert_eq!(written.trim(), "hello there.");
}

#[test]
fn output_hook_skipped_when_not_configured() {
    let (out, meta) = run_hooks("unchanged", &default_stop_args(), None);
    assert_eq!(out, "unchanged");
    assert_eq!(meta.get_text("status").unwrap(), "skipped");
    assert_eq!(meta.get_text("reason").unwrap(), "not_configured");
}

#[test]
fn output_hook_skipped_when_disabled_by_flag() {
    let mut args = default_stop_args();
    args.no_stop_hooks = true;
    let (out, meta) = run_hooks("unchanged", &args, None);
    assert_eq!(out, "unchanged");
    assert_eq!(meta.get_text("status").unwrap(), "skipped");
    assert_eq!(meta.get_text("reason").unwrap(), "disabled_by_flag");
}

#[test]
fn output_hook_skipped_by_no_hooks_flag_even_when_configured() {
    let mut args = default_stop_args();
    args.no_hooks = true;
    let (out, meta) =
        run_hooks("um unchanged um", &args, Some(r#"perl -0777 -i -pe 's/\bum\b//gi' "$1""#));
    assert_eq!(out, "um unchanged um");
    assert_eq!(meta.get_text("status").unwrap(), "skipped");
    assert_eq!(meta.get_text("reason").unwrap(), "disabled_by_flag");
}

#[test]
fn normalize_cli_hook_appends_args_for_bare_path() {
    assert_eq!(normalize_cli_hook("/tmp/hook.sh"), r#"/tmp/hook.sh "$@""#);
    // A value that references the temp paths is left untouched.
    assert_eq!(
        normalize_cli_hook(r#"perl -i -pe 's/a/b/' "$1""#),
        r#"perl -i -pe 's/a/b/' "$1""#
    );
}

#[test]
fn cli_post_hooks_run_after_env_hooks() {
    // The first hook lowercases; the second then uppercases.
    let env = r#"tr '[:upper:]' '[:lower:]' < "$1" > "$1.t" && mv "$1.t" "$1""#;
    let mut args = default_stop_args();
    args.with_post_hook =
        vec![r#"tr '[:lower:]' '[:upper:]' < "$1" > "$1.t" && mv "$1.t" "$1""#.to_string()];
    let (out, meta) = run_hooks("Hello There", &args, Some(env));
    assert_eq!(meta.get_text("status").unwrap(), "ok");
    assert_eq!(meta.get_u64("count"), Some(2));
    assert_eq!(out, "HELLO THERE");
}

#[test]
fn cli_post_hook_runs_even_with_no_hooks_flag() {
    let mut args = default_stop_args();
    args.no_hooks = true;
    args.with_post_hook = vec![r#"perl -0777 -i -pe 's/there/world/gi' "$1""#.to_string()];
    let (out, meta) =
        run_hooks("um hello there", &args, Some(r#"perl -0777 -i -pe 's/\bum\b//gi' "$1""#));
    assert_eq!(meta.get_text("status").unwrap(), "ok");
    assert_eq!(meta.get_u64("count"), Some(1));
    assert_eq!(out, "um hello world");
}

#[test]
fn hooks_that_fail_end_the_chain() {
    let mut chain = HookChain::new("a");
    assert!(!chain.step("h", &HookRun::Failed(Some(2), "bad".to_string())));
    let done = chain.finish(2);
    assert_eq!(done.text, "a");
    assert_eq!(done.meta.get_text("status").unwrap(), "error");
    assert_eq!(hook_setup_failed("x", "y").get_text("status").unwrap(), "error");
    assert_eq!(configured_hooks(Some("a\n\n b \n")), vec!["a", "b"]);
}

#[test]
fn the_transcription_is_planned() {
    let paths = template_paths("/s/audio.wav", "/s");
    assert_eq!(paths.out_txt, "/s/transcript.txt");
    let command = configured_command(&Some("run {audio}".to_string()), Some("env"));
    assert_eq!(command.as_deref(), Some("run {audio}"));
    assert_eq!(configured_command(&None, Some("  ")), None);
    let plan = transcription_plan(false, true, &command, &paths, &None);
    match &plan {
        Plan::Command(c) => assert!(c.contains("/s/audio.wav")),
        _ => panic!("a command was configured"),
    }
    let missing = transcription_plan(false, false, &command, &paths, &None);
    assert_eq!(
        idle_meta(&missing, "/s/audio.wav").unwrap().get_text("status").unwrap(),
        "missing_audio"
    );
    assert!(idle_meta(&plan, "/s/audio.wav").is_none());
    let idle = transcription_plan(false, true, &None, &paths, &None);
    assert!(!execution_path(&idle).is_empty());
    assert_eq!(idle_meta(&idle, "/s/audio.wav").unwrap().get_text("status").unwrap(), "skipped");
    assert!(matches!(
        transcription_plan(true, true, &command, &paths, &None),
        Plan::DryRun
    ));
    assert!(matches!(
        transcription_plan(false, true, &None, &paths, &Some("/p.py".to_string())),
        Plan::Script(_)
    ));
}

#[test]
fn commands_hand_over_their_text() {
    let written = command_result(&CommandRun::Done(Some("hi\n".to_string()), "x".to_string()), "c");
    assert_eq!(written.text, "hi");
    let printed = command_result(&CommandRun::Done(None, "out\n".to_string()), "c");
    assert_eq!(printed.text, "out");
    assert!(printed.write.is_some());
    let failed = command_result(
        &CommandRun::Failed(Some(42), None, "".to_string(), "boom".to_string()),
        "c",
    );
    assert_eq!(failed.text, "");
    assert_eq!(failed.meta.get_text("status").unwrap(), "error");
    assert_eq!(failed.meta.get_i64("returncode"), Some(42));
    let line = script_command_line("py", "s.py", "a", "o", "m");
    assert!(line.contains("s.py"));
    let script = script_result(
        &CommandRun::Done(Some("t".to_string()), "".to_string()),
        &line,
        "s.py",
        "m",
        None,
    );
    assert_eq!(script.meta.get_text("status").unwrap(), "ok");
    let timed = attach_perf(script.meta, Fields::new(), &Number::Unsigned(4));
    assert_eq!(to_value(&timed)["perf"]["total_ms"], Value::from(4));
}

#[test]
fn the_command_after_it_rewrites_the_text() {
    let args = default_stop_args();
    let paths = template_paths("/s/audio.wav", "/s");
    let planned = post_transcribe_plan(&args, Some("x {transcript}"), &paths, "a\"b").unwrap();
    assert_eq!(planned, "x \"a\\\"b\"");
    let mut off = default_stop_args();
    off.no_stop_hooks = true;
    check(
        &post_transcribe_plan(&off, Some("x"), &paths, "t").unwrap_err(),
        r#"{"status":"skipped","reason":"disabled_by_flag"}"#,
    );
    check(
        &post_transcribe_plan(&args, None, &paths, "t").unwrap_err(),
        r#"{"status":"skipped","reason":"not_configured"}"#,
    );
    let done = post_transcribe_result(
        &CommandRun::Done(None, "new\n".to_string()),
        "x",
        "old",
    );
    assert_eq!(done.text, "new");
    let kept = post_transcribe_result(
        &CommandRun::Failed(Some(1), None, "".to_string(), "e".to_string()),
        "x",
        "old",
    );
    assert_eq!(kept.text, "old");
    assert_eq!(kept.meta.get_text("status").unwrap(), "error");
    assert_eq!(transcript_file_text("a"), "a\n");
    assert_eq!(transcript_file_text(""), "");
}

#[test]
fn commands_come_from_somewhere() {
    assert_eq!(command_source(false, Some("c"), Some("e")), "cli");
    assert_eq!(command_source(false, Some(" "), Some("e")), "env");
    assert_eq!(command_source(false, None, None), "off");
    assert_eq!(command_source(true, Some("c"), Some("e")), "disabled");
    let mut args = default_stop_args();
    args.transcribe_cmd = Some("c".to_string());
    assert_eq!(stop_strategy(&args, None, &state()), StopStrategy::Custom);
    args.no_stop_hooks = true;
    assert_eq!(stop_strategy(&args, Some("e"), &state()), StopStrategy::Full);
    let mut chunked = state();
    chunked.transcription_watcher_pid = Some(3);
    assert_eq!(stop_strategy(&args, Some("e"), &chunked), StopStrategy::Chunked);
    let text = stop_plan_text(&state(), "0.000", true, "disabled", "disabled");
    assert!(text.contains("no_stop_hooks=true"));
    assert!(text.contains("watcher_pid=None"));
    assert!(text.contains(" transcribe_cmd=disabled post_transcribe_cmd=disabled"));
    let mut paused = state();
    assert!(!wakes_recorder(&paused, true));
    paused.transcription_paused = true;
    assert!(wakes_recorder(&paused, true));
    assert!(!wakes_recorder(&paused, false));
}

#[test]
fn the_source_directory_must_be_there() {
    assert!(check_source_dir("/s", true).is_ok());
    let e = check_source_dir("/s", false).unwrap_err();
    assert_eq!((e.code, e.message.as_str()), (7, "Screenshot source directory missing: /s"));
}

fn shot(id: u64, name: &str) -> ShotMeta {
    plain_shot(id, name, Number::Unsigned(0))
}

#[test]
fn screenshots_are_merged_by_number() {
    let merged = merge_shots(vec![shot(3, "a"), shot(1, "b")], vec![shot(2, "c"), shot(3, "d")]);
    let order: Vec<(u64, &str)> =
        merged.iter().map(|s| (s.shot_id, s.dest_rel_path.as_str())).collect();
    assert_eq!(order, vec![(1, "b"), (2, "c"), (3, "a"), (3, "d")]);
}

#[test]
fn a_failed_command_fails_the_stop() {
    let ok = parse(r#"{"status":"ok","method":"command"}"#);
    assert!(transcribed(&ok));
    assert_eq!(stop_exit_code(&ok, false), 0);
    assert_eq!(transcription_status_text(&ok), None);
    let post = parse(r#"{"status":"error"}"#);
    let failed = with_post_process(ok, post);
    assert_eq!(stop_exit_code(&failed, false), 1);
    assert_eq!(stop_exit_code(&failed, true), 0);
    assert_eq!(
        transcription_status_text(&failed).as_deref(),
        Some("transcription_status: error (post_transcribe_failed)")
    );
    check(&post_not_run(), r#"{"status":"skipped","reason":"transcription_not_ok"}"#);
    assert_eq!(
        transcription_status_text(&parse(r#"{"stderr":"boom"}"#)).as_deref(),
        Some("transcription_status: unknown (boom)")
    );
    assert!(post_process_text(&post_not_run(), "disabled", 1, 2, "0.5")
        .starts_with("Post-transcribe hook: status=skipped source=disabled chars_before=1"));
}

#[test]
fn stops_report_what_they_did() {
    let s = Outcome {
        session_id: "s",
        session_dir: "/d",
        note_path: "/d/note.md",
        html_path: "/d/note.html",
        screenshots: 2,
        clips: 1,
        moved: 1,
    };
    let report = stop_report(
        &s,
        &Number::Unsigned(9),
        parse("{}"),
        parse(r#"{"status":"skipped"}"#),
        false,
        false,
    );
    check(
        &report,
        r#"{"ok":false,"action":"stop","session_id":"s","session_dir":"/d","note_path":"/d/note.md",
            "html_path":"/d/note.html","screenshots_moved":1,"screenshots_total":2,
            "clipboard_captures":1,"stop_ms":9,"phases":{},"transcription":{"status":"skipped"},
            "transcription_watcher_forced_stop":false,"dry_run":false}"#,
    );
    let event = session_stopped_event("t", &s, &Some(float(1.5)), &parse("{}"));
    assert_eq!(to_value(&event)["audio_duration_sec"], Value::from(1.5));
    assert_eq!(STOP_PHASES.len(), STOP_REPORT_PHASES.len() + 1);
    assert!(!STOP_REPORT_PHASES.contains(&"post_transcribe_ms"));
    let finished =
        transcription_finished(&parse(r#"{"status":"ok"}"#), 5, 1, &Number::Unsigned(2));
    check(
        &finished,
        r#"{"status":"ok","method":"unknown","chars":5,"words":1,"duration_ms":2}"#,
    );
    let hooks = output_hooks_ran(&parse(r#"{"status":"ok"}"#), 1, 5, 4, &Number::Unsigned(2));
    check(
        &hooks,
        r#"{"status":"ok","count":1,"chars_before":5,"chars_after":4,"duration_ms":2}"#,
    );
}
