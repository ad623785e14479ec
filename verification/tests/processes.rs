//! Helper processes, the recorder, and what is read from the system.

use riff::audio::{
    after_first_attempt, asks_auto, beep_count, build_record_cmd, choose_device, detected_device,
    device_choice, parse_avfoundation_audio_devices,
    recorder_error_looks_like_invalid_audio_device, requested_device, resolve_sound_path,
    retry_error, sound_file, sound_variables, wav_extent, DeviceChoice, RecorderStep, SoundKind,
};
use riff::error::app_error;
use riff::json::{Json, Number};
use riff::measure::Measure;
use riff::parakeet::{
    ensure_step, health_identity, host_and_port, identity_owned_by_current_root, is_healthy_body,
    parakeet_server_base_url, parakeet_server_request_url, parakeet_server_unix_socket,
    process_matches_parakeet_server, replaceable_pid, resolve_parakeet_model_revision,
    resolve_parakeet_requested_device, server_reply, transcribe_via_parakeet_server, trim_slashes,
    validate_parakeet_server_endpoint, validate_parakeet_server_identity, warmup_report,
    EnsureStep, ExpectedServer, PARAKEET_SERVER_PROTOCOL_VERSION, ParakeetServerIdentity,
    RecordedProcess, ServerReply, Warmup,
};
use riff::paths::parakeet_server_socket_file;
use riff::probe::{
    first_filled_line, normalize_clipboard_text, parse_frontmost_app, parse_optional_field,
    parse_pid, process_columns, process_stats, python_candidates, python_major_minor,
    python_supported_for_parakeet, ClipboardMonitor, PythonSearch,
};
use riff::recorder::{
    capture_result, event_sound, picker_result, read_tail, recorder_exited_error, signal_error,
    start_log_line, start_sight, stop_process, watcher_wait, Beep, BeepTools, PickerEnd,
    StartSight, Stopping, StoppingMove, WatcherWait,
};
use riff::servers::{
    all_stopped, clears_record, foreign_line, is_helper_invocation, kill_line,
    kill_server_from_pid_file, orphan_event, partition_owned, restart_targets, root_candidates,
    scan_helper_processes, server_killed, stop_pid, stray_helper_pids, stray_summary, Helper,
    KillRun, StopEnd, StopMove, StopPhase, StopSight,
};
use riff::setup::{
    check_line, doctor_exit_code, doctor_ok, doctor_ran, setup_python, setup_step_result,
    setup_steps, Check, SetupStep, StepEnd,
};
use riff::wire::read_json;
use serde_json::Value;

fn float(f: f64) -> Number {
    Number::Float(Measure { bits: f.to_bits() }, format!("{:?}", f))
}

fn to_value(j: &Json) -> Value {
    match j {
        Json::Null => Value::Null,
        Json::Bool(b) => Value::Bool(*b),
        Json::Number(Number::Unsigned(u)) => Value::from(*u),
        Json::Number(Number::Negative(i)) => Value::from(*i),
        Json::Number(Number::Float(m, _)) => Value::from(f64::from_bits(m.bits)),
        Json::Text(s) => Value::String(s.clone()),
        Json::List(items) => Value::Array(items.iter().map(to_value).collect()),
        Json::Object(fields) => {
            Value::Object(fields.iter().map(|(k, v)| (k.clone(), to_value(v))).collect())
        }
    }
}

fn parse(text: &str) -> Json {
    read_json(text).unwrap()
}

fn check(j: &Json, text: &str) {
    assert_eq!(to_value(j), serde_json::from_str::<Value>(text).unwrap());
}

const REAL_SERVER: &str = "/Users/x/Code/riff/.venv/bin/python /Users/x/Code/riff/scripts/parakeet_transcribe.py --serve --model nvidia/parakeet --device auto --riff-root /private/tmp/riff --unix-socket /private/tmp/riff/parakeet-server.sock";

#[test]
fn matches_a_real_parakeet_server() {
    assert!(is_helper_invocation(REAL_SERVER, Helper::Parakeet));
}

#[test]
fn matches_a_real_web_server() {
    assert!(is_helper_invocation(
        "/usr/bin/python3 /opt/riff/scripts/riff_web_server.py --root /tmp/riff --port 8766",
        Helper::Web
    ));
}

#[test]
fn ignores_processes_that_merely_mention_the_script() {
    for command in [
        // A shell running a script whose text contains the command.
        "/bin/bash -c riff restart; python3 scripts/parakeet_transcribe.py --serve --riff-root /tmp/riff",
        "/bin/zsh -c ps -ax | grep parakeet_transcribe.py --serve",
        "grep -r parakeet_transcribe.py --serve /tmp/riff",
        "vim scripts/parakeet_transcribe.py --serve",
        // An editor or tail on the log, not the server itself.
        "tail -f /tmp/riff/parakeet-server.log parakeet_transcribe.py --serve",
    ] {
        assert!(
            !is_helper_invocation(command, Helper::Parakeet),
            "should not match: {command}"
        );
    }
}

#[test]
fn ignores_python_running_a_different_script() {
    assert!(!is_helper_invocation(
        "/usr/bin/python3 /opt/riff/scripts/other_script.py --serve --riff-root /tmp/riff",
        Helper::Parakeet
    ));
    // Substring-adjacent names must not match either.
    assert!(!is_helper_invocation(
        "/usr/bin/python3 /opt/my_parakeet_transcribe.py --serve",
        Helper::Parakeet
    ));
}

#[test]
fn ignores_non_server_modes_of_the_same_script() {
    // One-shot transcription and model downloads are not the server.
    assert!(!is_helper_invocation(
        "/usr/bin/python3 /opt/riff/scripts/parakeet_transcribe.py --audio a.wav --out-txt a.txt",
        Helper::Parakeet
    ));
    assert!(!is_helper_invocation(
        "/usr/bin/python3 /opt/riff/scripts/parakeet_transcribe.py --download-model",
        Helper::Parakeet
    ));
    // The live watcher shares the script but is owned by its session.
    assert!(!is_helper_invocation(
        "/usr/bin/python3 /opt/riff/scripts/parakeet_transcribe.py --watch-audio --session-id 1",
        Helper::Parakeet
    ));
}

#[test]
fn ignores_empty_and_malformed_command_lines() {
    assert!(!is_helper_invocation("", Helper::Parakeet));
    assert!(!is_helper_invocation("python3", Helper::Parakeet));
}

#[test]
fn helper_markers_are_script_specific() {
    assert_eq!(Helper::Parakeet.script_marker(), "parakeet_transcribe.py");
    assert_eq!(Helper::Parakeet.required_token(), Some("--serve"));
    assert_eq!(Helper::Web.script_marker(), "riff_web_server.py");
    assert_eq!(Helper::Web.required_token(), None);
    assert_eq!(Helper::Web.label(), "web");
}

#[test]
fn strays_are_found_in_a_listing() {
    let listing = format!(
        "  11 {REAL_SERVER}\n  12 /usr/bin/python3 /opt/riff/scripts/parakeet_transcribe.py --serve --riff-root /elsewhere\nnonsense\n  13 {REAL_SERVER}\n"
    );
    let roots = root_candidates("/tmp/riff", "/private/tmp/riff");
    let found = scan_helper_processes(&listing, Helper::Parakeet, &roots, 13);
    assert_eq!(found.len(), 2);
    assert!(found[0].owned);
    assert!(!found[1].owned);
    assert_eq!(stray_helper_pids(&found, None), vec![11]);
    assert!(stray_helper_pids(&found, Some(11)).is_empty());
    assert!(foreign_line(&found[1]).contains("12"));
    let (own, foreign) = partition_owned(found);
    assert_eq!((own.len(), foreign.len()), (1, 1));
    assert_eq!(stray_summary(&vec![], &vec![]), (true, "none".to_string()));
    assert_eq!(
        stray_summary(&vec![11, 12], &vec![3]),
        (false, "parakeet [11, 12], web [3] (run 'riff restart')".to_string())
    );
    assert_eq!(orphan_event(Helper::Parakeet, 11, None).get_i64("helper_pid"), Some(11));
    assert_eq!(restart_targets(false, false).len(), 2);
    assert_eq!(restart_targets(true, false).len(), 1);
}

#[test]
fn helpers_are_killed_last() {
    let mut phase = StopPhase::Asked;
    assert!(matches!(stop_pid(&mut phase, StopSight::Alive), StopMove::Terminate));
    assert!(matches!(stop_pid(&mut phase, StopSight::Alive), StopMove::Wait));
    assert!(matches!(stop_pid(&mut phase, StopSight::Overdue), StopMove::Kill));
    assert!(matches!(
        stop_pid(&mut phase, StopSight::Gone),
        StopMove::Finish(StopEnd::Killed)
    ));
    let mut gone = StopPhase::Asked;
    assert!(matches!(
        stop_pid(&mut gone, StopSight::Gone),
        StopMove::Finish(StopEnd::AlreadyExited)
    ));
    assert!(all_stopped(&vec![(1, StopEnd::Killed), (2, StopEnd::AlreadyExited)]));
    assert!(!all_stopped(&vec![(1, StopEnd::StillRunning)]));
}

#[test]
fn pid_files_are_kept_while_the_process_lives() {
    assert!(!clears_record(&KillRun::KillFailed(5, "no".to_string()), true));
    assert!(clears_record(&KillRun::Terminated(5), false));
    let report = kill_server_from_pid_file(&KillRun::Killed(5), "web", "/p");
    assert_eq!(report.get_text("signal").unwrap(), "SIGKILL");
    check(
        &kill_server_from_pid_file(&KillRun::NotRecorded, "web", "/p"),
        r#"{"server":"web","pid_file":"/p","status":"no_pid_file_or_invalid"}"#,
    );
    assert_eq!(
        kill_line(&KillRun::NotRecorded, "web"),
        "kill-server web: status=no_pid_file_or_invalid pid=- signal=none"
    );
    check(
        &server_killed(&report),
        &format!(
            r#"{{"server":"web","status":"{}","pid":5,"signal":"SIGKILL"}}"#,
            report.get_text("status").unwrap()
        ),
    );
}

fn matching_server_identity(model: &str, endpoint: &str) -> ParakeetServerIdentity {
    let requested_device = resolve_parakeet_requested_device(None);
    ParakeetServerIdentity {
        protocol_version: PARAKEET_SERVER_PROTOCOL_VERSION,
        service: "parakeet".to_string(),
        server_instance_id: "test-instance".to_string(),
        pid: 4242,
        riff_root: "/tmp/riff".to_string(),
        script_path: "/src/transcription.rs".to_string(),
        transport: "unix".to_string(),
        endpoint: endpoint.to_string(),
        model: model.to_string(),
        model_revision: resolve_parakeet_model_revision(None),
        requested_device: requested_device.clone(),
        device: if requested_device == "cuda" { "cuda".to_string() } else { "cpu".to_string() },
        python_version: "3.12.0".to_string(),
        python_executable: "/test/python".to_string(),
        nemo_version: "2.4.0".to_string(),
        torch_version: "2.7.1".to_string(),
        started_at_epoch: float(1.0),
    }
}

#[test]
fn parakeet_request_urls_support_unix_and_tcp() {
    assert_eq!(
        parakeet_server_request_url("unix:///tmp/riff.sock", "health"),
        "http://localhost/health"
    );
    assert_eq!(
        parakeet_server_request_url("http://127.0.0.1:8765/", "transcribe"),
        "http://127.0.0.1:8765/transcribe"
    );
}

#[test]
fn parakeet_identity_validation_rejects_wrong_model() {
    let endpoint = format!("unix://{}", parakeet_server_socket_file("/tmp/riff"));
    let revision = resolve_parakeet_model_revision(None);
    let device = resolve_parakeet_requested_device(None);
    let expected = ExpectedServer {
        root: "/tmp/riff",
        model: Some("model-a"),
        model_revision: &revision,
        requested_device: &device,
        script_path: None,
    };
    let mut identity = matching_server_identity("model-a", &endpoint);
    assert!(validate_parakeet_server_identity(&identity, &expected).is_ok());

    identity.model = "model-b".to_string();
    let error = validate_parakeet_server_identity(&identity, &expected)
        .expect_err("wrong model must be rejected");
    assert!(error.contains("model expected=model-a actual=model-b"));
}

#[test]
fn only_current_root_unix_socket_is_treated_as_owned() {
    let endpoint = format!("unix://{}", parakeet_server_socket_file("/tmp/riff"));
    let mut identity = matching_server_identity("model-a", &endpoint);
    assert!(identity_owned_by_current_root(&identity, "/tmp/riff", &endpoint));

    identity.transport = "tcp".to_string();
    identity.endpoint = "http://127.0.0.1:8765".to_string();
    assert!(!identity_owned_by_current_root(&identity, "/tmp/riff", "http://127.0.0.1:8765"));
}

#[test]
fn only_own_servers_are_replaced() {
    let endpoint = format!("unix://{}", parakeet_server_socket_file("/tmp/riff"));
    let identity = matching_server_identity("m", &endpoint);
    assert_eq!(replaceable_pid(&identity, "/tmp/riff", &endpoint), Some(4242));
    assert_eq!(replaceable_pid(&identity, "/tmp/other", &endpoint), None);
    assert!(validate_parakeet_server_endpoint(&identity, &endpoint).is_ok());
    assert!(validate_parakeet_server_endpoint(&identity, "http://x").is_err());
    assert_eq!(
        ensure_step(&Some(identity), &None, "/tmp/riff", &endpoint),
        EnsureStep::Replace(4242)
    );
    let recorded = RecordedProcess { pid: 7, alive: true, matches: true };
    assert_eq!(ensure_step(&None, &Some(recorded), "/tmp/riff", &endpoint), EnsureStep::Await(7));
    assert_eq!(ensure_step(&None, &None, "/tmp/riff", &endpoint), EnsureStep::Spawn);
}

#[test]
fn server_addresses_are_read() {
    assert_eq!(parakeet_server_base_url(None, "/tmp/x.sock"), "unix:///tmp/x.sock");
    assert_eq!(parakeet_server_base_url(Some("http://h:1"), "/tmp/x.sock"), "http://h:1");
    assert_eq!(parakeet_server_unix_socket("unix:///tmp/x.sock").as_deref(), Some("/tmp/x.sock"));
    assert_eq!(parakeet_server_unix_socket("http://h"), None);
    assert_eq!(trim_slashes("http://h//"), "http://h");
    assert_eq!(
        host_and_port("http://127.0.0.1:8765", "80"),
        ("127.0.0.1".to_string(), "8765".to_string())
    );
    assert!(is_healthy_body("{\"ok\": true}") || is_healthy_body("{\"ok\":true}"));
    assert!(process_matches_parakeet_server(
        "python /s/parakeet_transcribe.py --serve --model m",
        "/s/parakeet_transcribe.py",
        "m"
    ));
    let report = warmup_report(Warmup::Spawned, &Some("i".to_string()), Some(3));
    assert_eq!(report.get_text("outcome").unwrap(), "spawned");
}

#[test]
fn replies_of_the_server_are_checked() {
    let expected = ExpectedServer {
        root: "/tmp/riff",
        model: Some("m"),
        model_revision: "main",
        requested_device: "auto",
        script_path: None,
    };
    for reply in [
        ServerReply::NoTool,
        ServerReply::NotRun("x".to_string()),
        ServerReply::Failed(Some(7), "o".to_string(), "e".to_string()),
        ServerReply::Garbled("o".to_string(), "e".to_string()),
    ] {
        assert!(transcribe_via_parakeet_server(&reply, "http://h", &expected, "i").is_err());
    }
    let unnamed = || Err("missing server identity".to_string());
    assert!(matches!(server_reply("{\"ok\":true}", unnamed()), ServerReply::Answer(_, Err(_))));
    assert!(matches!(
        server_reply("{", unnamed()),
        ServerReply::Garbled(e, b) if e == "EOF while parsing an object at line 1 column 1" && b == "{"
    ));
    let says = |body: &[u8]| health_identity(body, "shown", unnamed()).unwrap_err();
    assert_eq!(says(b"{\"ok\":false}"), "health returned ok=false: shown");
    assert_eq!(says(b"{\"ok\":true}"), "health identity is incomplete: missing server identity");
    assert_eq!(
        says(b"x"),
        "health returned invalid JSON: expected value at line 1 column 1"
    );
}

#[test]
fn the_recorder_is_asked_before_it_is_forced() {
    let mut s = Stopping::Begin;
    assert_eq!(stop_process(&mut s, true, false), StoppingMove::Ask);
    assert_eq!(stop_process(&mut s, true, false), StoppingMove::Wait);
    assert_eq!(stop_process(&mut s, true, true), StoppingMove::Force);
    assert_eq!(stop_process(&mut s, true, true), StoppingMove::Nothing);
    let mut dead = Stopping::Begin;
    assert_eq!(stop_process(&mut dead, false, false), StoppingMove::Nothing);
    assert_eq!(start_sight(true, true), StartSight::Exited);
    assert_eq!(start_sight(false, true), StartSight::Runs);
    assert_eq!(start_sight(false, false), StartSight::Waiting);
    assert_eq!(watcher_wait(true, false), WatcherWait::Waiting);
    assert_eq!(watcher_wait(false, false), WatcherWait::Finished);
    assert_eq!(watcher_wait(false, true), WatcherWait::TimedOut);
    let e = capture_result(5, false, false, None).unwrap_err();
    assert_eq!(e.message, "Recorder pid=5 is not alive; cannot resume.");
    let e = capture_result(5, true, true, Some("denied")).unwrap_err();
    assert_eq!(e.message, "Failed to SIGSTOP recorder pid=5: denied");
    assert!(capture_result(5, true, true, None).is_ok());
    assert_eq!(signal_error("SIGINT", 5, "x").message, "Failed to SIGINT recorder pid=5: x");
    assert_eq!(
        start_log_line("t", &vec!["ffmpeg".to_string(), "-y".to_string()]),
        "[t] start_cmd=\"ffmpeg\" \"-y\"\n"
    );
}

#[test]
fn the_end_of_a_log_is_shown() {
    assert_eq!(read_tail(&b"hello".to_vec(), 3), "llo");
    assert_eq!(read_tail(&b"hello".to_vec(), 9), "hello");
    assert_eq!(read_tail(&vec![0xc3, 0xa9, 0xff], 9), "é\u{fffd}");
    let e = recorder_exited_error("boom");
    assert_eq!(e.code, 6);
    assert!(e.message.ends_with("ffmpeg log tail:\nboom"));
}

#[test]
fn sounds_are_played_or_not() {
    let all = BeepTools {
        no_beeps: false,
        enabled: true,
        player: true,
        sound_file: true,
        bell: true,
    };
    match event_sound(&all, 2, "/s.aiff", "0.08") {
        Beep::Shell(args) => assert_eq!(&args[3..], ["2", "/s.aiff", "0.08"]),
        _ => panic!("there is a player"),
    }
    let bell = BeepTools { player: false, ..all };
    match event_sound(&bell, 3, "/s.aiff", "0.08") {
        Beep::Bell(script) => assert_eq!(script, "beep 3"),
        _ => panic!("there is a bell"),
    }
    let quiet = BeepTools { no_beeps: true, ..bell };
    assert!(matches!(event_sound(&quiet, 3, "/s.aiff", "0.08"), Beep::Silent));
    assert_eq!(beep_count(None), 1);
    assert_eq!(beep_count(Some("9")), 3);
    assert_eq!(beep_count(Some("0")), 1);
    assert_eq!(beep_count(Some("300")), 1);
    assert_eq!(resolve_sound_path("Ping"), "/System/Library/Sounds/Ping.aiff");
    assert_eq!(resolve_sound_path("/x/y.wav"), "/x/y.wav");
    assert_eq!(sound_file(SoundKind::Stop, None), "/System/Library/Sounds/Glass.aiff");
    assert!(sound_variables(SoundKind::Start).0.starts_with("RIFF_BEEP_START"));
    assert_eq!(picker_result(&PickerEnd::Missing).unwrap_err().code, 1);
    assert_eq!(
        picker_result(&PickerEnd::Failed(Some(3), "exit status: 3".to_string())).unwrap_err().code,
        3
    );
    assert!(picker_result(&PickerEnd::NotRun("x".to_string())).is_err());
    assert!(picker_result(&PickerEnd::Done).is_ok());
}

#[test]
fn audio_devices_are_chosen() {
    let raw = "[AVFoundation] AVFoundation video devices:\n[AVFoundation] [0] Camera\n[AVFoundation] AVFoundation audio devices:\n[AVFoundation] [0] BlackHole 2ch\n[AVFoundation] [1] MacBook Pro Microphone\n";
    let devices = parse_avfoundation_audio_devices(raw);
    assert_eq!(devices.len(), 2);
    assert_eq!(devices[1], ("1".to_string(), "MacBook Pro Microphone".to_string()));
    assert_eq!(choose_device(&devices), 1);
    assert_eq!(detected_device(&devices).0, ":1");
    assert!(asks_auto("auto"));
    assert_eq!(requested_device(":3", None), ":3");
    assert!(matches!(device_choice(":3", Some(":1")), DeviceChoice::Given(_)));
    assert!(matches!(device_choice("auto", Some(":1")), DeviceChoice::Cached(_)));
    assert!(matches!(device_choice("auto", None), DeviceChoice::Detect));
    assert_eq!(build_record_cmd("/a.wav", ":1")[0], "ffmpeg");
    let e = app_error(6, "Invalid audio device index");
    let first = Some(app_error(6, "Invalid audio device index"));
    if recorder_error_looks_like_invalid_audio_device(&e) {
        assert!(matches!(after_first_attempt(&first, "auto"), RecorderStep::RetryWithFreshDevice));
    }
    assert!(matches!(after_first_attempt(&None, "auto"), RecorderStep::Recording));
    assert!(retry_error(&e, &app_error(6, "again")).message.contains("again"));
}

#[test]
fn wav_headers_are_read() {
    let mut header = vec![0u8; 44];
    header[0..4].copy_from_slice(b"RIFF");
    header[8..12].copy_from_slice(b"WAVE");
    header[22..24].copy_from_slice(&1u16.to_le_bytes());
    header[24..28].copy_from_slice(&16000u32.to_le_bytes());
    header[34..36].copy_from_slice(&16u16.to_le_bytes());
    header[40..44].copy_from_slice(&64000u32.to_le_bytes());
    assert_eq!(wav_extent(&header), Some((64000, 32000)));
    header[22] = 0;
    assert_eq!(wav_extent(&header), None);
    assert_eq!(wav_extent(&vec![0u8; 10]), None);
}

#[test]
fn what_the_system_prints_is_read() {
    assert_eq!(parse_optional_field(" x "), Some("x".to_string()));
    assert_eq!(parse_optional_field(" "), None);
    assert_eq!(first_filled_line("\n  a \nb"), Some("a".to_string()));
    assert_eq!(parse_pid(" 42\n"), Some(42));
    assert_eq!(parse_pid("x"), None);
    let columns = process_columns("  1.5  0.3  2048  01:02  S  /bin/x y z\n").unwrap();
    assert_eq!((columns.cpu.as_str(), columns.rss.as_str()), ("1.5", "2048"));
    let stats = process_stats(columns, Some(float(1.5)), Some(float(0.3))).unwrap();
    assert_eq!(stats.rss_kb, 2048);
    assert_eq!(stats.command.as_deref(), Some("/bin/x y z"));
    assert!(process_columns("").is_err());
    assert!(parse_frontmost_app("").is_err());
    assert_eq!(python_major_minor("3.12\n"), Some((3, 12)));
    assert!(python_supported_for_parakeet(Some((3, 12))));
    assert!(!python_supported_for_parakeet(None));
    assert_eq!(python_candidates("p")[0], "p");
    let mut search = PythonSearch::new();
    search.consider("a", None, false);
    search.consider("b", Some((3, 12)), true);
    assert_eq!(search.chosen.as_deref(), Some("b"));
    assert_eq!(normalize_clipboard_text("a\r\nb\r"), "a\nb");
    let mut monitor = ClipboardMonitor::new(Some("x"), 4);
    assert_eq!(monitor.observe("x"), None);
    assert_eq!(monitor.observe(" y "), Some((5, "y".to_string())));
    assert_eq!(monitor.observe("y"), None);
    assert_eq!(monitor.observe(""), None);
}

#[test]
fn setup_runs_its_steps() {
    assert_eq!(setup_python(&None, true), "python3.12");
    assert_eq!(setup_python(&Some("p".to_string()), true), "p");
    let all = setup_steps(false, false, false, false);
    assert!(all.len() >= 4);
    assert!(setup_steps(true, true, true, false).len() < all.len());
    assert!(setup_step_result(SetupStep::CheckPython, &StepEnd::Done, "p").is_ok());
    assert!(setup_step_result(SetupStep::CheckPython, &StepEnd::Failed, "p").is_err());
    let rows = vec![
        Check { name: "a".to_string(), ok: true, detail: "x".to_string() },
        Check { name: "b".to_string(), ok: false, detail: "y".to_string() },
    ];
    assert!(!doctor_ok(&rows));
    assert_eq!(doctor_exit_code(true), 0);
    assert!(check_line(&rows[1]).contains("b"));
    check(&doctor_ran(false, true, 2, 1), r#"{"ok":false,"deep":true,"checks":2,"failed":1}"#);
}
