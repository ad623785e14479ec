//! The order in which sessions start and end, and what is read back from what they write.

use riff::annotations::{clipboard_from_events, shots_from_events};
use riff::chunk::has_new_audio;
use riff::daemon::{
    daemon_preload, daemon_started, daemon_stopped, listening_line, running_line, status_line,
    stopped_line, NOT_RUNNING,
};
use riff::engine::engine_for;
use riff::history::{extract_transcript_from_note, sessions_index_limit};
use riff::html::copied_markdown;
use riff::images::plain_shot;
use riff::json::{Json, Number, Pairs};
use riff::measure::Measure;
use riff::models::{ClipboardMeta, SessionState};
use riff::note::{build_note, NoteInput};
use riff::pipeline::{start_plan, stop_plan, StartStep, StopStep};
use riff::probe::{clipboard_copied_event, remembered_python, FrontmostAppMeta, ProcessStats};
use riff::servers::no_script_report;
use riff::session::{
    build_id, idle_live_report, live_banner, next_shot, plain_stop_args, screenshot_taken_event,
    shot_context,
};
use riff::setup::{
    setup_step_args, setup_step_python, setup_step_text, setup_steps, step_ready, SetupStep,
    VERSION_CHECK,
};
use riff::shots::{dry_move_text, moved_shot, shot_move, shot_moved_event};
use riff::stopping::{hook_metadata, stop_strategy, StopStrategy};
use riff::transcription::{
    configured_hooks, hooks_report, hooks_text, local_step, LocalMove, LocalSight, LocalStage,
};
use riff::watcher::{watcher_obstacle, watcher_pid, WatcherStart};

fn seconds(n: u64) -> Measure {
    Measure::from_unsigned(n)
}

fn state() -> SessionState {
    SessionState {
        session_id: "20260101-000000".to_string(),
        session_dir: "/r/sessions/20260101-000000".to_string(),
        screenshots_dir: "/r/sessions/20260101-000000/screenshots".to_string(),
        audio_path: "/r/sessions/20260101-000000/audio.wav".to_string(),
        events_path: "/r/sessions/20260101-000000/events.jsonl".to_string(),
        ffmpeg_log_path: "/r/sessions/20260101-000000/ffmpeg.log".to_string(),
        ffmpeg_pid: Some(10),
        started_at_iso: "2026-01-01T00:00:00.000Z".to_string(),
        started_at_epoch: seconds(1767225600),
        screenshot_source_dir: "/shots".to_string(),
        audio_device: ":0".to_string(),
        engine: "parakeet".to_string(),
        clipboard_watcher_pid: Some(11),
        transcription_watcher_pid: Some(12),
        transcription_cursor_sec: seconds(0),
        transcription_paused: true,
        transcription_pause_started_sec: None,
    }
}

#[test]
fn a_paused_session_is_woken_before_it_is_stopped() {
    assert_eq!(
        stop_plan(&state(), StopStrategy::Chunked, true, false),
        vec![
            StopStep::StopClipboardWatcher(11),
            StopStep::TellStopping,
            StopStep::WakeRecorder(10),
            StopStep::StopRecorder(10),
            StopStep::AwaitWatcher(12),
            StopStep::FlushRest,
            StopStep::CheckSource,
            StopStep::MoveScreenshots,
            StopStep::Transcribe(StopStrategy::Chunked),
            StopStep::PostProcess,
            StopStep::MeasureAudio,
            StopStep::RunHooks,
            StopStep::Render,
            StopStep::WriteNote,
            StopStep::WritePage,
            StopStep::TellStopped,
            StopStep::KeepLast,
            StopStep::WriteIndex,
            StopStep::ClearState,
            StopStep::ServeWeb,
            StopStep::KeepTimes,
            StopStep::PlaySound,
        ]
    );
    let dead = stop_plan(&state(), StopStrategy::Full, false, false);
    assert!(!dead.contains(&StopStep::WakeRecorder(10)));
    assert!(dead.contains(&StopStep::StopRecorder(10)));
    assert!(!dead.contains(&StopStep::FlushRest));
}

#[test]
fn a_dry_stop_only_looks() {
    assert_eq!(
        stop_plan(&state(), StopStrategy::Full, true, true),
        vec![
            StopStep::CheckSource,
            StopStep::LookForScreenshots,
            StopStep::SkipTranscription,
            StopStep::SkipPostProcess,
            StopStep::MeasureAudio,
            StopStep::Render,
        ]
    );
}

#[test]
fn streams_are_not_waited_for_twice() {
    let mut streamed = state();
    streamed.engine = "elevenlabs".to_string();
    assert_eq!(engine_for(&streamed).id(), "elevenlabs");
    let strategy = stop_strategy(&plain_stop_args(), None, &streamed);
    assert_eq!(strategy, StopStrategy::Stream);
    let plan = stop_plan(&streamed, strategy, true, false);
    assert!(!plan.contains(&StopStep::AwaitWatcher(12)));
    assert!(plan.contains(&StopStep::Transcribe(StopStrategy::Stream)));
    assert_eq!(stop_strategy(&plain_stop_args(), Some("cmd"), &streamed), StopStrategy::Custom);
}

#[test]
fn a_second_session_is_refused() {
    let plan = start_plan(&Some(state()), true, true, false);
    assert_eq!(plan.last(), Some(&StartStep::RefuseSecond));
    assert!(!plan.contains(&StartStep::SpawnRecorder));
    assert!(StartStep::RefuseSecond.ends_command());
    assert!(!StartStep::WarmServer.ends_command());
}

#[test]
fn a_start_clears_what_is_left() {
    let plan = start_plan(&Some(state()), false, true, false);
    assert_eq!(
        plan[..4],
        [
            StartStep::CheckEngine,
            StartStep::StopClipboardWatcher(11),
            StartStep::StopWatcher(12),
            StartStep::RemoveStale,
        ]
    );
    assert!(plan.contains(&StartStep::WarmServer));
    assert!(!start_plan(&None, false, false, false).contains(&StartStep::WarmServer));
    let dry = start_plan(&Some(state()), false, true, true);
    assert!(!dry.contains(&StartStep::RemoveStale));
    assert!(!dry.contains(&StartStep::SpawnRecorder));
    assert!(dry.contains(&StartStep::ShowPlan));
}

#[test]
fn screenshots_are_read_back_from_their_events() {
    let target = next_shot(6, "/d/screenshots");
    let app = Ok(FrontmostAppMeta {
        name: "Editor".to_string(),
        bundle_id: None,
        pid: Some(77),
        window_title: Some("main.rs".to_string()),
    });
    let process = Some(Ok(ProcessStats {
        cpu_percent: Number::Unsigned(3),
        mem_percent: Number::Unsigned(4),
        rss_kb: 512,
        elapsed: Some("00:01".to_string()),
        state: None,
        command: Some("editor".to_string()),
    }));
    let taken = screenshot_taken_event(
        "t",
        &target,
        &Number::Unsigned(5),
        &Number::Unsigned(9),
        &shot_context(&app, &process),
    );
    let m = shot_move("Shot 1.PNG", "/d/screenshots", 7, 0);
    let moved =
        shot_moved_event("t", &m, "/s/Shot 1.PNG", &Number::Unsigned(6), &Number::Unsigned(9));
    let shots = shots_from_events(&vec![moved, taken]);
    assert_eq!(shots.len(), 2);
    assert_eq!((shots[0].shot_id, shots[0].dest_rel_path.as_str()), (7, "screenshots/shot-007.png"));
    assert_eq!(shots[0].audio_sec.measure(), seconds(5));
    assert_eq!(shots[0].app_name.as_deref(), Some("Editor"));
    assert_eq!(shots[0].app_pid, Some(77));
    assert_eq!(shots[0].app_bundle_id, None);
    assert_eq!(shots[0].window_title.as_deref(), Some("main.rs"));
    assert_eq!(shots[0].app_capture_error, None);
    assert_eq!(shots[0].proc_rss_kb, Some(512));
    assert_eq!(shots[0].proc_state, None);
    assert_eq!(shots[0].proc_command.as_deref(), Some("editor"));
    assert_eq!((shots[1].shot_id, shots[1].dest_rel_path.as_str()), (8, "screenshots/shot-008.png"));
    assert_eq!(shots[1].app_name, None);
    let kept = moved_shot(&m, Number::Unsigned(6));
    assert_eq!(kept.dest_rel_path, shots[1].dest_rel_path);
    assert_eq!(
        dry_move_text("/s/Shot 1.PNG", &m),
        "[dry-run] Would copy /s/Shot 1.PNG -> /d/screenshots/shot-008.png and delete source"
    );
}

#[test]
fn what_was_not_in_front_is_read_back_too() {
    let context = shot_context(&Err("osascript_unavailable".to_string()), &None);
    let event = screenshot_taken_event(
        "t",
        &next_shot(0, "/d"),
        &Number::Unsigned(0),
        &Number::Unsigned(0),
        &context,
    );
    let shots = shots_from_events(&vec![event]);
    assert_eq!(shots[0].app_capture_error.as_deref(), Some("osascript_unavailable"));
    assert_eq!(shots[0].proc_capture_error.as_deref(), Some("app_pid_unavailable"));
}

#[test]
fn copied_texts_are_read_back_from_their_events() {
    let event = clipboard_copied_event("t", 3, "text", &Number::Unsigned(8));
    let clips = clipboard_from_events(&vec![event]);
    assert_eq!(clips.len(), 1);
    assert_eq!((clips[0].clip_id, clips[0].text.as_str()), (3, "text"));
    assert_eq!(clips[0].audio_sec.measure(), seconds(8));
}

#[test]
fn notes_give_back_what_was_said() {
    let s = state();
    let note = build_note(&NoteInput {
        state: &s,
        ended_iso: "2026-01-01T00:01:00.000Z",
        shots: &vec![],
        clips: &vec![],
        transcript: " said\nand done ",
        transcription: &Json::Null,
        audio_duration: None,
    });
    assert_eq!(extract_transcript_from_note(&note).as_deref(), Some("said\nand done"));
    assert_eq!(copied_markdown(&Some(note.clone()), "x"), note);
    assert_eq!(copied_markdown(&Some(" \n".to_string()), "x"), "x");
    assert_eq!(copied_markdown(&None, "x"), "x");
}

#[test]
fn hooks_are_told_of_the_session() {
    let shots = vec![plain_shot(1, "screenshots/shot-001.png", Number::Unsigned(2))];
    let clips = vec![ClipboardMeta {
        clip_id: 4,
        text: "copied".to_string(),
        audio_sec: Number::Unsigned(3),
    }];
    let told = hook_metadata(&state(), "e", &None, &Json::text("t"), &shots, &clips);
    assert_eq!(told.get_text("session_id").unwrap(), "20260101-000000");
    assert_eq!(told.get_text("ended_at").unwrap(), "e");
    assert_eq!(told.get_text("transcription").unwrap(), "t");
    assert_eq!(told.get("audio_duration_sec").map(|j| matches!(j, Json::Null)), Some(true));
    match (told.get("screenshots"), told.get("clipboard")) {
        (Some(Json::List(s)), Some(Json::List(c))) => {
            assert_eq!(s.len(), 1);
            assert_eq!(s[0].get_text("path").unwrap(), "screenshots/shot-001.png");
            assert_eq!(c.len(), 1);
            assert_eq!(c[0].get_u64("id"), Some(4));
        }
        _ => panic!("lists are missing"),
    }
}

#[test]
fn hooks_are_listed() {
    let hooks = configured_hooks(Some("a\n\n b \n"));
    let post = Some("p".to_string());
    assert_eq!(
        hooks_text(&hooks, &None, &post),
        "hook 1: a\nhook 2: b\ntranscribe_cmd: none\npost_transcribe_cmd: p"
    );
    assert_eq!(
        hooks_text(&vec![], &None, &None),
        "hooks: none\ntranscribe_cmd: none\npost_transcribe_cmd: none"
    );
    let report = hooks_report(&hooks, &None, &post);
    assert_eq!(report.get_text("post_transcribe_cmd").unwrap(), "p");
    assert_eq!(report.get_bool("ok"), Some(true));
}

#[test]
fn builds_have_names() {
    assert_eq!(build_id(Some(" nightly "), "0.1.0", Some("abc"), true), "nightly");
    assert_eq!(build_id(Some(" "), "0.1.0", Some("abc"), true), "0.1.0+abc-dirty");
    assert_eq!(build_id(None, "0.1.0", None, false), "0.1.0+nogit");
}

#[test]
fn the_index_is_limited() {
    assert_eq!(sessions_index_limit(None), 500);
    assert_eq!(sessions_index_limit(Some("0")), 1);
    assert_eq!(sessions_index_limit(Some("9000")), 5000);
    assert_eq!(sessions_index_limit(Some("many")), 500);
}

#[test]
fn the_daemon_says_how_it_is() {
    assert_eq!(running_line("ready", 7), "riffd ready (pid=7).");
    assert_eq!(running_line("already running", -1), "riffd already running (pid=-1).");
    assert_eq!(stopped_line(7, "terminated"), "riffd stop: pid=7 outcome=terminated");
    assert_eq!(NOT_RUNNING, "riffd is not running.");
    assert_eq!(listening_line("/s"), "riffd listening at /s — Ctrl-C to stop");
    let mut health = Pairs::new();
    health.count("pid", 7);
    health.count("subscribers", 2);
    assert_eq!(
        status_line(&health.object(), "12", "/s"),
        "riffd running: pid=7 uptime=12s subscribers=2 socket=/s"
    );
    assert_eq!(daemon_started("/s", "/r").get_text("socket").unwrap(), "/s");
    assert_eq!(daemon_stopped("/r").get_text("root").unwrap(), "/r");
    let mut report = Pairs::new();
    report.text("outcome", "spawned");
    assert_eq!(daemon_preload(&report.object()).get_text("status").unwrap(), "spawned");
    assert_eq!(no_script_report().get_text("reason").unwrap(), "no_parakeet_script");
}

#[test]
fn steps_and_banners_are_worded() {
    assert_eq!(SetupStep::CheckPython.name(), "check_python");
    assert_eq!(SetupStep::FetchModel.name(), "download_model");
    assert!(live_banner("s").ends_with("\nSession: s"));
    assert_eq!(idle_live_report().get_bool("active"), Some(false));
}

#[test]
fn setting_up_goes_step_by_step() {
    assert_eq!(
        setup_steps(false, false, false, false),
        vec![
            SetupStep::CheckPython,
            SetupStep::CreateRuntime,
            SetupStep::UpgradeInstaller,
            SetupStep::InstallPackages,
            SetupStep::FetchModel,
        ]
    );
    assert_eq!(setup_steps(true, true, true, false), vec![SetupStep::CheckPython]);
    assert_eq!(setup_steps(false, false, false, true), vec![SetupStep::CheckPython]);
    let args = |step| setup_step_args(step, "/rt", "/req.txt", "/p.py").join(" ");
    assert_eq!(args(SetupStep::CheckPython), format!("-c {VERSION_CHECK}"));
    assert_eq!(args(SetupStep::CreateRuntime), "-m venv /rt");
    assert_eq!(args(SetupStep::UpgradeInstaller), "-m pip install --upgrade pip");
    assert_eq!(args(SetupStep::InstallPackages), "-m pip install -r /req.txt");
    assert!(args(SetupStep::FetchModel).starts_with("/p.py --download-model --model nvidia/"));
    assert_eq!(setup_step_python(SetupStep::CreateRuntime, "a", "b"), "a");
    assert_eq!(setup_step_python(SetupStep::InstallPackages, "a", "b"), "b");
    assert!(step_ready(SetupStep::CreateRuntime, false, false).is_ok());
    assert_eq!(
        step_ready(SetupStep::UpgradeInstaller, false, true).unwrap_err().message,
        "Could not find scripts/parakeet-requirements.txt in riff resources."
    );
    assert_eq!(
        step_ready(SetupStep::FetchModel, true, false).unwrap_err().message,
        "Could not find Parakeet helper script."
    );
    assert_eq!(
        setup_step_text(SetupStep::CreateRuntime, "/rt", "/req.txt").unwrap(),
        "Creating private Python runtime: /rt"
    );
    assert_eq!(
        setup_step_text(SetupStep::UpgradeInstaller, "/rt", "/req.txt").unwrap(),
        "Installing pinned transcription packages from /req.txt"
    );
    assert!(setup_step_text(SetupStep::FetchModel, "/rt", "/req.txt")
        .unwrap()
        .ends_with(" (revision main) with visible upstream progress"));
    assert_eq!(setup_step_text(SetupStep::CheckPython, "/rt", "/req.txt"), None);
}

#[test]
fn the_script_comes_after_the_server() {
    let mut stage = LocalStage::Begin;
    assert_eq!(local_step(&mut stage, true, LocalSight::Nothing), LocalMove::FindServer);
    assert_eq!(local_step(&mut stage, true, LocalSight::Server(true)), LocalMove::AskServer);
    assert_eq!(local_step(&mut stage, true, LocalSight::Reply(false)), LocalMove::RunScript);
    assert_eq!(local_step(&mut stage, true, LocalSight::ScriptEnded), LocalMove::KeepScript);
    assert_eq!(stage, LocalStage::Done);
    stage = LocalStage::Begin;
    assert_eq!(local_step(&mut stage, false, LocalSight::Nothing), LocalMove::RunScript);
    stage = LocalStage::Looking;
    assert_eq!(local_step(&mut stage, true, LocalSight::Server(false)), LocalMove::RunScript);
    stage = LocalStage::Asking;
    assert_eq!(local_step(&mut stage, true, LocalSight::Reply(true)), LocalMove::KeepReply);
}

#[test]
fn a_watcher_needs_an_interpreter_and_a_script() {
    assert!(matches!(
        watcher_obstacle(Some("disabled"), true, true),
        Some(WatcherStart::Unwanted(s)) if s == "disabled"
    ));
    assert!(matches!(watcher_obstacle(None, false, true), Some(WatcherStart::NoPython)));
    assert!(matches!(watcher_obstacle(None, true, false), Some(WatcherStart::NoScript)));
    assert!(watcher_obstacle(None, true, true).is_none());
    assert_eq!(watcher_pid(&WatcherStart::NoScript), None);
}

#[test]
fn a_remembered_interpreter_is_looked_at_again() {
    let fits = Some((3, 12));
    assert_eq!(remembered_python(Some(" /p\n"), true, fits).unwrap(), "/p");
    assert_eq!(remembered_python(Some("/p"), false, fits), None);
    assert_eq!(remembered_python(Some("/p"), true, None), None);
    assert_eq!(remembered_python(Some("/p"), true, Some((2, 7))), None);
    assert_eq!(remembered_python(Some(" \n"), true, fits), None);
    assert_eq!(remembered_python(None, true, fits), None);
}

#[test]
fn chunks_need_new_audio() {
    let at = |v: f64| Measure { bits: v.to_bits() };
    assert!(has_new_audio(&at(1.06), &at(1.05)));
    assert!(!has_new_audio(&at(1.05), &at(1.05)));
    assert!(!has_new_audio(&at(0.0), &at(0.05)));
}
