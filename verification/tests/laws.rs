//! What holds of several calls together, on concrete values.

use riff::annotations::{annotation_markers, clipboard_from_events, inject_annotation_markers};
use riff::bus::BusTailer;
use riff::cli::{Commands, ToggleArgs};
use riff::config::{expand_env_refs, Env};
use riff::events::{session_of_log, truncate_value};
use riff::history::{load_recent_session_transcript, summarize_transcript};
use riff::html::html_escape;
use riff::images::{load_shots_for_session, plain_shot};
use riff::json::{Json, Number};
use riff::measure::Measure;
use riff::models::{ClipboardMeta, SessionState, ShotMeta};
use riff::parakeet::{web_step, WebServerWait, WebStep, WebWait};
use riff::paths;
use riff::pipeline::{abandoned_plan, fork_plan, start_plan, ForkStep, StartStep, StopStep};
use riff::servers::{
    kill_line, kill_run, kill_server_from_pid_file, kill_step, replace_step, stop_pid, stop_sight,
    KillEnd, KillMove, KillRun, ReplaceMove, StopMove, StopPhase, StopSight,
};
use riff::session::{begin, dry_start_text, session_layout, Beginning};
use riff::shots::{backup_name, copy_error_text, module_source, use_plan, UseStep};
use riff::stopping::{post_not_run, with_post_process};
use riff::template::TemplatePaths;
use riff::transcription::{idle_meta, transcription_plan};
use riff::wire::read_json;
use std::collections::BTreeMap;

fn at(v: f64) -> Measure {
    Measure { bits: v.to_bits() }
}

fn state() -> SessionState {
    SessionState {
        session_id: "s".to_string(),
        session_dir: "/r/sessions/s".to_string(),
        screenshots_dir: "/r/sessions/s/screenshots".to_string(),
        audio_path: "/r/sessions/s/audio.wav".to_string(),
        events_path: "/r/sessions/s/events.jsonl".to_string(),
        ffmpeg_log_path: "/r/sessions/s/ffmpeg.log".to_string(),
        ffmpeg_pid: Some(10),
        started_at_iso: "2026-01-01T00:00:00.000Z".to_string(),
        started_at_epoch: at(0.0),
        screenshot_source_dir: "/shots".to_string(),
        audio_device: ":0".to_string(),
        engine: "parakeet".to_string(),
        clipboard_watcher_pid: Some(11),
        transcription_watcher_pid: None,
        transcription_cursor_sec: at(0.0),
        transcription_paused: true,
        transcription_pause_started_sec: None,
    }
}

type Files = BTreeMap<String, Vec<u8>>;

fn put_in(files: &mut Files, module: &str) -> bool {
    let there = files.contains_key("/s/screenshots/shot-001__original.png");
    let plan = use_plan(
        "/s",
        "/s/screenshots/shot-001.png",
        "/s/screenshots/shot-001__original.png",
        1,
        module,
        there,
    );
    for step in plan {
        match step {
            UseStep::Copy(from, to) => {
                let bytes = files[&from].clone();
                files.insert(to, bytes);
            }
            UseStep::MakeUnless(_) => {}
            UseStep::Require(path) => {
                if !files.contains_key(&path) {
                    return false;
                }
            }
        }
    }
    true
}

#[test]
fn the_first_screenshot_comes_back() {
    assert_eq!(backup_name("shot-001.png"), "shot-001__original.png");
    let target = "/s/screenshots/shot-001.png".to_string();
    let framed = module_source("/s", "", 1, "framed");
    assert_eq!(framed, "/s/screenshots/derived/shot-001__framed.png");
    let mut files = Files::new();
    files.insert(target.clone(), vec![1]);
    files.insert(framed.clone(), vec![2]);
    assert!(put_in(&mut files, "framed"));
    assert_eq!((&files[&target], &files[&framed]), (&vec![2], &vec![2]));
    assert_eq!(files["/s/screenshots/shot-001__original.png"], vec![1]);
    assert!(!put_in(&mut files, "polaroid"));
    assert!(put_in(&mut files, "framed"));
    assert!(put_in(&mut files, "original"));
    assert_eq!(files[&target], vec![1]);
    assert_eq!(copy_error_text("a", "b", "b"), "Failed to create original backup b");
    assert_eq!(copy_error_text("a", "b", "c"), "Failed to copy source image a -> b");
}

#[test]
fn marks_are_put_in_only_once() {
    let shots: Vec<ShotMeta> =
        vec![plain_shot(1, "screenshots/shot-001.png", Number::Unsigned(2))];
    let clips =
        vec![ClipboardMeta { clip_id: 4, text: "x".to_string(), audio_sec: Number::Unsigned(1) }];
    for (text, duration) in [
        ("one two  three", Some(at(3.0))),
        ("one two", None),
        ("one two", Some(at(0.0))),
        (" ", Some(at(3.0))),
    ] {
        let once = inject_annotation_markers(text, &annotation_markers(&shots, &clips), &duration);
        assert!(once.contains("[Screenshot 1]") && once.contains("[Clipboard 4]"));
        let mut later = annotation_markers(&shots, &clips);
        later[0].slot = 2;
        assert_eq!(inject_annotation_markers(&once, &later, &duration), once);
    }
}

#[test]
fn path_lines_leave_the_summary() {
    for text in ["", " \n", "one two", "one\r", "Screenshot words count here", "a\nb\n"] {
        let longer = format!("{text}\nScreenshot 3: /tmp/a b.png");
        assert_eq!(summarize_transcript(&longer), summarize_transcript(text), "{text:?}");
    }
    assert_eq!(summarize_transcript("one two\nScreenshot 3: /x"), "one two [2 words]");
}

#[test]
fn a_followed_file_gives_every_line_once() {
    let whole = "é one\n\ntwo\r\nthr\u{e9}e\nrest".as_bytes();
    for cut in 0..=whole.len() {
        let mut tailer = BusTailer::from_end(5);
        let mut lines = Vec::new();
        for end in [cut, whole.len()] {
            if tailer.begin(5 + end as u64) {
                let from = tailer.offset as usize - 5;
                lines.extend(tailer.accept(&whole[from..end].to_vec()));
            }
        }
        assert_eq!(lines, vec!["é one", "two", "thrée"]);
        assert_eq!(tailer.offset, 5 + whole.len() as u64 - 4);
    }
    let mut tailer = BusTailer::from_end(50);
    assert!(tailer.begin(8));
    assert_eq!(tailer.accept(&b"new\nhead".to_vec()), vec!["new"]);
}

#[test]
fn servers_are_asked_before_they_are_killed() {
    let run = |sights: &[(bool, bool, bool)], dry_run: bool| {
        let mut phase = StopPhase::Asked;
        let mut moves = Vec::new();
        for (reached, alive, over) in sights {
            moves.push(kill_step(&mut phase, stop_sight(*reached, *alive, *over), dry_run));
        }
        moves
    };
    let (live, late, gone) = ((true, true, false), (true, true, true), (true, false, false));
    let (vanished, unreached) = ((true, false, true), (false, true, false));
    assert_eq!(run(&[gone], false), [KillMove::Finish(KillEnd::Stale)]);
    assert_eq!(run(&[live], true), [KillMove::Finish(KillEnd::DryRun)]);
    assert_eq!(
        run(&[live, live, late, vanished], false),
        [
            KillMove::Terminate,
            KillMove::Wait,
            KillMove::Kill,
            KillMove::Finish(KillEnd::Killed),
        ]
    );
    assert_eq!(run(&[live, gone], false)[1], KillMove::Finish(KillEnd::Terminated));
    assert_eq!(run(&[live, vanished], false)[1], KillMove::Finish(KillEnd::Late));
    assert_eq!(run(&[live, unreached], false)[1], KillMove::Finish(KillEnd::TermFailed));
    assert_eq!(run(&[live, late, unreached], false)[2], KillMove::Finish(KillEnd::KillFailed));
    let late = kill_run(Some(7), KillEnd::Late, "");
    assert_eq!(kill_line(&late, "web"), "kill-server web: status=running pid=7 signal=SIGTERM");
    let report = kill_server_from_pid_file(&late, "web", "/p");
    assert_eq!(report.get_bool("killed"), Some(false));
    let failed = kill_run(Some(7), KillEnd::KillFailed, "no");
    let report = kill_server_from_pid_file(&failed, "web", "/p");
    assert_eq!(report.get_text("error").unwrap(), "SIGKILL failed: no");
    assert!(matches!(kill_run(None, KillEnd::Stale, ""), KillRun::NotRecorded));

    let mut phase = StopPhase::Asked;
    assert_eq!(replace_step(&mut phase, StopSight::Alive), ReplaceMove::Ask);
    assert_eq!(replace_step(&mut phase, StopSight::Alive), ReplaceMove::Wait);
    assert_eq!(replace_step(&mut phase, StopSight::Gone), ReplaceMove::Clear);
    let mut phase = StopPhase::Terminating;
    assert_eq!(replace_step(&mut phase, StopSight::Overdue), ReplaceMove::GiveUp);
    let mut phase = StopPhase::Terminating;
    assert_eq!(stop_pid(&mut phase, StopSight::Late), StopMove::Kill);
}

#[test]
fn web_servers_are_waited_for() {
    assert_eq!(web_step(false, true, true), WebStep::Off);
    assert_eq!(web_step(true, true, false), WebStep::Ready);
    assert_eq!(web_step(true, false, false), WebStep::NoScript);
    assert_eq!(web_step(true, false, true), WebStep::Spawn);
    let wait = WebServerWait { spawned: true, wanted: true };
    assert_eq!(wait.poll(false, false), WebWait::Again);
    assert_eq!(wait.poll(false, true), WebWait::Ready);
    assert_eq!(wait.poll(true, true), WebWait::GiveUp);
    let unwanted = WebServerWait { spawned: true, wanted: false };
    assert_eq!(unwanted.poll(false, true), WebWait::GiveUp);
}

#[test]
fn idle_commands_say_so() {
    assert!(matches!(begin("stop", true), Beginning::GoOn));
    match begin("stop", false) {
        Beginning::Idle(text, report, code) => {
            assert_eq!((text.as_str(), code), ("No active session.", 0));
            assert_eq!(report.get_text("action").unwrap(), "stop");
            assert_eq!(report.get_bool("active"), Some(false));
        }
        Beginning::GoOn => panic!("there is no session"),
    }
}

#[test]
fn integers_are_read_as_quantities() {
    let read = |n: Number| match n.quantity() {
        Number::Float(m, text) => (f64::from_bits(m.bits), text),
        other => panic!("{other:?} is no quantity"),
    };
    assert_eq!(read(Number::Unsigned(5)), (5.0, "5.0".to_string()));
    assert_eq!(read(Number::Unsigned(0)), (0.0, "0.0".to_string()));
    assert_eq!(read(Number::Negative(-3)), (-3.0, "-3.0".to_string()));
    assert_eq!(read(Number::Negative(i64::MIN)).0, i64::MIN as f64);
    let largest = read(Number::Unsigned(u64::MAX));
    assert_eq!(largest, (u64::MAX as f64, "1.8446744073709552e+19".to_string()));
    let kept = Number::Float(at(2.5), "2.5".to_string());
    assert_eq!(read(kept), (2.5, "2.5".to_string()));
    let event = read_json(r#"{"type":"clipboard_copied","id":1,"text":"x","audioSec":4}"#).unwrap();
    let untimed = read_json(r#"{"type":"clipboard_copied","id":2,"text":"x"}"#).unwrap();
    let clips = clipboard_from_events(&vec![event, untimed]);
    assert!(matches!(&clips[0].audio_sec, Number::Float(m, t) if *m == at(4.0) && t == "4.0"));
    assert!(matches!(&clips[1].audio_sec, Number::Float(m, t) if *m == at(0.0) && t == "0.0"));
    let files = load_shots_for_session(&vec![], &vec!["shot-001.png".to_string()]);
    assert!(matches!(&files[0].audio_sec, Number::Float(m, _) if *m == at(0.0)));
}

#[test]
fn clipping_and_escaping_go_piece_by_piece() {
    let mut value = Json::text(&"x".repeat(300));
    let mut clipped = false;
    truncate_value(&mut value, &mut clipped);
    let once = format!("{value:?}");
    let mut again = false;
    truncate_value(&mut value, &mut again);
    assert_eq!(format!("{value:?}"), once);
    assert!(clipped && again);
    assert_eq!(html_escape("<a&"), "&lt;a&amp;");
    assert_eq!(html_escape("\"b'>"), "&quot;b&#39;&gt;");
    assert_eq!(html_escape("<a&\"b'>"), "&lt;a&amp;&quot;b&#39;&gt;");
}

#[test]
fn kept_files_have_paths_of_their_own() {
    let root = "/r";
    let all = [
        paths::sessions_dir(root),
        paths::active_state_file(root),
        paths::last_session_file(root),
        paths::perf_log_file(root),
        paths::audio_device_cache_file(root),
        paths::watcher_python_cache_file(root),
        paths::parakeet_server_log_file(root),
        paths::parakeet_server_pid_file(root),
        paths::parakeet_server_socket_file(root),
        paths::web_server_log_file(root),
        paths::web_server_pid_file(root),
        paths::event_bus_file(root),
        paths::event_bus_rotated_file(root),
        paths::riffd_socket_file(root),
        paths::riffd_pid_file(root),
        paths::riffd_log_file(root),
    ];
    for (i, path) in all.iter().enumerate() {
        assert!(!all[..i].contains(path), "{path}");
    }
}

#[test]
fn a_split_goes_on_in_the_new_session() {
    assert_eq!(
        fork_plan(&state(), true, false),
        vec![
            ForkStep::WakeRecorder(10),
            ForkStep::StopRecorder(10),
            ForkStep::StopClipboardWatcher(11),
            ForkStep::ClearState,
            ForkStep::StartNew,
            ForkStep::BringBackOld,
            ForkStep::EndOld,
            ForkStep::BringBackNew,
        ]
    );
    assert!(!fork_plan(&state(), false, false).contains(&ForkStep::WakeRecorder(10)));
    assert_eq!(fork_plan(&state(), true, true), vec![ForkStep::ShowPlan]);
    assert!(ForkStep::StartNew.ends_command() && !ForkStep::EndOld.ends_command());
    assert_eq!(
        abandoned_plan(&state()),
        vec![StopStep::StopRecorder(10), StopStep::ClearState]
    );
}

#[test]
fn a_state_that_is_not_saved_ends_the_start() {
    let plan = start_plan(&None, false, false, false);
    let spawned = plan.iter().position(|s| *s == StartStep::SpawnClipboardWatcher).unwrap();
    assert_eq!(plan[spawned + 1], StartStep::SaveClipboardWatcher);
    assert!(StartStep::SaveClipboardWatcher.ends_command());
    assert!(!StartStep::SpawnClipboardWatcher.ends_command());
}

#[test]
fn dry_runs_say_what_they_would_do() {
    let layout = session_layout("/r/sessions", "s");
    assert_eq!(
        dry_start_text("s", &layout, "/shots", ":0"),
        "[dry-run] Would create session directory and start ffmpeg audio capture.\n\
         [dry-run] Planned session s\nsession_dir: /r/sessions/s\n\
         audio_path: /r/sessions/s/audio.wav\nscreenshot_source_dir: /shots\naudio_device: :0"
    );
    let paths = TemplatePaths {
        audio: "a".to_string(),
        out_base: "b".to_string(),
        out_txt: "c".to_string(),
        session_dir: "d".to_string(),
    };
    let plan = transcription_plan(true, true, &None, &paths, &None);
    let meta = with_post_process(idle_meta(&plan, "a").unwrap(), post_not_run());
    let post = meta.get("post_process").unwrap();
    assert_eq!(post.get_text("status").unwrap(), "skipped");
    assert_eq!(post.get_text("reason").unwrap(), "transcription_not_ok");
    assert_ne!(meta.get_text("status").unwrap(), "ok");
}

#[test]
fn other_text_stays_as_it_is() {
    let env = Env { vars: vec![("A".to_string(), "ä".to_string())] };
    assert_eq!(expand_env_refs("size ${A}/$A - ${-} $", &env), "size ä/ä - ${-} $");
    assert_eq!(expand_env_refs("é$A", &env), "\u{c3}\u{a9}ä");
}

#[test]
fn logs_go_by_their_directory() {
    assert_eq!(session_of_log("/r/sessions/s1/events.jsonl").as_deref(), Some("s1"));
    assert_eq!(session_of_log("s1//./events.jsonl").as_deref(), Some("s1"));
    assert_eq!(session_of_log("/events.jsonl"), None);
    assert_eq!(session_of_log("./events.jsonl"), None);
    assert_eq!(session_of_log("a/../events.jsonl"), None);
}

#[test]
fn files_that_cannot_be_read_are_told() {
    let failed = || Some(Err("denied".to_string()));
    let note = || Some(Ok("## Transcript\n\nsaid\n".to_string()));
    let e = load_recent_session_transcript(&failed(), &None, "/d").unwrap_err();
    assert_eq!((e.code, e.message.as_str()), (1, "Failed to read /d/note.md: denied"));
    let e = load_recent_session_transcript(&None, &failed(), "/d").unwrap_err();
    assert_eq!((e.code, e.message.as_str()), (1, "Failed to read /d/transcript.txt: denied"));
    assert_eq!(load_recent_session_transcript(&note(), &failed(), "/d").unwrap(), "said");
    let e = load_recent_session_transcript(&None, &None, "/d").unwrap_err();
    assert_eq!((e.code, e.message.as_str()), (8, "No transcript found for session: /d"));
}

#[test]
fn toggles_keep_templates_out_of_the_log() {
    let toggle = |command: &str| {
        let args = ToggleArgs {
            screenshot_dir: None,
            audio_device: "auto".to_string(),
            engine: None,
            no_hooks: false,
            no_stop_hooks: false,
            with_post_hook: vec![command.to_string()],
            transcribe_cmd: Some(command.to_string()),
            post_transcribe_cmd: None,
            python_bin: None,
            parakeet_script: None,
            parakeet_model: None,
        };
        Commands::Toggle(args).event_args()
    };
    let told = |j: &Json| format!("{j:?}");
    assert_eq!(told(&toggle("secret")), told(&toggle("other")));
    assert!(!told(&toggle("secret")).contains("secret"));
}
