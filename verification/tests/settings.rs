//! Settings, templates and the places files lie in.

use riff::config::{
    bool_env_enabled, clipboard_monitor_enabled, env_u64, expand_env_refs, is_valid_env_key,
    json_config_value_to_env_string, load_riff_json_defaults, load_riffrc_defaults,
    maybe_set_default_env, parse_riffrc_assignment, transcription_worker_enabled,
    upsert_riffrc_export, Env,
};
use riff::json::{Json, Number};
use riff::locate::{
    default_parakeet_script, executable_ancestor_roots, first_existing_relative,
    relative_candidates, resolve_parakeet_model, resolve_parakeet_script, resolve_python_bin,
    resource_candidates, resource_dir, DEFAULT_PARAKEET_MODEL,
};
use riff::paths::{active_state_file, event_bus_file, join_path, root_dir, sessions_dir};
use riff::session::{beep_report, beep_text, dry_beep_report, no_rc_error, settings_path};
use riff::template::{
    fill_template, fill_template_with_transcript, join_escaped, shell_escape, TemplatePaths,
};
use riff::wire::read_json;
use serde_json::Value;

fn to_value(j: &Json) -> Value {
    match j {
        Json::Null => Value::Null,
        Json::Bool(b) => Value::Bool(*b),
        Json::Number(Number::Unsigned(u)) => Value::from(*u),
        Json::Number(Number::Negative(i)) => Value::from(*i),
        Json::Number(Number::Float(m, _)) => Value::from(f64::from_bits(m.bits)),
        Json::Text(s) => Value::String(s.clone()),
        Json::List(items) => Value::Array(items.iter().map(to_value).collect()),
        Json::Object(fields) => {
            Value::Object(fields.iter().map(|(k, v)| (k.clone(), to_value(v))).collect())
        }
    }
}

fn parse(text: &str) -> Json {
    read_json(text).unwrap()
}

fn check(j: &Json, text: &str) {
    assert_eq!(to_value(j), serde_json::from_str::<Value>(text).unwrap());
}

fn env(vars: &[(&str, &str)]) -> Env {
    Env { vars: vars.iter().map(|(k, v)| (k.to_string(), v.to_string())).collect() }
}

fn strings(v: &[&str]) -> Vec<String> {
    v.iter().map(|s| s.to_string()).collect()
}

#[test]
fn parse_riffrc_accepts_export_and_quotes() {
    let parsed = parse_riffrc_assignment(
        r#"export RIFF_PARAKEET_SCRIPT="/Users/test/Code/riff/scripts/parakeet_transcribe.py""#,
        &env(&[]),
    )
    .expect("parse export");
    assert_eq!(parsed.0, "RIFF_PARAKEET_SCRIPT");
    assert_eq!(parsed.1, "/Users/test/Code/riff/scripts/parakeet_transcribe.py");
}

#[test]
fn parse_riffrc_rejects_invalid_key() {
    assert!(parse_riffrc_assignment("1BAD_KEY=value", &env(&[])).is_none());
    assert!(parse_riffrc_assignment("export =value", &env(&[])).is_none());
    assert!(parse_riffrc_assignment("# A=1", &env(&[])).is_none());
    assert!(parse_riffrc_assignment("", &env(&[])).is_none());
}

#[test]
fn expand_env_refs_handles_home_style_tokens() {
    let home = "/Users/test";
    let expanded = expand_env_refs("${HOME}/Code/riff:$HOME/bin", &env(&[("HOME", home)]));
    assert_eq!(expanded, format!("{home}/Code/riff:{home}/bin"));
    assert_eq!(expand_env_refs("$NOPE-${NOPE}", &env(&[])), "-");
}

#[test]
fn fill_template_with_transcript_shell_escapes_transcript() {
    let paths = TemplatePaths {
        audio: "/tmp/audio.wav".to_string(),
        out_base: "/tmp/out".to_string(),
        out_txt: "/tmp/out.txt".to_string(),
        session_dir: "/tmp/session".to_string(),
    };
    let rendered = fill_template_with_transcript(
        "agent --text {transcript}",
        &paths,
        Some("hello \"quoted\" world"),
    );
    assert_eq!(rendered, "agent --text \"hello \\\"quoted\\\" world\"");
    let filled = fill_template("x {audio} {out_base} {out_txt} {session_dir}", &paths);
    assert!(filled.contains("/tmp/audio.wav"));
    assert!(filled.contains("/tmp/out.txt"));
    assert!(filled.contains("/tmp/session"));
}

#[test]
fn json_config_sets_post_transcribe_default() {
    let config = r#"{ "riff": { "post_transcribe_cmd": "agent --text {transcript}" } }"#;
    let mut vars = env(&[]);
    load_riff_json_defaults(&mut vars, &vec![], config);
    assert_eq!(
        vars.get("RIFF_POST_TRANSCRIBE_CMD").map(|s| s.as_str()),
        Some("agent --text {transcript}")
    );
}

#[test]
fn settings_of_the_caller_win() {
    let original = strings(&["RIFF_BEEP"]);
    let mut vars = env(&[("RIFF_BEEP", "1"), ("HOME", "/h")]);
    load_riffrc_defaults(&mut vars, &original, "export RIFF_BEEP=0\nRIFF_X='$HOME/x' # y\n");
    assert_eq!(vars.get("RIFF_BEEP").map(|s| s.as_str()), Some("1"));
    assert!(vars.get("RIFF_X").is_some());
    maybe_set_default_env(&mut vars, &original, "RIFF_BEEP", "0", true);
    assert_eq!(vars.get("RIFF_BEEP").map(|s| s.as_str()), Some("1"));
    assert!(is_valid_env_key("_A1"));
    assert!(!is_valid_env_key("A-B"));
}

#[test]
fn config_values_become_texts() {
    let none = env(&[]);
    assert_eq!(json_config_value_to_env_string(&Json::Bool(true), &none).as_deref(), Some("1"));
    assert_eq!(json_config_value_to_env_string(&Json::Bool(false), &none).as_deref(), Some("0"));
    assert_eq!(json_config_value_to_env_string(&Json::unsigned(7), &none).as_deref(), Some("7"));
    assert_eq!(json_config_value_to_env_string(&Json::Null, &none), None);
}

#[test]
fn switches_and_numbers_are_read() {
    assert!(bool_env_enabled(None, true));
    assert!(!bool_env_enabled(Some("OFF"), true));
    assert!(bool_env_enabled(Some("yes"), false));
    assert!(clipboard_monitor_enabled(None));
    assert!(!transcription_worker_enabled(Some("0")));
    assert_eq!(env_u64(Some("7"), 5, 1, 10), 7);
    assert_eq!(env_u64(Some("70"), 5, 1, 10), 10);
    assert_eq!(env_u64(Some("x"), 5, 1, 10), 5);
}

#[test]
fn exports_are_written_once_and_read_back() {
    let text = upsert_riffrc_export("# mine\nexport RIFF_BEEP=1\n", "RIFF_BEEP", "0");
    assert!(text.contains("# mine"));
    assert_eq!(text.matches("RIFF_BEEP").count(), 1);
    let mut vars = env(&[]);
    load_riffrc_defaults(&mut vars, &vec![], &text);
    assert_eq!(vars.get("RIFF_BEEP").map(|s| s.as_str()), Some("0"));
    let fresh = upsert_riffrc_export("", "RIFF_BEEP", "1");
    assert!(fresh.contains("export RIFF_BEEP=\"1\"") || fresh.contains("export RIFF_BEEP=1"));
}

#[test]
fn beeps_are_switched_in_the_settings_file() {
    assert_eq!(settings_path(None, Some("/h"), ".riffrc").as_deref(), Some("/h/.riffrc"));
    assert_eq!(settings_path(Some("/x"), Some("/h"), ".riffrc").as_deref(), Some("/x"));
    assert_eq!(settings_path(None, None, ".riffrc"), None);
    assert_eq!(no_rc_error().code, 1);
    assert_eq!(beep_text(true, "/rc", false), "Global beeps enabled.\nrc_file: /rc");
    assert_eq!(beep_text(false, "/rc", true), "[dry-run] Would write export RIFF_BEEP=0 to /rc");
    check(
        &beep_report(false, "/rc"),
        r#"{"ok":true,"action":"silence","beeps_enabled":false,"riffrc":"/rc","dry_run":false}"#,
    );
    check(
        &dry_beep_report(true, "/rc"),
        r#"{"ok":true,"beeps_enabled":true,"riffrc":"/rc","dry_run":true}"#,
    );
}

#[test]
fn texts_are_quoted_for_the_shell() {
    assert_eq!(shell_escape("plain"), "\"plain\"");
    assert_eq!(shell_escape("a\"b"), "\"a\\\"b\"");
    assert_eq!(join_escaped(&strings(&["a", "b c"])), "\"a\" \"b c\"");
}

#[test]
fn files_lie_under_the_root() {
    assert_eq!(root_dir(None), "/tmp/riff");
    assert_eq!(root_dir(Some("/r")), "/r");
    assert_eq!(join_path("/r", "x"), "/r/x");
    assert_eq!(sessions_dir("/r"), "/r/sessions");
    assert!(active_state_file("/r").starts_with("/r/"));
    assert!(event_bus_file("/r").ends_with("events.jsonl"));
}

#[test]
fn resources_are_found_beside_the_program() {
    let roots = executable_ancestor_roots(&strings(&["/a/b", "/a", "/"]));
    assert!(roots.contains(&"/a/b".to_string()));
    let places = resource_candidates(&roots);
    let there: Vec<bool> = places.iter().map(|_| false).collect();
    assert_eq!(resource_dir(None, &places, &there), None);
    assert_eq!(resource_dir(Some(("/set", true)), &places, &there).as_deref(), Some("/set"));
    assert_eq!(
        first_existing_relative(&strings(&["/x", "/y"]), &vec![false, true]).as_deref(),
        Some("/y")
    );
    let scripts = default_parakeet_script(&Some("/res".to_string()), &vec![]);
    assert!(scripts.iter().all(|s| s.ends_with("parakeet_transcribe.py")));
    assert_eq!(
        relative_candidates(&None, &strings(&["/a"]), &strings(&["x", "y"])),
        strings(&["/a/x", "/a/y"])
    );
}

#[test]
fn explicit_settings_come_first() {
    assert_eq!(resolve_python_bin(Some("p"), Some("e"), &None), "p");
    assert_eq!(resolve_python_bin(None, Some("e"), &None), "e");
    assert_eq!(resolve_python_bin(None, None, &Some("l".to_string())), "l");
    assert_eq!(resolve_python_bin(None, None, &None), "python3");
    assert_eq!(resolve_parakeet_model(None, None), DEFAULT_PARAKEET_MODEL);
    assert_eq!(resolve_parakeet_model(Some("m"), Some("e")), "m");
    assert_eq!(
        resolve_parakeet_script(None, Some("/e.py"), &Some("/d.py".to_string())).as_deref(),
        Some("/e.py")
    );
}
