//! The transcription of a whole recording, and what is done with the text.

use vstd::prelude::*;

use crate::cli::{text_list_json, text_list_tree, StopArgs};
use crate::daemon::{opt_int_json, opt_int_tree};
use crate::engine::{read_setting, set_text};
use crate::json::{
    count_tree, field, item_views, object_is_ordered, object_of, opt_text_tree, opt_view,
    pairs_read_back, put_is_found, put_keeps_order, str_view, text_field, with_entry, Fields, Json,
    Number, Pairs, Tree,
};
use crate::paths::{join_path, joined_path, paths_join_with_one_slash};
use crate::number::{decimal, decimal_text};
use crate::pattern::{
    contains, contains_text, lemma_lines_append, lemma_single_line, lines, lines_of, replaced,
    views,
};
use crate::template::{
    escaped, fill_template, fill_template_with_transcript, shell_escape, with_paths, TemplatePaths,
};
use crate::text::{
    concat, concat3, is_blank, is_space, lemma_blank_is_trimmed, lemma_trimmed_keeps,
    lemma_trimmed_shape, trim, trimmed, trimming_takes_the_space_around,
};

verus! {

// ---------------------------------------------------------------------------------------------
// How a recording is transcribed
// ---------------------------------------------------------------------------------------------

/// The command that is set: on the command line, else in the environment, where it is not blank.
pub open spec fn command_of(explicit: Option<Seq<char>>, env: Option<Seq<char>>) -> Option<
    Seq<char>,
> {
    set_text(
        match explicit {
            Some(c) => Some(c),
            None => env,
        },
    )
}

/// The command that is set: on the command line, else in the environment, where it is not blank.
pub fn configured_command(explicit: &Option<String>, env: Option<&str>) -> (r: Option<String>)
    ensures
        opt_view(r) == command_of(opt_view(*explicit), str_view(env)),
{
    match explicit {
        Some(c) => read_setting(Some(c.as_str())),
        None => read_setting(env),
    }
}

/// The paths that a command can refer to.
pub open spec fn session_paths(audio: Seq<char>, session_dir: Seq<char>, p: TemplatePaths) -> bool {
    &&& p.audio@ == audio
    &&& p.out_base@ == joined_path(session_dir, "transcript"@)
    &&& p.out_txt@ == joined_path(session_dir, "transcript.txt"@)
    &&& p.session_dir@ == session_dir
}

/// The paths that a command can refer to.
pub fn template_paths(audio: &str, session_dir: &str) -> (r: TemplatePaths)
    ensures
        session_paths(audio@, session_dir@, r),
{
    TemplatePaths {
        audio: audio.to_owned(),
        out_base: join_path(session_dir, "transcript"),
        out_txt: join_path(session_dir, "transcript.txt"),
        session_dir: session_dir.to_owned(),
    }
}

/// How a recording is transcribed.
pub enum Plan {
    /// Not at all: it is only said what would be done.
    DryRun,
    /// Not at all: there is no recording.
    MissingAudio,
    /// By this command.
    Command(String),
    /// Not at all: nothing is set up.
    NotConfigured,
    /// By this script.
    Script(String),
}

/// How a recording is transcribed.
pub fn transcription_plan(
    dry_run: bool,
    audio_exists: bool,
    command: &Option<String>,
    paths: &TemplatePaths,
    script: &Option<String>,
) -> (r: Plan)
    ensures
        if dry_run {
            r is DryRun
        } else if !audio_exists {
            r is MissingAudio
        } else {
            match (*command, *script) {
                (Some(c), _) => r matches Plan::Command(f) && f@ == with_paths(c@, *paths),
                (None, Some(s)) => r matches Plan::Script(p) && p@ == s@,
                (None, None) => r is NotConfigured,
            }
        },
{
    if dry_run {
        return Plan::DryRun;
    }
    if !audio_exists {
        return Plan::MissingAudio;
    }
    match command {
        Some(c) => Plan::Command(fill_template(c.as_str(), paths)),
        None => match script {
            Some(s) => Plan::Script(s.clone()),
            None => Plan::NotConfigured,
        },
    }
}

/// The name of the way in which a recording is transcribed.
pub open spec fn path_name(p: Plan) -> Seq<char> {
    match p {
        Plan::DryRun => "dry_run"@,
        Plan::MissingAudio => "missing_audio"@,
        Plan::Command(_) => "custom_command"@,
        Plan::NotConfigured => "parakeet"@,
        Plan::Script(_) => "parakeet"@,
    }
}

/// The name of the way in which a recording is transcribed.
pub fn execution_path(p: &Plan) -> (r: &'static str)
    ensures
        r@ == path_name(*p),
{
    match p {
        Plan::DryRun => "dry_run",
        Plan::MissingAudio => "missing_audio",
        Plan::Command(_) => "custom_command",
        Plan::NotConfigured => "parakeet",
        Plan::Script(_) => "parakeet",
    }
}

/// What is said where a recording is not transcribed, where it is not.
pub open spec fn idle_pairs(p: Plan, audio: Seq<char>) -> Option<Seq<(Seq<char>, Tree)>> {
    match p {
        Plan::DryRun => Some(
            seq![
                ("status"@, Tree::Text("dry_run"@)),
                ("reason"@, Tree::Text("transcription skipped"@)),
            ],
        ),
        Plan::MissingAudio => Some(
            seq![
                ("status"@, Tree::Text("missing_audio"@)),
                ("reason"@, Tree::Text("Audio file not found: "@ + audio)),
            ],
        ),
        Plan::NotConfigured => Some(
            seq![
                ("status"@, Tree::Text("skipped"@)),
                (
                    "reason"@,
                    Tree::Text(
                        "No transcription configured. Set --parakeet-script or RIFF_PARAKEET_SCRIPT, or use --transcribe-cmd."@,
                    ),
                ),
            ],
        ),
        _ => None,
    }
}

/// What is said where a recording is not transcribed, where it is not.
pub fn idle_meta(p: &Plan, audio: &str) -> (r: Option<Json>)
    ensures
        match idle_pairs(*p, audio@) {
            Some(pairs) => r matches Some(j) && j@ == Tree::Object(object_of(pairs)),
            None => r is None,
        },
{
    let mut q = Pairs::new();
    match p {
        Plan::DryRun => {
            q.text("status", "dry_run");
            q.text("reason", "transcription skipped");
        },
        Plan::MissingAudio => {
            let reason = concat("Audio file not found: ", audio);
            q.text("status", "missing_audio");
            q.text("reason", reason.as_str());
        },
        Plan::NotConfigured => {
            q.text("status", "skipped");
            q.text(
                "reason",
                "No transcription configured. Set --parakeet-script or RIFF_PARAKEET_SCRIPT, or use --transcribe-cmd.",
            );
        },
        _ => {
            return None;
        },
    }
    assert(q@ == idle_pairs(*p, audio@)->0);
    Some(q.object())
}

/// How a command ended that was to leave a transcript.
pub enum CommandRun {
    /// It succeeded. The text in the transcript file, where that is there, and what it printed.
    Done(Option<String>, String),
    /// It failed: exit code, signal, and what it printed, errors first.
    Failed(Option<i64>, Option<i64>, String, String),
    /// It could not be run.
    NotRun(String),
}

/// The text of a command that was to leave a transcript: that of the file, else what it printed.
pub open spec fn run_text(run: CommandRun) -> Seq<char> {
    match run {
        CommandRun::Done(Some(file), _) => trimmed(file@),
        CommandRun::Done(None, stdout) => trimmed(stdout@),
        _ => Seq::empty(),
    }
}

/// What is written to the transcript file: what the command printed, where it left no file and
/// printed something.
pub open spec fn run_write(run: CommandRun) -> Option<Seq<char>> {
    match run {
        CommandRun::Done(None, stdout) => if trimmed(stdout@).len() > 0 {
            Some(stdout@)
        } else {
            None
        },
        _ => None,
    }
}

/// The text of a command that was to leave a transcript, and what is written to the file.
fn take_text(run: &CommandRun) -> (r: (String, Option<String>))
    ensures
        r.0@ == run_text(*run),
        opt_view(r.1) == run_write(*run),
{
    match run {
        CommandRun::Done(Some(file), _) => (trim(file.as_str()), None),
        CommandRun::Done(None, stdout) => {
            let write: Option<String> = if is_blank(stdout.as_str()) {
                None
            } else {
                Some(stdout.clone())
            };
            (trim(stdout.as_str()), write)
        },
        _ => (String::new(), None),
    }
}

/// What is said of a command that transcribed.
pub open spec fn command_pairs(run: CommandRun, cmd: Seq<char>) -> Seq<(Seq<char>, Tree)> {
    match run {
        CommandRun::Done(_, _) => seq![
            ("status"@, Tree::Text("ok"@)),
            ("method"@, Tree::Text("custom_command"@)),
            ("cmd"@, Tree::Text(cmd)),
        ],
        CommandRun::Failed(code, _, stderr, _) => seq![
            ("status"@, Tree::Text("error"@)),
            ("method"@, Tree::Text("custom_command"@)),
            ("cmd"@, Tree::Text(cmd)),
            ("returncode"@, opt_int_tree(code)),
            ("stderr"@, Tree::Text(trimmed(stderr@))),
        ],
        CommandRun::NotRun(e) => seq![
            ("status"@, Tree::Text("error"@)),
            ("method"@, Tree::Text("custom_command"@)),
            ("cmd"@, Tree::Text(cmd)),
            ("reason"@, Tree::Text("Failed to spawn shell command: "@ + e@)),
        ],
    }
}

/// What is said of a command that transcribed.
fn command_meta(run: &CommandRun, cmd: &str) -> (r: Json)
    ensures
        r@ == Tree::Object(object_of(command_pairs(*run, cmd@))),
{
    let mut p = Pairs::new();
    match run {
        CommandRun::Done(_, _) => {
            p.text("status", "ok");
            p.text("method", "custom_command");
            p.text("cmd", cmd);
        },
        CommandRun::Failed(code, _, stderr, _) => {
            let err = trim(stderr.as_str());
            p.text("status", "error");
            p.text("method", "custom_command");
            p.text("cmd", cmd);
            p.add("returncode", opt_int_json(*code));
            p.text("stderr", err.as_str());
        },
        CommandRun::NotRun(e) => {
            let reason = concat("Failed to spawn shell command: ", e.as_str());
            p.text("status", "error");
            p.text("method", "custom_command");
            p.text("cmd", cmd);
            p.text("reason", reason.as_str());
        },
    }
    assert(p@ == command_pairs(*run, cmd@));
    p.object()
}

/// What a transcription gives.
pub struct Transcription {
    pub text: String,
    pub meta: Json,
    /// What is written to the transcript file, where something is.
    pub write: Option<String>,
}

/// What a transcription by a command gives.
pub fn command_result(run: &CommandRun, cmd: &str) -> (r: Transcription)
    ensures
        r.text@ == run_text(*run),
        r.meta@ == Tree::Object(object_of(command_pairs(*run, cmd@))),
        opt_view(r.write) == run_write(*run),
{
    let (text, write) = take_text(run);
    Transcription { text, meta: command_meta(run, cmd), write }
}

/// The command line of a transcription by a script, as it is recorded.
pub open spec fn script_line(
    python: Seq<char>,
    script: Seq<char>,
    audio: Seq<char>,
    out_txt: Seq<char>,
    model: Seq<char>,
) -> Seq<char> {
    escaped(python) + " "@ + escaped(script) + " --audio "@ + escaped(audio) + " --out-txt "@
        + escaped(out_txt) + " --model "@ + escaped(model)
}

/// The command line of a transcription by a script, as it is recorded.
pub fn script_command_line(python: &str, script: &str, audio: &str, out_txt: &str, model: &str) -> (r:
    String)
    ensures
        r@ == script_line(python@, script@, audio@, out_txt@, model@),
{
    let mut out = concat3(shell_escape(python).as_str(), " ", shell_escape(script).as_str());
    out.append(" --audio ");
    out.append(shell_escape(audio).as_str());
    out.append(" --out-txt ");
    out.append(shell_escape(out_txt).as_str());
    out.append(" --model ");
    out.append(shell_escape(model).as_str());
    out
}

/// What is said of a script that transcribed.
pub open spec fn script_pairs(
    run: CommandRun,
    cmd: Seq<char>,
    script: Seq<char>,
    model: Seq<char>,
) -> Seq<(Seq<char>, Tree)> {
    match run {
        CommandRun::Done(_, _) => seq![
            ("status"@, Tree::Text("ok"@)),
            ("method"@, Tree::Text("parakeet_python"@)),
            ("cmd"@, Tree::Text(cmd)),
            ("script"@, Tree::Text(script)),
            ("model"@, Tree::Text(model)),
        ],
        CommandRun::Failed(code, signal, stderr, stdout) => seq![
            ("status"@, Tree::Text("error"@)),
            ("method"@, Tree::Text("parakeet_python"@)),
            ("cmd"@, Tree::Text(cmd)),
            ("returncode"@, opt_int_tree(code)),
            ("signal"@, opt_int_tree(signal)),
            ("stderr"@, Tree::Text(trimmed(stderr@))),
            ("stdout"@, Tree::Text(trimmed(stdout@))),
        ],
        CommandRun::NotRun(e) => seq![
            ("status"@, Tree::Text("error"@)),
            ("method"@, Tree::Text("parakeet_python"@)),
            ("cmd"@, Tree::Text(cmd)),
            ("reason"@, Tree::Text("Failed to run python transcription: "@ + e@)),
        ],
    }
}

/// `meta`, and where a server was tried before, how that failed.
pub open spec fn with_server_error(meta: Tree, server_error: Option<Tree>) -> Tree {
    match server_error {
        Some(e) => with_entry(
            with_entry(meta, "fallback_from"@, Tree::Text("parakeet_server"@)),
            "server_error"@,
            e,
        ),
        None => meta,
    }
}

/// What a transcription by a script gives. Where a server was tried before, `server_error` says how
/// that failed.
pub fn script_result(
    run: &CommandRun,
    cmd: &str,
    script: &str,
    model: &str,
    server_error: Option<Json>,
) -> (r: Transcription)
    ensures
        r.text@ == run_text(*run),
        r.meta@ == with_server_error(
            Tree::Object(object_of(script_pairs(*run, cmd@, script@, model@))),
            match server_error {
                Some(e) => Some(e@),
                None => None,
            },
        ),
        opt_view(r.write) == run_write(*run),
{
    let mut p = Pairs::new();
    match run {
        CommandRun::Done(_, _) => {
            p.text("status", "ok");
            p.text("method", "parakeet_python");
            p.text("cmd", cmd);
            p.text("script", script);
            p.text("model", model);
        },
        CommandRun::Failed(code, signal, stderr, stdout) => {
            let err = trim(stderr.as_str());
            let out = trim(stdout.as_str());
            p.text("status", "error");
            p.text("method", "parakeet_python");
            p.text("cmd", cmd);
            p.add("returncode", opt_int_json(*code));
            p.add("signal", opt_int_json(*signal));
            p.text("stderr", err.as_str());
            p.text("stdout", out.as_str());
        },
        CommandRun::NotRun(e) => {
            let reason = concat("Failed to run python transcription: ", e.as_str());
            p.text("status", "error");
            p.text("method", "parakeet_python");
            p.text("cmd", cmd);
            p.text("reason", reason.as_str());
        },
    }
    assert(p@ == script_pairs(*run, cmd@, script@, model@));
    let meta = p.object();
    let (text, write) = take_text(run);
    let meta = match server_error {
        Some(e) => {
            let m = meta.with("fallback_from", Json::text("parakeet_server"));
            m.with("server_error", e)
        },
        None => meta,
    };
    Transcription { text, meta, write }
}

/// A transcription that failed gives no text, and nothing is written.
pub proof fn failures_leave_no_text(run: CommandRun)
    requires
        !(run is Done),
    ensures
        run_text(run).len() == 0,
        run_write(run) is None,
{
}

// ---------------------------------------------------------------------------------------------
// The local engine
// ---------------------------------------------------------------------------------------------

/// How far a transcription by the local engine has come.
#[derive(PartialEq, Eq, Structural, Clone, Copy, Debug)]
pub enum LocalStage {
    /// Nothing was tried.
    Begin,
    /// The server is being made ready.
    Looking,
    /// The server was asked.
    Asking,
    /// The script runs.
    Scripting,
    /// There is a result.
    Done,
}

/// What is known after the last move of a transcription by the local engine.
#[derive(PartialEq, Eq, Structural, Clone, Copy, Debug)]
pub enum LocalSight {
    /// Nothing yet.
    Nothing,
    /// Whether there is a server that can be used.
    Server(bool),
    /// Whether the server has transcribed.
    Reply(bool),
    /// How the script ended.
    ScriptEnded,
}

/// What a transcription by the local engine does next.
#[derive(PartialEq, Eq, Structural, Clone, Copy, Debug)]
pub enum LocalMove {
    /// A server is made ready.
    FindServer,
    /// The server is asked.
    AskServer,
    /// The script is run.
    RunScript,
    /// What the server gave is kept.
    KeepReply,
    /// What the script gave is kept.
    KeepScript,
}

/// What a transcription by the local engine does next: the server is asked where it is used and can
/// be, and the script is run where that gives nothing.
pub open spec fn local_move(stage: LocalStage, server_enabled: bool, sight: LocalSight) -> LocalMove {
    match (stage, sight) {
        (LocalStage::Begin, _) => if server_enabled {
            LocalMove::FindServer
        } else {
            LocalMove::RunScript
        },
        (LocalStage::Looking, LocalSight::Server(true)) => LocalMove::AskServer,
        (LocalStage::Looking, _) => LocalMove::RunScript,
        (LocalStage::Asking, LocalSight::Reply(true)) => LocalMove::KeepReply,
        (LocalStage::Asking, _) => LocalMove::RunScript,
        (LocalStage::Scripting, _) => LocalMove::KeepScript,
        (LocalStage::Done, LocalSight::Reply(true)) => LocalMove::KeepReply,
        (LocalStage::Done, _) => LocalMove::KeepScript,
    }
}

/// The stage after a move.
pub open spec fn local_stage(m: LocalMove) -> LocalStage {
    match m {
        LocalMove::FindServer => LocalStage::Looking,
        LocalMove::AskServer => LocalStage::Asking,
        LocalMove::RunScript => LocalStage::Scripting,
        LocalMove::KeepReply => LocalStage::Done,
        LocalMove::KeepScript => LocalStage::Done,
    }
}

/// What a transcription by the local engine does next.
pub fn local_step(stage: &mut LocalStage, server_enabled: bool, sight: LocalSight) -> (r: LocalMove)
    ensures
        r == local_move(*old(stage), server_enabled, sight),
        *final(stage) == local_stage(r),
{
    let m: LocalMove = match (*stage, sight) {
        (LocalStage::Begin, _) => if server_enabled {
            LocalMove::FindServer
        } else {
            LocalMove::RunScript
        },
        (LocalStage::Looking, LocalSight::Server(true)) => LocalMove::AskServer,
        (LocalStage::Looking, _) => LocalMove::RunScript,
        (LocalStage::Asking, LocalSight::Reply(true)) => LocalMove::KeepReply,
        (LocalStage::Asking, _) => LocalMove::RunScript,
        (LocalStage::Scripting, _) => LocalMove::KeepScript,
        (LocalStage::Done, LocalSight::Reply(true)) => LocalMove::KeepReply,
        (LocalStage::Done, _) => LocalMove::KeepScript,
    };
    *stage = match m {
        LocalMove::FindServer => LocalStage::Looking,
        LocalMove::AskServer => LocalStage::Asking,
        LocalMove::RunScript => LocalStage::Scripting,
        LocalMove::KeepReply => LocalStage::Done,
        LocalMove::KeepScript => LocalStage::Done,
    };
    m
}

/// The script is run only where the server is not used, is not to be had, or has failed: what the
/// server has transcribed is not transcribed again.
pub proof fn scripts_are_the_last_resort(
    stage: LocalStage,
    server_enabled: bool,
    sight: LocalSight,
)
    ensures
        local_move(stage, server_enabled, sight) == LocalMove::RunScript ==> (stage
            == LocalStage::Begin && !server_enabled) || (stage == LocalStage::Looking && sight
            != LocalSight::Server(true)) || (stage == LocalStage::Asking && sight
            != LocalSight::Reply(true)),
        local_move(stage, server_enabled, sight) == LocalMove::AskServer ==> stage
            == LocalStage::Looking && sight == LocalSight::Server(true),
{
}

/// `meta` with what was measured.
pub fn attach_perf(meta: Json, perf: Fields, total_ms: &Number) -> (r: Json)
    ensures
        r@ == with_entry(
            meta@,
            "perf"@,
            Tree::Object(
                crate::json::with_field(perf@, "total_ms"@, Tree::Number(total_ms@)),
            ),
        ),
{
    let mut p = perf;
    p.put("total_ms", Json::Number(total_ms.copy()));
    meta.with("perf", p.object())
}

// ---------------------------------------------------------------------------------------------
// The command after it
// ---------------------------------------------------------------------------------------------

/// What is said of a step that was left out.
pub open spec fn skipped(reason: Seq<char>) -> Tree {
    Tree::Object(
        object_of(seq![("status"@, Tree::Text("skipped"@)), ("reason"@, Tree::Text(reason))]),
    )
}

/// What is said of a step that was left out.
pub fn skipped_meta(reason: &str) -> (r: Json)
    ensures
        r@ == skipped(reason@),
{
    let mut p = Pairs::new();
    p.text("status", "skipped");
    p.text("reason", reason);
    assert(p@ == seq![("status"@, Tree::Text("skipped"@)), ("reason"@, Tree::Text(reason@))]);
    p.object()
}

/// The command that is run on a transcript, or what is said where none is.
pub fn post_transcribe_plan(
    args: &StopArgs,
    env: Option<&str>,
    paths: &TemplatePaths,
    transcript: &str,
) -> (r: Result<String, Json>)
    ensures
        if args.no_stop_hooks {
            r matches Err(j) && j@ == skipped("disabled_by_flag"@)
        } else {
            match command_of(opt_view(args.post_transcribe_cmd), str_view(env)) {
                Some(c) => r matches Ok(f) && f@ == replaced(
                    with_paths(c, *paths),
                    "{transcript}"@,
                    escaped(transcript@),
                ),
                None => r matches Err(j) && j@ == skipped("not_configured"@),
            }
        },
{
    if args.no_stop_hooks {
        return Err(skipped_meta("disabled_by_flag"));
    }
    match configured_command(&args.post_transcribe_cmd, env) {
        Some(c) => Ok(fill_template_with_transcript(c.as_str(), paths, Some(transcript))),
        None => Err(skipped_meta("not_configured")),
    }
}

/// What is kept in a transcript file: nothing, or the text and a line end.
pub open spec fn file_text(text: Seq<char>) -> Seq<char> {
    if text.len() == 0 {
        Seq::empty()
    } else {
        text + "\n"@
    }
}

/// What is kept in a transcript file: nothing, or the text and a line end.
pub fn transcript_file_text(text: &str) -> (r: String)
    ensures
        r@ == file_text(text@),
{
    if text.is_empty() {
        String::new()
    } else {
        concat(text, "\n")
    }
}

/// The text that a command made of a transcript: what it printed, where that is not blank, else
/// what is in the transcript file. Where the command failed the transcript stays as it was.
pub open spec fn rewritten(run: CommandRun, transcript: Seq<char>) -> Seq<char> {
    match run {
        CommandRun::Done(file, stdout) => if trimmed(stdout@).len() > 0 {
            trimmed(stdout@)
        } else {
            match file {
                Some(f) => trimmed(f@),
                None => Seq::empty(),
            }
        },
        _ => transcript,
    }
}

/// What a command that succeeded printed is the transcript from then on, whatever the transcript file
/// holds and whatever the transcript was. The file counts only where nothing was printed, and where
/// there is neither nothing is left. A command that failed leaves the transcript as it was.
pub proof fn printed_text_becomes_the_transcript(
    file: Option<String>,
    stdout: String,
    transcript: Seq<char>,
)
    ensures
        !(forall|i: int| 0 <= i < stdout@.len() ==> is_space(#[trigger] stdout@[i])) ==> rewritten(
            CommandRun::Done(file, stdout),
            transcript,
        ) == trimmed(stdout@) && trimmed(stdout@).len() > 0,
        (forall|i: int| 0 <= i < stdout@.len() ==> is_space(#[trigger] stdout@[i])) && file is Some
            ==> rewritten(CommandRun::Done(file, stdout), transcript) == trimmed(file->0@),
        (forall|i: int| 0 <= i < stdout@.len() ==> is_space(#[trigger] stdout@[i])) && file is None
            ==> rewritten(CommandRun::Done(file, stdout), transcript).len() == 0,
        forall|run: CommandRun| !(run is Done) ==> #[trigger] rewritten(run, transcript) == transcript,
{
    if forall|i: int| 0 <= i < stdout@.len() ==> is_space(#[trigger] stdout@[i]) {
        lemma_blank_is_trimmed(stdout@);
    } else {
        let i = choose|i: int| 0 <= i < stdout@.len() && !is_space(#[trigger] stdout@[i]);
        lemma_trimmed_keeps(stdout@, i);
    }
}

/// What the command that is run on a transcript gives.
pub fn post_transcribe_result(run: &CommandRun, cmd: &str, transcript: &str) -> (r: Transcription)
    ensures
        r.text@ == rewritten(*run, transcript@),
        r.meta@ == Tree::Object(object_of(command_pairs(*run, cmd@))),
        opt_view(r.write) == if run is Done {
            Some(file_text(rewritten(*run, transcript@)))
        } else {
            None
        },
{
    let meta = command_meta(run, cmd);
    match run {
        CommandRun::Done(file, stdout) => {
            let text: String = if !is_blank(stdout.as_str()) {
                trim(stdout.as_str())
            } else {
                match file {
                    Some(f) => trim(f.as_str()),
                    None => String::new(),
                }
            };
            let write = transcript_file_text(text.as_str());
            Transcription { text, meta, write: Some(write) }
        },
        _ => Transcription { text: transcript.to_owned(), meta, write: None },
    }
}

// ---------------------------------------------------------------------------------------------
// Output hooks
// ---------------------------------------------------------------------------------------------

/// A hook that was given on the command line, as it is run. A bare path is handed the transcript
/// and what is known of the session.
pub open spec fn normal_hook(raw: Seq<char>) -> Seq<char> {
    if contains(trimmed(raw), "$"@) {
        trimmed(raw)
    } else {
        trimmed(raw) + " \"$@\""@
    }
}

/// A hook that was given on the command line, as it is run.
pub fn normalize_cli_hook(raw: &str) -> (r: String)
    ensures
        r@ == normal_hook(raw@),
{
    let hook = trim(raw);
    if contains_text(hook.as_str(), "$") {
        hook
    } else {
        concat(hook.as_str(), " \"$@\"")
    }
}

/// What stands in a line that is not blank.
pub open spec fn filled_line(l: Seq<char>) -> Option<Seq<char>> {
    if trimmed(l).len() == 0 {
        None
    } else {
        Some(trimmed(l))
    }
}

/// A hook of the command line that is not blank, as it is run.
pub open spec fn filled_hook(h: Seq<char>) -> Option<Seq<char>> {
    if trimmed(h).len() == 0 {
        None
    } else {
        Some(normal_hook(trimmed(h)))
    }
}

/// The hooks that are set, one per line.
pub open spec fn set_hooks(env: Option<Seq<char>>) -> Seq<Seq<char>> {
    match env {
        Some(v) => lines_of(v).filter_map(|l: Seq<char>| filled_line(l)),
        None => Seq::empty(),
    }
}

/// The hooks that are run, in their order: those that are set, unless they are switched off, and
/// then those of the command line.
pub open spec fn hook_chain(
    no_hooks: bool,
    env: Option<Seq<char>>,
    added: Seq<Seq<char>>,
) -> Seq<Seq<char>> {
    (if no_hooks {
        Seq::empty()
    } else {
        set_hooks(env)
    }) + added.filter_map(|h: Seq<char>| filled_hook(h))
}

/// The hooks that are set, one per line.
pub fn configured_hooks(env: Option<&str>) -> (r: Vec<String>)
    ensures
        views(r@) == set_hooks(str_view(env)),
{
    let mut out: Vec<String> = Vec::new();
    let text: &str = match env {
        Some(v) => v,
        None => {
            assert(views(out@) =~= Seq::empty());
            return out;
        },
    };
    let all = lines(text);
    let ghost av = views(all@);
    let ghost f = |l: Seq<char>| filled_line(l);
    let mut i: usize = 0;
    proof {
        reveal(Seq::filter_map);
    }
    assert(views(out@) =~= av.subrange(0, 0).filter_map(f));
    while i < all.len()
        invariant
            i <= all.len(),
            av == views(all@),
            f == (|l: Seq<char>| filled_line(l)),
            views(out@) == av.subrange(0, i as int).filter_map(f),
        decreases all.len() - i,
    {
        let ghost before = out@;
        proof {
            assert(av.subrange(0, i + 1).drop_last() == av.subrange(0, i as int));
            assert(av.subrange(0, i + 1).last() == all@[i as int]@);
            reveal(Seq::filter_map);
        }
        let t = trim(all[i].as_str());
        if !t.as_str().is_empty() {
            let ghost tv = t@;
            out.push(t);
            assert(views(out@) =~= views(before).push(tv));
        }
        assert(views(out@) =~= av.subrange(0, i + 1).filter_map(f));
        i = i + 1;
    }
    assert(av.subrange(0, av.len() as int) =~= av);
    out
}

/// The hooks that are run on a transcript, in their order, or what is said where there is none.
pub fn output_hook_plan(args: &StopArgs, env: Option<&str>) -> (r: Result<Vec<String>, Json>)
    ensures
        ({
            let chain = hook_chain(args.no_hooks, str_view(env), views(args.with_post_hook@));
            if args.no_stop_hooks {
                r matches Err(j) && j@ == skipped("disabled_by_flag"@)
            } else if chain.len() > 0 {
                r matches Ok(hooks) && views(hooks@) == chain
            } else {
                r matches Err(j) && j@ == skipped(
                    if args.no_hooks {
                        "disabled_by_flag"@
                    } else {
                        "not_configured"@
                    },
                )
            }
        }),
{
    if args.no_stop_hooks {
        return Err(skipped_meta("disabled_by_flag"));
    }
    let mut hooks: Vec<String> = if args.no_hooks {
        Vec::new()
    } else {
        configured_hooks(env)
    };
    let ghost head = if args.no_hooks {
        Seq::empty()
    } else {
        set_hooks(str_view(env))
    };
    assert(views(hooks@) =~= head);
    let ghost av = views(args.with_post_hook@);
    let ghost f = |h: Seq<char>| filled_hook(h);
    let mut i: usize = 0;
    proof {
        reveal(Seq::filter_map);
    }
    assert(views(hooks@) =~= head + av.subrange(0, 0).filter_map(f));
    while i < args.with_post_hook.len()
        invariant
            i <= args.with_post_hook.len(),
            av == views(args.with_post_hook@),
            f == (|h: Seq<char>| filled_hook(h)),
            views(hooks@) == head + av.subrange(0, i as int).filter_map(f),
        decreases args.with_post_hook.len() - i,
    {
        let ghost before = hooks@;
        let ghost kept = av.subrange(0, i as int).filter_map(f);
        proof {
            assert(av.subrange(0, i + 1).drop_last() == av.subrange(0, i as int));
            assert(av.subrange(0, i + 1).last() == args.with_post_hook@[i as int]@);
            reveal(Seq::filter_map);
        }
        let t = trim(args.with_post_hook[i].as_str());
        if !t.as_str().is_empty() {
            let hook = normalize_cli_hook(t.as_str());
            let ghost hv = hook@;
            hooks.push(hook);
            assert(views(hooks@) =~= views(before).push(hv));
            assert(av.subrange(0, i + 1).filter_map(f) =~= kept.push(hv));
            assert(views(hooks@) =~= head + kept.push(hv));
        } else {
            assert(av.subrange(0, i + 1).filter_map(f) =~= kept);
        }
        i = i + 1;
    }
    assert(av.subrange(0, av.len() as int) =~= av);
    assert(views(hooks@).len() == hooks@.len());
    if hooks.len() == 0 {
        return Err(
            skipped_meta(
                if args.no_hooks {
                    "disabled_by_flag"
                } else {
                    "not_configured"
                },
            ),
        );
    }
    Ok(hooks)
}

/// Hooks that are set run before those of the command line, and a switched off chain leaves those
/// of the command line.
pub proof fn command_line_hooks_come_last(
    no_hooks: bool,
    env: Option<Seq<char>>,
    added: Seq<Seq<char>>,
)
    ensures
        hook_chain(no_hooks, env, added) == hook_chain(no_hooks, env, Seq::empty()) + hook_chain(
            true,
            env,
            added,
        ),
{
    reveal(Seq::filter_map);
    let none = Seq::<Seq<char>>::empty().filter_map(|h: Seq<char>| filled_hook(h));
    assert(none =~= Seq::empty());
    let own = added.filter_map(|h: Seq<char>| filled_hook(h));
    assert(Seq::<Seq<char>>::empty() + own =~= own);
    let head = if no_hooks {
        Seq::empty()
    } else {
        set_hooks(env)
    };
    assert(head + none =~= head);
}

/// How a hook ended.
pub enum HookRun {
    /// It succeeded. The text in the file that it was handed, where that could be read.
    Done(Option<String>),
    /// It failed: exit code, and what it printed as errors.
    Failed(Option<i64>, String),
    /// It could not be run.
    NotRun(String),
}

/// The transcript after a hook.
pub open spec fn after_hook(current: Seq<char>, run: HookRun) -> Seq<char> {
    match run {
        HookRun::Done(Some(t)) => t@,
        _ => current,
    }
}

/// What is said of a hook.
pub open spec fn hook_pairs(hook: Seq<char>, run: HookRun, after: Seq<char>) -> Seq<
    (Seq<char>, Tree),
> {
    match run {
        HookRun::Done(_) => seq![
            ("hook"@, Tree::Text(hook)),
            ("status"@, Tree::Text("ok"@)),
            ("chars"@, count_tree(after.len())),
        ],
        HookRun::Failed(code, stderr) => seq![
            ("hook"@, Tree::Text(hook)),
            ("status"@, Tree::Text("error"@)),
            ("returncode"@, opt_int_tree(code)),
            ("stderr"@, Tree::Text(trimmed(stderr@))),
        ],
        HookRun::NotRun(e) => seq![
            ("hook"@, Tree::Text(hook)),
            ("status"@, Tree::Text("error"@)),
            ("reason"@, Tree::Text("Failed to spawn shell command: "@ + e@)),
        ],
    }
}

/// A chain of hooks that is being run: the transcript as the last one left it, what is said of
/// each, and whether one failed.
pub struct HookChain {
    pub current: String,
    pub results: Vec<Json>,
    pub failed: bool,
}

impl HookChain {
    /// A chain before its first hook.
    pub fn new(transcript: &str) -> (r: HookChain)
        ensures
            r.current@ == transcript@,
            item_views(r.results@) == Seq::<Tree>::empty(),
            !r.failed,
    {
        let r = HookChain { current: transcript.to_owned(), results: Vec::new(), failed: false };
        assert(item_views(r.results@) =~= Seq::empty());
        r
    }

    /// Takes in how a hook ended. The chain goes on where it succeeded: the next hook is handed the
    /// text that it left.
    pub fn step(&mut self, hook: &str, run: &HookRun) -> (r: bool)
        ensures
            r == (*run is Done),
            final(self).failed == (old(self).failed || !(*run is Done)),
            final(self).current@ == after_hook(old(self).current@, *run),
            item_views(final(self).results@) == item_views(old(self).results@).push(
                Tree::Object(
                    object_of(
                        hook_pairs(hook@, *run, after_hook(old(self).current@, *run)),
                    ),
                ),
            ),
    {
        let ghost before = self.results@;
        let mut p = Pairs::new();
        p.text("hook", hook);
        let good: bool;
        match run {
            HookRun::Done(text) => {
                if let Some(t) = text {
                    self.current = t.clone();
                }
                p.text("status", "ok");
                p.count("chars", self.current.as_str().unicode_len() as u64);
                good = true;
            },
            HookRun::Failed(code, stderr) => {
                let err = trim(stderr.as_str());
                p.text("status", "error");
                p.add("returncode", opt_int_json(*code));
                p.text("stderr", err.as_str());
                self.failed = true;
                good = false;
            },
            HookRun::NotRun(e) => {
                let reason = concat("Failed to spawn shell command: ", e.as_str());
                p.text("status", "error");
                p.text("reason", reason.as_str());
                self.failed = true;
                good = false;
            },
        }
        assert(p@ == hook_pairs(hook@, *run, after_hook(old(self).current@, *run)));
        let told = p.object();
        let ghost tv = told@;
        self.results.push(told);
        assert(item_views(self.results@) =~= item_views(before).push(tv));
        good
    }

    /// What a chain of `count` hooks gives: the transcript, trimmed, and what is said of it.
    pub fn finish(self, count: usize) -> (r: Transcription)
        ensures
            r.text@ == trimmed(self.current@),
            opt_view(r.write) == Some(file_text(trimmed(self.current@))),
            r.meta@ == Tree::Object(
                object_of(
                    seq![
                        (
                            "status"@,
                            Tree::Text(
                                if self.failed {
                                    "error"@
                                } else {
                                    "ok"@
                                },
                            ),
                        ),
                        ("count"@, count_tree(count as nat)),
                        ("hooks"@, Tree::List(item_views(self.results@))),
                    ],
                ),
            ),
    {
        let text = trim(self.current.as_str());
        let write = transcript_file_text(text.as_str());
        let status: &str = if self.failed {
            "error"
        } else {
            "ok"
        };
        let mut p = Pairs::new();
        p.text("status", status);
        p.count("count", count as u64);
        p.add("hooks", Json::list(self.results));
        assert(p@ == seq![
            (
                "status"@,
                Tree::Text(
                    if self.failed {
                        "error"@
                    } else {
                        "ok"@
                    },
                ),
            ),
            ("count"@, count_tree(count as nat)),
            ("hooks"@, Tree::List(item_views(self.results@))),
        ]);
        Transcription { text, meta: p.object(), write: Some(write) }
    }
}

/// What is said where the files for the hooks could not be made. `what` names the step that failed.
pub fn hook_setup_failed(what: &str, error: &str) -> (r: Json)
    ensures
        r@ == Tree::Object(
            object_of(
                seq![
                    ("status"@, Tree::Text("error"@)),
                    ("reason"@, Tree::Text("Failed to "@ + what@ + ": "@ + error@)),
                ],
            ),
        ),
{
    let mut reason = concat3("Failed to ", what, ": ");
    reason.append(error);
    let mut p = Pairs::new();
    p.text("status", "error");
    p.text("reason", reason.as_str());
    assert(p@ == seq![
        ("status"@, Tree::Text("error"@)),
        ("reason"@, Tree::Text("Failed to "@ + what@ + ": "@ + error@)),
    ]);
    p.object()
}

/// What is reported of the commands that run on a transcript.
pub fn hooks_report(
    hooks: &Vec<String>,
    transcribe_cmd: &Option<String>,
    post_cmd: &Option<String>,
) -> (r: Json)
    ensures
        r@ == Tree::Object(
            object_of(
                seq![
                    ("ok"@, Tree::Bool(true)),
                    ("action"@, Tree::Text("hooks"@)),
                    ("hooks"@, text_list_tree(views(hooks@))),
                    ("transcribe_cmd"@, opt_text_tree(opt_view(*transcribe_cmd))),
                    ("post_transcribe_cmd"@, opt_text_tree(opt_view(*post_cmd))),
                ],
            ),
        ),
{
    let mut p = Pairs::new();
    p.flag("ok", true);
    p.text("action", "hooks");
    p.add("hooks", text_list_json(hooks));
    p.opt_text("transcribe_cmd", transcribe_cmd);
    p.opt_text("post_transcribe_cmd", post_cmd);
    assert(p@ == seq![
        ("ok"@, Tree::Bool(true)),
        ("action"@, Tree::Text("hooks"@)),
        ("hooks"@, text_list_tree(views(hooks@))),
        ("transcribe_cmd"@, opt_text_tree(opt_view(*transcribe_cmd))),
        ("post_transcribe_cmd"@, opt_text_tree(opt_view(*post_cmd))),
    ]);
    p.object()
}

/// The lines on the first `n` hooks, numbered from one.
pub open spec fn hook_lines(hooks: Seq<Seq<char>>, n: int) -> Seq<char>
    decreases n,
{
    if n <= 0 {
        Seq::empty()
    } else {
        hook_lines(hooks, n - 1) + "hook "@ + decimal(n as nat) + ": "@ + hooks[n - 1] + "\n"@
    }
}

/// A command that is set, or a word where none is.
pub open spec fn or_none(cmd: Option<Seq<char>>) -> Seq<char> {
    match cmd {
        Some(c) => c,
        None => "none"@,
    }
}

/// What is said of the commands that run on a transcript.
pub fn hooks_text(
    hooks: &Vec<String>,
    transcribe_cmd: &Option<String>,
    post_cmd: &Option<String>,
) -> (r: String)
    ensures
        r@ == (if hooks@.len() == 0 {
            "hooks: none\n"@
        } else {
            hook_lines(views(hooks@), hooks@.len() as int)
        }) + "transcribe_cmd: "@ + or_none(opt_view(*transcribe_cmd)) + "\npost_transcribe_cmd: "@
            + or_none(opt_view(*post_cmd)),
{
    let mut out = String::new();
    assert(out@ =~= hook_lines(views(hooks@), 0));
    let mut i: usize = 0;
    while i < hooks.len()
        invariant
            i <= hooks.len(),
            out@ == hook_lines(views(hooks@), i as int),
        decreases hooks.len() - i,
    {
        out.append("hook ");
        out.append(decimal_text(i as u64 + 1).as_str());
        out.append(": ");
        out.append(hooks[i].as_str());
        out.append("\n");
        i = i + 1;
    }
    if hooks.len() == 0 {
        out = "hooks: none\n".to_owned();
    }
    out.append("transcribe_cmd: ");
    out.append(
        match transcribe_cmd {
            Some(c) => c.as_str(),
            None => "none",
        },
    );
    out.append("\npost_transcribe_cmd: ");
    out.append(
        match post_cmd {
            Some(c) => c.as_str(),
            None => "none",
        },
    );
    out
}

// ---------------------------------------------------------------------------------------------
// What a run comes to
// ---------------------------------------------------------------------------------------------

/// A command that transcribed leaves its text in the file, where there is one, whatever it printed;
/// else what it printed is the text. What it printed is written to the file just as it was, and only
/// where it left none and printed something.
pub proof fn left_files_are_the_transcript(file: String, stdout: String)
    ensures
        run_text(CommandRun::Done(Some(file), stdout)) == trimmed(file@),
        run_write(CommandRun::Done(Some(file), stdout)) is None,
        run_text(CommandRun::Done(None, stdout)) == trimmed(stdout@),
        trimmed(stdout@).len() > 0 ==> run_write(CommandRun::Done(None, stdout)) == Some(stdout@),
        trimmed(stdout@).len() == 0 ==> run_write(CommandRun::Done(None, stdout)) is None,
{
}

/// A command of the command line counts before that of the environment, also where it is blank: no
/// command runs then. A command is run without the white space around it.
pub proof fn given_commands_count_first(given: Seq<char>, env: Option<Seq<char>>)
    ensures
        trimmed(given).len() > 0 ==> command_of(Some(given), env) == Some(trimmed(given)),
        trimmed(given).len() == 0 ==> command_of(Some(given), env) is None,
        command_of(None, Some(given)) == command_of(Some(given), None),
        command_of(None, None) is None,
{
}

/// What is said of a command says how it ended, and which one it was.
pub proof fn commands_are_reported(run: CommandRun, cmd: Seq<char>)
    ensures
        ({
            let said = Tree::Object(object_of(command_pairs(run, cmd)));
            &&& text_field(said, "status"@) == Some(
                if run is Done {
                    "ok"@
                } else {
                    "error"@
                },
            )
            &&& text_field(said, "cmd"@) == Some(cmd)
            &&& text_field(said, "method"@) == Some("custom_command"@)
        }),
{
    lemma_run_keys();
    pairs_read_back(command_pairs(run, cmd), 0);
    pairs_read_back(command_pairs(run, cmd), 1);
    pairs_read_back(command_pairs(run, cmd), 2);
}

/// The same holds of a script. Where a server failed before, that is said too, and how the script
/// ended stays.
pub proof fn scripts_are_reported(
    run: CommandRun,
    cmd: Seq<char>,
    script: Seq<char>,
    model: Seq<char>,
    error: Tree,
)
    ensures
        ({
            let said = Tree::Object(object_of(script_pairs(run, cmd, script, model)));
            let more = with_server_error(said, Some(error));
            let status = Some(
                if run is Done {
                    "ok"@
                } else {
                    "error"@
                },
            );
            &&& with_server_error(said, None) == said
            &&& text_field(said, "status"@) == status
            &&& text_field(said, "cmd"@) == Some(cmd)
            &&& text_field(said, "method"@) == Some("parakeet_python"@)
            &&& field(more, "server_error"@) == Some(error)
            &&& text_field(more, "fallback_from"@) == Some("parakeet_server"@)
            &&& text_field(more, "status"@) == status
            &&& text_field(more, "cmd"@) == Some(cmd)
        }),
{
    lemma_run_keys();
    let pairs = script_pairs(run, cmd, script, model);
    pairs_read_back(pairs, 0);
    pairs_read_back(pairs, 1);
    pairs_read_back(pairs, 2);
    let fields = object_of(pairs);
    object_is_ordered(pairs);
    put_is_found(fields, "fallback_from"@, Tree::Text("parakeet_server"@), "status"@);
    put_is_found(fields, "fallback_from"@, Tree::Text("parakeet_server"@), "cmd"@);
    put_is_found(fields, "fallback_from"@, Tree::Text("parakeet_server"@), "fallback_from"@);
    put_keeps_order(fields, "fallback_from"@, Tree::Text("parakeet_server"@));
    let next = crate::json::with_field(fields, "fallback_from"@, Tree::Text("parakeet_server"@));
    put_is_found(next, "server_error"@, error, "status"@);
    put_is_found(next, "server_error"@, error, "cmd"@);
    put_is_found(next, "server_error"@, error, "fallback_from"@);
    put_is_found(next, "server_error"@, error, "server_error"@);
}

proof fn lemma_run_keys()
    ensures
        "status"@.len() == 6 && "method"@.len() == 6 && "cmd"@.len() == 3 && "returncode"@.len() == 10,
        "status"@[1] == 't' && "method"@[1] == 'e' && "stderr"@[0] == 's' && "stderr"@[2] == 'd',
        "status"@[2] == 'a' && "reason"@[0] == 'r' && "status"@[0] == 's' && "method"@[0] == 'm',
        "stderr"@.len() == 6 && "reason"@.len() == 6 && "script"@.len() == 6 && "model"@.len() == 5,
        "script"@[1] == 'c' && "signal"@.len() == 6 && "signal"@[1] == 'i' && "stdout"@.len() == 6,
        "stdout"@[2] == 'd' && "fallback_from"@.len() == 13 && "server_error"@.len() == 12,
        "signal"@[0] == 's' && "script"@[0] == 's' && "stdout"@[0] == 's',
{
    reveal_strlit("status");
    reveal_strlit("method");
    reveal_strlit("cmd");
    reveal_strlit("returncode");
    reveal_strlit("stderr");
    reveal_strlit("reason");
    reveal_strlit("script");
    reveal_strlit("model");
    reveal_strlit("signal");
    reveal_strlit("stdout");
    reveal_strlit("fallback_from");
    reveal_strlit("server_error");
}

/// The local engine asks its server where that is used and can be had, and keeps what it answers;
/// wherever that comes to nothing the script is run.
pub proof fn servers_are_asked_first(sight: LocalSight)
    ensures
        local_move(LocalStage::Begin, true, sight) == LocalMove::FindServer,
        local_move(LocalStage::Begin, false, sight) == LocalMove::RunScript,
        forall|used: bool|
            local_move(LocalStage::Looking, used, LocalSight::Server(true)) == LocalMove::AskServer,
        forall|used: bool|
            local_move(LocalStage::Looking, used, LocalSight::Server(false))
                == LocalMove::RunScript,
        forall|used: bool|
            local_move(LocalStage::Asking, used, LocalSight::Reply(true)) == LocalMove::KeepReply,
        forall|used: bool|
            local_move(LocalStage::Asking, used, LocalSight::Reply(false)) == LocalMove::RunScript,
        forall|used: bool|
            local_move(LocalStage::Scripting, used, LocalSight::ScriptEnded)
                == LocalMove::KeepScript,
        local_stage(LocalMove::FindServer) == LocalStage::Looking,
        local_stage(LocalMove::AskServer) == LocalStage::Asking,
        local_stage(LocalMove::RunScript) == LocalStage::Scripting,
{
}

/// A transcript file holds the transcript and a line end, and nothing where there is none: reading it
/// gives the transcript back.
pub proof fn transcript_files_read_back(text: Seq<char>)
    requires
        trimmed(text) == text,
    ensures
        trimmed(file_text(text)) == text,
        text.len() > 0 ==> file_text(text) == text.push('\n'),
        text.len() == 0 ==> file_text(text).len() == 0,
{
    reveal_strlit("\n");
    if text.len() > 0 {
        lemma_trimmed_shape(text);
        assert("\n"@ =~= seq!['\n']);
        trimming_takes_the_space_around(Seq::empty(), text, "\n"@);
        assert(Seq::<char>::empty() + text + "\n"@ =~= text + "\n"@);
    } else {
        lemma_blank_is_trimmed(text);
    }
}

/// A hook that names what it is handed is run as it stands, and another one is handed the transcript
/// and what is known of the session.
pub proof fn bare_hooks_are_handed_the_files(raw: Seq<char>)
    ensures
        trimmed(raw).contains('$') ==> normal_hook(raw) == trimmed(raw),
        !trimmed(raw).contains('$') ==> normal_hook(raw) == trimmed(raw) + " \"$@\""@,
{
    reveal_strlit("$");
    let t = trimmed(raw);
    if t.contains('$') {
        let i = choose|i: int| 0 <= i < t.len() && t[i] == '$';
        assert(t.subrange(i, i + 1) =~= "$"@);
        assert(crate::pattern::occurs_at(t, "$"@, i));
    } else if contains(t, "$"@) {
        let i = choose|i: int| crate::pattern::occurs_at(t, "$"@, i);
        assert(t.subrange(i, i + 1)[0] == t[i]);
    }
}

/// The hooks that are set are the lines that are not blank, in their order, without the white space
/// around them: what is set in two parts gives the hooks of the first and then those of the second.
pub proof fn hooks_are_set_line_by_line(a: Seq<char>, line: Seq<char>)
    requires
        a.len() > 0 ==> a.last() == '\n',
        !line.contains('\n'),
    ensures
        trimmed(line).len() > 0 ==> set_hooks(Some(a + line)) == set_hooks(Some(a)).push(
            trimmed(line),
        ),
        trimmed(line).len() == 0 ==> set_hooks(Some(a + line)) == set_hooks(Some(a)),
        set_hooks(None).len() == 0,
{
    reveal(Seq::filter_map);
    let f = |l: Seq<char>| filled_line(l);
    lemma_lines_append(a, line);
    if line.len() > 0 {
        lemma_single_line(line);
        let all = lines_of(a) + lines_of(line);
        assert(all.drop_last() =~= lines_of(a));
        assert(all.last() == line);
        assert(all.filter_map(f) =~= match f(line) {
            Some(s) => lines_of(a).filter_map(f) + seq![s],
            None => lines_of(a).filter_map(f),
        });
    } else {
        assert(lines_of(line) =~= Seq::empty());
        assert(lines_of(a) + lines_of(line) =~= lines_of(a));
        lemma_blank_is_trimmed(line);
    }
}

/// The hooks of a run are those that are set, unless they are switched off, and behind them those of
/// the command line that are not blank.
pub proof fn hooks_run_in_order(
    no_hooks: bool,
    env: Option<Seq<char>>,
    added: Seq<Seq<char>>,
    hook: Seq<char>,
)
    ensures
        hook_chain(false, env, Seq::empty()) == set_hooks(env),
        hook_chain(true, env, Seq::empty()).len() == 0,
        trimmed(hook).len() > 0 ==> hook_chain(no_hooks, env, added.push(hook)) == hook_chain(
            no_hooks,
            env,
            added,
        ).push(normal_hook(trimmed(hook))),
        trimmed(hook).len() == 0 ==> hook_chain(no_hooks, env, added.push(hook)) == hook_chain(
            no_hooks,
            env,
            added,
        ),
{
    reveal(Seq::filter_map);
    let f = |h: Seq<char>| filled_hook(h);
    let none = Seq::<Seq<char>>::empty();
    assert(none.filter_map(f) =~= Seq::empty());
    assert(hook_chain(false, env, none) =~= set_hooks(env));
    let more = added.push(hook);
    assert(more.drop_last() =~= added);
    assert(more.last() == hook);
    if trimmed(hook).len() > 0 {
        assert(hook_chain(no_hooks, env, more) =~= hook_chain(no_hooks, env, added).push(
            normal_hook(trimmed(hook)),
        ));
    } else {
        assert(more.filter_map(f) == added.filter_map(f));
    }
}

/// A hook changes the transcript only where it succeeded and its file could be read: that is the
/// transcript from then on.
pub proof fn hooks_rewrite_the_transcript(current: Seq<char>, text: String, run: HookRun)
    ensures
        after_hook(current, HookRun::Done(Some(text))) == text@,
        !(run matches HookRun::Done(Some(_))) ==> after_hook(current, run) == current,
{
}

/// The list of hooks numbers them from one.
pub proof fn listed_hooks_are_numbered(hooks: Seq<Seq<char>>, hook: Seq<char>)
    ensures
        hook_lines(hooks.push(hook), hooks.len() + 1int) == hook_lines(hooks, hooks.len() as int)
            + "hook "@ + decimal(hooks.len() + 1) + ": "@ + hook + "\n"@,
        hook_lines(hooks, 0).len() == 0,
{
    lemma_hook_lines_prefix(hooks, hook, hooks.len() as int);
}

proof fn lemma_hook_lines_prefix(hooks: Seq<Seq<char>>, hook: Seq<char>, n: int)
    requires
        0 <= n <= hooks.len(),
    ensures
        hook_lines(hooks.push(hook), n) == hook_lines(hooks, n),
    decreases n,
{
    if n > 0 {
        lemma_hook_lines_prefix(hooks, hook, n - 1);
    }
}

/// What is not transcribed says why, and each way of transcribing goes by a name.
pub proof fn untranscribed_recordings_say_why(audio: Seq<char>, cmd: String)
    ensures
        idle_pairs(Plan::DryRun, audio) matches Some(p) && text_field(
            Tree::Object(object_of(p)),
            "status"@,
        ) == Some("dry_run"@) && text_field(Tree::Object(object_of(p)), "reason"@) == Some(
            "transcription skipped"@,
        ),
        idle_pairs(Plan::MissingAudio, audio) matches Some(p) && text_field(
            Tree::Object(object_of(p)),
            "status"@,
        ) == Some("missing_audio"@) && text_field(Tree::Object(object_of(p)), "reason"@) == Some(
            "Audio file not found: "@ + audio,
        ),
        idle_pairs(Plan::NotConfigured, audio) matches Some(p) && text_field(
            Tree::Object(object_of(p)),
            "status"@,
        ) == Some("skipped"@) && text_field(Tree::Object(object_of(p)), "reason"@) == Some(
            "No transcription configured. Set --parakeet-script or RIFF_PARAKEET_SCRIPT, or use --transcribe-cmd."@,
        ),
        idle_pairs(Plan::Command(cmd), audio) is None,
        idle_pairs(Plan::Script(cmd), audio) is None,
        path_name(Plan::DryRun) == "dry_run"@,
        path_name(Plan::MissingAudio) == "missing_audio"@,
        path_name(Plan::Command(cmd)) == "custom_command"@,
        path_name(Plan::Script(cmd)) == "parakeet"@,
        path_name(Plan::NotConfigured) == "parakeet"@,
{
    lemma_run_keys();
    let a = idle_pairs(Plan::DryRun, audio)->0;
    pairs_read_back(a, 0);
    pairs_read_back(a, 1);
    let b = idle_pairs(Plan::MissingAudio, audio)->0;
    pairs_read_back(b, 0);
    pairs_read_back(b, 1);
    let c = idle_pairs(Plan::NotConfigured, audio)->0;
    pairs_read_back(c, 0);
    pairs_read_back(c, 1);
}

/// A command refers to the recording, to the directory of the session and to the transcript in it.
pub proof fn transcripts_lie_in_their_session(audio: Seq<char>, dir: Seq<char>, p: TemplatePaths)
    requires
        session_paths(audio, dir, p),
        dir.len() > 0,
        dir.last() != '/',
    ensures
        p.audio@ == audio,
        p.session_dir@ == dir,
        p.out_txt@ == dir + seq!['/'] + "transcript.txt"@,
        p.out_base@ == dir + seq!['/'] + "transcript"@,
{
    reveal_strlit("transcript");
    reveal_strlit("transcript.txt");
    paths_join_with_one_slash(dir, "transcript"@);
    paths_join_with_one_slash(dir, "transcript.txt"@);
}

/// The command line that is recorded of a script names the interpreter, the script, the recording,
/// where the text goes and the model, each as a shell reads it back.
pub proof fn script_lines_name_everything(
    python: Seq<char>,
    script: Seq<char>,
    audio: Seq<char>,
    out_txt: Seq<char>,
    model: Seq<char>,
)
    ensures
        script_line(python, script, audio, out_txt, model) == escaped(python) + " "@ + escaped(
            script,
        ) + " --audio "@ + escaped(audio) + " --out-txt "@ + escaped(out_txt) + " --model "@
            + escaped(model),
{
}

/// What is said of a hook is which it was and how it went, with how long the text is that it left or
/// what went wrong.
pub proof fn hooks_are_reported(
    hook: Seq<char>,
    out: Option<String>,
    code: Option<i64>,
    stderr: String,
    e: String,
    after: Seq<char>,
)
    ensures
        ({
            let done = Tree::Object(object_of(hook_pairs(hook, HookRun::Done(out), after)));
            let failed = Tree::Object(
                object_of(hook_pairs(hook, HookRun::Failed(code, stderr), after)),
            );
            let unrun = Tree::Object(object_of(hook_pairs(hook, HookRun::NotRun(e), after)));
            &&& text_field(done, "hook"@) == Some(hook) && text_field(done, "status"@) == Some(
                "ok"@,
            ) && field(done, "chars"@) == Some(count_tree(after.len()))
            &&& text_field(failed, "hook"@) == Some(hook) && text_field(failed, "status"@) == Some(
                "error"@,
            ) && field(failed, "returncode"@) == Some(opt_int_tree(code)) && text_field(
                failed,
                "stderr"@,
            ) == Some(trimmed(stderr@))
            &&& text_field(unrun, "hook"@) == Some(hook) && text_field(unrun, "status"@) == Some(
                "error"@,
            ) && text_field(unrun, "reason"@) == Some("Failed to spawn shell command: "@ + e@)
        }),
{
    lemma_run_keys();
    reveal_strlit("hook");
    reveal_strlit("chars");
    assert("hook"@.len() == 4 && "chars"@.len() == 5);
    let d = hook_pairs(hook, HookRun::Done(out), after);
    pairs_read_back(d, 0);
    pairs_read_back(d, 1);
    pairs_read_back(d, 2);
    let f = hook_pairs(hook, HookRun::Failed(code, stderr), after);
    pairs_read_back(f, 0);
    pairs_read_back(f, 1);
    pairs_read_back(f, 2);
    pairs_read_back(f, 3);
    let u = hook_pairs(hook, HookRun::NotRun(e), after);
    pairs_read_back(u, 0);
    pairs_read_back(u, 1);
    pairs_read_back(u, 2);
}

/// What was skipped says so, and why.
pub proof fn skipped_work_says_why(reason: Seq<char>)
    ensures
        text_field(skipped(reason), "status"@) == Some("skipped"@),
        text_field(skipped(reason), "reason"@) == Some(reason),
        or_none(None) == "none"@,
        or_none(Some(reason)) == reason,
{
    lemma_run_keys();
    let p = seq![("status"@, Tree::Text("skipped"@)), ("reason"@, Tree::Text(reason))];
    pairs_read_back(p, 0);
    pairs_read_back(p, 1);
}

/// A script is reported with what it was run with, or with how it failed and what it printed.
pub proof fn failed_scripts_are_reported(
    run: CommandRun,
    cmd: Seq<char>,
    script: Seq<char>,
    model: Seq<char>,
)
    ensures
        ({
            let t = Tree::Object(object_of(script_pairs(run, cmd, script, model)));
            &&& run is Done ==> text_field(t, "script"@) == Some(script) && text_field(t, "model"@)
                == Some(model)
            &&& run matches CommandRun::Failed(code, signal, stderr, stdout) ==> field(
                t,
                "returncode"@,
            ) == Some(opt_int_tree(code)) && field(t, "signal"@) == Some(opt_int_tree(signal))
                && text_field(t, "stderr"@) == Some(trimmed(stderr@)) && text_field(t, "stdout"@)
                == Some(trimmed(stdout@))
            &&& run matches CommandRun::NotRun(e) ==> text_field(t, "reason"@) == Some(
                "Failed to run python transcription: "@ + e@,
            )
        }),
{
    lemma_run_keys();
    reveal_strlit("stderr");
    reveal_strlit("stdout");
    reveal_strlit("signal");
    assert("stderr"@[3] == 'e' && "stdout"@[3] == 'o' && "signal"@[1] == 'i' && "stderr"@[1] == 't');
    let p = script_pairs(run, cmd, script, model);
    if run is Done {
        pairs_read_back(p, 3);
        pairs_read_back(p, 4);
    } else if run is Failed {
        assert("stdout"@[1] == 't');
        pairs_read_back(p, 3);
        pairs_read_back(p, 4);
        pairs_read_back(p, 5);
        pairs_read_back(p, 6);
    } else {
        pairs_read_back(p, 3);
    }
}

} // verus!
