//! Transcription engines: which one a session uses, and what they decide.

use vstd::prelude::*;

use crate::config::list_contains;
use crate::error::{app_error, AppError};
use crate::history::{has_type, is_type};
use crate::json::{
    field, int_json, int_tree, item_views, lookup, object_of, opt_view, pairs_read_back,
    put_is_found, str_view, text_field, with_entry, with_field, Json, Number, Pairs, Tree,
};
use crate::measure::Measure;
use crate::models::SessionState;
use crate::paths::{join_path, joined_path};
use crate::pattern::{join, joined, views};
use crate::text::{
    ascii_lower, concat, concat3, is_blank, lemma_already_trimmed, same, to_ascii_lower, trim,
    trimmed,
};
use crate::watcher::has_argument;

verus! {

// ---------------------------------------------------------------------------------------------
// Which engine
// ---------------------------------------------------------------------------------------------

/// The engines that there are.
pub const KNOWN_ENGINES: [&'static str; 2] = ["parakeet", "elevenlabs"];

/// A transcription engine.
#[derive(PartialEq, Eq, Structural, Clone, Copy, Debug)]
pub enum Engine {
    /// Local: transcribes what was recorded.
    Parakeet,
    /// Remote: transcribes while it is recorded.
    ElevenLabs,
}

/// The name of an engine.
pub open spec fn engine_name(e: Engine) -> Seq<char> {
    match e {
        Engine::Parakeet => "parakeet"@,
        Engine::ElevenLabs => "elevenlabs"@,
    }
}

impl Engine {
    /// The name of this engine.
    pub fn id(&self) -> (r: &'static str)
        ensures
            r@ == engine_name(*self),
    {
        match self {
            Engine::Parakeet => "parakeet",
            Engine::ElevenLabs => "elevenlabs",
        }
    }
}

/// An engine id, trimmed. A session that was recorded before there were engines has none: it is of
/// the local one.
pub open spec fn normal_engine_id(id: Seq<char>) -> Seq<char> {
    if trimmed(id).len() == 0 {
        "parakeet"@
    } else {
        trimmed(id)
    }
}

/// An engine id, trimmed, and the local engine where it is blank.
pub fn normalize_engine_id(id: &str) -> (r: String)
    ensures
        r@ == normal_engine_id(id@),
{
    let t = trim(id);
    if t.as_str().is_empty() {
        "parakeet".to_owned()
    } else {
        t
    }
}

/// The engine that an id stands for: the local one where there is no such engine.
pub open spec fn chosen_engine(id: Seq<char>) -> Engine {
    if normal_engine_id(id) == "elevenlabs"@ {
        Engine::ElevenLabs
    } else {
        Engine::Parakeet
    }
}

/// The engine with this id: the local one where there is no such engine.
pub fn engine_by_id(id: &str) -> (r: Engine)
    ensures
        r == chosen_engine(id@),
{
    if same(normalize_engine_id(id).as_str(), "elevenlabs") {
        Engine::ElevenLabs
    } else {
        Engine::Parakeet
    }
}

/// The engine of a session.
pub fn engine_for(state: &SessionState) -> (r: Engine)
    ensures
        r == chosen_engine(state.engine@),
{
    engine_by_id(state.engine.as_str())
}

/// A text, trimmed, where it is there and not blank.
pub open spec fn set_text(s: Option<Seq<char>>) -> Option<Seq<char>> {
    match s {
        Some(t) => if trimmed(t).len() == 0 {
            None
        } else {
            Some(trimmed(t))
        },
        None => None,
    }
}

/// A text, trimmed, where it is there and not blank.
pub fn read_setting(s: Option<&str>) -> (r: Option<String>)
    ensures
        opt_view(r) == set_text(str_view(s)),
{
    match s {
        Some(t) => {
            let v = trim(t);
            if v.as_str().is_empty() {
                None
            } else {
                Some(v)
            }
        },
        None => None,
    }
}

/// The engine that is asked for: by the flag, else by the environment, else the local one.
pub open spec fn requested_engine(flag: Option<Seq<char>>, env: Option<Seq<char>>) -> Seq<char> {
    match set_text(flag) {
        Some(v) => v,
        None => match set_text(env) {
            Some(v) => v,
            None => "parakeet"@,
        },
    }
}

/// Whether there is an engine of this name.
pub open spec fn is_known(name: Seq<char>) -> bool {
    name == "parakeet"@ || name == "elevenlabs"@
}

/// A text as it is shown to a programmer: in quotes, with what is special escaped.
pub uninterp spec fn debug_text(s: Seq<char>) -> Seq<char>;

/// Formatting of a text with `{:?}`: the result depends on the text alone.
#[verifier::external_body]
fn format_debug(s: &str) -> (r: String)
    ensures
        r@ == debug_text(s@),
{
    format!("{:?}", s)
}

/// The error where an engine is not known. `shown` is the name as it is shown to a programmer.
pub fn unknown_engine_error(shown: &str) -> (r: AppError)
    ensures
        r.code == 2,
        r.message@ == "Unknown transcription engine "@ + shown@
            + ". Known engines: parakeet, elevenlabs."@,
{
    app_error(
        2,
        concat3(
            "Unknown transcription engine ",
            shown,
            ". Known engines: parakeet, elevenlabs.",
        ).as_str(),
    )
}

/// The engine that is asked for, in lower case: by the flag, else by the environment, else the
/// local one. A name that is not known is an error.
pub fn resolve_engine_id(flag: Option<&str>, env: Option<&str>) -> (r: Result<String, AppError>)
    ensures
        ({
            let requested = requested_engine(str_view(flag), str_view(env));
            if is_known(ascii_lower(requested)) {
                r matches Ok(id) && id@ == ascii_lower(requested)
            } else {
                r matches Err(e) && e.code == 2 && e.message@ == "Unknown transcription engine "@
                    + debug_text(requested) + ". Known engines: parakeet, elevenlabs."@
            }
        }),
{
    let requested: String = match read_setting(flag) {
        Some(v) => v,
        None => match read_setting(env) {
            Some(v) => v,
            None => "parakeet".to_owned(),
        },
    };
    let lowered = to_ascii_lower(requested.as_str());
    if same(lowered.as_str(), KNOWN_ENGINES[0]) || same(lowered.as_str(), KNOWN_ENGINES[1]) {
        Ok(lowered)
    } else {
        Err(unknown_engine_error(format_debug(requested.as_str()).as_str()))
    }
}

// ---------------------------------------------------------------------------------------------
// The local engine
// ---------------------------------------------------------------------------------------------

/// Five hundredths of a second.
pub open spec fn smallest_span() -> Measure {
    Measure { bits: 0x3FA9_9999_9999_999A }
}

/// Whether a session was transcribed in chunks: something was transcribed while it was recorded, or
/// would have been.
pub open spec fn is_chunked(state: SessionState) -> bool {
    ||| state.transcription_watcher_pid is Some
    ||| smallest_span().key() < state.transcription_cursor_sec.key()
    ||| state.transcription_paused
}

/// Whether a session was transcribed in chunks. Only what is left is then transcribed at the end,
/// and else all of it.
pub fn uses_chunks(state: &SessionState) -> (r: bool)
    ensures
        r == is_chunked(*state),
{
    let span = Measure { bits: 0x3FA9_9999_9999_999A };
    state.transcription_watcher_pid.is_some() || span.less(&state.transcription_cursor_sec)
        || state.transcription_paused
}

/// What is said of what was left, where all was transcribed at the end.
pub fn full_transcription_meta() -> (r: Json)
    ensures
        r@ == Tree::Object(
            object_of(
                seq![
                    ("status"@, Tree::Text("skipped"@)),
                    ("reason"@, Tree::Text("full_transcribe_on_stop"@)),
                ],
            ),
        ),
{
    let mut p = Pairs::new();
    p.text("status", "skipped");
    p.text("reason", "full_transcribe_on_stop");
    assert(p@ == seq![
        ("status"@, Tree::Text("skipped"@)),
        ("reason"@, Tree::Text("full_transcribe_on_stop"@)),
    ]);
    p.object()
}

/// What is said of what was left, where it could not be transcribed.
pub fn failed_flush_meta(message: &str) -> (r: Json)
    ensures
        r@ == Tree::Object(
            object_of(
                seq![("status"@, Tree::Text("error"@)), ("reason"@, Tree::Text(message@))],
            ),
        ),
{
    let mut p = Pairs::new();
    p.text("status", "error");
    p.text("reason", message);
    assert(p@ == seq![("status"@, Tree::Text("error"@)), ("reason"@, Tree::Text(message@))]);
    p.object()
}

/// What the local engine says of a transcript: what `meta` says, how it ended, and what came of
/// what was left.
pub fn parakeet_stop_meta(
    meta: Json,
    forced_stop: bool,
    watcher_wait_ms: &Number,
    stop_flush_ms: &Number,
    stop_flush: Json,
) -> (r: Json)
    ensures
        r@ == with_entry(
            with_entry(
                with_entry(
                    with_entry(
                        with_entry(meta@, "engine"@, Tree::Text("parakeet"@)),
                        "forced_watcher_stop"@,
                        Tree::Bool(forced_stop),
                    ),
                    "watcher_wait_ms"@,
                    Tree::Number(watcher_wait_ms@),
                ),
                "stop_flush_ms"@,
                Tree::Number(stop_flush_ms@),
            ),
            "stop_flush"@,
            stop_flush@,
        ),
{
    let m = meta.with("engine", Json::text("parakeet"));
    let m = m.with("forced_watcher_stop", Json::Bool(forced_stop));
    let m = m.with("watcher_wait_ms", Json::Number(watcher_wait_ms.copy()));
    let m = m.with("stop_flush_ms", Json::Number(stop_flush_ms.copy()));
    m.with("stop_flush", stop_flush)
}

/// The arguments that cut a part out of a recording. The times are in seconds, with three decimals.
pub fn extract_args(source: &str, start: &str, duration: &str, target: &str) -> (r: Vec<String>)
    ensures
        views(r@) == seq![
            "-hide_banner"@,
            "-loglevel"@,
            "error"@,
            "-y"@,
            "-ss"@,
            start@,
            "-t"@,
            duration@,
            "-i"@,
            source@,
            "-ac"@,
            "1"@,
            "-ar"@,
            "16000"@,
            "-c:a"@,
            "pcm_s16le"@,
            target@,
        ],
{
    let r: Vec<String> = vec![
        "-hide_banner".to_owned(),
        "-loglevel".to_owned(),
        "error".to_owned(),
        "-y".to_owned(),
        "-ss".to_owned(),
        start.to_owned(),
        "-t".to_owned(),
        duration.to_owned(),
        "-i".to_owned(),
        source.to_owned(),
        "-ac".to_owned(),
        "1".to_owned(),
        "-ar".to_owned(),
        "16000".to_owned(),
        "-c:a".to_owned(),
        "pcm_s16le".to_owned(),
        target.to_owned(),
    ];
    assert(views(r@) =~= seq![
        "-hide_banner"@,
        "-loglevel"@,
        "error"@,
        "-y"@,
        "-ss"@,
        start@,
        "-t"@,
        duration@,
        "-i"@,
        source@,
        "-ac"@,
        "1"@,
        "-ar"@,
        "16000"@,
        "-c:a"@,
        "pcm_s16le"@,
        target@,
    ]);
    r
}

/// Whether a part of a recording can be cut out, and was.
pub enum ExtractStep {
    /// The end is not behind the start.
    BadSpan,
    /// The tool could not be run.
    NotRun(String),
    /// The tool failed, or left nothing.
    Failed(String),
    /// The part is there.
    Done,
}

/// What is made of the attempt to cut out a part of a recording.
pub fn extract_result(step: &ExtractStep) -> (r: Result<(), AppError>)
    ensures
        r is Ok <==> *step is Done,
        r matches Err(e) ==> e.code == 1 && e.message@ == match *step {
            ExtractStep::BadSpan => {
                "Invalid chunk boundary: end <= start for audio segment extract."@
            },
            ExtractStep::NotRun(m) => "Failed to run ffmpeg for chunk extract: "@ + m@,
            ExtractStep::Failed(stderr) => "ffmpeg chunk extract failed: "@ + trimmed(stderr@),
            ExtractStep::Done => Seq::empty(),
        },
{
    match step {
        ExtractStep::BadSpan => Err(
            app_error(1, "Invalid chunk boundary: end <= start for audio segment extract."),
        ),
        ExtractStep::NotRun(m) => Err(
            app_error(1, concat("Failed to run ffmpeg for chunk extract: ", m.as_str()).as_str()),
        ),
        ExtractStep::Failed(stderr) => Err(
            app_error(
                1,
                concat("ffmpeg chunk extract failed: ", trim(stderr.as_str()).as_str()).as_str(),
            ),
        ),
        ExtractStep::Done => Ok(()),
    }
}

/// The arguments of a transcription of one recording.
pub fn one_shot_args(script: &str, audio: &str, out_txt: &str, model: &str) -> (r: Vec<String>)
    ensures
        views(r@) == seq![
            script@,
            "--audio"@,
            audio@,
            "--out-txt"@,
            out_txt@,
            "--model"@,
            model@,
        ],
{
    let r: Vec<String> = vec![
        script.to_owned(),
        "--audio".to_owned(),
        audio.to_owned(),
        "--out-txt".to_owned(),
        out_txt.to_owned(),
        "--model".to_owned(),
        model.to_owned(),
    ];
    assert(views(r@) =~= seq![
        script@,
        "--audio"@,
        audio@,
        "--out-txt"@,
        out_txt@,
        "--model"@,
        model@,
    ]);
    r
}

/// How a transcription of one recording ended.
pub enum OneShot {
    /// It succeeded; the text that it left in its file, where it did, and what it printed.
    Done(Option<String>, String),
    /// It failed, with this exit code, and printed this.
    Failed(Option<i64>, String, String),
    /// It could not be run.
    NotRun(String),
}

/// What is said of a transcription of one recording.
pub open spec fn one_shot_pairs(run: OneShot, model: Seq<char>, script: Seq<char>) -> Seq<
    (Seq<char>, Tree),
> {
    match run {
        OneShot::Done(_, _) => seq![
            ("status"@, Tree::Text("ok"@)),
            ("method"@, Tree::Text("parakeet_python"@)),
            ("model"@, Tree::Text(model)),
            ("script"@, Tree::Text(script)),
        ],
        OneShot::Failed(code, stderr, stdout) => seq![
            ("status"@, Tree::Text("error"@)),
            ("method"@, Tree::Text("parakeet_python"@)),
            ("returncode"@, crate::daemon::opt_int_tree(code)),
            ("stderr"@, Tree::Text(trimmed(stderr@))),
            ("stdout"@, Tree::Text(trimmed(stdout@))),
        ],
        OneShot::NotRun(e) => seq![
            ("status"@, Tree::Text("error"@)),
            ("method"@, Tree::Text("parakeet_python"@)),
            ("reason"@, Tree::Text("Failed to run python transcription: "@ + e@)),
        ],
    }
}

/// The text of a transcription of one recording: that of its file, else what it printed, trimmed.
pub open spec fn one_shot_text(run: OneShot) -> Seq<char> {
    match run {
        OneShot::Done(Some(file), _) => trimmed(file@),
        OneShot::Done(None, stdout) => trimmed(stdout@),
        _ => Seq::empty(),
    }
}

/// What a transcription of one recording gives. Where a server was tried before and failed,
/// `server_error` says how.
pub fn one_shot_result(
    run: &OneShot,
    model: &str,
    script: &str,
    server_error: Option<Json>,
) -> (r: (String, Json))
    ensures
        r.0@ == one_shot_text(*run),
        r.1@ == match server_error {
            Some(e) => with_entry(
                Tree::Object(object_of(one_shot_pairs(*run, model@, script@))),
                "server_fallback"@,
                e@,
            ),
            None => Tree::Object(object_of(one_shot_pairs(*run, model@, script@))),
        },
{
    let mut p = Pairs::new();
    let text: String;
    match run {
        OneShot::Done(file, stdout) => {
            text = match file {
                Some(f) => trim(f.as_str()),
                None => trim(stdout.as_str()),
            };
            p.text("status", "ok");
            p.text("method", "parakeet_python");
            p.text("model", model);
            p.text("script", script);
        },
        OneShot::Failed(code, stderr, stdout) => {
            text = String::new();
            let err = trim(stderr.as_str());
            let out = trim(stdout.as_str());
            p.text("status", "error");
            p.text("method", "parakeet_python");
            p.add("returncode", crate::daemon::opt_int_json(*code));
            p.text("stderr", err.as_str());
            p.text("stdout", out.as_str());
        },
        OneShot::NotRun(e) => {
            text = String::new();
            let reason = concat("Failed to run python transcription: ", e.as_str());
            p.text("status", "error");
            p.text("method", "parakeet_python");
            p.text("reason", reason.as_str());
        },
    }
    assert(p@ == one_shot_pairs(*run, model@, script@));
    let meta = p.object();
    match server_error {
        Some(e) => (text, meta.with("server_fallback", e)),
        None => (text, meta),
    }
}

/// What is said where no transcriber is set up.
pub fn no_script_meta() -> (r: Json)
    ensures
        r@ == Tree::Object(
            object_of(
                seq![
                    ("status"@, Tree::Text("skipped"@)),
                    (
                        "reason"@,
                        Tree::Text(
                            "No transcription configured. Set RIFF_PARAKEET_SCRIPT or use --parakeet-script."@,
                        ),
                    ),
                ],
            ),
        ),
{
    let mut p = Pairs::new();
    p.text("status", "skipped");
    p.text(
        "reason",
        "No transcription configured. Set RIFF_PARAKEET_SCRIPT or use --parakeet-script.",
    );
    assert(p@ == seq![
        ("status"@, Tree::Text("skipped"@)),
        (
            "reason"@,
            Tree::Text(
                "No transcription configured. Set RIFF_PARAKEET_SCRIPT or use --parakeet-script."@,
            ),
        ),
    ]);
    p.object()
}

// ---------------------------------------------------------------------------------------------
// The streaming engine
// ---------------------------------------------------------------------------------------------

/// The model that the stream is transcribed with.
pub fn model_id(set: Option<&str>) -> (r: String)
    ensures
        r@ == match set_text(str_view(set)) {
            Some(v) => v,
            None => "scribe_v2_realtime"@,
        },
{
    match read_setting(set) {
        Some(v) => v,
        None => "scribe_v2_realtime".to_owned(),
    }
}

/// The key of the service, where one is set.
pub open spec fn api_key_of(own: Option<Seq<char>>, shared: Option<Seq<char>>) -> Option<
    Seq<char>,
> {
    match set_text(own) {
        Some(k) => Some(k),
        None => set_text(shared),
    }
}

/// The key of the service. `own` is the setting of this program, `shared` that of the service.
pub fn require_api_key(own: Option<&str>, shared: Option<&str>) -> (r: Result<String, AppError>)
    ensures
        match api_key_of(str_view(own), str_view(shared)) {
            Some(k) => r matches Ok(v) && v@ == k,
            None => r matches Err(e) && e.code == 2 && e.message@
                == "ElevenLabs engine requires an API key. Set RIFF_ELEVENLABS_API_KEY (or ELEVENLABS_API_KEY)."@,
        },
{
    match read_setting(own) {
        Some(k) => Ok(k),
        None => match read_setting(shared) {
            Some(k) => Ok(k),
            None => Err(
                app_error(
                    2,
                    "ElevenLabs engine requires an API key. Set RIFF_ELEVENLABS_API_KEY (or ELEVENLABS_API_KEY).",
                ),
            ),
        },
    }
}

/// The script that streams: the one that is set, where it is there, else the one that comes with
/// the program, where it is there. Each comes with whether it is there.
pub fn require_stream_script(
    explicit: Option<(&str, bool)>,
    resource_dir: Option<(&str, bool)>,
) -> (r: Result<String, AppError>)
    ensures
        match (explicit, resource_dir) {
            (Some((p, true)), _) => r matches Ok(v) && v@ == trimmed(p@),
            (_, Some((d, true))) => r matches Ok(v) && v@ == joined_path(
                joined_path(d@, "scripts"@),
                "elevenlabs_stream.py"@,
            ),
            _ => r matches Err(e) && e.code == 2 && e.message@
                == "Could not locate elevenlabs_stream.py. Set RIFF_ELEVENLABS_SCRIPT to its path."@,
        },
{
    if let Some((path, there)) = explicit {
        if there {
            return Ok(trim(path));
        }
    }
    if let Some((dir, there)) = resource_dir {
        if there {
            return Ok(
                join_path(join_path(dir, "scripts").as_str(), "elevenlabs_stream.py"),
            );
        }
    }
    Err(
        app_error(
            2,
            "Could not locate elevenlabs_stream.py. Set RIFF_ELEVENLABS_SCRIPT to its path.",
        ),
    )
}

/// When a part of the stream is final: where the service hears a pause, unless it is set otherwise.
pub fn commit_strategy(set: Option<&str>) -> (r: String)
    ensures
        r@ == match set {
            Some(v) => if ascii_lower(trimmed(v@)) == "manual"@ {
                "manual"@
            } else {
                "vad"@
            },
            None => "vad"@,
        },
{
    if let Some(v) = set {
        if same(to_ascii_lower(trim(v).as_str()).as_str(), "manual") {
            return "manual".to_owned();
        }
    }
    "vad".to_owned()
}

/// The interpreters that may run the stream, in the order in which they are tried.
pub open spec fn stream_interpreters(explicit: Option<Seq<char>>, resolved: Seq<char>) -> Seq<
    Seq<char>,
> {
    (match set_text(explicit) {
        Some(e) => seq![e],
        None => Seq::empty(),
    }) + seq![resolved, "python3.12"@, "python3.11"@, "python3.13"@, "python3"@]
}

/// The interpreters that may run the stream, in the order in which they are tried.
pub fn stream_python_candidates(explicit: Option<&str>, resolved: &str) -> (r: Vec<String>)
    ensures
        views(r@) == stream_interpreters(str_view(explicit), resolved@),
{
    let mut out: Vec<String> = Vec::new();
    if let Some(e) = read_setting(explicit) {
        out.push(e);
    }
    out.push(resolved.to_owned());
    out.push("python3.12".to_owned());
    out.push("python3.11".to_owned());
    out.push("python3.13".to_owned());
    out.push("python3".to_owned());
    assert(views(out@) =~= stream_interpreters(str_view(explicit), resolved@));
    out
}

/// What an interpreter answers when it is asked for the package that the stream needs.
#[derive(PartialEq, Eq, Structural, Clone, Copy, Debug)]
pub enum Probe {
    Found,
    Lacking,
    Absent,
}

/// The search for an interpreter that can run the stream. Those that lack the package are kept.
pub struct StreamPythonSearch {
    pub tried: Vec<String>,
}

impl StreamPythonSearch {
    /// A search that has not begun.
    pub fn new() -> (r: StreamPythonSearch)
        ensures
            views(r.tried@) == Seq::<Seq<char>>::empty(),
    {
        let r = StreamPythonSearch { tried: Vec::new() };
        assert(views(r.tried@) =~= Seq::empty());
        r
    }

    /// Whether an interpreter is worth asking: not where it was found to lack the package.
    pub fn wants(&self, candidate: &str) -> (r: bool)
        ensures
            r == !views(self.tried@).contains(candidate@),
    {
        !list_contains(&self.tried, candidate)
    }

    /// Takes in what an interpreter answered. The search is over where it has the package.
    pub fn note(&mut self, candidate: &str, probe: Probe) -> (r: bool)
        ensures
            r == (probe == Probe::Found),
            views(final(self).tried@) == if probe == Probe::Lacking && !views(
                old(self).tried@,
            ).contains(candidate@) {
                views(old(self).tried@).push(candidate@)
            } else {
                views(old(self).tried@)
            },
    {
        match probe {
            Probe::Found => true,
            Probe::Lacking => {
                if !list_contains(&self.tried, candidate) {
                    self.tried.push(candidate.to_owned());
                    assert(views(self.tried@) =~= views(old(self).tried@).push(candidate@));
                }
                false
            },
            Probe::Absent => false,
        }
    }
}

/// The error where no interpreter has the package that the stream needs. It names the first that
/// lacks it, else the one that the program would use.
pub fn stream_python_error(tried: &Vec<String>, resolved: &str) -> (r: AppError)
    ensures
        r.code == 2,
        r.message@
            == "The ElevenLabs engine needs the 'websockets' package, but none of the interpreters riff can use has it installed"@
            + (if tried@.len() == 0 {
            Seq::<char>::empty()
        } else {
            " (tried: "@ + joined(views(tried@), ", "@) + ")"@
        }) + ".\n\nInstall it into the interpreter riff actually runs:\n    \""@ + (if tried@.len()
            == 0 {
            resolved@
        } else {
            tried@[0]@
        })
            + "\" -m pip install -r scripts/elevenlabs-requirements.txt\n\nNote that a bare `pip install` targets whichever python owns your PATH's pip, which is often a different interpreter. Set RIFF_ELEVENLABS_PYTHON to choose one explicitly."@,
{
    let mut m =
        "The ElevenLabs engine needs the 'websockets' package, but none of the interpreters riff can use has it installed".to_owned();
    let list: String = if tried.len() == 0 {
        String::new()
    } else {
        concat3(" (tried: ", join(tried, ", ").as_str(), ")")
    };
    m.append(list.as_str());
    m.append(".\n\nInstall it into the interpreter riff actually runs:\n    \"");
    m.append(
        if tried.len() == 0 {
            resolved
        } else {
            tried[0].as_str()
        },
    );
    m.append(
        "\" -m pip install -r scripts/elevenlabs-requirements.txt\n\nNote that a bare `pip install` targets whichever python owns your PATH's pip, which is often a different interpreter. Set RIFF_ELEVENLABS_PYTHON to choose one explicitly.",
    );
    app_error(2, m.as_str())
}

/// What the stream is told. The key of the service is not among it.
pub struct StreamSettings<'a> {
    pub model_id: &'a str,
    pub commit_strategy: &'a str,
    pub language: Option<&'a str>,
    pub ws_url: Option<&'a str>,
}

/// An option with its value, where that is there and not blank.
pub open spec fn optional_arg(name: Seq<char>, value: Option<Seq<char>>) -> Seq<Seq<char>> {
    match value {
        Some(v) => if trimmed(v).len() == 0 {
            Seq::empty()
        } else {
            seq![name, v]
        },
        None => Seq::empty(),
    }
}

/// The arguments of the stream.
pub open spec fn stream_arguments(script: Seq<char>, state: SessionState, s: StreamSettings) -> Seq<
    Seq<char>,
> {
    seq![
        script,
        "--audio"@,
        state.audio_path@,
        "--session-dir"@,
        state.session_dir@,
        "--events-path"@,
        state.events_path@,
        "--model-id"@,
        s.model_id@,
        "--sample-rate"@,
        "16000"@,
        "--commit-strategy"@,
        s.commit_strategy@,
    ] + optional_arg("--language-code"@, str_view(s.language)) + optional_arg(
        "--ws-url"@,
        str_view(s.ws_url),
    )
}

fn push_optional(out: &mut Vec<String>, name: &str, value: Option<&str>)
    ensures
        views(final(out)@) == views(old(out)@) + optional_arg(name@, str_view(value)),
{
    if let Some(v) = value {
        if !is_blank(v) {
            out.push(name.to_owned());
            out.push(v.to_owned());
        }
    }
    assert(views(out@) =~= views(old(out)@) + optional_arg(name@, str_view(value)));
}

/// The arguments of the stream. The key of the service goes through the environment: what stands on
/// a command line is there for all to see.
pub fn stream_args(script: &str, state: &SessionState, settings: &StreamSettings) -> (r: Vec<
    String,
>)
    ensures
        views(r@) == stream_arguments(script@, *state, *settings),
{
    let mut out: Vec<String> = vec![
        script.to_owned(),
        "--audio".to_owned(),
        state.audio_path.clone(),
        "--session-dir".to_owned(),
        state.session_dir.clone(),
        "--events-path".to_owned(),
        state.events_path.clone(),
        "--model-id".to_owned(),
        settings.model_id.to_owned(),
        "--sample-rate".to_owned(),
        "16000".to_owned(),
        "--commit-strategy".to_owned(),
        settings.commit_strategy.to_owned(),
    ];
    assert(views(out@) =~= seq![
        script@,
        "--audio"@,
        state.audio_path@,
        "--session-dir"@,
        state.session_dir@,
        "--events-path"@,
        state.events_path@,
        "--model-id"@,
        settings.model_id@,
        "--sample-rate"@,
        "16000"@,
        "--commit-strategy"@,
        settings.commit_strategy@,
    ]);
    push_optional(&mut out, "--language-code", settings.language);
    push_optional(&mut out, "--ws-url", settings.ws_url);
    out
}

/// The event that says that the stream runs.
pub fn stream_started_event(ts: &str, pid: i32, model_id: &str, script: &str, log_path: &str) -> (r:
    Json)
    ensures
        r@ == Tree::Object(
            object_of(
                seq![
                    ("ts"@, Tree::Text(ts@)),
                    ("type"@, Tree::Text("elevenlabs_stream_started"@)),
                    ("pid"@, int_tree(pid as int)),
                    ("model_id"@, Tree::Text(model_id@)),
                    ("script"@, Tree::Text(script@)),
                    ("log_path"@, Tree::Text(log_path@)),
                ],
            ),
        ),
{
    let mut p = Pairs::new();
    p.text("ts", ts);
    p.text("type", "elevenlabs_stream_started");
    p.add("pid", int_json(pid as i64));
    p.text("model_id", model_id);
    p.text("script", script);
    p.text("log_path", log_path);
    assert(p@ == seq![
        ("ts"@, Tree::Text(ts@)),
        ("type"@, Tree::Text("elevenlabs_stream_started"@)),
        ("pid"@, int_tree(pid as int)),
        ("model_id"@, Tree::Text(model_id@)),
        ("script"@, Tree::Text(script@)),
        ("log_path"@, Tree::Text(log_path@)),
    ]);
    p.object()
}

/// The process of the stream that can be asked to commit, where it runs.
pub fn running_stream(state: &SessionState, alive: bool) -> (r: Option<i32>)
    ensures
        r == if alive {
            state.transcription_watcher_pid
        } else {
            None
        },
{
    if alive {
        state.transcription_watcher_pid
    } else {
        None
    }
}

/// What the caller is told of a chunk where the stream does not run.
pub fn stream_not_running(reason: &str) -> (r: Json)
    ensures
        r@ == Tree::Object(
            object_of(
                seq![
                    ("status"@, Tree::Text("error"@)),
                    ("reason"@, Tree::Text("stream_sidecar_not_running"@)),
                    ("requested_reason"@, Tree::Text(reason@)),
                ],
            ),
        ),
{
    let mut p = Pairs::new();
    p.text("status", "error");
    p.text("reason", "stream_sidecar_not_running");
    p.text("requested_reason", reason);
    assert(p@ == seq![
        ("status"@, Tree::Text("error"@)),
        ("reason"@, Tree::Text("stream_sidecar_not_running"@)),
        ("requested_reason"@, Tree::Text(reason@)),
    ]);
    p.object()
}

/// What the caller is told of a chunk that the stream was asked to commit. The seconds are rounded
/// to milliseconds.
pub fn stream_chunk_result(
    reason: &str,
    start_sec: &Number,
    end_sec: &Number,
    observed: bool,
) -> (r: Json)
    ensures
        r@ == Tree::Object(
            object_of(
                seq![
                    (
                        "status"@,
                        Tree::Text(
                            if observed {
                                "ok"@
                            } else {
                                "pending"@
                            },
                        ),
                    ),
                    ("reason"@, Tree::Text(reason@)),
                    ("mode"@, Tree::Text("stream"@)),
                    ("start_sec"@, Tree::Number(start_sec@)),
                    ("end_sec"@, Tree::Number(end_sec@)),
                    ("committed"@, Tree::Bool(observed)),
                ],
            ),
        ),
{
    let status: &str = if observed {
        "ok"
    } else {
        "pending"
    };
    let mut p = Pairs::new();
    p.text("status", status);
    p.text("reason", reason);
    p.text("mode", "stream");
    p.number("start_sec", start_sec);
    p.number("end_sec", end_sec);
    p.flag("committed", observed);
    assert(p@ == seq![
        (
            "status"@,
            Tree::Text(
                if observed {
                    "ok"@
                } else {
                    "pending"@
                },
            ),
        ),
        ("reason"@, Tree::Text(reason@)),
        ("mode"@, Tree::Text("stream"@)),
        ("start_sec"@, Tree::Number(start_sec@)),
        ("end_sec"@, Tree::Number(end_sec@)),
        ("committed"@, Tree::Bool(observed)),
    ]);
    p.object()
}

/// How the stream of a session ended.
pub enum StreamEnd {
    /// It never ran.
    NeverRan,
    /// It ended before the session did.
    Exited,
    /// It could not be asked for the last commit.
    SignalFailed(String),
    /// It made the last commit.
    Finished,
    /// It did not make the last commit in time.
    TimedOut,
}

/// What went wrong at the end of a stream, where something did.
pub open spec fn stream_end_detail(end: StreamEnd) -> Option<Seq<char>> {
    match end {
        StreamEnd::NeverRan => Some("No stream sidecar was running for this session."@),
        StreamEnd::Exited => Some("Stream sidecar exited before stop."@),
        StreamEnd::SignalFailed(e) => Some("Failed to signal sidecar: "@ + e@),
        StreamEnd::Finished => None,
        StreamEnd::TimedOut => Some("Sidecar did not finish final commit in time."@),
    }
}

/// The events that say that the stream failed.
pub fn collect_stream_errors(events: &Vec<Json>) -> (r: Vec<Json>)
    ensures
        item_views(r@) == item_views(events@).filter(
            |e: Tree| is_type(e, "elevenlabs_stream_error"@),
        ),
{
    let ghost all = item_views(events@);
    let ghost keep = |e: Tree| is_type(e, "elevenlabs_stream_error"@);
    let mut out: Vec<Json> = Vec::new();
    let mut i: usize = 0;
    proof {
        reveal(Seq::filter);
    }
    assert(item_views(out@) =~= all.subrange(0, 0).filter(keep));
    while i < events.len()
        invariant
            i <= events.len(),
            all == item_views(events@),
            keep == (|e: Tree| is_type(e, "elevenlabs_stream_error"@)),
            item_views(out@) == all.subrange(0, i as int).filter(keep),
        decreases events.len() - i,
    {
        let ghost before = out@;
        proof {
            assert(all.subrange(0, i + 1).drop_last() == all.subrange(0, i as int));
            assert(all.subrange(0, i + 1).last() == events@[i as int]@);
            reveal(Seq::filter);
        }
        if has_type(&events[i], "elevenlabs_stream_error") {
            let e = events[i].copy();
            let ghost ev = e@;
            out.push(e);
            assert(item_views(out@) =~= item_views(before).push(ev));
        }
        assert(item_views(out@) =~= all.subrange(0, i + 1).filter(keep));
        i = i + 1;
    }
    assert(all.subrange(0, all.len() as int) =~= all);
    out
}

/// What the streaming engine says of a transcript. A stream that ended badly, or that reported an
/// error, makes it an error: a part that looks like the whole is worse than a failure.
pub open spec fn stream_meta(
    meta: Tree,
    model: Seq<char>,
    finalize_ms: Number,
    end: StreamEnd,
    errors: Seq<Tree>,
    transcript: Seq<char>,
) -> Tree {
    let detail = stream_end_detail(end);
    let a = with_entry(meta, "engine"@, Tree::Text("elevenlabs"@));
    let b = with_entry(a, "model_id"@, Tree::Text(model));
    let c = with_entry(b, "finalize_ms"@, Tree::Number(finalize_ms@));
    let d = with_entry(
        c,
        "finalize_status"@,
        Tree::Text(
            if detail is None {
                "ok"@
            } else {
                "error"@
            },
        ),
    );
    let e = match detail {
        Some(t) => with_entry(d, "finalize_detail"@, Tree::Text(t)),
        None => d,
    };
    let f = if errors.len() > 0 {
        with_entry(e, "stream_errors"@, Tree::List(errors))
    } else {
        e
    };
    if detail is Some || errors.len() > 0 {
        with_entry(
            with_entry(f, "status"@, Tree::Text("error"@)),
            "partial"@,
            Tree::Bool(transcript.len() > 0),
        )
    } else {
        f
    }
}

/// What the streaming engine says of a transcript.
pub fn stream_stop_meta(
    meta: Json,
    model_id: &str,
    finalize_ms: &Number,
    end: &StreamEnd,
    errors: Vec<Json>,
    transcript: &str,
) -> (r: Json)
    ensures
        r@ == stream_meta(
            meta@,
            model_id@,
            *finalize_ms,
            *end,
            item_views(errors@),
            transcript@,
        ),
{
    let detail: Option<String> = match end {
        StreamEnd::NeverRan => {
            Some("No stream sidecar was running for this session.".to_owned())
        },
        StreamEnd::Exited => Some("Stream sidecar exited before stop.".to_owned()),
        StreamEnd::SignalFailed(e) => Some(concat("Failed to signal sidecar: ", e.as_str())),
        StreamEnd::Finished => None,
        StreamEnd::TimedOut => Some("Sidecar did not finish final commit in time.".to_owned()),
    };
    let failed = detail.is_some() || errors.len() > 0;
    let has_errors = errors.len() > 0;
    assert(item_views(errors@).len() == errors@.len());
    let m = meta.with("engine", Json::text("elevenlabs"));
    let m = m.with("model_id", Json::text(model_id));
    let m = m.with("finalize_ms", Json::Number(finalize_ms.copy()));
    let m = m.with(
        "finalize_status",
        Json::text(
            if detail.is_none() {
                "ok"
            } else {
                "error"
            },
        ),
    );
    let m = match &detail {
        Some(t) => m.with("finalize_detail", Json::text(t.as_str())),
        None => m,
    };
    let m = if has_errors {
        m.with("stream_errors", Json::list(errors))
    } else {
        m
    };
    if failed {
        let m = m.with("status", Json::text("error"));
        m.with("partial", Json::Bool(!transcript.is_empty()))
    } else {
        m
    }
}

/// A stream that ended badly, or reported an error, is never taken for a success.
pub proof fn stream_failures_are_loud(
    fields: Seq<(Seq<char>, Tree)>,
    model: Seq<char>,
    finalize_ms: Number,
    end: StreamEnd,
    errors: Seq<Tree>,
    transcript: Seq<char>,
)
    requires
        stream_end_detail(end) is Some || errors.len() > 0,
    ensures
        text_field(
            stream_meta(Tree::Object(fields), model, finalize_ms, end, errors, transcript),
            "status"@,
        ) == Some("error"@),
{
    let detail = stream_end_detail(end);
    let a = with_field(fields, "engine"@, Tree::Text("elevenlabs"@));
    let b = with_field(a, "model_id"@, Tree::Text(model));
    let c = with_field(b, "finalize_ms"@, Tree::Number(finalize_ms@));
    let d = with_field(
        c,
        "finalize_status"@,
        Tree::Text(
            if detail is None {
                "ok"@
            } else {
                "error"@
            },
        ),
    );
    let e = match detail {
        Some(t) => with_field(d, "finalize_detail"@, Tree::Text(t)),
        None => d,
    };
    let f = if errors.len() > 0 {
        with_field(e, "stream_errors"@, Tree::List(errors))
    } else {
        e
    };
    let g = with_field(f, "status"@, Tree::Text("error"@));
    put_is_found(f, "status"@, Tree::Text("error"@), "status"@);
    let partial = Tree::Bool(transcript.len() > 0);
    put_is_found(g, "partial"@, partial, "status"@);
    reveal_strlit("status");
    reveal_strlit("partial");
    assert("status"@[0] != "partial"@[0]);
}

// ---------------------------------------------------------------------------------------------
// Which engine is used, and what it is told
// ---------------------------------------------------------------------------------------------

/// An engine is found under its own name, whatever space is around it, and the local one under every
/// other; the names that are known are those of the engines.
pub proof fn engines_are_found_by_name(e: Engine, id: Seq<char>)
    ensures
        chosen_engine(engine_name(e)) == e,
        is_known(engine_name(e)),
        is_known(id) ==> engine_name(chosen_engine(id)) == id,
        chosen_engine(id) == Engine::ElevenLabs <==> trimmed(id) == "elevenlabs"@,
        trimmed(id).len() == 0 ==> normal_engine_id(id) == "parakeet"@,
        trimmed(id).len() > 0 ==> normal_engine_id(id) == trimmed(id),
{
    reveal_strlit("parakeet");
    reveal_strlit("elevenlabs");
    assert("parakeet"@.len() == 8 && "elevenlabs"@.len() == 10);
    lemma_already_trimmed("parakeet"@);
    lemma_already_trimmed("elevenlabs"@);
}

/// The flag counts before the environment, and the local engine is asked for where both are blank.
pub proof fn flags_count_before_the_environment(flag: Seq<char>, env: Seq<char>)
    ensures
        trimmed(flag).len() > 0 ==> requested_engine(Some(flag), Some(env)) == trimmed(flag),
        trimmed(flag).len() == 0 && trimmed(env).len() > 0 ==> requested_engine(
            Some(flag),
            Some(env),
        ) == trimmed(env),
        requested_engine(None, None) == "parakeet"@,
        trimmed(env).len() > 0 ==> requested_engine(None, Some(env)) == trimmed(env),
        trimmed(env).len() == 0 ==> requested_engine(None, Some(env)) == "parakeet"@,
        trimmed(flag).len() > 0 ==> api_key_of(Some(flag), Some(env)) == Some(trimmed(flag)),
        trimmed(flag).len() == 0 ==> api_key_of(Some(flag), Some(env)) == api_key_of(
            None,
            Some(env),
        ),
        trimmed(env).len() > 0 ==> api_key_of(None, Some(env)) == Some(trimmed(env)),
        api_key_of(None, None) is None,
{
}

/// A session was transcribed in chunks where a watcher ran, where it was paused, or where more than
/// five hundredths of a second were transcribed.
pub proof fn chunked_sessions_show_it(state: SessionState)
    ensures
        state.transcription_watcher_pid is Some ==> is_chunked(state),
        state.transcription_paused ==> is_chunked(state),
        state.transcription_cursor_sec.key() > (Measure { bits: 0x3FA9_9999_9999_999A }).key()
            ==> is_chunked(state),
        state.transcription_watcher_pid is None && !state.transcription_paused
            && state.transcription_cursor_sec.key() <= (Measure {
            bits: 0x3FA9_9999_9999_999A,
        }).key() ==> !is_chunked(state),
{
}

/// A transcription of one recording gives the text of its file where it left one, else what it
/// printed, and nothing where it failed; what is said of it says how it ended.
pub proof fn one_shots_give_their_file(
    file: String,
    stdout: String,
    run: OneShot,
    model: Seq<char>,
    script: Seq<char>,
)
    ensures
        one_shot_text(OneShot::Done(Some(file), stdout)) == trimmed(file@),
        one_shot_text(OneShot::Done(None, stdout)) == trimmed(stdout@),
        !(run is Done) ==> one_shot_text(run).len() == 0,
        ({
            let t = Tree::Object(object_of(one_shot_pairs(run, model, script)));
            &&& text_field(t, "status"@) == Some(
                if run is Done {
                    "ok"@
                } else {
                    "error"@
                },
            )
            &&& text_field(t, "method"@) == Some("parakeet_python"@)
            &&& run is Done ==> text_field(t, "model"@) == Some(model)
        }),
{
    reveal_strlit("status");
    reveal_strlit("method");
    reveal_strlit("model");
    reveal_strlit("script");
    reveal_strlit("returncode");
    reveal_strlit("stderr");
    reveal_strlit("stdout");
    reveal_strlit("reason");
    assert("status"@.len() == 6 && "status"@[0] == 's' && "status"@[1] == 't' && "status"@[2] == 'a');
    assert("method"@.len() == 6 && "method"@[0] == 'm' && "model"@.len() == 5);
    assert("script"@[0] == 's' && "script"@[1] == 'c' && "returncode"@.len() == 10);
    assert("stderr"@[0] == 's' && "stderr"@[2] == 'd' && "stdout"@[0] == 's' && "stdout"@[2] == 'd');
    assert("reason"@[0] == 'r' && "script"@.len() == 6);
    let p = one_shot_pairs(run, model, script);
    pairs_read_back(p, 0);
    pairs_read_back(p, 1);
    if run is Done {
        pairs_read_back(p, 2);
    }
}

/// The interpreter that is set is tried first, and behind it the one of the program.
pub proof fn set_interpreters_come_first(explicit: Seq<char>, resolved: Seq<char>)
    ensures
        trimmed(explicit).len() > 0 ==> stream_interpreters(Some(explicit), resolved)[0] == trimmed(
            explicit,
        ) && stream_interpreters(Some(explicit), resolved)[1] == resolved,
        trimmed(explicit).len() == 0 ==> stream_interpreters(Some(explicit), resolved)[0]
            == resolved,
        stream_interpreters(None, resolved)[0] == resolved,
        stream_interpreters(None, resolved).last() == "python3"@,
{
}

/// The stream is told what to listen to, where to write and how to commit, and a language or an
/// address where they are set.
pub proof fn streams_are_told_everything(script: Seq<char>, state: SessionState, s: StreamSettings)
    ensures
        ({
            let a = stream_arguments(script, state, s);
            &&& a[0] == script
            &&& has_argument(a, "--audio"@, state.audio_path@)
            &&& has_argument(a, "--session-dir"@, state.session_dir@)
            &&& has_argument(a, "--events-path"@, state.events_path@)
            &&& has_argument(a, "--model-id"@, s.model_id@)
            &&& has_argument(a, "--sample-rate"@, "16000"@)
            &&& has_argument(a, "--commit-strategy"@, s.commit_strategy@)
            &&& s.language matches Some(l) ==> (trimmed(l@).len() > 0 ==> has_argument(
                a,
                "--language-code"@,
                l@,
            ))
            &&& s.ws_url matches Some(u) ==> (trimmed(u@).len() > 0 ==> has_argument(
                a,
                "--ws-url"@,
                u@,
            ))
            &&& s.language is None && s.ws_url is None ==> a.len() == 13
        }),
{
    let a = stream_arguments(script, state, s);
    let l = optional_arg("--language-code"@, str_view(s.language));
    let u = optional_arg("--ws-url"@, str_view(s.ws_url));
    assert(a[1] == "--audio"@ && a[3] == "--session-dir"@ && a[5] == "--events-path"@);
    assert(a[7] == "--model-id"@ && a[9] == "--sample-rate"@ && a[11] == "--commit-strategy"@);
    if l.len() > 0 {
        assert(a[13] == l[0] && a[14] == l[1]);
    }
    if u.len() > 0 {
        assert(a[13int + l.len()] == u[0] && a[14int + l.len()] == u[1]);
    }
}

/// A stream that ended well keeps what was said of the transcript, and says that it ended well; where
/// it did not, it is said whether there is a part.
pub proof fn good_streams_keep_their_status(
    fields: Seq<(Seq<char>, Tree)>,
    model: Seq<char>,
    finalize_ms: Number,
    end: StreamEnd,
    errors: Seq<Tree>,
    transcript: Seq<char>,
)
    ensures
        ({
            let t = stream_meta(Tree::Object(fields), model, finalize_ms, end, errors, transcript);
            let well = end is Finished;
            &&& field(t, "engine"@) == Some(Tree::Text("elevenlabs"@))
            &&& field(t, "model_id"@) == Some(Tree::Text(model))
            &&& well && errors.len() == 0 ==> field(t, "status"@) == lookup(fields, "status"@)
            &&& well ==> field(t, "finalize_status"@) == Some(Tree::Text("ok"@))
            &&& !well ==> field(t, "finalize_status"@) == Some(Tree::Text("error"@))
            &&& !well || errors.len() > 0 ==> field(t, "partial"@) == Some(
                Tree::Bool(transcript.len() > 0),
            )
            &&& errors.len() > 0 ==> field(t, "stream_errors"@) == Some(Tree::List(errors))
        }),
{
    reveal_strlit("engine");
    reveal_strlit("model_id");
    reveal_strlit("finalize_ms");
    reveal_strlit("finalize_status");
    reveal_strlit("finalize_detail");
    reveal_strlit("stream_errors");
    reveal_strlit("status");
    reveal_strlit("partial");
    assert("engine"@.len() == 6 && "model_id"@.len() == 8 && "finalize_ms"@.len() == 11);
    assert("finalize_status"@.len() == 15 && "finalize_detail"@.len() == 15);
    assert("stream_errors"@.len() == 13 && "status"@.len() == 6 && "partial"@.len() == 7);
    assert("engine"@[0] == 'e' && "status"@[0] == 's');
    assert("finalize_status"@[9] == 's' && "finalize_detail"@[9] == 'd');
    lemma_stream_field(fields, model, finalize_ms, end, errors, transcript, "engine"@);
    lemma_stream_field(fields, model, finalize_ms, end, errors, transcript, "model_id"@);
    lemma_stream_field(fields, model, finalize_ms, end, errors, transcript, "status"@);
    lemma_stream_field(fields, model, finalize_ms, end, errors, transcript, "finalize_status"@);
    lemma_stream_field(fields, model, finalize_ms, end, errors, transcript, "partial"@);
    lemma_stream_field(fields, model, finalize_ms, end, errors, transcript, "stream_errors"@);
}

/// What is found under a key of what the streaming engine says: the last that was put there.
proof fn lemma_stream_field(
    fields: Seq<(Seq<char>, Tree)>,
    model: Seq<char>,
    finalize_ms: Number,
    end: StreamEnd,
    errors: Seq<Tree>,
    transcript: Seq<char>,
    key: Seq<char>,
)
    ensures
        ({
            let t = stream_meta(Tree::Object(fields), model, finalize_ms, end, errors, transcript);
            let detail = stream_end_detail(end);
            let bad = detail is Some || errors.len() > 0;
            field(t, key) == if bad && key == "partial"@ {
                Some(Tree::Bool(transcript.len() > 0))
            } else if bad && key == "status"@ {
                Some(Tree::Text("error"@))
            } else if errors.len() > 0 && key == "stream_errors"@ {
                Some(Tree::List(errors))
            } else if detail is Some && key == "finalize_detail"@ {
                Some(Tree::Text(detail->0))
            } else if key == "finalize_status"@ {
                Some(
                    Tree::Text(
                        if detail is None {
                            "ok"@
                        } else {
                            "error"@
                        },
                    ),
                )
            } else if key == "finalize_ms"@ {
                Some(Tree::Number(finalize_ms@))
            } else if key == "model_id"@ {
                Some(Tree::Text(model))
            } else if key == "engine"@ {
                Some(Tree::Text("elevenlabs"@))
            } else {
                lookup(fields, key)
            }
        }),
{
    let detail = stream_end_detail(end);
    let status = Tree::Text(
        if detail is None {
            "ok"@
        } else {
            "error"@
        },
    );
    let a = with_field(fields, "engine"@, Tree::Text("elevenlabs"@));
    let b = with_field(a, "model_id"@, Tree::Text(model));
    let c = with_field(b, "finalize_ms"@, Tree::Number(finalize_ms@));
    let d = with_field(c, "finalize_status"@, status);
    let e = match detail {
        Some(t) => with_field(d, "finalize_detail"@, Tree::Text(t)),
        None => d,
    };
    let f = if errors.len() > 0 {
        with_field(e, "stream_errors"@, Tree::List(errors))
    } else {
        e
    };
    let g = with_field(f, "status"@, Tree::Text("error"@));
    put_is_found(fields, "engine"@, Tree::Text("elevenlabs"@), key);
    put_is_found(a, "model_id"@, Tree::Text(model), key);
    put_is_found(b, "finalize_ms"@, Tree::Number(finalize_ms@), key);
    put_is_found(c, "finalize_status"@, status, key);
    if let Some(t) = detail {
        put_is_found(d, "finalize_detail"@, Tree::Text(t), key);
    }
    put_is_found(e, "stream_errors"@, Tree::List(errors), key);
    put_is_found(f, "status"@, Tree::Text("error"@), key);
    put_is_found(g, "partial"@, Tree::Bool(transcript.len() > 0), key);
}

/// A stream that did not finish says why.
pub proof fn unfinished_streams_say_why(e: String)
    ensures
        stream_end_detail(StreamEnd::Finished) is None,
        stream_end_detail(StreamEnd::NeverRan) == Some(
            "No stream sidecar was running for this session."@,
        ),
        stream_end_detail(StreamEnd::Exited) == Some("Stream sidecar exited before stop."@),
        stream_end_detail(StreamEnd::SignalFailed(e)) == Some("Failed to signal sidecar: "@ + e@),
        stream_end_detail(StreamEnd::TimedOut) == Some(
            "Sidecar did not finish final commit in time."@,
        ),
{
}

/// A script that was run once is reported with what it was, or with what it printed and what went
/// wrong.
pub proof fn one_shots_are_reported(run: OneShot, model: Seq<char>, script: Seq<char>)
    ensures
        ({
            let t = Tree::Object(object_of(one_shot_pairs(run, model, script)));
            &&& run is Done ==> text_field(t, "script"@) == Some(script)
            &&& run matches OneShot::Failed(code, stderr, stdout) ==> field(t, "returncode"@) == Some(
                crate::daemon::opt_int_tree(code),
            ) && text_field(t, "stderr"@) == Some(trimmed(stderr@)) && text_field(t, "stdout"@)
                == Some(trimmed(stdout@))
            &&& run matches OneShot::NotRun(e) ==> text_field(t, "reason"@) == Some(
                "Failed to run python transcription: "@ + e@,
            )
        }),
{
    reveal_strlit("script");
    reveal_strlit("returncode");
    reveal_strlit("stderr");
    reveal_strlit("stdout");
    reveal_strlit("reason");
    assert("stderr"@[3] == 'e' && "stdout"@[3] == 'o');
    let p = one_shot_pairs(run, model, script);
    if run is Done {
        pairs_read_back(p, 3);
    } else if run is Failed {
        assert("returncode"@.len() == 10 && "stderr"@.len() == 6 && "stdout"@.len() == 6);
        pairs_read_back(p, 2);
        pairs_read_back(p, 3);
        pairs_read_back(p, 4);
    } else {
        pairs_read_back(p, 2);
    }
}

/// A stream is run by the first of these interpreters that will do: the one that was set, the one that
/// was found, three versions, and whatever there is.
pub proof fn interpreters_are_tried_in_order(set: Seq<char>, resolved: Seq<char>)
    ensures
        stream_interpreters(None, resolved) == seq![
            resolved,
            "python3.12"@,
            "python3.11"@,
            "python3.13"@,
            "python3"@,
        ],
        set_text(Some(set)) matches Some(s) ==> stream_interpreters(Some(set), resolved) == seq![s]
            + stream_interpreters(None, resolved),
{
    assert(stream_interpreters(None, resolved) =~= seq![
        resolved,
        "python3.12"@,
        "python3.11"@,
        "python3.13"@,
        "python3"@,
    ]);
}

/// How long a stream took to finish is told, and what kept it from it.
pub proof fn endings_of_streams_are_told(
    fields: Seq<(Seq<char>, Tree)>,
    model: Seq<char>,
    finalize_ms: Number,
    end: StreamEnd,
    errors: Seq<Tree>,
    transcript: Seq<char>,
)
    ensures
        ({
            let t = stream_meta(Tree::Object(fields), model, finalize_ms, end, errors, transcript);
            &&& field(t, "finalize_ms"@) == Some(Tree::Number(finalize_ms@))
            &&& end is TimedOut ==> text_field(t, "finalize_detail"@) == Some(
                "Sidecar did not finish final commit in time."@,
            )
            &&& end is Exited ==> text_field(t, "finalize_detail"@) == Some(
                "Stream sidecar exited before stop."@,
            )
        }),
{
    reveal_strlit("engine");
    reveal_strlit("model_id");
    reveal_strlit("finalize_ms");
    reveal_strlit("finalize_status");
    reveal_strlit("finalize_detail");
    reveal_strlit("stream_errors");
    reveal_strlit("status");
    reveal_strlit("partial");
    assert("engine"@.len() == 6 && "model_id"@.len() == 8 && "finalize_ms"@.len() == 11);
    assert("finalize_status"@.len() == 15 && "finalize_detail"@.len() == 15);
    assert("stream_errors"@.len() == 13 && "status"@.len() == 6 && "partial"@.len() == 7);
    assert("finalize_status"@[9] == 's' && "finalize_detail"@[9] == 'd');
    lemma_stream_field(fields, model, finalize_ms, end, errors, transcript, "finalize_ms"@);
    lemma_stream_field(fields, model, finalize_ms, end, errors, transcript, "finalize_detail"@);
}

} // verus!
