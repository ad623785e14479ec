//! The command line: the commands with their arguments, and what the event stream is told of them.

use vstd::prelude::*;

use crate::json::{
    count_tree, field, int_json, int_tree, item_views, lemma_tree, object_of, opt_text_tree,
    opt_view, pairs_read_back, text_field, Json, Number, Pairs, Tree,
};
use crate::pattern::views;

verus! {

/// The command line.
#[derive(Debug)]
pub struct Cli {
    pub verbose: bool,
    pub quiet: bool,
    pub json: bool,
    pub dry_run: bool,

    /// Disable start/stop beep sounds for this invocation
    pub no_beeps: bool,
    pub command: Commands,
}

/// A command.
#[derive(Debug)]
pub enum Commands {
    /// Start dictation session
    Start(StartArgs),
    /// Capture screenshot into active session
    Shot,
    /// Stop dictation and transcribe
    Stop(StopArgs),
    /// Toggle dictation session (start if idle, stop if active)
    Toggle(ToggleArgs),
    /// Split session: stop current recording and immediately start a new one
    Fork,
    /// Show running live session status
    Live(LiveArgs),
    /// Follow the global riff event stream
    Watch(WatchArgs),
    /// Transcribe audio captured so far and keep recording
    Chunk,
    /// Pause transcription capture while continuing to record audio
    Pause,
    /// Resume transcription capture after pause
    Unpause,
    /// Toggle transcription pause state (pause if listening, unpause if paused)
    TogglePause,

    /// Provision riff's private transcription environment
    Setup(SetupArgs),
    /// Check installation, transcription, permissions, and helper health
    Doctor(DoctorArgs),

    /// List recent sessions
    List(ListArgs),
    /// Show note markdown for a session id
    Show(ShowArgs),
    /// Print session transcript, clipboard, and base64 images to stdout
    Copy(CopyArgs),
    /// Copy transcript and paste into focused app
    Send(SendArgs),
    /// Like `send`, but paste actual image data for screenshots instead of file paths
    SendImages(SendArgs),
    /// Open HTML report for a session id
    Html(HtmlArgs),
    /// Set which derived image is used at the transcript screenshot path
    ScreenshotUse(ScreenshotUseArgs),

    /// Pick start/stop sounds and beep timing
    Sounds,
    /// Disable beeps globally (writes RIFF_BEEP=0 to rc file)
    Silence,
    /// Enable beeps globally (writes RIFF_BEEP=1 to rc file)
    Loud,
    /// Show active session status
    Status,
    /// Show configured output hooks and transcription commands
    Hooks,
    /// Show startup/shutdown timing summary from perf log
    Perf(PerfArgs),
    /// Record what is put on the clipboard while a session runs
    WatchClipboard(WatchClipboardArgs),
    /// Stop a session that runs too long
    WatchMaxDuration(WatchMaxDurationArgs),
    /// Kill background helper servers (web + parakeet + daemon)
    KillServer,
    /// Stop stray helper servers (including untracked ones) and start fresh
    Restart(RestartArgs),
    /// Manage the riff daemon: control socket for events in/out
    Daemon(DaemonArgs),
    /// Append an event to the global bus
    Emit(EmitArgs),
}

/// Arguments of `start`.
#[derive(Debug)]
pub struct StartArgs {
    pub screenshot_dir: Option<String>,
    pub audio_device: String,

    /// Transcription engine: "parakeet" (local, default) or "elevenlabs"
    /// (streaming, needs RIFF_ELEVENLABS_API_KEY). Falls back to RIFF_ENGINE.
    pub engine: Option<String>,
}

/// Arguments of `stop`.
#[derive(Debug)]
pub struct StopArgs {
    pub no_stop_hooks: bool,

    /// Skip the configured RIFF_HOOKS output-hook chain for this run
    pub no_hooks: bool,

    /// Add an ad-hoc output hook for this run (script path or shell command).
    /// Repeatable; hooks run in order, after the configured RIFF_HOOKS chain.
    /// A bare path is forwarded the transcript ("$1") and metadata ("$2") files.
    pub with_post_hook: Vec<String>,
    pub transcribe_cmd: Option<String>,
    pub post_transcribe_cmd: Option<String>,
    pub python_bin: Option<String>,
    pub parakeet_script: Option<String>,
    pub parakeet_model: Option<String>,
}

/// Arguments of `toggle`.
#[derive(Debug)]
pub struct ToggleArgs {
    /// Used when idle (start path): override screenshot source dir
    pub screenshot_dir: Option<String>,

    /// Used when idle (start path): ffmpeg avfoundation selector
    pub audio_device: String,

    /// Used when idle (start path): transcription engine ("parakeet" or "elevenlabs")
    pub engine: Option<String>,

    /// Used when active (stop path): custom transcription command template
    pub no_stop_hooks: bool,

    /// Used when active (stop path): skip the RIFF_HOOKS output-hook chain
    pub no_hooks: bool,

    /// Used when active (stop path): add an ad-hoc output hook (repeatable)
    pub with_post_hook: Vec<String>,

    /// Used when active (stop path): custom transcription command template
    pub transcribe_cmd: Option<String>,

    /// Used when active (stop path): post-process transcript command template
    pub post_transcribe_cmd: Option<String>,

    /// Used when active (stop path): override python interpreter
    pub python_bin: Option<String>,

    /// Used when active (stop path): override parakeet script path
    pub parakeet_script: Option<String>,

    /// Used when active (stop path): override parakeet model name
    pub parakeet_model: Option<String>,
}

/// Arguments of `live`.
#[derive(Debug)]
pub struct LiveArgs {
    /// Refresh interval in milliseconds
    pub poll_ms: u64,

    /// Print one snapshot and exit
    pub once: bool,
}

/// Arguments of `restart`.
#[derive(Debug)]
pub struct RestartArgs {
    /// Restart only the Parakeet transcription server
    pub parakeet: bool,

    /// Restart only the local report web server
    pub web: bool,

    /// Return as soon as the replacement is spawned instead of waiting for ready
    pub no_wait: bool,
}

/// Arguments of `watch`.
#[derive(Debug)]
pub struct WatchArgs {
    /// Backfill events newer than a duration (for example: 30s, 10m, 2h, 1d)
    pub since: Option<String>,

    /// Backfill the last N matching events before following
    pub tail: Option<usize>,

    /// Backfill the entire retained event history before following
    pub all: bool,

    /// Print the backfill and exit instead of following
    pub once: bool,

    /// Only show these event types (repeatable)
    pub event_type: Vec<String>,

    /// Only show events from these commands (repeatable)
    pub command_filter: Vec<String>,

    /// Only show events for a session id, or "current" for the active session
    pub session: Option<String>,

    /// Only show events whose JSON contains this substring
    pub grep: Option<String>,

    /// Poll interval in milliseconds while following
    pub poll_ms: u64,
}

/// Arguments of `setup`.
#[derive(Debug)]
pub struct SetupArgs {
    /// Python 3.12 interpreter used to create the private runtime
    pub python: Option<String>,

    /// Private runtime directory; defaults to ~/Library/Application Support/riff/runtime/python
    pub runtime_dir: Option<String>,

    /// Skip Python package installation
    pub skip_packages: bool,

    /// Skip model pre-download
    pub skip_model: bool,
}

/// Arguments of `doctor`.
#[derive(Debug)]
pub struct DoctorArgs {
    /// Attempt slower checks such as importing Python packages
    pub deep: bool,
}

/// Arguments of `list`.
#[derive(Debug)]
pub struct ListArgs {
    /// Number of recent sessions to show
    pub n: Option<usize>,
}

/// Arguments of `copy`.
#[derive(Debug)]
pub struct CopyArgs {
    /// Which recent session to output (1 = most recent)
    pub n: Option<usize>,
}

/// Arguments of `send`.
#[derive(Debug)]
pub struct SendArgs {
    /// Which recent session to send (1 = most recent)
    pub n: Option<usize>,
}

/// Arguments of `show`.
#[derive(Debug)]
pub struct ShowArgs {
    /// Session id (for example: 20260413-013011)
    pub session_id: String,
}

/// Arguments of `html`.
#[derive(Debug)]
pub struct HtmlArgs {
    /// Session id (for example: 20260413-013011); defaults to most recent when omitted
    pub session_id: Option<String>,
}

/// Arguments of `perf`.
#[derive(Debug)]
pub struct PerfArgs {
    /// Number of recent perf records to inspect
    pub n: Option<usize>,
}

/// Arguments of `screenshot-use`.
#[derive(Debug)]
pub struct ScreenshotUseArgs {
    /// Session id (for example: 20260413-013011)
    pub session_id: String,

    /// Screenshot id (for example: 1)
    pub shot_id: u64,

    /// Module id (for example: polaroid, framed, enhanced, original)
    pub module: String,
}

/// Arguments of `watch-max-duration`.
#[derive(Debug)]
pub struct WatchMaxDurationArgs {
    /// Session this watchdog belongs to; it refuses to stop anything else
    pub session_id: String,

    /// Wall-clock seconds after session start before the auto-stop fires
    pub max_sec: Number,

    /// Recorder pid; the watchdog exits early once it dies
    pub ffmpeg_pid: i32,
    pub started_at_epoch: Number,
    pub poll_ms: u64,

    /// Recording target; watched to confirm the mic is actually capturing
    pub audio_path: Option<String>,

    /// Session events file the `mic_listening` confirmation is written to
    pub events_path: Option<String>,
}

/// Arguments of `watch-clipboard`.
#[derive(Debug)]
pub struct WatchClipboardArgs {
    pub session_id: String,
    pub events_path: String,
    pub started_at_epoch: Number,
    pub start_id: u64,
    pub poll_ms: u64,
}

/// Arguments of `daemon`.
#[derive(Debug)]
pub struct DaemonArgs {
    pub action: DaemonAction,
}

/// What is done with the daemon.
#[derive(Debug)]
pub enum DaemonAction {
    /// Run the daemon in the foreground (`daemon start` spawns this detached)
    Run(DaemonRunArgs),
    /// Start the daemon in the background
    Start(DaemonStartArgs),
    /// Stop the running daemon
    Stop,
    /// Show daemon identity and health
    Status,
}

/// Arguments of `daemon run`.
#[derive(Debug)]
pub struct DaemonRunArgs {
    /// Owning RIFF_ROOT, present on the command line so a wedged daemon can
    /// still be identified from the process table. Must match the environment.
    pub root: Option<String>,
}

/// Arguments of `daemon start`.
#[derive(Debug)]
pub struct DaemonStartArgs {
    /// Return as soon as the daemon is spawned instead of waiting for ready
    pub no_wait: bool,
}

/// Arguments of `emit`.
#[derive(Debug)]
pub struct EmitArgs {
    /// Event type, snake_case (for example: build_finished)
    pub event_type: String,

    /// JSON object payload for the event
    pub data: Option<String>,

    /// Attach to a session id, or "current" for the active session
    pub session: Option<String>,

    /// Event level: info, warn, or error
    pub level: String,
}

/// The name of a command in the event stream.
pub open spec fn command_name(c: Commands) -> Seq<char> {
    match c {
        Commands::Start(_) => "start"@,
        Commands::Shot => "shot"@,
        Commands::Stop(_) => "stop"@,
        Commands::Toggle(_) => "toggle"@,
        Commands::Fork => "fork"@,
        Commands::Live(_) => "live"@,
        Commands::Watch(_) => "watch"@,
        Commands::Chunk => "chunk"@,
        Commands::Pause => "pause"@,
        Commands::Unpause => "unpause"@,
        Commands::TogglePause => "toggle-pause"@,
        Commands::Setup(_) => "setup"@,
        Commands::Doctor(_) => "doctor"@,
        Commands::List(_) => "list"@,
        Commands::Show(_) => "show"@,
        Commands::Copy(_) => "copy"@,
        Commands::Send(_) => "send"@,
        Commands::SendImages(_) => "send-images"@,
        Commands::Html(_) => "html"@,
        Commands::ScreenshotUse(_) => "screenshot-use"@,
        Commands::Sounds => "sounds"@,
        Commands::Silence => "silence"@,
        Commands::Loud => "loud"@,
        Commands::Status => "status"@,
        Commands::Hooks => "hooks"@,
        Commands::Perf(_) => "perf"@,
        Commands::WatchClipboard(_) => "watch-clipboard"@,
        Commands::WatchMaxDuration(_) => "watch-max-duration"@,
        Commands::KillServer => "kill-server"@,
        Commands::Restart(_) => "restart"@,
        Commands::Daemon(_) => "daemon"@,
        Commands::Emit(_) => "emit"@,
    }
}

/// The name of what is done with the daemon.
pub open spec fn action_name(a: DaemonAction) -> Seq<char> {
    match a {
        DaemonAction::Run(_) => "run"@,
        DaemonAction::Start(_) => "start"@,
        DaemonAction::Stop => "stop"@,
        DaemonAction::Status => "status"@,
    }
}

/// A count, or null where there is none.
pub open spec fn opt_count_tree(n: Option<usize>) -> Tree {
    match n {
        Some(v) => count_tree(v as nat),
        None => Tree::Null,
    }
}

/// A list of texts.
pub open spec fn text_list_tree(s: Seq<Seq<char>>) -> Tree {
    Tree::List(s.map_values(|t: Seq<char>| Tree::Text(t)))
}

/// What the event stream is told of `start`.
pub open spec fn start_pairs(a: StartArgs) -> Seq<(Seq<char>, Tree)> {
    seq![
        ("audio_device"@, Tree::Text(a.audio_device@)),
        ("screenshot_dir_override"@, Tree::Bool(a.screenshot_dir is Some)),
        ("engine"@, opt_text_tree(opt_view(a.engine))),
    ]
}

/// What the event stream is told of `stop`.
pub open spec fn stop_pairs(a: StopArgs) -> Seq<(Seq<char>, Tree)> {
    seq![
        ("no_hooks"@, Tree::Bool(a.no_hooks)),
        ("no_stop_hooks"@, Tree::Bool(a.no_stop_hooks)),
        ("post_hooks"@, count_tree(a.with_post_hook@.len())),
        ("custom_transcribe_cmd"@, Tree::Bool(a.transcribe_cmd is Some)),
        ("custom_post_transcribe_cmd"@, Tree::Bool(a.post_transcribe_cmd is Some)),
        ("parakeet_model_override"@, Tree::Bool(a.parakeet_model is Some)),
    ]
}

/// What the event stream is told of `toggle`.
pub open spec fn toggle_pairs(a: ToggleArgs) -> Seq<(Seq<char>, Tree)> {
    seq![
        ("audio_device"@, Tree::Text(a.audio_device@)),
        ("screenshot_dir_override"@, Tree::Bool(a.screenshot_dir is Some)),
        ("no_hooks"@, Tree::Bool(a.no_hooks)),
        ("no_stop_hooks"@, Tree::Bool(a.no_stop_hooks)),
        ("post_hooks"@, count_tree(a.with_post_hook@.len())),
        ("custom_transcribe_cmd"@, Tree::Bool(a.transcribe_cmd is Some)),
        ("custom_post_transcribe_cmd"@, Tree::Bool(a.post_transcribe_cmd is Some)),
        ("parakeet_model_override"@, Tree::Bool(a.parakeet_model is Some)),
    ]
}

/// What the event stream is told of `live`.
pub open spec fn live_pairs(a: LiveArgs) -> Seq<(Seq<char>, Tree)> {
    seq![
        ("once"@, Tree::Bool(a.once)),
        ("poll_ms"@, count_tree(a.poll_ms as nat)),
    ]
}

/// What the event stream is told of `watch`.
pub open spec fn watch_pairs(a: WatchArgs) -> Seq<(Seq<char>, Tree)> {
    seq![
        ("once"@, Tree::Bool(a.once)),
        ("all"@, Tree::Bool(a.all)),
        ("since"@, opt_text_tree(opt_view(a.since))),
        ("tail"@, opt_count_tree(a.tail)),
        ("types"@, text_list_tree(views(a.event_type@))),
        ("commands"@, text_list_tree(views(a.command_filter@))),
        ("session"@, opt_text_tree(opt_view(a.session))),
        ("grep"@, Tree::Bool(a.grep is Some)),
    ]
}

/// What the event stream is told of `setup`.
pub open spec fn setup_pairs(a: SetupArgs) -> Seq<(Seq<char>, Tree)> {
    seq![
        ("skip_packages"@, Tree::Bool(a.skip_packages)),
        ("skip_model"@, Tree::Bool(a.skip_model)),
        ("python_override"@, Tree::Bool(a.python is Some)),
        ("runtime_dir_override"@, Tree::Bool(a.runtime_dir is Some)),
    ]
}

/// What the event stream is told of `doctor`.
pub open spec fn doctor_pairs(a: DoctorArgs) -> Seq<(Seq<char>, Tree)> {
    seq![
        ("deep"@, Tree::Bool(a.deep)),
    ]
}

/// What the event stream is told of `list`.
pub open spec fn list_pairs(a: ListArgs) -> Seq<(Seq<char>, Tree)> {
    seq![
        ("n"@, opt_count_tree(a.n)),
    ]
}

/// What the event stream is told of `show`.
pub open spec fn show_pairs(a: ShowArgs) -> Seq<(Seq<char>, Tree)> {
    seq![
        ("session_id"@, Tree::Text(a.session_id@)),
    ]
}

/// What the event stream is told of `copy`.
pub open spec fn copy_pairs(a: CopyArgs) -> Seq<(Seq<char>, Tree)> {
    seq![
        ("n"@, opt_count_tree(a.n)),
    ]
}

/// What the event stream is told of `send`.
pub open spec fn send_pairs(a: SendArgs) -> Seq<(Seq<char>, Tree)> {
    seq![
        ("n"@, opt_count_tree(a.n)),
    ]
}

/// What the event stream is told of `html`.
pub open spec fn html_pairs(a: HtmlArgs) -> Seq<(Seq<char>, Tree)> {
    seq![
        ("session_id"@, opt_text_tree(opt_view(a.session_id))),
    ]
}

/// What the event stream is told of `screenshot-use`.
pub open spec fn screenshot_use_pairs(a: ScreenshotUseArgs) -> Seq<(Seq<char>, Tree)> {
    seq![
        ("session_id"@, Tree::Text(a.session_id@)),
        ("shot_id"@, count_tree(a.shot_id as nat)),
        ("module"@, Tree::Text(a.module@)),
    ]
}

/// What the event stream is told of `perf`.
pub open spec fn perf_pairs(a: PerfArgs) -> Seq<(Seq<char>, Tree)> {
    seq![
        ("n"@, opt_count_tree(a.n)),
    ]
}

/// What the event stream is told of `watch-clipboard`.
pub open spec fn watch_clipboard_pairs(a: WatchClipboardArgs) -> Seq<(Seq<char>, Tree)> {
    seq![
        ("session_id"@, Tree::Text(a.session_id@)),
    ]
}

/// What the event stream is told of `watch-max-duration`.
pub open spec fn watch_max_duration_pairs(a: WatchMaxDurationArgs) -> Seq<(Seq<char>, Tree)> {
    seq![
        ("session_id"@, Tree::Text(a.session_id@)),
        ("max_sec"@, Tree::Number(a.max_sec@)),
        ("ffmpeg_pid"@, int_tree(a.ffmpeg_pid as int)),
    ]
}

/// What the event stream is told of `restart`.
pub open spec fn restart_pairs(a: RestartArgs) -> Seq<(Seq<char>, Tree)> {
    seq![
        ("parakeet"@, Tree::Bool(a.parakeet)),
        ("web"@, Tree::Bool(a.web)),
        ("no_wait"@, Tree::Bool(a.no_wait)),
    ]
}

/// What the event stream is told of `daemon`.
pub open spec fn daemon_pairs(a: DaemonArgs) -> Seq<(Seq<char>, Tree)> {
    seq![
        ("action"@, Tree::Text(action_name(a.action))),
    ]
}

/// What the event stream is told of `emit`.
pub open spec fn emit_pairs(a: EmitArgs) -> Seq<(Seq<char>, Tree)> {
    seq![
        ("type"@, Tree::Text(a.event_type@)),
        ("has_data"@, Tree::Bool(a.data is Some)),
        ("session"@, opt_text_tree(opt_view(a.session))),
        ("level"@, Tree::Text(a.level@)),
    ]
}

/// What the event stream is told of the arguments of a command. Command templates and hooks can
/// hold anything: of those it is told only whether they are there, and how many.
pub open spec fn args_of(c: Commands) -> Tree {
    Tree::Object(object_of(match c {
        Commands::Start(a) => start_pairs(a),
        Commands::Stop(a) => stop_pairs(a),
        Commands::Toggle(a) => toggle_pairs(a),
        Commands::Live(a) => live_pairs(a),
        Commands::Watch(a) => watch_pairs(a),
        Commands::Setup(a) => setup_pairs(a),
        Commands::Doctor(a) => doctor_pairs(a),
        Commands::List(a) => list_pairs(a),
        Commands::Show(a) => show_pairs(a),
        Commands::Copy(a) => copy_pairs(a),
        Commands::Send(a) => send_pairs(a),
        Commands::SendImages(a) => send_pairs(a),
        Commands::Html(a) => html_pairs(a),
        Commands::ScreenshotUse(a) => screenshot_use_pairs(a),
        Commands::Perf(a) => perf_pairs(a),
        Commands::WatchClipboard(a) => watch_clipboard_pairs(a),
        Commands::WatchMaxDuration(a) => watch_max_duration_pairs(a),
        Commands::Restart(a) => restart_pairs(a),
        Commands::Daemon(a) => daemon_pairs(a),
        Commands::Emit(a) => emit_pairs(a),
        _ => Seq::empty(),
    }))
}

/// A count, or null where there is none.
fn opt_count_json(n: Option<usize>) -> (r: Json)
    ensures
        r@ == opt_count_tree(n),
{
    match n {
        Some(v) => Json::unsigned(v as u64),
        None => Json::Null,
    }
}

/// A list of texts.
pub fn text_list_json(v: &Vec<String>) -> (r: Json)
    ensures
        r@ == text_list_tree(views(v@)),
{
    let ghost all = views(v@);
    let ghost f = |t: Seq<char>| Tree::Text(t);
    let mut items: Vec<Json> = Vec::new();
    let mut i: usize = 0;
    assert(item_views(items@) =~= all.subrange(0, 0).map_values(f));
    while i < v.len()
        invariant
            i <= v.len(),
            all == views(v@),
            f == (|t: Seq<char>| Tree::Text(t)),
            item_views(items@) == all.subrange(0, i as int).map_values(f),
        decreases v.len() - i,
    {
        let ghost before = items@;
        assert(all[i as int] == v@[i as int]@);
        items.push(Json::text(v[i].as_str()));
        proof {
            assert(item_views(items@) =~= item_views(before).push(f(all[i as int])));
            assert(all.subrange(0, i + 1).map_values(f) =~= all.subrange(0, i as int).map_values(
                f,
            ).push(f(all[i as int])));
        }
        i = i + 1;
    }
    assert(all.subrange(0, all.len() as int) =~= all);
    let list = Json::List(items);
    proof {
        lemma_tree(list);
    }
    list
}

impl DaemonAction {
    /// The name of what is done with the daemon.
    pub fn name(&self) -> (r: &'static str)
        ensures
            r@ == action_name(*self),
    {
        match self {
            DaemonAction::Run(_) => "run",
            DaemonAction::Start(_) => "start",
            DaemonAction::Stop => "stop",
            DaemonAction::Status => "status",
        }
    }
}

impl Commands {
    /// The name of a command in the event stream.
    pub fn event_name(&self) -> (r: &'static str)
        ensures
            r@ == command_name(*self),
    {
        match self {
            Commands::Start(_) => "start",
            Commands::Shot => "shot",
            Commands::Stop(_) => "stop",
            Commands::Toggle(_) => "toggle",
            Commands::Fork => "fork",
            Commands::Live(_) => "live",
            Commands::Watch(_) => "watch",
            Commands::Chunk => "chunk",
            Commands::Pause => "pause",
            Commands::Unpause => "unpause",
            Commands::TogglePause => "toggle-pause",
            Commands::Setup(_) => "setup",
            Commands::Doctor(_) => "doctor",
            Commands::List(_) => "list",
            Commands::Show(_) => "show",
            Commands::Copy(_) => "copy",
            Commands::Send(_) => "send",
            Commands::SendImages(_) => "send-images",
            Commands::Html(_) => "html",
            Commands::ScreenshotUse(_) => "screenshot-use",
            Commands::Sounds => "sounds",
            Commands::Silence => "silence",
            Commands::Loud => "loud",
            Commands::Status => "status",
            Commands::Hooks => "hooks",
            Commands::Perf(_) => "perf",
            Commands::WatchClipboard(_) => "watch-clipboard",
            Commands::WatchMaxDuration(_) => "watch-max-duration",
            Commands::KillServer => "kill-server",
            Commands::Restart(_) => "restart",
            Commands::Daemon(_) => "daemon",
            Commands::Emit(_) => "emit",
        }
    }

    /// What the event stream is told of the arguments of a command.
    pub fn event_args(&self) -> (r: Json)
        ensures
            r@ == args_of(*self),
    {
        let mut p = Pairs::new();
        match self {
            Commands::Start(a) => {
                p.text("audio_device", a.audio_device.as_str());
                p.flag("screenshot_dir_override", a.screenshot_dir.is_some());
                p.opt_text("engine", &a.engine);
                assert(p@ == start_pairs(*a));
            },
            Commands::Stop(a) => {
                p.flag("no_hooks", a.no_hooks);
                p.flag("no_stop_hooks", a.no_stop_hooks);
                p.count("post_hooks", a.with_post_hook.len() as u64);
                p.flag("custom_transcribe_cmd", a.transcribe_cmd.is_some());
                p.flag("custom_post_transcribe_cmd", a.post_transcribe_cmd.is_some());
                p.flag("parakeet_model_override", a.parakeet_model.is_some());
                assert(p@ == stop_pairs(*a));
            },
            Commands::Toggle(a) => {
                p.text("audio_device", a.audio_device.as_str());
                p.flag("screenshot_dir_override", a.screenshot_dir.is_some());
                p.flag("no_hooks", a.no_hooks);
                p.flag("no_stop_hooks", a.no_stop_hooks);
                p.count("post_hooks", a.with_post_hook.len() as u64);
                p.flag("custom_transcribe_cmd", a.transcribe_cmd.is_some());
                p.flag("custom_post_transcribe_cmd", a.post_transcribe_cmd.is_some());
                p.flag("parakeet_model_override", a.parakeet_model.is_some());
                assert(p@ == toggle_pairs(*a));
            },
            Commands::Live(a) => {
                p.flag("once", a.once);
                p.count("poll_ms", a.poll_ms as u64);
                assert(p@ == live_pairs(*a));
            },
            Commands::Watch(a) => {
                p.flag("once", a.once);
                p.flag("all", a.all);
                p.opt_text("since", &a.since);
                p.add("tail", opt_count_json(a.tail));
                p.add("types", text_list_json(&a.event_type));
                p.add("commands", text_list_json(&a.command_filter));
                p.opt_text("session", &a.session);
                p.flag("grep", a.grep.is_some());
                assert(p@ == watch_pairs(*a));
            },
            Commands::Setup(a) => {
                p.flag("skip_packages", a.skip_packages);
                p.flag("skip_model", a.skip_model);
                p.flag("python_override", a.python.is_some());
                p.flag("runtime_dir_override", a.runtime_dir.is_some());
                assert(p@ == setup_pairs(*a));
            },
            Commands::Doctor(a) => {
                p.flag("deep", a.deep);
                assert(p@ == doctor_pairs(*a));
            },
            Commands::List(a) => {
                p.add("n", opt_count_json(a.n));
                assert(p@ == list_pairs(*a));
            },
            Commands::Show(a) => {
                p.text("session_id", a.session_id.as_str());
                assert(p@ == show_pairs(*a));
            },
            Commands::Copy(a) => {
                p.add("n", opt_count_json(a.n));
                assert(p@ == copy_pairs(*a));
            },
            Commands::Send(a) => {
                p.add("n", opt_count_json(a.n));
                assert(p@ == send_pairs(*a));
            },
            Commands::SendImages(a) => {
                p.add("n", opt_count_json(a.n));
                assert(p@ == send_pairs(*a));
            },
            Commands::Html(a) => {
                p.opt_text("session_id", &a.session_id);
                assert(p@ == html_pairs(*a));
            },
            Commands::ScreenshotUse(a) => {
                p.text("session_id", a.session_id.as_str());
                p.count("shot_id", a.shot_id as u64);
                p.text("module", a.module.as_str());
                assert(p@ == screenshot_use_pairs(*a));
            },
            Commands::Perf(a) => {
                p.add("n", opt_count_json(a.n));
                assert(p@ == perf_pairs(*a));
            },
            Commands::WatchClipboard(a) => {
                p.text("session_id", a.session_id.as_str());
                assert(p@ == watch_clipboard_pairs(*a));
            },
            Commands::WatchMaxDuration(a) => {
                p.text("session_id", a.session_id.as_str());
                p.number("max_sec", &a.max_sec);
                p.add("ffmpeg_pid", int_json(a.ffmpeg_pid as i64));
                assert(p@ == watch_max_duration_pairs(*a));
            },
            Commands::Restart(a) => {
                p.flag("parakeet", a.parakeet);
                p.flag("web", a.web);
                p.flag("no_wait", a.no_wait);
                assert(p@ == restart_pairs(*a));
            },
            Commands::Daemon(a) => {
                p.text("action", a.action.name());
                assert(p@ == daemon_pairs(*a));
            },
            Commands::Emit(a) => {
                p.text("type", a.event_type.as_str());
                p.flag("has_data", a.data.is_some());
                p.opt_text("session", &a.session);
                p.text("level", a.level.as_str());
                assert(p@ == emit_pairs(*a));
            },
            _ => {},
        }
        p.object()
    }
}

/// The event stream is told nothing of what command templates and hooks hold: two stops with as
/// many of them, and the same flags, look the same in it.
pub proof fn templates_stay_out_of_the_log(a: StopArgs, b: StopArgs)
    requires
        a.no_hooks == b.no_hooks,
        a.no_stop_hooks == b.no_stop_hooks,
        a.with_post_hook@.len() == b.with_post_hook@.len(),
        a.transcribe_cmd is Some <==> b.transcribe_cmd is Some,
        a.post_transcribe_cmd is Some <==> b.post_transcribe_cmd is Some,
        a.parakeet_model is Some <==> b.parakeet_model is Some,
    ensures
        args_of(Commands::Stop(a)) == args_of(Commands::Stop(b)),
{
}

/// The same holds of a toggle: two with as many command templates and hooks, the same flags and
/// the same device look the same in the event stream.
pub proof fn templates_of_toggles_stay_out_of_the_log(a: ToggleArgs, b: ToggleArgs)
    requires
        a.audio_device@ == b.audio_device@,
        a.screenshot_dir is Some <==> b.screenshot_dir is Some,
        a.no_hooks == b.no_hooks,
        a.no_stop_hooks == b.no_stop_hooks,
        a.with_post_hook@.len() == b.with_post_hook@.len(),
        a.transcribe_cmd is Some <==> b.transcribe_cmd is Some,
        a.post_transcribe_cmd is Some <==> b.post_transcribe_cmd is Some,
        a.parakeet_model is Some <==> b.parakeet_model is Some,
    ensures
        args_of(Commands::Toggle(a)) == args_of(Commands::Toggle(b)),
{
}

/// What the event stream is told of a start and of a stop: the device, the engine, the flags, and
/// whether and how many commands of the user there are.
pub proof fn starts_and_stops_are_told(a: StartArgs, b: StopArgs)
    ensures
        ({
            let s = args_of(Commands::Start(a));
            let t = args_of(Commands::Stop(b));
            &&& text_field(s, "audio_device"@) == Some(a.audio_device@)
            &&& field(s, "screenshot_dir_override"@) == Some(Tree::Bool(a.screenshot_dir is Some))
            &&& a.engine matches Some(e) ==> text_field(s, "engine"@) == Some(e@)
            &&& field(t, "no_hooks"@) == Some(Tree::Bool(b.no_hooks))
            &&& field(t, "no_stop_hooks"@) == Some(Tree::Bool(b.no_stop_hooks))
            &&& field(t, "post_hooks"@) == Some(count_tree(b.with_post_hook@.len()))
            &&& field(t, "custom_transcribe_cmd"@) == Some(Tree::Bool(b.transcribe_cmd is Some))
            &&& field(t, "custom_post_transcribe_cmd"@) == Some(
                Tree::Bool(b.post_transcribe_cmd is Some),
            )
        }),
{
    lemma_start_keys();
    let p = start_pairs(a);
    pairs_read_back(p, 0);
    pairs_read_back(p, 1);
    pairs_read_back(p, 2);
    let q = stop_pairs(b);
    pairs_read_back(q, 0);
    pairs_read_back(q, 1);
    pairs_read_back(q, 2);
    pairs_read_back(q, 3);
    pairs_read_back(q, 4);
}

proof fn lemma_start_keys()
    ensures
        "audio_device"@.len() == 12 && "screenshot_dir_override"@.len() == 23,
        "engine"@.len() == 6 && "no_hooks"@.len() == 8 && "no_stop_hooks"@.len() == 13,
        "post_hooks"@.len() == 10 && "custom_transcribe_cmd"@.len() == 21,
        "custom_post_transcribe_cmd"@.len() == 26 && "parakeet_model_override"@.len() == 23,
        "screenshot_dir_override"@[0] == 's' && "parakeet_model_override"@[0] == 'p',
{
    reveal_strlit("audio_device");
    reveal_strlit("screenshot_dir_override");
    reveal_strlit("engine");
    reveal_strlit("no_hooks");
    reveal_strlit("no_stop_hooks");
    reveal_strlit("post_hooks");
    reveal_strlit("custom_transcribe_cmd");
    reveal_strlit("custom_post_transcribe_cmd");
    reveal_strlit("parakeet_model_override");
}

/// A toggle is told as the start and the stop that it may become.
pub proof fn toggles_are_told_as_both(a: ToggleArgs)
    ensures
        ({
            let t = args_of(Commands::Toggle(a));
            &&& text_field(t, "audio_device"@) == Some(a.audio_device@)
            &&& field(t, "screenshot_dir_override"@) == Some(Tree::Bool(a.screenshot_dir is Some))
            &&& field(t, "no_hooks"@) == Some(Tree::Bool(a.no_hooks))
            &&& field(t, "no_stop_hooks"@) == Some(Tree::Bool(a.no_stop_hooks))
            &&& field(t, "post_hooks"@) == Some(count_tree(a.with_post_hook@.len()))
        }),
{
    lemma_start_keys();
    let p = toggle_pairs(a);
    pairs_read_back(p, 0);
    pairs_read_back(p, 1);
    pairs_read_back(p, 2);
    pairs_read_back(p, 3);
    pairs_read_back(p, 4);
}

/// What the event stream is told of watching: what is asked for, and of the text that is looked for
/// only that there is one.
pub proof fn watches_are_told(a: WatchArgs, e: EmitArgs)
    ensures
        ({
            let t = args_of(Commands::Watch(a));
            let u = args_of(Commands::Emit(e));
            &&& field(t, "once"@) == Some(Tree::Bool(a.once))
            &&& field(t, "all"@) == Some(Tree::Bool(a.all))
            &&& a.since matches Some(s) ==> text_field(t, "since"@) == Some(s@)
            &&& a.tail matches Some(n) ==> field(t, "tail"@) == Some(count_tree(n as nat))
            &&& field(t, "types"@) == Some(
                Tree::List(views(a.event_type@).map_values(|s: Seq<char>| Tree::Text(s))),
            )
            &&& field(t, "commands"@) == Some(
                Tree::List(views(a.command_filter@).map_values(|s: Seq<char>| Tree::Text(s))),
            )
            &&& a.session matches Some(s) ==> text_field(t, "session"@) == Some(s@)
            &&& field(t, "grep"@) == Some(Tree::Bool(a.grep is Some))
            &&& text_field(u, "type"@) == Some(e.event_type@)
            &&& field(u, "has_data"@) == Some(Tree::Bool(e.data is Some))
            &&& text_field(u, "level"@) == Some(e.level@)
        }),
{
    reveal_strlit("once");
    reveal_strlit("all");
    reveal_strlit("since");
    reveal_strlit("tail");
    reveal_strlit("types");
    reveal_strlit("commands");
    reveal_strlit("session");
    reveal_strlit("grep");
    reveal_strlit("type");
    reveal_strlit("has_data");
    reveal_strlit("level");
    assert("once"@.len() == 4 && "all"@.len() == 3 && "since"@.len() == 5 && "tail"@.len() == 4);
    assert("types"@.len() == 5 && "commands"@.len() == 8 && "session"@.len() == 7);
    assert("grep"@.len() == 4 && "type"@.len() == 4 && "has_data"@.len() == 8);
    assert("level"@.len() == 5 && "once"@[0] == 'o' && "tail"@[0] == 't' && "grep"@[0] == 'g');
    assert("since"@[0] == 's' && "types"@[0] == 't');
    let p = watch_pairs(a);
    pairs_read_back(p, 0);
    pairs_read_back(p, 1);
    pairs_read_back(p, 2);
    pairs_read_back(p, 3);
    pairs_read_back(p, 4);
    pairs_read_back(p, 5);
    pairs_read_back(p, 6);
    pairs_read_back(p, 7);
    let q = emit_pairs(e);
    pairs_read_back(q, 0);
    pairs_read_back(q, 1);
    pairs_read_back(q, 3);
}

/// What the event stream is told of the other commands that take arguments.
pub proof fn other_commands_are_told(
    u: ScreenshotUseArgs,
    r: RestartArgs,
    s: ShowArgs,
    l: LiveArgs,
    n: ListArgs,
)
    ensures
        ({
            let t = args_of(Commands::ScreenshotUse(u));
            let v = args_of(Commands::Restart(r));
            let w = args_of(Commands::Live(l));
            &&& text_field(t, "session_id"@) == Some(u.session_id@)
            &&& field(t, "shot_id"@) == Some(count_tree(u.shot_id as nat))
            &&& text_field(t, "module"@) == Some(u.module@)
            &&& field(v, "parakeet"@) == Some(Tree::Bool(r.parakeet))
            &&& field(v, "web"@) == Some(Tree::Bool(r.web))
            &&& field(v, "no_wait"@) == Some(Tree::Bool(r.no_wait))
            &&& field(w, "once"@) == Some(Tree::Bool(l.once))
            &&& field(w, "poll_ms"@) == Some(count_tree(l.poll_ms as nat))
            &&& text_field(args_of(Commands::Show(s)), "session_id"@) == Some(s.session_id@)
            &&& n.n matches Some(k) ==> field(args_of(Commands::List(n)), "n"@) == Some(
                count_tree(k as nat),
            )
        }),
{
    reveal_strlit("session_id");
    reveal_strlit("shot_id");
    reveal_strlit("module");
    reveal_strlit("parakeet");
    reveal_strlit("web");
    reveal_strlit("no_wait");
    reveal_strlit("once");
    reveal_strlit("poll_ms");
    assert("session_id"@.len() == 10 && "shot_id"@.len() == 7 && "module"@.len() == 6);
    assert("parakeet"@.len() == 8 && "web"@.len() == 3 && "no_wait"@.len() == 7);
    assert("once"@.len() == 4 && "poll_ms"@.len() == 7);
    let p = screenshot_use_pairs(u);
    pairs_read_back(p, 0);
    pairs_read_back(p, 1);
    pairs_read_back(p, 2);
    let q = restart_pairs(r);
    pairs_read_back(q, 0);
    pairs_read_back(q, 1);
    pairs_read_back(q, 2);
    let x = live_pairs(l);
    pairs_read_back(x, 0);
    pairs_read_back(x, 1);
    pairs_read_back(show_pairs(s), 0);
    pairs_read_back(list_pairs(n), 0);
}

/// What is told of the commands that set up, check, hand out and watch is what they were given: the
/// flags, the numbers, the session, and only whether something was named that can hold anything.
pub proof fn given_arguments_are_told(
    u: SetupArgs,
    d: DoctorArgs,
    c: CopyArgs,
    s: SendArgs,
    h: HtmlArgs,
    p: PerfArgs,
    w: WatchClipboardArgs,
    m: WatchMaxDurationArgs,
)
    ensures
        ({
            let t = args_of(Commands::Setup(u));
            let v = args_of(Commands::WatchMaxDuration(m));
            &&& field(t, "skip_packages"@) == Some(Tree::Bool(u.skip_packages))
            &&& field(t, "skip_model"@) == Some(Tree::Bool(u.skip_model))
            &&& field(t, "python_override"@) == Some(Tree::Bool(u.python is Some))
            &&& field(t, "runtime_dir_override"@) == Some(Tree::Bool(u.runtime_dir is Some))
            &&& field(args_of(Commands::Doctor(d)), "deep"@) == Some(Tree::Bool(d.deep))
            &&& c.n matches Some(k) ==> field(args_of(Commands::Copy(c)), "n"@) == Some(
                count_tree(k as nat),
            )
            &&& c.n is None ==> field(args_of(Commands::Copy(c)), "n"@) == Some(Tree::Null)
            &&& s.n matches Some(k) ==> field(args_of(Commands::Send(s)), "n"@) == Some(
                count_tree(k as nat),
            )
            &&& args_of(Commands::SendImages(s)) == args_of(Commands::Send(s))
            &&& p.n matches Some(k) ==> field(args_of(Commands::Perf(p)), "n"@) == Some(
                count_tree(k as nat),
            )
            &&& h.session_id matches Some(id) ==> text_field(args_of(Commands::Html(h)), "session_id"@)
                == Some(id@)
            &&& text_field(args_of(Commands::WatchClipboard(w)), "session_id"@) == Some(
                w.session_id@,
            )
            &&& text_field(v, "session_id"@) == Some(m.session_id@)
            &&& field(v, "max_sec"@) == Some(Tree::Number(m.max_sec@))
            &&& field(v, "ffmpeg_pid"@) == Some(int_tree(m.ffmpeg_pid as int))
        }),
{
    reveal_strlit("skip_packages");
    reveal_strlit("skip_model");
    reveal_strlit("python_override");
    reveal_strlit("runtime_dir_override");
    reveal_strlit("session_id");
    reveal_strlit("max_sec");
    reveal_strlit("ffmpeg_pid");
    assert("skip_packages"@.len() == 13 && "skip_model"@.len() == 10);
    assert("python_override"@.len() == 15 && "runtime_dir_override"@.len() == 20);
    assert("session_id"@[0] == 's' && "max_sec"@.len() == 7 && "ffmpeg_pid"@[0] == 'f');
    let a = setup_pairs(u);
    pairs_read_back(a, 0);
    pairs_read_back(a, 1);
    pairs_read_back(a, 2);
    pairs_read_back(a, 3);
    pairs_read_back(doctor_pairs(d), 0);
    pairs_read_back(copy_pairs(c), 0);
    pairs_read_back(send_pairs(s), 0);
    pairs_read_back(perf_pairs(p), 0);
    pairs_read_back(html_pairs(h), 0);
    pairs_read_back(watch_clipboard_pairs(w), 0);
    let b = watch_max_duration_pairs(m);
    pairs_read_back(b, 0);
    pairs_read_back(b, 1);
    pairs_read_back(b, 2);
}

/// What is told of the commands to the daemon is the action, by its name, and of an event that is sent
/// its type, its level, its session and whether it has data.
pub proof fn daemon_commands_are_told(d: DaemonArgs, e: EmitArgs)
    ensures
        ({
            let t = args_of(Commands::Daemon(d));
            let v = args_of(Commands::Emit(e));
            &&& d.action is Run ==> text_field(t, "action"@) == Some("run"@)
            &&& d.action is Start ==> text_field(t, "action"@) == Some("start"@)
            &&& d.action is Stop ==> text_field(t, "action"@) == Some("stop"@)
            &&& d.action is Status ==> text_field(t, "action"@) == Some("status"@)
            &&& text_field(v, "type"@) == Some(e.event_type@)
            &&& field(v, "has_data"@) == Some(Tree::Bool(e.data is Some))
            &&& e.session matches Some(s) ==> text_field(v, "session"@) == Some(s@)
            &&& text_field(v, "level"@) == Some(e.level@)
        }),
{
    reveal_strlit("type");
    reveal_strlit("has_data");
    reveal_strlit("session");
    reveal_strlit("level");
    assert("type"@.len() == 4 && "has_data"@.len() == 8 && "session"@.len() == 7 && "level"@.len()
        == 5);
    pairs_read_back(daemon_pairs(d), 0);
    let p = emit_pairs(e);
    pairs_read_back(p, 0);
    pairs_read_back(p, 1);
    pairs_read_back(p, 2);
    pairs_read_back(p, 3);
}

/// Every command goes by the name under which it is called.
pub proof fn commands_go_by_name(c: Commands)
    ensures
        c is Start ==> command_name(c) == "start"@,
        c is Shot ==> command_name(c) == "shot"@,
        c is Stop ==> command_name(c) == "stop"@,
        c is Toggle ==> command_name(c) == "toggle"@,
        c is Fork ==> command_name(c) == "fork"@,
        c is Live ==> command_name(c) == "live"@,
        c is Watch ==> command_name(c) == "watch"@,
        c is Chunk ==> command_name(c) == "chunk"@,
        c is Pause ==> command_name(c) == "pause"@,
        c is Unpause ==> command_name(c) == "unpause"@,
        c is TogglePause ==> command_name(c) == "toggle-pause"@,
        c is Setup ==> command_name(c) == "setup"@,
        c is Doctor ==> command_name(c) == "doctor"@,
        c is List ==> command_name(c) == "list"@,
        c is Show ==> command_name(c) == "show"@,
        c is Copy ==> command_name(c) == "copy"@,
        c is Send ==> command_name(c) == "send"@,
        c is SendImages ==> command_name(c) == "send-images"@,
        c is Html ==> command_name(c) == "html"@,
        c is ScreenshotUse ==> command_name(c) == "screenshot-use"@,
        c is Sounds ==> command_name(c) == "sounds"@,
        c is Silence ==> command_name(c) == "silence"@,
        c is Loud ==> command_name(c) == "loud"@,
        c is Status ==> command_name(c) == "status"@,
        c is Hooks ==> command_name(c) == "hooks"@,
        c is Perf ==> command_name(c) == "perf"@,
        c is WatchClipboard ==> command_name(c) == "watch-clipboard"@,
        c is WatchMaxDuration ==> command_name(c) == "watch-max-duration"@,
        c is KillServer ==> command_name(c) == "kill-server"@,
        c is Restart ==> command_name(c) == "restart"@,
        c is Daemon ==> command_name(c) == "daemon"@,
        c is Emit ==> command_name(c) == "emit"@,
{
}

/// Of a model that was asked for it is told only that one was.
pub proof fn asked_for_models_are_told_of(a: StopArgs, b: ToggleArgs)
    ensures
        field(args_of(Commands::Stop(a)), "parakeet_model_override"@) == Some(
            Tree::Bool(a.parakeet_model is Some),
        ),
        field(args_of(Commands::Toggle(b)), "parakeet_model_override"@) == Some(
            Tree::Bool(b.parakeet_model is Some),
        ),
{
    pairs_read_back(stop_pairs(a), 5);
    pairs_read_back(toggle_pairs(b), 7);
}

} // verus!
