//! The steps by which a session is started and ended, and what an error in one of them means.

use vstd::prelude::*;

use crate::models::SessionState;
use crate::stopping::{wakes_recorder, StopStrategy};

verus! {

// ---------------------------------------------------------------------------------------------
// Lists of steps
// ---------------------------------------------------------------------------------------------

/// `s` with `x` behind it, where `wanted`.
pub open spec fn push_if<T>(s: Seq<T>, wanted: bool, x: T) -> Seq<T> {
    if wanted {
        s.push(x)
    } else {
        s
    }
}

/// `s` with what `x` holds behind it.
pub open spec fn push_some<T>(s: Seq<T>, x: Option<T>) -> Seq<T> {
    match x {
        Some(v) => s.push(v),
        None => s,
    }
}

// ---------------------------------------------------------------------------------------------
// Ending
// ---------------------------------------------------------------------------------------------

/// A step of ending a session.
#[derive(PartialEq, Eq, Structural, Clone, Copy, Debug)]
pub enum StopStep {
    /// The clipboard watcher is asked to stop.
    StopClipboardWatcher(i32),
    /// The session tells that it is about to end.
    TellStopping,
    /// The recorder is woken, so that it can end its file.
    WakeRecorder(i32),
    /// The recorder is stopped.
    StopRecorder(i32),
    /// The transcription watcher is waited for, and forced to stop where it does not.
    AwaitWatcher(i32),
    /// What is left of the recording is transcribed.
    FlushRest,
    /// The directory that screenshots are taken from is looked for.
    CheckSource,
    /// The screenshots that would be moved are listed.
    LookForScreenshots,
    /// The screenshots that were taken elsewhere are moved to the session.
    MoveScreenshots,
    /// It is said that nothing is transcribed.
    SkipTranscription,
    /// The session is transcribed.
    Transcribe(StopStrategy),
    /// It is said that no command runs after the transcription.
    SkipPostProcess,
    /// The command after the transcription runs, where there is a transcript.
    PostProcess,
    /// The length of the recording is looked up.
    MeasureAudio,
    /// The hooks run on the transcript.
    RunHooks,
    /// The note and the page are made.
    Render,
    /// The note is written.
    WriteNote,
    /// The page is written.
    WritePage,
    /// The session tells that it has ended.
    TellStopped,
    /// It is kept as the one that ended last.
    KeepLast,
    /// The page of all sessions is written.
    WriteIndex,
    /// It is no longer the active session.
    ClearState,
    /// The web server is started.
    ServeWeb,
    /// What was measured is kept.
    KeepTimes,
    /// The sound of the end is played.
    PlaySound,
}

impl StopStep {
    /// The place of a step among the others.
    pub open spec fn rank(self) -> int {
        match self {
            StopStep::StopClipboardWatcher(_) => 0,
            StopStep::TellStopping => 1,
            StopStep::WakeRecorder(_) => 2,
            StopStep::StopRecorder(_) => 3,
            StopStep::AwaitWatcher(_) => 4,
            StopStep::FlushRest => 5,
            StopStep::CheckSource => 6,
            StopStep::LookForScreenshots => 7,
            StopStep::MoveScreenshots => 8,
            StopStep::SkipTranscription => 9,
            StopStep::Transcribe(_) => 10,
            StopStep::SkipPostProcess => 11,
            StopStep::PostProcess => 12,
            StopStep::MeasureAudio => 13,
            StopStep::RunHooks => 14,
            StopStep::Render => 15,
            StopStep::WriteNote => 16,
            StopStep::WritePage => 17,
            StopStep::TellStopped => 18,
            StopStep::KeepLast => 19,
            StopStep::WriteIndex => 20,
            StopStep::ClearState => 21,
            StopStep::ServeWeb => 22,
            StopStep::KeepTimes => 23,
            StopStep::PlaySound => 24,
        }
    }

    /// Whether an error in this step ends the command.
    pub open spec fn is_fatal(self) -> bool {
        match self {
            StopStep::TellStopping
            | StopStep::StopRecorder(_)
            | StopStep::CheckSource
            | StopStep::LookForScreenshots
            | StopStep::MoveScreenshots
            | StopStep::WriteNote
            | StopStep::WritePage
            | StopStep::TellStopped
            | StopStep::KeepLast
            | StopStep::WriteIndex
            | StopStep::ClearState => true,
            _ => false,
        }
    }

    /// Whether an error in this step ends the command.
    pub fn ends_command(&self) -> (r: bool)
        ensures
            r == self.is_fatal(),
    {
        match self {
            StopStep::TellStopping
            | StopStep::StopRecorder(_)
            | StopStep::CheckSource
            | StopStep::LookForScreenshots
            | StopStep::MoveScreenshots
            | StopStep::WriteNote
            | StopStep::WritePage
            | StopStep::TellStopped
            | StopStep::KeepLast
            | StopStep::WriteIndex
            | StopStep::ClearState => true,
            _ => false,
        }
    }

    /// Whether this step leaves everything as it is: no process is started or stopped and no file
    /// is written.
    pub open spec fn only_looks(self) -> bool {
        match self {
            StopStep::CheckSource
            | StopStep::LookForScreenshots
            | StopStep::SkipTranscription
            | StopStep::SkipPostProcess
            | StopStep::MeasureAudio
            | StopStep::Render => true,
            _ => false,
        }
    }
}

/// Whether steps stand in their order, and all come before the step of this rank.
pub open spec fn stop_steps_ascend(s: Seq<StopStep>, rank: int) -> bool {
    &&& forall|i: int, j: int| 0 <= i < j < s.len() ==> s[i].rank() < s[j].rank()
    &&& forall|i: int| 0 <= i < s.len() ==> (#[trigger] s[i]).rank() < rank
}

proof fn lemma_stop_steps_ascend_if(s: Seq<StopStep>, wanted: bool, x: StopStep)
    requires
        stop_steps_ascend(s, x.rank()),
    ensures
        stop_steps_ascend(push_if(s, wanted, x), x.rank() + 1),
{
}

proof fn lemma_stop_steps_ascend_some(s: Seq<StopStep>, x: Option<StopStep>, rank: int)
    requires
        stop_steps_ascend(s, rank),
        x matches Some(v) ==> v.rank() == rank,
    ensures
        stop_steps_ascend(push_some(s, x), rank + 1),
{
}

/// A process of a session, as a step on it.
pub open spec fn stop_clipboard(state: SessionState) -> Option<StopStep> {
    match state.clipboard_watcher_pid {
        Some(pid) => Some(StopStep::StopClipboardWatcher(pid)),
        None => None,
    }
}

/// The step that wakes the recorder, where it is paused and lives.
pub open spec fn wake_recorder(state: SessionState, alive: bool) -> Option<StopStep> {
    match state.ffmpeg_pid {
        Some(pid) => if state.transcription_paused && alive {
            Some(StopStep::WakeRecorder(pid))
        } else {
            None
        },
        None => None,
    }
}

/// The step that stops the recorder, where there is one.
pub open spec fn stop_recorder(state: SessionState) -> Option<StopStep> {
    match state.ffmpeg_pid {
        Some(pid) => Some(StopStep::StopRecorder(pid)),
        None => None,
    }
}

/// The step that waits for the transcription watcher, where there is one. What streams a recording
/// is asked for the rest where the session is transcribed.
pub open spec fn await_watcher(state: SessionState, strategy: StopStrategy) -> Option<StopStep> {
    match state.transcription_watcher_pid {
        Some(pid) => if strategy == StopStrategy::Stream {
            None
        } else {
            Some(StopStep::AwaitWatcher(pid))
        },
        None => None,
    }
}

/// The steps before a session is transcribed.
pub open spec fn steps_before(
    state: SessionState,
    strategy: StopStrategy,
    alive: bool,
) -> Seq<StopStep> {
    let s = push_some(Seq::empty(), stop_clipboard(state));
    let s = s.push(StopStep::TellStopping);
    let s = push_some(s, wake_recorder(state, alive));
    let s = push_some(s, stop_recorder(state));
    let s = push_some(s, await_watcher(state, strategy));
    push_if(s, strategy == StopStrategy::Chunked, StopStep::FlushRest)
}

/// The steps from where a session is transcribed.
pub open spec fn steps_after(strategy: StopStrategy) -> Seq<StopStep> {
    seq![
        StopStep::CheckSource,
        StopStep::MoveScreenshots,
        StopStep::Transcribe(strategy),
        StopStep::PostProcess,
        StopStep::MeasureAudio,
        StopStep::RunHooks,
        StopStep::Render,
        StopStep::WriteNote,
        StopStep::WritePage,
        StopStep::TellStopped,
        StopStep::KeepLast,
        StopStep::WriteIndex,
        StopStep::ClearState,
        StopStep::ServeWeb,
        StopStep::KeepTimes,
        StopStep::PlaySound,
    ]
}

/// The steps of ending a session.
pub open spec fn stop_steps(
    state: SessionState,
    strategy: StopStrategy,
    alive: bool,
    dry_run: bool,
) -> Seq<StopStep> {
    if dry_run {
        seq![
            StopStep::CheckSource,
            StopStep::LookForScreenshots,
            StopStep::SkipTranscription,
            StopStep::SkipPostProcess,
            StopStep::MeasureAudio,
            StopStep::Render,
        ]
    } else {
        steps_before(state, strategy, alive) + steps_after(strategy)
    }
}

/// The steps of ending a session, in their order. `alive` says whether its recorder lives.
pub fn stop_plan(state: &SessionState, strategy: StopStrategy, alive: bool, dry_run: bool) -> (r: Vec<
    StopStep,
>)
    ensures
        r@ == stop_steps(*state, strategy, alive, dry_run),
{
    let mut out: Vec<StopStep> = Vec::new();
    if dry_run {
        out.push(StopStep::CheckSource);
        out.push(StopStep::LookForScreenshots);
        out.push(StopStep::SkipTranscription);
        out.push(StopStep::SkipPostProcess);
        out.push(StopStep::MeasureAudio);
        out.push(StopStep::Render);
        assert(out@ =~= stop_steps(*state, strategy, alive, dry_run));
        return out;
    }
    if let Some(pid) = state.clipboard_watcher_pid {
        out.push(StopStep::StopClipboardWatcher(pid));
    }
    out.push(StopStep::TellStopping);
    if let Some(pid) = state.ffmpeg_pid {
        if wakes_recorder(state, alive) {
            out.push(StopStep::WakeRecorder(pid));
        }
        out.push(StopStep::StopRecorder(pid));
    }
    if let Some(pid) = state.transcription_watcher_pid {
        match strategy {
            StopStrategy::Stream => {},
            _ => {
                out.push(StopStep::AwaitWatcher(pid));
            },
        }
    }
    match strategy {
        StopStrategy::Chunked => {
            out.push(StopStep::FlushRest);
        },
        _ => {},
    }
    assert(out@ =~= steps_before(*state, strategy, alive));
    let ghost before = out@;
    out.push(StopStep::CheckSource);
    out.push(StopStep::MoveScreenshots);
    out.push(StopStep::Transcribe(strategy));
    out.push(StopStep::PostProcess);
    out.push(StopStep::MeasureAudio);
    out.push(StopStep::RunHooks);
    out.push(StopStep::Render);
    out.push(StopStep::WriteNote);
    out.push(StopStep::WritePage);
    out.push(StopStep::TellStopped);
    out.push(StopStep::KeepLast);
    out.push(StopStep::WriteIndex);
    out.push(StopStep::ClearState);
    out.push(StopStep::ServeWeb);
    out.push(StopStep::KeepTimes);
    out.push(StopStep::PlaySound);
    assert(out@ =~= before + steps_after(strategy));
    out
}

/// A session is ended in one order: no step comes twice, the recorder is stopped before anything is
/// transcribed, and the session is active until its note, its page and its last event are written.
pub proof fn sessions_end_in_order(
    state: SessionState,
    strategy: StopStrategy,
    alive: bool,
    dry_run: bool,
)
    ensures
        forall|i: int, j: int|
            #![trigger stop_steps(state, strategy, alive, dry_run)[i], stop_steps(state, strategy, alive, dry_run)[j]]
            0 <= i < j < stop_steps(state, strategy, alive, dry_run).len() ==> stop_steps(
                state,
                strategy,
                alive,
                dry_run,
            )[i].rank() < stop_steps(state, strategy, alive, dry_run)[j].rank(),
        forall|pid: i32, s: StopStrategy|
            StopStep::StopRecorder(pid).rank() < #[trigger] StopStep::FlushRest.rank()
                && StopStep::StopRecorder(pid).rank() < StopStep::Transcribe(s).rank(),
        StopStep::WriteNote.rank() < StopStep::ClearState.rank(),
        StopStep::WritePage.rank() < StopStep::ClearState.rank(),
        StopStep::TellStopped.rank() < StopStep::ClearState.rank(),
{
    if !dry_run {
        let none = Seq::<StopStep>::empty();
        let a = push_some(none, stop_clipboard(state));
        lemma_stop_steps_ascend_some(none, stop_clipboard(state), 0);
        lemma_stop_steps_ascend_if(a, true, StopStep::TellStopping);
        let b = a.push(StopStep::TellStopping);
        lemma_stop_steps_ascend_some(b, wake_recorder(state, alive), 2);
        let c = push_some(b, wake_recorder(state, alive));
        lemma_stop_steps_ascend_some(c, stop_recorder(state), 3);
        let d = push_some(c, stop_recorder(state));
        lemma_stop_steps_ascend_some(d, await_watcher(state, strategy), 4);
        let e = push_some(d, await_watcher(state, strategy));
        lemma_stop_steps_ascend_if(e, strategy == StopStrategy::Chunked, StopStep::FlushRest);
        lemma_after_ascends(steps_before(state, strategy, alive), strategy);
    }
}

proof fn lemma_after_ascends(s: Seq<StopStep>, strategy: StopStrategy)
    requires
        stop_steps_ascend(s, 6),
    ensures
        stop_steps_ascend(s + steps_after(strategy), 25),
{
    let t = steps_after(strategy);
    let a = s + t;
    assert forall|i: int, j: int| 0 <= i < j < t.len() implies t[i].rank() < t[j].rank() by {
        lemma_after_rank(strategy, i);
        lemma_after_rank(strategy, j);
    }
    assert forall|i: int| 0 <= i < t.len() implies 6 <= (#[trigger] t[i]).rank() < 25 by {
        lemma_after_rank(strategy, i);
    }
    assert forall|i: int, j: int| 0 <= i < j < a.len() implies a[i].rank() < a[j].rank() by {
        if i >= s.len() {
            assert(a[i] == t[i - s.len()] && a[j] == t[j - s.len()]);
        } else if j >= s.len() {
            assert(a[i] == s[i] && a[j] == t[j - s.len()]);
        } else {
            assert(a[i] == s[i] && a[j] == s[j]);
        }
    }
    assert forall|i: int| 0 <= i < a.len() implies (#[trigger] a[i]).rank() < 25 by {
        if i >= s.len() {
            assert(a[i] == t[i - s.len()]);
        } else {
            assert(a[i] == s[i]);
        }
    }
}

/// The rank of the steps from where a session is transcribed.
pub open spec fn after_rank(i: int) -> int {
    if i == 0 {
        6
    } else if i == 1 {
        8
    } else if i == 2 {
        10
    } else {
        i + 9
    }
}

proof fn lemma_after_rank(strategy: StopStrategy, i: int)
    requires
        0 <= i < steps_after(strategy).len(),
    ensures
        steps_after(strategy)[i].rank() == after_rank(i),
{
    let t = steps_after(strategy);
    assert(t.len() == 16);
    assert(i == 0 || i == 1 || i == 2 || i == 3 || i == 4 || i == 5 || i == 6 || i == 7 || i == 8
        || i == 9 || i == 10 || i == 11 || i == 12 || i == 13 || i == 14 || i
        == 15);
}

/// A dry run of a stop leaves everything as it is.
pub proof fn dry_stops_only_look(state: SessionState, strategy: StopStrategy, alive: bool)
    ensures
        forall|i: int|
            0 <= i < stop_steps(state, strategy, alive, true).len() ==> (#[trigger] stop_steps(
                state,
                strategy,
                alive,
                true,
            )[i]).only_looks(),
{
}

// ---------------------------------------------------------------------------------------------
// Starting
// ---------------------------------------------------------------------------------------------

/// A step of starting a session.
#[derive(PartialEq, Eq, Structural, Clone, Copy, Debug)]
pub enum StartStep {
    /// The engine is looked at: whether it is known and has what it needs.
    CheckEngine,
    /// The clipboard watcher of an earlier session is asked to stop.
    StopClipboardWatcher(i32),
    /// The transcription watcher of an earlier session is stopped.
    StopWatcher(i32),
    /// Another session is still recorded: no second one is started.
    RefuseSecond,
    /// What is left of an earlier session is removed.
    RemoveStale,
    /// The directory that screenshots are taken from is looked for.
    FindScreenshotDir,
    /// The device to record from is chosen.
    ChooseDevice,
    /// It is said what would be done.
    ShowPlan,
    /// The directories of the session are made.
    CreateDirs,
    /// The session tells that it begins.
    TellStarted,
    /// The recorder is looked for.
    CheckRecorder,
    /// The recorder is started, with another device where the first is none.
    SpawnRecorder,
    /// The session becomes the active one.
    SaveState,
    /// The clipboard watcher is started.
    SpawnClipboardWatcher,
    /// The session keeps the clipboard watcher, where one was started.
    SaveClipboardWatcher,
    /// What transcribes while it is recorded is started.
    SpawnWatcher,
    /// What ends a session that lasts too long is started.
    SpawnWatchdog,
    /// The transcription server is started.
    WarmServer,
    /// What was measured is kept.
    KeepTimes,
    /// The sound of the start is played.
    PlaySound,
}

impl StartStep {
    /// Whether an error in this step ends the command.
    pub open spec fn is_fatal(self) -> bool {
        match self {
            StartStep::CheckEngine
            | StartStep::RefuseSecond
            | StartStep::RemoveStale
            | StartStep::FindScreenshotDir
            | StartStep::CreateDirs
            | StartStep::TellStarted
            | StartStep::CheckRecorder
            | StartStep::SpawnRecorder
            | StartStep::SaveState
            | StartStep::SaveClipboardWatcher
            | StartStep::SpawnWatcher => true,
            _ => false,
        }
    }

    /// Whether an error in this step ends the command.
    pub fn ends_command(&self) -> (r: bool)
        ensures
            r == self.is_fatal(),
    {
        match self {
            StartStep::CheckEngine
            | StartStep::RefuseSecond
            | StartStep::RemoveStale
            | StartStep::FindScreenshotDir
            | StartStep::CreateDirs
            | StartStep::TellStarted
            | StartStep::CheckRecorder
            | StartStep::SpawnRecorder
            | StartStep::SaveState
            | StartStep::SaveClipboardWatcher
            | StartStep::SpawnWatcher => true,
            _ => false,
        }
    }

    /// Whether this step leaves everything as it is: no process is started or stopped and no file
    /// is written.
    pub open spec fn only_looks(self) -> bool {
        match self {
            StartStep::CheckEngine
            | StartStep::RefuseSecond
            | StartStep::FindScreenshotDir
            | StartStep::ChooseDevice
            | StartStep::ShowPlan
            | StartStep::CheckRecorder => true,
            _ => false,
        }
    }
}

/// The step that stops the clipboard watcher of an earlier session.
pub open spec fn stop_earlier_clipboard(state: SessionState) -> Option<StartStep> {
    match state.clipboard_watcher_pid {
        Some(pid) => Some(StartStep::StopClipboardWatcher(pid)),
        None => None,
    }
}

/// The step that stops the transcription watcher of an earlier session.
pub open spec fn stop_earlier_watcher(state: SessionState) -> Option<StartStep> {
    match state.transcription_watcher_pid {
        Some(pid) => Some(StartStep::StopWatcher(pid)),
        None => None,
    }
}

/// Whether an earlier session is still recorded.
pub open spec fn still_recorded(earlier: Option<SessionState>, alive: bool) -> bool {
    earlier matches Some(s) && s.ffmpeg_pid is Some && alive
}

/// The steps on an earlier session.
pub open spec fn clearing_steps(
    earlier: Option<SessionState>,
    alive: bool,
    dry_run: bool,
) -> Seq<StartStep> {
    let s = seq![StartStep::CheckEngine];
    match earlier {
        Some(state) => {
            let s = if dry_run {
                s
            } else {
                push_some(
                    push_some(s, stop_earlier_clipboard(state)),
                    stop_earlier_watcher(state),
                )
            };
            if still_recorded(earlier, alive) {
                s.push(StartStep::RefuseSecond)
            } else {
                push_if(s, !dry_run, StartStep::RemoveStale)
            }
        },
        None => s,
    }
}

/// The steps of starting a session.
pub open spec fn start_steps(
    earlier: Option<SessionState>,
    alive: bool,
    warms_server: bool,
    dry_run: bool,
) -> Seq<StartStep> {
    let s = clearing_steps(earlier, alive, dry_run);
    if still_recorded(earlier, alive) {
        s
    } else if dry_run {
        s + seq![
            StartStep::FindScreenshotDir,
            StartStep::ChooseDevice,
            StartStep::ShowPlan,
        ]
    } else {
        push_if(
            s + seq![
                StartStep::FindScreenshotDir,
                StartStep::ChooseDevice,
                StartStep::CreateDirs,
                StartStep::TellStarted,
                StartStep::CheckRecorder,
                StartStep::SpawnRecorder,
                StartStep::SaveState,
                StartStep::SpawnClipboardWatcher,
                StartStep::SaveClipboardWatcher,
                StartStep::SpawnWatcher,
                StartStep::SpawnWatchdog,
            ],
            warms_server,
            StartStep::WarmServer,
        ) + seq![StartStep::KeepTimes, StartStep::PlaySound]
    }
}

/// The steps of starting a session, in their order. `earlier` is the session that is recorded as
/// active, and `alive` says whether its recorder lives.
pub fn start_plan(
    earlier: &Option<SessionState>,
    alive: bool,
    warms_server: bool,
    dry_run: bool,
) -> (r: Vec<StartStep>)
    ensures
        r@ == start_steps(*earlier, alive, warms_server, dry_run),
{
    let mut out: Vec<StartStep> = Vec::new();
    out.push(StartStep::CheckEngine);
    assert(out@ =~= seq![StartStep::CheckEngine]);
    let mut refused = false;
    if let Some(state) = earlier {
        if !dry_run {
            if let Some(pid) = state.clipboard_watcher_pid {
                out.push(StartStep::StopClipboardWatcher(pid));
            }
            if let Some(pid) = state.transcription_watcher_pid {
                out.push(StartStep::StopWatcher(pid));
            }
        }
        if state.ffmpeg_pid.is_some() && alive {
            refused = true;
            out.push(StartStep::RefuseSecond);
        } else if !dry_run {
            out.push(StartStep::RemoveStale);
        }
    }
    assert(out@ =~= clearing_steps(*earlier, alive, dry_run));
    assert(refused == still_recorded(*earlier, alive));
    if refused {
        return out;
    }
    let ghost cleared = out@;
    out.push(StartStep::FindScreenshotDir);
    out.push(StartStep::ChooseDevice);
    if dry_run {
        out.push(StartStep::ShowPlan);
        assert(out@ =~= cleared + seq![
            StartStep::FindScreenshotDir,
            StartStep::ChooseDevice,
            StartStep::ShowPlan,
        ]);
        return out;
    }
    out.push(StartStep::CreateDirs);
    out.push(StartStep::TellStarted);
    out.push(StartStep::CheckRecorder);
    out.push(StartStep::SpawnRecorder);
    out.push(StartStep::SaveState);
    out.push(StartStep::SpawnClipboardWatcher);
    out.push(StartStep::SaveClipboardWatcher);
    out.push(StartStep::SpawnWatcher);
    out.push(StartStep::SpawnWatchdog);
    if warms_server {
        out.push(StartStep::WarmServer);
    }
    out.push(StartStep::KeepTimes);
    out.push(StartStep::PlaySound);
    assert(out@ =~= start_steps(*earlier, alive, warms_server, dry_run));
    out
}

/// A dry run of a start leaves everything as it is.
pub proof fn dry_starts_only_look(earlier: Option<SessionState>, alive: bool, warms_server: bool)
    ensures
        forall|i: int|
            0 <= i < start_steps(earlier, alive, warms_server, true).len() ==> (
            #[trigger] start_steps(earlier, alive, warms_server, true)[i]).only_looks(),
{
}

/// While a session is recorded no other is: its start ends with a refusal, and starts no recorder.
pub proof fn one_session_at_a_time(
    earlier: Option<SessionState>,
    alive: bool,
    warms_server: bool,
    dry_run: bool,
)
    requires
        still_recorded(earlier, alive),
    ensures
        start_steps(earlier, alive, warms_server, dry_run).last() == StartStep::RefuseSecond,
        !start_steps(earlier, alive, warms_server, dry_run).contains(StartStep::SpawnRecorder),
{
}

/// The steps on a session whose start is given up: nothing is left to record into.
pub fn abandoned_plan(state: &SessionState) -> (r: Vec<StopStep>)
    ensures
        r@ == push_some(Seq::empty(), stop_recorder(*state)).push(StopStep::ClearState),
{
    let mut out: Vec<StopStep> = Vec::new();
    if let Some(pid) = state.ffmpeg_pid {
        out.push(StopStep::StopRecorder(pid));
    }
    out.push(StopStep::ClearState);
    assert(out@ =~= push_some(Seq::empty(), stop_recorder(*state)).push(StopStep::ClearState));
    out
}

// ---------------------------------------------------------------------------------------------
// Splitting
// ---------------------------------------------------------------------------------------------

/// A step of splitting a session: what is recorded goes on in a new one, and the old one is ended.
#[derive(PartialEq, Eq, Structural, Clone, Copy, Debug)]
pub enum ForkStep {
    /// It is said what would be done.
    ShowPlan,
    /// The recorder of the old session is woken, so that it can end its file.
    WakeRecorder(i32),
    /// The recorder of the old session is stopped.
    StopRecorder(i32),
    /// The clipboard watcher of the old session is asked to stop.
    StopClipboardWatcher(i32),
    /// The old session is no longer the active one.
    ClearState,
    /// The new session is started.
    StartNew,
    /// The old session is made the active one once more, to be ended.
    BringBackOld,
    /// The old session is ended.
    EndOld,
    /// The new session is made the active one again.
    BringBackNew,
}

impl ForkStep {
    /// Whether an error in this step ends the command at once. An error in ending the old session,
    /// or in what follows, is told when all is done.
    pub open spec fn is_fatal(self) -> bool {
        match self {
            ForkStep::StopRecorder(_)
            | ForkStep::ClearState
            | ForkStep::StartNew
            | ForkStep::BringBackOld => true,
            _ => false,
        }
    }

    /// Whether an error in this step ends the command at once.
    pub fn ends_command(&self) -> (r: bool)
        ensures
            r == self.is_fatal(),
    {
        match self {
            ForkStep::StopRecorder(_)
            | ForkStep::ClearState
            | ForkStep::StartNew
            | ForkStep::BringBackOld => true,
            _ => false,
        }
    }
}

/// The steps on the old session before the new one is started.
pub open spec fn parting_steps(old: SessionState, alive: bool) -> Seq<ForkStep> {
    let s = match old.ffmpeg_pid {
        Some(pid) => push_if(
            Seq::empty(),
            old.transcription_paused && alive,
            ForkStep::WakeRecorder(pid),
        ).push(ForkStep::StopRecorder(pid)),
        None => Seq::empty(),
    };
    let s = match old.clipboard_watcher_pid {
        Some(pid) => s.push(ForkStep::StopClipboardWatcher(pid)),
        None => s,
    };
    s.push(ForkStep::ClearState)
}

/// The steps of splitting a session.
pub open spec fn fork_steps(old: SessionState, alive: bool, dry_run: bool) -> Seq<ForkStep> {
    if dry_run {
        seq![ForkStep::ShowPlan]
    } else {
        parting_steps(old, alive) + seq![
            ForkStep::StartNew,
            ForkStep::BringBackOld,
            ForkStep::EndOld,
            ForkStep::BringBackNew,
        ]
    }
}

/// The steps of splitting a session, in their order. `alive` says whether its recorder lives.
pub fn fork_plan(old: &SessionState, alive: bool, dry_run: bool) -> (r: Vec<ForkStep>)
    ensures
        r@ == fork_steps(*old, alive, dry_run),
{
    let mut out: Vec<ForkStep> = Vec::new();
    if dry_run {
        out.push(ForkStep::ShowPlan);
        assert(out@ =~= fork_steps(*old, alive, dry_run));
        return out;
    }
    if let Some(pid) = old.ffmpeg_pid {
        if wakes_recorder(old, alive) {
            out.push(ForkStep::WakeRecorder(pid));
        }
        out.push(ForkStep::StopRecorder(pid));
    }
    if let Some(pid) = old.clipboard_watcher_pid {
        out.push(ForkStep::StopClipboardWatcher(pid));
    }
    out.push(ForkStep::ClearState);
    assert(out@ =~= parting_steps(*old, alive));
    out.push(ForkStep::StartNew);
    out.push(ForkStep::BringBackOld);
    out.push(ForkStep::EndOld);
    out.push(ForkStep::BringBackNew);
    assert(out@ =~= fork_steps(*old, alive, dry_run));
    out
}

/// A split leaves the new session active, and no two sessions are recorded at a time: the recorder of
/// the old session is stopped before the new one is started, and the old one is ended only then.
pub proof fn splits_leave_the_new_session_active(old: SessionState, alive: bool)
    ensures
        fork_steps(old, alive, false).last() == ForkStep::BringBackNew,
        old.ffmpeg_pid matches Some(pid) ==> parting_steps(old, alive).contains(
            ForkStep::StopRecorder(pid),
        ),
        fork_steps(old, alive, false)[parting_steps(old, alive).len() as int] == ForkStep::StartNew,
        fork_steps(old, alive, false)[parting_steps(old, alive).len() as int + 2]
            == ForkStep::EndOld,
{
    if let Some(pid) = old.ffmpeg_pid {
        let s = parting_steps(old, alive);
        let at: int = if old.transcription_paused && alive {
            1
        } else {
            0
        };
        assert(s[at] == ForkStep::StopRecorder(pid));
    }
}

// ---------------------------------------------------------------------------------------------
// What is never left out
// ---------------------------------------------------------------------------------------------

proof fn lemma_held_before<T>(a: Seq<T>, b: Seq<T>, x: T)
    ensures
        a.contains(x) ==> (a + b).contains(x),
        b.contains(x) ==> (a + b).contains(x),
{
    let s = a + b;
    if a.contains(x) {
        let i = choose|i: int| 0 <= i < a.len() && a[i] == x;
        assert(s[i] == x);
    }
    if b.contains(x) {
        let i = choose|i: int| 0 <= i < b.len() && b[i] == x;
        assert(s[a.len() + i] == x);
    }
}

proof fn lemma_push_holds<T>(s: Seq<T>, x: T, y: T)
    ensures
        s.push(x).contains(x),
        s.contains(y) ==> s.push(x).contains(y),
{
    assert(s.push(x)[s.len() as int] == x);
    if s.contains(y) {
        let i = choose|i: int| 0 <= i < s.len() && s[i] == y;
        assert(s.push(x)[i] == y);
    }
}

/// Ending a session stops its recorder, takes its screenshots in, transcribes it in the chosen way,
/// and writes its note, its page and its last event before it is no longer active.
pub proof fn endings_leave_nothing_out(state: SessionState, strategy: StopStrategy, alive: bool)
    ensures
        ({
            let s = stop_steps(state, strategy, alive, false);
            &&& state.ffmpeg_pid matches Some(pid) ==> s.contains(StopStep::StopRecorder(pid))
            &&& s.contains(StopStep::TellStopping)
            &&& s.contains(StopStep::MoveScreenshots)
            &&& s.contains(StopStep::Transcribe(strategy))
            &&& s.contains(StopStep::PostProcess)
            &&& s.contains(StopStep::RunHooks)
            &&& s.contains(StopStep::WriteNote)
            &&& s.contains(StopStep::WritePage)
            &&& s.contains(StopStep::TellStopped)
            &&& s.contains(StopStep::KeepLast)
            &&& s.contains(StopStep::WriteIndex)
            &&& s.contains(StopStep::ClearState)
            &&& strategy == StopStrategy::Chunked ==> s.contains(StopStep::FlushRest)
            &&& state.transcription_watcher_pid matches Some(pid) ==> (strategy
                != StopStrategy::Stream ==> s.contains(StopStep::AwaitWatcher(pid)))
            &&& state.clipboard_watcher_pid matches Some(pid) ==> s.contains(
                StopStep::StopClipboardWatcher(pid),
            )
            &&& state.transcription_paused && alive ==> (state.ffmpeg_pid matches Some(pid)
                ==> s.contains(StopStep::WakeRecorder(pid)))
        }),
{
    let a = steps_before(state, strategy, alive);
    let b = steps_after(strategy);
    assert(b[1] == StopStep::MoveScreenshots && b[2] == StopStep::Transcribe(strategy));
    assert(b[3] == StopStep::PostProcess && b[5] == StopStep::RunHooks);
    assert(b[7] == StopStep::WriteNote && b[8] == StopStep::WritePage);
    assert(b[9] == StopStep::TellStopped && b[10] == StopStep::KeepLast);
    assert(b[11] == StopStep::WriteIndex && b[12] == StopStep::ClearState);
    lemma_held_before(a, b, StopStep::MoveScreenshots);
    lemma_held_before(a, b, StopStep::Transcribe(strategy));
    lemma_held_before(a, b, StopStep::PostProcess);
    lemma_held_before(a, b, StopStep::RunHooks);
    lemma_held_before(a, b, StopStep::WriteNote);
    lemma_held_before(a, b, StopStep::WritePage);
    lemma_held_before(a, b, StopStep::TellStopped);
    lemma_held_before(a, b, StopStep::KeepLast);
    lemma_held_before(a, b, StopStep::WriteIndex);
    lemma_held_before(a, b, StopStep::ClearState);
    lemma_before_holds(state, strategy, alive, StopStep::TellStopping);
    lemma_held_before(a, b, StopStep::TellStopping);
    lemma_before_holds(state, strategy, alive, StopStep::FlushRest);
    lemma_held_before(a, b, StopStep::FlushRest);
    if let Some(pid) = state.ffmpeg_pid {
        lemma_before_holds(state, strategy, alive, StopStep::StopRecorder(pid));
        lemma_held_before(a, b, StopStep::StopRecorder(pid));
        lemma_before_holds(state, strategy, alive, StopStep::WakeRecorder(pid));
        lemma_held_before(a, b, StopStep::WakeRecorder(pid));
    }
    if let Some(pid) = state.transcription_watcher_pid {
        lemma_before_holds(state, strategy, alive, StopStep::AwaitWatcher(pid));
        lemma_held_before(a, b, StopStep::AwaitWatcher(pid));
    }
    if let Some(pid) = state.clipboard_watcher_pid {
        lemma_before_holds(state, strategy, alive, StopStep::StopClipboardWatcher(pid));
        lemma_held_before(a, b, StopStep::StopClipboardWatcher(pid));
    }
}

proof fn lemma_before_holds(
    state: SessionState,
    strategy: StopStrategy,
    alive: bool,
    x: StopStep,
)
    ensures
        ({
            let held = steps_before(state, strategy, alive).contains(x);
            &&& x == StopStep::TellStopping ==> held
            &&& x == StopStep::FlushRest && strategy == StopStrategy::Chunked ==> held
            &&& stop_clipboard(state) == Some(x) ==> held
            &&& wake_recorder(state, alive) == Some(x) ==> held
            &&& stop_recorder(state) == Some(x) ==> held
            &&& await_watcher(state, strategy) == Some(x) ==> held
        }),
{
    let s0 = push_some(Seq::empty(), stop_clipboard(state));
    if let Some(y) = stop_clipboard(state) {
        lemma_push_holds(Seq::<StopStep>::empty(), y, x);
    }
    let s1 = s0.push(StopStep::TellStopping);
    lemma_push_holds(s0, StopStep::TellStopping, x);
    let s2 = push_some(s1, wake_recorder(state, alive));
    if let Some(y) = wake_recorder(state, alive) {
        lemma_push_holds(s1, y, x);
    }
    let s3 = push_some(s2, stop_recorder(state));
    if let Some(y) = stop_recorder(state) {
        lemma_push_holds(s2, y, x);
    }
    let s4 = push_some(s3, await_watcher(state, strategy));
    if let Some(y) = await_watcher(state, strategy) {
        lemma_push_holds(s3, y, x);
    }
    lemma_push_holds(s4, StopStep::FlushRest, x);
}

/// Starting a session where none is recorded finds what it needs, spawns the recorder, and only then
/// keeps the session as active and spawns what runs beside it. The server is warmed where that is
/// wanted.
pub proof fn starts_keep_what_they_spawn(alive: bool)
    ensures
        start_steps(None, alive, false, false) == seq![
            StartStep::CheckEngine,
            StartStep::FindScreenshotDir,
            StartStep::ChooseDevice,
            StartStep::CreateDirs,
            StartStep::TellStarted,
            StartStep::CheckRecorder,
            StartStep::SpawnRecorder,
            StartStep::SaveState,
            StartStep::SpawnClipboardWatcher,
            StartStep::SaveClipboardWatcher,
            StartStep::SpawnWatcher,
            StartStep::SpawnWatchdog,
            StartStep::KeepTimes,
            StartStep::PlaySound,
        ],
        start_steps(None, alive, true, false).contains(StartStep::WarmServer),
        !start_steps(None, alive, false, false).contains(StartStep::WarmServer),
{
    let s = start_steps(None, alive, false, false);
    assert(s =~= seq![
        StartStep::CheckEngine,
        StartStep::FindScreenshotDir,
        StartStep::ChooseDevice,
        StartStep::CreateDirs,
        StartStep::TellStarted,
        StartStep::CheckRecorder,
        StartStep::SpawnRecorder,
        StartStep::SaveState,
        StartStep::SpawnClipboardWatcher,
        StartStep::SaveClipboardWatcher,
        StartStep::SpawnWatcher,
        StartStep::SpawnWatchdog,
        StartStep::KeepTimes,
        StartStep::PlaySound,
    ]);
    assert(start_steps(None, alive, true, false)[12] == StartStep::WarmServer);
}

/// What is left of an earlier session that is no longer recorded is stopped and removed before the
/// new one is started.
pub proof fn stale_sessions_are_removed(state: SessionState, warms_server: bool)
    ensures
        ({
            let s = clearing_steps(Some(state), false, false);
            &&& s.last() == StartStep::RemoveStale
            &&& state.clipboard_watcher_pid matches Some(pid) ==> s.contains(
                StartStep::StopClipboardWatcher(pid),
            )
            &&& state.transcription_watcher_pid matches Some(pid) ==> s.contains(
                StartStep::StopWatcher(pid),
            )
            &&& s.is_prefix_of(start_steps(Some(state), false, warms_server, false))
            &&& start_steps(Some(state), false, warms_server, false).contains(
                StartStep::SpawnRecorder,
            )
        }),
{
    let s0 = seq![StartStep::CheckEngine];
    let s1 = push_some(s0, stop_earlier_clipboard(state));
    let s2 = push_some(s1, stop_earlier_watcher(state));
    let s = clearing_steps(Some(state), false, false);
    assert(s == s2.push(StartStep::RemoveStale));
    if let Some(pid) = state.clipboard_watcher_pid {
        let x = StartStep::StopClipboardWatcher(pid);
        lemma_push_holds(s0, x, x);
        if let Some(y) = stop_earlier_watcher(state) {
            lemma_push_holds(s1, y, x);
        }
        lemma_push_holds(s2, StartStep::RemoveStale, x);
    }
    if let Some(pid) = state.transcription_watcher_pid {
        let x = StartStep::StopWatcher(pid);
        lemma_push_holds(s1, x, x);
        lemma_push_holds(s2, StartStep::RemoveStale, x);
    }
    let all = start_steps(Some(state), false, warms_server, false);
    assert(all.subrange(0, s.len() as int) =~= s);
    assert(all[s.len() + 5int] == StartStep::SpawnRecorder);
}

/// A split stops the recorder and the clipboard watcher of the old session, starts the new one, ends
/// the old one and makes the new one active.
pub proof fn splits_go_in_order(old: SessionState, alive: bool)
    ensures
        old.ffmpeg_pid is None && old.clipboard_watcher_pid is None ==> fork_steps(old, alive, false)
            == seq![
            ForkStep::ClearState,
            ForkStep::StartNew,
            ForkStep::BringBackOld,
            ForkStep::EndOld,
            ForkStep::BringBackNew,
        ],
        !(old.transcription_paused && alive) ==> (old.ffmpeg_pid matches Some(pid) ==> (
        old.clipboard_watcher_pid matches Some(clip) ==> fork_steps(old, alive, false) == seq![
            ForkStep::StopRecorder(pid),
            ForkStep::StopClipboardWatcher(clip),
            ForkStep::ClearState,
            ForkStep::StartNew,
            ForkStep::BringBackOld,
            ForkStep::EndOld,
            ForkStep::BringBackNew,
        ])),
        old.transcription_paused && alive ==> (old.ffmpeg_pid matches Some(pid) ==> fork_steps(
            old,
            alive,
            false,
        )[0] == ForkStep::WakeRecorder(pid) && fork_steps(old, alive, false)[1]
            == ForkStep::StopRecorder(pid)),
        fork_steps(old, alive, true) == seq![ForkStep::ShowPlan],
{
    let s = fork_steps(old, alive, false);
    if old.ffmpeg_pid is None && old.clipboard_watcher_pid is None {
        assert(s =~= seq![
            ForkStep::ClearState,
            ForkStep::StartNew,
            ForkStep::BringBackOld,
            ForkStep::EndOld,
            ForkStep::BringBackNew,
        ]);
    }
    if !(old.transcription_paused && alive) && old.ffmpeg_pid is Some
        && old.clipboard_watcher_pid is Some {
        assert(s =~= seq![
            ForkStep::StopRecorder(old.ffmpeg_pid->0),
            ForkStep::StopClipboardWatcher(old.clipboard_watcher_pid->0),
            ForkStep::ClearState,
            ForkStep::StartNew,
            ForkStep::BringBackOld,
            ForkStep::EndOld,
            ForkStep::BringBackNew,
        ]);
    }
}

/// What could not be written ends a command, and what only goes beside it does not: a session that
/// could not be transcribed is ended all the same.
pub proof fn lost_writes_end_commands(pid: i32, strategy: StopStrategy)
    ensures
        StopStep::StopRecorder(pid).is_fatal(),
        StopStep::WriteNote.is_fatal() && StopStep::WritePage.is_fatal(),
        StopStep::MoveScreenshots.is_fatal() && StopStep::ClearState.is_fatal(),
        StopStep::TellStopped.is_fatal() && StopStep::CheckSource.is_fatal(),
        !StopStep::Transcribe(strategy).is_fatal() && !StopStep::PostProcess.is_fatal(),
        !StopStep::RunHooks.is_fatal() && !StopStep::PlaySound.is_fatal(),
        !StopStep::StopClipboardWatcher(pid).is_fatal() && !StopStep::ServeWeb.is_fatal(),
        StartStep::SpawnRecorder.is_fatal() && StartStep::SaveState.is_fatal(),
        StartStep::CheckEngine.is_fatal() && StartStep::RefuseSecond.is_fatal(),
        !StartStep::WarmServer.is_fatal() && !StartStep::PlaySound.is_fatal(),
        !StartStep::SpawnClipboardWatcher.is_fatal(),
        ForkStep::StartNew.is_fatal() && ForkStep::StopRecorder(pid).is_fatal(),
        !ForkStep::EndOld.is_fatal() && !ForkStep::BringBackNew.is_fatal(),
{
}

/// A session of which nothing runs any more is ended in this order.
pub proof fn endings_go_in_order(state: SessionState, strategy: StopStrategy, alive: bool)
    requires
        state.clipboard_watcher_pid is None,
        state.ffmpeg_pid is None,
        state.transcription_watcher_pid is None,
        strategy != StopStrategy::Chunked,
    ensures
        stop_steps(state, strategy, alive, false) == seq![
            StopStep::TellStopping,
            StopStep::CheckSource,
            StopStep::MoveScreenshots,
            StopStep::Transcribe(strategy),
            StopStep::PostProcess,
            StopStep::MeasureAudio,
            StopStep::RunHooks,
            StopStep::Render,
            StopStep::WriteNote,
            StopStep::WritePage,
            StopStep::TellStopped,
            StopStep::KeepLast,
            StopStep::WriteIndex,
            StopStep::ClearState,
            StopStep::ServeWeb,
            StopStep::KeepTimes,
            StopStep::PlaySound,
        ],
        stop_steps(state, strategy, alive, true) == seq![
            StopStep::CheckSource,
            StopStep::LookForScreenshots,
            StopStep::SkipTranscription,
            StopStep::SkipPostProcess,
            StopStep::MeasureAudio,
            StopStep::Render,
        ],
{
    assert(stop_steps(state, strategy, alive, false) =~= seq![
        StopStep::TellStopping,
        StopStep::CheckSource,
        StopStep::MoveScreenshots,
        StopStep::Transcribe(strategy),
        StopStep::PostProcess,
        StopStep::MeasureAudio,
        StopStep::RunHooks,
        StopStep::Render,
        StopStep::WriteNote,
        StopStep::WritePage,
        StopStep::TellStopped,
        StopStep::KeepLast,
        StopStep::WriteIndex,
        StopStep::ClearState,
        StopStep::ServeWeb,
        StopStep::KeepTimes,
        StopStep::PlaySound,
    ]);
}

/// What runs of a session is stopped before it is transcribed: the watcher of the clipboard first, the
/// recorder behind the news, its watcher behind that.
pub proof fn endings_stop_what_runs(
    state: SessionState,
    strategy: StopStrategy,
    clip: i32,
    pid: i32,
    watcher: i32,
)
    requires
        state.clipboard_watcher_pid == Some(clip),
        state.ffmpeg_pid == Some(pid),
        state.transcription_watcher_pid == Some(watcher),
    ensures
        ({
            let plain = stop_steps(state, strategy, false, false);
            let woken = stop_steps(state, strategy, true, false);
            &&& plain[0] == StopStep::StopClipboardWatcher(clip)
            &&& plain[1] == StopStep::TellStopping
            &&& plain[2] == StopStep::StopRecorder(pid)
            &&& strategy == StopStrategy::Chunked ==> plain[3] == StopStep::AwaitWatcher(watcher)
                && plain[4] == StopStep::FlushRest && plain[5] == StopStep::CheckSource
            &&& strategy == StopStrategy::Stream ==> plain[3] == StopStep::CheckSource
            &&& state.transcription_paused ==> woken[2] == StopStep::WakeRecorder(pid) && woken[3]
                == StopStep::StopRecorder(pid)
            &&& !state.transcription_paused ==> woken == plain
        }),
{
}

/// A session whose recorder lives keeps another from starting, and nothing else does.
pub proof fn living_recorders_keep_others_out(state: SessionState, alive: bool, warms_server: bool)
    ensures
        state.ffmpeg_pid is Some && alive ==> start_steps(Some(state), alive, warms_server, false)
            .last() == StartStep::RefuseSecond,
        state.ffmpeg_pid is None || !alive ==> !still_recorded(Some(state), alive),
        !still_recorded(None, alive),
{
}

} // verus!
