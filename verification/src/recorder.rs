//! The processes beside a session: how the recorder is started, paused and stopped, how a watcher is
//! waited for, and how a sound is played.

use vstd::prelude::*;

use crate::bus::{decode, lossy_text};
use crate::error::{app_error, AppError};
use crate::json::str_view;
use crate::number::{decimal, decimal_text, signed_decimal, signed_text};
use crate::pattern::views;
use crate::template::{command_line, join_escaped};
use crate::text::{concat, concat3};

verus! {

// ---------------------------------------------------------------------------------------------
// Starting
// ---------------------------------------------------------------------------------------------

/// The error where there is no command to record with.
pub fn empty_command_error() -> (r: AppError)
    ensures
        r.code == 1,
        r.message@ == "Internal error: empty recorder command"@,
{
    app_error(1, "Internal error: empty recorder command")
}

/// The error where the recorder could not be started.
pub fn recorder_spawn_error(error: &str) -> (r: AppError)
    ensures
        r.code == 6,
        r.message@ == "Failed to start ffmpeg recorder: "@ + error@,
{
    app_error(6, concat("Failed to start ffmpeg recorder: ", error).as_str())
}

/// The line that the log of the recorder begins with.
pub fn start_log_line(ts: &str, record_cmd: &Vec<String>) -> (r: String)
    ensures
        r@ == "["@ + ts@ + "] start_cmd="@ + command_line(views(record_cmd@)) + "\n"@,
{
    let mut out = concat3("[", ts, "] start_cmd=");
    out.append(join_escaped(record_cmd).as_str());
    out.append("\n");
    out
}

/// What is known of a process that was just started.
#[derive(PartialEq, Eq, Structural, Clone, Copy, Debug)]
pub enum StartSight {
    Exited,
    Runs,
    Waiting,
}

/// What is known of a process that was just started: it runs where it has not exited within the time
/// that it is given.
pub fn start_sight(exited: bool, expired: bool) -> (r: StartSight)
    ensures
        r == if exited {
            StartSight::Exited
        } else if expired {
            StartSight::Runs
        } else {
            StartSight::Waiting
        },
{
    if exited {
        StartSight::Exited
    } else if expired {
        StartSight::Runs
    } else {
        StartSight::Waiting
    }
}

/// The last bytes of a file.
pub open spec fn last_bytes(bytes: Seq<u8>, max: nat) -> Seq<u8> {
    if bytes.len() > max {
        bytes.subrange(bytes.len() - max, bytes.len() as int)
    } else {
        bytes
    }
}

/// The end of a file, as text.
pub fn read_tail(bytes: &Vec<u8>, max_bytes: usize) -> (r: String)
    ensures
        r@ == lossy_text(last_bytes(bytes@, max_bytes as nat)),
{
    let from: usize = if bytes.len() > max_bytes {
        bytes.len() - max_bytes
    } else {
        0
    };
    let mut tail: Vec<u8> = Vec::new();
    let mut i: usize = from;
    while i < bytes.len()
        invariant
            from <= i <= bytes.len(),
            tail@ == bytes@.subrange(from as int, i as int),
        decreases bytes.len() - i,
    {
        tail.push(bytes[i]);
        i = i + 1;
        assert(tail@ =~= bytes@.subrange(from as int, i as int));
    }
    assert(bytes@.subrange(0, bytes@.len() as int) =~= bytes@);
    decode(tail.as_slice())
}

/// The end of a file is all of it, where the file is short.
pub proof fn short_files_are_their_tails(bytes: Seq<u8>, max: nat)
    ensures
        last_bytes(bytes, max).len() <= max,
        bytes.len() <= max ==> last_bytes(bytes, max) == bytes,
        last_bytes(bytes, max).is_suffix_of(bytes),
{
    assert(bytes.subrange(0, bytes.len() as int) =~= bytes);
}

/// The error where the recorder exited as soon as it was started.
pub fn recorder_exited_error(log_tail: &str) -> (r: AppError)
    ensures
        r.code == 6,
        r.message@ == "Audio recorder exited immediately. Check audio device / permissions.\nffmpeg log tail:\n"@ + log_tail@,
{
    app_error(6, concat("Audio recorder exited immediately. Check audio device / permissions.\nffmpeg log tail:\n", log_tail).as_str())
}

// ---------------------------------------------------------------------------------------------
// Pausing and stopping
// ---------------------------------------------------------------------------------------------

/// The signal that the recorder is sent to pause, or to go on.
pub open spec fn capture_signal_name(pause: bool) -> Seq<char> {
    if pause {
        "SIGSTOP"@
    } else {
        "SIGCONT"@
    }
}

/// What comes of a signal to a recorder. `sent` is the error of sending it, where it was sent.
pub open spec fn is_capture_result(
    r: Result<(), AppError>,
    pid: i32,
    alive: bool,
    pause: bool,
    sent: Option<Seq<char>>,
) -> bool {
    if !alive {
        r matches Err(e) && e.code == 1 && e.message@ == "Recorder pid="@ + signed_decimal(
            pid as int,
        ) + " is not alive; cannot "@ + (if pause {
            "pause"@
        } else {
            "resume"@
        }) + "."@
    } else {
        match sent {
            Some(m) => r matches Err(e) && e.code == 1 && e.message@ == "Failed to "@
                + capture_signal_name(pause) + " recorder pid="@ + signed_decimal(pid as int)
                + ": "@ + m,
            None => r is Ok,
        }
    }
}

/// What comes of a signal to a recorder to pause (`pause`), or to go on.
pub fn capture_result(pid: i32, alive: bool, pause: bool, sent: Option<&str>) -> (r: Result<
    (),
    AppError,
>)
    ensures
        is_capture_result(r, pid, alive, pause, str_view(sent)),
{
    if !alive {
        let mut m = concat3(
            "Recorder pid=",
            signed_text(pid as i64).as_str(),
            " is not alive; cannot ",
        );
        m.append(
            if pause {
                "pause"
            } else {
                "resume"
            },
        );
        m.append(".");
        return Err(app_error(1, m.as_str()));
    }
    match sent {
        Some(s) => Err(
            signal_error(
                if pause {
                    "SIGSTOP"
                } else {
                    "SIGCONT"
                },
                pid,
                s,
            ),
        ),
        None => Ok(()),
    }
}

/// The error where the recorder could not be signalled.
pub fn signal_error(signal: &str, pid: i32, error: &str) -> (r: AppError)
    ensures
        r.code == 1,
        r.message@ == "Failed to "@ + signal@ + " recorder pid="@ + signed_decimal(pid as int) + ": "@ + error@,
{
    let mut m = concat3("Failed to ", signal, " recorder pid=");
    m.append(signed_text(pid as i64).as_str());
    m.append(": ");
    m.append(error);
    app_error(1, m.as_str())
}

/// How far a process is with being stopped.
#[derive(PartialEq, Eq, Structural, Clone, Copy, Debug)]
pub enum Stopping {
    /// It was not signalled yet.
    Begin,
    /// It was asked to stop.
    Asked,
    /// Nothing more is done.
    Ended,
}

/// What is done next to stop a process.
#[derive(PartialEq, Eq, Structural, Clone, Copy, Debug)]
pub enum StoppingMove {
    /// It is asked to stop.
    Ask,
    /// It is waited for.
    Wait,
    /// It is forced to stop.
    Force,
    /// Nothing.
    Nothing,
}

/// What follows where a process is stopped: it is asked to, waited for, and forced where it still
/// lives once the time is over.
pub open spec fn stopping_step(s: Stopping, alive: bool, expired: bool) -> (
    Stopping,
    StoppingMove,
) {
    match s {
        Stopping::Begin => if alive {
            (Stopping::Asked, StoppingMove::Ask)
        } else {
            (Stopping::Ended, StoppingMove::Nothing)
        },
        Stopping::Asked => if expired {
            (Stopping::Ended, StoppingMove::Force)
        } else if alive {
            (Stopping::Asked, StoppingMove::Wait)
        } else {
            (Stopping::Ended, StoppingMove::Nothing)
        },
        Stopping::Ended => (Stopping::Ended, StoppingMove::Nothing),
    }
}

/// The next step towards a process that is stopped. The recorder is asked with an interrupt and
/// forced to terminate after eight seconds; the transcription watcher is asked to terminate and
/// killed after 1.2 seconds.
pub fn stop_process(s: &mut Stopping, alive: bool, expired: bool) -> (r: StoppingMove)
    ensures
        (*final(s), r) == stopping_step(*old(s), alive, expired),
{
    match *s {
        Stopping::Begin => if alive {
            *s = Stopping::Asked;
            StoppingMove::Ask
        } else {
            *s = Stopping::Ended;
            StoppingMove::Nothing
        },
        Stopping::Asked => if expired {
            *s = Stopping::Ended;
            StoppingMove::Force
        } else if alive {
            StoppingMove::Wait
        } else {
            *s = Stopping::Ended;
            StoppingMove::Nothing
        },
        Stopping::Ended => StoppingMove::Nothing,
    }
}

/// A process is forced only where it was asked before and the time is over, and a process that does
/// not live when the stop begins is not signalled at all.
pub proof fn processes_are_asked_first(s: Stopping, alive: bool, expired: bool)
    ensures
        stopping_step(s, alive, expired).1 == StoppingMove::Force ==> s == Stopping::Asked
            && expired,
        stopping_step(s, alive, expired).1 == StoppingMove::Ask ==> s == Stopping::Begin && alive,
        stopping_step(Stopping::Begin, false, expired) == (
            Stopping::Ended,
            StoppingMove::Nothing,
        ),
        stopping_step(Stopping::Ended, alive, expired) == (
            Stopping::Ended,
            StoppingMove::Nothing,
        ),
{
}

/// How far a watcher is with what it does.
#[derive(PartialEq, Eq, Structural, Clone, Copy, Debug)]
pub enum WatcherWait {
    Finished,
    TimedOut,
    Waiting,
}

/// Whether a watcher has finished, within the time that it is given.
pub fn watcher_wait(alive: bool, expired: bool) -> (r: WatcherWait)
    ensures
        r == if expired {
            WatcherWait::TimedOut
        } else if alive {
            WatcherWait::Waiting
        } else {
            WatcherWait::Finished
        },
{
    if expired {
        WatcherWait::TimedOut
    } else if alive {
        WatcherWait::Waiting
    } else {
        WatcherWait::Finished
    }
}

// ---------------------------------------------------------------------------------------------
// Sounds
// ---------------------------------------------------------------------------------------------

/// What plays a sound several times, on its own.
pub const BEEP_SCRIPT: &'static str = "count=\"$1\"; path=\"$2\"; gap=\"$3\"; i=1; pids=\"\"; while [ \"$i\" -le \"$count\" ]; do afplay \"$path\" >/dev/null 2>&1 & p=\"$!\"; pids=\"$pids $p\"; i=$((i+1)); [ \"$i\" -le \"$count\" ] && sleep \"$gap\"; done; for p in $pids; do wait \"$p\" 2>/dev/null || true; done";

/// What a sound is played with.
pub enum Beep {
    /// It is not played.
    Silent,
    /// A shell that is given these arguments.
    Shell(Vec<String>),
    /// The bell of the system, by this script.
    Bell(String),
}

/// What is there to play a sound with.
pub struct BeepTools {
    pub no_beeps: bool,
    pub enabled: bool,
    pub player: bool,
    pub sound_file: bool,
    pub bell: bool,
}

/// What a sound is played with: a player where there is one and the sound is there, else the bell.
pub open spec fn is_beep(
    r: Beep,
    t: BeepTools,
    count: u8,
    sound_path: Seq<char>,
    gap_sec: Seq<char>,
) -> bool {
    if t.no_beeps || !t.enabled {
        r is Silent
    } else if t.player && t.sound_file {
        r matches Beep::Shell(args) && views(args@) == seq![
            "-c"@,
            BEEP_SCRIPT@,
            "riff-beep"@,
            decimal(count as nat),
            sound_path,
            gap_sec,
        ]
    } else if t.bell {
        r matches Beep::Bell(script) && script@ == "beep "@ + decimal(count as nat)
    } else {
        r is Silent
    }
}

/// What a sound is played with. The gap between two times is in seconds, with two decimals.
pub fn event_sound(t: &BeepTools, count: u8, sound_path: &str, gap_sec: &str) -> (r: Beep)
    ensures
        is_beep(r, *t, count, sound_path@, gap_sec@),
{
    if t.no_beeps || !t.enabled {
        return Beep::Silent;
    }
    if t.player && t.sound_file {
        let args = vec![
            "-c".to_owned(),
            BEEP_SCRIPT.to_owned(),
            "riff-beep".to_owned(),
            decimal_text(count as u64),
            sound_path.to_owned(),
            gap_sec.to_owned(),
        ];
        assert(views(args@) =~= seq![
            "-c"@,
            BEEP_SCRIPT@,
            "riff-beep"@,
            decimal(count as nat),
            sound_path@,
            gap_sec@,
        ]);
        return Beep::Shell(args);
    }
    if t.bell {
        return Beep::Bell(concat("beep ", decimal_text(count as u64).as_str()));
    }
    Beep::Silent
}

/// How the tool that picks sounds ended.
pub enum PickerEnd {
    /// There is no such tool.
    Missing,
    /// It could not be run.
    NotRun(String),
    /// It failed: its exit code, and its status as it is shown.
    Failed(Option<i32>, String),
    Done,
}

/// What comes of picking sounds.
pub fn picker_result(end: &PickerEnd) -> (r: Result<(), AppError>)
    ensures
        match *end {
            PickerEnd::Missing => r matches Err(e) && e.code == 1 && e.message@
                == "Could not find sound picker script. Expected scripts/pick_riff_sounds.sh"@,
            PickerEnd::NotRun(m) => r matches Err(e) && e.code == 1 && e.message@
                == "Failed to run sound picker: "@ + m@,
            PickerEnd::Failed(code, status) => r matches Err(e) && e.code == (match code {
                Some(c) => c,
                None => 1i32,
            }) && e.message@ == "Sound picker exited with status: "@ + status@,
            PickerEnd::Done => r is Ok,
        },
{
    match end {
        PickerEnd::Missing => Err(
            app_error(
                1,
                "Could not find sound picker script. Expected scripts/pick_riff_sounds.sh",
            ),
        ),
        PickerEnd::NotRun(m) => Err(
            app_error(1, concat("Failed to run sound picker: ", m.as_str()).as_str()),
        ),
        PickerEnd::Failed(code, status) => {
            let c: i32 = match code {
                Some(n) => *n,
                None => 1,
            };
            Err(
                app_error(c, concat("Sound picker exited with status: ", status.as_str()).as_str()),
            )
        },
        PickerEnd::Done => Ok(()),
    }
}

/// A process that is stopped is asked once, waited for while it lives and has time, and forced where
/// its time is over.
pub proof fn stopping_goes_step_by_step(alive: bool, expired: bool)
    ensures
        stopping_step(Stopping::Begin, true, expired) == (Stopping::Asked, StoppingMove::Ask),
        stopping_step(Stopping::Asked, true, false) == (Stopping::Asked, StoppingMove::Wait),
        stopping_step(Stopping::Asked, false, false) == (Stopping::Ended, StoppingMove::Nothing),
        stopping_step(Stopping::Asked, alive, true) == (Stopping::Ended, StoppingMove::Force),
{
}

/// The end of a file is as long as asked for, where the file is.
pub proof fn tails_are_as_long_as_asked(front: Seq<u8>, tail: Seq<u8>)
    ensures
        last_bytes(front + tail, tail.len()) == tail,
{
    let all = front + tail;
    assert(all.subrange(all.len() - tail.len(), all.len() as int) =~= tail);
    if front.len() == 0 {
        assert(all =~= tail);
    }
}

/// A recorder that lives and could be signalled is paused, or goes on; else it is said why not.
pub proof fn signals_reach_living_recorders(
    r: Result<(), AppError>,
    pid: i32,
    pause: bool,
    sent: Option<Seq<char>>,
)
    ensures
        is_capture_result(r, pid, true, pause, None) ==> r is Ok,
        is_capture_result(r, pid, false, pause, sent) ==> r is Err,
        sent is Some && is_capture_result(r, pid, true, pause, sent) ==> r is Err,
        is_capture_result(r, pid, false, true, sent) ==> (r matches Err(e) && e.message@
            == "Recorder pid="@ + signed_decimal(pid as int) + " is not alive; cannot "@ + "pause"@
            + "."@),
        sent is Some && is_capture_result(r, pid, true, false, sent) ==> (r matches Err(e)
            && e.message@ == "Failed to "@ + "SIGCONT"@ + " recorder pid="@ + signed_decimal(
            pid as int,
        ) + ": "@ + sent->0),
        capture_signal_name(true) == "SIGSTOP"@,
        capture_signal_name(false) == "SIGCONT"@,
{
}

/// A sound is played where sounds are wanted: from its file where there is a player for it, else by
/// the bell.
pub proof fn sounds_are_played_where_wanted(
    r: Beep,
    t: BeepTools,
    count: u8,
    sound_path: Seq<char>,
    gap_sec: Seq<char>,
)
    requires
        is_beep(r, t, count, sound_path, gap_sec),
    ensures
        t.no_beeps || !t.enabled ==> r is Silent,
        !t.no_beeps && t.enabled && t.player && t.sound_file ==> (r matches Beep::Shell(args)
            && args@.len() == 6 && args@[0]@ == "-c"@ && args@[1]@ == BEEP_SCRIPT@ && args@[2]@
            == "riff-beep"@ && args@[3]@ == decimal(count as nat) && args@[4]@ == sound_path
            && args@[5]@ == gap_sec),
        !t.no_beeps && t.enabled && !(t.player && t.sound_file) && t.bell ==> (
        r matches Beep::Bell(script) && script@ == "beep "@ + decimal(count as nat)),
        !t.no_beeps && t.enabled && !(t.player && t.sound_file) && !t.bell ==> r is Silent,
{
    if !t.no_beeps && t.enabled && t.player && t.sound_file {
        if let Beep::Shell(args) = r {
            let v = views(args@);
            assert(v.len() == args@.len());
            assert(v[3] == args@[3]@ && v[4] == args@[4]@ && v[5] == args@[5]@);
        }
    }
}

/// A recorder that does not live is neither paused nor resumed, and that is what is said; a signal that
/// could not be sent is named.
pub proof fn dead_recorders_are_not_paused(
    r: Result<(), AppError>,
    pid: i32,
    pause: bool,
    m: Seq<char>,
)
    ensures
        is_capture_result(r, pid, false, true, None) ==> (r matches Err(e) && e.code == 1
            && e.message@ == "Recorder pid="@ + signed_decimal(pid as int)
            + " is not alive; cannot "@ + "pause"@ + "."@),
        is_capture_result(r, pid, false, false, None) ==> (r matches Err(e) && e.code == 1
            && e.message@ == "Recorder pid="@ + signed_decimal(pid as int)
            + " is not alive; cannot "@ + "resume"@ + "."@),
        is_capture_result(r, pid, true, pause, Some(m)) ==> (r matches Err(e) && e.code == 1
            && e.message@ == "Failed to "@ + capture_signal_name(pause) + " recorder pid="@
            + signed_decimal(pid as int) + ": "@ + m),
        is_capture_result(r, pid, true, pause, None) ==> r is Ok,
{
}

} // verus!
