//! The data of a session.

use vstd::prelude::*;

use crate::json::{opt_view, Number, NumberView};
use crate::measure::Measure;

verus! {

/// The state of a session that is being recorded.
#[derive(Debug)]
pub struct SessionState {
    pub session_id: String,
    pub session_dir: String,
    pub screenshots_dir: String,
    pub audio_path: String,
    pub events_path: String,
    pub ffmpeg_log_path: String,
    pub ffmpeg_pid: Option<i32>,
    pub started_at_iso: String,
    pub started_at_epoch: Measure,
    pub screenshot_source_dir: String,
    pub audio_device: String,
    pub engine: String,
    pub clipboard_watcher_pid: Option<i32>,
    pub transcription_watcher_pid: Option<i32>,
    pub transcription_cursor_sec: Measure,
    pub transcription_paused: bool,
    pub transcription_pause_started_sec: Option<Measure>,
}

/// A screenshot of a session.
#[derive(Debug)]
pub struct ShotMeta {
    pub shot_id: u64,
    pub dest_rel_path: String,
    pub audio_sec: Number,
    pub app_name: Option<String>,
    pub app_bundle_id: Option<String>,
    pub app_pid: Option<i32>,
    pub window_title: Option<String>,
    pub app_capture_error: Option<String>,
    pub proc_cpu_percent: Option<Number>,
    pub proc_mem_percent: Option<Number>,
    pub proc_rss_kb: Option<u64>,
    pub proc_elapsed: Option<String>,
    pub proc_state: Option<String>,
    pub proc_command: Option<String>,
    pub proc_capture_error: Option<String>,
}

/// The model of a screenshot.
#[verifier::ext_equal]
pub struct ShotView {
    pub shot_id: u64,
    pub dest_rel_path: Seq<char>,
    pub audio_sec: NumberView,
    pub app_name: Option<Seq<char>>,
    pub app_bundle_id: Option<Seq<char>>,
    pub app_pid: Option<i32>,
    pub window_title: Option<Seq<char>>,
    pub app_capture_error: Option<Seq<char>>,
    pub proc_cpu_percent: Option<NumberView>,
    pub proc_mem_percent: Option<NumberView>,
    pub proc_rss_kb: Option<u64>,
    pub proc_elapsed: Option<Seq<char>>,
    pub proc_state: Option<Seq<char>>,
    pub proc_command: Option<Seq<char>>,
    pub proc_capture_error: Option<Seq<char>>,
}

/// The view of an optional number.
pub open spec fn opt_number(n: Option<Number>) -> Option<NumberView> {
    match n {
        Some(v) => Some(v@),
        None => None,
    }
}

impl View for ShotMeta {
    type V = ShotView;

    open spec fn view(&self) -> ShotView {
        ShotView {
            shot_id: self.shot_id,
            dest_rel_path: self.dest_rel_path@,
            audio_sec: self.audio_sec@,
            app_name: opt_view(self.app_name),
            app_bundle_id: opt_view(self.app_bundle_id),
            app_pid: self.app_pid,
            window_title: opt_view(self.window_title),
            app_capture_error: opt_view(self.app_capture_error),
            proc_cpu_percent: opt_number(self.proc_cpu_percent),
            proc_mem_percent: opt_number(self.proc_mem_percent),
            proc_rss_kb: self.proc_rss_kb,
            proc_elapsed: opt_view(self.proc_elapsed),
            proc_state: opt_view(self.proc_state),
            proc_command: opt_view(self.proc_command),
            proc_capture_error: opt_view(self.proc_capture_error),
        }
    }
}

/// A text that was on the clipboard during a session.
#[derive(Debug)]
pub struct ClipboardMeta {
    pub clip_id: u64,
    pub text: String,
    pub audio_sec: Number,
}

/// The model of a clipboard text.
#[verifier::ext_equal]
pub struct ClipView {
    pub clip_id: u64,
    pub text: Seq<char>,
    pub audio_sec: NumberView,
}

impl View for ClipboardMeta {
    type V = ClipView;

    open spec fn view(&self) -> ClipView {
        ClipView { clip_id: self.clip_id, text: self.text@, audio_sec: self.audio_sec@ }
    }
}

/// The models of a list of screenshots.
pub open spec fn shot_views(v: Seq<ShotMeta>) -> Seq<ShotView> {
    v.map_values(|s: ShotMeta| s@)
}

/// The models of a list of clipboard texts.
pub open spec fn clip_views(v: Seq<ClipboardMeta>) -> Seq<ClipView> {
    v.map_values(|c: ClipboardMeta| c@)
}

/// A row in the list of sessions.
#[derive(Debug)]
pub struct SessionListRow {
    pub session_id: String,
    pub timestamp: String,
    pub summary: String,
    pub images: usize,
    pub duration: String,
}

} // verus!
