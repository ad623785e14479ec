//! How a session ends: what its transcript becomes, what is kept of it, and what is reported.

use vstd::prelude::*;

use crate::cli::StopArgs;
use crate::engine::{chosen_engine, engine_for, is_chunked, set_text, uses_chunks, Engine};
use crate::error::{app_error, AppError};
use crate::json::{
    count_tree, field, item_views, lookup, object_of, opt_text_tree, opt_view, pairs_read_back,
    put_is_found, str_view, text_field, with_entry, with_field, Json, Number, Pairs, Tree,
};
use crate::models::{shot_views, ClipboardMeta, SessionState, ShotMeta, ShotView};
use crate::number::{decimal, decimal_text, signed_decimal, signed_text};
use crate::perf::{opt_number_json, opt_number_tree};
use crate::session::{bool_word, shown_bool};
use crate::text::{concat, concat3, is_blank, same, trimmed};
use crate::transcription::{skipped, skipped_meta};

verus! {

// ---------------------------------------------------------------------------------------------
// What is done
// ---------------------------------------------------------------------------------------------

/// Where a command that is run at the end comes from.
pub open spec fn source_of(
    no_stop_hooks: bool,
    cli: Option<Seq<char>>,
    env: Option<Seq<char>>,
) -> Seq<char> {
    if no_stop_hooks {
        "disabled"@
    } else if set_text(cli) is Some {
        "cli"@
    } else if set_text(env) is Some {
        "env"@
    } else {
        "off"@
    }
}

fn is_set(s: Option<&str>) -> (r: bool)
    ensures
        r == (set_text(str_view(s)) is Some),
{
    match s {
        Some(t) => !is_blank(t),
        None => false,
    }
}

/// Where a command that is run at the end comes from: the command line, else the environment,
/// unless all of them are switched off.
pub fn command_source(no_stop_hooks: bool, cli: Option<&str>, env: Option<&str>) -> (r:
    &'static str)
    ensures
        r@ == source_of(no_stop_hooks, str_view(cli), str_view(env)),
{
    if no_stop_hooks {
        "disabled"
    } else if is_set(cli) {
        "cli"
    } else if is_set(env) {
        "env"
    } else {
        "off"
    }
}

fn text_ref<'a>(s: &'a Option<String>) -> (r: Option<&'a str>)
    ensures
        str_view(r) == opt_view(*s),
{
    match s {
        Some(t) => Some(t.as_str()),
        None => None,
    }
}

/// How a session is transcribed when it ends.
#[derive(PartialEq, Eq, Structural, Clone, Copy, Debug)]
pub enum StopStrategy {
    /// By a command of the user's.
    Custom,
    /// By what streamed it while it was recorded.
    Stream,
    /// What is left of it, behind what was transcribed while it was recorded.
    Chunked,
    /// All of it.
    Full,
}

/// How a session is transcribed when it ends.
pub open spec fn strategy_of(
    no_stop_hooks: bool,
    cli: Option<Seq<char>>,
    env: Option<Seq<char>>,
    streamed: bool,
    chunked: bool,
) -> StopStrategy {
    if !no_stop_hooks && (set_text(cli) is Some || set_text(env) is Some) {
        StopStrategy::Custom
    } else if streamed {
        StopStrategy::Stream
    } else if chunked {
        StopStrategy::Chunked
    } else {
        StopStrategy::Full
    }
}

/// How a session is transcribed when it ends. `env` is the command that the environment sets.
pub fn stop_strategy(args: &StopArgs, env: Option<&str>, state: &SessionState) -> (r: StopStrategy)
    ensures
        r == strategy_of(
            args.no_stop_hooks,
            opt_view(args.transcribe_cmd),
            str_view(env),
            chosen_engine(state.engine@) == Engine::ElevenLabs,
            is_chunked(*state),
        ),
{
    if !args.no_stop_hooks && (is_set(text_ref(&args.transcribe_cmd)) || is_set(env)) {
        StopStrategy::Custom
    } else if engine_for(state) == Engine::ElevenLabs {
        StopStrategy::Stream
    } else if uses_chunks(state) {
        StopStrategy::Chunked
    } else {
        StopStrategy::Full
    }
}

/// Where the commands of the user are switched off, none transcribes a session; and one does where
/// it is said to come from the command line or the environment, and only there.
pub proof fn switched_off_commands_do_not_run(
    no_stop_hooks: bool,
    cli: Option<Seq<char>>,
    env: Option<Seq<char>>,
    streamed: bool,
    chunked: bool,
)
    ensures
        no_stop_hooks ==> strategy_of(no_stop_hooks, cli, env, streamed, chunked)
            != StopStrategy::Custom,
        strategy_of(no_stop_hooks, cli, env, streamed, chunked) == StopStrategy::Custom <==> source_of(
            no_stop_hooks,
            cli,
            env,
        ) == "cli"@ || source_of(no_stop_hooks, cli, env) == "env"@,
{
    reveal_strlit("cli");
    reveal_strlit("env");
    reveal_strlit("off");
    reveal_strlit("disabled");
    assert("cli"@[0] != "off"@[0] && "env"@[0] != "off"@[0]);
    assert("disabled"@.len() == 8 && "cli"@.len() == 3 && "env"@.len() == 3);
}

/// Whether the recorder is woken before it is stopped: where it is paused, and lives.
pub fn wakes_recorder(state: &SessionState, alive: bool) -> (r: bool)
    ensures
        r == (state.ffmpeg_pid is Some && state.transcription_paused && alive),
{
    state.ffmpeg_pid.is_some() && state.transcription_paused && alive
}

/// Whether the directory that screenshots are taken from is there.
pub fn check_source_dir(source_dir: &str, is_dir: bool) -> (r: Result<(), AppError>)
    ensures
        r is Ok <==> is_dir,
        r matches Err(e) ==> e.code == 7 && e.message@ == "Screenshot source directory missing: "@
            + source_dir@,
{
    if is_dir {
        Ok(())
    } else {
        Err(app_error(7, concat("Screenshot source directory missing: ", source_dir).as_str()))
    }
}

/// The event of a session that is about to end.
pub fn session_stopping_event(ts: &str, session_id: &str) -> (r: Json)
    ensures
        r@ == Tree::Object(
            object_of(
                seq![
                    ("ts"@, Tree::Text(ts@)),
                    ("type"@, Tree::Text("session_stopping"@)),
                    ("session_id"@, Tree::Text(session_id@)),
                ],
            ),
        ),
{
    let mut p = Pairs::new();
    p.text("ts", ts);
    p.text("type", "session_stopping");
    p.text("session_id", session_id);
    assert(p@ == seq![
        ("ts"@, Tree::Text(ts@)),
        ("type"@, Tree::Text("session_stopping"@)),
        ("session_id"@, Tree::Text(session_id@)),
    ]);
    p.object()
}

/// A process id that may be missing, as it is shown to a developer.
pub open spec fn optional_pid(pid: Option<i32>) -> Seq<char> {
    match pid {
        Some(p) => "Some("@ + signed_decimal(p as int) + ")"@,
        None => "None"@,
    }
}

fn optional_pid_text(pid: Option<i32>) -> (r: String)
    ensures
        r@ == optional_pid(pid),
{
    match pid {
        Some(p) => concat3("Some(", signed_text(p as i64).as_str(), ")"),
        None => "None".to_owned(),
    }
}

/// What is said of a session that is about to end. The seconds have three decimals.
pub fn stop_plan_text(
    state: &SessionState,
    cursor_sec: &str,
    no_stop_hooks: bool,
    transcribe_source: &str,
    post_source: &str,
) -> (r: String)
    ensures
        r@ == "Stop pipeline: session_id="@
            + state.session_id@
            + " watcher_pid="@
            + optional_pid(state.transcription_watcher_pid)
            + " cursor_sec="@
            + cursor_sec@
            + " paused="@
            + shown_bool(state.transcription_paused)
            + " no_stop_hooks="@
            + shown_bool(no_stop_hooks)
            + " transcribe_cmd="@
            + transcribe_source@
            + " post_transcribe_cmd="@
            + post_source@,
{
    let mut out = concat3("Stop pipeline: session_id=", state.session_id.as_str(), " watcher_pid=");
    out.append(optional_pid_text(state.transcription_watcher_pid).as_str());
    out.append(" cursor_sec=");
    out.append(cursor_sec);
    out.append(" paused=");
    out.append(bool_word(state.transcription_paused));
    out.append(" no_stop_hooks=");
    out.append(bool_word(no_stop_hooks));
    out.append(" transcribe_cmd=");
    out.append(transcribe_source);
    out.append(" post_transcribe_cmd=");
    out.append(post_source);
    out
}

// ---------------------------------------------------------------------------------------------
// Screenshots
// ---------------------------------------------------------------------------------------------

/// `s`, by number, with `x` put where its number puts it, behind those with the same.
pub open spec fn place_shot(s: Seq<ShotView>, x: ShotView) -> Seq<ShotView>
    decreases s.len(),
{
    if s.len() == 0 || s.last().shot_id <= x.shot_id {
        s.push(x)
    } else {
        place_shot(s.drop_last(), x).push(s.last())
    }
}

/// The first `n` screenshots, by number.
pub open spec fn by_number(s: Seq<ShotView>, n: int) -> Seq<ShotView>
    decreases n,
{
    if n <= 0 {
        Seq::empty()
    } else {
        place_shot(by_number(s, n - 1), s[n - 1])
    }
}

/// Whether screenshots stand by number.
pub open spec fn numbers_ascend(s: Seq<ShotView>) -> bool {
    forall|i: int, j: int| 0 <= i < j < s.len() ==> s[i].shot_id <= s[j].shot_id
}

fn insert_shot(v: &mut Vec<ShotMeta>, shot: ShotMeta)
    ensures
        shot_views(final(v)@) == place_shot(shot_views(old(v)@), shot@),
{
    let ghost all = shot_views(v@);
    let ghost orig = v@;
    let ghost x = shot@;
    let mut n: usize = v.len();
    assert(all.subrange(0, n as int) =~= all);
    assert(place_shot(all, x) =~= place_shot(all, x) + all.subrange(n as int, n as int));
    while n > 0 && shot.shot_id < v[n - 1].shot_id
        invariant
            n <= v.len(),
            v@ == orig,
            all == shot_views(orig),
            x == shot@,
            place_shot(all, x) == place_shot(all.subrange(0, n as int), x) + all.subrange(
                n as int,
                all.len() as int,
            ),
        decreases n,
    {
        proof {
            let s = all.subrange(0, n as int);
            assert(s.last() == orig[n - 1]@);
            assert(s.drop_last() =~= all.subrange(0, n - 1));
            assert(place_shot(s.drop_last(), x).push(s.last()) + all.subrange(
                n as int,
                all.len() as int,
            ) =~= place_shot(s.drop_last(), x) + all.subrange(n - 1, all.len() as int));
        }
        n = n - 1;
    }
    proof {
        let s = all.subrange(0, n as int);
        if n > 0 {
            assert(s.last() == orig[n - 1]@);
        }
        assert(place_shot(s, x) == s.push(x));
        assert(s.push(x) + all.subrange(n as int, all.len() as int) =~= all.insert(n as int, x));
    }
    v.insert(n, shot);
    assert(shot_views(v@) =~= all.insert(n as int, x));
}

/// All screenshots of a session by number: those that were taken, and those that were found.
pub fn merge_shots(taken: Vec<ShotMeta>, found: Vec<ShotMeta>) -> (r: Vec<ShotMeta>)
    ensures
        shot_views(r@) == by_number(
            shot_views(taken@) + shot_views(found@),
            (taken@.len() + found@.len()) as int,
        ),
{
    let ghost all = shot_views(taken@) + shot_views(found@);
    let ghost first = taken@;
    let ghost second = found@;
    let mut rest = taken;
    let mut more = found;
    rest.append(&mut more);
    assert(shot_views(rest@) =~= all);
    let ghost whole = rest@;
    let mut out: Vec<ShotMeta> = Vec::new();
    assert(shot_views(out@) =~= by_number(all, 0));
    let mut n: usize = 0;
    assert(rest@ =~= whole.subrange(0, whole.len() as int));
    assert(rest.len() == whole.len());
    while rest.len() > 0
        invariant
            n + rest.len() == whole.len(),
            whole.len() <= usize::MAX,
            rest@ == whole.subrange(n as int, whole.len() as int),
            all == shot_views(whole),
            shot_views(out@) == by_number(all, n as int),
        decreases rest.len(),
    {
        let shot = rest.remove(0);
        assert(shot@ == all[n as int]);
        insert_shot(&mut out, shot);
        n = n + 1;
        assert(rest@ =~= whole.subrange(n as int, whole.len() as int));
    }
    assert(whole.len() == first.len() + second.len());
    out
}

proof fn lemma_place_shot(s: Seq<ShotView>, x: ShotView)
    requires
        numbers_ascend(s),
    ensures
        numbers_ascend(place_shot(s, x)),
        place_shot(s, x).to_multiset() == s.to_multiset().insert(x),
        forall|i: int|
            0 <= i < place_shot(s, x).len() ==> #[trigger] place_shot(s, x)[i] == x || s.contains(
                place_shot(s, x)[i],
            ),
    decreases s.len(),
{
    broadcast use vstd::seq_lib::group_to_multiset_ensures;

    if s.len() == 0 || s.last().shot_id <= x.shot_id {
    } else {
        let t = s.drop_last();
        lemma_place_shot(t, x);
        let u = place_shot(t, x);
        assert(s =~= t.push(s.last()));
        assert(u.push(s.last()).to_multiset() =~= s.to_multiset().insert(x));
        assert forall|i: int| 0 <= i < u.len() implies (#[trigger] u[i]).shot_id
            <= s.last().shot_id by {
            if u[i] != x {
                assert(t.contains(u[i]));
                let k = choose|k: int| 0 <= k < t.len() && t[k] == u[i];
                assert(s[k] == u[i]);
            }
        }
        assert forall|i: int| 0 <= i < u.push(s.last()).len() implies #[trigger] u.push(
            s.last(),
        )[i] == x || s.contains(u.push(s.last())[i]) by {
            if i < u.len() {
                if u[i] != x {
                    assert(t.contains(u[i]));
                    let k = choose|k: int| 0 <= k < t.len() && t[k] == u[i];
                    assert(s[k] == u[i]);
                }
            } else {
                assert(s[s.len() - 1] == s.last());
            }
        }
    }
}

/// The screenshots of a session are all there once it has ended, and stand by number.
pub proof fn shots_stand_by_number(s: Seq<ShotView>, n: int)
    requires
        0 <= n <= s.len(),
    ensures
        numbers_ascend(by_number(s, n)),
        by_number(s, n).to_multiset() == s.subrange(0, n).to_multiset(),
    decreases n,
{
    broadcast use vstd::seq_lib::group_to_multiset_ensures;

    if n == 0 {
        assert(s.subrange(0, 0) =~= Seq::empty());
    } else {
        shots_stand_by_number(s, n - 1);
        lemma_place_shot(by_number(s, n - 1), s[n - 1]);
        assert(s.subrange(0, n) =~= s.subrange(0, n - 1).push(s[n - 1]));
    }
}

// ---------------------------------------------------------------------------------------------
// The transcript
// ---------------------------------------------------------------------------------------------

/// Whether a session was transcribed.
pub open spec fn is_ok(meta: Tree) -> bool {
    text_field(meta, "status"@) == Some("ok"@)
}

/// Whether a session was transcribed.
pub fn transcribed(meta: &Json) -> (r: bool)
    ensures
        r == is_ok(meta@),
{
    match meta.get_text("status") {
        Some(s) => same(s.as_str(), "ok"),
        None => false,
    }
}

/// What is said of the command after the transcription, where a session was not transcribed.
pub fn post_not_run() -> (r: Json)
    ensures
        r@ == skipped("transcription_not_ok"@),
{
    skipped_meta("transcription_not_ok")
}

/// What is said of a transcript, with what came of the command after it.
pub open spec fn post_processed(meta: Tree, post: Tree) -> Tree {
    let m = with_entry(meta, "post_process"@, post);
    if text_field(post, "status"@) == Some("error"@) {
        with_entry(
            with_entry(m, "status"@, Tree::Text("error"@)),
            "reason"@,
            Tree::Text("post_transcribe_failed"@),
        )
    } else {
        m
    }
}

/// What is said of a transcript, with what came of the command after it. Where that failed, the
/// transcription did.
pub fn with_post_process(meta: Json, post: Json) -> (r: Json)
    ensures
        r@ == post_processed(meta@, post@),
{
    let failed = match post.get_text("status") {
        Some(s) => same(s.as_str(), "error"),
        None => false,
    };
    let m = meta.with("post_process", post);
    if failed {
        m.with("status", Json::text("error")).with("reason", Json::text("post_transcribe_failed"))
    } else {
        m
    }
}

/// A session whose command after the transcription failed was not transcribed.
pub proof fn failed_commands_fail_the_transcription(
    fields: Seq<(Seq<char>, Tree)>,
    post: Tree,
)
    requires
        text_field(post, "status"@) == Some("error"@),
    ensures
        !is_ok(post_processed(Tree::Object(fields), post)),
        text_field(post_processed(Tree::Object(fields), post), "reason"@) == Some(
            "post_transcribe_failed"@,
        ),
{
    reveal_strlit("ok");
    reveal_strlit("error");
    reveal_strlit("status");
    reveal_strlit("reason");
    assert("ok"@.len() == 2 && "error"@.len() == 5);
    assert("status"@[0] != "reason"@[0]);
    let m = crate::json::with_field(fields, "post_process"@, post);
    let n = crate::json::with_field(m, "status"@, Tree::Text("error"@));
    crate::json::put_is_found(m, "status"@, Tree::Text("error"@), "status"@);
    crate::json::put_is_found(
        n,
        "reason"@,
        Tree::Text("post_transcribe_failed"@),
        "status"@,
    );
    crate::json::put_is_found(
        n,
        "reason"@,
        Tree::Text("post_transcribe_failed"@),
        "reason"@,
    );
}

/// The status in what is said of a step.
pub open spec fn status_of(meta: Tree) -> Seq<char> {
    match text_field(meta, "status"@) {
        Some(s) => s,
        None => "unknown"@,
    }
}

/// The status in what is said of a step.
pub fn status_word<'a>(meta: &'a Json) -> (r: &'a str)
    ensures
        r@ == status_of(meta@),
{
    match meta.get_text("status") {
        Some(s) => s.as_str(),
        None => "unknown",
    }
}

/// The method in what is said of a transcript.
pub open spec fn method_of(meta: Tree) -> Seq<char> {
    match text_field(meta, "method"@) {
        Some(s) => s,
        None => "unknown"@,
    }
}

/// The method in what is said of a transcript.
pub fn method_word<'a>(meta: &'a Json) -> (r: &'a str)
    ensures
        r@ == method_of(meta@),
{
    match meta.get_text("method") {
        Some(s) => s.as_str(),
        None => "unknown",
    }
}

/// What is said once a session is transcribed. The time is in milliseconds.
pub fn transcription_text(meta: &Json, chars: usize, words: usize, elapsed_ms: &str) -> (r: String)
    ensures
        r@ == "Transcription result: status="@
            + status_of(meta@)
            + " method="@
            + method_of(meta@)
            + " chars="@
            + decimal(chars as nat)
            + " words="@
            + decimal(words as nat)
            + " elapsed_ms="@
            + elapsed_ms@,
{
    let mut out = concat3("Transcription result: status=", status_word(meta), " method=");
    out.append(method_word(meta));
    out.append(" chars=");
    out.append(decimal_text(chars as u64).as_str());
    out.append(" words=");
    out.append(decimal_text(words as u64).as_str());
    out.append(" elapsed_ms=");
    out.append(elapsed_ms);
    out
}

/// What is said once the command after the transcription has run. The time is in milliseconds.
pub fn post_process_text(
    post: &Json,
    source: &str,
    chars_before: usize,
    chars_after: usize,
    elapsed_ms: &str,
) -> (r: String)
    ensures
        r@ == "Post-transcribe hook: status="@
            + status_of(post@)
            + " source="@
            + source@
            + " chars_before="@
            + decimal(chars_before as nat)
            + " chars_after="@
            + decimal(chars_after as nat)
            + " elapsed_ms="@
            + elapsed_ms@,
{
    let mut out = concat3("Post-transcribe hook: status=", status_word(post), " source=");
    out.append(source);
    out.append(" chars_before=");
    out.append(decimal_text(chars_before as u64).as_str());
    out.append(" chars_after=");
    out.append(decimal_text(chars_after as u64).as_str());
    out.append(" elapsed_ms=");
    out.append(elapsed_ms);
    out
}

/// What the event stream is told once a session is transcribed.
pub fn transcription_finished(
    meta: &Json,
    chars: usize,
    words: usize,
    duration_ms: &Number,
) -> (r: Json)
    ensures
        r@ == Tree::Object(
            object_of(
                seq![
                    ("status"@, Tree::Text(status_of(meta@))),
                    ("method"@, Tree::Text(method_of(meta@))),
                    ("chars"@, count_tree(chars as nat)),
                    ("words"@, count_tree(words as nat)),
                    ("duration_ms"@, Tree::Number(duration_ms@)),
                ],
            ),
        ),
{
    let mut p = Pairs::new();
    p.add("status", Json::text(status_word(meta)));
    p.add("method", Json::text(method_word(meta)));
    p.count("chars", chars as u64);
    p.count("words", words as u64);
    p.number("duration_ms", duration_ms);
    assert(p@ == seq![
        ("status"@, Tree::Text(status_of(meta@))),
        ("method"@, Tree::Text(method_of(meta@))),
        ("chars"@, count_tree(chars as nat)),
        ("words"@, count_tree(words as nat)),
        ("duration_ms"@, Tree::Number(duration_ms@)),
    ]);
    p.object()
}

/// What the event stream is told once the hooks have run on a transcript.
pub fn output_hooks_ran(
    meta: &Json,
    count: usize,
    chars_before: usize,
    chars_after: usize,
    duration_ms: &Number,
) -> (r: Json)
    ensures
        r@ == Tree::Object(
            object_of(
                seq![
                    ("status"@, Tree::Text(status_of(meta@))),
                    ("count"@, count_tree(count as nat)),
                    ("chars_before"@, count_tree(chars_before as nat)),
                    ("chars_after"@, count_tree(chars_after as nat)),
                    ("duration_ms"@, Tree::Number(duration_ms@)),
                ],
            ),
        ),
{
    let mut p = Pairs::new();
    p.add("status", Json::text(status_word(meta)));
    p.count("count", count as u64);
    p.count("chars_before", chars_before as u64);
    p.count("chars_after", chars_after as u64);
    p.number("duration_ms", duration_ms);
    assert(p@ == seq![
        ("status"@, Tree::Text(status_of(meta@))),
        ("count"@, count_tree(count as nat)),
        ("chars_before"@, count_tree(chars_before as nat)),
        ("chars_after"@, count_tree(chars_after as nat)),
        ("duration_ms"@, Tree::Number(duration_ms@)),
    ]);
    p.object()
}

// ---------------------------------------------------------------------------------------------
// What is kept and reported
// ---------------------------------------------------------------------------------------------

/// What a session has become.
pub struct Outcome<'a> {
    pub session_id: &'a str,
    pub session_dir: &'a str,
    pub note_path: &'a str,
    pub html_path: &'a str,
    pub screenshots: usize,
    pub clips: usize,
    pub moved: usize,
}

/// The event of a session that has ended.
pub fn session_stopped_event(
    ts: &str,
    s: &Outcome,
    audio_duration: &Option<Number>,
    transcription: &Json,
) -> (r: Json)
    ensures
        r@ == Tree::Object(
            object_of(
                seq![
                    ("ts"@, Tree::Text(ts@)),
                    ("type"@, Tree::Text("session_stopped"@)),
                    ("session_id"@, Tree::Text(s.session_id@)),
                    ("screenshots"@, count_tree(s.screenshots as nat)),
                    ("clipboard_captures"@, count_tree(s.clips as nat)),
                    ("screenshots_moved"@, count_tree(s.moved as nat)),
                    ("audio_duration_sec"@, opt_number_tree(*audio_duration)),
                    ("note"@, Tree::Text(s.note_path@)),
                    ("html"@, Tree::Text(s.html_path@)),
                    ("transcription"@, transcription@),
                ],
            ),
        ),
{
    let mut p = Pairs::new();
    p.text("ts", ts);
    p.text("type", "session_stopped");
    p.text("session_id", s.session_id);
    p.count("screenshots", s.screenshots as u64);
    p.count("clipboard_captures", s.clips as u64);
    p.count("screenshots_moved", s.moved as u64);
    p.add("audio_duration_sec", opt_number_json(audio_duration));
    p.text("note", s.note_path);
    p.text("html", s.html_path);
    p.add("transcription", transcription.copy());
    assert(p@ == seq![
        ("ts"@, Tree::Text(ts@)),
        ("type"@, Tree::Text("session_stopped"@)),
        ("session_id"@, Tree::Text(s.session_id@)),
        ("screenshots"@, count_tree(s.screenshots as nat)),
        ("clipboard_captures"@, count_tree(s.clips as nat)),
        ("screenshots_moved"@, count_tree(s.moved as nat)),
        ("audio_duration_sec"@, opt_number_tree(*audio_duration)),
        ("note"@, Tree::Text(s.note_path@)),
        ("html"@, Tree::Text(s.html_path@)),
        ("transcription"@, transcription@),
    ]);
    p.object()
}

/// What is kept of the session that ended last.
pub fn last_session_record(s: &Outcome, stopped_at: &str) -> (r: Json)
    ensures
        r@ == Tree::Object(
            object_of(
                seq![
                    ("session_id"@, Tree::Text(s.session_id@)),
                    ("session_dir"@, Tree::Text(s.session_dir@)),
                    ("note_path"@, Tree::Text(s.note_path@)),
                    ("html_path"@, Tree::Text(s.html_path@)),
                    ("stopped_at"@, Tree::Text(stopped_at@)),
                    ("screenshots"@, count_tree(s.screenshots as nat)),
                    ("clipboard_captures"@, count_tree(s.clips as nat)),
                ],
            ),
        ),
{
    let mut p = Pairs::new();
    p.text("session_id", s.session_id);
    p.text("session_dir", s.session_dir);
    p.text("note_path", s.note_path);
    p.text("html_path", s.html_path);
    p.text("stopped_at", stopped_at);
    p.count("screenshots", s.screenshots as u64);
    p.count("clipboard_captures", s.clips as u64);
    assert(p@ == seq![
        ("session_id"@, Tree::Text(s.session_id@)),
        ("session_dir"@, Tree::Text(s.session_dir@)),
        ("note_path"@, Tree::Text(s.note_path@)),
        ("html_path"@, Tree::Text(s.html_path@)),
        ("stopped_at"@, Tree::Text(stopped_at@)),
        ("screenshots"@, count_tree(s.screenshots as nat)),
        ("clipboard_captures"@, count_tree(s.clips as nat)),
    ]);
    p.object()
}

/// The names of the times that are measured while a session ends.
pub const STOP_PHASES: [&'static str; 26] = [
    "stop_clipboard_watcher_ms",
    "append_stopping_event_ms",
    "resume_before_stop_ms",
    "stop_recorder_ms",
    "transcription_watcher_stop_ms",
    "source_dir_check_ms",
    "load_prior_events_ms",
    "load_existing_shots_ms",
    "collect_clipboard_events_ms",
    "move_screenshots_ms",
    "transcribe_ms",
    "post_transcribe_ms",
    "audio_duration_ms",
    "render_ms",
    "build_note_bundle_ms",
    "write_ms",
    "write_note_md_ms",
    "write_note_html_file_ms",
    "write_note_html_ms",
    "append_stop_event_ms",
    "write_last_session_ms",
    "generate_index_ms",
    "clear_state_ms",
    "web_server_ms",
    "transcription_watcher_wait_ms",
    "stop_flush_ms",
];

/// The names of the times that are reported of a session that has ended.
pub const STOP_REPORT_PHASES: [&'static str; 25] = [
    "stop_clipboard_watcher_ms",
    "append_stopping_event_ms",
    "resume_before_stop_ms",
    "stop_recorder_ms",
    "transcription_watcher_stop_ms",
    "source_dir_check_ms",
    "load_prior_events_ms",
    "load_existing_shots_ms",
    "collect_clipboard_events_ms",
    "move_screenshots_ms",
    "transcribe_ms",
    "audio_duration_ms",
    "render_ms",
    "build_note_bundle_ms",
    "write_ms",
    "write_note_md_ms",
    "write_note_html_file_ms",
    "write_note_html_ms",
    "append_stop_event_ms",
    "write_last_session_ms",
    "generate_index_ms",
    "clear_state_ms",
    "web_server_ms",
    "transcription_watcher_wait_ms",
    "stop_flush_ms",
];

/// What was measured of a transcription, or null.
pub open spec fn perf_of(meta: Tree) -> Tree {
    match field(meta, "perf"@) {
        Some(p) => p,
        None => Tree::Null,
    }
}

fn copied_perf(meta: &Json) -> (r: Json)
    ensures
        r@ == perf_of(meta@),
{
    match meta.get("perf") {
        Some(p) => p.copy(),
        None => Json::Null,
    }
}

fn text_or_null(meta: &Json, key: &str) -> (r: Json)
    ensures
        r@ == opt_text_tree(text_field(meta@, key@)),
{
    match meta.get_text(key) {
        Some(s) => Json::text(s.as_str()),
        None => Json::Null,
    }
}

/// The record of how long it took to end a session.
pub fn stop_perf_event(
    ts: &str,
    session_id: &str,
    total_ms: &Number,
    phases: Json,
    meta: &Json,
) -> (r: Json)
    ensures
        r@ == Tree::Object(
            object_of(
                seq![
                    ("ts"@, Tree::Text(ts@)),
                    ("action"@, Tree::Text("stop"@)),
                    ("session_id"@, Tree::Text(session_id@)),
                    ("total_ms"@, Tree::Number(total_ms@)),
                    ("phases"@, phases@),
                    ("transcription_perf"@, perf_of(meta@)),
                    ("transcription_method"@, opt_text_tree(text_field(meta@, "method"@))),
                    ("transcription_status"@, opt_text_tree(text_field(meta@, "status"@))),
                ],
            ),
        ),
{
    let mut p = Pairs::new();
    p.text("ts", ts);
    p.text("action", "stop");
    p.text("session_id", session_id);
    p.number("total_ms", total_ms);
    p.add("phases", phases);
    p.add("transcription_perf", copied_perf(meta));
    p.add("transcription_method", text_or_null(meta, "method"));
    p.add("transcription_status", text_or_null(meta, "status"));
    assert(p@ == seq![
        ("ts"@, Tree::Text(ts@)),
        ("action"@, Tree::Text("stop"@)),
        ("session_id"@, Tree::Text(session_id@)),
        ("total_ms"@, Tree::Number(total_ms@)),
        ("phases"@, phases@),
        ("transcription_perf"@, perf_of(meta@)),
        ("transcription_method"@, opt_text_tree(text_field(meta@, "method"@))),
        ("transcription_status"@, opt_text_tree(text_field(meta@, "status"@))),
    ]);
    p.object()
}

/// How long it took to end a session, in milliseconds, as it is shown.
pub struct StopTimes<'a> {
    pub total: &'a str,
    pub transcribe: &'a str,
    pub post_transcribe: &'a str,
    pub stop_recorder: &'a str,
    pub move_screenshots: &'a str,
    pub render: &'a str,
    pub write: &'a str,
}

/// What is said of how long it took to end a session.
pub fn stop_times_text(t: &StopTimes) -> (r: String)
    ensures
        r@ == "Stop instrumentation summary: total_ms="@
            + t.total@
            + " transcribe_ms="@
            + t.transcribe@
            + " post_transcribe_ms="@
            + t.post_transcribe@
            + " render_ms="@
            + t.render@
            + " write_ms="@
            + t.write@,
{
    let mut out = concat3("Stop instrumentation summary: total_ms=", t.total, " transcribe_ms=");
    out.append(t.transcribe);
    out.append(" post_transcribe_ms=");
    out.append(t.post_transcribe);
    out.append(" render_ms=");
    out.append(t.render);
    out.append(" write_ms=");
    out.append(t.write);
    out
}

/// What is said of a note that would be written.
pub fn dry_note_text(note_path: &str) -> (r: String)
    ensures
        r@ == "[dry-run] Would write note: "@
            + note_path@,
{
    concat("[dry-run] Would write note: ", note_path)
}

/// What is said of a page that would be written.
pub fn dry_html_text(html_path: &str) -> (r: String)
    ensures
        r@ == "[dry-run] Would write html: "@
            + html_path@,
{
    concat("[dry-run] Would write html: ", html_path)
}

/// What is said of a session that has ended.
pub fn stop_text(s: &Outcome, t: &StopTimes) -> (r: String)
    ensures
        r@ == "Stopped session "@
            + s.session_id@
            + "\nsession_dir: "@
            + s.session_dir@
            + "\nscreenshots_moved: "@
            + decimal(s.moved as nat)
            + "\nscreenshots_total: "@
            + decimal(s.screenshots as nat)
            + "\nclipboard_captures: "@
            + decimal(s.clips as nat)
            + "\nnote: "@
            + s.note_path@
            + "\nhtml: "@
            + s.html_path@
            + "\nstop_ms: "@
            + t.total@
            + "\nstop_phase_ms: transcribe="@
            + t.transcribe@
            + " stop_recorder="@
            + t.stop_recorder@
            + " move_screenshots="@
            + t.move_screenshots@
            + " render="@
            + t.render@
            + " write="@
            + t.write@,
{
    let mut out = concat3("Stopped session ", s.session_id, "\nsession_dir: ");
    out.append(s.session_dir);
    out.append("\nscreenshots_moved: ");
    out.append(decimal_text(s.moved as u64).as_str());
    out.append("\nscreenshots_total: ");
    out.append(decimal_text(s.screenshots as u64).as_str());
    out.append("\nclipboard_captures: ");
    out.append(decimal_text(s.clips as u64).as_str());
    out.append("\nnote: ");
    out.append(s.note_path);
    out.append("\nhtml: ");
    out.append(s.html_path);
    out.append("\nstop_ms: ");
    out.append(t.total);
    out.append("\nstop_phase_ms: transcribe=");
    out.append(t.transcribe);
    out.append(" stop_recorder=");
    out.append(t.stop_recorder);
    out.append(" move_screenshots=");
    out.append(t.move_screenshots);
    out.append(" render=");
    out.append(t.render);
    out.append(" write=");
    out.append(t.write);
    out
}

/// Why a session was not transcribed: the reason that is given, else what was printed, else nothing.
pub open spec fn why_not(meta: Tree) -> Seq<char> {
    match text_field(meta, "reason"@) {
        Some(r) => r,
        None => match text_field(meta, "stderr"@) {
            Some(s) => s,
            None => Seq::empty(),
        },
    }
}

/// What is said where a session was not transcribed.
pub fn transcription_status_text(meta: &Json) -> (r: Option<String>)
    ensures
        opt_view(r) == if is_ok(meta@) {
            None
        } else {
            Some(
                "transcription_status: "@ + status_of(meta@) + " ("@ + why_not(meta@) + ")"@,
            )
        },
{
    if transcribed(meta) {
        return None;
    }
    let reason: String = match meta.get_text("reason") {
        Some(r) => r.clone(),
        None => match meta.get_text("stderr") {
            Some(s) => s.clone(),
            None => String::new(),
        },
    };
    let mut out = concat3("transcription_status: ", status_word(meta), " (");
    out.append(reason.as_str());
    out.append(")");
    Some(out)
}

/// What a stop ends with: zero where the session was transcribed, or would be, else one.
pub open spec fn exit_code_of(meta: Tree, dry_run: bool) -> int {
    if dry_run || is_ok(meta) {
        0
    } else {
        1
    }
}

/// What a stop ends with.
pub fn stop_exit_code(meta: &Json, dry_run: bool) -> (r: i32)
    ensures
        r == exit_code_of(meta@, dry_run),
{
    if dry_run || transcribed(meta) {
        0
    } else {
        1
    }
}

/// What is reported of a session that has ended.
pub open spec fn stop_pairs(
    s: Outcome,
    stop_ms: Number,
    phases: Tree,
    meta: Tree,
    forced_stop: bool,
    dry_run: bool,
) -> Seq<(Seq<char>, Tree)> {
    seq![
        ("ok"@, Tree::Bool(dry_run || is_ok(meta))),
        ("action"@, Tree::Text("stop"@)),
        ("session_id"@, Tree::Text(s.session_id@)),
        ("session_dir"@, Tree::Text(s.session_dir@)),
        ("note_path"@, Tree::Text(s.note_path@)),
        ("html_path"@, Tree::Text(s.html_path@)),
        ("screenshots_moved"@, count_tree(s.moved as nat)),
        ("screenshots_total"@, count_tree(s.screenshots as nat)),
        ("clipboard_captures"@, count_tree(s.clips as nat)),
        ("stop_ms"@, Tree::Number(stop_ms@)),
        ("phases"@, phases),
        ("transcription"@, meta),
        ("transcription_watcher_forced_stop"@, Tree::Bool(forced_stop)),
        ("dry_run"@, Tree::Bool(dry_run)),
    ]
}

/// What is reported of a session that has ended. It went well where the session was transcribed, or
/// would be.
#[verifier::rlimit(40)]
pub fn stop_report(
    s: &Outcome,
    stop_ms: &Number,
    phases: Json,
    meta: Json,
    forced_stop: bool,
    dry_run: bool,
) -> (r: Json)
    ensures
        r@ == Tree::Object(
            object_of(stop_pairs(*s, *stop_ms, phases@, meta@, forced_stop, dry_run)),
        ),
{
    let ghost (ph, m) = (phases@, meta@);
    let ok = dry_run || transcribed(&meta);
    let mut p = Pairs::new();
    p.add("ok", Json::Bool(ok));
    p.text("action", "stop");
    p.text("session_id", s.session_id);
    p.text("session_dir", s.session_dir);
    p.text("note_path", s.note_path);
    p.text("html_path", s.html_path);
    p.count("screenshots_moved", s.moved as u64);
    p.count("screenshots_total", s.screenshots as u64);
    p.count("clipboard_captures", s.clips as u64);
    p.number("stop_ms", stop_ms);
    p.add("phases", phases);
    p.add("transcription", meta);
    p.flag("transcription_watcher_forced_stop", forced_stop);
    p.flag("dry_run", dry_run);
    assert(p@ == stop_pairs(*s, *stop_ms, ph, m, forced_stop, dry_run));
    p.object()
}

/// A stop that reports that all went well ends with zero, and no other does.
pub proof fn reports_agree_with_exit_codes(
    s: Outcome,
    stop_ms: Number,
    phases: Tree,
    meta: Tree,
    forced_stop: bool,
    dry_run: bool,
)
    ensures
        field(
            Tree::Object(
                object_of(stop_pairs(s, stop_ms, phases, meta, forced_stop, dry_run)),
            ),
            "ok"@,
        ) == Some(Tree::Bool(exit_code_of(meta, dry_run) == 0)),
{
    reveal_strlit("ok");
    assert("ok"@.len() == 2);
    reveal_strlit("action");
    assert("action"@.len() == 6);
    reveal_strlit("session_id");
    assert("session_id"@.len() == 10);
    reveal_strlit("session_dir");
    assert("session_dir"@.len() == 11);
    reveal_strlit("note_path");
    assert("note_path"@.len() == 9);
    reveal_strlit("html_path");
    assert("html_path"@.len() == 9);
    reveal_strlit("screenshots_moved");
    assert("screenshots_moved"@.len() == 17);
    reveal_strlit("screenshots_total");
    assert("screenshots_total"@.len() == 17);
    reveal_strlit("clipboard_captures");
    assert("clipboard_captures"@.len() == 18);
    reveal_strlit("stop_ms");
    assert("stop_ms"@.len() == 7);
    reveal_strlit("phases");
    assert("phases"@.len() == 6);
    reveal_strlit("transcription");
    assert("transcription"@.len() == 13);
    reveal_strlit("transcription_watcher_forced_stop");
    assert("transcription_watcher_forced_stop"@.len() == 33);
    reveal_strlit("dry_run");
    assert("dry_run"@.len() == 7);
    pairs_read_back(stop_pairs(s, stop_ms, phases, meta, forced_stop, dry_run), 0);
}

// ---------------------------------------------------------------------------------------------
// What the hooks are handed
// ---------------------------------------------------------------------------------------------

/// What the hooks are told of a screenshot.
pub open spec fn shot_entry(s: ShotMeta) -> Tree {
    Tree::Object(
        object_of(
            seq![
                ("id"@, count_tree(s.shot_id as nat)),
                ("path"@, Tree::Text(s.dest_rel_path@)),
                ("audio_sec"@, Tree::Number(s.audio_sec@)),
            ],
        ),
    )
}

/// What the hooks are told of a clipboard text.
pub open spec fn clip_entry(c: ClipboardMeta) -> Tree {
    Tree::Object(
        object_of(
            seq![
                ("id"@, count_tree(c.clip_id as nat)),
                ("text"@, Tree::Text(c.text@)),
                ("audio_sec"@, Tree::Number(c.audio_sec@)),
            ],
        ),
    )
}

fn shot_entries(shots: &Vec<ShotMeta>) -> (r: Json)
    ensures
        r@ == Tree::List(shots@.map_values(|s: ShotMeta| shot_entry(s))),
{
    let mut items: Vec<Json> = Vec::new();
    let ghost f = |s: ShotMeta| shot_entry(s);
    let mut i: usize = 0;
    assert(item_views(items@) =~= shots@.subrange(0, 0).map_values(f));
    while i < shots.len()
        invariant
            i <= shots.len(),
            f == (|s: ShotMeta| shot_entry(s)),
            item_views(items@) == shots@.subrange(0, i as int).map_values(f),
        decreases shots.len() - i,
    {
        let s = &shots[i];
        let ghost before = items@;
        let mut p = Pairs::new();
        p.count("id", s.shot_id);
        p.text("path", s.dest_rel_path.as_str());
        p.number("audio_sec", &s.audio_sec);
        assert(p@ == seq![
            ("id"@, count_tree(s.shot_id as nat)),
            ("path"@, Tree::Text(s.dest_rel_path@)),
            ("audio_sec"@, Tree::Number(s.audio_sec@)),
        ]);
        items.push(p.object());
        proof {
            assert(item_views(items@) =~= item_views(before).push(f(shots@[i as int])));
            assert(shots@.subrange(0, i + 1).map_values(f) =~= shots@.subrange(
                0,
                i as int,
            ).map_values(f).push(f(shots@[i as int])));
        }
        i = i + 1;
    }
    assert(shots@.subrange(0, shots@.len() as int) =~= shots@);
    Json::list(items)
}

fn clip_entries(clips: &Vec<ClipboardMeta>) -> (r: Json)
    ensures
        r@ == Tree::List(clips@.map_values(|c: ClipboardMeta| clip_entry(c))),
{
    let mut items: Vec<Json> = Vec::new();
    let ghost f = |c: ClipboardMeta| clip_entry(c);
    let mut i: usize = 0;
    assert(item_views(items@) =~= clips@.subrange(0, 0).map_values(f));
    while i < clips.len()
        invariant
            i <= clips.len(),
            f == (|c: ClipboardMeta| clip_entry(c)),
            item_views(items@) == clips@.subrange(0, i as int).map_values(f),
        decreases clips.len() - i,
    {
        let c = &clips[i];
        let ghost before = items@;
        let mut p = Pairs::new();
        p.count("id", c.clip_id);
        p.text("text", c.text.as_str());
        p.number("audio_sec", &c.audio_sec);
        assert(p@ == seq![
            ("id"@, count_tree(c.clip_id as nat)),
            ("text"@, Tree::Text(c.text@)),
            ("audio_sec"@, Tree::Number(c.audio_sec@)),
        ]);
        items.push(p.object());
        proof {
            assert(item_views(items@) =~= item_views(before).push(f(clips@[i as int])));
            assert(clips@.subrange(0, i + 1).map_values(f) =~= clips@.subrange(
                0,
                i as int,
            ).map_values(f).push(f(clips@[i as int])));
        }
        i = i + 1;
    }
    assert(clips@.subrange(0, clips@.len() as int) =~= clips@);
    Json::list(items)
}

/// What the hooks are told of a session: which it is, when it was, how it was transcribed, and what
/// was captured in it.
pub open spec fn hook_metadata_pairs(
    state: SessionState,
    ended_iso: Seq<char>,
    audio_duration: Option<Number>,
    transcription: Tree,
    shots: Seq<ShotMeta>,
    clips: Seq<ClipboardMeta>,
) -> Seq<(Seq<char>, Tree)> {
    seq![
        ("session_id"@, Tree::Text(state.session_id@)),
        ("session_dir"@, Tree::Text(state.session_dir@)),
        ("started_at"@, Tree::Text(state.started_at_iso@)),
        ("ended_at"@, Tree::Text(ended_iso)),
        ("audio_duration_sec"@, opt_number_tree(audio_duration)),
        ("transcription"@, transcription),
        ("screenshots"@, Tree::List(shots.map_values(|s: ShotMeta| shot_entry(s)))),
        ("clipboard"@, Tree::List(clips.map_values(|c: ClipboardMeta| clip_entry(c)))),
    ]
}

/// What the hooks are told of a session.
pub fn hook_metadata(
    state: &SessionState,
    ended_iso: &str,
    audio_duration: &Option<Number>,
    transcription: &Json,
    shots: &Vec<ShotMeta>,
    clips: &Vec<ClipboardMeta>,
) -> (r: Json)
    ensures
        r@ == Tree::Object(
            object_of(
                hook_metadata_pairs(
                    *state,
                    ended_iso@,
                    *audio_duration,
                    transcription@,
                    shots@,
                    clips@,
                ),
            ),
        ),
{
    let mut p = Pairs::new();
    p.text("session_id", state.session_id.as_str());
    p.text("session_dir", state.session_dir.as_str());
    p.text("started_at", state.started_at_iso.as_str());
    p.text("ended_at", ended_iso);
    p.add("audio_duration_sec", opt_number_json(audio_duration));
    p.add("transcription", transcription.copy());
    p.add("screenshots", shot_entries(shots));
    p.add("clipboard", clip_entries(clips));
    assert(p@ == hook_metadata_pairs(
        *state,
        ended_iso@,
        *audio_duration,
        transcription@,
        shots@,
        clips@,
    ));
    p.object()
}

// ---------------------------------------------------------------------------------------------
// How a session ends
// ---------------------------------------------------------------------------------------------

/// A command counts from the command line before the environment, and none where they are switched
/// off.
pub proof fn commands_come_from_two_places(cli: Seq<char>, env: Seq<char>)
    ensures
        source_of(true, Some(cli), Some(env)) == "disabled"@,
        trimmed(cli).len() > 0 ==> source_of(false, Some(cli), Some(env)) == "cli"@,
        trimmed(cli).len() == 0 && trimmed(env).len() > 0 ==> source_of(false, Some(cli), Some(env))
            == "env"@,
        trimmed(env).len() > 0 ==> source_of(false, None, Some(env)) == "env"@,
        source_of(false, None, None) == "off"@,
        trimmed(env).len() == 0 ==> source_of(false, None, Some(env)) == "off"@,
{
}

/// A command of the user transcribes where there is one; else a stream ends in its own way, and then
/// what was chunked is finished, and what was not is transcribed as a whole.
pub proof fn sessions_are_transcribed_in_one_way(cmd: Seq<char>, chunked: bool, streamed: bool)
    ensures
        trimmed(cmd).len() > 0 ==> strategy_of(false, Some(cmd), None, streamed, chunked)
            == StopStrategy::Custom,
        trimmed(cmd).len() > 0 ==> strategy_of(false, None, Some(cmd), streamed, chunked)
            == StopStrategy::Custom,
        strategy_of(false, None, None, true, chunked) == StopStrategy::Stream,
        strategy_of(true, Some(cmd), Some(cmd), true, chunked) == StopStrategy::Stream,
        strategy_of(false, None, None, false, true) == StopStrategy::Chunked,
        strategy_of(true, Some(cmd), Some(cmd), false, true) == StopStrategy::Chunked,
        strategy_of(false, None, None, false, false) == StopStrategy::Full,
{
}

/// What is said of a transcript keeps its status where the command after it did not fail, and says
/// what came of that.
pub proof fn good_commands_keep_the_status(fields: Seq<(Seq<char>, Tree)>, post: Tree)
    ensures
        ({
            let t = post_processed(Tree::Object(fields), post);
            &&& field(t, "post_process"@) == Some(post)
            &&& text_field(post, "status"@) != Some("error"@) ==> field(t, "status"@) == lookup(
                fields,
                "status"@,
            ) && field(t, "reason"@) == lookup(fields, "reason"@)
        }),
{
    reveal_strlit("post_process");
    reveal_strlit("status");
    reveal_strlit("reason");
    assert("post_process"@.len() == 12 && "status"@.len() == 6 && "reason"@.len() == 6);
    assert("status"@[0] == 's' && "reason"@[0] == 'r');
    let m = with_field(fields, "post_process"@, post);
    let n = with_field(m, "status"@, Tree::Text("error"@));
    put_is_found(fields, "post_process"@, post, "post_process"@);
    put_is_found(fields, "post_process"@, post, "status"@);
    put_is_found(fields, "post_process"@, post, "reason"@);
    put_is_found(m, "status"@, Tree::Text("error"@), "post_process"@);
    put_is_found(n, "reason"@, Tree::Text("post_transcribe_failed"@), "post_process"@);
}

/// A stop ends with zero where the session was transcribed, or would be, and else with one; why it
/// was not is the reason that is given, else what was printed.
pub proof fn stops_end_by_the_status(meta: Tree)
    ensures
        exit_code_of(meta, true) == 0,
        text_field(meta, "status"@) == Some("ok"@) ==> exit_code_of(meta, false) == 0,
        text_field(meta, "status"@) != Some("ok"@) ==> exit_code_of(meta, false) == 1,
        text_field(meta, "status"@) matches Some(s) ==> status_of(meta) == s,
        text_field(meta, "status"@) is None ==> status_of(meta) == "unknown"@,
        text_field(meta, "method"@) matches Some(s) ==> method_of(meta) == s,
        text_field(meta, "method"@) is None ==> method_of(meta) == "unknown"@,
        text_field(meta, "reason"@) matches Some(s) ==> why_not(meta) == s,
        text_field(meta, "reason"@) is None ==> (text_field(meta, "stderr"@) matches Some(s)
            ==> why_not(meta) == s),
        text_field(meta, "reason"@) is None && text_field(meta, "stderr"@) is None ==> why_not(
            meta,
        ).len() == 0,
        field(meta, "perf"@) matches Some(p) ==> perf_of(meta) == p,
        field(meta, "perf"@) is None ==> perf_of(meta) is Null,
{
}

/// A process that may be missing is shown as such.
pub proof fn missing_processes_are_shown(p: i32)
    ensures
        optional_pid(Some(p)) == "Some("@ + signed_decimal(p as int) + ")"@,
        optional_pid(None) == "None"@,
{
}

proof fn lemma_stop_keys()
    ensures
        "ok"@.len() == 2 && "action"@.len() == 6 && "session_id"@.len() == 10,
        "session_dir"@.len() == 11 && "note_path"@.len() == 9 && "html_path"@.len() == 9,
        "screenshots_moved"@.len() == 17 && "screenshots_total"@.len() == 17,
        "clipboard_captures"@.len() == 18 && "stop_ms"@.len() == 7 && "phases"@.len() == 6,
        "transcription"@.len() == 13 && "transcription_watcher_forced_stop"@.len() == 33,
        "dry_run"@.len() == 7 && "note_path"@[0] == 'n' && "html_path"@[0] == 'h',
        "screenshots_moved"@[12] == 'm' && "screenshots_total"@[12] == 't',
        "stop_ms"@[0] == 's' && "dry_run"@[0] == 'd' && "action"@[0] == 'a' && "phases"@[0] == 'p',
{
    reveal_strlit("ok");
    reveal_strlit("action");
    reveal_strlit("session_id");
    reveal_strlit("session_dir");
    reveal_strlit("note_path");
    reveal_strlit("html_path");
    reveal_strlit("screenshots_moved");
    reveal_strlit("screenshots_total");
    reveal_strlit("clipboard_captures");
    reveal_strlit("stop_ms");
    reveal_strlit("phases");
    reveal_strlit("transcription");
    reveal_strlit("transcription_watcher_forced_stop");
    reveal_strlit("dry_run");
}

/// What is reported of a session that has ended says which it is, where its note lies, how much was
/// captured, and how it was transcribed.
pub proof fn stops_report_the_session(
    s: Outcome,
    stop_ms: Number,
    phases: Tree,
    meta: Tree,
    forced_stop: bool,
    dry_run: bool,
)
    ensures
        ({
            let t = Tree::Object(
                object_of(stop_pairs(s, stop_ms, phases, meta, forced_stop, dry_run)),
            );
            &&& text_field(t, "session_id"@) == Some(s.session_id@)
            &&& text_field(t, "session_dir"@) == Some(s.session_dir@)
            &&& text_field(t, "note_path"@) == Some(s.note_path@)
            &&& text_field(t, "html_path"@) == Some(s.html_path@)
            &&& field(t, "screenshots_moved"@) == Some(count_tree(s.moved as nat))
            &&& field(t, "screenshots_total"@) == Some(count_tree(s.screenshots as nat))
            &&& field(t, "clipboard_captures"@) == Some(count_tree(s.clips as nat))
            &&& field(t, "transcription"@) == Some(meta)
            &&& field(t, "dry_run"@) == Some(Tree::Bool(dry_run))
            &&& field(t, "transcription_watcher_forced_stop"@) == Some(Tree::Bool(forced_stop))
        }),
{
    lemma_stop_keys();
    let p = stop_pairs(s, stop_ms, phases, meta, forced_stop, dry_run);
    pairs_read_back(p, 2);
    pairs_read_back(p, 3);
    pairs_read_back(p, 4);
    pairs_read_back(p, 5);
    pairs_read_back(p, 6);
    pairs_read_back(p, 7);
    pairs_read_back(p, 8);
    pairs_read_back(p, 11);
    pairs_read_back(p, 12);
    pairs_read_back(p, 13);
}

/// The hooks are told of the session, of every screenshot and of every clipboard text, in order.
pub proof fn hooks_are_told_everything(
    state: SessionState,
    ended_iso: Seq<char>,
    audio_duration: Option<Number>,
    transcription: Tree,
    shots: Seq<ShotMeta>,
    clips: Seq<ClipboardMeta>,
    i: int,
)
    ensures
        ({
            let t = Tree::Object(
                object_of(
                    hook_metadata_pairs(
                        state,
                        ended_iso,
                        audio_duration,
                        transcription,
                        shots,
                        clips,
                    ),
                ),
            );
            &&& text_field(t, "session_id"@) == Some(state.session_id@)
            &&& text_field(t, "session_dir"@) == Some(state.session_dir@)
            &&& text_field(t, "started_at"@) == Some(state.started_at_iso@)
            &&& text_field(t, "ended_at"@) == Some(ended_iso)
            &&& field(t, "transcription"@) == Some(transcription)
            &&& field(t, "screenshots"@) matches Some(Tree::List(v)) && v.len() == shots.len() && (0
                <= i < shots.len() ==> field(v[i], "id"@) == Some(
                count_tree(shots[i].shot_id as nat),
            ) && text_field(v[i], "path"@) == Some(shots[i].dest_rel_path@) && field(
                v[i],
                "audio_sec"@,
            ) == Some(Tree::Number(shots[i].audio_sec@)))
            &&& field(t, "clipboard"@) matches Some(Tree::List(v)) && v.len() == clips.len() && (0
                <= i < clips.len() ==> field(v[i], "id"@) == Some(
                count_tree(clips[i].clip_id as nat),
            ) && text_field(v[i], "text"@) == Some(clips[i].text@) && field(v[i], "audio_sec"@)
                == Some(Tree::Number(clips[i].audio_sec@)))
        }),
{
    lemma_stop_keys();
    reveal_strlit("started_at");
    reveal_strlit("ended_at");
    reveal_strlit("audio_duration_sec");
    reveal_strlit("screenshots");
    reveal_strlit("clipboard");
    assert("started_at"@.len() == 10 && "ended_at"@.len() == 8 && "audio_duration_sec"@.len() == 18);
    assert("screenshots"@.len() == 11 && "clipboard"@.len() == 9 && "started_at"@[1] == 't');
    reveal_strlit("session_id");
    reveal_strlit("session_dir");
    assert("session_id"@[1] == 'e' && "session_dir"@[1] == 'e' && "screenshots"@[1] == 'c');
    let p = hook_metadata_pairs(state, ended_iso, audio_duration, transcription, shots, clips);
    pairs_read_back(p, 0);
    pairs_read_back(p, 1);
    pairs_read_back(p, 2);
    pairs_read_back(p, 3);
    pairs_read_back(p, 5);
    pairs_read_back(p, 6);
    pairs_read_back(p, 7);
    if 0 <= i < shots.len() {
        lemma_shot_entry(shots[i]);
    }
    if 0 <= i < clips.len() {
        lemma_clip_entry(clips[i]);
    }
}

proof fn lemma_shot_entry(s: ShotMeta)
    ensures
        field(shot_entry(s), "id"@) == Some(count_tree(s.shot_id as nat)),
        text_field(shot_entry(s), "path"@) == Some(s.dest_rel_path@),
        field(shot_entry(s), "audio_sec"@) == Some(Tree::Number(s.audio_sec@)),
{
    reveal_strlit("id");
    reveal_strlit("path");
    reveal_strlit("audio_sec");
    assert("id"@.len() == 2 && "path"@.len() == 4 && "audio_sec"@.len() == 9);
    let p = seq![
        ("id"@, count_tree(s.shot_id as nat)),
        ("path"@, Tree::Text(s.dest_rel_path@)),
        ("audio_sec"@, Tree::Number(s.audio_sec@)),
    ];
    pairs_read_back(p, 0);
    pairs_read_back(p, 1);
    pairs_read_back(p, 2);
}

proof fn lemma_clip_entry(c: ClipboardMeta)
    ensures
        field(clip_entry(c), "id"@) == Some(count_tree(c.clip_id as nat)),
        text_field(clip_entry(c), "text"@) == Some(c.text@),
        field(clip_entry(c), "audio_sec"@) == Some(Tree::Number(c.audio_sec@)),
{
    reveal_strlit("id");
    reveal_strlit("text");
    reveal_strlit("audio_sec");
    assert("id"@.len() == 2 && "text"@.len() == 4 && "audio_sec"@.len() == 9);
    let p = seq![
        ("id"@, count_tree(c.clip_id as nat)),
        ("text"@, Tree::Text(c.text@)),
        ("audio_sec"@, Tree::Number(c.audio_sec@)),
    ];
    pairs_read_back(p, 0);
    pairs_read_back(p, 1);
    pairs_read_back(p, 2);
}

/// The report of a stop says what was done and how long it took; what hooks are told has the length of
/// the recording, where it is known.
pub proof fn stops_report_their_times(
    s: Outcome,
    stop_ms: Number,
    phases: Tree,
    meta: Tree,
    forced_stop: bool,
    dry_run: bool,
)
    ensures
        ({
            let t = Tree::Object(
                object_of(stop_pairs(s, stop_ms, phases, meta, forced_stop, dry_run)),
            );
            &&& text_field(t, "action"@) == Some("stop"@)
            &&& field(t, "stop_ms"@) == Some(Tree::Number(stop_ms@))
            &&& field(t, "phases"@) == Some(phases)
            &&& field(t, "ok"@) == Some(Tree::Bool(dry_run || is_ok(meta)))
        }),
{
    lemma_stop_keys();
    reveal_strlit("ok");
    reveal_strlit("action");
    reveal_strlit("stop_ms");
    reveal_strlit("phases");
    let p = stop_pairs(s, stop_ms, phases, meta, forced_stop, dry_run);
    assert("ok"@.len() == 2 && "action"@.len() == 6 && "action"@[0] == 'a');
    assert("stop_ms"@.len() == 7 && "phases"@.len() == 6 && "phases"@[0] == 'p');
    pairs_read_back(p, 0);
    pairs_read_back(p, 1);
    pairs_read_back(p, 9);
    pairs_read_back(p, 10);
}

/// Hooks are told how long the recording is, where that is known.
pub proof fn hooks_are_told_the_length(
    state: SessionState,
    ended_iso: Seq<char>,
    audio_duration: Option<Number>,
    transcription: Tree,
    shots: Seq<ShotMeta>,
    clips: Seq<ClipboardMeta>,
)
    ensures
        ({
            let t = Tree::Object(
                object_of(
                    hook_metadata_pairs(
                        state,
                        ended_iso,
                        audio_duration,
                        transcription,
                        shots,
                        clips,
                    ),
                ),
            );
            &&& audio_duration matches Some(n) ==> field(t, "audio_duration_sec"@) == Some(
                Tree::Number(n@),
            )
            &&& audio_duration is None ==> field(t, "audio_duration_sec"@) == Some(Tree::Null)
        }),
{
    reveal_strlit("audio_duration_sec");
    reveal_strlit("transcription");
    reveal_strlit("screenshots");
    reveal_strlit("clipboard");
    assert("audio_duration_sec"@.len() == 18 && "transcription"@.len() == 13);
    assert("screenshots"@.len() == 11 && "clipboard"@.len() == 9);
    pairs_read_back(
        hook_metadata_pairs(state, ended_iso, audio_duration, transcription, shots, clips),
        4,
    );
}

} // verus!
