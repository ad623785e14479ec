//! Screenshots and clipboard texts of a session, and the marks that they leave in its transcript.

use vstd::prelude::*;

use crate::json::{
    field, integer_of, item_views, measure_of, opt_view, text_field, text_of, unsigned_of, Json,
    Number, NumberView, Tree,
};
use crate::measure::Measure;
use crate::models::{
    clip_views, opt_number, shot_views, ClipView, ClipboardMeta, ShotMeta, ShotView,
};
use crate::number::{decimal, decimal_text};
use crate::pattern::{
    contains, contains_text, join, joined, lemma_contains_around, lemma_joined_contains,
    lemma_joined_ends, lemma_words_shape, views, words, words_of,
};
use crate::text::{
    concat, concat3, is_space, lemma_already_trimmed, lemma_trimmed_shape, same, trim, trimmed,
};
use crate::wire::quantity_of;

verus! {

// ---------------------------------------------------------------------------------------------
// Lists by id
// ---------------------------------------------------------------------------------------------

/// `s` with `x` under `id`, in place of what was there or where the order of ids puts it.
pub open spec fn put_by_id<T>(s: Seq<(u64, T)>, id: u64, x: T) -> Seq<(u64, T)>
    decreases s.len(),
{
    if s.len() == 0 {
        seq![(id, x)]
    } else if s[0].0 == id {
        s.update(0, (id, x))
    } else if id < s[0].0 {
        seq![(id, x)] + s
    } else {
        seq![s[0]] + put_by_id(s.subrange(1, s.len() as int), id, x)
    }
}

/// Whether the ids ascend, each once.
pub open spec fn ids_ascend<T>(s: Seq<(u64, T)>) -> bool {
    forall|i: int, j: int| 0 <= i < j < s.len() ==> s[i].0 < s[j].0
}

/// What stands under `id`.
pub open spec fn find_by_id<T>(s: Seq<(u64, T)>, id: u64) -> Option<T>
    decreases s.len(),
{
    if s.len() == 0 {
        None
    } else if s[0].0 == id {
        Some(s[0].1)
    } else {
        find_by_id(s.subrange(1, s.len() as int), id)
    }
}

/// Puts `x` under `id`, in place of what was there or where the order of ids puts it.
fn insert_by_id<T>(v: &mut Vec<(u64, T)>, id: u64, x: T)
    ensures
        final(v)@ == put_by_id(old(v)@, id, x),
{
    let ghost all = v@;
    let mut i: usize = 0;
    assert(all.subrange(0, all.len() as int) == all);
    assert(all.subrange(0, 0) + put_by_id(all, id, x) =~= put_by_id(all, id, x));
    while i < v.len()
        invariant
            i <= v.len(),
            v@ == all,
            all == old(v)@,
            put_by_id(all, id, x) == all.subrange(0, i as int) + put_by_id(
                all.subrange(i as int, all.len() as int),
                id,
                x,
            ),
        decreases v.len() - i,
    {
        let ghost rest = all.subrange(i as int, all.len() as int);
        let at: u64 = v[i].0;
        assert(rest[0] == all[i as int]);
        if at == id {
            v.set(i, (id, x));
            assert(v@ =~= all.subrange(0, i as int) + rest.update(0, (id, x)));
            return ;
        }
        if id < at {
            v.insert(i, (id, x));
            assert(v@ =~= all.subrange(0, i as int) + (seq![(id, x)] + rest));
            return ;
        }
        assert(rest.subrange(1, rest.len() as int) =~= all.subrange(i + 1, all.len() as int));
        assert(all.subrange(0, i as int) + (seq![rest[0]] + put_by_id(
            rest.subrange(1, rest.len() as int),
            id,
            x,
        )) =~= all.subrange(0, i + 1) + put_by_id(rest.subrange(1, rest.len() as int), id, x));
        i = i + 1;
    }
    v.push((id, x));
    assert(all.subrange(0, all.len() as int) =~= all);
    assert(v@ =~= all + seq![(id, x)]);
}

/// Putting an item in keeps the ids in order.
pub proof fn put_keeps_ids_ascending<T>(s: Seq<(u64, T)>, id: u64, x: T)
    requires
        ids_ascend(s),
    ensures
        ids_ascend(put_by_id(s, id, x)),
        forall|i: int|
            0 <= i < put_by_id(s, id, x).len() ==> (#[trigger] put_by_id(s, id, x)[i]).0 == id
                || exists|k: int| 0 <= k < s.len() && s[k].0 == put_by_id(s, id, x)[i].0,
    decreases s.len(),
{
    let put = put_by_id(s, id, x);
    if s.len() == 0 {
    } else if s[0].0 == id {
        assert forall|i: int| 0 <= i < put.len() implies (#[trigger] put[i]).0 == id || exists|
            k: int,
        | 0 <= k < s.len() && s[k].0 == put[i].0 by {
            assert(s[i].0 == put[i].0);
        }
    } else if id < s[0].0 {
        assert forall|i: int| 0 <= i < put.len() implies (#[trigger] put[i]).0 == id || exists|
            k: int,
        | 0 <= k < s.len() && s[k].0 == put[i].0 by {
            if i > 0 {
                assert(s[i - 1].0 == put[i].0);
            }
        }
    } else {
        let rest = s.subrange(1, s.len() as int);
        put_keeps_ids_ascending(rest, id, x);
        let inner = put_by_id(rest, id, x);
        assert forall|i: int| 0 <= i < put.len() implies (#[trigger] put[i]).0 == id || exists|
            k: int,
        | 0 <= k < s.len() && s[k].0 == put[i].0 by {
            if i == 0 {
                assert(s[0].0 == put[i].0);
            } else {
                assert(put[i] == inner[i - 1]);
                if inner[i - 1].0 != id {
                    let k = choose|k: int| 0 <= k < rest.len() && rest[k].0 == inner[i - 1].0;
                    assert(s[k + 1].0 == put[i].0);
                }
            }
        }
        assert forall|i: int, j: int| 0 <= i < j < put.len() implies put[i].0 < put[j].0 by {
            assert(put[j] == inner[j - 1]);
            if i == 0 {
                if inner[j - 1].0 != id {
                    let k = choose|k: int| 0 <= k < rest.len() && rest[k].0 == inner[j - 1].0;
                    assert(rest[k] == s[k + 1]);
                }
            } else {
                assert(put[i] == inner[i - 1]);
            }
        }
    }
}

/// An item that was put in is found again under its id, and every other id finds what it found
/// before.
pub proof fn put_by_id_is_found<T>(s: Seq<(u64, T)>, id: u64, x: T, other: u64)
    ensures
        find_by_id(put_by_id(s, id, x), other) == if other == id {
            Some(x)
        } else {
            find_by_id(s, other)
        },
    decreases s.len(),
{
    let put = put_by_id(s, id, x);
    if s.len() == 0 {
        assert(put.subrange(1, put.len() as int) =~= Seq::empty());
        assert(find_by_id(put.subrange(1, put.len() as int), other) is None);
    } else {
        let rest = s.subrange(1, s.len() as int);
        if s[0].0 == id {
            assert(put.subrange(1, put.len() as int) =~= rest);
        } else if id < s[0].0 {
            assert(put.subrange(1, put.len() as int) =~= s);
        } else {
            put_by_id_is_found(rest, id, x, other);
            assert(put.subrange(1, put.len() as int) =~= put_by_id(rest, id, x));
        }
    }
}

/// The models of a list by id.
pub open spec fn keyed_shots(v: Seq<(u64, ShotMeta)>) -> Seq<(u64, ShotView)> {
    v.map_values(|p: (u64, ShotMeta)| (p.0, p.1@))
}

/// The models of a list by id.
pub open spec fn keyed_clips(v: Seq<(u64, ClipboardMeta)>) -> Seq<(u64, ClipView)> {
    v.map_values(|p: (u64, ClipboardMeta)| (p.0, p.1@))
}

proof fn lemma_keyed_shots(v: Seq<(u64, ShotMeta)>, id: u64, x: ShotMeta)
    ensures
        keyed_shots(put_by_id(v, id, x)) == put_by_id(keyed_shots(v), id, x@),
    decreases v.len(),
{
    let k = keyed_shots(v);
    if v.len() == 0 {
        assert(keyed_shots(put_by_id(v, id, x)) =~= put_by_id(k, id, x@));
    } else {
        let rest = v.subrange(1, v.len() as int);
        lemma_keyed_shots(rest, id, x);
        assert(k.subrange(1, k.len() as int) =~= keyed_shots(rest));
        assert(keyed_shots(put_by_id(v, id, x)) =~= put_by_id(k, id, x@));
    }
}

proof fn lemma_keyed_clips(v: Seq<(u64, ClipboardMeta)>, id: u64, x: ClipboardMeta)
    ensures
        keyed_clips(put_by_id(v, id, x)) == put_by_id(keyed_clips(v), id, x@),
    decreases v.len(),
{
    let k = keyed_clips(v);
    if v.len() == 0 {
        assert(keyed_clips(put_by_id(v, id, x)) =~= put_by_id(k, id, x@));
    } else {
        let rest = v.subrange(1, v.len() as int);
        lemma_keyed_clips(rest, id, x);
        assert(k.subrange(1, k.len() as int) =~= keyed_clips(rest));
        assert(keyed_clips(put_by_id(v, id, x)) =~= put_by_id(k, id, x@));
    }
}

// ---------------------------------------------------------------------------------------------
// Reading events
// ---------------------------------------------------------------------------------------------

/// A number in a field of a value, where there is one.
pub open spec fn number_in(t: Option<Tree>) -> Option<NumberView> {
    match t {
        Some(Tree::Number(n)) => Some(n),
        _ => None,
    }
}

/// The time at which an event falls into the recording, a quantity: zero where it names none.
pub open spec fn audio_sec_of(event: Tree) -> NumberView {
    match number_in(field(event, "audioSec"@)) {
        Some(n) => quantity_of(n),
        None => quantity_of(NumberView::Unsigned(0)),
    }
}

/// A field of an object within an event.
pub open spec fn inner_field(event: Tree, outer: Seq<char>, key: Seq<char>) -> Option<Tree> {
    match field(event, outer) {
        Some(t) => field(t, key),
        None => None,
    }
}

/// An integer of 32 bits, where `n` is one.
pub open spec fn int32_of(n: Option<i64>) -> Option<i32> {
    match n {
        Some(v) => if i32::MIN <= v <= i32::MAX {
            Some(v as i32)
        } else {
            None
        },
        None => None,
    }
}

/// The screenshot that an event tells of, where it tells of one.
pub open spec fn shot_of(event: Tree) -> Option<ShotView> {
    let kind = text_field(event, "type"@);
    if kind != Some("screenshot_moved"@) && kind != Some("screenshot_taken"@) {
        None
    } else {
        match (unsigned_of(field(event, "id"@)), text_field(event, "dest"@)) {
            (Some(id), Some(dest)) => Some(
                ShotView {
                    shot_id: id,
                    dest_rel_path: dest,
                    audio_sec: audio_sec_of(event),
                    app_name: text_of(inner_field(event, "app"@, "name"@)),
                    app_bundle_id: text_of(inner_field(event, "app"@, "bundle_id"@)),
                    app_pid: int32_of(integer_of(inner_field(event, "app"@, "pid"@))),
                    window_title: text_of(inner_field(event, "app"@, "window_title"@)),
                    app_capture_error: text_field(event, "app_capture_error"@),
                    proc_cpu_percent: number_in(inner_field(event, "process"@, "cpu_percent"@)),
                    proc_mem_percent: number_in(inner_field(event, "process"@, "mem_percent"@)),
                    proc_rss_kb: unsigned_of(inner_field(event, "process"@, "rss_kb"@)),
                    proc_elapsed: text_of(inner_field(event, "process"@, "elapsed"@)),
                    proc_state: text_of(inner_field(event, "process"@, "state"@)),
                    proc_command: text_of(inner_field(event, "process"@, "command"@)),
                    proc_capture_error: text_field(event, "process_capture_error"@),
                },
            ),
            _ => None,
        }
    }
}

/// The clipboard text that an event tells of, where it tells of one.
pub open spec fn clip_of(event: Tree) -> Option<ClipView> {
    if text_field(event, "type"@) != Some("clipboard_copied"@) {
        None
    } else {
        match (unsigned_of(field(event, "id"@)), text_field(event, "text"@)) {
            (Some(id), Some(text)) => Some(
                ClipView { clip_id: id, text, audio_sec: audio_sec_of(event) },
            ),
            _ => None,
        }
    }
}

/// The screenshots that the first `n` events tell of, by id: of several with one id the last.
pub open spec fn shots_by_id(events: Seq<Tree>, n: int) -> Seq<(u64, ShotView)>
    decreases n,
{
    if n <= 0 {
        Seq::empty()
    } else {
        match shot_of(events[n - 1]) {
            Some(s) => put_by_id(shots_by_id(events, n - 1), s.shot_id, s),
            None => shots_by_id(events, n - 1),
        }
    }
}

/// The clipboard texts that the first `n` events tell of, by id: of several with one id the last.
pub open spec fn clips_by_id(events: Seq<Tree>, n: int) -> Seq<(u64, ClipView)>
    decreases n,
{
    if n <= 0 {
        Seq::empty()
    } else {
        match clip_of(events[n - 1]) {
            Some(c) => put_by_id(clips_by_id(events, n - 1), c.clip_id, c),
            None => clips_by_id(events, n - 1),
        }
    }
}

/// The items of a list by id.
pub open spec fn items_of<T>(s: Seq<(u64, T)>) -> Seq<T> {
    s.map_values(|p: (u64, T)| p.1)
}

/// The screenshots that events tell of, in the order of their ids.
pub open spec fn shots_of(events: Seq<Tree>) -> Seq<ShotView> {
    items_of(shots_by_id(events, events.len() as int))
}

/// The clipboard texts that events tell of, in the order of their ids.
pub open spec fn clips_of(events: Seq<Tree>) -> Seq<ClipView> {
    items_of(clips_by_id(events, events.len() as int))
}

/// The text of a field of an object within an event.
fn inner_text(event: &Json, outer: &str, key: &str) -> (r: Option<String>)
    ensures
        opt_view(r) == text_of(inner_field(event@, outer@, key@)),
{
    match event.get(outer) {
        Some(t) => match t.get_text(key) {
            Some(s) => Some(s.clone()),
            None => None,
        },
        None => None,
    }
}

/// The number of a field of an object within an event.
fn inner_number(event: &Json, outer: &str, key: &str) -> (r: Option<Number>)
    ensures
        opt_number(r) == number_in(inner_field(event@, outer@, key@)),
{
    match event.get(outer) {
        Some(t) => match t.get(key) {
            Some(Json::Number(n)) => Some(n.copy()),
            _ => None,
        },
        None => None,
    }
}

/// The time at which an event falls into the recording, a quantity: zero where it names none.
fn audio_sec(event: &Json) -> (r: Number)
    ensures
        r@ == audio_sec_of(event@),
{
    match event.get("audioSec") {
        Some(Json::Number(n)) => n.quantity(),
        _ => Number::Unsigned(0).quantity(),
    }
}

/// The text of a field, where there is one.
fn own_text(event: &Json, key: &str) -> (r: Option<String>)
    ensures
        opt_view(r) == text_field(event@, key@),
{
    match event.get_text(key) {
        Some(s) => Some(s.clone()),
        None => None,
    }
}

/// The screenshot that an event tells of, where it tells of one.
fn read_shot(event: &Json) -> (r: Option<ShotMeta>)
    ensures
        match shot_of(event@) {
            Some(s) => r is Some && r->0@ == s,
            None => r is None,
        },
{
    match event.get_text("type") {
        Some(t) => if !same(t.as_str(), "screenshot_moved") && !same(
            t.as_str(),
            "screenshot_taken",
        ) {
            return None;
        },
        None => {
            return None;
        },
    }
    let shot_id = match event.get_u64("id") {
        Some(id) => id,
        None => {
            return None;
        },
    };
    let dest_rel_path = match event.get_text("dest") {
        Some(d) => d.clone(),
        None => {
            return None;
        },
    };
    let app_pid: Option<i32> = match event.get("app") {
        Some(t) => match t.get_i64("pid") {
            Some(v) => if i32::MIN as i64 <= v && v <= i32::MAX as i64 {
                Some(v as i32)
            } else {
                None
            },
            None => None,
        },
        None => None,
    };
    let proc_rss_kb: Option<u64> = match event.get("process") {
        Some(t) => t.get_u64("rss_kb"),
        None => None,
    };
    let s = ShotMeta {
        shot_id,
        dest_rel_path,
        audio_sec: audio_sec(event),
        app_name: inner_text(event, "app", "name"),
        app_bundle_id: inner_text(event, "app", "bundle_id"),
        app_pid,
        window_title: inner_text(event, "app", "window_title"),
        app_capture_error: own_text(event, "app_capture_error"),
        proc_cpu_percent: inner_number(event, "process", "cpu_percent"),
        proc_mem_percent: inner_number(event, "process", "mem_percent"),
        proc_rss_kb,
        proc_elapsed: inner_text(event, "process", "elapsed"),
        proc_state: inner_text(event, "process", "state"),
        proc_command: inner_text(event, "process", "command"),
        proc_capture_error: own_text(event, "process_capture_error"),
    };
    Some(s)
}

/// The clipboard text that an event tells of, where it tells of one.
fn read_clip(event: &Json) -> (r: Option<ClipboardMeta>)
    ensures
        match clip_of(event@) {
            Some(c) => r is Some && r->0@ == c,
            None => r is None,
        },
{
    match event.get_text("type") {
        Some(t) => if !same(t.as_str(), "clipboard_copied") {
            return None;
        },
        None => {
            return None;
        },
    }
    match (event.get_u64("id"), event.get_text("text")) {
        (Some(clip_id), Some(text)) => Some(
            ClipboardMeta { clip_id, text: text.clone(), audio_sec: audio_sec(event) },
        ),
        _ => None,
    }
}

/// The screenshots that events tell of, in the order of their ids: of several with one id the
/// last.
pub fn shots_from_events(events: &Vec<Json>) -> (r: Vec<ShotMeta>)
    ensures
        shot_views(r@) == shots_of(item_views(events@)),
{
    let ghost all = item_views(events@);
    let mut by_id: Vec<(u64, ShotMeta)> = Vec::new();
    let mut i: usize = 0;
    assert(keyed_shots(by_id@) =~= Seq::empty());
    while i < events.len()
        invariant
            i <= events.len(),
            all == item_views(events@),
            keyed_shots(by_id@) == shots_by_id(all, i as int),
        decreases events.len() - i,
    {
        assert(all[i as int] == events@[i as int]@);
        if let Some(s) = read_shot(&events[i]) {
            let id: u64 = s.shot_id;
            proof {
                lemma_keyed_shots(by_id@, id, s);
            }
            insert_by_id(&mut by_id, id, s);
        }
        i = i + 1;
    }
    let ghost done = keyed_shots(by_id@);
    let ghost kept = by_id@;
    let mut out: Vec<ShotMeta> = Vec::new();
    while by_id.len() > 0
        invariant
            done == keyed_shots(kept),
            by_id@.len() <= kept.len(),
            by_id@ == kept.subrange(kept.len() - by_id@.len(), kept.len() as int),
            out@.len() == kept.len() - by_id@.len(),
            forall|k: int| 0 <= k < out@.len() ==> #[trigger] out@[k] == kept[k].1,
        decreases by_id@.len(),
    {
        let (_, s) = by_id.remove(0);
        out.push(s);
    }
    assert(shot_views(out@) =~= items_of(done));
    out
}

/// The clipboard texts that events tell of, in the order of their ids: of several with one id the
/// last.
pub fn clipboard_from_events(events: &Vec<Json>) -> (r: Vec<ClipboardMeta>)
    ensures
        clip_views(r@) == clips_of(item_views(events@)),
{
    let ghost all = item_views(events@);
    let mut by_id: Vec<(u64, ClipboardMeta)> = Vec::new();
    let mut i: usize = 0;
    assert(keyed_clips(by_id@) =~= Seq::empty());
    while i < events.len()
        invariant
            i <= events.len(),
            all == item_views(events@),
            keyed_clips(by_id@) == clips_by_id(all, i as int),
        decreases events.len() - i,
    {
        assert(all[i as int] == events@[i as int]@);
        if let Some(c) = read_clip(&events[i]) {
            let id: u64 = c.clip_id;
            proof {
                lemma_keyed_clips(by_id@, id, c);
            }
            insert_by_id(&mut by_id, id, c);
        }
        i = i + 1;
    }
    let ghost done = keyed_clips(by_id@);
    let ghost kept = by_id@;
    let mut out: Vec<ClipboardMeta> = Vec::new();
    while by_id.len() > 0
        invariant
            done == keyed_clips(kept),
            by_id@.len() <= kept.len(),
            by_id@ == kept.subrange(kept.len() - by_id@.len(), kept.len() as int),
            out@.len() == kept.len() - by_id@.len(),
            forall|k: int| 0 <= k < out@.len() ==> #[trigger] out@[k] == kept[k].1,
        decreases by_id@.len(),
    {
        let (_, c) = by_id.remove(0);
        out.push(c);
    }
    assert(clip_views(out@) =~= items_of(done));
    out
}

/// The screenshots of a session have ascending ids, each once.
pub proof fn shot_ids_ascend(events: Seq<Tree>, n: int)
    ensures
        ids_ascend(shots_by_id(events, n)),
    decreases n,
{
    if n > 0 {
        shot_ids_ascend(events, n - 1);
        if let Some(s) = shot_of(events[n - 1]) {
            put_keeps_ids_ascending(shots_by_id(events, n - 1), s.shot_id, s);
        }
    }
}

/// The clipboard texts of a session have ascending ids, each once.
pub proof fn clip_ids_ascend(events: Seq<Tree>, n: int)
    ensures
        ids_ascend(clips_by_id(events, n)),
    decreases n,
{
    if n > 0 {
        clip_ids_ascend(events, n - 1);
        if let Some(c) = clip_of(events[n - 1]) {
            put_keeps_ids_ascending(clips_by_id(events, n - 1), c.clip_id, c);
        }
    }
}

/// The largest of the first `n` ids, 0 where there is none.
pub open spec fn max_id(ids: Seq<u64>, n: int) -> u64
    decreases n,
{
    if n <= 0 {
        0
    } else if ids[n - 1] > max_id(ids, n - 1) {
        ids[n - 1]
    } else {
        max_id(ids, n - 1)
    }
}

/// The ids of screenshots.
pub open spec fn shot_ids(shots: Seq<ShotView>) -> Seq<u64> {
    shots.map_values(|s: ShotView| s.shot_id)
}

/// The ids of clipboard texts.
pub open spec fn clip_ids(clips: Seq<ClipView>) -> Seq<u64> {
    clips.map_values(|c: ClipView| c.clip_id)
}

/// The largest id of a screenshot, 0 where there is none.
pub fn max_shot_id(shots: &Vec<ShotMeta>) -> (r: u64)
    ensures
        r == max_id(shot_ids(shot_views(shots@)), shots@.len() as int),
{
    let ghost ids = shot_ids(shot_views(shots@));
    let mut max: u64 = 0;
    let mut i: usize = 0;
    while i < shots.len()
        invariant
            i <= shots.len(),
            ids == shot_ids(shot_views(shots@)),
            max == max_id(ids, i as int),
        decreases shots.len() - i,
    {
        assert(ids[i as int] == shots@[i as int].shot_id);
        if shots[i].shot_id > max {
            max = shots[i].shot_id;
        }
        i = i + 1;
    }
    max
}

/// The largest id of a clipboard text, 0 where there is none.
pub fn max_clipboard_id(clips: &Vec<ClipboardMeta>) -> (r: u64)
    ensures
        r == max_id(clip_ids(clip_views(clips@)), clips@.len() as int),
{
    let ghost ids = clip_ids(clip_views(clips@));
    let mut max: u64 = 0;
    let mut i: usize = 0;
    while i < clips.len()
        invariant
            i <= clips.len(),
            ids == clip_ids(clip_views(clips@)),
            max == max_id(ids, i as int),
        decreases clips.len() - i,
    {
        assert(ids[i as int] == clips@[i as int].clip_id);
        if clips[i].clip_id > max {
            max = clips[i].clip_id;
        }
        i = i + 1;
    }
    max
}

/// No id is larger than the largest: the next one is free.
pub proof fn max_id_bounds(ids: Seq<u64>, n: int, k: int)
    requires
        0 <= k < n <= ids.len(),
    ensures
        ids[k] <= max_id(ids, n),
    decreases n,
{
    if k < n - 1 {
        max_id_bounds(ids, n - 1, k);
    }
}

// ---------------------------------------------------------------------------------------------
// Marks in a transcript
// ---------------------------------------------------------------------------------------------

/// What a screenshot is called: by the application it shows, where that is known, and its number.
pub open spec fn shot_label(s: ShotView) -> Seq<char> {
    match s.app_name {
        Some(name) => name + " Screenshot "@ + decimal(s.shot_id as nat),
        None => "Screenshot "@ + decimal(s.shot_id as nat),
    }
}

/// What a screenshot is called: by the application it shows, where that is known, and its number.
pub fn label_of_shot(s: &ShotMeta) -> (r: String)
    ensures
        r@ == shot_label(s@),
{
    let n = decimal_text(s.shot_id);
    match &s.app_name {
        Some(name) => concat3(name.as_str(), " Screenshot ", n.as_str()),
        None => concat("Screenshot ", n.as_str()),
    }
}

/// What a clipboard text is called.
pub open spec fn clip_label(c: ClipView) -> Seq<char> {
    "Clipboard "@ + decimal(c.clip_id as nat)
}

/// A mark that stands for a screenshot or a clipboard text: when it was taken, what stands in the
/// transcript for it, and the number of words before it.
pub struct Marker {
    pub at: Measure,
    pub text: String,
    pub slot: usize,
}

/// The model of a mark.
#[verifier::ext_equal]
pub struct MarkView {
    pub at: Measure,
    pub text: Seq<char>,
    pub slot: nat,
}

impl View for Marker {
    type V = MarkView;

    open spec fn view(&self) -> MarkView {
        MarkView { at: self.at, text: self.text@, slot: self.slot as nat }
    }
}

/// The models of a list of marks.
pub open spec fn mark_views(v: Seq<Marker>) -> Seq<MarkView> {
    v.map_values(|m: Marker| m@)
}

/// The mark of a screenshot.
pub open spec fn shot_mark(s: ShotView) -> MarkView {
    MarkView { at: measure_of(s.audio_sec), text: "["@ + shot_label(s) + "]"@, slot: 0 }
}

/// The mark of a clipboard text.
pub open spec fn clip_mark(c: ClipView) -> MarkView {
    MarkView { at: measure_of(c.audio_sec), text: "["@ + clip_label(c) + "]"@, slot: 0 }
}

/// The marks of screenshots and of clipboard texts, not yet placed.
pub open spec fn marks_of(shots: Seq<ShotView>, clips: Seq<ClipView>) -> Seq<MarkView> {
    shots.map_values(|s: ShotView| shot_mark(s)) + clips.map_values(|c: ClipView| clip_mark(c))
}

/// The marks of the screenshots and of the clipboard texts of a session, not yet placed.
pub fn annotation_markers(shots: &Vec<ShotMeta>, clips: &Vec<ClipboardMeta>) -> (r: Vec<Marker>)
    ensures
        mark_views(r@) == marks_of(shot_views(shots@), clip_views(clips@)),
{
    let ghost fs = |s: ShotView| shot_mark(s);
    let ghost fc = |c: ClipView| clip_mark(c);
    let ghost sv = shot_views(shots@);
    let ghost cv = clip_views(clips@);
    let mut out: Vec<Marker> = Vec::new();
    let mut i: usize = 0;
    assert(mark_views(out@) =~= sv.subrange(0, 0).map_values(fs));
    while i < shots.len()
        invariant
            i <= shots.len(),
            sv == shot_views(shots@),
            fs == (|s: ShotView| shot_mark(s)),
            mark_views(out@) == sv.subrange(0, i as int).map_values(fs),
        decreases shots.len() - i,
    {
        let ghost before = out@;
        let text = concat3("[", label_of_shot(&shots[i]).as_str(), "]");
        out.push(Marker { at: shots[i].audio_sec.measure(), text, slot: 0 });
        proof {
            assert(sv[i as int] == shots@[i as int]@);
            assert(mark_views(out@) =~= mark_views(before).push(fs(sv[i as int])));
            assert(sv.subrange(0, i + 1).map_values(fs) =~= sv.subrange(0, i as int).map_values(
                fs,
            ).push(fs(sv[i as int])));
        }
        i = i + 1;
    }
    assert(sv.subrange(0, sv.len() as int) =~= sv);
    let mut j: usize = 0;
    assert(mark_views(out@) =~= sv.map_values(fs) + cv.subrange(0, 0).map_values(fc));
    while j < clips.len()
        invariant
            j <= clips.len(),
            cv == clip_views(clips@),
            fc == (|c: ClipView| clip_mark(c)),
            mark_views(out@) == sv.map_values(fs) + cv.subrange(0, j as int).map_values(fc),
        decreases clips.len() - j,
    {
        let ghost before = out@;
        let label = concat("Clipboard ", decimal_text(clips[j].clip_id).as_str());
        let text = concat3("[", label.as_str(), "]");
        out.push(Marker { at: clips[j].audio_sec.measure(), text, slot: 0 });
        proof {
            assert(cv[j as int] == clips@[j as int]@);
            assert(mark_views(out@) =~= mark_views(before).push(fc(cv[j as int])));
            assert(cv.subrange(0, j + 1).map_values(fc) =~= cv.subrange(0, j as int).map_values(
                fc,
            ).push(fc(cv[j as int])));
            assert(mark_views(before).push(fc(cv[j as int])) =~= sv.map_values(fs) + cv.subrange(
                0,
                j + 1,
            ).map_values(fc));
        }
        j = j + 1;
    }
    assert(cv.subrange(0, cv.len() as int) =~= cv);
    out
}

/// `s`, ordered by time, with `m` put behind every mark that is not later.
pub open spec fn insert_mark(s: Seq<MarkView>, m: MarkView) -> Seq<MarkView>
    decreases s.len(),
{
    if s.len() == 0 || s.last().at.key() <= m.at.key() {
        s.push(m)
    } else {
        insert_mark(s.drop_last(), m).push(s.last())
    }
}

/// The first `n` marks that the text does not hold yet, in the order of their times; marks of the
/// same time in the order in which they come.
pub open spec fn ordered_marks(text: Seq<char>, marks: Seq<MarkView>, n: int) -> Seq<MarkView>
    decreases n,
{
    if n <= 0 {
        Seq::empty()
    } else if contains(text, marks[n - 1].text) {
        ordered_marks(text, marks, n - 1)
    } else {
        insert_mark(ordered_marks(text, marks, n - 1), marks[n - 1])
    }
}

/// The texts of marks.
pub open spec fn mark_texts(s: Seq<MarkView>) -> Seq<Seq<char>> {
    s.map_values(|m: MarkView| m.text)
}

/// The smaller of two numbers.
pub open spec fn min_of(a: nat, b: nat) -> nat {
    if a < b {
        a
    } else {
        b
    }
}

/// The words with the first `n` marks among them: each behind the words that are said before it,
/// and behind the marks that are placed already.
pub open spec fn placed(words: Seq<Seq<char>>, marks: Seq<MarkView>, n: int) -> Seq<Seq<char>>
    decreases n,
{
    if n <= 0 {
        words
    } else {
        let before = placed(words, marks, n - 1);
        let at = min_of(min_of(marks[n - 1].slot, before.len()) + (n - 1) as nat, before.len());
        before.insert(at as int, marks[n - 1].text)
    }
}

/// A transcript with its marks: among the words where the duration of the recording is known, else
/// behind them. A mark that is there already is not put in again.
pub open spec fn annotated(
    transcript: Seq<char>,
    marks: Seq<MarkView>,
    duration: Option<Measure>,
) -> Seq<char> {
    let clean = trimmed(transcript);
    let todo = ordered_marks(clean, marks, marks.len() as int);
    if clean.len() == 0 {
        if todo.len() == 0 {
            "_No transcript available._"@
        } else {
            joined(seq!["_No transcript available._"@, Seq::empty()] + mark_texts(todo), "\n"@)
        }
    } else if todo.len() == 0 {
        clean
    } else if duration is None || duration->0.key() <= 0 {
        clean + "\n\n"@ + joined(mark_texts(todo), " "@)
    } else if words_of(clean).len() == 0 {
        clean
    } else {
        joined(placed(words_of(clean), todo, todo.len() as int), " "@)
    }
}

/// The marks that the text does not hold yet, in the order of their times.
fn order_marks(text: &str, marks: &Vec<Marker>) -> (r: Vec<Marker>)
    ensures
        mark_views(r@) == ordered_marks(text@, mark_views(marks@), marks@.len() as int),
{
    let ghost all = mark_views(marks@);
    let mut out: Vec<Marker> = Vec::new();
    let mut i: usize = 0;
    assert(mark_views(out@) =~= Seq::empty());
    while i < marks.len()
        invariant
            i <= marks.len(),
            all == mark_views(marks@),
            mark_views(out@) == ordered_marks(text@, all, i as int),
        decreases marks.len() - i,
    {
        assert(all[i as int] == marks@[i as int]@);
        if !contains_text(text, marks[i].text.as_str()) {
            let m = Marker { at: marks[i].at, text: marks[i].text.clone(), slot: marks[i].slot };
            insert_in_order(&mut out, m);
        }
        i = i + 1;
    }
    out
}

/// Puts `m` behind every mark that is not later.
fn insert_in_order(v: &mut Vec<Marker>, m: Marker)
    ensures
        mark_views(final(v)@) == insert_mark(mark_views(old(v)@), m@),
{
    let ghost all = mark_views(v@);
    let ghost orig = v@;
    let mut n: usize = v.len();
    assert(all.subrange(0, n as int) =~= all);
    assert(insert_mark(all, m@) =~= insert_mark(all, m@) + all.subrange(n as int, n as int));
    while n > 0 && m.at.less(&v[n - 1].at)
        invariant
            n <= v.len(),
            v@ == orig,
            all == mark_views(orig),
            insert_mark(all, m@) == insert_mark(all.subrange(0, n as int), m@) + all.subrange(
                n as int,
                all.len() as int,
            ),
        decreases n,
    {
        proof {
            let s = all.subrange(0, n as int);
            assert(s.last() == orig[n - 1]@);
            assert(s.drop_last() =~= all.subrange(0, n - 1));
            assert(insert_mark(s.drop_last(), m@).push(s.last()) + all.subrange(
                n as int,
                all.len() as int,
            ) =~= insert_mark(s.drop_last(), m@) + all.subrange(n - 1, all.len() as int));
        }
        n = n - 1;
    }
    proof {
        let s = all.subrange(0, n as int);
        if n > 0 {
            assert(s.last() == orig[n - 1]@);
        }
        assert(insert_mark(s, m@) == s.push(m@));
        assert(s.push(m@) + all.subrange(n as int, all.len() as int) =~= all.insert(
            n as int,
            m@,
        ));
    }
    let ghost mv = m@;
    v.insert(n, m);
    assert(mark_views(v@) =~= all.insert(n as int, mv));
}

/// The texts of marks.
fn texts_of_marks(marks: &Vec<Marker>) -> (r: Vec<String>)
    ensures
        views(r@) == mark_texts(mark_views(marks@)),
{
    let mut out: Vec<String> = Vec::new();
    let mut i: usize = 0;
    while i < marks.len()
        invariant
            i <= marks.len(),
            out@.len() == i,
            forall|k: int| 0 <= k < i ==> (#[trigger] out@[k])@ == marks@[k].text@,
        decreases marks.len() - i,
    {
        out.push(marks[i].text.clone());
        i = i + 1;
    }
    assert(views(out@) =~= mark_texts(mark_views(marks@)));
    out
}

/// A placed mark makes one word more.
proof fn lemma_placed_len(words: Seq<Seq<char>>, marks: Seq<MarkView>, n: int)
    requires
        0 <= n,
    ensures
        placed(words, marks, n).len() == words.len() + n,
    decreases n,
{
    if n > 0 {
        lemma_placed_len(words, marks, n - 1);
    }
}

/// A transcript with its marks: among the words where the duration of the recording is known, else
/// behind them. A mark that is there already is not put in again.
pub fn inject_annotation_markers(
    transcript: &str,
    markers: &Vec<Marker>,
    duration: &Option<Measure>,
) -> (r: String)
    ensures
        r@ == annotated(transcript@, mark_views(markers@), *duration),
{
    let clean = trim(transcript);
    let todo = order_marks(clean.as_str(), markers);
    let ghost tv = mark_views(todo@);
    assert(tv.len() == todo@.len());
    if clean.as_str().is_empty() {
        if todo.len() == 0 {
            return "_No transcript available._".to_owned();
        }
        let mut lines: Vec<String> = Vec::new();
        lines.push("_No transcript available._".to_owned());
        lines.push(String::new());
        let mut texts = texts_of_marks(&todo);
        let ghost tt = views(texts@);
        let ghost lv = lines@;
        let ghost txs = texts@;
        lines.append(&mut texts);
        assert(views(lines@) =~= seq!["_No transcript available._"@, Seq::empty()] + tt) by {
            assert(lines@ == lv + txs);
        }
        return join(&lines, "\n");
    }
    if todo.len() == 0 {
        return clean;
    }
    let timed: bool = match duration {
        Some(d) => {
            let zero = Measure { bits: 0 };
            zero.less(d)
        },
        None => false,
    };
    if !timed {
        let tail = join(&texts_of_marks(&todo), " ");
        return concat3(clean.as_str(), "\n\n", tail.as_str());
    }
    let mut tokens = words(clean.as_str());
    let ghost base = words_of(clean@);
    assert(base.len() == tokens@.len());
    if tokens.len() == 0 {
        return clean;
    }
    let mut i: usize = 0;
    while i < todo.len()
        invariant
            i <= todo.len(),
            tv == mark_views(todo@),
            views(tokens@) == placed(base, tv, i as int),
        decreases todo.len() - i,
    {
        let n: usize = tokens.len();
        let slot: usize = todo[i].slot;
        let idx: usize = if slot < n {
            slot
        } else {
            n
        };
        let at: usize = if i < n - idx {
            idx + i
        } else {
            n
        };
        let ghost before = tokens@;
        assert(tv[i as int] == todo@[i as int]@);
        assert(views(before).len() == n);
        tokens.insert(at, todo[i].text.clone());
        assert(views(tokens@) =~= views(before).insert(at as int, todo@[i as int].text@));
        i = i + 1;
    }
    join(&tokens, " ")
}

// ---------------------------------------------------------------------------------------------
// Laws of marks
// ---------------------------------------------------------------------------------------------

/// Whether marks are in the order of their times.
pub open spec fn in_time_order(s: Seq<MarkView>) -> bool {
    forall|i: int, j: int| 0 <= i < j < s.len() ==> s[i].at.key() <= s[j].at.key()
}

proof fn lemma_insert_mark(s: Seq<MarkView>, m: MarkView)
    requires
        in_time_order(s),
    ensures
        in_time_order(insert_mark(s, m)),
        insert_mark(s, m).to_multiset() == s.to_multiset().insert(m),
        insert_mark(s, m).len() == s.len() + 1,
        forall|k: int|
            0 <= k < insert_mark(s, m).len() ==> (#[trigger] insert_mark(s, m)[k]) == m
                || s.contains(insert_mark(s, m)[k]),
    decreases s.len(),
{
    broadcast use vstd::seq_lib::group_to_multiset_ensures;

    let r = insert_mark(s, m);
    if s.len() == 0 || s.last().at.key() <= m.at.key() {
        assert forall|k: int| 0 <= k < r.len() implies (#[trigger] r[k]) == m || s.contains(
            r[k],
        ) by {
            if k < s.len() {
                assert(s[k] == r[k]);
            }
        }
    } else {
        let front = s.drop_last();
        lemma_insert_mark(front, m);
        let inner = insert_mark(front, m);
        assert(s =~= front.push(s.last()));
        assert(r.to_multiset() =~= s.to_multiset().insert(m));
        assert forall|k: int| 0 <= k < r.len() implies (#[trigger] r[k]) == m || s.contains(
            r[k],
        ) by {
            if k < inner.len() {
                assert(r[k] == inner[k]);
                if inner[k] != m {
                    let j = choose|j: int| 0 <= j < front.len() && front[j] == inner[k];
                    assert(s[j] == r[k]);
                }
            } else {
                assert(s[s.len() - 1] == r[k]);
            }
        }
        assert forall|i: int, j: int| 0 <= i < j < r.len() implies r[i].at.key()
            <= r[j].at.key() by {
            if j == inner.len() {
                assert(r[i] == inner[i]);
                if inner[i] != m {
                    let k = choose|k: int| 0 <= k < front.len() && front[k] == inner[i];
                    assert(s[k] == inner[i]);
                }
            } else {
                assert(r[i] == inner[i] && r[j] == inner[j]);
            }
        }
    }
}

/// Marks are placed in the order of their times.
pub proof fn marks_are_in_time_order(text: Seq<char>, marks: Seq<MarkView>, n: int)
    ensures
        in_time_order(ordered_marks(text, marks, n)),
    decreases n,
{
    if n > 0 {
        marks_are_in_time_order(text, marks, n - 1);
        lemma_insert_mark(ordered_marks(text, marks, n - 1), marks[n - 1]);
    }
}

/// Placing marks among words loses no word and adds nothing but the marks.
pub proof fn placing_keeps_words(words: Seq<Seq<char>>, marks: Seq<MarkView>, n: int)
    requires
        0 <= n <= marks.len(),
    ensures
        placed(words, marks, n).len() == words.len() + n,
        placed(words, marks, n).to_multiset() == words.to_multiset().add(
            mark_texts(marks.subrange(0, n)).to_multiset(),
        ),
    decreases n,
{
    broadcast use vstd::seq_lib::group_to_multiset_ensures;

    lemma_placed_len(words, marks, n);
    let texts = mark_texts(marks.subrange(0, n));
    if n > 0 {
        placing_keeps_words(words, marks, n - 1);
        lemma_placed_len(words, marks, n - 1);
        let before = placed(words, marks, n - 1);
        let at = min_of(min_of(marks[n - 1].slot, before.len()) + (n - 1) as nat, before.len());
        let t = marks[n - 1].text;
        assert(texts =~= mark_texts(marks.subrange(0, n - 1)).push(t));
        let after = before.insert(at as int, t);
        assert(after.remove(at as int) =~= before);
        assert(after[at as int] == t && after.contains(t));
        assert(after.to_multiset() =~= before.to_multiset().insert(t));
        assert(placed(words, marks, n).to_multiset() =~= words.to_multiset().add(
            texts.to_multiset(),
        ));
    } else {
        assert(texts =~= Seq::empty());
        assert(placed(words, marks, n).to_multiset() =~= words.to_multiset().add(
            texts.to_multiset(),
        ));
    }
}

/// How many marks are put in before the word at `j`: those of a slot up to `j`.
spec fn marks_up_to(marks: Seq<MarkView>, j: int) -> nat {
    marks.filter(|m: MarkView| m.slot <= j).len()
}

proof fn lemma_marks_up_to(marks: Seq<MarkView>, j: int)
    ensures
        marks_up_to(marks, j) <= marks.len(),
        (forall|i: int| 0 <= i < marks.len() ==> (#[trigger] marks[i]).slot <= j) ==> marks_up_to(
            marks,
            j,
        ) == marks.len(),
        marks.len() > 0 ==> marks_up_to(marks, j) == marks_up_to(marks.drop_last(), j) + (
        if marks.last().slot <= j {
            1nat
        } else {
            0nat
        }),
    decreases marks.len(),
{
    reveal(Seq::filter);
    if marks.len() > 0 {
        let front = marks.drop_last();
        lemma_marks_up_to(front, j);
        if forall|i: int| 0 <= i < marks.len() ==> (#[trigger] marks[i]).slot <= j {
            assert forall|i: int| 0 <= i < front.len() implies (#[trigger] front[i]).slot <= j by {
                assert(front[i] == marks[i]);
            }
            assert(marks.last() == marks[marks.len() - 1]);
        }
    }
}

proof fn lemma_placed_at_slots(words: Seq<Seq<char>>, marks: Seq<MarkView>, r: Seq<Seq<char>>)
    requires
        forall|i: int, j: int| 0 <= i < j < marks.len() ==> marks[i].slot <= marks[j].slot,
        forall|i: int| 0 <= i < marks.len() ==> (#[trigger] marks[i]).slot <= words.len(),
        r.len() == words.len() + marks.len(),
        forall|i: int|
            0 <= i < marks.len() ==> r[(#[trigger] marks[i]).slot + i] == marks[i].text,
        forall|j: int|
            0 <= j < words.len() ==> r[j + marks_up_to(marks, j)] == #[trigger] words[j],
    ensures
        placed(words, marks, marks.len() as int) == r,
    decreases marks.len(),
{
    let n = marks.len() as int;
    if n == 0 {
        assert forall|j: int| 0 <= j < words.len() implies r[j] == words[j] by {
            lemma_marks_up_to(marks, j);
        }
        assert(r =~= words);
    } else {
        let front = marks.drop_last();
        let m = marks.last();
        let at = m.slot + n - 1;
        let rest = r.remove(at);
        assert(marks[n - 1] == m);
        assert forall|i: int| 0 <= i < front.len() implies rest[(#[trigger] front[i]).slot + i]
            == front[i].text by {
            assert(front[i] == marks[i]);
        }
        assert forall|j: int| 0 <= j < words.len() implies rest[j + marks_up_to(front, j)]
            == #[trigger] words[j] by {
            lemma_marks_up_to(marks, j);
            lemma_marks_up_to(front, j);
            if m.slot <= j {
                assert forall|i: int| 0 <= i < front.len() implies (#[trigger] front[i]).slot
                    <= j by {
                    assert(front[i] == marks[i]);
                }
            }
        }
        lemma_placed_at_slots(words, front, rest);
        lemma_placed_prefix(words, marks, front, n - 1);
        lemma_placed_len(words, marks, n - 1);
        assert(rest.insert(at, m.text) =~= r);
    }
}

/// Marks that come later do not matter to those that are placed first.
proof fn lemma_placed_prefix(
    words: Seq<Seq<char>>,
    marks: Seq<MarkView>,
    front: Seq<MarkView>,
    n: int,
)
    requires
        0 <= n <= front.len() <= marks.len(),
        forall|i: int| 0 <= i < front.len() ==> marks[i] == #[trigger] front[i],
    ensures
        placed(words, marks, n) == placed(words, front, n),
    decreases n,
{
    if n > 0 {
        lemma_placed_prefix(words, marks, front, n - 1);
        assert(marks[n - 1] == front[n - 1]);
    }
}

/// Marks that come in the order of their times, and that the text does not hold, stay as they are.
proof fn lemma_ordered_already(text: Seq<char>, marks: Seq<MarkView>, n: int)
    requires
        0 <= n <= marks.len(),
        forall|i: int| 0 <= i < marks.len() ==> !contains(text, (#[trigger] marks[i]).text),
        forall|i: int, j: int| 0 <= i < j < marks.len() ==> marks[i].at.key() <= marks[j].at.key(),
    ensures
        ordered_marks(text, marks, n) == marks.subrange(0, n),
    decreases n,
{
    if n > 0 {
        lemma_ordered_already(text, marks, n - 1);
        let before = marks.subrange(0, n - 1);
        assert(!contains(text, marks[n - 1].text));
        if n > 1 {
            assert(before.last() == marks[n - 2]);
        }
        assert(before.push(marks[n - 1]) =~= marks.subrange(0, n));
    } else {
        assert(marks.subrange(0, 0) =~= Seq::empty());
    }
}

/// A mark stands at the point in the speech where it was taken: where `r` are the words of the
/// transcript in their order, and among them the marks, the one of slot `k` behind exactly the first
/// `k` words and behind the marks before it, the result is `r`, with blanks between.
pub proof fn marks_stand_where_they_were_taken(
    transcript: Seq<char>,
    marks: Seq<MarkView>,
    duration: Measure,
    r: Seq<Seq<char>>,
)
    requires
        duration.key() > 0,
        words_of(trimmed(transcript)).len() > 0,
        marks.len() > 0,
        forall|i: int|
            0 <= i < marks.len() ==> !contains(trimmed(transcript), (#[trigger] marks[i]).text),
        forall|i: int, j: int| 0 <= i < j < marks.len() ==> marks[i].at.key() <= marks[j].at.key(),
        forall|i: int, j: int| 0 <= i < j < marks.len() ==> marks[i].slot <= marks[j].slot,
        forall|i: int|
            0 <= i < marks.len() ==> (#[trigger] marks[i]).slot <= words_of(
                trimmed(transcript),
            ).len(),
        r.len() == words_of(trimmed(transcript)).len() + marks.len(),
        forall|i: int|
            0 <= i < marks.len() ==> r[(#[trigger] marks[i]).slot + i] == marks[i].text,
        forall|j: int|
            0 <= j < words_of(trimmed(transcript)).len() ==> r[j + marks.filter(
                |m: MarkView| m.slot <= j,
            ).len()] == #[trigger] words_of(trimmed(transcript))[j],
    ensures
        annotated(transcript, marks, Some(duration)) == joined(r, " "@),
{
    let clean = trimmed(transcript);
    let w = words_of(clean);
    lemma_ordered_already(clean, marks, marks.len() as int);
    assert(marks.subrange(0, marks.len() as int) =~= marks);
    assert forall|j: int| 0 <= j < w.len() implies r[j + marks_up_to(marks, j)]
        == #[trigger] w[j] by {}
    lemma_placed_at_slots(w, marks, r);
    if clean.len() == 0 {
        lemma_words_shape(clean, 0);
    }
}

/// The one mark of a session stands behind exactly as many words as its slot says, and in front of
/// all others.
pub proof fn a_mark_splits_the_words(transcript: Seq<char>, mark: MarkView, duration: Measure)
    requires
        duration.key() > 0,
        words_of(trimmed(transcript)).len() > 0,
        !contains(trimmed(transcript), mark.text),
        mark.slot <= words_of(trimmed(transcript)).len(),
    ensures
        ({
            let words = words_of(trimmed(transcript));
            let before = words.subrange(0, mark.slot as int);
            let behind = words.subrange(mark.slot as int, words.len() as int);
            annotated(transcript, seq![mark], Some(duration)) == joined(
                before + seq![mark.text] + behind,
                " "@,
            )
        }),
{
    let words = words_of(trimmed(transcript));
    let k = mark.slot as int;
    let r = words.subrange(0, k) + seq![mark.text] + words.subrange(k, words.len() as int);
    let marks = seq![mark];
    assert forall|j: int| 0 <= j < words.len() implies r[j + marks.filter(
        |m: MarkView| m.slot <= j,
    ).len()] == #[trigger] words[j] by {
        lemma_marks_up_to(marks, j);
        lemma_marks_up_to(marks.drop_last(), j);
        assert(marks_up_to(marks, j) == if k <= j { 1nat } else { 0nat });
    }
    marks_stand_where_they_were_taken(transcript, marks, duration, r);
}

/// Marks are put in order by their times alone: those of one time stay in the order in which they
/// come, and none is lost but those that the text holds.
pub proof fn marks_of_one_time_keep_their_order(
    text: Seq<char>,
    marks: Seq<MarkView>,
    n: int,
    key: int,
)
    requires
        0 <= n <= marks.len(),
    ensures
        ordered_marks(text, marks, n).filter(|m: MarkView| m.at.key() == key) == marks.subrange(
            0,
            n,
        ).filter(|m: MarkView| m.at.key() == key && !contains(text, m.text)),
    decreases n,
{
    reveal(Seq::filter);
    let kept = |m: MarkView| m.at.key() == key && !contains(text, m.text);
    if n > 0 {
        marks_of_one_time_keep_their_order(text, marks, n - 1, key);
        marks_are_in_time_order(text, marks, n - 1);
        let all = marks.subrange(0, n);
        assert(all.drop_last() =~= marks.subrange(0, n - 1));
        assert(all.last() == marks[n - 1]);
        if !contains(text, marks[n - 1].text) {
            lemma_insert_filtered(ordered_marks(text, marks, n - 1), marks[n - 1], key);
        }
        assert(all.filter(kept) == if kept(all.last()) {
            all.drop_last().filter(kept).push(all.last())
        } else {
            all.drop_last().filter(kept)
        });
    } else {
        assert(marks.subrange(0, 0) =~= Seq::empty());
        assert(Seq::<MarkView>::empty().filter(kept) =~= Seq::empty());
    }
}

proof fn lemma_insert_filtered(s: Seq<MarkView>, m: MarkView, key: int)
    requires
        in_time_order(s),
    ensures
        insert_mark(s, m).filter(|x: MarkView| x.at.key() == key) == if m.at.key() == key {
            s.filter(|x: MarkView| x.at.key() == key).push(m)
        } else {
            s.filter(|x: MarkView| x.at.key() == key)
        },
    decreases s.len(),
{
    reveal(Seq::filter);
    let p = |x: MarkView| x.at.key() == key;
    let r = insert_mark(s, m);
    if s.len() == 0 || s.last().at.key() <= m.at.key() {
        assert(r.drop_last() =~= s);
    } else {
        let front = s.drop_last();
        lemma_insert_filtered(front, m, key);
        assert(r.drop_last() =~= insert_mark(front, m));
        assert(r.last() == s.last());
        if m.at.key() == key {
            assert(!p(s.last()));
        }
    }
}

/// Where the length of the recording is not known, the marks stand behind the transcript, which
/// stays as it is.
pub proof fn untimed_marks_stand_behind(transcript: Seq<char>, marks: Seq<MarkView>)
    requires
        trimmed(transcript).len() > 0,
        marks.len() > 0,
        forall|i: int|
            0 <= i < marks.len() ==> !contains(trimmed(transcript), (#[trigger] marks[i]).text),
        forall|i: int, j: int| 0 <= i < j < marks.len() ==> marks[i].at.key() <= marks[j].at.key(),
    ensures
        annotated(transcript, marks, None) == trimmed(transcript) + "\n\n"@ + joined(
            Seq::new(marks.len(), |i: int| marks[i].text),
            " "@,
        ),
{
    lemma_ordered_already(trimmed(transcript), marks, marks.len() as int);
    assert(marks.subrange(0, marks.len() as int) =~= marks);
    assert(mark_texts(marks) =~= Seq::new(marks.len(), |i: int| marks[i].text));
}

/// A transcript that holds all marks already is left as it is, but for the white space around it.
pub proof fn marks_are_not_repeated(
    transcript: Seq<char>,
    marks: Seq<MarkView>,
    duration: Option<Measure>,
)
    requires
        trimmed(transcript).len() > 0,
        forall|i: int|
            0 <= i < marks.len() ==> contains(trimmed(transcript), (#[trigger] marks[i]).text),
    ensures
        annotated(transcript, marks, duration) == trimmed(transcript),
{
    lemma_nothing_to_place(trimmed(transcript), marks, marks.len() as int);
}

proof fn lemma_nothing_to_place(text: Seq<char>, marks: Seq<MarkView>, n: int)
    requires
        0 <= n <= marks.len(),
        forall|i: int| 0 <= i < marks.len() ==> contains(text, (#[trigger] marks[i]).text),
    ensures
        ordered_marks(text, marks, n).len() == 0,
    decreases n,
{
    if n > 0 {
        assert(contains(text, marks[n - 1].text));
        lemma_nothing_to_place(text, marks, n - 1);
    }
}

/// A transcript that holds none of the marks holds all of them once they are put in, and to put them
/// in again changes nothing. The marks are those of screenshots and clipboard texts, each placed
/// anywhere, and the second time maybe elsewhere.
pub proof fn marks_are_put_in_once(
    transcript: Seq<char>,
    shots: Seq<ShotView>,
    clips: Seq<ClipView>,
    first: Seq<MarkView>,
    again: Seq<MarkView>,
    duration: Option<Measure>,
    later: Option<Measure>,
)
    requires
        mark_texts(first) == mark_texts(marks_of(shots, clips)),
        mark_texts(again) == mark_texts(marks_of(shots, clips)),
        forall|i: int|
            0 <= i < first.len() ==> !contains(trimmed(transcript), (#[trigger] first[i]).text),
    ensures
        annotated(transcript, first, duration).len() > 0,
        forall|i: int|
            0 <= i < first.len() ==> contains(
                annotated(transcript, first, duration),
                (#[trigger] first[i]).text,
            ),
        annotated(annotated(transcript, first, duration), again, later) == annotated(
            transcript,
            first,
            duration,
        ),
{
    assert forall|i: int| 0 <= i < first.len() implies bracketed((#[trigger] first[i]).text) by {
        assert(first[i].text == mark_texts(first)[i]);
        assert(mark_texts(first).len() == first.len());
        assert(mark_texts(marks_of(shots, clips)).len() == marks_of(shots, clips).len());
        lemma_marks_bracketed(shots, clips, i);
    }
    lemma_marks_put_in(transcript, first, duration);
    let r = annotated(transcript, first, duration);
    lemma_already_trimmed(r);
    assert forall|i: int| 0 <= i < again.len() implies contains(
        trimmed(r),
        (#[trigger] again[i]).text,
    ) by {
        assert(again[i].text == mark_texts(again)[i]);
        assert(mark_texts(first).len() == first.len() && mark_texts(again).len() == again.len());
        assert(first[i].text == mark_texts(first)[i]);
    }
    marks_are_not_repeated(r, again, later);
}

/// Whether a text stands in square brackets.
pub open spec fn bracketed(s: Seq<char>) -> bool {
    s.len() > 0 && s[0] == '[' && s.last() == ']'
}

proof fn lemma_marks_bracketed(shots: Seq<ShotView>, clips: Seq<ClipView>, i: int)
    requires
        0 <= i < marks_of(shots, clips).len(),
    ensures
        bracketed(mark_texts(marks_of(shots, clips))[i]),
{
    reveal_strlit("[");
    reveal_strlit("]");
    let m = marks_of(shots, clips)[i];
    if i < shots.len() {
        assert(m == shot_mark(shots[i]));
    } else {
        assert(m == clip_mark(clips[i - shots.len()]));
    }
}

proof fn lemma_marks_put_in(
    transcript: Seq<char>,
    marks: Seq<MarkView>,
    duration: Option<Measure>,
)
    requires
        forall|i: int| 0 <= i < marks.len() ==> bracketed((#[trigger] marks[i]).text),
        forall|i: int|
            0 <= i < marks.len() ==> !contains(trimmed(transcript), (#[trigger] marks[i]).text),
    ensures
        ({
            let r = annotated(transcript, marks, duration);
            &&& r.len() > 0
            &&& !is_space(r[0])
            &&& !is_space(r[r.len() - 1])
            &&& forall|i: int| 0 <= i < marks.len() ==> contains(r, (#[trigger] marks[i]).text)
        }),
{
    let clean = trimmed(transcript);
    let n = marks.len() as int;
    let todo = ordered_marks(clean, marks, n);
    let texts = mark_texts(todo);
    let r = annotated(transcript, marks, duration);
    let nothing = Seq::<char>::empty();
    reveal_strlit("_No transcript available._");
    reveal_strlit("\n\n");
    lemma_trimmed_shape(transcript);
    lemma_all_ordered(clean, marks, n);
    assert forall|k: int| 0 <= k < texts.len() implies bracketed(#[trigger] texts[k]) by {
        assert(texts[k] == todo[k].text);
    }
    if todo.len() == 0 {
        assert forall|i: int| 0 <= i < marks.len() implies contains(r, (#[trigger] marks[i]).text) by {
            assert(todo.contains(marks[i]));
        }
    } else if clean.len() == 0 {
        let head = "_No transcript available._"@;
        let parts = seq![head, nothing] + texts;
        lemma_joined_head(head, texts, "\n"@);
        assert forall|i: int| 0 <= i < marks.len() implies contains(r, (#[trigger] marks[i]).text) by {
            let k = choose|k: int| 0 <= k < todo.len() && todo[k] == marks[i];
            assert(parts[k + 2] == texts[k]);
            lemma_joined_contains(parts, "\n"@, k + 2);
        }
    } else if duration is None || duration->0.key() <= 0 {
        lemma_joined_ends(texts, " "@);
        let tail = joined(texts, " "@);
        assert forall|i: int| 0 <= i < marks.len() implies contains(r, (#[trigger] marks[i]).text) by {
            let k = choose|k: int| 0 <= k < todo.len() && todo[k] == marks[i];
            lemma_joined_contains(texts, " "@, k);
            lemma_contains_around(clean + "\n\n"@, tail, nothing, texts[k]);
            assert(clean + "\n\n"@ + tail + nothing =~= r);
        }
    } else {
        let words = words_of(clean);
        lemma_words_shape(clean, 0);
        let m = todo.len() as int;
        lemma_placed_holds(words, todo, m);
        let all = placed(words, todo, m);
        lemma_placed_len(words, todo, m);
        assert forall|k: int| 0 <= k < all.len() implies (#[trigger] all[k]).len() > 0
            && !is_space(all[k][0]) && !is_space(all[k].last()) by {
            if !words.contains(all[k]) {
                let j = choose|j: int| 0 <= j < m && todo[j].text == all[k];
                assert(texts[j] == all[k]);
            } else {
                let j = choose|j: int| 0 <= j < words.len() && words[j] == all[k];
                assert(words[j].len() > 0);
            }
        }
        lemma_joined_ends(all, " "@);
        assert(all[all.len() - 1].len() > 0);
        assert(r.last() == all.last().last());
        assert forall|i: int| 0 <= i < marks.len() implies contains(r, (#[trigger] marks[i]).text) by {
            let k = choose|k: int| 0 <= k < todo.len() && todo[k] == marks[i];
            assert(all.contains(todo[k].text));
            let j = choose|j: int| 0 <= j < all.len() && all[j] == todo[k].text;
            lemma_joined_contains(all, " "@, j);
        }
    }
}

/// A line, a blank line and texts in brackets begin with the line and end with a bracket.
proof fn lemma_joined_head(head: Seq<char>, texts: Seq<Seq<char>>, sep: Seq<char>)
    requires
        head.len() > 0,
        texts.len() > 0,
        forall|k: int| 0 <= k < texts.len() ==> bracketed(#[trigger] texts[k]),
    ensures
        ({
            let r = joined(seq![head, Seq::<char>::empty()] + texts, sep);
            r.len() > 0 && r[0] == head[0] && r.last() == ']'
        }),
    decreases texts.len(),
{
    let two = seq![head, Seq::<char>::empty()];
    let parts = two + texts;
    assert(parts.last() == texts.last());
    assert(bracketed(texts[texts.len() - 1]));
    assert(parts.drop_last() =~= two + texts.drop_last());
    if texts.len() > 1 {
        let front = texts.drop_last();
        assert forall|k: int| 0 <= k < front.len() implies bracketed(#[trigger] front[k]) by {
            assert(front[k] == texts[k]);
        }
        lemma_joined_head(head, front, sep);
    } else {
        assert(parts.drop_last() =~= two);
        assert(two.drop_last() =~= seq![head]);
        assert(joined(seq![head], sep) == head);
        assert(joined(two, sep) == head + sep + Seq::<char>::empty());
    }
}

/// Marks that a text holds none of are all ordered, and nothing else is.
proof fn lemma_all_ordered(text: Seq<char>, marks: Seq<MarkView>, n: int)
    requires
        0 <= n <= marks.len(),
        forall|i: int| 0 <= i < marks.len() ==> !contains(text, (#[trigger] marks[i]).text),
        forall|i: int| 0 <= i < marks.len() ==> bracketed((#[trigger] marks[i]).text),
    ensures
        forall|i: int| 0 <= i < n ==> ordered_marks(text, marks, n).contains(#[trigger] marks[i]),
        forall|k: int|
            0 <= k < ordered_marks(text, marks, n).len() ==> bracketed(
                (#[trigger] ordered_marks(text, marks, n)[k]).text,
            ),
    decreases n,
{
    if n > 0 {
        lemma_all_ordered(text, marks, n - 1);
        let before = ordered_marks(text, marks, n - 1);
        let m = marks[n - 1];
        lemma_insert_holds(before, m);
        marks_are_in_time_order(text, marks, n - 1);
        lemma_insert_mark(before, m);
        let r = insert_mark(before, m);
        assert forall|k: int| 0 <= k < r.len() implies bracketed((#[trigger] r[k]).text) by {
            if r[k] != m {
                let j = choose|j: int| 0 <= j < before.len() && before[j] == r[k];
                assert(bracketed(before[j].text));
            }
        }
    }
}

proof fn lemma_insert_holds(s: Seq<MarkView>, m: MarkView)
    ensures
        insert_mark(s, m).contains(m),
        forall|x: MarkView| s.contains(x) ==> #[trigger] insert_mark(s, m).contains(x),
    decreases s.len(),
{
    let r = insert_mark(s, m);
    if s.len() == 0 || s.last().at.key() <= m.at.key() {
        assert(r[s.len() as int] == m);
        assert forall|x: MarkView| s.contains(x) implies #[trigger] r.contains(x) by {
            let k = choose|k: int| 0 <= k < s.len() && s[k] == x;
            assert(r[k] == x);
        }
    } else {
        let inner = insert_mark(s.drop_last(), m);
        lemma_insert_holds(s.drop_last(), m);
        let at = choose|k: int| 0 <= k < inner.len() && inner[k] == m;
        assert(r[at] == m);
        assert forall|x: MarkView| s.contains(x) implies #[trigger] r.contains(x) by {
            let k = choose|k: int| 0 <= k < s.len() && s[k] == x;
            if k < s.len() - 1 {
                assert(s.drop_last()[k] == x);
                assert(inner.contains(x));
                let j = choose|j: int| 0 <= j < inner.len() && inner[j] == x;
                assert(r[j] == x);
            } else {
                assert(r[inner.len() as int] == x);
            }
        }
    }
}

/// Placed marks stand among the words, and nothing else does.
proof fn lemma_placed_holds(words: Seq<Seq<char>>, marks: Seq<MarkView>, n: int)
    requires
        0 <= n <= marks.len(),
    ensures
        forall|k: int| 0 <= k < n ==> placed(words, marks, n).contains((#[trigger] marks[k]).text),
        forall|k: int|
            0 <= k < placed(words, marks, n).len() ==> words.contains(
                #[trigger] placed(words, marks, n)[k],
            ) || exists|j: int| 0 <= j < n && marks[j].text == placed(words, marks, n)[k],
    decreases n,
{
    let r = placed(words, marks, n);
    if n > 0 {
        lemma_placed_holds(words, marks, n - 1);
        lemma_placed_len(words, marks, n - 1);
        let before = placed(words, marks, n - 1);
        let t = marks[n - 1].text;
        let at = min_of(min_of(marks[n - 1].slot, before.len()) + (n - 1) as nat, before.len()) as int;
        assert(r == before.insert(at, t));
        assert(r[at] == t);
        assert forall|k: int| 0 <= k < n implies r.contains((#[trigger] marks[k]).text) by {
            if k < n - 1 {
                assert(before.contains(marks[k].text));
                let j = choose|j: int| 0 <= j < before.len() && before[j] == marks[k].text;
                assert(r[if j < at { j } else { j + 1 }] == marks[k].text);
            }
        }
        assert forall|k: int| 0 <= k < r.len() implies words.contains(#[trigger] r[k]) || exists|
            j: int,
        | 0 <= j < n && marks[j].text == r[k] by {
            if k == at {
                assert(marks[n - 1].text == r[k]);
            } else {
                let b = if k < at { k } else { k - 1 };
                assert(before[b] == r[k]);
                if !words.contains(before[b]) {
                    let j = choose|j: int| 0 <= j < n - 1 && marks[j].text == before[b];
                    assert(marks[j].text == r[k]);
                }
            }
        }
    } else {
        assert forall|k: int| 0 <= k < r.len() implies words.contains(#[trigger] r[k]) by {}
    }
}

// ---------------------------------------------------------------------------------------------
// What events and marks tell
// ---------------------------------------------------------------------------------------------

/// A screenshot goes by the application it shows, where that is known, and its number; a clipboard
/// text by its number. The mark of each is its name in brackets, at its time.
pub proof fn marks_name_what_was_captured(s: ShotView, c: ClipView)
    ensures
        s.app_name is None ==> shot_mark(s).text == "["@ + ("Screenshot "@ + decimal(
            s.shot_id as nat,
        )) + "]"@,
        s.app_name matches Some(app) ==> shot_mark(s).text == "["@ + (app + " Screenshot "@
            + decimal(s.shot_id as nat)) + "]"@,
        clip_mark(c).text == "["@ + ("Clipboard "@ + decimal(c.clip_id as nat)) + "]"@,
        shot_mark(s).at == measure_of(s.audio_sec),
        clip_mark(c).at == measure_of(c.audio_sec),
{
}

/// Every screenshot and every clipboard text has its mark, the screenshots first.
pub proof fn everything_captured_is_marked(shots: Seq<ShotView>, clips: Seq<ClipView>, i: int)
    ensures
        marks_of(shots, clips).len() == shots.len() + clips.len(),
        0 <= i < shots.len() ==> marks_of(shots, clips)[i] == shot_mark(shots[i]),
        0 <= i < clips.len() ==> marks_of(shots, clips)[shots.len() + i] == clip_mark(clips[i]),
{
}

/// Only the events of screenshots that were taken or moved tell of one, and only with a number and a
/// file; what the event says of it is kept.
pub proof fn events_tell_of_screenshots(event: Tree)
    ensures
        shot_of(event) matches Some(s) ==> {
            &&& text_field(event, "type"@) == Some("screenshot_taken"@) || text_field(event, "type"@)
                == Some("screenshot_moved"@)
            &&& field(event, "id"@) == Some(Tree::Number(NumberView::Unsigned(s.shot_id)))
            &&& text_field(event, "dest"@) == Some(s.dest_rel_path)
            &&& field(event, "audioSec"@) matches Some(Tree::Number(n)) ==> s.audio_sec
                == quantity_of(n)
            &&& field(event, "audioSec"@) is None ==> s.audio_sec == quantity_of(
                NumberView::Unsigned(0),
            )
        },
        (text_field(event, "type"@) == Some("screenshot_taken"@) || text_field(event, "type"@)
            == Some("screenshot_moved"@)) && (field(event, "id"@) matches Some(
            Tree::Number(NumberView::Unsigned(_)),
        )) && text_field(event, "dest"@) is Some ==> shot_of(event) is Some,
        clip_of(event) matches Some(c) ==> text_field(event, "type"@) == Some("clipboard_copied"@)
            && field(event, "id"@) == Some(Tree::Number(NumberView::Unsigned(c.clip_id)))
            && text_field(event, "text"@) == Some(c.text),
{
}

/// A screenshot that an event tells of is among those of the session under its number, in place of an
/// earlier one with the same; an event that tells of none changes nothing.
pub proof fn later_events_take_the_place_of_earlier(events: Seq<Tree>, e: Tree)
    ensures
        ({
            let before = shots_by_id(events, events.len() as int);
            let after = shots_by_id(events.push(e), events.len() + 1int);
            let clips = clips_by_id(events, events.len() as int);
            let more = clips_by_id(events.push(e), events.len() + 1int);
            &&& shot_of(e) matches Some(s) ==> after == put_by_id(before, s.shot_id, s)
                && after.contains((s.shot_id, s))
            &&& shot_of(e) is None ==> after == before
            &&& clip_of(e) matches Some(c) ==> more == put_by_id(clips, c.clip_id, c)
                && more.contains((c.clip_id, c))
            &&& clip_of(e) is None ==> more == clips
        }),
{
    lemma_by_id_prefix(events, e, events.len() as int);
    assert(events.push(e)[events.len() as int] == e);
    if let Some(s) = shot_of(e) {
        lemma_put_holds(shots_by_id(events, events.len() as int), s.shot_id, s);
    }
    if let Some(c) = clip_of(e) {
        lemma_put_holds(clips_by_id(events, events.len() as int), c.clip_id, c);
    }
}

proof fn lemma_by_id_prefix(events: Seq<Tree>, e: Tree, n: int)
    requires
        0 <= n <= events.len(),
    ensures
        shots_by_id(events.push(e), n) == shots_by_id(events, n),
        clips_by_id(events.push(e), n) == clips_by_id(events, n),
    decreases n,
{
    if n > 0 {
        lemma_by_id_prefix(events, e, n - 1);
        assert(events.push(e)[n - 1] == events[n - 1]);
    }
}

proof fn lemma_put_holds<T>(s: Seq<(u64, T)>, id: u64, x: T)
    ensures
        put_by_id(s, id, x).contains((id, x)),
    decreases s.len(),
{
    let r = put_by_id(s, id, x);
    if s.len() == 0 || s[0].0 == id || id < s[0].0 {
        assert(r[0] == (id, x));
    } else {
        let rest = s.subrange(1, s.len() as int);
        lemma_put_holds(rest, id, x);
        let k = choose|k: int|
            0 <= k < put_by_id(rest, id, x).len() && put_by_id(rest, id, x)[k] == (id, x);
        assert(r[k + 1] == (id, x));
    }
}

/// The screenshots and the clipboard texts of a session are those that its events tell of, without
/// their keys and in their order.
pub proof fn listed_items_are_those_told_of(events: Seq<Tree>, i: int)
    ensures
        ({
            let shots = shots_by_id(events, events.len() as int);
            let clips = clips_by_id(events, events.len() as int);
            &&& shots_of(events).len() == shots.len()
            &&& 0 <= i < shots.len() ==> shots_of(events)[i] == shots[i].1
            &&& clips_of(events).len() == clips.len()
            &&& 0 <= i < clips.len() ==> clips_of(events)[i] == clips[i].1
        }),
{
}

/// An integer counts as one of thirty-two bits where it is one.
pub proof fn short_integers_are_kept(n: i64)
    ensures
        -2147483648 <= n <= 2147483647 ==> int32_of(Some(n)) == Some(n as i32) && (n as i32) == n,
        n > 2147483647 || n < -2147483648 ==> int32_of(Some(n)) is None,
        int32_of(None) is None,
{
}

/// The largest id is that of one of them, and none where there are none.
pub proof fn the_largest_id_is_one_of_them(ids: Seq<u64>, n: int)
    requires
        0 <= n <= ids.len(),
    ensures
        max_id(ids, 0) == 0,
        max_id(ids, n) > 0 ==> exists|k: int| 0 <= k < n && #[trigger] ids[k] == max_id(ids, n),
    decreases n,
{
    if n > 0 {
        the_largest_id_is_one_of_them(ids, n - 1);
        if ids[n - 1] > max_id(ids, n - 1) {
            assert(ids[n - 1] == max_id(ids, n));
        } else if max_id(ids, n) > 0 {
            let k = choose|k: int| 0 <= k < n - 1 && #[trigger] ids[k] == max_id(ids, n - 1);
            assert(ids[k] == max_id(ids, n));
        }
    }
}

/// What an event says of the application and of the process behind a screenshot is read off by name.
pub proof fn fronts_are_read_by_name(event: Tree, app: Tree, process: Tree, n: NumberView, k: u64)
    requires
        shot_of(event) is Some,
        field(event, "app"@) == Some(app),
        field(event, "process"@) == Some(process),
    ensures
        ({
            let s = shot_of(event)->0;
            &&& s.app_name == text_field(app, "name"@)
            &&& s.app_bundle_id == text_field(app, "bundle_id"@)
            &&& s.window_title == text_field(app, "window_title"@)
            &&& field(app, "pid"@) == Some(Tree::Number(NumberView::Unsigned(7))) ==> s.app_pid
                == Some(7i32)
            &&& s.app_capture_error == text_field(event, "app_capture_error"@)
            &&& s.proc_elapsed == text_field(process, "elapsed"@)
            &&& s.proc_state == text_field(process, "state"@)
            &&& s.proc_command == text_field(process, "command"@)
            &&& s.proc_capture_error == text_field(event, "process_capture_error"@)
            &&& field(process, "cpu_percent"@) == Some(Tree::Number(n)) ==> s.proc_cpu_percent
                == Some(n)
            &&& field(process, "mem_percent"@) == Some(Tree::Number(n)) ==> s.proc_mem_percent
                == Some(n)
            &&& field(process, "rss_kb"@) == Some(Tree::Number(NumberView::Unsigned(k)))
                ==> s.proc_rss_kb == Some(k)
        }),
{
}

} // verus!
