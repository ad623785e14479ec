//! The write side of the event bus: one flat record per event, an envelope around a payload.

use vstd::prelude::*;

use crate::error::AppError;
use crate::json::{
    count_tree, field_views, int_json, int_tree, item_views, lemma_tree, lookup, object_of,
    opt_view, put_is_found, str_view, text_field, with_field, Fields, Json, Number, Pairs, Tree,
};
use crate::number::{decimal, decimal_reads_back, decimal_text, parse_u64, parsed_unsigned};
use crate::pattern::{
    contains, find, lemma_find_from, lemma_one_piece, occurs_at, split, split_of,
    texts_are_cut_at_the_first, views,
};
use crate::text::{
    chars_of, concat3, is_digit, lemma_already_trimmed, lemma_blank_is_trimmed, same, string_of,
    trim, trimmed,
};

verus! {

/// The version of the envelope.
pub const SCHEMA_VERSION: u64 = 1;

/// The keys of the envelope. A payload has no use for them.
pub const RESERVED_KEYS: [&'static str; 9] = [
    "v",
    "ts",
    "seq",
    "inv",
    "pid",
    "command",
    "type",
    "session_id",
    "level",
];

/// Longer texts are clipped, so that a record is one write and the bus does not fill up with
/// clipboards and transcripts.
pub const MAX_STRING_LEN: usize = 200;

/// The size at which the bus file is rotated, where nothing else is set.
pub const DEFAULT_MAX_BYTES: u64 = 8_388_608;

pub const LEVEL_INFO: &'static str = "info";

pub const LEVEL_WARN: &'static str = "warn";

pub const LEVEL_ERROR: &'static str = "error";

/// Whether `key` is a key of the envelope.
pub open spec fn is_reserved(key: Seq<char>) -> bool {
    ||| key == "v"@
    ||| key == "ts"@
    ||| key == "seq"@
    ||| key == "inv"@
    ||| key == "pid"@
    ||| key == "command"@
    ||| key == "type"@
    ||| key == "session_id"@
    ||| key == "level"@
}

/// Whether `key` is a key of the envelope.
pub fn reserved(key: &str) -> (r: bool)
    ensures
        r == is_reserved(key@),
{
    let mut i: usize = 0;
    while i < 9
        invariant
            i <= 9,
            forall|j: int| 0 <= j < i ==> (#[trigger] RESERVED_KEYS@[j])@ != key@,
        decreases 9 - i,
    {
        if same(key, RESERVED_KEYS[i]) {
            proof {
                lemma_reserved_keys();
            }
            return true;
        }
        i = i + 1;
    }
    proof {
        lemma_reserved_keys();
    }
    false
}

/// The array of reserved keys, member by member.
proof fn lemma_reserved_keys()
    ensures
        RESERVED_KEYS@.len() == 9,
        RESERVED_KEYS@[0]@ == "v"@,
        RESERVED_KEYS@[1]@ == "ts"@,
        RESERVED_KEYS@[2]@ == "seq"@,
        RESERVED_KEYS@[3]@ == "inv"@,
        RESERVED_KEYS@[4]@ == "pid"@,
        RESERVED_KEYS@[5]@ == "command"@,
        RESERVED_KEYS@[6]@ == "type"@,
        RESERVED_KEYS@[7]@ == "session_id"@,
        RESERVED_KEYS@[8]@ == "level"@,
{
}

/// The size at which the bus file is rotated: what is set, where that is a positive number.
pub open spec fn max_bytes_of(raw: Option<Seq<char>>) -> nat {
    match raw {
        Some(s) => match parsed_unsigned(trimmed(s), u64::MAX as nat) {
            Some(n) => if n > 0 {
                n
            } else {
                DEFAULT_MAX_BYTES as nat
            },
            None => DEFAULT_MAX_BYTES as nat,
        },
        None => DEFAULT_MAX_BYTES as nat,
    }
}

/// The size at which the bus file is rotated, from the value of `RIFF_EVENT_BUS_MAX_BYTES`.
pub fn max_bytes(raw: Option<&str>) -> (r: u64)
    ensures
        r == max_bytes_of(
            match raw {
                Some(s) => Some(s@),
                None => None,
            },
        ),
{
    match raw {
        Some(s) => match parse_u64(trim(s).as_str()) {
            Some(n) => if n > 0 {
                n
            } else {
                DEFAULT_MAX_BYTES
            },
            None => DEFAULT_MAX_BYTES,
        },
        None => DEFAULT_MAX_BYTES,
    }
}

/// Whether a bus file of this size is moved aside before the next record is written.
pub fn rotation_due(len: u64, max: u64) -> (r: bool)
    ensures
        r == (len > max),
{
    len > max
}

// ---------------------------------------------------------------------------------------------
// Clipping
// ---------------------------------------------------------------------------------------------

/// `s`, cut to its first characters and an ellipsis where it is too long.
pub open spec fn clip_text(s: Seq<char>) -> Seq<char> {
    if s.len() > MAX_STRING_LEN {
        s.subrange(0, MAX_STRING_LEN as int).push('…')
    } else {
        s
    }
}

/// `t` with every text in it clipped. Keys are left alone.
pub open spec fn clip_tree(t: Tree) -> Tree
    decreases t,
{
    match t {
        Tree::Text(s) => Tree::Text(clip_text(s)),
        Tree::List(v) => Tree::List(
            Seq::new(
                v.len(),
                |i: int|
                    if 0 <= i < v.len() {
                        clip_tree(v[i])
                    } else {
                        Tree::Null
                    },
            ),
        ),
        Tree::Object(f) => Tree::Object(
            Seq::new(
                f.len(),
                |i: int|
                    if 0 <= i < f.len() {
                        (f[i].0, clip_tree(f[i].1))
                    } else {
                        (Seq::<char>::empty(), Tree::Null)
                    },
            ),
        ),
        _ => t,
    }
}

/// Whether some text in `t` is too long.
pub open spec fn has_long_text(t: Tree) -> bool
    decreases t,
{
    match t {
        Tree::Text(s) => s.len() > MAX_STRING_LEN,
        Tree::List(v) => exists|i: int| 0 <= i < v.len() && has_long_text(#[trigger] v[i]),
        Tree::Object(f) => exists|i: int| 0 <= i < f.len() && has_long_text((#[trigger] f[i]).1),
        _ => false,
    }
}

/// Whether no text in `t` is longer than a clipped one.
pub open spec fn within_limit(t: Tree) -> bool
    decreases t,
{
    match t {
        Tree::Text(s) => s.len() <= MAX_STRING_LEN + 1,
        Tree::List(v) => forall|i: int| 0 <= i < v.len() ==> within_limit(#[trigger] v[i]),
        Tree::Object(f) => forall|i: int| 0 <= i < f.len() ==> within_limit((#[trigger] f[i]).1),
        _ => true,
    }
}

/// The members of a list, each clipped.
pub open spec fn clip_items(v: Seq<Tree>) -> Seq<Tree> {
    v.map_values(|t: Tree| clip_tree(t))
}

/// The fields of an object, each value clipped.
pub open spec fn clip_fields(f: Seq<(Seq<char>, Tree)>) -> Seq<(Seq<char>, Tree)> {
    f.map_values(|p: (Seq<char>, Tree)| (p.0, clip_tree(p.1)))
}

proof fn lemma_clip(t: Tree)
    ensures
        t matches Tree::List(v) ==> clip_tree(t) == Tree::List(clip_items(v)),
        t matches Tree::Object(f) ==> clip_tree(t) == Tree::Object(clip_fields(f)),
{
    match t {
        Tree::List(v) => {
            assert(clip_tree(t)->List_0 =~= clip_items(v));
        },
        Tree::Object(f) => {
            assert(clip_tree(t)->Object_0 =~= clip_fields(f));
        },
        _ => {},
    }
}

/// `s`, cut to its first characters and an ellipsis where it is too long.
fn clip_string(s: &String) -> (r: (String, bool))
    ensures
        r.0@ == clip_text(s@),
        r.1 == (s@.len() > MAX_STRING_LEN),
{
    let v = chars_of(s.as_str());
    if v.len() > MAX_STRING_LEN {
        let mut head = string_of(&v, 0, MAX_STRING_LEN);
        head.push('…');
        (head, true)
    } else {
        (s.clone(), false)
    }
}

/// `j` with every text in it clipped, and whether one was too long.
fn clip(j: &Json) -> (r: (Json, bool))
    ensures
        r.0@ == clip_tree(j@),
        r.1 == has_long_text(j@),
    decreases j,
{
    match j {
        Json::Text(s) => {
            let (t, cut) = clip_string(s);
            (Json::Text(t), cut)
        },
        Json::List(v) => {
            proof {
                lemma_tree(*j);
                lemma_clip(j@);
            }
            let ghost all = item_views(v@);
            let mut out: Vec<Json> = Vec::new();
            let mut cut: bool = false;
            let mut i: usize = 0;
            while i < v.len()
                invariant
                    i <= v.len(),
                    *j == Json::List(*v),
                    all == item_views(v@),
                    item_views(out@) == clip_items(all.subrange(0, i as int)),
                    cut == (exists|k: int| 0 <= k < i && has_long_text(#[trigger] all[k])),
                decreases v.len() - i,
            {
                let ghost before = out@;
                assert(decreases_to!(*j => j->List_0));
                assert(decreases_to!(*v => v@));
                assert(decreases_to!(v@ => v@[i as int]));
                let (item, c) = clip(&v[i]);
                out.push(item);
                proof {
                    assert(all[i as int] == v@[i as int]@);
                    assert(item_views(out@) == item_views(before).push(clip_tree(all[i as int])));
                    assert(clip_items(all.subrange(0, i + 1)) == clip_items(
                        all.subrange(0, i as int),
                    ).push(clip_tree(all[i as int])));
                }
                cut = cut || c;
                i = i + 1;
            }
            let r = Json::List(out);
            proof {
                assert(all.subrange(0, all.len() as int) == all);
                lemma_tree(r);
            }
            (r, cut)
        },
        Json::Object(v) => {
            proof {
                lemma_tree(*j);
                lemma_clip(j@);
            }
            let ghost all = field_views(v@);
            let mut out: Vec<(String, Json)> = Vec::new();
            let mut cut: bool = false;
            let mut i: usize = 0;
            while i < v.len()
                invariant
                    i <= v.len(),
                    *j == Json::Object(*v),
                    all == field_views(v@),
                    field_views(out@) == clip_fields(all.subrange(0, i as int)),
                    cut == (exists|k: int| 0 <= k < i && has_long_text((#[trigger] all[k]).1)),
                decreases v.len() - i,
            {
                let ghost before = out@;
                assert(decreases_to!(*j => j->Object_0));
                assert(decreases_to!(*v => v@));
                assert(decreases_to!(v@ => v@[i as int]));
                assert(decreases_to!(v@[i as int] => v@[i as int].1));
                let (item, c) = clip(&v[i].1);
                out.push((v[i].0.clone(), item));
                proof {
                    assert(all[i as int] == (v@[i as int].0@, v@[i as int].1@));
                    let f = (all[i as int].0, clip_tree(all[i as int].1));
                    assert(field_views(out@) == field_views(before).push(f));
                    assert(clip_fields(all.subrange(0, i + 1)) == clip_fields(
                        all.subrange(0, i as int),
                    ).push(f));
                }
                cut = cut || c;
                i = i + 1;
            }
            let r = Json::Object(out);
            proof {
                assert(all.subrange(0, all.len() as int) == all);
                lemma_tree(r);
            }
            (r, cut)
        },
        _ => (j.copy(), false),
    }
}

/// Clips every text in `value`, and sets `clipped` where one was too long.
pub fn truncate_value(value: &mut Json, clipped: &mut bool)
    ensures
        final(value)@ == clip_tree(old(value)@),
        *final(clipped) == (*old(clipped) || has_long_text(old(value)@)),
{
    let (short, cut) = clip(value);
    *value = short;
    *clipped = *clipped || cut;
}

/// After clipping, no text is longer than the limit and an ellipsis.
pub proof fn clipping_bounds_texts(t: Tree)
    ensures
        within_limit(clip_tree(t)),
    decreases t,
{
    lemma_clip(t);
    match t {
        Tree::List(v) => {
            assert forall|i: int| 0 <= i < v.len() implies within_limit(
                #[trigger] clip_items(v)[i],
            ) by {
                clipping_bounds_texts(v[i]);
            }
        },
        Tree::Object(f) => {
            assert forall|i: int| 0 <= i < f.len() implies within_limit(
                (#[trigger] clip_fields(f)[i]).1,
            ) by {
                clipping_bounds_texts(f[i].1);
            }
        },
        _ => {},
    }
}

/// A value without a long text is left as it is, and is not flagged.
pub proof fn clipping_keeps_short_texts(t: Tree)
    requires
        !has_long_text(t),
    ensures
        clip_tree(t) == t,
    decreases t,
{
    lemma_clip(t);
    match t {
        Tree::List(v) => {
            assert forall|i: int| 0 <= i < v.len() implies clip_items(v)[i] == v[i] by {
                assert(!has_long_text(v[i]));
                clipping_keeps_short_texts(v[i]);
            }
            assert(clip_items(v) =~= v);
        },
        Tree::Object(f) => {
            assert forall|i: int| 0 <= i < f.len() implies clip_fields(f)[i] == f[i] by {
                assert(!has_long_text(f[i].1));
                clipping_keeps_short_texts(f[i].1);
            }
            assert(clip_fields(f) =~= f);
        },
        _ => {},
    }
}

/// What was clipped is short enough: to clip it again changes nothing.
pub proof fn clipping_is_done_once(t: Tree)
    ensures
        clip_tree(clip_tree(t)) == clip_tree(t),
    decreases t,
{
    lemma_clip(t);
    lemma_clip(clip_tree(t));
    match t {
        Tree::Text(s) => {
            assert(clip_text(clip_text(s)) =~= clip_text(s));
        },
        Tree::List(v) => {
            let w = clip_items(v);
            assert forall|i: int| 0 <= i < w.len() implies clip_items(w)[i] == w[i] by {
                clipping_is_done_once(v[i]);
            }
            assert(clip_items(w) =~= w);
        },
        Tree::Object(f) => {
            let g = clip_fields(f);
            assert forall|i: int| 0 <= i < g.len() implies clip_fields(g)[i] == g[i] by {
                clipping_is_done_once(f[i].1);
            }
            assert(clip_fields(g) =~= g);
        },
        _ => {},
    }
}

// ---------------------------------------------------------------------------------------------
// Records
// ---------------------------------------------------------------------------------------------

/// What one run of the program stamps on its records.
pub struct BusContext {
    pub inv: String,
    pub command: String,
    pub pid: u32,
    pub seq: u64,
    pub enabled: bool,
}

/// The fields of a payload: those of an object, none of a null, and any other value under
/// `value`.
pub open spec fn payload_fields(t: Tree) -> Seq<(Seq<char>, Tree)> {
    match t {
        Tree::Object(f) => f,
        Tree::Null => Seq::empty(),
        _ => seq![("value"@, t)],
    }
}

/// The payload of a record: its texts clipped, and flagged where one was too long.
pub open spec fn clipped_payload(t: Tree) -> Seq<(Seq<char>, Tree)> {
    let f = payload_fields(t);
    if has_long_text(Tree::Object(f)) {
        with_field(clip_fields(f), "truncated"@, Tree::Bool(true))
    } else {
        clip_fields(f)
    }
}

/// `fields` with `value` under `key`, unless there is one already.
pub open spec fn with_default(fields: Seq<(Seq<char>, Tree)>, key: Seq<char>, value: Tree) -> Seq<
    (Seq<char>, Tree),
> {
    if lookup(fields, key) is Some {
        fields
    } else {
        with_field(fields, key, value)
    }
}

/// What the envelope of a record holds besides the payload.
pub struct Envelope {
    pub ts: Seq<char>,
    pub event_type: Seq<char>,
    pub seq: u64,
    pub inv: Seq<char>,
    pub pid: u32,
    pub command: Seq<char>,
    pub level: Seq<char>,
    pub session_id: Option<Seq<char>>,
}

/// A record: the payload with the envelope put over it. A timestamp of the payload stays.
pub open spec fn record_fields(e: Envelope, payload: Tree) -> Seq<(Seq<char>, Tree)> {
    let f = clipped_payload(payload);
    let f = with_field(f, "v"@, count_tree(SCHEMA_VERSION as nat));
    let f = with_default(f, "ts"@, Tree::Text(e.ts));
    let f = with_field(f, "type"@, Tree::Text(e.event_type));
    let f = with_field(f, "seq"@, count_tree(e.seq as nat));
    let f = with_field(f, "inv"@, Tree::Text(e.inv));
    let f = with_field(f, "pid"@, count_tree(e.pid as nat));
    let f = with_field(f, "command"@, Tree::Text(e.command));
    let f = with_field(f, "level"@, Tree::Text(e.level));
    match e.session_id {
        Some(id) => with_field(f, "session_id"@, Tree::Text(id)),
        None => f,
    }
}

impl BusContext {
    /// The envelope of the next record.
    pub open spec fn envelope(
        self,
        ts: Seq<char>,
        level: Seq<char>,
        event_type: Seq<char>,
        session_id: Option<Seq<char>>,
    ) -> Envelope {
        Envelope {
            ts,
            event_type,
            seq: self.seq,
            inv: self.inv@,
            pid: self.pid,
            command: self.command@,
            level,
            session_id,
        }
    }

    /// The record of an event, to be appended to the bus, or none where the bus is off. Each
    /// record takes the next sequence number.
    pub fn emit_leveled(
        &mut self,
        now: &str,
        level: &str,
        event_type: &str,
        session_id: Option<&str>,
        payload: &Json,
    ) -> (r: Option<Json>)
        ensures
            r is Some <==> old(self).enabled,
            r matches Some(j) ==> j@ == Tree::Object(
                record_fields(
                    old(self).envelope(now@, level@, event_type@, str_view(session_id)),
                    payload@,
                ),
            ),
            final(self).seq == if old(self).enabled {
                old(self).seq.wrapping_add(1)
            } else {
                old(self).seq
            },
            final(self).inv == old(self).inv,
            final(self).command == old(self).command,
            final(self).pid == old(self).pid,
            final(self).enabled == old(self).enabled,
    {
        if !self.enabled {
            return None;
        }
        let body: Json = match payload {
            Json::Object(_) => payload.copy(),
            Json::Null => Fields::new().object(),
            _ => {
                let mut f = Fields::new();
                f.put("value", payload.copy());
                f.object()
            },
        };
        assert(body@ == Tree::Object(payload_fields(payload@))) by {
            lemma_tree(*payload);
        }
        let (short, cut) = clip(&body);
        proof {
            lemma_clip(body@);
            lemma_tree(short);
        }
        let fields: Vec<(String, Json)> = match short {
            Json::Object(v) => v,
            _ => Vec::new(),
        };
        let mut map = Fields { fields };
        assert(map@ == clip_fields(payload_fields(payload@)));
        if cut {
            map.put("truncated", Json::Bool(true));
        }
        assert(map@ == clipped_payload(payload@));
        map.put("v", Json::unsigned(SCHEMA_VERSION));
        let dated: bool = map.has("ts");
        if !dated {
            map.put("ts", Json::text(now));
        }
        map.put("type", Json::text(event_type));
        map.put("seq", Json::unsigned(self.seq));
        map.put("inv", Json::text(self.inv.as_str()));
        map.put("pid", Json::unsigned(self.pid as u64));
        map.put("command", Json::text(self.command.as_str()));
        map.put("level", Json::text(level));
        if let Some(id) = session_id {
            map.put("session_id", Json::text(id));
        }
        self.seq = self.seq.wrapping_add(1);
        Some(map.object())
    }

    /// The record of an event that another program has sent, under the command it goes by here.
    pub fn emit_as(
        &mut self,
        command: &str,
        now: &str,
        level: &str,
        event_type: &str,
        session_id: Option<&str>,
        payload: &Json,
    ) -> (r: Option<Json>)
        ensures
            r is Some <==> old(self).enabled,
            r matches Some(j) ==> j@ == Tree::Object(
                record_fields(
                    Envelope {
                        command: command@,
                        ..old(self).envelope(now@, level@, event_type@, str_view(session_id))
                    },
                    payload@,
                ),
            ),
            final(self).seq == if old(self).enabled {
                old(self).seq.wrapping_add(1)
            } else {
                old(self).seq
            },
            final(self).inv == old(self).inv,
            final(self).command == old(self).command,
            final(self).pid == old(self).pid,
            final(self).enabled == old(self).enabled,
    {
        let mut sender = BusContext {
            inv: self.inv.clone(),
            command: command.to_owned(),
            pid: self.pid,
            seq: self.seq,
            enabled: self.enabled,
        };
        let r = sender.emit_leveled(now, level, event_type, session_id, payload);
        self.seq = sender.seq;
        r
    }

    /// The record of an event at level `info`.
    pub fn emit(
        &mut self,
        now: &str,
        event_type: &str,
        session_id: Option<&str>,
        payload: &Json,
    ) -> (r: Option<Json>)
        ensures
            r is Some <==> old(self).enabled,
            r matches Some(j) ==> j@ == Tree::Object(
                record_fields(
                    old(self).envelope(now@, LEVEL_INFO@, event_type@, str_view(session_id)),
                    payload@,
                ),
            ),
            final(self).seq == if old(self).enabled {
                old(self).seq.wrapping_add(1)
            } else {
                old(self).seq
            },
            final(self).inv == old(self).inv,
            final(self).command == old(self).command,
            final(self).pid == old(self).pid,
            final(self).enabled == old(self).enabled,
    {
        self.emit_leveled(now, LEVEL_INFO, event_type, session_id, payload)
    }
}

/// The identifier of a run: the milliseconds at which it started and its process id.
pub open spec fn invocation(epoch_ms: nat, pid: nat) -> Seq<char> {
    decimal(epoch_ms) + "-"@ + decimal(pid)
}

/// The identifier of a run: the milliseconds at which it started and its process id.
pub fn invocation_id(epoch_ms: u64, pid: u32) -> (r: String)
    ensures
        r@ == invocation(epoch_ms as nat, pid as nat),
{
    let a = decimal_text(epoch_ms);
    let b = decimal_text(pid as u64);
    concat3(a.as_str(), "-", b.as_str())
}

/// The type under which a session's event is mirrored on the bus.
pub open spec fn mirror_type_of(payload: Tree) -> Seq<char> {
    match text_field(payload, "type"@) {
        Some(t) => t,
        None => "session_event"@,
    }
}

/// The level at which a session's event is mirrored on the bus.
pub open spec fn mirror_level_of(payload: Tree) -> Seq<char> {
    match text_field(payload, "status"@) {
        Some(s) => if s == "error"@ {
            LEVEL_ERROR@
        } else if s == "skipped"@ {
            LEVEL_WARN@
        } else {
            LEVEL_INFO@
        },
        None => LEVEL_INFO@,
    }
}

/// The parts of a path that name something.
pub open spec fn path_parts(path: Seq<char>) -> Seq<Seq<char>> {
    split_of(path, "/"@).filter(|p: Seq<char>| p.len() > 0 && p != "."@)
}

/// The session that a log belongs to: it goes by the directory that the log stands in.
pub open spec fn log_session(path: Seq<char>) -> Option<Seq<char>> {
    let parts = path_parts(path);
    if parts.len() >= 2 && parts[parts.len() - 2] != ".."@ {
        Some(parts[parts.len() - 2])
    } else {
        None
    }
}

/// The session that a log belongs to: it goes by the directory that the log stands in.
pub fn session_of_log(path: &str) -> (r: Option<String>)
    ensures
        opt_view(r) == log_session(path@),
{
    proof {
        reveal_strlit("/");
    }
    let all = split(path, "/");
    let ghost av = views(all@);
    let ghost names = |p: Seq<char>| p.len() > 0 && p != "."@;
    let mut parts: Vec<String> = Vec::new();
    let mut i: usize = 0;
    proof {
        reveal(Seq::filter);
    }
    assert(views(parts@) =~= av.subrange(0, 0).filter(names));
    while i < all.len()
        invariant
            i <= all.len(),
            av == views(all@),
            names == (|p: Seq<char>| p.len() > 0 && p != "."@),
            views(parts@) == av.subrange(0, i as int).filter(names),
        decreases all.len() - i,
    {
        let ghost before = parts@;
        proof {
            assert(av.subrange(0, i + 1).drop_last() == av.subrange(0, i as int));
            assert(av.subrange(0, i + 1).last() == all@[i as int]@);
            reveal(Seq::filter);
        }
        if !all[i].as_str().is_empty() && !same(all[i].as_str(), ".") {
            parts.push(all[i].clone());
            assert(views(parts@) =~= views(before).push(all@[i as int]@));
        }
        assert(views(parts@) =~= av.subrange(0, i + 1).filter(names));
        i = i + 1;
    }
    assert(av.subrange(0, av.len() as int) =~= av);
    let n: usize = parts.len();
    assert(views(parts@).len() == n);
    if n >= 2 {
        assert(views(parts@)[n - 2] == parts@[n - 2]@);
        if !same(parts[n - 2].as_str(), "..") {
            return Some(parts[n - 2].clone());
        }
    }
    None
}

impl BusContext {
    /// The record that mirrors a session's event on the bus.
    pub fn mirror_session_event(
        &mut self,
        now: &str,
        session_id: Option<&str>,
        payload: &Json,
    ) -> (r: Option<Json>)
        ensures
            r is Some <==> old(self).enabled,
            r matches Some(j) ==> j@ == Tree::Object(
                record_fields(
                    old(self).envelope(
                        now@,
                        mirror_level_of(payload@),
                        mirror_type_of(payload@),
                        str_view(session_id),
                    ),
                    payload@,
                ),
            ),
            final(self).seq == if old(self).enabled {
                old(self).seq.wrapping_add(1)
            } else {
                old(self).seq
            },
            final(self).inv == old(self).inv,
            final(self).command == old(self).command,
            final(self).pid == old(self).pid,
            final(self).enabled == old(self).enabled,
    {
        let event_type = match payload.get_text("type") {
            Some(t) => t.clone(),
            None => "session_event".to_owned(),
        };
        let level: &str = match payload.get_text("status") {
            Some(s) => if same(s.as_str(), "error") {
                LEVEL_ERROR
            } else if same(s.as_str(), "skipped") {
                LEVEL_WARN
            } else {
                LEVEL_INFO
            },
            None => LEVEL_INFO,
        };
        self.emit_leveled(now, level, event_type.as_str(), session_id, payload)
    }
}

// ---------------------------------------------------------------------------------------------
// Laws of records
// ---------------------------------------------------------------------------------------------

/// The value that a record has under `key`.
pub open spec fn record_value(e: Envelope, payload: Tree, key: Seq<char>) -> Option<Tree> {
    lookup(record_fields(e, payload), key)
}

proof fn lemma_clip_lookup(f: Seq<(Seq<char>, Tree)>, key: Seq<char>)
    ensures
        lookup(clip_fields(f), key) == match lookup(f, key) {
            Some(t) => Some(clip_tree(t)),
            None => None,
        },
    decreases f.len(),
{
    if f.len() > 0 {
        let rest = f.subrange(1, f.len() as int);
        lemma_clip_lookup(rest, key);
        let c = clip_fields(f);
        assert(c.subrange(1, c.len() as int) =~= clip_fields(rest));
        assert(c[0] == (f[0].0, clip_tree(f[0].1)));
    }
}

/// What a payload that has been clipped has under `key`.
proof fn lemma_clipped_payload(payload: Tree, key: Seq<char>)
    requires
        key != "truncated"@,
    ensures
        lookup(clipped_payload(payload), key) == match lookup(payload_fields(payload), key) {
            Some(t) => Some(clip_tree(t)),
            None => None,
        },
{
    let f = payload_fields(payload);
    lemma_clip_lookup(f, key);
    put_is_found(clip_fields(f), "truncated"@, Tree::Bool(true), key);
}

/// The keys of the envelope and the flag for clipping are different texts.
proof fn lemma_keys_differ()
    ensures
        "v"@ != "ts"@,
        "v"@ != "type"@,
        "v"@ != "seq"@,
        "v"@ != "inv"@,
        "v"@ != "pid"@,
        "v"@ != "command"@,
        "v"@ != "level"@,
        "v"@ != "session_id"@,
        "ts"@ != "type"@,
        "ts"@ != "seq"@,
        "ts"@ != "inv"@,
        "ts"@ != "pid"@,
        "ts"@ != "command"@,
        "ts"@ != "level"@,
        "ts"@ != "session_id"@,
        "ts"@ != "truncated"@,
        "type"@ != "seq"@,
        "type"@ != "inv"@,
        "type"@ != "pid"@,
        "type"@ != "command"@,
        "type"@ != "level"@,
        "type"@ != "session_id"@,
        "seq"@ != "inv"@,
        "seq"@ != "pid"@,
        "seq"@ != "command"@,
        "seq"@ != "level"@,
        "seq"@ != "session_id"@,
        "inv"@ != "pid"@,
        "inv"@ != "command"@,
        "inv"@ != "level"@,
        "inv"@ != "session_id"@,
        "pid"@ != "command"@,
        "pid"@ != "level"@,
        "pid"@ != "session_id"@,
        "command"@ != "level"@,
        "command"@ != "session_id"@,
        "level"@ != "session_id"@,
        "session_id"@ != "truncated"@,
{
    reveal_strlit("v");
    reveal_strlit("ts");
    reveal_strlit("type");
    reveal_strlit("seq");
    reveal_strlit("inv");
    reveal_strlit("pid");
    reveal_strlit("command");
    reveal_strlit("level");
    reveal_strlit("session_id");
    reveal_strlit("truncated");
    assert("v"@.len() == 1 && "ts"@.len() == 2 && "type"@.len() == 4 && "seq"@.len() == 3
        && "inv"@.len() == 3 && "pid"@.len() == 3 && "command"@.len() == 7 && "level"@.len() == 5
        && "session_id"@.len() == 10 && "truncated"@.len() == 9);
    assert("seq"@[0] == 's' && "inv"@[0] == 'i' && "pid"@[0] == 'p');
}

/// What a record has under a key, step by step of the envelope.
proof fn lemma_record_value(e: Envelope, payload: Tree, key: Seq<char>)
    ensures
        record_value(e, payload, key) == if key == "session_id"@ && e.session_id is Some {
            Some(Tree::Text(e.session_id->0))
        } else if key == "level"@ {
            Some(Tree::Text(e.level))
        } else if key == "command"@ {
            Some(Tree::Text(e.command))
        } else if key == "pid"@ {
            Some(count_tree(e.pid as nat))
        } else if key == "inv"@ {
            Some(Tree::Text(e.inv))
        } else if key == "seq"@ {
            Some(count_tree(e.seq as nat))
        } else if key == "type"@ {
            Some(Tree::Text(e.event_type))
        } else if key == "ts"@ && lookup(clipped_payload(payload), "ts"@) is None {
            Some(Tree::Text(e.ts))
        } else if key == "v"@ {
            Some(count_tree(SCHEMA_VERSION as nat))
        } else {
            lookup(clipped_payload(payload), key)
        },
{
    lemma_keys_differ();
    let f0 = clipped_payload(payload);
    let f1 = with_field(f0, "v"@, count_tree(SCHEMA_VERSION as nat));
    put_is_found(f0, "v"@, count_tree(SCHEMA_VERSION as nat), key);
    put_is_found(f0, "v"@, count_tree(SCHEMA_VERSION as nat), "ts"@);
    let f2 = with_default(f1, "ts"@, Tree::Text(e.ts));
    put_is_found(f1, "ts"@, Tree::Text(e.ts), key);
    let f3 = with_field(f2, "type"@, Tree::Text(e.event_type));
    put_is_found(f2, "type"@, Tree::Text(e.event_type), key);
    let f4 = with_field(f3, "seq"@, count_tree(e.seq as nat));
    put_is_found(f3, "seq"@, count_tree(e.seq as nat), key);
    let f5 = with_field(f4, "inv"@, Tree::Text(e.inv));
    put_is_found(f4, "inv"@, Tree::Text(e.inv), key);
    let f6 = with_field(f5, "pid"@, count_tree(e.pid as nat));
    put_is_found(f5, "pid"@, count_tree(e.pid as nat), key);
    let f7 = with_field(f6, "command"@, Tree::Text(e.command));
    put_is_found(f6, "command"@, Tree::Text(e.command), key);
    let f8 = with_field(f7, "level"@, Tree::Text(e.level));
    put_is_found(f7, "level"@, Tree::Text(e.level), key);
    if let Some(id) = e.session_id {
        put_is_found(f8, "session_id"@, Tree::Text(id), key);
    }
}

/// The envelope always wins: whatever the payload holds, a record has the version, the sequence
/// number, the run, the process, the command, the type and the level of its envelope, and its
/// session where it has one.
pub proof fn envelope_wins(e: Envelope, payload: Tree)
    ensures
        record_value(e, payload, "v"@) == Some(count_tree(SCHEMA_VERSION as nat)),
        record_value(e, payload, "seq"@) == Some(count_tree(e.seq as nat)),
        record_value(e, payload, "inv"@) == Some(Tree::Text(e.inv)),
        record_value(e, payload, "pid"@) == Some(count_tree(e.pid as nat)),
        record_value(e, payload, "command"@) == Some(Tree::Text(e.command)),
        record_value(e, payload, "type"@) == Some(Tree::Text(e.event_type)),
        record_value(e, payload, "level"@) == Some(Tree::Text(e.level)),
        e.session_id is Some ==> record_value(e, payload, "session_id"@) == Some(
            Tree::Text(e.session_id->0),
        ),
{
    lemma_keys_differ();
    lemma_record_value(e, payload, "v"@);
    lemma_record_value(e, payload, "seq"@);
    lemma_record_value(e, payload, "inv"@);
    lemma_record_value(e, payload, "pid"@);
    lemma_record_value(e, payload, "command"@);
    lemma_record_value(e, payload, "type"@);
    lemma_record_value(e, payload, "level"@);
    lemma_record_value(e, payload, "session_id"@);
}

/// Every record has a timestamp: that of the payload where it has one, else that of the envelope.
pub proof fn record_is_dated(e: Envelope, payload: Tree)
    ensures
        record_value(e, payload, "ts"@) == match lookup(payload_fields(payload), "ts"@) {
            Some(t) => Some(clip_tree(t)),
            None => Some(Tree::Text(e.ts)),
        },
{
    lemma_keys_differ();
    lemma_record_value(e, payload, "ts"@);
    lemma_clipped_payload(payload, "ts"@);
}

/// Outside the envelope, a record holds the payload: every field of it, clipped, and nothing else
/// but the flag for clipping.
pub proof fn payload_is_carried(e: Envelope, payload: Tree, key: Seq<char>)
    requires
        !is_reserved(key),
        key != "truncated"@,
    ensures
        record_value(e, payload, key) == match lookup(payload_fields(payload), key) {
            Some(t) => Some(clip_tree(t)),
            None => None,
        },
{
    lemma_record_value(e, payload, key);
    lemma_clipped_payload(payload, key);
}

// ---------------------------------------------------------------------------------------------
// Command lifecycle
// ---------------------------------------------------------------------------------------------

/// An event that is about to be emitted.
pub struct Event {
    pub level: String,
    pub event_type: String,
    pub payload: Json,
}

/// The payload of the event that opens a command.
pub fn command_started(args: &Json) -> (r: Json)
    ensures
        r@ == Tree::Object(object_of(seq![("args"@, args@)])),
{
    let mut p = Pairs::new();
    p.add("args", args.copy());
    assert(p@ == seq![("args"@, args@)]);
    p.object()
}

/// The event that closes a command: it finished, at `warn` where its exit code is not zero, or it
/// failed.
pub fn command_finished(result: &Result<i32, AppError>, duration_ms: &Number) -> (r: Event)
    ensures
        match *result {
            Ok(code) => {
                &&& r.level@ == if code == 0 {
                    LEVEL_INFO@
                } else {
                    LEVEL_WARN@
                }
                &&& r.event_type@ == "command_finished"@
                &&& r.payload@ == Tree::Object(
                    object_of(
                        seq![
                            ("exit_code"@, int_tree(code as int)),
                            ("duration_ms"@, Tree::Number(duration_ms@)),
                        ],
                    ),
                )
            },
            Err(err) => {
                &&& r.level@ == LEVEL_ERROR@
                &&& r.event_type@ == "command_failed"@
                &&& r.payload@ == Tree::Object(
                    object_of(
                        seq![
                            ("exit_code"@, int_tree(err.code as int)),
                            ("duration_ms"@, Tree::Number(duration_ms@)),
                            ("error"@, Tree::Text(err.message@)),
                        ],
                    ),
                )
            },
        },
{
    let mut p = Pairs::new();
    match result {
        Ok(code) => {
            p.add("exit_code", int_json(*code as i64));
            p.number("duration_ms", duration_ms);
            assert(p@ == seq![
                ("exit_code"@, int_tree(*code as int)),
                ("duration_ms"@, Tree::Number(duration_ms@)),
            ]);
            let level: &str = if *code == 0 {
                LEVEL_INFO
            } else {
                LEVEL_WARN
            };
            Event {
                level: level.to_owned(),
                event_type: "command_finished".to_owned(),
                payload: p.object(),
            }
        },
        Err(err) => {
            p.add("exit_code", int_json(err.code as i64));
            p.number("duration_ms", duration_ms);
            p.text("error", err.message.as_str());
            assert(p@ == seq![
                ("exit_code"@, int_tree(err.code as int)),
                ("duration_ms"@, Tree::Number(duration_ms@)),
                ("error"@, Tree::Text(err.message@)),
            ]);
            Event {
                level: LEVEL_ERROR.to_owned(),
                event_type: "command_failed".to_owned(),
                payload: p.object(),
            }
        },
    }
}

/// A text of more than two hundred characters is cut behind the two hundredth, where an ellipsis
/// says so; texts in lists and objects are cut where they stand, and keys stay.
pub proof fn long_texts_are_cut(s: Seq<char>, v: Seq<Tree>, f: Seq<(Seq<char>, Tree)>, i: int)
    ensures
        s.len() <= 200 ==> clip_tree(Tree::Text(s)) == Tree::Text(s),
        s.len() > 200 ==> clip_tree(Tree::Text(s)) == Tree::Text(s.subrange(0, 200) + seq!['…']),
        clip_tree(Tree::List(v)) matches Tree::List(w) && w.len() == v.len() && (0 <= i < v.len()
            ==> w[i] == clip_tree(v[i])),
        clip_tree(Tree::Object(f)) matches Tree::Object(g) && g.len() == f.len() && (0 <= i < f.len()
            ==> g[i].0 == f[i].0 && g[i].1 == clip_tree(f[i].1)),
        has_long_text(Tree::Text(s)) <==> s.len() > 200,
        0 <= i < v.len() && has_long_text(v[i]) ==> has_long_text(Tree::List(v)),
        0 <= i < f.len() && has_long_text(f[i].1) ==> has_long_text(Tree::Object(f)),
{
    if s.len() > 200 {
        assert(s.subrange(0, 200).push('…') =~= s.subrange(0, 200) + seq!['…']);
    }
}

/// A record says that it was clipped where a text of its payload was too long.
pub proof fn clipped_records_say_so(payload: Tree)
    ensures
        has_long_text(Tree::Object(payload_fields(payload))) ==> lookup(
            clipped_payload(payload),
            "truncated"@,
        ) == Some(Tree::Bool(true)),
        !has_long_text(Tree::Object(payload_fields(payload))) ==> clipped_payload(payload)
            == payload_fields(payload),
{
    let f = payload_fields(payload);
    if has_long_text(Tree::Object(f)) {
        put_is_found(clip_fields(f), "truncated"@, Tree::Bool(true), "truncated"@);
    } else {
        clipping_keeps_short_texts(Tree::Object(f));
        assert(clip_tree(Tree::Object(f)) == Tree::Object(f));
        let g = clip_tree(Tree::Object(f))->Object_0;
        assert(clip_fields(f) =~= g) by {
            assert forall|i: int| 0 <= i < f.len() implies clip_fields(f)[i] == g[i] by {
                long_texts_are_cut(Seq::empty(), Seq::empty(), f, i);
            }
        }
    }
}

/// A session's event goes onto the bus under its own type, and at the level that its status asks for.
pub proof fn mirrored_events_keep_their_type(payload: Tree)
    ensures
        text_field(payload, "type"@) matches Some(t) ==> mirror_type_of(payload) == t,
        text_field(payload, "type"@) is None ==> mirror_type_of(payload) == "session_event"@,
        text_field(payload, "status"@) == Some("error"@) ==> mirror_level_of(payload) == "error"@,
        text_field(payload, "status"@) == Some("skipped"@) ==> mirror_level_of(payload) == "warn"@,
        text_field(payload, "status"@) != Some("error"@) && text_field(payload, "status"@) != Some(
            "skipped"@,
        ) ==> mirror_level_of(payload) == "info"@,
{
    reveal_strlit("error");
    reveal_strlit("skipped");
    assert("error"@.len() == 5 && "skipped"@.len() == 7);
}

/// The size that is set for the bus counts where it is a positive number; else it is eight mebibytes.
pub proof fn set_sizes_count(n: nat)
    requires
        n <= u64::MAX,
    ensures
        n > 0 ==> max_bytes_of(Some(decimal(n))) == n,
        max_bytes_of(Some(decimal(0))) == 8388608,
        max_bytes_of(None) == 8388608,
        max_bytes_of(Some(Seq::empty())) == 8388608,
{
    lemma_number_is_read(n);
    lemma_number_is_read(0);
    lemma_blank_is_trimmed(Seq::empty());
    assert(parsed_unsigned(trimmed(Seq::<char>::empty()), u64::MAX as nat) is None);
}

proof fn lemma_number_is_read(n: nat)
    requires
        n <= u64::MAX,
    ensures
        parsed_unsigned(trimmed(decimal(n)), u64::MAX as nat) == Some(n),
{
    decimal_reads_back(n);
    let d = decimal(n);
    assert(is_digit(d[0]));
    assert(is_digit(d[d.len() - 1]));
    lemma_already_trimmed(d);
}

/// A log belongs to the session whose directory it stands in.
pub proof fn logs_belong_to_their_directory(dir: Seq<char>, session: Seq<char>, file: Seq<char>)
    requires
        session.len() > 0,
        file.len() > 0,
        !session.contains('/'),
        !file.contains('/'),
        session != "."@,
        session != ".."@,
        file != "."@,
    ensures
        log_session(dir + seq!['/'] + session + seq!['/'] + file) == Some(session),
{
    reveal_strlit("/");
    reveal(Seq::filter);
    let path = dir + seq!['/'] + session + seq!['/'] + file;
    let front = dir + seq!['/'] + session;
    assert("/"@ =~= seq!['/']);
    lemma_split_last(dir, session);
    lemma_split_last(front, file);
    let p = |x: Seq<char>| x.len() > 0 && x != "."@;
    let a = split_of(dir, "/"@);
    let b = a.push(session);
    let c = b.push(file);
    assert(split_of(path, "/"@) == c);
    assert(b.drop_last() =~= a);
    assert(c.drop_last() =~= b);
    assert(b.filter(p) == a.filter(p).push(session));
    assert(c.filter(p) == b.filter(p).push(file));
}

/// What stands behind the last slash is the last piece.
proof fn lemma_split_last(front: Seq<char>, last: Seq<char>)
    requires
        !last.contains('/'),
    ensures
        split_of(front + seq!['/'] + last, seq!['/']) == split_of(front, seq!['/']).push(last),
    decreases front.len(),
{
    let pat = seq!['/'];
    let s = front + pat + last;
    lemma_find_from(s, pat, 0);
    lemma_find_from(front, pat, 0);
    assert(s.subrange(front.len() as int, front.len() + 1int) =~= pat);
    assert(occurs_at(s, pat, front.len() as int));
    let i = find(s, pat)->0;
    assert(find(s, pat) is Some && i <= front.len());
    let first = s.subrange(0, i);
    let rest = s.subrange(i + 1, s.len() as int);
    assert(s.subrange(i, i + 1) == pat);
    assert(s =~= first + pat + rest);
    texts_are_cut_at_the_first(first, pat, rest);
    if i < front.len() {
        assert(front.subrange(i, i + 1) =~= s.subrange(i, i + 1));
        assert(occurs_at(front, pat, i));
        assert forall|j: int| 0 <= j < i implies !#[trigger] occurs_at(front, pat, j) by {
            assert(front.subrange(j, j + 1) =~= s.subrange(j, j + 1));
            assert(!occurs_at(s, pat, j));
        }
        assert(find(front, pat) == Some(i));
        let less = front.subrange(i + 1, front.len() as int);
        assert(front =~= first + pat + less);
        texts_are_cut_at_the_first(first, pat, less);
        assert(rest =~= less + pat + last);
        lemma_split_last(less, last);
        assert(split_of(s, pat) =~= split_of(front, pat).push(last));
    } else {
        assert(first =~= front);
        assert(rest =~= last);
        if contains(last, pat) {
            let k = choose|k: int| #[trigger] occurs_at(last, pat, k);
            assert(last.subrange(k, k + 1)[0] == last[k]);
        }
        lemma_one_piece(last, pat, pat);
        if contains(front, pat) {
            let k = choose|k: int| #[trigger] occurs_at(front, pat, k);
            assert(front.subrange(k, k + 1) =~= s.subrange(k, k + 1));
            assert(occurs_at(s, pat, k));
        }
        lemma_one_piece(front, pat, pat);
        assert(split_of(s, pat) =~= split_of(front, pat).push(last));
    }
}

/// A run is identified by the milliseconds at which it started, a dash and its process id.
pub proof fn runs_go_by_start_and_process(epoch_ms: nat, pid: nat)
    ensures
        invocation(epoch_ms, pid) == decimal(epoch_ms) + seq!['-'] + decimal(pid),
{
    reveal_strlit("-");
    assert("-"@ =~= seq!['-']);
}

/// What is no object is carried under `value`, and nothing is carried of nothing.
pub proof fn plain_values_are_carried(fields: Seq<(Seq<char>, Tree)>, text: Seq<char>, on: bool)
    ensures
        payload_fields(Tree::Object(fields)) == fields,
        payload_fields(Tree::Null).len() == 0,
        payload_fields(Tree::Text(text)) == seq![("value"@, Tree::Text(text))],
        payload_fields(Tree::Bool(on)) == seq![("value"@, Tree::Bool(on))],
{
}

/// Nine names are those of the record itself.
pub proof fn nine_names_belong_to_the_record(key: Seq<char>)
    ensures
        is_reserved("v"@) && is_reserved("ts"@) && is_reserved("seq"@) && is_reserved("inv"@),
        is_reserved("pid"@) && is_reserved("command"@) && is_reserved("type"@),
        is_reserved("session_id"@) && is_reserved("level"@),
        key != "v"@ && key != "ts"@ && key != "seq"@ && key != "inv"@ && key != "pid"@ && key
            != "command"@ && key != "type"@ && key != "session_id"@ && key != "level"@
            ==> !is_reserved(key),
{
}

} // verus!
