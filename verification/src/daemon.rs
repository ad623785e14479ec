//! The daemon: which events it takes in, what it answers, and how it is started and stopped.

use vstd::prelude::*;
use vstd::utf8::{encode_utf8, is_ascii_chars, is_ascii_chars_encode_utf8};

use crate::bus::EventFilters;
use crate::cli::{command_name, Commands};
use crate::error::{app_error, AppError};
use crate::events::{envelope_wins, record_value, Envelope, LEVEL_ERROR, LEVEL_INFO, LEVEL_WARN};
use crate::json::{
    count_tree, field, int_json, int_tree, integer_of, lemma_tree, object_of, opt_text_tree,
    opt_view, pairs_read_back, text_field, unsigned_of, with_field, Fields, Json, Number, Pairs,
    Tree,
};
use crate::number::{decimal, decimal_text, signed_decimal, signed_text};
use crate::pattern::{
    contains, find, lemma_find_from, lemma_one_piece, occurs_at, split, split_of,
    texts_are_cut_at_the_first, views,
};
use crate::text::{
    char_is_digit, char_is_letter, chars_of, concat, concat3, is_digit, is_letter, same,
};
use crate::wire::{bytes_read, outcome, read_json, read_json_bytes, text_read};

verus! {

/// The version of what the daemon speaks.
pub const PROTOCOL_VERSION: u64 = 1;

// ---------------------------------------------------------------------------------------------
// Validation
// ---------------------------------------------------------------------------------------------

/// The number of bytes that a text takes.
pub open spec fn byte_len(s: Seq<char>) -> usize {
    encode_utf8(s).len() as usize
}

/// Whether an identifier may hold `c`.
pub open spec fn identifier_char(c: char) -> bool {
    is_letter(c) || is_digit(c) || c == '_' || c == '-' || c == '.'
}

/// Whether an identifier is of a length that is accepted.
pub open spec fn identifier_len_ok(s: Seq<char>) -> bool {
    0 < s.len() && byte_len(s) <= 64
}

/// Whether every character of `s` may stand in an identifier.
pub open spec fn identifier_chars_ok(s: Seq<char>) -> bool {
    forall|i: int| 0 <= i < s.len() ==> identifier_char(#[trigger] s[i])
}

/// Whether `s` is an identifier: 1 to 64 bytes, a letter first, then letters, digits, `_`, `-`
/// and `.`.
pub open spec fn is_identifier(s: Seq<char>) -> bool {
    identifier_len_ok(s) && is_letter(s[0]) && identifier_chars_ok(s)
}

/// What is said of a text that is no identifier.
pub open spec fn identifier_complaint(s: Seq<char>, what: Seq<char>) -> Seq<char> {
    if !identifier_len_ok(s) {
        "Invalid "@ + what + ": must be 1-64 characters."@
    } else if !is_letter(s[0]) {
        "Invalid "@ + what + " '"@ + s + "': must start with a letter."@
    } else {
        "Invalid "@ + what + " '"@ + s + "': use letters, digits, '_', '-', '.'."@
    }
}

/// Whether `value` is an identifier, and what is wrong where it is not.
pub fn validate_identifier(value: &str, what: &str) -> (r: Result<(), String>)
    ensures
        r is Ok <==> is_identifier(value@),
        r matches Err(e) ==> e@ == identifier_complaint(value@, what@),
{
    let bytes: usize = value.len();
    if value.is_empty() || bytes > 64 {
        return Err(concat3("Invalid ", what, ": must be 1-64 characters."));
    }
    let v = chars_of(value);
    if !char_is_letter(v[0]) {
        let head = concat3("Invalid ", what, " '");
        return Err(concat3(head.as_str(), value, "': must start with a letter."));
    }
    let mut i: usize = 0;
    while i < v.len()
        invariant
            i <= v.len(),
            v@ == value@,
            identifier_len_ok(value@),
            is_letter(value@[0]),
            forall|k: int| 0 <= k < i ==> identifier_char(#[trigger] v@[k]),
        decreases v.len() - i,
    {
        let c = v[i];
        if !(char_is_letter(c) || char_is_digit(c) || c == '_' || c == '-' || c == '.') {
            assert(!identifier_char(value@[i as int]));
            let head = concat3("Invalid ", what, " '");
            return Err(concat3(head.as_str(), value, "': use letters, digits, '_', '-', '.'."));
        }
        i = i + 1;
    }
    Ok(())
}

/// Whether `event_type` names a type of event.
pub fn validate_event_type(event_type: &str) -> (r: Result<(), String>)
    ensures
        r is Ok <==> is_identifier(event_type@),
        r matches Err(e) ==> e@ == identifier_complaint(event_type@, "event type"@),
{
    validate_identifier(event_type, "event type")
}

/// Whether `source` names a sender of events.
pub fn validate_source(source: &str) -> (r: Result<(), String>)
    ensures
        r is Ok <==> is_identifier(source@),
        r matches Err(e) ==> e@ == identifier_complaint(source@, "source"@),
{
    validate_identifier(source, "source")
}

/// Whether `s` is a level of events.
pub open spec fn is_level(s: Seq<char>) -> bool {
    s == LEVEL_INFO@ || s == LEVEL_WARN@ || s == LEVEL_ERROR@
}

/// What is said of a text that is no level.
pub open spec fn level_complaint(s: Seq<char>) -> Seq<char> {
    "Invalid level '"@ + s + "': use info, warn, or error."@
}

/// The level that `level` names.
pub fn validate_level(level: &str) -> (r: Result<&'static str, String>)
    ensures
        r is Ok <==> is_level(level@),
        r matches Ok(l) ==> l@ == level@,
        r matches Err(e) ==> e@ == level_complaint(level@),
{
    if same(level, LEVEL_INFO) {
        Ok(LEVEL_INFO)
    } else if same(level, LEVEL_WARN) {
        Ok(LEVEL_WARN)
    } else if same(level, LEVEL_ERROR) {
        Ok(LEVEL_ERROR)
    } else {
        Err(concat3("Invalid level '", level, "': use info, warn, or error."))
    }
}

// ---------------------------------------------------------------------------------------------
// Events from other programs
// ---------------------------------------------------------------------------------------------

/// An event that another program has sent, checked.
pub struct ExternalEvent {
    pub command: String,
    pub level: String,
    pub event_type: String,
    pub session_id: Option<String>,
    pub payload: Json,
}

/// The model of an event that another program has sent.
pub struct ExternalView {
    pub source: Seq<char>,
    pub level: Seq<char>,
    pub event_type: Seq<char>,
    pub session_id: Option<Seq<char>>,
    pub payload: Tree,
}

/// The sender that a body names: `unknown` where it names none.
pub open spec fn source_of(body: Tree) -> Result<Seq<char>, Seq<char>> {
    match field(body, "source"@) {
        None => Ok("unknown"@),
        Some(Tree::Text(s)) => Ok(s),
        Some(_) => Err("'source' must be a string."@),
    }
}

/// The level that a body names: `info` where it names none.
pub open spec fn level_of(body: Tree) -> Result<Seq<char>, Seq<char>> {
    match field(body, "level"@) {
        None => Ok(LEVEL_INFO@),
        Some(Tree::Text(s)) => if is_level(s) {
            Ok(s)
        } else {
            Err(level_complaint(s))
        },
        Some(_) => Err("'level' must be a string."@),
    }
}

/// The session that a body names, if any.
pub open spec fn session_of(body: Tree) -> Result<Option<Seq<char>>, Seq<char>> {
    match field(body, "session_id"@) {
        None | Some(Tree::Null) => Ok(None),
        Some(Tree::Text(s)) => Ok(Some(s)),
        Some(_) => Err("'session_id' must be a string."@),
    }
}

/// The payload that a body carries: an empty object where it carries none.
pub open spec fn payload_of(body: Tree) -> Result<Tree, Seq<char>> {
    match field(body, "payload"@) {
        None | Some(Tree::Null) => Ok(Tree::Object(Seq::empty())),
        Some(Tree::Object(f)) => Ok(Tree::Object(f)),
        Some(_) => Err("'payload' must be a JSON object."@),
    }
}

/// The event that a body holds, or the first thing that is wrong with it: the type, then the
/// source, the level, the session and the payload.
pub open spec fn external_event(body: Tree) -> Result<ExternalView, Seq<char>> {
    match body {
        Tree::Object(_) => match text_field(body, "type"@) {
            None => Err("Missing required string field 'type'."@),
            Some(event_type) => if !is_identifier(event_type) {
                Err(identifier_complaint(event_type, "event type"@))
            } else {
                match source_of(body) {
                    Err(e) => Err(e),
                    Ok(source) => if !is_identifier(source) {
                        Err(identifier_complaint(source, "source"@))
                    } else {
                        match (level_of(body), session_of(body), payload_of(body)) {
                            (Err(e), _, _) => Err(e),
                            (Ok(_), Err(e), _) => Err(e),
                            (Ok(_), Ok(_), Err(e)) => Err(e),
                            (Ok(level), Ok(session_id), Ok(payload)) => Ok(
                                ExternalView { source, level, event_type, session_id, payload },
                            ),
                        }
                    },
                }
            },
        },
        _ => Err("Body must be a JSON object."@),
    }
}

/// Whether `r` is what becomes of a request body that the JSON reader made `parsed` of: an event, or
/// what is said of the error.
pub open spec fn is_ingested(
    parsed: Result<Tree, Seq<char>>,
    r: Result<ExternalEvent, String>,
) -> bool {
    match parsed {
        Err(reason) => r matches Err(e) && e@ == "Body is not valid JSON: "@ + reason,
        Ok(body) => match external_event(body) {
            Err(complaint) => r matches Err(e) && e@ == complaint,
            Ok(v) => r matches Ok(ev) && {
                &&& ev.command@ == "external:"@ + v.source
                &&& ev.level@ == v.level
                &&& ev.event_type@ == v.event_type
                &&& opt_view(ev.session_id) == v.session_id
                &&& ev.payload@ == v.payload
            },
        },
    }
}

/// The event that a request body holds.
pub fn ingest_external_event(body: &[u8]) -> (r: Result<ExternalEvent, String>)
    ensures
        is_ingested(bytes_read(body@), r),
{
    event_of_body(&read_json_bytes(body))
}

/// The event that a request body holds, given what the JSON reader made of it: a value, or what
/// it says of the error.
pub fn event_of_body(parsed: &Result<Json, String>) -> (r: Result<ExternalEvent, String>)
    ensures
        is_ingested(outcome(*parsed), r),
{
    let body = match parsed {
        Err(reason) => {
            return Err(concat("Body is not valid JSON: ", reason.as_str()));
        },
        Ok(body) => body,
    };
    proof {
        lemma_tree(*body);
    }
    match body {
        Json::Object(_) => {},
        _ => {
            return Err("Body must be a JSON object.".to_owned());
        },
    }
    let event_type = match body.get_text("type") {
        Some(t) => t.clone(),
        None => {
            return Err("Missing required string field 'type'.".to_owned());
        },
    };
    if let Err(e) = validate_event_type(event_type.as_str()) {
        return Err(e);
    }
    let source = match body.get("source") {
        None => "unknown".to_owned(),
        Some(value) => {
            proof {
                lemma_tree(*value);
            }
            match value {
                Json::Text(s) => s.clone(),
                _ => {
                    return Err("'source' must be a string.".to_owned());
                },
            }
        },
    };
    if let Err(e) = validate_source(source.as_str()) {
        return Err(e);
    }
    let level = match body.get("level") {
        None => LEVEL_INFO.to_owned(),
        Some(value) => {
            proof {
                lemma_tree(*value);
            }
            match value {
                Json::Text(s) => match validate_level(s.as_str()) {
                    Ok(l) => l.to_owned(),
                    Err(e) => {
                        return Err(e);
                    },
                },
                _ => {
                    return Err("'level' must be a string.".to_owned());
                },
            }
        },
    };
    let session_id: Option<String> = match body.get("session_id") {
        None => None,
        Some(value) => {
            proof {
                lemma_tree(*value);
            }
            match value {
                Json::Null => None,
                Json::Text(s) => Some(s.clone()),
                _ => {
                    return Err("'session_id' must be a string.".to_owned());
                },
            }
        },
    };
    let payload = match body.get("payload") {
        None => Fields::new().object(),
        Some(value) => {
            proof {
                lemma_tree(*value);
            }
            match value {
                Json::Null => Fields::new().object(),
                Json::Object(_) => value.copy(),
                _ => {
                    return Err("'payload' must be a JSON object.".to_owned());
                },
            }
        },
    };
    let command = concat("external:", source.as_str());
    Ok(ExternalEvent { command, level, event_type, session_id, payload })
}

/// What the sender of an accepted event is answered.
pub fn accepted_summary(event: &ExternalEvent) -> (r: Json)
    ensures
        r@ == Tree::Object(
            object_of(
                seq![
                    ("ok"@, Tree::Bool(true)),
                    ("type"@, Tree::Text(event.event_type@)),
                    ("command"@, Tree::Text(event.command@)),
                ],
            ),
        ),
{
    let mut p = Pairs::new();
    p.flag("ok", true);
    p.text("type", event.event_type.as_str());
    p.text("command", event.command.as_str());
    assert(p@ == seq![
        ("ok"@, Tree::Bool(true)),
        ("type"@, Tree::Text(event.event_type@)),
        ("command"@, Tree::Text(event.command@)),
    ]);
    p.object()
}

/// What the sender of a refused request is answered.
pub fn refusal(reason: &str) -> (r: Json)
    ensures
        r@ == Tree::Object(
            object_of(seq![("ok"@, Tree::Bool(false)), ("error"@, Tree::Text(reason@))]),
        ),
{
    let mut p = Pairs::new();
    p.flag("ok", false);
    p.text("error", reason);
    assert(p@ == seq![("ok"@, Tree::Bool(false)), ("error"@, Tree::Text(reason@))]);
    p.object()
}

/// An accepted event is well formed: its sender and its type are identifiers, its level is a
/// level and its payload is an object.
pub proof fn accepted_events_are_well_formed(body: Tree)
    ensures
        external_event(body) matches Ok(v) ==> is_identifier(v.source) && is_identifier(
            v.event_type,
        ) && is_level(v.level) && v.payload is Object,
        external_event(body) is Ok ==> body is Object,
{
}

/// Whether `r` is what becomes of the payload of an event that is given as text, which the JSON
/// reader made `data` of: an object, or an error. There is an empty one where none is given.
pub open spec fn is_payload(
    data: Option<Result<Tree, Seq<char>>>,
    r: Result<Json, AppError>,
) -> bool {
    match data {
        None => r matches Ok(j) && j@ == Tree::Object(Seq::empty()),
        Some(Err(reason)) => r matches Err(e) && e.code == 2 && e.message@
            == "--data is not valid JSON: "@ + reason,
        Some(Ok(value)) => if value is Object {
            r matches Ok(j) && j@ == value
        } else {
            r matches Err(e) && e.code == 2 && e.message@ == "--data must be a JSON object."@
        },
    }
}

/// The payload of an event that is given as text.
pub fn emit_payload(data: Option<&str>) -> (r: Result<Json, AppError>)
    ensures
        is_payload(
            match data {
                Some(text) => Some(text_read(text@)),
                None => None,
            },
            r,
        ),
{
    match data {
        Some(text) => data_payload(&Some(read_json(text))),
        None => data_payload(&None),
    }
}

/// The payload of an event, given what the JSON reader made of the text: a value, or what it says
/// of the error.
pub fn data_payload(data: &Option<Result<Json, String>>) -> (r: Result<Json, AppError>)
    ensures
        is_payload(
            match *data {
                Some(parsed) => Some(outcome(parsed)),
                None => None,
            },
            r,
        ),
{
    match data {
        None => Ok(Fields::new().object()),
        Some(Err(reason)) => Err(
            app_error(2, concat("--data is not valid JSON: ", reason.as_str()).as_str()),
        ),
        Some(Ok(value)) => {
            proof {
                lemma_tree(*value);
            }
            match value {
                Json::Object(_) => Ok(value.copy()),
                _ => Err(app_error(2, "--data must be a JSON object.")),
            }
        },
    }
}

/// What `riff emit` reports.
pub fn emit_report(event_type: &str, session_id: &Option<String>, level: &str) -> (r: Json)
    ensures
        r@ == Tree::Object(
            object_of(
                seq![
                    ("ok"@, Tree::Bool(true)),
                    ("type"@, Tree::Text(event_type@)),
                    ("session_id"@, opt_text_tree(opt_view(*session_id))),
                    ("level"@, Tree::Text(level@)),
                ],
            ),
        ),
{
    let mut p = Pairs::new();
    p.flag("ok", true);
    p.text("type", event_type);
    p.opt_text("session_id", session_id);
    p.text("level", level);
    assert(p@ == seq![
        ("ok"@, Tree::Bool(true)),
        ("type"@, Tree::Text(event_type@)),
        ("session_id"@, opt_text_tree(opt_view(*session_id))),
        ("level"@, Tree::Text(level@)),
    ]);
    p.object()
}

// ---------------------------------------------------------------------------------------------
// Subscriptions
// ---------------------------------------------------------------------------------------------

/// The view of the query of a request.
pub open spec fn query_views(q: Seq<(String, String)>) -> Seq<(Seq<char>, Seq<char>)> {
    q.map_values(|p: (String, String)| (p.0@, p.1@))
}

/// The members of a list that is written with commas, without the empty ones.
pub open spec fn listed(value: Seq<char>) -> Seq<Seq<char>> {
    split_of(value, ","@).filter(|v: Seq<char>| v.len() > 0)
}

/// All members that the first `n` parameters list under `key`.
pub open spec fn listed_under(
    q: Seq<(Seq<char>, Seq<char>)>,
    key: Seq<char>,
    n: int,
) -> Seq<Seq<char>>
    decreases n,
{
    if n <= 0 {
        Seq::empty()
    } else if q[n - 1].0 == key {
        listed_under(q, key, n - 1) + listed(q[n - 1].1)
    } else {
        listed_under(q, key, n - 1)
    }
}

/// The last value under `key` among the first `n` parameters.
pub open spec fn last_under(q: Seq<(Seq<char>, Seq<char>)>, key: Seq<char>, n: int) -> Option<
    Seq<char>,
>
    decreases n,
{
    if n <= 0 {
        None
    } else if q[n - 1].0 == key {
        Some(q[n - 1].1)
    } else {
        last_under(q, key, n - 1)
    }
}

/// Appends the members of a list that is written with commas, without the empty ones.
fn extend_listed(out: &mut Vec<String>, value: &str)
    ensures
        views(final(out)@) == views(old(out)@) + listed(value@),
{
    proof {
        reveal_strlit(",");
    }
    let parts = split(value, ",");
    let ghost start = views(out@);
    let ghost keep = |v: Seq<char>| v.len() > 0;
    let mut i: usize = 0;
    proof {
        reveal(Seq::filter);
    }
    assert(views(out@) =~= start + views(parts@).subrange(0, 0).filter(keep));
    while i < parts.len()
        invariant
            i <= parts.len(),
            keep == (|v: Seq<char>| v.len() > 0),
            views(out@) == start + views(parts@).subrange(0, i as int).filter(keep),
        decreases parts.len() - i,
    {
        let ghost before = out@;
        let ghost all = views(parts@);
        proof {
            assert(all.subrange(0, i + 1).drop_last() == all.subrange(0, i as int));
            assert(all.subrange(0, i + 1).last() == parts@[i as int]@);
            reveal(Seq::filter);
        }
        if !parts[i].as_str().is_empty() {
            out.push(parts[i].clone());
            assert(views(out@) == views(before).push(parts@[i as int]@));
        }
        assert(views(out@) =~= start + all.subrange(0, i + 1).filter(keep));
        i = i + 1;
    }
    assert(views(parts@).subrange(0, parts@.len() as int) == views(parts@));
}

/// The filters that the query of a subscription asks for. Parameters that it does not know are
/// passed over.
pub fn filters_from_query(query: &Vec<(String, String)>) -> (r: EventFilters)
    ensures
        views(r.types@) == listed_under(query_views(query@), "type"@, query@.len() as int),
        views(r.commands@) == listed_under(query_views(query@), "command"@, query@.len() as int),
        opt_view(r.session) == last_under(query_views(query@), "session"@, query@.len() as int),
        opt_view(r.grep) == last_under(query_views(query@), "grep"@, query@.len() as int),
        r.since is None,
{
    let ghost q = query_views(query@);
    let mut types: Vec<String> = Vec::new();
    let mut commands: Vec<String> = Vec::new();
    let mut session: Option<String> = None;
    let mut grep: Option<String> = None;
    proof {
        reveal_strlit("type");
        reveal_strlit("command");
        reveal_strlit("session");
        reveal_strlit("grep");
        assert("type"@[0] == 't' && "command"@[0] == 'c' && "session"@[0] == 's' && "grep"@[0]
            == 'g');
    }
    let mut i: usize = 0;
    assert(views(types@) =~= Seq::empty());
    assert(views(commands@) =~= Seq::empty());
    while i < query.len()
        invariant
            i <= query.len(),
            q == query_views(query@),
            "type"@ != "command"@,
            "type"@ != "session"@,
            "type"@ != "grep"@,
            "command"@ != "session"@,
            "command"@ != "grep"@,
            "session"@ != "grep"@,
            views(types@) == listed_under(q, "type"@, i as int),
            views(commands@) == listed_under(q, "command"@, i as int),
            opt_view(session) == last_under(q, "session"@, i as int),
            opt_view(grep) == last_under(q, "grep"@, i as int),
        decreases query.len() - i,
    {
        let key = query[i].0.as_str();
        let value = query[i].1.as_str();
        assert(q[i as int] == (key@, value@));
        if same(key, "type") {
            extend_listed(&mut types, value);
        } else if same(key, "command") {
            extend_listed(&mut commands, value);
        } else if same(key, "session") {
            session = Some(value.to_owned());
        } else if same(key, "grep") {
            grep = Some(value.to_owned());
        }
        i = i + 1;
    }
    EventFilters { types, commands, session, grep, since: None }
}

// ---------------------------------------------------------------------------------------------
// Identity
// ---------------------------------------------------------------------------------------------

/// Who answers on a socket.
pub struct Identity {
    pub pid: u32,
    pub root: String,
    pub version: String,
    pub build_id: String,
    pub started_at: String,
    pub socket: String,
}

impl Identity {
    /// The fields in which the daemon says who it is.
    pub open spec fn fields(self) -> Seq<(Seq<char>, Tree)> {
        object_of(
            seq![
                ("service"@, Tree::Text("riffd"@)),
                ("protocol_version"@, count_tree(PROTOCOL_VERSION as nat)),
                ("pid"@, count_tree(self.pid as nat)),
                ("riff_root"@, Tree::Text(self.root@)),
                ("version"@, Tree::Text(self.version@)),
                ("build_id"@, Tree::Text(self.build_id@)),
                ("started_at"@, Tree::Text(self.started_at@)),
                ("socket"@, Tree::Text(self.socket@)),
            ],
        )
    }

    /// What the daemon says of itself.
    pub fn identity_value(&self) -> (r: Json)
        ensures
            r@ == Tree::Object(self.fields()),
    {
        let mut p = Pairs::new();
        p.text("service", "riffd");
        p.count("protocol_version", PROTOCOL_VERSION);
        p.count("pid", self.pid as u64);
        p.text("riff_root", self.root.as_str());
        p.text("version", self.version.as_str());
        p.text("build_id", self.build_id.as_str());
        p.text("started_at", self.started_at.as_str());
        p.text("socket", self.socket.as_str());
        assert(p@ == seq![
            ("service"@, Tree::Text("riffd"@)),
            ("protocol_version"@, count_tree(PROTOCOL_VERSION as nat)),
            ("pid"@, count_tree(self.pid as nat)),
            ("riff_root"@, Tree::Text(self.root@)),
            ("version"@, Tree::Text(self.version@)),
            ("build_id"@, Tree::Text(self.build_id@)),
            ("started_at"@, Tree::Text(self.started_at@)),
            ("socket"@, Tree::Text(self.socket@)),
        ]);
        p.object()
    }

    /// What the daemon says of its health: who it is, how long it has run and who listens.
    pub fn health_value(&self, uptime_sec: &Number, subscribers: usize) -> (r: Json)
        ensures
            r@ == Tree::Object(
                with_field(
                    with_field(
                        with_field(self.fields(), "ok"@, Tree::Bool(true)),
                        "uptime_sec"@,
                        Tree::Number(uptime_sec@),
                    ),
                    "subscribers"@,
                    count_tree(subscribers as nat),
                ),
            ),
    {
        let identity = self.identity_value();
        proof {
            lemma_tree(identity);
        }
        let fields: Vec<(String, Json)> = match identity {
            Json::Object(v) => v,
            _ => Vec::new(),
        };
        let mut f = Fields { fields };
        f.put("ok", Json::Bool(true));
        f.put("uptime_sec", Json::Number(uptime_sec.copy()));
        f.put("subscribers", Json::unsigned(subscribers as u64));
        f.object()
    }
}

/// Whether an answer is that of the daemon.
pub open spec fn is_riffd(identity: Tree) -> bool {
    text_field(identity, "service"@) == Some("riffd"@)
}

/// Whether an answer is that of the daemon that owns `root`.
pub open spec fn owns_root(identity: Tree, root: Seq<char>) -> bool {
    is_riffd(identity) && text_field(identity, "riff_root"@) == Some(root)
}

/// Whether an answer is that of the daemon.
pub fn identity_is_riffd(identity: &Json) -> (r: bool)
    ensures
        r == is_riffd(identity@),
{
    match identity.get_text("service") {
        Some(s) => same(s.as_str(), "riffd"),
        None => false,
    }
}

/// Whether an answer is that of the daemon that owns `root`.
pub fn identity_owns_root(identity: &Json, root: &str) -> (r: bool)
    ensures
        r == owns_root(identity@, root@),
{
    if !identity_is_riffd(identity) {
        return false;
    }
    match identity.get_text("riff_root") {
        Some(s) => same(s.as_str(), root),
        None => false,
    }
}

/// The process id in an answer, -1 where there is none.
pub open spec fn answer_pid_of(identity: Tree) -> int {
    match integer_of(field(identity, "pid"@)) {
        Some(pid) => pid as int,
        None => -1,
    }
}

/// The process id in an answer, -1 where there is none.
pub fn answer_pid(identity: &Json) -> (r: i64)
    ensures
        r == answer_pid_of(identity@),
{
    match identity.get_i64("pid") {
        Some(pid) => pid,
        None => -1,
    }
}

// ---------------------------------------------------------------------------------------------
// Starting and stopping
// ---------------------------------------------------------------------------------------------

/// Whether a daemon that was asked to serve `claimed` serves the root it has.
pub fn check_claimed_root(claimed: Option<&str>, ours: &str) -> (r: Result<(), AppError>)
    ensures
        r is Ok <==> (claimed matches Some(c) ==> c@ == ours@),
        r matches Err(e) ==> e.code == 2 && e.message@ == "--root "@ + claimed->0@
            + " does not match RIFF_ROOT "@ + ours@ + "."@,
{
    if let Some(c) = claimed {
        if !same(c, ours) {
            let head = concat3("--root ", c, " does not match RIFF_ROOT ");
            return Err(app_error(2, concat3(head.as_str(), ours, ".").as_str()));
        }
    }
    Ok(())
}

/// What becomes of a socket that is there before the daemon binds it: whoever answers on it keeps
/// it, which is an error; where nobody does, a daemon died and the socket is to be removed.
pub fn existing_socket(answer: &Option<Json>) -> (r: Result<(), AppError>)
    ensures
        r is Err <==> (answer matches Some(a) && is_riffd(a@)),
        r matches Err(e) ==> e.code == 2 && e.message@ == "riffd is already running (pid="@
            + signed_decimal(answer_pid_of(answer->0@)) + ")."@,
{
    if let Some(a) = answer {
        if identity_is_riffd(a) {
            let pid = signed_text(answer_pid(a));
            return Err(
                app_error(
                    2,
                    concat3("riffd is already running (pid=", pid.as_str(), ").").as_str(),
                ),
            );
        }
    }
    Ok(())
}

/// What to do while waiting for a daemon that was started.
#[derive(Clone, Copy, Debug, PartialEq, Eq, Structural)]
pub enum WaitStep {
    Ready,
    Pause,
    GiveUp,
}

/// The next step of waiting: after the deadline it is given up, before it the daemon is ready as
/// soon as it answers.
pub fn wait_step(expired: bool, answers: bool) -> (r: WaitStep)
    ensures
        r == if expired {
            WaitStep::GiveUp
        } else if answers {
            WaitStep::Ready
        } else {
            WaitStep::Pause
        },
{
    if expired {
        WaitStep::GiveUp
    } else if answers {
        WaitStep::Ready
    } else {
        WaitStep::Pause
    }
}

/// The error for a daemon that was started and did not answer in time.
pub fn not_ready_error(log_path: &str) -> (r: AppError)
    ensures
        r.code == 1,
        r.message@ == "riffd did not become ready within 5s; check "@ + log_path@,
{
    app_error(1, concat("riffd did not become ready within 5s; check ", log_path).as_str())
}

/// The model of an optional integer: null where there is none.
pub open spec fn opt_int_tree(n: Option<i64>) -> Tree {
    match n {
        Some(v) => int_tree(v as int),
        None => Tree::Null,
    }
}

/// An optional integer: null where there is none.
pub fn opt_int_json(n: Option<i64>) -> (r: Json)
    ensures
        r@ == opt_int_tree(n),
{
    match n {
        Some(v) => int_json(v),
        None => Json::Null,
    }
}

/// What starting or stopping the daemon reports.
pub fn lifecycle_report(status: &str, daemon_pid: Option<i64>) -> (r: Json)
    ensures
        r@ == Tree::Object(
            object_of(
                seq![
                    ("ok"@, Tree::Bool(true)),
                    ("status"@, Tree::Text(status@)),
                    ("daemon_pid"@, opt_int_tree(daemon_pid)),
                ],
            ),
        ),
{
    let mut p = Pairs::new();
    p.flag("ok", true);
    p.text("status", status);
    p.add("daemon_pid", opt_int_json(daemon_pid));
    assert(p@ == seq![
        ("ok"@, Tree::Bool(true)),
        ("status"@, Tree::Text(status@)),
        ("daemon_pid"@, opt_int_tree(daemon_pid)),
    ]);
    p.object()
}

/// What is said of a daemon that runs. `state` says since when it does.
pub fn running_line(state: &str, pid: i64) -> (r: String)
    ensures
        r@ == "riffd "@ + state@ + " (pid="@ + signed_decimal(pid as int) + ")."@,
{
    let mut out = concat3("riffd ", state, " (pid=");
    out.append(signed_text(pid).as_str());
    out.append(").");
    out
}

/// What is said where no daemon runs.
pub const NOT_RUNNING: &'static str = "riffd is not running.";

/// What is said of a daemon that was stopped.
pub fn stopped_line(pid: i32, outcome: &str) -> (r: String)
    ensures
        r@ == "riffd stop: pid="@ + signed_decimal(pid as int) + " outcome="@ + outcome@,
{
    let mut out = concat3("riffd stop: pid=", signed_text(pid as i64).as_str(), " outcome=");
    out.append(outcome);
    out
}

/// What is said of a daemon that was asked how it is. The time that it has run is in seconds,
/// without decimals.
pub fn status_line(health: &Json, uptime: &str, socket: &str) -> (r: String)
    ensures
        r@ == "riffd running: pid="@ + signed_decimal(answer_pid_of(health@)) + " uptime="@
            + uptime@ + "s subscribers="@ + decimal(
            match unsigned_of(field(health@, "subscribers"@)) {
                Some(n) => n as nat,
                None => 0,
            },
        ) + " socket="@ + socket@,
{
    let subscribers: u64 = match health.get_u64("subscribers") {
        Some(n) => n,
        None => 0,
    };
    let mut out = concat3(
        "riffd running: pid=",
        signed_text(answer_pid(health)).as_str(),
        " uptime=",
    );
    out.append(uptime);
    out.append("s subscribers=");
    out.append(decimal_text(subscribers).as_str());
    out.append(" socket=");
    out.append(socket);
    out
}

/// What is said once the daemon listens.
pub fn listening_line(socket: &str) -> (r: String)
    ensures
        r@ == "riffd listening at "@ + socket@ + " — Ctrl-C to stop"@,
{
    concat3("riffd listening at ", socket, " — Ctrl-C to stop")
}

/// What the event stream is told of a daemon that was started.
pub fn daemon_started(socket: &str, root: &str) -> (r: Json)
    ensures
        r@ == Tree::Object(
            object_of(seq![("socket"@, Tree::Text(socket@)), ("root"@, Tree::Text(root@))]),
        ),
{
    let mut p = Pairs::new();
    p.text("socket", socket);
    p.text("root", root);
    assert(p@ == seq![("socket"@, Tree::Text(socket@)), ("root"@, Tree::Text(root@))]);
    p.object()
}

/// What the event stream is told of a daemon that was stopped.
pub fn daemon_stopped(root: &str) -> (r: Json)
    ensures
        r@ == Tree::Object(object_of(seq![("root"@, Tree::Text(root@))])),
{
    let mut p = Pairs::new();
    p.text("root", root);
    assert(p@ == seq![("root"@, Tree::Text(root@))]);
    p.object()
}

/// The status in a report on a server, else its outcome, else null.
pub open spec fn report_status(report: Tree) -> Tree {
    match field(report, "status"@) {
        Some(t) => t,
        None => match field(report, "outcome"@) {
            Some(t) => t,
            None => Tree::Null,
        },
    }
}

/// What the event stream is told once the transcription server was started ahead of its use.
pub fn daemon_preload(report: &Json) -> (r: Json)
    ensures
        r@ == Tree::Object(
            object_of(
                seq![
                    ("server"@, Tree::Text("parakeet"@)),
                    ("status"@, report_status(report@)),
                ],
            ),
        ),
{
    let status: Json = match report.get("status") {
        Some(j) => j.copy(),
        None => match report.get("outcome") {
            Some(j) => j.copy(),
            None => Json::Null,
        },
    };
    let mut p = Pairs::new();
    p.text("server", "parakeet");
    p.add("status", status);
    assert(p@ == seq![
        ("server"@, Tree::Text("parakeet"@)),
        ("status"@, report_status(report@)),
    ]);
    p.object()
}

/// The process to stop: the one that the pid file names, else the one that answers for this root.
pub fn stop_target(file_pid: Option<i32>, answered_pid: Option<i64>) -> (r: Option<i32>)
    ensures
        r == match file_pid {
            Some(p) => Some(p),
            None => match answered_pid {
                Some(p) => Some(p as i32),
                None => None,
            },
        },
{
    match file_pid {
        Some(p) => Some(p),
        None => match answered_pid {
            Some(p) => Some(
                #[verifier::truncate]
                (p as i32),
            ),
            None => None,
        },
    }
}

/// What `riff daemon status` reports and exits with: 0 where the daemon answers, else 1.
pub fn status_report(health: &Option<Json>) -> (r: (Json, i32))
    ensures
        match *health {
            Some(h) => r.1 == 0 && r.0@ == Tree::Object(
                object_of(
                    seq![("ok"@, Tree::Bool(true)), ("running"@, Tree::Bool(true)), ("health"@, h@)],
                ),
            ),
            None => r.1 == 1 && r.0@ == Tree::Object(
                object_of(seq![("ok"@, Tree::Bool(true)), ("running"@, Tree::Bool(false))]),
            ),
        },
{
    let mut p = Pairs::new();
    p.flag("ok", true);
    match health {
        Some(h) => {
            p.flag("running", true);
            p.add("health", h.copy());
            assert(p@ == seq![
                ("ok"@, Tree::Bool(true)),
                ("running"@, Tree::Bool(true)),
                ("health"@, h@),
            ]);
            (p.object(), 0)
        },
        None => {
            p.flag("running", false);
            assert(p@ == seq![("ok"@, Tree::Bool(true)), ("running"@, Tree::Bool(false))]);
            (p.object(), 1)
        },
    }
}

/// An event that another program has sent always goes by its sender, whatever its payload holds, and
/// no sender goes by the name of a command.
pub proof fn senders_are_always_named(e: Envelope, source: Seq<char>, payload: Tree, c: Commands)
    requires
        e.command == "external:"@ + source,
    ensures
        record_value(e, payload, "command"@) == Some(Tree::Text("external:"@ + source)),
        command_name(c) != "external:"@ + source,
{
    envelope_wins(e, payload);
    reveal_strlit("external:");
    reveal_strlit("start");
    reveal_strlit("shot");
    reveal_strlit("stop");
    reveal_strlit("toggle");
    reveal_strlit("fork");
    reveal_strlit("live");
    reveal_strlit("watch");
    reveal_strlit("chunk");
    reveal_strlit("pause");
    reveal_strlit("unpause");
    reveal_strlit("toggle-pause");
    reveal_strlit("setup");
    reveal_strlit("doctor");
    reveal_strlit("list");
    reveal_strlit("show");
    reveal_strlit("copy");
    reveal_strlit("send");
    reveal_strlit("send-images");
    reveal_strlit("html");
    reveal_strlit("screenshot-use");
    reveal_strlit("sounds");
    reveal_strlit("silence");
    reveal_strlit("loud");
    reveal_strlit("status");
    reveal_strlit("hooks");
    reveal_strlit("perf");
    reveal_strlit("watch-clipboard");
    reveal_strlit("watch-max-duration");
    reveal_strlit("kill-server");
    reveal_strlit("restart");
    reveal_strlit("daemon");
    reveal_strlit("emit");
    assert(("external:"@ + source)[1] == 'x');
    assert(command_name(c).len() > 1 && command_name(c)[1] != 'x');
}

/// A text of ASCII characters is an identifier where it is of one to sixty-four, begins with a letter,
/// and holds letters, digits, underscores, hyphens and dots.
pub proof fn identifiers_are_short_names(s: Seq<char>)
    requires
        is_ascii_chars(s),
        s.len() <= usize::MAX,
    ensures
        is_identifier(s) <==> 1 <= s.len() <= 64 && ('a' <= s[0] <= 'z' || 'A' <= s[0] <= 'Z') && (
        forall|i: int|
            0 <= i < s.len() ==> ('a' <= #[trigger] s[i] <= 'z' || 'A' <= s[i] <= 'Z' || '0' <= s[i]
                <= '9' || s[i] == '_' || s[i] == '-' || s[i] == '.')),
{
    is_ascii_chars_encode_utf8(s);
    if identifier_chars_ok(s) {
        assert forall|i: int| 0 <= i < s.len() implies ('a' <= #[trigger] s[i] <= 'z' || 'A' <= s[i]
            <= 'Z' || '0' <= s[i] <= '9' || s[i] == '_' || s[i] == '-' || s[i] == '.') by {
            assert(identifier_char(s[i]));
        }
    }
}

/// An event that is sent with a type alone comes from an unknown sender, at the level of information,
/// for no session and with an empty payload; what is sent with it counts.
pub proof fn sent_events_are_taken_as_they_are(body: Tree, v: ExternalView)
    requires
        body is Object,
        text_field(body, "type"@) == Some(v.event_type),
        is_identifier(v.event_type),
    ensures
        field(body, "source"@) is None && field(body, "level"@) is None && field(body, "session_id"@)
            is None && field(body, "payload"@) is None && is_identifier("unknown"@)
            ==> external_event(body) == Ok::<ExternalView, Seq<char>>(
            ExternalView {
                source: "unknown"@,
                level: "info"@,
                event_type: v.event_type,
                session_id: None,
                payload: Tree::Object(Seq::empty()),
            },
        ),
        field(body, "source"@) == Some(Tree::Text(v.source)) && is_identifier(v.source) && field(
            body,
            "level"@,
        ) == Some(Tree::Text(v.level)) && (v.level == "info"@ || v.level == "warn"@ || v.level
            == "error"@) && v.session_id is Some && field(body, "session_id"@) == Some(
            Tree::Text(v.session_id->0),
        ) && v.payload is Object && field(body, "payload"@) == Some(v.payload) ==> external_event(
            body,
        ) == Ok::<ExternalView, Seq<char>>(v),
        field(body, "payload"@) matches Some(Tree::Text(_)) ==> external_event(body) is Err,
        field(body, "payload"@) matches Some(Tree::List(_)) ==> external_event(body) is Err,
        field(body, "session_id"@) matches Some(Tree::Number(_)) ==> external_event(body) is Err,
        (field(body, "level"@) matches Some(Tree::Text(l)) && l != "info"@ && l != "warn"@ && l
            != "error"@) ==> external_event(body) is Err,
{
}

/// Without a type that is an identifier nothing is accepted.
pub proof fn untyped_events_are_refused(body: Tree)
    ensures
        text_field(body, "type"@) is None ==> external_event(body) is Err,
        !(body is Object) ==> external_event(body) is Err,
        (text_field(body, "type"@) matches Some(t) && !is_identifier(t)) ==> external_event(body)
            is Err,
        (field(body, "source"@) matches Some(Tree::Text(s)) && !is_identifier(s)) ==> external_event(
            body,
        ) is Err,
{
}

/// A list that is written with commas has the parts between them, in their order; empty ones do not
/// count.
pub proof fn lists_part_at_commas(first: Seq<char>, rest: Seq<char>)
    requires
        !first.contains(','),
    ensures
        first.len() > 0 ==> listed(first) == seq![first],
        first.len() > 0 ==> listed(first + seq![','] + rest) == seq![first] + listed(rest),
        first.len() == 0 ==> listed(first + seq![','] + rest) == listed(rest),
        listed(Seq::empty()).len() == 0,
{
    reveal(Seq::filter);
    reveal_strlit(",");
    let pat = ","@;
    assert(pat =~= seq![',']);
    let keep = |v: Seq<char>| v.len() > 0;
    let s = first + pat + rest;
    lemma_not_within(first, pat);
    lemma_one_piece(first, pat, pat);
    lemma_not_within(Seq::empty(), pat);
    lemma_one_piece(Seq::empty(), pat, pat);
    let one = seq![first];
    assert(one.drop_last() =~= Seq::empty());
    assert(one.drop_last().filter(keep) =~= Seq::empty());
    let none = seq![Seq::<char>::empty()];
    assert(none.drop_last() =~= Seq::empty());
    assert(none.drop_last().filter(keep) =~= Seq::empty());
    assert(none.filter(keep) =~= Seq::empty());
    lemma_find_from(s, pat, 0);
    let at = first.len() as int;
    assert(s.subrange(at, at + 1) =~= pat);
    assert(occurs_at(s, pat, at));
    assert forall|j: int| 0 <= j < at implies !#[trigger] occurs_at(s, pat, j) by {
        assert(s.subrange(j, j + 1)[0] == first[j]);
        assert(first.contains(first[j]));
    }
    assert(find(s, pat) == Some(at));
    texts_are_cut_at_the_first(first, pat, rest);
    lemma_filter_adds(one, split_of(rest, pat), keep);
    if first.len() > 0 {
        assert(one.filter(keep) =~= one);
    } else {
        assert(one.filter(keep) =~= Seq::empty());
        assert(Seq::<Seq<char>>::empty() + listed(rest) =~= listed(rest));
    }
}

proof fn lemma_not_within(s: Seq<char>, pat: Seq<char>)
    requires
        pat.len() == 1,
        !s.contains(pat[0]),
    ensures
        !contains(s, pat),
{
    if contains(s, pat) {
        let k = choose|k: int| #[trigger] occurs_at(s, pat, k);
        assert(s.subrange(k, k + 1)[0] == s[k]);
    }
}

proof fn lemma_filter_adds<A>(a: Seq<A>, b: Seq<A>, keep: spec_fn(A) -> bool)
    ensures
        (a + b).filter(keep) == a.filter(keep) + b.filter(keep),
    decreases b.len(),
{
    reveal(Seq::filter);
    if b.len() == 0 {
        assert(a + b =~= a);
    } else {
        lemma_filter_adds(a, b.drop_last(), keep);
        assert((a + b).drop_last() =~= a + b.drop_last());
        assert((a + b).last() == b.last());
    }
}

/// The parameters of a subscription add up where several may be asked for, and the last counts where
/// one may be; other parameters are passed over.
pub proof fn parameters_add_up(
    q: Seq<(Seq<char>, Seq<char>)>,
    name: Seq<char>,
    value: Seq<char>,
    key: Seq<char>,
)
    ensures
        ({
            let n = q.len() as int;
            let more = q.push((name, value));
            &&& name == key ==> listed_under(more, key, n + 1) == listed_under(q, key, n) + listed(
                value,
            )
            &&& name == key ==> last_under(more, key, n + 1) == Some(value)
            &&& name != key ==> listed_under(more, key, n + 1) == listed_under(q, key, n)
            &&& name != key ==> last_under(more, key, n + 1) == last_under(q, key, n)
            &&& listed_under(q, key, 0).len() == 0
            &&& last_under(q, key, 0) is None
        }),
{
    lemma_parameters_prefix(q, (name, value), key, q.len() as int);
    assert(q.push((name, value))[q.len() as int] == (name, value));
}

proof fn lemma_parameters_prefix(
    q: Seq<(Seq<char>, Seq<char>)>,
    last: (Seq<char>, Seq<char>),
    key: Seq<char>,
    n: int,
)
    requires
        0 <= n <= q.len(),
    ensures
        listed_under(q.push(last), key, n) == listed_under(q, key, n),
        last_under(q.push(last), key, n) == last_under(q, key, n),
    decreases n,
{
    if n > 0 {
        lemma_parameters_prefix(q, last, key, n - 1);
        assert(q.push(last)[n - 1] == q[n - 1]);
    }
}

/// The daemon is told apart by what it says of itself: it is the daemon, and it owns its own root and
/// no other.
pub proof fn daemons_know_themselves(d: Identity, root: Seq<char>)
    ensures
        is_riffd(Tree::Object(d.fields())),
        owns_root(Tree::Object(d.fields()), root) <==> root == d.root@,
        answer_pid_of(Tree::Object(d.fields())) == d.pid,
        text_field(Tree::Object(d.fields()), "socket"@) == Some(d.socket@),
        text_field(Tree::Object(d.fields()), "build_id"@) == Some(d.build_id@),
{
    reveal_strlit("service");
    reveal_strlit("protocol_version");
    reveal_strlit("pid");
    reveal_strlit("riff_root");
    reveal_strlit("version");
    reveal_strlit("build_id");
    reveal_strlit("started_at");
    reveal_strlit("socket");
    assert("service"@.len() == 7 && "protocol_version"@.len() == 16 && "pid"@.len() == 3);
    assert("riff_root"@.len() == 9 && "version"@.len() == 7 && "build_id"@.len() == 8);
    assert("started_at"@.len() == 10 && "socket"@.len() == 6);
    assert("service"@[0] == 's' && "version"@[0] == 'v');
    let p = seq![
        ("service"@, Tree::Text("riffd"@)),
        ("protocol_version"@, count_tree(PROTOCOL_VERSION as nat)),
        ("pid"@, count_tree(d.pid as nat)),
        ("riff_root"@, Tree::Text(d.root@)),
        ("version"@, Tree::Text(d.version@)),
        ("build_id"@, Tree::Text(d.build_id@)),
        ("started_at"@, Tree::Text(d.started_at@)),
        ("socket"@, Tree::Text(d.socket@)),
    ];
    pairs_read_back(p, 0);
    pairs_read_back(p, 2);
    pairs_read_back(p, 3);
    pairs_read_back(p, 5);
    pairs_read_back(p, 7);
}

/// The status of a report counts before its outcome.
pub proof fn statuses_count_before_outcomes(report: Tree)
    ensures
        field(report, "status"@) matches Some(t) ==> report_status(report) == t,
        field(report, "status"@) is None ==> (field(report, "outcome"@) matches Some(t)
            ==> report_status(report) == t),
        field(report, "status"@) is None && field(report, "outcome"@) is None ==> report_status(
            report,
        ) is Null,
{
}

/// What is wrong with an identifier is told in this order: its length, its first character, the others.
pub proof fn refused_identifiers_say_why(s: Seq<char>, what: Seq<char>)
    requires
        is_ascii_chars(s),
        s.len() <= usize::MAX,
    ensures
        s.len() == 0 || s.len() > 64 ==> identifier_complaint(s, what) == "Invalid "@ + what
            + ": must be 1-64 characters."@,
        1 <= s.len() <= 64 && !('a' <= s[0] <= 'z' || 'A' <= s[0] <= 'Z') ==> identifier_complaint(
            s,
            what,
        ) == "Invalid "@ + what + " '"@ + s + "': must start with a letter."@,
        1 <= s.len() <= 64 && ('a' <= s[0] <= 'z' || 'A' <= s[0] <= 'Z') ==> identifier_complaint(
            s,
            what,
        ) == "Invalid "@ + what + " '"@ + s + "': use letters, digits, '_', '-', '.'."@,
{
    is_ascii_chars_encode_utf8(s);
}

/// Of an event that is sent, the level is one of three and `info` where none is given, the session is a
/// text or none, and the payload an object or an empty one.
pub proof fn sent_fields_are_read_by_name(body: Tree)
    ensures
        field(body, "level"@) is None ==> level_of(body) == Ok::<Seq<char>, Seq<char>>(LEVEL_INFO@),
        text_field(body, "level"@) matches Some(s) ==> (if s == LEVEL_INFO@ || s == LEVEL_WARN@ || s
            == LEVEL_ERROR@ {
            level_of(body) == Ok::<Seq<char>, Seq<char>>(s)
        } else {
            level_of(body) == Err::<Seq<char>, Seq<char>>(
                "Invalid level '"@ + s + "': use info, warn, or error."@,
            )
        }),
        field(body, "session_id"@) is None ==> session_of(body) == Ok::<
            Option<Seq<char>>,
            Seq<char>,
        >(None),
        text_field(body, "session_id"@) matches Some(s) ==> session_of(body) == Ok::<
            Option<Seq<char>>,
            Seq<char>,
        >(Some(s)),
        field(body, "payload"@) is None ==> payload_of(body) == Ok::<Tree, Seq<char>>(
            Tree::Object(Seq::empty()),
        ),
        field(body, "payload"@) matches Some(Tree::Object(f)) ==> payload_of(body) == Ok::<
            Tree,
            Seq<char>,
        >(Tree::Object(f)),
        field(body, "payload"@) matches Some(Tree::List(_)) ==> payload_of(body) == Err::<
            Tree,
            Seq<char>,
        >("'payload' must be a JSON object."@),
        field(body, "session_id"@) matches Some(Tree::Bool(_)) ==> session_of(body) == Err::<
            Option<Seq<char>>,
            Seq<char>,
        >("'session_id' must be a string."@),
        field(body, "level"@) matches Some(Tree::Null) ==> level_of(body) == Err::<
            Seq<char>,
            Seq<char>,
        >("'level' must be a string."@),
{
}

/// A body that is no object, or has no type, is refused, and it is said why; so is a name that is none.
pub proof fn refused_bodies_say_why(body: Tree, fields: Seq<(Seq<char>, Tree)>, kind: Seq<char>)
    ensures
        !(body is Object) ==> external_event(body) == Err::<ExternalView, Seq<char>>(
            "Body must be a JSON object."@,
        ),
        text_field(Tree::Object(fields), "type"@) is None ==> external_event(Tree::Object(fields))
            == Err::<ExternalView, Seq<char>>("Missing required string field 'type'."@),
        text_field(Tree::Object(fields), "type"@) == Some(kind) && !is_identifier(kind)
            ==> external_event(Tree::Object(fields)) == Err::<ExternalView, Seq<char>>(
            identifier_complaint(kind, "event type"@),
        ),
        field(body, "source"@) is None ==> source_of(body) == Ok::<Seq<char>, Seq<char>>(
            "unknown"@,
        ),
        text_field(body, "source"@) matches Some(s) ==> source_of(body) == Ok::<
            Seq<char>,
            Seq<char>,
        >(s),
        field(body, "source"@) matches Some(Tree::Bool(_)) ==> source_of(body) == Err::<
            Seq<char>,
            Seq<char>,
        >("'source' must be a string."@),
{
}

/// What cannot be read is refused with the reason, and what is read is taken as it is.
pub proof fn unread_bodies_are_refused(
    reason: Seq<char>,
    value: Tree,
    taken: Result<ExternalEvent, String>,
    r: Result<Json, AppError>,
)
    ensures
        is_ingested(Err(reason), taken) ==> (taken matches Err(e) && e@ == "Body is not valid JSON: "@
            + reason),
        is_payload(Some(Err(reason)), r) ==> (r matches Err(e) && e.code == 2 && e.message@
            == "--data is not valid JSON: "@ + reason),
        is_payload(Some(Ok(value)), r) && value is Object ==> (r matches Ok(j) && j@ == value),
        is_payload(Some(Ok(value)), r) && !(value is Object) ==> (r matches Err(e) && e.code == 2
            && e.message@ == "--data must be a JSON object."@),
        is_payload(None, r) ==> (r matches Ok(j) && j@ == Tree::Object(Seq::empty())),
        is_ingested(Ok(value), taken) ==> (external_event(value) matches Ok(v) ==> (taken matches Ok(
            ev,
        ) && ev.command@ == "external:"@ + v.source && ev.level@ == v.level && ev.event_type@
            == v.event_type && ev.payload@ == v.payload)),
{
}

/// A daemon says what it is under these names.
pub proof fn daemons_say_what_they_are(d: Identity, identity: Tree, n: u64)
    ensures
        text_field(Tree::Object(d.fields()), "service"@) == Some("riffd"@),
        field(Tree::Object(d.fields()), "protocol_version"@) == Some(
            count_tree(PROTOCOL_VERSION as nat),
        ),
        text_field(Tree::Object(d.fields()), "riff_root"@) == Some(d.root@),
        text_field(Tree::Object(d.fields()), "version"@) == Some(d.version@),
        text_field(Tree::Object(d.fields()), "started_at"@) == Some(d.started_at@),
        field(Tree::Object(d.fields()), "pid"@) == Some(count_tree(d.pid as nat)),
        field(identity, "pid"@) is None ==> answer_pid_of(identity) == -1,
        is_riffd(identity) <==> text_field(identity, "service"@) == Some("riffd"@),
{
    reveal_strlit("service");
    reveal_strlit("protocol_version");
    reveal_strlit("pid");
    reveal_strlit("riff_root");
    reveal_strlit("version");
    reveal_strlit("build_id");
    reveal_strlit("started_at");
    reveal_strlit("socket");
    assert("service"@.len() == 7 && "protocol_version"@.len() == 16 && "pid"@.len() == 3);
    assert("riff_root"@.len() == 9 && "version"@.len() == 7 && "build_id"@.len() == 8);
    assert("started_at"@.len() == 10 && "socket"@.len() == 6);
    assert("service"@[0] == 's' && "version"@[0] == 'v');
    let p = seq![
        ("service"@, Tree::Text("riffd"@)),
        ("protocol_version"@, count_tree(PROTOCOL_VERSION as nat)),
        ("pid"@, count_tree(d.pid as nat)),
        ("riff_root"@, Tree::Text(d.root@)),
        ("version"@, Tree::Text(d.version@)),
        ("build_id"@, Tree::Text(d.build_id@)),
        ("started_at"@, Tree::Text(d.started_at@)),
        ("socket"@, Tree::Text(d.socket@)),
    ];
    pairs_read_back(p, 0);
    pairs_read_back(p, 1);
    pairs_read_back(p, 2);
    pairs_read_back(p, 3);
    pairs_read_back(p, 4);
    pairs_read_back(p, 6);
}

} // verus!
