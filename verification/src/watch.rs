//! Following the event bus: what is shown of an event, and which events are shown.

use vstd::prelude::*;

use crate::bus::EventFilters;
use crate::error::{app_error, AppError};
use crate::events::{is_reserved, reserved};
use crate::json::{field_views, lemma_tree, text_field, Json, Number, NumberView, Tree};
use crate::measure::Measure;
use crate::number::{
    all_digits, decimal, decimal_reads_back, decimal_text, digit_run, is_decimal, pad_left,
    pad_right, padded_left, padded_right, reads_as_decimal, signed_decimal, signed_text,
    two_digits_read_back,
};
use crate::pattern::{join, joined, views};
use crate::text::{
    chars_of, concat3, is_digit, lemma_already_trimmed, lemma_blank_is_trimmed, same, string_of,
    trim, trimmed,
};
use crate::wire::text_read;

verus! {

// ---------------------------------------------------------------------------------------------
// How far back
// ---------------------------------------------------------------------------------------------

/// How far back to look: a number as it was written, and the seconds of its unit.
pub struct Since {
    pub digits: String,
    pub unit_secs: u32,
}

/// The seconds of the unit that a last character stands for.
pub open spec fn unit_of(c: char) -> Option<u32> {
    if c == 's' || c == 'S' {
        Some(1)
    } else if c == 'm' || c == 'M' {
        Some(60)
    } else if c == 'h' || c == 'H' {
        Some(3600)
    } else if c == 'd' || c == 'D' {
        Some(86_400)
    } else {
        None
    }
}

/// The number and the unit of `30s`, `10m`, `2h`, `1d` or a bare number of seconds; nothing where
/// there is no number.
pub open spec fn since_of(raw: Seq<char>) -> Option<(Seq<char>, u32)> {
    let t = trimmed(raw);
    if t.len() == 0 {
        None
    } else {
        let (digits, unit) = match unit_of(t[t.len() - 1]) {
            Some(u) => (trimmed(t.subrange(0, t.len() - 1)), u),
            None => (trimmed(t), 1u32),
        };
        if is_decimal(digits) {
            Some((digits, unit))
        } else {
            None
        }
    }
}

/// The seconds of the unit that a last character stands for.
fn unit_secs(c: char) -> (r: Option<u32>)
    ensures
        r == unit_of(c),
{
    if c == 's' || c == 'S' {
        Some(1)
    } else if c == 'm' || c == 'M' {
        Some(60)
    } else if c == 'h' || c == 'H' {
        Some(3600)
    } else if c == 'd' || c == 'D' {
        Some(86_400)
    } else {
        None
    }
}

/// The number and the unit of `30s`, `10m`, `2h`, `1d` or a bare number of seconds. The number is
/// left as text: it may have a fraction. What it stands for is taken where `Since::takes` says so.
pub fn parse_since(raw: &str) -> (r: Option<Since>)
    ensures
        match since_of(raw@) {
            Some((digits, unit)) => r is Some && r->0.digits@ == digits && r->0.unit_secs == unit,
            None => r is None,
        },
{
    let t = chars_of(trim(raw).as_str());
    if t.len() == 0 {
        return None;
    }
    let n: usize = t.len();
    let since: Since = match unit_secs(t[n - 1]) {
        Some(unit) => {
            let digits = trim(string_of(&t, 0, n - 1).as_str());
            Since { digits, unit_secs: unit }
        },
        None => {
            assert(t@.subrange(0, n as int) == t@);
            let digits = trim(string_of(&t, 0, n).as_str());
            Since { digits, unit_secs: 1 }
        },
    };
    if reads_as_decimal(since.digits.as_str()) {
        Some(since)
    } else {
        None
    }
}

impl Since {
    /// Whether a span of this many units is taken: it must be finite and not negative.
    pub fn takes(&self, value: &Measure) -> (r: bool)
        ensures
            r == value.is_amount(),
    {
        value.amount()
    }
}

/// The error for a time span that cannot be read.
pub fn since_error(raw: &str) -> (r: AppError)
    ensures
        r.code == 2,
        r.message@ == "Invalid --since value '"@ + raw@
            + "'. Use forms like 30s, 10m, 2h, 1d."@,
{
    app_error(
        2,
        concat3("Invalid --since value '", raw, "'. Use forms like 30s, 10m, 2h, 1d.").as_str(),
    )
}

// ---------------------------------------------------------------------------------------------
// Which events
// ---------------------------------------------------------------------------------------------

/// Whether the session asked for is the active one.
pub open spec fn asks_for_active(arg: Seq<char>) -> bool {
    arg == "current"@ || arg == "active"@
}

/// The session to watch: the active one under `current` or `active`, which fails where none is,
/// else the one that is named.
pub fn watch_session(arg: Option<&str>, active: Option<&str>) -> (r: Result<
    Option<String>,
    AppError,
>)
    ensures
        match arg {
            None => r matches Ok(None),
            Some(a) => if asks_for_active(a@) {
                match active {
                    Some(id) => r matches Ok(Some(s)) && s@ == id@,
                    None => r matches Err(e) && e.code == 2 && e.message@
                        == "No active session for --session current."@,
                }
            } else {
                r matches Ok(Some(s)) && s@ == a@
            },
        },
{
    match arg {
        None => Ok(None),
        Some(a) => if same(a, "current") || same(a, "active") {
            match active {
                Some(id) => Ok(Some(id.to_owned())),
                None => Err(app_error(2, "No active session for --session current.")),
            }
        } else {
            Ok(Some(a.to_owned()))
        },
    }
}

/// Whether events of the past are shown before the bus is followed.
pub fn wants_backfill(all: bool, since: bool, tail: bool, once: bool) -> (r: bool)
    ensures
        r == (all || since || tail || once),
{
    all || since || tail || once
}

/// The pause between two looks at the bus, in milliseconds: never less than 50.
pub fn poll_interval_ms(poll_ms: u64) -> (r: u64)
    ensures
        r == if poll_ms < 50 {
            50
        } else {
            poll_ms
        },
{
    if poll_ms < 50 {
        50
    } else {
        poll_ms
    }
}

/// A line of the bus, and the event that it holds.
pub struct BusLine {
    pub event: Json,
    pub raw: String,
}

impl BusLine {
    /// The event and the line.
    pub open spec fn parts(self) -> (Tree, Seq<char>) {
        (self.event@, self.raw@)
    }
}

/// The events and the lines.
pub open spec fn line_views(v: Seq<BusLine>) -> Seq<(Tree, Seq<char>)> {
    v.map_values(|l: BusLine| l.parts())
}

/// The events that the filters let through, each with its line. A line that holds no event is
/// passed over.
pub open spec fn passed(f: EventFilters, lines: Seq<Seq<char>>) -> Seq<(Tree, Seq<char>)>
    decreases lines.len(),
{
    if lines.len() == 0 {
        Seq::empty()
    } else {
        let before = passed(f, lines.drop_last());
        match text_read(lines.last()) {
            Ok(t) => if f.lets_through(t, lines.last()) {
                before.push((t, lines.last()))
            } else {
                before
            },
            Err(_) => before,
        }
    }
}

/// The last `limit` members of `s`, or all where there is no limit.
pub open spec fn last_of<T>(s: Seq<T>, limit: Option<usize>) -> Seq<T> {
    match limit {
        Some(n) => if s.len() > n {
            s.subrange(s.len() - n, s.len() as int)
        } else {
            s
        },
        None => s,
    }
}

/// What is shown of the past: the events that the filters let through, and of these the last
/// `tail`.
pub fn backfill(filters: &EventFilters, lines: &Vec<String>, tail: Option<usize>) -> (r: Vec<
    BusLine,
>)
    ensures
        line_views(r@) == last_of(passed(*filters, views(lines@)), tail),
{
    let ghost all = views(lines@);
    let mut found: Vec<BusLine> = Vec::new();
    let mut i: usize = 0;
    assert(line_views(found@) =~= passed(*filters, all.subrange(0, 0)));
    while i < lines.len()
        invariant
            i <= lines.len(),
            all == views(lines@),
            line_views(found@) == passed(*filters, all.subrange(0, i as int)),
        decreases lines.len() - i,
    {
        let ghost before = found@;
        proof {
            assert(all.subrange(0, i + 1).drop_last() == all.subrange(0, i as int));
            assert(all.subrange(0, i + 1).last() == lines@[i as int]@);
        }
        if let Some(event) = filters.event_in(lines[i].as_str()) {
            let ghost t = event@;
            found.push(BusLine { event, raw: lines[i].clone() });
            assert(line_views(found@) == line_views(before).push((t, lines@[i as int]@)));
        }
        i = i + 1;
    }
    assert(all.subrange(0, all.len() as int) == all);
    if let Some(n) = tail {
        if found.len() > n {
            let ghost whole = found@;
            let skip: usize = found.len() - n;
            let last = found.split_off(skip);
            assert(line_views(last@) == line_views(whole).subrange(
                skip as int,
                whole.len() as int,
            ));
            return last;
        }
    }
    found
}

/// Events that are written later come later, whatever was written before them: the past is shown
/// piece by piece as it is shown at once.
pub proof fn the_past_is_shown_in_order(
    f: EventFilters,
    earlier: Seq<Seq<char>>,
    later: Seq<Seq<char>>,
)
    ensures
        passed(f, earlier + later) == passed(f, earlier) + passed(f, later),
    decreases later.len(),
{
    if later.len() == 0 {
        assert(earlier + later == earlier);
    } else {
        the_past_is_shown_in_order(f, earlier, later.drop_last());
        assert((earlier + later).drop_last() == earlier + later.drop_last());
        assert((earlier + later).last() == later.last());
    }
}

// ---------------------------------------------------------------------------------------------
// What is shown of an event
// ---------------------------------------------------------------------------------------------

/// A number as it is written.
pub open spec fn number_text_of(n: NumberView) -> Seq<char> {
    match n {
        NumberView::Unsigned(v) => decimal(v as nat),
        NumberView::Negative(v) => signed_decimal(v as int),
        NumberView::Float(_, t) => t,
    }
}

/// A boolean as it is written.
pub open spec fn bool_text_of(b: bool) -> Seq<char> {
    if b {
        "true"@
    } else {
        "false"@
    }
}

/// A number as it is written.
pub fn number_text(n: &Number) -> (r: String)
    ensures
        r@ == number_text_of(n@),
{
    match n {
        Number::Unsigned(v) => decimal_text(*v),
        Number::Negative(v) => signed_text(*v),
        Number::Float(_, t) => t.clone(),
    }
}

/// A boolean as it is written.
pub fn bool_text(b: bool) -> (r: String)
    ensures
        r@ == bool_text_of(b),
{
    if b {
        "true".to_owned()
    } else {
        "false".to_owned()
    }
}

/// A list, shown by how many members it has.
pub open spec fn list_mark(n: nat) -> Seq<char> {
    "["@ + decimal(n) + "]"@
}

/// Whether a field of an inner object is worth showing.
pub open spec fn inner_shown(t: Tree) -> bool {
    match t {
        Tree::Null => false,
        Tree::List(v) => v.len() > 0,
        Tree::Text(s) => s.len() > 0,
        _ => true,
    }
}

/// What is shown of the value of a field of an inner object.
pub open spec fn inner_value(t: Tree) -> Seq<char> {
    match t {
        Tree::Text(s) => s,
        Tree::Object(_) => "{…}"@,
        Tree::List(v) => list_mark(v.len()),
        Tree::Bool(b) => bool_text_of(b),
        Tree::Number(n) => number_text_of(n),
        Tree::Null => Seq::empty(),
    }
}

/// What is shown of a field of an inner object, where it is worth showing.
pub open spec fn inner_part(f: (Seq<char>, Tree)) -> Option<Seq<char>> {
    if inner_shown(f.1) {
        Some(f.0 + "="@ + inner_value(f.1))
    } else {
        None
    }
}

/// At most the first four of `s`.
pub open spec fn first_four(s: Seq<Seq<char>>) -> Seq<Seq<char>> {
    if s.len() > 4 {
        s.subrange(0, 4)
    } else {
        s
    }
}

/// What is shown of an inner object: its first four fields worth showing, in braces.
pub open spec fn inner_summary(fields: Seq<(Seq<char>, Tree)>) -> Seq<char> {
    let parts = first_four(fields.filter_map(|f: (Seq<char>, Tree)| inner_part(f)));
    if parts.len() == 0 {
        Seq::empty()
    } else {
        "{"@ + joined(parts, " "@) + "}"@
    }
}

/// What is shown of the value of a field of an event.
pub open spec fn detail_value(t: Tree) -> Seq<char> {
    match t {
        Tree::Null => Seq::empty(),
        Tree::Text(s) => s,
        Tree::Bool(b) => bool_text_of(b),
        Tree::Number(n) => number_text_of(n),
        Tree::List(v) => if v.len() == 0 {
            Seq::empty()
        } else {
            list_mark(v.len())
        },
        Tree::Object(f) => inner_summary(f),
    }
}

/// What is shown of a field of an event: nothing of the envelope and nothing that is empty.
pub open spec fn detail_part(f: (Seq<char>, Tree)) -> Option<Seq<char>> {
    if is_reserved(f.0) || detail_value(f.1).len() == 0 {
        None
    } else {
        Some(f.0 + "="@ + detail_value(f.1))
    }
}

/// The payload of an event in one line, as `key=value` pairs.
pub open spec fn description(t: Tree) -> Seq<char> {
    match t {
        Tree::Object(f) => joined(f.filter_map(|p: (Seq<char>, Tree)| detail_part(p)), " "@),
        _ => Seq::empty(),
    }
}

/// A list, shown by how many members it has.
fn list_text(n: usize) -> (r: String)
    ensures
        r@ == list_mark(n as nat),
{
    concat3("[", decimal_text(n as u64).as_str(), "]")
}

/// What is shown of a field of an inner object, where it is worth showing.
fn inner_field(key: &String, value: &Json) -> (r: Option<String>)
    ensures
        r matches Some(s) ==> inner_part((key@, value@)) == Some(s@),
        r is None ==> inner_part((key@, value@)) is None,
{
    proof {
        lemma_tree(*value);
    }
    let shown: String = match value {
        Json::Null => {
            return None;
        },
        Json::Text(s) => {
            if s.as_str().is_empty() {
                return None;
            }
            s.clone()
        },
        Json::Object(_) => "{…}".to_owned(),
        Json::List(v) => {
            if v.len() == 0 {
                return None;
            }
            list_text(v.len())
        },
        Json::Bool(b) => bool_text(*b),
        Json::Number(n) => number_text(n),
    };
    Some(concat3(key.as_str(), "=", shown.as_str()))
}

/// What is shown of an inner object: its first four fields worth showing, in braces.
pub fn summarize_object(fields: &Vec<(String, Json)>) -> (r: String)
    ensures
        r@ == inner_summary(field_views(fields@)),
{
    let ghost all = field_views(fields@);
    let ghost f = |p: (Seq<char>, Tree)| inner_part(p);
    let mut parts: Vec<String> = Vec::new();
    let mut i: usize = 0;
    proof {
        reveal(Seq::filter_map);
    }
    assert(views(parts@) =~= all.subrange(0, 0).filter_map(f));
    while i < fields.len()
        invariant
            i <= fields.len(),
            all == field_views(fields@),
            f == (|p: (Seq<char>, Tree)| inner_part(p)),
            views(parts@) == all.subrange(0, i as int).filter_map(f),
        decreases fields.len() - i,
    {
        let ghost before = parts@;
        proof {
            let next = all.subrange(0, i + 1);
            assert(next.drop_last() == all.subrange(0, i as int));
            assert(next.last() == (fields@[i as int].0@, fields@[i as int].1@));
            reveal(Seq::filter_map);
        }
        if let Some(part) = inner_field(&fields[i].0, &fields[i].1) {
            let ghost shown = part@;
            parts.push(part);
            assert(views(parts@) == views(before).push(shown));
            assert(views(parts@) =~= all.subrange(0, i + 1).filter_map(f));
        } else {
            assert(views(parts@) =~= all.subrange(0, i + 1).filter_map(f));
        }
        i = i + 1;
    }
    assert(all.subrange(0, all.len() as int) == all);
    let ghost found = views(parts@);
    if parts.len() > 4 {
        parts.truncate(4);
        assert(views(parts@) =~= found.subrange(0, 4));
    }
    if parts.len() == 0 {
        return String::new();
    }
    concat3("{", join(&parts, " ").as_str(), "}")
}

/// What is shown of the value of a field of an event.
fn detail_text(value: &Json) -> (r: String)
    ensures
        r@ == detail_value(value@),
{
    proof {
        lemma_tree(*value);
    }
    match value {
        Json::Null => String::new(),
        Json::Text(s) => s.clone(),
        Json::Bool(b) => bool_text(*b),
        Json::Number(n) => number_text(n),
        Json::List(v) => if v.len() == 0 {
            String::new()
        } else {
            list_text(v.len())
        },
        Json::Object(f) => summarize_object(f),
    }
}

/// The payload of an event in one line, as `key=value` pairs.
pub fn describe(event: &Json) -> (r: String)
    ensures
        r@ == description(event@),
{
    proof {
        lemma_tree(*event);
    }
    match event {
        Json::Object(fields) => {
            let ghost all = field_views(fields@);
            let ghost f = |p: (Seq<char>, Tree)| detail_part(p);
            let mut parts: Vec<String> = Vec::new();
            let mut i: usize = 0;
            proof {
                reveal(Seq::filter_map);
            }
            assert(views(parts@) =~= all.subrange(0, 0).filter_map(f));
            while i < fields.len()
                invariant
                    i <= fields.len(),
                    all == field_views(fields@),
                    f == (|p: (Seq<char>, Tree)| detail_part(p)),
                    views(parts@) == all.subrange(0, i as int).filter_map(f),
                decreases fields.len() - i,
            {
                let ghost before = parts@;
                proof {
                    let next = all.subrange(0, i + 1);
                    assert(next.drop_last() == all.subrange(0, i as int));
                    assert(next.last() == (fields@[i as int].0@, fields@[i as int].1@));
                    reveal(Seq::filter_map);
                }
                let shown = detail_text(&fields[i].1);
                if !reserved(fields[i].0.as_str()) && !shown.as_str().is_empty() {
                    let part = concat3(fields[i].0.as_str(), "=", shown.as_str());
                    let ghost text = part@;
                    parts.push(part);
                    assert(views(parts@) == views(before).push(text));
                }
                assert(views(parts@) =~= all.subrange(0, i + 1).filter_map(f));
                i = i + 1;
            }
            assert(all.subrange(0, all.len() as int) == all);
            join(&parts, " ")
        },
        _ => String::new(),
    }
}

/// A time of day on the wall clock.
pub struct ClockTime {
    pub hour: u32,
    pub minute: u32,
    pub second: u32,
    pub milli: u32,
}

/// A time of day as `HH:MM:SS.mmm`.
pub open spec fn clock_of(t: ClockTime) -> Seq<char> {
    padded_left(decimal(t.hour as nat), '0', 2) + ":"@ + padded_left(
        decimal(t.minute as nat),
        '0',
        2,
    ) + ":"@ + padded_left(decimal(t.second as nat), '0', 2) + "."@ + padded_left(
        decimal(t.milli as nat),
        '0',
        3,
    )
}

/// A time of day as `HH:MM:SS.mmm`, or dashes where there is none.
pub fn clock_text(t: &Option<ClockTime>) -> (r: String)
    ensures
        r@ == match *t {
            Some(c) => clock_of(c),
            None => "--:--:--.---"@,
        },
{
    match t {
        Some(c) => {
            let mut out = pad_left(decimal_text(c.hour as u64).as_str(), '0', 2);
            out.append(":");
            out.append(pad_left(decimal_text(c.minute as u64).as_str(), '0', 2).as_str());
            out.append(":");
            out.append(pad_left(decimal_text(c.second as u64).as_str(), '0', 2).as_str());
            out.append(".");
            out.append(pad_left(decimal_text(c.milli as u64).as_str(), '0', 3).as_str());
            out
        },
        None => "--:--:--.---".to_owned(),
    }
}

/// The text of a field, or `other` where there is none.
pub open spec fn text_or(t: Tree, key: Seq<char>, other: Seq<char>) -> Seq<char> {
    match text_field(t, key) {
        Some(s) => s,
        None => other,
    }
}

/// The text of a field, or `other` where there is none.
pub fn get_text_or(t: &Json, key: &str, other: &str) -> (r: String)
    ensures
        r@ == text_or(t@, key@, other@),
{
    match t.get_text(key) {
        Some(s) => s.clone(),
        None => other.to_owned(),
    }
}

/// The colour in which the type of an event of this level is shown.
pub open spec fn level_color(level: Seq<char>) -> Seq<char> {
    if level == "error"@ {
        "\x1b[31m"@
    } else if level == "warn"@ {
        "\x1b[33m"@
    } else {
        "\x1b[32m"@
    }
}

/// The line in which an event is shown.
pub open spec fn event_line(ts: Seq<char>, event: Tree, color: bool) -> Seq<char> {
    let command = padded_right(text_or(event, "command"@, "-"@), 16);
    let kind = padded_right(text_or(event, "type"@, "-"@), 28);
    let session = padded_right(text_or(event, "session_id"@, ""@), 15);
    let detail = description(event);
    if color {
        "\x1b[2m"@ + ts + "\x1b[0m  \x1b[36m"@ + command + "\x1b[0m "@ + level_color(
            text_or(event, "level"@, "info"@),
        ) + kind + "\x1b[0m \x1b[2m"@ + session + "\x1b[0m "@ + detail
    } else {
        ts + "  "@ + command + " "@ + kind + " "@ + session + " "@ + detail
    }
}

/// The line in which an event is shown.
pub fn render_line(ts: &str, event: &Json, color: bool) -> (r: String)
    ensures
        r@ == event_line(ts@, event@, color),
{
    let command = pad_right(get_text_or(event, "command", "-").as_str(), 16);
    let kind = pad_right(get_text_or(event, "type", "-").as_str(), 28);
    let session = pad_right(get_text_or(event, "session_id", "").as_str(), 15);
    let detail = describe(event);
    if color {
        let level = get_text_or(event, "level", "info");
        let type_color: &str = if same(level.as_str(), "error") {
            "\x1b[31m"
        } else if same(level.as_str(), "warn") {
            "\x1b[33m"
        } else {
            "\x1b[32m"
        };
        let mut out = "\x1b[2m".to_owned();
        out.append(ts);
        out.append("\x1b[0m  \x1b[36m");
        out.append(command.as_str());
        out.append("\x1b[0m ");
        out.append(type_color);
        out.append(kind.as_str());
        out.append("\x1b[0m \x1b[2m");
        out.append(session.as_str());
        out.append("\x1b[0m ");
        out.append(detail.as_str());
        out
    } else {
        let mut out = ts.to_owned();
        out.append("  ");
        out.append(command.as_str());
        out.append(" ");
        out.append(kind.as_str());
        out.append(" ");
        out.append(session.as_str());
        out.append(" ");
        out.append(detail.as_str());
        out
    }
}

/// The description of an event never shows a field of its envelope: it is that of the payload
/// alone.
pub proof fn description_skips_envelope(fields: Seq<(Seq<char>, Tree)>)
    ensures
        description(Tree::Object(fields)) == description(
            Tree::Object(fields.filter(|p: (Seq<char>, Tree)| !is_reserved(p.0))),
        ),
    decreases fields.len(),
{
    lemma_parts_skip_envelope(fields);
}

proof fn lemma_parts_skip_envelope(fields: Seq<(Seq<char>, Tree)>)
    ensures
        fields.filter_map(|p: (Seq<char>, Tree)| detail_part(p)) == fields.filter(
            |p: (Seq<char>, Tree)| !is_reserved(p.0),
        ).filter_map(|p: (Seq<char>, Tree)| detail_part(p)),
    decreases fields.len(),
{
    let keep = |p: (Seq<char>, Tree)| !is_reserved(p.0);
    let part = |p: (Seq<char>, Tree)| detail_part(p);
    reveal(Seq::filter);
    reveal(Seq::filter_map);
    if fields.len() > 0 {
        let front = fields.drop_last();
        lemma_parts_skip_envelope(front);
        if keep(fields.last()) {
            let kept = fields.filter(keep);
            assert(kept =~= front.filter(keep).push(fields.last()));
            assert(kept.drop_last() =~= front.filter(keep));
            assert(kept.filter_map(part) =~= fields.filter_map(part));
        } else {
            assert(fields.filter(keep) =~= front.filter(keep));
            assert(detail_part(fields.last()) is None);
            assert(fields.filter_map(part) =~= front.filter_map(part));
        }
    }
}

// ---------------------------------------------------------------------------------------------
// What is read and what is shown
// ---------------------------------------------------------------------------------------------

proof fn lemma_digits_are_decimal(n: nat)
    ensures
        is_decimal(decimal(n)),
{
    let d = decimal(n);
    decimal_reads_back(n);
    assert(is_digit(d[0]));
    lemma_digit_run(d, 0);
}

proof fn lemma_digit_run(s: Seq<char>, i: int)
    requires
        all_digits(s),
        0 <= i <= s.len(),
    ensures
        digit_run(s, i) == s.len(),
    decreases s.len() - i,
{
    if i < s.len() {
        assert(is_digit(s[i]));
        lemma_digit_run(s, i + 1);
    }
}

/// A number is a span of seconds, minutes, hours or days by the letter behind it, and of seconds
/// where there is none.
pub proof fn spans_go_by_their_letter(n: nat, c: char)
    ensures
        since_of(decimal(n)) == Some((decimal(n), 1u32)),
        c == 's' || c == 'S' ==> since_of(decimal(n).push(c)) == Some((decimal(n), 1u32)),
        c == 'm' || c == 'M' ==> since_of(decimal(n).push(c)) == Some((decimal(n), 60u32)),
        c == 'h' || c == 'H' ==> since_of(decimal(n).push(c)) == Some((decimal(n), 3600u32)),
        c == 'd' || c == 'D' ==> since_of(decimal(n).push(c)) == Some((decimal(n), 86400u32)),
        since_of(Seq::empty()) is None,
{
    let d = decimal(n);
    decimal_reads_back(n);
    lemma_digits_are_decimal(n);
    assert(is_digit(d[0]));
    assert(is_digit(d[d.len() - 1]));
    lemma_already_trimmed(d);
    lemma_blank_is_trimmed(Seq::empty());
    if unit_of(c) is Some {
        let s = d.push(c);
        assert(s[0] == d[0]);
        lemma_already_trimmed(s);
        assert(s.subrange(0, s.len() - 1) =~= d);
    }
}

/// A limit keeps the last ones.
pub proof fn limits_keep_the_last<T>(earlier: Seq<T>, later: Seq<T>)
    requires
        later.len() <= usize::MAX,
    ensures
        last_of(earlier + later, Some(later.len() as usize)) == later,
        last_of(earlier, None) == earlier,
{
    let s = earlier + later;
    assert(s.subrange(s.len() - later.len(), s.len() as int) =~= later);
    if earlier.len() == 0 {
        assert(s =~= later);
    }
}

/// A field of the payload is shown behind those before it, as its key, an equals sign and its value;
/// what is empty and what belongs to the envelope is not.
pub proof fn fields_are_described_in_order(
    fields: Seq<(Seq<char>, Tree)>,
    key: Seq<char>,
    text: Seq<char>,
    members: Seq<Tree>,
    on: bool,
)
    ensures
        ({
            let before = description(Tree::Object(fields));
            let sep = if before.len() == 0 {
                Seq::empty()
            } else {
                " "@
            };
            &&& !is_reserved(key) && text.len() > 0 ==> description(
                Tree::Object(fields.push((key, Tree::Text(text)))),
            ) == before + sep + (key + "="@ + text)
            &&& !is_reserved(key) ==> description(
                Tree::Object(fields.push((key, Tree::Bool(on)))),
            ) == before + sep + (key + "="@ + (if on {
                "true"@
            } else {
                "false"@
            }))
            &&& !is_reserved(key) && members.len() > 0 ==> description(
                Tree::Object(fields.push((key, Tree::List(members)))),
            ) == before + sep + (key + "="@ + ("["@ + decimal(members.len()) + "]"@))
            &&& description(Tree::Object(fields.push((key, Tree::Null)))) == before
            &&& description(Tree::Object(fields.push((key, Tree::Text(Seq::empty()))))) == before
            &&& is_reserved(key) ==> description(
                Tree::Object(fields.push((key, Tree::Text(text)))),
            ) == before
        }),
{
    reveal_strlit("true");
    reveal_strlit("false");
    reveal_strlit("[");
    lemma_described_push(fields, (key, Tree::Text(text)));
    lemma_described_push(fields, (key, Tree::Bool(on)));
    lemma_described_push(fields, (key, Tree::List(members)));
    lemma_described_push(fields, (key, Tree::Null));
    lemma_described_push(fields, (key, Tree::Text(Seq::empty())));
    assert(bool_text_of(on).len() > 0);
    assert(list_mark(members.len()).len() > 0);
}

proof fn lemma_described_push(fields: Seq<(Seq<char>, Tree)>, f: (Seq<char>, Tree))
    ensures
        ({
            let before = description(Tree::Object(fields));
            let after = description(Tree::Object(fields.push(f)));
            match detail_part(f) {
                Some(part) => after == before + (if before.len() == 0 {
                    Seq::empty()
                } else {
                    " "@
                }) + part,
                None => after == before,
            }
        }),
{
    reveal(Seq::filter_map);
    reveal_strlit("=");
    let g = |p: (Seq<char>, Tree)| detail_part(p);
    let more = fields.push(f);
    assert(more.drop_last() =~= fields);
    assert(more.last() == f);
    let parts = fields.filter_map(g);
    lemma_parts_are_filled(fields);
    let before = joined(parts, " "@);
    match detail_part(f) {
        Some(part) => {
            assert(more.filter_map(g) == parts.push(part));
            assert(parts.push(part).drop_last() =~= parts);
            if parts.len() > 0 {
                lemma_joined_filled(parts);
            } else {
                assert(before =~= Seq::empty());
                assert(before + Seq::<char>::empty() + part =~= part);
            }
        },
        None => {
            assert(more.filter_map(g) == parts);
        },
    }
}

/// Whether none of `parts` is empty.
spec fn all_filled(parts: Seq<Seq<char>>) -> bool {
    forall|i: int| 0 <= i < parts.len() ==> (#[trigger] parts[i]).len() > 0
}

proof fn lemma_joined_filled(parts: Seq<Seq<char>>)
    requires
        parts.len() > 0,
        all_filled(parts),
    ensures
        joined(parts, " "@).len() > 0,
{
    assert(parts[parts.len() - 1].len() > 0);
}

proof fn lemma_parts_are_filled(fields: Seq<(Seq<char>, Tree)>)
    ensures
        all_filled(fields.filter_map(|p: (Seq<char>, Tree)| detail_part(p))),
    decreases fields.len(),
{
    reveal(Seq::filter_map);
    reveal_strlit("=");
    if fields.len() > 0 {
        lemma_parts_are_filled(fields.drop_last());
    }
}

/// Of an inner object the first four fields show, in braces; a fifth does not.
pub proof fn four_inner_fields_show(
    a: (Seq<char>, Seq<char>),
    b: (Seq<char>, Seq<char>),
    c: (Seq<char>, Seq<char>),
    d: (Seq<char>, Seq<char>),
    e: (Seq<char>, Tree),
)
    requires
        a.1.len() > 0,
        b.1.len() > 0,
        c.1.len() > 0,
        d.1.len() > 0,
    ensures
        inner_summary(seq![(a.0, Tree::Text(a.1))]) == "{"@ + (a.0 + "="@ + a.1) + "}"@,
        inner_summary(
            seq![
                (a.0, Tree::Text(a.1)),
                (b.0, Tree::Text(b.1)),
                (c.0, Tree::Text(c.1)),
                (d.0, Tree::Text(d.1)),
                e,
            ],
        ) == "{"@ + ((a.0 + "="@ + a.1) + " "@ + (b.0 + "="@ + b.1) + " "@ + (c.0 + "="@ + c.1)
            + " "@ + (d.0 + "="@ + d.1)) + "}"@,
        inner_summary(Seq::empty()).len() == 0,
{
    reveal(Seq::filter_map);
    let f = |p: (Seq<char>, Tree)| inner_part(p);
    let s0 = Seq::<(Seq<char>, Tree)>::empty();
    let s1 = s0.push((a.0, Tree::Text(a.1)));
    let s2 = s1.push((b.0, Tree::Text(b.1)));
    let s3 = s2.push((c.0, Tree::Text(c.1)));
    let s4 = s3.push((d.0, Tree::Text(d.1)));
    let s5 = s4.push(e);
    let p1 = a.0 + "="@ + a.1;
    let p2 = b.0 + "="@ + b.1;
    let p3 = c.0 + "="@ + c.1;
    let p4 = d.0 + "="@ + d.1;
    assert(s0.filter_map(f) =~= Seq::empty());
    assert(s1.drop_last() =~= s0);
    assert(s2.drop_last() =~= s1);
    assert(s3.drop_last() =~= s2);
    assert(s4.drop_last() =~= s3);
    assert(s5.drop_last() =~= s4);
    assert(s1.filter_map(f) =~= seq![p1]);
    assert(s2.filter_map(f) =~= seq![p1, p2]);
    assert(s3.filter_map(f) =~= seq![p1, p2, p3]);
    assert(s4.filter_map(f) =~= seq![p1, p2, p3, p4]);
    let shown = first_four(s5.filter_map(f));
    assert(shown =~= seq![p1, p2, p3, p4]);
    assert(s5 =~= seq![
        (a.0, Tree::Text(a.1)),
        (b.0, Tree::Text(b.1)),
        (c.0, Tree::Text(c.1)),
        (d.0, Tree::Text(d.1)),
        e,
    ]);
    assert(s1 =~= seq![(a.0, Tree::Text(a.1))]);
    let j1 = seq![p1];
    let j2 = seq![p1, p2];
    let j3 = seq![p1, p2, p3];
    let j4 = seq![p1, p2, p3, p4];
    assert(j2.drop_last() =~= j1);
    assert(j3.drop_last() =~= j2);
    assert(j4.drop_last() =~= j3);
    assert(joined(j1, " "@) == p1);
    assert(joined(j2, " "@) == p1 + " "@ + p2);
    assert(joined(j3, " "@) == p1 + " "@ + p2 + " "@ + p3);
    assert(joined(j4, " "@) == p1 + " "@ + p2 + " "@ + p3 + " "@ + p4);
}

/// A time of day reads back from the clock: hours, minutes and seconds with two digits each.
pub proof fn clocks_read_back(t: ClockTime)
    requires
        t.hour < 24,
        t.minute < 60,
        t.second < 60,
    ensures
        ({
            let s = clock_of(t);
            let two = |i: int| (s[i] as u32 - '0' as u32) * 10 + (s[i + 1] as u32 - '0' as u32);
            &&& s[2] == ':' && s[5] == ':' && s[8] == '.'
            &&& two(0) == t.hour && two(3) == t.minute && two(6) == t.second
            &&& s.subrange(9, s.len() as int) == padded_left(decimal(t.milli as nat), '0', 3)
        }),
{
    reveal_strlit(":");
    reveal_strlit(".");
    two_digits_read_back(t.hour as nat);
    two_digits_read_back(t.minute as nat);
    two_digits_read_back(t.second as nat);
    let s = clock_of(t);
    assert(s.subrange(9, s.len() as int) =~= padded_left(decimal(t.milli as nat), '0', 3));
}

/// A line shows the time, the command, the type, the session and the payload of an event, in columns
/// and in this order. With colours the order is the same, and the type has the colour of the level.
pub proof fn lines_show_events_in_columns(
    ts: Seq<char>,
    event: Tree,
    command: Seq<char>,
    kind: Seq<char>,
    session: Seq<char>,
)
    requires
        text_field(event, "command"@) == Some(command),
        text_field(event, "type"@) == Some(kind),
        text_field(event, "session_id"@) == Some(session),
    ensures
        event_line(ts, event, false) == ts + "  "@ + padded_right(command, 16) + " "@
            + padded_right(kind, 28) + " "@ + padded_right(session, 15) + " "@ + description(event),
        ({
            let paint = if text_field(event, "level"@) == Some("error"@) {
                "\x1b[31m"@
            } else if text_field(event, "level"@) == Some("warn"@) {
                "\x1b[33m"@
            } else {
                "\x1b[32m"@
            };
            event_line(ts, event, true) == "\x1b[2m"@ + ts + "\x1b[0m  \x1b[36m"@ + padded_right(
                command,
                16,
            ) + "\x1b[0m "@ + paint + padded_right(kind, 28) + "\x1b[0m \x1b[2m"@ + padded_right(
                session,
                15,
            ) + "\x1b[0m "@ + description(event)
        }),
{
    reveal_strlit("info");
    reveal_strlit("error");
    reveal_strlit("warn");
    assert("info"@[0] == 'i' && "warn"@[0] == 'w' && "error"@[0] == 'e');
}

/// Two words ask for the session that runs.
pub proof fn two_words_ask_for_the_running_session(arg: Seq<char>)
    ensures
        asks_for_active("current"@),
        asks_for_active("active"@),
        arg != "current"@ && arg != "active"@ ==> !asks_for_active(arg),
{
}

/// Of an inner field a flag, a number and an object always show, a list where it has members, and what
/// is empty does not.
pub proof fn inner_fields_show_unless_empty(
    key: Seq<char>,
    on: bool,
    n: NumberView,
    members: Seq<Tree>,
    inner: Seq<(Seq<char>, Tree)>,
)
    ensures
        inner_part((key, Tree::Bool(on))) == Some(key + "="@ + (if on {
            "true"@
        } else {
            "false"@
        })),
        inner_part((key, Tree::Number(n))) == Some(key + "="@ + number_text_of(n)),
        inner_part((key, Tree::Object(inner))) == Some(key + "="@ + "{…}"@),
        members.len() > 0 ==> inner_part((key, Tree::List(members))) == Some(
            key + "="@ + ("["@ + decimal(members.len()) + "]"@),
        ),
        members.len() == 0 ==> inner_part((key, Tree::List(members))) is None,
        inner_part((key, Tree::Null)) is None,
        inner_part((key, Tree::Text(Seq::empty()))) is None,
        detail_part((key, Tree::Null)) is None,
        !is_reserved(key) ==> detail_part((key, Tree::Bool(on))) == Some(key + "="@ + (if on {
            "true"@
        } else {
            "false"@
        })),
        !is_reserved(key) && number_text_of(n).len() > 0 ==> detail_part((key, Tree::Number(n)))
            == Some(key + "="@ + number_text_of(n)),
        !is_reserved(key) && inner_summary(inner).len() > 0 ==> detail_part(
            (key, Tree::Object(inner)),
        ) == Some(key + "="@ + inner_summary(inner)),
{
    reveal_strlit("true");
    reveal_strlit("false");
}

/// A line of the past is shown where it can be read and is asked for, and no other.
pub proof fn past_lines_are_shown_where_asked_for(f: EventFilters, line: Seq<char>)
    ensures
        text_read(line) matches Ok(t) ==> (f.lets_through(t, line) ==> passed(f, seq![line]) == seq![
            (t, line),
        ]),
        text_read(line) matches Ok(t) ==> (!f.lets_through(t, line) ==> passed(f, seq![line]).len()
            == 0),
        text_read(line) is Err ==> passed(f, seq![line]).len() == 0,
        passed(f, Seq::empty()).len() == 0,
{
    let one = seq![line];
    assert(one.drop_last() =~= Seq::empty());
    assert(one.last() == line);
    reveal_with_fuel(passed, 2);
    assert(passed(f, one.drop_last()) =~= Seq::empty());
}

/// An event that does not say from what command it is, or of what type, is shown with a dash.
pub proof fn unknown_columns_show_a_dash(ts: Seq<char>, event: Tree)
    requires
        text_field(event, "command"@) is None,
        text_field(event, "type"@) is None,
        text_field(event, "session_id"@) is None,
    ensures
        event_line(ts, event, false) == ts + "  "@ + padded_right("-"@, 16) + " "@ + padded_right(
            "-"@,
            28,
        ) + " "@ + padded_right(Seq::empty(), 15) + " "@ + description(event),
{
    reveal_strlit("");
    assert(""@ =~= Seq::empty());
}

} // verus!
