//! Timings of past commands.

use vstd::prelude::*;

use crate::history::{get_number, number_field};
use crate::json::{
    count_tree, field, field_views, item_views, lemma_tree, measure_of, object_of, pairs_read_back,
    str_view, text_field, Json, Number, Pairs, Tree,
};
use crate::measure::Measure;
use crate::number::{decimal, decimal_text};
use crate::text::{concat3, same};

verus! {

/// Whether a record is of this action.
pub open spec fn is_action(event: Tree, action: Seq<char>) -> bool {
    text_field(event, "action"@) == Some(action)
}

/// Whether a record is of this action.
fn has_action(event: &Json, action: &str) -> (r: bool)
    ensures
        r == is_action(event@, action@),
{
    match event.get_text("action") {
        Some(a) => same(a.as_str(), action),
        None => false,
    }
}

/// Whether a record counts into the totals of an action. A cold start of the transcription server
/// counts where the server got ready.
pub open spec fn is_counted(event: Tree, action: Seq<char>) -> bool {
    &&& is_action(event, action)
    &&& action == "parakeet_server_startup"@ ==> text_field(event, "status"@) == Some("ready"@)
}

/// `s`, in ascending order, with `m` put behind what is not larger.
pub open spec fn insert_measure(s: Seq<Measure>, m: Measure) -> Seq<Measure>
    decreases s.len(),
{
    if s.len() == 0 || s.last().key() <= m.key() {
        s.push(m)
    } else {
        insert_measure(s.drop_last(), m).push(s.last())
    }
}

/// The totals of the first `n` records of an action, in ascending order.
pub open spec fn totals_of(events: Seq<Tree>, action: Seq<char>, n: int) -> Seq<Measure>
    decreases n,
{
    if n <= 0 {
        Seq::empty()
    } else {
        let before = totals_of(events, action, n - 1);
        match number_field(events[n - 1], "total_ms"@) {
            Some(total) if is_counted(events[n - 1], action) => insert_measure(
                before,
                measure_of(total),
            ),
            _ => before,
        }
    }
}

/// Puts `m` behind what is not larger.
fn put_measure(v: &mut Vec<Measure>, m: Measure)
    ensures
        final(v)@ == insert_measure(old(v)@, m),
{
    let ghost all = v@;
    let mut n: usize = v.len();
    assert(all.subrange(0, n as int) =~= all);
    assert(insert_measure(all, m) =~= insert_measure(all, m) + all.subrange(n as int, n as int));
    while n > 0 && m.less(&v[n - 1])
        invariant
            n <= v.len(),
            v@ == all,
            insert_measure(all, m) == insert_measure(all.subrange(0, n as int), m) + all.subrange(
                n as int,
                all.len() as int,
            ),
        decreases n,
    {
        proof {
            let s = all.subrange(0, n as int);
            assert(s.last() == all[n - 1]);
            assert(s.drop_last() =~= all.subrange(0, n - 1));
            assert(insert_measure(s.drop_last(), m).push(s.last()) + all.subrange(
                n as int,
                all.len() as int,
            ) =~= insert_measure(s.drop_last(), m) + all.subrange(n - 1, all.len() as int));
        }
        n = n - 1;
    }
    proof {
        let s = all.subrange(0, n as int);
        if n > 0 {
            assert(s.last() == all[n - 1]);
        }
        assert(insert_measure(s, m) == s.push(m));
        assert(s.push(m) + all.subrange(n as int, all.len() as int) =~= all.insert(n as int, m));
    }
    v.insert(n, m);
}

/// The totals of the records of an action, in ascending order.
pub fn sorted_totals(events: &Vec<Json>, action: &str) -> (r: Vec<Measure>)
    ensures
        r@ == totals_of(item_views(events@), action@, events@.len() as int),
{
    let ghost all = item_views(events@);
    let startup = same(action, "parakeet_server_startup");
    let mut out: Vec<Measure> = Vec::new();
    let mut i: usize = 0;
    while i < events.len()
        invariant
            i <= events.len(),
            all == item_views(events@),
            startup == (action@ == "parakeet_server_startup"@),
            out@ == totals_of(all, action@, i as int),
        decreases events.len() - i,
    {
        let event = &events[i];
        assert(all[i as int] == event@);
        let ready = match event.get_text("status") {
            Some(s) => same(s.as_str(), "ready"),
            None => false,
        };
        if has_action(event, action) && (!startup || ready) {
            if let Some(total) = get_number(event, "total_ms") {
                put_measure(&mut out, total.measure());
            }
        }
        i = i + 1;
    }
    out
}

/// Whether quantities are in ascending order.
pub open spec fn ascending(s: Seq<Measure>) -> bool {
    forall|i: int, j: int| 0 <= i < j < s.len() ==> s[i].key() <= s[j].key()
}

proof fn lemma_insert_measure(s: Seq<Measure>, m: Measure)
    requires
        ascending(s),
    ensures
        ascending(insert_measure(s, m)),
        insert_measure(s, m).len() == s.len() + 1,
        forall|k: int|
            0 <= k < insert_measure(s, m).len() ==> (#[trigger] insert_measure(s, m)[k]) == m
                || s.contains(insert_measure(s, m)[k]),
    decreases s.len(),
{
    let r = insert_measure(s, m);
    if s.len() == 0 || s.last().key() <= m.key() {
        assert forall|k: int| 0 <= k < r.len() implies (#[trigger] r[k]) == m || s.contains(
            r[k],
        ) by {
            if k < s.len() {
                assert(s[k] == r[k]);
            }
        }
        assert forall|i: int, j: int| 0 <= i < j < r.len() implies r[i].key() <= r[j].key() by {
            if j == s.len() && i < s.len() - 1 {
                assert(s[i].key() <= s[s.len() - 1].key());
            }
        }
    } else {
        let front = s.drop_last();
        lemma_insert_measure(front, m);
        let inner = insert_measure(front, m);
        assert forall|k: int| 0 <= k < r.len() implies (#[trigger] r[k]) == m || s.contains(
            r[k],
        ) by {
            if k < inner.len() {
                assert(r[k] == inner[k]);
                if inner[k] != m {
                    let j = choose|j: int| 0 <= j < front.len() && front[j] == inner[k];
                    assert(s[j] == r[k]);
                }
            } else {
                assert(s[s.len() - 1] == r[k]);
            }
        }
        assert forall|i: int, j: int| 0 <= i < j < r.len() implies r[i].key() <= r[j].key() by {
            if j == inner.len() {
                assert(r[i] == inner[i]);
                if inner[i] != m {
                    let k = choose|k: int| 0 <= k < front.len() && front[k] == inner[i];
                    assert(s[k] == inner[i]);
                }
            } else {
                assert(r[i] == inner[i] && r[j] == inner[j]);
            }
        }
    }
}

/// Totals come in ascending order.
pub proof fn totals_ascend(events: Seq<Tree>, action: Seq<char>, n: int)
    requires
        0 <= n <= events.len(),
    ensures
        ascending(totals_of(events, action, n)),
    decreases n,
{
    if n > 0 {
        totals_ascend(events, action, n - 1);
        if let Some(total) = number_field(events[n - 1], "total_ms"@) {
            lemma_insert_measure(totals_of(events, action, n - 1), measure_of(total));
        }
    }
}

/// The place of a percentile among `count` values: `part` of `whole` of the way from the first to
/// the last, rounded, with halves rounded up.
pub open spec fn percentile_place(count: nat, part: nat, whole: nat) -> int {
    (2 * (count - 1) * part + whole) / (2 * whole as int)
}

/// The value `part` of `whole` of the way up, where there is one.
pub fn percentile(sorted_values: &Vec<Measure>, part: u32, whole: u32) -> (r: Option<Measure>)
    requires
        part <= whole,
        whole > 0,
    ensures
        sorted_values@.len() == 0 ==> r is None,
        sorted_values@.len() > 0 ==> {
            let place = percentile_place(sorted_values@.len(), part as nat, whole as nat);
            0 <= place < sorted_values@.len() && r == Some(sorted_values@[place])
        },
{
    let count: usize = sorted_values.len();
    if count == 0 {
        return None;
    }
    proof {
        let c = (count - 1) as int;
        assert(0 <= c * part <= c * whole <= 0xffff_ffff_ffff_ffff * 0xffff_ffff)
            by (nonlinear_arith)
            requires
                0 <= c <= 0xffff_ffff_ffff_ffff,
                0 <= part <= whole <= 0xffff_ffff,
        ;
        assert(2 * (count - 1) * part == 2 * (c * part)) by (nonlinear_arith)
            requires
                c == count - 1,
        ;
        assert(0 <= (2 * (c * part) + whole) / (2 * whole as int) <= c) by (nonlinear_arith)
            requires
                0 <= c * part <= c * whole,
                0 < whole,
                0 <= c,
        ;
    }
    let steps: u128 = (count - 1) as u128 * part as u128;
    let place: u128 = (2 * steps + whole as u128) / (2 * whole as u128);
    Some(sorted_values[place as usize])
}

/// The values at a percentile are in order: a larger part is not below a smaller one.
pub proof fn percentiles_ascend(s: Seq<Measure>, low: nat, high: nat, whole: nat)
    requires
        ascending(s),
        s.len() > 0,
        low <= high <= whole,
        whole > 0,
    ensures
        s[percentile_place(s.len(), low, whole)].key() <= s[percentile_place(
            s.len(),
            high,
            whole,
        )].key(),
{
    let c = s.len() - 1;
    let a = percentile_place(s.len(), low, whole);
    let b = percentile_place(s.len(), high, whole);
    assert(0 <= a <= b <= c) by (nonlinear_arith)
        requires
            a == (2 * c * low + whole) / (2 * whole as int),
            b == (2 * c * high + whole) / (2 * whole as int),
            0 <= low <= high <= whole,
            0 <= c,
            0 < whole,
    {
        assert(2 * c * low <= 2 * c * high);
        assert(2 * c * high <= 2 * c * whole);
        assert(0 <= 2 * c * low);
    }
}

/// How many records say that the transcription server failed to start.
pub open spec fn startup_failures(events: Seq<Tree>, n: int) -> nat
    decreases n,
{
    if n <= 0 {
        0
    } else {
        startup_failures(events, n - 1) + if is_action(
            events[n - 1],
            "parakeet_server_startup"@,
        ) && text_field(events[n - 1], "status"@) == Some("error"@) {
            1nat
        } else {
            0nat
        }
    }
}

/// How many records say that the transcription server failed to start.
pub fn count_startup_failures(events: &Vec<Json>) -> (r: usize)
    ensures
        r == startup_failures(item_views(events@), events@.len() as int),
{
    let ghost all = item_views(events@);
    let mut count: usize = 0;
    let mut i: usize = 0;
    while i < events.len()
        invariant
            i <= events.len(),
            count <= i,
            all == item_views(events@),
            count == startup_failures(all, i as int),
        decreases events.len() - i,
    {
        let event = &events[i];
        assert(all[i as int] == event@);
        let failed = match event.get_text("status") {
            Some(s) => same(s.as_str(), "error"),
            None => false,
        };
        if has_action(event, "parakeet_server_startup") && failed {
            count = count + 1;
        }
        i = i + 1;
    }
    count
}

/// A number, or null where there is none.
pub open spec fn opt_number_tree(n: Option<Number>) -> Tree {
    match n {
        Some(v) => Tree::Number(v@),
        None => Tree::Null,
    }
}

/// A number, or null where there is none.
pub fn opt_number_json(n: &Option<Number>) -> (r: Json)
    ensures
        r@ == opt_number_tree(*n),
{
    match n {
        Some(v) => Json::Number(v.copy()),
        None => Json::Null,
    }
}

/// How the totals of an action are spread.
pub struct Spread {
    pub count: usize,
    pub avg: Option<Number>,
    pub p50: Option<Number>,
    pub p95: Option<Number>,
}

/// What a report says of a spread.
pub open spec fn spread_pairs(s: Spread) -> Seq<(Seq<char>, Tree)> {
    seq![
        ("count"@, count_tree(s.count as nat)),
        ("avg_ms"@, opt_number_tree(s.avg)),
        ("p50_ms"@, opt_number_tree(s.p50)),
        ("p95_ms"@, opt_number_tree(s.p95)),
    ]
}

/// What a report says of a spread, as far as all actions share it.
fn spread_fields(s: &Spread) -> (r: Pairs)
    ensures
        r@ == spread_pairs(*s),
{
    let mut p = Pairs::new();
    p.count("count", s.count as u64);
    p.add("avg_ms", opt_number_json(&s.avg));
    p.add("p50_ms", opt_number_json(&s.p50));
    p.add("p95_ms", opt_number_json(&s.p95));
    assert(p@ == spread_pairs(*s));
    p
}

/// What a report says of the totals of an action.
pub fn compute_total_stats(s: &Spread) -> (r: Json)
    ensures
        r@ == Tree::Object(object_of(spread_pairs(*s))),
{
    spread_fields(s).object()
}

/// The phase that took longest, among the first `n`: the first of those that took as long.
pub open spec fn longest_phase(phases: Seq<(Seq<char>, Tree)>, n: int) -> Option<
    (Seq<char>, Measure),
>
    decreases n,
{
    if n <= 0 {
        None
    } else {
        let before = longest_phase(phases, n - 1);
        match phases[n - 1].1 {
            Tree::Number(ms) => match before {
                Some((_, most)) if measure_of(ms).key() <= most.key() => before,
                _ => Some((phases[n - 1].0, measure_of(ms))),
            },
            _ => before,
        }
    }
}

/// The phase of a record that took longest.
pub open spec fn dominant_of(event: Tree) -> Option<(Seq<char>, Measure)> {
    match field(event, "phases"@) {
        Some(Tree::Object(phases)) => longest_phase(phases, phases.len() as int),
        _ => None,
    }
}

/// The phase of a record that took longest: the first of those that took as long.
pub fn dominant_phase(event: &Json) -> (r: Option<(String, Measure)>)
    ensures
        match r {
            Some(p) => dominant_of(event@) == Some((p.0@, p.1)),
            None => dominant_of(event@) is None,
        },
{
    let phases = match event.get("phases") {
        Some(p) => p,
        None => {
            return None;
        },
    };
    proof {
        lemma_tree(*phases);
    }
    match phases {
        Json::Object(fields) => {
            let ghost all = field_views(fields@);
            let mut best: Option<(String, Measure)> = None;
            let mut i: usize = 0;
            while i < fields.len()
                invariant
                    i <= fields.len(),
                    all == field_views(fields@),
                    match best {
                        Some(p) => longest_phase(all, i as int) == Some((p.0@, p.1)),
                        None => longest_phase(all, i as int) is None,
                    },
                decreases fields.len() - i,
            {
                assert(all[i as int] == (fields@[i as int].0@, fields@[i as int].1@));
                proof {
                    lemma_tree(fields@[i as int].1);
                }
                if let Json::Number(n) = &fields[i].1 {
                    let ms = n.measure();
                    let longer = match &best {
                        Some(p) => p.1.less(&ms),
                        None => true,
                    };
                    if longer {
                        best = Some((fields[i].0.clone(), ms));
                    }
                }
                i = i + 1;
            }
            best
        },
        _ => None,
    }
}

/// Whether a record is of a start or a stop.
pub open spec fn is_command(event: Tree) -> bool {
    is_action(event, "start"@) || is_action(event, "stop"@)
}

/// The records of starts and stops.
pub fn command_records(events: &Vec<Json>) -> (r: Vec<Json>)
    ensures
        item_views(r@) == item_views(events@).filter(|e: Tree| is_command(e)),
{
    let ghost all = item_views(events@);
    let ghost keep = |e: Tree| is_command(e);
    let mut out: Vec<Json> = Vec::new();
    let mut i: usize = 0;
    proof {
        reveal(Seq::filter);
    }
    assert(item_views(out@) =~= all.subrange(0, 0).filter(keep));
    while i < events.len()
        invariant
            i <= events.len(),
            all == item_views(events@),
            keep == (|e: Tree| is_command(e)),
            item_views(out@) == all.subrange(0, i as int).filter(keep),
        decreases events.len() - i,
    {
        let ghost before = out@;
        proof {
            assert(all.subrange(0, i + 1).drop_last() == all.subrange(0, i as int));
            assert(all.subrange(0, i + 1).last() == events@[i as int]@);
            reveal(Seq::filter);
        }
        if has_action(&events[i], "start") || has_action(&events[i], "stop") {
            let e = events[i].copy();
            let ghost ev = e@;
            out.push(e);
            assert(item_views(out@) =~= item_views(before).push(ev));
        }
        assert(item_views(out@) =~= all.subrange(0, i + 1).filter(keep));
        i = i + 1;
    }
    assert(all.subrange(0, all.len() as int) =~= all);
    out
}

/// The last `n` of these.
pub open spec fn last_of(s: Seq<Tree>, n: nat) -> Seq<Tree> {
    if s.len() > n {
        s.subrange(s.len() - n, s.len() as int)
    } else {
        s
    }
}

/// How many records are shown: 40 where nothing is asked for, and one to 5000.
pub fn perf_limit(n: Option<usize>) -> (r: usize)
    ensures
        r == match n {
            Some(v) => if v < 1 {
                1
            } else if v > 5000 {
                5000
            } else {
                v
            },
            None => 40,
        },
{
    match n {
        Some(v) => if v < 1 {
            1
        } else if v > 5000 {
            5000
        } else {
            v
        },
        None => 40,
    }
}

/// The last `n` records of starts and stops.
pub fn recent_records(records: &Vec<Json>, n: usize) -> (r: Vec<Json>)
    ensures
        item_views(r@) == last_of(item_views(records@), n as nat),
{
    let ghost all = item_views(records@);
    let start: usize = if records.len() > n {
        records.len() - n
    } else {
        0
    };
    let mut out: Vec<Json> = Vec::new();
    let mut i: usize = start;
    assert(item_views(out@) =~= all.subrange(start as int, start as int));
    while i < records.len()
        invariant
            start <= i <= records.len(),
            all == item_views(records@),
            item_views(out@) == all.subrange(start as int, i as int),
        decreases records.len() - i,
    {
        let ghost before = out@;
        let e = records[i].copy();
        let ghost ev = e@;
        out.push(e);
        assert(item_views(out@) =~= item_views(before).push(ev));
        assert(all.subrange(start as int, i + 1) =~= all.subrange(start as int, i as int).push(
            all[i as int],
        ));
        i = i + 1;
    }
    assert(all.subrange(0, all.len() as int) =~= all);
    out
}

/// What is shown of a time, and a dash where there is none.
pub open spec fn or_dash(s: Option<Seq<char>>) -> Seq<char> {
    match s {
        Some(t) => t,
        None => "-"@,
    }
}

fn shown<'a>(s: Option<&'a str>) -> (r: &'a str)
    ensures
        r@ == or_dash(str_view(s)),
{
    match s {
        Some(t) => t,
        None => "-",
    }
}

/// The line on the totals of an action. The times are in milliseconds, with one decimal.
pub fn spread_line(
    label: &str,
    count: usize,
    avg: Option<&str>,
    p50: Option<&str>,
    p95: Option<&str>,
) -> (r: String)
    ensures
        r@ == label@ + " count="@ + decimal(count as nat) + " avg="@ + or_dash(str_view(avg))
            + "ms p50="@ + or_dash(str_view(p50)) + "ms p95="@ + or_dash(str_view(p95)) + "ms"@,
{
    let mut out = concat3(label, " count=", decimal_text(count as u64).as_str());
    out.append(" avg=");
    out.append(shown(avg));
    out.append("ms p50=");
    out.append(shown(p50));
    out.append("ms p95=");
    out.append(shown(p95));
    out.append("ms");
    out
}

/// The line on the cold starts of the transcription server.
pub fn startup_line(
    count: usize,
    avg: Option<&str>,
    p50: Option<&str>,
    p95: Option<&str>,
    failures: usize,
) -> (r: String)
    ensures
        r@ == "parakeet cold start:"@ + " count="@ + decimal(count as nat) + " avg="@ + or_dash(
            str_view(avg),
        ) + "ms p50="@ + or_dash(str_view(p50)) + "ms p95="@ + or_dash(str_view(p95)) + "ms"@
            + " errors="@ + decimal(failures as nat),
{
    let mut out = spread_line("parakeet cold start:", count, avg, p50, p95);
    out.append(" errors=");
    out.append(decimal_text(failures as u64).as_str());
    out
}

/// The line on a record. The times are in milliseconds, with one decimal.
pub fn record_line(event: &Json, total: Option<&str>, dominant: Option<(&str, &str)>) -> (r: String)
    ensures
        r@ == "  "@ + or_dash(text_field(event@, "ts"@)) + " "@ + or_dash(
            text_field(event@, "action"@),
        ) + " total="@ + or_dash(str_view(total)) + "ms dominant="@ + match dominant {
            Some(d) => d.0@ + "="@ + d.1@ + "ms"@,
            None => "-"@,
        },
{
    let ts: &str = match event.get_text("ts") {
        Some(s) => s.as_str(),
        None => "-",
    };
    let action: &str = match event.get_text("action") {
        Some(s) => s.as_str(),
        None => "-",
    };
    let longest: String = match dominant {
        Some(d) => {
            let mut s = concat3(d.0, "=", d.1);
            s.append("ms");
            s
        },
        None => "-".to_owned(),
    };
    let mut out = concat3("  ", ts, " ");
    out.append(action);
    out.append(" total=");
    out.append(shown(total));
    out.append("ms dominant=");
    out.append(longest.as_str());
    out
}

/// What is said where nothing is recorded.
pub const NO_PERF_RECORDS: &'static str = "No perf records found.";

/// What is reported where nothing is recorded.
pub open spec fn nothing_recorded() -> Tree {
    let none = Tree::Object(object_of(seq![("count"@, count_tree(0))]));
    Tree::Object(
        object_of(
            seq![
                ("ok"@, Tree::Bool(true)),
                ("count"@, count_tree(0)),
                ("recent"@, Tree::List(Seq::empty())),
                ("summary"@, Tree::Object(object_of(seq![("start"@, none), ("stop"@, none)]))),
            ],
        ),
    )
}

/// What is reported where nothing is recorded.
pub fn empty_report() -> (r: Json)
    ensures
        r@ == nothing_recorded(),
{
    let mut none = Pairs::new();
    none.count("count", 0);
    assert(none@ == seq![("count"@, count_tree(0))]);
    let none = none.object();
    let mut summary = Pairs::new();
    summary.add("start", none.copy());
    summary.add("stop", none);
    assert(summary@ == seq![("start"@, none@), ("stop"@, none@)]);
    let recent = Json::List(Vec::new());
    proof {
        lemma_tree(recent);
        assert(item_views(recent->List_0@) =~= Seq::<Tree>::empty());
    }
    let mut p = Pairs::new();
    p.flag("ok", true);
    p.count("count", 0);
    p.add("recent", recent);
    p.add("summary", summary.object());
    assert(p@ == seq![
        ("ok"@, Tree::Bool(true)),
        ("count"@, count_tree(0)),
        ("recent"@, Tree::List(Seq::empty())),
        ("summary"@, Tree::Object(object_of(seq![("start"@, none@), ("stop"@, none@)]))),
    ]);
    p.object()
}

/// What is reported of the timings: those of starts and stops, the recent records, and, apart from
/// them, the cold starts of the transcription server.
pub fn perf_report(
    count: usize,
    recent: Vec<Json>,
    start: &Spread,
    stop: &Spread,
    startup: &Spread,
    failures: usize,
) -> (r: Json)
    ensures
        r@ == Tree::Object(
            object_of(
                seq![
                    ("ok"@, Tree::Bool(true)),
                    ("count"@, count_tree(count as nat)),
                    ("recent"@, Tree::List(item_views(recent@))),
                    (
                        "summary"@,
                        Tree::Object(
                            object_of(
                                seq![
                                    ("start"@, Tree::Object(object_of(spread_pairs(*start)))),
                                    ("stop"@, Tree::Object(object_of(spread_pairs(*stop)))),
                                    (
                                        "parakeet_server_startup"@,
                                        Tree::Object(
                                            object_of(
                                                spread_pairs(*startup).push(
                                                    ("error_count"@, count_tree(failures as nat)),
                                                ),
                                            ),
                                        ),
                                    ),
                                ],
                            ),
                        ),
                    ),
                ],
            ),
        ),
{
    let mut cold = spread_fields(startup);
    cold.count("error_count", failures as u64);
    let mut summary = Pairs::new();
    summary.add("start", compute_total_stats(start));
    summary.add("stop", compute_total_stats(stop));
    summary.add("parakeet_server_startup", cold.object());
    let ghost sv = summary@;
    assert(sv == seq![
        ("start"@, Tree::Object(object_of(spread_pairs(*start)))),
        ("stop"@, Tree::Object(object_of(spread_pairs(*stop)))),
        (
            "parakeet_server_startup"@,
            Tree::Object(
                object_of(
                    spread_pairs(*startup).push(("error_count"@, count_tree(failures as nat))),
                ),
            ),
        ),
    ]);
    let list = Json::List(recent);
    proof {
        lemma_tree(list);
    }
    let mut p = Pairs::new();
    p.flag("ok", true);
    p.count("count", count as u64);
    p.add("recent", list);
    p.add("summary", summary.object());
    assert(p@ == seq![
        ("ok"@, Tree::Bool(true)),
        ("count"@, count_tree(count as nat)),
        ("recent"@, Tree::List(item_views(recent@))),
        ("summary"@, Tree::Object(object_of(sv))),
    ]);
    p.object()
}

// ---------------------------------------------------------------------------------------------
// What is counted
// ---------------------------------------------------------------------------------------------

/// A record of an action adds its total where it has one; of the cold starts of the transcription
/// server those count in which it got ready.
pub proof fn records_add_their_total(events: Seq<Tree>, e: Tree, action: Seq<char>)
    ensures
        ({
            let before = totals_of(events, action, events.len() as int);
            let after = totals_of(events.push(e), action, events.len() + 1int);
            let counts = text_field(e, "action"@) == Some(action) && (action
                == "parakeet_server_startup"@ ==> text_field(e, "status"@) == Some("ready"@));
            match field(e, "total_ms"@) {
                Some(Tree::Number(n)) => if counts {
                    after.to_multiset() == before.to_multiset().insert(measure_of(n))
                } else {
                    after == before
                },
                _ => after == before,
            }
        }),
{
    lemma_totals_prefix(events, e, action, events.len() as int);
    assert(events.push(e)[events.len() as int] == e);
    let before = totals_of(events, action, events.len() as int);
    match number_field(e, "total_ms"@) {
        Some(n) => {
            lemma_insert_measure_adds(before, measure_of(n));
        },
        None => {},
    }
}

proof fn lemma_totals_prefix(events: Seq<Tree>, e: Tree, action: Seq<char>, n: int)
    requires
        0 <= n <= events.len(),
    ensures
        totals_of(events.push(e), action, n) == totals_of(events, action, n),
    decreases n,
{
    if n > 0 {
        lemma_totals_prefix(events, e, action, n - 1);
        assert(events.push(e)[n - 1] == events[n - 1]);
    }
}

proof fn lemma_insert_measure_adds(s: Seq<Measure>, m: Measure)
    ensures
        insert_measure(s, m).to_multiset() == s.to_multiset().insert(m),
    decreases s.len(),
{
    broadcast use vstd::seq_lib::group_to_multiset_ensures;

    if s.len() > 0 && s.last().key() > m.key() {
        lemma_insert_measure_adds(s.drop_last(), m);
        assert(s =~= s.drop_last().push(s.last()));
        assert(insert_measure(s, m).to_multiset() =~= s.to_multiset().insert(m));
    }
}

/// The lowest percentile is the first value, the highest the last, and half the way the middle one.
pub proof fn percentiles_are_places(count: nat, whole: nat)
    requires
        count > 0,
        whole > 0,
    ensures
        percentile_place(count, 0, whole) == 0,
        percentile_place(count, whole, whole) == count - 1,
        percentile_place(2 * count + 1, whole, 2 * whole) == count,
{
    assert(2 * (count - 1) * 0 == 0) by (nonlinear_arith);
    assert(whole as int / (2 * whole as int) == 0) by (nonlinear_arith)
        requires
            whole > 0,
    ;
    assert((2 * (count - 1) * whole + whole) / (2 * whole as int) == count - 1) by (nonlinear_arith)
        requires
            whole > 0,
            count > 0,
    ;
    assert((2 * (2 * count + 1 - 1) * whole + 2 * whole) / (2 * (2 * whole) as int) == count)
        by (nonlinear_arith)
        requires
            whole > 0,
            count > 0,
    ;
}

/// The failures of the transcription server are the records that say so.
pub proof fn failed_startups_are_counted(events: Seq<Tree>, n: int)
    requires
        0 <= n <= events.len(),
    ensures
        startup_failures(events, n) == events.subrange(0, n).filter(
            |e: Tree|
                text_field(e, "action"@) == Some("parakeet_server_startup"@) && text_field(
                    e,
                    "status"@,
                ) == Some("error"@),
        ).len(),
    decreases n,
{
    reveal(Seq::filter);
    if n > 0 {
        failed_startups_are_counted(events, n - 1);
        let all = events.subrange(0, n);
        assert(all.drop_last() =~= events.subrange(0, n - 1));
        assert(all.last() == events[n - 1]);
    }
}

/// The phase that stands out took at least as long as every other, and longer than those before it.
pub proof fn the_longest_phase_stands_out(phases: Seq<(Seq<char>, Tree)>, n: int)
    requires
        0 <= n <= phases.len(),
    ensures
        match longest_phase(phases, n) {
            Some((name, most)) => {
                &&& exists|k: int|
                    0 <= k < n && (#[trigger] phases[k]).0 == name && (phases[k].1 matches Tree::Number(
                        ms,
                    ) && measure_of(ms) == most) && (forall|j: int|
                        0 <= j < k ==> ((#[trigger] phases[j]).1 matches Tree::Number(x)
                            ==> measure_of(x).key() < most.key()))
                &&& forall|j: int|
                    0 <= j < n ==> ((#[trigger] phases[j]).1 matches Tree::Number(x) ==> measure_of(
                        x,
                    ).key() <= most.key())
            },
            None => forall|j: int| 0 <= j < n ==> !((#[trigger] phases[j]).1 is Number),
        },
    decreases n,
{
    if n > 0 {
        the_longest_phase_stands_out(phases, n - 1);
        let before = longest_phase(phases, n - 1);
        let now = longest_phase(phases, n);
        if now == before {
            if let Some((name, most)) = before {
                let k = choose|k: int|
                    0 <= k < n - 1 && (#[trigger] phases[k]).0 == name && (
                    phases[k].1 matches Tree::Number(ms) && measure_of(ms) == most) && (forall|
                        j: int,
                    |
                        0 <= j < k ==> ((#[trigger] phases[j]).1 matches Tree::Number(x)
                            ==> measure_of(x).key() < most.key()));
                assert(phases[k].0 == name);
            }
        } else {
            assert(phases[n - 1].1 is Number);
        }
    }
}

/// The recent records are the last ones, and all where there are not more.
pub proof fn recent_records_are_the_last(earlier: Seq<Tree>, later: Seq<Tree>)
    ensures
        last_of(earlier + later, later.len()) == later,
        last_of(later, later.len() + 1) == later,
{
    let s = earlier + later;
    assert(s.subrange(s.len() - later.len(), s.len() as int) =~= later);
    if earlier.len() == 0 {
        assert(s =~= later);
    }
}

/// What is reported of a spread is what it is.
pub proof fn spreads_are_reported(s: Spread)
    ensures
        ({
            let t = Tree::Object(object_of(spread_pairs(s)));
            &&& field(t, "count"@) == Some(count_tree(s.count as nat))
            &&& s.avg matches Some(n) ==> field(t, "avg_ms"@) == Some(Tree::Number(n@))
            &&& s.p50 matches Some(n) ==> field(t, "p50_ms"@) == Some(Tree::Number(n@))
            &&& s.p95 matches Some(n) ==> field(t, "p95_ms"@) == Some(Tree::Number(n@))
        }),
{
    reveal_strlit("count");
    reveal_strlit("avg_ms");
    reveal_strlit("p50_ms");
    reveal_strlit("p95_ms");
    assert("count"@.len() == 5 && "avg_ms"@.len() == 6);
    assert("avg_ms"@[0] == 'a' && "p50_ms"@[0] == 'p' && "p95_ms"@[0] == 'p');
    assert("p50_ms"@[1] == '5' && "p95_ms"@[1] == '9');
    assert("p50_ms"@.len() == 6 && "p95_ms"@.len() == 6);
    let p = spread_pairs(s);
    pairs_read_back(p, 0);
    pairs_read_back(p, 1);
    pairs_read_back(p, 2);
    pairs_read_back(p, 3);
}

/// The commands that are measured are `start` and `stop`; of the starts of the server those that came
/// to be ready count.
pub proof fn two_commands_are_measured(event: Tree, action: Seq<char>)
    ensures
        text_field(event, "action"@) == Some("start"@) ==> is_command(event),
        text_field(event, "action"@) == Some("stop"@) ==> is_command(event),
        text_field(event, "action"@) != Some("start"@) && text_field(event, "action"@) != Some(
            "stop"@,
        ) ==> !is_command(event),
        action != "parakeet_server_startup"@ ==> (is_counted(event, action) <==> text_field(
            event,
            "action"@,
        ) == Some(action)),
        is_counted(event, "parakeet_server_startup"@) <==> text_field(event, "action"@) == Some(
            "parakeet_server_startup"@,
        ) && text_field(event, "status"@) == Some("ready"@),
        or_dash(None) == "-"@,
        or_dash(Some(action)) == action,
{
}

/// Where nothing is recorded, that is what is reported: no records, and none for either command.
pub proof fn nothing_is_reported_of_nothing()
    ensures
        field(nothing_recorded(), "ok"@) == Some(Tree::Bool(true)),
        field(nothing_recorded(), "count"@) == Some(count_tree(0)),
        field(nothing_recorded(), "recent"@) == Some(Tree::List(Seq::empty())),
        field(nothing_recorded(), "summary"@) matches Some(s) && (field(s, "start"@) matches Some(a)
            && field(a, "count"@) == Some(count_tree(0))) && (field(s, "stop"@) matches Some(b)
            && field(b, "count"@) == Some(count_tree(0))),
{
    reveal_strlit("ok");
    reveal_strlit("count");
    reveal_strlit("recent");
    reveal_strlit("summary");
    reveal_strlit("start");
    reveal_strlit("stop");
    assert("ok"@.len() == 2 && "count"@.len() == 5 && "recent"@.len() == 6 && "summary"@.len() == 7);
    assert("start"@.len() == 5 && "stop"@.len() == 4);
    let one = seq![("count"@, count_tree(0))];
    let none = Tree::Object(object_of(one));
    pairs_read_back(one, 0);
    let both = seq![("start"@, none), ("stop"@, none)];
    pairs_read_back(both, 0);
    pairs_read_back(both, 1);
    let p = seq![
        ("ok"@, Tree::Bool(true)),
        ("count"@, count_tree(0)),
        ("recent"@, Tree::List(Seq::empty())),
        ("summary"@, Tree::Object(object_of(both))),
    ];
    pairs_read_back(p, 0);
    pairs_read_back(p, 1);
    pairs_read_back(p, 2);
    pairs_read_back(p, 3);
}

/// The phase that stands out is looked for among those that are recorded under `phases`.
pub proof fn phases_are_looked_up_by_name(event: Tree, phases: Seq<(Seq<char>, Tree)>)
    ensures
        field(event, "phases"@) == Some(Tree::Object(phases)) ==> dominant_of(event)
            == longest_phase(phases, phases.len() as int),
        field(event, "phases"@) is None ==> dominant_of(event) is None,
{
}

} // verus!
