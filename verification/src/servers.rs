//! The helper servers among the processes of the machine: which are ours, which are strays, and how
//! they are stopped.

use vstd::prelude::*;

use crate::json::{
    count_tree, field, int_json, int_tree, item_views, lookup, object_of, opt_text_tree,
    pairs_read_back, text_field, Json, Pairs, Tree,
};
use crate::number::{
    decimal, decimal_reads_back, decimal_text, parse_i32, parsed_signed, signed_decimal,
    signed_numbers_read_back, signed_text,
};
use crate::paths::{parakeet_server_pid_file, web_server_pid_file};
use crate::pattern::{
    contains, contains_text, ends_with, join, joined, lines, lines_of, rfind, rfind_char,
    starts_with, views, words, words_of, Lines,
};
use crate::text::{
    char_is_space, chars_of, concat, concat3, is_digit, is_space, lemma_trimmed_shape,
    lemma_trimmed_start, same, string_of, trim, trim_start, trimmed, trimmed_start,
    trimming_takes_the_space_around,
};

verus! {

/// A helper server.
#[derive(PartialEq, Eq, Structural, Clone, Copy, Debug)]
pub enum Helper {
    Parakeet,
    Web,
}

/// The name of the script of a helper.
pub open spec fn marker_of(h: Helper) -> Seq<char> {
    match h {
        Helper::Parakeet => "parakeet_transcribe.py"@,
        Helper::Web => "riff_web_server.py"@,
    }
}

/// The name of a helper.
pub open spec fn label_of(h: Helper) -> Seq<char> {
    match h {
        Helper::Parakeet => "parakeet"@,
        Helper::Web => "web"@,
    }
}

impl Helper {
    /// The name of this helper.
    pub fn label(self) -> (r: &'static str)
        ensures
            r@ == label_of(self),
    {
        match self {
            Helper::Parakeet => "parakeet",
            Helper::Web => "web",
        }
    }

    /// The name of its script.
    pub fn script_marker(self) -> (r: &'static str)
        ensures
            r@ == marker_of(self),
    {
        match self {
            Helper::Parakeet => "parakeet_transcribe.py",
            Helper::Web => "riff_web_server.py",
        }
    }

    /// The argument that makes its script a server, where it needs one.
    pub fn required_token(self) -> (r: Option<&'static str>)
        ensures
            match self {
                Helper::Parakeet => r matches Some(t) && t@ == "--serve"@,
                Helper::Web => r is None,
            },
    {
        match self {
            Helper::Parakeet => Some("--serve"),
            Helper::Web => None,
        }
    }

    /// The file that names its process.
    pub fn pid_file(self, root: &str) -> (r: String)
        ensures
            r@ == crate::paths::joined_path(
                root@,
                match self {
                    Helper::Parakeet => "parakeet-server.pid"@,
                    Helper::Web => "web-server.pid"@,
                },
            ),
    {
        match self {
            Helper::Parakeet => parakeet_server_pid_file(root),
            Helper::Web => web_server_pid_file(root),
        }
    }
}

// ---------------------------------------------------------------------------------------------
// Finding them
// ---------------------------------------------------------------------------------------------

/// The ways in which the root may be written on a command line.
pub fn root_candidates(root: &str, normalized: &str) -> (r: Vec<String>)
    ensures
        views(r@) == if root@ == normalized@ {
            seq![root@]
        } else {
            seq![root@, normalized@]
        },
{
    let mut out: Vec<String> = vec![root.to_owned()];
    assert(views(out@) =~= seq![root@]);
    if !same(root, normalized) {
        out.push(normalized.to_owned());
        assert(views(out@) =~= seq![root@, normalized@]);
    }
    out
}

/// What stands behind the last slash.
pub open spec fn last_component(s: Seq<char>) -> Seq<char> {
    match rfind(s, '/') {
        Some(i) => s.subrange(i + 1, s.len() as int),
        None => s,
    }
}

/// Whether a program is a Python interpreter, by its name.
pub open spec fn is_python(argv0: Seq<char>) -> bool {
    "python"@.is_prefix_of(last_component(argv0)) || "Python"@.is_prefix_of(last_component(argv0))
}

/// Whether an argument is the script of a helper.
pub open spec fn names_script(arg: Seq<char>, h: Helper) -> bool {
    arg == marker_of(h) || ("/"@ + marker_of(h)).is_suffix_of(arg)
}

/// Whether a command line is that of a running helper: a Python interpreter, with the script as an
/// argument of its own, and with what makes it a server as another. A command line that only
/// mentions these is not one.
pub open spec fn is_helper(command: Seq<char>, h: Helper) -> bool {
    let w = words_of(command);
    &&& w.len() > 0
    &&& is_python(w[0])
    &&& exists|i: int| 1 <= i < w.len() && names_script(#[trigger] w[i], h)
    &&& h == Helper::Parakeet ==> exists|i: int| 1 <= i < w.len() && #[trigger] w[i] == "--serve"@
}

fn is_python_name(argv0: &str) -> (r: bool)
    ensures
        r == is_python(argv0@),
{
    let v = chars_of(argv0);
    let name: String = match rfind_char(&v, '/') {
        Some(i) => string_of(&v, i + 1, v.len()),
        None => argv0.to_owned(),
    };
    starts_with(name.as_str(), "python") || starts_with(name.as_str(), "Python")
}

/// Whether a command line is that of a running helper.
pub fn is_helper_invocation(command: &str, helper: Helper) -> (r: bool)
    ensures
        r == is_helper(command@, helper),
{
    let w = words(command);
    let ghost wv = views(w@);
    assert(wv.len() == w@.len());
    if w.len() == 0 {
        return false;
    }
    assert(wv[0] == w@[0]@);
    if !is_python_name(w[0].as_str()) {
        return false;
    }
    let marker = helper.script_marker();
    let suffix = concat("/", marker);
    let required = helper.required_token();
    let mut script = false;
    let mut mode = required.is_none();
    let mut i: usize = 1;
    while i < w.len()
        invariant
            1 <= i <= w.len(),
            wv == views(w@),
            wv.len() == w@.len(),
            marker@ == marker_of(helper),
            suffix@ == "/"@ + marker_of(helper),
            match helper {
                Helper::Parakeet => required matches Some(t) && t@ == "--serve"@,
                Helper::Web => required is None,
            },
            script == exists|k: int| 1 <= k < i && names_script(#[trigger] wv[k], helper),
            mode == (helper == Helper::Parakeet ==> exists|k: int|
                1 <= k < i && #[trigger] wv[k] == "--serve"@),
        decreases w.len() - i,
    {
        let arg = w[i].as_str();
        assert(wv[i as int] == arg@);
        if same(arg, marker) || ends_with(arg, suffix.as_str()) {
            script = true;
            assert(names_script(wv[i as int], helper));
        }
        if let Some(t) = required {
            if same(arg, t) {
                mode = true;
                assert(wv[i as int] == "--serve"@);
            }
        }
        i = i + 1;
    }
    script && mode
}

/// A helper among the processes of the machine.
#[derive(Debug)]
pub struct HelperProcess {
    pub pid: i32,
    pub command: String,
    /// Whether its command line names this root: only then may it be stopped.
    pub owned: bool,
}

/// The model of a helper among the processes of the machine.
#[verifier::ext_equal]
pub struct HelperView {
    pub pid: i32,
    pub command: Seq<char>,
    pub owned: bool,
}

impl View for HelperProcess {
    type V = HelperView;

    open spec fn view(&self) -> HelperView {
        HelperView { pid: self.pid, command: self.command@, owned: self.owned }
    }
}

/// The models of helpers.
pub open spec fn helper_views(v: Seq<HelperProcess>) -> Seq<HelperView> {
    v.map_values(|p: HelperProcess| p@)
}

/// What is reported of a process.
pub open spec fn process_tree(p: HelperView) -> Tree {
    Tree::Object(
        object_of(
            seq![
                ("pid"@, int_tree(p.pid as int)),
                ("owned"@, Tree::Bool(p.owned)),
                ("command"@, Tree::Text(p.command)),
            ],
        ),
    )
}

impl HelperProcess {
    /// What is reported of this process.
    pub fn as_json(&self) -> (r: Json)
        ensures
            r@ == process_tree(self@),
    {
        let mut p = Pairs::new();
        p.add("pid", int_json(self.pid as i64));
        p.flag("owned", self.owned);
        p.text("command", self.command.as_str());
        assert(p@ == seq![
            ("pid"@, int_tree(self.pid as int)),
            ("owned"@, Tree::Bool(self.owned)),
            ("command"@, Tree::Text(self.command@)),
        ]);
        p.object()
    }
}

/// The first white space from `i` on.
pub open spec fn first_space(s: Seq<char>, i: int) -> Option<int>
    decreases s.len() - i,
{
    if i < 0 || i >= s.len() {
        None
    } else if is_space(s[i]) {
        Some(i)
    } else {
        first_space(s, i + 1)
    }
}

/// Whether a command line names one of the roots.
pub open spec fn names_root(command: Seq<char>, roots: Seq<Seq<char>>) -> bool {
    exists|i: int| 0 <= i < roots.len() && contains(command, #[trigger] roots[i])
}

/// The helper that a line of the process list is about, where it is about one: the process id,
/// white space, and the command line. The program itself is none.
pub open spec fn helper_of_line(
    line: Seq<char>,
    h: Helper,
    roots: Seq<Seq<char>>,
    self_pid: i32,
) -> Option<HelperView> {
    let l = trimmed_start(line);
    match first_space(l, 0) {
        None => None,
        Some(i) => match parsed_signed(l.subrange(0, i), i32::MIN as int, i32::MAX as int) {
            None => None,
            Some(pid) => {
                let command = trimmed(l.subrange(i, l.len() as int));
                if pid == self_pid || !is_helper(command, h) {
                    None
                } else {
                    Some(
                        HelperView { pid: pid as i32, command, owned: names_root(command, roots) },
                    )
                }
            },
        },
    }
}

fn mentions_root(command: &str, roots: &Vec<String>) -> (r: bool)
    ensures
        r == names_root(command@, views(roots@)),
{
    let ghost rv = views(roots@);
    let mut i: usize = 0;
    while i < roots.len()
        invariant
            i <= roots.len(),
            rv == views(roots@),
            forall|k: int| 0 <= k < i ==> !contains(command@, #[trigger] rv[k]),
        decreases roots.len() - i,
    {
        assert(rv[i as int] == roots@[i as int]@);
        if contains_text(command, roots[i].as_str()) {
            return true;
        }
        i = i + 1;
    }
    false
}

/// The helper that a line of the process list is about, where it is about one.
pub fn helper_process(line: &str, helper: Helper, roots: &Vec<String>, self_pid: i32) -> (r: Option<
    HelperProcess,
>)
    ensures
        match r {
            Some(p) => helper_of_line(line@, helper, views(roots@), self_pid) == Some(p@),
            None => helper_of_line(line@, helper, views(roots@), self_pid) is None,
        },
{
    let l = trim_start(line);
    let v = chars_of(l.as_str());
    let ghost lv = l@;
    let mut i: usize = 0;
    while i < v.len() && !char_is_space(v[i])
        invariant
            i <= v.len(),
            v@ == lv,
            first_space(lv, 0) == first_space(lv, i as int),
        decreases v.len() - i,
    {
        i = i + 1;
    }
    if i >= v.len() {
        return None;
    }
    let pid: i32 = match parse_i32(string_of(&v, 0, i).as_str()) {
        Some(n) => n,
        None => {
            return None;
        },
    };
    let count: usize = v.len();
    let command = trim(string_of(&v, i, count).as_str());
    if pid == self_pid || !is_helper_invocation(command.as_str(), helper) {
        return None;
    }
    let owned = mentions_root(command.as_str(), roots);
    Some(HelperProcess { pid, command, owned })
}

/// The helpers that lines of a process list name.
pub open spec fn helpers_among(
    lines: Seq<Seq<char>>,
    h: Helper,
    roots: Seq<Seq<char>>,
    self_pid: i32,
) -> Seq<HelperView> {
    lines.filter_map(|l: Seq<char>| helper_of_line(l, h, roots, self_pid))
}

/// The helpers that a process list names.
pub open spec fn helpers_in(
    listing: Seq<char>,
    h: Helper,
    roots: Seq<Seq<char>>,
    self_pid: i32,
) -> Seq<HelperView> {
    helpers_among(lines_of(listing), h, roots, self_pid)
}

/// The helpers that a process list names.
pub fn scan_helper_processes(
    listing: &str,
    helper: Helper,
    roots: &Vec<String>,
    self_pid: i32,
) -> (r: Vec<HelperProcess>)
    ensures
        helper_views(r@) == helpers_in(listing@, helper, views(roots@), self_pid),
{
    let all = lines(listing);
    let ghost av = views(all@);
    let ghost rv = views(roots@);
    let ghost f = |l: Seq<char>| helper_of_line(l, helper, rv, self_pid);
    let mut out: Vec<HelperProcess> = Vec::new();
    let mut i: usize = 0;
    proof {
        reveal(Seq::filter_map);
    }
    assert(helper_views(out@) =~= av.subrange(0, 0).filter_map(f));
    while i < all.len()
        invariant
            i <= all.len(),
            av == views(all@),
            rv == views(roots@),
            f == (|l: Seq<char>| helper_of_line(l, helper, rv, self_pid)),
            helper_views(out@) == av.subrange(0, i as int).filter_map(f),
        decreases all.len() - i,
    {
        let ghost before = out@;
        proof {
            assert(av.subrange(0, i + 1).drop_last() == av.subrange(0, i as int));
            assert(av.subrange(0, i + 1).last() == all@[i as int]@);
            reveal(Seq::filter_map);
        }
        if let Some(p) = helper_process(all[i].as_str(), helper, roots, self_pid) {
            let ghost pv = p@;
            out.push(p);
            assert(helper_views(out@) =~= helper_views(before).push(pv));
        }
        assert(helper_views(out@) =~= av.subrange(0, i + 1).filter_map(f));
        i = i + 1;
    }
    assert(av.subrange(0, av.len() as int) =~= av);
    out
}

/// Whether a process is a stray: ours, and not the one that is on record.
pub open spec fn is_stray(p: HelperView, recorded: Option<i32>) -> bool {
    p.owned && recorded != Some(p.pid)
}

/// The ids of the strays among the first `n` processes.
pub open spec fn strays_of(found: Seq<HelperView>, recorded: Option<i32>, n: int) -> Seq<i32>
    decreases n,
{
    if n <= 0 {
        Seq::empty()
    } else if is_stray(found[n - 1], recorded) {
        strays_of(found, recorded, n - 1).push(found[n - 1].pid)
    } else {
        strays_of(found, recorded, n - 1)
    }
}

fn is_recorded(recorded: Option<i32>, pid: i32) -> (r: bool)
    ensures
        r == (recorded == Some(pid)),
{
    match recorded {
        Some(t) => t == pid,
        None => false,
    }
}

/// The ids of the strays: the processes that are ours and not on record.
pub fn stray_helper_pids(found: &Vec<HelperProcess>, recorded: Option<i32>) -> (r: Vec<i32>)
    ensures
        r@ == strays_of(helper_views(found@), recorded, found@.len() as int),
{
    let ghost fv = helper_views(found@);
    let mut out: Vec<i32> = Vec::new();
    let mut i: usize = 0;
    while i < found.len()
        invariant
            i <= found.len(),
            fv == helper_views(found@),
            out@ == strays_of(fv, recorded, i as int),
        decreases found.len() - i,
    {
        assert(fv[i as int] == found@[i as int]@);
        if found[i].owned && !is_recorded(recorded, found[i].pid) {
            out.push(found[i].pid);
        }
        i = i + 1;
    }
    out
}

proof fn lemma_helper_shape(
    lines: Seq<Seq<char>>,
    h: Helper,
    roots: Seq<Seq<char>>,
    self_pid: i32,
)
    ensures
        forall|i: int|
            #![trigger helpers_among(lines, h, roots, self_pid)[i]]
            0 <= i < helpers_among(lines, h, roots, self_pid).len() ==> {
                let p = helpers_among(lines, h, roots, self_pid)[i];
                p.pid != self_pid && is_helper(p.command, h) && p.owned == names_root(
                    p.command,
                    roots,
                )
            },
    decreases lines.len(),
{
    reveal(Seq::filter_map);
    if lines.len() > 0 {
        lemma_helper_shape(lines.drop_last(), h, roots, self_pid);
        let before = helpers_among(lines.drop_last(), h, roots, self_pid);
        let now = helpers_among(lines, h, roots, self_pid);
        let last = helper_of_line(lines.last(), h, roots, self_pid);
        assert(now == match last {
            Some(p) => before.push(p),
            None => before,
        });
        assert forall|i: int| #![trigger now[i]] 0 <= i < now.len() implies now[i].pid != self_pid
            && is_helper(now[i].command, h) && now[i].owned == names_root(now[i].command, roots) by {
            if i < before.len() {
                assert(now[i] == before[i]);
            }
        }
    }
}

/// Whether one of the first `n` processes is a stray with this id.
pub open spec fn is_stray_pid(found: Seq<HelperView>, recorded: Option<i32>, n: int, pid: i32) -> bool {
    exists|k: int| 0 <= k < n && is_stray(#[trigger] found[k], recorded) && found[k].pid == pid
}

proof fn lemma_strays(found: Seq<HelperView>, recorded: Option<i32>, n: int)
    requires
        0 <= n <= found.len(),
    ensures
        forall|i: int|
            0 <= i < strays_of(found, recorded, n).len() ==> is_stray_pid(
                found,
                recorded,
                n,
                #[trigger] strays_of(found, recorded, n)[i],
            ),
    decreases n,
{
    if n > 0 {
        lemma_strays(found, recorded, n - 1);
        let now = strays_of(found, recorded, n);
        let before = strays_of(found, recorded, n - 1);
        assert forall|i: int| 0 <= i < now.len() implies is_stray_pid(
            found,
            recorded,
            n,
            #[trigger] now[i],
        ) by {
            if i < before.len() {
                assert(now[i] == before[i]);
                assert(is_stray_pid(found, recorded, n - 1, before[i]));
            } else {
                assert(is_stray(found[n - 1], recorded));
            }
        }
    }
}

/// Nothing of another root, and not the program itself, is ever on the list of strays: each of them
/// runs a helper and names this root.
pub proof fn strays_are_own_helpers(
    listing: Seq<char>,
    h: Helper,
    roots: Seq<Seq<char>>,
    self_pid: i32,
    recorded: Option<i32>,
)
    ensures
        ({
            let found = helpers_in(listing, h, roots, self_pid);
            let strays = strays_of(found, recorded, found.len() as int);
            forall|i: int|
                0 <= i < strays.len() ==> (#[trigger] strays[i]) != self_pid && recorded != Some(
                    strays[i],
                ) && exists|k: int|
                    0 <= k < found.len() && (#[trigger] found[k]).pid == strays[i] && is_helper(
                        found[k].command,
                        h,
                    ) && names_root(found[k].command, roots)
        }),
{
    let found = helpers_in(listing, h, roots, self_pid);
    let strays = strays_of(found, recorded, found.len() as int);
    lemma_helper_shape(lines_of(listing), h, roots, self_pid);
    lemma_strays(found, recorded, found.len() as int);
    assert forall|i: int| 0 <= i < strays.len() implies (#[trigger] strays[i]) != self_pid
        && recorded != Some(strays[i]) && exists|k: int|
        0 <= k < found.len() && (#[trigger] found[k]).pid == strays[i] && is_helper(
            found[k].command,
            h,
        ) && names_root(found[k].command, roots) by {
        assert(is_stray_pid(found, recorded, found.len() as int, strays[i]));
        let k = choose|k: int|
            0 <= k < found.len() && is_stray(#[trigger] found[k], recorded) && found[k].pid
                == strays[i];
        assert(found[k] == helpers_among(lines_of(listing), h, roots, self_pid)[k]);
    }
}

/// Numbers in a list, as it is shown.
pub open spec fn shown_pids(pids: Seq<i32>) -> Seq<char> {
    "["@ + joined(pids.map_values(|p: i32| signed_decimal(p as int)), ", "@) + "]"@
}

fn show_pids(pids: &Vec<i32>) -> (r: String)
    ensures
        r@ == shown_pids(pids@),
{
    let mut out = Lines::new();
    let ghost f = |p: i32| signed_decimal(p as int);
    let mut i: usize = 0;
    assert(out@ =~= pids@.subrange(0, 0).map_values(f));
    while i < pids.len()
        invariant
            i <= pids.len(),
            f == (|p: i32| signed_decimal(p as int)),
            out@ == pids@.subrange(0, i as int).map_values(f),
        decreases pids.len() - i,
    {
        out.add(signed_text(pids[i] as i64).as_str());
        assert(pids@.subrange(0, i + 1).map_values(f) =~= pids@.subrange(0, i as int).map_values(
            f,
        ).push(f(pids@[i as int])));
        i = i + 1;
    }
    assert(pids@.subrange(0, pids@.len() as int) =~= pids@);
    concat3("[", out.join(", ").as_str(), "]")
}

/// What is said of the strays.
pub open spec fn stray_parts(parakeet: Seq<i32>, web: Seq<i32>) -> Seq<Seq<char>> {
    (if parakeet.len() == 0 {
        Seq::empty()
    } else {
        seq!["parakeet "@ + shown_pids(parakeet)]
    }) + (if web.len() == 0 {
        Seq::empty()
    } else {
        seq!["web "@ + shown_pids(web)]
    })
}

/// Whether there are no strays, and what is said of those there are.
pub fn stray_summary(parakeet: &Vec<i32>, web: &Vec<i32>) -> (r: (bool, String))
    ensures
        r.0 == (parakeet@.len() == 0 && web@.len() == 0),
        r.1@ == if parakeet@.len() == 0 && web@.len() == 0 {
            "none"@
        } else {
            joined(stray_parts(parakeet@, web@), ", "@) + " (run 'riff restart')"@
        },
{
    if parakeet.len() == 0 && web.len() == 0 {
        return (true, "none".to_owned());
    }
    let mut parts = Lines::new();
    if parakeet.len() > 0 {
        parts.add(concat("parakeet ", show_pids(parakeet).as_str()).as_str());
    }
    if web.len() > 0 {
        parts.add(concat("web ", show_pids(web).as_str()).as_str());
    }
    assert(parts@ =~= stray_parts(parakeet@, web@));
    (false, concat(parts.join(", ").as_str(), " (run 'riff restart')"))
}

// ---------------------------------------------------------------------------------------------
// Stopping them
// ---------------------------------------------------------------------------------------------

/// How far the stopping of a process has come.
#[derive(PartialEq, Eq, Structural, Clone, Copy, Debug)]
pub enum StopPhase {
    /// It has not begun.
    Asked,
    /// The process was asked to end.
    Terminating,
    /// The process was killed.
    Killing,
}

/// What is seen of a process that is being stopped.
#[derive(PartialEq, Eq, Structural, Clone, Copy, Debug)]
pub enum StopSight {
    /// It is gone.
    Gone,
    /// It lives.
    Alive,
    /// It lives, and the time for it to end is over.
    Overdue,
    /// It is gone, but the time for it to end was over before that was seen.
    Late,
    /// It could not be signalled.
    Unreachable,
}

/// What is seen of a process, given whether it was reached by its last signal, whether it lives, and
/// whether the time for it to end is over.
pub fn stop_sight(reached: bool, alive: bool, over: bool) -> (r: StopSight)
    ensures
        r == if !reached {
            StopSight::Unreachable
        } else if alive {
            if over {
                StopSight::Overdue
            } else {
                StopSight::Alive
            }
        } else if over {
            StopSight::Late
        } else {
            StopSight::Gone
        },
{
    if !reached {
        StopSight::Unreachable
    } else if alive {
        if over {
            StopSight::Overdue
        } else {
            StopSight::Alive
        }
    } else if over {
        StopSight::Late
    } else {
        StopSight::Gone
    }
}

/// What is done next about a process that is being stopped.
#[derive(PartialEq, Eq, Structural, Clone, Copy, Debug)]
pub enum StopMove {
    Terminate,
    Wait,
    Kill,
    Finish(StopEnd),
}

/// How the stopping of a process ended.
#[derive(PartialEq, Eq, Structural, Clone, Copy, Debug)]
pub enum StopEnd {
    AlreadyExited,
    SignalFailed,
    Terminated,
    Killed,
    StillRunning,
}

/// What is done next about a process that is being stopped: it is asked to end, then waited for,
/// and killed where it was not seen to end in time.
pub open spec fn stop_move(phase: StopPhase, sight: StopSight) -> StopMove {
    match (phase, sight) {
        (_, StopSight::Unreachable) => StopMove::Finish(StopEnd::SignalFailed),
        (StopPhase::Asked, StopSight::Gone) => StopMove::Finish(StopEnd::AlreadyExited),
        (StopPhase::Asked, StopSight::Late) => StopMove::Finish(StopEnd::AlreadyExited),
        (StopPhase::Asked, _) => StopMove::Terminate,
        (StopPhase::Terminating, StopSight::Gone) => StopMove::Finish(StopEnd::Terminated),
        (StopPhase::Terminating, StopSight::Alive) => StopMove::Wait,
        (StopPhase::Terminating, _) => StopMove::Kill,
        (StopPhase::Killing, StopSight::Gone) => StopMove::Finish(StopEnd::Killed),
        (StopPhase::Killing, StopSight::Late) => StopMove::Finish(StopEnd::Killed),
        (StopPhase::Killing, _) => StopMove::Finish(StopEnd::StillRunning),
    }
}

/// The phase after a move.
pub open spec fn stop_phase(phase: StopPhase, m: StopMove) -> StopPhase {
    match m {
        StopMove::Terminate => StopPhase::Terminating,
        StopMove::Kill => StopPhase::Killing,
        _ => phase,
    }
}

/// What is done next about a process that is being stopped.
pub fn stop_pid(phase: &mut StopPhase, sight: StopSight) -> (r: StopMove)
    ensures
        r == stop_move(*old(phase), sight),
        *final(phase) == stop_phase(*old(phase), r),
{
    let m: StopMove = match (*phase, sight) {
        (_, StopSight::Unreachable) => StopMove::Finish(StopEnd::SignalFailed),
        (StopPhase::Asked, StopSight::Gone) => StopMove::Finish(StopEnd::AlreadyExited),
        (StopPhase::Asked, StopSight::Late) => StopMove::Finish(StopEnd::AlreadyExited),
        (StopPhase::Asked, _) => StopMove::Terminate,
        (StopPhase::Terminating, StopSight::Gone) => StopMove::Finish(StopEnd::Terminated),
        (StopPhase::Terminating, StopSight::Alive) => StopMove::Wait,
        (StopPhase::Terminating, _) => StopMove::Kill,
        (StopPhase::Killing, StopSight::Gone) => StopMove::Finish(StopEnd::Killed),
        (StopPhase::Killing, StopSight::Late) => StopMove::Finish(StopEnd::Killed),
        (StopPhase::Killing, _) => StopMove::Finish(StopEnd::StillRunning),
    };
    match m {
        StopMove::Terminate => {
            *phase = StopPhase::Terminating;
        },
        StopMove::Kill => {
            *phase = StopPhase::Killing;
        },
        _ => {},
    }
    m
}

/// A process is killed only after it was asked to end, and after its time for that is over.
pub proof fn killing_comes_last(phase: StopPhase, sight: StopSight)
    ensures
        stop_move(phase, sight) == StopMove::Kill ==> phase == StopPhase::Terminating && (sight
            == StopSight::Overdue || sight == StopSight::Late),
        stop_move(phase, sight) == StopMove::Terminate ==> phase == StopPhase::Asked,
        stop_phase(phase, stop_move(phase, sight)) == StopPhase::Killing && phase
            != StopPhase::Killing ==> phase == StopPhase::Terminating,
{
}

/// What is done next about a server that is to be replaced.
#[derive(PartialEq, Eq, Structural, Clone, Copy, Debug)]
pub enum ReplaceMove {
    /// It is asked to end.
    Ask,
    /// It is waited for.
    Wait,
    /// It has ended: its record is cleared, and another one can be started.
    Clear,
    /// It stays.
    GiveUp,
}

/// What is done next about a server that is to be replaced: as about any process that is stopped,
/// but it is never killed, and one that was not seen to end because it was asked to stays.
pub open spec fn replace_move(phase: StopPhase, sight: StopSight) -> ReplaceMove {
    match stop_move(phase, sight) {
        StopMove::Terminate => ReplaceMove::Ask,
        StopMove::Wait => ReplaceMove::Wait,
        StopMove::Finish(StopEnd::Terminated) => ReplaceMove::Clear,
        _ => ReplaceMove::GiveUp,
    }
}

/// What is done next about a server that is to be replaced.
pub fn replace_step(phase: &mut StopPhase, sight: StopSight) -> (r: ReplaceMove)
    ensures
        r == replace_move(*old(phase), sight),
        *final(phase) == stop_phase(*old(phase), stop_move(*old(phase), sight)),
{
    match stop_pid(phase, sight) {
        StopMove::Terminate => ReplaceMove::Ask,
        StopMove::Wait => ReplaceMove::Wait,
        StopMove::Finish(StopEnd::Terminated) => ReplaceMove::Clear,
        _ => ReplaceMove::GiveUp,
    }
}

/// The record of a server that is replaced is cleared only once it was asked to end and was seen to
/// be gone in time.
pub proof fn replaced_servers_have_ended(phase: StopPhase, sight: StopSight)
    ensures
        replace_move(phase, sight) == ReplaceMove::Clear <==> phase == StopPhase::Terminating
            && sight == StopSight::Gone,
{
}

/// The name of the way in which the stopping of a process ended.
pub open spec fn stop_name(e: StopEnd) -> Seq<char> {
    match e {
        StopEnd::AlreadyExited => "already_exited"@,
        StopEnd::SignalFailed => "signal_failed"@,
        StopEnd::Terminated => "terminated"@,
        StopEnd::Killed => "killed"@,
        StopEnd::StillRunning => "still_running"@,
    }
}

impl StopEnd {
    /// The name of the way in which the stopping of a process ended.
    pub fn name(self) -> (r: &'static str)
        ensures
            r@ == stop_name(self),
    {
        match self {
            StopEnd::AlreadyExited => "already_exited",
            StopEnd::SignalFailed => "signal_failed",
            StopEnd::Terminated => "terminated",
            StopEnd::Killed => "killed",
            StopEnd::StillRunning => "still_running",
        }
    }
}

/// Whether the process is gone.
pub open spec fn is_gone(e: StopEnd) -> bool {
    e != StopEnd::SignalFailed && e != StopEnd::StillRunning
}

/// Whether all processes are gone: only then is their record cleared, so that one that was not
/// stopped can still be found.
pub fn all_stopped(ends: &Vec<(i32, StopEnd)>) -> (r: bool)
    ensures
        r == forall|i: int| 0 <= i < ends@.len() ==> is_gone((#[trigger] ends@[i]).1),
{
    let mut i: usize = 0;
    while i < ends.len()
        invariant
            i <= ends.len(),
            forall|k: int| 0 <= k < i ==> is_gone((#[trigger] ends@[k]).1),
        decreases ends.len() - i,
    {
        let gone = match ends[i].1 {
            StopEnd::SignalFailed => false,
            StopEnd::StillRunning => false,
            _ => true,
        };
        if !gone {
            assert(!is_gone(ends@[i as int].1));
            return false;
        }
        i = i + 1;
    }
    true
}

// ---------------------------------------------------------------------------------------------
// Restarting them
// ---------------------------------------------------------------------------------------------

/// The helpers that are restarted: those that are asked for, and both where none is.
pub fn restart_targets(parakeet: bool, web: bool) -> (r: Vec<Helper>)
    ensures
        r@ == if parakeet == web {
            seq![Helper::Parakeet, Helper::Web]
        } else if parakeet {
            seq![Helper::Parakeet]
        } else {
            seq![Helper::Web]
        },
{
    let both = !parakeet && !web;
    let mut out: Vec<Helper> = Vec::new();
    if both || parakeet {
        out.push(Helper::Parakeet);
    }
    if both || web {
        out.push(Helper::Web);
    }
    assert(out@ =~= if parakeet == web {
        seq![Helper::Parakeet, Helper::Web]
    } else if parakeet {
        seq![Helper::Parakeet]
    } else {
        seq![Helper::Web]
    });
    out
}

/// The first `n` processes that are ours, or that are not.
pub open spec fn owned_of(found: Seq<HelperView>, owned: bool, n: int) -> Seq<HelperView>
    decreases n,
{
    if n <= 0 {
        Seq::empty()
    } else if found[n - 1].owned == owned {
        owned_of(found, owned, n - 1).push(found[n - 1])
    } else {
        owned_of(found, owned, n - 1)
    }
}

/// The processes that are ours, and those that are not.
pub fn partition_owned(found: Vec<HelperProcess>) -> (r: (Vec<HelperProcess>, Vec<HelperProcess>))
    ensures
        helper_views(r.0@) == owned_of(helper_views(found@), true, found@.len() as int),
        helper_views(r.1@) == owned_of(helper_views(found@), false, found@.len() as int),
{
    let ghost fv = helper_views(found@);
    let mut own: Vec<HelperProcess> = Vec::new();
    let mut foreign: Vec<HelperProcess> = Vec::new();
    let mut i: usize = 0;
    assert(helper_views(own@) =~= Seq::empty());
    assert(helper_views(foreign@) =~= Seq::empty());
    while i < found.len()
        invariant
            i <= found.len(),
            fv == helper_views(found@),
            helper_views(own@) == owned_of(fv, true, i as int),
            helper_views(foreign@) == owned_of(fv, false, i as int),
        decreases found.len() - i,
    {
        let p = &found[i];
        assert(fv[i as int] == p@);
        let copy = HelperProcess { pid: p.pid, command: p.command.clone(), owned: p.owned };
        if p.owned {
            let ghost before = own@;
            own.push(copy);
            assert(helper_views(own@) =~= helper_views(before).push(fv[i as int]));
        } else {
            let ghost before = foreign@;
            foreign.push(copy);
            assert(helper_views(foreign@) =~= helper_views(before).push(fv[i as int]));
        }
        i = i + 1;
    }
    (own, foreign)
}

/// What is reported of processes.
pub open spec fn process_trees(v: Seq<HelperView>) -> Seq<Tree> {
    v.map_values(|p: HelperView| process_tree(p))
}

fn process_list(v: &Vec<HelperProcess>) -> (r: Json)
    ensures
        r@ == Tree::List(process_trees(helper_views(v@))),
{
    let ghost hv = helper_views(v@);
    let mut items: Vec<Json> = Vec::new();
    let mut i: usize = 0;
    assert(item_views(items@) =~= process_trees(hv.subrange(0, 0)));
    while i < v.len()
        invariant
            i <= v.len(),
            hv == helper_views(v@),
            item_views(items@) == process_trees(hv.subrange(0, i as int)),
        decreases v.len() - i,
    {
        let ghost before = items@;
        assert(hv[i as int] == v@[i as int]@);
        items.push(v[i].as_json());
        assert(item_views(items@) =~= item_views(before).push(process_tree(hv[i as int])));
        assert(process_trees(hv.subrange(0, i + 1)) =~= process_trees(hv.subrange(0, i as int)).push(
            process_tree(hv[i as int]),
        ));
        i = i + 1;
    }
    assert(hv.subrange(0, hv.len() as int) =~= hv);
    Json::list(items)
}

/// What is reported where a restart would be made.
pub fn dry_restart_report(helper: Helper, own: &Vec<HelperProcess>, foreign: &Vec<HelperProcess>) -> (r:
    Json)
    ensures
        r@ == Tree::Object(
            object_of(
                seq![
                    ("server"@, Tree::Text(label_of(helper))),
                    ("dry_run"@, Tree::Bool(true)),
                    ("found"@, Tree::List(process_trees(helper_views(own@)))),
                    ("foreign"@, Tree::List(process_trees(helper_views(foreign@)))),
                ],
            ),
        ),
{
    let mut p = Pairs::new();
    p.text("server", helper.label());
    p.flag("dry_run", true);
    p.add("found", process_list(own));
    p.add("foreign", process_list(foreign));
    assert(p@ == seq![
        ("server"@, Tree::Text(label_of(helper))),
        ("dry_run"@, Tree::Bool(true)),
        ("found"@, Tree::List(process_trees(helper_views(own@)))),
        ("foreign"@, Tree::List(process_trees(helper_views(foreign@)))),
    ]);
    p.object()
}

/// What is reported of a process that was stopped.
pub open spec fn stopped_tree(e: (i32, StopEnd)) -> Tree {
    Tree::Object(
        object_of(
            seq![("pid"@, int_tree(e.0 as int)), ("outcome"@, Tree::Text(stop_name(e.1)))],
        ),
    )
}

fn stopped_list(ends: &Vec<(i32, StopEnd)>) -> (r: Json)
    ensures
        r@ == Tree::List(ends@.map_values(|e: (i32, StopEnd)| stopped_tree(e))),
{
    let ghost f = |e: (i32, StopEnd)| stopped_tree(e);
    let mut items: Vec<Json> = Vec::new();
    let mut i: usize = 0;
    assert(item_views(items@) =~= ends@.subrange(0, 0).map_values(f));
    while i < ends.len()
        invariant
            i <= ends.len(),
            f == (|e: (i32, StopEnd)| stopped_tree(e)),
            item_views(items@) == ends@.subrange(0, i as int).map_values(f),
        decreases ends.len() - i,
    {
        let ghost before = items@;
        let mut p = Pairs::new();
        p.add("pid", int_json(ends[i].0 as i64));
        p.text("outcome", ends[i].1.name());
        assert(p@ == seq![
            ("pid"@, int_tree(ends@[i as int].0 as int)),
            ("outcome"@, Tree::Text(stop_name(ends@[i as int].1))),
        ]);
        items.push(p.object());
        assert(item_views(items@) =~= item_views(before).push(f(ends@[i as int])));
        assert(ends@.subrange(0, i + 1).map_values(f) =~= ends@.subrange(0, i as int).map_values(
            f,
        ).push(f(ends@[i as int])));
        i = i + 1;
    }
    assert(ends@.subrange(0, ends@.len() as int) =~= ends@);
    Json::list(items)
}

/// What is said where nothing was started, because something still runs.
pub fn stop_incomplete() -> (r: Json)
    ensures
        r@ == Tree::Object(
            object_of(
                seq![
                    ("status"@, Tree::Text("skipped"@)),
                    ("reason"@, Tree::Text("stop_incomplete"@)),
                ],
            ),
        ),
{
    let mut p = Pairs::new();
    p.text("status", "skipped");
    p.text("reason", "stop_incomplete");
    assert(p@ == seq![
        ("status"@, Tree::Text("skipped"@)),
        ("reason"@, Tree::Text("stop_incomplete"@)),
    ]);
    p.object()
}

/// What is said where the transcription server cannot be started for want of a script.
pub fn no_script_report() -> (r: Json)
    ensures
        r@ == Tree::Object(
            object_of(
                seq![
                    ("status"@, Tree::Text("error"@)),
                    ("reason"@, Tree::Text("no_parakeet_script"@)),
                ],
            ),
        ),
{
    let mut p = Pairs::new();
    p.text("status", "error");
    p.text("reason", "no_parakeet_script");
    assert(p@ == seq![
        ("status"@, Tree::Text("error"@)),
        ("reason"@, Tree::Text("no_parakeet_script"@)),
    ]);
    p.object()
}

/// A status by itself.
pub fn status_report(status: &str) -> (r: Json)
    ensures
        r@ == Tree::Object(object_of(seq![("status"@, Tree::Text(status@))])),
{
    let mut p = Pairs::new();
    p.text("status", status);
    assert(p@ == seq![("status"@, Tree::Text(status@))]);
    p.object()
}

/// What is reported of a restart.
pub fn restart_report(
    helper: Helper,
    ends: &Vec<(i32, StopEnd)>,
    orphans: usize,
    foreign: &Vec<HelperProcess>,
    started: Json,
) -> (r: Json)
    ensures
        r@ == Tree::Object(
            object_of(
                seq![
                    ("server"@, Tree::Text(label_of(helper))),
                    (
                        "stopped"@,
                        Tree::List(ends@.map_values(|e: (i32, StopEnd)| stopped_tree(e))),
                    ),
                    ("orphans"@, count_tree(orphans as nat)),
                    ("foreign"@, Tree::List(process_trees(helper_views(foreign@)))),
                    ("started"@, started@),
                ],
            ),
        ),
{
    let mut p = Pairs::new();
    p.text("server", helper.label());
    p.add("stopped", stopped_list(ends));
    p.count("orphans", orphans as u64);
    p.add("foreign", process_list(foreign));
    p.add("started", started);
    assert(p@ == seq![
        ("server"@, Tree::Text(label_of(helper))),
        ("stopped"@, Tree::List(ends@.map_values(|e: (i32, StopEnd)| stopped_tree(e)))),
        ("orphans"@, count_tree(orphans as nat)),
        ("foreign"@, Tree::List(process_trees(helper_views(foreign@)))),
        ("started"@, started@),
    ]);
    p.object()
}

/// What the event stream is told of a stray. The id of the stray is not under `pid`: that is the
/// id of the program that tells it.
pub fn orphan_event(helper: Helper, helper_pid: i32, recorded: Option<i32>) -> (r: Json)
    ensures
        r@ == Tree::Object(
            object_of(
                seq![
                    ("server"@, Tree::Text(label_of(helper))),
                    ("helper_pid"@, int_tree(helper_pid as int)),
                    (
                        "tracked_pid"@,
                        match recorded {
                            Some(t) => int_tree(t as int),
                            None => Tree::Null,
                        },
                    ),
                ],
            ),
        ),
{
    let mut p = Pairs::new();
    p.text("server", helper.label());
    p.add("helper_pid", int_json(helper_pid as i64));
    match recorded {
        Some(t) => p.add("tracked_pid", int_json(t as i64)),
        None => p.null("tracked_pid"),
    }
    assert(p@ == seq![
        ("server"@, Tree::Text(label_of(helper))),
        ("helper_pid"@, int_tree(helper_pid as int)),
        (
            "tracked_pid"@,
            match recorded {
                Some(t) => int_tree(t as int),
                None => Tree::Null,
            },
        ),
    ]);
    p.object()
}

/// What is reported of all restarts.
pub fn restart_summary(reports: Vec<Json>) -> (r: Json)
    ensures
        r@ == Tree::Object(
            object_of(
                seq![
                    ("ok"@, Tree::Bool(true)),
                    ("action"@, Tree::Text("restart"@)),
                    ("servers"@, Tree::List(item_views(reports@))),
                ],
            ),
        ),
{
    let mut p = Pairs::new();
    p.flag("ok", true);
    p.text("action", "restart");
    p.add("servers", Json::list(reports));
    assert(p@ == seq![
        ("ok"@, Tree::Bool(true)),
        ("action"@, Tree::Text("restart"@)),
        ("servers"@, Tree::List(item_views(reports@))),
    ]);
    p.object()
}

/// What is said of a restart that would be made.
pub fn dry_restart_line(helper: Helper, found: usize) -> (r: String)
    ensures
        r@ == "[dry-run] restart "@ + label_of(helper) + ": would stop "@ + decimal(found as nat)
            + " owned process(es)"@,
{
    let mut out = concat3("[dry-run] restart ", helper.label(), ": would stop ");
    out.append(decimal_text(found as u64).as_str());
    out.append(" owned process(es)");
    out
}

/// How processes were stopped, as it is shown.
pub open spec fn shown_ends(ends: Seq<(i32, StopEnd)>) -> Seq<char> {
    if ends.len() == 0 {
        "none"@
    } else {
        joined(
            ends.map_values(
                |e: (i32, StopEnd)| signed_decimal(e.0 as int) + "="@ + stop_name(e.1),
            ),
            " "@,
        )
    }
}

fn show_ends(ends: &Vec<(i32, StopEnd)>) -> (r: String)
    ensures
        r@ == shown_ends(ends@),
{
    if ends.len() == 0 {
        return "none".to_owned();
    }
    let ghost f = |e: (i32, StopEnd)| signed_decimal(e.0 as int) + "="@ + stop_name(e.1);
    let mut out = Lines::new();
    let mut i: usize = 0;
    assert(out@ =~= ends@.subrange(0, 0).map_values(f));
    while i < ends.len()
        invariant
            i <= ends.len(),
            f == (|e: (i32, StopEnd)| signed_decimal(e.0 as int) + "="@ + stop_name(e.1)),
            out@ == ends@.subrange(0, i as int).map_values(f),
        decreases ends.len() - i,
    {
        let line = concat3(signed_text(ends[i].0 as i64).as_str(), "=", ends[i].1.name());
        out.add(line.as_str());
        assert(line@ == f(ends@[i as int]));
        assert(ends@.subrange(0, i + 1).map_values(f) =~= ends@.subrange(0, i as int).map_values(
            f,
        ).push(f(ends@[i as int])));
        i = i + 1;
    }
    assert(ends@.subrange(0, ends@.len() as int) =~= ends@);
    out.join(" ")
}

/// What was started, as it is shown: its status, else its outcome.
pub open spec fn shown_start(started: Tree) -> Seq<char> {
    match text_field(started, "status"@) {
        Some(s) => s,
        None => match text_field(started, "outcome"@) {
            Some(s) => s,
            None => "unknown"@,
        },
    }
}

/// What is said of a restart.
pub fn restart_line(helper: Helper, ends: &Vec<(i32, StopEnd)>, orphans: usize, started: &Json) -> (r:
    String)
    ensures
        r@ == "restart "@ + label_of(helper) + ": stopped "@ + decimal(ends@.len()) + " ("@
            + shown_ends(ends@) + ") orphans="@ + decimal(orphans as nat) + " started="@
            + shown_start(started@),
{
    let state: &str = match started.get_text("status") {
        Some(s) => s.as_str(),
        None => match started.get_text("outcome") {
            Some(s) => s.as_str(),
            None => "unknown",
        },
    };
    let mut out = concat3("restart ", helper.label(), ": stopped ");
    out.append(decimal_text(ends.len() as u64).as_str());
    out.append(" (");
    out.append(show_ends(ends).as_str());
    out.append(") orphans=");
    out.append(decimal_text(orphans as u64).as_str());
    out.append(" started=");
    out.append(state);
    out
}

/// What is said of a process of another root.
pub fn foreign_line(p: &HelperProcess) -> (r: String)
    ensures
        r@ == "  left alone (other RIFF_ROOT): pid="@ + signed_decimal(p.pid as int) + " "@
            + p.command@,
{
    let mut out = concat3(
        "  left alone (other RIFF_ROOT): pid=",
        signed_text(p.pid as i64).as_str(),
        " ",
    );
    out.append(p.command.as_str());
    out
}

// ---------------------------------------------------------------------------------------------
// Killing the one that is on record
// ---------------------------------------------------------------------------------------------

/// How the server that is on record was killed.
pub enum KillRun {
    /// None is on record.
    NotRecorded,
    /// The process on record does not live.
    Stale(i32),
    /// It would be killed.
    DryRun(i32),
    /// It could not be asked to end.
    TermFailed(i32, String),
    /// It ended when it was asked to.
    Terminated(i32),
    /// It was asked to end, and was gone only when the time for that was over.
    Late(i32),
    /// It did not end, and could not be killed.
    KillFailed(i32, String),
    /// It did not end, and was killed.
    Killed(i32),
}

/// How the killing of the process on record ended.
#[derive(PartialEq, Eq, Structural, Clone, Copy, Debug)]
pub enum KillEnd {
    Stale,
    DryRun,
    TermFailed,
    Terminated,
    Late,
    KillFailed,
    Killed,
}

/// What is done next about the process on record.
#[derive(PartialEq, Eq, Structural, Clone, Copy, Debug)]
pub enum KillMove {
    Terminate,
    Wait,
    Kill,
    Finish(KillEnd),
}

/// What is done next about the process on record: where it lives it is asked to end, then waited
/// for, and killed where it still lives when the time for that is over. A dry run sends nothing.
pub open spec fn kill_move(phase: StopPhase, sight: StopSight, dry_run: bool) -> KillMove {
    match (phase, sight) {
        (StopPhase::Asked, StopSight::Gone) => KillMove::Finish(KillEnd::Stale),
        (StopPhase::Asked, StopSight::Late) => KillMove::Finish(KillEnd::Stale),
        (StopPhase::Asked, _) => if dry_run {
            KillMove::Finish(KillEnd::DryRun)
        } else {
            KillMove::Terminate
        },
        (StopPhase::Terminating, StopSight::Unreachable) => KillMove::Finish(KillEnd::TermFailed),
        (StopPhase::Terminating, StopSight::Gone) => KillMove::Finish(KillEnd::Terminated),
        (StopPhase::Terminating, StopSight::Late) => KillMove::Finish(KillEnd::Late),
        (StopPhase::Terminating, StopSight::Alive) => KillMove::Wait,
        (StopPhase::Terminating, StopSight::Overdue) => KillMove::Kill,
        (StopPhase::Killing, StopSight::Unreachable) => KillMove::Finish(KillEnd::KillFailed),
        (StopPhase::Killing, _) => KillMove::Finish(KillEnd::Killed),
    }
}

/// The phase after a move.
pub open spec fn kill_phase(phase: StopPhase, m: KillMove) -> StopPhase {
    match m {
        KillMove::Terminate => StopPhase::Terminating,
        KillMove::Kill => StopPhase::Killing,
        _ => phase,
    }
}

/// What is done next about the process on record.
pub fn kill_step(phase: &mut StopPhase, sight: StopSight, dry_run: bool) -> (r: KillMove)
    ensures
        r == kill_move(*old(phase), sight, dry_run),
        *final(phase) == kill_phase(*old(phase), r),
{
    match (*phase, sight) {
        (StopPhase::Asked, StopSight::Gone) => KillMove::Finish(KillEnd::Stale),
        (StopPhase::Asked, StopSight::Late) => KillMove::Finish(KillEnd::Stale),
        (StopPhase::Asked, _) => if dry_run {
            KillMove::Finish(KillEnd::DryRun)
        } else {
            *phase = StopPhase::Terminating;
            KillMove::Terminate
        },
        (StopPhase::Terminating, StopSight::Unreachable) => KillMove::Finish(KillEnd::TermFailed),
        (StopPhase::Terminating, StopSight::Gone) => KillMove::Finish(KillEnd::Terminated),
        (StopPhase::Terminating, StopSight::Late) => KillMove::Finish(KillEnd::Late),
        (StopPhase::Terminating, StopSight::Alive) => KillMove::Wait,
        (StopPhase::Terminating, StopSight::Overdue) => {
            *phase = StopPhase::Killing;
            KillMove::Kill
        },
        (StopPhase::Killing, StopSight::Unreachable) => KillMove::Finish(KillEnd::KillFailed),
        (StopPhase::Killing, _) => KillMove::Finish(KillEnd::Killed),
    }
}

/// A dry run that begins sends no signal: whatever is seen, it is at its end at once.
pub proof fn dry_kills_send_nothing(sight: StopSight)
    ensures
        kill_move(StopPhase::Asked, sight, true) is Finish,
{
}

/// How the process on record was killed, where one is on record. `error` says why it could not be
/// signalled, where it could not.
pub fn kill_run(pid: Option<i32>, end: KillEnd, error: &str) -> (r: KillRun)
    ensures
        match pid {
            None => r is NotRecorded,
            Some(p) => match end {
                KillEnd::Stale => r == KillRun::Stale(p),
                KillEnd::DryRun => r == KillRun::DryRun(p),
                KillEnd::TermFailed => r matches KillRun::TermFailed(n, e) && n == p && e@ == error@,
                KillEnd::Terminated => r == KillRun::Terminated(p),
                KillEnd::Late => r == KillRun::Late(p),
                KillEnd::KillFailed => r matches KillRun::KillFailed(n, e) && n == p && e@ == error@,
                KillEnd::Killed => r == KillRun::Killed(p),
            },
        },
{
    match pid {
        None => KillRun::NotRecorded,
        Some(p) => match end {
            KillEnd::Stale => KillRun::Stale(p),
            KillEnd::DryRun => KillRun::DryRun(p),
            KillEnd::TermFailed => KillRun::TermFailed(p, error.to_owned()),
            KillEnd::Terminated => KillRun::Terminated(p),
            KillEnd::Late => KillRun::Late(p),
            KillEnd::KillFailed => KillRun::KillFailed(p, error.to_owned()),
            KillEnd::Killed => KillRun::Killed(p),
        },
    }
}

/// What is reported of the server on record.
pub open spec fn kill_pairs(run: KillRun, label: Seq<char>, pid_file: Seq<char>) -> Seq<
    (Seq<char>, Tree),
> {
    if run is NotRecorded {
        seq![
            ("server"@, Tree::Text(label)),
            ("pid_file"@, Tree::Text(pid_file)),
            ("status"@, Tree::Text("no_pid_file_or_invalid"@)),
        ]
    } else {
        seq![
            ("server"@, Tree::Text(label)),
            ("pid"@, int_tree(kill_pid(run) as int)),
            ("pid_file"@, Tree::Text(pid_file)),
            ("status"@, Tree::Text(kill_status(run))),
            ("signal"@, Tree::Text(kill_signal(run))),
            ("killed"@, Tree::Bool(run is Terminated || run is Killed)),
            ("error"@, opt_text_tree(kill_error(run))),
        ]
    }
}

/// The process on record.
pub open spec fn kill_pid(run: KillRun) -> i32 {
    match run {
        KillRun::NotRecorded => 0,
        KillRun::Stale(p) => p,
        KillRun::DryRun(p) => p,
        KillRun::TermFailed(p, _) => p,
        KillRun::Terminated(p) => p,
        KillRun::Late(p) => p,
        KillRun::KillFailed(p, _) => p,
        KillRun::Killed(p) => p,
    }
}

/// The status of the server on record.
pub open spec fn kill_status(run: KillRun) -> Seq<char> {
    match run {
        KillRun::NotRecorded => "no_pid_file_or_invalid"@,
        KillRun::Stale(_) => "stale_pid"@,
        KillRun::TermFailed(_, _) => "signal_failed"@,
        KillRun::KillFailed(_, _) => "signal_failed"@,
        _ => "running"@,
    }
}

/// The last signal that the server on record was sent.
pub open spec fn kill_signal(run: KillRun) -> Seq<char> {
    match run {
        KillRun::NotRecorded => "none"@,
        KillRun::Stale(_) => "none"@,
        KillRun::DryRun(_) => "SIGTERM(dry_run)"@,
        KillRun::TermFailed(_, _) => "SIGTERM"@,
        KillRun::Terminated(_) => "SIGTERM"@,
        KillRun::Late(_) => "SIGTERM"@,
        KillRun::KillFailed(_, _) => "SIGKILL"@,
        KillRun::Killed(_) => "SIGKILL"@,
    }
}

/// Why the server on record could not be signalled, where it could not.
pub open spec fn kill_error(run: KillRun) -> Option<Seq<char>> {
    match run {
        KillRun::TermFailed(_, e) => Some("SIGTERM failed: "@ + e@),
        KillRun::KillFailed(_, e) => Some("SIGKILL failed: "@ + e@),
        _ => None,
    }
}

/// What is reported of the server on record.
pub fn kill_server_from_pid_file(run: &KillRun, label: &str, pid_file: &str) -> (r: Json)
    ensures
        r@ == Tree::Object(object_of(kill_pairs(*run, label@, pid_file@))),
{
    let mut p = Pairs::new();
    let mut status: &str = "running";
    let mut killed = false;
    let mut error: Option<String> = None;
    let pid: i32;
    let signal: &str;
    match run {
        KillRun::NotRecorded => {
            p.text("server", label);
            p.text("pid_file", pid_file);
            p.text("status", "no_pid_file_or_invalid");
            assert(p@ == kill_pairs(*run, label@, pid_file@));
            return p.object();
        },
        KillRun::Stale(n) => {
            pid = *n;
            status = "stale_pid";
            signal = "none";
        },
        KillRun::DryRun(n) => {
            pid = *n;
            signal = "SIGTERM(dry_run)";
        },
        KillRun::TermFailed(n, e) => {
            pid = *n;
            status = "signal_failed";
            signal = "SIGTERM";
            error = Some(concat("SIGTERM failed: ", e.as_str()));
        },
        KillRun::Terminated(n) => {
            pid = *n;
            signal = "SIGTERM";
            killed = true;
        },
        KillRun::Late(n) => {
            pid = *n;
            signal = "SIGTERM";
        },
        KillRun::KillFailed(n, e) => {
            pid = *n;
            status = "signal_failed";
            signal = "SIGKILL";
            error = Some(concat("SIGKILL failed: ", e.as_str()));
        },
        KillRun::Killed(n) => {
            pid = *n;
            signal = "SIGKILL";
            killed = true;
        },
    }
    p.text("server", label);
    p.add("pid", int_json(pid as i64));
    p.text("pid_file", pid_file);
    p.text("status", status);
    p.text("signal", signal);
    p.flag("killed", killed);
    p.opt_text("error", &error);
    assert(p@ == kill_pairs(*run, label@, pid_file@));
    p.object()
}

/// Whether the record of a server is cleared, given whether its process lives after all: the record
/// stays where the process does.
pub fn clears_record(run: &KillRun, alive: bool) -> (r: bool)
    ensures
        r == (!alive && !(*run is NotRecorded) && !(*run is DryRun)),
{
    match run {
        KillRun::NotRecorded => false,
        KillRun::DryRun(_) => false,
        _ => !alive,
    }
}

/// What is said of the server on record.
pub fn kill_line(run: &KillRun, label: &str) -> (r: String)
    ensures
        r@ == "kill-server "@ + label@ + ": status="@ + kill_status(*run) + " pid="@ + (
        if *run is NotRecorded {
            "-"@
        } else {
            signed_decimal(kill_pid(*run) as int)
        }) + " signal="@ + kill_signal(*run),
{
    let (status, signal): (&str, &str) = match run {
        KillRun::NotRecorded => ("no_pid_file_or_invalid", "none"),
        KillRun::Stale(_) => ("stale_pid", "none"),
        KillRun::DryRun(_) => ("running", "SIGTERM(dry_run)"),
        KillRun::TermFailed(_, _) => ("signal_failed", "SIGTERM"),
        KillRun::Terminated(_) => ("running", "SIGTERM"),
        KillRun::Late(_) => ("running", "SIGTERM"),
        KillRun::KillFailed(_, _) => ("signal_failed", "SIGKILL"),
        KillRun::Killed(_) => ("running", "SIGKILL"),
    };
    let pid: String = match run {
        KillRun::NotRecorded => "-".to_owned(),
        KillRun::Stale(n) => signed_text(*n as i64),
        KillRun::DryRun(n) => signed_text(*n as i64),
        KillRun::TermFailed(n, _) => signed_text(*n as i64),
        KillRun::Terminated(n) => signed_text(*n as i64),
        KillRun::Late(n) => signed_text(*n as i64),
        KillRun::KillFailed(n, _) => signed_text(*n as i64),
        KillRun::Killed(n) => signed_text(*n as i64),
    };
    let mut out = concat3("kill-server ", label, ": status=");
    out.append(status);
    out.append(" pid=");
    out.append(pid.as_str());
    out.append(" signal=");
    out.append(signal);
    out
}

/// What is reported of all servers on record.
pub fn kill_summary(reports: Vec<Json>) -> (r: Json)
    ensures
        r@ == Tree::Object(
            object_of(
                seq![
                    ("ok"@, Tree::Bool(true)),
                    ("action"@, Tree::Text("kill-server"@)),
                    ("servers"@, Tree::List(item_views(reports@))),
                ],
            ),
        ),
{
    let mut p = Pairs::new();
    p.flag("ok", true);
    p.text("action", "kill-server");
    p.add("servers", Json::list(reports));
    assert(p@ == seq![
        ("ok"@, Tree::Bool(true)),
        ("action"@, Tree::Text("kill-server"@)),
        ("servers"@, Tree::List(item_views(reports@))),
    ]);
    p.object()
}

/// What stands under a key, or null.
pub open spec fn field_or_null(t: Tree, key: Seq<char>) -> Tree {
    match field(t, key) {
        Some(v) => v,
        None => Tree::Null,
    }
}

fn copied_field(t: &Json, key: &str) -> (r: Json)
    ensures
        r@ == field_or_null(t@, key@),
{
    match t.get(key) {
        Some(v) => v.copy(),
        None => Json::Null,
    }
}

/// What the event stream is told of a server that was stopped: a part of what is reported of it.
pub fn server_killed(report: &Json) -> (r: Json)
    ensures
        r@ == Tree::Object(
            object_of(
                seq![
                    ("server"@, field_or_null(report@, "server"@)),
                    ("status"@, field_or_null(report@, "status"@)),
                    ("pid"@, field_or_null(report@, "pid"@)),
                    ("signal"@, field_or_null(report@, "signal"@)),
                ],
            ),
        ),
{
    let mut p = Pairs::new();
    p.add("server", copied_field(report, "server"));
    p.add("status", copied_field(report, "status"));
    p.add("pid", copied_field(report, "pid"));
    p.add("signal", copied_field(report, "signal"));
    assert(p@ == seq![
        ("server"@, field_or_null(report@, "server"@)),
        ("status"@, field_or_null(report@, "status"@)),
        ("pid"@, field_or_null(report@, "pid"@)),
        ("signal"@, field_or_null(report@, "signal"@)),
    ]);
    p.object()
}

// ---------------------------------------------------------------------------------------------
// Which processes are helpers, and how they are stopped
// ---------------------------------------------------------------------------------------------

/// A program goes by what stands behind the last slash of its path.
pub proof fn programs_go_by_their_last_name(dir: Seq<char>, name: Seq<char>)
    requires
        !name.contains('/'),
    ensures
        last_component(dir + seq!['/'] + name) == name,
        last_component(name) == name,
        "python"@.is_prefix_of(name) || "Python"@.is_prefix_of(name) <==> is_python(
            dir + seq!['/'] + name,
        ),
{
    lemma_last_slash(dir, name);
    lemma_no_slash(name);
    let s = dir + seq!['/'] + name;
    assert(s.subrange(dir.len() + 1int, s.len() as int) =~= name);
}

proof fn lemma_last_slash(dir: Seq<char>, name: Seq<char>)
    requires
        !name.contains('/'),
    ensures
        rfind(dir + seq!['/'] + name, '/') == Some(dir.len() as int),
    decreases name.len(),
{
    let s = dir + seq!['/'] + name;
    if name.len() > 0 {
        let less = name.drop_last();
        assert(name[name.len() - 1] != '/');
        assert(!less.contains('/')) by {
            if less.contains('/') {
                let k = choose|k: int| 0 <= k < less.len() && less[k] == '/';
                assert(name[k] == '/');
            }
        }
        lemma_last_slash(dir, less);
        assert(s.subrange(0, s.len() - 1) =~= dir + seq!['/'] + less);
        assert(s[s.len() - 1] == name[name.len() - 1]);
    } else {
        assert(s[s.len() - 1] == '/');
    }
}

proof fn lemma_no_slash(s: Seq<char>)
    requires
        !s.contains('/'),
    ensures
        rfind(s, '/') is None,
    decreases s.len(),
{
    if s.len() > 0 {
        let less = s.subrange(0, s.len() - 1);
        assert(s[s.len() - 1] != '/');
        assert(!less.contains('/')) by {
            if less.contains('/') {
                let k = choose|k: int| 0 <= k < less.len() && less[k] == '/';
                assert(s[k] == '/');
            }
        }
        lemma_no_slash(less);
    }
}

/// A Python interpreter that runs the script of a helper is that helper; the transcription server has
/// to serve as well. Another program is none, whatever its arguments are.
pub proof fn helpers_run_their_script(command: Seq<char>, python: Seq<char>, script: Seq<char>)
    ensures
        words_of(command) == seq![python, script, "--serve"@] && is_python(python) && names_script(
            script,
            Helper::Parakeet,
        ) ==> is_helper(command, Helper::Parakeet),
        words_of(command) == seq![python, script] && is_python(python) && names_script(
            script,
            Helper::Web,
        ) ==> is_helper(command, Helper::Web),
        words_of(command) == seq![python, script] && script != "--serve"@ ==> !is_helper(
            command,
            Helper::Parakeet,
        ),
        words_of(command).len() > 0 && !is_python(words_of(command)[0]) ==> !is_helper(
            command,
            Helper::Parakeet,
        ) && !is_helper(command, Helper::Web),
        names_script("parakeet_transcribe.py"@, Helper::Parakeet),
        names_script(script + "/parakeet_transcribe.py"@, Helper::Parakeet),
        names_script("riff_web_server.py"@, Helper::Web),
        names_script(script + "/riff_web_server.py"@, Helper::Web),
{
    let w = words_of(command);
    if w == seq![python, script, "--serve"@] {
        assert(w[1] == script && w[2] == "--serve"@);
    }
    if w == seq![python, script] {
        assert(w[1] == script && w.len() == 2);
    }
    reveal_strlit("/");
    reveal_strlit("parakeet_transcribe.py");
    reveal_strlit("/parakeet_transcribe.py");
    reveal_strlit("riff_web_server.py");
    reveal_strlit("/riff_web_server.py");
    let a = script + "/parakeet_transcribe.py"@;
    assert("/"@ + "parakeet_transcribe.py"@ =~= "/parakeet_transcribe.py"@);
    assert(a.subrange(script.len() as int, a.len() as int) =~= "/parakeet_transcribe.py"@);
    let b = script + "/riff_web_server.py"@;
    assert("/"@ + "riff_web_server.py"@ =~= "/riff_web_server.py"@);
    assert(b.subrange(script.len() as int, b.len() as int) =~= "/riff_web_server.py"@);
}

/// A line of the process list is read as the process and its command line; the program itself is
/// passed over.
pub proof fn process_lines_read_back(
    pid: i32,
    command: Seq<char>,
    h: Helper,
    roots: Seq<Seq<char>>,
    self_pid: i32,
)
    requires
        trimmed(command) == command,
        command.len() > 0,
    ensures
        ({
            let line = signed_decimal(pid as int) + seq![' '] + command;
            let r = helper_of_line(line, h, roots, self_pid);
            &&& pid != self_pid && is_helper(command, h) ==> r == Some(
                HelperView { pid, command, owned: names_root(command, roots) },
            )
            &&& pid == self_pid || !is_helper(command, h) ==> r is None
        }),
{
    let d = signed_decimal(pid as int);
    let line = d + seq![' '] + command;
    signed_numbers_read_back(pid as int, i32::MIN as int, i32::MAX as int);
    let m = if pid < 0 {
        (-pid) as nat
    } else {
        pid as nat
    };
    decimal_reads_back(m);
    assert forall|k: int| 0 <= k < d.len() implies !is_space(#[trigger] d[k]) by {
        if pid < 0 {
            if k > 0 {
                assert(is_digit(decimal(m)[k - 1]));
            }
        } else {
            assert(is_digit(decimal(m)[k]));
        }
    }
    assert(d.len() > 0);
    assert(line[0] == d[0]);
    lemma_trimmed_start(line, 0);
    assert(line.subrange(0, line.len() as int) =~= line);
    lemma_first_space(line, 0, d.len() as int);
    assert(line.subrange(0, d.len() as int) =~= d);
    let rest = line.subrange(d.len() as int, line.len() as int);
    lemma_trimmed_shape(command);
    trimming_takes_the_space_around(seq![' '], command, Seq::empty());
    assert(rest =~= seq![' '] + command + Seq::<char>::empty());
}

proof fn lemma_first_space(s: Seq<char>, i: int, at: int)
    requires
        0 <= i <= at < s.len(),
        is_space(s[at]),
        forall|k: int| 0 <= k < at ==> !is_space(#[trigger] s[k]),
    ensures
        first_space(s, i) == Some(at),
    decreases at - i,
{
    if i < at {
        assert(!is_space(s[i]));
        lemma_first_space(s, i + 1, at);
    }
}

/// The strays are the processes of this root that are not on record, in their order; and processes
/// part into those of this root and the others.
pub proof fn strays_and_owned_are_picked(found: Seq<HelperView>, recorded: Option<i32>, n: int)
    requires
        0 <= n <= found.len(),
    ensures
        strays_of(found, recorded, n) == found.subrange(0, n).filter(
            |p: HelperView| p.owned && recorded != Some(p.pid),
        ).map_values(|p: HelperView| p.pid),
        owned_of(found, true, n) == found.subrange(0, n).filter(|p: HelperView| p.owned),
        owned_of(found, false, n) == found.subrange(0, n).filter(|p: HelperView| !p.owned),
    decreases n,
{
    reveal(Seq::filter);
    let stray = |p: HelperView| p.owned && recorded != Some(p.pid);
    let own = |p: HelperView| p.owned;
    let other = |p: HelperView| !p.owned;
    let id = |p: HelperView| p.pid;
    let all = found.subrange(0, n);
    if n > 0 {
        strays_and_owned_are_picked(found, recorded, n - 1);
        assert(all.drop_last() =~= found.subrange(0, n - 1));
        assert(all.last() == found[n - 1]);
        let before = all.drop_last().filter(stray);
        if stray(found[n - 1]) {
            assert(before.push(found[n - 1]).map_values(id) =~= before.map_values(id).push(
                found[n - 1].pid,
            ));
        }
    } else {
        assert(all =~= Seq::empty());
        assert(all.filter(stray) =~= Seq::empty());
        assert(all.filter(stray).map_values(id) =~= Seq::empty());
        assert(all.filter(own) =~= Seq::empty());
        assert(all.filter(other) =~= Seq::empty());
    }
}

/// A process is asked to end where it lives, is waited for while it does, is killed where its time is
/// over, and what came of it is told by how it was last seen.
pub proof fn processes_are_stopped_step_by_step(phase: StopPhase)
    ensures
        stop_move(StopPhase::Asked, StopSight::Gone) == StopMove::Finish(StopEnd::AlreadyExited),
        stop_move(StopPhase::Asked, StopSight::Alive) == StopMove::Terminate,
        stop_move(StopPhase::Terminating, StopSight::Alive) == StopMove::Wait,
        stop_move(StopPhase::Terminating, StopSight::Gone) == StopMove::Finish(StopEnd::Terminated),
        stop_move(StopPhase::Terminating, StopSight::Overdue) == StopMove::Kill,
        stop_move(StopPhase::Killing, StopSight::Gone) == StopMove::Finish(StopEnd::Killed),
        stop_move(StopPhase::Killing, StopSight::Alive) == StopMove::Finish(StopEnd::StillRunning),
        stop_move(StopPhase::Killing, StopSight::Overdue) == StopMove::Finish(
            StopEnd::StillRunning,
        ),
        stop_move(phase, StopSight::Unreachable) == StopMove::Finish(StopEnd::SignalFailed),
        stop_phase(phase, StopMove::Terminate) == StopPhase::Terminating,
        stop_phase(phase, StopMove::Kill) == StopPhase::Killing,
        stop_phase(phase, StopMove::Wait) == phase,
        replace_move(StopPhase::Asked, StopSight::Alive) == ReplaceMove::Ask,
        replace_move(StopPhase::Terminating, StopSight::Alive) == ReplaceMove::Wait,
        replace_move(StopPhase::Terminating, StopSight::Overdue) == ReplaceMove::GiveUp,
        replace_move(StopPhase::Asked, StopSight::Gone) == ReplaceMove::GiveUp,
        is_gone(StopEnd::AlreadyExited) && is_gone(StopEnd::Terminated) && is_gone(StopEnd::Killed),
        !is_gone(StopEnd::SignalFailed) && !is_gone(StopEnd::StillRunning),
{
}

/// The server on record is killed in the same steps, and a dry run ends where it would begin.
pub proof fn recorded_servers_are_killed_step_by_step(dry_run: bool)
    ensures
        kill_move(StopPhase::Asked, StopSight::Gone, dry_run) == KillMove::Finish(KillEnd::Stale),
        kill_move(StopPhase::Asked, StopSight::Alive, false) == KillMove::Terminate,
        kill_move(StopPhase::Asked, StopSight::Alive, true) == KillMove::Finish(KillEnd::DryRun),
        kill_move(StopPhase::Terminating, StopSight::Alive, dry_run) == KillMove::Wait,
        kill_move(StopPhase::Terminating, StopSight::Gone, dry_run) == KillMove::Finish(
            KillEnd::Terminated,
        ),
        kill_move(StopPhase::Terminating, StopSight::Late, dry_run) == KillMove::Finish(
            KillEnd::Late,
        ),
        kill_move(StopPhase::Terminating, StopSight::Overdue, dry_run) == KillMove::Kill,
        kill_move(StopPhase::Terminating, StopSight::Unreachable, dry_run) == KillMove::Finish(
            KillEnd::TermFailed,
        ),
        kill_move(StopPhase::Killing, StopSight::Unreachable, dry_run) == KillMove::Finish(
            KillEnd::KillFailed,
        ),
        kill_move(StopPhase::Killing, StopSight::Alive, dry_run) == KillMove::Finish(
            KillEnd::Killed,
        ),
        kill_phase(StopPhase::Asked, KillMove::Terminate) == StopPhase::Terminating,
        kill_phase(StopPhase::Terminating, KillMove::Kill) == StopPhase::Killing,
        kill_phase(StopPhase::Terminating, KillMove::Wait) == StopPhase::Terminating,
{
}

/// What is reported of the server on record names its process, what became of it and the last signal
/// that it was sent.
pub proof fn kills_are_reported(p: i32, e: String, label: Seq<char>, pid_file: Seq<char>)
    ensures
        ({
            let of = |run: KillRun| Tree::Object(object_of(kill_pairs(run, label, pid_file)));
            let says = |run: KillRun, status: Seq<char>, signal: Seq<char>, killed: bool|
                {
                    &&& text_field(of(run), "server"@) == Some(label)
                    &&& field(of(run), "pid"@) == Some(int_tree(p as int))
                    &&& text_field(of(run), "status"@) == Some(status)
                    &&& text_field(of(run), "signal"@) == Some(signal)
                    &&& field(of(run), "killed"@) == Some(Tree::Bool(killed))
                };
            &&& says(KillRun::Stale(p), "stale_pid"@, "none"@, false)
            &&& says(KillRun::DryRun(p), "running"@, "SIGTERM(dry_run)"@, false)
            &&& says(KillRun::TermFailed(p, e), "signal_failed"@, "SIGTERM"@, false)
            &&& says(KillRun::Terminated(p), "running"@, "SIGTERM"@, true)
            &&& says(KillRun::Late(p), "running"@, "SIGTERM"@, false)
            &&& says(KillRun::KillFailed(p, e), "signal_failed"@, "SIGKILL"@, false)
            &&& says(KillRun::Killed(p), "running"@, "SIGKILL"@, true)
            &&& text_field(of(KillRun::NotRecorded), "status"@) == Some("no_pid_file_or_invalid"@)
            &&& text_field(of(KillRun::TermFailed(p, e)), "error"@) == Some(
                "SIGTERM failed: "@ + e@,
            )
            &&& text_field(of(KillRun::KillFailed(p, e)), "error"@) == Some(
                "SIGKILL failed: "@ + e@,
            )
        }),
{
    lemma_kill_fields(KillRun::Stale(p), label, pid_file);
    lemma_kill_fields(KillRun::DryRun(p), label, pid_file);
    lemma_kill_fields(KillRun::TermFailed(p, e), label, pid_file);
    lemma_kill_fields(KillRun::Terminated(p), label, pid_file);
    lemma_kill_fields(KillRun::Late(p), label, pid_file);
    lemma_kill_fields(KillRun::KillFailed(p, e), label, pid_file);
    lemma_kill_fields(KillRun::Killed(p), label, pid_file);
    lemma_kill_fields(KillRun::NotRecorded, label, pid_file);
}

proof fn lemma_kill_fields(run: KillRun, label: Seq<char>, pid_file: Seq<char>)
    ensures
        ({
            let t = object_of(kill_pairs(run, label, pid_file));
            &&& lookup(t, "server"@) == Some(Tree::Text(label))
            &&& lookup(t, "status"@) == Some(Tree::Text(kill_status(run)))
            &&& !(run is NotRecorded) ==> lookup(t, "pid"@) == Some(int_tree(kill_pid(run) as int))
            &&& !(run is NotRecorded) ==> lookup(t, "signal"@) == Some(
                Tree::Text(kill_signal(run)),
            )
            &&& !(run is NotRecorded) ==> lookup(t, "killed"@) == Some(
                Tree::Bool(run is Terminated || run is Killed),
            )
            &&& !(run is NotRecorded) ==> lookup(t, "error"@) == Some(
                opt_text_tree(kill_error(run)),
            )
        }),
{
    reveal_strlit("server");
    reveal_strlit("pid");
    reveal_strlit("pid_file");
    reveal_strlit("status");
    reveal_strlit("signal");
    reveal_strlit("killed");
    reveal_strlit("error");
    assert("server"@.len() == 6 && "pid"@.len() == 3 && "pid_file"@.len() == 8);
    assert("status"@.len() == 6 && "signal"@.len() == 6 && "killed"@.len() == 6);
    assert("error"@.len() == 5 && "server"@[1] == 'e' && "status"@[1] == 't');
    assert("signal"@[1] == 'i' && "killed"@[1] == 'i' && "signal"@[0] == 's' && "killed"@[0] == 'k');
    let p = kill_pairs(run, label, pid_file);
    pairs_read_back(p, 0);
    if run is NotRecorded {
        pairs_read_back(p, 2);
    } else {
        pairs_read_back(p, 1);
        pairs_read_back(p, 3);
        pairs_read_back(p, 4);
        pairs_read_back(p, 5);
        pairs_read_back(p, 6);
    }
}

/// Process ids are shown in brackets, with commas between them.
pub proof fn pids_are_shown_in_brackets(pids: Seq<i32>, last: i32)
    ensures
        shown_pids(seq![last]) == "["@ + signed_decimal(last as int) + "]"@,
        pids.len() > 0 ==> shown_pids(pids.push(last)) == "["@ + (joined(
            pids.map_values(|p: i32| signed_decimal(p as int)),
            ", "@,
        ) + ", "@ + signed_decimal(last as int)) + "]"@,
        pids.len() > 0 ==> stray_parts(pids, Seq::empty()) == seq!["parakeet "@ + shown_pids(pids)],
        pids.len() > 0 ==> stray_parts(Seq::empty(), pids) == seq!["web "@ + shown_pids(pids)],
        stray_parts(Seq::empty(), Seq::empty()).len() == 0,
{
    let f = |p: i32| signed_decimal(p as int);
    assert(seq![last].map_values(f) =~= seq![signed_decimal(last as int)]);
    let m = pids.map_values(f);
    assert(pids.push(last).map_values(f) =~= m.push(signed_decimal(last as int)));
    assert(m.push(signed_decimal(last as int)).drop_last() =~= m);
    if pids.len() > 0 {
        assert(stray_parts(pids, Seq::empty()) =~= seq!["parakeet "@ + shown_pids(pids)]);
        assert(stray_parts(Seq::empty(), pids) =~= seq!["web "@ + shown_pids(pids)]);
    }
}

/// What is shown of a start is its status, else its outcome.
pub proof fn starts_show_their_status(t: Tree)
    ensures
        text_field(t, "status"@) matches Some(s) ==> shown_start(t) == s,
        text_field(t, "status"@) is None ==> (text_field(t, "outcome"@) matches Some(s)
            ==> shown_start(t) == s),
        text_field(t, "status"@) is None && text_field(t, "outcome"@) is None ==> shown_start(t)
            == "unknown"@,
        shown_ends(Seq::empty()) == "none"@,
{
}

/// What is reported of a stopped process is its id and how it ended, under one of five names.
pub proof fn stopped_processes_are_reported(pid: i32)
    ensures
        forall|end: StopEnd| #[trigger]
            field(stopped_tree((pid, end)), "pid"@) == Some(int_tree(pid as int)),
        text_field(stopped_tree((pid, StopEnd::AlreadyExited)), "outcome"@) == Some(
            "already_exited"@,
        ),
        text_field(stopped_tree((pid, StopEnd::SignalFailed)), "outcome"@) == Some(
            "signal_failed"@,
        ),
        text_field(stopped_tree((pid, StopEnd::Terminated)), "outcome"@) == Some("terminated"@),
        text_field(stopped_tree((pid, StopEnd::Killed)), "outcome"@) == Some("killed"@),
        text_field(stopped_tree((pid, StopEnd::StillRunning)), "outcome"@) == Some(
            "still_running"@,
        ),
{
    reveal_strlit("pid");
    reveal_strlit("outcome");
    assert("pid"@.len() == 3 && "outcome"@.len() == 7);
    assert forall|end: StopEnd| #[trigger]
        field(stopped_tree((pid, end)), "pid"@) == Some(int_tree(pid as int)) && text_field(
            stopped_tree((pid, end)),
            "outcome"@,
        ) == Some(stop_name(end)) by {
        let p = seq![("pid"@, int_tree(pid as int)), ("outcome"@, Tree::Text(stop_name(end)))];
        pairs_read_back(p, 0);
        pairs_read_back(p, 1);
    }
    assert(field(stopped_tree((pid, StopEnd::AlreadyExited)), "pid"@) is Some);
    assert(field(stopped_tree((pid, StopEnd::SignalFailed)), "pid"@) is Some);
    assert(field(stopped_tree((pid, StopEnd::Terminated)), "pid"@) is Some);
    assert(field(stopped_tree((pid, StopEnd::Killed)), "pid"@) is Some);
    assert(field(stopped_tree((pid, StopEnd::StillRunning)), "pid"@) is Some);
}

/// Stopped processes are shown one behind the other, each with its end.
pub proof fn ends_are_shown_in_a_row(ends: Seq<(i32, StopEnd)>, pid: i32)
    requires
        ends.len() > 0,
    ensures
        shown_ends(Seq::empty()) == "none"@,
        shown_ends(seq![(pid, StopEnd::Killed)]) == signed_decimal(pid as int) + "="@ + "killed"@,
        shown_ends(ends.push((pid, StopEnd::Terminated))) == shown_ends(ends) + " "@ + (
        signed_decimal(pid as int) + "="@ + "terminated"@),
{
    let f = |e: (i32, StopEnd)| signed_decimal(e.0 as int) + "="@ + stop_name(e.1);
    let one = seq![(pid, StopEnd::Killed)].map_values(f);
    assert(one =~= seq![signed_decimal(pid as int) + "="@ + "killed"@]);
    reveal_with_fuel(joined, 2);
    let more = ends.push((pid, StopEnd::Terminated)).map_values(f);
    assert(more.drop_last() =~= ends.map_values(f));
    assert(more.last() == signed_decimal(pid as int) + "="@ + "terminated"@);
}

/// The two helpers go by their labels and by their scripts.
pub proof fn helpers_go_by_label_and_script()
    ensures
        label_of(Helper::Parakeet) == "parakeet"@,
        label_of(Helper::Web) == "web"@,
        marker_of(Helper::Parakeet) == "parakeet_transcribe.py"@,
        marker_of(Helper::Web) == "riff_web_server.py"@,
{
}

/// Of a recorded server it is told which signal was sent last, to which process, and what went wrong.
pub proof fn last_signals_are_told(p: i32, e: String)
    ensures
        kill_signal(KillRun::NotRecorded) == "none"@ && kill_pid(KillRun::NotRecorded) == 0,
        kill_signal(KillRun::Stale(p)) == "none"@ && kill_pid(KillRun::Stale(p)) == p,
        kill_signal(KillRun::DryRun(p)) == "SIGTERM(dry_run)"@ && kill_pid(KillRun::DryRun(p)) == p,
        kill_signal(KillRun::TermFailed(p, e)) == "SIGTERM"@ && kill_pid(KillRun::TermFailed(p, e))
            == p,
        kill_signal(KillRun::Terminated(p)) == "SIGTERM"@ && kill_pid(KillRun::Terminated(p)) == p,
        kill_signal(KillRun::Late(p)) == "SIGTERM"@ && kill_pid(KillRun::Late(p)) == p,
        kill_signal(KillRun::KillFailed(p, e)) == "SIGKILL"@ && kill_pid(KillRun::KillFailed(p, e))
            == p,
        kill_signal(KillRun::Killed(p)) == "SIGKILL"@ && kill_pid(KillRun::Killed(p)) == p,
        kill_error(KillRun::TermFailed(p, e)) == Some("SIGTERM failed: "@ + e@),
        kill_error(KillRun::KillFailed(p, e)) == Some("SIGKILL failed: "@ + e@),
        kill_error(KillRun::Killed(p)) is None && kill_error(KillRun::Terminated(p)) is None,
        kill_status(KillRun::NotRecorded) == "no_pid_file_or_invalid"@,
        kill_status(KillRun::Stale(p)) == "stale_pid"@,
        kill_status(KillRun::TermFailed(p, e)) == "signal_failed"@,
        kill_status(KillRun::KillFailed(p, e)) == "signal_failed"@,
        kill_status(KillRun::Terminated(p)) == "running"@,
        kill_status(KillRun::Killed(p)) == "running"@,
        kill_status(KillRun::Late(p)) == "running"@,
        kill_status(KillRun::DryRun(p)) == "running"@,
{
}

/// What is reported of a process that was found is its id, whether it is the program's own, and its
/// command; of several, each in its turn.
pub proof fn found_processes_are_reported(p: HelperView, found: Seq<HelperView>, i: int)
    ensures
        field(process_tree(p), "pid"@) == Some(int_tree(p.pid as int)),
        field(process_tree(p), "owned"@) == Some(Tree::Bool(p.owned)),
        text_field(process_tree(p), "command"@) == Some(p.command),
        process_trees(found).len() == found.len(),
        0 <= i < found.len() ==> process_trees(found)[i] == process_tree(found[i]),
{
    reveal_strlit("pid");
    reveal_strlit("owned");
    reveal_strlit("command");
    assert("pid"@.len() == 3 && "owned"@.len() == 5 && "command"@.len() == 7);
    let q = seq![
        ("pid"@, int_tree(p.pid as int)),
        ("owned"@, Tree::Bool(p.owned)),
        ("command"@, Tree::Text(p.command)),
    ];
    pairs_read_back(q, 0);
    pairs_read_back(q, 1);
    pairs_read_back(q, 2);
}

/// What is reported of a recorded server names the file in which it was recorded.
pub proof fn kills_name_the_record(run: KillRun, label: Seq<char>, pid_file: Seq<char>)
    ensures
        text_field(Tree::Object(object_of(kill_pairs(run, label, pid_file))), "pid_file"@) == Some(
            pid_file,
        ),
{
    reveal_strlit("pid_file");
    reveal_strlit("status");
    reveal_strlit("signal");
    reveal_strlit("killed");
    reveal_strlit("error");
    assert("pid_file"@.len() == 8 && "status"@.len() == 6 && "signal"@.len() == 6);
    assert("killed"@.len() == 6 && "error"@.len() == 5);
    let p = kill_pairs(run, label, pid_file);
    if run is NotRecorded {
        pairs_read_back(p, 1);
    } else {
        pairs_read_back(p, 2);
    }
}

} // verus!
