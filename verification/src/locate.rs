//! Where the program finds what comes with it, and what it runs.

use vstd::prelude::*;

use crate::config::list_contains;
use crate::engine::{read_setting, set_text};
use crate::json::{opt_view, str_view};
use crate::paths::{join_path, joined_path};
use crate::pattern::views;
use crate::text::trimmed;

verus! {

/// The model that recordings are transcribed with, unless another is set.
pub const DEFAULT_PARAKEET_MODEL: &'static str =
    "nvidia/stt_en_fastconformer_hybrid_medium_streaming_80ms_pc";

/// The first `n` of `s`, each once, in the order in which they first occur.
pub open spec fn each_once(s: Seq<Seq<char>>, n: int) -> Seq<Seq<char>>
    decreases n,
{
    if n <= 0 {
        Seq::empty()
    } else if each_once(s, n - 1).contains(s[n - 1]) {
        each_once(s, n - 1)
    } else {
        each_once(s, n - 1).push(s[n - 1])
    }
}

/// The first `n` of `all`, each once.
fn distinct(all: &Vec<String>, n: usize) -> (r: Vec<String>)
    requires
        n <= all@.len(),
    ensures
        views(r@) == each_once(views(all@), n as int),
{
    let ghost av = views(all@);
    let mut out: Vec<String> = Vec::new();
    let mut i: usize = 0;
    assert(views(out@) =~= Seq::empty());
    while i < n
        invariant
            i <= n <= all@.len(),
            av == views(all@),
            views(out@) == each_once(av, i as int),
        decreases n - i,
    {
        assert(av[i as int] == all@[i as int]@);
        if !list_contains(&out, all[i].as_str()) {
            let ghost before = out@;
            out.push(all[i].clone());
            assert(views(out@) =~= views(before).push(av[i as int]));
        }
        i = i + 1;
    }
    out
}

/// Nothing is named twice.
pub proof fn each_comes_once(s: Seq<Seq<char>>, n: int)
    requires
        0 <= n <= s.len(),
    ensures
        each_once(s, n).no_duplicates(),
        forall|i: int| 0 <= i < n ==> each_once(s, n).contains(#[trigger] s[i]),
    decreases n,
{
    if n > 0 {
        each_comes_once(s, n - 1);
        let before = each_once(s, n - 1);
        let now = each_once(s, n);
        assert forall|i: int| 0 <= i < n implies now.contains(#[trigger] s[i]) by {
            if i < n - 1 {
                assert(before.contains(s[i]));
                let k = choose|k: int| 0 <= k < before.len() && before[k] == s[i];
                assert(now[k] == s[i]);
            } else if !before.contains(s[i]) {
                assert(now[now.len() - 1] == s[i]);
            }
        }
    }
}

/// The directories above the program that are looked through: the nearest seven, each once.
pub open spec fn roots_of(parents: Seq<Seq<char>>) -> Seq<Seq<char>> {
    each_once(
        parents,
        if parents.len() > 7 {
            7
        } else {
            parents.len() as int
        },
    )
}

/// The directories above the program that are looked through, the nearest first. `parents` are all
/// directories above it.
pub fn executable_ancestor_roots(parents: &Vec<String>) -> (r: Vec<String>)
    ensures
        views(r@) == roots_of(views(parents@)),
{
    let n: usize = if parents.len() > 7 {
        7
    } else {
        parents.len()
    };
    assert(views(parents@).len() == parents@.len());
    distinct(parents, n)
}

/// Where the resources may lie: in each of the roots, or in its `libexec`.
pub open spec fn resource_places(roots: Seq<Seq<char>>, n: int) -> Seq<Seq<char>>
    decreases n,
{
    if n <= 0 {
        Seq::empty()
    } else {
        resource_places(roots, n - 1).push(roots[n - 1]).push(
            joined_path(roots[n - 1], "libexec"@),
        )
    }
}

/// Where the resources may lie, in the order in which it is looked there. Each place counts where
/// it holds `scripts`.
pub fn resource_candidates(roots: &Vec<String>) -> (r: Vec<String>)
    ensures
        views(r@) == resource_places(views(roots@), roots@.len() as int),
{
    let ghost all = views(roots@);
    let mut out: Vec<String> = Vec::new();
    let mut i: usize = 0;
    assert(views(out@) =~= Seq::empty());
    while i < roots.len()
        invariant
            i <= roots.len(),
            all == views(roots@),
            views(out@) == resource_places(all, i as int),
        decreases roots.len() - i,
    {
        assert(all[i as int] == roots@[i as int]@);
        let ghost before = out@;
        out.push(roots[i].clone());
        out.push(join_path(roots[i].as_str(), "libexec"));
        assert(views(out@) =~= views(before).push(all[i as int]).push(
            joined_path(all[i as int], "libexec"@),
        ));
        i = i + 1;
    }
    out
}

/// The first of the places from `i` on that is there.
pub open spec fn first_there(
    places: Seq<Seq<char>>,
    there: Seq<bool>,
    i: int,
) -> Option<Seq<char>>
    decreases places.len() - i,
{
    if i < 0 || i >= places.len() || i >= there.len() {
        None
    } else if there[i] {
        Some(places[i])
    } else {
        first_there(places, there, i + 1)
    }
}

/// The first of the places that is there.
pub fn first_existing_relative(places: &Vec<String>, there: &Vec<bool>) -> (r: Option<String>)
    ensures
        opt_view(r) == first_there(views(places@), there@, 0),
{
    let ghost all = views(places@);
    let mut i: usize = 0;
    while i < places.len() && i < there.len()
        invariant
            i <= places.len(),
            i <= there.len(),
            all == views(places@),
            first_there(all, there@, 0) == first_there(all, there@, i as int),
        decreases places.len() - i,
    {
        assert(all[i as int] == places@[i as int]@);
        if there[i] {
            return Some(places[i].clone());
        }
        i = i + 1;
    }
    None
}

/// The directory of the resources: the one that is set, where it is there, else the first of the
/// places that is. What is set comes with whether it is there.
pub fn resource_dir(set: Option<(&str, bool)>, places: &Vec<String>, there: &Vec<bool>) -> (r:
    Option<String>)
    ensures
        opt_view(r) == match set {
            Some((dir, true)) => Some(dir@),
            _ => first_there(views(places@), there@, 0),
        },
{
    if let Some((dir, found)) = set {
        if found {
            return Some(dir.to_owned());
        }
    }
    first_existing_relative(places, there)
}

/// The places of the first `n` of the names in a directory.
pub open spec fn places_in(root: Seq<char>, names: Seq<Seq<char>>, n: int) -> Seq<Seq<char>>
    decreases n,
{
    if n <= 0 {
        Seq::empty()
    } else {
        places_in(root, names, n - 1).push(joined_path(root, names[n - 1]))
    }
}

/// The places of names in the first `n` directories.
pub open spec fn places_under(roots: Seq<Seq<char>>, names: Seq<Seq<char>>, n: int) -> Seq<
    Seq<char>,
>
    decreases n,
{
    if n <= 0 {
        Seq::empty()
    } else {
        places_under(roots, names, n - 1) + places_in(roots[n - 1], names, names.len() as int)
    }
}

/// The places of names: first in the directory of the resources, then above the program. No
/// directory is looked through twice.
pub open spec fn search_places(
    resources: Option<Seq<char>>,
    ancestors: Seq<Seq<char>>,
    names: Seq<Seq<char>>,
) -> Seq<Seq<char>> {
    let given = match resources {
        Some(d) => seq![d] + ancestors,
        None => ancestors,
    };
    let roots = each_once(given, given.len() as int);
    places_under(roots, names, roots.len() as int)
}

/// The places of names in the order in which it is looked there.
pub fn relative_candidates(
    resources: &Option<String>,
    ancestors: &Vec<String>,
    names: &Vec<String>,
) -> (r: Vec<String>)
    ensures
        views(r@) == search_places(opt_view(*resources), views(ancestors@), views(names@)),
{
    let ghost nv = views(names@);
    let ghost given = match opt_view(*resources) {
        Some(d) => seq![d] + views(ancestors@),
        None => views(ancestors@),
    };
    let mut all: Vec<String> = Vec::new();
    if let Some(d) = resources {
        all.push(d.clone());
    }
    let ghost start = views(all@);
    let mut k: usize = 0;
    assert(views(all@) =~= start + views(ancestors@).subrange(0, 0));
    while k < ancestors.len()
        invariant
            k <= ancestors.len(),
            views(all@) == start + views(ancestors@).subrange(0, k as int),
        decreases ancestors.len() - k,
    {
        let ghost before = all@;
        all.push(ancestors[k].clone());
        assert(views(all@) =~= views(before).push(views(ancestors@)[k as int]));
        assert(views(ancestors@).subrange(0, k + 1) =~= views(ancestors@).subrange(
            0,
            k as int,
        ).push(views(ancestors@)[k as int]));
        assert(views(all@) =~= start + views(ancestors@).subrange(0, k + 1));
        k = k + 1;
    }
    assert(views(ancestors@).subrange(0, ancestors@.len() as int) =~= views(ancestors@));
    assert(views(all@) =~= given);
    let count: usize = all.len();
    let roots = distinct(&all, count);
    let ghost rv = views(roots@);
    let mut out: Vec<String> = Vec::new();
    let mut i: usize = 0;
    assert(views(out@) =~= Seq::empty());
    while i < roots.len()
        invariant
            i <= roots.len(),
            rv == views(roots@),
            nv == views(names@),
            views(out@) == places_under(rv, nv, i as int),
        decreases roots.len() - i,
    {
        let ghost before = views(out@);
        let mut j: usize = 0;
        assert(views(out@) =~= before + places_in(rv[i as int], nv, 0));
        while j < names.len()
            invariant
                i < roots.len(),
                j <= names.len(),
                rv == views(roots@),
                nv == views(names@),
                views(out@) == before + places_in(rv[i as int], nv, j as int),
            decreases names.len() - j,
        {
            let ghost inner = out@;
            assert(rv[i as int] == roots@[i as int]@);
            assert(nv[j as int] == names@[j as int]@);
            out.push(join_path(roots[i].as_str(), names[j].as_str()));
            assert(views(out@) =~= views(inner).push(joined_path(rv[i as int], nv[j as int])));
            assert(views(out@) =~= before + places_in(rv[i as int], nv, j + 1));
            j = j + 1;
        }
        i = i + 1;
    }
    out
}

/// The names under which the program's own interpreter may lie, beside that of its runtime.
pub open spec fn local_python_paths() -> Seq<Seq<char>> {
    seq![
        "runtime/python/bin/python3"@,
        "runtime/python/bin/python"@,
        ".venv/bin/python3"@,
        ".venv/bin/python"@,
    ]
}

/// The places of the program's own interpreter: first in the runtime that was set up, then beside
/// the program.
pub fn default_local_python_bin(
    runtime_dir: &str,
    resources: &Option<String>,
    ancestors: &Vec<String>,
) -> (r: Vec<String>)
    ensures
        views(r@) == seq![
            joined_path(runtime_dir@, "bin/python3"@),
            joined_path(runtime_dir@, "bin/python"@),
        ] + search_places(opt_view(*resources), views(ancestors@), local_python_paths()),
{
    let names: Vec<String> = vec![
        "runtime/python/bin/python3".to_owned(),
        "runtime/python/bin/python".to_owned(),
        ".venv/bin/python3".to_owned(),
        ".venv/bin/python".to_owned(),
    ];
    assert(views(names@) =~= local_python_paths());
    let rest = relative_candidates(resources, ancestors, &names);
    let mut out: Vec<String> = vec![
        join_path(runtime_dir, "bin/python3"),
        join_path(runtime_dir, "bin/python"),
    ];
    let ghost head = views(out@);
    assert(head =~= seq![
        joined_path(runtime_dir@, "bin/python3"@),
        joined_path(runtime_dir@, "bin/python"@),
    ]);
    let mut i: usize = 0;
    assert(views(out@) =~= head + views(rest@).subrange(0, 0));
    while i < rest.len()
        invariant
            i <= rest.len(),
            views(out@) == head + views(rest@).subrange(0, i as int),
        decreases rest.len() - i,
    {
        let ghost before = out@;
        out.push(rest[i].clone());
        assert(views(out@) =~= views(before).push(views(rest@)[i as int]));
        assert(views(rest@).subrange(0, i + 1) =~= views(rest@).subrange(0, i as int).push(
            views(rest@)[i as int],
        ));
        assert(views(out@) =~= head + views(rest@).subrange(0, i + 1));
        i = i + 1;
    }
    assert(views(rest@).subrange(0, rest@.len() as int) =~= views(rest@));
    out
}

/// The names of a script that comes with the program.
fn script_places(resources: &Option<String>, ancestors: &Vec<String>, script: &str) -> (r: Vec<
    String,
>)
    ensures
        views(r@) == search_places(opt_view(*resources), views(ancestors@), seq![script@]),
{
    let names: Vec<String> = vec![script.to_owned()];
    assert(views(names@) =~= seq![script@]);
    relative_candidates(resources, ancestors, &names)
}

/// The places of the transcriber that comes with the program.
pub fn default_parakeet_script(resources: &Option<String>, ancestors: &Vec<String>) -> (r: Vec<
    String,
>)
    ensures
        views(r@) == search_places(
            opt_view(*resources),
            views(ancestors@),
            seq!["scripts/parakeet_transcribe.py"@],
        ),
{
    script_places(resources, ancestors, "scripts/parakeet_transcribe.py")
}

/// The places of the web server that comes with the program.
pub fn default_web_server_script(resources: &Option<String>, ancestors: &Vec<String>) -> (r: Vec<
    String,
>)
    ensures
        views(r@) == search_places(
            opt_view(*resources),
            views(ancestors@),
            seq!["scripts/riff_web_server.py"@],
        ),
{
    script_places(resources, ancestors, "scripts/riff_web_server.py")
}

/// The places of the sound picker that comes with the program.
pub fn default_sound_picker_script(resources: &Option<String>, ancestors: &Vec<String>) -> (r: Vec<
    String,
>)
    ensures
        views(r@) == search_places(
            opt_view(*resources),
            views(ancestors@),
            seq!["scripts/pick_riff_sounds.sh"@],
        ),
{
    script_places(resources, ancestors, "scripts/pick_riff_sounds.sh")
}

/// What is asked for: on the command line, else in the environment, else `fallback`.
pub open spec fn chosen(
    explicit: Option<Seq<char>>,
    env: Option<Seq<char>>,
    fallback: Seq<char>,
) -> Seq<char> {
    match set_text(explicit) {
        Some(v) => v,
        None => match set_text(env) {
            Some(v) => v,
            None => fallback,
        },
    }
}

/// What is asked for: on the command line, else in the environment, else `fallback`.
fn choose_setting(explicit: Option<&str>, env: Option<&str>, fallback: &str) -> (r: String)
    ensures
        r@ == chosen(str_view(explicit), str_view(env), fallback@),
{
    match read_setting(explicit) {
        Some(v) => v,
        None => match read_setting(env) {
            Some(v) => v,
            None => fallback.to_owned(),
        },
    }
}

/// The interpreter: the one that is asked for, else the program's own, else `python3`.
pub fn resolve_python_bin(explicit: Option<&str>, env: Option<&str>, local: &Option<String>) -> (r:
    String)
    ensures
        r@ == chosen(
            str_view(explicit),
            str_view(env),
            match opt_view(*local) {
                Some(p) => p,
                None => "python3"@,
            },
        ),
{
    let fallback: &str = match local {
        Some(p) => p.as_str(),
        None => "python3",
    };
    choose_setting(explicit, env, fallback)
}

/// The model that recordings are transcribed with.
pub fn resolve_parakeet_model(explicit: Option<&str>, env: Option<&str>) -> (r: String)
    ensures
        r@ == chosen(str_view(explicit), str_view(env), DEFAULT_PARAKEET_MODEL@),
{
    choose_setting(explicit, env, DEFAULT_PARAKEET_MODEL)
}

/// The transcriber: the one that is asked for, else the one in the environment, else the one that
/// comes with the program.
pub fn resolve_parakeet_script(
    explicit: Option<&str>,
    env: Option<&str>,
    default: &Option<String>,
) -> (r: Option<String>)
    ensures
        opt_view(r) == match str_view(explicit) {
            Some(p) => Some(p),
            None => match set_text(str_view(env)) {
                Some(p) => Some(p),
                None => opt_view(*default),
            },
        },
{
    if let Some(p) = explicit {
        return Some(p.to_owned());
    }
    match read_setting(env) {
        Some(p) => Some(p),
        None => default.clone(),
    }
}

// ---------------------------------------------------------------------------------------------
// Where is looked, and in which order
// ---------------------------------------------------------------------------------------------

/// What comes for the first time is added at the end, and what has come before is not added again.
pub proof fn new_places_come_last(s: Seq<Seq<char>>, x: Seq<char>)
    ensures
        ({
            let before = each_once(s, s.len() as int);
            let after = each_once(s.push(x), s.len() + 1int);
            &&& s.contains(x) ==> after == before
            &&& !s.contains(x) ==> after == before.push(x)
        }),
{
    lemma_once_prefix(s, x, s.len() as int);
    each_comes_once(s, s.len() as int);
    lemma_once_within(s, s.len() as int);
    assert(s.push(x)[s.len() as int] == x);
    let before = each_once(s, s.len() as int);
    if s.contains(x) {
        let k = choose|k: int| 0 <= k < s.len() && s[k] == x;
        assert(before.contains(s[k]));
    } else if before.contains(x) {
        let k = choose|k: int| 0 <= k < before.len() && before[k] == x;
        assert(s.contains(before[k]));
    }
}

proof fn lemma_once_prefix(s: Seq<Seq<char>>, x: Seq<char>, n: int)
    requires
        0 <= n <= s.len(),
    ensures
        each_once(s.push(x), n) == each_once(s, n),
    decreases n,
{
    if n > 0 {
        lemma_once_prefix(s, x, n - 1);
        assert(s.push(x)[n - 1] == s[n - 1]);
    }
}

proof fn lemma_once_within(s: Seq<Seq<char>>, n: int)
    requires
        0 <= n <= s.len(),
    ensures
        forall|k: int| 0 <= k < each_once(s, n).len() ==> s.contains(#[trigger] each_once(s, n)[k]),
    decreases n,
{
    if n > 0 {
        lemma_once_within(s, n - 1);
        assert forall|k: int| 0 <= k < each_once(s, n).len() implies s.contains(
            #[trigger] each_once(s, n)[k],
        ) by {
            if k < each_once(s, n - 1).len() {
                assert(each_once(s, n)[k] == each_once(s, n - 1)[k]);
            } else {
                assert(each_once(s, n)[k] == s[n - 1]);
            }
        }
    }
}

/// Seven directories above the program are looked through, the nearest ones, and all where there are
/// not more.
pub proof fn seven_roots_are_looked_through(parents: Seq<Seq<char>>)
    ensures
        parents.len() <= 7 ==> roots_of(parents) == each_once(parents, parents.len() as int),
        parents.len() > 7 ==> roots_of(parents) == each_once(parents, 7),
        parents.len() > 0 ==> roots_of(parents).len() > 0 && roots_of(parents)[0] == parents[0],
        roots_of(parents).len() <= 7,
{
    lemma_once_len(parents, 7);
    lemma_once_len(parents, parents.len() as int);
    if parents.len() > 0 {
        lemma_once_first(
            parents,
            if parents.len() > 7 {
                7
            } else {
                parents.len() as int
            },
        );
    }
}

proof fn lemma_once_len(s: Seq<Seq<char>>, n: int)
    requires
        0 <= n,
    ensures
        each_once(s, n).len() <= n,
    decreases n,
{
    if n > 0 {
        lemma_once_len(s, n - 1);
    }
}

proof fn lemma_once_first(s: Seq<Seq<char>>, n: int)
    requires
        1 <= n <= s.len(),
    ensures
        each_once(s, n).len() > 0,
        each_once(s, n)[0] == s[0],
    decreases n,
{
    if n > 1 {
        lemma_once_first(s, n - 1);
    } else {
        assert(each_once(s, 0) =~= Seq::empty());
        assert(!each_once(s, 0).contains(s[0]));
    }
}

/// In each root it is looked first, and right behind that in its `libexec`.
pub proof fn roots_come_before_their_libexec(roots: Seq<Seq<char>>, n: int, i: int)
    requires
        0 <= i < n <= roots.len(),
    ensures
        resource_places(roots, n).len() == 2 * n,
        resource_places(roots, n)[2 * i] == roots[i],
        resource_places(roots, n)[2 * i + 1] == joined_path(roots[i], "libexec"@),
    decreases n,
{
    if i < n - 1 {
        roots_come_before_their_libexec(roots, n - 1, i);
    } else if n > 1 {
        roots_come_before_their_libexec(roots, n - 1, 0);
    } else {
        assert(resource_places(roots, 0) =~= Seq::empty());
    }
}

/// The first place that is there is the one that is taken.
pub proof fn the_first_place_there_is_taken(places: Seq<Seq<char>>, there: Seq<bool>, at: int)
    requires
        places.len() == there.len(),
        0 <= at < places.len(),
        forall|k: int| 0 <= k < at ==> !#[trigger] there[k],
    ensures
        there[at] ==> first_there(places, there, 0) == Some(places[at]),
        !there[at] && at == places.len() - 1 ==> first_there(places, there, 0) is None,
{
    lemma_first_there(places, there, 0, at);
}

proof fn lemma_first_there(places: Seq<Seq<char>>, there: Seq<bool>, i: int, at: int)
    requires
        places.len() == there.len(),
        0 <= i <= at < places.len(),
        forall|k: int| 0 <= k < at ==> !#[trigger] there[k],
    ensures
        there[at] ==> first_there(places, there, i) == Some(places[at]),
        !there[at] && at == places.len() - 1 ==> first_there(places, there, i) is None,
    decreases at - i,
{
    if i < at {
        assert(!there[i]);
        lemma_first_there(places, there, i + 1, at);
    } else {
        assert(first_there(places, there, places.len() as int) is None);
    }
}

/// Every name is looked for in every directory, directory by directory and in the order of the names.
pub proof fn every_name_is_looked_for(roots: Seq<Seq<char>>, root: Seq<char>, names: Seq<Seq<char>>)
    ensures
        places_under(roots.push(root), names, roots.len() + 1int) == places_under(
            roots,
            names,
            roots.len() as int,
        ) + names.map_values(|n: Seq<char>| joined_path(root, n)),
        places_under(roots, names, 0).len() == 0,
{
    lemma_places_in(root, names, names.len() as int);
    assert(names.subrange(0, names.len() as int) =~= names);
    lemma_places_prefix(roots, root, names, roots.len() as int);
    assert(roots.push(root)[roots.len() as int] == root);
}

proof fn lemma_places_in(root: Seq<char>, names: Seq<Seq<char>>, n: int)
    requires
        0 <= n <= names.len(),
    ensures
        places_in(root, names, n) == names.subrange(0, n).map_values(
            |x: Seq<char>| joined_path(root, x),
        ),
    decreases n,
{
    let f = |x: Seq<char>| joined_path(root, x);
    if n > 0 {
        lemma_places_in(root, names, n - 1);
        assert(names.subrange(0, n).map_values(f) =~= names.subrange(0, n - 1).map_values(f).push(
            f(names[n - 1]),
        ));
    } else {
        assert(places_in(root, names, 0) =~= names.subrange(0, 0).map_values(f));
    }
}

proof fn lemma_places_prefix(
    roots: Seq<Seq<char>>,
    root: Seq<char>,
    names: Seq<Seq<char>>,
    n: int,
)
    requires
        0 <= n <= roots.len(),
    ensures
        places_under(roots.push(root), names, n) == places_under(roots, names, n),
    decreases n,
{
    if n > 0 {
        lemma_places_prefix(roots, root, names, n - 1);
        assert(roots.push(root)[n - 1] == roots[n - 1]);
    }
}

/// The directory of the resources is looked through before those above the program.
pub proof fn resources_come_before_ancestors(
    dir: Seq<char>,
    ancestors: Seq<Seq<char>>,
    name: Seq<char>,
)
    ensures
        search_places(Some(dir), ancestors, seq![name]).len() > 0,
        search_places(Some(dir), ancestors, seq![name])[0] == joined_path(dir, name),
        search_places(None, Seq::empty(), seq![name]).len() == 0,
        ancestors.len() > 0 ==> search_places(None, ancestors, seq![name]).len() > 0
            && search_places(None, ancestors, seq![name])[0] == joined_path(ancestors[0], name),
{
    let names = seq![name];
    let given = seq![dir] + ancestors;
    lemma_once_first(given, given.len() as int);
    let roots = each_once(given, given.len() as int);
    lemma_first_place(roots, names, roots.len() as int);
    if ancestors.len() > 0 {
        lemma_once_first(ancestors, ancestors.len() as int);
        let others = each_once(ancestors, ancestors.len() as int);
        lemma_first_place(others, names, others.len() as int);
    }
    assert(each_once(Seq::<Seq<char>>::empty(), 0) =~= Seq::empty());
}

proof fn lemma_first_place(roots: Seq<Seq<char>>, names: Seq<Seq<char>>, n: int)
    requires
        1 <= n <= roots.len(),
        names.len() == 1,
    ensures
        places_under(roots, names, n).len() > 0,
        places_under(roots, names, n)[0] == joined_path(roots[0], names[0]),
    decreases n,
{
    reveal_with_fuel(places_in, 2);
    if n > 1 {
        lemma_first_place(roots, names, n - 1);
    } else {
        assert(places_under(roots, names, 0) =~= Seq::empty());
    }
}

/// The command line counts before the environment, and that before what there is anyway.
pub proof fn command_lines_count_first(explicit: Seq<char>, env: Seq<char>, fallback: Seq<char>)
    ensures
        trimmed(explicit).len() > 0 ==> chosen(Some(explicit), Some(env), fallback) == trimmed(
            explicit,
        ),
        trimmed(explicit).len() == 0 && trimmed(env).len() > 0 ==> chosen(
            Some(explicit),
            Some(env),
            fallback,
        ) == trimmed(env),
        trimmed(explicit).len() == 0 && trimmed(env).len() == 0 ==> chosen(
            Some(explicit),
            Some(env),
            fallback,
        ) == fallback,
        chosen(None, None, fallback) == fallback,
{
}

/// Beside the runtime, the program's own interpreter is looked for under four names, in each root in
/// turn.
pub proof fn interpreters_lie_under_four_names(root: Seq<char>)
    ensures
        places_in(root, local_python_paths(), 4) == seq![
            joined_path(root, "runtime/python/bin/python3"@),
            joined_path(root, "runtime/python/bin/python"@),
            joined_path(root, ".venv/bin/python3"@),
            joined_path(root, ".venv/bin/python"@),
        ],
        local_python_paths().len() == 4,
{
    reveal_with_fuel(places_in, 6);
    assert(places_in(root, local_python_paths(), 4) =~= seq![
        joined_path(root, "runtime/python/bin/python3"@),
        joined_path(root, "runtime/python/bin/python"@),
        joined_path(root, ".venv/bin/python3"@),
        joined_path(root, ".venv/bin/python"@),
    ]);
}

} // verus!
