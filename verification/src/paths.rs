//! Where files are kept.

use vstd::prelude::*;

use crate::pattern::{ends_with, starts_with};
use crate::text::{concat, concat3};

verus! {

/// A path within a directory. An absolute path stands for itself.
pub open spec fn joined_path(dir: Seq<char>, rel: Seq<char>) -> Seq<char> {
    if "/"@.is_prefix_of(rel) || dir.len() == 0 {
        rel
    } else if "/"@.is_suffix_of(dir) {
        dir + rel
    } else {
        dir + "/"@ + rel
    }
}

/// A path within a directory. An absolute path stands for itself.
pub fn join_path(dir: &str, rel: &str) -> (r: String)
    ensures
        r@ == joined_path(dir@, rel@),
{
    if starts_with(rel, "/") || dir.is_empty() {
        rel.to_owned()
    } else if ends_with(dir, "/") {
        concat(dir, rel)
    } else {
        concat3(dir, "/", rel)
    }
}

/// The directory that everything is kept under: the one that is set, else `/tmp/riff`.
pub fn root_dir(set: Option<&str>) -> (r: String)
    ensures
        r@ == match set {
            Some(s) => s@,
            None => "/tmp/riff"@,
        },
{
    match set {
        Some(s) => s.to_owned(),
        None => "/tmp/riff".to_owned(),
    }
}

/// The directory of the sessions.
pub fn sessions_dir(root: &str) -> (r: String)
    ensures
        r@ == joined_path(root@, "sessions"@),
{
    join_path(root, "sessions")
}

/// The state of the active session.
pub fn active_state_file(root: &str) -> (r: String)
    ensures
        r@ == joined_path(root@, "active_session.json"@),
{
    join_path(root, "active_session.json")
}

/// What is kept of the last session.
pub fn last_session_file(root: &str) -> (r: String)
    ensures
        r@ == joined_path(root@, "last_session.json"@),
{
    join_path(root, "last_session.json")
}

/// The log of timings.
pub fn perf_log_file(root: &str) -> (r: String)
    ensures
        r@ == joined_path(root@, "perf.jsonl"@),
{
    join_path(root, "perf.jsonl")
}

/// The audio device that was found last.
pub fn audio_device_cache_file(root: &str) -> (r: String)
    ensures
        r@ == joined_path(root@, "audio_device_cache.txt"@),
{
    join_path(root, "audio_device_cache.txt")
}

/// The interpreter that was found last.
pub fn watcher_python_cache_file(root: &str) -> (r: String)
    ensures
        r@ == joined_path(root@, "watcher_python_cache.txt"@),
{
    join_path(root, "watcher_python_cache.txt")
}

/// The log of the transcription server.
pub fn parakeet_server_log_file(root: &str) -> (r: String)
    ensures
        r@ == joined_path(root@, "parakeet-server.log"@),
{
    join_path(root, "parakeet-server.log")
}

/// The process of the transcription server.
pub fn parakeet_server_pid_file(root: &str) -> (r: String)
    ensures
        r@ == joined_path(root@, "parakeet-server.pid"@),
{
    join_path(root, "parakeet-server.pid")
}

/// The socket of the transcription server.
pub fn parakeet_server_socket_file(root: &str) -> (r: String)
    ensures
        r@ == joined_path(root@, "parakeet-server.sock"@),
{
    join_path(root, "parakeet-server.sock")
}

/// The log of the web server.
pub fn web_server_log_file(root: &str) -> (r: String)
    ensures
        r@ == joined_path(root@, "web-server.log"@),
{
    join_path(root, "web-server.log")
}

/// The process of the web server.
pub fn web_server_pid_file(root: &str) -> (r: String)
    ensures
        r@ == joined_path(root@, "web-server.pid"@),
{
    join_path(root, "web-server.pid")
}

/// The event bus.
pub fn event_bus_file(root: &str) -> (r: String)
    ensures
        r@ == joined_path(root@, "events.jsonl"@),
{
    join_path(root, "events.jsonl")
}

/// The event bus before it was rotated.
pub fn event_bus_rotated_file(root: &str) -> (r: String)
    ensures
        r@ == joined_path(root@, "events.jsonl.1"@),
{
    join_path(root, "events.jsonl.1")
}

/// The socket of the daemon.
pub fn riffd_socket_file(root: &str) -> (r: String)
    ensures
        r@ == joined_path(root@, "riffd.sock"@),
{
    join_path(root, "riffd.sock")
}

/// The process of the daemon.
pub fn riffd_pid_file(root: &str) -> (r: String)
    ensures
        r@ == joined_path(root@, "riffd.pid"@),
{
    join_path(root, "riffd.pid")
}

/// The log of the daemon.
pub fn riffd_log_file(root: &str) -> (r: String)
    ensures
        r@ == joined_path(root@, "riffd.log"@),
{
    join_path(root, "riffd.log")
}

/// The names of what is kept under the root.
pub open spec fn kept_names() -> Seq<Seq<char>> {
    seq![
        "sessions"@,
        "active_session.json"@,
        "last_session.json"@,
        "perf.jsonl"@,
        "audio_device_cache.txt"@,
        "watcher_python_cache.txt"@,
        "parakeet-server.log"@,
        "parakeet-server.pid"@,
        "parakeet-server.sock"@,
        "web-server.log"@,
        "web-server.pid"@,
        "events.jsonl"@,
        "events.jsonl.1"@,
        "riffd.sock"@,
        "riffd.pid"@,
        "riffd.log"@,
    ]
}

/// Everything that is kept under a root has a path of its own: no state, record of a process, socket
/// or log takes the place of another.
pub proof fn kept_paths_differ(root: Seq<char>, i: int, j: int)
    requires
        0 <= i < j < kept_names().len(),
    ensures
        joined_path(root, kept_names()[i]) != joined_path(root, kept_names()[j]),
{
    lemma_kept_names(i, j);
    lemma_joined_tail(root, kept_names()[i]);
    lemma_joined_tail(root, kept_names()[j]);
    let dir = joined_path(root, Seq::empty());
    let (a, b) = (kept_names()[i], kept_names()[j]);
    assert((dir + a).subrange(dir.len() as int, (dir + a).len() as int) =~= a);
    assert((dir + b).subrange(dir.len() as int, (dir + b).len() as int) =~= b);
}

proof fn lemma_kept_names(i: int, j: int)
    requires
        0 <= i < j < kept_names().len(),
    ensures
        kept_names()[i] != kept_names()[j],
        !"/"@.is_prefix_of(kept_names()[i]),
        !"/"@.is_prefix_of(kept_names()[j]),
{
    reveal_strlit("/");
    reveal_strlit("sessions");
    assert("sessions"@.len() == 8 && "sessions"@[0] == 's' && "sessions"@.last() == 's');
    reveal_strlit("active_session.json");
    assert("active_session.json"@.len() == 19 && "active_session.json"@[0] == 'a' && "active_session.json"@.last() == 'n');
    reveal_strlit("last_session.json");
    assert("last_session.json"@.len() == 17 && "last_session.json"@[0] == 'l' && "last_session.json"@.last() == 'n');
    reveal_strlit("perf.jsonl");
    assert("perf.jsonl"@.len() == 10 && "perf.jsonl"@[0] == 'p' && "perf.jsonl"@.last() == 'l');
    reveal_strlit("audio_device_cache.txt");
    assert("audio_device_cache.txt"@.len() == 22 && "audio_device_cache.txt"@[0] == 'a' && "audio_device_cache.txt"@.last() == 't');
    reveal_strlit("watcher_python_cache.txt");
    assert("watcher_python_cache.txt"@.len() == 24 && "watcher_python_cache.txt"@[0] == 'w' && "watcher_python_cache.txt"@.last() == 't');
    reveal_strlit("parakeet-server.log");
    assert("parakeet-server.log"@.len() == 19 && "parakeet-server.log"@[0] == 'p' && "parakeet-server.log"@.last() == 'g');
    reveal_strlit("parakeet-server.pid");
    assert("parakeet-server.pid"@.len() == 19 && "parakeet-server.pid"@[0] == 'p' && "parakeet-server.pid"@.last() == 'd');
    reveal_strlit("parakeet-server.sock");
    assert("parakeet-server.sock"@.len() == 20 && "parakeet-server.sock"@[0] == 'p' && "parakeet-server.sock"@.last() == 'k');
    reveal_strlit("web-server.log");
    assert("web-server.log"@.len() == 14 && "web-server.log"@[0] == 'w' && "web-server.log"@.last() == 'g');
    reveal_strlit("web-server.pid");
    assert("web-server.pid"@.len() == 14 && "web-server.pid"@[0] == 'w' && "web-server.pid"@.last() == 'd');
    reveal_strlit("events.jsonl");
    assert("events.jsonl"@.len() == 12 && "events.jsonl"@[0] == 'e' && "events.jsonl"@.last() == 'l');
    reveal_strlit("events.jsonl.1");
    assert("events.jsonl.1"@.len() == 14 && "events.jsonl.1"@[0] == 'e' && "events.jsonl.1"@.last() == '1');
    reveal_strlit("riffd.sock");
    assert("riffd.sock"@.len() == 10 && "riffd.sock"@[0] == 'r' && "riffd.sock"@.last() == 'k');
    reveal_strlit("riffd.pid");
    assert("riffd.pid"@.len() == 9 && "riffd.pid"@[0] == 'r' && "riffd.pid"@.last() == 'd');
    reveal_strlit("riffd.log");
    assert("riffd.log"@.len() == 9 && "riffd.log"@[0] == 'r' && "riffd.log"@.last() == 'g');
    assert(i == 0 || i == 1 || i == 2 || i == 3 || i == 4 || i == 5 || i == 6 || i == 7 || i == 8
        || i == 9 || i == 10 || i == 11 || i == 12 || i == 13 || i == 14);
    assert(j == 1 || j == 2 || j == 3 || j == 4 || j == 5 || j == 6 || j == 7 || j == 8 || j == 9
        || j == 10 || j == 11 || j == 12 || j == 13 || j == 14 || j == 15);
    let (a, b) = (kept_names()[i], kept_names()[j]);
    assert(a[0] != '/' && b[0] != '/');
    assert(a.subrange(0, 1)[0] == a[0] && b.subrange(0, 1)[0] == b[0]);
    assert("/"@[0] == '/');
}

/// A name that is no absolute path stands at the end of its path.
proof fn lemma_joined_tail(root: Seq<char>, name: Seq<char>)
    requires
        !"/"@.is_prefix_of(name),
    ensures
        joined_path(root, name) == joined_path(root, Seq::empty()) + name,
{
    reveal_strlit("/");
    assert(joined_path(root, name) =~= joined_path(root, Seq::empty()) + name);
}

/// A path within a directory has one slash between them; an absolute path stands for itself.
pub proof fn paths_join_with_one_slash(dir: Seq<char>, rel: Seq<char>)
    requires
        dir.len() > 0,
        dir.last() != '/',
        rel.len() > 0,
        rel[0] != '/',
    ensures
        joined_path(dir, rel) == dir + seq!['/'] + rel,
        joined_path(dir + seq!['/'], rel) == dir + seq!['/'] + rel,
        joined_path(dir, seq!['/'] + rel) == seq!['/'] + rel,
        joined_path(Seq::empty(), rel) == rel,
{
    reveal_strlit("/");
    assert("/"@ =~= seq!['/']);
    if "/"@.is_prefix_of(rel) {
        assert(rel.subrange(0, 1)[0] == rel[0]);
    }
    if "/"@.is_suffix_of(dir) {
        assert(dir.subrange(dir.len() - 1, dir.len() as int)[0] == dir.last());
    }
    let slashed = dir + seq!['/'];
    assert(slashed.subrange(slashed.len() - 1, slashed.len() as int) =~= "/"@);
    let absolute = seq!['/'] + rel;
    assert(absolute.subrange(0, 1) =~= "/"@);
}

/// What is kept under the root goes by these names.
pub proof fn kept_files_go_by_name()
    ensures
        kept_names().len() == 16,
        kept_names()[0] == "sessions"@,
        kept_names()[1] == "active_session.json"@,
        kept_names()[2] == "last_session.json"@,
        kept_names()[3] == "perf.jsonl"@,
        kept_names()[4] == "audio_device_cache.txt"@,
        kept_names()[5] == "watcher_python_cache.txt"@,
        kept_names()[6] == "parakeet-server.log"@,
        kept_names()[7] == "parakeet-server.pid"@,
        kept_names()[8] == "parakeet-server.sock"@,
        kept_names()[9] == "web-server.log"@,
        kept_names()[10] == "web-server.pid"@,
        kept_names()[11] == "events.jsonl"@,
        kept_names()[12] == "events.jsonl.1"@,
        kept_names()[13] == "riffd.sock"@,
        kept_names()[14] == "riffd.pid"@,
        kept_names()[15] == "riffd.log"@,
{
}

} // verus!
