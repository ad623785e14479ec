//! The transcription server: how it is reached, whether it is the right one, and when it is
//! replaced.

use vstd::prelude::*;

use crate::config::{bool_env_enabled, is_off};
use crate::daemon::{opt_int_json, opt_int_tree};
use crate::engine::{read_setting, set_text};
use crate::history::{get_number, number_field};
use crate::json::{
    bool_of, count_tree, field, int_json, int_tree, object_of, opt_text_tree, opt_view,
    pairs_read_back, str_view, text_field, Json, Number, NumberView, Pairs, Tree,
};
use crate::number::{decimal, decimal_text, parse_u64, parsed_unsigned};
use crate::pattern::{
    contains, contains_text, find, joined, lemma_find_from, lemma_one_piece, occurs_at, split,
    split_of, strip_prefix, texts_are_cut_at_the_first, views, Lines,
};
use crate::text::{
    ascii_lower, chars_of, concat, concat3, is_blank, lemma_trimmed_shape, same, string_of,
    to_ascii_lower, trim, trimmed,
};
use crate::wire::{bytes_read, quantity_of, read_json, read_json_bytes, text_read};
use crate::watcher::has_argument;

verus! {

/// The version of what is spoken with the server.
pub const PARAKEET_SERVER_PROTOCOL_VERSION: u32 = 1;

/// What a server says of itself.
#[derive(Debug)]
pub struct ParakeetServerIdentity {
    pub protocol_version: u32,
    pub service: String,
    pub server_instance_id: String,
    pub pid: i32,
    pub riff_root: String,
    pub script_path: String,
    pub transport: String,
    pub endpoint: String,
    pub model: String,
    pub model_revision: String,
    pub requested_device: String,
    pub device: String,
    pub python_version: String,
    pub python_executable: String,
    pub nemo_version: String,
    pub torch_version: String,
    pub started_at_epoch: Number,
}

/// What a server says of itself, in a report.
pub open spec fn identity_pairs(i: ParakeetServerIdentity) -> Seq<(Seq<char>, Tree)> {
    seq![
        ("protocol_version"@, count_tree(i.protocol_version as nat)),
        ("service"@, Tree::Text(i.service@)),
        ("server_instance_id"@, Tree::Text(i.server_instance_id@)),
        ("pid"@, int_tree(i.pid as int)),
        ("riff_root"@, Tree::Text(i.riff_root@)),
        ("script_path"@, Tree::Text(i.script_path@)),
        ("transport"@, Tree::Text(i.transport@)),
        ("endpoint"@, Tree::Text(i.endpoint@)),
        ("model"@, Tree::Text(i.model@)),
        ("model_revision"@, Tree::Text(i.model_revision@)),
        ("requested_device"@, Tree::Text(i.requested_device@)),
        ("device"@, Tree::Text(i.device@)),
        ("python_version"@, Tree::Text(i.python_version@)),
        ("python_executable"@, Tree::Text(i.python_executable@)),
        ("nemo_version"@, Tree::Text(i.nemo_version@)),
        ("torch_version"@, Tree::Text(i.torch_version@)),
        ("started_at_epoch"@, Tree::Number(i.started_at_epoch@)),
    ]
}

impl ParakeetServerIdentity {
    /// What a server says of itself, in a report.
    pub fn report(&self) -> (r: Json)
        ensures
            r@ == Tree::Object(object_of(identity_pairs(*self))),
    {
        let mut p = Pairs::new();
        p.count("protocol_version", self.protocol_version as u64);
        p.text("service", self.service.as_str());
        p.text("server_instance_id", self.server_instance_id.as_str());
        p.add("pid", int_json(self.pid as i64));
        p.text("riff_root", self.riff_root.as_str());
        p.text("script_path", self.script_path.as_str());
        p.text("transport", self.transport.as_str());
        p.text("endpoint", self.endpoint.as_str());
        p.text("model", self.model.as_str());
        p.text("model_revision", self.model_revision.as_str());
        p.text("requested_device", self.requested_device.as_str());
        p.text("device", self.device.as_str());
        p.text("python_version", self.python_version.as_str());
        p.text("python_executable", self.python_executable.as_str());
        p.text("nemo_version", self.nemo_version.as_str());
        p.text("torch_version", self.torch_version.as_str());
        p.number("started_at_epoch", &self.started_at_epoch);
        assert(p@ == identity_pairs(*self));
        p.object()
    }
}

// ---------------------------------------------------------------------------------------------
// Settings and addresses
// ---------------------------------------------------------------------------------------------

/// Whether the server is used: unless it is switched off.
pub fn parakeet_server_enabled(value: Option<&str>) -> (r: bool)
    ensures
        r == (value matches Some(v) ==> !is_off(v@)),
{
    bool_env_enabled(value, true)
}

/// The address of the server: the one that is set, else a socket of its own.
pub fn parakeet_server_base_url(set: Option<&str>, socket_path: &str) -> (r: String)
    ensures
        r@ == match set_text(str_view(set)) {
            Some(u) => u,
            None => "unix://"@ + socket_path@,
        },
{
    match read_setting(set) {
        Some(u) => u,
        None => concat("unix://", socket_path),
    }
}

/// The revision of the model.
pub fn resolve_parakeet_model_revision(set: Option<&str>) -> (r: String)
    ensures
        r@ == match set_text(str_view(set)) {
            Some(v) => v,
            None => "main"@,
        },
{
    match read_setting(set) {
        Some(v) => v,
        None => "main".to_owned(),
    }
}

/// Whether a device can be asked for.
pub open spec fn is_device(d: Seq<char>) -> bool {
    d == "auto"@ || d == "cpu"@ || d == "cuda"@
}

/// The device that is asked for: what is set, in lower case, where it is a device, else any.
pub fn resolve_parakeet_requested_device(set: Option<&str>) -> (r: String)
    ensures
        r@ == match set {
            Some(v) => if is_device(ascii_lower(trimmed(v@))) {
                ascii_lower(trimmed(v@))
            } else {
                "auto"@
            },
            None => "auto"@,
        },
{
    if let Some(v) = set {
        let d = to_ascii_lower(trim(v).as_str());
        if same(d.as_str(), "auto") || same(d.as_str(), "cpu") || same(d.as_str(), "cuda") {
            return d;
        }
    }
    "auto".to_owned()
}

/// How long it is waited for the server, in seconds: what is set, where it is a number above zero,
/// else 30.
pub fn parakeet_server_wait_ready_timeout_sec(set: Option<&str>) -> (r: u64)
    ensures
        r == match set {
            Some(v) => match parsed_unsigned(v@, u64::MAX as nat) {
                Some(n) => if n > 0 {
                    n
                } else {
                    30
                },
                None => 30,
            },
            None => 30,
        },
{
    if let Some(v) = set {
        if let Some(n) = parse_u64(v) {
            if n > 0 {
                return n;
            }
        }
    }
    30
}

/// The socket that an address names, where it names one.
pub open spec fn socket_of(base_url: Seq<char>) -> Option<Seq<char>> {
    if "unix://"@.is_prefix_of(base_url) {
        Some(base_url.subrange("unix://"@.len() as int, base_url.len() as int))
    } else {
        None
    }
}

/// The socket that an address names, where it names one.
pub fn parakeet_server_unix_socket(base_url: &str) -> (r: Option<String>)
    ensures
        opt_view(r) == socket_of(base_url@),
{
    strip_prefix(base_url, "unix://")
}

/// `s` without the slashes at its end.
pub open spec fn without_slashes(s: Seq<char>) -> Seq<char>
    decreases s.len(),
{
    if s.len() > 0 && s.last() == '/' {
        without_slashes(s.drop_last())
    } else {
        s
    }
}

/// `s` without the slashes at its end.
pub fn trim_slashes(s: &str) -> (r: String)
    ensures
        r@ == without_slashes(s@),
{
    let v = chars_of(s);
    let ghost all = v@;
    let mut n: usize = v.len();
    assert(all.subrange(0, n as int) =~= all);
    while n > 0 && v[n - 1] == '/'
        invariant
            n <= v.len(),
            all == v@,
            without_slashes(all) == without_slashes(all.subrange(0, n as int)),
        decreases n,
    {
        assert(all.subrange(0, n as int).last() == all[n - 1]);
        assert(all.subrange(0, n as int).drop_last() =~= all.subrange(0, n - 1));
        n = n - 1;
    }
    proof {
        if n > 0 {
            assert(all.subrange(0, n as int).last() == all[n - 1]);
        }
        assert(without_slashes(all) == all.subrange(0, n as int));
    }
    string_of(&v, 0, n)
}

/// The address of a route. On a socket the host does not matter.
pub open spec fn request_url(base_url: Seq<char>, route: Seq<char>) -> Seq<char> {
    if socket_of(base_url) is Some {
        "http://localhost/"@ + route
    } else {
        without_slashes(base_url) + "/"@ + route
    }
}

/// The address of a route of the server.
pub fn parakeet_server_request_url(base_url: &str, route: &str) -> (r: String)
    ensures
        r@ == request_url(base_url@, route@),
{
    if parakeet_server_unix_socket(base_url).is_some() {
        concat("http://localhost/", route)
    } else {
        concat3(trim_slashes(base_url).as_str(), "/", route)
    }
}

/// Where the server says how it is.
pub fn parakeet_server_health_url(base: &str) -> (r: String)
    ensures
        r@ == request_url(base@, "health"@),
{
    parakeet_server_request_url(base, "health")
}

/// Where the server takes recordings.
pub fn parakeet_server_transcribe_url(base: &str) -> (r: String)
    ensures
        r@ == request_url(base@, "transcribe"@),
{
    parakeet_server_request_url(base, "transcribe")
}

/// Where the web server says how it is.
pub fn web_server_health_url(base: &str) -> (r: String)
    ensures
        r@ == without_slashes(base@) + "/health"@,
{
    concat(trim_slashes(base).as_str(), "/health")
}

/// Where the web server is told that it is still needed.
pub fn web_server_touch_url(base: &str) -> (r: String)
    ensures
        r@ == without_slashes(base@) + "/touch"@,
{
    concat(trim_slashes(base).as_str(), "/touch")
}

/// Whether the web server is used: unless it is switched off.
pub fn web_server_enabled(value: Option<&str>) -> (r: bool)
    ensures
        r == (value matches Some(v) ==> !is_off(v@)),
{
    bool_env_enabled(value, true)
}

/// The address of the web server.
pub fn web_server_base_url(set: Option<&str>) -> (r: String)
    ensures
        r@ == match set {
            Some(u) => u@,
            None => "http://127.0.0.1:8766"@,
        },
{
    match set {
        Some(u) => u.to_owned(),
        None => "http://127.0.0.1:8766".to_owned(),
    }
}

/// How long the web server runs without being used, in seconds.
pub fn web_server_idle_timeout_sec(set: Option<&str>) -> (r: u64)
    ensures
        r == match set {
            Some(v) => match parsed_unsigned(v@, u64::MAX as nat) {
                Some(n) => n,
                None => 1800,
            },
            None => 1800,
        },
{
    match set {
        Some(v) => match parse_u64(v) {
            Some(n) => n,
            None => 1800,
        },
        None => 1800,
    }
}

/// Whether the web server answers that all is well.
pub fn is_healthy_body(body: &str) -> (r: bool)
    ensures
        r == (contains(body@, "\"ok\": true"@) || contains(body@, "\"ok\":true"@)),
{
    contains_text(body, "\"ok\": true") || contains_text(body, "\"ok\":true")
}

/// `s` without `prefix` at its start, however often it stands there.
pub open spec fn without_prefixes(s: Seq<char>, prefix: Seq<char>) -> Seq<char>
    decreases s.len(),
{
    if prefix.len() > 0 && prefix.is_prefix_of(s) {
        without_prefixes(s.subrange(prefix.len() as int, s.len() as int), prefix)
    } else {
        s
    }
}

fn strip_prefixes(s: &str, prefix: &str) -> (r: String)
    requires
        prefix@.len() > 0,
    ensures
        r@ == without_prefixes(s@, prefix@),
{
    let mut out = s.to_owned();
    let mut more = true;
    while more
        invariant
            prefix@.len() > 0,
            without_prefixes(s@, prefix@) == without_prefixes(out@, prefix@),
            !more ==> !prefix@.is_prefix_of(out@),
        decreases
            out@.len(),
            if more {
                1nat
            } else {
                0nat
            },
    {
        match strip_prefix(out.as_str(), prefix) {
            Some(rest) => {
                out = rest;
            },
            None => {
                more = false;
            },
        }
    }
    out
}

/// The host and the port of an address.
pub open spec fn host_port_of(
    base_url: Seq<char>,
    default_port: Seq<char>,
) -> (Seq<char>, Seq<char>) {
    let parts = split_of(
        without_prefixes(without_prefixes(base_url, "http://"@), "https://"@),
        ":"@,
    );
    (
        if parts.len() > 0 {
            parts[0]
        } else {
            "127.0.0.1"@
        },
        if parts.len() > 1 {
            parts[1]
        } else {
            default_port
        },
    )
}

/// The host and the port of an address.
pub fn host_and_port(base_url: &str, default_port: &str) -> (r: (String, String))
    ensures
        (r.0@, r.1@) == host_port_of(base_url@, default_port@),
{
    proof {
        reveal_strlit("http://");
        reveal_strlit("https://");
        reveal_strlit(":");
    }
    let bare = strip_prefixes(strip_prefixes(base_url, "http://").as_str(), "https://");
    let parts = split(bare.as_str(), ":");
    let ghost pv = views(parts@);
    assert(pv.len() == parts@.len());
    let host: String = if parts.len() > 0 {
        assert(pv[0] == parts@[0]@);
        parts[0].clone()
    } else {
        "127.0.0.1".to_owned()
    };
    let port: String = if parts.len() > 1 {
        assert(pv[1] == parts@[1]@);
        parts[1].clone()
    } else {
        default_port.to_owned()
    };
    (host, port)
}

// ---------------------------------------------------------------------------------------------
// Whether it is the right server
// ---------------------------------------------------------------------------------------------

/// What a server has to be. Without a model only the service itself is looked at.
pub struct ExpectedServer<'a> {
    pub root: &'a str,
    pub model: Option<&'a str>,
    pub model_revision: &'a str,
    pub requested_device: &'a str,
    pub script_path: Option<&'a str>,
}

/// What is said where a field is not what it has to be.
pub open spec fn mismatch(name: Seq<char>, expected: Seq<char>, actual: Seq<char>) -> Seq<
    Seq<char>,
> {
    if expected == actual {
        Seq::empty()
    } else {
        seq![name + " expected="@ + expected + " actual="@ + actual]
    }
}

/// What is said where a field is blank.
pub open spec fn blank(name: Seq<char>, value: Seq<char>) -> Seq<Seq<char>> {
    if trimmed(value).len() == 0 {
        seq![name + " is empty"@]
    } else {
        Seq::empty()
    }
}

/// What of a server is not as the model asks.
pub open spec fn model_mismatches(i: ParakeetServerIdentity, x: ExpectedServer) -> Seq<Seq<char>> {
    match x.model {
        Some(m) => mismatch("model"@, m@, i.model@) + mismatch(
            "model_revision"@,
            x.model_revision@,
            i.model_revision@,
        ) + mismatch("requested_device"@, x.requested_device@, i.requested_device@) + (
        if x.requested_device@ == "auto"@ {
            Seq::empty()
        } else {
            mismatch("device"@, x.requested_device@, i.device@)
        }),
        None => Seq::empty(),
    }
}

/// What of a server is not what it has to be.
pub open spec fn identity_mismatches(i: ParakeetServerIdentity, x: ExpectedServer) -> Seq<
    Seq<char>,
> {
    (if i.protocol_version == PARAKEET_SERVER_PROTOCOL_VERSION {
        Seq::empty()
    } else {
        seq!["protocol_version expected=1 actual="@ + decimal(i.protocol_version as nat)]
    }) + mismatch(
        "service"@,
        "parakeet"@,
        i.service@,
    ) + mismatch("riff_root"@, x.root@, i.riff_root@) + model_mismatches(i, x) + (
    match x.script_path {
        Some(p) => mismatch("script_path"@, p@, i.script_path@),
        None => Seq::empty(),
    }) + blank("server_instance_id"@, i.server_instance_id@) + blank("device"@, i.device@) + blank(
        "python_version"@,
        i.python_version@,
    ) + blank("python_executable"@, i.python_executable@) + blank("nemo_version"@, i.nemo_version@)
        + blank("torch_version"@, i.torch_version@)
}

fn add_mismatch(out: &mut Lines, name: &str, expected: &str, actual: &str)
    ensures
        final(out)@ == old(out)@ + mismatch(name@, expected@, actual@),
{
    if !same(expected, actual) {
        let mut m = concat3(name, " expected=", expected);
        m.append(" actual=");
        m.append(actual);
        out.add(m.as_str());
    }
    assert(out@ =~= old(out)@ + mismatch(name@, expected@, actual@));
}

fn add_blank(out: &mut Lines, name: &str, value: &str)
    ensures
        final(out)@ == old(out)@ + blank(name@, value@),
{
    if is_blank(value) {
        out.add(concat(name, " is empty").as_str());
    }
    assert(out@ =~= old(out)@ + blank(name@, value@));
}

fn add_model_mismatches(out: &mut Lines, i: &ParakeetServerIdentity, x: &ExpectedServer)
    ensures
        final(out)@ == old(out)@ + model_mismatches(*i, *x),
{
    if let Some(m) = x.model {
        add_mismatch(out, "model", m, i.model.as_str());
        add_mismatch(out, "model_revision", x.model_revision, i.model_revision.as_str());
        add_mismatch(out, "requested_device", x.requested_device, i.requested_device.as_str());
        if !same(x.requested_device, "auto") {
            add_mismatch(out, "device", x.requested_device, i.device.as_str());
        }
    }
    assert(out@ =~= old(out)@ + model_mismatches(*i, *x));
}

/// Whether a server is what it has to be, and what of it is not.
pub fn validate_parakeet_server_identity(
    identity: &ParakeetServerIdentity,
    expected: &ExpectedServer,
) -> (r: Result<(), String>)
    ensures
        r is Ok <==> identity_mismatches(*identity, *expected).len() == 0,
        r matches Err(e) ==> e@ == joined(identity_mismatches(*identity, *expected), ", "@),
{
    let mut out = Lines::new();
    if identity.protocol_version != PARAKEET_SERVER_PROTOCOL_VERSION {
        let actual = decimal_text(identity.protocol_version as u64);
        out.add(concat("protocol_version expected=1 actual=", actual.as_str()).as_str());
    }
    add_mismatch(&mut out, "service", "parakeet", identity.service.as_str());
    add_mismatch(&mut out, "riff_root", expected.root, identity.riff_root.as_str());
    add_model_mismatches(&mut out, identity, expected);
    let ghost before = out@;
    if let Some(p) = expected.script_path {
        add_mismatch(&mut out, "script_path", p, identity.script_path.as_str());
    } else {
        assert(before + Seq::<Seq<char>>::empty() =~= before);
    }
    add_blank(&mut out, "server_instance_id", identity.server_instance_id.as_str());
    add_blank(&mut out, "device", identity.device.as_str());
    add_blank(&mut out, "python_version", identity.python_version.as_str());
    add_blank(&mut out, "python_executable", identity.python_executable.as_str());
    add_blank(&mut out, "nemo_version", identity.nemo_version.as_str());
    add_blank(&mut out, "torch_version", identity.torch_version.as_str());
    assert(out@ =~= identity_mismatches(*identity, *expected));
    if out.is_empty() {
        Ok(())
    } else {
        Err(out.join(", "))
    }
}

/// The transport of an address.
pub open spec fn transport_of(base_url: Seq<char>) -> Seq<char> {
    if socket_of(base_url) is Some {
        "unix"@
    } else {
        "tcp"@
    }
}

/// Whether a server is the one at this address, and what of it is not.
pub fn validate_parakeet_server_endpoint(identity: &ParakeetServerIdentity, base_url: &str) -> (r:
    Result<(), String>)
    ensures
        r is Ok <==> identity.transport@ == transport_of(base_url@) && without_slashes(
            identity.endpoint@,
        ) == without_slashes(base_url@),
        r matches Err(e) ==> e@ == if identity.transport@ != transport_of(base_url@) {
            "transport expected="@ + transport_of(base_url@) + " actual="@ + identity.transport@
        } else {
            "endpoint expected="@ + without_slashes(base_url@) + " actual="@ + identity.endpoint@
        },
{
    let transport: &str = if parakeet_server_unix_socket(base_url).is_some() {
        "unix"
    } else {
        "tcp"
    };
    if !same(identity.transport.as_str(), transport) {
        let mut m = concat3("transport expected=", transport, " actual=");
        m.append(identity.transport.as_str());
        return Err(m);
    }
    let endpoint = trim_slashes(base_url);
    if !same(trim_slashes(identity.endpoint.as_str()).as_str(), endpoint.as_str()) {
        let mut m = concat3("endpoint expected=", endpoint.as_str(), " actual=");
        m.append(identity.endpoint.as_str());
        return Err(m);
    }
    Ok(())
}

/// What a server answered when it was asked how it is.
pub open spec fn answers_for(
    i: ParakeetServerIdentity,
    base_url: Seq<char>,
    x: ExpectedServer,
) -> bool {
    &&& identity_mismatches(i, x).len() == 0
    &&& i.transport@ == transport_of(base_url)
    &&& without_slashes(i.endpoint@) == without_slashes(base_url)
}

/// Whether the server at this address can be used. `answer` is what it says of itself, or why it
/// could not be asked.
pub fn is_valid_server(
    answer: &Result<ParakeetServerIdentity, String>,
    base_url: &str,
    expected: &ExpectedServer,
) -> (r: Result<(), String>)
    ensures
        r is Ok <==> (*answer matches Ok(i) && answers_for(i, base_url@, *expected)),
        answer matches Err(e) ==> (r matches Err(m) && m@ == e@),
{
    match answer {
        Err(e) => Err(e.clone()),
        Ok(i) => match validate_parakeet_server_identity(i, expected) {
            Err(m) => Err(m),
            Ok(()) => validate_parakeet_server_endpoint(i, base_url),
        },
    }
}

/// Whether there is a healthy server at this address, whatever model it holds.
pub fn check_parakeet_server_health(
    answer: &Result<ParakeetServerIdentity, String>,
    base_url: &str,
    root: &str,
    model_revision: &str,
    requested_device: &str,
) -> (r: bool)
    ensures
        r == (*answer matches Ok(i) && answers_for(
            i,
            base_url@,
            ExpectedServer { root, model: None, model_revision, requested_device, script_path: None },
        )),
{
    let expected = ExpectedServer {
        root,
        model: None,
        model_revision,
        requested_device,
        script_path: None,
    };
    is_valid_server(answer, base_url, &expected).is_ok()
}

/// Whether a server belongs to this root: it says so, and listens on its socket.
pub open spec fn is_owned(i: ParakeetServerIdentity, root: Seq<char>, base_url: Seq<char>) -> bool {
    &&& i.protocol_version == PARAKEET_SERVER_PROTOCOL_VERSION
    &&& i.service@ == "parakeet"@
    &&& i.riff_root@ == root
    &&& i.transport@ == "unix"@
    &&& i.endpoint@ == base_url
}

/// Whether a server belongs to this root.
pub fn identity_owned_by_current_root(
    identity: &ParakeetServerIdentity,
    root: &str,
    base_url: &str,
) -> (r: bool)
    ensures
        r == is_owned(*identity, root@, base_url@),
{
    identity.protocol_version == PARAKEET_SERVER_PROTOCOL_VERSION && same(
        identity.service.as_str(),
        "parakeet",
    ) && same(identity.riff_root.as_str(), root) && same(identity.transport.as_str(), "unix")
        && same(identity.endpoint.as_str(), base_url)
}

/// The process that may be stopped in order to replace a server: only one of this root.
pub fn replaceable_pid(identity: &ParakeetServerIdentity, root: &str, base_url: &str) -> (r: Option<
    i32,
>)
    ensures
        r == if is_owned(*identity, root@, base_url@) && identity.pid > 0 {
            Some(identity.pid)
        } else {
            None
        },
{
    if identity_owned_by_current_root(identity, root, base_url) && identity.pid > 0 {
        Some(identity.pid)
    } else {
        None
    }
}

/// Whether a process is a server that runs this script with this model, by its command line.
pub fn process_matches_parakeet_server(command: &str, script_path: &str, model: &str) -> (r: bool)
    ensures
        r == (contains(command@, script_path@) && contains(command@, "--serve"@) && contains(
            command@,
            model@,
        )),
{
    contains_text(command, script_path) && contains_text(command, "--serve") && contains_text(
        command,
        model,
    )
}

// ---------------------------------------------------------------------------------------------
// Starting it
// ---------------------------------------------------------------------------------------------

/// How a server is started.
pub struct ServerLaunch<'a> {
    pub script_path: &'a str,
    pub model: &'a str,
    pub requested_device: &'a str,
    pub model_revision: &'a str,
    pub root: &'a str,
    pub base_url: &'a str,
    pub instance_id: &'a str,
    pub perf_log: &'a str,
    pub trigger_action: &'a str,
    pub trigger_session_id: Option<&'a str>,
}

/// Where the server listens, as its arguments say it.
pub open spec fn listen_args(base_url: Seq<char>) -> Seq<Seq<char>> {
    match socket_of(base_url) {
        Some(s) => seq!["--unix-socket"@, s],
        None => {
            let hp = host_port_of(base_url, "8765"@);
            seq!["--host"@, hp.0, "--port"@, hp.1]
        },
    }
}

/// The arguments of the server. It is told what started it, so that what it records of its start
/// can be brought together with that.
pub open spec fn launch_args(l: ServerLaunch) -> Seq<Seq<char>> {
    seq![
        l.script_path@,
        "--serve"@,
        "--model"@,
        l.model@,
        "--device"@,
        l.requested_device@,
        "--model-revision"@,
        l.model_revision@,
        "--riff-root"@,
        l.root@,
    ] + listen_args(l.base_url@) + seq![
        "--startup-instance-id"@,
        l.instance_id@,
        "--startup-perf-log"@,
        l.perf_log@,
        "--startup-trigger-action"@,
        l.trigger_action@,
    ] + (match l.trigger_session_id {
        Some(s) => seq!["--startup-trigger-session-id"@, s@],
        None => Seq::empty(),
    })
}

/// The arguments of the server.
pub fn server_args(l: &ServerLaunch) -> (r: Vec<String>)
    ensures
        views(r@) == launch_args(*l),
{
    let mut out: Vec<String> = vec![
        l.script_path.to_owned(),
        "--serve".to_owned(),
        "--model".to_owned(),
        l.model.to_owned(),
        "--device".to_owned(),
        l.requested_device.to_owned(),
        "--model-revision".to_owned(),
        l.model_revision.to_owned(),
        "--riff-root".to_owned(),
        l.root.to_owned(),
    ];
    match parakeet_server_unix_socket(l.base_url) {
        Some(s) => {
            out.push("--unix-socket".to_owned());
            out.push(s);
        },
        None => {
            let (host, port) = host_and_port(l.base_url, "8765");
            out.push("--host".to_owned());
            out.push(host);
            out.push("--port".to_owned());
            out.push(port);
        },
    }
    out.push("--startup-instance-id".to_owned());
    out.push(l.instance_id.to_owned());
    out.push("--startup-perf-log".to_owned());
    out.push(l.perf_log.to_owned());
    out.push("--startup-trigger-action".to_owned());
    out.push(l.trigger_action.to_owned());
    if let Some(s) = l.trigger_session_id {
        out.push("--startup-trigger-session-id".to_owned());
        out.push(s.to_owned());
    }
    assert(views(out@) =~= launch_args(*l));
    out
}

/// What is done to have the web server ready.
#[derive(PartialEq, Eq, Structural, Clone, Copy, Debug)]
pub enum WebStep {
    /// Nothing: it is switched off.
    Off,
    /// Nothing: it answers.
    Ready,
    /// Nothing: there is no script to start it from.
    NoScript,
    /// It is started.
    Spawn,
}

/// What is done to have the web server ready.
pub fn web_step(enabled: bool, healthy: bool, has_script: bool) -> (r: WebStep)
    ensures
        r == if !enabled {
            WebStep::Off
        } else if healthy {
            WebStep::Ready
        } else if !has_script {
            WebStep::NoScript
        } else {
            WebStep::Spawn
        },
{
    if !enabled {
        WebStep::Off
    } else if healthy {
        WebStep::Ready
    } else if !has_script {
        WebStep::NoScript
    } else {
        WebStep::Spawn
    }
}

/// What is done while it is waited for the web server.
#[derive(PartialEq, Eq, Structural, Clone, Copy, Debug)]
pub enum WebWait {
    /// It answers: the wait is over.
    Ready,
    /// The wait is over, and it does not answer.
    GiveUp,
    /// It is asked again.
    Again,
}

/// How long it is waited for the web server, in seconds.
pub const WEB_SERVER_WAIT_SEC: u64 = 5;

/// The wait for the web server after it was to be started.
pub struct WebServerWait {
    /// Whether it could be started.
    pub spawned: bool,
    /// Whether it is to be waited for.
    pub wanted: bool,
}

impl WebServerWait {
    /// What is done next. Where the time is over, an answer no longer counts.
    pub fn poll(&self, over: bool, healthy: bool) -> (r: WebWait)
        ensures
            r == if !self.spawned || !self.wanted || over {
                WebWait::GiveUp
            } else if healthy {
                WebWait::Ready
            } else {
                WebWait::Again
            },
    {
        if !self.spawned || !self.wanted || over {
            WebWait::GiveUp
        } else if healthy {
            WebWait::Ready
        } else {
            WebWait::Again
        }
    }
}

/// The arguments of the web server.
pub fn web_server_args(script: &str, root: &str, base_url: &str, idle_timeout_sec: u64) -> (r: Vec<
    String,
>)
    ensures
        views(r@) == seq![
            script@,
            "--root"@,
            root@,
            "--host"@,
            host_port_of(base_url@, "8766"@).0,
            "--port"@,
            host_port_of(base_url@, "8766"@).1,
            "--idle-timeout-sec"@,
            decimal(idle_timeout_sec as nat),
        ],
{
    let (host, port) = host_and_port(base_url, "8766");
    let r: Vec<String> = vec![
        script.to_owned(),
        "--root".to_owned(),
        root.to_owned(),
        "--host".to_owned(),
        host,
        "--port".to_owned(),
        port,
        "--idle-timeout-sec".to_owned(),
        decimal_text(idle_timeout_sec),
    ];
    assert(views(r@) =~= seq![
        script@,
        "--root"@,
        root@,
        "--host"@,
        host_port_of(base_url@, "8766"@).0,
        "--port"@,
        host_port_of(base_url@, "8766"@).1,
        "--idle-timeout-sec"@,
        decimal(idle_timeout_sec as nat),
    ]);
    r
}

/// What is done about a server that cannot be used.
#[derive(PartialEq, Eq, Structural, Clone, Copy, Debug)]
pub enum EnsureStep {
    /// One of this root, with another model: it is stopped, and another one is started.
    Replace(i32),
    /// One that this root may not stop.
    Refuse,
    /// One that is starting: it is waited for.
    Await(i32),
    /// None: one is started.
    Spawn,
}

/// A process that a file names as the server: whether it lives, and whether it is a server with
/// the right script and model.
pub struct RecordedProcess {
    pub pid: i32,
    pub alive: bool,
    pub matches: bool,
}

/// What is done about a server that cannot be used. `answer` is what the server says of itself,
/// where it answers, and `recorded` the process that a file names.
pub fn ensure_step(
    answer: &Option<ParakeetServerIdentity>,
    recorded: &Option<RecordedProcess>,
    root: &str,
    base_url: &str,
) -> (r: EnsureStep)
    ensures
        r == match *answer {
            Some(i) => if is_owned(i, root@, base_url@) && i.pid > 0 {
                EnsureStep::Replace(i.pid)
            } else {
                EnsureStep::Refuse
            },
            None => match *recorded {
                Some(p) => if p.alive && p.matches {
                    EnsureStep::Await(p.pid)
                } else {
                    EnsureStep::Spawn
                },
                None => EnsureStep::Spawn,
            },
        },
{
    match answer {
        Some(i) => match replaceable_pid(i, root, base_url) {
            Some(pid) => EnsureStep::Replace(pid),
            None => EnsureStep::Refuse,
        },
        None => match recorded {
            Some(p) => if p.alive && p.matches {
                EnsureStep::Await(p.pid)
            } else {
                EnsureStep::Spawn
            },
            None => EnsureStep::Spawn,
        },
    }
}

/// What is done while it is waited for a server.
#[derive(PartialEq, Eq, Structural, Clone, Copy, Debug)]
pub enum WaitAction {
    /// It is ready.
    Ready,
    /// It is one of this root, with another model: it is stopped, and another one is started.
    Replace,
    /// It is not to be had.
    GiveUp,
    /// The process is gone.
    Died,
    /// It is asked again.
    Again,
}

/// The wait for a server.
pub struct ServerWait {
    pub pid: Option<i32>,
    pub replaced: bool,
}

/// What is done next, given what the server says of itself, where it answers, and whether its
/// process lives.
pub open spec fn wait_action(
    replaced: bool,
    pid: Option<i32>,
    answer: Option<ParakeetServerIdentity>,
    alive: bool,
    root: Seq<char>,
    base_url: Seq<char>,
    x: ExpectedServer,
) -> WaitAction {
    let on_answer = match answer {
        Some(i) => if identity_mismatches(i, x).len() == 0 {
            Some(WaitAction::Ready)
        } else if !is_owned(i, root, base_url) {
            Some(WaitAction::GiveUp)
        } else if !replaced {
            Some(WaitAction::Replace)
        } else {
            None
        },
        None => None,
    };
    match on_answer {
        Some(a) => a,
        None => if pid is Some && !alive {
            WaitAction::Died
        } else {
            WaitAction::Again
        },
    }
}

impl ServerWait {
    /// What is done next. A server is replaced once at most.
    pub fn poll(
        &mut self,
        answer: &Option<ParakeetServerIdentity>,
        alive: bool,
        root: &str,
        base_url: &str,
        expected: &ExpectedServer,
    ) -> (r: WaitAction)
        ensures
            r == wait_action(
                old(self).replaced,
                old(self).pid,
                *answer,
                alive,
                root@,
                base_url@,
                *expected,
            ),
            final(self).pid == old(self).pid,
            final(self).replaced == (old(self).replaced || r == WaitAction::Replace),
    {
        if let Some(i) = answer {
            if validate_parakeet_server_identity(i, expected).is_ok() {
                return WaitAction::Ready;
            }
            if !identity_owned_by_current_root(i, root, base_url) {
                return WaitAction::GiveUp;
            }
            if !self.replaced {
                self.replaced = true;
                return WaitAction::Replace;
            }
        }
        if self.pid.is_some() && !alive {
            WaitAction::Died
        } else {
            WaitAction::Again
        }
    }
}

/// A server that is ready is the right one, and one that is replaced belongs to this root: nothing
/// of another root is ever stopped.
pub proof fn only_own_servers_are_replaced(
    replaced: bool,
    pid: Option<i32>,
    answer: Option<ParakeetServerIdentity>,
    alive: bool,
    root: Seq<char>,
    base_url: Seq<char>,
    x: ExpectedServer,
)
    ensures
        wait_action(replaced, pid, answer, alive, root, base_url, x) == WaitAction::Replace ==> (
        answer matches Some(i) && is_owned(i, root, base_url)) && !replaced,
        wait_action(replaced, pid, answer, alive, root, base_url, x) == WaitAction::Ready ==> (
        answer matches Some(i) && identity_mismatches(i, x).len() == 0),
{
}

/// How the server was found or started when a session began.
#[derive(PartialEq, Eq, Structural, Clone, Copy, Debug)]
pub enum Warmup {
    AlreadyHealthy,
    Spawned,
    StillStarting,
    Disabled,
    SpawnFailed,
}

/// The name of a warm-up.
pub open spec fn warmup_name(w: Warmup) -> Seq<char> {
    match w {
        Warmup::AlreadyHealthy => "already_healthy"@,
        Warmup::Spawned => "spawned"@,
        Warmup::StillStarting => "still_starting"@,
        Warmup::Disabled => "disabled"@,
        Warmup::SpawnFailed => "spawn_failed"@,
    }
}

/// What is reported of the warm-up of the server.
pub fn warmup_report(outcome: Warmup, instance_id: &Option<String>, pid: Option<i32>) -> (r: Json)
    ensures
        r@ == Tree::Object(
            object_of(
                seq![
                    ("outcome"@, Tree::Text(warmup_name(outcome))),
                    ("instance_id"@, opt_text_tree(opt_view(*instance_id))),
                    (
                        "pid"@,
                        match pid {
                            Some(n) => int_tree(n as int),
                            None => Tree::Null,
                        },
                    ),
                ],
            ),
        ),
{
    let name: &str = match outcome {
        Warmup::AlreadyHealthy => "already_healthy",
        Warmup::Spawned => "spawned",
        Warmup::StillStarting => "still_starting",
        Warmup::Disabled => "disabled",
        Warmup::SpawnFailed => "spawn_failed",
    };
    let mut p = Pairs::new();
    p.text("outcome", name);
    p.opt_text("instance_id", instance_id);
    match pid {
        Some(n) => p.add("pid", int_json(n as i64)),
        None => p.null("pid"),
    }
    assert(p@ == seq![
        ("outcome"@, Tree::Text(warmup_name(outcome))),
        ("instance_id"@, opt_text_tree(opt_view(*instance_id))),
        (
            "pid"@,
            match pid {
                Some(n) => int_tree(n as int),
                None => Tree::Null,
            },
        ),
    ]);
    p.object()
}

// ---------------------------------------------------------------------------------------------
// Asking it
// ---------------------------------------------------------------------------------------------

/// What the server is asked. It has to be the one that was found healthy.
pub fn transcribe_request(
    audio: &str,
    out_txt: &str,
    root: &str,
    model: &str,
    model_revision: &str,
    requested_device: &str,
    server: &ParakeetServerIdentity,
) -> (r: Json)
    ensures
        r@ == Tree::Object(
            object_of(
                seq![
                    ("audio"@, Tree::Text(audio@)),
                    ("out_txt"@, Tree::Text(out_txt@)),
                    ("protocol_version"@, count_tree(1)),
                    ("server_instance_id"@, Tree::Text(server.server_instance_id@)),
                    ("riff_root"@, Tree::Text(root@)),
                    ("model"@, Tree::Text(model@)),
                    ("model_revision"@, Tree::Text(model_revision@)),
                    ("requested_device"@, Tree::Text(requested_device@)),
                    ("device"@, Tree::Text(server.device@)),
                ],
            ),
        ),
{
    let mut p = Pairs::new();
    p.text("audio", audio);
    p.text("out_txt", out_txt);
    p.count("protocol_version", PARAKEET_SERVER_PROTOCOL_VERSION as u64);
    p.text("server_instance_id", server.server_instance_id.as_str());
    p.text("riff_root", root);
    p.text("model", model);
    p.text("model_revision", model_revision);
    p.text("requested_device", requested_device);
    p.text("device", server.device.as_str());
    assert(p@ == seq![
        ("audio"@, Tree::Text(audio@)),
        ("out_txt"@, Tree::Text(out_txt@)),
        ("protocol_version"@, count_tree(1)),
        ("server_instance_id"@, Tree::Text(server.server_instance_id@)),
        ("riff_root"@, Tree::Text(root@)),
        ("model"@, Tree::Text(model@)),
        ("model_revision"@, Tree::Text(model_revision@)),
        ("requested_device"@, Tree::Text(requested_device@)),
        ("device"@, Tree::Text(server.device@)),
    ]);
    p.object()
}

/// What came of a request to the server.
pub enum ServerReply {
    /// There is no tool to ask with.
    NoTool,
    /// The tool could not be run.
    NotRun(String),
    /// The tool failed, with this exit code, and printed this.
    Failed(Option<i64>, String, String),
    /// The answer is no JSON: why, and the answer.
    Garbled(String, String),
    /// The answer, and what the server says of itself in it, or why that could not be read.
    Answer(Json, Result<ParakeetServerIdentity, String>),
}

/// What came of a request that was answered with `body`, in which `sender` is what the server says
/// of itself.
pub fn server_reply(body: &str, sender: Result<ParakeetServerIdentity, String>) -> (r: ServerReply)
    ensures
        match text_read(body@) {
            Ok(t) => r matches ServerReply::Answer(answer, s) && answer@ == t && s == sender,
            Err(e) => r matches ServerReply::Garbled(reason, b) && reason@ == e && b@ == body@,
        },
{
    match read_json(body) {
        Ok(answer) => ServerReply::Answer(answer, sender),
        Err(reason) => ServerReply::Garbled(reason, body.to_owned()),
    }
}

/// What a server says of itself when it is asked how it is, or why that is not taken: `stdout` is
/// its answer, `shown` that answer in one line, and `identity` what was read from it.
pub fn health_identity(
    stdout: &[u8],
    shown: &str,
    identity: Result<ParakeetServerIdentity, String>,
) -> (r: Result<ParakeetServerIdentity, String>)
    ensures
        match bytes_read(stdout@) {
            Err(e) => r matches Err(reason) && reason@ == "health returned invalid JSON: "@ + e,
            Ok(t) => if bool_of(field(t, "ok"@)) != Some(true) {
                r matches Err(reason) && reason@ == "health returned ok=false: "@ + shown@
            } else {
                match identity {
                    Ok(i) => r == Ok::<ParakeetServerIdentity, String>(i),
                    Err(e) => r matches Err(reason) && reason@
                        == "health identity is incomplete: "@ + e@,
                }
            },
        },
{
    match read_json_bytes(stdout) {
        Err(e) => Err(concat("health returned invalid JSON: ", e.as_str())),
        Ok(answer) => match answer.get_bool("ok") {
            Some(true) => match identity {
                Ok(i) => Ok(i),
                Err(e) => Err(concat("health identity is incomplete: ", e.as_str())),
            },
            _ => Err(concat("health returned ok=false: ", shown)),
        },
    }
}

/// The start of what is said where the server could not be used.
pub open spec fn server_error_head() -> Seq<(Seq<char>, Tree)> {
    seq![("status"@, Tree::Text("error"@)), ("method"@, Tree::Text("parakeet_server"@))]
}

/// Why an answer is not taken, where it is not.
pub open spec fn answer_refusal(
    answer: Json,
    identity: Result<ParakeetServerIdentity, String>,
    base_url: Seq<char>,
    x: ExpectedServer,
    instance_id: Seq<char>,
) -> Option<Seq<(Seq<char>, Tree)>> {
    if bool_of(field(answer@, "ok"@)) != Some(true) {
        Some(seq![("response"@, answer@)])
    } else {
        match identity {
            Err(e) => Some(
                seq![
                    (
                        "reason"@,
                        Tree::Text(
                            if field(answer@, "server"@) is None {
                                "missing server identity"@
                            } else {
                                "invalid server identity: "@ + e@
                            },
                        ),
                    ),
                    ("response"@, answer@),
                ],
            ),
            Ok(i) => {
                let report = Tree::Object(object_of(identity_pairs(i)));
                if identity_mismatches(i, x).len() > 0 {
                    Some(
                        seq![
                            (
                                "reason"@,
                                Tree::Text(
                                    "response server identity mismatch: "@ + joined(
                                        identity_mismatches(i, x),
                                        ", "@,
                                    ),
                                ),
                            ),
                            ("server_identity"@, report),
                        ],
                    )
                } else if i.transport@ != transport_of(base_url) {
                    Some(
                        seq![
                            (
                                "reason"@,
                                Tree::Text(
                                    "response server endpoint mismatch: "@
                                        + "transport expected="@ + transport_of(base_url)
                                        + " actual="@ + i.transport@,
                                ),
                            ),
                            ("server_identity"@, report),
                        ],
                    )
                } else if without_slashes(i.endpoint@) != without_slashes(base_url) {
                    Some(
                        seq![
                            (
                                "reason"@,
                                Tree::Text(
                                    "response server endpoint mismatch: "@
                                        + "endpoint expected="@ + without_slashes(base_url)
                                        + " actual="@ + i.endpoint@,
                                ),
                            ),
                            ("server_identity"@, report),
                        ],
                    )
                } else if i.server_instance_id@ != instance_id {
                    Some(
                        seq![
                            (
                                "reason"@,
                                Tree::Text(
                                    "server instance changed between health check and transcription"@,
                                ),
                            ),
                            ("expected_instance_id"@, Tree::Text(instance_id)),
                            ("actual_instance_id"@, Tree::Text(i.server_instance_id@)),
                        ],
                    )
                } else {
                    None
                }
            },
        }
    }
}

/// What is said of a transcription by the server.
pub open spec fn served_pairs(
    answer: Json,
    i: ParakeetServerIdentity,
    base_url: Seq<char>,
) -> Seq<(Seq<char>, Tree)> {
    seq![
        ("status"@, Tree::Text("ok"@)),
        ("method"@, Tree::Text("parakeet_server"@)),
        ("server"@, Tree::Text(base_url)),
        ("model"@, Tree::Text(i.model@)),
        ("model_revision"@, Tree::Text(i.model_revision@)),
        ("device"@, Tree::Text(i.device@)),
        ("server_identity"@, Tree::Object(object_of(identity_pairs(i)))),
        (
            "elapsed_sec"@,
            match number_field(answer@, "elapsed_sec"@) {
                Some(n) => Tree::Number(quantity_of(n)),
                None => Tree::Null,
            },
        ),
    ]
}

/// Why a request to the server gave nothing, where it did not.
pub open spec fn reply_refusal(
    reply: ServerReply,
    base_url: Seq<char>,
    x: ExpectedServer,
    instance_id: Seq<char>,
) -> Option<Seq<(Seq<char>, Tree)>> {
    match reply {
        ServerReply::NoTool => Some(seq![("reason"@, Tree::Text("curl not found"@))]),
        ServerReply::NotRun(e) => Some(seq![("reason"@, Tree::Text("curl failed: "@ + e@))]),
        ServerReply::Failed(code, stderr, stdout) => Some(
            seq![
                ("stderr"@, Tree::Text(trimmed(stderr@))),
                ("stdout"@, Tree::Text(trimmed(stdout@))),
                ("returncode"@, opt_int_tree(code)),
            ],
        ),
        ServerReply::Garbled(e, body) => Some(
            seq![
                ("reason"@, Tree::Text("invalid JSON response: "@ + e@)),
                ("body"@, Tree::Text(body@)),
            ],
        ),
        ServerReply::Answer(answer, identity) => answer_refusal(
            answer,
            identity,
            base_url,
            x,
            instance_id,
        ),
    }
}

/// Why an answer is not taken, where it is not.
fn refuse_answer(
    p: &mut Pairs,
    answer: &Json,
    identity: &Result<ParakeetServerIdentity, String>,
    base_url: &str,
    expected: &ExpectedServer,
    instance_id: &str,
) -> (r: bool)
    ensures
        match answer_refusal(*answer, *identity, base_url@, *expected, instance_id@) {
            Some(why) => r && final(p)@ == old(p)@ + why,
            None => !r && final(p)@ == old(p)@,
        },
{
    let ok = match answer.get_bool("ok") {
        Some(b) => b,
        None => false,
    };
    if !ok {
        p.add("response", answer.copy());
        assert(p@ =~= old(p)@ + seq![("response"@, answer@)]);
        return true;
    }
    match identity {
        Err(e) => {
            let reason: String = if answer.get("server").is_none() {
                "missing server identity".to_owned()
            } else {
                concat("invalid server identity: ", e.as_str())
            };
            p.text("reason", reason.as_str());
            p.add("response", answer.copy());
            assert(p@ =~= old(p)@ + seq![
                ("reason"@, Tree::Text(reason@)),
                ("response"@, answer@),
            ]);
            true
        },
        Ok(i) => {
            if let Err(m) = validate_parakeet_server_identity(i, expected) {
                let reason = concat("response server identity mismatch: ", m.as_str());
                p.text("reason", reason.as_str());
                p.add("server_identity", i.report());
                assert(p@ =~= old(p)@ + seq![
                    ("reason"@, Tree::Text(reason@)),
                    ("server_identity"@, Tree::Object(object_of(identity_pairs(*i)))),
                ]);
                return true;
            }
            if let Err(m) = validate_parakeet_server_endpoint(i, base_url) {
                let reason = concat("response server endpoint mismatch: ", m.as_str());
                p.text("reason", reason.as_str());
                p.add("server_identity", i.report());
                proof {
                    let told = "response server endpoint mismatch: "@;
                    if i.transport@ != transport_of(base_url@) {
                        assert(told + ("transport expected="@ + transport_of(base_url@)
                            + " actual="@ + i.transport@) =~= told + "transport expected="@
                            + transport_of(base_url@) + " actual="@ + i.transport@);
                    } else {
                        assert(told + ("endpoint expected="@ + without_slashes(base_url@)
                            + " actual="@ + i.endpoint@) =~= told + "endpoint expected="@
                            + without_slashes(base_url@) + " actual="@ + i.endpoint@);
                    }
                    assert(p@ =~= old(p)@ + seq![
                        ("reason"@, Tree::Text(reason@)),
                        ("server_identity"@, Tree::Object(object_of(identity_pairs(*i)))),
                    ]);
                }
                return true;
            }
            if !same(i.server_instance_id.as_str(), instance_id) {
                p.text(
                    "reason",
                    "server instance changed between health check and transcription",
                );
                p.text("expected_instance_id", instance_id);
                p.text("actual_instance_id", i.server_instance_id.as_str());
                assert(p@ =~= old(p)@ + seq![
                    (
                        "reason"@,
                        Tree::Text(
                            "server instance changed between health check and transcription"@,
                        ),
                    ),
                    ("expected_instance_id"@, Tree::Text(instance_id@)),
                    ("actual_instance_id"@, Tree::Text(i.server_instance_id@)),
                ]);
                return true;
            }
            false
        },
    }
}

/// What a request to the server gives: a text and what is said of it, or what is said of the
/// failure. An answer counts only where it comes from the server that was found healthy.
pub fn transcribe_via_parakeet_server(
    reply: &ServerReply,
    base_url: &str,
    expected: &ExpectedServer,
    instance_id: &str,
) -> (r: Result<(String, Json), Json>)
    ensures
        match reply_refusal(*reply, base_url@, *expected, instance_id@) {
            Some(why) => r matches Err(j) && j@ == Tree::Object(
                object_of(server_error_head() + why),
            ),
            None => r matches Ok(t) && reply is Answer && reply->Answer_1 is Ok && t.0@ == trimmed(
                match text_field(reply->Answer_0@, "text"@) {
                    Some(s) => s,
                    None => Seq::empty(),
                },
            ) && t.1@ == Tree::Object(
                object_of(served_pairs(reply->Answer_0, (reply->Answer_1)->Ok_0, base_url@)),
            ),
        },
{
    let mut p = Pairs::new();
    p.text("status", "error");
    p.text("method", "parakeet_server");
    assert(p@ =~= server_error_head());
    match reply {
        ServerReply::NoTool => {
            p.text("reason", "curl not found");
            assert(p@ =~= server_error_head() + seq![("reason"@, Tree::Text("curl not found"@))]);
            Err(p.object())
        },
        ServerReply::NotRun(e) => {
            let reason = concat("curl failed: ", e.as_str());
            p.text("reason", reason.as_str());
            assert(p@ =~= server_error_head() + seq![("reason"@, Tree::Text(reason@))]);
            Err(p.object())
        },
        ServerReply::Failed(code, stderr, stdout) => {
            let err = trim(stderr.as_str());
            let out = trim(stdout.as_str());
            p.text("stderr", err.as_str());
            p.text("stdout", out.as_str());
            p.add("returncode", opt_int_json(*code));
            assert(p@ =~= server_error_head() + seq![
                ("stderr"@, Tree::Text(err@)),
                ("stdout"@, Tree::Text(out@)),
                ("returncode"@, opt_int_tree(*code)),
            ]);
            Err(p.object())
        },
        ServerReply::Garbled(e, body) => {
            let reason = concat("invalid JSON response: ", e.as_str());
            p.text("reason", reason.as_str());
            p.text("body", body.as_str());
            assert(p@ =~= server_error_head() + seq![
                ("reason"@, Tree::Text(reason@)),
                ("body"@, Tree::Text(body@)),
            ]);
            Err(p.object())
        },
        ServerReply::Answer(answer, identity) => {
            if refuse_answer(&mut p, answer, identity, base_url, expected, instance_id) {
                return Err(p.object());
            }
            match identity {
                Ok(i) => {
                    let text = match answer.get_text("text") {
                        Some(s) => trim(s.as_str()),
                        None => trim(""),
                    };
                    let mut q = Pairs::new();
                    q.text("status", "ok");
                    q.text("method", "parakeet_server");
                    q.text("server", base_url);
                    q.text("model", i.model.as_str());
                    q.text("model_revision", i.model_revision.as_str());
                    q.text("device", i.device.as_str());
                    q.add("server_identity", i.report());
                    let elapsed: Json = match get_number(answer, "elapsed_sec") {
                        Some(n) => Json::Number(n.quantity()),
                        None => Json::Null,
                    };
                    q.add("elapsed_sec", elapsed);
                    proof {
                        reveal_strlit("");
                        assert(""@ =~= Seq::<char>::empty());
                    }
                    assert(q@ == served_pairs(*answer, *i, base_url@));
                    Ok((text, q.object()))
                },
                Err(_) => Err(p.object()),
            }
        },
    }
}

/// A text counts as transcribed by the server only where the answer is from the server that was
/// asked: the same root, model, address and instance.
pub proof fn answers_come_from_the_server_that_was_asked(
    answer: Json,
    identity: Result<ParakeetServerIdentity, String>,
    base_url: Seq<char>,
    x: ExpectedServer,
    instance_id: Seq<char>,
)
    requires
        reply_refusal(ServerReply::Answer(answer, identity), base_url, x, instance_id) is None,
    ensures
        identity matches Ok(i) && answers_for(i, base_url, x) && i.server_instance_id@
            == instance_id,
{
}

// ---------------------------------------------------------------------------------------------
// Addresses, arguments and answers
// ---------------------------------------------------------------------------------------------

/// A server is what it has to be where it speaks this protocol, belongs to this root, holds the model
/// on the device that is asked for, runs the script, and says what it runs on.
pub proof fn the_right_server_matches(i: ParakeetServerIdentity, x: ExpectedServer)
    ensures
        identity_mismatches(i, x).len() == 0 <==> {
            &&& i.protocol_version == 1
            &&& i.service@ == "parakeet"@
            &&& i.riff_root@ == x.root@
            &&& x.model matches Some(m) ==> i.model@ == m@ && i.model_revision@ == x.model_revision@
                && i.requested_device@ == x.requested_device@ && (x.requested_device@ != "auto"@
                ==> i.device@ == x.requested_device@)
            &&& x.script_path matches Some(p) ==> i.script_path@ == p@
            &&& trimmed(i.server_instance_id@).len() > 0
            &&& trimmed(i.device@).len() > 0
            &&& trimmed(i.python_version@).len() > 0
            &&& trimmed(i.python_executable@).len() > 0
            &&& trimmed(i.nemo_version@).len() > 0
            &&& trimmed(i.torch_version@).len() > 0
        },
{
}

/// A server belongs to this root where it says so and listens on its socket.
pub proof fn owned_servers_say_so(i: ParakeetServerIdentity, root: Seq<char>, base_url: Seq<char>)
    ensures
        is_owned(i, root, base_url) <==> i.protocol_version == 1 && i.service@ == "parakeet"@
            && i.riff_root@ == root && i.transport@ == "unix"@ && i.endpoint@ == base_url,
{
}

/// An address that names a socket is asked there, and any other under its own name; a slash at its
/// end does not matter.
pub proof fn addresses_name_sockets_or_hosts(path: Seq<char>, base: Seq<char>, route: Seq<char>)
    requires
        !"unix://"@.is_prefix_of(base),
        base.len() > 0,
        base.last() != '/',
    ensures
        socket_of("unix://"@ + path) == Some(path),
        socket_of(base) is None,
        transport_of("unix://"@ + path) == "unix"@,
        transport_of(base) == "tcp"@,
        request_url("unix://"@ + path, route) == "http://localhost/"@ + route,
        request_url(base, route) == base + "/"@ + route,
        without_slashes(base.push('/')) == base,
        without_slashes(base.push('/').push('/')) == base,
        listen_args("unix://"@ + path) == seq!["--unix-socket"@, path],
{
    reveal_strlit("unix://");
    let u = "unix://"@ + path;
    assert(u.subrange(0, 7) =~= "unix://"@);
    assert(u.subrange(7, u.len() as int) =~= path);
    reveal_with_fuel(without_slashes, 4);
    assert(base.push('/').drop_last() =~= base);
    assert(base.push('/').push('/').drop_last() =~= base.push('/'));
}

/// The host and the port of an address are what stands around its colon, behind the scheme; where it
/// names no port, that of the service counts.
pub proof fn addresses_have_hosts_and_ports(host: Seq<char>, port: Seq<char>, other: Seq<char>)
    requires
        !host.contains(':'),
        !port.contains(':'),
        !host.contains('/'),
        !port.contains('/'),
    ensures
        host_port_of("http://"@ + host + seq![':'] + port, other) == (host, port),
        host_port_of("http://"@ + host, other) == (host, other),
        host_port_of(host + seq![':'] + port, other) == (host, port),
{
    reveal_strlit(":");
    assert(":"@ =~= seq![':']);
    let tail = host + seq![':'] + port;
    assert(!tail.contains('/')) by {
        if tail.contains('/') {
            let k = choose|k: int| 0 <= k < tail.len() && tail[k] == '/';
            if k < host.len() {
                assert(host[k] == '/');
            } else if k > host.len() {
                assert(port[k - host.len() - 1] == '/');
            }
        }
    }
    lemma_scheme_off(tail);
    lemma_scheme_off(host);
    assert("http://"@ + host + seq![':'] + port =~= "http://"@ + tail);
    lemma_colon(host, port);
}

proof fn lemma_colon(host: Seq<char>, port: Seq<char>)
    requires
        !host.contains(':'),
        !port.contains(':'),
    ensures
        split_of(host + seq![':'] + port, seq![':']) == seq![host, port],
        split_of(host, seq![':']) == seq![host],
{
    let pat = seq![':'];
    let s = host + pat + port;
    lemma_find_from(s, pat, 0);
    let at = host.len() as int;
    assert(s.subrange(at, at + 1) =~= pat);
    assert(occurs_at(s, pat, at));
    assert forall|j: int| 0 <= j < at implies !#[trigger] occurs_at(s, pat, j) by {
        assert(s.subrange(j, j + 1)[0] == host[j]);
        assert(pat[0] == ':');
        assert(host.contains(host[j]));
    }
    assert(find(s, pat) == Some(at));
    texts_are_cut_at_the_first(host, pat, port);
    if contains(port, pat) {
        let k = choose|k: int| #[trigger] occurs_at(port, pat, k);
        assert(port.subrange(k, k + 1)[0] == port[k]);
        assert(pat[0] == ':');
    }
    if contains(host, pat) {
        let k = choose|k: int| #[trigger] occurs_at(host, pat, k);
        assert(host.subrange(k, k + 1)[0] == host[k]);
        assert(pat[0] == ':');
    }
    lemma_one_piece(port, pat, pat);
    lemma_one_piece(host, pat, pat);
    assert(split_of(s, pat) =~= seq![host, port]);
}

/// What has no slash has no scheme in front.
proof fn lemma_scheme_off(s: Seq<char>)
    requires
        !s.contains('/'),
    ensures
        without_prefixes(without_prefixes("http://"@ + s, "http://"@), "https://"@) == s,
        without_prefixes(without_prefixes(s, "http://"@), "https://"@) == s,
{
    reveal_strlit("http://");
    reveal_strlit("https://");
    let t = "http://"@ + s;
    assert(t.subrange(0, 7) =~= "http://"@);
    assert(t.subrange(7, t.len() as int) =~= s);
    assert(!"http://"@.is_prefix_of(s)) by {
        if "http://"@.is_prefix_of(s) {
            assert(s.subrange(0, 7)[5] == s[5]);
        }
    }
    assert(!"https://"@.is_prefix_of(s)) by {
        if "https://"@.is_prefix_of(s) {
            assert(s.subrange(0, 8)[6] == s[6]);
        }
    }
    reveal_with_fuel(without_prefixes, 3);
}

/// The server is told what to hold, where to listen and what started it.
pub proof fn servers_are_told_everything(l: ServerLaunch)
    ensures
        ({
            let a = launch_args(l);
            &&& a[0] == l.script_path@
            &&& a[1] == "--serve"@
            &&& has_argument(a, "--model"@, l.model@)
            &&& has_argument(a, "--device"@, l.requested_device@)
            &&& has_argument(a, "--model-revision"@, l.model_revision@)
            &&& has_argument(a, "--riff-root"@, l.root@)
            &&& socket_of(l.base_url@) matches Some(s) ==> has_argument(a, "--unix-socket"@, s)
            &&& socket_of(l.base_url@) is None ==> has_argument(
                a,
                "--host"@,
                host_port_of(l.base_url@, "8765"@).0,
            ) && has_argument(a, "--port"@, host_port_of(l.base_url@, "8765"@).1)
            &&& has_argument(a, "--startup-instance-id"@, l.instance_id@)
            &&& has_argument(a, "--startup-trigger-action"@, l.trigger_action@)
            &&& has_argument(a, "--startup-perf-log"@, l.perf_log@)
            &&& l.trigger_session_id matches Some(s) ==> has_argument(
                a,
                "--startup-trigger-session-id"@,
                s@,
            )
        }),
{
    let a = launch_args(l);
    let n = listen_args(l.base_url@).len() as int;
    assert(a[2] == "--model"@ && a[4] == "--device"@ && a[6] == "--model-revision"@);
    assert(a[8] == "--riff-root"@);
    assert(a[10] == listen_args(l.base_url@)[0] && a[11] == listen_args(l.base_url@)[1]);
    if socket_of(l.base_url@) is None {
        assert(a[12] == "--port"@ && a[13] == listen_args(l.base_url@)[3]);
    }
    assert(a[10 + n] == "--startup-instance-id"@ && a[11 + n] == l.instance_id@);
    assert(a[12 + n] == "--startup-perf-log"@ && a[13 + n] == l.perf_log@);
    assert(a[14 + n] == "--startup-trigger-action"@ && a[15 + n] == l.trigger_action@);
    if let Some(s) = l.trigger_session_id {
        assert(a[16 + n] == "--startup-trigger-session-id"@ && a[17 + n] == s@);
    }
}

/// While it is waited, the right server is ready, one of another root ends the waiting, one of this
/// root is replaced once, and a process that died ends it too.
pub proof fn waiting_goes_by_the_answer(
    i: ParakeetServerIdentity,
    pid: Option<i32>,
    alive: bool,
    root: Seq<char>,
    base_url: Seq<char>,
    x: ExpectedServer,
    replaced: bool,
)
    ensures
        identity_mismatches(i, x).len() == 0 ==> wait_action(
            replaced,
            pid,
            Some(i),
            alive,
            root,
            base_url,
            x,
        ) == WaitAction::Ready,
        identity_mismatches(i, x).len() > 0 && !is_owned(i, root, base_url) ==> wait_action(
            replaced,
            pid,
            Some(i),
            alive,
            root,
            base_url,
            x,
        ) == WaitAction::GiveUp,
        identity_mismatches(i, x).len() > 0 && is_owned(i, root, base_url) ==> wait_action(
            false,
            pid,
            Some(i),
            alive,
            root,
            base_url,
            x,
        ) == WaitAction::Replace,
        pid is Some ==> wait_action(replaced, pid, None, false, root, base_url, x)
            == WaitAction::Died,
        wait_action(replaced, pid, None, true, root, base_url, x) == WaitAction::Again,
        wait_action(replaced, None, None, alive, root, base_url, x) == WaitAction::Again,
{
}

/// An answer of the server that was asked is taken where it says that all went well, and an answer
/// that does not is never taken.
pub proof fn good_answers_are_taken(
    answer: Json,
    i: ParakeetServerIdentity,
    base_url: Seq<char>,
    x: ExpectedServer,
    instance_id: Seq<char>,
    reply: ServerReply,
)
    ensures
        field(answer@, "ok"@) == Some(Tree::Bool(true)) && answers_for(i, base_url, x)
            && i.server_instance_id@ == instance_id ==> reply_refusal(
            ServerReply::Answer(answer, Ok(i)),
            base_url,
            x,
            instance_id,
        ) is None,
        field(answer@, "ok"@) != Some(Tree::Bool(true)) ==> reply_refusal(
            ServerReply::Answer(answer, Ok(i)),
            base_url,
            x,
            instance_id,
        ) is Some,
        !(reply is Answer) ==> reply_refusal(reply, base_url, x, instance_id) is Some,
{
}

/// What is said of a transcription by the server says that it went well, and with what; of a failure,
/// that it failed.
pub proof fn served_texts_say_by_what(answer: Json, i: ParakeetServerIdentity, base_url: Seq<char>)
    ensures
        ({
            let t = Tree::Object(object_of(served_pairs(answer, i, base_url)));
            &&& text_field(t, "status"@) == Some("ok"@)
            &&& text_field(t, "method"@) == Some("parakeet_server"@)
            &&& text_field(t, "server"@) == Some(base_url)
            &&& text_field(t, "model"@) == Some(i.model@)
            &&& text_field(t, "device"@) == Some(i.device@)
        }),
        text_field(Tree::Object(object_of(server_error_head())), "status"@) == Some("error"@),
{
    reveal_strlit("status");
    reveal_strlit("method");
    reveal_strlit("server");
    reveal_strlit("model");
    reveal_strlit("model_revision");
    reveal_strlit("device");
    reveal_strlit("server_identity");
    reveal_strlit("elapsed_sec");
    assert("status"@.len() == 6 && "status"@[0] == 's' && "status"@[1] == 't');
    assert("method"@.len() == 6 && "method"@[0] == 'm' && "server"@.len() == 6);
    assert("server"@[0] == 's' && "server"@[1] == 'e' && "model"@.len() == 5);
    assert("model_revision"@.len() == 14 && "device"@.len() == 6 && "device"@[0] == 'd');
    assert("server_identity"@.len() == 15 && "elapsed_sec"@.len() == 11);
    let p = served_pairs(answer, i, base_url);
    pairs_read_back(p, 0);
    pairs_read_back(p, 1);
    pairs_read_back(p, 2);
    pairs_read_back(p, 3);
    pairs_read_back(p, 5);
    pairs_read_back(server_error_head(), 0);
}

/// Three devices can be asked for, and each state of a server that is warmed up has its name.
pub proof fn devices_and_states_go_by_name(d: Seq<char>)
    ensures
        is_device("auto"@) && is_device("cpu"@) && is_device("cuda"@),
        d != "auto"@ && d != "cpu"@ && d != "cuda"@ ==> !is_device(d),
        warmup_name(Warmup::AlreadyHealthy) == "already_healthy"@,
        warmup_name(Warmup::Spawned) == "spawned"@,
        warmup_name(Warmup::StillStarting) == "still_starting"@,
        warmup_name(Warmup::Disabled) == "disabled"@,
        warmup_name(Warmup::SpawnFailed) == "spawn_failed"@,
{
}

/// An answer of a server other than the one that was asked is refused, and it is said in what they
/// differ; one of the right server is not.
pub proof fn wrong_answers_are_refused(
    answer: Json,
    i: ParakeetServerIdentity,
    e: String,
    base_url: Seq<char>,
    x: ExpectedServer,
    instance_id: Seq<char>,
)
    requires
        bool_of(field(answer@, "ok"@)) == Some(true),
    ensures
        answer_refusal(answer, Err(e), base_url, x, instance_id) is Some,
        identity_mismatches(i, x).len() > 0 ==> answer_refusal(
            answer,
            Ok(i),
            base_url,
            x,
            instance_id,
        ) is Some,
        i.transport@ != transport_of(base_url) ==> answer_refusal(
            answer,
            Ok(i),
            base_url,
            x,
            instance_id,
        ) is Some,
        without_slashes(i.endpoint@) != without_slashes(base_url) ==> answer_refusal(
            answer,
            Ok(i),
            base_url,
            x,
            instance_id,
        ) is Some,
        i.server_instance_id@ != instance_id ==> answer_refusal(
            answer,
            Ok(i),
            base_url,
            x,
            instance_id,
        ) is Some,
        identity_mismatches(i, x).len() == 0 && i.transport@ == transport_of(base_url)
            && without_slashes(i.endpoint@) == without_slashes(base_url) && i.server_instance_id@
            == instance_id ==> answer_refusal(answer, Ok(i), base_url, x, instance_id) is None,
{
}

/// Where something of a server is not as expected, it is said what, and both values.
pub proof fn mismatches_name_both_values(
    i: ParakeetServerIdentity,
    x: ExpectedServer,
    name: Seq<char>,
    a: Seq<char>,
    b: Seq<char>,
)
    ensures
        a == b ==> mismatch(name, a, b).len() == 0,
        a != b ==> mismatch(name, a, b) == seq![name + " expected="@ + a + " actual="@ + b],
        x.model is None ==> model_mismatches(i, x).len() == 0,
        x.model matches Some(m) ==> (i.model_revision@ == x.model_revision@ && i.requested_device@
            == x.requested_device@ && i.device@ == x.requested_device@ && i.model@ != m@
            ==> model_mismatches(i, x) == seq![
            "model"@ + " expected="@ + m@ + " actual="@ + i.model@,
        ]),
        x.model matches Some(m) ==> (i.model@ == m@ && i.requested_device@ == x.requested_device@
            && i.device@ == x.requested_device@ && i.model_revision@ != x.model_revision@
            ==> model_mismatches(i, x) == seq![
            "model_revision"@ + " expected="@ + x.model_revision@ + " actual="@ + i.model_revision@,
        ]),
        x.model matches Some(m) ==> (i.model@ == m@ && i.model_revision@ == x.model_revision@
            && i.requested_device@ != x.requested_device@ && i.device@ == x.requested_device@
            ==> model_mismatches(i, x) == seq![
            "requested_device"@ + " expected="@ + x.requested_device@ + " actual="@
                + i.requested_device@,
        ]),
        x.model matches Some(m) ==> (i.model@ == m@ && i.model_revision@ == x.model_revision@
            && i.requested_device@ == x.requested_device@ && x.requested_device@ != "auto"@
            && i.device@ != x.requested_device@ ==> model_mismatches(i, x) == seq![
            "device"@ + " expected="@ + x.requested_device@ + " actual="@ + i.device@,
        ]),
{
    if let Some(m) = x.model {
        let all = model_mismatches(i, x);
        let none = Seq::<Seq<char>>::empty();
        assert(mismatch("model"@, m@, i.model@) == none || i.model@ != m@);
        if i.model_revision@ == x.model_revision@ && i.requested_device@ == x.requested_device@
            && i.device@ == x.requested_device@ && i.model@ != m@ {
            assert(all =~= mismatch("model"@, m@, i.model@));
        }
        if i.model@ == m@ && i.requested_device@ == x.requested_device@ && i.device@
            == x.requested_device@ && i.model_revision@ != x.model_revision@ {
            assert(all =~= mismatch("model_revision"@, x.model_revision@, i.model_revision@));
        }
        if i.model@ == m@ && i.model_revision@ == x.model_revision@ && i.requested_device@
            != x.requested_device@ && i.device@ == x.requested_device@ {
            assert(all =~= mismatch("requested_device"@, x.requested_device@, i.requested_device@));
        }
        if i.model@ == m@ && i.model_revision@ == x.model_revision@ && i.requested_device@
            == x.requested_device@ && x.requested_device@ != "auto"@ && i.device@
            != x.requested_device@ {
            assert(all =~= mismatch("device"@, x.requested_device@, i.device@));
        }
    }
}

/// What a refusal of an answer is reported with.
pub open spec fn refused_with(
    answer: Json,
    identity: Result<ParakeetServerIdentity, String>,
    base_url: Seq<char>,
    x: ExpectedServer,
    instance_id: Seq<char>,
) -> Tree {
    match answer_refusal(answer, identity, base_url, x, instance_id) {
        Some(p) => Tree::Object(object_of(p)),
        None => Tree::Null,
    }
}

/// A refusal says what is wrong with the answer: that it did not succeed, that it does not say from
/// whom it is, or in what its server is not the one that was asked.
pub proof fn refused_answers_say_why(
    answer: Json,
    i: ParakeetServerIdentity,
    e: String,
    base_url: Seq<char>,
    x: ExpectedServer,
    instance_id: Seq<char>,
)
    ensures
        ({
            let good = bool_of(field(answer@, "ok"@)) == Some(true);
            let bad = refused_with(answer, Err(e), base_url, x, instance_id);
            let t = refused_with(answer, Ok(i), base_url, x, instance_id);
            let same = identity_mismatches(i, x).len() == 0;
            let there = i.transport@ == transport_of(base_url);
            let end = without_slashes(i.endpoint@) == without_slashes(base_url);
            &&& !good ==> field(t, "response"@) == Some(answer@)
            &&& good ==> field(bad, "response"@) == Some(answer@)
            &&& good && field(answer@, "server"@) is None ==> text_field(bad, "reason"@) == Some(
                "missing server identity"@,
            )
            &&& good && field(answer@, "server"@) is Some ==> text_field(bad, "reason"@) == Some(
                "invalid server identity: "@ + e@,
            )
            &&& good && !same ==> text_field(t, "reason"@) == Some(
                "response server identity mismatch: "@ + joined(identity_mismatches(i, x), ", "@),
            )
            &&& good && same && !there ==> text_field(t, "reason"@) == Some(
                "response server endpoint mismatch: "@ + "transport expected="@ + transport_of(
                    base_url,
                ) + " actual="@ + i.transport@,
            )
            &&& good && same && there && !end ==> text_field(t, "reason"@) == Some(
                "response server endpoint mismatch: "@ + "endpoint expected="@ + without_slashes(
                    base_url,
                ) + " actual="@ + i.endpoint@,
            )
            &&& good && same && there && end && i.server_instance_id@ != instance_id ==> text_field(
                t,
                "reason"@,
            ) == Some("server instance changed between health check and transcription"@)
                && text_field(t, "expected_instance_id"@) == Some(instance_id) && text_field(
                t,
                "actual_instance_id"@,
            ) == Some(i.server_instance_id@)
        }),
{
    reveal_strlit("reason");
    reveal_strlit("response");
    reveal_strlit("server_identity");
    reveal_strlit("expected_instance_id");
    reveal_strlit("actual_instance_id");
    assert("reason"@.len() == 6 && "response"@.len() == 8 && "server_identity"@.len() == 15);
    assert("expected_instance_id"@.len() == 20 && "actual_instance_id"@.len() == 18);
    if let Some(p) = answer_refusal(answer, Err(e), base_url, x, instance_id) {
        pairs_read_back(p, 0);
        if p.len() > 1 {
            pairs_read_back(p, 1);
        }
    }
    if let Some(p) = answer_refusal(answer, Ok(i), base_url, x, instance_id) {
        pairs_read_back(p, 0);
        if p.len() > 1 {
            pairs_read_back(p, 1);
        }
        if p.len() > 2 {
            pairs_read_back(p, 2);
        }
    }
}

/// What a server says of itself is reported field by field.
#[verifier::rlimit(40)]
pub proof fn identities_are_reported(i: ParakeetServerIdentity)
    ensures
        ({
            let t = Tree::Object(object_of(identity_pairs(i)));
            &&& field(t, "protocol_version"@) == Some(count_tree(i.protocol_version as nat))
            &&& field(t, "service"@) == Some(Tree::Text(i.service@))
            &&& field(t, "server_instance_id"@) == Some(Tree::Text(i.server_instance_id@))
            &&& field(t, "pid"@) == Some(int_tree(i.pid as int))
            &&& field(t, "riff_root"@) == Some(Tree::Text(i.riff_root@))
            &&& field(t, "script_path"@) == Some(Tree::Text(i.script_path@))
            &&& field(t, "transport"@) == Some(Tree::Text(i.transport@))
            &&& field(t, "endpoint"@) == Some(Tree::Text(i.endpoint@))
            &&& field(t, "model"@) == Some(Tree::Text(i.model@))
            &&& field(t, "model_revision"@) == Some(Tree::Text(i.model_revision@))
            &&& field(t, "requested_device"@) == Some(Tree::Text(i.requested_device@))
            &&& field(t, "device"@) == Some(Tree::Text(i.device@))
            &&& field(t, "python_version"@) == Some(Tree::Text(i.python_version@))
            &&& field(t, "python_executable"@) == Some(Tree::Text(i.python_executable@))
            &&& field(t, "nemo_version"@) == Some(Tree::Text(i.nemo_version@))
            &&& field(t, "torch_version"@) == Some(Tree::Text(i.torch_version@))
            &&& field(t, "started_at_epoch"@) == Some(Tree::Number(i.started_at_epoch@))
        }),
{
    reveal_strlit("protocol_version");
    reveal_strlit("service");
    reveal_strlit("server_instance_id");
    reveal_strlit("pid");
    reveal_strlit("riff_root");
    reveal_strlit("script_path");
    reveal_strlit("transport");
    reveal_strlit("endpoint");
    reveal_strlit("model");
    reveal_strlit("model_revision");
    reveal_strlit("requested_device");
    reveal_strlit("device");
    reveal_strlit("python_version");
    reveal_strlit("python_executable");
    reveal_strlit("nemo_version");
    reveal_strlit("torch_version");
    reveal_strlit("started_at_epoch");
    assert("protocol_version"@.len() == 16 && "protocol_version"@[0] == 'p');
    assert("service"@.len() == 7 && "service"@[0] == 's');
    assert("server_instance_id"@.len() == 18 && "server_instance_id"@[0] == 's');
    assert("pid"@.len() == 3 && "pid"@[0] == 'p');
    assert("riff_root"@.len() == 9 && "riff_root"@[0] == 'r');
    assert("script_path"@.len() == 11 && "script_path"@[0] == 's');
    assert("transport"@.len() == 9 && "transport"@[0] == 't');
    assert("endpoint"@.len() == 8 && "endpoint"@[0] == 'e');
    assert("model"@.len() == 5 && "model"@[0] == 'm');
    assert("model_revision"@.len() == 14 && "model_revision"@[0] == 'm');
    assert("requested_device"@.len() == 16 && "requested_device"@[0] == 'r');
    assert("device"@.len() == 6 && "device"@[0] == 'd');
    assert("python_version"@.len() == 14 && "python_version"@[0] == 'p');
    assert("python_executable"@.len() == 17 && "python_executable"@[0] == 'p');
    assert("nemo_version"@.len() == 12 && "nemo_version"@[0] == 'n');
    assert("torch_version"@.len() == 13 && "torch_version"@[0] == 't');
    assert("started_at_epoch"@.len() == 16 && "started_at_epoch"@[0] == 's');
    let p = identity_pairs(i);
    pairs_read_back(p, 0);
    pairs_read_back(p, 1);
    pairs_read_back(p, 2);
    pairs_read_back(p, 3);
    pairs_read_back(p, 4);
    pairs_read_back(p, 5);
    pairs_read_back(p, 6);
    pairs_read_back(p, 7);
    pairs_read_back(p, 8);
    pairs_read_back(p, 9);
    pairs_read_back(p, 10);
    pairs_read_back(p, 11);
    pairs_read_back(p, 12);
    pairs_read_back(p, 13);
    pairs_read_back(p, 14);
    pairs_read_back(p, 15);
    pairs_read_back(p, 16);
}

/// Where no answer came, or none that can be read, it is said what went wrong.
pub proof fn failed_requests_say_why(
    e: String,
    body: String,
    code: Option<i64>,
    stderr: String,
    stdout: String,
    base_url: Seq<char>,
    x: ExpectedServer,
    instance_id: Seq<char>,
)
    ensures
        reply_refusal(ServerReply::NoTool, base_url, x, instance_id) == Some(
            seq![("reason"@, Tree::Text("curl not found"@))],
        ),
        reply_refusal(ServerReply::NotRun(e), base_url, x, instance_id) == Some(
            seq![("reason"@, Tree::Text("curl failed: "@ + e@))],
        ),
        reply_refusal(ServerReply::Failed(code, stderr, stdout), base_url, x, instance_id) == Some(
            seq![
                ("stderr"@, Tree::Text(trimmed(stderr@))),
                ("stdout"@, Tree::Text(trimmed(stdout@))),
                ("returncode"@, opt_int_tree(code)),
            ],
        ),
        reply_refusal(ServerReply::Garbled(e, body), base_url, x, instance_id) == Some(
            seq![
                ("reason"@, Tree::Text("invalid JSON response: "@ + e@)),
                ("body"@, Tree::Text(body@)),
            ],
        ),
{
}

/// What a server left empty, and another protocol, are named among what is not as expected.
pub proof fn empty_values_are_named(i: ParakeetServerIdentity, x: ExpectedServer, name: Seq<char>)
    ensures
        blank(name, Seq::empty()) == seq![name + " is empty"@],
        trimmed(name).len() > 0 ==> blank(name, name).len() == 0,
        i.protocol_version != 1 ==> identity_mismatches(i, x).len() > 0 && identity_mismatches(i, x)[0]
            == "protocol_version expected=1 actual="@ + decimal(i.protocol_version as nat),
        i.protocol_version == 1 && i.service@ != "parakeet"@ ==> identity_mismatches(i, x).len() > 0
            && identity_mismatches(i, x)[0] == "service"@ + " expected="@ + "parakeet"@ + " actual="@
            + i.service@,
{
    lemma_trimmed_shape(Seq::empty());
}

/// Of a text that a server gave it is told which server that was and how long it took.
pub proof fn served_texts_say_how_long(
    answer: Json,
    i: ParakeetServerIdentity,
    base_url: Seq<char>,
    n: NumberView,
)
    ensures
        ({
            let t = Tree::Object(object_of(served_pairs(answer, i, base_url)));
            &&& field(t, "server_identity"@) == Some(Tree::Object(object_of(identity_pairs(i))))
            &&& number_field(answer@, "elapsed_sec"@) == Some(n) ==> field(t, "elapsed_sec"@) == Some(
                Tree::Number(quantity_of(n)),
            )
            &&& number_field(answer@, "elapsed_sec"@) is None ==> field(t, "elapsed_sec"@) == Some(
                Tree::Null,
            )
        }),
{
    reveal_strlit("server_identity");
    reveal_strlit("elapsed_sec");
    assert("server_identity"@.len() == 15 && "elapsed_sec"@.len() == 11);
    let p = served_pairs(answer, i, base_url);
    pairs_read_back(p, 6);
    pairs_read_back(p, 7);
}

} // verus!
