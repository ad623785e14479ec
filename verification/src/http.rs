//! The little of HTTP/1.1 that the daemon speaks.

use vstd::prelude::*;

use crate::bus::{decode, lossy_text};
use crate::daemon::{byte_len, query_views};
use crate::json::{Json, Tree};
use crate::number::{decimal, decimal_reads_back, decimal_text, parse_bounded, parsed_unsigned};
use crate::pattern::{
    contains, find, lemma_find_from, lemma_one_piece, occurs_at, space_parts_words, split, split_of,
    split_once, split_once_of, texts_are_cut_at_the_first, texts_without_space_are_words, views,
    words, words_of,
};
use crate::text::{
    ascii_lower, concat, concat3, is_digit, is_space, same, to_ascii_lower, trim, trim_end, trimmed,
    trimmed_end, trimming_takes_the_space_around,
};
use crate::wire::{read_json, text_read};
use crate::history::lemma_filter_map_adds;

verus! {

/// The longest request head that is read, in bytes.
pub const MAX_HEAD_BYTES: usize = 16_384;

/// The longest request body that is read, in bytes.
pub const MAX_BODY_BYTES: usize = 1_048_576;

/// The text that `str::to_uppercase` makes of a text.
pub uninterp spec fn uppercase(s: Seq<char>) -> Seq<char>;

/// `str::to_uppercase`: the result depends on the text alone.
#[verifier::external_body]
fn to_uppercase(s: &str) -> (r: String)
    ensures
        r@ == uppercase(s@),
{
    s.to_uppercase()
}

// ---------------------------------------------------------------------------------------------
// Reading the head
// ---------------------------------------------------------------------------------------------

/// The bytes of a blank line: carriage return and line feed, twice.
pub open spec fn blank_line() -> Seq<u8> {
    seq![13u8, 10u8, 13u8, 10u8]
}

/// What to do while a request head is read.
#[derive(Clone, Copy, Debug, PartialEq, Eq, Structural)]
pub enum HeadStep {
    Complete,
    TooLarge,
    ReadByte,
}

/// The bytes of a request head, as far as they have been read.
pub struct HeadReader {
    pub head: Vec<u8>,
}

impl HeadReader {
    /// A reader that has read nothing.
    pub fn new() -> (r: HeadReader)
        ensures
            r.head@.len() == 0,
    {
        HeadReader { head: Vec::new() }
    }

    /// What to do next: a head is complete with its blank line, and one that grows beyond the
    /// limit before is refused.
    pub open spec fn next_step(self) -> HeadStep {
        if blank_line().is_suffix_of(self.head@) {
            HeadStep::Complete
        } else if self.head@.len() > MAX_HEAD_BYTES {
            HeadStep::TooLarge
        } else {
            HeadStep::ReadByte
        }
    }

    /// What to do next.
    pub fn step(&self) -> (r: HeadStep)
        ensures
            r == self.next_step(),
    {
        let n: usize = self.head.len();
        if n >= 4 && self.head[n - 4] == 13 && self.head[n - 3] == 10 && self.head[n - 2] == 13
            && self.head[n - 1] == 10 {
            assert(self.head@.subrange(n - 4, n as int) =~= blank_line());
            HeadStep::Complete
        } else {
            assert(!blank_line().is_suffix_of(self.head@)) by {
                if blank_line().is_suffix_of(self.head@) {
                    let tail = self.head@.subrange(n - 4, n as int);
                    assert(tail =~= blank_line());
                    assert(tail[0] == 13 && tail[1] == 10 && tail[2] == 13 && tail[3] == 10);
                }
            }
            if n > MAX_HEAD_BYTES {
                HeadStep::TooLarge
            } else {
                HeadStep::ReadByte
            }
        }
    }

    /// Takes the next byte in.
    pub fn push(&mut self, byte: u8)
        ensures
            final(self).head@ == old(self).head@.push(byte),
    {
        self.head.push(byte);
    }
}

// ---------------------------------------------------------------------------------------------
// Parsing the head
// ---------------------------------------------------------------------------------------------

/// The head of a request.
pub struct RequestHead {
    pub method: String,
    pub path: String,
    pub query: Vec<(String, String)>,
    pub content_length: usize,
}

/// The model of the head of a request.
#[verifier::ext_equal]
pub struct HeadView {
    pub method: Seq<char>,
    pub path: Seq<char>,
    pub query: Seq<(Seq<char>, Seq<char>)>,
    pub content_length: nat,
}

impl View for RequestHead {
    type V = HeadView;

    open spec fn view(&self) -> HeadView {
        HeadView {
            method: self.method@,
            path: self.path@,
            query: query_views(self.query@),
            content_length: self.content_length as nat,
        }
    }
}

/// The first line of a request head.
pub open spec fn request_line(head: Seq<char>) -> Seq<char> {
    split_of(head, "\r\n"@)[0]
}

/// The `n`th word of the request line, empty where it has fewer.
pub open spec fn request_word(head: Seq<char>, n: int) -> Seq<char> {
    let w = words_of(request_line(head));
    if n < w.len() {
        w[n]
    } else {
        Seq::empty()
    }
}

/// The body length that a header line states, where it is one that does.
pub open spec fn length_line(line: Seq<char>) -> Option<nat> {
    match split_once_of(line, ":"@) {
        Some((name, value)) => if ascii_lower(trimmed(name)) == "content-length"@ {
            match parsed_unsigned(trimmed(value), usize::MAX as nat) {
                Some(n) => Some(n),
                None => Some(0),
            }
        } else {
            None
        },
        None => None,
    }
}

/// The body length that the last of the first `n` lines states, after the request line; 0 where
/// none does.
pub open spec fn stated_length(lines: Seq<Seq<char>>, n: int) -> nat
    decreases n,
{
    if n <= 1 {
        0
    } else {
        match length_line(lines[n - 1]) {
            Some(v) => v,
            None => stated_length(lines, n - 1),
        }
    }
}

/// A parameter: a key and a value, or a key alone.
pub open spec fn parameter(pair: Seq<char>) -> Option<(Seq<char>, Seq<char>)> {
    if pair.len() == 0 {
        None
    } else {
        match split_once_of(pair, "="@) {
            Some(p) => Some(p),
            None => Some((pair, Seq::empty())),
        }
    }
}

/// The parameters of a query text.
pub open spec fn parameters(query: Seq<char>) -> Seq<(Seq<char>, Seq<char>)> {
    split_of(query, "&"@).filter_map(|p: Seq<char>| parameter(p))
}

/// The path and the query text of a target.
pub open spec fn target_parts(target: Seq<char>) -> (Seq<char>, Seq<char>) {
    match split_once_of(target, "?"@) {
        Some(p) => p,
        None => (target, Seq::empty()),
    }
}

/// The head of a request, given its text and its method in capitals, or what is wrong with it.
pub open spec fn request_head(head: Seq<char>, method: Seq<char>) -> Result<HeadView, Seq<char>> {
    let lines = split_of(head, "\r\n"@);
    let target = request_word(head, 1);
    let length = stated_length(lines, lines.len() as int);
    if method.len() == 0 || target.len() == 0 {
        Err("Malformed request line: "@ + request_line(head))
    } else if length > MAX_BODY_BYTES {
        Err("Request body too large."@)
    } else {
        Ok(
            HeadView {
                method,
                path: target_parts(target).0,
                query: parameters(target_parts(target).1),
                content_length: length,
            },
        )
    }
}

/// The view of the outcome of reading a head.
pub open spec fn head_result(r: Result<RequestHead, String>) -> Result<HeadView, Seq<char>> {
    match r {
        Ok(h) => Ok(h@),
        Err(e) => Err(e@),
    }
}

/// The body length that the header lines state.
fn read_length(lines: &Vec<String>) -> (r: usize)
    ensures
        r == stated_length(views(lines@), lines@.len() as int),
{
    proof {
        reveal_strlit(":");
    }
    let ghost all = views(lines@);
    let mut length: usize = 0;
    let mut i: usize = 1;
    while i < lines.len()
        invariant
            1 <= i,
            i <= lines.len() || (lines.len() == 0 && i == 1),
            all == views(lines@),
            ":"@.len() == 1,
            length == stated_length(all, i as int),
        decreases lines.len() - i,
    {
        assert(all[i as int] == lines@[i as int]@);
        if let Some((name, value)) = split_once(lines[i].as_str(), ":") {
            let lower = to_ascii_lower(trim(name.as_str()).as_str());
            if same(lower.as_str(), "content-length") {
                length = match parse_bounded(trim(value.as_str()).as_str(), usize::MAX as u64) {
                    Some(n) => n as usize,
                    None => 0,
                };
            }
        }
        i = i + 1;
    }
    assert(stated_length(all, 0) == 0 && stated_length(all, 1) == 0);
    length
}

/// The parameters of a query text.
fn read_parameters(query: &str) -> (r: Vec<(String, String)>)
    ensures
        query_views(r@) == parameters(query@),
{
    proof {
        reveal_strlit("&");
    }
    let parts = split(query, "&");
    let ghost all = views(parts@);
    let ghost f = |p: Seq<char>| parameter(p);
    let mut out: Vec<(String, String)> = Vec::new();
    let mut i: usize = 0;
    proof {
        reveal(Seq::filter_map);
    }
    assert(query_views(out@) =~= all.subrange(0, 0).filter_map(f));
    while i < parts.len()
        invariant
            i <= parts.len(),
            all == views(parts@),
            f == (|p: Seq<char>| parameter(p)),
            query_views(out@) == all.subrange(0, i as int).filter_map(f),
        decreases parts.len() - i,
    {
        let ghost before = out@;
        proof {
            assert(all.subrange(0, i + 1).drop_last() == all.subrange(0, i as int));
            assert(all.subrange(0, i + 1).last() == parts@[i as int]@);
            reveal(Seq::filter_map);
        }
        if !parts[i].as_str().is_empty() {
            let p: (String, String) = match split_once(parts[i].as_str(), "=") {
                Some(p) => p,
                None => (parts[i].clone(), String::new()),
            };
            let ghost v = (p.0@, p.1@);
            out.push(p);
            assert(query_views(out@) == query_views(before).push(v));
        }
        assert(query_views(out@) =~= all.subrange(0, i + 1).filter_map(f));
        i = i + 1;
    }
    assert(all.subrange(0, all.len() as int) == all);
    out
}

/// A text has at least one piece.
proof fn lemma_split_has_first(s: Seq<char>, pat: Seq<char>)
    requires
        pat.len() > 0,
    ensures
        split_of(s, pat).len() > 0,
{
    lemma_find_from(s, pat, 0);
}

/// The head of a request, given its text and its method in capitals, or what is wrong with it.
pub fn build_request_head(head: &str, method: &str) -> (r: Result<RequestHead, String>)
    ensures
        head_result(r) == request_head(head@, method@),
{
    proof {
        reveal_strlit("\r\n");
        lemma_split_has_first(head@, "\r\n"@);
    }
    let lines = split(head, "\r\n");
    assert(lines@.len() == views(lines@).len());
    assert(views(lines@)[0] == lines@[0]@);
    let parts = words(lines[0].as_str());
    assert(views(parts@).len() == parts@.len());
    let target: String = if parts.len() > 1 {
        assert(views(parts@)[1] == parts@[1]@);
        parts[1].clone()
    } else {
        String::new()
    };
    if method.is_empty() || target.as_str().is_empty() {
        return Err(concat("Malformed request line: ", lines[0].as_str()));
    }
    let content_length = read_length(&lines);
    if content_length > MAX_BODY_BYTES {
        return Err("Request body too large.".to_owned());
    }
    let (path, query_text): (String, String) = match split_once(target.as_str(), "?") {
        Some(p) => p,
        None => (target.clone(), String::new()),
    };
    let query = read_parameters(query_text.as_str());
    Ok(RequestHead { method: method.to_owned(), path, query, content_length })
}

/// The head of a request, from its bytes, or what is wrong with it.
pub fn read_request_head(head: &Vec<u8>) -> (r: Result<RequestHead, String>)
    ensures
        head_result(r) == request_head(
            lossy_text(head@),
            uppercase(request_word(lossy_text(head@), 0)),
        ),
{
    let text = decode(head.as_slice());
    proof {
        reveal_strlit("\r\n");
        lemma_split_has_first(text@, "\r\n"@);
    }
    let lines = split(text.as_str(), "\r\n");
    assert(views(lines@)[0] == lines@[0]@);
    let parts = words(lines[0].as_str());
    assert(views(parts@).len() == parts@.len());
    let word: String = if parts.len() > 0 {
        assert(views(parts@)[0] == parts@[0]@);
        parts[0].clone()
    } else {
        String::new()
    };
    let method = to_uppercase(word.as_str());
    build_request_head(text.as_str(), method.as_str())
}

/// A request head that is accepted never announces more body than is read.
pub proof fn accepted_bodies_are_bounded(head: Seq<char>, method: Seq<char>)
    ensures
        request_head(head, method) matches Ok(h) ==> h.content_length <= MAX_BODY_BYTES
            && h.method.len() > 0,
{
}

// ---------------------------------------------------------------------------------------------
// Routes and answers
// ---------------------------------------------------------------------------------------------

/// What a request asks for.
#[derive(Clone, Copy, Debug, PartialEq, Eq, Structural)]
pub enum Route {
    Identity,
    Health,
    Events,
    Subscribe,
    Unknown,
}

/// What a request with this method and path asks for.
pub open spec fn route_of(method: Seq<char>, path: Seq<char>) -> Route {
    if method == "GET"@ && path == "/identity"@ {
        Route::Identity
    } else if method == "GET"@ && path == "/health"@ {
        Route::Health
    } else if method == "POST"@ && path == "/events"@ {
        Route::Events
    } else if method == "GET"@ && path == "/subscribe"@ {
        Route::Subscribe
    } else {
        Route::Unknown
    }
}

/// What a request with this method and path asks for.
pub fn route(method: &str, path: &str) -> (r: Route)
    ensures
        r == route_of(method@, path@),
{
    let get: bool = same(method, "GET");
    if get && same(path, "/identity") {
        Route::Identity
    } else if get && same(path, "/health") {
        Route::Health
    } else if same(method, "POST") && same(path, "/events") {
        Route::Events
    } else if get && same(path, "/subscribe") {
        Route::Subscribe
    } else {
        Route::Unknown
    }
}

/// What is said of a request that nothing answers.
pub fn no_route(method: &str, path: &str) -> (r: String)
    ensures
        r@ == "No route "@ + method@ + " "@ + path@,
{
    let head = concat3("No route ", method, " ");
    concat(head.as_str(), path)
}

/// The words for a status.
pub open spec fn reason_of(status: u16) -> Seq<char> {
    if status == 200 {
        "OK"@
    } else if status == 400 {
        "Bad Request"@
    } else if status == 404 {
        "Not Found"@
    } else {
        "Error"@
    }
}

/// An answer with a JSON body.
pub open spec fn response_of(status: u16, body: Seq<char>) -> Seq<char> {
    "HTTP/1.1 "@ + decimal(status as nat) + " "@ + reason_of(status)
        + "\r\nContent-Type: application/json\r\nContent-Length: "@ + decimal(
        byte_len(body) as nat,
    ) + "\r\nConnection: close\r\n\r\n"@ + body
}

/// An answer with a JSON body.
pub fn response_text(status: u16, body: &str) -> (r: String)
    ensures
        r@ == response_of(status, body@),
{
    let reason: &str = if status == 200 {
        "OK"
    } else if status == 400 {
        "Bad Request"
    } else if status == 404 {
        "Not Found"
    } else {
        "Error"
    };
    let n: usize = body.len();
    let mut out = concat("HTTP/1.1 ", decimal_text(status as u64).as_str());
    out.append(" ");
    out.append(reason);
    out.append("\r\nContent-Type: application/json\r\nContent-Length: ");
    out.append(decimal_text(n as u64).as_str());
    out.append("\r\nConnection: close\r\n\r\n");
    out.append(body);
    out
}

/// The head of the answer to a subscription: lines of JSON until either side closes.
pub fn subscribe_head() -> (r: String)
    ensures
        r@
            == "HTTP/1.1 200 OK\r\nContent-Type: application/x-ndjson\r\nConnection: close\r\n\r\n"@,
{
    "HTTP/1.1 200 OK\r\nContent-Type: application/x-ndjson\r\nConnection: close\r\n\r\n".to_owned()
}

/// The request that a client of the daemon sends.
pub fn request_text(path: &str) -> (r: String)
    ensures
        r@ == "GET "@ + path@ + " HTTP/1.1\r\nHost: riffd\r\nConnection: close\r\n\r\n"@,
{
    concat3("GET ", path, " HTTP/1.1\r\nHost: riffd\r\nConnection: close\r\n\r\n")
}

/// The body of an answer: what follows its first blank line.
pub fn response_body(response: &str) -> (r: Option<String>)
    ensures
        match split_once_of(response@, "\r\n\r\n"@) {
            Some((_, body)) => r is Some && r->0@ == body,
            None => r is None,
        },
{
    match split_once(response, "\r\n\r\n") {
        Some((_, body)) => Some(body),
        None => None,
    }
}

/// The value that an answer holds, where its body is one.
pub fn response_json(response: &[u8]) -> (r: Option<Json>)
    ensures
        match split_once_of(lossy_text(response@), "\r\n\r\n"@) {
            Some((_, body)) => match r {
                Some(j) => text_read(body) == Ok::<Tree, Seq<char>>(j@),
                None => text_read(body) is Err,
            },
            None => r is None,
        },
{
    match response_body(decode(response).as_str()) {
        Some(body) => match read_json(body.as_str()) {
            Ok(j) => Some(j),
            Err(_) => None,
        },
        None => None,
    }
}

/// A reader of the answer to a subscription, which passes over its head.
pub struct SubscriptionReader {
    pub past_headers: bool,
}

impl SubscriptionReader {
    /// The line to show, of a line that was read: none of the head and none that is blank.
    pub fn accept(&mut self, line: &str) -> (r: Option<String>)
        ensures
            final(self).past_headers == (old(self).past_headers || trimmed_end(line@).len() == 0),
            r is Some <==> old(self).past_headers && trimmed_end(line@).len() > 0,
            r matches Some(t) ==> t@ == trimmed_end(line@),
    {
        let text = trim_end(line);
        let blank: bool = text.as_str().is_empty();
        if !self.past_headers {
            if blank {
                self.past_headers = true;
            }
            return None;
        }
        if blank {
            return None;
        }
        Some(text)
    }
}

// ---------------------------------------------------------------------------------------------
// What a request asks for, and what it is answered
// ---------------------------------------------------------------------------------------------

/// Four requests are answered, each under one method and one path, and no other.
pub proof fn four_requests_are_answered(method: Seq<char>, path: Seq<char>)
    ensures
        route_of("GET"@, "/identity"@) == Route::Identity,
        route_of("GET"@, "/health"@) == Route::Health,
        route_of("POST"@, "/events"@) == Route::Events,
        route_of("GET"@, "/subscribe"@) == Route::Subscribe,
        method != "GET"@ && method != "POST"@ ==> route_of(method, path) == Route::Unknown,
        route_of("GET"@, "/events"@) == Route::Unknown,
        path != "/events"@ ==> route_of("POST"@, path) == Route::Unknown,
        path != "/identity"@ && path != "/health"@ && path != "/subscribe"@ ==> route_of("GET"@, path)
            == Route::Unknown,
{
    reveal_strlit("GET");
    reveal_strlit("POST");
    reveal_strlit("/identity");
    reveal_strlit("/health");
    reveal_strlit("/events");
    reveal_strlit("/subscribe");
    assert("GET"@.len() == 3 && "POST"@.len() == 4);
    assert("/identity"@.len() == 9 && "/health"@.len() == 7 && "/events"@.len() == 7);
    assert("/subscribe"@.len() == 10 && "/health"@[1] == 'h' && "/events"@[1] == 'e');
}

/// An answer says its status, announces its body and ends in it.
pub proof fn answers_announce_their_body(status: u16, body: Seq<char>)
    ensures
        ({
            let r = response_of(status, body);
            &&& ("HTTP/1.1 "@ + decimal(status as nat) + " "@).is_prefix_of(r)
            &&& ("Content-Length: "@ + decimal(byte_len(body) as nat)
                + "\r\nConnection: close\r\n\r\n"@ + body).is_suffix_of(r)
            &&& status == 200 ==> ("HTTP/1.1 "@ + decimal(200) + " "@ + "OK"@).is_prefix_of(r)
            &&& status == 400 ==> ("HTTP/1.1 "@ + decimal(400) + " "@
                + "Bad Request"@).is_prefix_of(r)
            &&& status == 404 ==> ("HTTP/1.1 "@ + decimal(404) + " "@
                + "Not Found"@).is_prefix_of(r)
            &&& status != 200 && status != 400 && status != 404 ==> ("HTTP/1.1 "@ + decimal(
                status as nat,
            ) + " "@ + "Error"@).is_prefix_of(r)
        }),
{
    reveal_strlit("\r\nContent-Type: application/json\r\nContent-Length: ");
    reveal_strlit("Content-Length: ");
    let front = "HTTP/1.1 "@ + decimal(status as nat) + " "@;
    let middle = "\r\nContent-Type: application/json\r\nContent-Length: "@;
    let label = "Content-Length: "@;
    let n = decimal(byte_len(body) as nat);
    let close = "\r\nConnection: close\r\n\r\n"@;
    let r = response_of(status, body);
    let first = front + reason_of(status);
    assert(r.subrange(0, front.len() as int) =~= front);
    assert(r.subrange(0, first.len() as int) =~= first);
    let tail = label + n + close + body;
    let cut = middle.subrange(0, middle.len() - label.len());
    assert(middle =~= cut + label);
    assert(r =~= first + cut + tail);
    assert(r.subrange(r.len() - tail.len(), r.len() as int) =~= tail);
}

/// A target is a path and, behind the first question mark, its parameters: each a key and a value
/// that an equals sign parts, or a key alone.
pub proof fn targets_part_at_marks(a: Seq<char>, b: Seq<char>, rest: Seq<char>)
    requires
        !a.contains('?'),
        !a.contains('='),
        !a.contains('&'),
        !b.contains('&'),
        a.len() > 0,
    ensures
        target_parts(a + seq!['?'] + rest) == (a, rest),
        target_parts(a) == (a, Seq::<char>::empty()),
        parameter(a + seq!['='] + b) == Some((a, b)),
        parameter(a) == Some((a, Seq::<char>::empty())),
        parameter(Seq::empty()) is None,
        parameters(a + seq!['='] + b + seq!['&'] + rest) == seq![(a, b)] + parameters(rest),
        parameters(a + seq!['='] + b) == seq![(a, b)],
        parameters(Seq::empty()).len() == 0,
{
    reveal(Seq::filter_map);
    reveal_strlit("?");
    reveal_strlit("=");
    reveal_strlit("&");
    assert("?"@ =~= seq!['?'] && "="@ =~= seq!['='] && "&"@ =~= seq!['&']);
    lemma_first_mark(a, '?', rest);
    lemma_first_mark(a, '=', b);
    lemma_no_mark(a, '?');
    lemma_no_mark(a, '=');
    let pair = a + seq!['='] + b;
    assert(!pair.contains('&')) by {
        if pair.contains('&') {
            let k = choose|k: int| 0 <= k < pair.len() && pair[k] == '&';
            if k < a.len() {
                assert(a[k] == '&');
            } else if k > a.len() {
                assert(b[k - a.len() - 1] == '&');
            }
        }
    }
    lemma_first_mark(pair, '&', rest);
    lemma_no_mark(pair, '&');
    lemma_no_mark(Seq::empty(), '&');
    lemma_find_from(pair, "&"@, 0);
    lemma_one_piece(pair, "&"@, "&"@);
    lemma_one_piece(Seq::empty(), "&"@, "&"@);
    texts_are_cut_at_the_first(pair, "&"@, rest);
    let f = |p: Seq<char>| parameter(p);
    let one = seq![pair];
    assert(one.drop_last() =~= Seq::empty());
    assert(one.drop_last().filter_map(f) =~= Seq::empty());
    assert(one.filter_map(f) =~= seq![(a, b)]);
    let none = seq![Seq::<char>::empty()];
    assert(none.drop_last() =~= Seq::empty());
    assert(none.drop_last().filter_map(f) =~= Seq::empty());
    assert(none.filter_map(f) =~= Seq::empty());
    lemma_filter_map_adds(one, split_of(rest, "&"@), f);
}

proof fn lemma_first_mark(a: Seq<char>, c: char, rest: Seq<char>)
    requires
        !a.contains(c),
    ensures
        find(a + seq![c] + rest, seq![c]) == Some(a.len() as int),
        split_once_of(a + seq![c] + rest, seq![c]) == Some((a, rest)),
{
    let s = a + seq![c] + rest;
    let pat = seq![c];
    lemma_find_from(s, pat, 0);
    let at = a.len() as int;
    assert(s.subrange(at, at + 1) =~= pat);
    assert(occurs_at(s, pat, at));
    assert forall|j: int| 0 <= j < at implies !#[trigger] occurs_at(s, pat, j) by {
        assert(s.subrange(j, j + 1)[0] == a[j]);
        assert(pat[0] == c);
        assert(a.contains(a[j]));
    }
    assert(find(s, pat) == Some(at));
    assert(s.subrange(0, at) =~= a);
    assert(s.subrange(at + 1, s.len() as int) =~= rest);
}

proof fn lemma_no_mark(a: Seq<char>, c: char)
    requires
        !a.contains(c),
    ensures
        !contains(a, seq![c]),
        find(a, seq![c]) is None,
{
    lemma_find_from(a, seq![c], 0);
    if contains(a, seq![c]) {
        let k = choose|k: int| #[trigger] occurs_at(a, seq![c], k);
        assert(a.subrange(k, k + 1)[0] == a[k]);
        assert(seq![c][0] == c);
    }
    if let Some(k) = find(a, seq![c]) {
        assert(occurs_at(a, seq![c], k));
    }
}

/// The length of the body is what the last header says that states one, however it is written.
pub proof fn lengths_are_stated_by_headers(lines: Seq<Seq<char>>, name: Seq<char>, n: nat)
    requires
        lines.len() > 0,
        !name.contains(':'),
        n <= usize::MAX,
    ensures
        ascii_lower(trimmed(name)) == "content-length"@ ==> stated_length(
            lines.push(name + seq![':', ' '] + decimal(n)),
            lines.len() + 1int,
        ) == n,
        ascii_lower(trimmed(name)) != "content-length"@ ==> stated_length(
            lines.push(name + seq![':', ' '] + decimal(n)),
            lines.len() + 1int,
        ) == stated_length(lines, lines.len() as int),
        stated_length(lines, 1) == 0,
{
    reveal_strlit(":");
    assert(":"@ =~= seq![':']);
    let value = seq![' '] + decimal(n);
    let line = name + seq![':', ' '] + decimal(n);
    assert(line =~= name + seq![':'] + value);
    lemma_first_mark(name, ':', value);
    let d = decimal(n);
    decimal_reads_back(n);
    assert(is_digit(d[0]) && is_digit(d[d.len() - 1]));
    trimming_takes_the_space_around(seq![' '], d, Seq::empty());
    assert(value =~= seq![' '] + d + Seq::<char>::empty());
    assert(lines.push(line)[lines.len() as int] == line);
    lemma_length_prefix(lines, line, lines.len() as int);
}

proof fn lemma_length_prefix(lines: Seq<Seq<char>>, line: Seq<char>, n: int)
    requires
        0 <= n <= lines.len(),
    ensures
        stated_length(lines.push(line), n) == stated_length(lines, n),
    decreases n,
{
    if n > 1 {
        lemma_length_prefix(lines, line, n - 1);
        assert(lines.push(line)[n - 1] == lines[n - 1]);
    }
}

/// A head is complete where it ends in a blank line, and is refused where it does not and is too long.
pub proof fn heads_end_in_a_blank_line(front: Seq<u8>, r: HeadReader)
    ensures
        r.head@ == front + seq![13u8, 10u8, 13u8, 10u8] ==> r.next_step() == HeadStep::Complete,
        r.head@.len() > 16384 && r.head@.last() != 10 ==> r.next_step() == HeadStep::TooLarge,
        0 < r.head@.len() <= 16384 && r.head@.last() != 10 ==> r.next_step() == HeadStep::ReadByte,
        r.head@.len() == 0 ==> r.next_step() == HeadStep::ReadByte,
{
    let end = blank_line();
    if r.head@ == front + seq![13u8, 10u8, 13u8, 10u8] {
        assert(r.head@.subrange(r.head@.len() - 4, r.head@.len() as int) =~= end);
    }
    if end.is_suffix_of(r.head@) {
        assert(r.head@.subrange(r.head@.len() - 4, r.head@.len() as int)[3] == r.head@.last());
    }
}

/// The first line of a request names its method and its target, as its first two words; the path and
/// the parameters are those of the target.
pub proof fn requests_name_method_and_target(
    verb: Seq<char>,
    target: Seq<char>,
    version: Seq<char>,
    rest: Seq<char>,
    method: Seq<char>,
)
    requires
        verb.len() > 0,
        target.len() > 0,
        version.len() > 0,
        forall|i: int| 0 <= i < verb.len() ==> !is_space(#[trigger] verb[i]),
        forall|i: int| 0 <= i < target.len() ==> !is_space(#[trigger] target[i]),
        forall|i: int| 0 <= i < version.len() ==> !is_space(#[trigger] version[i]),
    ensures
        ({
            let first = verb + seq![' '] + (target + seq![' '] + version);
            let head = first + "\r\n"@ + rest;
            let lines = seq![first] + split_of(rest, "\r\n"@);
            let length = stated_length(lines, lines.len() as int);
            &&& request_line(head) == first
            &&& request_word(head, 0) == verb
            &&& request_word(head, 1) == target
            &&& request_head(head, Seq::empty()) == Err::<HeadView, Seq<char>>(
                "Malformed request line: "@ + first,
            )
            &&& method.len() > 0 && length > MAX_BODY_BYTES ==> request_head(head, method) == Err::<
                HeadView,
                Seq<char>,
            >("Request body too large."@)
            &&& method.len() > 0 && length <= MAX_BODY_BYTES ==> (request_head(head, method) matches Ok(
                h,
            ) && h.method == method && h.path == target_parts(target).0 && h.query == parameters(
                target_parts(target).1,
            ) && h.content_length == length)
        }),
{
    reveal_strlit("\r\n");
    let first = verb + seq![' '] + (target + seq![' '] + version);
    let end = "\r\n"@;
    let head = first + end + rest;
    assert(is_space(' ') && is_space('\r'));
    texts_without_space_are_words(verb);
    texts_without_space_are_words(target);
    texts_without_space_are_words(version);
    space_parts_words(target, ' ', version);
    space_parts_words(verb, ' ', target + seq![' '] + version);
    assert(words_of(first) =~= seq![verb, target, version]);
    let at = first.len() as int;
    lemma_find_from(head, end, 0);
    assert(head.subrange(at, at + 2) =~= end);
    assert(occurs_at(head, end, at));
    assert forall|j: int| 0 <= j < at implies !#[trigger] occurs_at(head, end, j) by {
        if occurs_at(head, end, j) {
            assert(head.subrange(j, j + 2)[0] == first[j]);
            assert(end[0] == '\r');
            let k = verb.len() as int;
            let m = k + 1 + target.len();
            if j < k {
                assert(first[j] == verb[j]);
            } else if j > k && j < m {
                assert(first[j] == target[j - k - 1]);
            } else if j > m {
                assert(first[j] == version[j - m - 1]);
            }
        }
    }
    assert(find(head, end) == Some(at));
    texts_are_cut_at_the_first(first, end, rest);
    assert(split_of(head, end) =~= seq![first] + split_of(rest, end));
    assert(split_of(head, end)[0] == first);
}

/// An answer is JSON, said to be so, with the length of its body and the end of the connection.
pub proof fn answers_are_said_to_be_json(body: Seq<char>)
    ensures
        response_of(200, body) == "HTTP/1.1 "@ + decimal(200) + " "@ + "OK"@
            + "\r\nContent-Type: application/json\r\nContent-Length: "@ + decimal(
            byte_len(body) as nat,
        ) + "\r\nConnection: close\r\n\r\n"@ + body,
{
}

/// A header that should state a length and holds no number states none.
pub proof fn garbled_lengths_are_none(name: Seq<char>, value: Seq<char>)
    requires
        !name.contains(':'),
        ascii_lower(trimmed(name)) == "content-length"@,
        parsed_unsigned(trimmed(value), usize::MAX as nat) is None,
    ensures
        length_line(name + seq![':'] + value) == Some(0nat),
{
    reveal_strlit(":");
    assert(":"@ =~= seq![':']);
    lemma_first_mark(name, ':', value);
}

} // verus!
