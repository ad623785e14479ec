//! Settings: environment variables, the `.riffrc` file and the JSON configuration.

use vstd::prelude::*;
use vstd::utf8::{encode_utf8, is_ascii_chars, is_ascii_chars_encode_utf8};

use crate::json::{field, field_views, item_views, lemma_tree, opt_view, Json, Tree};
use crate::number::{parse_u64, parsed_unsigned};
use crate::pattern::{
    find_chars, find_from, join, joined, lemma_find_from, lemma_find_shift, lines, lines_of,
    occurs_at, pair_view, split_once, split_once_of, starts_with, strip_prefix, views,
};
use crate::text::{
    ascii_lower, char_is_digit, char_is_letter, chars_of, concat, concat3, is_digit, is_letter,
    lemma_trimmed_end, lemma_trimmed_shape, lemma_trimmed_start, same, string_of, to_ascii_lower,
    trim, trim_start, trimmed, trimmed_start,
};
use crate::watch::{number_text, number_text_of};
use crate::wire::{read_json, text_read};

verus! {

// ---------------------------------------------------------------------------------------------
// The environment
// ---------------------------------------------------------------------------------------------

/// The variables of an environment, the latest setting of each last.
pub struct Env {
    pub vars: Vec<(String, String)>,
}

/// What a list of settings leaves set.
pub open spec fn settings(vars: Seq<(String, String)>) -> Map<Seq<char>, Seq<char>>
    decreases vars.len(),
{
    if vars.len() == 0 {
        Map::empty()
    } else {
        settings(vars.drop_last()).insert(vars.last().0@, vars.last().1@)
    }
}

impl View for Env {
    type V = Map<Seq<char>, Seq<char>>;

    open spec fn view(&self) -> Map<Seq<char>, Seq<char>> {
        settings(self.vars@)
    }
}

/// The value of a variable, where it is set.
pub open spec fn env_value(env: Map<Seq<char>, Seq<char>>, key: Seq<char>) -> Option<Seq<char>> {
    if env.dom().contains(key) {
        Some(env[key])
    } else {
        None
    }
}

/// The value of a variable, empty where it is not set.
pub open spec fn env_or_empty(env: Map<Seq<char>, Seq<char>>, key: Seq<char>) -> Seq<char> {
    if env.dom().contains(key) {
        env[key]
    } else {
        Seq::empty()
    }
}

impl Env {
    /// The value of a variable, where it is set.
    pub fn get(&self, key: &str) -> (r: Option<&String>)
        ensures
            r matches Some(v) ==> env_value(self@, key@) == Some(v@),
            r is None ==> env_value(self@, key@) is None,
    {
        let mut i: usize = self.vars.len();
        assert(self.vars@.subrange(0, i as int) == self.vars@);
        while i > 0
            invariant
                i <= self.vars.len(),
                env_value(self@, key@) == env_value(
                    settings(self.vars@.subrange(0, i as int)),
                    key@,
                ),
            decreases i,
        {
            proof {
                let s = self.vars@.subrange(0, i as int);
                assert(s.drop_last() == self.vars@.subrange(0, i - 1));
                assert(s.last() == self.vars@[i - 1]);
            }
            i = i - 1;
            if same(self.vars[i].0.as_str(), key) {
                return Some(&self.vars[i].1);
            }
        }
        None
    }

    /// Sets a variable.
    pub fn set(&mut self, key: &str, value: &str)
        ensures
            final(self)@ == old(self)@.insert(key@, value@),
    {
        let ghost before = self.vars@;
        self.vars.push((key.to_owned(), value.to_owned()));
        assert(self.vars@.drop_last() == before);
    }
}

/// The environment after a default has been offered: a variable that the caller set stays, and one
/// that an earlier file set stays unless the default overrides.
pub open spec fn offered(
    env: Map<Seq<char>, Seq<char>>,
    original: Seq<Seq<char>>,
    key: Seq<char>,
    value: Seq<char>,
    overrides: bool,
) -> Map<Seq<char>, Seq<char>> {
    if original.contains(key) {
        env
    } else if overrides || !env.dom().contains(key) {
        env.insert(key, value)
    } else {
        env
    }
}

/// Whether `list` holds `key`.
pub fn list_contains(list: &Vec<String>, key: &str) -> (r: bool)
    ensures
        r == views(list@).contains(key@),
{
    let mut i: usize = 0;
    while i < list.len()
        invariant
            i <= list.len(),
            forall|k: int| 0 <= k < i ==> (#[trigger] list@[k])@ != key@,
        decreases list.len() - i,
    {
        if same(list[i].as_str(), key) {
            assert(views(list@)[i as int] == key@);
            return true;
        }
        i = i + 1;
    }
    assert forall|k: int| 0 <= k < list@.len() implies views(list@)[k] != key@ by {
        assert(list@[k]@ != key@);
    }
    false
}

/// Offers a default for a variable: a variable that the caller set stays, and one that an earlier
/// file set stays unless the default overrides.
pub fn maybe_set_default_env(
    env: &mut Env,
    original: &Vec<String>,
    key: &str,
    value: &str,
    overrides: bool,
)
    ensures
        final(env)@ == offered(old(env)@, views(original@), key@, value@, overrides),
{
    if list_contains(original, key) {
        return ;
    }
    let set: bool = env.get(key).is_some();
    if overrides || !set {
        env.set(key, value);
    }
}

// ---------------------------------------------------------------------------------------------
// References to variables
// ---------------------------------------------------------------------------------------------

/// Whether the name of a variable may start with `c`.
pub open spec fn key_start(c: char) -> bool {
    c == '_' || is_letter(c)
}

/// Whether the name of a variable may hold `c` behind its start.
pub open spec fn key_char(c: char) -> bool {
    c == '_' || is_letter(c) || is_digit(c)
}

/// Whether `key` is the name of a variable.
pub open spec fn valid_env_key(key: Seq<char>) -> bool {
    &&& key.len() > 0
    &&& key_start(key[0])
    &&& forall|i: int| 1 <= i < key.len() ==> key_char(#[trigger] key[i])
}

/// Whether the name of a variable may start with `c`.
fn starts_key(c: char) -> (r: bool)
    ensures
        r == key_start(c),
{
    c == '_' || char_is_letter(c)
}

/// Whether the name of a variable may hold `c` behind its start.
fn continues_key(c: char) -> (r: bool)
    ensures
        r == key_char(c),
{
    c == '_' || char_is_letter(c) || char_is_digit(c)
}

/// Whether `key` is the name of a variable.
pub fn is_valid_env_key(key: &str) -> (r: bool)
    ensures
        r == valid_env_key(key@),
{
    let v = chars_of(key);
    if v.len() == 0 || !starts_key(v[0]) {
        return false;
    }
    let mut i: usize = 1;
    while i < v.len()
        invariant
            1 <= i <= v.len(),
            v@ == key@,
            forall|k: int| 1 <= k < i ==> key_char(#[trigger] v@[k]),
        decreases v.len() - i,
    {
        if !continues_key(v[i]) {
            assert(!key_char(key@[i as int]));
            return false;
        }
        i = i + 1;
    }
    true
}

/// The first position at or behind `i` that the name of a variable does not reach.
pub open spec fn key_end(s: Seq<char>, i: int) -> int
    decreases s.len() - i,
{
    if 0 <= i < s.len() && key_char(s[i]) {
        key_end(s, i + 1)
    } else {
        i
    }
}

/// The bytes of a text, each as the character of the same number.
pub open spec fn byte_chars(s: Seq<char>) -> Seq<char> {
    encode_utf8(s).map_values(|b: u8| b as char)
}

/// `s` from position `i` on, with every `${NAME}` and `$NAME` replaced by the value of the
/// variable. A dollar sign that starts no reference stays.
pub open spec fn expanded(s: Seq<char>, i: int, env: Map<Seq<char>, Seq<char>>) -> Seq<char>
    decreases s.len() - i,
{
    if i < 0 || i >= s.len() {
        Seq::empty()
    } else if s[i] != '$' {
        seq![s[i]] + expanded(s, i + 1, env)
    } else if i + 1 < s.len() && s[i + 1] == '{' {
        match find_from(s, seq!['}'], i + 2) {
            Some(j) => if i + 2 <= j < s.len() && valid_env_key(s.subrange(i + 2, j)) {
                env_or_empty(env, s.subrange(i + 2, j)) + expanded(s, j + 1, env)
            } else {
                seq!['$'] + expanded(s, i + 1, env)
            },
            None => seq!['$'] + expanded(s, i + 1, env),
        }
    } else if i + 1 < s.len() && key_start(s[i + 1]) {
        let j = key_end(s, i + 2);
        if i + 2 <= j <= s.len() {
            env_or_empty(env, s.subrange(i + 1, j)) + expanded(s, j, env)
        } else {
            Seq::empty()
        }
    } else {
        seq!['$'] + expanded(s, i + 1, env)
    }
}

/// The first position at or behind `from` that the name of a variable does not reach.
fn scan_key(s: &Vec<char>, from: usize) -> (r: usize)
    requires
        from <= s.len(),
    ensures
        r == key_end(s@, from as int),
        from <= r <= s.len(),
{
    let mut i: usize = from;
    while i < s.len() && continues_key(s[i])
        invariant
            from <= i <= s.len(),
            key_end(s@, from as int) == key_end(s@, i as int),
        decreases s.len() - i,
    {
        i = i + 1;
    }
    i
}

/// The bytes of a text, each as the character of the same number.
fn bytes_as_chars(s: &str) -> (r: Vec<char>)
    ensures
        r@ == byte_chars(s@),
{
    let bytes = s.as_bytes();
    let mut out: Vec<char> = Vec::new();
    let mut i: usize = 0;
    while i < bytes.len()
        invariant
            i <= bytes.len(),
            bytes@ == encode_utf8(s@),
            out@ == byte_chars(s@).subrange(0, i as int),
        decreases bytes.len() - i,
    {
        out.push(bytes[i] as char);
        assert(out@ =~= byte_chars(s@).subrange(0, i + 1));
        i = i + 1;
    }
    assert(out@ =~= byte_chars(s@));
    out
}

/// `value` with every `${NAME}` and `$NAME` replaced by the value of the variable, nothing where
/// it is not set. A dollar sign that starts no reference stays. The text is taken byte by byte.
pub fn expand_env_refs(value: &str, env: &Env) -> (r: String)
    ensures
        r@ == expanded(byte_chars(value@), 0, env@),
{
    let s = bytes_as_chars(value);
    let mut close: Vec<char> = Vec::new();
    close.push('}');
    assert(close@ == seq!['}']);
    let mut out = String::new();
    let mut i: usize = 0;
    assert(out@ + expanded(s@, 0, env@) =~= expanded(s@, 0, env@));
    while i < s.len()
        invariant
            i <= s.len(),
            close@ == seq!['}'],
            out@ + expanded(s@, i as int, env@) == expanded(s@, 0, env@),
        decreases s.len() - i,
    {
        let ghost before = out@;
        let ghost at = i as int;
        if s[i] != '$' {
            out.push(s[i]);
            assert(before + (seq![s@[at]] + expanded(s@, at + 1, env@)) =~= out@ + expanded(
                s@,
                at + 1,
                env@,
            ));
            i = i + 1;
            continue ;
        }
        let mut next: usize = i + 1;
        let mut part: String = "$".to_owned();
        assert(part@ == seq!['$']) by {
            reveal_strlit("$");
        }
        if i + 1 < s.len() && s[i + 1] == '{' {
            if let Some(j) = find_chars(&s, &close, i + 2) {
                let key = string_of(&s, i + 2, j);
                if is_valid_env_key(key.as_str()) {
                    part =
                    match env.get(key.as_str()) {
                        Some(v) => v.clone(),
                        None => String::new(),
                    };
                    next = j + 1;
                }
            }
        } else if i + 1 < s.len() && starts_key(s[i + 1]) {
            let j = scan_key(&s, i + 2);
            let key = string_of(&s, i + 1, j);
            part =
            match env.get(key.as_str()) {
                Some(v) => v.clone(),
                None => String::new(),
            };
            next = j;
        }
        assert(expanded(s@, at, env@) == part@ + expanded(s@, next as int, env@));
        out.append(part.as_str());
        assert(before + (part@ + expanded(s@, next as int, env@)) =~= out@ + expanded(
            s@,
            next as int,
            env@,
        ));
        i = next;
    }
    assert(out@ =~= expanded(s@, 0, env@));
    out
}

// ---------------------------------------------------------------------------------------------
// The rc file
// ---------------------------------------------------------------------------------------------

/// `value` without a pair of quotes around it.
pub open spec fn unquoted(value: Seq<char>) -> Seq<char> {
    if value.len() >= 2 && ((value[0] == '"' && value[value.len() - 1] == '"') || (value[0] == '\''
        && value[value.len() - 1] == '\'')) {
        value.subrange(1, value.len() - 1)
    } else {
        value
    }
}

/// The name and the value that a line of the rc file assigns, as they are written.
pub open spec fn assignment(line: Seq<char>) -> Option<(Seq<char>, Seq<char>)> {
    let t = trimmed(line);
    if t.len() == 0 || t[0] == '#' {
        None
    } else {
        let body = if "export "@.is_prefix_of(t) {
            trimmed_start(t.subrange("export "@.len() as int, t.len() as int))
        } else {
            t
        };
        match split_once_of(body, "="@) {
            Some((k, v)) => if valid_env_key(trimmed(k)) {
                Some((trimmed(k), unquoted(trimmed(v))))
            } else {
                None
            },
            None => None,
        }
    }
}

/// The name and the value that a line of the rc file assigns, as they are written.
fn raw_assignment(line: &str) -> (r: Option<(String, String)>)
    ensures
        pair_view(r) == assignment(line@),
{
    let t = trim(line);
    if t.as_str().is_empty() {
        return None;
    }
    if t.as_str().get_char(0) == '#' {
        return None;
    }
    let body = match strip_prefix(t.as_str(), "export ") {
        Some(rest) => trim_start(rest.as_str()),
        None => t,
    };
    match split_once(body.as_str(), "=") {
        Some((k, v)) => {
            let key = trim(k.as_str());
            if !is_valid_env_key(key.as_str()) {
                return None;
            }
            let value = trim(v.as_str());
            let c = chars_of(value.as_str());
            let n: usize = c.len();
            if n >= 2 && ((c[0] == '"' && c[n - 1] == '"') || (c[0] == '\'' && c[n - 1] == '\'')) {
                Some((key, string_of(&c, 1, n - 1)))
            } else {
                Some((key, value))
            }
        },
        None => None,
    }
}

/// What a line of the rc file sets, given an environment.
pub open spec fn rc_setting(line: Seq<char>, env: Map<Seq<char>, Seq<char>>) -> Option<
    (Seq<char>, Seq<char>),
> {
    match assignment(line) {
        Some((k, v)) => Some((k, expanded(byte_chars(v), 0, env))),
        None => None,
    }
}

/// What a line of the rc file sets: a name and a value, whose references to variables are
/// replaced. A blank line, a comment and a line with no valid name set nothing.
pub fn parse_riffrc_assignment(line: &str, env: &Env) -> (r: Option<(String, String)>)
    ensures
        pair_view(r) == rc_setting(line@, env@),
{
    match raw_assignment(line) {
        Some((key, value)) => {
            let v = expand_env_refs(value.as_str(), env);
            Some((key, v))
        },
        None => None,
    }
}

/// The environment after the first `n` lines of the rc file.
pub open spec fn rc_loaded(
    env: Map<Seq<char>, Seq<char>>,
    original: Seq<Seq<char>>,
    rc: Seq<Seq<char>>,
    n: int,
) -> Map<Seq<char>, Seq<char>>
    decreases n,
{
    if n <= 0 {
        env
    } else {
        let before = rc_loaded(env, original, rc, n - 1);
        match rc_setting(rc[n - 1], before) {
            Some((k, v)) => if "RIFF_"@.is_prefix_of(k) {
                offered(before, original, k, v, false)
            } else {
                before
            },
            None => before,
        }
    }
}

/// Loads the defaults of the rc file, line by line. Only variables of this program are set, and of
/// several lines for one variable the first counts.
pub fn load_riffrc_defaults(env: &mut Env, original: &Vec<String>, raw: &str)
    ensures
        final(env)@ == rc_loaded(
            old(env)@,
            views(original@),
            lines_of(raw@),
            lines_of(raw@).len() as int,
        ),
{
    let rc = lines(raw);
    let ghost start = env@;
    let ghost all = lines_of(raw@);
    assert(all.len() == rc@.len());
    let mut i: usize = 0;
    while i < rc.len()
        invariant
            i <= rc.len(),
            all == views(rc@),
            env@ == rc_loaded(start, views(original@), all, i as int),
        decreases rc.len() - i,
    {
        assert(all[i as int] == rc@[i as int]@);
        if let Some((key, value)) = parse_riffrc_assignment(rc[i].as_str(), env) {
            if starts_with(key.as_str(), "RIFF_") {
                maybe_set_default_env(env, original, key.as_str(), value.as_str(), false);
            }
        }
        i = i + 1;
    }
}

/// The line that assigns `value` to `key`.
pub open spec fn export_line(key: Seq<char>, value: Seq<char>) -> Seq<char> {
    "export "@ + key + "="@ + value
}

/// The position of the first of the lines that assigns `key`, from `i` on.
pub open spec fn assigned_at(rc: Seq<Seq<char>>, key: Seq<char>, i: int) -> Option<int>
    decreases rc.len() - i,
{
    if i < 0 || i >= rc.len() {
        None
    } else if assignment(rc[i]) matches Some((k, _)) && k == key {
        Some(i)
    } else {
        assigned_at(rc, key, i + 1)
    }
}

/// The lines with `key` assigned to `value`: in place of the first line that assigns it, else
/// behind all.
pub open spec fn upserted(rc: Seq<Seq<char>>, key: Seq<char>, value: Seq<char>) -> Seq<Seq<char>> {
    match assigned_at(rc, key, 0) {
        Some(i) => rc.update(i, export_line(key, value)),
        None => rc.push(export_line(key, value)),
    }
}

/// The position of the first of the lines that assigns `key`.
fn first_assignment(rc: &Vec<String>, key: &str) -> (r: Option<usize>)
    ensures
        r matches Some(i) ==> i < rc@.len() && assigned_at(views(rc@), key@, 0) == Some(i as int),
        r is None ==> assigned_at(views(rc@), key@, 0) is None,
{
    let ghost all = views(rc@);
    let mut i: usize = 0;
    while i < rc.len()
        invariant
            i <= rc.len(),
            all == views(rc@),
            assigned_at(all, key@, 0) == assigned_at(all, key@, i as int),
        decreases rc.len() - i,
    {
        assert(all[i as int] == rc@[i as int]@);
        if let Some((k, _)) = raw_assignment(rc[i].as_str()) {
            if same(k.as_str(), key) {
                return Some(i);
            }
        }
        i = i + 1;
    }
    None
}

/// The rc file with `key` assigned to `value`: in place of the first line that assigns it, else
/// behind all. Every other line stays.
pub fn upsert_riffrc_export(existing: &str, key: &str, value: &str) -> (r: String)
    ensures
        r@ == joined(upserted(lines_of(existing@), key@, value@), "\n"@) + "\n"@,
{
    let mut rc = lines(existing);
    let ghost all = lines_of(existing@);
    let line = {
        let head = concat3("export ", key, "=");
        concat(head.as_str(), value)
    };
    assert(line@ =~= export_line(key@, value@));
    match first_assignment(&rc, key) {
        Some(i) => {
            rc.set(i, line);
            assert(views(rc@) =~= all.update(i as int, export_line(key@, value@)));
        },
        None => {
            rc.push(line);
            assert(views(rc@) =~= all.push(export_line(key@, value@)));
        },
    }
    let mut out = join(&rc, "\n");
    out.append("\n");
    out
}

// ---------------------------------------------------------------------------------------------
// The JSON configuration
// ---------------------------------------------------------------------------------------------

/// The value of a variable that a value of the configuration sets.
pub open spec fn config_value(t: Tree, env: Map<Seq<char>, Seq<char>>) -> Option<Seq<char>> {
    match t {
        Tree::Text(s) => Some(expanded(byte_chars(s), 0, env)),
        Tree::Bool(b) => Some(
            if b {
                "1"@
            } else {
                "0"@
            },
        ),
        Tree::Number(n) => Some(number_text_of(n)),
        _ => None,
    }
}

/// The value of a variable that a value of the configuration sets.
pub fn json_config_value_to_env_string(value: &Json, env: &Env) -> (r: Option<String>)
    ensures
        opt_view(r) == config_value(value@, env@),
{
    proof {
        lemma_tree(*value);
    }
    match value {
        Json::Text(s) => Some(expand_env_refs(s.as_str(), env)),
        Json::Bool(b) => Some(
            if *b {
                "1".to_owned()
            } else {
                "0".to_owned()
            },
        ),
        Json::Number(n) => Some(number_text(n)),
        _ => None,
    }
}

/// The environment after the first `n` fields of the configuration.
pub open spec fn config_fields_loaded(
    env: Map<Seq<char>, Seq<char>>,
    original: Seq<Seq<char>>,
    fields: Seq<(Seq<char>, Tree)>,
    n: int,
) -> Map<Seq<char>, Seq<char>>
    decreases n,
{
    if n <= 0 {
        env
    } else {
        let before = config_fields_loaded(env, original, fields, n - 1);
        match config_value(fields[n - 1].1, before) {
            Some(v) => if "RIFF_"@.is_prefix_of(fields[n - 1].0) {
                offered(before, original, fields[n - 1].0, v, true)
            } else {
                before
            },
            None => before,
        }
    }
}

/// The environment after a named setting of the configuration has been offered for a variable.
pub open spec fn named_loaded(
    env: Map<Seq<char>, Seq<char>>,
    original: Seq<Seq<char>>,
    setting: Option<Tree>,
    key: Seq<char>,
) -> Map<Seq<char>, Seq<char>> {
    match setting {
        Some(t) => match config_value(t, env) {
            Some(v) => offered(env, original, key, v, true),
            None => env,
        },
        None => env,
    }
}

/// The commands of a hook list that can be run.
pub open spec fn hook_commands(items: Seq<Tree>, env: Map<Seq<char>, Seq<char>>) -> Seq<Seq<char>> {
    items.filter_map(|t: Tree| config_value(t, env))
}

/// The environment after the hook list of the configuration has been offered, one command per
/// line.
pub open spec fn hooks_loaded(
    env: Map<Seq<char>, Seq<char>>,
    original: Seq<Seq<char>>,
    setting: Option<Tree>,
) -> Map<Seq<char>, Seq<char>> {
    match setting {
        Some(Tree::List(items)) => offered(
            env,
            original,
            "RIFF_HOOKS"@,
            joined(hook_commands(items, env), "\n"@),
            true,
        ),
        _ => env,
    }
}

/// The environment after the configuration has been loaded.
pub open spec fn config_loaded(
    env: Map<Seq<char>, Seq<char>>,
    original: Seq<Seq<char>>,
    config: Tree,
) -> Map<Seq<char>, Seq<char>> {
    match config {
        Tree::Object(fields) => {
            let e0 = config_fields_loaded(env, original, fields, fields.len() as int);
            match field(config, "riff"@) {
                Some(Tree::Object(f)) => {
                    let riff = Tree::Object(f);
                    let e1 = named_loaded(
                        e0,
                        original,
                        field(riff, "post_transcribe_cmd"@),
                        "RIFF_POST_TRANSCRIBE_CMD"@,
                    );
                    let e2 = named_loaded(
                        e1,
                        original,
                        field(riff, "transcribe_cmd"@),
                        "RIFF_TRANSCRIBE_CMD"@,
                    );
                    hooks_loaded(e2, original, field(riff, "hooks"@))
                },
                _ => e0,
            }
        },
        _ => env,
    }
}

/// Offers a named setting of the configuration for a variable.
fn load_named(env: &mut Env, original: &Vec<String>, setting: Option<&Json>, key: &str)
    ensures
        final(env)@ == named_loaded(
            old(env)@,
            views(original@),
            match setting {
                Some(j) => Some(j@),
                None => None,
            },
            key@,
        ),
{
    if let Some(value) = setting {
        if let Some(rendered) = json_config_value_to_env_string(value, env) {
            maybe_set_default_env(env, original, key, rendered.as_str(), true);
        }
    }
}

/// The commands of a hook list that can be run.
fn read_hook_commands(items: &Vec<Json>, env: &Env) -> (r: Vec<String>)
    ensures
        views(r@) == hook_commands(item_views(items@), env@),
{
    let ghost all = item_views(items@);
    let ghost f = |t: Tree| config_value(t, env@);
    let mut out: Vec<String> = Vec::new();
    let mut i: usize = 0;
    proof {
        reveal(Seq::filter_map);
    }
    assert(views(out@) =~= all.subrange(0, 0).filter_map(f));
    while i < items.len()
        invariant
            i <= items.len(),
            all == item_views(items@),
            f == (|t: Tree| config_value(t, env@)),
            views(out@) == all.subrange(0, i as int).filter_map(f),
        decreases items.len() - i,
    {
        let ghost before = out@;
        proof {
            assert(all.subrange(0, i + 1).drop_last() == all.subrange(0, i as int));
            assert(all.subrange(0, i + 1).last() == items@[i as int]@);
            reveal(Seq::filter_map);
        }
        if let Some(command) = json_config_value_to_env_string(&items[i], env) {
            let ghost c = command@;
            out.push(command);
            assert(views(out@) == views(before).push(c));
        }
        assert(views(out@) =~= all.subrange(0, i + 1).filter_map(f));
        i = i + 1;
    }
    assert(all.subrange(0, all.len() as int) == all);
    out
}

/// Loads the defaults of the JSON configuration that a text holds. A text that holds none is passed
/// over.
pub fn load_riff_json_defaults(env: &mut Env, original: &Vec<String>, raw: &str)
    ensures
        final(env)@ == match text_read(raw@) {
            Ok(config) => config_loaded(old(env)@, views(original@), config),
            Err(_) => old(env)@,
        },
{
    if let Ok(config) = read_json(raw) {
        apply_json_defaults(env, original, &config);
    }
}

/// Loads the defaults of the JSON configuration: its `RIFF_` fields, and the commands and hooks
/// under `riff`. They override what the rc file set, and never what the caller set.
pub fn apply_json_defaults(env: &mut Env, original: &Vec<String>, config: &Json)
    ensures
        final(env)@ == config_loaded(old(env)@, views(original@), config@),
{
    proof {
        lemma_tree(*config);
    }
    match config {
        Json::Object(fields) => {
            let ghost start = env@;
            let ghost all = field_views(fields@);
            let mut i: usize = 0;
            while i < fields.len()
                invariant
                    i <= fields.len(),
                    all == field_views(fields@),
                    env@ == config_fields_loaded(start, views(original@), all, i as int),
                decreases fields.len() - i,
            {
                assert(all[i as int] == (fields@[i as int].0@, fields@[i as int].1@));
                if starts_with(fields[i].0.as_str(), "RIFF_") {
                    load_named(env, original, Some(&fields[i].1), fields[i].0.as_str());
                }
                i = i + 1;
            }
            if let Some(riff) = config.get("riff") {
                proof {
                    lemma_tree(*riff);
                }
                if let Json::Object(_) = riff {
                    load_named(
                        env,
                        original,
                        riff.get("post_transcribe_cmd"),
                        "RIFF_POST_TRANSCRIBE_CMD",
                    );
                    load_named(env, original, riff.get("transcribe_cmd"), "RIFF_TRANSCRIBE_CMD");
                    if let Some(hooks) = riff.get("hooks") {
                        proof {
                            lemma_tree(*hooks);
                        }
                        if let Json::List(items) = hooks {
                            let commands = read_hook_commands(items, env);
                            let chain = join(&commands, "\n");
                            maybe_set_default_env(
                                env,
                                original,
                                "RIFF_HOOKS",
                                chain.as_str(),
                                true,
                            );
                        }
                    }
                }
            }
        },
        _ => {},
    }
}

// ---------------------------------------------------------------------------------------------
// Values of variables
// ---------------------------------------------------------------------------------------------

/// Whether a text switches something off.
pub open spec fn is_off(s: Seq<char>) -> bool {
    let l = ascii_lower(s);
    l == "0"@ || l == "false"@ || l == "off"@ || l == "no"@
}

/// Whether a switch is on: a value other than `0`, `false`, `off` and `no` switches it on, and
/// where there is none the default holds.
pub fn bool_env_enabled(value: Option<&str>, default: bool) -> (r: bool)
    ensures
        r == match value {
            Some(v) => !is_off(v@),
            None => default,
        },
{
    match value {
        Some(v) => {
            let l = to_ascii_lower(v);
            let s = l.as_str();
            !(same(s, "0") || same(s, "false") || same(s, "off") || same(s, "no"))
        },
        None => default,
    }
}

/// Whether the clipboard is watched: unless it is switched off.
pub fn clipboard_monitor_enabled(value: Option<&str>) -> (r: bool)
    ensures
        r == (value matches Some(v) ==> !is_off(v@)),
{
    bool_env_enabled(value, true)
}

/// Whether audio is transcribed while it is recorded: where it is switched on.
pub fn transcription_worker_enabled(value: Option<&str>) -> (r: bool)
    ensures
        r == (value matches Some(v) && !is_off(v@)),
{
    bool_env_enabled(value, false)
}

/// `n`, moved into a range.
pub open spec fn clamped(n: nat, min: nat, max: nat) -> nat {
    if n < min {
        min
    } else if n > max {
        max
    } else {
        n
    }
}

/// A numeric setting: the number that is set, moved into the range, else the default.
pub fn env_u64(value: Option<&str>, default: u64, min: u64, max: u64) -> (r: u64)
    requires
        min <= max,
    ensures
        r == match value {
            Some(v) => match parsed_unsigned(v@, u64::MAX as nat) {
                Some(n) => clamped(n, min as nat, max as nat),
                None => default as nat,
            },
            None => default as nat,
        },
{
    match value {
        Some(v) => match parse_u64(v) {
            Some(n) => if n < min {
                min
            } else if n > max {
                max
            } else {
                n
            },
            None => default,
        },
        None => default,
    }
}

// ---------------------------------------------------------------------------------------------
// Laws
// ---------------------------------------------------------------------------------------------

/// What the caller set in the environment, no file changes.
pub proof fn caller_settings_win(
    env: Map<Seq<char>, Seq<char>>,
    original: Seq<Seq<char>>,
    rc: Seq<Seq<char>>,
    config: Tree,
    key: Seq<char>,
)
    requires
        original.contains(key),
    ensures
        env_value(rc_loaded(env, original, rc, rc.len() as int), key) == env_value(env, key),
        env_value(config_loaded(env, original, config), key) == env_value(env, key),
{
    lemma_rc_keeps(env, original, rc, rc.len() as int, key);
    if let Tree::Object(fields) = config {
        lemma_config_keeps(env, original, fields, fields.len() as int, key);
    }
}

proof fn lemma_rc_keeps(
    env: Map<Seq<char>, Seq<char>>,
    original: Seq<Seq<char>>,
    rc: Seq<Seq<char>>,
    n: int,
    key: Seq<char>,
)
    requires
        original.contains(key),
    ensures
        env_value(rc_loaded(env, original, rc, n), key) == env_value(env, key),
    decreases n,
{
    if n > 0 {
        lemma_rc_keeps(env, original, rc, n - 1, key);
    }
}

proof fn lemma_config_keeps(
    env: Map<Seq<char>, Seq<char>>,
    original: Seq<Seq<char>>,
    fields: Seq<(Seq<char>, Tree)>,
    n: int,
    key: Seq<char>,
)
    requires
        original.contains(key),
    ensures
        env_value(config_fields_loaded(env, original, fields, n), key) == env_value(env, key),
    decreases n,
{
    if n > 0 {
        lemma_config_keeps(env, original, fields, n - 1, key);
    }
}

/// An ASCII text without a dollar sign holds no reference: it stays as it is.
pub proof fn plain_values_are_kept(s: Seq<char>, env: Map<Seq<char>, Seq<char>>)
    requires
        is_ascii_chars(s),
        !s.contains('$'),
    ensures
        expanded(byte_chars(s), 0, env) == s,
{
    is_ascii_chars_encode_utf8(s);
    assert(byte_chars(s) =~= s);
    lemma_plain_kept(s, 0, env);
    assert(s.subrange(0, s.len() as int) =~= s);
}

proof fn lemma_plain_kept(s: Seq<char>, i: int, env: Map<Seq<char>, Seq<char>>)
    requires
        !s.contains('$'),
        0 <= i <= s.len(),
    ensures
        expanded(s, i, env) == s.subrange(i, s.len() as int),
    decreases s.len() - i,
{
    if i < s.len() {
        assert(s.contains(s[i]));
        lemma_plain_kept(s, i + 1, env);
        assert(seq![s[i]] + s.subrange(i + 1, s.len() as int) =~= s.subrange(i, s.len() as int));
    } else {
        assert(s.subrange(i, s.len() as int) =~= Seq::empty());
    }
}

/// A setting that was written to the rc file is read back from its line, where the value is
/// written without white space at its ends and without quotes around it.
pub proof fn export_line_reads_back(key: Seq<char>, value: Seq<char>)
    requires
        valid_env_key(key),
        trimmed(value) == value,
        unquoted(value) == value,
    ensures
        assignment(export_line(key, value)) == Some((key, value)),
{
    reveal_strlit("export ");
    reveal_strlit("=");
    let line = export_line(key, value);
    let n = line.len() as int;
    assert(line[0] == 'e');
    if value.len() > 0 {
        lemma_trimmed_shape(value);
        assert(line[n - 1] == value[value.len() - 1]);
    } else {
        assert(line[n - 1] == '=');
    }
    lemma_trimmed_start(line, 0);
    assert(line.subrange(0, n) =~= line);
    lemma_trimmed_end(line, n);
    assert(trimmed(line) == line);
    assert("export "@.is_prefix_of(line)) by {
        assert(line.subrange(0, 7) =~= "export "@);
    }
    let rest = line.subrange(7, n);
    assert(rest =~= key + "="@ + value);
    assert(rest[0] == key[0]);
    lemma_trimmed_start(rest, 0);
    assert(rest.subrange(0, rest.len() as int) =~= rest);
    let at = key.len() as int;
    lemma_find_from(rest, "="@, 0);
    assert(occurs_at(rest, "="@, at)) by {
        assert(rest.subrange(at, at + 1) =~= "="@);
    }
    assert forall|j: int| 0 <= j < at implies !occurs_at(rest, "="@, j) by {
        if occurs_at(rest, "="@, j) {
            assert(rest.subrange(j, j + 1)[0] == '=');
            assert(rest[j] == key[j]);
            if j > 0 {
                assert(key_char(key[j]));
            }
        }
    }
    assert(find_from(rest, "="@, 0) == Some(at));
    assert(rest.subrange(0, at) =~= key);
    assert(rest.subrange(at + 1, rest.len() as int) =~= value);
    lemma_key_is_trimmed(key);
}

/// The name of a variable has no white space to trim.
proof fn lemma_key_is_trimmed(key: Seq<char>)
    requires
        valid_env_key(key),
    ensures
        trimmed(key) == key,
{
    let n = key.len() as int;
    lemma_trimmed_start(key, 0);
    assert(key.subrange(0, n) =~= key);
    if n > 1 {
        assert(key_char(key[n - 1]));
    }
    lemma_trimmed_end(key, n);
}

// ---------------------------------------------------------------------------------------------
// What references, lines and fields set
// ---------------------------------------------------------------------------------------------

/// A reference stands for the value of the variable, and for nothing where that is not set; what
/// stands around it stays, and what stands behind it is looked at on its own.
pub proof fn references_are_replaced(
    front: Seq<char>,
    key: Seq<char>,
    back: Seq<char>,
    env: Map<Seq<char>, Seq<char>>,
)
    requires
        !front.contains('$'),
        valid_env_key(key),
        back.len() > 0 ==> !(back[0] == '_' || is_letter(back[0]) || is_digit(back[0])),
    ensures
        ({
            let value = if env.dom().contains(key) {
                env[key]
            } else {
                Seq::empty()
            };
            &&& expanded(front + seq!['$'] + key + back, 0, env) == front + (value + expanded(
                back,
                0,
                env,
            ))
            &&& expanded(front + seq!['$', '{'] + key + seq!['}'] + back, 0, env) == front + (value
                + expanded(back, 0, env))
        }),
{
    let plain = seq!['$'] + key + back;
    lemma_expanded_front(front, plain, env, 0);
    assert(front + seq!['$'] + key + back =~= front + plain);
    assert(front.subrange(0, front.len() as int) =~= front);
    let end = key.len() + 1int;
    assert(plain[1] == key[0]);
    lemma_key_end(plain, key, 2);
    assert(plain.subrange(1, end) =~= key);
    assert(plain =~= (seq!['$'] + key) + back);
    lemma_expanded_shift(seq!['$'] + key, back, env, 0);
    let braced = seq!['$', '{'] + key + seq!['}'] + back;
    lemma_expanded_front(front, braced, env, 0);
    assert(front + seq!['$', '{'] + key + seq!['}'] + back =~= front + braced);
    let close = key.len() + 2int;
    lemma_brace_found(braced, key, 2);
    assert(braced.subrange(2, close) =~= key);
    let head = seq!['$', '{'] + key + seq!['}'];
    lemma_expanded_shift(head, back, env, 0);
}

proof fn lemma_key_end(s: Seq<char>, key: Seq<char>, i: int)
    requires
        valid_env_key(key),
        2 <= i <= key.len() + 1,
        key.len() + 1 <= s.len(),
        forall|k: int| 0 <= k < key.len() ==> s[k + 1] == #[trigger] key[k],
        key.len() + 1 < s.len() ==> !key_char(s[key.len() + 1int]),
    ensures
        key_end(s, i) == key.len() + 1,
    decreases key.len() + 1 - i,
{
    if i < key.len() + 1 {
        assert(key_char(key[i - 1]));
        lemma_key_end(s, key, i + 1);
    }
}

proof fn lemma_brace_found(s: Seq<char>, key: Seq<char>, i: int)
    requires
        valid_env_key(key),
        2 <= i <= key.len() + 2,
        key.len() + 2 < s.len(),
        forall|k: int| 0 <= k < key.len() ==> s[k + 2] == #[trigger] key[k],
        s[key.len() + 2int] == '}',
    ensures
        find_from(s, seq!['}'], i) == Some(key.len() + 2int),
    decreases key.len() + 2 - i,
{
    assert(s.subrange(i, i + 1) =~= seq![s[i]]);
    if i < key.len() + 2 {
        if i == 2 {
            assert(s[i] == key[0]);
        } else {
            assert(s[i] == key[i - 2]);
            assert(key_char(key[i - 2]));
        }
        assert(seq![s[i]][0] != seq!['}'][0]);
        lemma_brace_found(s, key, i + 1);
    }
}

proof fn lemma_expanded_front(
    front: Seq<char>,
    rest: Seq<char>,
    env: Map<Seq<char>, Seq<char>>,
    i: int,
)
    requires
        !front.contains('$'),
        0 <= i <= front.len(),
    ensures
        expanded(front + rest, i, env) == front.subrange(i, front.len() as int) + expanded(
            rest,
            0,
            env,
        ),
    decreases front.len() - i,
{
    let s = front + rest;
    if i < front.len() {
        assert(front.contains(front[i]));
        lemma_expanded_front(front, rest, env, i + 1);
        assert(expanded(s, i, env) =~= front.subrange(i, front.len() as int) + expanded(
            rest,
            0,
            env,
        ));
    } else {
        lemma_expanded_shift(front, rest, env, 0);
        assert(front.subrange(i, i) + expanded(rest, 0, env) =~= expanded(rest, 0, env));
    }
}

proof fn lemma_key_end_shift(a: Seq<char>, b: Seq<char>, i: int)
    requires
        0 <= i,
    ensures
        key_end(a + b, a.len() + i) == a.len() + key_end(b, i),
    decreases b.len() - i,
{
    if i < b.len() && key_char(b[i]) {
        lemma_key_end_shift(a, b, i + 1);
    }
}

proof fn lemma_key_end_bounds(s: Seq<char>, i: int)
    requires
        0 <= i <= s.len(),
    ensures
        i <= key_end(s, i) <= s.len(),
    decreases s.len() - i,
{
    if i < s.len() && key_char(s[i]) {
        lemma_key_end_bounds(s, i + 1);
    }
}

proof fn lemma_expanded_shift(
    a: Seq<char>,
    b: Seq<char>,
    env: Map<Seq<char>, Seq<char>>,
    i: int,
)
    requires
        0 <= i,
    ensures
        expanded(a + b, a.len() + i, env) == expanded(b, i, env),
    decreases b.len() - i,
{
    let s = a + b;
    let n = a.len() as int;
    if i < b.len() {
        if b[i] != '$' {
            lemma_expanded_shift(a, b, env, i + 1);
        } else if i + 1 < b.len() && b[i + 1] == '{' {
            lemma_find_shift(a, seq!['}'], b, i + 2);
            lemma_expanded_shift(a, b, env, i + 1);
            match find_from(b, seq!['}'], i + 2) {
                Some(j) => {
                    if i + 2 <= j < b.len() {
                        assert(s.subrange(n + i + 2, n + j) =~= b.subrange(i + 2, j));
                        lemma_expanded_shift(a, b, env, j + 1);
                    }
                },
                None => {},
            }
        } else if i + 1 < b.len() && key_start(b[i + 1]) {
            lemma_key_end_shift(a, b, i + 2);
            lemma_key_end_bounds(b, i + 2);
            let j = key_end(b, i + 2);
            assert(s.subrange(n + i + 1, n + j) =~= b.subrange(i + 1, j));
            lemma_expanded_shift(a, b, env, j);
        } else {
            lemma_expanded_shift(a, b, env, i + 1);
        }
    }
}

/// A line of the rc file sets its variable where that belongs to this program and neither the caller
/// nor an earlier line has set it; every other variable stays.
pub proof fn lines_set_what_is_not_set(
    env: Map<Seq<char>, Seq<char>>,
    original: Seq<Seq<char>>,
    rc: Seq<Seq<char>>,
    line: Seq<char>,
    other: Seq<char>,
)
    ensures
        ({
            let before = rc_loaded(env, original, rc, rc.len() as int);
            let after = rc_loaded(env, original, rc.push(line), rc.len() + 1int);
            match assignment(line) {
                Some((key, value)) => {
                    &&& "RIFF_"@.is_prefix_of(key) && !original.contains(key) && env_value(
                        before,
                        key,
                    ) is None ==> env_value(after, key) == Some(
                        expanded(byte_chars(value), 0, before),
                    )
                    &&& env_value(before, key) is Some ==> after == before
                    &&& !"RIFF_"@.is_prefix_of(key) ==> after == before
                    &&& other != key ==> env_value(after, other) == env_value(before, other)
                },
                None => after == before,
            }
        }),
{
    lemma_rc_prefix(env, original, rc, line, rc.len() as int);
    assert(rc.push(line)[rc.len() as int] == line);
}

proof fn lemma_rc_prefix(
    env: Map<Seq<char>, Seq<char>>,
    original: Seq<Seq<char>>,
    rc: Seq<Seq<char>>,
    line: Seq<char>,
    n: int,
)
    requires
        0 <= n <= rc.len(),
    ensures
        rc_loaded(env, original, rc.push(line), n) == rc_loaded(env, original, rc, n),
    decreases n,
{
    if n > 0 {
        lemma_rc_prefix(env, original, rc, line, n - 1);
        assert(rc.push(line)[n - 1] == rc[n - 1]);
    }
}

/// A field of the configuration sets its variable whatever the rc file said, unless the caller set
/// it; a truth value is a one or a zero, and a list or an object sets nothing.
pub proof fn fields_override_the_rc_file(
    env: Map<Seq<char>, Seq<char>>,
    original: Seq<Seq<char>>,
    key: Seq<char>,
    value: Tree,
    other: Seq<char>,
)
    ensures
        ({
            let fields = seq![(key, value)];
            let after = config_fields_loaded(env, original, fields, 1);
            let ours = "RIFF_"@.is_prefix_of(key) && !original.contains(key);
            &&& other != key ==> env_value(after, other) == env_value(env, other)
            &&& !ours ==> after == env
            &&& ours ==> (value matches Tree::Text(s) ==> env_value(after, key) == Some(
                expanded(byte_chars(s), 0, env),
            ))
            &&& value == Tree::Bool(true) && ours ==> env_value(after, key) == Some("1"@)
            &&& value == Tree::Bool(false) && ours ==> env_value(after, key) == Some("0"@)
            &&& ours ==> (value matches Tree::Number(n) ==> env_value(after, key) == Some(
                number_text_of(n),
            ))
            &&& value is Null || value is List || value is Object ==> after == env
        }),
{
    let fields = seq![(key, value)];
    reveal_with_fuel(config_fields_loaded, 2);
    assert(fields[0] == (key, value));
}

/// The settings under `riff` set the commands and the hooks, one hook to a line.
pub proof fn named_settings_set_their_variable(
    env: Map<Seq<char>, Seq<char>>,
    original: Seq<Seq<char>>,
    text: Seq<char>,
    key: Seq<char>,
    first: Seq<char>,
    second: Seq<char>,
)
    ensures
        !original.contains(key) ==> env_value(
            named_loaded(env, original, Some(Tree::Text(text)), key),
            key,
        ) == Some(expanded(byte_chars(text), 0, env)),
        named_loaded(env, original, None, key) == env,
        !original.contains("RIFF_HOOKS"@) ==> env_value(
            hooks_loaded(
                env,
                original,
                Some(Tree::List(seq![Tree::Text(first), Tree::Null, Tree::Text(second)])),
            ),
            "RIFF_HOOKS"@,
        ) == Some(
            expanded(byte_chars(first), 0, env) + "\n"@ + expanded(byte_chars(second), 0, env),
        ),
        hooks_loaded(env, original, None) == env,
{
    reveal(Seq::filter_map);
    let f = |t: Tree| config_value(t, env);
    let a = expanded(byte_chars(first), 0, env);
    let b = expanded(byte_chars(second), 0, env);
    let one = seq![Tree::Text(first)];
    let two = one.push(Tree::Null);
    let items = seq![Tree::Text(first), Tree::Null, Tree::Text(second)];
    assert(one.drop_last() =~= Seq::empty());
    assert(one.drop_last().filter_map(f) =~= Seq::empty());
    assert(one.filter_map(f) =~= seq![a]);
    assert(two.drop_last() =~= one);
    assert(two.filter_map(f) =~= seq![a]);
    assert(items.drop_last() =~= two);
    assert(items.filter_map(f) =~= seq![a, b]);
    let both = seq![a, b];
    assert(both.drop_last() =~= seq![a]);
    assert(joined(seq![a], "\n"@) == a);
    assert(joined(both, "\n"@) == a + "\n"@ + b);
}

/// A setting that is put into the rc file is the first that its lines assign to the variable. Every
/// other line stays as it is, where it is.
pub proof fn put_settings_are_the_first(rc: Seq<Seq<char>>, key: Seq<char>, value: Seq<char>)
    requires
        valid_env_key(key),
        trimmed(value) == value,
        unquoted(value) == value,
    ensures
        ({
            let after = upserted(rc, key, value);
            let at = assigned_at(after, key, 0);
            &&& at matches Some(i) && 0 <= i < after.len() && assignment(after[i]) == Some(
                (key, value),
            ) && after[i] == "export "@ + key + "="@ + value && (forall|j: int|
                0 <= j < rc.len() && j != i ==> after[j] == #[trigger] rc[j])
            &&& assigned_at(rc, key, 0) is Some ==> after.len() == rc.len()
            &&& assigned_at(rc, key, 0) is None ==> after.len() == rc.len() + 1 && at == Some(
                rc.len() as int,
            )
        }),
{
    export_line_reads_back(key, value);
    let line = export_line(key, value);
    let after = upserted(rc, key, value);
    lemma_assigned_at(rc, key, 0);
    match assigned_at(rc, key, 0) {
        Some(i) => {
            lemma_put_line_found(rc, after, key, 0, i);
        },
        None => {
            lemma_put_line_found(rc, after, key, 0, rc.len() as int);
        },
    }
}

proof fn lemma_assigned_at(rc: Seq<Seq<char>>, key: Seq<char>, i: int)
    requires
        0 <= i,
    ensures
        match assigned_at(rc, key, i) {
            Some(k) => i <= k < rc.len() && (forall|j: int|
                i <= j < k ==> !(assignment(#[trigger] rc[j]) matches Some((x, _)) && x == key)),
            None => forall|j: int|
                i <= j < rc.len() ==> !(assignment(#[trigger] rc[j]) matches Some((x, _)) && x
                    == key),
        },
    decreases rc.len() - i,
{
    if i < rc.len() && !(assignment(rc[i]) matches Some((x, _)) && x == key) {
        lemma_assigned_at(rc, key, i + 1);
    }
}

proof fn lemma_put_line_found(
    rc: Seq<Seq<char>>,
    after: Seq<Seq<char>>,
    key: Seq<char>,
    i: int,
    at: int,
)
    requires
        0 <= i <= at <= rc.len(),
        at < after.len(),
        forall|j: int| i <= j < at ==> after[j] == #[trigger] rc[j],
        forall|j: int|
            i <= j < at ==> !(assignment(#[trigger] rc[j]) matches Some((x, _)) && x == key),
        assignment(after[at]) matches Some((x, _)) && x == key,
    ensures
        assigned_at(after, key, i) == Some(at),
    decreases at - i,
{
    if i < at {
        assert(after[i] == rc[i]);
        lemma_put_line_found(rc, after, key, i + 1, at);
    }
}

/// A value in quotes is taken without them, and blank lines and comments assign nothing.
pub proof fn quotes_around_values_are_dropped(s: Seq<char>, line: Seq<char>)
    ensures
        unquoted(seq!['"'] + s + seq!['"']) == s,
        unquoted(seq!['\''] + s + seq!['\'']) == s,
        s.len() > 0 && s[0] != '"' && s[0] != '\'' ==> unquoted(s) == s,
        trimmed(line).len() == 0 ==> assignment(line) is None,
        trimmed(line).len() > 0 && trimmed(line)[0] == '#' ==> assignment(line) is None,
{
    let a = seq!['"'] + s + seq!['"'];
    let b = seq!['\''] + s + seq!['\''];
    assert(a.subrange(1, a.len() - 1) =~= s);
    assert(b.subrange(1, b.len() - 1) =~= s);
}

/// Four words switch something off, however they are written.
pub proof fn four_words_switch_off(s: Seq<char>)
    ensures
        is_off(s) <==> ascii_lower(s) == "0"@ || ascii_lower(s) == "false"@ || ascii_lower(s)
            == "off"@ || ascii_lower(s) == "no"@,
        is_off("0"@),
        is_off("OFF"@),
        is_off("False"@),
        is_off("no"@),
        !is_off("1"@),
        !is_off(Seq::empty()),
{
    reveal_strlit("0");
    reveal_strlit("OFF");
    reveal_strlit("off");
    reveal_strlit("False");
    reveal_strlit("false");
    reveal_strlit("no");
    reveal_strlit("1");
    assert(ascii_lower("0"@) =~= "0"@);
    assert(ascii_lower("OFF"@) =~= "off"@);
    assert(ascii_lower("False"@) =~= "false"@);
    assert(ascii_lower("no"@) =~= "no"@);
    assert(ascii_lower("1"@).len() == 1 && ascii_lower("1"@)[0] == '1');
    assert("0"@[0] == '0' && "false"@.len() == 5 && "off"@.len() == 3 && "no"@.len() == 2);
    assert(ascii_lower(Seq::<char>::empty()).len() == 0 && "0"@.len() == 1);
}

/// A number is moved into a range only where it lies outside, and no further than to its end.
pub proof fn numbers_move_into_range(n: nat, min: nat, max: nat)
    requires
        min <= max,
    ensures
        min <= n <= max ==> clamped(n, min, max) == n,
        n < min ==> clamped(n, min, max) == min,
        n > max ==> clamped(n, min, max) == max,
{
}

/// The name of a variable begins with a letter or an underscore and goes on with these and digits.
pub proof fn variable_names_are_spelled_out(key: Seq<char>, c: char)
    ensures
        !valid_env_key(Seq::empty()),
        valid_env_key(seq![c]) <==> c == '_' || 'a' <= c <= 'z' || 'A' <= c <= 'Z',
        key.len() > 0 ==> (valid_env_key(key.push(c)) <==> valid_env_key(key) && (c == '_' || 'a' <= c
            <= 'z' || 'A' <= c <= 'Z' || '0' <= c <= '9')),
{
    let more = key.push(c);
    assert(seq![c][0] == c);
    if key.len() > 0 {
        assert(more[0] == key[0]);
        assert(more[key.len() as int] == c);
        if valid_env_key(more) {
            assert forall|i: int| 1 <= i < key.len() implies key_char(#[trigger] key[i]) by {
                assert(more[i] == key[i]);
            }
        }
        if valid_env_key(key) {
            assert forall|i: int| 1 <= i < key.len() implies key_char(#[trigger] more[i]) by {
                assert(more[i] == key[i]);
            }
        }
    }
}

/// Of variables that are set one behind the other, each has the value that was set last, and what was
/// never set has none.
pub proof fn last_values_count(
    vars: Seq<(String, String)>,
    k: String,
    v: String,
    other: Seq<char>,
)
    ensures
        env_value(settings(Seq::empty()), other) is None,
        env_value(settings(vars.push((k, v))), k@) == Some(v@),
        other != k@ ==> env_value(settings(vars.push((k, v))), other) == env_value(
            settings(vars),
            other,
        ),
{
    assert(vars.push((k, v)).drop_last() =~= vars);
    assert(vars.push((k, v)).last() == (k, v));
}

/// Two commands that a configuration names set their variables, and references in them are replaced.
pub proof fn configured_commands_set_their_variables(
    env: Map<Seq<char>, Seq<char>>,
    original: Seq<Seq<char>>,
    fields: Seq<(Seq<char>, Tree)>,
    riff: Seq<(Seq<char>, Tree)>,
    post: Seq<char>,
    cmd: Seq<char>,
)
    requires
        field(Tree::Object(fields), "riff"@) == Some(Tree::Object(riff)),
        field(Tree::Object(riff), "post_transcribe_cmd"@) == Some(Tree::Text(post)),
        field(Tree::Object(riff), "transcribe_cmd"@) == Some(Tree::Text(cmd)),
        field(Tree::Object(riff), "hooks"@) is None,
        !original.contains("RIFF_POST_TRANSCRIBE_CMD"@),
        !original.contains("RIFF_TRANSCRIBE_CMD"@),
    ensures
        ({
            let before = config_fields_loaded(env, original, fields, fields.len() as int);
            let after = config_loaded(env, original, Tree::Object(fields));
            let first = before.insert(
                "RIFF_POST_TRANSCRIBE_CMD"@,
                expanded(byte_chars(post), 0, before),
            );
            &&& env_value(after, "RIFF_POST_TRANSCRIBE_CMD"@) == Some(
                expanded(byte_chars(post), 0, before),
            )
            &&& env_value(after, "RIFF_TRANSCRIBE_CMD"@) == Some(
                expanded(byte_chars(cmd), 0, first),
            )
        }),
{
    reveal_strlit("RIFF_POST_TRANSCRIBE_CMD");
    reveal_strlit("RIFF_TRANSCRIBE_CMD");
    assert("RIFF_POST_TRANSCRIBE_CMD"@.len() != "RIFF_TRANSCRIBE_CMD"@.len());
}

/// Where a configuration holds nothing under `riff`, its own fields are all that count; what is no
/// object is passed over.
pub proof fn plain_configurations_set_their_fields(
    env: Map<Seq<char>, Seq<char>>,
    original: Seq<Seq<char>>,
    fields: Seq<(Seq<char>, Tree)>,
)
    ensures
        field(Tree::Object(fields), "riff"@) is None ==> config_loaded(
            env,
            original,
            Tree::Object(fields),
        ) == config_fields_loaded(env, original, fields, fields.len() as int),
        config_loaded(env, original, Tree::Null) == env,
{
}

} // verus!
