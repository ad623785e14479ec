//! Recording: audio devices, the recorder's command and errors, and the sounds that mark an event.

use vstd::prelude::*;

use crate::error::AppError;
use crate::number::{all_digits, decimal, decimal_reads_back, parse_bounded, parsed_unsigned};
use crate::pattern::{
    contains, contains_text, ends_with, find, find_chars, lemma_find_from, lines, lines_of,
    occurs_at, pair_view, rfind, rfind_char, views,
};
use crate::text::{
    ascii_lower, char_is_digit, chars_of, concat, concat3, is_digit, lemma_already_trimmed,
    lemma_trimmed_shape, same, string_of, to_ascii_lower, trim, trimmed,
    trimming_takes_the_space_around,
};

verus! {

// ---------------------------------------------------------------------------------------------
// Devices
// ---------------------------------------------------------------------------------------------

/// The view of a list of devices: index and name of each.
pub open spec fn device_views(v: Seq<(String, String)>) -> Seq<(Seq<char>, Seq<char>)> {
    v.map_values(|d: (String, String)| (d.0@, d.1@))
}

/// The index and the name in a line that lists a device: the number in the last brackets, and
/// what stands behind them.
pub open spec fn device_line(l: Seq<char>) -> Option<(Seq<char>, Seq<char>)> {
    match rfind(l, '[') {
        Some(open) => {
            let rest = l.subrange(open + 1, l.len() as int);
            match find(rest, seq![']']) {
                Some(close) => {
                    let idx = trimmed(rest.subrange(0, close));
                    let name = trimmed(rest.subrange(close + 1, rest.len() as int));
                    if idx.len() > 0 && all_digits(idx) && name.len() > 0 {
                        Some((idx, name))
                    } else {
                        None
                    }
                },
                None => None,
            }
        },
        None => None,
    }
}

/// Whether the audio section is open behind the first `n` lines.
pub open spec fn in_audio_section(l: Seq<Seq<char>>, n: int) -> bool
    decreases n,
{
    if n <= 0 {
        false
    } else if contains(trimmed(l[n - 1]), "AVFoundation audio devices"@) {
        true
    } else if contains(trimmed(l[n - 1]), "AVFoundation video devices"@) {
        false
    } else {
        in_audio_section(l, n - 1)
    }
}

/// Whether a line opens a section.
pub open spec fn is_section_line(l: Seq<char>) -> bool {
    contains(trimmed(l), "AVFoundation audio devices"@) || contains(
        trimmed(l),
        "AVFoundation video devices"@,
    )
}

/// The audio devices that the first `n` lines list.
pub open spec fn listed_devices(l: Seq<Seq<char>>, n: int) -> Seq<(Seq<char>, Seq<char>)>
    decreases n,
{
    if n <= 0 {
        Seq::empty()
    } else {
        let before = listed_devices(l, n - 1);
        if !is_section_line(l[n - 1]) && in_audio_section(l, n - 1) {
            match device_line(trimmed(l[n - 1])) {
                Some(d) => before.push(d),
                None => before,
            }
        } else {
            before
        }
    }
}

/// Whether every character of `s` is a decimal digit.
fn only_digits(s: &str) -> (r: bool)
    ensures
        r == all_digits(s@),
{
    let v = chars_of(s);
    let mut i: usize = 0;
    while i < v.len()
        invariant
            i <= v.len(),
            v@ == s@,
            forall|k: int| 0 <= k < i ==> is_digit(#[trigger] v@[k]),
        decreases v.len() - i,
    {
        if !char_is_digit(v[i]) {
            assert(!is_digit(s@[i as int]));
            return false;
        }
        i = i + 1;
    }
    true
}

/// The index and the name in a line that lists a device.
fn parse_device_line(l: &str) -> (r: Option<(String, String)>)
    ensures
        pair_view(r) == device_line(l@),
{
    let v = chars_of(l);
    let mut close: Vec<char> = Vec::new();
    close.push(']');
    assert(close@ == seq![']']);
    let open = match rfind_char(&v, '[') {
        Some(i) => i,
        None => {
            return None;
        },
    };
    let rest = chars_of(string_of(&v, open + 1, v.len()).as_str());
    let n: usize = rest.len();
    match find_chars(&rest, &close, 0) {
        Some(i) => {
            let idx = trim(string_of(&rest, 0, i).as_str());
            let name = trim(string_of(&rest, i + 1, n).as_str());
            if !idx.as_str().is_empty() && only_digits(idx.as_str()) && !name.as_str().is_empty() {
                Some((idx, name))
            } else {
                None
            }
        },
        None => None,
    }
}

/// The audio devices, index and name, in the listing that ffmpeg prints.
pub fn parse_avfoundation_audio_devices(raw: &str) -> (r: Vec<(String, String)>)
    ensures
        device_views(r@) == listed_devices(lines_of(raw@), lines_of(raw@).len() as int),
{
    let all = lines(raw);
    let ghost l = lines_of(raw@);
    assert(l.len() == all@.len());
    let mut devices: Vec<(String, String)> = Vec::new();
    let mut in_audio: bool = false;
    let mut i: usize = 0;
    assert(device_views(devices@) =~= Seq::empty());
    while i < all.len()
        invariant
            i <= all.len(),
            l == views(all@),
            in_audio == in_audio_section(l, i as int),
            device_views(devices@) == listed_devices(l, i as int),
        decreases all.len() - i,
    {
        assert(l[i as int] == all@[i as int]@);
        let line = trim(all[i].as_str());
        if contains_text(line.as_str(), "AVFoundation audio devices") {
            in_audio = true;
        } else if contains_text(line.as_str(), "AVFoundation video devices") {
            in_audio = false;
        } else if in_audio {
            if let Some(d) = parse_device_line(line.as_str()) {
                let ghost before = devices@;
                let ghost v = (d.0@, d.1@);
                devices.push(d);
                assert(device_views(devices@) =~= device_views(before).push(v));
            }
        }
        i = i + 1;
    }
    devices
}

/// Whether a name holds one of the terms.
pub open spec fn holds_any(name: Seq<char>, terms: Seq<Seq<char>>) -> bool {
    exists|i: int| 0 <= i < terms.len() && contains(name, #[trigger] terms[i])
}

/// Whether a name holds one of the terms.
pub fn contains_any(name_lc: &str, terms: &Vec<String>) -> (r: bool)
    ensures
        r == holds_any(name_lc@, views(terms@)),
{
    let ghost all = views(terms@);
    let mut i: usize = 0;
    while i < terms.len()
        invariant
            i <= terms.len(),
            all == views(terms@),
            forall|k: int| 0 <= k < i ==> !contains(name_lc@, #[trigger] all[k]),
        decreases terms.len() - i,
    {
        assert(all[i as int] == terms@[i as int]@);
        if contains_text(name_lc, terms[i].as_str()) {
            return true;
        }
        i = i + 1;
    }
    false
}

/// Devices that are only near: never chosen where there is another.
pub open spec fn avoided_terms() -> Seq<Seq<char>> {
    seq!["iphone"@, "continuity"@]
}

/// Devices that are built in: chosen first.
pub open spec fn built_in_terms() -> Seq<Seq<char>> {
    seq!["macbook"@, "built-in"@, "internal"@]
}

/// Whether a device is one to avoid.
pub open spec fn is_avoided(name: Seq<char>) -> bool {
    holds_any(ascii_lower(name), avoided_terms())
}

/// Whether a device is built in and not one to avoid.
pub open spec fn is_built_in(name: Seq<char>) -> bool {
    holds_any(ascii_lower(name), built_in_terms()) && !is_avoided(name)
}

/// The first device from `i` on that is built in.
pub open spec fn first_built_in(d: Seq<(Seq<char>, Seq<char>)>, i: int) -> Option<int>
    decreases d.len() - i,
{
    if i < 0 || i >= d.len() {
        None
    } else if is_built_in(d[i].1) {
        Some(i)
    } else {
        first_built_in(d, i + 1)
    }
}

/// The first device from `i` on that is not one to avoid.
pub open spec fn first_acceptable(d: Seq<(Seq<char>, Seq<char>)>, i: int) -> Option<int>
    decreases d.len() - i,
{
    if i < 0 || i >= d.len() {
        None
    } else if !is_avoided(d[i].1) {
        Some(i)
    } else {
        first_acceptable(d, i + 1)
    }
}

/// The device that is chosen: the first that is built in, else the first that is not one to
/// avoid, else the first.
pub open spec fn preferred_device(d: Seq<(Seq<char>, Seq<char>)>) -> int {
    match first_built_in(d, 0) {
        Some(i) => i,
        None => match first_acceptable(d, 0) {
            Some(i) => i,
            None => 0,
        },
    }
}

/// Whether a device is one to avoid.
fn avoided(name: &str) -> (r: bool)
    ensures
        r == is_avoided(name@),
{
    let terms: Vec<String> = vec!["iphone".to_owned(), "continuity".to_owned()];
    assert(views(terms@) =~= avoided_terms());
    contains_any(to_ascii_lower(name).as_str(), &terms)
}

/// Whether a device is built in and not one to avoid.
fn built_in(name: &str) -> (r: bool)
    ensures
        r == is_built_in(name@),
{
    let terms: Vec<String> = vec![
        "macbook".to_owned(),
        "built-in".to_owned(),
        "internal".to_owned(),
    ];
    assert(views(terms@) =~= built_in_terms());
    contains_any(to_ascii_lower(name).as_str(), &terms) && !avoided(name)
}

/// The device that is chosen of those there are: the first that is built in, else the first that
/// is not one to avoid, else the first.
pub fn choose_device(devices: &Vec<(String, String)>) -> (r: usize)
    requires
        devices@.len() > 0,
    ensures
        r == preferred_device(device_views(devices@)),
        r < devices@.len(),
{
    let ghost d = device_views(devices@);
    let mut i: usize = 0;
    while i < devices.len()
        invariant
            i <= devices.len(),
            d == device_views(devices@),
            first_built_in(d, 0) == first_built_in(d, i as int),
        decreases devices.len() - i,
    {
        assert(d[i as int].1 == devices@[i as int].1@);
        if built_in(devices[i].1.as_str()) {
            return i;
        }
        i = i + 1;
    }
    let mut j: usize = 0;
    while j < devices.len()
        invariant
            j <= devices.len(),
            d == device_views(devices@),
            first_built_in(d, 0) is None,
            first_acceptable(d, 0) == first_acceptable(d, j as int),
        decreases devices.len() - j,
    {
        assert(d[j as int].1 == devices@[j as int].1@);
        if !avoided(devices[j].1.as_str()) {
            return j;
        }
        j = j + 1;
    }
    0
}

/// A device that is one to avoid is chosen only where there is no other.
pub proof fn avoided_devices_come_last(d: Seq<(Seq<char>, Seq<char>)>, other: int)
    requires
        0 <= other < d.len(),
        !is_avoided(d[other].1),
    ensures
        0 <= preferred_device(d) < d.len(),
        !is_avoided(d[preferred_device(d)].1),
{
    lemma_first_built_in(d, 0);
    lemma_first_acceptable(d, 0);
}

proof fn lemma_first_built_in(d: Seq<(Seq<char>, Seq<char>)>, i: int)
    requires
        0 <= i,
    ensures
        first_built_in(d, i) matches Some(k) ==> i <= k < d.len() && is_built_in(d[k].1),
    decreases d.len() - i,
{
    if i < d.len() && !is_built_in(d[i].1) {
        lemma_first_built_in(d, i + 1);
    }
}

proof fn lemma_first_acceptable(d: Seq<(Seq<char>, Seq<char>)>, i: int)
    requires
        0 <= i,
    ensures
        match first_acceptable(d, i) {
            Some(k) => i <= k < d.len() && !is_avoided(d[k].1),
            None => forall|k: int| i <= k < d.len() ==> is_avoided((#[trigger] d[k]).1),
        },
    decreases d.len() - i,
{
    if i < d.len() && is_avoided(d[i].1) {
        lemma_first_acceptable(d, i + 1);
    }
}

/// Whether a text names the automatic choice, in any case.
pub open spec fn is_auto(s: Seq<char>) -> bool {
    ascii_lower(s) == "auto"@
}

/// Whether a text names the automatic choice, in any case.
pub fn asks_auto(s: &str) -> (r: bool)
    ensures
        r == is_auto(s@),
{
    same(to_ascii_lower(s).as_str(), "auto")
}

/// The device that is asked for: under `auto`, what the environment names, where it names one.
pub fn requested_device(arg: &str, env_device: Option<&str>) -> (r: String)
    ensures
        r@ == match env_device {
            Some(d) => if is_auto(arg@) {
                d@
            } else {
                arg@
            },
            None => arg@,
        },
{
    if asks_auto(arg) {
        if let Some(d) = env_device {
            return d.to_owned();
        }
    }
    arg.to_owned()
}

/// How the device to record from is found.
#[derive(Debug)]
pub enum DeviceChoice {
    /// The device that was asked for.
    Given(String),
    /// The device that was found before.
    Cached(String),
    /// The devices have to be listed.
    Detect,
}

/// Whether a cached device can be used: a colon and more.
pub open spec fn usable_cache(s: Seq<char>) -> bool {
    s.len() > 1 && s[0] == ':'
}

/// How the device to record from is found: as asked for, else from the cache, else by listing.
pub fn device_choice(requested: &str, cached: Option<&str>) -> (r: DeviceChoice)
    ensures
        if !is_auto(requested@) {
            r matches DeviceChoice::Given(d) && d@ == requested@
        } else {
            match cached {
                Some(c) => if usable_cache(trimmed(c@)) {
                    r matches DeviceChoice::Cached(d) && d@ == trimmed(c@)
                } else {
                    r is Detect
                },
                None => r is Detect,
            }
        },
{
    if !asks_auto(requested) {
        return DeviceChoice::Given(requested.to_owned());
    }
    if let Some(c) = cached {
        let d = trim(c);
        let v = chars_of(d.as_str());
        if v.len() > 1 && v[0] == ':' {
            return DeviceChoice::Cached(d);
        }
    }
    DeviceChoice::Detect
}

/// The device to record from of those that were listed, and whether it is worth caching: `:0`,
/// not cached, where none was listed.
pub fn detected_device(devices: &Vec<(String, String)>) -> (r: (String, bool))
    ensures
        devices@.len() == 0 ==> r.0@ == ":0"@ && !r.1,
        devices@.len() > 0 ==> r.0@ == ":"@ + devices@[preferred_device(
            device_views(devices@),
        )].0@ && r.1,
{
    if devices.len() == 0 {
        return (":0".to_owned(), false);
    }
    let i = choose_device(devices);
    (concat(":", devices[i].0.as_str()), true)
}

// ---------------------------------------------------------------------------------------------
// The recorder
// ---------------------------------------------------------------------------------------------

/// The command that records.
pub open spec fn record_cmd(audio_path: Seq<char>, audio_device: Seq<char>) -> Seq<Seq<char>> {
    seq![
        "ffmpeg"@,
        "-hide_banner"@,
        "-loglevel"@,
        "error"@,
        "-f"@,
        "avfoundation"@,
        "-i"@,
        audio_device,
        "-ac"@,
        "1"@,
        "-ar"@,
        "16000"@,
        "-c:a"@,
        "pcm_s16le"@,
        audio_path,
    ]
}

/// The command that records from `audio_device` to `audio_path`.
pub fn build_record_cmd(audio_path: &str, audio_device: &str) -> (r: Vec<String>)
    ensures
        views(r@) == record_cmd(audio_path@, audio_device@),
{
    let r: Vec<String> = vec![
        "ffmpeg".to_owned(),
        "-hide_banner".to_owned(),
        "-loglevel".to_owned(),
        "error".to_owned(),
        "-f".to_owned(),
        "avfoundation".to_owned(),
        "-i".to_owned(),
        audio_device.to_owned(),
        "-ac".to_owned(),
        "1".to_owned(),
        "-ar".to_owned(),
        "16000".to_owned(),
        "-c:a".to_owned(),
        "pcm_s16le".to_owned(),
        audio_path.to_owned(),
    ];
    assert(views(r@) =~= record_cmd(audio_path@, audio_device@));
    r
}

/// Whether an error of the recorder speaks of a device that is not there.
pub open spec fn speaks_of_device(message: Seq<char>) -> bool {
    let m = ascii_lower(message);
    ||| contains(m, "invalid audio device index"@)
    ||| contains(m, "error opening input file"@)
    ||| contains(m, "avfoundation indev"@) && contains(m, "input/output error"@)
}

/// Whether an error of the recorder speaks of a device that is not there.
pub fn recorder_error_looks_like_invalid_audio_device(err: &AppError) -> (r: bool)
    ensures
        r == speaks_of_device(err.message@),
{
    let lower = to_ascii_lower(err.message.as_str());
    let m = lower.as_str();
    contains_text(m, "invalid audio device index") || contains_text(m, "error opening input file")
        || (contains_text(m, "avfoundation indev") && contains_text(m, "input/output error"))
}

/// What follows a first attempt to record.
#[derive(Clone, Copy, Debug, PartialEq, Eq, Structural)]
pub enum RecorderStep {
    Recording,
    RetryWithFreshDevice,
    Fail,
}

/// What follows a first attempt to record: a device that was chosen automatically and turns out to
/// be gone is looked for once more.
pub fn after_first_attempt(first_error: &Option<AppError>, device_arg: &str) -> (r: RecorderStep)
    ensures
        r == match *first_error {
            None => RecorderStep::Recording,
            Some(e) => if is_auto(device_arg@) && speaks_of_device(e.message@) {
                RecorderStep::RetryWithFreshDevice
            } else {
                RecorderStep::Fail
            },
        },
{
    match first_error {
        None => RecorderStep::Recording,
        Some(e) => if asks_auto(device_arg) && recorder_error_looks_like_invalid_audio_device(e) {
            RecorderStep::RetryWithFreshDevice
        } else {
            RecorderStep::Fail
        },
    }
}

/// The error where the second attempt to record failed too.
pub fn retry_error(first: &AppError, second: &AppError) -> (r: AppError)
    ensures
        r.code == second.code,
        r.message@
            == "Recorder failed with initial device selection and retry.\ninitial_error: "@
            + first.message@ + "\nretry_error: "@ + second.message@,
{
    let head = concat3(
        "Recorder failed with initial device selection and retry.\ninitial_error: ",
        first.message.as_str(),
        "\nretry_error: ",
    );
    AppError { code: second.code, message: concat(head.as_str(), second.message.as_str()) }
}

// ---------------------------------------------------------------------------------------------
// Sounds
// ---------------------------------------------------------------------------------------------

/// The file of a sound: a path as it is, else a system sound by its name.
pub open spec fn sound_path(spec: Seq<char>) -> Seq<char> {
    if contains(spec, "/"@) {
        spec
    } else if ".aiff"@.is_suffix_of(spec) {
        "/System/Library/Sounds/"@ + spec
    } else {
        "/System/Library/Sounds/"@ + spec + ".aiff"@
    }
}

/// The file of a sound: a path as it is, else a system sound by its name.
pub fn resolve_sound_path(spec: &str) -> (r: String)
    ensures
        r@ == sound_path(spec@),
{
    if contains_text(spec, "/") {
        spec.to_owned()
    } else if ends_with(spec, ".aiff") {
        concat("/System/Library/Sounds/", spec)
    } else {
        concat3("/System/Library/Sounds/", spec, ".aiff")
    }
}

/// What a session does that is marked by a sound.
#[derive(Clone, Copy, Debug, PartialEq, Eq, Structural)]
pub enum SoundKind {
    Start,
    Stop,
}

/// The variables that set the sound of an event and how often it is played.
pub fn sound_variables(kind: SoundKind) -> (r: (&'static str, &'static str))
    ensures
        kind == SoundKind::Start ==> r.0@ == "RIFF_BEEP_START"@ && r.1@
            == "RIFF_BEEP_START_COUNT"@,
        kind == SoundKind::Stop ==> r.0@ == "RIFF_BEEP_STOP"@ && r.1@ == "RIFF_BEEP_STOP_COUNT"@,
{
    match kind {
        SoundKind::Start => ("RIFF_BEEP_START", "RIFF_BEEP_START_COUNT"),
        SoundKind::Stop => ("RIFF_BEEP_STOP", "RIFF_BEEP_STOP_COUNT"),
    }
}

/// The sound of an event: the one that is set, else `Ping` at the start and `Glass` at the stop.
pub fn sound_file(kind: SoundKind, set: Option<&str>) -> (r: String)
    ensures
        r@ == sound_path(
            match set {
                Some(s) => s@,
                None => if kind == SoundKind::Start {
                    "Ping"@
                } else {
                    "Glass"@
                },
            },
        ),
{
    match set {
        Some(s) => resolve_sound_path(s),
        None => match kind {
            SoundKind::Start => resolve_sound_path("Ping"),
            SoundKind::Stop => resolve_sound_path("Glass"),
        },
    }
}

/// How often a sound is played: once to three times, and once where nothing readable is set.
pub fn beep_count(set: Option<&str>) -> (r: u64)
    ensures
        r == match set {
            Some(s) => match parsed_unsigned(s@, 255) {
                Some(n) => if n < 1 {
                    1
                } else if n > 3 {
                    3
                } else {
                    n
                },
                None => 1,
            },
            None => 1nat,
        },
        1 <= r <= 3,
{
    match set {
        Some(s) => match parse_bounded(s, 255) {
            Some(n) => if n < 1 {
                1
            } else if n > 3 {
                3
            } else {
                n
            },
            None => 1,
        },
        None => 1,
    }
}

// ---------------------------------------------------------------------------------------------
// Recordings
// ---------------------------------------------------------------------------------------------

/// The number that two bytes write, the low one first.
pub open spec fn le16(b: Seq<u8>, i: int) -> nat {
    (b[i] + 256 * b[i + 1]) as nat
}

/// The number that four bytes write, the low one first.
pub open spec fn le32(b: Seq<u8>, i: int) -> nat {
    (b[i] + 256 * b[i + 1] + 65_536 * b[i + 2] + 16_777_216 * b[i + 3]) as nat
}

/// The bytes of sound and the bytes per second that the header of a recording states. A file that
/// is no such recording, or states no rate, has none.
pub open spec fn wav_extent_of(h: Seq<u8>) -> Option<(nat, nat)> {
    let channels = le16(h, 22);
    let rate = le32(h, 24);
    let bits = le16(h, 34);
    if h.len() < 44 {
        None
    } else if !(h[0] == 82 && h[1] == 73 && h[2] == 70 && h[3] == 70) {
        None
    } else if !(h[8] == 87 && h[9] == 65 && h[10] == 86 && h[11] == 69) {
        None
    } else if channels == 0 || rate == 0 || bits == 0 {
        None
    } else {
        Some((le32(h, 40), channels * rate * ((bits + 7) / 8)))
    }
}

/// The number that two bytes write, the low one first.
fn read_le16(b: &Vec<u8>, i: usize) -> (r: u64)
    requires
        i + 2 <= b.len(),
    ensures
        r == le16(b@, i as int),
        r < 65_536,
{
    b[i] as u64 + 256 * (b[i + 1] as u64)
}

/// The number that four bytes write, the low one first.
fn read_le32(b: &Vec<u8>, i: usize) -> (r: u64)
    requires
        i + 4 <= b.len(),
    ensures
        r == le32(b@, i as int),
        r < 4_294_967_296,
{
    b[i] as u64 + 256 * (b[i + 1] as u64) + 65_536 * (b[i + 2] as u64) + 16_777_216 * (b[i
        + 3] as u64)
}

/// The bytes of sound and the bytes per second that the header of a recording states: their
/// quotient is its duration in seconds.
pub fn wav_extent(header: &Vec<u8>) -> (r: Option<(u64, u64)>)
    ensures
        match wav_extent_of(header@) {
            Some((size, rate)) => r is Some && (r->0).0 == size && (r->0).1 == rate && rate > 0,
            None => r is None,
        },
{
    if header.len() < 44 {
        return None;
    }
    if !(header[0] == 82 && header[1] == 73 && header[2] == 70 && header[3] == 70) {
        return None;
    }
    if !(header[8] == 87 && header[9] == 65 && header[10] == 86 && header[11] == 69) {
        return None;
    }
    let channels: u64 = read_le16(header, 22);
    let rate: u64 = read_le32(header, 24);
    let bits: u64 = read_le16(header, 34);
    let size: u64 = read_le32(header, 40);
    if channels == 0 || rate == 0 || bits == 0 {
        return None;
    }
    let width: u64 = (bits + 7) / 8;
    assert(0 < channels * rate < 65_536 * 4_294_967_296) by (nonlinear_arith)
        requires
            0 < channels < 65_536,
            0 < rate < 4_294_967_296,
    ;
    assert(0 < (channels * rate) * width < 65_536 * 4_294_967_296 * 8_193) by (nonlinear_arith)
        requires
            0 < channels * rate < 65_536 * 4_294_967_296,
            0 < width < 8_193,
    ;
    Some((size, channels * rate * width))
}

// ---------------------------------------------------------------------------------------------
// What is listed, chosen and recorded
// ---------------------------------------------------------------------------------------------

/// A line that lists a device names its index in brackets and behind them the device.
pub proof fn device_lines_read_back(front: Seq<char>, n: nat, name: Seq<char>)
    requires
        !name.contains('['),
        name.len() > 0,
        trimmed(name) == name,
    ensures
        device_line(front + seq!['['] + decimal(n) + seq![']', ' '] + name) == Some(
            (decimal(n), name),
        ),
{
    let d = decimal(n);
    decimal_reads_back(n);
    let rest = d + seq![']', ' '] + name;
    let l = front + seq!['['] + d + seq![']', ' '] + name;
    assert(l =~= front + seq!['['] + rest);
    assert forall|k: int| 0 <= k < rest.len() implies #[trigger] rest[k] != '[' by {
        if k < d.len() {
            assert(is_digit(d[k]));
        } else if k >= d.len() + 2 {
            assert(rest[k] == name[k - d.len() - 2]);
            assert(name.contains(name[k - d.len() - 2]));
        }
    }
    lemma_last_bracket(front, rest);
    assert(l.subrange(front.len() + 1int, l.len() as int) =~= rest);
    lemma_find_from(rest, seq![']'], 0);
    let at = d.len() as int;
    assert(rest.subrange(at, at + 1) =~= seq![']']);
    assert(occurs_at(rest, seq![']'], at));
    assert forall|j: int| 0 <= j < at implies !#[trigger] occurs_at(rest, seq![']'], j) by {
        assert(is_digit(d[j]));
        assert(rest.subrange(j, j + 1)[0] == d[j]);
        assert(seq![']'][0] == ']');
    }
    assert(find(rest, seq![']']) == Some(at));
    assert(rest.subrange(0, at) =~= d);
    assert(is_digit(d[0]) && is_digit(d[d.len() - 1]));
    lemma_already_trimmed(d);
    let tail = rest.subrange(at + 1, rest.len() as int);
    lemma_trimmed_shape(name);
    trimming_takes_the_space_around(seq![' '], name, Seq::empty());
    assert(tail =~= seq![' '] + name + Seq::<char>::empty());
}

proof fn lemma_last_bracket(front: Seq<char>, rest: Seq<char>)
    requires
        forall|k: int| 0 <= k < rest.len() ==> #[trigger] rest[k] != '[',
    ensures
        rfind(front + seq!['['] + rest, '[') == Some(front.len() as int),
    decreases rest.len(),
{
    let s = front + seq!['['] + rest;
    if rest.len() > 0 {
        let less = rest.drop_last();
        lemma_last_bracket(front, less);
        assert(s[s.len() - 1] == rest[rest.len() - 1]);
        assert(s.subrange(0, s.len() - 1) =~= front + seq!['['] + less);
    }
}

/// The lines of the audio section list devices, in their order, and no others do. The section is
/// opened by its heading and closed by that of the video devices.
pub proof fn devices_are_listed_under_audio(l: Seq<Seq<char>>, line: Seq<char>)
    ensures
        ({
            let n = l.len() as int;
            let more = l.push(line);
            let audio = contains(trimmed(line), "AVFoundation audio devices"@);
            let video = contains(trimmed(line), "AVFoundation video devices"@);
            &&& audio ==> in_audio_section(more, n + 1)
            &&& video && !audio ==> !in_audio_section(more, n + 1)
            &&& !audio && !video ==> in_audio_section(more, n + 1) == in_audio_section(l, n)
            &&& audio || video || !in_audio_section(l, n) ==> listed_devices(more, n + 1)
                == listed_devices(l, n)
            &&& !audio && !video && in_audio_section(l, n) ==> (match device_line(trimmed(line)) {
                Some(d) => listed_devices(more, n + 1) == listed_devices(l, n).push(d),
                None => listed_devices(more, n + 1) == listed_devices(l, n),
            })
            &&& !in_audio_section(l, 0)
            &&& listed_devices(l, 0).len() == 0
        }),
{
    lemma_listing_prefix(l, line, l.len() as int);
    assert(l.push(line)[l.len() as int] == line);
}

proof fn lemma_listing_prefix(l: Seq<Seq<char>>, line: Seq<char>, n: int)
    requires
        0 <= n <= l.len(),
    ensures
        in_audio_section(l.push(line), n) == in_audio_section(l, n),
        listed_devices(l.push(line), n) == listed_devices(l, n),
    decreases n,
{
    if n > 0 {
        lemma_listing_prefix(l, line, n - 1);
        assert(l.push(line)[n - 1] == l[n - 1]);
    }
}

/// The first built-in device is chosen; where there is none, the first that is not one to avoid; and
/// the first of all where every one is.
pub proof fn built_in_devices_are_chosen_first(d: Seq<(Seq<char>, Seq<char>)>, i: int)
    requires
        0 <= i < d.len(),
    ensures
        is_built_in(d[i].1) && (forall|k: int| 0 <= k < i ==> !is_built_in((#[trigger] d[k]).1))
            ==> preferred_device(d) == i,
        (forall|k: int| 0 <= k < d.len() ==> !is_built_in((#[trigger] d[k]).1)) && !is_avoided(d[i].1)
            && (forall|k: int| 0 <= k < i ==> is_avoided((#[trigger] d[k]).1)) ==> preferred_device(
            d,
        ) == i,
        (forall|k: int| 0 <= k < d.len() ==> is_avoided((#[trigger] d[k]).1)) ==> preferred_device(d)
            == 0,
{
    if is_built_in(d[i].1) && (forall|k: int| 0 <= k < i ==> !is_built_in((#[trigger] d[k]).1)) {
        lemma_built_in_at(d, 0, i);
    }
    if forall|k: int| 0 <= k < d.len() ==> !is_built_in((#[trigger] d[k]).1) {
        lemma_none_built_in(d, 0);
        if !is_avoided(d[i].1) && (forall|k: int| 0 <= k < i ==> is_avoided((#[trigger] d[k]).1)) {
            lemma_acceptable_at(d, 0, i);
        }
    }
    if forall|k: int| 0 <= k < d.len() ==> is_avoided((#[trigger] d[k]).1) {
        lemma_none_built_in(d, 0);
        lemma_none_acceptable(d, 0);
    }
}

proof fn lemma_built_in_at(d: Seq<(Seq<char>, Seq<char>)>, i: int, at: int)
    requires
        0 <= i <= at < d.len(),
        is_built_in(d[at].1),
        forall|k: int| 0 <= k < at ==> !is_built_in((#[trigger] d[k]).1),
    ensures
        first_built_in(d, i) == Some(at),
    decreases at - i,
{
    if i < at {
        assert(!is_built_in(d[i].1));
        lemma_built_in_at(d, i + 1, at);
    }
}

proof fn lemma_none_built_in(d: Seq<(Seq<char>, Seq<char>)>, i: int)
    requires
        0 <= i,
        forall|k: int| 0 <= k < d.len() ==> !is_built_in((#[trigger] d[k]).1),
    ensures
        first_built_in(d, i) is None,
    decreases d.len() - i,
{
    if i < d.len() {
        assert(!is_built_in(d[i].1));
        lemma_none_built_in(d, i + 1);
    }
}

proof fn lemma_acceptable_at(d: Seq<(Seq<char>, Seq<char>)>, i: int, at: int)
    requires
        0 <= i <= at < d.len(),
        !is_avoided(d[at].1),
        forall|k: int| 0 <= k < at ==> is_avoided((#[trigger] d[k]).1),
    ensures
        first_acceptable(d, i) == Some(at),
    decreases at - i,
{
    if i < at {
        assert(is_avoided(d[i].1));
        lemma_acceptable_at(d, i + 1, at);
    }
}

proof fn lemma_none_acceptable(d: Seq<(Seq<char>, Seq<char>)>, i: int)
    requires
        0 <= i,
        forall|k: int| 0 <= k < d.len() ==> is_avoided((#[trigger] d[k]).1),
    ensures
        first_acceptable(d, i) is None,
    decreases d.len() - i,
{
    if i < d.len() {
        assert(is_avoided(d[i].1));
        lemma_none_acceptable(d, i + 1);
    }
}

/// By its name a device is one to avoid, or built in, however the name is written.
pub proof fn devices_go_by_their_names(name: Seq<char>)
    ensures
        is_avoided(name) <==> contains(ascii_lower(name), "iphone"@) || contains(
            ascii_lower(name),
            "continuity"@,
        ),
        is_built_in(name) <==> (contains(ascii_lower(name), "macbook"@) || contains(
            ascii_lower(name),
            "built-in"@,
        ) || contains(ascii_lower(name), "internal"@)) && !contains(ascii_lower(name), "iphone"@)
            && !contains(ascii_lower(name), "continuity"@),
{
    let a = avoided_terms();
    let b = built_in_terms();
    assert(a[0] == "iphone"@ && a[1] == "continuity"@);
    assert(b[0] == "macbook"@ && b[1] == "built-in"@ && b[2] == "internal"@);
    let l = ascii_lower(name);
    if contains(l, "iphone"@) {
        assert(contains(l, a[0]));
    }
    if contains(l, "continuity"@) {
        assert(contains(l, a[1]));
    }
    if contains(l, "macbook"@) {
        assert(contains(l, b[0]));
    }
    if contains(l, "built-in"@) {
        assert(contains(l, b[1]));
    }
    if contains(l, "internal"@) {
        assert(contains(l, b[2]));
    }
}

/// The recorder takes one channel of sixteen bits at sixteen kilohertz from the device, and writes it
/// to the path.
pub proof fn recordings_are_mono(path: Seq<char>, device: Seq<char>)
    ensures
        ({
            let c = record_cmd(path, device);
            &&& c[0] == "ffmpeg"@
            &&& c.last() == path
            &&& exists|i: int| 0 <= i < c.len() - 1 && #[trigger] c[i] == "-i"@ && c[i + 1] == device
            &&& exists|i: int| 0 <= i < c.len() - 1 && #[trigger] c[i] == "-ac"@ && c[i + 1] == "1"@
            &&& exists|i: int|
                0 <= i < c.len() - 1 && #[trigger] c[i] == "-ar"@ && c[i + 1] == "16000"@
            &&& exists|i: int|
                0 <= i < c.len() - 1 && #[trigger] c[i] == "-c:a"@ && c[i + 1] == "pcm_s16le"@
        }),
{
    let c = record_cmd(path, device);
    assert(c[6] == "-i"@ && c[7] == device);
    assert(c[8] == "-ac"@ && c[9] == "1"@);
    assert(c[10] == "-ar"@ && c[11] == "16000"@);
    assert(c[12] == "-c:a"@ && c[13] == "pcm_s16le"@);
}

/// A sound with a slash in it is a path, and any other the name of a system sound, with its extension
/// or without.
pub proof fn sounds_are_paths_or_names(name: Seq<char>)
    ensures
        contains(name, "/"@) ==> sound_path(name) == name,
        !contains(name, "/"@) && !".aiff"@.is_suffix_of(name) ==> sound_path(name)
            == "/System/Library/Sounds/"@ + name + ".aiff"@,
        !contains(name, "/"@) && ".aiff"@.is_suffix_of(name) ==> sound_path(name)
            == "/System/Library/Sounds/"@ + name,
{
}

/// The header of a recording of `channels` channels of sixteen bits states two bytes for each at each
/// step, and the bytes of sound that follow it.
pub proof fn headers_state_size_and_rate(h: Seq<u8>, channels: nat, rate: nat, size: nat)
    requires
        h.len() >= 44,
        h[0] == 'R' as u8 && h[1] == 'I' as u8 && h[2] == 'F' as u8 && h[3] == 'F' as u8,
        h[8] == 'W' as u8 && h[9] == 'A' as u8 && h[10] == 'V' as u8 && h[11] == 'E' as u8,
        channels == h[22] + 256 * h[23],
        rate == h[24] + 256 * h[25] + 256 * 256 * h[26] + 256 * 256 * 256 * h[27],
        h[34] == 16 && h[35] == 0,
        size == h[40] + 256 * h[41] + 256 * 256 * h[42] + 256 * 256 * 256 * h[43],
    ensures
        channels > 0 && rate > 0 ==> wav_extent_of(h) == Some((size, channels * rate * 2)),
        channels == 0 || rate == 0 ==> wav_extent_of(h) is None,
{
    assert('R' as u8 == 82 && 'I' as u8 == 73 && 'F' as u8 == 70);
    assert('W' as u8 == 87 && 'A' as u8 == 65 && 'V' as u8 == 86 && 'E' as u8 == 69);
}

/// A device that was remembered is taken where it is a colon and an index behind it, and `auto` asks
/// for a search however it is written.
pub proof fn remembered_devices_are_indices(rest: Seq<char>, c: char)
    ensures
        usable_cache(seq![':'] + rest) <==> rest.len() > 0,
        !usable_cache(Seq::empty()),
        c != ':' ==> !usable_cache(seq![c] + rest),
        is_auto("auto"@),
        !is_auto(Seq::empty()),
{
    reveal_strlit("auto");
    assert((seq![':'] + rest)[0] == ':');
    assert((seq![c] + rest)[0] == c);
    assert(ascii_lower("auto"@) =~= "auto"@);
    assert(ascii_lower(Seq::empty()).len() == 0);
}

/// Three complaints speak of a device: of its index, of its input, and both of the framework and of a
/// failed read.
pub proof fn complaints_speak_of_devices(message: Seq<char>)
    ensures
        ({
            let m = ascii_lower(message);
            &&& contains(m, "invalid audio device index"@) ==> speaks_of_device(message)
            &&& contains(m, "error opening input file"@) ==> speaks_of_device(message)
            &&& contains(m, "avfoundation indev"@) && contains(m, "input/output error"@)
                ==> speaks_of_device(message)
            &&& !contains(m, "invalid audio device index"@) && !contains(
                m,
                "error opening input file"@,
            ) && !contains(m, "avfoundation indev"@) ==> !speaks_of_device(message)
            &&& !contains(m, "invalid audio device index"@) && !contains(
                m,
                "error opening input file"@,
            ) && !contains(m, "input/output error"@) ==> !speaks_of_device(message)
        }),
{
}

/// A recording is made by `ffmpeg` from the input framework, and says no more than its errors.
pub proof fn recordings_are_made_by_one_tool(path: Seq<char>, device: Seq<char>)
    ensures
        record_cmd(path, device).subrange(0, 8) == seq![
            "ffmpeg"@,
            "-hide_banner"@,
            "-loglevel"@,
            "error"@,
            "-f"@,
            "avfoundation"@,
            "-i"@,
            device,
        ],
        record_cmd(path, device).last() == path,
{
    assert(record_cmd(path, device).subrange(0, 8) =~= seq![
        "ffmpeg"@,
        "-hide_banner"@,
        "-loglevel"@,
        "error"@,
        "-f"@,
        "avfoundation"@,
        "-i"@,
        device,
    ]);
}

} // verus!
