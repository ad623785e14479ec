//! Screenshots: where they are taken from, how they are named, and the pictures that are made of
//! them.

use vstd::prelude::*;

use crate::annotations::shot_of;
use crate::error::{app_error, AppError};
use crate::images::{
    extension_of, is_image, is_image_name, names_part_at_the_last_dot, plain_shot, plain_view,
    stem_of,
};
use crate::json::{
    count_tree, field, object_of, only_pairs_read_back, pairs_read_back, text_field, Json, Number,
    NumberView, Pairs, Tree,
};
use crate::measure::Measure;
use crate::models::ShotMeta;
use crate::number::{decimal, decimal_text, pad_left, padded_left};
use crate::paths::{join_path, joined_path};
use crate::pattern::{lemma_rfind, strip_prefix};
use crate::text::{ascii_lower, concat, concat3, same, to_ascii_lower, trim, trimmed};
use crate::wire::quantity_of;

verus! {

// ---------------------------------------------------------------------------------------------
// Where they are taken from
// ---------------------------------------------------------------------------------------------

/// The home directory.
pub fn home_dir(set: Option<&str>) -> (r: String)
    ensures
        r@ == match set {
            Some(h) => h@,
            None => "/tmp"@,
        },
{
    match set {
        Some(h) => h.to_owned(),
        None => "/tmp".to_owned(),
    }
}

/// A path with the home directory in place of a tilde at its start.
pub open spec fn expanded(path: Seq<char>, home: Seq<char>) -> Seq<char> {
    if path == "~"@ {
        home
    } else if "~/"@.is_prefix_of(path) {
        joined_path(home, path.subrange("~/"@.len() as int, path.len() as int))
    } else {
        path
    }
}

/// A path with the home directory in place of a tilde at its start.
pub fn expand_tilde(path: &str, home: &str) -> (r: String)
    ensures
        r@ == expanded(path@, home@),
{
    if same(path, "~") {
        return home.to_owned();
    }
    match strip_prefix(path, "~/") {
        Some(rest) => join_path(home, rest.as_str()),
        None => path.to_owned(),
    }
}

/// The directory that the system is set to put screenshots into, by what it prints, where it is.
pub fn system_screenshot_dir(printed: Option<&str>, home: &str) -> (r: Option<String>)
    ensures
        match printed {
            Some(p) => if trimmed(p@).len() > 0 {
                r matches Some(d) && d@ == expanded(trimmed(p@), home@)
            } else {
                r is None
            },
            None => r is None,
        },
{
    match printed {
        Some(p) => {
            let t = trim(p);
            if t.as_str().is_empty() {
                None
            } else {
                Some(expand_tilde(t.as_str(), home))
            }
        },
        None => None,
    }
}

/// A directory, and whether it is there.
pub struct Place<'a> {
    pub path: &'a str,
    pub is_dir: bool,
}

/// The directory that screenshots are taken from: the one that is asked for, which has to be there,
/// else the one that the system is set to, else the desktop.
pub fn detect_screenshot_dir(explicit: Option<Place>, system: Option<Place>, desktop: Place) -> (r:
    Result<String, AppError>)
    ensures
        match explicit {
            Some(p) => if p.is_dir {
                r matches Ok(d) && d@ == p.path@
            } else {
                r matches Err(e) && e.code == 3 && e.message@
                    == "Screenshot directory does not exist: "@ + p.path@
            },
            None => if system matches Some(p) && p.is_dir {
                r matches Ok(d) && d@ == system->0.path@
            } else if desktop.is_dir {
                r matches Ok(d) && d@ == desktop.path@
            } else {
                r matches Err(e) && e.code == 3 && e.message@
                    == "Could not detect screenshot directory from macOS defaults or fallback "@
                    + desktop.path@
            },
        },
{
    if let Some(p) = explicit {
        if p.is_dir {
            return Ok(p.path.to_owned());
        }
        return Err(
            app_error(3, concat("Screenshot directory does not exist: ", p.path).as_str()),
        );
    }
    if let Some(p) = system {
        if p.is_dir {
            return Ok(p.path.to_owned());
        }
    }
    if desktop.is_dir {
        return Ok(desktop.path.to_owned());
    }
    Err(
        app_error(
            3,
            concat(
                "Could not detect screenshot directory from macOS defaults or fallback ",
                desktop.path,
            ).as_str(),
        ),
    )
}

/// A file, and when it was last written.
pub struct DatedFile {
    pub name: String,
    pub mtime: Measure,
}

/// The model of a dated file.
#[verifier::ext_equal]
pub struct DatedView {
    pub name: Seq<char>,
    pub mtime: Measure,
}

impl View for DatedFile {
    type V = DatedView;

    open spec fn view(&self) -> DatedView {
        DatedView { name: self.name@, mtime: self.mtime }
    }
}

/// The models of dated files.
pub open spec fn dated_views(v: Seq<DatedFile>) -> Seq<DatedView> {
    v.map_values(|f: DatedFile| f@)
}

/// Whether a file is a screenshot of a session: an image that was written while it lasted.
pub open spec fn in_session(f: DatedView, from: Measure, to: Measure) -> bool {
    is_image(f.name) && from.key() <= f.mtime.key() <= to.key()
}

/// `s`, in the order of time, with `f` put behind what is not later.
pub open spec fn insert_dated(s: Seq<DatedView>, f: DatedView) -> Seq<DatedView>
    decreases s.len(),
{
    if s.len() == 0 || s.last().mtime.key() <= f.mtime.key() {
        s.push(f)
    } else {
        insert_dated(s.drop_last(), f).push(s.last())
    }
}

/// The screenshots of a session among the first `n` files, in the order of time.
pub open spec fn session_files(
    files: Seq<DatedView>,
    from: Measure,
    to: Measure,
    n: int,
) -> Seq<DatedView>
    decreases n,
{
    if n <= 0 {
        Seq::empty()
    } else if in_session(files[n - 1], from, to) {
        insert_dated(session_files(files, from, to, n - 1), files[n - 1])
    } else {
        session_files(files, from, to, n - 1)
    }
}

fn put_dated(v: &mut Vec<DatedFile>, f: DatedFile)
    ensures
        dated_views(final(v)@) == insert_dated(dated_views(old(v)@), f@),
{
    let ghost all = dated_views(v@);
    let ghost orig = v@;
    let ghost fv = f@;
    let mut n: usize = v.len();
    assert(all.subrange(0, n as int) =~= all);
    assert(insert_dated(all, fv) =~= insert_dated(all, fv) + all.subrange(n as int, n as int));
    while n > 0 && f.mtime.less(&v[n - 1].mtime)
        invariant
            n <= v.len(),
            v@ == orig,
            fv == f@,
            all == dated_views(orig),
            insert_dated(all, fv) == insert_dated(all.subrange(0, n as int), fv) + all.subrange(
                n as int,
                all.len() as int,
            ),
        decreases n,
    {
        proof {
            let s = all.subrange(0, n as int);
            assert(s.last() == orig[n - 1]@);
            assert(s.drop_last() =~= all.subrange(0, n - 1));
            assert(insert_dated(s.drop_last(), fv).push(s.last()) + all.subrange(
                n as int,
                all.len() as int,
            ) =~= insert_dated(s.drop_last(), fv) + all.subrange(n - 1, all.len() as int));
        }
        n = n - 1;
    }
    proof {
        let s = all.subrange(0, n as int);
        if n > 0 {
            assert(s.last() == orig[n - 1]@);
        }
        assert(insert_dated(s, fv) == s.push(fv));
        assert(s.push(fv) + all.subrange(n as int, all.len() as int) =~= all.insert(n as int, fv));
    }
    v.insert(n, f);
    assert(dated_views(v@) =~= all.insert(n as int, fv));
}

/// The screenshots of a session among the files of a directory, in the order of time. `from` is a
/// little before the session began, and `to` a little after it ended.
pub fn find_session_screenshots(files: &Vec<DatedFile>, from: &Measure, to: &Measure) -> (r: Vec<
    DatedFile,
>)
    ensures
        dated_views(r@) == session_files(dated_views(files@), *from, *to, files@.len() as int),
{
    let ghost all = dated_views(files@);
    let mut out: Vec<DatedFile> = Vec::new();
    let mut i: usize = 0;
    assert(dated_views(out@) =~= Seq::empty());
    while i < files.len()
        invariant
            i <= files.len(),
            all == dated_views(files@),
            dated_views(out@) == session_files(all, *from, *to, i as int),
        decreases files.len() - i,
    {
        let f = &files[i];
        assert(all[i as int] == f@);
        if is_image_name(f.name.as_str()) && !f.mtime.less(from) && !to.less(&f.mtime) {
            put_dated(&mut out, DatedFile { name: f.name.clone(), mtime: f.mtime });
        }
        i = i + 1;
    }
    out
}

/// Whether files are in the order of time.
pub open spec fn in_time_order(s: Seq<DatedView>) -> bool {
    forall|i: int, j: int| 0 <= i < j < s.len() ==> s[i].mtime.key() <= s[j].mtime.key()
}

proof fn lemma_insert_dated(s: Seq<DatedView>, f: DatedView)
    requires
        in_time_order(s),
    ensures
        in_time_order(insert_dated(s, f)),
        forall|k: int|
            0 <= k < insert_dated(s, f).len() ==> (#[trigger] insert_dated(s, f)[k]) == f
                || s.contains(insert_dated(s, f)[k]),
    decreases s.len(),
{
    let r = insert_dated(s, f);
    if s.len() == 0 || s.last().mtime.key() <= f.mtime.key() {
        assert forall|k: int| 0 <= k < r.len() implies (#[trigger] r[k]) == f || s.contains(
            r[k],
        ) by {
            if k < s.len() {
                assert(s[k] == r[k]);
            }
        }
        assert forall|i: int, j: int| 0 <= i < j < r.len() implies r[i].mtime.key()
            <= r[j].mtime.key() by {
            if j == s.len() && i < s.len() - 1 {
                assert(s[i].mtime.key() <= s[s.len() - 1].mtime.key());
            }
        }
    } else {
        let front = s.drop_last();
        lemma_insert_dated(front, f);
        let inner = insert_dated(front, f);
        assert forall|k: int| 0 <= k < r.len() implies (#[trigger] r[k]) == f || s.contains(
            r[k],
        ) by {
            if k < inner.len() {
                assert(r[k] == inner[k]);
                if inner[k] != f {
                    let j = choose|j: int| 0 <= j < front.len() && front[j] == inner[k];
                    assert(s[j] == r[k]);
                }
            } else {
                assert(s[s.len() - 1] == r[k]);
            }
        }
        assert forall|i: int, j: int| 0 <= i < j < r.len() implies r[i].mtime.key()
            <= r[j].mtime.key() by {
            if j == inner.len() {
                assert(r[i] == inner[i]);
                if inner[i] != f {
                    let k = choose|k: int| 0 <= k < front.len() && front[k] == inner[i];
                    assert(s[k] == inner[i]);
                }
            } else {
                assert(r[i] == inner[i] && r[j] == inner[j]);
            }
        }
    }
}

/// Screenshots are numbered in the order in which they were taken, and each is an image that was
/// written while the session lasted.
pub proof fn screenshots_are_in_time_order(
    files: Seq<DatedView>,
    from: Measure,
    to: Measure,
    n: int,
)
    requires
        0 <= n <= files.len(),
    ensures
        in_time_order(session_files(files, from, to, n)),
        forall|i: int|
            0 <= i < session_files(files, from, to, n).len() ==> in_session(
                #[trigger] session_files(files, from, to, n)[i],
                from,
                to,
            ),
    decreases n,
{
    if n > 0 {
        screenshots_are_in_time_order(files, from, to, n - 1);
        let before = session_files(files, from, to, n - 1);
        if in_session(files[n - 1], from, to) {
            lemma_insert_dated(before, files[n - 1]);
            let now = session_files(files, from, to, n);
            assert forall|i: int| 0 <= i < now.len() implies in_session(
                #[trigger] now[i],
                from,
                to,
            ) by {
                if now[i] != files[n - 1] {
                    let k = choose|k: int| 0 <= k < before.len() && before[k] == now[i];
                    assert(in_session(before[k], from, to));
                }
            }
        }
    }
}

// ---------------------------------------------------------------------------------------------
// How they are named
// ---------------------------------------------------------------------------------------------

/// The name of a screenshot, without its extension.
pub open spec fn shot_stem(shot_id: nat) -> Seq<char> {
    "shot-"@ + padded_left(decimal(shot_id), '0', 3)
}

/// The name of a screenshot, without its extension.
pub fn shot_base(shot_id: u64) -> (r: String)
    ensures
        r@ == shot_stem(shot_id as nat),
{
    concat("shot-", pad_left(decimal_text(shot_id).as_str(), '0', 3).as_str())
}

/// The extension that a screenshot keeps, in lower case: `png` where it has none.
pub open spec fn kept_extension(name: Seq<char>) -> Seq<char> {
    match crate::images::extension(name) {
        Some(e) => ascii_lower(e),
        None => "png"@,
    }
}

/// The name under which a screenshot is kept.
pub open spec fn kept_name(shot_id: nat, source: Seq<char>) -> Seq<char> {
    shot_stem(shot_id) + "."@ + kept_extension(source)
}

/// A screenshot that is moved into a session.
pub struct ShotMove {
    pub shot_id: u64,
    pub dest_abs: String,
    pub dest_rel: String,
}

/// Where the screenshot at `index` is moved to. The first is numbered one above `start_index`.
pub fn shot_move(source_name: &str, target_dir: &str, start_index: u64, index: usize) -> (r: ShotMove)
    requires
        start_index + index < u64::MAX,
    ensures
        r.shot_id == start_index + index + 1,
        r.dest_abs@ == joined_path(
            target_dir@,
            kept_name((start_index + index + 1) as nat, source_name@),
        ),
        r.dest_rel@ == "screenshots/"@ + kept_name(
            (start_index + index + 1) as nat,
            source_name@,
        ),
{
    let shot_id: u64 = start_index + index as u64 + 1;
    let ext: String = match extension_of(source_name) {
        Some(e) => to_ascii_lower(e.as_str()),
        None => "png".to_owned(),
    };
    let name = concat3(shot_base(shot_id).as_str(), ".", ext.as_str());
    ShotMove {
        shot_id,
        dest_abs: join_path(target_dir, name.as_str()),
        dest_rel: concat("screenshots/", name.as_str()),
    }
}

/// The event of a screenshot that was moved into a session.
pub open spec fn moved_tree(
    ts: Seq<char>,
    m: ShotMove,
    source: Seq<char>,
    audio_sec: NumberView,
    mtime_epoch: NumberView,
) -> Tree {
    Tree::Object(object_of(moved_pairs(ts, m, source, audio_sec, mtime_epoch)))
}

/// What the event of a screenshot that was moved into a session says.
pub open spec fn moved_pairs(
    ts: Seq<char>,
    m: ShotMove,
    source: Seq<char>,
    audio_sec: NumberView,
    mtime_epoch: NumberView,
) -> Seq<(Seq<char>, Tree)> {
    seq![
        ("ts"@, Tree::Text(ts)),
        ("type"@, Tree::Text("screenshot_moved"@)),
        ("id"@, count_tree(m.shot_id as nat)),
        ("source"@, Tree::Text(source)),
        ("dest"@, Tree::Text(m.dest_rel@)),
        ("audioSec"@, Tree::Number(audio_sec)),
        ("mtime_epoch"@, Tree::Number(mtime_epoch)),
    ]
}

/// A screenshot that was moved into a session is read back from its event: with its number, its
/// file and its time.
pub proof fn moved_shots_read_back(
    ts: Seq<char>,
    m: ShotMove,
    source: Seq<char>,
    audio_sec: NumberView,
    mtime_epoch: NumberView,
)
    ensures
        shot_of(moved_tree(ts, m, source, audio_sec, mtime_epoch)) == Some(
            plain_view(m.shot_id, m.dest_rel@, quantity_of(audio_sec)),
        ),
{
    let pairs = moved_pairs(ts, m, source, audio_sec, mtime_epoch);
    reveal_strlit("ts");
    assert("ts"@.len() == 2);
    reveal_strlit("type");
    assert("type"@.len() == 4);
    reveal_strlit("id");
    assert("id"@.len() == 2);
    reveal_strlit("source");
    assert("source"@.len() == 6);
    reveal_strlit("dest");
    assert("dest"@.len() == 4);
    reveal_strlit("audioSec");
    assert("audioSec"@.len() == 8);
    reveal_strlit("mtime_epoch");
    assert("mtime_epoch"@.len() == 11);
    reveal_strlit("app");
    assert("app"@.len() == 3);
    reveal_strlit("app_capture_error");
    assert("app_capture_error"@.len() == 17);
    reveal_strlit("process");
    assert("process"@.len() == 7);
    reveal_strlit("process_capture_error");
    assert("process_capture_error"@.len() == 21);
    assert("id"@[0] == 'i' && "ts"@[0] == 't');
    assert("type"@[0] == 't' && "dest"@[0] == 'd');
    pairs_read_back(pairs, 1);
    pairs_read_back(pairs, 2);
    pairs_read_back(pairs, 4);
    pairs_read_back(pairs, 5);
    only_pairs_read_back(pairs, "app"@);
    only_pairs_read_back(pairs, "app_capture_error"@);
    only_pairs_read_back(pairs, "process"@);
    only_pairs_read_back(pairs, "process_capture_error"@);
}

/// The event of a screenshot that was moved into a session. The seconds are rounded to
/// milliseconds.
pub fn shot_moved_event(
    ts: &str,
    m: &ShotMove,
    source: &str,
    audio_sec: &Number,
    mtime_epoch: &Number,
) -> (r: Json)
    ensures
        r@ == moved_tree(ts@, *m, source@, audio_sec@, mtime_epoch@),
{
    let mut p = Pairs::new();
    p.text("ts", ts);
    p.text("type", "screenshot_moved");
    p.count("id", m.shot_id);
    p.text("source", source);
    p.text("dest", m.dest_rel.as_str());
    p.number("audioSec", audio_sec);
    p.number("mtime_epoch", mtime_epoch);
    assert(p@ == moved_pairs(ts@, *m, source@, audio_sec@, mtime_epoch@));
    p.object()
}

/// What is said of a screenshot that would be moved into a session.
pub fn dry_move_text(source: &str, m: &ShotMove) -> (r: String)
    ensures
        r@ == "[dry-run] Would copy "@ + source@ + " -> "@ + m.dest_abs@ + " and delete source"@,
{
    let mut out = concat3("[dry-run] Would copy ", source, " -> ");
    out.append(m.dest_abs.as_str());
    out.append(" and delete source");
    out
}

/// What is kept of a screenshot that was moved into a session.
pub fn moved_shot(m: &ShotMove, audio_sec: Number) -> (r: ShotMeta)
    ensures
        r@ == plain_view(m.shot_id, m.dest_rel@, audio_sec@),
{
    plain_shot(m.shot_id, m.dest_rel.as_str(), audio_sec)
}

// ---------------------------------------------------------------------------------------------
// The pictures that are made of them
// ---------------------------------------------------------------------------------------------

/// The pictures that are made of a screenshot, by their ids.
pub const MODULE_IDS: [&'static str; 4] = ["original", "framed", "enhanced", "polaroid"];

/// The pictures that are made of a screenshot, by their names.
pub const MODULE_NAMES: [&'static str; 4] = ["Original", "Framed", "Enhanced", "Polaroid"];

/// A picture that was made of a screenshot.
#[derive(Debug)]
pub struct ShotOutputVariant {
    pub module_id: String,
    pub module_name: String,
    pub rel_url: String,
    pub abs_path: String,
}

/// The name of a picture that is made of a screenshot.
pub open spec fn variant_name(shot_id: nat, module: Seq<char>) -> Seq<char> {
    shot_stem(shot_id) + "__"@ + module + ".png"@
}

/// The name of a picture that is made of a screenshot.
pub fn variant_file(shot_id: u64, module: &str) -> (r: String)
    ensures
        r@ == variant_name(shot_id as nat, module@),
{
    let head = concat3(shot_base(shot_id).as_str(), "__", module);
    concat(head.as_str(), ".png")
}

/// The directory of the pictures that are made of screenshots.
pub open spec fn derived_of(session_dir: Seq<char>) -> Seq<char> {
    joined_path(joined_path(session_dir, "screenshots"@), "derived"@)
}

/// The directory of the pictures that are made of screenshots.
pub fn derived_dir(session_dir: &str) -> (r: String)
    ensures
        r@ == derived_of(session_dir@),
{
    join_path(join_path(session_dir, "screenshots").as_str(), "derived")
}

/// A picture that is made of a screenshot: where it is kept, and how a page refers to it.
pub fn shot_variant(session_dir: &str, shot_id: u64, module_id: &str, module_name: &str) -> (r:
    ShotOutputVariant)
    ensures
        r.module_id@ == module_id@,
        r.module_name@ == module_name@,
        r.rel_url@ == "screenshots/derived/"@ + variant_name(shot_id as nat, module_id@),
        r.abs_path@ == joined_path(
            derived_of(session_dir@),
            variant_name(shot_id as nat, module_id@),
        ),
{
    let name = variant_file(shot_id, module_id);
    ShotOutputVariant {
        module_id: module_id.to_owned(),
        module_name: module_name.to_owned(),
        rel_url: concat("screenshots/derived/", name.as_str()),
        abs_path: join_path(derived_dir(session_dir).as_str(), name.as_str()),
    }
}

/// A picture: four bytes for each point, row by row.
pub struct Raster {
    pub width: u32,
    pub height: u32,
    pub pixels: Vec<u8>,
}

/// Where a channel of a point stands.
pub open spec fn channel_at(width: u32, x: int, y: int, c: int) -> int {
    4 * (y * width + x) + c
}

impl Raster {
    /// Whether there are as many bytes as the size asks for.
    pub open spec fn wf(self) -> bool {
        self.pixels@.len() == 4 * (self.width * self.height)
    }

    /// A channel of a point.
    pub open spec fn channel(self, x: int, y: int, c: int) -> u8 {
        self.pixels@[channel_at(self.width, x, y, c)]
    }
}

/// The bytes of a picture that is laid over another.
pub uninterp spec fn overlaid(
    bottom: Seq<u8>,
    bottom_width: u32,
    bottom_height: u32,
    top: Seq<u8>,
    top_width: u32,
    top_height: u32,
    x: i64,
    y: i64,
) -> Seq<u8>;

/// `image::imageops::overlay`, on pictures with an alpha channel: the result depends on the two
/// pictures and the place alone. Points beside the upper picture, and those where it is
/// transparent, stay as they are; where it is opaque its own point stands.
#[verifier::external_body]
fn overlay(bottom: Raster, top: &Raster, x: i64, y: i64) -> (r: Raster)
    requires
        bottom.wf(),
        top.wf(),
        0 <= x,
        0 <= y,
        x + top.width <= bottom.width,
        y + top.height <= bottom.height,
        4 * bottom.width <= usize::MAX,
        4 * top.width <= usize::MAX,
    ensures
        r.width == bottom.width,
        r.height == bottom.height,
        r.wf(),
        r.pixels@ == overlaid(
            bottom.pixels@,
            bottom.width,
            bottom.height,
            top.pixels@,
            top.width,
            top.height,
            x,
            y,
        ),
        forall|i: int, j: int, c: int|
            #![trigger r.channel(i, j, c)]
            0 <= i < r.width && 0 <= j < r.height && 0 <= c < 4 ==> {
                let over = x <= i < x + top.width && y <= j < y + top.height;
                &&& !over || top.channel(i - x, j - y, 3) == 0 ==> r.channel(i, j, c)
                    == bottom.channel(i, j, c)
                &&& over && top.channel(i - x, j - y, 3) == 255 ==> r.channel(i, j, c)
                    == top.channel(i - x, j - y, c)
            },
{
    let (width, height) = (bottom.width, bottom.height);
    let mut out = image::RgbaImage::from_raw(width, height, bottom.pixels).unwrap();
    let over = image::RgbaImage::from_raw(top.width, top.height, top.pixels.clone()).unwrap();
    image::imageops::overlay(&mut out, &over, x, y);
    Raster { width, height, pixels: out.into_raw() }
}

/// The colour of a frame, by channel.
pub open spec fn frame_channel(c: int) -> u8 {
    if c == 0 {
        236
    } else if c == 1 {
        241
    } else if c == 2 {
        248
    } else {
        255
    }
}

/// The bytes of a picture in the colour of a frame.
pub open spec fn frame_bytes(len: nat) -> Seq<u8> {
    Seq::new(len, |i: int| frame_channel(i % 4))
}

/// A picture in the colour of a frame.
fn frame_canvas(width: u32, height: u32) -> (r: Raster)
    requires
        4 * (width * height) <= usize::MAX,
    ensures
        r.wf(),
        r.width == width,
        r.height == height,
        r.pixels@ == frame_bytes((4 * (width * height)) as nat),
{
    let points: u64 = width as u64 * height as u64;
    assert(width * height <= 0xffff_fffe_0000_0001) by (nonlinear_arith)
        requires
            0 <= width <= 0xffff_ffff,
            0 <= height <= 0xffff_ffff,
    ;
    let mut pixels: Vec<u8> = Vec::new();
    let mut i: u64 = 0;
    while i < points
        invariant
            i <= points,
            points == width * height,
            4 * points <= usize::MAX,
            pixels@.len() == 4 * i,
            forall|k: int| 0 <= k < 4 * i ==> #[trigger] pixels@[k] == frame_channel(k % 4),
        decreases points - i,
    {
        pixels.push(236);
        pixels.push(241);
        pixels.push(248);
        pixels.push(255);
        i = i + 1;
    }
    assert(pixels@ =~= frame_bytes((4 * (width * height)) as nat));
    Raster { width, height, pixels }
}

proof fn lemma_channel_in_range(width: u32, height: u32, x: int, y: int, c: int)
    requires
        0 <= x < width,
        0 <= y < height,
        0 <= c < 4,
    ensures
        0 <= channel_at(width, x, y, c) < 4 * (width * height),
        channel_at(width, x, y, c) % 4 == c,
{
    assert(0 <= y * width + x < width * height) by (nonlinear_arith)
        requires
            0 <= x < width,
            0 <= y < height,
    ;
}

/// A picture in a frame. The frame is `border` wide on every side, and opaque points of the picture
/// stay as they are.
pub fn framed(img: &Raster, border: u32) -> (r: Raster)
    requires
        img.wf(),
        img.width + 2 * border <= u32::MAX,
        img.height + 2 * border <= u32::MAX,
        4 * ((img.width + 2 * border) * (img.height + 2 * border)) <= usize::MAX,
        4 * (img.width + 2 * border) <= usize::MAX,
    ensures
        r.wf(),
        r.width == img.width + 2 * border,
        r.height == img.height + 2 * border,
        r.pixels@ == overlaid(
            frame_bytes((4 * (r.width * r.height)) as nat),
            r.width,
            r.height,
            img.pixels@,
            img.width,
            img.height,
            border as i64,
            border as i64,
        ),
        forall|i: int, j: int, c: int|
            #![trigger r.channel(i, j, c)]
            0 <= i < r.width && 0 <= j < r.height && 0 <= c < 4 ==> {
                let inside = border <= i < border + img.width && border <= j < border + img.height;
                &&& !inside ==> r.channel(i, j, c) == frame_channel(c)
                &&& inside && img.channel(i - border, j - border, 3) == 255 ==> r.channel(i, j, c)
                    == img.channel(i - border, j - border, c)
            },
{
    let width: u32 = img.width + 2 * border;
    let height: u32 = img.height + 2 * border;
    let canvas = frame_canvas(width, height);
    let ghost under = canvas;
    let r = overlay(canvas, img, border as i64, border as i64);
    proof {
        assert forall|i: int, j: int, c: int|
            #![trigger r.channel(i, j, c)]
            0 <= i < r.width && 0 <= j < r.height && 0 <= c < 4 implies {
            let inside = border <= i < border + img.width && border <= j < border + img.height;
            &&& !inside ==> r.channel(i, j, c) == frame_channel(c)
            &&& inside && img.channel(i - border, j - border, 3) == 255 ==> r.channel(i, j, c)
                == img.channel(i - border, j - border, c)
        } by {
            lemma_channel_in_range(width, height, i, j, c);
            assert(under.channel(i, j, c) == frame_channel(c));
        }
    }
    r
}

// ---------------------------------------------------------------------------------------------
// The picture that a transcript uses
// ---------------------------------------------------------------------------------------------

/// The screenshot with this id, where there is one.
pub open spec fn shot_with_id(shots: Seq<ShotMeta>, id: u64, i: int) -> Option<int>
    decreases shots.len() - i,
{
    if i < 0 || i >= shots.len() {
        None
    } else if shots[i].shot_id == id {
        Some(i)
    } else {
        shot_with_id(shots, id, i + 1)
    }
}

/// The place of the screenshot with this id.
pub fn find_shot(shots: &Vec<ShotMeta>, shot_id: u64, session_id: &str) -> (r: Result<
    usize,
    AppError,
>)
    ensures
        match shot_with_id(shots@, shot_id, 0) {
            Some(i) => r matches Ok(k) && k == i && k < shots@.len(),
            None => r matches Err(e) && e.code == 8 && e.message@ == "Screenshot id "@ + decimal(
                shot_id as nat,
            ) + " not found in session "@ + session_id@,
        },
{
    let mut i: usize = 0;
    while i < shots.len()
        invariant
            i <= shots.len(),
            shot_with_id(shots@, shot_id, 0) == shot_with_id(shots@, shot_id, i as int),
        decreases shots.len() - i,
    {
        if shots[i].shot_id == shot_id {
            return Ok(i);
        }
        i = i + 1;
    }
    let mut m = concat3(
        "Screenshot id ",
        decimal_text(shot_id).as_str(),
        " not found in session ",
    );
    m.append(session_id);
    Err(app_error(8, m.as_str()))
}

/// The name under which a screenshot is kept as it was.
pub open spec fn backup_of(name: Seq<char>) -> Seq<char> {
    crate::images::stem(name) + "__original."@ + match crate::images::extension(name) {
        Some(e) => e,
        None => "png"@,
    }
}

/// The name under which a screenshot is kept as it was.
pub fn backup_name(name: &str) -> (r: String)
    ensures
        r@ == backup_of(name@),
{
    let ext: String = match extension_of(name) {
        Some(e) => e,
        None => "png".to_owned(),
    };
    concat3(stem_of(name).as_str(), "__original.", ext.as_str())
}

/// A module as it is asked for: trimmed, in lower case.
pub fn normalize_module(module: &str) -> (r: String)
    ensures
        r@ == ascii_lower(trimmed(module@)),
{
    to_ascii_lower(trim(module).as_str())
}

/// The picture that is put in the place of a screenshot: the screenshot as it was, or one that was
/// made of it.
pub open spec fn source_of(
    session_dir: Seq<char>,
    backup_path: Seq<char>,
    shot_id: nat,
    module: Seq<char>,
) -> Seq<char> {
    if module == "original"@ {
        backup_path
    } else {
        joined_path(derived_of(session_dir), variant_name(shot_id, module))
    }
}

/// The picture that is put in the place of a screenshot: the screenshot as it was, or one that was
/// made of it.
pub fn module_source(session_dir: &str, backup_path: &str, shot_id: u64, module: &str) -> (r: String)
    ensures
        r@ == source_of(session_dir@, backup_path@, shot_id as nat, module@),
{
    if same(module, "original") {
        backup_path.to_owned()
    } else {
        join_path(
            derived_dir(session_dir).as_str(),
            variant_file(shot_id, module).as_str(),
        )
    }
}

/// A step of putting a picture in the place of a screenshot.
#[derive(PartialEq, Eq, Debug)]
pub enum UseStep {
    /// The first file is copied to the second.
    Copy(String, String),
    /// The pictures are made again, where this one is not there.
    MakeUnless(String),
    /// This picture has to be there.
    Require(String),
}

/// The model of a step.
pub enum UseView {
    Copy(Seq<char>, Seq<char>),
    MakeUnless(Seq<char>),
    Require(Seq<char>),
}

impl View for UseStep {
    type V = UseView;

    open spec fn view(&self) -> UseView {
        match self {
            UseStep::Copy(a, b) => UseView::Copy(a@, b@),
            UseStep::MakeUnless(a) => UseView::MakeUnless(a@),
            UseStep::Require(a) => UseView::Require(a@),
        }
    }
}

/// The models of steps.
pub open spec fn use_views(steps: Seq<UseStep>) -> Seq<UseView> {
    steps.map_values(|s: UseStep| s@)
}

/// The steps of putting `source` in the place of `target`. The screenshot as it was is kept first,
/// where it was not kept before.
pub open spec fn use_steps(
    target: Seq<char>,
    backup: Seq<char>,
    source: Seq<char>,
    backup_there: bool,
) -> Seq<UseView> {
    let keep = if backup_there {
        Seq::empty()
    } else {
        seq![UseView::Copy(target, backup)]
    };
    keep + seq![
        UseView::MakeUnless(source),
        UseView::Require(source),
        UseView::Copy(source, target),
    ]
}

/// The steps of putting a picture in the place of a screenshot, in their order.
pub fn use_plan(
    session_dir: &str,
    target: &str,
    backup: &str,
    shot_id: u64,
    module: &str,
    backup_there: bool,
) -> (r: Vec<UseStep>)
    ensures
        use_views(r@) == use_steps(
            target@,
            backup@,
            source_of(session_dir@, backup@, shot_id as nat, module@),
            backup_there,
        ),
{
    let source = module_source(session_dir, backup, shot_id, module);
    let mut out: Vec<UseStep> = Vec::new();
    if !backup_there {
        out.push(UseStep::Copy(target.to_owned(), backup.to_owned()));
    }
    out.push(UseStep::MakeUnless(source.clone()));
    out.push(UseStep::Require(source.clone()));
    out.push(UseStep::Copy(source, target.to_owned()));
    assert(use_views(out@) =~= use_steps(
        target@,
        backup@,
        source_of(session_dir@, backup@, shot_id as nat, module@),
        backup_there,
    ));
    out
}

/// The files after a step, and whether it succeeds: one that fails leaves them as they are. `made`
/// are the pictures that are made where some are.
pub open spec fn after_use_step(
    files: Map<Seq<char>, Seq<u8>>,
    step: UseView,
    made: Map<Seq<char>, Seq<u8>>,
) -> (Map<Seq<char>, Seq<u8>>, bool) {
    match step {
        UseView::Copy(from, to) => if files.contains_key(from) {
            (files.insert(to, files[from]), true)
        } else {
            (files, false)
        },
        UseView::MakeUnless(path) => if files.contains_key(path) {
            (files, true)
        } else {
            (files.union_prefer_right(made), true)
        },
        UseView::Require(path) => (files, files.contains_key(path)),
    }
}

/// The files after steps, and whether all succeed. Behind one that fails none is taken.
pub open spec fn after_use_steps(
    files: Map<Seq<char>, Seq<u8>>,
    steps: Seq<UseView>,
    made: Map<Seq<char>, Seq<u8>>,
) -> (Map<Seq<char>, Seq<u8>>, bool)
    decreases steps.len(),
{
    if steps.len() == 0 {
        (files, true)
    } else {
        let before = after_use_steps(files, steps.drop_last(), made);
        if before.1 {
            after_use_step(before.0, steps.last(), made)
        } else {
            before
        }
    }
}

/// A picture that is chosen for a screenshot, and the pictures that are made then, where some are.
pub struct Choice {
    pub source: Seq<char>,
    pub made: Map<Seq<char>, Seq<u8>>,
}

/// The files after a choice, and whether it succeeds.
pub open spec fn after_choice(
    files: Map<Seq<char>, Seq<u8>>,
    target: Seq<char>,
    backup: Seq<char>,
    choice: Choice,
) -> (Map<Seq<char>, Seq<u8>>, bool) {
    after_use_steps(
        files,
        use_steps(target, backup, choice.source, files.contains_key(backup)),
        choice.made,
    )
}

/// The files after choices, one after the other, whether they succeed or not.
pub open spec fn after_choices(
    files: Map<Seq<char>, Seq<u8>>,
    target: Seq<char>,
    backup: Seq<char>,
    choices: Seq<Choice>,
) -> Map<Seq<char>, Seq<u8>>
    decreases choices.len(),
{
    if choices.len() == 0 {
        files
    } else {
        after_choice(
            after_choices(files, target, backup, choices.drop_last()),
            target,
            backup,
            choices.last(),
        ).0
    }
}

proof fn lemma_after_choice(
    files: Map<Seq<char>, Seq<u8>>,
    target: Seq<char>,
    backup: Seq<char>,
    choice: Choice,
)
    requires
        files.contains_key(target),
        target != backup,
        !choice.made.contains_key(target),
        !choice.made.contains_key(backup),
    ensures
        ({
            let (f, ok) = after_choice(files, target, backup, choice);
            &&& f.contains_key(target)
            &&& f.contains_key(backup)
            &&& f[backup] == if files.contains_key(backup) {
                files[backup]
            } else {
                files[target]
            }
            &&& choice.source == backup ==> ok && f[target] == f[backup]
            &&& files.contains_key(choice.source) && choice.source != backup && choice.source
                != target ==> ok && f[target] == files[choice.source] && f[choice.source]
                == files[choice.source]
        }),
{
    reveal_with_fuel(after_use_steps, 5);
    let there = files.contains_key(backup);
    let steps = use_steps(target, backup, choice.source, there);
    let tail = seq![
        UseView::MakeUnless(choice.source),
        UseView::Require(choice.source),
        UseView::Copy(choice.source, target),
    ];
    if there {
        assert(steps =~= tail);
        assert(steps.drop_last() =~= seq![tail[0], tail[1]]);
        assert(steps.drop_last().drop_last() =~= seq![tail[0]]);
        assert(steps.drop_last().drop_last().drop_last() =~= Seq::empty());
    } else {
        let keep = UseView::Copy(target, backup);
        assert(steps =~= seq![keep, tail[0], tail[1], tail[2]]);
        assert(steps.drop_last() =~= seq![keep, tail[0], tail[1]]);
        assert(steps.drop_last().drop_last() =~= seq![keep, tail[0]]);
        assert(steps.drop_last().drop_last().drop_last() =~= seq![keep]);
        assert(steps.drop_last().drop_last().drop_last().drop_last() =~= Seq::empty());
    }
}

/// A picture that is there is put in the place of a screenshot byte for byte, and stays. What the
/// screenshot was before the first choice is kept.
pub proof fn chosen_pictures_are_put(
    files: Map<Seq<char>, Seq<u8>>,
    target: Seq<char>,
    backup: Seq<char>,
    choice: Choice,
)
    requires
        files.contains_key(target),
        files.contains_key(choice.source),
        target != backup,
        choice.source != target,
        choice.source != backup,
        !choice.made.contains_key(target),
        !choice.made.contains_key(backup),
    ensures
        ({
            let (f, ok) = after_choice(files, target, backup, choice);
            &&& ok
            &&& f[target] == files[choice.source]
            &&& f[choice.source] == files[choice.source]
            &&& f[backup] == if files.contains_key(backup) {
                files[backup]
            } else {
                files[target]
            }
        }),
{
    lemma_after_choice(files, target, backup, choice);
}

/// The screenshot as it was comes back, whatever was chosen in between: it is kept once, with the
/// first choice, and choosing it again puts it back byte for byte. The pictures that are made in
/// between are other files.
pub proof fn originals_come_back(
    files: Map<Seq<char>, Seq<u8>>,
    target: Seq<char>,
    backup: Seq<char>,
    choices: Seq<Choice>,
    last: Choice,
)
    requires
        files.contains_key(target),
        !files.contains_key(backup),
        target != backup,
        forall|i: int|
            0 <= i < choices.len() ==> !(#[trigger] choices[i]).made.contains_key(target)
                && !choices[i].made.contains_key(backup),
        !last.made.contains_key(target),
        !last.made.contains_key(backup),
        last.source == backup,
    ensures
        ({
            let f = after_choices(files, target, backup, choices);
            let (g, ok) = after_choice(f, target, backup, last);
            &&& choices.len() > 0 ==> f[backup] == files[target]
            &&& ok
            &&& g[target] == files[target]
            &&& g[backup] == files[target]
        }),
{
    lemma_after_choices(files, target, backup, choices);
    lemma_after_choice(after_choices(files, target, backup, choices), target, backup, last);
}

proof fn lemma_after_choices(
    files: Map<Seq<char>, Seq<u8>>,
    target: Seq<char>,
    backup: Seq<char>,
    choices: Seq<Choice>,
)
    requires
        files.contains_key(target),
        !files.contains_key(backup),
        target != backup,
        forall|i: int|
            0 <= i < choices.len() ==> !(#[trigger] choices[i]).made.contains_key(target)
                && !choices[i].made.contains_key(backup),
    ensures
        ({
            let f = after_choices(files, target, backup, choices);
            &&& f.contains_key(target)
            &&& choices.len() == 0 ==> f == files
            &&& choices.len() > 0 ==> f.contains_key(backup) && f[backup] == files[target]
        }),
    decreases choices.len(),
{
    if choices.len() > 0 {
        let before = choices.drop_last();
        assert forall|i: int| 0 <= i < before.len() implies !(#[trigger] before[i]).made.contains_key(
            target,
        ) && !before[i].made.contains_key(backup) by {
            assert(before[i] == choices[i]);
        }
        lemma_after_choices(files, target, backup, before);
        assert(choices.last() == choices[choices.len() - 1]);
        lemma_after_choice(
            after_choices(files, target, backup, before),
            target,
            backup,
            choices.last(),
        );
    }
}

/// A screenshot is kept under another name than its own.
pub proof fn backups_are_other_files(name: Seq<char>)
    ensures
        backup_of(name) != name,
{
    reveal_strlit("__original.");
    reveal_strlit("png");
    lemma_rfind(name, '.');
}

/// The error where a picture that is asked for is not there.
pub fn missing_module_error(module: &str, shot_id: u64, source_path: &str) -> (r: AppError)
    ensures
        r.code == 8,
        r.message@ == "Derived screenshot module '"@ + module@ + "' not found for shot "@ + decimal(
            shot_id as nat,
        ) + " (expected: "@ + source_path@ + ")"@,
{
    let mut m = concat3("Derived screenshot module '", module, "' not found for shot ");
    m.append(decimal_text(shot_id).as_str());
    m.append(" (expected: ");
    m.append(source_path);
    m.append(")");
    app_error(8, m.as_str())
}

/// What could not be done where a file was not copied: to keep the screenshot as it was, or to put a
/// picture in its place.
pub fn copy_error_text(from: &str, to: &str, backup: &str) -> (r: String)
    ensures
        r@ == if to@ == backup@ {
            "Failed to create original backup "@ + to@
        } else {
            "Failed to copy source image "@ + from@ + " -> "@ + to@
        },
{
    if same(to, backup) {
        concat("Failed to create original backup ", to)
    } else {
        let mut m = concat3("Failed to copy source image ", from, " -> ");
        m.append(to);
        m
    }
}

/// The error where a screenshot of the transcript is not there.
pub fn missing_target_error(target_path: &str) -> (r: AppError)
    ensures
        r.code == 8,
        r.message@ == "Transcript screenshot path missing: "@ + target_path@,
{
    app_error(8, concat("Transcript screenshot path missing: ", target_path).as_str())
}

/// What is said of a picture that was put in the place of a screenshot.
pub fn screenshot_use_text(shot_id: u64, module: &str, target_path: &str, backup_path: &str) -> (r:
    String)
    ensures
        r@ == "Set screenshot "@ + decimal(shot_id as nat) + " module '"@ + module@
            + "' as transcript image\npath: "@ + target_path@ + "\nbackup: "@ + backup_path@,
{
    let mut out = concat3("Set screenshot ", decimal_text(shot_id).as_str(), " module '");
    out.append(module);
    out.append("' as transcript image\npath: ");
    out.append(target_path);
    out.append("\nbackup: ");
    out.append(backup_path);
    out
}

/// What is reported of a picture that was put in the place of a screenshot.
pub fn screenshot_use_report(
    session_id: &str,
    shot_id: u64,
    module: &str,
    target_path: &str,
    backup_path: &str,
    source_path: &str,
) -> (r: Json)
    ensures
        r@ == Tree::Object(
            object_of(
                seq![
                    ("ok"@, Tree::Bool(true)),
                    ("action"@, Tree::Text("screenshot_use"@)),
                    ("session_id"@, Tree::Text(session_id@)),
                    ("shot_id"@, count_tree(shot_id as nat)),
                    ("module"@, Tree::Text(module@)),
                    ("target_path"@, Tree::Text(target_path@)),
                    ("backup_path"@, Tree::Text(backup_path@)),
                    ("source_path"@, Tree::Text(source_path@)),
                ],
            ),
        ),
{
    let mut p = Pairs::new();
    p.flag("ok", true);
    p.text("action", "screenshot_use");
    p.text("session_id", session_id);
    p.count("shot_id", shot_id);
    p.text("module", module);
    p.text("target_path", target_path);
    p.text("backup_path", backup_path);
    p.text("source_path", source_path);
    assert(p@ == seq![
        ("ok"@, Tree::Bool(true)),
        ("action"@, Tree::Text("screenshot_use"@)),
        ("session_id"@, Tree::Text(session_id@)),
        ("shot_id"@, count_tree(shot_id as nat)),
        ("module"@, Tree::Text(module@)),
        ("target_path"@, Tree::Text(target_path@)),
        ("backup_path"@, Tree::Text(backup_path@)),
        ("source_path"@, Tree::Text(source_path@)),
    ]);
    p.object()
}

/// What the event stream is told of a variant that was chosen.
pub fn screenshot_variant_selected(shot_id: u64, module: &str, target_path: &str) -> (r: Json)
    ensures
        r@ == Tree::Object(
            object_of(
                seq![
                    ("shot_id"@, count_tree(shot_id as nat)),
                    ("module"@, Tree::Text(module@)),
                    ("target_path"@, Tree::Text(target_path@)),
                ],
            ),
        ),
{
    let mut p = Pairs::new();
    p.count("shot_id", shot_id as u64);
    p.text("module", module);
    p.text("target_path", target_path);
    assert(p@ == seq![
        ("shot_id"@, count_tree(shot_id as nat)),
        ("module"@, Tree::Text(module@)),
        ("target_path"@, Tree::Text(target_path@)),
    ]);
    p.object()
}

// ---------------------------------------------------------------------------------------------
// Which files are taken, and what they are called
// ---------------------------------------------------------------------------------------------

/// A tilde at the start of a path stands for the home directory, and nowhere else.
pub proof fn tildes_stand_for_home(rest: Seq<char>, path: Seq<char>, home: Seq<char>)
    ensures
        expanded("~"@, home) == home,
        expanded("~/"@ + rest, home) == joined_path(home, rest),
        path.len() > 0 && path[0] != '~' ==> expanded(path, home) == path,
        path.len() > 1 && path[1] != '/' ==> expanded(path, home) == path,
        expanded(Seq::empty(), home) == Seq::<char>::empty(),
{
    reveal_strlit("~");
    reveal_strlit("~/");
    let p = "~/"@ + rest;
    assert(p.len() >= 2 && "~"@.len() == 1);
    assert(p.subrange(0, 2) =~= "~/"@);
    assert(p.subrange(2, p.len() as int) =~= rest);
    if "~/"@.is_prefix_of(path) {
        assert(path.subrange(0, 2) == "~/"@);
        assert(path[0] == path.subrange(0, 2)[0] && path[1] == path.subrange(0, 2)[1]);
    }
}

/// Every image that was written while a session lasted is one of its screenshots, once, and no other
/// file is.
pub proof fn every_screenshot_is_taken(
    files: Seq<DatedView>,
    from: Measure,
    to: Measure,
    n: int,
)
    requires
        0 <= n <= files.len(),
    ensures
        session_files(files, from, to, n).to_multiset() == files.subrange(0, n).filter(
            |f: DatedView| is_image(f.name) && from.key() <= f.mtime.key() && f.mtime.key()
                <= to.key(),
        ).to_multiset(),
    decreases n,
{
    broadcast use vstd::seq_lib::group_to_multiset_ensures;

    reveal(Seq::filter);
    let p = |f: DatedView|
        is_image(f.name) && from.key() <= f.mtime.key() && f.mtime.key() <= to.key();
    if n > 0 {
        every_screenshot_is_taken(files, from, to, n - 1);
        let all = files.subrange(0, n);
        assert(all.drop_last() =~= files.subrange(0, n - 1));
        assert(all.last() == files[n - 1]);
        if in_session(files[n - 1], from, to) {
            lemma_insert_dated_adds(session_files(files, from, to, n - 1), files[n - 1]);
        }
    } else {
        assert(files.subrange(0, 0) =~= Seq::empty());
        assert(files.subrange(0, 0).filter(p) =~= Seq::empty());
        assert(session_files(files, from, to, 0) =~= Seq::empty());
    }
}

proof fn lemma_insert_dated_adds(s: Seq<DatedView>, f: DatedView)
    ensures
        insert_dated(s, f).to_multiset() == s.to_multiset().insert(f),
    decreases s.len(),
{
    broadcast use vstd::seq_lib::group_to_multiset_ensures;

    if s.len() > 0 && s.last().mtime.key() > f.mtime.key() {
        lemma_insert_dated_adds(s.drop_last(), f);
        assert(s =~= s.drop_last().push(s.last()));
        assert(insert_dated(s, f).to_multiset() =~= s.to_multiset().insert(f));
    }
}

/// A screenshot is kept under its number, with three digits at least, and its own extension in small
/// letters; as it was it is kept beside that, under a name that says so.
pub proof fn kept_names_number_the_screenshots(id: nat, front: Seq<char>, ext: Seq<char>)
    requires
        front.len() > 0,
        !ext.contains('.'),
    ensures
        kept_name(id, front + seq!['.'] + ext) == "shot-"@ + padded_left(decimal(id), '0', 3) + "."@
            + ascii_lower(ext),
        kept_name(id, ext) == "shot-"@ + padded_left(decimal(id), '0', 3) + "."@ + "png"@,
        backup_of(front + seq!['.'] + ext) == front + "__original."@ + ext,
        backup_of(ext) == ext + "__original."@ + "png"@,
{
    names_part_at_the_last_dot(front, ext);
}

/// The first screenshot with an id is the one that is found.
pub proof fn screenshots_are_found_by_id(shots: Seq<ShotMeta>, id: u64, at: int)
    requires
        0 <= at < shots.len(),
        shots[at].shot_id == id,
        forall|k: int| 0 <= k < at ==> (#[trigger] shots[k]).shot_id != id,
    ensures
        shot_with_id(shots, id, 0) == Some(at),
{
    lemma_shot_found(shots, id, 0, at);
}

proof fn lemma_shot_found(shots: Seq<ShotMeta>, id: u64, i: int, at: int)
    requires
        0 <= i <= at < shots.len(),
        shots[at].shot_id == id,
        forall|k: int| 0 <= k < at ==> (#[trigger] shots[k]).shot_id != id,
    ensures
        shot_with_id(shots, id, i) == Some(at),
    decreases at - i,
{
    if i < at {
        assert(shots[i].shot_id != id);
        lemma_shot_found(shots, id, i + 1, at);
    }
}

/// Where no screenshot has an id, none is found.
pub proof fn unknown_ids_are_not_found(shots: Seq<ShotMeta>, id: u64, i: int)
    requires
        0 <= i,
        forall|k: int| 0 <= k < shots.len() ==> (#[trigger] shots[k]).shot_id != id,
    ensures
        shot_with_id(shots, id, i) is None,
    decreases shots.len() - i,
{
    if i < shots.len() {
        assert(shots[i].shot_id != id);
        unknown_ids_are_not_found(shots, id, i + 1);
    }
}

/// The picture that is put is the screenshot as it was under its own name, and one that was made of it
/// under every other: such pictures lie among the derived ones, by number and module.
pub proof fn made_pictures_lie_among_the_derived(
    dir: Seq<char>,
    backup: Seq<char>,
    id: nat,
    module: Seq<char>,
)
    requires
        dir.len() > 0,
        !"/"@.is_suffix_of(dir),
    ensures
        source_of(dir, backup, id, "original"@) == backup,
        module != "original"@ ==> source_of(dir, backup, id, module) == dir + "/"@ + "screenshots"@
            + "/"@ + "derived"@ + "/"@ + ("shot-"@ + padded_left(decimal(id), '0', 3) + "__"@
            + module + ".png"@),
{
    reveal_strlit("/");
    reveal_strlit("screenshots");
    reveal_strlit("derived");
    reveal_strlit("shot-");
    let a = dir + "/"@ + "screenshots"@;
    let b = a + "/"@ + "derived"@;
    let v = variant_name(id, module);
    lemma_joined_inside(dir, "screenshots"@);
    assert(a[a.len() - 1] == 's');
    lemma_no_slash_at_the_end(a);
    lemma_joined_inside(a, "derived"@);
    assert(b[b.len() - 1] == 'd');
    lemma_no_slash_at_the_end(b);
    assert(v[0] == 's');
    lemma_joined_inside(b, v);
}

proof fn lemma_no_slash_at_the_end(s: Seq<char>)
    requires
        s.len() > 0,
        s[s.len() - 1] != '/',
    ensures
        !"/"@.is_suffix_of(s),
{
    reveal_strlit("/");
    if "/"@.is_suffix_of(s) {
        assert(s.subrange(s.len() - 1, s.len() as int)[0] == s[s.len() - 1]);
    }
}

proof fn lemma_joined_inside(dir: Seq<char>, rel: Seq<char>)
    requires
        dir.len() > 0,
        !"/"@.is_suffix_of(dir),
        rel.len() > 0,
        rel[0] != '/',
    ensures
        joined_path(dir, rel) == dir + "/"@ + rel,
{
    reveal_strlit("/");
    if "/"@.is_prefix_of(rel) {
        assert(rel.subrange(0, 1)[0] == rel[0]);
    }
}

/// A frame is of one opaque colour.
pub proof fn frames_have_one_colour(len: nat, i: int)
    requires
        0 <= i,
        4 * i + 3 < len,
    ensures
        frame_bytes(len)[4 * i] == 236,
        frame_bytes(len)[4 * i + 1] == 241,
        frame_bytes(len)[4 * i + 2] == 248,
        frame_bytes(len)[4 * i + 3] == 255,
        frame_bytes(len).len() == len,
{
}

/// The event of a screenshot that was moved says when, from where, and when it was made.
pub proof fn moved_shots_say_where_they_lay(
    ts: Seq<char>,
    m: ShotMove,
    source: Seq<char>,
    audio_sec: NumberView,
    mtime_epoch: NumberView,
)
    ensures
        ({
            let e = moved_tree(ts, m, source, audio_sec, mtime_epoch);
            &&& text_field(e, "ts"@) == Some(ts)
            &&& text_field(e, "type"@) == Some("screenshot_moved"@)
            &&& text_field(e, "source"@) == Some(source)
            &&& field(e, "mtime_epoch"@) == Some(Tree::Number(mtime_epoch))
        }),
{
    reveal_strlit("ts");
    reveal_strlit("type");
    reveal_strlit("id");
    reveal_strlit("source");
    reveal_strlit("dest");
    reveal_strlit("audioSec");
    reveal_strlit("mtime_epoch");
    assert("ts"@.len() == 2 && "ts"@[0] == 't' && "type"@.len() == 4 && "type"@[0] == 't');
    assert("id"@.len() == 2 && "id"@[0] == 'i' && "dest"@.len() == 4 && "dest"@[0] == 'd');
    assert("source"@.len() == 6 && "audioSec"@.len() == 8 && "mtime_epoch"@.len() == 11);
    let p = moved_pairs(ts, m, source, audio_sec, mtime_epoch);
    pairs_read_back(p, 0);
    pairs_read_back(p, 1);
    pairs_read_back(p, 3);
    pairs_read_back(p, 6);
}

/// A copy needs what is copied and puts it where it is to be; pictures are made where the one that is
/// wanted is missing; and what is required has to be there.
pub proof fn steps_do_what_they_say(
    files: Map<Seq<char>, Seq<u8>>,
    made: Map<Seq<char>, Seq<u8>>,
    a: Seq<char>,
    b: Seq<char>,
)
    ensures
        files.contains_key(a) ==> after_use_step(files, UseView::Copy(a, b), made) == (
            files.insert(b, files[a]),
            true,
        ),
        !files.contains_key(a) ==> after_use_step(files, UseView::Copy(a, b), made) == (
            files,
            false,
        ),
        files.contains_key(a) ==> after_use_step(files, UseView::MakeUnless(a), made) == (
            files,
            true,
        ),
        !files.contains_key(a) ==> after_use_step(files, UseView::MakeUnless(a), made) == (
            files.union_prefer_right(made),
            true,
        ),
        after_use_step(files, UseView::Require(a), made) == (files, files.contains_key(a)),
{
}

} // verus!
