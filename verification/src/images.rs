//! Image files by their names.

use vstd::prelude::*;

use crate::annotations::{shots_from_events, shots_of};
use crate::json::{
    item_views, key_order_is_total, key_order_is_transitive, precedes, Json, Number, NumberView,
};
use crate::models::{shot_views, ShotMeta, ShotView};
use crate::pattern::{rfind, rfind_char, views};
use crate::text::{ascii_lower, chars_of, concat, same, string_of, to_ascii_lower};
use crate::wire::quantity_of;

verus! {

/// The extension of a file name: what stands behind its last dot, unless that is its first
/// character.
pub open spec fn extension(name: Seq<char>) -> Option<Seq<char>> {
    match rfind(name, '.') {
        Some(i) => if i > 0 {
            Some(name.subrange(i + 1, name.len() as int))
        } else {
            None
        },
        None => None,
    }
}

/// The file name without its extension.
pub open spec fn stem(name: Seq<char>) -> Seq<char> {
    match rfind(name, '.') {
        Some(i) => if i > 0 {
            name.subrange(0, i)
        } else {
            name
        },
        None => name,
    }
}

/// The extensions of the images that are taken in.
pub open spec fn is_image_extension(ext: Seq<char>) -> bool {
    ||| ext == "png"@
    ||| ext == "jpg"@
    ||| ext == "jpeg"@
    ||| ext == "webp"@
    ||| ext == "tif"@
    ||| ext == "tiff"@
    ||| ext == "heic"@
    ||| ext == "heif"@
}

/// Whether a file is an image, by its name.
pub open spec fn is_image(name: Seq<char>) -> bool {
    extension(name) matches Some(e) && is_image_extension(ascii_lower(e))
}

/// The extension of a file name.
pub fn extension_of(name: &str) -> (r: Option<String>)
    ensures
        crate::json::opt_view(r) == extension(name@),
{
    let v = chars_of(name);
    let count: usize = v.len();
    match rfind_char(&v, '.') {
        Some(i) => if i > 0 {
            Some(string_of(&v, i + 1, count))
        } else {
            None
        },
        None => None,
    }
}

/// The file name without its extension.
pub fn stem_of(name: &str) -> (r: String)
    ensures
        r@ == stem(name@),
{
    let v = chars_of(name);
    match rfind_char(&v, '.') {
        Some(i) => if i > 0 {
            string_of(&v, 0, i)
        } else {
            name.to_owned()
        },
        None => name.to_owned(),
    }
}

/// Whether a file is an image, by its name.
pub fn is_image_name(name: &str) -> (r: bool)
    ensures
        r == is_image(name@),
{
    match extension_of(name) {
        Some(e) => {
            let l = to_ascii_lower(e.as_str());
            let s = l.as_str();
            same(s, "png") || same(s, "jpg") || same(s, "jpeg") || same(s, "webp") || same(
                s,
                "tif",
            ) || same(s, "tiff") || same(s, "heic") || same(s, "heif")
        },
        None => false,
    }
}

/// `s`, in order, with `name` put where the order puts it, behind names that are the same.
pub open spec fn insert_name(s: Seq<Seq<char>>, name: Seq<char>) -> Seq<Seq<char>>
    decreases s.len(),
{
    if s.len() == 0 || !precedes(name, s.last()) {
        s.push(name)
    } else {
        insert_name(s.drop_last(), name).push(s.last())
    }
}

/// The images among the first `n` names, in order.
pub open spec fn images_among(names: Seq<Seq<char>>, n: int) -> Seq<Seq<char>>
    decreases n,
{
    if n <= 0 {
        Seq::empty()
    } else if is_image(names[n - 1]) {
        insert_name(images_among(names, n - 1), names[n - 1])
    } else {
        images_among(names, n - 1)
    }
}

/// Puts `name` where the order puts it, behind names that are the same.
fn insert_sorted(v: &mut Vec<String>, name: &str)
    ensures
        views(final(v)@) == insert_name(views(old(v)@), name@),
{
    let ghost all = views(v@);
    let ghost orig = v@;
    let mut n: usize = v.len();
    assert(all.subrange(0, n as int) =~= all);
    assert(insert_name(all, name@) =~= insert_name(all, name@) + all.subrange(n as int, n as int));
    while n > 0 && crate::json::comes_before(name, v[n - 1].as_str())
        invariant
            n <= v.len(),
            v@ == orig,
            all == views(orig),
            insert_name(all, name@) == insert_name(all.subrange(0, n as int), name@)
                + all.subrange(n as int, all.len() as int),
        decreases n,
    {
        proof {
            let s = all.subrange(0, n as int);
            assert(s.last() == orig[n - 1]@);
            assert(s.drop_last() =~= all.subrange(0, n - 1));
            assert(insert_name(s.drop_last(), name@).push(s.last()) + all.subrange(
                n as int,
                all.len() as int,
            ) =~= insert_name(s.drop_last(), name@) + all.subrange(n - 1, all.len() as int));
        }
        n = n - 1;
    }
    proof {
        let s = all.subrange(0, n as int);
        if n > 0 {
            assert(s.last() == orig[n - 1]@);
        }
        assert(insert_name(s, name@) == s.push(name@));
        assert(s.push(name@) + all.subrange(n as int, all.len() as int) =~= all.insert(
            n as int,
            name@,
        ));
    }
    v.insert(n, name.to_owned());
    assert(views(v@) =~= all.insert(n as int, name@));
}

/// The images among file names, in order.
pub fn image_names(names: &Vec<String>) -> (r: Vec<String>)
    ensures
        views(r@) == images_among(views(names@), names@.len() as int),
{
    let ghost all = views(names@);
    let mut out: Vec<String> = Vec::new();
    let mut i: usize = 0;
    assert(views(out@) =~= Seq::empty());
    while i < names.len()
        invariant
            i <= names.len(),
            all == views(names@),
            views(out@) == images_among(all, i as int),
        decreases names.len() - i,
    {
        assert(all[i as int] == names@[i as int]@);
        if is_image_name(names[i].as_str()) {
            insert_sorted(&mut out, names[i].as_str());
        }
        i = i + 1;
    }
    out
}

/// Whether names are in ascending order.
pub open spec fn names_ascend(s: Seq<Seq<char>>) -> bool {
    forall|i: int, j: int| 0 <= i < j < s.len() ==> !precedes(s[j], s[i])
}

proof fn lemma_insert_name(s: Seq<Seq<char>>, name: Seq<char>)
    requires
        names_ascend(s),
    ensures
        names_ascend(insert_name(s, name)),
        forall|k: int|
            0 <= k < insert_name(s, name).len() ==> (#[trigger] insert_name(s, name)[k]) == name
                || s.contains(insert_name(s, name)[k]),
    decreases s.len(),
{
    let r = insert_name(s, name);
    if s.len() == 0 || !precedes(name, s.last()) {
        assert forall|k: int| 0 <= k < r.len() implies (#[trigger] r[k]) == name || s.contains(
            r[k],
        ) by {
            if k < s.len() {
                assert(s[k] == r[k]);
            }
        }
        assert forall|i: int, j: int| 0 <= i < j < r.len() implies !precedes(r[j], r[i]) by {
            if j == s.len() && i < s.len() - 1 {
                // `s[i]` is not behind `s.last()`, which is not behind `name`.
                if precedes(name, s[i]) {
                    assert(!precedes(s.last(), s[i]));
                    if s.last() == s[i] {
                    } else {
                        key_order_is_total(s.last(), s[i]);
                        key_order_is_transitive(name, s[i], s.last());
                    }
                }
            }
        }
    } else {
        let front = s.drop_last();
        lemma_insert_name(front, name);
        let inner = insert_name(front, name);
        assert forall|k: int| 0 <= k < r.len() implies (#[trigger] r[k]) == name || s.contains(
            r[k],
        ) by {
            if k < inner.len() {
                assert(r[k] == inner[k]);
                if inner[k] != name {
                    let j = choose|j: int| 0 <= j < front.len() && front[j] == inner[k];
                    assert(s[j] == r[k]);
                }
            } else {
                assert(s[s.len() - 1] == r[k]);
            }
        }
        assert forall|i: int, j: int| 0 <= i < j < r.len() implies !precedes(r[j], r[i]) by {
            if j == inner.len() {
                assert(r[i] == inner[i]);
                if inner[i] == name {
                    if precedes(s.last(), name) {
                        if name == s.last() {
                            crate::json::key_order_is_irreflexive(name);
                        } else {
                            key_order_is_total(name, s.last());
                        }
                    }
                } else {
                    let k = choose|k: int| 0 <= k < front.len() && front[k] == inner[i];
                    assert(s[k] == inner[i]);
                }
            } else {
                assert(r[i] == inner[i] && r[j] == inner[j]);
            }
        }
    }
}

/// The images that are taken in are in the order of their names, and all of them are images.
pub proof fn images_are_sorted(names: Seq<Seq<char>>, n: int)
    requires
        0 <= n <= names.len(),
    ensures
        names_ascend(images_among(names, n)),
        forall|k: int|
            0 <= k < images_among(names, n).len() ==> is_image(#[trigger] images_among(names, n)[k]),
    decreases n,
{
    if n > 0 {
        images_are_sorted(names, n - 1);
        if is_image(names[n - 1]) {
            let before = images_among(names, n - 1);
            lemma_insert_name(before, names[n - 1]);
            assert forall|k: int| 0 <= k < images_among(names, n).len() implies is_image(
                #[trigger] images_among(names, n)[k],
            ) by {
                let x = images_among(names, n)[k];
                if x != names[n - 1] {
                    let j = choose|j: int| 0 <= j < before.len() && before[j] == x;
                    assert(is_image(before[j]));
                }
            }
        }
    }
}

/// A screenshot of which nothing but its number, its file and its time is known.
pub open spec fn plain_view(shot_id: u64, dest_rel_path: Seq<char>, audio_sec: NumberView) -> ShotView {
    ShotView {
        shot_id,
        dest_rel_path,
        audio_sec,
        app_name: None,
        app_bundle_id: None,
        app_pid: None,
        window_title: None,
        app_capture_error: None,
        proc_cpu_percent: None,
        proc_mem_percent: None,
        proc_rss_kb: None,
        proc_elapsed: None,
        proc_state: None,
        proc_command: None,
        proc_capture_error: None,
    }
}

/// The screenshot that an image file of a session stands for, where no event tells of any.
pub open spec fn shot_of_file(index: nat, name: Seq<char>) -> ShotView {
    plain_view((index + 1) as u64, "screenshots/"@ + name, quantity_of(NumberView::Unsigned(0)))
}

/// A screenshot of which nothing but its number, its file and its time is known.
pub fn plain_shot(shot_id: u64, dest_rel_path: &str, audio_sec: Number) -> (r: ShotMeta)
    ensures
        r@ == plain_view(shot_id, dest_rel_path@, audio_sec@),
{
    ShotMeta {
        shot_id,
        dest_rel_path: dest_rel_path.to_owned(),
        audio_sec,
        app_name: None,
        app_bundle_id: None,
        app_pid: None,
        window_title: None,
        app_capture_error: None,
        proc_cpu_percent: None,
        proc_mem_percent: None,
        proc_rss_kb: None,
        proc_elapsed: None,
        proc_state: None,
        proc_command: None,
        proc_capture_error: None,
    }
}

/// The screenshots that image files of a session stand for.
pub open spec fn shots_of_files(images: Seq<Seq<char>>) -> Seq<ShotView> {
    Seq::new(images.len(), |i: int| shot_of_file(i as nat, images[i]))
}

/// The screenshots of a session: those that its events tell of, else its image files in the order
/// of their names.
pub fn load_shots_for_session(events: &Vec<Json>, files: &Vec<String>) -> (r: Vec<ShotMeta>)
    ensures
        shot_views(r@) == if shots_of(item_views(events@)).len() > 0 {
            shots_of(item_views(events@))
        } else {
            shots_of_files(images_among(views(files@), files@.len() as int))
        },
{
    let shots = shots_from_events(events);
    assert(shot_views(shots@).len() == shots@.len());
    if shots.len() > 0 {
        return shots;
    }
    let images = image_names(files);
    let ghost iv = views(images@);
    let mut out: Vec<ShotMeta> = Vec::new();
    let mut i: usize = 0;
    while i < images.len()
        invariant
            i <= images.len(),
            iv == views(images@),
            out@.len() == i,
            forall|k: int| 0 <= k < i ==> (#[trigger] out@[k])@ == shot_of_file(k as nat, iv[k]),
        decreases images.len() - i,
    {
        let path = concat("screenshots/", images[i].as_str());
        assert(iv[i as int] == images@[i as int]@);
        let s = plain_shot(i as u64 + 1, path.as_str(), Number::Unsigned(0).quantity());
        out.push(s);
        i = i + 1;
    }
    assert(shot_views(out@) =~= shots_of_files(iv));
    out
}

/// The extension of a name is what stands behind its last dot, and its stem what stands before it.
pub proof fn names_part_at_the_last_dot(front: Seq<char>, ext: Seq<char>)
    requires
        front.len() > 0,
        !ext.contains('.'),
    ensures
        extension(front + seq!['.'] + ext) == Some(ext),
        stem(front + seq!['.'] + ext) == front,
        extension(ext) is None,
        stem(ext) == ext,
        extension(seq!['.'] + ext) is None,
{
    lemma_last_dot(front, ext);
    lemma_last_dot(Seq::empty(), ext);
    lemma_no_dot(ext);
    let name = front + seq!['.'] + ext;
    assert(name.subrange(front.len() + 1int, name.len() as int) =~= ext);
    assert(name.subrange(0, front.len() as int) =~= front);
    assert(Seq::<char>::empty() + seq!['.'] + ext =~= seq!['.'] + ext);
}

proof fn lemma_last_dot(front: Seq<char>, ext: Seq<char>)
    requires
        !ext.contains('.'),
    ensures
        rfind(front + seq!['.'] + ext, '.') == Some(front.len() as int),
    decreases ext.len(),
{
    let name = front + seq!['.'] + ext;
    if ext.len() > 0 {
        let less = ext.drop_last();
        assert(ext.last() != '.') by {
            assert(ext[ext.len() - 1] == ext.last());
        }
        assert(!less.contains('.')) by {
            if less.contains('.') {
                let k = choose|k: int| 0 <= k < less.len() && less[k] == '.';
                assert(ext[k] == '.');
            }
        }
        lemma_last_dot(front, less);
        assert(name.subrange(0, name.len() - 1) =~= front + seq!['.'] + less);
        assert(name[name.len() - 1] == ext.last());
    } else {
        assert(name[name.len() - 1] == '.');
    }
}

proof fn lemma_no_dot(s: Seq<char>)
    requires
        !s.contains('.'),
    ensures
        rfind(s, '.') is None,
    decreases s.len(),
{
    if s.len() > 0 {
        let less = s.subrange(0, s.len() - 1);
        assert(s[s.len() - 1] != '.');
        assert(!less.contains('.')) by {
            if less.contains('.') {
                let k = choose|k: int| 0 <= k < less.len() && less[k] == '.';
                assert(s[k] == '.');
            }
        }
        lemma_no_dot(less);
    }
}

/// Every image among the files is taken in, as often as it is there, and nothing else.
pub proof fn every_image_is_taken_in(names: Seq<Seq<char>>, n: int)
    requires
        0 <= n <= names.len(),
    ensures
        images_among(names, n).to_multiset() == names.subrange(0, n).filter(
            |s: Seq<char>| is_image(s),
        ).to_multiset(),
    decreases n,
{
    broadcast use vstd::seq_lib::group_to_multiset_ensures;

    reveal(Seq::filter);
    let p = |s: Seq<char>| is_image(s);
    if n > 0 {
        every_image_is_taken_in(names, n - 1);
        let all = names.subrange(0, n);
        assert(all.drop_last() =~= names.subrange(0, n - 1));
        assert(all.last() == names[n - 1]);
        if is_image(names[n - 1]) {
            lemma_insert_name_adds(images_among(names, n - 1), names[n - 1]);
        }
    } else {
        assert(names.subrange(0, 0) =~= Seq::empty());
        assert(names.subrange(0, 0).filter(p) =~= Seq::empty());
        assert(images_among(names, 0) =~= Seq::empty());
    }
}

proof fn lemma_insert_name_adds(s: Seq<Seq<char>>, name: Seq<char>)
    ensures
        insert_name(s, name).to_multiset() == s.to_multiset().insert(name),
    decreases s.len(),
{
    broadcast use vstd::seq_lib::group_to_multiset_ensures;

    if s.len() > 0 && precedes(name, s.last()) {
        lemma_insert_name_adds(s.drop_last(), name);
        assert(s =~= s.drop_last().push(s.last()));
        assert(insert_name(s, name).to_multiset() =~= s.to_multiset().insert(name));
    }
}

/// A file counts as an image by its extension, however that is written.
pub proof fn images_go_by_extension(front: Seq<char>, ext: Seq<char>)
    requires
        front.len() > 0,
        !ext.contains('.'),
    ensures
        ascii_lower(ext) == "png"@ || ascii_lower(ext) == "jpg"@ || ascii_lower(ext) == "jpeg"@
            || ascii_lower(ext) == "webp"@ || ascii_lower(ext) == "tif"@ || ascii_lower(ext)
            == "tiff"@ || ascii_lower(ext) == "heic"@ || ascii_lower(ext) == "heif"@ <==> is_image(
            front + seq!['.'] + ext,
        ),
        !is_image(ext),
{
    names_part_at_the_last_dot(front, ext);
}

/// Image files stand for screenshots by their order: the first is number one.
pub proof fn image_files_are_numbered(images: Seq<Seq<char>>, i: int)
    requires
        0 <= i < images.len() < u64::MAX,
    ensures
        shots_of_files(images).len() == images.len(),
        shots_of_files(images)[i].shot_id == i + 1,
        shots_of_files(images)[i].dest_rel_path == "screenshots/"@ + images[i],
        shots_of_files(images)[i].app_name is None,
{
}

} // verus!
