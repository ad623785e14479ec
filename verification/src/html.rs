//! The pages of a session and of all sessions.

use vstd::prelude::*;

use crate::json::{measure_of, opt_view, Json};
use crate::models::{
    clip_views, shot_views, ClipView, ClipboardMeta, SessionListRow, ShotMeta, ShotView,
};
use crate::note::{clip_preview, format_hms, hms, preview, transcript_line};
use crate::number::{decimal, decimal_text};
use crate::pages::{
    CLIPS_LABEL, DURATION_LABEL, ENDED_LABEL, INDEX_CLOSE, INDEX_OPEN, METHOD_LABEL, NOTE_ANNOTATOR,
    NOTE_CLIPBOARD, NOTE_COPY_TEXT, NOTE_GALLERY, NOTE_META, NOTE_NAV, NOTE_OPEN, NOTE_SCRIPT,
    NOTE_STYLES, NOTE_TRANSCRIPT, SHOTS_LABEL, STATUS_LABEL,
};
use crate::paths::{join_path, joined_path};
use crate::pattern::{
    contains, find_from, join, joined, lemma_find_from, lemma_one_piece, occurs_at, replace,
    replaced, replaced_from, views, words, words_of,
};
use crate::text::{concat3, is_blank, trim, trimmed};
use crate::watch::{get_text_or, text_or};

verus! {

/// `s` as text in a page: the characters that mean something there are written out.
pub open spec fn html(s: Seq<char>) -> Seq<char> {
    let s = replaced(s, "&"@, "&amp;"@);
    let s = replaced(s, "<"@, "&lt;"@);
    let s = replaced(s, ">"@, "&gt;"@);
    let s = replaced(s, "\""@, "&quot;"@);
    replaced(s, "'"@, "&#39;"@)
}

/// `s` as text in a page: the characters that mean something there are written out.
pub fn html_escape(input: &str) -> (r: String)
    ensures
        r@ == html(input@),
{
    proof {
        reveal_strlit("&");
        reveal_strlit("<");
        reveal_strlit(">");
        reveal_strlit("\"");
        reveal_strlit("'");
    }
    let s = replace(input, "&", "&amp;");
    let s = replace(s.as_str(), "<", "&lt;");
    let s = replace(s.as_str(), ">", "&gt;");
    let s = replace(s.as_str(), "\"", "&quot;");
    replace(s.as_str(), "'", "&#39;")
}

/// Whether `c` stands nowhere in `s`.
pub open spec fn free_of(s: Seq<char>, c: char) -> bool {
    forall|i: int| 0 <= i < s.len() ==> #[trigger] s[i] != c
}

/// Replacing one character leaves none of it, and brings in no other but those that replace it.
/// A character that is replaced by texts without it is gone.
pub proof fn lemma_replaced_char(s: Seq<char>, p: Seq<char>, with: Seq<char>, d: char, from: int)
    requires
        p.len() == 1,
        0 <= from <= s.len(),
        free_of(with, d),
        d == p[0] || free_of(s, d),
    ensures
        free_of(replaced_from(s, p, with, from), d),
    decreases s.len() - from,
{
    lemma_find_from(s, p, from);
    match find_from(s, p, from) {
        Some(i) => {
            lemma_replaced_char(s, p, with, d, i + 1);
            lemma_gap_free(s, p, d, from, i);
        },
        None => {
            lemma_gap_free(s, p, d, from, s.len() as int);
        },
    }
}

/// Between two places where a pattern of one character stands, it does not stand.
proof fn lemma_gap_free(s: Seq<char>, p: Seq<char>, d: char, from: int, to: int)
    requires
        p.len() == 1,
        0 <= from <= to <= s.len(),
        d == p[0] || free_of(s, d),
        forall|j: int| from <= j < to ==> !#[trigger] occurs_at(s, p, j),
    ensures
        free_of(s.subrange(from, to), d),
{
    let g = s.subrange(from, to);
    assert forall|k: int| 0 <= k < g.len() implies #[trigger] g[k] != d by {
        if g[k] == d && d == p[0] {
            assert(s.subrange(from + k, from + k + 1) =~= p);
            assert(occurs_at(s, p, from + k));
        }
    }
}

/// An escaped text holds no character that could open a tag or close an attribute.
pub proof fn escaped_text_is_inert(s: Seq<char>)
    ensures
        free_of(html(s), '<'),
        free_of(html(s), '>'),
        free_of(html(s), '"'),
        free_of(html(s), '\''),
{
    reveal_strlit("&");
    reveal_strlit("&amp;");
    reveal_strlit("<");
    reveal_strlit("&lt;");
    reveal_strlit(">");
    reveal_strlit("&gt;");
    reveal_strlit("\"");
    reveal_strlit("&quot;");
    reveal_strlit("'");
    reveal_strlit("&#39;");
    let s1 = replaced(s, "&"@, "&amp;"@);
    let s2 = replaced(s1, "<"@, "&lt;"@);
    lemma_replaced_char(s1, "<"@, "&lt;"@, '<', 0);
    let s3 = replaced(s2, ">"@, "&gt;"@);
    lemma_replaced_char(s2, ">"@, "&gt;"@, '>', 0);
    lemma_replaced_char(s2, ">"@, "&gt;"@, '<', 0);
    let s4 = replaced(s3, "\""@, "&quot;"@);
    lemma_replaced_char(s3, "\""@, "&quot;"@, '"', 0);
    lemma_replaced_char(s3, "\""@, "&quot;"@, '>', 0);
    lemma_replaced_char(s3, "\""@, "&quot;"@, '<', 0);
    lemma_replaced_char(s4, "'"@, "&#39;"@, '\'', 0);
    lemma_replaced_char(s4, "'"@, "&#39;"@, '"', 0);
    lemma_replaced_char(s4, "'"@, "&#39;"@, '>', 0);
    lemma_replaced_char(s4, "'"@, "&#39;"@, '<', 0);
}

/// Where a pattern is one character, each character is replaced for itself.
proof fn lemma_replaced_step(s: Seq<char>, p: Seq<char>, with: Seq<char>, from: int)
    requires
        p.len() == 1,
        0 <= from < s.len(),
    ensures
        replaced_from(s, p, with, from) == (if s[from] == p[0] {
            with
        } else {
            seq![s[from]]
        }) + replaced_from(s, p, with, from + 1),
{
    lemma_find_from(s, p, from);
    lemma_find_from(s, p, from + 1);
    assert(s.subrange(from, from + 1) =~= seq![s[from]]);
    assert(p =~= seq![p[0]]);
    if s[from] == p[0] {
        assert(occurs_at(s, p, from));
        assert(find_from(s, p, from) == Some(from));
        assert(s.subrange(from, from) =~= Seq::empty());
        assert(replaced_from(s, p, with, from) =~= with + replaced_from(s, p, with, from + 1));
    } else {
        assert(s.subrange(from, from + 1)[0] == s[from]);
        assert(!occurs_at(s, p, from));
        assert(find_from(s, p, from) == find_from(s, p, from + 1));
        match find_from(s, p, from + 1) {
            Some(i) => {
                assert(s.subrange(from, i) =~= seq![s[from]] + s.subrange(from + 1, i));
            },
            None => {
                assert(s.subrange(from, s.len() as int) =~= seq![s[from]] + s.subrange(
                    from + 1,
                    s.len() as int,
                ));
            },
        }
        assert(replaced_from(s, p, with, from) =~= seq![s[from]] + replaced_from(
            s,
            p,
            with,
            from + 1,
        ));
    }
}

proof fn lemma_replaced_rest(a: Seq<char>, b: Seq<char>, p: Seq<char>, with: Seq<char>, from: int)
    requires
        p.len() == 1,
        0 <= from <= b.len(),
    ensures
        replaced_from(a + b, p, with, a.len() + from) == replaced_from(b, p, with, from),
    decreases b.len() - from,
{
    let s = a + b;
    if from < b.len() {
        lemma_replaced_step(s, p, with, a.len() + from);
        lemma_replaced_step(b, p, with, from);
        lemma_replaced_rest(a, b, p, with, from + 1);
        assert(s[a.len() + from] == b[from]);
    } else {
        lemma_find_from(s, p, s.len() as int);
        lemma_find_from(b, p, b.len() as int);
        assert(replaced_from(s, p, with, s.len() as int) =~= Seq::empty());
        assert(replaced_from(b, p, with, b.len() as int) =~= Seq::empty());
    }
}

/// A character is replaced in two texts as in the one that they make together.
pub proof fn lemma_replaced_add(a: Seq<char>, b: Seq<char>, p: Seq<char>, with: Seq<char>, from: int)
    requires
        p.len() == 1,
        0 <= from <= a.len(),
    ensures
        replaced_from(a + b, p, with, from) == replaced_from(a, p, with, from) + replaced(b, p, with),
    decreases a.len() - from,
{
    let s = a + b;
    if from < a.len() {
        lemma_replaced_step(s, p, with, from);
        lemma_replaced_step(a, p, with, from);
        lemma_replaced_add(a, b, p, with, from + 1);
        assert(s[from] == a[from]);
        assert(replaced_from(s, p, with, from) =~= replaced_from(a, p, with, from) + replaced(
            b,
            p,
            with,
        ));
    } else {
        lemma_replaced_rest(a, b, p, with, 0);
        lemma_find_from(a, p, a.len() as int);
        assert(replaced_from(a, p, with, a.len() as int) =~= Seq::empty());
        assert(replaced_from(s, p, with, from) =~= replaced_from(a, p, with, from) + replaced(
            b,
            p,
            with,
        ));
    }
}

/// Escaping goes character by character: two texts can be escaped before they are put together, or
/// after.
pub proof fn escaping_distributes(a: Seq<char>, b: Seq<char>)
    ensures
        html(a + b) == html(a) + html(b),
{
    reveal_strlit("&");
    reveal_strlit("<");
    reveal_strlit(">");
    reveal_strlit("\"");
    reveal_strlit("'");
    let (a1, b1) = (replaced(a, "&"@, "&amp;"@), replaced(b, "&"@, "&amp;"@));
    let (a2, b2) = (replaced(a1, "<"@, "&lt;"@), replaced(b1, "<"@, "&lt;"@));
    let (a3, b3) = (replaced(a2, ">"@, "&gt;"@), replaced(b2, ">"@, "&gt;"@));
    let (a4, b4) = (replaced(a3, "\""@, "&quot;"@), replaced(b3, "\""@, "&quot;"@));
    lemma_replaced_add(a, b, "&"@, "&amp;"@, 0);
    lemma_replaced_add(a1, b1, "<"@, "&lt;"@, 0);
    lemma_replaced_add(a2, b2, ">"@, "&gt;"@, 0);
    lemma_replaced_add(a3, b3, "\""@, "&quot;"@, 0);
    lemma_replaced_add(a4, b4, "'"@, "&#39;"@, 0);
}

// ---------------------------------------------------------------------------------------------
// The page of a session
// ---------------------------------------------------------------------------------------------

/// The card of a screenshot.
#[verifier::opaque]
pub open spec fn shot_card(dir: Seq<char>, s: ShotView) -> Seq<char> {
    let n = decimal(s.shot_id as nat);
    let url = html(s.dest_rel_path);
    let path = html(joined_path(dir, s.dest_rel_path));
    "<figure class=\"card\"><div class=\"card-head\"><figcaption>Screenshot "@ + n
        + "</figcaption><div class=\"card-actions\"><button class=\"btn small annotate-image\" data-url=\""@
        + url + "\" data-path=\""@ + path
        + "\">Annotate</button><button class=\"btn small copy-image\" data-url=\""@ + url
        + "\" data-path=\""@ + path + "\">Copy image</button></div></div><a href=\""@ + url
        + "\" target=\"_blank\" rel=\"noreferrer\"><img src=\""@ + url + "\" alt=\"Screenshot "@
        + n + "\" loading=\"lazy\" /></a><div class=\"path\">"@ + path + "</div></figure>"@
}

/// The card of a screenshot.
fn render_shot_card(dir: &str, s: &ShotMeta) -> (r: String)
    ensures
        r@ == shot_card(dir@, s@),
{
    let n = decimal_text(s.shot_id);
    let url = html_escape(s.dest_rel_path.as_str());
    let path = html_escape(join_path(dir, s.dest_rel_path.as_str()).as_str());
    let mut out = "<figure class=\"card\"><div class=\"card-head\"><figcaption>Screenshot ".to_owned();
    out.append(n.as_str());
    out.append(
        "</figcaption><div class=\"card-actions\"><button class=\"btn small annotate-image\" data-url=\"",
    );
    out.append(url.as_str());
    out.append("\" data-path=\"");
    out.append(path.as_str());
    out.append("\">Annotate</button><button class=\"btn small copy-image\" data-url=\"");
    out.append(url.as_str());
    out.append("\" data-path=\"");
    out.append(path.as_str());
    out.append("\">Copy image</button></div></div><a href=\"");
    out.append(url.as_str());
    out.append("\" target=\"_blank\" rel=\"noreferrer\"><img src=\"");
    out.append(url.as_str());
    out.append("\" alt=\"Screenshot ");
    out.append(n.as_str());
    out.append("\" loading=\"lazy\" /></a><div class=\"path\">");
    out.append(path.as_str());
    out.append("</div></figure>");
    proof {
        reveal(shot_card);
    }
    out
}

/// The card of a clipboard text.
#[verifier::opaque]
pub open spec fn clip_card(c: ClipView) -> Seq<char> {
    "<div class=\"card\"><div class=\"card-head\"><strong>Clipboard "@ + decimal(c.clip_id as nat)
        + "</strong><button class=\"btn small copy-clip\" data-text=\""@ + html(c.text)
        + "\">Copy text</button></div><div class=\"transcript\">"@ + html(preview(c.text, 300))
        + "</div><div class=\"path\">t="@ + html(hms(measure_of(c.audio_sec).whole_of() as nat))
        + " · "@ + decimal(c.text.len()) + " chars</div></div>"@
}

/// The card of a clipboard text.
fn render_clip_card(c: &ClipboardMeta) -> (r: String)
    ensures
        r@ == clip_card(c@),
{
    let n: usize = c.text.as_str().unicode_len();
    let mut out = "<div class=\"card\"><div class=\"card-head\"><strong>Clipboard ".to_owned();
    out.append(decimal_text(c.clip_id).as_str());
    out.append("</strong><button class=\"btn small copy-clip\" data-text=\"");
    out.append(html_escape(c.text.as_str()).as_str());
    out.append("\">Copy text</button></div><div class=\"transcript\">");
    out.append(html_escape(clip_preview(c.text.as_str(), 300).as_str()).as_str());
    out.append("</div><div class=\"path\">t=");
    out.append(html_escape(format_hms(&c.audio_sec.measure()).as_str()).as_str());
    out.append(" · ");
    out.append(decimal_text(n as u64).as_str());
    out.append(" chars</div></div>");
    proof {
        reveal(clip_card);
    }
    out
}

/// The cards of the first `n` screenshots.
pub open spec fn shot_cards(dir: Seq<char>, shots: Seq<ShotView>, n: int) -> Seq<char>
    decreases n,
{
    if n <= 0 {
        Seq::empty()
    } else {
        shot_cards(dir, shots, n - 1) + shot_card(dir, shots[n - 1])
    }
}

/// The cards of the first `n` clipboard texts.
pub open spec fn clip_cards(clips: Seq<ClipView>, n: int) -> Seq<char>
    decreases n,
{
    if n <= 0 {
        Seq::empty()
    } else {
        clip_cards(clips, n - 1) + clip_card(clips[n - 1])
    }
}

/// The cards of the screenshots.
fn render_shot_cards(dir: &str, shots: &Vec<ShotMeta>) -> (r: String)
    ensures
        r@ == shot_cards(dir@, shot_views(shots@), shots@.len() as int),
{
    let ghost sv = shot_views(shots@);
    let mut out = String::new();
    let mut i: usize = 0;
    while i < shots.len()
        invariant
            i <= shots.len(),
            sv == shot_views(shots@),
            out@ == shot_cards(dir@, sv, i as int),
        decreases shots.len() - i,
    {
        assert(sv[i as int] == shots@[i as int]@);
        out.append(render_shot_card(dir, &shots[i]).as_str());
        i = i + 1;
    }
    out
}

/// The cards of the clipboard texts.
fn render_clip_cards(clips: &Vec<ClipboardMeta>) -> (r: String)
    ensures
        r@ == clip_cards(clip_views(clips@), clips@.len() as int),
{
    let ghost cv = clip_views(clips@);
    let mut out = String::new();
    let mut i: usize = 0;
    while i < clips.len()
        invariant
            i <= clips.len(),
            cv == clip_views(clips@),
            out@ == clip_cards(cv, i as int),
        decreases clips.len() - i,
    {
        assert(cv[i as int] == clips@[i as int]@);
        out.append(render_clip_card(&clips[i]).as_str());
        i = i + 1;
    }
    out
}

/// Cards in a grid, or what is said where there are none.
pub open spec fn grid(cards: Seq<char>, empty: Seq<char>) -> Seq<char> {
    if cards.len() == 0 {
        empty
    } else {
        "<div class=\"grid\">"@ + cards + "</div>"@
    }
}

/// Cards in a grid, or what is said where there are none.
fn render_grid(cards: &str, empty: &str) -> (r: String)
    ensures
        r@ == grid(cards@, empty@),
{
    if cards.is_empty() {
        empty.to_owned()
    } else {
        concat3("<div class=\"grid\">", cards, "</div>")
    }
}

/// What the page of a session is made from.
pub struct PageInput<'a> {
    pub session_id: &'a str,
    pub started_iso: &'a str,
    pub ended_iso: &'a str,
    pub duration: &'a str,
    pub transcription: &'a Json,
    pub transcript: &'a str,
    pub markdown: &'a str,
    pub shots: &'a Vec<ShotMeta>,
    pub clips: &'a Vec<ClipboardMeta>,
    pub session_dir: &'a str,
    pub index_href: &'a str,
}

/// The page of a session.
pub open spec fn note_page(p: PageInput) -> Seq<char> {
    let text = html(transcript_line(p.transcript@));
    NOTE_OPEN@ + html(p.session_id@) + NOTE_STYLES@ + html(p.session_id@) + NOTE_NAV@ + html(
        p.index_href@,
    ) + NOTE_META@ + html(p.started_iso@) + ENDED_LABEL@ + html(p.ended_iso@) + DURATION_LABEL@
        + html(p.duration@) + SHOTS_LABEL@ + decimal(p.shots@.len()) + CLIPS_LABEL@ + decimal(
        p.clips@.len(),
    ) + STATUS_LABEL@ + html(text_or(p.transcription@, "status"@, "unknown"@)) + METHOD_LABEL@
        + html(text_or(p.transcription@, "method"@, "-"@)) + NOTE_TRANSCRIPT@ + text
        + NOTE_GALLERY@ + grid(
        shot_cards(p.session_dir@, shot_views(p.shots@), p.shots@.len() as int),
        "<div>No screenshots in this session.</div>"@,
    ) + NOTE_CLIPBOARD@ + grid(
        clip_cards(clip_views(p.clips@), p.clips@.len() as int),
        "<div>No clipboard captures in this session.</div>"@,
    ) + NOTE_ANNOTATOR@ + html(p.markdown@) + NOTE_COPY_TEXT@ + text + NOTE_SCRIPT@
}

/// The page of a session: what it is, its transcript, its screenshots and clipboard texts, and the
/// scripts to copy and annotate them. Every text in it is escaped.
pub fn build_html_note(p: &PageInput) -> (r: String)
    ensures
        r@ == note_page(*p),
{
    let session_id = html_escape(p.session_id);
    let text = if is_blank(p.transcript) {
        html_escape("_No transcript available._")
    } else {
        html_escape(trim(p.transcript).as_str())
    };
    let gallery = render_grid(
        render_shot_cards(p.session_dir, p.shots).as_str(),
        "<div>No screenshots in this session.</div>",
    );
    let clipboard = render_grid(
        render_clip_cards(p.clips).as_str(),
        "<div>No clipboard captures in this session.</div>",
    );
    let mut out = NOTE_OPEN.to_owned();
    out.append(session_id.as_str());
    out.append(NOTE_STYLES);
    out.append(session_id.as_str());
    out.append(NOTE_NAV);
    out.append(html_escape(p.index_href).as_str());
    out.append(NOTE_META);
    out.append(html_escape(p.started_iso).as_str());
    out.append(ENDED_LABEL);
    out.append(html_escape(p.ended_iso).as_str());
    out.append(DURATION_LABEL);
    out.append(html_escape(p.duration).as_str());
    out.append(SHOTS_LABEL);
    out.append(decimal_text(p.shots.len() as u64).as_str());
    out.append(CLIPS_LABEL);
    out.append(decimal_text(p.clips.len() as u64).as_str());
    out.append(STATUS_LABEL);
    out.append(html_escape(get_text_or(p.transcription, "status", "unknown").as_str()).as_str());
    out.append(METHOD_LABEL);
    out.append(html_escape(get_text_or(p.transcription, "method", "-").as_str()).as_str());
    out.append(NOTE_TRANSCRIPT);
    out.append(text.as_str());
    out.append(NOTE_GALLERY);
    out.append(gallery.as_str());
    out.append(NOTE_CLIPBOARD);
    out.append(clipboard.as_str());
    out.append(NOTE_ANNOTATOR);
    out.append(html_escape(p.markdown).as_str());
    out.append(NOTE_COPY_TEXT);
    out.append(text.as_str());
    out.append(NOTE_SCRIPT);
    out
}

/// The cards of two lists of screenshots, one behind the other, are those of the first and behind
/// them those of the second.
pub proof fn galleries_add_up(dir: Seq<char>, a: Seq<ShotView>, b: Seq<ShotView>)
    ensures
        shot_cards(dir, a + b, (a + b).len() as int) == shot_cards(dir, a, a.len() as int)
            + shot_cards(dir, b, b.len() as int),
    decreases b.len(),
{
    let all = a + b;
    if b.len() == 0 {
        assert(all =~= a);
        lemma_nothing_added(shot_cards(dir, a, a.len() as int));
    } else {
        let front = b.drop_last();
        galleries_add_up(dir, a, front);
        lemma_shot_cards_prefix(dir, all, a + front, all.len() - 1);
        lemma_shot_cards_prefix(dir, b, front, b.len() - 1);
        lemma_regrouped(
            shot_cards(dir, a, a.len() as int),
            shot_cards(dir, front, front.len() as int),
            shot_card(dir, b.last()),
        );
    }
}

proof fn lemma_regrouped(a: Seq<char>, b: Seq<char>, c: Seq<char>)
    ensures
        (a + b) + c == a + (b + c),
{
    assert((a + b) + c =~= a + (b + c));
}

proof fn lemma_shot_cards_prefix(dir: Seq<char>, a: Seq<ShotView>, b: Seq<ShotView>, n: int)
    requires
        0 <= n <= b.len() <= a.len(),
        forall|i: int| 0 <= i < b.len() ==> a[i] == #[trigger] b[i],
    ensures
        shot_cards(dir, a, n) == shot_cards(dir, b, n),
    decreases n,
{
    if n > 0 {
        lemma_shot_cards_prefix(dir, a, b, n - 1);
        assert(a[n - 1] == b[n - 1]);
    }
}

/// The same holds of clipboard texts.
pub proof fn clip_cards_add_up(a: Seq<ClipView>, b: Seq<ClipView>)
    ensures
        clip_cards(a + b, (a + b).len() as int) == clip_cards(a, a.len() as int) + clip_cards(
            b,
            b.len() as int,
        ),
    decreases b.len(),
{
    let all = a + b;
    if b.len() == 0 {
        assert(all =~= a);
        lemma_nothing_added(clip_cards(a, a.len() as int));
    } else {
        let front = b.drop_last();
        clip_cards_add_up(a, front);
        lemma_clip_cards_prefix(all, a + front, all.len() - 1);
        lemma_clip_cards_prefix(b, front, b.len() - 1);
        lemma_regrouped(
            clip_cards(a, a.len() as int),
            clip_cards(front, front.len() as int),
            clip_card(b.last()),
        );
    }
}

proof fn lemma_clip_cards_prefix(a: Seq<ClipView>, b: Seq<ClipView>, n: int)
    requires
        0 <= n <= b.len() <= a.len(),
        forall|i: int| 0 <= i < b.len() ==> a[i] == #[trigger] b[i],
    ensures
        clip_cards(a, n) == clip_cards(b, n),
    decreases n,
{
    if n > 0 {
        lemma_clip_cards_prefix(a, b, n - 1);
        assert(a[n - 1] == b[n - 1]);
    }
}

/// The card of a screenshot names it and shows its file.
pub proof fn cards_show_their_screenshot(dir: Seq<char>, s: ShotView)
    ensures
        contains(shot_card(dir, s), "<figcaption>Screenshot "@ + decimal(s.shot_id as nat) + "<"@),
        contains(shot_card(dir, s), "<img src=\""@ + html(s.dest_rel_path) + "\""@),
        contains(shot_card(dir, s), "<a href=\""@ + html(s.dest_rel_path) + "\""@),
        contains(
            shot_card(dir, s),
            "<div class=\"path\">"@ + html(joined_path(dir, s.dest_rel_path)) + "<"@,
        ),
{
    let n = decimal(s.shot_id as nat);
    let url = html(s.dest_rel_path);
    let path = html(joined_path(dir, s.dest_rel_path));
    lemma_card_literals();
    reveal(shot_card);
    let s1 = "<figure class=\"card\"><div class=\"card-head\"><figcaption>Screenshot "@ + n
        + "</figcaption><div class=\"card-actions\"><button class=\"btn small annotate-image\" data-url=\""@;
    lemma_first_between(
        "<figure class=\"card\"><div class=\"card-head\"><figcaption>Screenshot "@,
        n,
        "</figcaption><div class=\"card-actions\"><button class=\"btn small annotate-image\" data-url=\""@,
        "<figcaption>Screenshot "@,
        "<"@,
    );
    let s2 = s1 + url + "\" data-path=\""@ + path
        + "\">Annotate</button><button class=\"btn small copy-image\" data-url=\""@ + url
        + "\" data-path=\""@ + path;
    let link = "\">Copy image</button></div></div><a href=\""@;
    let image = "\" target=\"_blank\" rel=\"noreferrer\"><img src=\""@;
    let alt = "\" alt=\"Screenshot "@;
    let foot = "\" loading=\"lazy\" /></a><div class=\"path\">"@;
    let end = "</div></figure>"@;
    let caption = "<figcaption>Screenshot "@ + n + "<"@;
    lemma_more(s1, url, caption);
    lemma_more(s1 + url, "\" data-path=\""@, caption);
    lemma_more(s1 + url + "\" data-path=\""@, path, caption);
    let t1 = s1 + url + "\" data-path=\""@ + path;
    let copy = "\">Annotate</button><button class=\"btn small copy-image\" data-url=\""@;
    lemma_more(t1, copy, caption);
    lemma_more(t1 + copy, url, caption);
    lemma_more(t1 + copy + url, "\" data-path=\""@, caption);
    lemma_more(t1 + copy + url + "\" data-path=\""@, path, caption);
    lemma_more(s2, link, caption);
    lemma_more(s2 + link, url, caption);
    lemma_more(s2 + link + url, image, caption);
    let s3 = s2 + link + url + image;
    let href = "<a href=\""@ + url + "\""@;
    lemma_between(s2, link, url, image, "<a href=\""@, "\""@);
    lemma_more(s3, url, caption);
    lemma_more(s3, url, href);
    lemma_more(s3 + url, alt, caption);
    lemma_more(s3 + url, alt, href);
    let s4 = s3 + url + alt;
    let src = "<img src=\""@ + url + "\""@;
    lemma_between(s2 + link + url, image, url, alt, "<img src=\""@, "\""@);
    lemma_more(s4, n, caption);
    lemma_more(s4, n, href);
    lemma_more(s4, n, src);
    let s5 = s4 + n;
    lemma_more(s5, foot, caption);
    lemma_more(s5, foot, href);
    lemma_more(s5, foot, src);
    lemma_more(s5 + foot, path, caption);
    lemma_more(s5 + foot, path, href);
    lemma_more(s5 + foot, path, src);
    lemma_more(s5 + foot + path, end, caption);
    lemma_more(s5 + foot + path, end, href);
    lemma_more(s5 + foot + path, end, src);
    lemma_between(s5, foot, path, end, "<div class=\"path\">"@, "<"@);
}

proof fn lemma_card_literals()
    ensures
        "<figcaption>Screenshot "@.is_suffix_of(
            "<figure class=\"card\"><div class=\"card-head\"><figcaption>Screenshot "@,
        ),
        "<"@.is_prefix_of(
            "</figcaption><div class=\"card-actions\"><button class=\"btn small annotate-image\" data-url=\""@,
        ),
        "<a href=\""@.is_suffix_of("\">Copy image</button></div></div><a href=\""@),
        "\""@.is_prefix_of("\" target=\"_blank\" rel=\"noreferrer\"><img src=\""@),
        "<img src=\""@.is_suffix_of("\" target=\"_blank\" rel=\"noreferrer\"><img src=\""@),
        "\""@.is_prefix_of("\" alt=\"Screenshot "@),
        "<div class=\"path\">"@.is_suffix_of("\" loading=\"lazy\" /></a><div class=\"path\">"@),
        "<"@.is_prefix_of("</div></figure>"@),
{
    reveal_strlit("<figure class=\"card\"><div class=\"card-head\"><figcaption>Screenshot ");
    reveal_strlit(
        "</figcaption><div class=\"card-actions\"><button class=\"btn small annotate-image\" data-url=\"",
    );
    reveal_strlit("\">Copy image</button></div></div><a href=\"");
    reveal_strlit("\" target=\"_blank\" rel=\"noreferrer\"><img src=\"");
    reveal_strlit("\" alt=\"Screenshot ");
    reveal_strlit("\" loading=\"lazy\" /></a><div class=\"path\">");
    reveal_strlit("</div></figure>");
    reveal_strlit("<figcaption>Screenshot ");
    reveal_strlit("<");
    reveal_strlit("<img src=\"");
    reveal_strlit("<a href=\"");
    reveal_strlit("<div class=\"path\">");
    reveal_strlit("\"");
}

/// What stands at the seam of three texts.
proof fn lemma_first_between(a: Seq<char>, x: Seq<char>, b: Seq<char>, p: Seq<char>, q: Seq<char>)
    requires
        p.is_suffix_of(a),
        q.is_prefix_of(b),
    ensures
        contains(a + x + b, p + x + q),
{
    lemma_part(
        a + x + b,
        a.subrange(0, a.len() - p.len()),
        p + x + q,
        b.subrange(q.len() as int, b.len() as int),
    );
}

proof fn lemma_between(
    pre: Seq<char>,
    a: Seq<char>,
    x: Seq<char>,
    b: Seq<char>,
    p: Seq<char>,
    q: Seq<char>,
)
    requires
        p.is_suffix_of(a),
        q.is_prefix_of(b),
    ensures
        contains(pre + a + x + b, p + x + q),
{
    lemma_part(
        pre + a + x + b,
        pre + a.subrange(0, a.len() - p.len()),
        p + x + q,
        b.subrange(q.len() as int, b.len() as int),
    );
}

/// A text that goes on holds what it held.
pub proof fn lemma_more(s: Seq<char>, rest: Seq<char>, part: Seq<char>)
    requires
        contains(s, part),
    ensures
        contains(s + rest, part),
{
    let i = choose|i: int| occurs_at(s, part, i);
    assert((s + rest).subrange(i, i + part.len()) =~= s.subrange(i, i + part.len()));
    assert(occurs_at(s + rest, part, i));
}

/// A text holds its parts.
pub proof fn lemma_part(s: Seq<char>, front: Seq<char>, part: Seq<char>, back: Seq<char>)
    requires
        s =~= front + part + back,
    ensures
        contains(s, part),
{
    assert(s.subrange(front.len() as int, (front.len() + part.len()) as int) =~= part);
    assert(occurs_at(s, part, front.len() as int));
}

/// The page of a session shows every screenshot, each right behind the one before it and none twice:
/// the gallery is the cards in their order and nothing else.
pub proof fn pages_show_every_screenshot(p: PageInput, i: int)
    requires
        0 <= i < p.shots@.len(),
    ensures
        contains(note_page(p), shot_card(p.session_dir@, p.shots@[i]@)),
        i > 0 ==> contains(
            note_page(p),
            shot_card(p.session_dir@, p.shots@[i - 1]@) + shot_card(p.session_dir@, p.shots@[i]@),
        ),
        i == 0 ==> contains(
            note_page(p),
            "<div class=\"grid\">"@ + shot_card(p.session_dir@, p.shots@[0]@),
        ),
        i == p.shots@.len() - 1 ==> contains(
            note_page(p),
            shot_card(p.session_dir@, p.shots@[i]@) + "</div>"@,
        ),
{
    let dir = p.session_dir@;
    let sv = shot_views(p.shots@);
    let n = sv.len() as int;
    let card = shot_card(dir, sv[i]);
    assert(sv[i] == p.shots@[i]@);
    let cards = shot_cards(dir, sv, n);
    let (front, back) = lemma_gallery_in_page(p);
    lemma_cards_around(dir, sv, i, n);
    let before = shot_cards(dir, sv, i);
    let after = cards_behind(dir, sv, i + 1, n);
    let open = "<div class=\"grid\">"@;
    let close = "</div>"@;
    let first = shot_cards(dir, sv, i - 1);
    let prior = shot_card(dir, sv[i - 1]);
    if i > 0 {
        assert(sv[i - 1] == p.shots@[i - 1]@);
    }
    lemma_card_in_gallery(front, open, before, card, after, close, back, first, prior);
}

proof fn lemma_card_in_gallery(
    front: Seq<char>,
    open: Seq<char>,
    before: Seq<char>,
    card: Seq<char>,
    after: Seq<char>,
    close: Seq<char>,
    back: Seq<char>,
    first: Seq<char>,
    prior: Seq<char>,
)
    ensures
        ({
            let page = front + open + (before + card + after) + close + back;
            &&& contains(page, card)
            &&& before == first + prior ==> contains(page, prior + card)
            &&& before == Seq::<char>::empty() ==> contains(page, open + card)
            &&& after == Seq::<char>::empty() ==> contains(page, card + close)
        }),
{
    let page = front + open + (before + card + after) + close + back;
    lemma_part(page, front + open + before, card, after + close + back);
    if before == first + prior {
        lemma_part(page, front + open + first, prior + card, after + close + back);
    }
    if before == Seq::<char>::empty() {
        lemma_part(page, front, open + card, after + close + back);
    }
    if after == Seq::<char>::empty() {
        lemma_part(page, front + open + before, card + close, back);
    }
}

/// The cards from `from` on, up to `n`.
spec fn cards_behind(dir: Seq<char>, shots: Seq<ShotView>, from: int, n: int) -> Seq<char>
    decreases n - from,
{
    if from >= n {
        Seq::empty()
    } else {
        cards_behind(dir, shots, from, n - 1) + shot_card(dir, shots[n - 1])
    }
}

proof fn lemma_cards_around(dir: Seq<char>, shots: Seq<ShotView>, i: int, n: int)
    requires
        0 <= i < n,
    ensures
        shot_cards(dir, shots, n) == shot_cards(dir, shots, i) + shot_card(dir, shots[i])
            + cards_behind(dir, shots, i + 1, n),
    decreases n,
{
    let upto = shot_cards(dir, shots, i) + shot_card(dir, shots[i]);
    if i < n - 1 {
        lemma_cards_around(dir, shots, i, n - 1);
        lemma_regrouped(upto, cards_behind(dir, shots, i + 1, n - 1), shot_card(dir, shots[n - 1]));
    } else {
        lemma_nothing_added(upto);
    }
}

proof fn lemma_nothing_added(s: Seq<char>)
    ensures
        s + Seq::<char>::empty() == s,
{
    assert(s + Seq::<char>::empty() =~= s);
}

proof fn lemma_cards_are_filled(dir: Seq<char>, shots: Seq<ShotView>, n: int)
    requires
        0 < n,
    ensures
        shot_cards(dir, shots, n).len() > 0,
{
    reveal_strlit("</div></figure>");
    reveal(shot_card);
    assert(shot_card(dir, shots[n - 1]).len() > 0);
}

proof fn lemma_page_regrouped(
    front: Seq<char>,
    gallery: Seq<char>,
    a: Seq<char>,
    b: Seq<char>,
    c: Seq<char>,
    d: Seq<char>,
    e: Seq<char>,
    f: Seq<char>,
    g: Seq<char>,
)
    ensures
        front + gallery + a + b + c + d + e + f + g == front + gallery + (a + b + c + d + e + f + g),
{
    assert(front + gallery + a + b + c + d + e + f + g =~= front + gallery + (a + b + c + d + e + f
        + g));
}

proof fn lemma_grid_regrouped(front: Seq<char>, open: Seq<char>, cards: Seq<char>, close: Seq<char>)
    ensures
        front + (open + cards + close) == front + open + cards + close,
{
    assert(front + (open + cards + close) =~= front + open + cards + close);
}

/// What stands in front of the gallery of a page that has one, and what stands behind it.
proof fn lemma_gallery_in_page(p: PageInput) -> (r: (Seq<char>, Seq<char>))
    requires
        p.shots@.len() > 0,
    ensures
        note_page(p) == r.0 + "<div class=\"grid\">"@ + shot_cards(
            p.session_dir@,
            shot_views(p.shots@),
            p.shots@.len() as int,
        ) + "</div>"@ + r.1,
{
    let sv = shot_views(p.shots@);
    let n = sv.len() as int;
    let cards = shot_cards(p.session_dir@, sv, n);
    lemma_cards_are_filled(p.session_dir@, sv, n);
    let text = html(transcript_line(p.transcript@));
    let front = NOTE_OPEN@ + html(p.session_id@) + NOTE_STYLES@ + html(p.session_id@) + NOTE_NAV@
        + html(p.index_href@) + NOTE_META@ + html(p.started_iso@) + ENDED_LABEL@ + html(
        p.ended_iso@,
    ) + DURATION_LABEL@ + html(p.duration@) + SHOTS_LABEL@ + decimal(p.shots@.len()) + CLIPS_LABEL@
        + decimal(p.clips@.len()) + STATUS_LABEL@ + html(
        text_or(p.transcription@, "status"@, "unknown"@),
    ) + METHOD_LABEL@ + html(text_or(p.transcription@, "method"@, "-"@)) + NOTE_TRANSCRIPT@ + text
        + NOTE_GALLERY@;
    let back = NOTE_CLIPBOARD@ + grid(
        clip_cards(clip_views(p.clips@), p.clips@.len() as int),
        "<div>No clipboard captures in this session.</div>"@,
    ) + NOTE_ANNOTATOR@ + html(p.markdown@) + NOTE_COPY_TEXT@ + text + NOTE_SCRIPT@;
    lemma_page_regrouped(
        front,
        "<div class=\"grid\">"@ + cards + "</div>"@,
        NOTE_CLIPBOARD@,
        grid(
            clip_cards(clip_views(p.clips@), p.clips@.len() as int),
            "<div>No clipboard captures in this session.</div>"@,
        ),
        NOTE_ANNOTATOR@,
        html(p.markdown@),
        NOTE_COPY_TEXT@,
        text,
        NOTE_SCRIPT@,
    );
    lemma_grid_regrouped(front, "<div class=\"grid\">"@, cards, "</div>"@);
    (front, back)
}

// ---------------------------------------------------------------------------------------------
// The page of all sessions
// ---------------------------------------------------------------------------------------------

/// A session on the page of all sessions: its row, its transcript and its image files in order.
pub struct IndexEntry {
    pub row: SessionListRow,
    pub transcript: String,
    pub images: Vec<String>,
}

/// The thumbnail of an image file.
pub open spec fn thumb(session_id: Seq<char>, file: Seq<char>) -> Seq<char> {
    let rel = html("./"@ + session_id + "/screenshots/"@ + file);
    "<a class=\"thumb\" href=\""@ + rel + "\" target=\"_blank\" rel=\"noreferrer\"><img src=\""@
        + rel + "\" alt=\"Screenshot thumbnail for "@ + html(session_id)
        + "\" loading=\"lazy\" /></a>"@
}

/// The thumbnails of the first `n` image files.
pub open spec fn thumbs(session_id: Seq<char>, files: Seq<Seq<char>>, n: int) -> Seq<char>
    decreases n,
{
    if n <= 0 {
        Seq::empty()
    } else {
        thumbs(session_id, files, n - 1) + thumb(session_id, files[n - 1])
    }
}

/// How many thumbnails a row shows: eight at most.
pub open spec fn shown_thumbs(n: nat) -> nat {
    if n > 8 {
        8
    } else {
        n
    }
}

/// The transcript of a row as it is copied.
pub open spec fn copied_transcript(t: Seq<char>) -> Seq<char> {
    if trimmed(t).len() == 0 {
        "No transcript available."@
    } else {
        trimmed(t)
    }
}

/// The transcript of a row as it is shown, in one line.
pub open spec fn shown_transcript(t: Seq<char>) -> Seq<char> {
    if trimmed(t).len() == 0 {
        "No transcript available."@
    } else {
        joined(words_of(t), " "@)
    }
}

/// A row of the page of all sessions.
pub open spec fn index_row(e: IndexEntry) -> Seq<char> {
    let id = html(e.row.session_id@);
    let shown = html(shown_transcript(e.transcript@));
    let n = shown_thumbs(e.images@.len());
    "<article class=\"row\" data-href=\"./"@ + id
        + "/note.html\" tabindex=\"0\"><div class=\"main\"><div class=\"row-top\"><span class=\"session\">"@
        + id + "</span><span class=\"meta\">"@ + html(e.row.timestamp@)
        + "</span><span class=\"meta\">"@ + decimal(e.row.images as nat)
        + " images</span><span class=\"meta\">"@ + html(e.row.duration@)
        + "</span><button class=\"btn tiny copy-row-transcript\" data-transcript=\""@ + html(
        copied_transcript(e.transcript@),
    ) + "\" title=\"Copy transcript\">Copy</button></div><div class=\"transcript\" title=\""@ + shown
        + "\">"@ + shown + "</div></div><div class=\"thumbs\">"@ + (if n == 0 {
        "<div class=\"thumb-empty\">No screenshots.</div>"@
    } else {
        thumbs(e.row.session_id@, views(e.images@), n as int)
    }) + "</div></article>"@
}

/// The thumbnails of a session.
fn render_thumbs(session_id: &str, images: &Vec<String>) -> (r: String)
    ensures
        r@ == thumbs(session_id@, views(images@), shown_thumbs(images@.len()) as int),
{
    let ghost iv = views(images@);
    let n: usize = if images.len() > 8 {
        8
    } else {
        images.len()
    };
    let mut out = String::new();
    let mut i: usize = 0;
    while i < n
        invariant
            i <= n <= images.len(),
            iv == views(images@),
            out@ == thumbs(session_id@, iv, i as int),
        decreases n - i,
    {
        assert(iv[i as int] == images@[i as int]@);
        let mut path = concat3("./", session_id, "/screenshots/");
        path.append(images[i].as_str());
        let rel = html_escape(path.as_str());
        let ghost before = out@;
        let mut t = "<a class=\"thumb\" href=\"".to_owned();
        t.append(rel.as_str());
        t.append("\" target=\"_blank\" rel=\"noreferrer\"><img src=\"");
        t.append(rel.as_str());
        t.append("\" alt=\"Screenshot thumbnail for ");
        t.append(html_escape(session_id).as_str());
        t.append("\" loading=\"lazy\" /></a>");
        out.append(t.as_str());
        i = i + 1;
    }
    out
}

/// A row of the page of all sessions.
fn render_index_row(e: &IndexEntry) -> (r: String)
    ensures
        r@ == index_row(*e),
{
    let id = html_escape(e.row.session_id.as_str());
    let (copied, shown) = if is_blank(e.transcript.as_str()) {
        ("No transcript available.".to_owned(), "No transcript available.".to_owned())
    } else {
        (trim(e.transcript.as_str()), join(&words(e.transcript.as_str()), " "))
    };
    let shown = html_escape(shown.as_str());
    let mut out = "<article class=\"row\" data-href=\"./".to_owned();
    out.append(id.as_str());
    out.append(
        "/note.html\" tabindex=\"0\"><div class=\"main\"><div class=\"row-top\"><span class=\"session\">",
    );
    out.append(id.as_str());
    out.append("</span><span class=\"meta\">");
    out.append(html_escape(e.row.timestamp.as_str()).as_str());
    out.append("</span><span class=\"meta\">");
    out.append(decimal_text(e.row.images as u64).as_str());
    out.append(" images</span><span class=\"meta\">");
    out.append(html_escape(e.row.duration.as_str()).as_str());
    out.append("</span><button class=\"btn tiny copy-row-transcript\" data-transcript=\"");
    out.append(html_escape(copied.as_str()).as_str());
    out.append("\" title=\"Copy transcript\">Copy</button></div><div class=\"transcript\" title=\"");
    out.append(shown.as_str());
    out.append("\">");
    out.append(shown.as_str());
    out.append("</div></div><div class=\"thumbs\">");
    if e.images.len() == 0 {
        out.append("<div class=\"thumb-empty\">No screenshots.</div>");
    } else {
        out.append(render_thumbs(e.row.session_id.as_str(), &e.images).as_str());
    }
    out.append("</div></article>");
    out
}

/// The first `n` rows of the page of all sessions.
pub open spec fn index_rows(entries: Seq<IndexEntry>, n: int) -> Seq<char>
    decreases n,
{
    if n <= 0 {
        Seq::empty()
    } else {
        index_rows(entries, n - 1) + index_row(entries[n - 1])
    }
}

/// The page of all sessions.
pub open spec fn index_page(entries: Seq<IndexEntry>) -> Seq<char> {
    INDEX_OPEN@ + (if entries.len() == 0 {
        "<div class=\"empty\">No sessions found.</div>"@
    } else {
        "<div class=\"rows\">"@ + index_rows(entries, entries.len() as int) + "</div>"@
    }) + INDEX_CLOSE@
}

/// The page of all sessions, with a row for each.
pub fn build_sessions_index_html(entries: &Vec<IndexEntry>) -> (r: String)
    ensures
        r@ == index_page(entries@),
{
    let mut rows = String::new();
    let mut i: usize = 0;
    while i < entries.len()
        invariant
            i <= entries.len(),
            rows@ == index_rows(entries@, i as int),
        decreases entries.len() - i,
    {
        rows.append(render_index_row(&entries[i]).as_str());
        i = i + 1;
    }
    let content = if entries.len() == 0 {
        "<div class=\"empty\">No sessions found.</div>".to_owned()
    } else {
        concat3("<div class=\"rows\">", rows.as_str(), "</div>")
    };
    concat3(INDEX_OPEN, content.as_str(), INDEX_CLOSE)
}

/// The text that the page of a session offers for copying: its note, else its transcript.
pub fn copied_markdown(note: &Option<String>, transcript: &str) -> (r: String)
    ensures
        r@ == match opt_view(*note) {
            Some(n) => if trimmed(n).len() == 0 {
                transcript@
            } else {
                n
            },
            None => transcript@,
        },
{
    match note {
        Some(n) => if is_blank(n.as_str()) {
            transcript.to_owned()
        } else {
            n.clone()
        },
        None => transcript.to_owned(),
    }
}

// ---------------------------------------------------------------------------------------------
// What the pages show
// ---------------------------------------------------------------------------------------------

proof fn lemma_ends_with(pre: Seq<char>, a: Seq<char>, x: Seq<char>, b: Seq<char>)
    ensures
        contains(pre + a + x + b, a + x + b),
{
    lemma_part(pre + a + x + b, pre, a + x + b, Seq::empty());
}

/// The page of a session says when it began and ended, how long it is and how much was captured, each
/// at its place, shows its transcript, and offers its note for copying. All of it is escaped.
pub proof fn pages_say_what_a_session_is(p: PageInput)
    ensures
        contains(note_page(p), NOTE_META@ + html(p.started_iso@) + ENDED_LABEL@),
        contains(note_page(p), ENDED_LABEL@ + html(p.ended_iso@) + DURATION_LABEL@),
        contains(note_page(p), DURATION_LABEL@ + html(p.duration@) + SHOTS_LABEL@),
        contains(note_page(p), SHOTS_LABEL@ + decimal(p.shots@.len()) + CLIPS_LABEL@),
        contains(note_page(p), CLIPS_LABEL@ + decimal(p.clips@.len()) + STATUS_LABEL@),
        trimmed(p.transcript@).len() > 0 ==> contains(
            note_page(p),
            NOTE_TRANSCRIPT@ + html(trimmed(p.transcript@)) + NOTE_GALLERY@,
        ),
        trimmed(p.transcript@).len() > 0 ==> contains(
            note_page(p),
            NOTE_COPY_TEXT@ + html(trimmed(p.transcript@)) + NOTE_SCRIPT@,
        ),
        contains(note_page(p), NOTE_ANNOTATOR@ + html(p.markdown@) + NOTE_COPY_TEXT@),
        contains(note_page(p), NOTE_STYLES@ + html(p.session_id@) + NOTE_NAV@),
        contains(note_page(p), NOTE_NAV@ + html(p.index_href@) + NOTE_META@),
{
    let text = html(transcript_line(p.transcript@));
    let gallery = grid(
        shot_cards(p.session_dir@, shot_views(p.shots@), p.shots@.len() as int),
        "<div>No screenshots in this session.</div>"@,
    );
    let clips = grid(
        clip_cards(clip_views(p.clips@), p.clips@.len() as int),
        "<div>No clipboard captures in this session.</div>"@,
    );
    lemma_page_parts(
        NOTE_OPEN@ + html(p.session_id@),
        NOTE_STYLES@,
        html(p.session_id@),
        NOTE_NAV@,
        html(p.index_href@),
        NOTE_META@,
        html(p.started_iso@),
        ENDED_LABEL@,
        html(p.ended_iso@),
        DURATION_LABEL@,
        html(p.duration@),
        SHOTS_LABEL@,
        decimal(p.shots@.len()),
        CLIPS_LABEL@,
        decimal(p.clips@.len()),
        STATUS_LABEL@,
        html(text_or(p.transcription@, "status"@, "unknown"@)),
        METHOD_LABEL@,
        html(text_or(p.transcription@, "method"@, "-"@)),
        NOTE_TRANSCRIPT@,
        text,
        NOTE_GALLERY@,
        gallery,
        NOTE_CLIPBOARD@,
        clips,
        NOTE_ANNOTATOR@,
        html(p.markdown@),
        NOTE_COPY_TEXT@,
        NOTE_SCRIPT@,
    );
}

proof fn lemma_page_parts(
    a: Seq<char>,
    styles: Seq<char>,
    id: Seq<char>,
    nav: Seq<char>,
    href: Seq<char>,
    meta: Seq<char>,
    started: Seq<char>,
    l1: Seq<char>,
    ended: Seq<char>,
    l2: Seq<char>,
    duration: Seq<char>,
    l3: Seq<char>,
    shots: Seq<char>,
    l4: Seq<char>,
    clips: Seq<char>,
    l5: Seq<char>,
    status: Seq<char>,
    l6: Seq<char>,
    method: Seq<char>,
    l7: Seq<char>,
    text: Seq<char>,
    l8: Seq<char>,
    gallery: Seq<char>,
    l9: Seq<char>,
    copied: Seq<char>,
    l10: Seq<char>,
    markdown: Seq<char>,
    l11: Seq<char>,
    l12: Seq<char>,
)
    ensures
        ({
            let page = a + styles + id + nav + href + meta + started + l1 + ended + l2 + duration
                + l3 + shots + l4 + clips + l5 + status + l6 + method + l7 + text + l8 + gallery
                + l9 + copied + l10 + markdown + l11 + text + l12;
            &&& contains(page, styles + id + nav)
            &&& contains(page, nav + href + meta)
            &&& contains(page, meta + started + l1)
            &&& contains(page, l1 + ended + l2)
            &&& contains(page, l2 + duration + l3)
            &&& contains(page, l3 + shots + l4)
            &&& contains(page, l4 + clips + l5)
            &&& contains(page, l7 + text + l8)
            &&& contains(page, l10 + markdown + l11)
            &&& contains(page, l11 + text + l12)
        }),
{
    let s1 = a + styles + id + nav;
    let s2 = s1 + href + meta;
    let s3 = s2 + started + l1;
    let s4 = s3 + ended + l2;
    let s5 = s4 + duration + l3;
    let s6 = s5 + shots + l4;
    let s7 = s6 + clips + l5;
    let s8 = s7 + status + l6 + method + l7 + text + l8;
    let s9 = s8 + gallery + l9 + copied + l10 + markdown + l11;
    let page = s9 + text + l12;
    lemma_ends_with(a, styles, id, nav);
    lemma_ends_with(a + styles + id, nav, href, meta);
    lemma_ends_with(s1 + href, meta, started, l1);
    lemma_ends_with(s2 + started, l1, ended, l2);
    lemma_ends_with(s3 + ended, l2, duration, l3);
    lemma_ends_with(s4 + duration, l3, shots, l4);
    lemma_ends_with(s5 + shots, l4, clips, l5);
    lemma_ends_with(s7 + status + l6 + method, l7, text, l8);
    lemma_ends_with(s8 + gallery + l9 + copied, l10, markdown, l11);
    lemma_ends_with(s8 + gallery + l9 + copied + l10 + markdown, l11, text, l12);
    let p1 = styles + id + nav;
    lemma_two_more(s1, href, meta, p1);
    let p2 = nav + href + meta;
    lemma_two_more(s2, started, l1, p1);
    lemma_two_more(s2, started, l1, p2);
    let p3 = meta + started + l1;
    lemma_two_more(s3, ended, l2, p1);
    lemma_two_more(s3, ended, l2, p2);
    lemma_two_more(s3, ended, l2, p3);
    let p4 = l1 + ended + l2;
    lemma_two_more(s4, duration, l3, p1);
    lemma_two_more(s4, duration, l3, p2);
    lemma_two_more(s4, duration, l3, p3);
    lemma_two_more(s4, duration, l3, p4);
    let p5 = l2 + duration + l3;
    lemma_two_more(s5, shots, l4, p1);
    lemma_two_more(s5, shots, l4, p2);
    lemma_two_more(s5, shots, l4, p3);
    lemma_two_more(s5, shots, l4, p4);
    lemma_two_more(s5, shots, l4, p5);
    let p6 = l3 + shots + l4;
    lemma_two_more(s6, clips, l5, p1);
    lemma_two_more(s6, clips, l5, p2);
    lemma_two_more(s6, clips, l5, p3);
    lemma_two_more(s6, clips, l5, p4);
    lemma_two_more(s6, clips, l5, p5);
    lemma_two_more(s6, clips, l5, p6);
    let p7 = l4 + clips + l5;
    let p8 = l7 + text + l8;
    let parts = seq![p1, p2, p3, p4, p5, p6, p7];
    assert forall|k: int| 0 <= k < 7 implies contains(page, #[trigger] parts[k]) by {
        let q = parts[k];
        lemma_two_more(s7, status, l6, q);
        lemma_two_more(s7 + status + l6, method, l7, q);
        lemma_two_more(s7 + status + l6 + method + l7, text, l8, q);
        lemma_six_more(s8, gallery, l9, copied, l10, markdown, l11, q);
        lemma_two_more(s9, text, l12, q);
    }
    assert(parts[0] == p1 && parts[1] == p2 && parts[2] == p3 && parts[3] == p4 && parts[4] == p5
        && parts[5] == p6 && parts[6] == p7);
    lemma_six_more(s8, gallery, l9, copied, l10, markdown, l11, p8);
    lemma_two_more(s9, text, l12, p8);
    lemma_two_more(s9, text, l12, l10 + markdown + l11);
}

/// A text that goes on by two parts holds what it held.
pub proof fn lemma_two_more(s: Seq<char>, a: Seq<char>, b: Seq<char>, part: Seq<char>)
    requires
        contains(s, part),
    ensures
        contains(s + a + b, part),
{
    lemma_more(s, a, part);
    lemma_more(s + a, b, part);
}

/// A text that goes on by six parts holds what it held.
pub proof fn lemma_six_more(
    s: Seq<char>,
    a: Seq<char>,
    b: Seq<char>,
    c: Seq<char>,
    d: Seq<char>,
    e: Seq<char>,
    f: Seq<char>,
    part: Seq<char>,
)
    requires
        contains(s, part),
    ensures
        contains(s + a + b + c + d + e + f, part),
{
    lemma_two_more(s, a, b, part);
    lemma_two_more(s + a + b, c, d, part);
    lemma_two_more(s + a + b + c + d, e, f, part);
}

/// The page of a session shows every clipboard text, each right behind the one before it.
pub proof fn pages_show_every_clip(p: PageInput, i: int)
    requires
        0 <= i < p.clips@.len(),
    ensures
        contains(note_page(p), clip_card(p.clips@[i]@)),
        i > 0 ==> contains(note_page(p), clip_card(p.clips@[i - 1]@) + clip_card(p.clips@[i]@)),
        i == 0 ==> contains(note_page(p), "<div class=\"grid\">"@ + clip_card(p.clips@[0]@)),
        i == p.clips@.len() - 1 ==> contains(note_page(p), clip_card(p.clips@[i]@) + "</div>"@),
{
    let cv = clip_views(p.clips@);
    let n = cv.len() as int;
    assert(cv[i] == p.clips@[i]@);
    let cards = clip_cards(cv, n);
    lemma_clips_are_filled(cv, n);
    let text = html(transcript_line(p.transcript@));
    let front = NOTE_OPEN@ + html(p.session_id@) + NOTE_STYLES@ + html(p.session_id@) + NOTE_NAV@
        + html(p.index_href@) + NOTE_META@ + html(p.started_iso@) + ENDED_LABEL@ + html(
        p.ended_iso@,
    ) + DURATION_LABEL@ + html(p.duration@) + SHOTS_LABEL@ + decimal(p.shots@.len()) + CLIPS_LABEL@
        + decimal(p.clips@.len()) + STATUS_LABEL@ + html(
        text_or(p.transcription@, "status"@, "unknown"@),
    ) + METHOD_LABEL@ + html(text_or(p.transcription@, "method"@, "-"@)) + NOTE_TRANSCRIPT@ + text
        + NOTE_GALLERY@ + grid(
        shot_cards(p.session_dir@, shot_views(p.shots@), p.shots@.len() as int),
        "<div>No screenshots in this session.</div>"@,
    ) + NOTE_CLIPBOARD@;
    lemma_clips_around(cv, i, n);
    let before = clip_cards(cv, i);
    let card = clip_card(cv[i]);
    let after = clips_behind(cv, i + 1, n);
    let open = "<div class=\"grid\">"@;
    let close = "</div>"@;
    let first = clip_cards(cv, i - 1);
    let prior = clip_card(cv[i - 1]);
    if i > 0 {
        assert(cv[i - 1] == p.clips@[i - 1]@);
    }
    lemma_grid_regrouped(front, open, cards, close);
    lemma_nothing_added(front + open + cards + close);
    lemma_card_in_gallery(front, open, before, card, after, close, Seq::empty(), first, prior);
    let page = front + open + cards + close;
    let a = NOTE_ANNOTATOR@;
    let b = html(p.markdown@);
    let c = NOTE_COPY_TEXT@;
    let d = NOTE_SCRIPT@;
    lemma_four_more(page, a, b, c, text, d, card);
    if i > 0 {
        lemma_four_more(page, a, b, c, text, d, prior + card);
    }
    if i == 0 {
        lemma_four_more(page, a, b, c, text, d, open + card);
    }
    if i == n - 1 {
        lemma_four_more(page, a, b, c, text, d, card + close);
    }
}

proof fn lemma_four_more(
    s: Seq<char>,
    a: Seq<char>,
    b: Seq<char>,
    c: Seq<char>,
    d: Seq<char>,
    e: Seq<char>,
    part: Seq<char>,
)
    requires
        contains(s, part),
    ensures
        contains(s + a + b + c + d + e, part),
{
    lemma_two_more(s, a, b, part);
    lemma_two_more(s + a + b, c, d, part);
    lemma_more(s + a + b + c + d, e, part);
}

/// The cards from `from` on, up to `n`.
spec fn clips_behind(clips: Seq<ClipView>, from: int, n: int) -> Seq<char>
    decreases n - from,
{
    if from >= n {
        Seq::empty()
    } else {
        clips_behind(clips, from, n - 1) + clip_card(clips[n - 1])
    }
}

proof fn lemma_clips_around(clips: Seq<ClipView>, i: int, n: int)
    requires
        0 <= i < n,
    ensures
        clip_cards(clips, n) == clip_cards(clips, i) + clip_card(clips[i]) + clips_behind(
            clips,
            i + 1,
            n,
        ),
    decreases n,
{
    let upto = clip_cards(clips, i) + clip_card(clips[i]);
    if i < n - 1 {
        lemma_clips_around(clips, i, n - 1);
        lemma_regrouped(upto, clips_behind(clips, i + 1, n - 1), clip_card(clips[n - 1]));
    } else {
        lemma_nothing_added(upto);
    }
}

proof fn lemma_clips_are_filled(clips: Seq<ClipView>, n: int)
    requires
        0 < n,
    ensures
        clip_cards(clips, n).len() > 0,
{
    reveal_strlit(" chars</div></div>");
    reveal(clip_card);
    assert(clip_card(clips[n - 1]).len() > 0);
}

/// The card of a clipboard text names it, has the whole text for copying, and shows its start.
pub proof fn cards_show_their_clip(c: ClipView)
    ensures
        contains(clip_card(c), "<strong>Clipboard "@ + decimal(c.clip_id as nat) + "<"@),
        contains(clip_card(c), "data-text=\""@ + html(c.text) + "\""@),
        contains(clip_card(c), "<div class=\"transcript\">"@ + html(preview(c.text, 300)) + "<"@),
        contains(clip_card(c), " · "@ + decimal(c.text.len()) + " chars<"@),
{
    let a = "<div class=\"card\"><div class=\"card-head\"><strong>Clipboard "@;
    let b = "</strong><button class=\"btn small copy-clip\" data-text=\""@;
    let d = "\">Copy text</button></div><div class=\"transcript\">"@;
    let e = "</div><div class=\"path\">t="@;
    let f = " · "@;
    let g = " chars</div></div>"@;
    lemma_clip_literals();
    reveal(clip_card);
    let n = decimal(c.clip_id as nat);
    let t = html(c.text);
    let v = html(preview(c.text, 300));
    let h = html(hms(measure_of(c.audio_sec).whole_of() as nat));
    let m = decimal(c.text.len());
    let p1 = "<strong>Clipboard "@ + n + "<"@;
    let p2 = "data-text=\""@ + t + "\""@;
    let p3 = "<div class=\"transcript\">"@ + v + "<"@;
    lemma_first_between(a, n, b, "<strong>Clipboard "@, "<"@);
    lemma_between(a + n, b, t, d, "data-text=\""@, "\""@);
    lemma_between(a + n + b + t, d, v, e, "<div class=\"transcript\">"@, "<"@);
    lemma_between(a + n + b + t + d + v + e + h, f, m, g, " · "@, " chars<"@);
    lemma_two_more(a + n + b, t, d, p1);
    lemma_two_more(a + n + b + t + d, v, e, p1);
    lemma_two_more(a + n + b + t + d, v, e, p2);
    let s = a + n + b + t + d + v + e;
    lemma_two_more(s, h, f, p1);
    lemma_two_more(s, h, f, p2);
    lemma_two_more(s, h, f, p3);
    lemma_two_more(s + h + f, m, g, p1);
    lemma_two_more(s + h + f, m, g, p2);
    lemma_two_more(s + h + f, m, g, p3);
}

proof fn lemma_clip_literals()
    ensures
        "<strong>Clipboard "@.is_suffix_of(
            "<div class=\"card\"><div class=\"card-head\"><strong>Clipboard "@,
        ),
        "<"@.is_prefix_of("</strong><button class=\"btn small copy-clip\" data-text=\""@),
        "data-text=\""@.is_suffix_of(
            "</strong><button class=\"btn small copy-clip\" data-text=\""@,
        ),
        "\""@.is_prefix_of("\">Copy text</button></div><div class=\"transcript\">"@),
        "<div class=\"transcript\">"@.is_suffix_of(
            "\">Copy text</button></div><div class=\"transcript\">"@,
        ),
        "<"@.is_prefix_of("</div><div class=\"path\">t="@),
        " · "@.is_suffix_of(" · "@),
        " chars<"@.is_prefix_of(" chars</div></div>"@),
{
    reveal_strlit("<strong>Clipboard ");
    reveal_strlit("<div class=\"card\"><div class=\"card-head\"><strong>Clipboard ");
    reveal_strlit("<");
    reveal_strlit("</strong><button class=\"btn small copy-clip\" data-text=\"");
    reveal_strlit("data-text=\"");
    reveal_strlit("\"");
    reveal_strlit("\">Copy text</button></div><div class=\"transcript\">");
    reveal_strlit("<div class=\"transcript\">");
    reveal_strlit("</div><div class=\"path\">t=");
    reveal_strlit(" chars<");
    reveal_strlit(" chars</div></div>");
    assert(" · "@.subrange(0, " · "@.len() as int) =~= " · "@);
}

/// The page of all sessions has a row for each, in their order, each right behind the one before it.
pub proof fn index_pages_show_every_session(entries: Seq<IndexEntry>, i: int)
    requires
        0 <= i < entries.len(),
    ensures
        contains(index_page(entries), index_row(entries[i])),
        i > 0 ==> contains(index_page(entries), index_row(entries[i - 1]) + index_row(entries[i])),
        i == 0 ==> contains(index_page(entries), "<div class=\"rows\">"@ + index_row(entries[0])),
        i == entries.len() - 1 ==> contains(index_page(entries), index_row(entries[i]) + "</div>"@),
{
    let n = entries.len() as int;
    let open = "<div class=\"rows\">"@;
    let close = "</div>"@;
    lemma_rows_around(entries, i, n);
    let before = index_rows(entries, i);
    let row = index_row(entries[i]);
    let after = rows_behind(entries, i + 1, n);
    lemma_grid_regrouped(INDEX_OPEN@, open, index_rows(entries, n), close);
    lemma_card_in_gallery(
        INDEX_OPEN@,
        open,
        before,
        row,
        after,
        close,
        INDEX_CLOSE@,
        index_rows(entries, i - 1),
        index_row(entries[i - 1]),
    );
}

/// The rows from `from` on, up to `n`.
spec fn rows_behind(entries: Seq<IndexEntry>, from: int, n: int) -> Seq<char>
    decreases n - from,
{
    if from >= n {
        Seq::empty()
    } else {
        rows_behind(entries, from, n - 1) + index_row(entries[n - 1])
    }
}

proof fn lemma_rows_around(entries: Seq<IndexEntry>, i: int, n: int)
    requires
        0 <= i < n,
    ensures
        index_rows(entries, n) == index_rows(entries, i) + index_row(entries[i]) + rows_behind(
            entries,
            i + 1,
            n,
        ),
    decreases n,
{
    let upto = index_rows(entries, i) + index_row(entries[i]);
    if i < n - 1 {
        lemma_rows_around(entries, i, n - 1);
        lemma_regrouped(upto, rows_behind(entries, i + 1, n - 1), index_row(entries[n - 1]));
    } else {
        lemma_nothing_added(upto);
    }
}

/// The thumbnails of one file more are those before and that of the file behind them, and a row shows
/// eight at most.
pub proof fn thumbnails_come_in_order(session_id: Seq<char>, files: Seq<Seq<char>>, file: Seq<char>)
    ensures
        thumbs(session_id, files.push(file), files.len() + 1int) == thumbs(
            session_id,
            files,
            files.len() as int,
        ) + thumb(session_id, file),
        thumbs(session_id, files, 0).len() == 0,
        files.len() <= 8 ==> shown_thumbs(files.len()) == files.len(),
        files.len() > 8 ==> shown_thumbs(files.len()) == 8,
{
    lemma_thumbs_prefix(session_id, files, file, files.len() as int);
    assert(files.push(file)[files.len() as int] == file);
}

proof fn lemma_thumbs_prefix(
    session_id: Seq<char>,
    files: Seq<Seq<char>>,
    file: Seq<char>,
    n: int,
)
    requires
        0 <= n <= files.len(),
    ensures
        thumbs(session_id, files.push(file), n) == thumbs(session_id, files, n),
    decreases n,
{
    if n > 0 {
        lemma_thumbs_prefix(session_id, files, file, n - 1);
        assert(files.push(file)[n - 1] == files[n - 1]);
    }
}

/// A row leads to the page of its session and says when that was, how many images it has and how long
/// it is; it shows the transcript in one line and has it for copying.
pub proof fn rows_lead_to_their_session(e: IndexEntry)
    ensures
        ({
            let row = index_row(e);
            let id = html(e.row.session_id@);
            &&& contains(row, "data-href=\"./"@ + id + "/note.html\""@)
            &&& contains(row, "<span class=\"session\">"@ + id + "<"@)
            &&& contains(row, "<span class=\"meta\">"@ + html(e.row.timestamp@) + "<"@)
            &&& contains(row, "<span class=\"meta\">"@ + decimal(e.row.images as nat) + " images"@)
            &&& contains(row, "<span class=\"meta\">"@ + html(e.row.duration@) + "<"@)
            &&& trimmed(e.transcript@).len() > 0 ==> contains(
                row,
                "data-transcript=\""@ + html(trimmed(e.transcript@)) + "\""@,
            )
            &&& trimmed(e.transcript@).len() > 0 ==> contains(
                row,
                "\">"@ + html(joined(words_of(e.transcript@), " "@)) + "</div>"@,
            )
        }),
{
    lemma_row_literals();
    let id = html(e.row.session_id@);
    let shown = html(shown_transcript(e.transcript@));
    let n = shown_thumbs(e.images@.len());
    let tail = if n == 0 {
        "<div class=\"thumb-empty\">No screenshots.</div>"@
    } else {
        thumbs(e.row.session_id@, views(e.images@), n as int)
    };
    lemma_row_parts(
        "<article class=\"row\" data-href=\"./"@,
        id,
        "/note.html\" tabindex=\"0\"><div class=\"main\"><div class=\"row-top\"><span class=\"session\">"@,
        "</span><span class=\"meta\">"@,
        html(e.row.timestamp@),
        decimal(e.row.images as nat),
        " images</span><span class=\"meta\">"@,
        html(e.row.duration@),
        "</span><button class=\"btn tiny copy-row-transcript\" data-transcript=\""@,
        html(copied_transcript(e.transcript@)),
        "\" title=\"Copy transcript\">Copy</button></div><div class=\"transcript\" title=\""@,
        shown,
        "\">"@,
        "</div></div><div class=\"thumbs\">"@,
        tail,
        "</div></article>"@,
    );
}

proof fn lemma_row_parts(
    a: Seq<char>,
    id: Seq<char>,
    b: Seq<char>,
    meta: Seq<char>,
    time: Seq<char>,
    images: Seq<char>,
    c: Seq<char>,
    duration: Seq<char>,
    d: Seq<char>,
    copied: Seq<char>,
    e: Seq<char>,
    shown: Seq<char>,
    f: Seq<char>,
    g: Seq<char>,
    tail: Seq<char>,
    h: Seq<char>,
)
    requires
        "data-href=\"./"@.is_suffix_of(a),
        "/note.html\""@.is_prefix_of(b),
        "<span class=\"session\">"@.is_suffix_of(b),
        "<"@.is_prefix_of(meta),
        "<span class=\"meta\">"@.is_suffix_of(meta),
        " images"@.is_prefix_of(c),
        "<span class=\"meta\">"@.is_suffix_of(c),
        "<"@.is_prefix_of(d),
        "data-transcript=\""@.is_suffix_of(d),
        "\""@.is_prefix_of(e),
        "\">"@.is_suffix_of(f),
        "</div>"@.is_prefix_of(g),
    ensures
        ({
            let row = a + id + b + id + meta + time + meta + images + c + duration + d + copied + e
                + shown + f + shown + g + tail + h;
            &&& contains(row, "data-href=\"./"@ + id + "/note.html\""@)
            &&& contains(row, "<span class=\"session\">"@ + id + "<"@)
            &&& contains(row, "<span class=\"meta\">"@ + time + "<"@)
            &&& contains(row, "<span class=\"meta\">"@ + images + " images"@)
            &&& contains(row, "<span class=\"meta\">"@ + duration + "<"@)
            &&& contains(row, "data-transcript=\""@ + copied + "\""@)
            &&& contains(row, "\">"@ + shown + "</div>"@)
        }),
{
    let s1 = a + id + b;
    let s2 = s1 + id + meta;
    let s3 = s2 + time + meta;
    let s4 = s3 + images + c;
    let s5 = s4 + duration + d;
    let s6 = s5 + copied + e;
    let s7 = s6 + shown + f;
    let s8 = s7 + shown + g;
    let p1 = "data-href=\"./"@ + id + "/note.html\""@;
    let p2 = "<span class=\"session\">"@ + id + "<"@;
    let p3 = "<span class=\"meta\">"@ + time + "<"@;
    let p4 = "<span class=\"meta\">"@ + images + " images"@;
    let p5 = "<span class=\"meta\">"@ + duration + "<"@;
    let p6 = "data-transcript=\""@ + copied + "\""@;
    let p7 = "\">"@ + shown + "</div>"@;
    lemma_first_between(a, id, b, "data-href=\"./"@, "/note.html\""@);
    lemma_between(a + id, b, id, meta, "<span class=\"session\">"@, "<"@);
    lemma_between(s1 + id, meta, time, meta, "<span class=\"meta\">"@, "<"@);
    lemma_between(s2 + time, meta, images, c, "<span class=\"meta\">"@, " images"@);
    lemma_between(s3 + images, c, duration, d, "<span class=\"meta\">"@, "<"@);
    lemma_between(s4 + duration, d, copied, e, "data-transcript=\""@, "\""@);
    lemma_between(s6 + shown, f, shown, g, "\">"@, "</div>"@);
    lemma_two_more(s1, id, meta, p1);
    lemma_two_more(s2, time, meta, p1);
    lemma_two_more(s2, time, meta, p2);
    lemma_two_more(s3, images, c, p1);
    lemma_two_more(s3, images, c, p2);
    lemma_two_more(s3, images, c, p3);
    lemma_two_more(s4, duration, d, p1);
    lemma_two_more(s4, duration, d, p2);
    lemma_two_more(s4, duration, d, p3);
    lemma_two_more(s4, duration, d, p4);
    lemma_six_more(s5, copied, e, shown, f, shown, g, p1);
    lemma_six_more(s5, copied, e, shown, f, shown, g, p2);
    lemma_six_more(s5, copied, e, shown, f, shown, g, p3);
    lemma_six_more(s5, copied, e, shown, f, shown, g, p4);
    lemma_six_more(s5, copied, e, shown, f, shown, g, p5);
    lemma_two_more(s6, shown, f, p6);
    lemma_two_more(s7, shown, g, p6);
    lemma_two_more(s8, tail, h, p1);
    lemma_two_more(s8, tail, h, p2);
    lemma_two_more(s8, tail, h, p3);
    lemma_two_more(s8, tail, h, p4);
    lemma_two_more(s8, tail, h, p5);
    lemma_two_more(s8, tail, h, p6);
    lemma_two_more(s8, tail, h, p7);
}

proof fn lemma_row_literals()
    ensures
        "data-href=\"./"@.is_suffix_of("<article class=\"row\" data-href=\"./"@),
        "/note.html\""@.is_prefix_of(
            "/note.html\" tabindex=\"0\"><div class=\"main\"><div class=\"row-top\"><span class=\"session\">"@,
        ),
        "<span class=\"session\">"@.is_suffix_of(
            "/note.html\" tabindex=\"0\"><div class=\"main\"><div class=\"row-top\"><span class=\"session\">"@,
        ),
        "<"@.is_prefix_of("</span><span class=\"meta\">"@),
        "<span class=\"meta\">"@.is_suffix_of("</span><span class=\"meta\">"@),
        " images"@.is_prefix_of(" images</span><span class=\"meta\">"@),
        "<span class=\"meta\">"@.is_suffix_of(" images</span><span class=\"meta\">"@),
        "<"@.is_prefix_of(
            "</span><button class=\"btn tiny copy-row-transcript\" data-transcript=\""@,
        ),
        "data-transcript=\""@.is_suffix_of(
            "</span><button class=\"btn tiny copy-row-transcript\" data-transcript=\""@,
        ),
        "\""@.is_prefix_of(
            "\" title=\"Copy transcript\">Copy</button></div><div class=\"transcript\" title=\""@,
        ),
        "\">"@.is_suffix_of("\">"@),
        "</div>"@.is_prefix_of("</div></div><div class=\"thumbs\">"@),
{
    reveal_strlit("data-href=\"./");
    reveal_strlit("<article class=\"row\" data-href=\"./");
    reveal_strlit("/note.html\"");
    reveal_strlit(
        "/note.html\" tabindex=\"0\"><div class=\"main\"><div class=\"row-top\"><span class=\"session\">",
    );
    reveal_strlit("<span class=\"session\">");
    reveal_strlit("<");
    reveal_strlit("</span><span class=\"meta\">");
    reveal_strlit("<span class=\"meta\">");
    reveal_strlit(" images");
    reveal_strlit(" images</span><span class=\"meta\">");
    reveal_strlit("</span><button class=\"btn tiny copy-row-transcript\" data-transcript=\"");
    reveal_strlit("data-transcript=\"");
    reveal_strlit("\"");
    reveal_strlit(
        "\" title=\"Copy transcript\">Copy</button></div><div class=\"transcript\" title=\"",
    );
    reveal_strlit("\">");
    reveal_strlit("</div>");
    reveal_strlit("</div></div><div class=\"thumbs\">");
}

/// A thumbnail shows its file and leads to it.
pub proof fn thumbnails_show_their_file(session_id: Seq<char>, file: Seq<char>)
    ensures
        ({
            let rel = html("./"@ + session_id + "/screenshots/"@ + file);
            &&& contains(thumb(session_id, file), "href=\""@ + rel + "\""@)
            &&& contains(thumb(session_id, file), "<img src=\""@ + rel + "\""@)
        }),
{
    let rel = html("./"@ + session_id + "/screenshots/"@ + file);
    let a = "<a class=\"thumb\" href=\""@;
    let b = "\" target=\"_blank\" rel=\"noreferrer\"><img src=\""@;
    let c = "\" alt=\"Screenshot thumbnail for "@;
    reveal_strlit("<a class=\"thumb\" href=\"");
    reveal_strlit("\" target=\"_blank\" rel=\"noreferrer\"><img src=\"");
    reveal_strlit("\" alt=\"Screenshot thumbnail for ");
    reveal_strlit("href=\"");
    reveal_strlit("<img src=\"");
    reveal_strlit("\"");
    lemma_first_between(a, rel, b, "href=\""@, "\""@);
    lemma_between(a + rel, b, rel, c, "<img src=\""@, "\""@);
    let p1 = "href=\""@ + rel + "\""@;
    lemma_two_more(a + rel + b, rel, c, p1);
    let d = "\" loading=\"lazy\" /></a>"@;
    lemma_two_more(a + rel + b + rel + c, html(session_id), d, p1);
    lemma_two_more(a + rel + b + rel + c, html(session_id), d, "<img src=\""@ + rel + "\""@);
}

/// The characters that mean something in a page are written out, and every other one stands for
/// itself.
pub proof fn characters_are_written_out(c: char)
    ensures
        html(seq!['&']) == "&amp;"@,
        html(seq!['<']) == "&lt;"@,
        html(seq!['>']) == "&gt;"@,
        html(seq!['"']) == "&quot;"@,
        html(seq!['\'']) == "&#39;"@,
        c != '&' && c != '<' && c != '>' && c != '"' && c != '\'' ==> html(seq![c]) == seq![c],
        html(Seq::empty()) == Seq::<char>::empty(),
{
    reveal_strlit("&");
    reveal_strlit("&amp;");
    reveal_strlit("<");
    reveal_strlit("&lt;");
    reveal_strlit(">");
    reveal_strlit("&gt;");
    reveal_strlit("\"");
    reveal_strlit("&quot;");
    reveal_strlit("'");
    reveal_strlit("&#39;");
    lemma_replaced_itself("&"@, "&amp;"@);
    lemma_replaced_itself("<"@, "&lt;"@);
    lemma_replaced_itself(">"@, "&gt;"@);
    lemma_replaced_itself("\""@, "&quot;"@);
    lemma_replaced_itself("'"@, "&#39;"@);
    assert(seq!['&'] =~= "&"@);
    assert(seq!['<'] =~= "<"@);
    assert(seq!['>'] =~= ">"@);
    assert(seq!['"'] =~= "\""@);
    assert(seq!['\''] =~= "'"@);
    let lists = seq![
        seq!['&'], "&amp;"@, seq!['<'], "&lt;"@, seq!['>'], "&gt;"@, seq!['"'], "&quot;"@,
        seq!['\''], "&#39;"@, seq![c], Seq::<char>::empty(),
    ];
    assert forall|k: int| 0 <= k < lists.len() implies {
        let s = #[trigger] lists[k];
        &&& !s.contains('&') ==> replaced(s, "&"@, "&amp;"@) == s
        &&& !s.contains('<') ==> replaced(s, "<"@, "&lt;"@) == s
        &&& !s.contains('>') ==> replaced(s, ">"@, "&gt;"@) == s
        &&& !s.contains('"') ==> replaced(s, "\""@, "&quot;"@) == s
        &&& !s.contains('\'') ==> replaced(s, "'"@, "&#39;"@) == s
    } by {
        let s = lists[k];
        lemma_replaced_nowhere(s, "&"@, "&amp;"@);
        lemma_replaced_nowhere(s, "<"@, "&lt;"@);
        lemma_replaced_nowhere(s, ">"@, "&gt;"@);
        lemma_replaced_nowhere(s, "\""@, "&quot;"@);
        lemma_replaced_nowhere(s, "'"@, "&#39;"@);
    }
    assert(lists[0] == seq!['&'] && lists[1] == "&amp;"@ && lists[2] == seq!['<']);
    assert(lists[3] == "&lt;"@ && lists[4] == seq!['>'] && lists[5] == "&gt;"@);
    assert(lists[6] == seq!['"'] && lists[7] == "&quot;"@ && lists[8] == seq!['\'']);
    assert(lists[9] == "&#39;"@ && lists[10] == seq![c] && lists[11] == Seq::<char>::empty());
}

/// Nothing is replaced where there is nothing to replace.
pub proof fn lemma_replaced_nowhere(s: Seq<char>, p: Seq<char>, with: Seq<char>)
    requires
        p.len() == 1,
    ensures
        !s.contains(p[0]) ==> replaced(s, p, with) == s,
{
    if !s.contains(p[0]) {
        if contains(s, p) {
            let i = choose|i: int| #[trigger] occurs_at(s, p, i);
            assert(s.subrange(i, i + 1)[0] == s[i]);
        }
        lemma_one_piece(s, p, with);
    }
}

/// What is to be replaced, alone, is replaced.
pub proof fn lemma_replaced_itself(p: Seq<char>, with: Seq<char>)
    requires
        p.len() == 1,
    ensures
        replaced(p, p, with) == with,
{
    assert(p.subrange(0, 1) =~= p);
    assert(occurs_at(p, p, 0));
    assert(find_from(p, p, 0) == Some(0int));
    assert(find_from(p, p, 1) is None);
    reveal_with_fuel(replaced_from, 2);
    assert(p.subrange(0, 0) + with + p.subrange(1, 1) =~= with);
}

/// A transcript is copied as it is, without the white space around, and shown on one line; where there
/// is none that is said.
pub proof fn missing_transcripts_are_said_so(t: Seq<char>)
    ensures
        trimmed(t).len() == 0 ==> copied_transcript(t) == "No transcript available."@
            && shown_transcript(t) == "No transcript available."@,
        trimmed(t).len() > 0 ==> copied_transcript(t) == trimmed(t) && shown_transcript(t) == joined(
            words_of(t),
            " "@,
        ),
{
}

/// A page of sessions without any says so.
pub proof fn empty_index_pages_say_so(entries: Seq<IndexEntry>)
    ensures
        entries.len() == 0 ==> index_page(entries) == INDEX_OPEN@
            + "<div class=\"empty\">No sessions found.</div>"@ + INDEX_CLOSE@,
        entries.len() > 0 ==> index_page(entries) == INDEX_OPEN@ + ("<div class=\"rows\">"@
            + index_rows(entries, entries.len() as int) + "</div>"@) + INDEX_CLOSE@,
{
}

} // verus!
