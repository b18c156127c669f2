//! Chapters: the images of a chapter page, and the chapter list of a comic
//! page.
use vstd::prelude::*;

use crate::db::{
    chapter_fields_view, chapter_params_view, images_view, strings_view, ChapterFieldView,
    ChapterUpdate, ChapterUpdateField, DaftChapter, DbUtils, ImageSource,
};
use crate::pattern::{all_groups_view, captures_all, groups_view, matches_view, regex_captures_all};
use crate::text::{
    chars_of, contains, contains_spec, lit, replace, replace_spec, string_of, trim, trim_spec,
};

verus! {

/// Group `k` of a match, when it took part.
pub open spec fn group_of(g: Seq<Option<Seq<char>>>, k: int) -> Option<Seq<char>> {
    if 0 <= k < g.len() {
        g[k]
    } else {
        None
    }
}

/// Group `k` of each match, in order; with `http_only`, only the texts
/// that start with "http". A match without the group is passed over.
pub open spec fn matched_groups(ms: Seq<Seq<Option<Seq<char>>>>, k: int, http_only: bool) -> Seq<
    Seq<char>,
>
    decreases ms.len(),
{
    if ms.len() == 0 {
        Seq::empty()
    } else {
        let rest = matched_groups(ms.drop_last(), k, http_only);
        match group_of(ms.last(), k) {
            Some(t) => if !http_only || "http"@.is_prefix_of(t) {
                rest.push(t)
            } else {
                rest
            },
            None => rest,
        }
    }
}

/// Whether `t` is group `k` of the match `g` (and, with `http_only`,
/// starts with "http").
pub open spec fn image_source(g: Seq<Option<Seq<char>>>, k: int, http_only: bool, t: Seq<char>) -> bool {
    &&& 0 <= k < g.len()
    &&& g[k] == Some(t)
    &&& (!http_only || "http"@.is_prefix_of(t))
}

/// Whether `t` is group `k` of one of the matches `ms` (and, with
/// `http_only`, starts with "http").
pub open spec fn has_source(ms: Seq<Seq<Option<Seq<char>>>>, k: int, http_only: bool, t: Seq<char>) -> bool {
    exists|j: int| 0 <= j < ms.len() && #[trigger] image_source(ms[j], k, http_only, t)
}

/// Every text that `matched_groups` keeps is group `k` of one of the
/// matches, and every such group (starting with "http" where asked) is kept.
pub proof fn lemma_matched_groups_sources(ms: Seq<Seq<Option<Seq<char>>>>, k: int, http_only: bool)
    ensures
        forall|i: int|
            #![trigger matched_groups(ms, k, http_only)[i]]
            0 <= i < matched_groups(ms, k, http_only).len() ==> has_source(
                ms,
                k,
                http_only,
                matched_groups(ms, k, http_only)[i],
            ),
        forall|j: int, t: Seq<char>|
            0 <= j < ms.len() && #[trigger] image_source(ms[j], k, http_only, t)
                ==> matched_groups(ms, k, http_only).contains(t),
    decreases ms.len(),
{
    if ms.len() > 0 {
        let d = ms.drop_last();
        lemma_matched_groups_sources(d, k, http_only);
        let rest = matched_groups(d, k, http_only);
        let l = matched_groups(ms, k, http_only);
        let last = ms[ms.len() - 1];
        assert(ms.last() == last);
        let kept = group_of(last, k) matches Some(t) && (!http_only || "http"@.is_prefix_of(t));
        if kept {
            let t = group_of(last, k)->0;
            assert(l == rest.push(t));
            assert(image_source(last, k, http_only, t));
        } else {
            assert(l == rest);
        }
        assert forall|i: int|
            #![trigger matched_groups(ms, k, http_only)[i]]
            0 <= i < matched_groups(ms, k, http_only).len() implies has_source(
                ms,
                k,
                http_only,
                matched_groups(ms, k, http_only)[i],
            ) by {
            if i < rest.len() {
                assert(l[i] == rest[i]);
                assert(has_source(d, k, http_only, rest[i]));
                let j = choose|j: int| 0 <= j < d.len() && #[trigger] image_source(d[j], k, http_only, rest[i]);
                assert(d[j] == ms[j]);
                assert(image_source(ms[j], k, http_only, l[i]));
            } else {
                assert(image_source(ms[ms.len() - 1], k, http_only, l[i]));
            }
        }
        assert forall|j: int, t: Seq<char>|
            0 <= j < ms.len() && #[trigger] image_source(ms[j], k, http_only, t) implies l.contains(t) by {
            if j < ms.len() - 1 {
                assert(d[j] == ms[j]);
                assert(image_source(d[j], k, http_only, t));
                assert(rest.contains(t));
                let i = choose|i: int| 0 <= i < rest.len() && rest[i] == t;
                assert(l[i] == t);
            } else {
                assert(l[l.len() - 1] == t);
            }
        }
    } else {
        assert(matched_groups(ms, k, http_only) =~= Seq::<Seq<char>>::empty());
    }
}

pub(crate) fn group_exec(g: &Vec<Option<String>>, k: usize) -> (r: Option<String>)
    ensures
        crate::pattern::opt_str_view(r) == group_of(groups_view(*g), k as int),
{
    if k < g.len() {
        match &g[k] {
            Some(t) => Some(t.clone()),
            None => None,
        }
    } else {
        None
    }
}

/// Group `k` of each match, in order; with `http_only`, only the texts that
/// start with "http".
pub fn matched_groups_exec(ms: &Vec<Vec<Option<String>>>, k: usize, http_only: bool) -> (r: Vec<
    String,
>)
    ensures
        strings_view(r) == matched_groups(matches_view(*ms), k as int, http_only),
{
    let ghost mv = matches_view(*ms);
    let mut r: Vec<String> = Vec::new();
    let mut i: usize = 0;
    assert(mv.take(0) =~= Seq::<Seq<Option<Seq<char>>>>::empty());
    while i < ms.len()
        invariant
            i <= ms@.len(),
            mv == matches_view(*ms),
            r@.len() == strings_view(r).len(),
            strings_view(r) == matched_groups(mv.take(i as int), k as int, http_only),
        decreases ms@.len() - i,
    {
        assert(mv.take(i + 1).drop_last() =~= mv.take(i as int));
        assert(mv.take(i + 1).last() == groups_view(ms@[i as int]));
        if let Some(t) = group_exec(&ms[i], k) {
            let keep = if http_only {
                proof {
                    reveal_strlit("http");
                }
                crate::text::starts_with(&chars_of(t.as_str()), &chars_of("http"))
            } else {
                true
            };
            if keep {
                let ghost r0 = r@;
                let ghost l0 = strings_view(r);
                r.push(t);
                assert(r@ == r0.push(t));
                assert(strings_view(r) =~= l0.push(t@));
            }
        }
        i += 1;
    }
    assert(mv.take(ms@.len() as int) =~= mv);
    r
}


/// Group 1 of every match of `pattern` in `html` (only those starting with
/// "http" with `http_only`); nothing when the pattern is refused.
pub open spec fn page_images(html: Seq<char>, pattern: Seq<char>, http_only: bool) -> Seq<Seq<char>> {
    match regex_captures_all(pattern, html) {
        Some(ms) => matched_groups(ms, 1, http_only),
        None => Seq::empty(),
    }
}

/// Group 1 of every match of `pattern` in `html`.
pub fn page_images_exec(html: &str, pattern: &str, http_only: bool) -> (r: Vec<String>)
    ensures
        strings_view(r) == page_images(html@, pattern@, http_only),
{
    match captures_all(pattern, html) {
        Some(ms) => matched_groups_exec(&ms, 1, http_only),
        None => Vec::new(),
    }
}

/// The update that stores the images of a chapter page.
pub open spec fn images_update(list: Seq<Seq<char>>) -> Seq<ChapterFieldView> {
    seq![ChapterFieldView::Images(list)]
}

/// The update that stores the images of a chapter page.
pub fn images_update_exec(list: Vec<String>) -> (r: Vec<ChapterUpdateField>)
    ensures
        chapter_fields_view(r) == images_update(strings_view(list)),
{
    let mut r: Vec<ChapterUpdateField> = Vec::new();
    let ghost l = strings_view(list);
    r.push(ChapterUpdateField::Images(list));
    assert(chapter_fields_view(r) =~= images_update(l));
    r
}

/// The image and CDN addresses of each match (groups 1 and 2, each after
/// "https:"); a match without both groups is passed over.
pub open spec fn server_images(ms: Seq<Seq<Option<Seq<char>>>>) -> Seq<(Seq<char>, Seq<char>)>
    decreases ms.len(),
{
    if ms.len() == 0 {
        Seq::empty()
    } else {
        let rest = server_images(ms.drop_last());
        match (group_of(ms.last(), 1), group_of(ms.last(), 2)) {
            (Some(u), Some(c)) => rest.push(("https:"@ + u, "https:"@ + c)),
            _ => rest,
        }
    }
}

/// Whether `p` is the (image, CDN) pair of the match `g`: groups 1 and 2,
/// each after "https:".
pub open spec fn server_source(g: Seq<Option<Seq<char>>>, p: (Seq<char>, Seq<char>)) -> bool {
    &&& group_of(g, 1) matches Some(u) && p.0 == "https:"@ + u
    &&& group_of(g, 2) matches Some(c) && p.1 == "https:"@ + c
}

/// Whether `p` is the (image, CDN) pair of one of the matches `ms`.
pub open spec fn has_server_source(ms: Seq<Seq<Option<Seq<char>>>>, p: (Seq<char>, Seq<char>)) -> bool {
    exists|j: int| 0 <= j < ms.len() && #[trigger] server_source(ms[j], p)
}

/// Every pair that `server_images` keeps is that of one of the matches, and
/// every match with both groups gives its pair.
pub proof fn lemma_server_images_sources(ms: Seq<Seq<Option<Seq<char>>>>)
    ensures
        forall|i: int|
            #![trigger server_images(ms)[i]]
            0 <= i < server_images(ms).len() ==> has_server_source(ms, server_images(ms)[i]),
        forall|j: int|
            0 <= j < ms.len() && #[trigger] group_of(ms[j], 1) is Some && group_of(ms[j], 2) is Some
                ==> server_images(ms).contains(("https:"@ + group_of(ms[j], 1)->0, "https:"@ + group_of(ms[j], 2)->0)),
    decreases ms.len(),
{
    if ms.len() > 0 {
        let d = ms.drop_last();
        lemma_server_images_sources(d);
        let rest = server_images(d);
        let l = server_images(ms);
        let last = ms[ms.len() - 1];
        assert(ms.last() == last);
        let kept = group_of(last, 1) is Some && group_of(last, 2) is Some;
        if kept {
            let p = ("https:"@ + group_of(last, 1)->0, "https:"@ + group_of(last, 2)->0);
            assert(l == rest.push(p));
            assert(server_source(last, p));
        } else {
            assert(l == rest);
        }
        assert forall|i: int|
            #![trigger server_images(ms)[i]]
            0 <= i < server_images(ms).len() implies has_server_source(ms, server_images(ms)[i]) by {
            if i < rest.len() {
                assert(l[i] == rest[i]);
                assert(has_server_source(d, rest[i]));
                let j = choose|j: int| 0 <= j < d.len() && #[trigger] server_source(d[j], rest[i]);
                assert(d[j] == ms[j]);
                assert(server_source(ms[j], l[i]));
            } else {
                assert(server_source(ms[ms.len() - 1], l[i]));
            }
        }
        assert forall|j: int|
            0 <= j < ms.len() && #[trigger] group_of(ms[j], 1) is Some && group_of(ms[j], 2) is Some
                implies l.contains(("https:"@ + group_of(ms[j], 1)->0, "https:"@ + group_of(ms[j], 2)->0)) by {
            let p = ("https:"@ + group_of(ms[j], 1)->0, "https:"@ + group_of(ms[j], 2)->0);
            if j < ms.len() - 1 {
                assert(d[j] == ms[j]);
                assert(rest.contains(p));
                let i = choose|i: int| 0 <= i < rest.len() && rest[i] == p;
                assert(l[i] == p);
            } else {
                assert(l[l.len() - 1] == p);
            }
        }
    } else {
        assert(server_images(ms) =~= Seq::<(Seq<char>, Seq<char>)>::empty());
    }
}

/// The image and CDN addresses of each match.
pub fn server_images_exec(ms: &Vec<Vec<Option<String>>>) -> (r: Vec<ImageSource>)
    ensures
        images_view(r) == server_images(matches_view(*ms)),
{
    let ghost mv = matches_view(*ms);
    let mut r: Vec<ImageSource> = Vec::new();
    let mut i: usize = 0;
    assert(mv.take(0) =~= Seq::<Seq<Option<Seq<char>>>>::empty());
    while i < ms.len()
        invariant
            i <= ms@.len(),
            mv == matches_view(*ms),
            r@.len() == images_view(r).len(),
            images_view(r) == server_images(mv.take(i as int)),
        decreases ms@.len() - i,
    {
        assert(mv.take(i + 1).drop_last() =~= mv.take(i as int));
        assert(mv.take(i + 1).last() == groups_view(ms@[i as int]));
        match (group_exec(&ms[i], 1), group_exec(&ms[i], 2)) {
            (Some(u), Some(c)) => {
                let https = chars_of("https:");
                let x = ImageSource {
                    url: string_of(&crate::text::concat(&https, &chars_of(u.as_str()))),
                    cdn: string_of(&crate::text::concat(&https, &chars_of(c.as_str()))),
                };
                let ghost r0 = r@;
                let ghost l0 = images_view(r);
                r.push(x);
                assert(r@ == r0.push(x));
                assert(images_view(r) =~= l0.push((x.url@, x.cdn@)));
            },
            _ => {},
        }
        i += 1;
    }
    assert(mv.take(ms@.len() as int) =~= mv);
    r
}


/// How far back from now a chapter was published.
#[derive(Clone, Copy, PartialEq, Eq, Structural, Debug)]
pub enum AgeOffset {
    Months(u32),
    Days(u64),
    Zero,
}

/// The creation date of a new chapter: a text read on the page, the time of
/// the crawl, or the time of the crawl moved back by an age.
#[derive(Debug)]
pub enum ChapterDate {
    Text(String),
    Now,
    Before(AgeOffset),
}

pub enum ChapterDateView {
    Text(Seq<char>),
    Now,
    Before(AgeOffset),
}

impl View for ChapterDate {
    type V = ChapterDateView;

    open spec fn view(&self) -> ChapterDateView {
        match self {
            ChapterDate::Text(s) => ChapterDateView::Text(s@),
            ChapterDate::Now => ChapterDateView::Now,
            ChapterDate::Before(a) => ChapterDateView::Before(*a),
        }
    }
}

/// A chapter link found on a comic page.
#[derive(Debug)]
pub struct ChapterCandidate {
    pub url: String,
    pub title: String,
    pub date: ChapterDate,
}

pub struct CandidateView {
    pub url: Seq<char>,
    pub title: Seq<char>,
    pub date: ChapterDateView,
}

impl View for ChapterCandidate {
    type V = CandidateView;

    open spec fn view(&self) -> CandidateView {
        CandidateView { url: self.url@, title: self.title@, date: self.date@ }
    }
}

pub open spec fn candidates_view(v: Vec<ChapterCandidate>) -> Seq<CandidateView> {
    v@.map_values(|c: ChapterCandidate| c@)
}

/// A chapter address with a stray `" title="` left in it: the stray text
/// taken out and the rest trimmed.
pub open spec fn clean_chapter_url(u: Seq<char>) -> Seq<char> {
    if contains_spec(u, "\" title="@) {
        trim_spec(replace_spec(u, "\" title=\""@, ""@))
    } else {
        u
    }
}

/// A chapter address with a stray `" title="` left in it, cleaned.
pub fn clean_chapter_url_exec(u: &Vec<char>) -> (r: Vec<char>)
    ensures
        r@ == clean_chapter_url(u@),
{
    if contains(u, &lit("\" title=")) {
        proof {
            reveal_strlit("\" title=\"");
        }
        trim(&replace(u, &lit("\" title=\""), &lit("")))
    } else {
        u.clone()
    }
}

/// What looking a chapter address up in the store gave: the lookup failed,
/// the chapter is not stored, or it is stored with this index.
#[derive(Clone, Copy, PartialEq, Eq, Structural, Debug)]
pub enum ChapterLookup {
    Failed,
    Missing,
    Found(i32),
}

/// A chapter link of a comic page, with its lookup and the creation date to
/// give it if it is new.
pub struct ChapterEntry {
    pub url: String,
    pub title: String,
    pub created_date: String,
    pub lookup: ChapterLookup,
}

pub struct EntryView {
    pub url: Seq<char>,
    pub title: Seq<char>,
    pub created_date: Seq<char>,
    pub lookup: ChapterLookup,
}

impl View for ChapterEntry {
    type V = EntryView;

    open spec fn view(&self) -> EntryView {
        EntryView {
            url: self.url@,
            title: self.title@,
            created_date: self.created_date@,
            lookup: self.lookup,
        }
    }
}

pub open spec fn entries_view(v: Vec<ChapterEntry>) -> Seq<EntryView> {
    v@.map_values(|e: ChapterEntry| e@)
}

/// A chapter to create: name, address, comic id, creation date and the
/// further assignments.
pub type DaftView = (Seq<char>, Seq<char>, Seq<char>, Seq<char>, Seq<ChapterFieldView>);

/// The state of the pass over the chapter list of a comic page: how many
/// chapters were recorded, their addresses, the chapters to create and the
/// index updates to make.
pub struct ScanView {
    pub recorded: int,
    pub result: Seq<Seq<char>>,
    pub creates: Seq<DaftView>,
    pub updates: Seq<(Seq<char>, Seq<ChapterFieldView>)>,
}

/// One chapter link: a failed lookup passes it over; a stored chapter whose
/// index differs from the count of links less the chapters recorded so far
/// gets that index; a new chapter is created with that index, or, where new
/// indices count up, with the number of chapters recorded so far.
pub open spec fn scan_step(
    s: ScanView,
    count: int,
    e: EntryView,
    comic_id: Seq<char>,
    new_counts_up: bool,
) -> ScanView {
    let idx = count - s.recorded;
    match e.lookup {
        ChapterLookup::Failed => s,
        ChapterLookup::Found(k) => ScanView {
            recorded: s.recorded + 1,
            result: s.result.push(e.url),
            creates: s.creates,
            updates: if k != idx {
                s.updates.push((e.url, seq![ChapterFieldView::Index(idx as i32)]))
            } else {
                s.updates
            },
        },
        ChapterLookup::Missing => {
            let new_idx = if new_counts_up {
                s.recorded
            } else {
                idx
            };
            ScanView {
                recorded: s.recorded + 1,
                result: s.result.push(e.url),
                creates: s.creates.push(
                    (
                        e.title,
                        e.url,
                        comic_id,
                        e.created_date,
                        seq![ChapterFieldView::Index(new_idx as i32)],
                    ),
                ),
                updates: s.updates,
            }
        },
    }
}

/// The pass over a chapter list.
pub open spec fn scan_spec(
    count: int,
    es: Seq<EntryView>,
    comic_id: Seq<char>,
    new_counts_up: bool,
) -> ScanView
    decreases es.len(),
{
    if es.len() == 0 {
        ScanView { recorded: 0, result: Seq::empty(), creates: Seq::empty(), updates: Seq::empty() }
    } else {
        scan_step(scan_spec(count, es.drop_last(), comic_id, new_counts_up), count, es.last(), comic_id, new_counts_up)
    }
}

proof fn lemma_scan_recorded(count: int, es: Seq<EntryView>, comic_id: Seq<char>, up: bool)
    ensures
        0 <= scan_spec(count, es, comic_id, up).recorded <= es.len(),
        scan_spec(count, es, comic_id, up).result.len() == scan_spec(count, es, comic_id, up).recorded,
    decreases es.len(),
{
    if es.len() > 0 {
        lemma_scan_recorded(count, es.drop_last(), comic_id, up);
    }
}

/// The index that a one-assignment update sets.
pub open spec fn single_index(params: Seq<ChapterFieldView>) -> int {
    match params[0] {
        ChapterFieldView::Index(i) => i as int,
        _ => 0,
    }
}

/// The indices set by the pass lie above `count - recorded` and at most
/// `count`, and decrease along the updates, along the creations, and never
/// repeat between the two.
pub open spec fn indices_ok(s: ScanView, count: int) -> bool {
    &&& forall|j: int|
        0 <= j < s.updates.len() ==> count - s.recorded < #[trigger] single_index(s.updates[j].1)
            <= count
    &&& forall|j: int|
        0 <= j < s.creates.len() ==> count - s.recorded < #[trigger] single_index(s.creates[j].4)
            <= count
    &&& forall|j: int, k: int|
        0 <= j < k < s.updates.len() ==> #[trigger] single_index(s.updates[j].1) > #[trigger] single_index(
            s.updates[k].1,
        )
    &&& forall|j: int, k: int|
        0 <= j < k < s.creates.len() ==> #[trigger] single_index(s.creates[j].4) > #[trigger] single_index(
            s.creates[k].4,
        )
    &&& forall|j: int, k: int|
        0 <= j < s.updates.len() && 0 <= k < s.creates.len() ==> #[trigger] single_index(
            s.updates[j].1,
        ) != #[trigger] single_index(s.creates[k].4)
}

/// Where new indices count up: the updates set indices above
/// `count - recorded` and at most `count`, decreasing; the creations set
/// indices from 0 below `recorded`, increasing.
pub open spec fn up_indices_ok(s: ScanView, count: int) -> bool {
    &&& forall|j: int|
        0 <= j < s.updates.len() ==> count - s.recorded < #[trigger] single_index(s.updates[j].1)
            <= count
    &&& forall|j: int|
        0 <= j < s.creates.len() ==> 0 <= #[trigger] single_index(s.creates[j].4) < s.recorded
    &&& forall|j: int, k: int|
        0 <= j < k < s.updates.len() ==> #[trigger] single_index(s.updates[j].1) > #[trigger] single_index(
            s.updates[k].1,
        )
    &&& forall|j: int, k: int|
        0 <= j < k < s.creates.len() ==> #[trigger] single_index(s.creates[j].4) < #[trigger] single_index(
            s.creates[k].4,
        )
}

/// Where new chapters count up, the new chapters of one comic page get
/// distinct indices that increase down the page from 0, and the stored
/// chapters whose index changes get distinct indices that decrease down the
/// page.
#[verifier::spinoff_prover]
#[verifier::rlimit(40)]
pub proof fn law_scan_indices_counting_up(count: int, es: Seq<EntryView>, comic_id: Seq<char>)
    requires
        es.len() <= count <= i32::MAX,
    ensures
        up_indices_ok(scan_spec(count, es, comic_id, true), count),
    decreases es.len(),
{
    if es.len() > 0 {
        let prev = scan_spec(count, es.drop_last(), comic_id, true);
        law_scan_indices_counting_up(count, es.drop_last(), comic_id);
        lemma_scan_recorded(count, es.drop_last(), comic_id, true);
        let idx = count - prev.recorded;
        assert(0 < idx <= i32::MAX);
        assert((idx as i32) as int == idx);
        assert(((prev.recorded as i32) as int) == prev.recorded);
        let s = scan_spec(count, es, comic_id, true);
        assert(single_index(seq![ChapterFieldView::Index(idx as i32)]) == idx);
        assert(single_index(seq![ChapterFieldView::Index(prev.recorded as i32)]) == prev.recorded);
        match es.last().lookup {
            ChapterLookup::Failed => {},
            ChapterLookup::Found(k) => {
                assert(s.creates == prev.creates);
                if k != idx {
                    assert(s.updates == prev.updates.push(
                        (es.last().url, seq![ChapterFieldView::Index(idx as i32)]),
                    ));
                    assert(forall|j: int|
                        0 <= j < prev.updates.len() ==> s.updates[j] == prev.updates[j]);
                }
            },
            ChapterLookup::Missing => {
                assert(s.updates == prev.updates);
                assert(forall|j: int|
                    0 <= j < prev.creates.len() ==> s.creates[j] == prev.creates[j]);
            },
        }
    }
}

/// Where new chapters count down, the chapters of one comic page get
/// distinct indices, between 1 and the number of chapter links, that
/// decrease down the page: the first recorded gets the number of links,
/// each next one less.
#[verifier::spinoff_prover]
#[verifier::rlimit(40)]
pub proof fn law_scan_indices(count: int, es: Seq<EntryView>, comic_id: Seq<char>)
    requires
        es.len() <= count <= i32::MAX,
    ensures
        indices_ok(scan_spec(count, es, comic_id, false), count),
    decreases es.len(),
{
    if es.len() > 0 {
        let prev = scan_spec(count, es.drop_last(), comic_id, false);
        law_scan_indices(count, es.drop_last(), comic_id);
        lemma_scan_recorded(count, es.drop_last(), comic_id, false);
        let idx = count - prev.recorded;
        assert(0 < idx <= i32::MAX);
        assert((idx as i32) as int == idx);
        let s = scan_spec(count, es, comic_id, false);
        assert(single_index(seq![ChapterFieldView::Index(idx as i32)]) == idx);
        match es.last().lookup {
            ChapterLookup::Failed => {},
            ChapterLookup::Found(k) => {
                assert(s.creates == prev.creates);
                if k != idx {
                    assert(s.updates == prev.updates.push(
                        (es.last().url, seq![ChapterFieldView::Index(idx as i32)]),
                    ));
                    assert(forall|j: int|
                        0 <= j < prev.updates.len() ==> s.updates[j] == prev.updates[j]);
                }
            },
            ChapterLookup::Missing => {
                assert(s.updates == prev.updates);
                assert(forall|j: int|
                    0 <= j < prev.creates.len() ==> s.creates[j] == prev.creates[j]);
            },
        }
    }
}

/// What the pass over the chapter list of a comic page gives: the chapter
/// addresses it records, in order, the chapters to create and the index
/// updates to make.
pub struct ChapterScan {
    pub result: Vec<String>,
    pub creates: Vec<DaftChapter>,
    pub updates: Vec<ChapterUpdate>,
}

pub open spec fn daft_view(d: DaftChapter) -> DaftView {
    (d.0@, d.1@, d.2@, d.3@, chapter_params_view(d.4))
}

pub open spec fn update_view(u: ChapterUpdate) -> (Seq<char>, Seq<ChapterFieldView>) {
    (u.url@, chapter_params_view(u.params))
}

impl ChapterScan {
    pub open spec fn view_with(&self, recorded: int) -> ScanView {
        ScanView {
            recorded,
            result: strings_view(self.result),
            creates: self.creates@.map_values(|d: DaftChapter| daft_view(d)),
            updates: self.updates@.map_values(|u: ChapterUpdate| update_view(u)),
        }
    }
}

/// The pass over the chapter list of a comic page: `count` is the number of
/// chapter links the page holds, `entries` those that were kept, each with
/// its lookup.
pub fn scan_chapters(
    db: &DbUtils,
    count: usize,
    entries: &Vec<ChapterEntry>,
    comic_id: &String,
    new_counts_up: bool,
) -> (r: ChapterScan)
    requires
        entries@.len() <= count <= i32::MAX,
    ensures
        r.view_with(r.result@.len() as int) == scan_spec(
            count as int,
            entries_view(*entries),
            comic_id@,
            new_counts_up,
        ),
{
    let ghost ev = entries_view(*entries);
    let mut r = ChapterScan { result: Vec::new(), creates: Vec::new(), updates: Vec::new() };
    let mut recorded: usize = 0;
    let mut i: usize = 0;
    assert(ev.take(0) =~= Seq::<EntryView>::empty());
    assert(r.view_with(0).result =~= Seq::<Seq<char>>::empty());
    assert(r.view_with(0).creates =~= Seq::<DaftView>::empty());
    assert(r.view_with(0).updates =~= Seq::<(Seq<char>, Seq<ChapterFieldView>)>::empty());
    while i < entries.len()
        invariant
            i <= entries@.len() <= count <= i32::MAX,
            ev == entries_view(*entries),
            recorded <= i,
            r.result@.len() == recorded,
            r.creates@.len() == r.view_with(recorded as int).creates.len(),
            r.updates@.len() == r.view_with(recorded as int).updates.len(),
            r.view_with(recorded as int) == scan_spec(count as int, ev.take(i as int), comic_id@, new_counts_up),
        decreases entries@.len() - i,
    {
        let ghost before = r.view_with(recorded as int);
        assert(ev.take(i + 1).drop_last() =~= ev.take(i as int));
        assert(ev.take(i + 1).last() == entries@[i as int]@);
        let e = &entries[i];
        let idx: i32 = (count - recorded) as i32;
        match e.lookup {
            ChapterLookup::Failed => {},
            ChapterLookup::Found(k) => {
                let ghost u0 = r.updates@;
                let ghost uv0 = before.updates;
                if k != idx {
                    let mut fields: Vec<ChapterUpdateField> = Vec::new();
                    fields.push(ChapterUpdateField::Index(idx));
                    assert(chapter_fields_view(fields) =~= seq![ChapterFieldView::Index(idx)]);
                    let u = db.daft_update_chapter_by_url(e.url.clone(), fields);
                    r.updates.push(u);
                    assert(r.updates@ == u0.push(u));
                    assert(r.view_with(recorded as int).updates =~= uv0.push(
                        (e.url@, seq![ChapterFieldView::Index(idx)]),
                    ));
                }
                let ghost rs0 = r.result@;
                let ghost rv0 = before.result;
                r.result.push(e.url.clone());
                assert(r.result@ == rs0.push(r.result@.last()));
                assert(strings_view(r.result) =~= rv0.push(e.url@));
                recorded += 1;
            },
            ChapterLookup::Missing => {
                let new_idx: i32 = if new_counts_up {
                    recorded as i32
                } else {
                    idx
                };
                let ghost c0 = r.creates@;
                let ghost cv0 = before.creates;
                let d = db.create_empty_chapter_dafter(
                    e.title.clone(),
                    e.url.clone(),
                    e.created_date.clone(),
                    comic_id.clone(),
                    Some(new_idx),
                );
                r.creates.push(d);
                assert(r.creates@ == c0.push(d));
                assert(r.view_with(recorded as int).creates =~= cv0.push(
                    (e.title@, e.url@, comic_id@, e.created_date@, seq![ChapterFieldView::Index(new_idx)]),
                ));
                let ghost rs0 = r.result@;
                let ghost rv0 = before.result;
                r.result.push(e.url.clone());
                assert(r.result@ == rs0.push(r.result@.last()));
                assert(strings_view(r.result) =~= rv0.push(e.url@));
                recorded += 1;
            },
        }
        proof {
            lemma_scan_recorded(count as int, ev.take(i + 1), comic_id@, new_counts_up);
        }
        i += 1;
    }
    assert(ev.take(entries@.len() as int) =~= ev);
    r
}

} // verus!
