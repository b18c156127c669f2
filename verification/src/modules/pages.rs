//! What the crawler reads on the comic pages of each site.
use vstd::prelude::*;

use crate::db::{comic_fields_view, ComicFieldView, UpdateComicDocField};
use crate::modules::chapters::{
    candidates_view, clean_chapter_url, clean_chapter_url_exec, group_exec, group_of, AgeOffset,
    CandidateView, ChapterCandidate, ChapterDate, ChapterDateView,
};
use crate::modules::comic_info::{fields_view, PageView};
use crate::modules::{alyasometimeshidesherfeelings, blogtruyenmoi, mangajuice, nettruyenee};
use crate::pattern::{
    captures, captures_all, group_one, group_one_text, groups_view, matches_view, opt_str_view,
    regex_captures, regex_captures_all,
};
use crate::text::{chars_of, concat, contains, contains_spec, ends_with, lit, starts_with, string_of, trim, trim_spec};

verus! {

/// The sites whose comic pages are read.
#[derive(Clone, Copy, PartialEq, Eq, Structural, Debug)]
pub enum Site {
    Blogtruyenmoi,
    Nettruyen,
    Mangajuice,
    Alya,
}

/// The pattern of the title of a comic page.
pub open spec fn title_pattern(site: Site) -> Seq<char> {
    match site {
        Site::Nettruyen => "<title>\\s+(.*?)\\s+<\\/title>"@,
        Site::Mangajuice => "<title>(.*?)<\\/title>"@,
        _ => "<title>(.*?)</title>"@,
    }
}

/// The name of the comic of a comic page: the text of its title (followed,
/// on NetTruyen, by the site's name); `None` when the page has no title.
pub open spec fn comic_title_spec(site: Site, page: Seq<char>) -> Option<Seq<char>> {
    match group_one(regex_captures(title_pattern(site), page)) {
        Some(t) => Some(
            if site == Site::Nettruyen {
                t + " - NetTruyenEe.com"@
            } else {
                t
            },
        ),
        None => None,
    }
}

/// The name of the comic of a comic page.
pub fn comic_title(site: Site, page: &str) -> (r: Option<String>)
    ensures
        opt_str_view(r) == comic_title_spec(site, page@),
{
    let caps = match site {
        Site::Nettruyen => captures("<title>\\s+(.*?)\\s+<\\/title>", page),
        Site::Mangajuice => captures("<title>(.*?)<\\/title>", page),
        _ => captures("<title>(.*?)</title>", page),
    };
    match group_one_text(caps) {
        Some(t) => {
            if site == Site::Nettruyen {
                Some(string_of(&concat(&chars_of(t.as_str()), &lit(" - NetTruyenEe.com"))))
            } else {
                Some(t)
            }
        },
        None => None,
    }
}

/// The comic information of a comic page of the site.
pub open spec fn page_info_spec(site: Site, page: Seq<char>) -> Option<PageView> {
    match site {
        Site::Blogtruyenmoi => blogtruyenmoi::blog_page_spec(page),
        Site::Nettruyen => nettruyenee::net_page_spec(page),
        Site::Mangajuice => mangajuice::mangajuice_page_spec(page),
        Site::Alya => alyasometimeshidesherfeelings::alya_page_spec(page),
    }
}

/// The updates of the stored comic named `db_name` that its comic page
/// calls for: its new name where it changed, then the page's comic fields.
/// `Some(None)` when the page has no title, `None` when the page cannot be
/// read (an image or a link without its address).
pub open spec fn comic_updates_spec(site: Site, page: Seq<char>, db_name: Seq<char>) -> Option<
    Option<Seq<ComicFieldView>>,
> {
    match comic_title_spec(site, page) {
        None => Some(None),
        Some(t) => match page_info_spec(site, page) {
            None => None,
            Some(p) => Some(
                Some(
                    if db_name != t {
                        seq![ComicFieldView::Name(t)] + p.fields
                    } else {
                        p.fields
                    },
                ),
            ),
        },
    }
}

/// The updates of the stored comic named `db_name` that its comic page
/// calls for.
pub fn comic_page_updates(site: Site, page: &str, db_name: &str) -> (r: Option<
    Option<Vec<UpdateComicDocField>>,
>)
    ensures
        match r {
            None => comic_updates_spec(site, page@, db_name@) is None,
            Some(None) => comic_updates_spec(site, page@, db_name@) == Some(
                None::<Seq<ComicFieldView>>,
            ),
            Some(Some(v)) => comic_updates_spec(site, page@, db_name@) == Some(
                Some(comic_fields_view(v)),
            ),
        },
{
    let title = match comic_title(site, page) {
        Some(t) => t,
        None => return Some(None),
    };
    let info = match site {
        Site::Blogtruyenmoi => blogtruyenmoi::try_parse_blog_truyen_moi_html_page(page),
        Site::Nettruyen => nettruyenee::try_parse_net_truyen_html_page(page),
        Site::Mangajuice => mangajuice::try_parse_mangajuice_html_page(page),
        Site::Alya => alyasometimeshidesherfeelings::try_parse_alyasometimeshidesherfeelings_moi_html_page(page),
    };
    let fields = match info {
        Some((_, f)) => f,
        None => return None,
    };
    let ghost fv = fields_view(fields);
    let mut r: Vec<UpdateComicDocField> = Vec::new();
    let differs = !crate::text::eq(&chars_of(db_name), &chars_of(title.as_str()));
    let ghost tv = title@;
    if differs {
        r.push(UpdateComicDocField::Name(title));
    }
    let ghost head = comic_fields_view(r);
    if differs {
        assert(head =~= seq![ComicFieldView::Name(tv)]);
    } else {
        assert(head =~= Seq::<ComicFieldView>::empty());
    }
    let mut fields = fields;
    let ghost r0 = r@;
    let ghost f0 = fields@;
    r.append(&mut fields);
    assert(r@ == r0 + f0);
    assert(comic_fields_view(r) =~= head + fv);
    Some(Some(r))
}


/// The pattern of a chapter link of a comic page.
pub open spec fn chapter_list_pattern(site: Site) -> Seq<char> {
    match site {
        Site::Blogtruyenmoi => "<p\\s+id=\"chapter-(\\d+)\">\\s+<span\\s+class=\"title\">\\s+<a\\s+id=\"\\w+_\\d+\"\\s+href=\"(.+)\"\\s+title=\".+>(.+)<\\/a>\\s+<\\/span>\\s+<span\\s+class=\"publishedDate\">(.+)<\\/span>"@,
        Site::Nettruyen => "<a\\s+href=\"([^\"|\"]+)\"\\s+data-id=\"([^\"]+)\">([^\\/]+)<\\/a>"@,
        Site::Mangajuice => "<a\\s+href=\"([^\"|\"]+)\"\\s+class=\"title\">([^\\/]+)<\\/a>"@,
        Site::Alya => "<a\\s+href=\"([^\"|\"]+)\"><span>([^>]+)<\\/span><span\\s+class=\"chapter-date\">([^>]+)<\\/span><\\/a>"@,
    }
}

/// What one chapter link match of a comic page gives: `Some(Some(c))` for a
/// chapter, `Some(None)` for a link that is passed over, `None` when the age
/// of an alyasometimeshidesherfeelings chapter cannot be read. A match
/// without its groups is passed over.
pub open spec fn candidate_spec(site: Site, g: Seq<Option<Seq<char>>>) -> Option<Option<CandidateView>> {
    match site {
        Site::Blogtruyenmoi => match (group_of(g, 2), group_of(g, 3), group_of(g, 4)) {
            (Some(u), Some(t), Some(d)) => Some(
                Some(
                    CandidateView {
                        url: clean_chapter_url(trim_spec("https://blogtruyenmoi.com"@ + u)),
                        title: trim_spec(t),
                        date: ChapterDateView::Text(d),
                    },
                ),
            ),
            _ => Some(None),
        },
        Site::Nettruyen => match (group_of(g, 1), group_of(g, 3)) {
            (Some(u), Some(t)) => {
                let url = trim_spec(u);
                if nettruyenee::regex_finds(nettruyenee::chapter_page_pattern(), url) {
                    Some(
                        Some(
                            CandidateView {
                                url: clean_chapter_url(url),
                                title: trim_spec(t),
                                date: ChapterDateView::Text(""@),
                            },
                        ),
                    )
                } else {
                    Some(None)
                }
            },
            _ => Some(None),
        },
        Site::Mangajuice => match (group_of(g, 1), group_of(g, 2)) {
            (Some(u), Some(t)) => {
                let url = trim_spec(u);
                if !"https://mangajuice.com/chapter"@.is_prefix_of(url) {
                    Some(None)
                } else if "/feed/"@.is_suffix_of(clean_chapter_url(url)) {
                    Some(None)
                } else {
                    Some(
                        Some(
                            CandidateView {
                                url: clean_chapter_url(url),
                                title: trim_spec(t),
                                date: ChapterDateView::Now,
                            },
                        ),
                    )
                }
            },
            _ => Some(None),
        },
        Site::Alya => match (group_of(g, 1), group_of(g, 2), group_of(g, 3)) {
            (Some(u), Some(t), Some(d)) => {
                let url = trim_spec(u);
                if "/feed/"@.is_suffix_of(url) {
                    Some(None)
                } else if d.len() == 0 || contains_spec(d, "🔥"@) {
                    Some(None)
                } else {
                    match alyasometimeshidesherfeelings::relative_age(d) {
                        Some(a) => Some(
                            Some(
                                CandidateView {
                                    url,
                                    title: trim_spec(t),
                                    date: ChapterDateView::Before(a),
                                },
                            ),
                        ),
                        None => None,
                    }
                }
            },
            _ => Some(None),
        },
    }
}

/// The chapters of the chapter link matches, in order; `None` when one of
/// them cannot be read.
pub open spec fn candidates_spec(site: Site, ms: Seq<Seq<Option<Seq<char>>>>) -> Option<Seq<CandidateView>>
    decreases ms.len(),
{
    if ms.len() == 0 {
        Some(Seq::empty())
    } else {
        match candidates_spec(site, ms.drop_last()) {
            None => None,
            Some(cs) => match candidate_spec(site, ms.last()) {
                None => None,
                Some(None) => Some(cs),
                Some(Some(c)) => Some(cs.push(c)),
            },
        }
    }
}

/// The chapter list of a comic page: the number of chapter links it holds
/// and the chapters kept, in page order; `None` when a chapter cannot be
/// read.
pub open spec fn comic_page_chapters_spec(site: Site, page: Seq<char>) -> Option<(int, Seq<CandidateView>)> {
    match regex_captures_all(chapter_list_pattern(site), page) {
        None => Some((0, Seq::empty())),
        Some(ms) => match candidates_spec(site, ms) {
            None => None,
            Some(cs) => Some((ms.len() as int, cs)),
        },
    }
}

fn candidate(url: Vec<char>, title: Vec<char>, date: ChapterDate) -> (r: ChapterCandidate)
    ensures
        r@ == (CandidateView { url: url@, title: title@, date: date@ }),
{
    ChapterCandidate { url: string_of(&url), title: string_of(&title), date }
}

fn candidate_of(site: Site, g: &Vec<Option<String>>) -> (r: Option<Option<ChapterCandidate>>)
    ensures
        match r {
            None => candidate_spec(site, groups_view(*g)) is None,
            Some(None) => candidate_spec(site, groups_view(*g)) == Some(None::<CandidateView>),
            Some(Some(c)) => candidate_spec(site, groups_view(*g)) == Some(Some(c@)),
        },
{
    match site {
        Site::Blogtruyenmoi => match (group_exec(g, 2), group_exec(g, 3), group_exec(g, 4)) {
            (Some(u), Some(t), Some(d)) => {
                let url = clean_chapter_url_exec(
                    &trim(&concat(&lit("https://blogtruyenmoi.com"), &chars_of(u.as_str()))),
                );
                Some(Some(candidate(url, trim(&chars_of(t.as_str())), ChapterDate::Text(d))))
            },
            _ => Some(None),
        },
        Site::Nettruyen => match (group_exec(g, 1), group_exec(g, 3)) {
            (Some(u), Some(t)) => {
                let url = trim(&chars_of(u.as_str()));
                if nettruyenee::is_chapter_page(string_of(&url).as_str(), "") {
                    Some(
                        Some(
                            candidate(
                                clean_chapter_url_exec(&url),
                                trim(&chars_of(t.as_str())),
                                ChapterDate::Text(string_of(&lit(""))),
                            ),
                        ),
                    )
                } else {
                    Some(None)
                }
            },
            _ => Some(None),
        },
        Site::Mangajuice => match (group_exec(g, 1), group_exec(g, 2)) {
            (Some(u), Some(t)) => {
                let url = trim(&chars_of(u.as_str()));
                if !starts_with(&url, &lit("https://mangajuice.com/chapter")) {
                    Some(None)
                } else {
                    let cleaned = clean_chapter_url_exec(&url);
                    if ends_with(&cleaned, &lit("/feed/")) {
                        Some(None)
                    } else {
                        Some(Some(candidate(cleaned, trim(&chars_of(t.as_str())), ChapterDate::Now)))
                    }
                }
            },
            _ => Some(None),
        },
        Site::Alya => match (group_exec(g, 1), group_exec(g, 2), group_exec(g, 3)) {
            (Some(u), Some(t), Some(d)) => {
                let url = trim(&chars_of(u.as_str()));
                let dc = chars_of(d.as_str());
                if ends_with(&url, &lit("/feed/")) {
                    Some(None)
                } else if dc.len() == 0 || contains(&dc, &lit("🔥")) {
                    Some(None)
                } else {
                    match alyasometimeshidesherfeelings::age_of(d.as_str()) {
                        Some(a) => Some(
                            Some(candidate(url, trim(&chars_of(t.as_str())), ChapterDate::Before(a))),
                        ),
                        None => None,
                    }
                }
            },
            _ => Some(None),
        },
    }
}

/// The chapter list of a comic page: the number of chapter links it holds
/// and the chapters kept, in page order; `None` when a chapter cannot be
/// read.
pub fn comic_page_chapters(site: Site, page: &str) -> (r: Option<(usize, Vec<ChapterCandidate>)>)
    ensures
        match r {
            None => comic_page_chapters_spec(site, page@) is None,
            Some((n, v)) => comic_page_chapters_spec(site, page@) == Some(
                (n as int, candidates_view(v)),
            ),
        },
{
    let found = match site {
        Site::Blogtruyenmoi => captures_all(
            "<p\\s+id=\"chapter-(\\d+)\">\\s+<span\\s+class=\"title\">\\s+<a\\s+id=\"\\w+_\\d+\"\\s+href=\"(.+)\"\\s+title=\".+>(.+)<\\/a>\\s+<\\/span>\\s+<span\\s+class=\"publishedDate\">(.+)<\\/span>",
            page,
        ),
        Site::Nettruyen => captures_all(
            "<a\\s+href=\"([^\"|\"]+)\"\\s+data-id=\"([^\"]+)\">([^\\/]+)<\\/a>",
            page,
        ),
        Site::Mangajuice => captures_all(
            "<a\\s+href=\"([^\"|\"]+)\"\\s+class=\"title\">([^\\/]+)<\\/a>",
            page,
        ),
        Site::Alya => captures_all(
            "<a\\s+href=\"([^\"|\"]+)\"><span>([^>]+)<\\/span><span\\s+class=\"chapter-date\">([^>]+)<\\/span><\\/a>",
            page,
        ),
    };
    let ms = match found {
        Some(ms) => ms,
        None => {
            let v: Vec<ChapterCandidate> = Vec::new();
            assert(candidates_view(v) =~= Seq::<CandidateView>::empty());
            return Some((0, v));
        },
    };
    let ghost mv = matches_view(ms);
    assert(regex_captures_all(chapter_list_pattern(site), page@) == Some(mv));
    let mut r: Vec<ChapterCandidate> = Vec::new();
    let mut i: usize = 0;
    assert(mv.take(0) =~= Seq::<Seq<Option<Seq<char>>>>::empty());
    assert(candidates_view(r) =~= Seq::<CandidateView>::empty());
    while i < ms.len()
        invariant
            i <= ms@.len(),
            mv == matches_view(ms),
            regex_captures_all(chapter_list_pattern(site), page@) == Some(mv),
            r@.len() == candidates_view(r).len(),
            candidates_spec(site, mv.take(i as int)) == Some(candidates_view(r)),
        decreases ms@.len() - i,
    {
        assert(mv.take(i + 1).drop_last() =~= mv.take(i as int));
        assert(mv.take(i + 1).last() == groups_view(ms@[i as int]));
        match candidate_of(site, &ms[i]) {
            None => {
                proof {
                    lemma_candidates_none_after(site, mv, i + 1);
                }
                return None;
            },
            Some(None) => {},
            Some(Some(c)) => {
                let ghost r0 = r@;
                let ghost l0 = candidates_view(r);
                r.push(c);
                assert(r@ == r0.push(c));
                assert(candidates_view(r) =~= l0.push(c@));
            },
        }
        i += 1;
    }
    assert(mv.take(ms@.len() as int) =~= mv);
    Some((ms.len(), r))
}

proof fn lemma_candidates_none_after(site: Site, ms: Seq<Seq<Option<Seq<char>>>>, k: int)
    requires
        0 <= k <= ms.len(),
        candidates_spec(site, ms.take(k)) is None,
    ensures
        candidates_spec(site, ms) is None,
    decreases ms.len() - k,
{
    if k < ms.len() {
        assert(ms.take(k + 1).drop_last() =~= ms.take(k));
        lemma_candidates_none_after(site, ms, k + 1);
    } else {
        assert(ms.take(k) =~= ms);
    }
}


/// The name of a comic is group 1 of the first match of the site's title
/// pattern on its page, as it is; only NetTruyen appends its site name.
pub proof fn law_comic_title(site: Site, page: Seq<char>)
    ensures
        site == Site::Nettruyen ==> comic_title_spec(site, page) == match group_one(
            regex_captures("<title>\\s+(.*?)\\s+<\\/title>"@, page),
        ) {
            Some(t) => Some(t + " - NetTruyenEe.com"@),
            None => None,
        },
        site == Site::Mangajuice ==> comic_title_spec(site, page) == group_one(
            regex_captures("<title>(.*?)<\\/title>"@, page),
        ),
        site == Site::Blogtruyenmoi || site == Site::Alya ==> comic_title_spec(site, page)
            == group_one(regex_captures("<title>(.*?)</title>"@, page)),
{
}

/// Whether the chapter `c` was read from the chapter-list match `g`: its
/// title is the trimmed title group (group 3 on blogtruyenmoi and NetTruyen,
/// group 2 on mangajuice and alyasometimeshidesherfeelings); its address
/// comes from the address group (group 2 on blogtruyenmoi, made absolute;
/// group 1 elsewhere), trimmed, and is a chapter address that is no feed;
/// its date is the date group on blogtruyenmoi, empty on NetTruyen, the
/// time of the crawl on mangajuice and the age read from the age group on
/// alyasometimeshidesherfeelings.
pub open spec fn candidate_read_from(site: Site, g: Seq<Option<Seq<char>>>, c: CandidateView) -> bool {
    match site {
        Site::Blogtruyenmoi => {
            &&& group_of(g, 3) matches Some(t) && c.title == trim_spec(t)
            &&& group_of(g, 2) matches Some(u) && c.url == clean_chapter_url(
                trim_spec("https://blogtruyenmoi.com"@ + u),
            )
            &&& group_of(g, 4) matches Some(d) && c.date == ChapterDateView::Text(d)
        },
        Site::Nettruyen => {
            &&& group_of(g, 3) matches Some(t) && c.title == trim_spec(t)
            &&& group_of(g, 1) matches Some(u) && c.url == clean_chapter_url(trim_spec(u))
            &&& c.date == ChapterDateView::Text(""@)
        },
        Site::Mangajuice => {
            &&& group_of(g, 2) matches Some(t) && c.title == trim_spec(t)
            &&& group_of(g, 1) matches Some(u) && c.url == clean_chapter_url(trim_spec(u))
                && "https://mangajuice.com/chapter"@.is_prefix_of(trim_spec(u))
            &&& !"/feed/"@.is_suffix_of(c.url)
            &&& c.date == ChapterDateView::Now
        },
        Site::Alya => {
            &&& group_of(g, 2) matches Some(t) && c.title == trim_spec(t)
            &&& group_of(g, 1) matches Some(u) && c.url == trim_spec(u)
            &&& !"/feed/"@.is_suffix_of(c.url)
            &&& group_of(g, 3) matches Some(d) && alyasometimeshidesherfeelings::relative_age(d)
                matches Some(a) && c.date == ChapterDateView::Before(a)
        },
    }
}

/// Whether the chapter `c` was read from one of the matches `ms`.
pub open spec fn read_from_some(site: Site, ms: Seq<Seq<Option<Seq<char>>>>, c: CandidateView) -> bool {
    exists|j: int| 0 <= j < ms.len() && #[trigger] candidate_read_from(site, ms[j], c)
}

proof fn lemma_candidate_read_from(site: Site, g: Seq<Option<Seq<char>>>)
    ensures
        candidate_spec(site, g) matches Some(Some(c)) ==> candidate_read_from(site, g, c),
{
}

proof fn lemma_candidates_read_from(site: Site, ms: Seq<Seq<Option<Seq<char>>>>)
    ensures
        candidates_spec(site, ms) matches Some(cs) ==> forall|i: int|
            0 <= i < cs.len() ==> #[trigger] read_from_some(site, ms, cs[i]),
    decreases ms.len(),
{
    if ms.len() > 0 {
        let d = ms.drop_last();
        lemma_candidates_read_from(site, d);
        lemma_candidate_read_from(site, ms.last());
        if let Some(cs) = candidates_spec(site, ms) {
            let prev = candidates_spec(site, d)->0;
            assert forall|i: int| 0 <= i < cs.len() implies #[trigger] read_from_some(site, ms, cs[i]) by {
                if i < prev.len() {
                    assert(cs[i] == prev[i]);
                    assert(read_from_some(site, d, prev[i]));
                    let j = choose|j: int| 0 <= j < d.len() && #[trigger] candidate_read_from(site, d[j], prev[i]);
                    assert(d[j] == ms[j]);
                    assert(candidate_read_from(site, ms[j], cs[i]));
                } else {
                    assert(ms.last() == ms[ms.len() - 1]);
                    assert(candidate_read_from(site, ms[ms.len() - 1], cs[i]));
                }
            }
        }
    }
}

/// The chapters of a comic page are read from the matches of the site's
/// chapter-list pattern: their number is the number of matches, and each
/// chapter kept has the trimmed title group of one match as its title and
/// that match's address group as its address.
pub proof fn law_chapter_candidates(site: Site, page: Seq<char>)
    ensures
        match regex_captures_all(
            match site {
                Site::Blogtruyenmoi => "<p\\s+id=\"chapter-(\\d+)\">\\s+<span\\s+class=\"title\">\\s+<a\\s+id=\"\\w+_\\d+\"\\s+href=\"(.+)\"\\s+title=\".+>(.+)<\\/a>\\s+<\\/span>\\s+<span\\s+class=\"publishedDate\">(.+)<\\/span>"@,
                Site::Nettruyen => "<a\\s+href=\"([^\"|\"]+)\"\\s+data-id=\"([^\"]+)\">([^\\/]+)<\\/a>"@,
                Site::Mangajuice => "<a\\s+href=\"([^\"|\"]+)\"\\s+class=\"title\">([^\\/]+)<\\/a>"@,
                Site::Alya => "<a\\s+href=\"([^\"|\"]+)\"><span>([^>]+)<\\/span><span\\s+class=\"chapter-date\">([^>]+)<\\/span><\\/a>"@,
            },
            page,
        ) {
            None => comic_page_chapters_spec(site, page) == Some((0int, Seq::<CandidateView>::empty())),
            Some(ms) => comic_page_chapters_spec(site, page) matches Some((n, cs)) ==> {
                &&& n == ms.len()
                &&& forall|i: int| 0 <= i < cs.len() ==> #[trigger] read_from_some(site, ms, cs[i])
            },
        },
{
    if let Some(ms) = regex_captures_all(chapter_list_pattern(site), page) {
        lemma_candidates_read_from(site, ms);
    }
}

} // verus!
