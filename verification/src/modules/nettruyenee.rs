//! The NetTruyen family of sites.
use vstd::prelude::*;

use crate::modules::{nettruyen_hosts, nettruyen_hosts_spec};
use crate::pattern::{captures, captures_all, group_one, group_one_text, regex_captures, regex_captures_all};
use crate::modules::comic_info::{
    fields_view, info_view, standard_page, standard_page_spec, InfoValue, PageView,
};
use crate::db::{chapter_fields_view, images_view, ChapterFieldView, ChapterUpdateField, UpdateComicDocField};
use crate::modules::chapters::{server_images, server_images_exec};
use crate::text::{join, join_spec, lit, string_of};

use crate::modules::comic_info::{fields_from_selectors, lemma_standard_page_sources};

use crate::modules::chapters::{group_of, has_server_source, lemma_server_images_sources};

verus! {

/// Whether the regex engine finds a match of `pattern` in `text`.
pub open spec fn regex_finds(pattern: Seq<char>, text: Seq<char>) -> bool {
    regex_captures(pattern, text) matches Some(Some(_))
}

/// The hosts, as the alternatives of a pattern group.
pub open spec fn hosts_alternation() -> Seq<char> {
    join_spec(nettruyen_hosts_spec(), "|"@)
}

/// The pattern of a comic page address.
pub open spec fn comic_page_pattern() -> Seq<char> {
    "https:\\/\\/("@ + hosts_alternation() + ")\\/truyen-tranh\\/(.+)"@
}

/// The pattern of a chapter page address.
pub open spec fn chapter_page_pattern() -> Seq<char> {
    "https:\\/\\/("@ + hosts_alternation() + ")\\/truyen-tranh\\/(.+)\\/chap-(.+)\\/(.+)"@
}

fn alternation() -> (r: Vec<char>)
    ensures
        r@ == hosts_alternation(),
{
    join(&nettruyen_hosts(), &lit("|"))
}

fn pattern_around(before: &str, after: &str) -> (r: String)
    ensures
        r@ == before@ + hosts_alternation() + after@,
{
    let mut p = lit(before);
    crate::text::append(&mut p, &alternation());
    crate::text::append(&mut p, &lit(after));
    string_of(&p)
}

/// Whether `url` is the address of a comic page: it holds a match of the
/// comic page pattern (`page` is not read).
pub fn is_comic_page(url: &str, _page: &str) -> (r: bool)
    ensures
        r == regex_finds(comic_page_pattern(), url@),
{
    let pattern = pattern_around("https:\\/\\/(", ")\\/truyen-tranh\\/(.+)");
    match captures(pattern.as_str(), url) {
        Some(Some(_)) => true,
        _ => false,
    }
}

/// Whether `url` is the address of a chapter page: it holds a match of the
/// chapter page pattern (`html` is not read).
pub fn is_chapter_page(url: &str, _html: &str) -> (r: bool)
    ensures
        r == regex_finds(chapter_page_pattern(), url@),
{
    let pattern = pattern_around("https:\\/\\/(", ")\\/truyen-tranh\\/(.+)\\/chap-(.+)\\/(.+)");
    match captures(pattern.as_str(), url) {
        Some(Some(_)) => true,
        _ => false,
    }
}


/// The comic information of a NetTruyen comic page.
pub open spec fn net_page_spec(html: Seq<char>) -> Option<PageView> {
    standard_page_spec(
        html,
        "#item-detail > div.detail-content > p"@,
        "#item-detail > div.detail-info > div > div.col-xs-4.col-image > img"@,
        "#item-detail > div.detail-info > div > div.col-xs-8.col-info > ul > li.othername.row > h2"@,
        "#item-detail > div.detail-info > div > div.col-xs-8.col-info > ul > li.kind.row > p.col-xs-8"@,
        "#item-detail > div.detail-info > div > div.col-xs-8.col-info > ul > li.author.row > p.col-xs-8"@,
    )
}

fn net_page(html: &str) -> (r: Option<crate::modules::comic_info::PageInfo>)
    ensures
        match r {
            Some(p) => net_page_spec(html@) == Some(p@),
            None => net_page_spec(html@) is None,
        },
{
    standard_page(
        html,
        "#item-detail > div.detail-content > p",
        "#item-detail > div.detail-info > div > div.col-xs-4.col-image > img",
        "#item-detail > div.detail-info > div > div.col-xs-8.col-info > ul > li.othername.row > h2",
        "#item-detail > div.detail-info > div > div.col-xs-8.col-info > ul > li.kind.row > p.col-xs-8",
        "#item-detail > div.detail-info > div > div.col-xs-8.col-info > ul > li.author.row > p.col-xs-8",
    )
}

/// The comic information of a NetTruyen comic page: the information map,
/// as its insertions in order, and the comic field updates (the
/// information-fetched flag, then content, thumbnail, other names, genres
/// and authors, each where the page has it).
pub fn parse_net_truyen_html_page(html: &str) -> (r: (Vec<(String, InfoValue)>, Vec<UpdateComicDocField>))
    requires
        net_page_spec(html@) is Some,
    ensures
        net_page_spec(html@) == Some(PageView { info: info_view(r.0), fields: fields_view(r.1) }),
{
    match net_page(html) {
        Some(p) => (p.info, p.fields),
        None => (Vec::new(), Vec::new()),
    }
}

/// `parse_net_truyen_html_page` where the page can be read: `None` when its
/// cover image or one of its genre or author links has no address.
pub fn try_parse_net_truyen_html_page(html: &str) -> (r: Option<
    (Vec<(String, InfoValue)>, Vec<UpdateComicDocField>),
>)
    ensures
        r is None <==> net_page_spec(html@) is None,
        r matches Some(x) ==> net_page_spec(html@) == Some(
            PageView { info: info_view(x.0), fields: fields_view(x.1) },
        ),
{
    if net_page(html).is_some() {
        Some(parse_net_truyen_html_page(html))
    } else {
        None
    }
}


/// The pattern of the update date of a chapter page.
pub open spec fn chapter_date_pattern() -> Seq<char> {
    "<i>\\[Cập nhật lúc:\\s+(.+)\\]<\\/i>"@
}

/// The pattern of an image of a chapter page, with its address and its CDN
/// address.
pub open spec fn chapter_image_pattern() -> Seq<char> {
    "<img\\s+alt=\"[^\"]+\"\\s+data-index=\"[^\"]+\"\\s+src=\"([^\"]+)\"\\s+data-original=\"[^\"]+\" data-cdn=\"([^\"]+)\"\\s+\\/>"@
}

/// The updates that a chapter page calls for: its images with their CDN
/// copies, then its update date; `None` when the page shows no date.
pub open spec fn chapter_page_updates_spec(html: Seq<char>) -> Option<Seq<ChapterFieldView>> {
    match group_one(regex_captures(chapter_date_pattern(), html)) {
        None => None,
        Some(date) => {
            let images = match regex_captures_all(chapter_image_pattern(), html) {
                Some(ms) => server_images(ms),
                None => Seq::empty(),
            };
            Some(seq![ChapterFieldView::ServerImage(images), ChapterFieldView::CreatedDate(date)])
        },
    }
}

/// The updates that a chapter page calls for, or `None` when it shows no
/// update date.
pub fn chapter_page_updates(html: &str) -> (r: Option<Vec<ChapterUpdateField>>)
    ensures
        match r {
            Some(v) => chapter_page_updates_spec(html@) == Some(chapter_fields_view(v)),
            None => chapter_page_updates_spec(html@) is None,
        },
{
    let date = match group_one_text(captures("<i>\\[Cập nhật lúc:\\s+(.+)\\]<\\/i>", html)) {
        Some(d) => d,
        None => return None,
    };
    let images = match captures_all(
        "<img\\s+alt=\"[^\"]+\"\\s+data-index=\"[^\"]+\"\\s+src=\"([^\"]+)\"\\s+data-original=\"[^\"]+\" data-cdn=\"([^\"]+)\"\\s+\\/>",
        html,
    ) {
        Some(ms) => server_images_exec(&ms),
        None => {
            let v: Vec<crate::db::ImageSource> = Vec::new();
            assert(images_view(v) =~= Seq::<(Seq<char>, Seq<char>)>::empty());
            v
        },
    };
    assert(images_view(images) == match regex_captures_all(chapter_image_pattern(), html@) {
        Some(ms) => server_images(ms),
        None => Seq::empty(),
    });
    let ghost iv = images_view(images);
    let ghost dv = date@;
    let mut r: Vec<ChapterUpdateField> = Vec::new();
    r.push(ChapterUpdateField::ServerImage(images));
    r.push(ChapterUpdateField::CreatedDate(date));
    assert(chapter_fields_view(r) =~= seq![
        ChapterFieldView::ServerImage(iv),
        ChapterFieldView::CreatedDate(dv),
    ]);
    Some(r)
}


/// On a NetTruyen comic page, each comic field comes from its own element:
/// the content from the description paragraph, the cover from the cover
/// image, the other names from the other-names row, the genres from the
/// links of the genre row and the authors from the author row (by the
/// selectors below).
pub proof fn law_net_page_sources(html: Seq<char>)
    ensures
        net_page_spec(html) matches Some(p) ==> fields_from_selectors(
            html,
            (
                "#item-detail > div.detail-content > p"@,
                "#item-detail > div.detail-info > div > div.col-xs-4.col-image > img"@,
                "#item-detail > div.detail-info > div > div.col-xs-8.col-info > ul > li.othername.row > h2"@,
                "#item-detail > div.detail-info > div > div.col-xs-8.col-info > ul > li.kind.row > p.col-xs-8"@,
                "#item-detail > div.detail-info > div > div.col-xs-8.col-info > ul > li.author.row > p.col-xs-8"@,
            ),
            p.fields,
        ),
{
    lemma_standard_page_sources(
            html,
            "#item-detail > div.detail-content > p"@,
            "#item-detail > div.detail-info > div > div.col-xs-4.col-image > img"@,
            "#item-detail > div.detail-info > div > div.col-xs-8.col-info > ul > li.othername.row > h2"@,
            "#item-detail > div.detail-info > div > div.col-xs-8.col-info > ul > li.kind.row > p.col-xs-8"@,
            "#item-detail > div.detail-info > div > div.col-xs-8.col-info > ul > li.author.row > p.col-xs-8"@,
    );
}


/// On a NetTruyen chapter page, the update is made only when the page
/// shows its update date (group 1 of `<i>[Cập nhật lúc: …]</i>`), and then
/// sets the images and that date: each image is the (address, CDN address)
/// pair, after "https:", of one `<img … data-cdn=…/>` match, and each such
/// match gives an image.
pub proof fn law_net_chapter_page(html: Seq<char>)
    ensures
        match group_one(regex_captures("<i>\\[Cập nhật lúc:\\s+(.+)\\]<\\/i>"@, html)) {
            None => chapter_page_updates_spec(html) is None,
            Some(d) => chapter_page_updates_spec(html) matches Some(v) && {
                &&& v.len() == 2
                &&& v[1] == ChapterFieldView::CreatedDate(d)
                &&& v[0] matches ChapterFieldView::ServerImage(imgs)
                &&& match regex_captures_all(
                    "<img\\s+alt=\"[^\"]+\"\\s+data-index=\"[^\"]+\"\\s+src=\"([^\"]+)\"\\s+data-original=\"[^\"]+\" data-cdn=\"([^\"]+)\"\\s+\\/>"@,
                    html,
                ) {
                    None => imgs.len() == 0,
                    Some(ms) => {
                        &&& forall|i: int| 0 <= i < imgs.len() ==> #[trigger] has_server_source(ms, imgs[i])
                        &&& forall|j: int|
                            0 <= j < ms.len() && #[trigger] group_of(ms[j], 1) is Some && group_of(ms[j], 2) is Some
                                ==> imgs.contains(("https:"@ + group_of(ms[j], 1)->0, "https:"@ + group_of(ms[j], 2)->0))
                    },
                }
            },
        },
{
    if let Some(ms) = regex_captures_all(chapter_image_pattern(), html) {
        lemma_server_images_sources(ms);
    }
}

} // verus!
