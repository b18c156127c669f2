//! mangajuice.com.
use vstd::prelude::*;

use crate::db::UpdateComicDocField;
use crate::modules::comic_info::{
    fields_view, info_view, standard_page, standard_page_spec, InfoValue, PageInfo, PageView,
};
use crate::db::{chapter_fields_view, ChapterFieldView, ChapterUpdateField};
use crate::modules::chapters::{images_update, images_update_exec, page_images, page_images_exec};
use crate::text::{chars_of, contains, contains_spec, lit, starts_with};

use crate::modules::chapters::{has_source, image_source, lemma_matched_groups_sources, matched_groups};
use crate::pattern::regex_captures_all;

use crate::modules::comic_info::{fields_from_selectors, lemma_standard_page_sources};

verus! {

/// Whether `url` is a comic page address: it holds the manga path
/// (`page` is not read).
pub fn is_comic_page(url: &str, _page: &str) -> (r: bool)
    ensures
        r == contains_spec(url@, "https://mangajuice.com/manga"@),
{
    contains(&chars_of(url), &lit("https://mangajuice.com/manga"))
}

/// Whether `url` is a chapter page address (`html` is not read).
pub fn is_chapter_page(url: &str, _html: &str) -> (r: bool)
    ensures
        r == "https://mangajuice.com/chapter"@.is_prefix_of(url@),
{
    starts_with(&chars_of(url), &lit("https://mangajuice.com/chapter"))
}


/// The comic information of a mangajuice comic page.
pub open spec fn mangajuice_page_spec(html: Seq<char>) -> Option<PageView> {
    standard_page_spec(
        html,
        "#hidden > p"@,
        "div.manga-cover > a > img"@,
        "div.entry-content > div > div.row > div.col-md-10 > figure > table > tbody > tr:nth-child(3) > td:nth-child(2)"@,
        "div.entry-content > div > div.row > div.col-md-10 > figure > table > tbody > tr:nth-child(5) > td:nth-child(2)"@,
        "div.entry-content > div > div.row > div.col-md-10 > figure > table > tbody > tr:nth-child(4) > td:nth-child(2)"@,
    )
}

fn mangajuice_page(html: &str) -> (r: Option<PageInfo>)
    ensures
        match r {
            Some(p) => mangajuice_page_spec(html@) == Some(p@),
            None => mangajuice_page_spec(html@) is None,
        },
{
    standard_page(
        html,
        "#hidden > p",
        "div.manga-cover > a > img",
        "div.entry-content > div > div.row > div.col-md-10 > figure > table > tbody > tr:nth-child(3) > td:nth-child(2)",
        "div.entry-content > div > div.row > div.col-md-10 > figure > table > tbody > tr:nth-child(5) > td:nth-child(2)",
        "div.entry-content > div > div.row > div.col-md-10 > figure > table > tbody > tr:nth-child(4) > td:nth-child(2)",
    )
}

/// The comic information of a mangajuice comic page: the information map,
/// as its insertions in order, and the comic field updates (the
/// information-fetched flag, then content, thumbnail, other names, genres
/// and authors, each where the page has it).
pub fn parse_mangajuice_html_page(html: &str) -> (r: (Vec<(String, InfoValue)>, Vec<UpdateComicDocField>))
    requires
        mangajuice_page_spec(html@) is Some,
    ensures
        mangajuice_page_spec(html@) == Some(PageView { info: info_view(r.0), fields: fields_view(r.1) }),
{
    match mangajuice_page(html) {
        Some(p) => (p.info, p.fields),
        None => (Vec::new(), Vec::new()),
    }
}

/// `parse_mangajuice_html_page` where the page can be read: `None` when its
/// cover image or one of its genre or author links has no address.
pub fn try_parse_mangajuice_html_page(html: &str) -> (r: Option<
    (Vec<(String, InfoValue)>, Vec<UpdateComicDocField>),
>)
    ensures
        r is None <==> mangajuice_page_spec(html@) is None,
        r matches Some(x) ==> mangajuice_page_spec(html@) == Some(
            PageView { info: info_view(x.0), fields: fields_view(x.1) },
        ),
{
    if mangajuice_page(html).is_some() {
        Some(parse_mangajuice_html_page(html))
    } else {
        None
    }
}


/// The update that a chapter page calls for: its images (the sources of
/// `img` tags), or `None` when it has none.
pub open spec fn chapter_page_updates_spec(html: Seq<char>) -> Option<Seq<ChapterFieldView>> {
    let list = page_images(html, "<img.+src=\"([^\"]+)"@, false);
    if list.len() == 0 {
        None
    } else {
        Some(images_update(list))
    }
}

/// The update that a chapter page calls for: its images, or `None` when it
/// has none.
pub fn chapter_page_updates(html: &str) -> (r: Option<Vec<ChapterUpdateField>>)
    ensures
        match r {
            Some(v) => chapter_page_updates_spec(html@) == Some(chapter_fields_view(v)),
            None => chapter_page_updates_spec(html@) is None,
        },
{
    let list = page_images_exec(html, "<img.+src=\"([^\"]+)", false);
    if list.len() == 0 {
        None
    } else {
        Some(images_update_exec(list))
    }
}


/// On a chapter page, the images are the sources of `<img ...>` tags (group 1
/// of each match of `<img.+src="([^"]+)`, whatever attributes come before
/// `src`): each image is one of them and each of them is an image. The
/// update is `None` exactly when there is none.
pub proof fn law_mangajuice_chapter_images(html: Seq<char>)
    ensures
        match regex_captures_all("<img.+src=\"([^\"]+)"@, html) {
            None => chapter_page_updates_spec(html) is None,
            Some(ms) => {
                &&& (chapter_page_updates_spec(html) is None <==> forall|j: int, t: Seq<char>|
                    0 <= j < ms.len() ==> !#[trigger] image_source(ms[j], 1, false, t))
                &&& (chapter_page_updates_spec(html) matches Some(v) ==> {
                    &&& v.len() == 1
                    &&& v[0] matches ChapterFieldView::Images(l)
                    &&& forall|i: int| 0 <= i < l.len() ==> #[trigger] has_source(ms, 1, false, l[i])
                    &&& forall|j: int, t: Seq<char>|
                        0 <= j < ms.len() && #[trigger] image_source(ms[j], 1, false, t) ==> l.contains(t)
                })
            },
        },
{
    match regex_captures_all("<img.+src=\"([^\"]+)"@, html) {
        None => {},
        Some(ms) => {
            lemma_matched_groups_sources(ms, 1, false);
            let l = matched_groups(ms, 1, false);
            if l.len() > 0 {
                assert(has_source(ms, 1, false, l[0]));
                let j = choose|j: int| 0 <= j < ms.len() && #[trigger] image_source(ms[j], 1, false, l[0]);
                assert(image_source(ms[j], 1, false, l[0]));
            } else {
                assert forall|j: int, t: Seq<char>|
                    0 <= j < ms.len() implies !#[trigger] image_source(ms[j], 1, false, t) by {
                    if image_source(ms[j], 1, false, t) {
                        assert(l.contains(t));
                    }
                }
            }
        },
    }
}


/// On a mangajuice comic page, each comic field comes from its own element:
/// the content from the description paragraph, the cover from the cover
/// image, the other names from the other-names row, the genres from the
/// links of the genre row and the authors from the author row (by the
/// selectors below).
pub proof fn law_mangajuice_page_sources(html: Seq<char>)
    ensures
        mangajuice_page_spec(html) matches Some(p) ==> fields_from_selectors(
            html,
            (
                "#hidden > p"@,
                "div.manga-cover > a > img"@,
                "div.entry-content > div > div.row > div.col-md-10 > figure > table > tbody > tr:nth-child(3) > td:nth-child(2)"@,
                "div.entry-content > div > div.row > div.col-md-10 > figure > table > tbody > tr:nth-child(5) > td:nth-child(2)"@,
                "div.entry-content > div > div.row > div.col-md-10 > figure > table > tbody > tr:nth-child(4) > td:nth-child(2)"@,
            ),
            p.fields,
        ),
{
    lemma_standard_page_sources(
            html,
            "#hidden > p"@,
            "div.manga-cover > a > img"@,
            "div.entry-content > div > div.row > div.col-md-10 > figure > table > tbody > tr:nth-child(3) > td:nth-child(2)"@,
            "div.entry-content > div > div.row > div.col-md-10 > figure > table > tbody > tr:nth-child(5) > td:nth-child(2)"@,
            "div.entry-content > div > div.row > div.col-md-10 > figure > table > tbody > tr:nth-child(4) > td:nth-child(2)"@,
    );
}

} // verus!
