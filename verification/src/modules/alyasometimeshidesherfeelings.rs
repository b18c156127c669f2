//! alyasometimeshidesherfeelings.com.
use vstd::prelude::*;

use crate::db::{strings_view, ComicFieldView, UpdateComicDocField};
use crate::dom::{elements_view, select_first, select_within_first, html_select_first, html_select_within_first, Element, ElementView};
use crate::modules::comic_info::{
    add_thumbnail, fields_view, info_view, record_links, record_text, recorded, thumbnail_step,
    trimmed_pieces, trimmed_pieces_exec, unlinked, unlinked_exec, InfoValue, InfoValueView, LinkKind,
    PageInfo, PageView, link_field,
};
use crate::db::{chapter_fields_view, ChapterFieldView, ChapterUpdateField};
use crate::modules::chapters::{images_update, images_update_exec, page_images, page_images_exec};
use crate::modules::chapters::AgeOffset;
use crate::text::{
    chars_of, contains, contains_spec, eq, lit, parse_i32, parse_i32_spec, replace, replace_spec, split,
    split_spec, starts_with, string_of, trim, trim_spec, views,
};

use crate::modules::chapters::{has_source, image_source, lemma_matched_groups_sources, matched_groups};
use crate::pattern::regex_captures_all;

verus! {

/// Whether `url` is the comic page: the site's home page (`page` is not
/// read).
pub fn is_comic_page(url: &str, _page: &str) -> (r: bool)
    ensures
        r == (url@ == "https://alyasometimeshidesherfeelings.com/"@),
{
    eq(&chars_of(url), &lit("https://alyasometimeshidesherfeelings.com/"))
}

/// Whether `url` is a chapter page address (`html` is not read).
pub fn is_chapter_page(url: &str, _html: &str) -> (r: bool)
    ensures
        r == "https://alyasometimeshidesherfeelings.com/manga/"@.is_prefix_of(url@),
{
    starts_with(&chars_of(url), &lit("https://alyasometimeshidesherfeelings.com/manga/"))
}


/// The text of an information line with its label taken out, trimmed.
pub open spec fn unlabelled(t: Seq<char>, label: Seq<char>) -> Seq<char> {
    trim_spec(replace_spec(t, label, ""@))
}

/// What one line of the information list adds: other name, authors,
/// genres, status or description, by the label it starts with.
pub open spec fn info_line_step(o: Option<PageView>, li: ElementView) -> Option<PageView> {
    match o {
        None => None,
        Some(p) => {
            let t = li.text;
            let p1 = if "Alternate Name(s):"@.is_prefix_of(t) {
                let n = seq![unlabelled(t, "Alternate Name(s):"@)];
                recorded(p, "another_name"@, InfoValueView::Names(n), ComicFieldView::AnotherName(n))
            } else {
                p
            };
            let p2 = if "Author(s):"@.is_prefix_of(t) {
                let l = unlinked(trimmed_pieces(unlabelled(t, "Author(s):"@), ","@));
                recorded(p1, "author"@, InfoValueView::Links(l), ComicFieldView::Author(l))
            } else {
                p1
            };
            let p3 = if "Genre(s):"@.is_prefix_of(t) {
                let l = unlinked(trimmed_pieces(unlabelled(t, "Genre(s):"@), ","@));
                recorded(p2, "genre"@, InfoValueView::Links(l), ComicFieldView::Genre(l))
            } else {
                p2
            };
            let p4 = if "Status:"@.is_prefix_of(t) {
                let st = unlabelled(t, "Status:"@);
                recorded(p3, "status"@, InfoValueView::Text(st), ComicFieldView::Status(st))
            } else {
                p3
            };
            let p5 = if "Description:"@.is_prefix_of(t) {
                let d = unlabelled(t, "Description:"@);
                recorded(p4, "description"@, InfoValueView::Text(d), ComicFieldView::Content(Some(d)))
            } else {
                p4
            };
            Some(p5)
        },
    }
}

/// The information lines, in order.
pub open spec fn info_lines(o: Option<PageView>, lis: Seq<ElementView>) -> Option<PageView>
    decreases lis.len(),
{
    if lis.len() == 0 {
        o
    } else {
        info_line_step(info_lines(o, lis.drop_last()), lis.last())
    }
}

proof fn lemma_info_lines_none(lis: Seq<ElementView>)
    ensures
        info_lines(None, lis) is None,
    decreases lis.len(),
{
    if lis.len() > 0 {
        lemma_info_lines_none(lis.drop_last());
    }
}

/// The comic information of the comic page.
pub open spec fn alya_page_spec(html: Seq<char>) -> Option<PageView> {
    let s0 = Some(
        PageView { info: Seq::empty(), fields: seq![ComicFieldView::PythonFetchInfo(true)] },
    );
    let s1 = thumbnail_step(
        s0,
        html_select_first(html, "#content > div > div.left-column > img"@, "src"@),
        "thumbnail"@,
        false,
    );
    match html_select_within_first(html, "#content > div > div.right-column > div > ul"@, "li"@, ""@) {
        Some(Some((_, lis))) => info_lines(s1, lis),
        _ => s1,
    }
}

fn unlabelled_exec(t: &Vec<char>, label: &str) -> (r: Vec<char>)
    requires
        label@.len() > 0,
    ensures
        r@ == unlabelled(t@, label@),
{
    trim(&replace(t, &chars_of(label), &lit("")))
}

fn add_unlinked(p: &mut PageInfo, t: &Vec<char>, label: &str, key: &str, kind: LinkKind)
    requires
        label@.len() > 0,
    ensures
        ({
            let l = unlinked(trimmed_pieces(unlabelled(t@, label@), ","@));
            final(p)@ == recorded(old(p)@, key@, InfoValueView::Links(l), link_field(kind, l))
        }),
{
    proof {
        reveal_strlit(",");
    }
    let names = trimmed_pieces_exec(&unlabelled_exec(t, label), &chars_of(","));
    let mut pieces: Vec<Vec<char>> = Vec::new();
    let mut i: usize = 0;
    while i < names.len()
        invariant
            i <= names@.len(),
            pieces@.len() == i,
            views(pieces@) == strings_view(names).take(i as int),
        decreases names@.len() - i,
    {
        let x = chars_of(names[i].as_str());
        let ghost r0 = pieces@;
        pieces.push(x);
        assert(pieces@ == r0.push(x));
        assert(views(pieces@) =~= strings_view(names).take(i + 1));
        i += 1;
    }
    assert(strings_view(names).take(names@.len() as int) =~= strings_view(names));
    record_links(p, key, unlinked_exec(&pieces), kind);
}

/// What one line of the information list adds.
pub fn add_info_line(p: &mut PageInfo, li: &Element)
    ensures
        Some(final(p)@) == info_line_step(Some(old(p)@), li@),
{
    proof {
        reveal_strlit("Alternate Name(s):");
        reveal_strlit("Author(s):");
        reveal_strlit("Genre(s):");
        reveal_strlit("Status:");
        reveal_strlit("Description:");
    }
    let t = chars_of(li.text.as_str());
    if starts_with(&t, &lit("Alternate Name(s):")) {
        let n = string_of(&unlabelled_exec(&t, "Alternate Name(s):"));
        let mut names: Vec<String> = Vec::new();
        names.push(n.clone());
        let mut names2: Vec<String> = Vec::new();
        names2.push(n);
        assert(strings_view(names) =~= seq![unlabelled(t@, "Alternate Name(s):"@)]);
        assert(strings_view(names2) =~= seq![unlabelled(t@, "Alternate Name(s):"@)]);
        p.record("another_name", InfoValue::Names(names), UpdateComicDocField::AnotherName(names2));
    }
    if starts_with(&t, &lit("Author(s):")) {
        add_unlinked(p, &t, "Author(s):", "author", LinkKind::Author);
    }
    if starts_with(&t, &lit("Genre(s):")) {
        add_unlinked(p, &t, "Genre(s):", "genre", LinkKind::Genre);
    }
    if starts_with(&t, &lit("Status:")) {
        let st = string_of(&unlabelled_exec(&t, "Status:"));
        let f = UpdateComicDocField::Status(st.clone());
        p.record("status", InfoValue::Text(st), f);
    }
    if starts_with(&t, &lit("Description:")) {
        let d = unlabelled_exec(&t, "Description:");
        record_text(p, "description", &d, true);
    }
}

fn alya_page(html: &str) -> (r: Option<PageInfo>)
    ensures
        match r {
            Some(p) => alya_page_spec(html@) == Some(p@),
            None => alya_page_spec(html@) is None,
        },
{
    let mut p = PageInfo::new(true);
    if !add_thumbnail(
        &mut p,
        select_first(html, "#content > div > div.left-column > img", "src"),
        "thumbnail",
        false,
    ) {
        proof {
            if let Some(Some((_, lis))) = html_select_within_first(
                html@,
                "#content > div > div.right-column > div > ul"@,
                "li"@,
                ""@,
            ) {
                lemma_info_lines_none(lis);
            }
        }
        return None;
    }
    let ghost s1 = Some(p@);
    let q = select_within_first(html, "#content > div > div.right-column > div > ul", "li", "");
    if let Some(Some((_, lis))) = q {
        let ghost lv = elements_view(lis);
        let mut i: usize = 0;
        assert(lv.take(0) =~= Seq::<ElementView>::empty());
        while i < lis.len()
            invariant
                i <= lis@.len(),
                lv == elements_view(lis),
                Some(p@) == info_lines(s1, lv.take(i as int)),
            decreases lis@.len() - i,
        {
            add_info_line(&mut p, &lis[i]);
            assert(lv.take(i + 1).drop_last() =~= lv.take(i as int));
            i += 1;
        }
        assert(lv.take(lis@.len() as int) =~= lv);
    }
    Some(p)
}

/// The comic information of the comic page: the information map, as its
/// insertions in order, and the comic field updates (the
/// information-fetched flag, the thumbnail, then what each line of the
/// information list says).
pub fn parse_alyasometimeshidesherfeelings_moi_html_page(html: &str) -> (r: (
    Vec<(String, InfoValue)>,
    Vec<UpdateComicDocField>,
))
    requires
        alya_page_spec(html@) is Some,
    ensures
        alya_page_spec(html@) == Some(PageView { info: info_view(r.0), fields: fields_view(r.1) }),
{
    match alya_page(html) {
        Some(p) => (p.info, p.fields),
        None => (Vec::new(), Vec::new()),
    }
}

/// `parse_alyasometimeshidesherfeelings_moi_html_page` where the page can be
/// read: `None` when its cover image has no address.
pub fn try_parse_alyasometimeshidesherfeelings_moi_html_page(html: &str) -> (r: Option<
    (Vec<(String, InfoValue)>, Vec<UpdateComicDocField>),
>)
    ensures
        r is None <==> alya_page_spec(html@) is None,
        r matches Some(x) ==> alya_page_spec(html@) == Some(
            PageView { info: info_view(x.0), fields: fields_view(x.1) },
        ),
{
    if alya_page(html).is_some() {
        Some(parse_alyasometimeshidesherfeelings_moi_html_page(html))
    } else {
        None
    }
}


/// The update that a chapter page calls for: its images (the sources of
/// `img` tags that start with "http"), or `None` when it has none.
pub open spec fn chapter_page_updates_spec(html: Seq<char>) -> Option<Seq<ChapterFieldView>> {
    let list = page_images(html, "<img.+src=\"([^\"]+)"@, true);
    if list.len() == 0 {
        None
    } else {
        Some(images_update(list))
    }
}

/// The update that a chapter page calls for: its images, or `None` when it
/// has none.
pub fn chapter_page_updates(html: &str) -> (r: Option<Vec<ChapterUpdateField>>)
    ensures
        match r {
            Some(v) => chapter_page_updates_spec(html@) == Some(chapter_fields_view(v)),
            None => chapter_page_updates_spec(html@) is None,
        },
{
    let list = page_images_exec(html, "<img.+src=\"([^\"]+)", true);
    if list.len() == 0 {
        None
    } else {
        Some(images_update_exec(list))
    }
}


/// The text of a chapter age with "ago" taken out, trimmed.
pub open spec fn age_text(t: Seq<char>) -> Seq<char> {
    trim_spec(replace_spec(t, "ago"@, ""@))
}

/// The number before the first space.
pub open spec fn leading_number(t: Seq<char>) -> Option<i32> {
    parse_i32_spec(split_spec(t, " "@)[0])
}

/// How long ago a chapter of the list was published, read from a text such
/// as "2 weeks ago": years and months become months, weeks and days become
/// days, anything else no offset. `None` where the number cannot be read or
/// the offset is negative or does not fit.
pub open spec fn relative_age(t: Seq<char>) -> Option<AgeOffset> {
    let tmp = age_text(t);
    let n = leading_number(tmp);
    if contains_spec(tmp, "year"@) {
        match n {
            Some(n) => if 0 <= 12 * n <= i32::MAX {
                Some(AgeOffset::Months((12 * n) as u32))
            } else {
                None
            },
            None => None,
        }
    } else if contains_spec(tmp, "month"@) {
        match n {
            Some(n) => if n >= 0 {
                Some(AgeOffset::Months(n as u32))
            } else {
                None
            },
            None => None,
        }
    } else if contains_spec(tmp, "week"@) {
        match n {
            Some(n) => if 0 <= 7 * n <= i32::MAX {
                Some(AgeOffset::Days((7 * n) as u64))
            } else {
                None
            },
            None => None,
        }
    } else if contains_spec(tmp, "day"@) {
        match n {
            Some(n) => if n >= 0 {
                Some(AgeOffset::Days(n as u64))
            } else {
                None
            },
            None => None,
        }
    } else {
        Some(AgeOffset::Zero)
    }
}

fn leading_number_exec(t: &Vec<char>) -> (r: Option<i32>)
    ensures
        r == leading_number(t@),
{
    proof {
        reveal_strlit(" ");
    }
    let pieces = split(t, &lit(" "));
    assert(crate::text::views(pieces@)[0] == pieces@[0]@);
    parse_i32(&pieces[0])
}

/// How long ago a chapter of the list was published; `None` where the text
/// cannot be read.
pub fn age_of(t: &str) -> (r: Option<AgeOffset>)
    ensures
        r == relative_age(t@),
{
    proof {
        reveal_strlit("ago");
    }
    let tmp = trim(&replace(&chars_of(t), &lit("ago"), &lit("")));
    if contains(&tmp, &lit("year")) {
        match leading_number_exec(&tmp) {
            Some(n) => if 0 <= n && n <= 178956970 {
                Some(AgeOffset::Months((12 * n) as u32))
            } else {
                None
            },
            None => None,
        }
    } else if contains(&tmp, &lit("month")) {
        match leading_number_exec(&tmp) {
            Some(n) => if n >= 0 {
                Some(AgeOffset::Months(n as u32))
            } else {
                None
            },
            None => None,
        }
    } else if contains(&tmp, &lit("week")) {
        match leading_number_exec(&tmp) {
            Some(n) => if 0 <= n && n <= 306783378 {
                Some(AgeOffset::Days((7 * n) as u64))
            } else {
                None
            },
            None => None,
        }
    } else if contains(&tmp, &lit("day")) {
        match leading_number_exec(&tmp) {
            Some(n) => if n >= 0 {
                Some(AgeOffset::Days(n as u64))
            } else {
                None
            },
            None => None,
        }
    } else {
        Some(AgeOffset::Zero)
    }
}


/// On a chapter page, the images are the sources of `<img ...>` tags (group 1
/// of each match of `<img.+src="([^"]+)`, whatever attributes come before
/// `src`) that start with "http": each image is one of them and each of them
/// is an image. The update is `None` exactly when there is none.
pub proof fn law_alya_chapter_images(html: Seq<char>)
    ensures
        match regex_captures_all("<img.+src=\"([^\"]+)"@, html) {
            None => chapter_page_updates_spec(html) is None,
            Some(ms) => {
                &&& (chapter_page_updates_spec(html) is None <==> forall|j: int, t: Seq<char>|
                    0 <= j < ms.len() ==> !#[trigger] image_source(ms[j], 1, true, t))
                &&& (chapter_page_updates_spec(html) matches Some(v) ==> {
                    &&& v.len() == 1
                    &&& v[0] matches ChapterFieldView::Images(l)
                    &&& forall|i: int| 0 <= i < l.len() ==> #[trigger] has_source(ms, 1, true, l[i])
                    &&& forall|j: int, t: Seq<char>|
                        0 <= j < ms.len() && #[trigger] image_source(ms[j], 1, true, t) ==> l.contains(t)
                })
            },
        },
{
    match regex_captures_all("<img.+src=\"([^\"]+)"@, html) {
        None => {},
        Some(ms) => {
            lemma_matched_groups_sources(ms, 1, true);
            let l = matched_groups(ms, 1, true);
            if l.len() > 0 {
                assert(has_source(ms, 1, true, l[0]));
                let j = choose|j: int| 0 <= j < ms.len() && #[trigger] image_source(ms[j], 1, true, l[0]);
                assert(image_source(ms[j], 1, true, l[0]));
            } else {
                assert forall|j: int, t: Seq<char>|
                    0 <= j < ms.len() implies !#[trigger] image_source(ms[j], 1, true, t) by {
                    if image_source(ms[j], 1, true, t) {
                        assert(l.contains(t));
                    }
                }
            }
        },
    }
}


/// Whether the comic field `f` is what the information line with text `t`
/// says: the text after its label, trimmed (split at `,` into names
/// without addresses for authors and genres).
pub open spec fn alya_line_says(t: Seq<char>, f: ComicFieldView) -> bool {
    ||| "Alternate Name(s):"@.is_prefix_of(t) && f == ComicFieldView::AnotherName(
        seq![trim_spec(replace_spec(t, "Alternate Name(s):"@, ""@))],
    )
    ||| "Author(s):"@.is_prefix_of(t) && f == ComicFieldView::Author(
        unlinked(trimmed_pieces(trim_spec(replace_spec(t, "Author(s):"@, ""@)), ","@)),
    )
    ||| "Genre(s):"@.is_prefix_of(t) && f == ComicFieldView::Genre(
        unlinked(trimmed_pieces(trim_spec(replace_spec(t, "Genre(s):"@, ""@)), ","@)),
    )
    ||| "Status:"@.is_prefix_of(t) && f == ComicFieldView::Status(
        trim_spec(replace_spec(t, "Status:"@, ""@)),
    )
    ||| "Description:"@.is_prefix_of(t) && f == ComicFieldView::Content(
        Some(trim_spec(replace_spec(t, "Description:"@, ""@))),
    )
}

/// Whether the comic field `f` of the comic page `html` comes from where it
/// should: the cover from the `src` of the left column's image, the other
/// fields from one of the lines of the right column's list.
pub open spec fn alya_field_from(html: Seq<char>, f: ComicFieldView) -> bool {
    match f {
        ComicFieldView::PythonFetchInfo(b) => b,
        ComicFieldView::ThumbnailUrl(x) => html_select_first(
            html,
            "#content > div > div.left-column > img"@,
            "src"@,
        ) matches Some(Some(e)) && e.attr is Some && x == e.attr,
        _ => html_select_within_first(
            html,
            "#content > div > div.right-column > div > ul"@,
            "li"@,
            ""@,
        ) matches Some(Some(g)) && exists|j: int|
            0 <= j < g.1.len() && #[trigger] alya_line_says(g.1[j].text, f),
    }
}

pub open spec fn alya_fields_from(html: Seq<char>, fs: Seq<ComicFieldView>) -> bool {
    forall|k: int| 0 <= k < fs.len() ==> #[trigger] alya_field_from(html, fs[k])
}

proof fn lemma_alya_fields_push(html: Seq<char>, fs: Seq<ComicFieldView>, f: ComicFieldView)
    requires
        alya_fields_from(html, fs),
        alya_field_from(html, f),
    ensures
        alya_fields_from(html, fs.push(f)),
{
    assert forall|k: int| 0 <= k < fs.push(f).len() implies #[trigger] alya_field_from(html, fs.push(f)[k]) by {
        if k < fs.len() {
            assert(fs.push(f)[k] == fs[k]);
        }
    }
}

proof fn lemma_alya_line_step(html: Seq<char>, lis: Seq<ElementView>, j: int, p: PageView)
    requires
        html_select_within_first(html, "#content > div > div.right-column > div > ul"@, "li"@, ""@)
            matches Some(Some(g)) && g.1 == lis,
        0 <= j < lis.len(),
        alya_fields_from(html, p.fields),
    ensures
        info_line_step(Some(p), lis[j]) matches Some(q) && alya_fields_from(html, q.fields),
{
    let t = lis[j].text;
    let mut fs = p.fields;
    let n = seq![trim_spec(replace_spec(t, "Alternate Name(s):"@, ""@))];
    if "Alternate Name(s):"@.is_prefix_of(t) {
        let f = ComicFieldView::AnotherName(n);
        assert(alya_line_says(lis[j].text, f));
        lemma_alya_fields_push(html, fs, f);
        fs = fs.push(f);
    }
    if "Author(s):"@.is_prefix_of(t) {
        let f = ComicFieldView::Author(unlinked(trimmed_pieces(trim_spec(replace_spec(t, "Author(s):"@, ""@)), ","@)));
        assert(alya_line_says(lis[j].text, f));
        lemma_alya_fields_push(html, fs, f);
        fs = fs.push(f);
    }
    if "Genre(s):"@.is_prefix_of(t) {
        let f = ComicFieldView::Genre(unlinked(trimmed_pieces(trim_spec(replace_spec(t, "Genre(s):"@, ""@)), ","@)));
        assert(alya_line_says(lis[j].text, f));
        lemma_alya_fields_push(html, fs, f);
        fs = fs.push(f);
    }
    if "Status:"@.is_prefix_of(t) {
        let f = ComicFieldView::Status(trim_spec(replace_spec(t, "Status:"@, ""@)));
        assert(alya_line_says(lis[j].text, f));
        lemma_alya_fields_push(html, fs, f);
        fs = fs.push(f);
    }
    if "Description:"@.is_prefix_of(t) {
        let f = ComicFieldView::Content(Some(trim_spec(replace_spec(t, "Description:"@, ""@))));
        assert(alya_line_says(lis[j].text, f));
        lemma_alya_fields_push(html, fs, f);
        fs = fs.push(f);
    }
    assert(info_line_step(Some(p), lis[j])->0.fields == fs);
}

proof fn lemma_alya_lines(html: Seq<char>, lis: Seq<ElementView>, m: int, o: PageView)
    requires
        html_select_within_first(html, "#content > div > div.right-column > div > ul"@, "li"@, ""@)
            matches Some(Some(g)) && g.1 == lis,
        0 <= m <= lis.len(),
        alya_fields_from(html, o.fields),
    ensures
        info_lines(Some(o), lis.take(m)) matches Some(q) && alya_fields_from(html, q.fields),
    decreases m,
{
    if m > 0 {
        lemma_alya_lines(html, lis, m - 1, o);
        assert(lis.take(m).drop_last() =~= lis.take(m - 1));
        assert(lis.take(m).last() == lis[m - 1]);
        let q = info_lines(Some(o), lis.take(m - 1))->0;
        lemma_alya_line_step(html, lis, m - 1, q);
    } else {
        assert(lis.take(0) =~= Seq::<ElementView>::empty());
    }
}

proof fn lemma_info_lines_none_any(html: Seq<char>)
    ensures
        html_select_within_first(html, "#content > div > div.right-column > div > ul"@, "li"@, ""@)
            matches Some(Some(g)) ==> info_lines(None, g.1) is None,
{
    if let Some(Some(g)) = html_select_within_first(
        html,
        "#content > div > div.right-column > div > ul"@,
        "li"@,
        ""@,
    ) {
        lemma_info_lines_none(g.1);
    }
}

/// On an alyasometimeshidesherfeelings comic page, the cover is the `src`
/// of the left column's image and every other comic field is what one of
/// the lines of the right column's list says after its label.
pub proof fn law_alya_page_sources(html: Seq<char>)
    ensures
        alya_page_spec(html) matches Some(p) ==> forall|k: int|
            0 <= k < p.fields.len() ==> #[trigger] alya_field_from(html, p.fields[k]),
{
    let f0 = seq![ComicFieldView::PythonFetchInfo(true)];
    assert(alya_field_from(html, f0[0]));
    assert(alya_fields_from(html, f0));
    let s0 = Some(PageView { info: Seq::empty(), fields: f0 });
    let s1 = thumbnail_step(
        s0,
        html_select_first(html, "#content > div > div.left-column > img"@, "src"@),
        "thumbnail"@,
        false,
    );
    if let Some(p1) = s1 {
        if p1.fields.len() > 1 {
            lemma_alya_fields_push(html, f0, p1.fields.last());
            assert(p1.fields == f0.push(p1.fields.last()));
        }
        assert(alya_fields_from(html, p1.fields));
        if let Some(Some(g)) = html_select_within_first(
            html,
            "#content > div > div.right-column > div > ul"@,
            "li"@,
            ""@,
        ) {
            lemma_alya_lines(html, g.1, g.1.len() as int, p1);
            assert(g.1.take(g.1.len() as int) =~= g.1);
            assert(alya_page_spec(html) == info_lines(s1, g.1));
            let q = info_lines(s1, g.1)->0;
            assert(alya_fields_from(html, q.fields));
        } else {
            assert(alya_page_spec(html) == s1);
        }
    } else {
        assert(s1 is None);
        lemma_info_lines_none_any(html);
    }
}

} // verus!
