//! blogtruyenmoi.com.
use vstd::prelude::*;

use crate::db::{chapter_fields_view, clone_links, clone_strings, ComicFieldView, ChapterFieldView, ChapterUpdateField, UpdateComicDocField};
use crate::modules::chapters::{images_update, images_update_exec, page_images, page_images_exec};
use crate::dom::{
    child_view, html_select_first, html_select_nested_within_first, nested_view, select_first,
    select_nested_within_first, Element, ElementView,
};
use crate::modules::comic_info::{
    add_content, add_thumbnail, content_step, fields_view, info_view, link_field, links_of,
    links_of_exec, record_links, recorded, thumbnail_step, to_strings, trimmed_pieces,
    trimmed_pieces_exec, InfoValue, InfoValueView, LinkKind, PageInfo, PageView,
};
use crate::text::{
    chars_of, contains, contains_spec, join, join_spec, lit, split, split_spec, starts_with,
    string_of, trim, trim_spec, views,
};

use crate::modules::chapters::{has_source, image_source, lemma_matched_groups_sources, matched_groups};
use crate::pattern::regex_captures_all;

verus! {

/// Whether `page` is a comic page: it offers the "add to bookmark" button.
pub fn is_comic_page(page: &str) -> (r: bool)
    ensures
        r == contains_spec(page@, "Thêm vào bookmark"@),
{
    contains(&chars_of(page), &lit("Thêm vào bookmark"))
}


/// The other names of a "Tên khác:" line: what follows its first `:`,
/// split at `,`, each trimmed.
pub open spec fn other_names(t: Seq<char>) -> Seq<Seq<char>> {
    trimmed_pieces(join_spec(split_spec(t, ":"@).skip(1), ":"@), ","@)
}

/// A line whose links become the field `kind`; `None` when a link has no
/// address.
pub open spec fn links_line(
    p: PageView,
    ch: Seq<ElementView>,
    key: Seq<char>,
    kind: LinkKind,
) -> Option<PageView> {
    match links_of(ch) {
        Some(l) => Some(recorded(p, key, InfoValueView::Links(l), link_field(kind, l))),
        None => None,
    }
}

/// What one paragraph of the description adds, by the label its trimmed
/// text starts with; the paragraph's links and its `span`s are given.
pub open spec fn description_line_step(
    o: Option<PageView>,
    line: (ElementView, Seq<ElementView>, Seq<ElementView>),
) -> Option<PageView> {
    match o {
        None => None,
        Some(p) => {
            let t = trim_spec(line.0.text);
            if "Tên khác:"@.is_prefix_of(t) {
                let n = other_names(t);
                Some(
                    recorded(
                        p,
                        "anotherName"@,
                        InfoValueView::Names(n),
                        ComicFieldView::AnotherName(n),
                    ),
                )
            } else if "Tác giả:"@.is_prefix_of(t) {
                links_line(p, line.1, "author"@, LinkKind::Author)
            } else if "Nguồn:"@.is_prefix_of(t) {
                links_line(p, line.1, "source"@, LinkKind::Source)
            } else if "Nhóm dịch:"@.is_prefix_of(t) {
                links_line(p, line.1, "translatorTeam"@, LinkKind::TranslatorTeam)
            } else if "Đăng bởi:"@.is_prefix_of(t) {
                match links_line(p, line.1, "postedBy"@, LinkKind::PostedBy) {
                    None => None,
                    Some(p2) => if line.2.len() > 0 {
                        let st = trim_spec(line.2[0].text);
                        Some(
                            recorded(
                                p2,
                                "status"@,
                                InfoValueView::Text(st),
                                ComicFieldView::Status(st),
                            ),
                        )
                    } else {
                        Some(p2)
                    },
                }
            } else if "Thể loại:"@.is_prefix_of(t) {
                links_line(p, line.1, "genre"@, LinkKind::Genre)
            } else {
                Some(p)
            }
        },
    }
}

/// The paragraphs of the description, in order.
pub open spec fn description_lines(
    o: Option<PageView>,
    lines: Seq<(ElementView, Seq<ElementView>, Seq<ElementView>)>,
) -> Option<PageView>
    decreases lines.len(),
{
    if lines.len() == 0 {
        o
    } else {
        description_line_step(description_lines(o, lines.drop_last()), lines.last())
    }
}

proof fn lemma_description_lines_none(lines: Seq<(ElementView, Seq<ElementView>, Seq<ElementView>)>)
    ensures
        description_lines(None, lines) is None,
    decreases lines.len(),
{
    if lines.len() > 0 {
        lemma_description_lines_none(lines.drop_last());
    }
}

/// The comic information of a comic page.
pub open spec fn blog_page_spec(html: Seq<char>) -> Option<PageView> {
    let s0 = Some(PageView { info: Seq::empty(), fields: Seq::empty() });
    let s1 = content_step(
        s0,
        html_select_first(
            html,
            "#wrapper > section.main-content > div > div.col-md-8 > section > div.detail > div.content"@,
            ""@,
        ),
        "content"@,
    );
    let s2 = thumbnail_step(
        s1,
        html_select_first(
            html,
            "#wrapper > section.main-content > div > div.col-md-8 > section > div.thumbnail > img"@,
            "src"@,
        ),
        "thumbnail"@,
        true,
    );
    match html_select_nested_within_first(
        html,
        "#wrapper > section.main-content > div > div.col-md-8 > section > div.description"@,
        "p"@,
        "a"@,
        "span"@,
        "href"@,
    ) {
        Some(Some(lines)) => description_lines(s2, lines),
        _ => s2,
    }
}

fn add_links_line(p: &mut PageInfo, ch: &Vec<Element>, key: &str, kind: LinkKind) -> (ok: bool)
    ensures
        ok ==> links_line(old(p)@, crate::dom::elements_view(*ch), key@, kind) == Some(final(p)@),
        !ok ==> links_line(old(p)@, crate::dom::elements_view(*ch), key@, kind) is None,
{
    match links_of_exec(ch) {
        Some(l) => {
            record_links(p, key, l, kind);
            true
        },
        None => false,
    }
}

fn other_names_exec(t: &Vec<char>) -> (r: Vec<String>)
    ensures
        crate::db::strings_view(r) == other_names(t@),
{
    proof {
        reveal_strlit(":");
        reveal_strlit(",");
    }
    let colon = chars_of(":");
    let pieces = split(t, &colon);
    let mut rest: Vec<Vec<char>> = Vec::new();
    let mut i: usize = 1;
    assert(views(rest@) =~= views(pieces@).subrange(1, 1));
    while i < pieces.len()
        invariant
            1 <= i <= pieces@.len(),
            rest@.len() == i - 1,
            views(rest@) == views(pieces@).subrange(1, i as int),
        decreases pieces@.len() - i,
    {
        let x = pieces[i].clone();
        let ghost r0 = rest@;
        rest.push(x);
        assert(rest@ == r0.push(x));
        assert(views(rest@) =~= views(pieces@).subrange(1, i + 1));
        i += 1;
    }
    assert(views(pieces@).subrange(1, pieces@.len() as int) =~= views(pieces@).skip(1));
    trimmed_pieces_exec(&join(&rest, &colon), &chars_of(","))
}

/// What one paragraph of the description adds; `false` when one of its
/// links has no address.
pub fn add_description_line(p: &mut PageInfo, line: &(Element, Vec<Element>, Vec<Element>)) -> (ok:
    bool)
    ensures
        ok ==> description_line_step(Some(old(p)@), child_view(*line)) == Some(final(p)@),
        !ok ==> description_line_step(Some(old(p)@), child_view(*line)) is None,
{
    let t = trim(&chars_of(line.0.text.as_str()));
    if starts_with(&t, &lit("Tên khác:")) {
        let n = other_names_exec(&t);
        let f = UpdateComicDocField::AnotherName(clone_strings(&n));
        p.record("anotherName", InfoValue::Names(n), f);
        true
    } else if starts_with(&t, &lit("Tác giả:")) {
        add_links_line(p, &line.1, "author", LinkKind::Author)
    } else if starts_with(&t, &lit("Nguồn:")) {
        add_links_line(p, &line.1, "source", LinkKind::Source)
    } else if starts_with(&t, &lit("Nhóm dịch:")) {
        add_links_line(p, &line.1, "translatorTeam", LinkKind::TranslatorTeam)
    } else if starts_with(&t, &lit("Đăng bởi:")) {
        if !add_links_line(p, &line.1, "postedBy", LinkKind::PostedBy) {
            return false;
        }
        if line.2.len() > 0 {
            let st = string_of(&trim(&chars_of(line.2[0].text.as_str())));
            let f = UpdateComicDocField::Status(st.clone());
            p.record("status", InfoValue::Text(st), f);
        }
        true
    } else if starts_with(&t, &lit("Thể loại:")) {
        add_links_line(p, &line.1, "genre", LinkKind::Genre)
    } else {
        true
    }
}

fn blog_page(html: &str) -> (r: Option<PageInfo>)
    ensures
        match r {
            Some(p) => blog_page_spec(html@) == Some(p@),
            None => blog_page_spec(html@) is None,
        },
{
    let mut p = PageInfo::new(false);
    add_content(
        &mut p,
        select_first(
            html,
            "#wrapper > section.main-content > div > div.col-md-8 > section > div.detail > div.content",
            "",
        ),
        "content",
    );
    let q = select_nested_within_first(
        html,
        "#wrapper > section.main-content > div > div.col-md-8 > section > div.description",
        "p",
        "a",
        "span",
        "href",
    );
    if !add_thumbnail(
        &mut p,
        select_first(
            html,
            "#wrapper > section.main-content > div > div.col-md-8 > section > div.thumbnail > img",
            "src",
        ),
        "thumbnail",
        true,
    ) {
        proof {
            if let Some(Some(lines)) = nested_view(q) {
                lemma_description_lines_none(lines);
            }
        }
        return None;
    }
    let ghost s2 = Some(p@);
    if let Some(Some(lines)) = q {
        let ghost lv = match nested_view(q) {
            Some(Some(l)) => l,
            _ => Seq::empty(),
        };
        assert(lv.len() == lines@.len());
        assert(forall|k: int| 0 <= k < lv.len() ==> #[trigger] lv[k] == child_view(lines@[k]));
        assert(blog_page_spec(html@) == description_lines(s2, lv));
        let mut i: usize = 0;
        assert(lv.take(0) =~= Seq::<(ElementView, Seq<ElementView>, Seq<ElementView>)>::empty());
        while i < lines.len()
            invariant
                i <= lines@.len(),
                lv.len() == lines@.len(),
                blog_page_spec(html@) == description_lines(s2, lv),
                forall|k: int| 0 <= k < lv.len() ==> #[trigger] lv[k] == child_view(lines@[k]),
                Some(p@) == description_lines(s2, lv.take(i as int)),
            decreases lines@.len() - i,
        {
            assert(lv.take(i + 1).drop_last() =~= lv.take(i as int));
            assert(lv[i as int] == child_view(lines@[i as int]));
            if !add_description_line(&mut p, &lines[i]) {
                proof {
                    assert(lv.take(i + 1).last() == lv[i as int]);
                    lemma_lines_none_after(s2, lv, i + 1);
                }
                return None;
            }
            i += 1;
        }
        assert(lv.take(lines@.len() as int) =~= lv);
    }
    Some(p)
}

proof fn lemma_lines_none_after(
    s: Option<PageView>,
    lv: Seq<(ElementView, Seq<ElementView>, Seq<ElementView>)>,
    k: int,
)
    requires
        0 <= k <= lv.len(),
        description_lines(s, lv.take(k)) is None,
    ensures
        description_lines(s, lv) is None,
    decreases lv.len() - k,
{
    if k < lv.len() {
        assert(lv.take(k + 1).drop_last() =~= lv.take(k));
        lemma_lines_none_after(s, lv, k + 1);
    } else {
        assert(lv.take(k) =~= lv);
    }
}

/// The comic information of a comic page: the information map, as its
/// insertions in order, and the comic field updates (content, thumbnail,
/// then what each paragraph of the description says).
pub fn parse_blog_truyen_moi_html_page(html: &str) -> (r: (Vec<(String, InfoValue)>, Vec<UpdateComicDocField>))
    requires
        blog_page_spec(html@) is Some,
    ensures
        blog_page_spec(html@) == Some(PageView { info: info_view(r.0), fields: fields_view(r.1) }),
{
    match blog_page(html) {
        Some(p) => (p.info, p.fields),
        None => (Vec::new(), Vec::new()),
    }
}

/// `parse_blog_truyen_moi_html_page` where the page can be read: `None`
/// when its cover image or one of the description's links has no address.
pub fn try_parse_blog_truyen_moi_html_page(html: &str) -> (r: Option<
    (Vec<(String, InfoValue)>, Vec<UpdateComicDocField>),
>)
    ensures
        r is None <==> blog_page_spec(html@) is None,
        r matches Some(x) ==> blog_page_spec(html@) == Some(
            PageView { info: info_view(x.0), fields: fields_view(x.1) },
        ),
{
    if blog_page(html).is_some() {
        Some(parse_blog_truyen_moi_html_page(html))
    } else {
        None
    }
}


/// The update that a chapter page calls for: its images, the sources (of
/// `src` attributes) that start with "http".
pub open spec fn chapter_page_updates_spec(html: Seq<char>) -> Seq<ChapterFieldView> {
    images_update(page_images(html, "src=\"([^\"]+)"@, true))
}

/// The update that a chapter page calls for: its images.
pub fn chapter_page_updates(html: &str) -> (r: Vec<ChapterUpdateField>)
    ensures
        chapter_fields_view(r) == chapter_page_updates_spec(html@),
{
    images_update_exec(page_images_exec(html, "src=\"([^\"]+)", true))
}


/// On a chapter page, the images are the `src="..."` values that start with
/// "http": each image is one of them and each of them is an image.
pub proof fn law_blog_chapter_images(html: Seq<char>)
    ensures
        match regex_captures_all("src=\"([^\"]+)"@, html) {
            None => chapter_page_updates_spec(html) == seq![ChapterFieldView::Images(Seq::empty())],
            Some(ms) => {
                let v = chapter_page_updates_spec(html);
                &&& v.len() == 1
                &&& v[0] matches ChapterFieldView::Images(l)
                &&& forall|i: int| 0 <= i < l.len() ==> #[trigger] has_source(ms, 1, true, l[i])
                &&& forall|j: int, t: Seq<char>|
                    0 <= j < ms.len() && #[trigger] image_source(ms[j], 1, true, t) ==> l.contains(t)
            },
        },
{
    match regex_captures_all("src=\"([^\"]+)"@, html) {
        None => {
            assert(matched_groups(Seq::<Seq<Option<Seq<char>>>>::empty(), 1, true) =~= Seq::<Seq<char>>::empty());
        },
        Some(ms) => {
            lemma_matched_groups_sources(ms, 1, true);
        },
    }
}


/// Whether the comic field `f` is what the description paragraph `line`
/// (its element, its links, its `span`s) says, by the label its trimmed
/// text starts with.
pub open spec fn blog_line_says(line: (ElementView, Seq<ElementView>, Seq<ElementView>), f: ComicFieldView) -> bool {
    let t = trim_spec(line.0.text);
    ||| "Tên khác:"@.is_prefix_of(t) && f == ComicFieldView::AnotherName(other_names(t))
    ||| "Tác giả:"@.is_prefix_of(t) && (links_of(line.1) matches Some(l) && f == ComicFieldView::Author(l))
    ||| "Nguồn:"@.is_prefix_of(t) && (links_of(line.1) matches Some(l) && f == ComicFieldView::Source(l))
    ||| "Nhóm dịch:"@.is_prefix_of(t) && (links_of(line.1) matches Some(l) && f
        == ComicFieldView::TranslatorTeam(l))
    ||| "Đăng bởi:"@.is_prefix_of(t) && (links_of(line.1) matches Some(l) && f
        == ComicFieldView::PostedBy(l))
    ||| "Đăng bởi:"@.is_prefix_of(t) && line.2.len() > 0 && f == ComicFieldView::Status(
        trim_spec(line.2[0].text),
    )
    ||| "Thể loại:"@.is_prefix_of(t) && (links_of(line.1) matches Some(l) && f == ComicFieldView::Genre(l))
}

/// Whether the comic field `f` of the comic page `html` comes from where it
/// should: the content from the detail block, the cover from the thumbnail
/// image's `src`, the other fields from one paragraph of the description.
pub open spec fn blog_field_from(html: Seq<char>, f: ComicFieldView) -> bool {
    match f {
        ComicFieldView::Content(x) => html_select_first(
            html,
            "#wrapper > section.main-content > div > div.col-md-8 > section > div.detail > div.content"@,
            ""@,
        ) matches Some(Some(e)) && x == Some(trim_spec(e.inner_html)),
        ComicFieldView::ThumbnailUrl(x) => html_select_first(
            html,
            "#wrapper > section.main-content > div > div.col-md-8 > section > div.thumbnail > img"@,
            "src"@,
        ) matches Some(Some(e)) && e.attr matches Some(a) && x == Some(trim_spec(a)),
        _ => html_select_nested_within_first(
            html,
            "#wrapper > section.main-content > div > div.col-md-8 > section > div.description"@,
            "p"@,
            "a"@,
            "span"@,
            "href"@,
        ) matches Some(Some(lines)) && exists|j: int|
            0 <= j < lines.len() && #[trigger] blog_line_says(lines[j], f),
    }
}

pub open spec fn blog_fields_from(html: Seq<char>, fs: Seq<ComicFieldView>) -> bool {
    forall|k: int| 0 <= k < fs.len() ==> #[trigger] blog_field_from(html, fs[k])
}

proof fn lemma_blog_fields_push(html: Seq<char>, fs: Seq<ComicFieldView>, f: ComicFieldView)
    requires
        blog_fields_from(html, fs),
        blog_field_from(html, f),
    ensures
        blog_fields_from(html, fs.push(f)),
{
    assert forall|k: int| 0 <= k < fs.push(f).len() implies #[trigger] blog_field_from(html, fs.push(f)[k]) by {
        if k < fs.len() {
            assert(fs.push(f)[k] == fs[k]);
        }
    }
}

proof fn lemma_blog_field_from_line(
    html: Seq<char>,
    lines: Seq<(ElementView, Seq<ElementView>, Seq<ElementView>)>,
    j: int,
    f: ComicFieldView,
)
    requires
        html_select_nested_within_first(
            html,
            "#wrapper > section.main-content > div > div.col-md-8 > section > div.description"@,
            "p"@,
            "a"@,
            "span"@,
            "href"@,
        ) == Some(Some(lines)),
        0 <= j < lines.len(),
        blog_line_says(lines[j], f),
    ensures
        blog_field_from(html, f),
{
    let sel = html_select_nested_within_first(
        html,
        "#wrapper > section.main-content > div > div.col-md-8 > section > div.description"@,
        "p"@,
        "a"@,
        "span"@,
        "href"@,
    );
    assert(sel->0->0 == lines);
    assert(blog_line_says(sel->0->0[j], f));
    assert(!(f is Content) && !(f is ThumbnailUrl));
}

proof fn lemma_blog_line_step(
    html: Seq<char>,
    lines: Seq<(ElementView, Seq<ElementView>, Seq<ElementView>)>,
    j: int,
    p: PageView,
)
    requires
        html_select_nested_within_first(
            html,
            "#wrapper > section.main-content > div > div.col-md-8 > section > div.description"@,
            "p"@,
            "a"@,
            "span"@,
            "href"@,
        ) == Some(Some(lines)),
        0 <= j < lines.len(),
        blog_fields_from(html, p.fields),
    ensures
        description_line_step(Some(p), lines[j]) matches Some(q) ==> blog_fields_from(html, q.fields),
{
    let line = lines[j];
    let t = trim_spec(line.0.text);
    if let Some(q) = description_line_step(Some(p), line) {
        if q.fields.len() > p.fields.len() {
            if "Đăng bởi:"@.is_prefix_of(t) && !"Tên khác:"@.is_prefix_of(t) && !"Tác giả:"@.is_prefix_of(t)
                && !"Nguồn:"@.is_prefix_of(t) && !"Nhóm dịch:"@.is_prefix_of(t) {
                let l = links_of(line.1)->0;
                let f1 = ComicFieldView::PostedBy(l);
                assert(blog_line_says(lines[j], f1));
                lemma_blog_field_from_line(html, lines, j, f1);
                lemma_blog_fields_push(html, p.fields, f1);
                if line.2.len() > 0 {
                    let f2 = ComicFieldView::Status(trim_spec(line.2[0].text));
                    assert(blog_line_says(lines[j], f2));
                    lemma_blog_field_from_line(html, lines, j, f2);
                    lemma_blog_fields_push(html, p.fields.push(f1), f2);
                    assert(q.fields == p.fields.push(f1).push(f2));
                } else {
                    assert(q.fields == p.fields.push(f1));
                }
            } else {
                let f = q.fields.last();
                assert(q.fields == p.fields.push(f));
                assert(blog_line_says(lines[j], f));
                lemma_blog_field_from_line(html, lines, j, f);
                lemma_blog_fields_push(html, p.fields, f);
            }
        } else {
            assert(q.fields == p.fields);
        }
    }
}

proof fn lemma_blog_lines(
    html: Seq<char>,
    lines: Seq<(ElementView, Seq<ElementView>, Seq<ElementView>)>,
    m: int,
    o: Option<PageView>,
)
    requires
        html_select_nested_within_first(
            html,
            "#wrapper > section.main-content > div > div.col-md-8 > section > div.description"@,
            "p"@,
            "a"@,
            "span"@,
            "href"@,
        ) == Some(Some(lines)),
        0 <= m <= lines.len(),
        o matches Some(p) ==> blog_fields_from(html, p.fields),
    ensures
        description_lines(o, lines.take(m)) matches Some(q) ==> blog_fields_from(html, q.fields),
    decreases m,
{
    if m > 0 {
        lemma_blog_lines(html, lines, m - 1, o);
        assert(lines.take(m).drop_last() =~= lines.take(m - 1));
        assert(lines.take(m).last() == lines[m - 1]);
        if let Some(q) = description_lines(o, lines.take(m - 1)) {
            lemma_blog_line_step(html, lines, m - 1, q);
        }
    } else {
        assert(lines.take(0) =~= Seq::<(ElementView, Seq<ElementView>, Seq<ElementView>)>::empty());
    }
}

/// On a blogtruyenmoi comic page, the content is the trimmed inner HTML of
/// the detail block, the cover the trimmed `src` of the thumbnail image, and
/// every other comic field is what one paragraph of the description says
/// after its label (other names, authors, source, translators, poster and
/// status, genres).
pub proof fn law_blog_page_sources(html: Seq<char>)
    ensures
        blog_page_spec(html) matches Some(p) ==> forall|k: int|
            0 <= k < p.fields.len() ==> #[trigger] blog_field_from(html, p.fields[k]),
{
    let f0 = Seq::<ComicFieldView>::empty();
    assert(blog_fields_from(html, f0));
    let s0 = Some(PageView { info: Seq::empty(), fields: f0 });
    let s1 = content_step(
        s0,
        html_select_first(
            html,
            "#wrapper > section.main-content > div > div.col-md-8 > section > div.detail > div.content"@,
            ""@,
        ),
        "content"@,
    );
    let s2 = thumbnail_step(
        s1,
        html_select_first(
            html,
            "#wrapper > section.main-content > div > div.col-md-8 > section > div.thumbnail > img"@,
            "src"@,
        ),
        "thumbnail"@,
        true,
    );
    if let Some(p1) = s1 {
        if p1.fields.len() > 0 {
            lemma_blog_fields_push(html, f0, p1.fields.last());
            assert(p1.fields == f0.push(p1.fields.last()));
        }
        assert(blog_fields_from(html, p1.fields));
        if let Some(p2) = s2 {
            if p2.fields.len() > p1.fields.len() {
                lemma_blog_fields_push(html, p1.fields, p2.fields.last());
                assert(p2.fields == p1.fields.push(p2.fields.last()));
            }
            assert(blog_fields_from(html, p2.fields));
        }
    }
    if let Some(Some(lines)) = html_select_nested_within_first(
        html,
        "#wrapper > section.main-content > div > div.col-md-8 > section > div.description"@,
        "p"@,
        "a"@,
        "span"@,
        "href"@,
    ) {
        lemma_blog_lines(html, lines, lines.len() as int, s2);
        assert(lines.take(lines.len() as int) =~= lines);
        assert(blog_page_spec(html) == description_lines(s2, lines));
    } else {
        assert(blog_page_spec(html) == s2);
    }
}

} // verus!
