//! Assembling what a comic page says about its comic.
use vstd::prelude::*;

use crate::db::{clone_links, clone_strings, links_view, strings_view, ComicFieldView, UpdateComicDocField};
use crate::dom::{
    first_view, html_select_first, html_select_within_first, select_first, select_within_first,
    within_view, Element, ElementView,
};
use crate::text::{chars_of, split, split_spec, string_of, trim, trim_spec, views};

verus! {

/// A value of the comic information map.
pub enum InfoValueView {
    Text(Seq<char>),
    Names(Seq<Seq<char>>),
    Links(Seq<(Seq<char>, Seq<char>)>),
}

/// A value of the comic information map: a text, a list of names, or
/// (name, address) pairs inserted in order into a JSON object.
#[derive(Debug)]
pub enum InfoValue {
    Text(String),
    Names(Vec<String>),
    Links(Vec<(String, String)>),
}

impl View for InfoValue {
    type V = InfoValueView;

    open spec fn view(&self) -> InfoValueView {
        match self {
            InfoValue::Text(s) => InfoValueView::Text(s@),
            InfoValue::Names(v) => InfoValueView::Names(strings_view(*v)),
            InfoValue::Links(v) => InfoValueView::Links(links_view(*v)),
        }
    }
}

/// What a comic page says, so far: the information map, as its insertions
/// in order, and the comic field updates, in order.
pub struct PageView {
    pub info: Seq<(Seq<char>, InfoValueView)>,
    pub fields: Seq<ComicFieldView>,
}

/// The information map of a comic page, as its insertions in order, and the
/// comic field updates it calls for.
pub struct PageInfo {
    pub info: Vec<(String, InfoValue)>,
    pub fields: Vec<UpdateComicDocField>,
}

pub open spec fn info_view(v: Vec<(String, InfoValue)>) -> Seq<(Seq<char>, InfoValueView)> {
    v@.map_values(|e: (String, InfoValue)| (e.0@, e.1@))
}

pub open spec fn fields_view(v: Vec<UpdateComicDocField>) -> Seq<ComicFieldView> {
    v@.map_values(|f: UpdateComicDocField| f@)
}

impl View for PageInfo {
    type V = PageView;

    open spec fn view(&self) -> PageView {
        PageView { info: info_view(self.info), fields: fields_view(self.fields) }
    }
}

/// `p` with one more insertion into the map and one more field update.
pub open spec fn recorded(
    p: PageView,
    key: Seq<char>,
    v: InfoValueView,
    f: ComicFieldView,
) -> PageView {
    PageView { info: p.info.push((key, v)), fields: p.fields.push(f) }
}

/// Which comic field a list of (name, address) pairs sets.
#[derive(Clone, Copy, PartialEq, Eq, Structural, Debug)]
pub enum LinkKind {
    Author,
    Source,
    TranslatorTeam,
    PostedBy,
    Genre,
}

pub open spec fn link_field(kind: LinkKind, l: Seq<(Seq<char>, Seq<char>)>) -> ComicFieldView {
    match kind {
        LinkKind::Author => ComicFieldView::Author(l),
        LinkKind::Source => ComicFieldView::Source(l),
        LinkKind::TranslatorTeam => ComicFieldView::TranslatorTeam(l),
        LinkKind::PostedBy => ComicFieldView::PostedBy(l),
        LinkKind::Genre => ComicFieldView::Genre(l),
    }
}

/// The (text, address) pairs of links; `None` when one of them has no
/// address.
pub open spec fn links_of(ch: Seq<ElementView>) -> Option<Seq<(Seq<char>, Seq<char>)>> {
    if forall|k: int| 0 <= k < ch.len() ==> (#[trigger] ch[k]).attr is Some {
        Some(ch.map_values(|e: ElementView| (e.text, e.attr->0)))
    } else {
        None
    }
}

/// The pieces of `s` between separators, each trimmed.
pub open spec fn trimmed_pieces(s: Seq<char>, sep: Seq<char>) -> Seq<Seq<char>> {
    split_spec(s, sep).map_values(|x: Seq<char>| trim_spec(x))
}

/// Names without addresses.
pub open spec fn unlinked(names: Seq<Seq<char>>) -> Seq<(Seq<char>, Seq<char>)> {
    names.map_values(|x: Seq<char>| (x, Seq::<char>::empty()))
}

/// The trimmed inner HTML of the first match becomes the content.
pub open spec fn content_step(
    o: Option<PageView>,
    q: Option<Option<ElementView>>,
    key: Seq<char>,
) -> Option<PageView> {
    match o {
        None => None,
        Some(p) => match q {
            Some(Some(e)) => {
                let c = trim_spec(e.inner_html);
                Some(recorded(p, key, InfoValueView::Text(c), ComicFieldView::Content(Some(c))))
            },
            _ => Some(p),
        },
    }
}

/// The image address of the first match (trimmed or not) becomes the
/// thumbnail; `None` when the match has no image address.
pub open spec fn thumbnail_step(
    o: Option<PageView>,
    q: Option<Option<ElementView>>,
    key: Seq<char>,
    trimmed: bool,
) -> Option<PageView> {
    match o {
        None => None,
        Some(p) => match q {
            Some(Some(e)) => match e.attr {
                Some(a) => {
                    let t = if trimmed {
                        trim_spec(a)
                    } else {
                        a
                    };
                    Some(
                        recorded(
                            p,
                            key,
                            InfoValueView::Text(t),
                            ComicFieldView::ThumbnailUrl(Some(t)),
                        ),
                    )
                },
                None => None,
            },
            _ => Some(p),
        },
    }
}

/// The `;`-separated text of the first match becomes the other names.
pub open spec fn names_step(
    o: Option<PageView>,
    q: Option<Option<ElementView>>,
    key: Seq<char>,
) -> Option<PageView> {
    match o {
        None => None,
        Some(p) => match q {
            Some(Some(e)) => {
                let n = trimmed_pieces(trim_spec(e.text), ";"@);
                Some(recorded(p, key, InfoValueView::Names(n), ComicFieldView::AnotherName(n)))
            },
            _ => Some(p),
        },
    }
}

/// The links inside the first match become the field `kind`; `None` when a
/// link has no address.
pub open spec fn links_step(
    o: Option<PageView>,
    q: Option<Option<(ElementView, Seq<ElementView>)>>,
    key: Seq<char>,
    kind: LinkKind,
) -> Option<PageView> {
    match o {
        None => None,
        Some(p) => match q {
            Some(Some((_, ch))) => match links_of(ch) {
                Some(l) => Some(recorded(p, key, InfoValueView::Links(l), link_field(kind, l))),
                None => None,
            },
            _ => Some(p),
        },
    }
}

/// The authors of the first match: its links, or, when it has none, the
/// `;`-separated names of its text without addresses.
pub open spec fn author_step(
    o: Option<PageView>,
    q: Option<Option<(ElementView, Seq<ElementView>)>>,
    key: Seq<char>,
) -> Option<PageView> {
    match o {
        None => None,
        Some(p) => match q {
            Some(Some((e, ch))) => if ch.len() > 0 {
                links_step(o, q, key, LinkKind::Author)
            } else {
                let l = unlinked(split_spec(trim_spec(e.text), ";"@));
                Some(recorded(p, key, InfoValueView::Links(l), ComicFieldView::Author(l)))
            },
            _ => Some(p),
        },
    }
}

impl PageInfo {
    /// Nothing recorded yet, with the "information fetched" flag set or not.
    pub fn new(fetch_flag: bool) -> (r: PageInfo)
        ensures
            r@.info == Seq::<(Seq<char>, InfoValueView)>::empty(),
            r@.fields == if fetch_flag {
                seq![ComicFieldView::PythonFetchInfo(true)]
            } else {
                Seq::<ComicFieldView>::empty()
            },
    {
        let mut fields: Vec<UpdateComicDocField> = Vec::new();
        if fetch_flag {
            fields.push(UpdateComicDocField::PythonFetchInfo(true));
        }
        let r = PageInfo { info: Vec::new(), fields };
        assert(r@.info =~= Seq::<(Seq<char>, InfoValueView)>::empty());
        if fetch_flag {
            assert(r@.fields =~= seq![ComicFieldView::PythonFetchInfo(true)]);
        } else {
            assert(r@.fields =~= Seq::<ComicFieldView>::empty());
        }
        r
    }

    /// Records one insertion into the map and one field update.
    pub fn record(&mut self, key: &str, v: InfoValue, f: UpdateComicDocField)
        ensures
            final(self)@ == recorded(old(self)@, key@, v@, f@),
    {
        let ghost p0 = self@;
        let ghost v0 = v@;
        let ghost f0 = f@;
        let ghost i0 = self.info@;
        let ghost fs0 = self.fields@;
        let k = string_of(&chars_of(key));
        self.info.push((k, v));
        self.fields.push(f);
        assert(self.info@ == i0.push((k, v)));
        assert(info_view(self.info) =~= p0.info.push((key@, v0)));
        assert(self.fields@ == fs0.push(f));
        assert(fields_view(self.fields) =~= p0.fields.push(f0));
    }
}

fn clone_text(s: &String) -> (r: String)
    ensures
        r@ == s@,
{
    s.clone()
}

pub(crate) fn to_strings(v: &Vec<Vec<char>>) -> (r: Vec<String>)
    ensures
        strings_view(r) == views(v@),
{
    let mut r: Vec<String> = Vec::new();
    let mut i: usize = 0;
    while i < v.len()
        invariant
            i <= v@.len(),
            r@.len() == i,
            strings_view(r) == views(v@).take(i as int),
        decreases v@.len() - i,
    {
        let x = string_of(&v[i]);
        let ghost r0 = r@;
        r.push(x);
        assert(r@ == r0.push(x));
        assert(strings_view(r) =~= views(v@).take(i + 1));
        i += 1;
    }
    assert(views(v@).take(v@.len() as int) =~= views(v@));
    r
}

/// The pieces of `s` between separators, each trimmed.
pub fn trimmed_pieces_exec(s: &Vec<char>, sep: &Vec<char>) -> (r: Vec<String>)
    requires
        sep@.len() > 0,
    ensures
        strings_view(r) == trimmed_pieces(s@, sep@),
{
    let pieces = split(s, sep);
    let mut r: Vec<Vec<char>> = Vec::new();
    let mut i: usize = 0;
    while i < pieces.len()
        invariant
            i <= pieces@.len(),
            r@.len() == i,
            views(pieces@) == split_spec(s@, sep@),
            views(r@) == trimmed_pieces(s@, sep@).take(i as int),
        decreases pieces@.len() - i,
    {
        let x = trim(&pieces[i]);
        let ghost r0 = r@;
        r.push(x);
        assert(r@ == r0.push(x));
        assert(views(r@) =~= trimmed_pieces(s@, sep@).take(i + 1));
        i += 1;
    }
    assert(trimmed_pieces(s@, sep@).take(pieces@.len() as int) =~= trimmed_pieces(s@, sep@));
    to_strings(&r)
}

/// The (text, address) pairs of links; `None` when one has no address.
pub fn links_of_exec(ch: &Vec<Element>) -> (r: Option<Vec<(String, String)>>)
    ensures
        match r {
            Some(l) => links_of(crate::dom::elements_view(*ch)) == Some(links_view(l)),
            None => links_of(crate::dom::elements_view(*ch)) is None,
        },
{
    let ghost chv = crate::dom::elements_view(*ch);
    let mut r: Vec<(String, String)> = Vec::new();
    let mut i: usize = 0;
    while i < ch.len()
        invariant
            i <= ch@.len(),
            r@.len() == i,
            chv == crate::dom::elements_view(*ch),
            forall|k: int| 0 <= k < i ==> (#[trigger] chv[k]).attr is Some,
            links_view(r) == chv.take(i as int).map_values(
                |e: ElementView| (e.text, e.attr->0),
            ),
        decreases ch@.len() - i,
    {
        match &ch[i].attr {
            Some(a) => {
                let x = (clone_text(&ch[i].text), clone_text(a));
                assert(chv[i as int] == ch@[i as int]@);
                assert(chv[i as int].attr == Some(a@));
                let ghost r0 = r@;
                let ghost l0 = links_view(r);
                assert forall|k: int| 0 <= k < i implies #[trigger] l0[k] == (
                    chv[k].text,
                    chv[k].attr->0,
                ) by {
                    assert(chv.take(i as int)[k] == chv[k]);
                }
                r.push(x);
                assert(r@ == r0.push(x));
                let ghost l1 = links_view(r);
                assert(l1.len() == i + 1);
                assert(l1[i as int] == (chv[i as int].text, chv[i as int].attr->0));
                assert(forall|k: int| 0 <= k < i ==> l1[k] == l0[k]);
                assert(links_view(r) =~= chv.take(i + 1).map_values(
                    |e: ElementView| (e.text, e.attr->0),
                ));
            },
            None => {
                assert(chv[i as int] == ch@[i as int]@);
                assert(!(chv[i as int].attr is Some));
                return None;
            },
        }
        i += 1;
    }
    assert(chv.take(ch@.len() as int) =~= chv);
    Some(r)
}


/// The field update of kind `kind` with the pairs `l`.
pub fn make_link_field(kind: LinkKind, l: Vec<(String, String)>) -> (r: UpdateComicDocField)
    ensures
        r@ == link_field(kind, links_view(l)),
{
    match kind {
        LinkKind::Author => UpdateComicDocField::Author(l),
        LinkKind::Source => UpdateComicDocField::Source(l),
        LinkKind::TranslatorTeam => UpdateComicDocField::TranslatorTeam(l),
        LinkKind::PostedBy => UpdateComicDocField::PostedBy(l),
        LinkKind::Genre => UpdateComicDocField::Genre(l),
    }
}

/// Records a text both as an information value and as the field update `f`
/// built from it.
pub(crate) fn record_text(p: &mut PageInfo, key: &str, t: &Vec<char>, content: bool)
    ensures
        final(p)@ == recorded(
            old(p)@,
            key@,
            InfoValueView::Text(t@),
            if content {
                ComicFieldView::Content(Some(t@))
            } else {
                ComicFieldView::ThumbnailUrl(Some(t@))
            },
        ),
{
    let f = if content {
        UpdateComicDocField::Content(Some(string_of(t)))
    } else {
        UpdateComicDocField::ThumbnailUrl(Some(string_of(t)))
    };
    p.record(key, InfoValue::Text(string_of(t)), f);
}

/// The content step.
pub fn add_content(p: &mut PageInfo, q: Option<Option<Element>>, key: &str)
    ensures
        Some(final(p)@) == content_step(Some(old(p)@), first_view(q), key@),
{
    if let Some(Some(e)) = q {
        let c = trim(&chars_of(e.inner_html.as_str()));
        record_text(p, key, &c, true);
    }
}

/// The thumbnail step; `false` when the match has no image address.
pub fn add_thumbnail(p: &mut PageInfo, q: Option<Option<Element>>, key: &str, trimmed: bool) -> (ok:
    bool)
    ensures
        ok ==> Some(final(p)@) == thumbnail_step(Some(old(p)@), first_view(q), key@, trimmed),
        !ok ==> thumbnail_step(Some(old(p)@), first_view(q), key@, trimmed) is None,
{
    if let Some(Some(e)) = q {
        match &e.attr {
            Some(a) => {
                let t = if trimmed {
                    trim(&chars_of(a.as_str()))
                } else {
                    chars_of(a.as_str())
                };
                record_text(p, key, &t, false);
            },
            None => {
                return false;
            },
        }
    }
    true
}

/// The other-names step.
pub fn add_names(p: &mut PageInfo, q: Option<Option<Element>>, key: &str)
    ensures
        Some(final(p)@) == names_step(Some(old(p)@), first_view(q), key@),
{
    if let Some(Some(e)) = q {
        proof {
            reveal_strlit(";");
        }
        let n = trimmed_pieces_exec(&trim(&chars_of(e.text.as_str())), &chars_of(";"));
        let f = UpdateComicDocField::AnotherName(clone_strings(&n));
        p.record(key, InfoValue::Names(n), f);
    }
}

/// Records pairs both as an information value and as a field update.
pub(crate) fn record_links(p: &mut PageInfo, key: &str, l: Vec<(String, String)>, kind: LinkKind)
    ensures
        final(p)@ == recorded(
            old(p)@,
            key@,
            InfoValueView::Links(links_view(l)),
            link_field(kind, links_view(l)),
        ),
{
    let f = make_link_field(kind, clone_links(&l));
    p.record(key, InfoValue::Links(l), f);
}

/// The links step; `false` when a link has no address.
pub fn add_links(
    p: &mut PageInfo,
    q: Option<Option<(Element, Vec<Element>)>>,
    key: &str,
    kind: LinkKind,
) -> (ok: bool)
    ensures
        ok ==> Some(final(p)@) == links_step(Some(old(p)@), within_view(q), key@, kind),
        !ok ==> links_step(Some(old(p)@), within_view(q), key@, kind) is None,
{
    if let Some(Some((_, ch))) = q {
        match links_of_exec(&ch) {
            Some(l) => record_links(p, key, l, kind),
            None => {
                return false;
            },
        }
    }
    true
}

/// Names without addresses.
pub(crate) fn unlinked_exec(names: &Vec<Vec<char>>) -> (r: Vec<(String, String)>)
    ensures
        links_view(r) == unlinked(views(names@)),
{
    let mut r: Vec<(String, String)> = Vec::new();
    let mut i: usize = 0;
    while i < names.len()
        invariant
            i <= names@.len(),
            r@.len() == i,
            links_view(r) == unlinked(views(names@)).take(i as int),
        decreases names@.len() - i,
    {
        let x = (string_of(&names[i]), String::new());
        let ghost r0 = r@;
        let ghost l0 = links_view(r);
        r.push(x);
        assert(r@ == r0.push(x));
        let ghost l1 = links_view(r);
        assert(forall|k: int| 0 <= k < i ==> l1[k] == l0[k]);
        assert(links_view(r) =~= unlinked(views(names@)).take(i + 1));
        i += 1;
    }
    assert(unlinked(views(names@)).take(names@.len() as int) =~= unlinked(views(names@)));
    r
}

/// The authors step; `false` when a link has no address.
pub fn add_author(p: &mut PageInfo, q: Option<Option<(Element, Vec<Element>)>>, key: &str) -> (ok:
    bool)
    ensures
        ok ==> Some(final(p)@) == author_step(Some(old(p)@), within_view(q), key@),
        !ok ==> author_step(Some(old(p)@), within_view(q), key@) is None,
{
    if let Some(Some((e, ch))) = q {
        if ch.len() > 0 {
            return add_links(p, Some(Some((e, ch))), key, LinkKind::Author);
        } else {
            proof {
                reveal_strlit(";");
            }
            let pieces = split(&trim(&chars_of(e.text.as_str())), &chars_of(";"));
            let l = unlinked_exec(&pieces);
            record_links(p, key, l, LinkKind::Author);
        }
    }
    true
}


/// The comic information of a page laid out with a content block, a cover
/// image, an other-names line, a genre block and an author block, each the
/// first match of its selector.
pub open spec fn standard_page_spec(
    html: Seq<char>,
    content_css: Seq<char>,
    thumb_css: Seq<char>,
    names_css: Seq<char>,
    genre_css: Seq<char>,
    author_css: Seq<char>,
) -> Option<PageView> {
    let s0 = Some(
        PageView {
            info: Seq::empty(),
            fields: seq![ComicFieldView::PythonFetchInfo(true)],
        },
    );
    let s1 = content_step(s0, html_select_first(html, content_css, ""@), "content"@);
    let s2 = thumbnail_step(s1, html_select_first(html, thumb_css, "src"@), "thumbnail"@, true);
    let s3 = names_step(s2, html_select_first(html, names_css, ""@), "another_name"@);
    let s4 = links_step(
        s3,
        html_select_within_first(html, genre_css, "a"@, "href"@),
        "genre"@,
        LinkKind::Genre,
    );
    author_step(s4, html_select_within_first(html, author_css, "a"@, "href"@), "author"@)
}

/// The comic information of a standard page; `None` where an image or a
/// link lacks its address.
pub fn standard_page(
    html: &str,
    content_css: &str,
    thumb_css: &str,
    names_css: &str,
    genre_css: &str,
    author_css: &str,
) -> (r: Option<PageInfo>)
    ensures
        match r {
            Some(p) => standard_page_spec(
                html@,
                content_css@,
                thumb_css@,
                names_css@,
                genre_css@,
                author_css@,
            ) == Some(p@),
            None => standard_page_spec(
                html@,
                content_css@,
                thumb_css@,
                names_css@,
                genre_css@,
                author_css@,
            ) is None,
        },
{
    let mut p = PageInfo::new(true);
    add_content(&mut p, select_first(html, content_css, ""), "content");
    if !add_thumbnail(&mut p, select_first(html, thumb_css, "src"), "thumbnail", true) {
        return None;
    }
    add_names(&mut p, select_first(html, names_css, ""), "another_name");
    if !add_links(
        &mut p,
        select_within_first(html, genre_css, "a", "href"),
        "genre",
        LinkKind::Genre,
    ) {
        return None;
    }
    if !add_author(&mut p, select_within_first(html, author_css, "a", "href"), "author") {
        return None;
    }
    Some(p)
}


/// Whether the comic field `f` of a page read with the given selectors
/// (content, cover, other names, genres, authors) comes from the element
/// its selector picks: the content from the first content match's inner
/// HTML, the cover from the first cover match's `src`, the other names from
/// the first names match's text, the genres from the links of the first
/// genre match, the authors from the links (or else the text) of the first
/// author match.
pub open spec fn field_from_selectors(
    html: Seq<char>,
    css: (Seq<char>, Seq<char>, Seq<char>, Seq<char>, Seq<char>),
    f: ComicFieldView,
) -> bool {
    match f {
        ComicFieldView::PythonFetchInfo(b) => b,
        ComicFieldView::Content(x) => html_select_first(html, css.0, ""@) matches Some(Some(e))
            && x == Some(trim_spec(e.inner_html)),
        ComicFieldView::ThumbnailUrl(x) => html_select_first(html, css.1, "src"@) matches Some(
            Some(e),
        ) && e.attr matches Some(a) && x == Some(trim_spec(a)),
        ComicFieldView::AnotherName(n) => html_select_first(html, css.2, ""@) matches Some(
            Some(e),
        ) && n == trimmed_pieces(trim_spec(e.text), ";"@),
        ComicFieldView::Genre(l) => html_select_within_first(html, css.3, "a"@, "href"@) matches Some(
            Some(g),
        ) && links_of(g.1) == Some(l),
        ComicFieldView::Author(l) => html_select_within_first(html, css.4, "a"@, "href"@) matches Some(
            Some(g),
        ) && if g.1.len() > 0 {
            links_of(g.1) == Some(l)
        } else {
            l == unlinked(split_spec(trim_spec(g.0.text), ";"@))
        },
        _ => false,
    }
}

pub open spec fn fields_from_selectors(
    html: Seq<char>,
    css: (Seq<char>, Seq<char>, Seq<char>, Seq<char>, Seq<char>),
    fs: Seq<ComicFieldView>,
) -> bool {
    forall|k: int| 0 <= k < fs.len() ==> #[trigger] field_from_selectors(html, css, fs[k])
}

proof fn lemma_fields_push(
    html: Seq<char>,
    css: (Seq<char>, Seq<char>, Seq<char>, Seq<char>, Seq<char>),
    fs: Seq<ComicFieldView>,
    f: ComicFieldView,
)
    requires
        fields_from_selectors(html, css, fs),
        field_from_selectors(html, css, f),
    ensures
        fields_from_selectors(html, css, fs.push(f)),
{
    assert forall|k: int| 0 <= k < fs.push(f).len() implies #[trigger] field_from_selectors(
        html,
        css,
        fs.push(f)[k],
    ) by {
        if k < fs.len() {
            assert(fs.push(f)[k] == fs[k]);
        }
    }
}

/// Every comic field of a standard page comes from the element that its
/// own selector picks.
pub proof fn lemma_standard_page_sources(
    html: Seq<char>,
    content_css: Seq<char>,
    thumb_css: Seq<char>,
    names_css: Seq<char>,
    genre_css: Seq<char>,
    author_css: Seq<char>,
)
    ensures
        standard_page_spec(html, content_css, thumb_css, names_css, genre_css, author_css) matches Some(p)
            ==> fields_from_selectors(html, (content_css, thumb_css, names_css, genre_css, author_css), p.fields),
{
    let css = (content_css, thumb_css, names_css, genre_css, author_css);
    let f0 = seq![ComicFieldView::PythonFetchInfo(true)];
    assert(field_from_selectors(html, css, f0[0]));
    assert(fields_from_selectors(html, css, f0));
    let s0 = Some(PageView { info: Seq::empty(), fields: f0 });
    let s1 = content_step(s0, html_select_first(html, content_css, ""@), "content"@);
    let s2 = thumbnail_step(s1, html_select_first(html, thumb_css, "src"@), "thumbnail"@, true);
    let s3 = names_step(s2, html_select_first(html, names_css, ""@), "another_name"@);
    let q4 = html_select_within_first(html, genre_css, "a"@, "href"@);
    let s4 = links_step(s3, q4, "genre"@, LinkKind::Genre);
    let q5 = html_select_within_first(html, author_css, "a"@, "href"@);
    let s5 = author_step(s4, q5, "author"@);
    if let Some(p1) = s1 {
        if p1.fields.len() > 1 {
            lemma_fields_push(html, css, f0, p1.fields.last());
            assert(p1.fields == f0.push(p1.fields.last()));
        }
        assert(fields_from_selectors(html, css, p1.fields));
        if let Some(p2) = s2 {
            if p2.fields.len() > p1.fields.len() {
                lemma_fields_push(html, css, p1.fields, p2.fields.last());
                assert(p2.fields == p1.fields.push(p2.fields.last()));
            }
            assert(fields_from_selectors(html, css, p2.fields));
            if let Some(p3) = s3 {
                if p3.fields.len() > p2.fields.len() {
                    lemma_fields_push(html, css, p2.fields, p3.fields.last());
                    assert(p3.fields == p2.fields.push(p3.fields.last()));
                }
                assert(fields_from_selectors(html, css, p3.fields));
                if let Some(p4) = s4 {
                    if p4.fields.len() > p3.fields.len() {
                        lemma_fields_push(html, css, p3.fields, p4.fields.last());
                        assert(p4.fields == p3.fields.push(p4.fields.last()));
                    }
                    assert(fields_from_selectors(html, css, p4.fields));
                    if let Some(p5) = s5 {
                        if p5.fields.len() > p4.fields.len() {
                            lemma_fields_push(html, css, p4.fields, p5.fields.last());
                            assert(p5.fields == p4.fields.push(p5.fields.last()));
                        }
                        assert(fields_from_selectors(html, css, p5.fields));
                    }
                }
            }
        }
    }
}

} // verus!
