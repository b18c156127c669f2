//! The records that the crawler stores, and the updates it makes to them.
use vstd::prelude::*;

verus! {

/// The views of a list of strings.
pub open spec fn strings_view(v: Vec<String>) -> Seq<Seq<char>> {
    v@.map_values(|s: String| s@)
}

/// The views of a list of (name, address) pairs.
pub open spec fn links_view(v: Vec<(String, String)>) -> Seq<(Seq<char>, Seq<char>)> {
    v@.map_values(|p: (String, String)| (p.0@, p.1@))
}

/// The map that inserting the pairs in order builds: a later pair with the
/// same name replaces an earlier one.
pub open spec fn link_map(pairs: Seq<(Seq<char>, Seq<char>)>) -> Map<Seq<char>, Seq<char>>
    decreases pairs.len(),
{
    if pairs.len() == 0 {
        Map::empty()
    } else {
        link_map(pairs.drop_last()).insert(pairs.last().0, pairs.last().1)
    }
}

pub open spec fn opt_view(o: Option<String>) -> Option<Seq<char>> {
    match o {
        Some(s) => Some(s@),
        None => None,
    }
}

/// The database handle's query-building side: the queries it builds are
/// plain values, sent by whoever holds the connection.
pub struct DbUtils {}

/// What looking an address up among the stored ones gave.
#[derive(Clone, Copy, PartialEq, Eq, Structural, Debug)]
pub enum UrlLookup {
    Failed,
    Missing,
    Found,
}

impl DbUtils {
    /// An address found on a page is stored only when the lookup shows it is
    /// not stored yet; a failed lookup drops it.
    pub fn filter_new_url(&self, url: String, lookup: UrlLookup) -> (r: Option<String>)
        ensures
            r is Some <==> lookup == UrlLookup::Missing,
            r matches Some(u) ==> u@ == url@,
    {
        match lookup {
            UrlLookup::Missing => Some(url),
            _ => None,
        }
    }
}

/// A change to a crawled address.
#[derive(Clone, Copy, PartialEq, Eq, Structural, Debug)]
pub enum UpdateUrlDocFields {
    Fetched(bool),
    Fetching(bool),
    IsError(bool),
}

/// A column assignment of the `urls` table.
#[derive(Clone, Copy, PartialEq, Eq, Structural, Debug)]
pub enum UrlSetParam {
    SetFetched(bool),
    SetFetching(bool),
    SetIsError(bool),
}

impl View for UrlSetParam {
    type V = UpdateUrlDocFields;

    /// The change that the assignment makes.
    open spec fn view(&self) -> UpdateUrlDocFields {
        match *self {
            UrlSetParam::SetFetched(b) => UpdateUrlDocFields::Fetched(b),
            UrlSetParam::SetFetching(b) => UpdateUrlDocFields::Fetching(b),
            UrlSetParam::SetIsError(b) => UpdateUrlDocFields::IsError(b),
        }
    }
}

impl UpdateUrlDocFields {
    /// The column assignment that makes this change.
    pub fn to_prisma_set(&self) -> (r: UrlSetParam)
        ensures
            r@ == *self,
    {
        match *self {
            UpdateUrlDocFields::Fetched(b) => UrlSetParam::SetFetched(b),
            UpdateUrlDocFields::Fetching(b) => UrlSetParam::SetFetching(b),
            UpdateUrlDocFields::IsError(b) => UrlSetParam::SetIsError(b),
        }
    }
}

/// An update of the crawled address `url`.
pub struct UrlUpdate {
    pub url: String,
    pub params: Vec<UrlSetParam>,
}

pub open spec fn url_params_view(v: Vec<UrlSetParam>) -> Seq<UpdateUrlDocFields> {
    v@.map_values(|p: UrlSetParam| p@)
}

/// The column assignments of the changes, in order.
pub fn url_set_params(fields: &Vec<UpdateUrlDocFields>) -> (r: Vec<UrlSetParam>)
    ensures
        url_params_view(r) == fields@,
{
    let mut r: Vec<UrlSetParam> = Vec::new();
    let mut i: usize = 0;
    while i < fields.len()
        invariant
            i <= fields@.len(),
            r@.len() == i,
            url_params_view(r) == fields@.take(i as int),
        decreases fields@.len() - i,
    {
        let x = fields[i].to_prisma_set();
        let ghost r0 = r@;
        r.push(x);
        assert(r@ == r0.push(x));
        assert(url_params_view(r) =~= fields@.take(i + 1));
        i += 1;
    }
    assert(fields@.take(fields@.len() as int) =~= fields@);
    r
}

impl DbUtils {
    /// The update of the address `url` that makes the changes `update_field`.
    pub fn update_url_doc_daft(&self, url: String, update_field: Vec<UpdateUrlDocFields>) -> (r:
        UrlUpdate)
        ensures
            r.url@ == url@,
            url_params_view(r.params) == update_field@,
    {
        UrlUpdate { url, params: url_set_params(&update_field) }
    }
}

/// What a comic field update, or a column assignment of the `comic` table,
/// sets.
pub enum ComicFieldView {
    Name(Seq<char>),
    PythonFetchInfo(bool),
    Content(Option<Seq<char>>),
    ThumbnailUrl(Option<Seq<char>>),
    AnotherName(Seq<Seq<char>>),
    Author(Seq<(Seq<char>, Seq<char>)>),
    Source(Seq<(Seq<char>, Seq<char>)>),
    TranslatorTeam(Seq<(Seq<char>, Seq<char>)>),
    PostedBy(Seq<(Seq<char>, Seq<char>)>),
    Genre(Seq<(Seq<char>, Seq<char>)>),
    Status(Seq<char>),
}

/// A change to a comic. The (name, address) lists are the insertions that
/// build the stored JSON object, in order.
#[derive(Debug)]
pub enum UpdateComicDocField {
    Name(String),
    PythonFetchInfo(bool),
    Content(Option<String>),
    ThumbnailUrl(Option<String>),
    AnotherName(Vec<String>),
    Author(Vec<(String, String)>),
    Source(Vec<(String, String)>),
    TranslatorTeam(Vec<(String, String)>),
    PostedBy(Vec<(String, String)>),
    Genre(Vec<(String, String)>),
    Status(String),
}

impl View for UpdateComicDocField {
    type V = ComicFieldView;

    open spec fn view(&self) -> ComicFieldView {
        match self {
            UpdateComicDocField::Name(s) => ComicFieldView::Name(s@),
            UpdateComicDocField::PythonFetchInfo(b) => ComicFieldView::PythonFetchInfo(*b),
            UpdateComicDocField::Content(s) => ComicFieldView::Content(opt_view(*s)),
            UpdateComicDocField::ThumbnailUrl(s) => ComicFieldView::ThumbnailUrl(opt_view(*s)),
            UpdateComicDocField::AnotherName(v) => ComicFieldView::AnotherName(strings_view(*v)),
            UpdateComicDocField::Author(v) => ComicFieldView::Author(links_view(*v)),
            UpdateComicDocField::Source(v) => ComicFieldView::Source(links_view(*v)),
            UpdateComicDocField::TranslatorTeam(v) => ComicFieldView::TranslatorTeam(links_view(*v)),
            UpdateComicDocField::PostedBy(v) => ComicFieldView::PostedBy(links_view(*v)),
            UpdateComicDocField::Genre(v) => ComicFieldView::Genre(links_view(*v)),
            UpdateComicDocField::Status(s) => ComicFieldView::Status(s@),
        }
    }
}

/// A column assignment of the `comic` table.
#[derive(Debug)]
pub enum ComicSetParam {
    SetName(String),
    SetPythonFetchInfo(bool),
    SetContent(Option<String>),
    SetThumbnail(Option<String>),
    SetAnotherName(Vec<String>),
    SetAuthor(Vec<(String, String)>),
    SetSource(Vec<(String, String)>),
    SetTranslatorTeam(Vec<(String, String)>),
    SetPostedBy(Vec<(String, String)>),
    SetGenre(Vec<(String, String)>),
    SetStatus(String),
}

impl View for ComicSetParam {
    type V = ComicFieldView;

    /// The change that the assignment makes.
    open spec fn view(&self) -> ComicFieldView {
        match self {
            ComicSetParam::SetName(s) => ComicFieldView::Name(s@),
            ComicSetParam::SetPythonFetchInfo(b) => ComicFieldView::PythonFetchInfo(*b),
            ComicSetParam::SetContent(s) => ComicFieldView::Content(opt_view(*s)),
            ComicSetParam::SetThumbnail(s) => ComicFieldView::ThumbnailUrl(opt_view(*s)),
            ComicSetParam::SetAnotherName(v) => ComicFieldView::AnotherName(strings_view(*v)),
            ComicSetParam::SetAuthor(v) => ComicFieldView::Author(links_view(*v)),
            ComicSetParam::SetSource(v) => ComicFieldView::Source(links_view(*v)),
            ComicSetParam::SetTranslatorTeam(v) => ComicFieldView::TranslatorTeam(links_view(*v)),
            ComicSetParam::SetPostedBy(v) => ComicFieldView::PostedBy(links_view(*v)),
            ComicSetParam::SetGenre(v) => ComicFieldView::Genre(links_view(*v)),
            ComicSetParam::SetStatus(s) => ComicFieldView::Status(s@),
        }
    }
}

pub(crate) fn clone_strings(v: &Vec<String>) -> (r: Vec<String>)
    ensures
        strings_view(r) == strings_view(*v),
{
    let mut r: Vec<String> = Vec::new();
    let mut i: usize = 0;
    while i < v.len()
        invariant
            i <= v@.len(),
            r@.len() == i,
            strings_view(r) == strings_view(*v).take(i as int),
        decreases v@.len() - i,
    {
        let x = v[i].clone();
        let ghost r0 = r@;
        r.push(x);
        assert(r@ == r0.push(x));
        assert(strings_view(r) =~= strings_view(*v).take(i + 1));
        i += 1;
    }
    assert(strings_view(*v).take(v@.len() as int) =~= strings_view(*v));
    r
}

pub(crate) fn clone_links(v: &Vec<(String, String)>) -> (r: Vec<(String, String)>)
    ensures
        links_view(r) == links_view(*v),
{
    let mut r: Vec<(String, String)> = Vec::new();
    let mut i: usize = 0;
    while i < v.len()
        invariant
            i <= v@.len(),
            r@.len() == i,
            links_view(r) == links_view(*v).take(i as int),
        decreases v@.len() - i,
    {
        let (a, b) = &v[i];
        let x = (a.clone(), b.clone());
        let ghost r0 = r@;
        r.push(x);
        assert(r@ == r0.push(x));
        assert(links_view(r) =~= links_view(*v).take(i + 1));
        i += 1;
    }
    assert(links_view(*v).take(v@.len() as int) =~= links_view(*v));
    r
}

pub(crate) fn clone_opt(o: &Option<String>) -> (r: Option<String>)
    ensures
        opt_view(r) == opt_view(*o),
{
    match o {
        Some(s) => Some(s.clone()),
        None => None,
    }
}

impl UpdateComicDocField {
    /// The column assignment that makes this change.
    pub fn to_prisma_set(&self) -> (r: ComicSetParam)
        ensures
            r@ == self@,
    {
        match self {
            UpdateComicDocField::Name(s) => ComicSetParam::SetName(s.clone()),
            UpdateComicDocField::PythonFetchInfo(b) => ComicSetParam::SetPythonFetchInfo(*b),
            UpdateComicDocField::Content(s) => ComicSetParam::SetContent(clone_opt(s)),
            UpdateComicDocField::ThumbnailUrl(s) => ComicSetParam::SetThumbnail(clone_opt(s)),
            UpdateComicDocField::AnotherName(v) => ComicSetParam::SetAnotherName(clone_strings(v)),
            UpdateComicDocField::Author(v) => ComicSetParam::SetAuthor(clone_links(v)),
            UpdateComicDocField::Source(v) => ComicSetParam::SetSource(clone_links(v)),
            UpdateComicDocField::TranslatorTeam(v) => ComicSetParam::SetTranslatorTeam(
                clone_links(v),
            ),
            UpdateComicDocField::PostedBy(v) => ComicSetParam::SetPostedBy(clone_links(v)),
            UpdateComicDocField::Genre(v) => ComicSetParam::SetGenre(clone_links(v)),
            UpdateComicDocField::Status(s) => ComicSetParam::SetStatus(s.clone()),
        }
    }
}

pub open spec fn comic_fields_view(v: Vec<UpdateComicDocField>) -> Seq<ComicFieldView> {
    v@.map_values(|f: UpdateComicDocField| f@)
}

pub open spec fn comic_params_view(v: Vec<ComicSetParam>) -> Seq<ComicFieldView> {
    v@.map_values(|p: ComicSetParam| p@)
}

/// The column assignments of the comic changes, in order.
pub fn comic_set_params(fields: &Vec<UpdateComicDocField>) -> (r: Vec<ComicSetParam>)
    ensures
        comic_params_view(r) == comic_fields_view(*fields),
{
    let mut r: Vec<ComicSetParam> = Vec::new();
    let mut i: usize = 0;
    while i < fields.len()
        invariant
            i <= fields@.len(),
            r@.len() == i,
            comic_params_view(r) == comic_fields_view(*fields).take(i as int),
        decreases fields@.len() - i,
    {
        let x = fields[i].to_prisma_set();
        let ghost r0 = r@;
        r.push(x);
        assert(r@ == r0.push(x));
        assert(comic_params_view(r) =~= comic_fields_view(*fields).take(i + 1));
        i += 1;
    }
    assert(comic_fields_view(*fields).take(fields@.len() as int) =~= comic_fields_view(*fields));
    r
}

/// The image of a chapter page and its CDN copy.
#[derive(Debug)]
pub struct ImageSource {
    pub url: String,
    pub cdn: String,
}

pub open spec fn images_view(v: Vec<ImageSource>) -> Seq<(Seq<char>, Seq<char>)> {
    v@.map_values(|i: ImageSource| (i.url@, i.cdn@))
}

/// What a chapter field update, or a column assignment of the `chapter`
/// table, sets.
pub enum ChapterFieldView {
    Url(Seq<char>),
    Images(Seq<Seq<char>>),
    ServerImage(Seq<(Seq<char>, Seq<char>)>),
    CreatedDate(Seq<char>),
    Index(i32),
}

/// A change to a chapter.
#[derive(Debug)]
pub enum ChapterUpdateField {
    Url(String),
    Images(Vec<String>),
    ServerImage(Vec<ImageSource>),
    CreatedDate(String),
    Index(i32),
}

impl View for ChapterUpdateField {
    type V = ChapterFieldView;

    open spec fn view(&self) -> ChapterFieldView {
        match self {
            ChapterUpdateField::Url(s) => ChapterFieldView::Url(s@),
            ChapterUpdateField::Images(v) => ChapterFieldView::Images(strings_view(*v)),
            ChapterUpdateField::ServerImage(v) => ChapterFieldView::ServerImage(images_view(*v)),
            ChapterUpdateField::CreatedDate(s) => ChapterFieldView::CreatedDate(s@),
            ChapterUpdateField::Index(i) => ChapterFieldView::Index(*i),
        }
    }
}

/// A column assignment of the `chapter` table.
#[derive(Debug)]
pub enum ChapterSetParam {
    SetUrl(String),
    SetImages(Vec<String>),
    SetServerImage(Vec<ImageSource>),
    SetCreatedDate(String),
    SetIndex(i32),
}

impl View for ChapterSetParam {
    type V = ChapterFieldView;

    /// The change that the assignment makes.
    open spec fn view(&self) -> ChapterFieldView {
        match self {
            ChapterSetParam::SetUrl(s) => ChapterFieldView::Url(s@),
            ChapterSetParam::SetImages(v) => ChapterFieldView::Images(strings_view(*v)),
            ChapterSetParam::SetServerImage(v) => ChapterFieldView::ServerImage(images_view(*v)),
            ChapterSetParam::SetCreatedDate(s) => ChapterFieldView::CreatedDate(s@),
            ChapterSetParam::SetIndex(i) => ChapterFieldView::Index(*i),
        }
    }
}

fn clone_images(v: &Vec<ImageSource>) -> (r: Vec<ImageSource>)
    ensures
        images_view(r) == images_view(*v),
{
    let mut r: Vec<ImageSource> = Vec::new();
    let mut i: usize = 0;
    while i < v.len()
        invariant
            i <= v@.len(),
            r@.len() == i,
            images_view(r) == images_view(*v).take(i as int),
        decreases v@.len() - i,
    {
        let x = ImageSource { url: v[i].url.clone(), cdn: v[i].cdn.clone() };
        let ghost r0 = r@;
        r.push(x);
        assert(r@ == r0.push(x));
        assert(images_view(r) =~= images_view(*v).take(i + 1));
        i += 1;
    }
    assert(images_view(*v).take(v@.len() as int) =~= images_view(*v));
    r
}

impl ChapterUpdateField {
    /// The column assignment that makes this change.
    pub fn to_prisma_set(&self) -> (r: ChapterSetParam)
        ensures
            r@ == self@,
    {
        match self {
            ChapterUpdateField::Url(s) => ChapterSetParam::SetUrl(s.clone()),
            ChapterUpdateField::Images(v) => ChapterSetParam::SetImages(clone_strings(v)),
            ChapterUpdateField::ServerImage(v) => ChapterSetParam::SetServerImage(clone_images(v)),
            ChapterUpdateField::CreatedDate(s) => ChapterSetParam::SetCreatedDate(s.clone()),
            ChapterUpdateField::Index(i) => ChapterSetParam::SetIndex(*i),
        }
    }
}

pub open spec fn chapter_fields_view(v: Vec<ChapterUpdateField>) -> Seq<ChapterFieldView> {
    v@.map_values(|f: ChapterUpdateField| f@)
}

pub open spec fn chapter_params_view(v: Vec<ChapterSetParam>) -> Seq<ChapterFieldView> {
    v@.map_values(|p: ChapterSetParam| p@)
}

/// The column assignments of the chapter changes, in order.
pub fn chapter_set_params(fields: &Vec<ChapterUpdateField>) -> (r: Vec<ChapterSetParam>)
    ensures
        chapter_params_view(r) == chapter_fields_view(*fields),
{
    let mut r: Vec<ChapterSetParam> = Vec::new();
    let mut i: usize = 0;
    while i < fields.len()
        invariant
            i <= fields@.len(),
            r@.len() == i,
            chapter_params_view(r) == chapter_fields_view(*fields).take(i as int),
        decreases fields@.len() - i,
    {
        let x = fields[i].to_prisma_set();
        let ghost r0 = r@;
        r.push(x);
        assert(r@ == r0.push(x));
        assert(chapter_params_view(r) =~= chapter_fields_view(*fields).take(i + 1));
        i += 1;
    }
    assert(chapter_fields_view(*fields).take(fields@.len() as int) =~= chapter_fields_view(
        *fields,
    ));
    r
}

/// An update of the chapter at `url`.
pub struct ChapterUpdate {
    pub url: String,
    pub params: Vec<ChapterSetParam>,
}

/// A chapter to create: name, address, comic id, creation date and the
/// further assignments.
pub type DaftChapter = (String, String, String, String, Vec<ChapterSetParam>);

impl DbUtils {
    /// The update of the chapter at `url` that makes the changes
    /// `update_field`.
    pub fn daft_update_chapter_by_url(&self, url: String, update_field: Vec<ChapterUpdateField>) -> (r:
        ChapterUpdate)
        ensures
            r.url@ == url@,
            chapter_params_view(r.params) == chapter_fields_view(update_field),
    {
        ChapterUpdate { url, params: chapter_set_params(&update_field) }
    }

    /// The creation of a chapter of the comic `comic_id`; its index is set
    /// when one is given.
    pub fn create_empty_chapter_dafter(
        &self,
        name: String,
        url: String,
        created_date: String,
        comic_id: String,
        index: Option<i32>,
    ) -> (r: DaftChapter)
        ensures
            r.0@ == name@,
            r.1@ == url@,
            r.2@ == comic_id@,
            r.3@ == created_date@,
            chapter_params_view(r.4) == match index {
                Some(i) => seq![ChapterFieldView::Index(i)],
                None => Seq::<ChapterFieldView>::empty(),
            },
    {
        let mut params: Vec<ChapterSetParam> = Vec::new();
        if let Some(i) = index {
            params.push(ChapterSetParam::SetIndex(i));
            assert(chapter_params_view(params) =~= seq![ChapterFieldView::Index(i)]);
        } else {
            assert(chapter_params_view(params) =~= Seq::<ChapterFieldView>::empty());
        }
        (name, url, comic_id, created_date, params)
    }
}

} // verus!
