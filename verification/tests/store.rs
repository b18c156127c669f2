use comic_crawler::db::{
    chapter_set_params, comic_set_params, url_set_params, ChapterSetParam, ChapterUpdateField, ComicSetParam,
    DbUtils, ImageSource, UpdateComicDocField, UpdateUrlDocFields, UrlLookup, UrlSetParam,
};

#[test]
fn only_addresses_not_yet_stored_are_kept() {
    let db = DbUtils {};
    assert_eq!(db.filter_new_url("u".to_string(), UrlLookup::Missing), Some("u".to_string()));
    assert_eq!(db.filter_new_url("u".to_string(), UrlLookup::Found), None);
    assert_eq!(db.filter_new_url("u".to_string(), UrlLookup::Failed), None);
}

#[test]
fn url_changes_become_assignments() {
    assert_eq!(UpdateUrlDocFields::Fetched(true).to_prisma_set(), UrlSetParam::SetFetched(true));
    assert_eq!(UpdateUrlDocFields::Fetching(false).to_prisma_set(), UrlSetParam::SetFetching(false));
    assert_eq!(UpdateUrlDocFields::IsError(true).to_prisma_set(), UrlSetParam::SetIsError(true));
    assert_eq!(
        url_set_params(&vec![UpdateUrlDocFields::Fetched(true), UpdateUrlDocFields::IsError(true)]),
        vec![UrlSetParam::SetFetched(true), UrlSetParam::SetIsError(true)]
    );
}

#[test]
fn url_update_keeps_address_and_order() {
    let db = DbUtils {};
    let u = db.update_url_doc_daft(
        "https://blogtruyenmoi.com/1/x".to_string(),
        vec![UpdateUrlDocFields::Fetched(false), UpdateUrlDocFields::Fetching(true)],
    );
    assert_eq!(u.url, "https://blogtruyenmoi.com/1/x");
    assert_eq!(u.params, vec![UrlSetParam::SetFetched(false), UrlSetParam::SetFetching(true)]);
}

#[test]
fn comic_changes_become_assignments() {
    match UpdateComicDocField::Name("N".to_string()).to_prisma_set() {
        ComicSetParam::SetName(n) => assert_eq!(n, "N"),
        other => panic!("unexpected {:?}", other),
    }
    match UpdateComicDocField::Genre(vec![("Action".to_string(), "/g/a".to_string())]).to_prisma_set() {
        ComicSetParam::SetGenre(g) => assert_eq!(g, vec![("Action".to_string(), "/g/a".to_string())]),
        other => panic!("unexpected {:?}", other),
    }
    let all = comic_set_params(&vec![
        UpdateComicDocField::PythonFetchInfo(true),
        UpdateComicDocField::ThumbnailUrl(None),
        UpdateComicDocField::Status("Ongoing".to_string()),
    ]);
    assert_eq!(all.len(), 3);
    assert!(matches!(all[0], ComicSetParam::SetPythonFetchInfo(true)));
    assert!(matches!(all[1], ComicSetParam::SetThumbnail(None)));
    assert!(matches!(&all[2], ComicSetParam::SetStatus(s) if s == "Ongoing"));
}

#[test]
fn chapter_changes_become_assignments() {
    let params = chapter_set_params(&vec![
        ChapterUpdateField::ServerImage(vec![ImageSource { url: "https://a/1.jpg".to_string(), cdn: "https://c/1.jpg".to_string() }]),
        ChapterUpdateField::CreatedDate("12:00 01/02/2023".to_string()),
        ChapterUpdateField::Index(7),
    ]);
    assert_eq!(params.len(), 3);
    match &params[0] {
        ChapterSetParam::SetServerImage(v) => {
            assert_eq!(v.len(), 1);
            assert_eq!(v[0].url, "https://a/1.jpg");
            assert_eq!(v[0].cdn, "https://c/1.jpg");
        }
        other => panic!("unexpected {:?}", other),
    }
    assert!(matches!(&params[1], ChapterSetParam::SetCreatedDate(d) if d == "12:00 01/02/2023"));
    assert!(matches!(params[2], ChapterSetParam::SetIndex(7)));
}

#[test]
fn chapter_update_and_creation() {
    let db = DbUtils {};
    let u = db.daft_update_chapter_by_url("c".to_string(), vec![ChapterUpdateField::Index(3)]);
    assert_eq!(u.url, "c");
    assert!(matches!(u.params[..], [ChapterSetParam::SetIndex(3)]));
    let (name, url, comic, date, params) =
        db.create_empty_chapter_dafter("Chap 1".to_string(), "c1".to_string(), "".to_string(), "42".to_string(), Some(5));
    assert_eq!((name.as_str(), url.as_str(), comic.as_str(), date.as_str()), ("Chap 1", "c1", "42", ""));
    assert!(matches!(params[..], [ChapterSetParam::SetIndex(5)]));
    let (_, _, _, _, params) =
        db.create_empty_chapter_dafter("n".to_string(), "u".to_string(), "d".to_string(), "1".to_string(), None);
    assert!(params.is_empty());
}
