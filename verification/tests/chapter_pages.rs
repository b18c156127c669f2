use comic_crawler::db::DbUtils;
use comic_crawler::modules::alyasometimeshidesherfeelings::age_of;
use comic_crawler::modules::chapters::{scan_chapters, AgeOffset, ChapterEntry, ChapterLookup};
use comic_crawler::modules::{alyasometimeshidesherfeelings, blogtruyenmoi, mangajuice, nettruyenee};

#[test]
fn blog_chapter_images_start_with_http() {
    let html = "<img src=\"https://i.blogtruyen/1.jpg\"><img src=\"/local.png\"><img src=\"http://i/2.jpg\">";
    assert_eq!(
        format!("{:?}", blogtruyenmoi::chapter_page_updates(html)),
        "[Images([\"https://i.blogtruyen/1.jpg\", \"http://i/2.jpg\"])]"
    );
    assert_eq!(format!("{:?}", blogtruyenmoi::chapter_page_updates("<p></p>")), "[Images([])]");
}

#[test]
fn nettruyen_chapter_images_and_date() {
    let html = "<i>[Cập nhật lúc: 12:00 01/02/2023]</i>
<img alt=\"p1\" data-index=\"0\" src=\"//img/1.jpg\" data-original=\"x\" data-cdn=\"//cdn/1.jpg\" />
<img alt=\"p2\" data-index=\"1\" src=\"//img/2.jpg\" data-original=\"x\" data-cdn=\"//cdn/2.jpg\" />";
    let v = nettruyenee::chapter_page_updates(html).unwrap();
    assert_eq!(
        format!("{:?}", v),
        "[ServerImage([ImageSource { url: \"https://img/1.jpg\", cdn: \"https://cdn/1.jpg\" }, \
ImageSource { url: \"https://img/2.jpg\", cdn: \"https://cdn/2.jpg\" }]), CreatedDate(\"12:00 01/02/2023\")]"
    );
    assert!(nettruyenee::chapter_page_updates("<img src=\"x\">").is_none());
}

#[test]
fn mangajuice_chapter_images() {
    let html = "<img class=\"a\" src=\"https://m/1.webp\">\n<img src=\"/rel/2.webp\">";
    assert_eq!(
        format!("{:?}", mangajuice::chapter_page_updates(html)),
        "Some([Images([\"https://m/1.webp\", \"/rel/2.webp\"])])"
    );
    assert!(mangajuice::chapter_page_updates("<p></p>").is_none());
}

#[test]
fn alya_chapter_images() {
    let html = "<img src=\"https://a/1.jpg\">\n<img src=\"data:x\">";
    assert_eq!(
        format!("{:?}", alyasometimeshidesherfeelings::chapter_page_updates(html)),
        "Some([Images([\"https://a/1.jpg\"])])"
    );
    assert!(alyasometimeshidesherfeelings::chapter_page_updates("<img src=\"data:x\">").is_none());
}

#[test]
fn ages_of_chapters() {
    assert_eq!(age_of("2 years ago"), Some(AgeOffset::Months(24)));
    assert_eq!(age_of("3 months ago"), Some(AgeOffset::Months(3)));
    assert_eq!(age_of("3 weeks ago"), Some(AgeOffset::Days(21)));
    assert_eq!(age_of("1 day ago"), Some(AgeOffset::Days(1)));
    assert_eq!(age_of("5 hours ago"), Some(AgeOffset::Zero));
    assert_eq!(age_of("x days ago"), None);
    assert_eq!(age_of("-1 day ago"), None);
}

fn entry(url: &str, lookup: ChapterLookup) -> ChapterEntry {
    ChapterEntry {
        url: url.to_string(),
        title: format!("title {}", url),
        created_date: "d".to_string(),
        lookup,
    }
}

#[test]
fn chapter_indices_count_down_from_the_number_of_links() {
    let db = DbUtils {};
    let entries = vec![
        entry("a", ChapterLookup::Found(3)),
        entry("b", ChapterLookup::Missing),
        entry("x", ChapterLookup::Failed),
        entry("c", ChapterLookup::Found(5)),
    ];
    let scan = scan_chapters(&db, 4, &entries, &"42".to_string(), false);
    assert_eq!(scan.result, vec!["a".to_string(), "b".to_string(), "c".to_string()]);
    assert_eq!(scan.creates.len(), 1);
    let (name, url, comic, date, params) = &scan.creates[0];
    assert_eq!((name.as_str(), url.as_str(), comic.as_str(), date.as_str()), ("title b", "b", "42", "d"));
    assert_eq!(format!("{:?}", params), "[SetIndex(3)]");
    assert_eq!(scan.updates.len(), 2);
    assert_eq!(scan.updates[0].url, "a");
    assert_eq!(format!("{:?}", scan.updates[0].params), "[SetIndex(4)]");
    assert_eq!(scan.updates[1].url, "c");
    assert_eq!(format!("{:?}", scan.updates[1].params), "[SetIndex(2)]");
}

#[test]
fn new_blog_chapters_count_up() {
    let db = DbUtils {};
    let entries = vec![entry("a", ChapterLookup::Found(2)), entry("b", ChapterLookup::Missing)];
    let scan = scan_chapters(&db, 2, &entries, &"1".to_string(), true);
    assert_eq!(scan.result, vec!["a".to_string(), "b".to_string()]);
    assert!(scan.updates.is_empty());
    assert_eq!(format!("{:?}", scan.creates[0].4), "[SetIndex(1)]");
}
