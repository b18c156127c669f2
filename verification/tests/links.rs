use comic_crawler::modules::{can_process_url, process_url, try_process_url};
use comic_crawler::util::{cdn_url, get_host};

#[test]
fn host_of_https_url() {
    assert_eq!(get_host("https://blogtruyenmoi.com/33534/moi-tinh"), Some("blogtruyenmoi.com".to_string()));
}

#[test]
fn host_of_http_url_inside_text() {
    assert_eq!(get_host("see http://www.nettruyenee.com/x"), Some("www.nettruyenee.com".to_string()));
}

#[test]
fn host_of_non_http_url() {
    assert_eq!(get_host("ftp://example.com/a"), None);
    assert_eq!(get_host("https:///nohost"), None);
}

#[test]
fn blog_chapter_link_is_made_absolute() {
    let now = "https://blogtruyenmoi.com/33534/moi-tinh";
    assert_eq!(
        process_url("  /c123/chap-1  ", now),
        Some("https://blogtruyenmoi.com/c123/chap-1".to_string())
    );
}

#[test]
fn blog_comic_path_is_followed_and_other_paths_are_not() {
    let now = "https://blogtruyenmoi.com/33534/moi-tinh";
    assert_eq!(
        process_url("/34464/kiyota-san", now),
        Some("https://blogtruyenmoi.com/34464/kiyota-san".to_string())
    );
    assert_eq!(process_url("/tim-kiem", now), None);
    assert_eq!(process_url("//id.blogtruyenmoi.com/login", now), None);
    assert_eq!(process_url("/c1#bt-comment", now), None);
    assert_eq!(process_url("https://other.com/a", now), None);
}

#[test]
fn blog_list_page_script_link() {
    let now = "https://blogtruyenmoi.com/";
    assert_eq!(
        process_url("javascript:LoadListMangaPage(2)", now),
        Some("https://blogtruyenmoi.com/ajax/Search/AjaxLoadListManga?key=tatca&orderBy=3&p=2".to_string())
    );
}

#[test]
fn blog_list_page_script_link_without_number_cannot_be_handled() {
    let now = "https://blogtruyenmoi.com/";
    assert!(!can_process_url("javascript:LoadListMangaPage(x)", now));
    assert_eq!(try_process_url("javascript:LoadListMangaPage(x)", now), None);
    assert_eq!(try_process_url("/c9", now), Some(Some("https://blogtruyenmoi.com/c9".to_string())));
}

#[test]
fn links_of_unaccepted_pages_are_not_followed() {
    assert_eq!(process_url("https://mangajuice.com/manga/x", "https://example.com/"), None);
    assert_eq!(process_url("https://mangajuice.com/manga/x", "not a url"), None);
}

#[test]
fn nettruyen_links() {
    let now = "https://nettruyenee.com/truyen-tranh/abc";
    assert_eq!(
        process_url(" https://nettruyenee.com/truyen-tranh/xyz ", now),
        Some("https://nettruyenee.com/truyen-tranh/xyz".to_string())
    );
    assert_eq!(
        process_url("https://nettruyenee.com/tim-truyen?page=3", now),
        Some("https://nettruyenee.com/tim-truyen?page=3".to_string())
    );
    assert_eq!(process_url("https://nettruyenee.com/truyen-tranh/xyz#nt_comment", now), None);
    assert_eq!(process_url("https://nettruyenee.com/truyen-tranh/xyz#nt_listchapter", now), None);
    assert_eq!(process_url("https://example.com/truyen-tranh/xyz", now), None);
    assert_eq!(process_url("https://nettruyenee.com/the-loai", now), None);
}

#[test]
fn nettruyen_www_is_dropped() {
    let now = "https://nettruyenee.com/";
    assert_eq!(
        process_url("https://www.nettruyenee.com/truyen-tranh/xyz", now),
        Some("https://nettruyenee.com/truyen-tranh/xyz".to_string())
    );
}

#[test]
fn nettruyen_chapter_link_on_other_host_of_family() {
    let now = "https://nettruyenee.com/";
    assert_eq!(
        process_url("https://nettruyenff.com/truyen-tranh/abc/chap-1/123", now),
        Some("https://nettruyenff.com/truyen-tranh/abc/chap-1/123".to_string())
    );
}

#[test]
fn mangajuice_links() {
    let now = "https://mangajuice.com/";
    assert_eq!(process_url("https://mangajuice.com/manga/ragna", now), Some("https://mangajuice.com/manga/ragna".to_string()));
    assert_eq!(process_url("https://mangajuice.com/manga-status/ongoing/", now), None);
    assert_eq!(process_url("https://mangajuice.com/chapter/a-1/", now), Some("https://mangajuice.com/chapter/a-1/".to_string()));
    assert_eq!(process_url("https://mangajuice.com/chapter/a-1/feed/", now), None);
    assert_eq!(process_url("https://mangajuice.com/updates/page/2", now), Some("https://mangajuice.com/updates/page/2".to_string()));
    assert_eq!(process_url("https://mangajuice.com/newest", now), Some("https://mangajuice.com/newest".to_string()));
    assert_eq!(process_url("https://mangajuice.com/about", now), None);
}

#[test]
fn alya_links() {
    let now = "https://alyasometimeshidesherfeelings.com/";
    assert_eq!(
        process_url(" https://alyasometimeshidesherfeelings.com/ ", now),
        Some("https://alyasometimeshidesherfeelings.com/".to_string())
    );
    assert_eq!(
        process_url("https://alyasometimeshidesherfeelings.com/manga/ch-1/", now),
        Some("https://alyasometimeshidesherfeelings.com/manga/ch-1/".to_string())
    );
    assert_eq!(process_url("https://alyasometimeshidesherfeelings.com/manga/feed/", now), None);
    assert_eq!(process_url("https://alyasometimeshidesherfeelings.com/about", now), None);
}

#[test]
fn links_stay_on_site() {
    let now = "https://mangajuice.com/manga/x";
    for link in ["https://mangajuice.com/manga/y", "https://mangajuice.com/chapter/z", "https://evil.com/manga"] {
        if let Some(u) = process_url(link, now) {
            assert!(u.starts_with("https://mangajuice.com/"));
        }
    }
}

#[test]
fn uploaded_image_address_goes_to_cdn() {
    assert_eq!(
        cdn_url("https://s3-bucket.s3.amazonaws.com/www.guilded.gg/ContentMediaGenericFiles/abc.png"),
        Some("https://cdn.gilcdn.com/ContentMediaGenericFiles/abc.png".to_string())
    );
    assert_eq!(cdn_url("https://img.guildedcdn.com/x.png"), Some("https://img.guildedcdn.com/x.png".to_string()));
}
