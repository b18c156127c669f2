use comic_crawler::modules::alyasometimeshidesherfeelings::parse_alyasometimeshidesherfeelings_moi_html_page;
use comic_crawler::modules::blogtruyenmoi::{parse_blog_truyen_moi_html_page, try_parse_blog_truyen_moi_html_page};
use comic_crawler::modules::mangajuice::parse_mangajuice_html_page;
use comic_crawler::modules::nettruyenee::{parse_net_truyen_html_page, try_parse_net_truyen_html_page};
use comic_crawler::modules::pages::{comic_page_chapters, comic_page_updates, comic_title, Site};

const NET_PAGE: &str = "<html><head><title>
  Samurai Kiem Tre
</title></head><body>
<div id=\"item-detail\">
<div class=\"detail-info\"><div>
<div class=\"col-xs-4 col-image\"><img src=\" //img/cover.jpg \"></div>
<div class=\"col-xs-8 col-info\"><ul>
<li class=\"othername row\"><h2> A ; B </h2></li>
<li class=\"author row\"><p class=\"col-xs-8\">Tac gia</p></li>
<li class=\"kind row\"><p class=\"col-xs-8\"><a href=\"/g/action\">Action</a> - <a href=\"/g/comedy\">Comedy</a></p></li>
</ul></div></div></div>
<div class=\"detail-content\"><p> Noi dung </p></div>
</div>
</body></html>";

const NET_FIELDS: &str = "PythonFetchInfo(true), Content(Some(\"Noi dung\")), \
ThumbnailUrl(Some(\"//img/cover.jpg\")), AnotherName([\"A\", \"B\"]), \
Genre([(\"Action\", \"/g/action\"), (\"Comedy\", \"/g/comedy\")]), Author([(\"Tac gia\", \"\")])";

#[test]
fn titles_of_comic_pages() {
    assert_eq!(
        comic_title(Site::Nettruyen, NET_PAGE),
        Some("Samurai Kiem Tre - NetTruyenEe.com".to_string())
    );
    assert_eq!(
        comic_title(Site::Blogtruyenmoi, "<title>Kiyota-san</title>"),
        Some("Kiyota-san".to_string())
    );
    assert_eq!(
        comic_title(Site::Mangajuice, "<title>Ragna Crimson</title>"),
        Some("Ragna Crimson".to_string())
    );
    assert_eq!(comic_title(Site::Alya, "<p>no title</p>"), None);
}

#[test]
fn nettruyen_comic_information() {
    let (info, fields) = parse_net_truyen_html_page(NET_PAGE);
    assert_eq!(format!("{:?}", fields), format!("[{}]", NET_FIELDS));
    let keys: Vec<&str> = info.iter().map(|(k, _)| k.as_str()).collect();
    assert_eq!(keys, vec!["content", "thumbnail", "another_name", "genre", "author"]);
}

#[test]
fn comic_updates_add_the_name_when_it_changed() {
    let updates = comic_page_updates(Site::Nettruyen, NET_PAGE, "Old name").unwrap().unwrap();
    assert_eq!(
        format!("{:?}", updates),
        format!("[Name(\"Samurai Kiem Tre - NetTruyenEe.com\"), {}]", NET_FIELDS)
    );
    let same = comic_page_updates(Site::Nettruyen, NET_PAGE, "Samurai Kiem Tre - NetTruyenEe.com")
        .unwrap()
        .unwrap();
    assert_eq!(format!("{:?}", same), format!("[{}]", NET_FIELDS));
}

#[test]
fn a_comic_page_without_title_gives_no_updates() {
    assert!(matches!(comic_page_updates(Site::Nettruyen, "<p></p>", "x"), Some(None)));
}

#[test]
fn a_cover_without_address_cannot_be_read() {
    let page = NET_PAGE.replace("<img src=\" //img/cover.jpg \">", "<img alt=\"cover\">");
    assert!(try_parse_net_truyen_html_page(&page).is_none());
    assert!(comic_page_updates(Site::Nettruyen, &page, "x").is_none());
}

#[test]
fn a_page_without_details_only_sets_the_fetched_flag() {
    let (info, fields) = try_parse_net_truyen_html_page("<html><body></body></html>").unwrap();
    assert!(info.is_empty());
    assert_eq!(format!("{:?}", fields), "[PythonFetchInfo(true)]");
}

#[test]
fn blog_chapter_list() {
    let page = "<div>
<p id=\"chapter-2\"> <span class=\"title\"> <a id=\"chap_2\" href=\"/c2/chap-2\" title=\"Chap 2\">Chap 2 </a> </span> <span class=\"publishedDate\">02/02/2023 10:00</span></p>
<p id=\"chapter-1\"> <span class=\"title\"> <a id=\"chap_1\" href=\"/c1/chap-1\" title=\"Chap 1\">Chap 1</a> </span> <span class=\"publishedDate\">01/02/2023 09:00</span></p>
</div>";
    let (count, cs) = comic_page_chapters(Site::Blogtruyenmoi, page).unwrap();
    assert_eq!(count, 2);
    assert_eq!(cs.len(), 2);
    assert_eq!(cs[0].url, "https://blogtruyenmoi.com/c2/chap-2");
    assert_eq!(cs[0].title, "Chap 2");
    assert_eq!(format!("{:?}", cs[0].date), "Text(\"02/02/2023 10:00\")");
    assert_eq!(cs[1].url, "https://blogtruyenmoi.com/c1/chap-1");
}

#[test]
fn nettruyen_chapter_list_keeps_chapter_links_only() {
    let page = "<a href=\"https://nettruyenee.com/truyen-tranh/abc/chap-2/1002\" data-id=\"1002\">Chapter 2</a>
<a href=\"https://nettruyenee.com/truyen-tranh/abc\" data-id=\"1\">Doc</a>";
    let (count, cs) = comic_page_chapters(Site::Nettruyen, page).unwrap();
    assert_eq!(count, 2);
    assert_eq!(cs.len(), 1);
    assert_eq!(cs[0].url, "https://nettruyenee.com/truyen-tranh/abc/chap-2/1002");
    assert_eq!(cs[0].title, "Chapter 2");
    assert_eq!(format!("{:?}", cs[0].date), "Text(\"\")");
}

#[test]
fn mangajuice_chapter_list() {
    let page = "<a href=\"https://mangajuice.com/chapter/rc-1/\" class=\"title\">Chapter 1</a>
<a href=\"https://mangajuice.com/chapter/rc-1/feed/\" class=\"title\">Feed</a>
<a href=\"https://mangajuice.com/manga/rc\" class=\"title\">Manga</a>";
    let (count, cs) = comic_page_chapters(Site::Mangajuice, page).unwrap();
    assert_eq!(count, 3);
    assert_eq!(cs.len(), 1);
    assert_eq!(cs[0].url, "https://mangajuice.com/chapter/rc-1/");
    assert_eq!(format!("{:?}", cs[0].date), "Now");
}

#[test]
fn alya_chapter_list_reads_ages() {
    let page = "<a href=\"https://alyasometimeshidesherfeelings.com/manga/ch-3/\"><span>Chapter 3</span><span class=\"chapter-date\">2 weeks ago</span></a>
<a href=\"https://alyasometimeshidesherfeelings.com/manga/ch-4/\"><span>Chapter 4</span><span class=\"chapter-date\">🔥 New</span></a>
<a href=\"https://alyasometimeshidesherfeelings.com/manga/ch-2/\"><span>Chapter 2</span><span class=\"chapter-date\">1 year ago</span></a>";
    let (count, cs) = comic_page_chapters(Site::Alya, page).unwrap();
    assert_eq!(count, 3);
    assert_eq!(cs.len(), 2);
    assert_eq!(format!("{:?}", cs[0].date), "Before(Days(14))");
    assert_eq!(format!("{:?}", cs[1].date), "Before(Months(12))");
}

#[test]
fn alya_chapter_with_unreadable_age_cannot_be_read() {
    let page = "<a href=\"https://alyasometimeshidesherfeelings.com/manga/ch-3/\"><span>Chapter 3</span><span class=\"chapter-date\">x days ago</span></a>";
    assert!(comic_page_chapters(Site::Alya, page).is_none());
}

#[test]
fn a_page_without_chapter_links() {
    let (count, cs) = comic_page_chapters(Site::Mangajuice, "<p></p>").unwrap();
    assert_eq!(count, 0);
    assert!(cs.is_empty());
}

const BLOG_PAGE: &str = "<html><body><div id=\"wrapper\"><section class=\"main-content\"><div><div class=\"col-md-8\"><section>
<div class=\"thumbnail\"><img src=\" https://i/cover.jpg \"></div>
<div class=\"detail\"><div class=\"content\"> Mo ta </div></div>
<div class=\"description\">
<p>Tên khác: A, B: C</p>
<p>Tác giả: <a href=\"/tac-gia/x\">X</a></p>
<p>Đăng bởi: <a href=\"/u/1\">U</a> Trạng thái: <span class=\"color-red\"> Đang tiến hành </span></p>
<p>Thể loại: <a href=\"/g/1\">G1</a> <a href=\"/g/2\">G2</a></p>
<p>Lượt xem: 100</p>
</div>
</section></div></div></section></div></body></html>";

#[test]
fn blog_comic_information() {
    let (info, fields) = parse_blog_truyen_moi_html_page(BLOG_PAGE);
    assert_eq!(
        format!("{:?}", fields),
        "[Content(Some(\"Mo ta\")), ThumbnailUrl(Some(\"https://i/cover.jpg\")), AnotherName([\"A\", \"B: C\"]), \
Author([(\"X\", \"/tac-gia/x\")]), PostedBy([(\"U\", \"/u/1\")]), Status(\"Đang tiến hành\"), \
Genre([(\"G1\", \"/g/1\"), (\"G2\", \"/g/2\")])]"
    );
    let keys: Vec<&str> = info.iter().map(|(k, _)| k.as_str()).collect();
    assert_eq!(keys, vec!["content", "thumbnail", "anotherName", "author", "postedBy", "status", "genre"]);
    let broken = BLOG_PAGE.replace("<a href=\"/tac-gia/x\">X</a>", "<a>X</a>");
    assert!(try_parse_blog_truyen_moi_html_page(&broken).is_none());
}

const ALYA_PAGE: &str = "<html><body><div id=\"content\"><div>
<div class=\"left-column\"><img src=\"https://a/cover.jpg\"></div>
<div class=\"right-column\"><div><ul>
<li>Alternate Name(s): Roshidere</li>
<li>Author(s): Sunsunsun, Momoco</li>
<li>Genre(s): Comedy, Romance</li>
<li>Status: Ongoing</li>
<li>Description: A story.</li>
</ul></div></div>
</div></div></body></html>";

#[test]
fn alya_comic_information() {
    let (info, fields) = parse_alyasometimeshidesherfeelings_moi_html_page(ALYA_PAGE);
    assert_eq!(
        format!("{:?}", fields),
        "[PythonFetchInfo(true), ThumbnailUrl(Some(\"https://a/cover.jpg\")), AnotherName([\"Roshidere\"]), \
Author([(\"Sunsunsun\", \"\"), (\"Momoco\", \"\")]), Genre([(\"Comedy\", \"\"), (\"Romance\", \"\")]), \
Status(\"Ongoing\"), Content(Some(\"A story.\"))]"
    );
    let keys: Vec<&str> = info.iter().map(|(k, _)| k.as_str()).collect();
    assert_eq!(keys, vec!["thumbnail", "another_name", "author", "genre", "status", "description"]);
}

#[test]
fn mangajuice_comic_information() {
    let page = "<html><body><div id=\"hidden\"><p> Summary </p></div>
<div class=\"manga-cover\"><a href=\"#\"><img src=\"https://m/c.jpg\"></a></div></body></html>";
    let (_, fields) = parse_mangajuice_html_page(page);
    assert_eq!(
        format!("{:?}", fields),
        "[PythonFetchInfo(true), Content(Some(\"Summary\")), ThumbnailUrl(Some(\"https://m/c.jpg\"))]"
    );
}
