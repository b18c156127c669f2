use comic_crawler::modules::worker::{
    crawl_reply, dedup_urls, next_job, page_actions, page_links, retry_decision, should_fetch,
    CrawlOutcome, PageAction, RetryAction, WorkerJob,
};
use comic_crawler::types::thread_message::ThreadMessage;

fn strings(v: &[&str]) -> Vec<String> {
    v.iter().map(|s| s.to_string()).collect()
}

#[test]
fn only_three_sites_are_fetched() {
    assert!(should_fetch("blogtruyenmoi.com"));
    assert!(should_fetch("mangajuice.com"));
    assert!(should_fetch("alyasometimeshidesherfeelings.com"));
    assert!(!should_fetch("nettruyenee.com"));
    assert!(!should_fetch("www.nettruyenff.com"));
    assert!(!should_fetch("example.com"));
    assert!(!should_fetch(""));
}

#[test]
fn blog_pages_are_told_apart() {
    assert_eq!(
        page_actions("blogtruyenmoi.com", "https://blogtruyenmoi.com/c123/chap-1", ""),
        vec![PageAction::BlogtruyenmoiChapter]
    );
    assert_eq!(
        page_actions("blogtruyenmoi.com", "https://blogtruyenmoi.com/34464/x", "<a>Thêm vào bookmark</a>"),
        vec![PageAction::BlogtruyenmoiComic]
    );
    assert_eq!(page_actions("blogtruyenmoi.com", "https://blogtruyenmoi.com/34464/x", "<p></p>"), vec![]);
}

#[test]
fn nettruyen_pages_are_told_apart() {
    assert_eq!(
        page_actions("nettruyenee.com", "https://nettruyenee.com/truyen-tranh/abc/chap-1/99", ""),
        vec![PageAction::NettruyenChapter]
    );
    assert_eq!(
        page_actions("nettruyenee.com", "https://nettruyenee.com/truyen-tranh/abc-107900", ""),
        vec![PageAction::NettruyenComic]
    );
    assert_eq!(page_actions("nettruyenee.com", "https://nettruyenee.com/tim-truyen?page=2", ""), vec![]);
}

#[test]
fn mangajuice_pages_are_told_apart() {
    assert_eq!(
        page_actions("mangajuice.com", "https://mangajuice.com/chapter/ragna-crimson-chapter-1/", ""),
        vec![PageAction::MangajuiceChapter]
    );
    assert_eq!(
        page_actions("mangajuice.com", "https://mangajuice.com/manga/ragna-crimson/", ""),
        vec![PageAction::MangajuiceComic]
    );
    assert_eq!(page_actions("mangajuice.com", "https://mangajuice.com/updates/", ""), vec![]);
}

#[test]
fn alya_pages_are_told_apart() {
    assert_eq!(
        page_actions(
            "alyasometimeshidesherfeelings.com",
            "https://alyasometimeshidesherfeelings.com/manga/chapter-5/",
            ""
        ),
        vec![PageAction::AlyaChapter]
    );
    assert_eq!(
        page_actions("alyasometimeshidesherfeelings.com", "https://alyasometimeshidesherfeelings.com/", ""),
        vec![PageAction::AlyaComic]
    );
    assert_eq!(page_actions("example.com", "https://example.com/", ""), vec![]);
}

#[test]
fn links_of_a_page_in_order() {
    let html = r#"<a href="/c1/chap-1">1</a><a href='/34464/kiyota'>k</a><a href="/tim-kiem">s</a><a href="/c1/chap-1">again</a>"#;
    assert_eq!(
        page_links(html, "https://blogtruyenmoi.com/33534/x"),
        Some(strings(&[
            "https://blogtruyenmoi.com/c1/chap-1",
            "https://blogtruyenmoi.com/34464/kiyota",
            "https://blogtruyenmoi.com/c1/chap-1",
        ]))
    );
    assert_eq!(page_links("<p>no links</p>", "https://blogtruyenmoi.com/"), Some(vec![]));
}

#[test]
fn a_page_with_an_unreadable_list_link_cannot_be_handled() {
    let html = r#"<a href="javascript:LoadListMangaPage(x)">next</a>"#;
    assert_eq!(page_links(html, "https://blogtruyenmoi.com/"), None);
}

#[test]
fn duplicates_are_removed_keeping_first_occurrences() {
    assert_eq!(
        dedup_urls(strings(&["b", "a", "b", "c", "a"])),
        strings(&["b", "a", "c"])
    );
    assert_eq!(dedup_urls(vec![]), Vec::<String>::new());
}

#[test]
fn worker_jobs() {
    assert!(matches!(
        next_job(3, ThreadMessage::Start("u".to_string(), 2)),
        WorkerJob::Crawl(u, 2) if u == "u"
    ));
    assert!(matches!(next_job(3, ThreadMessage::Exited(3)), WorkerJob::Exit));
    assert!(matches!(next_job(3, ThreadMessage::Exited(4)), WorkerJob::Ignore));
    assert!(matches!(next_job(3, ThreadMessage::Stop(3)), WorkerJob::Ignore));
}

#[test]
fn retries_stop_at_ten() {
    assert!(matches!(retry_decision("u".to_string(), 0), RetryAction::Again(u, 1) if u == "u"));
    assert!(matches!(retry_decision("u".to_string(), 9), RetryAction::Again(_, 10)));
    assert!(matches!(retry_decision("u".to_string(), 10), RetryAction::GiveUp(u) if u == "u"));
    assert!(matches!(retry_decision("u".to_string(), 42), RetryAction::GiveUp(_)));
}

#[test]
fn replies_of_a_worker() {
    assert!(matches!(
        crawl_reply("u".to_string(), 4, CrawlOutcome::Failed),
        ThreadMessage::Retry(u, 4) if u == "u"
    ));
    assert!(matches!(
        crawl_reply("u".to_string(), 4, CrawlOutcome::Skipped),
        ThreadMessage::Done(v, u, false) if v.is_empty() && u == "u"
    ));
    assert!(matches!(
        crawl_reply("u".to_string(), 0, CrawlOutcome::EmptyPage),
        ThreadMessage::Done(v, _, false) if v.is_empty()
    ));
    match crawl_reply("u".to_string(), 0, CrawlOutcome::Found(strings(&["x", "y", "x"]))) {
        ThreadMessage::Done(v, u, flag) => {
            assert_eq!(v, strings(&["x", "y"]));
            assert_eq!(u, "u");
            assert!(!flag);
        }
        other => panic!("unexpected reply {:?}", other),
    }
}

#[test]
fn every_nettruyen_host_is_accepted() {
    let accepted = comic_crawler::modules::accepted_hosts();
    let family = comic_crawler::modules::nettruyen_hosts();
    assert_eq!(family.len(), 10);
    for h in &family {
        assert!(accepted.contains(h));
    }
}
