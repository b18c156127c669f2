use comic_crawler::util::fetch_page::{fetch_outcome, proxy_config, proxy_skip, referrer_for, FetchOutcome};

#[test]
fn only_blog_hosts_get_a_referrer() {
    assert_eq!(referrer_for("blogtruyenmoi.com"), Some("https://blogtruyenmoi.com/".to_string()));
    assert_eq!(referrer_for("id.blogtruyenmoi.com"), Some("https://id.blogtruyenmoi.com/".to_string()));
    assert_eq!(referrer_for("mangajuice.com"), None);
}

#[test]
fn response_statuses() {
    assert_eq!(fetch_outcome(200), FetchOutcome::Page);
    assert_eq!(fetch_outcome(204), FetchOutcome::Page);
    assert_eq!(fetch_outcome(299), FetchOutcome::Page);
    assert_eq!(fetch_outcome(404), FetchOutcome::NotFound);
    assert_eq!(fetch_outcome(429), FetchOutcome::Failed { rate_limited: true });
    assert_eq!(fetch_outcome(500), FetchOutcome::Failed { rate_limited: false });
    assert_eq!(fetch_outcome(301), FetchOutcome::Failed { rate_limited: false });
    assert_eq!(fetch_outcome(199), FetchOutcome::Failed { rate_limited: false });
}

#[test]
fn proxy_address_is_trimmed_and_credentials_need_both_parts() {
    let p = proxy_config("  http://10.0.0.1:8080 \n", Some("me".to_string()), Some("pw".to_string()));
    assert_eq!(p.url, "http://10.0.0.1:8080");
    assert_eq!(p.auth, Some(("me".to_string(), "pw".to_string())));
    let p = proxy_config("http://p", Some("me".to_string()), None);
    assert_eq!(p.url, "http://p");
    assert_eq!(p.auth, None);
    assert_eq!(proxy_config("http://p", None, Some("pw".to_string())).auth, None);
}

#[test]
fn proxy_pick_lies_below_the_count() {
    assert_eq!(proxy_skip(0), None);
    assert_eq!(proxy_skip(1), Some(0));
    for _ in 0..50 {
        let k = proxy_skip(5).unwrap();
        assert!((0..5).contains(&k));
    }
}
