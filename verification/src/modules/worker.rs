//! The decisions of a crawling worker and of the coordinator.
use vstd::prelude::*;

use crate::db::strings_view;
use crate::modules::{
    accepted_hosts, accepted_hosts_spec, link_outcome_spec, nettruyen_hosts, nettruyen_hosts_spec,
    nettruyenee, try_process_url,
};
use crate::pattern::{captures_all, group_one, groups_view, matches_view, opt_str_view, regex_captures_all};
use crate::modules::chapters::{group_exec, group_of};
use crate::text::{chars_of, contains, contains_spec, eq, lit, member, starts_with, string_of};
use crate::types::thread_message::ThreadMessage;

verus! {

/// Whether a worker fetches the pages of a host: an accepted host outside
/// the NetTruyen family (whose pages are skipped).
pub open spec fn fetches_host(host: Seq<char>) -> bool {
    accepted_hosts_spec().contains(host) && !nettruyen_hosts_spec().contains(host)
}

/// Whether a worker fetches the pages of `hostname`.
pub fn should_fetch(hostname: &str) -> (r: bool)
    ensures
        r == fetches_host(hostname@),
{
    let h = chars_of(hostname);
    if !member(&accepted_hosts(), &h) && !member(&nettruyen_hosts(), &h) {
        return false;
    }
    if member(&nettruyen_hosts(), &h) {
        return false;
    }
    true
}

/// The pages a worker fetches are those of three sites.
pub proof fn law_fetched_hosts(host: Seq<char>)
    requires
        fetches_host(host),
    ensures
        host == "blogtruyenmoi.com"@ || host == "mangajuice.com"@ || host
            == "alyasometimeshidesherfeelings.com"@,
{
    let a = accepted_hosts_spec();
    let n = nettruyen_hosts_spec();
    let k = choose|k: int| 0 <= k < a.len() && a[k] == host;
    assert(n.contains(a[1]));
    assert(n.contains(a[2]));
    assert(n.contains(a[3]));
    assert(n.contains(a[4]));
    assert(n.contains(a[5]));
    assert(n.contains(a[6]));
    assert(n.contains(a[7]));
    assert(n.contains(a[8]));
    assert(n.contains(a[9]));
    assert(n.contains(a[10]));
    assert(0 <= k < 13);
}

/// Every NetTruyen host is an accepted host.
pub proof fn law_nettruyen_hosts_accepted(host: Seq<char>)
    requires
        nettruyen_hosts_spec().contains(host),
    ensures
        accepted_hosts_spec().contains(host),
{
    let a = accepted_hosts_spec();
    let n = nettruyen_hosts_spec();
    let k = choose|k: int| 0 <= k < n.len() && n[k] == host;
    assert(a.contains(a[1]));
    if k == 0 { assert(a[1] == host); }
    else if k == 1 { assert(a[2] == host); }
    else if k == 2 { assert(a[4] == host); }
    else if k == 3 { assert(a[3] == host); }
    else if k == 4 { assert(a[5] == host); }
    else if k == 5 { assert(a[6] == host); }
    else if k == 6 { assert(a[7] == host); }
    else if k == 7 { assert(a[8] == host); }
    else if k == 8 { assert(a[9] == host); }
    else { assert(a[10] == host); }
}

/// What a worker reads on a fetched page.
#[derive(Clone, Copy, PartialEq, Eq, Structural, Debug)]
pub enum PageAction {
    BlogtruyenmoiChapter,
    BlogtruyenmoiComic,
    NettruyenChapter,
    NettruyenComic,
    MangajuiceChapter,
    MangajuiceComic,
    AlyaChapter,
    AlyaComic,
}

/// What a worker reads on the page at `url` of the host `host`, in order.
pub open spec fn page_actions_spec(host: Seq<char>, url: Seq<char>, html: Seq<char>) -> Seq<PageAction> {
    if contains_spec(host, "blogtruyenmoi.com"@) {
        if "https://blogtruyenmoi.com/c"@.is_prefix_of(url) {
            seq![PageAction::BlogtruyenmoiChapter]
        } else if contains_spec(html, "Thêm vào bookmark"@) {
            seq![PageAction::BlogtruyenmoiComic]
        } else {
            Seq::empty()
        }
    } else if contains_spec(host, "nettruyen"@) {
        if nettruyenee::regex_finds(nettruyenee::chapter_page_pattern(), url) {
            seq![PageAction::NettruyenChapter]
        } else if nettruyenee::regex_finds(nettruyenee::comic_page_pattern(), url) {
            seq![PageAction::NettruyenComic]
        } else {
            Seq::empty()
        }
    } else if contains_spec(host, "mangajuice.com"@) {
        if "https://mangajuice.com/chapter"@.is_prefix_of(url) {
            seq![PageAction::MangajuiceChapter]
        } else if contains_spec(url, "https://mangajuice.com/manga"@) {
            seq![PageAction::MangajuiceComic]
        } else {
            Seq::empty()
        }
    } else if contains_spec(host, "alyasometimeshidesherfeelings.com"@) {
        let chapter = if "https://alyasometimeshidesherfeelings.com/manga/"@.is_prefix_of(url) {
            seq![PageAction::AlyaChapter]
        } else {
            Seq::empty()
        };
        let comic = if url == "https://alyasometimeshidesherfeelings.com/"@ {
            seq![PageAction::AlyaComic]
        } else {
            Seq::empty()
        };
        chapter + comic
    } else {
        Seq::empty()
    }
}

fn one(a: PageAction) -> (r: Vec<PageAction>)
    ensures
        r@ == seq![a],
{
    let mut r: Vec<PageAction> = Vec::new();
    r.push(a);
    assert(r@ =~= seq![a]);
    r
}

/// What a worker reads on the fetched page at `url` of the host `hostname`.
pub fn page_actions(hostname: &str, url: &str, html: &str) -> (r: Vec<PageAction>)
    ensures
        r@ == page_actions_spec(hostname@, url@, html@),
{
    let h = chars_of(hostname);
    let u = chars_of(url);
    if contains(&h, &lit("blogtruyenmoi.com")) {
        if starts_with(&u, &lit("https://blogtruyenmoi.com/c")) {
            one(PageAction::BlogtruyenmoiChapter)
        } else if crate::modules::blogtruyenmoi::is_comic_page(html) {
            one(PageAction::BlogtruyenmoiComic)
        } else {
            Vec::new()
        }
    } else if contains(&h, &lit("nettruyen")) {
        if nettruyenee::is_chapter_page(url, html) {
            one(PageAction::NettruyenChapter)
        } else if nettruyenee::is_comic_page(url, html) {
            one(PageAction::NettruyenComic)
        } else {
            Vec::new()
        }
    } else if contains(&h, &lit("mangajuice.com")) {
        if crate::modules::mangajuice::is_chapter_page(url, html) {
            one(PageAction::MangajuiceChapter)
        } else if crate::modules::mangajuice::is_comic_page(url, html) {
            one(PageAction::MangajuiceComic)
        } else {
            Vec::new()
        }
    } else if contains(&h, &lit("alyasometimeshidesherfeelings.com")) {
        let mut r: Vec<PageAction> = Vec::new();
        if crate::modules::alyasometimeshidesherfeelings::is_chapter_page(url, html) {
            r.push(PageAction::AlyaChapter);
        }
        let ghost r0 = r@;
        if crate::modules::alyasometimeshidesherfeelings::is_comic_page(url, html) {
            r.push(PageAction::AlyaComic);
        }
        assert(r@ =~= page_actions_spec(hostname@, url@, html@));
        r
    } else {
        Vec::new()
    }
}

/// What a worker reads on a page: on blogtruyenmoi a chapter when the
/// address is under `/c`, else a comic when the page offers the bookmark
/// button; on mangajuice a chapter when the address is under `/chapter`,
/// else a comic when it holds the manga path; on
/// alyasometimeshidesherfeelings a chapter for an address under `/manga/`
/// and the comic for the home page; nothing on other hosts.
pub proof fn law_page_actions(host: Seq<char>, url: Seq<char>, html: Seq<char>)
    ensures
        contains_spec(host, "blogtruyenmoi.com"@) ==> page_actions_spec(host, url, html) == if "https://blogtruyenmoi.com/c"@.is_prefix_of(url) {
            seq![PageAction::BlogtruyenmoiChapter]
        } else if contains_spec(html, "Thêm vào bookmark"@) {
            seq![PageAction::BlogtruyenmoiComic]
        } else {
            Seq::<PageAction>::empty()
        },
        !contains_spec(host, "blogtruyenmoi.com"@) && !contains_spec(host, "nettruyen"@)
            && contains_spec(host, "mangajuice.com"@) ==> page_actions_spec(host, url, html) == if "https://mangajuice.com/chapter"@.is_prefix_of(url) {
            seq![PageAction::MangajuiceChapter]
        } else if contains_spec(url, "https://mangajuice.com/manga"@) {
            seq![PageAction::MangajuiceComic]
        } else {
            Seq::<PageAction>::empty()
        },
        !contains_spec(host, "blogtruyenmoi.com"@) && !contains_spec(host, "nettruyen"@)
            && !contains_spec(host, "mangajuice.com"@) && contains_spec(host, "alyasometimeshidesherfeelings.com"@)
            ==> page_actions_spec(host, url, html) == (if "https://alyasometimeshidesherfeelings.com/manga/"@.is_prefix_of(url) {
            seq![PageAction::AlyaChapter]
        } else {
            Seq::<PageAction>::empty()
        }) + (if url == "https://alyasometimeshidesherfeelings.com/"@ {
            seq![PageAction::AlyaComic]
        } else {
            Seq::<PageAction>::empty()
        }),
        !contains_spec(host, "blogtruyenmoi.com"@) && !contains_spec(host, "nettruyen"@)
            && !contains_spec(host, "mangajuice.com"@) && !contains_spec(host, "alyasometimeshidesherfeelings.com"@)
            ==> page_actions_spec(host, url, html) == Seq::<PageAction>::empty(),
{
}

/// The pattern of a link of a page.
pub open spec fn href_pattern() -> Seq<char> {
    "href=[\"|']([^\"']+)"@
}

/// The addresses to crawl that the links of the matches give, in order;
/// `None` when a link cannot be handled.
pub open spec fn links_from(ms: Seq<Seq<Option<Seq<char>>>>, page_url: Seq<char>) -> Option<Seq<Seq<char>>>
    decreases ms.len(),
{
    if ms.len() == 0 {
        Some(Seq::empty())
    } else {
        match links_from(ms.drop_last(), page_url) {
            None => None,
            Some(done) => match group_of(ms.last(), 1) {
                None => Some(done),
                Some(link) => match link_outcome_spec(link, page_url) {
                    None => None,
                    Some(None) => Some(done),
                    Some(Some(u)) => Some(done.push(u)),
                },
            },
        }
    }
}

/// The addresses to crawl that the links of a page give, in page order;
/// `None` when one of its links cannot be handled.
pub open spec fn page_links_spec(html: Seq<char>, page_url: Seq<char>) -> Option<Seq<Seq<char>>> {
    match regex_captures_all(href_pattern(), html) {
        None => Some(Seq::empty()),
        Some(ms) => links_from(ms, page_url),
    }
}

proof fn lemma_links_none_after(ms: Seq<Seq<Option<Seq<char>>>>, page_url: Seq<char>, k: int)
    requires
        0 <= k <= ms.len(),
        links_from(ms.take(k), page_url) is None,
    ensures
        links_from(ms, page_url) is None,
    decreases ms.len() - k,
{
    if k < ms.len() {
        assert(ms.take(k + 1).drop_last() =~= ms.take(k));
        lemma_links_none_after(ms, page_url, k + 1);
    } else {
        assert(ms.take(k) =~= ms);
    }
}

/// The addresses to crawl that the links of the page at `page_url` give,
/// in page order; `None` when one of its links cannot be handled.
pub fn page_links(html: &str, page_url: &str) -> (r: Option<Vec<String>>)
    ensures
        match r {
            None => page_links_spec(html@, page_url@) is None,
            Some(v) => page_links_spec(html@, page_url@) == Some(strings_view(v)),
        },
{
    let ms = match captures_all("href=[\"|']([^\"']+)", html) {
        Some(ms) => ms,
        None => {
            let v: Vec<String> = Vec::new();
            assert(strings_view(v) =~= Seq::<Seq<char>>::empty());
            return Some(v);
        },
    };
    let ghost mv = matches_view(ms);
    assert(regex_captures_all(href_pattern(), html@) == Some(mv));
    let mut r: Vec<String> = Vec::new();
    let mut i: usize = 0;
    assert(mv.take(0) =~= Seq::<Seq<Option<Seq<char>>>>::empty());
    assert(strings_view(r) =~= Seq::<Seq<char>>::empty());
    while i < ms.len()
        invariant
            i <= ms@.len(),
            mv == matches_view(ms),
            regex_captures_all(href_pattern(), html@) == Some(mv),
            r@.len() == strings_view(r).len(),
            links_from(mv.take(i as int), page_url@) == Some(strings_view(r)),
        decreases ms@.len() - i,
    {
        assert(mv.take(i + 1).drop_last() =~= mv.take(i as int));
        assert(mv.take(i + 1).last() == groups_view(ms@[i as int]));
        if let Some(link) = group_exec(&ms[i], 1) {
            match try_process_url(link.as_str(), page_url) {
                None => {
                    proof {
                        lemma_links_none_after(mv, page_url@, i + 1);
                    }
                    return None;
                },
                Some(None) => {},
                Some(Some(u)) => {
                    let ghost r0 = r@;
                    let ghost l0 = strings_view(r);
                    r.push(u);
                    assert(r@ == r0.push(u));
                    assert(strings_view(r) =~= l0.push(u@));
                },
            }
        }
        i += 1;
    }
    assert(mv.take(ms@.len() as int) =~= mv);
    Some(r)
}

/// The distinct strings of `s`, each where it first occurs.
pub open spec fn dedup_spec(s: Seq<Seq<char>>) -> Seq<Seq<char>>
    decreases s.len(),
{
    if s.len() == 0 {
        Seq::empty()
    } else {
        let d = dedup_spec(s.drop_last());
        if d.contains(s.last()) {
            d
        } else {
            d.push(s.last())
        }
    }
}

/// The distinct addresses of `v`, each where it first occurs.
pub fn dedup_urls(v: Vec<String>) -> (r: Vec<String>)
    ensures
        strings_view(r) == dedup_spec(strings_view(v)),
{
    let ghost sv = strings_view(v);
    let mut r: Vec<String> = Vec::new();
    let mut seen: Vec<Vec<char>> = Vec::new();
    let mut i: usize = 0;
    assert(sv.take(0) =~= Seq::<Seq<char>>::empty());
    assert(strings_view(r) =~= Seq::<Seq<char>>::empty());
    assert(crate::text::views(seen@) =~= Seq::<Seq<char>>::empty());
    while i < v.len()
        invariant
            i <= v@.len(),
            sv == strings_view(v),
            r@.len() == strings_view(r).len(),
            strings_view(r) == dedup_spec(sv.take(i as int)),
            crate::text::views(seen@) == strings_view(r),
        decreases v@.len() - i,
    {
        assert(sv.take(i + 1).drop_last() =~= sv.take(i as int));
        assert(sv.take(i + 1).last() == v@[i as int]@);
        let c = chars_of(v[i].as_str());
        if !member(&seen, &c) {
            let ghost r0 = r@;
            let ghost l0 = strings_view(r);
            let ghost s0 = seen@;
            r.push(v[i].clone());
            assert(r@ == r0.push(r@.last()));
            assert(strings_view(r) =~= l0.push(c@));
            seen.push(c);
            assert(seen@ == s0.push(seen@.last()));
            assert(crate::text::views(seen@) =~= l0.push(c@));
        }
        i += 1;
    }
    assert(sv.take(v@.len() as int) =~= sv);
    r
}

/// The result of removing duplicates holds no string twice.
pub proof fn law_dedup_no_duplicates(s: Seq<Seq<char>>)
    ensures
        dedup_spec(s).no_duplicates(),
    decreases s.len(),
{
    if s.len() > 0 {
        law_dedup_no_duplicates(s.drop_last());
    }
}

/// Removing duplicates keeps exactly the strings that occur.
pub proof fn law_dedup_same_strings(s: Seq<Seq<char>>, x: Seq<char>)
    ensures
        dedup_spec(s).contains(x) <==> s.contains(x),
    decreases s.len(),
{
    if s.len() > 0 {
        law_dedup_same_strings(s.drop_last(), x);
        if s.drop_last().contains(x) {
            let k = choose|k: int| 0 <= k < s.drop_last().len() && s.drop_last()[k] == x;
            assert(s[k] == x);
        }
        if s.contains(x) && !s.drop_last().contains(x) {
            let k = choose|k: int| 0 <= k < s.len() && s[k] == x;
            if k < s.len() - 1 {
                assert(s.drop_last()[k] == x);
            }
            assert(s.last() == x);
        }
        let d = dedup_spec(s.drop_last());
        if !d.contains(s.last()) {
            assert(d.push(s.last())[d.len() as int] == s.last());
            if d.push(s.last()).contains(x) && !d.contains(x) {
                let k = choose|k: int| 0 <= k < d.len() + 1 && d.push(s.last())[k] == x;
                if k < d.len() {
                    assert(d[k] == x);
                }
            }
            if d.contains(x) {
                let k = choose|k: int| 0 <= k < d.len() && d[k] == x;
                assert(d.push(s.last())[k] == x);
            }
        }
    }
}

/// What a worker does with a message: crawl an address (with its tries so
/// far), leave, or pass the message over.
#[derive(Debug)]
pub enum WorkerJob {
    Crawl(String, i32),
    Exit,
    Ignore,
}

/// What the worker `worker_id` does with the message `msg`.
pub fn next_job(worker_id: usize, msg: ThreadMessage) -> (r: WorkerJob)
    ensures
        match msg {
            ThreadMessage::Start(url, tries) => (r matches WorkerJob::Crawl(u, t) && u@ == url@ && t
                == tries),
            ThreadMessage::Exited(id) => if id == worker_id {
                r matches WorkerJob::Exit
            } else {
                r matches WorkerJob::Ignore
            },
            _ => r matches WorkerJob::Ignore,
        },
{
    match msg {
        ThreadMessage::Start(url, tries) => WorkerJob::Crawl(url, tries),
        ThreadMessage::Exited(id) => if id == worker_id {
            WorkerJob::Exit
        } else {
            WorkerJob::Ignore
        },
        _ => WorkerJob::Ignore,
    }
}

/// The most times an address is tried again before it is marked as failed.
pub open spec fn max_tries() -> i32 {
    10
}

/// What the coordinator does with an address to try again: give it up
/// (mark it fetched and failed), or send it out again with one more try.
#[derive(Debug)]
pub enum RetryAction {
    GiveUp(String),
    Again(String, i32),
}

/// What the coordinator does with an address that was tried `tries` times.
pub fn retry_decision(url: String, tries: i32) -> (r: RetryAction)
    ensures
        tries >= max_tries() ==> (r matches RetryAction::GiveUp(u) && u@ == url@),
        tries < max_tries() ==> (r matches RetryAction::Again(u, t) && u@ == url@ && t == tries + 1
            && t <= max_tries()),
{
    if tries >= 10 {
        RetryAction::GiveUp(url)
    } else {
        RetryAction::Again(url, tries + 1)
    }
}


/// How the crawl of an address ended: its host is skipped, its page was
/// empty, the fetch or the reading of the page failed, or the page gave
/// these addresses to crawl.
#[derive(Debug)]
pub enum CrawlOutcome {
    Skipped,
    EmptyPage,
    Failed,
    Found(Vec<String>),
}

/// The message a worker sends back for the crawl of `url`, tried `tries`
/// times: a failure asks for the address to be tried again; otherwise the
/// crawl is done, with the distinct addresses found, each where it first
/// occurs.
pub fn crawl_reply(url: String, tries: i32, outcome: CrawlOutcome) -> (r: ThreadMessage)
    ensures
        match outcome {
            CrawlOutcome::Failed => (r matches ThreadMessage::Retry(u, t) && u@ == url@ && t == tries),
            CrawlOutcome::Found(v) => (r matches ThreadMessage::Done(found, u, flag) && u@ == url@
                && !flag && strings_view(found) == dedup_spec(strings_view(v))),
            _ => (r matches ThreadMessage::Done(found, u, flag) && u@ == url@ && !flag
                && found@.len() == 0),
        },
{
    match outcome {
        CrawlOutcome::Failed => ThreadMessage::Retry(url, tries),
        CrawlOutcome::Found(v) => ThreadMessage::Done(dedup_urls(v), url, false),
        _ => ThreadMessage::Done(Vec::new(), url, false),
    }
}

} // verus!
