//! Which links of a page are followed, and how.
use vstd::prelude::*;

use crate::pattern::{captures, group_one, group_one_text, opt_str_view, regex_captures};
use crate::text::{
    chars_of, concat, contains, contains_spec, ends_with, is_ws, lit, member, occurs_at, replace,
    replace_spec, starts_with, trim_end_spec, trim_start_spec,
    string_of, trim, trim_spec, views,
};
use crate::util::{get_host, spec_get_host};

pub mod alyasometimeshidesherfeelings;
pub mod blogtruyenmoi;
pub mod chapters;
pub mod comic_info;
pub mod mangajuice;
pub mod nettruyenee;
pub mod pages;
pub mod worker;

use nettruyenee::regex_finds;

verus! {

/// The hosts whose pages are crawled.
pub open spec fn accepted_hosts_spec() -> Seq<Seq<char>> {
    seq![
        "blogtruyenmoi.com"@,
        "nettruyenee.com"@,
        "www.nettruyenee.com"@,
        "www.nettruyenff.com"@,
        "nettruyenff.com"@,
        "nettruyenbb.com"@,
        "www.nettruyenbb.com"@,
        "www.nettruyenvv.com"@,
        "nettruyenvv.com"@,
        "nettruyentt.com"@,
        "www.nettruyentt.com"@,
        "mangajuice.com"@,
        "alyasometimeshidesherfeelings.com"@,
    ]
}

/// The hosts of the NetTruyen family.
pub open spec fn nettruyen_hosts_spec() -> Seq<Seq<char>> {
    seq![
        "nettruyenee.com"@,
        "www.nettruyenee.com"@,
        "nettruyenff.com"@,
        "www.nettruyenff.com"@,
        "nettruyenbb.com"@,
        "www.nettruyenbb.com"@,
        "www.nettruyenvv.com"@,
        "nettruyenvv.com"@,
        "nettruyentt.com"@,
        "www.nettruyentt.com"@,
    ]
}

/// The hosts whose pages are crawled.
pub fn accepted_hosts() -> (r: Vec<Vec<char>>)
    ensures
        views(r@) == accepted_hosts_spec(),
{
    let mut r: Vec<Vec<char>> = Vec::new();
    r.push(lit("blogtruyenmoi.com"));
    r.push(lit("nettruyenee.com"));
    r.push(lit("www.nettruyenee.com"));
    r.push(lit("www.nettruyenff.com"));
    r.push(lit("nettruyenff.com"));
    r.push(lit("nettruyenbb.com"));
    r.push(lit("www.nettruyenbb.com"));
    r.push(lit("www.nettruyenvv.com"));
    r.push(lit("nettruyenvv.com"));
    r.push(lit("nettruyentt.com"));
    r.push(lit("www.nettruyentt.com"));
    r.push(lit("mangajuice.com"));
    r.push(lit("alyasometimeshidesherfeelings.com"));
    assert(views(r@) =~= accepted_hosts_spec());
    r
}

/// The hosts of the NetTruyen family.
pub fn nettruyen_hosts() -> (r: Vec<Vec<char>>)
    ensures
        views(r@) == nettruyen_hosts_spec(),
{
    let mut r: Vec<Vec<char>> = Vec::new();
    r.push(lit("nettruyenee.com"));
    r.push(lit("www.nettruyenee.com"));
    r.push(lit("nettruyenff.com"));
    r.push(lit("www.nettruyenff.com"));
    r.push(lit("nettruyenbb.com"));
    r.push(lit("www.nettruyenbb.com"));
    r.push(lit("www.nettruyenvv.com"));
    r.push(lit("nettruyenvv.com"));
    r.push(lit("nettruyentt.com"));
    r.push(lit("www.nettruyentt.com"));
    assert(views(r@) =~= nettruyen_hosts_spec());
    r
}


/// The pattern of the page number in a "load list page" script link.
pub open spec fn list_page_pattern() -> Seq<char> {
    "LoadListMangaPage\\((\\d+)\\)"@
}

/// The pattern of a comic path on blogtruyenmoi.
pub open spec fn comic_path_pattern() -> Seq<char> {
    "/\\d+/.+"@
}

/// The address of a page of the comic list, without its page number.
pub open spec fn list_page_url_prefix() -> Seq<char> {
    "https://blogtruyenmoi.com/ajax/Search/AjaxLoadListManga?key=tatca&orderBy=3&p="@
}

/// What a link (trimmed) found on a blogtruyenmoi page becomes: `None` where
/// the link cannot be handled (a script link without a page number),
/// `Some(None)` where it is not followed.
pub open spec fn blog_link_outcome(u: Seq<char>) -> Option<Option<Seq<char>>> {
    if "//id.blogtruyenmoi.com"@.is_prefix_of(u) {
        Some(None)
    } else if "#bt-comment"@.is_suffix_of(u) {
        Some(None)
    } else if "/c"@.is_prefix_of(u) {
        Some(Some("https://blogtruyenmoi.com"@ + u))
    } else if "javascript:LoadListMangaPage("@.is_prefix_of(u) {
        match group_one(regex_captures(list_page_pattern(), u)) {
            Some(n) => Some(Some(list_page_url_prefix() + n)),
            None => None,
        }
    } else if "/"@.is_prefix_of(u) {
        if regex_finds(comic_path_pattern(), u) {
            Some(Some(trim_spec("https://blogtruyenmoi.com"@ + u)))
        } else {
            Some(None)
        }
    } else {
        Some(None)
    }
}

/// What a link found on a page of the NetTruyen host `host` becomes.
pub open spec fn nettruyen_link(url: Seq<char>, host: Seq<char>) -> Option<Seq<char>> {
    match spec_get_host(url) {
        None => None,
        Some(url_host) => if !nettruyen_hosts_spec().contains(url_host) {
            None
        } else {
            let u = replace_spec(trim_spec(url), "www."@, ""@);
            if "#nt_listchapter"@.is_suffix_of(u) {
                None
            } else if "#nt_comment"@.is_suffix_of(u) {
                None
            } else if ("https://"@ + host + "/truyen-tranh/"@).is_prefix_of(u) {
                Some(u)
            } else if ("https://"@ + host + "/tim-truyen?page="@).is_prefix_of(u) {
                Some(u)
            } else if regex_finds(nettruyenee::chapter_page_pattern(), u) {
                Some(u)
            } else {
                None
            }
        },
    }
}

/// What a link (trimmed) found on a mangajuice page becomes.
pub open spec fn mangajuice_link(u: Seq<char>) -> Option<Seq<char>> {
    if "https://mangajuice.com/manga"@.is_prefix_of(u) && !"https://mangajuice.com/manga-status/"@.is_prefix_of(u) {
        Some(u)
    } else if "https://mangajuice.com/chapter"@.is_prefix_of(u) && !"/feed/"@.is_suffix_of(u) {
        Some(u)
    } else if "https://mangajuice.com/updates"@.is_prefix_of(u) {
        Some(u)
    } else if "https://mangajuice.com/newest"@.is_prefix_of(u) {
        Some(u)
    } else {
        None
    }
}

/// What a link (trimmed) found on an alyasometimeshidesherfeelings page
/// becomes.
pub open spec fn alya_link(u: Seq<char>) -> Option<Seq<char>> {
    if "/feed/"@.is_suffix_of(u) {
        None
    } else if u == "https://alyasometimeshidesherfeelings.com/"@ {
        Some(u)
    } else if "https://alyasometimeshidesherfeelings.com/manga/"@.is_prefix_of(u) {
        Some(u)
    } else {
        None
    }
}

/// What the link `url`, found on the page at `now_url`, becomes: `None`
/// where it cannot be handled, `Some(None)` where it is not followed,
/// `Some(Some(u))` where `u` is to be crawled.
pub open spec fn link_outcome_spec(url: Seq<char>, now_url: Seq<char>) -> Option<Option<Seq<char>>> {
    match spec_get_host(now_url) {
        None => Some(None),
        Some(host) => if !accepted_hosts_spec().contains(host) {
            Some(None)
        } else if contains_spec(host, "blogtruyenmoi.com"@) {
            blog_link_outcome(trim_spec(url))
        } else if contains_spec(host, "nettruyen"@) {
            Some(nettruyen_link(url, host))
        } else if contains_spec(host, "mangajuice.com"@) {
            Some(mangajuice_link(trim_spec(url)))
        } else if contains_spec(host, "alyasometimeshidesherfeelings.com"@) {
            Some(alya_link(trim_spec(url)))
        } else {
            Some(None)
        },
    }
}

/// Whether `process_url` cannot handle the link.
pub open spec fn process_url_fails(url: Seq<char>, now_url: Seq<char>) -> bool {
    link_outcome_spec(url, now_url) is None
}

/// The address that `process_url` gives for a link it can handle.
pub open spec fn spec_process_url(url: Seq<char>, now_url: Seq<char>) -> Option<Seq<char>> {
    match link_outcome_spec(url, now_url) {
        Some(r) => r,
        None => None,
    }
}

fn opt_string(v: &Vec<char>) -> (r: Option<String>)
    ensures
        opt_str_view(r) == Some(v@),
{
    Some(string_of(v))
}

fn blog_link(u: &Vec<char>) -> (r: Option<Option<String>>)
    ensures
        match r {
            None => blog_link_outcome(u@) is None,
            Some(x) => blog_link_outcome(u@) == Some(opt_str_view(x)),
        },
{
    if starts_with(u, &lit("//id.blogtruyenmoi.com")) {
        return Some(None);
    }
    if ends_with(u, &lit("#bt-comment")) {
        return Some(None);
    }
    if starts_with(u, &lit("/c")) {
        return Some(opt_string(&concat(&lit("https://blogtruyenmoi.com"), u)));
    }
    if starts_with(u, &lit("javascript:LoadListMangaPage(")) {
        let us = string_of(u);
        let caps = captures("LoadListMangaPage\\((\\d+)\\)", us.as_str());
        let page = match group_one_text(caps) {
            Some(p) => p,
            None => return None,
        };
        return Some(
            opt_string(
                &concat(
                    &lit("https://blogtruyenmoi.com/ajax/Search/AjaxLoadListManga?key=tatca&orderBy=3&p="),
                    &chars_of(page.as_str()),
                ),
            ),
        );
    }
    if starts_with(u, &lit("/")) {
        let us = string_of(u);
        match captures("/\\d+/.+", us.as_str()) {
            Some(Some(_)) => {
                return Some(
                    opt_string(&trim(&concat(&lit("https://blogtruyenmoi.com"), u))),
                );
            },
            _ => {
                return Some(None);
            },
        }
    }
    Some(None)
}

fn nettruyen_link_exec(url: &str, host: &Vec<char>) -> (r: Option<String>)
    ensures
        opt_str_view(r) == nettruyen_link(url@, host@),
{
    let url_host = match get_host(url) {
        Some(h) => h,
        None => return None,
    };
    if !member(&nettruyen_hosts(), &chars_of(url_host.as_str())) {
        return None;
    }
    proof {
        reveal_strlit("www.");
    }
    let u = replace(&trim(&chars_of(url)), &lit("www."), &lit(""));
    if ends_with(&u, &lit("#nt_listchapter")) {
        return None;
    }
    if ends_with(&u, &lit("#nt_comment")) {
        return None;
    }
    let mut comic_prefix = concat(&lit("https://"), host);
    crate::text::append(&mut comic_prefix, &lit("/truyen-tranh/"));
    if starts_with(&u, &comic_prefix) {
        return opt_string(&u);
    }
    let mut list_prefix = concat(&lit("https://"), host);
    crate::text::append(&mut list_prefix, &lit("/tim-truyen?page="));
    if starts_with(&u, &list_prefix) {
        return opt_string(&u);
    }
    let us = string_of(&u);
    if nettruyenee::is_chapter_page(us.as_str(), "") {
        return Some(us);
    }
    None
}

fn mangajuice_link_exec(u: &Vec<char>) -> (r: Option<String>)
    ensures
        opt_str_view(r) == mangajuice_link(u@),
{
    if starts_with(u, &lit("https://mangajuice.com/manga")) && !starts_with(
        u,
        &lit("https://mangajuice.com/manga-status/"),
    ) {
        return opt_string(u);
    }
    if starts_with(u, &lit("https://mangajuice.com/chapter")) && !ends_with(u, &lit("/feed/")) {
        return opt_string(u);
    }
    if starts_with(u, &lit("https://mangajuice.com/updates")) {
        return opt_string(u);
    }
    if starts_with(u, &lit("https://mangajuice.com/newest")) {
        return opt_string(u);
    }
    None
}

fn alya_link_exec(u: &Vec<char>) -> (r: Option<String>)
    ensures
        opt_str_view(r) == alya_link(u@),
{
    if ends_with(u, &lit("/feed/")) {
        return None;
    }
    if crate::text::eq(u, &lit("https://alyasometimeshidesherfeelings.com/")) {
        return opt_string(u);
    }
    if starts_with(u, &lit("https://alyasometimeshidesherfeelings.com/manga/")) {
        return opt_string(u);
    }
    None
}

fn link_outcome(url: &str, now_url: &str) -> (r: Option<Option<String>>)
    ensures
        match r {
            None => link_outcome_spec(url@, now_url@) is None,
            Some(x) => link_outcome_spec(url@, now_url@) == Some(opt_str_view(x)),
        },
{
    let host = match get_host(now_url) {
        Some(h) => h,
        None => return Some(None),
    };
    let h = chars_of(host.as_str());
    if !member(&accepted_hosts(), &h) {
        return Some(None);
    }
    if contains(&h, &lit("blogtruyenmoi.com")) {
        blog_link(&trim(&chars_of(url)))
    } else if contains(&h, &lit("nettruyen")) {
        Some(nettruyen_link_exec(url, &h))
    } else if contains(&h, &lit("mangajuice.com")) {
        Some(mangajuice_link_exec(&trim(&chars_of(url))))
    } else if contains(&h, &lit("alyasometimeshidesherfeelings.com")) {
        Some(alya_link_exec(&trim(&chars_of(url))))
    } else {
        Some(None)
    }
}

/// The address to crawl for the link `url` found on the page at `now_url`,
/// or `None` when the link is not followed.
pub fn process_url(url: &str, now_url: &str) -> (r: Option<String>)
    requires
        !process_url_fails(url@, now_url@),
    ensures
        opt_str_view(r) == spec_process_url(url@, now_url@),
{
    match link_outcome(url, now_url) {
        Some(x) => x,
        None => None,
    }
}


/// Whether `process_url` can handle the link `url` found on the page at
/// `now_url` (it cannot handle a script link to a list page that names no
/// page number).
pub fn can_process_url(url: &str, now_url: &str) -> (r: bool)
    ensures
        r == !process_url_fails(url@, now_url@),
{
    link_outcome(url, now_url).is_some()
}

/// `process_url` where it can handle the link: `None` where it cannot,
/// `Some(r)` with its result `r` otherwise.
pub fn try_process_url(url: &str, now_url: &str) -> (r: Option<Option<String>>)
    ensures
        r is None <==> process_url_fails(url@, now_url@),
        r matches Some(x) ==> opt_str_view(x) == spec_process_url(url@, now_url@),
{
    if can_process_url(url, now_url) {
        Some(process_url(url, now_url))
    } else {
        None
    }
}


/// Links are followed only from the pages of accepted hosts.
pub proof fn law_links_from_accepted_hosts(url: Seq<char>, now_url: Seq<char>)
    requires
        spec_process_url(url, now_url) is Some,
    ensures
        spec_get_host(now_url) matches Some(h) && accepted_hosts_spec().contains(h),
{
}

proof fn lemma_prefix_concat(p: Seq<char>, q: Seq<char>, x: Seq<char>)
    requires
        p.is_prefix_of(q),
    ensures
        p.is_prefix_of(q + x),
{
    assert((q + x).subrange(0, p.len() as int) =~= q.subrange(0, p.len() as int));
}

proof fn lemma_prefix_trans(p: Seq<char>, q: Seq<char>, x: Seq<char>)
    requires
        p.is_prefix_of(q),
        q.is_prefix_of(x),
    ensures
        p.is_prefix_of(x),
{
    assert(x.subrange(0, p.len() as int) =~= q.subrange(0, p.len() as int));
}

proof fn lemma_trim_keeps_prefix(p: Seq<char>, s: Seq<char>)
    requires
        p.is_prefix_of(s),
        p.len() < s.len(),
        p.len() > 0,
        !is_ws(p[0]),
        !is_ws(s[p.len() as int]),
    ensures
        p.is_prefix_of(trim_spec(s)),
{
    assert(trim_start_spec(s) == s);
    lemma_trim_end_keeps_prefix(p, s);
}

proof fn lemma_trim_end_keeps_prefix(p: Seq<char>, s: Seq<char>)
    requires
        p.is_prefix_of(s),
        p.len() < s.len(),
        !is_ws(s[p.len() as int]),
    ensures
        p.is_prefix_of(trim_end_spec(s)),
    decreases s.len(),
{
    if s.len() > 0 && is_ws(s.last()) {
        let t = s.drop_last();
        assert(p.len() < t.len());
        assert(t[p.len() as int] == s[p.len() as int]);
        assert(t.subrange(0, p.len() as int) =~= s.subrange(0, p.len() as int));
        lemma_trim_end_keeps_prefix(p, t);
    }
}

proof fn lemma_occurs_chars(s: Seq<char>, p: Seq<char>, i: int)
    requires
        occurs_at(s, p, i),
    ensures
        forall|k: int| 0 <= k < p.len() ==> s[i + k] == #[trigger] p[k],
{
    assert forall|k: int| 0 <= k < p.len() implies s[i + k] == #[trigger] p[k] by {
        assert(s.subrange(i, i + p.len())[k] == s[i + k]);
    }
}

proof fn lemma_occurs_whole(s: Seq<char>)
    ensures
        contains_spec(s, s),
{
    assert(s.subrange(0, s.len() as int) =~= s);
    assert(occurs_at(s, s, 0));
}

/// Links followed from a page of mangajuice, of
/// alyasometimeshidesherfeelings or of blogtruyenmoi stay on that site.
pub proof fn law_links_stay_on_site(url: Seq<char>, now_url: Seq<char>)
    requires
        spec_process_url(url, now_url) is Some,
    ensures
        ({
            let h = spec_get_host(now_url)->0;
            let u = spec_process_url(url, now_url)->0;
            &&& h == "mangajuice.com"@ ==> "https://mangajuice.com/"@.is_prefix_of(u)
            &&& h == "alyasometimeshidesherfeelings.com"@
                ==> "https://alyasometimeshidesherfeelings.com/"@.is_prefix_of(u)
            &&& h == "blogtruyenmoi.com"@ ==> "https://blogtruyenmoi.com"@.is_prefix_of(u)
        }),
{
    reveal_strlit("mangajuice.com");
    reveal_strlit("alyasometimeshidesherfeelings.com");
    reveal_strlit("blogtruyenmoi.com");
    reveal_strlit("nettruyen");
    reveal_strlit("https://mangajuice.com/");
    reveal_strlit("https://mangajuice.com/manga");
    reveal_strlit("https://mangajuice.com/chapter");
    reveal_strlit("https://mangajuice.com/updates");
    reveal_strlit("https://mangajuice.com/newest");
    reveal_strlit("https://alyasometimeshidesherfeelings.com/");
    reveal_strlit("https://alyasometimeshidesherfeelings.com/manga/");
    reveal_strlit("https://blogtruyenmoi.com");
    reveal_strlit("https://blogtruyenmoi.com/ajax/Search/AjaxLoadListManga?key=tatca&orderBy=3&p=");
    reveal_strlit("/");
    reveal_strlit("/c");
    let h = spec_get_host(now_url)->0;
    let u = spec_process_url(url, now_url)->0;
    let t = trim_spec(url);
    if h == "mangajuice.com"@ {
        assert(!contains_spec(h, "blogtruyenmoi.com"@)) by {
            assert forall|i: int| !#[trigger] occurs_at(h, "blogtruyenmoi.com"@, i) by {}
        }
        assert(!contains_spec(h, "nettruyen"@)) by {
            assert forall|i: int| !#[trigger] occurs_at(h, "nettruyen"@, i) by {
                if occurs_at(h, "nettruyen"@, i) {
                    lemma_occurs_chars(h, "nettruyen"@, i);
                    assert("nettruyen"@[0] == 'n');
                    assert("nettruyen"@[1] == 'e');
                    assert(h[i + 0] == 'n');
                    assert(h[i + 1] == 'e');
                }
            }
        }
        lemma_occurs_whole(h);
        let site = "https://mangajuice.com/"@;
        if "https://mangajuice.com/manga"@.is_prefix_of(t) {
            lemma_prefix_trans(site, "https://mangajuice.com/manga"@, t);
        } else if "https://mangajuice.com/chapter"@.is_prefix_of(t) {
            lemma_prefix_trans(site, "https://mangajuice.com/chapter"@, t);
        } else if "https://mangajuice.com/updates"@.is_prefix_of(t) {
            lemma_prefix_trans(site, "https://mangajuice.com/updates"@, t);
        } else if "https://mangajuice.com/newest"@.is_prefix_of(t) {
            lemma_prefix_trans(site, "https://mangajuice.com/newest"@, t);
        }
    } else if h == "alyasometimeshidesherfeelings.com"@ {
        assert(!contains_spec(h, "blogtruyenmoi.com"@)) by {
            assert forall|i: int| !#[trigger] occurs_at(h, "blogtruyenmoi.com"@, i) by {
                if occurs_at(h, "blogtruyenmoi.com"@, i) {
                    lemma_occurs_chars(h, "blogtruyenmoi.com"@, i);
                    assert("blogtruyenmoi.com"@[0] == 'b');
                    assert("blogtruyenmoi.com"@[1] == 'l');
                    assert(h[i + 0] == 'b');
                    assert(h[i + 1] == 'l');
                }
            }
        }
        assert(!contains_spec(h, "nettruyen"@)) by {
            assert forall|i: int| !#[trigger] occurs_at(h, "nettruyen"@, i) by {
                if occurs_at(h, "nettruyen"@, i) {
                    lemma_occurs_chars(h, "nettruyen"@, i);
                    assert("nettruyen"@[0] == 'n');
                    assert("nettruyen"@[1] == 'e');
                    assert(h[i + 0] == 'n');
                    assert(h[i + 1] == 'e');
                }
            }
        }
        assert(!contains_spec(h, "mangajuice.com"@)) by {
            assert forall|i: int| !#[trigger] occurs_at(h, "mangajuice.com"@, i) by {
                if occurs_at(h, "mangajuice.com"@, i) {
                    lemma_occurs_chars(h, "mangajuice.com"@, i);
                    assert("mangajuice.com"@[0] == 'm');
                    assert("mangajuice.com"@[1] == 'a');
                    assert(h[i + 0] == 'm');
                    assert(h[i + 1] == 'a');
                }
            }
        }
        lemma_occurs_whole(h);
        let site = "https://alyasometimeshidesherfeelings.com/"@;
        if "https://alyasometimeshidesherfeelings.com/manga/"@.is_prefix_of(t) {
            lemma_prefix_trans(site, "https://alyasometimeshidesherfeelings.com/manga/"@, t);
        } else if t == site {
            assert(site.subrange(0, site.len() as int) =~= site);
        }
    } else if h == "blogtruyenmoi.com"@ {
        lemma_occurs_whole(h);
        let base = "https://blogtruyenmoi.com"@;
        if "/c"@.is_prefix_of(t) {
            lemma_prefix_concat(base, base, t);
            assert(base.subrange(0, base.len() as int) =~= base);
        } else if "javascript:LoadListMangaPage("@.is_prefix_of(t) {
            let n = group_one(regex_captures(list_page_pattern(), t))->0;
            assert(list_page_url_prefix().subrange(0, base.len() as int) =~= base);
            lemma_prefix_concat(base, list_page_url_prefix(), n);
        } else if "/"@.is_prefix_of(t) {
            let whole = base + t;
            assert(base.subrange(0, base.len() as int) =~= base);
            lemma_prefix_concat(base, base, t);
            assert(whole[base.len() as int] == t[0]);
            assert("/"@[0] == '/');
            assert(t.subrange(0, 1)[0] == t[0]);
            assert(t[0] == '/');
            lemma_trim_keeps_prefix(base, whole);
        }
    }
}


proof fn lemma_trim_end_last(s: Seq<char>)
    ensures
        trim_end_spec(s).len() > 0 ==> !is_ws(trim_end_spec(s).last()),
        trim_end_spec(s).len() <= s.len(),
        trim_end_spec(s).len() > 0 ==> trim_end_spec(s)[0] == s[0],
    decreases s.len(),
{
    if s.len() > 0 && is_ws(s.last()) {
        lemma_trim_end_last(s.drop_last());
    }
}

proof fn lemma_trim_start_first(s: Seq<char>)
    ensures
        trim_start_spec(s).len() > 0 ==> !is_ws(trim_start_spec(s)[0]),
    decreases s.len(),
{
    if s.len() > 0 && is_ws(s[0]) {
        lemma_trim_start_first(s.drop_first());
    }
}

/// A trimmed text, when not empty, neither starts nor ends with white
/// space.
proof fn lemma_trimmed_ends(s: Seq<char>)
    ensures
        trim_spec(s).len() > 0 ==> !is_ws(trim_spec(s)[0]) && !is_ws(trim_spec(s).last()),
{
    lemma_trim_start_first(s);
    lemma_trim_end_last(trim_start_spec(s));
}

/// On a blogtruyenmoi page, a link that is a path (it starts with `/`,
/// once trimmed) other than a chapter link (`/c…`), a login link or a
/// comment anchor is followed exactly when the regex engine finds a comic
/// path `/\d+/.+` (a number between slashes, then more) in it, and it is
/// then followed as "https://blogtruyenmoi.com" followed by the link.
pub proof fn law_blog_comic_paths(url: Seq<char>, now_url: Seq<char>)
    requires
        spec_get_host(now_url) == Some("blogtruyenmoi.com"@),
        "/"@.is_prefix_of(trim_spec(url)),
        !"/c"@.is_prefix_of(trim_spec(url)),
        !"//id.blogtruyenmoi.com"@.is_prefix_of(trim_spec(url)),
        !"#bt-comment"@.is_suffix_of(trim_spec(url)),
    ensures
        spec_process_url(url, now_url) == if regex_captures("/\\d+/.+"@, trim_spec(url)) matches Some(
            Some(_),
        ) {
            Some("https://blogtruyenmoi.com"@ + trim_spec(url))
        } else {
            None::<Seq<char>>
        },
{
    reveal_strlit("/");
    reveal_strlit("javascript:LoadListMangaPage(");
    reveal_strlit("https://blogtruyenmoi.com");
    let h = spec_get_host(now_url)->0;
    let u = trim_spec(url);
    assert(accepted_hosts_spec()[0] == h);
    lemma_occurs_whole(h);
    assert(u.subrange(0, 1)[0] == u[0]);
    assert(u[0] == '/');
    assert(!"javascript:LoadListMangaPage("@.is_prefix_of(u)) by {
        if "javascript:LoadListMangaPage("@.is_prefix_of(u) {
            assert(u.subrange(0, 1)[0] == u[0]);
            assert(u[0] == "javascript:LoadListMangaPage("@[0]);
        }
    }
    let x = "https://blogtruyenmoi.com"@ + u;
    lemma_trimmed_ends(url);
    assert(x[0] == 'h');
    assert(x.last() == u.last());
    assert(trim_start_spec(x) == x);
    assert(trim_end_spec(x) == x);
}


proof fn lemma_mangajuice_host(h: Seq<char>)
    requires
        h == "mangajuice.com"@,
    ensures
        accepted_hosts_spec().contains(h),
        !contains_spec(h, "blogtruyenmoi.com"@),
        !contains_spec(h, "nettruyen"@),
        contains_spec(h, "mangajuice.com"@),
{
    reveal_strlit("mangajuice.com");
    reveal_strlit("blogtruyenmoi.com");
    reveal_strlit("nettruyen");
    assert(accepted_hosts_spec()[11] == h);
    assert(!contains_spec(h, "blogtruyenmoi.com"@)) by {
        assert forall|i: int| !#[trigger] occurs_at(h, "blogtruyenmoi.com"@, i) by {}
    }
    assert(!contains_spec(h, "nettruyen"@)) by {
        assert forall|i: int| !#[trigger] occurs_at(h, "nettruyen"@, i) by {
            if occurs_at(h, "nettruyen"@, i) {
                lemma_occurs_chars(h, "nettruyen"@, i);
                assert("nettruyen"@[0] == 'n');
                assert("nettruyen"@[1] == 'e');
                assert(h[i + 0] == 'n');
                assert(h[i + 1] == 'e');
            }
        }
    }
    lemma_occurs_whole(h);
}

proof fn lemma_alya_host(h: Seq<char>)
    requires
        h == "alyasometimeshidesherfeelings.com"@,
    ensures
        accepted_hosts_spec().contains(h),
        !contains_spec(h, "blogtruyenmoi.com"@),
        !contains_spec(h, "nettruyen"@),
        !contains_spec(h, "mangajuice.com"@),
        contains_spec(h, "alyasometimeshidesherfeelings.com"@),
{
    reveal_strlit("alyasometimeshidesherfeelings.com");
    reveal_strlit("blogtruyenmoi.com");
    reveal_strlit("nettruyen");
    reveal_strlit("mangajuice.com");
    assert(accepted_hosts_spec()[12] == h);
    assert(!contains_spec(h, "blogtruyenmoi.com"@)) by {
        assert forall|i: int| !#[trigger] occurs_at(h, "blogtruyenmoi.com"@, i) by {
            if occurs_at(h, "blogtruyenmoi.com"@, i) {
                lemma_occurs_chars(h, "blogtruyenmoi.com"@, i);
                assert("blogtruyenmoi.com"@[0] == 'b');
                assert("blogtruyenmoi.com"@[1] == 'l');
                assert(h[i + 0] == 'b');
                assert(h[i + 1] == 'l');
            }
        }
    }
    assert(!contains_spec(h, "nettruyen"@)) by {
        assert forall|i: int| !#[trigger] occurs_at(h, "nettruyen"@, i) by {
            if occurs_at(h, "nettruyen"@, i) {
                lemma_occurs_chars(h, "nettruyen"@, i);
                assert("nettruyen"@[0] == 'n');
                assert("nettruyen"@[1] == 'e');
                assert(h[i + 0] == 'n');
                assert(h[i + 1] == 'e');
            }
        }
    }
    assert(!contains_spec(h, "mangajuice.com"@)) by {
        assert forall|i: int| !#[trigger] occurs_at(h, "mangajuice.com"@, i) by {
            if occurs_at(h, "mangajuice.com"@, i) {
                lemma_occurs_chars(h, "mangajuice.com"@, i);
                assert("mangajuice.com"@[0] == 'm');
                assert("mangajuice.com"@[1] == 'a');
                assert(h[i + 0] == 'm');
                assert(h[i + 1] == 'a');
            }
        }
    }
    lemma_occurs_whole(h);
}

/// On a mangajuice page, a link is followed, trimmed, exactly when it is a
/// manga page (other than a manga-status list), a chapter page other than
/// a feed, or the updates or newest lists of mangajuice.
pub proof fn law_mangajuice_links(url: Seq<char>, now_url: Seq<char>)
    requires
        spec_get_host(now_url) == Some("mangajuice.com"@),
    ensures
        ({
            let u = trim_spec(url);
            spec_process_url(url, now_url) == if ("https://mangajuice.com/manga"@.is_prefix_of(u)
                && !"https://mangajuice.com/manga-status/"@.is_prefix_of(u))
                || ("https://mangajuice.com/chapter"@.is_prefix_of(u) && !"/feed/"@.is_suffix_of(u))
                || "https://mangajuice.com/updates"@.is_prefix_of(u)
                || "https://mangajuice.com/newest"@.is_prefix_of(u) {
                Some(u)
            } else {
                None::<Seq<char>>
            }
        }),
{
    lemma_mangajuice_host(spec_get_host(now_url)->0);
}

/// On an alyasometimeshidesherfeelings page, a link is followed, trimmed,
/// exactly when it is the site's home page or a page under its `manga/`
/// path, and no feed.
pub proof fn law_alya_links(url: Seq<char>, now_url: Seq<char>)
    requires
        spec_get_host(now_url) == Some("alyasometimeshidesherfeelings.com"@),
    ensures
        ({
            let u = trim_spec(url);
            spec_process_url(url, now_url) == if !"/feed/"@.is_suffix_of(u) && (u
                == "https://alyasometimeshidesherfeelings.com/"@
                || "https://alyasometimeshidesherfeelings.com/manga/"@.is_prefix_of(u)) {
                Some(u)
            } else {
                None::<Seq<char>>
            }
        }),
{
    lemma_alya_host(spec_get_host(now_url)->0);
}

/// On a blogtruyenmoi page, a chapter link (`/c…`, trimmed) that is no
/// comment anchor is followed as "https://blogtruyenmoi.com" followed by the
/// link; a script link to a page of the comic list is followed as the list
/// address with the page number that the regex engine finds in it (group 1
/// of `LoadListMangaPage\((\d+)\)`), and cannot be handled without one.
pub proof fn law_blog_chapter_and_list_links(url: Seq<char>, now_url: Seq<char>)
    requires
        spec_get_host(now_url) == Some("blogtruyenmoi.com"@),
        !"#bt-comment"@.is_suffix_of(trim_spec(url)),
    ensures
        ({
            let u = trim_spec(url);
            &&& "/c"@.is_prefix_of(u) ==> spec_process_url(url, now_url) == Some(
                "https://blogtruyenmoi.com"@ + u,
            )
            &&& "javascript:LoadListMangaPage("@.is_prefix_of(u) ==> link_outcome_spec(url, now_url)
                == match group_one(regex_captures("LoadListMangaPage\\((\\d+)\\)"@, u)) {
                Some(n) => Some(
                    Some(
                        "https://blogtruyenmoi.com/ajax/Search/AjaxLoadListManga?key=tatca&orderBy=3&p="@
                            + n,
                    ),
                ),
                None => None,
            }
        }),
{
    reveal_strlit("/c");
    reveal_strlit("//id.blogtruyenmoi.com");
    reveal_strlit("javascript:LoadListMangaPage(");
    let h = spec_get_host(now_url)->0;
    let u = trim_spec(url);
    assert(accepted_hosts_spec()[0] == h);
    lemma_occurs_whole(h);
    if "/c"@.is_prefix_of(u) {
        assert(u.subrange(0, 2)[1] == u[1]);
        assert(!"//id.blogtruyenmoi.com"@.is_prefix_of(u)) by {
            if "//id.blogtruyenmoi.com"@.is_prefix_of(u) {
                assert(u.subrange(0, 22)[1] == u[1]);
            }
        }
    }
    if "javascript:LoadListMangaPage("@.is_prefix_of(u) {
        assert(u.subrange(0, 29)[0] == u[0]);
        assert(!"//id.blogtruyenmoi.com"@.is_prefix_of(u)) by {
            if "//id.blogtruyenmoi.com"@.is_prefix_of(u) {
                assert(u.subrange(0, 22)[0] == u[0]);
            }
        }
        assert(!"/c"@.is_prefix_of(u)) by {
            if "/c"@.is_prefix_of(u) {
                assert(u.subrange(0, 2)[0] == u[0]);
            }
        }
    }
}

} // verus!
