//! Decisions around fetching a page: headers, proxies and response status.
use vstd::prelude::*;

use crate::pattern::opt_str_view;
use crate::text::{chars_of, concat, contains, contains_spec, lit, string_of, trim, trim_spec};

verus! {

/// The `Referrer` header sent with a request to `hostname`: only
/// blogtruyenmoi hosts get one, their home page address.
pub open spec fn referrer_spec(hostname: Seq<char>) -> Option<Seq<char>> {
    if contains_spec(hostname, "blogtruyenmoi.com"@) {
        Some("https://"@ + hostname + "/"@)
    } else {
        None
    }
}

/// The `Referrer` header sent with a request to `hostname`.
pub fn referrer_for(hostname: &str) -> (r: Option<String>)
    ensures
        opt_str_view(r) == referrer_spec(hostname@),
{
    let h = chars_of(hostname);
    if contains(&h, &lit("blogtruyenmoi.com")) {
        let mut v = concat(&lit("https://"), &h);
        crate::text::append(&mut v, &lit("/"));
        Some(string_of(&v))
    } else {
        None
    }
}

/// What a response status means for a crawl.
#[derive(Clone, Copy, PartialEq, Eq, Structural, Debug)]
pub enum FetchOutcome {
    /// A success: the body is the page.
    Page,
    /// The page does not exist: the address is marked fetched and the page
    /// is empty.
    NotFound,
    /// A failure; `rate_limited` when the server asks to slow down, in which
    /// case the worker waits five seconds before reporting it.
    Failed { rate_limited: bool },
}

/// What the response status `status` means for a crawl: a success status
/// (200 to 299) gives the page, 404 an empty page, any other a failure.
pub fn fetch_outcome(status: u16) -> (r: FetchOutcome)
    ensures
        200 <= status < 300 ==> r == FetchOutcome::Page,
        status == 404 ==> r == FetchOutcome::NotFound,
        !(200 <= status < 300) && status != 404 ==> r == (FetchOutcome::Failed {
            rate_limited: status == 429,
        }),
{
    if 200 <= status && status < 300 {
        FetchOutcome::Page
    } else if status == 404 {
        FetchOutcome::NotFound
    } else {
        FetchOutcome::Failed { rate_limited: status == 429 }
    }
}

/// How to reach a proxy: its address, trimmed, and the credentials to give
/// when both a user name and a password are stored.
pub struct ProxyConfig {
    pub url: String,
    pub auth: Option<(String, String)>,
}

/// How to reach the stored proxy at `url`.
pub fn proxy_config(url: &str, username: Option<String>, password: Option<String>) -> (r: ProxyConfig)
    ensures
        r.url@ == trim_spec(url@),
        match (username, password) {
            (Some(u), Some(p)) => r.auth matches Some(a) && a.0@ == u@ && a.1@ == p@,
            _ => r.auth is None,
        },
{
    let auth = match (username, password) {
        (Some(u), Some(p)) => Some((u, p)),
        _ => None,
    };
    ProxyConfig { url: string_of(&trim(&chars_of(url))), auth }
}

/// A number drawn at random below `n` (`rand::thread_rng().gen_range`).
/// Trusted only to lie in `0..n`.
#[verifier::external_body]
fn random_below(n: i64) -> (r: i64)
    requires
        n > 0,
    ensures
        0 <= r < n,
{
    rand::Rng::gen_range(&mut rand::thread_rng(), 0..n)
}

/// How many stored proxies to skip to pick one at random among `count`:
/// `None` when there is none, otherwise a number below `count`.
pub fn proxy_skip(count: i64) -> (r: Option<i64>)
    requires
        count >= 0,
    ensures
        count == 0 ==> r is None,
        count > 0 ==> (r matches Some(k) && 0 <= k < count),
{
    if count == 0 {
        return None;
    }
    let mut skip = random_below(count);
    if skip == count && skip != 0 {
        skip = skip - 1;
    }
    Some(skip)
}

} // verus!
