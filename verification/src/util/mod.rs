//! URL helpers.
pub mod fetch_page;
use vstd::prelude::*;

use crate::pattern::{captures, opt_groups_view, opt_str_view, regex_captures, regex_replace_all, replace_all};

verus! {

/// The pattern whose first group is the host of an `http(s)` URL.
pub open spec fn host_pattern() -> Seq<char> {
    "https?://([^/]+)"@
}

/// Group 1 of a match, when there is one.
pub open spec fn host_of(caps: Option<Option<Seq<Option<Seq<char>>>>>) -> Option<Seq<char>> {
    match caps {
        Some(Some(g)) => if g.len() > 1 {
            g[1]
        } else {
            None
        },
        _ => None,
    }
}

/// The host that `get_host` finds in a URL.
pub open spec fn spec_get_host(url: Seq<char>) -> Option<Seq<char>> {
    host_of(regex_captures(host_pattern(), url))
}

/// The host named by the result of matching the host pattern.
pub fn host_from_captures(caps: Option<Option<Vec<Option<String>>>>) -> (r: Option<String>)
    ensures
        opt_str_view(r) == host_of(opt_groups_view(caps)),
{
    match caps {
        Some(Some(g)) => {
            if g.len() > 1 {
                match &g[1] {
                    Some(h) => Some(h.clone()),
                    None => None,
                }
            } else {
                None
            }
        },
        _ => None,
    }
}

/// The host of the first `http://` or `https://` URL in `url`.
pub fn get_host(url: &str) -> (r: Option<String>)
    ensures
        opt_str_view(r) == spec_get_host(url@),
{
    host_from_captures(captures("https?://([^/]+)", url))
}

/// The pattern of the storage addresses that an uploaded image is given.
pub open spec fn upload_store_pattern() -> Seq<char> {
    "https://.*?.amazonaws\\.com/www\\.guilded\\.gg/"@
}

/// The address under which an uploaded image is served.
pub open spec fn cdn_prefix() -> Seq<char> {
    "https://cdn.gilcdn.com/"@
}

/// The CDN address of an uploaded image: every storage address prefix in
/// `url` replaced by the CDN prefix. `None` only when the pattern is refused
/// by the regex engine.
pub fn cdn_url(url: &str) -> (r: Option<String>)
    ensures
        opt_str_view(r) == regex_replace_all(upload_store_pattern(), url@, cdn_prefix()),
{
    replace_all("https://.*?.amazonaws\\.com/www\\.guilded\\.gg/", url, "https://cdn.gilcdn.com/")
}

} // verus!
