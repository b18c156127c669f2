//! Regular expressions, through the `regex` crate.
use vstd::prelude::*;

verus! {

/// The view of the groups of one match: a group that took part in the match
/// holds its text.
pub open spec fn groups_view(g: Vec<Option<String>>) -> Seq<Option<Seq<char>>> {
    g@.map_values(|o: Option<String>| opt_str_view(o))
}

pub open spec fn opt_str_view(o: Option<String>) -> Option<Seq<char>> {
    match o {
        Some(s) => Some(s@),
        None => None,
    }
}

/// What `Regex::new(pattern)` followed by `captures(text)` gives: `None`
/// when the pattern does not compile, `Some(None)` when nothing matches, and
/// otherwise the groups of the leftmost-first match (group 0 is the whole
/// match).
pub uninterp spec fn regex_captures(pattern: Seq<char>, text: Seq<char>) -> Option<
    Option<Seq<Option<Seq<char>>>>,
>;

/// What `Regex::new(pattern)` followed by `captures_iter(text)` gives: `None`
/// when the pattern does not compile, and otherwise the groups of each
/// successive non-overlapping match.
pub uninterp spec fn regex_captures_all(pattern: Seq<char>, text: Seq<char>) -> Option<
    Seq<Seq<Option<Seq<char>>>>,
>;

/// What `Regex::new(pattern)` followed by `replace_all(text, replacement)`
/// gives: `None` when the pattern does not compile.
pub uninterp spec fn regex_replace_all(
    pattern: Seq<char>,
    text: Seq<char>,
    replacement: Seq<char>,
) -> Option<Seq<char>>;

pub open spec fn opt_groups_view(r: Option<Option<Vec<Option<String>>>>) -> Option<
    Option<Seq<Option<Seq<char>>>>,
> {
    match r {
        None => None,
        Some(None) => Some(None),
        Some(Some(g)) => Some(Some(groups_view(g))),
    }
}

/// The views of the groups of successive matches.
pub open spec fn matches_view(v: Vec<Vec<Option<String>>>) -> Seq<Seq<Option<Seq<char>>>> {
    v@.map_values(|g: Vec<Option<String>>| groups_view(g))
}

pub open spec fn all_groups_view(r: Option<Vec<Vec<Option<String>>>>) -> Option<
    Seq<Seq<Option<Seq<char>>>>,
> {
    match r {
        None => None,
        Some(v) => Some(matches_view(v)),
    }
}

/// Group 1 of a match, when the pattern matched and the group took part.
pub open spec fn group_one(caps: Option<Option<Seq<Option<Seq<char>>>>>) -> Option<Seq<char>> {
    match caps {
        Some(Some(g)) => if g.len() > 1 {
            g[1]
        } else {
            None
        },
        _ => None,
    }
}

/// Group 1 of a match, when the pattern matched and the group took part.
pub fn group_one_text(caps: Option<Option<Vec<Option<String>>>>) -> (r: Option<String>)
    ensures
        opt_str_view(r) == group_one(opt_groups_view(caps)),
{
    match caps {
        Some(Some(g)) => {
            if g.len() > 1 {
                match &g[1] {
                    Some(h) => Some(h.clone()),
                    None => None,
                }
            } else {
                None
            }
        },
        _ => None,
    }
}

/// Calls `regex::Regex::new` and then `Regex::captures`. Trusted to give
/// `regex_captures(pattern, text)`, and, as the crate documents, a match
/// that always holds group 0.
#[verifier::external_body]
pub(crate) fn captures(pattern: &str, text: &str) -> (r: Option<Option<Vec<Option<String>>>>)
    ensures
        opt_groups_view(r) == regex_captures(pattern@, text@),
        r matches Some(Some(g)) ==> g@.len() >= 1 && g@[0] is Some,
{
    let re = regex::Regex::new(pattern).ok()?;
    Some(re.captures(text).map(|c| c.iter().map(|m| m.map(|m| m.as_str().to_string())).collect()))
}

/// Calls `regex::Regex::new` and then `Regex::captures_iter`, collecting the
/// groups of every match. Trusted to give `regex_captures_all(pattern, text)`,
/// each match holding group 0.
#[verifier::external_body]
pub(crate) fn captures_all(pattern: &str, text: &str) -> (r: Option<Vec<Vec<Option<String>>>>)
    ensures
        all_groups_view(r) == regex_captures_all(pattern@, text@),
        r matches Some(v) ==> forall|i: int|
            0 <= i < v@.len() ==> #[trigger] v@[i]@.len() >= 1 && v@[i]@[0] is Some,
{
    let re = regex::Regex::new(pattern).ok()?;
    Some(
        re.captures_iter(text).map(
            |c| c.iter().map(|m| m.map(|m| m.as_str().to_string())).collect(),
        ).collect(),
    )
}

/// Calls `regex::Regex::new` and then `Regex::replace_all`. Trusted to give
/// `regex_replace_all(pattern, text, replacement)`.
#[verifier::external_body]
pub(crate) fn replace_all(pattern: &str, text: &str, replacement: &str) -> (r: Option<String>)
    ensures
        opt_str_view(r) == regex_replace_all(pattern@, text@, replacement@),
{
    let re = regex::Regex::new(pattern).ok()?;
    Some(re.replace_all(text, replacement).into_owned())
}

} // verus!
