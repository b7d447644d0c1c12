//! Regular-expression checks used by source plugins and category rules,
//! through the `regex` crate. Patterns are kept as strings; each check
//! compiles its pattern anew.

use vstd::prelude::*;

use regex::Regex;

use crate::model::opt_view;

verus! {

/// The error message `regex::Regex::new` gives for `pattern`, or `None`
/// when the pattern compiles.
pub uninterp spec fn spec_regex_error(pattern: Seq<char>) -> Option<Seq<char>>;

/// Whether `pattern` compiles and matches somewhere in `text`.
pub uninterp spec fn spec_regex_is_match(pattern: Seq<char>, text: Seq<char>) -> bool;

/// The capture groups of the first match of `pattern` in `text`, as
/// `Captures::iter` lists them (group 0, the whole match, first; `None`
/// for a group that took no part); `None` when there is no match or the
/// pattern does not compile.
pub uninterp spec fn spec_regex_groups(pattern: Seq<char>, text: Seq<char>) -> Option<Seq<Option<Seq<char>>>>;

/// The first capture group of the first match of `pattern` in `text`
/// when that group took part in the match, else the whole match; `None`
/// when there is no match or the pattern does not compile.
pub open spec fn spec_regex_capture(pattern: Seq<char>, text: Seq<char>) -> Option<Seq<char>> {
    match spec_regex_groups(pattern, text) {
        Some(gs) => if gs.len() > 1 && gs[1] is Some {
            gs[1]
        } else if gs.len() > 0 {
            gs[0]
        } else {
            None
        },
        None => None,
    }
}

/// The texts of a list of optional groups.
pub open spec fn groups_view(gs: Seq<Option<String>>) -> Seq<Option<Seq<char>>> {
    gs.map_values(|g: Option<String>| opt_view(g))
}

/// The text captured by the group named `group` in the leftmost match of
/// `pattern` in `text`; `None` when there is no match, the group took no
/// part in it, or the pattern does not compile.
pub uninterp spec fn spec_regex_named(pattern: Seq<char>, group: Seq<char>, text: Seq<char>) -> Option<Seq<char>>;

/// The names of the capture groups of `pattern`, as `capture_names`
/// lists them (`None` for an unnamed group, group 0 first); `None` when
/// the pattern does not compile.
pub uninterp spec fn spec_regex_group_names(pattern: Seq<char>) -> Option<Seq<Option<Seq<char>>>>;

/// Whether `pattern` compiles and declares a capture group named `group`.
pub open spec fn spec_regex_has_group(pattern: Seq<char>, group: Seq<char>) -> bool {
    match spec_regex_group_names(pattern) {
        Some(names) => names.contains(Some(group)),
        None => false,
    }
}

/// Whether `pattern` compiles.
pub open spec fn regex_valid(pattern: Seq<char>) -> bool {
    spec_regex_error(pattern) is None
}

/// Compiles `pattern` with `Regex::new`, returning the error's display text
/// when it fails.
#[verifier::external_body]
pub(crate) fn regex_error(pattern: &str) -> (r: Option<String>)
    ensures
        match r {
            Some(e) => spec_regex_error(pattern@) == Some(e@),
            None => spec_regex_error(pattern@) is None,
        },
{
    match Regex::new(pattern) {
        Ok(_) => None,
        Err(e) => Some(e.to_string()),
    }
}

/// `Regex::new(pattern)` then `is_match(text)`; `false` when the pattern
/// does not compile.
#[verifier::external_body]
pub(crate) fn regex_is_match(pattern: &str, text: &str) -> (r: bool)
    ensures
        r == spec_regex_is_match(pattern@, text@),
        !regex_valid(pattern@) ==> !r,
{
    match Regex::new(pattern) {
        Ok(re) => re.is_match(text),
        Err(_) => false,
    }
}

/// `Regex::new(pattern)` then `captures(text)`, each group of the match
/// converted to an owned string, in the order `Captures::iter` yields them.
/// Its documentation guarantees group 0 (the whole match) is always
/// present in a match.
#[verifier::external_body]
fn regex_groups(pattern: &str, text: &str) -> (r: Option<Vec<Option<String>>>)
    ensures
        match r {
            Some(gs) => spec_regex_groups(pattern@, text@) == Some(groups_view(gs@)) && gs@.len() >= 1
                && gs@[0] is Some,
            None => spec_regex_groups(pattern@, text@) is None,
        },
        !regex_valid(pattern@) ==> r is None,
{
    match Regex::new(pattern) {
        Ok(re) => re.captures(text).map(|c| c.iter().map(|m| m.map(|m| m.as_str().to_string())).collect()),
        Err(_) => None,
    }
}

/// The first capture group of the first match of `pattern` in `text`, or
/// the whole match when that group did not take part (or the pattern has
/// no groups).
pub(crate) fn regex_capture(pattern: &str, text: &str) -> (r: Option<String>)
    ensures
        match r {
            Some(c) => spec_regex_capture(pattern@, text@) == Some(c@),
            None => spec_regex_capture(pattern@, text@) is None,
        },
        !regex_valid(pattern@) ==> r is None,
{
    match regex_groups(pattern, text) {
        None => None,
        Some(gs) => {
            proof {
                assert(groups_view(gs@)[0] == opt_view(gs@[0]));
            }
            if gs.len() > 1 {
                proof {
                    assert(groups_view(gs@)[1] == opt_view(gs@[1]));
                }
                if let Some(g) = &gs[1] {
                    return Some(g.clone());
                }
            }
            match &gs[0] {
                Some(g) => Some(g.clone()),
                None => None,
            }
        },
    }
}

/// `Regex::new(pattern)` then `captures(text)` and `name(group)`.
#[verifier::external_body]
pub(crate) fn regex_named(pattern: &str, group: &str, text: &str) -> (r: Option<String>)
    ensures
        match r {
            Some(c) => spec_regex_named(pattern@, group@, text@) == Some(c@),
            None => spec_regex_named(pattern@, group@, text@) is None,
        },
{
    match Regex::new(pattern) {
        Ok(re) => re.captures(text).and_then(|c| c.name(group)).map(|m| m.as_str().to_string()),
        Err(_) => None,
    }
}

/// `Regex::new(pattern)` then `capture_names()`, each name converted to
/// an owned string.
#[verifier::external_body]
fn regex_group_names(pattern: &str) -> (r: Option<Vec<Option<String>>>)
    ensures
        match r {
            Some(ns) => spec_regex_group_names(pattern@) == Some(groups_view(ns@)),
            None => spec_regex_group_names(pattern@) is None,
        },
        regex_valid(pattern@) <==> r is Some,
{
    match Regex::new(pattern) {
        Ok(re) => Some(re.capture_names().map(|n| n.map(|n| n.to_string())).collect()),
        Err(_) => None,
    }
}

/// Whether `pattern` compiles and declares a capture group named `group`.
pub(crate) fn regex_has_group(pattern: &str, group: &str) -> (r: bool)
    ensures
        r == spec_regex_has_group(pattern@, group@),
        !regex_valid(pattern@) ==> !r,
{
    match regex_group_names(pattern) {
        None => false,
        Some(names) => {
            let ghost view = groups_view(names@);
            let mut i: usize = 0;
            while i < names.len()
                invariant
                    i <= names@.len(),
                    view == groups_view(names@),
                    spec_regex_group_names(pattern@) == Some(view),
                    regex_valid(pattern@),
                    forall|j: int| 0 <= j < i ==> view[j] != Some(group@),
                decreases names@.len() - i,
            {
                let hit = match &names[i] {
                    Some(n) => crate::text::str_eq(n.as_str(), group),
                    None => false,
                };
                proof {
                    assert(view[i as int] == opt_view(names@[i as int]));
                }
                if hit {
                    proof {
                        assert(view.contains(Some(group@)));
                    }
                    return true;
                }
                i = i + 1;
            }
            proof {
                if view.contains(Some(group@)) {
                    let j = choose|j: int| 0 <= j < view.len() && view[j] == Some(group@);
                    assert(view[j] != Some(group@));
                }
            }
            false
        },
    }
}

} // verus!
