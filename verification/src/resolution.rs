//! Decision logic for the resolution-wait workflow: ranking resolutions
//! against the fallback preference list, picking the best available
//! variant (preferring the favourite download method), deciding whether a
//! re-release is worth surfacing, and matching a series' title against
//! declarative rules to seed its category.

use vstd::prelude::*;

use crate::config::{defines_category, CategoryDef, Rule, VersionMode};
use crate::model::{DownloadMethod, Release};
use crate::regexes::{regex_is_match, spec_regex_is_match};
use crate::text::str_eq;

verus! {

/// The position of `resolution` in `fallback`, or `fallback`'s length when
/// it is not listed.
pub open spec fn rank(resolution: Seq<char>, fallback: Seq<String>) -> nat
    decreases fallback.len(),
{
    if fallback.len() == 0 {
        0
    } else if fallback[0]@ == resolution {
        0
    } else {
        1 + rank(resolution, fallback.drop_first())
    }
}

/// The rank is the index of the first listed entry equal to `resolution`,
/// or the list's length when there is none.
pub proof fn lemma_rank(resolution: Seq<char>, fallback: Seq<String>)
    ensures
        rank(resolution, fallback) <= fallback.len(),
        rank(resolution, fallback) < fallback.len() ==> fallback[rank(resolution, fallback) as int]@
            == resolution,
        forall|j: int| 0 <= j < rank(resolution, fallback) ==> fallback[j]@ != resolution,
    decreases fallback.len(),
{
    if fallback.len() > 0 && fallback[0]@ != resolution {
        lemma_rank(resolution, fallback.drop_first());
        assert forall|j: int| 0 <= j < rank(resolution, fallback) implies fallback[j]@ != resolution by {
            if j > 0 {
                assert(fallback[j] == fallback.drop_first()[j - 1]);
            }
        }
    }
}

/// A rank is determined by the first matching position.
proof fn lemma_rank_is(resolution: Seq<char>, fallback: Seq<String>, k: int)
    requires
        0 <= k <= fallback.len(),
        forall|j: int| 0 <= j < k ==> fallback[j]@ != resolution,
        k < fallback.len() ==> fallback[k]@ == resolution,
    ensures
        rank(resolution, fallback) == k,
    decreases fallback.len(),
{
    if fallback.len() > 0 && k > 0 {
        assert forall|j: int| 0 <= j < k - 1 implies fallback.drop_first()[j]@ != resolution by {
            assert(fallback.drop_first()[j] == fallback[j + 1]);
        }
        lemma_rank_is(resolution, fallback.drop_first(), k - 1);
    }
}

/// Ranks `resolution` against `fallback`'s preference order: lower is
/// better (0 = most preferred). A resolution absent from `fallback` ranks
/// after every listed one.
pub fn rank_resolution(resolution: &str, fallback: &[String]) -> (r: usize)
    ensures
        r == rank(resolution@, fallback@),
{
    let mut i: usize = 0;
    while i < fallback.len()
        invariant
            i <= fallback@.len(),
            forall|j: int| 0 <= j < i ==> fallback@[j]@ != resolution@,
        decreases fallback@.len() - i,
    {
        if str_eq(fallback[i].as_str(), resolution) {
            proof {
                lemma_rank_is(resolution@, fallback@, i as int);
            }
            return i;
        }
        i = i + 1;
    }
    proof {
        lemma_rank_is(resolution@, fallback@, i as int);
    }
    i
}

/// The best (lowest) rank among `variants`; `fallback`'s length when there
/// are none.
pub open spec fn best_rank(variants: Seq<Release>, fallback: Seq<String>) -> nat
    decreases variants.len(),
{
    if variants.len() == 0 {
        fallback.len()
    } else {
        let rest = best_rank(variants.drop_last(), fallback);
        let last = rank(variants.last().resolution@, fallback);
        if last < rest {
            last
        } else {
            rest
        }
    }
}

/// The best rank is reached by some variant and beaten by none.
pub proof fn lemma_best_rank(variants: Seq<Release>, fallback: Seq<String>)
    requires
        variants.len() > 0,
    ensures
        exists|k: int|
            0 <= k < variants.len() && rank(variants[k].resolution@, fallback) == best_rank(variants, fallback),
        forall|j: int|
            0 <= j < variants.len() ==> best_rank(variants, fallback) <= rank(
                #[trigger] variants[j].resolution@,
                fallback,
            ),
    decreases variants.len(),
{
    lemma_rank(variants.last().resolution@, fallback);
    let init = variants.drop_last();
    if variants.len() == 1 {
        assert(init.len() == 0);
        assert(best_rank(init, fallback) == fallback.len());
        assert(variants.last() == variants[0]);
        assert(rank(variants[0].resolution@, fallback) == best_rank(variants, fallback));
    } else {
        lemma_best_rank(init, fallback);
        let k = choose|k: int| 0 <= k < init.len() && rank(init[k].resolution@, fallback) == best_rank(init, fallback);
        assert(init[k] == variants[k]);
        if rank(variants.last().resolution@, fallback) < best_rank(init, fallback) {
            assert(rank(variants[variants.len() - 1].resolution@, fallback) == best_rank(variants, fallback));
        } else {
            assert(rank(variants[k].resolution@, fallback) == best_rank(variants, fallback));
        }
        assert forall|j: int| 0 <= j < variants.len() implies best_rank(variants, fallback) <= rank(
            #[trigger] variants[j].resolution@,
            fallback,
        ) by {
            if j < variants.len() - 1 {
                assert(init[j] == variants[j]);
            }
        }
    }
}

/// The index of the first variant satisfying `p`, or the number of
/// variants when none does.
pub open spec fn first_where(variants: Seq<Release>, p: spec_fn(Release) -> bool) -> int
    decreases variants.len(),
{
    if variants.len() == 0 {
        0
    } else if p(variants[0]) {
        0
    } else {
        1 + first_where(variants.drop_first(), p)
    }
}

/// `first_where` is the first position that satisfies `p`, or the length.
pub proof fn lemma_first_where(variants: Seq<Release>, p: spec_fn(Release) -> bool)
    ensures
        0 <= first_where(variants, p) <= variants.len(),
        first_where(variants, p) < variants.len() ==> p(variants[first_where(variants, p)]),
        forall|j: int| 0 <= j < first_where(variants, p) ==> !p(#[trigger] variants[j]),
    decreases variants.len(),
{
    if variants.len() > 0 && !p(variants[0]) {
        lemma_first_where(variants.drop_first(), p);
        assert forall|j: int| 0 <= j < first_where(variants, p) implies !p(#[trigger] variants[j]) by {
            if j > 0 {
                assert(variants[j] == variants.drop_first()[j - 1]);
            }
        }
    }
}

/// `first_where` is determined by the first position that satisfies `p`.
pub proof fn lemma_first_where_is(variants: Seq<Release>, p: spec_fn(Release) -> bool, k: int)
    requires
        0 <= k <= variants.len(),
        forall|j: int| 0 <= j < k ==> !p(#[trigger] variants[j]),
        k < variants.len() ==> p(variants[k]),
    ensures
        first_where(variants, p) == k,
    decreases variants.len(),
{
    if variants.len() > 0 && k > 0 {
        assert(!p(variants[0]));
        assert forall|j: int| 0 <= j < k - 1 implies !p(#[trigger] variants.drop_first()[j]) by {
            assert(variants.drop_first()[j] == variants[j + 1]);
        }
        lemma_first_where_is(variants.drop_first(), p, k - 1);
    }
}

/// Whether a variant is at the best rank.
pub open spec fn at_best(variants: Seq<Release>, fallback: Seq<String>) -> spec_fn(Release) -> bool {
    |v: Release| rank(v.resolution@, fallback) == best_rank(variants, fallback)
}

/// Whether a variant is at the best rank and uses `method`.
pub open spec fn at_best_with(variants: Seq<Release>, fallback: Seq<String>, method: DownloadMethod) -> spec_fn(
    Release,
) -> bool {
    |v: Release| rank(v.resolution@, fallback) == best_rank(variants, fallback) && v.method == method
}

/// The index [`best_variant`] picks: the first variant at the best rank
/// that uses `method`, else the first at the best rank.
pub open spec fn best_index(variants: Seq<Release>, fallback: Seq<String>, method: DownloadMethod) -> int {
    let preferred = first_where(variants, at_best_with(variants, fallback, method));
    if preferred < variants.len() {
        preferred
    } else {
        first_where(variants, at_best(variants, fallback))
    }
}

/// Whether a variant has resolution `desired`.
pub open spec fn at_resolution(desired: Seq<char>) -> spec_fn(Release) -> bool {
    |v: Release| v.resolution@ == desired
}

/// Whether a variant has resolution `desired` and uses `method`.
pub open spec fn at_resolution_with(desired: Seq<char>, method: DownloadMethod) -> spec_fn(Release) -> bool {
    |v: Release| v.resolution@ == desired && v.method == method
}

/// The index [`find_desired`] picks, when some variant has resolution
/// `desired`: the first such variant that uses `method`, else the first.
pub open spec fn desired_index(variants: Seq<Release>, desired: Seq<char>, method: DownloadMethod) -> int {
    let preferred = first_where(variants, at_resolution_with(desired, method));
    if preferred < variants.len() {
        preferred
    } else {
        first_where(variants, at_resolution(desired))
    }
}

/// The index of the first variant satisfying the predicate that `ok`
/// checks, as found by a scan; the number of variants when none does.
fn scan_best(variants: &[Release], fallback: &[String], best: usize, method: Option<DownloadMethod>) -> (r: usize)
    requires
        best == best_rank(variants@, fallback@),
    ensures
        method matches Some(m) ==> r == first_where(variants@, at_best_with(variants@, fallback@, m)),
        method is None ==> r == first_where(variants@, at_best(variants@, fallback@)),
{
    let mut i: usize = 0;
    while i < variants.len()
        invariant
            i <= variants@.len(),
            best == best_rank(variants@, fallback@),
            method matches Some(m) ==> forall|j: int|
                0 <= j < i ==> !at_best_with(variants@, fallback@, m)(#[trigger] variants@[j]),
            method is None ==> forall|j: int| 0 <= j < i ==> !at_best(variants@, fallback@)(#[trigger] variants@[j]),
        decreases variants@.len() - i,
    {
        let v = &variants[i];
        let hit = rank_resolution(v.resolution.as_str(), fallback) == best && match method {
            Some(m) => v.method == m,
            None => true,
        };
        if hit {
            proof {
                match method {
                    Some(m) => lemma_first_where_is(variants@, at_best_with(variants@, fallback@, m), i as int),
                    None => lemma_first_where_is(variants@, at_best(variants@, fallback@), i as int),
                }
            }
            return i;
        }
        i = i + 1;
    }
    proof {
        match method {
            Some(m) => lemma_first_where_is(variants@, at_best_with(variants@, fallback@, m), i as int),
            None => lemma_first_where_is(variants@, at_best(variants@, fallback@), i as int),
        }
    }
    i
}

/// Among `variants` (non-empty, all for the same episode), picks the
/// best-ranked resolution per `fallback`, preferring `default_method`
/// among variants tied at that resolution.
pub fn best_variant<'a>(variants: &'a [Release], fallback: &[String], default_method: DownloadMethod) -> (r:
    &'a Release)
    requires
        variants@.len() > 0,
    ensures
        *r == variants@[best_index(variants@, fallback@, default_method)],
        0 <= best_index(variants@, fallback@, default_method) < variants@.len(),
        forall|j: int|
            0 <= j < variants@.len() ==> rank(r.resolution@, fallback@) <= rank(
                #[trigger] variants@[j].resolution@,
                fallback@,
            ),
        (exists|j: int|
            0 <= j < variants@.len() && rank(variants@[j].resolution@, fallback@) == rank(
                r.resolution@,
                fallback@,
            ) && variants@[j].method == default_method) ==> r.method == default_method,
{
    let mut best: usize = rank_resolution(variants[0].resolution.as_str(), fallback);
    let mut i: usize = 1;
    proof {
        assert(variants@.take(1).drop_last() == Seq::<Release>::empty());
        assert(best_rank(Seq::<Release>::empty(), fallback@) == fallback@.len());
        assert(variants@.take(1).last() == variants@[0]);
        lemma_rank(variants@[0].resolution@, fallback@);
    }
    while i < variants.len()
        invariant
            1 <= i <= variants@.len(),
            best == best_rank(variants@.take(i as int), fallback@),
        decreases variants@.len() - i,
    {
        let r = rank_resolution(variants[i].resolution.as_str(), fallback);
        proof {
            assert(variants@.take(i + 1).drop_last() == variants@.take(i as int));
            assert(variants@.take(i + 1).last() == variants@[i as int]);
        }
        if r < best {
            best = r;
        }
        i = i + 1;
    }
    proof {
        assert(variants@.take(variants@.len() as int) == variants@);
        lemma_best_rank(variants@, fallback@);
    }
    let preferred = scan_best(variants, fallback, best, Some(default_method));
    let k = if preferred < variants.len() {
        preferred
    } else {
        scan_best(variants, fallback, best, None)
    };
    proof {
        let b = best_rank(variants@, fallback@);
        let with_m = at_best_with(variants@, fallback@, default_method);
        let any = at_best(variants@, fallback@);
        lemma_first_where(variants@, with_m);
        lemma_first_where(variants@, any);
        let w = choose|w: int| 0 <= w < variants@.len() && rank(variants@[w].resolution@, fallback@) == b;
        if preferred >= variants@.len() {
            if k >= variants@.len() {
                assert(any(variants@[w]));
                assert(false);
            }
            assert(any(variants@[k as int]));
            if exists|j: int|
                0 <= j < variants@.len() && rank(variants@[j].resolution@, fallback@) == b
                    && variants@[j].method == default_method {
                let j = choose|j: int|
                    0 <= j < variants@.len() && rank(variants@[j].resolution@, fallback@) == b
                        && variants@[j].method == default_method;
                assert(with_m(variants@[j]));
                assert(false);
            }
        } else {
            assert(with_m(variants@[k as int]));
        }
        assert(rank(variants@[k as int].resolution@, fallback@) == b);
    }
    &variants[k]
}

/// Finds the variant at exactly `desired_resolution`, preferring
/// `default_method` among ties, or `None` when no variant has that
/// resolution.
pub fn find_desired<'a>(variants: &'a [Release], desired_resolution: &str, default_method: DownloadMethod) -> (r:
    Option<&'a Release>)
    ensures
        r is None <==> forall|j: int|
            0 <= j < variants@.len() ==> (#[trigger] variants@[j]).resolution@ != desired_resolution@,
        r matches Some(v) ==> *v == variants@[desired_index(variants@, desired_resolution@, default_method)]
            && 0 <= desired_index(variants@, desired_resolution@, default_method) < variants@.len(),
        r matches Some(v) ==> v.resolution@ == desired_resolution@,
        r matches Some(v) ==> ((exists|j: int|
            0 <= j < variants@.len() && variants@[j].resolution@ == desired_resolution@
                && variants@[j].method == default_method) ==> v.method == default_method),
{
    let ghost pref = at_resolution_with(desired_resolution@, default_method);
    let ghost any = at_resolution(desired_resolution@);
    let mut i: usize = 0;
    while i < variants.len()
        invariant
            i <= variants@.len(),
            pref == at_resolution_with(desired_resolution@, default_method),
            forall|j: int| 0 <= j < i ==> !pref(#[trigger] variants@[j]),
        decreases variants@.len() - i,
    {
        if str_eq(variants[i].resolution.as_str(), desired_resolution) && variants[i].method == default_method {
            proof {
                lemma_first_where_is(variants@, pref, i as int);
            }
            return Some(&variants[i]);
        }
        i = i + 1;
    }
    proof {
        lemma_first_where_is(variants@, pref, i as int);
        assert forall|j: int|
            0 <= j < variants@.len() && variants@[j].resolution@ == desired_resolution@ implies variants@[j].method
            != default_method by {
            assert(!pref(variants@[j]));
        }
    }
    let mut i: usize = 0;
    while i < variants.len()
        invariant
            i <= variants@.len(),
            any == at_resolution(desired_resolution@),
            pref == at_resolution_with(desired_resolution@, default_method),
            first_where(variants@, pref) == variants@.len(),
            forall|j: int|
                0 <= j < variants@.len() && variants@[j].resolution@ == desired_resolution@ ==> variants@[j].method
                    != default_method,
            forall|j: int| 0 <= j < i ==> !any(#[trigger] variants@[j]),
        decreases variants@.len() - i,
    {
        if str_eq(variants[i].resolution.as_str(), desired_resolution) {
            proof {
                lemma_first_where_is(variants@, any, i as int);
            }
            return Some(&variants[i]);
        }
        i = i + 1;
    }
    proof {
        assert forall|j: int| 0 <= j < variants@.len() implies (#[trigger] variants@[j]).resolution@
            != desired_resolution@ by {
            assert(!any(variants@[j]));
        }
    }
    None
}

/// Whether `rule` matches the series title `title`: its exact title when
/// set, else its regex, else nothing.
pub open spec fn rule_matches(rule: Rule, title: Seq<char>) -> bool {
    match rule.match_exact {
        Some(e) => e@ == title,
        None => match rule.match_regex {
            Some(p) => spec_regex_is_match(p@, title),
            None => false,
        },
    }
}

/// The category assigned when no rule applies: `normal` when defined,
/// else the first defined category, else `normal`.
pub open spec fn fallback_category(categories: Seq<CategoryDef>) -> Seq<char> {
    if defines_category(categories, "normal"@) {
        "normal"@
    } else if categories.len() > 0 {
        categories[0].name@
    } else {
        "normal"@
    }
}

/// The category the rules from index `i` on assign to `title`: that of the
/// first matching rule whose category is defined.
pub open spec fn category_by_rules(rules: Seq<Rule>, categories: Seq<CategoryDef>, title: Seq<char>, i: int) -> Seq<
    char,
>
    decreases rules.len() - i,
{
    if i < 0 || i >= rules.len() {
        fallback_category(categories)
    } else if rule_matches(rules[i], title) && defines_category(categories, rules[i].category@) {
        rules[i].category@
    } else {
        category_by_rules(rules, categories, title, i + 1)
    }
}

/// The definition named `name`, by index: the first with that name.
fn find_category<'a>(categories: &'a [CategoryDef], name: &str) -> (r: Option<&'a CategoryDef>)
    ensures
        r is None <==> !defines_category(categories@, name@),
        r matches Some(c) ==> c.name@ == name@,
{
    let mut j: usize = 0;
    while j < categories.len()
        invariant
            j <= categories@.len(),
            forall|m: int| 0 <= m < j ==> categories@[m].name@ != name@,
        decreases categories@.len() - j,
    {
        if str_eq(categories[j].name.as_str(), name) {
            return Some(&categories[j]);
        }
        j = j + 1;
    }
    None
}

/// Whether `rule` matches `title`.
fn rule_matches_title(rule: &Rule, title: &str) -> (r: bool)
    ensures
        r == rule_matches(*rule, title@),
{
    match &rule.match_exact {
        Some(exact) => str_eq(exact.as_str(), title),
        None => match &rule.match_regex {
            Some(pattern) => regex_is_match(pattern.as_str(), title),
            None => false,
        },
    }
}

/// Determines the category a newly-seen series is assigned, by matching
/// `rules` in order (the first match naming a defined category wins).
/// Falls back to a category named `normal` if defined, else the first
/// defined category.
pub fn determine_category<'a>(rules: &[Rule], categories: &'a [CategoryDef], title: &str) -> (r: &'a str)
    ensures
        r@ == category_by_rules(rules@, categories@, title@, 0),
{
    let mut i: usize = 0;
    while i < rules.len()
        invariant
            i <= rules@.len(),
            category_by_rules(rules@, categories@, title@, 0) == category_by_rules(
                rules@,
                categories@,
                title@,
                i as int,
            ),
        decreases rules@.len() - i,
    {
        if rule_matches_title(&rules[i], title) {
            if let Some(c) = find_category(categories, rules[i].category.as_str()) {
                return c.name.as_str();
            }
        }
        i = i + 1;
    }
    match find_category(categories, "normal") {
        Some(c) => c.name.as_str(),
        None => {
            if categories.len() > 0 {
                categories[0].name.as_str()
            } else {
                "normal"
            }
        },
    }
}

/// Whether a release is worth surfacing under the version policy `mode`:
/// an original release (version 1) always is, as is the first release
/// ever seen for a series; a re-release is under `all`, never under
/// `ignore`, and under `latest_only` only when it re-releases the
/// series' current latest episode.
pub open spec fn eligible(version: u32, mode: VersionMode, last_episode: Option<Seq<char>>, episode: Seq<char>) -> bool {
    if version <= 1 {
        true
    } else {
        match last_episode {
            None => true,
            Some(last) => match mode {
                VersionMode::All => true,
                VersionMode::Ignore => false,
                VersionMode::LatestOnly => last == episode,
            },
        }
    }
}

/// Decides whether a release of `episode` at `version` is worth surfacing
/// under the version policy `mode`, given the series' last resolved
/// episode (`None` for a series never resolved before).
pub fn version_eligible(version: u32, mode: VersionMode, last_episode: Option<&str>, episode: &str) -> (r: bool)
    ensures
        r == eligible(
            version,
            mode,
            match last_episode {
                Some(l) => Some(l@),
                None => None,
            },
            episode@,
        ),
{
    if version <= 1 {
        return true;
    }
    match last_episode {
        None => true,
        Some(last) => match mode {
            VersionMode::All => true,
            VersionMode::Ignore => false,
            VersionMode::LatestOnly => str_eq(last, episode),
        },
    }
}


/// The first release ever seen for a series is always surfaced, whatever
/// its version and the policy; an original (version 1) release always is.
pub proof fn law_first_and_original_releases_surface(version: u32, mode: VersionMode, last: Option<Seq<char>>, episode: Seq<
    char,
>)
    ensures
        eligible(version, mode, None, episode),
        eligible(1, mode, last, episode),
{
}

/// Under `ignore` no version bump of a series with history surfaces;
/// under `all` every one does; under `latest_only` exactly those of the
/// latest episode do.
pub proof fn law_version_modes(version: u32, last: Seq<char>, episode: Seq<char>)
    requires
        version > 1,
    ensures
        !eligible(version, VersionMode::Ignore, Some(last), episode),
        eligible(version, VersionMode::All, Some(last), episode),
        eligible(version, VersionMode::LatestOnly, Some(last), episode) <==> last == episode,
{
}

/// A newly seen series always lands in a defined category when there is
/// one: a matching rule only counts when its category is defined, and the
/// fallback is `normal` when defined, else the first category.
pub proof fn law_category_is_defined(rules: Seq<Rule>, categories: Seq<CategoryDef>, title: Seq<char>, i: int)
    requires
        categories.len() > 0,
    ensures
        defines_category(categories, category_by_rules(rules, categories, title, i)),
    decreases rules.len() - i,
{
    if i < 0 || i >= rules.len() {
        if !defines_category(categories, "normal"@) {
            assert(categories[0].name@ == categories[0].name@);
        }
    } else if !(rule_matches(rules[i], title) && defines_category(categories, rules[i].category@)) {
        law_category_is_defined(rules, categories, title, i + 1);
    }
}


/// An exact-title rule matches one title only: the title it names,
/// character for character (not a title it is a prefix or part of).
pub proof fn law_exact_rule_matches_only_its_title(rule: Rule, title: Seq<char>)
    requires
        rule.match_exact is Some,
    ensures
        rule_matches(rule, title) <==> rule.match_exact.unwrap()@ == title,
{
}

/// Exact-title rules that name other titles leave a show in the fallback
/// category: only a rule naming the show's very title can place it.
pub proof fn law_other_titles_fall_back(rules: Seq<Rule>, categories: Seq<CategoryDef>, title: Seq<char>, i: int)
    requires
        0 <= i,
        forall|j: int| 0 <= j < rules.len() ==> ((#[trigger] rules[j]).match_exact matches Some(e) && e@ != title),
    ensures
        category_by_rules(rules, categories, title, i) == fallback_category(categories),
    decreases rules.len() - i,
{
    if i < rules.len() {
        assert(rules[i].match_exact matches Some(e) && e@ != title);
        law_other_titles_fall_back(rules, categories, title, i + 1);
    }
}
} // verus!
