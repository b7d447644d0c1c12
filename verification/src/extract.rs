//! Turns a source's JSON response into normalized [`Release`]s, using a
//! [`CompiledSource`]'s field extractors. Malformed items are skipped and
//! reported as warnings rather than aborting the whole poll: one bad entry
//! in an API response does not hide every other release.

use vstd::prelude::*;

use crate::json::Json;
use crate::model::{clone_opt, method_named, opt_view, DownloadMethod, Release};
use crate::source::{batch_matches, extract_value, or_empty, version_split, CompiledSource};
use crate::text::{append, debug_str, decimal, owned, spec_debug_str, usize_to_string};

verus! {

/// The output of [`extract`]: every normalized release, plus one warning
/// per skipped item or variant.
#[derive(Debug, Clone, Default, PartialEq, Eq)]
pub struct ExtractionResult {
    /// Successfully extracted releases.
    pub releases: Vec<Release>,
    /// One entry per skipped item/variant, e.g. `"item 3: missing required
    /// field 'series'"`.
    pub warnings: Vec<String>,
}

/// A release, as plain values.
pub struct ReleaseModel {
    /// Source id.
    pub source_id: Seq<char>,
    /// Series title.
    pub series_title: Seq<char>,
    /// Episode (base episode for a versioned release).
    pub episode: Seq<char>,
    /// Season, if any.
    pub season: Option<Seq<char>>,
    /// Resolution label.
    pub resolution: Seq<char>,
    /// Download method.
    pub method: DownloadMethod,
    /// Link or magnet URI.
    pub link: Seq<char>,
    /// Cover URL, if any.
    pub cover_url: Option<Seq<char>>,
    /// Source icon URL, if any.
    pub source_icon_url: Option<Seq<char>>,
    /// Show page URL, if any.
    pub show_url: Option<Seq<char>>,
    /// Source-provided id, if any.
    pub raw_id: Option<Seq<char>>,
    /// Version number.
    pub version: u32,
}

/// The plain values of a release.
pub open spec fn release_view(r: Release) -> ReleaseModel {
    ReleaseModel {
        source_id: r.source_id@,
        series_title: r.series_title@,
        episode: r.episode@,
        season: opt_view(r.season),
        resolution: r.resolution@,
        method: r.method,
        link: r.link@,
        cover_url: opt_view(r.cover_url),
        source_icon_url: opt_view(r.source_icon_url),
        show_url: opt_view(r.show_url),
        raw_id: opt_view(r.raw_id),
        version: r.version,
    }
}

/// What one item or variant of a response comes to.
pub enum Outcome {
    /// A normalized release.
    Release(ReleaseModel),
    /// A skip, with its warning.
    Warning(Seq<char>),
}

/// The series-level values read from one item, shared by its variants.
pub struct ItemContext {
    /// Index of the item in the response.
    pub index: nat,
    /// Series title.
    pub title: Seq<char>,
    /// Base episode.
    pub episode: Seq<char>,
    /// Version number.
    pub version: u32,
    /// Season, if any.
    pub season: Option<Seq<char>>,
    /// Cover URL, if any.
    pub cover_url: Option<Seq<char>>,
    /// Show page URL, if any.
    pub show_url: Option<Seq<char>>,
    /// Source-provided id, if any.
    pub raw_id: Option<Seq<char>>,
}

/// `item <i>: missing required field 'series'`.
pub open spec fn series_warning(i: nat) -> Seq<char> {
    "item "@ + decimal(i) + ": missing required field 'series'"@
}

/// `item <i> ("<title>", episode "<episode>"): skipped batch release`.
pub open spec fn batch_warning(i: nat, title: Seq<char>, episode: Seq<char>) -> Seq<char> {
    "item "@ + decimal(i) + " ("@ + spec_debug_str(title) + ", episode "@ + spec_debug_str(episode)
        + "): skipped batch release"@
}

/// `item <i> variant <j> ("<title>"): ` — the head of a variant warning.
pub open spec fn variant_head(i: nat, j: nat, title: Seq<char>) -> Seq<char> {
    "item "@ + decimal(i) + " variant "@ + decimal(j) + " ("@ + spec_debug_str(title) + "): "@
}

/// A variant missing the required field `field`.
pub open spec fn missing_warning(i: nat, j: nat, title: Seq<char>, field: Seq<char>) -> Seq<char> {
    variant_head(i, j, title) + "missing required field '"@ + field + "'"@
}

/// A variant whose method names no download method.
pub open spec fn method_warning(i: nat, j: nat, title: Seq<char>, raw: Seq<char>) -> Seq<char> {
    variant_head(i, j, title) + "unknown download method "@ + spec_debug_str(raw)
}

/// What variant `j` of an item comes to.
pub open spec fn variant_outcome(s: CompiledSource, ctx: ItemContext, v: Json, j: nat) -> Outcome {
    match extract_value(s.fields.variant.resolution@, v) {
        None => Outcome::Warning(missing_warning(ctx.index, j, ctx.title, "resolution"@)),
        Some(resolution) => match extract_value(s.fields.variant.method@, v) {
            None => Outcome::Warning(missing_warning(ctx.index, j, ctx.title, "method"@)),
            Some(raw) => match method_named(raw) {
                None => Outcome::Warning(method_warning(ctx.index, j, ctx.title, raw)),
                Some(method) => match extract_value(s.fields.variant.link@, v) {
                    None => Outcome::Warning(missing_warning(ctx.index, j, ctx.title, "link"@)),
                    Some(link) => Outcome::Release(
                        ReleaseModel {
                            source_id: s.id@,
                            series_title: ctx.title,
                            episode: ctx.episode,
                            season: ctx.season,
                            resolution,
                            method,
                            link,
                            cover_url: ctx.cover_url,
                            source_icon_url: opt_view(s.icon_url),
                            show_url: ctx.show_url,
                            raw_id: ctx.raw_id,
                            version: ctx.version,
                        },
                    ),
                },
            },
        },
    }
}

/// What the variants of an item come to, in order.
pub open spec fn variant_outcomes(s: CompiledSource, ctx: ItemContext, vs: Seq<Json>) -> Seq<Outcome>
    decreases vs.len(),
{
    if vs.len() == 0 {
        Seq::empty()
    } else {
        variant_outcomes(s, ctx, vs.drop_last()).push(
            variant_outcome(s, ctx, vs.last(), (vs.len() - 1) as nat),
        )
    }
}

/// The base episode and version of an item, after the version rule.
pub open spec fn episode_and_version(s: CompiledSource, item: Json, episode: Seq<char>) -> (Seq<char>, u32) {
    match s.version {
        Some(v) => match version_split(v@, item, episode) {
            Some(p) => p,
            None => (episode, 1u32),
        },
        None => (episode, 1u32),
    }
}

/// Whether the batch rule skips an item.
pub open spec fn skipped_batch(s: CompiledSource, item: Json, episode: Seq<char>) -> bool {
    match s.batch {
        Some(b) => b@.ignore && batch_matches(b@.matcher, item, episode),
        None => false,
    }
}

/// What item `i` of a response comes to.
pub open spec fn item_outcomes(s: CompiledSource, item: Json, i: nat) -> Seq<Outcome> {
    match extract_value(s.fields.series@, item) {
        None => seq![Outcome::Warning(series_warning(i))],
        Some(title) => {
            let episode = or_empty(extract_value(s.fields.episode@, item));
            if skipped_batch(s, item, episode) {
                seq![Outcome::Warning(batch_warning(i, title, episode))]
            } else {
                let ev = episode_and_version(s, item, episode);
                let ctx = ItemContext {
                    index: i,
                    title,
                    episode: ev.0,
                    version: ev.1,
                    season: extract_value(s.fields.season@, item),
                    cover_url: extract_value(s.fields.cover@, item),
                    show_url: extract_value(s.fields.show_url@, item),
                    raw_id: extract_value(s.fields.id@, item),
                };
                variant_outcomes(s, ctx, s.variants.eval(item))
            }
        },
    }
}

/// What the items of a response come to, in order.
pub open spec fn all_outcomes(s: CompiledSource, items: Seq<Json>) -> Seq<Outcome>
    decreases items.len(),
{
    if items.len() == 0 {
        Seq::empty()
    } else {
        all_outcomes(s, items.drop_last()) + item_outcomes(s, items.last(), (items.len() - 1) as nat)
    }
}

/// The releases among outcomes, in order.
pub open spec fn releases_of(os: Seq<Outcome>) -> Seq<ReleaseModel>
    decreases os.len(),
{
    if os.len() == 0 {
        Seq::empty()
    } else {
        match os.last() {
            Outcome::Release(r) => releases_of(os.drop_last()).push(r),
            Outcome::Warning(_) => releases_of(os.drop_last()),
        }
    }
}

/// The warnings among outcomes, in order.
pub open spec fn warnings_of(os: Seq<Outcome>) -> Seq<Seq<char>>
    decreases os.len(),
{
    if os.len() == 0 {
        Seq::empty()
    } else {
        match os.last() {
            Outcome::Release(_) => warnings_of(os.drop_last()),
            Outcome::Warning(w) => warnings_of(os.drop_last()).push(w),
        }
    }
}

/// The plain values of a list of releases.
pub open spec fn release_views(rs: Seq<Release>) -> Seq<ReleaseModel> {
    rs.map_values(|r: Release| release_view(r))
}

/// The texts of a list of strings.
pub open spec fn string_views(ws: Seq<String>) -> Seq<Seq<char>> {
    ws.map_values(|w: String| w@)
}

/// Where a run of outcomes is collected.
struct Collector {
    releases: Vec<Release>,
    warnings: Vec<String>,
    done: Ghost<Seq<Outcome>>,
}

impl Collector {
    /// The collected releases and warnings are those of `done`.
    spec fn inv(&self) -> bool {
        &&& release_views(self.releases@) == releases_of(self.done@)
        &&& string_views(self.warnings@) == warnings_of(self.done@)
    }

    fn warn(&mut self, w: String)
        requires
            old(self).inv(),
        ensures
            final(self).inv(),
            final(self).done@ == old(self).done@.push(Outcome::Warning(w@)),
    {
        let ghost before = self.done@;
        self.warnings.push(w);
        self.done = Ghost(before.push(Outcome::Warning(w@)));
        proof {
            let d = self.done@;
            assert(d.drop_last() == before);
            assert(string_views(self.warnings@) == string_views(old(self).warnings@).push(w@));
        }
    }

    fn keep(&mut self, r: Release)
        requires
            old(self).inv(),
        ensures
            final(self).inv(),
            final(self).done@ == old(self).done@.push(Outcome::Release(release_view(r))),
    {
        let ghost before = self.done@;
        let ghost rv = release_view(r);
        self.releases.push(r);
        self.done = Ghost(before.push(Outcome::Release(rv)));
        proof {
            let d = self.done@;
            assert(d.drop_last() == before);
            assert(release_views(self.releases@) == release_views(old(self).releases@).push(rv));
        }
    }
}

/// The head of a variant warning.
fn variant_head_text(i: usize, j: usize, title: &str) -> (r: String)
    ensures
        r@ == variant_head(i as nat, j as nat, title@),
{
    let mut w = owned("item ");
    let si = usize_to_string(i);
    append(&mut w, si.as_str());
    append(&mut w, " variant ");
    let sj = usize_to_string(j);
    append(&mut w, sj.as_str());
    append(&mut w, " (");
    let q = debug_str(title);
    append(&mut w, q.as_str());
    append(&mut w, "): ");
    w
}

/// A variant's missing-field warning.
fn missing_text(i: usize, j: usize, title: &str, field: &str) -> (r: String)
    ensures
        r@ == missing_warning(i as nat, j as nat, title@, field@),
{
    let mut w = variant_head_text(i, j, title);
    append(&mut w, "missing required field '");
    append(&mut w, field);
    append(&mut w, "'");
    w
}

/// What one variant comes to, collected.
fn collect_variant(source: &CompiledSource, ctx: &ItemRead, v: &Json, j: usize, out: &mut Collector)
    requires
        old(out).inv(),
    ensures
        final(out).inv(),
        final(out).done@ == old(out).done@.push(variant_outcome(*source, ctx.model(), *v, j as nat)),
{
    proof {
        reveal_strlit("resolution");
        reveal_strlit("method");
        reveal_strlit("link");
    }
    let resolution = match source.fields.variant.resolution.extract(v) {
        Some(r) => r,
        None => {
            out.warn(missing_text(ctx.index, j, ctx.title.as_str(), "resolution"));
            return;
        },
    };
    let raw = match source.fields.variant.method.extract(v) {
        Some(m) => m,
        None => {
            out.warn(missing_text(ctx.index, j, ctx.title.as_str(), "method"));
            return;
        },
    };
    let method = match DownloadMethod::parse(raw.as_str()) {
        Some(m) => m,
        None => {
            let mut w = variant_head_text(ctx.index, j, ctx.title.as_str());
            append(&mut w, "unknown download method ");
            let q = debug_str(raw.as_str());
            append(&mut w, q.as_str());
            out.warn(w);
            return;
        },
    };
    let link = match source.fields.variant.link.extract(v) {
        Some(l) => l,
        None => {
            out.warn(missing_text(ctx.index, j, ctx.title.as_str(), "link"));
            return;
        },
    };
    let r = Release {
        source_id: source.id.clone(),
        series_title: ctx.title.clone(),
        episode: ctx.episode.clone(),
        season: clone_opt(&ctx.season),
        resolution,
        method,
        link,
        cover_url: clone_opt(&ctx.cover_url),
        source_icon_url: clone_opt(&source.icon_url),
        show_url: clone_opt(&ctx.show_url),
        raw_id: clone_opt(&ctx.raw_id),
        version: ctx.version,
    };
    out.keep(r);
}

/// The series-level values read from one item.
struct ItemRead {
    index: usize,
    title: String,
    episode: String,
    version: u32,
    season: Option<String>,
    cover_url: Option<String>,
    show_url: Option<String>,
    raw_id: Option<String>,
}

impl ItemRead {
    spec fn model(&self) -> ItemContext {
        ItemContext {
            index: self.index as nat,
            title: self.title@,
            episode: self.episode@,
            version: self.version,
            season: opt_view(self.season),
            cover_url: opt_view(self.cover_url),
            show_url: opt_view(self.show_url),
            raw_id: opt_view(self.raw_id),
        }
    }
}

/// What one item comes to, collected.
fn collect_item(source: &CompiledSource, item: &Json, i: usize, out: &mut Collector)
    requires
        old(out).inv(),
    ensures
        final(out).inv(),
        final(out).done@ == old(out).done@ + item_outcomes(*source, *item, i as nat),
{
    let title = match source.fields.series.extract(item) {
        Some(t) => t,
        None => {
            let mut w = owned("item ");
            let si = usize_to_string(i);
            append(&mut w, si.as_str());
            append(&mut w, ": missing required field 'series'");
            assert(w@ =~= series_warning(i as nat));
            let ghost before = out.done@;
            out.warn(w);
            proof {
                assert(out.done@ =~= before + seq![Outcome::Warning(series_warning(i as nat))]);
            }
            return;
        },
    };
    let episode = match source.fields.episode.extract(item) {
        Some(e) => e,
        None => String::new(),
    };
    proof {
        assert(episode@ == or_empty(extract_value(source.fields.episode@, *item)));
    }
    let skip = match &source.batch {
        Some(b) => b.skips() && b.matches(item, episode.as_str()),
        None => false,
    };
    if skip {
        let mut w = owned("item ");
        let si = usize_to_string(i);
        append(&mut w, si.as_str());
        append(&mut w, " (");
        let qt = debug_str(title.as_str());
        append(&mut w, qt.as_str());
        append(&mut w, ", episode ");
        let qe = debug_str(episode.as_str());
        append(&mut w, qe.as_str());
        append(&mut w, "): skipped batch release");
        assert(w@ =~= batch_warning(i as nat, title@, episode@));
        let ghost before = out.done@;
        out.warn(w);
        proof {
            assert(out.done@ =~= before + seq![Outcome::Warning(batch_warning(i as nat, title@, episode@))]);
        }
        return;
    }
    let split = match &source.version {
        Some(v) => v.extract(item, episode.as_str()),
        None => None,
    };
    let (base, version) = match split {
        Some(p) => p,
        None => (episode, 1u32),
    };
    let ctx = ItemRead {
        index: i,
        title,
        episode: base,
        version,
        season: source.fields.season.extract(item),
        cover_url: source.fields.cover.extract(item),
        show_url: source.fields.show_url.extract(item),
        raw_id: source.fields.id.extract(item),
    };
    let variants = source.variants.eval_all(item);
    let ghost vs = source.variants.eval(*item);
    let ghost start = out.done@;
    let mut j: usize = 0;
    while j < variants.len()
        invariant
            j <= variants@.len(),
            crate::jqpath::derefs(variants@) == vs,
            out.inv(),
            out.done@ == start + variant_outcomes(*source, ctx.model(), vs.take(j as int)),
        decreases variants@.len() - j,
    {
        proof {
            assert(vs.take(j + 1).drop_last() == vs.take(j as int));
            assert(vs.take(j + 1).last() == *variants@[j as int]);
        }
        collect_variant(source, &ctx, variants[j], j, out);
        j = j + 1;
    }
    proof {
        assert(vs.take(j as int) == vs);
        assert(ctx.model().episode == episode_and_version(*source, *item, episode@).0);
    }
}

/// Extracts every release from `root` (the parsed JSON response) using
/// `source`'s compiled field rules.
pub fn extract(source: &CompiledSource, root: &Json) -> (r: ExtractionResult)
    ensures
        release_views(r.releases@) == releases_of(all_outcomes(*source, source.items.eval(*root))),
        string_views(r.warnings@) == warnings_of(all_outcomes(*source, source.items.eval(*root))),
{
    let items = source.items.eval_all(root);
    let ghost all = source.items.eval(*root);
    let mut out = Collector { releases: Vec::new(), warnings: Vec::new(), done: Ghost(Seq::empty()) };
    proof {
        assert(release_views(out.releases@) == Seq::<ReleaseModel>::empty());
        assert(string_views(out.warnings@) == Seq::<Seq<char>>::empty());
    }
    let mut i: usize = 0;
    while i < items.len()
        invariant
            i <= items@.len(),
            crate::jqpath::derefs(items@) == all,
            out.inv(),
            out.done@ == all_outcomes(*source, all.take(i as int)),
        decreases items@.len() - i,
    {
        proof {
            assert(all.take(i + 1).drop_last() == all.take(i as int));
            assert(all.take(i + 1).last() == *items@[i as int]);
        }
        collect_item(source, items[i], i, &mut out);
        i = i + 1;
    }
    proof {
        assert(all.take(i as int) == all);
    }
    ExtractionResult { releases: out.releases, warnings: out.warnings }
}


/// Every extracted release carries its source's id and icon, and, when
/// the source has no version rule, is version 1.
pub proof fn law_releases_carry_source(s: CompiledSource, items: Seq<Json>)
    ensures
        forall|k: int|
            0 <= k < releases_of(all_outcomes(s, items)).len() ==> {
                let r = #[trigger] releases_of(all_outcomes(s, items))[k];
                &&& r.source_id == s.id@
                &&& r.source_icon_url == opt_view(s.icon_url)
                &&& s.version is None ==> r.version == 1
            },
    decreases items.len(),
{
    if items.len() > 0 {
        law_releases_carry_source(s, items.drop_last());
        let before = all_outcomes(s, items.drop_last());
        let item = items.last();
        let i = (items.len() - 1) as nat;
        lemma_item_releases_carry_source(s, item, i);
        lemma_releases_of_append(before, item_outcomes(s, item, i));
    }
}

/// What a release outcome of one item holds.
pub open spec fn carries_source(s: CompiledSource, os: Seq<Outcome>) -> bool {
    forall|k: int|
        0 <= k < releases_of(os).len() ==> {
            let r = #[trigger] releases_of(os)[k];
            &&& r.source_id == s.id@
            &&& r.source_icon_url == opt_view(s.icon_url)
            &&& s.version is None ==> r.version == 1
        }
}

proof fn lemma_releases_of_append(a: Seq<Outcome>, b: Seq<Outcome>)
    ensures
        releases_of(a + b) == releases_of(a) + releases_of(b),
    decreases b.len(),
{
    if b.len() == 0 {
        assert(a + b =~= a);
        assert(releases_of(a) + releases_of(b) =~= releases_of(a));
    } else {
        lemma_releases_of_append(a, b.drop_last());
        assert((a + b).drop_last() =~= a + b.drop_last());
        assert((a + b).last() == b.last());
        match b.last() {
            Outcome::Release(r) => {
                assert(releases_of(a) + releases_of(b) =~= (releases_of(a) + releases_of(b.drop_last())).push(r));
            },
            Outcome::Warning(_) => {},
        }
    }
}

proof fn lemma_variant_releases_carry_source(s: CompiledSource, ctx: ItemContext, vs: Seq<Json>)
    requires
        s.version is None ==> ctx.version == 1,
    ensures
        carries_source(s, variant_outcomes(s, ctx, vs)),
    decreases vs.len(),
{
    if vs.len() > 0 {
        lemma_variant_releases_carry_source(s, ctx, vs.drop_last());
        let before = variant_outcomes(s, ctx, vs.drop_last());
        let o = variant_outcome(s, ctx, vs.last(), (vs.len() - 1) as nat);
        match o {
            Outcome::Release(r) => {
                assert forall|k: int| 0 <= k < releases_of(before.push(o)).len() implies {
                    let x = #[trigger] releases_of(before.push(o))[k];
                    &&& x.source_id == s.id@
                    &&& x.source_icon_url == opt_view(s.icon_url)
                    &&& s.version is None ==> x.version == 1
                } by {
                    assert(before.push(o).drop_last() =~= before);
                    if k < releases_of(before).len() {
                        assert(releases_of(before.push(o))[k] == releases_of(before)[k]);
                    }
                }
            },
            Outcome::Warning(_) => {
                assert(before.push(o).drop_last() =~= before);
            },
        }
    }
}

proof fn lemma_item_releases_carry_source(s: CompiledSource, item: Json, i: nat)
    ensures
        carries_source(s, item_outcomes(s, item, i)),
{
    match extract_value(s.fields.series@, item) {
        None => {
            reveal_with_fuel(releases_of, 2);
        },
        Some(title) => {
            let episode = or_empty(extract_value(s.fields.episode@, item));
            if skipped_batch(s, item, episode) {
                reveal_with_fuel(releases_of, 2);
            } else {
                let ev = episode_and_version(s, item, episode);
                let ctx = ItemContext {
                    index: i,
                    title,
                    episode: ev.0,
                    version: ev.1,
                    season: extract_value(s.fields.season@, item),
                    cover_url: extract_value(s.fields.cover@, item),
                    show_url: extract_value(s.fields.show_url@, item),
                    raw_id: extract_value(s.fields.id@, item),
                };
                lemma_variant_releases_carry_source(s, ctx, s.variants.eval(item));
            }
        },
    }
}

/// Whether variant `v` yields release `r`'s resolution, method and link.
pub open spec fn variant_yields(s: CompiledSource, v: Json, r: ReleaseModel) -> bool {
    &&& extract_value(s.fields.variant.resolution@, v) == Some(r.resolution)
    &&& extract_value(s.fields.variant.method@, v) matches Some(raw) && method_named(raw) == Some(r.method)
    &&& extract_value(s.fields.variant.link@, v) == Some(r.link)
}

/// Whether release `r` holds what its source's fields read from `item`:
/// the series title, season, cover, show page and id of that item, its
/// episode (when the source has no version rule), and the resolution,
/// method and link of one of the item's variants.
pub open spec fn read_from_item(s: CompiledSource, item: Json, r: ReleaseModel) -> bool {
    &&& extract_value(s.fields.series@, item) == Some(r.series_title)
    &&& r.season == extract_value(s.fields.season@, item)
    &&& r.cover_url == extract_value(s.fields.cover@, item)
    &&& r.show_url == extract_value(s.fields.show_url@, item)
    &&& r.raw_id == extract_value(s.fields.id@, item)
    &&& s.version is None ==> r.episode == or_empty(extract_value(s.fields.episode@, item))
    &&& exists|j: int| 0 <= j < s.variants.eval(item).len() && variant_yields(s, #[trigger] s.variants.eval(item)[j], r)
}

proof fn lemma_variant_releases_read(s: CompiledSource, ctx: ItemContext, vs: Seq<Json>)
    ensures
        forall|k: int|
            0 <= k < releases_of(variant_outcomes(s, ctx, vs)).len() ==> {
                let r = #[trigger] releases_of(variant_outcomes(s, ctx, vs))[k];
                &&& r.series_title == ctx.title
                &&& r.season == ctx.season
                &&& r.cover_url == ctx.cover_url
                &&& r.show_url == ctx.show_url
                &&& r.raw_id == ctx.raw_id
                &&& r.episode == ctx.episode
                &&& exists|j: int| 0 <= j < vs.len() && variant_yields(s, #[trigger] vs[j], r)
            },
    decreases vs.len(),
{
    if vs.len() > 0 {
        let init = vs.drop_last();
        lemma_variant_releases_read(s, ctx, init);
        let before = variant_outcomes(s, ctx, init);
        let last = (vs.len() - 1) as int;
        let o = variant_outcome(s, ctx, vs.last(), last as nat);
        assert(variant_outcomes(s, ctx, vs) == before.push(o));
        assert(before.push(o).drop_last() =~= before);
        assert forall|k: int| 0 <= k < releases_of(before.push(o)).len() implies {
            let r = #[trigger] releases_of(before.push(o))[k];
            &&& r.series_title == ctx.title
            &&& r.season == ctx.season
            &&& r.cover_url == ctx.cover_url
            &&& r.show_url == ctx.show_url
            &&& r.raw_id == ctx.raw_id
            &&& r.episode == ctx.episode
            &&& exists|j: int| 0 <= j < vs.len() && variant_yields(s, #[trigger] vs[j], r)
        } by {
            let r = releases_of(before.push(o))[k];
            if k < releases_of(before).len() {
                assert(r == releases_of(before)[k]);
                let j = choose|j: int| 0 <= j < init.len() && variant_yields(s, #[trigger] init[j], r);
                assert(init[j] == vs[j]);
                assert(variant_yields(s, vs[j], r));
            } else {
                assert(o is Release);
                assert(r == o->Release_0);
                assert(vs[last] == vs.last());
                assert(variant_yields(s, vs[last], r));
            }
        }
    }
}

proof fn lemma_item_releases_read(s: CompiledSource, item: Json, i: nat)
    ensures
        forall|k: int|
            0 <= k < releases_of(item_outcomes(s, item, i)).len() ==> read_from_item(
                s,
                item,
                #[trigger] releases_of(item_outcomes(s, item, i))[k],
            ),
{
    match extract_value(s.fields.series@, item) {
        None => {
            reveal_with_fuel(releases_of, 2);
        },
        Some(title) => {
            let episode = or_empty(extract_value(s.fields.episode@, item));
            if skipped_batch(s, item, episode) {
                reveal_with_fuel(releases_of, 2);
            } else {
                let ev = episode_and_version(s, item, episode);
                let ctx = ItemContext {
                    index: i,
                    title,
                    episode: ev.0,
                    version: ev.1,
                    season: extract_value(s.fields.season@, item),
                    cover_url: extract_value(s.fields.cover@, item),
                    show_url: extract_value(s.fields.show_url@, item),
                    raw_id: extract_value(s.fields.id@, item),
                };
                let vs = s.variants.eval(item);
                assert(item_outcomes(s, item, i) == variant_outcomes(s, ctx, vs));
                lemma_variant_releases_read(s, ctx, vs);
            }
        },
    }
}

/// Every extracted release is read from one item of the response: its
/// series title, season, cover, show page and id are what the source's
/// fields read from that item (so a configured `show_url` reaches every
/// release of the show), its episode is the item's episode when the source
/// has no version rule, and its resolution, method and link come from one
/// of that item's variants.
pub proof fn law_releases_read_their_item(s: CompiledSource, items: Seq<Json>)
    ensures
        forall|k: int|
            #![trigger releases_of(all_outcomes(s, items))[k]]
            0 <= k < releases_of(all_outcomes(s, items)).len() ==> exists|m: int|
                0 <= m < items.len() && read_from_item(
                    s,
                    #[trigger] items[m],
                    releases_of(all_outcomes(s, items))[k],
                ),
    decreases items.len(),
{
    if items.len() > 0 {
        let init = items.drop_last();
        law_releases_read_their_item(s, init);
        let before = all_outcomes(s, init);
        let last = (items.len() - 1) as int;
        let item = items.last();
        let mine = item_outcomes(s, item, last as nat);
        lemma_item_releases_read(s, item, last as nat);
        lemma_releases_of_append(before, mine);
        assert(all_outcomes(s, items) == before + mine);
        assert forall|k: int|
            #![trigger releases_of(all_outcomes(s, items))[k]]
            0 <= k < releases_of(all_outcomes(s, items)).len() implies exists|m: int|
            0 <= m < items.len() && read_from_item(s, #[trigger] items[m], releases_of(all_outcomes(s, items))[k]) by {
            let all = releases_of(all_outcomes(s, items));
            if k < releases_of(before).len() {
                assert(all[k] == releases_of(before)[k]);
                let m = choose|m: int| 0 <= m < init.len() && read_from_item(s, #[trigger] init[m], releases_of(before)[k]);
                assert(init[m] == items[m]);
                assert(read_from_item(s, items[m], all[k]));
            } else {
                let k2 = k - releases_of(before).len();
                assert(all[k] == releases_of(mine)[k2]);
                assert(read_from_item(s, item, releases_of(mine)[k2]));
                assert(items[last] == item);
                assert(read_from_item(s, items[last], all[k]));
            }
        }
    }
}

} // verus!
