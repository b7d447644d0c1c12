//! The shareable source-plugin schema: how to poll a JSON API for anime
//! releases and where, in its response, to find each field — using
//! jq-style paths ([`crate::jqpath`]), optional regex extraction,
//! defaults, and a prefix/suffix to build absolute URLs.

use vstd::prelude::*;

use crate::jqpath::{jq_error_text, failure_reason, parse_steps, JqPath, PathStep, eval_steps};
use crate::json::Json;
use crate::model::{clone_opt, opt_view};
use crate::paths::{expand_env, pairs_view, spec_env_expand};
use crate::regexes::{
    regex_capture, regex_error, regex_has_group, regex_is_match, regex_named, spec_regex_capture,
    spec_regex_error, spec_regex_has_group, spec_regex_is_match, spec_regex_named,
};
use crate::text::{append, owned, parse_unsigned, trim, trim_str, unsigned_text};

verus! {

/// Errors loading or compiling a source plugin file.
#[derive(Debug, Clone)]
pub enum SourceError {
    /// The plugin file could not be read.
    Read {
        /// Path that failed to read.
        path: String,
        /// The I/O error's message.
        message: String,
    },
    /// The plugin file was not valid TOML for the schema.
    Parse {
        /// Path that failed to parse.
        path: String,
        /// The parser's message.
        message: String,
    },
    /// The plugin parsed but failed a semantic check: an unparseable jq
    /// path, an invalid regex, or a missing required piece.
    Invalid(String),
}

/// One field extraction rule: a jq path, an optional regex applied to the
/// path's result (first capture group, or the whole match if the pattern
/// has none), an optional default when the value is missing or unmatched,
/// and an optional prefix and suffix.
///
/// `path` is optional so a field can be a constant: `{ default = "magnet" }`
/// with no `path` always yields that constant.
#[derive(Debug, Clone, Default)]
pub struct FieldExtractor {
    /// jq-style path to the raw value, relative to the item or variant.
    pub path: Option<String>,
    /// Regex applied to the raw value.
    pub regex: Option<String>,
    /// Value used when `path` is unset, matches nothing, or (after `regex`)
    /// fails to match.
    pub default: Option<String>,
    /// String prepended to the extracted value.
    pub prefix: Option<String>,
    /// String appended to the extracted value.
    pub suffix: Option<String>,
}

/// The `resolution`/`method`/`link` fields extracted per download variant.
#[derive(Debug, Clone, Default)]
pub struct VariantFields {
    /// e.g. `"1080p"`.
    pub resolution: FieldExtractor,
    /// Must resolve to `direct`/`torrent`/`magnet` or a synonym.
    pub method: FieldExtractor,
    /// The URL or magnet URI.
    pub link: FieldExtractor,
}

/// All field extraction rules for a source.
#[derive(Debug, Clone, Default)]
pub struct FieldSet {
    /// Show title. Required.
    pub series: FieldExtractor,
    /// Episode identifier.
    pub episode: FieldExtractor,
    /// Season identifier.
    pub season: FieldExtractor,
    /// Cover image URL.
    pub cover: FieldExtractor,
    /// The show's page on the source's website.
    pub show_url: FieldExtractor,
    /// A source-provided stable id, used for dedup.
    pub id: FieldExtractor,
    /// Per-variant fields.
    pub variant: VariantFields,
}

/// How to recognize a "batch" release (one bundling several episodes) and
/// whether to skip it.
#[derive(Debug, Clone)]
pub struct BatchConfig {
    /// jq path, relative to the item, to match `regex` against; the
    /// extracted episode when unset.
    pub path: Option<String>,
    /// The item is a batch when this regex matches the target.
    pub regex: String,
    /// Whether to skip batch releases entirely (default `true`).
    pub ignore: bool,
}

/// How to recognize a versioned re-release (`"08v2"`): a regex with named
/// groups `episode` and `version`.
#[derive(Debug, Clone)]
pub struct VersionConfig {
    /// jq path, relative to the item, to the value to split; the extracted
    /// episode when unset.
    pub path: Option<String>,
    /// Regex with the named capture groups `episode` and `version`.
    pub regex: String,
}

/// A source plugin: the endpoint to poll, how to authenticate, and where
/// to find each field in the response.
#[derive(Debug, Clone)]
pub struct SourcePlugin {
    /// Unique id for this source.
    pub id: String,
    /// The API endpoint to poll.
    pub endpoint: String,
    /// HTTP method: `GET` or `POST`.
    pub method: String,
    /// Poll interval override, in milliseconds.
    pub interval: Option<u64>,
    /// Resolution-wait override, in milliseconds.
    pub resolution_wait: Option<u64>,
    /// Extra HTTP headers.
    pub headers: Vec<(String, String)>,
    /// Query string parameters.
    pub query: Vec<(String, String)>,
    /// Request body, for `POST`.
    pub body: Option<String>,
    /// jq path to the array (or object) of releases in the response.
    pub items: String,
    /// jq path, relative to each item, to its download variants.
    pub variants: String,
    /// Field extraction rules.
    pub fields: FieldSet,
    /// Batch-release detection, if configured.
    pub batch: Option<BatchConfig>,
    /// Versioned-release detection, if configured.
    pub version: Option<VersionConfig>,
    /// The source's own icon URL (a fixed URL, not a path).
    pub icon: Option<String>,
}

/// What a compiled extractor does, as data.
pub struct ExtractorModel {
    /// The parsed path, if any.
    pub path: Option<Seq<PathStep>>,
    /// The regex, if any.
    pub regex: Option<Seq<char>>,
    /// The default, if any.
    pub default: Option<Seq<char>>,
    /// The prefix, if any.
    pub prefix: Option<Seq<char>>,
    /// The suffix, if any.
    pub suffix: Option<Seq<char>>,
}

/// What a compiled batch or version rule looks at and matches, as data.
pub struct MatcherModel {
    /// The parsed path, if any.
    pub path: Option<Seq<PathStep>>,
    /// The regex.
    pub regex: Seq<char>,
}

/// What a compiled batch rule does, as data.
pub struct BatchModel {
    /// What it looks at and matches.
    pub matcher: MatcherModel,
    /// Whether matching items are skipped.
    pub ignore: bool,
}

/// A [`FieldExtractor`] with its path pre-parsed and regex checked.
#[derive(Debug, Clone)]
pub struct CompiledExtractor {
    path: Option<JqPath>,
    regex: Option<String>,
    default: Option<String>,
    prefix: Option<String>,
    suffix: Option<String>,
}

impl View for CompiledExtractor {
    type V = ExtractorModel;

    closed spec fn view(&self) -> ExtractorModel {
        ExtractorModel {
            path: match self.path {
                Some(p) => Some(p.steps()),
                None => None,
            },
            regex: opt_view(self.regex),
            default: opt_view(self.default),
            prefix: opt_view(self.prefix),
            suffix: opt_view(self.suffix),
        }
    }
}

/// A compiled [`BatchConfig`].
#[derive(Debug, Clone)]
pub struct CompiledBatch {
    path: Option<JqPath>,
    regex: String,
    /// Whether to skip items this detects as a batch.
    pub ignore: bool,
}

impl View for CompiledBatch {
    type V = BatchModel;

    closed spec fn view(&self) -> BatchModel {
        BatchModel {
            matcher: MatcherModel {
                path: match self.path {
                    Some(p) => Some(p.steps()),
                    None => None,
                },
                regex: self.regex@,
            },
            ignore: self.ignore,
        }
    }
}

/// A compiled [`VersionConfig`].
#[derive(Debug, Clone)]
pub struct CompiledVersion {
    path: Option<JqPath>,
    regex: String,
}

impl View for CompiledVersion {
    type V = MatcherModel;

    closed spec fn view(&self) -> MatcherModel {
        MatcherModel {
            path: match self.path {
                Some(p) => Some(p.steps()),
                None => None,
            },
            regex: self.regex@,
        }
    }
}

/// Compiled variant field extractors.
#[derive(Debug, Clone)]
pub struct CompiledVariantFields {
    /// Resolution extractor.
    pub resolution: CompiledExtractor,
    /// Download method extractor.
    pub method: CompiledExtractor,
    /// Link/magnet-URI extractor.
    pub link: CompiledExtractor,
}

/// Compiled field extractors for a source.
#[derive(Debug, Clone)]
pub struct CompiledFieldSet {
    /// Series title extractor.
    pub series: CompiledExtractor,
    /// Episode extractor.
    pub episode: CompiledExtractor,
    /// Season extractor.
    pub season: CompiledExtractor,
    /// Cover image URL extractor.
    pub cover: CompiledExtractor,
    /// Show page URL extractor.
    pub show_url: CompiledExtractor,
    /// Stable id extractor.
    pub id: CompiledExtractor,
    /// Per-variant extractors.
    pub variant: CompiledVariantFields,
}

/// A [`SourcePlugin`] with every path parsed and every regex checked,
/// ready to be polled and have its responses extracted repeatedly.
#[derive(Debug, Clone)]
pub struct CompiledSource {
    /// Source id.
    pub id: String,
    /// API endpoint.
    pub endpoint: String,
    /// HTTP method.
    pub method: String,
    /// Poll interval override, in milliseconds.
    pub interval: Option<u64>,
    /// Resolution-wait override, in milliseconds.
    pub resolution_wait: Option<u64>,
    /// Extra HTTP headers.
    pub headers: Vec<(String, String)>,
    /// Query string parameters.
    pub query: Vec<(String, String)>,
    /// Request body.
    pub body: Option<String>,
    /// Path to the release array.
    pub items: JqPath,
    /// Path (relative to each item) to its download variants.
    pub variants: JqPath,
    /// Field extractors.
    pub fields: CompiledFieldSet,
    /// Batch-release detection, if configured.
    pub batch: Option<CompiledBatch>,
    /// Versioned-release detection, if configured.
    pub version: Option<CompiledVersion>,
    /// The source's icon URL, if configured.
    pub icon_url: Option<String>,
}

/// The text a JSON scalar is read as: strings as they are, numbers as
/// printed, booleans as `true`/`false`; nothing for null, arrays and
/// objects.
pub open spec fn json_text(v: Json) -> Option<Seq<char>> {
    match v {
        Json::Str(s) => Some(s@),
        Json::Number(n) => Some(n@),
        Json::Bool(b) => Some(
            if b {
                "true"@
            } else {
                "false"@
            },
        ),
        _ => None,
    }
}

/// The text of the first value `steps` reach from `v`, if any.
pub open spec fn first_text(steps: Seq<PathStep>, v: Json) -> Option<Seq<char>> {
    let reached = eval_steps(steps, seq![v]);
    if reached.len() > 0 {
        json_text(reached[0])
    } else {
        None
    }
}

/// An optional string, or the empty string.
pub open spec fn or_empty(s: Option<Seq<char>>) -> Seq<char> {
    match s {
        Some(t) => t,
        None => Seq::empty(),
    }
}

/// What an extractor yields for `v`: the path's first value as text, then
/// the regex's capture (a miss counts as missing), else the default; then
/// prefix and suffix around it.
pub open spec fn extract_value(e: ExtractorModel, v: Json) -> Option<Seq<char>> {
    let raw = match e.path {
        Some(steps) => first_text(steps, v),
        None => None,
    };
    let matched = match e.regex {
        Some(re) => match raw {
            Some(s) => spec_regex_capture(re, s),
            None => None,
        },
        None => raw,
    };
    let chosen = match matched {
        Some(s) => Some(s),
        None => e.default,
    };
    match chosen {
        Some(s) => Some(or_empty(e.prefix) + s + or_empty(e.suffix)),
        None => None,
    }
}

/// The value a batch or version rule looks at: its path's first value as
/// text, or the extracted episode when it has no path.
pub open spec fn matcher_target(m: MatcherModel, item: Json, episode: Seq<char>) -> Option<Seq<char>> {
    match m.path {
        Some(steps) => first_text(steps, item),
        None => Some(episode),
    }
}

/// Whether a batch rule flags `item` as a batch.
pub open spec fn batch_matches(m: MatcherModel, item: Json, episode: Seq<char>) -> bool {
    match matcher_target(m, item, episode) {
        Some(t) => spec_regex_is_match(m.regex, t),
        None => false,
    }
}

/// What a version rule makes of `item`: the base episode and version
/// number, when its regex matches with both named groups and the version
/// is a `u32`.
pub open spec fn version_split(m: MatcherModel, item: Json, episode: Seq<char>) -> Option<(Seq<char>, u32)> {
    match matcher_target(m, item, episode) {
        Some(t) => match (spec_regex_named(m.regex, "episode"@, t), spec_regex_named(m.regex, "version"@, t)) {
            (Some(base), Some(n)) => match unsigned_text(n) {
                Some(v) => if v <= u32::MAX {
                    Some((base, v as u32))
                } else {
                    None
                },
                None => None,
            },
            _ => None,
        },
        None => None,
    }
}

/// Reads a JSON scalar as text.
pub fn value_to_string(value: &Json) -> (r: Option<String>)
    ensures
        opt_view(r) == json_text(*value),
{
    match value {
        Json::Str(s) => Some(s.clone()),
        Json::Number(n) => Some(n.clone()),
        Json::Bool(b) => {
            if *b {
                Some(owned("true"))
            } else {
                Some(owned("false"))
            }
        },
        _ => None,
    }
}

/// The text of the first value `path` reaches from `v`.
fn first_text_of(path: &JqPath, v: &Json) -> (r: Option<String>)
    ensures
        opt_view(r) == first_text(path.steps(), *v),
{
    match path.eval_first(v) {
        Some(x) => value_to_string(x),
        None => None,
    }
}

impl CompiledExtractor {
    /// Extracts this field's value from `value` (an item or a variant):
    /// evaluate `path` (if any), apply `regex` (if any), fall back to
    /// `default`, then apply `prefix`/`suffix`.
    pub fn extract(&self, value: &Json) -> (r: Option<String>)
        ensures
            opt_view(r) == extract_value(self@, *value),
    {
        let raw = match &self.path {
            Some(p) => first_text_of(p, value),
            None => None,
        };
        let matched = match &self.regex {
            Some(re) => match raw {
                Some(s) => regex_capture(re.as_str(), s.as_str()),
                None => None,
            },
            None => raw,
        };
        let chosen = match matched {
            Some(s) => Some(s),
            None => clone_opt(&self.default),
        };
        match chosen {
            Some(s) => {
                let mut out = String::new();
                if let Some(p) = &self.prefix {
                    append(&mut out, p.as_str());
                }
                append(&mut out, s.as_str());
                if let Some(x) = &self.suffix {
                    append(&mut out, x.as_str());
                }
                proof {
                    assert(out@ == or_empty(self@.prefix) + s@ + or_empty(self@.suffix));
                }
                Some(out)
            },
            None => None,
        }
    }
}

/// The value a batch or version rule looks at.
fn target_of(path: &Option<JqPath>, item: &Json, episode: &str) -> (r: Option<String>)
    ensures
        opt_view(r) == match path {
            Some(p) => first_text(p.steps(), *item),
            None => Some(episode@),
        },
{
    match path {
        Some(p) => first_text_of(p, item),
        None => Some(owned(episode)),
    }
}

impl BatchConfig {
    /// A batch table as a plugin writes it: `ignore` is `true` unless the
    /// table sets it.
    pub fn from_table(path: Option<String>, regex: String, ignore: Option<bool>) -> (r: BatchConfig)
        ensures
            r.path == path,
            r.regex == regex,
            r.ignore == match ignore {
                Some(b) => b,
                None => true,
            },
    {
        let ignore = match ignore {
            Some(b) => b,
            None => true,
        };
        BatchConfig { path, regex, ignore }
    }
}

impl CompiledBatch {
    /// Whether items this detects as a batch are skipped.
    pub fn skips(&self) -> (r: bool)
        ensures
            r == self@.ignore,
    {
        self.ignore
    }

    /// Whether `item` is a batch release: evaluates `path` against `item`
    /// (the already-extracted `episode` when `path` is unset) and checks
    /// whether `regex` matches it.
    pub fn matches(&self, item: &Json, episode: &str) -> (r: bool)
        ensures
            r == batch_matches(self@.matcher, *item, episode@),
    {
        match target_of(&self.path, item, episode) {
            Some(t) => regex_is_match(self.regex.as_str(), t.as_str()),
            None => false,
        }
    }
}

impl CompiledVersion {
    /// Splits a versioned episode (`"08v2"`) into its base episode and
    /// version number; `None` when the rule does not match.
    pub fn extract(&self, item: &Json, episode: &str) -> (r: Option<(String, u32)>)
        ensures
            match version_split(self@, *item, episode@) {
                Some((base, v)) => r matches Some(p) && p.0@ == base && p.1 == v,
                None => r is None,
            },
    {
        let t = match target_of(&self.path, item, episode) {
            Some(t) => t,
            None => return None,
        };
        let base = regex_named(self.regex.as_str(), "episode", t.as_str());
        let n = regex_named(self.regex.as_str(), "version", t.as_str());
        proof {
            reveal_strlit("episode");
            reveal_strlit("version");
        }
        match (base, n) {
            (Some(b), Some(n)) => match parse_unsigned(n.as_str(), 0xffff_ffffu64) {
                Some(v) => Some((b, v as u32)),
                None => None,
            },
            _ => None,
        }
    }
}

/// The first of two possible problems.
pub open spec fn first_problem(a: Option<Seq<char>>, b: Option<Seq<char>>) -> Option<Seq<char>> {
    if a is Some {
        a
    } else {
        b
    }
}

/// The problem with the jq path `raw` of field `field`, if it does not
/// parse: `<field>: invalid jq path "<raw>": <reason>`.
pub open spec fn path_problem(field: Seq<char>, raw: Seq<char>) -> Option<Seq<char>> {
    match parse_steps(raw) {
        Ok(_) => None,
        Err(f) => Some(field + ": "@ + jq_error_text(raw, failure_reason(f))),
    }
}

/// The problem with the regex `raw` of field `field`, if it does not
/// compile: `<field>.regex: <message>`.
pub open spec fn regex_problem(field: Seq<char>, raw: Seq<char>) -> Option<Seq<char>> {
    match spec_regex_error(raw) {
        Some(m) => Some(field + ".regex: "@ + m),
        None => None,
    }
}

/// The first problem with an extraction rule: its path, then its regex.
pub open spec fn extractor_problem(field: Seq<char>, e: FieldExtractor) -> Option<Seq<char>> {
    first_problem(
        match e.path {
            Some(p) => path_problem(field, p@),
            None => None,
        },
        match e.regex {
            Some(r) => regex_problem(field, r@),
            None => None,
        },
    )
}

/// The message for a version regex without both named groups.
pub open spec fn version_groups_message() -> Seq<char> {
    "version.regex must define named groups `episode` and `version`"@
}

/// The first problem with the batch table, if any.
pub open spec fn batch_problem(b: Option<BatchConfig>) -> Option<Seq<char>> {
    match b {
        Some(b) => first_problem(
            match b.path {
                Some(p) => path_problem("batch.path"@, p@),
                None => None,
            },
            regex_problem("batch"@, b.regex@),
        ),
        None => None,
    }
}

/// The first problem with the version table, if any: its path, its
/// regex, then the regex's named groups.
pub open spec fn version_problem(v: Option<VersionConfig>) -> Option<Seq<char>> {
    match v {
        Some(v) => first_problem(
            match v.path {
                Some(p) => path_problem("version.path"@, p@),
                None => None,
            },
            first_problem(
                regex_problem("version"@, v.regex@),
                if spec_regex_has_group(v.regex@, "episode"@) && spec_regex_has_group(v.regex@, "version"@) {
                    None
                } else {
                    Some(version_groups_message())
                },
            ),
        ),
        None => None,
    }
}

/// Why a plugin does not compile, or `None` when it does: an empty id,
/// then each path and regex in schema order.
pub open spec fn plugin_problem(p: SourcePlugin) -> Option<Seq<char>> {
    if trim(p.id@).len() == 0 {
        Some("source id cannot be empty"@)
    } else {
        let f = p.fields;
        first_problem(
            path_problem("items"@, p.items@),
            first_problem(
                path_problem("variants"@, p.variants@),
                first_problem(
                    extractor_problem("fields.series"@, f.series),
                    first_problem(
                        extractor_problem("fields.episode"@, f.episode),
                        first_problem(
                            extractor_problem("fields.season"@, f.season),
                            first_problem(
                                extractor_problem("fields.cover"@, f.cover),
                                first_problem(
                                    extractor_problem("fields.show_url"@, f.show_url),
                                    first_problem(
                                        extractor_problem("fields.id"@, f.id),
                                        first_problem(
                                            extractor_problem("fields.variant.resolution"@, f.variant.resolution),
                                            first_problem(
                                                extractor_problem("fields.variant.method"@, f.variant.method),
                                                first_problem(
                                                    extractor_problem("fields.variant.link"@, f.variant.link),
                                                    first_problem(batch_problem(p.batch), version_problem(p.version)),
                                                ),
                                            ),
                                        ),
                                    ),
                                ),
                            ),
                        ),
                    ),
                ),
            ),
        )
    }
}

/// The steps a path string parses to (empty when it does not parse).
pub open spec fn steps_of(raw: Seq<char>) -> Seq<PathStep> {
    match parse_steps(raw) {
        Ok(s) => s,
        Err(_) => Seq::empty(),
    }
}

/// The model of a compiled extraction rule.
pub open spec fn extractor_model(e: FieldExtractor) -> ExtractorModel {
    ExtractorModel {
        path: match e.path {
            Some(p) => Some(steps_of(p@)),
            None => None,
        },
        regex: opt_view(e.regex),
        default: opt_view(e.default),
        prefix: opt_view(e.prefix),
        suffix: opt_view(e.suffix),
    }
}

/// The model of a compiled batch or version rule.
pub open spec fn matcher_model(path: Option<String>, regex: Seq<char>) -> MatcherModel {
    MatcherModel {
        path: match path {
            Some(p) => Some(steps_of(p@)),
            None => None,
        },
        regex: regex,
    }
}

/// `c` is what compiling `p` produces.
pub open spec fn compiled_from(c: CompiledSource, p: SourcePlugin) -> bool {
    &&& c.id == p.id
    &&& c.endpoint == p.endpoint
    &&& c.method == p.method
    &&& c.interval == p.interval
    &&& c.resolution_wait == p.resolution_wait
    &&& c.headers@ == p.headers@
    &&& c.query@ == p.query@
    &&& c.body == p.body
    &&& c.items.steps() == steps_of(p.items@)
    &&& c.variants.steps() == steps_of(p.variants@)
    &&& c.fields.series@ == extractor_model(p.fields.series)
    &&& c.fields.episode@ == extractor_model(p.fields.episode)
    &&& c.fields.season@ == extractor_model(p.fields.season)
    &&& c.fields.cover@ == extractor_model(p.fields.cover)
    &&& c.fields.show_url@ == extractor_model(p.fields.show_url)
    &&& c.fields.id@ == extractor_model(p.fields.id)
    &&& c.fields.variant.resolution@ == extractor_model(p.fields.variant.resolution)
    &&& c.fields.variant.method@ == extractor_model(p.fields.variant.method)
    &&& c.fields.variant.link@ == extractor_model(p.fields.variant.link)
    &&& match (c.batch, p.batch) {
        (Some(cb), Some(pb)) => cb@.matcher == matcher_model(pb.path, pb.regex@) && cb@.ignore == pb.ignore,
        (None, None) => true,
        _ => false,
    }
    &&& match (c.version, p.version) {
        (Some(cv), Some(pv)) => cv@ == matcher_model(pv.path, pv.regex@),
        (None, None) => true,
        _ => false,
    }
    &&& c.icon_url == p.icon
}

/// Parses a path, annotating a failure with the field it belongs to.
fn parse_path(field: &str, raw: &str) -> (r: Result<JqPath, String>)
    ensures
        match path_problem(field@, raw@) {
            None => r matches Ok(p) && p.steps() == steps_of(raw@),
            Some(m) => r matches Err(e) && e@ == m,
        },
{
    match JqPath::parse(raw) {
        Ok(p) => Ok(p),
        Err(e) => {
            let mut msg = owned(field);
            append(&mut msg, ": ");
            let m = e.message();
            append(&mut msg, m.as_str());
            Err(msg)
        },
    }
}

/// Checks a regex, annotating a failure with the field it belongs to.
fn check_regex(field: &str, raw: &str) -> (r: Option<String>)
    ensures
        opt_view(r) == regex_problem(field@, raw@),
{
    match regex_error(raw) {
        Some(e) => {
            let mut msg = owned(field);
            append(&mut msg, ".regex: ");
            append(&mut msg, e.as_str());
            Some(msg)
        },
        None => None,
    }
}

/// Compiles one extraction rule.
fn compile_extractor(field: &str, raw: &FieldExtractor) -> (r: Result<CompiledExtractor, String>)
    ensures
        match extractor_problem(field@, *raw) {
            None => r matches Ok(c) && c@ == extractor_model(*raw),
            Some(m) => r matches Err(e) && e@ == m,
        },
{
    let path = match &raw.path {
        Some(p) => match parse_path(field, p.as_str()) {
            Ok(jp) => Some(jp),
            Err(e) => return Err(e),
        },
        None => None,
    };
    if let Some(re) = &raw.regex {
        if let Some(e) = check_regex(field, re.as_str()) {
            return Err(e);
        }
    }
    Ok(CompiledExtractor {
        path,
        regex: clone_opt(&raw.regex),
        default: clone_opt(&raw.default),
        prefix: clone_opt(&raw.prefix),
        suffix: clone_opt(&raw.suffix),
    })
}

/// Compiles the batch table.
fn compile_batch(b: &Option<BatchConfig>) -> (r: Result<Option<CompiledBatch>, String>)
    ensures
        match batch_problem(*b) {
            None => r matches Ok(c) && match (c, *b) {
                (Some(cb), Some(pb)) => cb@.matcher == matcher_model(pb.path, pb.regex@) && cb@.ignore == pb.ignore,
                (None, None) => true,
                _ => false,
            },
            Some(m) => r matches Err(e) && e@ == m,
        },
{
    match b {
        None => Ok(None),
        Some(b) => {
            let path = match &b.path {
                Some(p) => match parse_path("batch.path", p.as_str()) {
                    Ok(jp) => Some(jp),
                    Err(e) => return Err(e),
                },
                None => None,
            };
            if let Some(e) = check_regex("batch", b.regex.as_str()) {
                return Err(e);
            }
            Ok(Some(CompiledBatch { path, regex: b.regex.clone(), ignore: b.ignore }))
        },
    }
}

/// Compiles the version table.
fn compile_version(v: &Option<VersionConfig>) -> (r: Result<Option<CompiledVersion>, String>)
    ensures
        match version_problem(*v) {
            None => r matches Ok(c) && match (c, *v) {
                (Some(cv), Some(pv)) => cv@ == matcher_model(pv.path, pv.regex@),
                (None, None) => true,
                _ => false,
            },
            Some(m) => r matches Err(e) && e@ == m,
        },
{
    match v {
        None => Ok(None),
        Some(v) => {
            let path = match &v.path {
                Some(p) => match parse_path("version.path", p.as_str()) {
                    Ok(jp) => Some(jp),
                    Err(e) => return Err(e),
                },
                None => None,
            };
            if let Some(e) = check_regex("version", v.regex.as_str()) {
                return Err(e);
            }
            let has_episode = regex_has_group(v.regex.as_str(), "episode");
            let has_version = regex_has_group(v.regex.as_str(), "version");
            proof {
                reveal_strlit("episode");
                reveal_strlit("version");
            }
            if !(has_episode && has_version) {
                return Err(owned("version.regex must define named groups `episode` and `version`"));
            }
            Ok(Some(CompiledVersion { path, regex: v.regex.clone() }))
        },
    }
}

impl SourcePlugin {
    /// The HTTP method of a plugin whose file names none: `GET`.
    pub fn default_method() -> (r: String)
        ensures
            r@ == "GET"@,
    {
        owned("GET")
    }

    /// The variants path of a plugin whose file names none: `.`, so that
    /// each item is its own single variant.
    pub fn default_variants() -> (r: String)
        ensures
            r@ == "."@,
    {
        owned(".")
    }

    /// Validates and pre-parses every jq path and regex in this plugin,
    /// producing a [`CompiledSource`] ready for repeated use.
    pub fn compile(&self) -> (r: Result<CompiledSource, SourceError>)
        ensures
            match plugin_problem(*self) {
                None => r matches Ok(c) && compiled_from(c, *self),
                Some(m) => r matches Err(SourceError::Invalid(msg)) && msg@ == m,
            },
    {
        let trimmed = trim_str(self.id.as_str());
        if trimmed.as_str().unicode_len() == 0 {
            return Err(SourceError::Invalid(owned("source id cannot be empty")));
        }
        let items = match parse_path("items", self.items.as_str()) {
            Ok(p) => p,
            Err(e) => return Err(SourceError::Invalid(e)),
        };
        let variants = match parse_path("variants", self.variants.as_str()) {
            Ok(p) => p,
            Err(e) => return Err(SourceError::Invalid(e)),
        };
        let f = &self.fields;
        let series = match compile_extractor("fields.series", &f.series) {
            Ok(c) => c,
            Err(e) => return Err(SourceError::Invalid(e)),
        };
        let episode = match compile_extractor("fields.episode", &f.episode) {
            Ok(c) => c,
            Err(e) => return Err(SourceError::Invalid(e)),
        };
        let season = match compile_extractor("fields.season", &f.season) {
            Ok(c) => c,
            Err(e) => return Err(SourceError::Invalid(e)),
        };
        let cover = match compile_extractor("fields.cover", &f.cover) {
            Ok(c) => c,
            Err(e) => return Err(SourceError::Invalid(e)),
        };
        let show_url = match compile_extractor("fields.show_url", &f.show_url) {
            Ok(c) => c,
            Err(e) => return Err(SourceError::Invalid(e)),
        };
        let id = match compile_extractor("fields.id", &f.id) {
            Ok(c) => c,
            Err(e) => return Err(SourceError::Invalid(e)),
        };
        let resolution = match compile_extractor("fields.variant.resolution", &f.variant.resolution) {
            Ok(c) => c,
            Err(e) => return Err(SourceError::Invalid(e)),
        };
        let method = match compile_extractor("fields.variant.method", &f.variant.method) {
            Ok(c) => c,
            Err(e) => return Err(SourceError::Invalid(e)),
        };
        let link = match compile_extractor("fields.variant.link", &f.variant.link) {
            Ok(c) => c,
            Err(e) => return Err(SourceError::Invalid(e)),
        };
        let batch = match compile_batch(&self.batch) {
            Ok(b) => b,
            Err(e) => return Err(SourceError::Invalid(e)),
        };
        let version = match compile_version(&self.version) {
            Ok(v) => v,
            Err(e) => return Err(SourceError::Invalid(e)),
        };
        Ok(CompiledSource {
            id: self.id.clone(),
            endpoint: self.endpoint.clone(),
            method: self.method.clone(),
            interval: self.interval,
            resolution_wait: self.resolution_wait,
            headers: clone_pairs(&self.headers),
            query: clone_pairs(&self.query),
            body: clone_opt(&self.body),
            items,
            variants,
            fields: CompiledFieldSet {
                series,
                episode,
                season,
                cover,
                show_url,
                id,
                variant: CompiledVariantFields { resolution, method, link },
            },
            batch,
            version,
            icon_url: clone_opt(&self.icon),
        })
    }

    /// The plugin text with its environment-variable references expanded
    /// against the snapshot `vars`, ready for the TOML parser; unresolved
    /// references are left as they are.
    pub fn expand_env_text(raw: &str, vars: &Vec<(String, String)>) -> (r: String)
        ensures
            r@ == spec_env_expand(raw@, pairs_view(vars@)),
    {
        expand_env(raw, vars)
    }
}

/// A copy of a list of string pairs.
pub fn clone_pairs(v: &Vec<(String, String)>) -> (r: Vec<(String, String)>)
    ensures
        r@ == v@,
{
    let mut out: Vec<(String, String)> = Vec::new();
    let mut i: usize = 0;
    while i < v.len()
        invariant
            i <= v@.len(),
            out@ == v@.take(i as int),
        decreases v@.len() - i,
    {
        let a = v[i].0.clone();
        let b = v[i].1.clone();
        out.push((a, b));
        proof {
            assert(v@.take(i + 1) == v@.take(i as int).push(v@[i as int]));
        }
        i = i + 1;
    }
    proof {
        assert(v@.take(v@.len() as int) == v@);
    }
    out
}


/// The text of a plugin error.
pub open spec fn source_error_text(e: SourceError) -> Seq<char> {
    match e {
        SourceError::Read { path, message } => "failed to read source plugin "@ + path@ + ": "@ + message@,
        SourceError::Parse { path, message } => "failed to parse source plugin "@ + path@ + ": "@ + message@,
        SourceError::Invalid(m) => "invalid source plugin: "@ + m@,
    }
}

impl SourceError {
    /// The error's text, as shown to the user.
    pub fn message(&self) -> (r: String)
        ensures
            r@ == source_error_text(*self),
    {
        match self {
            SourceError::Read { path, message } => {
                let mut out = owned("failed to read source plugin ");
                append(&mut out, path.as_str());
                append(&mut out, ": ");
                append(&mut out, message.as_str());
                out
            },
            SourceError::Parse { path, message } => {
                let mut out = owned("failed to parse source plugin ");
                append(&mut out, path.as_str());
                append(&mut out, ": ");
                append(&mut out, message.as_str());
                out
            },
            SourceError::Invalid(m) => {
                let mut out = owned("invalid source plugin: ");
                append(&mut out, m.as_str());
                out
            },
        }
    }
}

} // verus!
