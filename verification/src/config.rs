//! The declarative `config.toml` schema: download paths, notification and
//! version policies, categories and rules, and source locations. This is
//! the read-only half of the service's state; per-show state lives in the
//! database.

use vstd::prelude::*;

use crate::keyed::{find_entry, lookup, duplicate_key, find_duplicate};
use crate::model::{opt_view, clone_opt, method_named, DownloadMethod};
use crate::paths::{
    default_db_path, default_download_dir, expand_env, expand_tilde, join, join_spec, pairs_view,
    spec_env_expand, spec_tilde,
};
use crate::regexes::{regex_error, spec_regex_error};
use crate::text::{append, debug_str, has_suffix, is_ws, owned, spec_debug_str, str_eq, trim, trim_str};

verus! {

/// How the database is reached.
#[derive(Debug, Clone)]
pub enum DbConfig {
    /// A local SQLite file on disk.
    Local {
        /// Path to the database file (`~` is expanded).
        path: String,
    },
    /// A remote libSQL/Turso database.
    Remote {
        /// The `libsql://...` connection URL.
        url: String,
        /// Optional auth token (commonly `${TURSO_TOKEN}` via env expansion).
        auth_token: Option<String>,
    },
}

/// Global daemon settings.
#[derive(Debug, Clone)]
pub struct General {
    /// How often, in milliseconds, to poll a source that doesn't set its
    /// own interval.
    pub default_interval: u64,
    /// Where series/episode/interaction state is stored.
    pub db: DbConfig,
}

/// A download-path/behavior override, per method and/or per source.
#[derive(Debug, Clone, Default)]
pub struct MethodOverride {
    /// Directory to save direct downloads / `.torrent` files into.
    pub dir: Option<String>,
    /// For `torrent`: directory a torrent client watches for new files.
    pub watch_dir: Option<String>,
    /// A command template to hand the link to, with `{magnet}` / `{link}`
    /// substituted.
    pub command: Option<String>,
}

/// Per-source download overrides.
#[derive(Debug, Clone, Default)]
pub struct SourceDownloadOverride {
    /// Directory for all of this source's downloads, regardless of method.
    pub dir: Option<String>,
    /// Per-source, per-method overrides (highest precedence), keyed by
    /// method name.
    pub methods: Vec<(String, MethodOverride)>,
}

/// Download path resolution and favourite method/resolution settings.
#[derive(Debug, Clone)]
pub struct Downloads {
    /// Base directory: `<base_dir>/<source>/<method>` when no override
    /// applies.
    pub base_dir: String,
    /// Favourite download method.
    pub default_method: DownloadMethod,
    /// Desired resolution, as bare digits (`"1080"`).
    pub default_resolution: String,
    /// Preference order for falling back once `resolution_wait` elapses.
    pub resolution_fallback: Vec<String>,
    /// How long, in milliseconds, to wait for the desired resolution.
    pub resolution_wait: u64,
    /// Per-method overrides, keyed by method name.
    pub methods: Vec<(String, MethodOverride)>,
    /// Per-source overrides, keyed by source id.
    pub sources: Vec<(String, SourceDownloadOverride)>,
}

/// A per-source notification sound override.
#[derive(Debug, Clone, Default)]
pub struct SourceNotificationOverride {
    /// This source's notification sound file.
    pub sound_file: Option<String>,
    /// This source's sound-theme name, used when `sound_file` is unset.
    pub sound_name: Option<String>,
}

/// Notification behavior that isn't per-category.
#[derive(Debug, Clone)]
pub struct NotificationsConfig {
    /// Whether clicking a notification's body opens the show's page.
    pub open_show_page: bool,
    /// Command used to open a show's page, e.g. `"firefox {url}"`.
    pub open_command: Option<String>,
    /// Default notification sound file.
    pub sound_file: Option<String>,
    /// Default sound-theme name, used when `sound_file` is unset.
    pub sound_name: Option<String>,
    /// Per-source sound overrides, keyed by source id.
    pub sources: Vec<(String, SourceNotificationOverride)>,
}

/// What to do about a versioned re-release (`"08v2"`).
#[derive(Debug, Clone, Copy, PartialEq, Eq, Structural)]
pub enum VersionMode {
    /// Never notify/download a version bump.
    Ignore,
    /// Only a version bump of the series' current latest episode.
    LatestOnly,
    /// Every version, like any other release.
    All,
}

/// A per-source version policy override.
#[derive(Debug, Clone, Default)]
pub struct SourceVersionOverride {
    /// This source's mode, when set.
    pub mode: Option<VersionMode>,
}

/// The `[versions]` policy.
#[derive(Debug, Clone)]
pub struct VersionsConfig {
    /// The global mode.
    pub mode: VersionMode,
    /// Per-source overrides, keyed by source id.
    pub sources: Vec<(String, SourceVersionOverride)>,
}

/// A category definition: a name plus the behavior it implies.
#[derive(Debug, Clone)]
pub struct CategoryDef {
    /// Category name.
    pub name: String,
    /// Whether new episodes notify.
    pub notify: bool,
    /// Whether new episodes download automatically.
    pub auto_download: bool,
}

/// A declarative rule seeding a series' category by matching its title.
#[derive(Debug, Clone)]
pub struct Rule {
    /// Exact (case-sensitive) title match.
    pub match_exact: Option<String>,
    /// Regex title match, used when `match_exact` isn't set.
    pub match_regex: Option<String>,
    /// Category to assign when this rule matches.
    pub category: String,
}

/// Top-level config, as loaded from `config.toml`.
#[derive(Debug, Clone)]
pub struct Config {
    /// Global daemon settings.
    pub general: General,
    /// Download path resolution and favourite method/resolution.
    pub downloads: Downloads,
    /// Notification behavior not covered by categories.
    pub notifications: NotificationsConfig,
    /// Versioned-release policy.
    pub versions: VersionsConfig,
    /// Category definitions.
    pub categories: Vec<CategoryDef>,
    /// Rules seeding a series' category from its title.
    pub rules: Vec<Rule>,
    /// Source plugin locations: local paths or URLs.
    pub sources: Vec<String>,
}

/// Errors loading or validating a [`Config`].
#[derive(Debug, Clone)]
pub enum ConfigError {
    /// The config file could not be read.
    Read {
        /// Path that failed to read.
        path: String,
        /// The I/O error's message.
        message: String,
    },
    /// The file's contents were not valid TOML for the schema.
    Parse {
        /// Path that failed to parse.
        path: String,
        /// The parser's message.
        message: String,
    },
    /// The config parsed but failed a semantic check.
    Invalid(String),
}

/// Copies a method override.
pub fn dup_override(o: &MethodOverride) -> (r: MethodOverride)
    ensures
        r == *o,
{
    MethodOverride {
        dir: clone_opt(&o.dir),
        watch_dir: clone_opt(&o.watch_dir),
        command: clone_opt(&o.command),
    }
}

/// The first of two optional values that is set.
pub open spec fn or_opt(a: Option<String>, b: Option<String>) -> Option<String> {
    if a is Some {
        a
    } else {
        b
    }
}

/// `top` with each unset field taken from `base`.
pub open spec fn merged(top: MethodOverride, base: MethodOverride) -> MethodOverride {
    MethodOverride {
        dir: or_opt(top.dir, base.dir),
        watch_dir: or_opt(top.watch_dir, base.watch_dir),
        command: or_opt(top.command, base.command),
    }
}

/// The override with nothing set.
pub open spec fn no_override() -> MethodOverride {
    MethodOverride { dir: None, watch_dir: None, command: None }
}

/// The override in force for `(source_id, method)`: per-source+method over
/// per-method over the per-source dir, or just per-method when the source
/// has no override table.
pub open spec fn effective(d: Downloads, source_id: Seq<char>, method: DownloadMethod) -> MethodOverride {
    let pm = match lookup(d.methods@, method.name()) {
        Some(o) => o,
        None => no_override(),
    };
    match lookup(d.sources@, source_id) {
        None => pm,
        Some(s) => {
            let m = MethodOverride { dir: or_opt(pm.dir, s.dir), watch_dir: pm.watch_dir, command: pm.command };
            match lookup(s.methods@, method.name()) {
                Some(sm) => merged(sm, m),
                None => m,
            }
        },
    }
}

/// The directory a `(source_id, method)` download goes to.
pub open spec fn resolved_dir(d: Downloads, source_id: Seq<char>, method: DownloadMethod) -> Seq<char> {
    let e = effective(d, source_id, method);
    if method == DownloadMethod::Torrent && e.watch_dir is Some {
        e.watch_dir.unwrap()@
    } else {
        match e.dir {
            Some(dir) => dir@,
            None => join_spec(join_spec(d.base_dir@, source_id), method.name()),
        }
    }
}

impl MethodOverride {
    /// `self` with each unset field taken from `base`.
    pub fn merge_over(&self, base: &MethodOverride) -> (r: MethodOverride)
        ensures
            r == merged(*self, *base),
    {
        MethodOverride {
            dir: if self.dir.is_some() { clone_opt(&self.dir) } else { clone_opt(&base.dir) },
            watch_dir: if self.watch_dir.is_some() {
                clone_opt(&self.watch_dir)
            } else {
                clone_opt(&base.watch_dir)
            },
            command: if self.command.is_some() {
                clone_opt(&self.command)
            } else {
                clone_opt(&base.command)
            },
        }
    }
}

impl Downloads {
    /// The override in force for `(source_id, method)`: per-source+method
    /// over per-method over per-source.
    pub fn effective_override(&self, source_id: &str, method: DownloadMethod) -> (r: MethodOverride)
        ensures
            r == effective(*self, source_id@, method),
    {
        let per_method = match find_entry(&self.methods, method.as_str()) {
            Some(o) => dup_override(o),
            None => MethodOverride { dir: None, watch_dir: None, command: None },
        };
        let source = match find_entry(&self.sources, source_id) {
            Some(s) => s,
            None => return per_method,
        };
        let per_source = MethodOverride { dir: clone_opt(&source.dir), watch_dir: None, command: None };
        let m = per_method.merge_over(&per_source);
        match find_entry(&source.methods, method.as_str()) {
            Some(per_source_method) => per_source_method.merge_over(&m),
            None => m,
        }
    }

    /// The directory a `(source_id, method)` download is saved/dropped
    /// into: the effective override's `dir` (for `torrent`, its
    /// `watch_dir` first), else `<base_dir>/<source_id>/<method>`.
    pub fn resolve_dir(&self, source_id: &str, method: DownloadMethod) -> (r: String)
        ensures
            r@ == resolved_dir(*self, source_id@, method),
    {
        let e = self.effective_override(source_id, method);
        if method == DownloadMethod::Torrent {
            if let Some(w) = e.watch_dir {
                return w;
            }
        }
        match e.dir {
            Some(dir) => dir,
            None => {
                let s = join(self.base_dir.as_str(), source_id);
                join(s.as_str(), method.as_str())
            },
        }
    }

    /// The hand-off command for `(source_id, method)`, if any override
    /// configures one.
    pub fn resolve_command(&self, source_id: &str, method: DownloadMethod) -> (r: Option<String>)
        ensures
            r == effective(*self, source_id@, method).command,
    {
        self.effective_override(source_id, method).command
    }
}

/// The three seeded categories, as data.
pub open spec fn default_categories_spec(cs: Seq<CategoryDef>) -> bool {
    &&& cs.len() == 3
    &&& cs[0].name@ == "liked"@ && cs[0].notify && cs[0].auto_download
    &&& cs[1].name@ == "normal"@ && cs[1].notify && !cs[1].auto_download
    &&& cs[2].name@ == "uninterested"@ && !cs[2].notify && !cs[2].auto_download
}

impl CategoryDef {
    /// The three seeded categories: `liked` (notify + auto-download),
    /// `normal` (notify only), `uninterested` (neither — the blacklist).
    pub fn defaults() -> (r: Vec<CategoryDef>)
        ensures
            default_categories_spec(r@),
    {
        let mut v = Vec::new();
        v.push(CategoryDef { name: owned("liked"), notify: true, auto_download: true });
        v.push(CategoryDef { name: owned("normal"), notify: true, auto_download: false });
        v.push(CategoryDef { name: owned("uninterested"), notify: false, auto_download: false });
        v
    }
}

impl Default for DbConfig {
    fn default() -> (r: DbConfig)
        ensures
            r matches DbConfig::Local { path } && has_suffix(path@, "data.db"@),
    {
        DbConfig::Local { path: default_db_path() }
    }
}

impl Default for General {
    fn default() -> (r: General)
        ensures
            r.default_interval == 15 * 60 * 1000,
            r.db matches DbConfig::Local { path } && has_suffix(path@, "data.db"@),
    {
        General {
            default_interval: 15 * 60 * 1000,
            db: DbConfig::default(),
        }
    }
}

impl Default for Downloads {
    fn default() -> (r: Downloads)
        ensures
            r.default_method == DownloadMethod::Direct,
            r.default_resolution@ == "1080"@,
            r.resolution_fallback@.len() == 3,
            r.resolution_fallback@[0]@ == "1080"@,
            r.resolution_fallback@[1]@ == "720"@,
            r.resolution_fallback@[2]@ == "480"@,
            r.resolution_wait == 30 * 60 * 1000,
            r.methods@.len() == 0,
            r.sources@.len() == 0,
            has_suffix(r.base_dir@, "anime-notif"@) || r.base_dir@ == "anime-notif-downloads"@,
    {
        let mut fallback = Vec::new();
        fallback.push(owned("1080"));
        fallback.push(owned("720"));
        fallback.push(owned("480"));
        Downloads {
            base_dir: default_download_dir(),
            default_method: DownloadMethod::Direct,
            default_resolution: owned("1080"),
            resolution_fallback: fallback,
            resolution_wait: 30 * 60 * 1000,
            methods: Vec::new(),
            sources: Vec::new(),
        }
    }
}

impl Default for NotificationsConfig {
    fn default() -> (r: NotificationsConfig)
        ensures
            r.open_show_page,
            r.open_command is None,
            r.sound_file is None,
            r.sound_name is None,
            r.sources@.len() == 0,
    {
        NotificationsConfig {
            open_show_page: true,
            open_command: None,
            sound_file: None,
            sound_name: None,
            sources: Vec::new(),
        }
    }
}

impl Default for VersionsConfig {
    fn default() -> (r: VersionsConfig)
        ensures
            r.mode == VersionMode::LatestOnly,
            r.sources@.len() == 0,
    {
        VersionsConfig { mode: VersionMode::LatestOnly, sources: Vec::new() }
    }
}

impl Default for Config {
    fn default() -> (r: Config)
        ensures
            r.general.default_interval == 15 * 60 * 1000,
            r.general.db matches DbConfig::Local { path } && has_suffix(path@, "data.db"@),
            r.downloads.default_method == DownloadMethod::Direct,
            r.downloads.default_resolution@ == "1080"@,
            r.downloads.resolution_fallback@.len() == 3,
            r.downloads.resolution_fallback@[0]@ == "1080"@,
            r.downloads.resolution_fallback@[1]@ == "720"@,
            r.downloads.resolution_fallback@[2]@ == "480"@,
            r.downloads.resolution_wait == 30 * 60 * 1000,
            has_suffix(r.downloads.base_dir@, "anime-notif"@) || r.downloads.base_dir@ == "anime-notif-downloads"@,
            r.downloads.methods@.len() == 0,
            r.downloads.sources@.len() == 0,
            r.notifications.open_show_page,
            r.notifications.open_command is None,
            r.notifications.sound_file is None,
            r.notifications.sound_name is None,
            r.notifications.sources@.len() == 0,
            r.versions.mode == VersionMode::LatestOnly,
            r.versions.sources@.len() == 0,
            default_categories_spec(r.categories@),
            r.rules@.len() == 0,
            r.sources@.len() == 0,
    {
        Config {
            general: General::default(),
            downloads: Downloads::default(),
            notifications: NotificationsConfig::default(),
            versions: VersionsConfig::default(),
            categories: CategoryDef::defaults(),
            rules: Vec::new(),
            sources: Vec::new(),
        }
    }
}

/// The first problem among the category definitions from index `i` on:
/// an empty (after trimming) name, or a name already used earlier.
pub open spec fn category_error(cats: Seq<CategoryDef>, i: int) -> Option<Seq<char>>
    decreases cats.len() - i,
{
    if i < 0 || i >= cats.len() {
        None
    } else if trim(cats[i].name@).len() == 0 {
        Some("category name cannot be empty"@)
    } else if exists|j: int| 0 <= j < i && cats[j].name@ == cats[i].name@ {
        Some("duplicate category name: "@ + cats[i].name@)
    } else {
        category_error(cats, i + 1)
    }
}

/// Every method key of the per-method table, then those of each source's
/// table, in order.
pub open spec fn method_keys(d: Downloads) -> Seq<Seq<char>> {
    keys_of(d.methods@) + source_method_keys(d.sources@)
}

/// The keys of a keyed table.
pub open spec fn keys_of<T>(entries: Seq<(String, T)>) -> Seq<Seq<char>> {
    entries.map_values(|e: (String, T)| e.0@)
}

/// The method keys of each source's table, in order.
pub open spec fn source_method_keys(sources: Seq<(String, SourceDownloadOverride)>) -> Seq<Seq<char>>
    decreases sources.len(),
{
    if sources.len() == 0 {
        seq![]
    } else {
        source_method_keys(sources.drop_last()) + keys_of(sources.last().1.methods@)
    }
}

/// Whether a key is the name of a download method, as lookups spell it:
/// exactly `direct`, `torrent` or `magnet`.
pub open spec fn is_method_key(k: Seq<char>) -> bool {
    k == "direct"@ || k == "torrent"@ || k == "magnet"@
}

/// The first key that is not a method name, if any.
pub open spec fn first_unknown_method(keys: Seq<Seq<char>>) -> Option<Seq<char>>
    decreases keys.len(),
{
    if keys.len() == 0 {
        None
    } else if !is_method_key(keys[0]) {
        Some(keys[0])
    } else {
        first_unknown_method(keys.drop_first())
    }
}

/// Whether a category of this name is defined.
pub open spec fn defines_category(cats: Seq<CategoryDef>, name: Seq<char>) -> bool {
    exists|j: int| 0 <= j < cats.len() && cats[j].name@ == name
}

/// The first problem among the rules from index `i` on.
pub open spec fn rule_error(rules: Seq<Rule>, cats: Seq<CategoryDef>, i: int) -> Option<Seq<char>>
    decreases rules.len() - i,
{
    if i < 0 || i >= rules.len() {
        None
    } else if rules[i].match_exact is None && rules[i].match_regex is None {
        Some("rule must set `match` or `match_regex`"@)
    } else if rules[i].match_exact is Some && rules[i].match_regex is Some {
        Some("rule must not set both `match` and `match_regex`"@)
    } else if rules[i].match_regex is Some && spec_regex_error(rules[i].match_regex.unwrap()@) is Some {
        Some("invalid match_regex "@ + spec_debug_str(rules[i].match_regex.unwrap()@) + ": "@
            + spec_regex_error(rules[i].match_regex.unwrap()@).unwrap())
    } else if !defines_category(cats, rules[i].category@) {
        Some("rule references undefined category: "@ + rules[i].category@)
    } else {
        rule_error(rules, cats, i + 1)
    }
}

/// The first repeated key among the method tables of the source
/// download overrides, in order.
pub open spec fn source_methods_duplicate(sources: Seq<(String, SourceDownloadOverride)>) -> Option<Seq<char>>
    decreases sources.len(),
{
    if sources.len() == 0 {
        None
    } else if duplicate_key(sources[0].1.methods@) is Some {
        duplicate_key(sources[0].1.methods@)
    } else {
        source_methods_duplicate(sources.drop_first())
    }
}

/// The first key repeated within one of the config's keyed tables (a TOML
/// table cannot hold a key twice): the download method and source tables,
/// each source's method table, and the notification and version source
/// tables, in that order.
pub open spec fn duplicate_in_tables(c: Config) -> Option<Seq<char>> {
    if duplicate_key(c.downloads.methods@) is Some {
        duplicate_key(c.downloads.methods@)
    } else if duplicate_key(c.downloads.sources@) is Some {
        duplicate_key(c.downloads.sources@)
    } else if source_methods_duplicate(c.downloads.sources@) is Some {
        source_methods_duplicate(c.downloads.sources@)
    } else if duplicate_key(c.notifications.sources@) is Some {
        duplicate_key(c.notifications.sources@)
    } else {
        duplicate_key(c.versions.sources@)
    }
}

/// Why a config is invalid, or `None` when it passes every check:
/// categories first, then method keys, then repeated table keys, then rules.
pub open spec fn config_problem(c: Config) -> Option<Seq<char>> {
    if c.categories@.len() == 0 {
        Some("at least one category must be defined"@)
    } else if category_error(c.categories@, 0) is Some {
        category_error(c.categories@, 0)
    } else if first_unknown_method(method_keys(c.downloads)) is Some {
        Some("unknown download method in config: "@ + first_unknown_method(method_keys(c.downloads)).unwrap()
            + " (expected direct/torrent/magnet)"@)
    } else if duplicate_in_tables(c) is Some {
        Some("duplicate key in config: "@ + duplicate_in_tables(c).unwrap())
    } else {
        rule_error(c.rules@, c.categories@, 0)
    }
}

/// A key of `keys` naming no method, by position.
fn check_keys<T>(entries: &Vec<(String, T)>) -> (r: Option<String>)
    ensures
        r matches Some(k) ==> first_unknown_method(keys_of(entries@)) == Some(k@),
        r is None ==> first_unknown_method(keys_of(entries@)) is None,
{
    let mut i: usize = 0;
    proof {
        assert(keys_of(entries@).skip(0) == keys_of(entries@));
    }
    while i < entries.len()
        invariant
            i <= entries@.len(),
            first_unknown_method(keys_of(entries@)) == first_unknown_method(keys_of(entries@).skip(i as int)),
        decreases entries@.len() - i,
    {
        proof {
            assert(keys_of(entries@).skip(i as int).drop_first() == keys_of(entries@).skip(i + 1));
            assert(keys_of(entries@).skip(i as int)[0] == entries@[i as int].0@);
        }
        let k = entries[i].0.as_str();
        if !(str_eq(k, "direct") || str_eq(k, "torrent") || str_eq(k, "magnet")) {
            return Some(entries[i].0.clone());
        }
        i = i + 1;
    }
    None
}

proof fn lemma_first_unknown_append(a: Seq<Seq<char>>, b: Seq<Seq<char>>)
    ensures
        first_unknown_method(a + b) == if first_unknown_method(a) is Some {
            first_unknown_method(a)
        } else {
            first_unknown_method(b)
        },
    decreases a.len(),
{
    if a.len() > 0 {
        assert((a + b).drop_first() == a.drop_first() + b);
        lemma_first_unknown_append(a.drop_first(), b);
    } else {
        assert(a + b == b);
    }
}

/// The first problem among the category definitions, if any.
fn check_categories(cats: &Vec<CategoryDef>) -> (r: Option<String>)
    ensures
        r matches Some(m) ==> category_error(cats@, 0) == Some(m@),
        r is None ==> category_error(cats@, 0) is None,
{
    let mut i: usize = 0;
    while i < cats.len()
        invariant
            i <= cats@.len(),
            category_error(cats@, 0) == category_error(cats@, i as int),
        decreases cats@.len() - i,
    {
        let name = cats[i].name.as_str();
        let trimmed = trim_str(name);
        if trimmed.as_str().unicode_len() == 0 {
            proof {
                assert(trim(cats@[i as int].name@).len() == 0);
            }
            return Some(owned("category name cannot be empty"));
        }
        assert(trim(cats@[i as int].name@).len() != 0);
        let mut j: usize = 0;
        while j < i
            invariant
                j <= i < cats@.len(),
                name@ == cats@[i as int].name@,
                trim(cats@[i as int].name@).len() != 0,
                category_error(cats@, 0) == category_error(cats@, i as int),
                forall|k: int| 0 <= k < j ==> cats@[k].name@ != cats@[i as int].name@,
            decreases i - j,
        {
            if str_eq(cats[j].name.as_str(), name) {
                let mut msg = owned("duplicate category name: ");
                append(&mut msg, name);
                proof {
                    assert(cats@[j as int].name@ == cats@[i as int].name@);
                    assert(trim(cats@[i as int].name@).len() != 0);
                }
                return Some(msg);
            }
            j = j + 1;
        }
        proof {
            assert(trim(cats@[i as int].name@).len() != 0);
            assert(!(exists|k: int| 0 <= k < i && cats@[k].name@ == cats@[i as int].name@));
        }
        i = i + 1;
    }
    None
}

/// The first method key, per-method table first, that names no method.
fn check_method_keys(d: &Downloads) -> (r: Option<String>)
    ensures
        r matches Some(k) ==> first_unknown_method(method_keys(*d)) == Some(k@),
        r is None ==> first_unknown_method(method_keys(*d)) is None,
{
    proof {
        lemma_first_unknown_append(keys_of(d.methods@), source_method_keys(d.sources@));
    }
    if let Some(k) = check_keys(&d.methods) {
        return Some(k);
    }
    let mut s: usize = 0;
    while s < d.sources.len()
        invariant
            s <= d.sources@.len(),
            first_unknown_method(keys_of(d.methods@)) is None,
            first_unknown_method(method_keys(*d)) == first_unknown_method(source_method_keys(d.sources@)),
            first_unknown_method(source_method_keys(d.sources@.take(s as int))) is None,
        decreases d.sources@.len() - s,
    {
        proof {
            assert(d.sources@.take(s + 1).drop_last() == d.sources@.take(s as int));
            lemma_first_unknown_append(
                source_method_keys(d.sources@.take(s as int)),
                keys_of(d.sources@[s as int].1.methods@),
            );
        }
        if let Some(k) = check_keys(&d.sources[s].1.methods) {
            proof {
                let pre = d.sources@.take(s + 1);
                let post = d.sources@.skip(s + 1);
                lemma_source_keys_split(d.sources@, s + 1);
                lemma_first_unknown_append(source_method_keys(pre), source_method_keys(post));
            }
            return Some(k);
        }
        s = s + 1;
    }
    proof {
        assert(d.sources@.take(d.sources@.len() as int) == d.sources@);
    }
    None
}

/// Whether some category is named `name`.
fn has_category(cats: &Vec<CategoryDef>, name: &str) -> (r: bool)
    ensures
        r == defines_category(cats@, name@),
{
    let mut j: usize = 0;
    while j < cats.len()
        invariant
            j <= cats@.len(),
            forall|m: int| 0 <= m < j ==> cats@[m].name@ != name@,
        decreases cats@.len() - j,
    {
        if str_eq(cats[j].name.as_str(), name) {
            return true;
        }
        j = j + 1;
    }
    false
}

/// The first problem among the rules, if any.
/// The first repeated key among the config's keyed tables.
fn check_duplicates(c: &Config) -> (r: Option<String>)
    ensures
        match duplicate_in_tables(*c) {
            Some(k) => r matches Some(s) && s@ == k,
            None => r is None,
        },
{
    if let Some(k) = find_duplicate(&c.downloads.methods) {
        return Some(k);
    }
    if let Some(k) = find_duplicate(&c.downloads.sources) {
        return Some(k);
    }
    let srcs = &c.downloads.sources;
    let mut i: usize = 0;
    proof {
        assert(srcs@.skip(0) == srcs@);
    }
    while i < srcs.len()
        invariant
            i <= srcs@.len(),
            source_methods_duplicate(srcs@) == source_methods_duplicate(srcs@.skip(i as int)),
            srcs == c.downloads.sources,
            duplicate_key(c.downloads.methods@) is None,
            duplicate_key(c.downloads.sources@) is None,
        decreases srcs@.len() - i,
    {
        proof {
            assert(srcs@.skip(i as int).drop_first() == srcs@.skip(i + 1));
            assert(srcs@.skip(i as int)[0] == srcs@[i as int]);
        }
        if let Some(k) = find_duplicate(&srcs[i].1.methods) {
            return Some(k);
        }
        i = i + 1;
    }
    proof {
        assert(srcs@.skip(i as int).len() == 0);
    }
    if let Some(k) = find_duplicate(&c.notifications.sources) {
        return Some(k);
    }
    find_duplicate(&c.versions.sources)
}

fn check_rules(rules: &Vec<Rule>, cats: &Vec<CategoryDef>) -> (r: Option<String>)
    ensures
        r matches Some(m) ==> rule_error(rules@, cats@, 0) == Some(m@),
        r is None ==> rule_error(rules@, cats@, 0) is None,
{
    let mut k: usize = 0;
    while k < rules.len()
        invariant
            k <= rules@.len(),
            rule_error(rules@, cats@, 0) == rule_error(rules@, cats@, k as int),
        decreases rules@.len() - k,
    {
        let rule = &rules[k];
        if rule.match_exact.is_none() && rule.match_regex.is_none() {
            return Some(owned("rule must set `match` or `match_regex`"));
        }
        if rule.match_exact.is_some() && rule.match_regex.is_some() {
            return Some(owned("rule must not set both `match` and `match_regex`"));
        }
        if let Some(pattern) = &rule.match_regex {
            if let Some(e) = regex_error(pattern.as_str()) {
                let mut msg = owned("invalid match_regex ");
                let q = debug_str(pattern.as_str());
                append(&mut msg, q.as_str());
                append(&mut msg, ": ");
                append(&mut msg, e.as_str());
                return Some(msg);
            }
        }
        if !has_category(cats, rule.category.as_str()) {
            let mut msg = owned("rule references undefined category: ");
            append(&mut msg, rule.category.as_str());
            return Some(msg);
        }
        k = k + 1;
    }
    None
}

impl Config {
    /// Semantic validation beyond what TOML parsing enforces: at least one
    /// category; unique, non-empty category names; known download-method
    /// keys; no key repeated within a table; and rules that set exactly one
    /// matcher, compile, and name a defined category.
    pub fn validate(&self) -> (r: Result<(), ConfigError>)
        ensures
            match config_problem(*self) {
                None => r is Ok,
                Some(m) => r matches Err(ConfigError::Invalid(msg)) && msg@ == m,
            },
    {
        if self.categories.len() == 0 {
            return Err(ConfigError::Invalid(owned("at least one category must be defined")));
        }
        if let Some(m) = check_categories(&self.categories) {
            return Err(ConfigError::Invalid(m));
        }
        if let Some(k) = check_method_keys(&self.downloads) {
            let mut msg = owned("unknown download method in config: ");
            append(&mut msg, k.as_str());
            append(&mut msg, " (expected direct/torrent/magnet)");
            return Err(ConfigError::Invalid(msg));
        }
        if let Some(k) = check_duplicates(self) {
            let mut msg = owned("duplicate key in config: ");
            append(&mut msg, k.as_str());
            return Err(ConfigError::Invalid(msg));
        }
        match check_rules(&self.rules, &self.categories) {
            Some(m) => Err(ConfigError::Invalid(m)),
            None => Ok(()),
        }
    }
}

proof fn lemma_source_keys_split(sources: Seq<(String, SourceDownloadOverride)>, n: int)
    requires
        0 <= n <= sources.len(),
    ensures
        source_method_keys(sources) == source_method_keys(sources.take(n)) + source_method_keys(sources.skip(n)),
    decreases sources.len() - n,
{
    if n == sources.len() {
        assert(sources.take(n) == sources);
        assert(sources.skip(n).len() == 0);
        assert(source_method_keys(sources) + seq![] == source_method_keys(sources));
    } else {
        lemma_source_keys_split(sources.drop_last(), n);
        assert(sources.drop_last().take(n) == sources.take(n));
        assert(sources.skip(n).drop_last() == sources.drop_last().skip(n));
        assert(sources.skip(n).last() == sources.last());
    }
}

/// An optional path with `~` expanded against `home`.
pub open spec fn tilde_opt(o: Option<String>, home: Option<Seq<char>>) -> Option<Seq<char>> {
    match o {
        Some(p) => Some(spec_tilde(p@, home)),
        None => None,
    }
}

/// `new` is `old` with its `dir` and `watch_dir` tilde-expanded.
pub open spec fn override_expanded(new: MethodOverride, old: MethodOverride, home: Option<Seq<char>>) -> bool {
    &&& opt_view(new.dir) == tilde_opt(old.dir, home)
    &&& opt_view(new.watch_dir) == tilde_opt(old.watch_dir, home)
    &&& new.command == old.command
}

/// Each override of `new` is that of `old`, expanded, under the same key.
pub open spec fn table_expanded(
    new: Seq<(String, MethodOverride)>,
    old: Seq<(String, MethodOverride)>,
    home: Option<Seq<char>>,
) -> bool {
    &&& new.len() == old.len()
    &&& forall|i: int|
        0 <= i < new.len() ==> #[trigger] new[i].0@ == old[i].0@ && override_expanded(new[i].1, old[i].1, home)
}

/// Each source override of `new` is that of `old` with its paths expanded.
pub open spec fn sources_expanded(
    new: Seq<(String, SourceDownloadOverride)>,
    old: Seq<(String, SourceDownloadOverride)>,
    home: Option<Seq<char>>,
) -> bool {
    &&& new.len() == old.len()
    &&& forall|i: int|
        0 <= i < new.len() ==> #[trigger] new[i].0@ == old[i].0@ && opt_view(new[i].1.dir) == tilde_opt(
            old[i].1.dir,
            home,
        ) && table_expanded(new[i].1.methods@, old[i].1.methods@, home)
}

/// `new` is `old`'s notification settings with `~` expanded in the sound
/// files, the global one and each source's. Nothing else differs.
pub open spec fn notifications_expanded(
    new: NotificationsConfig,
    old: NotificationsConfig,
    home: Option<Seq<char>>,
) -> bool {
    &&& new.open_show_page == old.open_show_page
    &&& new.open_command == old.open_command
    &&& opt_view(new.sound_file) == tilde_opt(old.sound_file, home)
    &&& new.sound_name == old.sound_name
    &&& new.sources@.len() == old.sources@.len()
    &&& forall|i: int|
        0 <= i < new.sources@.len() ==> #[trigger] new.sources@[i].0@ == old.sources@[i].0@ && opt_view(
            new.sources@[i].1.sound_file,
        ) == tilde_opt(old.sources@[i].1.sound_file, home) && new.sources@[i].1.sound_name
            == old.sources@[i].1.sound_name
}

/// `new` is `old` with `~` expanded in every path field: the local
/// database path, the base download directory, each override's `dir` and
/// `watch_dir`, and the notification sound files. Nothing else differs.
pub open spec fn config_expanded(new: Config, old: Config, home: Option<Seq<char>>) -> bool {
    &&& new.general.default_interval == old.general.default_interval
    &&& match (new.general.db, old.general.db) {
        (DbConfig::Local { path: np }, DbConfig::Local { path: op }) => np@ == spec_tilde(op@, home),
        (DbConfig::Remote { url: nu, auth_token: nt }, DbConfig::Remote { url: ou, auth_token: ot }) => nu
            == ou && nt == ot,
        _ => false,
    }
    &&& new.downloads.base_dir@ == spec_tilde(old.downloads.base_dir@, home)
    &&& new.downloads.default_method == old.downloads.default_method
    &&& new.downloads.default_resolution == old.downloads.default_resolution
    &&& new.downloads.resolution_fallback == old.downloads.resolution_fallback
    &&& new.downloads.resolution_wait == old.downloads.resolution_wait
    &&& table_expanded(new.downloads.methods@, old.downloads.methods@, home)
    &&& sources_expanded(new.downloads.sources@, old.downloads.sources@, home)
    &&& notifications_expanded(new.notifications, old.notifications, home)
    &&& new.versions == old.versions
    &&& new.categories == old.categories
    &&& new.rules == old.rules
    &&& new.sources == old.sources
}

/// An optional path with `~` expanded.
fn expand_opt(o: &Option<String>, home: &Option<String>) -> (r: Option<String>)
    ensures
        opt_view(r) == tilde_opt(*o, opt_view(*home)),
{
    match o {
        Some(p) => Some(expand_tilde(p.as_str(), clone_opt(home))),
        None => None,
    }
}

/// Notification settings with `~` expanded in their sound files.
fn expand_notifications(n: &NotificationsConfig, home: &Option<String>) -> (r: NotificationsConfig)
    ensures
        notifications_expanded(r, *n, opt_view(*home)),
{
    let mut sources: Vec<(String, SourceNotificationOverride)> = Vec::new();
    let mut i: usize = 0;
    while i < n.sources.len()
        invariant
            i <= n.sources@.len(),
            sources@.len() == i,
            forall|k: int|
                0 <= k < i ==> #[trigger] sources@[k].0@ == n.sources@[k].0@ && opt_view(sources@[k].1.sound_file)
                    == tilde_opt(n.sources@[k].1.sound_file, opt_view(*home)) && sources@[k].1.sound_name
                    == n.sources@[k].1.sound_name,
        decreases n.sources@.len() - i,
    {
        let entry = &n.sources[i];
        let o = SourceNotificationOverride {
            sound_file: expand_opt(&entry.1.sound_file, home),
            sound_name: clone_opt(&entry.1.sound_name),
        };
        sources.push((entry.0.clone(), o));
        i = i + 1;
    }
    NotificationsConfig {
        open_show_page: n.open_show_page,
        open_command: clone_opt(&n.open_command),
        sound_file: expand_opt(&n.sound_file, home),
        sound_name: clone_opt(&n.sound_name),
        sources,
    }
}

/// A method override with `~` expanded in its directories.
fn expand_method_override(m: &MethodOverride, home: &Option<String>) -> (r: MethodOverride)
    ensures
        override_expanded(r, *m, opt_view(*home)),
{
    MethodOverride {
        dir: expand_opt(&m.dir, home),
        watch_dir: expand_opt(&m.watch_dir, home),
        command: clone_opt(&m.command),
    }
}

/// A table of method overrides, each expanded.
fn expand_table(t: &Vec<(String, MethodOverride)>, home: &Option<String>) -> (r: Vec<(String, MethodOverride)>)
    ensures
        table_expanded(r@, t@, opt_view(*home)),
{
    let mut out: Vec<(String, MethodOverride)> = Vec::new();
    let mut i: usize = 0;
    while i < t.len()
        invariant
            i <= t@.len(),
            out@.len() == i,
            forall|k: int|
                0 <= k < i ==> #[trigger] out@[k].0@ == t@[k].0@ && override_expanded(
                    out@[k].1,
                    t@[k].1,
                    opt_view(*home),
                ),
        decreases t@.len() - i,
    {
        let key = t[i].0.clone();
        let m = expand_method_override(&t[i].1, home);
        out.push((key, m));
        i = i + 1;
    }
    out
}

impl Config {
    /// Applies `~` expansion, against the home directory `home`, to the
    /// path fields that TOML parsing leaves alone (env references in string
    /// values are expanded before parsing; `~` is not expanded in arbitrary
    /// strings such as regexes).
    pub fn expand_paths(&mut self, home: &Option<String>)
        ensures
            config_expanded(*final(self), *old(self), opt_view(*home)),
    {
        let db = match &self.general.db {
            DbConfig::Local { path } => DbConfig::Local { path: expand_tilde(path.as_str(), clone_opt(home)) },
            DbConfig::Remote { url, auth_token } => DbConfig::Remote {
                url: url.clone(),
                auth_token: clone_opt(auth_token),
            },
        };
        self.general.db = db;
        self.downloads.base_dir = expand_tilde(self.downloads.base_dir.as_str(), clone_opt(home));
        self.downloads.methods = expand_table(&self.downloads.methods, home);
        let mut sources: Vec<(String, SourceDownloadOverride)> = Vec::new();
        let mut i: usize = 0;
        while i < self.downloads.sources.len()
            invariant
                i <= self.downloads.sources@.len(),
                self.downloads.sources == old(self).downloads.sources,
                sources@.len() == i,
                forall|k: int|
                    0 <= k < i ==> #[trigger] sources@[k].0@ == self.downloads.sources@[k].0@ && opt_view(
                        sources@[k].1.dir,
                    ) == tilde_opt(self.downloads.sources@[k].1.dir, opt_view(*home)) && table_expanded(
                        sources@[k].1.methods@,
                        self.downloads.sources@[k].1.methods@,
                        opt_view(*home),
                    ),
            decreases self.downloads.sources@.len() - i,
        {
            let entry = &self.downloads.sources[i];
            let key = entry.0.clone();
            let o = SourceDownloadOverride {
                dir: expand_opt(&entry.1.dir, home),
                methods: expand_table(&entry.1.methods, home),
            };
            sources.push((key, o));
            i = i + 1;
        }
        self.downloads.sources = sources;
        self.notifications = expand_notifications(&self.notifications, home);
    }

    /// Completes a config fresh from the parser: `~` expanded in its path
    /// fields against `home`, then validated.
    pub fn finish(self, home: &Option<String>) -> (r: Result<Config, ConfigError>)
        ensures
            match r {
                Ok(c) => config_expanded(c, self, opt_view(*home)) && config_problem(c) is None,
                Err(e) => exists|c: Config|
                    #![auto]
                    config_expanded(c, self, opt_view(*home)) && match config_problem(c) {
                        Some(m) => (e matches ConfigError::Invalid(msg) && msg@ == m),
                        None => false,
                    },
            },
    {
        let mut c = self;
        c.expand_paths(home);
        match c.validate() {
            Ok(()) => Ok(c),
            Err(e) => Err(e),
        }
    }

    /// The config text with its environment-variable references expanded
    /// against the snapshot `vars`, ready for the TOML parser; unresolved
    /// references are left as they are.
    pub fn expand_env_text(raw: &str, vars: &Vec<(String, String)>) -> (r: String)
        ensures
            r@ == spec_env_expand(raw@, pairs_view(vars@)),
    {
        expand_env(raw, vars)
    }
}


impl ConfigError {
    /// The error's text, as shown to the user.
    pub fn message(&self) -> (r: String)
        ensures
            match self {
                ConfigError::Read { path, message } => r@ == "failed to read config file "@ + path@ + ": "@
                    + message@,
                ConfigError::Parse { path, message } => r@ == "failed to parse config file "@ + path@ + ": "@
                    + message@,
                ConfigError::Invalid(m) => r@ == "invalid config: "@ + m@,
            },
    {
        match self {
            ConfigError::Read { path, message } => {
                let mut out = owned("failed to read config file ");
                append(&mut out, path.as_str());
                append(&mut out, ": ");
                append(&mut out, message.as_str());
                out
            },
            ConfigError::Parse { path, message } => {
                let mut out = owned("failed to parse config file ");
                append(&mut out, path.as_str());
                append(&mut out, ": ");
                append(&mut out, message.as_str());
                out
            },
            ConfigError::Invalid(m) => {
                let mut out = owned("invalid config: ");
                append(&mut out, m.as_str());
                out
            },
        }
    }
}


/// The directory an optional method override sets, if any.
pub open spec fn dir_of(o: Option<MethodOverride>) -> Option<String> {
    match o {
        Some(x) => x.dir,
        None => None,
    }
}

/// The watch directory an optional method override sets, if any.
pub open spec fn watch_of(o: Option<MethodOverride>) -> Option<String> {
    match o {
        Some(x) => x.watch_dir,
        None => None,
    }
}

/// Download-path precedence: a per-source+method `dir` beats the
/// per-method `dir`, which beats the per-source `dir`, which beats
/// `<base_dir>/<source>/<method>`; for `torrent`, a `watch_dir` (per
/// source+method, else per method) beats every `dir`.
pub proof fn law_resolve_dir_precedence(d: Downloads, source_id: Seq<char>, method: DownloadMethod)
    ensures
        ({
            let pm = lookup(d.methods@, method.name());
            let so = lookup(d.sources@, source_id);
            let sm = match so {
                Some(o) => lookup(o.methods@, method.name()),
                None => None,
            };
            let source_dir = match so {
                Some(o) => o.dir,
                None => None,
            };
            let watch = or_opt(watch_of(sm), watch_of(pm));
            let dir = or_opt(dir_of(sm), or_opt(dir_of(pm), source_dir));
            &&& (method == DownloadMethod::Torrent && watch is Some) ==> resolved_dir(d, source_id, method)
                == watch.unwrap()@
            &&& (!(method == DownloadMethod::Torrent && watch is Some) && dir is Some) ==> resolved_dir(
                d,
                source_id,
                method,
            ) == dir.unwrap()@
            &&& (!(method == DownloadMethod::Torrent && watch is Some) && dir is None) ==> resolved_dir(
                d,
                source_id,
                method,
            ) == join_spec(join_spec(d.base_dir@, source_id), method.name())
        }),
{
}

/// The defaults validate: three distinct, non-empty category names, no
/// rules and empty keyed tables leave nothing to object to.
pub proof fn law_defaults_are_valid(c: Config)
    requires
        default_categories_spec(c.categories@),
        c.rules@.len() == 0,
        c.downloads.methods@.len() == 0,
        c.downloads.sources@.len() == 0,
        c.notifications.sources@.len() == 0,
        c.versions.sources@.len() == 0,
    ensures
        config_problem(c) is None,
{
    let cats = c.categories@;
    reveal_strlit("liked");
    reveal_strlit("normal");
    reveal_strlit("uninterested");
    assert(trim(cats[0].name@) == cats[0].name@) by {
        assert(!is_ws(cats[0].name@[0]));
        assert(!is_ws(cats[0].name@.last()));
    }
    assert(trim(cats[1].name@) == cats[1].name@) by {
        assert(!is_ws(cats[1].name@[0]));
        assert(!is_ws(cats[1].name@.last()));
    }
    assert(trim(cats[2].name@) == cats[2].name@) by {
        assert(!is_ws(cats[2].name@[0]));
        assert(!is_ws(cats[2].name@.last()));
    }
    assert(cats[0].name@ != cats[1].name@) by {
        assert(cats[0].name@[0] != cats[1].name@[0]);
    }
    assert(cats[0].name@ != cats[2].name@) by {
        assert(cats[0].name@[0] != cats[2].name@[0]);
    }
    assert(cats[1].name@ != cats[2].name@) by {
        assert(cats[1].name@[0] != cats[2].name@[0]);
    }
    assert(category_error(cats, 3) is None);
    assert(category_error(cats, 2) is None);
    assert(category_error(cats, 1) is None);
    assert(category_error(cats, 0) is None);
    assert(method_keys(c.downloads) =~= Seq::<Seq<char>>::empty());
    assert(rule_error(c.rules@, cats, 0) is None);
}

} // verus!
