//! Platform-default locations (XDG on Linux, `%APPDATA%` on Windows,
//! `~/Library` on macOS) via the `directories` crate, and the path
//! arithmetic the library does on them. Paths are `/`-separated strings.

use vstd::prelude::*;

use crate::keyed::{find_entry, lookup};
use crate::model::opt_view;
use crate::text::{append, has_suffix, owned};

verus! {

/// `base` joined with a relative or absolute `seg`, as `PathBuf::push`
/// does on Unix: an absolute `seg` replaces `base`; otherwise a `/` is put
/// between them unless `base` is empty or already ends with one.
pub open spec fn join_spec(base: Seq<char>, seg: Seq<char>) -> Seq<char> {
    if seg.len() > 0 && seg[0] == '/' {
        seg
    } else if base.len() == 0 {
        seg
    } else if base.last() == '/' {
        base + seg
    } else {
        base + seq!['/'] + seg
    }
}

/// `base` joined with `seg`.
pub fn join(base: &str, seg: &str) -> (r: String)
    ensures
        r@ == join_spec(base@, seg@),
{
    let sc = crate::text::to_chars(seg);
    let bc = crate::text::to_chars(base);
    if sc.len() > 0 && sc[0] == '/' {
        return owned(seg);
    }
    if bc.len() == 0 {
        return owned(seg);
    }
    let mut out = owned(base);
    if bc[bc.len() - 1] != '/' {
        out.push('/');
    }
    append(&mut out, seg);
    out
}

/// The result of tilde expansion of `path` against the home directory
/// `home`.
pub uninterp spec fn spec_tilde(path: Seq<char>, home: Option<Seq<char>>) -> Seq<char>;

/// Calls `shellexpand::tilde_with_context(path, || home)`. Its documented
/// (and, in 3.1.2, coded) behaviour: a leading `~` that is the whole path
/// or is followed by `/` is replaced by `home` when there is one;
/// everything else is left as is. (On Windows a `~\` prefix is expanded
/// too; that case is not stated.)
#[verifier::external_body]
pub(crate) fn expand_tilde(path: &str, home: Option<String>) -> (r: String)
    ensures
        r@ == spec_tilde(path@, crate::model::opt_view(home)),
        (path@.len() == 0 || path@[0] != '~') ==> r@ == path@,
        home is None ==> r@ == path@,
        match home {
            Some(h) => path@.len() > 0 && path@[0] == '~' && (path@.len() == 1 || path@[1]
                == '/') ==> r@ == h@ + path@.skip(1),
            None => true,
        },
        (path@.len() > 1 && path@[0] == '~' && path@[1] != '/' && path@[1] != '\\') ==> r@
            == path@,
{
    shellexpand::tilde_with_context(path, move || home).into_owned()
}

/// The names and values of an environment snapshot.
pub open spec fn pairs_view(vars: Seq<(String, String)>) -> Seq<(Seq<char>, Seq<char>)> {
    vars.map_values(|e: (String, String)| (e.0@, e.1@))
}

/// The value of the variable `name` in an environment snapshot: that of
/// its first entry.
pub fn env_value(vars: &Vec<(String, String)>, name: &str) -> (r: Option<String>)
    ensures
        opt_view(r) == match lookup(vars@, name@) {
            Some(v) => Some(v@),
            None => None,
        },
{
    match find_entry(vars, name) {
        Some(v) => Some(v.clone()),
        None => None,
    }
}

/// The result of `$VAR` / `${VAR}` expansion of `raw` against the
/// environment snapshot `vars`.
pub uninterp spec fn spec_env_expand(raw: Seq<char>, vars: Seq<(Seq<char>, Seq<char>)>) -> Seq<char>;

/// Calls `shellexpand::env_with_context_no_errors(raw, ..)`, looking each
/// variable up in `vars`. Its documented behaviour: `$NAME` and `${NAME}`
/// references to known variables are replaced by their values, unknown
/// ones are left as they are, `${NAME:-default}` falls back to `default`,
/// and `$$` stands for `$`. Only the case without any `$` is stated: the
/// text comes back unchanged.
#[verifier::external_body]
fn shell_env_expand(raw: &str, vars: &Vec<(String, String)>) -> (r: String)
    ensures
        r@ == spec_env_expand(raw@, pairs_view(vars@)),
        (forall|i: int| 0 <= i < raw@.len() ==> raw@[i] != '$') ==> r@ == raw@,
{
    shellexpand::env_with_context_no_errors(raw, |name: &str| env_value(vars, name)).into_owned()
}

/// `raw` with its environment-variable references expanded against the
/// snapshot `vars`; unresolved references are left as they are.
pub fn expand_env(raw: &str, vars: &Vec<(String, String)>) -> (r: String)
    ensures
        r@ == spec_env_expand(raw@, pairs_view(vars@)),
        (forall|i: int| 0 <= i < raw@.len() ==> raw@[i] != '$') ==> r@ == raw@,
{
    shell_env_expand(raw, vars)
}

/// Whether `part` occurs somewhere in `s`.
pub open spec fn contains_text(s: Seq<char>, part: Seq<char>) -> bool {
    exists|i: int| 0 <= i <= s.len() - part.len() && #[trigger] s.subrange(i, i + part.len()) == part
}

/// The platform configuration directory for anime-notif, if the platform
/// has one: `directories::ProjectDirs::from("dev", "anime-notif",
/// "anime-notif")` then `config_dir`. By the crate's source, every
/// platform builds it by joining a project fragment that holds
/// `anime-notif` (`anime-notif` on Linux, `dev.anime-notif.anime-notif` on
/// macOS, `anime-notif\anime-notif` on Windows), so the text holds it; which
/// directory it is depends on the environment and is not stated.
#[verifier::external_body]
fn project_config_dir() -> (r: Option<String>)
    ensures
        r matches Some(d) ==> contains_text(d@, "anime-notif"@),
{
    directories::ProjectDirs::from("dev", "anime-notif", "anime-notif").map(
        |d| d.config_dir().to_string_lossy().into_owned(),
    )
}

/// The platform data directory for anime-notif, if any: `ProjectDirs`'
/// `data_dir`, which by the crate's source likewise holds the project
/// fragment and so `anime-notif`; the directory itself is not stated.
#[verifier::external_body]
fn project_data_dir() -> (r: Option<String>)
    ensures
        r matches Some(d) ==> contains_text(d@, "anime-notif"@),
{
    directories::ProjectDirs::from("dev", "anime-notif", "anime-notif").map(
        |d| d.data_dir().to_string_lossy().into_owned(),
    )
}

/// The platform cache directory for anime-notif, if any: `ProjectDirs`'
/// `cache_dir`, which by the crate's source likewise holds the project
/// fragment and so `anime-notif`; the directory itself is not stated.
#[verifier::external_body]
fn project_cache_dir() -> (r: Option<String>)
    ensures
        r matches Some(d) ==> contains_text(d@, "anime-notif"@),
{
    directories::ProjectDirs::from("dev", "anime-notif", "anime-notif").map(
        |d| d.cache_dir().to_string_lossy().into_owned(),
    )
}

/// The user's download directory, if the platform has one.
#[verifier::external_body]
fn user_download_dir() -> Option<String> {
    directories::UserDirs::new().and_then(
        |u| u.download_dir().map(|p| p.to_string_lossy().into_owned()),
    )
}

/// `dir`, or the current directory `.` when there is none.
pub fn dir_or_current(dir: Option<String>) -> (r: String)
    ensures
        r@ == match dir {
            Some(d) => d@,
            None => "."@,
        },
{
    match dir {
        Some(d) => d,
        None => owned("."),
    }
}

/// Default config directory: the platform's anime-notif config directory
/// (e.g. `~/.config/anime-notif` on Linux), or `.` when the platform has
/// none.
pub fn default_config_dir() -> (r: String)
    ensures
        r@ == "."@ || contains_text(r@, "anime-notif"@),
{
    dir_or_current(project_config_dir())
}

/// A relative segment joined onto any base ends the joined path.
pub proof fn lemma_join_ends_with(base: Seq<char>, seg: Seq<char>)
    requires
        seg.len() > 0,
    ensures
        has_suffix(join_spec(base, seg), seg),
{
    let r = join_spec(base, seg);
    if seg[0] == '/' || base.len() == 0 {
        assert(r.subrange(r.len() - seg.len(), r.len() as int) =~= seg);
    } else if base.last() == '/' {
        assert((base + seg).subrange((base + seg).len() - seg.len(), (base + seg).len() as int) =~= seg);
    } else {
        assert((base + seq!['/'] + seg).subrange(
            (base + seq!['/'] + seg).len() - seg.len(),
            (base + seq!['/'] + seg).len() as int,
        ) =~= seg);
    }
}

/// Default path to the main `config.toml`: `config.toml` in the config
/// directory.
pub fn default_config_path() -> (r: String)
    ensures
        has_suffix(r@, "config.toml"@),
{
    let d = default_config_dir();
    let r = join(d.as_str(), "config.toml");
    proof {
        reveal_strlit("config.toml");
        lemma_join_ends_with(d@, "config.toml"@);
    }
    r
}

/// Default state/data directory: the platform's anime-notif data directory
/// (e.g. `~/.local/share/anime-notif`), or `.` when the platform has none.
pub fn default_data_dir() -> (r: String)
    ensures
        r@ == "."@ || contains_text(r@, "anime-notif"@),
{
    dir_or_current(project_data_dir())
}

/// Default path to the local SQLite database file: `data.db` in the data
/// directory.
pub fn default_db_path() -> (r: String)
    ensures
        has_suffix(r@, "data.db"@),
{
    let d = default_data_dir();
    let r = join(d.as_str(), "data.db");
    proof {
        reveal_strlit("data.db");
        lemma_join_ends_with(d@, "data.db"@);
    }
    r
}

/// Default cache directory, for fetched cover images and remote source
/// plugin caches: the platform's anime-notif cache directory, or `.` when
/// the platform has none.
pub fn default_cache_dir() -> (r: String)
    ensures
        r@ == "."@ || contains_text(r@, "anime-notif"@),
{
    dir_or_current(project_cache_dir())
}

/// Default directory the daemon's rotating log files are written to:
/// `logs` in the data directory.
pub fn default_log_dir() -> (r: String)
    ensures
        has_suffix(r@, "logs"@),
{
    let d = default_data_dir();
    let r = join(d.as_str(), "logs");
    proof {
        reveal_strlit("logs");
        lemma_join_ends_with(d@, "logs"@);
    }
    r
}

/// `<downloads>/anime-notif`, or `anime-notif-downloads` when the platform
/// has no download directory.
pub fn download_dir_from(user_downloads: Option<String>) -> (r: String)
    ensures
        r@ == match user_downloads {
            Some(d) => join_spec(d@, "anime-notif"@),
            None => "anime-notif-downloads"@,
        },
{
    match user_downloads {
        Some(d) => join(d.as_str(), "anime-notif"),
        None => owned("anime-notif-downloads"),
    }
}

/// Default base download directory, e.g. `~/Downloads/anime-notif`.
pub fn default_download_dir() -> (r: String)
    ensures
        has_suffix(r@, "anime-notif"@) || r@ == "anime-notif-downloads"@,
{
    let user = user_download_dir();
    let ghost base = opt_view(user);
    let r = download_dir_from(user);
    proof {
        reveal_strlit("anime-notif");
        if let Some(d) = base {
            lemma_join_ends_with(d, "anime-notif"@);
        }
    }
    r
}

} // verus!
