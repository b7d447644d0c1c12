//! How a release is handed off to be downloaded, by method: `direct` is
//! fetched over HTTP into a file; `torrent` is either saved as a
//! `.torrent` file or handed to a configured command; `magnet` is handed to
//! a configured command (or the platform's default opener). Commands are
//! split into words *before* the link is substituted in, and are run
//! directly, never through a shell, so a link's characters can never be
//! read as shell syntax.

use vstd::prelude::*;

use crate::model::{clone_opt, opt_view, DownloadMethod};
use crate::paths::{join, join_spec};
use crate::text::{char_is_ws, is_control, is_ws, owned, str_eq, string_of_range, to_chars};

verus! {

/// The operating system family a default opener is chosen for.
#[derive(Debug, Clone, Copy, PartialEq, Eq, Structural)]
pub enum Platform {
    /// Linux (and other Unix-likes).
    Linux,
    /// macOS.
    MacOs,
    /// Windows.
    Windows,
    /// Anything else.
    Other,
}

/// Errors that can occur handing a release off for download.
#[derive(Debug, Clone)]
pub enum DownloadError {
    /// The direct/torrent-file HTTP request failed.
    Http(String),
    /// Writing the downloaded file to disk failed.
    Io {
        /// Path that failed to write.
        path: String,
        /// The I/O error's message.
        message: String,
    },
    /// A configured hand-off command could not be split into words.
    BadCommand(String, String),
    /// A hand-off command template had no words at all.
    EmptyCommand,
    /// The hand-off command's program could not be launched.
    Spawn(String, String),
}

/// A fully resolved request to download one release variant.
#[derive(Debug, Clone)]
pub struct DownloadRequest {
    /// How this release is delivered.
    pub method: DownloadMethod,
    /// The URL (direct/torrent) or magnet URI (magnet).
    pub link: String,
    /// Destination directory.
    pub dir: String,
    /// Hand-off command template (`None`: the platform default for
    /// `magnet`, a file in `dir` for `torrent`).
    pub command: Option<String>,
    /// Suggested file name, without extension.
    pub file_stem: String,
}

/// What carrying out a download request takes.
#[derive(Debug, Clone)]
pub enum DownloadPlan {
    /// Fetch the link over HTTP and save it at `path`.
    Fetch {
        /// Where the body is written.
        path: String,
    },
    /// Launch `program` with `args`, without waiting for it.
    Spawn {
        /// The program to run.
        program: String,
        /// Its arguments.
        args: Vec<String>,
    },
}

/// The default hand-off command of a platform, as words.
pub open spec fn default_tokens(p: Platform) -> Seq<Seq<char>> {
    match p {
        Platform::MacOs => seq!["open"@, "{magnet}"@],
        Platform::Windows => seq!["cmd"@, "/C"@, "start"@, ""@, "{magnet}"@],
        _ => seq!["xdg-open"@, "{magnet}"@],
    }
}

/// The texts of a list of strings.
pub open spec fn texts(v: Seq<String>) -> Seq<Seq<char>> {
    v.map_values(|s: String| s@)
}

/// Pushing a string pushes its text.
pub proof fn lemma_texts_push(s: Seq<String>, x: String)
    ensures
        texts(s.push(x)) == texts(s).push(x@),
{
    assert(texts(s.push(x)) =~= texts(s).push(x@));
}

/// The default hand-off command of `platform`, as words, used when no
/// command is configured.
pub fn default_command_tokens(platform: Platform) -> (r: Vec<String>)
    ensures
        texts(r@) == default_tokens(platform),
{
    let mut v: Vec<String> = Vec::new();
    match platform {
        Platform::MacOs => {
            v.push(owned("open"));
        },
        Platform::Windows => {
            v.push(owned("cmd"));
            v.push(owned("/C"));
            v.push(owned("start"));
            v.push(owned(""));
        },
        _ => {
            v.push(owned("xdg-open"));
        },
    }
    v.push(owned("{magnet}"));
    proof {
        assert(texts(v@) =~= default_tokens(platform));
    }
    v
}

/// The words `shell_words::split` makes of `s`, or `None` when it refuses
/// it (an unclosed quote).
pub uninterp spec fn spec_shell_split(s: Seq<char>) -> Option<Seq<Seq<char>>>;

/// Calls `shell_words::split`, which splits a command line into words with
/// POSIX shell quoting rules. Its only error, by its source, displays as
/// `missing closing quote`.
#[verifier::external_body]
fn shell_split(s: &str) -> (r: Result<Vec<String>, String>)
    ensures
        match r {
            Ok(words) => spec_shell_split(s@) == Some(texts(words@)),
            Err(e) => spec_shell_split(s@) is None && e@ == "missing closing quote"@,
        },
{
    shell_words::split(s).map_err(|e| e.to_string())
}

/// Splits a hand-off command into words: `configured` (a template,
/// split by shell quoting rules) when set, otherwise the platform's
/// default.
pub fn resolve_command_tokens(configured: Option<&str>, platform: Platform) -> (r: Result<
    Vec<String>,
    DownloadError,
>)
    ensures
        match configured {
            None => r matches Ok(t) && texts(t@) == default_tokens(platform),
            Some(template) => match spec_shell_split(template@) {
                Some(words) => r matches Ok(t) && texts(t@) == words,
                None => r matches Err(DownloadError::BadCommand(a, b)) && a@ == template@ && b@
                    == "missing closing quote"@,
            },
        },
{
    match configured {
        Some(template) => match shell_split(template) {
            Ok(words) => Ok(words),
            Err(e) => Err(DownloadError::BadCommand(owned(template), e)),
        },
        None => Ok(default_command_tokens(platform)),
    }
}

/// Whether a word is a placeholder for the link.
pub open spec fn is_placeholder(t: Seq<char>) -> bool {
    t == "{magnet}"@ || t == "{link}"@ || t == "{url}"@
}

/// The words with every placeholder word replaced by `link`.
pub open spec fn substituted(tokens: Seq<Seq<char>>, link: Seq<char>) -> Seq<Seq<char>> {
    tokens.map_values(
        |t: Seq<char>|
            if is_placeholder(t) {
                link
            } else {
                t
            },
    )
}

/// Substitutes `{magnet}`/`{link}`/`{url}` words (matched whole, not as a
/// substring) with `link`.
pub fn substitute(tokens: &[String], link: &str) -> (r: Vec<String>)
    ensures
        texts(r@) == substituted(texts(tokens@), link@),
{
    let mut out: Vec<String> = Vec::new();
    let mut i: usize = 0;
    while i < tokens.len()
        invariant
            i <= tokens@.len(),
            texts(out@) == substituted(texts(tokens@), link@).take(i as int),
        decreases tokens@.len() - i,
    {
        let t = tokens[i].as_str();
        let w = if str_eq(t, "{magnet}") || str_eq(t, "{link}") || str_eq(t, "{url}") {
            owned(link)
        } else {
            owned(t)
        };
        let ghost before = out@;
        out.push(w);
        proof {
            lemma_texts_push(before, w);
            assert(texts(tokens@)[i as int] == t@);
            assert(substituted(texts(tokens@), link@).take(i + 1) =~= substituted(texts(tokens@), link@).take(
                i as int,
            ).push(w@));
        }
        i = i + 1;
    }
    proof {
        assert(substituted(texts(tokens@), link@).take(i as int) =~= substituted(texts(tokens@), link@));
    }
    out
}

/// Characters a file name may not hold: control characters, path
/// separators and those reserved on Windows.
pub open spec fn unsafe_char(c: char) -> bool {
    is_control(c) || c == '/' || c == '\\' || c == ':' || c == '*' || c == '?' || c == '"' || c == '<'
        || c == '>' || c == '|'
}

/// Characters trimmed from both ends of a file name.
pub open spec fn trimmed_char(c: char) -> bool {
    is_ws(c) || c == '.'
}

/// The name with unsafe characters replaced by `_`.
pub open spec fn cleaned(s: Seq<char>) -> Seq<char> {
    s.map_values(
        |c: char|
            if unsafe_char(c) {
                '_'
            } else {
                c
            },
    )
}

/// The span kept after trimming: no trimmed character at either end, and
/// only trimmed characters outside it.
pub open spec fn trim_span(s: Seq<char>, a: int, b: int) -> bool {
    &&& 0 <= a <= b <= s.len()
    &&& forall|j: int| 0 <= j < a ==> trimmed_char(s[j])
    &&& forall|j: int| b <= j < s.len() ==> trimmed_char(s[j])
    &&& a < b ==> !trimmed_char(s[a]) && !trimmed_char(s[b - 1])
    &&& a == b ==> forall|j: int| 0 <= j < s.len() ==> trimmed_char(s[j])
}

/// Replaces characters that are unsafe or awkward in file names with `_`,
/// and trims surrounding white space and dots; `download` when nothing
/// is left.
pub fn sanitize(stem: &str) -> (r: String)
    ensures
        r@ == sanitized(stem@),
{
    let cs = to_chars(stem);
    let mut c2: Vec<char> = Vec::new();
    let mut i: usize = 0;
    while i < cs.len()
        invariant
            i <= cs@.len(),
            c2@ == cleaned(cs@).take(i as int),
        decreases cs@.len() - i,
    {
        let c = cs[i];
        let bad = c <= '\u{1f}' || ('\u{7f}' <= c && c <= '\u{9f}') || c == '/' || c == '\\' || c == ':'
            || c == '*' || c == '?' || c == '"' || c == '<' || c == '>' || c == '|';
        c2.push(if bad { '_' } else { c });
        proof {
            assert(c2@ =~= cleaned(cs@).take(i + 1));
        }
        i = i + 1;
    }
    proof {
        assert(cleaned(cs@).take(i as int) =~= cleaned(cs@));
    }
    let mut a: usize = 0;
    while a < c2.len() && (char_is_ws(c2[a]) || c2[a] == '.')
        invariant
            a <= c2@.len(),
            forall|j: int| 0 <= j < a ==> trimmed_char(c2@[j]),
        decreases c2@.len() - a,
    {
        a = a + 1;
    }
    let mut b: usize = c2.len();
    while b > a && (char_is_ws(c2[b - 1]) || c2[b - 1] == '.')
        invariant
            a <= b <= c2@.len(),
            forall|j: int| b <= j < c2@.len() ==> trimmed_char(c2@[j]),
        decreases b - a,
    {
        b = b - 1;
    }
    proof {
        let c = cleaned(stem@);
        assert(c2@ == c);
        assert(trim_span(c, a as int, b as int));
        let span = choose|a: int, b: int| #[trigger] trim_span(c, a, b);
        lemma_trim_span_unique(c, a as int, b as int, span.0, span.1);
        reveal_strlit("download");
    }
    if a == b {
        owned("download")
    } else {
        string_of_range(&c2, a, b)
    }
}

/// The last component of a `/`-separated path, as `Path::file_name` sees
/// it: empty and `.` segments do not count, and a final `..` has none.
pub open spec fn path_segments(p: Seq<char>) -> Seq<Seq<char>>
    decreases p.len(),
{
    if p.len() == 0 {
        Seq::empty()
    } else {
        proof {
            lemma_last_slash(p);
        }
        let k = last_slash(p);
        let seg = p.subrange(k + 1, p.len() as int);
        let rest = if k < 0 {
            Seq::empty()
        } else {
            path_segments(p.subrange(0, k))
        };
        if seg.len() == 0 || seg == "."@ {
            rest
        } else {
            rest.push(seg)
        }
    }
}

/// The index of the last `/` in `p`, or -1.
pub open spec fn last_slash(p: Seq<char>) -> int
    decreases p.len(),
{
    if p.len() == 0 {
        -1
    } else if p.last() == '/' {
        p.len() - 1
    } else {
        last_slash(p.drop_last())
    }
}

/// The index of the last `.` in `s`, or -1.
pub open spec fn last_dot(s: Seq<char>) -> int
    decreases s.len(),
{
    if s.len() == 0 {
        -1
    } else if s.last() == '.' {
        s.len() - 1
    } else {
        last_dot(s.drop_last())
    }
}

/// The extension `Path::extension` reports for a path: the text after the
/// last `.` of its file name, unless that dot starts the name, there is
/// none, or the name is `..`.
pub open spec fn path_extension(p: Seq<char>) -> Option<Seq<char>> {
    let segs = path_segments(p);
    if segs.len() == 0 {
        None
    } else {
        let name = segs.last();
        let k = last_dot(name);
        if name == ".."@ || k <= 0 {
            None
        } else {
            Some(name.subrange(k + 1, name.len() as int))
        }
    }
}

/// `last_slash` finds the last `/`, if any.
pub proof fn lemma_last_slash(p: Seq<char>)
    ensures
        -1 <= last_slash(p) < p.len(),
        last_slash(p) >= 0 ==> p[last_slash(p)] == '/',
        forall|j: int| last_slash(p) < j < p.len() ==> p[j] != '/',
    decreases p.len(),
{
    if p.len() > 0 && p.last() != '/' {
        lemma_last_slash(p.drop_last());
        assert forall|j: int| last_slash(p) < j < p.len() implies p[j] != '/' by {
            if j < p.len() - 1 {
                assert(p[j] == p.drop_last()[j]);
            }
        }
    }
}

proof fn lemma_last_dot(s: Seq<char>)
    ensures
        -1 <= last_dot(s) < s.len(),
        last_dot(s) >= 0 ==> s[last_dot(s)] == '.',
        forall|j: int| last_dot(s) < j < s.len() ==> s[j] != '.',
    decreases s.len(),
{
    if s.len() > 0 && s.last() != '.' {
        lemma_last_dot(s.drop_last());
        assert forall|j: int| last_dot(s) < j < s.len() implies s[j] != '.' by {
            if j < s.len() - 1 {
                assert(s[j] == s.drop_last()[j]);
            }
        }
    }
}

/// A scan from the end finds the last `/`.
proof fn lemma_last_slash_is(p: Seq<char>, k: int)
    requires
        -1 <= k < p.len(),
        k >= 0 ==> p[k] == '/',
        forall|j: int| k < j < p.len() ==> p[j] != '/',
    ensures
        last_slash(p) == k,
    decreases p.len(),
{
    if p.len() > 0 && k < p.len() - 1 {
        lemma_last_slash_is(p.drop_last(), k);
    }
}

/// A scan from the end finds the last `.`.
proof fn lemma_last_dot_is(s: Seq<char>, k: int)
    requires
        -1 <= k < s.len(),
        k >= 0 ==> s[k] == '.',
        forall|j: int| k < j < s.len() ==> s[j] != '.',
    ensures
        last_dot(s) == k,
    decreases s.len(),
{
    if s.len() > 0 && k < s.len() - 1 {
        lemma_last_dot_is(s.drop_last(), k);
    }
}

/// The file name of a path, as `Path::file_name` reports it.
fn last_segment(p: &Vec<char>) -> (r: Option<Vec<char>>)
    ensures
        match r {
            Some(name) => path_segments(p@).len() > 0 && name@ == path_segments(p@).last(),
            None => path_segments(p@).len() == 0,
        },
{
    let mut end: usize = p.len();
    proof {
        assert(p@.subrange(0, end as int) == p@);
        reveal_strlit(".");
    }
    while end > 0
        invariant
            end <= p@.len(),
            path_segments(p@) == path_segments(p@.subrange(0, end as int)),
        decreases end,
    {
        let ghost cur = p@.subrange(0, end as int);
        let mut k: usize = end;
        while k > 0 && p[k - 1] != '/'
            invariant
                k <= end <= p@.len(),
                forall|j: int| k <= j < end ==> p@[j] != '/',
            decreases k,
        {
            k = k - 1;
        }
        proof {
            let kk: int = k as int - 1;
            assert forall|j: int| kk < j < cur.len() implies cur[j] != '/' by {
                assert(cur[j] == p@[j]);
            }
            if k > 0 {
                assert(cur[kk] == '/');
            }
            lemma_last_slash_is(cur, kk);
            if k > 0 {
                assert(cur.subrange(0, kk) == p@.subrange(0, kk));
            }
            assert(cur.subrange(kk + 1, cur.len() as int) == p@.subrange(k as int, end as int));
        }
        let seg_len = end - k;
        let is_dot = seg_len == 1 && p[k] == '.';
        if seg_len > 0 && !is_dot {
            let mut name: Vec<char> = Vec::new();
            let mut q = k;
            while q < end
                invariant
                    k <= q <= end <= p@.len(),
                    name@ == p@.subrange(k as int, q as int),
                decreases end - q,
            {
                name.push(p[q]);
                proof {
                    assert(p@.subrange(k as int, q + 1) == p@.subrange(k as int, q as int).push(p@[q as int]));
                }
                q = q + 1;
            }
            proof {
                reveal_strlit(".");
                assert(p@.subrange(k as int, end as int) != "."@) by {
                    if seg_len == 1 {
                        assert(p@.subrange(k as int, end as int)[0] != "."@[0]);
                    } else {
                        assert(p@.subrange(k as int, end as int).len() != "."@.len());
                    }
                }
            }
            return Some(name);
        }
        proof {
            if seg_len == 1 {
                reveal_strlit(".");
                assert(p@.subrange(k as int, end as int) =~= "."@);
            }
        }
        if k == 0 {
            proof {
                assert(path_segments(p@.subrange(0, 0)) == Seq::<Seq<char>>::empty());
            }
            return None;
        }
        end = k - 1;
    }
    proof {
        assert(p@.subrange(0, 0).len() == 0);
    }
    None
}

/// The extension of a path, as `Path::extension` reports it.
pub fn extension_of(path: &str) -> (r: Option<String>)
    ensures
        opt_view(r) == path_extension(path@),
{
    let p = to_chars(path);
    let name = match last_segment(&p) {
        Some(n) => n,
        None => return None,
    };
    let mut k: usize = name.len();
    while k > 0 && name[k - 1] != '.'
        invariant
            k <= name@.len(),
            forall|j: int| k <= j < name@.len() ==> name@[j] != '.',
        decreases k,
    {
        k = k - 1;
    }
    proof {
        let kk: int = k as int - 1;
        lemma_last_dot_is(name@, kk);
    }
    let dotdot = name.len() == 2 && name[0] == '.' && name[1] == '.';
    proof {
        reveal_strlit("..");
        if name@.len() == 2 && name@[0] == '.' && name@[1] == '.' {
            assert(name@ =~= ".."@);
        }
    }
    if dotdot || k <= 1 {
        return None;
    }
    Some(string_of_range(&name, k, name.len()))
}

/// The path of `link` as the `url` crate parses it, or `None` when it
/// does not parse as a URL.
pub uninterp spec fn spec_url_path(link: Seq<char>) -> Option<Seq<char>>;

/// Calls `url::Url::parse(link)` and, when it succeeds, `path()`.
#[verifier::external_body]
fn url_path(link: &str) -> (r: Option<String>)
    ensures
        opt_view(r) == spec_url_path(link@),
{
    url::Url::parse(link).ok().map(|u| u.path().to_string())
}

/// The extension a downloaded file gets: that of the link's URL path,
/// else `default` (also when the link is not a URL, or the extension is
/// empty).
pub open spec fn extension_for(link: Seq<char>, default: Seq<char>) -> Seq<char> {
    match spec_url_path(link) {
        Some(p) => match path_extension(p) {
            Some(e) => if e.len() > 0 {
                e
            } else {
                default
            },
            None => default,
        },
        None => default,
    }
}

/// Picks a file extension from the link's URL path, falling back to
/// `default` when it has none or does not parse as a URL.
pub fn extension_or(link: &str, default: &str) -> (r: String)
    ensures
        r@ == extension_for(link@, default@),
{
    match url_path(link) {
        Some(p) => match extension_of(p.as_str()) {
            Some(e) => {
                if e.as_str().unicode_len() > 0 {
                    e
                } else {
                    owned(default)
                }
            },
            None => owned(default),
        },
        None => owned(default),
    }
}

/// The words of a hand-off command for `link`: the configured template
/// (or the platform default) with placeholders substituted.
pub open spec fn handoff_words(command: Option<Seq<char>>, link: Seq<char>, platform: Platform) -> Option<
    Seq<Seq<char>>,
> {
    match command {
        None => Some(substituted(default_tokens(platform), link)),
        Some(t) => match spec_shell_split(t) {
            Some(words) => Some(substituted(words, link)),
            None => None,
        },
    }
}

/// Splits a command's words into program and arguments.
fn spawn_plan(words: Vec<String>) -> (r: Result<DownloadPlan, DownloadError>)
    ensures
        words@.len() == 0 ==> r matches Err(DownloadError::EmptyCommand),
        words@.len() > 0 ==> (r matches Ok(DownloadPlan::Spawn { program, args }) && program@ == words@[0]@
            && texts(args@) == texts(words@).drop_first()),
{
    if words.len() == 0 {
        return Err(DownloadError::EmptyCommand);
    }
    let program = words[0].clone();
    let mut args: Vec<String> = Vec::new();
    let mut i: usize = 1;
    while i < words.len()
        invariant
            1 <= i <= words@.len(),
            texts(args@) == texts(words@).subrange(1, i as int),
        decreases words@.len() - i,
    {
        let ghost before = args@;
        let w = words[i].clone();
        args.push(w);
        proof {
            lemma_texts_push(before, w);
            assert(texts(words@).subrange(1, i + 1) =~= texts(words@).subrange(1, i as int).push(w@));
        }
        i = i + 1;
    }
    proof {
        assert(texts(words@).subrange(1, i as int) =~= texts(words@).drop_first());
    }
    Ok(DownloadPlan::Spawn { program, args })
}

/// What it takes to open `url`: the configured opener template (or the
/// platform default), split into words with the URL substituted in.
pub fn open_url_plan(url: &str, command_override: Option<&str>, platform: Platform) -> (r: Result<
    DownloadPlan,
    DownloadError,
>)
    ensures
        match handoff_words(
            match command_override {
                Some(c) => Some(c@),
                None => None,
            },
            url@,
            platform,
        ) {
            None => r matches Err(DownloadError::BadCommand(_, _)),
            Some(words) => if words.len() == 0 {
                r matches Err(DownloadError::EmptyCommand)
            } else {
                r matches Ok(DownloadPlan::Spawn { program, args }) && program@ == words[0] && texts(args@)
                    == words.drop_first()
            },
        },
{
    let tokens = match resolve_command_tokens(command_override, platform) {
        Ok(t) => t,
        Err(e) => return Err(e),
    };
    let words = substitute(tokens.as_slice(), url);
    spawn_plan(words)
}

/// The path a fetched file is saved at: the sanitized stem and the
/// link's extension (else `default_ext`), inside the request's directory.
pub fn fetch_path(request: &DownloadRequest, default_ext: &str) -> (r: String)
    ensures
        r@ == fetch_path_spec(*request, default_ext@),
{
    let ext = extension_or(request.link.as_str(), default_ext);
    let mut name = sanitize(request.file_stem.as_str());
    let ghost stem = name@;
    name.push('.');
    crate::text::append(&mut name, ext.as_str());
    proof {
        reveal_strlit(".");
        assert(name@ =~= stem + "."@ + ext@);
    }
    join(request.dir.as_str(), name.as_str())
}

/// What carrying out `request` takes: `direct` fetches into a file;
/// `torrent` runs its command when one is configured, else fetches a
/// `.torrent` file; `magnet` runs its command or the platform default.
pub fn plan_download(request: &DownloadRequest, platform: Platform) -> (r: Result<DownloadPlan, DownloadError>)
    ensures
        request.method == DownloadMethod::Direct ==> (r matches Ok(DownloadPlan::Fetch { path }) && path@
            == fetch_path_spec(*request, "bin"@)),
        request.method == DownloadMethod::Torrent && request.command is None ==> (r matches Ok(
            DownloadPlan::Fetch { path },
        ) && path@ == fetch_path_spec(*request, "torrent"@)),
        (request.method == DownloadMethod::Magnet || (request.method == DownloadMethod::Torrent
            && request.command is Some)) ==> match handoff_words(opt_view(request.command), request.link@, platform) {
            None => r matches Err(DownloadError::BadCommand(_, _)),
            Some(words) => if words.len() == 0 {
                r matches Err(DownloadError::EmptyCommand)
            } else {
                r matches Ok(DownloadPlan::Spawn { program, args }) && program@ == words[0] && texts(args@)
                    == words.drop_first()
            },
        },
{
    proof {
        reveal_strlit("bin");
        reveal_strlit("torrent");
    }
    let command: Option<&str> = match &request.command {
        Some(c) => Some(c.as_str()),
        None => None,
    };
    match request.method {
        DownloadMethod::Direct => Ok(DownloadPlan::Fetch { path: fetch_path(request, "bin") }),
        DownloadMethod::Torrent => {
            if request.command.is_none() {
                return Ok(DownloadPlan::Fetch { path: fetch_path(request, "torrent") });
            }
            let tokens = match resolve_command_tokens(command, platform) {
                Ok(t) => t,
                Err(e) => return Err(e),
            };
            spawn_plan(substitute(tokens.as_slice(), request.link.as_str()))
        },
        DownloadMethod::Magnet => {
            let tokens = match resolve_command_tokens(command, platform) {
                Ok(t) => t,
                Err(e) => return Err(e),
            };
            spawn_plan(substitute(tokens.as_slice(), request.link.as_str()))
        },
    }
}

/// The file name a stem is sanitized to (see [`sanitize`]).
pub open spec fn sanitized(stem: Seq<char>) -> Seq<char> {
    let c = cleaned(stem);
    let span = choose|a: int, b: int| #[trigger] trim_span(c, a, b);
    if span.0 == span.1 {
        "download"@
    } else {
        c.subrange(span.0, span.1)
    }
}

/// The path a fetched file is saved at, as a function of the request.
pub open spec fn fetch_path_spec(request: DownloadRequest, default_ext: Seq<char>) -> Seq<char> {
    join_spec(request.dir@, sanitized(request.file_stem@) + "."@ + extension_for(request.link@, default_ext))
}

/// The number of trimmed characters at the front of `s`.
spec fn lead(s: Seq<char>) -> int
    decreases s.len(),
{
    if s.len() == 0 {
        0
    } else if trimmed_char(s[0]) {
        1 + lead(s.drop_first())
    } else {
        0
    }
}

proof fn lemma_lead(s: Seq<char>)
    ensures
        0 <= lead(s) <= s.len(),
        forall|j: int| 0 <= j < lead(s) ==> trimmed_char(s[j]),
        lead(s) < s.len() ==> !trimmed_char(s[lead(s)]),
    decreases s.len(),
{
    if s.len() > 0 && trimmed_char(s[0]) {
        lemma_lead(s.drop_first());
        assert forall|j: int| 0 <= j < lead(s) implies trimmed_char(s[j]) by {
            if j > 0 {
                assert(s[j] == s.drop_first()[j - 1]);
            }
        }
    }
}

/// Where the trailing trimmed characters of `s` begin.
spec fn trail(s: Seq<char>) -> int
    decreases s.len(),
{
    if s.len() == 0 {
        0
    } else if trimmed_char(s.last()) {
        trail(s.drop_last())
    } else {
        s.len() as int
    }
}

proof fn lemma_trail(s: Seq<char>)
    ensures
        0 <= trail(s) <= s.len(),
        forall|j: int| trail(s) <= j < s.len() ==> trimmed_char(s[j]),
        trail(s) > 0 ==> !trimmed_char(s[trail(s) - 1]),
    decreases s.len(),
{
    if s.len() > 0 && trimmed_char(s.last()) {
        lemma_trail(s.drop_last());
        assert forall|j: int| trail(s) <= j < s.len() implies trimmed_char(s[j]) by {
            if j < s.len() - 1 {
                assert(s[j] == s.drop_last()[j]);
            }
        }
        if trail(s) > 0 {
            assert(s[trail(s) - 1] == s.drop_last()[trail(s) - 1]);
        }
    }
}

/// Every name has a trimmed span.
proof fn lemma_trim_span_exists(s: Seq<char>) -> (r: (int, int))
    ensures
        trim_span(s, r.0, r.1),
{
    lemma_lead(s);
    lemma_trail(s);
    let a = lead(s);
    if a == s.len() {
        (a, a)
    } else {
        let b = trail(s);
        if b <= a {
            assert(trimmed_char(s[a]));
        }
        (a, b)
    }
}

/// A sanitized file name is never empty, holds no control character,
/// path separator or character reserved on Windows, neither starts nor
/// ends with white space or a dot, and is no longer than the stem (unless
/// it is the fallback `download`).
pub proof fn law_sanitized_is_safe(stem: Seq<char>)
    ensures
        sanitized(stem).len() > 0,
        forall|i: int| 0 <= i < sanitized(stem).len() ==> !unsafe_char(#[trigger] sanitized(stem)[i]),
        !trimmed_char(sanitized(stem)[0]),
        !trimmed_char(sanitized(stem).last()),
        sanitized(stem) == "download"@ || sanitized(stem).len() <= stem.len(),
{
    reveal_strlit("download");
    let c = cleaned(stem);
    let w = lemma_trim_span_exists(c);
    let span = choose|a: int, b: int| #[trigger] trim_span(c, a, b);
    assert(trim_span(c, w.0, w.1));
    assert(trim_span(c, span.0, span.1));
    assert forall|i: int| 0 <= i < c.len() implies !unsafe_char(#[trigger] c[i]) by {
        assert(c[i] == (if unsafe_char(stem[i]) {
            '_'
        } else {
            stem[i]
        }));
    }
    if span.0 != span.1 {
        let r = c.subrange(span.0, span.1);
        assert forall|i: int| 0 <= i < r.len() implies !unsafe_char(#[trigger] r[i]) by {
            assert(r[i] == c[span.0 + i]);
        }
    }
}

/// Sanitizing a sanitized name changes nothing.
pub proof fn law_sanitize_idempotent(stem: Seq<char>)
    ensures
        sanitized(sanitized(stem)) == sanitized(stem),
{
    law_sanitized_is_safe(stem);
    let t = sanitized(stem);
    assert(cleaned(t) =~= t) by {
        assert forall|i: int| 0 <= i < t.len() implies cleaned(t)[i] == t[i] by {
            assert(!unsafe_char(t[i]));
        }
    }
    let c = cleaned(t);
    assert(trim_span(c, 0, c.len() as int));
    let span = choose|a: int, b: int| #[trigger] trim_span(c, a, b);
    assert(trim_span(c, span.0, span.1));
    lemma_trim_span_unique(c, 0, c.len() as int, span.0, span.1);
    assert(c.subrange(0, c.len() as int) =~= c);
}

/// The trimmed span is unique.
proof fn lemma_trim_span_unique(s: Seq<char>, a1: int, b1: int, a2: int, b2: int)
    requires
        trim_span(s, a1, b1),
        trim_span(s, a2, b2),
    ensures
        (a1 == b1) == (a2 == b2),
        a1 < b1 ==> a1 == a2 && b1 == b2,
{
    if a1 < b1 {
        if a2 == b2 {
            assert(trimmed_char(s[a1]));
        } else {
            if a2 < a1 {
                assert(trimmed_char(s[a2]));
            }
            if a1 < a2 {
                assert(trimmed_char(s[a1]));
            }
            if b2 < b1 {
                assert(trimmed_char(s[b1 - 1]));
            }
            if b1 < b2 {
                assert(trimmed_char(s[b2 - 1]));
            }
        }
    } else if a2 < b2 {
        assert(trimmed_char(s[a2]));
    }
}


/// The text of a download error.
pub open spec fn download_error_text(e: DownloadError) -> Seq<char> {
    match e {
        DownloadError::Http(m) => "http request failed: "@ + m@,
        DownloadError::Io { path, message } => "failed to write "@ + path@ + ": "@ + message@,
        DownloadError::BadCommand(t, m) => "invalid command template "@ + crate::text::spec_debug_str(t@) + ": "@ + m@,
        DownloadError::EmptyCommand => "command template is empty"@,
        DownloadError::Spawn(p, m) => "failed to launch "@ + crate::text::spec_debug_str(p@) + ": "@ + m@,
    }
}

impl DownloadError {
    /// The error's text, as shown to the user.
    pub fn message(&self) -> (r: String)
        ensures
            r@ == download_error_text(*self),
    {
        match self {
            DownloadError::Http(m) => {
                let mut out = owned("http request failed: ");
                crate::text::append(&mut out, m.as_str());
                out
            },
            DownloadError::Io { path, message } => {
                let mut out = owned("failed to write ");
                crate::text::append(&mut out, path.as_str());
                crate::text::append(&mut out, ": ");
                crate::text::append(&mut out, message.as_str());
                out
            },
            DownloadError::BadCommand(t, m) => {
                let mut out = owned("invalid command template ");
                let q = crate::text::debug_str(t.as_str());
                crate::text::append(&mut out, q.as_str());
                crate::text::append(&mut out, ": ");
                crate::text::append(&mut out, m.as_str());
                out
            },
            DownloadError::EmptyCommand => owned("command template is empty"),
            DownloadError::Spawn(p, m) => {
                let mut out = owned("failed to launch ");
                let q = crate::text::debug_str(p.as_str());
                crate::text::append(&mut out, q.as_str());
                crate::text::append(&mut out, ": ");
                crate::text::append(&mut out, m.as_str());
                out
            },
        }
    }
}


/// Substitution only ever replaces whole placeholder words: the command
/// keeps its length, every other word is kept as it is, and every
/// placeholder word becomes the link.
pub proof fn law_substitution_is_word_for_word(tokens: Seq<Seq<char>>, link: Seq<char>)
    ensures
        substituted(tokens, link).len() == tokens.len(),
        forall|i: int|
            0 <= i < tokens.len() ==> (is_placeholder(tokens[i]) ==> #[trigger] substituted(tokens, link)[i] == link)
                && (!is_placeholder(tokens[i]) ==> substituted(tokens, link)[i] == tokens[i]),
{
}

} // verus!
