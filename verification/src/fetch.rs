//! Loading source plugins from a local path or a URL, and reading a
//! source's poll response: which locations are remote, where a remote
//! plugin's last good copy is cached, the pinned-checksum check, how the
//! request is sent, and turning the response body into releases.

use vstd::prelude::*;

use crate::digest::{sha256_hex, spec_sha256_hex};
use crate::extract::{extract, ExtractionResult};
use crate::json::Json;
use crate::paths::{join, join_spec};
use crate::source::{CompiledSource, SourceError};
use crate::text::{append, ascii_lower_seq, has_prefix, owned, starts_with, str_eq};
use vstd::utf8::encode_utf8;

verus! {

/// Errors resolving a source plugin or polling its endpoint.
#[derive(Debug, Clone)]
pub enum FetchError {
    /// The plugin itself failed to load or compile.
    Source(SourceError),
    /// An HTTP request failed (its message).
    Http(String),
    /// Writing or reading the local cache of a remote plugin failed.
    CacheWrite {
        /// Path that failed.
        path: String,
        /// The I/O error's message.
        message: String,
    },
    /// A remote plugin's content did not match its pinned checksum.
    ChecksumMismatch {
        /// The URL the plugin was fetched from.
        location: String,
        /// The checksum pinned in config.
        expected: String,
        /// The checksum computed.
        actual: String,
    },
    /// A source's endpoint answered with a body that is not JSON.
    InvalidJson {
        /// The source's id.
        source_id: String,
        /// The parser's message.
        error: String,
    },
}

/// Whether a plugin location is a remote URL rather than a local path.
pub open spec fn remote(location: Seq<char>) -> bool {
    has_prefix(location, "http://"@) || has_prefix(location, "https://"@)
}

/// Whether `location` is an `http://` or `https://` URL.
pub fn is_url(location: &str) -> (r: bool)
    ensures
        r == remote(location@),
{
    starts_with(location, "http://") || starts_with(location, "https://")
}

/// Where a remote plugin's last good copy is cached:
/// `<sha256 of the URL>.toml` in the cache directory.
pub fn plugin_cache_path(cache_dir: &str, location: &str) -> (r: String)
    ensures
        r@ == join_spec(cache_dir@, spec_sha256_hex(encode_utf8(location@)) + ".toml"@),
{
    let mut name = sha256_hex(location);
    append(&mut name, ".toml");
    join(cache_dir, name.as_str())
}

/// Checks a freshly fetched remote plugin against its pinned checksum,
/// when one is pinned: the SHA-256 of its text must equal it.
pub fn check_checksum(location: &str, raw: &str, expected: Option<&str>) -> (r: Result<(), FetchError>)
    ensures
        match expected {
            None => r is Ok,
            Some(e) => if spec_sha256_hex(encode_utf8(raw@)) == e@ {
                r is Ok
            } else {
                r matches Err(FetchError::ChecksumMismatch { location: l, expected: x, actual: a }) && l@
                    == location@ && x@ == e@ && a@ == spec_sha256_hex(encode_utf8(raw@))
            },
        },
{
    match expected {
        None => Ok(()),
        Some(e) => {
            let actual = sha256_hex(raw);
            if str_eq(actual.as_str(), e) {
                Ok(())
            } else {
                Err(FetchError::ChecksumMismatch { location: owned(location), expected: owned(e), actual })
            }
        },
    }
}

/// Where a remote plugin's text comes from after an attempt to fetch it.
#[derive(Debug, Clone)]
pub enum RemoteText {
    /// The fetched text, checked: it is cached and used.
    Fresh(String),
    /// The fetch failed and a cached copy exists: that copy is used.
    Cached,
    /// The plugin cannot be had.
    Failed(FetchError),
}

/// Decides what a fetch of the remote plugin at `location` comes to: a
/// fetched text must match the pinned checksum, if any (a mismatch is an
/// error and never falls back to the cache); a failed fetch falls back to
/// the cached copy when there is one, else is the error.
pub fn after_fetch(
    location: &str,
    fetched: Result<String, FetchError>,
    expected: Option<&str>,
    cache_exists: bool,
) -> (r: RemoteText)
    ensures
        match fetched {
            Ok(raw) => match expected {
                Some(e) => if spec_sha256_hex(encode_utf8(raw@)) == e@ {
                    r == RemoteText::Fresh(raw)
                } else {
                    r matches RemoteText::Failed(FetchError::ChecksumMismatch { location: l, expected: x, actual: a })
                        && l@ == location@ && x@ == e@ && a@ == spec_sha256_hex(encode_utf8(raw@))
                },
                None => r == RemoteText::Fresh(raw),
            },
            Err(e) => if cache_exists {
                r is Cached
            } else {
                r == RemoteText::Failed(e)
            },
        },
{
    match fetched {
        Ok(raw) => match check_checksum(location, raw.as_str(), expected) {
            Ok(()) => RemoteText::Fresh(raw),
            Err(e) => RemoteText::Failed(e),
        },
        Err(e) => if cache_exists {
            RemoteText::Cached
        } else {
            RemoteText::Failed(e)
        },
    }
}

/// Whether a source's request is sent as `POST` (its method, upper-cased,
/// is `POST`); any other method is sent as `GET`.
pub fn uses_post(method: &str) -> (r: bool)
    ensures
        r == (ascii_lower_seq(method@) == "post"@),
{
    let cs = crate::text::to_chars(method);
    if cs.len() != 4 {
        proof {
            reveal_strlit("post");
            assert(ascii_lower_seq(method@).len() != "post"@.len());
        }
        return false;
    }
    let ok = (cs[0] == 'P' || cs[0] == 'p') && (cs[1] == 'O' || cs[1] == 'o') && (cs[2] == 'S' || cs[2]
        == 's') && (cs[3] == 'T' || cs[3] == 't');
    proof {
        reveal_strlit("post");
        let l = ascii_lower_seq(method@);
        assert(l.len() == 4);
        if ok {
            assert(l =~= "post"@);
        } else {
            assert(l[0] != 'p' || l[1] != 'o' || l[2] != 's' || l[3] != 't');
        }
    }
    ok
}

/// The JSON value `text` parses to, or the parser's message.
pub uninterp spec fn spec_parse_json(text: Seq<char>) -> Result<Json, Seq<char>>;

#[verifier::external_type_specification]
#[verifier::external_body]
pub struct ExJsonValue(serde_json::Value);

/// Converts a `serde_json` value into the library's JSON value, one for
/// one: numbers keep the text `serde_json` prints them as, and object
/// members keep the order `serde_json`'s map iterates them in.
#[verifier::external_body]
fn json_from_value(v: serde_json::Value) -> Json {
    match v {
        serde_json::Value::Null => Json::Null,
        serde_json::Value::Bool(b) => Json::Bool(b),
        serde_json::Value::Number(n) => Json::Number(n.to_string()),
        serde_json::Value::String(s) => Json::Str(s),
        serde_json::Value::Array(a) => Json::Array(a.into_iter().map(json_from_value).collect()),
        serde_json::Value::Object(m) => Json::Object(m.into_iter().map(|(k, x)| (k, json_from_value(x))).collect()),
    }
}

/// Parses `text` with `serde_json::from_str` into a `serde_json::Value`
/// and converts it; on failure, the error's display text.
#[verifier::external_body]
fn parse_json(text: &str) -> (r: Result<Json, String>)
    ensures
        match r {
            Ok(v) => spec_parse_json(text@) == Ok::<Json, Seq<char>>(v),
            Err(e) => spec_parse_json(text@) == Err::<Json, Seq<char>>(e@),
        },
{
    serde_json::from_str::<serde_json::Value>(text).map(json_from_value).map_err(|e| e.to_string())
}

/// Turns a source's response body into releases: the body parsed as JSON
/// and extracted with the source's rules; a body that is not JSON is an
/// error naming the source.
pub fn decode_response(source: &CompiledSource, body: &str) -> (r: Result<ExtractionResult, FetchError>)
    ensures
        match spec_parse_json(body@) {
            Ok(root) => r matches Ok(res) && crate::extract::release_views(res.releases@) == crate::extract::releases_of(
                crate::extract::all_outcomes(*source, source.items.eval(root)),
            ) && crate::extract::string_views(res.warnings@) == crate::extract::warnings_of(
                crate::extract::all_outcomes(*source, source.items.eval(root)),
            ),
            Err(m) => r matches Err(FetchError::InvalidJson { source_id, error }) && source_id@ == source.id@
                && error@ == m,
        },
{
    match parse_json(body) {
        Ok(root) => Ok(extract(source, &root)),
        Err(e) => Err(FetchError::InvalidJson { source_id: source.id.clone(), error: e }),
    }
}


impl FetchError {
    /// The error's text, as shown to the user.
    pub fn message(&self) -> (r: String)
        ensures
            match self {
                FetchError::Source(e) => r@ == crate::source::source_error_text(*e),
                FetchError::Http(m) => r@ == "http request failed: "@ + m@,
                FetchError::CacheWrite { path, message } => r@ == "failed to write plugin cache "@ + path@ + ": "@
                    + message@,
                FetchError::ChecksumMismatch { location, expected, actual } => r@ == "checksum mismatch for "@
                    + location@ + ": expected "@ + expected@ + ", got "@ + actual@,
                FetchError::InvalidJson { source_id, error } => r@ == "source "@ + source_id@
                    + " returned invalid JSON: "@ + error@,
            },
    {
        match self {
            FetchError::Source(e) => e.message(),
            FetchError::Http(m) => {
                let mut out = owned("http request failed: ");
                append(&mut out, m.as_str());
                out
            },
            FetchError::CacheWrite { path, message } => {
                let mut out = owned("failed to write plugin cache ");
                append(&mut out, path.as_str());
                append(&mut out, ": ");
                append(&mut out, message.as_str());
                out
            },
            FetchError::ChecksumMismatch { location, expected, actual } => {
                let mut out = owned("checksum mismatch for ");
                append(&mut out, location.as_str());
                append(&mut out, ": expected ");
                append(&mut out, expected.as_str());
                append(&mut out, ", got ");
                append(&mut out, actual.as_str());
                out
            },
            FetchError::InvalidJson { source_id, error } => {
                let mut out = owned("source ");
                append(&mut out, source_id.as_str());
                append(&mut out, " returned invalid JSON: ");
                append(&mut out, error.as_str());
                out
            },
        }
    }
}

} // verus!
