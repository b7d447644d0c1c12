//! The daemon's loopback control server, apart from its socket: the
//! shared-secret token every request must carry (kept across restarts so
//! that buttons of notifications shown before a restart keep working),
//! and the page an action request is answered with.

use vstd::prelude::*;

use rand::Rng;

use crate::paths::{join, join_spec};
use crate::text::{append, owned, str_eq, trim, trim_str};

verus! {

/// An ASCII letter or digit.
pub open spec fn is_ascii_alphanumeric(c: char) -> bool {
    ('a' <= c && c <= 'z') || ('A' <= c && c <= 'Z') || ('0' <= c && c <= '9')
}

/// A fresh token: 32 characters drawn by `rand` with its `Alphanumeric`
/// distribution from the thread-local generator. By `rand`'s source and
/// documentation, each is an ASCII letter or digit. Which ones come out is
/// chance and is not stated.
#[verifier::external_body]
fn generate_token() -> (r: String)
    ensures
        r@.len() == 32,
        forall|i: int| 0 <= i < 32 ==> is_ascii_alphanumeric(#[trigger] r@[i]),
{
    rand::thread_rng().sample_iter(&rand::distributions::Alphanumeric).take(32).map(char::from).collect()
}

/// The file the token is kept in: `control_token` in the state directory.
pub fn token_path(state_dir: &str) -> (r: String)
    ensures
        r@ == join_spec(state_dir@, "control_token"@),
{
    join(state_dir, "control_token")
}

/// The control token to use, given what the token file holds (`None`
/// when it could not be read).
#[derive(Debug, Clone)]
pub struct ControlToken {
    /// The token.
    pub token: String,
    /// Whether it was just generated, and so should be written to the
    /// token file.
    pub fresh: bool,
}

/// Picks the control token: the token file's content, trimmed, when that
/// is not empty; else a fresh random token, to be persisted.
pub fn choose_token(existing: Option<&str>) -> (r: ControlToken)
    ensures
        match existing {
            Some(e) => trim(e@).len() > 0 ==> (r.token@ == trim(e@) && !r.fresh),
            None => true,
        },
        (existing is None || trim(existing->0@).len() == 0) ==> (r.fresh && r.token@.len() == 32 && forall|i: int|
            0 <= i < 32 ==> is_ascii_alphanumeric(#[trigger] r.token@[i])),
{
    if let Some(e) = existing {
        let t = trim_str(e);
        if t.as_str().unicode_len() > 0 {
            return ControlToken { token: t, fresh: false };
        }
    }
    ControlToken { token: generate_token(), fresh: true }
}

/// The page answering a request with a wrong or missing token.
pub open spec fn forbidden_page() -> Seq<char> {
    "<h1>Forbidden</h1><p>Invalid or missing token.</p>"@
}

/// The page answering a handled action: its message, or the error.
pub open spec fn result_page(result: Result<Seq<char>, Seq<char>>) -> Seq<char> {
    match result {
        Ok(m) => "<h1>anime-notif</h1><p>"@ + m + "</p>"@,
        Err(e) => "<h1>anime-notif</h1><p>Error: "@ + e + "</p>"@,
    }
}

/// Whether a request's token is the daemon's.
pub fn token_accepted(given: &str, expected: &str) -> (r: bool)
    ensures
        r == (given@ == expected@),
{
    str_eq(given, expected)
}

/// The page an action request is answered with, given how handling it
/// went (the message, or the error's text).
pub fn action_page(result: Result<&str, &str>) -> (r: String)
    ensures
        r@ == result_page(
            match result {
                Ok(m) => Ok(m@),
                Err(e) => Err(e@),
            },
        ),
{
    match result {
        Ok(m) => {
            let mut out = owned("<h1>anime-notif</h1><p>");
            append(&mut out, m);
            append(&mut out, "</p>");
            out
        },
        Err(e) => {
            let mut out = owned("<h1>anime-notif</h1><p>Error: ");
            append(&mut out, e);
            append(&mut out, "</p>");
            out
        },
    }
}

/// The page a request with a wrong or missing token is answered with.
pub fn forbidden() -> (r: String)
    ensures
        r@ == forbidden_page(),
{
    owned("<h1>Forbidden</h1><p>Invalid or missing token.</p>")
}

/// Errors starting the daemon.
#[derive(Debug, Clone)]
pub enum DaemonError {
    /// Opening the database failed (its message).
    Store(String),
    /// Binding the control server's socket failed (its message).
    Bind(String),
}

impl DaemonError {
    /// The error's text.
    pub fn message(&self) -> (r: String)
        ensures
            match self {
                DaemonError::Store(m) => r@ == m@,
                DaemonError::Bind(m) => r@ == "failed to bind control server: "@ + m@,
            },
    {
        match self {
            DaemonError::Store(m) => m.clone(),
            DaemonError::Bind(m) => {
                let mut out = owned("failed to bind control server: ");
                append(&mut out, m.as_str());
                out
            },
        }
    }
}

} // verus!
