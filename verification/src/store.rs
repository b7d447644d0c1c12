//! The rows of the state database (series, interactions, pending episodes,
//! seen variants) as plain values, and the rules the database keeps about
//! them. Timestamps are RFC 3339 text, as stored; the pending table's
//! first sighting is also kept in milliseconds since the Unix epoch for
//! the resolution-wait clock.

use vstd::prelude::*;

use crate::model::{clone_opt, opt_view};
use crate::text::{owned, str_eq};

verus! {

/// A tracked show, with its CLI-owned state.
#[derive(Debug, Clone, PartialEq, Eq)]
pub struct SeriesRow {
    /// Auto-generated numeric id.
    pub id: i64,
    /// Id of the source this show comes from.
    pub source_id: String,
    /// The show's title, as reported by the source.
    pub title: String,
    /// User-assigned unique alias, if set.
    pub alias: Option<String>,
    /// Current category name.
    pub category: String,
    /// Last episode notified/downloaded, if any.
    pub last_episode: Option<String>,
    /// When the user last interacted with it (RFC 3339), if ever.
    pub last_interaction_at: Option<String>,
    /// Cached cover image URL, if any.
    pub cover_url: Option<String>,
}

/// The kind of an entry in the interaction log.
#[derive(Debug, Clone, Copy, PartialEq, Eq, Structural)]
pub enum InteractionKind {
    /// A release was downloaded for the show.
    Download,
    /// The show's category was changed.
    Category,
    /// The show's alias was changed.
    Alias,
    /// The show was first seen.
    Created,
}

/// The text a kind is stored as.
pub open spec fn kind_text(k: InteractionKind) -> Seq<char> {
    match k {
        InteractionKind::Download => "download"@,
        InteractionKind::Category => "category"@,
        InteractionKind::Alias => "alias"@,
        InteractionKind::Created => "created"@,
    }
}

/// The kind stored as `raw`, if any.
pub open spec fn kind_named(raw: Seq<char>) -> Option<InteractionKind> {
    if raw == "download"@ {
        Some(InteractionKind::Download)
    } else if raw == "category"@ {
        Some(InteractionKind::Category)
    } else if raw == "alias"@ {
        Some(InteractionKind::Alias)
    } else if raw == "created"@ {
        Some(InteractionKind::Created)
    } else {
        None
    }
}

impl InteractionKind {
    /// The lowercase text stored in the `kind` column.
    pub fn as_str(&self) -> (r: &'static str)
        ensures
            r@ == kind_text(*self),
    {
        match self {
            InteractionKind::Download => "download",
            InteractionKind::Category => "category",
            InteractionKind::Alias => "alias",
            InteractionKind::Created => "created",
        }
    }

    /// Parses a kind back from its stored text.
    pub fn parse(raw: &str) -> (r: Option<InteractionKind>)
        ensures
            r == kind_named(raw@),
    {
        if str_eq(raw, "download") {
            Some(InteractionKind::Download)
        } else if str_eq(raw, "category") {
            Some(InteractionKind::Category)
        } else if str_eq(raw, "alias") {
            Some(InteractionKind::Alias)
        } else if str_eq(raw, "created") {
            Some(InteractionKind::Created)
        } else {
            None
        }
    }
}

/// Parsing the stored text of a kind gives the kind back, and no two kinds
/// share a text.
pub proof fn law_interaction_kind_round_trip(k: InteractionKind)
    ensures
        kind_named(kind_text(k)) == Some(k),
{
    reveal_strlit("download");
    reveal_strlit("category");
    reveal_strlit("alias");
    reveal_strlit("created");
    match k {
        InteractionKind::Download => {},
        InteractionKind::Category => {
            assert("category"@ != "download"@) by {
                assert("category"@[0] != "download"@[0]);
            }
        },
        InteractionKind::Alias => {
            assert("alias"@ != "download"@) by {
                assert("alias"@.len() != "download"@.len());
            }
            assert("alias"@ != "category"@) by {
                assert("alias"@.len() != "category"@.len());
            }
        },
        InteractionKind::Created => {
            assert("created"@ != "download"@) by {
                assert("created"@.len() != "download"@.len());
            }
            assert("created"@ != "category"@) by {
                assert("created"@.len() != "category"@.len());
            }
            assert("created"@ != "alias"@) by {
                assert("created"@.len() != "alias"@.len());
            }
        },
    }
}

/// An entry of the interaction log.
#[derive(Debug, Clone, PartialEq, Eq)]
pub struct InteractionRow {
    /// Auto-generated numeric id.
    pub id: i64,
    /// The show it is about.
    pub series_id: i64,
    /// What kind of interaction it was.
    pub kind: InteractionKind,
    /// Free-form detail, e.g. the new category/alias/resolution.
    pub detail: Option<String>,
    /// When it happened (RFC 3339).
    pub at: String,
}

/// An episode seen without its desired resolution yet.
#[derive(Debug, Clone, PartialEq, Eq)]
pub struct PendingRow {
    /// The show it belongs to.
    pub series_id: i64,
    /// The episode identifier.
    pub episode: String,
    /// When it was first seen, in milliseconds since the Unix epoch.
    pub first_seen_at: i64,
    /// The resolution that would satisfy it immediately.
    pub desired_resolution: String,
    /// Best resolution seen so far, if any.
    pub best_resolution: Option<String>,
    /// The best-so-far release, as JSON.
    pub best_variant_json: Option<String>,
}

/// A variant recorded in the `seen` log.
#[derive(Debug, Clone, PartialEq, Eq)]
pub struct SeenRow {
    /// The episode identifier.
    pub episode: String,
    /// Resolution label.
    pub resolution: String,
    /// Download method, as stored.
    pub method: String,
    /// The URL or magnet URI.
    pub link: String,
}

/// The best-so-far fields a pending row holds after an update: each new
/// value when given, else the one already stored (none for a new row).
pub open spec fn merged_best(new: Option<Seq<char>>, existing: Option<Seq<char>>) -> Option<Seq<char>> {
    match new {
        Some(v) => Some(v),
        None => existing,
    }
}

/// The row a pending upsert leaves: an existing row keeps its first
/// sighting and desired resolution and takes each best-so-far value that
/// is given; a new row starts at `now`.
pub fn upserted_pending(
    existing: Option<&PendingRow>,
    series_id: i64,
    episode: &str,
    desired_resolution: &str,
    best_resolution: Option<&str>,
    best_variant_json: Option<&str>,
    now: i64,
) -> (r: PendingRow)
    ensures
        r.series_id == series_id,
        r.episode@ == episode@,
        match existing {
            Some(e) => {
                &&& r.first_seen_at == e.first_seen_at
                &&& r.desired_resolution@ == e.desired_resolution@
                &&& opt_view(r.best_resolution) == merged_best(
                    match best_resolution {
                        Some(b) => Some(b@),
                        None => None,
                    },
                    opt_view(e.best_resolution),
                )
                &&& opt_view(r.best_variant_json) == merged_best(
                    match best_variant_json {
                        Some(b) => Some(b@),
                        None => None,
                    },
                    opt_view(e.best_variant_json),
                )
            },
            None => {
                &&& r.first_seen_at == now
                &&& r.desired_resolution@ == desired_resolution@
                &&& opt_view(r.best_resolution) == match best_resolution {
                    Some(b) => Some(b@),
                    None => None,
                }
                &&& opt_view(r.best_variant_json) == match best_variant_json {
                    Some(b) => Some(b@),
                    None => None,
                }
            },
        },
{
    let best_res = match best_resolution {
        Some(b) => Some(owned(b)),
        None => match existing {
            Some(e) => clone_opt(&e.best_resolution),
            None => None,
        },
    };
    let best_json = match best_variant_json {
        Some(b) => Some(owned(b)),
        None => match existing {
            Some(e) => clone_opt(&e.best_variant_json),
            None => None,
        },
    };
    match existing {
        Some(e) => PendingRow {
            series_id,
            episode: owned(episode),
            first_seen_at: e.first_seen_at,
            desired_resolution: e.desired_resolution.clone(),
            best_resolution: best_res,
            best_variant_json: best_json,
        },
        None => PendingRow {
            series_id,
            episode: owned(episode),
            first_seen_at: now,
            desired_resolution: owned(desired_resolution),
            best_resolution: best_res,
            best_variant_json: best_json,
        },
    }
}

} // verus!
