//! The decisions of the resolution-wait workflow and of notification
//! actions, apart from the I/O around them: which policy applies to a
//! source, which variants are worth surfacing, when a pending episode is
//! updated or resolved, what a notification says and offers, which
//! category a whitelist/blacklist click moves a show to, and what each
//! action reports back. The daemon performs the database, notification
//! and download work these decisions call for.

use vstd::prelude::*;

use crate::config::{
    defines_category, CategoryDef, Config, Downloads, NotificationsConfig, SourceNotificationOverride,
    VersionMode, VersionsConfig, effective, resolved_dir,
};
use crate::digest::push_utf8;
use crate::download::DownloadRequest;
use crate::keyed::{find_entry, lookup};
use crate::model::{clone_opt, method_named, opt_view, spec_episode_key, DownloadMethod, Release};
use crate::notify::{Notification, NotificationAction, Sound};
use crate::resolution::{
    at_best, at_best_with, at_resolution, at_resolution_with, best_index, best_rank, best_variant, desired_index, eligible,
    find_desired, first_where, lemma_best_rank, lemma_first_where, rank, rank_resolution, version_eligible,
};
use crate::store::{PendingRow, SeenRow, SeriesRow};
use crate::text::{append, debug_str, decimal, i64_to_string, owned, signed_decimal, spec_debug_str, str_eq};
use vstd::utf8::encode_utf8;

verus! {

/// The version policy in force for a source: its own `mode` when its
/// override sets one, else the global mode.
pub open spec fn mode_for(v: VersionsConfig, source_id: Seq<char>) -> VersionMode {
    match lookup(v.sources@, source_id) {
        Some(o) => match o.mode {
            Some(m) => m,
            None => v.mode,
        },
        None => v.mode,
    }
}

/// Resolves the versioned-release policy for `source_id`: a per-source
/// override if it sets `mode`, otherwise the global `versions.mode`.
pub fn version_mode_for(versions: &VersionsConfig, source_id: &str) -> (r: VersionMode)
    ensures
        r == mode_for(*versions, source_id@),
{
    match find_entry(&versions.sources, source_id) {
        Some(o) => match o.mode {
            Some(m) => m,
            None => versions.mode,
        },
        None => versions.mode,
    }
}

/// The sound a source's notifications play: the per-source override when
/// it sets a file or a name, else the global settings; a file is
/// preferred over a theme name at whichever level applies.
pub open spec fn sound_for(n: NotificationsConfig, source_id: Seq<char>) -> Option<(bool, Seq<char>)> {
    let own = lookup(n.sources@, source_id);
    let (file, name) = match own {
        Some(o) => if o.sound_file is Some || o.sound_name is Some {
            (o.sound_file, o.sound_name)
        } else {
            (n.sound_file, n.sound_name)
        },
        None => (n.sound_file, n.sound_name),
    };
    match file {
        Some(f) => Some((true, f@)),
        None => match name {
            Some(s) => Some((false, s@)),
            None => None,
        },
    }
}

/// A sound as plain values: whether it is a file, and its path or name.
pub open spec fn sound_view(s: Option<Sound>) -> Option<(bool, Seq<char>)> {
    match s {
        Some(Sound::File(p)) => Some((true, p@)),
        Some(Sound::Name(n)) => Some((false, n@)),
        None => None,
    }
}

/// Resolves the sound to play for a notification from `source_id`: a
/// per-source override if it sets a sound file or name, otherwise the
/// global one, preferring a file over a themed name; `None` when nothing
/// is configured.
pub fn resolve_sound(cfg: &NotificationsConfig, source_id: &str) -> (r: Option<Sound>)
    ensures
        sound_view(r) == sound_for(*cfg, source_id@),
{
    let (file, name) = match find_entry(&cfg.sources, source_id) {
        Some(o) => {
            if o.sound_file.is_some() || o.sound_name.is_some() {
                (clone_opt(&o.sound_file), clone_opt(&o.sound_name))
            } else {
                (clone_opt(&cfg.sound_file), clone_opt(&cfg.sound_name))
            }
        },
        None => (clone_opt(&cfg.sound_file), clone_opt(&cfg.sound_name)),
    };
    match file {
        Some(f) => Some(Sound::File(f)),
        None => match name {
            Some(n) => Some(Sound::Name(n)),
            None => None,
        },
    }
}

/// The index of the first category named `name`, or the count when none.
pub open spec fn category_index(categories: Seq<CategoryDef>, name: Seq<char>) -> int
    decreases categories.len(),
{
    if categories.len() == 0 {
        0
    } else if categories[0].name@ == name {
        0
    } else {
        1 + category_index(categories.drop_first(), name)
    }
}

/// The definition of the category `name`: the first defined with that
/// name, else one that notifies without auto-downloading.
pub fn category_for(categories: &Vec<CategoryDef>, name: &str) -> (r: CategoryDef)
    ensures
        r.name@ == name@,
        category_index(categories@, name@) < categories@.len() ==> r.notify == categories@[category_index(
            categories@,
            name@,
        )].notify && r.auto_download == categories@[category_index(categories@, name@)].auto_download,
        category_index(categories@, name@) >= categories@.len() ==> r.notify && !r.auto_download,
{
    let mut i: usize = 0;
    proof {
        assert(categories@.skip(0) == categories@);
    }
    while i < categories.len()
        invariant
            i <= categories@.len(),
            category_index(categories@, name@) == i + category_index(categories@.skip(i as int), name@),
        decreases categories@.len() - i,
    {
        proof {
            assert(categories@.skip(i as int).drop_first() == categories@.skip(i + 1));
        }
        if str_eq(categories[i].name.as_str(), name) {
            return CategoryDef {
                name: categories[i].name.clone(),
                notify: categories[i].notify,
                auto_download: categories[i].auto_download,
            };
        }
        i = i + 1;
    }
    CategoryDef { name: owned(name), notify: true, auto_download: false }
}

/// An ASCII hex digit, upper case, for `0 <= d < 16`.
pub open spec fn hex_upper(d: int) -> char {
    if d < 10 {
        (('0' as int) + d) as char
    } else {
        (('A' as int) + d - 10) as char
    }
}

/// Bytes `application/x-www-form-urlencoded` leaves as they are.
pub open spec fn form_unreserved(b: u8) -> bool {
    b == 0x2a || b == 0x2d || b == 0x2e || (0x30 <= b && b <= 0x39) || (0x41 <= b && b <= 0x5a) || b == 0x5f
        || (0x61 <= b && b <= 0x7a)
}

/// The form-urlencoded text of one byte: itself when unreserved, `+` for
/// a space, else `%XX` in upper-case hex.
pub open spec fn form_byte(b: u8) -> Seq<char> {
    if form_unreserved(b) {
        seq![b as char]
    } else if b == 0x20 {
        seq!['+']
    } else {
        seq!['%', hex_upper(b as int / 16), hex_upper(b as int % 16)]
    }
}

/// The form-urlencoded text of a byte string.
pub open spec fn form_encoded(bytes: Seq<u8>) -> Seq<char>
    decreases bytes.len(),
{
    if bytes.len() == 0 {
        Seq::empty()
    } else {
        form_encoded(bytes.drop_last()) + form_byte(bytes.last())
    }
}

/// Calls `url::form_urlencoded::byte_serialize` and collects its pieces.
/// By its source (and the WHATWG URL standard it follows), each byte in
/// `*-._`, `0-9`, `A-Z`, `a-z` is kept, a space becomes `+`, and every
/// other byte becomes `%` and two upper-case hex digits.
#[verifier::external_body]
fn form_encode(bytes: &[u8]) -> (r: String)
    ensures
        r@ == form_encoded(bytes@),
{
    url::form_urlencoded::byte_serialize(bytes).collect()
}

/// The form-urlencoded text of a string's UTF-8 bytes.
pub open spec fn encoded(s: Seq<char>) -> Seq<char> {
    form_encoded(encode_utf8(s))
}

/// The form-urlencoded text of `s`.
fn encode_str(s: &str) -> (r: String)
    ensures
        r@ == encoded(s@),
{
    let mut bytes: Vec<u8> = Vec::new();
    push_utf8(&mut bytes, s);
    assert(bytes@ == encode_utf8(s@));
    form_encode(bytes.as_slice())
}

/// The URL a notification action hits on the control server.
pub open spec fn action_url_spec(
    base: Seq<char>,
    token: Seq<char>,
    kind: Seq<char>,
    series_id: int,
    episode: Seq<char>,
    target: Option<Seq<char>>,
) -> Seq<char> {
    base + "/action?token="@ + token + "&kind="@ + kind + "&series_id="@ + signed_decimal(series_id)
        + "&episode="@ + encoded(episode) + match target {
        Some(t) => "&url="@ + encoded(t),
        None => Seq::empty(),
    }
}

/// Builds the control-server URL of an action; `target_url` is only used
/// by the `open_show` kind (the show page to open).
pub fn action_url(
    control_base_url: &str,
    control_token: &str,
    kind: &str,
    series_id: i64,
    episode: &str,
    target_url: Option<&str>,
) -> (r: String)
    ensures
        r@ == action_url_spec(
            control_base_url@,
            control_token@,
            kind@,
            series_id as int,
            episode@,
            match target_url {
                Some(t) => Some(t@),
                None => None,
            },
        ),
{
    let mut out = owned(control_base_url);
    append(&mut out, "/action?token=");
    append(&mut out, control_token);
    append(&mut out, "&kind=");
    append(&mut out, kind);
    append(&mut out, "&series_id=");
    let id = i64_to_string(series_id);
    append(&mut out, id.as_str());
    append(&mut out, "&episode=");
    let ep = encode_str(episode);
    append(&mut out, ep.as_str());
    let ghost head = out@;
    match target_url {
        Some(t) => {
            append(&mut out, "&url=");
            let enc = encode_str(t);
            append(&mut out, enc.as_str());
        },
        None => {},
    }
    proof {
        assert(out@ =~= action_url_spec(
            control_base_url@,
            control_token@,
            kind@,
            series_id as int,
            episode@,
            match target_url {
                Some(t) => Some(t@),
                None => None,
            },
        ));
    }
    out
}

/// The actions a new-episode notification offers, as `(id, label, kind,
/// target)`: always `download`; `whitelist` and `blacklist` for a
/// category that does not auto-download; `default` (click on the body) to
/// open the show page when that is enabled and the release has one.
pub open spec fn offered_actions(auto_download: bool, open_show_page: bool, show_url: Option<Seq<char>>) -> Seq<
    (Seq<char>, Seq<char>, Seq<char>, Option<Seq<char>>),
> {
    let base = seq![("download"@, "Download"@, "download"@, None::<Seq<char>>)];
    let classify = if !auto_download {
        seq![
            ("whitelist"@, "Whitelist"@, "whitelist"@, None::<Seq<char>>),
            ("blacklist"@, "Blacklist"@, "blacklist"@, None::<Seq<char>>),
        ]
    } else {
        Seq::empty()
    };
    let open = match show_url {
        Some(u) => if open_show_page {
            seq![("default"@, "Open"@, "open_show"@, Some(u))]
        } else {
            Seq::empty()
        },
        None => Seq::empty(),
    };
    base + classify + open
}

/// Whether `actions` are the offered ones, each with its action URL.
pub open spec fn actions_match(
    actions: Seq<NotificationAction>,
    offered: Seq<(Seq<char>, Seq<char>, Seq<char>, Option<Seq<char>>)>,
    base: Seq<char>,
    token: Seq<char>,
    series_id: int,
    episode: Seq<char>,
) -> bool {
    &&& actions.len() == offered.len()
    &&& forall|i: int|
        0 <= i < actions.len() ==> {
            &&& #[trigger] actions[i].id@ == offered[i].0
            &&& actions[i].label@ == offered[i].1
            &&& actions[i].url@ == action_url_spec(base, token, offered[i].2, series_id, episode, offered[i].3)
        }
}

/// One action of a notification.
fn make_action(
    id: &str,
    label: &str,
    base: &str,
    token: &str,
    kind: &str,
    series_id: i64,
    episode: &str,
    target: Option<&str>,
) -> (r: NotificationAction)
    ensures
        r.id@ == id@,
        r.label@ == label@,
        r.url@ == action_url_spec(
            base@,
            token@,
            kind@,
            series_id as int,
            episode@,
            match target {
                Some(t) => Some(t@),
                None => None,
            },
        ),
{
    NotificationAction {
        id: owned(id),
        label: owned(label),
        url: action_url(base, token, kind, series_id, episode, target),
    }
}

/// The actions of a new-episode notification for `episode` of show
/// `series_id`: `download`, then `whitelist`/`blacklist` when the category
/// does not auto-download, then `default` (open the show page) when
/// enabled and the release has a page.
pub fn notification_actions(
    control_base_url: &str,
    control_token: &str,
    series_id: i64,
    episode: &str,
    auto_download: bool,
    open_show_page: bool,
    show_url: Option<&str>,
) -> (r: Vec<NotificationAction>)
    ensures
        actions_match(
            r@,
            offered_actions(
                auto_download,
                open_show_page,
                match show_url {
                    Some(u) => Some(u@),
                    None => None,
                },
            ),
            control_base_url@,
            control_token@,
            series_id as int,
            episode@,
        ),
{
    let mut actions: Vec<NotificationAction> = Vec::new();
    actions.push(make_action("download", "Download", control_base_url, control_token, "download", series_id, episode, None));
    if !auto_download {
        actions.push(make_action("whitelist", "Whitelist", control_base_url, control_token, "whitelist", series_id, episode, None));
        actions.push(make_action("blacklist", "Blacklist", control_base_url, control_token, "blacklist", series_id, episode, None));
    }
    if open_show_page {
        if let Some(u) = show_url {
            actions.push(make_action("default", "Open", control_base_url, control_token, "open_show", series_id, episode, Some(u)));
        }
    }
    proof {
        let offered = offered_actions(
            auto_download,
            open_show_page,
            match show_url {
                Some(u) => Some(u@),
                None => None,
            },
        );
        assert(actions@.len() == offered.len());
        assert forall|i: int| 0 <= i < actions@.len() implies {
            &&& #[trigger] actions@[i].id@ == offered[i].0
            &&& actions@[i].label@ == offered[i].1
            &&& actions@[i].url@ == action_url_spec(
                control_base_url@,
                control_token@,
                offered[i].2,
                series_id as int,
                episode@,
                offered[i].3,
            )
        } by {}
    }
    actions
}

/// `Episode <episode> [<resolution>] via <method>`.
pub open spec fn body_text(episode: Seq<char>, resolution: Seq<char>, method: DownloadMethod) -> Seq<char> {
    "Episode "@ + episode + " ["@ + resolution + "] via "@ + method.name()
}

/// The body of a new-episode notification.
pub fn notification_body(chosen: &Release) -> (r: String)
    ensures
        r@ == body_text(chosen.episode@, chosen.resolution@, chosen.method),
{
    let mut out = owned("Episode ");
    append(&mut out, chosen.episode.as_str());
    append(&mut out, " [");
    append(&mut out, chosen.resolution.as_str());
    append(&mut out, "] via ");
    append(&mut out, chosen.method.as_str());
    out
}

/// The notification for a newly resolved episode: the show's title, the
/// episode/resolution/method, the source's cached icon (else the default
/// icon) as badge, the cover art as image, the source's sound, and the
/// offered actions.
pub fn episode_notification(
    series: &SeriesRow,
    auto_download: bool,
    chosen: &Release,
    config: &Config,
    control_base_url: &str,
    control_token: &str,
    source_icon: Option<String>,
    default_icon: Option<String>,
    cover_image: Option<String>,
) -> (r: Notification)
    ensures
        r.title@ == series.title@,
        r.body@ == body_text(chosen.episode@, chosen.resolution@, chosen.method),
        opt_view(r.icon_path) == match source_icon {
            Some(i) => Some(i@),
            None => opt_view(default_icon),
        },
        r.image_path == cover_image,
        sound_view(r.sound) == sound_for(config.notifications, chosen.source_id@),
        actions_match(
            r.actions@,
            offered_actions(auto_download, config.notifications.open_show_page, opt_view(chosen.show_url)),
            control_base_url@,
            control_token@,
            series.id as int,
            chosen.episode@,
        ),
{
    let show_url: Option<&str> = match &chosen.show_url {
        Some(u) => Some(u.as_str()),
        None => None,
    };
    let actions = notification_actions(
        control_base_url,
        control_token,
        series.id,
        chosen.episode.as_str(),
        auto_download,
        config.notifications.open_show_page,
        show_url,
    );
    Notification {
        title: series.title.clone(),
        body: notification_body(chosen),
        icon_path: match source_icon {
            Some(i) => Some(i),
            None => default_icon,
        },
        image_path: cover_image,
        sound: resolve_sound(&config.notifications, chosen.source_id.as_str()),
        actions,
    }
}

/// The plain, silent notification confirming what a clicked action did:
/// the show's title, the action's message, the default icon, and no
/// image, sound or actions.
pub fn confirmation_notification(title: &str, message: &str, default_icon: Option<String>) -> (r: Notification)
    ensures
        r.title@ == title@,
        r.body@ == message@,
        r.icon_path == default_icon,
        r.image_path is None,
        r.sound is None,
        r.actions@.len() == 0,
{
    Notification {
        title: owned(title),
        body: owned(message),
        icon_path: default_icon,
        image_path: None,
        sound: None,
        actions: Vec::new(),
    }
}

/// The variants of a group worth surfacing under the version policy.
pub open spec fn eligible_only(variants: Seq<Release>, mode: VersionMode, last_episode: Option<Seq<char>>) -> Seq<
    Release,
> {
    variants.filter(|v: Release| eligible(v.version, mode, last_episode, v.episode@))
}

/// Keeps the variants worth surfacing under the version policy `mode`,
/// given the series' last resolved episode, in order.
pub fn eligible_variants(variants: &Vec<Release>, mode: VersionMode, last_episode: Option<&str>) -> (r: Vec<Release>)
    ensures
        r@ == eligible_only(
            variants@,
            mode,
            match last_episode {
                Some(l) => Some(l@),
                None => None,
            },
        ),
{
    let ghost last = match last_episode {
        Some(l) => Some(l@),
        None => None,
    };
    let ghost keep = |v: Release| eligible(v.version, mode, last, v.episode@);
    let mut out: Vec<Release> = Vec::new();
    let mut i: usize = 0;
    while i < variants.len()
        invariant
            i <= variants@.len(),
            last == match last_episode {
                Some(l) => Some(l@),
                None => None,
            },
            keep == (|v: Release| eligible(v.version, mode, last, v.episode@)),
            out@ == variants@.take(i as int).filter(keep),
        decreases variants@.len() - i,
    {
        let v = &variants[i];
        let ok = version_eligible(v.version, mode, last_episode, v.episode.as_str());
        proof {
            reveal(Seq::filter);
            assert(variants@.take(i + 1).drop_last() == variants@.take(i as int));
            assert(variants@.take(i + 1).last() == variants@[i as int]);
        }
        if ok {
            out.push(v.duplicate());
        }
        i = i + 1;
    }
    proof {
        assert(variants@.take(i as int) == variants@);
    }
    out
}

/// What the new variants of one episode come to.
#[derive(Debug, Clone)]
pub enum GroupDecision {
    /// None is eligible under the version policy; nothing more happens.
    Nothing,
    /// The desired resolution is among them: the episode is resolved with
    /// this variant and its pending entry cleared.
    Resolve(Release),
    /// It is not: the episode stays pending, offering this best variant of
    /// the batch.
    Wait(Release),
}

/// The decision for a group of new variants of one episode, under the
/// version policy `mode` and the series' last resolved episode: among the
/// eligible variants, the one at the desired resolution (preferring the
/// default method) resolves the episode; failing that, the best-ranked
/// one (preferring the default method) waits.
pub open spec fn group_decision(
    variants: Seq<Release>,
    downloads: Downloads,
    mode: VersionMode,
    last_episode: Option<Seq<char>>,
) -> GroupDecision {
    let el = eligible_only(variants, mode, last_episode);
    if el.len() == 0 {
        GroupDecision::Nothing
    } else if exists|j: int| 0 <= j < el.len() && el[j].resolution@ == downloads.default_resolution@ {
        GroupDecision::Resolve(el[desired_index(el, downloads.default_resolution@, downloads.default_method)])
    } else {
        GroupDecision::Wait(el[best_index(el, downloads.resolution_fallback@, downloads.default_method)])
    }
}

/// Decides what the new variants of one episode (all from one source)
/// come to, under that source's version policy and the series' last
/// resolved episode.
pub fn decide_group(variants: &Vec<Release>, config: &Config, last_episode: Option<&str>) -> (r: GroupDecision)
    ensures
        variants@.len() == 0 ==> r is Nothing,
        variants@.len() > 0 ==> r == group_decision(
            variants@,
            config.downloads,
            mode_for(config.versions, variants@[0].source_id@),
            match last_episode {
                Some(l) => Some(l@),
                None => None,
            },
        ),
{
    if variants.len() == 0 {
        return GroupDecision::Nothing;
    }
    let mode = version_mode_for(&config.versions, variants[0].source_id.as_str());
    let el = eligible_variants(variants, mode, last_episode);
    if el.len() == 0 {
        return GroupDecision::Nothing;
    }
    let d = &config.downloads;
    match find_desired(el.as_slice(), d.default_resolution.as_str(), d.default_method) {
        Some(chosen) => GroupDecision::Resolve(chosen.duplicate()),
        None => {
            let best = best_variant(el.as_slice(), d.resolution_fallback.as_slice(), d.default_method);
            GroupDecision::Wait(best.duplicate())
        },
    }
}

/// Whether a batch's best variant replaces the best-so-far of a pending
/// episode: always when there is none yet, else only when it ranks
/// strictly better.
pub open spec fn replaces_best(batch_best: Seq<char>, existing_best: Option<Seq<char>>, fallback: Seq<String>) -> bool {
    match existing_best {
        None => true,
        Some(e) => rank(batch_best, fallback) < rank(e, fallback),
    }
}

/// Decides whether a pending episode's best-so-far variant is replaced
/// by a batch's best one.
pub fn pending_should_update(batch_best: &str, existing_best: Option<&str>, fallback: &[String]) -> (r: bool)
    ensures
        r == replaces_best(
            batch_best@,
            match existing_best {
                Some(e) => Some(e@),
                None => None,
            },
            fallback@,
        ),
{
    match existing_best {
        None => true,
        Some(e) => rank_resolution(batch_best, fallback) < rank_resolution(e, fallback),
    }
}

/// The resolution wait of a source: its own override when it has one,
/// else the global wait.
pub open spec fn wait_for(waits: Seq<(String, u64)>, source_id: Seq<char>, default_wait: u64) -> u64 {
    match lookup(waits, source_id) {
        Some(w) => w,
        None => default_wait,
    }
}

/// Resolves the resolution wait, in milliseconds, for `source_id`.
pub fn resolution_wait_for(waits: &Vec<(String, u64)>, source_id: &str, default_wait: u64) -> (r: u64)
    ensures
        r == wait_for(waits@, source_id@, default_wait),
{
    match find_entry(waits, source_id) {
        Some(w) => *w,
        None => default_wait,
    }
}

/// Whether a pending episode first seen at `first_seen` (milliseconds)
/// has waited out `wait` by `now`: the time elapsed, or zero when the
/// clock reads earlier than the first sighting, is at least `wait`.
pub open spec fn waited_out(now: int, first_seen: int, wait: int) -> bool {
    let elapsed = if now - first_seen < 0 {
        0
    } else {
        now - first_seen
    };
    elapsed >= wait
}

/// Decides whether a pending episode falls back to its best-so-far
/// variant now.
pub fn pending_due(now: i64, first_seen: i64, wait: u64) -> (r: bool)
    ensures
        r == waited_out(now as int, first_seen as int, wait as int),
{
    let elapsed: i128 = (now as i128) - (first_seen as i128);
    let elapsed = if elapsed < 0 {
        0
    } else {
        elapsed
    };
    elapsed >= wait as i128
}

/// Decides whether the sweep resolves a pending episode of a series from
/// `source_id` now: it has a stored best variant, and it has waited out
/// its source's resolution wait (else the global `default_wait`).
pub fn pending_ready(
    pending: &PendingRow,
    source_id: &str,
    waits: &Vec<(String, u64)>,
    default_wait: u64,
    now: i64,
) -> (r: bool)
    ensures
        r == (pending.best_variant_json is Some && waited_out(
            now as int,
            pending.first_seen_at as int,
            wait_for(waits@, source_id@, default_wait) as int,
        )),
{
    let wait = resolution_wait_for(waits, source_id, default_wait);
    pending.best_variant_json.is_some() && pending_due(now, pending.first_seen_at, wait)
}

/// Which way a notification click reclassifies a show.
#[derive(Debug, Clone, Copy, PartialEq, Eq, Structural)]
pub enum Reclassify {
    /// Towards a category that auto-downloads (`liked` preferred).
    Whitelist,
    /// Towards a category that neither notifies nor downloads
    /// (`uninterested` preferred).
    Blacklist,
}

/// Whether a category suits a reclassification.
pub open spec fn suits(way: Reclassify, c: CategoryDef) -> bool {
    match way {
        Reclassify::Whitelist => c.auto_download,
        Reclassify::Blacklist => !c.notify && !c.auto_download,
    }
}

/// The category name a reclassification prefers.
pub open spec fn preferred_name(way: Reclassify) -> Seq<char> {
    match way {
        Reclassify::Whitelist => "liked"@,
        Reclassify::Blacklist => "uninterested"@,
    }
}

/// The index of the first category that suits `way`, or the count.
pub open spec fn suiting_index(categories: Seq<CategoryDef>, way: Reclassify) -> int
    decreases categories.len(),
{
    if categories.len() == 0 {
        0
    } else if suits(way, categories[0]) {
        0
    } else {
        1 + suiting_index(categories.drop_first(), way)
    }
}

/// The first category that suits a reclassification does suit it.
pub proof fn lemma_suiting_index(categories: Seq<CategoryDef>, way: Reclassify)
    ensures
        0 <= suiting_index(categories, way) <= categories.len(),
        suiting_index(categories, way) < categories.len() ==> suits(way, categories[suiting_index(categories, way)]),
    decreases categories.len(),
{
    if categories.len() > 0 && !suits(way, categories[0]) {
        lemma_suiting_index(categories.drop_first(), way);
    }
}

/// The index of the first category named as preferred that also suits
/// the reclassification, or the count.
pub open spec fn preferred_index(categories: Seq<CategoryDef>, way: Reclassify) -> int
    decreases categories.len(),
{
    if categories.len() == 0 {
        0
    } else if categories[0].name@ == preferred_name(way) && suits(way, categories[0]) {
        0
    } else {
        1 + preferred_index(categories.drop_first(), way)
    }
}

/// The first preferred category that suits does suit and has the name.
pub proof fn lemma_preferred_index(categories: Seq<CategoryDef>, way: Reclassify)
    ensures
        0 <= preferred_index(categories, way) <= categories.len(),
        preferred_index(categories, way) < categories.len() ==> suits(
            way,
            categories[preferred_index(categories, way)],
        ) && categories[preferred_index(categories, way)].name@ == preferred_name(way),
    decreases categories.len(),
{
    if categories.len() > 0 && !(categories[0].name@ == preferred_name(way) && suits(way, categories[0])) {
        lemma_preferred_index(categories.drop_first(), way);
    }
}

/// The index of the category a reclassification moves a show to: among
/// the categories that suit it, the first named as preferred, else the
/// first; the count when none suits.
pub open spec fn target_index(categories: Seq<CategoryDef>, way: Reclassify) -> int {
    let by_name = preferred_index(categories, way);
    if by_name < categories.len() {
        by_name
    } else {
        suiting_index(categories, way)
    }
}

/// Whether `c` suits `way`.
fn fits(c: &CategoryDef, way: Reclassify) -> (r: bool)
    ensures
        r == suits(way, *c),
{
    match way {
        Reclassify::Whitelist => c.auto_download,
        Reclassify::Blacklist => !c.notify && !c.auto_download,
    }
}

/// The category a whitelist/blacklist click moves a show to: among the
/// categories that auto-download / neither notify nor download, one named
/// `liked`/`uninterested` if there is one, else the first; `None` when
/// there is none.
pub fn reclassify_target(categories: &Vec<CategoryDef>, way: Reclassify) -> (r: Option<CategoryDef>)
    ensures
        target_index(categories@, way) < categories@.len() ==> (r matches Some(c) && c.name@
            == categories@[target_index(categories@, way)].name@ && c.notify == categories@[target_index(
            categories@,
            way,
        )].notify && c.auto_download == categories@[target_index(categories@, way)].auto_download),
        target_index(categories@, way) >= categories@.len() ==> r is None,
{
    let name = match way {
        Reclassify::Whitelist => "liked",
        Reclassify::Blacklist => "uninterested",
    };
    let mut i: usize = 0;
    proof {
        assert(categories@.skip(0) == categories@);
        assert(name@ == preferred_name(way));
    }
    while i < categories.len()
        invariant
            i <= categories@.len(),
            name@ == preferred_name(way),
            preferred_index(categories@, way) == i + preferred_index(categories@.skip(i as int), way),
        decreases categories@.len() - i,
    {
        proof {
            assert(categories@.skip(i as int).drop_first() == categories@.skip(i + 1));
            assert(categories@.skip(i as int)[0] == categories@[i as int]);
        }
        let c = &categories[i];
        if str_eq(c.name.as_str(), name) && fits(c, way) {
            return Some(CategoryDef { name: c.name.clone(), notify: c.notify, auto_download: c.auto_download });
        }
        i = i + 1;
    }
    let mut k: usize = 0;
    proof {
        assert(categories@.skip(0) == categories@);
    }
    while k < categories.len()
        invariant
            k <= categories@.len(),
            suiting_index(categories@, way) == k + suiting_index(categories@.skip(k as int), way),
            preferred_index(categories@, way) >= categories@.len(),
        decreases categories@.len() - k,
    {
        proof {
            assert(categories@.skip(k as int).drop_first() == categories@.skip(k + 1));
            assert(categories@.skip(k as int)[0] == categories@[k as int]);
        }
        let c = &categories[k];
        if fits(c, way) {
            return Some(CategoryDef { name: c.name.clone(), notify: c.notify, auto_download: c.auto_download });
        }
        k = k + 1;
    }
    None
}

/// The release a `seen` entry stands for: the show's source and title,
/// the stored variant, method parsed (`direct` when unknown), and nothing
/// else known.
pub open spec fn seen_release_ok(r: Release, series: SeriesRow, s: SeenRow) -> bool {
    &&& r.source_id@ == series.source_id@
    &&& r.series_title@ == series.title@
    &&& r.episode@ == s.episode@
    &&& r.season is None
    &&& r.resolution@ == s.resolution@
    &&& r.method == match method_named(s.method@) {
        Some(m) => m,
        None => DownloadMethod::Direct,
    }
    &&& r.link@ == s.link@
    &&& r.cover_url is None
    &&& r.source_icon_url is None
    &&& r.show_url is None
    &&& r.raw_id is None
    &&& r.version == 1
}

/// Rebuilds every known variant of an episode from its `seen` entries.
pub fn releases_from_seen(series: &SeriesRow, seen: &Vec<SeenRow>) -> (r: Vec<Release>)
    ensures
        r@.len() == seen@.len(),
        forall|i: int| 0 <= i < seen@.len() ==> seen_release_ok(#[trigger] r@[i], *series, seen@[i]),
{
    let mut out: Vec<Release> = Vec::new();
    let mut i: usize = 0;
    while i < seen.len()
        invariant
            i <= seen@.len(),
            out@.len() == i,
            forall|k: int| 0 <= k < i ==> seen_release_ok(#[trigger] out@[k], *series, seen@[k]),
        decreases seen@.len() - i,
    {
        let s = &seen[i];
        let method = match DownloadMethod::parse(s.method.as_str()) {
            Some(m) => m,
            None => DownloadMethod::Direct,
        };
        out.push(
            Release {
                source_id: series.source_id.clone(),
                series_title: series.title.clone(),
                episode: s.episode.clone(),
                season: None,
                resolution: s.resolution.clone(),
                method,
                link: s.link.clone(),
                cover_url: None,
                source_icon_url: None,
                show_url: None,
                raw_id: None,
                version: 1,
            },
        );
        i = i + 1;
    }
    out
}

/// The variant to download among the known ones: the one at the desired
/// resolution (preferring the favourite method), else the best ranked
/// one; `None` when none is known.
pub open spec fn pick_index(variants: Seq<Release>, d: Downloads) -> Option<int> {
    if variants.len() == 0 {
        None
    } else if exists|j: int| 0 <= j < variants.len() && variants[j].resolution@ == d.default_resolution@ {
        Some(desired_index(variants, d.default_resolution@, d.default_method))
    } else {
        Some(best_index(variants, d.resolution_fallback@, d.default_method))
    }
}

/// Picks the favourite among the known variants of an episode, falling
/// back like the automatic resolve path does.
pub fn pick_best_available(variants: &Vec<Release>, downloads: &Downloads) -> (r: Option<Release>)
    ensures
        match pick_index(variants@, *downloads) {
            None => r is None,
            Some(k) => 0 <= k < variants@.len() && r == Some(variants@[k]),
        },
{
    if variants.len() == 0 {
        return None;
    }
    match find_desired(variants.as_slice(), downloads.default_resolution.as_str(), downloads.default_method) {
        Some(v) => Some(v.duplicate()),
        None => {
            let v = best_variant(variants.as_slice(), downloads.resolution_fallback.as_slice(), downloads.default_method);
            Some(v.duplicate())
        },
    }
}

/// `<title> - <episode> - <resolution>`, the stem a download is named by.
pub open spec fn stem_text(title: Seq<char>, episode: Seq<char>, resolution: Seq<char>) -> Seq<char> {
    title + " - "@ + episode + " - "@ + resolution
}

/// The download request for `chosen`: its method and link, the directory
/// and command the download overrides resolve to for its source and
/// method, and a stem naming the show, episode and resolution.
pub fn download_request(downloads: &Downloads, series_title: &str, chosen: &Release) -> (r: DownloadRequest)
    ensures
        r.method == chosen.method,
        r.link@ == chosen.link@,
        r.dir@ == resolved_dir(*downloads, chosen.source_id@, chosen.method),
        r.command == effective(*downloads, chosen.source_id@, chosen.method).command,
        r.file_stem@ == stem_text(series_title@, chosen.episode@, chosen.resolution@),
{
    let mut stem = owned(series_title);
    append(&mut stem, " - ");
    append(&mut stem, chosen.episode.as_str());
    append(&mut stem, " - ");
    append(&mut stem, chosen.resolution.as_str());
    DownloadRequest {
        method: chosen.method,
        link: chosen.link.clone(),
        dir: downloads.resolve_dir(chosen.source_id.as_str(), chosen.method),
        command: downloads.resolve_command(chosen.source_id.as_str(), chosen.method),
        file_stem: stem,
    }
}

/// Whether a release belongs to the episode with key `key`.
pub open spec fn of_episode(key: Seq<char>) -> spec_fn(Release) -> bool {
    |r: Release| spec_episode_key(r) == key
}

/// Whether some group holds the episode with key `key`.
pub open spec fn has_group(groups: Seq<Vec<Release>>, key: Seq<char>) -> bool {
    exists|g: int| 0 <= g < groups.len() && spec_episode_key(#[trigger] groups[g]@[0]) == key
}

/// Filtering keeps nothing when nothing qualifies.
proof fn lemma_filter_none(s: Seq<Release>, p: spec_fn(Release) -> bool)
    requires
        forall|j: int| 0 <= j < s.len() ==> !p(#[trigger] s[j]),
    ensures
        s.filter(p).len() == 0,
    decreases s.len(),
{
    reveal(Seq::filter);
    if s.len() > 0 {
        assert(!p(s[s.len() - 1]));
        assert forall|j: int| 0 <= j < s.drop_last().len() implies !p(#[trigger] s.drop_last()[j]) by {
            assert(s.drop_last()[j] == s[j]);
        }
        lemma_filter_none(s.drop_last(), p);
    }
}

/// Groups releases by episode (source, title, episode, season): one group
/// per distinct episode key, in order of first appearance, each holding
/// that episode's variants in order.
pub fn group_by_episode(releases: &Vec<Release>) -> (r: Vec<Vec<Release>>)
    ensures
        forall|g: int| 0 <= g < r@.len() ==> (#[trigger] r@[g])@.len() > 0,
        forall|g: int|
            0 <= g < r@.len() ==> (#[trigger] r@[g])@ == releases@.filter(of_episode(spec_episode_key(r@[g]@[0]))),
        forall|g1: int, g2: int|
            0 <= g1 < g2 < r@.len() ==> spec_episode_key((#[trigger] r@[g1])@[0]) != spec_episode_key(
                (#[trigger] r@[g2])@[0],
            ),
        forall|i: int| 0 <= i < releases@.len() ==> has_group(r@, spec_episode_key(#[trigger] releases@[i])),
{
    let mut groups: Vec<Vec<Release>> = Vec::new();
    let mut keys: Vec<String> = Vec::new();
    let mut i: usize = 0;
    while i < releases.len()
        invariant
            i <= releases@.len(),
            keys@.len() == groups@.len(),
            forall|g: int|
                0 <= g < groups@.len() ==> (#[trigger] groups@[g])@.len() > 0 && keys@[g]@ == spec_episode_key(
                    groups@[g]@[0],
                ),
            forall|g: int|
                0 <= g < groups@.len() ==> (#[trigger] groups@[g])@ == releases@.take(i as int).filter(
                    of_episode(keys@[g]@),
                ),
            forall|g1: int, g2: int| 0 <= g1 < g2 < keys@.len() ==> (#[trigger] keys@[g1])@ != (#[trigger] keys@[g2])@,
            forall|j: int|
                0 <= j < i ==> exists|g: int| 0 <= g < keys@.len() && spec_episode_key(#[trigger] releases@[j]) == keys@[g]@,
        decreases releases@.len() - i,
    {
        let x = &releases[i];
        let key = x.episode_key();
        let k = position_of(&keys, key.as_str());
        let ghost before = groups@;
        let ghost old_keys = keys@;
        let ghost prefix = releases@.take(i as int);
        let ghost next = releases@.take(i + 1);
        proof {
            reveal(Seq::filter);
            assert(next.drop_last() == prefix);
            assert(next.last() == *x);
        }
        if k < keys.len() {
            let mut g = groups.remove(k);
            g.push(x.duplicate());
            groups.insert(k, g);
            proof {
                assert(keys@[k as int]@ == key@);
                assert(groups@ =~= before.update(k as int, groups@[k as int]));
                assert forall|h: int| 0 <= h < groups@.len() implies (#[trigger] groups@[h])@ == next.filter(
                    of_episode(keys@[h]@),
                ) by {
                    if h != k {
                        assert(keys@[h]@ != key@);
                    }
                }
                assert forall|j: int| 0 <= j < i + 1 implies exists|g: int|
                    0 <= g < keys@.len() && spec_episode_key(#[trigger] releases@[j]) == keys@[g]@ by {
                    if j == i {
                        assert(spec_episode_key(releases@[j]) == keys@[k as int]@);
                    }
                }
            }
        } else {
            let mut g: Vec<Release> = Vec::new();
            g.push(x.duplicate());
            groups.push(g);
            keys.push(key);
            proof {
                let n = (groups@.len() - 1) as int;
                assert forall|j: int| 0 <= j < prefix.len() implies !of_episode(keys@[n]@)(#[trigger] prefix[j]) by {
                    assert(prefix[j] == releases@[j]);
                    let g0 = choose|g: int| 0 <= g < old_keys.len() && spec_episode_key(releases@[j]) == old_keys[g]@;
                    assert(old_keys[g0]@ != key@);
                    assert(keys@[g0] == old_keys[g0]);
                }
                lemma_filter_none(prefix, of_episode(keys@[n]@));
                assert(prefix.filter(of_episode(keys@[n]@)) =~= Seq::<Release>::empty());
                assert forall|h: int| 0 <= h < groups@.len() implies (#[trigger] groups@[h])@ == next.filter(
                    of_episode(keys@[h]@),
                ) by {
                    if h < n {
                        assert(groups@[h] == before[h]);
                        assert(keys@[h]@ != key@);
                    } else {
                        assert(groups@[h]@ =~= seq![*x]);
                    }
                }
                assert forall|j: int| 0 <= j < i + 1 implies exists|g: int|
                    0 <= g < keys@.len() && spec_episode_key(#[trigger] releases@[j]) == keys@[g]@ by {
                    if j == i {
                        assert(spec_episode_key(releases@[j]) == keys@[n]@);
                    } else {
                        let g0 = choose|g: int| 0 <= g < old_keys.len() && spec_episode_key(releases@[j]) == old_keys[g]@;
                        assert(keys@[g0] == old_keys[g0]);
                    }
                }
            }
        }
        i = i + 1;
    }
    proof {
        assert(releases@.take(i as int) == releases@);
        assert forall|j: int| 0 <= j < releases@.len() implies has_group(
            groups@,
            spec_episode_key(#[trigger] releases@[j]),
        ) by {
            let g0 = choose|g: int| 0 <= g < keys@.len() && spec_episode_key(releases@[j]) == keys@[g]@;
            assert(keys@[g0]@ == spec_episode_key(groups@[g0]@[0]));
        }
        assert forall|g1: int, g2: int| 0 <= g1 < g2 < groups@.len() implies spec_episode_key(
            (#[trigger] groups@[g1])@[0],
        ) != spec_episode_key((#[trigger] groups@[g2])@[0]) by {
            assert(keys@[g1]@ != keys@[g2]@);
        }
    }
    groups
}

/// The first position of `key` in `keys`, or the count when absent.
fn position_of(keys: &Vec<String>, key: &str) -> (k: usize)
    ensures
        k <= keys@.len(),
        k < keys@.len() ==> keys@[k as int]@ == key@,
        forall|m: int| 0 <= m < k ==> (#[trigger] keys@[m])@ != key@,
{
    let mut k: usize = 0;
    while k < keys.len()
        invariant
            k <= keys@.len(),
            forall|m: int| 0 <= m < k ==> (#[trigger] keys@[m])@ != key@,
        decreases keys@.len() - k,
    {
        if str_eq(keys[k].as_str(), key) {
            return k;
        }
        k = k + 1;
    }
    k
}

/// The kinds of notification action the control server handles.
#[derive(Debug, Clone, Copy, PartialEq, Eq, Structural)]
pub enum ActionKind {
    /// Download the episode.
    Download,
    /// Reclassify the show towards auto-downloading.
    Whitelist,
    /// Reclassify the show towards the blacklist.
    Blacklist,
    /// Open the show's page.
    OpenShow,
    /// Anything else.
    Unknown,
}

/// The action kind a `kind` parameter names.
pub open spec fn kind_of(kind: Seq<char>) -> ActionKind {
    if kind == "download"@ {
        ActionKind::Download
    } else if kind == "whitelist"@ {
        ActionKind::Whitelist
    } else if kind == "blacklist"@ {
        ActionKind::Blacklist
    } else if kind == "open_show"@ {
        ActionKind::OpenShow
    } else {
        ActionKind::Unknown
    }
}

/// Reads an action's `kind` parameter.
pub fn action_kind(kind: &str) -> (r: ActionKind)
    ensures
        r == kind_of(kind@),
{
    if str_eq(kind, "download") {
        ActionKind::Download
    } else if str_eq(kind, "whitelist") {
        ActionKind::Whitelist
    } else if str_eq(kind, "blacklist") {
        ActionKind::Blacklist
    } else if str_eq(kind, "open_show") {
        ActionKind::OpenShow
    } else {
        ActionKind::Unknown
    }
}

/// Whether handling an action of this kind shows a confirmation
/// notification: every kind but `open_show`, whose own visible effect (a
/// browser opening) is confirmation enough.
pub fn confirms(kind: &str) -> (r: bool)
    ensures
        r == (kind@ != "open_show"@),
{
    !str_eq(kind, "open_show")
}

/// What handling an action came to, for the reply.
#[derive(Debug, Clone)]
pub enum ActionOutcome {
    /// No show has the id.
    NoSuchShow {
        /// The id asked for.
        series_id: i64,
    },
    /// A download of the episode was started.
    Downloading {
        /// The show's title.
        title: String,
        /// The episode.
        episode: String,
        /// The resolution chosen.
        resolution: String,
    },
    /// No variant of the episode is known.
    NoKnownDownload {
        /// The show's title.
        title: String,
        /// The episode asked for.
        episode: String,
    },
    /// The show was moved to a category that does not auto-download.
    Reclassified {
        /// The show's title.
        title: String,
        /// The new category.
        category: String,
    },
    /// The show was moved to an auto-downloading category and the episode
    /// is being downloaded.
    ReclassifiedDownloading {
        /// The show's title.
        title: String,
        /// The new category.
        category: String,
        /// The episode.
        episode: String,
        /// The resolution chosen.
        resolution: String,
    },
    /// The show was moved to an auto-downloading category but no variant of
    /// the episode is known yet.
    ReclassifiedNothingYet {
        /// The show's title.
        title: String,
        /// The new category.
        category: String,
        /// The episode asked for.
        episode: String,
    },
    /// No category suits the reclassification.
    NoTargetCategory(Reclassify),
    /// An `open_show` action came without a URL.
    NoShowUrl,
    /// The show page was opened.
    Opened {
        /// The URL opened.
        url: String,
    },
    /// The kind is not one the server handles.
    UnknownAction {
        /// The kind given.
        kind: String,
    },
}

/// `"<title>" set to category "<category>"`.
pub open spec fn set_text(title: Seq<char>, category: Seq<char>) -> Seq<char> {
    spec_debug_str(title) + " set to category "@ + spec_debug_str(category)
}

/// The reply text of an action outcome.
pub open spec fn outcome_text(o: ActionOutcome) -> Seq<char> {
    match o {
        ActionOutcome::NoSuchShow { series_id } => "No such show (id "@ + signed_decimal(series_id as int) + ")"@,
        ActionOutcome::Downloading { title, episode, resolution } => "Downloading "@ + spec_debug_str(title@)
            + " episode "@ + episode@ + " ["@ + resolution@ + "]"@,
        ActionOutcome::NoKnownDownload { title, episode } => "No known download for "@ + spec_debug_str(title@)
            + " episode "@ + episode@,
        ActionOutcome::Reclassified { title, category } => set_text(title@, category@),
        ActionOutcome::ReclassifiedDownloading { title, category, episode, resolution } => set_text(
            title@,
            category@,
        ) + "; downloading episode "@ + episode@ + " ["@ + resolution@ + "]"@,
        ActionOutcome::ReclassifiedNothingYet { title, category, episode } => set_text(title@, category@)
            + " (no known download yet for episode "@ + episode@ + ")"@,
        ActionOutcome::NoTargetCategory(way) => match way {
            Reclassify::Whitelist => "No auto-download category is defined"@,
            Reclassify::Blacklist => "No blacklist-like category is defined"@,
        },
        ActionOutcome::NoShowUrl => "No show URL was provided"@,
        ActionOutcome::Opened { url } => "Opened "@ + url@,
        ActionOutcome::UnknownAction { kind } => "Unknown action "@ + spec_debug_str(kind@),
    }
}

/// The text an action replies with.
fn set_message(title: &str, category: &str) -> (r: String)
    ensures
        r@ == set_text(title@, category@),
{
    let mut out = debug_str(title);
    append(&mut out, " set to category ");
    let c = debug_str(category);
    append(&mut out, c.as_str());
    out
}

impl ActionOutcome {
    /// The short human-readable text the action replies with.
    pub fn message(&self) -> (r: String)
        ensures
            r@ == outcome_text(*self),
    {
        match self {
            ActionOutcome::NoSuchShow { series_id } => {
                let mut out = owned("No such show (id ");
                let id = i64_to_string(*series_id);
                append(&mut out, id.as_str());
                append(&mut out, ")");
                out
            },
            ActionOutcome::Downloading { title, episode, resolution } => {
                let mut out = owned("Downloading ");
                let t = debug_str(title.as_str());
                append(&mut out, t.as_str());
                append(&mut out, " episode ");
                append(&mut out, episode.as_str());
                append(&mut out, " [");
                append(&mut out, resolution.as_str());
                append(&mut out, "]");
                out
            },
            ActionOutcome::NoKnownDownload { title, episode } => {
                let mut out = owned("No known download for ");
                let t = debug_str(title.as_str());
                append(&mut out, t.as_str());
                append(&mut out, " episode ");
                append(&mut out, episode.as_str());
                out
            },
            ActionOutcome::Reclassified { title, category } => set_message(title.as_str(), category.as_str()),
            ActionOutcome::ReclassifiedDownloading { title, category, episode, resolution } => {
                let mut out = set_message(title.as_str(), category.as_str());
                append(&mut out, "; downloading episode ");
                append(&mut out, episode.as_str());
                append(&mut out, " [");
                append(&mut out, resolution.as_str());
                append(&mut out, "]");
                out
            },
            ActionOutcome::ReclassifiedNothingYet { title, category, episode } => {
                let mut out = set_message(title.as_str(), category.as_str());
                append(&mut out, " (no known download yet for episode ");
                append(&mut out, episode.as_str());
                append(&mut out, ")");
                out
            },
            ActionOutcome::NoTargetCategory(way) => match way {
                Reclassify::Whitelist => owned("No auto-download category is defined"),
                Reclassify::Blacklist => owned("No blacklist-like category is defined"),
            },
            ActionOutcome::NoShowUrl => owned("No show URL was provided"),
            ActionOutcome::Opened { url } => {
                let mut out = owned("Opened ");
                append(&mut out, url.as_str());
                out
            },
            ActionOutcome::UnknownAction { kind } => {
                let mut out = owned("Unknown action ");
                let k = debug_str(kind.as_str());
                append(&mut out, k.as_str());
                out
            },
        }
    }
}


/// A pending episode's best-so-far variant never gets worse: after an
/// update it ranks no worse than before.
pub proof fn law_pending_best_never_worsens(batch_best: Seq<char>, existing: Seq<char>, fallback: Seq<String>)
    ensures
        ({
            let after = if replaces_best(batch_best, Some(existing), fallback) {
                batch_best
            } else {
                existing
            };
            rank(after, fallback) <= rank(existing, fallback)
        }),
{
}

/// Every new-episode notification offers `download` first; a category
/// that auto-downloads is never offered whitelist/blacklist.
pub proof fn law_download_is_always_offered(auto_download: bool, open_show_page: bool, show_url: Option<Seq<char>>)
    ensures
        offered_actions(auto_download, open_show_page, show_url)[0].0 == "download"@,
        auto_download ==> forall|i: int|
            0 <= i < offered_actions(auto_download, open_show_page, show_url).len() ==> (#[trigger] offered_actions(
                auto_download,
                open_show_page,
                show_url,
            )[i]).0 != "whitelist"@ && offered_actions(auto_download, open_show_page, show_url)[i].0
                != "blacklist"@,
{
    reveal_strlit("download");
    reveal_strlit("default");
    reveal_strlit("whitelist");
    reveal_strlit("blacklist");
    if auto_download {
        let o = offered_actions(auto_download, open_show_page, show_url);
        assert forall|i: int| 0 <= i < o.len() implies (#[trigger] o[i]).0 != "whitelist"@ && o[i].0
            != "blacklist"@ by {
            if i == 0 {
                assert(o[i].0[0] != "whitelist"@[0]);
                assert(o[i].0[0] != "blacklist"@[0]);
            } else {
                assert(o[i].0 == "default"@);
                assert("default"@[0] != "whitelist"@[0]);
                assert("default"@[0] != "blacklist"@[0]);
            }
        }
    }
}


/// A whitelist click moves a show to a category that auto-downloads, and
/// a blacklist click to one that neither notifies nor downloads; the one
/// named `liked` / `uninterested` is taken when it is of that kind.
pub proof fn law_reclassify_target_suits(categories: Seq<CategoryDef>, way: Reclassify)
    ensures
        target_index(categories, way) < categories.len() ==> suits(way, categories[target_index(categories, way)]),
        way == Reclassify::Blacklist && target_index(categories, way) < categories.len() ==> !categories[target_index(
            categories,
            way,
        )].auto_download,
        (exists|i: int|
            0 <= i < categories.len() && (#[trigger] categories[i]).name@ == preferred_name(way) && suits(
                way,
                categories[i],
            )) ==> categories[target_index(categories, way)].name@ == preferred_name(way),
{
    lemma_preferred_index(categories, way);
    lemma_suiting_index(categories, way);
    if exists|i: int|
        0 <= i < categories.len() && (#[trigger] categories[i]).name@ == preferred_name(way) && suits(way, categories[i]) {
        let i = choose|i: int|
            0 <= i < categories.len() && (#[trigger] categories[i]).name@ == preferred_name(way) && suits(
                way,
                categories[i],
            );
        lemma_preferred_index_reaches(categories, way, i);
    }
}

/// A suiting category with the preferred name bounds the preferred index.
proof fn lemma_preferred_index_reaches(categories: Seq<CategoryDef>, way: Reclassify, i: int)
    requires
        0 <= i < categories.len(),
        categories[i].name@ == preferred_name(way),
        suits(way, categories[i]),
    ensures
        preferred_index(categories, way) <= i,
    decreases i,
{
    if i > 0 && !(categories[0].name@ == preferred_name(way) && suits(way, categories[0])) {
        assert(categories.drop_first()[i - 1] == categories[i]);
        lemma_preferred_index_reaches(categories.drop_first(), way, i - 1);
    }
}


/// The resolution-wait rule for the new variants of an episode: nothing
/// happens when none is eligible; when the desired resolution is among
/// the eligible ones, the episode resolves at once with one at that
/// resolution (at the favourite method whenever one there has it);
/// otherwise it waits, offering an eligible variant that no other
/// outranks (at the favourite method whenever one of that rank has it).
pub proof fn law_resolution_wait(
    variants: Seq<Release>,
    downloads: Downloads,
    mode: VersionMode,
    last_episode: Option<Seq<char>>,
)
    ensures
        ({
            let el = eligible_only(variants, mode, last_episode);
            let d = group_decision(variants, downloads, mode, last_episode);
            let desired = downloads.default_resolution@;
            let fav = downloads.default_method;
            let fb = downloads.resolution_fallback@;
            &&& (d is Nothing <==> el.len() == 0)
            &&& (exists|j: int| 0 <= j < el.len() && (#[trigger] el[j]).resolution@ == desired) ==> (d matches GroupDecision::Resolve(c)
                && el.contains(c) && c.resolution@ == desired && ((exists|j: int|
                0 <= j < el.len() && (#[trigger] el[j]).resolution@ == desired && el[j].method == fav) ==> c.method
                == fav))
            &&& (el.len() > 0 && !(exists|j: int| 0 <= j < el.len() && (#[trigger] el[j]).resolution@ == desired))
                ==> (d matches GroupDecision::Wait(b) && el.contains(b) && (forall|j: int|
                0 <= j < el.len() ==> rank(b.resolution@, fb) <= rank((#[trigger] el[j]).resolution@, fb)) && ((exists|
                j: int|
                0 <= j < el.len() && rank((#[trigger] el[j]).resolution@, fb) == rank(b.resolution@, fb) && el[j].method
                    == fav) ==> b.method == fav))
        }),
{
    let el = eligible_only(variants, mode, last_episode);
    let desired = downloads.default_resolution@;
    let fav = downloads.default_method;
    let fb = downloads.resolution_fallback@;
    if exists|j: int| 0 <= j < el.len() && (#[trigger] el[j]).resolution@ == desired {
        let w = choose|j: int| 0 <= j < el.len() && (#[trigger] el[j]).resolution@ == desired;
        let pref = at_resolution_with(desired, fav);
        let any = at_resolution(desired);
        lemma_first_where(el, pref);
        lemma_first_where(el, any);
        if first_where(el, any) >= el.len() {
            assert(any(el[w]));
            assert(false);
        }
        let k = desired_index(el, desired, fav);
        assert(el[k].resolution@ == desired);
        assert(el.contains(el[k]));
        if exists|j: int| 0 <= j < el.len() && (#[trigger] el[j]).resolution@ == desired && el[j].method == fav {
            let m = choose|j: int| 0 <= j < el.len() && (#[trigger] el[j]).resolution@ == desired && el[j].method == fav;
            assert(pref(el[m]));
            assert(first_where(el, pref) < el.len());
        }
    } else if el.len() > 0 {
        lemma_best_rank(el, fb);
        let b = best_rank(el, fb);
        let pref = at_best_with(el, fb, fav);
        let any = at_best(el, fb);
        lemma_first_where(el, pref);
        lemma_first_where(el, any);
        let w = choose|w: int| 0 <= w < el.len() && rank(el[w].resolution@, fb) == b;
        if first_where(el, any) >= el.len() {
            assert(any(el[w]));
            assert(false);
        }
        let k = best_index(el, fb, fav);
        assert(rank(el[k].resolution@, fb) == b);
        assert(el.contains(el[k]));
        if exists|j: int| 0 <= j < el.len() && rank((#[trigger] el[j]).resolution@, fb) == rank(el[k].resolution@, fb)
            && el[j].method == fav {
            let m = choose|j: int| 0 <= j < el.len() && rank((#[trigger] el[j]).resolution@, fb) == rank(el[k].resolution@, fb)
                && el[j].method == fav;
            assert(pref(el[m]));
            assert(first_where(el, pref) < el.len());
        }
    }
}

/// One thing done when an episode resolves to a chosen variant.
#[derive(Debug, Clone, Copy, PartialEq, Eq, Structural)]
pub enum ResolveStep {
    /// Record the episode as the show's latest.
    RecordEpisode,
    /// Start the download of the chosen variant.
    Download,
    /// Send the new-episode notification.
    Notify,
}

/// What resolving an episode does, in order: the episode is recorded as
/// the latest, then downloaded when the category auto-downloads, then
/// notified when the category notifies.
pub open spec fn resolve_plan(auto_download: bool, notify: bool) -> Seq<ResolveStep> {
    seq![ResolveStep::RecordEpisode] + (if auto_download {
        seq![ResolveStep::Download]
    } else {
        Seq::empty()
    }) + (if notify {
        seq![ResolveStep::Notify]
    } else {
        Seq::empty()
    })
}

/// The steps that resolve an episode of a show in `category`.
pub fn resolve_steps(category: &CategoryDef) -> (r: Vec<ResolveStep>)
    ensures
        r@ == resolve_plan(category.auto_download, category.notify),
{
    let mut steps: Vec<ResolveStep> = Vec::new();
    steps.push(ResolveStep::RecordEpisode);
    if category.auto_download {
        steps.push(ResolveStep::Download);
    }
    if category.notify {
        steps.push(ResolveStep::Notify);
    }
    proof {
        assert(steps@ =~= resolve_plan(category.auto_download, category.notify));
    }
    steps
}

/// What a whitelist or blacklist click does once the show has been moved.
#[derive(Debug, Clone)]
pub enum AfterReclassify {
    /// Reply with this outcome; nothing more is done.
    Reply(ActionOutcome),
    /// Look up the best known variant of the episode and finish with
    /// `best_found`, giving it the new category.
    FindBest,
}

/// After a show has been moved to `target`: a category that does not
/// auto-download ends the action; one that does goes on to download the
/// best known variant of the episode.
pub fn after_reclassify(title: &str, target: &CategoryDef) -> (r: AfterReclassify)
    ensures
        target.auto_download ==> r is FindBest,
        !target.auto_download ==> (r matches AfterReclassify::Reply(ActionOutcome::Reclassified { title: t, category: c })
            && t@ == title@ && c@ == target.name@),
{
    if target.auto_download {
        AfterReclassify::FindBest
    } else {
        AfterReclassify::Reply(ActionOutcome::Reclassified { title: owned(title), category: owned(target.name.as_str()) })
    }
}

/// The reply of a `download` action (`moved_to` is `None`) or of a move
/// to an auto-downloading category (`moved_to` names it), given the best
/// known variant of the episode, which is downloaded when there is one.
pub fn best_found(title: &str, episode: &str, moved_to: Option<&str>, best: Option<&Release>) -> (r: ActionOutcome)
    ensures
        match (moved_to, best) {
            (None, Some(c)) => r matches ActionOutcome::Downloading { title: t, episode: e, resolution: q }
                && t@ == title@ && e@ == c.episode@ && q@ == c.resolution@,
            (None, None) => r matches ActionOutcome::NoKnownDownload { title: t, episode: e } && t@ == title@
                && e@ == episode@,
            (Some(k), Some(c)) => r matches ActionOutcome::ReclassifiedDownloading {
                title: t,
                category: g,
                episode: e,
                resolution: q,
            } && t@ == title@ && g@ == k@ && e@ == c.episode@ && q@ == c.resolution@,
            (Some(k), None) => r matches ActionOutcome::ReclassifiedNothingYet { title: t, category: g, episode: e }
                && t@ == title@ && g@ == k@ && e@ == episode@,
        },
{
    match (moved_to, best) {
        (None, Some(c)) => ActionOutcome::Downloading {
            title: owned(title),
            episode: owned(c.episode.as_str()),
            resolution: owned(c.resolution.as_str()),
        },
        (None, None) => ActionOutcome::NoKnownDownload { title: owned(title), episode: owned(episode) },
        (Some(k), Some(c)) => ActionOutcome::ReclassifiedDownloading {
            title: owned(title),
            category: owned(k),
            episode: owned(c.episode.as_str()),
            resolution: owned(c.resolution.as_str()),
        },
        (Some(k), None) => ActionOutcome::ReclassifiedNothingYet {
            title: owned(title),
            category: owned(k),
            episode: owned(episode),
        },
    }
}

/// The variant a `download` action picks among the known ones: when some
/// has the desired resolution and the favourite method, one with both;
/// else, when some has the desired resolution, one with it; else one
/// that no other known variant outranks. Nothing is picked only when
/// nothing is known.
pub proof fn law_pick_prefers_desired_then_favourite(variants: Seq<Release>, d: Downloads)
    ensures
        variants.len() == 0 <==> pick_index(variants, d) is None,
        pick_index(variants, d) matches Some(k) ==> 0 <= k < variants.len(),
        (exists|j: int|
            0 <= j < variants.len() && (#[trigger] variants[j]).resolution@ == d.default_resolution@
                && variants[j].method == d.default_method) ==> (pick_index(variants, d) matches Some(k)
            && variants[k].resolution@ == d.default_resolution@ && variants[k].method == d.default_method),
        (exists|j: int| 0 <= j < variants.len() && (#[trigger] variants[j]).resolution@ == d.default_resolution@)
            ==> (pick_index(variants, d) matches Some(k) && variants[k].resolution@ == d.default_resolution@),
        (variants.len() > 0 && !exists|j: int|
            0 <= j < variants.len() && (#[trigger] variants[j]).resolution@ == d.default_resolution@) ==> (
        pick_index(variants, d) matches Some(k) && forall|j: int|
            0 <= j < variants.len() ==> rank(variants[k].resolution@, d.resolution_fallback@) <= rank(
                #[trigger] variants[j].resolution@,
                d.resolution_fallback@,
            )),
{
    let desired = d.default_resolution@;
    let fav = at_resolution_with(desired, d.default_method);
    let any = at_resolution(desired);
    lemma_first_where(variants, fav);
    lemma_first_where(variants, any);
    if exists|j: int| 0 <= j < variants.len() && (#[trigger] variants[j]).resolution@ == desired {
        let j0 = choose|j: int| 0 <= j < variants.len() && (#[trigger] variants[j]).resolution@ == desired;
        assert(any(variants[j0]));
        if exists|j: int|
            0 <= j < variants.len() && (#[trigger] variants[j]).resolution@ == desired && variants[j].method
                == d.default_method {
            let j1 = choose|j: int|
                0 <= j < variants.len() && (#[trigger] variants[j]).resolution@ == desired && variants[j].method
                    == d.default_method;
            assert(fav(variants[j1]));
        }
    } else if variants.len() > 0 {
        let fb = d.resolution_fallback@;
        let m = d.default_method;
        lemma_best_rank(variants, fb);
        let k0 = choose|k: int| 0 <= k < variants.len() && rank(variants[k].resolution@, fb) == best_rank(variants, fb);
        assert(at_best(variants, fb)(variants[k0]));
        lemma_first_where(variants, at_best_with(variants, fb, m));
        lemma_first_where(variants, at_best(variants, fb));
        let k = best_index(variants, fb, m);
        assert(rank(variants[k].resolution@, fb) == best_rank(variants, fb));
    }
}

} // verus!
