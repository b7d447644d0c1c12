//! The resolution-wait decisions: ranking, picking variants, category
//! rules, version eligibility, and the engine's notification and action
//! decisions.

use anime_notif::config::{
    CategoryDef, Config, NotificationsConfig, Rule, SourceNotificationOverride, SourceVersionOverride, VersionMode,
    VersionsConfig,
};
use anime_notif::model::{DownloadMethod, Release};
use anime_notif::notify::Sound;
use anime_notif::resolution::{best_variant, determine_category, find_desired, rank_resolution, version_eligible};
use anime_notif::store::{PendingRow, SeenRow, SeriesRow};
use anime_notif::workflow::{
    action_kind, action_url, category_for, confirmation_notification, confirms, decide_group, download_request, eligible_variants, episode_notification,
    group_by_episode, pending_due, pending_should_update, pick_best_available, reclassify_target, releases_from_seen,
    resolution_wait_for, resolve_sound, version_mode_for, pending_ready, ActionKind, ActionOutcome, GroupDecision,
    Reclassify, after_reclassify, best_found, resolve_steps, AfterReclassify, ResolveStep,
};

fn release(resolution: &str, method: DownloadMethod) -> Release {
    Release {
        source_id: "subsplease".into(),
        series_title: "One Piece".into(),
        episode: "5".into(),
        season: None,
        resolution: resolution.into(),
        method,
        link: format!("link-{resolution}-{}", method.as_str()),
        cover_url: None,
        source_icon_url: None,
        show_url: None,
        raw_id: None,
        version: 1,
    }
}

fn fallback() -> Vec<String> {
    vec!["1080".into(), "720".into(), "480".into()]
}

#[test]
fn rank_resolution_orders_by_fallback_position() {
    let fb = fallback();
    assert_eq!(rank_resolution("1080", &fb), 0);
    assert_eq!(rank_resolution("480", &fb), 2);
    assert_eq!(rank_resolution("2160", &fb), 3);
}

#[test]
fn best_variant_picks_highest_ranked_resolution() {
    let variants = vec![release("480", DownloadMethod::Magnet), release("720", DownloadMethod::Magnet)];
    let best = best_variant(&variants, &fallback(), DownloadMethod::Magnet);
    assert_eq!(best.resolution, "720");
}

#[test]
fn best_variant_prefers_default_method_among_ties() {
    let variants = vec![release("720", DownloadMethod::Torrent), release("720", DownloadMethod::Magnet)];
    let best = best_variant(&variants, &fallback(), DownloadMethod::Magnet);
    assert_eq!(best.method, DownloadMethod::Magnet);
}

#[test]
fn best_variant_falls_back_to_first_when_default_method_absent() {
    let variants = vec![release("720", DownloadMethod::Torrent)];
    let best = best_variant(&variants, &fallback(), DownloadMethod::Magnet);
    assert_eq!(best.method, DownloadMethod::Torrent);
}

#[test]
fn unlisted_resolution_ranks_worse_than_listed_ones() {
    let variants = vec![release("2160", DownloadMethod::Magnet), release("720", DownloadMethod::Magnet)];
    let best = best_variant(&variants, &fallback(), DownloadMethod::Magnet);
    assert_eq!(best.resolution, "720");
}

#[test]
fn find_desired_returns_none_when_absent() {
    let variants = vec![release("480", DownloadMethod::Magnet)];
    assert!(find_desired(&variants, "1080", DownloadMethod::Magnet).is_none());
}

#[test]
fn find_desired_prefers_default_method() {
    let variants = vec![release("1080", DownloadMethod::Torrent), release("1080", DownloadMethod::Magnet)];
    let found = find_desired(&variants, "1080", DownloadMethod::Magnet).unwrap();
    assert_eq!(found.method, DownloadMethod::Magnet);
}

#[test]
fn find_desired_takes_the_first_when_no_favourite_method() {
    let variants = vec![release("1080", DownloadMethod::Torrent), release("1080", DownloadMethod::Direct)];
    let found = find_desired(&variants, "1080", DownloadMethod::Magnet).unwrap();
    assert_eq!(found.method, DownloadMethod::Torrent);
}

fn categories() -> Vec<CategoryDef> {
    CategoryDef::defaults()
}

#[test]
fn determine_category_matches_exact_rule() {
    let rules = vec![Rule { match_exact: Some("One Piece".into()), match_regex: None, category: "liked".into() }];
    assert_eq!(determine_category(&rules, &categories(), "One Piece"), "liked");
}

#[test]
fn determine_category_matches_regex_rule() {
    let rules = vec![Rule { match_exact: None, match_regex: Some("^Isekai.*".into()), category: "uninterested".into() }];
    assert_eq!(determine_category(&rules, &categories(), "Isekai Cheat Slime"), "uninterested");
    assert_eq!(determine_category(&rules, &categories(), "One Piece"), "normal");
}

#[test]
fn determine_category_defaults_to_normal_when_no_rule_matches() {
    assert_eq!(determine_category(&[], &categories(), "Anything"), "normal");
}

#[test]
fn determine_category_first_rule_wins() {
    let rules = vec![
        Rule { match_exact: Some("One Piece".into()), match_regex: None, category: "liked".into() },
        Rule { match_regex: Some(".*".into()), match_exact: None, category: "uninterested".into() },
    ];
    assert_eq!(determine_category(&rules, &categories(), "One Piece"), "liked");
}

#[test]
fn determine_category_skips_rules_naming_undefined_categories() {
    let rules = vec![
        Rule { match_exact: Some("One Piece".into()), match_regex: None, category: "gone".into() },
        Rule { match_exact: Some("One Piece".into()), match_regex: None, category: "liked".into() },
    ];
    assert_eq!(determine_category(&rules, &categories(), "One Piece"), "liked");
    let only = vec![CategoryDef { name: "watching".into(), notify: true, auto_download: false }];
    assert_eq!(determine_category(&[], &only, "Anything"), "watching");
    assert_eq!(determine_category(&[], &[], "Anything"), "normal");
}

#[test]
fn version_eligibility_follows_the_policy() {
    assert!(version_eligible(1, VersionMode::Ignore, Some("09"), "08"));
    assert!(version_eligible(2, VersionMode::Ignore, None, "08"));
    assert!(!version_eligible(2, VersionMode::Ignore, Some("08"), "08"));
    assert!(version_eligible(2, VersionMode::LatestOnly, Some("08"), "08"));
    assert!(!version_eligible(2, VersionMode::LatestOnly, Some("09"), "08"));
    assert!(version_eligible(2, VersionMode::All, Some("09"), "08"));
}

#[test]
fn eligible_variants_keep_order_and_drop_stale_bumps() {
    let mut v2 = release("1080", DownloadMethod::Magnet);
    v2.version = 2;
    v2.episode = "08".into();
    let v1 = release("720", DownloadMethod::Magnet);
    let kept = eligible_variants(&vec![v2.clone(), v1.clone()], VersionMode::LatestOnly, Some("09"));
    assert_eq!(kept, vec![v1]);
}

#[test]
fn version_mode_per_source_overrides_global() {
    let mut v = VersionsConfig::default();
    assert_eq!(version_mode_for(&v, "subsplease"), VersionMode::LatestOnly);
    v.sources.push(("subsplease".into(), SourceVersionOverride { mode: Some(VersionMode::All) }));
    v.sources.push(("nyaa".into(), SourceVersionOverride { mode: None }));
    assert_eq!(version_mode_for(&v, "subsplease"), VersionMode::All);
    assert_eq!(version_mode_for(&v, "nyaa"), VersionMode::LatestOnly);
}

#[test]
fn resolve_sound_prefers_source_override_over_global() {
    let mut n = NotificationsConfig::default();
    n.sound_file = Some("/global.oga".into());
    n.sources.push((
        "subsplease".into(),
        SourceNotificationOverride { sound_file: Some("/subsplease.oga".into()), sound_name: None },
    ));
    assert_eq!(resolve_sound(&n, "subsplease"), Some(Sound::File("/subsplease.oga".into())));
    assert_eq!(resolve_sound(&n, "nyaa"), Some(Sound::File("/global.oga".into())));
}

#[test]
fn resolve_sound_name_used_when_no_file_configured() {
    let mut n = NotificationsConfig::default();
    n.sound_name = Some("message-new-instant".into());
    assert_eq!(resolve_sound(&n, "subsplease"), Some(Sound::Name("message-new-instant".into())));
}

#[test]
fn resolve_sound_is_none_when_nothing_configured() {
    assert_eq!(resolve_sound(&NotificationsConfig::default(), "subsplease"), None);
}

#[test]
fn category_for_unknown_name_notifies_only() {
    let c = category_for(&categories(), "liked");
    assert!(c.notify && c.auto_download);
    let c = category_for(&categories(), "mystery");
    assert_eq!(c.name, "mystery");
    assert!(c.notify && !c.auto_download);
}

#[test]
fn action_urls_are_form_encoded() {
    let url = action_url("http://127.0.0.1:4732", "tok", "download", 42, "S1 E2&3", None);
    assert_eq!(url, "http://127.0.0.1:4732/action?token=tok&kind=download&series_id=42&episode=S1+E2%263");
    let url = action_url("http://h", "t", "open_show", -1, "é", Some("https://x.test/a b"));
    assert_eq!(url, "http://h/action?token=t&kind=open_show&series_id=-1&episode=%C3%A9&url=https%3A%2F%2Fx.test%2Fa+b");
}

fn series() -> SeriesRow {
    SeriesRow {
        id: 7,
        source_id: "subsplease".into(),
        title: "One Piece".into(),
        alias: None,
        category: "normal".into(),
        last_episode: None,
        last_interaction_at: None,
        cover_url: None,
    }
}

#[test]
fn notification_includes_default_action_when_show_url_present_and_enabled() {
    let mut chosen = release("1080", DownloadMethod::Magnet);
    chosen.show_url = Some("https://subsplease.org/shows/one-piece/".into());
    let n = episode_notification(&series(), false, &chosen, &Config::default(), "http://h", "t", None, None, None);
    let ids: Vec<&str> = n.actions.iter().map(|a| a.id.as_str()).collect();
    assert_eq!(ids, vec!["download", "whitelist", "blacklist", "default"]);
    assert_eq!(n.body, "Episode 5 [1080] via magnet");
    assert_eq!(n.title, "One Piece");
    assert!(n.actions[3].url.contains("kind=open_show"));
}

#[test]
fn notification_omits_default_action_when_open_show_page_disabled() {
    let mut chosen = release("1080", DownloadMethod::Magnet);
    chosen.show_url = Some("https://x/".into());
    let mut cfg = Config::default();
    cfg.notifications.open_show_page = false;
    let n = episode_notification(&series(), true, &chosen, &cfg, "http://h", "t", None, None, None);
    let ids: Vec<&str> = n.actions.iter().map(|a| a.id.as_str()).collect();
    assert_eq!(ids, vec!["download"]);
}

#[test]
fn notification_omits_default_action_when_source_has_no_show_url() {
    let chosen = release("1080", DownloadMethod::Magnet);
    let n = episode_notification(&series(), false, &chosen, &Config::default(), "http://h", "t", None, None, None);
    assert!(n.actions.iter().all(|a| a.id != "default"));
}

#[test]
fn notification_falls_back_to_default_icon_and_keeps_cover_as_image() {
    let chosen = release("1080", DownloadMethod::Magnet);
    let n = episode_notification(
        &series(),
        false,
        &chosen,
        &Config::default(),
        "http://h",
        "t",
        None,
        Some("/cache/default-icon.svg".into()),
        Some("/cache/cover-x.jpg".into()),
    );
    assert_eq!(n.icon_path.as_deref(), Some("/cache/default-icon.svg"));
    assert_eq!(n.image_path.as_deref(), Some("/cache/cover-x.jpg"));
    let n = episode_notification(
        &series(),
        false,
        &chosen,
        &Config::default(),
        "http://h",
        "t",
        Some("/cache/cover-icon.ico".into()),
        Some("/cache/default-icon.svg".into()),
        None,
    );
    assert_eq!(n.icon_path.as_deref(), Some("/cache/cover-icon.ico"));
}

#[test]
fn pending_updates_only_on_strictly_better_rank() {
    let fb = fallback();
    assert!(pending_should_update("720", None, &fb));
    assert!(pending_should_update("720", Some("480"), &fb));
    assert!(!pending_should_update("720", Some("720"), &fb));
    assert!(!pending_should_update("2160", Some("480"), &fb));
}

#[test]
fn pending_falls_back_once_the_wait_is_over() {
    assert!(!pending_due(1_000, 0, 5_000));
    assert!(pending_due(5_000, 0, 5_000));
    assert!(!pending_due(0, 10_000, 1));
    assert!(pending_due(0, 10_000, 0));
    let waits = vec![("nyaa".to_string(), 45 * 60 * 1000u64)];
    assert_eq!(resolution_wait_for(&waits, "nyaa", 1), 45 * 60 * 1000);
    assert_eq!(resolution_wait_for(&waits, "other", 1), 1);
}

#[test]
fn reclassify_prefers_named_category_then_behaviour() {
    let cats = categories();
    assert_eq!(reclassify_target(&cats, Reclassify::Whitelist).unwrap().name, "liked");
    assert_eq!(reclassify_target(&cats, Reclassify::Blacklist).unwrap().name, "uninterested");
    let custom = vec![
        CategoryDef { name: "fav".into(), notify: true, auto_download: true },
        CategoryDef { name: "nope".into(), notify: false, auto_download: false },
    ];
    assert_eq!(reclassify_target(&custom, Reclassify::Whitelist).unwrap().name, "fav");
    assert_eq!(reclassify_target(&custom, Reclassify::Blacklist).unwrap().name, "nope");
    let none = vec![CategoryDef { name: "normal".into(), notify: true, auto_download: false }];
    assert!(reclassify_target(&none, Reclassify::Whitelist).is_none());
    assert_eq!(
        ActionOutcome::NoTargetCategory(Reclassify::Whitelist).message(),
        "No auto-download category is defined"
    );
}

#[test]
fn handle_action_download_uses_desired_resolution_when_available() {
    let seen = vec![
        SeenRow { episode: "5".into(), resolution: "720".into(), method: "magnet".into(), link: "l720".into() },
        SeenRow { episode: "5".into(), resolution: "1080".into(), method: "magnet".into(), link: "l1080".into() },
    ];
    let releases = releases_from_seen(&series(), &seen);
    let cfg = Config::default();
    let chosen = pick_best_available(&releases, &cfg.downloads).unwrap();
    assert_eq!(chosen.resolution, "1080");
    assert_eq!(chosen.link, "l1080");
    let only_low = releases_from_seen(&series(), &seen[..1].to_vec());
    assert_eq!(pick_best_available(&only_low, &cfg.downloads).unwrap().resolution, "720");
    assert!(pick_best_available(&Vec::new(), &cfg.downloads).is_none());
    let odd = vec![SeenRow { episode: "5".into(), resolution: "1080".into(), method: "pigeon".into(), link: "l".into() }];
    assert_eq!(releases_from_seen(&series(), &odd)[0].method, DownloadMethod::Direct);
}

#[test]
fn action_messages() {
    assert_eq!(ActionOutcome::NoSuchShow { series_id: 9 }.message(), "No such show (id 9)");
    assert_eq!(
        ActionOutcome::Downloading { title: "One Piece".into(), episode: "5".into(), resolution: "1080".into() }
            .message(),
        "Downloading \"One Piece\" episode 5 [1080]"
    );
    assert_eq!(
        ActionOutcome::ReclassifiedNothingYet { title: "A".into(), category: "liked".into(), episode: "3".into() }
            .message(),
        "\"A\" set to category \"liked\" (no known download yet for episode 3)"
    );
    assert_eq!(ActionOutcome::UnknownAction { kind: "zap".into() }.message(), "Unknown action \"zap\"");
    assert_eq!(ActionOutcome::Opened { url: "https://x".into() }.message(), "Opened https://x");
    assert_eq!(action_kind("whitelist"), ActionKind::Whitelist);
    assert_eq!(action_kind("WHITELIST"), ActionKind::Unknown);
    assert!(confirms("download"));
    assert!(!confirms("open_show"));
}

#[test]
fn download_request_names_show_episode_and_resolution() {
    let mut cfg = Config::default();
    cfg.downloads.base_dir = "/dl".into();
    let chosen = release("1080", DownloadMethod::Magnet);
    let req = download_request(&cfg.downloads, "One Piece", &chosen);
    assert_eq!(req.file_stem, "One Piece - 5 - 1080");
    assert_eq!(req.dir, "/dl/subsplease/magnet");
    assert_eq!(req.command, None);
    assert_eq!(req.link, chosen.link);
}

#[test]
fn variants_are_grouped_by_episode() {
    let a = release("1080", DownloadMethod::Magnet);
    let b = release("720", DownloadMethod::Magnet);
    let mut c = release("1080", DownloadMethod::Magnet);
    c.episode = "6".into();
    let groups = group_by_episode(&vec![a.clone(), c.clone(), b.clone()]);
    assert_eq!(groups, vec![vec![a, b], vec![c]]);
}

#[test]
fn decide_group_resolves_with_the_desired_resolution() {
    let mut config = Config::default();
    config.downloads.default_resolution = "1080".into();
    config.downloads.default_method = DownloadMethod::Magnet;
    let variants = vec![release("720", DownloadMethod::Magnet), release("1080", DownloadMethod::Magnet)];
    match decide_group(&variants, &config, None) {
        GroupDecision::Resolve(chosen) => assert_eq!(chosen.resolution, "1080"),
        other => panic!("expected a resolve, got {other:?}"),
    }
}

#[test]
fn decide_group_waits_with_the_best_variant_when_desired_is_missing() {
    let mut config = Config::default();
    config.downloads.default_resolution = "1080".into();
    config.downloads.resolution_fallback = fallback();
    config.downloads.default_method = DownloadMethod::Magnet;
    let variants = vec![release("480", DownloadMethod::Magnet), release("720", DownloadMethod::Torrent)];
    match decide_group(&variants, &config, None) {
        GroupDecision::Wait(best) => {
            assert_eq!(best.resolution, "720");
            assert_eq!(best.method, DownloadMethod::Torrent);
        }
        other => panic!("expected a wait, got {other:?}"),
    }
}

#[test]
fn decide_group_does_nothing_for_stale_version_bumps() {
    let mut config = Config::default();
    config.versions.mode = VersionMode::LatestOnly;
    let mut bump = release("1080", DownloadMethod::Magnet);
    bump.episode = "3".into();
    bump.version = 2;
    assert!(matches!(decide_group(&vec![bump], &config, Some("5")), GroupDecision::Nothing));
    assert!(matches!(decide_group(&Vec::new(), &config, None), GroupDecision::Nothing));
}

#[test]
fn pending_ready_needs_a_stored_best_and_an_elapsed_wait() {
    let waits = vec![("subsplease".to_string(), 1_000u64)];
    let mut row = PendingRow {
        series_id: 1,
        episode: "5".into(),
        first_seen_at: 10_000,
        desired_resolution: "1080".into(),
        best_resolution: Some("720".into()),
        best_variant_json: Some("{}".into()),
    };
    assert!(!pending_ready(&row, "subsplease", &waits, 60_000, 10_999));
    assert!(pending_ready(&row, "subsplease", &waits, 60_000, 11_000));
    assert!(!pending_ready(&row, "other", &waits, 60_000, 11_000));
    assert!(pending_ready(&row, "other", &waits, 60_000, 70_000));
    row.best_variant_json = None;
    assert!(!pending_ready(&row, "subsplease", &waits, 60_000, 70_000));
}

#[test]
fn confirmations_are_silent_and_plain() {
    let n = confirmation_notification("One Piece", "Downloading", Some("/cache/default-icon.svg".into()));
    assert_eq!(n.title, "One Piece");
    assert_eq!(n.body, "Downloading");
    assert_eq!(n.icon_path.as_deref(), Some("/cache/default-icon.svg"));
    assert!(n.image_path.is_none());
    assert!(n.sound.is_none());
    assert!(n.actions.is_empty());
}

#[test]
fn default_categories_reclassify_to_the_right_kind() {
    let defaults = CategoryDef::defaults();
    let liked = reclassify_target(&defaults, Reclassify::Whitelist).unwrap();
    assert!(liked.auto_download);
    let out = reclassify_target(&defaults, Reclassify::Blacklist).unwrap();
    assert!(!out.notify && !out.auto_download);
}

#[test]
fn whitelist_skips_a_liked_category_that_does_not_auto_download() {
    let cats = vec![
        CategoryDef { name: "liked".into(), notify: true, auto_download: false },
        CategoryDef { name: "fav".into(), notify: true, auto_download: true },
    ];
    let target = reclassify_target(&cats, Reclassify::Whitelist).unwrap();
    assert_eq!(target.name, "fav");
    let cats = vec![
        CategoryDef { name: "fav".into(), notify: true, auto_download: true },
        CategoryDef { name: "liked".into(), notify: true, auto_download: true },
    ];
    assert_eq!(reclassify_target(&cats, Reclassify::Whitelist).unwrap().name, "liked");
    let cats = vec![CategoryDef { name: "uninterested".into(), notify: false, auto_download: true }];
    assert!(reclassify_target(&cats, Reclassify::Blacklist).is_none());
}

#[test]
fn resolving_records_then_downloads_then_notifies() {
    let cat = |notify: bool, auto_download: bool| CategoryDef { name: "c".into(), notify, auto_download };
    assert_eq!(
        resolve_steps(&cat(true, true)),
        vec![ResolveStep::RecordEpisode, ResolveStep::Download, ResolveStep::Notify]
    );
    assert_eq!(resolve_steps(&cat(true, false)), vec![ResolveStep::RecordEpisode, ResolveStep::Notify]);
    assert_eq!(resolve_steps(&cat(false, true)), vec![ResolveStep::RecordEpisode, ResolveStep::Download]);
    assert_eq!(resolve_steps(&cat(false, false)), vec![ResolveStep::RecordEpisode]);
}

#[test]
fn reclassify_downloads_only_into_auto_download_categories() {
    let quiet = CategoryDef { name: "uninterested".into(), notify: false, auto_download: false };
    match after_reclassify("One Piece", &quiet) {
        AfterReclassify::Reply(o) => assert_eq!(o.message(), "\"One Piece\" set to category \"uninterested\""),
        AfterReclassify::FindBest => panic!("a quiet category downloads nothing"),
    }
    let liked = CategoryDef { name: "liked".into(), notify: true, auto_download: true };
    assert!(matches!(after_reclassify("One Piece", &liked), AfterReclassify::FindBest));
}

#[test]
fn best_found_replies_for_downloads_and_moves() {
    let r = release("1080", DownloadMethod::Magnet);
    assert_eq!(best_found("One Piece", "5", None, Some(&r)).message(), "Downloading \"One Piece\" episode 5 [1080]");
    assert_eq!(best_found("One Piece", "7", None, None).message(), "No known download for \"One Piece\" episode 7");
    assert_eq!(
        best_found("One Piece", "5", Some("liked"), Some(&r)).message(),
        "\"One Piece\" set to category \"liked\"; downloading episode 5 [1080]"
    );
    assert_eq!(
        best_found("One Piece", "7", Some("liked"), None).message(),
        "\"One Piece\" set to category \"liked\" (no known download yet for episode 7)"
    );
}
