//! Download methods, release keys, and the config schema's defaults,
//! validation and download-path precedence.

use anime_notif::config::{
    CategoryDef, Config, ConfigError, DbConfig, Downloads, MethodOverride, Rule, SourceDownloadOverride,
    SourceNotificationOverride,
};
use anime_notif::model::{DownloadMethod, Release};

fn release(resolution: &str, link: &str) -> Release {
    Release {
        source_id: "test".into(),
        series_title: "Show".into(),
        episode: "1".into(),
        season: None,
        resolution: resolution.into(),
        method: DownloadMethod::Direct,
        link: link.into(),
        cover_url: None,
        source_icon_url: None,
        show_url: None,
        raw_id: None,
        version: 1,
    }
}

#[test]
fn dedup_key_differs_by_resolution() {
    let a = release("1080p", "http://x/a");
    let b = release("720p", "http://x/a");
    assert_ne!(a.dedup_key(), b.dedup_key());
}

#[test]
fn dedup_key_stable_for_identical_input() {
    let a = release("1080p", "http://x/a");
    let b = release("1080p", "http://x/a");
    assert_eq!(a.dedup_key(), b.dedup_key());
}

#[test]
fn episode_key_ignores_resolution() {
    let a = release("1080p", "http://x/a");
    let b = release("720p", "http://x/b");
    assert_eq!(a.episode_key(), b.episode_key());
}

#[test]
fn episode_key_differs_by_episode_and_season() {
    let a = release("1080p", "http://x/a");
    let mut b = release("1080p", "http://x/a");
    b.episode = "2".into();
    assert_ne!(a.episode_key(), b.episode_key());
    let mut c = release("1080p", "http://x/a");
    c.season = Some("2".into());
    assert_ne!(a.episode_key(), c.episode_key());
}

#[test]
fn keys_are_lowercase_sha256_hex() {
    let k = release("1080p", "http://x/a").dedup_key();
    assert_eq!(k.len(), 64);
    assert!(k.chars().all(|c| c.is_ascii_digit() || ('a'..='f').contains(&c)));
}

#[test]
fn dedup_key_prefers_raw_id_over_title() {
    let mut a = release("1080p", "http://x/a");
    a.raw_id = Some("page-1".into());
    let mut b = a.clone();
    b.series_title = "Another Title".into();
    assert_eq!(a.dedup_key(), b.dedup_key());
}

#[test]
fn download_method_parse_synonyms() {
    assert_eq!(DownloadMethod::parse("HTTP"), Some(DownloadMethod::Direct));
    assert_eq!(DownloadMethod::parse("Magnet"), Some(DownloadMethod::Magnet));
    assert_eq!(DownloadMethod::parse("torrent_file"), Some(DownloadMethod::Torrent));
    assert_eq!(DownloadMethod::parse("carrier-pigeon"), None);
}

#[test]
fn download_method_parse_trims_and_round_trips() {
    assert_eq!(DownloadMethod::parse("  url \n"), Some(DownloadMethod::Direct));
    for m in [DownloadMethod::Direct, DownloadMethod::Torrent, DownloadMethod::Magnet] {
        assert_eq!(DownloadMethod::parse(m.as_str()), Some(m));
    }
}

#[test]
fn defaults_are_valid() {
    Config::default().validate().unwrap();
}

#[test]
fn notifications_defaults_to_open_show_page_enabled() {
    let cfg = Config::default();
    assert!(cfg.notifications.open_show_page);
    assert_eq!(cfg.notifications.open_command, None);
}

#[test]
fn notifications_sound_defaults_to_none() {
    let cfg = Config::default();
    assert_eq!(cfg.notifications.sound_file, None);
    assert_eq!(cfg.notifications.sound_name, None);
    assert!(cfg.notifications.sources.is_empty());
}

#[test]
fn default_config_has_the_documented_values() {
    let cfg = Config::default();
    assert_eq!(cfg.general.default_interval, 15 * 60 * 1000);
    assert_eq!(cfg.downloads.default_resolution, "1080");
    assert_eq!(cfg.downloads.resolution_fallback, vec!["1080", "720", "480"]);
    assert_eq!(cfg.downloads.resolution_wait, 30 * 60 * 1000);
    let names: Vec<&str> = cfg.categories.iter().map(|c| c.name.as_str()).collect();
    assert_eq!(names, vec!["liked", "normal", "uninterested"]);
}

fn category(name: &str, notify: bool, auto_download: bool) -> CategoryDef {
    CategoryDef { name: name.into(), notify, auto_download }
}

fn invalid_message(cfg: &Config) -> String {
    match cfg.validate() {
        Err(ConfigError::Invalid(m)) => m,
        other => panic!("expected an invalid config, got {other:?}"),
    }
}

#[test]
fn rejects_duplicate_category_names() {
    let mut cfg = Config::default();
    cfg.categories = vec![category("liked", true, true), category("liked", false, false)];
    assert_eq!(invalid_message(&cfg), "duplicate category name: liked");
}

#[test]
fn rejects_rule_with_undefined_category() {
    let mut cfg = Config::default();
    cfg.rules.push(Rule {
        match_exact: Some("One Piece".into()),
        match_regex: None,
        category: "does-not-exist".into(),
    });
    assert_eq!(invalid_message(&cfg), "rule references undefined category: does-not-exist");
}

#[test]
fn rejects_empty_categories_and_names_and_matcherless_rules() {
    let mut cfg = Config::default();
    cfg.categories.clear();
    assert_eq!(invalid_message(&cfg), "at least one category must be defined");

    let mut cfg = Config::default();
    cfg.categories.push(category("  ", true, false));
    assert_eq!(invalid_message(&cfg), "category name cannot be empty");

    let mut cfg = Config::default();
    cfg.rules.push(Rule { match_exact: None, match_regex: None, category: "liked".into() });
    assert_eq!(invalid_message(&cfg), "rule must set `match` or `match_regex`");
}

#[test]
fn rejects_bad_rule_regex_and_unknown_method_keys() {
    let mut cfg = Config::default();
    cfg.rules.push(Rule { match_exact: None, match_regex: Some("(unclosed".into()), category: "liked".into() });
    assert!(invalid_message(&cfg).starts_with("invalid match_regex \"(unclosed\": "));

    let mut cfg = Config::default();
    cfg.downloads.sources.push((
        "nyaa".into(),
        SourceDownloadOverride { dir: None, methods: vec![("carrier-pigeon".into(), MethodOverride::default())] },
    ));
    assert_eq!(
        invalid_message(&cfg),
        "unknown download method in config: carrier-pigeon (expected direct/torrent/magnet)"
    );
}

#[test]
fn config_error_messages() {
    assert_eq!(ConfigError::Invalid("x".into()).message(), "invalid config: x");
    let e = ConfigError::Read { path: "/c.toml".into(), message: "denied".into() };
    assert_eq!(e.message(), "failed to read config file /c.toml: denied");
}

#[test]
fn resolve_dir_precedence() {
    let mut d = Downloads { base_dir: "/base".into(), ..Downloads::default() };
    assert_eq!(d.resolve_dir("nyaa", DownloadMethod::Direct), "/base/nyaa/direct");

    d.methods.push((
        DownloadMethod::Direct.as_str().to_string(),
        MethodOverride { dir: Some("/per-method".into()), ..Default::default() },
    ));
    assert_eq!(d.resolve_dir("nyaa", DownloadMethod::Direct), "/per-method");

    d.sources.push(("nyaa".into(), SourceDownloadOverride { dir: Some("/per-source".into()), methods: Vec::new() }));
    // The per-method override outranks the per-source one; the per-source
    // dir applies to methods without an override of their own.
    assert_eq!(d.resolve_dir("nyaa", DownloadMethod::Direct), "/per-method");
    assert_eq!(d.resolve_dir("nyaa", DownloadMethod::Magnet), "/per-source");

    d.sources[0].1.methods.push((
        DownloadMethod::Direct.as_str().to_string(),
        MethodOverride { dir: Some("/per-source-method".into()), ..Default::default() },
    ));
    assert_eq!(d.resolve_dir("nyaa", DownloadMethod::Direct), "/per-source-method");

    assert_eq!(d.resolve_dir("other", DownloadMethod::Direct), "/per-method");
}

#[test]
fn torrent_prefers_watch_dir_over_dir() {
    let mut d = Downloads { base_dir: "/base".into(), ..Downloads::default() };
    d.methods.push((
        DownloadMethod::Torrent.as_str().to_string(),
        MethodOverride { dir: Some("/torrent-dir".into()), watch_dir: Some("/watch-dir".into()), command: None },
    ));
    assert_eq!(d.resolve_dir("nyaa", DownloadMethod::Torrent), "/watch-dir");
}

#[test]
fn resolve_command_takes_the_most_specific_override() {
    let mut d = Downloads { base_dir: "/base".into(), ..Downloads::default() };
    assert_eq!(d.resolve_command("nyaa", DownloadMethod::Magnet), None);
    d.methods.push((
        "magnet".into(),
        MethodOverride { command: Some("xdg-open {magnet}".into()), ..Default::default() },
    ));
    d.sources.push((
        "nyaa".into(),
        SourceDownloadOverride {
            dir: None,
            methods: vec![("magnet".into(), MethodOverride { command: Some("qbt {magnet}".into()), ..Default::default() })],
        },
    ));
    assert_eq!(d.resolve_command("nyaa", DownloadMethod::Magnet).as_deref(), Some("qbt {magnet}"));
    assert_eq!(d.resolve_command("other", DownloadMethod::Magnet).as_deref(), Some("xdg-open {magnet}"));
}

#[test]
fn parses_minimal_toml_with_defaults() {
    // An empty file decodes to the defaults; finishing it validates them.
    let text = Config::expand_env_text("", &Vec::new());
    assert_eq!(text, "");
    let cfg = Config::default().finish(&Some("/home/u".into())).unwrap();
    assert_eq!(cfg.categories.len(), 3);
    assert_eq!(cfg.downloads.default_resolution, "1080");
}

#[test]
fn unresolved_env_vars_are_left_as_is() {
    let raw = "auth_token = \"${ANIME_NOTIF_DEFINITELY_UNSET}\"";
    let expanded = Config::expand_env_text(raw, &Vec::new());
    assert_eq!(expanded, raw);
}

#[test]
fn env_vars_are_expanded_from_the_snapshot() {
    let vars = vec![("ANIME_NOTIF_TEST_TOKEN".to_string(), "secret123".to_string())];
    let expanded = Config::expand_env_text("auth_token = \"${ANIME_NOTIF_TEST_TOKEN}\"", &vars);
    assert_eq!(expanded, "auth_token = \"secret123\"");
}

#[test]
fn tilde_is_expanded_in_paths() {
    let mut cfg = Config::default();
    cfg.downloads.base_dir = "~/Downloads/anime".into();
    cfg.general.db = DbConfig::Local { path: "~/data.db".into() };
    cfg.downloads.methods.push((
        "torrent".into(),
        MethodOverride { watch_dir: Some("~/watch".into()), ..Default::default() },
    ));
    let cfg = cfg.finish(&Some("/home/u".into())).unwrap();
    assert!(!cfg.downloads.base_dir.starts_with('~'));
    assert_eq!(cfg.downloads.base_dir, "/home/u/Downloads/anime");
    match &cfg.general.db {
        DbConfig::Local { path } => assert_eq!(path, "/home/u/data.db"),
        other => panic!("expected a local db, got {other:?}"),
    }
    assert_eq!(cfg.downloads.methods[0].1.watch_dir.as_deref(), Some("/home/u/watch"));
}

#[test]
fn tilde_inside_a_name_is_left_alone() {
    let mut cfg = Config::default();
    cfg.downloads.base_dir = "~user/x".into();
    let cfg = cfg.finish(&Some("/home/u".into())).unwrap();
    assert_eq!(cfg.downloads.base_dir, "~user/x");
}

#[test]
fn finish_reports_validation_errors() {
    let mut cfg = Config::default();
    cfg.categories.clear();
    match cfg.finish(&None) {
        Err(ConfigError::Invalid(m)) => assert_eq!(m, "at least one category must be defined"),
        other => panic!("expected invalid, got {other:?}"),
    }
}


#[test]
fn rejects_rule_setting_both_matchers() {
    let mut cfg = Config::default();
    cfg.rules.push(Rule {
        match_exact: Some("One Piece".into()),
        match_regex: Some("^One".into()),
        category: "liked".into(),
    });
    assert_eq!(invalid_message(&cfg), "rule must not set both `match` and `match_regex`");
}

#[test]
fn method_keys_must_be_exact_method_names() {
    let mut cfg = Config::default();
    cfg.downloads.methods.push(("http".into(), MethodOverride::default()));
    assert_eq!(invalid_message(&cfg), "unknown download method in config: http (expected direct/torrent/magnet)");
    let mut cfg = Config::default();
    cfg.downloads.methods.push(("Magnet".into(), MethodOverride::default()));
    assert_eq!(invalid_message(&cfg), "unknown download method in config: Magnet (expected direct/torrent/magnet)");
    let mut cfg = Config::default();
    cfg.downloads.methods.push(("magnet".into(), MethodOverride::default()));
    assert!(cfg.validate().is_ok());
}

#[test]
fn tilde_is_expanded_in_sound_files() {
    let mut cfg = Config::default();
    cfg.notifications.sound_file = Some("~/sounds/ding.oga".into());
    cfg.notifications.sound_name = Some("~not-a-path".into());
    cfg.notifications.sources.push((
        "nyaa".into(),
        SourceNotificationOverride { sound_file: Some("~/sounds/nyaa.oga".into()), sound_name: None },
    ));
    let cfg = cfg.finish(&Some("/home/u".into())).unwrap();
    assert_eq!(cfg.notifications.sound_file.as_deref(), Some("/home/u/sounds/ding.oga"));
    assert_eq!(cfg.notifications.sound_name.as_deref(), Some("~not-a-path"));
    assert_eq!(cfg.notifications.sources[0].1.sound_file.as_deref(), Some("/home/u/sounds/nyaa.oga"));
}

#[test]
fn rejects_a_key_repeated_within_a_table() {
    let mut cfg = Config::default();
    cfg.downloads.methods.push(("direct".into(), MethodOverride::default()));
    cfg.downloads.methods.push(("direct".into(), MethodOverride::default()));
    assert_eq!(invalid_message(&cfg), "duplicate key in config: direct");
    let mut cfg = Config::default();
    cfg.notifications.sources.push(("nyaa".into(), SourceNotificationOverride::default()));
    cfg.notifications.sources.push(("nyaa".into(), SourceNotificationOverride::default()));
    assert_eq!(invalid_message(&cfg), "duplicate key in config: nyaa");
    let mut cfg = Config::default();
    cfg.downloads.sources.push(("nyaa".into(), SourceDownloadOverride::default()));
    cfg.notifications.sources.push(("nyaa".into(), SourceNotificationOverride::default()));
    assert!(cfg.validate().is_ok());
}
