//! The control token and pages, cover cache paths, remote plugins, the
//! log file, paths, and the state database's rows.

use anime_notif::control::{action_page, choose_token, forbidden, token_accepted, token_path};
use anime_notif::cover::{cache_path_for, default_icon_path};
use anime_notif::digest::sha256_hex;
use anime_notif::fetch::{
    after_fetch, check_checksum, decode_response, is_url, plugin_cache_path, uses_post, FetchError, RemoteText,
};
use anime_notif::logs::{latest_log_name, tail_lines, take_complete_lines};
use anime_notif::paths::{
    default_cache_dir, default_config_dir, default_config_path, default_data_dir, download_dir_from, join,
};
use anime_notif::source::{FieldExtractor, FieldSet, SourcePlugin, VariantFields};
use anime_notif::store::{upserted_pending, InteractionKind, PendingRow};

#[test]
fn generated_tokens_are_reasonably_unique_and_sized() {
    let a = choose_token(None);
    let b = choose_token(Some("   \n"));
    assert!(a.fresh && b.fresh);
    assert_eq!(a.token.len(), 32);
    assert!(a.token.chars().all(|c| c.is_ascii_alphanumeric()));
    assert_ne!(a.token, b.token);
}

#[test]
fn token_survives_a_restart() {
    let t = choose_token(Some("abc123\n"));
    assert_eq!(t.token, "abc123");
    assert!(!t.fresh);
    assert_eq!(token_path("/state"), "/state/control_token");
    assert!(token_accepted("abc", "abc"));
    assert!(!token_accepted("abc", "abd"));
}

#[test]
fn control_pages() {
    assert_eq!(forbidden(), "<h1>Forbidden</h1><p>Invalid or missing token.</p>");
    assert_eq!(action_page(Ok("done")), "<h1>anime-notif</h1><p>done</p>");
    assert_eq!(action_page(Err("boom")), "<h1>anime-notif</h1><p>Error: boom</p>");
}

#[test]
fn cache_path_is_stable_and_keeps_extension() {
    let a = cache_path_for("/cache", "https://x.test/cover.jpg");
    let b = cache_path_for("/cache", "https://x.test/cover.jpg");
    assert_eq!(a, b);
    assert!(a.ends_with(".jpg"));
    assert_eq!(a, format!("/cache/cover-{}.jpg", sha256_hex("https://x.test/cover.jpg")));
}

#[test]
fn cache_path_falls_back_to_generic_extension() {
    let a = cache_path_for("/cache", "https://x.test/cover");
    assert!(a.ends_with(".img"));
    let b = cache_path_for("/cache", "https://x.test/image.php?id=3");
    assert!(b.ends_with(".img"));
    assert_eq!(default_icon_path("/cache"), "/cache/default-icon.svg");
}

#[test]
fn sha256_of_known_input() {
    assert_eq!(sha256_hex("abc"), "ba7816bf8f01cfea414140de5dae2223b00361a396177a9cb410ff61f20015ad");
}

#[test]
fn remote_plugin_locations() {
    assert!(is_url("https://x/p.toml"));
    assert!(is_url("http://x/p.toml"));
    assert!(!is_url("sources/p.toml"));
    let p = plugin_cache_path("/cache", "https://x/p.toml");
    assert_eq!(p, format!("/cache/{}.toml", sha256_hex("https://x/p.toml")));
}

#[test]
fn checksum_mismatch_is_rejected() {
    assert!(check_checksum("https://x", "abc", None).is_ok());
    let good = sha256_hex("abc");
    assert!(check_checksum("https://x", "abc", Some(&good)).is_ok());
    match check_checksum("https://x", "abcd", Some(&good)) {
        Err(FetchError::ChecksumMismatch { location, expected, actual }) => {
            assert_eq!(location, "https://x");
            assert_eq!(expected, good);
            assert_eq!(actual, sha256_hex("abcd"));
        }
        other => panic!("expected a mismatch, got {other:?}"),
    }
}

#[test]
fn post_is_recognised_case_insensitively() {
    assert!(uses_post("POST"));
    assert!(uses_post("post"));
    assert!(!uses_post("GET"));
    assert!(!uses_post("POSTS"));
}

fn minimal_plugin() -> SourcePlugin {
    SourcePlugin {
        id: "test".into(),
        endpoint: "https://example.com/api".into(),
        method: "GET".into(),
        interval: None,
        resolution_wait: None,
        headers: Vec::new(),
        query: Vec::new(),
        body: None,
        items: ".[]".into(),
        variants: ".".into(),
        fields: FieldSet {
            series: FieldExtractor { path: Some(".title".into()), ..Default::default() },
            variant: VariantFields {
                resolution: FieldExtractor { default: Some("1080p".into()), ..Default::default() },
                method: FieldExtractor { default: Some("direct".into()), ..Default::default() },
                link: FieldExtractor { path: Some(".url".into()), ..Default::default() },
            },
            ..Default::default()
        },
        batch: None,
        version: None,
        icon: None,
    }
}

fn subsplease_like_plugin() -> SourcePlugin {
    let field = |path: Option<&str>, regex: Option<&str>, default: Option<&str>| FieldExtractor {
        path: path.map(String::from),
        regex: regex.map(String::from),
        default: default.map(String::from),
        ..Default::default()
    };
    SourcePlugin {
        id: "subsplease".into(),
        endpoint: "http://127.0.0.1/api/".into(),
        method: "GET".into(),
        interval: None,
        resolution_wait: None,
        headers: vec![("X-Test".into(), "yes".into())],
        query: vec![("f".into(), "latest".into()), ("tz".into(), "Africa/Casablanca".into())],
        body: None,
        items: ".[]".into(),
        variants: ".downloads[]".into(),
        fields: FieldSet {
            series: field(Some(".show"), None, None),
            episode: field(Some(".episode"), None, Some("?")),
            variant: VariantFields {
                resolution: field(Some(".res"), Some("(\\d+)"), Some("480")),
                method: field(None, None, Some("magnet")),
                link: field(Some(".magnet"), None, None),
            },
            ..Default::default()
        },
        batch: None,
        version: None,
        icon: None,
    }
}

#[test]
fn polls_and_extracts_releases() {
    let source = subsplease_like_plugin().compile().unwrap();
    assert!(!uses_post(&source.method));
    assert_eq!(source.query, vec![("f".to_string(), "latest".to_string()), ("tz".to_string(), "Africa/Casablanca".to_string())]);
    assert_eq!(source.headers, vec![("X-Test".to_string(), "yes".to_string())]);
    let body = r#"{"x": {"show": "One Piece", "episode": "1121", "downloads": [{"res": "1080p", "magnet": "magnet:?xt=aaa"}]}}"#;
    let result = decode_response(&source, body).unwrap();
    assert!(result.warnings.is_empty(), "warnings: {:?}", result.warnings);
    assert_eq!(result.releases.len(), 1);
    assert_eq!(result.releases[0].series_title, "One Piece");
    assert_eq!(result.releases[0].resolution, "1080");
}

#[test]
fn invalid_json_is_reported() {
    let source = minimal_plugin().compile().unwrap();
    match decode_response(&source, "<html>") {
        Err(FetchError::InvalidJson { source_id, .. }) => assert_eq!(source_id, "test"),
        other => panic!("expected invalid JSON, got {other:?}"),
    }
}

#[test]
fn find_current_log_file_picks_the_latest_date() {
    let names = vec![
        "anime-notif.log.2024-01-02".to_string(),
        "other.txt".to_string(),
        "anime-notif.log.2024-01-10".to_string(),
        "anime-notif.log.2023-12-31".to_string(),
    ];
    assert_eq!(latest_log_name(&names).as_deref(), Some("anime-notif.log.2024-01-10"));
}

#[test]
fn find_current_log_file_none_when_empty() {
    assert_eq!(latest_log_name(&Vec::new()), None);
    assert_eq!(latest_log_name(&vec!["notes.txt".to_string()]), None);
}

#[test]
fn read_tail_returns_last_n_lines() {
    assert_eq!(tail_lines("a\nb\nc\nd\n", 2), "c\nd\n");
    assert_eq!(tail_lines("a\r\nb", 5), "a\nb\n");
    assert_eq!(tail_lines("", 3), "\n");
    assert_eq!(tail_lines("a\n\nb\n", 2), "\nb\n");
}

#[test]
fn paths_join_like_pathbuf() {
    assert_eq!(join("/a", "b"), "/a/b");
    assert_eq!(join("/a/", "b"), "/a/b");
    assert_eq!(join("/a", "/b"), "/b");
    assert_eq!(join("", "b"), "b");
    assert!(default_config_path().ends_with("config.toml"));
    assert_eq!(download_dir_from(Some("/home/u/Downloads".into())), "/home/u/Downloads/anime-notif");
    assert_eq!(download_dir_from(None), "anime-notif-downloads");
}

#[test]
fn interaction_kinds_round_trip() {
    for k in [InteractionKind::Download, InteractionKind::Category, InteractionKind::Alias, InteractionKind::Created] {
        assert_eq!(InteractionKind::parse(k.as_str()), Some(k));
    }
    assert_eq!(InteractionKind::parse("Download"), None);
}

#[test]
fn pending_preserves_first_seen_at_across_updates() {
    let first = upserted_pending(None, 1, "08", "1080", Some("720"), Some("{}"), 1_000);
    assert_eq!(first.first_seen_at, 1_000);
    let second = upserted_pending(Some(&first), 1, "08", "1080", None, None, 5_000);
    assert_eq!(second.first_seen_at, 1_000);
    assert_eq!(second.best_resolution.as_deref(), Some("720"));
    let third = upserted_pending(Some(&second), 1, "08", "1080", Some("1080"), Some("{\"x\":1}"), 9_000);
    assert_eq!(
        third,
        PendingRow {
            series_id: 1,
            episode: "08".into(),
            first_seen_at: 1_000,
            desired_resolution: "1080".into(),
            best_resolution: Some("1080".into()),
            best_variant_json: Some("{\"x\":1}".into()),
        }
    );
}

#[test]
fn followed_bytes_split_into_complete_lines() {
    let mut pending = b"first\nsecond\nthi".to_vec();
    let lines = take_complete_lines(&mut pending);
    assert_eq!(lines, vec![b"first".to_vec(), b"second".to_vec()]);
    assert_eq!(pending, b"thi".to_vec());
    pending.extend_from_slice(b"rd\n\n");
    let lines = take_complete_lines(&mut pending);
    assert_eq!(lines, vec![b"third".to_vec(), Vec::new()]);
    assert!(pending.is_empty());
}

#[test]
fn remote_plugin_falls_back_to_cache_only_on_failed_fetch() {
    let raw = "id = \"x\"".to_string();
    let good = sha256_hex(&raw);
    match after_fetch("https://x/p.toml", Ok(raw.clone()), Some(&good), true) {
        RemoteText::Fresh(t) => assert_eq!(t, raw),
        other => panic!("expected fresh text, got {other:?}"),
    }
    match after_fetch("https://x/p.toml", Ok(raw.clone()), Some("00"), true) {
        RemoteText::Failed(FetchError::ChecksumMismatch { location, expected, actual }) => {
            assert_eq!(location, "https://x/p.toml");
            assert_eq!(expected, "00");
            assert_eq!(actual, good);
        }
        other => panic!("expected a checksum mismatch, got {other:?}"),
    }
    let failed = || Err(FetchError::Http("timeout".into()));
    assert!(matches!(after_fetch("https://x/p.toml", failed(), None, true), RemoteText::Cached));
    match after_fetch("https://x/p.toml", failed(), None, false) {
        RemoteText::Failed(FetchError::Http(m)) => assert_eq!(m, "timeout"),
        other => panic!("expected the fetch error, got {other:?}"),
    }
}

#[test]
fn default_directories_are_the_projects_or_current() {
    for dir in [default_config_dir(), default_data_dir(), default_cache_dir()] {
        assert!(dir == "." || dir.contains("anime-notif"), "unexpected directory {dir:?}");
    }
}
