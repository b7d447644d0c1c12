//! Download hand-off: command words, placeholder substitution, file names
//! and extensions, and what carrying out a request takes.

use anime_notif::download::{
    default_command_tokens, extension_or, open_url_plan, plan_download, resolve_command_tokens, sanitize, substitute,
    DownloadError, DownloadPlan, DownloadRequest, Platform,
};
use anime_notif::model::DownloadMethod;

#[test]
fn substitutes_whole_token_only() {
    let tokens = vec!["transmission-remote".to_string(), "--add".to_string(), "{magnet}".to_string()];
    let resolved = substitute(&tokens, "magnet:?xt=urn:btih:AAA&dn=Show");
    assert_eq!(resolved, vec!["transmission-remote", "--add", "magnet:?xt=urn:btih:AAA&dn=Show"]);
}

#[test]
fn does_not_substitute_partial_matches() {
    let tokens = vec!["echo".to_string(), "prefix-{magnet}-suffix".to_string()];
    let resolved = substitute(&tokens, "magnet:?xt=aaa");
    assert_eq!(resolved, vec!["echo", "prefix-{magnet}-suffix"]);
}

#[test]
fn link_and_url_placeholders_are_substituted_too() {
    let tokens = vec!["a".to_string(), "{link}".to_string(), "{url}".to_string()];
    assert_eq!(substitute(&tokens, "X"), vec!["a", "X", "X"]);
}

#[test]
fn resolve_configured_command_is_shell_word_split() {
    let tokens = resolve_command_tokens(Some("transmission-remote --add {magnet}"), Platform::Linux).unwrap();
    assert_eq!(tokens, vec!["transmission-remote", "--add", "{magnet}"]);
}

#[test]
fn resolve_unconfigured_uses_platform_default() {
    let tokens = resolve_command_tokens(None, Platform::Linux).unwrap();
    assert!(!tokens.is_empty());
    assert!(tokens.contains(&"{magnet}".to_string()));
    assert_eq!(default_command_tokens(Platform::MacOs), vec!["open", "{magnet}"]);
    assert_eq!(default_command_tokens(Platform::Windows), vec!["cmd", "/C", "start", "", "{magnet}"]);
    assert_eq!(default_command_tokens(Platform::Linux), vec!["xdg-open", "{magnet}"]);
}

#[test]
fn rejects_unbalanced_quotes() {
    let err = resolve_command_tokens(Some("echo \"unterminated"), Platform::Linux).unwrap_err();
    assert!(matches!(err, DownloadError::BadCommand(_, _)));
    assert_eq!(err.message(), "invalid command template \"echo \\\"unterminated\": missing closing quote");
}

#[test]
fn replaces_unsafe_characters() {
    assert_eq!(sanitize("One Piece: Episode/1121 [1080p]"), "One Piece_ Episode_1121 [1080p]");
}

#[test]
fn empty_input_gets_a_fallback_name() {
    assert_eq!(sanitize("   ..  "), "download");
}

#[test]
fn ordinary_names_are_untouched() {
    assert_eq!(sanitize("One Piece - 1121 - 1080p"), "One Piece - 1121 - 1080p");
}

#[test]
fn sanitize_trims_dots_and_control_characters() {
    assert_eq!(sanitize(".. a\u{7}b ."), "a_b");
}

#[test]
fn extension_or_uses_url_path_extension() {
    assert_eq!(extension_or("https://x.test/file.mkv?a=b", "bin"), "mkv");
    assert_eq!(extension_or("https://x.test/file", "bin"), "bin");
    assert_eq!(extension_or("not a url", "bin"), "bin");
    assert_eq!(extension_or("https://x.test/.hidden", "bin"), "bin");
    assert_eq!(extension_or("https://x.test/a.tar.gz", "bin"), "gz");
    assert_eq!(extension_or("https://x.test/name./", "bin"), "bin");
}

fn request(method: DownloadMethod, command: Option<&str>) -> DownloadRequest {
    DownloadRequest {
        method,
        link: "https://x.test/ep1.mkv".into(),
        dir: "/dl".into(),
        command: command.map(String::from),
        file_stem: "One Piece: 1121".into(),
    }
}

#[test]
fn direct_download_fetches_into_a_named_file() {
    match plan_download(&request(DownloadMethod::Direct, None), Platform::Linux).unwrap() {
        DownloadPlan::Fetch { path } => assert_eq!(path, "/dl/One Piece_ 1121.mkv"),
        other => panic!("expected a fetch, got {other:?}"),
    }
}

#[test]
fn torrent_without_command_downloads_file_to_watch_dir() {
    let mut r = request(DownloadMethod::Torrent, None);
    r.link = "https://x.test/get?id=3".into();
    match plan_download(&r, Platform::Linux).unwrap() {
        DownloadPlan::Fetch { path } => assert_eq!(path, "/dl/One Piece_ 1121.torrent"),
        other => panic!("expected a fetch, got {other:?}"),
    }
}

#[test]
fn magnet_hands_off_to_configured_command() {
    let mut r = request(DownloadMethod::Magnet, Some("qbt add {magnet}"));
    r.link = "magnet:?xt=urn:btih:AAA".into();
    match plan_download(&r, Platform::Linux).unwrap() {
        DownloadPlan::Spawn { program, args } => {
            assert_eq!(program, "qbt");
            assert_eq!(args, vec!["add", "magnet:?xt=urn:btih:AAA"]);
        }
        other => panic!("expected a spawn, got {other:?}"),
    }
    let err = plan_download(&request(DownloadMethod::Magnet, Some("")), Platform::Linux).unwrap_err();
    assert!(matches!(err, DownloadError::EmptyCommand));
}

#[test]
fn open_url_uses_configured_command_override() {
    match open_url_plan("https://subsplease.org/shows/example/", Some("firefox {url}"), Platform::Linux).unwrap() {
        DownloadPlan::Spawn { program, args } => {
            assert_eq!(program, "firefox");
            assert_eq!(args, vec!["https://subsplease.org/shows/example/"]);
        }
        other => panic!("expected a spawn, got {other:?}"),
    }
    match open_url_plan("https://x/", None, Platform::MacOs).unwrap() {
        DownloadPlan::Spawn { program, args } => {
            assert_eq!(program, "open");
            assert_eq!(args, vec!["https://x/"]);
        }
        other => panic!("expected a spawn, got {other:?}"),
    }
}

#[test]
fn sanitized_names_are_safe_and_never_empty() {
    assert_eq!(sanitize("..\u{0}a/b:c. "), "_a_b_c");
    assert_eq!(sanitize(" . "), "download");
    for stem in ["a|b", "<x>?*", "\u{7f}\u{85}", "ok name"] {
        let s = sanitize(stem);
        assert!(!s.is_empty());
        assert!(!s.chars().any(|c| c.is_control() || "/\\:*?\"<>|".contains(c)));
        assert!(!s.starts_with('.') && !s.ends_with('.'));
    }
}

#[test]
fn sanitize_is_idempotent_and_never_lengthens() {
    for stem in ["..\u{0}a/b:c. ", "One Piece - 1121 - 1080", "", " . ", "a|b"] {
        let once = sanitize(stem);
        assert_eq!(sanitize(&once), once);
        assert!(once == "download" || once.chars().count() <= stem.chars().count());
    }
}
