//! Source plugins: compiling their paths and regexes, the field
//! extraction rules, batch and version detection, and extracting releases
//! from a response.

use anime_notif::extract::extract;
use anime_notif::json::Json;
use anime_notif::model::DownloadMethod;
use anime_notif::source::{
    BatchConfig, CompiledSource, FieldExtractor, FieldSet, SourceError, SourcePlugin, VariantFields, VersionConfig,
};

fn s(text: &str) -> Json {
    Json::Str(text.to_string())
}

fn obj(members: Vec<(&str, Json)>) -> Json {
    Json::Object(members.into_iter().map(|(k, v)| (k.to_string(), v)).collect())
}

fn field(path: Option<&str>, regex: Option<&str>, default: Option<&str>, prefix: Option<&str>) -> FieldExtractor {
    FieldExtractor {
        path: path.map(String::from),
        regex: regex.map(String::from),
        default: default.map(String::from),
        prefix: prefix.map(String::from),
        suffix: None,
    }
}

/// The SubsPlease plugin of the plugin docs, as values.
fn subsplease() -> SourcePlugin {
    SourcePlugin {
        id: "subsplease".into(),
        endpoint: "https://subsplease.org/api/".into(),
        method: "GET".into(),
        interval: Some(10 * 60 * 1000),
        resolution_wait: None,
        headers: Vec::new(),
        query: vec![("f".into(), "latest".into()), ("tz".into(), "Africa/Casablanca".into())],
        body: None,
        items: ".[]".into(),
        variants: ".downloads[]".into(),
        fields: FieldSet {
            series: field(Some(".show"), None, None, None),
            episode: field(Some(".episode"), None, Some("?"), None),
            season: field(Some(".season"), None, Some("1"), None),
            cover: field(Some(".image_url"), None, None, Some("https://subsplease.org")),
            show_url: FieldExtractor::default(),
            id: field(Some(".page"), None, None, None),
            variant: VariantFields {
                resolution: field(Some(".res"), Some("(\\d+)"), Some("480"), None),
                method: field(None, None, Some("magnet"), None),
                link: field(Some(".magnet"), None, None, None),
            },
        },
        batch: None,
        version: None,
        icon: None,
    }
}

fn compiled(p: &SourcePlugin) -> CompiledSource {
    p.compile().unwrap()
}

fn batch_regex() -> String {
    "^\\d+\\s*-\\s*\\d+$".to_string()
}

#[test]
fn compiles_subsplease_example() {
    let c = compiled(&subsplease());
    assert_eq!(c.id, "subsplease");
    assert_eq!(c.query.iter().find(|(k, _)| k == "f").map(|(_, v)| v.as_str()), Some("latest"));
    assert_eq!(c.interval, Some(600 * 1000));
}

#[test]
fn rejects_bad_jq_path() {
    let mut p = subsplease();
    p.items = "not-a-path".into();
    match p.compile() {
        Err(SourceError::Invalid(m)) => {
            assert_eq!(m, "items: invalid jq path \"not-a-path\": path must start with '.'")
        }
        other => panic!("expected invalid, got {other:?}"),
    }
}

#[test]
fn rejects_bad_regex() {
    let mut p = subsplease();
    p.fields.variant.resolution.regex = Some("(unclosed".into());
    match p.compile() {
        Err(SourceError::Invalid(m)) => assert!(m.starts_with("fields.variant.resolution.regex: ")),
        other => panic!("expected invalid, got {other:?}"),
    }
}

#[test]
fn rejects_empty_id_and_incomplete_version_regex() {
    let mut p = subsplease();
    p.id = "  ".into();
    assert!(matches!(p.compile(), Err(SourceError::Invalid(m)) if m == "source id cannot be empty"));
    let mut p = subsplease();
    p.version = Some(VersionConfig { path: None, regex: "^(?P<episode>\\d+)v(\\d+)$".into() });
    assert!(matches!(
        p.compile(),
        Err(SourceError::Invalid(m)) if m == "version.regex must define named groups `episode` and `version`"
    ));
}

#[test]
fn constant_field_extracts_default_with_no_path() {
    let c = compiled(&subsplease());
    assert_eq!(c.fields.variant.method.extract(&Json::Null), Some("magnet".to_string()));
}

#[test]
fn prefix_is_applied() {
    let c = compiled(&subsplease());
    let item = obj(vec![("image_url", s("/img/x.jpg"))]);
    assert_eq!(c.fields.cover.extract(&item), Some("https://subsplease.org/img/x.jpg".to_string()));
}

#[test]
fn prefix_and_suffix_both_apply_for_show_url() {
    let mut p = subsplease();
    p.fields.show_url = FieldExtractor {
        path: Some(".page".into()),
        regex: None,
        default: None,
        prefix: Some("https://subsplease.org/shows/".into()),
        suffix: Some("/".into()),
    };
    let c = compiled(&p);
    let item = obj(vec![("page", s("hanaori-san-wa-tensei-shitemo-kenka-ga-shitai"))]);
    assert_eq!(
        c.fields.show_url.extract(&item),
        Some("https://subsplease.org/shows/hanaori-san-wa-tensei-shitemo-kenka-ga-shitai/".to_string())
    );
}

#[test]
fn regex_extracts_capture_group() {
    let c = compiled(&subsplease());
    let variant = obj(vec![("res", s("1080p"))]);
    assert_eq!(c.fields.variant.resolution.extract(&variant), Some("1080".to_string()));
}

#[test]
fn regex_miss_falls_back_to_default() {
    let c = compiled(&subsplease());
    let variant = obj(vec![("res", s("unknown"))]);
    assert_eq!(c.fields.variant.resolution.extract(&variant), Some("480".to_string()));
}

#[test]
fn numbers_and_booleans_are_read_as_text() {
    let c = compiled(&subsplease());
    let item = obj(vec![("episode", Json::Number("12".into()))]);
    assert_eq!(c.fields.episode.extract(&item), Some("12".to_string()));
    let item = obj(vec![("episode", Json::Bool(true))]);
    assert_eq!(c.fields.episode.extract(&item), Some("true".to_string()));
    let item = obj(vec![("episode", Json::Array(Vec::new()))]);
    assert_eq!(c.fields.episode.extract(&item), Some("?".to_string()));
}

#[test]
fn no_batch_table_means_batch_is_never_configured() {
    let c = compiled(&subsplease());
    assert!(c.batch.is_none());
}

#[test]
fn batch_defaults_to_ignore_true() {
    let mut p = subsplease();
    p.batch = Some(BatchConfig::from_table(None, batch_regex(), None));
    let c = compiled(&p);
    assert!(c.batch.as_ref().unwrap().ignore);
    assert!(!BatchConfig::from_table(None, batch_regex(), Some(false)).ignore);
}

#[test]
fn batch_matches_episode_range_by_default() {
    let mut p = subsplease();
    p.batch = Some(BatchConfig::from_table(None, batch_regex(), None));
    let c = compiled(&p);
    let batch = c.batch.as_ref().unwrap();
    let item = obj(vec![]);
    assert!(batch.matches(&item, "01-22"));
    assert!(!batch.matches(&item, "22"));
}

#[test]
fn batch_can_match_a_different_field_via_path() {
    let mut p = subsplease();
    p.batch = Some(BatchConfig::from_table(Some(".title".into()), "(?i)batch".into(), None));
    let c = compiled(&p);
    let batch = c.batch.as_ref().unwrap();
    let item = obj(vec![("title", s("[SubsPlease] Dr. Stone S3 (01-22) [Batch]"))]);
    assert!(batch.matches(&item, "irrelevant"));
    let non_batch_item = obj(vec![("title", s("[SubsPlease] Dr. Stone S3 - 15"))]);
    assert!(!batch.matches(&non_batch_item, "irrelevant"));
}

#[test]
fn batch_ignore_can_be_disabled() {
    let mut p = subsplease();
    p.batch = Some(BatchConfig::from_table(None, batch_regex(), Some(false)));
    let c = compiled(&p);
    assert!(!c.batch.unwrap().ignore);
}

fn subsplease_sample() -> Json {
    obj(vec![
        (
            "25-abc",
            obj(vec![
                (
                    "downloads",
                    Json::Array(vec![
                        obj(vec![("magnet", s("magnet:?xt=urn:btih:aaa")), ("res", s("1080p"))]),
                        obj(vec![("magnet", s("magnet:?xt=urn:btih:bbb")), ("res", s("720p"))]),
                    ]),
                ),
                ("episode", s("1121")),
                ("image_url", s("/wp-content/uploads/one-piece.jpg")),
                ("page", s("one-piece")),
                ("show", s("One Piece")),
            ]),
        ),
        (
            "25-def",
            obj(vec![
                (
                    "downloads",
                    Json::Array(vec![obj(vec![("magnet", s("magnet:?xt=urn:btih:ccc")), ("res", s("unknown-quality"))])]),
                ),
                ("episode", s("?")),
                ("show", s("Naruto")),
            ]),
        ),
    ])
}

#[test]
fn extracts_full_subsplease_sample() {
    let c = compiled(&subsplease());
    let result = extract(&c, &subsplease_sample());
    assert!(result.warnings.is_empty(), "warnings: {:?}", result.warnings);
    assert_eq!(result.releases.len(), 3);
    let op = result.releases.iter().find(|r| r.series_title == "One Piece" && r.resolution == "1080").unwrap();
    assert_eq!(op.episode, "1121");
    assert_eq!(op.method, DownloadMethod::Magnet);
    assert_eq!(op.link, "magnet:?xt=urn:btih:aaa");
    assert_eq!(op.cover_url.as_deref(), Some("https://subsplease.org/wp-content/uploads/one-piece.jpg"));
    assert_eq!(op.raw_id.as_deref(), Some("one-piece"));
    let naruto = result.releases.iter().find(|r| r.series_title == "Naruto").unwrap();
    assert_eq!(naruto.resolution, "480");
    assert_eq!(naruto.cover_url, None);
}

#[test]
fn missing_series_field_is_a_warning_not_a_panic() {
    let c = compiled(&subsplease());
    let root = obj(vec![("x", obj(vec![("downloads", Json::Array(Vec::new()))]))]);
    let result = extract(&c, &root);
    assert_eq!(result.releases.len(), 0);
    assert_eq!(result.warnings, vec!["item 0: missing required field 'series'".to_string()]);
}

#[test]
fn item_with_no_variants_produces_no_releases_but_no_warning() {
    let c = compiled(&subsplease());
    let root = obj(vec![("x", obj(vec![("downloads", Json::Array(Vec::new())), ("show", s("Empty Show"))]))]);
    let result = extract(&c, &root);
    assert_eq!(result.releases.len(), 0);
    assert!(result.warnings.is_empty());
}

fn batch_plugin(ignore: bool) -> SourcePlugin {
    let mut p = subsplease();
    p.fields.season = FieldExtractor::default();
    p.fields.cover = FieldExtractor::default();
    p.fields.id = FieldExtractor::default();
    p.batch = Some(BatchConfig { path: None, regex: batch_regex(), ignore });
    p
}

fn batch_sample() -> Json {
    obj(vec![
        (
            "dr-stone-1",
            obj(vec![
                ("downloads", Json::Array(vec![obj(vec![("magnet", s("magnet:?xt=urn:btih:single")), ("res", s("1080p"))])])),
                ("episode", s("22")),
                ("show", s("Dr. Stone S3")),
            ]),
        ),
        (
            "dr-stone-batch",
            obj(vec![
                ("downloads", Json::Array(vec![obj(vec![("magnet", s("magnet:?xt=urn:btih:batch")), ("res", s("1080p"))])])),
                ("episode", s("01-22")),
                ("show", s("Dr. Stone S3")),
            ]),
        ),
    ])
}

#[test]
fn batch_release_is_skipped_by_default() {
    let c = compiled(&batch_plugin(true));
    let result = extract(&c, &batch_sample());
    assert_eq!(result.releases.len(), 1);
    assert_eq!(result.releases[0].episode, "22");
    assert_eq!(result.warnings.len(), 1);
    assert!(result.warnings[0].contains("skipped batch release"));
    assert!(result.warnings[0].contains("01-22"));
    assert_eq!(result.warnings[0], "item 1 (\"Dr. Stone S3\", episode \"01-22\"): skipped batch release");
}

#[test]
fn batch_release_is_included_when_ignore_is_false() {
    let c = compiled(&batch_plugin(false));
    let result = extract(&c, &batch_sample());
    assert_eq!(result.releases.len(), 2);
    assert!(result.warnings.is_empty());
    assert!(result.releases.iter().any(|r| r.episode == "01-22"));
}

#[test]
fn no_batch_config_never_filters_anything() {
    let c = compiled(&subsplease());
    let root = obj(vec![(
        "x",
        obj(vec![
            ("downloads", Json::Array(vec![obj(vec![("magnet", s("magnet:?xt=urn:btih:batch")), ("res", s("1080p"))])])),
            ("episode", s("01-22")),
            ("show", s("Dr. Stone S3")),
        ]),
    )]);
    let result = extract(&c, &root);
    assert_eq!(result.releases.len(), 1);
    assert!(result.warnings.is_empty());
}

#[test]
fn source_icon_url_is_copied_onto_every_release() {
    let mut p = subsplease();
    p.icon = Some("https://subsplease.org/favicon.ico".into());
    let c = compiled(&p);
    let result = extract(&c, &subsplease_sample());
    assert!(!result.releases.is_empty());
    for release in &result.releases {
        assert_eq!(release.source_icon_url.as_deref(), Some("https://subsplease.org/favicon.ico"));
    }
}

#[test]
fn source_icon_url_is_none_when_not_configured() {
    let c = compiled(&subsplease());
    let result = extract(&c, &subsplease_sample());
    assert!(result.releases.iter().all(|r| r.source_icon_url.is_none()));
}

fn one_episode(episode: &str) -> Json {
    obj(vec![(
        "x",
        obj(vec![
            ("downloads", Json::Array(vec![obj(vec![("magnet", s("magnet:?xt=urn:btih:x")), ("res", s("1080p"))])])),
            ("episode", s(episode)),
            ("show", s("Show")),
        ]),
    )])
}

#[test]
fn no_version_table_means_every_release_is_version_one() {
    let c = compiled(&subsplease());
    let result = extract(&c, &one_episode("08v2"));
    assert_eq!(result.releases.len(), 1);
    assert_eq!(result.releases[0].version, 1);
    assert_eq!(result.releases[0].episode, "08v2");
}

fn versioned() -> CompiledSource {
    let mut p = subsplease();
    p.version = Some(VersionConfig { path: None, regex: "^(?P<episode>\\d+)v(?P<version>\\d+)$".into() });
    compiled(&p)
}

#[test]
fn versioned_episode_is_split_into_base_episode_and_version() {
    let result = extract(&versioned(), &one_episode("08v2"));
    assert_eq!(result.releases.len(), 1);
    assert_eq!(result.releases[0].episode, "08");
    assert_eq!(result.releases[0].version, 2);
}

#[test]
fn unversioned_episode_is_left_unchanged_with_version_table_configured() {
    let result = extract(&versioned(), &one_episode("08"));
    assert_eq!(result.releases.len(), 1);
    assert_eq!(result.releases[0].episode, "08");
    assert_eq!(result.releases[0].version, 1);
}

#[test]
fn version_too_large_for_u32_is_left_unsplit() {
    let result = extract(&versioned(), &one_episode("08v99999999999"));
    assert_eq!(result.releases[0].episode, "08v99999999999");
    assert_eq!(result.releases[0].version, 1);
}

#[test]
fn bad_variant_fields_are_warnings() {
    let mut p = subsplease();
    p.fields.variant.method = field(Some(".how"), None, None, None);
    let c = compiled(&p);
    let root = obj(vec![(
        "x",
        obj(vec![
            (
                "downloads",
                Json::Array(vec![
                    obj(vec![("how", s("pigeon")), ("magnet", s("m1")), ("res", s("1080p"))]),
                    obj(vec![("magnet", s("m2")), ("res", s("720p"))]),
                    obj(vec![("how", s("magnet")), ("res", s("480p"))]),
                    obj(vec![("how", s("Magnet")), ("magnet", s("m4")), ("res", s("360p"))]),
                ]),
            ),
            ("show", s("Show")),
        ]),
    )]);
    let result = extract(&c, &root);
    assert_eq!(
        result.warnings,
        vec![
            "item 0 variant 0 (\"Show\"): unknown download method \"pigeon\"".to_string(),
            "item 0 variant 1 (\"Show\"): missing required field 'method'".to_string(),
            "item 0 variant 2 (\"Show\"): missing required field 'link'".to_string(),
        ]
    );
    assert_eq!(result.releases.len(), 1);
    assert_eq!(result.releases[0].resolution, "360");
    assert_eq!(result.releases[0].episode, "?");
}

#[test]
fn source_error_messages() {
    assert_eq!(SourceError::Invalid("x".into()).message(), "invalid source plugin: x");
}

#[test]
fn plugin_files_default_to_get_and_the_item_as_its_variant() {
    assert_eq!(SourcePlugin::default_method(), "GET");
    assert_eq!(SourcePlugin::default_variants(), ".");
}
