//! Command-line parsing, category resolution, config edits and the
//! printed tables.

use anime_notif::cli::{
    add_category, add_source, choose_by_title, parse, plan_set, remove_category, resolve_category, resolve_selected,
    CliError, Command, FieldEdit, Report, ShowAction,
};
use anime_notif::config::{CategoryDef, Config};
use anime_notif::extract::ExtractionResult;
use anime_notif::model::{DownloadMethod, Release};
use anime_notif::store::{InteractionKind, InteractionRow, SeriesRow};
use anime_notif::table::{
    format_categories, format_extraction_result, format_series_detail, format_series_table, format_sources, render,
};

fn args(s: &[&str]) -> Vec<String> {
    s.iter().map(|s| s.to_string()).collect()
}

#[test]
fn parses_list_and_serve() {
    assert_eq!(parse(&args(&["list"])).unwrap(), Command::List);
    assert_eq!(parse(&args(&["serve"])).unwrap(), Command::Serve);
}

#[test]
fn parses_selector_set_show_rm() {
    assert_eq!(
        parse(&args(&["one-piece", "set", "category", "liked"])).unwrap(),
        Command::Show {
            selector: "one-piece".into(),
            action: ShowAction::SetField { field: "category".into(), value: "liked".into() },
        }
    );
    assert_eq!(
        parse(&args(&["5", "show"])).unwrap(),
        Command::Show { selector: "5".into(), action: ShowAction::Show }
    );
    assert_eq!(parse(&args(&["op", "rm"])).unwrap(), Command::Show { selector: "op".into(), action: ShowAction::Rm });
}

#[test]
fn parses_categories_and_source_subcommands() {
    assert_eq!(parse(&args(&["categories", "list"])).unwrap(), Command::CategoriesList);
    assert_eq!(
        parse(&args(&["categories", "add", "watching", "--notify"])).unwrap(),
        Command::CategoriesAdd { name: "watching".into(), notify: true, auto_download: false }
    );
    assert_eq!(
        parse(&args(&["source", "test", "sources/subsplease.toml"])).unwrap(),
        Command::SourceTest { location: "sources/subsplease.toml".into() }
    );
}

#[test]
fn parses_logs_command_and_flags() {
    assert_eq!(parse(&args(&["logs"])).unwrap(), Command::Logs { follow: false, lines: 200, path_only: false });
    assert_eq!(
        parse(&args(&["logs", "--follow", "--lines", "50"])).unwrap(),
        Command::Logs { follow: true, lines: 50, path_only: false }
    );
    assert_eq!(
        parse(&args(&["logs", "-f", "-n", "10"])).unwrap(),
        Command::Logs { follow: true, lines: 10, path_only: false }
    );
    assert_eq!(parse(&args(&["logs", "--path"])).unwrap(), Command::Logs { follow: false, lines: 200, path_only: true });
}

fn usage_message(r: Result<Command, CliError>) -> String {
    match r {
        Err(CliError::Usage(m)) => m,
        other => panic!("expected a usage error, got {other:?}"),
    }
}

#[test]
fn logs_rejects_bad_lines_value() {
    assert!(matches!(parse(&args(&["logs", "--lines", "not-a-number"])), Err(CliError::Usage(_))));
    assert_eq!(
        usage_message(parse(&args(&["logs", "--lines", "not-a-number"]))),
        "logs --lines: invalid number \"not-a-number\""
    );
    assert_eq!(usage_message(parse(&args(&["logs", "-n"]))), "logs --lines: expected a number");
    assert_eq!(usage_message(parse(&args(&["logs", "--tail"]))), "logs: unknown flag \"--tail\"");
}

#[test]
fn missing_arguments_are_usage_errors() {
    assert!(matches!(parse(&args(&[])), Err(CliError::Usage(_))));
    assert!(matches!(parse(&args(&["one-piece", "set", "category"])), Err(CliError::Usage(_))));
    assert!(matches!(parse(&args(&["one-piece"])), Err(CliError::Usage(_))));
    assert_eq!(usage_message(parse(&args(&[]))), "no command given");
    assert_eq!(usage_message(parse(&args(&["one-piece"]))), "one-piece: expected set|show|rm");
    assert_eq!(usage_message(parse(&args(&["one-piece", "set", "category"]))), "set: expected <value>");
    assert_eq!(usage_message(parse(&args(&["op", "dance"]))), "op: unknown verb \"dance\"");
    assert_eq!(usage_message(parse(&args(&["categories", "add", "x", "-v"]))), "categories add: unknown flag \"-v\"");
    assert_eq!(usage_message(parse(&args(&["source"]))), "source: expected list|add|test");
}

fn categories() -> Vec<CategoryDef> {
    vec![
        CategoryDef { name: "liked".into(), notify: true, auto_download: true },
        CategoryDef { name: "normal".into(), notify: true, auto_download: false },
        CategoryDef { name: "uninterested".into(), notify: false, auto_download: false },
    ]
}

#[test]
fn resolves_by_unambiguous_single_letter() {
    let cats = categories();
    assert_eq!(resolve_category("l", &cats).unwrap(), "liked");
    assert_eq!(resolve_category("n", &cats).unwrap(), "normal");
    assert_eq!(resolve_category("u", &cats).unwrap(), "uninterested");
}

#[test]
fn resolves_exact_match_even_if_a_prefix_of_another() {
    let mut cats = categories();
    cats.push(CategoryDef { name: "liked-extra".into(), notify: true, auto_download: true });
    assert_eq!(resolve_category("liked", &cats).unwrap(), "liked");
}

#[test]
fn ambiguous_prefix_lists_candidates() {
    let mut cats = categories();
    cats.push(CategoryDef { name: "notified".into(), notify: true, auto_download: false });
    match resolve_category("n", &cats).unwrap_err() {
        CliError::AmbiguousCategory(input, candidates) => {
            assert_eq!(input, "n");
            assert_eq!(candidates, "normal, notified");
        }
        other => panic!("expected AmbiguousCategory, got {other:?}"),
    }
    assert!(matches!(resolve_category("no", &cats), Err(CliError::AmbiguousCategory(_, _))));
    assert_eq!(resolve_category("nor", &cats).unwrap(), "normal");
    assert_eq!(resolve_category("not", &cats).unwrap(), "notified");
}

#[test]
fn unknown_category_is_reported() {
    let cats = categories();
    assert!(matches!(resolve_category("xyz", &cats), Err(CliError::UnknownCategory(_))));
}

fn row(id: i64, title: &str, category: &str) -> SeriesRow {
    SeriesRow {
        id,
        source_id: "subsplease".into(),
        title: title.into(),
        alias: None,
        category: category.into(),
        last_episode: None,
        last_interaction_at: None,
        cover_url: None,
    }
}

#[test]
fn duplicate_title_is_ambiguous_and_changes_nothing() {
    let err = choose_by_title("One Piece", vec![row(1, "One Piece", "normal"), row(2, "One Piece", "normal")])
        .unwrap_err();
    assert!(matches!(err, CliError::AmbiguousName(_, 2)));
    assert_eq!(
        err.message(),
        "\"One Piece\" matches 2 shows with that name; use the numeric id or an alias instead"
    );
}

#[test]
fn unknown_selector_is_not_found() {
    let err = choose_by_title("nope", Vec::new()).unwrap_err();
    assert!(matches!(err, CliError::NotFound(_)));
    assert_eq!(choose_by_title("x", vec![row(3, "x", "liked")]).unwrap().id, 3);
}

#[test]
fn rejects_duplicate_category() {
    let mut config = Config::default();
    let err = add_category(&mut config, "liked", true, true).unwrap_err();
    assert!(matches!(err, CliError::Usage(_)));
    assert_eq!(config.categories.len(), 3);
}

#[test]
fn add_and_remove_category_round_trips() {
    let mut config = Config::default();
    add_category(&mut config, "watching", true, false).unwrap();
    assert!(config.categories.iter().any(|c| c.name == "watching"));
    remove_category(&mut config, "watching").unwrap();
    assert!(!config.categories.iter().any(|c| c.name == "watching"));
    assert_eq!(config.categories.len(), 3);
    assert!(matches!(remove_category(&mut config, "watching"), Err(CliError::Usage(_))));
}

#[test]
fn refuses_to_remove_last_category() {
    let mut config = Config::default();
    config.categories.truncate(1);
    let only = config.categories[0].name.clone();
    let err = remove_category(&mut config, &only).unwrap_err();
    assert!(matches!(err, CliError::Usage(_)));
    assert_eq!(config.categories.len(), 1);
}

#[test]
fn add_source_round_trips_and_rejects_duplicates() {
    let mut config = Config::default();
    add_source(&mut config, "sources/subsplease.toml").unwrap();
    assert_eq!(config.sources, vec!["sources/subsplease.toml"]);
    let err = add_source(&mut config, "sources/subsplease.toml").unwrap_err();
    assert!(matches!(err, CliError::Usage(_)));
}

#[test]
fn empty_table_says_so() {
    assert_eq!(format_series_table(&Vec::new()), "(no shows tracked yet)\n");
}

#[test]
fn table_has_header_and_one_line_per_row() {
    let rows = vec![row(1, "One Piece", "liked"), row(2, "Naruto", "normal")];
    let out = format_series_table(&rows);
    let lines: Vec<&str> = out.lines().collect();
    assert_eq!(lines.len(), 4);
    assert!(lines[0].contains("ID"));
    assert!(lines[2].contains("One Piece"));
    assert!(lines[3].contains("Naruto"));
}

#[test]
fn missing_fields_render_as_dash() {
    let out = format_series_table(&vec![row(1, "One Piece", "liked")]);
    assert!(out.contains(" - "));
}

#[test]
fn table_columns_are_aligned() {
    let out = format_series_table(&vec![row(1, "One Piece", "liked")]);
    assert_eq!(
        out,
        "ID  Name       Category  Last Episode  Alias  Last Interaction\n\
         --  ---------  --------  ------------  -----  ----------------\n\
         1   One Piece  liked     -             -      -\n"
    );
}

#[test]
fn series_detail_lists_history() {
    let history = vec![InteractionRow {
        id: 1,
        series_id: 1,
        kind: InteractionKind::Category,
        detail: Some("liked".into()),
        at: "2024-01-01T00:00:00+00:00".into(),
    }];
    let out = format_series_detail(&row(1, "One Piece", "liked"), &history);
    assert!(out.ends_with("\nHistory:\n  2024-01-01T00:00:00+00:00  category -> liked\n"));
    let out = format_series_detail(&row(1, "One Piece", "liked"), &Vec::new());
    assert!(out.ends_with("\nHistory:\n  (no recorded interactions)\n"));
}

#[test]
fn categories_and_sources_listings() {
    let out = format_categories(&categories());
    assert!(out.starts_with("Name          Notify  Auto-download\n"));
    assert!(out.contains("\nliked         true    true\n"));
    assert_eq!(format_sources(&Vec::new()), "(no sources configured)\n");
    assert_eq!(format_sources(&vec!["a.toml".to_string(), "b.toml".to_string()]), "- a.toml\n- b.toml\n");
}

#[test]
fn extraction_result_lists_releases_then_warnings() {
    let result = ExtractionResult {
        releases: vec![Release {
            source_id: "subsplease".into(),
            series_title: "One Piece".into(),
            episode: "1121".into(),
            season: None,
            resolution: "1080".into(),
            method: DownloadMethod::Magnet,
            link: "magnet:?xt=aaa".into(),
            cover_url: None,
            source_icon_url: None,
            show_url: None,
            raw_id: None,
            version: 1,
        }],
        warnings: vec!["item 2: missing required field 'series'".into()],
    };
    let out = format_extraction_result(&result);
    assert!(out.contains("1 release(s) extracted"));
    assert!(out.contains("One Piece"));
    assert!(out.contains("1 warning(s)"));
    assert!(out.contains("missing required field"));
    assert_eq!(
        out,
        "1 release(s) extracted\n- One Piece ep 1121 [1080] magnet -> magnet:?xt=aaa\n\n1 warning(s):\n- item 2: missing required field 'series'\n"
    );
}

#[test]
fn reports_print_what_changed() {
    let added = Report::CategoryAdded { name: "liked".into(), notify: true, auto_download: false };
    assert_eq!(added.message(), "Added category \"liked\" (notify=true, auto_download=false)\n");
    assert_eq!(Report::CategoryRemoved { name: "meh".into() }.message(), "Removed category \"meh\"\n");
    assert_eq!(
        Report::SourceAdded { location: "https://x/p.toml".into() }.message(),
        "Added source \"https://x/p.toml\"\n"
    );
    assert_eq!(
        Report::SeriesRemoved { title: "One Piece".into(), id: -3 }.message(),
        "Removed \"One Piece\" (id -3)\n"
    );
    assert_eq!(
        Report::NoLogFile { dir: "/logs".into() }.message(),
        "No log file found yet at /logs \u{2014} has `anime-notif serve` been run?\n"
    );
    assert_eq!(Report::LogDir { dir: "/logs".into() }.message(), "/logs\n");
}

#[test]
fn rendered_tables_have_a_line_per_row_without_trailing_space() {
    let headers = vec!["ID".to_string(), "Name".to_string(), "Alias".to_string()];
    let rows = vec![
        vec!["1".to_string(), "One Piece".to_string(), "".to_string()],
        vec!["22".to_string(), "Naruto".to_string(), "n".to_string()],
    ];
    let out = render(&headers, &rows);
    assert!(out.ends_with('\n'));
    let lines: Vec<&str> = out.split_terminator('\n').collect();
    assert_eq!(lines.len(), rows.len() + 2);
    for line in &lines {
        assert_eq!(line.trim_end(), *line);
    }
    assert_eq!(lines[1], "--  ---------  -----");
}

#[test]
fn selectors_prefer_id_then_alias_then_a_unique_title() {
    let a = row(1, "One Piece", "normal");
    let b = row(2, "One Piece", "normal");
    assert_eq!(resolve_selected("1", Some(a.clone()), Some(b.clone()), vec![]).unwrap().id, 1);
    assert_eq!(resolve_selected("op", None, Some(b.clone()), vec![a.clone()]).unwrap().id, 2);
    assert_eq!(resolve_selected("One Piece", None, None, vec![a.clone()]).unwrap().id, 1);
    assert!(matches!(
        resolve_selected("One Piece", None, None, vec![a, b]),
        Err(CliError::AmbiguousName(_, 2))
    ));
    assert!(matches!(resolve_selected("x", None, None, vec![]), Err(CliError::NotFound(_))));
}

#[test]
fn set_edits_category_or_alias_and_refuses_other_fields() {
    let cats = vec![
        CategoryDef { name: "liked".into(), notify: true, auto_download: true },
        CategoryDef { name: "normal".into(), notify: true, auto_download: false },
        CategoryDef { name: "noisy".into(), notify: true, auto_download: false },
    ];
    assert_eq!(plan_set("category", "li", &cats).unwrap(), FieldEdit::Category("liked".into()));
    assert_eq!(plan_set("alias", "op", &cats).unwrap(), FieldEdit::Alias("op".into()));
    assert!(matches!(plan_set("category", "no", &cats), Err(CliError::AmbiguousCategory(_, _))));
    assert!(matches!(plan_set("category", "zzz", &cats), Err(CliError::UnknownCategory(_))));
    match plan_set("bogus", "x", &cats) {
        Err(CliError::UnknownField(f)) => assert_eq!(f, "bogus"),
        other => panic!("expected an unknown field, got {other:?}"),
    }
}
