//! Parsing of the JSON values source responses are read as, and the jq
//! paths evaluated over them.

use anime_notif::jqpath::JqPath;
use anime_notif::json::Json;

fn s(text: &str) -> Json {
    Json::Str(text.to_string())
}

fn n(text: &str) -> Json {
    Json::Number(text.to_string())
}

fn obj(members: Vec<(&str, Json)>) -> Json {
    Json::Object(members.into_iter().map(|(k, v)| (k.to_string(), v)).collect())
}

fn numbers(values: Vec<&Json>) -> Vec<String> {
    values
        .into_iter()
        .map(|v| match v {
            Json::Number(t) => t.clone(),
            other => panic!("not a number: {other:?}"),
        })
        .collect()
}

#[test]
fn identity_path() {
    let p = JqPath::parse(".").unwrap();
    let v = obj(vec![("a", n("1"))]);
    assert_eq!(p.eval_all(&v), vec![&v]);
}

#[test]
fn field_access() {
    let p = JqPath::parse(".a.b").unwrap();
    let v = obj(vec![("a", obj(vec![("b", n("42"))]))]);
    assert_eq!(p.eval_first(&v), Some(&n("42")));
}

#[test]
fn missing_field_yields_nothing() {
    let p = JqPath::parse(".a.missing").unwrap();
    let v = obj(vec![("a", obj(vec![("b", n("42"))]))]);
    assert_eq!(p.eval_first(&v), None);
}

#[test]
fn iterate_array() {
    let p = JqPath::parse(".items[]").unwrap();
    let v = obj(vec![("items", Json::Array(vec![n("1"), n("2"), n("3")]))]);
    assert_eq!(numbers(p.eval_all(&v)), vec!["1", "2", "3"]);
}

#[test]
fn iterate_object_values() {
    let p = JqPath::parse(".[]").unwrap();
    let v = obj(vec![
        ("naruto", obj(vec![("episode", n("2"))])),
        ("one-piece", obj(vec![("episode", n("1"))])),
    ]);
    assert_eq!(p.eval_all(&v).len(), 2);
}

#[test]
fn chained_iterate_and_field() {
    let p = JqPath::parse(".shows[].episode").unwrap();
    let v = obj(vec![(
        "shows",
        Json::Array(vec![obj(vec![("episode", n("1"))]), obj(vec![("episode", n("2"))])]),
    )]);
    assert_eq!(numbers(p.eval_all(&v)), vec!["1", "2"]);
}

#[test]
fn index_and_negative_index() {
    let v = obj(vec![("a", Json::Array(vec![n("10"), n("20"), n("30")]))]);
    assert_eq!(JqPath::parse(".a[0]").unwrap().eval_first(&v), Some(&n("10")));
    assert_eq!(JqPath::parse(".a[-1]").unwrap().eval_first(&v), Some(&n("30")));
}

#[test]
fn rejects_paths_without_leading_dot() {
    assert!(JqPath::parse("a.b").is_err());
}

#[test]
fn rejects_unclosed_bracket() {
    assert!(JqPath::parse(".a[").is_err());
}

#[test]
fn out_of_range_index_reaches_nothing() {
    let v = obj(vec![("a", Json::Array(vec![n("10")]))]);
    assert_eq!(JqPath::parse(".a[3]").unwrap().eval_first(&v), None);
    assert_eq!(JqPath::parse(".a[-2]").unwrap().eval_first(&v), None);
}

#[test]
fn field_of_a_non_object_reaches_nothing() {
    let v = obj(vec![("a", s("text"))]);
    assert!(JqPath::parse(".a.b").unwrap().eval_all(&v).is_empty());
    assert!(JqPath::parse(".a[]").unwrap().eval_all(&v).is_empty());
}

#[test]
fn surrounding_whitespace_is_trimmed_and_raw_is_kept() {
    let p = JqPath::parse("  .a  ").unwrap();
    assert_eq!(p.as_str(), "  .a  ");
    let v = obj(vec![("a", s("x"))]);
    assert_eq!(p.eval_first(&v), Some(&s("x")));
}

#[test]
fn path_error_names_the_path_and_reason() {
    let err = JqPath::parse("a.b").unwrap_err();
    assert_eq!(err.raw(), "a.b");
    assert_eq!(err.reason(), "path must start with '.'");
    assert_eq!(err.message(), "invalid jq path \"a.b\": path must start with '.'");
}

#[test]
fn field_names_are_jq_identifiers() {
    assert!(JqPath::parse(".one-piece").is_err());
    assert!(JqPath::parse(".1a").is_err());
    assert!(JqPath::parse(".é").is_err());
    assert_eq!(JqPath::parse(".one_piece2").unwrap().as_str(), ".one_piece2");
    assert!(JqPath::parse("._x.y9[0]").is_ok());
}

#[test]
fn written_paths_parse_back_to_their_steps() {
    let root = obj(vec![(
        "a_1",
        Json::Array(vec![
            Json::Array(vec![n("1"), n("2")]),
            Json::Array(vec![n("3"), Json::Array(vec![n("4"), n("5")])]),
        ]),
    )]);
    let p = JqPath::parse(".a_1[-1][1][]").unwrap();
    assert_eq!(numbers(p.eval_all(&root)), vec!["4", "5"]);
    let q = JqPath::parse(".[0]").unwrap();
    assert!(q.eval_all(&root).is_empty());
    assert!(JqPath::parse(".").is_ok());
    assert!(JqPath::parse(".[]").is_ok());
}

#[test]
fn paths_without_iteration_reach_at_most_one_value() {
    let root = obj(vec![("a", Json::Array(vec![obj(vec![("b", n("1"))]), obj(vec![("b", n("2"))])]))]);
    assert_eq!(numbers(JqPath::parse(".a[1].b").unwrap().eval_all(&root)), vec!["2"]);
    assert!(JqPath::parse(".a.b").unwrap().eval_all(&root).is_empty());
    assert_eq!(JqPath::parse(".a").unwrap().eval_all(&root).len(), 1);
    assert_eq!(numbers(JqPath::parse(".a[].b").unwrap().eval_all(&root)), vec!["1", "2"]);
}
