use surql_builder::QueryBuilder;
use surql_builder::ScriptBuilder;

#[test]
fn script_builder_example() {
    let mut qb1 = QueryBuilder::new();
    qb1.from("widget").where_simple("status != \"archived\"");
    let mut qb2 = QueryBuilder::new();
    qb2.select("count()", None)
        .from("widget")
        .where_simple("status != \"archived\"");

    let mut sb = ScriptBuilder::new();
    sb.let_query("widget_list", &qb1).unwrap();
    sb.let_query_with_suffix("widget_count", &qb2, "[0].count").unwrap();
    sb.returning(vec![("widgets", "$widget_list"), ("count", "$widget_count")]);

    let script = sb.build().unwrap();
    let expected = "LET $widget_list = (SELECT * FROM widget WHERE status != \"archived\");\nLET $widget_count = (SELECT count() FROM widget WHERE status != \"archived\")[0].count;\nRETURN { widgets: $widget_list, count: $widget_count }";
    assert_eq!(script, expected);
}

#[test]
fn script_without_return_fails() {
    let mut sb = ScriptBuilder::new();
    sb.let_raw("a", "SELECT * FROM t");
    let err = sb.build().unwrap_err();
    assert_eq!(err, "A return object is required.");
}

#[test]
fn script_with_empty_return_fails() {
    let mut sb = ScriptBuilder::new();
    sb.returning(vec![]);
    let err = sb.build().unwrap_err();
    assert_eq!(err, "A return object is required.");
}

#[test]
fn script_single_pair_tail() {
    let mut sb = ScriptBuilder::new();
    sb.let_raw("widgets", "SELECT * FROM widget");
    sb.returning(vec![("items", "$widgets")]);
    let script = sb.build().unwrap();
    assert_eq!(
        script,
        "LET $widgets = (SELECT * FROM widget);\nRETURN { items: $widgets }"
    );
    assert!(script.ends_with("RETURN { items: $widgets }"));
    assert!(!script.ends_with("\n"));
}

#[test]
fn script_return_only() {
    let mut sb = ScriptBuilder::new();
    sb.returning(vec![("answer", "42")]);
    assert_eq!(sb.build().unwrap(), "RETURN { answer: 42 }");
}

#[test]
fn script_let_raw_with_suffix() {
    let mut sb = ScriptBuilder::new();
    sb.let_raw_with_suffix("first", "SELECT * FROM a", "[0]");
    sb.returning(vec![("first", "$first")]);
    assert_eq!(
        sb.build().unwrap(),
        "LET $first = (SELECT * FROM a)[0];\nRETURN { first: $first }"
    );
}

#[test]
fn script_propagates_missing_from() {
    let qb = QueryBuilder::new();
    let mut sb = ScriptBuilder::new();
    let err = sb.let_query("x", &qb).unwrap_err();
    assert_eq!(err, "The FROM clause is required.");
    let err2 = sb.let_query_with_suffix("y", &qb, "[0]").unwrap_err();
    assert_eq!(err2, "The FROM clause is required.");
    // the failed calls left the script unchanged
    sb.returning(vec![("k", "$v")]);
    assert_eq!(sb.build().unwrap(), "RETURN { k: $v }");
}

#[test]
fn script_returning_replaces_pairs() {
    let mut sb = ScriptBuilder::new();
    sb.returning(vec![("a", "1"), ("b", "2")]);
    sb.returning(vec![("c", "3")]);
    assert_eq!(sb.build().unwrap(), "RETURN { c: 3 }");
}
