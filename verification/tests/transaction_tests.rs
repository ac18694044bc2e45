use surql_builder::QueryBuilder;
use surql_builder::ScriptBuilder;
use surql_builder::TransactionBuilder;

#[test]
fn transaction_builder_commit_example() {
    let mut qb_create1 = QueryBuilder::new();
    qb_create1.from("widget:one").select("", None);

    let mut tb = TransactionBuilder::new();
    tb.begin()
        .add_statement("CREATE widget:one SET value = 100")
        .add_statement("CREATE widget:two SET value = 50")
        .add_statement("UPDATE widget:one SET value += 10")
        .add_statement("UPDATE widget:two SET value -= 10")
        .commit();

    let script = tb.build();
    let expected_start = "BEGIN TRANSACTION;\nCREATE widget:one SET value = 100;";
    assert!(script.starts_with(expected_start));
    assert!(script.contains("COMMIT TRANSACTION;"));
}

#[test]
fn transaction_builder_cancel_example() {
    let mut tb = TransactionBuilder::new();
    tb.begin()
        .add_statement("CREATE widget:one SET value = 100")
        .add_statement("UPDATE widget:one SET value -= 200")
        .cancel();

    let script = tb.build();
    assert!(script.contains("CANCEL TRANSACTION;"));
    assert!(script.contains("CREATE widget:one SET value = 100;"));
}

#[test]
fn add_statement_semicolon_idempotent() {
    let mut with_semi = TransactionBuilder::new();
    with_semi.add_statement("X;");
    let mut without_semi = TransactionBuilder::new();
    without_semi.add_statement("X");
    assert_eq!(with_semi.build(), "X;");
    assert_eq!(without_semi.build(), "X;");
}

#[test]
fn add_statement_trims_whitespace() {
    let mut tb = TransactionBuilder::new();
    tb.add_statement("  CREATE t SET v = 1  ");
    assert_eq!(tb.build(), "CREATE t SET v = 1;");
}

#[test]
fn add_statement_trims_unicode_whitespace() {
    let mut tb = TransactionBuilder::new();
    tb.add_statement("\u{3000}\u{a0}CREATE t\u{2028} ");
    assert_eq!(tb.build(), "CREATE t;");
}

#[test]
fn add_statement_empty_becomes_semicolon() {
    let mut tb = TransactionBuilder::new();
    tb.add_statement("");
    assert_eq!(tb.build(), ";");
}

#[test]
fn transaction_add_query() {
    let mut qb = QueryBuilder::new();
    qb.from("widget").limit(2);
    let mut tb = TransactionBuilder::new();
    tb.begin();
    tb.add_query(&qb).unwrap();
    tb.commit();
    assert_eq!(
        tb.build(),
        "BEGIN TRANSACTION;\nSELECT * FROM widget LIMIT 2;\nCOMMIT TRANSACTION;"
    );
}

#[test]
fn transaction_add_query_with_suffix() {
    let mut qb = QueryBuilder::new();
    qb.from("widget");
    let mut tb = TransactionBuilder::new();
    tb.add_query_with_suffix(&qb, "[0].id").unwrap();
    assert_eq!(tb.build(), "(SELECT * FROM widget)[0].id;");
}

#[test]
fn transaction_propagates_missing_from() {
    let qb = QueryBuilder::new();
    let mut tb = TransactionBuilder::new();
    assert_eq!(tb.add_query(&qb).unwrap_err(), "The FROM clause is required.");
    assert_eq!(
        tb.add_query_with_suffix(&qb, "[0]").unwrap_err(),
        "The FROM clause is required."
    );
    // the failed calls left the transaction unchanged
    assert_eq!(tb.build(), "");
}

#[test]
fn transaction_add_script_verbatim() {
    let mut sb = ScriptBuilder::new();
    sb.let_raw("a", "SELECT * FROM t");
    sb.returning(vec![("a", "$a")]);
    let script = sb.build().unwrap();

    let mut tb = TransactionBuilder::new();
    tb.begin();
    tb.add_script(script.as_str());
    tb.commit();
    assert_eq!(
        tb.build(),
        "BEGIN TRANSACTION;\nLET $a = (SELECT * FROM t);\nRETURN { a: $a }\nCOMMIT TRANSACTION;"
    );
}

#[test]
fn transaction_build_never_fails_when_empty() {
    let tb = TransactionBuilder::new();
    assert_eq!(tb.build(), "");
}
