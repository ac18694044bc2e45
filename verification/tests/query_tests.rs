use surql_builder::Condition;
use surql_builder::Direction;
use surql_builder::GraphExpandParams;
use surql_builder::QueryBuilder;

#[test]
fn simple_select_from() {
    let sql = QueryBuilder::new().from("user").build().unwrap();
    assert_eq!(sql, "SELECT * FROM user");
}

#[test]
fn select_where_order_limit_start() {
    let sql = QueryBuilder::new()
        .select("id, name", None)
        .from("user")
        .where_simple("active = true")
        .order_by("name ASC")
        .limit(5)
        .start(10)
        .build()
        .unwrap();
    assert_eq!(
        sql,
        "SELECT id, name FROM user WHERE active = true ORDER BY name ASC LIMIT 5 START 10"
    );
}

#[test]
fn fetch_and_graph_expand() {
    let sql = QueryBuilder::new()
        .from("post")
        .fetch("comments")
        .graph_expand("likes")
        .build()
        .unwrap();
    assert_eq!(sql, "SELECT *, likes FROM post FETCH comments");
}

#[test]
fn complex_where_conditions() {
    let cond = Condition::And(vec![
        Condition::Simple(String::from("a = 1")),
        Condition::Or(vec![
            Condition::Simple(String::from("b = 2")),
            Condition::Simple(String::from("c = 3")),
        ]),
    ]);
    let sql = QueryBuilder::new()
        .from("t")
        .where_complex(cond)
        .build()
        .unwrap();
    assert_eq!(sql, "SELECT * FROM t WHERE (a = 1 AND (b = 2 OR c = 3))");
}

#[test]
fn missing_from_clause() {
    let err = QueryBuilder::new().build().unwrap_err();
    assert_eq!(err, "The FROM clause is required.");
}

#[test]
fn multi_fetch_and_graph_expand() {
    let sql = QueryBuilder::new()
        .from("tbl")
        .fetch("a")
        .fetch("b")
        .graph_expand("x")
        .graph_expand("y")
        .build()
        .unwrap();
    assert_eq!(sql, "SELECT *, x, y FROM tbl FETCH a, b");
}

#[test]
fn select_and_graph_expand() {
    let sql = QueryBuilder::new()
        .select("foo", None)
        .graph_expand("bar")
        .from("t")
        .build()
        .unwrap();
    assert_eq!(sql, "SELECT foo, bar FROM t");
}

#[test]
fn where_and_where_complex_equal() {
    let simple = QueryBuilder::new()
        .from("t")
        .where_simple("x = 1")
        .build()
        .unwrap();
    let complex = QueryBuilder::new()
        .from("t")
        .where_complex(Condition::Simple(String::from("x = 1")))
        .build()
        .unwrap();
    assert_eq!(simple, complex);
}

#[test]
fn full_chaining_all_clauses() {
    let sql = QueryBuilder::new()
        .select("a", None)
        .from("t")
        .where_simple("w")
        .fetch("f")
        .graph_expand("g")
        .order_by("o")
        .limit(1)
        .start(2)
        .build()
        .unwrap();
    assert_eq!(sql, "SELECT a, g FROM t WHERE w ORDER BY o LIMIT 1 START 2 FETCH f");
}

#[test]
fn graph_traverse_example() {
    let sql = QueryBuilder::new()
        .from("user")
        .graph_traverse(GraphExpandParams {
            from: (Direction::Out, String::from("friends")),
            to: (Direction::In, String::from("posts")),
            alias: Some(String::from("friend_posts")),
        })
        .build()
        .unwrap();
    assert_eq!(sql, "SELECT * FROM user ->friends->posts.* AS friend_posts");
}

#[test]
fn graph_traverse_in_out() {
    let sql = QueryBuilder::new()
        .from("x")
        .graph_traverse(GraphExpandParams {
            from: (Direction::In, String::from("t")),
            to: (Direction::Out, String::from("e")),
            alias: None,
        })
        .build()
        .unwrap();
    assert_eq!(sql, "SELECT * FROM x <-t->e.*");
}

#[test]
fn distinct_basic() {
    let sql = QueryBuilder::new().distinct().from("user").build().unwrap();
    assert_eq!(sql, "SELECT DISTINCT * FROM user");
}

#[test]
fn distinct_with_fields() {
    let sql = QueryBuilder::new()
        .distinct()
        .select("id, name", None)
        .from("user")
        .build()
        .unwrap();
    assert_eq!(sql, "SELECT DISTINCT id, name FROM user");
}

#[test]
fn distinct_with_graph_expand() {
    let sql = QueryBuilder::new()
        .distinct()
        .select("foo", None)
        .graph_expand("bar")
        .from("t")
        .build()
        .unwrap();
    assert_eq!(sql, "SELECT DISTINCT foo, bar FROM t");
}

#[test]
fn multiple_selects() {
    let sql = QueryBuilder::new()
        .select("id", None)
        .select("name", None)
        .from("users")
        .build()
        .unwrap();
    assert_eq!(sql, "SELECT id, name FROM users");
}

#[test]
fn select_with_alias() {
    let sql = QueryBuilder::new()
        .select("user_id", Some("uid"))
        .from("accounts")
        .build()
        .unwrap();
    assert_eq!(sql, "SELECT user_id AS uid FROM accounts");
}

#[test]
fn mixed_select_alias_and_plain() {
    let sql = QueryBuilder::new()
        .select("user_id", Some("uid"))
        .select("name", None)
        .from("accounts")
        .build()
        .unwrap();
    assert_eq!(sql, "SELECT user_id AS uid, name FROM accounts");
}

#[test]
fn build_twice_same_string() {
    let mut qb = QueryBuilder::new();
    qb.from("user").where_simple("active = true").limit(3);
    let first = qb.build().unwrap();
    let second = qb.build().unwrap();
    assert_eq!(first, second);
}

#[test]
fn build_twice_same_error() {
    let qb = QueryBuilder::new();
    assert_eq!(qb.build().unwrap_err(), qb.build().unwrap_err());
}

#[test]
fn end_to_end_canonical_order() {
    let sql = QueryBuilder::new()
        .from("user")
        .where_simple("active = true")
        .order_by("name ASC")
        .limit(5)
        .start(10)
        .build()
        .unwrap();
    assert_eq!(
        sql,
        "SELECT * FROM user WHERE active = true ORDER BY name ASC LIMIT 5 START 10"
    );
}

#[test]
fn order_by_preserves_call_order() {
    let sql = QueryBuilder::new()
        .from("t")
        .order_by("a DESC")
        .order_by("b ASC")
        .build()
        .unwrap();
    assert_eq!(sql, "SELECT * FROM t ORDER BY a DESC, b ASC");
}

#[test]
fn limit_zero_renders() {
    let sql = QueryBuilder::new().from("t").limit(0).build().unwrap();
    assert_eq!(sql, "SELECT * FROM t LIMIT 0");
}

#[test]
fn limit_largest_value_renders() {
    let sql = QueryBuilder::new().from("t").limit(u64::MAX).build().unwrap();
    assert_eq!(sql, "SELECT * FROM t LIMIT 18446744073709551615");
}

#[test]
fn from_overwrites_prior_table() {
    let sql = QueryBuilder::new().from("a").from("b").build().unwrap();
    assert_eq!(sql, "SELECT * FROM b");
}

#[test]
fn empty_condition_group_renders_empty_parentheses() {
    let sql = QueryBuilder::new()
        .from("t")
        .where_complex(Condition::And(vec![]))
        .build()
        .unwrap();
    assert_eq!(sql, "SELECT * FROM t WHERE ()");
}

#[test]
fn two_graph_traversals_space_separated() {
    let sql = QueryBuilder::new()
        .from("user")
        .graph_traverse(GraphExpandParams {
            from: (Direction::Out, String::from("knows")),
            to: (Direction::Out, String::from("person")),
            alias: None,
        })
        .graph_traverse(GraphExpandParams {
            from: (Direction::In, String::from("wrote")),
            to: (Direction::Out, String::from("post")),
            alias: Some(String::from("p")),
        })
        .build()
        .unwrap();
    assert_eq!(sql, "SELECT * FROM user ->knows->person.* <-wrote->post.* AS p");
}
