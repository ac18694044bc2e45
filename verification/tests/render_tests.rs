use surql_builder::Condition;
use surql_builder::render_condition;

#[test]
fn render_leaf_verbatim() {
    let c = Condition::Simple(String::from("price > 50"));
    assert_eq!(render_condition(&c), "price > 50");
}

#[test]
fn render_nested_groups_exact() {
    let c = Condition::And(vec![
        Condition::Simple(String::from("a=1")),
        Condition::Or(vec![
            Condition::Simple(String::from("b=2")),
            Condition::Simple(String::from("c=3")),
        ]),
    ]);
    assert_eq!(render_condition(&c), "(a=1 AND (b=2 OR c=3))");
}

#[test]
fn render_twice_identical() {
    let c = Condition::Or(vec![
        Condition::Simple(String::from("x < 1")),
        Condition::And(vec![
            Condition::Simple(String::from("y = 2")),
            Condition::Simple(String::from("z != 3")),
        ]),
    ]);
    let first = render_condition(&c);
    let second = render_condition(&c);
    assert_eq!(first, second);
    assert_eq!(first, "(x < 1 OR (y = 2 AND z != 3))");
}

#[test]
fn render_empty_group_degenerate() {
    assert_eq!(render_condition(&Condition::And(vec![])), "()");
    assert_eq!(render_condition(&Condition::Or(vec![])), "()");
}

#[test]
fn render_single_child_group() {
    let c = Condition::Or(vec![Condition::Simple(String::from("a = 1"))]);
    assert_eq!(render_condition(&c), "(a = 1)");
}
