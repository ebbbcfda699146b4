use guru::expressions::{add, node_at, split_name, update_value, Expression, Placed, Report};

fn report(full_name: &str, value: &str) -> Report {
    Report {
        full_name: full_name.to_string(),
        expr: format!("expr of {}", full_name),
        value: value.to_string(),
        type_: "int".to_string(),
    }
}

fn node(full_name: &str, name: &str, value: &str, children: Vec<Expression>) -> Expression {
    Expression {
        full_name: full_name.to_string(),
        name: name.to_string(),
        expr: format!("expr of {}", full_name),
        value: Some(value.to_string()),
        type_: Some("int".to_string()),
        children,
    }
}

#[test]
fn name_is_split_at_its_dots() {
    assert_eq!(split_name("var1"), vec!["var1"]);
    assert_eq!(split_name("var1.x"), vec!["var1", "x"]);
    assert_eq!(split_name("var1.x.y"), vec!["var1", "x", "y"]);
    assert_eq!(split_name(""), vec![""]);
    assert_eq!(split_name("."), vec!["", ""]);
    assert_eq!(split_name("a..b"), vec!["a", "", "b"]);
    assert_eq!(split_name("a."), vec!["a", ""]);
    assert_eq!(split_name(".a"), vec!["", "a"]);
    assert_eq!(split_name("h\u{e9}.\u{2192}"), vec!["h\u{e9}", "\u{2192}"]);
    for s in ["", ".", "..", "a.b", "a..", "x.y.z.", "no dots"] {
        let expected: Vec<String> = s.split('.').map(|p| p.to_string()).collect();
        assert_eq!(split_name(s), expected);
    }
}

#[test]
fn name_without_dot_is_a_new_expression() {
    let mut roots = vec![];
    assert_eq!(add(&mut roots, report("a", "1")), Placed::Top);
    assert_eq!(add(&mut roots, report("b", "2")), Placed::Top);
    assert_eq!(roots, vec![node("a", "a", "1", vec![]), node("b", "b", "2", vec![])]);
}

#[test]
fn expression_of_a_known_name_is_added_again() {
    let mut roots = vec![];
    assert_eq!(add(&mut roots, report("a", "1")), Placed::Top);
    assert_eq!(add(&mut roots, report("a", "2")), Placed::Top);
    assert_eq!(roots, vec![node("a", "a", "1", vec![]), node("a", "a", "2", vec![])]);
}

#[test]
fn member_goes_under_its_parent() {
    let mut roots = vec![];
    add(&mut roots, report("a", "1"));
    add(&mut roots, report("b", "2"));
    assert_eq!(add(&mut roots, report("b.x", "3")), Placed::Child(vec![1]));
    assert_eq!(add(&mut roots, report("b.y", "4")), Placed::Child(vec![1]));
    assert_eq!(add(&mut roots, report("b.y.z", "5")), Placed::Child(vec![1, 1]));
    assert_eq!(add(&mut roots, report("a.x", "6")), Placed::Child(vec![0]));
    assert_eq!(
        roots,
        vec![
            node("a", "a", "1", vec![node("a.x", "x", "6", vec![])]),
            node(
                "b",
                "b",
                "2",
                vec![
                    node("b.x", "x", "3", vec![]),
                    node("b.y", "y", "4", vec![node("b.y.z", "z", "5", vec![])]),
                ]
            ),
        ]
    );
}

#[test]
fn known_member_is_replaced_and_keeps_its_members() {
    let mut roots = vec![];
    add(&mut roots, report("a", "1"));
    add(&mut roots, report("a.x", "2"));
    add(&mut roots, report("a.y", "3"));
    add(&mut roots, report("a.y.z", "4"));
    assert_eq!(add(&mut roots, report("a.y", "30")), Placed::Update(vec![0, 1]));
    assert_eq!(add(&mut roots, report("a.y.z", "40")), Placed::Update(vec![0, 1, 0]));
    assert_eq!(add(&mut roots, report("a.x", "20")), Placed::Update(vec![0, 0]));
    assert_eq!(
        roots,
        vec![node(
            "a",
            "a",
            "1",
            vec![
                node("a.x", "x", "20", vec![]),
                node("a.y", "y", "30", vec![node("a.y.z", "z", "40", vec![])]),
            ]
        )]
    );
}

#[test]
fn member_goes_under_the_first_expression_of_its_name() {
    let mut roots = vec![];
    add(&mut roots, report("a", "1"));
    add(&mut roots, report("a", "2"));
    assert_eq!(add(&mut roots, report("a.x", "3")), Placed::Child(vec![0]));
    assert_eq!(roots[0].children.len(), 1);
    assert_eq!(roots[1].children.len(), 0);
}

#[test]
fn member_of_an_unknown_expression_is_dropped() {
    let mut roots = vec![];
    add(&mut roots, report("a", "1"));
    assert_eq!(add(&mut roots, report("b.x", "2")), Placed::Unknown);
    assert_eq!(add(&mut roots, report(".x", "2")), Placed::Unknown);
    assert_eq!(roots, vec![node("a", "a", "1", vec![])]);
    let mut none = vec![];
    assert_eq!(add(&mut none, report("a.x", "1")), Placed::Unknown);
    assert_eq!(none, vec![]);
}

#[test]
fn member_whose_parent_is_unknown_is_too_deep() {
    let mut roots = vec![];
    add(&mut roots, report("a", "1"));
    assert_eq!(add(&mut roots, report("a.x.y", "2")), Placed::TooDeep);
    assert_eq!(add(&mut roots, report("a.x.y.z", "2")), Placed::TooDeep);
    assert_eq!(roots, vec![node("a", "a", "1", vec![])]);
    add(&mut roots, report("a.x", "3"));
    assert_eq!(add(&mut roots, report("a.x.y.z", "2")), Placed::TooDeep);
    assert_eq!(add(&mut roots, report("a.x.y", "2")), Placed::Child(vec![0, 0]));
}

#[test]
fn node_at_a_place() {
    let mut roots = vec![];
    add(&mut roots, report("a", "1"));
    add(&mut roots, report("b", "2"));
    add(&mut roots, report("b.x", "3"));
    add(&mut roots, report("b.y", "4"));
    add(&mut roots, report("b.y.z", "5"));
    assert_eq!(node_at(&roots, &vec![0]).map(|n| n.full_name.as_str()), Some("a"));
    assert_eq!(node_at(&roots, &vec![1]).map(|n| n.full_name.as_str()), Some("b"));
    assert_eq!(node_at(&roots, &vec![1, 0]).map(|n| n.full_name.as_str()), Some("b.x"));
    assert_eq!(node_at(&roots, &vec![1, 1, 0]).map(|n| n.full_name.as_str()), Some("b.y.z"));
    assert_eq!(node_at(&roots, &vec![1, 1]).map(|n| n.children.len()), Some(1));
    assert_eq!(node_at(&roots, &vec![]), None);
    assert_eq!(node_at(&roots, &vec![2]), None);
    assert_eq!(node_at(&roots, &vec![0, 0]), None);
    assert_eq!(node_at(&roots, &vec![1, 2]), None);
    assert_eq!(node_at(&roots, &vec![1, 1, 0, 0]), None);
    assert_eq!(node_at(&vec![], &vec![0]), None);
}

#[test]
fn value_of_a_node_is_updated() {
    let mut roots = vec![];
    add(&mut roots, report("a", "1"));
    add(&mut roots, report("b", "2"));
    add(&mut roots, report("b.x", "3"));
    assert_eq!(update_value(&mut roots, "b", "20".to_string()), Some(vec![1]));
    assert_eq!(update_value(&mut roots, "b.x", "30".to_string()), Some(vec![1, 0]));
    assert_eq!(
        roots,
        vec![
            node("a", "a", "1", vec![]),
            node("b", "b", "20", vec![node("b.x", "x", "30", vec![])]),
        ]
    );
}

#[test]
fn value_of_an_unknown_node_changes_nothing() {
    let mut roots = vec![];
    add(&mut roots, report("a", "1"));
    add(&mut roots, report("a.x", "2"));
    assert_eq!(update_value(&mut roots, "b", "9".to_string()), None);
    assert_eq!(update_value(&mut roots, "a.y", "9".to_string()), None);
    assert_eq!(update_value(&mut roots, "a.x.z", "9".to_string()), None);
    assert_eq!(update_value(&mut roots, "", "9".to_string()), None);
    assert_eq!(roots, vec![node("a", "a", "1", vec![node("a.x", "x", "2", vec![])])]);
}
