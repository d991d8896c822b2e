use snippet_runner::manifest::merge_tables;
use snippet_runner::parse::extract_manifest;
use snippet_runner::script::{merge_manifest, write_manifest, Error};
use toml::{Table, Value};

fn text(s: &str) -> Value {
    Value::String(s.to_string())
}

fn table(entries: Vec<(&str, Value)>) -> Table {
    let mut t = Table::new();
    for (key, value) in entries {
        t.insert(key.to_string(), value);
    }
    t
}

fn sub(entries: Vec<(&str, Value)>) -> Value {
    Value::Table(table(entries))
}

#[test]
fn merge_toml() {
    let first = table(vec![
        ("dependencies", sub(vec![("a", text("first"))])),
        ("profile", sub(vec![("foo", sub(vec![("incremental", Value::Boolean(false))]))])),
    ]);
    let second = table(vec![
        ("dependencies", sub(vec![("b", text("second"))])),
        ("profile", sub(vec![("foo", sub(vec![("incremental", Value::Boolean(true))]))])),
    ]);
    assert_eq!(
        merge_manifest(first, second).unwrap(),
        table(vec![
            ("dependencies", sub(vec![("a", text("first")), ("b", text("second"))])),
            ("profile", sub(vec![("foo", sub(vec![("incremental", Value::Boolean(true))]))])),
        ])
        .to_string()
    );
}

#[test]
fn merge_keeps_both_sides_and_lets_the_override_win() {
    let base = table(vec![
        ("dependencies", sub(vec![("a", text("1"))])),
        ("profile", sub(vec![("inc", Value::Boolean(false))])),
    ]);
    let over = table(vec![
        ("dependencies", sub(vec![("b", text("2"))])),
        ("profile", sub(vec![("inc", Value::Boolean(true))])),
    ]);
    assert_eq!(
        merge_tables(base, over).unwrap(),
        table(vec![
            ("dependencies", sub(vec![("a", text("1")), ("b", text("2"))])),
            ("profile", sub(vec![("inc", Value::Boolean(true))])),
        ])
    );
}

#[test]
fn merge_fails_where_a_table_meets_a_value() {
    let base = table(vec![("dependencies", text("none")), ("name", text("x"))]);
    let over = table(vec![("dependencies", sub(vec![("b", text("2"))]))]);
    assert!(merge_tables(base, over).is_err());
    let base = table(vec![("dependencies", text("none"))]);
    let over = table(vec![("dependencies", sub(vec![]))]);
    match merge_manifest(base, over) {
        Err(Error::Compiler(message)) => assert_eq!(
            message,
            "cannot merge manifests: cannot merge table and non-table values"
        ),
        other => panic!("unexpected {other:?}"),
    }
}

#[test]
fn merge_fails_on_a_conflict_at_any_depth() {
    let base = table(vec![(
        "a",
        sub(vec![("b", sub(vec![("c", Value::Integer(1)), ("d", Value::Integer(2))]))]),
    )]);
    let over = table(vec![(
        "a",
        sub(vec![("b", sub(vec![("c", sub(vec![("deep", Value::Integer(3))]))]))]),
    )]);
    assert!(merge_tables(base, over).is_err());
}

#[test]
fn merge_descends_into_every_level() {
    let base = table(vec![
        ("keep", Value::Integer(1)),
        (
            "a",
            sub(vec![
                ("left", text("base")),
                ("b", sub(vec![("c", Value::Integer(1)), ("only_base", Value::Integer(2))])),
            ]),
        ),
    ]);
    let over = table(vec![
        ("new", sub(vec![("x", Value::Integer(9))])),
        (
            "a",
            sub(vec![
                ("right", text("over")),
                ("b", sub(vec![("c", Value::Integer(7)), ("only_over", Value::Integer(8))])),
            ]),
        ),
    ]);
    assert_eq!(
        merge_tables(base, over).unwrap(),
        table(vec![
            ("keep", Value::Integer(1)),
            ("new", sub(vec![("x", Value::Integer(9))])),
            (
                "a",
                sub(vec![
                    ("left", text("base")),
                    ("right", text("over")),
                    (
                        "b",
                        sub(vec![
                            ("c", Value::Integer(7)),
                            ("only_base", Value::Integer(2)),
                            ("only_over", Value::Integer(8)),
                        ]),
                    ),
                ]),
            ),
        ])
    );
}

#[test]
fn merge_lets_a_value_replace_whatever_the_base_holds() {
    let base = table(vec![
        ("t", sub(vec![("inner", Value::Integer(1))])),
        ("v", Value::Integer(1)),
        ("list", Value::Array(vec![Value::Integer(1)])),
    ]);
    let over = table(vec![
        ("t", text("flat")),
        ("v", Value::Float(2.5)),
        ("list", Value::Array(vec![sub(vec![("k", Value::Integer(2))])])),
    ]);
    assert_eq!(
        merge_tables(base, over).unwrap(),
        table(vec![
            ("t", text("flat")),
            ("v", Value::Float(2.5)),
            ("list", Value::Array(vec![sub(vec![("k", Value::Integer(2))])])),
        ])
    );
}

#[test]
fn merge_with_an_empty_side() {
    let some = table(vec![("a", sub(vec![("b", Value::Integer(1))])), ("c", text("d"))]);
    assert_eq!(merge_tables(some.clone(), Table::new()).unwrap(), some);
    assert_eq!(merge_tables(Table::new(), some.clone()).unwrap(), some);
    assert_eq!(merge_tables(Table::new(), Table::new()).unwrap(), Table::new());
    let empty_sub = table(vec![("a", sub(vec![]))]);
    assert_eq!(merge_tables(some.clone(), empty_sub).unwrap(), some);
}

#[test]
fn merge_is_not_symmetric() {
    let one = table(vec![("k", Value::Integer(1))]);
    let two = table(vec![("k", Value::Integer(2))]);
    assert_eq!(merge_tables(one.clone(), two.clone()).unwrap(), two);
    assert_eq!(merge_tables(two, one.clone()).unwrap(), one);
}

#[test]
fn parse_and_print_go_through_the_toml_crate() {
    let (parsed, _) = extract_manifest("where cargo: {[dependencies]\nserde = \"1\"\n}").unwrap();
    let parsed = parsed.unwrap();
    assert_eq!(parsed, table(vec![("dependencies", sub(vec![("serde", text("1"))]))]));
    assert_eq!(
        merge_manifest(Table::new(), parsed).unwrap(),
        "[dependencies]\nserde = \"1\"\n"
    );
    assert_eq!(merge_manifest(Table::new(), Table::new()).unwrap(), "");
}

#[test]
fn write_manifest_takes_the_printer_s_answer() {
    assert_eq!(write_manifest(Ok("a = 1\n".to_string())).unwrap(), "a = 1\n");
    match write_manifest(Err("unsupported".to_string())) {
        Err(Error::Internal(message)) => assert_eq!(message, "unsupported"),
        other => panic!("unexpected {other:?}"),
    }
}

#[test]
fn merge_error_in_words() {
    let base = table(vec![("k", Value::Integer(1))]);
    let over = table(vec![("k", sub(vec![]))]);
    assert_eq!(
        merge_tables(base, over).unwrap_err().message(),
        "cannot merge manifests: cannot merge table and non-table values"
    );
}
