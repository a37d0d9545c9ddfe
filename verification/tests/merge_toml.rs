use hypnagogic_core::config::document::Document;
use hypnagogic_core::config::syntax::read_toml;
use hypnagogic_core::util::deep_merge;

#[test]
fn deep_merge_simple() {
    let left_string = r#"
            foo = "left"
            bar = "left"
            "#;

    let mut left = read_toml(left_string).unwrap();

    let right_string = r#"
            bar = "right"
            baz = "right"
            "#;

    let right = read_toml(right_string).unwrap();

    deep_merge(&mut left, right);

    let expected_string = r#"
            foo = "left"
            bar = "right"
            baz = "right"
            "#;
    let expected = read_toml(expected_string).unwrap();

    assert_eq!(left, expected);
}

#[test]
fn deep_merge_1_layer() {
    let left_string = r#"
            foo = "left"
            bar = "left"
            
            [inner]
            foo = "left"
            bar = "left"
            "#;

    let mut left = read_toml(left_string).unwrap();

    let right_string = r#"
            bar = "right"
            baz = "right"
            
            [inner]
            bar = "right"
            baz = "right"
            "#;

    let right = read_toml(right_string).unwrap();

    deep_merge(&mut left, right);

    let expected_string = r#"
            foo = "left"
            bar = "right"
            baz = "right"
            
            [inner]
            foo = "left"
            bar = "right"
            baz = "right"
            "#;
    let expected = read_toml(expected_string).unwrap();

    assert_eq!(left, expected);
}

#[test]
fn deep_merge_3_layer() {
    let left_string = r#"
            foo = "left"
            bar = "left"
            
            [inner.foo1]
            foo2 = { foo = "left", bar = "left" }
            bar2 = { foo = "left", bar = "left" }
            
            [inner.bar1]
            foo2 = { foo = "left", bar = "left" }
            bar2 = { foo = "left", bar = "left" }
            "#;

    let mut left = read_toml(left_string).unwrap();

    let right_string = r#"
            bar = "right"
            baz = "right"
            
            [inner.bar1]
            bar2 = { bar = "right", baz = "right"}
            baz2 = { bar = "right", baz = "right"}

            [inner.baz1]
            bar2 = { bar = "right", baz = "right"}
            baz2 = { bar = "right", baz = "right"}
            "#;

    let right = read_toml(right_string).unwrap();

    deep_merge(&mut left, right);

    let expected_string = r#"
            foo = "left"
            bar = "right"
            baz = "right"
            
            [inner.foo1]
            foo2 = { foo = "left", bar = "left" }
            bar2 = { foo = "left", bar = "left" }
            [inner.bar1]
            foo2 = { foo = "left", bar = "left" }
            bar2 = { foo = "left", bar = "right", baz = "right"}
            baz2 = { bar = "right", baz = "right"}
            [inner.baz1]
            bar2 = { bar = "right", baz = "right"}
            baz2 = { bar = "right", baz = "right"}
            "#;
    let expected = read_toml(expected_string).unwrap();

    assert_eq!(left, expected);
}

#[test]
fn reading_toml_keeps_every_kind_of_value() {
    let doc = read_toml(
        r#"
        text = "a"
        whole = -7
        real = 1.5
        flag = true
        day = 1979-05-27
        list = [1, "two", [3]]
        [table]
        inner = 2
        "#,
    )
    .unwrap();
    assert!(doc.is_well_formed());
    assert!(matches!(doc.get("text"), Some(Document::Text(text)) if text == "a"));
    assert!(matches!(doc.get("whole"), Some(Document::Integer(-7))));
    assert!(
        matches!(doc.get("real"), Some(Document::Real(bits)) if *bits == 1.5f64.to_bits())
    );
    assert!(matches!(doc.get("flag"), Some(Document::Boolean(true))));
    assert!(matches!(doc.get("day"), Some(Document::Datetime(text)) if text == "1979-05-27"));
    match doc.get("list") {
        Some(Document::Sequence(items)) => {
            assert_eq!(items.len(), 3);
            assert!(matches!(&items[0], Document::Integer(1)));
            assert!(matches!(&items[1], Document::Text(text) if text == "two"));
            assert!(matches!(&items[2], Document::Sequence(inner) if inner.len() == 1));
        }
        other => panic!("unexpected: {:?}", other),
    }
    assert!(matches!(doc.get("table").unwrap().get("inner"), Some(Document::Integer(2))));
    assert!(doc.get("missing").is_none());
}

#[test]
fn text_that_is_no_toml_is_refused() {
    assert!(read_toml("this is = = not toml").is_err());
    assert!(read_toml("a = 1\na = 2").is_err());
}

#[test]
fn merging_a_document_with_itself_changes_nothing() {
    let text = r#"
        a = 1
        b = [1, 2, 3]
        [c]
        d = "e"
        [c.f]
        g = true
        "#;
    let mut doc = read_toml(text).unwrap();
    let same = read_toml(text).unwrap();
    deep_merge(&mut doc, same.duplicate());
    assert_eq!(doc, same);
}

#[test]
fn sequences_and_scalars_are_replaced_not_merged() {
    let mut left = read_toml("list = [1, 2, 3]\nvalue = 1\n[table]\na = 1").unwrap();
    let right = read_toml("list = [9]\nvalue = \"text\"\ntable = 5").unwrap();
    deep_merge(&mut left, right);
    assert_eq!(left, read_toml("list = [9]\nvalue = \"text\"\ntable = 5").unwrap());

    let mut scalar = Document::Integer(1);
    deep_merge(&mut scalar, read_toml("a = 1").unwrap());
    assert_eq!(scalar, read_toml("a = 1").unwrap());

    let mut table = read_toml("a = 1").unwrap();
    deep_merge(&mut table, Document::Null);
    assert_eq!(table, Document::Null);
}

#[test]
fn documents_compare_whatever_the_order_of_their_keys() {
    let mut first = Document::new_mapping();
    first.insert("a".to_string(), Document::Integer(1));
    first.insert("b".to_string(), Document::text("x"));
    let mut second = Document::new_mapping();
    second.insert("b".to_string(), Document::text("x"));
    second.insert("a".to_string(), Document::Integer(1));
    assert_eq!(first, second);
    second.insert("a".to_string(), Document::Integer(2));
    assert_ne!(first, second);
    assert!(matches!(second.remove("a"), Some(Document::Integer(2))));
    assert!(second.remove("a").is_none());
    assert_ne!(first, second);
    let twice = Document::Mapping(vec![
        ("a".to_string(), Document::Null),
        ("a".to_string(), Document::Null),
    ]);
    assert!(!twice.is_well_formed());
}

#[test]
fn a_parsed_value_keeps_its_shape() {
    let value: toml::Value = toml::from_str(
        "name = \"wall\"\ncount = 3\nratio = 0.5\nflags = [true, false]\n\n[inner]\nlist = [[1, 2], [3]]\n",
    )
    .unwrap();
    let doc = hypnagogic_core::config::syntax::document_of_toml(value);
    assert!(doc.is_well_formed());
    assert_eq!(doc.get("name"), Some(&Document::Text("wall".to_string())));
    assert_eq!(doc.get("count"), Some(&Document::Integer(3)));
    assert_eq!(doc.get("ratio"), Some(&Document::Real(0.5f64.to_bits())));
    assert_eq!(
        doc.get("flags"),
        Some(&Document::Sequence(vec![Document::Boolean(true), Document::Boolean(false)]))
    );
    let inner = doc.get("inner").unwrap();
    assert_eq!(
        inner.get("list"),
        Some(&Document::Sequence(vec![
            Document::Sequence(vec![Document::Integer(1), Document::Integer(2)]),
            Document::Sequence(vec![Document::Integer(3)]),
        ]))
    );
}
