use hypnagogic_core::config::document::Document;
use hypnagogic_core::util::deep_merge;

/// Moves a value of `serde_yaml` into a document. The keys of the mappings
/// in these tests are all texts.
fn document_of(value: serde_yaml::Value) -> Document {
    match value {
        serde_yaml::Value::Null => Document::Null,
        serde_yaml::Value::Bool(flag) => Document::Boolean(flag),
        serde_yaml::Value::Number(number) => match number.as_i64() {
            Some(whole) => Document::Integer(whole),
            None => Document::Real(number.as_f64().unwrap().to_bits()),
        },
        serde_yaml::Value::String(text) => Document::Text(text),
        serde_yaml::Value::Sequence(items) => {
            Document::Sequence(items.into_iter().map(document_of).collect())
        }
        serde_yaml::Value::Mapping(entries) => Document::Mapping(
            entries
                .into_iter()
                .map(|(key, item)| (key.as_str().unwrap().to_string(), document_of(item)))
                .collect(),
        ),
        serde_yaml::Value::Tagged(tagged) => {
            Document::Tagged(tagged.tag.to_string(), Box::new(document_of(tagged.value)))
        }
    }
}

fn read_yaml(text: &str) -> Document {
    document_of(serde_yaml::from_str(text).unwrap())
}

#[test]
fn deep_merge_test_simple() {
    let left_string = "---
            foo: left
            bar: left
        ";
    let mut left = read_yaml(left_string);

    let right_string = "---
            bar: right
            baz: right
        ";
    let right = read_yaml(right_string);

    deep_merge(&mut left, right);

    let expected_string = "---
            foo: left
            bar: right
            baz: right
        ";
    let expected = read_yaml(expected_string);

    assert_eq!(left, expected);
}

#[test]
fn deep_merge_test_one_layer() {
    let left_string = "---
            foo: left
            bar: left
            inner:
                foo: left
                bar: left
        ";
    let mut left = read_yaml(left_string);

    let right_string = "---
            bar: right
            baz: right
            inner:
                bar: right
                baz: right
        ";
    let right = read_yaml(right_string);

    deep_merge(&mut left, right);

    let expected_string = "---
            foo: left
            bar: right
            baz: right
            inner:
                foo: left
                bar: right
                baz: right
        ";
    let expected = read_yaml(expected_string);

    assert_eq!(left, expected);
}

#[test]
fn deep_merge_test_three_layers() {
    let left_string = "---
            foo: left
            bar: left
            inner:
                foo1:
                    foo2:
                        foo: left
                        bar: left
                    bar2:
                        foo: left
                        bar: left 
                bar1:
                    foo2:
                        foo: left
                        bar: left
                    bar2:
                        foo: left
                        bar: left
        ";
    let mut left = read_yaml(left_string);

    let right_string = "---
            bar: right
            baz: right
            inner:
                bar1:
                    bar2:
                        bar: right
                        baz: right
                    baz2:
                        bar: right
                        baz: right
                baz1:
                    bar2:
                        bar: right
                        baz: right
                    baz2:
                        bar: right
                        baz: right
        ";
    let right = read_yaml(right_string);

    deep_merge(&mut left, right);

    let expected_string = "---
            foo: left
            bar: right
            baz: right
            inner:
                foo1:
                    foo2:
                        foo: left
                        bar: left
                    bar2:
                        foo: left
                        bar: left 
                bar1:
                    foo2:
                        foo: left
                        bar: left
                    bar2:
                        foo: left
                        bar: right
                        baz: right
                    baz2:
                        bar: right
                        baz: right
                baz1:
                    bar2:
                        bar: right
                        baz: right
                    baz2:
                        bar: right
                        baz: right
        ";
    let expected = read_yaml(expected_string);

    assert_eq!(left, expected);
}

#[test]
fn deep_merge_with_tags() {
    let left_string = "---
            foo: left
            bar: left
            inner: !tagged
                foo: left
                bar: left
        ";
    let mut left = read_yaml(left_string);

    let right_string = "---
            bar: right
            baz: right
            inner: !tagged
                bar: right
                baz: right
        ";
    let right = read_yaml(right_string);

    deep_merge(&mut left, right);

    let expected_string = "---
            foo: left
            bar: right
            baz: right
            inner: !tagged
                foo: left
                bar: right
                baz: right
        ";
    let expected = read_yaml(expected_string);

    assert_eq!(left, expected);
}

#[test]
fn a_changed_tag_replaces_the_value() {
    let mut left = read_yaml("inner: !first\n  foo: left\n  bar: left\n");
    let right = read_yaml("inner: !second\n  bar: right\n");
    deep_merge(&mut left, right);
    assert_eq!(left, read_yaml("inner: !second\n  bar: right\n"));

    let mut tagged = read_yaml("inner: !first\n  foo: left\n");
    deep_merge(&mut tagged, read_yaml("inner:\n  bar: right\n"));
    assert_eq!(tagged, read_yaml("inner:\n  bar: right\n"));
}
