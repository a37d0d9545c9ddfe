use hypnagogic_core::config::document::Document;
use hypnagogic_core::config::error::ConfigError;
use hypnagogic_core::config::syntax::read_toml;
use hypnagogic_core::config::template_resolver::error::TemplateError;
use hypnagogic_core::config::template_resolver::{NullResolver, TemplateResolver};
use hypnagogic_core::config::{
    collapse, extract_template_string, read_document, resolve_templates, LATEST_VERSION,
    RECURSION_CAP,
};

fn mapping(entries: Vec<(&str, Document)>) -> Document {
    let mut doc = Document::new_mapping();
    for (key, value) in entries {
        doc.insert(key.to_string(), value);
    }
    doc
}

#[test]
fn extract_template_test() {
    let mut value = mapping(vec![
        ("template", Document::text("found")),
        ("still_there", Document::text("junk")),
    ]);

    let extracted = extract_template_string(&mut value).unwrap();

    let expected = "found".to_string();

    assert_eq!(extracted, expected);

    let expected_value = mapping(vec![("still_there", Document::text("junk"))]);

    assert_eq!(value, expected_value);
}

#[test]
fn mod_extract_template_test() {
    let mapping = r#"
        template = "found"
        still_there = "junk"
        "#;

    let mut toml_value = read_toml(mapping).unwrap();

    let extracted = extract_template_string(&mut toml_value).unwrap();

    let expected = "found".to_string();

    assert_eq!(extracted, expected);

    let expected_mapping = r#"still_there = "junk""#;
    let expected_value = read_toml(expected_mapping).unwrap();

    assert_eq!(toml_value, expected_value);
}

#[test]
fn a_template_that_is_no_text_is_taken_out_all_the_same() {
    let mut value = mapping(vec![("template", Document::Integer(3)), ("kept", Document::Null)]);
    assert!(extract_template_string(&mut value).is_none());
    assert_eq!(value, mapping(vec![("kept", Document::Null)]));

    let mut scalar = Document::text("template");
    assert!(extract_template_string(&mut scalar).is_none());
    assert_eq!(scalar, Document::text("template"));
}

struct MappingResolver;

impl TemplateResolver for MappingResolver {
    fn resolve(&self, input: &str) -> Result<Document, TemplateError> {
        let map1 = mapping(vec![
            ("template", Document::text("second")),
            ("second", Document::Integer(2)),
            ("third", Document::Integer(2)),
        ]);

        let map2 = mapping(vec![
            ("template", Document::Null),
            ("first", Document::Integer(3)),
            ("second", Document::Integer(3)),
            ("third", Document::Integer(3)),
            ("fourth", Document::Integer(3)),
        ]);

        let inner_map4 =
            mapping(vec![("inner1", Document::Integer(4)), ("inner2", Document::Integer(4))]);
        let map4 = mapping(vec![
            ("template", Document::text("fifth")),
            ("first", Document::Integer(4)),
            ("second", Document::Integer(4)),
            ("third", Document::Integer(4)),
            ("inner", inner_map4),
        ]);

        let inner_map5 = mapping(vec![
            ("inner1", Document::Integer(5)),
            ("inner2", Document::Integer(5)),
            ("inner3", Document::Integer(5)),
        ]);
        let map5 = mapping(vec![
            ("template", Document::Null),
            ("first", Document::Integer(5)),
            ("second", Document::Integer(5)),
            ("third", Document::Integer(5)),
            ("inner", inner_map5),
        ]);

        match input {
            "first" => Ok(map1),
            "second" => Ok(map2),
            "fourth" => Ok(map4),
            "fifth" => Ok(map5),
            _ => panic!("Malformed test"),
        }
    }
}

#[test]
fn flattening_simple() {
    let map = mapping(vec![
        ("template", Document::text("first")),
        ("first", Document::Integer(1)),
        ("second", Document::Integer(1)),
    ]);

    let result = resolve_templates(map, MappingResolver).unwrap();
    let expected = mapping(vec![
        ("first", Document::Integer(1)),
        ("second", Document::Integer(1)),
        ("third", Document::Integer(2)),
        ("fourth", Document::Integer(3)),
    ]);
    assert_eq!(result, expected);
}

#[test]
fn flattening_complex() {
    let inner_map = mapping(vec![("inner1", Document::Integer(1))]);
    let map = mapping(vec![
        ("template", Document::text("fourth")),
        ("first", Document::Integer(1)),
        ("second", Document::Integer(1)),
        ("inner", inner_map),
    ]);

    let result = resolve_templates(map, MappingResolver).unwrap();

    let second_mapping = mapping(vec![
        ("inner1", Document::Integer(1)),
        ("inner2", Document::Integer(4)),
        ("inner3", Document::Integer(5)),
    ]);
    let expected = mapping(vec![
        ("first", Document::Integer(1)),
        ("second", Document::Integer(1)),
        ("third", Document::Integer(4)),
        ("inner", second_mapping),
    ]);

    assert_eq!(result, expected);
}

struct TestResolver;

impl TemplateResolver for TestResolver {
    fn resolve(&self, input: &str) -> Result<Document, TemplateError> {
        let first_string = r#"
            template = "second"
            second = 1
            third = 1
            "#;

        let second_string = r#"
            first = 2
            second = 2
            third = 2
            fourth = 2
            "#;

        let third_string = r#"
            template = "fourth"
            first = 3
            second = 3
            third = 3
            [inner]
            inner_1 = 3
            inner_2 = 3
            "#;

        let fourth_string = r#"
            first = 4
            second = 4
            third = 4
            [inner]
            inner_1 = 4
            inner_2 = 4
            inner_3 = 4
            "#;

        Ok(read_toml(match input {
            "first" => first_string,
            "second" => second_string,
            "third" => third_string,
            "fourth" => fourth_string,
            _ => panic!("Malformed test"),
        })
        .unwrap())
    }
}

#[test]
fn mod_flattening_simple() {
    let input_string = r#"
            template = "first"
            first = 10
            second = 10
            "#;

    let input = read_toml(input_string).unwrap();

    let result = resolve_templates(input, TestResolver).unwrap();

    let expected_string = r#"
            first = 10
            second = 10
            third = 1
            fourth = 2
            "#;
    let expected = read_toml(expected_string).unwrap();
    assert_eq!(result, expected);
}

#[test]
fn mod_flattening_complex() {
    let input_string = r#"
            template = "third"
            first = 10
            second = 10
            [inner]
            inner_1 = 10
            "#;

    let input = read_toml(input_string).unwrap();

    let result = resolve_templates(input, TestResolver).unwrap();

    let expected_string = r#"
            first = 10
            second = 10
            third = 3
            [inner]
            inner_1 = 10
            inner_2 = 3
            inner_3 = 4
            "#;
    let expected_value = read_toml(expected_string).unwrap();
    assert_eq!(result, expected_value);
}

struct ChainResolver;

impl TemplateResolver for ChainResolver {
    fn resolve(&self, input: &str) -> Result<Document, TemplateError> {
        match input {
            "A" => Ok(read_toml("template = \"B\"\ny = 2\nx = 20").unwrap()),
            "B" => Ok(read_toml("z = 3\nx = 30\ny = 30").unwrap()),
            other => Err(TemplateError::FailedToFindTemplate(
                other.to_string(),
                std::path::PathBuf::from(format!("templates/{other}.toml")),
            )),
        }
    }
}

#[test]
fn a_chain_is_flattened_and_the_child_wins() {
    let result =
        resolve_templates(read_toml("template = \"A\"\nx = 1").unwrap(), ChainResolver).unwrap();
    assert_eq!(result, read_toml("x = 1\ny = 2\nz = 3").unwrap());
}

#[test]
fn a_template_that_is_not_found_is_reported_with_its_place() {
    match resolve_templates(read_toml("template = \"C\"\nx = 1").unwrap(), ChainResolver) {
        Err(TemplateError::FailedToFindTemplate(reference, place)) => {
            assert_eq!(reference, "C");
            assert_eq!(place, std::path::PathBuf::from("templates/C.toml"));
        }
        other => panic!("unexpected: {:?}", other),
    }
}

struct SelfResolver;

impl TemplateResolver for SelfResolver {
    fn resolve(&self, _input: &str) -> Result<Document, TemplateError> {
        Ok(read_toml("template = \"self\"\nx = 1").unwrap())
    }
}

#[test]
fn a_template_that_names_itself_ends_in_an_error() {
    match resolve_templates(read_toml("template = \"self\"").unwrap(), SelfResolver) {
        Err(TemplateError::RecursionLimit(reference)) => assert_eq!(reference, "self"),
        other => panic!("unexpected: {:?}", other),
    }
}

struct CountingResolver {
    depth: usize,
}

impl TemplateResolver for CountingResolver {
    fn resolve(&self, input: &str) -> Result<Document, TemplateError> {
        let level: usize = input.parse().unwrap();
        let mut doc = mapping(vec![(&format!("k{level}"), Document::Integer(level as i64))]);
        if level < self.depth {
            doc.insert("template".to_string(), Document::Text((level + 1).to_string()));
        }
        Ok(doc)
    }
}

#[test]
fn a_chain_may_have_as_many_templates_as_the_cap_allows() {
    assert_eq!(RECURSION_CAP, 100);
    let first = mapping(vec![("template", Document::text("1"))]);
    let flat = resolve_templates(first, CountingResolver { depth: 100 }).unwrap();
    for level in 1..=100i64 {
        assert!(matches!(flat.get(&format!("k{level}")), Some(Document::Integer(l)) if *l == level));
    }
    assert!(flat.get("template").is_none());

    let first = mapping(vec![("template", Document::text("1"))]);
    assert!(matches!(
        resolve_templates(first, CountingResolver { depth: 101 }),
        Err(TemplateError::RecursionLimit(reference)) if reference == "101"
    ));
}

#[test]
fn a_document_without_template_is_only_stripped() {
    let flat = resolve_templates(read_toml("a = 1\n[b]\nc = 2").unwrap(), NullResolver).unwrap();
    assert_eq!(flat, read_toml("a = 1\n[b]\nc = 2").unwrap());
    let flat = resolve_templates(Document::Integer(4), NullResolver).unwrap();
    assert_eq!(flat, Document::Integer(4));
}

#[test]
fn the_null_resolver_names_the_empty_document() {
    assert_eq!(NullResolver.resolve("anything").unwrap(), Document::Null);
    let flat =
        resolve_templates(read_toml("template = \"x\"\na = 1").unwrap(), NullResolver).unwrap();
    assert_eq!(flat, read_toml("a = 1").unwrap());
}

#[test]
fn a_chain_is_collapsed_from_its_far_end() {
    let chain = vec![
        read_toml("a = 1").unwrap(),
        read_toml("a = 2\nb = 2").unwrap(),
        read_toml("a = 3\nb = 3\nc = 3").unwrap(),
    ];
    assert_eq!(collapse(chain), read_toml("a = 1\nb = 2\nc = 3").unwrap());
    assert_eq!(collapse(vec![]), Document::new_mapping());
}

#[test]
fn a_configuration_is_read_and_flattened() {
    assert_eq!(LATEST_VERSION, "1");
    let flat = read_document("template = \"first\"\nfirst = 10", TestResolver).unwrap();
    assert_eq!(flat, read_toml("first = 10\nsecond = 1\nthird = 1\nfourth = 2").unwrap());
    assert!(matches!(read_document("= broken", TestResolver), Err(ConfigError::Toml(_))));
    assert!(matches!(
        read_document("template = \"self\"", SelfResolver),
        Err(ConfigError::Template(TemplateError::RecursionLimit(_)))
    ));
}
