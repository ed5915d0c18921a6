//! Tests of the schema extractor: classification, directive handling and
//! the extraction-time errors.

use builder_gen::decl::{DirectiveShape, FieldDecl, RawDirective, RecordDecl, TypeDesc};
use builder_gen::extract::extract;
use builder_gen::schema::{Classification, Schema, SchemaError};

fn s(x: &str) -> String {
    x.to_string()
}

fn plain(head: &str) -> TypeDesc {
    TypeDesc { head: s(head), args: vec![] }
}

fn wrapped(head: &str, arg: &str) -> TypeDesc {
    TypeDesc { head: s(head), args: vec![s(arg)] }
}

fn field(name: &str, ty: TypeDesc) -> FieldDecl {
    FieldDecl { name: s(name), declared_type: ty, directives: vec![] }
}

fn each_directive(value: &str) -> RawDirective {
    RawDirective {
        text: format!("each = \"{}\"", value),
        shape: DirectiveShape::StrAssign { key: s("each"), value: s(value) },
    }
}

fn field_with(name: &str, ty: TypeDesc, directives: Vec<RawDirective>) -> FieldDecl {
    FieldDecl { name: s(name), declared_type: ty, directives }
}

fn record(name: &str, fields: Vec<FieldDecl>) -> RecordDecl {
    RecordDecl { name: s(name), fields }
}

fn extract_ok(d: &RecordDecl) -> Schema {
    match extract(d) {
        Ok(schema) => schema,
        Err(_) => panic!("extraction failed"),
    }
}

#[test]
fn plain_field_is_required() {
    let d = record("R", vec![field("x", plain("String"))]);
    let schema = extract_ok(&d);
    assert_eq!(schema.record_name, "R");
    assert_eq!(schema.fields.len(), 1);
    let f = &schema.fields[0];
    assert_eq!(f.name, "x");
    assert_eq!(f.classification, Classification::Required);
    assert_eq!(f.element_type.head, "String");
    assert!(f.appender_name.is_none());
    assert!(!f.bulk_setter_suppressed);
}

#[test]
fn option_field_is_optional() {
    let d = record("R", vec![field("x", wrapped("Option", "u32"))]);
    let schema = extract_ok(&d);
    let f = &schema.fields[0];
    assert_eq!(f.classification, Classification::Optional);
    assert_eq!(f.declared_type.head, "Option");
    assert_eq!(f.element_type.head, "u32");
    assert!(f.element_type.args.is_empty());
}

#[test]
fn collection_field_is_repeated() {
    let d = record("R", vec![field("xs", wrapped("Vec", "String"))]);
    let schema = extract_ok(&d);
    let f = &schema.fields[0];
    assert_eq!(f.classification, Classification::Repeated);
    assert_eq!(f.element_type.head, "String");
    assert!(f.appender_name.is_none());
    assert!(!f.bulk_setter_suppressed);
}

#[test]
fn each_directive_forces_repeated() {
    // an `each` directive repeats even a field whose type is no visible
    // collection, as long as one generic layer can be stripped
    let d = record(
        "R",
        vec![field_with("x", wrapped("Wrapper", "u8"), vec![each_directive("push_x")])],
    );
    let schema = extract_ok(&d);
    let f = &schema.fields[0];
    assert_eq!(f.classification, Classification::Repeated);
    assert_eq!(f.element_type.head, "u8");
    assert_eq!(f.appender_name.as_deref(), Some("push_x"));
    assert!(!f.bulk_setter_suppressed);
}

#[test]
fn each_on_option_field_is_repeated() {
    let d = record(
        "R",
        vec![field_with("x", wrapped("Option", "u8"), vec![each_directive("push_x")])],
    );
    let schema = extract_ok(&d);
    assert_eq!(schema.fields[0].classification, Classification::Repeated);
}

#[test]
fn later_each_directive_overrides_earlier() {
    let d = record(
        "R",
        vec![field_with(
            "xs",
            wrapped("Vec", "String"),
            vec![each_directive("first"), each_directive("second")],
        )],
    );
    let schema = extract_ok(&d);
    assert_eq!(schema.fields[0].appender_name.as_deref(), Some("second"));
}

#[test]
fn appender_name_collision_suppresses_bulk_setter() {
    let d = record(
        "R",
        vec![field_with("items", wrapped("Vec", "String"), vec![each_directive("items")])],
    );
    let schema = extract_ok(&d);
    let f = &schema.fields[0];
    assert!(f.bulk_setter_suppressed);
    assert_eq!(f.appender_name.as_deref(), Some("items"));
}

#[test]
fn declaration_order_is_preserved() {
    let d = record(
        "R",
        vec![
            field("b", plain("u8")),
            field("a", wrapped("Vec", "u8")),
            field("c", wrapped("Option", "u8")),
        ],
    );
    let schema = extract_ok(&d);
    let names: Vec<&str> = schema.fields.iter().map(|f| f.name.as_str()).collect();
    assert_eq!(names, vec!["b", "a", "c"]);
}

#[test]
fn unknown_directive_key_is_malformed() {
    let bad = RawDirective {
        text: s("ecah = \"x\""),
        shape: DirectiveShape::StrAssign { key: s("ecah"), value: s("x") },
    };
    let d = record("R", vec![field_with("xs", wrapped("Vec", "String"), vec![bad])]);
    match extract(&d) {
        Err(SchemaError::MalformedDirective { field, token }) => {
            assert_eq!(field, "xs");
            assert_eq!(token, "ecah = \"x\"");
        }
        _ => panic!("expected a malformed-directive error"),
    }
}

#[test]
fn non_assignment_directive_is_malformed() {
    let bad = RawDirective { text: s("each(arg)"), shape: DirectiveShape::Other };
    let d = record("R", vec![field_with("xs", wrapped("Vec", "String"), vec![bad])]);
    match extract(&d) {
        Err(SchemaError::MalformedDirective { field, token }) => {
            assert_eq!(field, "xs");
            assert_eq!(token, "each(arg)");
        }
        _ => panic!("expected a malformed-directive error"),
    }
}

#[test]
fn optional_without_argument_fails_unwrap() {
    let d = record("R", vec![field("x", plain("Option"))]);
    match extract(&d) {
        Err(SchemaError::UnwrapFailure { field }) => assert_eq!(field, "x"),
        _ => panic!("expected an unwrap failure"),
    }
}

#[test]
fn each_on_argument_less_type_fails_unwrap() {
    let d = record(
        "R",
        vec![field_with("x", plain("String"), vec![each_directive("push_x")])],
    );
    match extract(&d) {
        Err(SchemaError::UnwrapFailure { field }) => assert_eq!(field, "x"),
        _ => panic!("expected an unwrap failure"),
    }
}

#[test]
fn first_offending_field_wins() {
    let d = record(
        "R",
        vec![
            field("ok", plain("String")),
            field("first_bad", plain("Vec")),
            field_with("second_bad", plain("String"), vec![each_directive("p")]),
        ],
    );
    match extract(&d) {
        Err(SchemaError::UnwrapFailure { field }) => assert_eq!(field, "first_bad"),
        _ => panic!("expected the first field's unwrap failure"),
    }
}

#[test]
fn malformed_directive_beats_unwrap_failure_on_one_field() {
    // within one field the directive scan comes before the unwrap
    let bad = RawDirective { text: s("nonsense"), shape: DirectiveShape::Other };
    let d = record("R", vec![field_with("x", plain("Vec"), vec![bad])]);
    match extract(&d) {
        Err(SchemaError::MalformedDirective { field, token }) => {
            assert_eq!(field, "x");
            assert_eq!(token, "nonsense");
        }
        _ => panic!("expected the malformed-directive error"),
    }
}

#[test]
fn extraction_is_deterministic() {
    let make = || {
        record(
            "R",
            vec![
                field("a", plain("String")),
                field_with("xs", wrapped("Vec", "u8"), vec![each_directive("push_x")]),
            ],
        )
    };
    let s1 = extract_ok(&make());
    let s2 = extract_ok(&make());
    assert_eq!(s1.fields.len(), s2.fields.len());
    for (f1, f2) in s1.fields.iter().zip(s2.fields.iter()) {
        assert_eq!(f1.name, f2.name);
        assert_eq!(f1.classification, f2.classification);
        assert_eq!(f1.element_type.head, f2.element_type.head);
        assert_eq!(f1.appender_name, f2.appender_name);
        assert_eq!(f1.bulk_setter_suppressed, f2.bulk_setter_suppressed);
    }
}

#[test]
fn example_record_extracts_as_documented() {
    let d = builder_gen::example::Test::declaration();
    let schema = extract_ok(&d);
    assert_eq!(schema.record_name, "Test");
    assert_eq!(schema.fields.len(), 6);
    let by_name: Vec<(&str, Classification)> = schema
        .fields
        .iter()
        .map(|f| (f.name.as_str(), f.classification))
        .collect();
    assert_eq!(
        by_name,
        vec![
            ("executable", Classification::Required),
            ("args", Classification::Repeated),
            ("env", Classification::Repeated),
            ("current_dir", Classification::Required),
            ("test", Classification::Optional),
            ("items", Classification::Repeated),
        ]
    );
    let items = &schema.fields[5];
    assert_eq!(items.appender_name.as_deref(), Some("add_item"));
    assert!(!items.bulk_setter_suppressed);
}
