//! Tests of a generated builder instance's semantics: setters, appenders,
//! the build step and its validation.

use builder_gen::decl::{DirectiveShape, FieldDecl, RawDirective, RecordDecl, TypeDesc};
use builder_gen::extract::extract;
use builder_gen::runtime::{new_builder, BuildError, Builder, FieldValue, RecordValue};
use builder_gen::schema::Schema;

fn s(x: &str) -> String {
    x.to_string()
}

fn plain(head: &str) -> TypeDesc {
    TypeDesc { head: s(head), args: vec![] }
}

fn wrapped(head: &str, arg: &str) -> TypeDesc {
    TypeDesc { head: s(head), args: vec![s(arg)] }
}

fn each_directive(value: &str) -> RawDirective {
    RawDirective {
        text: format!("each = \"{}\"", value),
        shape: DirectiveShape::StrAssign { key: s("each"), value: s(value) },
    }
}

fn extract_ok(d: &RecordDecl) -> Schema {
    match extract(d) {
        Ok(schema) => schema,
        Err(_) => panic!("extraction failed"),
    }
}

/// The scenario record: a process launcher with a required executable, an
/// argument list with its own appender, a plain environment list, and an
/// optional working directory.
fn process_schema() -> Schema {
    let d = RecordDecl {
        name: s("Process"),
        fields: vec![
            FieldDecl { name: s("executable"), declared_type: plain("String"), directives: vec![] },
            FieldDecl {
                name: s("args"),
                declared_type: wrapped("Vec", "String"),
                directives: vec![each_directive("addArg")],
            },
            FieldDecl {
                name: s("env"),
                declared_type: wrapped("Vec", "String"),
                directives: vec![],
            },
            FieldDecl {
                name: s("dir"),
                declared_type: wrapped("Option", "String"),
                directives: vec![],
            },
        ],
    };
    extract_ok(&d)
}

fn build_ok(b: &Builder, schema: &Schema) -> RecordValue {
    match b.build(schema) {
        Ok(rec) => rec,
        Err(BuildError::MissingRequiredField { field }) => {
            panic!("build failed on field {}", field)
        }
    }
}

fn build_err(b: &Builder, schema: &Schema) -> String {
    match b.build(schema) {
        Ok(_) => panic!("build succeeded unexpectedly"),
        Err(BuildError::MissingRequiredField { field }) => field,
    }
}

fn field_values_eq(a: &FieldValue, b: &FieldValue) -> bool {
    match (a, b) {
        (FieldValue::One { value: x }, FieldValue::One { value: y }) => x == y,
        (FieldValue::Maybe { value: x }, FieldValue::Maybe { value: y }) => x == y,
        (FieldValue::Many { values: x }, FieldValue::Many { values: y }) => x == y,
        _ => false,
    }
}

fn records_eq(a: &RecordValue, b: &RecordValue) -> bool {
    a.fields.len() == b.fields.len()
        && a.fields
            .iter()
            .zip(b.fields.iter())
            .all(|(x, y)| field_values_eq(x, y))
}

#[test]
fn scenario_process_builder() {
    let schema = process_schema();
    let mut b = new_builder(&schema);
    b.set_value(&schema, "executable", s("ls"));
    b.append_value(&schema, "addArg", s("-l"));
    b.append_value(&schema, "addArg", s("-a"));
    b.set_elements(&schema, "env", vec![s("PATH=/bin")]);
    let rec = build_ok(&b, &schema);
    assert_eq!(rec.fields.len(), 4);
    match &rec.fields[0] {
        FieldValue::One { value } => assert_eq!(value, "ls"),
        _ => panic!("executable should be a single required value"),
    }
    match &rec.fields[1] {
        FieldValue::Many { values } => assert_eq!(values, &vec![s("-l"), s("-a")]),
        _ => panic!("args should be a sequence"),
    }
    match &rec.fields[2] {
        FieldValue::Many { values } => assert_eq!(values, &vec![s("PATH=/bin")]),
        _ => panic!("env should be a sequence"),
    }
    match &rec.fields[3] {
        FieldValue::Maybe { value } => assert!(value.is_none()),
        _ => panic!("dir should be optional"),
    }
}

#[test]
fn scenario_process_missing_executable() {
    let schema = process_schema();
    let mut b = new_builder(&schema);
    b.append_value(&schema, "addArg", s("-l"));
    b.set_elements(&schema, "env", vec![s("PATH=/bin")]);
    assert_eq!(build_err(&b, &schema), "executable");
}

#[test]
fn all_required_build_equals_direct_construction() {
    let d = RecordDecl {
        name: s("Pair"),
        fields: vec![
            FieldDecl { name: s("left"), declared_type: plain("String"), directives: vec![] },
            FieldDecl { name: s("right"), declared_type: plain("String"), directives: vec![] },
        ],
    };
    let schema = extract_ok(&d);
    let mut b = new_builder(&schema);
    b.set_value(&schema, "left", s("l"));
    b.set_value(&schema, "right", s("r"));
    let built = build_ok(&b, &schema);
    let direct = RecordValue {
        fields: vec![
            FieldValue::One { value: s("l") },
            FieldValue::One { value: s("r") },
        ],
    };
    assert!(records_eq(&built, &direct));
}

#[test]
fn optional_field_never_set_is_absent() {
    let d = RecordDecl {
        name: s("R"),
        fields: vec![FieldDecl {
            name: s("nick"),
            declared_type: wrapped("Option", "String"),
            directives: vec![],
        }],
    };
    let schema = extract_ok(&d);
    let b = new_builder(&schema);
    let rec = build_ok(&b, &schema);
    match &rec.fields[0] {
        FieldValue::Maybe { value } => assert!(value.is_none()),
        _ => panic!("nick should be optional"),
    }
}

#[test]
fn appending_three_equals_bulk_of_three() {
    let d = RecordDecl {
        name: s("R"),
        fields: vec![FieldDecl {
            name: s("tags"),
            declared_type: wrapped("Vec", "String"),
            directives: vec![each_directive("add_tag")],
        }],
    };
    let schema = extract_ok(&d);
    let mut one_at_a_time = new_builder(&schema);
    one_at_a_time.append_value(&schema, "add_tag", s("v1"));
    one_at_a_time.append_value(&schema, "add_tag", s("v2"));
    one_at_a_time.append_value(&schema, "add_tag", s("v3"));
    let mut wholesale = new_builder(&schema);
    wholesale.set_elements(&schema, "tags", vec![s("v1"), s("v2"), s("v3")]);
    let r1 = build_ok(&one_at_a_time, &schema);
    let r2 = build_ok(&wholesale, &schema);
    assert!(records_eq(&r1, &r2));
    match &r1.fields[0] {
        FieldValue::Many { values } => assert_eq!(values, &vec![s("v1"), s("v2"), s("v3")]),
        _ => panic!("tags should be a sequence"),
    }
}

#[test]
fn build_fails_on_first_missing_required_field() {
    let d = RecordDecl {
        name: s("R"),
        fields: vec![
            FieldDecl { name: s("a"), declared_type: plain("String"), directives: vec![] },
            FieldDecl { name: s("b"), declared_type: plain("String"), directives: vec![] },
        ],
    };
    let schema = extract_ok(&d);
    let b = new_builder(&schema);
    // both are missing: the first in declaration order is named
    assert_eq!(build_err(&b, &schema), "a");
}

#[test]
fn supplying_the_missing_field_makes_build_succeed() {
    let d = RecordDecl {
        name: s("R"),
        fields: vec![
            FieldDecl { name: s("a"), declared_type: plain("String"), directives: vec![] },
            FieldDecl {
                name: s("nick"),
                declared_type: wrapped("Option", "String"),
                directives: vec![],
            },
        ],
    };
    let schema = extract_ok(&d);
    let mut b = new_builder(&schema);
    assert_eq!(build_err(&b, &schema), "a");
    // the builder survives the failed build and can be completed
    b.set_value(&schema, "a", s("v"));
    let rec = build_ok(&b, &schema);
    match &rec.fields[0] {
        FieldValue::One { value } => assert_eq!(value, "v"),
        _ => panic!("a should be a single required value"),
    }
}

#[test]
fn build_twice_returns_equal_records() {
    let schema = process_schema();
    let mut b = new_builder(&schema);
    b.set_value(&schema, "executable", s("ls"));
    b.append_value(&schema, "addArg", s("-l"));
    let r1 = build_ok(&b, &schema);
    let r2 = build_ok(&b, &schema);
    assert!(records_eq(&r1, &r2));
}

#[test]
fn setter_overwrites_previous_value() {
    let schema = process_schema();
    let mut b = new_builder(&schema);
    b.set_value(&schema, "executable", s("cat"));
    b.set_value(&schema, "executable", s("ls"));
    let rec = build_ok(&b, &schema);
    match &rec.fields[0] {
        FieldValue::One { value } => assert_eq!(value, "ls"),
        _ => panic!("executable should be a single required value"),
    }
}

#[test]
fn bulk_setter_replaces_wholesale() {
    let schema = process_schema();
    let mut b = new_builder(&schema);
    b.set_value(&schema, "executable", s("ls"));
    b.set_elements(&schema, "env", vec![s("A=1"), s("B=2")]);
    b.set_elements(&schema, "env", vec![s("C=3")]);
    let rec = build_ok(&b, &schema);
    match &rec.fields[2] {
        FieldValue::Many { values } => assert_eq!(values, &vec![s("C=3")]),
        _ => panic!("env should be a sequence"),
    }
}

#[test]
fn repeated_field_left_empty_is_legal() {
    let schema = process_schema();
    let mut b = new_builder(&schema);
    b.set_value(&schema, "executable", s("ls"));
    let rec = build_ok(&b, &schema);
    match &rec.fields[1] {
        FieldValue::Many { values } => assert!(values.is_empty()),
        _ => panic!("args should be a sequence"),
    }
}
