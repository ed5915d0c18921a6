//! Tests of the artifact deriver: storage layout, method surface and
//! validation sequence.

use builder_gen::artifact::{BuilderArtifact, BuilderMethod, SlotKind};
use builder_gen::decl::{DirectiveShape, FieldDecl, RawDirective, RecordDecl, TypeDesc};
use builder_gen::extract::extract;

fn s(x: &str) -> String {
    x.to_string()
}

fn plain(head: &str) -> TypeDesc {
    TypeDesc { head: s(head), args: vec![] }
}

fn wrapped(head: &str, arg: &str) -> TypeDesc {
    TypeDesc { head: s(head), args: vec![s(arg)] }
}

fn each_directive(value: &str) -> RawDirective {
    RawDirective {
        text: format!("each = \"{}\"", value),
        shape: DirectiveShape::StrAssign { key: s("each"), value: s(value) },
    }
}

/// The artifact for a record with one field of every flavour:
/// a required name, an optional nick, a plain collection, and a collection
/// with its own appender.
fn mixed_artifact() -> BuilderArtifact {
    let d = RecordDecl {
        name: s("Mixed"),
        fields: vec![
            FieldDecl { name: s("name"), declared_type: plain("String"), directives: vec![] },
            FieldDecl {
                name: s("nick"),
                declared_type: wrapped("Option", "String"),
                directives: vec![],
            },
            FieldDecl {
                name: s("tags"),
                declared_type: wrapped("Vec", "String"),
                directives: vec![],
            },
            FieldDecl {
                name: s("notes"),
                declared_type: wrapped("Vec", "String"),
                directives: vec![each_directive("add_note")],
            },
        ],
    };
    let schema = match extract(&d) {
        Ok(schema) => schema,
        Err(_) => panic!("extraction failed"),
    };
    builder_gen::artifact::derive(&schema)
}

#[test]
fn slots_follow_classification() {
    let a = mixed_artifact();
    assert_eq!(a.record_name, "Mixed");
    assert_eq!(a.slots.len(), 4);
    let kinds: Vec<(&str, SlotKind, &str)> = a
        .slots
        .iter()
        .map(|slot| (slot.field.as_str(), slot.kind, slot.element_type.head.as_str()))
        .collect();
    assert_eq!(
        kinds,
        vec![
            ("name", SlotKind::Single, "String"),
            ("nick", SlotKind::Single, "String"),
            ("tags", SlotKind::Sequence, "String"),
            ("notes", SlotKind::Sequence, "String"),
        ]
    );
}

#[test]
fn method_surface_is_complete_and_ordered() {
    let a = mixed_artifact();
    let described: Vec<String> = a
        .methods
        .iter()
        .map(|m| match m {
            BuilderMethod::Factory { name } => format!("factory {}", name),
            BuilderMethod::Setter { name, field, .. } => format!("set {} -> {}", name, field),
            BuilderMethod::BulkSetter { name, field, .. } => {
                format!("bulk {} -> {}", name, field)
            }
            BuilderMethod::Appender { name, field, .. } => format!("append {} -> {}", name, field),
        })
        .collect();
    assert_eq!(
        described,
        vec![
            "factory builder",
            "set name -> name",
            "set nick -> nick",
            "bulk tags -> tags",
            "bulk notes -> notes",
            "append add_note -> notes",
        ]
    );
}

#[test]
fn validations_name_required_fields_in_order() {
    let a = mixed_artifact();
    let checked: Vec<&str> = a.validations.iter().map(|v| v.field.as_str()).collect();
    assert_eq!(checked, vec!["name"]);
    let builder_gen::runtime::BuildError::MissingRequiredField { field } =
        &a.validations[0].error;
    assert_eq!(field, "name");
}

#[test]
fn suppressed_field_gets_no_bulk_setter() {
    // the appender name equals the field name: only the appender is emitted
    let d = RecordDecl {
        name: s("R"),
        fields: vec![FieldDecl {
            name: s("items"),
            declared_type: wrapped("Vec", "String"),
            directives: vec![each_directive("items")],
        }],
    };
    let schema = match extract(&d) {
        Ok(schema) => schema,
        Err(_) => panic!("extraction failed"),
    };
    assert!(schema.fields[0].bulk_setter_suppressed);
    let a = builder_gen::artifact::derive(&schema);
    for m in &a.methods {
        if let BuilderMethod::BulkSetter { field, .. } = m {
            assert_ne!(field, "items");
        }
    }
    let appenders: Vec<&str> = a
        .methods
        .iter()
        .filter_map(|m| match m {
            BuilderMethod::Appender { name, .. } => Some(name.as_str()),
            _ => None,
        })
        .collect();
    assert_eq!(appenders, vec!["items"]);
}

#[test]
fn repeated_field_without_directive_keeps_bulk_setter_only() {
    let d = RecordDecl {
        name: s("R"),
        fields: vec![FieldDecl {
            name: s("tags"),
            declared_type: wrapped("Vec", "String"),
            directives: vec![],
        }],
    };
    let schema = match extract(&d) {
        Ok(schema) => schema,
        Err(_) => panic!("extraction failed"),
    };
    let a = builder_gen::artifact::derive(&schema);
    let mut bulk: usize = 0;
    let mut appenders: usize = 0;
    for m in &a.methods {
        match m {
            BuilderMethod::BulkSetter { .. } => bulk += 1,
            BuilderMethod::Appender { .. } => appenders += 1,
            _ => {}
        }
    }
    assert_eq!(bulk, 1);
    assert_eq!(appenders, 0);
}
