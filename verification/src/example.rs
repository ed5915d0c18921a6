//! A worked example record: the declaration a host would hand over for a
//! small process-launcher type, covering every classification — required
//! plain fields, collection fields with and without an each-element
//! directive, and an optional field.

use vstd::prelude::*;
use crate::decl::{
    DirectiveShape, DirectiveShapeV, FieldDecl, FieldDeclV, RawDirective, RawDirectiveV,
    RecordDecl, RecordDeclV, TypeDesc, TypeDescV,
};

verus! {

/// The example record itself, as its users would declare it.
pub struct Test {
    pub executable: String,
    pub args: Vec<String>,
    pub env: Vec<String>,
    pub current_dir: String,
    pub test: Option<String>,
    pub items: Vec<String>,
}

/// The abstract declaration of [`Test`]: what the extractor receives for it.
/// The `items` field carries an `each = "add_item"` directive.
pub open spec fn spec_test_declaration() -> RecordDeclV {
    RecordDeclV {
        name: "Test"@,
        fields: seq![
            FieldDeclV {
                name: "executable"@,
                declared_type: TypeDescV { head: "String"@, args: Seq::empty() },
                directives: Seq::empty(),
            },
            FieldDeclV {
                name: "args"@,
                declared_type: TypeDescV { head: "Vec"@, args: seq!["String"@] },
                directives: Seq::empty(),
            },
            FieldDeclV {
                name: "env"@,
                declared_type: TypeDescV { head: "Vec"@, args: seq!["String"@] },
                directives: Seq::empty(),
            },
            FieldDeclV {
                name: "current_dir"@,
                declared_type: TypeDescV { head: "String"@, args: Seq::empty() },
                directives: Seq::empty(),
            },
            FieldDeclV {
                name: "test"@,
                declared_type: TypeDescV { head: "Option"@, args: seq!["String"@] },
                directives: Seq::empty(),
            },
            FieldDeclV {
                name: "items"@,
                declared_type: TypeDescV { head: "Vec"@, args: seq!["String"@] },
                directives: seq![
                    RawDirectiveV {
                        text: "each = \"add_item\""@,
                        shape: DirectiveShapeV::StrAssign { key: "each"@, value: "add_item"@ },
                    },
                ],
            },
        ],
    }
}

/// A plain type: a head identifier and no generic arguments.
fn plain_type(head: &str) -> (t: TypeDesc)
    ensures
        t@ == (TypeDescV { head: head@, args: Seq::<Seq<char>>::empty() }),
{
    let t = TypeDesc { head: String::from_str(head), args: Vec::new() };
    proof {
        assert(t@ =~= TypeDescV { head: head@, args: Seq::<Seq<char>>::empty() });
    }
    t
}

/// A wrapped type: a head identifier over one generic argument.
fn wrapped_type(head: &str, arg: &str) -> (t: TypeDesc)
    ensures
        t@ == (TypeDescV { head: head@, args: seq![arg@] }),
{
    let mut args: Vec<String> = Vec::new();
    args.push(String::from_str(arg));
    let t = TypeDesc { head: String::from_str(head), args };
    proof {
        assert(t@ =~= TypeDescV { head: head@, args: seq![arg@] });
    }
    t
}

/// A field declaration without directives.
fn plain_field(name: &str, declared_type: TypeDesc) -> (f: FieldDecl)
    ensures
        f@ == (FieldDeclV {
            name: name@,
            declared_type: declared_type@,
            directives: Seq::<RawDirectiveV>::empty(),
        }),
{
    let f = FieldDecl { name: String::from_str(name), declared_type, directives: Vec::new() };
    proof {
        assert(f@ =~= FieldDeclV {
            name: name@,
            declared_type: declared_type@,
            directives: Seq::<RawDirectiveV>::empty(),
        });
    }
    f
}

impl Test {
    /// The declaration of this record, as the schema extractor takes it.
    pub fn declaration() -> (d: RecordDecl)
        ensures
            d@ == spec_test_declaration(),
    {
        let mut fields: Vec<FieldDecl> = Vec::new();
        fields.push(plain_field("executable", plain_type("String")));
        fields.push(plain_field("args", wrapped_type("Vec", "String")));
        fields.push(plain_field("env", wrapped_type("Vec", "String")));
        fields.push(plain_field("current_dir", plain_type("String")));
        fields.push(plain_field("test", wrapped_type("Option", "String")));
        let mut items_directives: Vec<RawDirective> = Vec::new();
        items_directives.push(
            RawDirective {
                text: String::from_str("each = \"add_item\""),
                shape: DirectiveShape::StrAssign {
                    key: String::from_str("each"),
                    value: String::from_str("add_item"),
                },
            },
        );
        fields.push(
            FieldDecl {
                name: String::from_str("items"),
                declared_type: wrapped_type("Vec", "String"),
                directives: items_directives,
            },
        );
        let d = RecordDecl { name: String::from_str("Test"), fields };
        proof {
            assert(d@ =~~= spec_test_declaration());
        }
        d
    }
}

} // verus!
