//! The normalized output of the schema extractor: every field classified,
//! with its element type, its appender name and its method-surface policy.

use vstd::prelude::*;
use crate::decl::{TypeDesc, TypeDescV};

verus! {

/// The classification of a field: exactly one of the three, computed from the
/// declared type's shape and the field's directives, never user-set directly.
#[derive(Clone, Copy, PartialEq, Eq, Structural, Debug)]
pub enum Classification {
    Required,
    Optional,
    Repeated,
}

/// One field of a normalized schema.
pub struct FieldSpec {
    /// The field's name; declaration order is preserved around it.
    pub name: String,
    /// The type as the user wrote it.
    pub declared_type: TypeDesc,
    /// The computed classification.
    pub classification: Classification,
    /// For optional and repeated fields the unwrapped inner type; for
    /// required fields equal to the declared type.
    pub element_type: TypeDesc,
    /// The name of the single-element append method, present exactly when the
    /// field carries an each-element directive.
    pub appender_name: Option<String>,
    /// True exactly when the field is repeated and its appender name equals
    /// the field's own name: then only the appender is emitted, never a bulk
    /// setter of the same name.
    pub bulk_setter_suppressed: bool,
}

/// Mathematical model of a [`FieldSpec`].
#[verifier::ext_equal]
pub struct FieldSpecV {
    pub name: Seq<char>,
    pub declared_type: TypeDescV,
    pub classification: Classification,
    pub element_type: TypeDescV,
    pub appender_name: Option<Seq<char>>,
    pub bulk_setter_suppressed: bool,
}

impl View for FieldSpec {
    type V = FieldSpecV;

    open spec fn view(&self) -> FieldSpecV {
        FieldSpecV {
            name: self.name@,
            declared_type: self.declared_type@,
            classification: self.classification,
            element_type: self.element_type@,
            appender_name: match self.appender_name {
                Option::Some(a) => Option::Some(a@),
                Option::None => Option::None,
            },
            bulk_setter_suppressed: self.bulk_setter_suppressed,
        }
    }
}

/// A normalized schema: the record's name and its fields, one [`FieldSpec`]
/// per declared field, in declaration order.  Immutable once extracted.
pub struct Schema {
    pub record_name: String,
    pub fields: Vec<FieldSpec>,
}

/// Mathematical model of a [`Schema`].
#[verifier::ext_equal]
pub struct SchemaV {
    pub record_name: Seq<char>,
    pub fields: Seq<FieldSpecV>,
}

impl View for Schema {
    type V = SchemaV;

    open spec fn view(&self) -> SchemaV {
        SchemaV {
            record_name: self.record_name@,
            fields: self.fields@.map_values(|f: FieldSpec| f@),
        }
    }
}

/// An extraction-time error.  The first offending field, scanned in
/// declaration order, aborts extraction; no partial schema is produced.
pub enum SchemaError {
    /// A directive on `field` is not a recognized `each = "..."` assignment;
    /// `token` carries the offending directive as written.
    MalformedDirective { field: String, token: String },
    /// The declared type of `field` should be unwrapped (the field is
    /// optional or repeated) but carries no generic argument.
    UnwrapFailure { field: String },
}

/// Mathematical model of a [`SchemaError`].
#[verifier::ext_equal]
pub enum SchemaErrorV {
    MalformedDirective { field: Seq<char>, token: Seq<char> },
    UnwrapFailure { field: Seq<char> },
}

impl View for SchemaError {
    type V = SchemaErrorV;

    open spec fn view(&self) -> SchemaErrorV {
        match self {
            SchemaError::MalformedDirective { field, token } => SchemaErrorV::MalformedDirective {
                field: field@,
                token: token@,
            },
            SchemaError::UnwrapFailure { field } => SchemaErrorV::UnwrapFailure { field: field@ },
        }
    }
}

/// The internal invariant of one classified field: an appender exists only on
/// a repeated field; suppression of the bulk setter holds exactly on the name
/// collision; a required field's element type is its declared type.
pub open spec fn field_spec_wf(f: FieldSpecV) -> bool {
    &&& f.appender_name is Some ==> f.classification is Repeated
    &&& f.bulk_setter_suppressed <==> (f.classification is Repeated && f.appender_name
        == Option::Some(f.name))
    &&& f.classification is Required ==> f.element_type == f.declared_type
}

/// Pairwise distinct field names: what a well-formed declaration guarantees
/// of the schema extracted from it.
pub open spec fn distinct_field_names(fields: Seq<FieldSpecV>) -> bool {
    forall|i: int, j: int| 0 <= i < j < fields.len() ==> fields[i].name != fields[j].name
}

/// A well-formed schema: every field obeys its invariant and names are
/// pairwise distinct.
pub open spec fn schema_wf(s: SchemaV) -> bool {
    &&& forall|i: int| 0 <= i < s.fields.len() ==> field_spec_wf(#[trigger] s.fields[i])
    &&& distinct_field_names(s.fields)
}

} // verus!
