//! The schema extractor: from an abstract record declaration to a normalized
//! [`Schema`], with every field classified and every directive resolved, or a
//! [`SchemaError`] for the first offending field in declaration order.

use vstd::prelude::*;
use crate::decl::{
    decl_wf, DirectiveShape, DirectiveShapeV, FieldDecl, FieldDeclV, RawDirective, RawDirectiveV,
    RecordDecl, RecordDeclV, TypeDesc, TypeDescV,
};
use crate::schema::{
    distinct_field_names, field_spec_wf, Classification, FieldSpec, FieldSpecV, Schema,
    SchemaError, SchemaErrorV, SchemaV,
};

verus! {

/// A directive after interpretation: the closed set of meanings the
/// extractor distinguishes.
pub enum DirectiveKind {
    /// A recognized `each = "name"` directive: the field is repeat-built and
    /// `name` becomes its single-element append method.
    Each { name: String },
    /// Anything else; `token` carries the directive as written, for the
    /// error that rejects it.
    Unknown { token: String },
}

/// Mathematical model of a [`DirectiveKind`].
#[verifier::ext_equal]
pub enum DirectiveKindV {
    Each { name: Seq<char> },
    Unknown { token: Seq<char> },
}

impl View for DirectiveKind {
    type V = DirectiveKindV;

    open spec fn view(&self) -> DirectiveKindV {
        match self {
            DirectiveKind::Each { name } => DirectiveKindV::Each { name: name@ },
            DirectiveKind::Unknown { token } => DirectiveKindV::Unknown { token: token@ },
        }
    }
}

/// The head identifier of an optional wrapper type.
pub open spec fn is_optional_head(head: Seq<char>) -> bool {
    head == "Option"@
}

/// The head identifier of a recognized collection type.
pub open spec fn is_collection_head(head: Seq<char>) -> bool {
    head == "Vec"@
}

/// What one directive token means: an `each = "..."` assignment names the
/// appender; every other shape, and every other key, is unknown.
pub open spec fn spec_parse_directive(d: RawDirectiveV) -> DirectiveKindV {
    match d.shape {
        DirectiveShapeV::StrAssign { key, value } => if key == "each"@ {
            DirectiveKindV::Each { name: value }
        } else {
            DirectiveKindV::Unknown { token: d.text }
        },
        DirectiveShapeV::Other => DirectiveKindV::Unknown { token: d.text },
    }
}

/// The token of the first unrecognized directive, scanning in order, if any.
pub open spec fn first_unknown_directive(dirs: Seq<RawDirectiveV>) -> Option<Seq<char>>
    decreases dirs.len(),
{
    if dirs.len() == 0 {
        Option::None
    } else {
        match first_unknown_directive(dirs.drop_last()) {
            Option::Some(t) => Option::Some(t),
            Option::None => match spec_parse_directive(dirs.last()) {
                DirectiveKindV::Unknown { token } => Option::Some(token),
                DirectiveKindV::Each { .. } => Option::None,
            },
        }
    }
}

/// The appender name set by the last `each` directive, if any: a later
/// directive overrides an earlier one.
pub open spec fn last_each_name(dirs: Seq<RawDirectiveV>) -> Option<Seq<char>>
    decreases dirs.len(),
{
    if dirs.len() == 0 {
        Option::None
    } else {
        match spec_parse_directive(dirs.last()) {
            DirectiveKindV::Each { name } => Option::Some(name),
            DirectiveKindV::Unknown { .. } => last_each_name(dirs.drop_last()),
        }
    }
}

/// The element type after stripping one layer of generic wrapping: the first
/// generic argument, taken as an opaque type of its own.
pub open spec fn spec_unwrapped(ty: TypeDescV) -> TypeDescV {
    TypeDescV { head: ty.args[0], args: Seq::empty() }
}

/// Classification of one declared field.  A malformed directive rejects the
/// field; otherwise an `each` directive forces it repeated, a collection
/// head makes it repeated, an optional head makes it optional, and anything
/// else is required.  Optional and repeated fields unwrap their declared
/// type; a missing generic argument rejects the field.
pub open spec fn spec_classify(f: FieldDeclV) -> Result<FieldSpecV, SchemaErrorV> {
    if first_unknown_directive(f.directives) is Some {
        Result::Err(
            SchemaErrorV::MalformedDirective {
                field: f.name,
                token: first_unknown_directive(f.directives)->Some_0,
            },
        )
    } else {
        let appender = last_each_name(f.directives);
        let repeated = appender is Some || is_collection_head(f.declared_type.head);
        let optional = !repeated && is_optional_head(f.declared_type.head);
        if repeated || optional {
            if f.declared_type.args.len() == 0 {
                Result::Err(SchemaErrorV::UnwrapFailure { field: f.name })
            } else {
                Result::Ok(
                    FieldSpecV {
                        name: f.name,
                        declared_type: f.declared_type,
                        classification: if repeated {
                            Classification::Repeated
                        } else {
                            Classification::Optional
                        },
                        element_type: spec_unwrapped(f.declared_type),
                        appender_name: appender,
                        bulk_setter_suppressed: appender == Option::Some(f.name),
                    },
                )
            }
        } else {
            Result::Ok(
                FieldSpecV {
                    name: f.name,
                    declared_type: f.declared_type,
                    classification: Classification::Required,
                    element_type: f.declared_type,
                    appender_name: Option::None,
                    bulk_setter_suppressed: false,
                },
            )
        }
    }
}

/// Classification of a whole field list: the specs of all fields when every
/// one classifies, else the error of the first field that does not.
pub open spec fn spec_extract_fields(fs: Seq<FieldDeclV>) -> Result<Seq<FieldSpecV>, SchemaErrorV>
    decreases fs.len(),
{
    if fs.len() == 0 {
        Result::Ok(Seq::empty())
    } else {
        match spec_extract_fields(fs.drop_last()) {
            Result::Err(e) => Result::Err(e),
            Result::Ok(prefix) => match spec_classify(fs.last()) {
                Result::Err(e) => Result::Err(e),
                Result::Ok(s) => Result::Ok(prefix.push(s)),
            },
        }
    }
}

/// Extraction of a whole declaration.
pub open spec fn spec_extract(d: RecordDeclV) -> Result<SchemaV, SchemaErrorV> {
    match spec_extract_fields(d.fields) {
        Result::Ok(fields) => Result::Ok(SchemaV { record_name: d.name, fields }),
        Result::Err(e) => Result::Err(e),
    }
}

/// The model of an exec `Result`, both sides taken to their views.
pub open spec fn res_view<T: View, E: View>(r: Result<T, E>) -> Result<T::V, E::V> {
    match r {
        Result::Ok(t) => Result::Ok(t@),
        Result::Err(e) => Result::Err(e@),
    }
}

/// A successful extraction classifies every field, in order.
pub proof fn lemma_extract_fields_ok(fs: Seq<FieldDeclV>, ss: Seq<FieldSpecV>)
    requires
        spec_extract_fields(fs) == Result::<Seq<FieldSpecV>, SchemaErrorV>::Ok(ss),
    ensures
        ss.len() == fs.len(),
        forall|i: int|
            0 <= i < fs.len() ==> spec_classify(fs[i]) == Result::<
                FieldSpecV,
                SchemaErrorV,
            >::Ok(ss[i]),
    decreases fs.len(),
{
    if fs.len() > 0 {
        let prefix = spec_extract_fields(fs.drop_last())->Ok_0;
        lemma_extract_fields_ok(fs.drop_last(), prefix);
        assert(forall|i: int| 0 <= i < fs.len() - 1 ==> fs.drop_last()[i] == fs[i]);
    }
}

/// A failed extraction reports the first field that does not classify.
pub proof fn lemma_extract_fields_err(fs: Seq<FieldDeclV>, e: SchemaErrorV)
    requires
        spec_extract_fields(fs) == Result::<Seq<FieldSpecV>, SchemaErrorV>::Err(e),
    ensures
        exists|j: int|
            {
                &&& 0 <= j < fs.len()
                &&& #[trigger] spec_classify(fs[j]) == Result::<FieldSpecV, SchemaErrorV>::Err(e)
                &&& forall|i: int| 0 <= i < j ==> spec_classify(#[trigger] fs[i]) is Ok
            },
    decreases fs.len(),
{
    if fs.len() > 0 {
        if spec_extract_fields(fs.drop_last()) is Err {
            lemma_extract_fields_err(fs.drop_last(), e);
            let j = choose|j: int|
                {
                    &&& 0 <= j < fs.drop_last().len()
                    &&& #[trigger] spec_classify(fs.drop_last()[j]) == Result::<
                        FieldSpecV,
                        SchemaErrorV,
                    >::Err(e)
                    &&& forall|i: int|
                        0 <= i < j ==> spec_classify(#[trigger] fs.drop_last()[i]) is Ok
                };
            assert(forall|i: int| 0 <= i < fs.len() - 1 ==> fs.drop_last()[i] == fs[i]);
            assert(spec_classify(fs[j]) == Result::<FieldSpecV, SchemaErrorV>::Err(e));
        } else {
            let prefix = spec_extract_fields(fs.drop_last())->Ok_0;
            lemma_extract_fields_ok(fs.drop_last(), prefix);
            let j = fs.len() - 1;
            assert(forall|i: int| 0 <= i < j ==> fs.drop_last()[i] == fs[i]);
            assert(spec_classify(fs[j]) == Result::<FieldSpecV, SchemaErrorV>::Err(e));
        }
    }
}

/// A field that classifies obeys the field invariant and keeps its name.
pub proof fn lemma_classify_wf(f: FieldDeclV, s: FieldSpecV)
    requires
        spec_classify(f) == Result::<FieldSpecV, SchemaErrorV>::Ok(s),
    ensures
        field_spec_wf(s),
        s.name == f.name,
{
}

/// Whether `head` equals the given literal identifier.
fn head_is(head: &String, lit: &str) -> (r: bool)
    ensures
        r == (head@ == lit@),
{
    let l = String::from_str(lit);
    *head == l
}

/// Interpret one directive token, as [`spec_parse_directive`] says.
pub fn parse_directive(d: &RawDirective) -> (r: DirectiveKind)
    ensures
        r@ == spec_parse_directive(d@),
{
    match &d.shape {
        DirectiveShape::StrAssign { key, value } => {
            if head_is(key, "each") {
                DirectiveKind::Each { name: value.clone() }
            } else {
                DirectiveKind::Unknown { token: d.text.clone() }
            }
        },
        DirectiveShape::Other => DirectiveKind::Unknown { token: d.text.clone() },
    }
}

/// Classify one declared field, as [`spec_classify`] says.
pub fn classify_field(f: &FieldDecl) -> (r: Result<FieldSpec, SchemaError>)
    ensures
        res_view(r) == spec_classify(f@),
{
    let mut appender: Option<String> = Option::None;
    let mut i: usize = 0;
    while i < f.directives.len()
        invariant
            i <= f.directives.len(),
            first_unknown_directive(f@.directives.take(i as int)) is None,
            (match appender {
                Option::Some(a) => Option::Some(a@),
                Option::None => Option::None,
            }) == last_each_name(f@.directives.take(i as int)),
        decreases f.directives.len() - i,
    {
        proof {
            assert(f@.directives.take(i + 1).drop_last() =~= f@.directives.take(i as int));
            assert(f@.directives.take(i + 1).last() == f@.directives[i as int]);
        }
        match parse_directive(&f.directives[i]) {
            DirectiveKind::Each { name } => {
                appender = Option::Some(name);
            },
            DirectiveKind::Unknown { token } => {
                proof {
                    lemma_prefix_unknown_propagates(f@.directives, i + 1);
                }
                return Result::Err(
                    SchemaError::MalformedDirective { field: f.name.clone(), token },
                );
            },
        }
        i += 1;
    }
    proof {
        assert(f@.directives.take(f.directives.len() as int) =~= f@.directives);
    }
    let repeated = appender.is_some() || head_is(&f.declared_type.head, "Vec");
    let optional = !repeated && head_is(&f.declared_type.head, "Option");
    if repeated || optional {
        if f.declared_type.args.len() == 0 {
            Result::Err(SchemaError::UnwrapFailure { field: f.name.clone() })
        } else {
            let element_type = TypeDesc { head: f.declared_type.args[0].clone(), args: Vec::new() };
            let suppressed = match &appender {
                Option::Some(a) => *a == f.name,
                Option::None => false,
            };
            let s = FieldSpec {
                name: f.name.clone(),
                declared_type: f.declared_type.duplicate(),
                classification: if repeated {
                    Classification::Repeated
                } else {
                    Classification::Optional
                },
                element_type,
                appender_name: appender,
                bulk_setter_suppressed: suppressed,
            };
            proof {
                assert(s.element_type@ =~= spec_unwrapped(f@.declared_type));
                assert(s@ =~= spec_classify(f@)->Ok_0);
            }
            Result::Ok(s)
        }
    } else {
        let s = FieldSpec {
            name: f.name.clone(),
            declared_type: f.declared_type.duplicate(),
            classification: Classification::Required,
            element_type: f.declared_type.duplicate(),
            appender_name: Option::None,
            bulk_setter_suppressed: false,
        };
        proof {
            assert(s@ =~= spec_classify(f@)->Ok_0);
        }
        Result::Ok(s)
    }
}

/// Once a prefix of the directive list holds an unknown directive, the whole
/// list holds the same first unknown one.
proof fn lemma_prefix_unknown_propagates(dirs: Seq<RawDirectiveV>, k: int)
    requires
        0 <= k <= dirs.len(),
        first_unknown_directive(dirs.take(k)) is Some,
    ensures
        first_unknown_directive(dirs) == first_unknown_directive(dirs.take(k)),
    decreases dirs.len() - k,
{
    if k < dirs.len() {
        assert(dirs.take(k + 1).drop_last() =~= dirs.take(k));
        lemma_prefix_unknown_propagates(dirs, k + 1);
    } else {
        assert(dirs.take(k) =~= dirs);
    }
}

/// Once a prefix of the field list fails extraction, the whole list fails
/// with the same error.
proof fn lemma_prefix_err_propagates(fs: Seq<FieldDeclV>, k: int)
    requires
        0 <= k <= fs.len(),
        spec_extract_fields(fs.take(k)) is Err,
    ensures
        spec_extract_fields(fs) == spec_extract_fields(fs.take(k)),
    decreases fs.len() - k,
{
    if k < fs.len() {
        assert(fs.take(k + 1).drop_last() =~= fs.take(k));
        lemma_prefix_err_propagates(fs, k + 1);
    } else {
        assert(fs.take(k) =~= fs);
    }
}

/// The schema extractor.  For a declaration whose every field classifies, the
/// result is the normalized schema, field for field in declaration order;
/// otherwise it is the error of the first offending field.  A schema
/// extracted from a well-formed declaration is itself well formed.
pub fn extract(d: &RecordDecl) -> (r: Result<Schema, SchemaError>)
    ensures
        res_view(r) == spec_extract(d@),
        r matches Ok(s) ==> forall|i: int|
            0 <= i < s@.fields.len() ==> field_spec_wf(#[trigger] s@.fields[i]),
        r matches Ok(s) ==> decl_wf(d@) ==> crate::schema::schema_wf(s@),
{
    let ghost dv = d@;
    let mut out: Vec<FieldSpec> = Vec::new();
    let mut i: usize = 0;
    proof {
        assert(dv.fields.take(0) =~= Seq::<FieldDeclV>::empty());
        assert(out@.map_values(|f: FieldSpec| f@) =~= Seq::<FieldSpecV>::empty());
    }
    while i < d.fields.len()
        invariant
            i <= d.fields.len(),
            d@ == dv,
            spec_extract_fields(dv.fields.take(i as int)) == Result::<
                Seq<FieldSpecV>,
                SchemaErrorV,
            >::Ok(out@.map_values(|f: FieldSpec| f@)),
        decreases d.fields.len() - i,
    {
        proof {
            assert(dv.fields.take(i + 1).drop_last() =~= dv.fields.take(i as int));
            assert(dv.fields.take(i + 1).last() == dv.fields[i as int]);
        }
        match classify_field(&d.fields[i]) {
            Result::Ok(s) => {
                out.push(s);
                proof {
                    assert(out@.map_values(|f: FieldSpec| f@) =~= spec_extract_fields(
                        dv.fields.take(i + 1),
                    )->Ok_0);
                }
            },
            Result::Err(e) => {
                proof {
                    lemma_prefix_err_propagates(dv.fields, i + 1);
                }
                return Result::Err(e);
            },
        }
        i += 1;
    }
    proof {
        assert(dv.fields.take(d.fields.len() as int) =~= dv.fields);
    }
    let s = Schema { record_name: d.name.clone(), fields: out };
    proof {
        assert(s@ =~= spec_extract(dv)->Ok_0);
        let ss = s@.fields;
        lemma_extract_fields_ok(dv.fields, ss);
        assert forall|i: int| 0 <= i < ss.len() implies field_spec_wf(#[trigger] ss[i]) by {
            lemma_classify_wf(dv.fields[i], ss[i]);
        }
        if decl_wf(dv) {
            assert forall|i: int, j: int| 0 <= i < j < ss.len() implies ss[i].name != ss[j].name by {
                lemma_classify_wf(dv.fields[i], ss[i]);
                lemma_classify_wf(dv.fields[j], ss[j]);
            }
            assert(distinct_field_names(ss));
        }
    }
    Result::Ok(s)
}

} // verus!
