//! The artifact deriver: from a normalized [`Schema`] to a
//! [`BuilderArtifact`] — the builder's storage layout, its method surface
//! and the validation sequence its build step must run.  A pure function
//! with no failure path: a schema is already validated.

use vstd::prelude::*;
use crate::decl::{TypeDesc, TypeDescV};
use crate::schema::{Classification, FieldSpecV, Schema, SchemaV};
use crate::runtime::{build_post, some_required_missing, BuildError, BuildErrorV, FieldValueV, SlotV};

verus! {

/// How a storage slot holds its field: a present-or-absent value, or an
/// ordered sequence, empty by default.
#[derive(Clone, Copy, PartialEq, Eq, Structural, Debug)]
pub enum SlotKind {
    Single,
    Sequence,
}

/// One storage slot of the derived builder, private to it: the field it
/// holds, how it holds it, and the element type it is typed with.
pub struct StorageSlot {
    pub field: String,
    pub kind: SlotKind,
    pub element_type: TypeDesc,
}

/// Mathematical model of a [`StorageSlot`].
#[verifier::ext_equal]
pub struct StorageSlotV {
    pub field: Seq<char>,
    pub kind: SlotKind,
    pub element_type: TypeDescV,
}

impl View for StorageSlot {
    type V = StorageSlotV;

    open spec fn view(&self) -> StorageSlotV {
        StorageSlotV { field: self.field@, kind: self.kind, element_type: self.element_type@ }
    }
}

/// One method of the derived builder's surface: its name, the field it
/// works on, and its effect.
pub enum BuilderMethod {
    /// The zero-argument factory on the record type: a fresh builder, every
    /// slot at its initial state.
    Factory { name: String },
    /// A single-value setter: one value of the element type, stored as
    /// present.
    Setter { name: String, field: String, element_type: TypeDesc },
    /// A bulk setter: an ordered sequence of the element type, replacing the
    /// stored sequence wholesale.
    BulkSetter { name: String, field: String, element_type: TypeDesc },
    /// An appender: one value of the element type, appended to the stored
    /// sequence.
    Appender { name: String, field: String, element_type: TypeDesc },
}

/// Mathematical model of a [`BuilderMethod`].
#[verifier::ext_equal]
pub enum BuilderMethodV {
    Factory { name: Seq<char> },
    Setter { name: Seq<char>, field: Seq<char>, element_type: TypeDescV },
    BulkSetter { name: Seq<char>, field: Seq<char>, element_type: TypeDescV },
    Appender { name: Seq<char>, field: Seq<char>, element_type: TypeDescV },
}

impl View for BuilderMethod {
    type V = BuilderMethodV;

    open spec fn view(&self) -> BuilderMethodV {
        match self {
            BuilderMethod::Factory { name } => BuilderMethodV::Factory { name: name@ },
            BuilderMethod::Setter { name, field, element_type } => BuilderMethodV::Setter {
                name: name@,
                field: field@,
                element_type: element_type@,
            },
            BuilderMethod::BulkSetter { name, field, element_type } => BuilderMethodV::BulkSetter {
                name: name@,
                field: field@,
                element_type: element_type@,
            },
            BuilderMethod::Appender { name, field, element_type } => BuilderMethodV::Appender {
                name: name@,
                field: field@,
                element_type: element_type@,
            },
        }
    }
}

/// One step of the build-time validation: the field whose slot must be
/// present-checked, and the exact error the build raises when it is absent.
pub struct ValidationStep {
    pub field: String,
    pub error: BuildError,
}

/// Mathematical model of a [`ValidationStep`].
#[verifier::ext_equal]
pub struct ValidationStepV {
    pub field: Seq<char>,
    pub error: BuildErrorV,
}

impl View for ValidationStep {
    type V = ValidationStepV;

    open spec fn view(&self) -> ValidationStepV {
        ValidationStepV { field: self.field@, error: self.error@ }
    }
}

/// The derived artifact, ready for an emitter: storage slots, method
/// surface and validation sequence, each in the schema's declaration order.
pub struct BuilderArtifact {
    pub record_name: String,
    pub slots: Vec<StorageSlot>,
    pub methods: Vec<BuilderMethod>,
    pub validations: Vec<ValidationStep>,
}

/// Mathematical model of a [`BuilderArtifact`].
#[verifier::ext_equal]
pub struct BuilderArtifactV {
    pub record_name: Seq<char>,
    pub slots: Seq<StorageSlotV>,
    pub methods: Seq<BuilderMethodV>,
    pub validations: Seq<ValidationStepV>,
}

impl View for BuilderArtifact {
    type V = BuilderArtifactV;

    open spec fn view(&self) -> BuilderArtifactV {
        BuilderArtifactV {
            record_name: self.record_name@,
            slots: self.slots@.map_values(|s: StorageSlot| s@),
            methods: self.methods@.map_values(|m: BuilderMethod| m@),
            validations: self.validations@.map_values(|v: ValidationStep| v@),
        }
    }
}

/// The slot kind a classification prescribes.
pub open spec fn spec_slot_kind(c: Classification) -> SlotKind {
    match c {
        Classification::Repeated => SlotKind::Sequence,
        _ => SlotKind::Single,
    }
}

/// The storage slot derived for one field.
pub open spec fn spec_slot(f: FieldSpecV) -> StorageSlotV {
    StorageSlotV {
        field: f.name,
        kind: spec_slot_kind(f.classification),
        element_type: f.element_type,
    }
}

/// The storage layout: one slot per field, in declaration order.
pub open spec fn spec_slots(fields: Seq<FieldSpecV>) -> Seq<StorageSlotV>
    decreases fields.len(),
{
    if fields.len() == 0 {
        Seq::empty()
    } else {
        spec_slots(fields.drop_last()).push(spec_slot(fields.last()))
    }
}

/// The storage layout has one slot per field, in order.
pub proof fn lemma_slots_elementwise(fields: Seq<FieldSpecV>)
    ensures
        spec_slots(fields).len() == fields.len(),
        forall|i: int| 0 <= i < fields.len() ==> spec_slots(fields)[i] == spec_slot(#[trigger] fields[i]),
    decreases fields.len(),
{
    if fields.len() > 0 {
        lemma_slots_elementwise(fields.drop_last());
        assert(forall|i: int| 0 <= i < fields.len() - 1 ==> fields.drop_last()[i] == #[trigger] fields[i]);
    }
}

/// The methods derived for one field.  A required or optional field gets its
/// single-value setter, named after the field.  A repeated field gets a bulk
/// setter named after the field unless it suppresses it, and an appender
/// under its appender name when it carries one.
pub open spec fn spec_field_methods(f: FieldSpecV) -> Seq<BuilderMethodV> {
    match f.classification {
        Classification::Required | Classification::Optional => seq![
            BuilderMethodV::Setter { name: f.name, field: f.name, element_type: f.element_type },
        ],
        Classification::Repeated => (if !f.bulk_setter_suppressed {
            seq![
                BuilderMethodV::BulkSetter {
                    name: f.name,
                    field: f.name,
                    element_type: f.element_type,
                },
            ]
        } else {
            Seq::empty()
        }) + (match f.appender_name {
            Option::Some(a) => seq![
                BuilderMethodV::Appender { name: a, field: f.name, element_type: f.element_type },
            ],
            Option::None => Seq::empty(),
        }),
    }
}

/// The whole method surface: the factory first, then each field's methods in
/// declaration order.
pub open spec fn spec_methods(fields: Seq<FieldSpecV>) -> Seq<BuilderMethodV>
    decreases fields.len(),
{
    if fields.len() == 0 {
        seq![BuilderMethodV::Factory { name: "builder"@ }]
    } else {
        spec_methods(fields.drop_last()) + spec_field_methods(fields.last())
    }
}

/// The validation sequence: every required field, in declaration order, with
/// the error its absence raises.
pub open spec fn spec_validations(fields: Seq<FieldSpecV>) -> Seq<ValidationStepV>
    decreases fields.len(),
{
    if fields.len() == 0 {
        Seq::empty()
    } else {
        spec_validations(fields.drop_last()) + (if fields.last().classification is Required {
            seq![
                ValidationStepV {
                    field: fields.last().name,
                    error: BuildErrorV::MissingRequiredField { field: fields.last().name },
                },
            ]
        } else {
            Seq::empty()
        })
    }
}

/// The artifact derived from a schema.
pub open spec fn spec_derive(s: SchemaV) -> BuilderArtifactV {
    BuilderArtifactV {
        record_name: s.record_name,
        slots: spec_slots(s.fields),
        methods: spec_methods(s.fields),
        validations: spec_validations(s.fields),
    }
}

/// The artifact deriver, as [`spec_derive`] says: a pure function of the
/// schema, producing the storage layout, the method surface and the
/// validation sequence in the schema's declaration order.
pub fn derive(schema: &Schema) -> (a: BuilderArtifact)
    ensures
        a@ == spec_derive(schema@),
{
    let ghost fields = schema@.fields;
    let mut slots: Vec<StorageSlot> = Vec::new();
    let mut methods: Vec<BuilderMethod> = Vec::new();
    let mut validations: Vec<ValidationStep> = Vec::new();
    methods.push(BuilderMethod::Factory { name: String::from_str("builder") });
    proof {
        assert(fields.take(0) =~= Seq::<FieldSpecV>::empty());
        assert(slots@.map_values(|s: StorageSlot| s@) =~= spec_slots(fields.take(0)));
        assert(methods@.map_values(|m: BuilderMethod| m@) =~= spec_methods(fields.take(0)));
        assert(validations@.map_values(|v: ValidationStep| v@) =~= spec_validations(
            fields.take(0),
        ));
    }
    let mut i: usize = 0;
    while i < schema.fields.len()
        invariant
            i <= schema.fields.len(),
            schema@.fields == fields,
            slots@.map_values(|s: StorageSlot| s@) == spec_slots(fields.take(i as int)),
            methods@.map_values(|m: BuilderMethod| m@) == spec_methods(fields.take(i as int)),
            validations@.map_values(|v: ValidationStep| v@) == spec_validations(
                fields.take(i as int),
            ),
        decreases schema.fields.len() - i,
    {
        let f = &schema.fields[i];
        proof {
            assert(fields.take(i + 1).drop_last() =~= fields.take(i as int));
            assert(fields.take(i + 1).last() == fields[i as int]);
        }
        let kind = match f.classification {
            Classification::Repeated => SlotKind::Sequence,
            _ => SlotKind::Single,
        };
        let slot = StorageSlot {
            field: f.name.clone(),
            kind,
            element_type: f.element_type.duplicate(),
        };
        proof {
            assert(fields[i as int] == f@);
            assert(slot@ =~~= spec_slot(fields[i as int]));
        }
        slots.push(slot);
        proof {
            assert(slots@.map_values(|s: StorageSlot| s@) =~~= spec_slots(fields.take(i + 1)));
        }

        match f.classification {
            Classification::Required | Classification::Optional => {
                methods.push(
                    BuilderMethod::Setter {
                        name: f.name.clone(),
                        field: f.name.clone(),
                        element_type: f.element_type.duplicate(),
                    },
                );
            },
            Classification::Repeated => {
                if !f.bulk_setter_suppressed {
                    methods.push(
                        BuilderMethod::BulkSetter {
                            name: f.name.clone(),
                            field: f.name.clone(),
                            element_type: f.element_type.duplicate(),
                        },
                    );
                }
                match &f.appender_name {
                    Option::Some(a) => {
                        methods.push(
                            BuilderMethod::Appender {
                                name: a.clone(),
                                field: f.name.clone(),
                                element_type: f.element_type.duplicate(),
                            },
                        );
                    },
                    Option::None => {},
                }
            },
        }
        proof {
            assert(methods@.map_values(|m: BuilderMethod| m@) =~~= spec_methods(
                fields.take(i + 1),
            ));
        }
        let is_required = match f.classification {
            Classification::Required => true,
            _ => false,
        };
        if is_required {
            validations.push(
                ValidationStep {
                    field: f.name.clone(),
                    error: BuildError::MissingRequiredField { field: f.name.clone() },
                },
            );
        }
        proof {
            assert(validations@.map_values(|v: ValidationStep| v@) =~~= spec_validations(
                fields.take(i + 1),
            ));
        }
        i += 1;
    }
    proof {
        assert(fields.take(schema.fields.len() as int) =~= fields);
    }
    let a = BuilderArtifact {
        record_name: schema.record_name.clone(),
        slots,
        methods,
        validations,
    };
    proof {
        assert(a@ =~~= spec_derive(schema@));
    }
    a
}

/// Membership in the derived method surface: a method is the factory or
/// comes from exactly one field.
pub proof fn lemma_methods_membership(fields: Seq<FieldSpecV>, m: BuilderMethodV)
    requires
        spec_methods(fields).contains(m),
    ensures
        m == (BuilderMethodV::Factory { name: "builder"@ }) || exists|j: int|
            0 <= j < fields.len() && (#[trigger] spec_field_methods(fields[j])).contains(m),
    decreases fields.len(),
{
    if fields.len() > 0 {
        if spec_methods(fields.drop_last()).contains(m) {
            lemma_methods_membership(fields.drop_last(), m);
            if m != (BuilderMethodV::Factory { name: "builder"@ }) {
                let j = choose|j: int|
                    0 <= j < fields.drop_last().len() && (#[trigger] spec_field_methods(
                        fields.drop_last()[j],
                    )).contains(m);
                assert(spec_field_methods(fields[j]).contains(m));
            }
        } else {
            assert(spec_field_methods(fields[fields.len() - 1]).contains(m));
        }
    }
}

/// Law: a repeated field whose appender name equals its own name gets no
/// bulk setter — no method of the derived surface is a bulk setter for that
/// field.  With the field names distinct, nothing else can emit one either.
pub proof fn lemma_suppressed_field_has_no_bulk_setter(s: SchemaV, i: int)
    requires
        crate::schema::distinct_field_names(s.fields),
        0 <= i < s.fields.len(),
        s.fields[i].bulk_setter_suppressed,
    ensures
        forall|m: BuilderMethodV|
            #[trigger] spec_derive(s).methods.contains(m) ==> !(m matches
            BuilderMethodV::BulkSetter { field, .. } && field == s.fields[i].name),
{
    assert forall|m: BuilderMethodV| #[trigger] spec_derive(s).methods.contains(m) implies !(m
        matches BuilderMethodV::BulkSetter { field, .. } && field == s.fields[i].name) by {
        lemma_methods_membership(s.fields, m);
        if m matches BuilderMethodV::BulkSetter { field, .. } && field == s.fields[i].name {
            let j = choose|j: int|
                0 <= j < s.fields.len() && (#[trigger] spec_field_methods(s.fields[j])).contains(
                    m,
                );
            assert(s.fields[j].name == s.fields[i].name);
            if j != i {
                assert(s.fields[if j < i {
                    j
                } else {
                    i
                }].name != s.fields[if j < i {
                    i
                } else {
                    j
                }].name);
            }
        }
    }
}

/// Companion to the suppression law: a repeated field that does not suppress
/// its bulk setter does get one.
pub proof fn lemma_unsuppressed_field_has_bulk_setter(s: SchemaV, i: int)
    requires
        0 <= i < s.fields.len(),
        (s.fields[i].classification is Repeated),
        !s.fields[i].bulk_setter_suppressed,
    ensures
        spec_derive(s).methods.contains(
            BuilderMethodV::BulkSetter {
                name: s.fields[i].name,
                field: s.fields[i].name,
                element_type: s.fields[i].element_type,
            },
        ),
{
    lemma_field_methods_included(s.fields, i);
    let fm = spec_field_methods(s.fields[i]);
    assert(fm[0] == BuilderMethodV::BulkSetter {
        name: s.fields[i].name,
        field: s.fields[i].name,
        element_type: s.fields[i].element_type,
    });
    assert(fm.contains(fm[0]));
}

/// Every validation step raises the error that names its own field.
pub proof fn lemma_validation_steps_name_their_field(fields: Seq<FieldSpecV>)
    ensures
        forall|k: int|
            0 <= k < spec_validations(fields).len() ==> (#[trigger] spec_validations(
                fields,
            )[k]).error == (BuildErrorV::MissingRequiredField {
                field: spec_validations(fields)[k].field,
            }),
    decreases fields.len(),
{
    if fields.len() > 0 {
        lemma_validation_steps_name_their_field(fields.drop_last());
        let prefix = spec_validations(fields.drop_last());
        assert forall|k: int| 0 <= k < spec_validations(fields).len() implies (
        #[trigger] spec_validations(fields)[k]).error == (BuildErrorV::MissingRequiredField {
            field: spec_validations(fields)[k].field,
        }) by {
            if k < prefix.len() {
                assert(spec_validations(fields)[k] == prefix[k]);
            } else {
                assert(spec_validations(fields)[k] == ValidationStepV {
                    field: fields.last().name,
                    error: BuildErrorV::MissingRequiredField { field: fields.last().name },
                });
            }
        }
    }
}

/// Law: every required field is checked — its validation step, with the
/// error its absence raises, stands in the derived validation sequence.
pub proof fn lemma_required_field_is_validated(fields: Seq<FieldSpecV>, i: int)
    requires
        0 <= i < fields.len(),
        (fields[i].classification is Required),
    ensures
        spec_validations(fields).contains(
            ValidationStepV {
                field: fields[i].name,
                error: BuildErrorV::MissingRequiredField { field: fields[i].name },
            },
        ),
    decreases fields.len(),
{
    let step = ValidationStepV {
        field: fields[i].name,
        error: BuildErrorV::MissingRequiredField { field: fields[i].name },
    };
    if i < fields.len() - 1 {
        assert(fields.drop_last()[i] == fields[i]);
        lemma_required_field_is_validated(fields.drop_last(), i);
        let k = choose|k: int|
            0 <= k < spec_validations(fields.drop_last()).len() && spec_validations(
                fields.drop_last(),
            )[k] == step;
        assert(spec_validations(fields)[k] == step);
    } else {
        assert(spec_validations(fields)[spec_validations(fields.drop_last()).len() as int] == step);
    }
}

/// Law: when a build fails, the error it raises is one the derived
/// validation sequence prescribes — the step of the field it names.
pub proof fn lemma_build_error_is_validated(
    s: SchemaV,
    slots: Seq<SlotV>,
    r: Result<Seq<FieldValueV>, BuildErrorV>,
)
    requires
        build_post(s, slots, r),
    ensures
        r matches Err(e) ==> spec_derive(s).validations.contains(
            ValidationStepV { field: e->field, error: e },
        ),
{
    if r is Err {
        if !some_required_missing(s, slots) {
            assert(r is Ok);
        }
        let j = choose|j: int|
            {
                &&& 0 <= j < s.fields.len()
                &&& #[trigger] crate::runtime::required_missing_at(s, slots, j)
                &&& forall|i: int|
                    0 <= i < j ==> !crate::runtime::required_missing_at(s, slots, i)
                &&& r == Result::<Seq<FieldValueV>, BuildErrorV>::Err(
                    BuildErrorV::MissingRequiredField { field: s.fields[j].name },
                )
            };
        lemma_required_field_is_validated(s.fields, j);
    }
}

/// Law: every required and every optional field gets its single-value
/// setter, named after the field, in the derived method surface.
pub proof fn lemma_single_field_has_setter(s: SchemaV, i: int)
    requires
        0 <= i < s.fields.len(),
        !(s.fields[i].classification is Repeated),
    ensures
        spec_derive(s).methods.contains(
            BuilderMethodV::Setter {
                name: s.fields[i].name,
                field: s.fields[i].name,
                element_type: s.fields[i].element_type,
            },
        ),
{
    lemma_field_methods_included(s.fields, i);
    let fm = spec_field_methods(s.fields[i]);
    assert(fm[0] == BuilderMethodV::Setter {
        name: s.fields[i].name,
        field: s.fields[i].name,
        element_type: s.fields[i].element_type,
    });
    assert(fm.contains(fm[0]));
}

/// Law: every field that carries an appender name gets its appender, under
/// that name, in the derived method surface.
pub proof fn lemma_appender_is_emitted(s: SchemaV, i: int, a: Seq<char>)
    requires
        0 <= i < s.fields.len(),
        (s.fields[i].classification is Repeated),
        s.fields[i].appender_name == Option::Some(a),
    ensures
        spec_derive(s).methods.contains(
            BuilderMethodV::Appender {
                name: a,
                field: s.fields[i].name,
                element_type: s.fields[i].element_type,
            },
        ),
{
    lemma_field_methods_included(s.fields, i);
    let fm = spec_field_methods(s.fields[i]);
    assert(fm[fm.len() - 1] == BuilderMethodV::Appender {
        name: a,
        field: s.fields[i].name,
        element_type: s.fields[i].element_type,
    });
    assert(fm.contains(fm[fm.len() - 1]));
}

/// Every method derived for a field stands in the whole surface.
pub proof fn lemma_field_methods_included(fields: Seq<FieldSpecV>, i: int)
    requires
        0 <= i < fields.len(),
    ensures
        forall|m: BuilderMethodV|
            #[trigger] spec_field_methods(fields[i]).contains(m) ==> spec_methods(
                fields,
            ).contains(m),
    decreases fields.len(),
{
    if i < fields.len() - 1 {
        lemma_field_methods_included(fields.drop_last(), i);
        assert(fields.drop_last()[i] == fields[i]);
        assert forall|m: BuilderMethodV|
            #[trigger] spec_field_methods(fields[i]).contains(m) implies spec_methods(
            fields,
        ).contains(m) by {
            assert(spec_methods(fields.drop_last()).contains(m));
            let k = choose|k: int|
                0 <= k < spec_methods(fields.drop_last()).len() && spec_methods(
                    fields.drop_last(),
                )[k] == m;
            assert(spec_methods(fields)[k] == m);
        }
    } else {
        assert forall|m: BuilderMethodV|
            #[trigger] spec_field_methods(fields[i]).contains(m) implies spec_methods(
            fields,
        ).contains(m) by {
            let k = choose|k: int|
                0 <= k < spec_field_methods(fields[i]).len() && spec_field_methods(fields[i])[k]
                    == m;
            assert(spec_methods(fields)[spec_methods(fields.drop_last()).len() + k] == m);
        }
    }
}

} // verus!
