//! A state model of one generated builder instance: the storage slots the
//! artifact prescribes, the effect of each generated method on them, and the
//! build step with its validation.  Values are carried as plain strings; the
//! model gives the generated methods their meaning, independent of the host
//! language the emitter targets.

use vstd::prelude::*;
use crate::schema::{
    distinct_field_names, schema_wf, Classification, FieldSpecV, Schema, SchemaV,
};
use crate::extract::res_view;

verus! {

/// One storage slot of a builder instance: a present-or-absent value for a
/// required or optional field, an ordered sequence for a repeated field.
pub enum Slot {
    Single { value: Option<String> },
    Sequence { values: Vec<String> },
}

/// Mathematical model of a [`Slot`].
#[verifier::ext_equal]
pub enum SlotV {
    Single { value: Option<Seq<char>> },
    Sequence { values: Seq<Seq<char>> },
}

impl View for Slot {
    type V = SlotV;

    open spec fn view(&self) -> SlotV {
        match self {
            Slot::Single { value } => SlotV::Single {
                value: match value {
                    Option::Some(v) => Option::Some(v@),
                    Option::None => Option::None,
                },
            },
            Slot::Sequence { values } => SlotV::Sequence {
                values: values@.map_values(|v: String| v@),
            },
        }
    }
}

/// A builder instance: one slot per schema field, in declaration order.
pub struct Builder {
    pub slots: Vec<Slot>,
}

impl View for Builder {
    type V = Seq<SlotV>;

    open spec fn view(&self) -> Seq<SlotV> {
        self.slots@.map_values(|s: Slot| s@)
    }
}

/// One field of a constructed record: the value itself for a required field,
/// a possibly absent value for an optional field, the collected sequence for
/// a repeated field.
#[allow(inconsistent_fields)]
pub enum FieldValue {
    One { value: String },
    Maybe { value: Option<String> },
    Many { values: Vec<String> },
}

/// Mathematical model of a [`FieldValue`].
#[verifier::ext_equal]
#[allow(inconsistent_fields)]
pub enum FieldValueV {
    One { value: Seq<char> },
    Maybe { value: Option<Seq<char>> },
    Many { values: Seq<Seq<char>> },
}

impl View for FieldValue {
    type V = FieldValueV;

    open spec fn view(&self) -> FieldValueV {
        match self {
            FieldValue::One { value } => FieldValueV::One { value: value@ },
            FieldValue::Maybe { value } => FieldValueV::Maybe {
                value: match value {
                    Option::Some(v) => Option::Some(v@),
                    Option::None => Option::None,
                },
            },
            FieldValue::Many { values } => FieldValueV::Many {
                values: values@.map_values(|v: String| v@),
            },
        }
    }
}

/// A constructed record: one value per schema field, in declaration order.
pub struct RecordValue {
    pub fields: Vec<FieldValue>,
}

impl View for RecordValue {
    type V = Seq<FieldValueV>;

    open spec fn view(&self) -> Seq<FieldValueV> {
        self.fields@.map_values(|f: FieldValue| f@)
    }
}

/// The one error a generated build step raises: a required field whose slot
/// is absent at build time.
pub enum BuildError {
    MissingRequiredField { field: String },
}

/// Mathematical model of a [`BuildError`].
#[verifier::ext_equal]
pub enum BuildErrorV {
    MissingRequiredField { field: Seq<char> },
}

impl View for BuildError {
    type V = BuildErrorV;

    open spec fn view(&self) -> BuildErrorV {
        match self {
            BuildError::MissingRequiredField { field } => BuildErrorV::MissingRequiredField {
                field: field@,
            },
        }
    }
}

/// The slots of a builder instance match a schema: one slot per field, a
/// sequence slot exactly for a repeated field.
pub open spec fn slots_match(s: SchemaV, slots: Seq<SlotV>) -> bool {
    &&& slots.len() == s.fields.len()
    &&& forall|i: int|
        0 <= i < slots.len() ==> ((#[trigger] slots[i]) is Sequence <==> s.fields[i].classification
            is Repeated)
}

/// The initial slots for a schema: every single slot absent, every sequence
/// slot empty.
pub open spec fn spec_fresh_slots(s: SchemaV) -> Seq<SlotV> {
    Seq::new(
        s.fields.len(),
        |i: int|
            if s.fields[i].classification is Repeated {
                SlotV::Sequence { values: Seq::empty() }
            } else {
                SlotV::Single { value: Option::None }
            },
    )
}

/// There is a field of this name, set through a single-value setter: the
/// artifact emits one exactly for required and optional fields.
pub open spec fn has_single_field(s: SchemaV, name: Seq<char>) -> bool {
    exists|i: int|
        0 <= i < s.fields.len() && (#[trigger] s.fields[i]).name == name && !(s.fields[i].classification
            is Repeated)
}

/// There is a field of this name, repeated and with its bulk setter emitted.
pub open spec fn has_bulk_field(s: SchemaV, name: Seq<char>) -> bool {
    exists|i: int|
        0 <= i < s.fields.len() && (#[trigger] s.fields[i]).name == name && s.fields[i].classification
            is Repeated && !s.fields[i].bulk_setter_suppressed
}

/// There is a field whose appender carries this name.
pub open spec fn has_appender(s: SchemaV, name: Seq<char>) -> bool {
    exists|i: int|
        0 <= i < s.fields.len() && (#[trigger] s.fields[i]).appender_name == Option::Some(name)
}

/// No two fields share an appender name: what keeps the emitted method
/// surface free of name clashes between appenders.
pub open spec fn distinct_appender_names(fields: Seq<FieldSpecV>) -> bool {
    forall|i: int, j: int|
        0 <= i < j < fields.len() && (#[trigger] fields[i]).appender_name is Some ==> fields[i].appender_name
            != (#[trigger] fields[j]).appender_name
}

/// The index of the field with this name.
pub open spec fn field_index(s: SchemaV, name: Seq<char>) -> int {
    choose|i: int| 0 <= i < s.fields.len() && (#[trigger] s.fields[i]).name == name
}

/// The index of the field whose appender carries this name.
pub open spec fn appender_index(s: SchemaV, name: Seq<char>) -> int {
    choose|i: int|
        0 <= i < s.fields.len() && (#[trigger] s.fields[i]).appender_name == Option::Some(name)
}

/// With distinct field names, [`field_index`] is the one index carrying the
/// name, and it inherits whatever the existential that located it states.
proof fn lemma_field_index_unique(s: SchemaV, name: Seq<char>, w: int)
    requires
        distinct_field_names(s.fields),
        0 <= w < s.fields.len(),
        s.fields[w].name == name,
    ensures
        field_index(s, name) == w,
{
    assert(exists|i: int| 0 <= i < s.fields.len() && (#[trigger] s.fields[i]).name == name);
    let fi = field_index(s, name);
    assert(0 <= fi < s.fields.len() && s.fields[fi].name == name);
    if fi != w {
        assert(s.fields[fi].name != s.fields[w].name);
    }
}

/// With distinct appender names, [`appender_index`] is the one index whose
/// field carries the appender.
proof fn lemma_appender_index_unique(s: SchemaV, name: Seq<char>, w: int)
    requires
        distinct_appender_names(s.fields),
        0 <= w < s.fields.len(),
        s.fields[w].appender_name == Option::Some(name),
    ensures
        appender_index(s, name) == w,
{
    assert(exists|i: int|
        0 <= i < s.fields.len() && (#[trigger] s.fields[i]).appender_name == Option::Some(name));
    let ai = appender_index(s, name);
    assert(0 <= ai < s.fields.len() && s.fields[ai].appender_name == Option::Some(name));
    if ai != w {
        assert(s.fields[if ai < w {
            ai
        } else {
            w
        }].appender_name != s.fields[if ai < w {
            w
        } else {
            ai
        }].appender_name);
    }
}

/// The slots after one append of `v` to the sequence slot at `i`.
pub open spec fn spec_append_slot(slots: Seq<SlotV>, i: int, v: Seq<char>) -> Seq<SlotV> {
    slots.update(i, SlotV::Sequence { values: slots[i]->Sequence_values.push(v) })
}

/// A required field whose slot is absent: what the build validation checks.
pub open spec fn required_missing_at(s: SchemaV, slots: Seq<SlotV>, i: int) -> bool {
    s.fields[i].classification is Required && slots[i] == SlotV::Single {
        value: Option::None::<Seq<char>>,
    }
}

pub open spec fn some_required_missing(s: SchemaV, slots: Seq<SlotV>) -> bool {
    exists|i: int| 0 <= i < s.fields.len() && #[trigger] required_missing_at(s, slots, i)
}

/// The value a successful build takes from one slot: the present value of a
/// required field, the slot as it stands for an optional field, the sequence
/// verbatim for a repeated field.
pub open spec fn spec_field_value(f: FieldSpecV, slot: SlotV) -> FieldValueV {
    match f.classification {
        Classification::Required => FieldValueV::One { value: slot->Single_value->Some_0 },
        Classification::Optional => FieldValueV::Maybe { value: slot->Single_value },
        Classification::Repeated => FieldValueV::Many { values: slot->Sequence_values },
    }
}

/// The record a successful build constructs.
pub open spec fn spec_built_record(s: SchemaV, slots: Seq<SlotV>) -> Seq<FieldValueV> {
    Seq::new(s.fields.len(), |i: int| spec_field_value(s.fields[i], slots[i]))
}

/// What the build step returns on the given slots: if some required field is
/// missing, the error naming the first such field in declaration order;
/// otherwise the record read off the slots.  An absent optional slot and an
/// empty sequence are legal final states, never errors.
pub open spec fn build_post(
    s: SchemaV,
    slots: Seq<SlotV>,
    r: Result<Seq<FieldValueV>, BuildErrorV>,
) -> bool {
    if some_required_missing(s, slots) {
        exists|j: int|
            {
                &&& 0 <= j < s.fields.len()
                &&& #[trigger] required_missing_at(s, slots, j)
                &&& forall|i: int| 0 <= i < j ==> !required_missing_at(s, slots, i)
                &&& r == Result::<Seq<FieldValueV>, BuildErrorV>::Err(
                    BuildErrorV::MissingRequiredField { field: s.fields[j].name },
                )
            }
    } else {
        r == Result::<Seq<FieldValueV>, BuildErrorV>::Ok(spec_built_record(s, slots))
    }
}

/// The factory: a fresh builder for this schema, every slot at its initial
/// absent or empty state.
pub fn new_builder(schema: &Schema) -> (b: Builder)
    ensures
        b@ == spec_fresh_slots(schema@),
        slots_match(schema@, b@),
{
    let mut slots: Vec<Slot> = Vec::new();
    let mut i: usize = 0;
    while i < schema.fields.len()
        invariant
            i <= schema.fields.len(),
            slots@.len() == i as int,
            forall|k: int| 0 <= k < i as int ==> slots@[k]@ == spec_fresh_slots(schema@)[k],
        decreases schema.fields.len() - i,
    {
        let is_repeated = match schema.fields[i].classification {
            Classification::Repeated => true,
            _ => false,
        };
        if is_repeated {
            slots.push(Slot::Sequence { values: Vec::new() });
        } else {
            slots.push(Slot::Single { value: Option::None });
        }
        proof {
            assert(slots@[i as int]@ =~= spec_fresh_slots(schema@)[i as int]);
        }
        i += 1;
    }
    let b = Builder { slots };
    proof {
        assert(b@ =~= spec_fresh_slots(schema@));
    }
    b
}

/// Copy an optional value; the copy equals the source value.
fn clone_opt_value(v: &Option<String>) -> (r: Option<String>)
    ensures
        r == *v,
{
    match v {
        Option::Some(s) => Option::Some(s.clone()),
        Option::None => Option::None,
    }
}

/// Copy a vector of values; the copy has the same model.
fn clone_values(v: &Vec<String>) -> (r: Vec<String>)
    ensures
        r@ == v@,
{
    let mut out: Vec<String> = Vec::new();
    let mut i: usize = 0;
    while i < v.len()
        invariant
            i <= v.len(),
            out@.len() == i as int,
            forall|k: int| 0 <= k < i as int ==> out@[k] == v@[k],
        decreases v.len() - i,
    {
        out.push(v[i].clone());
        i += 1;
    }
    proof {
        assert(out@ =~= v@);
    }
    out
}

impl Builder {
    /// The single-value setter for the field named `name`: stores the value
    /// as present, leaving every other slot untouched.  Emitted for required
    /// and optional fields; a repeated field has no such method.
    pub fn set_value(&mut self, schema: &Schema, name: &str, value: String)
        requires
            slots_match(schema@, old(self)@),
            distinct_field_names(schema@.fields),
            has_single_field(schema@, name@),
        ensures
            final(self)@ == old(self)@.update(
                field_index(schema@, name@),
                SlotV::Single { value: Option::Some(value@) },
            ),
    {
        proof {
            let w = choose|i: int|
                0 <= i < schema@.fields.len() && (#[trigger] schema@.fields[i]).name == name@
                    && !(schema@.fields[i].classification is Repeated);
            lemma_field_index_unique(schema@, name@, w);
        }
        let key = String::from_str(name);
        let ghost target = field_index(schema@, name@);
        let mut i: usize = 0;
        while i < schema.fields.len()
            invariant
                slots_match(schema@, self@),
                distinct_field_names(schema@.fields),
                self@ == old(self)@,
                key@ == name@,
                target == field_index(schema@, name@),
                0 <= target < schema@.fields.len(),
                schema@.fields[target].name == name@,
                i <= schema.fields.len(),
                forall|k: int| 0 <= k < i as int ==> (#[trigger] schema@.fields[k]).name != name@,
            decreases schema.fields.len() - i,
        {
            if schema.fields[i].name == key {
                proof {
                    lemma_field_index_unique(schema@, name@, i as int);
                    assert(i < self.slots@.len());
                }
                self.slots[i] = Slot::Single { value: Option::Some(value) };
                proof {
                    assert(self@ =~= old(self)@.update(
                        target,
                        SlotV::Single { value: Option::Some(value@) },
                    ));
                }
                return ;
            }
            i += 1;
        }
        proof {
            assert(false);
        }
    }

    /// The bulk setter for the repeated field named `name`: replaces the
    /// stored sequence wholesale.  Emitted exactly for a repeated field that
    /// does not suppress it.
    pub fn set_elements(&mut self, schema: &Schema, name: &str, values: Vec<String>)
        requires
            slots_match(schema@, old(self)@),
            distinct_field_names(schema@.fields),
            has_bulk_field(schema@, name@),
        ensures
            final(self)@ == old(self)@.update(
                field_index(schema@, name@),
                SlotV::Sequence { values: values@.map_values(|v: String| v@) },
            ),
    {
        proof {
            let w = choose|i: int|
                0 <= i < schema@.fields.len() && (#[trigger] schema@.fields[i]).name == name@
                    && schema@.fields[i].classification is Repeated
                    && !schema@.fields[i].bulk_setter_suppressed;
            lemma_field_index_unique(schema@, name@, w);
        }
        let key = String::from_str(name);
        let ghost target = field_index(schema@, name@);
        let mut i: usize = 0;
        while i < schema.fields.len()
            invariant
                slots_match(schema@, self@),
                distinct_field_names(schema@.fields),
                self@ == old(self)@,
                key@ == name@,
                target == field_index(schema@, name@),
                0 <= target < schema@.fields.len(),
                schema@.fields[target].name == name@,
                i <= schema.fields.len(),
                forall|k: int| 0 <= k < i as int ==> (#[trigger] schema@.fields[k]).name != name@,
            decreases schema.fields.len() - i,
        {
            if schema.fields[i].name == key {
                proof {
                    lemma_field_index_unique(schema@, name@, i as int);
                    assert(i < self.slots@.len());
                }
                self.slots[i] = Slot::Sequence { values };
                proof {
                    assert(self@ =~= old(self)@.update(
                        target,
                        SlotV::Sequence { values: values@.map_values(|v: String| v@) },
                    ));
                }
                return ;
            }
            i += 1;
        }
        proof {
            assert(false);
        }
    }

    /// The appender named `name`: appends one value to the sequence of the
    /// repeated field carrying this appender, leaving every other slot
    /// untouched.
    pub fn append_value(&mut self, schema: &Schema, name: &str, value: String)
        requires
            slots_match(schema@, old(self)@),
            schema_wf(schema@),
            distinct_appender_names(schema@.fields),
            has_appender(schema@, name@),
        ensures
            final(self)@ == spec_append_slot(old(self)@, appender_index(schema@, name@), value@),
    {
        proof {
            let w = choose|i: int|
                0 <= i < schema@.fields.len() && (#[trigger] schema@.fields[i]).appender_name
                    == Option::Some(name@);
            lemma_appender_index_unique(schema@, name@, w);
        }
        let key = String::from_str(name);
        let ghost target = appender_index(schema@, name@);
        let mut i: usize = 0;
        while i < schema.fields.len()
            invariant
                slots_match(schema@, self@),
                schema_wf(schema@),
                distinct_appender_names(schema@.fields),
                self@ == old(self)@,
                key@ == name@,
                target == appender_index(schema@, name@),
                0 <= target < schema@.fields.len(),
                schema@.fields[target].appender_name == Option::Some(name@),
                i <= schema.fields.len(),
                forall|k: int|
                    0 <= k < i as int ==> (#[trigger] schema@.fields[k]).appender_name
                        != Option::Some(name@),
            decreases schema.fields.len() - i,
        {
            let hit = match &schema.fields[i].appender_name {
                Option::Some(a) => *a == key,
                Option::None => false,
            };
            if hit {
                proof {
                    lemma_appender_index_unique(schema@, name@, i as int);
                    assert(schema@.fields[i as int].classification is Repeated);
                    assert(self@[i as int] is Sequence);
                    assert(i < self.slots@.len());
                }
                let slot_ref = &mut self.slots[i];
                match slot_ref {
                    Slot::Sequence { values } => {
                        values.push(value);
                    },
                    Slot::Single { .. } => {
                        proof {
                            assert(false);
                        }
                    },
                }
                proof {
                    assert(self@[i as int] =~= spec_append_slot(old(self)@, target, value@)[i as int]);
                    assert(self@ =~~= spec_append_slot(old(self)@, target, value@));
                }
                return ;
            }
            i += 1;
        }
        proof {
            assert(false);
        }
    }

    /// The build step.  It borrows the builder: the slots survive the call
    /// unchanged, so the builder stays usable, after a failure as after a
    /// success.  The result is as [`build_post`] says: the first missing
    /// required field in declaration order fails the build and names itself;
    /// otherwise the record is read off the slots.
    pub fn build(&self, schema: &Schema) -> (r: Result<RecordValue, BuildError>)
        requires
            slots_match(schema@, self@),
        ensures
            build_post(schema@, self@, res_view(r)),
    {
        let mut i: usize = 0;
        while i < schema.fields.len()
            invariant
                slots_match(schema@, self@),
                i <= schema.fields.len(),
                forall|k: int| 0 <= k < i as int ==> !required_missing_at(schema@, self@, k),
            decreases schema.fields.len() - i,
        {
            let is_required = match schema.fields[i].classification {
                Classification::Required => true,
                _ => false,
            };
            if is_required {
                let missing = match &self.slots[i] {
                    Slot::Single { value: Option::None } => true,
                    _ => false,
                };
                if missing {
                    proof {
                        assert(self@[i as int] =~= SlotV::Single {
                            value: Option::None::<Seq<char>>,
                        });
                        assert(required_missing_at(schema@, self@, i as int));
                        assert(some_required_missing(schema@, self@));
                    }
                    return Result::Err(
                        BuildError::MissingRequiredField { field: schema.fields[i].name.clone() },
                    );
                }
            }
            i += 1;
        }
        proof {
            assert(!some_required_missing(schema@, self@)) by {
                if some_required_missing(schema@, self@) {
                    let j = choose|j: int|
                        0 <= j < schema@.fields.len() && #[trigger] required_missing_at(
                            schema@,
                            self@,
                            j,
                        );
                    assert(!required_missing_at(schema@, self@, j));
                }
            }
        }
        let mut out: Vec<FieldValue> = Vec::new();
        let mut i: usize = 0;
        while i < schema.fields.len()
            invariant
                slots_match(schema@, self@),
                !some_required_missing(schema@, self@),
                forall|k: int| 0 <= k < schema@.fields.len() ==> !required_missing_at(
                    schema@,
                    self@,
                    k,
                ),
                i <= schema.fields.len(),
                out@.len() == i as int,
                forall|k: int|
                    0 <= k < i as int ==> out@[k]@ == spec_field_value(
                        schema@.fields[k],
                        self@[k],
                    ),
            decreases schema.fields.len() - i,
        {
            let fv = match schema.fields[i].classification {
                Classification::Required => {
                    match &self.slots[i] {
                        Slot::Single { value: Option::Some(v) } => FieldValue::One {
                            value: v.clone(),
                        },
                        _ => {
                            proof {
                                assert(!required_missing_at(schema@, self@, i as int));
                                assert(!(self@[i as int] is Sequence));
                                assert(false);
                            }
                            vstd::pervasive::unreached()
                        },
                    }
                },
                Classification::Optional => {
                    match &self.slots[i] {
                        Slot::Single { value } => FieldValue::Maybe {
                            value: clone_opt_value(value),
                        },
                        Slot::Sequence { .. } => {
                            proof {
                                assert(!(self@[i as int] is Sequence));
                                assert(false);
                            }
                            vstd::pervasive::unreached()
                        },
                    }
                },
                Classification::Repeated => {
                    match &self.slots[i] {
                        Slot::Sequence { values } => FieldValue::Many {
                            values: clone_values(values),
                        },
                        Slot::Single { .. } => {
                            proof {
                                assert(self@[i as int] is Sequence);
                                assert(false);
                            }
                            vstd::pervasive::unreached()
                        },
                    }
                },
            };
            proof {
                assert(fv@ =~= spec_field_value(schema@.fields[i as int], self@[i as int]));
            }
            out.push(fv);
            i += 1;
        }
        let rec = RecordValue { fields: out };
        proof {
            assert(rec@ =~= spec_built_record(schema@, self@));
        }
        Result::Ok(rec)
    }
}

/// Law: a record whose fields are all required, with every slot set, builds
/// to exactly the record made directly from the stored values.  Each slot is
/// what one call of the field's setter leaves behind, so a builder whose
/// every setter ran once builds the record those values make.
pub proof fn lemma_all_required_build(
    s: SchemaV,
    slots: Seq<SlotV>,
    vals: Seq<Seq<char>>,
    r: Result<Seq<FieldValueV>, BuildErrorV>,
)
    requires
        slots.len() == s.fields.len(),
        vals.len() == s.fields.len(),
        forall|i: int|
            0 <= i < s.fields.len() ==> ((#[trigger] s.fields[i]).classification is Required),
        forall|i: int|
            0 <= i < slots.len() ==> #[trigger] slots[i] == (SlotV::Single {
                value: Option::Some(vals[i]),
            }),
        build_post(s, slots, r),
    ensures
        r == Result::<Seq<FieldValueV>, BuildErrorV>::Ok(
            vals.map_values(|v: Seq<char>| FieldValueV::One { value: v }),
        ),
{
    assert(!some_required_missing(s, slots)) by {
        if some_required_missing(s, slots) {
            let j = choose|j: int|
                0 <= j < s.fields.len() && #[trigger] required_missing_at(s, slots, j);
            assert(slots[j] == SlotV::Single { value: Option::Some(vals[j]) });
        }
    }
    assert(spec_built_record(s, slots) =~= vals.map_values(
        |v: Seq<char>| FieldValueV::One { value: v },
    ));
}

/// The slots after the single-value setter of each of the first `k` fields
/// ran once, in declaration order, each storing its own value: the state
/// [`Builder::set_value`]'s contract leaves behind, applied field by field.
pub open spec fn spec_after_setters(
    s: SchemaV,
    slots: Seq<SlotV>,
    vals: Seq<Seq<char>>,
    k: int,
) -> Seq<SlotV>
    decreases k,
{
    if k <= 0 {
        slots
    } else {
        spec_after_setters(s, slots, vals, k - 1).update(
            field_index(s, s.fields[k - 1].name),
            SlotV::Single { value: Option::Some(vals[k - 1]) },
        )
    }
}

/// After every one of the first `k` setters ran once on a fresh builder,
/// the first `k` slots hold their values and the rest are still fresh.
proof fn lemma_after_setters_state(s: SchemaV, vals: Seq<Seq<char>>, k: int)
    requires
        distinct_field_names(s.fields),
        vals.len() == s.fields.len(),
        0 <= k <= s.fields.len(),
    ensures
        spec_after_setters(s, spec_fresh_slots(s), vals, k).len() == s.fields.len(),
        forall|i: int|
            0 <= i < k ==> spec_after_setters(s, spec_fresh_slots(s), vals, k)[i] == (
            SlotV::Single { value: Option::Some(vals[i]) }),
        forall|i: int|
            k <= i < s.fields.len() ==> spec_after_setters(s, spec_fresh_slots(s), vals, k)[i]
                == spec_fresh_slots(s)[i],
    decreases k,
{
    if k > 0 {
        lemma_after_setters_state(s, vals, k - 1);
        lemma_field_index_unique(s, s.fields[k - 1].name, k - 1);
    }
}

/// Law: for a record whose fields are all required, a fresh builder on
/// which every setter ran exactly once — the setter of field `k` storing
/// `vals[k]` — builds exactly the record made directly from those values.
pub proof fn lemma_every_setter_once_then_build(
    s: SchemaV,
    vals: Seq<Seq<char>>,
    r: Result<Seq<FieldValueV>, BuildErrorV>,
)
    requires
        distinct_field_names(s.fields),
        forall|i: int|
            0 <= i < s.fields.len() ==> ((#[trigger] s.fields[i]).classification is Required),
        vals.len() == s.fields.len(),
        build_post(
            s,
            spec_after_setters(s, spec_fresh_slots(s), vals, s.fields.len() as int),
            r,
        ),
    ensures
        r == Result::<Seq<FieldValueV>, BuildErrorV>::Ok(
            vals.map_values(|v: Seq<char>| FieldValueV::One { value: v }),
        ),
{
    let n = s.fields.len() as int;
    lemma_after_setters_state(s, vals, n);
    lemma_all_required_build(s, spec_after_setters(s, spec_fresh_slots(s), vals, n), vals, r);
}

/// Law: an optional field never set is absent in the built record, and its
/// absence never fails the build: with every required field present the
/// build succeeds and hands the optional field back as absent.
pub proof fn lemma_optional_unset_is_absent(
    s: SchemaV,
    slots: Seq<SlotV>,
    r: Result<Seq<FieldValueV>, BuildErrorV>,
    j: int,
)
    requires
        !some_required_missing(s, slots),
        build_post(s, slots, r),
        0 <= j < s.fields.len(),
        (s.fields[j].classification is Optional),
        slots[j] == (SlotV::Single { value: Option::None::<Seq<char>> }),
    ensures
        r matches Ok(rec) && rec[j] == (FieldValueV::Maybe { value: Option::None::<Seq<char>> }),
{
    assert(spec_built_record(s, slots)[j] == FieldValueV::Maybe {
        value: Option::None::<Seq<char>>,
    });
}

/// Law: appending three values one at a time to an empty sequence slot
/// leaves the very state one bulk replacement with the three values leaves.
pub proof fn lemma_append_matches_bulk(
    slots: Seq<SlotV>,
    i: int,
    v1: Seq<char>,
    v2: Seq<char>,
    v3: Seq<char>,
)
    requires
        0 <= i < slots.len(),
        slots[i] == (SlotV::Sequence { values: Seq::<Seq<char>>::empty() }),
    ensures
        spec_append_slot(spec_append_slot(spec_append_slot(slots, i, v1), i, v2), i, v3)
            == slots.update(i, SlotV::Sequence { values: seq![v1, v2, v3] }),
{
    assert(Seq::<Seq<char>>::empty().push(v1).push(v2).push(v3) =~= seq![v1, v2, v3]);
    assert(spec_append_slot(spec_append_slot(spec_append_slot(slots, i, v1), i, v2), i, v3)
        =~= slots.update(i, SlotV::Sequence { values: seq![v1, v2, v3] }));
}

/// Law: a failing build names exactly the first missing required field in
/// declaration order.
pub proof fn lemma_build_error_names_first_missing(
    s: SchemaV,
    slots: Seq<SlotV>,
    r: Result<Seq<FieldValueV>, BuildErrorV>,
    j: int,
)
    requires
        build_post(s, slots, r),
        0 <= j < s.fields.len(),
        required_missing_at(s, slots, j),
        forall|i: int| 0 <= i < j ==> !required_missing_at(s, slots, i),
    ensures
        r == Result::<Seq<FieldValueV>, BuildErrorV>::Err(
            BuildErrorV::MissingRequiredField { field: s.fields[j].name },
        ),
{
    assert(some_required_missing(s, slots));
    let j2 = choose|j2: int|
        {
            &&& 0 <= j2 < s.fields.len()
            &&& #[trigger] required_missing_at(s, slots, j2)
            &&& forall|i: int| 0 <= i < j2 ==> !required_missing_at(s, slots, i)
            &&& r == Result::<Seq<FieldValueV>, BuildErrorV>::Err(
                BuildErrorV::MissingRequiredField { field: s.fields[j2].name },
            )
        };
    if j2 < j {
        assert(!required_missing_at(s, slots, j2));
    } else if j < j2 {
        assert(!required_missing_at(s, slots, j));
    }
}

/// Law: after a build failed on the one missing required field, supplying
/// that field makes the next build succeed.
pub proof fn lemma_supplying_missing_field(
    s: SchemaV,
    slots: Seq<SlotV>,
    j: int,
    v: Seq<char>,
    r2: Result<Seq<FieldValueV>, BuildErrorV>,
)
    requires
        0 <= j < s.fields.len(),
        forall|i: int|
            0 <= i < s.fields.len() && i != j ==> !required_missing_at(s, slots, i),
        slots.len() == s.fields.len(),
        build_post(s, slots.update(j, SlotV::Single { value: Option::Some(v) }), r2),
    ensures
        (r2 is Ok),
{
    let slots2 = slots.update(j, SlotV::Single { value: Option::Some(v) });
    assert(!some_required_missing(s, slots2)) by {
        if some_required_missing(s, slots2) {
            let k = choose|k: int|
                0 <= k < s.fields.len() && #[trigger] required_missing_at(s, slots2, k);
            if k != j {
                assert(slots2[k] == slots[k]);
                assert(required_missing_at(s, slots, k));
            }
        }
    }
}

/// Law: the build result is a function of the schema and the slots alone,
/// and build only borrows the slots; two builds in a row, with no setter
/// call between them, return equal results.
pub proof fn lemma_build_deterministic(
    s: SchemaV,
    slots: Seq<SlotV>,
    r1: Result<Seq<FieldValueV>, BuildErrorV>,
    r2: Result<Seq<FieldValueV>, BuildErrorV>,
)
    requires
        build_post(s, slots, r1),
        build_post(s, slots, r2),
    ensures
        r1 == r2,
{
    if some_required_missing(s, slots) {
        let j1 = choose|j: int|
            {
                &&& 0 <= j < s.fields.len()
                &&& #[trigger] required_missing_at(s, slots, j)
                &&& forall|i: int| 0 <= i < j ==> !required_missing_at(s, slots, i)
                &&& r1 == Result::<Seq<FieldValueV>, BuildErrorV>::Err(
                    BuildErrorV::MissingRequiredField { field: s.fields[j].name },
                )
            };
        lemma_build_error_names_first_missing(s, slots, r2, j1);
    }
}

} // verus!
