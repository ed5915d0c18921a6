//! The input side of the generator: an abstract record declaration, as a host
//! type-introspection facility hands it over.  The library never reads source
//! text; a declaration arrives already tokenized, as plain values.

use vstd::prelude::*;

verus! {

/// The shape of a declared type: its outermost identifier and the written
/// text of each generic argument.  One layer is all the generator ever
/// inspects; an argument is carried as opaque text.
pub struct TypeDesc {
    pub head: String,
    pub args: Vec<String>,
}

/// Mathematical model of a [`TypeDesc`].
#[verifier::ext_equal]
pub struct TypeDescV {
    pub head: Seq<char>,
    pub args: Seq<Seq<char>>,
}

impl View for TypeDesc {
    type V = TypeDescV;

    open spec fn view(&self) -> TypeDescV {
        TypeDescV { head: self.head@, args: self.args@.map_values(|a: String| a@) }
    }
}

impl TypeDesc {
    /// Copy this type descriptor; the copy has the same model.
    pub fn duplicate(&self) -> (r: TypeDesc)
        ensures
            r@ == self@,
    {
        let mut args: Vec<String> = Vec::new();
        let mut i: usize = 0;
        while i < self.args.len()
            invariant
                i <= self.args.len(),
                args@.len() == i as int,
                forall|k: int| 0 <= k < i as int ==> args@[k] == self.args@[k],
            decreases self.args.len() - i,
        {
            args.push(self.args[i].clone());
            i += 1;
        }
        let r = TypeDesc { head: self.head.clone(), args };
        proof {
            assert(r.args@ =~= self.args@);
            assert(r@ =~= self@);
        }
        r
    }
}

/// The parsed shape of one directive token attached to a field.
pub enum DirectiveShape {
    /// A `key = "value"` assignment with an identifier on the left and a
    /// string literal on the right: the only shape the generator recognizes.
    StrAssign { key: String, value: String },
    /// Any other token shape.
    Other,
}

/// Mathematical model of a [`DirectiveShape`].
#[verifier::ext_equal]
pub enum DirectiveShapeV {
    StrAssign { key: Seq<char>, value: Seq<char> },
    Other,
}

impl View for DirectiveShape {
    type V = DirectiveShapeV;

    open spec fn view(&self) -> DirectiveShapeV {
        match self {
            DirectiveShape::StrAssign { key, value } => DirectiveShapeV::StrAssign {
                key: key@,
                value: value@,
            },
            DirectiveShape::Other => DirectiveShapeV::Other,
        }
    }
}

/// One directive token attached to a field: its text as written, kept for
/// diagnostics, and its parsed shape.
pub struct RawDirective {
    pub text: String,
    pub shape: DirectiveShape,
}

/// Mathematical model of a [`RawDirective`].
#[verifier::ext_equal]
pub struct RawDirectiveV {
    pub text: Seq<char>,
    pub shape: DirectiveShapeV,
}

impl View for RawDirective {
    type V = RawDirectiveV;

    open spec fn view(&self) -> RawDirectiveV {
        RawDirectiveV { text: self.text@, shape: self.shape@ }
    }
}

/// One declared field: its name, its declared type, and the raw directive
/// tokens attached to it, all in declaration order.
pub struct FieldDecl {
    pub name: String,
    pub declared_type: TypeDesc,
    pub directives: Vec<RawDirective>,
}

/// Mathematical model of a [`FieldDecl`].
#[verifier::ext_equal]
pub struct FieldDeclV {
    pub name: Seq<char>,
    pub declared_type: TypeDescV,
    pub directives: Seq<RawDirectiveV>,
}

impl View for FieldDecl {
    type V = FieldDeclV;

    open spec fn view(&self) -> FieldDeclV {
        FieldDeclV {
            name: self.name@,
            declared_type: self.declared_type@,
            directives: self.directives@.map_values(|d: RawDirective| d@),
        }
    }
}

/// An abstract record declaration: the record's name and its ordered fields.
pub struct RecordDecl {
    pub name: String,
    pub fields: Vec<FieldDecl>,
}

/// Mathematical model of a [`RecordDecl`].
#[verifier::ext_equal]
pub struct RecordDeclV {
    pub name: Seq<char>,
    pub fields: Seq<FieldDeclV>,
}

impl View for RecordDecl {
    type V = RecordDeclV;

    open spec fn view(&self) -> RecordDeclV {
        RecordDeclV { name: self.name@, fields: self.fields@.map_values(|f: FieldDecl| f@) }
    }
}

/// A declaration is well formed when its field names are pairwise distinct.
/// The host guarantees this: a record cannot declare one name twice.
pub open spec fn decl_wf(d: RecordDeclV) -> bool {
    forall|i: int, j: int|
        0 <= i < j < d.fields.len() ==> d.fields[i].name != d.fields[j].name
}

} // verus!
