//! The model of an annotated declaration: its field shape, its
//! identifier and generics as text, and, for enums, its variants.
//!
//! Types and generics are carried as the text they were written with;
//! the generator never looks inside them, it only splices them into the
//! produced implementations.

use vstd::prelude::*;

verus! {

/// A named field: its identifier and the text of its type.
pub struct NamedField {
    pub name: String,
    pub ty: String,
}

/// The shape of a struct or of one enum variant: no fields, ordered
/// unnamed fields (each carried as the text of its type), or named
/// fields.
pub enum FieldShape {
    Unit,
    Positional(Vec<String>),
    Named(Vec<NamedField>),
}

impl FieldShape {
    /// How many fields the shape has.
    pub open spec fn field_count(self) -> nat {
        match self {
            FieldShape::Unit => 0,
            FieldShape::Positional(tys) => tys@.len(),
            FieldShape::Named(fields) => fields@.len(),
        }
    }

    /// The field names of a named shape.
    pub open spec fn field_names(self) -> Seq<Seq<char>> {
        match self {
            FieldShape::Named(fields) => fields@.map_values(|f: NamedField| f.name@),
            _ => Seq::empty(),
        }
    }

    /// Named shapes name each field once.
    pub open spec fn wf(self) -> bool {
        match self {
            FieldShape::Named(fields) => forall|i: int, j: int|
                0 <= i < j < fields@.len() ==> fields@[i].name@ != fields@[j].name@,
            _ => true,
        }
    }

    /// How many fields the shape has.
    pub fn num_fields(&self) -> (r: usize)
        ensures
            r == self.field_count(),
    {
        match self {
            FieldShape::Unit => 0,
            FieldShape::Positional(tys) => tys.len(),
            FieldShape::Named(fields) => fields.len(),
        }
    }
}

/// The three generics fragments an impl block needs, as written by
/// `split_for_impl`: the impl generics (`<A: Clone, B>`), the type
/// generics (`<A, B>`) and the where clause (`where B: Clone`).  Each is
/// empty text when the declaration has none.
pub struct Generics {
    pub impl_generics: String,
    pub type_generics: String,
    pub where_clause: String,
}

/// A struct declaration: the declaration text as written (the marker
/// attribute already removed, every other attribute kept), and the parts
/// the generator reads.
pub struct StructDecl {
    pub item_text: String,
    pub ident: String,
    pub generics: Generics,
    pub shape: FieldShape,
}

impl StructDecl {
    pub open spec fn wf(self) -> bool {
        self.shape.wf()
    }
}

/// One enum variant: its identifier, its shape, the whole text of its
/// marker attribute if it carries one (like `#[error(message = "...")]`),
/// and its declaration text without the marker attribute.
pub struct VariantEntry {
    pub ident: String,
    pub shape: FieldShape,
    pub attr: Option<String>,
    pub decl_text: String,
}

/// An enum declaration: its other attributes as text, its identifier,
/// its generics as declared and as an impl needs them, and its variants.
pub struct EnumDecl {
    pub attrs_text: String,
    pub ident: String,
    pub generics_decl: String,
    pub where_decl: String,
    pub generics: Generics,
    pub variants: Vec<VariantEntry>,
}

impl EnumDecl {
    pub open spec fn wf(self) -> bool {
        forall|i: int| 0 <= i < self.variants@.len() ==> (#[trigger] self.variants@[i]).shape.wf()
    }
}

/// An annotated declaration: a struct or an enum.
pub enum ItemDecl {
    Struct(StructDecl),
    Enum(EnumDecl),
}

} // verus!
