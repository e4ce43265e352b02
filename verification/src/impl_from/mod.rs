//! Generation of `std::convert::From` implementations: a single-field
//! struct gains a conversion from its field's type, and enum variants
//! gain one each, with arity and conflict validation.

use vstd::prelude::*;
use vstd::string::StringExecFns;

use crate::decl::FieldShape;

pub mod enums;
pub mod structs;

verus! {

/// Why a `From` implementation could not be generated.
#[derive(Debug, PartialEq, Eq, Clone)]
pub enum FromImplementationError {
    /// The named struct has not exactly one field.
    StructNotExactlyOneField(String),
    /// Variants of the named enum have not exactly one field; every
    /// offending variant is listed.
    EnumNotExactlyOneField(String, Vec<String>),
    /// The conversion flag stands on the named enum and on at least one
    /// of its variants.
    ParameterOnEnumAndVariant(String),
}

/// The offending variant names, joined with commas.
pub open spec fn joined_idents(idents: Seq<Seq<char>>) -> Seq<char>
    decreases idents.len(),
{
    if idents.len() == 0 {
        Seq::empty()
    } else if idents.len() == 1 {
        idents[0]
    } else {
        joined_idents(idents.drop_last()) + seq![','] + idents.last()
    }
}

/// The diagnostic text of a conversion-generation error.
pub open spec fn from_error_text(e: FromImplementationError) -> Seq<char> {
    match e {
        FromImplementationError::StructNotExactlyOneField(id) => "'std::convert::From' cannot be implemented for struct '"@
            + id@ + "', as it has not exactly one field."@,
        FromImplementationError::EnumNotExactlyOneField(id, idents) => "'std::convert::From' cannot be implemented for enum '"@
            + id@ + "'. The following variants don't have exactly one field: "@ + joined_idents(
            crate::impl_display::compile::strings_view(idents@),
        ),
        FromImplementationError::ParameterOnEnumAndVariant(id) => "The 'impl_from' parameter was set on enum '"@
            + id@ + "' and at least one of its variants. Choose only one (enum or variants)."@,
    }
}

impl FromImplementationError {
    /// The diagnostic text for this error.
    pub fn message(&self) -> (r: String)
        ensures
            r@ == from_error_text(*self),
    {
        match self {
            FromImplementationError::StructNotExactlyOneField(id) => {
                let mut r = String::from_str("'std::convert::From' cannot be implemented for struct '");
                r.append(id.as_str());
                r.append("', as it has not exactly one field.");
                r
            },
            FromImplementationError::EnumNotExactlyOneField(id, idents) => {
                let mut r = String::from_str("'std::convert::From' cannot be implemented for enum '");
                r.append(id.as_str());
                r.append("'. The following variants don't have exactly one field: ");
                let ghost iv = crate::impl_display::compile::strings_view(idents@);
                let ghost rbase = r@;
                let mut i: usize = 0;
                while i < idents.len()
                    invariant
                        i <= idents@.len(),
                        iv == crate::impl_display::compile::strings_view(idents@),
                        r@ == rbase + joined_idents(iv.subrange(0, i as int)),
                    decreases idents.len() - i,
                {
                    if i > 0 {
                        r.append(",");
                        proof {
                            reveal_strlit(",");
                            assert(","@ =~= seq![',']);
                        }
                    }
                    r.append(idents[i].as_str());
                    i = i + 1;
                    proof {
                        let t = iv.subrange(0, i as int);
                        assert(t.drop_last() =~= iv.subrange(0, i - 1));
                        assert(t.last() == iv[i - 1]);
                        assert(r@ =~= rbase + joined_idents(t));
                    }
                }
                proof {
                    assert(iv.subrange(0, iv.len() as int) =~= iv);
                }
                r
            },
            FromImplementationError::ParameterOnEnumAndVariant(id) => {
                let mut r = String::from_str("The 'impl_from' parameter was set on enum '");
                r.append(id.as_str());
                r.append("' and at least one of its variants. Choose only one (enum or variants).");
                r
            },
        }
    }
}

/// The text of one `From` implementation.
pub open spec fn from_impl_text(
    ig: Seq<char>,
    id: Seq<char>,
    tg: Seq<char>,
    wc: Seq<char>,
    ty: Seq<char>,
    construct: Seq<char>,
) -> Seq<char> {
    "impl "@ + ig + " std::convert::From<"@ + ty + "> for "@ + id + tg + " "@ + wc
        + " { fn from(val: "@ + ty + ") -> Self { "@ + construct + " } }"@
}

/// The type of the only field of a single-field shape.
pub open spec fn single_field_ty(shape: FieldShape) -> Seq<char> {
    match shape {
        FieldShape::Named(fields) => fields@[0].ty@,
        FieldShape::Positional(tys) => tys@[0]@,
        FieldShape::Unit => Seq::empty(),
    }
}

/// The constructing expression for the single field: `owner { f : val }`
/// for a named shape, `owner(val)` for a positional one.
pub open spec fn construct_text(owner: Seq<char>, shape: FieldShape) -> Seq<char> {
    match shape {
        FieldShape::Named(fields) => owner + "{ "@ + fields@[0].name@ + " : val }"@,
        FieldShape::Positional(_) => owner + "(val)"@,
        FieldShape::Unit => Seq::empty(),
    }
}

/// Build the text of one `From` implementation.
pub fn render_from_impl(
    ig: &str,
    id: &str,
    tg: &str,
    wc: &str,
    ty: &str,
    construct: &str,
) -> (r: String)
    ensures
        r@ == from_impl_text(ig@, id@, tg@, wc@, ty@, construct@),
{
    let mut r = String::from_str("impl ");
    r.append(ig);
    r.append(" std::convert::From<");
    r.append(ty);
    r.append("> for ");
    r.append(id);
    r.append(tg);
    r.append(" ");
    r.append(wc);
    r.append(" { fn from(val: ");
    r.append(ty);
    r.append(") -> Self { ");
    r.append(construct);
    r.append(" } }");
    r
}

/// Build the constructing expression for a single-field shape.
pub fn render_construct(owner: &str, shape: &FieldShape) -> (r: String)
    requires
        shape.field_count() == 1,
    ensures
        r@ == construct_text(owner@, *shape),
{
    match shape {
        FieldShape::Named(fields) => {
            let mut r = String::from_str(owner);
            r.append("{ ");
            r.append(fields[0].name.as_str());
            r.append(" : val }");
            r
        },
        FieldShape::Positional(_) => {
            let mut r = String::from_str(owner);
            r.append("(val)");
            r
        },
        FieldShape::Unit => String::new(),
    }
}

/// The type text of the only field of a single-field shape.
pub fn single_field_type(shape: &FieldShape) -> (r: String)
    requires
        shape.field_count() == 1,
    ensures
        r@ == single_field_ty(*shape),
{
    match shape {
        FieldShape::Named(fields) => fields[0].ty.clone(),
        FieldShape::Positional(tys) => tys[0].clone(),
        FieldShape::Unit => String::new(),
    }
}

} // verus!
