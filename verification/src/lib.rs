//! Code generator for error types.
//!
//! Given a model of an annotated type declaration (a struct or an enum)
//! together with the raw text of its `error` attribute parameters, the
//! library produces the text of the generated implementations: a `Debug`
//! derive, an `std::error::Error` marker impl, an optional `Display`
//! impl compiled from a message template, and optional `From` impls for
//! single-field shapes.  Every step of the generation is verified: the
//! parameter grammar, the template scanner, the placeholder resolution,
//! the arity and conflict validation, and the final text assembly.

use vstd::prelude::*;

pub mod common;
pub mod decl;
pub mod enum_error;
pub mod impl_display;
pub mod impl_from;
pub mod parameters;
pub mod struct_error;
pub mod test_helper;
pub mod validator;

verus! {

/// Why a generation failed: a configuration, template or conversion
/// error.
#[derive(Debug, PartialEq, Eq, Clone)]
pub enum GenError {
    Parameter(crate::parameters::ParameterError),
    Display(crate::impl_display::DisplayImplementationError),
    From(crate::impl_from::FromImplementationError),
}

/// The diagnostic text of a generation error.
pub open spec fn gen_error_text(e: GenError) -> Seq<char> {
    match e {
        GenError::Parameter(pe) => crate::parameters::parameter_error_text(pe),
        GenError::Display(de) => crate::impl_display::display_error_text(de),
        GenError::From(fe) => crate::impl_from::from_error_text(fe),
    }
}

impl GenError {
    /// The diagnostic text for this error.
    pub fn message(&self) -> (r: String)
        ensures
            r@ == gen_error_text(*self),
    {
        match self {
            GenError::Parameter(e) => e.message(),
            GenError::Display(e) => e.message(),
            GenError::From(e) => e.message(),
        }
    }
}

/// Generate the error implementations for an annotated declaration:
/// parse the attribute arguments, then run the struct or the enum
/// pipeline.
pub fn error(attributes: &str, item: &decl::ItemDecl) -> (r: Result<String, GenError>)
    ensures
        ({
            match parameters::parse_args_spec(attributes@) {
                parameters::PResult::PErr(pe) => (r matches Err(e) && e == GenError::Parameter(
                    pe,
                )),
                parameters::PResult::POk(pairs) => match item {
                    decl::ItemDecl::Struct(d) => match r {
                        Ok(out) => struct_error::struct_ok_spec(pairs, *d, out@),
                        Err(e) => struct_error::struct_err_spec(pairs, *d, e),
                    },
                    decl::ItemDecl::Enum(d) => match r {
                        Ok(out) => enum_error::enum_ok_spec(pairs, *d, out@),
                        Err(e) => enum_error::enum_err_spec(pairs, *d, e),
                    },
                },
            }
        }),
{
    let params = match parameters::Parameters::from_attribute_args(attributes) {
        Ok(p) => p,
        Err(e) => {
            return Err(GenError::Parameter(e));
        },
    };
    match item {
        decl::ItemDecl::Struct(item_struct) => struct_error::implement(&params, item_struct),
        decl::ItemDecl::Enum(item_enum) => enum_error::implement(&params, item_enum),
    }
}

} // verus!
