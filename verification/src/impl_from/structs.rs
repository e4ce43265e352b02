//! The `From` implementation for a struct: generated when the
//! conversion flag is set and the struct has exactly one field.

use vstd::prelude::*;

use crate::decl::StructDecl;
use crate::impl_from::{
    FromImplementationError, construct_text, from_impl_text, render_construct, render_from_impl,
    single_field_ty, single_field_type,
};
use crate::parameters::{IMPL_FROM, Parameters};

verus! {

/// The text of the `From` implementation of a single-field struct.
pub open spec fn struct_from_spec(d: StructDecl) -> Seq<char> {
    from_impl_text(
        d.generics.impl_generics@,
        d.ident@,
        d.generics.type_generics@,
        d.generics.where_clause@,
        single_field_ty(d.shape),
        construct_text(d.ident@, d.shape),
    )
}

/// Generator of the `From` implementation for a struct.
pub struct StructFromImplementer<'a> {
    pub item_struct: &'a StructDecl,
    pub struct_parameters: &'a Parameters,
}

impl<'a> StructFromImplementer<'a> {
    pub fn new(item_struct: &'a StructDecl, struct_parameters: &'a Parameters) -> (s: Self)
        ensures
            s.item_struct == item_struct,
            s.struct_parameters == struct_parameters,
    {
        StructFromImplementer { item_struct, struct_parameters }
    }

    /// The `From` implementation for the struct: empty text when the
    /// conversion flag is absent or false, the implementation when the
    /// struct has exactly one field, and an error otherwise.
    pub fn implement(self) -> (r: Result<String, FromImplementationError>)
        requires
            self.struct_parameters.bool_typed("impl_from"@),
        ensures
            ({
                let d = *self.item_struct;
                let flag = self.struct_parameters.spec_bool("impl_from"@);
                match r {
                    Ok(out) => (!flag ==> out@ == Seq::<char>::empty()) && (flag
                        ==> d.shape.field_count() == 1 && out@ == struct_from_spec(d)),
                    Err(e) => flag && d.shape.field_count() != 1 && (e
                        matches FromImplementationError::StructNotExactlyOneField(id) && id@
                        == d.ident@),
                }
            }),
    {
        if !self.struct_parameters.bool_for_name(IMPL_FROM) {
            return Ok(String::new());
        }
        if self.item_struct.shape.num_fields() != 1 {
            return Err(
                FromImplementationError::StructNotExactlyOneField(self.item_struct.ident.clone()),
            );
        }
        let ty = single_field_type(&self.item_struct.shape);
        let construct = render_construct(self.item_struct.ident.as_str(), &self.item_struct.shape);
        Ok(
            render_from_impl(
                self.item_struct.generics.impl_generics.as_str(),
                self.item_struct.ident.as_str(),
                self.item_struct.generics.type_generics.as_str(),
                self.item_struct.generics.where_clause.as_str(),
                ty.as_str(),
                construct.as_str(),
            ),
        )
    }
}

} // verus!
