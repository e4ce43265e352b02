//! The `Display` implementation for a struct: its message template is
//! compiled in self-access mode and wrapped into a `fmt` body that
//! first binds `e` to `self`.

use vstd::prelude::*;
use vstd::string::StringExecFns;

use crate::decl::StructDecl;
use crate::impl_display::DisplayImplementationError;
use crate::impl_display::compile::{
    AccessMode, args_spec, compile_template, fmt_spec, render_write_call, write_call_spec,
};
use crate::impl_display::write::{template_balanced, template_pieces};
use crate::parameters::{MESSAGE, Parameters};

verus! {

/// The text of the `Display` implementation of a struct with the given
/// message.
pub open spec fn struct_display_spec(d: StructDecl, msg: Seq<char>) -> Seq<char> {
    "impl "@ + d.generics.impl_generics@ + " std::fmt::Display for "@ + d.ident@
        + d.generics.type_generics@ + " "@ + d.generics.where_clause@
        + " { fn fmt(&self, f: &mut std::fmt::Formatter<'_>) -> std::fmt::Result { let e = self; "@
        + write_call_spec(
        fmt_spec(template_pieces(msg), d.shape),
        args_spec(template_pieces(msg), d.shape, AccessMode::SelfAccess),
    ) + " } }"@
}

/// Generator of the `Display` implementation for a struct.
pub struct StructDisplayImplementor<'a> {
    pub item_struct: &'a StructDecl,
    pub parameters: &'a Parameters,
}

impl<'a> StructDisplayImplementor<'a> {
    pub fn new(item_struct: &'a StructDecl, parameters: &'a Parameters) -> (s: Self)
        ensures
            s.item_struct == item_struct,
            s.parameters == parameters,
    {
        StructDisplayImplementor { item_struct, parameters }
    }

    /// The `Display` implementation for the struct: empty text when no
    /// message is set, the implementation otherwise, and an error when
    /// the template's braces are unbalanced.
    pub fn implement(self) -> (r: Result<String, DisplayImplementationError>)
        requires
            self.parameters.string_typed("message"@),
        ensures
            ({
                let d = *self.item_struct;
                let msg = self.parameters.spec_string("message"@);
                match r {
                    Ok(out) => match msg {
                        None => out@ == Seq::<char>::empty(),
                        Some(m) => template_balanced(m) && out@ == struct_display_spec(d, m),
                    },
                    Err(e) => msg is Some && !template_balanced(msg->0) && (e
                        matches DisplayImplementationError::UnbalancedTemplate(t) && t@ == msg->0),
                }
            }),
    {
        let message = match self.parameters.string_for_name(MESSAGE) {
            Some(m) => m,
            None => {
                return Ok(String::new());
            },
        };
        let compiled = match compile_template(
            message.as_str(),
            &self.item_struct.shape,
            AccessMode::SelfAccess,
        ) {
            Ok(ct) => ct,
            Err(e) => {
                return Err(e);
            },
        };
        let call_text = render_write_call(&compiled.call);
        let mut r = String::from_str("impl ");
        r.append(self.item_struct.generics.impl_generics.as_str());
        r.append(" std::fmt::Display for ");
        r.append(self.item_struct.ident.as_str());
        r.append(self.item_struct.generics.type_generics.as_str());
        r.append(" ");
        r.append(self.item_struct.generics.where_clause.as_str());
        r.append(" { fn fmt(&self, f: &mut std::fmt::Formatter<'_>) -> std::fmt::Result { let e = self; ");
        r.append(call_text.as_str());
        r.append(" } }");
        Ok(r)
    }
}

} // verus!
