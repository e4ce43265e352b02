//! The pipeline for a struct: parameters in, generated implementations
//! out.  The output holds the `Debug` derive, the declaration as
//! written, the `Error` marker impl, the optional `Display` impl and
//! the optional `From` impl, in that order.

use vstd::prelude::*;
use vstd::string::StringExecFns;

use crate::GenError;
use crate::decl::StructDecl;
use crate::impl_display::DisplayImplementationError;
use crate::impl_display::structs::{StructDisplayImplementor, struct_display_spec};
use crate::impl_display::write::template_balanced;
use crate::impl_from::structs::{StructFromImplementer, struct_from_spec};
use crate::parameters::{
    IMPL_FROM, LitVal, MESSAGE, ParameterError, Parameters, pair_bool, pair_bool_typed,
    pair_str_typed, pair_string,
};

verus! {

/// The recognized parameters carry the right literal kinds: a string
/// message and a boolean conversion flag.
pub open spec fn types_ok(pairs: Seq<(Seq<char>, LitVal)>) -> bool {
    pair_str_typed(pairs, "message"@) && pair_bool_typed(pairs, "impl_from"@)
}

/// The `Display` part of the output: empty without a message.
pub open spec fn struct_display_text(pairs: Seq<(Seq<char>, LitVal)>, d: StructDecl) -> Seq<char> {
    match pair_string(pairs, "message"@) {
        Some(m) => struct_display_spec(d, m),
        None => Seq::empty(),
    }
}

/// The `From` part of the output: empty without the flag.
pub open spec fn struct_from_text(pairs: Seq<(Seq<char>, LitVal)>, d: StructDecl) -> Seq<char> {
    if pair_bool(pairs, "impl_from"@) {
        struct_from_spec(d)
    } else {
        Seq::empty()
    }
}

/// The whole output for a struct declaration.
pub open spec fn struct_output_spec(pairs: Seq<(Seq<char>, LitVal)>, d: StructDecl) -> Seq<char> {
    "#[derive(Debug)] "@ + d.item_text@ + " impl "@ + d.generics.impl_generics@
        + " std::error::Error for "@ + d.ident@ + d.generics.type_generics@ + " "@
        + d.generics.where_clause@ + " {} "@ + struct_display_text(pairs, d) + " "@
        + struct_from_text(pairs, d)
}

/// What holds of a successful struct generation.
pub open spec fn struct_ok_spec(pairs: Seq<(Seq<char>, LitVal)>, d: StructDecl, out: Seq<char>) -> bool {
    let msg = pair_string(pairs, "message"@);
    let flag = pair_bool(pairs, "impl_from"@);
    &&& types_ok(pairs)
    &&& (msg matches Some(m) ==> template_balanced(m))
    &&& (flag ==> d.shape.field_count() == 1)
    &&& out == struct_output_spec(pairs, d)
}

/// What holds of a failed struct generation.
pub open spec fn struct_err_spec(pairs: Seq<(Seq<char>, LitVal)>, d: StructDecl, e: GenError) -> bool {
    let msg = pair_string(pairs, "message"@);
    let flag = pair_bool(pairs, "impl_from"@);
    match e {
        GenError::Parameter(pe) => !types_ok(pairs) && pe == ParameterError::MalformedParameter,
        GenError::Display(de) => types_ok(pairs) && msg is Some && !template_balanced(msg->0) && (
        de matches DisplayImplementationError::UnbalancedTemplate(t) && t@ == msg->0),
        GenError::From(fe) => {
            &&& types_ok(pairs)
            &&& (msg matches Some(m) ==> template_balanced(m))
            &&& flag
            &&& d.shape.field_count() != 1
            &&& (fe matches crate::impl_from::FromImplementationError::StructNotExactlyOneField(id)
                && id@ == d.ident@)
        },
    }
}

/// Generate the implementations that make the given struct a fully
/// qualified error: `Debug` and the `Error` marker always, `Display`
/// when a message is set, `From` when the conversion flag is set.
pub fn implement(parameters: &Parameters, item_struct: &StructDecl) -> (r: Result<
    String,
    GenError,
>)
    ensures
        match r {
            Ok(out) => struct_ok_spec(parameters.pairs(), *item_struct, out@),
            Err(e) => struct_err_spec(parameters.pairs(), *item_struct, e),
        },
{
    if !(parameters.check_string_typed(MESSAGE) && parameters.check_bool_typed(IMPL_FROM)) {
        return Err(GenError::Parameter(ParameterError::MalformedParameter));
    }
    let display_implementation = match StructDisplayImplementor::new(
        item_struct,
        parameters,
    ).implement() {
        Ok(text) => text,
        Err(e) => {
            return Err(GenError::Display(e));
        },
    };
    let from_implementation = match StructFromImplementer::new(item_struct, parameters).implement() {
        Ok(text) => text,
        Err(e) => {
            return Err(GenError::From(e));
        },
    };
    let mut r = String::from_str("#[derive(Debug)] ");
    r.append(item_struct.item_text.as_str());
    r.append(" impl ");
    r.append(item_struct.generics.impl_generics.as_str());
    r.append(" std::error::Error for ");
    r.append(item_struct.ident.as_str());
    r.append(item_struct.generics.type_generics.as_str());
    r.append(" ");
    r.append(item_struct.generics.where_clause.as_str());
    r.append(" {} ");
    r.append(display_implementation.as_str());
    r.append(" ");
    r.append(from_implementation.as_str());
    Ok(r)
}

/// The idempotent-parameter-absence law for structs: when neither a
/// message nor the conversion flag is bound, generation cannot fail,
/// and the output holds exactly the `Debug` derive, the declaration
/// and the `Error` marker impl — no `Display` and no `From`
/// implementation.
pub proof fn lemma_parameter_absence_struct(pairs: Seq<(Seq<char>, LitVal)>, d: StructDecl)
    requires
        crate::parameters::lookup(pairs, "message"@) is None,
        crate::parameters::lookup(pairs, "impl_from"@) is None,
    ensures
        forall|e: GenError| !struct_err_spec(pairs, d, e),
        struct_display_text(pairs, d) == Seq::<char>::empty(),
        struct_from_text(pairs, d) == Seq::<char>::empty(),
        struct_output_spec(pairs, d) == "#[derive(Debug)] "@ + d.item_text@ + " impl "@
            + d.generics.impl_generics@ + " std::error::Error for "@ + d.ident@
            + d.generics.type_generics@ + " "@ + d.generics.where_clause@ + " {} "@ + " "@,
{
    assert forall|e: GenError| !struct_err_spec(pairs, d, e) by {
        match e {
            GenError::Parameter(_) => {},
            GenError::Display(_) => {},
            GenError::From(_) => {},
        }
    }
    assert(struct_output_spec(pairs, d) =~= "#[derive(Debug)] "@ + d.item_text@ + " impl "@
        + d.generics.impl_generics@ + " std::error::Error for "@ + d.ident@
        + d.generics.type_generics@ + " "@ + d.generics.where_clause@ + " {} "@ + " "@);
}

} // verus!
