//! The pipeline for an enum: container parameters and per-variant
//! marker attributes in, generated implementations out.  The output
//! holds the `Debug` derive, the declaration with the marker attributes
//! stripped from its variants, the `Error` marker impl, the `From`
//! impls and the `Display` impl, in that order.

use vstd::prelude::*;
use vstd::string::StringExecFns;

use crate::GenError;
use crate::decl::{EnumDecl, VariantEntry};
use crate::impl_display::DisplayImplementationError;
use crate::impl_display::enums::{
    EnumDisplayImplementor, enum_display_spec, messages_balanced, num_with_message,
    variant_message,
};
use crate::impl_display::write::template_balanced;
use crate::impl_from::FromImplementationError;
use crate::impl_from::enums::{EnumFromImplementer, any_vflag, from_impls_text, offender_idents};
use crate::parameters::{
    IMPL_FROM, LitVal, MESSAGE, PResult, ParameterError, Parameters, opt_pairs, pair_bool,
    pair_bool_typed, pair_str_typed, pair_string, parse_attribute_spec,
};
use crate::struct_error::types_ok;

verus! {

/// The parsed parameter pairs of a variant's marker attribute, if the
/// variant has one and it parses.
pub open spec fn variant_pairs_of(v: VariantEntry) -> Option<Seq<(Seq<char>, LitVal)>> {
    match v.attr {
        None => None,
        Some(t) => match parse_attribute_spec(t@) {
            PResult::POk(pairs) => Some(pairs),
            PResult::PErr(_) => None,
        },
    }
}

/// The parsed parameter pairs of every variant.
pub open spec fn parsed_pairs(variants: Seq<VariantEntry>) -> Seq<
    Option<Seq<(Seq<char>, LitVal)>>,
> {
    variants.map_values(|v: VariantEntry| variant_pairs_of(v))
}

/// What is wrong with a variant's marker attribute, if anything: it
/// fails to parse, or a recognized parameter carries the wrong literal
/// kind.
pub open spec fn variant_param_issue(v: VariantEntry) -> Option<ParameterError> {
    match v.attr {
        None => None,
        Some(t) => match parse_attribute_spec(t@) {
            PResult::PErr(e) => Some(e),
            PResult::POk(pairs) => {
                if pair_str_typed(pairs, "message"@) && pair_bool_typed(pairs, "impl_from"@) {
                    None
                } else {
                    Some(ParameterError::MalformedParameter)
                }
            },
        },
    }
}

/// The first variant attribute issue below `i`, if any.
pub open spec fn first_variant_issue(variants: Seq<VariantEntry>, i: int) -> Option<ParameterError>
    decreases i,
{
    if i <= 0 {
        None
    } else {
        match first_variant_issue(variants, i - 1) {
            Some(e) => Some(e),
            None => variant_param_issue(variants[i - 1]),
        }
    }
}

proof fn lemma_first_issue_stays(variants: Seq<VariantEntry>, i: int, j: int)
    requires
        0 <= i <= j,
        first_variant_issue(variants, i) is Some,
    ensures
        first_variant_issue(variants, j) == first_variant_issue(variants, i),
    decreases j - i,
{
    if i < j {
        lemma_first_issue_stays(variants, i, j - 1);
    }
}

/// The variant declarations, joined with commas.
pub open spec fn variants_decl_text(vs: Seq<VariantEntry>, i: int) -> Seq<char>
    decreases i,
{
    if i <= 0 {
        Seq::empty()
    } else if i == 1 {
        vs[0].decl_text@
    } else {
        variants_decl_text(vs, i - 1) + ", "@ + vs[i - 1].decl_text@
    }
}

/// The `Display` part of the output: empty when no message stands
/// anywhere.
pub open spec fn enum_display_text(
    d: EnumDecl,
    vpairs: Seq<Option<Seq<(Seq<char>, LitVal)>>>,
    dm: Option<Seq<char>>,
) -> Seq<char> {
    if dm is None && num_with_message(vpairs, d.variants@.len() as int) == 0 {
        Seq::empty()
    } else {
        enum_display_spec(d, vpairs, dm)
    }
}

/// The whole output for an enum declaration.
pub open spec fn enum_output_spec(
    d: EnumDecl,
    vpairs: Seq<Option<Seq<(Seq<char>, LitVal)>>>,
    pairs: Seq<(Seq<char>, LitVal)>,
) -> Seq<char> {
    "#[derive(Debug)] "@ + d.attrs_text@ + " enum "@ + d.ident@ + d.generics_decl@ + " "@
        + d.where_decl@ + " { "@ + variants_decl_text(d.variants@, d.variants@.len() as int)
        + " } impl "@ + d.generics.impl_generics@ + " std::error::Error for "@ + d.ident@
        + d.generics.type_generics@ + " "@ + d.generics.where_clause@ + " {} "@ + from_impls_text(
        d,
        vpairs,
        pair_bool(pairs, "impl_from"@),
        d.variants@.len() as int,
    ) + " "@ + enum_display_text(d, vpairs, pair_string(pairs, "message"@))
}

/// Whether the message completeness checks pass: either no message
/// stands anywhere, or every variant is covered with no dead default.
pub open spec fn display_stage_ok(
    d: EnumDecl,
    vpairs: Seq<Option<Seq<(Seq<char>, LitVal)>>>,
    dm: Option<Seq<char>>,
) -> bool {
    let n = d.variants@.len() as int;
    let nmsg = num_with_message(vpairs, n);
    if dm is None && nmsg == 0 {
        true
    } else {
        (dm is None ==> nmsg == n) && (dm is Some ==> nmsg != n) && messages_balanced(vpairs, dm)
    }
}

/// Parse the marker attribute of one variant, if it has one.
pub fn to_variant_with_parameters(variant: &VariantEntry) -> (r: Result<
    Option<Parameters>,
    ParameterError,
>)
    ensures
        match r {
            Ok(po) => variant_param_issue(*variant) is None && (match po {
                Some(p) => variant_pairs_of(*variant) == Some(p.pairs()) && p.string_typed(
                    "message"@,
                ) && p.bool_typed("impl_from"@),
                None => variant_pairs_of(*variant) is None && variant.attr is None,
            }),
            Err(e) => variant_param_issue(*variant) == Some(e),
        },
{
    let attr = match &variant.attr {
        None => {
            return Ok(None);
        },
        Some(t) => t,
    };
    let parameters = match Parameters::from_attribute(attr.as_str()) {
        Ok(p) => p,
        Err(e) => {
            return Err(e);
        },
    };
    if !(parameters.check_string_typed(MESSAGE) && parameters.check_bool_typed(IMPL_FROM)) {
        return Err(ParameterError::MalformedParameter);
    }
    Ok(Some(parameters))
}

/// Generate the implementations that make the given enum a fully
/// qualified error: `Debug` and the `Error` marker always, `From`
/// impls for the conversion candidates, and a `Display` impl built
/// from the variant messages and the optional default message.
/// What holds of a successful enum generation.
pub open spec fn enum_ok_spec(pairs: Seq<(Seq<char>, LitVal)>, d: EnumDecl, out: Seq<char>) -> bool {
    let vpairs = parsed_pairs(d.variants@);
    let n = d.variants@.len() as int;
    let dm = pair_string(pairs, "message"@);
    let global = pair_bool(pairs, "impl_from"@);
    &&& types_ok(pairs)
    &&& first_variant_issue(d.variants@, n) is None
    &&& display_stage_ok(d, vpairs, dm)
    &&& !(global && any_vflag(vpairs))
    &&& offender_idents(d.variants@, vpairs, global, n).len() == 0
    &&& out == enum_output_spec(d, vpairs, pairs)
}

/// What holds of a failed enum generation.
pub open spec fn enum_err_spec(pairs: Seq<(Seq<char>, LitVal)>, d: EnumDecl, e: GenError) -> bool {
    let vpairs = parsed_pairs(d.variants@);
    let n = d.variants@.len() as int;
    let dm = pair_string(pairs, "message"@);
    let global = pair_bool(pairs, "impl_from"@);
    let nmsg = num_with_message(vpairs, n);
    match e {
        GenError::Parameter(pe) => (!types_ok(pairs) && pe == ParameterError::MalformedParameter)
            || (types_ok(pairs) && first_variant_issue(d.variants@, n) == Some(pe)),
        GenError::Display(de) => {
            &&& types_ok(pairs)
            &&& first_variant_issue(d.variants@, n) is None
            &&& match de {
                DisplayImplementationError::MissingMessages(id) => dm is None && nmsg != 0 && nmsg
                    != n && id@ == d.ident@,
                DisplayImplementationError::UnnecessaryDefaultMessage(id) => dm is Some && nmsg
                    == n && id@ == d.ident@,
                DisplayImplementationError::UnbalancedTemplate(t) => {
                    &&& !(dm is None && nmsg == 0)
                    &&& (dm is None ==> nmsg == n)
                    &&& (dm is Some ==> nmsg != n)
                    &&& !template_balanced(t@)
                    &&& ((exists|i: int|
                        0 <= i < n && variant_message(vpairs, i) == Some(t@)) || dm == Some(t@))
                },
            }
        },
        GenError::From(fe) => {
            &&& types_ok(pairs)
            &&& first_variant_issue(d.variants@, n) is None
            &&& display_stage_ok(d, vpairs, dm)
            &&& match fe {
                FromImplementationError::ParameterOnEnumAndVariant(id) => global && any_vflag(
                    vpairs,
                ) && id@ == d.ident@,
                FromImplementationError::EnumNotExactlyOneField(id, idents) => {
                    &&& !(global && any_vflag(vpairs))
                    &&& offender_idents(d.variants@, vpairs, global, n).len() > 0
                    &&& id@ == d.ident@
                    &&& crate::impl_display::compile::strings_view(idents@) == offender_idents(
                        d.variants@,
                        vpairs,
                        global,
                        n,
                    )
                },
                FromImplementationError::StructNotExactlyOneField(_) => false,
            }
        },
    }
}

pub fn implement(enum_parameters: &Parameters, item_enum: &EnumDecl) -> (r: Result<
    String,
    GenError,
>)
    ensures
        match r {
            Ok(out) => enum_ok_spec(enum_parameters.pairs(), *item_enum, out@),
            Err(e) => enum_err_spec(enum_parameters.pairs(), *item_enum, e),
        },
{
    let ghost d = *item_enum;
    let ghost gpairs = enum_parameters.pairs();
    let ghost vpairs = parsed_pairs(d.variants@);
    let n = item_enum.variants.len();
    if !(enum_parameters.check_string_typed(MESSAGE) && enum_parameters.check_bool_typed(
        "impl_from",
    )) {
        return Err(GenError::Parameter(ParameterError::MalformedParameter));
    }
    // Parse the marker attribute of each variant.
    let mut vps: Vec<Option<Parameters>> = Vec::new();
    let mut i: usize = 0;
    while i < n
        invariant
            i <= n,
            n == item_enum.variants@.len(),
            d == *item_enum,
            vpairs == parsed_pairs(d.variants@),
            gpairs == enum_parameters.pairs(),
            types_ok(gpairs),
            vps@.len() == i,
            first_variant_issue(d.variants@, i as int) is None,
            forall|k: int|
                0 <= k < i ==> opt_pairs(vps@)[k] == vpairs[k],
            forall|k: int|
                0 <= k < i ==> match #[trigger] vps@[k] {
                    Some(p) => p.string_typed("message"@) && p.bool_typed("impl_from"@),
                    None => true,
                },
        decreases n - i,
    {
        match to_variant_with_parameters(&item_enum.variants[i]) {
            Ok(po) => {
                vps.push(po);
                proof {
                    assert(vpairs[i as int] == variant_pairs_of(d.variants@[i as int]));
                    assert(opt_pairs(vps@)[i as int] == vpairs[i as int]);
                    assert(forall|k: int|
                        0 <= k < i ==> opt_pairs(vps@)[k] == vpairs[k]);
                }
            },
            Err(e) => {
                proof {
                    assert(first_variant_issue(d.variants@, i + 1) == Some(e));
                    lemma_first_issue_stays(d.variants@, i + 1, n as int);
                }
                return Err(GenError::Parameter(e));
            },
        }
        i = i + 1;
    }
    proof {
        assert(opt_pairs(vps@) =~= vpairs);
    }
    // The Display implementation, with its completeness checks.
    let display_implementation = match EnumDisplayImplementor::new(
        item_enum,
        enum_parameters,
        &vps,
    ).implement() {
        Ok(text) => text,
        Err(e) => {
            return Err(GenError::Display(e));
        },
    };
    // The From implementations, with conflict and arity checks.
    let from_implementations = match EnumFromImplementer::new(
        item_enum,
        enum_parameters,
        &vps,
    ).implement() {
        Ok(text) => text,
        Err(e) => {
            return Err(GenError::From(e));
        },
    };
    // The declaration, with the marker attributes stripped from its
    // variants.
    let mut decl_variants = String::new();
    let mut i2: usize = 0;
    while i2 < n
        invariant
            i2 <= n,
            n == item_enum.variants@.len(),
            d == *item_enum,
            decl_variants@ == variants_decl_text(d.variants@, i2 as int),
        decreases n - i2,
    {
        if i2 > 0 {
            decl_variants.append(", ");
            proof {
                reveal_strlit(", ");
            }
        }
        decl_variants.append(item_enum.variants[i2].decl_text.as_str());
        i2 = i2 + 1;
        proof {
            if i2 == 1 {
                assert(decl_variants@ =~= variants_decl_text(d.variants@, 1));
            } else {
                assert(decl_variants@ =~= variants_decl_text(d.variants@, i2 as int));
            }
        }
    }
    let mut r = String::from_str("#[derive(Debug)] ");
    r.append(item_enum.attrs_text.as_str());
    r.append(" enum ");
    r.append(item_enum.ident.as_str());
    r.append(item_enum.generics_decl.as_str());
    r.append(" ");
    r.append(item_enum.where_decl.as_str());
    r.append(" { ");
    r.append(decl_variants.as_str());
    r.append(" } impl ");
    r.append(item_enum.generics.impl_generics.as_str());
    r.append(" std::error::Error for ");
    r.append(item_enum.ident.as_str());
    r.append(item_enum.generics.type_generics.as_str());
    r.append(" ");
    r.append(item_enum.generics.where_clause.as_str());
    r.append(" {} ");
    r.append(from_implementations.as_str());
    r.append(" ");
    r.append(display_implementation.as_str());
    Ok(r)
}

proof fn lemma_absent_enum_parts(variants: Seq<VariantEntry>, d: EnumDecl, global: bool, i: int)
    requires
        forall|k: int| 0 <= k < variants.len() ==> (#[trigger] variants[k]).attr is None,
        !global,
        d.variants@ == variants,
        0 <= i <= variants.len(),
    ensures
        first_variant_issue(variants, i) is None,
        num_with_message(parsed_pairs(variants), i) == 0,
        offender_idents(variants, parsed_pairs(variants), global, i).len() == 0,
        from_impls_text(d, parsed_pairs(variants), global, i) == Seq::<char>::empty(),
        forall|k: int| 0 <= k < i ==> !crate::impl_from::enums::vflag(parsed_pairs(variants), k),
    decreases i,
{
    if i > 0 {
        lemma_absent_enum_parts(variants, d, global, i - 1);
        assert(parsed_pairs(variants)[i - 1] == variant_pairs_of(variants[i - 1]));
        assert(variant_pairs_of(variants[i - 1]) is None);
        assert(variant_message(parsed_pairs(variants), i - 1) is None);
        assert(!crate::impl_from::enums::vflag(parsed_pairs(variants), i - 1));
    }
}

/// The idempotent-parameter-absence law for enums: when the enum binds
/// neither a message nor the conversion flag and no variant carries a
/// marker attribute, generation cannot fail, and the output holds
/// exactly the `Debug` derive, the declaration and the `Error` marker
/// impl — no `Display` and no `From` implementation.
pub proof fn lemma_parameter_absence_enum(pairs: Seq<(Seq<char>, LitVal)>, d: EnumDecl)
    requires
        crate::parameters::lookup(pairs, "message"@) is None,
        crate::parameters::lookup(pairs, "impl_from"@) is None,
        forall|k: int| 0 <= k < d.variants@.len() ==> (#[trigger] d.variants@[k]).attr is None,
    ensures
        forall|e: GenError| !enum_err_spec(pairs, d, e),
        enum_display_text(d, parsed_pairs(d.variants@), pair_string(pairs, "message"@))
            == Seq::<char>::empty(),
        from_impls_text(
            d,
            parsed_pairs(d.variants@),
            pair_bool(pairs, "impl_from"@),
            d.variants@.len() as int,
        ) == Seq::<char>::empty(),
        enum_output_spec(d, parsed_pairs(d.variants@), pairs) == "#[derive(Debug)] "@
            + d.attrs_text@ + " enum "@ + d.ident@ + d.generics_decl@ + " "@ + d.where_decl@
            + " { "@ + variants_decl_text(d.variants@, d.variants@.len() as int) + " } impl "@
            + d.generics.impl_generics@ + " std::error::Error for "@ + d.ident@
            + d.generics.type_generics@ + " "@ + d.generics.where_clause@ + " {} "@ + " "@,
{
    let vpairs = parsed_pairs(d.variants@);
    let n = d.variants@.len() as int;
    lemma_absent_enum_parts(d.variants@, d, pair_bool(pairs, "impl_from"@), n);
    assert(!any_vflag(vpairs)) by {
        if any_vflag(vpairs) {
            let k = choose|k: int| 0 <= k < vpairs.len() && crate::impl_from::enums::vflag(vpairs, k);
            assert(!crate::impl_from::enums::vflag(vpairs, k));
        }
    }
    assert forall|e: GenError| !enum_err_spec(pairs, d, e) by {
        match e {
            GenError::Parameter(_) => {},
            GenError::Display(de) => {
                match de {
                    DisplayImplementationError::MissingMessages(_) => {},
                    DisplayImplementationError::UnnecessaryDefaultMessage(_) => {},
                    DisplayImplementationError::UnbalancedTemplate(t) => {
                        if exists|i: int|
                            0 <= i < n && variant_message(vpairs, i) == Some(t@) {
                            let i = choose|i: int|
                                0 <= i < n && variant_message(vpairs, i) == Some(t@);
                            assert(vpairs[i] == variant_pairs_of(d.variants@[i]));
                        }
                    },
                }
            },
            GenError::From(_) => {},
        }
    }
    assert(enum_output_spec(d, vpairs, pairs) =~= "#[derive(Debug)] "@ + d.attrs_text@
        + " enum "@ + d.ident@ + d.generics_decl@ + " "@ + d.where_decl@ + " { "@
        + variants_decl_text(d.variants@, n) + " } impl "@ + d.generics.impl_generics@
        + " std::error::Error for "@ + d.ident@ + d.generics.type_generics@ + " "@
        + d.generics.where_clause@ + " {} "@ + " "@);
}

} // verus!
