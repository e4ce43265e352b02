//! A pre-pass over parsed parameters: every recognized declaration site
//! admits a fixed set of parameter names, and an unknown name or a
//! redundant conversion flag is recorded as a validation error.

use vstd::prelude::*;

use crate::decl::VariantEntry;
use crate::parameters::{LitVal, Parameters};

verus! {

/// A finding of the validator.
#[derive(Debug, PartialEq, Eq, Clone)]
pub enum ValidationError {
    /// The named parameter is not recognized at its declaration site.
    UnknownParameter { param: String },
    /// The conversion flag on the named variant is redundant beside the
    /// flag on its enum.
    UnnecessaryImplFrom { variant_name: String },
}

/// Whether a parameter name is recognized: `message` everywhere, and
/// `impl_from` on enums and variants.
pub open spec fn name_allowed_spec(name: Seq<char>, allow_impl_from: bool) -> bool {
    name == "message"@ || (allow_impl_from && name == "impl_from"@)
}

/// The unrecognized names among the first `i` pairs, in order.
pub open spec fn unknown_names(
    pairs: Seq<(Seq<char>, LitVal)>,
    allow_impl_from: bool,
    i: int,
) -> Seq<Seq<char>>
    decreases i,
{
    if i <= 0 {
        Seq::empty()
    } else {
        unknown_names(pairs, allow_impl_from, i - 1) + (if name_allowed_spec(
            pairs[i - 1].0,
            allow_impl_from,
        ) {
            Seq::empty()
        } else {
            seq![pairs[i - 1].0]
        })
    }
}

fn name_allowed(name: &str, allow_impl_from: bool) -> (r: bool)
    ensures
        r == name_allowed_spec(name@, allow_impl_from),
{
    crate::common::str_eq(name, "message") || (allow_impl_from && crate::common::str_eq(
        name,
        "impl_from",
    ))
}

/// Central service to check that attribute parameters are correctly
/// used; it collects every finding.
pub struct Validator {
    pub errors: Vec<ValidationError>,
}

impl Validator {
    pub fn new() -> (v: Validator)
        ensures
            v.errors@.len() == 0,
    {
        Validator { errors: Vec::new() }
    }

    /// Check parameters from a struct: only `message` is recognized.
    pub fn check_struct_parameters(&mut self, parameters: &Parameters)
        ensures
            checked(old(self).errors@, final(self).errors@, parameters.pairs(), false),
    {
        self.check_parameters(parameters, false)
    }

    /// Check parameters from an enum or a variant: `message` and
    /// `impl_from` are recognized.
    pub fn check_enum_parameters(&mut self, parameters: &Parameters)
        ensures
            checked(old(self).errors@, final(self).errors@, parameters.pairs(), true),
    {
        self.check_parameters(parameters, true)
    }

    /// Record an unknown-parameter finding for every unrecognized name.
    fn check_parameters(&mut self, parameters: &Parameters, allow_impl_from: bool)
        ensures
            checked(old(self).errors@, final(self).errors@, parameters.pairs(), allow_impl_from),
    {
        let ghost pairs = parameters.pairs();
        let ghost base = self.errors@;
        let mut i: usize = 0;
        while i < parameters.values.len()
            invariant
                i <= parameters.values@.len(),
                pairs == parameters.pairs(),
                base == old(self).errors@,
                self.errors@.len() == base.len() + unknown_names(pairs, allow_impl_from, i as int).len(),
                forall|j: int| 0 <= j < base.len() ==> self.errors@[j] == base[j],
                forall|j: int|
                    0 <= j < unknown_names(pairs, allow_impl_from, i as int).len()
                        ==> (#[trigger] self.errors@[base.len() + j]
                        matches ValidationError::UnknownParameter { param } && param@
                        == unknown_names(pairs, allow_impl_from, i as int)[j]),
            decreases parameters.values.len() - i,
        {
            if !name_allowed(parameters.values[i].name.as_str(), allow_impl_from) {
                self.errors.push(
                    ValidationError::UnknownParameter {
                        param: parameters.values[i].name.clone(),
                    },
                );
            }
            i = i + 1;
        }
    }

    /// Record a redundant conversion flag on a variant whose enum
    /// already carries the flag.
    pub fn check_impl_from(
        &mut self,
        global_impl_from: bool,
        variant_params: &Parameters,
        variant: &VariantEntry,
    )
        requires
            variant_params.bool_typed("impl_from"@),
        ensures
            impl_from_checked(
                old(self).errors@,
                final(self).errors@,
                global_impl_from && variant_params.spec_bool("impl_from"@),
                variant.ident@,
            ),
    {
        if global_impl_from && variant_params.bool_for_name("impl_from") {
            self.errors.push(
                ValidationError::UnnecessaryImplFrom { variant_name: variant.ident.clone() },
            );
        }
    }
}

/// How the redundant-flag check extends the findings: one finding when
/// the flag stands on both levels, nothing otherwise.
pub open spec fn impl_from_checked(
    old_errors: Seq<ValidationError>,
    new_errors: Seq<ValidationError>,
    redundant: bool,
    variant_ident: Seq<char>,
) -> bool {
    if redundant {
        &&& new_errors.len() == old_errors.len() + 1
        &&& (forall|j: int| 0 <= j < old_errors.len() ==> new_errors[j] == old_errors[j])
        &&& (new_errors.last() matches ValidationError::UnnecessaryImplFrom { variant_name }
            && variant_name@ == variant_ident)
    } else {
        new_errors == old_errors
    }
}

/// How a parameter check extends the findings: the old findings kept,
/// one unknown-parameter finding per unrecognized name, in order.
pub open spec fn checked(
    old_errors: Seq<ValidationError>,
    new_errors: Seq<ValidationError>,
    pairs: Seq<(Seq<char>, LitVal)>,
    allow_impl_from: bool,
) -> bool {
    let unknowns = unknown_names(pairs, allow_impl_from, pairs.len() as int);
    &&& new_errors.len() == old_errors.len() + unknowns.len()
    &&& (forall|j: int| 0 <= j < old_errors.len() ==> new_errors[j] == old_errors[j])
    &&& (forall|j: int|
        0 <= j < unknowns.len() ==> (#[trigger] new_errors[old_errors.len() + j]
            matches ValidationError::UnknownParameter { param } && param@ == unknowns[j]))
}

} // verus!
