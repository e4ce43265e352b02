//! The `From` implementations for an enum: when the conversion flag
//! stands on the enum, every variant is a candidate; otherwise the
//! flagged variants are.  Every candidate must have exactly one field,
//! all arity offenders are collected into one error, and a flag on both
//! the enum and a variant is a conflict.

use vstd::prelude::*;
use vstd::string::StringExecFns;

use crate::decl::{EnumDecl, VariantEntry};
use crate::impl_display::compile::strings_view;
use crate::impl_from::{
    FromImplementationError, construct_text, from_impl_text, render_construct, render_from_impl,
    single_field_ty, single_field_type,
};
use crate::parameters::{IMPL_FROM, LitVal, Parameters, opt_pairs, pair_bool};

verus! {

/// The conversion flag of one variant's parameters.
pub open spec fn vflag(vpairs: Seq<Option<Seq<(Seq<char>, LitVal)>>>, i: int) -> bool {
    match vpairs[i] {
        Some(pairs) => pair_bool(pairs, "impl_from"@),
        None => false,
    }
}

/// Whether any variant carries the conversion flag.
pub open spec fn any_vflag(vpairs: Seq<Option<Seq<(Seq<char>, LitVal)>>>) -> bool {
    exists|i: int| 0 <= i < vpairs.len() && vflag(vpairs, i)
}

/// Whether variant `i` is to get a `From` implementation.
pub open spec fn candidate(
    global: bool,
    vpairs: Seq<Option<Seq<(Seq<char>, LitVal)>>>,
    i: int,
) -> bool {
    global || vflag(vpairs, i)
}

/// The idents of the candidates below `i` whose field count is not one.
pub open spec fn offender_idents(
    variants: Seq<VariantEntry>,
    vps: Seq<Option<Seq<(Seq<char>, LitVal)>>>,
    global: bool,
    i: int,
) -> Seq<Seq<char>>
    decreases i,
{
    if i <= 0 {
        Seq::empty()
    } else {
        offender_idents(variants, vps, global, i - 1) + (if candidate(global, vps, i - 1)
            && variants[i - 1].shape.field_count() != 1 {
            seq![variants[i - 1].ident@]
        } else {
            Seq::empty()
        })
    }
}

/// The text of the `From` implementation of one single-field variant.
pub open spec fn variant_from_spec(d: EnumDecl, v: VariantEntry) -> Seq<char> {
    from_impl_text(
        d.generics.impl_generics@,
        d.ident@,
        d.generics.type_generics@,
        d.generics.where_clause@,
        single_field_ty(v.shape),
        construct_text(d.ident@ + "::"@ + v.ident@, v.shape),
    )
}

/// The `From` implementations of the candidates below `i`, in variant
/// order.
pub open spec fn from_impls_text(
    d: EnumDecl,
    vps: Seq<Option<Seq<(Seq<char>, LitVal)>>>,
    global: bool,
    i: int,
) -> Seq<char>
    decreases i,
{
    if i <= 0 {
        Seq::empty()
    } else {
        from_impls_text(d, vps, global, i - 1) + (if candidate(global, vps, i - 1)
            && d.variants@[i - 1].shape.field_count() == 1 {
            variant_from_spec(d, d.variants@[i - 1]) + " "@
        } else {
            Seq::empty()
        })
    }
}

proof fn lemma_no_offenders(
    variants: Seq<VariantEntry>,
    vps: Seq<Option<Seq<(Seq<char>, LitVal)>>>,
    global: bool,
    i: int,
    k: int,
)
    requires
        offender_idents(variants, vps, global, i).len() == 0,
        0 <= k < i,
        candidate(global, vps, k),
    ensures
        variants[k].shape.field_count() == 1,
    decreases i,
{
    if k < i - 1 {
        lemma_no_offenders(variants, vps, global, i - 1, k);
    }
}

/// Generator of the `From` implementations for an enum.
pub struct EnumFromImplementer<'a> {
    pub item_enum: &'a EnumDecl,
    pub enum_parameters: &'a Parameters,
    pub variants_with_parameters: &'a Vec<Option<Parameters>>,
}

impl<'a> EnumFromImplementer<'a> {
    pub fn new(
        item_enum: &'a EnumDecl,
        enum_parameters: &'a Parameters,
        variants_with_parameters: &'a Vec<Option<Parameters>>,
    ) -> (s: Self)
        ensures
            s.item_enum == item_enum,
            s.enum_parameters == enum_parameters,
            s.variants_with_parameters == variants_with_parameters,
    {
        EnumFromImplementer { item_enum, enum_parameters, variants_with_parameters }
    }

    /// How many fields a variant has.
    pub fn variant_num_fields(&self, variant: &VariantEntry) -> (r: usize)
        ensures
            r == variant.shape.field_count(),
    {
        variant.shape.num_fields()
    }

    /// The `From` implementation of one single-field variant.
    fn implement_for_variant(&self, variant: &VariantEntry) -> (r: String)
        requires
            variant.shape.field_count() == 1,
        ensures
            r@ == variant_from_spec(*self.item_enum, *variant),
    {
        let mut owner = self.item_enum.ident.clone();
        owner.append("::");
        owner.append(variant.ident.as_str());
        let ty = single_field_type(&variant.shape);
        let construct = render_construct(owner.as_str(), &variant.shape);
        render_from_impl(
            self.item_enum.generics.impl_generics.as_str(),
            self.item_enum.ident.as_str(),
            self.item_enum.generics.type_generics.as_str(),
            self.item_enum.generics.where_clause.as_str(),
            ty.as_str(),
            construct.as_str(),
        )
    }

    /// Create the `From` implementations for every candidate variant.
    /// A flag on both the enum and a variant is a conflict; a candidate
    /// without exactly one field is an arity offender, and all
    /// offenders are reported together.
    pub fn implement(self) -> (r: Result<String, FromImplementationError>)
        requires
            self.variants_with_parameters@.len() == self.item_enum.variants@.len(),
            self.enum_parameters.bool_typed("impl_from"@),
            forall|i: int|
                0 <= i < self.variants_with_parameters@.len() ==> match #[trigger] self.variants_with_parameters@[i] {
                    Some(p) => p.bool_typed("impl_from"@),
                    None => true,
                },
        ensures
            ({
                let d = *self.item_enum;
                let vps = opt_pairs(self.variants_with_parameters@);
                let global = self.enum_parameters.spec_bool("impl_from"@);
                let n = d.variants@.len() as int;
                match r {
                    Ok(out) => {
                        &&& !(global && any_vflag(vps))
                        &&& offender_idents(d.variants@, vps, global, n).len() == 0
                        &&& out@ == from_impls_text(d, vps, global, n)
                    },
                    Err(e) => match e {
                        FromImplementationError::ParameterOnEnumAndVariant(id) => global
                            && any_vflag(vps) && id@ == d.ident@,
                        FromImplementationError::EnumNotExactlyOneField(id, idents) => {
                            &&& !(global && any_vflag(vps))
                            &&& offender_idents(d.variants@, vps, global, n).len() > 0
                            &&& id@ == d.ident@
                            &&& strings_view(idents@) == offender_idents(d.variants@, vps, global, n)
                        },
                        FromImplementationError::StructNotExactlyOneField(_) => false,
                    },
                }
            }),
    {
        let ghost d = *self.item_enum;
        let ghost vps = opt_pairs(self.variants_with_parameters@);
        let n = self.item_enum.variants.len();
        let global = self.enum_parameters.bool_for_name(IMPL_FROM);
        // A flag on the enum and on a variant is ambiguous intent.
        if global {
            let mut i: usize = 0;
            while i < n
                invariant
                    i <= n,
                    n == vps.len(),
                    vps == opt_pairs(self.variants_with_parameters@),
                    d == *self.item_enum,
                    global,
                    global == self.enum_parameters.spec_bool("impl_from"@),
                    forall|k: int|
                        0 <= k < self.variants_with_parameters@.len() ==> match #[trigger] self.variants_with_parameters@[k] {
                            Some(p) => p.bool_typed("impl_from"@),
                            None => true,
                        },
                    forall|k: int| 0 <= k < i ==> !vflag(vps, k),
                decreases n - i,
            {
                let flagged = match &self.variants_with_parameters[i] {
                    Some(p) => p.bool_for_name(IMPL_FROM),
                    None => false,
                };
                if flagged {
                    proof {
                        assert(vflag(vps, i as int));
                        assert(any_vflag(vps));
                    }
                    return Err(
                        FromImplementationError::ParameterOnEnumAndVariant(
                            self.item_enum.ident.clone(),
                        ),
                    );
                }
                i = i + 1;
            }
        }
        proof {
            if global {
                assert(!any_vflag(vps));
            }
        }
        // Collect every candidate whose field count is not one.
        let mut offenders: Vec<String> = Vec::new();
        let mut i: usize = 0;
        while i < n
            invariant
                i <= n,
                n == vps.len(),
                n == self.item_enum.variants@.len(),
                vps == opt_pairs(self.variants_with_parameters@),
                d == *self.item_enum,
                forall|k: int|
                    0 <= k < self.variants_with_parameters@.len() ==> match #[trigger] self.variants_with_parameters@[k] {
                        Some(p) => p.bool_typed("impl_from"@),
                        None => true,
                    },
                global == self.enum_parameters.spec_bool("impl_from"@),
                strings_view(offenders@) == offender_idents(d.variants@, vps, global, i as int),
            decreases n - i,
        {
            let flagged = match &self.variants_with_parameters[i] {
                Some(p) => p.bool_for_name(IMPL_FROM),
                None => false,
            };
            if (global || flagged) && self.item_enum.variants[i].shape.num_fields() != 1 {
                offenders.push(self.item_enum.variants[i].ident.clone());
            }
            i = i + 1;
            proof {
                assert(strings_view(offenders@) =~= offender_idents(
                    d.variants@,
                    vps,
                    global,
                    i as int,
                ));
            }
        }
        if offenders.len() > 0 {
            return Err(
                FromImplementationError::EnumNotExactlyOneField(
                    self.item_enum.ident.clone(),
                    offenders,
                ),
            );
        }
        // Build one implementation per candidate.
        let mut out = String::new();
        let mut i2: usize = 0;
        while i2 < n
            invariant
                i2 <= n,
                n == vps.len(),
                n == self.item_enum.variants@.len(),
                vps == opt_pairs(self.variants_with_parameters@),
                d == *self.item_enum,
                forall|k: int|
                    0 <= k < self.variants_with_parameters@.len() ==> match #[trigger] self.variants_with_parameters@[k] {
                        Some(p) => p.bool_typed("impl_from"@),
                        None => true,
                    },
                global == self.enum_parameters.spec_bool("impl_from"@),
                offender_idents(d.variants@, vps, global, n as int).len() == 0,
                out@ == from_impls_text(d, vps, global, i2 as int),
            decreases n - i2,
        {
            let flagged = match &self.variants_with_parameters[i2] {
                Some(p) => p.bool_for_name(IMPL_FROM),
                None => false,
            };
            if global || flagged {
                proof {
                    lemma_no_offenders(d.variants@, vps, global, n as int, i2 as int);
                }
                let implementation = self.implement_for_variant(&self.item_enum.variants[i2]);
                out.append(implementation.as_str());
                out.append(" ");
            }
            i2 = i2 + 1;
            proof {
                assert(out@ =~= from_impls_text(d, vps, global, i2 as int));
            }
        }
        Ok(out)
    }
}

} // verus!
