//! The `Display` implementation for an enum: one match arm per variant
//! with a message, compiled in bound-variables mode, and a wildcard arm
//! for the enum's default message where some variants have none.
//!
//! It is an error when some variants lack a message and no default is
//! set, and when every variant has one yet a default is set as well.

use vstd::prelude::*;
use vstd::string::StringExecFns;

use crate::common::from_chars;
use crate::decl::{EnumDecl, FieldShape, VariantEntry};
use crate::impl_display::DisplayImplementationError;
use crate::impl_display::compile::{
    AccessMode, CompiledTemplate, args_spec, compile_template, count_free, dec_digits, dec_chars,
    field_referenced, fmt_spec, render_write_call, write_call_spec,
};
use crate::impl_display::write::{template_balanced, template_pieces};
use crate::parameters::{LitVal, MESSAGE, Parameters, opt_pairs, pair_string};

verus! {

/// Whether field `i` is bound in the match pattern: every field when a
/// free-form placeholder might read any of them, else the referenced
/// ones.
pub open spec fn bound_flag(msg: Seq<char>, shape: FieldShape, i: int) -> bool {
    count_free(template_pieces(msg), shape) > 0 || field_referenced(template_pieces(msg), shape, i)
}

/// The named binders below `i`: each bound field name, a comma after
/// each.
pub open spec fn named_binders(msg: Seq<char>, shape: FieldShape, i: int) -> Seq<char>
    decreases i,
{
    if i <= 0 {
        Seq::empty()
    } else {
        named_binders(msg, shape, i - 1) + (if bound_flag(msg, shape, i - 1) {
            shape.field_names()[i - 1] + seq![',']
        } else {
            Seq::empty()
        })
    }
}

/// The positional binders below `i`: `_<index>` for a bound field, `_`
/// for the rest, a comma after each.
pub open spec fn pos_binders(msg: Seq<char>, shape: FieldShape, i: int) -> Seq<char>
    decreases i,
{
    if i <= 0 {
        Seq::empty()
    } else {
        pos_binders(msg, shape, i - 1) + (if bound_flag(msg, shape, i - 1) {
            seq!['_'] + dec_digits((i - 1) as nat)
        } else {
            seq!['_']
        }) + seq![',']
    }
}

/// The match pattern of a variant, with its leading space; a unit
/// variant has none.
pub open spec fn pattern_spec(msg: Seq<char>, shape: FieldShape) -> Seq<char> {
    match shape {
        FieldShape::Unit => Seq::empty(),
        FieldShape::Positional(_) => " ("@ + pos_binders(msg, shape, shape.field_count() as int)
            + ")"@,
        FieldShape::Named(_) => {
            if shape.field_count() == 0 {
                " {}"@
            } else if forall|i: int| 0 <= i < shape.field_count() ==> bound_flag(msg, shape, i) {
                " {"@ + named_binders(msg, shape, shape.field_count() as int) + "}"@
            } else {
                " {"@ + named_binders(msg, shape, shape.field_count() as int) + "..}"@
            }
        },
    }
}

/// The match arm of a variant with a message.
pub open spec fn arm_spec(enum_ident: Seq<char>, v: VariantEntry, msg: Seq<char>) -> Seq<char> {
    enum_ident + "::"@ + v.ident@ + pattern_spec(msg, v.shape) + " => "@ + write_call_spec(
        fmt_spec(template_pieces(msg), v.shape),
        args_spec(template_pieces(msg), v.shape, AccessMode::BoundVariables),
    ) + ","@
}

/// The message a variant's parameters set, if any.
pub open spec fn variant_message(
    vpairs: Seq<Option<Seq<(Seq<char>, LitVal)>>>,
    i: int,
) -> Option<Seq<char>> {
    match vpairs[i] {
        Some(pairs) => pair_string(pairs, "message"@),
        None => None,
    }
}

/// How many of the first `i` variants have their own message.
pub open spec fn num_with_message(vps: Seq<Option<Seq<(Seq<char>, LitVal)>>>, i: int) -> int
    decreases i,
{
    if i <= 0 {
        0
    } else {
        num_with_message(vps, i - 1) + if variant_message(vps, i - 1) is Some {
            1int
        } else {
            0
        }
    }
}

/// Every set message, container default included, has balanced braces.
pub open spec fn messages_balanced(
    vps: Seq<Option<Seq<(Seq<char>, LitVal)>>>,
    default_msg: Option<Seq<char>>,
) -> bool {
    &&& (forall|i: int|
        0 <= i < vps.len() ==> match #[trigger] variant_message(vps, i) {
            Some(m) => template_balanced(m),
            None => true,
        })
    &&& match default_msg {
        Some(m) => template_balanced(m),
        None => true,
    }
}

/// The match arms of the variants with a message, in variant order.
pub open spec fn arms_text(
    d: EnumDecl,
    vps: Seq<Option<Seq<(Seq<char>, LitVal)>>>,
    i: int,
) -> Seq<char>
    decreases i,
{
    if i <= 0 {
        Seq::empty()
    } else {
        arms_text(d, vps, i - 1) + (match variant_message(vps, i - 1) {
            Some(m) => arm_spec(d.ident@, d.variants@[i - 1], m) + " "@,
            None => Seq::empty(),
        })
    }
}

/// The wildcard arm for the default message, where one is set.
pub open spec fn default_arm_spec(default_msg: Option<Seq<char>>) -> Seq<char> {
    match default_msg {
        Some(m) => "_ => "@ + write_call_spec(
            fmt_spec(template_pieces(m), FieldShape::Unit),
            args_spec(template_pieces(m), FieldShape::Unit, AccessMode::BoundVariables),
        ),
        None => Seq::empty(),
    }
}

/// The text of the whole `Display` implementation of an enum.
pub open spec fn enum_display_spec(
    d: EnumDecl,
    vps: Seq<Option<Seq<(Seq<char>, LitVal)>>>,
    default_msg: Option<Seq<char>>,
) -> Seq<char> {
    "impl "@ + d.generics.impl_generics@ + " std::fmt::Display for "@ + d.ident@
        + d.generics.type_generics@ + " "@ + d.generics.where_clause@
        + " { fn fmt(&self, f: &mut std::fmt::Formatter<'_>) -> std::fmt::Result { match self { "@
        + arms_text(d, vps, d.variants@.len() as int) + default_arm_spec(default_msg) + " } } }"@
}

/// Build the match pattern of a variant.
fn render_pattern(msg: &str, shape: &FieldShape, ct: &CompiledTemplate) -> (r: String)
    requires
        ct.referenced@.len() == shape.field_count(),
        forall|i: int|
            0 <= i < shape.field_count() ==> ct.referenced@[i] == field_referenced(
                template_pieces(msg@),
                *shape,
                i,
            ),
        ct.has_free == (count_free(template_pieces(msg@), *shape) > 0),
    ensures
        r@ == pattern_spec(msg@, *shape),
{
    match shape {
        FieldShape::Unit => String::new(),
        FieldShape::Positional(_) => {
            let n = shape.num_fields();
            let mut chars: Vec<char> = Vec::new();
            let mut i: usize = 0;
            while i < n
                invariant
                    i <= n,
                    n == shape.field_count(),
                    ct.referenced@.len() == shape.field_count(),
                    forall|k: int|
                        0 <= k < shape.field_count() ==> ct.referenced@[k] == field_referenced(
                            template_pieces(msg@),
                            *shape,
                            k,
                        ),
                    ct.has_free == (count_free(template_pieces(msg@), *shape) > 0),
                    chars@ == pos_binders(msg@, *shape, i as int),
                decreases n - i,
            {
                chars.push('_');
                if ct.has_free || ct.referenced[i] {
                    let mut d = dec_chars(i);
                    let ghost base = chars@;
                    let mut j: usize = 0;
                    while j < d.len()
                        invariant
                            j <= d@.len(),
                            d@ == dec_digits(i as nat),
                            chars@ == base + d@.subrange(0, j as int),
                        decreases d.len() - j,
                    {
                        chars.push(d[j]);
                        j = j + 1;
                        proof {
                            assert(chars@ =~= base + d@.subrange(0, j as int));
                        }
                    }
                    proof {
                        assert(d@.subrange(0, d@.len() as int) =~= d@);
                    }
                }
                chars.push(',');
                i = i + 1;
                proof {
                    assert(chars@ =~= pos_binders(msg@, *shape, i as int));
                }
            }
            let mut r = String::from_str(" (");
            r.append(from_chars(&chars).as_str());
            r.append(")");
            r
        },
        FieldShape::Named(fields) => {
            let n = shape.num_fields();
            if n == 0 {
                return String::from_str(" {}");
            }
            let mut chars: Vec<char> = Vec::new();
            let mut all_bound = true;
            let mut i: usize = 0;
            while i < n
                invariant
                    i <= n,
                    n == shape.field_count(),
                    shape matches FieldShape::Named(fs) && fs == fields,
                    ct.referenced@.len() == shape.field_count(),
                    forall|k: int|
                        0 <= k < shape.field_count() ==> ct.referenced@[k] == field_referenced(
                            template_pieces(msg@),
                            *shape,
                            k,
                        ),
                    ct.has_free == (count_free(template_pieces(msg@), *shape) > 0),
                    chars@ == named_binders(msg@, *shape, i as int),
                    all_bound == (forall|k: int| 0 <= k < i ==> bound_flag(msg@, *shape, k)),
                decreases n - i,
            {
                let ghost oldall = all_bound;
                if ct.has_free || ct.referenced[i] {
                    let name_chars = crate::common::to_chars(fields[i].name.as_str());
                    let ghost base = chars@;
                    let mut j: usize = 0;
                    while j < name_chars.len()
                        invariant
                            j <= name_chars@.len(),
                            name_chars@ == fields@[i as int].name@,
                            i < fields@.len(),
                            chars@ == base + name_chars@.subrange(0, j as int),
                        decreases name_chars.len() - j,
                    {
                        chars.push(name_chars[j]);
                        j = j + 1;
                        proof {
                            assert(chars@ =~= base + name_chars@.subrange(0, j as int));
                        }
                    }
                    chars.push(',');
                    proof {
                        assert(name_chars@.subrange(0, name_chars@.len() as int) =~= name_chars@);
                        assert(shape.field_names()[i as int] == fields@[i as int].name@);
                    }
                } else {
                    all_bound = false;
                }
                i = i + 1;
                proof {
                    assert(chars@ =~= named_binders(msg@, *shape, i as int));
                    if !bound_flag(msg@, *shape, i - 1) {
                        assert(!(forall|k: int| 0 <= k < i ==> bound_flag(msg@, *shape, k)));
                    } else {
                        if oldall {
                            assert forall|k: int| 0 <= k < i implies bound_flag(msg@, *shape, k)
                            by {
                                if k < i - 1 {
                                    assert(bound_flag(msg@, *shape, k));
                                }
                            }
                        }
                    }
                }
            }
            let mut r = String::from_str(" {");
            r.append(from_chars(&chars).as_str());
            if all_bound {
                r.append("}");
            } else {
                r.append("..}");
            }
            r
        },
    }
}

/// Build the match arm of a variant with a message.
pub fn create_match_arm(enum_ident: &str, variant: &VariantEntry, message: &str) -> (r: Result<
    String,
    DisplayImplementationError,
>)
    ensures
        match r {
            Ok(out) => template_balanced(message@) && out@ == arm_spec(
                enum_ident@,
                *variant,
                message@,
            ),
            Err(e) => !template_balanced(message@) && (e
                matches DisplayImplementationError::UnbalancedTemplate(t) && t@ == message@),
        },
{
    let ct = match compile_template(message, &variant.shape, AccessMode::BoundVariables) {
        Ok(ct) => ct,
        Err(e) => {
            return Err(e);
        },
    };
    let pattern = render_pattern(message, &variant.shape, &ct);
    let call_text = render_write_call(&ct.call);
    let mut r = String::from_str(enum_ident);
    r.append("::");
    r.append(variant.ident.as_str());
    r.append(pattern.as_str());
    r.append(" => ");
    r.append(call_text.as_str());
    r.append(",");
    Ok(r)
}

/// Generator of the `Display` implementation for an enum.
pub struct EnumDisplayImplementor<'a> {
    pub item_enum: &'a EnumDecl,
    pub enum_parameters: &'a Parameters,
    pub variants_with_parameters: &'a Vec<Option<Parameters>>,
}

impl<'a> EnumDisplayImplementor<'a> {
    pub fn new(
        item_enum: &'a EnumDecl,
        enum_parameters: &'a Parameters,
        variants_with_parameters: &'a Vec<Option<Parameters>>,
    ) -> (s: Self)
        ensures
            s.item_enum == item_enum,
            s.enum_parameters == enum_parameters,
            s.variants_with_parameters == variants_with_parameters,
    {
        EnumDisplayImplementor { item_enum, enum_parameters, variants_with_parameters }
    }

    /// Create the `Display` implementation for the enum and its
    /// variants.  Nothing is generated when neither the enum nor any
    /// variant sets a message.  It is an error when some variants lack
    /// a message and no default is set, when every variant has one yet
    /// a default is also set, and when a template is unbalanced.
    pub fn implement(self) -> (r: Result<String, DisplayImplementationError>)
        requires
            self.variants_with_parameters@.len() == self.item_enum.variants@.len(),
            self.enum_parameters.string_typed("message"@),
            forall|i: int|
                0 <= i < self.variants_with_parameters@.len() ==> match #[trigger] self.variants_with_parameters@[i] {
                    Some(p) => p.string_typed("message"@),
                    None => true,
                },
        ensures
            ({
                let d = *self.item_enum;
                let vpairs = opt_pairs(self.variants_with_parameters@);
                let dm = self.enum_parameters.spec_string("message"@);
                let n = d.variants@.len() as int;
                let nmsg = num_with_message(vpairs, n);
                match r {
                    Ok(out) => {
                        if dm is None && nmsg == 0 {
                            out@ == Seq::<char>::empty()
                        } else {
                            &&& (dm is None ==> nmsg == n)
                            &&& (dm is Some ==> nmsg != n)
                            &&& messages_balanced(vpairs, dm)
                            &&& out@ == enum_display_spec(d, vpairs, dm)
                        }
                    },
                    Err(e) => match e {
                        DisplayImplementationError::MissingMessages(id) => dm is None && nmsg != 0
                            && nmsg != n && id@ == d.ident@,
                        DisplayImplementationError::UnnecessaryDefaultMessage(id) => dm is Some
                            && nmsg == n && id@ == d.ident@,
                        DisplayImplementationError::UnbalancedTemplate(t) => {
                            &&& !(dm is None && nmsg == 0)
                            &&& (dm is None ==> nmsg == n)
                            &&& (dm is Some ==> nmsg != n)
                            &&& !template_balanced(t@)
                            &&& ((exists|i: int|
                                0 <= i < n && variant_message(vpairs, i) == Some(t@)) || dm
                                == Some(t@))
                        },
                    },
                }
            }),
    {
        let ghost d = *self.item_enum;
        let ghost vpairs = opt_pairs(self.variants_with_parameters@);
        let n = self.item_enum.variants.len();
        // How many variants have their own message.
        let mut nmsg: usize = 0;
        let mut i: usize = 0;
        while i < n
            invariant
                i <= n,
                n == self.item_enum.variants@.len(),
                n == self.variants_with_parameters@.len(),
                vpairs == opt_pairs(self.variants_with_parameters@),
                forall|k: int|
                    0 <= k < self.variants_with_parameters@.len() ==> match #[trigger] self.variants_with_parameters@[k] {
                        Some(p) => p.string_typed("message"@),
                        None => true,
                    },
                nmsg <= i,
                nmsg == num_with_message(vpairs, i as int),
            decreases n - i,
        {
            let has_msg = match &self.variants_with_parameters[i] {
                Some(p) => {
                    match p.string_for_name(MESSAGE) {
                        Some(_) => true,
                        None => false,
                    }
                },
                None => false,
            };
            if has_msg {
                nmsg = nmsg + 1;
            }
            i = i + 1;
        }
        let default_opt = self.enum_parameters.string_for_name(MESSAGE);
        let default_is_some = match &default_opt {
            Some(_) => true,
            None => false,
        };
        // No message anywhere: nothing to generate.
        if !default_is_some && nmsg == 0 {
            return Ok(String::new());
        }
        // Some variants lack a message and there is no default.
        if !default_is_some && nmsg != n {
            return Err(
                DisplayImplementationError::MissingMessages(self.item_enum.ident.clone()),
            );
        }
        // Every variant has its own message, so a default is dead.
        if default_is_some && nmsg == n {
            return Err(
                DisplayImplementationError::UnnecessaryDefaultMessage(
                    self.item_enum.ident.clone(),
                ),
            );
        }
        let ghost dm = self.enum_parameters.spec_string("message"@);
        let ghost nmsg_total = num_with_message(vpairs, n as int);
        // One match arm per variant with a message.
        let mut arms = String::new();
        let mut i2: usize = 0;
        while i2 < n
            invariant
                i2 <= n,
                n == self.item_enum.variants@.len(),
                n == self.variants_with_parameters@.len(),
                d == *self.item_enum,
                vpairs == opt_pairs(self.variants_with_parameters@),
                dm == self.enum_parameters.spec_string("message"@),
                nmsg_total == num_with_message(vpairs, n as int),
                !(dm is None && nmsg_total == 0),
                dm is None ==> nmsg_total == n,
                dm is Some ==> nmsg_total != n,
                forall|k: int|
                    0 <= k < self.variants_with_parameters@.len() ==> match #[trigger] self.variants_with_parameters@[k] {
                        Some(p) => p.string_typed("message"@),
                        None => true,
                    },
                forall|k: int|
                    0 <= k < i2 ==> match #[trigger] variant_message(vpairs, k) {
                        Some(m) => template_balanced(m),
                        None => true,
                    },
                arms@ == arms_text(d, vpairs, i2 as int),
            decreases n - i2,
        {
            let msg_opt = match &self.variants_with_parameters[i2] {
                Some(p) => p.string_for_name(MESSAGE),
                None => None,
            };
            if let Some(m) = msg_opt {
                match create_match_arm(
                    self.item_enum.ident.as_str(),
                    &self.item_enum.variants[i2],
                    m.as_str(),
                ) {
                    Ok(a) => {
                        arms.append(a.as_str());
                        arms.append(" ");
                    },
                    Err(e) => {
                        proof {
                            assert(variant_message(vpairs, i2 as int) == Some(m@));
                        }
                        return Err(e);
                    },
                }
            }
            i2 = i2 + 1;
            proof {
                assert(arms@ =~= arms_text(d, vpairs, i2 as int));
            }
        }
        // The wildcard arm for the default message.
        let mut default_arm = String::new();
        if let Some(m) = &default_opt {
            let unit_shape = FieldShape::Unit;
            match compile_template(m.as_str(), &unit_shape, AccessMode::BoundVariables) {
                Ok(ct) => {
                    default_arm = String::from_str("_ => ");
                    let call_text = render_write_call(&ct.call);
                    default_arm.append(call_text.as_str());
                },
                Err(e) => {
                    return Err(e);
                },
            }
        }
        let mut r = String::from_str("impl ");
        r.append(self.item_enum.generics.impl_generics.as_str());
        r.append(" std::fmt::Display for ");
        r.append(self.item_enum.ident.as_str());
        r.append(self.item_enum.generics.type_generics.as_str());
        r.append(" ");
        r.append(self.item_enum.generics.where_clause.as_str());
        r.append(" { fn fmt(&self, f: &mut std::fmt::Formatter<'_>) -> std::fmt::Result { match self { ");
        r.append(arms.as_str());
        r.append(default_arm.as_str());
        r.append(" } } }");
        Ok(r)
    }
}

} // verus!
