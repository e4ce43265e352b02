//! The placeholder compiler: it turns the scanned pieces of a message
//! template into a formatted-output call, a format string beside an
//! argument list.
//!
//! A placeholder body is resolved against the field shape: over a named
//! shape a body equal to a field name is a named placeholder, over a
//! positional shape a body that reads as a canonical decimal below the
//! field count is a positional placeholder, and every other body is a
//! free-form expression copied into the argument list verbatim.
//!
//! Free-form and named placeholders each stand as `{}` in the format
//! string, with one argument per occurrence, in template order.
//! Positional placeholders are renumbered over the referenced fields
//! only, in ascending original-index order, and stand as an explicit
//! index, so one field referenced twice contributes one argument; their
//! arguments follow the free-form ones in the argument list.

use vstd::prelude::*;
use vstd::string::StringExecFns;

use crate::common::{from_chars, str_eq, to_chars};
use crate::decl::{FieldShape, NamedField};
use crate::impl_display::DisplayImplementationError;
use crate::impl_display::write::{Piece, PieceSpec, piece_view, pieces_view, spans_of, template_balanced, template_pieces};

verus! {

/// One piece of a format string: a literal character, an implicit
/// `{}` hole, or an explicit `{index}` reference into the arguments.
#[derive(PartialEq, Eq, Structural, Clone, Copy)]
pub enum FmtPiece {
    Lit(char),
    Implicit,
    Explicit(usize),
}

/// A compiled formatted-output call: the format string, as pieces, and
/// the argument expressions, in call order.
pub struct FormattedCall {
    pub pieces: Vec<FmtPiece>,
    pub args: Vec<String>,
}

/// The views of a sequence of strings.
pub open spec fn strings_view(v: Seq<String>) -> Seq<Seq<char>> {
    v.map_values(|s: String| s@)
}

impl FormattedCall {
    /// The argument expressions, as character sequences.
    pub open spec fn args_view(self) -> Seq<Seq<char>> {
        strings_view(self.args@)
    }
}

// ---------------------------------------------------------------------
// Decimal rendering.
// ---------------------------------------------------------------------
pub open spec fn digit_char(d: int) -> char {
    if d == 0 {
        '0'
    } else if d == 1 {
        '1'
    } else if d == 2 {
        '2'
    } else if d == 3 {
        '3'
    } else if d == 4 {
        '4'
    } else if d == 5 {
        '5'
    } else if d == 6 {
        '6'
    } else if d == 7 {
        '7'
    } else if d == 8 {
        '8'
    } else {
        '9'
    }
}

/// The decimal digits of `n`, most significant first.
pub open spec fn dec_digits(n: nat) -> Seq<char>
    decreases n,
{
    if n < 10 {
        seq![digit_char(n as int)]
    } else {
        dec_digits(n / 10).push(digit_char((n % 10) as int))
    }
}

fn digit_of(d: usize) -> (c: char)
    requires
        d < 10,
    ensures
        c == digit_char(d as int),
{
    if d == 0 {
        '0'
    } else if d == 1 {
        '1'
    } else if d == 2 {
        '2'
    } else if d == 3 {
        '3'
    } else if d == 4 {
        '4'
    } else if d == 5 {
        '5'
    } else if d == 6 {
        '6'
    } else if d == 7 {
        '7'
    } else if d == 8 {
        '8'
    } else {
        '9'
    }
}

/// The decimal digits of `n`.
pub fn dec_chars(n: usize) -> (v: Vec<char>)
    ensures
        v@ == dec_digits(n as nat),
    decreases n,
{
    if n < 10 {
        let mut v: Vec<char> = Vec::new();
        v.push(digit_of(n));
        proof {
            assert(v@ =~= seq![digit_char(n as int)]);
        }
        v
    } else {
        let mut v = dec_chars(n / 10);
        v.push(digit_of(n % 10));
        v
    }
}

// ---------------------------------------------------------------------
// Rendering a call as text.
// ---------------------------------------------------------------------
/// The format-string text of one piece.
pub open spec fn fmt_piece_chars(p: FmtPiece) -> Seq<char> {
    match p {
        FmtPiece::Lit(c) => seq![c],
        FmtPiece::Implicit => seq!['{', '}'],
        FmtPiece::Explicit(k) => seq!['{'] + dec_digits(k as nat) + seq!['}'],
    }
}

/// The format-string text of a piece sequence.
pub open spec fn render_fmt(ps: Seq<FmtPiece>) -> Seq<char>
    decreases ps.len(),
{
    if ps.len() == 0 {
        Seq::empty()
    } else {
        render_fmt(ps.drop_last()) + fmt_piece_chars(ps.last())
    }
}

/// The argument part of a call: `, ` before each argument.
pub open spec fn args_text(args: Seq<Seq<char>>) -> Seq<char>
    decreases args.len(),
{
    if args.len() == 0 {
        Seq::empty()
    } else {
        args_text(args.drop_last()) + seq![',', ' '] + args.last()
    }
}

/// The whole `write!` call for a format string and arguments.
pub open spec fn write_call_spec(ps: Seq<FmtPiece>, args: Seq<Seq<char>>) -> Seq<char> {
    "write!(f, \""@ + render_fmt(ps) + "\""@ + args_text(args) + ")"@
}

/// The format string of a call, as text.
pub fn render_format(pieces: &Vec<FmtPiece>) -> (r: Vec<char>)
    ensures
        r@ == render_fmt(pieces@),
{
    let mut r: Vec<char> = Vec::new();
    let mut i: usize = 0;
    while i < pieces.len()
        invariant
            i <= pieces@.len(),
            r@ == render_fmt(pieces@.subrange(0, i as int)),
        decreases pieces.len() - i,
    {
        match pieces[i] {
            FmtPiece::Lit(c) => {
                r.push(c);
            },
            FmtPiece::Implicit => {
                r.push('{');
                r.push('}');
            },
            FmtPiece::Explicit(k) => {
                r.push('{');
                let mut d = dec_chars(k);
                let ghost rprev = r@;
                let mut j: usize = 0;
                while j < d.len()
                    invariant
                        j <= d@.len(),
                        d@ == dec_digits(k as nat),
                        r@ == rprev + d@.subrange(0, j as int),
                    decreases d.len() - j,
                {
                    r.push(d[j]);
                    j = j + 1;
                    proof {
                        assert(r@ =~= rprev + d@.subrange(0, j as int));
                    }
                }
                proof {
                    assert(d@.subrange(0, d@.len() as int) =~= d@);
                }
                r.push('}');
            },
        }
        i = i + 1;
        proof {
            let t = pieces@.subrange(0, i as int);
            assert(t.drop_last() =~= pieces@.subrange(0, i - 1));
            assert(t.last() == pieces@[i - 1]);
            assert(r@ =~= render_fmt(t));
        }
    }
    proof {
        assert(pieces@.subrange(0, pieces@.len() as int) =~= pieces@);
    }
    r
}

/// The whole `write!` call for a compiled template, as text.
pub fn render_write_call(call: &FormattedCall) -> (r: String)
    ensures
        r@ == write_call_spec(call.pieces@, call.args_view()),
{
    let mut r = String::from_str("write!(f, \"");
    let fmt = render_format(&call.pieces);
    let fmt_string = from_chars(&fmt);
    r.append(fmt_string.as_str());
    r.append("\"");
    let ghost rbase = r@;
    let mut i: usize = 0;
    while i < call.args.len()
        invariant
            i <= call.args@.len(),
            r@ == rbase + args_text(call.args_view().subrange(0, i as int)),
        decreases call.args.len() - i,
    {
        r.append(", ");
        r.append(call.args[i].as_str());
        i = i + 1;
        proof {
            reveal_strlit(", ");
            assert(", "@ =~= seq![',', ' ']);
            let t = call.args_view().subrange(0, i as int);
            assert(t.drop_last() =~= call.args_view().subrange(0, i - 1));
            assert(t.last() == call.args_view()[i - 1]);
            assert(r@ =~= rbase + args_text(t));
        }
    }
    r.append(")");
    proof {
        assert(call.args_view().subrange(0, call.args_view().len() as int) =~= call.args_view());
        assert(r@ =~= write_call_spec(call.pieces@, call.args_view()));
    }
    r
}

// ---------------------------------------------------------------------
// Free-form compilation: every span is an expression.
// ---------------------------------------------------------------------
/// The format pieces of a free-form template: spans become `{}` holes.
pub open spec fn free_fmt(ps: Seq<PieceSpec>) -> Seq<FmtPiece> {
    ps.map_values(
        |p: PieceSpec|
            match p {
                PieceSpec::Lit(c) => FmtPiece::Lit(c),
                PieceSpec::Span(_) => FmtPiece::Implicit,
            },
    )
}

/// The whole `write!` call text of a free-form template.
pub open spec fn write_call_free_spec(t: Seq<char>) -> Seq<char> {
    write_call_spec(free_fmt(template_pieces(t)), spans_of(template_pieces(t)))
}

/// Compile scanned pieces in free-form mode: each span body becomes one
/// argument, in order, behind a `{}` hole.
pub fn compile_free_form(pieces: &Vec<Piece>) -> (call: FormattedCall)
    ensures
        call.pieces@ == free_fmt(pieces_view(pieces@)),
        call.args_view() == spans_of(pieces_view(pieces@)),
{
    let mut fmt: Vec<FmtPiece> = Vec::new();
    let mut args: Vec<String> = Vec::new();
    let mut i: usize = 0;
    while i < pieces.len()
        invariant
            i <= pieces@.len(),
            fmt@ == free_fmt(pieces_view(pieces@.subrange(0, i as int))),
            strings_view(args@) == spans_of(pieces_view(pieces@.subrange(0, i as int))),
        decreases pieces.len() - i,
    {
        match &pieces[i] {
            Piece::Lit(c) => {
                fmt.push(FmtPiece::Lit(*c));
            },
            Piece::Span(b) => {
                fmt.push(FmtPiece::Implicit);
                args.push(from_chars(b));
            },
        }
        i = i + 1;
        proof {
            let t = pieces@.subrange(0, i as int);
            assert(t.drop_last() =~= pieces@.subrange(0, i - 1));
            assert(t.last() == pieces@[i - 1]);
            let tv = pieces_view(t);
            assert(tv.drop_last() =~= pieces_view(pieces@.subrange(0, i - 1)));
            assert(tv.last() == piece_view(pieces@[i - 1]));
            assert(fmt@ =~= free_fmt(tv));
            assert(strings_view(args@) =~= spans_of(tv));
        }
    }
    proof {
        assert(pieces@.subrange(0, pieces@.len() as int) =~= pieces@);
    }
    FormattedCall { pieces: fmt, args }
}

// ---------------------------------------------------------------------
// Placeholder classification.
// ---------------------------------------------------------------------
/// How field accesses are written: `self.<field>` on a struct, or the
/// bound pattern variable of a match arm.
#[derive(PartialEq, Eq, Structural, Clone, Copy)]
pub enum AccessMode {
    SelfAccess,
    BoundVariables,
}

pub open spec fn is_digit(c: char) -> bool {
    '0' <= c && c <= '9'
}

/// The numeric value of a digit character.
pub open spec fn digit_val(c: char) -> int {
    if c == '0' { 0 }
    else if c == '1' { 1 }
    else if c == '2' { 2 }
    else if c == '3' { 3 }
    else if c == '4' { 4 }
    else if c == '5' { 5 }
    else if c == '6' { 6 }
    else if c == '7' { 7 }
    else if c == '8' { 8 }
    else if c == '9' { 9 }
    else { 0 }
}

pub open spec fn all_digits(s: Seq<char>) -> bool {
    forall|i: int| 0 <= i < s.len() ==> is_digit(s[i])
}

/// The number a digit sequence reads as.
pub open spec fn dec_val(s: Seq<char>) -> int
    decreases s.len(),
{
    if s.len() == 0 {
        0
    } else {
        dec_val(s.drop_last()) * 10 + digit_val(s.last())
    }
}

/// A canonical decimal index: digits only, no leading zero.
pub open spec fn is_canonical_index(s: Seq<char>) -> bool {
    s.len() > 0 && all_digits(s) && (s.len() == 1 || s[0] != '0')
}

/// What a placeholder body resolves to over a shape.
pub enum SpanKind {
    KNamed(int),
    KPos(int),
    KFree,
}

/// Index of the first field of that name.
pub open spec fn name_index(names: Seq<Seq<char>>, b: Seq<char>) -> Option<int>
    decreases names.len(),
{
    if names.len() == 0 {
        None
    } else if names[0] == b {
        Some(0int)
    } else {
        match name_index(names.drop_first(), b) {
            Some(j) => Some(j + 1),
            None => None,
        }
    }
}

/// Resolve a placeholder body: a field name over a named shape, a
/// canonical index below the field count over a positional shape,
/// anything else a free-form expression.
pub open spec fn classify_spec(shape: FieldShape, b: Seq<char>) -> SpanKind {
    match shape {
        FieldShape::Unit => SpanKind::KFree,
        FieldShape::Positional(tys) => {
            if is_canonical_index(b) && dec_val(b) < tys@.len() {
                SpanKind::KPos(dec_val(b))
            } else {
                SpanKind::KFree
            }
        },
        FieldShape::Named(_) => {
            match name_index(shape.field_names(), b) {
                Some(j) => SpanKind::KNamed(j),
                None => SpanKind::KFree,
            }
        },
    }
}

proof fn lemma_dec_val_nonneg(s: Seq<char>)
    ensures
        dec_val(s) >= 0,
    decreases s.len(),
{
    if s.len() > 0 {
        lemma_dec_val_nonneg(s.drop_last());
    }
}

/// Reading more digits never shrinks the value.
proof fn lemma_dec_val_prefix_le(s: Seq<char>, k: int)
    requires
        all_digits(s),
        0 <= k <= s.len(),
    ensures
        dec_val(s.subrange(0, k)) <= dec_val(s),
    decreases s.len() - k,
{
    if k == s.len() {
        assert(s.subrange(0, k) =~= s);
    } else {
        let d = s.drop_last();
        assert(forall|i: int| 0 <= i < d.len() ==> is_digit(#[trigger] d[i]));
        lemma_dec_val_nonneg(d);
        lemma_dec_val_prefix_le(d, k);
        assert(d.subrange(0, k) =~= s.subrange(0, k));
    }
}

/// Parse a placeholder body as a positional index below `count`.
fn parse_index(body: &Vec<char>, count: usize) -> (r: Option<usize>)
    ensures
        match r {
            Some(i) => is_canonical_index(body@) && dec_val(body@) == i && i < count,
            None => !(is_canonical_index(body@) && dec_val(body@) < count),
        },
{
    if body.len() == 0 {
        return None;
    }
    if body.len() > 1 && body[0] == '0' {
        return None;
    }
    let mut acc: u128 = 0;
    let mut i: usize = 0;
    while i < body.len()
        invariant
            i <= body@.len(),
            forall|j: int| 0 <= j < i ==> is_digit(body@[j]),
            acc == dec_val(body@.subrange(0, i as int)),
            acc <= usize::MAX as u128,
        decreases body.len() - i,
    {
        let c = body[i];
        if c < '0' || c > '9' {
            proof {
                assert(!is_digit(body@[i as int]));
            }
            return None;
        }
        let d = digit_value(c);
        acc = acc * 10 + (d as u128);
        i = i + 1;
        proof {
            let t = body@.subrange(0, i as int);
            assert(t.drop_last() =~= body@.subrange(0, i - 1));
            assert(t.last() == c);
        }
        if acc > (usize::MAX as u128) {
            proof {
                if is_canonical_index(body@) && dec_val(body@) < count {
                    lemma_dec_val_prefix_le(body@, i as int);
                }
            }
            return None;
        }
    }
    proof {
        assert(body@.subrange(0, body@.len() as int) =~= body@);
    }
    if acc < (count as u128) {
        Some(acc as usize)
    } else {
        None
    }
}

fn digit_value(c: char) -> (d: usize)
    requires
        is_digit(c),
    ensures
        d == digit_val(c),
{
    match c {
        '0' => 0,
        '1' => 1,
        '2' => 2,
        '3' => 3,
        '4' => 4,
        '5' => 5,
        '6' => 6,
        '7' => 7,
        '8' => 8,
        _ => 9,
    }
}

/// The executable counterpart of `SpanKind`.
pub enum CKind {
    CNamed(usize),
    CPos(usize),
    CFree,
}

proof fn lemma_name_index_none(names: Seq<Seq<char>>, b: Seq<char>)
    requires
        forall|j: int| 0 <= j < names.len() ==> names[j] != b,
    ensures
        name_index(names, b) is None,
    decreases names.len(),
{
    if names.len() > 0 {
        let rest = names.drop_first();
        assert(forall|j: int| 0 <= j < rest.len() ==> rest[j] == names[j + 1]);
        lemma_name_index_none(rest, b);
    }
}

proof fn lemma_name_index_found(names: Seq<Seq<char>>, b: Seq<char>, i: int)
    requires
        0 <= i < names.len(),
        names[i] == b,
        forall|j: int| 0 <= j < i ==> names[j] != b,
    ensures
        name_index(names, b) == Some(i),
    decreases i,
{
    if i > 0 {
        let rest = names.drop_first();
        assert(forall|j: int| 0 <= j < rest.len() ==> rest[j] == names[j + 1]);
        lemma_name_index_found(rest, b, i - 1);
    }
}

/// Resolve a placeholder body over a shape.
pub fn classify(body: &Vec<char>, shape: &FieldShape) -> (k: CKind)
    ensures
        match k {
            CKind::CNamed(j) => classify_spec(*shape, body@) == SpanKind::KNamed(j as int),
            CKind::CPos(i) => classify_spec(*shape, body@) == SpanKind::KPos(i as int),
            CKind::CFree => classify_spec(*shape, body@) == SpanKind::KFree,
        },
{
    match shape {
        FieldShape::Unit => CKind::CFree,
        FieldShape::Positional(tys) => {
            match parse_index(body, tys.len()) {
                Some(i) => CKind::CPos(i),
                None => CKind::CFree,
            }
        },
        FieldShape::Named(fields) => {
            let ghost names = shape.field_names();
            let body_string = from_chars(body);
            let mut j: usize = 0;
            while j < fields.len()
                invariant
                    j <= fields@.len(),
                    names == shape.field_names(),
                    names.len() == fields@.len(),
                    forall|k: int| 0 <= k < fields@.len() ==> names[k] == fields@[k].name@,
                    body_string@ == body@,
                    forall|k: int| 0 <= k < j ==> names[k] != body@,
                decreases fields.len() - j,
            {
                if str_eq(fields[j].name.as_str(), body_string.as_str()) {
                    proof {
                        lemma_name_index_found(names, body@, j as int);
                    }
                    return CKind::CNamed(j);
                }
                j = j + 1;
            }
            proof {
                lemma_name_index_none(names, body@);
            }
            CKind::CFree
        },
    }
}

// ---------------------------------------------------------------------
// Shape-aware compilation.
// ---------------------------------------------------------------------
/// Whether some placeholder references field `i`, by name or by index.
pub open spec fn field_referenced(ps: Seq<PieceSpec>, shape: FieldShape, i: int) -> bool
    decreases ps.len(),
{
    if ps.len() == 0 {
        false
    } else {
        field_referenced(ps.drop_last(), shape, i) || (match ps.last() {
            PieceSpec::Span(b) => classify_spec(shape, b) == SpanKind::KPos(i) || classify_spec(
                shape,
                b,
            ) == SpanKind::KNamed(i),
            PieceSpec::Lit(_) => false,
        })
    }
}

/// How many placeholders are free-form expressions.
pub open spec fn count_free(ps: Seq<PieceSpec>, shape: FieldShape) -> int
    decreases ps.len(),
{
    if ps.len() == 0 {
        0
    } else {
        count_free(ps.drop_last(), shape) + (match ps.last() {
            PieceSpec::Span(b) => if classify_spec(shape, b) is KFree {
                1int
            } else {
                0
            },
            PieceSpec::Lit(_) => 0,
        })
    }
}

/// The free-form placeholder bodies, in template order.
pub open spec fn free_bodies(ps: Seq<PieceSpec>, shape: FieldShape) -> Seq<Seq<char>>
    decreases ps.len(),
{
    if ps.len() == 0 {
        Seq::empty()
    } else {
        free_bodies(ps.drop_last(), shape) + (match ps.last() {
            PieceSpec::Span(b) => if classify_spec(shape, b) is KFree {
                seq![b]
            } else {
                Seq::empty()
            },
            PieceSpec::Lit(_) => Seq::empty(),
        })
    }
}

/// How many fields below `i` are referenced: the renumbered position of
/// field `i` among the referenced fields.
pub open spec fn count_refd_below(ps: Seq<PieceSpec>, shape: FieldShape, i: int) -> int
    decreases i,
{
    if i <= 0 {
        0
    } else {
        count_refd_below(ps, shape, i - 1) + if field_referenced(ps, shape, i - 1) {
            1int
        } else {
            0
        }
    }
}

/// How a positional field is accessed.
pub open spec fn pos_accessor(mode: AccessMode, i: int) -> Seq<char> {
    match mode {
        AccessMode::SelfAccess => "self."@ + dec_digits(i as nat),
        AccessMode::BoundVariables => "_"@ + dec_digits(i as nat),
    }
}

/// How a named field is accessed.
pub open spec fn named_accessor(mode: AccessMode, name: Seq<char>) -> Seq<char> {
    match mode {
        AccessMode::SelfAccess => "self."@ + name,
        AccessMode::BoundVariables => name,
    }
}

/// The arguments of a named or unit shape: one per placeholder, in
/// template order.
pub open spec fn mixed_args(ps: Seq<PieceSpec>, shape: FieldShape, mode: AccessMode) -> Seq<
    Seq<char>,
>
    decreases ps.len(),
{
    if ps.len() == 0 {
        Seq::empty()
    } else {
        mixed_args(ps.drop_last(), shape, mode) + (match ps.last() {
            PieceSpec::Span(b) => match classify_spec(shape, b) {
                SpanKind::KFree => seq![b],
                SpanKind::KNamed(j) => seq![named_accessor(mode, shape.field_names()[j])],
                SpanKind::KPos(_) => Seq::empty(),
            },
            PieceSpec::Lit(_) => Seq::empty(),
        })
    }
}

/// The accessors of the referenced fields below `i`, in ascending
/// field order.
pub open spec fn pos_field_args(
    ps: Seq<PieceSpec>,
    shape: FieldShape,
    mode: AccessMode,
    i: int,
) -> Seq<Seq<char>>
    decreases i,
{
    if i <= 0 {
        Seq::empty()
    } else {
        pos_field_args(ps, shape, mode, i - 1) + if field_referenced(ps, shape, i - 1) {
            seq![pos_accessor(mode, i - 1)]
        } else {
            Seq::empty()
        }
    }
}

/// The format piece a template piece compiles to.  A positional
/// placeholder becomes an explicit argument index: the free-form
/// arguments come first, then the referenced fields in ascending order.
pub open spec fn fmt_of_piece(ps: Seq<PieceSpec>, shape: FieldShape, p: PieceSpec) -> FmtPiece {
    match p {
        PieceSpec::Lit(c) => FmtPiece::Lit(c),
        PieceSpec::Span(b) => match classify_spec(shape, b) {
            SpanKind::KPos(i) => FmtPiece::Explicit(
                (count_free(ps, shape) + count_refd_below(ps, shape, i)) as usize,
            ),
            _ => FmtPiece::Implicit,
        },
    }
}

/// The format pieces of a whole template.
pub open spec fn fmt_spec(ps: Seq<PieceSpec>, shape: FieldShape) -> Seq<FmtPiece> {
    ps.map_values(|p: PieceSpec| fmt_of_piece(ps, shape, p))
}

/// The arguments of a whole template.
pub open spec fn args_spec(ps: Seq<PieceSpec>, shape: FieldShape, mode: AccessMode) -> Seq<
    Seq<char>,
> {
    match shape {
        FieldShape::Positional(_) => free_bodies(ps, shape) + pos_field_args(
            ps,
            shape,
            mode,
            shape.field_count() as int,
        ),
        _ => mixed_args(ps, shape, mode),
    }
}

/// How many of the first `i` entries are true.
pub open spec fn count_true(s: Seq<bool>, i: int) -> int
    decreases i,
{
    if i <= 0 {
        0
    } else {
        count_true(s, i - 1) + if s[i - 1] {
            1int
        } else {
            0
        }
    }
}

proof fn lemma_count_true_mono(s: Seq<bool>, i: int, j: int)
    requires
        i <= j,
    ensures
        count_true(s, i) <= count_true(s, j),
    decreases j - i,
{
    if i < j {
        lemma_count_true_mono(s, i, j - 1);
    }
}

proof fn lemma_count_true_update(s: Seq<bool>, i: int, n: int)
    requires
        0 <= i < n <= s.len(),
        !s[i],
    ensures
        count_true(s.update(i, true), n) == count_true(s, n) + 1,
    decreases n,
{
    if n - 1 == i {
        lemma_count_true_frame(s, s.update(i, true), n - 1);
    } else {
        lemma_count_true_update(s, i, n - 1);
    }
}

proof fn lemma_count_true_zero(s: Seq<bool>, n: int)
    requires
        forall|k: int| 0 <= k < n ==> !s[k],
    ensures
        count_true(s, n) == 0,
    decreases n,
{
    if n > 0 {
        lemma_count_true_zero(s, n - 1);
    }
}

proof fn lemma_count_true_frame(s1: Seq<bool>, s2: Seq<bool>, n: int)
    requires
        forall|k: int| 0 <= k < n ==> s1[k] == s2[k],
    ensures
        count_true(s1, n) == count_true(s2, n),
    decreases n,
{
    if n > 0 {
        lemma_count_true_frame(s1, s2, n - 1);
    }
}

proof fn lemma_count_eq(refs: Seq<bool>, ps: Seq<PieceSpec>, shape: FieldShape, i: int)
    requires
        forall|k: int| 0 <= k < i ==> refs[k] == field_referenced(ps, shape, k),
    ensures
        count_true(refs, i) == count_refd_below(ps, shape, i),
    decreases i,
{
    if i > 0 {
        lemma_count_eq(refs, ps, shape, i - 1);
    }
}

proof fn lemma_name_index_range(names: Seq<Seq<char>>, b: Seq<char>)
    ensures
        match name_index(names, b) {
            Some(j) => 0 <= j < names.len(),
            None => true,
        },
    decreases names.len(),
{
    if names.len() > 0 && names[0] != b {
        lemma_name_index_range(names.drop_first(), b);
    }
}

/// A compiled template: the call, which fields it references, and
/// whether any placeholder is free-form.
pub struct CompiledTemplate {
    pub call: FormattedCall,
    pub referenced: Vec<bool>,
    pub has_free: bool,
}

fn pos_accessor_exec(mode: AccessMode, i: usize) -> (r: String)
    ensures
        r@ == pos_accessor(mode, i as int),
{
    let digits = from_chars(&dec_chars(i));
    match mode {
        AccessMode::SelfAccess => {
            let mut r = String::from_str("self.");
            r.append(digits.as_str());
            r
        },
        AccessMode::BoundVariables => {
            let mut r = String::from_str("_");
            r.append(digits.as_str());
            r
        },
    }
}

fn named_field_accessor(shape: &FieldShape, j: usize, mode: AccessMode) -> (r: String)
    requires
        shape is Named,
        j < shape.field_count(),
    ensures
        r@ == named_accessor(mode, shape.field_names()[j as int]),
{
    match shape {
        FieldShape::Named(fields) => {
            match mode {
                AccessMode::SelfAccess => {
                    let mut r = String::from_str("self.");
                    r.append(fields[j].name.as_str());
                    r
                },
                AccessMode::BoundVariables => fields[j].name.clone(),
            }
        },
        _ => String::new(),
    }
}

/// Compile a message template over a field shape: resolve each
/// placeholder, renumber the referenced positional fields, and build
/// the argument list.  Unbalanced braces are an error.
pub fn compile_template(template: &str, shape: &FieldShape, mode: AccessMode) -> (r: Result<
    CompiledTemplate,
    DisplayImplementationError,
>)
    ensures
        match r {
            Ok(ct) => {
                &&& template_balanced(template@)
                &&& ct.call.pieces@ == fmt_spec(template_pieces(template@), *shape)
                &&& ct.call.args_view() == args_spec(template_pieces(template@), *shape, mode)
                &&& ct.referenced@.len() == shape.field_count()
                &&& (forall|i: int|
                    0 <= i < shape.field_count() ==> ct.referenced@[i] == field_referenced(
                        template_pieces(template@),
                        *shape,
                        i,
                    ))
                &&& ct.has_free == (count_free(template_pieces(template@), *shape) > 0)
            },
            Err(e) => !template_balanced(template@) && (e
                matches DisplayImplementationError::UnbalancedTemplate(t) && t@ == template@),
        },
{
    let chars = to_chars(template);
    let pieces = match crate::impl_display::write::WriteImplementor::new().scan(&chars) {
        Some(ps) => ps,
        None => {
            return Err(DisplayImplementationError::UnbalancedTemplate(String::from_str(template)));
        },
    };
    let ghost full = template_pieces(template@);
    proof {
        assert(pieces_view(pieces@) == full);
    }
    let count = shape.num_fields();
    // Which fields the placeholders reference, and how many placeholders
    // are free-form.
    let mut referenced: Vec<bool> = Vec::new();
    let mut z: usize = 0;
    while z < count
        invariant
            z <= count,
            referenced@.len() == z,
            forall|i: int| 0 <= i < z ==> referenced@[i] == false,
        decreases count - z,
    {
        referenced.push(false);
        z = z + 1;
    }
    let mut nfree: usize = 0;
    let mut truecount: usize = 0;
    let mut k: usize = 0;
    proof {
        assert forall|i: int| 0 <= i < count implies referenced@[i] == field_referenced(
            pieces_view(pieces@.subrange(0, 0)),
            *shape,
            i,
        ) by {
            assert(pieces@.subrange(0, 0) =~= Seq::<Piece>::empty());
            assert(pieces_view(pieces@.subrange(0, 0)) =~= Seq::<PieceSpec>::empty());
        }
        lemma_count_true_zero(referenced@, count as int);
        assert(pieces_view(pieces@.subrange(0, 0)) =~= Seq::<PieceSpec>::empty());
        assert(count_free(pieces_view(pieces@.subrange(0, 0)), *shape) == 0);
    }
    while k < pieces.len()
        invariant
            k <= pieces@.len(),
            pieces_view(pieces@) == full,
            referenced@.len() == count,
            count == shape.field_count(),
            forall|i: int|
                0 <= i < count ==> referenced@[i] == field_referenced(
                    pieces_view(pieces@.subrange(0, k as int)),
                    *shape,
                    i,
                ),
            nfree == count_free(pieces_view(pieces@.subrange(0, k as int)), *shape),
            truecount == count_true(referenced@, count as int),
            nfree + truecount <= k,
        decreases pieces.len() - k,
    {
        let ghost prev = pieces_view(pieces@.subrange(0, k as int));
        let ghost cur = pieces_view(pieces@.subrange(0, (k + 1) as int));
        proof {
            let t = pieces@.subrange(0, (k + 1) as int);
            assert(t.drop_last() =~= pieces@.subrange(0, k as int));
            assert(t.last() == pieces@[k as int]);
            assert(cur.drop_last() =~= prev);
            assert(cur.last() == piece_view(pieces@[k as int]));
        }
        match &pieces[k] {
            Piece::Lit(_) => {
                proof {
                    assert(count_free(cur, *shape) == count_free(prev, *shape));
                    assert(forall|i: int|
                        0 <= i < count ==> field_referenced(cur, *shape, i) == field_referenced(
                            prev,
                            *shape,
                            i,
                        ));
                }
            },
            Piece::Span(b) => {
                match classify(b, shape) {
                    CKind::CFree => {
                        nfree = nfree + 1;
                        proof {
                            assert(forall|i: int|
                                0 <= i < count ==> field_referenced(cur, *shape, i)
                                    == field_referenced(prev, *shape, i));
                        }
                    },
                    CKind::CPos(i) => {
                        proof {
                            assert(classify_spec(*shape, b@) == SpanKind::KPos(i as int));
                            assert(i < count);
                        }
                        if !referenced[i] {
                            let ghost oldrefs = referenced@;
                            referenced.set(i, true);
                            truecount = truecount + 1;
                            proof {
                                assert(referenced@ =~= oldrefs.update(i as int, true));
                                lemma_count_true_update(oldrefs, i as int, count as int);
                            }
                        }
                        proof {
                            assert(forall|i2: int|
                                0 <= i2 < count && i2 != i ==> field_referenced(cur, *shape, i2)
                                    == field_referenced(prev, *shape, i2));
                            assert(field_referenced(cur, *shape, i as int));
                        }
                    },
                    CKind::CNamed(j) => {
                        proof {
                            assert(classify_spec(*shape, b@) == SpanKind::KNamed(j as int));
                            lemma_name_index_range(shape.field_names(), b@);
                            assert(j < count);
                        }
                        if !referenced[j] {
                            let ghost oldrefs = referenced@;
                            referenced.set(j, true);
                            truecount = truecount + 1;
                            proof {
                                assert(referenced@ =~= oldrefs.update(j as int, true));
                                lemma_count_true_update(oldrefs, j as int, count as int);
                            }
                        }
                        proof {
                            assert(forall|i2: int|
                                0 <= i2 < count && i2 != j ==> field_referenced(cur, *shape, i2)
                                    == field_referenced(prev, *shape, i2));
                            assert(field_referenced(cur, *shape, j as int));
                        }
                    },
                }
            },
        }
        k = k + 1;
    }
    proof {
        assert(pieces@.subrange(0, pieces@.len() as int) =~= pieces@);
        lemma_count_eq(referenced@, full, *shape, count as int);
    }
    // The renumbered position of each field among the referenced ones.
    let mut ranks: Vec<usize> = Vec::new();
    let mut run: usize = 0;
    let mut i: usize = 0;
    while i < count
        invariant
            i <= count,
            count == shape.field_count(),
            referenced@.len() == count,
            pieces_view(pieces@) == full,
            forall|i2: int|
                0 <= i2 < count ==> referenced@[i2] == field_referenced(full, *shape, i2),
            truecount == count_true(referenced@, count as int),
            ranks@.len() == i,
            run == count_true(referenced@, i as int),
            forall|i2: int| 0 <= i2 < i ==> ranks@[i2] == count_true(referenced@, i2),
            run <= truecount,
        decreases count - i,
    {
        ranks.push(run);
        if referenced[i] {
            proof {
                lemma_count_true_mono(referenced@, (i + 1) as int, count as int);
            }
            run = run + 1;
        }
        i = i + 1;
    }
    // Build the format pieces and the argument list.
    let positional = match shape {
        FieldShape::Positional(_) => true,
        _ => false,
    };
    let mut fmt: Vec<FmtPiece> = Vec::new();
    let mut args: Vec<String> = Vec::new();
    let mut k2: usize = 0;
    while k2 < pieces.len()
        invariant
            k2 <= pieces@.len(),
            pieces_view(pieces@) == full,
            count == shape.field_count(),
            referenced@.len() == count,
            ranks@.len() == count,
            truecount == count_true(referenced@, count as int),
            nfree == count_free(full, *shape),
            nfree + truecount <= pieces@.len(),
            forall|i2: int|
                0 <= i2 < count ==> referenced@[i2] == field_referenced(full, *shape, i2),
            forall|i2: int| 0 <= i2 < count ==> ranks@[i2] == count_true(referenced@, i2),
            positional == (*shape is Positional),
            fmt@.len() == k2,
            forall|j: int| 0 <= j < k2 ==> fmt@[j] == fmt_of_piece(full, *shape, full[j]),
            positional ==> strings_view(args@) == free_bodies(
                pieces_view(pieces@.subrange(0, k2 as int)),
                *shape,
            ),
            !positional ==> strings_view(args@) == mixed_args(
                pieces_view(pieces@.subrange(0, k2 as int)),
                *shape,
                mode,
            ),
        decreases pieces.len() - k2,
    {
        let ghost prev = pieces_view(pieces@.subrange(0, k2 as int));
        let ghost cur = pieces_view(pieces@.subrange(0, (k2 + 1) as int));
        proof {
            let t = pieces@.subrange(0, (k2 + 1) as int);
            assert(t.drop_last() =~= pieces@.subrange(0, k2 as int));
            assert(t.last() == pieces@[k2 as int]);
            assert(cur.drop_last() =~= prev);
            assert(cur.last() == piece_view(pieces@[k2 as int]));
            assert(full[k2 as int] == piece_view(pieces@[k2 as int]));
        }
        match &pieces[k2] {
            Piece::Lit(c) => {
                fmt.push(FmtPiece::Lit(*c));
            },
            Piece::Span(b) => {
                match classify(b, shape) {
                    CKind::CFree => {
                        fmt.push(FmtPiece::Implicit);
                        args.push(from_chars(b));
                        proof {
                            if positional {
                                assert(strings_view(args@) =~= free_bodies(
                                    cur,
                                    *shape,
                                ));
                            } else {
                                assert(strings_view(args@) =~= mixed_args(
                                    cur,
                                    *shape,
                                    mode,
                                ));
                            }
                        }
                    },
                    CKind::CPos(fi) => {
                        proof {
                            assert(classify_spec(*shape, b@) == SpanKind::KPos(fi as int));
                            assert(fi < count);
                            lemma_count_true_mono(referenced@, fi as int, count as int);
                            lemma_count_eq(referenced@, full, *shape, fi as int);
                        }
                        let idx = nfree + ranks[fi];
                        fmt.push(FmtPiece::Explicit(idx));
                    },
                    CKind::CNamed(fj) => {
                        proof {
                            assert(classify_spec(*shape, b@) == SpanKind::KNamed(fj as int));
                            lemma_name_index_range(shape.field_names(), b@);
                            assert(fj < count);
                        }
                        fmt.push(FmtPiece::Implicit);
                        args.push(named_field_accessor(shape, fj, mode));
                        proof {
                            assert(strings_view(args@) =~= mixed_args(
                                cur,
                                *shape,
                                mode,
                            ));
                        }
                    },
                }
            },
        }
        k2 = k2 + 1;
    }
    proof {
        assert(pieces@.subrange(0, pieces@.len() as int) =~= pieces@);
        assert(fmt@ =~= fmt_spec(full, *shape));
    }
    if positional {
        let mut i2: usize = 0;
        while i2 < count
            invariant
                i2 <= count,
                count == shape.field_count(),
                referenced@.len() == count,
                pieces_view(pieces@) == full,
                forall|i3: int|
                    0 <= i3 < count ==> referenced@[i3] == field_referenced(full, *shape, i3),
                strings_view(args@) == free_bodies(full, *shape) + pos_field_args(
                    full,
                    *shape,
                    mode,
                    i2 as int,
                ),
            decreases count - i2,
        {
            let ghost before = strings_view(args@);
            if referenced[i2] {
                args.push(pos_accessor_exec(mode, i2));
                proof {
                    assert(strings_view(args@) =~= before.push(pos_accessor(mode, i2 as int)));
                }
            }
            i2 = i2 + 1;
            proof {
                let pfa = pos_field_args(full, *shape, mode, i2 as int);
                let pfb = pos_field_args(full, *shape, mode, i2 - 1);
                if field_referenced(full, *shape, i2 - 1) {
                    assert(pfa == pfb + seq![pos_accessor(mode, i2 - 1)]);
                    assert(strings_view(args@) =~= before.push(pos_accessor(mode, i2 - 1)));
                    assert(free_bodies(full, *shape) + pfa =~= (free_bodies(full, *shape)
                        + pfb).push(pos_accessor(mode, i2 - 1)));
                    assert(strings_view(args@) =~= free_bodies(full, *shape) + pfa);
                } else {
                    assert(pfa =~= pfb);
                    assert(strings_view(args@) =~= free_bodies(full, *shape) + pfa);
                }
            }
        }
    }
    proof {
        if *shape is Positional {
            assert(strings_view(args@) == args_spec(full, *shape, mode));
        } else {
            assert(strings_view(args@) == args_spec(full, *shape, mode));
        }
    }
    Ok(
        CompiledTemplate {
            call: FormattedCall { pieces: fmt, args },
            referenced,
            has_free: nfree > 0,
        },
    )
}

// ---------------------------------------------------------------------
// Interpolation: what the rendered call prints.
// ---------------------------------------------------------------------
/// What a format-piece sequence prints for given argument values, with
/// `k` the position of the next implicit `{}` hole in the arguments.
/// An argument reference out of range prints nothing.
pub open spec fn interp_from(ps: Seq<FmtPiece>, vals: Seq<Seq<char>>, k: int) -> Seq<char>
    decreases ps.len(),
{
    if ps.len() == 0 {
        Seq::empty()
    } else {
        match ps[0] {
            FmtPiece::Lit(c) => seq![c] + interp_from(ps.drop_first(), vals, k),
            FmtPiece::Implicit => (if 0 <= k < vals.len() {
                vals[k]
            } else {
                Seq::empty()
            }) + interp_from(ps.drop_first(), vals, k + 1),
            FmtPiece::Explicit(j) => (if (j as int) < vals.len() {
                vals[j as int]
            } else {
                Seq::empty()
            }) + interp_from(ps.drop_first(), vals, k),
        }
    }
}

/// What a format-piece sequence prints for given argument values.
pub open spec fn interp(ps: Seq<FmtPiece>, vals: Seq<Seq<char>>) -> Seq<char> {
    interp_from(ps, vals, 0)
}

/// Print a compiled call with concrete argument values: each `{}` hole
/// takes the next value, each `{index}` reference the value at that
/// index.
pub fn interpolate(call: &FormattedCall, vals: &Vec<String>) -> (r: String)
    ensures
        r@ == interp(call.pieces@, strings_view(vals@)),
{
    let ghost vv = strings_view(vals@);
    let mut out: Vec<char> = Vec::new();
    let mut c: usize = 0;
    let mut k: usize = 0;
    proof {
        assert(call.pieces@.skip(0) =~= call.pieces@);
        assert(Seq::<char>::empty() + interp_from(call.pieces@, vv, 0) =~= interp_from(
            call.pieces@,
            vv,
            0,
        ));
    }
    while k < call.pieces.len()
        invariant
            k <= call.pieces@.len(),
            c <= k,
            vv == strings_view(vals@),
            interp(call.pieces@, vv) == out@ + interp_from(
                call.pieces@.skip(k as int),
                vv,
                c as int,
            ),
        decreases call.pieces.len() - k,
    {
        let ghost out0 = out@;
        let ghost c0 = c as int;
        let ghost k0 = k as int;
        let ghost rest = call.pieces@.skip(k0);
        proof {
            assert(rest[0] == call.pieces@[k0]);
            assert(rest.drop_first() =~= call.pieces@.skip(k0 + 1));
        }
        match call.pieces[k] {
            FmtPiece::Lit(ch) => {
                out.push(ch);
                proof {
                    assert(out@ =~= out0 + seq![ch]);
                    assert(interp_from(rest, vv, c0) == seq![ch] + interp_from(
                        call.pieces@.skip(k0 + 1),
                        vv,
                        c0,
                    ));
                    assert(out@ + interp_from(call.pieces@.skip(k0 + 1), vv, c0) =~= out0
                        + interp_from(rest, vv, c0));
                }
            },
            FmtPiece::Implicit => {
                if c < vals.len() {
                    append_value(&mut out, &vals[c]);
                    proof {
                        assert(out@ == out0 + vv[c0]);
                    }
                } else {
                    proof {
                        assert(out@ =~= out0 + Seq::<char>::empty());
                    }
                }
                c = c + 1;
                proof {
                    let piece_text = if 0 <= c0 < vv.len() {
                        vv[c0]
                    } else {
                        Seq::<char>::empty()
                    };
                    assert(out@ == out0 + piece_text);
                    assert(interp_from(rest, vv, c0) == piece_text + interp_from(
                        call.pieces@.skip(k0 + 1),
                        vv,
                        c0 + 1,
                    ));
                    assert(out@ + interp_from(call.pieces@.skip(k0 + 1), vv, c0 + 1) =~= out0
                        + interp_from(rest, vv, c0));
                }
            },
            FmtPiece::Explicit(j0) => {
                if j0 < vals.len() {
                    append_value(&mut out, &vals[j0]);
                    proof {
                        assert(out@ == out0 + vv[j0 as int]);
                    }
                } else {
                    proof {
                        assert(out@ =~= out0 + Seq::<char>::empty());
                    }
                }
                proof {
                    let piece_text = if (j0 as int) < vv.len() {
                        vv[j0 as int]
                    } else {
                        Seq::<char>::empty()
                    };
                    assert(out@ == out0 + piece_text);
                    assert(interp_from(rest, vv, c0) == piece_text + interp_from(
                        call.pieces@.skip(k0 + 1),
                        vv,
                        c0,
                    ));
                    assert(out@ + interp_from(call.pieces@.skip(k0 + 1), vv, c0) =~= out0
                        + interp_from(rest, vv, c0));
                }
            },
        }
        k = k + 1;
    }
    proof {
        assert(call.pieces@.skip(call.pieces@.len() as int) =~= Seq::<FmtPiece>::empty());
        assert(out@ + interp_from(Seq::<FmtPiece>::empty(), vv, c as int) =~= out@);
    }
    from_chars(&out)
}

/// Append the characters of a string to a character vector.
fn append_value(out: &mut Vec<char>, v: &String)
    ensures
        final(out)@ == old(out)@ + v@,
{
    let chs = to_chars(v.as_str());
    let ghost obase = old(out)@;
    let mut j: usize = 0;
    while j < chs.len()
        invariant
            j <= chs@.len(),
            chs@ == v@,
            out@ == obase + chs@.subrange(0, j as int),
        decreases chs.len() - j,
    {
        out.push(chs[j]);
        j = j + 1;
        proof {
            assert(out@ =~= obase + chs@.subrange(0, j as int));
        }
    }
    proof {
        assert(chs@.subrange(0, chs@.len() as int) =~= chs@);
        assert(out@ =~= obase + v@);
    }
}

// ---------------------------------------------------------------------
// The placeholder round-trip laws.
// ---------------------------------------------------------------------
/// The values of the referenced fields below `i`, in ascending field
/// order: the runtime values of the accessors in `pos_field_args`.
pub open spec fn pos_field_vals(
    ps: Seq<PieceSpec>,
    shape: FieldShape,
    vals: Seq<Seq<char>>,
    i: int,
) -> Seq<Seq<char>>
    decreases i,
{
    if i <= 0 {
        Seq::empty()
    } else {
        pos_field_vals(ps, shape, vals, i - 1) + if field_referenced(ps, shape, i - 1) {
            seq![vals[i - 1]]
        } else {
            Seq::empty()
        }
    }
}

/// The interpolation a hand-written implementation would produce:
/// each field placeholder replaced by the value of its field, in
/// place.
pub open spec fn direct_subst(ps: Seq<PieceSpec>, shape: FieldShape, vals: Seq<Seq<char>>) -> Seq<
    char,
>
    decreases ps.len(),
{
    if ps.len() == 0 {
        Seq::empty()
    } else {
        (match ps[0] {
            PieceSpec::Lit(c) => seq![c],
            PieceSpec::Span(b) => match classify_spec(shape, b) {
                SpanKind::KPos(i) => if 0 <= i < vals.len() {
                    vals[i]
                } else {
                    Seq::empty()
                },
                SpanKind::KNamed(j) => if 0 <= j < vals.len() {
                    vals[j]
                } else {
                    Seq::empty()
                },
                SpanKind::KFree => Seq::empty(),
            },
        }) + direct_subst(ps.drop_first(), shape, vals)
    }
}

/// Every placeholder a field index: the template references fields
/// only.
pub open spec fn all_positional(ps: Seq<PieceSpec>, shape: FieldShape) -> bool {
    forall|k: int|
        0 <= k < ps.len() ==> match #[trigger] ps[k] {
            PieceSpec::Span(b) => classify_spec(shape, b) is KPos,
            PieceSpec::Lit(_) => true,
        }
}

proof fn lemma_all_pos_no_free(ps: Seq<PieceSpec>, shape: FieldShape)
    requires
        all_positional(ps, shape),
    ensures
        count_free(ps, shape) == 0,
    decreases ps.len(),
{
    if ps.len() > 0 {
        let d = ps.drop_last();
        assert(forall|k: int| 0 <= k < d.len() ==> d[k] == ps[k]);
        lemma_all_pos_no_free(d, shape);
    }
}

proof fn lemma_crb_mono(ps: Seq<PieceSpec>, shape: FieldShape, i: int, j: int)
    requires
        i <= j,
    ensures
        count_refd_below(ps, shape, i) <= count_refd_below(ps, shape, j),
    decreases j - i,
{
    if i < j {
        lemma_crb_mono(ps, shape, i, j - 1);
    }
}

proof fn lemma_crb_nonneg(ps: Seq<PieceSpec>, shape: FieldShape, i: int)
    ensures
        count_refd_below(ps, shape, i) >= 0,
        count_refd_below(ps, shape, i) <= (if i >= 0 { i } else { 0 }),
    decreases i,
{
    if i > 0 {
        lemma_crb_nonneg(ps, shape, i - 1);
    }
}

proof fn lemma_pfv_len(ps: Seq<PieceSpec>, shape: FieldShape, vals: Seq<Seq<char>>, m: int)
    ensures
        pos_field_vals(ps, shape, vals, m).len() == count_refd_below(ps, shape, m),
    decreases m,
{
    if m > 0 {
        lemma_pfv_len(ps, shape, vals, m - 1);
    }
}

proof fn lemma_pfv_index(ps: Seq<PieceSpec>, shape: FieldShape, vals: Seq<Seq<char>>, i: int, n: int)
    requires
        0 <= i < n,
        field_referenced(ps, shape, i),
    ensures
        count_refd_below(ps, shape, i) < pos_field_vals(ps, shape, vals, n).len(),
        pos_field_vals(ps, shape, vals, n)[count_refd_below(ps, shape, i)] == vals[i],
    decreases n,
{
    lemma_crb_nonneg(ps, shape, i);
    lemma_pfv_len(ps, shape, vals, n);
    if n - 1 == i {
        lemma_pfv_len(ps, shape, vals, i);
    } else {
        lemma_pfv_index(ps, shape, vals, i, n - 1);
        lemma_pfv_len(ps, shape, vals, n - 1);
    }
}

proof fn lemma_span_refd(ps: Seq<PieceSpec>, shape: FieldShape, k: int, i: int)
    requires
        0 <= k < ps.len(),
        ps[k] matches PieceSpec::Span(b) && (classify_spec(shape, b) == SpanKind::KPos(i)
            || classify_spec(shape, b) == SpanKind::KNamed(i)),
    ensures
        field_referenced(ps, shape, i),
    decreases ps.len(),
{
    if k == ps.len() - 1 {
    } else {
        let d = ps.drop_last();
        assert(d[k] == ps[k]);
        lemma_span_refd(d, shape, k, i);
    }
}

proof fn lemma_rt_pos_aux(
    full: Seq<PieceSpec>,
    shape: FieldShape,
    vals: Seq<Seq<char>>,
    k: int,
    c: int,
)
    requires
        shape is Positional,
        vals.len() == shape.field_count(),
        shape.field_count() <= usize::MAX,
        all_positional(full, shape),
        0 <= k <= full.len(),
    ensures
        interp_from(
            fmt_spec(full, shape).skip(k),
            pos_field_vals(full, shape, vals, shape.field_count() as int),
            c,
        ) == direct_subst(full.skip(k), shape, vals),
    decreases full.len() - k,
{
    let fmt_seq = fmt_spec(full, shape);
    let pfv = pos_field_vals(full, shape, vals, shape.field_count() as int);
    lemma_all_pos_no_free(full, shape);
    if k == full.len() {
        assert(fmt_seq.skip(k) =~= Seq::<FmtPiece>::empty());
        assert(full.skip(k) =~= Seq::<PieceSpec>::empty());
    } else {
        lemma_rt_pos_aux(full, shape, vals, k + 1, c);
        assert(fmt_seq.skip(k)[0] == fmt_seq[k]);
        assert(fmt_seq.skip(k).drop_first() =~= fmt_seq.skip(k + 1));
        assert(full.skip(k)[0] == full[k]);
        assert(full.skip(k).drop_first() =~= full.skip(k + 1));
        assert(fmt_seq[k] == fmt_of_piece(full, shape, full[k]));
        match full[k] {
            PieceSpec::Lit(_) => {},
            PieceSpec::Span(b) => {
                assert(classify_spec(shape, b) is KPos);
                let i = classify_spec(shape, b)->KPos_0;
                assert(is_canonical_index(b) && dec_val(b) < shape.field_count());
                lemma_dec_val_nonneg(b);
                assert(0 <= i < vals.len());
                lemma_span_refd(full, shape, k, i);
                lemma_crb_nonneg(full, shape, i);
                lemma_crb_mono(full, shape, i, shape.field_count() as int);
                let idx = count_refd_below(full, shape, i);
                assert(fmt_seq[k] == FmtPiece::Explicit((0 + idx) as usize));
                assert(0 <= idx <= i < usize::MAX);
                assert(((idx as usize) as int) == idx);
                lemma_pfv_index(full, shape, vals, i, shape.field_count() as int);
                assert(pfv[idx] == vals[i]);
                lemma_pfv_len(full, shape, vals, shape.field_count() as int);
            },
        }
    }
}

/// The placeholder round-trip law over a positional shape: for a
/// message template whose placeholders are all valid field indices,
/// compiling the template, rendering the call and filling in the
/// argument values — the values of the referenced fields, in the
/// ascending order the argument list carries them — prints exactly the
/// interpolation a hand-written implementation would produce, with each
/// placeholder replaced in place by the value of its field.
pub proof fn lemma_placeholder_round_trip(
    full: Seq<PieceSpec>,
    shape: FieldShape,
    vals: Seq<Seq<char>>,
)
    requires
        shape is Positional,
        vals.len() == shape.field_count(),
        shape.field_count() <= usize::MAX,
        all_positional(full, shape),
    ensures
        interp(
            fmt_spec(full, shape),
            pos_field_vals(full, shape, vals, shape.field_count() as int),
        ) == direct_subst(full, shape, vals),
{
    lemma_rt_pos_aux(full, shape, vals, 0, 0);
    assert(fmt_spec(full, shape).skip(0) =~= fmt_spec(full, shape));
    assert(full.skip(0) =~= full);
}

/// The unused-field law: the template `"{2} {0}"` over a three-field
/// positional shape prints the value of field two, a space, then the
/// value of field zero — each reference once, in template order, the
/// unreferenced field dropped without renumbering artifacts.
pub proof fn lemma_unused_field_dropping(shape: FieldShape, vals: Seq<Seq<char>>)
    requires
        shape is Positional,
        shape.field_count() == 3,
        vals.len() == 3,
    ensures
        ({
            let ps = seq![
                PieceSpec::Span(seq!['2']),
                PieceSpec::Lit(' '),
                PieceSpec::Span(seq!['0']),
            ];
            interp(fmt_spec(ps, shape), pos_field_vals(ps, shape, vals, 3)) == vals[2]
                + seq![' '] + vals[0]
        }),
{
    let ps = seq![PieceSpec::Span(seq!['2']), PieceSpec::Lit(' '), PieceSpec::Span(seq!['0'])];
    let b2 = seq!['2'];
    let b0 = seq!['0'];
    assert(b2.drop_last() =~= Seq::<char>::empty());
    assert(b0.drop_last() =~= Seq::<char>::empty());
    assert(dec_val(Seq::<char>::empty()) == 0);
    assert(b2.last() == '2');
    assert(b0.last() == '0');
    assert(dec_val(b2) == 2);
    assert(dec_val(b0) == 0);
    assert(is_canonical_index(b2));
    assert(is_canonical_index(b0));
    assert(classify_spec(shape, b2) == SpanKind::KPos(2));
    assert(classify_spec(shape, b0) == SpanKind::KPos(0));
    assert(all_positional(ps, shape)) by {
        assert forall|k: int| 0 <= k < ps.len() implies match #[trigger] ps[k] {
            PieceSpec::Span(b) => classify_spec(shape, b) is KPos,
            PieceSpec::Lit(_) => true,
        } by {
            if k == 0 {
                assert(ps[0] == PieceSpec::Span(b2));
            } else if k == 2 {
                assert(ps[2] == PieceSpec::Span(b0));
            }
        }
    }
    lemma_placeholder_round_trip(ps, shape, vals);
    let ps1 = seq![PieceSpec::Lit(' '), PieceSpec::Span(b0)];
    let ps2 = seq![PieceSpec::Span(b0)];
    assert(ps.drop_first() =~= ps1);
    assert(ps1.drop_first() =~= ps2);
    assert(ps2.drop_first() =~= Seq::<PieceSpec>::empty());
    assert(direct_subst(Seq::<PieceSpec>::empty(), shape, vals) =~= Seq::<char>::empty());
    assert(ps2[0] == PieceSpec::Span(b0));
    assert(direct_subst(ps2, shape, vals) =~= vals[0]);
    assert(ps1[0] == PieceSpec::Lit(' '));
    assert(direct_subst(ps1, shape, vals) =~= seq![' '] + vals[0]);
    assert(ps[0] == PieceSpec::Span(b2));
    assert(direct_subst(ps, shape, vals) =~= vals[2] + seq![' '] + vals[0]);
}

/// The values the arguments of a named-shape call take: one per
/// placeholder, in template order, each the value of its field.
pub open spec fn named_vals(ps: Seq<PieceSpec>, shape: FieldShape, vals: Seq<Seq<char>>) -> Seq<
    Seq<char>,
>
    decreases ps.len(),
{
    if ps.len() == 0 {
        Seq::empty()
    } else {
        (match ps[0] {
            PieceSpec::Span(b) => match classify_spec(shape, b) {
                SpanKind::KNamed(j) => seq![vals[j]],
                _ => Seq::empty(),
            },
            PieceSpec::Lit(_) => Seq::empty(),
        }) + named_vals(ps.drop_first(), shape, vals)
    }
}

/// Every placeholder a field name: the template references fields
/// only.
pub open spec fn all_named(ps: Seq<PieceSpec>, shape: FieldShape) -> bool {
    forall|k: int|
        0 <= k < ps.len() ==> match #[trigger] ps[k] {
            PieceSpec::Span(b) => classify_spec(shape, b) is KNamed,
            PieceSpec::Lit(_) => true,
        }
}

proof fn lemma_rt_named_aux(
    full: Seq<PieceSpec>,
    shape: FieldShape,
    vals: Seq<Seq<char>>,
    argvals: Seq<Seq<char>>,
    k: int,
    c: int,
)
    requires
        shape is Named,
        vals.len() == shape.field_count(),
        all_named(full, shape),
        0 <= k <= full.len(),
        0 <= c <= argvals.len(),
        argvals.skip(c) == named_vals(full.skip(k), shape, vals),
    ensures
        interp_from(fmt_spec(full, shape).skip(k), argvals, c) == direct_subst(
            full.skip(k),
            shape,
            vals,
        ),
    decreases full.len() - k,
{
    let fmt_seq = fmt_spec(full, shape);
    if k == full.len() {
        assert(fmt_seq.skip(k) =~= Seq::<FmtPiece>::empty());
        assert(full.skip(k) =~= Seq::<PieceSpec>::empty());
    } else {
        assert(fmt_seq.skip(k)[0] == fmt_seq[k]);
        assert(fmt_seq.skip(k).drop_first() =~= fmt_seq.skip(k + 1));
        assert(full.skip(k)[0] == full[k]);
        assert(full.skip(k).drop_first() =~= full.skip(k + 1));
        assert(fmt_seq[k] == fmt_of_piece(full, shape, full[k]));
        match full[k] {
            PieceSpec::Lit(_) => {
                assert(argvals.skip(c) == named_vals(full.skip(k + 1), shape, vals)) by {
                    assert(named_vals(full.skip(k), shape, vals) =~= named_vals(
                        full.skip(k + 1),
                        shape,
                        vals,
                    ));
                }
                lemma_rt_named_aux(full, shape, vals, argvals, k + 1, c);
            },
            PieceSpec::Span(b) => {
                assert(classify_spec(shape, b) is KNamed);
                let j = classify_spec(shape, b)->KNamed_0;
                lemma_name_index_range(shape.field_names(), b);
                assert(shape.field_names().len() == shape.field_count());
                assert(0 <= j < vals.len());
                assert(fmt_seq[k] == FmtPiece::Implicit);
                assert(named_vals(full.skip(k), shape, vals) == seq![vals[j]] + named_vals(
                    full.skip(k + 1),
                    shape,
                    vals,
                ));
                assert(argvals.skip(c).len() >= 1);
                assert(c < argvals.len());
                assert(argvals[c] == argvals.skip(c)[0]);
                assert(argvals[c] == vals[j]);
                assert(argvals.skip(c + 1) =~= argvals.skip(c).drop_first());
                assert(argvals.skip(c + 1) =~= named_vals(full.skip(k + 1), shape, vals));
                lemma_rt_named_aux(full, shape, vals, argvals, k + 1, c + 1);
            },
        }
    }
}

/// The placeholder round-trip law over a named shape: for a message
/// template whose placeholders are all field names, compiling the
/// template, rendering the call and filling in the argument values —
/// the values of the named fields, one per placeholder in template
/// order — prints exactly the interpolation a hand-written
/// implementation would produce.
pub proof fn lemma_placeholder_round_trip_named(
    full: Seq<PieceSpec>,
    shape: FieldShape,
    vals: Seq<Seq<char>>,
)
    requires
        shape is Named,
        vals.len() == shape.field_count(),
        all_named(full, shape),
    ensures
        interp(fmt_spec(full, shape), named_vals(full, shape, vals)) == direct_subst(
            full,
            shape,
            vals,
        ),
{
    let argvals = named_vals(full, shape, vals);
    assert(full.skip(0) =~= full);
    assert(argvals.skip(0) =~= argvals);
    lemma_rt_named_aux(full, shape, vals, argvals, 0, 0);
    assert(fmt_spec(full, shape).skip(0) =~= fmt_spec(full, shape));
}

} // verus!
