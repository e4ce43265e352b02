//! The parameter model: a flat list of `name = literal` / bare-`name`
//! pairs, parsed from the raw text of a list-like attribute into a typed
//! name-to-value mapping with string and boolean values.
//!
//! The grammar accepted for the argument text is
//!
//! ```text
//! args   := ws* [ param (ws* ',' ws* param)* ws* [',' ws*] ]
//! param  := ident [ ws* '=' ws* value ]
//! value  := '"' any-char-but-quote* '"' | 'true' | 'false'
//! ident  := [A-Za-z_] [A-Za-z0-9_]*
//! ```
//!
//! String literals carry no escape sequences: a quote always ends the
//! literal.  A bare name stands for the boolean value `true`.  A name
//! given twice is a hard error, as is any token that is neither a bare
//! name nor a `name = literal` pair with a string or boolean literal.

use vstd::prelude::*;
use vstd::string::StringExecFns;

use crate::common::{from_chars, is_whitespace_char, str_eq, to_chars, ws_char};

verus! {

pub const ERROR_ATTRIBUTE: &'static str = "error";

pub const MESSAGE: &'static str = "message";

pub const IMPL_FROM: &'static str = "impl_from";

/// A literal parameter value: a string or a boolean.
pub enum LitValue {
    Str(String),
    Boolean(bool),
}

/// Mathematical counterpart of a `LitValue`.
pub enum LitVal {
    VStr(Seq<char>),
    VBool(bool),
}

pub open spec fn lit_view(v: LitValue) -> LitVal {
    match v {
        LitValue::Str(s) => LitVal::VStr(s@),
        LitValue::Boolean(b) => LitVal::VBool(b),
    }
}

impl LitValue {
    /// The boolean carried by this value; only boolean values have one.
    pub fn bool_value(&self) -> (r: bool)
        requires
            lit_view(*self) is VBool,
        ensures
            lit_view(*self) == LitVal::VBool(r),
    {
        match self {
            LitValue::Boolean(b) => *b,
            LitValue::Str(_) => false,
        }
    }

    /// The string carried by this value; only string values have one.
    pub fn string_value(&self) -> (r: String)
        requires
            lit_view(*self) is VStr,
        ensures
            lit_view(*self) == LitVal::VStr(r@),
    {
        match self {
            LitValue::Str(s) => s.clone(),
            LitValue::Boolean(_) => String::new(),
        }
    }
}

/// One named parameter.
pub struct Param {
    pub name: String,
    pub value: LitValue,
}

/// The parameter pairs of a whole attribute, as mathematical values.
pub open spec fn params_view(values: Seq<Param>) -> Seq<(Seq<char>, LitVal)> {
    values.map_values(|p: Param| (p.name@, lit_view(p.value)))
}

/// First value bound to `name`, if any.
pub open spec fn lookup(pairs: Seq<(Seq<char>, LitVal)>, name: Seq<char>) -> Option<LitVal>
    decreases pairs.len(),
{
    if pairs.len() == 0 {
        None
    } else if pairs[0].0 == name {
        Some(pairs[0].1)
    } else {
        lookup(pairs.drop_first(), name)
    }
}

/// No name occurs twice.
pub open spec fn names_unique(pairs: Seq<(Seq<char>, LitVal)>) -> bool {
    forall|i: int, j: int| 0 <= i < j < pairs.len() ==> pairs[i].0 != pairs[j].0
}

/// The string bound to a name in a pair list, if one is.
pub open spec fn pair_string(pairs: Seq<(Seq<char>, LitVal)>, name: Seq<char>) -> Option<
    Seq<char>,
> {
    match lookup(pairs, name) {
        Some(LitVal::VStr(s)) => Some(s),
        _ => None,
    }
}

/// The boolean bound to a name in a pair list; absence counts as false.
pub open spec fn pair_bool(pairs: Seq<(Seq<char>, LitVal)>, name: Seq<char>) -> bool {
    match lookup(pairs, name) {
        Some(LitVal::VBool(b)) => b,
        _ => false,
    }
}

/// The name, where bound, has a string value.
pub open spec fn pair_str_typed(pairs: Seq<(Seq<char>, LitVal)>, name: Seq<char>) -> bool {
    match lookup(pairs, name) {
        Some(v) => v is VStr,
        None => true,
    }
}

/// The name, where bound, has a boolean value.
pub open spec fn pair_bool_typed(pairs: Seq<(Seq<char>, LitVal)>, name: Seq<char>) -> bool {
    match lookup(pairs, name) {
        Some(v) => v is VBool,
        None => true,
    }
}

/// The pair lists of parsed per-variant parameters.
pub open spec fn opt_pairs(vps: Seq<Option<Parameters>>) -> Seq<
    Option<Seq<(Seq<char>, LitVal)>>,
> {
    vps.map_values(
        |o: Option<Parameters>|
            match o {
                Some(p) => Some(params_view(p.values@)),
                None => None,
            },
    )
}

/// Why a parameter list was rejected.
#[derive(Debug, PartialEq, Eq, Clone, Copy)]
pub enum ParameterError {
    /// A token is neither a bare name nor a `name = literal` pair with a
    /// string or boolean literal.
    MalformedParameter,
    /// The same name is given twice.
    DuplicateParameter,
    /// The attribute is not list-like (`#[name(...)]`).
    NotList,
}

/// The diagnostic text of a parameter error.
pub open spec fn parameter_error_text(e: ParameterError) -> Seq<char> {
    match e {
        ParameterError::MalformedParameter => "Expected parameters to be bare names or name = literal pairs with string or boolean literals."@,
        ParameterError::DuplicateParameter => "A parameter name was given more than once."@,
        ParameterError::NotList => "Expected list-like attribute, like [error(param0 = \"foo\", param1 = false)]"@,
    }
}

impl ParameterError {
    /// The diagnostic text for this error.
    pub fn message(&self) -> (r: String)
        ensures
            r@ == parameter_error_text(*self),
    {
        match self {
            ParameterError::MalformedParameter => String::from_str(
                "Expected parameters to be bare names or name = literal pairs with string or boolean literals.",
            ),
            ParameterError::DuplicateParameter => String::from_str(
                "A parameter name was given more than once.",
            ),
            ParameterError::NotList => String::from_str(
                "Expected list-like attribute, like [error(param0 = \"foo\", param1 = false)]",
            ),
        }
    }
}

// ---------------------------------------------------------------------
// The scanner, as a mathematical character machine.
// ---------------------------------------------------------------------
/// Scanner position inside the argument text.
pub enum PState {
    /// Before a parameter name (start of input or after a comma).
    Start,
    /// Inside a parameter name.
    InName(Seq<char>),
    /// After a complete name, before `=`, `,` or the end.
    AfterName(Seq<char>),
    /// After `=`, before the value.
    AfterEq(Seq<char>),
    /// Inside a string literal value.
    InString(Seq<char>, Seq<char>),
    /// Inside a bare word value (`true` or `false`).
    InWord(Seq<char>, Seq<char>),
    /// After a complete value, before `,` or the end.
    AfterValue,
    /// The input was rejected.
    Failed(ParameterError),
}

/// Whole scanner state: position plus the pairs already read.
pub struct PSt {
    pub st: PState,
    pub pairs: Seq<(Seq<char>, LitVal)>,
}

pub open spec fn is_ident_start(c: char) -> bool {
    ('a' <= c && c <= 'z') || ('A' <= c && c <= 'Z') || c == '_'
}

pub open spec fn is_ident_cont(c: char) -> bool {
    is_ident_start(c) || ('0' <= c && c <= '9')
}

/// Record a finished pair, rejecting a repeated name.
pub open spec fn emit(p: PSt, name: Seq<char>, value: LitVal, then: PState) -> PSt {
    if lookup(p.pairs, name) is Some {
        PSt { st: PState::Failed(ParameterError::DuplicateParameter), pairs: p.pairs }
    } else {
        PSt { st: then, pairs: p.pairs.push((name, value)) }
    }
}

pub open spec fn word_value(w: Seq<char>) -> Option<LitVal> {
    if w == "true"@ {
        Some(LitVal::VBool(true))
    } else if w == "false"@ {
        Some(LitVal::VBool(false))
    } else {
        None
    }
}

/// Record a finished bare-word value if it is a boolean literal.
pub open spec fn emit_word(p: PSt, name: Seq<char>, w: Seq<char>, then: PState) -> PSt {
    match word_value(w) {
        Some(v) => emit(p, name, v, then),
        None => PSt { st: PState::Failed(ParameterError::MalformedParameter), pairs: p.pairs },
    }
}

pub open spec fn fail(p: PSt) -> PSt {
    PSt { st: PState::Failed(ParameterError::MalformedParameter), pairs: p.pairs }
}

/// One step of the scanner.
pub open spec fn pstep(p: PSt, c: char) -> PSt {
    match p.st {
        PState::Start => {
            if is_whitespace_char(c) {
                p
            } else if is_ident_start(c) {
                PSt { st: PState::InName(seq![c]), pairs: p.pairs }
            } else {
                fail(p)
            }
        },
        PState::InName(n) => {
            if is_ident_cont(c) {
                PSt { st: PState::InName(n.push(c)), pairs: p.pairs }
            } else if is_whitespace_char(c) {
                PSt { st: PState::AfterName(n), pairs: p.pairs }
            } else if c == '=' {
                PSt { st: PState::AfterEq(n), pairs: p.pairs }
            } else if c == ',' {
                emit(p, n, LitVal::VBool(true), PState::Start)
            } else {
                fail(p)
            }
        },
        PState::AfterName(n) => {
            if is_whitespace_char(c) {
                p
            } else if c == '=' {
                PSt { st: PState::AfterEq(n), pairs: p.pairs }
            } else if c == ',' {
                emit(p, n, LitVal::VBool(true), PState::Start)
            } else {
                fail(p)
            }
        },
        PState::AfterEq(n) => {
            if is_whitespace_char(c) {
                p
            } else if c == '"' {
                PSt { st: PState::InString(n, Seq::empty()), pairs: p.pairs }
            } else if is_ident_start(c) {
                PSt { st: PState::InWord(n, seq![c]), pairs: p.pairs }
            } else {
                fail(p)
            }
        },
        PState::InString(n, b) => {
            if c == '"' {
                emit(p, n, LitVal::VStr(b), PState::AfterValue)
            } else {
                PSt { st: PState::InString(n, b.push(c)), pairs: p.pairs }
            }
        },
        PState::InWord(n, w) => {
            if is_ident_cont(c) {
                PSt { st: PState::InWord(n, w.push(c)), pairs: p.pairs }
            } else if is_whitespace_char(c) {
                emit_word(p, n, w, PState::AfterValue)
            } else if c == ',' {
                emit_word(p, n, w, PState::Start)
            } else {
                fail(p)
            }
        },
        PState::AfterValue => {
            if is_whitespace_char(c) {
                p
            } else if c == ',' {
                PSt { st: PState::Start, pairs: p.pairs }
            } else {
                fail(p)
            }
        },
        PState::Failed(_) => p,
    }
}

pub open spec fn pinit() -> PSt {
    PSt { st: PState::Start, pairs: Seq::empty() }
}

/// The scanner run over a whole character sequence.
pub open spec fn prun(s: Seq<char>) -> PSt
    decreases s.len(),
{
    if s.len() == 0 {
        pinit()
    } else {
        pstep(prun(s.drop_last()), s.last())
    }
}

/// Result of scanning the argument text.
pub enum PResult {
    POk(Seq<(Seq<char>, LitVal)>),
    PErr(ParameterError),
}

/// Close the scanner at the end of the input.
pub open spec fn pfinish(p: PSt) -> PResult {
    match p.st {
        PState::Start => PResult::POk(p.pairs),
        PState::InName(n) => {
            match emit(p, n, LitVal::VBool(true), PState::Start).st {
                PState::Failed(e) => PResult::PErr(e),
                _ => PResult::POk(p.pairs.push((n, LitVal::VBool(true)))),
            }
        },
        PState::AfterName(n) => {
            match emit(p, n, LitVal::VBool(true), PState::Start).st {
                PState::Failed(e) => PResult::PErr(e),
                _ => PResult::POk(p.pairs.push((n, LitVal::VBool(true)))),
            }
        },
        PState::AfterEq(_) => PResult::PErr(ParameterError::MalformedParameter),
        PState::InString(_, _) => PResult::PErr(ParameterError::MalformedParameter),
        PState::InWord(n, w) => {
            match word_value(w) {
                Some(v) => {
                    match emit(p, n, v, PState::Start).st {
                        PState::Failed(e) => PResult::PErr(e),
                        _ => PResult::POk(p.pairs.push((n, v))),
                    }
                },
                None => PResult::PErr(ParameterError::MalformedParameter),
            }
        },
        PState::AfterValue => PResult::POk(p.pairs),
        PState::Failed(e) => PResult::PErr(e),
    }
}

/// What parsing an argument text yields.
pub open spec fn parse_args_spec(s: Seq<char>) -> PResult {
    pfinish(prun(s))
}

// ---------------------------------------------------------------------
// Facts about the machine and about lookup.
// ---------------------------------------------------------------------
/// Once the scanner has failed, the rest of the input changes nothing.
proof fn lemma_failed_stays(s: Seq<char>, i: int)
    requires
        0 <= i <= s.len(),
        prun(s.subrange(0, i)).st is Failed,
    ensures
        prun(s) == prun(s.subrange(0, i)),
    decreases s.len() - i,
{
    if i < s.len() {
        let t = s.subrange(0, i + 1);
        assert(t.drop_last() =~= s.subrange(0, i));
        assert(prun(t) == prun(s.subrange(0, i)));
        lemma_failed_stays(s, i + 1);
    } else {
        assert(s.subrange(0, i) =~= s);
    }
}

/// A name absent from every pair has no value.
proof fn lemma_lookup_none(pairs: Seq<(Seq<char>, LitVal)>, n: Seq<char>)
    requires
        forall|j: int| 0 <= j < pairs.len() ==> pairs[j].0 != n,
    ensures
        lookup(pairs, n) is None,
    decreases pairs.len(),
{
    if pairs.len() > 0 {
        let rest = pairs.drop_first();
        assert(forall|j: int| 0 <= j < rest.len() ==> rest[j] == pairs[j + 1]);
        lemma_lookup_none(rest, n);
    }
}

/// A name has a value exactly when some pair holds it.
proof fn lemma_lookup_some_iff(pairs: Seq<(Seq<char>, LitVal)>, n: Seq<char>)
    ensures
        (lookup(pairs, n) is Some) <==> exists|j: int| 0 <= j < pairs.len() && pairs[j].0 == n,
    decreases pairs.len(),
{
    if pairs.len() > 0 {
        let rest = pairs.drop_first();
        assert(forall|j: int| 0 <= j < rest.len() ==> rest[j] == pairs[j + 1]);
        lemma_lookup_some_iff(rest, n);
        if pairs[0].0 == n {
            assert(exists|j: int| 0 <= j < pairs.len() && pairs[j].0 == n);
        } else {
            if exists|j: int| 0 <= j < pairs.len() && pairs[j].0 == n {
                let j = choose|j: int| 0 <= j < pairs.len() && pairs[j].0 == n;
                assert(rest[j - 1].0 == n);
            }
        }
    }
}

/// The first pair holding a name gives its value.
proof fn lemma_lookup_found(pairs: Seq<(Seq<char>, LitVal)>, n: Seq<char>, i: int)
    requires
        0 <= i < pairs.len(),
        pairs[i].0 == n,
        forall|j: int| 0 <= j < i ==> pairs[j].0 != n,
    ensures
        lookup(pairs, n) == Some(pairs[i].1),
    decreases i,
{
    if i > 0 {
        let rest = pairs.drop_first();
        assert(forall|j: int| 0 <= j < rest.len() ==> rest[j] == pairs[j + 1]);
        lemma_lookup_found(rest, n, i - 1);
    }
}

// ---------------------------------------------------------------------
// The parameter set and its accessors.
// ---------------------------------------------------------------------
/// Representation of attribute parameters as name-value pairs with
/// unique names and string or boolean values.
pub struct Parameters {
    pub values: Vec<Param>,
}

impl Parameters {
    /// The pairs, as mathematical values.
    pub open spec fn pairs(self) -> Seq<(Seq<char>, LitVal)> {
        params_view(self.values@)
    }

    /// Every name occurs at most once.
    pub open spec fn wf(self) -> bool {
        names_unique(self.pairs())
    }

    /// The value bound to a name, if any.
    pub open spec fn spec_lookup(self, name: Seq<char>) -> Option<LitVal> {
        lookup(self.pairs(), name)
    }

    pub open spec fn spec_has(self, name: Seq<char>) -> bool {
        self.spec_lookup(name) is Some
    }

    /// The boolean for a name: absence counts as false.
    pub open spec fn spec_bool(self, name: Seq<char>) -> bool {
        pair_bool(self.pairs(), name)
    }

    /// The string for a name, if one is bound.
    pub open spec fn spec_string(self, name: Seq<char>) -> Option<Seq<char>> {
        pair_string(self.pairs(), name)
    }

    /// The name, where bound, has a boolean value.
    pub open spec fn bool_typed(self, name: Seq<char>) -> bool {
        pair_bool_typed(self.pairs(), name)
    }

    /// The name, where bound, has a string value.
    pub open spec fn string_typed(self, name: Seq<char>) -> bool {
        pair_str_typed(self.pairs(), name)
    }
}

/// Index of the first pair holding the given name.
fn find_index(values: &Vec<Param>, name: &str) -> (r: Option<usize>)
    ensures
        match r {
            Some(i) => {
                &&& i < values@.len()
                &&& lookup(params_view(values@), name@) == Some(params_view(values@)[i as int].1)
                &&& values@[i as int].name@ == name@
            },
            None => lookup(params_view(values@), name@) is None,
        },
{
    let mut i: usize = 0;
    while i < values.len()
        invariant
            i <= values.len(),
            forall|j: int| 0 <= j < i ==> params_view(values@)[j].0 != name@,
        decreases values.len() - i,
    {
        if str_eq(values[i].name.as_str(), name) {
            proof {
                lemma_lookup_found(params_view(values@), name@, i as int);
            }
            return Some(i);
        }
        i = i + 1;
    }
    proof {
        lemma_lookup_none(params_view(values@), name@);
    }
    None
}

/// Record a pair, unless the name is already bound.
fn push_pair(out: &mut Vec<Param>, name: Vec<char>, value: LitValue) -> (ok: bool)
    requires
        names_unique(params_view(old(out)@)),
    ensures
        ok == (lookup(params_view(old(out)@), name@) is None),
        ok ==> params_view(final(out)@) == params_view(old(out)@).push((name@, lit_view(value))),
        ok ==> names_unique(params_view(final(out)@)),
        !ok ==> *final(out) == *old(out),
{
    let name_string = from_chars(&name);
    match find_index(out, name_string.as_str()) {
        Some(_) => false,
        None => {
            proof {
                lemma_lookup_some_iff(params_view(out@), name@);
            }
            out.push(Param { name: name_string, value });
            proof {
                let oldp = params_view(old(out)@);
                let newp = params_view(out@);
                assert(newp =~= oldp.push((name@, lit_view(value))));
                assert forall|a: int, b: int|
                    0 <= a < b < newp.len() implies newp[a].0 != newp[b].0 by {
                    if b < newp.len() - 1 {
                        assert(oldp[a].0 != oldp[b].0);
                    } else {
                        assert(oldp[a].0 != name@);
                    }
                }
            }
            true
        },
    }
}

impl Parameters {
    /// Parse the raw argument text of a list-like attribute, like the
    /// `message = "...", impl_from` between the parentheses of
    /// `#[error(message = "...", impl_from)]`.
    pub fn from_attribute_args(args: &str) -> (r: Result<Parameters, ParameterError>)
        ensures
            match r {
                Ok(p) => parse_args_spec(args@) == PResult::POk(p.pairs()) && p.wf(),
                Err(e) => parse_args_spec(args@) == PResult::PErr(e),
            },
    {
        let s = to_chars(args);
        let mut est = EState::Start;
        let mut name: Vec<char> = Vec::new();
        let mut word: Vec<char> = Vec::new();
        let mut out: Vec<Param> = Vec::new();
        let mut i: usize = 0;
        while i < s.len()
            invariant
                s@ == args@,
                i <= s@.len(),
                est_matches(est, name@, word@, prun(args@.subrange(0, i as int)).st),
                params_view(out@) == prun(args@.subrange(0, i as int)).pairs,
                names_unique(params_view(out@)),
            decreases s.len() - i,
        {
            let c = s[i];
            proof {
                let t = args@.subrange(0, (i + 1) as int);
                assert(t.drop_last() =~= args@.subrange(0, i as int));
                assert(t.last() == c);
            }
            match est {
                EState::Start => {
                    if ws_char(c) {
                    } else if ident_start_char(c) {
                        name = Vec::new();
                        name.push(c);
                        est = EState::InName;
                        proof {
                            assert(name@ =~= seq![c]);
                        }
                    } else {
                        proof {
                            lemma_failed_stays(args@, (i + 1) as int);
                        }
                        return Err(ParameterError::MalformedParameter);
                    }
                },
                EState::InName => {
                    if ident_cont_char(c) {
                        name.push(c);
                    } else if ws_char(c) {
                        est = EState::AfterName;
                    } else if c == '=' {
                        est = EState::AfterEq;
                    } else if c == ',' {
                        let n = name;
                        name = Vec::new();
                        if !push_pair(&mut out, n, LitValue::Boolean(true)) {
                            proof {
                                lemma_failed_stays(args@, (i + 1) as int);
                            }
                            return Err(ParameterError::DuplicateParameter);
                        }
                        est = EState::Start;
                    } else {
                        proof {
                            lemma_failed_stays(args@, (i + 1) as int);
                        }
                        return Err(ParameterError::MalformedParameter);
                    }
                },
                EState::AfterName => {
                    if ws_char(c) {
                    } else if c == '=' {
                        est = EState::AfterEq;
                    } else if c == ',' {
                        let n = name;
                        name = Vec::new();
                        if !push_pair(&mut out, n, LitValue::Boolean(true)) {
                            proof {
                                lemma_failed_stays(args@, (i + 1) as int);
                            }
                            return Err(ParameterError::DuplicateParameter);
                        }
                        est = EState::Start;
                    } else {
                        proof {
                            lemma_failed_stays(args@, (i + 1) as int);
                        }
                        return Err(ParameterError::MalformedParameter);
                    }
                },
                EState::AfterEq => {
                    if ws_char(c) {
                    } else if c == '"' {
                        word = Vec::new();
                        est = EState::InString;
                    } else if ident_start_char(c) {
                        word = Vec::new();
                        word.push(c);
                        est = EState::InWord;
                        proof {
                            assert(word@ =~= seq![c]);
                        }
                    } else {
                        proof {
                            lemma_failed_stays(args@, (i + 1) as int);
                        }
                        return Err(ParameterError::MalformedParameter);
                    }
                },
                EState::InString => {
                    if c == '"' {
                        let n = name;
                        name = Vec::new();
                        let w = word;
                        word = Vec::new();
                        let value = LitValue::Str(from_chars(&w));
                        if !push_pair(&mut out, n, value) {
                            proof {
                                lemma_failed_stays(args@, (i + 1) as int);
                            }
                            return Err(ParameterError::DuplicateParameter);
                        }
                        est = EState::AfterValue;
                    } else {
                        word.push(c);
                    }
                },
                EState::InWord => {
                    if ident_cont_char(c) {
                        word.push(c);
                    } else if ws_char(c) || c == ',' {
                        let n = name;
                        name = Vec::new();
                        let w = word;
                        word = Vec::new();
                        let value = match bool_word(&w) {
                            Some(b) => LitValue::Boolean(b),
                            None => {
                                proof {
                                    lemma_failed_stays(args@, (i + 1) as int);
                                }
                                return Err(ParameterError::MalformedParameter);
                            },
                        };
                        if !push_pair(&mut out, n, value) {
                            proof {
                                lemma_failed_stays(args@, (i + 1) as int);
                            }
                            return Err(ParameterError::DuplicateParameter);
                        }
                        est = if c == ',' {
                            EState::Start
                        } else {
                            EState::AfterValue
                        };
                    } else {
                        proof {
                            lemma_failed_stays(args@, (i + 1) as int);
                        }
                        return Err(ParameterError::MalformedParameter);
                    }
                },
                EState::AfterValue => {
                    if ws_char(c) {
                    } else if c == ',' {
                        est = EState::Start;
                    } else {
                        proof {
                            lemma_failed_stays(args@, (i + 1) as int);
                        }
                        return Err(ParameterError::MalformedParameter);
                    }
                },
            }
            i = i + 1;
        }
        proof {
            assert(args@.subrange(0, i as int) =~= args@);
        }
        match est {
            EState::Start | EState::AfterValue => Ok(Parameters { values: out }),
            EState::InName | EState::AfterName => {
                let n = name;
                if !push_pair(&mut out, n, LitValue::Boolean(true)) {
                    return Err(ParameterError::DuplicateParameter);
                }
                Ok(Parameters { values: out })
            },
            EState::AfterEq | EState::InString => Err(ParameterError::MalformedParameter),
            EState::InWord => {
                let n = name;
                let w = word;
                let value = match bool_word(&w) {
                    Some(b) => LitValue::Boolean(b),
                    None => {
                        return Err(ParameterError::MalformedParameter);
                    },
                };
                if !push_pair(&mut out, n, value) {
                    return Err(ParameterError::DuplicateParameter);
                }
                Ok(Parameters { values: out })
            },
        }
    }

    /// Whether the name is bound, by any value.
    pub fn has_parameter(&self, param: &str) -> (r: bool)
        ensures
            r == self.spec_has(param@),
    {
        match find_index(&self.values, param) {
            Some(_) => true,
            None => false,
        }
    }

    /// How many parameters are set.
    pub fn size(&self) -> (r: usize)
        ensures
            r == self.pairs().len(),
    {
        self.values.len()
    }

    /// The boolean bound to a name; an absent name counts as false.
    pub fn bool_for_name(&self, name: &str) -> (r: bool)
        requires
            self.bool_typed(name@),
        ensures
            r == self.spec_bool(name@),
    {
        match find_index(&self.values, name) {
            Some(i) => self.values[i].value.bool_value(),
            None => false,
        }
    }

    /// Whether the name, where bound, has a string value.
    pub fn check_string_typed(&self, name: &str) -> (r: bool)
        ensures
            r == self.string_typed(name@),
    {
        match find_index(&self.values, name) {
            Some(i) => match &self.values[i].value {
                LitValue::Str(_) => true,
                LitValue::Boolean(_) => false,
            },
            None => true,
        }
    }

    /// Whether the name, where bound, has a boolean value.
    pub fn check_bool_typed(&self, name: &str) -> (r: bool)
        ensures
            r == self.bool_typed(name@),
    {
        match find_index(&self.values, name) {
            Some(i) => match &self.values[i].value {
                LitValue::Boolean(_) => true,
                LitValue::Str(_) => false,
            },
            None => true,
        }
    }

    /// The string bound to a name, if one is.
    pub fn string_for_name(&self, name: &str) -> (r: Option<String>)
        requires
            self.string_typed(name@),
        ensures
            match r {
                Some(s) => self.spec_string(name@) == Some(s@),
                None => self.spec_string(name@) is None,
            },
    {
        match find_index(&self.values, name) {
            Some(i) => Some(self.values[i].value.string_value()),
            None => None,
        }
    }
}

// ---------------------------------------------------------------------
// Whole attributes.
// ---------------------------------------------------------------------
/// First position at or after `i` whose character is not whitespace.
pub open spec fn skip_ws_spec(s: Seq<char>, i: int) -> int
    decreases s.len() - i,
{
    if 0 <= i < s.len() && is_whitespace_char(s[i]) {
        skip_ws_spec(s, i + 1)
    } else {
        i
    }
}

/// First position at or after `i` whose character cannot continue an
/// identifier.
pub open spec fn ident_end_spec(s: Seq<char>, i: int) -> int
    decreases s.len() - i,
{
    if 0 <= i < s.len() && is_ident_cont(s[i]) {
        ident_end_spec(s, i + 1)
    } else {
        i
    }
}

/// Position of the last closing parenthesis at or before `j`.
pub open spec fn last_close_spec(s: Seq<char>, j: int) -> Option<int>
    decreases j + 1,
{
    if j < 0 {
        None
    } else if s[j] == ')' {
        Some(j)
    } else {
        last_close_spec(s, j - 1)
    }
}

/// What parsing a whole list-like attribute, `#[name(args)]`, yields:
/// the parse of the args, or `NotList` when the text has not that shape.
pub open spec fn parse_attribute_spec(s: Seq<char>) -> PResult {
    let n = s.len() as int;
    let p0 = skip_ws_spec(s, 0);
    if !(p0 < n && s[p0] == '#') {
        PResult::PErr(ParameterError::NotList)
    } else if !(p0 + 1 < n && s[p0 + 1] == '[') {
        PResult::PErr(ParameterError::NotList)
    } else {
        let p2 = skip_ws_spec(s, p0 + 2);
        if !(p2 < n && is_ident_start(s[p2])) {
            PResult::PErr(ParameterError::NotList)
        } else {
            let p3 = skip_ws_spec(s, ident_end_spec(s, p2 + 1));
            if !(p3 < n && s[p3] == '(') {
                PResult::PErr(ParameterError::NotList)
            } else {
                match last_close_spec(s, n - 1) {
                    None => PResult::PErr(ParameterError::NotList),
                    Some(lc) => {
                        if !(lc > p3) {
                            PResult::PErr(ParameterError::NotList)
                        } else {
                            let p4 = skip_ws_spec(s, lc + 1);
                            if !(p4 < n && s[p4] == ']' && skip_ws_spec(s, p4 + 1) == n) {
                                PResult::PErr(ParameterError::NotList)
                            } else {
                                parse_args_spec(s.subrange(p3 + 1, lc))
                            }
                        }
                    },
                }
            }
        }
    }
}

fn skip_ws_exec(s: &Vec<char>, i: usize) -> (r: usize)
    requires
        i <= s@.len(),
    ensures
        r == skip_ws_spec(s@, i as int),
        i <= r <= s@.len(),
{
    let mut j = i;
    while j < s.len() && (s[j] == ' ' || s[j] == '\t' || s[j] == '\n' || s[j] == '\r')
        invariant
            i <= j <= s@.len(),
            skip_ws_spec(s@, i as int) == skip_ws_spec(s@, j as int),
        decreases s.len() - j,
    {
        j = j + 1;
    }
    j
}

fn ident_end_exec(s: &Vec<char>, i: usize) -> (r: usize)
    requires
        i <= s@.len(),
    ensures
        r == ident_end_spec(s@, i as int),
        i <= r <= s@.len(),
{
    let mut j = i;
    while j < s.len() && ident_cont_char(s[j])
        invariant
            i <= j <= s@.len(),
            ident_end_spec(s@, i as int) == ident_end_spec(s@, j as int),
        decreases s.len() - j,
    {
        j = j + 1;
    }
    j
}

fn last_close_exec(s: &Vec<char>) -> (r: Option<usize>)
    ensures
        match r {
            Some(j) => j < s@.len() && last_close_spec(s@, s@.len() - 1) == Some(j as int),
            None => last_close_spec(s@, s@.len() - 1) is None,
        },
{
    let mut j = s.len();
    while j > 0
        invariant
            j <= s@.len(),
            last_close_spec(s@, s@.len() - 1) == last_close_spec(s@, j - 1),
        decreases j,
    {
        if s[j - 1] == ')' {
            return Some(j - 1);
        }
        j = j - 1;
    }
    None
}

/// The characters of `v` between positions `a` and `b`.
pub fn sub_chars(v: &Vec<char>, a: usize, b: usize) -> (r: Vec<char>)
    requires
        a <= b <= v@.len(),
    ensures
        r@ == v@.subrange(a as int, b as int),
{
    let mut r: Vec<char> = Vec::new();
    let mut i = a;
    while i < b
        invariant
            a <= i <= b <= v@.len(),
            r@ == v@.subrange(a as int, i as int),
        decreases b - i,
    {
        r.push(v[i]);
        i = i + 1;
        proof {
            assert(r@ =~= v@.subrange(a as int, i as int));
        }
    }
    r
}

impl Parameters {
    /// Parse a whole list-like attribute, like
    /// `#[error(message = "...", impl_from)]`; an attribute of any other
    /// shape, such as `#[error]` or `#[error = "..."]`, is `NotList`.
    pub fn from_attribute(attr: &str) -> (r: Result<Parameters, ParameterError>)
        ensures
            match r {
                Ok(p) => parse_attribute_spec(attr@) == PResult::POk(p.pairs()) && p.wf(),
                Err(e) => parse_attribute_spec(attr@) == PResult::PErr(e),
            },
    {
        let s = to_chars(attr);
        let n = s.len();
        let p0 = skip_ws_exec(&s, 0);
        if !(p0 < n && s[p0] == '#') {
            return Err(ParameterError::NotList);
        }
        if !(p0 + 1 < n && s[p0 + 1] == '[') {
            return Err(ParameterError::NotList);
        }
        let p2 = skip_ws_exec(&s, p0 + 2);
        if !(p2 < n && ident_start_char(s[p2])) {
            return Err(ParameterError::NotList);
        }
        let e = ident_end_exec(&s, p2 + 1);
        let p3 = skip_ws_exec(&s, e);
        if !(p3 < n && s[p3] == '(') {
            return Err(ParameterError::NotList);
        }
        let lc = match last_close_exec(&s) {
            Some(lc) => lc,
            None => {
                return Err(ParameterError::NotList);
            },
        };
        if !(lc > p3) {
            return Err(ParameterError::NotList);
        }
        let p4 = skip_ws_exec(&s, lc + 1);
        if !(p4 < n && s[p4] == ']') {
            return Err(ParameterError::NotList);
        }
        if skip_ws_exec(&s, p4 + 1) != n {
            return Err(ParameterError::NotList);
        }
        let inner = from_chars(&sub_chars(&s, p3 + 1, lc));
        Self::from_attribute_args(inner.as_str())
    }

    /// An iterator over the parameter names.
    pub fn name_iter(&self) -> (it: ParameterIter)
        ensures
            it.index == 0,
            it.keys@.len() == self.pairs().len(),
            forall|j: int| 0 <= j < it.keys@.len() ==> it.keys@[j]@ == self.pairs()[j].0,
    {
        ParameterIter::new(self)
    }
}

/// Iterator over the names of a `Parameters`.
pub struct ParameterIter {
    pub index: usize,
    pub keys: Vec<String>,
}

impl ParameterIter {
    fn new(parameters: &Parameters) -> (it: ParameterIter)
        ensures
            it.index == 0,
            it.keys@.len() == parameters.pairs().len(),
            forall|j: int| 0 <= j < it.keys@.len() ==> it.keys@[j]@ == parameters.pairs()[j].0,
    {
        let mut keys: Vec<String> = Vec::new();
        let mut i: usize = 0;
        while i < parameters.values.len()
            invariant
                i <= parameters.values@.len(),
                keys@.len() == i,
                forall|j: int| 0 <= j < i ==> keys@[j]@ == parameters.pairs()[j].0,
            decreases parameters.values.len() - i,
        {
            keys.push(parameters.values[i].name.clone());
            i = i + 1;
        }
        ParameterIter { index: 0, keys }
    }

    /// The next name, or nothing when all have been handed out.
    pub fn next(&mut self) -> (r: Option<String>)
        ensures
            match r {
                Some(s) => {
                    &&& old(self).index < old(self).keys@.len()
                    &&& s@ == old(self).keys@[old(self).index as int]@
                    &&& final(self).index == old(self).index + 1
                },
                None => {
                    &&& old(self).index >= old(self).keys@.len()
                    &&& *final(self) == *old(self)
                },
            },
            final(self).keys == old(self).keys,
    {
        if self.index >= self.keys.len() {
            return None;
        }
        let result = self.keys[self.index].clone();
        self.index = self.index + 1;
        Some(result)
    }
}

/// Scanner position of the executable parser; the accumulated name,
/// word and pairs live beside it.
enum EState {
    Start,
    InName,
    AfterName,
    AfterEq,
    InString,
    InWord,
    AfterValue,
}

/// How the executable scanner state stands for the mathematical one.
spec fn est_matches(est: EState, name: Seq<char>, word: Seq<char>, st: PState) -> bool {
    match est {
        EState::Start => st == PState::Start,
        EState::InName => st == PState::InName(name),
        EState::AfterName => st == PState::AfterName(name),
        EState::AfterEq => st == PState::AfterEq(name),
        EState::InString => st == PState::InString(name, word),
        EState::InWord => st == PState::InWord(name, word),
        EState::AfterValue => st == PState::AfterValue,
    }
}

fn ident_start_char(c: char) -> (r: bool)
    ensures
        r == is_ident_start(c),
{
    ('a' <= c && c <= 'z') || ('A' <= c && c <= 'Z') || c == '_'
}

fn ident_cont_char(c: char) -> (r: bool)
    ensures
        r == is_ident_cont(c),
{
    ident_start_char(c) || ('0' <= c && c <= '9')
}

/// The boolean a bare word stands for, if it is `true` or `false`.
fn bool_word(w: &Vec<char>) -> (r: Option<bool>)
    ensures
        word_value(w@) == match r {
            Some(b) => Some(LitVal::VBool(b)),
            None => None::<LitVal>,
        },
{
    let ws = from_chars(w);
    if str_eq(ws.as_str(), "true") {
        Some(true)
    } else if str_eq(ws.as_str(), "false") {
        Some(false)
    } else {
        None
    }
}

} // verus!
