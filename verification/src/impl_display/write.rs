//! The template scanner: it walks a message template left to right,
//! tracking brace-nesting depth.  A `{` at depth zero starts a
//! placeholder span, the matching `}` back at depth one ends it, and
//! braces between them belong to the span body.  Every other character
//! is literal text.

use vstd::prelude::*;

use crate::common::to_chars;
use crate::impl_display::DisplayImplementationError;
use crate::impl_display::compile::{FormattedCall, compile_free_form, render_write_call, write_call_free_spec};

verus! {

/// One scanned piece of a template, as a mathematical value: a literal
/// character or a placeholder span with its body.
pub enum PieceSpec {
    Lit(char),
    Span(Seq<char>),
}

/// One scanned piece of a template.
pub enum Piece {
    Lit(char),
    Span(Vec<char>),
}

pub open spec fn piece_view(p: Piece) -> PieceSpec {
    match p {
        Piece::Lit(c) => PieceSpec::Lit(c),
        Piece::Span(b) => PieceSpec::Span(b@),
    }
}

pub open spec fn pieces_view(v: Seq<Piece>) -> Seq<PieceSpec> {
    v.map_values(|p: Piece| piece_view(p))
}

/// The bodies of the spans among the pieces, in order.
pub open spec fn spans_of(ps: Seq<PieceSpec>) -> Seq<Seq<char>>
    decreases ps.len(),
{
    if ps.len() == 0 {
        Seq::empty()
    } else {
        let rest = spans_of(ps.drop_last());
        match ps.last() {
            PieceSpec::Lit(_) => rest,
            PieceSpec::Span(b) => rest.push(b),
        }
    }
}

/// Scanner state: the brace depth (zero means outside any span), the
/// body of the span being read, and the pieces already read.
pub struct ScanSt {
    pub depth: nat,
    pub body: Seq<char>,
    pub pieces: Seq<PieceSpec>,
}

pub open spec fn scan_init() -> ScanSt {
    ScanSt { depth: 0, body: Seq::empty(), pieces: Seq::empty() }
}

/// One step of the scanner.
pub open spec fn scan_step(st: ScanSt, c: char) -> ScanSt {
    if st.depth == 0 {
        if c == '{' {
            ScanSt { depth: 1, body: Seq::empty(), pieces: st.pieces }
        } else {
            ScanSt { depth: 0, body: st.body, pieces: st.pieces.push(PieceSpec::Lit(c)) }
        }
    } else {
        if c == '{' {
            ScanSt { depth: (st.depth + 1) as nat, body: st.body.push(c), pieces: st.pieces }
        } else if c == '}' {
            if st.depth == 1 {
                ScanSt { depth: 0, body: Seq::empty(), pieces: st.pieces.push(PieceSpec::Span(st.body)) }
            } else {
                ScanSt { depth: (st.depth - 1) as nat, body: st.body.push(c), pieces: st.pieces }
            }
        } else {
            ScanSt { depth: st.depth, body: st.body.push(c), pieces: st.pieces }
        }
    }
}

/// The scanner run over a whole template.
pub open spec fn scan_run(s: Seq<char>) -> ScanSt
    decreases s.len(),
{
    if s.len() == 0 {
        scan_init()
    } else {
        scan_step(scan_run(s.drop_last()), s.last())
    }
}

/// Every opening brace is matched: the scanner ends outside any span.
pub open spec fn template_balanced(s: Seq<char>) -> bool {
    scan_run(s).depth == 0
}

/// The pieces of a balanced template.
pub open spec fn template_pieces(s: Seq<char>) -> Seq<PieceSpec> {
    scan_run(s).pieces
}

/// Scanner for message templates, and compiler of free-form templates
/// into `write!` calls.  It holds the span being read, the span bodies
/// already read, the brace depth, and the scanned pieces.
pub struct WriteImplementor {
    pub current_expression: Option<Vec<char>>,
    pub expressions: Vec<Vec<char>>,
    pub current_depth: usize,
    pub pieces: Vec<Piece>,
}

impl WriteImplementor {
    /// The scanner state this value stands for.
    pub open spec fn st(self) -> ScanSt {
        ScanSt {
            depth: self.current_depth as nat,
            body: match self.current_expression {
                Some(b) => b@,
                None => Seq::empty(),
            },
            pieces: pieces_view(self.pieces@),
        }
    }

    /// A span is being read exactly when the depth is positive, and the
    /// span bodies read so far are the bodies of the span pieces.
    pub open spec fn wf(self) -> bool {
        &&& (self.current_expression is Some) <==> self.current_depth > 0
        &&& self.expressions@.map_values(|b: Vec<char>| b@) == spans_of(pieces_view(self.pieces@))
    }

    pub fn new() -> (w: WriteImplementor)
        ensures
            w.wf(),
            w.st() == scan_init(),
    {
        let w = WriteImplementor {
            current_expression: None,
            expressions: Vec::new(),
            current_depth: 0,
            pieces: Vec::new(),
        };
        proof {
            assert(w.st().pieces =~= scan_init().pieces);
            assert(w.st() == scan_init());
            assert(w.expressions@.map_values(|b: Vec<char>| b@) =~= spans_of(
                pieces_view(w.pieces@),
            ));
        }
        w
    }

    /// Whether a span is being read.
    pub fn currently_creates_expression(&self) -> (r: bool)
        ensures
            r == (self.current_expression is Some),
    {
        self.current_expression.is_some()
    }

    /// Append a character to the span being read, if one is.
    pub fn append_to_expression(&mut self, c: char)
        requires
            old(self).current_expression is Some,
        ensures
            final(self).current_expression matches Some(b) && b@ == old(
                self,
            ).current_expression->0@.push(c),
            final(self).expressions == old(self).expressions,
            final(self).current_depth == old(self).current_depth,
            final(self).pieces == old(self).pieces,
    {
        if let Some(e) = self.current_expression.as_mut() {
            e.push(c);
        }
    }

    pub fn increase_depth(&mut self)
        requires
            old(self).current_depth < usize::MAX,
        ensures
            *final(self) == (WriteImplementor {
                current_depth: (old(self).current_depth + 1) as usize,
                ..*old(self)
            }),
    {
        self.current_depth = self.current_depth + 1;
    }

    pub fn decrease_depth(&mut self)
        requires
            old(self).current_depth > 0,
        ensures
            *final(self) == (WriteImplementor {
                current_depth: (old(self).current_depth - 1) as usize,
                ..*old(self)
            }),
    {
        self.current_depth = self.current_depth - 1;
    }

    /// Begin reading a span.
    pub fn start_creation(&mut self)
        requires
            old(self).wf(),
            old(self).current_depth < usize::MAX,
            old(self).current_expression is None,
        ensures
            final(self).wf(),
            final(self).st() == scan_step(old(self).st(), '{'),
    {
        self.current_expression = Some(Vec::new());
        self.increase_depth();
        proof {
            assert(self.st().body =~= scan_step(old(self).st(), '{').body);
        }
    }

    /// Finish reading a span: its body becomes a span piece.
    pub fn end_creation(&mut self)
        requires
            old(self).wf(),
            old(self).current_expression is Some,
            old(self).current_depth == 1,
        ensures
            final(self).wf(),
            final(self).st() == scan_step(old(self).st(), '}'),
    {
        let body = match self.current_expression.take() {
            Some(b) => b,
            None => Vec::new(),
        };
        let ghost bview = body@;
        let mut copy: Vec<char> = Vec::new();
        let mut i: usize = 0;
        while i < body.len()
            invariant
                i <= body@.len(),
                copy@ == body@.subrange(0, i as int),
                body@ == bview,
            decreases body.len() - i,
        {
            copy.push(body[i]);
            i = i + 1;
            proof {
                assert(copy@ =~= body@.subrange(0, i as int));
            }
        }
        proof {
            assert(copy@ =~= bview);
        }
        self.expressions.push(copy);
        self.pieces.push(Piece::Span(body));
        self.decrease_depth();
        proof {
            let oldps = pieces_view(old(self).pieces@);
            let newps = pieces_view(self.pieces@);
            assert(newps =~= oldps.push(PieceSpec::Span(bview)));
            assert(newps.drop_last() =~= oldps);
            assert(self.expressions@.map_values(|b: Vec<char>| b@) =~= spans_of(oldps).push(
                bview,
            ));
            assert(self.st().body =~= scan_step(old(self).st(), '}').body);
        }
    }

    /// Handle an opening brace; the result says whether the character
    /// stays visible as literal text or a span boundary.
    pub fn handle_opening_parenthesis(&mut self, parenthesis: char) -> (keep: bool)
        requires
            old(self).wf(),
            old(self).current_depth < usize::MAX,
            parenthesis == '{',
        ensures
            final(self).wf(),
            final(self).st() == scan_step(old(self).st(), '{'),
            keep == (old(self).current_expression is None),
    {
        if self.currently_creates_expression() {
            self.append_to_expression(parenthesis);
            self.increase_depth();
            proof {
                assert(self.st().pieces =~= scan_step(old(self).st(), '{').pieces);
            }
            false
        } else {
            self.start_creation();
            true
        }
    }

    /// Handle a closing brace; the result says whether the character
    /// stays visible as literal text or a span boundary.
    pub fn handle_closing_parenthesis(&mut self, parenthesis: char) -> (keep: bool)
        requires
            old(self).wf(),
            parenthesis == '}',
        ensures
            final(self).wf(),
            final(self).st() == scan_step(old(self).st(), '}'),
            keep == (old(self).current_expression is None || old(self).current_depth == 1),
    {
        if self.currently_creates_expression() {
            if self.current_depth == 1 {
                self.end_creation();
                true
            } else {
                self.append_to_expression(parenthesis);
                self.decrease_depth();
                proof {
                    assert(self.st().pieces =~= scan_step(old(self).st(), '}').pieces);
                }
                false
            }
        } else {
            self.pieces.push(Piece::Lit(parenthesis));
            proof {
                let oldps = pieces_view(old(self).pieces@);
                let newps = pieces_view(self.pieces@);
                assert(newps =~= oldps.push(PieceSpec::Lit('}')));
                assert(newps.drop_last() =~= oldps);
                assert(self.st() == scan_step(old(self).st(), '}'));
            }
            true
        }
    }

    /// Record a literal character.
    pub fn take_literal(&mut self, c: char)
        requires
            old(self).wf(),
            old(self).current_expression is None,
            c != '{',
            c != '}',
        ensures
            final(self).wf(),
            final(self).st() == scan_step(old(self).st(), c),
    {
        self.pieces.push(Piece::Lit(c));
        proof {
            let oldps = pieces_view(old(self).pieces@);
            let newps = pieces_view(self.pieces@);
            assert(newps =~= oldps.push(PieceSpec::Lit(c)));
            assert(newps.drop_last() =~= oldps);
            assert(self.st() == scan_step(old(self).st(), c));
        }
    }

    /// Scan a whole template into its pieces; unbalanced braces are an
    /// error.
    pub fn scan(self, chars: &Vec<char>) -> (r: Option<Vec<Piece>>)
        requires
            self.wf(),
            self.st() == scan_init(),
        ensures
            match r {
                Some(ps) => template_balanced(chars@) && pieces_view(ps@) == template_pieces(
                    chars@,
                ),
                None => !template_balanced(chars@),
            },
    {
        let mut this = self;
        let n = chars.len();
        let mut i: usize = 0;
        while i < n
            invariant
                i <= n,
                n == chars@.len(),
                this.wf(),
                this.st() == scan_run(chars@.subrange(0, i as int)),
                this.current_depth <= i,
            decreases n - i,
        {
            let c = chars[i];
            proof {
                let t = chars@.subrange(0, (i + 1) as int);
                assert(t.drop_last() =~= chars@.subrange(0, i as int));
                assert(t.last() == c);
            }
            if c == '{' {
                this.handle_opening_parenthesis(c);
            } else if c == '}' {
                this.handle_closing_parenthesis(c);
            } else if this.currently_creates_expression() {
                this.append_to_expression(c);
                proof {
                    assert(this.st().pieces =~= scan_step(
                        scan_run(chars@.subrange(0, i as int)),
                        c,
                    ).pieces);
                }
            } else {
                this.take_literal(c);
            }
            i = i + 1;
        }
        proof {
            assert(chars@.subrange(0, n as int) =~= chars@);
        }
        if this.current_depth == 0 {
            Some(this.pieces)
        } else {
            None
        }
    }

    /// Compile a free-form message into the text of a `write!` call:
    /// each placeholder body becomes one argument expression, in order,
    /// and the rendered format string holds `{}` in its place.
    pub fn implement(self, message: String) -> (r: Result<String, DisplayImplementationError>)
        requires
            self.wf(),
            self.st() == scan_init(),
        ensures
            match r {
                Ok(out) => template_balanced(message@) && out@ == write_call_free_spec(message@),
                Err(e) => !template_balanced(message@) && (e
                    matches DisplayImplementationError::UnbalancedTemplate(t) && t@ == message@),
            },
    {
        let chars = to_chars(message.as_str());
        match self.scan(&chars) {
            Some(pieces) => {
                let call = compile_free_form(&pieces);
                Ok(render_write_call(&call))
            },
            None => Err(DisplayImplementationError::UnbalancedTemplate(message)),
        }
    }
}

} // verus!
