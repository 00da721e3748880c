//! The statement parser: consumes tokenized lines and builds the statement
//! tree, using indentation as the only block-nesting signal and attaching
//! `elseif`/`else` chains to `if`/`elseif` statements.
//!
//! A block consumes consecutive lines at exactly its expected indent and
//! stops, without consuming, on end of input, on a shallower line, or on an
//! `elseif`/`else` line (which the parent `if` claims). A deeper line right
//! after a statement opens that statement's block; a deeper line anywhere
//! else is a parse error.

use vstd::prelude::*;
use vstd::string::StringExecFns;
use crate::ast::{Param, ParamV, Statement, StmtV, params_view, stmt_view, stmts_view};
use crate::error::BuclError;
use crate::lexer::{self, Line, LineV, Token, TokenV, lines_view, tokens_view};
use crate::text::str_eq;

verus! {

// ---------------------------------------------------------------------------
// What parsing means
// ---------------------------------------------------------------------------

/// The parameter a token stands for.
pub open spec fn ptok(t: TokenV) -> ParamV {
    match t {
        TokenV::Quoted(s) => ParamV::Quoted(s),
        TokenV::Variable(n) => ParamV::Variable(n),
        TokenV::Bare(s) => ParamV::Bare(s),
    }
}

pub open spec fn params_of(toks: Seq<TokenV>) -> Seq<ParamV> {
    Seq::new(toks.len(), |i: int| ptok(toks[i]))
}

/// Decompose a tokenized line into target, function name and parameters:
/// an optional leading `{ident}` is the target, the following token must be
/// bare and names the function, and the rest map one-to-one to parameters.
/// `None` is a parse error: an empty line, a missing function name, or a
/// line starting with a string literal.
pub open spec fn parts_spec(toks: Seq<TokenV>) -> Option<
    (Option<Seq<char>>, Seq<char>, Seq<ParamV>),
> {
    if toks.len() == 0 {
        None
    } else {
        match toks[0] {
            TokenV::Variable(name) => if toks.len() >= 2 {
                match toks[1] {
                    TokenV::Bare(f) => Some((Some(name), f, params_of(toks.skip(2)))),
                    _ => None,
                }
            } else {
                None
            },
            TokenV::Bare(name) => Some((None, name, params_of(toks.skip(1)))),
            TokenV::Quoted(_) => None,
        }
    }
}

/// Whether a line starts with `elseif` or `else`: such lines belong to the
/// parent `if`/`elseif` and never open a statement of their own.
pub open spec fn is_cont_line(l: LineV) -> bool {
    l.tokens.len() > 0 && match l.tokens[0] {
        TokenV::Bare(w) => w == "elseif"@ || w == "else"@,
        _ => false,
    }
}

/// Parse one statement at `cur`: its line, then a strictly deeper block if
/// one follows, then - for `if`/`elseif` only - a continuation at the same
/// indent. Returns the statement and the cursor after it; `None` is a parse
/// error. The fuel only forces termination; it never runs out when it starts
/// at more than the number of remaining lines.
pub open spec fn sp_statement(ls: Seq<LineV>, cur: int, indent: int, fuel: nat) -> Option<
    (StmtV, int),
>
    decreases fuel, 0int,
{
    if fuel == 0 || cur < 0 || cur >= ls.len() {
        None
    } else {
        match parts_spec(ls[cur].tokens) {
            None => None,
            Some(parts) => {
                let c1 = cur + 1;
                let block_step: Option<(Option<Seq<StmtV>>, int)> = if c1 < ls.len()
                    && ls[c1].indent > indent {
                    match sp_block(ls, c1, ls[c1].indent as int, (fuel - 1) as nat) {
                        None => None,
                        Some(b) => Some((Some(b.0), b.1)),
                    }
                } else {
                    Some((None, c1))
                };
                match block_step {
                    None => None,
                    Some(bs) => {
                        let block = bs.0;
                        let c2 = bs.1;
                        if (parts.1 == "if"@ || parts.1 == "elseif"@) && 0 <= c2 < ls.len()
                            && is_cont_line(ls[c2]) && ls[c2].indent == indent {
                            match sp_statement(ls, c2, indent, (fuel - 1) as nat) {
                                None => None,
                                Some(cs) => Some(
                                    (
                                        StmtV {
                                            target: parts.0,
                                            function: parts.1,
                                            args: parts.2,
                                            block,
                                            continuation: Some(Box::new(cs.0)),
                                        },
                                        cs.1,
                                    ),
                                ),
                            }
                        } else {
                            Some(
                                (
                                    StmtV {
                                        target: parts.0,
                                        function: parts.1,
                                        args: parts.2,
                                        block,
                                        continuation: None,
                                    },
                                    c2,
                                ),
                            )
                        }
                    },
                }
            },
        }
    }
}

/// Parse consecutive statements at exactly `indent`, stopping without
/// consuming on end of input, a shallower line, or an `elseif`/`else` line;
/// a deeper line is a parse error.
pub open spec fn sp_block(ls: Seq<LineV>, cur: int, indent: int, fuel: nat) -> Option<
    (Seq<StmtV>, int),
>
    decreases fuel, 1int,
{
    if fuel == 0 {
        None
    } else if cur < 0 || cur >= ls.len() {
        Some((Seq::empty(), cur))
    } else if ls[cur].indent < indent {
        Some((Seq::empty(), cur))
    } else if ls[cur].indent > indent {
        None
    } else if is_cont_line(ls[cur]) {
        Some((Seq::empty(), cur))
    } else {
        match sp_statement(ls, cur, indent, fuel) {
            None => None,
            Some(p) => match sp_block(ls, p.1, indent, (fuel - 1) as nat) {
                None => None,
                Some(rest) => Some((seq![p.0] + rest.0, rest.1)),
            },
        }
    }
}

/// What parsing a whole source yields: its statement trees, or a parse
/// error.
pub open spec fn parse_spec(src: Seq<char>) -> Option<Seq<StmtV>> {
    let ls = lexer::tokenize_spec(src);
    match sp_block(ls, 0, 0, (ls.len() + 1) as nat) {
        Some(p) => Some(p.0),
        None => None,
    }
}

// ---------------------------------------------------------------------------
// Executable parser
// ---------------------------------------------------------------------------

/// Decompose a tokenized line into `(target, function name, parameters)`.
pub fn extract_parts(tokens: &[Token]) -> (r: Result<
    (Option<String>, String, Vec<Param>),
    BuclError,
>)
    ensures
        match parts_spec(tokens_view(tokens@)) {
            Some(p) => match r {
                Ok(parts) => ({
                    &&& match (&parts.0, p.0) {
                        (Some(t), Some(pt)) => t@ == pt,
                        (None, None) => true,
                        _ => false,
                    }
                    &&& parts.1@ == p.1
                    &&& params_view(parts.2@) == p.2
                }),
                Err(_) => false,
            },
            None => r matches Err(BuclError::ParseError(_)),
        },
{
    let ghost tv = tokens_view(tokens@);
    if tokens.len() == 0 {
        return Err(BuclError::ParseError(String::from_str("empty line")));
    }
    let (target, function, k0): (Option<String>, String, usize) = match &tokens[0] {
        Token::Variable(name) => {
            if tokens.len() < 2 {
                return Err(
                    BuclError::ParseError(String::from_str("expected function name after target")),
                );
            }
            match &tokens[1] {
                Token::Bare(f) => (Some(name.clone()), f.clone(), 2),
                _ => {
                    return Err(
                        BuclError::ParseError(
                            String::from_str("expected function name after target"),
                        ),
                    );
                },
            }
        },
        Token::Bare(name) => (None, name.clone(), 1),
        Token::Quoted(_) => {
            return Err(
                BuclError::ParseError(String::from_str("a line cannot start with a string literal")),
            );
        },
    };
    let mut ps: Vec<Param> = Vec::new();
    let mut i: usize = k0;
    while i < tokens.len()
        invariant
            k0 <= i <= tokens@.len(),
            tv == tokens_view(tokens@),
            ps@.len() == i - k0,
            forall|j: int| 0 <= j < ps@.len() ==> ps@[j]@ == ptok(tv[k0 + j]),
        decreases tokens@.len() - i,
    {
        let p = match &tokens[i] {
            Token::Quoted(s) => Param::Quoted(s.clone()),
            Token::Variable(n) => Param::Variable(n.clone()),
            Token::Bare(s) => Param::Bare(s.clone()),
        };
        ps.push(p);
        i = i + 1;
    }
    proof {
        assert(params_view(ps@) =~= params_of(tv.skip(k0 as int)));
    }
    Ok((target, function, ps))
}

/// The parser state: the tokenized lines and a cursor into them.
struct Parser {
    lines: Vec<Line>,
    cursor: usize,
}

impl Parser {
    spec fn lv(&self) -> Seq<LineV> {
        lines_view(self.lines@)
    }

    fn current_indent(&self) -> (r: Option<usize>)
        ensures
            match r {
                Some(i) => self.cursor < self.lv().len() && i as nat
                    == self.lv()[self.cursor as int].indent,
                None => self.cursor >= self.lv().len(),
            },
    {
        if self.cursor < self.lines.len() {
            Some(self.lines[self.cursor].indent)
        } else {
            None
        }
    }

    /// Whether the line at `idx` starts with `elseif` or `else`.
    fn is_continuation_at(&self, idx: usize) -> (r: bool)
        ensures
            r == (idx < self.lv().len() && is_cont_line(self.lv()[idx as int])),
    {
        if idx >= self.lines.len() {
            return false;
        }
        if self.lines[idx].tokens.len() == 0 {
            return false;
        }
        match &self.lines[idx].tokens[0] {
            Token::Bare(name) => {
                let r = str_eq(name.as_str(), "elseif") || str_eq(name.as_str(), "else");
                proof {
                    assert(self.lv()[idx as int].tokens[0] == self.lines@[idx as int].tokens@[0]@);
                }
                r
            },
            _ => false,
        }
    }

    /// Parse all consecutive statements at exactly `expected_indent`.
    fn parse_block(&mut self, expected_indent: usize, Ghost(fuel): Ghost<nat>) -> (r: Result<
        Vec<Statement>,
        BuclError,
    >)
        requires
            old(self).cursor <= old(self).lines@.len(),
            fuel >= old(self).lines@.len() - old(self).cursor + 1,
        ensures
            final(self).lines@ == old(self).lines@,
            old(self).cursor <= final(self).cursor <= final(self).lines@.len(),
            match sp_block(old(self).lv(), old(self).cursor as int, expected_indent as int, fuel) {
                Some(p) => r is Ok && (r matches Ok(ss) && stmts_view(ss@) == p.0)
                    && final(self).cursor as int == p.1,
                None => r matches Err(BuclError::ParseError(_)),
            },
        decreases old(self).lines@.len() - old(self).cursor, 1int,
    {
        let ghost lv0 = self.lv();
        let ghost cur0 = self.cursor;
        if self.cursor >= self.lines.len() {
            let out: Vec<Statement> = Vec::new();
            proof {
                assert(stmts_view(out@) =~= Seq::<StmtV>::empty());
            }
            return Ok(out);
        }
        let ind = self.lines[self.cursor].indent;
        proof {
            assert(lv0[cur0 as int].indent == ind as nat);
        }
        if ind < expected_indent {
            let out: Vec<Statement> = Vec::new();
            proof {
                assert(stmts_view(out@) =~= Seq::<StmtV>::empty());
            }
            return Ok(out);
        }
        if ind > expected_indent {
            return Err(BuclError::ParseError(String::from_str("unexpected indentation")));
        }
        if self.is_continuation_at(self.cursor) {
            let out: Vec<Statement> = Vec::new();
            proof {
                assert(stmts_view(out@) =~= Seq::<StmtV>::empty());
            }
            return Ok(out);
        }
        let stmt = match self.parse_statement(expected_indent, Ghost(fuel)) {
            Ok(s) => s,
            Err(e) => {
                return Err(e);
            },
        };
        let mut rest = match self.parse_block(expected_indent, Ghost((fuel - 1) as nat)) {
            Ok(b) => b,
            Err(e) => {
                return Err(e);
            },
        };
        let ghost rest0 = rest@;
        rest.insert(0, stmt);
        proof {
            assert(rest@ =~= seq![stmt] + rest0);
            assert(rest@.drop_first() =~= rest0);
            assert(stmts_view(rest@) == seq![stmt_view(stmt)] + stmts_view(rest0));
        }
        Ok(rest)
    }

    /// Parse one statement, with its block and continuation.
    fn parse_statement(&mut self, current_indent: usize, Ghost(fuel): Ghost<nat>) -> (r: Result<
        Statement,
        BuclError,
    >)
        requires
            old(self).cursor < old(self).lines@.len(),
            fuel >= old(self).lines@.len() - old(self).cursor + 1,
        ensures
            final(self).lines@ == old(self).lines@,
            old(self).cursor < final(self).cursor <= final(self).lines@.len() || !(r is Ok),
            old(self).cursor <= final(self).cursor <= final(self).lines@.len(),
            match sp_statement(
                old(self).lv(),
                old(self).cursor as int,
                current_indent as int,
                fuel,
            ) {
                Some(p) => r is Ok && (r matches Ok(s) && stmt_view(s) == p.0)
                    && final(self).cursor as int == p.1,
                None => r matches Err(BuclError::ParseError(_)),
            },
        decreases old(self).lines@.len() - old(self).cursor, 0int,
    {
        let ghost lv0 = self.lv();
        let ghost cur0 = self.cursor;
        let n = self.lines.len();
        let parts = {
            let line = &self.lines[self.cursor];
            proof {
                assert(lv0[cur0 as int].tokens == tokens_view(line.tokens@));
            }
            extract_parts(line.tokens.as_slice())
        };
        let (target, function, args) = match parts {
            Ok(p) => p,
            Err(e) => {
                return Err(e);
            },
        };
        self.cursor = self.cursor + 1;

        // A strictly deeper line right after the statement opens its block.
        let block: Option<Vec<Statement>> = if self.cursor < self.lines.len() {
            let bi = self.lines[self.cursor].indent;
            proof {
                assert(lv0[self.cursor as int].indent == bi as nat);
            }
            if bi > current_indent {
                match self.parse_block(bi, Ghost((fuel - 1) as nat)) {
                    Ok(b) => Some(b),
                    Err(e) => {
                        return Err(e);
                    },
                }
            } else {
                None
            }
        } else {
            None
        };

        // Only `if`/`elseif` may claim an `elseif`/`else` continuation, and
        // only at the same indent.
        let is_if = str_eq(function.as_str(), "if") || str_eq(function.as_str(), "elseif");
        let continuation: Option<Box<Statement>> = if is_if && self.is_continuation_at(self.cursor)
        {
            let ci = self.lines[self.cursor].indent;
            proof {
                assert(lv0[self.cursor as int].indent == ci as nat);
            }
            if ci == current_indent {
                match self.parse_statement(current_indent, Ghost((fuel - 1) as nat)) {
                    Ok(s) => Some(Box::new(s)),
                    Err(e) => {
                        return Err(e);
                    },
                }
            } else {
                None
            }
        } else {
            None
        };

        let out = Statement { target, function, args, block, continuation };
        proof {
            let p = sp_statement(lv0, cur0 as int, current_indent as int, fuel);
            assert(p is Some);
            assert(stmt_view(out) == p->Some_0.0);
            assert(self.cursor as int == p->Some_0.1);
        }
        Ok(out)
    }
}

/// Parse a full source text into its list of top-level statements.
pub fn parse(source: &str) -> (r: Result<Vec<Statement>, BuclError>)
    ensures
        match parse_spec(source@) {
            Some(ss) => r is Ok && (r matches Ok(out) && stmts_view(out@) == ss),
            None => r matches Err(BuclError::ParseError(_)),
        },
{
    let lines = match lexer::tokenize(source) {
        Ok(ls) => ls,
        Err(e) => {
            // Tokenizing never fails, as its contract states.
            proof {
                assert(false);
            }
            return Err(e);
        },
    };
    let n = lines.len();
    let mut p = Parser { lines, cursor: 0 };
    proof {
        assert(p.lv() == lexer::tokenize_spec(source@));
    }
    p.parse_block(0, Ghost((n + 1) as nat))
}

} // verus!
