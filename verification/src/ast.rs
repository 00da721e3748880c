//! The statement tree: parameters, statements with attached blocks and
//! `elseif`/`else` continuations, and resolved call arguments.

use vstd::prelude::*;

verus! {

/// A parameter in a statement.
#[derive(Debug, Clone)]
pub enum Param {
    /// A double-quoted string literal, interpolated at evaluation time.
    Quoted(String),
    /// A stand-alone variable reference: `{name}`.
    Variable(String),
    /// An unquoted bare word or number.
    Bare(String),
}

/// The ghost form of a parameter.
pub enum ParamV {
    Quoted(Seq<char>),
    Variable(Seq<char>),
    Bare(Seq<char>),
}

impl View for Param {
    type V = ParamV;

    open spec fn view(&self) -> ParamV {
        match self {
            Param::Quoted(s) => ParamV::Quoted(s@),
            Param::Variable(s) => ParamV::Variable(s@),
            Param::Bare(s) => ParamV::Bare(s@),
        }
    }
}

pub open spec fn params_view(ps: Seq<Param>) -> Seq<ParamV> {
    Seq::new(ps.len(), |i: int| ps[i]@)
}

/// A fully evaluated call argument, optionally carrying a name derived from
/// the source variable (its last path segment).
#[derive(Debug, Clone)]
pub struct ResolvedArg {
    /// Parameter name derived from the source variable; absent for literals,
    /// numeric names and reserved names.
    pub name: Option<String>,
    /// The resolved string value.
    pub value: String,
}

/// The ghost form of a resolved argument.
pub struct ArgV {
    pub name: Option<Seq<char>>,
    pub value: Seq<char>,
}

impl View for ResolvedArg {
    type V = ArgV;

    open spec fn view(&self) -> ArgV {
        ArgV {
            name: match &self.name {
                Some(n) => Some(n@),
                None => None,
            },
            value: self.value@,
        }
    }
}

pub open spec fn args_view(rs: Seq<ResolvedArg>) -> Seq<ArgV> {
    Seq::new(rs.len(), |i: int| rs[i]@)
}

/// A single statement, parsed from one line: optional target variable, a
/// function name, its parameters, an optional indented block, and an optional
/// `elseif`/`else` continuation.
#[derive(Debug)]
pub struct Statement {
    /// Optional result variable: `{var}` at the start of a line.
    pub target: Option<String>,
    /// The function to invoke.
    pub function: String,
    /// Arguments passed to the function.
    pub args: Vec<Param>,
    /// Indented block belonging to this statement.
    pub block: Option<Vec<Statement>>,
    /// The `elseif`/`else` chained after an `if` or `elseif`.
    pub continuation: Option<Box<Statement>>,
}

/// The ghost form of a statement.
pub struct StmtV {
    pub target: Option<Seq<char>>,
    pub function: Seq<char>,
    pub args: Seq<ParamV>,
    pub block: Option<Seq<StmtV>>,
    pub continuation: Option<Box<StmtV>>,
}

pub open spec fn stmt_view(s: Statement) -> StmtV
    decreases s,
{
    StmtV {
        target: match s.target {
            Some(t) => Some(t@),
            None => None,
        },
        function: s.function@,
        args: params_view(s.args@),
        block: match s.block {
            Some(b) => Some(stmts_view(b@)),
            None => None,
        },
        continuation: match s.continuation {
            Some(c) => Some(Box::new(stmt_view(*c))),
            None => None,
        },
    }
}

pub open spec fn stmts_view(ss: Seq<Statement>) -> Seq<StmtV>
    decreases ss,
{
    if ss.len() == 0 {
        Seq::empty()
    } else {
        seq![stmt_view(ss[0])] + stmts_view(ss.drop_first())
    }
}

impl View for Statement {
    type V = StmtV;

    open spec fn view(&self) -> StmtV {
        stmt_view(*self)
    }
}

pub proof fn lemma_stmts_view_index(ss: Seq<Statement>, i: int)
    requires
        0 <= i < ss.len(),
    ensures
        stmts_view(ss).len() == ss.len(),
        stmts_view(ss)[i] == stmt_view(ss[i]),
    decreases ss.len(),
{
    lemma_stmts_view_len(ss);
    if i > 0 {
        lemma_stmts_view_index(ss.drop_first(), i - 1);
    }
}

pub proof fn lemma_stmts_view_len(ss: Seq<Statement>)
    ensures
        stmts_view(ss).len() == ss.len(),
    decreases ss.len(),
{
    if ss.len() > 0 {
        lemma_stmts_view_len(ss.drop_first());
    }
}

pub proof fn lemma_stmts_view_push(ss: Seq<Statement>, s: Statement)
    ensures
        stmts_view(ss.push(s)) == stmts_view(ss).push(stmt_view(s)),
    decreases ss.len(),
{
    if ss.len() == 0 {
        assert(ss.push(s).drop_first() =~= Seq::<Statement>::empty());
        assert(ss.push(s)[0] == s);
        assert(stmts_view(ss.push(s)) == seq![stmt_view(s)] + stmts_view(
            Seq::<Statement>::empty(),
        ));
        assert(seq![stmt_view(s)] + Seq::<StmtV>::empty() =~= stmts_view(ss).push(stmt_view(s)));
    } else {
        lemma_stmts_view_push(ss.drop_first(), s);
        assert(ss.push(s).drop_first() =~= ss.drop_first().push(s));
        assert(ss.push(s)[0] == ss[0]);
        assert(stmts_view(ss.push(s)) == seq![stmt_view(ss[0])] + stmts_view(
            ss.drop_first(),
        ).push(stmt_view(s)));
        assert(stmts_view(ss) == seq![stmt_view(ss[0])] + stmts_view(ss.drop_first()));
        assert(seq![stmt_view(ss[0])] + stmts_view(ss.drop_first()).push(stmt_view(s)) =~= (seq![
            stmt_view(ss[0]),
        ] + stmts_view(ss.drop_first())).push(stmt_view(s)));
    }
}

// ---------------------------------------------------------------------------
// Heights, for termination of evaluation
// ---------------------------------------------------------------------------

/// The size of a statement tree: itself, its block and its continuation.
pub open spec fn stmt_height(s: Statement) -> nat
    decreases s,
{
    1 + (match s.block {
        Some(b) => stmts_height(b@),
        None => 0nat,
    }) + (match s.continuation {
        Some(c) => stmt_height(*c),
        None => 0nat,
    })
}

pub open spec fn stmts_height(ss: Seq<Statement>) -> nat
    decreases ss,
{
    if ss.len() == 0 {
        0
    } else {
        stmt_height(ss[0]) + stmts_height(ss.drop_first())
    }
}

pub proof fn lemma_stmt_height_elem(ss: Seq<Statement>, i: int)
    requires
        0 <= i < ss.len(),
    ensures
        stmt_height(ss[i]) <= stmts_height(ss),
    decreases ss.len(),
{
    if i > 0 {
        lemma_stmt_height_elem(ss.drop_first(), i - 1);
    }
}

} // verus!
