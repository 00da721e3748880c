//! The built-in operations and their dispatch table entry points.
//!
//! Each built-in is a unit struct implementing [`BuclFunction`]; the
//! evaluator's registry maps names to [`Builtin`] values, which dispatch
//! statically to the implementations.

use vstd::prelude::*;
use crate::ast::{Statement, stmt_height, stmts_height};
use crate::error::BuclError;
use crate::evaluator::Evaluator;

pub mod assign;
pub mod cmp;
pub mod count;
pub mod each;
pub mod echo;
pub mod getvar;
pub mod if_fn;
pub mod length;
pub mod math;
pub mod random;
pub mod readfile;
pub mod repeat;
pub mod setvar;
pub mod sleep;
pub mod strpos;
pub mod substr;
pub mod writefile;

verus! {

/// The size of an optional block, for termination of nested evaluation.
pub open spec fn opt_block_height(b: Option<&[Statement]>) -> nat {
    match b {
        Some(ss) => stmts_height(ss@),
        None => 0,
    }
}

/// The size of an optional continuation.
pub open spec fn opt_cont_height(c: Option<&Statement>) -> nat {
    match c {
        Some(s) => stmt_height(*s),
        None => 0,
    }
}

/// A built-in operation.
///
/// Calling convention: `target` is the `{var}` written before the function
/// name, if any; `args` are the already-evaluated string arguments; `block`
/// is the indented block owned by this call; `continuation` is the
/// `elseif`/`else` chained after an `if`. Return `Ok(Some(value))` to have
/// the evaluator store `value` in the target variable, `Ok(None)` to leave
/// the target variable alone.
pub trait BuclFunction {
    fn call(
        &self,
        evaluator: &mut Evaluator,
        target: Option<&str>,
        args: Vec<String>,
        block: Option<&[Statement]>,
        continuation: Option<&Statement>,
    ) -> (r: Result<Option<String>, BuclError>)
        requires
            old(evaluator).wf(),
        ensures
            final(evaluator).wf(),
            final(evaluator).depth == old(evaluator).depth,
            old(evaluator).output_buffer@.is_prefix_of(final(evaluator).output_buffer@),
    ;
}

/// One entry of the dispatch table.
#[derive(Clone, Copy, Debug, PartialEq, Eq)]
pub enum Builtin {
    Assign,
    Cmp,
    Count,
    Each,
    Echo,
    GetVar,
    If,
    Else,
    Length,
    Math,
    Random,
    ReadFile,
    Repeat,
    SetVar,
    Sleep,
    StrPos,
    Substr,
    WriteFile,
}

impl Builtin {
    /// Dispatch a call to the built-in's implementation.
    pub fn call(
        &self,
        evaluator: &mut Evaluator,
        target: Option<&str>,
        args: Vec<String>,
        block: Option<&[Statement]>,
        continuation: Option<&Statement>,
    ) -> (r: Result<Option<String>, BuclError>)
        requires
            old(evaluator).wf(),
        ensures
            final(evaluator).wf(),
            final(evaluator).depth == old(evaluator).depth,
            old(evaluator).output_buffer@.is_prefix_of(final(evaluator).output_buffer@),
            crate::evaluator::builtin_step(
                *self,
                *old(evaluator),
                *final(evaluator),
                match target {
                    Some(t) => Some(t@),
                    None => None,
                },
                crate::text::seq_views(args@),
                match block {
                    Some(b) => Some(b@),
                    None => None,
                },
                match continuation {
                    Some(c) => Some(*c),
                    None => None,
                },
                r,
            ),
        decreases evaluator.depth, opt_block_height(block) + opt_cont_height(continuation), 4int,
    {
        match self {
            Builtin::Assign => assign::Assign.call(evaluator, target, args, block, continuation),
            Builtin::Cmp => cmp::Cmp.call(evaluator, target, args, block, continuation),
            Builtin::Count => count::Count.call(evaluator, target, args, block, continuation),
            Builtin::Each => each::Each.call(evaluator, target, args, block, continuation),
            Builtin::Echo => echo::Echo.call(evaluator, target, args, block, continuation),
            Builtin::GetVar => getvar::GetVar.call(evaluator, target, args, block, continuation),
            Builtin::If => if_fn::IfFn.call(evaluator, target, args, block, continuation),
            Builtin::Else => if_fn::ElseFn.call(evaluator, target, args, block, continuation),
            Builtin::Length => length::Length.call(evaluator, target, args, block, continuation),
            Builtin::Math => math::Math.call(evaluator, target, args, block, continuation),
            Builtin::Random => random::Random.call(evaluator, target, args, block, continuation),
            Builtin::ReadFile => readfile::ReadFile.call(
                evaluator,
                target,
                args,
                block,
                continuation,
            ),
            Builtin::Repeat => repeat::Repeat.call(evaluator, target, args, block, continuation),
            Builtin::SetVar => setvar::SetVar.call(evaluator, target, args, block, continuation),
            Builtin::Sleep => sleep::Sleep.call(evaluator, target, args, block, continuation),
            Builtin::StrPos => strpos::StrPos.call(evaluator, target, args, block, continuation),
            Builtin::Substr => substr::Substr.call(evaluator, target, args, block, continuation),
            Builtin::WriteFile => writefile::WriteFile.call(
                evaluator,
                target,
                args,
                block,
                continuation,
            ),
        }
    }
}

/// Register every built-in operation with the evaluator.
#[verifier::rlimit(100)]
pub fn register_all(eval: &mut Evaluator)
    requires
        old(eval).wf(),
    ensures
        final(eval).wf(),
        final(eval).depth == old(eval).depth,
        final(eval).variables == old(eval).variables,
        final(eval).embedded_functions == old(eval).embedded_functions,
        final(eval).files == old(eval).files,
        final(eval).output_buffer == old(eval).output_buffer,
        final(eval).call_named_args == old(eval).call_named_args,
        final(eval).base_dir == old(eval).base_dir,
        crate::evaluator::standard_registry(crate::evaluator::reg_view(final(eval).functions@)),
{
    assign::register(eval);
    count::register(eval);
    each::register(eval);
    getvar::register(eval);
    if_fn::register(eval);
    length::register(eval);
    math::register(eval);
    random::register(eval);
    readfile::register(eval);
    repeat::register(eval);
    setvar::register(eval);
    strpos::register(eval);
    substr::register(eval);
    writefile::register(eval);
    cmp::register(eval);
    echo::register(eval);
    sleep::register(eval);
    proof {
        lemma_standard_registration(crate::evaluator::reg_view(old(eval).functions@));
    }
}

/// Looking up any other name skips a front entry.
proof fn lemma_lookup_skip(
    rs: Seq<(Seq<char>, Builtin)>,
    top: Seq<char>,
    b: Builtin,
    name: Seq<char>,
)
    requires
        name != top,
    ensures
        crate::evaluator::lookup_builtin(rs.insert(0, (top, b)), name)
            == crate::evaluator::lookup_builtin(rs, name),
{
    assert(rs.insert(0, (top, b)).drop_first() =~= rs);
    assert(rs.insert(0, (top, b))[0] == (top, b));
}

/// The registrations of `register_all`, in order, leave every standard name
/// resolving to its operation.
#[verifier::rlimit(100)]
#[verifier::spinoff_prover]
proof fn lemma_standard_registration(rs0: Seq<(Seq<char>, Builtin)>)
    ensures
        crate::evaluator::standard_registry(
            rs0.insert(0, ("="@, Builtin::Assign)).insert(0, ("count"@, Builtin::Count)).insert(
                0,
                ("each"@, Builtin::Each),
            ).insert(0, ("getvar"@, Builtin::GetVar)).insert(0, ("if"@, Builtin::If)).insert(
                0,
                ("elseif"@, Builtin::If),
            ).insert(0, ("else"@, Builtin::Else)).insert(0, ("length"@, Builtin::Length)).insert(
                0,
                ("math"@, Builtin::Math),
            ).insert(0, ("random"@, Builtin::Random)).insert(
                0,
                ("readfile"@, Builtin::ReadFile),
            ).insert(0, ("repeat"@, Builtin::Repeat)).insert(0, ("setvar"@, Builtin::SetVar))
                .insert(0, ("strpos"@, Builtin::StrPos)).insert(0, ("substr"@, Builtin::Substr))
                .insert(0, ("writefile"@, Builtin::WriteFile)).insert(0, ("cmp"@, Builtin::Cmp))
                .insert(0, ("echo"@, Builtin::Echo)).insert(0, ("sleep"@, Builtin::Sleep)),
        ),
{
    reveal_strlit("=");
    reveal_strlit("count");
    reveal_strlit("each");
    reveal_strlit("getvar");
    reveal_strlit("if");
    reveal_strlit("elseif");
    reveal_strlit("else");
    reveal_strlit("length");
    reveal_strlit("math");
    reveal_strlit("random");
    reveal_strlit("readfile");
    reveal_strlit("repeat");
    reveal_strlit("setvar");
    reveal_strlit("strpos");
    reveal_strlit("substr");
    reveal_strlit("writefile");
    reveal_strlit("cmp");
    reveal_strlit("echo");
    reveal_strlit("sleep");
    assert("="@.len() == 1);
    assert("count"@.len() == 5);
    assert("each"@.len() == 4);
    assert("getvar"@.len() == 6);
    assert("if"@.len() == 2);
    assert("elseif"@.len() == 6);
    assert("else"@.len() == 4);
    assert("length"@.len() == 6);
    assert("math"@.len() == 4);
    assert("random"@.len() == 6);
    assert("readfile"@.len() == 8);
    assert("repeat"@.len() == 6);
    assert("setvar"@.len() == 6);
    assert("strpos"@.len() == 6);
    assert("substr"@.len() == 6);
    assert("writefile"@.len() == 9);
    assert("cmp"@.len() == 3);
    assert("echo"@.len() == 4);
    assert("sleep"@.len() == 5);
    assert("count"@[0] != "sleep"@[0]);
    assert("each"@[1] != "else"@[1]);
    assert("each"@[0] != "math"@[0]);
    assert("each"@[1] != "echo"@[1]);
    assert("getvar"@[0] != "elseif"@[0]);
    assert("getvar"@[0] != "length"@[0]);
    assert("getvar"@[0] != "random"@[0]);
    assert("getvar"@[0] != "repeat"@[0]);
    assert("getvar"@[0] != "setvar"@[0]);
    assert("getvar"@[0] != "strpos"@[0]);
    assert("getvar"@[0] != "substr"@[0]);
    assert("elseif"@[0] != "length"@[0]);
    assert("elseif"@[0] != "random"@[0]);
    assert("elseif"@[0] != "repeat"@[0]);
    assert("elseif"@[0] != "setvar"@[0]);
    assert("elseif"@[0] != "strpos"@[0]);
    assert("elseif"@[0] != "substr"@[0]);
    assert("else"@[0] != "math"@[0]);
    assert("else"@[1] != "echo"@[1]);
    assert("length"@[0] != "random"@[0]);
    assert("length"@[0] != "repeat"@[0]);
    assert("length"@[0] != "setvar"@[0]);
    assert("length"@[0] != "strpos"@[0]);
    assert("length"@[0] != "substr"@[0]);
    assert("math"@[0] != "echo"@[0]);
    assert("random"@[1] != "repeat"@[1]);
    assert("random"@[0] != "setvar"@[0]);
    assert("random"@[0] != "strpos"@[0]);
    assert("random"@[0] != "substr"@[0]);
    assert("repeat"@[0] != "setvar"@[0]);
    assert("repeat"@[0] != "strpos"@[0]);
    assert("repeat"@[0] != "substr"@[0]);
    assert("setvar"@[1] != "strpos"@[1]);
    assert("setvar"@[1] != "substr"@[1]);
    assert("strpos"@[1] != "substr"@[1]);
    let s0 = rs0;
    let s1 = s0.insert(0, ("="@, Builtin::Assign));
    let s2 = s1.insert(0, ("count"@, Builtin::Count));
    let s3 = s2.insert(0, ("each"@, Builtin::Each));
    let s4 = s3.insert(0, ("getvar"@, Builtin::GetVar));
    let s5 = s4.insert(0, ("if"@, Builtin::If));
    let s6 = s5.insert(0, ("elseif"@, Builtin::If));
    let s7 = s6.insert(0, ("else"@, Builtin::Else));
    let s8 = s7.insert(0, ("length"@, Builtin::Length));
    let s9 = s8.insert(0, ("math"@, Builtin::Math));
    let s10 = s9.insert(0, ("random"@, Builtin::Random));
    let s11 = s10.insert(0, ("readfile"@, Builtin::ReadFile));
    let s12 = s11.insert(0, ("repeat"@, Builtin::Repeat));
    let s13 = s12.insert(0, ("setvar"@, Builtin::SetVar));
    let s14 = s13.insert(0, ("strpos"@, Builtin::StrPos));
    let s15 = s14.insert(0, ("substr"@, Builtin::Substr));
    let s16 = s15.insert(0, ("writefile"@, Builtin::WriteFile));
    let s17 = s16.insert(0, ("cmp"@, Builtin::Cmp));
    let s18 = s17.insert(0, ("echo"@, Builtin::Echo));
    let s19 = s18.insert(0, ("sleep"@, Builtin::Sleep));
    lemma_lookup_skip(s18, "sleep"@, Builtin::Sleep, "="@);
    lemma_lookup_skip(s17, "echo"@, Builtin::Echo, "="@);
    lemma_lookup_skip(s16, "cmp"@, Builtin::Cmp, "="@);
    lemma_lookup_skip(s15, "writefile"@, Builtin::WriteFile, "="@);
    lemma_lookup_skip(s14, "substr"@, Builtin::Substr, "="@);
    lemma_lookup_skip(s13, "strpos"@, Builtin::StrPos, "="@);
    lemma_lookup_skip(s12, "setvar"@, Builtin::SetVar, "="@);
    lemma_lookup_skip(s11, "repeat"@, Builtin::Repeat, "="@);
    lemma_lookup_skip(s10, "readfile"@, Builtin::ReadFile, "="@);
    lemma_lookup_skip(s9, "random"@, Builtin::Random, "="@);
    lemma_lookup_skip(s8, "math"@, Builtin::Math, "="@);
    lemma_lookup_skip(s7, "length"@, Builtin::Length, "="@);
    lemma_lookup_skip(s6, "else"@, Builtin::Else, "="@);
    lemma_lookup_skip(s5, "elseif"@, Builtin::If, "="@);
    lemma_lookup_skip(s4, "if"@, Builtin::If, "="@);
    lemma_lookup_skip(s3, "getvar"@, Builtin::GetVar, "="@);
    lemma_lookup_skip(s2, "each"@, Builtin::Each, "="@);
    lemma_lookup_skip(s1, "count"@, Builtin::Count, "="@);
    assert(s1[0] == ("="@, Builtin::Assign));
    assert(crate::evaluator::lookup_builtin(s1, "="@) == Some(Builtin::Assign));
    assert(crate::evaluator::lookup_builtin(s19, "="@) == Some(Builtin::Assign));
    lemma_lookup_skip(s18, "sleep"@, Builtin::Sleep, "count"@);
    lemma_lookup_skip(s17, "echo"@, Builtin::Echo, "count"@);
    lemma_lookup_skip(s16, "cmp"@, Builtin::Cmp, "count"@);
    lemma_lookup_skip(s15, "writefile"@, Builtin::WriteFile, "count"@);
    lemma_lookup_skip(s14, "substr"@, Builtin::Substr, "count"@);
    lemma_lookup_skip(s13, "strpos"@, Builtin::StrPos, "count"@);
    lemma_lookup_skip(s12, "setvar"@, Builtin::SetVar, "count"@);
    lemma_lookup_skip(s11, "repeat"@, Builtin::Repeat, "count"@);
    lemma_lookup_skip(s10, "readfile"@, Builtin::ReadFile, "count"@);
    lemma_lookup_skip(s9, "random"@, Builtin::Random, "count"@);
    lemma_lookup_skip(s8, "math"@, Builtin::Math, "count"@);
    lemma_lookup_skip(s7, "length"@, Builtin::Length, "count"@);
    lemma_lookup_skip(s6, "else"@, Builtin::Else, "count"@);
    lemma_lookup_skip(s5, "elseif"@, Builtin::If, "count"@);
    lemma_lookup_skip(s4, "if"@, Builtin::If, "count"@);
    lemma_lookup_skip(s3, "getvar"@, Builtin::GetVar, "count"@);
    lemma_lookup_skip(s2, "each"@, Builtin::Each, "count"@);
    assert(s2[0] == ("count"@, Builtin::Count));
    assert(crate::evaluator::lookup_builtin(s2, "count"@) == Some(Builtin::Count));
    assert(crate::evaluator::lookup_builtin(s19, "count"@) == Some(Builtin::Count));
    lemma_lookup_skip(s18, "sleep"@, Builtin::Sleep, "each"@);
    lemma_lookup_skip(s17, "echo"@, Builtin::Echo, "each"@);
    lemma_lookup_skip(s16, "cmp"@, Builtin::Cmp, "each"@);
    lemma_lookup_skip(s15, "writefile"@, Builtin::WriteFile, "each"@);
    lemma_lookup_skip(s14, "substr"@, Builtin::Substr, "each"@);
    lemma_lookup_skip(s13, "strpos"@, Builtin::StrPos, "each"@);
    lemma_lookup_skip(s12, "setvar"@, Builtin::SetVar, "each"@);
    lemma_lookup_skip(s11, "repeat"@, Builtin::Repeat, "each"@);
    lemma_lookup_skip(s10, "readfile"@, Builtin::ReadFile, "each"@);
    lemma_lookup_skip(s9, "random"@, Builtin::Random, "each"@);
    lemma_lookup_skip(s8, "math"@, Builtin::Math, "each"@);
    lemma_lookup_skip(s7, "length"@, Builtin::Length, "each"@);
    lemma_lookup_skip(s6, "else"@, Builtin::Else, "each"@);
    lemma_lookup_skip(s5, "elseif"@, Builtin::If, "each"@);
    lemma_lookup_skip(s4, "if"@, Builtin::If, "each"@);
    lemma_lookup_skip(s3, "getvar"@, Builtin::GetVar, "each"@);
    assert(s3[0] == ("each"@, Builtin::Each));
    assert(crate::evaluator::lookup_builtin(s3, "each"@) == Some(Builtin::Each));
    assert(crate::evaluator::lookup_builtin(s19, "each"@) == Some(Builtin::Each));
    lemma_lookup_skip(s18, "sleep"@, Builtin::Sleep, "getvar"@);
    lemma_lookup_skip(s17, "echo"@, Builtin::Echo, "getvar"@);
    lemma_lookup_skip(s16, "cmp"@, Builtin::Cmp, "getvar"@);
    lemma_lookup_skip(s15, "writefile"@, Builtin::WriteFile, "getvar"@);
    lemma_lookup_skip(s14, "substr"@, Builtin::Substr, "getvar"@);
    lemma_lookup_skip(s13, "strpos"@, Builtin::StrPos, "getvar"@);
    lemma_lookup_skip(s12, "setvar"@, Builtin::SetVar, "getvar"@);
    lemma_lookup_skip(s11, "repeat"@, Builtin::Repeat, "getvar"@);
    lemma_lookup_skip(s10, "readfile"@, Builtin::ReadFile, "getvar"@);
    lemma_lookup_skip(s9, "random"@, Builtin::Random, "getvar"@);
    lemma_lookup_skip(s8, "math"@, Builtin::Math, "getvar"@);
    lemma_lookup_skip(s7, "length"@, Builtin::Length, "getvar"@);
    lemma_lookup_skip(s6, "else"@, Builtin::Else, "getvar"@);
    lemma_lookup_skip(s5, "elseif"@, Builtin::If, "getvar"@);
    lemma_lookup_skip(s4, "if"@, Builtin::If, "getvar"@);
    assert(s4[0] == ("getvar"@, Builtin::GetVar));
    assert(crate::evaluator::lookup_builtin(s4, "getvar"@) == Some(Builtin::GetVar));
    assert(crate::evaluator::lookup_builtin(s19, "getvar"@) == Some(Builtin::GetVar));
    lemma_lookup_skip(s18, "sleep"@, Builtin::Sleep, "if"@);
    lemma_lookup_skip(s17, "echo"@, Builtin::Echo, "if"@);
    lemma_lookup_skip(s16, "cmp"@, Builtin::Cmp, "if"@);
    lemma_lookup_skip(s15, "writefile"@, Builtin::WriteFile, "if"@);
    lemma_lookup_skip(s14, "substr"@, Builtin::Substr, "if"@);
    lemma_lookup_skip(s13, "strpos"@, Builtin::StrPos, "if"@);
    lemma_lookup_skip(s12, "setvar"@, Builtin::SetVar, "if"@);
    lemma_lookup_skip(s11, "repeat"@, Builtin::Repeat, "if"@);
    lemma_lookup_skip(s10, "readfile"@, Builtin::ReadFile, "if"@);
    lemma_lookup_skip(s9, "random"@, Builtin::Random, "if"@);
    lemma_lookup_skip(s8, "math"@, Builtin::Math, "if"@);
    lemma_lookup_skip(s7, "length"@, Builtin::Length, "if"@);
    lemma_lookup_skip(s6, "else"@, Builtin::Else, "if"@);
    lemma_lookup_skip(s5, "elseif"@, Builtin::If, "if"@);
    assert(s5[0] == ("if"@, Builtin::If));
    assert(crate::evaluator::lookup_builtin(s5, "if"@) == Some(Builtin::If));
    assert(crate::evaluator::lookup_builtin(s19, "if"@) == Some(Builtin::If));
    lemma_lookup_skip(s18, "sleep"@, Builtin::Sleep, "elseif"@);
    lemma_lookup_skip(s17, "echo"@, Builtin::Echo, "elseif"@);
    lemma_lookup_skip(s16, "cmp"@, Builtin::Cmp, "elseif"@);
    lemma_lookup_skip(s15, "writefile"@, Builtin::WriteFile, "elseif"@);
    lemma_lookup_skip(s14, "substr"@, Builtin::Substr, "elseif"@);
    lemma_lookup_skip(s13, "strpos"@, Builtin::StrPos, "elseif"@);
    lemma_lookup_skip(s12, "setvar"@, Builtin::SetVar, "elseif"@);
    lemma_lookup_skip(s11, "repeat"@, Builtin::Repeat, "elseif"@);
    lemma_lookup_skip(s10, "readfile"@, Builtin::ReadFile, "elseif"@);
    lemma_lookup_skip(s9, "random"@, Builtin::Random, "elseif"@);
    lemma_lookup_skip(s8, "math"@, Builtin::Math, "elseif"@);
    lemma_lookup_skip(s7, "length"@, Builtin::Length, "elseif"@);
    lemma_lookup_skip(s6, "else"@, Builtin::Else, "elseif"@);
    assert(s6[0] == ("elseif"@, Builtin::If));
    assert(crate::evaluator::lookup_builtin(s6, "elseif"@) == Some(Builtin::If));
    assert(crate::evaluator::lookup_builtin(s19, "elseif"@) == Some(Builtin::If));
    lemma_lookup_skip(s18, "sleep"@, Builtin::Sleep, "else"@);
    lemma_lookup_skip(s17, "echo"@, Builtin::Echo, "else"@);
    lemma_lookup_skip(s16, "cmp"@, Builtin::Cmp, "else"@);
    lemma_lookup_skip(s15, "writefile"@, Builtin::WriteFile, "else"@);
    lemma_lookup_skip(s14, "substr"@, Builtin::Substr, "else"@);
    lemma_lookup_skip(s13, "strpos"@, Builtin::StrPos, "else"@);
    lemma_lookup_skip(s12, "setvar"@, Builtin::SetVar, "else"@);
    lemma_lookup_skip(s11, "repeat"@, Builtin::Repeat, "else"@);
    lemma_lookup_skip(s10, "readfile"@, Builtin::ReadFile, "else"@);
    lemma_lookup_skip(s9, "random"@, Builtin::Random, "else"@);
    lemma_lookup_skip(s8, "math"@, Builtin::Math, "else"@);
    lemma_lookup_skip(s7, "length"@, Builtin::Length, "else"@);
    assert(s7[0] == ("else"@, Builtin::Else));
    assert(crate::evaluator::lookup_builtin(s7, "else"@) == Some(Builtin::Else));
    assert(crate::evaluator::lookup_builtin(s19, "else"@) == Some(Builtin::Else));
    lemma_lookup_skip(s18, "sleep"@, Builtin::Sleep, "length"@);
    lemma_lookup_skip(s17, "echo"@, Builtin::Echo, "length"@);
    lemma_lookup_skip(s16, "cmp"@, Builtin::Cmp, "length"@);
    lemma_lookup_skip(s15, "writefile"@, Builtin::WriteFile, "length"@);
    lemma_lookup_skip(s14, "substr"@, Builtin::Substr, "length"@);
    lemma_lookup_skip(s13, "strpos"@, Builtin::StrPos, "length"@);
    lemma_lookup_skip(s12, "setvar"@, Builtin::SetVar, "length"@);
    lemma_lookup_skip(s11, "repeat"@, Builtin::Repeat, "length"@);
    lemma_lookup_skip(s10, "readfile"@, Builtin::ReadFile, "length"@);
    lemma_lookup_skip(s9, "random"@, Builtin::Random, "length"@);
    lemma_lookup_skip(s8, "math"@, Builtin::Math, "length"@);
    assert(s8[0] == ("length"@, Builtin::Length));
    assert(crate::evaluator::lookup_builtin(s8, "length"@) == Some(Builtin::Length));
    assert(crate::evaluator::lookup_builtin(s19, "length"@) == Some(Builtin::Length));
    lemma_lookup_skip(s18, "sleep"@, Builtin::Sleep, "math"@);
    lemma_lookup_skip(s17, "echo"@, Builtin::Echo, "math"@);
    lemma_lookup_skip(s16, "cmp"@, Builtin::Cmp, "math"@);
    lemma_lookup_skip(s15, "writefile"@, Builtin::WriteFile, "math"@);
    lemma_lookup_skip(s14, "substr"@, Builtin::Substr, "math"@);
    lemma_lookup_skip(s13, "strpos"@, Builtin::StrPos, "math"@);
    lemma_lookup_skip(s12, "setvar"@, Builtin::SetVar, "math"@);
    lemma_lookup_skip(s11, "repeat"@, Builtin::Repeat, "math"@);
    lemma_lookup_skip(s10, "readfile"@, Builtin::ReadFile, "math"@);
    lemma_lookup_skip(s9, "random"@, Builtin::Random, "math"@);
    assert(s9[0] == ("math"@, Builtin::Math));
    assert(crate::evaluator::lookup_builtin(s9, "math"@) == Some(Builtin::Math));
    assert(crate::evaluator::lookup_builtin(s19, "math"@) == Some(Builtin::Math));
    lemma_lookup_skip(s18, "sleep"@, Builtin::Sleep, "random"@);
    lemma_lookup_skip(s17, "echo"@, Builtin::Echo, "random"@);
    lemma_lookup_skip(s16, "cmp"@, Builtin::Cmp, "random"@);
    lemma_lookup_skip(s15, "writefile"@, Builtin::WriteFile, "random"@);
    lemma_lookup_skip(s14, "substr"@, Builtin::Substr, "random"@);
    lemma_lookup_skip(s13, "strpos"@, Builtin::StrPos, "random"@);
    lemma_lookup_skip(s12, "setvar"@, Builtin::SetVar, "random"@);
    lemma_lookup_skip(s11, "repeat"@, Builtin::Repeat, "random"@);
    lemma_lookup_skip(s10, "readfile"@, Builtin::ReadFile, "random"@);
    assert(s10[0] == ("random"@, Builtin::Random));
    assert(crate::evaluator::lookup_builtin(s10, "random"@) == Some(Builtin::Random));
    assert(crate::evaluator::lookup_builtin(s19, "random"@) == Some(Builtin::Random));
    lemma_lookup_skip(s18, "sleep"@, Builtin::Sleep, "readfile"@);
    lemma_lookup_skip(s17, "echo"@, Builtin::Echo, "readfile"@);
    lemma_lookup_skip(s16, "cmp"@, Builtin::Cmp, "readfile"@);
    lemma_lookup_skip(s15, "writefile"@, Builtin::WriteFile, "readfile"@);
    lemma_lookup_skip(s14, "substr"@, Builtin::Substr, "readfile"@);
    lemma_lookup_skip(s13, "strpos"@, Builtin::StrPos, "readfile"@);
    lemma_lookup_skip(s12, "setvar"@, Builtin::SetVar, "readfile"@);
    lemma_lookup_skip(s11, "repeat"@, Builtin::Repeat, "readfile"@);
    assert(s11[0] == ("readfile"@, Builtin::ReadFile));
    assert(crate::evaluator::lookup_builtin(s11, "readfile"@) == Some(Builtin::ReadFile));
    assert(crate::evaluator::lookup_builtin(s19, "readfile"@) == Some(Builtin::ReadFile));
    lemma_lookup_skip(s18, "sleep"@, Builtin::Sleep, "repeat"@);
    lemma_lookup_skip(s17, "echo"@, Builtin::Echo, "repeat"@);
    lemma_lookup_skip(s16, "cmp"@, Builtin::Cmp, "repeat"@);
    lemma_lookup_skip(s15, "writefile"@, Builtin::WriteFile, "repeat"@);
    lemma_lookup_skip(s14, "substr"@, Builtin::Substr, "repeat"@);
    lemma_lookup_skip(s13, "strpos"@, Builtin::StrPos, "repeat"@);
    lemma_lookup_skip(s12, "setvar"@, Builtin::SetVar, "repeat"@);
    assert(s12[0] == ("repeat"@, Builtin::Repeat));
    assert(crate::evaluator::lookup_builtin(s12, "repeat"@) == Some(Builtin::Repeat));
    assert(crate::evaluator::lookup_builtin(s19, "repeat"@) == Some(Builtin::Repeat));
    lemma_lookup_skip(s18, "sleep"@, Builtin::Sleep, "setvar"@);
    lemma_lookup_skip(s17, "echo"@, Builtin::Echo, "setvar"@);
    lemma_lookup_skip(s16, "cmp"@, Builtin::Cmp, "setvar"@);
    lemma_lookup_skip(s15, "writefile"@, Builtin::WriteFile, "setvar"@);
    lemma_lookup_skip(s14, "substr"@, Builtin::Substr, "setvar"@);
    lemma_lookup_skip(s13, "strpos"@, Builtin::StrPos, "setvar"@);
    assert(s13[0] == ("setvar"@, Builtin::SetVar));
    assert(crate::evaluator::lookup_builtin(s13, "setvar"@) == Some(Builtin::SetVar));
    assert(crate::evaluator::lookup_builtin(s19, "setvar"@) == Some(Builtin::SetVar));
    lemma_lookup_skip(s18, "sleep"@, Builtin::Sleep, "strpos"@);
    lemma_lookup_skip(s17, "echo"@, Builtin::Echo, "strpos"@);
    lemma_lookup_skip(s16, "cmp"@, Builtin::Cmp, "strpos"@);
    lemma_lookup_skip(s15, "writefile"@, Builtin::WriteFile, "strpos"@);
    lemma_lookup_skip(s14, "substr"@, Builtin::Substr, "strpos"@);
    assert(s14[0] == ("strpos"@, Builtin::StrPos));
    assert(crate::evaluator::lookup_builtin(s14, "strpos"@) == Some(Builtin::StrPos));
    assert(crate::evaluator::lookup_builtin(s19, "strpos"@) == Some(Builtin::StrPos));
    lemma_lookup_skip(s18, "sleep"@, Builtin::Sleep, "substr"@);
    lemma_lookup_skip(s17, "echo"@, Builtin::Echo, "substr"@);
    lemma_lookup_skip(s16, "cmp"@, Builtin::Cmp, "substr"@);
    lemma_lookup_skip(s15, "writefile"@, Builtin::WriteFile, "substr"@);
    assert(s15[0] == ("substr"@, Builtin::Substr));
    assert(crate::evaluator::lookup_builtin(s15, "substr"@) == Some(Builtin::Substr));
    assert(crate::evaluator::lookup_builtin(s19, "substr"@) == Some(Builtin::Substr));
    lemma_lookup_skip(s18, "sleep"@, Builtin::Sleep, "writefile"@);
    lemma_lookup_skip(s17, "echo"@, Builtin::Echo, "writefile"@);
    lemma_lookup_skip(s16, "cmp"@, Builtin::Cmp, "writefile"@);
    assert(s16[0] == ("writefile"@, Builtin::WriteFile));
    assert(crate::evaluator::lookup_builtin(s16, "writefile"@) == Some(Builtin::WriteFile));
    assert(crate::evaluator::lookup_builtin(s19, "writefile"@) == Some(Builtin::WriteFile));
    lemma_lookup_skip(s18, "sleep"@, Builtin::Sleep, "cmp"@);
    lemma_lookup_skip(s17, "echo"@, Builtin::Echo, "cmp"@);
    assert(s17[0] == ("cmp"@, Builtin::Cmp));
    assert(crate::evaluator::lookup_builtin(s17, "cmp"@) == Some(Builtin::Cmp));
    assert(crate::evaluator::lookup_builtin(s19, "cmp"@) == Some(Builtin::Cmp));
    lemma_lookup_skip(s18, "sleep"@, Builtin::Sleep, "echo"@);
    assert(s18[0] == ("echo"@, Builtin::Echo));
    assert(crate::evaluator::lookup_builtin(s18, "echo"@) == Some(Builtin::Echo));
    assert(crate::evaluator::lookup_builtin(s19, "echo"@) == Some(Builtin::Echo));
    assert(s19[0] == ("sleep"@, Builtin::Sleep));
    assert(crate::evaluator::lookup_builtin(s19, "sleep"@) == Some(Builtin::Sleep));
    assert(crate::evaluator::lookup_builtin(s19, "sleep"@) == Some(Builtin::Sleep));
    assert(crate::evaluator::standard_registry(s19));
}

} // verus!
