//! `if` / `elseif` / `else` - conditional execution.
//!
//! A condition has the form `lhs op rhs` with `op` one of `=`, `!=`, `>`,
//! `<`, `>=`, `<=`. For the ordering operators, numeric comparison is used
//! when both sides parse as plain decimal numbers; otherwise the comparison
//! is lexicographic on the text. On true the attached block runs; on false
//! control passes to the continuation, which may be another `if` (as
//! `elseif`) or an unconditional `else`.

use vstd::prelude::*;
use crate::ast::{Statement, stmt_height, stmts_height};
use crate::error::BuclError;
use crate::evaluator::Evaluator;
use crate::functions::{Builtin, BuclFunction, opt_block_height, opt_cont_height};
use crate::text::{
    cmp_parsed_dec, dec_lit_ok, lex_lt, lex_lt_exec, num_cmp, parse_dec, str_chars, str_eq,
};

verus! {

/// What a condition means. Equality operators compare text exactly; the
/// ordering operators compare numerically when both sides are decimal
/// literals and lexicographically otherwise; an unknown operator is false.
pub open spec fn spec_condition(lhs: Seq<char>, op: Seq<char>, rhs: Seq<char>) -> bool {
    if op == "="@ {
        lhs == rhs
    } else if op == "!="@ {
        lhs != rhs
    } else if op == ">"@ || op == "<"@ || op == ">="@ || op == "<="@ {
        if dec_lit_ok(lhs) && dec_lit_ok(rhs) {
            let c = num_cmp(lhs, rhs);
            if op == ">"@ {
                c > 0
            } else if op == "<"@ {
                c < 0
            } else if op == ">="@ {
                c >= 0
            } else {
                c <= 0
            }
        } else {
            if op == ">"@ {
                lex_lt(rhs, lhs)
            } else if op == "<"@ {
                lex_lt(lhs, rhs)
            } else if op == ">="@ {
                !lex_lt(lhs, rhs)
            } else {
                !lex_lt(rhs, lhs)
            }
        }
    } else {
        false
    }
}

/// Evaluate a condition `lhs op rhs`.
pub fn evaluate_condition(lhs: &str, op: &str, rhs: &str) -> (r: bool)
    ensures
        r == spec_condition(lhs@, op@, rhs@),
{
    if str_eq(op, "=") {
        return str_eq(lhs, rhs);
    }
    if str_eq(op, "!=") {
        return !str_eq(lhs, rhs);
    }
    let gt = str_eq(op, ">");
    let lt = str_eq(op, "<");
    let ge = str_eq(op, ">=");
    let le = str_eq(op, "<=");
    if !(gt || lt || ge || le) {
        return false;
    }
    let lc = str_chars(lhs);
    let rc = str_chars(rhs);
    let pl = parse_dec(lc.as_slice());
    let pr = parse_dec(rc.as_slice());
    match (pl, pr) {
        (Some(a), Some(b)) => {
            let c = cmp_parsed_dec(a, b, Ghost(lhs@), Ghost(rhs@));
            if gt {
                c > 0
            } else if lt {
                c < 0
            } else if ge {
                c >= 0
            } else {
                c <= 0
            }
        },
        _ => {
            if gt {
                lex_lt_exec(rc.as_slice(), lc.as_slice())
            } else if lt {
                lex_lt_exec(lc.as_slice(), rc.as_slice())
            } else if ge {
                !lex_lt_exec(lc.as_slice(), rc.as_slice())
            } else {
                !lex_lt_exec(rc.as_slice(), lc.as_slice())
            }
        },
    }
}

pub struct IfFn;

impl BuclFunction for IfFn {
    /// Evaluates the three-argument condition (anything else counts as
    /// false); on true runs the block, on false the continuation. Exactly
    /// what this allows is `if_step`.
    fn call(
        &self,
        evaluator: &mut Evaluator,
        target: Option<&str>,
        args: Vec<String>,
        block: Option<&[Statement]>,
        continuation: Option<&Statement>,
    ) -> (r: Result<Option<String>, BuclError>)
        ensures
            crate::evaluator::if_step(
                *old(evaluator),
                *final(evaluator),
                crate::text::seq_views(args@),
                match block {
                    Some(b) => Some(b@),
                    None => None,
                },
                match continuation {
                    Some(c) => Some(*c),
                    None => None,
                },
                r,
            ),
        decreases evaluator.depth, opt_block_height(block) + opt_cont_height(continuation), 3int,
    {
        let ghost ev0 = *evaluator;
        let condition = if args.len() == 3 {
            evaluate_condition(args[0].as_str(), args[1].as_str(), args[2].as_str())
        } else {
            false
        };
        if condition {
            if let Some(b) = block {
                let res = evaluator.evaluate_statements(b);
                proof {
                    assert(crate::evaluator::witness_res(res));
                    assert(crate::evaluator::spec_eval_stmts(ev0, b@, *evaluator, res));
                }
                if let Err(e) = res {
                    return Err(e);
                }
            }
        } else if let Some(cont) = continuation {
            let res = evaluator.evaluate_statement(cont);
            proof {
                assert(crate::evaluator::witness_res(res));
                assert(crate::evaluator::spec_eval_stmt(ev0, *cont, *evaluator, res));
            }
            if let Err(e) = res {
                return Err(e);
            }
        }
        Ok(None)
    }
}

pub struct ElseFn;

impl BuclFunction for ElseFn {
    /// Runs its block unconditionally; exactly what this allows is
    /// `else_step`.
    fn call(
        &self,
        evaluator: &mut Evaluator,
        target: Option<&str>,
        args: Vec<String>,
        block: Option<&[Statement]>,
        continuation: Option<&Statement>,
    ) -> (r: Result<Option<String>, BuclError>)
        ensures
            crate::evaluator::else_step(
                *old(evaluator),
                *final(evaluator),
                match block {
                    Some(b) => Some(b@),
                    None => None,
                },
                r,
            ),
        decreases evaluator.depth, opt_block_height(block) + opt_cont_height(continuation), 3int,
    {
        let ghost ev0 = *evaluator;
        if let Some(b) = block {
            let res = evaluator.evaluate_statements(b);
            proof {
                assert(crate::evaluator::witness_res(res));
                assert(crate::evaluator::spec_eval_stmts(ev0, b@, *evaluator, res));
            }
            if let Err(e) = res {
                return Err(e);
            }
        }
        Ok(None)
    }
}

pub fn register(eval: &mut Evaluator)
    requires
        old(eval).wf(),
    ensures
        final(eval).wf(),
        final(eval).depth == old(eval).depth,
        final(eval).variables == old(eval).variables,
        final(eval).embedded_functions == old(eval).embedded_functions,
        final(eval).files == old(eval).files,
        final(eval).output_buffer == old(eval).output_buffer,
        final(eval).call_named_args == old(eval).call_named_args,
        final(eval).base_dir == old(eval).base_dir,
        crate::evaluator::reg_view(final(eval).functions@) == crate::evaluator::reg_view(old(eval).functions@).insert(0, ("if"@, Builtin::If)).insert(0, ("elseif"@, Builtin::If)).insert(0, ("else"@, Builtin::Else)),
{
    eval.register("if", Builtin::If);
    eval.register("elseif", Builtin::If);
    eval.register("else", Builtin::Else);
}

} // verus!
