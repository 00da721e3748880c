//! `repeat` - execute an indented block a fixed number of times.
//!
//! The target variable is populated with the repeat count and its metadata
//! before iteration; during each iteration `index` holds the 1-based
//! iteration number. Without an explicit target the prefix is `r`. The
//! count comes from the `count` named argument or the first positional
//! argument.

use vstd::prelude::*;
use vstd::string::{StrSliceExecFns, StringExecFns};
use crate::ast::{Statement, stmts_height};
use crate::error::BuclError;
use crate::evaluator::{
    Evaluator, count_key, eq_except_vars, index_key, length_key,
};
use crate::functions::{Builtin, BuclFunction, opt_block_height, opt_cont_height};
use crate::text::{dec_rep, parse_usize, parses_as_usize, str_chars, string_of, usize_to_dec};

verus! {

/// The count argument: the `count` named argument, else the first
/// positional argument.
pub open spec fn repeat_count_arg(
    named: Map<Seq<char>, Seq<char>>,
    args: Seq<Seq<char>>,
) -> Option<Seq<char>> {
    if named.contains_key("count"@) {
        Some(named["count"@])
    } else if args.len() > 0 {
        Some(args[0])
    } else {
        None
    }
}

/// The store a `repeat` performs before iterating: the count under the name
/// itself (with metadata), then the count again under `count`.
pub open spec fn repeat_map(m: Map<Seq<char>, Seq<char>>, prefix: Seq<char>, count: nat) -> Map<
    Seq<char>,
    Seq<char>,
> {
    let cnt = dec_rep(count);
    let base = if prefix.contains('/') {
        m.insert(prefix, cnt)
    } else {
        m.insert(length_key(prefix), dec_rep(cnt.len())).insert(count_key(prefix), "1"@).insert(
            prefix,
            cnt,
        )
    };
    base.insert(count_key(prefix), cnt)
}

pub struct Repeat;

impl BuclFunction for Repeat {
    /// Runs the block as many times as the count argument says, with the
    /// 1-based `index` stored before each run; a missing or unreadable
    /// count is a runtime error. Exactly what this allows is `repeat_step`.
#[verifier::rlimit(60)]
    fn call(
        &self,
        evaluator: &mut Evaluator,
        target: Option<&str>,
        args: Vec<String>,
        block: Option<&[Statement]>,
        continuation: Option<&Statement>,
    ) -> (r: Result<Option<String>, BuclError>)
        ensures
            crate::evaluator::repeat_step(
                *old(evaluator),
                *final(evaluator),
                match target {
                    Some(t) => Some(t@),
                    None => None,
                },
                crate::text::seq_views(args@),
                match block {
                    Some(b) => Some(b@),
                    None => None,
                },
                r,
            ),
        decreases evaluator.depth, opt_block_height(block) + opt_cont_height(continuation), 3int,
    {
        let ghost ev0 = *evaluator;
        let ghost vals = crate::text::seq_views(args@);
        let prefix: &str = match target {
            Some(t) => t,
            None => "r",
        };
        let count_str: String = match evaluator.named_arg("count") {
            Some(c) => c.clone(),
            None => {
                if args.len() > 0 {
                    args[0].clone()
                } else {
                    return Err(
                        BuclError::RuntimeError(
                            String::from_str("repeat: missing count argument"),
                        ),
                    );
                }
            },
        };
        let count: usize = match parse_usize(str_chars(count_str.as_str()).as_slice()) {
            Some(c) => c,
            None => {
                return Err(
                    BuclError::RuntimeError(String::from_str("repeat: not a valid count")),
                );
            },
        };

        let count_text = string_of(usize_to_dec(count).as_slice());
        evaluator.set_var(prefix, count_text.clone());
        let mut ck = string_of(str_chars(prefix).as_slice());
        ck.append("/count");
        evaluator.variables.insert(ck.as_str(), count_text);
        let ghost bulk = *evaluator;
        proof {
            assert(bulk.vars_map() == repeat_map(ev0.vars_map(), prefix@, count as nat));
        }

        if let Some(b) = block {
            let mut i: usize = 0;
            while i < count
                invariant
                    ev0 == *old(evaluator),
                    evaluator.wf(),
                    vals == crate::text::seq_views(args@),
                    i <= count,
                    block matches Some(bb) && bb@ == b@,
                    prefix@ == (match target {
                        Some(t) => t@,
                        None => "r"@,
                    }),
                    repeat_count_arg(ev0.call_named_args.as_map(), vals) matches Some(cs)
                        && parses_as_usize(cs) && crate::text::dec_val(cs) == count as nat,
                    bulk.depth == ev0.depth,
                    bulk.vars_map() == repeat_map(ev0.vars_map(), prefix@, count as nat),
                    eq_except_vars(ev0, bulk),
                    bulk.variables.wf(),
                    evaluator.depth == ev0.depth,
                    stmts_height(b@) <= opt_block_height(block),
                    crate::evaluator::repeat_iters(bulk, prefix@, b@, i as nat, *evaluator),
                    ev0.output_buffer@.is_prefix_of(evaluator.output_buffer@),
                decreases count - i,
            {
                let ghost cur = *evaluator;
                let mut xk = string_of(str_chars(prefix).as_slice());
                xk.append("/index");
                evaluator.variables.insert(xk.as_str(), string_of(usize_to_dec(i + 1).as_slice()));
                let ghost cur2 = *evaluator;
                proof {
                    assert(eq_except_vars(cur, cur2));
                    assert(cur2.vars_map() == cur.vars_map().insert(
                        prefix@ + "/index"@,
                        dec_rep((i + 1) as nat),
                    ));
                }
                let res = evaluator.evaluate_statements(b);
                proof {
                    assert(crate::evaluator::witness_eval(cur2));
                    assert(crate::evaluator::spec_eval_stmts(cur2, b@, *evaluator, res));
                }
                match res {
                    Ok(_) => {
                        proof {
                            crate::evaluator::lemma_ok_unit(res);
                            assert(crate::evaluator::spec_eval_stmts(cur2, b@, *evaluator, Ok(())));
                            assert(crate::evaluator::block_run(
                                cur,
                                cur.vars_map().insert(prefix@ + "/index"@, dec_rep((i + 1) as nat)),
                                b@,
                                *evaluator,
                                Ok(()),
                            ));
                            crate::evaluator::lemma_repeat_iters_step(
                                bulk,
                                prefix@,
                                b@,
                                i as nat,
                                cur,
                                *evaluator,
                            );
                            assert(crate::evaluator::repeat_iters(
                                bulk,
                                prefix@,
                                b@,
                                (i + 1) as nat,
                                *evaluator,
                            ));
                        }
                    },
                    Err(e) => {
                        proof {
                            assert(crate::evaluator::block_run(
                                cur,
                                cur.vars_map().insert(prefix@ + "/index"@, dec_rep((i + 1) as nat)),
                                b@,
                                *evaluator,
                                Err(e),
                            ));
                            assert(crate::evaluator::witness_eval(bulk));
                            assert(crate::evaluator::witness_iter(i as nat, cur, e));
                            assert(crate::evaluator::repeat_iters(
                                bulk,
                                prefix@,
                                b@,
                                i as nat,
                                cur,
                            ));
                            assert(crate::evaluator::repeat_step(
                                ev0,
                                *evaluator,
                                match target {
                                    Some(t) => Some(t@),
                                    None => None,
                                },
                                vals,
                                Some(b@),
                                Err(e),
                            ));
                        }
                        return Err(e);
                    },
                }
                i = i + 1;
            }
            proof {
                assert(crate::evaluator::repeat_iters(
                    bulk,
                    prefix@,
                    b@,
                    count as nat,
                    *evaluator,
                ));
            }
        }
        proof {
            assert(crate::evaluator::witness_eval(bulk));
            assert(crate::evaluator::witness_res(Ok(())));
            assert(crate::evaluator::repeat_step(
                ev0,
                *evaluator,
                match target {
                    Some(t) => Some(t@),
                    None => None,
                },
                vals,
                match block {
                    Some(bb) => Some(bb@),
                    None => None,
                },
                Ok(None),
            ));
        }
        Ok(None)
    }
}

pub fn register(eval: &mut Evaluator)
    requires
        old(eval).wf(),
    ensures
        final(eval).wf(),
        final(eval).depth == old(eval).depth,
        final(eval).variables == old(eval).variables,
        final(eval).embedded_functions == old(eval).embedded_functions,
        final(eval).files == old(eval).files,
        final(eval).output_buffer == old(eval).output_buffer,
        final(eval).call_named_args == old(eval).call_named_args,
        final(eval).base_dir == old(eval).base_dir,
        crate::evaluator::reg_view(final(eval).functions@) == crate::evaluator::reg_view(old(eval).functions@).insert(0, ("repeat"@, Builtin::Repeat)),
{
    eval.register("repeat", Builtin::Repeat);
}

} // verus!
