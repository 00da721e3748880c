//! `each` - execute an indented block once for every argument.
//!
//! All items are stored into the target variable before iteration begins, so
//! the loop variable is a fully populated structured variable: the value
//! itself and `count` hold the item count, `length` the total character
//! count, and `0`, `1`, ... the items. During each iteration `index` and
//! `value` are updated. Without an explicit target the prefix is `e`.

use vstd::prelude::*;
use crate::ast::{Statement, stmts_height};
use crate::error::BuclError;
use crate::evaluator::{
    Evaluator, count_key, eq_except_vars, index_key, length_key,
};
use crate::functions::{Builtin, BuclFunction, opt_block_height, opt_cont_height};
use crate::text::{
    dec_rep, lemma_join_empty_len, seq_views, str_chars, string_of, total_len, usize_to_dec,
};
use vstd::string::StrSliceExecFns;

verus! {

/// The bulk store an `each` performs before iterating: the count under the
/// name itself (with its metadata), then the real count, the total length,
/// and every item under its index.
pub open spec fn each_map(
    m: Map<Seq<char>, Seq<char>>,
    prefix: Seq<char>,
    values: Seq<Seq<char>>,
) -> Map<Seq<char>, Seq<char>> {
    let cnt = dec_rep(values.len());
    let base = if prefix.contains('/') {
        m.insert(prefix, cnt)
    } else {
        m.insert(length_key(prefix), dec_rep(cnt.len())).insert(count_key(prefix), "1"@).insert(
            prefix,
            cnt,
        )
    };
    crate::functions::assign::insert_indexed(
        base.insert(count_key(prefix), cnt).insert(length_key(prefix), dec_rep(total_len(values))),
        prefix,
        values,
        values.len(),
    )
}

pub struct Each;

impl BuclFunction for Each {
    /// Populates the loop variable with `each_map`, then runs the block
    /// once per item with `index` and `value` updated; exactly what this
    /// allows is `each_step`.
#[verifier::rlimit(100)]
    #[verifier::spinoff_prover]
    fn call(
        &self,
        evaluator: &mut Evaluator,
        target: Option<&str>,
        args: Vec<String>,
        block: Option<&[Statement]>,
        continuation: Option<&Statement>,
    ) -> (r: Result<Option<String>, BuclError>)
        ensures
            crate::evaluator::each_step(
                *old(evaluator),
                *final(evaluator),
                match target {
                    Some(t) => Some(t@),
                    None => None,
                },
                seq_views(args@),
                match block {
                    Some(b) => Some(b@),
                    None => None,
                },
                r,
            ),
        decreases evaluator.depth, opt_block_height(block) + opt_cont_height(continuation), 3int,
    {
        let ghost ev0 = *evaluator;
        let prefix: &str = match target {
            Some(t) => t,
            None => "e",
        };
        let ghost vals = seq_views(args@);
        let count = args.len();
        let count_text = string_of(usize_to_dec(count).as_slice());

        evaluator.set_var(prefix, count_text.clone());
        let mut ck = string_of(str_chars(prefix).as_slice());
        ck.append("/count");
        evaluator.variables.insert(ck.as_str(), count_text);
        let joined = crate::text::join_strings(&args, "");
        let total = joined.as_str().unicode_len();
        proof {
            reveal_strlit("");
            assert(""@ =~= Seq::<char>::empty());
            lemma_join_empty_len(vals);
        }
        let mut lk = string_of(str_chars(prefix).as_slice());
        lk.append("/length");
        evaluator.variables.insert(lk.as_str(), string_of(usize_to_dec(total).as_slice()));

        let ghost mid = evaluator.vars_map();
        proof {
            let cnt = dec_rep(args@.len() as nat);
            let base = if prefix@.contains('/') {
                ev0.vars_map().insert(prefix@, cnt)
            } else {
                ev0.vars_map().insert(length_key(prefix@), dec_rep(cnt.len())).insert(
                    count_key(prefix@),
                    "1"@,
                ).insert(prefix@, cnt)
            };
            assert(mid == base.insert(count_key(prefix@), cnt).insert(
                length_key(prefix@),
                dec_rep(total_len(vals)),
            ));
        }
        let n = args.len();
        let mut i: usize = 0;
        while i < n
            invariant
                ev0 == *old(evaluator),
                evaluator.wf(),
                n == args@.len(),
                vals == seq_views(args@),
                i <= n,
                evaluator.vars_map() == crate::functions::assign::insert_indexed(
                    mid,
                    prefix@,
                    vals,
                    i as nat,
                ),
                eq_except_vars(ev0, *evaluator),
            decreases n - i,
        {
            let mut ik = string_of(str_chars(prefix).as_slice());
            ik.append("/");
            ik.append(string_of(usize_to_dec(i).as_slice()).as_str());
            proof {
                assert(ik@ == index_key(prefix@, i as nat));
            }
            let v = args[i].clone();
            evaluator.variables.insert(ik.as_str(), v);
            i = i + 1;
        }
        let ghost bulk = *evaluator;
        proof {
            assert(bulk.vars_map() == each_map(ev0.vars_map(), prefix@, vals));
        }

        if let Some(b) = block {
            let mut j: usize = 0;
            while j < n
                invariant
                    ev0 == *old(evaluator),
                    evaluator.wf(),
                    n == args@.len(),
                    vals == seq_views(args@),
                    j <= n,
                    block matches Some(bb) && bb@ == b@,
                    prefix@ == (match target {
                        Some(t) => t@,
                        None => "e"@,
                    }),
                    bulk.depth == ev0.depth,
                    bulk.vars_map() == each_map(ev0.vars_map(), prefix@, vals),
                    eq_except_vars(ev0, bulk),
                    bulk.variables.wf(),
                    evaluator.depth == ev0.depth,
                    stmts_height(b@) <= opt_block_height(block),
                    crate::evaluator::each_iters(bulk, prefix@, vals, b@, j as nat, *evaluator),
                    ev0.output_buffer@.is_prefix_of(evaluator.output_buffer@),
                decreases n - j,
            {
                let ghost cur = *evaluator;
                let mut xk = string_of(str_chars(prefix).as_slice());
                xk.append("/index");
                evaluator.variables.insert(xk.as_str(), string_of(usize_to_dec(j).as_slice()));
                let mut vk = string_of(str_chars(prefix).as_slice());
                vk.append("/value");
                let item = args[j].clone();
                evaluator.variables.insert(vk.as_str(), item);
                let ghost cur2 = *evaluator;
                proof {
                    assert(eq_except_vars(cur, cur2));
                    assert(cur2.vars_map() == cur.vars_map().insert(
                        prefix@ + "/index"@,
                        dec_rep(j as nat),
                    ).insert(prefix@ + "/value"@, vals[j as int]));
                }
                let res = evaluator.evaluate_statements(b);
                proof {
                    assert(crate::evaluator::witness_eval(cur2));
                    assert(crate::evaluator::spec_eval_stmts(cur2, b@, *evaluator, res));
                }
                match res {
                    Ok(_) => {
                        proof {
                            crate::evaluator::lemma_ok_unit(res);
                            assert(crate::evaluator::spec_eval_stmts(cur2, b@, *evaluator, Ok(())));
                            assert(crate::evaluator::block_run(
                                cur,
                                cur.vars_map().insert(prefix@ + "/index"@, dec_rep(j as nat))
                                    .insert(prefix@ + "/value"@, vals[j as int]),
                                b@,
                                *evaluator,
                                Ok(()),
                            ));
                            crate::evaluator::lemma_each_iters_step(
                                bulk,
                                prefix@,
                                vals,
                                b@,
                                j as nat,
                                cur,
                                *evaluator,
                            );
                        }
                    },
                    Err(e) => {
                        proof {
                            assert(crate::evaluator::block_run(
                                cur,
                                cur.vars_map().insert(prefix@ + "/index"@, dec_rep(j as nat))
                                    .insert(prefix@ + "/value"@, vals[j as int]),
                                b@,
                                *evaluator,
                                Err(e),
                            ));
                            assert(crate::evaluator::witness_eval(bulk));
                            assert(crate::evaluator::witness_iter(j as nat, cur, e));
                            assert(vals.len() == n);
                            assert(crate::evaluator::each_iters(
                                bulk,
                                prefix@,
                                vals,
                                b@,
                                j as nat,
                                cur,
                            ));
                            assert(vals[(j as nat) as int] == vals[j as int]);
                            assert(prefix@ == match (match target {
                                Some(t) => Some(t@),
                                None => None,
                            }) {
                                Some(t) => t,
                                None => "e"@,
                            });
                            assert(crate::evaluator::each_step(
                                ev0,
                                *evaluator,
                                match target {
                                    Some(t) => Some(t@),
                                    None => None,
                                },
                                vals,
                                Some(b@),
                                Err(e),
                            ));
                        }
                        return Err(e);
                    },
                }
                j = j + 1;
            }
            proof {
                assert(crate::evaluator::each_iters(
                    bulk,
                    prefix@,
                    vals,
                    b@,
                    vals.len(),
                    *evaluator,
                ));
            }
        }
        proof {
            assert(crate::evaluator::witness_eval(bulk));
            assert(crate::evaluator::witness_res(Ok(())));
            assert(crate::evaluator::each_step(
                ev0,
                *evaluator,
                match target {
                    Some(t) => Some(t@),
                    None => None,
                },
                vals,
                match block {
                    Some(bb) => Some(bb@),
                    None => None,
                },
                Ok(None),
            ));
        }
        Ok(None)
    }
}

pub fn register(eval: &mut Evaluator)
    requires
        old(eval).wf(),
    ensures
        final(eval).wf(),
        final(eval).depth == old(eval).depth,
        final(eval).variables == old(eval).variables,
        final(eval).embedded_functions == old(eval).embedded_functions,
        final(eval).files == old(eval).files,
        final(eval).output_buffer == old(eval).output_buffer,
        final(eval).call_named_args == old(eval).call_named_args,
        final(eval).base_dir == old(eval).base_dir,
        crate::evaluator::reg_view(final(eval).functions@) == crate::evaluator::reg_view(old(eval).functions@).insert(0, ("each"@, Builtin::Each)),
{
    eval.register("each", Builtin::Each);
}

} // verus!
