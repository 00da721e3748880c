//! `random` - generate a random integer.
//!
//! With no arguments the range is 0 to the largest signed 64-bit value;
//! with one argument 0 to it, inclusive; with two arguments the inclusive
//! range between them. The `min` and `max` named arguments take precedence.

use vstd::prelude::*;
use vstd::string::StringExecFns;
use rand::Rng;
use crate::ast::Statement;
use crate::error::BuclError;
use crate::evaluator::Evaluator;
use crate::functions::{Builtin, BuclFunction};
use crate::text::{i64_lit_val, i64_to_dec, int_dec_rep, parse_i64, parses_as_i64, str_chars, string_of};

verus! {

/// The textual bounds chosen from named and positional arguments: `None`
/// stands for the default (zero below, the largest value above).
pub open spec fn random_bounds(
    named: Map<Seq<char>, Seq<char>>,
    args: Seq<Seq<char>>,
) -> (Option<Seq<char>>, Option<Seq<char>>) {
    if named.contains_key("min"@) && named.contains_key("max"@) {
        (Some(named["min"@]), Some(named["max"@]))
    } else if !named.contains_key("min"@) && named.contains_key("max"@) {
        (None, Some(named["max"@]))
    } else if args.len() == 0 {
        (None, None)
    } else if args.len() == 1 {
        (None, Some(args[0]))
    } else {
        (Some(args[0]), Some(args[1]))
    }
}

pub open spec fn bound_ok(b: Option<Seq<char>>) -> bool {
    match b {
        Some(s) => parses_as_i64(s),
        None => true,
    }
}

pub open spec fn min_val(b: Option<Seq<char>>) -> int {
    match b {
        Some(s) => i64_lit_val(s),
        None => 0,
    }
}

pub open spec fn max_val(b: Option<Seq<char>>) -> int {
    match b {
        Some(s) => i64_lit_val(s),
        None => i64::MAX as int,
    }
}

/// What a dispatched `random` guarantees: a decimal integer inside the
/// chosen inclusive range, errors for unparseable bounds or an empty
/// range; the evaluator is untouched. Nothing more is said of the drawn
/// value.
pub open spec fn random_post(
    pre: Evaluator,
    post: Evaluator,
    values: Seq<Seq<char>>,
    r: Result<Option<String>, BuclError>,
) -> bool {
    &&& post == pre
    &&& ({
        let bounds = random_bounds(pre.call_named_args.as_map(), values);
        if !(bound_ok(bounds.0) && bound_ok(bounds.1)) {
            r matches Err(e) && e is RuntimeError
        } else if min_val(bounds.0) > max_val(bounds.1) {
            r matches Err(e) && e is RuntimeError
        } else {
            r matches Ok(v) && v matches Some(s) && exists|x: int|
                min_val(bounds.0) <= x <= max_val(bounds.1) && s@ == int_dec_rep(x)
        }
    })
}

/// Relies on `rand::thread_rng` and `rand::Rng::gen_range`: a value drawn
/// from the inclusive range, which is non-empty here, so the call does not
/// panic. Nothing more is assumed of the outcome.
#[verifier::external_body]
fn random_in_range(min: i64, max: i64) -> (r: i64)
    requires
        min <= max,
    ensures
        min <= r <= max,
{
    rand::thread_rng().gen_range(min..=max)
}

pub struct Random;

impl BuclFunction for Random {
    /// A random integer in the chosen inclusive range, as decimal text; an
    /// error when a bound does not parse or the range is empty.
    fn call(
        &self,
        evaluator: &mut Evaluator,
        target: Option<&str>,
        args: Vec<String>,
        block: Option<&[Statement]>,
        continuation: Option<&Statement>,
    ) -> (r: Result<Option<String>, BuclError>)
        ensures
            random_post(*old(evaluator), *final(evaluator), crate::text::seq_views(args@), r),
    {
        let named_min: Option<String> = match evaluator.named_arg("min") {
            Some(v) => Some(v.clone()),
            None => None,
        };
        let named_max: Option<String> = match evaluator.named_arg("max") {
            Some(v) => Some(v.clone()),
            None => None,
        };
        let min_text: Option<String> = match (&named_min, &named_max) {
            (Some(mn), Some(_)) => Some(mn.clone()),
            (None, Some(_)) => None,
            _ => {
                if args.len() >= 2 {
                    Some(args[0].clone())
                } else {
                    None
                }
            },
        };
        let max_text: Option<String> = match (&named_min, &named_max) {
            (Some(_), Some(mx)) => Some(mx.clone()),
            (None, Some(mx)) => Some(mx.clone()),
            _ => {
                if args.len() == 0 {
                    None
                } else if args.len() == 1 {
                    Some(args[0].clone())
                } else {
                    Some(args[1].clone())
                }
            },
        };
        let min: i64 = match &min_text {
            Some(s) => match parse_i64(str_chars(s.as_str()).as_slice()) {
                Some(v) => v,
                None => {
                    return Err(
                        BuclError::RuntimeError(
                            String::from_str("random: not a valid integer"),
                        ),
                    );
                },
            },
            None => 0,
        };
        let max: i64 = match &max_text {
            Some(s) => match parse_i64(str_chars(s.as_str()).as_slice()) {
                Some(v) => v,
                None => {
                    return Err(
                        BuclError::RuntimeError(
                            String::from_str("random: not a valid integer"),
                        ),
                    );
                },
            },
            None => i64::MAX,
        };
        if min > max {
            return Err(
                BuclError::RuntimeError(String::from_str("random: min is greater than max")),
            );
        }
        let drawn = random_in_range(min, max);
        Ok(Some(string_of(i64_to_dec(drawn).as_slice())))
    }
}

pub fn register(eval: &mut Evaluator)
    requires
        old(eval).wf(),
    ensures
        final(eval).wf(),
        final(eval).depth == old(eval).depth,
        final(eval).variables == old(eval).variables,
        final(eval).embedded_functions == old(eval).embedded_functions,
        final(eval).files == old(eval).files,
        final(eval).output_buffer == old(eval).output_buffer,
        final(eval).call_named_args == old(eval).call_named_args,
        final(eval).base_dir == old(eval).base_dir,
        crate::evaluator::reg_view(final(eval).functions@) == crate::evaluator::reg_view(old(eval).functions@).insert(0, ("random"@, Builtin::Random)),
{
    eval.register("random", Builtin::Random);
}

} // verus!
