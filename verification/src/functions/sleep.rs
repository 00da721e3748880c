//! `sleep` - pause execution for a number of seconds.
//!
//! The engine validates the duration; the pause itself is the host's
//! concern, since the evaluator has no clock. A missing, malformed or
//! negative duration is a runtime error.

use vstd::prelude::*;
use vstd::string::StringExecFns;
use crate::ast::Statement;
use crate::error::BuclError;
use crate::evaluator::Evaluator;
use crate::functions::{Builtin, BuclFunction};
use crate::text::{
    cmp_parsed_dec, dec_lit_neg, dec_lit_ok, num_cmp, parse_dec, str_chars,
};

verus! {

/// What a dispatched `sleep` guarantees: the duration validated, the
/// evaluator untouched; missing, malformed or negative durations are
/// errors.
pub open spec fn sleep_post(
    pre: Evaluator,
    post: Evaluator,
    values: Seq<Seq<char>>,
    r: Result<Option<String>, BuclError>,
) -> bool {
    &&& post == pre
    &&& values.len() == 0 ==> (r matches Err(e) && e is RuntimeError)
    &&& values.len() > 0 && !dec_lit_ok(values[0]) ==> (r matches Err(e) && e is RuntimeError)
    &&& values.len() > 0 && dec_lit_ok(values[0]) ==> (if dec_lit_neg(values[0]) && num_cmp(
        values[0],
        "0"@,
    ) != 0 {
        r matches Err(e) && e is RuntimeError
    } else {
        r matches Ok(v) && v is None
    })
}

pub struct Sleep;

impl BuclFunction for Sleep {
    /// Accepts a non-negative decimal number of seconds and leaves the
    /// evaluator unchanged; anything else is a runtime error.
    fn call(
        &self,
        evaluator: &mut Evaluator,
        target: Option<&str>,
        args: Vec<String>,
        block: Option<&[Statement]>,
        continuation: Option<&Statement>,
    ) -> (r: Result<Option<String>, BuclError>)
        ensures
            sleep_post(*old(evaluator), *final(evaluator), crate::text::seq_views(args@), r),
    {
        if args.len() == 0 {
            return Err(
                BuclError::RuntimeError(String::from_str("sleep: expected a number of seconds")),
            );
        }
        let sc = str_chars(args[0].as_str());
        let parsed = match parse_dec(sc.as_slice()) {
            Some(p) => p,
            None => {
                return Err(
                    BuclError::RuntimeError(
                        String::from_str("sleep: not a valid number of seconds"),
                    ),
                );
            },
        };
        let neg = parsed.0;
        let zc = crate::functions::cmp::zero_parsed();
        proof {
            crate::functions::cmp::lemma_zero_lit();
        }
        let c = cmp_parsed_dec(parsed, zc, Ghost(args@[0]@), Ghost("0"@));
        if neg && c != 0 {
            return Err(
                BuclError::RuntimeError(String::from_str("sleep: duration must not be negative")),
            );
        }
        Ok(None)
    }
}

pub fn register(eval: &mut Evaluator)
    requires
        old(eval).wf(),
    ensures
        final(eval).wf(),
        final(eval).depth == old(eval).depth,
        final(eval).variables == old(eval).variables,
        final(eval).embedded_functions == old(eval).embedded_functions,
        final(eval).files == old(eval).files,
        final(eval).output_buffer == old(eval).output_buffer,
        final(eval).call_named_args == old(eval).call_named_args,
        final(eval).base_dir == old(eval).base_dir,
        crate::evaluator::reg_view(final(eval).functions@) == crate::evaluator::reg_view(old(eval).functions@).insert(0, ("sleep"@, Builtin::Sleep)),
{
    eval.register("sleep", Builtin::Sleep);
}

} // verus!
