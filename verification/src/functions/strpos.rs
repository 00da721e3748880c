//! `strpos` - the first occurrence of a needle inside a string.

use vstd::prelude::*;
use vstd::string::StringExecFns;
use crate::ast::Statement;
use crate::error::BuclError;
use crate::evaluator::Evaluator;
use crate::functions::{Builtin, BuclFunction};
use crate::text::{dec_rep, find_sub, find_sub_exec, str_chars, string_of, usize_to_dec};

verus! {

/// What a dispatched `strpos` guarantees: the character index of the first
/// occurrence or `-1`; an error with fewer than two arguments; the
/// evaluator is untouched.
pub open spec fn strpos_post(
    pre: Evaluator,
    post: Evaluator,
    values: Seq<Seq<char>>,
    r: Result<Option<String>, BuclError>,
) -> bool {
    &&& post == pre
    &&& values.len() < 2 ==> (r matches Err(e) && e is RuntimeError)
    &&& values.len() >= 2 ==> (r matches Ok(v) && v matches Some(s) && s@ == ({
        let f = find_sub(values[0], values[1], 0);
        if f >= 0 {
            dec_rep(f as nat)
        } else {
            "-1"@
        }
    }))
}

pub struct StrPos;

impl BuclFunction for StrPos {
    /// The 0-based character index of the first occurrence of the second
    /// argument inside the first, or `-1` when absent; an error with fewer
    /// than two arguments.
    fn call(
        &self,
        evaluator: &mut Evaluator,
        target: Option<&str>,
        args: Vec<String>,
        block: Option<&[Statement]>,
        continuation: Option<&Statement>,
    ) -> (r: Result<Option<String>, BuclError>)
        ensures
            strpos_post(*old(evaluator), *final(evaluator), crate::text::seq_views(args@), r),
    {
        if args.len() < 2 {
            return Err(
                BuclError::RuntimeError(
                    String::from_str("strpos: requires text and needle arguments"),
                ),
            );
        }
        let text = str_chars(args[0].as_str());
        let needle = str_chars(args[1].as_str());
        match find_sub_exec(text.as_slice(), needle.as_slice()) {
            Some(i) => Ok(Some(string_of(usize_to_dec(i).as_slice()))),
            None => Ok(Some(String::from_str("-1"))),
        }
    }
}

pub fn register(eval: &mut Evaluator)
    requires
        old(eval).wf(),
    ensures
        final(eval).wf(),
        final(eval).depth == old(eval).depth,
        final(eval).variables == old(eval).variables,
        final(eval).embedded_functions == old(eval).embedded_functions,
        final(eval).files == old(eval).files,
        final(eval).output_buffer == old(eval).output_buffer,
        final(eval).call_named_args == old(eval).call_named_args,
        final(eval).base_dir == old(eval).base_dir,
        crate::evaluator::reg_view(final(eval).functions@) == crate::evaluator::reg_view(old(eval).functions@).insert(0, ("strpos"@, Builtin::StrPos)),
{
    eval.register("strpos", Builtin::StrPos);
}

} // verus!
