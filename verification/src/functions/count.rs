//! `count` - return the number of arguments passed.

use vstd::prelude::*;
use crate::ast::Statement;
use crate::error::BuclError;
use crate::evaluator::Evaluator;
use crate::functions::{Builtin, BuclFunction};
use crate::text::{dec_rep, string_of, usize_to_dec};

verus! {

/// What a dispatched `count` guarantees: the number of arguments, as
/// decimal text; the evaluator is untouched.
pub open spec fn count_post(
    pre: Evaluator,
    post: Evaluator,
    values: Seq<Seq<char>>,
    r: Result<Option<String>, BuclError>,
) -> bool {
    &&& post == pre
    &&& r matches Ok(v) && v matches Some(s) && s@ == dec_rep(values.len())
}

pub struct Count;

impl BuclFunction for Count {
    /// The number of arguments, as decimal text.
    fn call(
        &self,
        evaluator: &mut Evaluator,
        target: Option<&str>,
        args: Vec<String>,
        block: Option<&[Statement]>,
        continuation: Option<&Statement>,
    ) -> (r: Result<Option<String>, BuclError>)
        ensures
            count_post(*old(evaluator), *final(evaluator), crate::text::seq_views(args@), r),
    {
        Ok(Some(string_of(usize_to_dec(args.len()).as_slice())))
    }
}

pub fn register(eval: &mut Evaluator)
    requires
        old(eval).wf(),
    ensures
        final(eval).wf(),
        final(eval).depth == old(eval).depth,
        final(eval).variables == old(eval).variables,
        final(eval).embedded_functions == old(eval).embedded_functions,
        final(eval).files == old(eval).files,
        final(eval).output_buffer == old(eval).output_buffer,
        final(eval).call_named_args == old(eval).call_named_args,
        final(eval).base_dir == old(eval).base_dir,
        crate::evaluator::reg_view(final(eval).functions@) == crate::evaluator::reg_view(old(eval).functions@).insert(0, ("count"@, Builtin::Count)),
{
    eval.register("count", Builtin::Count);
}

} // verus!
