//! `length` - the total character count across all arguments.

use vstd::prelude::*;
use crate::ast::Statement;
use crate::error::BuclError;
use crate::evaluator::Evaluator;
use crate::functions::{Builtin, BuclFunction};
use crate::text::{dec_rep, lemma_join_empty_len, seq_views, string_of, total_len, usize_to_dec};
use vstd::string::StrSliceExecFns;

verus! {

/// What a dispatched `length` guarantees: the total character count over
/// all arguments, as decimal text; the evaluator is untouched.
pub open spec fn length_post(
    pre: Evaluator,
    post: Evaluator,
    values: Seq<Seq<char>>,
    r: Result<Option<String>, BuclError>,
) -> bool {
    &&& post == pre
    &&& r matches Ok(v) && v matches Some(s) && s@ == dec_rep(total_len(values))
}

pub struct Length;

impl BuclFunction for Length {
    /// The number of characters over all arguments, as decimal text.
    fn call(
        &self,
        evaluator: &mut Evaluator,
        target: Option<&str>,
        args: Vec<String>,
        block: Option<&[Statement]>,
        continuation: Option<&Statement>,
    ) -> (r: Result<Option<String>, BuclError>)
        ensures
            length_post(*old(evaluator), *final(evaluator), seq_views(args@), r),
    {
        let joined = crate::text::join_strings(&args, "");
        let total = joined.as_str().unicode_len();
        proof {
            reveal_strlit("");
            assert(""@ =~= Seq::<char>::empty());
            lemma_join_empty_len(seq_views(args@));
        }
        Ok(Some(string_of(usize_to_dec(total).as_slice())))
    }
}

pub fn register(eval: &mut Evaluator)
    requires
        old(eval).wf(),
    ensures
        final(eval).wf(),
        final(eval).depth == old(eval).depth,
        final(eval).variables == old(eval).variables,
        final(eval).embedded_functions == old(eval).embedded_functions,
        final(eval).files == old(eval).files,
        final(eval).output_buffer == old(eval).output_buffer,
        final(eval).call_named_args == old(eval).call_named_args,
        final(eval).base_dir == old(eval).base_dir,
        crate::evaluator::reg_view(final(eval).functions@) == crate::evaluator::reg_view(old(eval).functions@).insert(0, ("length"@, Builtin::Length)),
{
    eval.register("length", Builtin::Length);
}

} // verus!
