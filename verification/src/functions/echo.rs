//! `echo` - emit one line of output.
//!
//! All arguments are joined with a single space and appended to the
//! evaluator's output collector; the host decides when to show them.

use vstd::prelude::*;
use crate::ast::Statement;
use crate::error::BuclError;
use crate::evaluator::{Evaluator, eq_except_output};
use crate::functions::{Builtin, BuclFunction};
use crate::text::{join_seqs, seq_views};

verus! {

/// What a dispatched `echo` guarantees: one line, the space-joined
/// arguments, appended to the output collector; nothing else changes.
pub open spec fn echo_post(
    pre: Evaluator,
    post: Evaluator,
    values: Seq<Seq<char>>,
    r: Result<Option<String>, BuclError>,
) -> bool {
    &&& r matches Ok(v) && v is None
    &&& eq_except_output(pre, post)
    &&& seq_views(post.output_buffer@) == seq_views(pre.output_buffer@).push(
        join_seqs(values, " "@),
    )
}

pub struct Echo;

impl BuclFunction for Echo {
    /// Appends the space-joined arguments as one output line.
    fn call(
        &self,
        evaluator: &mut Evaluator,
        target: Option<&str>,
        args: Vec<String>,
        block: Option<&[Statement]>,
        continuation: Option<&Statement>,
    ) -> (r: Result<Option<String>, BuclError>)
        ensures
            echo_post(*old(evaluator), *final(evaluator), seq_views(args@), r),
    {
        let value = crate::text::join_strings(&args, " ");
        evaluator.output_buffer.push(value);
        proof {
            assert(seq_views(evaluator.output_buffer@) =~= seq_views(
                old(evaluator).output_buffer@,
            ).push(join_seqs(seq_views(args@), " "@)));
            assert(old(evaluator).output_buffer@.is_prefix_of(evaluator.output_buffer@));
        }
        Ok(None)
    }
}

pub fn register(eval: &mut Evaluator)
    requires
        old(eval).wf(),
    ensures
        final(eval).wf(),
        final(eval).depth == old(eval).depth,
        final(eval).variables == old(eval).variables,
        final(eval).embedded_functions == old(eval).embedded_functions,
        final(eval).files == old(eval).files,
        final(eval).output_buffer == old(eval).output_buffer,
        final(eval).call_named_args == old(eval).call_named_args,
        final(eval).base_dir == old(eval).base_dir,
        crate::evaluator::reg_view(final(eval).functions@) == crate::evaluator::reg_view(old(eval).functions@).insert(0, ("echo"@, Builtin::Echo)),
{
    eval.register("echo", Builtin::Echo);
}

} // verus!
