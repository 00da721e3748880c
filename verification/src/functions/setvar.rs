//! `setvar` - write a variable whose name is computed at run time.

use vstd::prelude::*;
use crate::ast::Statement;
use vstd::string::StringExecFns;
use crate::error::BuclError;
use crate::evaluator::{Evaluator, count_key, eq_except_vars, length_key};
use crate::functions::{Builtin, BuclFunction};
use crate::text::dec_rep;

verus! {

/// What a dispatched `setvar` guarantees: the second argument stored under
/// the first with the usual metadata; an error with fewer than two.
pub open spec fn setvar_post(
    pre: Evaluator,
    post: Evaluator,
    values: Seq<Seq<char>>,
    r: Result<Option<String>, BuclError>,
) -> bool {
    &&& values.len() < 2 ==> (r matches Err(e) && e is RuntimeError) && post == pre
    &&& values.len() >= 2 ==> ({
        &&& r matches Ok(v) && v is None
        &&& eq_except_vars(pre, post)
        &&& post.vars_map() == crate::evaluator::set_map(pre.vars_map(), values[0], values[1])
    })
}

pub struct SetVar;

impl BuclFunction for SetVar {
    /// Stores the second argument under the name given by the first, with
    /// the usual root-variable metadata; an error with fewer than two
    /// arguments.
    fn call(
        &self,
        evaluator: &mut Evaluator,
        target: Option<&str>,
        args: Vec<String>,
        block: Option<&[Statement]>,
        continuation: Option<&Statement>,
    ) -> (r: Result<Option<String>, BuclError>)
        ensures
            setvar_post(*old(evaluator), *final(evaluator), crate::text::seq_views(args@), r),
    {
        if args.len() < 2 {
            return Err(
                BuclError::RuntimeError(
                    String::from_str(
                        "setvar: requires a variable name and a value",
                    ),
                ),
            );
        }
        evaluator.set_var(args[0].as_str(), args[1].clone());
        Ok(None)
    }
}

pub fn register(eval: &mut Evaluator)
    requires
        old(eval).wf(),
    ensures
        final(eval).wf(),
        final(eval).depth == old(eval).depth,
        final(eval).variables == old(eval).variables,
        final(eval).embedded_functions == old(eval).embedded_functions,
        final(eval).files == old(eval).files,
        final(eval).output_buffer == old(eval).output_buffer,
        final(eval).call_named_args == old(eval).call_named_args,
        final(eval).base_dir == old(eval).base_dir,
        crate::evaluator::reg_view(final(eval).functions@) == crate::evaluator::reg_view(old(eval).functions@).insert(0, ("setvar"@, Builtin::SetVar)),
{
    eval.register("setvar", Builtin::SetVar);
}

} // verus!
