//! `getvar` - read a variable whose name is computed at run time.

use vstd::prelude::*;
use crate::ast::Statement;
use vstd::string::StringExecFns;
use crate::error::BuclError;
use crate::evaluator::{Evaluator, RESOLVE_FUEL, spec_resolve};
use crate::functions::{Builtin, BuclFunction};

verus! {

/// What a dispatched `getvar` guarantees: the first argument resolved as a
/// variable name, an error without one; the evaluator is untouched.
pub open spec fn getvar_post(
    pre: Evaluator,
    post: Evaluator,
    values: Seq<Seq<char>>,
    r: Result<Option<String>, BuclError>,
) -> bool {
    &&& post == pre
    &&& values.len() == 0 ==> (r matches Err(e) && e is RuntimeError)
    &&& values.len() > 0 ==> (r matches Ok(v) && v matches Some(s) && s@ == spec_resolve(
        pre.vars_map(),
        values[0],
        RESOLVE_FUEL as nat,
    ))
}

pub struct GetVar;

impl BuclFunction for GetVar {
    /// Resolves the variable named by the first argument; an error without
    /// one.
    fn call(
        &self,
        evaluator: &mut Evaluator,
        target: Option<&str>,
        args: Vec<String>,
        block: Option<&[Statement]>,
        continuation: Option<&Statement>,
    ) -> (r: Result<Option<String>, BuclError>)
        ensures
            getvar_post(*old(evaluator), *final(evaluator), crate::text::seq_views(args@), r),
    {
        if args.len() == 0 {
            return Err(
                BuclError::RuntimeError(
                    String::from_str("getvar: requires a variable name"),
                ),
            );
        }
        Ok(Some(evaluator.resolve_var(args[0].as_str())))
    }
}

pub fn register(eval: &mut Evaluator)
    requires
        old(eval).wf(),
    ensures
        final(eval).wf(),
        final(eval).depth == old(eval).depth,
        final(eval).variables == old(eval).variables,
        final(eval).embedded_functions == old(eval).embedded_functions,
        final(eval).files == old(eval).files,
        final(eval).output_buffer == old(eval).output_buffer,
        final(eval).call_named_args == old(eval).call_named_args,
        final(eval).base_dir == old(eval).base_dir,
        crate::evaluator::reg_view(final(eval).functions@) == crate::evaluator::reg_view(old(eval).functions@).insert(0, ("getvar"@, Builtin::GetVar)),
{
    eval.register("getvar", Builtin::GetVar);
}

} // verus!
