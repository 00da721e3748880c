//! `readfile` - read a file's contents from the in-memory file table.
//!
//! The evaluator works against the table the host loaded beforehand; a path
//! that is not in it fails as an opaque storage error.

use vstd::prelude::*;
use vstd::string::StringExecFns;
use crate::ast::Statement;
use crate::error::BuclError;
use crate::evaluator::Evaluator;
use crate::functions::{Builtin, BuclFunction};

verus! {

/// What a dispatched `readfile` guarantees: the stored contents of the
/// path named by the `path` named argument or the first positional
/// argument; errors for a missing argument or an unknown path; the
/// evaluator is untouched.
pub open spec fn readfile_post(
    pre: Evaluator,
    post: Evaluator,
    values: Seq<Seq<char>>,
    r: Result<Option<String>, BuclError>,
) -> bool {
    &&& post == pre
    &&& ({
        let named = pre.call_named_args.as_map();
        let files = pre.files.as_map();
        let path: Option<Seq<char>> = if named.contains_key("path"@) {
            Some(named["path"@])
        } else if values.len() > 0 {
            Some(values[0])
        } else {
            None
        };
        match path {
            None => r matches Err(e) && e is RuntimeError,
            Some(p) => if files.contains_key(p) {
                r matches Ok(v) && v matches Some(s) && s@ == files[p]
            } else {
                r matches Err(e) && e is IoError
            },
        }
    })
}

pub struct ReadFile;

impl BuclFunction for ReadFile {
    /// The contents stored for the path given by the `path` named argument
    /// or the first positional argument; a missing path argument is a
    /// runtime error, an unknown path a storage error.
    fn call(
        &self,
        evaluator: &mut Evaluator,
        target: Option<&str>,
        args: Vec<String>,
        block: Option<&[Statement]>,
        continuation: Option<&Statement>,
    ) -> (r: Result<Option<String>, BuclError>)
        ensures
            readfile_post(*old(evaluator), *final(evaluator), crate::text::seq_views(args@), r),
    {
        let path: String = match evaluator.named_arg("path") {
            Some(p) => p.clone(),
            None => {
                if args.len() > 0 {
                    args[0].clone()
                } else {
                    return Err(
                        BuclError::RuntimeError(
                            String::from_str("readfile: missing path argument"),
                        ),
                    );
                }
            },
        };
        match evaluator.files.get(path.as_str()) {
            Some(contents) => Ok(Some(contents.clone())),
            None => Err(BuclError::IoError(String::from_str("file not found"))),
        }
    }
}

pub fn register(eval: &mut Evaluator)
    requires
        old(eval).wf(),
    ensures
        final(eval).wf(),
        final(eval).depth == old(eval).depth,
        final(eval).variables == old(eval).variables,
        final(eval).embedded_functions == old(eval).embedded_functions,
        final(eval).files == old(eval).files,
        final(eval).output_buffer == old(eval).output_buffer,
        final(eval).call_named_args == old(eval).call_named_args,
        final(eval).base_dir == old(eval).base_dir,
        crate::evaluator::reg_view(final(eval).functions@) == crate::evaluator::reg_view(old(eval).functions@).insert(0, ("readfile"@, Builtin::ReadFile)),
{
    eval.register("readfile", Builtin::ReadFile);
}

} // verus!
