//! `writefile` - write a file into the in-memory file table.
//!
//! The host collects the table's contents after the run and persists them.

use vstd::prelude::*;
use vstd::string::StringExecFns;
use crate::ast::Statement;
use crate::error::BuclError;
use crate::evaluator::{Evaluator, eq_except_files};
use crate::functions::{Builtin, BuclFunction};
use crate::text::{join_seqs, seq_views};

verus! {

/// The content written: the `content` named argument, else the second and
/// following positional arguments concatenated.
pub open spec fn write_content(named: Map<Seq<char>, Seq<char>>, args: Seq<Seq<char>>) -> Seq<
    char,
> {
    if named.contains_key("content"@) {
        named["content"@]
    } else if args.len() > 1 {
        join_seqs(args.skip(1), Seq::empty())
    } else {
        Seq::empty()
    }
}

/// What a dispatched `writefile` guarantees: the content stored under the
/// chosen path in the file table and returned; a missing path argument is
/// an error.
pub open spec fn writefile_post(
    pre: Evaluator,
    post: Evaluator,
    values: Seq<Seq<char>>,
    r: Result<Option<String>, BuclError>,
) -> bool {
    let named = pre.call_named_args.as_map();
    let path: Option<Seq<char>> = if named.contains_key("path"@) {
        Some(named["path"@])
    } else if values.len() > 0 {
        Some(values[0])
    } else {
        None
    };
    match path {
        None => (r matches Err(e) && e is RuntimeError) && post == pre,
        Some(p) => ({
            &&& eq_except_files(pre, post)
            &&& post.files.as_map() == pre.files.as_map().insert(
                p,
                write_content(named, values),
            )
            &&& r matches Ok(v) && v matches Some(s) && s@ == write_content(named, values)
        }),
    }
}

pub struct WriteFile;

impl BuclFunction for WriteFile {
    /// Stores the content under the path given by the `path` named argument
    /// or the first positional argument, and returns the content written; a
    /// missing path is a runtime error.
    fn call(
        &self,
        evaluator: &mut Evaluator,
        target: Option<&str>,
        args: Vec<String>,
        block: Option<&[Statement]>,
        continuation: Option<&Statement>,
    ) -> (r: Result<Option<String>, BuclError>)
        ensures
            writefile_post(*old(evaluator), *final(evaluator), seq_views(args@), r),
    {
        let path: String = match evaluator.named_arg("path") {
            Some(p) => p.clone(),
            None => {
                if args.len() > 0 {
                    args[0].clone()
                } else {
                    return Err(
                        BuclError::RuntimeError(
                            String::from_str("writefile: requires a path and content"),
                        ),
                    );
                }
            },
        };
        let content: String = match evaluator.named_arg("content") {
            Some(c) => c.clone(),
            None => {
                if args.len() > 1 {
                    let mut rest: Vec<String> = Vec::new();
                    let n = args.len();
                    let mut i: usize = 1;
                    while i < n
                        invariant
                            n == args@.len(),
                            1 <= i <= n,
                            rest@.len() == i - 1,
                            seq_views(rest@) == seq_views(args@).skip(1).subrange(0, i - 1),
                        decreases n - i,
                    {
                        let v = args[i].clone();
                        let ghost rest_pre = rest@;
                        rest.push(v);
                        proof {
                            let sk = seq_views(args@).skip(1);
                            assert(rest@[i - 1]@ == sk[i - 1]);
                            assert forall|j: int| 0 <= j < i implies seq_views(rest@)[j]
                                == sk.subrange(0, i as int)[j] by {
                                if j < i - 1 {
                                    assert(rest@[j] == rest_pre[j]);
                                    assert(seq_views(rest@)[j] == seq_views(rest_pre)[j]);
                                }
                            }
                            assert(seq_views(rest@) =~= sk.subrange(0, i as int));
                        }
                        i = i + 1;
                    }
                    proof {
                        let sk = seq_views(args@).skip(1);
                        assert(sk.subrange(0, sk.len() as int) =~= sk);
                    }
                    let joined = crate::text::join_strings(&rest, "");
                    proof {
                        reveal_strlit("");
                        assert(""@ =~= Seq::<char>::empty());
                    }
                    joined
                } else {
                    String::new()
                }
            },
        };
        evaluator.files.insert(path.as_str(), content.clone());
        Ok(Some(content))
    }
}

pub fn register(eval: &mut Evaluator)
    requires
        old(eval).wf(),
    ensures
        final(eval).wf(),
        final(eval).depth == old(eval).depth,
        final(eval).variables == old(eval).variables,
        final(eval).embedded_functions == old(eval).embedded_functions,
        final(eval).files == old(eval).files,
        final(eval).output_buffer == old(eval).output_buffer,
        final(eval).call_named_args == old(eval).call_named_args,
        final(eval).base_dir == old(eval).base_dir,
        crate::evaluator::reg_view(final(eval).functions@) == crate::evaluator::reg_view(old(eval).functions@).insert(0, ("writefile"@, Builtin::WriteFile)),
{
    eval.register("writefile", Builtin::WriteFile);
}

} // verus!
