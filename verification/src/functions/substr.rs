//! `substr` - extract a substring by 0-based character index and length.

use vstd::prelude::*;
use vstd::slice::slice_subrange;
use vstd::string::StringExecFns;
use crate::ast::Statement;
use crate::error::BuclError;
use crate::evaluator::Evaluator;
use crate::functions::{Builtin, BuclFunction};
use crate::text::{parse_usize, parses_as_usize, str_chars, string_of};

verus! {

/// What `substr start length text` extracts: `length` characters from
/// `start`, both clamped to the text's end.
pub open spec fn substr_spec(start: nat, length: nat, text: Seq<char>) -> Seq<char> {
    let s0 = if start <= text.len() {
        start as int
    } else {
        text.len() as int
    };
    let e0: int = if start + length <= text.len() {
        (start + length) as int
    } else {
        text.len() as int
    };
    text.subrange(s0, if e0 < s0 {
        s0
    } else {
        e0
    })
}

/// What a dispatched `substr` guarantees: the clamped extraction, or an
/// error for missing or unparseable indices; the evaluator is untouched.
pub open spec fn substr_post(
    pre: Evaluator,
    post: Evaluator,
    values: Seq<Seq<char>>,
    r: Result<Option<String>, BuclError>,
) -> bool {
    &&& post == pre
    &&& values.len() < 3 ==> (r matches Err(e) && e is RuntimeError)
    &&& values.len() >= 3 && !(parses_as_usize(values[0]) && parses_as_usize(values[1])) ==> (
    r matches Err(e) && e is RuntimeError)
    &&& values.len() >= 3 && parses_as_usize(values[0]) && parses_as_usize(values[1]) ==> (
    r matches Ok(v) && v matches Some(s) && s@ == substr_spec(
        crate::text::dec_val(values[0]),
        crate::text::dec_val(values[1]),
        values[2],
    ))
}

pub struct Substr;

impl BuclFunction for Substr {
    /// Extracts per `substr_spec`; errors when an index does not parse or
    /// arguments are missing.
    fn call(
        &self,
        evaluator: &mut Evaluator,
        target: Option<&str>,
        args: Vec<String>,
        block: Option<&[Statement]>,
        continuation: Option<&Statement>,
    ) -> (r: Result<Option<String>, BuclError>)
        ensures
            substr_post(*old(evaluator), *final(evaluator), crate::text::seq_views(args@), r),
    {
        if args.len() < 3 {
            return Err(
                BuclError::RuntimeError(
                    String::from_str("substr: requires start, length, and string arguments"),
                ),
            );
        }
        let start = match parse_usize(str_chars(args[0].as_str()).as_slice()) {
            Some(v) => v,
            None => {
                return Err(
                    BuclError::RuntimeError(String::from_str("substr: invalid start index")),
                );
            },
        };
        let length = match parse_usize(str_chars(args[1].as_str()).as_slice()) {
            Some(v) => v,
            None => {
                return Err(BuclError::RuntimeError(String::from_str("substr: invalid length")));
            },
        };
        let chars = str_chars(args[2].as_str());
        let n = chars.len();
        let s0 = if start < n {
            start
        } else {
            n
        };
        let e0 = match start.checked_add(length) {
            Some(e) => if e < n {
                e
            } else {
                n
            },
            None => n,
        };
        let e1 = if e0 < s0 {
            s0
        } else {
            e0
        };
        let part = slice_subrange(chars.as_slice(), s0, e1);
        Ok(Some(string_of(part)))
    }
}

pub fn register(eval: &mut Evaluator)
    requires
        old(eval).wf(),
    ensures
        final(eval).wf(),
        final(eval).depth == old(eval).depth,
        final(eval).variables == old(eval).variables,
        final(eval).embedded_functions == old(eval).embedded_functions,
        final(eval).files == old(eval).files,
        final(eval).output_buffer == old(eval).output_buffer,
        final(eval).call_named_args == old(eval).call_named_args,
        final(eval).base_dir == old(eval).base_dir,
        crate::evaluator::reg_view(final(eval).functions@) == crate::evaluator::reg_view(old(eval).functions@).insert(0, ("substr"@, Builtin::Substr)),
{
    eval.register("substr", Builtin::Substr);
}

} // verus!
