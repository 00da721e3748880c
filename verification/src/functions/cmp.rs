//! `cmp` - numeric comparison of two values.
//!
//! Returns `"1"` when the first is greater, `"-1"` when smaller, `"0"` when
//! equal. A value that is not a plain decimal number counts as zero.

use vstd::prelude::*;
use vstd::string::StringExecFns;
use crate::ast::Statement;
use crate::error::BuclError;
use crate::evaluator::Evaluator;
use crate::functions::{Builtin, BuclFunction};
use crate::text::{
    cmp_parsed_dec, dec_lit_frac, dec_lit_int, dec_lit_neg, dec_lit_ok, num_cmp, parse_dec,
    str_chars,
};

verus! {

/// A comparison operand: itself when it is a decimal literal, zero
/// otherwise.
pub open spec fn cmp_operand(s: Seq<char>) -> Seq<char> {
    if dec_lit_ok(s) {
        s
    } else {
        "0"@
    }
}

/// `"0"` is a decimal literal, and not a negative one.
pub proof fn lemma_zero_lit()
    ensures
        dec_lit_ok("0"@),
        !dec_lit_neg("0"@),
{
    reveal_strlit("0");
    let t = crate::text::dec_lit_body("0"@);
    assert(t =~= "0"@);
    crate::text::lemma_first_idx(t, '.');
    assert(crate::text::is_digit_char(t[0])) by {
        assert(t[0] == '0');
    }
    assert(crate::text::first_idx(t, '.') == t.len()) by {
        if crate::text::first_idx(t, '.') < t.len() {
            assert(t[crate::text::first_idx(t, '.')] == '.');
        }
    }
}

/// The parsed form of the literal zero.
pub fn zero_parsed() -> (r: (bool, Vec<char>, Vec<char>))
    ensures
        dec_lit_ok("0"@),
        r.0 == dec_lit_neg("0"@),
        r.1@ == dec_lit_int("0"@),
        r.2@ == dec_lit_frac("0"@),
{
    let mut v: Vec<char> = Vec::new();
    v.push('0');
    proof {
        reveal_strlit("0");
        assert(v@ =~= "0"@);
        lemma_zero_lit();
    }
    match parse_dec(v.as_slice()) {
        Some(p) => p,
        None => {
            proof {
                assert(false);
            }
            (false, Vec::new(), Vec::new())
        },
    }
}

/// What a dispatched `cmp` guarantees: the sign of the numeric comparison
/// as text, non-numbers counting as zero; an error with fewer than two
/// arguments; the evaluator is untouched.
pub open spec fn cmp_post(
    pre: Evaluator,
    post: Evaluator,
    values: Seq<Seq<char>>,
    r: Result<Option<String>, BuclError>,
) -> bool {
    &&& post == pre
    &&& values.len() < 2 ==> (r matches Err(e) && e is RuntimeError)
    &&& values.len() >= 2 ==> (r matches Ok(v) && v matches Some(s) && s@ == ({
        let c = num_cmp(cmp_operand(values[0]), cmp_operand(values[1]));
        if c > 0 {
            "1"@
        } else if c < 0 {
            "-1"@
        } else {
            "0"@
        }
    }))
}

pub struct Cmp;

impl BuclFunction for Cmp {
    /// `"1"`, `"-1"` or `"0"` as the first argument is numerically greater
    /// than, smaller than, or equal to the second; an error with fewer than
    /// two arguments.
    fn call(
        &self,
        evaluator: &mut Evaluator,
        target: Option<&str>,
        args: Vec<String>,
        block: Option<&[Statement]>,
        continuation: Option<&Statement>,
    ) -> (r: Result<Option<String>, BuclError>)
        ensures
            cmp_post(*old(evaluator), *final(evaluator), crate::text::seq_views(args@), r),
    {
        if args.len() < 2 {
            return Err(BuclError::RuntimeError(String::from_str("cmp: requires two arguments")));
        }
        let ac = str_chars(args[0].as_str());
        let bc = str_chars(args[1].as_str());
        let ghost sa = cmp_operand(args@[0]@);
        let ghost sb = cmp_operand(args@[1]@);
        let pa = match parse_dec(ac.as_slice()) {
            Some(p) => p,
            None => zero_parsed(),
        };
        let pb = match parse_dec(bc.as_slice()) {
            Some(p) => p,
            None => zero_parsed(),
        };
        let c = cmp_parsed_dec(pa, pb, Ghost(sa), Ghost(sb));
        if c > 0 {
            Ok(Some(String::from_str("1")))
        } else if c < 0 {
            Ok(Some(String::from_str("-1")))
        } else {
            Ok(Some(String::from_str("0")))
        }
    }
}

pub fn register(eval: &mut Evaluator)
    requires
        old(eval).wf(),
    ensures
        final(eval).wf(),
        final(eval).depth == old(eval).depth,
        final(eval).variables == old(eval).variables,
        final(eval).embedded_functions == old(eval).embedded_functions,
        final(eval).files == old(eval).files,
        final(eval).output_buffer == old(eval).output_buffer,
        final(eval).call_named_args == old(eval).call_named_args,
        final(eval).base_dir == old(eval).base_dir,
        crate::evaluator::reg_view(final(eval).functions@) == crate::evaluator::reg_view(old(eval).functions@).insert(0, ("cmp"@, Builtin::Cmp)),
{
    eval.register("cmp", Builtin::Cmp);
}

} // verus!
