//! `math` - evaluate a basic arithmetic expression over integers.
//!
//! Supports `+`, `-`, `*`, `/`, `%`, unary minus and parentheses, by
//! recursive descent. Division and modulo by zero, malformed expressions
//! and overflowing intermediate results are runtime errors.

use vstd::prelude::*;
use vstd::string::StringExecFns;
use crate::ast::Statement;
use crate::error::BuclError;
use crate::evaluator::Evaluator;
use crate::functions::{Builtin, BuclFunction};
use crate::text::{i64_to_dec, int_dec_rep, space_char, string_of};

verus! {

/// Skip whitespace from `pos`.
fn skip_ws(s: &[char], pos: usize) -> (r: usize)
    requires
        pos <= s@.len(),
    ensures
        pos <= r <= s@.len(),
    decreases s@.len() - pos,
{
    if pos < s.len() && space_char(s[pos]) {
        skip_ws(s, pos + 1)
    } else {
        pos
    }
}

/// Parse a number or a parenthesised expression.
fn parse_primary(s: &[char], pos: usize) -> (r: Result<(i64, usize), BuclError>)
    requires
        pos <= s@.len(),
    ensures
        match r {
            Ok(p) => pos < p.1 <= s@.len(),
            Err(e) => e is RuntimeError,
        },
    decreases s@.len() - pos, 0int,
{
    let mut i = skip_ws(s, pos);
    if i < s.len() && s[i] == '(' {
        let inner = match parse_add_sub(s, i + 1) {
            Ok(p) => p,
            Err(e) => {
                return Err(e);
            },
        };
        let j = skip_ws(s, inner.1);
        if j < s.len() && s[j] == ')' {
            return Ok((inner.0, j + 1));
        }
        return Err(BuclError::RuntimeError(String::from_str("math: expected closing paren")));
    }
    let start = i;
    let mut acc: i64 = 0;
    let mut any = false;
    while i < s.len() && crate::text::digit_char_exec(s[i])
        invariant
            start <= i <= s@.len(),
            any == (i > start),
        decreases s@.len() - i,
    {
        let d = (s[i] as u32 as i64) - 48;
        acc = match acc.checked_mul(10) {
            Some(m) => match m.checked_add(d) {
                Some(v) => v,
                None => {
                    return Err(
                        BuclError::RuntimeError(String::from_str("math: number too large")),
                    );
                },
            },
            None => {
                return Err(BuclError::RuntimeError(String::from_str("math: number too large")));
            },
        };
        any = true;
        i = i + 1;
    }
    if !any {
        return Err(BuclError::RuntimeError(String::from_str("math: expected a number")));
    }
    Ok((acc, i))
}

/// Parse a primary with an optional unary sign.
fn parse_unary(s: &[char], pos: usize) -> (r: Result<(i64, usize), BuclError>)
    requires
        pos <= s@.len(),
    ensures
        match r {
            Ok(p) => pos < p.1 <= s@.len(),
            Err(e) => e is RuntimeError,
        },
    decreases s@.len() - pos, 1int,
{
    let i = skip_ws(s, pos);
    if i < s.len() && s[i] == '-' {
        let p = match parse_primary(s, i + 1) {
            Ok(p) => p,
            Err(e) => {
                return Err(e);
            },
        };
        if p.0 == i64::MIN {
            return Err(BuclError::RuntimeError(String::from_str("math: overflow")));
        }
        return Ok((-p.0, p.1));
    }
    if i < s.len() && s[i] == '+' {
        return parse_primary(s, i + 1);
    }
    parse_primary(s, i)
}

/// Parse a sequence of `*`, `/` and `%` operations.
fn parse_mul_div(s: &[char], pos: usize) -> (r: Result<(i64, usize), BuclError>)
    requires
        pos <= s@.len(),
    ensures
        match r {
            Ok(p) => pos < p.1 <= s@.len(),
            Err(e) => e is RuntimeError,
        },
    decreases s@.len() - pos, 2int,
{
    let first = match parse_unary(s, pos) {
        Ok(p) => p,
        Err(e) => {
            return Err(e);
        },
    };
    let mut left = first.0;
    let mut i = first.1;
    loop
        invariant
            pos < i <= s@.len(),
        decreases s@.len() - i,
    {
        let j = skip_ws(s, i);
        if j < s.len() && (s[j] == '*' || s[j] == '/' || s[j] == '%') {
            let op = s[j];
            let rhs = match parse_unary(s, j + 1) {
                Ok(p) => p,
                Err(e) => {
                    return Err(e);
                },
            };
            if (op == '/' || op == '%') && rhs.0 == 0 {
                return Err(BuclError::RuntimeError(String::from_str("math: division by zero")));
            }
            let combined = if op == '*' {
                left.checked_mul(rhs.0)
            } else if op == '/' {
                left.checked_div(rhs.0)
            } else {
                left.checked_rem(rhs.0)
            };
            left = match combined {
                Some(v) => v,
                None => {
                    return Err(BuclError::RuntimeError(String::from_str("math: overflow")));
                },
            };
            i = rhs.1;
        } else {
            return Ok((left, i));
        }
    }
}

/// Parse a sequence of `+` and `-` operations.
fn parse_add_sub(s: &[char], pos: usize) -> (r: Result<(i64, usize), BuclError>)
    requires
        pos <= s@.len(),
    ensures
        match r {
            Ok(p) => pos < p.1 <= s@.len(),
            Err(e) => e is RuntimeError,
        },
    decreases s@.len() - pos, 3int,
{
    let first = match parse_mul_div(s, pos) {
        Ok(p) => p,
        Err(e) => {
            return Err(e);
        },
    };
    let mut left = first.0;
    let mut i = first.1;
    loop
        invariant
            pos < i <= s@.len(),
        decreases s@.len() - i,
    {
        let j = skip_ws(s, i);
        if j < s.len() && (s[j] == '+' || s[j] == '-') {
            let op = s[j];
            let rhs = match parse_mul_div(s, j + 1) {
                Ok(p) => p,
                Err(e) => {
                    return Err(e);
                },
            };
            let combined = if op == '+' {
                left.checked_add(rhs.0)
            } else {
                left.checked_sub(rhs.0)
            };
            left = match combined {
                Some(v) => v,
                None => {
                    return Err(BuclError::RuntimeError(String::from_str("math: overflow")));
                },
            };
            i = rhs.1;
        } else {
            return Ok((left, i));
        }
    }
}

/// Evaluate a whole expression: the expression grammar, then only trailing
/// whitespace may remain.
pub fn eval_expr(s: &[char]) -> (r: Result<i64, BuclError>)
    ensures
        r matches Err(e) ==> e is RuntimeError,
{
    let p = match parse_add_sub(s, 0) {
        Ok(p) => p,
        Err(e) => {
            return Err(e);
        },
    };
    let j = skip_ws(s, p.1);
    if j < s.len() {
        return Err(BuclError::RuntimeError(String::from_str("math: unexpected character")));
    }
    Ok(p.0)
}

/// What a dispatched `math` guarantees: the evaluator untouched, errors
/// only of the runtime kind, and on success decimal text of an integer.
/// The value itself is not pinned; the arithmetic is scoped out of the
/// core, and this engine computes it over integers with truncating
/// division.
pub open spec fn math_post(
    pre: Evaluator,
    post: Evaluator,
    values: Seq<Seq<char>>,
    r: Result<Option<String>, BuclError>,
) -> bool {
    &&& post == pre
    &&& r matches Err(e) ==> e is RuntimeError
    &&& r matches Ok(v) ==> v matches Some(s) && exists|x: int| s@ == int_dec_rep(x)
}

pub struct Math;

impl BuclFunction for Math {
    /// Evaluates the concatenated arguments as an integer expression and
    /// returns the value as decimal text.
    fn call(
        &self,
        evaluator: &mut Evaluator,
        target: Option<&str>,
        args: Vec<String>,
        block: Option<&[Statement]>,
        continuation: Option<&Statement>,
    ) -> (r: Result<Option<String>, BuclError>)
        ensures
            math_post(*old(evaluator), *final(evaluator), crate::text::seq_views(args@), r),
    {
        let expr = crate::text::join_strings(&args, "");
        let chars = crate::text::str_chars(expr.as_str());
        match eval_expr(chars.as_slice()) {
            Ok(v) => Ok(Some(string_of(i64_to_dec(v).as_slice()))),
            Err(e) => Err(e),
        }
    }
}

pub fn register(eval: &mut Evaluator)
    requires
        old(eval).wf(),
    ensures
        final(eval).wf(),
        final(eval).depth == old(eval).depth,
        final(eval).variables == old(eval).variables,
        final(eval).embedded_functions == old(eval).embedded_functions,
        final(eval).files == old(eval).files,
        final(eval).output_buffer == old(eval).output_buffer,
        final(eval).call_named_args == old(eval).call_named_args,
        final(eval).base_dir == old(eval).base_dir,
        crate::evaluator::reg_view(final(eval).functions@) == crate::evaluator::reg_view(old(eval).functions@).insert(0, ("math"@, Builtin::Math)),
{
    eval.register("math", Builtin::Math);
}

} // verus!
