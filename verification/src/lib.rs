//! An interpreter for a small indentation-structured scripting language:
//! statements of the form `{target} function arg1 arg2 ...` with quoted-string
//! interpolation, nested indented blocks, and a flat string-keyed variable
//! namespace that encodes arrays and records by naming convention.
//!
//! The library is self-contained: the host hands it source text, preloaded
//! function scripts and an in-memory file table, and reads the captured
//! output back. All input and output channels stay outside.

pub mod ast;
pub mod error;
pub mod evaluator;
pub mod functions;
pub mod lexer;
pub mod parser;
pub mod store;
pub mod text;

use vstd::prelude::*;
use vstd::string::StringExecFns;

verus! {

/// Run a source text in a fresh environment with every built-in registered,
/// and render the outcome as the host shows it: the output lines joined with
/// newlines, or a tagged error line.
pub fn run_internal(source: &str) -> (r: String)
    ensures
        parser::parse_spec(source@) is None ==> "[parse error] "@.is_prefix_of(r@),
{
    let mut eval = evaluator::Evaluator::new();
    functions::register_all(&mut eval);
    match parser::parse(source) {
        Ok(stmts) => {
            match eval.evaluate_statements(stmts.as_slice()) {
                Ok(_) => text::join_strings(&eval.output_buffer, "\n"),
                Err(e) => {
                    let mut out = String::from_str("[error] ");
                    out.append(e.message().as_str());
                    out
                },
            }
        },
        Err(e) => {
            let mut out = String::from_str("[parse error] ");
            out.append(e.message().as_str());
            out
        },
    }
}

} // verus!
