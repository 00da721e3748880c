//! The typed failures that evaluation can end with.
//!
//! Every failure aborts the statement tree currently executing and propagates
//! to the top-level caller; output already collected stays visible.

use vstd::prelude::*;
use vstd::string::StringExecFns;

verus! {

/// A failure raised while parsing or evaluating a script.
#[derive(Debug, Clone)]
pub enum BuclError {
    /// Malformed indentation, a missing function name, or other structurally
    /// invalid source.
    ParseError(String),
    /// A constraint violated at run time: wrong arguments for an operation,
    /// duplicate derived argument names, an invalid numeric literal, ...
    RuntimeError(String),
    /// Neither a built-in operation nor a loadable function script matches
    /// the requested name.
    UnknownFunction(String),
    /// An underlying storage read or write failed; the message is kept opaque.
    IoError(String),
}

impl BuclError {
    /// The rendered form of the error, as a host would present it.
    pub open spec fn spec_message(&self) -> Seq<char> {
        match self {
            BuclError::ParseError(m) => "Parse error: "@ + m@,
            BuclError::RuntimeError(m) => "Runtime error: "@ + m@,
            BuclError::UnknownFunction(m) => "Unknown function: '"@ + m@ + "'"@,
            BuclError::IoError(m) => "IO error: "@ + m@,
        }
    }

    /// Render the error as one line of text.
    pub fn message(&self) -> (r: String)
        ensures
            r@ == self.spec_message(),
    {
        match self {
            BuclError::ParseError(m) => {
                let mut s = String::from_str("Parse error: ");
                s.append(m.as_str());
                s
            },
            BuclError::RuntimeError(m) => {
                let mut s = String::from_str("Runtime error: ");
                s.append(m.as_str());
                s
            },
            BuclError::UnknownFunction(m) => {
                let mut s = String::from_str("Unknown function: '");
                s.append(m.as_str());
                s.append("'");
                s
            },
            BuclError::IoError(m) => {
                let mut s = String::from_str("IO error: ");
                s.append(m.as_str());
                s
            },
        }
    }
}

} // verus!
