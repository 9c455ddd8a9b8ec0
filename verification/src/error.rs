//! Error values surfaced by the parser.

use vstd::prelude::*;
use vstd::string::StringExecFns;

verus! {

/// A diagnostic from a failed parse.
///
/// Only the header phase can fail the parse; its diagnostics are
/// human-readable text carried by [`HiloParseError::Parse`].  The other two
/// variants are part of the public surface for consumers that match
/// defensively: `NotImplemented` is a reserved sentinel and `Lex` is reserved
/// for lexical diagnostics; neither is produced by [`crate::parse_module`].
#[derive(Debug, Clone, PartialEq, Eq)]
pub enum HiloParseError {
    NotImplemented,
    Lex(String),
    Parse(String),
}

impl HiloParseError {
    /// Human-readable rendering of the diagnostic.
    pub fn message(&self) -> (m: String)
        ensures
            self is Parse ==> m@ == self->Parse_0@,
            self is Lex ==> m@ == self->Lex_0@,
            self is NotImplemented ==> m@ == "parser not implemented yet"@,
    {
        match self {
            HiloParseError::NotImplemented => String::from_str("parser not implemented yet"),
            HiloParseError::Lex(m) => m.clone(),
            HiloParseError::Parse(m) => m.clone(),
        }
    }
}

} // verus!
