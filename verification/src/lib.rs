//! Parser for the HILO surface language.
//!
//! The entry point [`parse_module`] turns the textual source of one
//! compilation unit into a [`ast::Module`] value: the module header (name and
//! imports) followed by the top-level items (records, tasks, workflows,
//! tests).  The whole parse is specified against a mathematical model of the
//! grammar: every executable function is proved to return exactly what the
//! corresponding specification function computes over the source text as a
//! sequence of characters.

use vstd::prelude::*;
use vstd::string::StrSliceExecFns;
use vstd::string::StringExecFns;

pub mod ast;
pub mod chars;
pub mod decl;
pub mod error;
pub mod expr;
pub mod header;
pub mod laws;
pub mod scan;
pub mod stmt;
pub mod texpr;

pub use error::HiloParseError;

verus! {

/// Parse a HILO source file into an abstract syntax tree.
///
/// Succeeds exactly when the header model accepts the source; the returned
/// tree is the model tree.  A failure is always a `Parse` diagnostic.
#[verifier::rlimit(100)]
#[verifier::spinoff_prover]
pub fn parse_module(source: &str) -> (r: Result<ast::Module, HiloParseError>)
    ensures
        match header::spec_parse_module_src(source@) {
            Some(m) => r is Ok && r->Ok_0@ == m,
            None => r is Err && r->Err_0 is Parse,
        },
{
    proof {
        reveal_strlit("module");
        assert("module"@ =~= scan::kw_module());
    }
    let n = source.unicode_len();
    let i0 = scan::skip_ws(source, 0);
    if scan::keyword_at_exec(source, i0, "module") {
        let j = scan::skip_ws(source, i0 + 6);
        match header::header_qname(source, j) {
            None => Err(
                HiloParseError::Parse(String::from_str("expected a module name after 'module'")),
            ),
            Some((nm, k)) => {
                match module_tail(source, k) {
                    None => Err(
                        HiloParseError::Parse(String::from_str("malformed import clause")),
                    ),
                    Some((imports, items)) => Ok(
                        ast::Module { name: Some(nm), imports, items },
                    ),
                }
            },
        }
    } else {
        match module_tail(source, i0) {
            None => Err(HiloParseError::Parse(String::from_str("malformed import clause"))),
            Some((imports, items)) => Ok(ast::Module { name: None, imports, items }),
        }
    }
}

/// The imports and items that follow the optional module name.
#[verifier::spinoff_prover]
fn module_tail(source: &str, k: usize) -> (r: Option<(Vec<ast::Import>, Vec<ast::Item>)>)
    requires
        k <= source@.len(),
    ensures
        match header::spec_parse_imports(source@, k as int) {
            Some((imps, r2)) => {
                &&& r is Some
                &&& (r->0).0.deep_view() == imps
                &&& (r->0).1.deep_view() == decl::spec_parse_items(
                    source@,
                    scan::spec_skip_ws(source@, r2),
                )
            },
            None => r is None,
        },
{
    match header::parse_imports(source, k) {
        None => None,
        Some((imports, r2)) => {
            let rem = scan::skip_ws(source, r2);
            let items = decl::parse_items(source, rem);
            Some((imports, items))
        },
    }
}

} // verus!
