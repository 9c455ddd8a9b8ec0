//! Blocks and statements.
//!
//! A block keeps the trimmed body text verbatim and splits it into
//! line-oriented statements: `let` bindings, `return`, or bare expressions.
//! Blank lines and lines that are just `{` or `}` are dropped.

use vstd::prelude::*;
use vstd::string::StrSliceExecFns;
use vstd::string::StringExecFns;

use crate::ast::{Block, Expression, SpecBlock, SpecStatement, Statement};
use crate::expr::{find_char_plain, find_char_plain_exec, parse_expression, spec_parse_expression};
use crate::scan::{copy_range, match_at, match_seq, spec_trim, trim_str};
use crate::texpr::{parse_type_expr, spec_parse_type_text};

verus! {

pub open spec fn let_prefix() -> Seq<char> {
    seq!['l', 'e', 't', ' ']
}

pub open spec fn return_prefix() -> Seq<char> {
    seq!['r', 'e', 't', 'u', 'r', 'n']
}

/// Classify one trimmed, non-empty line.
pub open spec fn spec_parse_statement(line: Seq<char>) -> SpecStatement {
    if match_at(line, 0, let_prefix()) {
        spec_parse_let(spec_trim(line.subrange(4, line.len() as int)))
    } else if match_at(line, 0, return_prefix()) {
        let value_txt = spec_trim(line.subrange(6, line.len() as int));
        SpecStatement::Return {
            value: if value_txt.len() == 0 {
                None
            } else {
                Some(spec_parse_expression(value_txt))
            },
        }
    } else {
        SpecStatement::Expr(spec_parse_expression(line))
    }
}

/// A `let` binding after the keyword: split once on `=` into binding and
/// value; the binding splits once on `:` into name and type text.
pub open spec fn spec_parse_let(rest: Seq<char>) -> SpecStatement {
    let (name_part, value) = match find_char_plain(rest, 0, '=') {
        None => (rest, None),
        Some(k) => if 0 <= k <= rest.len() {
            (
                spec_trim(rest.subrange(0, k)),
                Some(spec_parse_expression(rest.subrange(k + 1, rest.len() as int))),
            )
        } else {
            (rest, None)
        },
    };
    match find_char_plain(name_part, 0, ':') {
        None => SpecStatement::Let { name: spec_trim(name_part), ty: None, value },
        Some(c) => if 0 <= c <= name_part.len() {
            SpecStatement::Let {
                name: spec_trim(name_part.subrange(0, c)),
                ty: Some(
                    spec_parse_type_text(name_part.subrange(c + 1, name_part.len() as int)),
                ),
                value,
            }
        } else {
            SpecStatement::Let { name: spec_trim(name_part), ty: None, value }
        },
    }
}

/// A line becomes no statement when blank or a bare brace.
pub open spec fn spec_line_statement(line: Seq<char>) -> Option<SpecStatement> {
    let t = spec_trim(line);
    if t.len() == 0 || t == seq!['{'] || t == seq!['}'] {
        None
    } else {
        Some(spec_parse_statement(t))
    }
}

/// Statements of a body: split on newlines, trim, drop blank and bare-brace
/// lines.
pub open spec fn spec_statements_of(x: Seq<char>) -> Seq<SpecStatement>
    decreases x.len(),
{
    match find_char_plain(x, 0, '\n') {
        None => {
            match spec_line_statement(x) {
                None => Seq::empty(),
                Some(st) => seq![st],
            }
        },
        Some(k) => if 0 <= k < x.len() {
            let head = match spec_line_statement(x.subrange(0, k)) {
                None => Seq::<SpecStatement>::empty(),
                Some(st) => seq![st],
            };
            head + spec_statements_of(x.subrange(k + 1, x.len() as int))
        } else {
            Seq::empty()
        },
    }
}

/// A block: the trimmed body verbatim, and its statements.
pub open spec fn spec_block_of(body: Seq<char>) -> SpecBlock {
    let raw = spec_trim(body);
    SpecBlock { raw, statements: spec_statements_of(raw) }
}

#[verifier::spinoff_prover]
pub fn parse_statement(line: &str) -> (r: Statement)
    ensures
        r@ == spec_parse_statement(line@),
{
    proof {
        reveal_strlit("let ");
        reveal_strlit("return");
        assert("let "@ =~= let_prefix());
        assert("return"@ =~= return_prefix());
    }
    let n = line.unicode_len();
    if match_seq(line, 0, "let ") {
        let rest_raw = copy_range(line, 4, n);
        let rest = trim_str(rest_raw.as_str());
        parse_let_statement(rest.as_str())
    } else if match_seq(line, 0, "return") {
        let value_raw = copy_range(line, 6, n);
        let value_txt = trim_str(value_raw.as_str());
        if value_txt.as_str().is_empty() {
            Statement::Return { value: None }
        } else {
            let e = parse_expression(value_txt.as_str());
            Statement::Return { value: Some(e) }
        }
    } else {
        Statement::Expr(parse_expression(line))
    }
}

#[verifier::spinoff_prover]
fn parse_let_statement(rest: &str) -> (r: Statement)
    ensures
        r@ == spec_parse_let(rest@),
{
    let n = rest.unicode_len();
    let (name_part, value): (String, Option<Expression>) = match find_char_plain_exec(
        rest,
        0,
        '=',
    ) {
        None => (String::from_str(rest), None),
        Some(k) => {
            let np_raw = copy_range(rest, 0, k);
            let np = trim_str(np_raw.as_str());
            let val_raw = copy_range(rest, k + 1, n);
            let e = parse_expression(val_raw.as_str());
            (np, Some(e))
        },
    };
    let m = name_part.as_str().unicode_len();
    match find_char_plain_exec(name_part.as_str(), 0, ':') {
        None => {
            let name = trim_str(name_part.as_str());
            Statement::Let { name, ty: None, value }
        },
        Some(c) => {
            let nm_raw = copy_range(name_part.as_str(), 0, c);
            let name = trim_str(nm_raw.as_str());
            let ty_raw = copy_range(name_part.as_str(), c + 1, m);
            let ty = parse_type_expr(ty_raw.as_str());
            Statement::Let { name, ty: Some(ty), value }
        },
    }
}

fn line_statement(line: &str) -> (r: Option<Statement>)
    ensures
        match spec_line_statement(line@) {
            Some(st) => r is Some && (r->0)@ == st,
            None => r is None,
        },
{
    let t = trim_str(line);
    let n = t.as_str().unicode_len();
    if n == 0 {
        return None;
    }
    if n == 1 && (t.as_str().get_char(0) == '{' || t.as_str().get_char(0) == '}') {
        proof {
            if t@[0] == '{' {
                assert(t@ =~= seq!['{']);
            } else {
                assert(t@ =~= seq!['}']);
            }
        }
        return None;
    }
    proof {
        assert(t@ != seq!['{'] && t@ != seq!['}']);
    }
    Some(parse_statement(t.as_str()))
}

#[verifier::spinoff_prover]
fn statements_of(x: &str) -> (r: Vec<Statement>)
    ensures
        r.deep_view() == spec_statements_of(x@),
    decreases x@.len(),
{
    let n = x.unicode_len();
    match find_char_plain_exec(x, 0, '\n') {
        None => {
            match line_statement(x) {
                None => {
                    let v: Vec<Statement> = Vec::new();
                    proof {
                        assert(v.deep_view() =~= Seq::<SpecStatement>::empty());
                    }
                    v
                },
                Some(st) => {
                    let ghost stg = st@;
                    let mut v: Vec<Statement> = Vec::new();
                    v.push(st);
                    proof {
                        assert(v.deep_view() =~= seq![stg]);
                    }
                    v
                },
            }
        },
        Some(k) => {
            let head_raw = copy_range(x, 0, k);
            let head = line_statement(head_raw.as_str());
            let rest_raw = copy_range(x, k + 1, n);
            let rest = statements_of(rest_raw.as_str());
            match head {
                None => {
                    proof {
                        assert(rest.deep_view() =~= Seq::<SpecStatement>::empty()
                            + rest.deep_view());
                    }
                    rest
                },
                Some(st) => {
                    let ghost stg = st@;
                    let ghost restv = rest.deep_view();
                    let mut v = rest;
                    v.insert(0, st);
                    proof {
                        assert(v.deep_view() =~= seq![stg] + restv);
                    }
                    v
                },
            }
        },
    }
}

/// Build a [`Block`] from the interior of a brace-balanced body.
pub fn build_block(body: &str) -> (b: Block)
    ensures
        b@ == spec_block_of(body@),
{
    let raw = trim_str(body);
    let statements = statements_of(raw.as_str());
    Block { raw, statements }
}

} // verus!
