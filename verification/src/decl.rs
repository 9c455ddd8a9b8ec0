//! Top-level declarations and the item dispatcher.
//!
//! Over the post-header remainder the dispatcher repeatedly tries, in fixed
//! order, the record, task, workflow and test recognizers; the first match
//! consumes its declaration.  When none matches, the trimmed tail is kept
//! as one opaque item and iteration stops.

use vstd::prelude::*;
use vstd::string::StrSliceExecFns;
use vstd::string::StringExecFns;

use crate::ast::{Item, Param, RecordDecl, RecordField, SpecItem, SpecParam, SpecRecordDecl,
    SpecRecordField, SpecTaskDecl, SpecTestDecl, SpecWorkflowDecl, TaskDecl, TestDecl,
    WorkflowDecl};
use crate::chars::is_ws_char;
use crate::expr::{find_at_depth0, find_at_depth0_exec, find_char_plain, find_char_plain_exec};
use crate::scan::{copy_range, extract_balanced, keyword_at, keyword_at_exec, kw_record, kw_task,
    kw_test, kw_workflow, match_at, match_seq, skip_doc_comments, skip_ws, spec_extract_balanced,
    spec_skip_doc, spec_skip_ws, spec_take_ident, spec_take_string_literal, spec_trim,
    take_ident, take_string_literal, trim_str};
use crate::stmt::{build_block, spec_block_of};
use crate::texpr::{parse_type_expr, spec_parse_type_text};

verus! {

// ------------------------------------------------------------------
// Trailing-run strippers.
// ------------------------------------------------------------------

/// Trailing run of `?` and whitespace ending at `j`.
pub open spec fn q_ws_run_back(t: Seq<char>, j: int) -> nat
    decreases j,
{
    if 0 < j <= t.len() && (t[j - 1] == '?' || is_ws_char(t[j - 1])) {
        1 + q_ws_run_back(t, j - 1)
    } else {
        0
    }
}

/// Trailing run of `,` ending at `j`.
pub open spec fn comma_run_back(t: Seq<char>, j: int) -> nat
    decreases j,
{
    if 0 < j <= t.len() && t[j - 1] == ',' {
        1 + comma_run_back(t, j - 1)
    } else {
        0
    }
}

fn q_ws_strip_pos(t: &str, j: usize) -> (r: usize)
    requires
        j <= t@.len(),
    ensures
        r == j - q_ws_run_back(t@, j as int),
        r <= j,
    decreases j,
{
    if j > 0 && {
        let c = t.get_char(j - 1);
        c == '?' || crate::chars::ws_char(c)
    } {
        q_ws_strip_pos(t, j - 1)
    } else {
        j
    }
}

fn comma_strip_pos(t: &str, j: usize) -> (r: usize)
    requires
        j <= t@.len(),
    ensures
        r == j - comma_run_back(t@, j as int),
        r <= j,
    decreases j,
{
    if j > 0 && t.get_char(j - 1) == ',' {
        comma_strip_pos(t, j - 1)
    } else {
        j
    }
}

// ------------------------------------------------------------------
// Record fields.
// ------------------------------------------------------------------

/// One line of a record body.  Blank lines, comment lines and lines
/// beginning `}` are dropped; otherwise the line must contain a colon.
/// A trailing `?` on the name (whitespace allowed before it) marks the
/// field optional and is stripped; the type text runs to the first `=` and
/// loses any trailing commas.
pub open spec fn spec_record_field_line(line: Seq<char>) -> Option<SpecRecordField> {
    let t = spec_trim(line);
    if t.len() == 0 {
        None
    } else if match_at(t, 0, seq!['/', '/']) || match_at(t, 0, seq!['/', '*']) || t[0] == '}' {
        None
    } else {
        match find_char_plain(t, 0, ':') {
            None => None,
            Some(c) => if 0 <= c <= t.len() {
                let name_part = spec_trim(t.subrange(0, c));
                let optional = name_part.len() > 0 && name_part[name_part.len() - 1] == '?';
                let name = name_part.subrange(
                    0,
                    name_part.len() - q_ws_run_back(name_part, name_part.len() as int),
                );
                let rest = t.subrange(c + 1, t.len() as int);
                let ty_raw = match find_char_plain(rest, 0, '=') {
                    None => rest,
                    Some(k) => if 0 <= k <= rest.len() {
                        rest.subrange(0, k)
                    } else {
                        rest
                    },
                };
                let ty_t = spec_trim(ty_raw);
                let ty_txt = ty_t.subrange(
                    0,
                    ty_t.len() - comma_run_back(ty_t, ty_t.len() as int),
                );
                Some(
                    SpecRecordField {
                        name,
                        optional,
                        ty: spec_parse_type_text(ty_txt),
                    },
                )
            } else {
                None
            },
        }
    }
}

/// Record fields of a brace body, one line at a time.
pub open spec fn spec_record_fields(x: Seq<char>) -> Seq<SpecRecordField>
    decreases x.len(),
{
    match find_char_plain(x, 0, '\n') {
        None => {
            match spec_record_field_line(x) {
                None => Seq::empty(),
                Some(f) => seq![f],
            }
        },
        Some(k) => if 0 <= k < x.len() {
            let head = match spec_record_field_line(x.subrange(0, k)) {
                None => Seq::<SpecRecordField>::empty(),
                Some(f) => seq![f],
            };
            head + spec_record_fields(x.subrange(k + 1, x.len() as int))
        } else {
            Seq::empty()
        },
    }
}

#[verifier::spinoff_prover]
fn record_field_line(line: &str) -> (r: Option<RecordField>)
    ensures
        match spec_record_field_line(line@) {
            Some(f) => r is Some && (r->0)@ == f,
            None => r is None,
        },
{
    proof {
        reveal_strlit("//");
        reveal_strlit("/*");
        assert("//"@ =~= seq!['/', '/']);
        assert("/*"@ =~= seq!['/', '*']);
    }
    let t = trim_str(line);
    let ts = t.as_str();
    let n = ts.unicode_len();
    if n == 0 {
        return None;
    }
    if match_seq(ts, 0, "//") || match_seq(ts, 0, "/*") || ts.get_char(0) == '}' {
        return None;
    }
    match find_char_plain_exec(ts, 0, ':') {
        None => None,
        Some(c) => {
            let np_raw = copy_range(ts, 0, c);
            let name_part = trim_str(np_raw.as_str());
            let m = name_part.as_str().unicode_len();
            let optional = m > 0 && name_part.as_str().get_char(m - 1) == '?';
            let qpos = q_ws_strip_pos(name_part.as_str(), m);
            let name = copy_range(name_part.as_str(), 0, qpos);
            let rest = copy_range(ts, c + 1, n);
            let rn = rest.as_str().unicode_len();
            let ty_raw = match find_char_plain_exec(rest.as_str(), 0, '=') {
                None => rest,
                Some(k) => copy_range(rest.as_str(), 0, k),
            };
            let ty_t = trim_str(ty_raw.as_str());
            let tn = ty_t.as_str().unicode_len();
            let cpos = comma_strip_pos(ty_t.as_str(), tn);
            let ty_txt = copy_range(ty_t.as_str(), 0, cpos);
            let ty = parse_type_expr(ty_txt.as_str());
            Some(RecordField { name, optional, ty })
        },
    }
}

#[verifier::spinoff_prover]
fn record_fields(x: &str) -> (r: Vec<RecordField>)
    ensures
        r.deep_view() == spec_record_fields(x@),
    decreases x@.len(),
{
    let n = x.unicode_len();
    match find_char_plain_exec(x, 0, '\n') {
        None => {
            match record_field_line(x) {
                None => {
                    let v: Vec<RecordField> = Vec::new();
                    proof {
                        assert(v.deep_view() =~= Seq::<SpecRecordField>::empty());
                    }
                    v
                },
                Some(f) => {
                    let ghost fg = f@;
                    let mut v: Vec<RecordField> = Vec::new();
                    v.push(f);
                    proof {
                        assert(v.deep_view() =~= seq![fg]);
                    }
                    v
                },
            }
        },
        Some(k) => {
            let head_raw = copy_range(x, 0, k);
            let head = record_field_line(head_raw.as_str());
            let rest_raw = copy_range(x, k + 1, n);
            let rest = record_fields(rest_raw.as_str());
            match head {
                None => {
                    proof {
                        assert(rest.deep_view() =~= Seq::<SpecRecordField>::empty()
                            + rest.deep_view());
                    }
                    rest
                },
                Some(f) => {
                    let ghost fg = f@;
                    let ghost restv = rest.deep_view();
                    let mut v = rest;
                    v.insert(0, f);
                    proof {
                        assert(v.deep_view() =~= seq![fg] + restv);
                    }
                    v
                },
            }
        },
    }
}

// ------------------------------------------------------------------
// Parameters and type parameters.
// ------------------------------------------------------------------

/// One comma-separated parameter: `name : type [= default]`.  A piece
/// without a colon (or an empty piece) is skipped.
pub open spec fn spec_param_piece(piece: Seq<char>) -> Option<SpecParam> {
    let t = spec_trim(piece);
    if t.len() == 0 {
        None
    } else {
        match find_char_plain(t, 0, ':') {
            None => None,
            Some(c) => if 0 <= c <= t.len() {
                let name = spec_trim(t.subrange(0, c));
                let rest = spec_trim(t.subrange(c + 1, t.len() as int));
                match find_char_plain(rest, 0, '=') {
                    None => Some(
                        SpecParam { name, ty: spec_parse_type_text(rest), default: None },
                    ),
                    Some(k) => if 0 <= k <= rest.len() {
                        Some(
                            SpecParam {
                                name,
                                ty: spec_parse_type_text(rest.subrange(0, k)),
                                default: Some(
                                    spec_trim(rest.subrange(k + 1, rest.len() as int)),
                                ),
                            },
                        )
                    } else {
                        None
                    },
                }
            } else {
                None
            },
        }
    }
}

/// The parameter list: split at depth-zero commas (over `()`, `[]` and
/// `{}`), pieces without a colon skipped.
pub open spec fn spec_params(x: Seq<char>) -> Seq<SpecParam>
    decreases x.len(),
{
    match find_at_depth0(x, 0, 0, ',') {
        None => {
            match spec_param_piece(x) {
                None => Seq::empty(),
                Some(p) => seq![p],
            }
        },
        Some(k) => if 0 <= k < x.len() {
            let head = match spec_param_piece(x.subrange(0, k)) {
                None => Seq::<SpecParam>::empty(),
                Some(p) => seq![p],
            };
            head + spec_params(x.subrange(k + 1, x.len() as int))
        } else {
            Seq::empty()
        },
    }
}

#[verifier::spinoff_prover]
fn param_piece(piece: &str) -> (r: Option<Param>)
    ensures
        match spec_param_piece(piece@) {
            Some(p) => r is Some && (r->0)@ == p,
            None => r is None,
        },
{
    let t = trim_str(piece);
    let ts = t.as_str();
    let n = ts.unicode_len();
    if n == 0 {
        return None;
    }
    match find_char_plain_exec(ts, 0, ':') {
        None => None,
        Some(c) => {
            let nm_raw = copy_range(ts, 0, c);
            let name = trim_str(nm_raw.as_str());
            let rest_raw = copy_range(ts, c + 1, n);
            let rest = trim_str(rest_raw.as_str());
            let rn = rest.as_str().unicode_len();
            match find_char_plain_exec(rest.as_str(), 0, '=') {
                None => {
                    let ty = parse_type_expr(rest.as_str());
                    Some(Param { name, ty, default: None })
                },
                Some(k) => {
                    let ty_raw = copy_range(rest.as_str(), 0, k);
                    let ty = parse_type_expr(ty_raw.as_str());
                    let def_raw = copy_range(rest.as_str(), k + 1, rn);
                    let default = trim_str(def_raw.as_str());
                    Some(Param { name, ty, default: Some(default) })
                },
            }
        },
    }
}

#[verifier::rlimit(60)]
#[verifier::spinoff_prover]
fn params_of(x: &str) -> (r: Vec<Param>)
    ensures
        r.deep_view() == spec_params(x@),
    decreases x@.len(),
{
    let n = x.unicode_len();
    match find_at_depth0_exec(x, 0, 0, ',') {
        None => {
            match param_piece(x) {
                None => {
                    let v: Vec<Param> = Vec::new();
                    proof {
                        assert(v.deep_view() =~= Seq::<SpecParam>::empty());
                    }
                    v
                },
                Some(p) => {
                    let ghost pg = p@;
                    let mut v: Vec<Param> = Vec::new();
                    v.push(p);
                    proof {
                        assert(v.deep_view() =~= seq![pg]);
                    }
                    v
                },
            }
        },
        Some(k) => {
            let head_raw = copy_range(x, 0, k);
            let head = param_piece(head_raw.as_str());
            let rest_raw = copy_range(x, k + 1, n);
            let rest = params_of(rest_raw.as_str());
            match head {
                None => {
                    proof {
                        assert(rest.deep_view() =~= Seq::<SpecParam>::empty() + rest.deep_view());
                    }
                    rest
                },
                Some(p) => {
                    let ghost pg = p@;
                    let ghost restv = rest.deep_view();
                    let mut v = rest;
                    v.insert(0, p);
                    proof {
                        assert(v.deep_view() =~= seq![pg] + restv);
                    }
                    v
                },
            }
        },
    }
}

/// Type parameters between `<` and `>`: comma split, trimmed, empties
/// dropped.
pub open spec fn spec_type_params(x: Seq<char>) -> Seq<Seq<char>>
    decreases x.len(),
{
    match find_char_plain(x, 0, ',') {
        None => {
            let t = spec_trim(x);
            if t.len() == 0 {
                Seq::empty()
            } else {
                seq![t]
            }
        },
        Some(k) => if 0 <= k < x.len() {
            let t = spec_trim(x.subrange(0, k));
            let head = if t.len() == 0 {
                Seq::<Seq<char>>::empty()
            } else {
                seq![t]
            };
            head + spec_type_params(x.subrange(k + 1, x.len() as int))
        } else {
            Seq::empty()
        },
    }
}

#[verifier::spinoff_prover]
fn type_params_of(x: &str) -> (r: Vec<String>)
    ensures
        r.deep_view() == spec_type_params(x@),
    decreases x@.len(),
{
    let n = x.unicode_len();
    match find_char_plain_exec(x, 0, ',') {
        None => {
            let t = trim_str(x);
            if t.as_str().is_empty() {
                let v: Vec<String> = Vec::new();
                proof {
                    assert(v.deep_view() =~= Seq::<Seq<char>>::empty());
                }
                v
            } else {
                let ghost tg = t@;
                let mut v: Vec<String> = Vec::new();
                v.push(t);
                proof {
                    assert(v.deep_view() =~= seq![tg]);
                }
                v
            }
        },
        Some(k) => {
            let head_raw = copy_range(x, 0, k);
            let t = trim_str(head_raw.as_str());
            let rest_raw = copy_range(x, k + 1, n);
            let rest = type_params_of(rest_raw.as_str());
            if t.as_str().is_empty() {
                proof {
                    assert(rest.deep_view() =~= Seq::<Seq<char>>::empty() + rest.deep_view());
                }
                rest
            } else {
                let ghost tg = t@;
                let ghost restv = rest.deep_view();
                let mut v = rest;
                v.insert(0, t);
                proof {
                    assert(v.deep_view() =~= seq![tg] + restv);
                }
                v
            }
        },
    }
}

// ------------------------------------------------------------------
// Declaration recognizers.
// ------------------------------------------------------------------

/// `record <name> [<...>] { ... }` starting at `i` (doc comments and
/// spaces allowed before the keyword).
pub open spec fn spec_parse_record_decl(s: Seq<char>, i: int) -> Option<(SpecRecordDecl, int)> {
    let i1 = spec_skip_doc(s, i);
    if !keyword_at(s, i1, kw_record()) {
        None
    } else {
        let i2 = spec_skip_ws(s, i1 + 6);
        match spec_take_ident(s, i2) {
            None => None,
            Some((name, i3)) => {
                let i4 = spec_skip_ws(s, i3);
                if i4 < s.len() && s[i4] == '<' {
                    match spec_extract_balanced(s, i4, '<', '>') {
                        None => None,
                        Some((ptxt, e)) => {
                            let i5 = spec_skip_ws(s, e);
                            spec_record_tail(s, name, spec_type_params(ptxt), i5)
                        },
                    }
                } else {
                    spec_record_tail(s, name, Seq::empty(), i4)
                }
            },
        }
    }
}

/// The `{ ... }` body of a record, shared by both type-parameter shapes.
pub open spec fn spec_record_tail(
    s: Seq<char>,
    name: Seq<char>,
    tps: Seq<Seq<char>>,
    i: int,
) -> Option<(SpecRecordDecl, int)> {
    if i < s.len() && s[i] == '{' {
        match spec_extract_balanced(s, i, '{', '}') {
            None => None,
            Some((body, e)) => Some(
                (
                    SpecRecordDecl { name, type_params: tps, fields: spec_record_fields(body) },
                    spec_skip_ws(s, e),
                ),
            ),
        }
    } else {
        None
    }
}

/// Forward scan for the first `{` at bracket depth zero: the end of a task
/// return-type region.
pub open spec fn ret_scan(s: Seq<char>, j: int, depth: int) -> int
    decreases s.len() - j,
{
    if !(0 <= j < s.len()) {
        j
    } else {
        let c = s[j];
        if depth == 0 && c == '{' {
            j
        } else if c == '(' || c == '[' || c == '<' || c == '{' {
            ret_scan(s, j + 1, depth + 1)
        } else if (c == ')' || c == ']' || c == '>' || c == '}') && depth > 0 {
            ret_scan(s, j + 1, depth - 1)
        } else {
            ret_scan(s, j + 1, depth)
        }
    }
}

fn ret_scan_exec(s: &str, j: usize, depth: usize) -> (r: usize)
    requires
        j <= s@.len(),
        depth <= j,
    ensures
        r == ret_scan(s@, j as int, depth as int),
        j <= r <= s@.len(),
    decreases s@.len() - j,
{
    let n = s.unicode_len();
    if j >= n {
        return j;
    }
    let c = s.get_char(j);
    if depth == 0 && c == '{' {
        j
    } else if c == '(' || c == '[' || c == '<' || c == '{' {
        ret_scan_exec(s, j + 1, depth + 1)
    } else if (c == ')' || c == ']' || c == '>' || c == '}') && depth > 0 {
        ret_scan_exec(s, j + 1, depth - 1)
    } else {
        ret_scan_exec(s, j + 1, depth)
    }
}

/// `task <name> ( params ) [-> type] { body }` starting at `i`.
pub open spec fn spec_parse_task_decl(s: Seq<char>, i: int) -> Option<(SpecTaskDecl, int)> {
    let i1 = spec_skip_doc(s, i);
    if !keyword_at(s, i1, kw_task()) {
        None
    } else {
        let i2 = spec_skip_ws(s, i1 + 4);
        match spec_take_ident(s, i2) {
            None => None,
            Some((name, i3)) => {
                let i4 = spec_skip_ws(s, i3);
                if !(i4 < s.len() && s[i4] == '(') {
                    None
                } else {
                    match spec_extract_balanced(s, i4, '(', ')') {
                        None => None,
                        Some((ptxt, i5)) => spec_task_tail(
                            s,
                            name,
                            spec_params(ptxt),
                            spec_skip_ws(s, i5),
                        ),
                    }
                }
            },
        }
    }
}

/// The return type and body of a task, from the position after the
/// parameter list.
pub open spec fn spec_task_tail(
    s: Seq<char>,
    name: Seq<char>,
    params: Seq<SpecParam>,
    i6: int,
) -> Option<(SpecTaskDecl, int)> {
    let arrow = i6 + 2 <= s.len() && 0 <= i6 && s[i6] == '-' && s[i6 + 1] == '>';
    let (rt, i8) = if arrow {
        let i7 = spec_skip_ws(s, i6 + 2);
        let e = ret_scan(s, i7, 0);
        let ty_txt = spec_trim(s.subrange(i7, e));
        (
            if ty_txt.len() > 0 {
                Some(spec_parse_type_text(ty_txt))
            } else {
                None
            },
            e,
        )
    } else {
        (None, i6)
    };
    let i9 = spec_skip_ws(s, i8);
    if !(i9 < s.len() && s[i9] == '{') {
        None
    } else {
        match spec_extract_balanced(s, i9, '{', '}') {
            None => None,
            Some((body, i10)) => Some(
                (
                    SpecTaskDecl { name, params, return_type: rt, body: spec_block_of(body) },
                    spec_skip_ws(s, i10),
                ),
            ),
        }
    }
}

/// `workflow <name> { body }` starting at `i`.
pub open spec fn spec_parse_workflow_decl(s: Seq<char>, i: int) -> Option<
    (SpecWorkflowDecl, int),
> {
    let i1 = spec_skip_doc(s, i);
    if !keyword_at(s, i1, kw_workflow()) {
        None
    } else {
        let i2 = spec_skip_ws(s, i1 + 8);
        match spec_take_ident(s, i2) {
            None => None,
            Some((name, i3)) => {
                let i4 = spec_skip_ws(s, i3);
                if !(i4 < s.len() && s[i4] == '{') {
                    None
                } else {
                    match spec_extract_balanced(s, i4, '{', '}') {
                        None => None,
                        Some((body, e)) => Some(
                            (
                                SpecWorkflowDecl { name, body: spec_block_of(body) },
                                spec_skip_ws(s, e),
                            ),
                        ),
                    }
                }
            },
        }
    }
}

/// `test <name-or-string> { body }` starting at `i`; a quoted name loses
/// its quotes and resolves escapes.
pub open spec fn spec_parse_test_decl(s: Seq<char>, i: int) -> Option<(SpecTestDecl, int)> {
    let i1 = spec_skip_doc(s, i);
    if !keyword_at(s, i1, kw_test()) {
        None
    } else {
        let i2 = spec_skip_ws(s, i1 + 4);
        let name_r = if i2 < s.len() && s[i2] == '"' {
            spec_take_string_literal(s, i2)
        } else {
            spec_take_ident(s, i2)
        };
        match name_r {
            None => None,
            Some((name, i3)) => {
                let i4 = spec_skip_ws(s, i3);
                if !(i4 < s.len() && s[i4] == '{') {
                    None
                } else {
                    match spec_extract_balanced(s, i4, '{', '}') {
                        None => None,
                        Some((body, e)) => Some(
                            (
                                SpecTestDecl { name, body: spec_block_of(body) },
                                spec_skip_ws(s, e),
                            ),
                        ),
                    }
                }
            },
        }
    }
}

#[verifier::spinoff_prover]
pub fn parse_record_decl(s: &str, i: usize) -> (r: Option<(RecordDecl, usize)>)
    requires
        i <= s@.len(),
    ensures
        match spec_parse_record_decl(s@, i as int) {
            Some((d, e)) => {
                &&& r is Some
                &&& (r->0).0@ == d
                &&& (r->0).1 == e
                &&& i < e <= s@.len()
            },
            None => r is None,
        },
{
    proof {
        reveal_strlit("record");
        assert("record"@ =~= kw_record());
    }
    let n = s.unicode_len();
    let i1 = skip_doc_comments(s, i);
    if !keyword_at_exec(s, i1, "record") {
        return None;
    }
    let i2 = skip_ws(s, i1 + 6);
    match take_ident(s, i2) {
        None => None,
        Some((name, i3)) => {
            let i4 = skip_ws(s, i3);
            if i4 < n && s.get_char(i4) == '<' {
                match extract_balanced(s, i4, '<', '>') {
                    None => None,
                    Some((ptxt, e)) => {
                        let i5 = skip_ws(s, e);
                        let tps = type_params_of(ptxt.as_str());
                        record_tail(s, name, tps, i5, Ghost(i as int))
                    },
                }
            } else {
                let tps: Vec<String> = Vec::new();
                proof {
                    assert(tps.deep_view() =~= Seq::<Seq<char>>::empty());
                }
                record_tail(s, name, tps, i4, Ghost(i as int))
            }
        },
    }
}

fn record_tail(s: &str, name: String, tps: Vec<String>, i: usize, start: Ghost<int>) -> (r: Option<
    (RecordDecl, usize),
>)
    requires
        i <= s@.len(),
        start@ < i,
    ensures
        match spec_record_tail(s@, name@, tps.deep_view(), i as int) {
            Some((d, e)) => {
                &&& r is Some
                &&& (r->0).0@ == d
                &&& (r->0).1 == e
                &&& start@ < e <= s@.len()
            },
            None => r is None,
        },
{
    let n = s.unicode_len();
    if i < n && s.get_char(i) == '{' {
        match extract_balanced(s, i, '{', '}') {
            None => None,
            Some((body, e)) => {
                let fields = record_fields(body.as_str());
                let e2 = skip_ws(s, e);
                Some((RecordDecl { name, type_params: tps, fields }, e2))
            },
        }
    } else {
        None
    }
}

#[verifier::rlimit(60)]
#[verifier::spinoff_prover]
pub fn parse_task_decl(s: &str, i: usize) -> (r: Option<(TaskDecl, usize)>)
    requires
        i <= s@.len(),
    ensures
        match spec_parse_task_decl(s@, i as int) {
            Some((d, e)) => {
                &&& r is Some
                &&& (r->0).0@ == d
                &&& (r->0).1 == e
                &&& i < e <= s@.len()
            },
            None => r is None,
        },
{
    proof {
        reveal_strlit("task");
        assert("task"@ =~= kw_task());
    }
    let n = s.unicode_len();
    let i1 = skip_doc_comments(s, i);
    if !keyword_at_exec(s, i1, "task") {
        return None;
    }
    let i2 = skip_ws(s, i1 + 4);
    match take_ident(s, i2) {
        None => None,
        Some((name, i3)) => {
            let i4 = skip_ws(s, i3);
            if !(i4 < n && s.get_char(i4) == '(') {
                return None;
            }
            match extract_balanced(s, i4, '(', ')') {
                None => None,
                Some((ptxt, i5)) => {
                    let i6 = skip_ws(s, i5);
                    let params = params_of(ptxt.as_str());
                    task_tail(s, name, params, i6, Ghost(i as int))
                },
            }
        },
    }
}

#[verifier::spinoff_prover]
fn task_tail(s: &str, name: String, params: Vec<Param>, i6: usize, start: Ghost<int>) -> (r:
    Option<(TaskDecl, usize)>)
    requires
        i6 <= s@.len(),
        start@ < i6,
    ensures
        match spec_task_tail(s@, name@, params.deep_view(), i6 as int) {
            Some((d, e)) => {
                &&& r is Some
                &&& (r->0).0@ == d
                &&& (r->0).1 == e
                &&& start@ < e <= s@.len()
            },
            None => r is None,
        },
{
    let n = s.unicode_len();
    let arrow = i6 < n && i6 + 1 < n && s.get_char(i6) == '-' && s.get_char(i6 + 1) == '>';
    let (rt, i8): (Option<crate::ast::TypeExpr>, usize) = if arrow {
        let i7 = skip_ws(s, i6 + 2);
        let e = ret_scan_exec(s, i7, 0);
        let ty_raw = copy_range(s, i7, e);
        let ty_txt = trim_str(ty_raw.as_str());
        if !ty_txt.as_str().is_empty() {
            (Some(parse_type_expr(ty_txt.as_str())), e)
        } else {
            (None, e)
        }
    } else {
        (None, i6)
    };
    let i9 = skip_ws(s, i8);
    if !(i9 < n && s.get_char(i9) == '{') {
        return None;
    }
    match extract_balanced(s, i9, '{', '}') {
        None => None,
        Some((body, i10)) => {
            let blk = build_block(body.as_str());
            let i11 = skip_ws(s, i10);
            Some((TaskDecl { name, params, return_type: rt, body: blk }, i11))
        },
    }
}

#[verifier::spinoff_prover]
pub fn parse_workflow_decl(s: &str, i: usize) -> (r: Option<(WorkflowDecl, usize)>)
    requires
        i <= s@.len(),
    ensures
        match spec_parse_workflow_decl(s@, i as int) {
            Some((d, e)) => {
                &&& r is Some
                &&& (r->0).0@ == d
                &&& (r->0).1 == e
                &&& i < e <= s@.len()
            },
            None => r is None,
        },
{
    proof {
        reveal_strlit("workflow");
        assert("workflow"@ =~= kw_workflow());
    }
    let n = s.unicode_len();
    let i1 = skip_doc_comments(s, i);
    if !keyword_at_exec(s, i1, "workflow") {
        return None;
    }
    let i2 = skip_ws(s, i1 + 8);
    match take_ident(s, i2) {
        None => None,
        Some((name, i3)) => {
            let i4 = skip_ws(s, i3);
            if !(i4 < n && s.get_char(i4) == '{') {
                return None;
            }
            match extract_balanced(s, i4, '{', '}') {
                None => None,
                Some((body, e)) => {
                    let blk = build_block(body.as_str());
                    let e2 = skip_ws(s, e);
                    Some((WorkflowDecl { name, body: blk }, e2))
                },
            }
        },
    }
}

#[verifier::spinoff_prover]
pub fn parse_test_decl(s: &str, i: usize) -> (r: Option<(TestDecl, usize)>)
    requires
        i <= s@.len(),
    ensures
        match spec_parse_test_decl(s@, i as int) {
            Some((d, e)) => {
                &&& r is Some
                &&& (r->0).0@ == d
                &&& (r->0).1 == e
                &&& i < e <= s@.len()
            },
            None => r is None,
        },
{
    proof {
        reveal_strlit("test");
        assert("test"@ =~= kw_test());
    }
    let n = s.unicode_len();
    let i1 = skip_doc_comments(s, i);
    if !keyword_at_exec(s, i1, "test") {
        return None;
    }
    let i2 = skip_ws(s, i1 + 4);
    let name_r = if i2 < n && s.get_char(i2) == '"' {
        take_string_literal(s, i2)
    } else {
        take_ident(s, i2)
    };
    match name_r {
        None => None,
        Some((name, i3)) => {
            let i4 = skip_ws(s, i3);
            if !(i4 < n && s.get_char(i4) == '{') {
                return None;
            }
            match extract_balanced(s, i4, '{', '}') {
                None => None,
                Some((body, e)) => {
                    let blk = build_block(body.as_str());
                    let e2 = skip_ws(s, e);
                    Some((TestDecl { name, body: blk }, e2))
                },
            }
        },
    }
}

// ------------------------------------------------------------------
// The item dispatcher.
// ------------------------------------------------------------------

/// Items of the post-header remainder from position `i` (whitespace and
/// comments already skipped): record, task, workflow and test declarations
/// in source order; when none matches, the trimmed tail becomes one
/// `Other` item and iteration stops.
pub open spec fn spec_parse_items(s: Seq<char>, i: int) -> Seq<SpecItem>
    decreases s.len() - i,
{
    if !(0 <= i < s.len()) {
        Seq::empty()
    } else if spec_parse_record_decl(s, i) is Some {
        let (d, e) = spec_parse_record_decl(s, i)->0;
        if i < e <= s.len() {
            seq![SpecItem::Record(d)] + spec_parse_items(s, e)
        } else {
            seq![SpecItem::Record(d)]
        }
    } else if spec_parse_task_decl(s, i) is Some {
        let (d, e) = spec_parse_task_decl(s, i)->0;
        if i < e <= s.len() {
            seq![SpecItem::Task(d)] + spec_parse_items(s, e)
        } else {
            seq![SpecItem::Task(d)]
        }
    } else if spec_parse_workflow_decl(s, i) is Some {
        let (d, e) = spec_parse_workflow_decl(s, i)->0;
        if i < e <= s.len() {
            seq![SpecItem::Workflow(d)] + spec_parse_items(s, e)
        } else {
            seq![SpecItem::Workflow(d)]
        }
    } else if spec_parse_test_decl(s, i) is Some {
        let (d, e) = spec_parse_test_decl(s, i)->0;
        if i < e <= s.len() {
            seq![SpecItem::Test(d)] + spec_parse_items(s, e)
        } else {
            seq![SpecItem::Test(d)]
        }
    } else {
        let tail = spec_trim(s.subrange(i, s.len() as int));
        if tail.len() == 0 {
            Seq::empty()
        } else {
            seq![SpecItem::Other(tail)]
        }
    }
}

#[verifier::spinoff_prover]
pub fn parse_items(s: &str, i: usize) -> (r: Vec<Item>)
    requires
        i <= s@.len(),
    ensures
        r.deep_view() == spec_parse_items(s@, i as int),
    decreases s@.len() - i,
{
    let n = s.unicode_len();
    if i >= n {
        let v: Vec<Item> = Vec::new();
        proof {
            assert(v.deep_view() =~= Seq::<SpecItem>::empty());
        }
        return v;
    }
    if let Some((d, e)) = parse_record_decl(s, i) {
        let rest = parse_items(s, e);
        let ghost dg = d@;
        let ghost restv = rest.deep_view();
        let mut v = rest;
        v.insert(0, Item::Record(d));
        proof {
            assert(v.deep_view() =~= seq![SpecItem::Record(dg)] + restv);
        }
        return v;
    }
    if let Some((d, e)) = parse_task_decl(s, i) {
        let rest = parse_items(s, e);
        let ghost dg = d@;
        let ghost restv = rest.deep_view();
        let mut v = rest;
        v.insert(0, Item::Task(d));
        proof {
            assert(v.deep_view() =~= seq![SpecItem::Task(dg)] + restv);
        }
        return v;
    }
    if let Some((d, e)) = parse_workflow_decl(s, i) {
        let rest = parse_items(s, e);
        let ghost dg = d@;
        let ghost restv = rest.deep_view();
        let mut v = rest;
        v.insert(0, Item::Workflow(d));
        proof {
            assert(v.deep_view() =~= seq![SpecItem::Workflow(dg)] + restv);
        }
        return v;
    }
    if let Some((d, e)) = parse_test_decl(s, i) {
        let rest = parse_items(s, e);
        let ghost dg = d@;
        let ghost restv = rest.deep_view();
        let mut v = rest;
        v.insert(0, Item::Test(d));
        proof {
            assert(v.deep_view() =~= seq![SpecItem::Test(dg)] + restv);
        }
        return v;
    }
    let tail_raw = copy_range(s, i, n);
    let tail = trim_str(tail_raw.as_str());
    if tail.as_str().is_empty() {
        let v: Vec<Item> = Vec::new();
        proof {
            assert(v.deep_view() =~= Seq::<SpecItem>::empty());
        }
        v
    } else {
        let ghost tg = tail@;
        let mut v: Vec<Item> = Vec::new();
        v.push(Item::Other(tail));
        proof {
            assert(v.deep_view() =~= seq![SpecItem::Other(tg)]);
        }
        v
    }
}

} // verus!
