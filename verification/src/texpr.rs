//! The type-expression parser.
//!
//! Recursive descent over a trimmed type text: simple qualified names
//! (dotted identifiers),
//! generics with `<...>` or `[...]`, the special `List[T]` form, anonymous
//! struct shapes `{ name: T, name?: T }`, and a trailing `?` wrapping the
//! atom in `Optional`.  Inputs that do not fit become `Unknown(text)`.
//!
//! The model functions return a pair of parsed value and end position; the
//! executable functions are proved to compute exactly the model values.

use vstd::prelude::*;
use vstd::string::StrSliceExecFns;
use vstd::string::StringExecFns;

use crate::ast::{QualifiedName, SpecStructFieldType, SpecTypeExpr, StructFieldType, TypeExpr, view_struct_field_list, view_struct_field_type, view_type_expr, view_type_list};
use crate::chars::{ident_start_char, is_ident_start_char};
use crate::scan::{copy_range, ident_run, ident_run_end, spec_trim, trim_str, type_token_run,
    type_token_run_end, ws_run, ws_run_end};

verus! {

pub open spec fn list_name() -> Seq<char> {
    seq!['L', 'i', 's', 't']
}

/// Clamp a position to the end of the text (a no-op for the in-range
/// positions the scanners produce; it keeps the termination measures of the
/// mutually recursive parse functions visibly non-negative).
pub open spec fn clamp_len(s: Seq<char>, j: int) -> int {
    if j <= s.len() {
        j
    } else {
        s.len() as int
    }
}

/// Number of trailing `?` characters of `t` up to position `j`.
pub open spec fn q_run_back(t: Seq<char>, j: int) -> nat
    decreases j,
{
    if 0 < j <= t.len() && t[j - 1] == '?' {
        1 + q_run_back(t, j - 1)
    } else {
        0
    }
}

/// `t` with every trailing `?` removed.
pub open spec fn strip_trailing_q(t: Seq<char>) -> Seq<char> {
    t.subrange(0, t.len() - q_run_back(t, t.len() as int))
}

/// A dotted qualified name: identifiers (`[A-Za-z_][A-Za-z0-9_]*`)
/// separated by `.` with whitespace allowed around the dots.  A position
/// with no identifier yields the empty name; in particular a `?` never
/// belongs to a name component, so it is free to act as the optional
/// marker after the atom.
pub open spec fn spec_qualified_ident(s: Seq<char>, i: int) -> (Seq<Seq<char>>, int)
    decreases s.len() - i,
{
    let a = i + ws_run(s, i);
    if 0 <= a < s.len() && is_ident_start_char(s[a]) {
        let e = a + 1 + ident_run(s, a + 1);
        let tok = s.subrange(a, e);
        let b = e + ws_run(s, e);
        if b < s.len() && s[b] == '.' {
            let (rest, g) = spec_qualified_ident(s, b + 1);
            (seq![tok] + rest, g)
        } else {
            (seq![tok], b)
        }
    } else {
        (Seq::empty(), a)
    }
}

pub open spec fn or_unknown(t0: Option<SpecTypeExpr>) -> SpecTypeExpr {
    match t0 {
        Some(t) => t,
        None => SpecTypeExpr::Unknown(Seq::empty()),
    }
}

/// One atom followed by an optional `?` marker.
pub open spec fn spec_parse_type_opt(s: Seq<char>, i: int) -> (Option<SpecTypeExpr>, int)
    decreases s.len() - i, 1int,
{
    let (t0, j) = spec_parse_type_inner(s, i);
    match t0 {
        None => (None, j),
        Some(a) => {
            let k = j + ws_run(s, j);
            if k < s.len() && s[k] == '?' {
                (Some(SpecTypeExpr::Optional(Box::new(a))), k + 1)
            } else {
                (Some(a), k)
            }
        },
    }
}

/// One atom: struct shape, generic, list or simple qualified name.
pub open spec fn spec_parse_type_inner(s: Seq<char>, i: int) -> (Option<SpecTypeExpr>, int)
    decreases s.len() - i, 0int,
{
    let a = i + ws_run(s, i);
    if !(a < s.len()) {
        (None, a)
    } else if s[a] == '{' {
        let (fs, e) = spec_parse_struct_fields(s, a + 1);
        (Some(SpecTypeExpr::Struct(fs)), e)
    } else {
        let (base, b) = spec_qualified_ident(s, a);
        if base.len() >= 1 && b >= a + 1 {
            let c1 = b + ws_run(s, b);
            if c1 < s.len() && s[c1] == '<' {
                let (args, e) = spec_parse_type_args(s, c1 + 1, '>');
                (Some(SpecTypeExpr::Generic { base, arguments: args }), e)
            } else if c1 < s.len() && s[c1] == '[' {
                if base.len() == 1 && base[0] == list_name() {
                    let d = clamp_len(s, c1 + 1 + ws_run(s, c1 + 1));
                    if d < s.len() && s[d] == ']' {
                        (Some(SpecTypeExpr::List(Box::new(SpecTypeExpr::Simple(base)))), d + 1)
                    } else {
                        let (elem0, m) = spec_parse_type_opt(s, d);
                        let elem = or_unknown(elem0);
                        let p = m + ws_run(s, m);
                        if p < s.len() && s[p] == ']' {
                            (Some(SpecTypeExpr::List(Box::new(elem))), p + 1)
                        } else {
                            (Some(SpecTypeExpr::List(Box::new(elem))), p)
                        }
                    }
                } else {
                    let (args, e) = spec_parse_type_args(s, c1 + 1, ']');
                    (Some(SpecTypeExpr::Generic { base, arguments: args }), e)
                }
            } else {
                (Some(SpecTypeExpr::Simple(base)), c1)
            }
        } else {
            (None, b)
        }
    }
}

/// Comma-separated type arguments up to `closing`.  An argument that fails
/// to parse stops the list with the closer unconsumed, which makes the
/// whole type text fall back to `Unknown` at the top level.
pub open spec fn spec_parse_type_args(s: Seq<char>, i: int, closing: char) -> (
    Seq<SpecTypeExpr>,
    int,
)
    decreases s.len() - i, 2int,
{
    if !(0 <= i <= s.len()) {
        (Seq::empty(), i)
    } else {
    let a = clamp_len(s, i + ws_run(s, i));
    if a < s.len() && s[a] == closing {
        (Seq::empty(), a + 1)
    } else {
        let (t0, m) = spec_parse_type_opt(s, a);
        match t0 {
            None => (Seq::empty(), a),
            Some(arg) => {
                let p = m + ws_run(s, m);
                if p < s.len() && s[p] == closing {
                    (seq![arg], p + 1)
                } else {
                    let q = if p < s.len() && s[p] == ',' {
                        p + 1
                    } else {
                        p
                    };
                    if q > a && q <= s.len() {
                        let (rest, e) = spec_parse_type_args(s, q, closing);
                        (seq![arg] + rest, e)
                    } else {
                        (seq![arg], q)
                    }
                }
            },
        }
    }
    }
}

/// Fields of an anonymous struct shape, after the opening `{`.  A field
/// name's trailing `?` marks it optional and is stripped.
pub open spec fn spec_parse_struct_fields(s: Seq<char>, i: int) -> (Seq<SpecStructFieldType>, int)
    decreases s.len() - i, 2int,
{
    if !(0 <= i <= s.len()) {
        (Seq::empty(), i)
    } else {
    let a = clamp_len(s, i + ws_run(s, i));
    if a < s.len() && s[a] == '}' {
        (Seq::empty(), a + 1)
    } else {
        let e = a + type_token_run(s, a);
        if e == a {
            (Seq::empty(), a)
        } else {
            let tok = s.subrange(a, e);
            let optional = tok[tok.len() - 1] == '?';
            let name = strip_trailing_q(tok);
            let b = e + ws_run(s, e);
            if b < s.len() && s[b] == ':' {
                let (t0, m) = spec_parse_type_opt(s, b + 1);
                let fld = SpecStructFieldType { name, optional, ty: or_unknown(t0) };
                let p = m + ws_run(s, m);
                if p < s.len() && s[p] == ',' {
                    if p >= a {
                        let (rest, e2) = spec_parse_struct_fields(s, p + 1);
                        (seq![fld] + rest, e2)
                    } else {
                        (seq![fld], p + 1)
                    }
                } else {
                    if p < s.len() && s[p] == '}' {
                        (seq![fld], p + 1)
                    } else {
                        (seq![fld], p)
                    }
                }
            } else {
                (Seq::empty(), b)
            }
        }
    }
    }
}

/// The whole type text: trim, parse one optional-marked atom, and fall
/// back to `Unknown(trimmed text)` when nothing parses or non-whitespace
/// input remains.
pub open spec fn spec_parse_type_text(raw: Seq<char>) -> SpecTypeExpr {
    let t = spec_trim(raw);
    if t.len() == 0 {
        SpecTypeExpr::Unknown(Seq::empty())
    } else {
        let (t0, j) = spec_parse_type_opt(t, 0);
        match t0 {
            None => SpecTypeExpr::Unknown(t),
            Some(ty) => {
                let k = j + ws_run(t, j);
                if k < t.len() {
                    SpecTypeExpr::Unknown(t)
                } else {
                    ty
                }
            },
        }
    }
}

// ------------------------------------------------------------------
// Executable parser.
// ------------------------------------------------------------------

proof fn lemma_view_type_list_cons(x: TypeExpr, v: Seq<TypeExpr>)
    ensures
        view_type_list(seq![x] + v) == seq![view_type_expr(x)] + view_type_list(v),
{
    assert((seq![x] + v).len() == v.len() + 1);
    assert((seq![x] + v)[0] == x);
    assert((seq![x] + v).drop_first() =~= v);
}

proof fn lemma_view_struct_field_list_cons(x: StructFieldType, v: Seq<StructFieldType>)
    ensures
        view_struct_field_list(seq![x] + v) == seq![view_struct_field_type(x)]
            + view_struct_field_list(v),
{
    assert((seq![x] + v).len() == v.len() + 1);
    assert((seq![x] + v)[0] == x);
    assert((seq![x] + v).drop_first() =~= v);
}

fn parse_qualified_ident(s: &str, i: usize) -> (r: (Vec<String>, usize))
    requires
        i <= s@.len(),
    ensures
        r.0.deep_view() == spec_qualified_ident(s@, i as int).0,
        r.1 as int == spec_qualified_ident(s@, i as int).1,
        i <= r.1 <= s@.len(),
    decreases s@.len() - i,
{
    let n = s.unicode_len();
    let a = ws_run_end(s, i);
    if !(a < n && ident_start_char(s.get_char(a))) {
        let v: Vec<String> = Vec::new();
        proof {
            assert(v.deep_view() =~= Seq::<Seq<char>>::empty());
        }
        return (v, a);
    }
    {
        let e = ident_run_end(s, a + 1);
        let tok = copy_range(s, a, e);
        let b = ws_run_end(s, e);
        if b < n && s.get_char(b) == '.' {
            let (rest, g) = parse_qualified_ident(s, b + 1);
            let mut v = rest;
            v.insert(0, tok);
            proof {
                assert(v.deep_view() =~= seq![s@.subrange(a as int, e as int)]
                    + spec_qualified_ident(s@, b + 1).0);
            }
            (v, g)
        } else {
            let mut v: Vec<String> = Vec::new();
            v.push(tok);
            proof {
                assert(v.deep_view() =~= seq![s@.subrange(a as int, e as int)]);
            }
            (v, b)
        }
    }
}

#[verifier::spinoff_prover]
fn parse_type_opt(s: &str, i: usize) -> (r: (Option<TypeExpr>, usize))
    requires
        i <= s@.len(),
    ensures
        r.1 as int == spec_parse_type_opt(s@, i as int).1,
        match spec_parse_type_opt(s@, i as int).0 {
            Some(t) => r.0 is Some && view_type_expr(r.0->0) == t,
            None => r.0 is None,
        },
        i <= r.1 <= s@.len(),
    decreases s@.len() - i, 1int,
{
    let n = s.unicode_len();
    let (t0, j) = parse_type_inner(s, i);
    match t0 {
        None => (None, j),
        Some(a) => {
            let k = ws_run_end(s, j);
            if k < n && s.get_char(k) == '?' {
                (Some(TypeExpr::Optional(Box::new(a))), k + 1)
            } else {
                (Some(a), k)
            }
        },
    }
}

#[verifier::rlimit(100)]
#[verifier::spinoff_prover]
fn parse_type_inner(s: &str, i: usize) -> (r: (Option<TypeExpr>, usize))
    requires
        i <= s@.len(),
    ensures
        r.1 as int == spec_parse_type_inner(s@, i as int).1,
        match spec_parse_type_inner(s@, i as int).0 {
            Some(t) => r.0 is Some && view_type_expr(r.0->0) == t,
            None => r.0 is None,
        },
        i <= r.1 <= s@.len(),
    decreases s@.len() - i, 0int,
{
    let n = s.unicode_len();
    let a = ws_run_end(s, i);
    if !(a < n) {
        return (None, a);
    }
    if s.get_char(a) == '{' {
        let (fs, e) = parse_struct_fields(s, a + 1);
        return (Some(TypeExpr::Struct(fs)), e);
    }
    let (base, b) = parse_qualified_ident(s, a);
    if base.len() >= 1 && b >= a + 1 {
        let c1 = ws_run_end(s, b);
        if c1 < n && s.get_char(c1) == '<' {
            let (args, e) = parse_type_args(s, c1 + 1, '>');
            (Some(TypeExpr::Generic { base, arguments: args }), e)
        } else if c1 < n && s.get_char(c1) == '[' {
            let lst = String::from_str("List");
            proof {
                reveal_strlit("List");
                assert(lst@ =~= list_name());
            }
            if base.len() == 1 && base[0] == lst {
                proof {
                    assert(base.deep_view()[0] == base@[0]@);
                }
                let d = ws_run_end(s, c1 + 1);
                if d < n && s.get_char(d) == ']' {
                    proof {
                        reveal_with_fuel(view_type_expr, 3);
                    }
                    (Some(TypeExpr::List(Box::new(TypeExpr::Simple(base)))), d + 1)
                } else {
                    let (elem0, m) = parse_type_opt(s, d);
                    let elem = match elem0 {
                        Some(t) => t,
                        None => TypeExpr::Unknown(String::new()),
                    };
                    let p = ws_run_end(s, m);
                    if p < n && s.get_char(p) == ']' {
                        (Some(TypeExpr::List(Box::new(elem))), p + 1)
                    } else {
                        (Some(TypeExpr::List(Box::new(elem))), p)
                    }
                }
            } else {
                proof {
                    if base.deep_view().len() == 1 && base.deep_view()[0] == list_name() {
                        assert(base.deep_view()[0] == base@[0]@);
                    }
                }
                let (args, e) = parse_type_args(s, c1 + 1, ']');
                (Some(TypeExpr::Generic { base, arguments: args }), e)
            }
        } else {
            (Some(TypeExpr::Simple(base)), c1)
        }
    } else {
        (None, b)
    }
}

#[verifier::spinoff_prover]
fn parse_type_args(s: &str, i: usize, closing: char) -> (r: (Vec<TypeExpr>, usize))
    requires
        i <= s@.len(),
    ensures
        view_type_list(r.0@) == spec_parse_type_args(s@, i as int, closing).0,
        r.1 as int == spec_parse_type_args(s@, i as int, closing).1,
        i <= r.1 <= s@.len(),
    decreases s@.len() - i, 2int,
{
    let n = s.unicode_len();
    let a = ws_run_end(s, i);
    if a < n && s.get_char(a) == closing {
        let v: Vec<TypeExpr> = Vec::new();
        (v, a + 1)
    } else {
        let (t0, m) = parse_type_opt(s, a);
        match t0 {
            None => {
                let v: Vec<TypeExpr> = Vec::new();
                (v, a)
            },
            Some(arg) => {
                let p = ws_run_end(s, m);
                if p < n && s.get_char(p) == closing {
                    let mut v: Vec<TypeExpr> = Vec::new();
                    v.push(arg);
                    proof {
                        assert(v@ =~= seq![v@[0]]);
                        lemma_view_type_list_cons(v@[0], Seq::empty());
                        assert(view_type_list(v@) =~= seq![view_type_expr(v@[0])]);
                    }
                    (v, p + 1)
                } else {
                    let q = if p < n && s.get_char(p) == ',' {
                        p + 1
                    } else {
                        p
                    };
                    if q > a && q <= n {
                        let (rest, e) = parse_type_args(s, q, closing);
                        let ghost rest_view = rest@;
                        let mut v = rest;
                        let ghost argg = arg;
                        v.insert(0, arg);
                        proof {
                            assert(v@ =~= seq![argg] + rest_view);
                            lemma_view_type_list_cons(argg, rest_view);
                        }
                        (v, e)
                    } else {
                        let mut v: Vec<TypeExpr> = Vec::new();
                        v.push(arg);
                        proof {
                            assert(v@ =~= seq![v@[0]]);
                            lemma_view_type_list_cons(v@[0], Seq::empty());
                            assert(view_type_list(v@) =~= seq![view_type_expr(v@[0])]);
                        }
                        (v, q)
                    }
                }
            },
        }
    }
}

#[verifier::spinoff_prover]
fn parse_struct_fields(s: &str, i: usize) -> (r: (Vec<StructFieldType>, usize))
    requires
        i <= s@.len(),
    ensures
        view_struct_field_list(r.0@) == spec_parse_struct_fields(s@, i as int).0,
        r.1 as int == spec_parse_struct_fields(s@, i as int).1,
        i <= r.1 <= s@.len(),
    decreases s@.len() - i, 2int,
{
    let n = s.unicode_len();
    let a = ws_run_end(s, i);
    if a < n && s.get_char(a) == '}' {
        let v: Vec<StructFieldType> = Vec::new();
        return (v, a + 1);
    }
    let e = type_token_run_end(s, a);
    if e == a {
        let v: Vec<StructFieldType> = Vec::new();
        return (v, a);
    }
    let tok = copy_range(s, a, e);
    let tok_len = e - a;
    let optional = tok.as_str().get_char(tok_len - 1) == '?';
    let qpos = q_strip_pos(tok.as_str(), tok_len);
    let name = copy_range(tok.as_str(), 0, qpos);
    let b = ws_run_end(s, e);
    if b < n && s.get_char(b) == ':' {
        let (t0, m) = parse_type_opt(s, b + 1);
        let ty = match t0 {
            Some(t) => t,
            None => TypeExpr::Unknown(String::new()),
        };
        let fld = StructFieldType { name, optional, ty };
        let p = ws_run_end(s, m);
        if p < n && s.get_char(p) == ',' {
            if p >= a {
                let (rest, e2) = parse_struct_fields(s, p + 1);
                let ghost rest_view = rest@;
                let ghost fldg = fld;
                let mut v = rest;
                v.insert(0, fld);
                proof {
                    assert(v@ =~= seq![fldg] + rest_view);
                    lemma_view_struct_field_list_cons(fldg, rest_view);
                }
                (v, e2)
            } else {
                let mut v: Vec<StructFieldType> = Vec::new();
                v.push(fld);
                proof {
                    assert(v@ =~= seq![v@[0]]);
                    lemma_view_struct_field_list_cons(v@[0], Seq::empty());
                    assert(view_struct_field_list(v@) =~= seq![view_struct_field_type(v@[0])]);
                }
                (v, p + 1)
            }
        } else {
            let mut v: Vec<StructFieldType> = Vec::new();
            v.push(fld);
            proof {
                assert(v@ =~= seq![v@[0]]);
                lemma_view_struct_field_list_cons(v@[0], Seq::empty());
                assert(view_struct_field_list(v@) =~= seq![view_struct_field_type(v@[0])]);
            }
            if p < n && s.get_char(p) == '}' {
                (v, p + 1)
            } else {
                (v, p)
            }
        }
    } else {
        let v: Vec<StructFieldType> = Vec::new();
        (v, b)
    }
}

fn q_strip_pos(t: &str, j: usize) -> (r: usize)
    requires
        j <= t@.len(),
    ensures
        r == j - q_run_back(t@, j as int),
        r <= j,
    decreases j,
{
    if j > 0 && t.get_char(j - 1) == '?' {
        q_strip_pos(t, j - 1)
    } else {
        j
    }
}

/// The canonical rendering of a qualified name: its parts joined by dots.
pub open spec fn spec_dot_join(parts: Seq<Seq<char>>) -> Seq<char>
    decreases parts.len(),
{
    if parts.len() == 0 {
        Seq::empty()
    } else if parts.len() == 1 {
        parts[0]
    } else {
        parts[0] + seq!['.'] + spec_dot_join(parts.drop_first())
    }
}

fn dot_join_from(q: &Vec<String>, k: usize) -> (r: String)
    requires
        k <= q@.len(),
    ensures
        r@ == spec_dot_join(q.deep_view().subrange(k as int, q@.len() as int)),
    decreases q@.len() - k,
{
    proof {
        reveal_strlit(".");
        assert("."@ =~= seq!['.']);
    }
    if k >= q.len() {
        proof {
            assert(q.deep_view().subrange(k as int, q@.len() as int) =~= Seq::<Seq<char>>::empty());
        }
        String::new()
    } else if k == q.len() - 1 {
        proof {
            assert(q.deep_view().subrange(k as int, q@.len() as int) =~= seq![q@[k as int]@]);
        }
        q[k].clone()
    } else {
        let rest = dot_join_from(q, k + 1);
        let head = q[k].clone();
        let r = head.concat(".").concat(rest.as_str());
        proof {
            let parts = q.deep_view().subrange(k as int, q@.len() as int);
            assert(parts.drop_first() =~= q.deep_view().subrange(k + 1, q@.len() as int));
            assert(parts[0] == q@[k as int]@);
            assert(r@ == parts[0] + seq!['.'] + spec_dot_join(parts.drop_first()));
        }
        r
    }
}

/// Render a qualified name as the canonical dot-joined type text of a
/// `Simple` type expression.
pub fn simple_type_text(q: &QualifiedName) -> (r: String)
    ensures
        r@ == spec_dot_join(q.deep_view()),
{
    let r = dot_join_from(q, 0);
    proof {
        assert(q.deep_view().subrange(0, q@.len() as int) =~= q.deep_view());
    }
    r
}

/// Parse one type text into a [`TypeExpr`].
pub fn parse_type_expr(raw: &str) -> (r: TypeExpr)
    ensures
        view_type_expr(r) == spec_parse_type_text(raw@),
{
    let t = trim_str(raw);
    let ts = t.as_str();
    let n = ts.unicode_len();
    if n == 0 {
        proof {
            assert(spec_trim(raw@).len() == 0);
        }
        return TypeExpr::Unknown(String::new());
    }
    let (t0, j) = parse_type_opt(ts, 0);
    match t0 {
        None => TypeExpr::Unknown(t),
        Some(ty) => {
            let k = ws_run_end(ts, j);
            if k < n {
                TypeExpr::Unknown(t)
            } else {
                ty
            }
        },
    }
}

} // verus!
