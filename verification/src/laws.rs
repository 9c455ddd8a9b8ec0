//! The stated laws of the parser, proved against the model functions that
//! the executable parser is verified to compute.

use vstd::prelude::*;

use crate::ast::{SpecImport, SpecStructFieldType, SpecTypeExpr};
use crate::chars::{is_ident_char, is_ident_start_char, is_type_token_char, is_ws_char};
use crate::decl::{q_ws_run_back, spec_record_field_line};
use crate::expr::find_char_plain;
use crate::header::{spec_header_qname, spec_member_list, spec_parse_import_clause,
    spec_parse_imports};
use crate::scan::{ident_run, is_identifier_seq, keyword_at, kw_as, kw_import, spec_skip_ws,
    spec_take_ident, spec_trim, trim_end_run, type_token_run, ws_run};
use crate::stmt::spec_block_of;
use crate::texpr::{clamp_len, list_name, or_unknown, q_run_back, spec_dot_join,
    spec_parse_struct_fields, spec_parse_type_args, spec_parse_type_inner, spec_parse_type_opt,
    spec_parse_type_text, spec_qualified_ident, strip_trailing_q};

verus! {

// ------------------------------------------------------------------
// Helper facts about trailing-run strippers.
// ------------------------------------------------------------------

proof fn lemma_q_run_back_props(t: Seq<char>, j: int)
    requires
        0 <= j <= t.len(),
    ensures
        q_run_back(t, j) <= j,
        ({
            let r = j - q_run_back(t, j);
            r > 0 ==> t[r - 1] != '?'
        }),
    decreases j,
{
    if 0 < j && t[j - 1] == '?' {
        lemma_q_run_back_props(t, j - 1);
    }
}

proof fn lemma_q_ws_run_back_props(t: Seq<char>, j: int)
    requires
        0 <= j <= t.len(),
    ensures
        q_ws_run_back(t, j) <= j,
        ({
            let r = j - q_ws_run_back(t, j);
            r > 0 ==> !(t[r - 1] == '?' || is_ws_char(t[r - 1]))
        }),
    decreases j,
{
    if 0 < j && (t[j - 1] == '?' || is_ws_char(t[j - 1])) {
        lemma_q_ws_run_back_props(t, j - 1);
    }
}

// ------------------------------------------------------------------
// Imports appear in the returned module in source order.
// ------------------------------------------------------------------

/// Law: the import list is in source order.  At any position, if an
/// `import` keyword follows the skipped whitespace, the clause parsed
/// there is the head of the returned list, and the remaining imports are
/// exactly those parsed from the text after it; a failed clause fails the
/// whole header.  Without an `import` keyword the list ends.
pub proof fn lemma_imports_source_order(s: Seq<char>, i: int)
    ensures
        ({
            let j = spec_skip_ws(s, i);
            &&& (keyword_at(s, j, kw_import()) ==> match spec_parse_import_clause(s, j) {
                None => spec_parse_imports(s, i) is None,
                Some((imp, k)) => (i < k <= s.len() && spec_parse_imports(s, k) is Some)
                    ==> spec_parse_imports(s, i) == Some(
                    (
                        seq![imp] + (spec_parse_imports(s, k)->0).0,
                        (spec_parse_imports(s, k)->0).1,
                    ),
                ),
            })
            &&& (!keyword_at(s, j, kw_import()) ==> spec_parse_imports(s, i) == Some(
                (Seq::<SpecImport>::empty(), j),
            ))
        }),
{
}

// ------------------------------------------------------------------
// Record-field optional flags.
// ------------------------------------------------------------------

/// Law: a parsed record field's name never ends in `?`, and its
/// `optional` flag is set exactly when the trimmed name side of the
/// field's colon ends in `?`.
pub proof fn lemma_record_field_flags(line: Seq<char>)
    ensures
        match spec_record_field_line(line) {
            Some(f) => {
                &&& (f.name.len() == 0 || f.name[f.name.len() - 1] != '?')
                &&& match find_char_plain(spec_trim(line), 0, ':') {
                    Some(c) => {
                        let t = spec_trim(line);
                        &&& 0 <= c <= t.len()
                        &&& (f.optional <==> ({
                            let np = spec_trim(t.subrange(0, c));
                            np.len() > 0 && np[np.len() - 1] == '?'
                        }))
                    },
                    None => false,
                }
            },
            None => true,
        },
{
    if spec_record_field_line(line) is Some {
        let t = spec_trim(line);
        match find_char_plain(t, 0, ':') {
            Some(c) => {
                if 0 <= c <= t.len() {
                    let np = spec_trim(t.subrange(0, c));
                    lemma_q_ws_run_back_props(np, np.len() as int);
                }
            },
            None => {},
        }
    }
}

/// Law: over a whole record body, no parsed field's name ends in `?`
/// (the per-line lemma above adds that each `optional` flag records
/// exactly whether the line's name side ended in `?`).
pub proof fn lemma_record_fields_no_trailing_q(x: Seq<char>)
    ensures
        forall|k: int|
            0 <= k < crate::decl::spec_record_fields(x).len() ==> ({
                let f = #[trigger] crate::decl::spec_record_fields(x)[k];
                f.name.len() == 0 || f.name[f.name.len() - 1] != '?'
            }),
    decreases x.len(),
{
    let fs = crate::decl::spec_record_fields(x);
    match find_char_plain(x, 0, '\n') {
        None => {
            lemma_record_field_flags(x);
        },
        Some(c) => {
            if 0 <= c < x.len() {
                lemma_record_field_flags(x.subrange(0, c));
                let rest = crate::decl::spec_record_fields(x.subrange(c + 1, x.len() as int));
                lemma_record_fields_no_trailing_q(x.subrange(c + 1, x.len() as int));
                let head = match spec_record_field_line(x.subrange(0, c)) {
                    None => Seq::<crate::ast::SpecRecordField>::empty(),
                    Some(f) => seq![f],
                };
                assert(fs == head + rest);
                assert forall|k: int| 0 <= k < fs.len() implies ({
                    let f = #[trigger] fs[k];
                    f.name.len() == 0 || f.name[f.name.len() - 1] != '?'
                }) by {
                    if k < head.len() {
                        assert(fs[k] == head[k]);
                    } else {
                        assert(fs[k] == rest[k - head.len()]);
                    }
                }
            }
        },
    }
}

// ------------------------------------------------------------------
// Type-expression shape laws.
// ------------------------------------------------------------------

/// Law: a bracketed `List[...]` parses to `List(T')`, where `T'` is the
/// parse of the bracket's interior; an empty `List[]` yields the
/// degenerate `List(Simple(["List"]))`.
pub proof fn lemma_list_special_case(s: Seq<char>, i: int)
    requires
        ({
            let a = i + ws_run(s, i);
            &&& 0 <= a < s.len()
            &&& s[a] != '{'
            &&& spec_qualified_ident(s, a).0 == seq![list_name()]
            &&& spec_qualified_ident(s, a).1 >= a + 1
            &&& ({
                let b = spec_qualified_ident(s, a).1;
                let c1 = b + ws_run(s, b);
                c1 < s.len() && s[c1] == '[' && s[c1] != '<'
            })
        }),
    ensures
        ({
            let a = i + ws_run(s, i);
            let b = spec_qualified_ident(s, a).1;
            let c1 = b + ws_run(s, b);
            let d = clamp_len(s, c1 + 1 + ws_run(s, c1 + 1));
            if d < s.len() && s[d] == ']' {
                spec_parse_type_inner(s, i) == (
                    Some(
                        SpecTypeExpr::List(
                            Box::new(SpecTypeExpr::Simple(seq![list_name()])),
                        ),
                    ),
                    d + 1,
                )
            } else {
                spec_parse_type_inner(s, i).0 == Some(
                    SpecTypeExpr::List(Box::new(or_unknown(spec_parse_type_opt(s, d).0))),
                )
            }
        }),
{
    let a = i + ws_run(s, i);
    let base = spec_qualified_ident(s, a).0;
    assert(base.len() == 1 && base[0] == list_name());
}

/// Law: `Foo[...]` with base other than `List` parses to
/// `Generic { Foo, arguments }` where the arguments are the parses of the
/// comma-separated interior.
pub proof fn lemma_bracket_generic(s: Seq<char>, i: int)
    requires
        ({
            let a = i + ws_run(s, i);
            &&& 0 <= a < s.len()
            &&& s[a] != '{'
            &&& spec_qualified_ident(s, a).0.len() >= 1
            &&& !(spec_qualified_ident(s, a).0 =~= seq![list_name()])
            &&& spec_qualified_ident(s, a).1 >= a + 1
            &&& ({
                let b = spec_qualified_ident(s, a).1;
                let c1 = b + ws_run(s, b);
                c1 < s.len() && s[c1] == '[' && s[c1] != '<'
            })
        }),
    ensures
        ({
            let a = i + ws_run(s, i);
            let base = spec_qualified_ident(s, a).0;
            let b = spec_qualified_ident(s, a).1;
            let c1 = b + ws_run(s, b);
            spec_parse_type_inner(s, i) == (
                Some(
                    SpecTypeExpr::Generic {
                        base,
                        arguments: spec_parse_type_args(s, c1 + 1, ']').0,
                    },
                ),
                spec_parse_type_args(s, c1 + 1, ']').1,
            )
        }),
{
    let a = i + ws_run(s, i);
    let base = spec_qualified_ident(s, a).0;
    if base.len() == 1 && base[0] == list_name() {
        assert(base =~= seq![list_name()]);
    }
}

/// Law: `Foo<...>` always parses to `Generic { Foo, arguments }`.
pub proof fn lemma_angle_generic(s: Seq<char>, i: int)
    requires
        ({
            let a = i + ws_run(s, i);
            &&& 0 <= a < s.len()
            &&& s[a] != '{'
            &&& spec_qualified_ident(s, a).0.len() >= 1
            &&& spec_qualified_ident(s, a).1 >= a + 1
            &&& ({
                let b = spec_qualified_ident(s, a).1;
                let c1 = b + ws_run(s, b);
                c1 < s.len() && s[c1] == '<'
            })
        }),
    ensures
        ({
            let a = i + ws_run(s, i);
            let base = spec_qualified_ident(s, a).0;
            let b = spec_qualified_ident(s, a).1;
            let c1 = b + ws_run(s, b);
            spec_parse_type_inner(s, i) == (
                Some(
                    SpecTypeExpr::Generic {
                        base,
                        arguments: spec_parse_type_args(s, c1 + 1, '>').0,
                    },
                ),
                spec_parse_type_args(s, c1 + 1, '>').1,
            )
        }),
{
}

/// Law: a trailing `?` after an atom wraps the atom in `Optional`; without
/// it the atom is returned unwrapped.
pub proof fn lemma_optional_suffix(s: Seq<char>, i: int)
    ensures
        ({
            let (t0, j) = spec_parse_type_inner(s, i);
            t0 is Some ==> ({
                let k = j + ws_run(s, j);
                if k < s.len() && s[k] == '?' {
                    spec_parse_type_opt(s, i) == (
                        Some(SpecTypeExpr::Optional(Box::new(t0->0))),
                        k + 1,
                    )
                } else {
                    spec_parse_type_opt(s, i) == (t0, k)
                }
            })
        }),
{
}

/// Law: a struct-shape field token's trailing `?` marks the field optional
/// and is stripped, so the field name never ends in `?`.
pub proof fn lemma_struct_field_flags(s: Seq<char>, i: int)
    requires
        0 <= i <= s.len(),
    ensures
        ({
            let a = clamp_len(s, i + ws_run(s, i));
            let e = a + type_token_run(s, a);
            (0 <= a && e <= s.len() && !(a < s.len() && s[a] == '}') && e != a) ==> ({
                let tok = s.subrange(a, e);
                let b = e + ws_run(s, e);
                (b < s.len() && s[b] == ':') ==> ({
                    let fs = spec_parse_struct_fields(s, i).0;
                    &&& fs.len() >= 1
                    &&& fs[0].name == strip_trailing_q(tok)
                    &&& (fs[0].optional <==> tok[tok.len() - 1] == '?')
                    &&& (fs[0].name.len() == 0 || fs[0].name[fs[0].name.len() - 1] != '?')
                })
            })
        }),
{
    let a = clamp_len(s, i + ws_run(s, i));
    let e = a + type_token_run(s, a);
    if 0 <= a && e <= s.len() && !(a < s.len() && s[a] == '}') && e != a {
        let tok = s.subrange(a, e);
        lemma_q_run_back_props(tok, tok.len() as int);
    }
}

// ------------------------------------------------------------------
// Import-tail permutation.
// ------------------------------------------------------------------

/// Law: an import tail carrying a member list and an alias yields the
/// same `Import` whichever of the two comes first.  `s1` holds the
/// members-then-alias spelling, `s2` the alias-then-members spelling; with
/// equal paths, member lists and aliases, the parsed clauses are equal.
pub proof fn lemma_import_tail_order(
    s1: Seq<char>,
    j1: int,
    s2: Seq<char>,
    j2: int,
    path: Seq<Seq<char>>,
    ms: Seq<Seq<char>>,
    al: Seq<char>,
)
    requires
        // s1: path, then `{ members }`, then `as alias`.
        (spec_header_qname(s1, spec_skip_ws(s1, j1 + 6)) is Some),
        ({
            let (p1, m1) = spec_header_qname(s1, spec_skip_ws(s1, j1 + 6))->0;
            &&& p1 == path
            &&& !keyword_at(s1, m1, kw_as())
            &&& 0 <= m1 < s1.len() && s1[m1] == '{'
            &&& spec_member_list(s1, m1) is Some
            &&& ({
                let (ms1, t1) = spec_member_list(s1, m1)->0;
                &&& ms1 == ms
                &&& keyword_at(s1, t1, kw_as())
                &&& spec_take_ident(s1, spec_skip_ws(s1, t1 + 2)) is Some
                &&& (spec_take_ident(s1, spec_skip_ws(s1, t1 + 2))->0).0 == al
            })
        }),
        // s2: path, then `as alias`, then `{ members }`.
        (spec_header_qname(s2, spec_skip_ws(s2, j2 + 6)) is Some),
        ({
            let (p2, m2) = spec_header_qname(s2, spec_skip_ws(s2, j2 + 6))->0;
            &&& p2 == path
            &&& keyword_at(s2, m2, kw_as())
            &&& spec_take_ident(s2, spec_skip_ws(s2, m2 + 2)) is Some
            &&& ({
                let (al2, r2) = spec_take_ident(s2, spec_skip_ws(s2, m2 + 2))->0;
                let r3 = spec_skip_ws(s2, r2);
                &&& al2 == al
                &&& r3 < s2.len() && s2[r3] == '{'
                &&& spec_member_list(s2, r3) is Some
                &&& (spec_member_list(s2, r3)->0).0 == ms
            })
        }),
    ensures
        (spec_parse_import_clause(s1, j1) is Some),
        (spec_parse_import_clause(s2, j2) is Some),
        (spec_parse_import_clause(s1, j1)->0).0 == (spec_parse_import_clause(s2, j2)->0).0,
        (spec_parse_import_clause(s1, j1)->0).0 == (SpecImport {
            path,
            members: Some(ms),
            alias: Some(al),
        }),
{
}

// ------------------------------------------------------------------
// Block raw text.
// ------------------------------------------------------------------

/// Law: the `raw` field of a block equals the trimmed content of the body
/// between the braces (balanced extraction hands the interior over
/// verbatim, and the block keeps its trimmed text).
pub proof fn lemma_block_raw(body: Seq<char>)
    ensures
        spec_block_of(body).raw == spec_trim(body),
{
}

// ------------------------------------------------------------------
// Round trip for simple type expressions.
// ------------------------------------------------------------------

proof fn lemma_ident_run_exact(s: Seq<char>, i: int, e: int)
    requires
        0 <= i <= e <= s.len(),
        forall|k: int| i <= k < e ==> is_ident_char(#[trigger] s[k]),
        e == s.len() || !is_ident_char(s[e]),
    ensures
        ident_run(s, i) == e - i,
    decreases e - i,
{
    if i < e {
        lemma_ident_run_exact(s, i + 1, e);
    }
}

proof fn lemma_token_run_exact(s: Seq<char>, i: int, e: int)
    requires
        0 <= i <= e <= s.len(),
        forall|k: int| i <= k < e ==> is_type_token_char(#[trigger] s[k]),
        e == s.len() || !is_type_token_char(s[e]),
    ensures
        type_token_run(s, i) == e - i,
    decreases e - i,
{
    if i < e {
        lemma_token_run_exact(s, i + 1, e);
    }
}

/// As [`lemma_ident_run_exact`], stated for a name embedded before a
/// terminator at `m`: the run stops at `e`, whether because `e == m` is
/// the end of text, the terminator stands there, or a non-identifier
/// character (a dot) does.
proof fn lemma_ident_run_exact_to(s: Seq<char>, i: int, e: int, m: int)
    requires
        0 <= i <= e <= m <= s.len(),
        forall|k: int| i <= k < e ==> is_ident_char(#[trigger] s[k]),
        e == m || !is_ident_char(s[e]),
        m == s.len() || ends_qname(s[m]),
    ensures
        ident_run(s, i) == e - i,
{
    lemma_ident_run_exact(s, i, e);
}

proof fn lemma_trim_nonws(u: Seq<char>)
    requires
        forall|k: int| 0 <= k < u.len() ==> !is_ws_char(#[trigger] u[k]),
    ensures
        spec_trim(u) == u,
{
    assert(ws_run(u, 0) == 0);
    assert(trim_end_run(u, u.len() as int) == 0);
    assert(u.subrange(0, u.len() as int) =~= u);
}

proof fn lemma_join_chars(parts: Seq<Seq<char>>)
    requires
        parts.len() >= 1,
        forall|k: int| 0 <= k < parts.len() ==> is_identifier_seq(#[trigger] parts[k]),
    ensures
        spec_dot_join(parts).len() >= parts[0].len(),
        parts[0].len() >= 1,
        forall|k: int|
            0 <= k < spec_dot_join(parts).len() ==> (is_ident_char(#[trigger] spec_dot_join(
                parts,
            )[k]) || spec_dot_join(parts)[k] == '.'),
    decreases parts.len(),
{
    let u = spec_dot_join(parts);
    let p0 = parts[0];
    if parts.len() == 1 {
        assert forall|k: int| 0 <= k < u.len() implies (is_ident_char(u[k]) || u[k] == '.') by {
            assert(u[k] == p0[k]);
            if k == 0 {
                assert(is_ident_start_char(p0[0]));
            }
        }
    } else {
        let rest = parts.drop_first();
        assert(forall|k: int| 0 <= k < rest.len() ==> is_identifier_seq(#[trigger] rest[k]));
        lemma_join_chars(rest);
        let rj = spec_dot_join(rest);
        assert(u == p0 + seq!['.'] + rj);
        assert forall|k: int| 0 <= k < u.len() implies (is_ident_char(u[k]) || u[k] == '.') by {
            if k < p0.len() {
                assert(u[k] == p0[k]);
                if k == 0 {
                    assert(is_ident_start_char(p0[0]));
                }
            } else if k == p0.len() {
                assert(u[k] == '.');
            } else {
                assert(u[k] == rj[k - p0.len() - 1]);
            }
        }
    }
}

/// A character that ends a qualified name wherever it stands: not part of
/// an identifier, not whitespace, and not a dot.
pub open spec fn ends_qname(c: char) -> bool {
    !is_ident_char(c) && !is_ws_char(c) && c != '.'
}

/// The qualified-name scanner, run at the start of an embedded rendering
/// of `parts` that a terminator (or the end of text) follows, reads
/// exactly `parts` and stops at the terminator.
proof fn lemma_qident_of_join_at(s: Seq<char>, i: int, m: int, parts: Seq<Seq<char>>)
    requires
        0 <= i <= m <= s.len(),
        parts.len() >= 1,
        forall|k: int| 0 <= k < parts.len() ==> is_identifier_seq(#[trigger] parts[k]),
        s.subrange(i, m) == spec_dot_join(parts),
        m == s.len() || ends_qname(s[m]),
    ensures
        spec_qualified_ident(s, i) == (parts, m),
    decreases parts.len(),
{
    let u = spec_dot_join(parts);
    let p0 = parts[0];
    lemma_join_chars(parts);
    assert(m - i == u.len());
    assert(forall|k: int| 0 <= k < u.len() ==> s.subrange(i, m)[k] == #[trigger] s[i + k]);
    assert(forall|k: int| 0 <= k < u.len() ==> s[i + k] == u[k]);
    // The leading token is exactly the first part.
    assert(is_ident_start_char(p0[0]));
    assert(u[0] == p0[0]) by {
        if parts.len() > 1 {
            assert(u == p0 + seq!['.'] + spec_dot_join(parts.drop_first()));
        }
    }
    assert(s[i + 0] == u[0]);
    assert(s[i] == p0[0]);
    assert(!is_ws_char(s[i]));
    assert(ws_run(s, i) == 0);
    let e = i + p0.len();
    assert forall|k: int| i <= k < e implies is_ident_char(#[trigger] s[k]) by {
        assert(s[k] == u[k - i]);
        if parts.len() == 1 {
            assert(u[k - i] == p0[k - i]);
        } else {
            assert(u == p0 + seq!['.'] + spec_dot_join(parts.drop_first()));
            assert(u[k - i] == p0[k - i]);
        }
        if k == i {
            assert(is_ident_start_char(p0[0]));
        } else {
            assert(is_ident_char(p0[k - i]));
        }
    }
    if parts.len() == 1 {
        assert(e == m);
        lemma_ident_run_exact_to(s, i + 1, e, m);
        assert(s.subrange(i, e) =~= p0);
        assert(ws_run(s, e) == 0);
        assert(spec_qualified_ident(s, i) == (seq![p0], e));
        assert(seq![p0] =~= parts);
    } else {
        let rest = parts.drop_first();
        let rj = spec_dot_join(rest);
        assert(u == p0 + seq!['.'] + rj);
        assert(u[p0.len() as int] == '.');
        assert(s[e] == '.');
        assert(!is_ident_char('.'));
        lemma_ident_run_exact_to(s, i + 1, e, m);
        assert(s.subrange(i, e) =~= p0);
        assert(!is_ws_char('.'));
        assert(ws_run(s, e) == 0);
        // The text after the dot up to `m` is the join of the remaining
        // parts.
        assert(s.subrange(e + 1, m) =~= rj) by {
            assert(forall|k: int|
                0 <= k < rj.len() ==> #[trigger] s.subrange(e + 1, m)[k] == s[e + 1 + k]);
            assert(forall|k: int| 0 <= k < rj.len() ==> u[p0.len() + 1 + k] == rj[k]);
        }
        assert(forall|k: int| 0 <= k < rest.len() ==> is_identifier_seq(#[trigger] rest[k]));
        lemma_qident_of_join_at(s, e + 1, m, rest);
        assert(spec_qualified_ident(s, i) == (seq![p0] + rest, m));
        assert(seq![p0] + rest =~= parts);
    }
}

proof fn lemma_qident_of_join(s: Seq<char>, i: int, parts: Seq<Seq<char>>)
    requires
        0 <= i <= s.len(),
        parts.len() >= 1,
        forall|k: int| 0 <= k < parts.len() ==> is_identifier_seq(#[trigger] parts[k]),
        s.subrange(i, s.len() as int) == spec_dot_join(parts),
    ensures
        spec_qualified_ident(s, i) == (parts, s.len() as int),
{
    lemma_qident_of_join_at(s, i, s.len() as int, parts);
}

/// Law: for any qualified name, the type text `<name>?` parses to
/// `Optional` of the parse of the name — the text-embedding form of the
/// trailing-`?` rule.
#[verifier::spinoff_prover]
pub proof fn lemma_optional_wrap_round(parts: Seq<Seq<char>>)
    requires
        parts.len() >= 1,
        forall|k: int| 0 <= k < parts.len() ==> is_identifier_seq(#[trigger] parts[k]),
    ensures
        ({
            let s = spec_dot_join(parts) + seq!['?'];
            spec_parse_type_text(s) == SpecTypeExpr::Optional(
                Box::new(spec_parse_type_text(spec_dot_join(parts))),
            )
        }),
{
    let u = spec_dot_join(parts);
    let s = u + seq!['?'];
    let m = u.len() as int;
    let p0 = parts[0];
    lemma_join_chars(parts);
    lemma_simple_round_trip(parts);
    assert(s.len() == m + 1);
    assert(forall|k: int| 0 <= k < u.len() ==> s[k] == u[k]);
    assert(s[m] == '?');
    assert forall|k: int| 0 <= k < s.len() implies !is_ws_char(#[trigger] s[k]) by {
        if k < m {
            assert(s[k] == u[k]);
            assert(is_ident_char(u[k]) || u[k] == '.');
        }
    }
    lemma_trim_nonws(s);
    assert(s[0] == p0[0]) by {
        assert(u[0] == p0[0]) by {
            if parts.len() > 1 {
                assert(u == p0 + seq!['.'] + spec_dot_join(parts.drop_first()));
            }
        }
    }
    assert(is_ident_start_char(s[0]));
    assert(ws_run(s, 0) == 0);
    assert(s.subrange(0, m) =~= u);
    assert(ends_qname(s[m]));
    lemma_qident_of_join_at(s, 0, m, parts);
    assert(ws_run(s, m) == 0);
    assert(spec_parse_type_inner(s, 0) == (Some(SpecTypeExpr::Simple(parts)), m));
    assert(spec_parse_type_opt(s, 0) == (
        Some(SpecTypeExpr::Optional(Box::new(SpecTypeExpr::Simple(parts)))),
        m + 1,
    ));
    assert(ws_run(s, s.len() as int) == 0);
    assert(spec_parse_type_text(s) == SpecTypeExpr::Optional(
        Box::new(SpecTypeExpr::Simple(parts)),
    ));
}

/// Law: for any qualified name, the type text `List[<name>]` parses to
/// `List` of the parse of the interior — the text-embedding form of the
/// `List` special case, quantified over every dot-joined identifier name.
#[verifier::rlimit(100)]
#[verifier::spinoff_prover]
pub proof fn lemma_list_wrap_round(parts: Seq<Seq<char>>)
    requires
        parts.len() >= 1,
        forall|k: int| 0 <= k < parts.len() ==> is_identifier_seq(#[trigger] parts[k]),
    ensures
        ({
            let s = seq!['L', 'i', 's', 't', '['] + spec_dot_join(parts) + seq![']'];
            spec_parse_type_text(s) == SpecTypeExpr::List(
                Box::new(spec_parse_type_text(spec_dot_join(parts))),
            )
        }),
{
    let u = spec_dot_join(parts);
    let s = seq!['L', 'i', 's', 't', '['] + u + seq![']'];
    let p0 = parts[0];
    let m = u.len() as int + 5;
    lemma_join_chars(parts);
    lemma_simple_round_trip(parts);
    assert(s.len() == u.len() + 6);
    assert(s[0] == 'L' && s[1] == 'i' && s[2] == 's' && s[3] == 't' && s[4] == '[');
    assert(forall|k: int| 0 <= k < u.len() ==> s[5 + k] == u[k]);
    assert(s[m] == ']');
    // No character of the text is whitespace, so nothing is trimmed.
    assert forall|k: int| 0 <= k < s.len() implies !is_ws_char(#[trigger] s[k]) by {
        if 5 <= k < u.len() + 5 {
            assert(s[k] == u[k - 5]);
            assert(is_ident_char(u[k - 5]) || u[k - 5] == '.');
        }
    }
    lemma_trim_nonws(s);
    // The base name is exactly `List`.
    assert(ws_run(s, 0) == 0);
    assert forall|k: int| 1 <= k < 4 implies is_ident_char(#[trigger] s[k]) by {}
    lemma_ident_run_exact(s, 1, 4);
    assert(s.subrange(0, 4) =~= list_name());
    assert(ws_run(s, 4) == 0);
    assert(spec_qualified_ident(s, 0) == (seq![list_name()], 4int));
    // The element is the embedded name, read up to the closing bracket.
    assert(s[5] == p0[0]) by {
        assert(u[0] == p0[0]) by {
            if parts.len() > 1 {
                assert(u == p0 + seq!['.'] + spec_dot_join(parts.drop_first()));
            }
        }
    }
    assert(is_ident_start_char(s[5]));
    assert(!is_ws_char(s[5]) && s[5] != ']' && s[5] != '{');
    assert(ws_run(s, 5) == 0);
    assert(s.subrange(5, m) =~= u);
    assert(ends_qname(s[m]));
    lemma_qident_of_join_at(s, 5, m, parts);
    assert(ws_run(s, m) == 0);
    assert(spec_parse_type_inner(s, 5) == (Some(SpecTypeExpr::Simple(parts)), m));
    assert(spec_parse_type_opt(s, 5) == (Some(SpecTypeExpr::Simple(parts)), m));
    // The `List[` head takes the bracket branch and consumes the closer.
    assert(clamp_len(s, 5 + ws_run(s, 5) as int) == 5);
    assert(spec_parse_type_inner(s, 0) == (
        Some(SpecTypeExpr::List(Box::new(SpecTypeExpr::Simple(parts)))),
        m + 1,
    ));
    assert(ws_run(s, s.len() as int) == 0);
    assert(spec_parse_type_opt(s, 0) == (
        Some(SpecTypeExpr::List(Box::new(SpecTypeExpr::Simple(parts)))),
        s.len() as int,
    ));
    assert(spec_parse_type_text(s) == SpecTypeExpr::List(
        Box::new(SpecTypeExpr::Simple(parts)),
    ));
}

/// Law: for any identifier `f` other than `List` and any two qualified
/// names, the type text `f[<name1>,<name2>]` parses to a `Generic` with
/// base `f` whose arguments are the parses of the two interiors — the
/// text-embedding form of the bracket-generic rule.
#[verifier::rlimit(100)]
#[verifier::spinoff_prover]
pub proof fn lemma_bracket_generic_round(f: Seq<char>, p1: Seq<Seq<char>>, p2: Seq<Seq<char>>)
    requires
        is_identifier_seq(f),
        f != list_name(),
        p1.len() >= 1,
        p2.len() >= 1,
        forall|k: int| 0 <= k < p1.len() ==> is_identifier_seq(#[trigger] p1[k]),
        forall|k: int| 0 <= k < p2.len() ==> is_identifier_seq(#[trigger] p2[k]),
    ensures
        ({
            let u1 = spec_dot_join(p1);
            let u2 = spec_dot_join(p2);
            let s = f + seq!['['] + u1 + seq![','] + u2 + seq![']'];
            spec_parse_type_text(s) == SpecTypeExpr::Generic {
                base: seq![f],
                arguments: seq![spec_parse_type_text(u1), spec_parse_type_text(u2)],
            }
        }),
{
    let u1 = spec_dot_join(p1);
    let u2 = spec_dot_join(p2);
    let s = f + seq!['['] + u1 + seq![','] + u2 + seq![']'];
    let fl = f.len() as int;
    let m1 = fl + 1 + u1.len();
    let q = m1 + 1;
    let m2 = q + u2.len();
    lemma_join_chars(p1);
    lemma_join_chars(p2);
    lemma_simple_round_trip(p1);
    lemma_simple_round_trip(p2);
    assert(s.len() == m2 + 1);
    assert(forall|k: int| 0 <= k < fl ==> s[k] == f[k]);
    assert(s[fl] == '[');
    assert(forall|k: int| 0 <= k < u1.len() ==> s[fl + 1 + k] == u1[k]);
    assert(s[m1] == ',');
    assert(forall|k: int| 0 <= k < u2.len() ==> s[q + k] == u2[k]);
    assert(s[m2] == ']');
    // Nothing is whitespace, so nothing is trimmed.
    assert forall|k: int| 0 <= k < s.len() implies !is_ws_char(#[trigger] s[k]) by {
        if 0 <= k < fl {
            assert(s[k] == f[k]);
            if k == 0 {
                assert(is_ident_start_char(f[0]));
            } else {
                assert(is_ident_char(f[k]));
            }
        } else if fl + 1 <= k < m1 {
            assert(s[k] == u1[k - fl - 1]);
            assert(is_ident_char(u1[k - fl - 1]) || u1[k - fl - 1] == '.');
        } else if q <= k < m2 {
            assert(s[k] == u2[k - q]);
            assert(is_ident_char(u2[k - q]) || u2[k - q] == '.');
        }
    }
    lemma_trim_nonws(s);
    // The base name is exactly `f`, ended by the bracket.
    assert(s[0] == f[0] && is_ident_start_char(s[0]));
    assert(ws_run(s, 0) == 0);
    assert(s.subrange(0, fl) =~= f);
    assert(s.subrange(0, fl) =~= spec_dot_join(seq![f]));
    assert(ends_qname(s[fl]));
    assert(forall|k: int| 0 <= k < seq![f].len() ==> is_identifier_seq(#[trigger] seq![f][k]));
    lemma_qident_of_join_at(s, 0, fl, seq![f]);
    assert(ws_run(s, fl) == 0);
    // First argument: the first embedded name, ended by the comma.
    assert(s[fl + 1] == u1[0]);
    assert(u1[0] == p1[0][0]) by {
        if p1.len() > 1 {
            assert(u1 == p1[0] + seq!['.'] + spec_dot_join(p1.drop_first()));
        }
    }
    assert(is_ident_start_char(s[fl + 1]));
    assert(ws_run(s, fl + 1) == 0);
    assert(clamp_len(s, fl + 1 + ws_run(s, fl + 1) as int) == fl + 1);
    assert(s.subrange(fl + 1, m1) =~= u1);
    assert(ends_qname(s[m1]));
    lemma_qident_of_join_at(s, fl + 1, m1, p1);
    assert(ws_run(s, m1) == 0);
    assert(spec_parse_type_inner(s, fl + 1) == (Some(SpecTypeExpr::Simple(p1)), m1));
    assert(spec_parse_type_opt(s, fl + 1) == (Some(SpecTypeExpr::Simple(p1)), m1));
    // Second argument: the second embedded name, ended by the closer.
    assert(s[q] == u2[0]);
    assert(u2[0] == p2[0][0]) by {
        if p2.len() > 1 {
            assert(u2 == p2[0] + seq!['.'] + spec_dot_join(p2.drop_first()));
        }
    }
    assert(is_ident_start_char(s[q]));
    assert(ws_run(s, q) == 0);
    assert(clamp_len(s, q + ws_run(s, q) as int) == q);
    assert(s.subrange(q, m2) =~= u2);
    assert(ends_qname(s[m2]));
    lemma_qident_of_join_at(s, q, m2, p2);
    assert(ws_run(s, m2) == 0);
    assert(spec_parse_type_inner(s, q) == (Some(SpecTypeExpr::Simple(p2)), m2));
    assert(spec_parse_type_opt(s, q) == (Some(SpecTypeExpr::Simple(p2)), m2));
    // The argument list assembles in source order.
    assert(spec_parse_type_args(s, q, ']') == (seq![SpecTypeExpr::Simple(p2)], m2 + 1));
    assert(spec_parse_type_args(s, fl + 1, ']') == (
        seq![SpecTypeExpr::Simple(p1)] + seq![SpecTypeExpr::Simple(p2)],
        m2 + 1,
    ));
    assert(seq![SpecTypeExpr::Simple(p1)] + seq![SpecTypeExpr::Simple(p2)]
        =~= seq![SpecTypeExpr::Simple(p1), SpecTypeExpr::Simple(p2)]);
    // The whole text is the Generic with no leftover.
    assert(seq![f][0] == f && f != list_name());
    assert(spec_parse_type_inner(s, 0) == (
        Some(
            SpecTypeExpr::Generic {
                base: seq![f],
                arguments: seq![SpecTypeExpr::Simple(p1), SpecTypeExpr::Simple(p2)],
            },
        ),
        m2 + 1,
    ));
    assert(ws_run(s, s.len() as int) == 0);
    assert(spec_parse_type_text(s) == SpecTypeExpr::Generic {
        base: seq![f],
        arguments: seq![SpecTypeExpr::Simple(p1), SpecTypeExpr::Simple(p2)],
    });
}

/// The character layout of the struct-shape text
/// `{n1:<T1>,n2?:<T2>}` and the parses of its two embedded type names.
#[verifier::rlimit(100)]
#[verifier::spinoff_prover]
proof fn lemma_struct_shape_layout(
    n1: Seq<char>,
    p1: Seq<Seq<char>>,
    n2: Seq<char>,
    p2: Seq<Seq<char>>,
)
    requires
        is_identifier_seq(n1),
        is_identifier_seq(n2),
        p1.len() >= 1,
        p2.len() >= 1,
        forall|k: int| 0 <= k < p1.len() ==> is_identifier_seq(#[trigger] p1[k]),
        forall|k: int| 0 <= k < p2.len() ==> is_identifier_seq(#[trigger] p2[k]),
    ensures
        ({
            let u1 = spec_dot_join(p1);
            let u2 = spec_dot_join(p2);
            let s = seq!['{'] + n1 + seq![':'] + u1 + seq![','] + n2 + seq!['?', ':'] + u2
                + seq!['}'];
            let c1pos = 1 + n1.len() as int;
            let t1pos = c1pos + 1;
            let compos = t1pos + u1.len();
            let a3 = compos + 1;
            let qpos = a3 + n2.len();
            let c2pos = qpos + 1;
            let t2pos = c2pos + 1;
            let bpos = t2pos + u2.len();
            &&& s.len() == bpos + 1
            &&& spec_trim(s) == s
            &&& s[0] == '{'
            &&& s[c1pos] == ':' && s[compos] == ',' && s[qpos] == '?' && s[c2pos] == ':'
            &&& s[bpos] == '}'
            &&& is_ident_start_char(s[1]) && is_ident_start_char(s[a3])
            &&& ws_run(s, 0) == 0 && ws_run(s, 1) == 0 && ws_run(s, c1pos) == 0 && ws_run(
                s,
                compos,
            ) == 0
            &&& ws_run(s, a3) == 0 && ws_run(s, c2pos) == 0 && ws_run(s, bpos) == 0 && ws_run(
                s,
                s.len() as int,
            ) == 0
            &&& type_token_run(s, 1) == n1.len()
            &&& type_token_run(s, a3) == n2.len() + 1
            &&& s.subrange(1, c1pos) == n1
            &&& s.subrange(a3, c2pos) == n2 + seq!['?']
            &&& strip_trailing_q(n1) == n1
            &&& strip_trailing_q(n2 + seq!['?']) == n2
            &&& n1[n1.len() - 1] != '?'
            &&& (n2 + seq!['?'])[(n2 + seq!['?']).len() - 1] == '?'
            &&& spec_parse_type_opt(s, t1pos) == (Some(SpecTypeExpr::Simple(p1)), compos)
            &&& spec_parse_type_opt(s, t2pos) == (Some(SpecTypeExpr::Simple(p2)), bpos)
        }),
{
    let u1 = spec_dot_join(p1);
    let u2 = spec_dot_join(p2);
    let s = seq!['{'] + n1 + seq![':'] + u1 + seq![','] + n2 + seq!['?', ':'] + u2 + seq!['}'];
    let c1pos = 1 + n1.len() as int;
    let t1pos = c1pos + 1;
    let compos = t1pos + u1.len();
    let a3 = compos + 1;
    let qpos = a3 + n2.len();
    let c2pos = qpos + 1;
    let t2pos = c2pos + 1;
    let bpos = t2pos + u2.len();
    lemma_join_chars(p1);
    lemma_join_chars(p2);
    assert(s.len() == bpos + 1);
    assert(s[0] == '{');
    assert(forall|k: int| 0 <= k < n1.len() ==> s[1 + k] == n1[k]);
    assert(s[c1pos] == ':');
    assert(forall|k: int| 0 <= k < u1.len() ==> s[t1pos + k] == u1[k]);
    assert(s[compos] == ',');
    assert(forall|k: int| 0 <= k < n2.len() ==> s[a3 + k] == n2[k]);
    assert(s[qpos] == '?');
    assert(s[c2pos] == ':');
    assert(forall|k: int| 0 <= k < u2.len() ==> s[t2pos + k] == u2[k]);
    assert(s[bpos] == '}');
    assert forall|k: int| 0 <= k < s.len() implies !is_ws_char(#[trigger] s[k]) by {
        if 1 <= k < c1pos {
            assert(s[k] == n1[k - 1]);
            assert(is_ident_char(n1[k - 1]) || is_ident_start_char(n1[k - 1]));
        } else if t1pos <= k < compos {
            assert(s[k] == u1[k - t1pos]);
            assert(is_ident_char(u1[k - t1pos]) || u1[k - t1pos] == '.');
        } else if a3 <= k < qpos {
            assert(s[k] == n2[k - a3]);
            assert(is_ident_char(n2[k - a3]) || is_ident_start_char(n2[k - a3]));
        } else if t2pos <= k < bpos {
            assert(s[k] == u2[k - t2pos]);
            assert(is_ident_char(u2[k - t2pos]) || is_ident_start_char(u2[k - t2pos]) || u2[k
                - t2pos] == '.');
        }
    }
    lemma_trim_nonws(s);
    assert(s[1] == n1[0] && is_ident_start_char(n1[0]));
    assert forall|k: int| 1 <= k < c1pos implies is_type_token_char(#[trigger] s[k]) by {
        assert(s[k] == n1[k - 1]);
        if k == 1 {
            assert(is_ident_start_char(n1[0]));
        } else {
            assert(is_ident_char(n1[k - 1]));
        }
    }
    assert(!is_type_token_char(':'));
    lemma_token_run_exact(s, 1, c1pos);
    assert(s.subrange(1, c1pos) =~= n1);
    assert(is_ident_char(n1[n1.len() - 1]));
    assert(strip_trailing_q(n1) =~= n1) by {
        assert(q_run_back(n1, n1.len() as int) == 0);
    }
    assert(s[a3] == n2[0] && is_ident_start_char(n2[0]));
    assert forall|k: int| a3 <= k < c2pos implies is_type_token_char(#[trigger] s[k]) by {
        if k < qpos {
            assert(s[k] == n2[k - a3]);
            if k == a3 {
                assert(is_ident_start_char(n2[0]));
            } else {
                assert(is_ident_char(n2[k - a3]));
            }
        } else {
            assert(s[k] == '?');
        }
    }
    lemma_token_run_exact(s, a3, c2pos);
    let tok2 = n2 + seq!['?'];
    assert(s.subrange(a3, c2pos) =~= tok2);
    assert(tok2[tok2.len() - 1] == '?');
    assert(strip_trailing_q(tok2) =~= n2) by {
        assert(tok2[n2.len() - 1] == n2[n2.len() - 1]);
        assert(is_ident_char(n2[n2.len() - 1]));
        assert(q_run_back(tok2, n2.len() as int) == 0);
        assert(q_run_back(tok2, tok2.len() as int) == 1);
    }
    // The two embedded type names parse as Simple atoms ending at their
    // terminators.
    assert(s[t1pos] == u1[0]);
    assert(u1[0] == p1[0][0]) by {
        if p1.len() > 1 {
            assert(u1 == p1[0] + seq!['.'] + spec_dot_join(p1.drop_first()));
        }
    }
    assert(is_ident_start_char(s[t1pos]));
    assert(s.subrange(t1pos, compos) =~= u1);
    assert(ends_qname(s[compos]));
    lemma_qident_of_join_at(s, t1pos, compos, p1);
    assert(spec_parse_type_inner(s, t1pos) == (Some(SpecTypeExpr::Simple(p1)), compos));
    assert(s[t2pos] == u2[0]);
    assert(u2[0] == p2[0][0]) by {
        if p2.len() > 1 {
            assert(u2 == p2[0] + seq!['.'] + spec_dot_join(p2.drop_first()));
        }
    }
    assert(is_ident_start_char(s[t2pos]));
    assert(s.subrange(t2pos, bpos) =~= u2);
    assert(ends_qname(s[bpos]));
    lemma_qident_of_join_at(s, t2pos, bpos, p2);
    assert(spec_parse_type_inner(s, t2pos) == (Some(SpecTypeExpr::Simple(p2)), bpos));
}

/// Law: for any identifiers `n1`, `n2` and qualified names `T1`, `T2`,
/// the struct-shape text `{n1:<T1>,n2?:<T2>}` parses to a `Struct` whose
/// field names have the trailing `?` stripped, whose `optional` flags
/// record exactly which name carried the `?`, and whose types are the
/// parses of the interiors — the text-embedding form of the struct-shape
/// rule, in source order.
#[verifier::rlimit(100)]
#[verifier::spinoff_prover]
pub proof fn lemma_struct_shape_round(
    n1: Seq<char>,
    p1: Seq<Seq<char>>,
    n2: Seq<char>,
    p2: Seq<Seq<char>>,
)
    requires
        is_identifier_seq(n1),
        is_identifier_seq(n2),
        p1.len() >= 1,
        p2.len() >= 1,
        forall|k: int| 0 <= k < p1.len() ==> is_identifier_seq(#[trigger] p1[k]),
        forall|k: int| 0 <= k < p2.len() ==> is_identifier_seq(#[trigger] p2[k]),
    ensures
        ({
            let u1 = spec_dot_join(p1);
            let u2 = spec_dot_join(p2);
            let s = seq!['{'] + n1 + seq![':'] + u1 + seq![','] + n2 + seq!['?', ':'] + u2
                + seq!['}'];
            spec_parse_type_text(s) == SpecTypeExpr::Struct(
                seq![
                    SpecStructFieldType {
                        name: n1,
                        optional: false,
                        ty: spec_parse_type_text(u1),
                    },
                    SpecStructFieldType {
                        name: n2,
                        optional: true,
                        ty: spec_parse_type_text(u2),
                    },
                ],
            )
        }),
{
    let u1 = spec_dot_join(p1);
    let u2 = spec_dot_join(p2);
    let s = seq!['{'] + n1 + seq![':'] + u1 + seq![','] + n2 + seq!['?', ':'] + u2 + seq!['}'];
    let c1pos = 1 + n1.len() as int;
    let t1pos = c1pos + 1;
    let compos = t1pos + u1.len();
    let a3 = compos + 1;
    let qpos = a3 + n2.len();
    let c2pos = qpos + 1;
    let t2pos = c2pos + 1;
    let bpos = t2pos + u2.len();
    lemma_struct_shape_layout(n1, p1, n2, p2);
    lemma_simple_round_trip(p1);
    lemma_simple_round_trip(p2);
    let fld1 = SpecStructFieldType { name: n1, optional: false, ty: SpecTypeExpr::Simple(p1) };
    let fld2 = SpecStructFieldType { name: n2, optional: true, ty: SpecTypeExpr::Simple(p2) };
    assert(clamp_len(s, a3 + ws_run(s, a3) as int) == a3);
    assert(s[a3] != '}') by {
        assert(is_ident_start_char(s[a3]));
    }
    assert(spec_parse_struct_fields(s, a3) == (seq![fld2], bpos + 1));
    assert(clamp_len(s, 1 + ws_run(s, 1) as int) == 1);
    assert(s[1] != '}') by {
        assert(is_ident_start_char(s[1]));
    }
    assert(spec_parse_struct_fields(s, 1) == (seq![fld1] + seq![fld2], bpos + 1));
    assert(seq![fld1] + seq![fld2] =~= seq![fld1, fld2]);
    assert(spec_parse_type_inner(s, 0) == (
        Some(SpecTypeExpr::Struct(seq![fld1, fld2])),
        bpos + 1,
    ));
    assert(spec_parse_type_text(s) == SpecTypeExpr::Struct(seq![fld1, fld2]));
}

/// Law: parsing the canonical dot-joined rendering of a `Simple` type
/// expression yields that same `Simple` back, for any qualified name whose
/// components are identifiers.
pub proof fn lemma_simple_round_trip(parts: Seq<Seq<char>>)
    requires
        parts.len() >= 1,
        forall|k: int| 0 <= k < parts.len() ==> is_identifier_seq(#[trigger] parts[k]),
    ensures
        spec_parse_type_text(spec_dot_join(parts)) == SpecTypeExpr::Simple(parts),
{
    let u = spec_dot_join(parts);
    lemma_join_chars(parts);
    assert forall|k: int| 0 <= k < u.len() implies !is_ws_char(#[trigger] u[k]) by {
        assert(is_ident_char(u[k]) || u[k] == '.');
    }
    lemma_trim_nonws(u);
    assert(u.len() >= 1);
    assert(u.subrange(0, u.len() as int) =~= u);
    lemma_qident_of_join(u, 0, parts);
    // The inner atom is the whole text: no whitespace to skip, the name
    // consumes everything, and no bracket or `?` follows.
    assert(ws_run(u, 0) == 0);
    assert(u[0] == parts[0][0] || parts.len() > 1) by {
        if parts.len() == 1 {
            assert(u == parts[0]);
        } else {
            assert(u == parts[0] + seq!['.'] + spec_dot_join(parts.drop_first()));
        }
    }
    assert(u[0] != '{') by {
        assert(is_ident_char(u[0]) || u[0] == '.');
    }
    assert(ws_run(u, u.len() as int) == 0);
    assert(spec_parse_type_inner(u, 0) == (
        Some(SpecTypeExpr::Simple(parts)),
        u.len() as int,
    ));
    assert(spec_parse_type_opt(u, 0) == (Some(SpecTypeExpr::Simple(parts)), u.len() as int));
}

} // verus!
