//! The module header: an optional `module` declaration followed by any
//! number of `import` clauses.
//!
//! An import's tail may carry an `as` alias and a `{ ... }` member list in
//! either order.  Unlike the tolerant item phase, the header fails the
//! whole parse on a malformed shape: a `module` keyword without a name, an
//! `import` without a path, an `as` without an identifier, or a malformed
//! member list.

use vstd::prelude::*;
use vstd::string::StrSliceExecFns;

use crate::ast::{Import, SpecImport, SpecModule};
use crate::scan::{keyword_at, keyword_at_exec, kw_as, kw_import, kw_module, skip_ws,
    spec_skip_ws, spec_take_ident, take_ident};

verus! {

/// A dotted qualified name in header position: identifiers separated by
/// `.`; whitespace and comments may surround the dots.  The end position is
/// past the name's trailing whitespace; a dot not followed by an identifier
/// is left unconsumed.
pub open spec fn spec_header_qname(s: Seq<char>, i: int) -> Option<(Seq<Seq<char>>, int)>
    decreases s.len() - i,
{
    match spec_take_ident(s, i) {
        None => None,
        Some((tok, e)) => {
            let p = spec_skip_ws(s, e);
            if p < s.len() && s[p] == '.' {
                let q = spec_skip_ws(s, p + 1);
                if i < q <= s.len() {
                    match spec_header_qname(s, q) {
                        Some((rest, g)) => Some((seq![tok] + rest, g)),
                        None => Some((seq![tok], p)),
                    }
                } else {
                    Some((seq![tok], p))
                }
            } else {
                Some((seq![tok], p))
            }
        },
    }
}

/// Member-list items after the opening `{` (whitespace skipped):
/// identifiers with commas, a trailing comma allowed.  An immediate `}`
/// ends the list here, which is how a trailing comma is honoured; the
/// grammar's one-or-more requirement is enforced by [`spec_member_list`].
pub open spec fn spec_member_items(s: Seq<char>, a: int) -> Option<(Seq<Seq<char>>, int)>
    decreases s.len() - a,
{
    if a < s.len() && 0 <= a && s[a] == '}' {
        Some((Seq::empty(), spec_skip_ws(s, a + 1)))
    } else {
        match spec_take_ident(s, a) {
            None => None,
            Some((tok, e)) => {
                let b = spec_skip_ws(s, e);
                if b < s.len() && s[b] == ',' {
                    let c = spec_skip_ws(s, b + 1);
                    if a < c <= s.len() {
                        match spec_member_items(s, c) {
                            None => None,
                            Some((rest, t)) => Some((seq![tok] + rest, t)),
                        }
                    } else {
                        None
                    }
                } else if b < s.len() && s[b] == '}' {
                    Some((seq![tok], spec_skip_ws(s, b + 1)))
                } else {
                    None
                }
            },
        }
    }
}

/// A `{ m1, m2, ... }` member list starting at the `{`: at least one
/// identifier; an empty `{ }` is malformed.
pub open spec fn spec_member_list(s: Seq<char>, i: int) -> Option<(Seq<Seq<char>>, int)> {
    if 0 <= i < s.len() && s[i] == '{' {
        let a = spec_skip_ws(s, i + 1);
        if a < s.len() && s[a] == '}' {
            None
        } else {
            spec_member_items(s, a)
        }
    } else {
        None
    }
}

/// One import clause whose `import` keyword stands at `j`: the qualified
/// path, then in either order an optional alias and member list.
pub open spec fn spec_parse_import_clause(s: Seq<char>, j: int) -> Option<(SpecImport, int)> {
    let k = spec_skip_ws(s, j + 6);
    match spec_header_qname(s, k) {
        None => None,
        Some((path, m)) => {
            if keyword_at(s, m, kw_as()) {
                let a1 = spec_skip_ws(s, m + 2);
                match spec_take_ident(s, a1) {
                    None => None,
                    Some((al, r)) => {
                        let r2 = spec_skip_ws(s, r);
                        if r2 < s.len() && s[r2] == '{' {
                            match spec_member_list(s, r2) {
                                None => None,
                                Some((ms, t)) => Some(
                                    (
                                        SpecImport {
                                            path,
                                            members: Some(ms),
                                            alias: Some(al),
                                        },
                                        t,
                                    ),
                                ),
                            }
                        } else {
                            Some((SpecImport { path, members: None, alias: Some(al) }, r2))
                        }
                    },
                }
            } else if m < s.len() && 0 <= m && s[m] == '{' {
                match spec_member_list(s, m) {
                    None => None,
                    Some((ms, t)) => {
                        if keyword_at(s, t, kw_as()) {
                            let a1 = spec_skip_ws(s, t + 2);
                            match spec_take_ident(s, a1) {
                                None => None,
                                Some((al, r)) => Some(
                                    (
                                        SpecImport {
                                            path,
                                            members: Some(ms),
                                            alias: Some(al),
                                        },
                                        spec_skip_ws(s, r),
                                    ),
                                ),
                            }
                        } else {
                            Some((SpecImport { path, members: Some(ms), alias: None }, t))
                        }
                    },
                }
            } else {
                Some((SpecImport { path, members: None, alias: None }, m))
            }
        },
    }
}

/// Zero or more import clauses from `i`; stops before the first position
/// where no `import` keyword follows the skipped whitespace.
pub open spec fn spec_parse_imports(s: Seq<char>, i: int) -> Option<(Seq<SpecImport>, int)>
    decreases s.len() - i,
{
    let j = spec_skip_ws(s, i);
    if keyword_at(s, j, kw_import()) {
        match spec_parse_import_clause(s, j) {
            None => None,
            Some((imp, k)) => {
                if i < k <= s.len() {
                    match spec_parse_imports(s, k) {
                        None => None,
                        Some((rest, r)) => Some((seq![imp] + rest, r)),
                    }
                } else {
                    Some((seq![imp], k))
                }
            },
        }
    } else {
        Some((Seq::empty(), j))
    }
}

/// The whole module: header, then items over the remainder.  `None` is a
/// parse failure.
pub open spec fn spec_parse_module_src(s: Seq<char>) -> Option<SpecModule> {
    let i0 = spec_skip_ws(s, 0);
    if keyword_at(s, i0, kw_module()) {
        let j = spec_skip_ws(s, i0 + 6);
        match spec_header_qname(s, j) {
            None => None,
            Some((nm, k)) => {
                match spec_parse_imports(s, k) {
                    None => None,
                    Some((imps, r)) => Some(
                        SpecModule {
                            name: Some(nm),
                            imports: imps,
                            items: crate::decl::spec_parse_items(s, spec_skip_ws(s, r)),
                        },
                    ),
                }
            },
        }
    } else {
        match spec_parse_imports(s, i0) {
            None => None,
            Some((imps, r)) => Some(
                SpecModule {
                    name: None,
                    imports: imps,
                    items: crate::decl::spec_parse_items(s, spec_skip_ws(s, r)),
                },
            ),
        }
    }
}

#[verifier::spinoff_prover]
pub fn header_qname(s: &str, i: usize) -> (r: Option<(Vec<String>, usize)>)
    requires
        i <= s@.len(),
    ensures
        match spec_header_qname(s@, i as int) {
            Some((parts, e)) => {
                &&& r is Some
                &&& (r->0).0.deep_view() == parts
                &&& (r->0).1 == e
                &&& i < e <= s@.len()
            },
            None => r is None,
        },
    decreases s@.len() - i,
{
    let n = s.unicode_len();
    match take_ident(s, i) {
        None => None,
        Some((tok, e)) => {
            let p = skip_ws(s, e);
            if p < n && s.get_char(p) == '.' {
                let q = skip_ws(s, p + 1);
                match header_qname(s, q) {
                    Some((rest, g)) => {
                        let ghost tokg = tok@;
                        let ghost restv = rest.deep_view();
                        let mut v = rest;
                        v.insert(0, tok);
                        proof {
                            assert(v.deep_view() =~= seq![tokg] + restv);
                        }
                        Some((v, g))
                    },
                    None => {
                        let ghost tokg = tok@;
                        let mut v: Vec<String> = Vec::new();
                        v.push(tok);
                        proof {
                            assert(v.deep_view() =~= seq![tokg]);
                        }
                        Some((v, p))
                    },
                }
            } else {
                let ghost tokg = tok@;
                let mut v: Vec<String> = Vec::new();
                v.push(tok);
                proof {
                    assert(v.deep_view() =~= seq![tokg]);
                }
                Some((v, p))
            }
        },
    }
}

#[verifier::spinoff_prover]
fn member_items(s: &str, a: usize) -> (r: Option<(Vec<String>, usize)>)
    requires
        a <= s@.len(),
    ensures
        match spec_member_items(s@, a as int) {
            Some((ms, t)) => {
                &&& r is Some
                &&& (r->0).0.deep_view() == ms
                &&& (r->0).1 == t
                &&& a < t <= s@.len()
            },
            None => r is None,
        },
    decreases s@.len() - a,
{
    let n = s.unicode_len();
    if a < n && s.get_char(a) == '}' {
        let v: Vec<String> = Vec::new();
        proof {
            assert(v.deep_view() =~= Seq::<Seq<char>>::empty());
        }
        return Some((v, skip_ws(s, a + 1)));
    }
    match take_ident(s, a) {
        None => None,
        Some((tok, e)) => {
            let b = skip_ws(s, e);
            if b < n && s.get_char(b) == ',' {
                let c = skip_ws(s, b + 1);
                match member_items(s, c) {
                    None => None,
                    Some((rest, t)) => {
                        let ghost tokg = tok@;
                        let ghost restv = rest.deep_view();
                        let mut v = rest;
                        v.insert(0, tok);
                        proof {
                            assert(v.deep_view() =~= seq![tokg] + restv);
                        }
                        Some((v, t))
                    },
                }
            } else if b < n && s.get_char(b) == '}' {
                let ghost tokg = tok@;
                let mut v: Vec<String> = Vec::new();
                v.push(tok);
                proof {
                    assert(v.deep_view() =~= seq![tokg]);
                }
                Some((v, skip_ws(s, b + 1)))
            } else {
                None
            }
        },
    }
}

fn member_list(s: &str, i: usize) -> (r: Option<(Vec<String>, usize)>)
    requires
        i <= s@.len(),
    ensures
        match spec_member_list(s@, i as int) {
            Some((ms, t)) => {
                &&& r is Some
                &&& (r->0).0.deep_view() == ms
                &&& (r->0).1 == t
                &&& i < t <= s@.len()
            },
            None => r is None,
        },
{
    let n = s.unicode_len();
    if i < n && s.get_char(i) == '{' {
        let a = skip_ws(s, i + 1);
        if a < n && s.get_char(a) == '}' {
            None
        } else {
            member_items(s, a)
        }
    } else {
        None
    }
}

#[verifier::spinoff_prover]
fn import_clause(s: &str, j: usize) -> (r: Option<(Import, usize)>)
    requires
        j + 6 <= s@.len(),
    ensures
        match spec_parse_import_clause(s@, j as int) {
            Some((imp, k)) => {
                &&& r is Some
                &&& (r->0).0@ == imp
                &&& (r->0).1 == k
                &&& j < k <= s@.len()
            },
            None => r is None,
        },
{
    proof {
        reveal_strlit("as");
        assert("as"@ =~= kw_as());
    }
    let n = s.unicode_len();
    let k = skip_ws(s, j + 6);
    match header_qname(s, k) {
        None => None,
        Some((path, m)) => {
            if keyword_at_exec(s, m, "as") {
                let a1 = skip_ws(s, m + 2);
                match take_ident(s, a1) {
                    None => None,
                    Some((al, r0)) => {
                        let r2 = skip_ws(s, r0);
                        if r2 < n && s.get_char(r2) == '{' {
                            match member_list(s, r2) {
                                None => None,
                                Some((ms, t)) => Some(
                                    (
                                        Import { path, members: Some(ms), alias: Some(al) },
                                        t,
                                    ),
                                ),
                            }
                        } else {
                            Some((Import { path, members: None, alias: Some(al) }, r2))
                        }
                    },
                }
            } else if m < n && s.get_char(m) == '{' {
                match member_list(s, m) {
                    None => None,
                    Some((ms, t)) => {
                        if keyword_at_exec(s, t, "as") {
                            let a1 = skip_ws(s, t + 2);
                            match take_ident(s, a1) {
                                None => None,
                                Some((al, r0)) => {
                                    let r2 = skip_ws(s, r0);
                                    Some(
                                        (
                                            Import {
                                                path,
                                                members: Some(ms),
                                                alias: Some(al),
                                            },
                                            r2,
                                        ),
                                    )
                                },
                            }
                        } else {
                            Some((Import { path, members: Some(ms), alias: None }, t))
                        }
                    },
                }
            } else {
                Some((Import { path, members: None, alias: None }, m))
            }
        },
    }
}

#[verifier::spinoff_prover]
pub fn parse_imports(s: &str, i: usize) -> (r: Option<(Vec<Import>, usize)>)
    requires
        i <= s@.len(),
    ensures
        match spec_parse_imports(s@, i as int) {
            Some((imps, e)) => {
                &&& r is Some
                &&& (r->0).0.deep_view() == imps
                &&& (r->0).1 == e
                &&& e <= s@.len()
            },
            None => r is None,
        },
    decreases s@.len() - i,
{
    proof {
        reveal_strlit("import");
        assert("import"@ =~= kw_import());
    }
    let j = skip_ws(s, i);
    if keyword_at_exec(s, j, "import") {
        proof {
            reveal_strlit("import");
        }
        match import_clause(s, j) {
            None => None,
            Some((imp, k)) => {
                match parse_imports(s, k) {
                    None => None,
                    Some((rest, r2)) => {
                        let ghost impg = imp@;
                        let ghost restv = rest.deep_view();
                        let mut v = rest;
                        v.insert(0, imp);
                        proof {
                            assert(v.deep_view() =~= seq![impg] + restv);
                        }
                        Some((v, r2))
                    },
                }
            },
        }
    } else {
        let v: Vec<Import> = Vec::new();
        proof {
            assert(v.deep_view() =~= Seq::<SpecImport>::empty());
        }
        Some((v, j))
    }
}

} // verus!
