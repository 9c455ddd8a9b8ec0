//! The expression recognizer.
//!
//! On trimmed text it tries, in priority order: struct literal, call,
//! binary (rightmost operator at bracket depth zero), optional chain,
//! member access, index, identifier, literal; anything else is kept as raw
//! text.  A call or struct literal is recognized only when the matching
//! closer ends the trimmed text.

use vstd::prelude::*;
use vstd::string::StrSliceExecFns;
use vstd::string::StringExecFns;

use crate::ast::{Expression, Ident, SpecExpression, view_expr_list, view_expression,
    view_field_expr_list};
use crate::scan::{copy_range, digit_run, is_identifier_seq, is_identifier_str, match_at,
    match_seq, spec_trim, trim_str, ws_run};

verus! {

pub open spec fn is_open_bracket(c: char) -> bool {
    c == '(' || c == '[' || c == '{'
}

pub open spec fn is_close_bracket(c: char) -> bool {
    c == ')' || c == ']' || c == '}'
}

pub fn open_bracket(c: char) -> (b: bool)
    ensures
        b == is_open_bracket(c),
{
    c == '(' || c == '[' || c == '{'
}

pub fn close_bracket(c: char) -> (b: bool)
    ensures
        b == is_close_bracket(c),
{
    c == ')' || c == ']' || c == '}'
}

// ------------------------------------------------------------------
// Depth-tracking scans.
// ------------------------------------------------------------------

/// Leftmost occurrence of `target` at bracket depth zero, scanning left to
/// right; the depth saturates at zero, as the argument splitter does.
pub open spec fn find_at_depth0(s: Seq<char>, i: int, depth: int, target: char) -> Option<int>
    decreases s.len() - i,
{
    if !(0 <= i < s.len()) {
        None
    } else if depth == 0 && s[i] == target {
        Some(i)
    } else {
        let d2 = if is_open_bracket(s[i]) {
            depth + 1
        } else if is_close_bracket(s[i]) && depth > 0 {
            depth - 1
        } else {
            depth
        };
        find_at_depth0(s, i + 1, d2, target)
    }
}

/// Position of the closer matching an already-consumed opener (depth starts
/// at one).  When the depth returns to zero on a closer other than
/// `closer`, the brackets are mismatched and the scan fails.
pub open spec fn find_close(s: Seq<char>, i: int, depth: int, closer: char) -> Option<int>
    decreases s.len() - i,
{
    if !(0 <= i < s.len()) {
        None
    } else {
        let c = s[i];
        if is_open_bracket(c) {
            find_close(s, i + 1, depth + 1, closer)
        } else if is_close_bracket(c) {
            if depth == 1 {
                if c == closer {
                    Some(i)
                } else {
                    None
                }
            } else {
                find_close(s, i + 1, depth - 1, closer)
            }
        } else {
            find_close(s, i + 1, depth, closer)
        }
    }
}

pub fn find_at_depth0_exec(s: &str, i: usize, depth: usize, target: char) -> (r: Option<usize>)
    requires
        i <= s@.len(),
        depth <= i,
    ensures
        match find_at_depth0(s@, i as int, depth as int, target) {
            Some(k) => r is Some && r->0 == k && i <= k < s@.len(),
            None => r is None,
        },
    decreases s@.len() - i,
{
    let n = s.unicode_len();
    if i >= n {
        return None;
    }
    let c = s.get_char(i);
    if depth == 0 && c == target {
        Some(i)
    } else {
        let d2 = if open_bracket(c) {
            depth + 1
        } else if close_bracket(c) && depth > 0 {
            depth - 1
        } else {
            depth
        };
        find_at_depth0_exec(s, i + 1, d2, target)
    }
}

pub fn find_close_exec(s: &str, i: usize, depth: usize, closer: char) -> (r: Option<usize>)
    requires
        i <= s@.len(),
        1 <= depth <= i,
    ensures
        match find_close(s@, i as int, depth as int, closer) {
            Some(k) => r is Some && r->0 == k && i <= k < s@.len(),
            None => r is None,
        },
    decreases s@.len() - i,
{
    let n = s.unicode_len();
    if i >= n {
        return None;
    }
    let c = s.get_char(i);
    if open_bracket(c) {
        find_close_exec(s, i + 1, depth + 1, closer)
    } else if close_bracket(c) {
        if depth == 1 {
            if c == closer {
                Some(i)
            } else {
                None
            }
        } else {
            find_close_exec(s, i + 1, depth - 1, closer)
        }
    } else {
        find_close_exec(s, i + 1, depth, closer)
    }
}

// ------------------------------------------------------------------
// Right-to-left scans (`j` is one past the scan position; the depth counts
// closers minus openers seen so far and may go negative on unbalanced
// text).
// ------------------------------------------------------------------

/// The thirteen binary operators, longest forms first.
pub open spec fn binop_at(s: Seq<char>, idx: int) -> Option<(int, Seq<char>)> {
    if op_ok(s, idx, seq!['=', '=']) {
        Some((idx - 1, seq!['=', '=']))
    } else if op_ok(s, idx, seq!['!', '=']) {
        Some((idx - 1, seq!['!', '=']))
    } else if op_ok(s, idx, seq!['<', '=']) {
        Some((idx - 1, seq!['<', '=']))
    } else if op_ok(s, idx, seq!['>', '=']) {
        Some((idx - 1, seq!['>', '=']))
    } else if op_ok(s, idx, seq!['&', '&']) {
        Some((idx - 1, seq!['&', '&']))
    } else if op_ok(s, idx, seq!['|', '|']) {
        Some((idx - 1, seq!['|', '|']))
    } else if op_ok(s, idx, seq!['+']) {
        Some((idx, seq!['+']))
    } else if op_ok(s, idx, seq!['-']) {
        Some((idx, seq!['-']))
    } else if op_ok(s, idx, seq!['*']) {
        Some((idx, seq!['*']))
    } else if op_ok(s, idx, seq!['/']) {
        Some((idx, seq!['/']))
    } else if op_ok(s, idx, seq!['%']) {
        Some((idx, seq!['%']))
    } else if op_ok(s, idx, seq!['<']) {
        Some((idx, seq!['<']))
    } else if op_ok(s, idx, seq!['>']) {
        Some((idx, seq!['>']))
    } else {
        None
    }
}

/// An operator candidate ending at `idx` whose left and right sides are
/// both non-empty after trimming.
pub open spec fn op_ok(s: Seq<char>, idx: int, op: Seq<char>) -> bool {
    &&& idx + 1 - op.len() >= 0
    &&& idx + 1 <= s.len()
    &&& match_at(s, idx + 1 - op.len(), op)
    &&& spec_trim(s.subrange(0, idx + 1 - op.len())).len() > 0
    &&& spec_trim(s.subrange(idx + 1, s.len() as int)).len() > 0
}

/// Rightmost binary operator at depth zero: start position and operator.
pub open spec fn find_binop(s: Seq<char>, j: int, depth: int) -> Option<(int, Seq<char>)>
    decreases j,
{
    if j <= 0 || j > s.len() {
        None
    } else {
        let idx = j - 1;
        let c = s[idx];
        if is_close_bracket(c) {
            find_binop(s, j - 1, depth + 1)
        } else if is_open_bracket(c) {
            find_binop(s, j - 1, depth - 1)
        } else if depth == 0 {
            match binop_at(s, idx) {
                Some(r) => Some(r),
                None => find_binop(s, j - 1, depth),
            }
        } else {
            find_binop(s, j - 1, depth)
        }
    }
}

/// Rightmost `?.` at depth zero whose property side is an identifier and
/// whose target side is non-empty: position of the `?`.
pub open spec fn find_optchain(s: Seq<char>, j: int, depth: int) -> Option<int>
    decreases j,
{
    if j <= 0 || j > s.len() {
        None
    } else {
        let idx = j - 1;
        let c = s[idx];
        if is_close_bracket(c) {
            find_optchain(s, j - 1, depth + 1)
        } else if is_open_bracket(c) {
            find_optchain(s, j - 1, depth - 1)
        } else if depth == 0 && c == '?' && idx + 1 < s.len() && s[idx + 1] == '.'
            && is_identifier_seq(spec_trim(s.subrange(idx + 2, s.len() as int))) && spec_trim(
            s.subrange(0, idx),
        ).len() > 0 {
            Some(idx)
        } else {
            find_optchain(s, j - 1, depth)
        }
    }
}

/// Rightmost `.` at depth zero whose property side is an identifier and
/// whose target side is non-empty.
pub open spec fn find_member(s: Seq<char>, j: int, depth: int) -> Option<int>
    decreases j,
{
    if j <= 0 || j > s.len() {
        None
    } else {
        let idx = j - 1;
        let c = s[idx];
        if is_close_bracket(c) {
            find_member(s, j - 1, depth + 1)
        } else if is_open_bracket(c) {
            find_member(s, j - 1, depth - 1)
        } else if depth == 0 && c == '.' && is_identifier_seq(
            spec_trim(s.subrange(idx + 1, s.len() as int)),
        ) && spec_trim(s.subrange(0, idx)).len() > 0 {
            Some(idx)
        } else {
            find_member(s, j - 1, depth)
        }
    }
}

/// The `[` matching a `]` that ends the text: scan right to left from the
/// character before the `]` with depth one.
pub open spec fn find_index_open(s: Seq<char>, j: int, depth: int) -> Option<int>
    decreases j,
{
    if j <= 0 || j > s.len() {
        None
    } else {
        let idx = j - 1;
        let c = s[idx];
        if is_close_bracket(c) {
            find_index_open(s, j - 1, depth + 1)
        } else if is_open_bracket(c) {
            if depth == 1 {
                if c == '[' {
                    Some(idx)
                } else {
                    None
                }
            } else {
                find_index_open(s, j - 1, depth - 1)
            }
        } else {
            find_index_open(s, j - 1, depth)
        }
    }
}

fn trimmed_nonempty(s: &str, lo: usize, hi: usize) -> (b: bool)
    requires
        lo <= hi <= s@.len(),
    ensures
        b == (spec_trim(s@.subrange(lo as int, hi as int)).len() > 0),
{
    let piece = copy_range(s, lo, hi);
    let t = trim_str(piece.as_str());
    !t.as_str().is_empty()
}

#[verifier::spinoff_prover]
fn binop_at_exec(s: &str, idx: usize) -> (r: Option<(usize, String)>)
    requires
        idx < s@.len(),
    ensures
        match binop_at(s@, idx as int) {
            Some((a, op)) => {
                &&& r is Some
                &&& (r->0).0 == a
                &&& (r->0).1@ == op
                &&& 0 <= a <= idx
            },
            None => r is None,
        },
{
    proof {
        reveal_strlit("==");
        reveal_strlit("!=");
        reveal_strlit("<=");
        reveal_strlit(">=");
        reveal_strlit("&&");
        reveal_strlit("||");
        reveal_strlit("+");
        reveal_strlit("-");
        reveal_strlit("*");
        reveal_strlit("/");
        reveal_strlit("%");
        reveal_strlit("<");
        reveal_strlit(">");
        assert("=="@ =~= seq!['=', '=']);
        assert("!="@ =~= seq!['!', '=']);
        assert("<="@ =~= seq!['<', '=']);
        assert(">="@ =~= seq!['>', '=']);
        assert("&&"@ =~= seq!['&', '&']);
        assert("||"@ =~= seq!['|', '|']);
        assert("+"@ =~= seq!['+']);
        assert("-"@ =~= seq!['-']);
        assert("*"@ =~= seq!['*']);
        assert("/"@ =~= seq!['/']);
        assert("%"@ =~= seq!['%']);
        assert("<"@ =~= seq!['<']);
        assert(">"@ =~= seq!['>']);
    }
    if let Some(r) = try_op(s, idx, "==") {
        return Some(r);
    }
    if let Some(r) = try_op(s, idx, "!=") {
        return Some(r);
    }
    if let Some(r) = try_op(s, idx, "<=") {
        return Some(r);
    }
    if let Some(r) = try_op(s, idx, ">=") {
        return Some(r);
    }
    if let Some(r) = try_op(s, idx, "&&") {
        return Some(r);
    }
    if let Some(r) = try_op(s, idx, "||") {
        return Some(r);
    }
    if let Some(r) = try_op(s, idx, "+") {
        return Some(r);
    }
    if let Some(r) = try_op(s, idx, "-") {
        return Some(r);
    }
    if let Some(r) = try_op(s, idx, "*") {
        return Some(r);
    }
    if let Some(r) = try_op(s, idx, "/") {
        return Some(r);
    }
    if let Some(r) = try_op(s, idx, "%") {
        return Some(r);
    }
    if let Some(r) = try_op(s, idx, "<") {
        return Some(r);
    }
    if let Some(r) = try_op(s, idx, ">") {
        return Some(r);
    }
    None
}

fn try_op(s: &str, idx: usize, op: &str) -> (r: Option<(usize, String)>)
    requires
        idx < s@.len(),
    ensures
        match r {
            Some((a, o)) => op_ok(s@, idx as int, op@) && a == idx + 1 - op@.len() && o@ == op@,
            None => !op_ok(s@, idx as int, op@),
        },
{
    let n = s.unicode_len();
    let m = op.unicode_len();
    if m > idx + 1 {
        return None;
    }
    let a = idx + 1 - m;
    if !match_seq(s, a, op) {
        return None;
    }
    if !trimmed_nonempty(s, 0, a) {
        return None;
    }
    if !trimmed_nonempty(s, idx + 1, n) {
        return None;
    }
    Some((a, String::from_str(op)))
}

proof fn lemma_find_binop_props(s: Seq<char>, j: int, depth: int)
    ensures
        match find_binop(s, j, depth) {
            Some((a, op)) => 0 <= a && 1 <= op.len() && a + op.len() <= s.len(),
            None => true,
        },
    decreases j,
{
    if j <= 0 || j > s.len() {
    } else {
        let idx = j - 1;
        let c = s[idx];
        if is_close_bracket(c) {
            lemma_find_binop_props(s, j - 1, depth + 1);
        } else if is_open_bracket(c) {
            lemma_find_binop_props(s, j - 1, depth - 1);
        } else if depth == 0 {
            if binop_at(s, idx) is None {
                lemma_find_binop_props(s, j - 1, depth);
            }
        } else {
            lemma_find_binop_props(s, j - 1, depth);
        }
    }
}

fn find_binop_exec(s: &str, j: usize, depth: Ghost<int>, dep: i128) -> (r: Option<(usize, String)>)
    requires
        j <= s@.len(),
        dep as int == depth@,
        -((s@.len() - j) as int) <= depth@ <= (s@.len() - j) as int,
    ensures
        match find_binop(s@, j as int, depth@) {
            Some((a, op)) => {
                &&& r is Some
                &&& (r->0).0 == a
                &&& (r->0).1@ == op
                &&& 0 <= a < s@.len()
                &&& 1 <= op.len()
                &&& a + op.len() <= s@.len()
            },
            None => r is None,
        },
    decreases j,
{
    let n = s.unicode_len();
    proof {
        lemma_find_binop_props(s@, j as int, depth@);
    }
    if j == 0 {
        return None;
    }
    let idx = j - 1;
    let c = s.get_char(idx);
    if close_bracket(c) {
        find_binop_exec(s, j - 1, Ghost(depth@ + 1), dep + 1)
    } else if open_bracket(c) {
        find_binop_exec(s, j - 1, Ghost(depth@ - 1), dep - 1)
    } else if dep == 0 {
        match binop_at_exec(s, idx) {
            Some(r) => Some(r),
            None => find_binop_exec(s, j - 1, depth, dep),
        }
    } else {
        find_binop_exec(s, j - 1, depth, dep)
    }
}

fn find_optchain_exec(s: &str, j: usize, depth: Ghost<int>, dep: i128) -> (r: Option<usize>)
    requires
        j <= s@.len(),
        dep as int == depth@,
        -((s@.len() - j) as int) <= depth@ <= (s@.len() - j) as int,
    ensures
        match find_optchain(s@, j as int, depth@) {
            Some(k) => r is Some && r->0 == k && 0 <= k && k + 2 <= s@.len(),
            None => r is None,
        },
    decreases j,
{
    let n = s.unicode_len();
    if j == 0 {
        return None;
    }
    let idx = j - 1;
    let c = s.get_char(idx);
    if close_bracket(c) {
        find_optchain_exec(s, j - 1, Ghost(depth@ + 1), dep + 1)
    } else if open_bracket(c) {
        find_optchain_exec(s, j - 1, Ghost(depth@ - 1), dep - 1)
    } else if dep == 0 && c == '?' && idx + 1 < n && s.get_char(idx + 1) == '.' && {
        let prop = copy_range(s, idx + 2, n);
        let propt = trim_str(prop.as_str());
        is_identifier_str(propt.as_str())
    } && trimmed_nonempty(s, 0, idx) {
        Some(idx)
    } else {
        find_optchain_exec(s, j - 1, depth, dep)
    }
}

fn find_member_exec(s: &str, j: usize, depth: Ghost<int>, dep: i128) -> (r: Option<usize>)
    requires
        j <= s@.len(),
        dep as int == depth@,
        -((s@.len() - j) as int) <= depth@ <= (s@.len() - j) as int,
    ensures
        match find_member(s@, j as int, depth@) {
            Some(k) => r is Some && r->0 == k && 0 <= k < s@.len(),
            None => r is None,
        },
    decreases j,
{
    let n = s.unicode_len();
    if j == 0 {
        return None;
    }
    let idx = j - 1;
    let c = s.get_char(idx);
    if close_bracket(c) {
        find_member_exec(s, j - 1, Ghost(depth@ + 1), dep + 1)
    } else if open_bracket(c) {
        find_member_exec(s, j - 1, Ghost(depth@ - 1), dep - 1)
    } else if dep == 0 && c == '.' && {
        let prop = copy_range(s, idx + 1, n);
        let propt = trim_str(prop.as_str());
        is_identifier_str(propt.as_str())
    } && trimmed_nonempty(s, 0, idx) {
        Some(idx)
    } else {
        find_member_exec(s, j - 1, depth, dep)
    }
}

fn find_index_open_exec(s: &str, j: usize, depth: Ghost<int>, dep: i128) -> (r: Option<usize>)
    requires
        j <= s@.len(),
        dep as int == depth@,
        1 <= depth@,
        depth@ - 1 <= (s@.len() - j) as int + 1,
    ensures
        match find_index_open(s@, j as int, depth@) {
            Some(k) => r is Some && r->0 == k && 0 <= k && k + 1 <= j,
            None => r is None,
        },
    decreases j,
{
    let n = s.unicode_len();
    if j == 0 || j > n {
        return None;
    }
    let idx = j - 1;
    let c = s.get_char(idx);
    if close_bracket(c) {
        find_index_open_exec(s, j - 1, Ghost(depth@ + 1), dep + 1)
    } else if open_bracket(c) {
        if dep == 1 {
            if c == '[' {
                Some(idx)
            } else {
                None
            }
        } else {
            find_index_open_exec(s, j - 1, Ghost(depth@ - 1), dep - 1)
        }
    } else {
        find_index_open_exec(s, j - 1, depth, dep)
    }
}

// ------------------------------------------------------------------
// Whole-token shapes.
// ------------------------------------------------------------------

pub open spec fn true_lit() -> Seq<char> {
    seq!['t', 'r', 'u', 'e']
}

pub open spec fn false_lit() -> Seq<char> {
    seq!['f', 'a', 'l', 's', 'e']
}

/// Exponent suffix of a numeric literal starting at `k`, or end of text.
pub open spec fn exp_ok(t: Seq<char>, k: int) -> bool {
    if k == t.len() {
        true
    } else if 0 <= k < t.len() && (t[k] == 'e' || t[k] == 'E') {
        let k2 = if k + 1 < t.len() && (t[k + 1] == '+' || t[k + 1] == '-') {
            k + 2
        } else {
            k + 1
        };
        let e = digit_run(t, k2);
        e > 0 && k2 + e == t.len()
    } else {
        false
    }
}

/// A decimal numeric literal: optional sign, then digits with an optional
/// fraction, or a fraction alone, then an optional exponent.
pub open spec fn is_numeric_seq(t: Seq<char>) -> bool {
    t.len() > 0 && {
        let i0: int = if t[0] == '+' || t[0] == '-' {
            1
        } else {
            0
        };
        let d1 = digit_run(t, i0);
        let j = i0 + d1;
        if d1 > 0 {
            if j < t.len() && t[j] == '.' {
                exp_ok(t, j + 1 + digit_run(t, j + 1))
            } else {
                exp_ok(t, j)
            }
        } else {
            if j < t.len() && t[j] == '.' {
                let f = digit_run(t, j + 1);
                f > 0 && exp_ok(t, j + 1 + f)
            } else {
                false
            }
        }
    }
}

/// A literal token: a double-quoted string, a numeric literal, `true` or
/// `false`.
pub open spec fn is_literal_seq(t: Seq<char>) -> bool {
    ||| (t.len() >= 1 && t[0] == '"' && t[t.len() - 1] == '"')
    ||| is_numeric_seq(t)
    ||| t == true_lit()
    ||| t == false_lit()
}

fn exp_ok_exec(t: &str, k: usize) -> (b: bool)
    requires
        k <= t@.len(),
    ensures
        b == exp_ok(t@, k as int),
{
    let n = t.unicode_len();
    if k == n {
        return true;
    }
    let c = t.get_char(k);
    if c == 'e' || c == 'E' {
        let k2 = if k + 1 < n && (t.get_char(k + 1) == '+' || t.get_char(k + 1) == '-') {
            k + 2
        } else {
            k + 1
        };
        let e2 = crate::scan::digit_run_end(t, k2);
        e2 > k2 && e2 == n
    } else {
        false
    }
}

fn is_numeric_str(t: &str) -> (b: bool)
    ensures
        b == is_numeric_seq(t@),
{
    let n = t.unicode_len();
    if n == 0 {
        return false;
    }
    let c0 = t.get_char(0);
    let i0: usize = if c0 == '+' || c0 == '-' {
        1
    } else {
        0
    };
    let j = crate::scan::digit_run_end(t, i0);
    if j > i0 {
        if j < n && t.get_char(j) == '.' {
            let j2 = crate::scan::digit_run_end(t, j + 1);
            exp_ok_exec(t, j2)
        } else {
            exp_ok_exec(t, j)
        }
    } else {
        if j < n && t.get_char(j) == '.' {
            let f = crate::scan::digit_run_end(t, j + 1);
            if f > j + 1 {
                exp_ok_exec(t, f)
            } else {
                false
            }
        } else {
            false
        }
    }
}

fn is_literal_str(t: &str) -> (b: bool)
    ensures
        b == is_literal_seq(t@),
{
    proof {
        reveal_strlit("true");
        reveal_strlit("false");
        assert("true"@ =~= true_lit());
        assert("false"@ =~= false_lit());
    }
    let n = t.unicode_len();
    if n >= 1 && t.get_char(0) == '"' && t.get_char(n - 1) == '"' {
        return true;
    }
    if is_numeric_str(t) {
        return true;
    }
    if match_seq(t, 0, "true") && n == 4 {
        proof {
            assert(t@ =~= true_lit());
        }
        return true;
    }
    if match_seq(t, 0, "false") && n == 5 {
        proof {
            assert(t@ =~= false_lit());
        }
        return true;
    }
    proof {
        if t@ == true_lit() {
            assert(match_at(t@, 0, "true"@)) by {
                assert(t@.subrange(0, 4) =~= t@);
            }
        }
        if t@ == false_lit() {
            assert(match_at(t@, 0, "false"@)) by {
                assert(t@.subrange(0, 5) =~= t@);
            }
        }
    }
    false
}

// ------------------------------------------------------------------
// Qualified names in expression position (plain identifiers only).
// ------------------------------------------------------------------

/// A dotted name made of identifier tokens, with whitespace allowed around
/// the dots; returns the parts and the position after the name (trailing
/// whitespace consumed).
pub open spec fn qname_scan(s: Seq<char>, i: int) -> Option<(Seq<Seq<char>>, int)>
    decreases s.len() - i,
{
    if !(0 <= i <= s.len()) {
        None
    } else {
        let a = i + ws_run(s, i);
        match crate::scan::spec_take_ident(s, a) {
            None => None,
            Some((tok, e)) => {
                let b = e + ws_run(s, e);
                if b < s.len() && s[b] == '.' {
                    if e <= s.len() && b + 1 <= s.len() {
                        match qname_scan(s, b + 1) {
                            None => None,
                            Some((rest, g)) => Some((seq![tok] + rest, g)),
                        }
                    } else {
                        None
                    }
                } else {
                    Some((seq![tok], b))
                }
            },
        }
    }
}

/// The whole of `s` is one qualified name.
pub open spec fn spec_qname_all(s: Seq<char>) -> Option<Seq<Seq<char>>> {
    match qname_scan(s, 0) {
        None => None,
        Some((parts, e)) => if e == s.len() {
            Some(parts)
        } else {
            None
        },
    }
}

fn qname_scan_exec(s: &str, i: usize) -> (r: Option<(Vec<String>, usize)>)
    requires
        i <= s@.len(),
    ensures
        match qname_scan(s@, i as int) {
            Some((parts, e)) => {
                &&& r is Some
                &&& (r->0).0.deep_view() == parts
                &&& (r->0).1 == e
                &&& i <= e <= s@.len()
            },
            None => r is None,
        },
    decreases s@.len() - i,
{
    let n = s.unicode_len();
    let a = crate::scan::ws_run_end(s, i);
    match crate::scan::take_ident(s, a) {
        None => None,
        Some((tok, e)) => {
            let b = crate::scan::ws_run_end(s, e);
            if b < n && s.get_char(b) == '.' {
                match qname_scan_exec(s, b + 1) {
                    None => None,
                    Some((rest, g)) => {
                        let ghost tokg = tok@;
                        let ghost restv = rest.deep_view();
                        let mut v = rest;
                        v.insert(0, tok);
                        proof {
                            assert(v.deep_view() =~= seq![tokg] + restv);
                        }
                        Some((v, g))
                    },
                }
            } else {
                let ghost tokg = tok@;
                let mut v: Vec<String> = Vec::new();
                v.push(tok);
                proof {
                    assert(v.deep_view() =~= seq![tokg]);
                }
                Some((v, b))
            }
        },
    }
}

// ------------------------------------------------------------------
// The expression parser.
// ------------------------------------------------------------------

/// The recognizer, in the priority order of the grammar.  `s` need not be
/// trimmed; recognition operates on the trimmed text.
pub open spec fn spec_parse_expression(s: Seq<char>) -> SpecExpression
    decreases s.len(), 0int,
{
    let t = spec_trim(s);
    if t.len() == 0 {
        SpecExpression::Raw(Seq::empty())
    } else if spec_struct_lit_match(t) is Some {
        let (ob, parts) = spec_struct_lit_match(t)->0;
        let fields = spec_struct_entries(t.subrange(ob + 1, t.len() - 1));
        if fields is Some && 0 <= ob && ob + 1 < t.len() && t.len() < s.len() + 1 {
            SpecExpression::StructLiteral { type_path: parts, fields: fields->0 }
        } else {
            SpecExpression::Raw(t)
        }
    } else if spec_call_match(t) is Some {
        let (ob, cb) = spec_call_match(t)->0;
        if 0 <= ob < cb < t.len() && t.len() <= s.len() {
            SpecExpression::Call {
                target: Box::new(spec_parse_expression(t.subrange(0, ob))),
                args: spec_parse_args(t.subrange(ob + 1, cb)),
            }
        } else {
            SpecExpression::Raw(t)
        }
    } else if find_binop(t, t.len() as int, 0) is Some {
        let (a, op) = find_binop(t, t.len() as int, 0)->0;
        if 0 <= a && a + op.len() <= t.len() && op.len() >= 1 && t.len() <= s.len() {
            SpecExpression::Binary {
                left: Box::new(spec_parse_expression(t.subrange(0, a))),
                op: op,
                right: Box::new(spec_parse_expression(t.subrange(a + op.len(), t.len() as int))),
            }
        } else {
            SpecExpression::Raw(t)
        }
    } else if find_optchain(t, t.len() as int, 0) is Some {
        let q = find_optchain(t, t.len() as int, 0)->0;
        if 0 <= q && q + 2 <= t.len() && t.len() <= s.len() {
            SpecExpression::OptionalChain {
                target: Box::new(spec_parse_expression(t.subrange(0, q))),
                property: spec_trim(t.subrange(q + 2, t.len() as int)),
            }
        } else {
            SpecExpression::Raw(t)
        }
    } else if find_member(t, t.len() as int, 0) is Some {
        let d = find_member(t, t.len() as int, 0)->0;
        if 0 <= d < t.len() && t.len() <= s.len() {
            SpecExpression::Member {
                target: Box::new(spec_parse_expression(t.subrange(0, d))),
                property: spec_trim(t.subrange(d + 1, t.len() as int)),
            }
        } else {
            SpecExpression::Raw(t)
        }
    } else if spec_index_match(t) is Some {
        let ib = spec_index_match(t)->0;
        if 0 <= ib && ib + 1 < t.len() && t.len() <= s.len() {
            SpecExpression::Index {
                target: Box::new(spec_parse_expression(t.subrange(0, ib))),
                index: Box::new(spec_parse_expression(t.subrange(ib + 1, t.len() - 1))),
            }
        } else {
            SpecExpression::Raw(t)
        }
    } else if is_identifier_seq(t) {
        SpecExpression::Identifier(t)
    } else if is_literal_seq(t) {
        SpecExpression::Literal(t)
    } else {
        SpecExpression::Raw(t)
    }
}

/// Struct-literal head: trimmed text ends with `}` whose matching `{` is
/// the leftmost depth-zero `{`, and the text before it is a qualified
/// name.  Returns the `{` position and the name parts.
pub open spec fn spec_struct_lit_match(t: Seq<char>) -> Option<(int, Seq<Seq<char>>)> {
    if t.len() >= 1 && t[t.len() - 1] == '}' {
        match find_at_depth0(t, 0, 0, '{') {
            None => None,
            Some(ob) => if 0 <= ob < t.len() && find_close(t, ob + 1, 1, '}') == Some(
                t.len() - 1,
            ) {
                match spec_qname_all(spec_trim(t.subrange(0, ob))) {
                    None => None,
                    Some(parts) => Some((ob, parts)),
                }
            } else {
                None
            },
        }
    } else {
        None
    }
}

/// Call head: the leftmost depth-zero `(` whose matching `)` ends the
/// trimmed text, with a non-empty callee before it.  Requiring the closer
/// to end the text is deliberate: a call match that allowed text after the
/// matching `)` would drop that text, so `f(x) + g(y)` is left for the
/// binary rule instead.
pub open spec fn spec_call_match(t: Seq<char>) -> Option<(int, int)> {
    match find_at_depth0(t, 0, 0, '(') {
        None => None,
        Some(ob) => if 0 <= ob < t.len() && spec_trim(t.subrange(0, ob)).len() > 0 {
            match find_close(t, ob + 1, 1, ')') {
                None => None,
                Some(cb) => if cb == t.len() - 1 {
                    Some((ob, cb))
                } else {
                    None
                },
            }
        } else {
            None
        },
    }
}

/// Index head: trimmed text ends with `]` whose matching `[` has a
/// non-empty target before it.
pub open spec fn spec_index_match(t: Seq<char>) -> Option<int> {
    if t.len() >= 1 && t[t.len() - 1] == ']' {
        match find_index_open(t, t.len() - 1, 1) {
            None => None,
            Some(ib) => if 0 <= ib && spec_trim(t.subrange(0, ib)).len() > 0 {
                Some(ib)
            } else {
                None
            },
        }
    } else {
        None
    }
}

/// Depth-zero-comma-separated argument list; an empty tail is dropped,
/// interior empty pieces are kept (they parse to `Raw("")`).
pub open spec fn spec_parse_args(x: Seq<char>) -> Seq<SpecExpression>
    decreases x.len(), 2int,
{
    match find_at_depth0(x, 0, 0, ',') {
        None => {
            if spec_trim(x).len() == 0 {
                Seq::empty()
            } else {
                seq![spec_parse_expression(x)]
            }
        },
        Some(c) => if 0 <= c < x.len() {
            seq![spec_parse_expression(x.subrange(0, c))] + spec_parse_args(
                x.subrange(c + 1, x.len() as int),
            )
        } else {
            Seq::empty()
        },
    }
}

/// One `name: expr` struct-literal entry.
pub open spec fn spec_struct_entry(u: Seq<char>) -> Option<(Seq<char>, SpecExpression)>
    decreases u.len(), 1int,
{
    match find_char_plain(u, 0, ':') {
        None => None,
        Some(c) => if 0 <= c < u.len() {
            let name = spec_trim(u.subrange(0, c));
            if is_identifier_seq(name) {
                Some((name, spec_parse_expression(u.subrange(c + 1, u.len() as int))))
            } else {
                None
            }
        } else {
            None
        },
    }
}

/// Struct-literal entries: every depth-zero-comma-separated entry must
/// match `name: expr`; an empty tail is allowed (trailing comma).
pub open spec fn spec_struct_entries(x: Seq<char>) -> Option<Seq<(Seq<char>, SpecExpression)>>
    decreases x.len(), 2int,
{
    match find_at_depth0(x, 0, 0, ',') {
        None => {
            if spec_trim(x).len() == 0 {
                Some(Seq::empty())
            } else {
                match spec_struct_entry(x) {
                    None => None,
                    Some(e) => Some(seq![e]),
                }
            }
        },
        Some(c) => if 0 <= c < x.len() {
            match spec_struct_entry(x.subrange(0, c)) {
                None => None,
                Some(e) => match spec_struct_entries(x.subrange(c + 1, x.len() as int)) {
                    None => None,
                    Some(rest) => Some(seq![e] + rest),
                },
            }
        } else {
            None
        },
    }
}

/// Plain first occurrence of `c` (no depth tracking).
pub open spec fn find_char_plain(u: Seq<char>, i: int, c: char) -> Option<int>
    decreases u.len() - i,
{
    if !(0 <= i < u.len()) {
        None
    } else if u[i] == c {
        Some(i)
    } else {
        find_char_plain(u, i + 1, c)
    }
}

pub fn find_char_plain_exec(u: &str, i: usize, c: char) -> (r: Option<usize>)
    requires
        i <= u@.len(),
    ensures
        match find_char_plain(u@, i as int, c) {
            Some(k) => r is Some && r->0 == k && i <= k < u@.len(),
            None => r is None,
        },
    decreases u@.len() - i,
{
    let n = u.unicode_len();
    if i >= n {
        None
    } else if u.get_char(i) == c {
        Some(i)
    } else {
        find_char_plain_exec(u, i + 1, c)
    }
}

proof fn lemma_view_expr_list_cons(x: Expression, v: Seq<Expression>)
    ensures
        view_expr_list(seq![x] + v) == seq![view_expression(x)] + view_expr_list(v),
{
    assert((seq![x] + v).len() == v.len() + 1);
    assert((seq![x] + v)[0] == x);
    assert((seq![x] + v).drop_first() =~= v);
}

proof fn lemma_view_field_expr_list_cons(x: (Ident, Expression), v: Seq<(Ident, Expression)>)
    ensures
        view_field_expr_list(seq![x] + v) == seq![(x.0@, view_expression(x.1))]
            + view_field_expr_list(v),
{
    assert((seq![x] + v).len() == v.len() + 1);
    assert((seq![x] + v)[0] == x);
    assert((seq![x] + v).drop_first() =~= v);
}

/// Parse one expression text into an [`Expression`].
#[verifier::rlimit(50)]
#[verifier::spinoff_prover]
pub fn parse_expression(s: &str) -> (r: Expression)
    ensures
        view_expression(r) == spec_parse_expression(s@),
    decreases s@.len(), 0int,
{
    let t = trim_str(s);
    let ts = t.as_str();
    let n = ts.unicode_len();
    proof {
        assert(ts@.len() <= s@.len());
    }
    if n == 0 {
        return Expression::Raw(String::new());
    }
    if let Some((ob, parts)) = struct_lit_match_exec(ts) {
        if let Some(fields) = struct_entries_exec(ts, ob + 1, n - 1) {
            return Expression::StructLiteral { type_path: parts, fields };
        } else {
            return Expression::Raw(t);
        }
    }
    if let Some((ob, cb)) = call_match_exec(ts) {
        let target_txt = copy_range(ts, 0, ob);
        let target = parse_expression(target_txt.as_str());
        let args_txt = copy_range(ts, ob + 1, cb);
        let args = parse_args(args_txt.as_str());
        return Expression::Call { target: Box::new(target), args };
    }
    if let Some((a, op)) = find_binop_exec(ts, n, Ghost(0int), 0) {
        let op_len = op.as_str().unicode_len();
        let left_txt = copy_range(ts, 0, a);
        let left = parse_expression(left_txt.as_str());
        let right_txt = copy_range(ts, a + op_len, n);
        let right = parse_expression(right_txt.as_str());
        return Expression::Binary { left: Box::new(left), op, right: Box::new(right) };
    }
    if let Some(q) = find_optchain_exec(ts, n, Ghost(0int), 0) {
        let target_txt = copy_range(ts, 0, q);
        let target = parse_expression(target_txt.as_str());
        let prop_raw = copy_range(ts, q + 2, n);
        let property = trim_str(prop_raw.as_str());
        return Expression::OptionalChain { target: Box::new(target), property };
    }
    if let Some(d) = find_member_exec(ts, n, Ghost(0int), 0) {
        let target_txt = copy_range(ts, 0, d);
        let target = parse_expression(target_txt.as_str());
        let prop_raw = copy_range(ts, d + 1, n);
        let property = trim_str(prop_raw.as_str());
        return Expression::Member { target: Box::new(target), property };
    }
    if let Some(ib) = index_match_exec(ts) {
        let target_txt = copy_range(ts, 0, ib);
        let target = parse_expression(target_txt.as_str());
        let index_txt = copy_range(ts, ib + 1, n - 1);
        let index = parse_expression(index_txt.as_str());
        return Expression::Index { target: Box::new(target), index: Box::new(index) };
    }
    if is_identifier_str(ts) {
        return Expression::Identifier(t);
    }
    if is_literal_str(ts) {
        return Expression::Literal(t);
    }
    Expression::Raw(t)
}

#[verifier::spinoff_prover]
fn struct_lit_match_exec(t: &str) -> (r: Option<(usize, Vec<String>)>)
    requires
        t@.len() >= 1,
    ensures
        match spec_struct_lit_match(t@) {
            Some((ob, parts)) => {
                &&& r is Some
                &&& (r->0).0 == ob
                &&& (r->0).1.deep_view() == parts
                &&& 0 <= ob && ob + 1 < t@.len()
            },
            None => r is None,
        },
{
    let n = t.unicode_len();
    if t.get_char(n - 1) != '}' {
        return None;
    }
    match find_at_depth0_exec(t, 0, 0, '{') {
        None => None,
        Some(ob) => {
            match find_close_exec(t, ob + 1, 1, '}') {
                None => None,
                Some(cb) => {
                    if cb != n - 1 {
                        return None;
                    }
                    let pre_raw = copy_range(t, 0, ob);
                    let pre = trim_str(pre_raw.as_str());
                    match qname_scan_exec(pre.as_str(), 0) {
                        None => None,
                        Some((parts, e)) => {
                            if e == pre.as_str().unicode_len() {
                                Some((ob, parts))
                            } else {
                                None
                            }
                        },
                    }
                },
            }
        },
    }
}

fn call_match_exec(t: &str) -> (r: Option<(usize, usize)>)
    ensures
        match spec_call_match(t@) {
            Some((ob, cb)) => r is Some && (r->0).0 == ob && (r->0).1 == cb && 0 <= ob < cb
                < t@.len(),
            None => r is None,
        },
{
    let n = t.unicode_len();
    match find_at_depth0_exec(t, 0, 0, '(') {
        None => None,
        Some(ob) => {
            if !trimmed_nonempty(t, 0, ob) {
                return None;
            }
            match find_close_exec(t, ob + 1, 1, ')') {
                None => None,
                Some(cb) => {
                    if cb == n - 1 {
                        Some((ob, cb))
                    } else {
                        None
                    }
                },
            }
        },
    }
}

fn index_match_exec(t: &str) -> (r: Option<usize>)
    requires
        t@.len() >= 1,
    ensures
        match spec_index_match(t@) {
            Some(ib) => r is Some && r->0 == ib && 0 <= ib && ib + 1 < t@.len(),
            None => r is None,
        },
{
    let n = t.unicode_len();
    if t.get_char(n - 1) != ']' {
        return None;
    }
    match find_index_open_exec(t, n - 1, Ghost(1int), 1) {
        None => None,
        Some(ib) => {
            if trimmed_nonempty(t, 0, ib) {
                Some(ib)
            } else {
                None
            }
        },
    }
}

#[verifier::spinoff_prover]
fn parse_args(x: &str) -> (r: Vec<Expression>)
    ensures
        view_expr_list(r@) == spec_parse_args(x@),
    decreases x@.len(), 2int,
{
    let n = x.unicode_len();
    match find_at_depth0_exec(x, 0, 0, ',') {
        None => {
            let tail = trim_str(x);
            if tail.as_str().is_empty() {
                let v: Vec<Expression> = Vec::new();
                v
            } else {
                let e = parse_expression(x);
                let ghost eg = e;
                let mut v: Vec<Expression> = Vec::new();
                v.push(e);
                proof {
                    assert(v@ =~= seq![eg] + Seq::<Expression>::empty());
                    lemma_view_expr_list_cons(eg, Seq::empty());
                    assert(seq![view_expression(eg)] + view_expr_list(Seq::empty())
                        =~= seq![view_expression(eg)]);
                    assert(spec_parse_args(x@) =~= seq![spec_parse_expression(x@)]);
                }
                v
            }
        },
        Some(c) => {
            let piece = copy_range(x, 0, c);
            let e = parse_expression(piece.as_str());
            let rest_txt = copy_range(x, c + 1, n);
            let rest = parse_args(rest_txt.as_str());
            let ghost eg = e;
            let ghost restv = rest@;
            let mut v = rest;
            v.insert(0, e);
            proof {
                assert(v@ =~= seq![eg] + restv);
                lemma_view_expr_list_cons(eg, restv);
            }
            v
        },
    }
}

#[verifier::spinoff_prover]
fn struct_entry_exec(u: &str) -> (r: Option<(String, Expression)>)
    ensures
        match spec_struct_entry(u@) {
            Some((name, e)) => {
                &&& r is Some
                &&& (r->0).0@ == name
                &&& view_expression((r->0).1) == e
            },
            None => r is None,
        },
    decreases u@.len(), 1int,
{
    let n = u.unicode_len();
    match find_char_plain_exec(u, 0, ':') {
        None => None,
        Some(c) => {
            let name_raw = copy_range(u, 0, c);
            let name = trim_str(name_raw.as_str());
            if is_identifier_str(name.as_str()) {
                let val_txt = copy_range(u, c + 1, n);
                let e = parse_expression(val_txt.as_str());
                Some((name, e))
            } else {
                None
            }
        },
    }
}

fn struct_entries_exec(t: &str, lo: usize, hi: usize) -> (r: Option<Vec<(String, Expression)>>)
    requires
        lo <= hi <= t@.len(),
    ensures
        match spec_struct_entries(t@.subrange(lo as int, hi as int)) {
            Some(fields) => r is Some && view_field_expr_list((r->0)@) == fields,
            None => r is None,
        },
    decreases hi - lo, 3int,
{
    let x = copy_range(t, lo, hi);
    struct_entries_rec(x.as_str())
}

#[verifier::spinoff_prover]
fn struct_entries_rec(x: &str) -> (r: Option<Vec<(String, Expression)>>)
    ensures
        match spec_struct_entries(x@) {
            Some(fields) => r is Some && view_field_expr_list((r->0)@) == fields,
            None => r is None,
        },
    decreases x@.len(), 2int,
{
    let n = x.unicode_len();
    match find_at_depth0_exec(x, 0, 0, ',') {
        None => {
            let tail = trim_str(x);
            if tail.as_str().is_empty() {
                let v: Vec<(String, Expression)> = Vec::new();
                proof {
                    assert(view_field_expr_list(v@) =~= Seq::<(Seq<char>, SpecExpression)>::empty());
                }
                Some(v)
            } else {
                match struct_entry_exec(x) {
                    None => None,
                    Some(e) => {
                        let ghost eg = e;
                        let mut v: Vec<(String, Expression)> = Vec::new();
                        v.push(e);
                        proof {
                            assert(v@ =~= seq![eg] + Seq::<(Ident, Expression)>::empty());
                            lemma_view_field_expr_list_cons(eg, Seq::empty());
                            assert(seq![(eg.0@, view_expression(eg.1))] + view_field_expr_list(
                                Seq::empty(),
                            ) =~= seq![(eg.0@, view_expression(eg.1))]);
                            assert(spec_struct_entries(x@)->0 =~= seq![spec_struct_entry(x@)->0]);
                        }
                        Some(v)
                    },
                }
            }
        },
        Some(c) => {
            let piece = copy_range(x, 0, c);
            match struct_entry_exec(piece.as_str()) {
                None => None,
                Some(e) => {
                    let rest_txt = copy_range(x, c + 1, n);
                    match struct_entries_rec(rest_txt.as_str()) {
                        None => None,
                        Some(rest) => {
                            let ghost eg = e;
                            let ghost restv = rest@;
                            let mut v = rest;
                            v.insert(0, e);
                            proof {
                                assert(v@ =~= seq![eg] + restv);
                                lemma_view_field_expr_list_cons(eg, restv);
                            }
                            Some(v)
                        },
                    }
                },
            }
        },
    }
}

} // verus!
