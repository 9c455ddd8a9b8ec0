//! Low-level scanners shared by the header and item parsers.
//!
//! Every scanner exists twice: a specification function over `Seq<char>`
//! (the model the contracts are stated over) and an executable function on
//! `&str` proved to compute exactly the model value.  Indices count
//! characters, not bytes.

use vstd::prelude::*;
use vstd::string::StrSliceExecFns;
use vstd::string::StringExecFns;

use crate::chars::{is_ws_char, is_ident_start_char, is_ident_char, is_digit_char, is_type_token_char, ws_char, ident_start_char, ident_char, digit_char, type_token_char};

verus! {

// ------------------------------------------------------------------
// Matching fixed tokens.
// ------------------------------------------------------------------

/// `pat` occurs in `s` at position `i`.
pub open spec fn match_at(s: Seq<char>, i: int, pat: Seq<char>) -> bool {
    0 <= i && i + pat.len() <= s.len() && s.subrange(i, i + pat.len()) == pat
}

/// `kw` occurs at `i` with a word boundary on its right.
pub open spec fn keyword_at(s: Seq<char>, i: int, kw: Seq<char>) -> bool {
    &&& match_at(s, i, kw)
    &&& (i + kw.len() == s.len() || !is_ident_char(s[i + kw.len()]))
}

pub open spec fn kw_module() -> Seq<char> {
    seq!['m', 'o', 'd', 'u', 'l', 'e']
}

pub open spec fn kw_import() -> Seq<char> {
    seq!['i', 'm', 'p', 'o', 'r', 't']
}

pub open spec fn kw_as() -> Seq<char> {
    seq!['a', 's']
}

pub open spec fn kw_record() -> Seq<char> {
    seq!['r', 'e', 'c', 'o', 'r', 'd']
}

pub open spec fn kw_task() -> Seq<char> {
    seq!['t', 'a', 's', 'k']
}

pub open spec fn kw_workflow() -> Seq<char> {
    seq!['w', 'o', 'r', 'k', 'f', 'l', 'o', 'w']
}

pub open spec fn kw_test() -> Seq<char> {
    seq!['t', 'e', 's', 't']
}

pub fn match_seq(s: &str, i: usize, pat: &str) -> (b: bool)
    ensures
        b == match_at(s@, i as int, pat@),
{
    let n = s.unicode_len();
    let m = pat.unicode_len();
    if m > n || i > n - m {
        proof {
            assert(!match_at(s@, i as int, pat@));
        }
        return false;
    }
    let mut k: usize = 0;
    while k < m
        invariant
            k <= m,
            i + m <= n,
            n == s@.len(),
            m == pat@.len(),
            forall|j: int| 0 <= j < k ==> s@[i + j] == pat@[j],
        decreases m - k,
    {
        if s.get_char(i + k) != pat.get_char(k) {
            proof {
                assert(s@.subrange(i as int, i + m as int)[k as int] == s@[i + k]);
            }
            return false;
        }
        k += 1;
    }
    proof {
        assert(s@.subrange(i as int, i + m as int) =~= pat@);
    }
    true
}

pub fn keyword_at_exec(s: &str, i: usize, kw: &str) -> (b: bool)
    ensures
        b == keyword_at(s@, i as int, kw@),
{
    if !match_seq(s, i, kw) {
        return false;
    }
    let n = s.unicode_len();
    let m = kw.unicode_len();
    if i + m == n {
        true
    } else {
        !ident_char(s.get_char(i + m))
    }
}

// ------------------------------------------------------------------
// Character runs.
// ------------------------------------------------------------------

/// Length of the whitespace run starting at `i`.
pub open spec fn ws_run(s: Seq<char>, i: int) -> nat
    decreases s.len() - i,
{
    if 0 <= i < s.len() && is_ws_char(s[i]) {
        1 + ws_run(s, i + 1)
    } else {
        0
    }
}

/// Length of the identifier-character run starting at `i`.
pub open spec fn ident_run(s: Seq<char>, i: int) -> nat
    decreases s.len() - i,
{
    if 0 <= i < s.len() && is_ident_char(s[i]) {
        1 + ident_run(s, i + 1)
    } else {
        0
    }
}

/// Length of the type-token run (identifier characters and `?`) at `i`.
pub open spec fn type_token_run(s: Seq<char>, i: int) -> nat
    decreases s.len() - i,
{
    if 0 <= i < s.len() && is_type_token_char(s[i]) {
        1 + type_token_run(s, i + 1)
    } else {
        0
    }
}

/// Length of the digit run starting at `i`.
pub open spec fn digit_run(s: Seq<char>, i: int) -> nat
    decreases s.len() - i,
{
    if 0 <= i < s.len() && is_digit_char(s[i]) {
        1 + digit_run(s, i + 1)
    } else {
        0
    }
}

/// Characters consumed by a line comment whose `//` marker ends at `i`:
/// everything through the next newline, or to end of input.
pub open spec fn line_comment_run(s: Seq<char>, i: int) -> nat
    decreases s.len() - i,
{
    if 0 <= i < s.len() {
        if s[i] == '\n' {
            1
        } else {
            1 + line_comment_run(s, i + 1)
        }
    } else {
        0
    }
}

/// Characters consumed by a block comment whose `/*` marker ends at `i`:
/// everything through the first `*/`, or to end of input when unterminated.
pub open spec fn block_comment_run(s: Seq<char>, i: int) -> nat
    decreases s.len() - i,
{
    if 0 <= i && i + 2 <= s.len() && s[i] == '*' && s[i + 1] == '/' {
        2
    } else if 0 <= i < s.len() {
        1 + block_comment_run(s, i + 1)
    } else {
        0
    }
}

pub proof fn lemma_ws_run_bound(s: Seq<char>, i: int)
    requires
        0 <= i <= s.len(),
    ensures
        i + ws_run(s, i) <= s.len(),
    decreases s.len() - i,
{
    if i < s.len() && is_ws_char(s[i]) {
        lemma_ws_run_bound(s, i + 1);
    }
}

pub proof fn lemma_ident_run_bound(s: Seq<char>, i: int)
    requires
        0 <= i <= s.len(),
    ensures
        i + ident_run(s, i) <= s.len(),
    decreases s.len() - i,
{
    if i < s.len() && is_ident_char(s[i]) {
        lemma_ident_run_bound(s, i + 1);
    }
}

pub proof fn lemma_type_token_run_bound(s: Seq<char>, i: int)
    requires
        0 <= i <= s.len(),
    ensures
        i + type_token_run(s, i) <= s.len(),
    decreases s.len() - i,
{
    if i < s.len() && is_type_token_char(s[i]) {
        lemma_type_token_run_bound(s, i + 1);
    }
}

pub proof fn lemma_digit_run_bound(s: Seq<char>, i: int)
    requires
        0 <= i <= s.len(),
    ensures
        i + digit_run(s, i) <= s.len(),
    decreases s.len() - i,
{
    if i < s.len() && is_digit_char(s[i]) {
        lemma_digit_run_bound(s, i + 1);
    }
}

pub proof fn lemma_line_comment_run_bound(s: Seq<char>, i: int)
    requires
        0 <= i <= s.len(),
    ensures
        i + line_comment_run(s, i) <= s.len(),
    decreases s.len() - i,
{
    if i < s.len() && s[i] != '\n' {
        lemma_line_comment_run_bound(s, i + 1);
    }
}

pub proof fn lemma_block_comment_run_bound(s: Seq<char>, i: int)
    requires
        0 <= i <= s.len(),
    ensures
        i + block_comment_run(s, i) <= s.len(),
    decreases s.len() - i,
{
    if i + 2 <= s.len() && s[i] == '*' && s[i + 1] == '/' {
    } else if i < s.len() {
        lemma_block_comment_run_bound(s, i + 1);
    }
}

pub fn ws_run_end(s: &str, i: usize) -> (j: usize)
    requires
        i <= s@.len(),
    ensures
        j == i + ws_run(s@, i as int),
        j <= s@.len(),
    decreases s@.len() - i,
{
    let n = s.unicode_len();
    if i < n && ws_char(s.get_char(i)) {
        ws_run_end(s, i + 1)
    } else {
        i
    }
}

pub fn ident_run_end(s: &str, i: usize) -> (j: usize)
    requires
        i <= s@.len(),
    ensures
        j == i + ident_run(s@, i as int),
        j <= s@.len(),
    decreases s@.len() - i,
{
    let n = s.unicode_len();
    if i < n && ident_char(s.get_char(i)) {
        ident_run_end(s, i + 1)
    } else {
        i
    }
}

pub fn type_token_run_end(s: &str, i: usize) -> (j: usize)
    requires
        i <= s@.len(),
    ensures
        j == i + type_token_run(s@, i as int),
        j <= s@.len(),
    decreases s@.len() - i,
{
    let n = s.unicode_len();
    if i < n && type_token_char(s.get_char(i)) {
        type_token_run_end(s, i + 1)
    } else {
        i
    }
}

pub fn digit_run_end(s: &str, i: usize) -> (j: usize)
    requires
        i <= s@.len(),
    ensures
        j == i + digit_run(s@, i as int),
        j <= s@.len(),
    decreases s@.len() - i,
{
    let n = s.unicode_len();
    if i < n && digit_char(s.get_char(i)) {
        digit_run_end(s, i + 1)
    } else {
        i
    }
}

pub fn line_comment_end(s: &str, i: usize) -> (j: usize)
    requires
        i <= s@.len(),
    ensures
        j == i + line_comment_run(s@, i as int),
        j <= s@.len(),
    decreases s@.len() - i,
{
    let n = s.unicode_len();
    if i < n {
        if s.get_char(i) == '\n' {
            i + 1
        } else {
            line_comment_end(s, i + 1)
        }
    } else {
        i
    }
}

pub fn block_comment_end(s: &str, i: usize) -> (j: usize)
    requires
        i <= s@.len(),
    ensures
        j == i + block_comment_run(s@, i as int),
        j <= s@.len(),
    decreases s@.len() - i,
{
    let n = s.unicode_len();
    if i < n && i + 1 < n && s.get_char(i) == '*' && s.get_char(i + 1) == '/' {
        i + 2
    } else if i < n {
        block_comment_end(s, i + 1)
    } else {
        i
    }
}

// ------------------------------------------------------------------
// The lexical skipper.
// ------------------------------------------------------------------

/// Position after any mixture of whitespace, `//`/`///` line comments and
/// `/* ... */` block comments starting at `i`.  An unterminated block
/// comment consumes to end of input.
pub open spec fn spec_skip_ws(s: Seq<char>, i: int) -> int
    decreases s.len() - i,
{
    if !(0 <= i < s.len()) {
        i
    } else if is_ws_char(s[i]) {
        spec_skip_ws(s, i + 1)
    } else if i + 2 <= s.len() && s[i] == '/' && s[i + 1] == '/' {
        let j = i + 2 + line_comment_run(s, i + 2);
        if j <= s.len() {
            spec_skip_ws(s, j)
        } else {
            j
        }
    } else if i + 2 <= s.len() && s[i] == '/' && s[i + 1] == '*' {
        let j = i + 2 + block_comment_run(s, i + 2);
        if j <= s.len() {
            spec_skip_ws(s, j)
        } else {
            j
        }
    } else {
        i
    }
}

/// Position after any mixture of whitespace and `///` doc comments: the
/// skip a declaration recognizer applies before its keyword.
pub open spec fn spec_skip_doc(s: Seq<char>, i: int) -> int
    decreases s.len() - i,
{
    if !(0 <= i < s.len()) {
        i
    } else if is_ws_char(s[i]) {
        spec_skip_doc(s, i + 1)
    } else if i + 3 <= s.len() && s[i] == '/' && s[i + 1] == '/' && s[i + 2] == '/' {
        let j = i + 3 + line_comment_run(s, i + 3);
        if j <= s.len() {
            spec_skip_doc(s, j)
        } else {
            j
        }
    } else {
        i
    }
}

pub proof fn lemma_skip_ws_bounds(s: Seq<char>, i: int)
    requires
        0 <= i <= s.len(),
    ensures
        i <= spec_skip_ws(s, i) <= s.len(),
    decreases s.len() - i,
{
    if i < s.len() {
        if is_ws_char(s[i]) {
            lemma_skip_ws_bounds(s, i + 1);
        } else if i + 2 <= s.len() && s[i] == '/' && s[i + 1] == '/' {
            lemma_line_comment_run_bound(s, i + 2);
            lemma_skip_ws_bounds(s, i + 2 + line_comment_run(s, i + 2));
        } else if i + 2 <= s.len() && s[i] == '/' && s[i + 1] == '*' {
            lemma_block_comment_run_bound(s, i + 2);
            lemma_skip_ws_bounds(s, i + 2 + block_comment_run(s, i + 2));
        }
    }
}

pub proof fn lemma_skip_doc_bounds(s: Seq<char>, i: int)
    requires
        0 <= i <= s.len(),
    ensures
        i <= spec_skip_doc(s, i) <= s.len(),
    decreases s.len() - i,
{
    if i < s.len() {
        if is_ws_char(s[i]) {
            lemma_skip_doc_bounds(s, i + 1);
        } else if i + 3 <= s.len() && s[i] == '/' && s[i + 1] == '/' && s[i + 2] == '/' {
            lemma_line_comment_run_bound(s, i + 3);
            lemma_skip_doc_bounds(s, i + 3 + line_comment_run(s, i + 3));
        }
    }
}

pub fn skip_ws(s: &str, i: usize) -> (j: usize)
    requires
        i <= s@.len(),
    ensures
        j == spec_skip_ws(s@, i as int),
        i <= j <= s@.len(),
    decreases s@.len() - i,
{
    let n = s.unicode_len();
    if i >= n {
        return i;
    }
    let c = s.get_char(i);
    if ws_char(c) {
        skip_ws(s, i + 1)
    } else if i + 1 < n && c == '/' && s.get_char(i + 1) == '/' {
        let j = line_comment_end(s, i + 2);
        skip_ws(s, j)
    } else if i + 1 < n && c == '/' && s.get_char(i + 1) == '*' {
        let j = block_comment_end(s, i + 2);
        skip_ws(s, j)
    } else {
        i
    }
}

pub fn skip_doc_comments(s: &str, i: usize) -> (j: usize)
    requires
        i <= s@.len(),
    ensures
        j == spec_skip_doc(s@, i as int),
        i <= j <= s@.len(),
    decreases s@.len() - i,
{
    let n = s.unicode_len();
    if i >= n {
        return i;
    }
    let c = s.get_char(i);
    if ws_char(c) {
        skip_doc_comments(s, i + 1)
    } else if i + 1 < n && i + 2 < n && c == '/' && s.get_char(i + 1) == '/' && s.get_char(i + 2)
        == '/' {
        let j = line_comment_end(s, i + 3);
        skip_doc_comments(s, j)
    } else {
        i
    }
}

// ------------------------------------------------------------------
// Tokens.
// ------------------------------------------------------------------

/// The identifier token starting exactly at `i`, if any.
pub open spec fn spec_take_ident(s: Seq<char>, i: int) -> Option<(Seq<char>, int)> {
    if 0 <= i < s.len() && is_ident_start_char(s[i]) {
        let e = i + 1 + ident_run(s, i + 1);
        Some((s.subrange(i, e), e))
    } else {
        None
    }
}

/// Copy the character range `[a, b)` of `s` into an owned string.
pub fn copy_range(s: &str, a: usize, b: usize) -> (t: String)
    requires
        a <= b <= s@.len(),
    ensures
        t@ == s@.subrange(a as int, b as int),
{
    let piece = s.substring_char(a, b);
    String::from_str(piece)
}

pub fn take_ident(s: &str, i: usize) -> (r: Option<(String, usize)>)
    requires
        i <= s@.len(),
    ensures
        match spec_take_ident(s@, i as int) {
            Some((t, e)) => {
                &&& r is Some
                &&& (r->0).0@ == t
                &&& (r->0).1 == e
                &&& i < e <= s@.len()
            },
            None => r is None,
        },
{
    let n = s.unicode_len();
    if i < n && ident_start_char(s.get_char(i)) {
        let e = ident_run_end(s, i + 1);
        let t = copy_range(s, i, e);
        Some((t, e))
    } else {
        None
    }
}

/// Unescaped content and end position of a string-literal body starting at
/// `i` (just after the opening quote).  A backslash copies the next
/// character literally; a bare `"` closes the literal; an unterminated
/// literal fails.
pub open spec fn string_body_run(s: Seq<char>, i: int) -> Option<(Seq<char>, int)>
    decreases s.len() - i,
{
    if !(0 <= i < s.len()) {
        None
    } else if s[i] == '\\' {
        if i + 1 < s.len() {
            match string_body_run(s, i + 2) {
                Some((t, e)) => Some((seq![s[i + 1]] + t, e)),
                None => None,
            }
        } else {
            None
        }
    } else if s[i] == '"' {
        Some((Seq::empty(), i + 1))
    } else {
        match string_body_run(s, i + 1) {
            Some((t, e)) => Some((seq![s[i]] + t, e)),
            None => None,
        }
    }
}

/// A complete string literal starting at `i`: `s[i]` must be `"`.
pub open spec fn spec_take_string_literal(s: Seq<char>, i: int) -> Option<(Seq<char>, int)> {
    if 0 <= i < s.len() && s[i] == '"' {
        string_body_run(s, i + 1)
    } else {
        None
    }
}

pub proof fn lemma_string_body_bounds(s: Seq<char>, i: int)
    requires
        0 <= i <= s.len(),
    ensures
        match string_body_run(s, i) {
            Some((t, e)) => i < e <= s.len(),
            None => true,
        },
    decreases s.len() - i,
{
    if 0 <= i < s.len() {
        if s[i] == '\\' {
            if i + 1 < s.len() {
                lemma_string_body_bounds(s, i + 2);
            }
        } else if s[i] != '"' {
            lemma_string_body_bounds(s, i + 1);
        }
    }
}

fn string_body(s: &str, i: usize) -> (r: Option<(String, usize)>)
    requires
        i <= s@.len(),
    ensures
        match string_body_run(s@, i as int) {
            Some((t, e)) => {
                &&& r is Some
                &&& (r->0).0@ == t
                &&& (r->0).1 == e
                &&& i < e <= s@.len()
            },
            None => r is None,
        },
    decreases s@.len() - i,
{
    proof {
        lemma_string_body_bounds(s@, i as int);
    }
    let n = s.unicode_len();
    if i >= n {
        return None;
    }
    let c = s.get_char(i);
    if c == '\\' {
        if i + 1 < n {
            match string_body(s, i + 2) {
                Some((t, e)) => {
                    let head = copy_range(s, i + 1, i + 2);
                    Some((head.concat(t.as_str()), e))
                },
                None => None,
            }
        } else {
            None
        }
    } else if c == '"' {
        Some((String::new(), i + 1))
    } else {
        match string_body(s, i + 1) {
            Some((t, e)) => {
                let head = copy_range(s, i, i + 1);
                Some((head.concat(t.as_str()), e))
            },
            None => None,
        }
    }
}

pub fn take_string_literal(s: &str, i: usize) -> (r: Option<(String, usize)>)
    requires
        i <= s@.len(),
    ensures
        match spec_take_string_literal(s@, i as int) {
            Some((t, e)) => {
                &&& r is Some
                &&& (r->0).0@ == t
                &&& (r->0).1 == e
                &&& i < e <= s@.len()
            },
            None => r is None,
        },
{
    let n = s.unicode_len();
    if i < n && s.get_char(i) == '"' {
        string_body(s, i + 1)
    } else {
        None
    }
}

// ------------------------------------------------------------------
// Balanced extraction.
// ------------------------------------------------------------------

/// Scan for the closer matching an already-consumed opener, tracking
/// nesting depth, with double-quoted strings (and their backslash escapes)
/// shielding bracket characters.  Returns the position just after the
/// closer that brings the depth to zero.
pub open spec fn bal_run(
    s: Seq<char>,
    i: int,
    open: char,
    close: char,
    depth: int,
    in_str: bool,
    esc: bool,
) -> Option<int>
    decreases s.len() - i,
{
    if !(0 <= i < s.len()) {
        None
    } else {
        let c = s[i];
        if in_str {
            if esc {
                bal_run(s, i + 1, open, close, depth, true, false)
            } else if c == '\\' {
                bal_run(s, i + 1, open, close, depth, true, true)
            } else if c == '"' {
                bal_run(s, i + 1, open, close, depth, false, false)
            } else {
                bal_run(s, i + 1, open, close, depth, true, false)
            }
        } else if c == '"' {
            bal_run(s, i + 1, open, close, depth, true, false)
        } else if c == open {
            bal_run(s, i + 1, open, close, depth + 1, false, false)
        } else if c == close {
            if depth == 1 {
                Some(i + 1)
            } else {
                bal_run(s, i + 1, open, close, depth - 1, false, false)
            }
        } else {
            bal_run(s, i + 1, open, close, depth, false, false)
        }
    }
}

/// Balanced extraction: `s[i]` must equal `open`; the interior between the
/// opener and its matching closer, and the position after the closer.
pub open spec fn spec_extract_balanced(s: Seq<char>, i: int, open: char, close: char) -> Option<
    (Seq<char>, int),
> {
    if 0 <= i < s.len() && s[i] == open {
        match bal_run(s, i + 1, open, close, 1, false, false) {
            Some(e) => Some((s.subrange(i + 1, e - 1), e)),
            None => None,
        }
    } else {
        None
    }
}

pub proof fn lemma_bal_run_bounds(
    s: Seq<char>,
    i: int,
    open: char,
    close: char,
    depth: int,
    in_str: bool,
    esc: bool,
)
    requires
        0 <= i <= s.len(),
    ensures
        match bal_run(s, i, open, close, depth, in_str, esc) {
            Some(e) => i < e <= s.len(),
            None => true,
        },
    decreases s.len() - i,
{
    if 0 <= i < s.len() {
        let c = s[i];
        if in_str {
            if esc {
                lemma_bal_run_bounds(s, i + 1, open, close, depth, true, false);
            } else if c == '\\' {
                lemma_bal_run_bounds(s, i + 1, open, close, depth, true, true);
            } else if c == '"' {
                lemma_bal_run_bounds(s, i + 1, open, close, depth, false, false);
            } else {
                lemma_bal_run_bounds(s, i + 1, open, close, depth, true, false);
            }
        } else if c == '"' {
            lemma_bal_run_bounds(s, i + 1, open, close, depth, true, false);
        } else if c == open {
            lemma_bal_run_bounds(s, i + 1, open, close, depth + 1, false, false);
        } else if c == close {
            if depth != 1 {
                lemma_bal_run_bounds(s, i + 1, open, close, depth - 1, false, false);
            }
        } else {
            lemma_bal_run_bounds(s, i + 1, open, close, depth, false, false);
        }
    }
}

fn bal_scan(s: &str, i: usize, open: char, close: char, depth: usize, in_str: bool, esc: bool) -> (r:
    Option<usize>)
    requires
        i <= s@.len(),
        1 <= depth <= i,
    ensures
        match bal_run(s@, i as int, open, close, depth as int, in_str, esc) {
            Some(e) => r is Some && r->0 == e && i < e <= s@.len(),
            None => r is None,
        },
    decreases s@.len() - i,
{
    proof {
        lemma_bal_run_bounds(s@, i as int, open, close, depth as int, in_str, esc);
    }
    let n = s.unicode_len();
    if i >= n {
        return None;
    }
    let c = s.get_char(i);
    if in_str {
        if esc {
            bal_scan(s, i + 1, open, close, depth, true, false)
        } else if c == '\\' {
            bal_scan(s, i + 1, open, close, depth, true, true)
        } else if c == '"' {
            bal_scan(s, i + 1, open, close, depth, false, false)
        } else {
            bal_scan(s, i + 1, open, close, depth, true, false)
        }
    } else if c == '"' {
        bal_scan(s, i + 1, open, close, depth, true, false)
    } else if c == open {
        bal_scan(s, i + 1, open, close, depth + 1, false, false)
    } else if c == close {
        if depth == 1 {
            Some(i + 1)
        } else {
            bal_scan(s, i + 1, open, close, depth - 1, false, false)
        }
    } else {
        bal_scan(s, i + 1, open, close, depth, false, false)
    }
}

pub fn extract_balanced(s: &str, i: usize, open: char, close: char) -> (r: Option<(String, usize)>)
    requires
        i <= s@.len(),
    ensures
        match spec_extract_balanced(s@, i as int, open, close) {
            Some((t, e)) => {
                &&& r is Some
                &&& (r->0).0@ == t
                &&& (r->0).1 == e
                &&& i < e <= s@.len()
            },
            None => r is None,
        },
{
    let n = s.unicode_len();
    if i < n && s.get_char(i) == open {
        match bal_scan(s, i + 1, open, close, 1, false, false) {
            Some(e) => {
                let interior = copy_range(s, i + 1, e - 1);
                Some((interior, e))
            },
            None => None,
        }
    } else {
        None
    }
}

// ------------------------------------------------------------------
// Trimming and whole-string shapes.
// ------------------------------------------------------------------

/// Length of the whitespace run ending at `j` (scanning backwards).
pub open spec fn trim_end_run(s: Seq<char>, j: int) -> nat
    decreases j,
{
    if 0 < j <= s.len() && is_ws_char(s[j - 1]) {
        1 + trim_end_run(s, j - 1)
    } else {
        0
    }
}

/// `s` with leading and trailing whitespace removed.
pub open spec fn spec_trim(s: Seq<char>) -> Seq<char> {
    let a = ws_run(s, 0) as int;
    let b = s.len() - trim_end_run(s, s.len() as int);
    if a <= b {
        s.subrange(a, b)
    } else {
        Seq::empty()
    }
}

fn trim_end_pos(s: &str, j: usize) -> (r: usize)
    requires
        j <= s@.len(),
    ensures
        r == j - trim_end_run(s@, j as int),
        r <= j,
    decreases j,
{
    if j > 0 && ws_char(s.get_char(j - 1)) {
        trim_end_pos(s, j - 1)
    } else {
        j
    }
}

pub fn trim_str(s: &str) -> (t: String)
    ensures
        t@ == spec_trim(s@),
{
    let n = s.unicode_len();
    let a = ws_run_end(s, 0);
    let b = trim_end_pos(s, n);
    if a <= b {
        copy_range(s, a, b)
    } else {
        String::new()
    }
}

/// The whole of `t` is one identifier.
pub open spec fn is_identifier_seq(t: Seq<char>) -> bool {
    &&& t.len() >= 1
    &&& is_ident_start_char(t[0])
    &&& forall|k: int| 1 <= k < t.len() ==> is_ident_char(#[trigger] t[k])
}

pub fn is_identifier_str(t: &str) -> (b: bool)
    ensures
        b == is_identifier_seq(t@),
{
    let n = t.unicode_len();
    if n == 0 || !ident_start_char(t.get_char(0)) {
        return false;
    }
    let mut k: usize = 1;
    while k < n
        invariant
            1 <= k <= n,
            n == t@.len(),
            is_ident_start_char(t@[0]),
            forall|m: int| 1 <= m < k ==> is_ident_char(#[trigger] t@[m]),
        decreases n - k,
    {
        if !ident_char(t.get_char(k)) {
            return false;
        }
        k += 1;
    }
    true
}

} // verus!
