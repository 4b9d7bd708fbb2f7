//! The lexer: program text to a sequence of token strings.
//!
//! At each position the lexer skips a run of whitespace and then matches one
//! token class: a parenthesis, a run of operator symbols, a quoted string
//! (no escapes, no embedded quotes), an identifier (a lowercase letter
//! followed by lowercase letters and digits), a float literal
//! (digits `.` digits), or an integer literal (digits).  The token classes
//! are distinguished by their first character, and each match is maximal.
//! Text at which no class matches is a lexical error, and the lexer stops
//! with the offending position rather than scanning on.

use vstd::prelude::*;
use vstd::string::{StrSliceExecFns, StringExecFns};
use crate::numbers::is_digit;

verus! {

/// The whitespace characters the lexer skips (ASCII whitespace).
pub open spec fn is_white(c: char) -> bool {
    c == ' ' || c == '\n' || c == '\t' || c == '\r' || c == '\u{b}' || c == '\u{c}'
}

/// The characters an operator token is made of.
pub open spec fn is_op_char(c: char) -> bool {
    c == '>' || c == '<' || c == '=' || c == '!' || c == '^' || c == '/' || c == '*' || c == '+'
        || c == '-'
}

pub open spec fn is_lower(c: char) -> bool {
    97 <= (c as u32) && (c as u32) <= 122
}

/// The characters an identifier may continue with.
pub open spec fn is_ident_char(c: char) -> bool {
    is_lower(c) || is_digit(c)
}

/// The length of the maximal run of characters satisfying `p` at `i`.
pub open spec fn run_len(s: Seq<char>, i: int, p: spec_fn(char) -> bool) -> int
    decreases s.len() - i,
{
    if i < 0 || i >= s.len() || !p(s[i]) {
        0
    } else {
        1 + run_len(s, i + 1, p)
    }
}

/// The first index at or after `j` holding a double quote, if any.
pub open spec fn find_quote(s: Seq<char>, j: int) -> Option<int>
    decreases s.len() - j,
{
    if j < 0 || j >= s.len() {
        None
    } else if s[j] == '"' {
        Some(j)
    } else {
        find_quote(s, j + 1)
    }
}

/// The length of the token starting at position `i` (which must hold a
/// non-whitespace character), or `None` if no token class matches there.
pub open spec fn token_len_at(s: Seq<char>, i: int) -> Option<int> {
    let c = s[i];
    if c == '(' || c == ')' {
        Some(1)
    } else if is_op_char(c) {
        Some(run_len(s, i, |x: char| is_op_char(x)))
    } else if c == '"' {
        match find_quote(s, i + 1) {
            Some(j) => Some(j - i + 1),
            None => None,
        }
    } else if is_lower(c) {
        Some(1 + run_len(s, i + 1, |x: char| is_ident_char(x)))
    } else if is_digit(c) {
        let d = run_len(s, i, |x: char| is_digit(x));
        if i + d < s.len() && s[i + d] == '.' && i + d + 1 < s.len() && is_digit(s[i + d + 1]) {
            Some(d + 1 + run_len(s, i + d + 1, |x: char| is_digit(x)))
        } else {
            Some(d)
        }
    } else {
        None
    }
}

pub proof fn lemma_run_len_bounds(s: Seq<char>, i: int, p: spec_fn(char) -> bool)
    requires
        0 <= i <= s.len(),
    ensures
        0 <= run_len(s, i, p),
        i + run_len(s, i, p) <= s.len(),
    decreases s.len() - i,
{
    if i < s.len() && p(s[i]) {
        lemma_run_len_bounds(s, i + 1, p);
    }
}

pub proof fn lemma_token_len_pos(s: Seq<char>, i: int)
    requires
        0 <= i < s.len(),
        token_len_at(s, i) is Some,
    ensures
        1 <= token_len_at(s, i)->0,
        i + token_len_at(s, i)->0 <= s.len(),
{
    let c = s[i];
    if c == '(' || c == ')' {
    } else if is_op_char(c) {
        lemma_run_len_bounds(s, i, |x: char| is_op_char(x));
        lemma_run_len_bounds(s, i + 1, |x: char| is_op_char(x));
    } else if c == '"' {
        lemma_find_quote_bounds(s, i + 1);
    } else if is_lower(c) {
        lemma_run_len_bounds(s, i + 1, |x: char| is_ident_char(x));
    } else if is_digit(c) {
        let d = run_len(s, i, |x: char| is_digit(x));
        lemma_run_len_bounds(s, i, |x: char| is_digit(x));
        lemma_run_len_bounds(s, i + 1, |x: char| is_digit(x));
        if i + d < s.len() && s[i + d] == '.' && i + d + 1 < s.len() && is_digit(s[i + d + 1]) {
            lemma_run_len_bounds(s, i + d + 1, |x: char| is_digit(x));
        }
    }
}

pub proof fn lemma_find_quote_bounds(s: Seq<char>, j: int)
    requires
        0 <= j <= s.len(),
    ensures
        match find_quote(s, j) {
            Some(q) => j <= q < s.len() && s[q] == '"',
            None => true,
        },
    decreases s.len() - j,
{
    if j < s.len() && s[j] != '"' {
        lemma_find_quote_bounds(s, j + 1);
    }
}

/// The token sequence of the text from position `i` on: skip whitespace,
/// take the token matched at the position, continue after it.  `None` means
/// a position matching no token class was reached.
pub open spec fn lex_from(s: Seq<char>, i: int) -> Option<Seq<Seq<char>>>
    decreases s.len() - i, (if 0 <= i < s.len() && is_white(s[i]) {
        1int
    } else {
        0int
    })
        via lex_from_decreases
{
    if i < 0 || i >= s.len() {
        Some(Seq::empty())
    } else if is_white(s[i]) {
        lex_from(s, i + 1)
    } else {
        match token_len_at(s, i) {
            None => None,
            Some(l) => match lex_from(s, i + l) {
                None => None,
                Some(rest) => Some(seq![s.subrange(i, i + l)] + rest),
            },
        }
    }
}

#[via_fn]
proof fn lex_from_decreases(s: Seq<char>, i: int) {
    if 0 <= i < s.len() && !is_white(s[i]) {
        if token_len_at(s, i) is Some {
            lemma_token_len_pos(s, i);
        }
    }
}

/// The whole text's token sequence.
pub open spec fn lex_spec(s: Seq<char>) -> Option<Seq<Seq<char>>> {
    lex_from(s, 0)
}

/// A lexical error: no token class matches at this character position.
#[derive(Clone, Copy, PartialEq, Eq, Structural, Debug)]
pub struct LexError {
    pub at: usize,
}

fn white(c: char) -> (r: bool)
    ensures
        r == is_white(c),
{
    c == ' ' || c == '\n' || c == '\t' || c == '\r' || c == '\u{b}' || c == '\u{c}'
}

fn op_char(c: char) -> (r: bool)
    ensures
        r == is_op_char(c),
{
    c == '>' || c == '<' || c == '=' || c == '!' || c == '^' || c == '/' || c == '*' || c == '+'
        || c == '-'
}

fn lower(c: char) -> (r: bool)
    ensures
        r == is_lower(c),
{
    let u = c as u32;
    97 <= u && u <= 122
}

fn digit(c: char) -> (r: bool)
    ensures
        r == is_digit(c),
{
    let u = c as u32;
    48 <= u && u <= 57
}

fn ident_char(c: char) -> (r: bool)
    ensures
        r == is_ident_char(c),
{
    lower(c) || digit(c)
}

/// A maximal run of `p`-characters read exactly `run_len` far.
pub proof fn lemma_run_len_exact(s: Seq<char>, i: int, j: int, p: spec_fn(char) -> bool)
    requires
        0 <= i <= j <= s.len(),
        forall|k: int| i <= k < j ==> p(#[trigger] s[k]),
        j == s.len() || !p(s[j]),
    ensures
        run_len(s, i, p) == j - i,
    decreases j - i,
{
    if i < j {
        lemma_run_len_exact(s, i + 1, j, p);
    }
}

pub proof fn lemma_find_quote_exact(s: Seq<char>, i: int, j: int)
    requires
        0 <= i <= j <= s.len(),
        forall|k: int| i <= k < j ==> #[trigger] s[k] != '"',
        j == s.len() || s[j] == '"',
    ensures
        find_quote(s, i) == (if j == s.len() {
            None::<int>
        } else {
            Some(j)
        }),
    decreases j - i,
{
    if i < j {
        lemma_find_quote_exact(s, i + 1, j);
    }
}

/// Scans the maximal run of operator characters from `from`.
fn scan_op(s: &str, from: usize, n: usize) -> (r: usize)
    requires
        n == s@.len(),
        from <= n,
    ensures
        r == from + run_len(s@, from as int, |x: char| is_op_char(x)),
        from <= r <= n,
{
    let mut j: usize = from;
    while j < n
        invariant
            from <= j <= n,
            n == s@.len(),
            forall|k: int| from <= k < j ==> is_op_char(#[trigger] s@[k]),
        decreases n - j,
    {
        if !op_char(s.get_char(j)) {
            proof {
                lemma_run_len_exact(s@, from as int, j as int, |x: char| is_op_char(x));
            }
            return j;
        }
        j = j + 1;
    }
    proof {
        lemma_run_len_exact(s@, from as int, n as int, |x: char| is_op_char(x));
    }
    j
}

/// Scans the maximal run of identifier characters from `from`.
fn scan_ident(s: &str, from: usize, n: usize) -> (r: usize)
    requires
        n == s@.len(),
        from <= n,
    ensures
        r == from + run_len(s@, from as int, |x: char| is_ident_char(x)),
        from <= r <= n,
{
    let mut j: usize = from;
    while j < n
        invariant
            from <= j <= n,
            n == s@.len(),
            forall|k: int| from <= k < j ==> is_ident_char(#[trigger] s@[k]),
        decreases n - j,
    {
        if !ident_char(s.get_char(j)) {
            proof {
                lemma_run_len_exact(s@, from as int, j as int, |x: char| is_ident_char(x));
            }
            return j;
        }
        j = j + 1;
    }
    proof {
        lemma_run_len_exact(s@, from as int, n as int, |x: char| is_ident_char(x));
    }
    j
}

/// Scans the maximal run of digits from `from`.
fn scan_digits(s: &str, from: usize, n: usize) -> (r: usize)
    requires
        n == s@.len(),
        from <= n,
    ensures
        r == from + run_len(s@, from as int, |x: char| is_digit(x)),
        from <= r <= n,
{
    let mut j: usize = from;
    while j < n
        invariant
            from <= j <= n,
            n == s@.len(),
            forall|k: int| from <= k < j ==> is_digit(#[trigger] s@[k]),
        decreases n - j,
    {
        if !digit(s.get_char(j)) {
            proof {
                lemma_run_len_exact(s@, from as int, j as int, |x: char| is_digit(x));
            }
            return j;
        }
        j = j + 1;
    }
    proof {
        lemma_run_len_exact(s@, from as int, n as int, |x: char| is_digit(x));
    }
    j
}

/// The exclusive end of the token starting at `i`, or `None` if no token
/// class matches at `i`.
fn token_end(s: &str, i: usize, n: usize) -> (r: Option<usize>)
    requires
        n == s@.len(),
        i < n,
        !is_white(s@[i as int]),
    ensures
        match r {
            Some(e) => token_len_at(s@, i as int) == Some(e - i) && i < e <= n,
            None => token_len_at(s@, i as int) is None,
        },
{
    let c = s.get_char(i);
    if c == '(' || c == ')' {
        Some(i + 1)
    } else if op_char(c) {
        let e = scan_op(s, i, n);
        proof {
            lemma_token_len_pos(s@, i as int);
        }
        Some(e)
    } else if c == '"' {
        let mut j: usize = i + 1;
        while j < n
            invariant
                i + 1 <= j <= n,
                n == s@.len(),
                s@[i as int] == '"',
                forall|k: int| i + 1 <= k < j ==> #[trigger] s@[k] != '"',
            decreases n - j,
        {
            if s.get_char(j) == '"' {
                proof {
                    lemma_find_quote_exact(s@, i + 1, j as int);
                }
                return Some(j + 1);
            }
            j = j + 1;
        }
        proof {
            lemma_find_quote_exact(s@, i + 1, n as int);
        }
        None
    } else if lower(c) {
        let e = scan_ident(s, i + 1, n);
        proof {
            lemma_token_len_pos(s@, i as int);
        }
        Some(e)
    } else if digit(c) {
        let d_end = scan_digits(s, i, n);
        proof {
            lemma_run_len_bounds(s@, i as int, |x: char| is_digit(x));
        }
        if d_end < n && d_end + 1 < n && s.get_char(d_end) == '.' && digit(
            s.get_char(d_end + 1),
        ) {
            let e = scan_digits(s, d_end + 1, n);
            proof {
                lemma_token_len_pos(s@, i as int);
            }
            Some(e)
        } else {
            proof {
                lemma_token_len_pos(s@, i as int);
            }
            Some(d_end)
        }
    } else {
        None
    }
}

/// Splits program text into its token strings, exactly as `lex_spec`
/// describes; a text at which some position matches no token class is
/// rejected with that position.
pub fn lex(text: &str) -> (r: Result<Vec<String>, LexError>)
    ensures
        match r {
            Ok(toks) => lex_spec(text@) == Some(toks.deep_view()),
            Err(e) => lex_spec(text@) is None,
        },
{
    let n = text.unicode_len();
    let mut toks: Vec<String> = Vec::new();
    let mut i: usize = 0;
    while i < n
        invariant
            0 <= i <= n,
            n == text@.len(),
            lex_from(text@, 0) == (match lex_from(text@, i as int) {
                None => None::<Seq<Seq<char>>>,
                Some(rest) => Some(toks.deep_view() + rest),
            }),
        decreases n - i,
    {
        let c = text.get_char(i);
        if white(c) {
            i = i + 1;
        } else {
            match token_end(text, i, n) {
                None => {
                    return Err(LexError { at: i });
                },
                Some(e) => {
                    let ghost t_old = toks.deep_view();
                    let tok = text.substring_char(i, e).to_owned();
                    toks.push(tok);
                    proof {
                        assert(toks.deep_view() =~= t_old + seq![tok@]);
                        assert(!is_white(text@[i as int]));
                        match lex_from(text@, e as int) {
                            Option::None => {
                                assert(lex_from(text@, i as int) is None);
                            },
                            Option::Some(rest2) => {
                                assert(lex_from(text@, i as int) == Some(
                                    seq![text@.subrange(i as int, e as int)] + rest2,
                                ));
                                assert(t_old + (seq![tok@] + rest2) =~= (t_old + seq![tok@])
                                    + rest2);
                            },
                        }
                    }
                    i = e;
                },
            }
        }
    }
    proof {
        assert(lex_from(text@, n as int) == Some(Seq::<Seq<char>>::empty()));
        assert(toks.deep_view() + Seq::<Seq<char>>::empty() =~= toks.deep_view());
    }
    Ok(toks)
}

} // verus!

verus! {

/// The characters of a maximal run all satisfy its predicate.
pub proof fn lemma_run_len_chars(s: Seq<char>, i: int, p: spec_fn(char) -> bool)
    requires
        0 <= i <= s.len(),
    ensures
        forall|k: int| i <= k < i + run_len(s, i, p) ==> p(#[trigger] s[k]),
    decreases s.len() - i,
{
    if i < s.len() && p(s[i]) {
        lemma_run_len_chars(s, i + 1, p);
        lemma_run_len_bounds(s, i + 1, p);
    }
}

/// The first quote found is the first one there is.
pub proof fn lemma_find_quote_first(s: Seq<char>, j: int)
    requires
        0 <= j <= s.len(),
    ensures
        match find_quote(s, j) {
            Some(q) => forall|k: int| j <= k < q ==> #[trigger] s[k] != '"',
            None => forall|k: int| j <= k < s.len() ==> #[trigger] s[k] != '"',
        },
    decreases s.len() - j,
{
    if j < s.len() && s[j] != '"' {
        lemma_find_quote_first(s, j + 1);
    }
}

/// Token matching reads only rightward: matching in a longer text at an
/// offset past a prefix is matching in the suffix.
pub proof fn lemma_run_len_shift(a: Seq<char>, b: Seq<char>, j: int, p: spec_fn(char) -> bool)
    requires
        0 <= j <= b.len(),
    ensures
        run_len(a + b, a.len() + j, p) == run_len(b, j, p),
    decreases b.len() - j,
{
    if j < b.len() {
        assert((a + b)[a.len() + j] == b[j]);
        if p(b[j]) {
            lemma_run_len_shift(a, b, j + 1, p);
        }
    }
}

pub proof fn lemma_find_quote_shift(a: Seq<char>, b: Seq<char>, j: int)
    requires
        0 <= j <= b.len(),
    ensures
        find_quote(a + b, a.len() + j) == (match find_quote(b, j) {
            Some(q) => Some(a.len() + q),
            None => None::<int>,
        }),
    decreases b.len() - j,
{
    if j < b.len() {
        assert((a + b)[a.len() + j] == b[j]);
        if b[j] != '"' {
            lemma_find_quote_shift(a, b, j + 1);
        }
    }
}

pub proof fn lemma_token_len_shift(a: Seq<char>, b: Seq<char>, j: int)
    requires
        0 <= j < b.len(),
    ensures
        token_len_at(a + b, a.len() + j) == token_len_at(b, j),
{
    let s = a + b;
    let i = a.len() + j;
    assert(s[i] == b[j]);
    lemma_run_len_shift(a, b, j, |x: char| is_op_char(x));
    lemma_find_quote_shift(a, b, j + 1);
    lemma_run_len_shift(a, b, j + 1, |x: char| is_ident_char(x));
    lemma_run_len_shift(a, b, j, |x: char| is_digit(x));
    lemma_run_len_bounds(b, j, |x: char| is_digit(x));
    let d = run_len(b, j, |x: char| is_digit(x));
    if j + d < b.len() {
        assert(s[i + d] == b[j + d]);
        if b[j + d] == '.' && j + d + 1 < b.len() && is_digit(b[j + d + 1]) {
            assert(s[i + d + 1] == b[j + d + 1]);
            lemma_run_len_shift(a, b, j + d + 1, |x: char| is_digit(x));
        }
    }
}

/// Tokenizing past a prefix is tokenizing the suffix: the same tokens come
/// out, because each token is read out of the text by position.
pub proof fn lemma_lex_from_shift(a: Seq<char>, b: Seq<char>, j: int)
    requires
        0 <= j <= b.len(),
    ensures
        lex_from(a + b, a.len() + j) == lex_from(b, j),
    decreases b.len() - j, (if 0 <= j < b.len() && is_white(b[j]) {
        1int
    } else {
        0int
    }),
{
    let s = a + b;
    let i = a.len() + j;
    if j >= b.len() {
        assert(lex_from(s, i) == Some(Seq::<Seq<char>>::empty()));
    } else {
        assert(s[i] == b[j]);
        if is_white(b[j]) {
            lemma_lex_from_shift(a, b, j + 1);
        } else {
            lemma_token_len_shift(a, b, j);
            match token_len_at(b, j) {
                None => {},
                Some(l) => {
                    lemma_token_len_pos(b, j);
                    lemma_lex_from_shift(a, b, j + l);
                    assert(s.subrange(i, i + l) =~= b.subrange(j, j + l));
                },
            }
        }
    }
}

/// The shapes of tokens as the lexer emits them.
pub open spec fn op_token(t: Seq<char>) -> bool {
    t.len() >= 1 && (forall|i: int| 0 <= i < t.len() ==> is_op_char(#[trigger] t[i]))
}

pub open spec fn string_token(t: Seq<char>) -> bool {
    &&& t.len() >= 2
    &&& t[0] == '"'
    &&& t[t.len() - 1] == '"'
    &&& forall|i: int| 1 <= i < t.len() - 1 ==> #[trigger] t[i] != '"'
}

pub open spec fn ident_token(t: Seq<char>) -> bool {
    &&& t.len() >= 1
    &&& is_lower(t[0])
    &&& forall|i: int| 1 <= i < t.len() ==> is_ident_char(#[trigger] t[i])
}

pub open spec fn num_token(t: Seq<char>) -> bool {
    t.len() >= 1 && crate::numbers::all_digits(t)
}

pub open spec fn float_token(t: Seq<char>) -> bool {
    exists|k: int|
        {
            &&& 1 <= k
            &&& k + 2 <= t.len()
            &&& #[trigger] t[k] == '.'
            &&& (forall|i: int| 0 <= i < k ==> is_digit(#[trigger] t[i]))
            &&& (forall|i: int| k < i < t.len() ==> is_digit(#[trigger] t[i]))
        }
}

/// Every token the lexer can emit.
pub open spec fn emitted_token(t: Seq<char>) -> bool {
    ||| t =~= seq!['(']
    ||| t =~= seq![')']
    ||| op_token(t)
    ||| string_token(t)
    ||| ident_token(t)
    ||| float_token(t)
    ||| num_token(t)
}

/// The token matched at a position, cut out of the text, has one of the
/// emitted shapes.
pub proof fn lemma_token_shape(s: Seq<char>, i: int)
    requires
        0 <= i < s.len(),
        !is_white(s[i]),
        token_len_at(s, i) is Some,
    ensures
        emitted_token(s.subrange(i, i + token_len_at(s, i)->0)),
{
    let l = token_len_at(s, i)->0;
    lemma_token_len_pos(s, i);
    let t = s.subrange(i, i + l);
    let c = s[i];
    if c == '(' {
        assert(t =~= seq!['(']);
    } else if c == ')' {
        assert(t =~= seq![')']);
    } else if is_op_char(c) {
        lemma_run_len_chars(s, i, |x: char| is_op_char(x));
        assert(op_token(t));
    } else if c == '"' {
        lemma_find_quote_bounds(s, i + 1);
        lemma_find_quote_first(s, i + 1);
        let q = find_quote(s, i + 1)->0;
        assert(t[0] == '"');
        assert(t[t.len() - 1] == s[q]);
        assert(forall|k: int| 1 <= k < t.len() - 1 ==> #[trigger] t[k] != '"');
        assert(string_token(t));
    } else if is_lower(c) {
        lemma_run_len_chars(s, i + 1, |x: char| is_ident_char(x));
        lemma_run_len_bounds(s, i + 1, |x: char| is_ident_char(x));
        assert(ident_token(t));
    } else if is_digit(c) {
        let d = run_len(s, i, |x: char| is_digit(x));
        lemma_run_len_chars(s, i, |x: char| is_digit(x));
        lemma_run_len_bounds(s, i, |x: char| is_digit(x));
        if i + d < s.len() && s[i + d] == '.' && i + d + 1 < s.len() && is_digit(s[i + d + 1]) {
            lemma_run_len_chars(s, i + d + 1, |x: char| is_digit(x));
            lemma_run_len_bounds(s, i + d + 1, |x: char| is_digit(x));
            lemma_run_len_bounds(s, i + d + 2, |x: char| is_digit(x));
            assert(d >= 1) by {
                assert(is_digit(s[i]));
            }
            assert(run_len(s, i + d + 1, |x: char| is_digit(x)) >= 1);
            assert(t.len() >= d + 2);
            assert(t[d] == '.');
            assert(forall|k: int| 0 <= k < d ==> is_digit(#[trigger] t[k]));
            assert(forall|k: int| d < k < t.len() ==> is_digit(#[trigger] t[k]));
            assert(float_token(t));
        } else {
            assert(forall|k: int| 0 <= k < t.len() ==> is_digit(#[trigger] t[k]));
            assert(num_token(t));
        }
    }
}

/// Every token of a successful tokenization has an emitted shape.
pub proof fn lemma_lex_tokens_emitted(s: Seq<char>, i: int)
    requires
        0 <= i <= s.len(),
    ensures
        match lex_from(s, i) {
            Some(toks) => forall|k: int| 0 <= k < toks.len() ==> emitted_token(#[trigger] toks[k]),
            None => true,
        },
    decreases s.len() - i, (if 0 <= i < s.len() && is_white(s[i]) {
        1int
    } else {
        0int
    }),
{
    if i < s.len() {
        if is_white(s[i]) {
            lemma_lex_tokens_emitted(s, i + 1);
        } else {
            match token_len_at(s, i) {
                None => {},
                Some(l) => {
                    lemma_token_len_pos(s, i);
                    lemma_token_shape(s, i);
                    lemma_lex_tokens_emitted(s, i + l);
                },
            }
        }
    }
}

} // verus!

verus! {

/// An emitted token, followed by nothing or by a space, reads back as
/// itself: the match starts at its first character, picks its class, and
/// stops exactly at its end.
pub proof fn lemma_token_relex(t: Seq<char>, rest: Seq<char>)
    requires
        emitted_token(t),
        rest.len() == 0 || rest[0] == ' ',
    ensures
        !is_white((t + rest)[0]),
        token_len_at(t + rest, 0) == Some(t.len() as int),
{
    let s = t + rest;
    assert(forall|k: int| 0 <= k < t.len() ==> s[k] == #[trigger] t[k]);
    assert(t.len() < s.len() ==> s[t.len() as int] == ' ');
    if t =~= seq!['('] {
        assert(s[0] == '(');
    } else if t =~= seq![')'] {
        assert(s[0] == ')');
    } else if op_token(t) {
        assert(is_op_char(s[0]));
        lemma_run_len_exact(s, 0, t.len() as int, |x: char| is_op_char(x));
    } else if string_token(t) {
        assert(s[0] == '"');
        assert(s[t.len() - 1] == '"');
        lemma_find_quote_exact(s, 1, t.len() - 1);
    } else if ident_token(t) {
        assert(is_lower(s[0]));
        lemma_run_len_exact(s, 1, t.len() as int, |x: char| is_ident_char(x));
    } else if float_token(t) {
        let k = choose|k: int|
            {
                &&& 1 <= k
                &&& k + 2 <= t.len()
                &&& #[trigger] t[k] == '.'
                &&& (forall|i: int| 0 <= i < k ==> is_digit(#[trigger] t[i]))
                &&& (forall|i: int| k < i < t.len() ==> is_digit(#[trigger] t[i]))
            };
        assert(is_digit(s[0]));
        lemma_run_len_exact(s, 0, k, |x: char| is_digit(x));
        assert(s[k] == '.');
        assert(is_digit(s[k + 1]));
        lemma_run_len_exact(s, k + 1, t.len() as int, |x: char| is_digit(x));
    } else {
        assert(num_token(t));
        assert(is_digit(s[0]));
        lemma_run_len_exact(s, 0, t.len() as int, |x: char| is_digit(x));
        assert(t.len() < s.len() ==> s[t.len() as int] != '.');
    }
}

/// The emitted tokens joined back into one text, with a single space
/// between each two.
pub open spec fn join_tokens(toks: Seq<Seq<char>>) -> Seq<char>
    decreases toks.len(),
{
    if toks.len() == 0 {
        Seq::empty()
    } else if toks.len() == 1 {
        toks[0]
    } else {
        toks[0] + seq![' '] + join_tokens(toks.drop_first())
    }
}

/// Tokenizing the joined tokens gives the tokens back.
pub proof fn lemma_relex_tokens(toks: Seq<Seq<char>>)
    requires
        forall|k: int| 0 <= k < toks.len() ==> emitted_token(#[trigger] toks[k]),
    ensures
        lex_from(join_tokens(toks), 0) == Some(toks),
    decreases toks.len(),
{
    let s = join_tokens(toks);
    if toks.len() == 0 {
        assert(lex_from(s, 0) == Some(Seq::<Seq<char>>::empty()));
        assert(Seq::<Seq<char>>::empty() =~= toks);
    } else {
        let t0 = toks[0];
        assert(emitted_token(t0));
        let l = t0.len() as int;
        if toks.len() == 1 {
            assert(s =~= t0 + Seq::<char>::empty());
            lemma_token_relex(t0, Seq::empty());
            assert(token_len_at(s, 0) == Some(l));
            assert(s.subrange(0, l) =~= t0);
            assert(lex_from(s, l) == Some(Seq::<Seq<char>>::empty()));
            assert(seq![t0] + Seq::<Seq<char>>::empty() =~= toks);
        } else {
            let rest = toks.drop_first();
            let tail_text = join_tokens(rest);
            let rest_text = seq![' '] + tail_text;
            assert(s =~= t0 + rest_text);
            lemma_token_relex(t0, rest_text);
            assert(token_len_at(t0 + rest_text, 0) == Some(l));
            assert(token_len_at(s, 0) == Some(l));
            assert(s.subrange(0, l) =~= t0);
            assert(s[l] == ' ');
            assert(is_white(s[l]));
            let a = t0 + seq![' '];
            assert(s =~= a + tail_text);
            lemma_lex_from_shift(a, tail_text, 0);
            lemma_relex_tokens(rest);
            assert(lex_from(s, l + 1) == Some(rest));
            assert(lex_from(s, l) == lex_from(s, l + 1));
            assert(seq![t0] + rest =~= toks);
        }
    }
}

/// Tokenizing is idempotent on its own output: re-tokenizing the emitted
/// tokens, joined with single spaces between them, yields the same token
/// sequence.
pub proof fn lemma_lex_idempotent(text: Seq<char>)
    requires
        lex_spec(text) is Some,
    ensures
        lex_spec(join_tokens(lex_spec(text)->0)) == lex_spec(text),
{
    lemma_lex_tokens_emitted(text, 0);
    lemma_relex_tokens(lex_spec(text)->0);
}

} // verus!
