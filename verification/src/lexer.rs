//! The tokenizer: one raw source line becomes an indent width plus a token
//! sequence, or nothing for blank and comment lines.
//!
//! Scanning rules: `{...}` spans are brace-depth aware, so a variable
//! reference may contain another reference; `"..."` spans resolve the escapes
//! `\"`, `\n`, `\t` and `\\` (any other escaped character passes through with
//! its backslash); any other run of non-whitespace characters is a bare word.
//! An unterminated `{` span is emitted as literal text beginning with `{`.

use vstd::prelude::*;
use vstd::slice::slice_subrange;
use crate::error::BuclError;
use crate::text::{
    brace_close, brace_close_exec, first_idx, is_space_char, lemma_brace_close_bound,
    lemma_first_idx, space_char, str_chars, string_of,
};

verus! {

// ---------------------------------------------------------------------------
// Tokens and lines
// ---------------------------------------------------------------------------

/// A single token of a source line.
#[derive(Debug, Clone)]
pub enum Token {
    /// `{name}` - a variable reference.
    Variable(String),
    /// `"..."` - a quoted string, escapes already resolved.
    Quoted(String),
    /// Any bare word, number, or operator.
    Bare(String),
}

/// The ghost form of a token: the same shape over character sequences.
pub enum TokenV {
    Variable(Seq<char>),
    Quoted(Seq<char>),
    Bare(Seq<char>),
}

impl View for Token {
    type V = TokenV;

    open spec fn view(&self) -> TokenV {
        match self {
            Token::Variable(s) => TokenV::Variable(s@),
            Token::Quoted(s) => TokenV::Quoted(s@),
            Token::Bare(s) => TokenV::Bare(s@),
        }
    }
}

pub open spec fn tokens_view(ts: Seq<Token>) -> Seq<TokenV> {
    Seq::new(ts.len(), |i: int| ts[i]@)
}

/// A successfully tokenized non-empty, non-comment line.
#[derive(Debug, Clone)]
pub struct Line {
    /// Number of leading whitespace characters, used as the indent level.
    pub indent: usize,
    pub tokens: Vec<Token>,
}

/// The ghost form of a line.
pub struct LineV {
    pub indent: nat,
    pub tokens: Seq<TokenV>,
}

impl View for Line {
    type V = LineV;

    open spec fn view(&self) -> LineV {
        LineV { indent: self.indent as nat, tokens: tokens_view(self.tokens@) }
    }
}

pub open spec fn lines_view(ls: Seq<Line>) -> Seq<LineV> {
    Seq::new(ls.len(), |i: int| ls[i]@)
}

// ---------------------------------------------------------------------------
// What tokenizing one line means
// ---------------------------------------------------------------------------

/// The indent width: leading spaces and tabs, counted as characters.
pub open spec fn indent_of(s: Seq<char>) -> nat
    decreases s.len(),
{
    if s.len() > 0 && (s[0] == ' ' || s[0] == '\t') {
        1 + indent_of(s.drop_first())
    } else {
        0
    }
}

pub open spec fn trim_start(s: Seq<char>) -> Seq<char>
    decreases s.len(),
{
    if s.len() > 0 && is_space_char(s[0]) {
        trim_start(s.drop_first())
    } else {
        s
    }
}

pub open spec fn trim_end(s: Seq<char>) -> Seq<char>
    decreases s.len(),
{
    if s.len() > 0 && is_space_char(s.last()) {
        trim_end(s.drop_last())
    } else {
        s
    }
}

pub open spec fn trim(s: Seq<char>) -> Seq<char> {
    trim_end(trim_start(s))
}

/// Index of the first whitespace character, or the length when none.
pub open spec fn first_space(s: Seq<char>) -> int
    decreases s.len(),
{
    if s.len() == 0 {
        0
    } else if is_space_char(s[0]) {
        0
    } else {
        1 + first_space(s.drop_first())
    }
}

pub proof fn lemma_first_space(s: Seq<char>)
    ensures
        0 <= first_space(s) <= s.len(),
        first_space(s) < s.len() ==> is_space_char(s[first_space(s)]),
        forall|j: int| 0 <= j < first_space(s) ==> !is_space_char(s[j]),
    decreases s.len(),
{
    if s.len() > 0 && !is_space_char(s[0]) {
        lemma_first_space(s.drop_first());
        assert forall|j: int| 0 <= j < first_space(s) implies !is_space_char(s[j]) by {
            if j > 0 {
                assert(!is_space_char(s.drop_first()[j - 1]));
            }
        }
    }
}

/// What one escaped character inside a quoted span stands for.
pub open spec fn esc_char(c: char) -> Seq<char> {
    if c == '"' {
        seq!['"']
    } else if c == 'n' {
        seq!['\n']
    } else if c == 't' {
        seq!['\t']
    } else if c == '\\' {
        seq!['\\']
    } else {
        seq!['\\', c]
    }
}

/// Scan a quoted span (after the opening quote): the resolved content and
/// the number of characters consumed, including the closing quote. An
/// unterminated span consumes to the end of the line.
pub open spec fn qscan(s: Seq<char>) -> (Seq<char>, nat)
    decreases s.len(),
{
    if s.len() == 0 {
        (Seq::empty(), 0)
    } else if s[0] == '"' {
        (Seq::empty(), 1)
    } else if s[0] == '\\' {
        if s.len() == 1 {
            (Seq::empty(), 1)
        } else {
            let r = qscan(s.skip(2));
            (esc_char(s[1]) + r.0, r.1 + 2)
        }
    } else {
        let r = qscan(s.drop_first());
        (seq![s[0]] + r.0, r.1 + 1)
    }
}

pub proof fn lemma_qscan_bound(s: Seq<char>)
    ensures
        qscan(s).1 <= s.len(),
    decreases s.len(),
{
    if s.len() > 0 && s[0] != '"' {
        if s[0] == '\\' {
            if s.len() > 1 {
                lemma_qscan_bound(s.skip(2));
            }
        } else {
            lemma_qscan_bound(s.drop_first());
        }
    }
}

/// The token sequence of trimmed line content.
pub open spec fn scan_tokens(s: Seq<char>) -> Seq<TokenV>
    decreases s.len(),
    via scan_tokens_dec
{
    if s.len() == 0 {
        Seq::empty()
    } else if is_space_char(s[0]) {
        scan_tokens(s.drop_first())
    } else if s[0] == '{' {
        match brace_close(s.skip(1), 0) {
            Some(j) => seq![TokenV::Variable(s.subrange(1, 1 + j as int))] + scan_tokens(
                s.skip(2 + j as int),
            ),
            None => seq![TokenV::Bare(s)],
        }
    } else if s[0] == '"' {
        let r = qscan(s.skip(1));
        seq![TokenV::Quoted(r.0)] + scan_tokens(s.skip(1 + r.1 as int))
    } else {
        let k = first_space(s);
        seq![TokenV::Bare(s.subrange(0, k))] + scan_tokens(s.skip(k))
    }
}

#[via_fn]
proof fn scan_tokens_dec(s: Seq<char>) {
    if s.len() > 0 && !is_space_char(s[0]) {
        if s[0] == '{' {
            lemma_brace_close_bound(s.skip(1), 0);
        } else if s[0] == '"' {
            lemma_qscan_bound(s.skip(1));
        } else {
            lemma_first_space(s);
        }
    }
}

/// What tokenizing one raw line yields: `None` for blank and comment lines.
pub open spec fn line_spec(raw: Seq<char>) -> Option<LineV> {
    let content = trim(raw);
    if content.len() == 0 || content[0] == '#' {
        None
    } else {
        let toks = scan_tokens(content);
        if toks.len() == 0 {
            None
        } else {
            Some(LineV { indent: indent_of(raw), tokens: toks })
        }
    }
}

pub open spec fn opt_line_view(opt: Option<Line>) -> Option<LineV> {
    match opt {
        Some(l) => Some(l@),
        None => None,
    }
}

// ---------------------------------------------------------------------------
// What tokenizing a whole source means
// ---------------------------------------------------------------------------

/// Drop one carriage return left before a newline split.
pub open spec fn strip_cr(t: Seq<char>) -> Seq<char> {
    if t.len() > 0 && t.last() == '\r' {
        t.drop_last()
    } else {
        t
    }
}

/// The raw lines of a source text, split at newlines; the final line ending
/// is optional.
pub open spec fn split_lines(s: Seq<char>) -> Seq<Seq<char>>
    decreases s.len(),
    via split_lines_dec
{
    if s.len() == 0 {
        Seq::empty()
    } else {
        let k = first_idx(s, '\n');
        if k < s.len() {
            seq![strip_cr(s.subrange(0, k))] + split_lines(s.skip(k + 1))
        } else {
            seq![s]
        }
    }
}

#[via_fn]
proof fn split_lines_dec(s: Seq<char>) {
    lemma_first_idx(s, '\n');
}

/// The tokenized form of a sequence of raw lines, blank and comment lines
/// dropped.
pub open spec fn lines_spec(ls: Seq<Seq<char>>) -> Seq<LineV>
    decreases ls.len(),
{
    if ls.len() == 0 {
        Seq::empty()
    } else {
        lines_spec(ls.drop_last()) + match line_spec(ls.last()) {
            Some(l) => seq![l],
            None => Seq::empty(),
        }
    }
}

/// The tokenized form of a whole source text.
pub open spec fn tokenize_spec(src: Seq<char>) -> Seq<LineV> {
    lines_spec(split_lines(src))
}

// ---------------------------------------------------------------------------
// Executable scanning
// ---------------------------------------------------------------------------

/// Scan the quoted span that starts at `i` (just after the opening quote);
/// returns the resolved content and the index just past the span.
fn quote_exec(s: &[char], i: usize) -> (r: (Vec<char>, usize))
    requires
        i <= s@.len(),
    ensures
        r.0@ == qscan(s@.skip(i as int)).0,
        r.1 as int == i + qscan(s@.skip(i as int)).1,
        i <= r.1 <= s@.len(),
    decreases s@.len() - i,
{
    let ghost t = s@.skip(i as int);
    proof {
        lemma_qscan_bound(t);
    }
    if i >= s.len() {
        let r: Vec<char> = Vec::new();
        proof {
            assert(r@ =~= qscan(t).0);
        }
        return (r, i);
    }
    let c = s[i];
    proof {
        assert(t[0] == c);
        assert(t.drop_first() =~= s@.skip(i + 1));
    }
    if c == '"' {
        let r: Vec<char> = Vec::new();
        proof {
            assert(r@ =~= qscan(t).0);
        }
        return (r, i + 1);
    }
    if c == '\\' {
        if i + 1 >= s.len() {
            let r: Vec<char> = Vec::new();
            proof {
                assert(t.len() == 1);
                assert(r@ =~= qscan(t).0);
            }
            return (r, i + 1);
        }
        let e = s[i + 1];
        let mut out: Vec<char> = Vec::new();
        if e == '"' {
            out.push('"');
        } else if e == 'n' {
            out.push('\n');
        } else if e == 't' {
            out.push('\t');
        } else if e == '\\' {
            out.push('\\');
        } else {
            out.push('\\');
            out.push(e);
        }
        proof {
            assert(t[1] == e);
            assert(out@ =~= esc_char(e));
            assert(t.skip(2) =~= s@.skip(i + 2));
        }
        let mut rest = quote_exec(s, i + 2);
        let next = rest.1;
        out.append(&mut rest.0);
        proof {
            assert(out@ =~= qscan(t).0);
        }
        return (out, next);
    }
    let mut out: Vec<char> = Vec::new();
    out.push(c);
    let mut rest = quote_exec(s, i + 1);
    let next = rest.1;
    out.append(&mut rest.0);
    proof {
        assert(out@ =~= qscan(t).0);
    }
    (out, next)
}

/// Scan the tokens of trimmed content, starting at `i`.
fn scan_exec(s: &[char], i: usize) -> (r: Vec<Token>)
    requires
        i <= s@.len(),
    ensures
        tokens_view(r@) == scan_tokens(s@.skip(i as int)),
    decreases s@.len() - i,
{
    let ghost t = s@.skip(i as int);
    if i >= s.len() {
        let r: Vec<Token> = Vec::new();
        proof {
            assert(tokens_view(r@) =~= scan_tokens(t));
        }
        return r;
    }
    let c = s[i];
    proof {
        assert(t[0] == c);
        assert(t.drop_first() =~= s@.skip(i + 1));
    }
    if space_char(c) {
        let r = scan_exec(s, i + 1);
        return r;
    }
    if c == '{' {
        match brace_close_exec(s, i + 1, 0) {
            Some(j) => {
                proof {
                    assert(t.skip(1) =~= s@.skip(i + 1));
                    assert(brace_close(t.skip(1), 0) == Some((j - (i + 1)) as nat));
                }
                let content = slice_subrange(s, i + 1, j);
                let tok = Token::Variable(string_of(content));
                let mut out: Vec<Token> = Vec::new();
                out.push(tok);
                let mut rest = scan_exec(s, j + 1);
                proof {
                    assert(content@ =~= t.subrange(1, 1 + (j - (i + 1))));
                    assert(s@.skip(j + 1) =~= t.skip(2 + (j - (i + 1))));
                }
                out.append(&mut rest);
                proof {
                    let jj = (j - (i + 1)) as int;
                    assert(tokens_view(out@) =~= seq![
                        TokenV::Variable(t.subrange(1, 1 + jj)),
                    ] + scan_tokens(t.skip(2 + jj)));
                }
                return out;
            },
            None => {
                proof {
                    assert(t.skip(1) =~= s@.skip(i + 1));
                }
                let text = slice_subrange(s, i, s.len());
                let tok = Token::Bare(string_of(text));
                let mut out: Vec<Token> = Vec::new();
                out.push(tok);
                proof {
                    assert(text@ =~= t);
                    assert(tokens_view(out@) =~= seq![TokenV::Bare(t)]);
                }
                return out;
            },
        }
    }
    if c == '"' {
        proof {
            assert(t.skip(1) =~= s@.skip(i + 1));
        }
        let qr = quote_exec(s, i + 1);
        let tok = Token::Quoted(string_of(qr.0.as_slice()));
        let mut out: Vec<Token> = Vec::new();
        out.push(tok);
        let mut rest = scan_exec(s, qr.1);
        proof {
            assert(s@.skip(qr.1 as int) =~= t.skip(1 + qscan(t.skip(1)).1 as int));
        }
        out.append(&mut rest);
        proof {
            assert(tokens_view(out@) =~= seq![TokenV::Quoted(qscan(t.skip(1)).0)] + scan_tokens(
                t.skip(1 + qscan(t.skip(1)).1 as int),
            ));
        }
        return out;
    }
    let mut k: usize = i;
    while k < s.len() && !space_char(s[k])
        invariant
            i <= k <= s@.len(),
            forall|j: int| i <= j < k ==> !is_space_char(s@[j]),
        decreases s@.len() - k,
    {
        k = k + 1;
    }
    proof {
        lemma_first_space(t);
        assert(first_space(t) == k - i) by {
            assert(forall|j: int| 0 <= j < k - i ==> !is_space_char(t[j]));
            if first_space(t) < k - i {
                assert(is_space_char(t[first_space(t)]));
            }
            if first_space(t) > k - i {
                assert(k < s@.len());
                assert(is_space_char(t[k - i]));
                assert(!is_space_char(t[k - i]));
            }
        }
    }
    let word = slice_subrange(s, i, k);
    let tok = Token::Bare(string_of(word));
    let mut out: Vec<Token> = Vec::new();
    out.push(tok);
    let mut rest = scan_exec(s, k);
    proof {
        assert(word@ =~= t.subrange(0, k - i));
        assert(s@.skip(k as int) =~= t.skip(k - i));
    }
    out.append(&mut rest);
    proof {
        assert(tokens_view(out@) =~= seq![TokenV::Bare(t.subrange(0, (k - i) as int))]
            + scan_tokens(t.skip((k - i) as int)));
    }
    out
}

// ---------------------------------------------------------------------------
// Trimming lemmas
// ---------------------------------------------------------------------------

proof fn lemma_indent_at(s: Seq<char>, k: int)
    requires
        0 <= k <= s.len(),
        forall|j: int| 0 <= j < k ==> (s[j] == ' ' || s[j] == '\t'),
        k < s.len() ==> !(s[k] == ' ' || s[k] == '\t'),
    ensures
        indent_of(s) == k,
    decreases s.len(),
{
    if k > 0 {
        assert(s[0] == ' ' || s[0] == '\t');
        assert(forall|j: int|
            0 <= j < k - 1 ==> (s.drop_first()[j] == ' ' || s.drop_first()[j] == '\t'));
        lemma_indent_at(s.drop_first(), k - 1);
    }
}

proof fn lemma_trim_start_at(s: Seq<char>, a: int)
    requires
        0 <= a <= s.len(),
        forall|j: int| 0 <= j < a ==> is_space_char(s[j]),
        a < s.len() ==> !is_space_char(s[a]),
    ensures
        trim_start(s) == s.skip(a),
    decreases s.len(),
{
    if a > 0 {
        assert(is_space_char(s[0]));
        assert(forall|j: int| 0 <= j < a - 1 ==> is_space_char(s.drop_first()[j]));
        lemma_trim_start_at(s.drop_first(), a - 1);
        assert(s.drop_first().skip(a - 1) =~= s.skip(a));
    } else {
        assert(s.skip(0) =~= s);
        if s.len() > 0 {
            assert(!is_space_char(s[0]));
        }
    }
}

proof fn lemma_trim_end_at(s: Seq<char>, b: int)
    requires
        0 <= b <= s.len(),
        forall|j: int| b <= j < s.len() ==> is_space_char(s[j]),
        b > 0 ==> !is_space_char(s[b - 1]),
    ensures
        trim_end(s) == s.subrange(0, b),
    decreases s.len(),
{
    if b < s.len() {
        assert(is_space_char(s.last()));
        assert(forall|j: int| b <= j < s.drop_last().len() ==> is_space_char(s.drop_last()[j]));
        lemma_trim_end_at(s.drop_last(), b);
        assert(s.drop_last().subrange(0, b) =~= s.subrange(0, b));
    } else {
        assert(s.subrange(0, b) =~= s);
        if b > 0 {
            assert(!is_space_char(s.last()));
        }
    }
}

// ---------------------------------------------------------------------------
// Public tokenizing
// ---------------------------------------------------------------------------

/// Tokenize one raw source line. Returns `None` for blank lines and
/// pure-comment lines; tokenizing itself never fails.
pub fn tokenize_line(line: &str) -> (r: Result<Option<Line>, BuclError>)
    ensures
        r is Ok,
        match r {
            Ok(opt) => opt_line_view(opt) == line_spec(line@),
            Err(_) => false,
        },
{
    let chars = str_chars(line);
    let s = chars.as_slice();
    let n = s.len();

    let mut ind: usize = 0;
    while ind < n && (s[ind] == ' ' || s[ind] == '\t')
        invariant
            n == s@.len(),
            ind <= n,
            forall|j: int| 0 <= j < ind ==> (s@[j] == ' ' || s@[j] == '\t'),
        decreases n - ind,
    {
        ind = ind + 1;
    }
    proof {
        lemma_indent_at(s@, ind as int);
    }

    let mut a: usize = 0;
    while a < n && space_char(s[a])
        invariant
            n == s@.len(),
            a <= n,
            forall|j: int| 0 <= j < a ==> is_space_char(s@[j]),
        decreases n - a,
    {
        a = a + 1;
    }
    let mut b: usize = n;
    while b > a && space_char(s[b - 1])
        invariant
            n == s@.len(),
            a <= b <= n,
            forall|j: int| b <= j < n ==> is_space_char(s@[j]),
        decreases b,
    {
        b = b - 1;
    }
    proof {
        lemma_trim_start_at(s@, a as int);
        let t = s@.skip(a as int);
        assert(forall|j: int| b - a <= j < t.len() ==> is_space_char(t[j]));
        lemma_trim_end_at(t, b - a);
        assert(trim(s@) =~= s@.subrange(a as int, b as int));
    }

    if a == b {
        proof {
            assert(trim(line@).len() == 0);
        }
        return Ok(None);
    }
    if s[a] == '#' {
        proof {
            assert(trim(line@)[0] == '#');
        }
        return Ok(None);
    }
    let content = slice_subrange(s, a, b);
    proof {
        assert(content@ == trim(line@));
        assert(content@.skip(0) =~= content@);
    }
    let toks = scan_exec(content, 0);
    if toks.len() == 0 {
        return Ok(None);
    }
    let out = Line { indent: ind, tokens: toks };
    Ok(Some(out))
}

/// Split a source text into its raw lines, starting at `i`.
fn split_exec(s: &[char], i: usize) -> (r: Vec<Vec<char>>)
    requires
        i <= s@.len(),
    ensures
        r.deep_view() == split_lines(s@.skip(i as int)),
    decreases s@.len() - i,
{
    let ghost t = s@.skip(i as int);
    if i >= s.len() {
        let r: Vec<Vec<char>> = Vec::new();
        proof {
            assert(r.deep_view() =~= split_lines(t));
        }
        return r;
    }
    let mut k: usize = i;
    while k < s.len() && s[k] != '\n'
        invariant
            i <= k <= s@.len(),
            forall|j: int| i <= j < k ==> s@[j] != '\n',
        decreases s@.len() - k,
    {
        k = k + 1;
    }
    proof {
        lemma_first_idx(t, '\n');
        assert(first_idx(t, '\n') == k - i) by {
            assert(forall|j: int| 0 <= j < k - i ==> t[j] != '\n');
            if first_idx(t, '\n') < k - i {
                assert(t[first_idx(t, '\n')] == '\n');
            }
            if first_idx(t, '\n') > k - i {
                assert(k < s@.len());
                assert(t[k - i] == '\n');
            }
        }
    }
    if k < s.len() {
        let line_end = if k > i && s[k - 1] == '\r' {
            k - 1
        } else {
            k
        };
        let line = slice_subrange(s, i, line_end);
        let line_vec = crate::text::slice_to_vec_chars(line);
        let mut out: Vec<Vec<char>> = Vec::new();
        out.push(line_vec);
        let mut rest = split_exec(s, k + 1);
        proof {
            assert(line@ =~= strip_cr(t.subrange(0, k - i))) by {
                assert(t.subrange(0, k - i) =~= s@.subrange(i as int, k as int));
                if k > i && s@[k - 1] == '\r' {
                    assert(t.subrange(0, k - i).last() == '\r');
                    assert(t.subrange(0, k - i).drop_last() =~= s@.subrange(
                        i as int,
                        k - 1,
                    ));
                } else {
                    if t.subrange(0, k - i).len() > 0 && t.subrange(0, k - i).last() == '\r' {
                        assert(s@[k - 1] == '\r');
                    }
                }
            }
            assert(s@.skip(k + 1) =~= t.skip((k - i) + 1));
        }
        out.append(&mut rest);
        proof {
            assert(out.deep_view() =~~= seq![strip_cr(t.subrange(0, k - i))] + split_lines(
                t.skip((k - i) + 1),
            ));
        }
        out
    } else {
        let line = slice_subrange(s, i, s.len());
        let line_vec = crate::text::slice_to_vec_chars(line);
        let mut out: Vec<Vec<char>> = Vec::new();
        out.push(line_vec);
        proof {
            assert(line@ =~= t);
            assert(!t.contains('\n')) by {
                if t.contains('\n') {
                    let w = choose|w: int| 0 <= w < t.len() && t[w] == '\n';
                    assert(s@[i + w] == '\n');
                }
            }
            assert(out.deep_view() =~~= seq![t]);
        }
        out
    }
}

/// Tokenize an entire source text into its sequence of non-blank lines.
pub fn tokenize(source: &str) -> (r: Result<Vec<Line>, BuclError>)
    ensures
        r is Ok,
        match r {
            Ok(ls) => lines_view(ls@) == tokenize_spec(source@),
            Err(_) => false,
        },
{
    let chars = str_chars(source);
    proof {
        assert(chars@.skip(0) =~= chars@);
    }
    let raw_lines = split_exec(chars.as_slice(), 0);
    let ghost rls = raw_lines.deep_view();
    let mut out: Vec<Line> = Vec::new();
    let mut i: usize = 0;
    while i < raw_lines.len()
        invariant
            rls == split_lines(source@),
            rls == raw_lines.deep_view(),
            i <= raw_lines@.len(),
            raw_lines@.len() == rls.len(),
            lines_view(out@) == lines_spec(rls.subrange(0, i as int)),
        decreases raw_lines@.len() - i,
    {
        let line_str = string_of(raw_lines[i].as_slice());
        proof {
            assert(line_str@ == rls[i as int]);
            assert(rls.subrange(0, i + 1).drop_last() =~= rls.subrange(0, i as int));
            assert(rls.subrange(0, i + 1).last() == rls[i as int]);
        }
        match tokenize_line(line_str.as_str()) {
            Ok(Some(line)) => {
                out.push(line);
                proof {
                    assert(lines_view(out@) =~= lines_spec(rls.subrange(0, i + 1)));
                }
            },
            Ok(None) => {
                proof {
                    assert(lines_view(out@) =~= lines_spec(rls.subrange(0, i + 1)));
                }
            },
            Err(e) => {
                return Err(e);
            },
        }
        i = i + 1;
    }
    proof {
        assert(rls.subrange(0, rls.len() as int) =~= rls);
    }
    Ok(out)
}

} // verus!
