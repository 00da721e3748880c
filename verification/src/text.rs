//! Character-level text utilities shared by the tokenizer, the variable
//! store and the built-in operations: conversions between `String` and
//! `Vec<char>`, decimal parsing and formatting, and lexicographic comparison.

use vstd::prelude::*;
use vstd::slice::slice_subrange;
use vstd::string::StrSliceExecFns;

verus! {

// ---------------------------------------------------------------------------
// Character classes
// ---------------------------------------------------------------------------

/// The whitespace characters recognised between tokens and by trimming:
/// the Unicode white-space code points.
pub open spec fn is_space_char(c: char) -> bool {
    ||| 9 <= c as u32 <= 13
    ||| c as u32 == 32
    ||| c as u32 == 0x85
    ||| c as u32 == 0xA0
    ||| c as u32 == 0x1680
    ||| 0x2000 <= c as u32 <= 0x200A
    ||| c as u32 == 0x2028
    ||| c as u32 == 0x2029
    ||| c as u32 == 0x202F
    ||| c as u32 == 0x205F
    ||| c as u32 == 0x3000
}

pub fn space_char(c: char) -> (r: bool)
    ensures
        r == is_space_char(c),
{
    let u = c as u32;
    (9 <= u && u <= 13) || u == 32 || u == 0x85 || u == 0xA0 || u == 0x1680 || (0x2000 <= u && u
        <= 0x200A) || u == 0x2028 || u == 0x2029 || u == 0x202F || u == 0x205F || u == 0x3000
}

pub open spec fn is_digit_char(c: char) -> bool {
    48 <= c as u32 && c as u32 <= 57
}

pub fn digit_char_exec(c: char) -> (r: bool)
    ensures
        r == is_digit_char(c),
{
    let u = c as u32;
    48 <= u && u <= 57
}

/// The numeric value of a decimal digit character.
pub open spec fn digit_val(c: char) -> nat {
    (c as u32 - 48) as nat
}

/// The decimal digit character for a value below ten.
pub open spec fn digit_char(d: nat) -> char {
    if d == 0 {
        '0'
    } else if d == 1 {
        '1'
    } else if d == 2 {
        '2'
    } else if d == 3 {
        '3'
    } else if d == 4 {
        '4'
    } else if d == 5 {
        '5'
    } else if d == 6 {
        '6'
    } else if d == 7 {
        '7'
    } else if d == 8 {
        '8'
    } else {
        '9'
    }
}

fn digit_char_of(d: u64) -> (c: char)
    requires
        d < 10,
    ensures
        c == digit_char(d as nat),
{
    if d == 0 {
        '0'
    } else if d == 1 {
        '1'
    } else if d == 2 {
        '2'
    } else if d == 3 {
        '3'
    } else if d == 4 {
        '4'
    } else if d == 5 {
        '5'
    } else if d == 6 {
        '6'
    } else if d == 7 {
        '7'
    } else if d == 8 {
        '8'
    } else {
        '9'
    }
}

// ---------------------------------------------------------------------------
// Decimal digit strings
// ---------------------------------------------------------------------------

pub open spec fn all_digits(s: Seq<char>) -> bool {
    forall|i: int| 0 <= i < s.len() ==> is_digit_char(s[i])
}

/// A non-empty run of decimal digits.
pub open spec fn is_dec_digits(s: Seq<char>) -> bool {
    s.len() > 0 && all_digits(s)
}

/// The value of a digit string, most significant digit first.
pub open spec fn dec_val(s: Seq<char>) -> nat
    decreases s.len(),
{
    if s.len() == 0 {
        0
    } else {
        dec_val(s.drop_last()) * 10 + digit_val(s.last())
    }
}

/// The canonical decimal representation of a natural number (no leading
/// zeros, except for zero itself).
pub open spec fn dec_rep(n: nat) -> Seq<char>
    decreases n,
{
    if n < 10 {
        seq![digit_char(n)]
    } else {
        dec_rep(n / 10).push(digit_char(n % 10))
    }
}

/// The decimal representation of an integer: a minus sign for negative
/// values, then the magnitude.
pub open spec fn int_dec_rep(i: int) -> Seq<char> {
    if i < 0 {
        seq!['-'] + dec_rep((-i) as nat)
    } else {
        dec_rep(i as nat)
    }
}

/// What `usize` parsing accepts here: digits only, value in range.
pub open spec fn parses_as_usize(s: Seq<char>) -> bool {
    is_dec_digits(s) && dec_val(s) <= usize::MAX as nat
}

/// The canonical representation is made of digits.
pub proof fn lemma_dec_rep_digits(n: nat)
    ensures
        dec_rep(n).len() >= 1,
        all_digits(dec_rep(n)),
    decreases n,
{
    if n < 10 {
        assert(is_digit_char(digit_char(n)));
        assert(forall|i: int| 0 <= i < dec_rep(n).len() ==> dec_rep(n)[i] == digit_char(n));
    } else {
        lemma_dec_rep_digits(n / 10);
        assert(is_digit_char(digit_char(n % 10)));
        assert forall|i: int| 0 <= i < dec_rep(n).len() implies is_digit_char(dec_rep(n)[i]) by {
            if i < dec_rep(n / 10).len() {
                assert(dec_rep(n)[i] == dec_rep(n / 10)[i]);
            } else {
                assert(dec_rep(n)[i] == digit_char(n % 10));
            }
        }
    }
}

/// Reading the canonical representation back gives the number itself.
pub proof fn lemma_dec_val_dec_rep(n: nat)
    ensures
        dec_val(dec_rep(n)) == n,
    decreases n,
{
    if n < 10 {
        assert(dec_rep(n) == seq![digit_char(n)]);
        assert(seq![digit_char(n)].drop_last() =~= Seq::<char>::empty());
        assert(dec_val(Seq::<char>::empty()) == 0);
        assert(digit_val(digit_char(n)) == n);
    } else {
        lemma_dec_val_dec_rep(n / 10);
        assert(dec_rep(n) == dec_rep(n / 10).push(digit_char(n % 10)));
        assert(dec_rep(n / 10).push(digit_char(n % 10)).drop_last() =~= dec_rep(n / 10));
        assert(digit_val(digit_char(n % 10)) == n % 10);
    }
}

/// Extending a digit string can only grow its value.
pub proof fn lemma_dec_val_prefix(s: Seq<char>, i: int)
    requires
        0 <= i <= s.len(),
    ensures
        dec_val(s.subrange(0, i)) <= dec_val(s),
    decreases s.len() - i,
{
    if i < s.len() {
        lemma_dec_val_prefix(s, i + 1);
        assert(s.subrange(0, i + 1).drop_last() =~= s.subrange(0, i));
        assert(dec_val(s.subrange(0, i + 1)) == dec_val(s.subrange(0, i)) * 10 + digit_val(
            s.subrange(0, i + 1).last(),
        ));
    } else {
        assert(s.subrange(0, i) =~= s);
    }
}

/// Parse a run of decimal digits as a `usize`, exactly as `usize::from_str`
/// would accept it (ignoring an explicit leading sign).
pub fn parse_usize(s: &[char]) -> (r: Option<usize>)
    ensures
        match r {
            Some(v) => parses_as_usize(s@) && v as nat == dec_val(s@),
            None => !parses_as_usize(s@),
        },
{
    if s.len() == 0 {
        return None;
    }
    let mut acc: usize = 0;
    let mut i: usize = 0;
    while i < s.len()
        invariant
            i <= s@.len(),
            all_digits(s@.subrange(0, i as int)),
            acc as nat == dec_val(s@.subrange(0, i as int)),
        decreases s@.len() - i,
    {
        let c = s[i];
        if !digit_char_exec(c) {
            assert(!all_digits(s@));
            return None;
        }
        let d: usize = (c as u32 as usize) - 48;
        let step = match acc.checked_mul(10) {
            Some(m) => m.checked_add(d),
            None => None,
        };
        proof {
            assert(s@.subrange(0, i + 1).drop_last() =~= s@.subrange(0, i as int));
            assert(dec_val(s@.subrange(0, i + 1)) == acc * 10 + d);
        }
        match step {
            Some(v) => {
                acc = v;
            },
            None => {
                proof {
                    lemma_dec_val_prefix(s@, i + 1);
                }
                return None;
            },
        }
        i = i + 1;
    }
    proof {
        assert(s@.subrange(0, s@.len() as int) =~= s@);
    }
    Some(acc)
}

/// The decimal digits of a `u64`, most significant first.
pub fn u64_to_dec(n: u64) -> (v: Vec<char>)
    ensures
        v@ == dec_rep(n as nat),
{
    let mut rev: Vec<char> = Vec::new();
    let mut m: u64 = n;
    while m >= 10
        invariant
            dec_rep(n as nat) == dec_rep(m as nat) + rev@.reverse(),
        decreases m,
    {
        let d = m % 10;
        proof {
            let r2 = rev@.push(digit_char(d as nat));
            assert(r2.reverse() =~= seq![digit_char(d as nat)] + rev@.reverse());
            assert(dec_rep(m as nat) == dec_rep((m as nat) / 10).push(digit_char((m as nat) % 10)));
            assert(dec_rep((m as nat) / 10) + r2.reverse() =~= dec_rep(m as nat) + rev@.reverse());
        }
        rev.push(digit_char_of(d));
        m = m / 10;
    }
    let mut out: Vec<char> = Vec::new();
    out.push(digit_char_of(m));
    let mut j: usize = rev.len();
    proof {
        assert(out@ + rev@.subrange(0, j as int).reverse() =~= dec_rep(m as nat) + rev@.reverse());
    }
    while j > 0
        invariant
            j <= rev@.len(),
            out@ + rev@.subrange(0, j as int).reverse() == dec_rep(n as nat),
        decreases j,
    {
        proof {
            let pre = rev@.subrange(0, j as int);
            assert(pre.reverse() =~= seq![rev@[j - 1]] + rev@.subrange(0, j - 1).reverse());
            assert(out@.push(rev@[j - 1]) + rev@.subrange(0, j - 1).reverse() =~= out@
                + pre.reverse());
        }
        let c = rev[j - 1];
        out.push(c);
        j = j - 1;
    }
    proof {
        assert(rev@.subrange(0, 0).reverse() =~= Seq::<char>::empty());
        assert(out@ + rev@.subrange(0, 0).reverse() =~= out@);
    }
    out
}

pub fn usize_to_dec(n: usize) -> (v: Vec<char>)
    ensures
        v@ == dec_rep(n as nat),
{
    u64_to_dec(n as u64)
}

/// The decimal digits of an `i64`, with a leading minus sign when negative.
pub fn i64_to_dec(n: i64) -> (v: Vec<char>)
    ensures
        v@ == int_dec_rep(n as int),
{
    if n >= 0 {
        u64_to_dec(n as u64)
    } else {
        let mag: u64 = if n == i64::MIN {
            9223372036854775808u64
        } else {
            (-n) as u64
        };
        let digits = u64_to_dec(mag);
        let mut out: Vec<char> = Vec::new();
        out.push('-');
        let mut i: usize = 0;
        while i < digits.len()
            invariant
                i <= digits@.len(),
                out@ == seq!['-'] + digits@.subrange(0, i as int),
            decreases digits@.len() - i,
        {
            proof {
                assert(out@.push(digits@[i as int]) =~= seq!['-'] + digits@.subrange(0, i + 1));
            }
            let c = digits[i];
            out.push(c);
            i = i + 1;
        }
        proof {
            assert(digits@.subrange(0, digits@.len() as int) =~= digits@);
        }
        out
    }
}

// ---------------------------------------------------------------------------
// Decimal magnitude comparison
// ---------------------------------------------------------------------------

pub open spec fn pow10(k: nat) -> nat
    decreases k,
{
    if k == 0 {
        1
    } else {
        10 * pow10((k - 1) as nat)
    }
}

pub proof fn lemma_pow10_pos(k: nat)
    ensures
        pow10(k) >= 1,
    decreases k,
{
    if k > 0 {
        lemma_pow10_pos((k - 1) as nat);
    }
}

pub proof fn lemma_pow10_mono(a: nat, b: nat)
    requires
        a <= b,
    ensures
        pow10(a) <= pow10(b),
    decreases b,
{
    if a < b {
        lemma_pow10_mono(a, (b - 1) as nat);
        lemma_pow10_pos((b - 1) as nat);
    }
}

pub proof fn lemma_dec_val_single(c: char)
    ensures
        dec_val(seq![c]) == digit_val(c),
{
    assert(seq![c].drop_last() =~= Seq::<char>::empty());
    assert(dec_val(Seq::<char>::empty()) == 0);
    assert(seq![c].last() == c);
}

/// A digit string's value stays below ten to its length.
pub proof fn lemma_dec_val_upper(s: Seq<char>)
    requires
        all_digits(s),
    ensures
        dec_val(s) < pow10(s.len()),
    decreases s.len(),
{
    if s.len() > 0 {
        assert(all_digits(s.drop_last())) by {
            assert(forall|i: int| 0 <= i < s.drop_last().len() ==> s.drop_last()[i] == s[i]);
        }
        lemma_dec_val_upper(s.drop_last());
        assert(is_digit_char(s.last())) by {
            assert(s[s.len() - 1] == s.last());
        }
        assert(digit_val(s.last()) <= 9);
        assert(dec_val(s.drop_last()) * 10 + 9 < pow10(s.len())) by (nonlinear_arith)
            requires
                dec_val(s.drop_last()) < pow10((s.len() - 1) as nat),
                pow10(s.len()) == 10 * pow10((s.len() - 1) as nat),
        {
        }
    }
}

/// Splitting a digit string splits its value by a power of ten.
pub proof fn lemma_dec_val_concat(a: Seq<char>, b: Seq<char>)
    ensures
        dec_val(a + b) == dec_val(a) * pow10(b.len()) + dec_val(b),
    decreases b.len(),
{
    if b.len() == 0 {
        assert(a + b =~= a);
        assert(pow10(0) == 1);
        assert(dec_val(b) == 0);
    } else {
        assert((a + b).drop_last() =~= a + b.drop_last());
        assert((a + b).last() == b.last());
        lemma_dec_val_concat(a, b.drop_last());
        let x = dec_val(a);
        let p = pow10((b.len() - 1) as nat);
        let y = dec_val(b.drop_last());
        let d = digit_val(b.last());
        assert(dec_val(a + b) == (x * p + y) * 10 + d);
        assert(dec_val(b) == y * 10 + d);
        assert(pow10(b.len()) == 10 * p);
        assert(dec_val(a + b) == x * pow10(b.len()) + dec_val(b)) by (nonlinear_arith)
            requires
                dec_val(a + b) == (x * p + y) * 10 + d,
                dec_val(b) == y * 10 + d,
                pow10(b.len()) == 10 * p,
        {
        }
    }
}

/// The value of an all-zero digit string is zero.
pub proof fn lemma_dec_val_zeros(s: Seq<char>)
    requires
        forall|i: int| 0 <= i < s.len() ==> s[i] == '0',
    ensures
        dec_val(s) == 0,
    decreases s.len(),
{
    if s.len() > 0 {
        assert(s.last() == '0') by {
            assert(s[s.len() - 1] == '0');
        }
        lemma_dec_val_zeros(s.drop_last());
    }
}

/// Dropping leading zeros keeps the value.
pub proof fn lemma_dec_val_strip(s: Seq<char>, k: int)
    requires
        0 <= k <= s.len(),
        forall|i: int| 0 <= i < k ==> s[i] == '0',
    ensures
        dec_val(s) == dec_val(s.skip(k)),
{
    assert(s =~= s.subrange(0, k) + s.skip(k));
    lemma_dec_val_concat(s.subrange(0, k), s.skip(k));
    lemma_dec_val_zeros(s.subrange(0, k));
}

/// A digit string without a leading zero reaches ten to one less than its
/// length.
pub proof fn lemma_dec_val_lower(s: Seq<char>)
    requires
        all_digits(s),
        s.len() > 0,
        s[0] != '0',
    ensures
        dec_val(s) >= pow10((s.len() - 1) as nat),
{
    assert(s =~= seq![s[0]] + s.skip(1));
    lemma_dec_val_concat(seq![s[0]], s.skip(1));
    lemma_dec_val_single(s[0]);
    assert(is_digit_char(s[0]));
    assert(digit_val(s[0]) >= 1) by {
        if s[0] as u32 == 48 {
            vstd::utf8::char_u32_cast(s[0], 48u32);
            vstd::utf8::char_u32_cast('0', 48u32);
            assert(s[0] == '0');
        }
    }
    let p = pow10((s.len() - 1) as nat);
    assert(digit_val(s[0]) * p >= p) by (nonlinear_arith)
        requires
            digit_val(s[0]) >= 1,
            p >= 0,
    {
    }
}

/// Equal-length digit strings compare by their first differing digit.
pub proof fn lemma_dec_val_lex(a: Seq<char>, b: Seq<char>, k: int)
    requires
        all_digits(a),
        all_digits(b),
        a.len() == b.len(),
        0 <= k < a.len(),
        a.subrange(0, k) == b.subrange(0, k),
        (a[k] as u32) < (b[k] as u32),
    ensures
        dec_val(a) < dec_val(b),
{
    let n = a.len() as int;
    assert(a =~= a.subrange(0, k) + a.skip(k));
    assert(b =~= b.subrange(0, k) + b.skip(k));
    assert(all_digits(a.skip(k)) && all_digits(b.skip(k))) by {
        assert(forall|i: int| 0 <= i < a.skip(k).len() ==> a.skip(k)[i] == a[k + i]);
        assert(forall|i: int| 0 <= i < b.skip(k).len() ==> b.skip(k)[i] == b[k + i]);
    }
    lemma_dec_val_concat(a.subrange(0, k), a.skip(k));
    lemma_dec_val_concat(b.subrange(0, k), b.skip(k));
    // Compare the suffixes: the leading digits differ.
    let ta = a.skip(k);
    let tb = b.skip(k);
    assert(ta =~= seq![ta[0]] + ta.skip(1));
    assert(tb =~= seq![tb[0]] + tb.skip(1));
    lemma_dec_val_concat(seq![ta[0]], ta.skip(1));
    lemma_dec_val_concat(seq![tb[0]], tb.skip(1));
    lemma_dec_val_single(ta[0]);
    lemma_dec_val_single(tb[0]);
    assert(all_digits(ta.skip(1))) by {
        assert(forall|i: int| 0 <= i < ta.skip(1).len() ==> ta.skip(1)[i] == ta[1 + i]);
    }
    lemma_dec_val_upper(ta.skip(1));
    let p = pow10((ta.len() - 1) as nat);
    assert(ta[0] == a[k] && tb[0] == b[k]);
    assert(digit_val(ta[0]) + 1 <= digit_val(tb[0]));
    assert(dec_val(ta) < dec_val(tb)) by (nonlinear_arith)
        requires
            dec_val(ta) == digit_val(ta[0]) * p + dec_val(ta.skip(1)),
            dec_val(tb) == digit_val(tb[0]) * p + dec_val(tb.skip(1)),
            dec_val(ta.skip(1)) < p,
            digit_val(ta[0]) + 1 <= digit_val(tb[0]),
            dec_val(tb.skip(1)) >= 0,
    {
    }
    let q = pow10(ta.len());
    assert(dec_val(a.subrange(0, k)) * q + dec_val(ta) < dec_val(b.subrange(0, k)) * q + dec_val(
        tb,
    )) by (nonlinear_arith)
        requires
            dec_val(ta) < dec_val(tb),
            dec_val(a.subrange(0, k)) == dec_val(b.subrange(0, k)),
    {
    }
}

/// Compare two digit strings by numeric value: 1, 0 or -1 as the first is
/// greater, equal, or smaller.
pub fn cmp_dec_digits(a: &[char], b: &[char]) -> (r: i32)
    requires
        all_digits(a@),
        all_digits(b@),
    ensures
        (r == 1) == (dec_val(a@) > dec_val(b@)),
        (r == 0) == (dec_val(a@) == dec_val(b@)),
        (r == -1) == (dec_val(a@) < dec_val(b@)),
{
    let na = a.len();
    let nb = b.len();
    let mut ai: usize = 0;
    while ai < na && a[ai] == '0'
        invariant
            na == a@.len(),
            ai <= na,
            forall|i: int| 0 <= i < ai ==> a@[i] == '0',
        decreases na - ai,
    {
        ai = ai + 1;
    }
    let mut bi: usize = 0;
    while bi < nb && b[bi] == '0'
        invariant
            nb == b@.len(),
            bi <= nb,
            forall|i: int| 0 <= i < bi ==> b@[i] == '0',
        decreases nb - bi,
    {
        bi = bi + 1;
    }
    proof {
        lemma_dec_val_strip(a@, ai as int);
        lemma_dec_val_strip(b@, bi as int);
        assert(all_digits(a@.skip(ai as int))) by {
            assert(forall|i: int|
                0 <= i < a@.skip(ai as int).len() ==> a@.skip(ai as int)[i] == a@[ai + i]);
        }
        assert(all_digits(b@.skip(bi as int))) by {
            assert(forall|i: int|
                0 <= i < b@.skip(bi as int).len() ==> b@.skip(bi as int)[i] == b@[bi + i]);
        }
    }
    let ea = slice_subrange(a, ai, na);
    let eb = slice_subrange(b, bi, nb);
    let la = ea.len();
    let lb = eb.len();
    if la == 0 && lb == 0 {
        proof {
            lemma_dec_val_zeros(ea@);
            lemma_dec_val_zeros(eb@);
        }
        return 0;
    }
    if la == 0 {
        // b has a nonzero leading digit.
        proof {
            lemma_dec_val_zeros(ea@);
            lemma_dec_val_lower(eb@);
            lemma_pow10_pos((eb@.len() - 1) as nat);
        }
        return -1;
    }
    if lb == 0 {
        proof {
            lemma_dec_val_zeros(eb@);
            lemma_dec_val_lower(ea@);
            lemma_pow10_pos((ea@.len() - 1) as nat);
        }
        return 1;
    }
    if la < lb {
        proof {
            lemma_dec_val_upper(ea@);
            lemma_dec_val_lower(eb@);
            lemma_pow10_mono(ea@.len(), (eb@.len() - 1) as nat);
        }
        return -1;
    }
    if la > lb {
        proof {
            lemma_dec_val_upper(eb@);
            lemma_dec_val_lower(ea@);
            lemma_pow10_mono(eb@.len(), (ea@.len() - 1) as nat);
        }
        return 1;
    }
    let mut k: usize = 0;
    while k < la
        invariant
            la == ea@.len(),
            la == eb@.len(),
            k <= la,
            all_digits(ea@),
            all_digits(eb@),
            dec_val(a@) == dec_val(ea@),
            dec_val(b@) == dec_val(eb@),
            ea@.subrange(0, k as int) == eb@.subrange(0, k as int),
        decreases la - k,
    {
        let ca = ea[k];
        let cb = eb[k];
        if (ca as u32) < (cb as u32) {
            proof {
                lemma_dec_val_lex(ea@, eb@, k as int);
            }
            return -1;
        }
        if (ca as u32) > (cb as u32) {
            proof {
                lemma_dec_val_lex(eb@, ea@, k as int);
            }
            return 1;
        }
        proof {
            assert(ca == cb) by {
                vstd::utf8::char_u32_cast(ca, ca as u32);
                vstd::utf8::char_u32_cast(cb, cb as u32);
            }
            assert(ea@.subrange(0, k + 1) =~= eb@.subrange(0, k + 1));
        }
        k = k + 1;
    }
    proof {
        assert(ea@.subrange(0, ea@.len() as int) =~= ea@);
        assert(eb@.subrange(0, eb@.len() as int) =~= eb@);
        assert(ea@ == eb@);
    }
    0
}

// ---------------------------------------------------------------------------
// Decimal literals (sign, integer part, fraction)
// ---------------------------------------------------------------------------

/// The digits of a decimal literal after its optional sign.
pub open spec fn dec_lit_body(s: Seq<char>) -> Seq<char> {
    if s.len() > 0 && (s[0] == '-' || s[0] == '+') {
        s.drop_first()
    } else {
        s
    }
}

/// Whether a string is a plain decimal literal: an optional sign, then
/// digits with at most one point and at least one digit.
pub open spec fn dec_lit_ok(s: Seq<char>) -> bool {
    let t = dec_lit_body(s);
    let di = first_idx(t, '.');
    if di == t.len() {
        is_dec_digits(t)
    } else {
        &&& all_digits(t.subrange(0, di))
        &&& all_digits(t.skip(di + 1))
        &&& t.len() > 1
    }
}

pub open spec fn dec_lit_neg(s: Seq<char>) -> bool {
    s.len() > 0 && s[0] == '-'
}

/// The integer-part digits of a decimal literal.
pub open spec fn dec_lit_int(s: Seq<char>) -> Seq<char> {
    let t = dec_lit_body(s);
    t.subrange(0, first_idx(t, '.'))
}

/// The fraction digits of a decimal literal, empty when it has no point.
pub open spec fn dec_lit_frac(s: Seq<char>) -> Seq<char> {
    let t = dec_lit_body(s);
    let di = first_idx(t, '.');
    if di == t.len() {
        Seq::empty()
    } else {
        t.skip(di + 1)
    }
}

pub open spec fn zero_chars(k: nat) -> Seq<char> {
    Seq::new(k, |i: int| '0')
}

/// The magnitude digits of a decimal literal scaled to `frac_len` fraction
/// digits: integer part, fraction, trailing zeros.
pub open spec fn dec_lit_scaled(s: Seq<char>, frac_len: nat) -> Seq<char> {
    dec_lit_int(s) + dec_lit_frac(s) + zero_chars((frac_len - dec_lit_frac(s).len()) as nat)
}

/// Numeric order of two decimal literals: 1, 0 or -1 as the first is
/// greater, equal or smaller; a negative zero equals zero.
pub open spec fn num_cmp(a: Seq<char>, b: Seq<char>) -> int {
    let fl = if dec_lit_frac(a).len() >= dec_lit_frac(b).len() {
        dec_lit_frac(a).len()
    } else {
        dec_lit_frac(b).len()
    };
    let va = dec_val(dec_lit_scaled(a, fl));
    let vb = dec_val(dec_lit_scaled(b, fl));
    let na = dec_lit_neg(a) && va != 0;
    let nb = dec_lit_neg(b) && vb != 0;
    if na && !nb {
        -1
    } else if !na && nb {
        1
    } else if na && nb {
        if va < vb {
            1
        } else if va > vb {
            -1
        } else {
            0
        }
    } else {
        if va < vb {
            -1
        } else if va > vb {
            1
        } else {
            0
        }
    }
}

/// The integer a signed digit string denotes.
pub open spec fn i64_lit_val(s: Seq<char>) -> int {
    if dec_lit_neg(s) {
        -(dec_val(dec_lit_body(s)) as int)
    } else {
        dec_val(dec_lit_body(s)) as int
    }
}

/// What `i64::from_str` accepts: an optional sign, digits, value in range.
pub open spec fn parses_as_i64(s: Seq<char>) -> bool {
    is_dec_digits(dec_lit_body(s)) && i64::MIN <= i64_lit_val(s) <= i64::MAX
}

/// Parse a signed decimal integer exactly as `i64::from_str` accepts it.
pub fn parse_i64(s: &[char]) -> (r: Option<i64>)
    ensures
        match r {
            Some(v) => parses_as_i64(s@) && v as int == i64_lit_val(s@),
            None => !parses_as_i64(s@),
        },
{
    let n = s.len();
    let start: usize = if n > 0 && (s[0] == '-' || s[0] == '+') {
        1
    } else {
        0
    };
    let neg = n > 0 && s[0] == '-';
    let body = slice_subrange(s, start, n);
    proof {
        assert(body@ =~= dec_lit_body(s@));
    }
    if body.len() == 0 {
        return None;
    }
    let bound: u64 = if neg {
        9223372036854775808u64
    } else {
        9223372036854775807u64
    };
    let mut acc: u64 = 0;
    let mut i: usize = 0;
    let bn = body.len();
    while i < bn
        invariant
            bn == body@.len(),
            bn > 0,
            i <= bn,
            body@ == dec_lit_body(s@),
            neg == dec_lit_neg(s@),
            all_digits(body@.subrange(0, i as int)),
            acc as nat == dec_val(body@.subrange(0, i as int)),
            acc <= bound,
            bound == if neg {
                9223372036854775808u64
            } else {
                9223372036854775807u64
            },
        decreases bn - i,
    {
        let c = body[i];
        if !digit_char_exec(c) {
            assert(!all_digits(body@));
            return None;
        }
        let d: u64 = (c as u32 as u64) - 48;
        let step = match acc.checked_mul(10) {
            Some(m) => m.checked_add(d),
            None => None,
        };
        proof {
            assert(body@.subrange(0, i + 1).drop_last() =~= body@.subrange(0, i as int));
            assert(dec_val(body@.subrange(0, i + 1)) == acc * 10 + d);
        }
        match step {
            Some(v) => {
                if v > bound {
                    proof {
                        lemma_dec_val_prefix(body@, i + 1);
                    }
                    return None;
                }
                acc = v;
            },
            None => {
                proof {
                    lemma_dec_val_prefix(body@, i + 1);
                }
                return None;
            },
        }
        i = i + 1;
    }
    proof {
        assert(body@.subrange(0, bn as int) =~= body@);
    }
    if neg {
        if acc == 9223372036854775808u64 {
            Some(i64::MIN)
        } else {
            Some(-(acc as i64))
        }
    } else {
        Some(acc as i64)
    }
}

/// Parse a decimal literal into (negative, integer digits, fraction digits).
pub fn parse_dec(s: &[char]) -> (r: Option<(bool, Vec<char>, Vec<char>)>)
    ensures
        match r {
            Some(p) => dec_lit_ok(s@) && p.0 == dec_lit_neg(s@) && p.1@ == dec_lit_int(s@) && p.2@
                == dec_lit_frac(s@),
            None => !dec_lit_ok(s@),
        },
{
    let n = s.len();
    let start: usize = if n > 0 && (s[0] == '-' || s[0] == '+') {
        1
    } else {
        0
    };
    let neg = n > 0 && s[0] == '-';
    let body = slice_subrange(s, start, n);
    proof {
        assert(body@ =~= dec_lit_body(s@));
        lemma_first_idx(body@, '.');
    }
    match find_char(body, '.') {
        None => {
            match parse_digits_only(body) {
                Some(digits) => {
                    proof {
                        assert(dec_lit_int(s@) =~= body@);
                    }
                    Some((neg, digits, Vec::new()))
                },
                None => None,
            }
        },
        Some(di) => {
            if body.len() <= 1 {
                // Just ".": no digit anywhere.
                return None;
            }
            let int_part = slice_subrange(body, 0, di);
            let frac_part = slice_subrange(body, di + 1, body.len());
            let ip = match parse_digits_maybe_empty(int_part) {
                Some(v) => v,
                None => {
                    return None;
                },
            };
            let fp = match parse_digits_maybe_empty(frac_part) {
                Some(v) => v,
                None => {
                    return None;
                },
            };
            Some((neg, ip, fp))
        },
    }
}

/// Copy a slice of digits, or nothing when it is empty or holds a non-digit.
fn parse_digits_maybe_empty(s: &[char]) -> (r: Option<Vec<char>>)
    ensures
        match r {
            Some(v) => all_digits(s@) && v@ == s@,
            None => !all_digits(s@),
        },
{
    let mut i: usize = 0;
    let n = s.len();
    while i < n
        invariant
            n == s@.len(),
            i <= n,
            forall|j: int| 0 <= j < i ==> is_digit_char(s@[j]),
        decreases n - i,
    {
        if !digit_char_exec(s[i]) {
            return None;
        }
        i = i + 1;
    }
    Some(slice_to_vec_chars(s))
}

/// Copy a non-empty slice of digits.
fn parse_digits_only(s: &[char]) -> (r: Option<Vec<char>>)
    ensures
        match r {
            Some(v) => is_dec_digits(s@) && v@ == s@,
            None => !is_dec_digits(s@),
        },
{
    if s.len() == 0 {
        return None;
    }
    parse_digits_maybe_empty(s)
}

/// Compare two decimal literals already split into parts.
pub fn cmp_parsed_dec(
    a: (bool, Vec<char>, Vec<char>),
    b: (bool, Vec<char>, Vec<char>),
    Ghost(sa): Ghost<Seq<char>>,
    Ghost(sb): Ghost<Seq<char>>,
) -> (r: i32)
    requires
        dec_lit_ok(sa),
        dec_lit_ok(sb),
        a.0 == dec_lit_neg(sa),
        a.1@ == dec_lit_int(sa),
        a.2@ == dec_lit_frac(sa),
        b.0 == dec_lit_neg(sb),
        b.1@ == dec_lit_int(sb),
        b.2@ == dec_lit_frac(sb),
    ensures
        r as int == num_cmp(sa, sb),
        -1 <= r <= 1,
{
    let fl = if a.2.len() >= b.2.len() {
        a.2.len()
    } else {
        b.2.len()
    };
    let mut da: Vec<char> = Vec::new();
    da.append(&mut slice_to_vec_chars(a.1.as_slice()));
    da.append(&mut slice_to_vec_chars(a.2.as_slice()));
    let mut pad_a: usize = fl - a.2.len();
    while pad_a > 0
        invariant
            da@ == dec_lit_int(sa) + dec_lit_frac(sa) + zero_chars(
                (fl - a.2@.len() - pad_a) as nat,
            ),
            pad_a <= fl - a.2@.len(),
        decreases pad_a,
    {
        da.push('0');
        proof {
            assert(da@ =~= dec_lit_int(sa) + dec_lit_frac(sa) + zero_chars(
                (fl - a.2@.len() - (pad_a - 1)) as nat,
            ));
        }
        pad_a = pad_a - 1;
    }
    let mut db: Vec<char> = Vec::new();
    db.append(&mut slice_to_vec_chars(b.1.as_slice()));
    db.append(&mut slice_to_vec_chars(b.2.as_slice()));
    let mut pad_b: usize = fl - b.2.len();
    while pad_b > 0
        invariant
            db@ == dec_lit_int(sb) + dec_lit_frac(sb) + zero_chars(
                (fl - b.2@.len() - pad_b) as nat,
            ),
            pad_b <= fl - b.2@.len(),
        decreases pad_b,
    {
        db.push('0');
        proof {
            assert(db@ =~= dec_lit_int(sb) + dec_lit_frac(sb) + zero_chars(
                (fl - b.2@.len() - (pad_b - 1)) as nat,
            ));
        }
        pad_b = pad_b - 1;
    }
    proof {
        assert(zero_chars(0) =~= Seq::<char>::empty());
        assert(dec_lit_int(sa) + dec_lit_frac(sa) + zero_chars(0) =~= dec_lit_int(sa)
            + dec_lit_frac(sa));
        assert(zero_chars(0) =~= Seq::<char>::empty());
        assert(da@ == dec_lit_scaled(sa, fl as nat));
        assert(db@ == dec_lit_scaled(sb, fl as nat));
        lemma_dec_lit_scaled_digits(sa, fl as nat);
        lemma_dec_lit_scaled_digits(sb, fl as nat);
    }
    let mag = cmp_dec_digits(da.as_slice(), db.as_slice());
    let empty: Vec<char> = Vec::new();
    let za = cmp_dec_digits(da.as_slice(), empty.as_slice());
    let zb = cmp_dec_digits(db.as_slice(), empty.as_slice());
    let na = a.0 && za != 0;
    let nb = b.0 && zb != 0;
    if na && !nb {
        -1
    } else if !na && nb {
        1
    } else if na && nb {
        if mag < 0 {
            1
        } else if mag > 0 {
            -1
        } else {
            0
        }
    } else {
        mag
    }
}

/// The scaled magnitude of a valid decimal literal is all digits.
pub proof fn lemma_dec_lit_scaled_digits(s: Seq<char>, fl: nat)
    requires
        dec_lit_ok(s),
        fl >= dec_lit_frac(s).len(),
    ensures
        all_digits(dec_lit_scaled(s, fl)),
{
    let t = dec_lit_body(s);
    lemma_first_idx(t, '.');
    let sc = dec_lit_scaled(s, fl);
    assert forall|i: int| 0 <= i < sc.len() implies is_digit_char(sc[i]) by {
        let ip = dec_lit_int(s);
        let fp = dec_lit_frac(s);
        if i < ip.len() {
            assert(sc[i] == ip[i]);
        } else if i < ip.len() + fp.len() {
            assert(sc[i] == fp[i - ip.len()]);
        } else {
            assert(sc[i] == '0');
        }
    }
}

// ---------------------------------------------------------------------------
// String <-> character vector conversions
// ---------------------------------------------------------------------------

/// The characters of a string slice, in order.
pub fn str_chars(s: &str) -> (v: Vec<char>)
    ensures
        v@ == s@,
{
    let n = s.unicode_len();
    let mut v: Vec<char> = Vec::new();
    let mut i: usize = 0;
    while i < n
        invariant
            n == s@.len(),
            i <= n,
            v@ == s@.subrange(0, i as int),
        decreases n - i,
    {
        proof {
            assert(v@.push(s@[i as int]) =~= s@.subrange(0, i + 1));
        }
        let c = s.get_char(i);
        v.push(c);
        i = i + 1;
    }
    proof {
        assert(s@.subrange(0, s@.len() as int) =~= s@);
    }
    v
}

/// Relies on `String::push` from std: appends one character to the string.
#[verifier::external_body]
pub fn push_char(s: &mut String, c: char)
    ensures
        final(s)@ == old(s)@.push(c),
{
    s.push(c);
}

/// Build a `String` from a character slice.
pub fn string_of(v: &[char]) -> (s: String)
    ensures
        s@ == v@,
{
    let mut s = String::new();
    let mut i: usize = 0;
    while i < v.len()
        invariant
            i <= v@.len(),
            s@ == v@.subrange(0, i as int),
        decreases v@.len() - i,
    {
        proof {
            assert(s@.push(v@[i as int]) =~= v@.subrange(0, i + 1));
        }
        push_char(&mut s, v[i]);
        i = i + 1;
    }
    proof {
        assert(v@.subrange(0, v@.len() as int) =~= v@);
    }
    s
}

// ---------------------------------------------------------------------------
// Equality and lexicographic comparison
// ---------------------------------------------------------------------------

/// Character-for-character equality of two slices.
pub fn chars_eq(a: &[char], b: &[char]) -> (r: bool)
    ensures
        r == (a@ == b@),
{
    if a.len() != b.len() {
        return false;
    }
    let mut i: usize = 0;
    while i < a.len()
        invariant
            a@.len() == b@.len(),
            i <= a@.len(),
            forall|j: int| 0 <= j < i ==> a@[j] == b@[j],
        decreases a@.len() - i,
    {
        if a[i] != b[i] {
            return false;
        }
        i = i + 1;
    }
    proof {
        assert(a@ =~= b@);
    }
    true
}

/// Character-for-character equality of two string slices.
pub fn str_eq(a: &str, b: &str) -> (r: bool)
    ensures
        r == (a@ == b@),
{
    let na = a.unicode_len();
    let nb = b.unicode_len();
    if na != nb {
        return false;
    }
    let mut i: usize = 0;
    while i < na
        invariant
            na == a@.len(),
            na == b@.len(),
            i <= na,
            forall|j: int| 0 <= j < i ==> a@[j] == b@[j],
        decreases na - i,
    {
        if a.get_char(i) != b.get_char(i) {
            return false;
        }
        i = i + 1;
    }
    proof {
        assert(a@ =~= b@);
    }
    true
}

/// Strict lexicographic order on character sequences, by code point. This is
/// the order `str` comparison uses, since UTF-8 byte order agrees with code
/// point order.
pub open spec fn lex_lt(a: Seq<char>, b: Seq<char>) -> bool
    decreases a.len(),
{
    if b.len() == 0 {
        false
    } else if a.len() == 0 {
        true
    } else if a[0] != b[0] {
        (a[0] as u32) < (b[0] as u32)
    } else {
        lex_lt(a.drop_first(), b.drop_first())
    }
}

/// Lexicographic order is total: two sequences compare one way, the other,
/// or are equal.
pub proof fn lemma_lex_trichotomy(a: Seq<char>, b: Seq<char>)
    ensures
        lex_lt(a, b) || lex_lt(b, a) || a == b,
    decreases a.len(),
{
    if a.len() > 0 && b.len() > 0 && a[0] == b[0] {
        lemma_lex_trichotomy(a.drop_first(), b.drop_first());
        if a.drop_first() == b.drop_first() {
            assert forall|i: int| 0 <= i < a.len() implies a[i] == b[i] by {
                if i > 0 {
                    assert(a.drop_first()[i - 1] == b.drop_first()[i - 1]);
                }
            }
            assert(a =~= b);
        }
    } else if a.len() > 0 && b.len() > 0 && a[0] != b[0] {
        vstd::utf8::char_u32_cast(a[0], a[0] as u32);
        vstd::utf8::char_u32_cast(b[0], b[0] as u32);
    } else if a.len() == 0 && b.len() == 0 {
        assert(a =~= b);
    }
}

/// Lexicographic order is transitive.
pub proof fn lemma_lex_trans(a: Seq<char>, b: Seq<char>, c: Seq<char>)
    requires
        lex_lt(a, b),
        lex_lt(b, c),
    ensures
        lex_lt(a, c),
    decreases a.len(),
{
    if a.len() > 0 && b.len() > 0 && c.len() > 0 {
        if a[0] == b[0] && b[0] == c[0] {
            lemma_lex_trans(a.drop_first(), b.drop_first(), c.drop_first());
        }
    }
}

pub fn lex_lt_exec(a: &[char], b: &[char]) -> (r: bool)
    ensures
        r == lex_lt(a@, b@),
{
    let mut i: usize = 0;
    proof {
        assert(a@.skip(0) =~= a@);
        assert(b@.skip(0) =~= b@);
    }
    while i < a.len() && i < b.len()
        invariant
            i <= a@.len(),
            i <= b@.len(),
            forall|j: int| 0 <= j < i ==> a@[j] == b@[j],
            lex_lt(a@, b@) == lex_lt(a@.skip(i as int), b@.skip(i as int)),
        decreases a@.len() - i,
    {
        let ca = a[i];
        let cb = b[i];
        if ca != cb {
            proof {
                assert(a@.skip(i as int)[0] == ca);
                assert(b@.skip(i as int)[0] == cb);
            }
            return (ca as u32) < (cb as u32);
        }
        proof {
            assert(a@.skip(i as int).drop_first() =~= a@.skip(i + 1));
            assert(b@.skip(i as int).drop_first() =~= b@.skip(i + 1));
            assert(a@.skip(i as int)[0] == ca && b@.skip(i as int)[0] == cb);
        }
        i = i + 1;
    }
    proof {
        if i >= b@.len() {
            assert(b@.skip(i as int).len() == 0);
        } else {
            assert(a@.skip(i as int).len() == 0);
            assert(b@.skip(i as int).len() > 0);
        }
    }
    i < b.len()
}

// ---------------------------------------------------------------------------
// Searching
// ---------------------------------------------------------------------------

/// Whether a character occurs in a slice.
pub fn contains_char(s: &[char], c: char) -> (r: bool)
    ensures
        r == s@.contains(c),
{
    let mut i: usize = 0;
    while i < s.len()
        invariant
            i <= s@.len(),
            forall|j: int| 0 <= j < i ==> s@[j] != c,
        decreases s@.len() - i,
    {
        if s[i] == c {
            return true;
        }
        i = i + 1;
    }
    false
}

/// The index of the first occurrence of `c`, or the length when absent.
pub open spec fn first_idx(s: Seq<char>, c: char) -> int
    decreases s.len(),
{
    if s.len() == 0 {
        0
    } else if s[0] == c {
        0
    } else {
        1 + first_idx(s.drop_first(), c)
    }
}

pub proof fn lemma_first_idx(s: Seq<char>, c: char)
    ensures
        0 <= first_idx(s, c) <= s.len(),
        first_idx(s, c) < s.len() ==> s[first_idx(s, c)] == c,
        forall|j: int| 0 <= j < first_idx(s, c) ==> s[j] != c,
        (first_idx(s, c) < s.len()) == s.contains(c),
    decreases s.len(),
{
    if s.len() > 0 && s[0] != c {
        lemma_first_idx(s.drop_first(), c);
        assert forall|j: int| 0 <= j < first_idx(s, c) implies s[j] != c by {
            if j > 0 {
                assert(s.drop_first()[j - 1] != c);
            }
        }
        if first_idx(s.drop_first(), c) < s.drop_first().len() {
            assert(s.contains(c)) by {
                assert(s[first_idx(s, c)] == c);
            }
        } else {
            if s.contains(c) {
                let w = choose|w: int| 0 <= w < s.len() && s[w] == c;
                assert(s.drop_first()[w - 1] == c);
                assert(s.drop_first().contains(c));
            }
        }
    } else if s.len() > 0 {
        assert(s.contains(c)) by {
            assert(s[0] == c);
        }
    }
}

/// Find the first occurrence of a character.
pub fn find_char(s: &[char], c: char) -> (r: Option<usize>)
    ensures
        match r {
            Some(i) => i as int == first_idx(s@, c) && i < s@.len(),
            None => !s@.contains(c) && first_idx(s@, c) == s@.len(),
        },
{
    proof {
        lemma_first_idx(s@, c);
    }
    let mut i: usize = 0;
    while i < s.len()
        invariant
            i <= s@.len(),
            forall|j: int| 0 <= j < i ==> s@[j] != c,
            0 <= first_idx(s@, c) <= s@.len(),
            first_idx(s@, c) < s@.len() ==> s@[first_idx(s@, c)] == c,
            forall|j: int| 0 <= j < first_idx(s@, c) ==> s@[j] != c,
            (first_idx(s@, c) < s@.len()) == s@.contains(c),
        decreases s@.len() - i,
    {
        if s[i] == c {
            proof {
                if first_idx(s@, c) < i {
                    assert(s@[first_idx(s@, c)] == c);
                }
            }
            return Some(i);
        }
        i = i + 1;
    }
    proof {
        if s@.contains(c) {
            assert(s@[first_idx(s@, c)] == c);
        }
    }
    None
}

/// The last slash-separated segment of a name: everything after the final
/// `/`, or the whole name when it has none.
pub open spec fn last_seg(s: Seq<char>) -> Seq<char>
    decreases s.len(),
{
    if s.len() == 0 {
        s
    } else if s.last() == '/' {
        Seq::empty()
    } else {
        last_seg(s.drop_last()).push(s.last())
    }
}

pub proof fn lemma_last_seg_no_slash(s: Seq<char>)
    requires
        !s.contains('/'),
    ensures
        last_seg(s) == s,
    decreases s.len(),
{
    if s.len() > 0 {
        assert(s.last() != '/') by {
            if s.last() == '/' {
                assert(s[s.len() - 1] == '/');
            }
        }
        assert(!s.drop_last().contains('/')) by {
            if s.drop_last().contains('/') {
                let w = choose|w: int| 0 <= w < s.drop_last().len() && s.drop_last()[w] == '/';
                assert(s[w] == '/');
            }
        }
        lemma_last_seg_no_slash(s.drop_last());
        assert(last_seg(s) =~= s);
    } else {
        assert(last_seg(s) =~= s);
    }
}

pub proof fn lemma_last_seg_at(s: Seq<char>, k: int)
    requires
        0 <= k < s.len(),
        s[k] == '/',
        forall|j: int| k < j < s.len() ==> s[j] != '/',
    ensures
        last_seg(s) == s.subrange(k + 1, s.len() as int),
    decreases s.len(),
{
    if k == s.len() - 1 {
        assert(s.last() == '/');
        assert(last_seg(s) =~= s.subrange(k + 1, s.len() as int));
    } else {
        assert(s.last() != '/');
        lemma_last_seg_at(s.drop_last(), k);
        assert(last_seg(s) == last_seg(s.drop_last()).push(s.last()));
        assert(s.drop_last().subrange(k + 1, s.drop_last().len() as int).push(s.last()) =~= s
            .subrange(k + 1, s.len() as int));
    }
}

/// Extract the last slash-separated segment of a name.
pub fn last_seg_exec(s: &[char]) -> (v: Vec<char>)
    ensures
        v@ == last_seg(s@),
{
    let mut k: usize = s.len();
    while k > 0
        invariant
            k <= s@.len(),
            forall|j: int| k <= j < s@.len() ==> s@[j] != '/',
        decreases k,
    {
        if s[k - 1] == '/' {
            let part = slice_subrange(s, k, s.len());
            let out = slice_to_vec_chars(part);
            proof {
                lemma_last_seg_at(s@, k - 1);
            }
            return out;
        }
        k = k - 1;
    }
    let out = slice_to_vec_chars(s);
    proof {
        if s@.contains('/') {
            let w = choose|w: int| 0 <= w < s@.len() && s@[w] == '/';
            assert(false);
        }
        lemma_last_seg_no_slash(s@);
    }
    out
}

/// Copy a character slice into a vector.
pub fn slice_to_vec_chars(s: &[char]) -> (v: Vec<char>)
    ensures
        v@ == s@,
{
    let mut v: Vec<char> = Vec::new();
    let mut i: usize = 0;
    while i < s.len()
        invariant
            i <= s@.len(),
            v@ == s@.subrange(0, i as int),
        decreases s@.len() - i,
    {
        proof {
            assert(v@.push(s@[i as int]) =~= s@.subrange(0, i + 1));
        }
        let c = s[i];
        v.push(c);
        i = i + 1;
    }
    proof {
        assert(s@.subrange(0, s@.len() as int) =~= s@);
    }
    v
}

// ---------------------------------------------------------------------------
// Brace spans
// ---------------------------------------------------------------------------

/// Relative index of the `}` that closes a span already `depth` braces deep,
/// tracking nested `{`/`}` pairs; `None` when the span never closes.
pub open spec fn brace_close(s: Seq<char>, depth: nat) -> Option<nat>
    decreases s.len(),
{
    if s.len() == 0 {
        None
    } else if s[0] == '}' && depth == 0 {
        Some(0)
    } else {
        let d2: nat = if s[0] == '{' {
            depth + 1
        } else if s[0] == '}' {
            (depth - 1) as nat
        } else {
            depth
        };
        match brace_close(s.drop_first(), d2) {
            Some(j) => Some(j + 1),
            None => None,
        }
    }
}

pub proof fn lemma_brace_close_bound(s: Seq<char>, depth: nat)
    ensures
        match brace_close(s, depth) {
            Some(j) => j < s.len() && s[j as int] == '}',
            None => true,
        },
    decreases s.len(),
{
    if s.len() > 0 && !(s[0] == '}' && depth == 0) {
        let d2: nat = if s[0] == '{' {
            depth + 1
        } else if s[0] == '}' {
            (depth - 1) as nat
        } else {
            depth
        };
        lemma_brace_close_bound(s.drop_first(), d2);
    }
}

/// Scan for the matching closing brace, starting at `i` with `depth` nested
/// spans already open. Returns the absolute index of the closing brace.
pub fn brace_close_exec(s: &[char], i: usize, depth: usize) -> (r: Option<usize>)
    requires
        i <= s@.len(),
        depth <= i,
    ensures
        match r {
            Some(j) => i <= j < s@.len() && brace_close(s@.skip(i as int), depth as nat) == Some(
                (j - i) as nat,
            ),
            None => brace_close(s@.skip(i as int), depth as nat) is None,
        },
    decreases s@.len() - i,
{
    if i >= s.len() {
        return None;
    }
    let c = s[i];
    proof {
        assert(s@.skip(i as int)[0] == c);
        assert(s@.skip(i as int).drop_first() =~= s@.skip(i + 1));
    }
    if c == '}' && depth == 0 {
        return Some(i);
    }
    let d2: usize = if c == '{' {
        depth + 1
    } else if c == '}' {
        depth - 1
    } else {
        depth
    };
    let r = brace_close_exec(s, i + 1, d2);
    match r {
        Some(j) => Some(j),
        None => None,
    }
}

// ---------------------------------------------------------------------------
// Substring search
// ---------------------------------------------------------------------------

/// Index of the first occurrence of `pat` in `text` at or after `i`, or -1.
pub open spec fn find_sub(text: Seq<char>, pat: Seq<char>, i: int) -> int
    decreases text.len() - i,
{
    if i < 0 || i + pat.len() > text.len() {
        -1
    } else if text.subrange(i, i + pat.len() as int) == pat {
        i
    } else if pat.len() == 0 {
        i
    } else {
        find_sub(text, pat, i + 1)
    }
}

/// Find the first occurrence of `pat` in `text`, by character index.
pub fn find_sub_exec(text: &[char], pat: &[char]) -> (r: Option<usize>)
    ensures
        match r {
            Some(i) => find_sub(text@, pat@, 0) == i as int,
            None => find_sub(text@, pat@, 0) == -1,
        },
{
    let n = text.len();
    let m = pat.len();
    if m > n {
        proof {
            assert(find_sub(text@, pat@, 0) == -1);
        }
        return None;
    }
    let mut i: usize = 0;
    while i <= n - m
        invariant
            n == text@.len(),
            m == pat@.len(),
            m <= n,
            i <= n - m + 1,
            find_sub(text@, pat@, 0) == find_sub(text@, pat@, i as int),
        decreases n - i,
    {
        let window = slice_subrange(text, i, i + m);
        if chars_eq(window, pat) {
            proof {
                assert(text@.subrange(i as int, i + m) == pat@);
            }
            return Some(i);
        }
        proof {
            assert(text@.subrange(i as int, i + m) != pat@);
            assert(pat@.len() != 0) by {
                if pat@.len() == 0 {
                    assert(text@.subrange(i as int, i as int) =~= pat@);
                }
            }
        }
        i = i + 1;
    }
    None
}

// ---------------------------------------------------------------------------
// Joining
// ---------------------------------------------------------------------------

/// The total character count of a list of strings.
pub open spec fn total_len(items: Seq<Seq<char>>) -> nat
    decreases items.len(),
{
    if items.len() == 0 {
        0
    } else {
        total_len(items.drop_last()) + items.last().len()
    }
}

/// Joining with an empty separator concatenates, so the result's length is
/// the total length.
pub proof fn lemma_join_empty_len(items: Seq<Seq<char>>)
    ensures
        join_seqs(items, Seq::empty()).len() == total_len(items),
    decreases items.len(),
{
    if items.len() > 1 {
        lemma_join_empty_len(items.drop_last());
    } else if items.len() == 1 {
        assert(total_len(items) == total_len(items.drop_last()) + items.last().len());
    }
}

/// The views of a sequence of strings.
pub open spec fn seq_views(items: Seq<String>) -> Seq<Seq<char>> {
    Seq::new(items.len(), |i: int| items[i]@)
}

/// Concatenation of `items` with `sep` between consecutive elements.
pub open spec fn join_seqs(items: Seq<Seq<char>>, sep: Seq<char>) -> Seq<char>
    decreases items.len(),
{
    if items.len() == 0 {
        Seq::empty()
    } else if items.len() == 1 {
        items[0]
    } else {
        join_seqs(items.drop_last(), sep) + sep + items.last()
    }
}

/// Join a list of strings with a separator.
pub fn join_strings(items: &Vec<String>, sep: &str) -> (r: String)
    ensures
        r@ == join_seqs(seq_views(items@), sep@),
{
    let mut out = String::new();
    let mut i: usize = 0;
    while i < items.len()
        invariant
            i <= items@.len(),
            out@ == join_seqs(seq_views(items@).subrange(0, i as int), sep@),
        decreases items@.len() - i,
    {
        proof {
            let views = seq_views(items@);
            let pre = views.subrange(0, i + 1);
            assert(pre.drop_last() =~= views.subrange(0, i as int));
            assert(pre.last() == items@[i as int]@);
            if i == 0 {
                assert(join_seqs(pre, sep@) == items@[0]@);
                assert(Seq::<char>::empty() + items@[0]@ =~= items@[0]@);
            }
        }
        if i > 0 {
            out.append(sep);
        }
        out.append(items[i].as_str());
        i = i + 1;
    }
    proof {
        assert(seq_views(items@).subrange(0, items@.len() as int) =~= seq_views(items@));
    }
    out
}

} // verus!
