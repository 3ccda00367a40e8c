//! Numeric coercion of resolved template text: signed integer parsing, and
//! the grammar of floating-point literals.
//!
//! The grammars here are the ones the standard library's string-to-number
//! conversions document: an integer is an optional sign followed by one or
//! more decimal digits; a floating-point literal is an optional sign followed
//! by `inf`, `infinity` or `nan` (case-insensitively) or by a mantissa of
//! digits with at most one `.` and an optional `e`/`E` exponent.

use vstd::prelude::*;

verus! {

pub open spec fn is_ascii_digit(c: char) -> bool {
    '0' <= c && c <= '9'
}

pub open spec fn digit_val(c: char) -> int {
    c as int - '0' as int
}

/// The value of a string of decimal digits, most significant first.
pub open spec fn digits_val(s: Seq<char>) -> int
    decreases s.len(),
{
    if s.len() == 0 {
        0
    } else {
        digits_val(s.drop_last()) * 10 + digit_val(s.last())
    }
}

pub open spec fn all_digits(s: Seq<char>) -> bool {
    forall|i: int| 0 <= i < s.len() ==> is_ascii_digit(s[i])
}

/// `s` without its leading sign, if it has one.
pub open spec fn sign_body(s: Seq<char>) -> Seq<char> {
    if s.len() > 0 && (s[0] == '+' || s[0] == '-') {
        s.skip(1)
    } else {
        s
    }
}

pub open spec fn sign_of(s: Seq<char>) -> int {
    if s.len() > 0 && s[0] == '-' {
        -1
    } else {
        1
    }
}

/// An optional sign followed by one or more decimal digits.
pub open spec fn is_int_literal(s: Seq<char>) -> bool {
    sign_body(s).len() > 0 && all_digits(sign_body(s))
}

pub open spec fn int_literal_val(s: Seq<char>) -> int {
    sign_of(s) * digits_val(sign_body(s))
}

/// What parsing `s` as a 64-bit signed integer yields: its value when `s` is
/// an integer literal in range, nothing otherwise.
pub open spec fn parse_i64_spec(s: Seq<char>) -> Option<i64> {
    if is_int_literal(s) && i64::MIN <= int_literal_val(s) <= i64::MAX {
        Some(int_literal_val(s) as i64)
    } else {
        None
    }
}

proof fn lemma_digits_val_nonneg(s: Seq<char>)
    requires
        all_digits(s),
    ensures
        digits_val(s) >= 0,
    decreases s.len(),
{
    if s.len() > 0 {
        assert(all_digits(s.drop_last()));
        lemma_digits_val_nonneg(s.drop_last());
    }
}

/// Parses `s` as a 64-bit signed integer, exactly as `parse_i64_spec` says.
pub fn parse_i64(s: &str) -> (r: Option<i64>)
    ensures
        r == parse_i64_spec(s@),
{
    let n: usize = s.unicode_len();
    if n == 0 {
        return None;
    }
    let c0 = s.get_char(0);
    let neg = c0 == '-';
    let start: usize = if c0 == '-' || c0 == '+' {
        1
    } else {
        0
    };
    let ghost body = sign_body(s@);
    proof {
        if start == 0 {
            assert(body =~= s@.skip(0));
        }
        assert(body == s@.skip(start as int));
    }
    if start == n {
        return None;
    }
    let mut mag: u64 = 0;
    let mut big = false;
    let mut i: usize = start;
    proof {
        assert(body.take(0) =~= Seq::<char>::empty());
    }
    while i < n
        invariant
            start <= i <= n,
            start <= 1,
            n == s@.len(),
            body == sign_body(s@),
            body == s@.skip(start as int),
            all_digits(body.take(i - start)),
            !big ==> mag == digits_val(body.take(i - start)),
            big ==> digits_val(body.take(i - start)) > u64::MAX,
        decreases n - i,
    {
        let c = s.get_char(i);
        proof {
            assert(body[i - start] == s@[i as int]);
        }
        if !(c >= '0' && c <= '9') {
            return None;
        }
        let d: u64 = ((c as u32) - 48) as u64;
        proof {
            assert(d == digit_val(c));
            let p = body.take(i - start);
            let q = body.take(i + 1 - start);
            assert(q.drop_last() =~= p);
            assert(q.last() == body[i - start]);
            assert(digits_val(q) == digits_val(p) * 10 + d);
            assert(all_digits(q));
        }
        if big {
            proof {
                let p = body.take(i - start);
                assert(digits_val(p) * 10 + d > u64::MAX) by (nonlinear_arith)
                    requires
                        digits_val(p) > u64::MAX,
                        d >= 0,
                ;
            }
        } else {
            let m10 = mag.checked_mul(10);
            match m10 {
                None => {
                    big = true;
                    proof {
                        assert(mag * 10 + d > u64::MAX);
                    }
                },
                Some(m) => {
                    let msum = m.checked_add(d);
                    match msum {
                        None => {
                            big = true;
                            proof {
                                assert(mag * 10 + d > u64::MAX);
                            }
                        },
                        Some(v) => {
                            mag = v;
                        },
                    }
                },
            }
        }
        i = i + 1;
    }
    proof {
        assert(body.take(n - start) =~= body);
        assert(is_int_literal(s@));
        lemma_digits_val_nonneg(body);
        assert(neg == (s@[0] == '-'));
        if neg {
            assert(sign_of(s@) == -1);
            assert(int_literal_val(s@) == -digits_val(body));
        } else {
            assert(sign_of(s@) == 1);
            assert(int_literal_val(s@) == digits_val(body));
        }
    }
    if big {
        proof {
            assert(digits_val(body) > u64::MAX);
            if neg {
                assert(int_literal_val(s@) < i64::MIN);
            } else {
                assert(int_literal_val(s@) > i64::MAX);
            }
        }
        return None;
    }
    proof {
        assert(mag == digits_val(body));
    }
    if neg {
        if mag > 9223372036854775808u64 {
            proof {
                assert(int_literal_val(s@) < i64::MIN);
            }
            None
        } else if mag == 9223372036854775808u64 {
            proof {
                assert(int_literal_val(s@) == i64::MIN);
            }
            Some(i64::MIN)
        } else {
            proof {
                assert(i64::MIN <= int_literal_val(s@) <= i64::MAX);
            }
            Some(-(mag as i64))
        }
    } else {
        if mag > 9223372036854775807u64 {
            proof {
                assert(int_literal_val(s@) > i64::MAX);
            }
            None
        } else {
            proof {
                assert(i64::MIN <= int_literal_val(s@) <= i64::MAX);
            }
            Some(mag as i64)
        }
    }
}

/// Case-insensitive match of `c` against a lower-case ASCII letter `l`.
pub open spec fn eq_ci(c: char, l: char) -> bool {
    c == l || c as int + 32 == l as int
}

/// Character-wise case-insensitive match of `s` against a lower-case word.
pub open spec fn seq_ci(s: Seq<char>, w: Seq<char>) -> bool {
    s.len() == w.len() && forall|i: int| 0 <= i < s.len() ==> eq_ci(s[i], w[i])
}

/// The special floating-point spellings: `inf`, `infinity` and `nan`, in any
/// letter case.
pub open spec fn is_special_float(b: Seq<char>) -> bool {
    seq_ci(b, seq!['i', 'n', 'f']) || seq_ci(b, seq!['i', 'n', 'f', 'i', 'n', 'i', 't', 'y'])
        || seq_ci(b, seq!['n', 'a', 'n'])
}

pub open spec fn dot_count(s: Seq<char>) -> int
    decreases s.len(),
{
    if s.len() == 0 {
        0
    } else {
        dot_count(s.drop_last()) + if s.last() == '.' {
            1int
        } else {
            0int
        }
    }
}

pub open spec fn has_digit(s: Seq<char>) -> bool {
    exists|i: int| 0 <= i < s.len() && is_ascii_digit(s[i])
}

/// The digit part of a floating-point literal: digits with at most one `.`
/// anywhere among them, and at least one digit.
pub open spec fn is_mantissa(m: Seq<char>) -> bool {
    (forall|i: int| 0 <= i < m.len() ==> is_ascii_digit(m[i]) || m[i] == '.') && has_digit(m)
        && dot_count(m) <= 1
}

/// The position of the first exponent marker `e` or `E` at or after `i`.
pub open spec fn first_exp_marker(s: Seq<char>, i: int) -> Option<int>
    decreases s.len() + 1 - i,
{
    if i < 0 || i >= s.len() {
        None
    } else if s[i] == 'e' || s[i] == 'E' {
        Some(i)
    } else {
        first_exp_marker(s, i + 1)
    }
}

/// An unsigned floating-point number: a mantissa, optionally followed by an
/// exponent marker and a signed run of digits.
pub open spec fn is_f64_number(b: Seq<char>) -> bool {
    match first_exp_marker(b, 0) {
        None => is_mantissa(b),
        Some(k) => is_mantissa(b.take(k)) && is_int_literal(b.skip(k + 1)),
    }
}

/// Whether `s` parses as a 64-bit floating-point number: an optional sign
/// followed by a special spelling or by a number.
pub open spec fn is_f64_literal(s: Seq<char>) -> bool {
    is_special_float(sign_body(s)) || is_f64_number(sign_body(s))
}

proof fn lemma_first_exp_marker_found(s: Seq<char>, i: int, m: int)
    requires
        0 <= i <= m < s.len(),
        s[m] == 'e' || s[m] == 'E',
        forall|k: int| i <= k < m ==> s[k] != 'e' && s[k] != 'E',
    ensures
        first_exp_marker(s, i) == Some(m),
    decreases m - i,
{
    if i < m {
        lemma_first_exp_marker_found(s, i + 1, m);
    }
}

proof fn lemma_first_exp_marker_none(s: Seq<char>, i: int)
    requires
        0 <= i,
        forall|k: int| i <= k < s.len() ==> s[k] != 'e' && s[k] != 'E',
    ensures
        first_exp_marker(s, i) == None::<int>,
    decreases s.len() + 1 - i,
{
    if i < s.len() {
        lemma_first_exp_marker_none(s, i + 1);
    }
}

fn eq_ci_exec(c: char, l: char) -> (r: bool)
    ensures
        r == eq_ci(c, l),
{
    c == l || (c as u32) + 32 == (l as u32)
}

/// Whether `b` is one of the special spellings, in any letter case.
fn check_special_float(b: &str) -> (r: bool)
    ensures
        r == is_special_float(b@),
{
    let m: usize = b.unicode_len();
    if m == 3 {
        let c0 = b.get_char(0);
        let c1 = b.get_char(1);
        let c2 = b.get_char(2);
        let inf = eq_ci_exec(c0, 'i') && eq_ci_exec(c1, 'n') && eq_ci_exec(c2, 'f');
        let nan = eq_ci_exec(c0, 'n') && eq_ci_exec(c1, 'a') && eq_ci_exec(c2, 'n');
        proof {
            assert(inf == seq_ci(b@, seq!['i', 'n', 'f']));
            assert(nan == seq_ci(b@, seq!['n', 'a', 'n']));
        }
        inf || nan
    } else if m == 8 {
        let r = eq_ci_exec(b.get_char(0), 'i') && eq_ci_exec(b.get_char(1), 'n') && eq_ci_exec(
            b.get_char(2),
            'f',
        ) && eq_ci_exec(b.get_char(3), 'i') && eq_ci_exec(b.get_char(4), 'n') && eq_ci_exec(
            b.get_char(5),
            'i',
        ) && eq_ci_exec(b.get_char(6), 't') && eq_ci_exec(b.get_char(7), 'y');
        proof {
            assert(r == seq_ci(b@, seq!['i', 'n', 'f', 'i', 'n', 'i', 't', 'y']));
        }
        r
    } else {
        false
    }
}

/// Whether `m` is a mantissa: digits and at most one dot, with a digit.
fn check_mantissa(m: &str) -> (r: bool)
    ensures
        r == is_mantissa(m@),
{
    let n: usize = m.unicode_len();
    let mut dots: usize = 0;
    let mut digit_seen = false;
    let mut i: usize = 0;
    proof {
        assert(m@.take(0) =~= Seq::<char>::empty());
    }
    while i < n
        invariant
            0 <= i <= n,
            n == m@.len(),
            dots <= i,
            dots == dot_count(m@.take(i as int)),
            digit_seen == has_digit(m@.take(i as int)),
            forall|k: int| 0 <= k < i ==> is_ascii_digit(m@[k]) || m@[k] == '.',
        decreases n - i,
    {
        let c = m.get_char(i);
        let ghost p = m@.take(i as int);
        let ghost q = m@.take(i + 1);
        proof {
            assert(q.drop_last() =~= p);
            assert(q.last() == m@[i as int]);
        }
        if c == '.' {
            dots = dots + 1;
        } else if c >= '0' && c <= '9' {
            digit_seen = true;
            proof {
                assert(is_ascii_digit(q[i as int]));
            }
        } else {
            return false;
        }
        proof {
            assert forall|k: int| 0 <= k < q.len() && is_ascii_digit(q[k]) implies has_digit(
                q,
            ) by {}
            if has_digit(q) && !has_digit(p) && m@[i as int] == '.' {
                let w = choose|k: int| 0 <= k < q.len() && is_ascii_digit(q[k]);
                assert(q[w] == p[w]);
            }
        }
        i = i + 1;
    }
    proof {
        assert(m@.take(n as int) =~= m@);
    }
    digit_seen && dots <= 1
}

/// Whether `t` is an optional sign followed by one or more digits.
fn check_int_shape(t: &str) -> (r: bool)
    ensures
        r == is_int_literal(t@),
{
    let n: usize = t.unicode_len();
    if n == 0 {
        return false;
    }
    let c0 = t.get_char(0);
    let start: usize = if c0 == '-' || c0 == '+' {
        1
    } else {
        0
    };
    let ghost body = sign_body(t@);
    proof {
        if start == 0 {
            assert(body =~= t@.skip(0));
        }
        assert(body == t@.skip(start as int));
    }
    if start == n {
        return false;
    }
    let mut i: usize = start;
    while i < n
        invariant
            start <= i <= n,
            start <= 1,
            n == t@.len(),
            body == sign_body(t@),
            body == t@.skip(start as int),
            forall|k: int| 0 <= k < i - start ==> is_ascii_digit(body[k]),
        decreases n - i,
    {
        let c = t.get_char(i);
        proof {
            assert(body[i - start] == t@[i as int]);
        }
        if !(c >= '0' && c <= '9') {
            return false;
        }
        i = i + 1;
    }
    true
}

/// Whether `s` parses as a 64-bit floating-point number, exactly as
/// `is_f64_literal` says.
pub fn check_f64_literal(s: &str) -> (r: bool)
    ensures
        r == is_f64_literal(s@),
{
    let n: usize = s.unicode_len();
    let start: usize = if n > 0 && (s.get_char(0) == '-' || s.get_char(0) == '+') {
        1
    } else {
        0
    };
    proof {
        if start == 0 {
            assert(sign_body(s@) =~= s@.skip(0));
        }
    }
    let body = s.substring_char(start, n);
    proof {
        assert(body@ == sign_body(s@));
    }
    if check_special_float(body) {
        return true;
    }
    // No special spelling: decide by the number grammar, split at the first
    // exponent marker.
    let bn: usize = body.unicode_len();
    let mut k: usize = 0;
    while k < bn && body.get_char(k) != 'e' && body.get_char(k) != 'E'
        invariant
            0 <= k <= bn,
            bn == body@.len(),
            forall|t: int| 0 <= t < k ==> body@[t] != 'e' && body@[t] != 'E',
        decreases bn - k,
    {
        k = k + 1;
    }
    if k < bn {
        proof {
            lemma_first_exp_marker_found(body@, 0, k as int);
        }
        let mant = body.substring_char(0, k);
        let ex = body.substring_char(k + 1, bn);
        proof {
            assert(mant@ == body@.take(k as int));
            assert(ex@ == body@.skip(k + 1));
        }
        check_mantissa(mant) && check_int_shape(ex)
    } else {
        proof {
            lemma_first_exp_marker_none(body@, 0);
        }
        check_mantissa(body)
    }
}

} // verus!
