//! String helpers: equality of string slices and parsing of non-negative
//! decimal integers, the textual form accepted for page numbers and
//! staff identifiers.

use vstd::prelude::*;
use vstd::string::StrSliceExecFns;

verus! {

/// Whether `c` is a decimal digit.
pub open spec fn is_digit_char(c: char) -> bool {
    '0' as int <= c as int && c as int <= '9' as int
}

/// The numeric value of a decimal digit.
pub open spec fn digit_value(c: char) -> int {
    c as int - '0' as int
}

/// Every character of `s` is a decimal digit.
pub open spec fn all_digits(s: Seq<char>) -> bool {
    forall|i: int| 0 <= i < s.len() ==> is_digit_char(s[i])
}

/// The number denoted by a sequence of decimal digits, most significant first.
pub open spec fn digits_value(s: Seq<char>) -> int
    decreases s.len(),
{
    if s.len() == 0 {
        0
    } else {
        digits_value(s.drop_last()) * 10 + digit_value(s.last())
    }
}

/// The value parsed from `s` as a non-negative 32-bit integer: an optional
/// leading `+`, then at least one decimal digit, nothing else, and a value
/// no greater than `i32::MAX`. Anything else parses to nothing.
pub open spec fn spec_parse_nonneg_i32(s: Seq<char>) -> Option<int> {
    let body = if s.len() > 0 && s[0] == '+' {
        s.subrange(1, s.len() as int)
    } else {
        s
    };
    if body.len() > 0 && all_digits(body) && digits_value(body) <= i32::MAX as int {
        Some(digits_value(body))
    } else {
        None
    }
}

pub proof fn lemma_digits_value_nonneg(s: Seq<char>)
    requires
        all_digits(s),
    ensures
        digits_value(s) >= 0,
    decreases s.len(),
{
    if s.len() > 0 {
        assert(all_digits(s.drop_last()));
        lemma_digits_value_nonneg(s.drop_last());
    }
}

/// A digit string's value never falls when more digits follow.
pub proof fn lemma_digits_prefix_le(s: Seq<char>, i: int)
    requires
        all_digits(s),
        0 <= i <= s.len(),
    ensures
        digits_value(s.subrange(0, i)) <= digits_value(s),
    decreases s.len() - i,
{
    if i == s.len() {
        assert(s.subrange(0, i) =~= s);
    } else {
        let p = s.subrange(0, i);
        let q = s.subrange(0, i + 1);
        assert(q.drop_last() =~= p);
        assert(all_digits(p));
        lemma_digits_value_nonneg(p);
        assert(digits_value(q) == digits_value(p) * 10 + digit_value(q.last()));
        assert(digits_value(p) <= digits_value(p) * 10) by (nonlinear_arith)
            requires digits_value(p) >= 0;
        lemma_digits_prefix_le(s, i + 1);
    }
}

/// Whether two string slices hold the same characters.
pub fn str_eq(a: &str, b: &str) -> (r: bool)
    ensures
        r == (a@ == b@),
{
    let x: String = a.to_owned();
    let y: String = b.to_owned();
    x == y
}

/// Parses `s` as a non-negative 32-bit integer, exactly as
/// `spec_parse_nonneg_i32` describes.
pub fn parse_nonneg_i32(s: &str) -> (r: Option<i32>)
    ensures
        r matches Some(v) ==> spec_parse_nonneg_i32(s@) == Some(v as int) && v >= 0,
        r is None ==> spec_parse_nonneg_i32(s@) is None,
{
    let n: usize = s.unicode_len();
    let start: usize = if n > 0 && s.get_char(0) == '+' {
        1
    } else {
        0
    };
    let ghost body = if start == 1 {
        s@.subrange(1, s@.len() as int)
    } else {
        s@
    };
    if start >= n {
        assert(body.len() == 0);
        return None;
    }
    let mut i: usize = start;
    let mut acc: i32 = 0;
    while i < n
        invariant
            start <= i <= n,
            n == s@.len(),
            start <= 1,
            (start == 1) == (s@.len() > 0 && s@[0] == '+'),
            body == (if start == 1 { s@.subrange(1, s@.len() as int) } else { s@ }),
            body.len() == n - start,
            forall|k: int| 0 <= k < body.len() ==> body[k] == s@[k + start],
            all_digits(body.subrange(0, i - start)),
            0 <= acc <= i32::MAX,
            acc as int == digits_value(body.subrange(0, i - start)),
        decreases n - i,
    {
        let c = s.get_char(i);
        let u = c as u32;
        assert(body[i - start] == s@[i as int]);
        if u < 48 || u > 57 {
            assert(!is_digit_char(body[i - start]));
            assert(!all_digits(body));
            return None;
        }
        let d = (u - 48) as i32;
        assert(is_digit_char(c) && digit_value(c) == d as int);
        let ghost pre = body.subrange(0, i - start);
        let ghost ext = body.subrange(0, i - start + 1);
        assert(ext.drop_last() =~= pre);
        assert(ext.last() == body[i - start]);
        if acc > (i32::MAX - d) / 10 {
            proof {
                assert(acc as int * 10 + d as int > i32::MAX as int) by (nonlinear_arith)
                    requires
                        acc as int > (i32::MAX as int - d as int) / 10,
                        0 <= d as int <= 9,
                        acc as int >= 0;
                assert(digits_value(ext) > i32::MAX as int);
                if all_digits(body) {
                    lemma_digits_value_nonneg(ext);
                    lemma_digits_prefix_le(body, i - start + 1);
                }
            }
            return None;
        }
        assert(acc as int * 10 <= i32::MAX as int - d as int) by (nonlinear_arith)
            requires
                acc as int <= (i32::MAX as int - d as int) / 10,
                0 <= d as int <= 9,
                acc as int >= 0;
        acc = acc * 10 + d;
        i += 1;
        assert(body.subrange(0, i - start) =~= ext);
    }
    assert(body.subrange(0, i - start) =~= body);
    Some(acc)
}

} // verus!
