//! Character classes, text comparison, and conversion of integer-literal
//! text to a machine integer.

use vstd::prelude::*;
use vstd::string::StrSliceExecFns;

verus! {

pub open spec fn is_alpha(c: char) -> bool {
    ('a' <= c && c <= 'z') || ('A' <= c && c <= 'Z')
}

pub open spec fn is_digit(c: char) -> bool {
    '0' <= c && c <= '9'
}

/// Characters that may continue an identifier once one has started.
pub open spec fn is_ident_char(c: char) -> bool {
    is_alpha(c) || is_digit(c) || c == '_'
}

pub(crate) fn alpha_char(c: char) -> (r: bool)
    ensures
        r == is_alpha(c),
{
    (c >= 'a' && c <= 'z') || (c >= 'A' && c <= 'Z')
}

pub(crate) fn digit_char(c: char) -> (r: bool)
    ensures
        r == is_digit(c),
{
    c >= '0' && c <= '9'
}

pub(crate) fn ident_char(c: char) -> (r: bool)
    ensures
        r == is_ident_char(c),
{
    alpha_char(c) || digit_char(c) || c == '_'
}

/// Character-for-character equality of two text slices.
pub(crate) fn str_eq(a: &str, b: &str) -> (r: bool)
    ensures
        r == (a@ == b@),
{
    let na = a.unicode_len();
    let nb = b.unicode_len();
    if na != nb {
        return false;
    }
    let mut k: usize = 0;
    while k < na
        invariant
            k <= na,
            na as nat == a@.len(),
            na as nat == b@.len(),
            forall|t: int| 0 <= t < k ==> a@[t] == b@[t],
        decreases na - k,
    {
        if a.get_char(k) != b.get_char(k) {
            return false;
        }
        k += 1;
    }
    proof {
        assert(a@ =~= b@);
    }
    true
}

pub open spec fn all_digits(s: Seq<char>) -> bool {
    forall|i: int| 0 <= i < s.len() ==> is_digit(#[trigger] s[i])
}

/// The number denoted by a run of decimal digits.
pub open spec fn digits_val(s: Seq<char>) -> int
    decreases s.len(),
{
    if s.len() == 0 {
        0
    } else {
        digits_val(s.drop_last()) * 10 + (s.last() as int - '0' as int)
    }
}

/// What text denotes as a 32-bit integer: an optional sign followed by at
/// least one decimal digit, rejected when the value falls outside the
/// 32-bit range. This is the conversion applied to integer-literal tokens.
pub open spec fn int_literal_value(s: Seq<char>) -> Option<i32> {
    let signed = s.len() > 0 && (s[0] == '-' || s[0] == '+');
    let ds = if signed {
        s.drop_first()
    } else {
        s
    };
    let neg = s.len() > 0 && s[0] == '-';
    if ds.len() > 0 && all_digits(ds) {
        let v = if neg {
            -digits_val(ds)
        } else {
            digits_val(ds)
        };
        if i32::MIN as int <= v <= i32::MAX as int {
            Some(v as i32)
        } else {
            None
        }
    } else {
        None
    }
}

pub proof fn lemma_digits_val_nonneg(s: Seq<char>)
    requires
        all_digits(s),
    ensures
        digits_val(s) >= 0,
    decreases s.len(),
{
    if s.len() > 0 {
        assert(all_digits(s.drop_last()));
        lemma_digits_val_nonneg(s.drop_last());
    }
}

/// Reading more digits never makes the denoted number smaller.
pub proof fn lemma_digits_val_prefix_le(s: Seq<char>, m: int)
    requires
        all_digits(s),
        0 <= m <= s.len(),
    ensures
        digits_val(s.subrange(0, m)) <= digits_val(s),
    decreases s.len(),
{
    if m == s.len() {
        assert(s.subrange(0, m) =~= s);
    } else {
        assert(all_digits(s.drop_last()));
        assert(s.drop_last().subrange(0, m) =~= s.subrange(0, m));
        lemma_digits_val_prefix_le(s.drop_last(), m);
        lemma_digits_val_nonneg(s.drop_last());
    }
}

/// Converts integer-literal text to an `i32`, returning `None` on text
/// that does not denote a 32-bit integer.
#[verifier::loop_isolation(false)]
pub fn eval_int_literal(text: &str) -> (r: Option<i32>)
    ensures
        r == int_literal_value(text@),
{
    let n = text.unicode_len();
    if n == 0 {
        return None;
    }
    let first = text.get_char(0);
    let neg = first == '-';
    let start: usize = if first == '-' || first == '+' {
        1
    } else {
        0
    };
    if start == n {
        return None;
    }
    let limit: u64 = if neg {
        2147483648
    } else {
        2147483647
    };
    let ghost ds: Seq<char> = text@.subrange(start as int, n as int);
    proof {
        if start == 1 {
            assert(ds =~= text@.drop_first());
        } else {
            assert(ds =~= text@);
        }
    }
    let mut acc: u64 = 0;
    let mut k: usize = start;
    while k < n
        invariant
            start <= k <= n,
            n as nat == text@.len(),
            start <= 1,
            n > start,
            ds == text@.subrange(start as int, n as int),
            acc == digits_val(text@.subrange(start as int, k as int)),
            acc <= limit,
            limit <= 2147483648,
            forall|t: int| start <= t < k ==> is_digit(#[trigger] text@[t]),
        decreases n - k,
    {
        let c = text.get_char(k);
        if !(c >= '0' && c <= '9') {
            proof {
                assert(ds[k - start] == text@[k as int]);
                assert(!all_digits(ds));
            }
            return None;
        }
        let d: u64 = (c as u32 - 48) as u64;
        proof {
            let pre = text@.subrange(start as int, k as int);
            let ext = text@.subrange(start as int, k as int + 1);
            assert(ext.drop_last() =~= pre);
            assert(ext.last() == text@[k as int]);
        }
        acc = acc * 10 + d;
        if acc > limit {
            proof {
                let ext = text@.subrange(start as int, k as int + 1);
                if all_digits(ds) {
                    assert(ext =~= ds.subrange(0, k + 1 - start));
                    lemma_digits_val_prefix_le(ds, k + 1 - start);
                }
            }
            return None;
        }
        k += 1;
    }
    proof {
        assert(text@.subrange(start as int, k as int) =~= ds);
        assert(all_digits(ds));
        lemma_digits_val_nonneg(ds);
    }
    if neg {
        if acc == 2147483648 {
            Some(i32::MIN)
        } else {
            Some(0i32 - (acc as i32))
        }
    } else {
        Some(acc as i32)
    }
}

} // verus!
