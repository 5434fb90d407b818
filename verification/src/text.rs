//! Character-level helpers: decimal ASN parsing and string comparison.
use vstd::prelude::*;
use vstd::string::StrSliceExecFns;

verus! {

/// A decimal digit `0`..`9`.
pub open spec fn is_digit_char(c: char) -> bool {
    48 <= c as u32 && c as u32 <= 57
}

/// The numeric value of a digit sequence, most significant digit first.
pub open spec fn digits_val(s: Seq<char>) -> int
    decreases s.len(),
{
    if s.len() == 0 {
        0
    } else {
        digits_val(s.drop_last()) * 10 + (s.last() as u32 - 48)
    }
}

/// A non-empty run of decimal digits.
pub open spec fn all_digits(s: Seq<char>) -> bool {
    s.len() > 0 && forall|i: int| 0 <= i < s.len() ==> is_digit_char(#[trigger] s[i])
}

/// What `u32::from_str` accepts: an optional leading `+`, then one or more
/// decimal digits, whose value fits in 32 bits.
pub open spec fn dec_u32_of(s: Seq<char>) -> Option<u32> {
    let ds = if s.len() > 0 && s[0] == '+' {
        s.drop_first()
    } else {
        s
    };
    if all_digits(ds) && digits_val(ds) <= u32::MAX {
        Some(digits_val(ds) as u32)
    } else {
        None
    }
}

pub proof fn lemma_digits_val_nonneg(s: Seq<char>)
    requires
        forall|i: int| 0 <= i < s.len() ==> is_digit_char(#[trigger] s[i]),
    ensures
        digits_val(s) >= 0,
    decreases s.len(),
{
    if s.len() > 0 {
        lemma_digits_val_nonneg(s.drop_last());
    }
}

/// Appending one digit multiplies the value by ten and adds the digit.
pub proof fn lemma_digits_val_take_step(s: Seq<char>, i: int)
    requires
        0 <= i < s.len(),
    ensures
        digits_val(s.take(i + 1)) == digits_val(s.take(i)) * 10 + (s[i] as u32 - 48),
{
    assert(s.take(i + 1).drop_last() =~= s.take(i));
    assert(s.take(i + 1).last() == s[i]);
}

/// A digit string is worth at least any of its prefixes.
pub proof fn lemma_digits_val_prefix(s: Seq<char>, k: int)
    requires
        0 <= k <= s.len(),
        forall|i: int| 0 <= i < s.len() ==> is_digit_char(#[trigger] s[i]),
    ensures
        digits_val(s.take(k)) <= digits_val(s),
    decreases s.len() - k,
{
    if k == s.len() {
        assert(s.take(k) =~= s);
    } else {
        lemma_digits_val_take_step(s, k);
        lemma_digits_val_nonneg(s.take(k));
        lemma_digits_val_prefix(s, k + 1);
    }
}

/// Parses a decimal unsigned 32-bit integer exactly as `u32::from_str` does.
pub fn parse_u32_dec(s: &str) -> (r: Option<u32>)
    ensures
        r == dec_u32_of(s@),
{
    let n = s.unicode_len();
    if n == 0 {
        return None;
    }
    let first = s.get_char(0);
    let start: usize = if first == '+' {
        1
    } else {
        0
    };
    let ghost ds: Seq<char> = if s@.len() > 0 && s@[0] == '+' {
        s@.drop_first()
    } else {
        s@
    };
    proof {
        assert(ds =~= s@.subrange(start as int, n as int));
    }
    if start == n {
        return None;
    }
    let mut i: usize = start;
    let mut acc: u64 = 0;
    while i < n
        invariant
            start <= i <= n,
            n == s@.len(),
            start == 0 || start == 1,
            ds == (if s@.len() > 0 && s@[0] == '+' {
                s@.drop_first()
            } else {
                s@
            }),
            ds =~= s@.subrange(start as int, n as int),
            forall|j: int| start <= j < i ==> is_digit_char(#[trigger] s@[j]),
            acc <= u32::MAX,
            acc == digits_val(s@.subrange(start as int, i as int)),
        decreases n - i,
    {
        let c = s.get_char(i);
        let cu = c as u32;
        if cu < 48 || cu > 57 {
            // a non-digit anywhere makes the whole text unparseable
            assert(!is_digit_char(ds[i - start]));
            assert(!all_digits(ds));
            return None;
        }
        let d: u64 = (cu - 48) as u64;
        proof {
            lemma_digits_val_take_step(s@.subrange(start as int, n as int), i - start);
            assert(s@.subrange(start as int, n as int).take(i - start) =~= s@.subrange(
                start as int,
                i as int,
            ));
            assert(s@.subrange(start as int, n as int).take(i - start + 1) =~= s@.subrange(
                start as int,
                i as int + 1,
            ));
        }
        acc = acc * 10 + d;
        i = i + 1;
        if acc > 0xFFFF_FFFF {
            // the remaining digits can only make the value larger
            proof {
                if all_digits(ds) {
                    lemma_digits_val_prefix(ds, i - start);
                    assert(ds.take(i - start) =~= s@.subrange(start as int, i as int));
                }
            }
            return None;
        }
    }
    proof {
        assert(ds =~= s@.subrange(start as int, i as int));
        assert(forall|j: int| 0 <= j < ds.len() ==> is_digit_char(#[trigger] ds[j]));
    }
    Some(acc as u32)
}

/// Character-for-character string equality.
pub fn str_eq(a: &str, b: &str) -> (r: bool)
    ensures
        r == (a@ == b@),
{
    let alen = a.unicode_len();
    let blen = b.unicode_len();
    if alen != blen {
        return false;
    }
    let mut i: usize = 0;
    while i < alen
        invariant
            i <= alen,
            alen == a@.len(),
            alen == b@.len(),
            forall|j: int| 0 <= j < i ==> a@[j] == b@[j],
        decreases alen - i,
    {
        if a.get_char(i) != b.get_char(i) {
            return false;
        }
        i = i + 1;
    }
    proof {
        assert(a@ =~= b@);
    }
    true
}

/// The scalar value of a character with ASCII capitals folded to lower case.
pub open spec fn lower_u32(c: char) -> int {
    if 65 <= c as u32 && c as u32 <= 90 {
        c as u32 + 32
    } else {
        c as u32 as int
    }
}

/// Equality up to ASCII case.
pub open spec fn eq_ignore_case(a: Seq<char>, b: Seq<char>) -> bool {
    a.len() == b.len() && forall|i: int| 0 <= i < a.len() ==> lower_u32(a[i]) == lower_u32(b[i])
}

/// Compares two strings ignoring ASCII case.
pub fn str_eq_ignore_case(a: &str, b: &str) -> (r: bool)
    ensures
        r == eq_ignore_case(a@, b@),
{
    let alen = a.unicode_len();
    let blen = b.unicode_len();
    if alen != blen {
        return false;
    }
    let mut i: usize = 0;
    while i < alen
        invariant
            i <= alen,
            alen == a@.len(),
            alen == b@.len(),
            forall|j: int| 0 <= j < i ==> lower_u32(a@[j]) == lower_u32(b@[j]),
        decreases alen - i,
    {
        let mut ca = a.get_char(i) as u32;
        let mut cb = b.get_char(i) as u32;
        if 65 <= ca && ca <= 90 {
            ca = ca + 32;
        }
        if 65 <= cb && cb <= 90 {
            cb = cb + 32;
        }
        if ca != cb {
            return false;
        }
        i = i + 1;
    }
    true
}

} // verus!
