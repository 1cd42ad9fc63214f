//! Building and reading text: character appending, decimal rendering of
//! integers, and conversion between UTF-8 bytes and strings.

use vstd::prelude::*;
use vstd::utf8::{encode_utf8, valid_utf8};
use vstd::string::StrSliceExecFns;

verus! {

/// Relies on `String::push`: appends the given character to the end of
/// the string.
#[verifier::external_body]
pub fn push_char(s: &mut String, c: char)
    ensures
        final(s)@ == old(s)@.push(c),
{
    s.push(c);
}

/// Relies on `core::str::from_utf8`: returns `Ok` exactly when the bytes
/// are valid UTF-8, and the returned string slice is backed by those very
/// bytes.
#[verifier::external_body]
pub fn bytes_to_string(b: &[u8]) -> (r: Option<String>)
    ensures
        match r {
            Some(s) => valid_utf8(b@) && encode_utf8(s@) == b@,
            None => !valid_utf8(b@),
        },
{
    match core::str::from_utf8(b) {
        Ok(s) => Some(s.to_owned()),
        Err(_) => None,
    }
}

/// Character-wise string comparison.
pub fn str_eq_chars(a: &str, b: &str) -> (r: bool)
    ensures
        r == (a@ == b@),
{
    let na: usize = a.unicode_len();
    let nb: usize = b.unicode_len();
    if na != nb {
        proof {
            assert(a@ != b@);
        }
        return false;
    }
    let mut i: usize = 0;
    while i < na
        invariant
            i <= na,
            na == a@.len(),
            na == b@.len(),
            forall|k: int| 0 <= k < i ==> a@[k] == b@[k],
        decreases na - i,
    {
        if a.get_char(i) != b.get_char(i) {
            return false;
        }
        i = i + 1;
    }
    proof {
        assert(a@ =~= b@);
    }
    true
}

/// The character for a single decimal digit.
pub open spec fn digit_char(d: int) -> char {
    ((48 + d) as u8) as char
}

/// The decimal rendering of a natural number, most significant digit
/// first, with no leading zeros (except for zero itself).
pub open spec fn dec_digits(n: nat) -> Seq<char>
    decreases n,
{
    if n < 10 {
        seq![digit_char(n as int)]
    } else {
        dec_digits(n / 10) + seq![digit_char((n % 10) as int)]
    }
}

/// Append the decimal rendering of `n` to `s`.
pub fn push_dec(s: &mut String, n: u64)
    ensures
        final(s)@ == old(s)@ + dec_digits(n as nat),
    decreases n,
{
    if n >= 10 {
        push_dec(s, n / 10);
    }
    let d: u8 = (n % 10) as u8;
    push_char(s, (48 + d) as char);
    proof {
        if n < 10 {
            assert(dec_digits(n as nat) == seq![digit_char(n as int)]);
            assert(n % 10 == n as int);
            assert(old(s)@ + dec_digits(n as nat) == old(s)@.push(digit_char((n as int) % 10)));
        }
        assert(final(s)@ =~= old(s)@ + dec_digits(n as nat));
    }
}


/// Whether a character is a decimal digit.
pub open spec fn is_digit_char(c: char) -> bool {
    48 <= c as u32 <= 57
}

/// Whether a text is all decimal digits.
pub open spec fn all_digits(t: Seq<char>) -> bool {
    forall|k: int| 0 <= k < t.len() ==> is_digit_char(#[trigger] t[k])
}

/// The number a digit string denotes.
pub open spec fn dec_val(t: Seq<char>) -> int
    decreases t.len(),
{
    if t.len() == 0 {
        0
    } else {
        dec_val(t.drop_last()) * 10 + ((t.last() as u32) - 48)
    }
}

/// A decimal rendering is never empty.
pub proof fn lemma_dec_digits_len(n: nat)
    ensures
        dec_digits(n).len() >= 1,
    decreases n,
{
    if n >= 10 {
        lemma_dec_digits_len(n / 10);
    }
}

/// A decimal rendering consists of digits.
pub proof fn lemma_dec_digits_are_digits(n: nat)
    ensures
        all_digits(dec_digits(n)),
    decreases n,
{
    if n < 10 {
        assert(digit_char(n as int) as u32 == 48 + n);
        assert(all_digits(dec_digits(n))) by {
            assert(dec_digits(n) =~= seq![digit_char(n as int)]);
        };
    } else {
        lemma_dec_digits_are_digits(n / 10);
        let t = dec_digits(n);
        assert(digit_char((n % 10) as int) as u32 == 48 + n % 10);
        assert forall|k: int| 0 <= k < t.len() implies is_digit_char(#[trigger] t[k]) by {
            if k < dec_digits(n / 10).len() {
                assert(t[k] == dec_digits(n / 10)[k]);
            } else {
                assert(t[k] == digit_char((n % 10) as int));
            }
        };
    }
}

/// A decimal rendering starts with a digit.
pub proof fn lemma_dec_digits_first(n: nat)
    ensures
        dec_digits(n).len() >= 1,
        is_digit_char(dec_digits(n)[0]),
    decreases n,
{
    lemma_dec_digits_len(n);
    if n < 10 {
        assert(digit_char(n as int) as u32 == 48 + n);
    } else {
        lemma_dec_digits_first(n / 10);
        assert(dec_digits(n)[0] == dec_digits(n / 10)[0]);
    }
}

/// Reading back a decimal rendering yields the rendered number.
pub proof fn lemma_dec_val_of_digits(m: nat)
    ensures
        dec_val(dec_digits(m)) == m,
    decreases m,
{
    if m < 10 {
        let t = dec_digits(m);
        assert(t =~= seq![digit_char(m as int)]);
        assert(t.len() == 1);
        assert(t.drop_last() =~= Seq::<char>::empty());
        assert(dec_val(t.drop_last()) == 0);
        assert(t.last() as u32 == 48 + m);
        assert(dec_val(t) == dec_val(t.drop_last()) * 10 + ((t.last() as u32) - 48));
        assert(dec_val(t) == m);
    } else {
        lemma_dec_val_of_digits(m / 10);
        lemma_dec_digits_len(m / 10);
        let t = dec_digits(m);
        assert(t == dec_digits(m / 10) + seq![digit_char((m % 10) as int)]);
        assert(t.len() >= 1);
        assert(t.drop_last() =~= dec_digits(m / 10));
        assert(t.last() == digit_char((m % 10) as int));
        assert(t.last() as u32 == 48 + m % 10);
        assert(dec_val(t) == dec_val(t.drop_last()) * 10 + ((t.last() as u32) - 48));
        assert(dec_val(t.drop_last()) == m / 10);
        assert(dec_val(t) == (m / 10) * 10 + m % 10);
        assert((m / 10) * 10 + m % 10 == m);
    }
}

/// A digit string's value is never negative.
pub proof fn lemma_dec_val_nonneg(t: Seq<char>)
    requires
        all_digits(t),
    ensures
        dec_val(t) >= 0,
    decreases t.len(),
{
    if t.len() > 0 {
        assert(all_digits(t.drop_last())) by {
            assert forall|k: int| 0 <= k < t.drop_last().len() implies is_digit_char(
                #[trigger] t.drop_last()[k],
            ) by {
                assert(t.drop_last()[k] == t[k]);
            };
        };
        lemma_dec_val_nonneg(t.drop_last());
        assert(is_digit_char(t.last()));
    }
}

/// Extending a consumed prefix by one digit multiplies its value by ten
/// and adds the digit.
pub proof fn lemma_dec_val_step(t: Seq<char>, k: int)
    requires
        0 <= k < t.len(),
    ensures
        dec_val(t.subrange(0, k + 1)) == dec_val(t.subrange(0, k)) * 10 + ((t[k] as u32) - 48),
{
    assert(t.subrange(0, k + 1).drop_last() =~= t.subrange(0, k));
    assert(t.subrange(0, k + 1).last() == t[k]);
}

/// A digit string values at least its prefixes; a proper prefix at
/// least tenfold less.
pub proof fn lemma_dec_val_mono(t: Seq<char>, k: int)
    requires
        all_digits(t),
        0 <= k <= t.len(),
    ensures
        dec_val(t) >= dec_val(t.subrange(0, k)),
        k < t.len() ==> dec_val(t) >= dec_val(t.subrange(0, k)) * 10,
    decreases t.len() - k,
{
    if k == t.len() {
        assert(t.subrange(0, k) =~= t);
    } else {
        lemma_dec_val_step(t, k);
        lemma_dec_val_mono(t, k + 1);
        assert(is_digit_char(t[k]));
        assert(all_digits(t.subrange(0, k))) by {
            assert forall|j: int| 0 <= j < t.subrange(0, k).len() implies is_digit_char(
                #[trigger] t.subrange(0, k)[j],
            ) by {
                assert(t.subrange(0, k)[j] == t[j]);
            };
        };
        lemma_dec_val_nonneg(t.subrange(0, k));
        assert(dec_val(t.subrange(0, k + 1)) >= dec_val(t.subrange(0, k)) * 10);
    }
}

} // verus!
