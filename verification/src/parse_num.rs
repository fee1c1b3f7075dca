//! Decimal parsing for stage arguments: the per-token conversion a stage
//! declares for its typed configuration.

use vstd::prelude::*;

verus! {

pub open spec fn is_digit_char(c: char) -> bool {
    '0' <= c && c <= '9'
}

pub open spec fn all_digits(s: Seq<char>) -> bool {
    forall|i: int| 0 <= i < s.len() ==> is_digit_char(#[trigger] s[i])
}

/// Value of a sequence of decimal digit characters.
pub open spec fn digits_val(s: Seq<char>) -> int
    decreases s.len(),
{
    if s.len() == 0 {
        0
    } else {
        digits_val(s.drop_last()) * 10 + (s.last() as int - 48)
    }
}

/// Once the value of a prefix is past a bound, no extension of it by
/// further characters comes back under the bound.
pub proof fn lemma_digits_val_grows(s: Seq<char>, k: int, bound: int)
    requires
        0 <= k <= s.len(),
        bound >= 5,
        digits_val(s.take(k)) > bound,
        forall|i: int| 0 <= i < s.len() ==> '\0' <= #[trigger] s[i] <= '\u{7f}',
    ensures
        digits_val(s) > bound,
    decreases s.len() - k,
{
    if k < s.len() {
        let p = s.take(k + 1);
        assert(p.drop_last() =~= s.take(k));
        assert(p.last() == s[k]);
        assert('\0' <= s[k] <= '\u{7f}');
        assert(p.last() as int >= 0);
        assert(digits_val(p) == digits_val(s.take(k)) * 10 + (p.last() as int - 48));
        lemma_digits_val_grows(s, k + 1, bound);
    } else {
        assert(s.take(k) =~= s);
    }
}

/// Parses a non-empty, all-digit sequence of ASCII bytes as a decimal
/// number.  Yields `None` exactly when the input is empty, holds a
/// non-digit, or encodes a value that does not fit in `usize`.
pub(crate) fn parse_usize_bytes(bytes: &[u8], chars: Ghost<Seq<char>>) -> (r: Option<usize>)
    requires
        bytes@.len() == chars@.len(),
        forall|i: int| 0 <= i < bytes@.len() ==> bytes@[i] == #[trigger] chars@[i] as u8,
        forall|i: int| 0 <= i < chars@.len() ==> '\0' <= #[trigger] chars@[i] <= '\u{7f}',
    ensures
        match r {
            Some(v) => chars@.len() > 0 && all_digits(chars@) && v == digits_val(chars@),
            None => chars@.len() == 0 || !all_digits(chars@) || digits_val(chars@)
                > usize::MAX,
        },
{
    if bytes.len() == 0 {
        return None;
    }
    let mut v: usize = 0;
    let mut i: usize = 0;
    while i < bytes.len()
        invariant
            0 <= i <= bytes@.len(),
            bytes@.len() == chars@.len(),
            forall|j: int| 0 <= j < bytes@.len() ==> bytes@[j] == #[trigger] chars@[j] as u8,
            forall|j: int| 0 <= j < chars@.len() ==> '\0' <= #[trigger] chars@[j] <= '\u{7f}',
            all_digits(chars@.take(i as int)),
            v == digits_val(chars@.take(i as int)),
        decreases bytes@.len() - i,
    {
        let b = bytes[i];
        if b < 48 || b > 57 {
            proof {
                assert(chars@[i as int] as u8 == b);
                assert('\0' <= chars@[i as int] <= '\u{7f}');
                assert(chars@[i as int] as int == b as int);
                assert(!is_digit_char(chars@[i as int]));
            }
            return None;
        }
        let d = (b - 48) as usize;
        proof {
            assert(chars@[i as int] as u8 == bytes@[i as int]);
            assert('\0' <= chars@[i as int] <= '\u{7f}');
            assert(chars@[i as int] as int == b as int);
            assert(is_digit_char(chars@[i as int]));
            assert(chars@.take(i + 1).drop_last() =~= chars@.take(i as int));
            assert(chars@.take(i + 1).last() == chars@[i as int]);
            assert(forall|j: int|
                0 <= j < i + 1 ==> is_digit_char(#[trigger] chars@.take(i + 1)[j]));
            assert(all_digits(chars@.take(i + 1)));
        }
        if v > (usize::MAX - d) / 10 {
            proof {
                assert(digits_val(chars@.take(i + 1)) == v * 10 + d);
                assert(digits_val(chars@.take(i + 1)) > usize::MAX);
                lemma_digits_val_grows(chars@, i + 1, usize::MAX as int);
            }
            return None;
        }
        v = v * 10 + d;
        proof {
            assert(v == digits_val(chars@.take(i + 1)));
        }
        i = i + 1;
    }
    proof {
        assert(chars@.take(chars@.len() as int) =~= chars@);
    }
    Some(v)
}

/// Parses a decimal `usize` out of a string, the way a count argument such
/// as a prefix or suffix length is read.  Yields `None` exactly when the
/// string is empty, is not all ASCII digits, or overflows `usize`.
pub fn parse_usize_str(arg: &str) -> (r: Option<usize>)
    ensures
        match r {
            Some(v) => arg@.len() > 0 && all_digits(arg@) && v == digits_val(arg@),
            None => arg@.len() == 0 || !all_digits(arg@) || digits_val(arg@) > usize::MAX,
        },
{
    if !arg.is_ascii() {
        proof {
            let i = choose|i: int|
                0 <= i < arg@.len() && !('\0' <= (#[trigger] arg@[i]) <= '\u{7f}');
            assert(!is_digit_char(arg@[i]));
        }
        return None;
    }
    proof {
        vstd::string::is_ascii_spec_bytes(arg);
    }
    let bytes = arg.as_bytes();
    parse_usize_bytes(bytes, Ghost(arg@))
}

} // verus!
