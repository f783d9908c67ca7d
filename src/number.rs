use vstd::prelude::*;

use crate::text::chars_of;

verus! {

/// An ASCII decimal digit.
pub open spec fn is_digit(c: char) -> bool {
    '0' <= c <= '9'
}

pub open spec fn digit_value(c: char) -> nat {
    (c as int - '0' as int) as nat
}

pub open spec fn all_digits(s: Seq<char>) -> bool {
    forall|i: int| 0 <= i < s.len() ==> is_digit(#[trigger] s[i])
}

/// The number that the decimal digits `s` write, most significant first.
pub open spec fn digits_value(s: Seq<char>) -> nat
    decreases s.len(),
{
    if s.len() == 0 {
        0
    } else {
        digits_value(s.drop_last()) * 10 + digit_value(s.last())
    }
}

/// The digits of an unsigned number: the text after an optional leading `+`.
pub open spec fn unsigned_digits(s: Seq<char>) -> Seq<char> {
    if s.len() > 0 && s[0] == '+' {
        s.drop_first()
    } else {
        s
    }
}

/// The value that `s` writes as an unsigned decimal number, if it writes one:
/// an optional `+` and then one or more digits, nothing else.
pub open spec fn decimal_value(s: Seq<char>) -> Option<nat> {
    let d = unsigned_digits(s);
    if d.len() > 0 && all_digits(d) {
        Some(digits_value(d))
    } else {
        None
    }
}

/// A prefix of a run of digits never writes a larger number than the whole run.
proof fn lemma_digits_value_prefix(d: Seq<char>, k: int)
    requires
        all_digits(d),
        0 <= k <= d.len(),
    ensures
        digits_value(d.take(k)) <= digits_value(d),
    decreases d.len(),
{
    if k == d.len() {
        assert(d.take(k) =~= d);
    } else {
        assert(d.drop_last().take(k) =~= d.take(k));
        assert(all_digits(d.drop_last()));
        lemma_digits_value_prefix(d.drop_last(), k);
    }
}

/// Reads `s` as an unsigned decimal number, as `usize::from_str` does: `None`
/// unless `s` is an optional `+` and one or more digits whose value fits.
pub fn parse_decimal(s: &str) -> (r: Option<usize>)
    ensures
        r == (match decimal_value(s@) {
            Some(v) => if v <= usize::MAX {
                Some(v as usize)
            } else {
                None
            },
            None => None,
        }),
{
    let v = chars_of(s);
    let n = v.len();
    let start: usize = if n > 0 && v[0] == '+' {
        1
    } else {
        0
    };
    let ghost d = unsigned_digits(s@);
    assert(d =~= s@.subrange(start as int, n as int));
    if start == n {
        return None;
    }
    let mut acc: usize = 0;
    let mut i: usize = start;
    while i < n
        invariant
            start <= i <= n == s@.len(),
            v@ == s@,
            d == s@.subrange(start as int, n as int),
            d == unsigned_digits(s@),
            all_digits(d.take(i - start)),
            acc as nat == digits_value(d.take(i - start)),
        decreases n - i,
    {
        let c = v[i];
        if !('0' <= c && c <= '9') {
            assert(d[i - start] == c);
            assert(!all_digits(d));
            return None;
        }
        let ghost k = i - start;
        assert(d.take(k + 1).drop_last() =~= d.take(k));
        assert(d.take(k + 1).last() == c);
        let next = match acc.checked_mul(10) {
            Some(m) => m.checked_add((c as u32 - '0' as u32) as usize),
            None => None,
        };
        match next {
            Some(x) => {
                acc = x;
                i = i + 1;
                assert(all_digits(d.take(i - start)));
            },
            None => {
                proof {
                    if all_digits(d) {
                        lemma_digits_value_prefix(d, k + 1);
                    }
                }
                return None;
            },
        }
    }
    assert(d.take(n - start) =~= d);
    Some(acc)
}

} // verus!
