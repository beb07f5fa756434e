//! Small verified helpers over strings: equality, ASCII case folding,
//! and unsigned integer parsing.

use vstd::prelude::*;
use vstd::string::StrSliceExecFns;

use crate::decimal::{all_digits, digit_of, digits_val, is_digit_char};
use crate::decimal::{lemma_digits_val_nonneg, lemma_digits_val_prefix_le};

verus! {

/// Character-for-character string equality.
#[verifier::loop_isolation(false)]
pub fn str_eq(a: &str, b: &str) -> (r: bool)
    ensures
        r == (a@ == b@),
{
    let la = a.unicode_len();
    let lb = b.unicode_len();
    if la != lb {
        return false;
    }
    let mut i: usize = 0;
    while i < la
        invariant
            0 <= i <= la,
            forall|t: int| 0 <= t < i ==> a@[t] == b@[t],
        decreases la - i,
    {
        if a.get_char(i) != b.get_char(i) {
            return false;
        }
        i += 1;
    }
    proof {
        assert(a@ =~= b@);
    }
    true
}

/// An upper-case ASCII letter folded to lower case; all else unchanged.
pub open spec fn to_lower_char(c: char) -> char {
    if 'A' <= c && c <= 'Z' {
        ((c as u8) + 32) as char
    } else {
        c
    }
}

pub open spec fn spec_to_lower(s: Seq<char>) -> Seq<char> {
    s.map_values(|c: char| to_lower_char(c))
}

/// Folds one character to lower case.
pub fn lower_char(c: char) -> (r: char)
    ensures
        r == to_lower_char(c),
{
    if 'A' <= c && c <= 'Z' {
        ((c as u8) + 32) as char
    } else {
        c
    }
}

/// Equality up to ASCII case.
#[verifier::loop_isolation(false)]
pub fn str_eq_ignore_case(a: &str, b: &str) -> (r: bool)
    ensures
        r == (spec_to_lower(a@) == spec_to_lower(b@)),
{
    let la = a.unicode_len();
    let lb = b.unicode_len();
    if la != lb {
        proof {
            assert(spec_to_lower(a@).len() != spec_to_lower(b@).len());
        }
        return false;
    }
    let mut i: usize = 0;
    while i < la
        invariant
            0 <= i <= la,
            forall|t: int| 0 <= t < i ==> to_lower_char(a@[t]) == to_lower_char(b@[t]),
        decreases la - i,
    {
        let ca = lower_char(a.get_char(i));
        let cb = lower_char(b.get_char(i));
        if ca != cb {
            proof {
                assert(spec_to_lower(a@)[i as int] != spec_to_lower(b@)[i as int]);
            }
            return false;
        }
        i += 1;
    }
    proof {
        assert(spec_to_lower(a@) =~= spec_to_lower(b@));
    }
    true
}

/// Value of an unsigned integer numeral the way `u64` reads one: an
/// optional leading `+`, then decimal digits, fitting in 64 bits.
pub open spec fn spec_parse_u64(s: Seq<char>) -> Option<u64> {
    let body = if s.len() > 0 && s[0] == '+' {
        s.drop_first()
    } else {
        s
    };
    if all_digits(body) && body.len() > 0 && digits_val(body) <= u64::MAX {
        Some(digits_val(body) as u64)
    } else {
        None
    }
}

/// Parses an unsigned 64-bit integer numeral.
#[verifier::loop_isolation(false)]
#[verifier::rlimit(30)]
pub fn parse_u64(s: &str) -> (r: Option<u64>)
    ensures
        r == spec_parse_u64(s@),
{
    let n = s.unicode_len();
    let mut start: usize = 0;
    if n > 0 && s.get_char(0) == '+' {
        start = 1;
    }
    let ghost body = if s@.len() > 0 && s@[0] == '+' {
        s@.drop_first()
    } else {
        s@
    };
    proof {
        if start == 1 {
            assert(body =~= s@.subrange(1, n as int));
        } else {
            assert(body =~= s@.subrange(0, n as int));
        }
    }
    if n == start {
        return None;
    }
    let mut acc: u128 = 0;
    let mut i = start;
    while i < n
        invariant
            start <= i <= n,
            acc == digits_val(s@.subrange(start as int, i as int)),
            forall|t: int| start <= t < i ==> is_digit_char(#[trigger] s@[t]),
            0 <= acc <= u64::MAX,
        decreases n - i,
    {
        let c = s.get_char(i);
        if c < '0' || c > '9' {
            proof {
                assert(!is_digit_char(body[i - start as int]));
                assert(!all_digits(body));
            }
            return None;
        }
        let d = (c as u32 - 48) as u128;
        assert(d == digit_of(c));
        let next = acc * 10 + d;
        proof {
            assert(s@.subrange(start as int, i as int + 1).drop_last() =~= s@.subrange(
                start as int,
                i as int,
            ));
        }
        if next > u64::MAX as u128 {
            proof {
                if all_digits(body) {
                    assert(body.take(i + 1 - start as int) =~= s@.subrange(
                        start as int,
                        i as int + 1,
                    ));
                    lemma_digits_val_prefix_le(body, i + 1 - start as int);
                    assert(digits_val(body) > u64::MAX);
                }
            }
            return None;
        }
        acc = next;
        i += 1;
    }
    proof {
        assert(s@.subrange(start as int, n as int) =~= body);
    }
    Some(acc as u64)
}

} // verus!
