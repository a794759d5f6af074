//! Verified helpers over `&str`, built on the character-level operations that
//! vstd specifies. Every function here is executable and fully verified; the
//! rest of the crate states its contracts over `Seq<char>` views.

use vstd::prelude::*;
use vstd::string::StrSliceExecFns;

verus! {

/// Character-for-character equality of two string slices.
pub fn str_eq(a: &str, b: &str) -> (r: bool)
    ensures
        r == (a@ == b@),
{
    let la = a.unicode_len();
    let lb = b.unicode_len();
    if la != lb {
        return false;
    }
    let mut i: usize = 0;
    while i < la
        invariant
            la == a@.len(),
            la == b@.len(),
            i <= la,
            forall|j: int| 0 <= j < i ==> a@[j] == b@[j],
        decreases la - i,
    {
        if a.get_char(i) != b.get_char(i) {
            return false;
        }
        i += 1;
    }
    proof {
        assert(a@ =~= b@);
    }
    true
}

/// True when `s` ends with `suffix`.
pub fn str_ends_with(s: &str, suffix: &str) -> (r: bool)
    ensures
        r == (s@.len() >= suffix@.len() && s@.skip(s@.len() - suffix@.len()) == suffix@),
{
    let ls = s.unicode_len();
    let lx = suffix.unicode_len();
    if ls < lx {
        return false;
    }
    let tail = s.substring_char(ls - lx, ls);
    let r = str_eq(tail, suffix);
    proof {
        assert(tail@ == s@.skip(s@.len() - suffix@.len()));
    }
    r
}

/// True when `s` begins with the character `c`.
pub fn starts_with_char(s: &str, c: char) -> (r: bool)
    ensures
        r == (s@.len() > 0 && s@[0] == c),
{
    if s.unicode_len() == 0 {
        return false;
    }
    s.get_char(0) == c
}

/// The canonical decimal digits, in specification form.
pub open spec fn spec_is_digit(c: char) -> bool {
    '0' <= c && c <= '9'
}

/// A sign-stripped integer body: at least one digit, and no leading zero
/// except for zero itself.
pub open spec fn spec_integer_digits(digits: Seq<char>) -> bool {
    &&& digits.len() > 0
    &&& (forall|i: int| 0 <= i < digits.len() ==> spec_is_digit(#[trigger] digits[i]))
    &&& (digits.len() > 1 ==> digits[0] != '0')
}

/// A token is a decimal integer when it is an optional minus sign followed by
/// at least one digit, with no leading zero except for zero itself.
pub open spec fn spec_is_integer_token(s: Seq<char>) -> bool {
    spec_integer_digits(
        if s.len() > 0 && s[0] == '-' {
            s.skip(1)
        } else {
            s
        },
    )
}

/// A single non-digit anywhere in the body refutes [`spec_integer_digits`].
proof fn lemma_not_all_digits(digits: Seq<char>, k: int)
    requires
        0 <= k < digits.len(),
        !spec_is_digit(digits[k]),
    ensures
        !spec_integer_digits(digits),
{
}

/// Decides [`spec_is_integer_token`] for a string slice.
pub fn is_integer_token(s: &str) -> (r: bool)
    ensures
        r == spec_is_integer_token(s@),
{
    let len = s.unicode_len();
    let negative = len > 0 && s.get_char(0) == '-';
    let start: usize = if negative {
        1
    } else {
        0
    };
    let ghost digits: Seq<char> = if negative {
        s@.skip(1)
    } else {
        s@
    };
    proof {
        assert(digits =~= s@.skip(start as int));
        assert(forall|k: int| 0 <= k < digits.len() ==> #[trigger] digits[k] == s@[k + start]);
    }
    if len == start {
        return false;
    }
    if len - start > 1 && s.get_char(start) == '0' {
        proof {
            assert(digits[0] == '0');
        }
        return false;
    }
    let mut i: usize = start;
    while i < len
        invariant
            len == s@.len(),
            start <= i <= len,
            len > start,
            negative == (s@.len() > 0 && s@[0] == '-'),
            negative ==> start == 1,
            !negative ==> start == 0,
            digits == s@.skip(start as int),
            forall|j: int| 0 <= j < i - start ==> spec_is_digit(#[trigger] digits[j]),
        decreases len - i,
    {
        let c = s.get_char(i);
        if c < '0' || c > '9' {
            proof {
                assert(!spec_is_digit(s@[i as int]));
                if negative {
                    assert(s@.skip(1)[i - 1] == s@[i as int]);
                }
                lemma_not_all_digits(
                    if s@.len() > 0 && s@[0] == '-' {
                        s@.skip(1)
                    } else {
                        s@
                    },
                    i - start,
                );
            }
            return false;
        }
        i += 1;
    }
    true
}

/// The candidate split points of a decimal body: digits up to `p`, then
/// either the end or a point followed by a nonempty run of digits.
pub open spec fn decimal_split_at(body: Seq<char>, p: int) -> bool {
    &&& (forall|i: int| 0 <= i < p ==> spec_is_digit(#[trigger] body[i]))
    &&& if p == body.len() {
        true
    } else {
        &&& body[p] == '.'
        &&& body.len() > p + 1
        &&& (forall|i: int| p < i < body.len() ==> spec_is_digit(#[trigger] body[i]))
    }
}

/// A sign-stripped decimal body: at least one digit, optionally followed by a
/// point and at least one more digit.
pub open spec fn spec_is_decimal_token_body(body: Seq<char>) -> bool {
    exists|p: int| 0 < p <= body.len() && #[trigger] decimal_split_at(body, p)
}

/// A token is a plain decimal number when it is an optional minus sign,
/// at least one digit, and optionally a point followed by at least one digit.
pub open spec fn spec_is_decimal_token(s: Seq<char>) -> bool {
    spec_is_decimal_token_body(
        if s.len() > 0 && s[0] == '-' {
            s.skip(1)
        } else {
            s
        },
    )
}

/// Index of the first non-digit at or after `start`, or the length when the
/// rest of the string is digits.
pub fn digit_run_end(s: &str, start: usize) -> (e: usize)
    requires
        start <= s@.len(),
    ensures
        start <= e <= s@.len(),
        forall|j: int| start <= j < e ==> spec_is_digit(#[trigger] s@[j]),
        e < s@.len() ==> !spec_is_digit(s@[e as int]),
{
    let len = s.unicode_len();
    let mut i: usize = start;
    while i < len
        invariant
            len == s@.len(),
            start <= i <= len,
            forall|j: int| start <= j < i ==> spec_is_digit(#[trigger] s@[j]),
        decreases len - i,
    {
        let c = s.get_char(i);
        if c < '0' || c > '9' {
            return i;
        }
        i += 1;
    }
    i
}

/// Decides [`spec_is_decimal_token`] for a string slice.
pub fn is_decimal_token(s: &str) -> (r: bool)
    ensures
        r == spec_is_decimal_token(s@),
{
    let len = s.unicode_len();
    let negative = len > 0 && s.get_char(0) == '-';
    let start: usize = if negative {
        1
    } else {
        0
    };
    let ghost body: Seq<char> = if negative {
        s@.skip(1)
    } else {
        s@
    };
    proof {
        assert(body =~= s@.skip(start as int));
        assert(forall|k: int| 0 <= k < body.len() ==> #[trigger] body[k] == s@[k + start]);
        assert(spec_is_decimal_token(s@) == spec_is_decimal_token_body(body));
    }
    if len == start {
        proof {
            assert(body.len() == 0);
        }
        return false;
    }
    let i = digit_run_end(s, start);
    if i == start {
        proof {
            assert(!spec_is_digit(body[0]));
            assert forall|p: int| 0 < p <= body.len() implies !decimal_split_at(body, p) by {
                assert(!spec_is_digit(body[0]));
            }
        }
        return false;
    }
    if i == len {
        proof {
            let p = i - start;
            assert(decimal_split_at(body, p));
        }
        return true;
    }
    if s.get_char(i) != '.' {
        proof {
            lemma_decimal_reject(body, i - start, s@[i as int]);
        }
        return false;
    }
    if i + 1 == len {
        proof {
            lemma_decimal_short(body, i - start);
        }
        return false;
    }
    let j = digit_run_end(s, i + 1);
    if j < len {
        proof {
            lemma_decimal_bad_fraction(body, i - start, j - start);
        }
        return false;
    }
    proof {
        let p = i - start;
        assert(decimal_split_at(body, p));
    }
    true
}

/// Any digit prefix of `body` stops at or before `stop`, because the
/// character there is neither a digit nor a point.
proof fn lemma_decimal_reject(body: Seq<char>, stop: int, c: char)
    requires
        0 <= stop < body.len(),
        forall|j: int| 0 <= j < stop ==> spec_is_digit(#[trigger] body[j]),
        body[stop] == c,
        !spec_is_digit(c),
        c != '.',
    ensures
        !spec_is_decimal_token_body(body),
{
    assert forall|p: int| 0 < p <= body.len() implies !decimal_split_at(body, p) by {
        if p <= stop {
            assert(body[p] != '.' || p == body.len()) by {
                if p < body.len() && body[p] == '.' {
                    assert(spec_is_digit(body[p]) || body[p] == '.');
                }
            }
            if p < body.len() && body[p] == '.' {
            } else if p == body.len() {
                assert(!spec_is_digit(body[stop]));
            }
        } else {
            assert(!spec_is_digit(body[stop]));
        }
    }
}

/// A trailing point with nothing after it is not a decimal token.
proof fn lemma_decimal_short(body: Seq<char>, dot: int)
    requires
        0 < dot,
        dot == body.len() - 1,
        forall|j: int| 0 <= j < dot ==> spec_is_digit(#[trigger] body[j]),
        body[dot] == '.',
    ensures
        !spec_is_decimal_token_body(body),
{
    assert forall|p: int| 0 < p <= body.len() implies !decimal_split_at(body, p) by {
        if p == body.len() {
            assert(!spec_is_digit(body[dot]));
        } else if p == dot {
        } else {
            assert(!spec_is_digit(body[dot]) && body[p] != '.');
        }
    }
}

/// A non-digit inside the fraction part refutes the whole token.
proof fn lemma_decimal_bad_fraction(body: Seq<char>, dot: int, bad: int)
    requires
        0 < dot < bad < body.len(),
        forall|j: int| 0 <= j < dot ==> spec_is_digit(#[trigger] body[j]),
        body[dot] == '.',
        forall|k: int| dot < k < bad ==> spec_is_digit(#[trigger] body[k]),
        !spec_is_digit(body[bad]),
    ensures
        !spec_is_decimal_token_body(body),
{
    assert forall|p: int| 0 < p <= body.len() implies !decimal_split_at(body, p) by {
        if p == dot {
            assert(!spec_is_digit(body[bad]));
        } else if p < dot {
            assert(body[p] != '.');
        } else {
            assert(!spec_is_digit(body[dot]));
        }
    }
}

} // verus!
