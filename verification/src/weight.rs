//! The weight that a sidecar holds: a decimal number, read from text.

use vstd::prelude::*;
use crate::text::chars_of;

verus! {

/// Why a text is not a weight.
#[derive(Clone, Copy, Debug, PartialEq, Eq, Structural)]
pub enum WeightError {
    /// Nothing is left once the surrounding white space is taken off.
    Empty,
    /// A character that is no decimal digit, or a sign without digits.
    InvalidDigit,
    /// A number too large for `usize`.
    Overflow,
}

/// White space, as Unicode defines it.
pub open spec fn is_space(c: char) -> bool {
    let n = c as int;
    ||| 0x09 <= n <= 0x0D
    ||| n == 0x20
    ||| n == 0x85
    ||| n == 0xA0
    ||| n == 0x1680
    ||| 0x2000 <= n <= 0x200A
    ||| n == 0x2028
    ||| n == 0x2029
    ||| n == 0x202F
    ||| n == 0x205F
    ||| n == 0x3000
}

/// `s` without the white space that it begins with.
pub open spec fn trim_start(s: Seq<char>) -> Seq<char>
    decreases s.len(),
{
    if s.len() > 0 && is_space(s[0]) {
        trim_start(s.drop_first())
    } else {
        s
    }
}

/// `s` without the white space that it ends with.
pub open spec fn trim_end(s: Seq<char>) -> Seq<char>
    decreases s.len(),
{
    if s.len() > 0 && is_space(s.last()) {
        trim_end(s.drop_last())
    } else {
        s
    }
}

/// `s` without the white space around it.
pub open spec fn trim(s: Seq<char>) -> Seq<char> {
    trim_end(trim_start(s))
}

/// One of the ten ASCII digits.
pub open spec fn is_digit(c: char) -> bool {
    '0' <= c <= '9'
}

/// Every character of `s` is a digit.
pub open spec fn all_digits(s: Seq<char>) -> bool {
    forall|i: int| 0 <= i < s.len() ==> is_digit(#[trigger] s[i])
}

/// The number that a digit stands for.
pub open spec fn digit_value(c: char) -> nat {
    (c as int - '0' as int) as nat
}

/// The number that a sequence of digits writes in base ten. The empty
/// sequence writes zero.
pub open spec fn decimal_value(s: Seq<char>) -> nat
    decreases s.len(),
{
    if s.len() == 0 {
        0
    } else {
        10 * decimal_value(s.drop_last()) + digit_value(s.last())
    }
}

/// The digits of a text: what is left of it without the white space around
/// it and without one leading plus sign.
pub open spec fn digits_of(text: Seq<char>) -> Seq<char> {
    let t = trim(text);
    if t.len() > 0 && t[0] == '+' {
        t.drop_first()
    } else {
        t
    }
}

/// The weight that a text holds, or why it holds none.
pub open spec fn weight_of(text: Seq<char>) -> Result<nat, WeightError> {
    let digits = digits_of(text);
    if trim(text).len() == 0 {
        Err(WeightError::Empty)
    } else if digits.len() == 0 || !all_digits(digits) {
        Err(WeightError::InvalidDigit)
    } else if decimal_value(digits) > usize::MAX {
        Err(WeightError::Overflow)
    } else {
        Ok(decimal_value(digits))
    }
}

/// A number is no smaller than the number that its first `i` digits write.
pub proof fn lemma_prefix_value(s: Seq<char>, i: int)
    requires
        0 <= i <= s.len(),
    ensures
        decimal_value(s.take(i)) <= decimal_value(s),
    decreases s.len() - i,
{
    if i == s.len() {
        assert(s.take(i) =~= s);
    } else {
        lemma_prefix_value(s, i + 1);
        assert(s.take(i + 1).drop_last() =~= s.take(i));
    }
}

/// Computes [`is_space`].
pub fn is_space_char(c: char) -> (space: bool)
    ensures
        space == is_space(c),
{
    let n: u32 = c as u32;
    (0x09 <= n && n <= 0x0D) || n == 0x20 || n == 0x85 || n == 0xA0 || n == 0x1680 || (0x2000 <= n
        && n <= 0x200A) || n == 0x2028 || n == 0x2029 || n == 0x202F || n == 0x205F || n == 0x3000
}

/// The bounds of [`trim`]: `text` without the white space around it runs
/// from `lo` up to `hi`.
pub fn trim_bounds(text: &Vec<char>) -> (bounds: (usize, usize))
    ensures
        bounds.0 <= bounds.1 <= text.len(),
        text@.subrange(bounds.0 as int, bounds.1 as int) == trim(text@),
{
    let n: usize = text.len();
    let mut lo: usize = 0;
    assert(text@.subrange(0, n as int) =~= text@);
    while lo < n && is_space_char(text[lo])
        invariant
            lo <= n,
            n == text.len(),
            trim_start(text@) == trim_start(text@.subrange(lo as int, n as int)),
        decreases n - lo,
    {
        assert(text@.subrange(lo as int, n as int).drop_first() =~= text@.subrange(
            lo as int + 1,
            n as int,
        ));
        lo += 1;
    }
    let ghost rest = text@.subrange(lo as int, n as int);
    assert(trim_start(text@) == rest);
    let mut hi: usize = n;
    while hi > lo && is_space_char(text[hi - 1])
        invariant
            lo <= hi <= n,
            n == text.len(),
            rest == text@.subrange(lo as int, n as int),
            trim_end(rest) == trim_end(text@.subrange(lo as int, hi as int)),
        decreases hi,
    {
        assert(text@.subrange(lo as int, hi as int).drop_last() =~= text@.subrange(
            lo as int,
            hi as int - 1,
        ));
        hi -= 1;
    }
    (lo, hi)
}

/// Reads the weight that `text` holds.
///
/// The text is a decimal number in ASCII digits. White space around it is
/// passed over, and one plus sign may stand before the digits. Anything else
/// is an error, and so is a number that does not fit.
pub fn parse_weight(text: &str) -> (parsed: Result<usize, WeightError>)
    ensures
        match parsed {
            Ok(w) => weight_of(text@) == Ok::<nat, WeightError>(w as nat),
            Err(e) => weight_of(text@) == Err::<nat, WeightError>(e),
        },
{
    let chars = chars_of(text);
    let (lo, hi) = trim_bounds(&chars);
    if lo == hi {
        return Err(WeightError::Empty);
    }
    let start: usize = if chars[lo] == '+' {
        lo + 1
    } else {
        lo
    };
    let ghost digits = chars@.subrange(start as int, hi as int);
    assert(digits =~= digits_of(text@));
    if start == hi {
        return Err(WeightError::InvalidDigit);
    }
    let mut i: usize = start;
    while i < hi
        invariant
            start <= i <= hi <= chars.len(),
            digits == chars@.subrange(start as int, hi as int),
            digits == digits_of(text@),
            trim(text@).len() > 0,
            forall|j: int| 0 <= j < i - start ==> is_digit(#[trigger] digits[j]),
        decreases hi - i,
    {
        let c: char = chars[i];
        assert(c == digits[i - start]);
        if c < '0' || c > '9' {
            return Err(WeightError::InvalidDigit);
        }
        i += 1;
    }
    let mut value: usize = 0;
    let mut k: usize = start;
    while k < hi
        invariant
            start <= k <= hi <= chars.len(),
            digits == chars@.subrange(start as int, hi as int),
            digits == digits_of(text@),
            trim(text@).len() > 0,
            all_digits(digits),
            value == decimal_value(digits.take(k - start)),
        decreases hi - k,
    {
        let c: char = chars[k];
        proof {
            assert(c == digits[k - start]);
            assert(is_digit(c));
            assert(digits.take(k - start + 1).drop_last() =~= digits.take(k - start));
            lemma_prefix_value(digits, k - start + 1);
        }
        let d: usize = (c as u32 - 48) as usize;
        let next = match value.checked_mul(10) {
            Some(tens) => tens.checked_add(d),
            None => None,
        };
        match next {
            Some(v) => {
                value = v;
            },
            None => {
                return Err(WeightError::Overflow);
            },
        }
        k += 1;
    }
    assert(digits.take(hi - start) =~= digits);
    Ok(value)
}

} // verus!
