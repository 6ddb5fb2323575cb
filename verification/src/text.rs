//! Characters of a string, and the comparisons on them that the rest of the
//! library is built from.

use vstd::prelude::*;

verus! {

/// The code point of `c`, with the ASCII capitals mapped to their small
/// letters and every other character left alone.
pub open spec fn fold_ascii(c: char) -> int {
    if 'A' <= c <= 'Z' {
        c as int + 32
    } else {
        c as int
    }
}

/// Two texts are equal up to the case of their ASCII letters.
pub open spec fn eq_ignore_ascii_case(a: Seq<char>, b: Seq<char>) -> bool {
    &&& a.len() == b.len()
    &&& forall|i: int| 0 <= i < a.len() ==> fold_ascii(#[trigger] a[i]) == fold_ascii(b[i])
}

/// The characters of `s`, in order.
pub fn chars_of(s: &str) -> (out: Vec<char>)
    ensures
        out@ == s@,
{
    let mut out: Vec<char> = Vec::new();
    for c in it: s.chars()
        invariant
            out@ == it.seq().take(it.index() as int),
    {
        out.push(c);
    }
    out
}

/// Computes [`fold_ascii`].
pub fn fold_char(c: char) -> (n: u32)
    ensures
        n == fold_ascii(c),
{
    let n: u32 = c as u32;
    if 65 <= n && n <= 90 {
        n + 32
    } else {
        n
    }
}

/// Compares the part of `text` from `start` on with `pattern`, ignoring the
/// case of ASCII letters.
pub fn tail_eq_ignore_ascii_case(text: &Vec<char>, start: usize, pattern: &Vec<char>) -> (same: bool)
    requires
        start <= text.len(),
    ensures
        same == eq_ignore_ascii_case(text@.subrange(start as int, text.len() as int), pattern@),
{
    let n: usize = text.len() - start;
    if n != pattern.len() {
        return false;
    }
    let ghost tail = text@.subrange(start as int, text.len() as int);
    let mut i: usize = 0;
    while i < n
        invariant
            i <= n,
            n == text.len() - start,
            n == pattern.len(),
            tail == text@.subrange(start as int, text.len() as int),
            forall|j: int| 0 <= j < i ==> fold_ascii(#[trigger] tail[j]) == fold_ascii(pattern@[j]),
        decreases n - i,
    {
        if fold_char(text[start + i]) != fold_char(pattern[i]) {
            assert(fold_ascii(tail[i as int]) != fold_ascii(pattern@[i as int]));
            return false;
        }
        i += 1;
    }
    true
}

} // verus!
