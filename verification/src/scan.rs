//! Character classification and run scanning over text lines.
//!
//! A log line is modelled as a `Seq<char>`. The grammar is built from runs:
//! a run of spaces, a run of decimal digits, a run of non-space characters.
//! Each scanner here has a spec-level definition (`spaces_end`, `digits_end`,
//! `nonspace_end`) and an executable counterpart proved to match it.

use vstd::prelude::*;

verus! {

/// The field separator of the line grammar: the ASCII space character.
pub open spec fn is_space(c: char) -> bool {
    c == ' '
}

/// A decimal digit `'0'..='9'`.
pub open spec fn is_digit(c: char) -> bool {
    '0' <= c && c <= '9'
}

/// Numeric value of one decimal digit.
pub open spec fn digit_value(c: char) -> nat {
    (c as nat - '0' as nat) as nat
}

/// Index of the first character at or after `i` that is not a space
/// (or `s.len()` if the rest of the line is spaces).
pub open spec fn spaces_end(s: Seq<char>, i: int) -> int
    decreases s.len() - i,
{
    if 0 <= i < s.len() && is_space(s[i]) {
        spaces_end(s, i + 1)
    } else {
        i
    }
}

/// Index of the first character at or after `i` that is not a digit.
pub open spec fn digits_end(s: Seq<char>, i: int) -> int
    decreases s.len() - i,
{
    if 0 <= i < s.len() && is_digit(s[i]) {
        digits_end(s, i + 1)
    } else {
        i
    }
}

/// Index of the first space at or after `i` (or `s.len()`).
pub open spec fn nonspace_end(s: Seq<char>, i: int) -> int
    decreases s.len() - i,
{
    if 0 <= i < s.len() && !is_space(s[i]) {
        nonspace_end(s, i + 1)
    } else {
        i
    }
}

/// Value of a sequence of decimal digits read most-significant first.
pub open spec fn digits_seq_value(s: Seq<char>) -> nat
    decreases s.len(),
{
    if s.len() == 0 {
        0
    } else {
        digits_seq_value(s.drop_last()) * 10 + digit_value(s.last())
    }
}

fn is_space_exec(c: char) -> (r: bool)
    ensures
        r == is_space(c),
{
    c == ' '
}

fn is_digit_exec(c: char) -> (r: bool)
    ensures
        r == is_digit(c),
{
    '0' <= c && c <= '9'
}

/// Advance over the run of spaces that starts at `i`.
pub fn skip_spaces(s: &str, i: usize, n: usize) -> (j: usize)
    requires
        i <= n,
        n == s@.len(),
    ensures
        j == spaces_end(s@, i as int),
        i <= j <= n,
{
    let mut j: usize = i;
    while j < n && is_space_exec(s.get_char(j))
        invariant
            i <= j <= n,
            n == s@.len(),
            spaces_end(s@, i as int) == spaces_end(s@, j as int),
        decreases n - j,
    {
        j = j + 1;
    }
    j
}

/// Advance over the run of decimal digits that starts at `i`.
pub fn skip_digits(s: &str, i: usize, n: usize) -> (j: usize)
    requires
        i <= n,
        n == s@.len(),
    ensures
        j == digits_end(s@, i as int),
        i <= j <= n,
{
    let mut j: usize = i;
    while j < n && is_digit_exec(s.get_char(j))
        invariant
            i <= j <= n,
            n == s@.len(),
            digits_end(s@, i as int) == digits_end(s@, j as int),
        decreases n - j,
    {
        j = j + 1;
    }
    j
}

/// Advance over the run of non-space characters that starts at `i`.
pub fn skip_nonspace(s: &str, i: usize, n: usize) -> (j: usize)
    requires
        i <= n,
        n == s@.len(),
    ensures
        j == nonspace_end(s@, i as int),
        i <= j <= n,
{
    let mut j: usize = i;
    while j < n && !is_space_exec(s.get_char(j))
        invariant
            i <= j <= n,
            n == s@.len(),
            nonspace_end(s@, i as int) == nonspace_end(s@, j as int),
        decreases n - j,
    {
        j = j + 1;
    }
    j
}

} // verus!
