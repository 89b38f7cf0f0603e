//! Whitespace in texts: where it ends, where it begins, and the text without
//! the whitespace around it.

use vstd::prelude::*;
use vstd::string::StrSliceExecFns;

verus! {

/// Whether the character is whitespace.
pub uninterp spec fn white_space(c: char) -> bool;

/// Asks `char::is_whitespace`, which tells whether a character has the
/// Unicode property of being white space.
#[verifier::external_body]
pub(crate) fn is_white_space(c: char) -> (r: bool)
    ensures
        r == white_space(c),
{
    c.is_whitespace()
}

/// The first place at or after `from` that holds no whitespace.
pub open spec fn skip_spaces(s: Seq<char>, from: int) -> int
    decreases s.len() - from,
{
    if 0 <= from < s.len() && white_space(s[from]) {
        skip_spaces(s, from + 1)
    } else {
        from
    }
}

/// The first place at or after `from` that holds whitespace.
pub open spec fn skip_word(s: Seq<char>, from: int) -> int
    decreases s.len() - from,
{
    if 0 <= from < s.len() && !white_space(s[from]) {
        skip_word(s, from + 1)
    } else {
        from
    }
}

/// The end of the text between `from` and `to` once its trailing whitespace is
/// dropped.
pub open spec fn drop_spaces(s: Seq<char>, from: int, to: int) -> int
    decreases to - from,
{
    if 0 <= from < to <= s.len() && white_space(s[to - 1]) {
        drop_spaces(s, from, to - 1)
    } else {
        to
    }
}

/// The text without its leading and trailing whitespace.
pub open spec fn trimmed(s: Seq<char>) -> Seq<char> {
    let from = skip_spaces(s, 0);
    s.subrange(from, drop_spaces(s, from, s.len() as int))
}

/// The first place at or after `from` that holds no whitespace.
pub(crate) fn past_spaces(s: &str, n: usize, from: usize) -> (r: usize)
    requires
        n == s@.len(),
        from <= n,
    ensures
        r == skip_spaces(s@, from as int),
        from <= r <= n,
{
    let mut i = from;
    let mut open = true;
    while open && i < n
        invariant
            n == s@.len(),
            from <= i <= n,
            skip_spaces(s@, from as int) == skip_spaces(s@, i as int),
            !open ==> skip_spaces(s@, i as int) == i,
        decreases (if open { 1int } else { 0int }), n - i,
    {
        if is_white_space(s.get_char(i)) {
            i = i + 1;
        } else {
            open = false;
        }
    }
    i
}

/// The first place at or after `from` that holds whitespace.
pub(crate) fn past_word(s: &str, n: usize, from: usize) -> (r: usize)
    requires
        n == s@.len(),
        from <= n,
    ensures
        r == skip_word(s@, from as int),
        from <= r <= n,
{
    let mut i = from;
    let mut open = true;
    while open && i < n
        invariant
            n == s@.len(),
            from <= i <= n,
            skip_word(s@, from as int) == skip_word(s@, i as int),
            !open ==> skip_word(s@, i as int) == i,
        decreases (if open { 1int } else { 0int }), n - i,
    {
        if is_white_space(s.get_char(i)) {
            open = false;
        } else {
            i = i + 1;
        }
    }
    i
}

/// The end of the text between `from` and `to` once its trailing whitespace is
/// dropped.
pub(crate) fn before_spaces(s: &str, from: usize, to: usize) -> (r: usize)
    requires
        from <= to <= s@.len(),
    ensures
        r == drop_spaces(s@, from as int, to as int),
        from <= r <= to,
{
    let mut i = to;
    let mut open = true;
    while open && from < i
        invariant
            from <= i <= to <= s@.len(),
            drop_spaces(s@, from as int, to as int) == drop_spaces(s@, from as int, i as int),
            !open ==> drop_spaces(s@, from as int, i as int) == i,
        decreases (if open { 1int } else { 0int }), i - from,
    {
        if is_white_space(s.get_char(i - 1)) {
            i = i - 1;
        } else {
            open = false;
        }
    }
    i
}

/// The text without the whitespace around it.
pub fn trim<'a>(s: &'a str) -> (r: &'a str)
    ensures
        r@ == trimmed(s@),
{
    let n = s.unicode_len();
    let from = past_spaces(s, n, 0);
    let to = before_spaces(s, from, n);
    s.substring_char(from, to)
}

} // verus!
