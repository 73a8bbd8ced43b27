//! Trimming and substring search: what they mean, and the calls that do them.

use vstd::prelude::*;

verus! {

/// Whether `c` has the Unicode property White_Space.
pub open spec fn is_white_space(c: char) -> bool {
    let n = c as u32;
    (0x0009 <= n <= 0x000D) || n == 0x0020 || n == 0x0085 || n == 0x00A0 || n == 0x1680
        || (0x2000 <= n <= 0x200A) || n == 0x2028 || n == 0x2029 || n == 0x202F
        || n == 0x205F || n == 0x3000
}

/// Whether the characters of `s` from `from` up to, but not including, `to`
/// are all white space.
pub open spec fn white_space_between(s: Seq<char>, from: int, to: int) -> bool {
    forall|i: int| from <= i < to ==> is_white_space(#[trigger] s[i])
}

/// Whether `t` is the slice of `s` from `a` to `b`, and that slice is what
/// trimming leaves: it neither starts nor ends with white space, and there
/// is nothing but white space before and after it.
pub open spec fn trims_at(s: Seq<char>, t: Seq<char>, a: int, b: int) -> bool {
    &&& 0 <= a <= b <= s.len()
    &&& t == s.subrange(a, b)
    &&& white_space_between(s, 0, a)
    &&& white_space_between(s, b, s.len() as int)
    &&& a < b ==> !is_white_space(s[a]) && !is_white_space(s[b - 1])
}

/// Whether `t` is `s` with its leading and trailing white space removed.
pub open spec fn is_trim_of(s: Seq<char>, t: Seq<char>) -> bool {
    exists|a: int, b: int| #[trigger] trims_at(s, t, a, b)
}

/// Whether `pat` stands in `s` at position `i`.
pub open spec fn occurs_at(pat: Seq<char>, s: Seq<char>, i: int) -> bool {
    0 <= i && i + pat.len() <= s.len() && s.subrange(i, i + pat.len()) == pat
}

/// Whether `pat` occurs in `s` as a contiguous run of characters.
pub open spec fn occurs_in(pat: Seq<char>, s: Seq<char>) -> bool {
    exists|i: int| #[trigger] occurs_at(pat, s, i)
}

/// Calls `str::trim`. Trusted: the result is the argument without its leading
/// and trailing white space, white space being the characters with the Unicode
/// property White_Space.
#[verifier::external_body]
pub(crate) fn trim(s: &str) -> (t: &str)
    ensures
        is_trim_of(s@, t@),
{
    s.trim()
}

/// Calls `str::contains` with a string pattern. Trusted: the result says
/// whether the pattern matches a contiguous part of the string.
#[verifier::external_body]
pub(crate) fn contains(s: &str, pat: &str) -> (found: bool)
    ensures
        found == occurs_in(pat@, s@),
{
    s.contains(pat)
}

} // verus!
