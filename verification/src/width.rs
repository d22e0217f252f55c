//! Display width of characters in monospace terminal columns. Header
//! offsets and field slicing are measured in these units rather than in
//! bytes, so that multi-byte glyphs in data rows stay aligned with the
//! ASCII header above them.

use vstd::prelude::*;
use unicode_width::UnicodeWidthChar;

verus! {

/// The number of terminal columns one character occupies; control
/// characters count as zero.
pub uninterp spec fn display_width(c: char) -> nat;

/// Relies on unicode_width::UnicodeWidthChar::width: the displayed width
/// of a character in columns, a function of the character alone; `None`
/// (control characters) is taken as zero width. The crate's width tables
/// store two-bit entries with a largest special case of three, so no
/// character is wider than three columns, and their first branch returns
/// one for the whole printable ASCII range (everything below the first
/// control character at delete and at or above the space).
#[verifier::external_body]
pub(crate) fn char_display_width(c: char) -> (w: usize)
    ensures
        w == display_width(c),
        w <= 3,
        32 <= c as u32 <= 126 ==> w == 1,
{
    UnicodeWidthChar::width(c).unwrap_or(0)
}

/// The total display width of the first `k` characters of `s`.
pub open spec fn width_sum(s: Seq<char>, k: int) -> int
    decreases k,
{
    if k <= 0 {
        0
    } else {
        width_sum(s, k - 1) + display_width(s[k - 1])
    }
}

} // verus!
