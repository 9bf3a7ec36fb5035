//! Character classes and conversions used by the panes and the router.

use vstd::prelude::*;

verus! {

/// Backspace, the erase key.
pub const ERASE_KEY: char = '\u{8}';

/// The erase sentinel: the content of a blank cell.
pub const BLANK: char = '\0';

/// Whether `c` is alphanumeric as the standard library classifies
/// characters: a Unicode letter or number.
pub uninterp spec fn alphanumeric(c: char) -> bool;

/// Calls `char::is_alphanumeric` of the standard library. Trusted: the
/// result is the library's own classification of `c`, which this crate
/// names `alphanumeric` and does not define.
#[verifier::external_body]
pub(crate) fn is_alphanumeric(c: char) -> (r: bool)
    ensures
        r == alphanumeric(c),
{
    c.is_alphanumeric()
}

/// Whether the display can draw `c`: its low eight bits lie between the
/// space and the tilde.
pub open spec fn drawable(c: char) -> bool {
    0x20 <= c as u8 <= 0x7e
}

/// Whether the display can draw `c`.
pub fn is_drawable(c: char) -> (r: bool)
    ensures
        r == drawable(c),
{
    let b: u8 = #[verifier::truncate] (c as u8);
    0x20 <= b && b <= 0x7e
}

/// The character that shows the decimal digit `d`.
pub open spec fn digit_char(d: int) -> char {
    (48 + d) as char
}

/// The character that shows the decimal digit `d`.
pub(crate) fn digit_to_char(d: u8) -> (c: char)
    requires
        d < 10,
    ensures
        c == digit_char(d as int),
{
    (48u8 + d) as char
}

} // verus!
