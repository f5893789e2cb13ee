//! Display widths, as the `unicode-width` crate measures them.

use vstd::prelude::*;
use unicode_width::{UnicodeWidthChar, UnicodeWidthStr};

verus! {

/// A name for the `UnicodeWidthChar::width` of a character beyond ASCII: the
/// columns that it takes, `None` for a control character.
pub uninterp spec fn unicode_char_columns(c: char) -> Option<nat>;

/// A name for the `UnicodeWidthStr::width` of a string that holds more than
/// printable ASCII. It is not the sum over the characters: ligatures and emoji
/// sequences take fewer or more columns than their parts.
pub uninterp spec fn unicode_columns(s: Seq<char>) -> nat;

/// The columns that one character takes, `None` for a control character. A
/// printable ASCII character takes one.
pub open spec fn char_columns(c: char) -> Option<nat> {
    if ' ' <= c && c <= '~' {
        Some(1)
    } else if c <= '\u{7f}' {
        None
    } else {
        unicode_char_columns(c)
    }
}

/// Whether `s` holds only printable ASCII characters.
pub open spec fn printable_ascii(s: Seq<char>) -> bool {
    forall|i: int| 0 <= i < s.len() ==> ' ' <= #[trigger] s[i] && s[i] <= '~'
}

/// The columns that a string takes. Printable ASCII takes one column per
/// character.
pub open spec fn columns(s: Seq<char>) -> nat {
    if printable_ascii(s) {
        s.len()
    } else {
        unicode_columns(s)
    }
}

/// `UnicodeWidthChar::width`: the columns of one character. The crate's table
/// has no entry above three.
#[verifier::external_body]
pub(crate) fn char_width(c: char) -> (r: Option<usize>)
    ensures
        r is Some <==> char_columns(c) is Some,
        r matches Some(n) ==> n as nat == char_columns(c)->0 && n <= 3,
        c > '\u{7f}' ==> (r is Some <==> unicode_char_columns(c) is Some),
        c > '\u{7f}' ==> (r matches Some(n) ==> n as nat == unicode_char_columns(c)->0),
{
    UnicodeWidthChar::width(c)
}

/// `UnicodeWidthStr::width`: the columns of a string. Every printable ASCII
/// character adds one column where nothing else stands in the string.
#[verifier::external_body]
pub(crate) fn str_width(s: &str) -> (r: usize)
    ensures
        r as nat == columns(s@),
        !printable_ascii(s@) ==> r as nat == unicode_columns(s@),
{
    UnicodeWidthStr::width(s)
}

/// The columns of one character, a control character counting `control`.
pub open spec fn char_columns_or(c: char, control: nat) -> nat {
    match char_columns(c) {
        Some(n) => n,
        None => control,
    }
}

/// The columns of one character, a control character counting none.
pub fn char_width_or_zero(c: char) -> (r: usize)
    ensures
        r as nat == char_columns_or(c, 0),
        r <= 3,
        c == ' ' ==> r == 1,
{
    match char_width(c) {
        Some(n) => n,
        None => 0,
    }
}

/// The columns of a string as a screen coordinate, which holds 16 bits of them.
pub fn str_width_u16(s: &str) -> (r: u16)
    ensures
        r as nat == columns(s@) % 65536,
{
    (str_width(s) % 65536) as u16
}

/// Printable ASCII takes a column per character, and a control character what is
/// said of it.
pub proof fn law_ascii_columns(s: Seq<char>, c: char, control: nat)
    ensures
        (forall|i: int| 0 <= i < s.len() ==> ' ' <= #[trigger] s[i] && s[i] <= '~') ==> columns(s)
            == s.len(),
        ' ' <= c && c <= '~' ==> char_columns_or(c, control) == 1,
        c < ' ' ==> char_columns_or(c, control) == control,
        c > '\u{7f}' ==> char_columns(c) == unicode_char_columns(c),
{
}

} // verus!
