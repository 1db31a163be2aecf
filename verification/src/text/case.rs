//! Letter case, in Unicode's sense.

use vstd::prelude::*;

use crate::text::chars::upper_ascii;
use crate::text::replace::lower;

verus! {

/// Every character of `s` is an ASCII character.
pub open spec fn ascii(s: Seq<char>) -> bool {
    forall|i: int| 0 <= i < s.len() ==> (#[trigger] s[i] as u32) < 0x80
}

/// `s` with its small ASCII letters made capital.
pub open spec fn upper(s: Seq<char>) -> Seq<char> {
    Seq::new(s.len(), |i: int| upper_ascii(s[i]))
}

/// The uppercase equivalent of a text, by Unicode's mapping.
pub uninterp spec fn uppercase(s: Seq<char>) -> Seq<char>;

/// The lowercase equivalent of a text, by Unicode's mapping.
pub uninterp spec fn lowercase(s: Seq<char>) -> Seq<char>;

/// Calls `str::to_uppercase`. The result depends on the text alone and is
/// named `uppercase`; of an ASCII text only the small letters change, each to
/// its capital.
#[verifier::external_body]
pub(crate) fn to_uppercase(s: &str) -> (r: String)
    ensures
        r@ == uppercase(s@),
        ascii(s@) ==> r@ == upper(s@),
{
    s.to_uppercase()
}

/// Calls `str::to_lowercase`. The result depends on the text alone and is
/// named `lowercase`; of an ASCII text only the capitals change, each to its
/// small letter.
#[verifier::external_body]
pub(crate) fn to_lowercase(s: &str) -> (r: String)
    ensures
        r@ == lowercase(s@),
        ascii(s@) ==> r@ == lower(s@),
{
    s.to_lowercase()
}

/// A letter or a number in Unicode's sense (its properties `Alphabetic` and `Numeric`).
pub uninterp spec fn alphanumeric(c: char) -> bool;

/// Calls `char::is_alphanumeric`. The result depends on the character alone
/// and is named `alphanumeric`; of the ASCII characters it holds of the
/// letters and digits.
#[verifier::external_body]
pub(crate) fn is_alphanumeric(c: char) -> (r: bool)
    ensures
        r == alphanumeric(c),
        (c as u32) < 0x80 ==> r == (crate::text::chars::letter(c) || crate::text::chars::digit(c)),
{
    c.is_alphanumeric()
}

} // verus!
