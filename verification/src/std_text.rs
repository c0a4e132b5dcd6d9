//! What is taken on trust of the standard library's character and string
//! functions that the library calls and for which vstd has no specification.
//! Nothing here is proved: each contract restates the function's
//! documentation.

use vstd::prelude::*;

verus! {

/// Whether `c` is a control character, which is to say of the general
/// category `Cc`: the code points U+0000 to U+001F and U+007F to U+009F.
pub open spec fn is_control_char(c: char) -> bool {
    c as u32 <= 0x1F || 0x7F <= c as u32 <= 0x9F
}

/// Whether `c` is white space: the result of `char::is_whitespace`.
pub uninterp spec fn is_whitespace_char(c: char) -> bool;

/// `char::is_control` of std tells whether a character has the general
/// category of control codes, `Cc`. Unicode assigns that category to the 65
/// code points U+0000 to U+001F and U+007F to U+009F and to no other, and
/// has fixed it for good; the contract claims that the answer is `true` for
/// exactly these.
pub assume_specification[ char::is_control ](c: char) -> (control: bool)
    ensures
        control == is_control_char(c),
;

/// `char::is_whitespace` of std tells whether a character has the Unicode
/// property `White_Space`. The answer depends on the character alone; the
/// contract gives it a name and claims nothing more.
pub assume_specification[ char::is_whitespace ](c: char) -> (blank: bool)
    ensures
        blank == is_whitespace_char(c),
;

/// `String::push` of std appends one character to the end of a string.
pub assume_specification[ String::push ](s: &mut String, c: char)
    ensures
        final(s)@ == old(s)@.push(c),
;

} // verus!
