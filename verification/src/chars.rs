//! Properties of characters and texts that the standard library decides.

use vstd::prelude::*;

verus! {

/// The character is alphabetic or numeric, as Unicode defines it.
pub uninterp spec fn is_alphanumeric_char(c: char) -> bool;

/// The character is white space, as Unicode defines it.
pub uninterp spec fn is_whitespace_char(c: char) -> bool;

/// `char::is_alphanumeric` tells whether a character is alphabetic or
/// numeric. The contract gives its answer a name: it depends on the character
/// alone.
pub assume_specification[ char::is_alphanumeric ](c: char) -> (b: bool)
    ensures
        b == is_alphanumeric_char(c),
;

/// `char::is_whitespace` tells whether a character is white space. The
/// contract gives its answer a name: it depends on the character alone.
pub assume_specification[ char::is_whitespace ](c: char) -> (b: bool)
    ensures
        b == is_whitespace_char(c),
;

/// A text in lower case, as Unicode defines it.
pub uninterp spec fn lowercase_of(text: Seq<char>) -> Seq<char>;

/// A text in upper case, as Unicode defines it.
pub uninterp spec fn uppercase_of(text: Seq<char>) -> Seq<char>;

/// `str::to_lowercase` gives a text in lower case. The contract gives the
/// result a name: it depends on the text alone.
pub assume_specification[ str::to_lowercase ](text: &str) -> (lower: String)
    ensures
        lower@ == lowercase_of(text@),
;

/// `str::to_uppercase` gives a text in upper case. The contract gives the
/// result a name: it depends on the text alone.
pub assume_specification[ str::to_uppercase ](text: &str) -> (upper: String)
    ensures
        upper@ == uppercase_of(text@),
;

/// `String::push` puts one character at the end of a text.
pub assume_specification[ String::push ](text: &mut String, c: char)
    ensures
        final(text)@ == old(text)@.push(c),
;

} // verus!
