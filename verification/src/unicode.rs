//! The character tests and case mappings of the standard library that the
//! conversions rest on.
//!
//! Each of them is a table of the Unicode Character Database, far too long to
//! write down here, so each gets a name. Nothing in this crate says what a name
//! is on a given character; the items below only tie the names to the standard
//! library's functions.

use vstd::prelude::*;

verus! {

/// What `char::is_uppercase` returns for `c`: whether `c` has the Unicode
/// property `Uppercase`.
pub uninterp spec fn char_is_uppercase(c: char) -> bool;

/// What `char::is_lowercase` returns for `c`: whether `c` has the Unicode
/// property `Lowercase`.
pub uninterp spec fn char_is_lowercase(c: char) -> bool;

/// What `char::is_numeric` returns for `c`: whether `c` is in one of the
/// general categories for numbers (`Nd`, `Nl`, `No`).
pub uninterp spec fn char_is_numeric(c: char) -> bool;

/// What `char::to_lowercase` yields for `c`: its lowercase mapping, which may
/// be longer than one character.
pub uninterp spec fn char_to_lowercase(c: char) -> Seq<char>;

/// What `char::to_uppercase` yields for `c`: its uppercase mapping, which may
/// be longer than one character.
pub uninterp spec fn char_to_uppercase(c: char) -> Seq<char>;

/// What the boundary rules read of one character.
#[derive(Clone, Copy, Debug, PartialEq, Eq, Structural)]
pub struct CharClass {
    pub uppercase: bool,
    pub lowercase: bool,
    pub numeric: bool,
}

/// The class of `c`, by the names above.
pub open spec fn class_of(c: char) -> CharClass {
    CharClass {
        uppercase: char_is_uppercase(c),
        lowercase: char_is_lowercase(c),
        numeric: char_is_numeric(c),
    }
}

/// `char::is_uppercase` decides what `char_is_uppercase` names.
pub assume_specification[ char::is_uppercase ](c: char) -> (r: bool)
    ensures
        r == char_is_uppercase(c),
;

/// `char::is_lowercase` decides what `char_is_lowercase` names.
pub assume_specification[ char::is_lowercase ](c: char) -> (r: bool)
    ensures
        r == char_is_lowercase(c),
;

/// `char::is_numeric` decides what `char_is_numeric` names.
pub assume_specification[ char::is_numeric ](c: char) -> (r: bool)
    ensures
        r == char_is_numeric(c),
;

/// `String::push` appends one character and leaves the rest as it was.
pub assume_specification[ String::push ](s: &mut String, c: char)
    ensures
        final(s)@ == old(s)@.push(c),
;

/// Collects what `char::to_lowercase` yields for `c`: the mapping that
/// `char_to_lowercase` names.
#[verifier::external_body]
pub(crate) fn lowercase_of(c: char) -> (r: String)
    ensures
        r@ == char_to_lowercase(c),
{
    c.to_lowercase().collect()
}

/// Collects what `char::to_uppercase` yields for `c`: the mapping that
/// `char_to_uppercase` names.
#[verifier::external_body]
pub(crate) fn uppercase_of(c: char) -> (r: String)
    ensures
        r@ == char_to_uppercase(c),
{
    c.to_uppercase().collect()
}

/// Looks up the class of `c`.
pub fn classify(c: char) -> (k: CharClass)
    ensures
        k == class_of(c),
{
    CharClass { uppercase: c.is_uppercase(), lowercase: c.is_lowercase(), numeric: c.is_numeric() }
}

} // verus!
