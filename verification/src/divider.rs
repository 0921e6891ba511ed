//! The divider transform: lowercase text with a divider at every word
//! boundary, which gives snake_case and kebab-case.

use vstd::prelude::*;
use vstd::std_specs::iter::IteratorSpec;
use vstd::string::*;
use crate::unicode::{CharClass, char_is_uppercase, char_to_lowercase, class_of, classify, lowercase_of};

verus! {

/// Where a word boundary lies at a character that is not a delimiter.
#[derive(Clone, Copy, Debug, PartialEq, Eq, Structural)]
pub enum Boundary {
    /// The character stays inside its word.
    Absent,
    /// A word begins with the character: the last capital of a run of
    /// capitals, with a lowercase character after it.
    Before,
    /// A word ends with the character: a lowercase character with a capital
    /// or a number after it.
    After,
}

/// The two characters that the input may already use between words.
pub open spec fn is_delimiter(c: char) -> bool {
    c == '_' || c == '-'
}

/// The boundary at a character of class `current`, where
/// `previous_was_uppercase` tells of the character before it and `upcoming`
/// is the class of the character after it, if there is one.
pub open spec fn boundary(
    previous_was_uppercase: bool,
    current: CharClass,
    upcoming: Option<CharClass>,
) -> Boundary {
    if previous_was_uppercase && current.uppercase && upcoming is Some && upcoming->0.lowercase {
        Boundary::Before
    } else if current.lowercase && upcoming is Some && (upcoming->0.uppercase
        || upcoming->0.numeric) {
        Boundary::After
    } else {
        Boundary::Absent
    }
}

/// Whether the nearest character before position `i` that is not a delimiter
/// is uppercase. Delimiters carry no case, so the scan looks past them.
pub open spec fn follows_uppercase(s: Seq<char>, i: int) -> bool
    recommends
        0 <= i <= s.len(),
    decreases i,
{
    if i <= 0 {
        false
    } else if is_delimiter(s[i - 1]) {
        follows_uppercase(s, i - 1)
    } else {
        char_is_uppercase(s[i - 1])
    }
}

/// The class of the character after position `i`, if there is one.
pub open spec fn upcoming_class(s: Seq<char>, i: int) -> Option<CharClass> {
    if i + 1 < s.len() {
        Some(class_of(s[i + 1]))
    } else {
        None
    }
}

/// The boundary at position `i` of `s`.
pub open spec fn boundary_at(s: Seq<char>, i: int) -> Boundary {
    boundary(follows_uppercase(s, i), class_of(s[i]), upcoming_class(s, i))
}

/// A lowercased character with the divider that its boundary asks for.
pub open spec fn framed(b: Boundary, lowered: Seq<char>, divider: char) -> Seq<char> {
    match b {
        Boundary::Absent => lowered,
        Boundary::Before => seq![divider] + lowered,
        Boundary::After => lowered.push(divider),
    }
}

/// What the character at position `i` of `s` contributes to the output: the
/// divider for a delimiter, else its lowercase mapping, framed.
pub open spec fn piece(s: Seq<char>, i: int, divider: char) -> Seq<char> {
    if is_delimiter(s[i]) {
        seq![divider]
    } else {
        framed(boundary_at(s, i), char_to_lowercase(s[i]), divider)
    }
}

/// The pieces of the first `n` characters of `s`, one after the other.
pub open spec fn divided_prefix(s: Seq<char>, n: int, divider: char) -> Seq<char>
    decreases n,
{
    if n <= 0 {
        Seq::empty()
    } else {
        divided_prefix(s, n - 1, divider) + piece(s, n - 1, divider)
    }
}

/// The divider transform of `s`: the pieces of all its characters.
pub open spec fn divider_transform(s: Seq<char>, divider: char) -> Seq<char> {
    divided_prefix(s, s.len() as int, divider)
}

/// Decides the boundary at one character from what the scan knows there.
pub fn boundary_of(
    previous_was_uppercase: bool,
    current: CharClass,
    upcoming: Option<CharClass>,
) -> (b: Boundary)
    ensures
        b == boundary(previous_was_uppercase, current, upcoming),
{
    let upcoming_is_lowercase = match upcoming {
        Some(k) => k.lowercase,
        None => false,
    };
    let upcoming_is_other = match upcoming {
        Some(k) => k.uppercase || k.numeric,
        None => false,
    };
    if previous_was_uppercase && current.uppercase && upcoming_is_lowercase {
        Boundary::Before
    } else if current.lowercase && upcoming_is_other {
        Boundary::After
    } else {
        Boundary::Absent
    }
}

/// Appends a lowercased character to `out`, with the divider on the side
/// that the boundary `b` names.
pub fn push_framed(out: &mut String, b: Boundary, lowered: &str, divider: char)
    ensures
        final(out)@ == old(out)@ + framed(b, lowered@, divider),
{
    match b {
        Boundary::Absent => {
            out.append(lowered);
        },
        Boundary::Before => {
            out.push(divider);
            out.append(lowered);
        },
        Boundary::After => {
            out.append(lowered);
            out.push(divider);
        },
    }
}

/// Converts `s` to lowercase words joined by `divider`.
///
/// The scan goes through `s` once, with one character of lookahead. Every
/// input is accepted, and the result depends on the characters of `s` and on
/// `divider` alone.
pub fn apply_divider_transform(s: &str, divider: char) -> (out: String)
    ensures
        out@ == divider_transform(s@, divider),
{
    broadcast use vstd::string::group_string_axioms;

    let mut out = String::new();
    let mut chars = s.chars();
    let mut current = chars.next();
    let mut previous_was_uppercase = false;
    let ghost mut i: int = 0;
    loop
        invariant_except_break
            0 <= i <= s@.len(),
            current == (if i < s@.len() { Some(s@[i]) } else { None }),
            i < s@.len() ==> chars.remaining() == s@.skip(i + 1),
            out@ == divided_prefix(s@, i, divider),
            previous_was_uppercase == follows_uppercase(s@, i),
        ensures
            out@ == divider_transform(s@, divider),
        decreases s@.len() - i,
    {
        let character = match current {
            Some(c) => c,
            None => {
                break;
            },
        };
        let upcoming = chars.next();
        if character == '_' || character == '-' {
            out.push(divider);
        } else {
            let class = classify(character);
            let upcoming_class = match upcoming {
                Some(c) => Some(classify(c)),
                None => None,
            };
            let b = boundary_of(previous_was_uppercase, class, upcoming_class);
            let lowered = lowercase_of(character);
            push_framed(&mut out, b, lowered.as_str(), divider);
            previous_was_uppercase = class.uppercase;
        }
        current = upcoming;
        proof {
            i = i + 1;
        }
    }
    out
}

} // verus!
