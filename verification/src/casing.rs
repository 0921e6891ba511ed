//! The case transform: text without underscores, in which a capital marks
//! where each underscore stood, which gives camelCase and PascalCase.

use vstd::prelude::*;
use vstd::std_specs::iter::IteratorSpec;
use vstd::string::*;
use crate::unicode::{char_to_uppercase, uppercase_of};

verus! {

/// Whether the character at position `i` of `s` begins a word: it stands
/// right after an underscore, or it is the first character and
/// `uppercase_first` asks for a capital there.
pub open spec fn begins_word(s: Seq<char>, i: int, uppercase_first: bool) -> bool {
    if i <= 0 {
        uppercase_first
    } else {
        s[i - 1] == '_'
    }
}

/// What the character at position `i` of `s` contributes to the output:
/// nothing for an underscore, its uppercase mapping where it begins a word,
/// else the character as it is.
pub open spec fn cased_piece(s: Seq<char>, i: int, uppercase_first: bool) -> Seq<char> {
    if s[i] == '_' {
        Seq::empty()
    } else if begins_word(s, i, uppercase_first) {
        char_to_uppercase(s[i])
    } else {
        seq![s[i]]
    }
}

/// The pieces of the first `n` characters of `s`, one after the other.
pub open spec fn cased_prefix(s: Seq<char>, n: int, uppercase_first: bool) -> Seq<char>
    decreases n,
{
    if n <= 0 {
        Seq::empty()
    } else {
        cased_prefix(s, n - 1, uppercase_first) + cased_piece(s, n - 1, uppercase_first)
    }
}

/// The case transform of `s`: the pieces of all its characters.
pub open spec fn case_transform(s: Seq<char>, uppercase_first: bool) -> Seq<char> {
    cased_prefix(s, s.len() as int, uppercase_first)
}

/// Removes the underscores of `s` and puts a capital where each word begins.
///
/// Only an underscore ends a word here: a hyphen, a digit and a capital
/// inside a word pass through as they are. With `uppercase_first` the first
/// word gets its capital too. Every input is accepted, and the result depends
/// on the characters of `s` and on `uppercase_first` alone.
pub fn apply_case_transform(s: &str, uppercase_first: bool) -> (out: String)
    ensures
        out@ == case_transform(s@, uppercase_first),
{
    broadcast use vstd::string::group_string_axioms;

    let mut out = String::new();
    let mut chars = s.chars();
    let mut pending_boundary = uppercase_first;
    let ghost mut i: int = 0;
    loop
        invariant_except_break
            0 <= i <= s@.len(),
            chars.remaining() == s@.skip(i),
            out@ == cased_prefix(s@, i, uppercase_first),
            pending_boundary == begins_word(s@, i, uppercase_first),
        ensures
            out@ == case_transform(s@, uppercase_first),
        decreases s@.len() - i,
    {
        let character = match chars.next() {
            Some(c) => c,
            None => {
                break;
            },
        };
        if character == '_' {
            pending_boundary = true;
        } else if pending_boundary {
            pending_boundary = false;
            let capital = uppercase_of(character);
            out.append(capital.as_str());
        } else {
            out.push(character);
        }
        proof {
            i = i + 1;
        }
    }
    out
}

} // verus!
