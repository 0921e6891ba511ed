//! The four conversions as methods on strings.

use vstd::prelude::*;
use crate::casing::{apply_case_transform, case_transform};
use crate::divider::{apply_divider_transform, divider_transform};

verus! {

/// The snake_case form of `s`: the divider transform with `_`.
pub open spec fn snake_case(s: Seq<char>) -> Seq<char> {
    divider_transform(s, '_')
}

/// The kebab-case form of `s`: the divider transform with `-`.
pub open spec fn kebab_case(s: Seq<char>) -> Seq<char> {
    divider_transform(s, '-')
}

/// The camelCase form of `s`: the case transform that leaves the first
/// character as it is.
pub open spec fn camel_case(s: Seq<char>) -> Seq<char> {
    case_transform(s, false)
}

/// The PascalCase form of `s`: the case transform that begins with a capital.
pub open spec fn pascal_case(s: Seq<char>) -> Seq<char> {
    case_transform(s, true)
}

/// Extension trait that adds the four conversions to a string type.
///
/// No conversion has a precondition, and each result is a function of the
/// characters of `self` alone.
pub trait StringCasesExt: View<V = Seq<char>> {
    /// `_` marks the boundaries.
    fn to_snake_case(&self) -> (r: String)
        ensures
            r@ == snake_case(self@),
    ;

    /// `-` marks the boundaries.
    fn to_kebab_case(&self) -> (r: String)
        ensures
            r@ == kebab_case(self@),
    ;

    /// A capital marks each boundary.
    fn to_camel_case(&self) -> (r: String)
        ensures
            r@ == camel_case(self@),
    ;

    /// A capital marks each boundary, and the first character is a capital.
    fn to_pascal_case(&self) -> (r: String)
        ensures
            r@ == pascal_case(self@),
    ;
}

impl StringCasesExt for str {
    fn to_snake_case(&self) -> (r: String) {
        apply_divider_transform(self, '_')
    }

    fn to_kebab_case(&self) -> (r: String) {
        apply_divider_transform(self, '-')
    }

    fn to_camel_case(&self) -> (r: String) {
        apply_case_transform(self, false)
    }

    fn to_pascal_case(&self) -> (r: String) {
        apply_case_transform(self, true)
    }
}

impl StringCasesExt for String {
    fn to_snake_case(&self) -> (r: String) {
        apply_divider_transform(self.as_str(), '_')
    }

    fn to_kebab_case(&self) -> (r: String) {
        apply_divider_transform(self.as_str(), '-')
    }

    fn to_camel_case(&self) -> (r: String) {
        apply_case_transform(self.as_str(), false)
    }

    fn to_pascal_case(&self) -> (r: String) {
        apply_case_transform(self.as_str(), true)
    }
}

impl<T: StringCasesExt + ?Sized> StringCasesExt for &T {
    fn to_snake_case(&self) -> (r: String) {
        (**self).to_snake_case()
    }

    fn to_kebab_case(&self) -> (r: String) {
        (**self).to_kebab_case()
    }

    fn to_camel_case(&self) -> (r: String) {
        (**self).to_camel_case()
    }

    fn to_pascal_case(&self) -> (r: String) {
        (**self).to_pascal_case()
    }
}

} // verus!
