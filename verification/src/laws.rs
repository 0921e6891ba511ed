//! What holds of the conversions on every input.

use vstd::prelude::*;
use crate::divider::{
    Boundary, boundary_at, divided_prefix, divider_transform, is_delimiter, piece,
};
use crate::ext::{StringCasesExt, camel_case, kebab_case, pascal_case, snake_case};
use crate::unicode::{char_is_lowercase, char_is_numeric, char_is_uppercase, char_to_lowercase};

verus! {

/// Each conversion is a function of the characters alone: two strings that
/// hold the same text are converted alike, whatever their types.
pub proof fn lemma_same_text_same_conversion<A: StringCasesExt + ?Sized, B: StringCasesExt + ?Sized>(
    a: &A,
    b: &B,
)
    requires
        a@ == b@,
    ensures
        snake_case(a@) == snake_case(b@),
        kebab_case(a@) == kebab_case(b@),
        camel_case(a@) == camel_case(b@),
        pascal_case(a@) == pascal_case(b@),
{
}

/// Two texts of one length that agree wherever `a` does not hold `da` while
/// `b` holds `db`.
pub open spec fn differ_only_in_divider(a: Seq<char>, b: Seq<char>, da: char, db: char) -> bool {
    &&& a.len() == b.len()
    &&& forall|j: int| 0 <= j < a.len() ==> a[j] == b[j] || (a[j] == da && b[j] == db)
}

proof fn lemma_pieces_differ_only_in_divider(s: Seq<char>, i: int, da: char, db: char)
    requires
        0 <= i < s.len(),
    ensures
        differ_only_in_divider(piece(s, i, da), piece(s, i, db), da, db),
{
}

proof fn lemma_prefixes_differ_only_in_divider(s: Seq<char>, n: int, da: char, db: char)
    requires
        0 <= n <= s.len(),
    ensures
        differ_only_in_divider(divided_prefix(s, n, da), divided_prefix(s, n, db), da, db),
    decreases n,
{
    if n > 0 {
        lemma_prefixes_differ_only_in_divider(s, n - 1, da, db);
        lemma_pieces_differ_only_in_divider(s, n - 1, da, db);
    }
}

/// The divider transform of one text with two dividers gives two texts that
/// differ in the divider alone: they have one length, and wherever they
/// differ the first holds its divider and the second its own.
pub proof fn lemma_divider_symmetry(s: Seq<char>, da: char, db: char)
    ensures
        differ_only_in_divider(divider_transform(s, da), divider_transform(s, db), da, db),
{
    lemma_prefixes_differ_only_in_divider(s, s.len() as int, da, db);
}

/// The snake_case and the kebab-case form of one text differ only in `_`
/// against `-`.
pub proof fn lemma_snake_kebab_symmetry(s: Seq<char>)
    ensures
        differ_only_in_divider(snake_case(s), kebab_case(s), '_', '-'),
{
    lemma_divider_symmetry(s, '_', '-');
}

/// The length of the lowercase mappings of the first `n` characters of `s`,
/// taken together. A delimiter has no mapping here and counts nothing.
pub open spec fn lowered_len(s: Seq<char>, n: int) -> nat
    decreases n,
{
    if n <= 0 {
        0
    } else if is_delimiter(s[n - 1]) {
        lowered_len(s, n - 1)
    } else {
        lowered_len(s, n - 1) + char_to_lowercase(s[n - 1]).len()
    }
}

/// Whether no character of `s` grows when it is lowercased.
pub open spec fn lowercases_in_place(s: Seq<char>) -> bool {
    forall|i: int|
        0 <= i < s.len() && !is_delimiter(s[i]) ==> (#[trigger] char_to_lowercase(s[i])).len() <= 1
}

proof fn lemma_prefix_length(s: Seq<char>, n: int, divider: char)
    requires
        0 <= n <= s.len(),
    ensures
        divided_prefix(s, n, divider).len() <= lowered_len(s, n) + n,
        lowercases_in_place(s) ==> lowered_len(s, n) <= n,
    decreases n,
{
    if n > 0 {
        lemma_prefix_length(s, n - 1, divider);
    }
}

/// The divider transform adds at most one divider for each character of the
/// input to the lowercase mappings.
pub proof fn lemma_divider_length(s: Seq<char>, divider: char)
    ensures
        divider_transform(s, divider).len() <= lowered_len(s, s.len() as int) + s.len(),
{
    lemma_prefix_length(s, s.len() as int, divider);
}

/// Where no character grows when it is lowercased, the divider transform is
/// at most twice as long as its input.
pub proof fn lemma_divider_length_doubles_at_most(s: Seq<char>, divider: char)
    requires
        lowercases_in_place(s),
    ensures
        divider_transform(s, divider).len() <= 2 * s.len(),
{
    lemma_prefix_length(s, s.len() as int, divider);
}

/// A text in which the piece of every character is that character alone.
/// Such a text holds no delimiter but the divider, and as long as no lowercase
/// mapping is empty, a scan finds nothing to lowercase and no boundary in it.
pub open spec fn is_settled(t: Seq<char>, divider: char) -> bool {
    forall|j: int| 0 <= j < t.len() ==> #[trigger] piece(t, j, divider) == seq![t[j]]
}

proof fn lemma_settled_prefix(t: Seq<char>, n: int, divider: char)
    requires
        is_settled(t, divider),
        0 <= n <= t.len(),
    ensures
        divided_prefix(t, n, divider) == t.take(n),
    decreases n,
{
    if n > 0 {
        lemma_settled_prefix(t, n - 1, divider);
    }
}

/// The divider transform leaves a settled text as it is.
pub proof fn lemma_settled_is_fixed_point(t: Seq<char>, divider: char)
    requires
        is_settled(t, divider),
    ensures
        divider_transform(t, divider) == t,
{
    lemma_settled_prefix(t, t.len() as int, divider);
}

/// Whether every character of `t` that is no delimiter has a lowercase
/// mapping of at least one character.
pub open spec fn lowercases_to_something(t: Seq<char>) -> bool {
    forall|j: int|
        0 <= j < t.len() && !is_delimiter(t[j]) ==> (#[trigger] char_to_lowercase(t[j])).len() >= 1
}

proof fn lemma_prefix_grows(t: Seq<char>, m: int, n: int, divider: char)
    requires
        lowercases_to_something(t),
        0 <= m <= n <= t.len(),
    ensures
        divided_prefix(t, n, divider).len() >= divided_prefix(t, m, divider).len() + (n - m),
        divided_prefix(t, m, divider) == divided_prefix(t, n, divider).take(
            divided_prefix(t, m, divider).len() as int,
        ),
    decreases n - m,
{
    if m < n {
        lemma_prefix_grows(t, m, n - 1, divider);
    }
}

/// Where no lowercase mapping is empty, only a settled text is left as it
/// is: the divider transform changes every other text.
pub proof fn lemma_fixed_point_is_settled(t: Seq<char>, divider: char)
    requires
        lowercases_to_something(t),
        divider_transform(t, divider) == t,
    ensures
        is_settled(t, divider),
{
    let len = t.len() as int;
    assert forall|j: int| 0 <= j < len implies #[trigger] piece(t, j, divider) == seq![t[j]] by {
        lemma_prefix_grows(t, 0, j, divider);
        lemma_prefix_grows(t, j, j + 1, divider);
        lemma_prefix_grows(t, j + 1, len, divider);
        assert(divided_prefix(t, j + 1, divider)[j] == t[j]);
    }
}

/// Where no lowercase mapping in the result is empty, a second pass leaves
/// the result of the first as it is exactly if that result is settled.
pub proof fn lemma_second_pass_keeps_exactly_the_settled(s: Seq<char>, divider: char)
    requires
        lowercases_to_something(divider_transform(s, divider)),
    ensures
        divider_transform(divider_transform(s, divider), divider) == divider_transform(s, divider)
            <==> is_settled(divider_transform(s, divider), divider),
{
    let once = divider_transform(s, divider);
    if is_settled(once, divider) {
        lemma_settled_is_fixed_point(once, divider);
    }
    if divider_transform(once, divider) == once {
        lemma_fixed_point_is_settled(once, divider);
    }
}

/// A character that is its own lowercase form: no delimiter, not uppercase,
/// and mapped to itself.
pub open spec fn is_lowered(x: char) -> bool {
    &&& !is_delimiter(x)
    &&& !char_is_uppercase(x)
    &&& char_to_lowercase(x) == seq![x]
}

/// Whether a scan that meets `a` with `b` after it ends a word at `a`.
pub open spec fn ends_word(a: char, b: char) -> bool {
    char_is_lowercase(a) && (char_is_uppercase(b) || char_is_numeric(b))
}

/// Whether the lowercase mapping of `c` is lowercase text in one word: it
/// is not empty, each of its characters is its own lowercase form, and no
/// word ends inside it.
pub open spec fn lowers_cleanly(c: char) -> bool {
    let m = char_to_lowercase(c);
    &&& m.len() >= 1
    &&& forall|k: int| 0 <= k < m.len() ==> is_lowered(#[trigger] m[k])
    &&& forall|k: int| 0 <= k < m.len() - 1 ==> !ends_word(#[trigger] m[k], m[k + 1])
}

/// Whether the characters at positions `i` and `i + 1` of `s` come out side
/// by side: neither is a delimiter, and the scan puts no divider between them.
pub open spec fn joined(s: Seq<char>, i: int) -> bool {
    &&& !is_delimiter(s[i])
    &&& !is_delimiter(s[i + 1])
    &&& boundary_at(s, i) != Boundary::After
    &&& boundary_at(s, i + 1) != Boundary::Before
}

/// The character that comes out right after the lowercase form of the
/// character at position `i` of `s`, where that is not the last one: the
/// lowercase form of the next character, or else the divider.
pub open spec fn comes_after(s: Seq<char>, i: int, divider: char) -> char {
    if joined(s, i) {
        char_to_lowercase(s[i + 1]).first()
    } else {
        divider
    }
}

/// A text whose words a second scan finds where the first scan left them:
/// every character lowers cleanly, and no word ends between the lowercase
/// form of a character and what comes out after it.
pub open spec fn is_plain(s: Seq<char>, divider: char) -> bool {
    &&& forall|i: int| 0 <= i < s.len() && !is_delimiter(s[i]) ==> lowers_cleanly(#[trigger] s[i])
    &&& forall|i: int|
        0 <= i < s.len() - 1 && !is_delimiter(s[i]) ==> !ends_word(
            char_to_lowercase(s[i]).last(),
            #[trigger] comes_after(s, i, divider),
        )
}

/// A text of dividers and lowered characters in which no word ends.
spec fn is_quiet(t: Seq<char>, divider: char) -> bool {
    &&& forall|j: int| 0 <= j < t.len() ==> #[trigger] t[j] == divider || is_lowered(t[j])
    &&& forall|j: int| 0 <= j < t.len() - 1 ==> #[trigger] t[j] == divider || !ends_word(t[j], t[j + 1])
}

proof fn lemma_quiet_is_settled(t: Seq<char>, divider: char)
    requires
        is_delimiter(divider),
        is_quiet(t, divider),
    ensures
        is_settled(t, divider),
{
}

proof fn lemma_quiet_concat(a: Seq<char>, b: Seq<char>, divider: char)
    requires
        is_quiet(a, divider),
        is_quiet(b, divider),
        a.len() > 0 && b.len() > 0 ==> a.last() == divider || !ends_word(a.last(), b.first()),
    ensures
        is_quiet(a + b, divider),
{
}

proof fn lemma_piece_quiet(s: Seq<char>, i: int, divider: char)
    requires
        is_delimiter(divider),
        is_plain(s, divider),
        0 <= i < s.len(),
    ensures
        is_quiet(piece(s, i, divider), divider),
        piece(s, i, divider).len() >= 1,
        piece(s, i, divider).first() == divider || (!is_delimiter(s[i]) && boundary_at(s, i)
            != Boundary::Before && piece(s, i, divider).first() == char_to_lowercase(s[i]).first()),
        piece(s, i, divider).last() == divider || (!is_delimiter(s[i]) && boundary_at(s, i)
            != Boundary::After && piece(s, i, divider).last() == char_to_lowercase(s[i]).last()),
{
    if !is_delimiter(s[i]) {
        let m = char_to_lowercase(s[i]);
        match boundary_at(s, i) {
            Boundary::Absent => {},
            Boundary::Before => {
                lemma_quiet_concat(seq![divider], m, divider);
            },
            Boundary::After => {
                assert(comes_after(s, i, divider) == divider);
                lemma_quiet_concat(m, seq![divider], divider);
            },
        }
    }
}

proof fn lemma_prefix_quiet(s: Seq<char>, n: int, divider: char)
    requires
        is_delimiter(divider),
        is_plain(s, divider),
        0 <= n <= s.len(),
    ensures
        is_quiet(divided_prefix(s, n, divider), divider),
        n > 0 ==> divided_prefix(s, n, divider).len() > 0 && divided_prefix(s, n, divider).last()
            == piece(s, n - 1, divider).last(),
    decreases n,
{
    if n > 0 {
        lemma_prefix_quiet(s, n - 1, divider);
        lemma_piece_quiet(s, n - 1, divider);
        let a = divided_prefix(s, n - 1, divider);
        let b = piece(s, n - 1, divider);
        if n > 1 {
            lemma_piece_quiet(s, n - 2, divider);
            if a.last() != divider {
                assert(!ends_word(a.last(), comes_after(s, n - 2, divider)));
            }
        }
        lemma_quiet_concat(a, b, divider);
    }
}

/// The divider transform of a plain text is settled.
pub proof fn lemma_plain_becomes_settled(s: Seq<char>, divider: char)
    requires
        is_delimiter(divider),
        is_plain(s, divider),
    ensures
        is_settled(divider_transform(s, divider), divider),
{
    lemma_prefix_quiet(s, s.len() as int, divider);
    lemma_quiet_is_settled(divider_transform(s, divider), divider);
}

/// On a plain text the divider transform is idempotent: a second pass
/// changes nothing.
pub proof fn lemma_divider_idempotent(s: Seq<char>, divider: char)
    requires
        is_delimiter(divider),
        is_plain(s, divider),
    ensures
        divider_transform(divider_transform(s, divider), divider) == divider_transform(
            s,
            divider,
        ),
{
    lemma_plain_becomes_settled(s, divider);
    lemma_settled_is_fixed_point(divider_transform(s, divider), divider);
}

/// On a plain text, a second conversion to snake_case changes nothing.
pub proof fn lemma_snake_case_idempotent(s: Seq<char>)
    requires
        is_plain(s, '_'),
    ensures
        snake_case(snake_case(s)) == snake_case(s),
{
    lemma_divider_idempotent(s, '_');
}

/// On a plain text, a second conversion to kebab-case changes nothing.
pub proof fn lemma_kebab_case_idempotent(s: Seq<char>)
    requires
        is_plain(s, '-'),
    ensures
        kebab_case(kebab_case(s)) == kebab_case(s),
{
    lemma_divider_idempotent(s, '-');
}

} // verus!
