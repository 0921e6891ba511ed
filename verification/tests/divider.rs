use string_cases::divider::{boundary_of, push_framed, Boundary};
use string_cases::unicode::{classify, CharClass};
use string_cases::{apply_divider_transform, StringCasesExt};

fn class(uppercase: bool, lowercase: bool, numeric: bool) -> CharClass {
    CharClass { uppercase, lowercase, numeric }
}

#[test]
fn empty_text_stays_empty() {
    assert_eq!("".to_snake_case(), "");
    assert_eq!("".to_kebab_case(), "");
    assert_eq!(apply_divider_transform("", '_'), "");
}

#[test]
fn delimiters_alone_become_dividers() {
    assert_eq!("__--_".to_snake_case(), "_____");
    assert_eq!("__--_".to_kebab_case(), "-----");
    assert_eq!("_".to_snake_case(), "_");
    assert_eq!("-".to_snake_case(), "_");
}

#[test]
fn consecutive_delimiters_are_not_collapsed() {
    assert_eq!("a__b".to_snake_case(), "a__b");
    assert_eq!("a--b".to_snake_case(), "a__b");
    assert_eq!("a_-b".to_kebab_case(), "a--b");
}

#[test]
fn leading_and_trailing_delimiters_keep_their_place() {
    assert_eq!("_a_".to_snake_case(), "_a_");
    assert_eq!("-Ab-".to_kebab_case(), "-ab-");
    assert_eq!("__SomeStruct__".to_snake_case(), "__some_struct__");
}

#[test]
fn first_capital_gets_no_divider() {
    assert_eq!("A".to_snake_case(), "a");
    assert_eq!("Some".to_snake_case(), "some");
    assert_eq!("Ab".to_kebab_case(), "ab");
}

#[test]
fn run_of_capitals_at_the_end_stays_one_word() {
    assert_eq!("HTML".to_snake_case(), "html");
    assert_eq!("someHTML".to_snake_case(), "some_html");
    assert_eq!("SomeTLA".to_kebab_case(), "some-tla");
}

#[test]
fn last_capital_of_a_run_begins_the_next_word() {
    assert_eq!("XMLTla".to_snake_case(), "xml_tla");
    assert_eq!("HTTPServer".to_kebab_case(), "http-server");
    assert_eq!("ABc".to_snake_case(), "a_bc");
}

#[test]
fn lowercase_before_a_capital_or_a_number_ends_a_word() {
    assert_eq!("field6".to_snake_case(), "field_6");
    assert_eq!("someStruct".to_snake_case(), "some_struct");
    assert_eq!("aB".to_kebab_case(), "a-b");
    assert_eq!("a1".to_kebab_case(), "a-1");
}

#[test]
fn numbers_end_no_word() {
    assert_eq!("Field66".to_snake_case(), "field_66");
    assert_eq!("6field".to_snake_case(), "6field");
    assert_eq!("123".to_snake_case(), "123");
    assert_eq!("1A".to_snake_case(), "1a");
}

#[test]
fn capital_before_a_number_ends_no_word() {
    assert_eq!("A1".to_snake_case(), "a1");
    assert_eq!("SHA256".to_snake_case(), "sha256");
}

#[test]
fn scan_looks_past_delimiters_for_the_last_capital() {
    assert_eq!("A_Bc".to_snake_case(), "a__bc");
    assert_eq!("a_Bc".to_snake_case(), "a_bc");
    assert_eq!("A-Bc".to_kebab_case(), "a--bc");
}

#[test]
fn delimiter_after_a_lowercase_character_ends_no_word() {
    assert_eq!("ab_".to_snake_case(), "ab_");
    assert_eq!("some_struct".to_snake_case(), "some_struct");
    assert_eq!("some-struct".to_snake_case(), "some_struct");
    assert_eq!("some_struct".to_kebab_case(), "some-struct");
}

#[test]
fn other_characters_pass_through_lowercased() {
    assert_eq!("Some Struct".to_snake_case(), "some struct");
    assert_eq!("a.b".to_snake_case(), "a.b");
    assert_eq!("A+B".to_kebab_case(), "a+b");
}

#[test]
fn any_character_can_be_the_divider() {
    assert_eq!(apply_divider_transform("SomeStruct", '.'), "some.struct");
    assert_eq!(apply_divider_transform("a_b-c", '.'), "a.b.c");
    assert_eq!(apply_divider_transform("JSXElement", ' '), "jsx element");
    assert_eq!(apply_divider_transform("Field6", '_'), "field_6");
    assert_eq!(apply_divider_transform("Field6", '-'), "field-6");
}

#[test]
fn letters_beyond_ascii_are_lowercased_and_split() {
    assert_eq!("ÉcoleNormale".to_snake_case(), "école_normale");
    assert_eq!("ΔοκιμήΛέξη".to_snake_case(), "δοκιμή_λέξη");
    assert_eq!("straßeA".to_kebab_case(), "straße-a");
}

#[test]
fn numbers_beyond_ascii_end_a_word() {
    assert_eq!("abc٣".to_snake_case(), "abc_٣");
    assert_eq!("x¾".to_snake_case(), "x_¾");
}

#[test]
fn lowercase_mapping_of_several_characters_is_kept_whole() {
    assert_eq!("İ".to_snake_case(), "i\u{307}");
    assert_eq!("aİ".to_snake_case(), "a_i\u{307}");
    assert_eq!("İİa".to_snake_case(), "i\u{307}_i\u{307}a");
}

#[test]
fn boundary_before_needs_capital_run_and_lowercase_next() {
    let upper = class(true, false, false);
    let lower = class(false, true, false);
    let number = class(false, false, true);
    assert_eq!(boundary_of(true, upper, Some(lower)), Boundary::Before);
    assert_eq!(boundary_of(false, upper, Some(lower)), Boundary::Absent);
    assert_eq!(boundary_of(true, upper, Some(upper)), Boundary::Absent);
    assert_eq!(boundary_of(true, upper, Some(number)), Boundary::Absent);
    assert_eq!(boundary_of(true, upper, None), Boundary::Absent);
    assert_eq!(boundary_of(true, number, Some(lower)), Boundary::Absent);
}

#[test]
fn boundary_after_needs_lowercase_and_capital_or_number_next() {
    let upper = class(true, false, false);
    let lower = class(false, true, false);
    let number = class(false, false, true);
    let other = class(false, false, false);
    assert_eq!(boundary_of(false, lower, Some(upper)), Boundary::After);
    assert_eq!(boundary_of(false, lower, Some(number)), Boundary::After);
    assert_eq!(boundary_of(true, lower, Some(upper)), Boundary::After);
    assert_eq!(boundary_of(false, lower, Some(lower)), Boundary::Absent);
    assert_eq!(boundary_of(false, lower, Some(other)), Boundary::Absent);
    assert_eq!(boundary_of(false, lower, None), Boundary::Absent);
    assert_eq!(boundary_of(false, upper, Some(number)), Boundary::Absent);
    assert_eq!(boundary_of(false, other, Some(upper)), Boundary::Absent);
}

#[test]
fn boundary_before_outranks_boundary_after() {
    let both = class(true, true, false);
    assert_eq!(boundary_of(true, both, Some(both)), Boundary::Before);
    assert_eq!(boundary_of(false, both, Some(both)), Boundary::After);
}

#[test]
fn push_framed_puts_the_divider_on_the_named_side() {
    let mut out = String::from("x");
    push_framed(&mut out, Boundary::Absent, "a", '_');
    assert_eq!(out, "xa");
    push_framed(&mut out, Boundary::Before, "b", '_');
    assert_eq!(out, "xa_b");
    push_framed(&mut out, Boundary::After, "c", '-');
    assert_eq!(out, "xa_bc-");
    push_framed(&mut out, Boundary::Before, "i\u{307}", '.');
    assert_eq!(out, "xa_bc-.i\u{307}");
    push_framed(&mut out, Boundary::After, "", '_');
    assert_eq!(out, "xa_bc-.i\u{307}_");
}

#[test]
fn classify_reads_case_and_number() {
    assert_eq!(classify('A'), class(true, false, false));
    assert_eq!(classify('a'), class(false, true, false));
    assert_eq!(classify('6'), class(false, false, true));
    assert_eq!(classify('_'), class(false, false, false));
    assert_eq!(classify('-'), class(false, false, false));
    assert_eq!(classify(' '), class(false, false, false));
    assert_eq!(classify('Δ'), class(true, false, false));
    assert_eq!(classify('δ'), class(false, true, false));
    assert_eq!(classify('中'), class(false, false, false));
    assert_eq!(classify('¾'), class(false, false, true));
    assert_eq!(classify('ǅ'), class(false, false, false));
}

#[test]
fn classify_finds_numbers_that_have_a_case() {
    assert_eq!(classify('\u{2160}'), class(true, false, true));
    assert_eq!(classify('\u{2170}'), class(false, true, true));
}
