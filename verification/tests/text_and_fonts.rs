use soltia::font_manager::{
    advance_word, chars_to_string, index_of_sub, is_separator, parse_int, percent_of,
    replace_all, set_big_font, substring, trim, CurrentFont, FontManagerState,
};
use soltia::text::{chars_of, chars_equal, contains_chars, prefix_chars, string_of, trim_chars};

fn u(s: &str) -> Vec<u16> {
    s.encode_utf16().collect()
}

#[test]
fn font_selection_follows_the_big_flag() {
    let mut s = FontManagerState::new();
    assert_eq!(s.current_font, CurrentFont::Unset);
    assert_eq!(CurrentFont::default(), CurrentFont::Unset);
    set_big_font(&mut s, true);
    assert!(s.big_font_active);
    assert_eq!(s.current_font, CurrentFont::BigBlack);
    set_big_font(&mut s, false);
    assert_eq!(s.current_font, CurrentFont::SmallBlack);
}

#[test]
fn percent_of_rounds_toward_zero() {
    assert_eq!(percent_of(250, 30), 75);
    assert_eq!(percent_of(7, 10), 0);
    assert_eq!(percent_of(-7, 50), -3);
    assert_eq!(percent_of(i32::MAX, 2), -2 / 100);
}

#[test]
fn substring_and_copy() {
    let s = u("hello world");
    assert_eq!(substring(&s, 6, 5), u("world"));
    assert_eq!(substring(&s, 3, 0), u(""));
    assert_eq!(chars_to_string(&s), s);
}

#[test]
fn trim_drops_control_and_space_units() {
    assert_eq!(trim(&u("  \t 42 \n")), u("42"));
    assert_eq!(trim(&u("   ")), u(""));
    assert_eq!(trim(&u("a b")), u("a b"));
}

#[test]
fn parse_int_accepts_java_decimal() {
    assert_eq!(parse_int(&u("3950")), Some(3950));
    assert_eq!(parse_int(&u("-12")), Some(-12));
    assert_eq!(parse_int(&u("+7")), Some(7));
    assert_eq!(parse_int(&u("2147483647")), Some(i32::MAX));
    assert_eq!(parse_int(&u("-2147483648")), Some(i32::MIN));
}

#[test]
fn parse_int_rejects_what_java_throws_on() {
    assert_eq!(parse_int(&u("")), None);
    assert_eq!(parse_int(&u("-")), None);
    assert_eq!(parse_int(&u("12a")), None);
    assert_eq!(parse_int(&u(" 12")), None);
    assert_eq!(parse_int(&u("2147483648")), None);
    assert_eq!(parse_int(&u("-2147483649")), None);
    assert_eq!(parse_int(&u("99999999999999999999")), None);
}

#[test]
fn separators_and_the_typewriter_step() {
    assert!(is_separator(59));
    assert!(!is_separator(32));
    let text = u("ab;cd;ef");
    assert_eq!(advance_word(&text, 0, 0), 2);
    assert_eq!(advance_word(&text, 0, 2), 5);
    assert_eq!(advance_word(&text, 0, 6), 8);
    assert_eq!(advance_word(&text, 2, 4), 6);
    assert_eq!(advance_word(&u(";;;"), 0, 0), 3);
    // The step runs to the end of the whole next word.
    assert_eq!(advance_word(&u("abc;de"), 0, 0), 3);
    assert_eq!(advance_word(&u("abc;de"), 0, 3), 6);
    assert_eq!(advance_word(&u("a;b"), 0, 0), 1);
    assert_eq!(advance_word(&u("ab"), 0, 5), 2);
}

#[test]
fn index_of_finds_the_first_occurrence() {
    assert_eq!(index_of_sub(&u("abcabc"), &u("ca")), 2);
    assert_eq!(index_of_sub(&u("abcabc"), &u("cab")), 2);
    assert_eq!(index_of_sub(&u("abc"), &u("")), 0);
    assert_eq!(index_of_sub(&u("abc"), &u("abcd")), -1);
    assert_eq!(index_of_sub(&u("abc"), &u("x")), -1);
}

#[test]
fn replace_all_replaces_every_occurrence() {
    assert_eq!(replace_all(&u("a;b;c"), &u(";"), &u("\n")), u("a\nb\nc"));
    assert_eq!(replace_all(&u("%N hits %N"), &u("%N"), &u("Ray")), u("Ray hits Ray"));
    assert_eq!(replace_all(&u("none"), &u("x"), &u("y")), u("none"));
}

#[test]
fn replace_all_makes_one_pass() {
    assert_eq!(replace_all(&u("abab"), &u("ab"), &u("a")), u("aa"));
    // What a replacement forms with the text before it is not replaced again.
    assert_eq!(replace_all(&u("aab"), &u("ab"), &u("b")), u("ab"));
    assert_eq!(replace_all(&u("aaa"), &u("aa"), &u("x")), u("xa"));
}

#[test]
fn char_helpers() {
    let v = chars_of("héllo");
    assert_eq!(v, vec!['h', 'é', 'l', 'l', 'o']);
    assert_eq!(string_of(&v), "héllo");
    assert_eq!(trim_chars(&chars_of("  x ")), vec!['x']);
    assert!(contains_chars(&chars_of("menu,exit"), &chars_of("exit")));
    assert!(!contains_chars(&chars_of("menu"), &chars_of("exit")));
    assert!(chars_equal(&['a', 'b'], &['a', 'b']));
    assert!(!chars_equal(&['a'], &['a', 'b']));
    assert_eq!(prefix_chars(&['a', 'b', 'c'], 2), vec!['a', 'b']);
}
