use soltia::app_config::{
    apply, init, init_available_locales, is_buy_setup_enabled, is_full_version,
    resolve_buy_label, resolve_buy_url, show_demo_buy_link, show_full_version_link,
    AppConfigState,
};
use soltia::byte_util::{rand_range, read_s32, read_u16, write_i32, ByteUtilState, JavaRandom};
use soltia::debug::{assert_true, DebugState};

fn state_with(props: &[(&str, &str)], locales: &[&str]) -> AppConfigState {
    let mut s = AppConfigState::new();
    for l in locales {
        s.locales.push(l.to_string());
    }
    for (k, v) in props {
        s.set_app_property(k, v);
    }
    s
}

#[test]
fn is_full_version_reads_the_demo_token() {
    assert!(is_full_version(&state_with(&[], &["en"])));
    assert!(!is_full_version(&state_with(&[("HO-Demo", "  BEJ8K52N7A ")], &["en"])));
    assert!(is_full_version(&state_with(&[("HO-Demo", "nope")], &["en"])));
}

#[test]
fn init_mirrors_full_version_into_debug() {
    let mut s = state_with(&[("HO-Demo", "BEJ8K52N7A")], &["en"]);
    let mut debug = DebugState::default();
    init(&mut s, &mut debug);
    assert!(!s.full_version);
    assert!(!debug.full_version, "Debug.fullVersion must mirror AppConfig");

    let mut s = state_with(&[], &["en"]);
    init(&mut s, &mut debug);
    assert!(s.full_version && debug.full_version);
}

#[test]
fn init_available_locales_forces_a_single_match() {
    let mut s = state_with(&[("HO-LangList", "de")], &["en", "de", "fr"]);
    assert_eq!(init_available_locales(&mut s), 1);
    assert_eq!(s.locale_enabled, vec![false, true, false]);

    let mut s = state_with(&[("HO-LangList", "en,fr")], &["en", "de", "fr"]);
    assert_eq!(init_available_locales(&mut s), -1);
    assert_eq!(s.locale_enabled, vec![true, false, true]);

    let mut s = state_with(&[], &["en", "de", "fr"]);
    assert_eq!(init_available_locales(&mut s), -1);
    assert_eq!(s.locale_enabled, vec![true, true, true]);
}

#[test]
fn buy_setup_and_url_gate_the_links() {
    let s = state_with(
        &[("HO-BuySetup", "menu,exit"), ("HO-URL-en", "http://buy.example/en")],
        &["en"],
    );
    assert!(is_buy_setup_enabled(&s, 0, true));
    assert!(is_buy_setup_enabled(&s, 0, false));
    assert_eq!(resolve_buy_url(&s, 0), Some("http://buy.example/en".to_string()));

    let s = state_with(&[("HO-BuySetup", "menu")], &["en"]);
    assert!(!is_buy_setup_enabled(&s, 0, true));
    assert_eq!(resolve_buy_url(&s, 0), None);
}

#[test]
fn apply_sets_buy_flags_and_url() {
    let mut s = state_with(&[("HO-BuySetup", "menu"), ("HO-URL-en", "http://x")], &["en"]);
    apply(&mut s, 0);
    assert!(s.menu_buy_enabled);
    assert!(!s.exit_buy_enabled);
    assert_eq!(s.buy_url, Some("http://x".to_string()));
}

#[test]
fn show_link_predicates() {
    let mut s = state_with(&[], &["en"]);
    s.full_version = true;
    s.menu_buy_enabled = true;
    s.buy_url = Some("u".to_string());
    assert!(show_full_version_link(&s));
    assert!(!show_demo_buy_link(&s));

    s.full_version = false;
    assert!(!show_full_version_link(&s));
    assert!(show_demo_buy_link(&s));
}

#[test]
fn resolve_buy_label_plain_and_capped() {
    let s = state_with(&[("HO-Label-en", "Buy Now")], &["en"]);
    assert_eq!(resolve_buy_label(&s, 0, "FULL", "DEMO"), "Buy Now");

    let s = state_with(&[("HO-Label-en", "ABCDEFGHIJKLMNOPQRSTUVWXYZ")], &["en"]);
    assert_eq!(resolve_buy_label(&s, 0, "FULL", "DEMO"), "ABCDEFGHIJKLMNOP");

    let s = state_with(&[], &["en"]);
    assert_eq!(resolve_buy_label(&s, 0, "FULL", "DEMO"), "DEMO");
    let mut s = state_with(&[("HO-Label-en", "")], &["en"]);
    s.full_version = true;
    assert_eq!(resolve_buy_label(&s, 0, "FULL", "DEMO"), "FULL");
}

#[test]
fn resolve_buy_label_decodes_unicode_escapes() {
    let s = state_with(&[("HO-Label-en", "\\u0041BC")], &["en"]);
    assert_eq!(resolve_buy_label(&s, 0, "FULL", "DEMO"), "ABC");

    let s = state_with(&[("HO-Label-en", "\\u0048\\u0069!")], &["en"]);
    assert_eq!(resolve_buy_label(&s, 0, "FULL", "DEMO"), "Hi!");
}

#[test]
fn java_random_matches_published_vectors() {
    let mut r = JavaRandom::new(0);
    assert_eq!(r.next_int(), -1155484576);
    assert_eq!(r.next_int(), -723955400);
    assert_eq!(r.next_int(), 1033096058);

    let mut r = JavaRandom::new(42);
    assert_eq!(r.next_int(), -1170105035);
}

#[test]
fn rand_range_stays_in_bounds_and_is_reproducible() {
    let mut s = ByteUtilState::seeded(12345);
    for _ in 0..10000 {
        let v = rand_range(&mut s, -7, 42);
        assert!((-7..=42).contains(&v), "rand_range out of [low,high]: {v}");
    }
    let mut s = ByteUtilState::seeded(1);
    assert_eq!(rand_range(&mut s, i32::MIN, i32::MAX), 0);
}

#[test]
fn byte_helpers_round_trip_big_endian() {
    let mut buf = vec![0i8; 8];
    write_i32(0x12345678, &mut buf, 2);
    assert_eq!(read_s32(&buf, 2), 0x12345678);
    assert_eq!(buf[2] as u8, 0x12);
    assert_eq!(buf[3] as u8, 0x34);
    assert_eq!(buf[4] as u8, 0x56);
    assert_eq!(buf[5] as u8, 0x78);

    let b = vec![0i8, 0i8, -1i8, -2i8];
    assert_eq!(read_u16(&b, 2), -2i16);
    assert_eq!(read_u16(&b, 0), 0i16);

    assert_eq!(read_s32(&b, 3), -1);
}

#[test]
fn concat_joins_char_arrays() {
    let a: Vec<u16> = vec![1, 2, 3];
    let b: Vec<u16> = vec![4, 5];
    assert_eq!(soltia::byte_util::concat(&a, &b), vec![1, 2, 3, 4, 5]);
}

#[test]
fn default_full_version_is_false() {
    assert!(!DebugState::default().full_version);
}

#[test]
fn assert_true_passes_when_condition_holds() {
    assert_true(true);
    assert_true(1 + 1 == 2);
}

#[test]
fn rand_range_keeps_a_minimum_draw_in_range() {
    // This seed makes the generator's next output i32::MIN, whose magnitude is
    // 2^31; 2^31 mod 50 is 48.
    let mut s = ByteUtilState::seeded(247775869193412);
    assert_eq!(rand_range(&mut s, -7, 42), 41);
}

#[test]
fn read_s32_refuses_a_negative_offset() {
    let b = vec![1i8, 2, 3, 4, 5, 6, 7, 8];
    assert_eq!(read_s32(&b, -1), -1);
    assert_eq!(read_s32(&b, i32::MIN), -1);
    assert_eq!(read_s32(&b, i32::MAX), -1);
    assert_eq!(read_s32(&b, 4), 0x05060708);
}

#[test]
fn resolve_buy_label_caps_by_code_units() {
    // Each of these characters takes two UTF-16 code units: 16 units hold 8.
    let label: String = std::iter::repeat('\u{1F600}').take(10).collect();
    let s = state_with(&[("HO-Label-en", label.as_str())], &["en"]);
    let expected: String = std::iter::repeat('\u{1F600}').take(8).collect();
    assert_eq!(resolve_buy_label(&s, 0, "FULL", "DEMO"), expected);
}

#[test]
fn resolve_buy_label_joins_an_escaped_surrogate_pair() {
    let s = state_with(&[("HO-Label-en", "\\uD83D\\uDE00 Buy")], &["en"]);
    assert_eq!(resolve_buy_label(&s, 0, "FULL", "DEMO"), "\u{1F600} Buy");
}
