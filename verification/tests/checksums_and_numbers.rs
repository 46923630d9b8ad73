use soltia::adler32::{self, Adler32State};
use soltia::crc32::{self, Crc32State};
use soltia::jvm::{ishl, ishr, iushr, java_div, java_rem};

fn bytes(s: &str) -> Vec<i8> {
    s.bytes().map(|b| b as i8).collect()
}

#[test]
fn adler32_of_wikipedia() {
    let mut s = Adler32State::new();
    let data = bytes("Wikipedia");
    adler32::update(&mut s, &data, 0, data.len() as i32);
    assert_eq!(adler32::get_value(&s), 0x11E6_0398);
}

#[test]
fn adler32_starts_at_one_and_resets() {
    let mut s = Adler32State::default();
    assert_eq!(adler32::get_value(&s), 1);
    let data = bytes("abc");
    adler32::update(&mut s, &data, 0, 3);
    assert_ne!(adler32::get_value(&s), 1);
    adler32::reset(&mut s);
    assert_eq!(adler32::get_value(&s), 1);
}

#[test]
fn adler32_window_and_split_updates_agree() {
    let data = bytes("xxWikipediayy");
    let mut whole = Adler32State::new();
    adler32::update(&mut whole, &data, 2, 9);
    let mut split = Adler32State::new();
    adler32::update(&mut split, &data, 2, 4);
    adler32::update(&mut split, &data, 6, 5);
    assert_eq!(adler32::get_value(&whole), 0x11E6_0398);
    assert_eq!(adler32::get_value(&split), 0x11E6_0398);
}

#[test]
fn adler32_long_input_crosses_the_block_size() {
    // The sums follow RFC 1950 exactly, also where long runs of high bytes pass
    // the range of a signed 32-bit sum.
    let data: Vec<i8> = vec![-1i8; 10_000];
    let mut s = Adler32State::new();
    adler32::update(&mut s, &data, 0, data.len() as i32);
    let (mut a, mut b) = (1u64, 0u64);
    for _ in 0..10_000 {
        a = (a + 255) % 65521;
        b = (b + a) % 65521;
    }
    assert_eq!(adler32::get_value(&s), ((b << 16) | a) as u32 as i32 as i64);
    // Short inputs agree with zlib's Adler-32.
    let mut z = Adler32State::new();
    adler32::update(&mut z, &data, 0, 100);
    let (mut za, mut zb) = (1u64, 0u64);
    for _ in 0..100 {
        za = (za + 255) % 65521;
        zb = (zb + za) % 65521;
    }
    assert_eq!(adler32::get_value(&z), ((zb << 16) | za) as u32 as i32 as i64);
}

#[test]
fn crc32_check_value() {
    let mut s = Crc32State::new();
    let data = bytes("123456789");
    crc32::update(&mut s, &data, 0, 9);
    assert_eq!(crc32::get_value(&s) as u32, 0xCBF4_3926);
}

#[test]
fn crc32_table_has_the_reflected_polynomial() {
    let t = crc32::crc_table();
    assert_eq!(t.len(), 256);
    assert_eq!(t[0], 0);
    assert_eq!(t[1] as u32, 0x7707_3096);
    assert_eq!(t[128] as u32, 0xEDB8_8320);
    assert_eq!(t[255] as u32, 0x2D02_EF8D);
}

#[test]
fn crc32_concatenation_law_on_values() {
    let data = bytes("hello, world");
    let mut whole = Crc32State::default();
    crc32::update(&mut whole, &data, 0, 12);
    let mut split = Crc32State::default();
    crc32::update(&mut split, &data, 0, 5);
    crc32::update(&mut split, &data, 5, 7);
    assert_eq!(crc32::get_value(&whole), crc32::get_value(&split));
    crc32::reset(&mut split);
    assert_eq!(crc32::get_value(&split), 0);
}

#[test]
fn crc32_empty_and_negative_length_leave_the_state() {
    let data = bytes("abc");
    let mut s = Crc32State::new();
    crc32::update(&mut s, &data, 0, 0);
    crc32::update(&mut s, &data, 1, -1);
    assert_eq!(crc32::get_value(&s), 0);
}

#[test]
fn java_shifts_mask_the_distance() {
    assert_eq!(ishl(1, 33), 2);
    assert_eq!(ishr(-16, 2), -4);
    assert_eq!(iushr(-16, 28), 15);
    assert_eq!(ishl(0x4000_0000, 1), i32::MIN);
}

#[test]
fn java_division_truncates_and_wraps() {
    assert_eq!(java_div(-7, 2), Some(-3));
    assert_eq!(java_rem(-7, 2), Some(-1));
    assert_eq!(java_rem(7, -2), Some(1));
    assert_eq!(java_div(i32::MIN, -1), Some(i32::MIN));
    assert_eq!(java_rem(i32::MIN, -1), Some(0));
    assert_eq!(java_div(5, 0), None);
    assert_eq!(java_rem(5, 0), None);
}

#[test]
fn adler32_of_a_long_run_of_high_bytes() {
    let data = vec![-1i8; 5552];
    let mut s = Adler32State::new();
    adler32::update(&mut s, &data, 0, 5552);
    assert_eq!(adler32::get_value(&s), 0xF18F_9B8Cu32 as i32 as i64);
}

#[test]
fn adler32_fed_in_pieces_matches_one_update() {
    let data = vec![-1i8; 6000];
    let mut whole = Adler32State::new();
    adler32::update(&mut whole, &data, 0, 6000);
    let mut pieces = Adler32State::new();
    adler32::update(&mut pieces, &data, 0, 1000);
    adler32::update(&mut pieces, &data, 1000, 5000);
    assert_eq!(adler32::get_value(&pieces), adler32::get_value(&whole));
}
