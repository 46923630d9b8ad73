use soltia::base_canvas;
use soltia::bitmap_font::{self, BitmapFontState, GlyphOp};
use soltia::font_manager::{self, FontManagerState};

fn crc32_reference(bytes: &[u8]) -> u32 {
    let mut crc: u32 = 0xFFFF_FFFF;
    for &b in bytes {
        crc ^= b as u32;
        for _ in 0..8 {
            crc = if crc & 1 != 0 { (crc >> 1) ^ 0xEDB8_8320 } else { crc >> 1 };
        }
    }
    !crc
}

/// A font whose glyph `g` (from '!') sits at x = 6 * g, so every glyph is 6 wide,
/// except 'i' and 'I' which are 3 wide.
fn font(accents: bool) -> BitmapFontState {
    let n = if accents { 104 } else { 95 };
    let mut offsets: Vec<i16> = Vec::new();
    let mut x: i16 = 0;
    for g in 0..n {
        offsets.push(x);
        let c = g + 33;
        x += if c == 'i' as i32 || c == 'I' as i32 { 3 } else { 6 };
    }
    let mut s = BitmapFontState::new();
    s.glyph_offsets = offsets;
    s.has_accents = accents;
    s.space_width = 4;
    s.kerning = 1;
    s.line_height = 12;
    s.ascent = 9;
    s
}

fn u(s: &str) -> Vec<u16> {
    s.encode_utf16().collect()
}

#[test]
fn crc32_matches_the_png_crc() {
    let data: Vec<i8> = b"IHDRabc".iter().map(|&b| b as i8).collect();
    assert_eq!(bitmap_font::crc32(&data, 0, 7) as u32, crc32_reference(b"IHDRabc"));
    assert_eq!(bitmap_font::crc32(&data, 4, 3) as u32, crc32_reference(b"abc"));
    assert_eq!(bitmap_font::crc32(&data, 2, 0), 0);
    assert_eq!(bitmap_font::crc32(&data, 2, -5), 0);
}

#[test]
fn patch_png_inks_the_palette_and_fixes_the_crc() {
    // chunk: length 6, "PLTE", two palette entries, CRC
    let mut png: Vec<i8> = vec![0, 0, 0, 6];
    png.extend(b"PLTE".iter().map(|&b| b as i8));
    png.extend([0i8, 0, 0, 0, 0, 0]);
    png.extend([0i8, 0, 0, 0]);
    bitmap_font::patch_png(&mut png, 0, 8, 0x12_34_56, 11, 0x00_AB_CD_EF);
    assert_eq!(&png[8..14], &[0x12, 0x34, 0x56, 0xAB_u8 as i8, 0xCD_u8 as i8, 0xEF_u8 as i8]);
    let body: Vec<u8> = png[4..14].iter().map(|&b| b as u8).collect();
    let crc = crc32_reference(&body);
    let stored = u32::from_be_bytes([png[14] as u8, png[15] as u8, png[16] as u8, png[17] as u8]);
    assert_eq!(stored, crc);

    // a negative secondary colour leaves the second entry alone
    let mut png2 = png.clone();
    bitmap_font::patch_png(&mut png2, 0, 8, 0x01_02_03, 11, -1);
    assert_eq!(&png2[8..14], &[1, 2, 3, 0xAB_u8 as i8, 0xCD_u8 as i8, 0xEF_u8 as i8]);
}

fn blob(line_height: u8, accents: bool, primary: Option<u16>) -> (Vec<i8>, Vec<i8>) {
    let n = if accents { 104 } else { 95 };
    let mut b: Vec<i8> = vec![1, 2, 3, 4, line_height as i8, 9, 4, 1];
    for g in 0..n {
        let v = (g * 6) as u16;
        b.push((v >> 8) as i8);
        b.push(v as i8);
    }
    let mut png: Vec<i8> = vec![0, 0, 0, 3];
    png.extend(b"PLTE".iter().map(|&x| x as i8));
    png.extend([7i8, 7, 7]);
    png.extend([0i8, 0, 0, 0]);
    let len = png.len() as u16;
    b.extend([(len >> 8) as i8, len as i8, 0, 0]);
    match primary {
        Some(p) => b.extend([(p >> 8) as i8, p as i8]),
        None => b.extend([-1i8, -1]),
    }
    b.extend([0i8, 0]);
    b.extend(png.iter().copied());
    (b, png)
}

#[test]
fn load_reads_the_metrics_and_offsets() {
    let (b, png) = blob(12, false, None);
    let mut s = BitmapFontState::new();
    let sheet = bitmap_font::load(&mut s, &b, 0xFFFFFF, -1);
    assert!(!s.has_accents);
    assert_eq!((s.line_height, s.ascent, s.space_width, s.kerning), (12, 9, 4, 1));
    assert_eq!(s.glyph_offsets.len(), 95);
    assert_eq!(s.glyph_offsets[10], 60);
    assert_eq!(s.bullet_color, 0xFFFFFF);
    assert_eq!(sheet, png);
}

#[test]
fn load_with_accents_and_a_primary_colour() {
    let (b, png) = blob(112, true, Some(8));
    let mut s = BitmapFontState::new();
    let sheet = bitmap_font::load(&mut s, &b, 0x0A0B0C, -1);
    assert!(s.has_accents);
    assert_eq!(s.line_height, 12);
    assert_eq!(s.glyph_offsets.len(), 104);
    let mut expect = png.clone();
    bitmap_font::patch_png(&mut expect, 0, 8, 0x0A0B0C, 0, -1);
    assert_eq!(sheet, expect);
    assert_eq!(&sheet[8..11], &[10, 11, 12]);
}

#[test]
fn char_widths() {
    let s = font(false);
    assert_eq!(bitmap_font::char_width(&s, 'A' as u16), 6);
    assert_eq!(bitmap_font::char_width(&s, 'i' as u16), 3);
    assert_eq!(bitmap_font::char_width(&s, ' ' as u16), 4);
    assert_eq!(bitmap_font::char_width(&s, '\n' as u16), 0);
    assert_eq!(bitmap_font::char_width(&s, 339), 7);
    assert_eq!(bitmap_font::char_width(&s, 'ì' as u16), 3);
    assert_eq!(bitmap_font::char_width(&s, 0xE6), 7);
    assert_eq!(bitmap_font::char_width(&s, 0xC6), 8);
    assert_eq!(bitmap_font::char_width(&s, 0xE7), 5);
    assert_eq!(bitmap_font::char_width(&s, 176), 4);
    let mut upper = font(false);
    upper.force_uppercase = true;
    assert_eq!(bitmap_font::char_width(&upper, 'i' as u16), 3);
    assert_eq!(bitmap_font::char_width(&upper, 'b' as u16), 6);
}

#[test]
fn string_widths_and_controls() {
    let mut s = font(false);
    let text = u("ab i");
    assert_eq!(bitmap_font::string_width_range(&s, &text, 0, 4), 5 + 5 + 3 + 2);
    assert_eq!(bitmap_font::string_width(&s, None), 0);
    assert_eq!(bitmap_font::string_width(&s, Some(&text)), 15);
    s.hide_controls = true;
    assert!(bitmap_font::is_control(&s, '$' as u16));
    assert!(!bitmap_font::is_control(&s, 'a' as u16));
    assert_eq!(bitmap_font::string_width(&s, Some(&u("a$b"))), 10);
    assert_eq!(bitmap_font::string_width_range(&s, &text, 3, -2), 0);
}

#[test]
fn line_height_depends_on_descenders() {
    let s = font(false);
    assert_eq!(bitmap_font::line_height_of(&s, &u("abc"), 0, 3), 10);
    assert_eq!(bitmap_font::line_height_of(&s, &u("agc"), 0, 3), 12);
    assert_eq!(bitmap_font::line_height_of(&s, &u("agc"), 2, 1), 10);
}

#[test]
fn drawing_a_run_places_each_glyph() {
    let s = font(false);
    let clip = (0, 0, 240, 320);
    let (ops, advance) = bitmap_font::draw_chars_range(&s, clip, &u("Ab c"), 0, 4, 10, 20, 20);
    assert_eq!(advance, 5 + 5 + 4 + 5);
    let a = s.glyph_offsets['A' as usize - 33] as i32;
    let b = s.glyph_offsets['b' as usize - 33] as i32;
    let c = s.glyph_offsets['c' as usize - 33] as i32;
    assert_eq!(
        ops,
        vec![
            GlyphOp::SetClip(0, 0, 240, 320),
            GlyphOp::ClipRect(10, 20, 6, 12),
            GlyphOp::DrawSheet(10 - a, 20),
            GlyphOp::SetClip(0, 0, 240, 320),
            GlyphOp::ClipRect(15, 20, 6, 12),
            GlyphOp::DrawSheet(15 - b, 20),
            GlyphOp::SetClip(0, 0, 240, 320),
            GlyphOp::ClipRect(24, 20, 6, 12),
            GlyphOp::DrawSheet(24 - c, 20),
            GlyphOp::SetClip(0, 0, 240, 320),
        ]
    );
}

#[test]
fn drawing_centres_and_stops_at_the_clip_edge() {
    let s = font(false);
    let clip = (0, 0, 12, 320);
    let (ops, advance) = bitmap_font::draw_chars_range(&s, clip, &u("abcd"), 0, 4, 20, 20, 1 | 32);
    // centred on 20: width 20, so the pen starts at 10; raised by the ascent + 1
    assert_eq!(ops[1], GlyphOp::ClipRect(10, 10, 6, 12));
    // the second glyph would start at 15, past the clip's right edge at 12
    assert_eq!(advance, 5);
    assert_eq!(ops.len(), 4);
    assert_eq!(ops[3], GlyphOp::SetClip(0, 0, 12, 320));
}

#[test]
fn drawing_an_accented_letter_adds_the_mark() {
    let s = font(true);
    let clip = (0, 0, 240, 320);
    let (ops, advance) = bitmap_font::draw_chars_range(&s, clip, &u("é"), 0, 1, 0, 0, 20);
    assert_eq!(advance, 5);
    assert_eq!(ops.len(), 7);
    let glyph_x = s.glyph_offsets['e' as usize - 33] as i32;
    let accent_x = s.glyph_offsets[98 + 1] as i32;
    assert_eq!(ops[1], GlyphOp::ClipRect(0, 0, 6, 12));
    assert_eq!(ops[2], GlyphOp::DrawSheet(-glyph_x, 0));
    assert_eq!(ops[3], GlyphOp::SetClip(0, 0, 240, 320));
    assert_eq!(ops[4], GlyphOp::ClipRect(0, -1, 6 + 1, 12));
    assert_eq!(ops[5], GlyphOp::DrawSheet(1 - accent_x, -1));
    assert_eq!(ops[6], GlyphOp::SetClip(0, 0, 240, 320));
}

#[test]
fn drawing_the_bullet() {
    let mut s = font(false);
    s.bullet_color = 0x00FF00;
    let clip = (0, 0, 240, 320);
    let (ops, advance) = bitmap_font::draw_chars_range(&s, clip, &[176u16], 0, 1, 5, 6, 0);
    assert_eq!(advance, 4);
    assert_eq!(
        ops,
        vec![
            GlyphOp::SetColor(0x00FF00),
            GlyphOp::SetClip(5, 6, 4, 4),
            GlyphOp::DrawArc(5, 6, 2, 2, 0, 360),
            GlyphOp::SetClip(0, 0, 240, 320),
        ]
    );
}

#[test]
fn numbers_are_drawn_digit_by_digit() {
    let clip = (0, 0, 240, 320);
    let ops = base_canvas::draw_number_at(1234, 100, 10, 8, clip);
    assert_eq!(
        ops,
        vec![
            GlyphOp::SetClip(84, 10, 5, 7),
            GlyphOp::DrawSheet(84 - 5, 10),
            GlyphOp::SetClip(88, 10, 5, 7),
            GlyphOp::DrawSheet(88 - 10, 10),
            GlyphOp::SetClip(92, 10, 5, 7),
            GlyphOp::DrawSheet(92 - 15, 10),
            GlyphOp::SetClip(96, 10, 5, 7),
            GlyphOp::DrawSheet(96 - 20, 10),
            GlyphOp::SetClip(0, 0, 240, 320),
        ]
    );
    // centred: four digits of advance 4 start 8 to the left
    let ops = base_canvas::draw_number(1234, 100, 10, 1, 0, 0, clip);
    assert_eq!(ops[0], GlyphOp::SetClip(92, 10, 5, 7));
}

#[test]
fn number_styles_cut_at_the_world_bottom() {
    let clip = (1, 2, 3, 4);
    let ops = base_canvas::draw_number(-7, 50, 100, 0, 1, 105, clip);
    assert_eq!(
        ops,
        vec![GlyphOp::SetClip(50, 100, 7, 5), GlyphOp::DrawSheet(50 + 49, 100), GlyphOp::SetClip(1, 2, 3, 4)]
    );
    let ops = base_canvas::draw_number(0, 0, 0, 0, 3, 1000, clip);
    assert_eq!(ops[0], GlyphOp::SetClip(0, 0, 9, 14));
    assert_eq!(ops[1], GlyphOp::DrawSheet(0, 0));
}

#[test]
fn fonts_are_picked_by_pen_colour_and_size() {
    let font_with_height = |h: i32| {
        let mut f = font(false);
        f.line_height = h;
        f
    };
    let mut s = FontManagerState::new();
    s.small_black = Some(font_with_height(1));
    s.small_white = Some(font_with_height(2));
    s.small_orange = Some(font_with_height(3));
    s.big_black = Some(font_with_height(4));
    s.big_white = Some(font_with_height(5));
    assert_eq!(font_manager::font_for_color(&s, 0).line_height, 1);
    assert_eq!(font_manager::font_for_color(&s, 0xFFFFFF).line_height, 2);
    assert_eq!(font_manager::font_for_color(&s, 0xFF8800).line_height, 3);
    font_manager::set_big_font(&mut s, true);
    assert_eq!(font_manager::font_for_color(&s, 0).line_height, 4);
    assert_eq!(font_manager::font_for_color(&s, 0xFFFFFF).line_height, 5);
    assert_eq!(font_manager::font_for_color(&s, 0x123456).line_height, 4);
    assert_eq!(font_manager::line_height(&s), 4);
    font_manager::set_big_font(&mut s, false);
    assert_eq!(font_manager::line_height(&s), 1);
    assert_eq!(font_manager::line_spacing(&s), 2);
    assert_eq!(font_manager::string_width(&s, &u("ab")), 10);
}

fn loading_fonts() -> FontManagerState {
    let mut s = FontManagerState::new();
    s.small_black = Some(font(false));
    s.small_white = Some(font(false));
    s.small_orange = Some(font(false));
    font_manager::set_big_font(&mut s, false);
    s
}

fn loading_canvas(phase: i32) -> soltia::base_canvas::BaseCanvasState {
    let mut c = soltia::base_canvas::BaseCanvasState::new();
    c.width = 240;
    c.height = 320;
    c.half_w = 120;
    c.half_h = 160;
    c.load_phase = phase;
    c.load_progress = 30;
    c.load_total = 100;
    c
}

#[test]
fn font_manager_draws_in_the_pen_colours_font() {
    let fm = loading_fonts();
    let clip = (0, 0, 240, 320);
    let (ops, advance) = font_manager::draw_chars(&fm, 0x123456, clip, 5, 6, &u("ab"), 0);
    let (expected, expected_advance) = bitmap_font::draw_chars(&font(false), clip, &u("ab"), 5, 6, 20);
    assert_eq!(ops, expected);
    assert_eq!(advance, expected_advance);
    assert_eq!(advance, 10);
}

#[test]
fn the_loading_wipe_shifts_its_bars_each_phase() {
    let fm = FontManagerState::new();
    let clip = (0, 0, 240, 24);
    let mut c = loading_canvas(0);
    c.height = 24;
    let ops = base_canvas::draw_loading_screen(&mut c, &fm, clip, &[], &[]);
    assert_eq!(
        ops,
        vec![GlyphOp::SetColor(0), GlyphOp::FillRect(0, 0, 240, 4), GlyphOp::FillRect(0, 12, 240, 4)]
    );
    assert_eq!(c.load_phase, 1);
    c.load_phase = 2;
    let ops = base_canvas::draw_loading_screen(&mut c, &fm, clip, &[], &[]);
    assert_eq!(
        ops,
        vec![GlyphOp::SetColor(0), GlyphOp::FillRect(0, 8, 240, 4), GlyphOp::FillRect(0, 20, 240, 4)]
    );
    assert_eq!(c.load_phase, 3);
}

fn loading_frame(fm: &FontManagerState, clip: (i32, i32, i32, i32)) -> Vec<GlyphOp> {
    let f = font(false);
    let mut expected = vec![GlyphOp::SetColor(0), GlyphOp::FillRect(0, 0, 240, 320), GlyphOp::SetColor(14663551)];
    expected.extend(bitmap_font::draw_chars(&f, clip, &u("Load"), 72, 148, 20).0);
    expected.extend(vec![
        GlyphOp::DrawLine(70, 160, 168, 160),
        GlyphOp::FillRect(69, 161, 2, 2),
        GlyphOp::FillRect(168, 161, 2, 2),
        GlyphOp::SetColor(10452799),
        GlyphOp::DrawLine(70, 165, 168, 165),
        GlyphOp::FillRect(69, 163, 2, 2),
        GlyphOp::FillRect(168, 163, 2, 2),
    ]);
    let w = font_manager::string_width(fm, &u("Wait"));
    assert_eq!(w, 17);
    expected.extend(bitmap_font::draw_chars(&f, clip, &u("Wait"), 112, 210, 20).0);
    expected
}

#[test]
fn the_loading_frame_has_the_title_rule_and_subtitle() {
    let fm = loading_fonts();
    let clip = (0, 0, 240, 320);
    let mut c = loading_canvas(3);
    let ops = base_canvas::draw_loading_screen(&mut c, &fm, clip, &u("Load"), &u("Wait"));
    assert_eq!(ops, loading_frame(&fm, clip));
    assert_eq!(c.load_phase, 4);
}

#[test]
fn loading_progress_adds_dots_and_the_bar() {
    let fm = loading_fonts();
    let clip = (0, 0, 240, 320);
    let f = font(false);
    let mut c = loading_canvas(6);
    let ops = base_canvas::draw_loading_screen(&mut c, &fm, clip, &u("Load"), &u("Wait"));
    let mut expected = loading_frame(&fm, clip);
    expected.extend(vec![GlyphOp::SetColor(0), GlyphOp::FillRect(140, 148, 18, 10), GlyphOp::SetColor(14663551)]);
    expected.extend(bitmap_font::draw_chars(&f, clip, &u(".."), 140, 148, 20).0);
    // 95 * 30 / 100 = 28 pixels
    expected.extend(vec![
        GlyphOp::SetColor(14655295),
        GlyphOp::FillRect(72, 162, 28, 1),
        GlyphOp::SetColor(16777087),
        GlyphOp::FillRect(72, 163, 28, 1),
    ]);
    assert_eq!(ops, expected);
    assert_eq!(c.load_phase, 7);
    // past the total the bar stays full
    c.load_progress = 500;
    let ops = base_canvas::draw_loading_screen(&mut c, &fm, clip, &u("Load"), &u("Wait"));
    assert_eq!(ops[ops.len() - 1], GlyphOp::FillRect(72, 163, 95, 1));
}

#[test]
fn clearing_the_screen_opens_the_clip_and_fills_black() {
    let c = loading_canvas(0);
    assert_eq!(
        font_manager::clear_screen(&c),
        vec![GlyphOp::SetClip(0, 0, 240, 320), GlyphOp::SetColor(0), GlyphOp::FillRect(0, 0, 240, 320)]
    );
}

#[test]
fn centred_text_is_drawn_around_x() {
    let fm = loading_fonts();
    let clip = (0, 0, 240, 320);
    let ops = font_manager::draw_chars_centered(&fm, 0, clip, 100, 6, &u("ab"), 1);
    assert_eq!(ops, bitmap_font::draw_chars(&font(false), clip, &u("ab"), 100, 6, 17).0);
    // "ab" is 10 wide: the first glyph starts at 95
    assert_eq!(ops[1], GlyphOp::ClipRect(95, 6, 6, 12));
}

#[test]
fn soft_keys_sit_in_the_bottom_corners() {
    let fm = loading_fonts();
    let c = loading_canvas(0);
    let clip = (0, 0, 240, 320);
    let ops = font_manager::draw_soft_keys(&fm, &c, Some(&u("ab")), Some(&u("abc")));
    // bar = line height 12 + 5; top = 320 - 17 + 3 = 306
    let mut expected = vec![
        GlyphOp::SetClip(0, 0, 240, 320),
        GlyphOp::SetColor(0),
        GlyphOp::FillRect(0, 306, 12, 17),
        GlyphOp::SetColor(16777215),
    ];
    expected.extend(bitmap_font::draw_chars(&font(false), clip, &u("ab"), 1, 307, 20).0);
    expected.extend(vec![GlyphOp::SetColor(0), GlyphOp::FillRect(223, 306, 17, 17), GlyphOp::SetColor(16777215)]);
    expected.extend(bitmap_font::draw_chars(&font(false), clip, &u("abc"), 224, 307, 20).0);
    assert_eq!(ops, expected);
    let only_right = font_manager::draw_soft_keys(&fm, &c, None, Some(&u("abc")));
    assert_eq!(only_right[1], GlyphOp::SetColor(0));
    assert_eq!(only_right[2], GlyphOp::FillRect(223, 306, 17, 17));
    assert_eq!(font_manager::draw_soft_keys(&fm, &c, None, None), vec![GlyphOp::SetClip(0, 0, 240, 320)]);
}

#[test]
fn menu_items_use_the_big_font_and_highlight_even_states() {
    let mut fm = loading_fonts();
    let wide = || {
        let mut f = font(false);
        f.kerning = 0;
        f
    };
    let big_white = wide();
    fm.big_black = Some(font(false));
    fm.big_white = Some(wide());
    fm.main_menu_labels = vec![Some(u("ab")), Some(u("abc"))];
    let c = loading_canvas(0);
    let clip = (0, 0, 240, 320);
    let ops = font_manager::draw_menu_item(&mut fm, &c, clip, 2, 0, 40);
    let mut expected = vec![GlyphOp::SetColor(16777215)];
    expected.extend(bitmap_font::draw_chars(&big_white, clip, &u("abc"), 120, 44, 17).0);
    assert_eq!(ops, expected);
    assert!(!fm.big_font_active);
    let ops = font_manager::draw_menu_item(&mut fm, &c, clip, 1, 0, 40);
    let mut expected = vec![GlyphOp::SetColor(0)];
    expected.extend(bitmap_font::draw_chars(&font(false), clip, &u("ab"), 120, 44, 17).0);
    assert_eq!(ops, expected);
}

#[test]
fn fractions_put_the_slash_between_the_numbers() {
    let clip = (0, 0, 240, 320);
    let ops = base_canvas::draw_fraction(100, 10, 7, 25, clip);
    // 25 is two digits, 9 pixels wide
    let mut expected = base_canvas::draw_number_at(25, 100, 10, 8, clip);
    expected.push(GlyphOp::DrawFractionSlash(91, 10));
    expected.extend(base_canvas::draw_number_at(7, 82, 10, 8, clip));
    assert_eq!(ops, expected);
}

#[test]
fn label_boxes_frame_their_text() {
    let fm = loading_fonts();
    let clip = (0, 0, 240, 320);
    let (ops, next_x) = base_canvas::draw_label_box(&fm, clip, &u("ab"), 20, 30);
    let mut expected = vec![GlyphOp::SetColor(0), GlyphOp::FillRect(19, 29, 12, 14), GlyphOp::SetColor(16777215)];
    expected.extend(bitmap_font::draw_chars(&font(false), clip, &u("ab"), 20, 30, 20).0);
    assert_eq!(ops, expected);
    assert_eq!(next_x, 32);
}

#[test]
fn one_shot_crc_matches_the_running_crc() {
    let data: Vec<i8> = b"123456789".iter().map(|&b| b as i8).collect();
    let mut c = soltia::crc32::Crc32State::new();
    soltia::crc32::update(&mut c, &data, 0, 9);
    assert_eq!(bitmap_font::crc32(&data, 0, 9), soltia::crc32::get_value(&c));
    assert_eq!(bitmap_font::crc32(&data, 0, 9), -873187034);
}
