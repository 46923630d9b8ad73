//! The `.mf` bitmap fonts: the header and glyph-offset table at the head of a
//! font file, the ink colours patched into the embedded PNG's palette (with
//! that chunk's CRC recomputed), and the glyph metrics. Decoding the patched PNG
//! into an image and blitting glyphs is the drawing side's work.

use vstd::prelude::*;
use crate::adler32::{byte_window, window_in_bounds};
use crate::byte_util::{spec_be_byte, spec_read_s32, spec_read_u16, write_i32};
use crate::crc32::{crc_fold, crc_table, crc_table_entry, Crc32State};
use crate::jvm::{iushr, lemma_low_byte};

verus! {

/// A bitmap font's metrics.
pub struct BitmapFontState {
    /// Draw letters upper-case.
    pub force_uppercase: bool,
    /// Hide the markup characters `$ @ |`.
    pub hide_controls: bool,
    /// Colour of the bullet glyph.
    pub bullet_color: i32,
    /// Line height in pixels.
    pub line_height: i32,
    /// Ascent in pixels.
    pub ascent: i32,
    /// Width of a space.
    pub space_width: i32,
    /// Pixels taken off each glyph's advance.
    pub kerning: i32,
    /// Cumulative x offsets of the glyphs in the sheet, from `'!'`.
    pub glyph_offsets: Vec<i16>,
    /// Extra spacing between lines.
    pub line_spacing: i32,
    /// Whether the sheet has the accent marks.
    pub has_accents: bool,
}

impl BitmapFontState {
    /// A font before loading: line spacing 2, accents assumed, the rest zero.
    pub fn new() -> (s: Self)
        ensures
            !s.force_uppercase && !s.hide_controls && s.bullet_color == 0,
            s.line_height == 0 && s.ascent == 0 && s.space_width == 0 && s.kerning == 0,
            s.glyph_offsets@.len() == 0,
            s.line_spacing == 2 && s.has_accents,
    {
        BitmapFontState {
            force_uppercase: false,
            hide_controls: false,
            bullet_color: 0,
            line_height: 0,
            ascent: 0,
            space_width: 0,
            kerning: 0,
            glyph_offsets: Vec::new(),
            line_spacing: 2,
            has_accents: true,
        }
    }
}

impl Default for BitmapFontState {
    fn default() -> (s: Self)
        ensures
            !s.force_uppercase && !s.hide_controls && s.bullet_color == 0,
            s.line_height == 0 && s.ascent == 0 && s.space_width == 0 && s.kerning == 0,
            s.glyph_offsets@.len() == 0,
            s.line_spacing == 2 && s.has_accents,
    {
        BitmapFontState::new()
    }
}

/// The standard CRC-32 of `length` bytes of `data` from `offset` (0 for an
/// empty or negative length).
pub open spec fn spec_crc32(data: Seq<i8>, offset: i32, length: i32) -> i32 {
    crc_fold(-1i32, byte_window(data, offset, length)) ^ (-1i32)
}

/// The one-shot CRC of a window is the finished value of a running CRC that
/// starts fresh (`crc == -1`, as [`Crc32State::new`] gives) and is fed that window
/// by [`crate::crc32::update`]: for every window inside the buffer whose end
/// position is an `int`, whatever the buffer's length.
pub proof fn lemma_crc32_is_running_crc(data: Seq<i8>, offset: i32, length: i32, fresh: Crc32State, fed: Crc32State)
    requires
        window_in_bounds(data.len(), offset, length),
        length <= 0 || offset + length <= i32::MAX,
        fresh.crc == -1,
        fed.crc == if length > 0 && offset + length > i32::MAX {
            fresh.crc
        } else {
            crc_fold(fresh.crc, byte_window(data, offset, length))
        },
    ensures
        spec_crc32(data, offset, length) == fed.crc ^ (-1i32),
{
}

/// `crc32(data, offset, length)`: the CRC-32 (polynomial 0xEDB88320) of the
/// window, as PNG chunks carry it. The window's positions are `int`s, so it
/// ends at `i32::MAX` at the latest.
pub fn crc32(data: &[i8], offset: i32, length: i32) -> (r: i32)
    requires
        window_in_bounds(data@.len(), offset, length),
        length <= 0 || offset + length <= i32::MAX,
    ensures
        r == spec_crc32(data@, offset, length),
{
    let table = crc_table();
    if length <= 0 {
        assert(crc_fold(-1i32, Seq::<i8>::empty()) == -1);
        return (-1i32) ^ (-1i32);
    }
    let ghost whole = byte_window(data@, offset, length);
    let mut crc: i32 = -1;
    let mut pos: i32 = offset;
    let end: i32 = offset + length;
    while pos < end
        invariant
            0 <= offset <= pos <= end,
            end == offset + length,
            end <= data@.len(),
            table@.len() == 256,
            forall|n: int| 0 <= n < 256 ==> #[trigger] table@[n] == crc_table_entry(n),
            whole == data@.subrange(offset as int, end as int),
            crc == crc_fold(-1i32, whole.take(pos - offset)),
        decreases end - pos,
    {
        let prev = crc;
        let byte = data[pos as usize];
        let idx: i32 = (prev ^ (byte as i32)) & 255;
        proof {
            lemma_low_byte(prev ^ (byte as i32));
            assert(whole.take(pos - offset + 1).drop_last() =~= whole.take(pos - offset));
        }
        let u = iushr(prev, 8);
        let t = table[idx as usize];
        proof {
            assert(u == ((prev as u32) >> 8u32) as i32);
            assert((u & 16777215) ^ t == t ^ u) by (bit_vector)
                requires
                    u == ((prev as u32) >> 8u32) as i32,
            ;
        }
        crc = t ^ u;
        pos = pos + 1;
    }
    assert(whole.take(end - offset) =~= whole);
    crc ^ (-1i32)
}

/// The PNG after `patch_png`: the primary ink colour's three bytes at `p`, the
/// secondary's at `q` when `q > 0` and the colour is not negative, then the
/// chunk at `o` given its recomputed CRC.
pub open spec fn spec_patch_png(png: Seq<i8>, o: int, p: int, pc: i32, q: int, sc: i32) -> Seq<i8> {
    let chunk_len = spec_read_s32(png[o], png[o + 1], png[o + 2], png[o + 3]);
    let with_primary = png.update(p, spec_be_byte(pc, 1)).update(p + 1, spec_be_byte(pc, 2)).update(
        p + 2,
        spec_be_byte(pc, 3),
    );
    let inked = if q > 0 && sc >= 0 {
        with_primary.update(q, spec_be_byte(sc, 1)).update(q + 1, spec_be_byte(sc, 2)).update(
            q + 2,
            spec_be_byte(sc, 3),
        )
    } else {
        with_primary
    };
    let crc = spec_crc32(inked, (o + 4) as i32, (chunk_len + 4) as i32);
    let crc_pos = o + 8 + chunk_len;
    inked.update(crc_pos, spec_be_byte(crc, 0)).update(crc_pos + 1, spec_be_byte(crc, 1)).update(
        crc_pos + 2,
        spec_be_byte(crc, 2),
    ).update(crc_pos + 3, spec_be_byte(crc, 3))
}

/// What `patch_png` needs of the PNG: the chunk's length field, the colour
/// slots and the CRC slot all inside the array.
pub open spec fn patch_fits(png: Seq<i8>, o: int, p: int, q: int, sc: i32) -> bool {
    let chunk_len = spec_read_s32(png[o], png[o + 1], png[o + 2], png[o + 3]);
    &&& png.len() <= i32::MAX
    &&& 0 <= o && o + 4 <= png.len()
    &&& 0 <= p && p + 3 <= png.len()
    &&& (q > 0 && sc >= 0) ==> q + 3 <= png.len()
    &&& 0 <= o + 8 + chunk_len && o + 8 + chunk_len + 4 <= png.len()
}

fn set_color_bytes(png: &mut Vec<i8>, at: i32, color: i32)
    requires
        0 <= at,
        at + 3 <= old(png)@.len(),
    ensures
        final(png)@ == old(png)@.update(at as int, spec_be_byte(color, 1)).update(
            at + 1,
            spec_be_byte(color, 2),
        ).update(at + 2, spec_be_byte(color, 3)),
{
    let i = at as usize;
    png.set(i, ((color >> 16) & 255) as i8);
    png.set(i + 1, ((color >> 8) & 255) as i8);
    png.set(i + 2, (color & 255) as i8);
}

/// Writes the ink colour(s) into the
/// palette chunk at `chunk_offset` and recomputes that chunk's CRC in place.
pub fn patch_png(
    png: &mut Vec<i8>,
    chunk_offset: i32,
    primary_color_offset: i32,
    primary_color: i32,
    secondary_color_offset: i32,
    secondary_color: i32,
)
    requires
        patch_fits(
            old(png)@,
            chunk_offset as int,
            primary_color_offset as int,
            secondary_color_offset as int,
            secondary_color,
        ),
    ensures
        final(png)@ == spec_patch_png(
            old(png)@,
            chunk_offset as int,
            primary_color_offset as int,
            primary_color,
            secondary_color_offset as int,
            secondary_color,
        ),
{
    let o = chunk_offset as usize;
    let chunk_len: i32 = (((png[o] as i32) & 255) << 24) | (((png[o + 1] as i32) & 255) << 16) | (((
    png[o + 2] as i32) & 255) << 8) | ((png[o + 3] as i32) & 255);
    let ghost start = png@;
    set_color_bytes(png, primary_color_offset, primary_color);
    if secondary_color_offset > 0 && secondary_color >= 0 {
        set_color_bytes(png, secondary_color_offset, secondary_color);
    }
    let ghost inked = png@;
    let crc = crc32(png.as_slice(), chunk_offset + 4, chunk_len + 4);
    let crc_pos = chunk_offset + (8 + chunk_len);
    write_i32(crc, png, crc_pos);
    proof {
        let cp = crc_pos as int;
        let expect = inked.update(cp, spec_be_byte(crc, 0)).update(cp + 1, spec_be_byte(crc, 1)).update(
            cp + 2,
            spec_be_byte(crc, 2),
        ).update(cp + 3, spec_be_byte(crc, 3));
        assert(png@ =~= expect);
    }
}

/// The unsigned 16-bit big-endian field at `pos`.
pub open spec fn u16_field(blob: Seq<i8>, pos: int) -> int {
    ((blob[pos] as int + 256) % 256) * 256 + (blob[pos + 1] as int + 256) % 256
}

/// The unsigned byte at `pos`.
pub open spec fn u8_field(blob: Seq<i8>, pos: int) -> int {
    (blob[pos] as int + 256) % 256
}

/// Whether the font file `blob` declares the accent marks (a line height field
/// above 100).
pub open spec fn blob_has_accents(blob: Seq<i8>) -> bool {
    u8_field(blob, 4) - 100 > 0
}

/// The number of glyph offsets in the font file: 95, plus 9 accent marks.
pub open spec fn glyph_count(blob: Seq<i8>) -> int {
    95 + if blob_has_accents(blob) { 9int } else { 0int }
}

/// Where the trailer (PNG length, chunk offset, colour offsets) starts.
pub open spec fn trailer_pos(blob: Seq<i8>) -> int {
    8 + 2 * glyph_count(blob)
}

/// The PNG length field.
pub open spec fn png_length(blob: Seq<i8>) -> int {
    u16_field(blob, trailer_pos(blob))
}

/// The palette chunk offset field.
pub open spec fn chunk_offset(blob: Seq<i8>) -> int {
    u16_field(blob, trailer_pos(blob) + 2)
}

/// The primary colour offset field, -1 when it reads `FF FF`.
pub open spec fn primary_offset(blob: Seq<i8>) -> int {
    let t = trailer_pos(blob);
    if u8_field(blob, t + 4) == 255 && u8_field(blob, t + 5) == 255 {
        -1
    } else {
        u16_field(blob, t + 4)
    }
}

/// The secondary colour offset field.
pub open spec fn secondary_offset(blob: Seq<i8>) -> int {
    u16_field(blob, trailer_pos(blob) + 6)
}

/// The embedded PNG as stored.
pub open spec fn raw_png(blob: Seq<i8>) -> Seq<i8> {
    let start = trailer_pos(blob) + 8;
    blob.subrange(start, start + png_length(blob))
}

/// A font file that `load` can read: the header, the offsets, the trailer and
/// the PNG are all there, and a palette patch fits the PNG.
pub open spec fn font_blob_ok(blob: Seq<i8>, secondary_color: i32) -> bool {
    &&& blob.len() <= i32::MAX
    &&& blob.len() >= 5
    &&& trailer_pos(blob) + 8 + png_length(blob) <= blob.len()
    &&& primary_offset(blob) > 0 ==> patch_fits(
        raw_png(blob),
        chunk_offset(blob),
        primary_offset(blob),
        secondary_offset(blob),
        secondary_color,
    )
}

fn read_u8(blob: &[i8], pos: usize) -> (r: i32)
    requires
        pos < blob@.len(),
    ensures
        r == u8_field(blob@, pos as int),
        0 <= r < 256,
{
    let b = blob[pos];
    if b < 0 {
        b as i32 + 256
    } else {
        b as i32
    }
}

fn read_u16_field(blob: &[i8], pos: usize) -> (r: i32)
    requires
        pos + 1 < blob@.len(),
    ensures
        r == u16_field(blob@, pos as int),
        0 <= r < 65536,
{
    let n = blob.len();
    let hi = read_u8(blob, pos);
    let lo = read_u8(blob, pos + 1);
    hi * 256 + lo
}

/// `load(stream, primary_color, secondary_color)`: reads the metrics and the
/// glyph offsets off the head of the font file `blob` and returns its PNG with
/// the ink colours patched in (when the file gives a primary colour offset),
/// ready to be decoded as the glyph sheet.
pub fn load(s: &mut BitmapFontState, blob: &[i8], primary_color: i32, secondary_color: i32) -> (png: Vec<i8>)
    requires
        font_blob_ok(blob@, secondary_color),
    ensures
        final(s).bullet_color == primary_color,
        final(s).has_accents == blob_has_accents(blob@),
        final(s).line_height == u8_field(blob@, 4) - if blob_has_accents(blob@) { 100int } else { 0int },
        final(s).ascent == u8_field(blob@, 5),
        final(s).space_width == u8_field(blob@, 6),
        final(s).kerning == u8_field(blob@, 7),
        final(s).glyph_offsets@.len() == glyph_count(blob@),
        forall|g: int|
            0 <= g < glyph_count(blob@) ==> #[trigger] final(s).glyph_offsets@[g] == spec_read_u16(
                blob@[8 + 2 * g],
                blob@[9 + 2 * g],
            ),
        final(s).force_uppercase == old(s).force_uppercase,
        final(s).hide_controls == old(s).hide_controls,
        final(s).line_spacing == old(s).line_spacing,
        png@ == if primary_offset(blob@) > 0 {
            spec_patch_png(
                raw_png(blob@),
                chunk_offset(blob@),
                primary_offset(blob@),
                primary_color,
                secondary_offset(blob@),
                secondary_color,
            )
        } else {
            raw_png(blob@)
        },
{
    s.bullet_color = primary_color;
    let raw_height = read_u8(blob, 4);
    s.line_height = raw_height;
    s.has_accents = false;
    if raw_height - 100 > 0 {
        s.line_height = raw_height - 100;
        s.has_accents = true;
    }
    s.ascent = read_u8(blob, 5);
    s.space_width = read_u8(blob, 6);
    s.kerning = read_u8(blob, 7);
    let count: usize = if s.has_accents { 104 } else { 95 };
    let mut offsets: Vec<i16> = Vec::new();
    let mut g: usize = 0;
    while g < count
        invariant
            g <= count,
            count == glyph_count(blob@),
            trailer_pos(blob@) <= blob@.len(),
            offsets@.len() == g,
            forall|k: int|
                0 <= k < g ==> #[trigger] offsets@[k] == spec_read_u16(blob@[8 + 2 * k], blob@[9 + 2 * k]),
        decreases count - g,
    {
        let b0 = blob[8 + 2 * g];
        let b1 = blob[9 + 2 * g];
        offsets.push(((((b0 as i32) & 255) << 8) | ((b1 as i32) & 255)) as i16);
        g = g + 1;
    }
    s.glyph_offsets = offsets;
    let t: usize = 8 + 2 * count;
    let png_len = read_u16_field(blob, t);
    let chunk_off = read_u16_field(blob, t + 2);
    let hi = read_u8(blob, t + 4);
    let lo = read_u8(blob, t + 5);
    let primary_off: i32 = if hi == 255 && lo == 255 {
        -1
    } else {
        hi * 256 + lo
    };
    let secondary_off = read_u16_field(blob, t + 6);
    let start: usize = t + 8;
    let mut png: Vec<i8> = Vec::new();
    let mut i: usize = 0;
    let n = png_len as usize;
    while i < n
        invariant
            i <= n,
            n == png_length(blob@),
            start == trailer_pos(blob@) + 8,
            start + n <= blob@.len(),
            png@ == blob@.subrange(start as int, start + i),
        decreases n - i,
    {
        png.push(blob[start + i]);
        i = i + 1;
        assert(png@ =~= blob@.subrange(start as int, start + i));
    }
    if primary_off > 0 {
        patch_png(&mut png, chunk_off, primary_off, primary_color, secondary_off, secondary_color);
    }
    png
}

/// The glyph a character is measured by, and whether it was an upper-case
/// accented letter (folded to lower case first).
pub open spec fn width_glyph(c: u16) -> (int, bool) {
    let folded = 192 <= c && c < 223;
    let c1: int = if folded { c + 32 } else { c as int };
    let c2: int = if c1 > 127 {
        if c1 == 161 {
            129
        } else if c1 == 176 {
            176
        } else if c1 == 191 {
            130
        } else if c1 == 223 {
            127
        } else if 224 <= c1 <= 229 {
            97
        } else if c1 == 230 {
            if folded { 136 } else { 138 }
        } else if c1 == 231 {
            if folded { 128 } else { 137 }
        } else if 232 <= c1 <= 235 {
            101
        } else if 236 <= c1 <= 239 {
            105
        } else if c1 == 241 {
            110
        } else if 242 <= c1 <= 246 {
            111
        } else if 249 <= c1 <= 252 {
            117
        } else {
            46
        }
    } else {
        c1
    };
    (c2, folded)
}

/// The width of glyph `code` in the sheet.
pub open spec fn glyph_span(offsets: Seq<i16>, code: int) -> int {
    offsets[code - 33 + 1] - offsets[code - 33]
}

/// `char_width(c)`: a space is `space_width`, other control and non-Latin-1
/// characters 0, the oe ligature 7; the special sheet-tail glyphs have fixed
/// widths; other characters are measured on their sheet glyph (upper-case
/// letters for an upper-case font or a folded accented capital).
pub open spec fn spec_char_width(s: BitmapFontState, c: u16) -> int {
    if c == 339 {
        7
    } else if c <= 32 || c >= 256 {
        if c == 32 { s.space_width as int } else { 0 }
    } else {
        let (code, folded) = width_glyph(c);
        if code == 136 {
            8
        } else if code == 137 {
            5
        } else if code == 138 {
            7
        } else if code == 176 {
            4
        } else if (s.force_uppercase || folded) && 97 <= code <= 122 {
            glyph_span(s.glyph_offsets@, code - 32)
        } else {
            glyph_span(s.glyph_offsets@, code)
        }
    }
}

/// The sheet has the glyph `char_width(c)` measures.
pub open spec fn char_width_ok(s: BitmapFontState, c: u16) -> bool {
    let code = width_glyph(c).0;
    c == 339 || c <= 32 || c >= 256 || code == 136 || code == 137 || code == 138 || code == 176
        || code - 32 < s.glyph_offsets@.len()
}

/// `char_width(c)`: see [`spec_char_width`].
pub fn char_width(s: &BitmapFontState, c: u16) -> (r: i32)
    requires
        char_width_ok(*s, c),
    ensures
        r == spec_char_width(*s, c),
{
    if c == 339 {
        return 7;
    }
    if c <= 32 || c >= 256 {
        if c == 32 {
            return s.space_width;
        }
        return 0;
    }
    let folded = 192 <= c && c < 223;
    let mut code: u16 = c;
    if folded {
        code = c + 32;
    }
    if code > 127 {
        code = if code == 161 {
            129
        } else if code == 176 {
            176
        } else if code == 191 {
            130
        } else if code == 223 {
            127
        } else if 224 <= code && code <= 229 {
            97
        } else if code == 230 {
            if folded { 136 } else { 138 }
        } else if code == 231 {
            if folded { 128 } else { 137 }
        } else if 232 <= code && code <= 235 {
            101
        } else if 236 <= code && code <= 239 {
            105
        } else if code == 241 {
            110
        } else if 242 <= code && code <= 246 {
            111
        } else if 249 <= code && code <= 252 {
            117
        } else {
            46
        };
    }
    if code >= 136 {
        if code == 136 {
            return 8;
        }
        if code == 137 {
            return 5;
        }
        if code == 138 {
            return 7;
        }
        if code == 176 {
            return 4;
        }
    }
    let idx = (code - 33) as usize;
    let mut width: i32 = s.glyph_offsets[idx + 1] as i32 - s.glyph_offsets[idx] as i32;
    if (s.force_uppercase || folded) && code >= 97 && code <= 122 {
        let up = (code - 32 - 33) as usize;
        width = s.glyph_offsets[up + 1] as i32 - s.glyph_offsets[up] as i32;
    }
    width
}

/// `is_control(c)`: with controls hidden, the markup characters `$`, `@` and `|`.
pub open spec fn spec_is_control(s: BitmapFontState, c: u16) -> bool {
    s.hide_controls && (c == 36 || c == 64 || c == 124)
}

/// `is_control(c)`.
pub fn is_control(s: &BitmapFontState, c: u16) -> (r: bool)
    ensures
        r == spec_is_control(*s, c),
{
    if !s.hide_controls {
        return false;
    }
    c == 36 || c == 64 || c == 124
}

/// The total advance of `chars[start..end]` in 32-bit wrapping arithmetic.
pub open spec fn width_sum(s: BitmapFontState, chars: Seq<u16>, start: int, end: int) -> i32
    decreases end - start,
{
    if end <= start {
        0
    } else {
        let w = width_sum(s, chars, start, end - 1);
        if spec_is_control(s, chars[end - 1]) {
            w
        } else {
            vstd::wrapping::i32_specs::wrapping_add(
                w,
                vstd::wrapping::i32_specs::wrapping_sub(
                    spec_char_width(s, chars[end - 1]) as i32,
                    s.kerning,
                ),
            )
        }
    }
}

/// `chars[start..start + count]` (the wrapped end) can be measured.
pub open spec fn range_ok(s: BitmapFontState, chars: Seq<u16>, start: i32, count: i32) -> bool {
    let end = vstd::wrapping::i32_specs::wrapping_add(start, count);
    start < end ==> {
        &&& 0 <= start
        &&& end <= chars.len()
        &&& forall|i: int| start <= i < end ==> char_width_ok(s, #[trigger] chars[i])
    }
}

proof fn lemma_char_width_fits(s: BitmapFontState, c: u16)
    requires
        char_width_ok(s, c),
    ensures
        i32::MIN <= spec_char_width(s, c) <= i32::MAX,
{
}

/// `string_width(chars, start, count)`: the total advance of the characters, in
/// 32-bit wrapping arithmetic.
pub fn string_width_range(s: &BitmapFontState, chars: &[u16], start: i32, count: i32) -> (r: i32)
    requires
        range_ok(*s, chars@, start, count),
    ensures
        r == width_sum(*s, chars@, start as int, vstd::wrapping::i32_specs::wrapping_add(start, count) as int),
{
    let mut width: i32 = 0;
    let end: i32 = start.wrapping_add(count);
    let mut i: i32 = start;
    if end <= start {
        return 0;
    }
    while i < end
        invariant
            start <= i <= end,
            end == vstd::wrapping::i32_specs::wrapping_add(start, count),
            0 <= start,
            end <= chars@.len(),
            forall|k: int| start <= k < end ==> char_width_ok(*s, #[trigger] chars@[k]),
            width == width_sum(*s, chars@, start as int, i as int),
        decreases end - i,
    {
        let c = chars[i as usize];
        assert(char_width_ok(*s, chars@[i as int]));
        if !is_control(s, c) {
            proof {
                lemma_char_width_fits(*s, c);
            }
            width = width.wrapping_add(char_width(s, c).wrapping_sub(s.kerning));
        }
        i = i + 1;
    }
    width
}

/// `string_width(str)`: 0 for no string, else the advance of the whole string.
pub fn string_width(s: &BitmapFontState, text: Option<&[u16]>) -> (r: i32)
    requires
        text matches Some(t) ==> t@.len() <= i32::MAX && range_ok(*s, t@, 0, t@.len() as i32),
    ensures
        text is None ==> r == 0,
        text matches Some(t) ==> r == width_sum(*s, t@, 0, t@.len() as int),
{
    match text {
        None => 0,
        Some(t) => string_width_range(s, t, 0, t.len() as i32),
    }
}

/// The characters that reach below the baseline: `g j p q y , ; _ |` and
/// `ç ¡ ¿`.
pub open spec fn is_descender(c: u16) -> bool {
    c == 103 || c == 106 || c == 112 || c == 113 || c == 121 || c == 44 || c == 59 || c == 95
        || c == 124 || c == 0xE7 || c == 0xA1 || c == 0xBF
}

/// `line_height_of(chars, start, count)`: the full line height when some
/// character in the range has a descender, else the ascent plus one.
pub fn line_height_of(s: &BitmapFontState, chars: &[u16], start: i32, count: i32) -> (r: i32)
    requires
        ({
            let end = vstd::wrapping::i32_specs::wrapping_add(start, count);
            start < end ==> 0 <= start && end <= chars@.len()
        }),
    ensures
        ({
            let end = vstd::wrapping::i32_specs::wrapping_add(start, count) as int;
            if exists|i: int| start <= i < end && is_descender(#[trigger] chars@[i]) {
                r == s.line_height
            } else {
                r == vstd::wrapping::i32_specs::wrapping_add(s.ascent, 1)
            }
        }),
{
    let end: i32 = start.wrapping_add(count);
    let mut i: i32 = start;
    while i < end
        invariant
            start <= i,
            end == vstd::wrapping::i32_specs::wrapping_add(start, count),
            start < end ==> 0 <= start && end <= chars@.len(),
            forall|k: int| start <= k < i ==> !is_descender(#[trigger] chars@[k]),
        decreases end - i,
    {
        let c = chars[i as usize];
        if c == 103 || c == 106 || c == 112 || c == 113 || c == 121 || c == 44 || c == 59 || c == 95
            || c == 124 || c == 0xE7 || c == 0xA1 || c == 0xBF {
            return s.line_height;
        }
        i = i + 1;
    }
    s.ascent.wrapping_add(1)
}


/// One drawing step, for the drawing side to replay on its graphics context
/// (with the font's glyph sheet for a text run).
#[derive(Clone, Copy, Debug, PartialEq, Eq, Structural)]
pub enum GlyphOp {
    /// `set_clip(x, y, w, h)`.
    SetClip(i32, i32, i32, i32),
    /// `clip_rect(x, y, w, h)`.
    ClipRect(i32, i32, i32, i32),
    /// `set_color(c)`.
    SetColor(i32),
    /// `draw_arc(x, y, w, h, start, arc)`.
    DrawArc(i32, i32, i32, i32, i32, i32),
    /// Draw the glyph sheet with its top-left corner at `(x, y)`.
    DrawSheet(i32, i32),
    /// `fill_rect(x, y, w, h)`.
    FillRect(i32, i32, i32, i32),
    /// `draw_line(x1, y1, x2, y2)`.
    DrawLine(i32, i32, i32, i32),
    /// Draw the fraction-slash image with its top-right corner at `(x, y)`.
    DrawFractionSlash(i32, i32),
    /// Draw map tile image `t` with its top-left corner at `(x, y)`.
    DrawTile(i32, i32, i32),
    /// `fill_arc(x, y, w, h, start, arc)`.
    FillArc(i32, i32, i32, i32, i32, i32),
    /// Draw the ground-shadow image with its top edge centred on `(x, y)`.
    DrawShadow(i32, i32),
    /// Draw image `image` of sprite bank `bank` with its top-left corner at
    /// `(x, y)`.
    DrawSprite(i32, i32, i32, i32),
    /// Draw the actor's status icons anchored at `(x, y)`.
    StatusIcons(i32, i32),
    /// Draw (and run one frame of) the actor's floaters anchored at `(x, y)`.
    Floaters(i32, i32),
    /// Draw frame image `f` of a floater with its bottom edge centred on
    /// `(x, y)`.
    DrawFloaterFrame(i32, i32, i32),
}

/// 32-bit wrapping `a + b`.
pub open spec fn wadd(a: i32, b: i32) -> i32 {
    vstd::wrapping::i32_specs::wrapping_add(a, b)
}

/// 32-bit wrapping `a - b`.
pub open spec fn wsub(a: i32, b: i32) -> i32 {
    vstd::wrapping::i32_specs::wrapping_sub(a, b)
}

/// How a non-space character is drawn: its sheet code, whether it was a folded
/// accented capital, and the accent mark's index and x shift (-1 and 0 for
/// none).
pub open spec fn draw_code(s: BitmapFontState, c: u16) -> (int, bool, int, int) {
    if c == 339 {
        (if s.force_uppercase { 139int } else { 140int }, false, -1int, 0int)
    } else if c > 32 && c < 256 {
        let folded = 192 <= c && c < 223;
        let c1: int = if folded { c + 32 } else { c as int };
        let m: (int, int, int) = if c1 > 127 {
            if c1 == 161 {
                (129, -1, 0)
            } else if c1 == 176 {
                (176, -1, 0)
            } else if c1 == 191 {
                (130, -1, 0)
            } else if c1 == 223 {
                (127, -1, 0)
            } else if 224 <= c1 <= 228 {
                (97, c1 - 224, 1)
            } else if c1 == 229 {
                (97, -1, 0)
            } else if c1 == 230 {
                (if s.force_uppercase || folded { 136 } else { 138 }, -1, 0)
            } else if c1 == 231 {
                (if s.force_uppercase || folded { 128 } else { 137 }, -1, 0)
            } else if 232 <= c1 <= 235 {
                (101, c1 - 232, 1)
            } else if c1 == 236 {
                (105, 0, -1)
            } else if c1 == 237 {
                (105, 1, 0)
            } else if c1 == 238 {
                (105, 2, -1)
            } else if c1 == 239 {
                (105, 4, -1)
            } else if c1 == 241 {
                (110, 3, 1)
            } else if 242 <= c1 <= 246 {
                (111, c1 - 242, 1)
            } else if 249 <= c1 <= 251 {
                (117, c1 - 249, 1)
            } else if c1 == 252 {
                (117, 4, 1)
            } else {
                (46, -1, 0)
            }
        } else {
            (c1, -1, 0)
        };
        let code = if (s.force_uppercase || folded) && 97 <= m.0 <= 122 { m.0 - 32 } else { m.0 };
        (code, folded, m.1, m.2)
    } else {
        (c as int, false, -1int, 0int)
    }
}

/// The sheet x offset and width of the glyph drawn for `code` (not the bullet).
pub open spec fn glyph_geom(s: BitmapFontState, code: int) -> (i16, i32) {
    let offs = s.glyph_offsets@;
    let last = offs.len() - 1;
    if code == 136 {
        (offs[last], 8)
    } else if code == 137 {
        ((offs[last] + 8) as i16, 5)
    } else if code == 138 {
        ((offs[last] + 13) as i16, 7)
    } else if code == 139 {
        ((offs[last] + 20) as i16, 7)
    } else if code == 140 {
        ((offs[last] + 27) as i16, 7)
    } else if 0 <= code - 33 < last {
        (offs[code - 33], (offs[code - 32] - offs[code - 33]) as i32)
    } else {
        (0, 0)
    }
}

/// The sheet x offset and width of accent mark `ai`, or zeros for a sheet
/// without accents.
pub open spec fn accent_geom(s: BitmapFontState, ai: int) -> (i16, i32) {
    if s.has_accents {
        let offs = s.glyph_offsets@;
        (offs[98 + ai], (offs[99 + ai] - offs[98 + ai]) as i32)
    } else {
        (0, 0)
    }
}

/// The glyph sheet and accent offsets that drawing `c` reads exist.
pub open spec fn char_draw_ok(s: BitmapFontState, c: u16) -> bool {
    let d = draw_code(s, c);
    spec_is_control(s, c) || c == 32 || d.0 == 176 || {
        &&& 136 <= d.0 <= 140 ==> s.glyph_offsets@.len() >= 1
        &&& s.has_accents ==> 99 + d.2 < s.glyph_offsets@.len()
    }
}

/// Drawing one character at pen position `x`, advance so far `adv`: the steps
/// and the new pen position and advance. `clip` is the clip area to restore.
pub open spec fn draw_step(
    s: BitmapFontState,
    c: u16,
    x: i32,
    adv: i32,
    y: i32,
    clip: (i32, i32, i32, i32),
) -> (Seq<GlyphOp>, i32, i32) {
    if spec_is_control(s, c) {
        (Seq::empty(), x, adv)
    } else if c == 32 {
        (Seq::empty(), wadd(x, s.space_width), wadd(adv, s.space_width))
    } else {
        let d = draw_code(s, c);
        let code = d.0;
        if code == 176 {
            (
                seq![GlyphOp::SetColor(s.bullet_color), GlyphOp::SetClip(x, y, 4, 4), GlyphOp::DrawArc(x, y, 2, 2, 0, 360)],
                wadd(x, 4),
                wadd(adv, 4),
            )
        } else {
            let (gx, gw) = glyph_geom(s, code);
            let (ax, aw) = accent_geom(s, d.2);
            let step_w = wsub(gw, s.kerning);
            if wsub(wadd(x, gw), s.kerning) < clip.0 {
                (Seq::empty(), wadd(x, step_w), wadd(adv, step_w))
            } else {
                let restore = GlyphOp::SetClip(clip.0, clip.1, clip.2, clip.3);
                let glyph_clip = if code != 105 || d.2 < 0 {
                    GlyphOp::ClipRect(x, y, gw, s.line_height)
                } else {
                    GlyphOp::ClipRect(x, wadd(y, 1), gw, s.line_height)
                };
                let glyph = seq![restore, glyph_clip, GlyphOp::DrawSheet(wsub(x, gx as i32), y)];
                let mark = if d.2 >= 0 {
                    let mark_w = if d.2 != 4 { aw } else { wadd(aw, 1) };
                    let raise: i32 = if s.force_uppercase || d.1 { 2 } else { 0 };
                    let my = wsub(wsub(y, 1), raise);
                    let mark_clip = if code != 105 {
                        GlyphOp::ClipRect(x, my, wadd(mark_w, d.3 as i32), wadd(s.line_height, raise))
                    } else {
                        GlyphOp::ClipRect(wsub(x, 1), my, wadd(mark_w, d.3 as i32), wadd(s.line_height, raise))
                    };
                    seq![restore, mark_clip, GlyphOp::DrawSheet(wadd(wsub(x, ax as i32), d.3 as i32), my)]
                } else {
                    Seq::empty()
                };
                (glyph + mark, wadd(x, step_w), wadd(adv, step_w))
            }
        }
    }
}

/// Drawing `chars[i..end]` from pen position `x` with advance so far `adv`:
/// all the steps and the final advance. The run stops, restoring the clip, at
/// its end or at the first character whose pen position is past the clip's
/// right edge.
pub open spec fn draw_run(
    s: BitmapFontState,
    chars: Seq<u16>,
    i: int,
    end: int,
    x: i32,
    adv: i32,
    y: i32,
    clip: (i32, i32, i32, i32),
) -> (Seq<GlyphOp>, i32)
    decreases end - i,
{
    if i >= end || x > wadd(clip.0, clip.2) {
        (seq![GlyphOp::SetClip(clip.0, clip.1, clip.2, clip.3)], adv)
    } else {
        let st = draw_step(s, chars[i], x, adv, y, clip);
        let rest = draw_run(s, chars, i + 1, end, st.1, st.2, y, clip);
        (st.0 + rest.0, rest.1)
    }
}

/// Where a run starts for `anchor`: centred (bit 1) or right-aligned (bit 8)
/// on `x`, and raised by the line height (bit 32) or the ascent (bit 64).
pub open spec fn draw_origin(
    s: BitmapFontState,
    chars: Seq<u16>,
    start: i32,
    count: i32,
    x: i32,
    y: i32,
    anchor: i32,
) -> (i32, i32) {
    let end = wadd(start, count);
    let sw = width_sum(s, chars, start as int, end as int);
    let x0 = if anchor & 1 != 0 {
        wsub(x, crate::jvm::spec_java_div(sw, 2))
    } else if anchor & 8 != 0 {
        wsub(x, sw)
    } else {
        x
    };
    let descends = exists|i: int| start <= i < end && is_descender(#[trigger] chars[i]);
    let y0 = if anchor & 32 != 0 {
        wsub(y, if descends { s.line_height } else { wadd(s.ascent, 1) })
    } else if anchor & 64 != 0 {
        wsub(y, s.ascent)
    } else {
        y
    };
    (x0, y0)
}

proof fn lemma_draw_run_unfold(
    s: BitmapFontState,
    chars: Seq<u16>,
    i: int,
    end: int,
    x: i32,
    adv: i32,
    y: i32,
    clip: (i32, i32, i32, i32),
)
    requires
        i < end,
        !(x > wadd(clip.0, clip.2)),
    ensures
        ({
            let st = draw_step(s, chars[i], x, adv, y, clip);
            let rest = draw_run(s, chars, i + 1, end, st.1, st.2, y, clip);
            draw_run(s, chars, i, end, x, adv, y, clip) == (st.0 + rest.0, rest.1)
        }),
{
}

/// `draw_chars(graphics, chars, start, count, x, y, anchor)` within the clip
/// area `clip` (x, y, width, height): the drawing steps of the run and its
/// total advance (see [`draw_origin`] and [`draw_run`]).
#[verifier::rlimit(60)]
pub fn draw_chars_range(
    s: &BitmapFontState,
    clip: (i32, i32, i32, i32),
    chars: &[u16],
    start: i32,
    count: i32,
    x: i32,
    y: i32,
    anchor: i32,
) -> (r: (Vec<GlyphOp>, i32))
    requires
        ({
            let end = wadd(start, count);
            start < end ==> {
                &&& 0 <= start
                &&& end <= chars@.len()
                &&& forall|i: int| start <= i < end ==> char_draw_ok(*s, #[trigger] chars@[i])
            }
        }),
        anchor & 1 != 0 || anchor & 8 != 0 ==> range_ok(*s, chars@, start, count),
        s.glyph_offsets@.len() <= i32::MAX,
    ensures
        ({
            let o = draw_origin(*s, chars@, start, count, x, y, anchor);
            let run = draw_run(*s, chars@, start as int, wadd(start, count) as int, o.0, 0, o.1, clip);
            r.0@ == run.0 && r.1 == run.1
        }),
{
    let end: i32 = start.wrapping_add(count);
    let mut px: i32 = x;
    let mut py: i32 = y;
    if (anchor & 1) != 0 {
        let sw = string_width_range(s, chars, start, count);
        let half = match crate::jvm::java_div(sw, 2) {
            Some(h) => h,
            None => 0,
        };
        px = px.wrapping_sub(half);
    } else if (anchor & 8) != 0 {
        px = px.wrapping_sub(string_width_range(s, chars, start, count));
    }
    if (anchor & 32) != 0 {
        py = py.wrapping_sub(line_height_of(s, chars, start, count));
    } else if (anchor & 64) != 0 {
        py = py.wrapping_sub(s.ascent);
    }
    let ghost x0 = px;
    let y0 = py;
    proof {
        let o = draw_origin(*s, chars@, start, count, x, y, anchor);
        assert(o.0 == x0 && o.1 == y0);
    }
    let mut ops: Vec<GlyphOp> = Vec::new();
    let mut advance: i32 = 0;
    let mut idx: i32 = start;
    let right = clip.0.wrapping_add(clip.2);
    let last: i32 = s.glyph_offsets.len() as i32 - 1;
    let ghost total = draw_run(*s, chars@, start as int, end as int, x0, 0, y0, clip);
    loop
        invariant
            end == wadd(start, count),
            start <= idx,
            idx < end ==> 0 <= start && end <= chars@.len(),
            start < end ==> forall|i: int| start <= i < end ==> char_draw_ok(*s, #[trigger] chars@[i]),
            right == wadd(clip.0, clip.2),
            draw_origin(*s, chars@, start, count, x, y, anchor) == (x0, y0),
            last == s.glyph_offsets@.len() - 1,
            s.glyph_offsets@.len() <= i32::MAX,
            total == draw_run(*s, chars@, start as int, end as int, x0, 0, y0, clip),
            total.0 == ops@ + draw_run(*s, chars@, idx as int, end as int, px, advance, y0, clip).0,
            total.1 == draw_run(*s, chars@, idx as int, end as int, px, advance, y0, clip).1,
        decreases end - idx,
    {
        if idx >= end || px > right {
            ops.push(GlyphOp::SetClip(clip.0, clip.1, clip.2, clip.3));
            proof {
                assert(ops@ =~= total.0);
            }
            return (ops, advance);
        }
        proof {
            lemma_draw_run_unfold(*s, chars@, idx as int, end as int, px, advance, y0, clip);
        }
        let c = chars[idx as usize];
        assert(char_draw_ok(*s, chars@[idx as int]));
        let ghost st = draw_step(*s, c, px, advance, y0, clip);
        let ghost ops_before = ops@;
        draw_one(s, c, &mut px, &mut advance, y0, clip, last, &mut ops);
        proof {
            assert(ops@ == ops_before + st.0);
            let rest = draw_run(*s, chars@, idx + 1, end as int, st.1, st.2, y0, clip);
            assert(ops_before + (st.0 + rest.0) =~= (ops_before + st.0) + rest.0);
        }
        idx = idx + 1;
    }
}

fn glyph_geom_exec(s: &BitmapFontState, code: i32, last: i32) -> (r: (i16, i32))
    requires
        last == s.glyph_offsets@.len() - 1,
        s.glyph_offsets@.len() <= i32::MAX,
        136 <= code <= 140 ==> s.glyph_offsets@.len() >= 1,
    ensures
        r == glyph_geom(*s, code as int),
{
    if code == 136 {
        (s.glyph_offsets[last as usize], 8)
    } else if code == 137 {
        ((s.glyph_offsets[last as usize] as i32).wrapping_add(8) as i16, 5)
    } else if code == 138 {
        ((s.glyph_offsets[last as usize] as i32).wrapping_add(13) as i16, 7)
    } else if code == 139 {
        ((s.glyph_offsets[last as usize] as i32).wrapping_add(20) as i16, 7)
    } else if code == 140 {
        ((s.glyph_offsets[last as usize] as i32).wrapping_add(27) as i16, 7)
    } else {
        let gi: i64 = code as i64 - 33;
        if gi >= 0 && gi < last as i64 {
            let gx = s.glyph_offsets[gi as usize];
            (gx, s.glyph_offsets[(gi + 1) as usize] as i32 - gx as i32)
        } else {
            (0, 0)
        }
    }
}

fn accent_geom_exec(s: &BitmapFontState, ai: i32) -> (r: (i16, i32))
    requires
        -1 <= ai <= 4,
        s.has_accents ==> 99 + ai < s.glyph_offsets@.len(),
    ensures
        r == accent_geom(*s, ai as int),
{
    if s.has_accents {
        let ax = s.glyph_offsets[(98 + ai) as usize];
        (ax, s.glyph_offsets[(99 + ai) as usize] as i32 - ax as i32)
    } else {
        (0, 0)
    }
}

/// After `patch_png`, the palette chunk is a valid PNG chunk: the CRC stored
/// after it is the CRC-32 of its type and data as they now stand (for a chunk
/// of non-negative length whose length field the colour slots leave alone).
pub proof fn lemma_patched_chunk_crc(png: Seq<i8>, o: int, p: int, pc: i32, q: int, sc: i32)
    requires
        patch_fits(png, o, p, q, sc),
        spec_read_s32(png[o], png[o + 1], png[o + 2], png[o + 3]) >= 0,
        p + 3 <= o || p >= o + 4,
        (q > 0 && sc >= 0) ==> (q + 3 <= o || q >= o + 4),
    ensures
        ({
            let out = spec_patch_png(png, o, p, pc, q, sc);
            let len = spec_read_s32(out[o], out[o + 1], out[o + 2], out[o + 3]) as int;
            let at = o + 8 + len;
            &&& len == spec_read_s32(png[o], png[o + 1], png[o + 2], png[o + 3])
            &&& out.len() == png.len()
            &&& spec_read_s32(out[at], out[at + 1], out[at + 2], out[at + 3]) == spec_crc32(
                out,
                (o + 4) as i32,
                (len + 4) as i32,
            )
        }),
{
    let chunk_len = spec_read_s32(png[o], png[o + 1], png[o + 2], png[o + 3]) as int;
    let with_primary = png.update(p, spec_be_byte(pc, 1)).update(p + 1, spec_be_byte(pc, 2)).update(
        p + 2,
        spec_be_byte(pc, 3),
    );
    let inked = if q > 0 && sc >= 0 {
        with_primary.update(q, spec_be_byte(sc, 1)).update(q + 1, spec_be_byte(sc, 2)).update(
            q + 2,
            spec_be_byte(sc, 3),
        )
    } else {
        with_primary
    };
    let crc = spec_crc32(inked, (o + 4) as i32, (chunk_len + 4) as i32);
    let out = spec_patch_png(png, o, p, pc, q, sc);
    let at = o + 8 + chunk_len;
    assert(out[o] == png[o] && out[o + 1] == png[o + 1] && out[o + 2] == png[o + 2] && out[o + 3]
        == png[o + 3]);
    assert(out.subrange(o + 4, o + 8 + chunk_len) =~= inked.subrange(o + 4, o + 8 + chunk_len));
    assert(byte_window(out, (o + 4) as i32, (chunk_len + 4) as i32) == byte_window(
        inked,
        (o + 4) as i32,
        (chunk_len + 4) as i32,
    ));
    crate::byte_util::lemma_write_then_read_s32(crc);
}

/// The drawing steps and the advance of `chars` as one run at `(x, y)` for
/// `anchor` within the clip area `clip`.
pub open spec fn text_ops(
    s: BitmapFontState,
    chars: Seq<u16>,
    x: i32,
    y: i32,
    anchor: i32,
    clip: (i32, i32, i32, i32),
) -> (Seq<GlyphOp>, i32) {
    let n = chars.len() as i32;
    let o = draw_origin(s, chars, 0, n, x, y, anchor);
    draw_run(s, chars, 0, n as int, o.0, 0, o.1, clip)
}

/// `chars` can be drawn as one run in font `s` for `anchor`.
pub open spec fn text_drawable(s: BitmapFontState, chars: Seq<u16>, anchor: i32) -> bool {
    &&& chars.len() <= i32::MAX
    &&& forall|i: int| 0 <= i < chars.len() ==> char_draw_ok(s, #[trigger] chars[i])
    &&& anchor & 1 != 0 || anchor & 8 != 0 ==> range_ok(s, chars, 0, chars.len() as i32)
    &&& s.glyph_offsets@.len() <= i32::MAX
}

/// `draw_chars(graphics, chars, x, y, anchor)`: the whole array as one run.
pub fn draw_chars(
    s: &BitmapFontState,
    clip: (i32, i32, i32, i32),
    chars: &[u16],
    x: i32,
    y: i32,
    anchor: i32,
) -> (r: (Vec<GlyphOp>, i32))
    requires
        text_drawable(*s, chars@, anchor),
    ensures
        ({
            let t = text_ops(*s, chars@, x, y, anchor, clip);
            r.0@ == t.0 && r.1 == t.1
        }),
{
    draw_chars_range(s, clip, chars, 0, chars.len() as i32, x, y, anchor)
}

/// The per-character step of [`draw_chars_range`]: appends the character's
/// drawing steps to `ops` and moves the pen and the advance.
#[verifier::rlimit(60)]
fn draw_one(
    s: &BitmapFontState,
    c: u16,
    px: &mut i32,
    advance: &mut i32,
    y: i32,
    clip: (i32, i32, i32, i32),
    last: i32,
    ops: &mut Vec<GlyphOp>,
)
    requires
        char_draw_ok(*s, c),
        last == s.glyph_offsets@.len() - 1,
        s.glyph_offsets@.len() <= i32::MAX,
    ensures
        ({
            let st = draw_step(*s, c, *old(px), *old(advance), y, clip);
            &&& final(ops)@ == old(ops)@ + st.0
            &&& *final(px) == st.1
            &&& *final(advance) == st.2
        }),
{
    let ghost ops0 = ops@;
    if is_control(s, c) {
        assert(ops@ =~= ops0 + Seq::<GlyphOp>::empty());
        return;
    }
    if c == 32 {
        *px = px.wrapping_add(s.space_width);
        *advance = advance.wrapping_add(s.space_width);
        assert(ops@ =~= ops0 + Seq::<GlyphOp>::empty());
        return;
    }
    let (code, folded, ai, adx) = draw_code_exec(s, c);
    if code == 176 {
        ops.push(GlyphOp::SetColor(s.bullet_color));
        ops.push(GlyphOp::SetClip(*px, y, 4, 4));
        ops.push(GlyphOp::DrawArc(*px, y, 2, 2, 0, 360));
        *px = px.wrapping_add(4);
        *advance = advance.wrapping_add(4);
        assert(ops@ =~= ops0 + seq![GlyphOp::SetColor(s.bullet_color), GlyphOp::SetClip(*old(px), y, 4, 4), GlyphOp::DrawArc(*old(px), y, 2, 2, 0, 360)]);
        return;
    }
    let (glyph_x, glyph_width) = glyph_geom_exec(s, code, last);
    let (accent_x, accent_width) = accent_geom_exec(s, ai);
    let step_w = glyph_width.wrapping_sub(s.kerning);
    if px.wrapping_add(glyph_width).wrapping_sub(s.kerning) < clip.0 {
        *px = px.wrapping_add(step_w);
        *advance = advance.wrapping_add(step_w);
        assert(ops@ =~= ops0 + Seq::<GlyphOp>::empty());
        return;
    }
    let x = *px;
    ops.push(GlyphOp::SetClip(clip.0, clip.1, clip.2, clip.3));
    if code != 105 || ai < 0 {
        ops.push(GlyphOp::ClipRect(x, y, glyph_width, s.line_height));
    } else {
        ops.push(GlyphOp::ClipRect(x, y.wrapping_add(1), glyph_width, s.line_height));
    }
    ops.push(GlyphOp::DrawSheet(x.wrapping_sub(glyph_x as i32), y));
    let ghost after_glyph = ops@;
    if ai >= 0 {
        ops.push(GlyphOp::SetClip(clip.0, clip.1, clip.2, clip.3));
        let mark_w: i32 = if ai != 4 {
            accent_width
        } else {
            accent_width.wrapping_add(1)
        };
        let raise: i32 = if s.force_uppercase || folded {
            2
        } else {
            0
        };
        let my = y.wrapping_sub(1).wrapping_sub(raise);
        if code != 105 {
            ops.push(GlyphOp::ClipRect(x, my, mark_w.wrapping_add(adx), s.line_height.wrapping_add(raise)));
        } else {
            ops.push(GlyphOp::ClipRect(x.wrapping_sub(1), my, mark_w.wrapping_add(adx), s.line_height.wrapping_add(raise)));
        }
        ops.push(GlyphOp::DrawSheet(x.wrapping_sub(accent_x as i32).wrapping_add(adx), my));
    }
    *px = x.wrapping_add(step_w);
    *advance = advance.wrapping_add(step_w);
    proof {
        let st = draw_step(*s, c, x, *old(advance), y, clip);
        assert(ops@ =~= ops0 + st.0);
    }
}

/// [`draw_code`], computed.
fn draw_code_exec(s: &BitmapFontState, c: u16) -> (r: (i32, bool, i32, i32))
    requires
        c != 32,
    ensures
        ({
            let d = draw_code(*s, c);
            &&& r.0 == d.0 && r.1 == d.1 && r.2 == d.2 && r.3 == d.3
            &&& -1 <= r.2 <= 4
            &&& -1 <= r.3 <= 1
        }),
{
    if c == 339 {
        return (if s.force_uppercase { 139 } else { 140 }, false, -1, 0);
    }
    if !(c > 32 && c < 256) {
        return (c as i32, false, -1, 0);
    }
    let folded = 192 <= c && c < 223;
    let c1: i32 = if folded { c as i32 + 32 } else { c as i32 };
    let (code, ai, adx): (i32, i32, i32) = if c1 > 127 {
        if c1 == 161 {
            (129, -1, 0)
        } else if c1 == 176 {
            (176, -1, 0)
        } else if c1 == 191 {
            (130, -1, 0)
        } else if c1 == 223 {
            (127, -1, 0)
        } else if 224 <= c1 && c1 <= 228 {
            (97, c1 - 224, 1)
        } else if c1 == 229 {
            (97, -1, 0)
        } else if c1 == 230 {
            (if s.force_uppercase || folded { 136 } else { 138 }, -1, 0)
        } else if c1 == 231 {
            (if s.force_uppercase || folded { 128 } else { 137 }, -1, 0)
        } else if 232 <= c1 && c1 <= 235 {
            (101, c1 - 232, 1)
        } else if c1 == 236 {
            (105, 0, -1)
        } else if c1 == 237 {
            (105, 1, 0)
        } else if c1 == 238 {
            (105, 2, -1)
        } else if c1 == 239 {
            (105, 4, -1)
        } else if c1 == 241 {
            (110, 3, 1)
        } else if 242 <= c1 && c1 <= 246 {
            (111, c1 - 242, 1)
        } else if 249 <= c1 && c1 <= 251 {
            (117, c1 - 249, 1)
        } else if c1 == 252 {
            (117, 4, 1)
        } else {
            (46, -1, 0)
        }
    } else {
        (c1, -1, 0)
    };
    let code2 = if (s.force_uppercase || folded) && 97 <= code && code <= 122 {
        code - 32
    } else {
        code
    };
    (code2, folded, ai, adx)
}


/// The ASCII upper-case form of a code unit: `a`..`z` become `A`..`Z`, every
/// other unit stays.
pub open spec fn ascii_upper(c: u16) -> u16 {
    if 97 <= c <= 122 {
        (c - 32) as u16
    } else {
        c
    }
}

/// An upper-case font measures a lower-case ASCII letter on its capital, the
/// glyph it draws for it: the width of `c` is the width of `c - 32`.
pub proof fn lemma_upper_font_measures_capitals(s: BitmapFontState, c: u16)
    requires
        s.force_uppercase,
        97 <= c <= 122,
    ensures
        spec_char_width(s, c) == spec_char_width(s, (c - 32) as u16),
        spec_char_width(s, c) == spec_char_width(s, ascii_upper(c)),
{
}

/// With an upper-case font a text is as wide as its ASCII upper-case form: the
/// width of every range of `chars` equals that of the same range of the
/// upper-cased text.
pub proof fn lemma_upper_font_string_width(s: BitmapFontState, chars: Seq<u16>, start: int, end: int)
    requires
        s.force_uppercase,
        0 <= start,
        end <= chars.len(),
    ensures
        width_sum(s, chars, start, end) == width_sum(s, chars.map_values(|c: u16| ascii_upper(c)), start, end),
    decreases end - start,
{
    let up = chars.map_values(|c: u16| ascii_upper(c));
    if end > start {
        lemma_upper_font_string_width(s, chars, start, end - 1);
        let c = chars[end - 1];
        assert(up[end - 1] == ascii_upper(c));
        if 97 <= c <= 122 {
            lemma_upper_font_measures_capitals(s, c);
        }
        assert(spec_is_control(s, c) == spec_is_control(s, ascii_upper(c)));
    }
}


/// A printable ASCII character is measured on the glyph that is drawn for it:
/// its width is the width of the sheet glyph that drawing it selects (the
/// capital for a lower-case letter of an upper-case font).
pub proof fn lemma_width_is_drawn_glyph(s: BitmapFontState, c: u16)
    requires
        33 <= c <= 126,
        draw_code(s, c).0 - 32 < s.glyph_offsets@.len(),
    ensures
        spec_char_width(s, c) == glyph_geom(s, draw_code(s, c).0).1 as int,
{
}


/// Widths add up: the width of `chars[a..c]` is the width of `chars[a..b]`
/// plus that of `chars[b..c]` (in 32-bit wrapping arithmetic).
pub proof fn lemma_width_sum_splits(s: BitmapFontState, chars: Seq<u16>, a: int, b: int, c: int)
    requires
        a <= b <= c,
    ensures
        width_sum(s, chars, a, c) == vstd::wrapping::i32_specs::wrapping_add(
            width_sum(s, chars, a, b),
            width_sum(s, chars, b, c),
        ),
    decreases c - b,
{
    if c > b {
        lemma_width_sum_splits(s, chars, a, b, c - 1);
        let x = width_sum(s, chars, a, b);
        let y = width_sum(s, chars, b, c - 1);
        if !spec_is_control(s, chars[c - 1]) {
            let d = vstd::wrapping::i32_specs::wrapping_sub(spec_char_width(s, chars[c - 1]) as i32, s.kerning);
            assert(vstd::wrapping::i32_specs::wrapping_add(vstd::wrapping::i32_specs::wrapping_add(x, y), d)
                == vstd::wrapping::i32_specs::wrapping_add(x, vstd::wrapping::i32_specs::wrapping_add(y, d))) by {
                lemma_wrapping_add_assoc(x, y, d);
            }
        }
    } else {
        assert(width_sum(s, chars, b, c) == 0);
        assert(vstd::wrapping::i32_specs::wrapping_add(width_sum(s, chars, a, b), 0) == width_sum(s, chars, a, b));
    }
}

proof fn lemma_wrapping_add_assoc(x: i32, y: i32, d: i32)
    ensures
        vstd::wrapping::i32_specs::wrapping_add(vstd::wrapping::i32_specs::wrapping_add(x, y), d)
            == vstd::wrapping::i32_specs::wrapping_add(x, vstd::wrapping::i32_specs::wrapping_add(y, d)),
{
    assert(x.wrapping_add(y).wrapping_add(d) == x.wrapping_add(y.wrapping_add(d))) by (bit_vector);
}

/// A hidden control character (`$`, `@`, `|` of a font that hides them) adds
/// no width to a text.
pub proof fn lemma_hidden_controls_add_nothing(s: BitmapFontState, chars: Seq<u16>, a: int, b: int)
    requires
        a <= b,
        s.hide_controls,
        chars[b] == 36 || chars[b] == 64 || chars[b] == 124,
    ensures
        width_sum(s, chars, a, b + 1) == width_sum(s, chars, a, b),
{
}

} // verus!
