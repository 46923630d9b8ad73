//! The text side of the font hub: which font family is selected, and the
//! UTF-16 text utilities the menus and dialogs use (the JVM's `substring`, `trim`,
//! `Integer.parse_int`, `index_of`, the typewriter word step and `replace_all`).
//! Glyph images and drawing stay with the drawing side.

use vstd::prelude::*;
use crate::jvm::{ishr, java_div, java_rem, spec_ishr, spec_java_div, spec_java_rem};
use crate::base_canvas::BaseCanvasState;
use crate::text::occurs_at;
use crate::bitmap_font::{self, text_drawable, text_ops, BitmapFontState, GlyphOp, range_ok, width_sum};

verus! {

/// Which font is current.
#[derive(Clone, Copy, Debug, PartialEq, Eq, Structural)]
pub enum CurrentFont {
    /// Before the fonts are built.
    Unset,
    SmallBlack,
    SmallWhite,
    SmallOrange,
    BigBlack,
    BigWhite,
}

impl Default for CurrentFont {
    fn default() -> (f: Self)
        ensures
            f == CurrentFont::Unset,
    {
        CurrentFont::Unset
    }
}

/// The fonts, the font selection and the label texts the menus read.
pub struct FontManagerState {
    /// The small font in black ink.
    pub small_black: Option<BitmapFontState>,
    /// The small font in white ink.
    pub small_white: Option<BitmapFontState>,
    /// The small font in orange ink.
    pub small_orange: Option<BitmapFontState>,
    /// The big font, black with a white outline (also the big default).
    pub big_black: Option<BitmapFontState>,
    /// The big font, white with a black outline.
    pub big_white: Option<BitmapFontState>,
    /// The current font.
    pub current_font: CurrentFont,
    /// Whether the big family is selected.
    pub big_font_active: bool,
    /// The version string shown on the title screen.
    pub version_text: Option<Vec<u16>>,
    /// The title screen's footer prompt.
    pub title_footer: Option<Vec<u16>>,
    /// The main-menu item labels.
    pub main_menu_labels: Vec<Option<Vec<u16>>>,
    /// The "Ok" soft-key label.
    pub label_ok: Option<Vec<u16>>,
    /// The "Exit" soft-key label.
    pub label_exit: Option<Vec<u16>>,
}

impl FontManagerState {
    /// Nothing selected, no labels loaded.
    pub fn new() -> (s: Self)
        ensures
            s.small_black is None && s.small_white is None && s.small_orange is None,
            s.big_black is None && s.big_white is None,
            s.current_font == CurrentFont::Unset,
            !s.big_font_active,
            s.version_text is None && s.title_footer is None,
            s.main_menu_labels@.len() == 0,
            s.label_ok is None && s.label_exit is None,
    {
        FontManagerState {
            small_black: None,
            small_white: None,
            small_orange: None,
            big_black: None,
            big_white: None,
            current_font: CurrentFont::Unset,
            big_font_active: false,
            version_text: None,
            title_footer: None,
            main_menu_labels: Vec::new(),
            label_ok: None,
            label_exit: None,
        }
    }
}

impl Default for FontManagerState {
    fn default() -> (s: Self)
        ensures
            s.small_black is None && s.big_black is None,
            s.current_font == CurrentFont::Unset,
            !s.big_font_active,
            s.version_text is None && s.title_footer is None,
            s.main_menu_labels@.len() == 0,
            s.label_ok is None && s.label_exit is None,
    {
        FontManagerState::new()
    }
}

/// `s` with the big (black) or the small (black) family selected.
pub open spec fn with_big_font(s: FontManagerState, active: bool) -> FontManagerState {
    FontManagerState {
        big_font_active: active,
        current_font: if active { CurrentFont::BigBlack } else { CurrentFont::SmallBlack },
        ..s
    }
}

/// `set_big_font(active)`: selects the big (black) or the small (black) family.
pub fn set_big_font(s: &mut FontManagerState, active: bool)
    ensures
        *final(s) == with_big_font(*old(s), active),
{
    s.big_font_active = active;
    s.current_font = if active {
        CurrentFont::BigBlack
    } else {
        CurrentFont::SmallBlack
    };
}

/// The font slot `font_for_color(color)` picks: black or white ink by the pen
/// colour, other colours in the big family's default (black) or the small
/// orange.
pub open spec fn font_for_color_slot(big: bool, color: i32) -> CurrentFont {
    if big {
        if color == 16777215 { CurrentFont::BigWhite } else { CurrentFont::BigBlack }
    } else if color == 0 {
        CurrentFont::SmallBlack
    } else if color == 16777215 {
        CurrentFont::SmallWhite
    } else {
        CurrentFont::SmallOrange
    }
}

/// The font held in `slot` (`None` for an unset slot).
pub open spec fn font_in(s: FontManagerState, slot: CurrentFont) -> Option<BitmapFontState> {
    match slot {
        CurrentFont::SmallBlack => s.small_black,
        CurrentFont::SmallWhite => s.small_white,
        CurrentFont::SmallOrange => s.small_orange,
        CurrentFont::BigBlack => s.big_black,
        CurrentFont::BigWhite => s.big_white,
        CurrentFont::Unset => None,
    }
}

fn font_ref(s: &FontManagerState, slot: CurrentFont) -> (f: &BitmapFontState)
    requires
        font_in(*s, slot) is Some,
    ensures
        Some(*f) == font_in(*s, slot),
{
    match slot {
        CurrentFont::SmallBlack => s.small_black.as_ref().unwrap(),
        CurrentFont::SmallWhite => s.small_white.as_ref().unwrap(),
        CurrentFont::SmallOrange => s.small_orange.as_ref().unwrap(),
        CurrentFont::BigBlack => s.big_black.as_ref().unwrap(),
        CurrentFont::BigWhite => s.big_white.as_ref().unwrap(),
        CurrentFont::Unset => s.big_black.as_ref().unwrap(),
    }
}

/// `font_for_color(color)`: the font drawing in pen colour `color`.
pub fn font_for_color(s: &FontManagerState, color: i32) -> (f: &BitmapFontState)
    requires
        font_in(*s, font_for_color_slot(s.big_font_active, color)) is Some,
    ensures
        Some(*f) == font_in(*s, font_for_color_slot(s.big_font_active, color)),
{
    let slot = if s.big_font_active {
        if color == 16777215 { CurrentFont::BigWhite } else { CurrentFont::BigBlack }
    } else if color == 0 {
        CurrentFont::SmallBlack
    } else if color == 16777215 {
        CurrentFont::SmallWhite
    } else {
        CurrentFont::SmallOrange
    };
    font_ref(s, slot)
}

/// `current_font`: the selected font.
pub fn current_font(s: &FontManagerState) -> (f: &BitmapFontState)
    requires
        font_in(*s, s.current_font) is Some,
    ensures
        Some(*f) == font_in(*s, s.current_font),
{
    font_ref(s, s.current_font)
}

/// `line_height()`: the current font's line height.
pub fn line_height(s: &FontManagerState) -> (r: i32)
    requires
        font_in(*s, s.current_font) is Some,
    ensures
        r == font_in(*s, s.current_font)->0.line_height,
{
    current_font(s).line_height
}

/// `line_spacing()`: the current font's extra line spacing.
pub fn line_spacing(s: &FontManagerState) -> (r: i32)
    requires
        font_in(*s, s.current_font) is Some,
    ensures
        r == font_in(*s, s.current_font)->0.line_spacing,
{
    current_font(s).line_spacing
}

/// `string_width(chars)`: the advance of `chars` in the current font.
pub fn string_width(s: &FontManagerState, chars: &[u16]) -> (r: i32)
    requires
        font_in(*s, s.current_font) is Some,
        chars@.len() <= i32::MAX,
        range_ok(font_in(*s, s.current_font)->0, chars@, 0, chars@.len() as i32),
    ensures
        r == width_sum(font_in(*s, s.current_font)->0, chars@, 0, chars@.len() as int),
{
    bitmap_font::string_width(current_font(s), Some(chars))
}

/// The font that draws in pen colour `color`.
pub open spec fn color_font(s: FontManagerState, color: i32) -> BitmapFontState {
    font_in(s, font_for_color_slot(s.big_font_active, color))->0
}

/// `draw_chars(graphics, x, y, chars, flags)` with the pen in colour `color`
/// and the clip area `clip`: the drawing steps of `chars` in that colour's font,
/// top-left at `(x, y)`, and their advance.
pub fn draw_chars(
    s: &FontManagerState,
    color: i32,
    clip: (i32, i32, i32, i32),
    x: i32,
    y: i32,
    chars: &[u16],
    _flags: i32,
) -> (r: (Vec<GlyphOp>, i32))
    requires
        font_in(*s, font_for_color_slot(s.big_font_active, color)) is Some,
        text_drawable(color_font(*s, color), chars@, 20),
    ensures
        ({
            let t = text_ops(color_font(*s, color), chars@, x, y, 20, clip);
            r.0@ == t.0 && r.1 == t.1
        }),
{
    let font = font_for_color(s, color);
    bitmap_font::draw_chars(font, clip, chars, x, y, 20)
}

/// `draw_chars_centered(graphics, x, y, chars, flags)` with the pen in colour
/// `color` and the clip area `clip`: `chars` centred on `x`, top at `y`.
pub fn draw_chars_centered(
    s: &FontManagerState,
    color: i32,
    clip: (i32, i32, i32, i32),
    x: i32,
    y: i32,
    chars: &[u16],
    _flags: i32,
) -> (ops: Vec<GlyphOp>)
    requires
        font_in(*s, font_for_color_slot(s.big_font_active, color)) is Some,
        text_drawable(color_font(*s, color), chars@, 17),
    ensures
        ops@ == text_ops(color_font(*s, color), chars@, x, y, 17, clip).0,
{
    let font = font_for_color(s, color);
    bitmap_font::draw_chars(font, clip, chars, x, y, 17).0
}

/// `clear_screen(graphics)`: the whole canvas cleared to black.
pub fn clear_screen(canvas: &BaseCanvasState) -> (ops: Vec<GlyphOp>)
    ensures
        ops@ == seq![
            GlyphOp::SetClip(0, 0, canvas.width, canvas.height),
            GlyphOp::SetColor(0),
            GlyphOp::FillRect(0, 0, canvas.width, canvas.height),
        ],
{
    let mut ops: Vec<GlyphOp> = Vec::new();
    ops.push(GlyphOp::SetClip(0, 0, canvas.width, canvas.height));
    ops.push(GlyphOp::SetColor(0));
    ops.push(GlyphOp::FillRect(0, 0, canvas.width, canvas.height));
    ops
}

/// The current font.
pub open spec fn cur_font(s: FontManagerState) -> BitmapFontState {
    font_in(s, s.current_font)->0
}

/// The top of the soft-key boxes: the bar (a line plus 5) stands on the bottom
/// edge, 3 pixels lower.
pub open spec fn soft_key_top(s: FontManagerState, canvas: BaseCanvasState) -> i32 {
    let bar = bitmap_font::wadd(cur_font(s).line_height, 5);
    bitmap_font::wadd(bitmap_font::wsub(canvas.height, bar), 3)
}

/// One soft key: a black box two pixels wider than `label` at `box_x`, and the
/// label in white one pixel in.
pub open spec fn soft_key_ops(s: FontManagerState, canvas: BaseCanvasState, label: Seq<u16>, box_x: i32) -> Seq<GlyphOp> {
    let clip = (0i32, 0i32, canvas.width, canvas.height);
    let bar = bitmap_font::wadd(cur_font(s).line_height, 5);
    let box_w = bitmap_font::wadd(width_sum(cur_font(s), label, 0, label.len() as int), 2);
    let top = soft_key_top(s, canvas);
    seq![GlyphOp::SetColor(0), GlyphOp::FillRect(box_x, top, box_w, bar), GlyphOp::SetColor(16777215)]
        + text_ops(color_font(s, 16777215), label, bitmap_font::wadd(box_x, 1), bitmap_font::wadd(top, 1), 20, clip).0
}

/// The width of the box of a soft key labelled `label`.
pub open spec fn soft_key_width(s: FontManagerState, label: Seq<u16>) -> i32 {
    bitmap_font::wadd(width_sum(cur_font(s), label, 0, label.len() as int), 2)
}

/// The soft-key bar: the clip opened to the canvas, the left key at the left
/// edge and the right key at the right edge, each when labelled.
pub open spec fn soft_keys_ops(
    s: FontManagerState,
    canvas: BaseCanvasState,
    left: Option<Seq<u16>>,
    right: Option<Seq<u16>>,
) -> Seq<GlyphOp> {
    seq![GlyphOp::SetClip(0, 0, canvas.width, canvas.height)] + match left {
        Some(l) => soft_key_ops(s, canvas, l, 0),
        None => Seq::empty(),
    } + match right {
        Some(r) => soft_key_ops(s, canvas, r, bitmap_font::wsub(canvas.width, soft_key_width(s, r))),
        None => Seq::empty(),
    }
}

/// A soft-key label can be measured in the current font and drawn in white.
pub open spec fn soft_key_drawable(s: FontManagerState, label: Seq<u16>) -> bool {
    &&& label.len() <= i32::MAX
    &&& range_ok(cur_font(s), label, 0, label.len() as i32)
    &&& font_in(s, font_for_color_slot(s.big_font_active, 16777215)) is Some
    &&& text_drawable(color_font(s, 16777215), label, 20)
}

/// `draw_soft_keys(graphics, left_label, right_label)`: the soft-key bar (see
/// [`soft_keys_ops`]).
pub fn draw_soft_keys(
    s: &FontManagerState,
    canvas: &BaseCanvasState,
    left_label: Option<&[u16]>,
    right_label: Option<&[u16]>,
) -> (ops: Vec<GlyphOp>)
    requires
        font_in(*s, s.current_font) is Some,
        left_label matches Some(l) ==> soft_key_drawable(*s, l@),
        right_label matches Some(r) ==> soft_key_drawable(*s, r@),
    ensures
        ops@ == soft_keys_ops(
            *s,
            *canvas,
            match left_label { Some(l) => Some(l@), None => None },
            match right_label { Some(r) => Some(r@), None => None },
        ),
{
    let clip = (0i32, 0i32, canvas.width, canvas.height);
    let mut ops: Vec<GlyphOp> = Vec::new();
    ops.push(GlyphOp::SetClip(0, 0, canvas.width, canvas.height));
    let bar = line_height(s).wrapping_add(5);
    let top = canvas.height.wrapping_sub(bar).wrapping_add(3);
    let ghost start = ops@;
    if let Some(left) = left_label {
        let box_w = string_width(s, left).wrapping_add(2);
        ops.push(GlyphOp::SetColor(0));
        ops.push(GlyphOp::FillRect(0, top, box_w, bar));
        ops.push(GlyphOp::SetColor(16777215));
        let (mut text, _) = draw_chars(s, 16777215, clip, 1, top.wrapping_add(1), left, 1);
        ops.append(&mut text);
        assert(ops@ =~= start + soft_key_ops(*s, *canvas, left@, 0));
    }
    let ghost mid = ops@;
    if let Some(right) = right_label {
        let box_w = string_width(s, right).wrapping_add(2);
        let box_x = canvas.width.wrapping_sub(box_w);
        ops.push(GlyphOp::SetColor(0));
        ops.push(GlyphOp::FillRect(box_x, top, box_w, bar));
        ops.push(GlyphOp::SetColor(16777215));
        let (mut text, _) = draw_chars(s, 16777215, clip, box_x.wrapping_add(1), top.wrapping_add(1), right, 1);
        ops.append(&mut text);
        assert(ops@ =~= mid + soft_key_ops(*s, *canvas, right@, bitmap_font::wsub(canvas.width, soft_key_width(*s, right@))));
    }
    assert(ops@ =~= soft_keys_ops(
        *s,
        *canvas,
        match left_label { Some(l) => Some(l@), None => None },
        match right_label { Some(r) => Some(r@), None => None },
    ));
    ops
}

/// The pen colour of main-menu item state `item_state`: white when even
/// (highlighted), black when odd.
pub open spec fn menu_item_color(item_state: i32) -> i32 {
    if spec_java_rem(item_state, 2) == 0 { 16777215i32 } else { 0i32 }
}

/// `draw_menu_item(graphics, item_state, unused, y)` within the clip area `clip`:
/// main-menu label `item_state >> 1`, centred on the canvas in the big font
/// and coloured by [`menu_item_color`], 4 pixels below `y`; the small family
/// is selected afterwards.
pub fn draw_menu_item(
    s: &mut FontManagerState,
    canvas: &BaseCanvasState,
    clip: (i32, i32, i32, i32),
    item_state: i32,
    _unused: i32,
    y: i32,
) -> (ops: Vec<GlyphOp>)
    requires
        0 <= spec_ishr(item_state, 1) < old(s).main_menu_labels@.len(),
        old(s).main_menu_labels@[spec_ishr(item_state, 1) as int] is Some,
        ({
            let big = with_big_font(*old(s), true);
            let color = menu_item_color(item_state);
            &&& font_in(big, font_for_color_slot(true, color)) is Some
            &&& text_drawable(
                color_font(big, color),
                old(s).main_menu_labels@[spec_ishr(item_state, 1) as int]->0@,
                17,
            )
        }),
    ensures
        *final(s) == with_big_font(*old(s), false),
        ({
            let big = with_big_font(*old(s), true);
            let color = menu_item_color(item_state);
            let label = old(s).main_menu_labels@[spec_ishr(item_state, 1) as int]->0@;
            ops@ == seq![GlyphOp::SetColor(color)] + text_ops(
                color_font(big, color),
                label,
                spec_ishr(canvas.width, 1),
                bitmap_font::wadd(y, 4),
                17,
                clip,
            ).0
        }),
{
    let center_x = ishr(canvas.width, 1);
    set_big_font(s, true);
    let index = ishr(item_state, 1);
    let color: i32 = match java_rem(item_state, 2) {
        Some(0) => 16777215,
        _ => 0,
    };
    let mut ops: Vec<GlyphOp> = Vec::new();
    ops.push(GlyphOp::SetColor(color));
    let label = s.main_menu_labels[index as usize].as_ref().unwrap();
    let mut text = draw_chars_centered(s, color, clip, center_x, y.wrapping_add(4), label, 1);
    ops.append(&mut text);
    set_big_font(s, false);
    ops
}

/// `percent_of(value, percent)`: `(value * percent) / 100` in the JVM's 32-bit
/// arithmetic (the product wraps, the quotient rounds toward zero).
pub fn percent_of(value: i32, percent: i32) -> (r: i32)
    ensures
        r == spec_java_div(vstd::wrapping::i32_specs::wrapping_mul(value, percent), 100),
{
    let product = value.wrapping_mul(percent);
    match java_div(product, 100) {
        Some(q) => q,
        None => 0,
    }
}

/// `chars[from..to]` as a new array.
fn copy_range(chars: &[u16], from: usize, to: usize) -> (r: Vec<u16>)
    requires
        from <= to <= chars@.len(),
    ensures
        r@ == chars@.subrange(from as int, to as int),
{
    let mut r: Vec<u16> = Vec::new();
    let mut i: usize = from;
    while i < to
        invariant
            from <= i <= to <= chars@.len(),
            r@ == chars@.subrange(from as int, i as int),
        decreases to - i,
    {
        r.push(chars[i]);
        i = i + 1;
        assert(r@ =~= chars@.subrange(from as int, i as int));
    }
    r
}

/// `new String(chars, offset, count)`: the `count` characters from `offset`.
pub fn substring(chars: &[u16], offset: i32, count: i32) -> (r: Vec<u16>)
    requires
        0 <= offset,
        0 <= count,
        offset + count <= chars@.len(),
        offset + count <= i32::MAX,
    ensures
        r@ == chars@.subrange(offset as int, offset + count),
{
    copy_range(chars, offset as usize, offset as usize + count as usize)
}

/// `new String(chars)`: a copy of `chars`.
pub fn chars_to_string(chars: &[u16]) -> (r: Vec<u16>)
    ensures
        r@ == chars@,
{
    let r = copy_range(chars, 0, chars.len());
    assert(chars@.subrange(0, chars@.len() as int) =~= chars@);
    r
}

/// the JVM's `trim` treats every code unit up to `' '` as blank.
pub open spec fn is_blank_unit(c: u16) -> bool {
    c <= 32
}

/// The number of leading blanks of `s`.
pub open spec fn leading_blank_units(s: Seq<u16>) -> nat
    decreases s.len(),
{
    if s.len() > 0 && is_blank_unit(s[0]) {
        1 + leading_blank_units(s.drop_first())
    } else {
        0
    }
}

/// The number of trailing blanks of `s`.
pub open spec fn trailing_blank_units(s: Seq<u16>) -> nat
    decreases s.len(),
{
    if s.len() > 0 && is_blank_unit(s.last()) {
        1 + trailing_blank_units(s.drop_last())
    } else {
        0
    }
}

/// `String.trim()`: `s` without its leading and trailing blanks.
pub open spec fn spec_trim_units(s: Seq<u16>) -> Seq<u16> {
    let rest = s.skip(leading_blank_units(s) as int);
    rest.take(rest.len() - trailing_blank_units(rest))
}

proof fn lemma_leading_blank_units(s: Seq<u16>, k: int)
    requires
        0 <= k <= s.len(),
        forall|j: int| 0 <= j < k ==> is_blank_unit(#[trigger] s[j]),
        k == s.len() || !is_blank_unit(s[k]),
    ensures
        leading_blank_units(s) == k,
    decreases k,
{
    if k > 0 {
        let t = s.drop_first();
        assert forall|j: int| 0 <= j < k - 1 implies is_blank_unit(#[trigger] t[j]) by {
            assert(t[j] == s[j + 1]);
        }
        lemma_leading_blank_units(t, k - 1);
    }
}

proof fn lemma_trailing_blank_units(s: Seq<u16>, k: int)
    requires
        0 <= k <= s.len(),
        forall|j: int| s.len() - k <= j < s.len() ==> is_blank_unit(#[trigger] s[j]),
        k == s.len() || !is_blank_unit(s[s.len() - k - 1]),
    ensures
        trailing_blank_units(s) == k,
    decreases k,
{
    if k > 0 {
        let t = s.drop_last();
        assert forall|j: int| t.len() - (k - 1) <= j < t.len() implies is_blank_unit(
            #[trigger] t[j],
        ) by {
            assert(t[j] == s[j]);
        }
        lemma_trailing_blank_units(t, k - 1);
    }
}

/// `String.trim()` on a UTF-16 array.
pub fn trim(s: &[u16]) -> (r: Vec<u16>)
    ensures
        r@ == spec_trim_units(s@),
{
    let mut start: usize = 0;
    while start < s.len() && s[start] <= 32
        invariant
            start <= s@.len(),
            forall|j: int| 0 <= j < start ==> is_blank_unit(#[trigger] s@[j]),
        decreases s@.len() - start,
    {
        start = start + 1;
    }
    proof {
        lemma_leading_blank_units(s@, start as int);
    }
    let ghost rest = s@.skip(start as int);
    let mut end: usize = s.len();
    while end > start && s[end - 1] <= 32
        invariant
            start <= end <= s@.len(),
            rest == s@.skip(start as int),
            forall|j: int| end <= j < s@.len() ==> is_blank_unit(#[trigger] s@[j]),
        decreases end,
    {
        end = end - 1;
    }
    proof {
        assert forall|j: int| rest.len() - (s@.len() - end) <= j < rest.len() implies is_blank_unit(
            #[trigger] rest[j],
        ) by {
            assert(rest[j] == s@[j + start]);
        }
        if end > start {
            assert(rest[rest.len() - (s@.len() - end) - 1] == s@[end - 1]);
        }
        lemma_trailing_blank_units(rest, s@.len() - end);
    }
    let r = copy_range(s, start, end);
    assert(r@ =~= rest.take(rest.len() - (s@.len() - end)));
    r
}

/// An ASCII decimal digit.
pub open spec fn is_digit_unit(c: u16) -> bool {
    48 <= c <= 57
}

/// The value of a run of decimal digits.
pub open spec fn digits_value(s: Seq<u16>) -> int
    decreases s.len(),
{
    if s.len() == 0 {
        0
    } else {
        digits_value(s.drop_last()) * 10 + (s.last() - 48)
    }
}

/// Every unit of `s` is a decimal digit.
pub open spec fn all_digits(s: Seq<u16>) -> bool {
    forall|j: int| 0 <= j < s.len() ==> is_digit_unit(#[trigger] s[j])
}

/// `Integer.parse_int(s)` in decimal: an optional `+` or `-`, then one or more
/// ASCII digits, whose value must fit in 32 bits; `None` where JVM throws.
pub open spec fn spec_parse_int(s: Seq<u16>) -> Option<int> {
    let start: int = if s.len() > 0 && (s[0] == 45 || s[0] == 43) { 1 } else { 0 };
    let negative = s.len() > 0 && s[0] == 45;
    let body = s.skip(start);
    if body.len() == 0 || !all_digits(body) {
        None
    } else {
        let v = if negative { -digits_value(body) } else { digits_value(body) };
        if i32::MIN <= v <= i32::MAX {
            Some(v)
        } else {
            None
        }
    }
}

proof fn lemma_digits_value_grows(s: Seq<u16>, k: int, m: int)
    requires
        0 <= k <= m <= s.len(),
        forall|j: int| 0 <= j < s.len() ==> is_digit_unit(#[trigger] s[j]),
    ensures
        0 <= digits_value(s.take(k)) <= digits_value(s.take(m)),
    decreases m - k,
{
    if k < m {
        lemma_digits_value_grows(s, k, m - 1);
        assert(s.take(m).drop_last() =~= s.take(m - 1));
        assert(is_digit_unit(s[m - 1]));
    } else {
        lemma_digits_value_nonneg(s.take(k));
    }
}

proof fn lemma_digits_value_nonneg(s: Seq<u16>)
    requires
        forall|j: int| 0 <= j < s.len() ==> is_digit_unit(#[trigger] s[j]),
    ensures
        digits_value(s) >= 0,
    decreases s.len(),
{
    if s.len() > 0 {
        let t = s.drop_last();
        assert forall|j: int| 0 <= j < t.len() implies is_digit_unit(#[trigger] t[j]) by {
            assert(t[j] == s[j]);
        }
        lemma_digits_value_nonneg(t);
        assert(is_digit_unit(s[s.len() - 1]));
    }
}

proof fn lemma_parse_int_stray(s: Seq<u16>, start: int, k: int)
    requires
        start == (if s.len() > 0 && (s[0] == 45 || s[0] == 43) { 1int } else { 0int }),
        0 <= k < s.len() - start,
        !is_digit_unit(s.skip(start)[k]),
    ensures
        spec_parse_int(s) is None,
{
    let body = s.skip(start);
    assert(!all_digits(body));
}

/// `Integer.parse_int(s)` (decimal): `None` where JVM throws
/// `NumberFormatException` (no digits, a stray character, or overflow).
pub fn parse_int(s: &[u16]) -> (r: Option<i32>)
    ensures
        r matches Some(v) ==> spec_parse_int(s@) == Some(v as int),
        r is None ==> spec_parse_int(s@) is None,
{
    let n = s.len();
    let mut start: usize = 0;
    let mut negative = false;
    if n > 0 && (s[0] == 45 || s[0] == 43) {
        negative = s[0] == 45;
        start = 1;
    }
    let ghost body = s@.skip(start as int);

    if start == n {
        return None;
    }
    let limit: i64 = if negative { 2147483648 } else { 2147483647 };
    let mut acc: i64 = 0;
    let mut i: usize = start;
    while i < n
        invariant
            start <= i <= n,
            n == s@.len(),
            start < n,
            body == s@.skip(start as int),
            (start == 1) == (s@.len() > 0 && (s@[0] == 45 || s@[0] == 43)),
            start == 0 || start == 1,
            negative == (s@.len() > 0 && s@[0] == 45),
            limit == (if negative { 2147483648i64 } else { 2147483647i64 }),
            forall|j: int| 0 <= j < i - start ==> is_digit_unit(#[trigger] body[j]),
            acc == digits_value(body.take(i - start)),
            0 <= acc <= limit,
        decreases n - i,
    {
        let c = s[i];
        if c < 48 || c > 57 {
            proof {
                lemma_parse_int_stray(s@, start as int, i - start);
            }
            return None;
        }
        proof {
            assert(body.take(i - start + 1).drop_last() =~= body.take(i - start));
        }
        let d = (c - 48) as i64;
        acc = acc * 10 + d;
        if acc > limit {
            proof {
                let k = (i - start + 1) as int;
                if all_digits(body) {
                    lemma_digits_value_grows(body, k, body.len() as int);
                    assert(body.take(body.len() as int) =~= body);
                }
                assert(spec_parse_int(s@) is None);
            }
            return None;
        }
        i = i + 1;
    }
    proof {
        assert(body.take(body.len() as int) =~= body);
    }
    if negative {
        Some((0 - acc) as i32)
    } else {
        Some(acc as i32)
    }
}

/// `is_separator(c)`: `c == ';'`.
pub fn is_separator(c: u16) -> (r: bool)
    ensures
        r == (c == 59),
{
    c == 59
}

/// The first index at or after `i` that holds no separator, or the length of
/// `text` when there is none.
pub open spec fn skip_separators(text: Seq<u16>, i: int) -> int
    decreases text.len() - i,
{
    if i >= text.len() {
        text.len() as int
    } else if text[i] == 59 {
        skip_separators(text, i + 1)
    } else {
        i
    }
}

/// The first index at or after `i` that holds a separator, or the length of
/// `text` when there is none: the end of the word that runs from `i`.
pub open spec fn word_end(text: Seq<u16>, i: int) -> int
    decreases text.len() - i,
{
    if i >= text.len() {
        text.len() as int
    } else if text[i] == 59 {
        i
    } else {
        word_end(text, i + 1)
    }
}

/// `advance_word(text, start, shown)`: the typewriter step. From `start + shown`
/// the separators are skipped and the reveal runs up to and including the word
/// that follows them, counted from `start`; where no word follows, it runs to
/// the end of the text.
pub open spec fn spec_advance_word(text: Seq<u16>, start: i32, shown: i32) -> i32 {
    let p = vstd::wrapping::i32_specs::wrapping_add(start, shown) as int;
    vstd::wrapping::i32_specs::wrapping_sub(word_end(text, skip_separators(text, p)) as i32, start)
}

/// `advance_word(text, start, shown)`: see [`spec_advance_word`].
pub fn advance_word(text: &[u16], start: i32, shown: i32) -> (r: i32)
    requires
        text@.len() <= i32::MAX,
        vstd::wrapping::i32_specs::wrapping_add(start, shown) >= 0,
    ensures
        r == spec_advance_word(text@, start, shown),
{
    let len = text.len() as i32;
    let p: i32 = start.wrapping_add(shown);
    let ghost q = skip_separators(text@, p as int);
    let mut i: i32 = p;
    if i > len {
        i = len;
    }
    while i < len && text[i as usize] == 59
        invariant
            0 <= i <= len,
            len == text@.len(),
            skip_separators(text@, i as int) == q,
        decreases len - i,
    {
        i = i + 1;
    }
    let ghost e = word_end(text@, q);
    assert(i == q);
    while i < len && text[i as usize] != 59
        invariant
            0 <= i <= len,
            len == text@.len(),
            word_end(text@, i as int) == e,
        decreases len - i,
    {
        i = i + 1;
    }
    i.wrapping_sub(start)
}

/// The first index at or after `i` where `needle` occurs in `hay`, or -1.
pub open spec fn find_from(hay: Seq<u16>, needle: Seq<u16>, i: int) -> int
    decreases hay.len() + 1 - i,
{
    if i < 0 || i + needle.len() > hay.len() {
        -1
    } else if occurs_at(hay, needle, i) {
        i
    } else {
        find_from(hay, needle, i + 1)
    }
}

fn units_match_at(hay: &[u16], needle: &[u16], i: usize) -> (r: bool)
    requires
        i + needle@.len() <= hay@.len(),
    ensures
        r == occurs_at(hay@, needle@, i as int),
{
    let hay_len = hay.len();
    let mut k: usize = 0;
    while k < needle.len()
        invariant
            k <= needle@.len(),
            hay_len == hay@.len(),
            i + needle@.len() <= hay@.len(),
            forall|m: int| 0 <= m < k ==> hay@[i + m] == needle@[m],
        decreases needle@.len() - k,
    {
        if hay[i + k] != needle[k] {
            assert(hay@.subrange(i as int, i + needle@.len())[k as int] != needle@[k as int]);
            return false;
        }
        k = k + 1;
    }
    assert(hay@.subrange(i as int, i + needle@.len()) =~= needle@);
    true
}

/// `haystack.index_of(needle)`: the first index where `needle` occurs, or -1 (an
/// empty `needle` occurs at 0).
pub fn index_of_sub(haystack: &[u16], needle: &[u16]) -> (r: i32)
    requires
        haystack@.len() <= i32::MAX,
    ensures
        r == find_from(haystack@, needle@, 0),
{
    if needle.len() == 0 {
        assert(haystack@.subrange(0, 0) =~= needle@);
        return 0;
    }
    if needle.len() > haystack.len() {
        return -1;
    }
    let last: usize = haystack.len() - needle.len();
    let mut i: usize = 0;
    while i <= last
        invariant
            last == haystack@.len() - needle@.len(),
            haystack@.len() <= i32::MAX,
            i <= last + 1,
            find_from(haystack@, needle@, 0) == find_from(haystack@, needle@, i as int),
        decreases last + 1 - i,
    {
        if units_match_at(haystack, needle, i) {
            return i as i32;
        }
        i = i + 1;
    }
    -1
}

/// `s` with every occurrence of `find` replaced by `rep`, in one pass from the
/// left: an occurrence is replaced where it starts, and the search goes on
/// after it; what a replacement writes is not searched again.
pub open spec fn replaced(s: Seq<u16>, find: Seq<u16>, rep: Seq<u16>) -> Seq<u16>
    decreases s.len(),
{
    if s.len() == 0 || find.len() == 0 {
        s
    } else if occurs_at(s, find, 0) {
        rep + replaced(s.skip(find.len() as int), find, rep)
    } else {
        seq![s[0]] + replaced(s.skip(1), find, rep)
    }
}

/// `replace_all(source, find, replacement)`: every occurrence of `find` in
/// `source` replaced by `replacement` (see [`replaced`]).
pub fn replace_all(source: &[u16], find: &[u16], replacement: &[u16]) -> (r: Vec<u16>)
    requires
        find@.len() > 0,
    ensures
        r@ == replaced(source@, find@, replacement@),
{
    let n = source.len();
    let flen = find.len();
    let mut out: Vec<u16> = Vec::new();
    let mut i: usize = 0;
    assert(source@.skip(0) =~= source@);
    assert(out@ + replaced(source@, find@, replacement@) =~= replaced(source@, find@, replacement@));
    while i < n
        invariant
            n == source@.len(),
            flen == find@.len(),
            flen > 0,
            i <= n,
            out@ + replaced(source@.skip(i as int), find@, replacement@) == replaced(
                source@,
                find@,
                replacement@,
            ),
        decreases n - i,
    {
        let ghost rest = source@.skip(i as int);
        if flen <= n - i && units_match_at(source, find, i) {
            proof {
                assert(rest.subrange(0, flen as int) =~= source@.subrange(i as int, i + flen));
                assert(rest.skip(flen as int) =~= source@.skip(i + flen));
            }
            let mut k: usize = 0;
            let ghost base = out@;
            while k < replacement.len()
                invariant
                    k <= replacement@.len(),
                    out@ == base + replacement@.take(k as int),
                decreases replacement@.len() - k,
            {
                out.push(replacement[k]);
                k = k + 1;
                assert(out@ =~= base + replacement@.take(k as int));
            }
            assert(replacement@.take(replacement@.len() as int) =~= replacement@);
            assert(out@ + replaced(source@.skip(i + flen), find@, replacement@) =~= base
                + replaced(rest, find@, replacement@));
            i = i + flen;
        } else {
            proof {
                if i + flen <= n {
                    assert(rest.subrange(0, flen as int) =~= source@.subrange(i as int, i + flen));
                }
                assert(rest.skip(1) =~= source@.skip(i + 1));
            }
            let ghost base = out@;
            out.push(source[i]);
            assert(out@ + replaced(source@.skip(i + 1), find@, replacement@) =~= base
                + replaced(rest, find@, replacement@));
            i = i + 1;
        }
    }
    assert(source@.skip(n as int) =~= Seq::<u16>::empty());
    assert(out@ + Seq::<u16>::empty() =~= out@);
    out
}


proof fn lemma_skip_separators_facts(text: Seq<u16>, i: int)
    requires
        0 <= i <= text.len(),
    ensures
        i <= skip_separators(text, i) <= text.len(),
        forall|k: int| i <= k < skip_separators(text, i) ==> text[k] == 59,
        skip_separators(text, i) < text.len() ==> text[skip_separators(text, i)] != 59,
    decreases text.len() - i,
{
    if i < text.len() && text[i] == 59 {
        lemma_skip_separators_facts(text, i + 1);
    }
}

proof fn lemma_word_end_facts(text: Seq<u16>, i: int)
    requires
        0 <= i <= text.len(),
    ensures
        i <= word_end(text, i) <= text.len(),
        forall|k: int| i <= k < word_end(text, i) ==> text[k] != 59,
        word_end(text, i) < text.len() ==> text[word_end(text, i)] == 59,
    decreases text.len() - i,
{
    if i < text.len() && text[i] != 59 {
        lemma_word_end_facts(text, i + 1);
    }
}

/// The typewriter step reveals up to the end of the next word: from
/// `p = start + shown`, the revealed range `[p, start + r)` is a run of
/// separators followed by a run of other characters, and it stops either at a
/// separator that ends a non-empty word or at the end of the text.
pub proof fn lemma_advance_word_ends_a_word(text: Seq<u16>, start: i32, shown: i32)
    requires
        0 <= start,
        0 <= shown,
        start + shown <= text.len(),
        text.len() <= i32::MAX,
    ensures
        ({
            let p = start + shown;
            let e = start + spec_advance_word(text, start, shown);
            &&& p <= e <= text.len()
            &&& forall|k: int, j: int| p <= j <= k < e && text[k] == 59 ==> text[j] == 59
            &&& e < text.len() ==> text[e] == 59 && exists|k: int| p <= k < e && text[k] != 59
        }),
{
    let p = start + shown;
    assert(vstd::wrapping::i32_specs::wrapping_add(start, shown) == p);
    lemma_skip_separators_facts(text, p as int);
    let q = skip_separators(text, p as int);
    lemma_word_end_facts(text, q);
    let w = word_end(text, q);
    assert(spec_advance_word(text, start, shown) == w - start);
    assert forall|k: int, j: int| p <= j <= k < w && text[k] == 59 implies text[j] == 59 by {
        if j >= q {
            assert(text[k] != 59);
        }
    }
    if w < text.len() {
        assert(q < w);
        assert(text[q] != 59);
    }
}

/// Replacing `find` by itself changes nothing.
pub proof fn lemma_replace_by_itself(s: Seq<u16>, find: Seq<u16>)
    requires
        find.len() > 0,
    ensures
        replaced(s, find, find) == s,
    decreases s.len(),
{
    if s.len() > 0 {
        if occurs_at(s, find, 0) {
            lemma_replace_by_itself(s.skip(find.len() as int), find);
            assert(s.subrange(0, find.len() as int) == find);
            assert(find + s.skip(find.len() as int) =~= s);
        } else {
            lemma_replace_by_itself(s.skip(1), find);
            assert(seq![s[0]] + s.skip(1) =~= s);
        }
    }
}

/// A text in which `find` occurs nowhere comes back unchanged.
pub proof fn lemma_replace_without_occurrence(s: Seq<u16>, find: Seq<u16>, rep: Seq<u16>)
    requires
        find.len() > 0,
        forall|i: int| !occurs_at(s, find, i),
    ensures
        replaced(s, find, rep) == s,
    decreases s.len(),
{
    if s.len() > 0 {
        assert(!occurs_at(s, find, 0));
        assert forall|i: int| !occurs_at(s.skip(1), find, i) by {
            if occurs_at(s.skip(1), find, i) {
                assert(s.skip(1).subrange(i, i + find.len()) =~= s.subrange(i + 1, i + 1 + find.len()));
                assert(occurs_at(s, find, i + 1));
            }
        }
        lemma_replace_without_occurrence(s.skip(1), find, rep);
        assert(seq![s[0]] + s.skip(1) =~= s);
    }
}

} // verus!
