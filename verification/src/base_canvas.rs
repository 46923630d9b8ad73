//! Canvas geometry and the loading-progress counters shared by every screen,
//! plus the width of the bitmap number font.

use vstd::prelude::*;
use crate::jvm::{java_div, java_rem, spec_java_div, spec_java_rem};
use crate::game_loop::{GameLoopState, set_loading_fps};
use crate::bitmap_font::{text_drawable, text_ops, wadd, width_sum, wsub, GlyphOp};
use crate::font_manager::{self, color_font, font_for_color_slot, font_in, FontManagerState};

verus! {

/// The reference device width in pixels.
pub const DEVICE_WIDTH: i32 = 240;

/// The reference device height in pixels.
pub const DEVICE_HEIGHT: i32 = 320;

/// The shown canvas's key latch plus the shared geometry and loading counters.
pub struct BaseCanvasState {
    /// A key is held.
    pub key_down: bool,
    /// A synthetic key release still to deliver (0 for none).
    pub pending_key: i32,
    /// Canvas width in pixels.
    pub width: i32,
    /// Playfield height in pixels.
    pub height: i32,
    /// Half the width.
    pub half_w: i32,
    /// Half the height.
    pub half_h: i32,
    /// The next loading screen resumes the current progress.
    pub keep_loading_progress: bool,
    /// Loading progress units done.
    pub load_progress: i32,
    /// Loading progress units expected.
    pub load_total: i32,
    /// Loading screen phase.
    pub load_phase: i32,
}

impl BaseCanvasState {
    /// The class-load state: geometry 0, `load_total == 100`, no progress.
    pub fn new() -> (s: Self)
        ensures
            !s.key_down && s.pending_key == 0,
            s.width == 0 && s.height == 0 && s.half_w == 0 && s.half_h == 0,
            !s.keep_loading_progress,
            s.load_progress == 0 && s.load_total == 100 && s.load_phase == 0,
    {
        BaseCanvasState {
            key_down: false,
            pending_key: 0,
            width: 0,
            height: 0,
            half_w: 0,
            half_h: 0,
            keep_loading_progress: false,
            load_progress: 0,
            load_total: 100,
            load_phase: 0,
        }
    }
}

impl Default for BaseCanvasState {
    fn default() -> (s: Self)
        ensures
            !s.key_down && s.pending_key == 0,
            s.width == 0 && s.height == 0 && s.half_w == 0 && s.half_h == 0,
            !s.keep_loading_progress,
            s.load_progress == 0 && s.load_total == 100 && s.load_phase == 0,
    {
        BaseCanvasState::new()
    }
}

/// The canvas constructor's geometry: the width the device reports and its half.
pub fn construct(s: &mut BaseCanvasState, canvas_width: i32)
    ensures
        *final(s) == (BaseCanvasState {
            width: canvas_width,
            half_w: spec_java_div(canvas_width, 2),
            ..*old(s)
        }),
{
    s.width = canvas_width;
    s.half_w = java_div(canvas_width, 2).unwrap();
}

/// `flush_key()`: clears the held-key latch and the pending release.
pub fn flush_key(s: &mut BaseCanvasState)
    ensures
        *final(s) == (BaseCanvasState { key_down: false, pending_key: 0, ..*old(s) }),
{
    s.key_down = false;
    if s.pending_key != 0 {
        s.pending_key = 0;
    }
}

/// `begin_loading(label, total)`: drops to the loading frame rate, then resumes the
/// current loading screen (phase at least 3) when asked to keep its progress, or
/// starts a fresh one expecting `total` units.
pub fn begin_loading(s: &mut BaseCanvasState, game_loop: &mut GameLoopState, total: i32)
    ensures
        final(game_loop).frame_target_ms == 200,
        old(s).keep_loading_progress ==> *final(s) == (BaseCanvasState {
            load_phase: if old(s).load_phase < 3 {
                3
            } else {
                old(s).load_phase
            },
            keep_loading_progress: false,
            ..*old(s)
        }),
        !old(s).keep_loading_progress ==> *final(s) == (BaseCanvasState {
            load_total: total,
            load_progress: 0,
            load_phase: 0,
            ..*old(s)
        }),
{
    set_loading_fps(game_loop);
    if s.keep_loading_progress {
        if s.load_phase < 3 {
            s.load_phase = 3;
        }
        s.keep_loading_progress = false;
    } else {
        s.load_total = total;
        s.load_progress = 0;
        s.load_phase = 0;
    }
}

/// `set_view_height(new_height)`: a height below 350 is taken as given, otherwise the
/// full screen height `screen_height`; `half_h` follows.
pub fn set_view_height(s: &mut BaseCanvasState, new_height: i32, screen_height: i32)
    ensures
        final(s).height == if new_height < 350 {
            new_height
        } else {
            screen_height
        },
        final(s).half_h == spec_java_div(final(s).height, 2),
        *final(s) == (BaseCanvasState { height: final(s).height, half_h: final(s).half_h, ..*old(s) }),
{
    if new_height < 0 || new_height < 350 {
        s.height = new_height;
    } else {
        s.height = screen_height;
    }
    s.half_h = java_div(s.height, 2).unwrap();
}

/// `yield_tick()`: counts one unit of loading progress; returns whether this is a
/// sixth tick, on which the loader sleeps to yield the CPU.
pub fn yield_tick(s: &mut BaseCanvasState) -> (sleep: bool)
    ensures
        *final(s) == (BaseCanvasState { load_progress: old(s).load_progress.wrapping_add(1), ..*old(s) }),
        sleep == (spec_java_rem(final(s).load_progress, 6) == 0),
{
    s.load_progress = s.load_progress.wrapping_add(1);
    java_rem(s.load_progress, 6).unwrap() == 0
}

/// The number of decimal digits `draw_number` draws for `value` (at least one).
pub open spec fn digit_count(value: int) -> nat
    decreases (if value < 0 { -value } else { value }),
{
    let q = if value >= 0 { value / 10 } else { -((-value) / 10) };
    if q == 0 {
        1
    } else {
        1 + digit_count(q)
    }
}

/// `10^k`.
pub open spec fn pow10(k: nat) -> int
    decreases k,
{
    if k == 0 {
        1
    } else {
        10 * pow10((k - 1) as nat)
    }
}

proof fn lemma_digit_count_le(v: int, k: nat)
    requires
        k >= 1,
        (if v < 0 { -v } else { v }) < pow10(k),
    ensures
        digit_count(v) <= k,
    decreases k,
{
    let a = if v < 0 { -v } else { v };
    let q = if v >= 0 { v / 10 } else { -((-v) / 10) };
    if q != 0 {
        let aq = if q < 0 { -q } else { q };
        assert(aq == a / 10);
        assert(pow10(k) == 10 * pow10((k - 1) as nat));
        assert(a / 10 < pow10((k - 1) as nat)) by (nonlinear_arith)
            requires
                a < 10 * pow10((k - 1) as nat),
                a >= 0,
        ;
        if k == 1 {
            assert(pow10(0) == 1);
        } else {
            lemma_digit_count_le(q, (k - 1) as nat);
        }
    }
}

proof fn lemma_digit_count_bound(v: int)
    requires
        i32::MIN <= v <= i32::MAX,
    ensures
        1 <= digit_count(v) <= 10,
{
    reveal_with_fuel(pow10, 11);
    assert(pow10(10) == 10000000000);
    lemma_digit_count_le(v, 10);
}

/// `number_width(value)`: the pixel width of `value` in bitmap digits, one pixel
/// plus four per digit.
pub fn number_width(value: i32) -> (r: i32)
    ensures
        r == 1 + 4 * digit_count(value as int),
{
    let mut value = value;
    let mut pixel_width: i32 = 1;
    let ghost v0 = value as int;
    proof {
        lemma_digit_count_bound(v0);
    }
    loop
        invariant_except_break
            pixel_width + 4 * digit_count(value as int) == 1 + 4 * digit_count(v0),
        invariant
            digit_count(v0) <= 10,
            1 <= pixel_width <= 1 + 4 * digit_count(v0),
        ensures
            pixel_width == 1 + 4 * digit_count(v0),
        decreases (if value < 0 { -(value as int) } else { value as int }),
    {
        proof {
            lemma_digit_count_bound(value as int);
        }
        value = java_div(value, 10).unwrap();
        pixel_width = pixel_width + 4;
        if value == 0 {
            break;
        }
    }
    pixel_width
}


/// Glyph width, advance and height of number style `style` (styles outside
/// 0 to 4 have none).
pub open spec fn number_style(style: i32) -> (i32, i32, i32) {
    if style == 0 {
        (5, 4, 7)
    } else if style == 1 || style == 2 {
        (7, 6, 9)
    } else if style == 3 || style == 4 {
        (9, 8, 14)
    } else {
        (0, 0, 0)
    }
}

/// `n` after `k` truncating divisions by 10.
pub open spec fn div10_pow(n: i32, k: nat) -> i32
    decreases k,
{
    if k == 0 {
        n
    } else {
        spec_java_div(div10_pow(n, (k - 1) as nat), 10)
    }
}

/// Digit `k` of `n`, least significant first, as the JVM's `%` gives it
/// (negative for a negative `n`).
pub open spec fn java_digit(n: i32, k: nat) -> i32 {
    spec_java_rem(div10_pow(n, k), 10)
}

/// Where `draw_number` starts: centred on `x` when `anchor` has bit 1, ending
/// at `x` when it has bit 8.
pub open spec fn number_start_x(x: i32, anchor: i32, count: int, advance: i32) -> i32 {
    if anchor | 1 == anchor {
        wsub(x, spec_java_div((count * advance) as i32, 2))
    } else if anchor | 8 == anchor {
        wsub(x, (count * advance) as i32)
    } else {
        x
    }
}

/// The steps of `draw_number(number, x, y, anchor, style)`: for each digit, most
/// significant first, a clip window one glyph wide (cut at the world's bottom
/// for the styles other than 0) and the digit sheet shifted to the digit's
/// glyph; then the clip area `clip` restored.
pub open spec fn number_ops(
    number: i32,
    x: i32,
    y: i32,
    anchor: i32,
    style: i32,
    world_height: i32,
    clip: (i32, i32, i32, i32),
) -> Seq<GlyphOp> {
    let m = number_style(style);
    let dc = digit_count(number as int) as int;
    let start_x = number_start_x(x, anchor, dc, m.1);
    let h = if style != 0 && wadd(y, m.2) > world_height { wsub(world_height, y) } else { m.2 };
    Seq::new(
        (2 * dc + 1) as nat,
        |j: int|
            if j == 2 * dc {
                GlyphOp::SetClip(clip.0, clip.1, clip.2, clip.3)
            } else {
                let wx = wadd(start_x, ((j / 2) * m.1) as i32);
                if j % 2 == 0 {
                    GlyphOp::SetClip(wx, y, m.0, h)
                } else {
                    GlyphOp::DrawSheet(
                        wsub(wx, (java_digit(number, (dc - 1 - j / 2) as nat) * m.0) as i32),
                        y,
                    )
                }
            },
    )
}

proof fn lemma_digit_step(n: i32)
    ensures
        spec_java_div(n, 10) as int == (if n >= 0 { n / 10 } else { -((-n) / 10) }),
        -9 <= spec_java_rem(n, 10) <= 9,
{
}

#[verifier::rlimit(80)]
#[verifier::spinoff_prover]
/// `draw_number(graphics, number, x, y, anchor, style)` within the clip area
/// `clip`; `world_height` is the bottom of the world view that styles other
/// than 0 are cut at. Numbers of up to nine digits.
pub fn draw_number(
    number: i32,
    x: i32,
    y: i32,
    anchor: i32,
    style: i32,
    world_height: i32,
    clip: (i32, i32, i32, i32),
) -> (ops: Vec<GlyphOp>)
    requires
        digit_count(number as int) <= 9,
    ensures
        ops@ == number_ops(number, x, y, anchor, style, world_height, clip),
{
    let (gw, adv, gh): (i32, i32, i32) = if style == 0 {
        (5, 4, 7)
    } else if style == 1 || style == 2 {
        (7, 6, 9)
    } else if style == 3 || style == 4 {
        (9, 8, 14)
    } else {
        (0, 0, 0)
    };
    let mut digits: Vec<i8> = Vec::new();
    let mut k: usize = 0;
    while k < 9
        invariant
            k <= 9,
            digits@.len() == k,
        decreases 9 - k,
    {
        digits.push(0);
        k = k + 1;
    }
    let mut n: i32 = number;
    let mut count: usize = 0;
    loop
        invariant_except_break
            count + digit_count(n as int) == digit_count(number as int),
        invariant
            digits@.len() == 9,
            count <= digit_count(number as int),
            digit_count(number as int) <= 9,
            n == div10_pow(number, count as nat),
            forall|j: int| 0 <= j < count ==> #[trigger] digits@[j] as i32 == java_digit(number, j as nat),
        ensures
            count == digit_count(number as int),
            digits@.len() == 9,
            forall|j: int| 0 <= j < count ==> #[trigger] digits@[j] as i32 == java_digit(number, j as nat),
        decreases digit_count(n as int),
    {
        proof {
            lemma_digit_step(n);
        }
        let digit = match java_rem(n, 10) {
            Some(r) => r,
            None => 0,
        };
        let q = match java_div(n, 10) {
            Some(v) => v,
            None => 0,
        };
        digits.set(count, digit as i8);
        proof {
            assert(div10_pow(number, (count + 1) as nat) == q);
        }
        n = q;
        count = count + 1;
        if n == 0 {
            break;
        }
    }
    let dc = count as i32;
    assert(0 <= adv <= 8 && 0 <= gw <= 9);
    assert(0 <= dc * adv <= 72) by (nonlinear_arith)
        requires
            0 <= dc <= 9,
            0 <= adv <= 8,
    ;
    let mut start_x: i32 = x;
    if (anchor | 1) == anchor {
        let half = match java_div(dc * adv, 2) {
            Some(h) => h,
            None => 0,
        };
        start_x = start_x.wrapping_sub(half);
    } else if (anchor | 8) == anchor {
        start_x = start_x.wrapping_sub(dc * adv);
    }
    let mut h: i32 = gh;
    if style != 0 && y.wrapping_add(gh) > world_height {
        h = world_height.wrapping_sub(y);
    }
    let ghost spec_ops = number_ops(number, x, y, anchor, style, world_height, clip);
    let mut ops: Vec<GlyphOp> = Vec::new();
    let mut i: i32 = 0;
    while i < dc
        invariant
            0 <= i <= dc,
            dc == digit_count(number as int),
            dc <= 9,
            digits@.len() == 9,
            forall|j: int| 0 <= j < dc ==> #[trigger] digits@[j] as i32 == java_digit(number, j as nat),
            (gw, adv, gh) == number_style(style),
            start_x == number_start_x(x, anchor, dc as int, adv),
            h == (if style != 0 && wadd(y, gh) > world_height { wsub(world_height, y) } else { gh }),
            spec_ops == number_ops(number, x, y, anchor, style, world_height, clip),
            ops@ == spec_ops.take(2 * i),
        decreases dc - i,
    {
        assert(0 <= i * adv <= 72) by (nonlinear_arith)
            requires
                0 <= i <= 9,
                0 <= adv <= 8,
        ;
        let wx = start_x.wrapping_add(i * adv);
        ops.push(GlyphOp::SetClip(wx, y, gw, h));
        let digit = digits[(dc - i - 1) as usize];
        proof {
            assert(-9 <= java_digit(number, (dc - i - 1) as nat) <= 9) by {
                lemma_digit_step(div10_pow(number, (dc - i - 1) as nat));
            }
        }
        ops.push(GlyphOp::DrawSheet(wx.wrapping_sub(digit as i32 * gw), y));
        proof {
            assert(spec_ops[2 * i] == GlyphOp::SetClip(wx, y, gw, h));
            assert((2 * i + 1) / 2 == i);
            assert(spec_ops[2 * i + 1] == GlyphOp::DrawSheet(wsub(wx, (digit as i32 * gw) as i32), y));
            assert(ops@ =~= spec_ops.take(2 * i + 2));
        }
        i = i + 1;
    }
    ops.push(GlyphOp::SetClip(clip.0, clip.1, clip.2, clip.3));
    assert(ops@ =~= spec_ops);
    ops
}

/// `draw_number_at(graphics, number, x, y, anchor)`: [`draw_number`] in style 0.
pub fn draw_number_at(number: i32, x: i32, y: i32, anchor: i32, clip: (i32, i32, i32, i32)) -> (ops: Vec<GlyphOp>)
    requires
        digit_count(number as int) <= 9,
    ensures
        ops@ == number_ops(number, x, y, anchor, 0, 0, clip),
{
    draw_number(number, x, y, anchor, 0, 0, clip)
}

/// 32-bit wrapping `a * b`.
pub open spec fn wmul(a: i32, b: i32) -> i32 {
    vstd::wrapping::i32_specs::wrapping_mul(a, b)
}

/// The pen colours of the loading screen.
pub const LOADING_INK: i32 = 14663551;
pub const LOADING_SHADE: i32 = 10452799;
pub const LOADING_BAR: i32 = 14655295;
pub const LOADING_BAR_LIGHT: i32 = 16777087;

/// The loading screen's frame: cleared black, the title over a double rule
/// with end caps, and the subtitle centred (by the current font's width) 50
/// pixels below the middle.
pub open spec fn loading_frame_ops(
    c: BaseCanvasState,
    fm: FontManagerState,
    clip: (i32, i32, i32, i32),
    title: Seq<u16>,
    subtitle: Seq<u16>,
) -> Seq<GlyphOp> {
    let hw = c.half_w;
    let hh = c.half_h;
    let title_ops = text_ops(color_font(fm, LOADING_INK), title, wsub(hw, 48), wsub(hh, 12), 20, clip).0;
    let sub_w = width_sum(font_in(fm, fm.current_font)->0, subtitle, 0, subtitle.len() as int);
    let sub_x = wsub(hw, spec_java_div(sub_w, 2));
    let sub_ops = text_ops(color_font(fm, LOADING_SHADE), subtitle, sub_x, wadd(hh, 50), 20, clip).0;
    seq![GlyphOp::SetColor(0), GlyphOp::FillRect(0, 0, c.width, c.height), GlyphOp::SetColor(LOADING_INK)]
        + title_ops + seq![
        GlyphOp::DrawLine(wsub(hw, 50), hh, wadd(hw, 48), hh),
        GlyphOp::FillRect(wsub(hw, 51), wadd(hh, 1), 2, 2),
        GlyphOp::FillRect(wadd(hw, 48), wadd(hh, 1), 2, 2),
        GlyphOp::SetColor(LOADING_SHADE),
        GlyphOp::DrawLine(wsub(hw, 50), wadd(hh, 5), wadd(hw, 48), wadd(hh, 5)),
        GlyphOp::FillRect(wsub(hw, 51), wadd(hh, 3), 2, 2),
        GlyphOp::FillRect(wadd(hw, 48), wadd(hh, 3), 2, 2),
    ] + sub_ops
}

/// `n` dots.
pub open spec fn dots(n: int) -> Seq<u16> {
    Seq::new(n as nat, |i: int| 46u16)
}

/// The progress bar's length: 95 pixels times the progress (capped at the
/// total) over the total.
pub open spec fn load_fill(c: BaseCanvasState) -> i32 {
    let done = if c.load_progress < c.load_total { c.load_progress } else { c.load_total };
    spec_java_div(wmul(95, done), c.load_total)
}

/// The progress part: zero to three animated dots after the title, and the
/// two-tone bar along the rule.
pub open spec fn loading_progress_ops(c: BaseCanvasState, fm: FontManagerState, clip: (i32, i32, i32, i32)) -> Seq<GlyphOp> {
    let hw = c.half_w;
    let hh = c.half_h;
    let fill = load_fill(c);
    seq![GlyphOp::SetColor(0), GlyphOp::FillRect(wadd(hw, 20), wsub(hh, 12), 18, 10), GlyphOp::SetColor(LOADING_INK)]
        + text_ops(color_font(fm, LOADING_INK), dots(spec_java_rem(c.load_phase, 4) as int), wadd(hw, 20), wsub(hh, 12), 20, clip).0
        + seq![
        GlyphOp::SetColor(LOADING_BAR),
        GlyphOp::FillRect(wsub(hw, 48), wadd(hh, 2), fill, 1),
        GlyphOp::SetColor(LOADING_BAR_LIGHT),
        GlyphOp::FillRect(wsub(hw, 48), wadd(hh, 3), fill, 1),
    ]
}

/// How many black bars the opening wipe draws: one per 12 rows, rounded up.
pub open spec fn wipe_bars(c: BaseCanvasState) -> int {
    let n = spec_java_div(wadd(c.height, 11), 12) as int;
    if n < 0 { 0 } else { n }
}

/// The opening wipe: a black bar 4 rows high every 12 rows, shifted down 4
/// rows per phase.
pub open spec fn wipe_ops(c: BaseCanvasState) -> Seq<GlyphOp> {
    seq![GlyphOp::SetColor(0)] + Seq::new(
        wipe_bars(c) as nat,
        |i: int| GlyphOp::FillRect(0, wadd(wmul(i as i32, 12), wmul(c.load_phase, 4)), c.width, 4),
    )
}

/// One frame of the loading screen at phase `c.load_phase`: the wipe before
/// phase 3, the frame from phase 3 on, and the progress after it.
pub open spec fn loading_screen_ops(
    c: BaseCanvasState,
    fm: FontManagerState,
    clip: (i32, i32, i32, i32),
    title: Seq<u16>,
    subtitle: Seq<u16>,
) -> Seq<GlyphOp> {
    (if c.load_phase >= 3 { loading_frame_ops(c, fm, clip, title, subtitle) } else { Seq::empty() }) + (
    if c.load_phase > 3 {
        loading_progress_ops(c, fm, clip)
    } else if c.load_phase < 3 {
        wipe_ops(c)
    } else {
        Seq::empty()
    })
}

/// What a loading-screen frame needs: from phase 3 on, the fonts of its pen
/// colours and the current font hold the title's and subtitle's characters;
/// past it, a nonzero total and the dots' font.
pub open spec fn loading_screen_drawable(
    c: BaseCanvasState,
    fm: FontManagerState,
    title: Seq<u16>,
    subtitle: Seq<u16>,
) -> bool {
    &&& c.load_phase >= 3 ==> {
        &&& font_in(fm, font_for_color_slot(fm.big_font_active, LOADING_INK)) is Some
        &&& font_in(fm, font_for_color_slot(fm.big_font_active, LOADING_SHADE)) is Some
        &&& font_in(fm, fm.current_font) is Some
        &&& text_drawable(color_font(fm, LOADING_INK), title, 20)
        &&& text_drawable(color_font(fm, LOADING_SHADE), subtitle, 20)
        &&& crate::bitmap_font::range_ok(font_in(fm, fm.current_font)->0, subtitle, 0, subtitle.len() as i32)
    }
    &&& c.load_phase > 3 ==> {
        &&& c.load_total != 0
        &&& text_drawable(color_font(fm, LOADING_INK), dots(spec_java_rem(c.load_phase, 4) as int), 20)
    }
}

/// Appends the loading screen's frame (see [`loading_frame_ops`]).
fn push_loading_frame(
    s: &BaseCanvasState,
    fm: &FontManagerState,
    clip: (i32, i32, i32, i32),
    title: &[u16],
    subtitle: &[u16],
    ops: &mut Vec<GlyphOp>,
)
    requires
        loading_screen_drawable(*s, *fm, title@, subtitle@),
        s.load_phase >= 3,
    ensures
        final(ops)@ == old(ops)@ + loading_frame_ops(*s, *fm, clip, title@, subtitle@),
{
    let hw = s.half_w;
    let hh = s.half_h;
    let ghost start = ops@;
    ops.push(GlyphOp::SetColor(0));
    ops.push(GlyphOp::FillRect(0, 0, s.width, s.height));
    ops.push(GlyphOp::SetColor(LOADING_INK));
    let (mut title_ops, _) = font_manager::draw_chars(fm, LOADING_INK, clip, hw.wrapping_sub(48), hh.wrapping_sub(12), title, 0);
    ops.append(&mut title_ops);
    ops.push(GlyphOp::DrawLine(hw.wrapping_sub(50), hh, hw.wrapping_add(48), hh));
    ops.push(GlyphOp::FillRect(hw.wrapping_sub(51), hh.wrapping_add(1), 2, 2));
    ops.push(GlyphOp::FillRect(hw.wrapping_add(48), hh.wrapping_add(1), 2, 2));
    ops.push(GlyphOp::SetColor(LOADING_SHADE));
    ops.push(GlyphOp::DrawLine(hw.wrapping_sub(50), hh.wrapping_add(5), hw.wrapping_add(48), hh.wrapping_add(5)));
    ops.push(GlyphOp::FillRect(hw.wrapping_sub(51), hh.wrapping_add(3), 2, 2));
    ops.push(GlyphOp::FillRect(hw.wrapping_add(48), hh.wrapping_add(3), 2, 2));
    let half = match java_div(font_manager::string_width(fm, subtitle), 2) {
        Some(q) => q,
        None => 0,
    };
    let (mut sub_ops, _) = font_manager::draw_chars(fm, LOADING_SHADE, clip, hw.wrapping_sub(half), hh.wrapping_add(50), subtitle, 0);
    ops.append(&mut sub_ops);
    assert(ops@ =~= start + loading_frame_ops(*s, *fm, clip, title@, subtitle@));
}

/// Appends the progress part (see [`loading_progress_ops`]).
fn push_loading_progress(s: &BaseCanvasState, fm: &FontManagerState, clip: (i32, i32, i32, i32), ops: &mut Vec<GlyphOp>)
    requires
        s.load_phase > 3,
        s.load_total != 0,
        text_drawable(color_font(*fm, LOADING_INK), dots(spec_java_rem(s.load_phase, 4) as int), 20),
        font_in(*fm, font_for_color_slot(fm.big_font_active, LOADING_INK)) is Some,
    ensures
        final(ops)@ == old(ops)@ + loading_progress_ops(*s, *fm, clip),
{
    let hw = s.half_w;
    let hh = s.half_h;
    let ghost start = ops@;
    ops.push(GlyphOp::SetColor(0));
    ops.push(GlyphOp::FillRect(hw.wrapping_add(20), hh.wrapping_sub(12), 18, 10));
    ops.push(GlyphOp::SetColor(LOADING_INK));
    let dot_count = match java_rem(s.load_phase, 4) {
        Some(r) => r,
        None => 0,
    };
    let mut dot_chars: Vec<u16> = Vec::new();
    let mut k: i32 = 0;
    while k < dot_count
        invariant
            0 <= k <= dot_count,
            dot_count == spec_java_rem(s.load_phase, 4),
            dot_chars@ == dots(k as int),
        decreases dot_count - k,
    {
        dot_chars.push(46u16);
        k = k + 1;
        assert(dot_chars@ =~= dots(k as int));
    }
    let (mut dot_ops, _) = font_manager::draw_chars(fm, LOADING_INK, clip, hw.wrapping_add(20), hh.wrapping_sub(12), &dot_chars, 0);
    ops.append(&mut dot_ops);
    ops.push(GlyphOp::SetColor(LOADING_BAR));
    let done = if s.load_progress < s.load_total { s.load_progress } else { s.load_total };
    let fill = match java_div(95i32.wrapping_mul(done), s.load_total) {
        Some(q) => q,
        None => 0,
    };
    ops.push(GlyphOp::FillRect(hw.wrapping_sub(48), hh.wrapping_add(2), fill, 1));
    ops.push(GlyphOp::SetColor(LOADING_BAR_LIGHT));
    ops.push(GlyphOp::FillRect(hw.wrapping_sub(48), hh.wrapping_add(3), fill, 1));
    assert(ops@ =~= start + loading_progress_ops(*s, *fm, clip));
}

/// Appends the opening wipe (see [`wipe_ops`]).
fn push_wipe(s: &BaseCanvasState, ops: &mut Vec<GlyphOp>)
    ensures
        final(ops)@ == old(ops)@ + wipe_ops(*s),
{
    let ghost start = ops@;
    ops.push(GlyphOp::SetColor(0));
    let bar_count = match java_div(s.height.wrapping_add(11), 12) {
        Some(q) => q,
        None => 0,
    };
    let ghost head = ops@;
    let mut i: i32 = 0;
    while i < bar_count
        invariant
            0 <= i,
            bar_count >= 0 ==> i <= bar_count,
            bar_count < 0 ==> i == 0,
            bar_count == spec_java_div(wadd(s.height, 11), 12),
            ops@ == head + Seq::new(
                i as nat,
                |j: int| GlyphOp::FillRect(0, wadd(wmul(j as i32, 12), wmul(s.load_phase, 4)), s.width, 4),
            ),
        decreases bar_count - i,
    {
        ops.push(GlyphOp::FillRect(0, i.wrapping_mul(12).wrapping_add(s.load_phase.wrapping_mul(4)), s.width, 4));
        i = i + 1;
        assert(ops@ =~= head + Seq::new(
            i as nat,
            |j: int| GlyphOp::FillRect(0, wadd(wmul(j as i32, 12), wmul(s.load_phase, 4)), s.width, 4),
        ));
    }
    assert(ops@ =~= start + wipe_ops(*s));
}

/// `draw_loading_screen(graphics)` with the font manager `fm`, the clip area
/// `clip` and the loading strings: the drawing steps of one frame (see
/// [`loading_screen_ops`]); the phase advances.
pub fn draw_loading_screen(
    s: &mut BaseCanvasState,
    fm: &FontManagerState,
    clip: (i32, i32, i32, i32),
    loading_title: &[u16],
    loading_subtitle: &[u16],
) -> (ops: Vec<GlyphOp>)
    requires
        loading_screen_drawable(*old(s), *fm, loading_title@, loading_subtitle@),
    ensures
        ops@ == loading_screen_ops(*old(s), *fm, clip, loading_title@, loading_subtitle@),
        *final(s) == (BaseCanvasState { load_phase: wadd(old(s).load_phase, 1), ..*old(s) }),
{
    let mut ops: Vec<GlyphOp> = Vec::new();
    if s.load_phase >= 3 {
        push_loading_frame(s, fm, clip, loading_title, loading_subtitle, &mut ops);
    }
    if s.load_phase > 3 {
        push_loading_progress(s, fm, clip, &mut ops);
    } else if s.load_phase < 3 {
        push_wipe(s, &mut ops);
    }
    assert(ops@ =~= loading_screen_ops(*old(s), *fm, clip, loading_title@, loading_subtitle@));
    s.load_phase = s.load_phase.wrapping_add(1);
    ops
}

/// `draw_fraction(graphics, x, y, numerator, denominator)` within the clip area
/// `clip`: the denominator right-aligned on `x`, the slash right-aligned
/// against it, and the numerator right-aligned 9 pixels further left.
pub fn draw_fraction(x: i32, y: i32, numerator: i32, denominator: i32, clip: (i32, i32, i32, i32)) -> (ops: Vec<GlyphOp>)
    requires
        digit_count(numerator as int) <= 9,
        digit_count(denominator as int) <= 9,
    ensures
        ({
            let dw = 1 + 4 * digit_count(denominator as int);
            let sx = wsub(x, dw as i32);
            ops@ == number_ops(denominator, x, y, 8, 0, 0, clip) + seq![GlyphOp::DrawFractionSlash(sx, y)]
                + number_ops(numerator, wsub(sx, 9), y, 8, 0, 0, clip)
        }),
{
    let mut ops = draw_number_at(denominator, x, y, 8, clip);
    let dw = number_width(denominator);
    ops.push(GlyphOp::DrawFractionSlash(x.wrapping_sub(dw), y));
    let mut rest = draw_number_at(numerator, x.wrapping_sub(dw).wrapping_sub(9), y, 8, clip);
    ops.append(&mut rest);
    ops
}

/// `draw_label_box(graphics, text, x, y)` within the clip area `clip`: a black
/// box one pixel around `text` (as wide as the current font measures it), the
/// text in white on it; and the x just past the box.
pub fn draw_label_box(
    fm: &FontManagerState,
    clip: (i32, i32, i32, i32),
    text: &[u16],
    x: i32,
    y: i32,
) -> (r: (Vec<GlyphOp>, i32))
    requires
        font_in(*fm, fm.current_font) is Some,
        font_manager::soft_key_drawable(*fm, text@),
    ensures
        ({
            let cur = font_manager::cur_font(*fm);
            let w = wadd(width_sum(cur, text@, 0, text@.len() as int), 2);
            let h = wadd(cur.line_height, 2);
            &&& r.0@ == seq![GlyphOp::SetColor(0), GlyphOp::FillRect(wsub(x, 1), wsub(y, 1), w, h), GlyphOp::SetColor(16777215)]
                + text_ops(color_font(*fm, 16777215), text@, x, y, 20, clip).0
            &&& r.1 == wadd(x, w)
        }),
{
    let w = font_manager::string_width(fm, text).wrapping_add(2);
    let h = font_manager::line_height(fm).wrapping_add(2);
    let mut ops: Vec<GlyphOp> = Vec::new();
    ops.push(GlyphOp::SetColor(0));
    ops.push(GlyphOp::FillRect(x.wrapping_sub(1), y.wrapping_sub(1), w, h));
    ops.push(GlyphOp::SetColor(16777215));
    let (mut t, _) = font_manager::draw_chars(fm, 16777215, clip, x, y, text, 1);
    ops.append(&mut t);
    (ops, x.wrapping_add(w))
}

} // verus!
