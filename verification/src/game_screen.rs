//! The in-game screen's geometry (playfield, centre, HUD bars) derived from the
//! canvas size, its redraw flag, and the key intake that remaps the soft keys
//! before the current screen handles a key, and the sprite-frame scripts turned
//! into the image blits that draw them.

use vstd::prelude::*;
use crate::base_canvas::BaseCanvasState;
use crate::game_loop::GameLoopState;
use crate::bitmap_font::{wadd, wsub, GlyphOp};
use crate::jvm::{java_div, spec_java_div};

verus! {

/// The game screen's geometry and HUD state.
pub struct GameScreenState {
    /// Playfield width.
    pub width: i32,
    /// Screen height less the 21-pixel HUD.
    pub world_height: i32,
    /// Playfield centre.
    pub center_x: i32,
    pub center_y: i32,
    /// How many HUD slots fit.
    pub hud_slots: i32,
    /// Width of the health bars.
    pub bar_width: i32,
    /// Width of the experience bar.
    pub exp_width: i32,
    /// Cinematic fade timer.
    pub fx_timer: i32,
    /// Whether the world is drawn.
    pub world_visible: bool,
    /// Redraw the whole HUD next frame.
    pub redraw_all: bool,
    /// Low-health blink counter.
    pub low_hp_blink: i32,
    /// Frames left for the message line.
    pub message_ttl: i32,
    /// Frames left for the target panel.
    pub target_ttl: i32,
}

impl GameScreenState {
    /// Everything zero or off.
    pub fn new() -> (s: Self)
        ensures
            s.width == 0 && s.world_height == 0 && s.center_x == 0 && s.center_y == 0,
            s.hud_slots == 0 && s.bar_width == 0 && s.exp_width == 0 && s.fx_timer == 0,
            !s.world_visible && !s.redraw_all,
            s.low_hp_blink == 0 && s.message_ttl == 0 && s.target_ttl == 0,
    {
        GameScreenState {
            width: 0,
            world_height: 0,
            center_x: 0,
            center_y: 0,
            hud_slots: 0,
            bar_width: 0,
            exp_width: 0,
            fx_timer: 0,
            world_visible: false,
            redraw_all: false,
            low_hp_blink: 0,
            message_ttl: 0,
            target_ttl: 0,
        }
    }
}

impl Default for GameScreenState {
    fn default() -> (s: Self)
        ensures
            s.width == 0 && s.world_height == 0 && s.center_x == 0 && s.center_y == 0,
            s.hud_slots == 0 && s.bar_width == 0 && s.exp_width == 0 && s.fx_timer == 0,
            !s.world_visible && !s.redraw_all,
            s.low_hp_blink == 0 && s.message_ttl == 0 && s.target_ttl == 0,
    {
        GameScreenState::new()
    }
}

/// `GameScreen::new()`: the geometry from the canvas (playfield above a 21-pixel
/// HUD, centre 8 pixels left of the middle, HUD slots of 6 pixels after a
/// 74-pixel margin, bars 67 and 6 pixels short of the width), a full redraw
/// requested and the HUD timers cleared.
pub fn construct(s: &mut GameScreenState, canvas: &BaseCanvasState)
    ensures
        final(s).width == canvas.width,
        final(s).world_height == wsub(canvas.height, 21),
        final(s).center_x == wsub(spec_java_div(canvas.width, 2), 8),
        final(s).center_y == spec_java_div(wsub(canvas.height, 21), 2),
        final(s).hud_slots == spec_java_div(wsub(canvas.width, 74), 6),
        final(s).bar_width == wsub(canvas.width, 67),
        final(s).exp_width == wsub(canvas.width, 6),
        final(s).redraw_all,
        final(s).low_hp_blink == 0 && final(s).message_ttl == 0 && final(s).target_ttl == 0,
        final(s).fx_timer == old(s).fx_timer,
        final(s).world_visible == old(s).world_visible,
{
    s.width = canvas.width;
    s.world_height = canvas.height.wrapping_sub(21);
    s.center_x = match java_div(s.width, 2) {
        Some(q) => q,
        None => 0,
    }.wrapping_sub(8);
    s.center_y = match java_div(s.world_height, 2) {
        Some(q) => q,
        None => 0,
    };
    s.hud_slots = match java_div(canvas.width.wrapping_sub(74), 6) {
        Some(q) => q,
        None => 0,
    };
    s.bar_width = canvas.width.wrapping_sub(67);
    s.exp_width = canvas.width.wrapping_sub(6);
    s.redraw_all = true;
    s.low_hp_blink = 0;
    s.message_ttl = 0;
    s.target_ttl = 0;
}

/// `mark_redraw()`: asks for a full HUD redraw next frame.
pub fn mark_redraw(s: &mut GameScreenState)
    ensures
        *final(s) == (GameScreenState { redraw_all: true, ..*old(s) }),
{
    s.redraw_all = true;
}

/// The soft keys as the screens read them: the left soft key (-6) is fire
/// (53) and the right one (-7) is back (-8).
pub open spec fn remap_key(key_code: i32) -> i32 {
    if key_code == -6i32 {
        53i32
    } else if key_code == -7i32 {
        -8i32
    } else {
        key_code
    }
}

/// `key_pressed(key_code)`: with the loop running, records the key as down and
/// returns the remapped key code for the current screen to handle; with no
/// loop, or a stopped one, ignores the key.
pub fn key_pressed(game_loop: &GameLoopState, canvas: &mut BaseCanvasState, key_code: i32) -> (r: Option<i32>)
    ensures
        game_loop.instance && !game_loop.stopped ==> {
            &&& r == Some(remap_key(key_code))
            &&& *final(canvas) == (BaseCanvasState { key_down: true, ..*old(canvas) })
        },
        !(game_loop.instance && !game_loop.stopped) ==> r is None && *final(canvas) == *old(canvas),
{
    let mut key = key_code;
    if key == -6 {
        key = 53;
    }
    if key == -7 {
        key = -8;
    }
    if !game_loop.instance || game_loop.stopped {
        return None;
    }
    canvas.key_down = true;
    Some(key)
}

/// One image blit of a sprite frame: image `image` of sprite bank `bank`,
/// drawn with its top-left corner at `(x, y)`.
#[derive(Clone, Copy, Debug, PartialEq, Eq, Structural)]
pub struct SpriteBlit {
    pub bank: i32,
    pub image: i32,
    pub x: i32,
    pub y: i32,
}

/// A frame script part `[dx, dy, bank, image]` at `p` can be read, and a live
/// image index (not -1) names an image slot of a loaded bank. `loaded[b]` is
/// `None` for a bank that is not loaded, else which of its images are.
pub open spec fn part_readable(f: Seq<i8>, p: int, loaded: Seq<Option<Vec<bool>>>) -> bool {
    &&& 0 <= p
    &&& p + 3 < f.len()
    &&& f[p + 3] != -1 ==> {
        &&& 0 <= f[p + 2] < loaded.len()
        &&& loaded[f[p + 2] as int] is Some
        &&& 0 <= f[p + 3] < loaded[f[p + 2] as int].unwrap()@.len()
    }
}

/// What the part at `p` draws at `(x, y)`: nothing for image -1 or an image
/// that is not loaded, else one blit offset by the part's `(dx, dy)`.
pub open spec fn part_blit(f: Seq<i8>, p: int, loaded: Seq<Option<Vec<bool>>>, x: i32, y: i32) -> Option<SpriteBlit> {
    if f[p + 3] != -1 && loaded[f[p + 2] as int].unwrap()@[f[p + 3] as int] {
        Some(SpriteBlit {
            bank: f[p + 2] as i32,
            image: f[p + 3] as i32,
            x: wadd(x, f[p] as i32),
            y: wadd(y, f[p + 1] as i32),
        })
    } else {
        None
    }
}

/// `draw_frame` reads its script without fault: the frame count is there, and
/// a frame below it has a readable part.
pub open spec fn frame_drawable(frames: Option<Seq<i8>>, frame_index: i8, loaded: Seq<Option<Vec<bool>>>) -> bool {
    match frames {
        None => true,
        Some(f) => f.len() >= 1 && (frame_index < f[0] ==> part_readable(f, 1 + 4 * frame_index, loaded)),
    }
}

/// What `draw_frame` draws: nothing for a missing script or a frame index at or
/// past the count, else frame `i`'s part at `1 + 4 i`.
pub open spec fn frame_blit(frames: Option<Seq<i8>>, frame_index: i8, loaded: Seq<Option<Vec<bool>>>, x: i32, y: i32) -> Option<SpriteBlit> {
    match frames {
        None => None,
        Some(f) => if frame_index >= f[0] {
            None
        } else {
            part_blit(f, 1 + 4 * frame_index, loaded, x, y)
        },
    }
}

/// `draw_frame(graphics, frames, frame_index, x, y)`: the blit that draws frame
/// `frame_index` of the script at `(x, y)`, if any.
pub fn draw_frame(loaded: &Vec<Option<Vec<bool>>>, frames: Option<&[i8]>, frame_index: i8, x: i32, y: i32) -> (r: Option<SpriteBlit>)
    requires
        frame_drawable(match frames { Some(f) => Some(f@), None => None }, frame_index, loaded@),
    ensures
        r == frame_blit(match frames { Some(f) => Some(f@), None => None }, frame_index, loaded@, x, y),
{
    let f = match frames {
        None => return None,
        Some(f) => f,
    };
    if frame_index as i32 >= f[0] as i32 {
        return None;
    }
    let base: usize = 1 + 4 * (frame_index as usize);
    let bank = f[base + 2];
    let img = f[base + 3];
    if img == -1 {
        return None;
    }
    let images = match &loaded[bank as usize] {
        Some(v) => v,
        None => return None,
    };
    if !images[img as usize] {
        return None;
    }
    Some(SpriteBlit {
        bank: bank as i32,
        image: img as i32,
        x: x.wrapping_add(f[base] as i32),
        y: y.wrapping_add(f[base + 1] as i32),
    })
}

/// Where group `g` of a grouped script starts: groups are laid out from index
/// 1 as `[part_count][part_count x 4 bytes]`, so each one skips `1 + 4 part_count`.
pub open spec fn group_start(f: Seq<i8>, g: int) -> int
    decreases g,
{
    if g <= 0 {
        1
    } else {
        let c = group_start(f, g - 1);
        c + 1 + 4 * f[c]
    }
}

/// The walk to group `g` reads only counts inside the script.
pub open spec fn groups_walkable(f: Seq<i8>, g: int) -> bool
    decreases g,
{
    g <= 0 || (groups_walkable(f, g - 1) && 0 <= group_start(f, g - 1) < f.len())
}

/// Every one of the `n` parts from `part` on is readable.
pub open spec fn parts_readable(f: Seq<i8>, part: int, n: int, loaded: Seq<Option<Vec<bool>>>) -> bool {
    forall|k: int| 0 <= k < n ==> #[trigger] part_readable(f, part + 4 * k, loaded)
}

/// The blits of the first `n` parts from `part` on, in order.
pub open spec fn group_blits(f: Seq<i8>, part: int, n: int, loaded: Seq<Option<Vec<bool>>>, x: i32, y: i32) -> Seq<SpriteBlit>
    decreases n,
{
    if n <= 0 {
        Seq::empty()
    } else {
        let rest = group_blits(f, part, n - 1, loaded, x, y);
        match part_blit(f, part + 4 * (n - 1), loaded, x, y) {
            Some(b) => rest.push(b),
            None => rest,
        }
    }
}

/// `draw_frame_group` reads its script without fault: the group count is there,
/// and for a group below it the walk, its part count and its parts are readable.
pub open spec fn group_drawable(frames: Option<Seq<i8>>, group_index: i8, loaded: Seq<Option<Vec<bool>>>) -> bool {
    match frames {
        None => true,
        Some(f) => f.len() >= 1 && (group_index < f[0] ==> {
            let c = group_start(f, group_index as int);
            &&& groups_walkable(f, group_index as int)
            &&& 0 <= c < f.len()
            &&& parts_readable(f, c + 1, f[c] as int, loaded)
        }),
    }
}

/// What `draw_frame_group` draws: nothing for a missing script or a group index
/// at or past the count, else the blits of the group's parts in order.
pub open spec fn group_frame_blits(frames: Option<Seq<i8>>, group_index: i8, loaded: Seq<Option<Vec<bool>>>, x: i32, y: i32) -> Seq<SpriteBlit> {
    match frames {
        None => Seq::empty(),
        Some(f) => if group_index >= f[0] {
            Seq::empty()
        } else {
            let c = group_start(f, group_index as int);
            group_blits(f, c + 1, f[c] as int, loaded, x, y)
        },
    }
}

/// `draw_frame_group(graphics, frames, group_index, x, y)`: the blits that draw
/// every part of group `group_index` of the script at `(x, y)`, in order. A
/// script is a JVM array, so its length fits in an `int`.
pub fn draw_frame_group(loaded: &Vec<Option<Vec<bool>>>, frames: Option<&[i8]>, group_index: i8, x: i32, y: i32) -> (r: Vec<SpriteBlit>)
    requires
        frames matches Some(f) ==> f@.len() <= i32::MAX,
        group_drawable(match frames { Some(f) => Some(f@), None => None }, group_index, loaded@),
    ensures
        r@ == group_frame_blits(match frames { Some(f) => Some(f@), None => None }, group_index, loaded@, x, y),
{
    let mut out: Vec<SpriteBlit> = Vec::new();
    let f = match frames {
        None => return out,
        Some(f) => f,
    };
    if group_index as i32 >= f[0] as i32 {
        return out;
    }
    let ghost fs = f@;
    let mut cursor: i32 = 1;
    let mut group: i32 = 0;
    while group < group_index as i32
        invariant
            fs == f@,
            f@.len() <= i32::MAX,
            0 <= group,
            group_index >= 0 ==> group <= group_index,
            group_index < 0 ==> group == 0,
            cursor == group_start(fs, group as int),
            groups_walkable(fs, group_index as int),
            0 <= group_start(fs, group_index as int) < fs.len(),
        decreases group_index - group,
    {
        proof {
            lemma_walkable_prefix(fs, group as int + 1, group_index as int);
            if group + 1 < group_index {
                lemma_walkable_prefix(fs, group as int + 2, group_index as int);
            }
        }
        let skip: i32 = f[cursor as usize] as i32;
        cursor = cursor + 1 + 4 * skip;
        group = group + 1;
    }
    assert(group == group_index || group_index < 0);
    let part_count: i32 = f[cursor as usize] as i32;
    let start: i32 = cursor + 1;
    let mut part: i32 = start;
    let mut p: i32 = 0;
    while p < part_count
        invariant
            fs == f@,
            f@.len() <= i32::MAX,
            0 <= p,
            part_count >= 0 ==> p <= part_count,
            part_count < 0 ==> p == 0,
            part == start + 4 * p,
            0 <= start,
            parts_readable(fs, start as int, part_count as int, loaded@),
            out@ == group_blits(fs, start as int, p as int, loaded@, x, y),
        decreases part_count - p,
    {
        proof {
            assert(part_readable(fs, start + 4 * p, loaded@));
        }
        let pu: usize = part as usize;
        let bank = f[pu + 2];
        let img = f[pu + 3];
        if img != -1 {
            if let Some(images) = &loaded[bank as usize] {
                if images[img as usize] {
                    out.push(SpriteBlit {
                        bank: bank as i32,
                        image: img as i32,
                        x: x.wrapping_add(f[pu] as i32),
                        y: y.wrapping_add(f[pu + 1] as i32),
                    });
                }
            }
        }
        part = part + 4;
        p = p + 1;
    }
    out
}

/// A walkable walk is walkable over each shorter prefix.
proof fn lemma_walkable_prefix(f: Seq<i8>, g: int, h: int)
    requires
        g <= h,
        groups_walkable(f, h),
    ensures
        groups_walkable(f, g),
    decreases h - g,
{
    if g < h {
        lemma_walkable_prefix(f, g, h - 1);
    }
}

/// The drawing steps of a list of sprite blits.
pub open spec fn sprite_ops(blits: Seq<SpriteBlit>) -> Seq<GlyphOp> {
    blits.map_values(|b: SpriteBlit| GlyphOp::DrawSprite(b.bank, b.image, b.x, b.y))
}

/// Appends the drawing steps of `blits`.
pub fn push_sprites(ops: &mut Vec<GlyphOp>, blits: &Vec<SpriteBlit>)
    ensures
        final(ops)@ == old(ops)@ + sprite_ops(blits@),
{
    let mut k: usize = 0;
    while k < blits.len()
        invariant
            k <= blits@.len(),
            ops@ == old(ops)@ + sprite_ops(blits@.take(k as int)),
        decreases blits@.len() - k,
    {
        let b = blits[k];
        ops.push(GlyphOp::DrawSprite(b.bank, b.image, b.x, b.y));
        assert(blits@.take(k + 1) =~= blits@.take(k as int).push(b));
        assert(sprite_ops(blits@.take(k + 1)) =~= sprite_ops(blits@.take(k as int)).push(
            GlyphOp::DrawSprite(b.bank, b.image, b.x, b.y),
        ));
        k = k + 1;
    }
    assert(blits@.take(k as int) =~= blits@);
}

} // verus!
