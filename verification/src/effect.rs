//! Visual effects: a frame counter run to a lifetime, either one of the
//! built-in effect types or a sprite script whose first byte is its length.

use vstd::prelude::*;
use crate::entity::{init_base, EntityArena, EntityId, EntityKind, EntityNode};
use crate::game_screen::{draw_frame_group, group_drawable, group_frame_blits, SpriteBlit};
use crate::jvm::{ishl, spec_ishl};
use crate::bitmap_font::wadd;

verus! {

/// The lifetime in frames of each built-in effect type.
pub const FRAME_COUNTS: [i16; 11] = [-1, 4, 8, 6, 10, 11, 7, 9, 6, 4, 3];

/// The sprite-script index of each built-in effect type (-1 for none).
pub const TYPE_SPRITE_INDEX: [i8; 11] = [-1, 0, -1, -1, 0, 0, 1, 0, 1, 1, -1];

/// An effect's own state.
pub struct EffectData {
    /// Frames before the effect finishes.
    pub frame_count: i16,
    /// The current frame.
    pub frame: i16,
    /// The effect type (100 for a script-fed effect).
    pub type_: i8,
    /// Which images of the guardian image bank are loaded (`None`: the bank is
    /// not loaded).
    pub frame_bank: Option<Vec<bool>>,
    /// The sprite script drawn by the script-driven types.
    pub sprite_script: Option<Vec<i8>>,
}

/// The state of a script-fed effect: as many frames as the script's first
/// byte, type 100.
pub fn effect_data_from_script(sprite_script: Vec<i8>) -> (e: EffectData)
    requires
        sprite_script@.len() >= 1,
    ensures
        e.frame_count == sprite_script@[0] as i16,
        e.frame == 0,
        e.type_ == 100,
        e.frame_bank is None,
        e.sprite_script == Some(sprite_script),
{
    let frame_count = sprite_script[0] as i16;
    EffectData { frame_count, frame: 0, type_: 100, frame_bank: None, sprite_script: Some(sprite_script) }
}

/// A fresh effect node at pixel `(px, py)`: the tile and off-grid flags
/// derived, collision half-size 8 by 9, unlinked, on layer 1.
pub open spec fn effect_node(px: i16, py: i16) -> EntityNode {
    EntityNode {
        tile_x: crate::jvm::spec_ishr(px as i32, 4) as i8,
        tile_y: crate::jvm::spec_ishr(py as i32, 4) as i8,
        off_grid_x: (px as i32 & 15) != 0,
        off_grid_y: (py as i32 & 15) != 0,
        pixel_x: px,
        pixel_y: py,
        half_w: 8,
        half_h: 9,
        next: None,
        prev: None,
        layer: 1,
        removed: false,
        kind: EntityKind::Effect,
    }
}

/// `Effect(pixel_x, pixel_y, type)`: a built-in effect of `type_` at the pixel
/// position (collision half-size 8 by 9), with the guardian image bank as
/// loaded (`bank`); its sprite script is bound later. Returns the new node's id
/// and the effect's state.
pub fn new_effect(arena: &mut EntityArena, bank: Option<Vec<bool>>, pixel_x: i16, pixel_y: i16, type_: i8) -> (r: (EntityId, EffectData))
    requires
        0 <= type_ < 11,
    ensures
        r.0 == old(arena)@.len(),
        final(arena)@ == old(arena)@.push(effect_node(pixel_x, pixel_y)),
        r.1.frame_count == FRAME_COUNTS@[type_ as int],
        r.1.frame == 0,
        r.1.type_ == type_,
        r.1.frame_bank == bank,
        r.1.sprite_script is None,
{
    let e = EffectData { frame_count: FRAME_COUNTS[type_ as usize], frame: 0, type_, frame_bank: bank, sprite_script: None };
    let mut node = EntityNode::new();
    node.kind = EntityKind::Effect;
    init_base(&mut node, pixel_x, pixel_y, 8, 9);
    let id = arena.alloc_node(node);
    (id, e)
}

/// `Effect(tile_x, tile_y, sprite_script)`: a script-fed effect at the tile's
/// corner pixel (`tile << 4`, kept to 16 bits). Returns the new node's id and
/// the effect's state.
pub fn new_effect_from_script(arena: &mut EntityArena, tile_x: i8, tile_y: i8, sprite_script: Vec<i8>) -> (r: (EntityId, EffectData))
    requires
        sprite_script@.len() >= 1,
    ensures
        ({
            let px = spec_ishl(tile_x as i32, 4) as i16;
            let py = spec_ishl(tile_y as i32, 4) as i16;
            &&& r.0 == old(arena)@.len()
            &&& final(arena)@ == old(arena)@.push(effect_node(px, py))
        }),
        r.1.frame_count == sprite_script@[0] as i16,
        r.1.frame == 0 && r.1.type_ == 100 && r.1.frame_bank is None,
        r.1.sprite_script == Some(sprite_script),
{
    let px = ishl(tile_x as i32, 4) as i16;
    let py = ishl(tile_y as i32, 4) as i16;
    let e = effect_data_from_script(sprite_script);
    let mut node = EntityNode::new();
    node.kind = EntityKind::Effect;
    init_base(&mut node, px, py, 8, 9);
    let id = arena.alloc_node(node);
    (id, e)
}

/// `is_finished()` of a plain effect: its frame has reached its count.
pub fn base_is_finished(effect: &EffectData) -> (r: bool)
    ensures
        r == (effect.frame >= effect.frame_count),
{
    effect.frame >= effect.frame_count
}

/// The sprite script as a sequence, if any.
pub open spec fn script_of(e: EffectData) -> Option<Seq<i8>> {
    match e.sprite_script {
        Some(s) => Some(s@),
        None => None,
    }
}

/// What `draw_sprite` of `e` at `(x, y)` draws: nothing outside the frame range,
/// else the current frame's group of the sprite script.
pub open spec fn sprite_blits(e: EffectData, loaded: Seq<Option<Vec<bool>>>, x: i32, y: i32) -> Seq<SpriteBlit> {
    if e.frame < 0 || e.frame >= e.frame_count {
        Seq::empty()
    } else {
        group_frame_blits(script_of(e), e.frame as i8, loaded, x, y)
    }
}

/// `draw_sprite` of `e` reads its script without fault.
pub open spec fn sprite_drawable(e: EffectData, loaded: Seq<Option<Vec<bool>>>) -> bool {
    !(e.frame < 0 || e.frame >= e.frame_count) ==> {
        &&& script_of(e) matches Some(s) ==> s.len() <= i32::MAX
        &&& group_drawable(script_of(e), e.frame as i8, loaded)
    }
}

/// `draw_sprite(graphics, x, y)`: the blits of the current frame's group of the
/// sprite script at `(x, y)` (see [`sprite_blits`]).
pub fn draw_sprite(e: &EffectData, loaded: &Vec<Option<Vec<bool>>>, x: i32, y: i32) -> (r: Vec<SpriteBlit>)
    requires
        sprite_drawable(*e, loaded@),
    ensures
        r@ == sprite_blits(*e, loaded@, x, y),
{
    if e.frame < 0 || e.frame >= e.frame_count {
        return Vec::new();
    }
    let script: Option<&[i8]> = match &e.sprite_script {
        Some(s) => Some(s.as_slice()),
        None => None,
    };
    draw_frame_group(loaded, script, e.frame as i8, x, y)
}

/// The types that draw their sprite script.
pub open spec fn draws_sprite(type_: i8) -> bool {
    type_ == 1 || type_ == 6 || type_ == 8 || type_ == 9 || type_ == 100
}

/// The screen position of node `n` drawn with the world origin at
/// `(origin_x, origin_y)`: its pixel position plus its half-size.
pub open spec fn screen_pos(n: EntityNode, origin_x: i32, origin_y: i32) -> (i32, i32) {
    (wadd(wadd(origin_x, n.pixel_x as i32), n.half_w as i32), wadd(wadd(origin_y, n.pixel_y as i32), n.half_h as i32))
}

/// `paint(graphics, origin_x, origin_y)` of a plain effect at node `n` (the map
/// first unlinks it from its draw list): the blits of its sprite for the
/// script-drawn types; the frame advances (16 bits); and whether it is now
/// finished, when the map removes it.
pub fn paint(e: &mut EffectData, n: &EntityNode, loaded: &Vec<Option<Vec<bool>>>, origin_x: i32, origin_y: i32) -> (r: (Vec<SpriteBlit>, bool))
    requires
        draws_sprite(old(e).type_) ==> sprite_drawable(*old(e), loaded@),
    ensures
        ({
            let p = screen_pos(*n, origin_x, origin_y);
            let f = (old(e).frame + 1) as i16;
            &&& r.0@ == (if draws_sprite(old(e).type_) { sprite_blits(*old(e), loaded@, p.0, p.1) } else { Seq::empty() })
            &&& *final(e) == (EffectData { frame: f, ..*old(e) })
            &&& r.1 == (f >= old(e).frame_count)
        }),
{
    let sx = origin_x.wrapping_add(n.pixel_x as i32).wrapping_add(n.half_w as i32);
    let sy = origin_y.wrapping_add(n.pixel_y as i32).wrapping_add(n.half_h as i32);
    let t = e.type_;
    let blits = if t == 1 || t == 6 || t == 8 || t == 9 || t == 100 {
        draw_sprite(e, loaded, sx, sy)
    } else {
        Vec::new()
    };
    e.frame = (e.frame as i32 + 1) as i16;
    let finished = base_is_finished(e);
    (blits, finished)
}

} // verus!
