//! Floaters: short-lived overlays drawn over a combatant (damage and heal
//! numbers, hit sparks, level-up and pickup icons, emoticons). Each counts the
//! frames it has been shown and finishes once it reaches its lifetime; a
//! lifetime of -1 loops until the floater is removed. The images themselves are
//! held by the drawing side; here are the counters and the draw positions.

use vstd::prelude::*;
use crate::bitmap_font::{wadd, wsub, GlyphOp};

verus! {

/// The default lifetime, in frames, of each floater kind (-1: loops).
pub open spec fn spec_default_lifetime(kind: int) -> i8 {
    if kind == 1 || kind == 5 || kind == 6 {
        3
    } else if kind == 2 {
        4
    } else if kind == 3 {
        11
    } else if kind == 4 {
        9
    } else if kind == 8 {
        8
    } else {
        -1i8
    }
}

/// The default lifetime of floater kind `kind` (kinds 0 to 10).
pub fn default_lifetime(kind: i8) -> (r: i8)
    requires
        0 <= kind < 11,
    ensures
        r == spec_default_lifetime(kind as int),
{
    match kind {
        1 | 5 | 6 => 3,
        2 => 4,
        3 => 11,
        4 => 9,
        8 => 8,
        _ => -1,
    }
}

/// What a floater shows.
pub struct FloaterData {
    /// The frame-group script of the script-driven kinds, once bound.
    pub sprite_script: Option<Vec<i8>>,
    /// The floater kind: selects the sprites and how each frame is placed.
    pub kind: i8,
    /// The number shown (kind 7) or the sprite index (kinds 9 and 10).
    pub value: i16,
}

/// An overlay: the frame counter, its limit and whether it has run out.
pub struct Overlay {
    /// Frames to show before finishing; -1 loops.
    pub lifetime: i16,
    /// Frames shown so far.
    pub frame: i16,
    /// Set once `frame` reaches `lifetime`.
    pub finished: bool,
    /// The floater shown.
    pub data: FloaterData,
}

/// A fresh floater of `kind` at frame 0, showing `value` for `lifetime`
/// frames, with no script bound yet.
pub open spec fn fresh(kind: i8, lifetime: i16, value: i16) -> Overlay {
    Overlay {
        lifetime: lifetime,
        frame: 0,
        finished: false,
        data: FloaterData { sprite_script: None, kind: kind, value: value },
    }
}

/// `Floater(kind, lifetime, value)`: a fresh floater at frame 0.
pub fn new(kind: i8, lifetime: i16, value: i16) -> (o: Overlay)
    ensures
        o == fresh(kind, lifetime, value),
{
    let mut o = Overlay {
        lifetime,
        frame: 0,
        finished: false,
        data: FloaterData { sprite_script: None, kind, value },
    };
    load_sprites(&mut o);
    o
}

/// `Floater(kind)`: a floater of `kind` with that kind's default lifetime and
/// value 0.
pub fn new_default(kind: i8) -> (o: Overlay)
    requires
        0 <= kind < 11,
    ensures
        o.lifetime == spec_default_lifetime(kind as int) as i16,
        o.frame == 0,
        !o.finished,
        o.data.sprite_script is None,
        o.data.kind == kind,
        o.data.value == 0,
{
    let lifetime = default_lifetime(kind);
    new(kind, lifetime as i16, 0)
}

/// Binds the sprite banks of the floater's kind. The banks live with the
/// drawing side, which binds them itself, so the overlay is left as it is.
pub fn load_sprites(o: &mut Overlay)
    ensures
        final(o).lifetime == old(o).lifetime,
        final(o).frame == old(o).frame,
        final(o).finished == old(o).finished,
        final(o).data.sprite_script == old(o).data.sprite_script,
        final(o).data.kind == old(o).data.kind,
        final(o).data.value == old(o).data.value,
{
}

/// The frame counter after one more frame (16-bit, wrapping).
pub open spec fn next_frame(frame: i16) -> i16 {
    if frame == i16::MAX {
        i16::MIN
    } else {
        (frame + 1) as i16
    }
}

/// Whether a floater at `frame` (after the increment) has run out.
pub open spec fn runs_out(frame: i16, lifetime: i16) -> bool {
    !(frame < lifetime || lifetime == -1)
}

/// One painted frame: `(frame, finished)` afterwards.
pub open spec fn step(frame: i16, lifetime: i16, finished: bool) -> (i16, bool) {
    let f = next_frame(frame);
    (f, finished || runs_out(f, lifetime))
}

/// `n` painted frames.
pub open spec fn steps(frame: i16, lifetime: i16, finished: bool, n: nat) -> (i16, bool)
    decreases n,
{
    if n == 0 {
        (frame, finished)
    } else {
        let s = step(frame, lifetime, finished);
        steps(s.0, lifetime, s.1, (n - 1) as nat)
    }
}

/// The end of a paint: count the frame and finish once the lifetime is reached.
pub fn advance_frame(o: &mut Overlay)
    ensures
        (final(o).frame, final(o).finished) == step(old(o).frame, old(o).lifetime, old(o).finished),
        final(o).lifetime == old(o).lifetime,
        final(o).data == old(o).data,
{
    let f: i16 = if o.frame == i16::MAX {
        i16::MIN
    } else {
        o.frame + 1
    };
    o.frame = f;
    if f < o.lifetime || o.lifetime == -1 {
        return;
    }
    o.finished = true;
}

/// Where a floater drawn from its own frame images is anchored (bottom centre)
/// for a paint at `(x, y)` (32-bit wrapping), or `None` for the kinds that
/// draw nothing of their own frames (2, 3, 4, 7, 9 and 10).
pub open spec fn spec_frame_anchor(kind: i8, frame: i16, x: i32, y: i32) -> Option<(i32, i32)> {
    if kind == 2 || kind == 3 || kind == 4 || kind == 7 || kind == 9 || kind == 10 {
        None
    } else {
        let (px, py) = if kind == 1 {
            if frame == 0 {
                (wsub(x, 3), wsub(y, 10))
            } else if frame == 1 {
                (x, wsub(y, 8))
            } else {
                (x, y)
            }
        } else if kind == 5 {
            if frame == 2 { (x, wsub(y, 5)) } else { (x, y) }
        } else if kind == 6 {
            if frame == 1 {
                (x, wsub(y, 2))
            } else if frame == 2 {
                (x, wsub(y, 6))
            } else {
                (x, y)
            }
        } else {
            (x, y)
        };
        Some((px, wadd(py, 3)))
    }
}

/// The anchor of the frame image a paint at `(x, y)` draws (see
/// [`spec_frame_anchor`]).
pub fn frame_anchor(o: &Overlay, x: i32, y: i32) -> (r: Option<(i32, i32)>)
    ensures
        r == spec_frame_anchor(o.data.kind, o.frame, x, y),
{
    let kind = o.data.kind;
    let frame = o.frame;
    if kind == 2 || kind == 3 || kind == 4 || kind == 7 || kind == 9 || kind == 10 {
        return None;
    }
    let mut px = x;
    let mut py = y;
    if kind == 1 {
        if frame == 0 {
            py = py.wrapping_sub(10);
            px = px.wrapping_sub(3);
        } else if frame == 1 {
            py = py.wrapping_sub(8);
        }
    } else if kind == 5 {
        if frame == 2 {
            py = py.wrapping_sub(5);
        }
    } else if kind == 6 {
        if frame == 1 {
            py = py.wrapping_sub(2);
        } else if frame == 2 {
            py = py.wrapping_sub(6);
        }
    }
    Some((px, py.wrapping_add(3)))
}

/// `paint(graphics, x, y)`: the frame image to draw for the kinds drawn from
/// their own frame images (see [`spec_frame_anchor`]), then one frame counted
/// (see [`step`]).
pub fn paint(o: &mut Overlay, x: i32, y: i32) -> (ops: Vec<GlyphOp>)
    ensures
        ops@ == match spec_frame_anchor(old(o).data.kind, old(o).frame, x, y) {
            Some(p) => seq![GlyphOp::DrawFloaterFrame(old(o).frame as i32, p.0, p.1)],
            None => Seq::empty(),
        },
        (final(o).frame, final(o).finished) == step(old(o).frame, old(o).lifetime, old(o).finished),
        final(o).lifetime == old(o).lifetime,
        final(o).data == old(o).data,
{
    let mut ops: Vec<GlyphOp> = Vec::new();
    if let Some(p) = frame_anchor(o, x, y) {
        ops.push(GlyphOp::DrawFloaterFrame(o.frame as i32, p.0, p.1));
    }
    advance_frame(o);
    ops
}

/// A looping floater (lifetime -1) never finishes, however many frames it is
/// painted.
pub proof fn lemma_looping_never_finishes(frame: i16, n: nat)
    ensures
        !steps(frame, -1i16, false, n).1,
    decreases n,
{
    if n > 0 {
        lemma_looping_never_finishes(next_frame(frame), (n - 1) as nat);
    }
}

/// A fresh floater with a positive lifetime is still running after each of its
/// first `lifetime - 1` frames and has finished after exactly `lifetime` frames,
/// its counter then standing at `lifetime`.
pub proof fn lemma_finishes_at_lifetime(lifetime: i16, n: nat)
    requires
        lifetime > 0,
        n <= lifetime,
    ensures
        steps(0, lifetime, false, n) == (n as i16, n == lifetime),
    decreases n,
{
    if n > 0 {
        lemma_steps_split(0, lifetime, false, (n - 1) as nat);
        lemma_finishes_at_lifetime(lifetime, (n - 1) as nat);
    }
}

proof fn lemma_steps_split(frame: i16, lifetime: i16, finished: bool, n: nat)
    ensures
        steps(frame, lifetime, finished, n + 1) == ({
            let s = steps(frame, lifetime, finished, n);
            step(s.0, lifetime, s.1)
        }),
    decreases n,
{
    let s = step(frame, lifetime, finished);
    assert(steps(frame, lifetime, finished, n + 1) == steps(s.0, lifetime, s.1, n));
    if n > 0 {
        lemma_steps_split(s.0, lifetime, s.1, (n - 1) as nat);
        assert(steps(frame, lifetime, finished, n) == steps(s.0, lifetime, s.1, (n - 1) as nat));
    }
}

} // verus!
