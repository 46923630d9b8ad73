//! The on-map object base: pixel position, derived tile, collision half-size,
//! draw layer and the list links used by the depth-sorted entity list. Objects
//! live in one arena and refer to each other by index.

use vstd::prelude::*;
use crate::byte_util::{JavaRandom, lcg_scramble};
use crate::jvm::{ishr, spec_ishr};

verus! {

/// A reference to an entity: its index in the [`EntityArena`].
pub type EntityId = usize;

/// Which concrete kind of object a node is.
#[derive(Clone, Copy, PartialEq, Eq, Structural, Debug)]
pub enum EntityKind {
    /// The abstract base with no concrete kind.
    Bare,
    /// A placed prop.
    MapObject,
    /// The player character.
    Hero,
    /// A town or quest actor.
    Npc,
    /// A transient visual effect.
    Effect,
    /// A moving ranged-attack effect.
    Projectile,
}

/// The base record every on-map object shares.
#[derive(Clone, Copy, Debug)]
pub struct EntityNode {
    /// Tile column (`pixel_x >> 4`).
    pub tile_x: i8,
    /// Tile row (`pixel_y >> 4`).
    pub tile_y: i8,
    /// Mid-tile horizontally (low four pixel bits set).
    pub off_grid_x: bool,
    /// Mid-tile vertically.
    pub off_grid_y: bool,
    /// Pixel X of the reference point.
    pub pixel_x: i16,
    /// Pixel Y of the reference point (with `half_h`, the depth).
    pub pixel_y: i16,
    /// Collision half-width in pixels.
    pub half_w: i8,
    /// Collision half-height in pixels.
    pub half_h: i8,
    /// The next node of the owning list.
    pub next: Option<EntityId>,
    /// The previous node of the owning list.
    pub prev: Option<EntityId>,
    /// Draw/sort layer (footprint width in tiles), 1 by default.
    pub layer: i8,
    /// Set once the node has been moved toward the tail of its list.
    pub removed: bool,
    /// The concrete kind of object.
    pub kind: EntityKind,
}

impl EntityNode {
    /// A node at the field defaults: everything zero/false/unlinked, `layer == 1`,
    /// no concrete kind.
    pub fn new() -> (n: Self)
        ensures
            n.tile_x == 0 && n.tile_y == 0 && !n.off_grid_x && !n.off_grid_y,
            n.pixel_x == 0 && n.pixel_y == 0 && n.half_w == 0 && n.half_h == 0,
            n.next is None && n.prev is None,
            n.layer == 1 && !n.removed && n.kind == EntityKind::Bare,
    {
        EntityNode {
            tile_x: 0,
            tile_y: 0,
            off_grid_x: false,
            off_grid_y: false,
            pixel_x: 0,
            pixel_y: 0,
            half_w: 0,
            half_h: 0,
            next: None,
            prev: None,
            layer: 1,
            removed: false,
            kind: EntityKind::Bare,
        }
    }

    /// The node's concrete kind.
    pub fn kind(&self) -> (k: EntityKind)
        ensures
            k == self.kind,
    {
        self.kind
    }
}

impl Default for EntityNode {
    fn default() -> (n: Self)
        ensures
            n.tile_x == 0 && n.tile_y == 0 && !n.off_grid_x && !n.off_grid_y,
            n.pixel_x == 0 && n.pixel_y == 0 && n.half_w == 0 && n.half_h == 0,
            n.next is None && n.prev is None,
            n.layer == 1 && !n.removed && n.kind == EntityKind::Bare,
    {
        EntityNode::new()
    }
}

/// The arena of all entities, addressed by [`EntityId`].
pub struct EntityArena {
    nodes: Vec<EntityNode>,
}

impl View for EntityArena {
    type V = Seq<EntityNode>;

    closed spec fn view(&self) -> Seq<EntityNode> {
        self.nodes@
    }
}

impl EntityArena {
    /// A fresh, empty arena.
    pub fn new() -> (a: Self)
        ensures
            a@ == Seq::<EntityNode>::empty(),
    {
        EntityArena { nodes: Vec::new() }
    }

    /// The number of nodes allocated.
    pub fn len(&self) -> (n: usize)
        ensures
            n == self@.len(),
    {
        self.nodes.len()
    }

    /// Allocates `node` and returns its id (the next free index).
    pub fn alloc_node(&mut self, node: EntityNode) -> (id: EntityId)
        ensures
            id == old(self)@.len(),
            final(self)@ == old(self)@.push(node),
    {
        let id = self.nodes.len();
        self.nodes.push(node);
        id
    }

    /// Allocates a bare node with the given depth terms and returns its id.
    pub fn spawn(&mut self, half_h: i8, pixel_y: i16) -> (id: EntityId)
        ensures
            id == old(self)@.len(),
            final(self)@.len() == old(self)@.len() + 1,
            final(self)@.take(id as int) == old(self)@,
            final(self)@[id as int].half_h == half_h,
            final(self)@[id as int].pixel_y == pixel_y,
            final(self)@[id as int].next is None,
            final(self)@[id as int].prev is None,
            final(self)@[id as int].kind == EntityKind::Bare,
            !final(self)@[id as int].removed,
    {
        let mut n = EntityNode::new();
        n.half_h = half_h;
        n.pixel_y = pixel_y;
        let id = self.alloc_node(n);
        assert(self@.take(id as int) =~= old(self)@);
        id
    }

    /// Read access to a node.
    pub fn node(&self, id: EntityId) -> (n: &EntityNode)
        requires
            id < self@.len(),
        ensures
            *n == self@[id as int],
    {
        &self.nodes[id]
    }

    /// Replaces a node.
    pub fn set_node(&mut self, id: EntityId, node: EntityNode)
        requires
            id < old(self)@.len(),
        ensures
            final(self)@ == old(self)@.update(id as int, node),
    {
        self.nodes.set(id, node);
    }
}

impl Default for EntityArena {
    fn default() -> (a: Self)
        ensures
            a@ == Seq::<EntityNode>::empty(),
    {
        EntityArena::new()
    }
}

/// The entity class state: the shared generator used by combat rolls.
pub struct EntityState {
    /// The generator, seeded with 0 for reproducible runs.
    pub rng: JavaRandom,
}

impl EntityState {
    /// The class-load state.
    pub fn new() -> (s: Self)
        ensures
            s.rng@ == lcg_scramble(0),
    {
        EntityState { rng: JavaRandom::new(0) }
    }
}

impl Default for EntityState {
    fn default() -> (s: Self)
        ensures
            s.rng@ == lcg_scramble(0),
    {
        EntityState::new()
    }
}

/// `set_pixel_pos(pixel_x, pixel_y)`: moves the entity (the tile is not re-derived).
pub fn set_pixel_pos(node: &mut EntityNode, pixel_x: i16, pixel_y: i16)
    ensures
        *final(node) == (EntityNode { pixel_x, pixel_y, ..*old(node) }),
{
    node.pixel_x = pixel_x;
    node.pixel_y = pixel_y;
}

/// `sync_tile()`: re-derives the tile (`pixel >> 4`, kept to a byte) and the
/// off-grid flags (low four pixel bits) from the pixel position.
pub fn sync_tile(node: &mut EntityNode)
    ensures
        *final(node) == (EntityNode {
            tile_x: spec_ishr(old(node).pixel_x as i32, 4) as i8,
            tile_y: spec_ishr(old(node).pixel_y as i32, 4) as i8,
            off_grid_x: (old(node).pixel_x as i32 & 15) != 0,
            off_grid_y: (old(node).pixel_y as i32 & 15) != 0,
            ..*old(node)
        }),
{
    node.tile_y = ishr(node.pixel_y as i32, 4) as i8;
    node.tile_x = ishr(node.pixel_x as i32, 4) as i8;
    node.off_grid_y = (node.pixel_y as i32 & 15) != 0;
    node.off_grid_x = (node.pixel_x as i32 & 15) != 0;
}

/// The base constructor: place at the pixel position, derive the tile, and set
/// the collision half-size.
pub fn init_base(node: &mut EntityNode, pixel_x: i16, pixel_y: i16, half_w: i8, half_h: i8)
    ensures
        *final(node) == (EntityNode {
            pixel_x,
            pixel_y,
            tile_x: spec_ishr(pixel_x as i32, 4) as i8,
            tile_y: spec_ishr(pixel_y as i32, 4) as i8,
            off_grid_x: (pixel_x as i32 & 15) != 0,
            off_grid_y: (pixel_y as i32 & 15) != 0,
            half_w,
            half_h,
            ..*old(node)
        }),
{
    set_pixel_pos(node, pixel_x, pixel_y);
    sync_tile(node);
    node.half_w = half_w;
    node.half_h = half_h;
}

} // verus!
