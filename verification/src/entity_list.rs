//! Intrusive doubly-linked list of entities kept sorted by draw depth. Nodes
//! carry their own `next`/`prev` links in the [`EntityArena`]; the list holds the
//! `head`/`tail` endpoints and a `count`. Depth is an entity's foot line
//! `half_h + pixel_y`; [`reorder_by_depth`] slides one moved node back into
//! sorted position.
//!
//! The `count` is the number of insertions minus removals as the engine keeps
//! it: a reorder that slides a node to either end re-inserts it without having
//! counted it out, so `count` then grows by one while the nodes stay the same.

use vstd::prelude::*;
use crate::entity::{EntityArena, EntityId, EntityNode};

verus! {

/// The node after position `i` of `ids`, if any.
pub open spec fn next_of(ids: Seq<EntityId>, i: int) -> Option<EntityId> {
    if i + 1 < ids.len() {
        Some(ids[i + 1])
    } else {
        None
    }
}

/// The node before position `i` of `ids`, if any.
pub open spec fn prev_of(ids: Seq<EntityId>, i: int) -> Option<EntityId> {
    if i > 0 {
        Some(ids[i - 1])
    } else {
        None
    }
}

/// `head`, `tail` and the nodes' links spell out exactly the sequence `ids` of
/// distinct, allocated nodes.
pub open spec fn list_wf(
    head: Option<EntityId>,
    tail: Option<EntityId>,
    nodes: Seq<EntityNode>,
    ids: Seq<EntityId>,
) -> bool {
    &&& ids.no_duplicates()
    &&& forall|i: int| 0 <= i < ids.len() ==> #[trigger] ids[i] < nodes.len()
    &&& head == if ids.len() == 0 {
        None::<EntityId>
    } else {
        Some(ids[0])
    }
    &&& tail == if ids.len() == 0 {
        None::<EntityId>
    } else {
        Some(ids.last())
    }
    &&& forall|i: int|
        0 <= i < ids.len() ==> nodes[#[trigger] ids[i] as int].next == next_of(ids, i)
    &&& forall|i: int|
        0 <= i < ids.len() ==> nodes[#[trigger] ids[i] as int].prev == prev_of(ids, i)
}

/// A list stays well formed when a node is allocated behind the arena, and
/// the new node is not on it.
pub(crate) proof fn lemma_wf_push(s: EntityListState, nodes: Seq<EntityNode>, n: EntityNode, new_id: EntityId)
    requires
        s.wf(nodes),
        new_id == nodes.len(),
    ensures
        s.wf(nodes.push(n)),
        !s.ids().contains(new_id),
{
    let ids = s.ids();
    let big = nodes.push(n);
    assert forall|i: int| 0 <= i < ids.len() implies big[#[trigger] ids[i] as int] == nodes[ids[i] as int] by {}
    if ids.contains(new_id) {
        let i = choose|i: int| 0 <= i < ids.len() && ids[i] == new_id;
        assert(ids[i] < nodes.len());
    }
}

/// `new` differs from `old` at most in the list links of its nodes.
pub open spec fn links_only_changed(old: Seq<EntityNode>, new: Seq<EntityNode>) -> bool {
    &&& new.len() == old.len()
    &&& forall|k: int|
        0 <= k < new.len() ==> #[trigger] new[k] == (EntityNode {
            next: new[k].next,
            prev: new[k].prev,
            ..old[k]
        })
}

/// Nodes that are neither on the list `ids` nor `extra` are untouched.
pub open spec fn others_unchanged(
    old: Seq<EntityNode>,
    new: Seq<EntityNode>,
    ids: Seq<EntityId>,
    extra: EntityId,
) -> bool {
    forall|k: int|
        0 <= k < new.len() && !ids.contains(k as EntityId) && k != extra ==> #[trigger] new[k]
            == old[k]
}

/// The depth-sorted entity list.
pub struct EntityListState {
    /// First node (lowest depth), or `None` when empty.
    pub head: Option<EntityId>,
    /// Last node (highest depth), or `None` when empty.
    pub tail: Option<EntityId>,
    /// The insertion count (see the module notes).
    pub count: i32,
    /// The nodes on the list, head to tail.
    pub order: Ghost<Seq<EntityId>>,
}

impl EntityListState {
    /// The nodes on the list, head to tail.
    pub open spec fn ids(&self) -> Seq<EntityId> {
        self.order@
    }

    /// The list is well formed over the arena contents `nodes`.
    pub open spec fn wf(&self, nodes: Seq<EntityNode>) -> bool {
        list_wf(self.head, self.tail, nodes, self.order@)
    }

    /// An empty list.
    pub fn new() -> (s: Self)
        ensures
            s.head is None,
            s.tail is None,
            s.count == 0,
            s.ids() == Seq::<EntityId>::empty(),
            forall|nodes: Seq<EntityNode>| s.wf(nodes),
    {
        EntityListState { head: None, tail: None, count: 0, order: Ghost(Seq::empty()) }
    }
}

impl Default for EntityListState {
    fn default() -> (s: Self)
        ensures
            s.head is None,
            s.tail is None,
            s.count == 0,
            s.ids() == Seq::<EntityId>::empty(),
    {
        EntityListState::new()
    }
}

fn set_links(arena: &mut EntityArena, id: EntityId, next: Option<EntityId>, prev: Option<EntityId>)
    requires
        id < old(arena)@.len(),
    ensures
        final(arena)@ == old(arena)@.update(
            id as int,
            EntityNode { next, prev, ..old(arena)@[id as int] },
        ),
{
    let mut n: EntityNode = *arena.node(id);
    n.next = next;
    n.prev = prev;
    arena.set_node(id, n);
}

fn set_next(arena: &mut EntityArena, id: EntityId, next: Option<EntityId>)
    requires
        id < old(arena)@.len(),
    ensures
        final(arena)@ == old(arena)@.update(
            id as int,
            EntityNode { next, ..old(arena)@[id as int] },
        ),
{
    let mut n: EntityNode = *arena.node(id);
    n.next = next;
    arena.set_node(id, n);
}

fn set_prev(arena: &mut EntityArena, id: EntityId, prev: Option<EntityId>)
    requires
        id < old(arena)@.len(),
    ensures
        final(arena)@ == old(arena)@.update(
            id as int,
            EntityNode { prev, ..old(arena)@[id as int] },
        ),
{
    let mut n: EntityNode = *arena.node(id);
    n.prev = prev;
    arena.set_node(id, n);
}

/// `add_front(node)`: links `node` at the head of the list.
pub fn add_front(s: &mut EntityListState, arena: &mut EntityArena, node: EntityId)
    requires
        old(s).wf(old(arena)@),
        node < old(arena)@.len(),
        !old(s).ids().contains(node),
    ensures
        final(s).wf(final(arena)@),
        final(s).ids() == seq![node] + old(s).ids(),
        final(s).count == old(s).count.wrapping_add(1),
        links_only_changed(old(arena)@, final(arena)@),
        others_unchanged(old(arena)@, final(arena)@, old(s).ids(), node),
{
    let ghost ids = s.ids();
    let ghost nids = seq![node] + ids;
    set_links(arena, node, s.head, None);
    match s.head {
        Some(head) => {
            set_prev(arena, head, Some(node));
        },
        None => {},
    }
    s.head = Some(node);
    if s.tail.is_none() {
        s.tail = s.head;
    }
    s.count = s.count.wrapping_add(1);
    s.order = Ghost(nids);
    proof {
        assert forall|i: int| 0 <= i < nids.len() implies #[trigger] nids[i] < arena@.len() by {
            if i > 0 {
                assert(nids[i] == ids[i - 1]);
            }
        }
        assert forall|i: int| 0 <= i < nids.len() implies arena@[#[trigger] nids[i] as int].next
            == next_of(nids, i) && arena@[nids[i] as int].prev == prev_of(nids, i) by {
            if i > 0 {
                assert(nids[i] == ids[i - 1]);
                assert(nids[i] != node);
            }
        }
        assert(nids.no_duplicates()) by {
            assert forall|a: int, b: int| 0 <= a < b < nids.len() implies nids[a] != nids[b] by {
                if a > 0 {
                    assert(nids[a] == ids[a - 1]);
                }
                assert(nids[b] == ids[b - 1]);
            }
        }
        if ids.len() > 0 {
            assert(nids.last() == ids.last());
        }
    }
}

/// `add_back(node)`: links `node` at the tail of the list.
pub fn add_back(s: &mut EntityListState, arena: &mut EntityArena, node: EntityId)
    requires
        old(s).wf(old(arena)@),
        node < old(arena)@.len(),
        !old(s).ids().contains(node),
    ensures
        final(s).wf(final(arena)@),
        final(s).ids() == old(s).ids().push(node),
        final(s).count == old(s).count.wrapping_add(1),
        links_only_changed(old(arena)@, final(arena)@),
        others_unchanged(old(arena)@, final(arena)@, old(s).ids(), node),
{
    let ghost ids = s.ids();
    let ghost nids = ids.push(node);
    set_links(arena, node, None, s.tail);
    match s.tail {
        Some(tail) => {
            set_next(arena, tail, Some(node));
        },
        None => {},
    }
    s.tail = Some(node);
    if s.head.is_none() {
        s.head = s.tail;
    }
    s.count = s.count.wrapping_add(1);
    s.order = Ghost(nids);
    proof {
        assert forall|i: int| 0 <= i < nids.len() implies #[trigger] nids[i] < arena@.len() by {
            if i < ids.len() {
                assert(nids[i] == ids[i]);
            }
        }
        assert forall|i: int| 0 <= i < nids.len() implies arena@[#[trigger] nids[i] as int].next
            == next_of(nids, i) && arena@[nids[i] as int].prev == prev_of(nids, i) by {
            if i < ids.len() {
                assert(nids[i] == ids[i]);
                assert(nids[i] != node);
            }
        }
        assert(nids.no_duplicates()) by {
            assert forall|a: int, b: int| 0 <= a < b < nids.len() implies nids[a] != nids[b] by {
                assert(nids[a] == ids[a]);
                if b < ids.len() {
                    assert(nids[b] == ids[b]);
                }
            }
        }
        if ids.len() > 0 {
            assert(nids[0] == ids[0]);
        }
    }
}

/// The position of `x` on the list `ids` (meaningful when `x` is on it).
pub open spec fn pos_in(ids: Seq<EntityId>, x: EntityId) -> int {
    choose|p: int| 0 <= p < ids.len() && #[trigger] ids[p] == x
}

proof fn lemma_pos_in(ids: Seq<EntityId>, p: int)
    requires
        ids.no_duplicates(),
        0 <= p < ids.len(),
    ensures
        pos_in(ids, ids[p]) == p,
{
    let q = pos_in(ids, ids[p]);
    assert(0 <= q < ids.len() && ids[q] == ids[p]);
}

/// The arena after unlinking the node at position `p` of `ids`.
pub open spec fn unlink_nodes(nodes: Seq<EntityNode>, ids: Seq<EntityId>, p: int) -> Seq<EntityNode> {
    let n = nodes[ids[p] as int];
    let a = if p > 0 {
        nodes.update(ids[p - 1] as int, EntityNode { next: n.next, ..nodes[ids[p - 1] as int] })
    } else {
        nodes
    };
    if p + 1 < ids.len() {
        a.update(ids[p + 1] as int, EntityNode { prev: n.prev, ..a[ids[p + 1] as int] })
    } else {
        a
    }
}

proof fn lemma_remove_no_dups(ids: Seq<EntityId>, p: int)
    requires
        ids.no_duplicates(),
        0 <= p < ids.len(),
    ensures
        ids.remove(p).no_duplicates(),
        forall|i: int| 0 <= i < ids.remove(p).len() ==> #[trigger] ids.remove(p)[i] == if i < p {
            ids[i]
        } else {
            ids[i + 1]
        },
        forall|x: EntityId| ids.remove(p).contains(x) ==> ids.contains(x) && x != ids[p],
{
    let nids = ids.remove(p);
    assert forall|i: int| 0 <= i < nids.len() implies #[trigger] nids[i] == if i < p {
        ids[i]
    } else {
        ids[i + 1]
    } by {}
    assert forall|a: int, c: int| 0 <= a < c < nids.len() implies nids[a] != nids[c] by {
        let a2 = if a < p { a } else { a + 1 };
        let c2 = if c < p { c } else { c + 1 };
        assert(nids[a] == ids[a2]);
        assert(nids[c] == ids[c2]);
    }
    assert forall|x: EntityId| nids.contains(x) implies ids.contains(x) && x != ids[p] by {
        let i = choose|i: int| 0 <= i < nids.len() && nids[i] == x;
        let i2 = if i < p { i } else { i + 1 };
        assert(ids[i2] == x);
    }
}

#[verifier::rlimit(60)]
proof fn lemma_unlink(
    head: Option<EntityId>,
    tail: Option<EntityId>,
    nodes: Seq<EntityNode>,
    ids: Seq<EntityId>,
    p: int,
)
    requires
        list_wf(head, tail, nodes, ids),
        0 <= p < ids.len(),
    ensures
        ({
            let nids = ids.remove(p);
            let nn = unlink_nodes(nodes, ids, p);
            let n = nodes[ids[p] as int];
            let h = if n.prev is None { n.next } else { head };
            let t = if n.next is None { n.prev } else { tail };
            &&& list_wf(h, t, nn, nids)
            &&& links_only_changed(nodes, nn)
            &&& others_unchanged(nodes, nn, ids, ids[p])
            &&& nn[ids[p] as int] == nodes[ids[p] as int]
        }),
{
    let nids = ids.remove(p);
    let nn = unlink_nodes(nodes, ids, p);
    let node = ids[p];
    lemma_remove_no_dups(ids, p);
    if p > 0 {
        assert(ids[p - 1] != node);
    }
    if p + 1 < ids.len() {
        assert(ids[p + 1] != node);
        if p > 0 {
            assert(ids[p + 1] != ids[p - 1]);
        }
    }
    assert forall|i: int| 0 <= i < nids.len() implies nn[#[trigger] nids[i] as int].next
        == next_of(nids, i) && nn[nids[i] as int].prev == prev_of(nids, i) by {
        let i2 = if i < p { i } else { i + 1 };
        assert(nids[i] == ids[i2]);
        if p > 0 && i2 != p - 1 {
            assert(ids[i2] != ids[p - 1]);
        }
        if p + 1 < ids.len() && i2 != p + 1 {
            assert(ids[i2] != ids[p + 1]);
        }
    }
    assert forall|i: int| 0 <= i < nids.len() implies #[trigger] nids[i] < nn.len() by {
        let i2 = if i < p { i } else { i + 1 };
        assert(nids[i] == ids[i2]);
    }
    assert forall|k: int| 0 <= k < nn.len() implies #[trigger] nn[k] == (EntityNode {
        next: nn[k].next,
        prev: nn[k].prev,
        ..nodes[k]
    }) by {}
    assert forall|k: int|
        0 <= k < nn.len() && !ids.contains(k as EntityId) && k != node implies #[trigger] nn[k]
        == nodes[k] by {
        if p > 0 {
            assert(ids[p - 1] != k);
        }
        if p + 1 < ids.len() {
            assert(ids[p + 1] != k);
        }
    }
    if nids.len() > 0 {
        if p == 0 {
            assert(nids[0] == ids[1]);
        } else {
            assert(nids[0] == ids[0]);
        }
        if p == ids.len() - 1 {
            assert(nids.last() == ids[p - 1]);
        } else {
            assert(nids.last() == ids.last());
        }
    }
}

/// Unlinks `node`, at position `p`, without touching `count`; its own links are
/// left as they were.
fn unlink(s: &mut EntityListState, arena: &mut EntityArena, node: EntityId, Ghost(p): Ghost<int>)
    requires
        old(s).wf(old(arena)@),
        0 <= p < old(s).ids().len(),
        old(s).ids()[p] == node,
    ensures
        final(s).wf(final(arena)@),
        final(s).ids() == old(s).ids().remove(p),
        final(s).count == old(s).count,
        links_only_changed(old(arena)@, final(arena)@),
        others_unchanged(old(arena)@, final(arena)@, old(s).ids(), node),
        final(arena)@[node as int] == old(arena)@[node as int],
{
    let ghost ids = s.ids();
    let ghost old_nodes = arena@;
    proof {
        lemma_unlink(s.head, s.tail, arena@, ids, p);
    }
    let n: EntityNode = *arena.node(node);
    match n.prev {
        Some(prev) => {
            set_next(arena, prev, n.next);
        },
        None => {
            s.head = n.next;
        },
    }
    match n.next {
        Some(next) => {
            set_prev(arena, next, n.prev);
        },
        None => {
            s.tail = n.prev;
        },
    }
    assert(arena@ =~= unlink_nodes(old_nodes, ids, p));
    s.order = Ghost(ids.remove(p));
}

/// `remove(target)`: unlinks `target` and returns it, or `None` when it is not on
/// the list.
pub fn remove(s: &mut EntityListState, arena: &mut EntityArena, target: EntityId) -> (r: Option<
    EntityId,
>)
    requires
        old(s).wf(old(arena)@),
    ensures
        final(s).wf(final(arena)@),
        old(s).ids().contains(target) ==> {
            &&& r == Some(target)
            &&& final(s).ids() == old(s).ids().remove(pos_in(old(s).ids(), target))
            &&& final(s).count == old(s).count.wrapping_sub(1)
            &&& links_only_changed(old(arena)@, final(arena)@)
            &&& others_unchanged(old(arena)@, final(arena)@, old(s).ids(), target)
            &&& final(arena)@[target as int] == old(arena)@[target as int]
        },
        !old(s).ids().contains(target) ==> r is None && *final(s) == *old(s) && final(arena)@
            == old(arena)@,
{
    let ghost ids = s.ids();
    let mut cursor: Option<EntityId> = s.head;
    let ghost mut k: int = 0;
    loop
        invariant_except_break
            s.wf(arena@),
            ids == s.ids(),
            0 <= k <= ids.len(),
            cursor == if k < ids.len() {
                Some(ids[k])
            } else {
                None::<EntityId>
            },
            forall|j: int| 0 <= j < k ==> ids[j] != target,
        ensures
            s.wf(arena@),
            ids == s.ids(),
            0 <= k <= ids.len(),
            k < ids.len() ==> ids[k] == target && cursor == Some(target),
            k == ids.len() ==> cursor is None,
            k == ids.len() ==> forall|j: int| 0 <= j < ids.len() ==> ids[j] != target,
        decreases ids.len() - k,
    {
        match cursor {
            None => {
                break;
            },
            Some(id) => {
                if id == target {
                    break;
                }
                cursor = arena.node(id).next;
                proof {
                    k = k + 1;
                }
            },
        }
    }
    match cursor {
        None => {
            assert(!ids.contains(target));
            None
        },
        Some(node) => {
            proof {
                lemma_pos_in(ids, k);
            }
            unlink(s, arena, node, Ghost(k));
            s.count = s.count.wrapping_sub(1);
            Some(node)
        },
    }
}

/// The arena after linking `node` between positions `q` and `q + 1` of `ids`.
pub open spec fn link_nodes(nodes: Seq<EntityNode>, ids: Seq<EntityId>, q: int, node: EntityId) -> Seq<
    EntityNode,
> {
    let b = ids[q] as int;
    let c = ids[q + 1] as int;
    let a1 = nodes.update(c, EntityNode { prev: Some(node), ..nodes[c] });
    let a2 = a1.update(
        node as int,
        EntityNode { next: Some(ids[q + 1]), prev: Some(ids[q]), ..a1[node as int] },
    );
    a2.update(b, EntityNode { next: Some(node), ..a2[b] })
}

proof fn lemma_insert_no_dups(ids: Seq<EntityId>, q: int, node: EntityId)
    requires
        ids.no_duplicates(),
        0 <= q <= ids.len(),
        !ids.contains(node),
    ensures
        ids.insert(q, node).no_duplicates(),
        forall|i: int| 0 <= i < ids.insert(q, node).len() ==> #[trigger] ids.insert(q, node)[i] == if i < q {
            ids[i]
        } else if i == q {
            node
        } else {
            ids[i - 1]
        },
{
    let nids = ids.insert(q, node);
    assert forall|i: int| 0 <= i < nids.len() implies #[trigger] nids[i] == if i < q {
        ids[i]
    } else if i == q {
        node
    } else {
        ids[i - 1]
    } by {}
    assert forall|a: int, c: int| 0 <= a < c < nids.len() implies nids[a] != nids[c] by {
        if a != q && c != q {
            let a2 = if a < q { a } else { a - 1 };
            let c2 = if c < q { c } else { c - 1 };
            assert(nids[a] == ids[a2]);
            assert(nids[c] == ids[c2]);
        } else if a == q {
            assert(nids[c] == ids[c - 1]);
        } else {
            assert(nids[a] == ids[a]);
        }
    }
}

#[verifier::rlimit(60)]
proof fn lemma_link(
    head: Option<EntityId>,
    tail: Option<EntityId>,
    nodes: Seq<EntityNode>,
    ids: Seq<EntityId>,
    q: int,
    node: EntityId,
)
    requires
        list_wf(head, tail, nodes, ids),
        node < nodes.len(),
        !ids.contains(node),
        0 <= q,
        q + 1 < ids.len(),
    ensures
        ({
            let nids = ids.insert(q + 1, node);
            let nn = link_nodes(nodes, ids, q, node);
            &&& list_wf(head, tail, nn, nids)
            &&& links_only_changed(nodes, nn)
            &&& others_unchanged(nodes, nn, ids, node)
        }),
{
    let nids = ids.insert(q + 1, node);
    let nn = link_nodes(nodes, ids, q, node);
    lemma_insert_no_dups(ids, q + 1, node);
    assert(ids[q] != node);
    assert(ids[q + 1] != node);
    assert(ids[q] != ids[q + 1]);
    assert forall|i: int| 0 <= i < nids.len() implies nn[#[trigger] nids[i] as int].next
        == next_of(nids, i) && nn[nids[i] as int].prev == prev_of(nids, i) by {
        if i <= q {
            assert(nids[i] == ids[i]);
            if i < q {
                assert(ids[i] != ids[q]);
                assert(ids[i] != ids[q + 1]);
            }
        } else if i > q + 1 {
            assert(nids[i] == ids[i - 1]);
            assert(ids[i - 1] != ids[q]);
            if i > q + 2 {
                assert(ids[i - 1] != ids[q + 1]);
            }
        }
    }
    assert forall|i: int| 0 <= i < nids.len() implies #[trigger] nids[i] < nn.len() by {
        if i <= q {
            assert(nids[i] == ids[i]);
        } else if i > q + 1 {
            assert(nids[i] == ids[i - 1]);
        }
    }
    assert forall|k: int| 0 <= k < nn.len() implies #[trigger] nn[k] == (EntityNode {
        next: nn[k].next,
        prev: nn[k].prev,
        ..nodes[k]
    }) by {}
    assert forall|k: int|
        0 <= k < nn.len() && !ids.contains(k as EntityId) && k != node implies #[trigger] nn[k]
        == nodes[k] by {
        assert(ids[q] != k);
        assert(ids[q + 1] != k);
    }
    assert(nids[0] == ids[0]);
    assert(nids.last() == ids.last());
}

/// Links `node` right after `b`, the node at position `q` that has a successor.
fn link_after(
    s: &mut EntityListState,
    arena: &mut EntityArena,
    node: EntityId,
    b: EntityId,
    Ghost(q): Ghost<int>,
)
    requires
        old(s).wf(old(arena)@),
        node < old(arena)@.len(),
        !old(s).ids().contains(node),
        0 <= q,
        q + 1 < old(s).ids().len(),
        old(s).ids()[q] == b,
    ensures
        final(s).wf(final(arena)@),
        final(s).ids() == old(s).ids().insert(q + 1, node),
        final(s).count == old(s).count,
        links_only_changed(old(arena)@, final(arena)@),
        others_unchanged(old(arena)@, final(arena)@, old(s).ids(), node),
{
    let ghost ids = s.ids();
    let ghost old_nodes = arena@;
    proof {
        lemma_link(s.head, s.tail, arena@, ids, q, node);
    }
    let b_next: EntityId = match arena.node(b).next {
        Some(x) => x,
        None => b,
    };
    set_prev(arena, b_next, Some(node));
    set_links(arena, node, Some(b_next), Some(b));
    set_next(arena, b, Some(node));
    assert(arena@ =~= link_nodes(old_nodes, ids, q, node));
    s.order = Ghost(ids.insert(q + 1, node));
}

/// The draw depth of node `id`: its foot line `half_h + pixel_y`.
pub open spec fn depth_of(nodes: Seq<EntityNode>, id: EntityId) -> int {
    nodes[id as int].half_h as int + nodes[id as int].pixel_y as int
}

/// Scanning toward the head from position `q`: the first position whose depth is
/// at most `d`, or -1.
pub open spec fn scan_back(ids: Seq<EntityId>, nodes: Seq<EntityNode>, d: int, q: int) -> int
    decreases q + 1,
{
    if q < 0 {
        -1
    } else if depth_of(nodes, ids[q]) <= d {
        q
    } else {
        scan_back(ids, nodes, d, q - 1)
    }
}

/// Scanning toward the tail from position `q`: the first position whose depth is
/// at least `d`, or the length of the list.
pub open spec fn scan_fwd(ids: Seq<EntityId>, nodes: Seq<EntityNode>, d: int, q: int) -> int
    decreases ids.len() - q,
{
    if q >= ids.len() {
        ids.len() as int
    } else if d <= depth_of(nodes, ids[q]) {
        q
    } else {
        scan_fwd(ids, nodes, d, q + 1)
    }
}

/// `node` now sits in front of its predecessor and moves toward the head.
pub open spec fn moves_front(ids: Seq<EntityId>, nodes: Seq<EntityNode>, node: EntityId) -> bool {
    let p = pos_in(ids, node);
    p > 0 && depth_of(nodes, node) < depth_of(nodes, ids[p - 1])
}

/// `node` now sits behind its successor and moves toward the tail.
pub open spec fn moves_back(ids: Seq<EntityId>, nodes: Seq<EntityNode>, node: EntityId) -> bool {
    let p = pos_in(ids, node);
    !moves_front(ids, nodes, node) && p + 1 < ids.len() && depth_of(nodes, node) > depth_of(
        nodes,
        ids[p + 1],
    )
}

/// The move ends at the head or the tail of the list.
pub open spec fn moves_to_end(ids: Seq<EntityId>, nodes: Seq<EntityNode>, node: EntityId) -> bool {
    let p = pos_in(ids, node);
    let d = depth_of(nodes, node);
    (moves_front(ids, nodes, node) && scan_back(ids, nodes, d, p - 2) < 0) || (moves_back(
        ids,
        nodes,
        node,
    ) && scan_fwd(ids, nodes, d, p + 2) >= ids.len())
}

/// The list order after re-sorting `node`: moved toward the head to just after
/// the nearest predecessor no deeper than it (or to the front), or toward the
/// tail to just before the nearest successor no shallower than it (or to the
/// back); otherwise unchanged.
pub open spec fn reorder_spec(ids: Seq<EntityId>, nodes: Seq<EntityNode>, node: EntityId) -> Seq<
    EntityId,
> {
    let p = pos_in(ids, node);
    let d = depth_of(nodes, node);
    let rest = ids.remove(p);
    if moves_front(ids, nodes, node) {
        let q = scan_back(ids, nodes, d, p - 2);
        if q < 0 {
            seq![node] + rest
        } else {
            rest.insert(q + 1, node)
        }
    } else if moves_back(ids, nodes, node) {
        let f = scan_fwd(ids, nodes, d, p + 2);
        if f >= ids.len() {
            rest.push(node)
        } else {
            rest.insert(f - 1, node)
        }
    } else {
        ids
    }
}

fn depth(arena: &EntityArena, id: EntityId) -> (r: i32)
    requires
        id < arena@.len(),
    ensures
        r == depth_of(arena@, id),
{
    let n = arena.node(id);
    n.half_h as i32 + n.pixel_y as i32
}

/// `new` differs from `old` only in list links, and in the `removed` flag of
/// `node`, which becomes `old.removed || mark`.
pub open spec fn relinked(old: Seq<EntityNode>, new: Seq<EntityNode>, node: EntityId, mark: bool) -> bool {
    &&& new.len() == old.len()
    &&& forall|k: int|
        0 <= k < new.len() ==> #[trigger] new[k] == (EntityNode {
            next: new[k].next,
            prev: new[k].prev,
            removed: if k == node {
                old[k].removed || mark
            } else {
                old[k].removed
            },
            ..old[k]
        })
}

proof fn lemma_relinked_trans(
    a: Seq<EntityNode>,
    b: Seq<EntityNode>,
    c: Seq<EntityNode>,
    node: EntityId,
    mark: bool,
)
    requires
        relinked(a, b, node, mark),
        links_only_changed(b, c),
    ensures
        relinked(a, c, node, mark),
{
    assert forall|k: int| 0 <= k < c.len() implies #[trigger] c[k] == (EntityNode {
        next: c[k].next,
        prev: c[k].prev,
        removed: if k == node {
            a[k].removed || mark
        } else {
            a[k].removed
        },
        ..a[k]
    }) by {
        assert(b[k] == (EntityNode {
            next: b[k].next,
            prev: b[k].prev,
            removed: if k == node {
                a[k].removed || mark
            } else {
                a[k].removed
            },
            ..a[k]
        }));
        assert(c[k] == (EntityNode { next: c[k].next, prev: c[k].prev, ..b[k] }));
    }
}

proof fn lemma_relinked_depths(a: Seq<EntityNode>, b: Seq<EntityNode>, node: EntityId, mark: bool)
    requires
        relinked(a, b, node, mark),
    ensures
        forall|k: EntityId| k < a.len() ==> #[trigger] depth_of(b, k) == depth_of(a, k),
{
    assert forall|k: EntityId| k < a.len() implies #[trigger] depth_of(b, k) == depth_of(a, k) by {
        assert(b[k as int].half_h == a[k as int].half_h);
        assert(b[k as int].pixel_y == a[k as int].pixel_y);
    }
}

proof fn lemma_links_only_relinked(a: Seq<EntityNode>, b: Seq<EntityNode>, node: EntityId)
    requires
        links_only_changed(a, b),
    ensures
        relinked(a, b, node, false),
{
    assert forall|k: int| 0 <= k < b.len() implies #[trigger] b[k] == (EntityNode {
        next: b[k].next,
        prev: b[k].prev,
        removed: if k == node {
            a[k].removed || false
        } else {
            a[k].removed
        },
        ..a[k]
    }) by {
        assert(b[k] == (EntityNode { next: b[k].next, prev: b[k].prev, ..a[k] }));
    }
}

/// `reorder_by_depth(node)`: re-sorts one node whose depth just changed, moving it
/// toward the head when it now sits in front of its predecessor, or toward the
/// tail (marking it `removed`) when it now sits behind its successor.
#[verifier::rlimit(100)]
pub fn reorder_by_depth(s: &mut EntityListState, arena: &mut EntityArena, node: EntityId)
    requires
        old(s).wf(old(arena)@),
        old(s).ids().contains(node),
    ensures
        final(s).wf(final(arena)@),
        final(s).ids() == reorder_spec(old(s).ids(), old(arena)@, node),
        final(s).count == if moves_to_end(old(s).ids(), old(arena)@, node) {
            old(s).count.wrapping_add(1)
        } else {
            old(s).count
        },
        relinked(old(arena)@, final(arena)@, node, moves_back(old(s).ids(), old(arena)@, node)),
{
    let ghost ids = s.ids();
    let ghost nodes0 = arena@;
    let ghost p = pos_in(ids, node);
    proof {
        let i = choose|i: int| 0 <= i < ids.len() && ids[i] == node;
        assert(0 <= p < ids.len() && ids[p] == node);
        lemma_remove_no_dups(ids, p);
    }
    let ghost mid = ids.remove(p);
    let n: EntityNode = *arena.node(node);
    let d: i32 = depth(arena, node);
    assert(n.prev == prev_of(ids, p));
    assert(n.next == next_of(ids, p));
    match n.prev {
        Some(prev) => {
            if d < depth(arena, prev) {
                assert(moves_front(ids, nodes0, node));
                unlink(s, arena, node, Ghost(p));
                proof {
                    lemma_links_only_relinked(nodes0, arena@, node);
                    lemma_relinked_depths(nodes0, arena@, node, false);
                }
                let mut scan: Option<EntityId> = Some(prev);
                let ghost mut q: int = p - 1;
                loop
                    invariant_except_break
                        -1 <= q <= p - 1,
                    invariant
                        s.wf(arena@),
                        s.ids() == mid,
                        mid == ids.remove(p),
                        0 < p < ids.len(),
                        ids[p] == node,
                        ids.no_duplicates(),
                        forall|i: int| 0 <= i < mid.len() ==> #[trigger] mid[i] == if i < p {
                            ids[i]
                        } else {
                            ids[i + 1]
                        },
                        forall|i: int| 0 <= i < ids.len() ==> #[trigger] ids[i] < nodes0.len(),
                        d == depth_of(nodes0, node),
                        d < depth_of(nodes0, ids[p - 1]),
                        relinked(nodes0, arena@, node, false),
                        forall|k: EntityId| k < nodes0.len() ==> #[trigger] depth_of(arena@, k)
                            == depth_of(nodes0, k),
                        scan == if q >= 0 {
                            Some(ids[q])
                        } else {
                            None::<EntityId>
                        },
                        scan_back(ids, nodes0, d as int, q) == scan_back(ids, nodes0, d as int, p - 2),
                    ensures
                        -1 <= q <= p - 2,
                        q == scan_back(ids, nodes0, d as int, p - 2),
                        scan == if q >= 0 {
                            Some(ids[q])
                        } else {
                            None::<EntityId>
                        },
                    decreases q + 1,
                {
                    match scan {
                        None => {
                            break;
                        },
                        Some(b) => {
                            if d >= depth(arena, b) {
                                break;
                            }
                            assert(mid[q] == b);
                            scan = arena.node(b).prev;
                            proof {
                                q = q - 1;
                            }
                        },
                    }
                }
                match scan {
                    None => {
                        add_front(s, arena, node);
                    },
                    Some(b) => {
                        link_after(s, arena, node, b, Ghost(q));
                    },
                }
                proof {
                    lemma_relinked_trans(nodes0, arena@, arena@, node, false);
                }
                return;
            }
        },
        None => {},
    }
    let next: EntityId = match n.next {
        None => {
            assert(!moves_front(ids, nodes0, node) && !moves_back(ids, nodes0, node));
            proof {
                lemma_links_only_relinked(nodes0, arena@, node);
            }
            return;
        },
        Some(x) => x,
    };
    if d <= depth(arena, next) {
        assert(!moves_front(ids, nodes0, node) && !moves_back(ids, nodes0, node));
        proof {
            lemma_links_only_relinked(nodes0, arena@, node);
        }
        return;
    }
    assert(moves_back(ids, nodes0, node));
    let mut marked: EntityNode = *arena.node(node);
    marked.removed = true;
    arena.set_node(node, marked);
    let ghost nodes1 = arena@;
    proof {
        assert forall|i: int| 0 <= i < ids.len() implies arena@[#[trigger] ids[i] as int].next
            == next_of(ids, i) && arena@[ids[i] as int].prev == prev_of(ids, i) by {}
        assert(relinked(nodes0, nodes1, node, true));
    }
    unlink(s, arena, node, Ghost(p));
    proof {
        lemma_relinked_trans(nodes0, nodes1, arena@, node, true);
        lemma_relinked_depths(nodes0, arena@, node, true);
    }
    let mut scan: Option<EntityId> = Some(next);
    let ghost mut q: int = p;
    loop
        invariant_except_break
            p <= q <= mid.len(),
        invariant
            s.wf(arena@),
            s.ids() == mid,
            mid == ids.remove(p),
            0 <= p,
            p + 1 < ids.len(),
            ids[p] == node,
            ids.no_duplicates(),
            forall|i: int| 0 <= i < mid.len() ==> #[trigger] mid[i] == if i < p {
                ids[i]
            } else {
                ids[i + 1]
            },
            forall|i: int| 0 <= i < ids.len() ==> #[trigger] ids[i] < nodes0.len(),
            d == depth_of(nodes0, node),
            d > depth_of(nodes0, ids[p + 1]),
            relinked(nodes0, arena@, node, true),
            forall|k: EntityId| k < nodes0.len() ==> #[trigger] depth_of(arena@, k) == depth_of(
                nodes0,
                k,
            ),
            scan == if q < mid.len() {
                Some(mid[q])
            } else {
                None::<EntityId>
            },
            scan_fwd(ids, nodes0, d as int, q + 1) == scan_fwd(ids, nodes0, d as int, p + 2),
        ensures
            p + 1 <= q <= mid.len(),
            q + 1 == scan_fwd(ids, nodes0, d as int, p + 2),
            scan == if q < mid.len() {
                Some(mid[q])
            } else {
                None::<EntityId>
            },
        decreases mid.len() - q,
    {
        match scan {
            None => {
                break;
            },
            Some(f) => {
                if d <= depth(arena, f) {
                    break;
                }
                scan = arena.node(f).next;
                proof {
                    q = q + 1;
                }
            },
        }
    }
    match scan {
        None => {
            add_back(s, arena, node);
        },
        Some(f) => {
            let before: EntityId = match arena.node(f).prev {
                Some(x) => x,
                None => f,
            };
            link_after(s, arena, node, before, Ghost(q - 1));
        },
    }
    proof {
        lemma_relinked_trans(nodes0, arena@, arena@, node, true);
    }
}

/// The nodes of `ids` appear in non-decreasing depth.
pub open spec fn sorted_by_depth(ids: Seq<EntityId>, nodes: Seq<EntityNode>) -> bool {
    forall|i: int, j: int|
        0 <= i < j < ids.len() ==> depth_of(nodes, #[trigger] ids[i]) <= depth_of(
            nodes,
            #[trigger] ids[j],
        )
}

proof fn lemma_scan_back(ids: Seq<EntityId>, nodes: Seq<EntityNode>, d: int, q: int)
    requires
        -1 <= q < ids.len(),
    ensures
        -1 <= scan_back(ids, nodes, d, q) <= q,
        scan_back(ids, nodes, d, q) >= 0 ==> depth_of(nodes, ids[scan_back(ids, nodes, d, q)]) <= d,
        forall|k: int|
            scan_back(ids, nodes, d, q) < k <= q ==> depth_of(nodes, #[trigger] ids[k]) > d,
    decreases q + 1,
{
    if q >= 0 && depth_of(nodes, ids[q]) > d {
        lemma_scan_back(ids, nodes, d, q - 1);
    }
}

proof fn lemma_scan_fwd(ids: Seq<EntityId>, nodes: Seq<EntityNode>, d: int, q: int)
    requires
        0 <= q <= ids.len(),
    ensures
        q <= scan_fwd(ids, nodes, d, q) <= ids.len(),
        scan_fwd(ids, nodes, d, q) < ids.len() ==> d <= depth_of(
            nodes,
            ids[scan_fwd(ids, nodes, d, q)],
        ),
        forall|k: int|
            q <= k < scan_fwd(ids, nodes, d, q) ==> depth_of(nodes, #[trigger] ids[k]) < d,
    decreases ids.len() - q,
{
    if q < ids.len() && d > depth_of(nodes, ids[q]) {
        lemma_scan_fwd(ids, nodes, d, q + 1);
    }
}

proof fn lemma_insert_sorted(rest: Seq<EntityId>, nodes: Seq<EntityNode>, k: int, node: EntityId)
    requires
        sorted_by_depth(rest, nodes),
        0 <= k <= rest.len(),
        k > 0 ==> depth_of(nodes, rest[k - 1]) <= depth_of(nodes, node),
        k < rest.len() ==> depth_of(nodes, node) <= depth_of(nodes, rest[k]),
    ensures
        sorted_by_depth(rest.insert(k, node), nodes),
{
    let s = rest.insert(k, node);
    assert forall|i: int, j: int| 0 <= i < j < s.len() implies depth_of(nodes, #[trigger] s[i])
        <= depth_of(nodes, #[trigger] s[j]) by {
        let i2 = if i < k { i } else { i - 1 };
        let j2 = if j < k { j } else { j - 1 };
        if i == k {
            assert(s[j] == rest[j2]);
            assert(depth_of(nodes, rest[k]) <= depth_of(nodes, rest[j2]));
        } else if j == k {
            assert(s[i] == rest[i2]);
            assert(depth_of(nodes, rest[i2]) <= depth_of(nodes, rest[k - 1]));
        } else {
            assert(s[i] == rest[i2]);
            assert(s[j] == rest[j2]);
        }
    }
}

/// Re-sorting restores depth order: the order [`reorder_by_depth`] produces holds
/// the same nodes, and when the list was sorted apart from `node` it is sorted.
pub proof fn lemma_reorder_sorts(ids: Seq<EntityId>, nodes: Seq<EntityNode>, node: EntityId)
    requires
        ids.no_duplicates(),
        ids.contains(node),
    ensures
        sorted_by_depth(ids.remove(pos_in(ids, node)), nodes) ==> sorted_by_depth(
            reorder_spec(ids, nodes, node),
            nodes,
        ),
        reorder_spec(ids, nodes, node).no_duplicates(),
        reorder_spec(ids, nodes, node).len() == ids.len(),
        forall|x: EntityId| reorder_spec(ids, nodes, node).contains(x) <==> ids.contains(x),
{
    let p = pos_in(ids, node);
    let i0 = choose|i: int| 0 <= i < ids.len() && ids[i] == node;
    assert(0 <= p < ids.len() && ids[p] == node);
    let d = depth_of(nodes, node);
    let rest = ids.remove(p);
    lemma_remove_no_dups(ids, p);
    let r = reorder_spec(ids, nodes, node);
    let k: int = if moves_front(ids, nodes, node) {
        let q = scan_back(ids, nodes, d, p - 2);
        lemma_scan_back(ids, nodes, d, p - 2);
        q + 1
    } else if moves_back(ids, nodes, node) {
        let f = scan_fwd(ids, nodes, d, p + 2);
        lemma_scan_fwd(ids, nodes, d, p + 2);
        f - 1
    } else {
        p
    };
    assert(0 <= k <= rest.len());
    if moves_front(ids, nodes, node) && scan_back(ids, nodes, d, p - 2) < 0 {
        assert(r =~= rest.insert(0, node));
    }
    if moves_back(ids, nodes, node) && scan_fwd(ids, nodes, d, p + 2) >= ids.len() {
        assert(r =~= rest.insert(rest.len() as int, node));
    }
    if !moves_front(ids, nodes, node) && !moves_back(ids, nodes, node) {
        assert(r =~= rest.insert(p, node));
    }
    assert(r == rest.insert(k, node));
    if k > 0 {
        assert(depth_of(nodes, rest[k - 1]) <= d);
    }
    if k < rest.len() {
        assert(d <= depth_of(nodes, rest[k]));
    }
    if sorted_by_depth(rest, nodes) {
        lemma_insert_sorted(rest, nodes, k, node);
    }
    lemma_insert_no_dups(rest, k, node);
    assert forall|x: EntityId| r.contains(x) <==> ids.contains(x) by {
        if ids.contains(x) {
            let i = choose|i: int| 0 <= i < ids.len() && ids[i] == x;
            if i == p {
                assert(r[k] == x);
            } else {
                let i2 = if i < p { i } else { i - 1 };
                assert(rest[i2] == x);
                let i3 = if i2 < k { i2 } else { i2 + 1 };
                assert(r[i3] == x);
            }
        }
        if r.contains(x) {
            let i = choose|i: int| 0 <= i < r.len() && r[i] == x;
            if i != k {
                let i2 = if i < k { i } else { i - 1 };
                assert(rest.contains(x));
            }
        }
    }
}

} // verus!
