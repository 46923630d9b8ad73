//! Equipment records: the stats block that follows an item's base fields
//! (value, level requirement, identification, and four enchant ranges), the
//! random enchant roll, and the bytes an equipment piece saves. The base item
//! fields are decoded and encoded by the item record code; here are the
//! equipment fields that follow them.

use vstd::prelude::*;
use crate::byte_util::{
    rand_range, rand_range_value, rand_span, lcg_next, lcg_output, ByteUtilState,
};

verus! {

/// The fields of an item that equipment and armor read and write.
pub struct Item {
    /// Shop value.
    pub value: i16,
    /// Level required to equip.
    pub level_req: i8,
    /// Whether the piece must be identified before its enchants show.
    pub needs_identify: bool,
    /// Whether it has been identified.
    pub identified: bool,
    /// Refinement level.
    pub refine_level: i8,
    /// The four enchant slots (0: empty).
    pub enchant: [i8; 4],
    /// The combat attribute of armor and weapons.
    pub attribute: i8,
}

impl Item {
    /// A blank item: every field zero or false.
    pub fn new() -> (it: Item)
        ensures
            it.value == 0 && it.level_req == 0 && it.refine_level == 0 && it.attribute == 0,
            !it.needs_identify && !it.identified,
            it.enchant@ == seq![0i8, 0i8, 0i8, 0i8],
    {
        Item {
            value: 0,
            level_req: 0,
            needs_identify: false,
            identified: false,
            refine_level: 0,
            enchant: [0, 0, 0, 0],
            attribute: 0,
        }
    }
}

/// A byte read as unsigned, `(b & 255)`, as a `short`.
pub open spec fn unsigned_byte(b: i8) -> i16 {
    if b < 0 {
        (b + 256) as i16
    } else {
        b as i16
    }
}

/// Enchant slot `s` can take a roll: it is empty and its range is not `0..0`.
pub open spec fn is_eligible(enchant: Seq<i8>, mins: Seq<i8>, maxs: Seq<i8>, s: int) -> bool {
    enchant[s] == 0 && (mins[s] != 0 || maxs[s] != 0)
}

/// 1 if slot `s` can take a roll, else 0.
pub open spec fn eligible_at(enchant: Seq<i8>, mins: Seq<i8>, maxs: Seq<i8>, s: int) -> nat {
    if is_eligible(enchant, mins, maxs, s) {
        1
    } else {
        0
    }
}

/// `v` lies in the enchant range `lo..=hi`.
pub open spec fn within_range(v: i8, lo: i8, hi: i8) -> bool {
    lo <= v <= hi
}

/// The number of slots that can take a roll.
pub open spec fn eligible_count(enchant: Seq<i8>, mins: Seq<i8>, maxs: Seq<i8>) -> nat {
    eligible_at(enchant, mins, maxs, 0) + eligible_at(enchant, mins, maxs, 1) + eligible_at(
        enchant,
        mins,
        maxs,
        2,
    ) + eligible_at(enchant, mins, maxs, 3)
}

/// A roll of `count` enchants can complete: each roll finds a slot to fill (a
/// roll of 0 leaves its slot free for the next) and every such slot has a
/// range with its minimum at most its maximum.
pub open spec fn roll_feasible(enchant: Seq<i8>, count: i8, mins: Seq<i8>, maxs: Seq<i8>) -> bool {
    &&& enchant.len() == 4
    &&& mins.len() >= 4
    &&& maxs.len() >= 4
    &&& count <= eligible_count(enchant, mins, maxs)
    &&& forall|s: int| 0 <= s < 4 && #[trigger] is_eligible(enchant, mins, maxs, s) ==> mins[s] <= maxs[s]
}

/// The number of slot draws made before the search gives up drawing: 2^48,
/// the number of states of the generator.
pub const DRAW_BUDGET: u64 = 0x1_0000_0000_0000;

/// The first slot that can take a roll (3 when none can).
pub open spec fn first_eligible(enchant: Seq<i8>, mins: Seq<i8>, maxs: Seq<i8>) -> int {
    if is_eligible(enchant, mins, maxs, 0) {
        0
    } else if is_eligible(enchant, mins, maxs, 1) {
        1
    } else if is_eligible(enchant, mins, maxs, 2) {
        2
    } else {
        3
    }
}

/// The slot search of one roll from generator state `seed` with `left` draws
/// to go: slots are drawn from `0..=3` until one can take a roll, else the
/// first that can is taken; the slot and the generator state after it.
pub open spec fn slot_search(enchant: Seq<i8>, mins: Seq<i8>, maxs: Seq<i8>, seed: int, left: nat) -> (int, int)
    decreases left,
{
    if left == 0 {
        (first_eligible(enchant, mins, maxs), seed)
    } else {
        let s = lcg_next(seed);
        let slot = rand_range_value(0, 3, lcg_output(s)) as int;
        if is_eligible(enchant, mins, maxs, slot) {
            (slot, s)
        } else {
            slot_search(enchant, mins, maxs, s, (left - 1) as nat)
        }
    }
}

/// `n` rolls from generator state `seed`: each finds a slot (see
/// [`slot_search`]) and draws its value from the slot's range; the enchant
/// slots and the generator state after them.
pub open spec fn rolled(enchant: Seq<i8>, mins: Seq<i8>, maxs: Seq<i8>, seed: int, n: int) -> (Seq<i8>, int)
    decreases n,
{
    if n <= 0 {
        (enchant, seed)
    } else {
        let found = slot_search(enchant, mins, maxs, seed, DRAW_BUDGET as nat);
        let slot = found.0;
        let s = lcg_next(found.1);
        let v = rand_range_value(mins[slot] as i32, maxs[slot] as i32, lcg_output(s)) as i8;
        rolled(enchant.update(slot, v), mins, maxs, s, n - 1)
    }
}

/// `roll_enchant(count, mins, maxs, refine)`: rolls `count` enchants, each into a
/// randomly drawn slot that is empty and has a range, with a value drawn from
/// that slot's range; then records `refine`. A slot is drawn until one fits,
/// for at most [`DRAW_BUDGET`] draws; should all of them miss, the first slot
/// that fits is taken. (The library does not prove that the draws reach every
/// slot within that budget; the contract states the search as it runs.)
pub fn roll_enchant(
    item: &mut Item,
    byte_util: &mut ByteUtilState,
    count: i8,
    mins: &[i8],
    maxs: &[i8],
    refine: i8,
)
    requires
        roll_feasible(old(item).enchant@, count, mins@, maxs@),
    ensures
        final(item).refine_level == refine,
        final(item).value == old(item).value,
        final(item).level_req == old(item).level_req,
        final(item).needs_identify == old(item).needs_identify,
        final(item).identified == old(item).identified,
        final(item).attribute == old(item).attribute,
        final(item).enchant@.len() == 4,
        forall|s: int|
            0 <= s < 4 && #[trigger] final(item).enchant@[s] != old(item).enchant@[s] ==> {
                &&& is_eligible(old(item).enchant@, mins@, maxs@, s)
                &&& within_range(final(item).enchant@[s], mins@[s], maxs@[s])
            },
        count <= 0 ==> final(item).enchant@ == old(item).enchant@,
        (final(item).enchant@, final(byte_util).rng@) == rolled(
            old(item).enchant@,
            mins@,
            maxs@,
            old(byte_util).rng@,
            count as int,
        ),
{
    let ghost e0 = item.enchant@;
    let ghost total = rolled(e0, mins@, maxs@, byte_util.rng@, count as int);
    let mut i: i32 = 0;
    while i < count as i32
        invariant
            0 <= i,
            count <= 0 ==> i == 0,
            i <= count || count <= 0,
            item.enchant@.len() == 4,
            mins@.len() >= 4,
            maxs@.len() >= 4,
            count - i <= eligible_count(item.enchant@, mins@, maxs@),
            forall|s: int|
                0 <= s < 4 && #[trigger] is_eligible(item.enchant@, mins@, maxs@, s) ==> mins@[s]
                    <= maxs@[s],
            forall|s: int|
                0 <= s < 4 && #[trigger] item.enchant@[s] != e0[s] ==> {
                    &&& is_eligible(e0, mins@, maxs@, s)
                    &&& within_range(item.enchant@[s], mins@[s], maxs@[s])
                },
            forall|s: int|
                0 <= s < 4 && is_eligible(item.enchant@, mins@, maxs@, s) ==> #[trigger] is_eligible(
                    e0,
                    mins@,
                    maxs@,
                    s,
                ),
            item.value == old(item).value,
            item.level_req == old(item).level_req,
            item.needs_identify == old(item).needs_identify,
            item.identified == old(item).identified,
            item.attribute == old(item).attribute,
            e0 == old(item).enchant@,
            i == 0 ==> item.enchant@ == e0,
            total == rolled(e0, mins@, maxs@, old(byte_util).rng@, count as int),
            total == rolled(item.enchant@, mins@, maxs@, byte_util.rng@, count - i),
        decreases count - i,
    {
        let ghost seed = byte_util.rng@;
        let slot = draw_slot(item, byte_util, mins, maxs);
        let lo = mins[slot] as i32;
        let hi = maxs[slot] as i32;
        let v = rand_range(byte_util, lo, hi);
        let ghost before = item.enchant@;
        item.enchant[slot] = v as i8;
        proof {
            let d = lcg_output(byte_util.rng@);
            assert(rand_span(lo, hi) != 0);
            assert(lo <= v <= hi);
            lemma_roll_step(e0, before, item.enchant@, mins@, maxs@, slot as int, v as i8);
            assert(rolled(before, mins@, maxs@, seed, count - i) == rolled(
                item.enchant@,
                mins@,
                maxs@,
                byte_util.rng@,
                count - i - 1,
            ));
        }
        i = i + 1;
    }
    item.refine_level = refine;
}

/// One roll writes `v`, drawn from its range, into the eligible slot `slot`:
/// what held of the slots against the starting slots `e0` still holds.
proof fn lemma_roll_step(
    e0: Seq<i8>,
    before: Seq<i8>,
    after: Seq<i8>,
    mins: Seq<i8>,
    maxs: Seq<i8>,
    slot: int,
    v: i8,
)
    requires
        before.len() == 4,
        0 <= slot < 4,
        after == before.update(slot, v),
        is_eligible(before, mins, maxs, slot),
        within_range(v, mins[slot], maxs[slot]),
        forall|s: int|
            0 <= s < 4 && #[trigger] before[s] != e0[s] ==> {
                &&& is_eligible(e0, mins, maxs, s)
                &&& within_range(before[s], mins[s], maxs[s])
            },
        forall|s: int|
            0 <= s < 4 && is_eligible(before, mins, maxs, s) ==> #[trigger] is_eligible(
                e0,
                mins,
                maxs,
                s,
            ),
        forall|s: int|
            0 <= s < 4 && #[trigger] is_eligible(before, mins, maxs, s) ==> mins[s] <= maxs[s],
    ensures
        eligible_count(after, mins, maxs) + 1 >= eligible_count(before, mins, maxs),
        forall|s: int|
            0 <= s < 4 && #[trigger] after[s] != e0[s] ==> {
                &&& is_eligible(e0, mins, maxs, s)
                &&& within_range(after[s], mins[s], maxs[s])
            },
        forall|s: int|
            0 <= s < 4 && is_eligible(after, mins, maxs, s) ==> #[trigger] is_eligible(
                e0,
                mins,
                maxs,
                s,
            ),
        forall|s: int|
            0 <= s < 4 && #[trigger] is_eligible(after, mins, maxs, s) ==> mins[s] <= maxs[s],
{
    assert forall|s: int|
        0 <= s < 4 && #[trigger] after[s] != e0[s] implies {
            &&& is_eligible(e0, mins, maxs, s)
            &&& within_range(after[s], mins[s], maxs[s])
        } by {
        if s != slot {
            assert(after[s] == before[s]);
        }
    }
    assert forall|s: int| 0 <= s < 4 && is_eligible(after, mins, maxs, s) implies #[trigger] is_eligible(
        e0,
        mins,
        maxs,
        s,
    ) by {
        if s != slot {
            assert(after[s] == before[s]);
            assert(is_eligible(before, mins, maxs, s));
        }
    }
    assert forall|s: int| 0 <= s < 4 && #[trigger] is_eligible(after, mins, maxs, s) implies mins[s]
        <= maxs[s] by {
        if s != slot {
            assert(after[s] == before[s]);
            assert(is_eligible(before, mins, maxs, s));
        }
    }
}

/// Draws slots until one can take a roll (see [`roll_enchant`]).
fn draw_slot(item: &Item, byte_util: &mut ByteUtilState, mins: &[i8], maxs: &[i8]) -> (slot: usize)
    requires
        item.enchant@.len() == 4,
        mins@.len() >= 4,
        maxs@.len() >= 4,
        eligible_count(item.enchant@, mins@, maxs@) > 0,
    ensures
        slot < 4,
        is_eligible(item.enchant@, mins@, maxs@, slot as int),
        (slot as int, final(byte_util).rng@) == slot_search(
            item.enchant@,
            mins@,
            maxs@,
            old(byte_util).rng@,
            DRAW_BUDGET as nat,
        ),
{
    let ghost found = slot_search(item.enchant@, mins@, maxs@, byte_util.rng@, DRAW_BUDGET as nat);
    let mut attempts: u64 = 0;
    while attempts < DRAW_BUDGET
        invariant
            attempts <= DRAW_BUDGET,
            item.enchant@.len() == 4,
            mins@.len() >= 4,
            maxs@.len() >= 4,
            found == slot_search(item.enchant@, mins@, maxs@, old(byte_util).rng@, DRAW_BUDGET as nat),
            found == slot_search(item.enchant@, mins@, maxs@, byte_util.rng@, (DRAW_BUDGET - attempts) as nat),
        decreases DRAW_BUDGET - attempts,
    {
        let ghost seed = byte_util.rng@;
        let drawn = rand_range(byte_util, 0, 3);
        assert(rand_span(0, 3) == 4);
        let s = drawn as usize;
        if item.enchant[s] == 0 && (mins[s] != 0 || maxs[s] != 0) {
            return s;
        }
        attempts = attempts + 1;
    }
    let mut s: usize = 0;
    while s < 3
        invariant
            s <= 3,
            item.enchant@.len() == 4,
            mins@.len() >= 4,
            maxs@.len() >= 4,
            eligible_count(item.enchant@, mins@, maxs@) > 0,
            forall|t: int| 0 <= t < s ==> !is_eligible(item.enchant@, mins@, maxs@, t),
            found == slot_search(item.enchant@, mins@, maxs@, old(byte_util).rng@, DRAW_BUDGET as nat),
            found == (first_eligible(item.enchant@, mins@, maxs@), byte_util.rng@),
        decreases 3 - s,
    {
        if item.enchant[s] == 0 && (mins[s] != 0 || maxs[s] != 0) {
            return s;
        }
        s = s + 1;
    }
    3
}

/// The enchant ranges of a stats block at `range_base`: minimums at
/// `+1, +3, +5, +7` and maximums at `+2, +4, +6, +8`.
pub open spec fn range_mins(data: Seq<i8>, range_base: int) -> Seq<i8> {
    seq![data[range_base + 1], data[range_base + 3], data[range_base + 5], data[range_base + 7]]
}

/// See [`range_mins`].
pub open spec fn range_maxs(data: Seq<i8>, range_base: int) -> Seq<i8> {
    seq![data[range_base + 2], data[range_base + 4], data[range_base + 6], data[range_base + 8]]
}

/// Some enchant range of the block at `range_base` is non-zero.
pub open spec fn has_enchant(data: Seq<i8>, range_base: int) -> bool {
    exists|k: int| range_base + 1 <= k <= range_base + 8 && data[k] != 0
}

/// `parse_equip_stats(data, offset, roll_enchants)`: the 12-byte stats block at
/// `offset`: value (unsigned byte), level requirement, needs-identify flag, the
/// enchant count and four min/max ranges. A piece with no enchant range is
/// identified outright; with `roll_enchants` and some range, the enchants are
/// rolled. Returns the block's length, 12.
pub fn parse_equip_stats(
    item: &mut Item,
    byte_util: &mut ByteUtilState,
    data: &[i8],
    offset: i32,
    roll_enchants: bool,
) -> (r: i32)
    requires
        0 <= offset,
        offset + 12 <= data@.len(),
        roll_enchants && has_enchant(data@, offset + 3) ==> roll_feasible(
            old(item).enchant@,
            data@[offset + 3],
            range_mins(data@, offset + 3),
            range_maxs(data@, offset + 3),
        ),
    ensures
        r == 12,
        final(item).value == unsigned_byte(data@[offset as int]),
        final(item).level_req == data@[offset + 1],
        final(item).needs_identify == (data@[offset + 2] != 0),
        final(item).identified == (old(item).identified || !has_enchant(data@, offset + 3)),
        final(item).attribute == old(item).attribute,
        !(roll_enchants && has_enchant(data@, offset + 3)) ==> {
            &&& final(item).enchant@ == old(item).enchant@
            &&& final(byte_util).rng@ == old(byte_util).rng@
            &&& final(item).refine_level == old(item).refine_level
            &&& final(item).attribute == old(item).attribute
        },
        roll_enchants && has_enchant(data@, offset + 3) ==> {
            let mins = range_mins(data@, offset + 3);
            let maxs = range_maxs(data@, offset + 3);
            &&& final(item).refine_level == 0
            &&& final(item).enchant@.len() == 4
            &&& (final(item).enchant@, final(byte_util).rng@) == rolled(
                old(item).enchant@,
                mins,
                maxs,
                old(byte_util).rng@,
                data@[offset + 3] as int,
            )
            &&& data@[offset + 3] <= 0 ==> final(item).enchant@ == old(item).enchant@
            &&& forall|s: int|
                0 <= s < 4 && #[trigger] final(item).enchant@[s] != old(item).enchant@[s] ==> {
                    &&& is_eligible(old(item).enchant@, mins, maxs, s)
                    &&& within_range(final(item).enchant@[s], mins[s], maxs[s])
                }
        },
{
    let o = offset as usize;
    let b0 = data[o];
    item.value = if b0 < 0 {
        (b0 as i16) + 256
    } else {
        b0 as i16
    };
    item.level_req = data[o + 1];
    item.needs_identify = data[o + 2] != 0;
    let range_base = o + 3;
    let mut found = false;
    let mut k: usize = 1;
    while k <= 8
        invariant
            1 <= k <= 9,
            range_base == offset + 3,
            range_base + 9 <= data@.len(),
            found == (exists|j: int| range_base + 1 <= j < range_base + k && data@[j] != 0),
        decreases 9 - k,
    {
        if data[range_base + k] != 0 {
            found = true;
        }
        k = k + 1;
    }
    if !found {
        item.identified = true;
    }
    if !roll_enchants || !found {
        return 12;
    }
    let mins: [i8; 4] = [
        data[range_base + 1],
        data[range_base + 3],
        data[range_base + 5],
        data[range_base + 7],
    ];
    let maxs: [i8; 4] = [
        data[range_base + 2],
        data[range_base + 4],
        data[range_base + 6],
        data[range_base + 8],
    ];
    assert(mins@ =~= range_mins(data@, offset + 3));
    assert(maxs@ =~= range_maxs(data@, offset + 3));
    roll_enchant(item, byte_util, data[range_base], mins.as_slice(), maxs.as_slice(), 0);
    12
}

/// `parse_record(roll_enchants, data, offset)` of equipment: the stats block
/// follows the base item fields, which end at `after_base`; returns the offset
/// after the block.
pub fn parse_record(
    item: &mut Item,
    byte_util: &mut ByteUtilState,
    roll_enchants: bool,
    data: &[i8],
    after_base: i32,
) -> (r: i32)
    requires
        0 <= after_base,
        after_base + 12 <= data@.len(),
        after_base + 12 <= i32::MAX,
        roll_enchants && has_enchant(data@, after_base + 3) ==> roll_feasible(
            old(item).enchant@,
            data@[after_base + 3],
            range_mins(data@, after_base + 3),
            range_maxs(data@, after_base + 3),
        ),
    ensures
        r == after_base + 12,
        final(item).value == unsigned_byte(data@[after_base as int]),
        final(item).level_req == data@[after_base + 1],
        final(item).needs_identify == (data@[after_base + 2] != 0),
        final(item).identified == (old(item).identified || !has_enchant(data@, after_base + 3)),
        final(item).attribute == old(item).attribute,
        !(roll_enchants && has_enchant(data@, after_base + 3)) ==> {
            &&& final(item).enchant@ == old(item).enchant@
            &&& final(byte_util).rng@ == old(byte_util).rng@
            &&& final(item).refine_level == old(item).refine_level
        },
        roll_enchants && has_enchant(data@, after_base + 3) ==> {
            let mins = range_mins(data@, after_base + 3);
            let maxs = range_maxs(data@, after_base + 3);
            &&& final(item).refine_level == 0
            &&& final(item).enchant@.len() == 4
            &&& (final(item).enchant@, final(byte_util).rng@) == rolled(
                old(item).enchant@,
                mins,
                maxs,
                old(byte_util).rng@,
                data@[after_base + 3] as int,
            )
            &&& data@[after_base + 3] <= 0 ==> final(item).enchant@ == old(item).enchant@
            &&& forall|s: int|
                0 <= s < 4 && #[trigger] final(item).enchant@[s] != old(item).enchant@[s] ==> {
                    &&& is_eligible(old(item).enchant@, mins, maxs, s)
                    &&& within_range(final(item).enchant@[s], mins[s], maxs[s])
                }
        },
{
    let n = parse_equip_stats(item, byte_util, data, after_base, roll_enchants);
    after_base + n
}

/// `serialize()` of equipment: the base item bytes `base` (at least 9) with the
/// identified flag at 3, the refinement at 4 and the four enchants at 5 to 8.
pub fn serialize(item: &Item, base: Vec<i8>) -> (out: Vec<i8>)
    requires
        base@.len() >= 9,
    ensures
        out@.len() == base@.len(),
        out@[3] == (if item.identified { 1i8 } else { 0i8 }),
        out@[4] == item.refine_level,
        out@.subrange(5, 9) == item.enchant@,
        forall|j: int| 0 <= j < base@.len() && (j < 3 || j >= 9) ==> #[trigger] out@[j] == base@[j],
{
    let mut out = base;
    out.set(3, if item.identified { 1 } else { 0 });
    out.set(4, item.refine_level);
    out.set(5, item.enchant[0]);
    out.set(6, item.enchant[1]);
    out.set(7, item.enchant[2]);
    out.set(8, item.enchant[3]);
    assert(out@.subrange(5, 9) =~= item.enchant@);
    out
}

/// `set_enchant(e0, e1, e2, e3)`: sets the four enchant slots.
pub fn set_enchant(item: &mut Item, e0: i8, e1: i8, e2: i8, e3: i8)
    ensures
        final(item).enchant@ == seq![e0, e1, e2, e3],
        final(item).value == old(item).value,
        final(item).level_req == old(item).level_req,
        final(item).needs_identify == old(item).needs_identify,
        final(item).identified == old(item).identified,
        final(item).refine_level == old(item).refine_level,
        final(item).attribute == old(item).attribute,
{
    item.enchant[0] = e0;
    item.enchant[1] = e1;
    item.enchant[2] = e2;
    item.enchant[3] = e3;
    assert(item.enchant@ =~= seq![e0, e1, e2, e3]);
}

} // verus!
