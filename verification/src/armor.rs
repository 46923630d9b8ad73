//! Armor records: equipment followed by one combat attribute byte, and the
//! status-proc tables indexed by that attribute.

use vstd::prelude::*;
use crate::byte_util::ByteUtilState;
use crate::equipment::{self, has_enchant, range_maxs, range_mins, roll_feasible, Item};

verus! {

/// The status effect each combat attribute can inflict (-1: none).
pub const PROC_STATUS: [i8; 9] = [0, 1, -1, -1, -1, 4, 3, 2, -1];

/// The chance, in percent, of each attribute's status proc.
pub const PROC_CHANCE: [i8; 9] = [20, 16, 6, 13, 13, 10, 10, 10, 10];

/// `parse_record(roll_enchants, data, offset)` of armor: the equipment stats
/// block after the base fields (which end at `after_base`), then the attribute
/// byte; returns the offset after it.
pub fn parse_record(
    item: &mut Item,
    byte_util: &mut ByteUtilState,
    roll_enchants: bool,
    data: &[i8],
    after_base: i32,
) -> (r: i32)
    requires
        0 <= after_base,
        after_base + 13 <= data@.len(),
        after_base + 13 <= i32::MAX,
        roll_enchants && has_enchant(data@, after_base + 3) ==> roll_feasible(
            old(item).enchant@,
            data@[after_base + 3],
            range_mins(data@, after_base + 3),
            range_maxs(data@, after_base + 3),
        ),
    ensures
        r == after_base + 13,
        final(item).attribute == data@[after_base + 12],
        final(item).value == equipment::unsigned_byte(data@[after_base as int]),
        final(item).level_req == data@[after_base + 1],
        final(item).needs_identify == (data@[after_base + 2] != 0),
        final(item).identified == (old(item).identified || !has_enchant(data@, after_base + 3)),
        !(roll_enchants && has_enchant(data@, after_base + 3)) ==> {
            &&& final(item).enchant@ == old(item).enchant@
            &&& final(item).refine_level == old(item).refine_level
        },
        roll_enchants && has_enchant(data@, after_base + 3) ==> {
            let mins = range_mins(data@, after_base + 3);
            let maxs = range_maxs(data@, after_base + 3);
            &&& final(item).refine_level == 0
            &&& final(item).enchant@.len() == 4
            &&& data@[after_base + 3] <= 0 ==> final(item).enchant@ == old(item).enchant@
            &&& forall|s: int|
                0 <= s < 4 && #[trigger] final(item).enchant@[s] != old(item).enchant@[s] ==> {
                    &&& equipment::is_eligible(old(item).enchant@, mins, maxs, s)
                    &&& equipment::within_range(final(item).enchant@[s], mins[s], maxs[s])
                }
        },
{
    let after_equip = equipment::parse_record(item, byte_util, roll_enchants, data, after_base);
    item.attribute = data[after_equip as usize];
    after_equip + 1
}

/// `serialize()` of armor: the equipment bytes with the attribute at 9; `base`
/// is the base item bytes (at least 10).
pub fn serialize(item: &Item, base: Vec<i8>) -> (out: Vec<i8>)
    requires
        base@.len() >= 10,
    ensures
        out@.len() == base@.len(),
        out@[3] == (if item.identified { 1i8 } else { 0i8 }),
        out@[4] == item.refine_level,
        out@.subrange(5, 9) == item.enchant@,
        out@[9] == item.attribute,
        forall|j: int| 0 <= j < base@.len() && (j < 3 || j >= 10) ==> #[trigger] out@[j] == base@[j],
{
    let mut out = equipment::serialize(item, base);
    out.set(9, item.attribute);
    assert(out@.subrange(5, 9) =~= item.enchant@);
    out
}

} // verus!
