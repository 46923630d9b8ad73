//! Monster stat templates decoded from the `/enm/data` blob: name, size, element,
//! AI type, combat stats, timing, level, loot table and the animation frame counts
//! bound from the sprite banks.

use vstd::prelude::*;
use crate::byte_util::{read_u16, spec_read_u16};
use crate::jvm::{ishr, spec_ishr};

verus! {

/// The frame at which each kind's melee attack connects.
pub const ATTACK_HIT_FRAME: [i8; 42] = [
    3, 2, 6, 2, 2, 1, 3, 4, 3, 2, 3, 4, 2, 3, 2, 2, 2, 3, 3, 3, 3, 3, 6, 3, 3, 3, 2, 2, 2, 3, 3, 2,
    1, 1, 1, 1, 1, 1, 1, 1, 1, 1,
];

/// One monster template.
pub struct EnemyTypeData {
    /// Name: the characters of its ASCII string-table id.
    pub name: Vec<u16>,
    /// Draw/footprint size (0..3).
    pub size: i8,
    /// Nameplate colour index.
    pub elem_color: i8,
    /// Element index.
    pub element: i8,
    /// AI behaviour (0/1 melee, 2 ranged, 3 caster).
    pub ai_type: i8,
    /// Pursues across the whole map once engaged.
    pub relentless: bool,
    /// Halves incoming hero damage.
    pub armored: bool,
    /// Summons copies while engaged.
    pub summons_allies: bool,
    /// Spawns hidden until it acts.
    pub ambush: bool,
    /// Guardian element that does not provoke a summon.
    pub summon_ward_element: i8,
    /// Monster level.
    pub level: i8,
    /// Maximum hit points.
    pub max_hp: i16,
    /// Base attack.
    pub attack: i16,
    /// Defense.
    pub defense: i16,
    /// Evasion.
    pub evasion: i16,
    /// Sight range in tiles.
    pub sight_range: i8,
    /// Frames between attacks.
    pub attack_delay: i8,
    /// Recovery frames after a hit.
    pub hurt_delay: i8,
    /// Experience awarded on death.
    pub exp_reward: i16,
    /// Loot table, three bytes per entry.
    pub drop_table: Vec<i8>,
    /// Walk animation frames.
    pub walk_frames: i8,
    /// Attack animation frames.
    pub attack_frames: i8,
    /// Cast animation frames.
    pub cast_frames: i8,
    /// Death animation frames.
    pub die_frames: i8,
}

/// All templates, indexed by stat row (`None` before allocation).
pub struct EnemyTypeState {
    /// The templates.
    pub types: Option<Vec<Option<EnemyTypeData>>>,
}

impl EnemyTypeState {
    /// The class-load state: no template array.
    pub fn new() -> (s: Self)
        ensures
            s.types is None,
    {
        EnemyTypeState { types: None }
    }
}

impl Default for EnemyTypeState {
    fn default() -> (s: Self)
        ensures
            s.types is None,
    {
        EnemyTypeState::new()
    }
}

/// `alloc(count)`: an array of `count` empty template slots.
pub fn alloc_types(s: &mut EnemyTypeState, count: i32)
    ensures
        final(s).types matches Some(t) && t@.len() == (if count < 0 { 0 } else { count as int })
            && forall|i: int| 0 <= i < t@.len() ==> #[trigger] t@[i] is None,
{
    let mut t: Vec<Option<EnemyTypeData>> = Vec::new();
    let mut i: i32 = 0;
    while i < count
        invariant
            0 <= i,
            count > 0 ==> i <= count,
            count <= 0 ==> i == 0,
            t@.len() == i,
            forall|j: int| 0 <= j < t@.len() ==> #[trigger] t@[j] is None,
        decreases count - i,
    {
        t.push(None);
        i = i + 1;
    }
    s.types = Some(t);
}

/// The big-endian 16-bit field at `pos`.
pub open spec fn u16_at(data: Seq<i8>, pos: int) -> i16 {
    spec_read_u16(data[pos], data[pos + 1])
}

/// Where record `n` starts: records follow a one-byte header, each led by its
/// 16-bit body length.
pub open spec fn record_start(data: Seq<i8>, n: int) -> int
    decreases n,
{
    if n <= 0 {
        1
    } else {
        record_start(data, n - 1) + 2 + u16_at(data, record_start(data, n - 1)) as int
    }
}

/// The length fields of the first `n` records can be read.
pub open spec fn records_readable(data: Seq<i8>, n: int) -> bool
    decreases n,
{
    n <= 0 || (records_readable(data, n - 1) && 0 <= record_start(data, n - 1) && record_start(
        data,
        n - 1,
    ) + 2 <= data.len())
}

/// Offset of the packed size/element/AI byte of the record at `c`.
pub open spec fn types_pos(data: Seq<i8>, c: int) -> int {
    c + 4 + data[c + 3] as int
}

/// Offset of the hit-points field of the record at `c`.
pub open spec fn hp_pos(data: Seq<i8>, c: int) -> int {
    types_pos(data, c) + 3
}

/// Offset of the loot-entry count of the record at `c`.
pub open spec fn drop_count_pos(data: Seq<i8>, c: int) -> int {
    hp_pos(data, c) + 13
}

/// Every field of the record at `c` lies inside `data`.
pub open spec fn record_readable(data: Seq<i8>, c: int) -> bool {
    &&& 0 <= c
    &&& c + 4 <= data.len()
    &&& c + 4 + data[c + 3] >= 0
    &&& drop_count_pos(data, c) < data.len()
    &&& data[drop_count_pos(data, c)] >= 0
    &&& drop_count_pos(data, c) + 1 + 3 * data[drop_count_pos(data, c)] <= data.len()
    &&& data.len() <= i32::MAX
}

/// Characters of an ASCII id: each byte zero-extended.
fn ascii_string_chars(data: &[i8], offset: i32, len: i32) -> (r: Vec<u16>)
    requires
        len <= 0 || (0 <= offset && offset + len <= data@.len()),
        data@.len() <= i32::MAX,
    ensures
        r@.len() == (if len < 0 { 0 } else { len as int }),
        forall|i: int| 0 <= i < r@.len() ==> #[trigger] r@[i] == ((data@[offset + i] as int + 256) % 256) as u16,
{
    let mut out: Vec<u16> = Vec::new();
    let mut i: i32 = 0;
    while i < len
        invariant
            0 <= i,
            len > 0 ==> i <= len && 0 <= offset && offset + len <= data@.len(),
            len <= 0 ==> i == 0,
            data@.len() <= i32::MAX,
            out@.len() == i,
            forall|j: int| 0 <= j < i ==> #[trigger] out@[j] == ((data@[offset + j] as int + 256) % 256) as u16,
        decreases len - i,
    {
        let b = data[(offset + i) as usize];
        let v: u16 = if b < 0 { (b as i32 + 256) as u16 } else { b as u16 };
        out.push(v);
        i = i + 1;
    }
    out
}

/// `parse(data, record_index, slot)`: decodes record number `record_index` of the
/// `/enm/data` blob into template slot `slot`.
#[verifier::rlimit(60)]
pub fn parse(s: &mut EnemyTypeState, data: &[i8], record_index: i8, slot: i8)
    requires
        old(s).types is Some,
        0 <= slot < old(s).types->0@.len(),
        records_readable(data@, record_index as int),
        record_readable(data@, record_start(data@, record_index as int)),
    ensures
        final(s).types is Some,
        final(s).types->0@.len() == old(s).types->0@.len(),
        forall|i: int| 0 <= i < final(s).types->0@.len() && i != slot ==> #[trigger] final(s).types->0@[i]
            == old(s).types->0@[i],
        final(s).types->0@[slot as int] is Some,
        ({
            let c = record_start(data@, record_index as int);
            let t = final(s).types->0@[slot as int]->0;
            let nl = data@[c + 3];
            let tp = types_pos(data@, c);
            let pt = data@[tp] as i32;
            let pf = data@[tp + 1] as i32;
            let hp = hp_pos(data@, c);
            let dc = drop_count_pos(data@, c);
            &&& t.name@.len() == (if nl < 0 { 0 } else { nl as int })
            &&& forall|i: int| 0 <= i < t.name@.len() ==> #[trigger] t.name@[i] == ((data@[c + 4 + i] as int + 256) % 256) as u16
            &&& t.size == (spec_ishr(pt, 6) & 3) as i8
            &&& t.elem_color == (spec_ishr(pt, 4) & 3) as i8
            &&& t.element == (spec_ishr(pt, 2) & 3) as i8
            &&& t.ai_type == (pt & 3) as i8
            &&& t.relentless == ((spec_ishr(pf, 3) & 1) == 1)
            &&& t.armored == ((spec_ishr(pf, 2) & 1) == 1)
            &&& t.summons_allies == ((spec_ishr(pf, 1) & 1) == 1)
            &&& t.ambush == ((pf & 1) == 1)
            &&& t.summon_ward_element == if t.summons_allies { (spec_ishr(pf, 6) & 3) as i8 } else { 0 }
            &&& t.level == data@[tp + 2]
            &&& t.max_hp == u16_at(data@, hp)
            &&& t.attack == u16_at(data@, hp + 2)
            &&& t.defense == u16_at(data@, hp + 4)
            &&& t.evasion == u16_at(data@, hp + 6)
            &&& t.sight_range == data@[hp + 8]
            &&& t.attack_delay == data@[hp + 9]
            &&& t.hurt_delay == data@[hp + 10]
            &&& t.exp_reward == u16_at(data@, hp + 11)
            &&& t.drop_table@ == data@.subrange(dc + 1, dc + 1 + 3 * data@[dc])
            &&& t.walk_frames == 0 && t.attack_frames == 0 && t.cast_frames == 0 && t.die_frames == 0
        }),
{
    let mut cursor: i32 = 1;
    let mut i: i32 = 0;
    while i < record_index as i32
        invariant
            0 <= i,
            record_index >= 0 ==> i <= record_index,
            record_index < 0 ==> i == 0,
            records_readable(data@, record_index as int),
            record_readable(data@, record_start(data@, record_index as int)),
            cursor == record_start(data@, i as int),
        decreases record_index - i,
    {
        proof {
            lemma_records_readable(data@, record_index as int, i as int);
            lemma_next_record(data@, record_index as int, i as int);
        }
        let len = read_u16(data, cursor);
        cursor = cursor + 2 + len as i32;
        i = i + 1;
    }
    let ghost c = cursor as int;
    assert(record_index < 0 ==> c == record_start(data@, record_index as int));
    let name_len_pos = cursor + 3;
    let name_pos = name_len_pos + 1;
    let name_len = data[name_len_pos as usize];
    let name = ascii_string_chars(data, name_pos, name_len as i32);
    let types_pos = name_pos + name_len as i32;
    let flags_pos = types_pos + 1;
    let packed_types = data[types_pos as usize] as i32;
    let level_pos = flags_pos + 1;
    let packed_flags = data[flags_pos as usize] as i32;
    let summons_allies = (ishr(packed_flags, 1) & 1) == 1;
    let hp_pos = level_pos + 1;
    let attack_pos = hp_pos + 2;
    let defense_pos = attack_pos + 2;
    let evasion_pos = defense_pos + 2;
    let sight_pos = evasion_pos + 2;
    let attack_delay_pos = sight_pos + 1;
    let hurt_delay_pos = attack_delay_pos + 1;
    let exp_pos = hurt_delay_pos + 1;
    let drop_count_pos = exp_pos + 2;
    let drop_len: i32 = 3 * (data[drop_count_pos as usize] as i32);
    let mut drop_table: Vec<i8> = Vec::new();
    let src: usize = (drop_count_pos + 1) as usize;
    let mut k: usize = 0;
    let n: usize = data.len();
    while k < drop_len as usize
        invariant
            n == data@.len(),
            0 <= drop_len,
            src + drop_len <= data@.len(),
            drop_table@ == data@.subrange(src as int, src + k),
            k <= drop_len,
        decreases drop_len - k,
    {
        drop_table.push(data[src + k]);
        k = k + 1;
        assert(drop_table@ =~= data@.subrange(src as int, src + k));
    }
    let template = EnemyTypeData {
        name,
        size: (ishr(packed_types, 6) & 3) as i8,
        elem_color: (ishr(packed_types, 4) & 3) as i8,
        element: (ishr(packed_types, 2) & 3) as i8,
        ai_type: (packed_types & 3) as i8,
        relentless: (ishr(packed_flags, 3) & 1) == 1,
        armored: (ishr(packed_flags, 2) & 1) == 1,
        summons_allies,
        ambush: (packed_flags & 1) == 1,
        summon_ward_element: if summons_allies { (ishr(packed_flags, 6) & 3) as i8 } else { 0 },
        level: data[level_pos as usize],
        max_hp: read_u16(data, hp_pos),
        attack: read_u16(data, attack_pos),
        defense: read_u16(data, defense_pos),
        evasion: read_u16(data, evasion_pos),
        sight_range: data[sight_pos as usize],
        attack_delay: data[attack_delay_pos as usize],
        hurt_delay: data[hurt_delay_pos as usize],
        exp_reward: read_u16(data, exp_pos),
        drop_table,
        walk_frames: 0,
        attack_frames: 0,
        cast_frames: 0,
        die_frames: 0,
    };
    let mut types = match s.types.take() {
        Some(t) => t,
        None => Vec::new(),
    };
    types.set(slot as usize, Some(template));
    s.types = Some(types);
}

/// Sprite bank `i` exists and holds at least its frame count.
pub open spec fn bank_ok(banks: Seq<Option<Vec<i8>>>, i: int) -> bool {
    0 <= i < banks.len() && banks[i] is Some && banks[i]->0@.len() > 0
}

/// The frame count of sprite bank `i`, or -1 when the bank is absent.
pub open spec fn bank_count(banks: Seq<Option<Vec<i8>>>, i: int) -> i8 {
    match banks[i] {
        Some(b) => b@[0],
        None => -1i8,
    }
}

fn take_template(s: &mut EnemyTypeState, kind: usize) -> (r: (Vec<Option<EnemyTypeData>>, EnemyTypeData))
    requires
        old(s).types is Some,
        kind < old(s).types->0@.len(),
        old(s).types->0@[kind as int] is Some,
    ensures
        r.0@ == old(s).types->0@.remove(kind as int),
        r.1 == old(s).types->0@[kind as int]->0,
{
    let mut types = match s.types.take() {
        Some(t) => t,
        None => Vec::new(),
    };
    let slot = types.remove(kind);
    let t = match slot {
        Some(t) => t,
        None => EnemyTypeData {
            name: Vec::new(), size: 0, elem_color: 0, element: 0, ai_type: 0, relentless: false,
            armored: false, summons_allies: false, ambush: false, summon_ward_element: 0, level: 0,
            max_hp: 0, attack: 0, defense: 0, evasion: 0, sight_range: 0, attack_delay: 0,
            hurt_delay: 0, exp_reward: 0, drop_table: Vec::new(), walk_frames: 0, attack_frames: 0,
            cast_frames: 0, die_frames: 0,
        },
    };
    (types, t)
}

/// `bind_sprites(kind)`: takes the walk, attack and cast frame counts of template
/// `kind` from its standard sprite banks (`kind * 12` plus 0, 4 and 8), which must
/// all exist.
pub fn bind_sprites(s: &mut EnemyTypeState, enemy_frames: &Vec<Option<Vec<i8>>>, kind: i8)
    requires
        old(s).types is Some,
        0 <= kind < old(s).types->0@.len(),
        old(s).types->0@[kind as int] is Some,
        bank_ok(enemy_frames@, kind * 12),
        bank_ok(enemy_frames@, kind * 12 + 4),
        bank_ok(enemy_frames@, kind * 12 + 8),
    ensures
        final(s).types is Some,
        final(s).types->0@.len() == old(s).types->0@.len(),
        forall|i: int| 0 <= i < final(s).types->0@.len() && i != kind ==> #[trigger] final(s).types->0@[i]
            == old(s).types->0@[i],
        final(s).types->0@[kind as int] == Some(EnemyTypeData {
            walk_frames: bank_count(enemy_frames@, kind * 12),
            attack_frames: bank_count(enemy_frames@, kind * 12 + 4),
            cast_frames: bank_count(enemy_frames@, kind * 12 + 8),
            ..old(s).types->0@[kind as int]->0
        }),
{
    let k = kind as usize;
    let (mut types, mut t) = take_template(s, k);
    let base: usize = k * 12;
    match &enemy_frames[base] {
        Some(b) => { t.walk_frames = b[0]; },
        None => {},
    }
    match &enemy_frames[base + 4] {
        Some(b) => { t.attack_frames = b[0]; },
        None => {},
    }
    match &enemy_frames[base + 8] {
        Some(b) => { t.cast_frames = b[0]; },
        None => {},
    }
    types.insert(k, Some(t));
    s.types = Some(types);
    assert(s.types->0@ =~= old(s).types->0@.update(k as int, s.types->0@[k as int]));
}

/// `bind_sprites_boss(kind)`: takes the walk, attack, cast and death frame counts of
/// a boss template from its 16-wide sprite banks (`kind * 16` plus 0, 4, 12 and
/// 8); the walk bank must exist and a missing other bank gives -1.
pub fn bind_sprites_boss(s: &mut EnemyTypeState, boss_frames: &Vec<Option<Vec<i8>>>, kind: i8)
    requires
        old(s).types is Some,
        0 <= kind < old(s).types->0@.len(),
        old(s).types->0@[kind as int] is Some,
        bank_ok(boss_frames@, kind * 16),
        kind * 16 + 12 < boss_frames@.len(),
        boss_frames@[kind * 16 + 4] matches Some(b) ==> b@.len() > 0,
        boss_frames@[kind * 16 + 8] matches Some(b) ==> b@.len() > 0,
        boss_frames@[kind * 16 + 12] matches Some(b) ==> b@.len() > 0,
    ensures
        final(s).types is Some,
        final(s).types->0@.len() == old(s).types->0@.len(),
        forall|i: int| 0 <= i < final(s).types->0@.len() && i != kind ==> #[trigger] final(s).types->0@[i]
            == old(s).types->0@[i],
        final(s).types->0@[kind as int] == Some(EnemyTypeData {
            walk_frames: bank_count(boss_frames@, kind * 16),
            attack_frames: bank_count(boss_frames@, kind * 16 + 4),
            cast_frames: bank_count(boss_frames@, kind * 16 + 12),
            die_frames: bank_count(boss_frames@, kind * 16 + 8),
            ..old(s).types->0@[kind as int]->0
        }),
{
    let k = kind as usize;
    let (mut types, mut t) = take_template(s, k);
    let base: usize = k * 16;
    match &boss_frames[base] {
        Some(b) => { t.walk_frames = b[0]; },
        None => {},
    }
    t.attack_frames = match &boss_frames[base + 4] {
        Some(b) => b[0],
        None => -1,
    };
    t.cast_frames = match &boss_frames[base + 12] {
        Some(b) => b[0],
        None => -1,
    };
    t.die_frames = match &boss_frames[base + 8] {
        Some(b) => b[0],
        None => -1,
    };
    types.insert(k, Some(t));
    s.types = Some(types);
    assert(s.types->0@ =~= old(s).types->0@.update(k as int, s.types->0@[k as int]));
}

proof fn lemma_next_record(data: Seq<i8>, n: int, i: int)
    requires
        records_readable(data, n),
        record_readable(data, record_start(data, n)),
        0 <= i < n,
    ensures
        0 <= record_start(data, i + 1) <= data.len(),
        data.len() <= i32::MAX,
{
    if i + 1 < n {
        lemma_records_readable(data, n, i + 1);
    }
}

proof fn lemma_records_readable(data: Seq<i8>, n: int, i: int)
    requires
        records_readable(data, n),
        0 <= i < n,
    ensures
        0 <= record_start(data, i),
        record_start(data, i) + 2 <= data.len(),
    decreases n,
{
    if i < n - 1 {
        lemma_records_readable(data, n - 1, i);
    }
}

} // verus!
