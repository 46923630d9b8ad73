//! Table-driven CRC-32 (ISO 3309 / zlib): reversed polynomial `0xEDB88320`,
//! initial value all ones, final ones-complement. The PNG writer uses it for chunk
//! CRCs.

use vstd::prelude::*;
use crate::jvm::{iushr, spec_iushr, lemma_low_byte};
use crate::adler32::{byte_window, window_in_bounds};

verus! {

/// The reversed CRC-32 polynomial `0xEDB88320` as a JVM `int`.
pub const CRC_POLY: i32 = -306674912;

/// One bit of the table construction: shift right, folding in the polynomial
/// when the dropped bit was set.
pub open spec fn crc_bit_step(c: i32) -> i32 {
    if c & 1 == 1 {
        spec_iushr(c, 1) ^ CRC_POLY
    } else {
        spec_iushr(c, 1)
    }
}

/// `k` bit steps applied to `c`.
pub open spec fn crc_bits(c: i32, k: nat) -> i32
    decreases k,
{
    if k == 0 {
        c
    } else {
        crc_bit_step(crc_bits(c, (k - 1) as nat))
    }
}

/// Entry `n` of the CRC table: eight bit steps applied to `n`.
pub open spec fn crc_table_entry(n: int) -> i32 {
    crc_bits(n as i32, 8)
}

/// One byte folded into a (pre-inverted) running CRC.
pub open spec fn crc_step(c: i32, byte: i8) -> i32 {
    (spec_iushr(c, 8) & 16777215) ^ crc_table_entry(((c ^ (byte as i32)) & 255) as int)
}

/// The running CRC after folding `bytes` into `c`, one byte at a time.
pub open spec fn crc_fold(c: i32, bytes: Seq<i8>) -> i32
    decreases bytes.len(),
{
    if bytes.len() == 0 {
        c
    } else {
        crc_step(crc_fold(c, bytes.drop_last()), bytes.last())
    }
}

/// An update with this `offset`/`length` reads only inside a buffer of `len`
/// bytes (and its end index does not wrap around).
pub open spec fn crc_window_ok(len: nat, offset: i32, length: i32) -> bool {
    if length <= 0 {
        offset + length >= i32::MIN
    } else {
        window_in_bounds(len, offset, length)
    }
}

/// CRC-32 running state, held pre-inverted and seeded to `-1`.
pub struct Crc32State {
    /// Running CRC.
    pub crc: i32,
}

impl Crc32State {
    /// `new Crc32()`: `crc == -1`.
    pub fn new() -> (s: Self)
        ensures
            s.crc == -1,
    {
        Crc32State { crc: -1 }
    }
}

impl Default for Crc32State {
    fn default() -> (s: Self)
        ensures
            s.crc == -1,
    {
        Crc32State::new()
    }
}

/// The 256-entry CRC table.
pub fn crc_table() -> (t: Vec<i32>)
    ensures
        t@.len() == 256,
        forall|n: int| 0 <= n < 256 ==> #[trigger] t@[n] == crc_table_entry(n),
{
    let mut t: Vec<i32> = Vec::new();
    let mut n: i32 = 0;
    while n < 256
        invariant
            0 <= n <= 256,
            t@.len() == n,
            forall|m: int| 0 <= m < n ==> #[trigger] t@[m] == crc_table_entry(m),
        decreases 256 - n,
    {
        let mut c: i32 = n;
        let mut bit: i32 = 1;
        while bit < 9
            invariant
                1 <= bit <= 9,
                0 <= n < 256,
                c == crc_bits(n, (bit - 1) as nat),
            decreases 9 - bit,
        {
            c = if (c & 1) == 1 {
                iushr(c, 1) ^ CRC_POLY
            } else {
                iushr(c, 1)
            };
            bit = bit + 1;
        }
        t.push(c);
        n = n + 1;
    }
    t
}

/// Resets the running CRC to its initial value.
pub fn reset(s: &mut Crc32State)
    ensures
        final(s).crc == -1,
{
    s.crc = -1;
}

/// Folds `length` bytes of `data` starting at `offset` into the running CRC.
/// The end position `offset + length` is an `int`: where it would pass
/// `i32::MAX` it wraps below `offset`, and nothing is folded.
pub fn update(s: &mut Crc32State, data: &[i8], offset: i32, length: i32)
    requires
        crc_window_ok(data@.len(), offset, length),
    ensures
        final(s).crc == if length > 0 && offset + length > i32::MAX {
            old(s).crc
        } else {
            crc_fold(old(s).crc, byte_window(data@, offset, length))
        },
{
    let table = crc_table();
    if length <= 0 {
        assert(crc_fold(s.crc, Seq::<i8>::empty()) == s.crc);
        return;
    }
    if offset > i32::MAX - length {
        return;
    }
    let ghost whole = byte_window(data@, offset, length);
    let end: i32 = offset + length;
    let mut i: i32 = offset;
    while i < end
        invariant
            0 <= offset <= i <= end,
            end == offset + length,
            end <= data@.len(),
            table@.len() == 256,
            forall|n: int| 0 <= n < 256 ==> #[trigger] table@[n] == crc_table_entry(n),
            whole == data@.subrange(offset as int, end as int),
            s.crc == crc_fold(old(s).crc, whole.take(i - offset)),
        decreases end - i,
    {
        let byte = data[i as usize];
        let idx: i32 = (s.crc ^ (byte as i32)) & 255;
        proof {
            lemma_low_byte(s.crc ^ (byte as i32));
            assert(whole.take(i - offset + 1).drop_last() =~= whole.take(i - offset));
        }
        s.crc = (iushr(s.crc, 8) & 16777215) ^ table[idx as usize];
        i = i + 1;
    }
    assert(whole.take(end - offset) =~= whole);
}

/// The finished CRC-32 value: the ones-complement of the running state.
pub fn get_value(s: &Crc32State) -> (r: i32)
    ensures
        r == s.crc ^ (-1i32),
{
    s.crc ^ (-1)
}

/// Folding two byte strings one after the other is folding their concatenation.
pub proof fn lemma_crc_fold_concat(c: i32, a: Seq<i8>, b: Seq<i8>)
    ensures
        crc_fold(c, a + b) == crc_fold(crc_fold(c, a), b),
    decreases b.len(),
{
    if b.len() == 0 {
        assert(a + b =~= a);
    } else {
        lemma_crc_fold_concat(c, a, b.drop_last());
        assert((a + b).drop_last() =~= a + b.drop_last());
        assert((a + b).last() == b.last());
    }
}

} // verus!
