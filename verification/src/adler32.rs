//! Running Adler-32 checksum (RFC 1950) as the PNG writer uses it. The 32-bit
//! state packs two 16-bit sums `(sum_b << 16) | sum_a`, each kept modulo 65521:
//! `sum_a` is one plus the sum of the bytes, `sum_b` the sum of the successive
//! values of `sum_a`.

use vstd::prelude::*;
use crate::jvm::{ishl, ishr, spec_ishl, spec_ishr};

verus! {

/// The modulus of both Adler sums.
pub const ADLER_MOD: i32 = 65521;

/// Adler-32 running state: the packed checksum, seeded to 1.
pub struct Adler32State {
    /// Packed running checksum `(sum_b << 16) | sum_a`.
    pub sum: i32,
}

/// One byte folded into the pair of sums: `a` gains the byte, `b` gains the
/// new `a`, both modulo 65521.
pub open spec fn adler_step(ab: (int, int), byte: i8) -> (int, int) {
    let a = (ab.0 + ((byte as i32) & 255)) % (ADLER_MOD as int);
    (a, (ab.1 + a) % (ADLER_MOD as int))
}

/// The pair of sums after folding `bytes` in order.
pub open spec fn adler_fold(ab: (int, int), bytes: Seq<i8>) -> (int, int)
    decreases bytes.len(),
{
    if bytes.len() == 0 {
        ab
    } else {
        adler_step(adler_fold(ab, bytes.drop_last()), bytes.last())
    }
}

/// The two sums packed in the state `sum`: its low and its high 16 bits.
pub open spec fn adler_sums(sum: i32) -> (int, int) {
    ((sum & 65535) as int, (spec_ishr(sum, 16) & 65535) as int)
}

/// The packed checksum after folding `bytes` into the packed state `sum`; with
/// no bytes the state is left as it is.
pub open spec fn adler_packed(sum: i32, bytes: Seq<i8>) -> i32 {
    if bytes.len() == 0 {
        sum
    } else {
        let ab = adler_fold(adler_sums(sum), bytes);
        spec_ishl(ab.1 as i32, 16) | (ab.0 as i32)
    }
}

/// The bytes `length` bytes from `offset` of `data` (none when `length <= 0`).
pub open spec fn byte_window(data: Seq<i8>, offset: i32, length: i32) -> Seq<i8> {
    if length <= 0 {
        Seq::empty()
    } else {
        data.subrange(offset as int, offset + length)
    }
}

/// The range of `data` that an update with `offset`/`length` reads is inside it.
pub open spec fn window_in_bounds(len: nat, offset: i32, length: i32) -> bool {
    length <= 0 || (0 <= offset && offset + length <= len)
}

impl Adler32State {
    /// `new Adler32()`: the seeded state `sum == 1`.
    pub fn new() -> (s: Self)
        ensures
            s.sum == 1,
    {
        Adler32State { sum: 1 }
    }
}

impl Default for Adler32State {
    fn default() -> (s: Self)
        ensures
            s.sum == 1,
    {
        Adler32State::new()
    }
}

proof fn lemma_fold_take_step(ab: (int, int), s: Seq<i8>, k: int)
    requires
        0 <= k < s.len(),
    ensures
        adler_fold(ab, s.take(k + 1)) == adler_step(adler_fold(ab, s.take(k)), s[k]),
{
    assert(s.take(k + 1).drop_last() =~= s.take(k));
}

/// Folds `length` bytes of `data` starting at `offset` into the running checksum.
pub fn update(s: &mut Adler32State, data: &[i8], offset: i32, length: i32)
    requires
        window_in_bounds(data@.len(), offset, length),
    ensures
        final(s).sum == adler_packed(old(s).sum, byte_window(data@, offset, length)),
{
    if length <= 0 {
        return;
    }
    let ghost win = byte_window(data@, offset, length);
    let ghost start = adler_sums(s.sum);
    let packed: i32 = s.sum;
    let hi: i32 = ishr(packed, 16);
    let mut sum_a: i32 = packed & 65535;
    let mut sum_b: i32 = hi & 65535;
    proof {
        assert(0 <= packed & 65535 <= 65535) by (bit_vector);
        assert(0 <= hi & 65535 <= 65535) by (bit_vector);
        assert(win.take(0) =~= Seq::<i8>::empty());
    }
    let mut k: i32 = 0;
    while k < length
        invariant
            0 <= k <= length,
            0 <= offset,
            offset + length <= data@.len(),
            win == data@.subrange(offset as int, offset + length),
            0 <= sum_a <= 65535,
            0 <= sum_b <= 65535,
            (sum_a as int, sum_b as int) == adler_fold(start, win.take(k as int)),
        decreases length - k,
    {
        proof {
            lemma_fold_take_step(start, win, k as int);
        }
        let byte = data[offset as usize + k as usize];
        proof {
            crate::jvm::lemma_low_byte(byte as i32);
        }
        sum_a = (sum_a + ((byte as i32) & 255)) % ADLER_MOD;
        sum_b = (sum_b + sum_a) % ADLER_MOD;
        k = k + 1;
    }
    assert(win.take(length as int) =~= win);
    s.sum = ishl(sum_b, 16) | sum_a;
}

proof fn lemma_fold_concat(ab: (int, int), x: Seq<i8>, y: Seq<i8>)
    ensures
        adler_fold(ab, x + y) == adler_fold(adler_fold(ab, x), y),
    decreases y.len(),
{
    if y.len() == 0 {
        assert(x + y =~= x);
    } else {
        assert((x + y).drop_last() =~= x + y.drop_last());
        assert((x + y).last() == y.last());
        lemma_fold_concat(ab, x, y.drop_last());
    }
}

proof fn lemma_fold_in_range(ab: (int, int), x: Seq<i8>)
    requires
        x.len() > 0,
        0 <= ab.0,
        0 <= ab.1,
    ensures
        0 <= adler_fold(ab, x).0 < ADLER_MOD,
        0 <= adler_fold(ab, x).1 < ADLER_MOD,
    decreases x.len(),
{
    if x.len() > 1 {
        lemma_fold_in_range(ab, x.drop_last());
    }
    crate::jvm::lemma_low_byte(x.last() as i32);
}

proof fn lemma_unpack(a: i32, b: i32)
    requires
        0 <= a < 65521,
        0 <= b < 65521,
    ensures
        (spec_ishl(b, 16) | a) & 65535 == a,
        spec_ishr(spec_ishl(b, 16) | a, 16) & 65535 == b,
{
    assert((16i32 as u32) % 32 == 16u32);
    let p: i32 = spec_ishl(b, 16) | a;
    assert(p == (b << 16u32) | a);
    assert(spec_ishr(p, 16) == p >> 16u32);
    assert(((b << 16u32) | a) & 65535 == a) by (bit_vector)
        requires 0 <= a < 65521, 0 <= b < 65521;
    assert((((b << 16u32) | a) >> 16u32) & 65535 == b) by (bit_vector)
        requires 0 <= a < 65521, 0 <= b < 65521;
}

/// Folding `x` and then `y` into a running checksum gives what folding `x`
/// followed by `y` at once gives: the checksum may be fed in pieces.
pub proof fn lemma_adler_in_pieces(sum: i32, x: Seq<i8>, y: Seq<i8>)
    ensures
        adler_packed(adler_packed(sum, x), y) == adler_packed(sum, x + y),
{
    if x.len() == 0 {
        assert(x + y =~= y);
    } else if y.len() == 0 {
        assert(x + y =~= x);
    } else {
        let s0 = adler_sums(sum);
        assert(0 <= sum & 65535) by (bit_vector);
        assert(0 <= spec_ishr(sum, 16) & 65535) by (bit_vector);
        lemma_fold_in_range(s0, x);
        let ab = adler_fold(s0, x);
        lemma_unpack(ab.0 as i32, ab.1 as i32);
        assert(adler_sums(adler_packed(sum, x)) == ab);
        lemma_fold_concat(s0, x, y);
    }
}

/// Resets the checksum to its initial value, 1.
pub fn reset(s: &mut Adler32State)
    ensures
        final(s).sum == 1,
{
    s.sum = 1;
}

/// The current checksum, widened to `long` with its sign carried along (a state
/// with bit 31 set comes back negative).
pub fn get_value(s: &Adler32State) -> (r: i64)
    ensures
        r == s.sum as i64,
{
    s.sum as i64
}

} // verus!
