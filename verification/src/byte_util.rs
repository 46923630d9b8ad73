//! Big-endian byte helpers and the shared random-number generator: a
//! bit-for-bit `java.util.Random` (the 48-bit linear congruential generator).

use vstd::prelude::*;
use crate::jvm::{java_rem, spec_java_rem};

verus! {

/// `0x5DEECE66D`, the multiplier of the generator.
pub const RANDOM_MULTIPLIER: u64 = 0x5DEECE66D;

/// `0xB`, the addend of the generator.
pub const RANDOM_ADDEND: u64 = 0xB;

/// `2^48 - 1`, the mask of the 48-bit state.
pub const RANDOM_MASK: u64 = 0xFFFF_FFFF_FFFF;

/// The 48-bit state after one step: `(seed * 0x5DEECE66D + 0xB) mod 2^48`.
pub open spec fn lcg_next(seed: int) -> int {
    (seed * 0x5DEECE66D + 0xB) % 0x1_0000_0000_0000
}

/// `next_int()` of a state that has just been stepped to `seed`: the top 32 of
/// its 48 bits, as an `int`.
pub open spec fn lcg_output(seed: int) -> i32 {
    let top = seed / 0x10000;
    if top >= 0x8000_0000 { (top - 0x1_0000_0000) as i32 } else { top as i32 }
}

/// The state that `new Random(seed)` starts from.
pub open spec fn lcg_scramble(seed: i64) -> int {
    ((seed as u64) ^ RANDOM_MULTIPLIER) as int % 0x1_0000_0000_0000
}

/// `java.util.Random`: the 48-bit generator state.
pub struct JavaRandom {
    seed: u64,
}

impl View for JavaRandom {
    type V = int;

    closed spec fn view(&self) -> int {
        self.seed as int
    }
}

impl JavaRandom {
    #[verifier::type_invariant]
    closed spec fn wf(self) -> bool {
        self.seed < 0x1_0000_0000_0000
    }

    /// `new Random(seed)`: the seed scrambled with the multiplier, kept to 48 bits.
    pub fn new(seed: i64) -> (r: Self)
        ensures
            r@ == lcg_scramble(seed),
    {
        let x: u64 = (seed as u64) ^ RANDOM_MULTIPLIER;
        let s: u64 = x & RANDOM_MASK;
        assert(x & 0xFFFF_FFFF_FFFF == x % 0x1_0000_0000_0000) by (bit_vector);
        JavaRandom { seed: s }
    }

    /// `protected int next(32)`: steps the state and returns its top 32 bits.
    fn next(&mut self) -> (r: i32)
        ensures
            final(self)@ == lcg_next(old(self)@),
            r == lcg_output(final(self)@),
    {
        proof {
            use_type_invariant(&*self);
        }
        let s: u64 = self.seed;
        let p: u64 = s.wrapping_mul(RANDOM_MULTIPLIER);
        let q: u64 = p.wrapping_add(RANDOM_ADDEND);
        let n: u64 = q & RANDOM_MASK;
        proof {
            lemma_lcg_step(s, p, q, n);
        }
        self.seed = n;
        let top: u64 = n >> 16;
        assert(top == n / 0x10000) by (bit_vector)
            requires
                top == n >> 16,
        ;
        if top >= 0x8000_0000 {
            (top as i64 - 0x1_0000_0000i64) as i32
        } else {
            top as i32
        }
    }

    /// `public int next_int()`.
    pub fn next_int(&mut self) -> (r: i32)
        ensures
            final(self)@ == lcg_next(old(self)@),
            r == lcg_output(final(self)@),
    {
        self.next()
    }
}

proof fn lemma_lcg_step(s: u64, p: u64, q: u64, n: u64)
    requires
        s < 0x1_0000_0000_0000,
        p == s.wrapping_mul(RANDOM_MULTIPLIER),
        q == p.wrapping_add(RANDOM_ADDEND),
        n == q & RANDOM_MASK,
    ensures
        n as int == lcg_next(s as int),
        n < 0x1_0000_0000_0000,
{
    let m48: int = 0x1_0000_0000_0000;
    let m64: int = 0x1_0000_0000_0000_0000;
    assert(n == q % 0x1_0000_0000_0000) by (bit_vector)
        requires
            n == q & 0xFFFF_FFFF_FFFF,
    ;
    assert(p as int == (s as int * 0x5DEECE66D) % m64);
    assert(q as int == (p as int + 0xB) % m64);
    assert(m64 == m48 * 0x10000);
    vstd::arithmetic::div_mod::lemma_mod_mod(p as int + 0xB, m48, 0x10000);
    vstd::arithmetic::div_mod::lemma_add_mod_noop(s as int * 0x5DEECE66D, 0xB, m64);
    vstd::arithmetic::div_mod::lemma_mod_mod(s as int * 0x5DEECE66D + 0xB, m48, 0x10000);
    vstd::arithmetic::div_mod::lemma_mod_mod(s as int * 0x5DEECE66D, m48, 0x10000);
    vstd::arithmetic::div_mod::lemma_add_mod_noop(p as int, 0xB, m48);
    vstd::arithmetic::div_mod::lemma_add_mod_noop(s as int * 0x5DEECE66D, 0xB, m48);
    vstd::arithmetic::div_mod::lemma_mod_bound(q as int, m48);
}

/// The shared generator behind [`rand_range`].
pub struct ByteUtilState {
    /// The generator.
    pub rng: JavaRandom,
}

impl ByteUtilState {
    /// A reproducible state seeded like `new Random(seed)`.
    pub fn seeded(seed: i64) -> (s: Self)
        ensures
            s.rng@ == lcg_scramble(seed),
    {
        ByteUtilState { rng: JavaRandom::new(seed) }
    }
}

/// `Math.abs(int)`: `Math.abs(MIN)` is `MIN` itself.
pub open spec fn spec_java_abs(x: i32) -> i32 {
    if x == i32::MIN {
        x
    } else if x < 0 {
        (-x) as i32
    } else {
        x
    }
}

fn java_math_abs(x: i32) -> (r: i32)
    ensures
        r == spec_java_abs(x),
{
    if x == i32::MIN {
        x
    } else if x < 0 {
        -x
    } else {
        x
    }
}

/// The number of values in `low..=high` as the engine computes it, in `int`
/// arithmetic (so the full `int` range wraps to 0).
pub open spec fn rand_span(low: i32, high: i32) -> i32 {
    high.wrapping_sub(low).wrapping_add(1)
}

/// What [`rand_range`] returns when the generator yields `draw`: `low` plus the
/// magnitude of `draw` reduced modulo the span. The magnitude is taken after the
/// reduction, so a draw of `i32::MIN` counts as `2^31` and stays in range.
pub open spec fn rand_range_value(low: i32, high: i32, draw: i32) -> i32 {
    low.wrapping_add(spec_java_abs(spec_java_rem(draw, rand_span(low, high))))
}

/// A random integer in `low..=high`: `low + |next_int()| mod span`, or 0 without a
/// draw when the span wraps to 0 (the full `int` range).
pub fn rand_range(s: &mut ByteUtilState, low: i32, high: i32) -> (r: i32)
    requires
        low <= high,
    ensures
        rand_span(low, high) == 0 ==> r == 0 && final(s).rng@ == old(s).rng@,
        rand_span(low, high) != 0 ==> {
            &&& final(s).rng@ == lcg_next(old(s).rng@)
            &&& r == rand_range_value(low, high, lcg_output(final(s).rng@))
            &&& low <= r <= high
        },
{
    let span: i32 = high.wrapping_sub(low).wrapping_add(1);
    if span == 0 {
        return 0;
    }
    let draw = s.rng.next_int();
    proof {
        lemma_rand_range_bounds(low, high, draw);
    }
    let m = java_math_abs(java_rem(draw, span).unwrap());
    low.wrapping_add(m)
}

/// Every draw gives a value of [`rand_range`] within `low..=high`.
pub proof fn lemma_rand_range_bounds(low: i32, high: i32, draw: i32)
    requires
        low <= high,
        rand_span(low, high) != 0,
    ensures
        low <= rand_range_value(low, high, draw) <= high,
{
    let w: int = high - low + 1;
    let span = rand_span(low, high);
    let m = spec_java_rem(draw, span);
    let x = draw as int;
    if w <= i32::MAX {
        assert(span == w);
        assert(span > 0);
        if x >= 0 {
            assert(0 <= x % w < w);
        } else {
            assert(0 <= (-x) % w < w);
        }
        assert(-w < m < w);
    } else {
        assert(span == w - 0x1_0000_0000);
        assert(span < 0);
        let d = -(span as int);
        if x >= 0 {
            assert(0 <= x % d < d);
        } else {
            assert(0 <= (-x) % d < d);
        }
        assert(-d < m < d);
        assert(d <= w);
    }
}

/// The value of the big-endian unsigned 16-bit field `b0 b1`, as a JVM `short`.
pub open spec fn spec_read_u16(b0: i8, b1: i8) -> i16 {
    ((((b0 as i32) & 255) << 8) | ((b1 as i32) & 255)) as i16
}

/// The value of the big-endian 32-bit field `b0 b1 b2 b3`.
pub open spec fn spec_read_s32(b0: i8, b1: i8, b2: i8, b3: i8) -> i32 {
    (((b0 as i32) & 255) << 24) | (((b1 as i32) & 255) << 16) | (((b2 as i32) & 255) << 8)
        | ((b3 as i32) & 255)
}

/// Byte `k` (0 = most significant) of the big-endian encoding of `v`.
pub open spec fn spec_be_byte(v: i32, k: int) -> i8 {
    if k == 0 {
        ((v >> 24) & 255) as i8
    } else if k == 1 {
        ((v >> 16) & 255) as i8
    } else if k == 2 {
        ((v >> 8) & 255) as i8
    } else {
        (v & 255) as i8
    }
}

/// Reads a big-endian unsigned 16-bit value at `offset`, returned as a `short`.
pub fn read_u16(buffer: &[i8], offset: i32) -> (r: i16)
    requires
        0 <= offset,
        offset + 2 <= buffer@.len(),
    ensures
        r == spec_read_u16(buffer@[offset as int], buffer@[offset + 1]),
{
    let b0 = buffer[offset as usize];
    let b1 = buffer[offset as usize + 1];
    ((((b0 as i32) & 255) << 8) | ((b1 as i32) & 255)) as i16
}

/// Reads a big-endian 32-bit value at `offset`, or `-1` when the four bytes from
/// `offset` do not all lie inside `buffer`.
pub fn read_s32(buffer: &[i8], offset: i32) -> (r: i32)
    ensures
        (offset < 0 || offset + 4 > buffer@.len()) ==> r == -1,
        (0 <= offset && offset + 4 <= buffer@.len()) ==> r == spec_read_s32(
            buffer@[offset as int],
            buffer@[offset + 1],
            buffer@[offset + 2],
            buffer@[offset + 3],
        ),
{
    if offset < 0 || buffer.len() < 4 || (offset as usize) > buffer.len() - 4 {
        return -1;
    }
    let i = offset as usize;
    let b0 = buffer[i];
    let b1 = buffer[i + 1];
    let b2 = buffer[i + 2];
    let b3 = buffer[i + 3];
    (((b0 as i32) & 255) << 24) | (((b1 as i32) & 255) << 16) | (((b2 as i32) & 255) << 8)
        | ((b3 as i32) & 255)
}

/// Writes `value` as a big-endian 32-bit integer into `buffer` at `offset`.
pub fn write_i32(value: i32, buffer: &mut Vec<i8>, offset: i32)
    requires
        0 <= offset,
        offset + 4 <= old(buffer)@.len(),
    ensures
        final(buffer)@.len() == old(buffer)@.len(),
        forall|k: int|
            0 <= k < final(buffer)@.len() ==> #[trigger] final(buffer)@[k] == if offset <= k < offset
                + 4 {
                spec_be_byte(value, k - offset)
            } else {
                old(buffer)@[k]
            },
{
    let i = offset as usize;
    buffer.set(i, ((value >> 24) & 255) as i8);
    buffer.set(i + 1, ((value >> 16) & 255) as i8);
    buffer.set(i + 2, ((value >> 8) & 255) as i8);
    buffer.set(i + 3, (value & 255) as i8);
}

/// Writing a value and reading it back at the same offset gives the value.
pub proof fn lemma_write_then_read_s32(v: i32)
    ensures
        spec_read_s32(spec_be_byte(v, 0), spec_be_byte(v, 1), spec_be_byte(v, 2), spec_be_byte(v, 3))
            == v,
{
    let b0 = ((v >> 24) & 255) as i8;
    let b1 = ((v >> 16) & 255) as i8;
    let b2 = ((v >> 8) & 255) as i8;
    let b3 = (v & 255) as i8;
    assert((((b0 as i32) & 255) << 24) | (((b1 as i32) & 255) << 16) | (((b2 as i32) & 255) << 8)
        | ((b3 as i32) & 255) == v) by (bit_vector)
        requires
            b0 == ((v >> 24) & 255) as i8,
            b1 == ((v >> 16) & 255) as i8,
            b2 == ((v >> 8) & 255) as i8,
            b3 == (v & 255) as i8,
    ;
}

/// A new array holding `first` followed by `second`.
pub fn concat(first: &[u16], second: &[u16]) -> (r: Vec<u16>)
    requires
        first@.len() + second@.len() <= i32::MAX,
    ensures
        r@ == first@ + second@,
{
    let mut result: Vec<u16> = Vec::new();
    let mut i: usize = 0;
    while i < first.len()
        invariant
            i <= first@.len(),
            result@ == first@.take(i as int),
        decreases first@.len() - i,
    {
        result.push(first[i]);
        i = i + 1;
        assert(result@ =~= first@.take(i as int));
    }
    let mut j: usize = 0;
    while j < second.len()
        invariant
            i == first@.len(),
            j <= second@.len(),
            result@ == first@ + second@.take(j as int),
        decreases second@.len() - j,
    {
        result.push(second[j]);
        j = j + 1;
        assert(result@ =~= first@ + second@.take(j as int));
    }
    assert(first@.take(first@.len() as int) =~= first@);
    assert(second@.take(second@.len() as int) =~= second@);
    result
}

} // verus!
