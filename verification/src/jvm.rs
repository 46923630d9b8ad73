//! JVM `int` arithmetic as the engine relies on it: shifts that take the shift
//! count modulo 32, truncating division and remainder, and the unsigned shift.

use vstd::prelude::*;

verus! {

/// JVM `v << n`.
pub open spec fn spec_ishl(v: i32, n: i32) -> i32 {
    v << ((n as u32) % 32)
}

/// JVM `v >> n` (sign-propagating).
pub open spec fn spec_ishr(v: i32, n: i32) -> i32 {
    v >> ((n as u32) % 32)
}

/// JVM `v >>> n` (zero-filling).
pub open spec fn spec_iushr(v: i32, n: i32) -> i32 {
    ((v as u32) >> ((n as u32) % 32)) as i32
}

/// The quotient of the JVM's `a / b` for `b != 0`: rounded toward zero, with
/// `MIN / -1` wrapping back to `MIN`.
pub open spec fn spec_java_div(a: i32, b: i32) -> i32 {
    let x = a as int;
    let d = b as int;
    let q = if x >= 0 && d > 0 {
        x / d
    } else if x < 0 && d < 0 {
        (-x) / (-d)
    } else if x < 0 {
        -((-x) / d)
    } else {
        -(x / (-d))
    };
    if q > i32::MAX { i32::MIN } else { q as i32 }
}

/// The remainder of the JVM's `a % b` for `b != 0`: the magnitude is `|a| mod |b|`
/// and the sign is that of `a`.
pub open spec fn spec_java_rem(a: i32, b: i32) -> i32 {
    let x = a as int;
    let d = b as int;
    let m = if x >= 0 && d > 0 {
        x % d
    } else if x < 0 && d < 0 {
        -((-x) % (-d))
    } else if x < 0 {
        -((-x) % d)
    } else {
        x % (-d)
    };
    m as i32
}

/// `ishl`: JVM `<<` on `int`.
pub fn ishl(v: i32, n: i32) -> (r: i32)
    ensures
        r == spec_ishl(v, n),
{
    v.wrapping_shl(n as u32)
}

/// `ishr`: JVM `>>` on `int`.
pub fn ishr(v: i32, n: i32) -> (r: i32)
    ensures
        r == spec_ishr(v, n),
{
    v.wrapping_shr(n as u32)
}

/// `iushr`: JVM `>>>` on `int`.
pub fn iushr(v: i32, n: i32) -> (r: i32)
    ensures
        r == spec_iushr(v, n),
{
    (v as u32).wrapping_shr(n as u32) as i32
}

/// `java_div`: JVM `/` on `int`; `None` is the `ArithmeticException` of a zero
/// divisor.
pub fn java_div(a: i32, b: i32) -> (r: Option<i32>)
    ensures
        b == 0 ==> r is None,
        b != 0 ==> r == Some(spec_java_div(a, b)),
{
    if b == 0 {
        return None;
    }
    match a.checked_div(b) {
        Some(q) => Some(q),
        None => Some(i32::MIN),
    }
}

/// `java_rem`: JVM `%` on `int`; `None` is the `ArithmeticException` of a zero
/// divisor.
pub fn java_rem(a: i32, b: i32) -> (r: Option<i32>)
    ensures
        b == 0 ==> r is None,
        b != 0 ==> r == Some(spec_java_rem(a, b)),
{
    if b == 0 {
        return None;
    }
    match a.checked_rem(b) {
        Some(m) => Some(m),
        None => Some(0),
    }
}

/// The low byte of an `int` lies in `0..256`.
pub proof fn lemma_low_byte(x: i32)
    ensures
        0 <= x & 255 < 256,
{
    assert(0 <= x & 255 < 256) by (bit_vector);
}

} // verus!
