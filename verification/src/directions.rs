//! The tile-grid direction tables shared by every entity and menu.
//!
//! Two encodings coexist. A step direction (0 to 8) indexes [`DIR_DX`] and
//! [`DIR_DY`]: 0 none, 1 up, 2 down, 3 left, 4 right, 5 up-left, 6 up-right,
//! 7 down-left, 8 down-right (x grows right, y grows down). A facing (0 to 4:
//! none, up, down, left, right) indexes [`FACING_IS_HORIZONTAL`] and the
//! rotation tables; a facing is also the step direction of the same name.

use vstd::prelude::*;

verus! {

/// Element damage multiplier times ten, `[attacker][defender]` (elements 0 to
/// 3): 10 neutral, 13 strong, 6 weak.
pub const ELEMENT_DAMAGE_MULTIPLIER: [[i8; 4]; 4] = [
    [10, 10, 10, 10],
    [10, 10, 6, 13],
    [10, 13, 10, 6],
    [10, 6, 13, 10],
];

/// X step of each step direction.
pub const DIR_DX: [i8; 9] = [0, 0, 0, -1, 1, -1, 1, -1, 1];

/// Y step of each step direction (positive is down).
pub const DIR_DY: [i8; 9] = [0, -1, 1, 0, 0, -1, -1, 1, 1];

/// Whether each facing is horizontal (left or right).
pub const FACING_IS_HORIZONTAL: [bool; 5] = [false, false, false, true, true];

/// Each facing's forward diagonal, 45 degrees clockwise (up to up-right).
pub const DIAG_CW: [i8; 5] = [0, 6, 7, 5, 8];

/// Each facing's forward diagonal, 45 degrees counter-clockwise (up to up-left).
pub const DIAG_CCW: [i8; 5] = [0, 5, 8, 7, 6];

/// Each facing turned 90 degrees clockwise (up, right, down, left).
pub const ROTATE_CW: [i8; 5] = [0, 4, 3, 1, 2];

/// Each facing turned 90 degrees counter-clockwise (up, left, down, right).
pub const ROTATE_CCW: [i8; 5] = [0, 3, 4, 2, 1];

/// Each facing reversed (up and down, left and right swapped).
pub const REVERSE: [i8; 5] = [0, 2, 1, 4, 3];

/// Turning clockwise and then counter-clockwise, or the other way round, gives
/// back the facing; turning clockwise twice reverses it; reversing twice gives
/// it back.
pub proof fn lemma_rotations(f: int)
    requires
        0 <= f < 5,
    ensures
        ROTATE_CCW@[ROTATE_CW@[f] as int] == f,
        ROTATE_CW@[ROTATE_CCW@[f] as int] == f,
        ROTATE_CW@[ROTATE_CW@[f] as int] == REVERSE@[f],
        REVERSE@[REVERSE@[f] as int] == f,
{
}

/// A facing's step moves along its axis: a horizontal facing changes only x, a
/// vertical one only y, and a reversed facing steps the opposite way.
pub proof fn lemma_facing_steps(f: int)
    requires
        1 <= f < 5,
    ensures
        FACING_IS_HORIZONTAL@[f] ==> DIR_DY@[f] == 0 && DIR_DX@[f] != 0,
        !FACING_IS_HORIZONTAL@[f] ==> DIR_DX@[f] == 0 && DIR_DY@[f] != 0,
        DIR_DX@[REVERSE@[f] as int] == -DIR_DX@[f],
        DIR_DY@[REVERSE@[f] as int] == -DIR_DY@[f],
{
}

} // verus!
