//! Q16.16 fixed-point numbers and the fixed constants of the model.

use vstd::prelude::*;

use crate::constants::SIFS_LEVELS;

verus! {

/// A Q16.16 fixed-point number: the integer `x` stands for `x / 65536`.
pub type Fixed16 = i32;

/// 1.0 in Q16.16.
pub const FIXED_ONE: Fixed16 = 65536;

/// Membrane decay per day step, 0.95 in Q16.16 (truncated).
pub const TAU_DECAY: Fixed16 = 62259;

/// Membrane resistance 1e9 / 1e12 = 0.001 in Q16.16 (truncated).
pub const MEMBRANE_RESISTANCE: Fixed16 = 65;

/// Default base threshold V0 = 0.02 (20 mV) in Q16.16 (truncated).
pub const DEFAULT_V0: Fixed16 = 1310;

/// Upper bound of the S-coordinate, 10.0 in Q16.16.
pub const S_COORDINATE_MAX: Fixed16 = 655360;

/// Current that one incoming ghost spike adds to its target's input, 0.01 in Q16.16.
pub const GHOST_CURRENT: Fixed16 = 655;

/// Steepness of the level sigmoid, 40.0 in Q16.16 (the SIFS current does not use it).
pub const SIGMOID_BETA: Fixed16 = 2621440;

/// Number of day steps a neuron stays refractory after a spike.
pub const REFRACTORY_STEPS: u16 = 5;

/// Number of levels of the inertia curve of the synaptic weights.
pub const INERTIA_LEVELS: usize = 16;

/// Inertia of a synaptic weight by its rank `|w| >> 13`: 1.00, 0.94, ..., 0.10 in Q16.16
/// (truncated). Strong connections change more slowly.
pub const INERTIA_CURVE: [Fixed16; INERTIA_LEVELS] = [
    65536, 61603, 57671, 53739, 49807, 45875, 41943, 38010,
    34078, 30146, 26214, 22282, 18350, 14417, 10485, 6553,
];

/// Number of S-levels at which the level weight W(n) is not zero in Q16.16.
pub const SIFS_W_NONZERO_LEVELS: usize = 55;

/// The level weight W(n) = exp(-2Kn), K = 1/pi^2, in Q16.16 (truncated), for n < 55;
/// from n = 55 on it truncates to zero.
pub const SIFS_W_TABLE: [Fixed16; SIFS_W_NONZERO_LEVELS] = [
    65536, 53514, 43698, 35682, 29137, 23792, 19428, 15864, 12954, 10578,
    8638, 7053, 5759, 4703, 3840, 3136, 2560, 2091, 1707, 1394,
    1138, 929, 759, 619, 506, 413, 337, 275, 225, 183,
    150, 122, 100, 81, 66, 54, 44, 36, 29, 24,
    19, 16, 13, 10, 8, 7, 5, 4, 3, 3,
    2, 2, 1, 1, 1,
];

/// The level thresholds V_th(n) = V0 / phi^n for the default V0 = 0.02, in Q16.16
/// (truncated), n = 0..=9.
pub const DEFAULT_LEVEL_THRESHOLDS: [Fixed16; SIFS_LEVELS] = [
    1310, 809, 500, 309, 191, 118, 73, 45, 27, 17,
];

/// W(n) in Q16.16.
pub open spec fn spec_sifs_w(n: int) -> int {
    if 0 <= n < SIFS_W_NONZERO_LEVELS { SIFS_W_TABLE[n] as int } else { 0 }
}

/// The level weight W(n) = exp(-2Kn) in Q16.16.
pub fn sifs_w(n: usize) -> (w: Fixed16)
    ensures
        w == spec_sifs_w(n as int),
{
    if n < SIFS_W_NONZERO_LEVELS {
        SIFS_W_TABLE[n]
    } else {
        0
    }
}

/// The S-level of an S-coordinate: its integer part, clamped to 0..=9.
pub open spec fn spec_s_level(s: int) -> int {
    if s <= 0 {
        0
    } else if s / (FIXED_ONE as int) >= SIFS_LEVELS as int {
        SIFS_LEVELS as int - 1
    } else {
        s / (FIXED_ONE as int)
    }
}

/// The S-level (0..=9) of a Q16.16 S-coordinate: `min(9, floor(s))`, and 0 for `s <= 0`.
pub fn s_level_of(s: Fixed16) -> (level: usize)
    ensures
        level as int == spec_s_level(s as int),
        level < SIFS_LEVELS,
{
    if s <= 0 {
        0
    } else {
        let l = s / FIXED_ONE;
        if l >= SIFS_LEVELS as i32 {
            SIFS_LEVELS - 1
        } else {
            l as usize
        }
    }
}

/// Rust's `/` on integers, which rounds toward zero, for a positive divisor.
pub open spec fn trunc_div(a: int, b: int) -> int {
    if a >= 0 { a / b } else { -((-a) / b) }
}

/// An arithmetic shift right by 16 is the floor of the division by 65536.
pub proof fn lemma_shr16(x: i64)
    ensures
        (x >> 16u64) == x / 65536,
{
    assert((x >> 16u64) * 65536 <= x && x < (x >> 16u64) * 65536 + 65536) by (bit_vector);
}

/// Level weights are non-increasing in the level and start at 1.0.
pub proof fn lemma_sifs_w_non_increasing(m: int, n: int)
    requires
        0 <= m <= n,
    ensures
        spec_sifs_w(n) <= spec_sifs_w(m),
        0 <= spec_sifs_w(n) <= FIXED_ONE,
        spec_sifs_w(0) == FIXED_ONE,
{
    assert(forall|i: int| 0 <= i < SIFS_W_NONZERO_LEVELS - 1 ==> #[trigger] SIFS_W_TABLE[i] >= SIFS_W_TABLE[i + 1]);

}

} // verus!
