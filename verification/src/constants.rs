//! Constants of the SIFS model that are integers.

use vstd::prelude::*;

verus! {

/// Number of S-levels of the scale coordinate (levels 0..=9).
pub const SIFS_LEVELS: usize = 10;

/// Fibonacci indices of the ten S-levels.
pub const FIB: [u32; SIFS_LEVELS] = [1, 2, 3, 5, 8, 13, 21, 34, 55, 89];

} // verus!
