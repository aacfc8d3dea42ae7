use vstd::prelude::*;

verus! {

/// Size of the numeric pool that ticket ownership is tiled into for the draw.
pub const TOTAL_POOL_SIZE: u64 = 1000000;

/// Ceiling on the house fee, in basis points (10000 = 100%).
pub const MAX_HOUSE_FEE: u64 = 5000;

} // verus!
