use vstd::prelude::*;

verus! {

/// The index the seeded generator draws from `[0, bound)`. The generator and
/// its seeding scheme are a fixed published algorithm, so the draw is a
/// function of the seed and the bound alone, reproducible by any party.
pub uninterp spec fn seeded_draw(seed: u64, bound: u64) -> u64;

/// Relies on rand's StdRng::seed_from_u64 and Rng::gen_range: seeding from a
/// 64-bit value is deterministic, and the sample is drawn uniformly from the
/// half-open range `[0, bound)`, which must not be empty.
#[verifier::external_body]
pub(crate) fn draw_winning_ticket(seed: u64, bound: u64) -> (r: u64)
    requires
        bound > 0,
    ensures
        r == seeded_draw(seed, bound),
        r < bound,
{
    let mut rng: rand::rngs::StdRng = rand::SeedableRng::seed_from_u64(seed);
    rand::Rng::gen_range(&mut rng, std::ops::Range { start: 0, end: bound })
}

} // verus!
