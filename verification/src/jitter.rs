//! The random shifts that a collision adds to a position.

use rand::rngs::StdRng;
use rand::Rng;
use rand::SeedableRng;
use vstd::prelude::*;

verus! {

/// rand's `StdRng`, carried through as a value that nothing is known of.
#[verifier::external_type_specification]
#[verifier::external_body]
pub struct ExStdRng(StdRng);

/// Calls `SeedableRng::seed_from_u64` of rand for `StdRng`. Nothing is claimed
/// of the generator that comes back.
#[verifier::external_body]
fn generator(seed: u64) -> StdRng {
    StdRng::seed_from_u64(seed)
}

/// Calls `Rng::gen_range` of rand on a `StdRng`. The call panics unless
/// `low < high`, and the number it returns lies in `low..high`; which one it
/// is, nothing says.
#[verifier::external_body]
fn uniform(rng: &mut StdRng, low: i64, high: i64) -> (r: i64)
    requires
        low < high,
    ensures
        low <= r < high,
{
    rng.gen_range(low, high)
}

/// A seeded source of shifts, each a whole number of pixels between `-range`
/// and `range`. With range zero every shift is zero.
pub struct JitterSource {
    rng: StdRng,
    range: u32,
}

impl JitterSource {
    /// The largest shift that the source hands out.
    pub closed spec fn limit(&self) -> nat {
        self.range as nat
    }

    /// A source that starts from `seed`.
    pub fn seeded(seed: u64, range: u32) -> (source: JitterSource)
        ensures
            source.limit() == range,
    {
        JitterSource { rng: generator(seed), range }
    }

    /// The largest shift that the source hands out.
    pub fn range(&self) -> (r: u32)
        ensures
            r == self.limit(),
    {
        self.range
    }

    /// The next shift.
    pub fn draw(&mut self) -> (shift: i64)
        ensures
            -old(self).limit() <= shift <= old(self).limit(),
            final(self).limit() == old(self).limit(),
    {
        if self.range == 0 {
            0
        } else {
            let most: i64 = self.range as i64;
            uniform(&mut self.rng, -most, most + 1)
        }
    }
}

} // verus!
