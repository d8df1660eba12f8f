//! The random source that places new obstacles, taken from bracket-lib.
use vstd::prelude::*;

use bracket_lib::random::RandomNumberGenerator;

verus! {

/// bracket-lib's xorshift generator, carried through opaquely.
#[verifier::external_type_specification]
#[verifier::external_body]
pub struct ExRandomNumberGenerator(RandomNumberGenerator);

/// Relies on RandomNumberGenerator::new, which seeds a generator from the
/// operating system's entropy (the clock where that fails); nothing is
/// promised of the values it will give.
pub assume_specification[ RandomNumberGenerator::new ]() -> RandomNumberGenerator;

/// Relies on RandomNumberGenerator::range, which draws with rand's
/// `gen_range(min..max)`: a value in `[min, max)`, and a panic on an empty range.
#[verifier::external_body]
pub(crate) fn random_range(rng: &mut RandomNumberGenerator, min: i32, max: i32) -> (r: i32)
    requires
        min < max,
    ensures
        min <= r < max,
{
    rng.range(min, max)
}

} // verus!
