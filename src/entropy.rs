//! The source of every random decision that generation makes.
use vstd::prelude::*;

use rand::Rng;
use rand::SeedableRng;

verus! {

#[verifier::external_type_specification]
#[verifier::external_body]
pub struct ExStdRng(rand::rngs::StdRng);

#[verifier::external_type_specification]
#[verifier::external_body]
pub struct ExEntropyRng(rand::rngs::EntropyRng);

#[verifier::external_type_specification]
#[verifier::external_body]
pub struct ExRandError(rand::Error);

/// True of the ASCII letters and digits.
pub open spec fn is_alphanumeric(c: char) -> bool {
    ||| ('0' <= c && c <= '9')
    ||| ('A' <= c && c <= 'Z')
    ||| ('a' <= c && c <= 'z')
}

/// A random number generator handed explicitly to every generation call.
///
/// Seed it with [`Entropy::seeded`] to make generation reproducible, or
/// with [`Entropy::from_os`] for unpredictable output.
pub struct Entropy {
    rng: rand::rngs::StdRng,
}

/// Relies on `SeedableRng::seed_from_u64` of rand: a generator is built from
/// any 64-bit seed.
#[verifier::external_body]
fn std_rng_from_u64(seed: u64) -> rand::rngs::StdRng {
    rand::rngs::StdRng::seed_from_u64(seed)
}

/// Relies on `EntropyRng::new` of rand: a source of operating-system
/// entropy that reads nothing until it is asked for bytes.
#[verifier::external_body]
fn os_entropy_source() -> rand::rngs::EntropyRng {
    rand::rngs::EntropyRng::new()
}

/// Relies on `SeedableRng::from_rng` of rand: seeds a generator from
/// `source`, and reports a failure of the source as an error instead of
/// panicking.
#[verifier::external_body]
fn std_rng_from_source(source: rand::rngs::EntropyRng) -> Result<rand::rngs::StdRng, rand::Error> {
    rand::rngs::StdRng::from_rng(source)
}

/// Relies on `Rng::gen_range` of rand: for `low < high` it returns a value
/// in `[low, high)` (it panics only when `low >= high`).
#[verifier::external_body]
fn std_gen_range(rng: &mut rand::rngs::StdRng, low: usize, high: usize) -> (r: usize)
    requires
        low < high,
    ensures
        low <= r < high,
{
    rng.gen_range(low, high)
}

/// Relies on `Rng::gen::<bool>` of rand: a fair coin.
#[verifier::external_body]
fn std_gen_bool(rng: &mut rand::rngs::StdRng) -> bool {
    rng.gen::<bool>()
}

/// Relies on rand's `Alphanumeric` distribution: one character drawn from
/// `a-z`, `A-Z` and `0-9`.
#[verifier::external_body]
fn std_sample_alphanumeric(rng: &mut rand::rngs::StdRng) -> (r: char)
    ensures
        is_alphanumeric(r),
{
    rng.sample(rand::distributions::Alphanumeric)
}

impl Entropy {
    /// A generator whose draws are fixed by `seed`.
    pub fn seeded(seed: u64) -> Entropy {
        Entropy { rng: std_rng_from_u64(seed) }
    }

    /// A generator seeded by the operating system, or `None` where the
    /// operating system has no entropy to give.
    pub fn from_os() -> Option<Entropy> {
        match std_rng_from_source(os_entropy_source()) {
            Ok(rng) => Some(Entropy { rng }),
            Err(_) => None,
        }
    }

    /// A number drawn uniformly from `[0, bound)`.
    pub fn below(&mut self, bound: usize) -> (r: usize)
        requires
            bound > 0,
        ensures
            r < bound,
    {
        std_gen_range(&mut self.rng, 0, bound)
    }

    /// A number drawn uniformly from `[low, high)`.
    pub fn between(&mut self, low: usize, high: usize) -> (r: usize)
        requires
            low < high,
        ensures
            low <= r < high,
    {
        std_gen_range(&mut self.rng, low, high)
    }

    /// A fair coin flip.
    pub fn coin(&mut self) -> bool {
        std_gen_bool(&mut self.rng)
    }

    /// An ASCII letter or digit, drawn uniformly.
    pub fn alphanumeric(&mut self) -> (r: char)
        ensures
            is_alphanumeric(r),
    {
        std_sample_alphanumeric(&mut self.rng)
    }
}

} // verus!
