//! Random picks, drawn with the `rand` crate.
//!
//! The generator is handed to every function that draws, so that a caller
//! decides where the randomness comes from: from the operating system, or
//! from a seed where a run is to be repeated.

use rand::rngs::{OsRng, StdRng};
use rand::seq::SliceRandom;
use rand::SeedableRng;
use vstd::prelude::*;

verus! {

/// The standard generator of `rand`. Nothing is known of its state.
#[verifier::external_type_specification]
#[verifier::external_body]
pub struct ExStdRng(rand::rngs::StdRng);

/// `SeedableRng::from_rng` for `StdRng`, fed from `rand::rngs::OsRng`: a
/// generator with a seed from the operating system, or `None` where the
/// operating system has no seed to give. Nothing is claimed of either
/// outcome; `from_rng` hands the failure back and does not panic.
#[verifier::external_body]
fn generator_from_entropy() -> (generator: Option<StdRng>) {
    StdRng::from_rng(OsRng).ok()
}

/// `SeedableRng::seed_from_u64` for `StdRng`: a generator built from the
/// seed alone. Nothing is claimed of it.
#[verifier::external_body]
fn generator_from_seed(seed: u64) -> (generator: StdRng) {
    StdRng::seed_from_u64(seed)
}

/// `rand::seq::SliceRandom::choose` on a slice.
///
/// Not proved, but read off the source of `rand`: `choose` answers `None`
/// for an empty slice and otherwise a reference to the element at an index
/// that it draws below the length, so what comes back is an element of the
/// slice. Which one is left open.
#[verifier::external_body]
fn random_choice<T: Copy>(elements: &[T], generator: &mut StdRng) -> (picked: Option<T>)
    ensures
        picked is None <==> elements@.len() == 0,
        picked matches Some(element) ==> elements@.contains(element),
{
    elements.choose(generator).copied()
}

/// Where random picks come from.
pub struct RandomSource {
    generator: StdRng,
}

impl RandomSource {
    /// A source that the operating system seeds: no two of them can be
    /// expected to give the same picks. Where the operating system has no
    /// seed to give there is no source, and the answer is `None`.
    pub fn from_entropy() -> (source: Option<RandomSource>) {
        match generator_from_entropy() {
            Some(generator) => Some(RandomSource { generator }),
            None => None,
        }
    }

    /// A source that gives the same picks whenever it is made from the same
    /// seed and asked the same way.
    pub fn from_seed(seed: u64) -> (source: RandomSource) {
        RandomSource { generator: generator_from_seed(seed) }
    }
}

/// One of the elements, picked at random.
pub fn get_random_element<T: Copy>(elements: &[T], source: &mut RandomSource) -> (element: T)
    requires
        elements@.len() > 0,
    ensures
        elements@.contains(element),
{
    match random_choice(elements, &mut source.generator) {
        Some(element) => element,
        None => elements[0],
    }
}

} // verus!
