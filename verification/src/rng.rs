//! The automaton's random source: rand's thread-local generator, used
//! here to draw alphabet positions for symbol mutation.

use vstd::prelude::*;
use crate::alphabet::{alphabet, symbol_at};

verus! {

/// Declares rand's `ThreadRng` — the thread-local, entropy-seeded,
/// non-cryptographic generator the automaton draws from — so that it
/// can cross the verified functions' signatures as an opaque value.
#[verifier::external_type_specification]
#[verifier::external_body]
pub struct ExThreadRng(rand::rngs::ThreadRng);

/// Relies on rand's `Rng::gen_range` over the half-open range `0..20`:
/// it returns a uniformly drawn index strictly below 20 (and panics
/// only on an empty range, which `0..20` is not).
#[verifier::external_body]
fn draw_symbol_index(rng: &mut rand::rngs::ThreadRng) -> (k: usize)
    ensures
        k < 20,
{
    rand::Rng::gen_range(rng, 0usize..20)
}

/// A glyph drawn uniformly at random from the alphabet — the
/// replacement drawn on an accepted symbol mutation, and the symbol
/// given to every cell at start-up. Whatever the generator returns,
/// the result is a glyph of the alphabet.
pub fn random_symbol(rng: &mut rand::rngs::ThreadRng) -> (c: char)
    ensures
        exists|k: int| 0 <= k < 20 && c == alphabet()[k],
{
    let k = draw_symbol_index(rng);
    let c = symbol_at(k);
    proof {
        assert(c == alphabet()[k as int]);
    }
    c
}

} // verus!
