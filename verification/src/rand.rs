//! Random sampling of field elements.
//!
//! Sampling is deterministic in the generator's seed: the generator and
//! the uniform sampler are pure algorithms, so the elements drawn from a
//! seed form a sequence that is a function of the seed alone.  That
//! sequence carries a name, and every sampling function states which of
//! its entries it consumed, so that two parties seeding alike provably
//! sample alike.

use vstd::prelude::*;
use ark_ff::UniformRand;
use ark_ff::PrimeField as ArkPrimeField;
use rand_core::SeedableRng;
use crate::field::{Fp, fp_vals};
use crate::poseidon::Hasher;

verus! {

#[verifier::external_type_specification]
#[verifier::external_body]
pub struct ExChaCha20Rng(rand_chacha::ChaCha20Rng);

/// The element at the given index of the sequence of field elements that
/// the uniform sampler draws from the ChaCha20 stream of the given seed.
/// Which values the stream holds is the generators' own business.
pub uninterp spec fn fp_draw(seed: Seq<u8>, index: nat) -> nat;

/// A contiguous run of the draw sequence.
pub open spec fn drawn_vals(seed: Seq<u8>, start: nat, count: nat) -> Seq<nat> {
    Seq::new(count, |i: int| fp_draw(seed, (start + i) as nat))
}

/// A seeded deterministic generator, together with its seed and how many
/// field elements were drawn from it so far.  The count is meaningful as
/// long as elements are taken only through [`fp_random`]; the library
/// draws nothing else from it.
pub struct SeededRng {
    pub inner: rand_chacha::ChaCha20Rng,
    pub seed: Ghost<Seq<u8>>,
    pub drawn: Ghost<nat>,
}

/// Relies on `rand_core` `SeedableRng::from_seed` for ChaCha20: a
/// generator whose stream is determined by the seed.
#[verifier::external_body]
fn chacha_from_seed(seed: [u8; 32]) -> rand_chacha::ChaCha20Rng {
    rand_chacha::ChaCha20Rng::from_seed(seed)
}

/// A fresh seeded generator with nothing drawn yet.
pub fn rng_from_seed(seed: [u8; 32]) -> (r: SeededRng)
    ensures
        r.seed@ == seed@,
        r.drawn@ == 0,
{
    SeededRng { inner: chacha_from_seed(seed), seed: Ghost(seed@), drawn: Ghost(0) }
}

/// Relies on `ark_ff` `UniformRand::rand`: the next field element drawn by
/// the uniform sampler, always fully reduced.  The sampler and the
/// generator are deterministic, so the element is the next entry of the
/// seed's draw sequence.
#[verifier::external_body]
pub fn fp_random(rng: &mut SeededRng) -> (r: Fp)
    ensures
        r.wf(),
        r@ == fp_draw(old(rng).seed@, old(rng).drawn@),
        final(rng).seed == old(rng).seed,
        final(rng).drawn@ == old(rng).drawn@ + 1,
{
    let x: ark_bls12_381::Fr = UniformRand::rand(&mut rng.inner);
    let z = x.into_repr().0;
    Fp { l0: z[0], l1: z[1], l2: z[2], l3: z[3] }
}

/// A vector of freshly sampled field elements: the next `count` entries of
/// the seed's draw sequence.
pub fn sample_elements(count: usize, rng: &mut SeededRng) -> (r: Vec<Fp>)
    ensures
        r@.len() == count,
        forall|i: int| 0 <= i < r@.len() ==> (#[trigger] r@[i]).wf(),
        fp_vals(r@) == drawn_vals(old(rng).seed@, old(rng).drawn@, count as nat),
        final(rng).seed == old(rng).seed,
        final(rng).drawn@ == old(rng).drawn@ + count,
{
    let ghost seed = rng.seed@;
    let ghost start = rng.drawn@;
    let mut out: Vec<Fp> = Vec::new();
    let mut i: usize = 0;
    while i < count
        invariant
            i <= count,
            out@.len() == i,
            rng.seed@ == seed,
            rng.drawn@ == start + i,
            forall|k: int| 0 <= k < i ==> (#[trigger] out@[k]).wf(),
            forall|k: int| 0 <= k < i ==> (#[trigger] out@[k])@ == fp_draw(seed, (start + k) as nat),
        decreases count - i,
    {
        let x = fp_random(rng);
        out.push(x);
        i = i + 1;
    }
    proof {
        assert(fp_vals(out@) =~= drawn_vals(seed, start, count as nat));
    }
    out
}

/// Samples a whole Poseidon parameter set of the given shape: the round
/// keys take the next `rounds * width` entries of the draw sequence, the
/// matrix the `width * width` after them.
pub fn sample_hasher(
    arity: usize,
    full_rounds: usize,
    partial_rounds: usize,
    sbox_exponent: u64,
    rng: &mut SeededRng,
) -> (r: Hasher)
    requires
        1 <= arity <= 63,
        2 <= full_rounds,
        full_rounds % 2 == 0,
        1 <= sbox_exponent,
        (full_rounds + partial_rounds) * (arity + 1) <= usize::MAX,
    ensures
        r.wf(),
        r.arity == arity,
        r.full_rounds == full_rounds,
        r.partial_rounds == partial_rounds,
        r.sbox_exponent == sbox_exponent,
        fp_vals(r.round_keys@) == drawn_vals(
            old(rng).seed@,
            old(rng).drawn@,
            ((full_rounds + partial_rounds) * (arity + 1)) as nat,
        ),
        fp_vals(r.mds_matrix@) == drawn_vals(
            old(rng).seed@,
            (old(rng).drawn@ + (full_rounds + partial_rounds) * (arity + 1)) as nat,
            ((arity + 1) * (arity + 1)) as nat,
        ),
        final(rng).seed == old(rng).seed,
        final(rng).drawn@ == old(rng).drawn@ + (full_rounds + partial_rounds) * (arity + 1) + (
        arity + 1) * (arity + 1),
{
    proof {
        assert(full_rounds + partial_rounds <= (full_rounds + partial_rounds) * (arity + 1))
            by (nonlinear_arith)
            requires
                arity >= 1,
                full_rounds >= 0,
                partial_rounds >= 0,
        ;
        assert((arity + 1) * (arity + 1) <= 4096) by (nonlinear_arith)
            requires
                arity + 1 <= 64,
                arity >= 1,
        ;
    }
    let width = arity + 1;
    let n_rounds = full_rounds + partial_rounds;
    let round_keys = sample_elements(n_rounds * width, rng);
    let mds_matrix = sample_elements(width * width, rng);
    match Hasher::new(arity, full_rounds, partial_rounds, sbox_exponent, round_keys, mds_matrix) {
        Some(h) => h,
        None => {
            proof {
                assert(false);
            }
            Hasher {
                arity,
                full_rounds,
                partial_rounds,
                sbox_exponent,
                round_keys: Vec::new(),
                mds_matrix: Vec::new(),
            }
        },
    }
}

} // verus!
