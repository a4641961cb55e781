//! Trusted boundary to the Poseidon2 permutation over BabyBear.
//!
//! The permutation itself is supplied by an outside crate; this module gives
//! its result a name, `permute_of`, and everything the rest of the crate
//! proves about sponges, transcripts and digests is stated over that name.

use vstd::prelude::*;
use crate::felt::{is_felt, all_felts};

verus! {

/// The width of the permutation: how many field elements it acts on.
pub const PERMUTATION_WIDTH: usize = 16;

/// The sponge rate: how many elements are absorbed or squeezed per duplexing.
pub const SPONGE_RATE: usize = 8;

/// The number of field elements in a commitment digest.
pub const DIGEST_SIZE: usize = 8;

/// The two-adicity of the BabyBear multiplicative group.
pub const TWO_ADICITY: usize = 27;

/// The value of the fixed width-16 Poseidon2 permutation on a state.
///
/// The permutation is a pure function of the state alone; its full definition
/// (round constants, S-box, linear layers) lives in the outside crate and is
/// deliberately left unstated here.
pub uninterp spec fn permute_of(state: Seq<u32>) -> Seq<u32>;

/// The canonical value of the generator of the `2^bits`-order subgroup of
/// the BabyBear multiplicative group.
pub uninterp spec fn two_adic_generator_of(bits: int) -> u32;

/// Relies on `p3_baby_bear::default_babybear_poseidon2_16` and
/// `p3_symmetric::Permutation::permute_mut`: applies the fixed width-16
/// Poseidon2 permutation to the state. The result is again sixteen canonical
/// BabyBear elements (`PrimeField32::as_canonical_u32` is below the prime).
#[verifier::external_body]
pub fn permute(state: &Vec<u32>) -> (r: Vec<u32>)
    requires
        state@.len() == PERMUTATION_WIDTH,
        all_felts(state@),
    ensures
        r@ == permute_of(state@),
        r@.len() == PERMUTATION_WIDTH,
        all_felts(r@),
{
    let mut arr = [p3_baby_bear::BabyBear::new(0); 16];
    for (i, v) in state.iter().enumerate() {
        arr[i] = p3_baby_bear::BabyBear::new(*v);
    }
    let perm = p3_baby_bear::default_babybear_poseidon2_16();
    p3_symmetric::Permutation::permute_mut(&perm, &mut arr);
    arr.iter().map(|x| p3_field::PrimeField32::as_canonical_u32(x)).collect()
}

/// Relies on `p3_field::TwoAdicField::two_adic_generator` for BabyBear: the
/// generator of the order-`2^bits` subgroup, canonical and nonzero. Defined
/// by the outside crate for `bits` up to the field's two-adicity.
#[verifier::external_body]
pub fn two_adic_generator(bits: usize) -> (r: u32)
    requires
        bits <= TWO_ADICITY,
    ensures
        r == two_adic_generator_of(bits as int),
        is_felt(r),
{
    let g: p3_baby_bear::BabyBear = p3_field::TwoAdicField::two_adic_generator(bits);
    p3_field::PrimeField32::as_canonical_u32(&g)
}

} // verus!
