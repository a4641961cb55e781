use recursion_core::challenger::DuplexChallengerVariable;
use recursion_core::sponge::{poseidon2_hash, compress};
use recursion_core::perm::{permute, PERMUTATION_WIDTH};

use p3_baby_bear::{BabyBear, Poseidon2BabyBear, default_babybear_poseidon2_16};
use p3_challenger::{DuplexChallenger, CanObserve, CanSample, GrindingChallenger};
use p3_field::PrimeField32;
use p3_symmetric::{
    PaddingFreeSponge, TruncatedPermutation, CryptographicHasher, PseudoCompressionFunction,
    Permutation,
};

type Perm = Poseidon2BabyBear<16>;
type RefChallenger = DuplexChallenger<BabyBear, Perm, 16, 8>;

fn reference_challenger() -> RefChallenger {
    RefChallenger::new(default_babybear_poseidon2_16())
}

#[test]
fn test_compiler_challenger() {
    let mut reference = reference_challenger();
    reference.observe(BabyBear::new(1));
    reference.observe(BabyBear::new(2));
    reference.observe(BabyBear::new(2));
    reference.observe(BabyBear::new(2));
    let expected: BabyBear = reference.sample();

    let mut challenger = DuplexChallengerVariable::new();
    challenger.observe(1);
    challenger.observe(2);
    challenger.observe(2);
    challenger.observe(2);
    let element = challenger.sample();
    assert_eq!(element, expected.as_canonical_u32());
}

#[test]
fn challenger_matches_reference_over_long_sequence() {
    let mut reference = reference_challenger();
    let mut challenger = DuplexChallengerVariable::new();
    // More than one duplexing's worth of observations, interleaved with
    // samples, must track the reference element for element.
    for i in 0..20u32 {
        reference.observe(BabyBear::new(i * 7 + 3));
        challenger.observe(i * 7 + 3);
    }
    for _ in 0..12 {
        let expected: BabyBear = reference.sample();
        let got = challenger.sample();
        assert_eq!(got, expected.as_canonical_u32());
    }
    reference.observe(BabyBear::new(99));
    challenger.observe(99);
    let expected: BabyBear = reference.sample();
    assert_eq!(challenger.sample(), expected.as_canonical_u32());
}

#[test]
fn sample_ext_draws_four_base_elements_in_order() {
    let mut reference = reference_challenger();
    let mut challenger = DuplexChallengerVariable::new();
    reference.observe(BabyBear::new(5));
    challenger.observe(5);
    let ext = challenger.sample_ext();
    assert_eq!(ext.len(), 4);
    for coord in ext.iter() {
        let expected: BabyBear = reference.sample();
        assert_eq!(*coord, expected.as_canonical_u32());
    }
}

#[test]
fn sample_bits_takes_low_bits() {
    let mut a = DuplexChallengerVariable::new();
    let mut b = DuplexChallengerVariable::new();
    a.observe(123456);
    b.observe(123456);
    let full = a.sample();
    let low = b.sample_bits(5);
    assert_eq!(low, full & 0x1f);
}

#[test]
fn check_witness_matches_reference_grind() {
    let mut reference = reference_challenger();
    reference.observe(BabyBear::new(42));
    let witness = reference.grind(4);

    let mut challenger = DuplexChallengerVariable::new();
    challenger.observe(42);
    assert!(challenger.check_witness(4, witness.as_canonical_u32()));

    // The same transcript with a wrong witness must be rejected the same
    // way the reference rejects it.
    let mut reference2 = reference_challenger();
    reference2.observe(BabyBear::new(42));
    let bad = BabyBear::new(witness.as_canonical_u32() ^ 1);
    let reference_verdict = reference2.check_witness(4, bad);
    let mut challenger2 = DuplexChallengerVariable::new();
    challenger2.observe(42);
    assert_eq!(challenger2.check_witness(4, bad.as_canonical_u32()), reference_verdict);
}

#[test]
fn permute_matches_reference_permutation() {
    let perm = default_babybear_poseidon2_16();
    let mut arr = [BabyBear::new(0); 16];
    for (i, slot) in arr.iter_mut().enumerate() {
        *slot = BabyBear::new(i as u32 + 1);
    }
    perm.permute_mut(&mut arr);

    let state: Vec<u32> = (1..=PERMUTATION_WIDTH as u32).collect();
    let out = permute(&state);
    for i in 0..16 {
        assert_eq!(out[i], arr[i].as_canonical_u32());
    }
}

#[test]
fn hash_matches_reference_sponge() {
    let hasher = PaddingFreeSponge::<Perm, 16, 8, 8>::new(default_babybear_poseidon2_16());
    let input: Vec<u32> = (0..21u32).map(|i| i * 11 + 1).collect();
    let reference = hasher.hash_iter(input.iter().map(|v| BabyBear::new(*v)));
    let ours = poseidon2_hash(&input);
    assert_eq!(ours.len(), 8);
    for i in 0..8 {
        assert_eq!(ours[i], reference[i].as_canonical_u32());
    }
}

#[test]
fn compress_matches_reference_compression() {
    let compressor = TruncatedPermutation::<Perm, 2, 8, 16>::new(default_babybear_poseidon2_16());
    let left: Vec<u32> = (1..=8u32).collect();
    let right: Vec<u32> = (11..=18u32).collect();
    let mut l = [BabyBear::new(0); 8];
    let mut r = [BabyBear::new(0); 8];
    for i in 0..8 {
        l[i] = BabyBear::new(left[i]);
        r[i] = BabyBear::new(right[i]);
    }
    let reference = compressor.compress([l, r]);
    let ours = compress(&left, &right);
    for i in 0..8 {
        assert_eq!(ours[i], reference[i].as_canonical_u32());
    }
}

#[test]
fn observe_discards_buffered_output() {
    // After a sample, an observe must invalidate the remaining buffered
    // output, exactly as the reference does.
    let mut reference = reference_challenger();
    let mut challenger = DuplexChallengerVariable::new();
    reference.observe(BabyBear::new(7));
    challenger.observe(7);
    let _: BabyBear = reference.sample();
    let _ = challenger.sample();
    reference.observe(BabyBear::new(8));
    challenger.observe(8);
    let expected: BabyBear = reference.sample();
    assert_eq!(challenger.sample(), expected.as_canonical_u32());
}
