use recursion_core::challenger::DuplexChallengerVariable;
use recursion_core::root::{SP1RootVerifier, VerifierError, flatten_opening, hash_vkey, verify_shard};
use recursion_core::reduce::{
    const_fri_proof, const_two_adic_pcs_proof, const_proof, rust_reduce, rust_prove_reduce,
    build_reduce, make_folded_proof, ReduceProof, Proof,
};
use recursion_core::sponge::{poseidon2_hash, compress};
use recursion_core::types::{
    VerifyingKey, ShardProof, ShardCommitment, TwoAdicPcsProof, FriProof, FriQueryProof,
    FriCommitPhaseProofStep, BatchOpening, RecursionPublicValues, FriConfig, FriConfigVariable,
    const_fri_config, pv_to_elements,
};

fn digest(seed: u32) -> Vec<u32> {
    (0..8u32).map(|i| seed * 131 + i * 17 + 1).collect()
}

fn sample_vk() -> VerifyingKey {
    VerifyingKey { commit: digest(7), pc_start: 64 }
}

fn recursion_vk() -> VerifyingKey {
    VerifyingKey { commit: digest(9), pc_start: 128 }
}

fn fresh_pv() -> RecursionPublicValues {
    RecursionPublicValues {
        is_complete: 1,
        challenger: DuplexChallengerVariable::new(),
        reconstruct_challenger: DuplexChallengerVariable::new(),
        pre_challenger: DuplexChallengerVariable::new(),
        pre_reconstruct_challenger: DuplexChallengerVariable::new(),
        verify_start_challenger: DuplexChallengerVariable::new(),
        vk_digest: digest(0),
        compress_vk_digest: digest(0),
        output_digest: digest(0),
    }
}

fn sample_opening(seed: u32) -> TwoAdicPcsProof {
    TwoAdicPcsProof {
        fri_proof: FriProof {
            commit_phase_commits: vec![digest(seed + 1)],
            query_proofs: vec![FriQueryProof {
                commit_phase_openings: vec![FriCommitPhaseProofStep {
                    sibling_value: vec![seed + 2, seed + 3, seed + 4, seed + 5],
                    opening_proof: vec![digest(seed + 6)],
                }],
            }],
            final_poly: vec![seed + 7, seed + 8, seed + 9, seed + 10],
            pow_witness: seed + 11,
        },
        query_openings: vec![BatchOpening {
            opened_values: (0..6u32).map(|i| seed * 23 + i + 1).collect(),
            opening_proof: vec![digest(seed + 12)],
        }],
    }
}

fn quotient_for(opening: &TwoAdicPcsProof, alpha: &[u32]) -> Vec<u32> {
    let mut flat = flatten_opening(opening);
    flat.extend_from_slice(alpha);
    let mut d = poseidon2_hash(&flat);
    for c in opening.fri_proof.commit_phase_commits.iter() {
        d = compress(&d, c);
    }
    d
}

fn sample_proof(seed: u32, index: usize) -> ShardProof {
    ShardProof {
        index,
        commitment: ShardCommitment {
            main_commit: digest(seed + 20),
            permutation_commit: digest(seed + 21),
            quotient_commit: digest(seed + 22),
        },
        opened_values: vec![(0..4u32).map(|i| seed + i).collect()],
        opening_proof: sample_opening(seed),
        chip_ordering: vec![0, 1],
        public_values: fresh_pv(),
        public_values_digest: digest(seed + 23),
    }
}

fn config() -> FriConfigVariable {
    const_fri_config(&FriConfig { log_blowup: 1, num_queries: 2, proof_of_work_bits: 0 })
}

/// Make a proof pass the root verifier by computing the quotient commitment
/// the verifier will recompute from its own transcript.
fn seal_for_root(vk: &VerifyingKey, proof: &mut ShardProof) {
    let mut c = DuplexChallengerVariable::new();
    c.observe_commitment(&vk.commit);
    c.observe(vk.pc_start);
    c.observe_commitment(&proof.commitment.main_commit);
    let elements = pv_to_elements(&proof.public_values);
    c.observe_slice(&elements);
    let alpha = c.sample_ext();
    proof.commitment.quotient_commit = quotient_for(&proof.opening_proof, &alpha);
}

#[test]
fn root_verify_accepts_sealed_proof() {
    let vk = sample_vk();
    let mut proof = sample_proof(1, 0);
    seal_for_root(&vk, &mut proof);
    let r = SP1RootVerifier::verify(&config(), &vk, &proof, false);
    let digest = r.expect("sealed proof must verify");
    let elements = pv_to_elements(&proof.public_values);
    let expected = poseidon2_hash(&elements[..elements.len() - 8].to_vec());
    assert_eq!(digest, expected);
}

#[test]
fn root_verify_rejects_incomplete_proof() {
    let vk = sample_vk();
    let mut proof = sample_proof(1, 0);
    proof.public_values.is_complete = 0;
    seal_for_root(&vk, &mut proof);
    let r = SP1RootVerifier::verify(&config(), &vk, &proof, false);
    assert_eq!(r.unwrap_err(), VerifierError::IncompleteProof);
}

#[test]
fn compress_vk_digest_must_match_hash_of_vk() {
    let vk = sample_vk();
    let mut good = sample_proof(2, 0);
    good.public_values.compress_vk_digest = hash_vkey(&vk);
    seal_for_root(&vk, &mut good);
    assert!(SP1RootVerifier::verify(&config(), &vk, &good, true).is_ok());

    let mut bad = sample_proof(2, 0);
    bad.public_values.compress_vk_digest = hash_vkey(&vk);
    bad.public_values.compress_vk_digest[3] ^= 1;
    seal_for_root(&vk, &mut bad);
    let r = SP1RootVerifier::verify(&config(), &vk, &bad, true);
    assert_eq!(r.unwrap_err(), VerifierError::VkMismatch);
}

#[test]
fn flipping_any_opening_element_is_rejected() {
    let vk = sample_vk();
    let flips: Vec<fn(&mut ShardProof)> = vec![
        |p| p.opening_proof.query_openings[0].opened_values[2] ^= 1,
        |p| p.opening_proof.query_openings[0].opening_proof[0][5] ^= 1,
        |p| p.opening_proof.fri_proof.commit_phase_commits[0][0] ^= 1,
        |p| p.opening_proof.fri_proof.query_proofs[0].commit_phase_openings[0].sibling_value[1] ^= 1,
        |p| p.opening_proof.fri_proof.query_proofs[0].commit_phase_openings[0].opening_proof[0][7] ^= 1,
        |p| p.opening_proof.fri_proof.final_poly[0] ^= 1,
        |p| p.opening_proof.fri_proof.pow_witness ^= 1,
    ];
    for flip in flips {
        let mut proof = sample_proof(3, 0);
        seal_for_root(&vk, &mut proof);
        flip(&mut proof);
        let r = SP1RootVerifier::verify(&config(), &vk, &proof, false);
        assert_eq!(r.unwrap_err(), VerifierError::OpeningMismatch);
    }
}

#[test]
fn proof_of_work_gate_rejects_wrong_witness() {
    let vk = sample_vk();
    let cfg = const_fri_config(&FriConfig { log_blowup: 1, num_queries: 2, proof_of_work_bits: 4 });
    let mut proof = sample_proof(4, 0);
    // Grind: find a witness whose observation makes the next four sampled
    // bits zero, re-sealing because the witness is part of the opening.
    let mut ground: Option<u32> = None;
    for w in 0..4096u32 {
        proof.opening_proof.fri_proof.pow_witness = w;
        seal_for_root(&vk, &mut proof);
        let mut c = DuplexChallengerVariable::new();
        c.observe_commitment(&vk.commit);
        c.observe(vk.pc_start);
        c.observe_commitment(&proof.commitment.main_commit);
        let elements = pv_to_elements(&proof.public_values);
        c.observe_slice(&elements);
        let _alpha = c.sample_ext();
        if c.check_witness(4, w) {
            ground = Some(w);
            break;
        }
    }
    let w = ground.expect("a witness must exist within the search bound");
    proof.opening_proof.fri_proof.pow_witness = w;
    seal_for_root(&vk, &mut proof);
    assert!(SP1RootVerifier::verify(&cfg, &vk, &proof, false).is_ok());

    // A grinding witness whose sampled bits are nonzero is turned away,
    // with the opening itself kept valid.
    let mut bad_w: Option<u32> = None;
    for w in 0..4096u32 {
        proof.opening_proof.fri_proof.pow_witness = w;
        seal_for_root(&vk, &mut proof);
        let mut c = DuplexChallengerVariable::new();
        c.observe_commitment(&vk.commit);
        c.observe(vk.pc_start);
        c.observe_commitment(&proof.commitment.main_commit);
        let elements = pv_to_elements(&proof.public_values);
        c.observe_slice(&elements);
        let _alpha = c.sample_ext();
        if !c.check_witness(4, w) {
            bad_w = Some(w);
            break;
        }
    }
    let w = bad_w.expect("a failing witness must exist within the search bound");
    proof.opening_proof.fri_proof.pow_witness = w;
    seal_for_root(&vk, &mut proof);
    let r = SP1RootVerifier::verify(&cfg, &vk, &proof, false);
    assert_eq!(r.unwrap_err(), VerifierError::ProofOfWorkFailure);
}

#[test]
fn malformed_artifacts_are_rejected() {
    let opening = sample_opening(5);
    assert!(const_two_adic_pcs_proof(opening).is_ok());

    let mut bad = sample_opening(5);
    bad.fri_proof.commit_phase_commits[0].pop();
    match const_fri_proof(bad.fri_proof) {
        Ok(_) => panic!("a truncated commitment must be rejected"),
        Err(e) => assert_eq!(e, VerifierError::MalformedProof),
    }

    let mut bad_batch = sample_opening(5);
    bad_batch.query_openings[0].opened_values[0] = u32::MAX;
    match const_two_adic_pcs_proof(bad_batch) {
        Ok(_) => panic!("a non-canonical opened value must be rejected"),
        Err(e) => assert_eq!(e, VerifierError::MalformedProof),
    }

    let good = sample_proof(6, 0);
    match const_proof(3, good) {
        Ok(var) => assert_eq!(var.sorted_indices, vec![0, 1, 2013265920]),
        Err(_) => panic!("well-formed proof is admitted"),
    }

    let mut bad_proof = sample_proof(6, 0);
    bad_proof.commitment.main_commit.pop();
    match const_proof(3, bad_proof) {
        Ok(_) => panic!("a truncated commitment must be rejected"),
        Err(e) => assert_eq!(e, VerifierError::MalformedProof),
    }
}

/// Build `n` leaf proofs that fold cleanly from a fresh base transcript,
/// returning them with the multi-shard proof's public-values digest.
fn sealed_shards(vk: &VerifyingKey, n: usize) -> (Proof, DuplexChallengerVariable) {
    let base = DuplexChallengerVariable::new();
    let pv_digest = digest(77);
    let mut shards: Vec<ShardProof> = (0..n).map(|i| sample_proof(30 + i as u32, i)).collect();
    // The verify-start transcript: key commitment, every main commitment,
    // then the public-values digest.
    let mut verify_start = base.snapshot();
    verify_start.observe_commitment(&vk.commit);
    for s in shards.iter() {
        verify_start.observe_commitment(&s.commitment.main_commit);
    }
    verify_start.observe_slice(&pv_digest);
    // Every leaf is checked against a copy of the verify-start transcript.
    for s in shards.iter_mut() {
        let mut c = verify_start.snapshot();
        let alpha = c.sample_ext();
        s.commitment.quotient_commit = quotient_for(&s.opening_proof, &alpha);
    }
    (Proof { shard_proofs: shards, public_values_digest: pv_digest }, base)
}

#[test]
fn reduction_preserves_transcript_continuity() {
    let vk = sample_vk();
    let rvk = recursion_vk();
    let cfg = config();
    let (proof, base) = sealed_shards(&vk, 4);
    let main_commits: Vec<Vec<u32>> =
        proof.shard_proofs.iter().map(|s| s.commitment.main_commit.clone()).collect();
    let root = rust_prove_reduce(proof, &vk, &rvk, &base, &cfg, &cfg).expect("four shards must fold");
    assert!(root.recursive);
    // The root's reconstruct snapshot must equal the straight-line
    // transcript over the key and every main commitment, exactly as a
    // native verification over the concatenation of all shards builds it.
    let mut straight = DuplexChallengerVariable::new();
    straight.observe_commitment(&vk.commit);
    for m in main_commits.iter() {
        straight.observe_commitment(m);
    }
    let got = root.proof.public_values.reconstruct_challenger;
    assert_eq!(got.sponge_state, straight.sponge_state);
    assert_eq!(got.input_buffer, straight.input_buffer);
    assert_eq!(got.output_buffer, straight.output_buffer);
}

#[test]
fn fold_end_state_feeds_next_chunk() {
    let vk = sample_vk();
    let rvk = recursion_vk();
    let cfg = config();
    let (proof, base) = sealed_shards(&vk, 4);
    let main_commits: Vec<Vec<u32>> =
        proof.shard_proofs.iter().map(|s| s.commitment.main_commit.clone()).collect();
    let mut verify_start = base.snapshot();
    verify_start.observe_commitment(&vk.commit);
    for s in proof.shard_proofs.iter() {
        verify_start.observe_commitment(&s.commitment.main_commit);
    }
    verify_start.observe_slice(&proof.public_values_digest);

    let mut shards = proof.shard_proofs;
    let tail = shards.split_off(2);
    let chunk_a: Vec<ReduceProof> =
        shards.into_iter().map(|proof| ReduceProof { proof, recursive: false }).collect();
    let chunk_b: Vec<ReduceProof> =
        tail.into_iter().map(|proof| ReduceProof { proof, recursive: false }).collect();

    let mut challenger = verify_start.snapshot();
    let mut reconstruct = base.snapshot();
    rust_reduce(&chunk_a, &vk, &rvk, &cfg, &cfg, &mut challenger, &mut reconstruct, &verify_start)
        .expect("first chunk folds");
    // The end transcript of folding the first two shards is the straight
    // line over the key and their main commitments ...
    let mut expected_mid = DuplexChallengerVariable::new();
    expected_mid.observe_commitment(&vk.commit);
    expected_mid.observe_commitment(&main_commits[0]);
    expected_mid.observe_commitment(&main_commits[1]);
    assert_eq!(reconstruct.sponge_state, expected_mid.sponge_state);
    assert_eq!(reconstruct.input_buffer, expected_mid.input_buffer);
    assert_eq!(reconstruct.output_buffer, expected_mid.output_buffer);
    // ... and it is exactly the state the second chunk continues from.
    rust_reduce(&chunk_b, &vk, &rvk, &cfg, &cfg, &mut challenger, &mut reconstruct, &verify_start)
        .expect("second chunk folds from the first chunk's end state");
    let mut expected_end = expected_mid.snapshot();
    expected_end.observe_commitment(&main_commits[2]);
    expected_end.observe_commitment(&main_commits[3]);
    assert_eq!(reconstruct.sponge_state, expected_end.sponge_state);
    assert_eq!(reconstruct.input_buffer, expected_end.input_buffer);
    assert_eq!(reconstruct.output_buffer, expected_end.output_buffer);
}

#[test]
fn odd_shard_count_still_reduces_to_one_root() {
    let vk = sample_vk();
    let rvk = recursion_vk();
    let cfg = config();
    let (proof, base) = sealed_shards(&vk, 3);
    let root = rust_prove_reduce(proof, &vk, &rvk, &base, &cfg, &cfg).expect("three shards must fold");
    assert!(root.recursive);
}

#[test]
fn single_shard_bypasses_reduction() {
    let vk = sample_vk();
    let rvk = recursion_vk();
    let cfg = config();
    let (proof, base) = sealed_shards(&vk, 1);
    let expected_index = proof.shard_proofs[0].index;
    let root = rust_prove_reduce(proof, &vk, &rvk, &base, &cfg, &cfg).expect("one shard passes through");
    assert!(!root.recursive);
    assert_eq!(root.proof.index, expected_index);
}

#[test]
fn continuity_mismatch_is_detected() {
    let vk = sample_vk();
    let rvk = recursion_vk();
    let cfg = config();
    let (proof, base) = sealed_shards(&vk, 2);
    let chunk: Vec<ReduceProof> =
        proof.shard_proofs.into_iter().map(|proof| ReduceProof { proof, recursive: false }).collect();
    // Handing a wrong start state to the fold must surface as a
    // continuity mismatch at the first leaf.
    let mut challenger = base.snapshot();
    let mut reconstruct = base.snapshot();
    let mut verify_start = base.snapshot();
    verify_start.observe(5);
    let r = rust_reduce(&chunk, &vk, &rvk, &cfg, &cfg, &mut challenger, &mut reconstruct, &verify_start);
    assert_eq!(r.unwrap_err(), VerifierError::ContinuityMismatch);
}

#[test]
fn folded_proof_passes_fresh_verification() {
    let vk = sample_vk();
    let rvk = recursion_vk();
    let cfg = config();
    let base = sample_proof(8, 0);
    let snap = DuplexChallengerVariable::new();
    let folded = make_folded_proof(base, &snap, &snap, &snap, &snap, &snap, &rvk);
    assert_eq!(folded.public_values.vk_digest, hash_vkey(&rvk));
    let mut fresh = DuplexChallengerVariable::new();
    assert!(verify_shard(&cfg, &folded, &mut fresh).is_ok());
    let _ = vk;
}

#[test]
fn fri_config_tabulates_generators() {
    let cfg = config();
    assert_eq!(cfg.generators.len(), 27);
    assert_eq!(cfg.subgroups.len(), 27);
    // The order-two subgroup of the field is generated by minus one.
    assert_eq!(cfg.generators[1], 2013265920);
    assert_eq!(cfg.generators[0], 1);
    assert_eq!(cfg.subgroups[5].log_n, 5);
    assert_eq!(cfg.subgroups[5].shift, 1);
    let program = build_reduce(
        &FriConfig { log_blowup: 1, num_queries: 2, proof_of_work_bits: 0 },
        &sample_vk(),
    );
    assert!(!program.is_compress);
    assert_eq!(program.vk_commit, sample_vk().commit);
}
