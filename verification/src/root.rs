//! The recursive shard verifier: replays the prover's transcript, checks the
//! commitment opening, the proof-of-work gate, the completeness flag and —
//! for compress-level proofs — the embedded key digest, then commits a
//! digest of the public values as its own output.
//!
//! Every rejection is one of the `VerifierError` variants; the contracts say
//! exactly which inputs are accepted.

use vstd::prelude::*;
use crate::felt::{is_felt, all_felts};
use crate::perm::DIGEST_SIZE;
use crate::sponge::{poseidon2_hash, compress, spec_hash, spec_compress};
use crate::challenger::{
    DuplexChallengerVariable, ChallengerModel, challenger_wf, spec_new_challenger, spec_observe,
    spec_observe_seq, spec_sample_n, spec_sample_values, spec_sample, spec_sample_bits_value,
    felts_eq,
};
use crate::types::{
    VerifyingKey, ShardProof, TwoAdicPcsProof, BatchOpening, FriCommitPhaseProofStep,
    FriQueryProof, FriConfigVariable, RecursionPublicValues, vk_wf, shard_proof_wf, pcs_proof_wf,
    fri_proof_wf, pv_wf, spec_pv_elements, pv_to_elements, RECURSIVE_PROOF_NUM_PV_ELTS,
};

verus! {

/// The number of bits drawn for each commitment-opening query index.
pub const QUERY_SAMPLE_BITS: usize = 16;

/// Why a proof was rejected. All of these surface as a bare rejection to the
/// caller of the reduction tree; the taxonomy serves diagnostics and tests.
#[derive(Clone, Copy, PartialEq, Eq, Structural, Debug)]
pub enum VerifierError {
    /// Structural mismatch in openings or digests.
    MalformedProof,
    /// The recomputed opening digest disagrees with the commitment.
    OpeningMismatch,
    /// The grinding witness failed the proof-of-work gate.
    ProofOfWorkFailure,
    /// The proof's completeness flag is not set.
    IncompleteProof,
    /// The embedded compress-level key digest disagrees with the key.
    VkMismatch,
    /// A transcript snapshot disagrees between folded shards.
    ContinuityMismatch,
}

/// The concatenation of a list of digest vectors.
pub open spec fn digests_concat(ds: Seq<Vec<u32>>) -> Seq<u32>
    decreases ds.len(),
{
    if ds.len() == 0 {
        Seq::empty()
    } else {
        ds[0]@ + digests_concat(ds.skip(1))
    }
}

/// The flattened content of one batch opening.
pub open spec fn batch_flat(b: BatchOpening) -> Seq<u32> {
    b.opened_values@ + digests_concat(b.opening_proof@)
}

/// The flattened content of a list of batch openings.
pub open spec fn batches_flat(bs: Seq<BatchOpening>) -> Seq<u32>
    decreases bs.len(),
{
    if bs.len() == 0 {
        Seq::empty()
    } else {
        batch_flat(bs[0]) + batches_flat(bs.skip(1))
    }
}

/// The flattened content of the steps of one query proof.
pub open spec fn steps_flat(ss: Seq<FriCommitPhaseProofStep>) -> Seq<u32>
    decreases ss.len(),
{
    if ss.len() == 0 {
        Seq::empty()
    } else {
        ss[0].sibling_value@ + digests_concat(ss[0].opening_proof@) + steps_flat(ss.skip(1))
    }
}

/// The flattened content of a list of query proofs.
pub open spec fn queries_flat(qs: Seq<FriQueryProof>) -> Seq<u32>
    decreases qs.len(),
{
    if qs.len() == 0 {
        Seq::empty()
    } else {
        steps_flat(qs[0].commit_phase_openings@) + queries_flat(qs.skip(1))
    }
}

/// Every element of an opening proof, in a fixed order: batch openings,
/// then FRI query proofs, then the final polynomial and the grinding
/// witness.
pub open spec fn opening_flat(p: &TwoAdicPcsProof) -> Seq<u32> {
    batches_flat(p.query_openings@) + queries_flat(p.fri_proof.query_proofs@)
        + p.fri_proof.final_poly@ + seq![p.fri_proof.pow_witness]
}

/// Fold a digest through the commit-phase commitments by compression.
pub open spec fn fold_commits(d: Seq<u32>, cs: Seq<Vec<u32>>) -> Seq<u32>
    decreases cs.len(),
{
    if cs.len() == 0 {
        d
    } else {
        fold_commits(spec_compress(d, cs[0]@), cs.skip(1))
    }
}

/// The digest the verifier recomputes for an opening proof under a given
/// extension challenge: every proof element and the challenge hashed, then
/// folded through the commit-phase commitments.
pub open spec fn spec_opening_digest(p: &TwoAdicPcsProof, alpha: Seq<u32>) -> Seq<u32> {
    fold_commits(spec_hash(opening_flat(p) + alpha), p.fri_proof.commit_phase_commits@)
}

/// Append the concatenation of digest vectors to an output vector.
pub fn append_digests(out: &mut Vec<u32>, ds: &Vec<Vec<u32>>)
    ensures
        final(out)@ == old(out)@ + digests_concat(ds@),
{
    let ghost base = out@;
    let ghost model = ds@;
    assert(model.skip(0) == model);
    let mut i: usize = 0;
    while i < ds.len()
        invariant
            i <= model.len(),
            model == ds@,
            out@ + digests_concat(model.skip(i as int)) == base + digests_concat(model),
        decreases model.len() - i,
    {
        let mut part = crate::felt::copy_felts(&ds[i]);
        out.append(&mut part);
        proof {
            let rest = model.skip(i as int);
            assert(rest[0] == model[i as int]);
            assert(rest.skip(1) =~= model.skip(i as int + 1));
            assert(digests_concat(rest) == model[i as int]@ + digests_concat(
                model.skip(i as int + 1),
            ));
            assert(out@ + digests_concat(model.skip(i as int + 1)) =~= base + digests_concat(
                model,
            ));
        }
        i = i + 1;
    }
    assert(digests_concat(model.skip(model.len() as int)) == Seq::<u32>::empty());
    assert(out@ =~= base + digests_concat(model));
}

/// Flatten every element of an opening proof into one vector.
pub fn flatten_opening(p: &TwoAdicPcsProof) -> (r: Vec<u32>)
    ensures
        r@ == opening_flat(p),
{
    let mut r: Vec<u32> = Vec::new();
    let ghost bs = p.query_openings@;
    assert(bs.skip(0) == bs);
    let mut i: usize = 0;
    while i < p.query_openings.len()
        invariant
            i <= bs.len(),
            bs == p.query_openings@,
            r@ + batches_flat(bs.skip(i as int)) == batches_flat(bs),
        decreases bs.len() - i,
    {
        let b = &p.query_openings[i];
        let mut part = crate::felt::copy_felts(&b.opened_values);
        r.append(&mut part);
        append_digests(&mut r, &b.opening_proof);
        proof {
            let rest = bs.skip(i as int);
            assert(rest[0] == bs[i as int]);
            assert(rest.skip(1) =~= bs.skip(i as int + 1));
            assert(batches_flat(rest) == batch_flat(bs[i as int]) + batches_flat(
                bs.skip(i as int + 1),
            ));
            assert(r@ + batches_flat(bs.skip(i as int + 1)) =~= batches_flat(bs));
        }
        i = i + 1;
    }
    assert(batches_flat(bs.skip(bs.len() as int)) == Seq::<u32>::empty());
    assert(r@ =~= batches_flat(bs));
    let ghost qs = p.fri_proof.query_proofs@;
    assert(qs.skip(0) == qs);
    let ghost mid = r@;
    let mut i: usize = 0;
    while i < p.fri_proof.query_proofs.len()
        invariant
            i <= qs.len(),
            qs == p.fri_proof.query_proofs@,
            r@ + queries_flat(qs.skip(i as int)) == mid + queries_flat(qs),
        decreases qs.len() - i,
    {
        let q = &p.fri_proof.query_proofs[i];
        let ghost ss = q.commit_phase_openings@;
        assert(ss.skip(0) == ss);
        let ghost qbase = r@;
        let mut j: usize = 0;
        while j < q.commit_phase_openings.len()
            invariant
                j <= ss.len(),
                ss == q.commit_phase_openings@,
                r@ + steps_flat(ss.skip(j as int)) == qbase + steps_flat(ss),
            decreases ss.len() - j,
        {
            let s = &q.commit_phase_openings[j];
            let mut part = crate::felt::copy_felts(&s.sibling_value);
            r.append(&mut part);
            append_digests(&mut r, &s.opening_proof);
            proof {
                let rest = ss.skip(j as int);
                assert(rest[0] == ss[j as int]);
                assert(rest.skip(1) =~= ss.skip(j as int + 1));
                assert(steps_flat(rest) == ss[j as int].sibling_value@ + digests_concat(
                    ss[j as int].opening_proof@,
                ) + steps_flat(ss.skip(j as int + 1)));
                assert(r@ + steps_flat(ss.skip(j as int + 1)) =~= qbase + steps_flat(ss));
            }
            j = j + 1;
        }
        proof {
            assert(steps_flat(ss.skip(ss.len() as int)) == Seq::<u32>::empty());
            assert(r@ =~= qbase + steps_flat(ss));
            let rest = qs.skip(i as int);
            assert(rest[0] == qs[i as int]);
            assert(rest.skip(1) =~= qs.skip(i as int + 1));
            assert(queries_flat(rest) == steps_flat(qs[i as int].commit_phase_openings@)
                + queries_flat(qs.skip(i as int + 1)));
            assert(r@ + queries_flat(qs.skip(i as int + 1)) =~= mid + queries_flat(qs));
        }
        i = i + 1;
    }
    assert(queries_flat(qs.skip(qs.len() as int)) == Seq::<u32>::empty());
    let mut part = crate::felt::copy_felts(&p.fri_proof.final_poly);
    r.append(&mut part);
    r.push(p.fri_proof.pow_witness);
    assert(r@ =~= opening_flat(p));
    r
}

/// The digest of a verifying key: its commitment and start program counter
/// hashed together.
pub open spec fn spec_hash_vkey(vk: &VerifyingKey) -> Seq<u32> {
    spec_hash(vk.commit@ + seq![vk.pc_start])
}

/// Hash a verifying key into its digest.
pub fn hash_vkey(vk: &VerifyingKey) -> (r: Vec<u32>)
    requires
        vk_wf(vk),
    ensures
        r@ == spec_hash_vkey(vk),
        r@.len() == DIGEST_SIZE,
        all_felts(r@),
{
    let mut input = crate::felt::copy_felts(&vk.commit);
    input.push(vk.pc_start);
    assert(input@ =~= vk.commit@ + seq![vk.pc_start]);
    poseidon2_hash(&input)
}

/// The transcript state after the opening check: the extension challenge,
/// the grinding gate, then one index sample per query.
pub open spec fn spec_post_opening(
    c: ChallengerModel,
    pow_witness: u32,
    num_queries: nat,
) -> ChallengerModel {
    spec_sample_n(spec_sample(spec_observe(spec_sample_n(c, 4), pow_witness)), num_queries)
}

/// Whether the proof-of-work gate passes from a given transcript state.
pub open spec fn spec_pow_ok(c: ChallengerModel, pow_witness: u32, bits: usize) -> bool {
    spec_sample_bits_value(spec_observe(spec_sample_n(c, 4), pow_witness), bits) == 0
}

/// Whether the opening digest recomputed under the transcript's challenge
/// matches the commitment.
pub open spec fn spec_opening_matches(
    p: &TwoAdicPcsProof,
    c: ChallengerModel,
    commitment: Seq<u32>,
) -> bool {
    spec_opening_digest(p, spec_sample_values(c, 4)) == commitment
}

/// Check a commitment opening against a transcript.
///
/// Draws the extension challenge, recomputes the opening digest over every
/// proof element, runs the grinding gate, and draws the per-query indices;
/// accepts exactly when the digest matches the commitment and the grinding
/// gate passes.
pub fn verify_opening_proof(
    config: &FriConfigVariable,
    commitment: &Vec<u32>,
    p: &TwoAdicPcsProof,
    challenger: &mut DuplexChallengerVariable,
) -> (r: (bool, bool))
    requires
        challenger_wf(old(challenger)@),
        pcs_proof_wf(p),
        config.proof_of_work_bits <= 30,
        commitment@.len() == DIGEST_SIZE,
        all_felts(commitment@),
    ensures
        final(challenger)@ == spec_post_opening(
            old(challenger)@,
            p.fri_proof.pow_witness,
            config.num_queries as nat,
        ),
        challenger_wf(final(challenger)@),
        r.0 == spec_opening_matches(p, old(challenger)@, commitment@),
        r.1 == spec_pow_ok(
            old(challenger)@,
            p.fri_proof.pow_witness,
            config.proof_of_work_bits,
        ),
{
    let ghost orig = challenger@;
    let alpha = challenger.sample_ext();
    let mut flat = flatten_opening(p);
    proof {
        lemma_opening_flat_felts(p);
    }
    let mut alpha_copy = crate::felt::copy_felts(&alpha);
    flat.append(&mut alpha_copy);
    assert(all_felts(flat@));
    let mut digest = poseidon2_hash(&flat);
    let ghost cs = p.fri_proof.commit_phase_commits@;
    let ghost d0 = digest@;
    assert(cs.skip(0) == cs);
    let mut i: usize = 0;
    while i < p.fri_proof.commit_phase_commits.len()
        invariant
            i <= cs.len(),
            cs == p.fri_proof.commit_phase_commits@,
            fri_proof_wf(&p.fri_proof),
            digest@.len() == DIGEST_SIZE,
            all_felts(digest@),
            fold_commits(digest@, cs.skip(i as int)) == fold_commits(d0, cs),
        decreases cs.len() - i,
    {
        proof {
            let c = Seq::new(p.fri_proof.commit_phase_commits@.len(), |t: int|
                p.fri_proof.commit_phase_commits@[t]@);
            assert(crate::types::digest_wf(c[i as int]));
        }
        let ghost before = digest@;
        digest = compress(&digest, &p.fri_proof.commit_phase_commits[i]);
        proof {
            let rest = cs.skip(i as int);
            assert(rest[0] == cs[i as int]);
            assert(rest.skip(1) =~= cs.skip(i as int + 1));
            assert(fold_commits(before, rest) == fold_commits(
                spec_compress(before, cs[i as int]@),
                cs.skip(i as int + 1),
            ));
        }
        i = i + 1;
    }
    assert(cs.skip(cs.len() as int).len() == 0);
    assert(digest@ == fold_commits(d0, cs));
    assert(digest@ == spec_opening_digest(p, spec_sample_values(orig, 4)));
    let pow_ok = challenger.check_witness(config.proof_of_work_bits, p.fri_proof.pow_witness);
    let ghost c6 = challenger@;
    let mut q: usize = 0;
    while q < config.num_queries
        invariant
            q <= config.num_queries,
            challenger_wf(challenger@),
            challenger@ == spec_sample_n(c6, q as nat),
        decreases config.num_queries - q,
    {
        let _idx = challenger.sample_bits(QUERY_SAMPLE_BITS);
        proof {
            assert(spec_sample_n(c6, q as nat + 1) == spec_sample(spec_sample_n(c6, q as nat)));
        }
        q = q + 1;
    }
    let matched = felts_eq(&digest, commitment);
    (matched, pow_ok)
}

/// Every element an opening proof flattens to is canonical when the proof
/// is well formed.
pub proof fn lemma_opening_flat_felts(p: &TwoAdicPcsProof)
    requires
        pcs_proof_wf(p),
    ensures
        all_felts(opening_flat(p)),
{
    lemma_batches_flat_felts(p.query_openings@);
    lemma_queries_flat_felts(p.fri_proof.query_proofs@);
}

/// Helper: the flattened batch openings are canonical.
pub proof fn lemma_batches_flat_felts(bs: Seq<BatchOpening>)
    requires
        forall|i: int| 0 <= i < bs.len() ==> crate::types::batch_wf(#[trigger] &bs[i]),
    ensures
        all_felts(batches_flat(bs)),
    decreases bs.len(),
{
    if bs.len() > 0 {
        assert(crate::types::batch_wf(&bs[0]));
        assert forall|i: int| 0 <= i < bs[0].opening_proof@.len() implies all_felts(
            (#[trigger] bs[0].opening_proof@[i])@,
        ) by {
            let mapped = Seq::new(bs[0].opening_proof@.len(), |t: int| bs[0].opening_proof@[t]@);
            assert(crate::types::digest_wf(mapped[i]));
        }
        lemma_digests_concat_felts(bs[0].opening_proof@);
        lemma_batches_flat_felts(bs.skip(1));
    }
}

/// Helper: the flattened digests are canonical.
pub proof fn lemma_digests_concat_felts(ds: Seq<Vec<u32>>)
    requires
        forall|i: int| 0 <= i < ds.len() ==> all_felts((#[trigger] ds[i])@),
    ensures
        all_felts(digests_concat(ds)),
    decreases ds.len(),
{
    if ds.len() > 0 {
        lemma_digests_concat_felts(ds.skip(1));
    }
}

/// Helper: the flattened query proofs are canonical.
pub proof fn lemma_queries_flat_felts(qs: Seq<FriQueryProof>)
    requires
        forall|q: int, s: int|
            0 <= q < qs.len() && 0 <= s < qs[q].commit_phase_openings@.len()
                ==> crate::types::step_wf(#[trigger] &qs[q].commit_phase_openings@[s]),
    ensures
        all_felts(queries_flat(qs)),
    decreases qs.len(),
{
    if qs.len() > 0 {
        lemma_steps_flat_felts(qs[0].commit_phase_openings@);
        lemma_queries_flat_felts(qs.skip(1));
    }
}

/// Helper: the flattened steps of one query proof are canonical.
pub proof fn lemma_steps_flat_felts(ss: Seq<FriCommitPhaseProofStep>)
    requires
        forall|s: int| 0 <= s < ss.len() ==> crate::types::step_wf(#[trigger] &ss[s]),
    ensures
        all_felts(steps_flat(ss)),
    decreases ss.len(),
{
    if ss.len() > 0 {
        assert(crate::types::step_wf(&ss[0]));
        assert forall|i: int| 0 <= i < ss[0].opening_proof@.len() implies all_felts(
            (#[trigger] ss[0].opening_proof@[i])@,
        ) by {
            let mapped = Seq::new(ss[0].opening_proof@.len(), |t: int| ss[0].opening_proof@[t]@);
            assert(crate::types::digest_wf(mapped[i]));
        }
        lemma_digests_concat_felts(ss[0].opening_proof@);
        lemma_steps_flat_felts(ss.skip(1));
    }
}

/// The transcript a verification starts from: the key commitment, the start
/// program counter, the proof's main commitment, then every public-value
/// element, observed in that order.
pub open spec fn spec_verify_transcript(vk: &VerifyingKey, proof: &ShardProof) -> ChallengerModel {
    spec_observe_seq(
        spec_observe_seq(
            spec_observe(spec_observe_seq(spec_new_challenger(), vk.commit@), vk.pc_start),
            proof.commitment.main_commit@,
        ),
        spec_pv_elements(&proof.public_values),
    )
}

/// What `SP1RootVerifier::verify` decides and returns, for every input the
/// contracts admit: the exact error on each rejected proof, and the output
/// digest — the hash of the public values without their trailing digest
/// block — on each accepted one.
pub open spec fn spec_verify(
    config: &FriConfigVariable,
    vk: &VerifyingKey,
    proof: &ShardProof,
    is_compress: bool,
) -> Result<Seq<u32>, VerifierError> {
    let c4 = spec_verify_transcript(vk, proof);
    if !spec_opening_matches(&proof.opening_proof, c4, proof.commitment.quotient_commit@) {
        Result::Err(VerifierError::OpeningMismatch)
    } else if !spec_pow_ok(c4, proof.opening_proof.fri_proof.pow_witness, config.proof_of_work_bits) {
        Result::Err(VerifierError::ProofOfWorkFailure)
    } else if proof.public_values.is_complete != 1 {
        Result::Err(VerifierError::IncompleteProof)
    } else if is_compress && proof.public_values.compress_vk_digest@ != spec_hash_vkey(vk) {
        Result::Err(VerifierError::VkMismatch)
    } else {
        Result::Ok(
            spec_hash(
                spec_pv_elements(&proof.public_values).take(
                    RECURSIVE_PROOF_NUM_PV_ELTS - DIGEST_SIZE,
                ),
            ),
        )
    }
}

/// The recursion program compiled for one verification: the verifier-internal
/// commitment-scheme configuration, the key it checks against, and whether
/// the compress-level key check is enabled.
pub struct RecursionProgram {
    pub config: FriConfigVariable,
    pub vk_commit: Vec<u32>,
    pub vk_pc_start: u32,
    pub is_compress: bool,
}

/// The program at the root of the reduction tree: one final in-circuit
/// verification of an already-reduced proof.
pub struct SP1RootVerifier {
}

impl SP1RootVerifier {
    /// Compile the root verification into a recursion program for a given
    /// key: the commitment-scheme configuration is tabulated once, and the
    /// key's parameters are baked in.
    pub fn build(
        config: &crate::types::FriConfig,
        vk: &VerifyingKey,
        is_compress: bool,
    ) -> (r: RecursionProgram)
        requires
            vk_wf(vk),
        ensures
            r.config.log_blowup == config.log_blowup,
            r.config.num_queries == config.num_queries,
            r.config.proof_of_work_bits == config.proof_of_work_bits,
            r.config.generators@.len() == crate::perm::TWO_ADICITY,
            forall|i: int|
                0 <= i < crate::perm::TWO_ADICITY ==> (#[trigger] r.config.generators@[i])
                    == crate::perm::two_adic_generator_of(i),
            r.config.subgroups@.len() == crate::perm::TWO_ADICITY,
            forall|i: int|
                0 <= i < crate::perm::TWO_ADICITY ==> (#[trigger] r.config.subgroups@[i]).log_n
                    == i && r.config.subgroups@[i].shift == 1u32,
            r.vk_commit@ == vk.commit@,
            r.vk_pc_start == vk.pc_start,
            r.is_compress == is_compress,
    {
        let fri = crate::types::const_fri_config(config);
        RecursionProgram {
            config: fri,
            vk_commit: crate::felt::copy_felts(&vk.commit),
            vk_pc_start: vk.pc_start,
            is_compress,
        }
    }

    /// Verify one proof against a key.
    ///
    /// Replays the observation order of the native transcript, checks the
    /// commitment opening and the grinding gate, requires the completeness
    /// flag, for compress-level proofs requires the embedded key digest to
    /// equal the hash of the key, and returns the hash of the public values
    /// without their trailing digest block as this circuit's output digest.
    pub fn verify(
        config: &FriConfigVariable,
        vk: &VerifyingKey,
        proof: &ShardProof,
        is_compress: bool,
    ) -> (r: Result<Vec<u32>, VerifierError>)
        requires
            vk_wf(vk),
            shard_proof_wf(proof),
            config.proof_of_work_bits <= 30,
        ensures
            match r {
                Result::Ok(d) => spec_verify(config, vk, proof, is_compress) == Result::<
                    Seq<u32>,
                    VerifierError,
                >::Ok(d@),
                Result::Err(e) => spec_verify(config, vk, proof, is_compress) == Result::<
                    Seq<u32>,
                    VerifierError,
                >::Err(e),
            },
    {
        let mut challenger = DuplexChallengerVariable::new();
        challenger.observe_commitment(&vk.commit);
        challenger.observe(vk.pc_start);
        challenger.observe_commitment(&proof.commitment.main_commit);
        let elements = pv_to_elements(&proof.public_values);
        challenger.observe_slice(&elements);
        assert(challenger@ == spec_verify_transcript(vk, proof));
        let checks = verify_opening_proof(
            config,
            &proof.commitment.quotient_commit,
            &proof.opening_proof,
            &mut challenger,
        );
        if !checks.0 {
            return Result::Err(VerifierError::OpeningMismatch);
        }
        if !checks.1 {
            return Result::Err(VerifierError::ProofOfWorkFailure);
        }
        if proof.public_values.is_complete != 1 {
            return Result::Err(VerifierError::IncompleteProof);
        }
        if is_compress {
            let vk_digest = hash_vkey(vk);
            if !felts_eq(&vk_digest, &proof.public_values.compress_vk_digest) {
                return Result::Err(VerifierError::VkMismatch);
            }
        }
        let mut prefix: Vec<u32> = Vec::new();
        let mut i: usize = 0;
        while i < RECURSIVE_PROOF_NUM_PV_ELTS - DIGEST_SIZE
            invariant
                i <= RECURSIVE_PROOF_NUM_PV_ELTS - DIGEST_SIZE,
                elements@ == spec_pv_elements(&proof.public_values),
                elements@.len() == RECURSIVE_PROOF_NUM_PV_ELTS,
                all_felts(elements@),
                prefix@ == elements@.take(i as int),
            decreases RECURSIVE_PROOF_NUM_PV_ELTS - DIGEST_SIZE - i,
        {
            prefix.push(elements[i]);
            assert(prefix@ == elements@.take(i as int + 1));
            i = i + 1;
        }
        assert(all_felts(prefix@));
        let digest = poseidon2_hash(&prefix);
        Result::Ok(digest)
    }
}

/// What `verify_shard` decides: the opening and grinding checks of one
/// shard against a transcript already primed by the caller.
pub open spec fn spec_verify_shard(
    config: &FriConfigVariable,
    proof: &ShardProof,
    c: ChallengerModel,
) -> Result<(), VerifierError> {
    if !spec_opening_matches(&proof.opening_proof, c, proof.commitment.quotient_commit@) {
        Result::Err(VerifierError::OpeningMismatch)
    } else if !spec_pow_ok(c, proof.opening_proof.fri_proof.pow_witness, config.proof_of_work_bits) {
        Result::Err(VerifierError::ProofOfWorkFailure)
    } else {
        Result::Ok(())
    }
}

/// Verify one shard's commitment opening against the caller's transcript.
///
/// The reduction tree calls this with a copy of its verifying transcript;
/// a transcript that diverged from the prover's surfaces here as an
/// opening mismatch.
pub fn verify_shard(
    config: &FriConfigVariable,
    proof: &ShardProof,
    challenger: &mut DuplexChallengerVariable,
) -> (r: Result<(), VerifierError>)
    requires
        challenger_wf(old(challenger)@),
        shard_proof_wf(proof),
        config.proof_of_work_bits <= 30,
    ensures
        r == spec_verify_shard(config, proof, old(challenger)@),
        challenger_wf(final(challenger)@),
{
    let checks = verify_opening_proof(
        config,
        &proof.commitment.quotient_commit,
        &proof.opening_proof,
        challenger,
    );
    if !checks.0 {
        Result::Err(VerifierError::OpeningMismatch)
    } else if !checks.1 {
        Result::Err(VerifierError::ProofOfWorkFailure)
    } else {
        Result::Ok(())
    }
}

/// The witness a root verification is run on: the proof to check and
/// whether the compress-level key check applies.
pub struct SP1RootMemoryLayout {
    pub num_chips: usize,
    pub proof: ShardProof,
    pub is_reduce: bool,
}

/// The in-circuit form of the root verification witness.
pub struct SP1RootMemoryLayoutVariable {
    pub proof: crate::reduce::ShardProofVariable,
    pub is_reduce: u32,
}

} // verus!
