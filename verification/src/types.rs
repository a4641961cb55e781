//! The artifacts the recursive verifier consumes: verifying keys, shard
//! proofs with their commitment openings, recursion public values, and the
//! commitment-scheme configuration.
//!
//! The `const_*` functions build the verifier's internal form of each
//! artifact, rejecting structurally malformed input.

use vstd::prelude::*;
use crate::felt::{is_felt, all_felts};
use crate::perm::{two_adic_generator, two_adic_generator_of, DIGEST_SIZE, TWO_ADICITY};
use crate::challenger::DuplexChallengerVariable;

verus! {

/// A digest is well formed when it holds one commitment's worth of
/// canonical field elements.
pub open spec fn digest_wf(d: Seq<u32>) -> bool {
    d.len() == DIGEST_SIZE && all_felts(d)
}

/// Every digest in a list well formed.
pub open spec fn digests_wf(ds: Seq<Seq<u32>>) -> bool {
    forall|i: int| 0 <= i < ds.len() ==> digest_wf(#[trigger] ds[i])
}

/// A commitment to preprocessed columns, with the start program counter:
/// immutable, shared across all verifications in a session.
pub struct VerifyingKey {
    pub commit: Vec<u32>,
    pub pc_start: u32,
}

/// Well-formedness of a verifying key.
pub open spec fn vk_wf(vk: &VerifyingKey) -> bool {
    digest_wf(vk.commit@) && is_felt(vk.pc_start)
}

/// The three commitments of one shard proof.
pub struct ShardCommitment {
    pub main_commit: Vec<u32>,
    pub permutation_commit: Vec<u32>,
    pub quotient_commit: Vec<u32>,
}

/// Well-formedness of a shard commitment.
pub open spec fn commitment_wf(c: &ShardCommitment) -> bool {
    digest_wf(c.main_commit@) && digest_wf(c.permutation_commit@) && digest_wf(c.quotient_commit@)
}

/// One step of a FRI query proof: the sibling value opened at this layer
/// and the digest path authenticating it.
pub struct FriCommitPhaseProofStep {
    pub sibling_value: Vec<u32>,
    pub opening_proof: Vec<Vec<u32>>,
}

/// One FRI query proof: its per-layer steps.
pub struct FriQueryProof {
    pub commit_phase_openings: Vec<FriCommitPhaseProofStep>,
}

/// The FRI proof inside an opening proof.
pub struct FriProof {
    pub commit_phase_commits: Vec<Vec<u32>>,
    pub query_proofs: Vec<FriQueryProof>,
    pub final_poly: Vec<u32>,
    pub pow_witness: u32,
}

/// One batch opening: the values opened and the digest path for the batch.
pub struct BatchOpening {
    pub opened_values: Vec<u32>,
    pub opening_proof: Vec<Vec<u32>>,
}

/// The full opening proof of one shard: FRI proof plus per-query batch
/// openings.
pub struct TwoAdicPcsProof {
    pub fri_proof: FriProof,
    pub query_openings: Vec<BatchOpening>,
}

/// Well-formedness of one FRI step.
pub open spec fn step_wf(s: &FriCommitPhaseProofStep) -> bool {
    s.sibling_value@.len() == 4 && all_felts(s.sibling_value@) && digests_wf(
        Seq::new(s.opening_proof@.len(), |i: int| s.opening_proof@[i]@),
    )
}

/// Well-formedness of a FRI proof.
pub open spec fn fri_proof_wf(p: &FriProof) -> bool {
    &&& digests_wf(Seq::new(p.commit_phase_commits@.len(), |i: int| p.commit_phase_commits@[i]@))
    &&& forall|q: int, s: int|
        0 <= q < p.query_proofs@.len() && 0 <= s
            < p.query_proofs@[q].commit_phase_openings@.len() ==> step_wf(
            #[trigger] &p.query_proofs@[q].commit_phase_openings@[s],
        )
    &&& p.final_poly@.len() == 4
    &&& all_felts(p.final_poly@)
    &&& is_felt(p.pow_witness)
}

/// Well-formedness of one batch opening.
pub open spec fn batch_wf(b: &BatchOpening) -> bool {
    all_felts(b.opened_values@) && digests_wf(
        Seq::new(b.opening_proof@.len(), |i: int| b.opening_proof@[i]@),
    )
}

/// Well-formedness of a full opening proof.
pub open spec fn pcs_proof_wf(p: &TwoAdicPcsProof) -> bool {
    fri_proof_wf(&p.fri_proof) && forall|i: int|
        0 <= i < p.query_openings@.len() ==> batch_wf(#[trigger] &p.query_openings@[i])
}

/// The structured public values a recursive proof exposes: the completeness
/// flag, the transcript snapshots the reduction tree checks continuity
/// against, the key digests, and the trailing output digest.
pub struct RecursionPublicValues {
    pub is_complete: u32,
    pub challenger: DuplexChallengerVariable,
    pub reconstruct_challenger: DuplexChallengerVariable,
    pub pre_challenger: DuplexChallengerVariable,
    pub pre_reconstruct_challenger: DuplexChallengerVariable,
    pub verify_start_challenger: DuplexChallengerVariable,
    pub vk_digest: Vec<u32>,
    pub compress_vk_digest: Vec<u32>,
    pub output_digest: Vec<u32>,
}

/// Well-formedness of recursion public values.
pub open spec fn pv_wf(pv: &RecursionPublicValues) -> bool {
    &&& is_felt(pv.is_complete)
    &&& crate::challenger::challenger_wf(pv.challenger@)
    &&& crate::challenger::challenger_wf(pv.reconstruct_challenger@)
    &&& crate::challenger::challenger_wf(pv.pre_challenger@)
    &&& crate::challenger::challenger_wf(pv.pre_reconstruct_challenger@)
    &&& crate::challenger::challenger_wf(pv.verify_start_challenger@)
    &&& digest_wf(pv.vk_digest@)
    &&& digest_wf(pv.compress_vk_digest@)
    &&& digest_wf(pv.output_digest@)
}

/// One shard proof: produced once externally, consumed read-only here.
pub struct ShardProof {
    pub index: usize,
    pub commitment: ShardCommitment,
    pub opened_values: Vec<Vec<u32>>,
    pub opening_proof: TwoAdicPcsProof,
    pub chip_ordering: Vec<usize>,
    pub public_values: RecursionPublicValues,
    pub public_values_digest: Vec<u32>,
}

/// Well-formedness of a shard proof.
pub open spec fn shard_proof_wf(p: &ShardProof) -> bool {
    &&& commitment_wf(&p.commitment)
    &&& forall|i: int| 0 <= i < p.opened_values@.len() ==> all_felts((#[trigger] p.opened_values@[i])@)
    &&& pcs_proof_wf(&p.opening_proof)
    &&& pv_wf(&p.public_values)
    &&& digest_wf(p.public_values_digest@)
}

/// The spec-level flattening of a transcript snapshot into its fixed-width
/// public-value encoding: the sponge, then the input count and the inputs
/// zero-padded to the rate, then the output count and the outputs likewise.
pub open spec fn spec_flatten_challenger(c: crate::challenger::ChallengerModel) -> Seq<u32> {
    c.sponge + seq![c.inputs.len() as u32] + c.inputs + Seq::new(
        (crate::perm::SPONGE_RATE - c.inputs.len()) as nat,
        |i: int| 0u32,
    ) + seq![c.outputs.len() as u32] + c.outputs + Seq::new(
        (crate::perm::SPONGE_RATE - c.outputs.len()) as nat,
        |i: int| 0u32,
    )
}

/// Flatten a transcript snapshot into its public-value encoding.
pub fn flatten_challenger(c: &DuplexChallengerVariable) -> (r: Vec<u32>)
    requires
        crate::challenger::challenger_wf(c@),
    ensures
        r@ == spec_flatten_challenger(c@),
        all_felts(r@),
        r@.len() == 34,
{
    let mut r = crate::felt::copy_felts(&c.sponge_state);
    r.push(c.input_buffer.len() as u32);
    let mut part = crate::felt::copy_felts(&c.input_buffer);
    r.append(&mut part);
    let mut i: usize = c.input_buffer.len();
    let ghost mid1 = r@;
    while i < crate::perm::SPONGE_RATE
        invariant
            c.input_buffer@.len() <= i,
            i <= crate::perm::SPONGE_RATE,
            r@ == mid1 + Seq::new((i - c.input_buffer@.len()) as nat, |t: int| 0u32),
        decreases crate::perm::SPONGE_RATE - i,
    {
        r.push(0);
        assert(r@ =~= mid1 + Seq::new((i + 1 - c.input_buffer@.len()) as nat, |t: int| 0u32));
        i = i + 1;
    }
    r.push(c.output_buffer.len() as u32);
    let mut part = crate::felt::copy_felts(&c.output_buffer);
    r.append(&mut part);
    let mut i: usize = c.output_buffer.len();
    let ghost mid2 = r@;
    while i < crate::perm::SPONGE_RATE
        invariant
            c.output_buffer@.len() <= i,
            i <= crate::perm::SPONGE_RATE,
            r@ == mid2 + Seq::new((i - c.output_buffer@.len()) as nat, |t: int| 0u32),
        decreases crate::perm::SPONGE_RATE - i,
    {
        r.push(0);
        assert(r@ =~= mid2 + Seq::new((i + 1 - c.output_buffer@.len()) as nat, |t: int| 0u32));
        i = i + 1;
    }
    proof {
        assert(mid1 =~= c@.sponge + seq![c@.inputs.len() as u32] + c@.inputs);
        assert(r@ =~= spec_flatten_challenger(c@));
    }
    r
}

/// The spec-level element sequence of a proof's public values, in the order
/// the transcript observes them; the output digest comes last.
pub open spec fn spec_pv_elements(pv: &RecursionPublicValues) -> Seq<u32> {
    seq![pv.is_complete] + spec_flatten_challenger(pv.challenger@) + spec_flatten_challenger(
        pv.reconstruct_challenger@,
    ) + spec_flatten_challenger(pv.pre_challenger@) + spec_flatten_challenger(
        pv.pre_reconstruct_challenger@,
    ) + spec_flatten_challenger(pv.verify_start_challenger@) + pv.vk_digest@
        + pv.compress_vk_digest@ + pv.output_digest@
}

/// The number of public-value elements of a recursive proof.
pub const RECURSIVE_PROOF_NUM_PV_ELTS: usize = 195;

/// Flatten a proof's public values into the element sequence the transcript
/// observes.
pub fn pv_to_elements(pv: &RecursionPublicValues) -> (r: Vec<u32>)
    requires
        pv_wf(pv),
    ensures
        r@ == spec_pv_elements(pv),
        all_felts(r@),
        r@.len() == RECURSIVE_PROOF_NUM_PV_ELTS,
{
    let mut r: Vec<u32> = Vec::new();
    r.push(pv.is_complete);
    let mut part = flatten_challenger(&pv.challenger);
    r.append(&mut part);
    let mut part = flatten_challenger(&pv.reconstruct_challenger);
    r.append(&mut part);
    let mut part = flatten_challenger(&pv.pre_challenger);
    r.append(&mut part);
    let mut part = flatten_challenger(&pv.pre_reconstruct_challenger);
    r.append(&mut part);
    let mut part = flatten_challenger(&pv.verify_start_challenger);
    r.append(&mut part);
    let mut part = crate::felt::copy_felts(&pv.vk_digest);
    r.append(&mut part);
    let mut part = crate::felt::copy_felts(&pv.compress_vk_digest);
    r.append(&mut part);
    let mut part = crate::felt::copy_felts(&pv.output_digest);
    r.append(&mut part);
    assert(r@ =~= spec_pv_elements(pv));
    r
}

/// The commitment-scheme configuration: blowup, query count, grinding bits.
pub struct FriConfig {
    pub log_blowup: usize,
    pub num_queries: usize,
    pub proof_of_work_bits: usize,
}

/// One two-adic multiplicative coset, described by its log-size and shift.
pub struct TwoAdicMultiplicativeCosetVariable {
    pub log_n: u32,
    pub shift: u32,
}

/// The verifier-internal form of the commitment-scheme configuration, with
/// the subgroup generators and domains precomputed per size.
pub struct FriConfigVariable {
    pub log_blowup: usize,
    pub num_queries: usize,
    pub proof_of_work_bits: usize,
    pub generators: Vec<u32>,
    pub subgroups: Vec<TwoAdicMultiplicativeCosetVariable>,
}

/// Build the verifier-internal commitment-scheme configuration: the scalar
/// parameters are carried over, and for every admissible log-size the
/// subgroup generator and the unit-shift domain are tabulated.
pub fn const_fri_config(config: &FriConfig) -> (r: FriConfigVariable)
    ensures
        r.log_blowup == config.log_blowup,
        r.num_queries == config.num_queries,
        r.proof_of_work_bits == config.proof_of_work_bits,
        r.generators@.len() == TWO_ADICITY,
        forall|i: int|
            0 <= i < TWO_ADICITY ==> (#[trigger] r.generators@[i]) == two_adic_generator_of(i),
        r.subgroups@.len() == TWO_ADICITY,
        forall|i: int|
            0 <= i < TWO_ADICITY ==> (#[trigger] r.subgroups@[i]).log_n == i
                && r.subgroups@[i].shift == 1u32,
        all_felts(r.generators@),
{
    let mut generators: Vec<u32> = Vec::new();
    let mut subgroups: Vec<TwoAdicMultiplicativeCosetVariable> = Vec::new();
    let mut i: usize = 0;
    while i < TWO_ADICITY
        invariant
            i <= TWO_ADICITY,
            generators@.len() == i,
            subgroups@.len() == i,
            forall|t: int|
                0 <= t < i ==> (#[trigger] generators@[t]) == two_adic_generator_of(t) && is_felt(
                    generators@[t],
                ),
            forall|t: int|
                0 <= t < i ==> (#[trigger] subgroups@[t]).log_n == t && subgroups@[t].shift
                    == 1u32,
        decreases TWO_ADICITY - i,
    {
        let g = two_adic_generator(i);
        generators.push(g);
        subgroups.push(TwoAdicMultiplicativeCosetVariable { log_n: i as u32, shift: 1 });
        i = i + 1;
    }
    FriConfigVariable {
        log_blowup: config.log_blowup,
        num_queries: config.num_queries,
        proof_of_work_bits: config.proof_of_work_bits,
        generators,
        subgroups,
    }
}

} // verus!
