//! The reduction tree: folds many shard proofs into one, invoking the shard
//! verifier at each node and checking transcript continuity between folded
//! shards by field-wise equality of snapshots, never by re-derivation.
//!
//! The `const_*` functions admit a proof artifact into the verifier's
//! internal form exactly when it is structurally well formed.

use vstd::prelude::*;
use crate::felt::{is_felt, all_felts, FIELD_PRIME};
use crate::perm::DIGEST_SIZE;
use crate::challenger::{
    DuplexChallengerVariable, ChallengerModel, challenger_wf, spec_new_challenger,
    spec_observe_seq, assert_challenger_eq,
};
use crate::types::{
    VerifyingKey, ShardProof, ShardCommitment, TwoAdicPcsProof, FriProof, FriQueryProof,
    FriCommitPhaseProofStep, BatchOpening, RecursionPublicValues, FriConfigVariable, vk_wf,
    shard_proof_wf, pcs_proof_wf, fri_proof_wf, batch_wf, step_wf, commitment_wf, pv_wf,
    digest_wf, digests_wf,
};
use crate::root::{VerifierError, spec_verify_shard, verify_shard, hash_vkey, spec_hash_vkey};

verus! {

/// Check that every element of a vector is canonical.
pub fn check_felts(v: &Vec<u32>) -> (r: bool)
    ensures
        r == all_felts(v@),
{
    let mut i: usize = 0;
    while i < v.len()
        invariant
            i <= v@.len(),
            forall|t: int| 0 <= t < i ==> is_felt(#[trigger] v@[t]),
        decreases v@.len() - i,
    {
        if v[i] >= FIELD_PRIME {
            assert(!is_felt(v@[i as int]));
            return false;
        }
        i = i + 1;
    }
    true
}

/// Check that a vector is one well-formed digest.
pub fn check_digest(v: &Vec<u32>) -> (r: bool)
    ensures
        r == digest_wf(v@),
{
    if v.len() != DIGEST_SIZE {
        return false;
    }
    check_felts(v)
}

/// Check that every vector in a list is a well-formed digest.
pub fn check_digests(v: &Vec<Vec<u32>>) -> (r: bool)
    ensures
        r == digests_wf(Seq::new(v@.len(), |i: int| v@[i]@)),
{
    let ghost mapped = Seq::new(v@.len(), |i: int| v@[i]@);
    let mut i: usize = 0;
    while i < v.len()
        invariant
            i <= v@.len(),
            mapped == Seq::new(v@.len(), |t: int| v@[t]@),
            forall|t: int| 0 <= t < i ==> digest_wf(#[trigger] mapped[t]),
        decreases v@.len() - i,
    {
        if !check_digest(&v[i]) {
            assert(!digest_wf(mapped[i as int]));
            return false;
        }
        assert(digest_wf(mapped[i as int]));
        i = i + 1;
    }
    true
}

/// Check one FRI query-proof step.
pub fn check_step(s: &FriCommitPhaseProofStep) -> (r: bool)
    ensures
        r == step_wf(s),
{
    if s.sibling_value.len() != 4 {
        return false;
    }
    if !check_felts(&s.sibling_value) {
        return false;
    }
    check_digests(&s.opening_proof)
}

/// Admit a FRI proof into the verifier's internal form: the commit-phase
/// commitments, every query-proof step, the final polynomial and the
/// grinding witness are checked for shape and canonicity, and a malformed
/// proof is rejected.
pub fn const_fri_proof(p: FriProof) -> (r: Result<FriProof, VerifierError>)
    ensures
        match r {
            Result::Ok(out) => fri_proof_wf(&p) && out == p,
            Result::Err(e) => !fri_proof_wf(&p) && e == VerifierError::MalformedProof,
        },
{
    if !check_digests(&p.commit_phase_commits) {
        return Result::Err(VerifierError::MalformedProof);
    }
    let mut q: usize = 0;
    while q < p.query_proofs.len()
        invariant
            q <= p.query_proofs@.len(),
            forall|a: int, b: int|
                0 <= a < q && 0 <= b < p.query_proofs@[a].commit_phase_openings@.len() ==> step_wf(
                    #[trigger] &p.query_proofs@[a].commit_phase_openings@[b],
                ),
        decreases p.query_proofs@.len() - q,
    {
        let steps = &p.query_proofs[q].commit_phase_openings;
        let mut t: usize = 0;
        while t < steps.len()
            invariant
                t <= steps@.len(),
                q < p.query_proofs@.len(),
                steps@ == p.query_proofs@[q as int].commit_phase_openings@,
                forall|b: int| 0 <= b < t ==> step_wf(#[trigger] &steps@[b]),
            decreases steps@.len() - t,
        {
            if !check_step(&steps[t]) {
                assert(!step_wf(&p.query_proofs@[q as int].commit_phase_openings@[t as int]));
                return Result::Err(VerifierError::MalformedProof);
            }
            t = t + 1;
        }
        q = q + 1;
    }
    if p.final_poly.len() != 4 {
        return Result::Err(VerifierError::MalformedProof);
    }
    if !check_felts(&p.final_poly) {
        return Result::Err(VerifierError::MalformedProof);
    }
    if p.pow_witness >= FIELD_PRIME {
        return Result::Err(VerifierError::MalformedProof);
    }
    Result::Ok(p)
}

/// Check one batch opening.
pub fn check_batch(b: &BatchOpening) -> (r: bool)
    ensures
        r == batch_wf(b),
{
    if !check_felts(&b.opened_values) {
        return false;
    }
    check_digests(&b.opening_proof)
}

/// Admit a full opening proof into the verifier's internal form: the FRI
/// proof and every batch opening are checked, and a malformed proof is
/// rejected.
pub fn const_two_adic_pcs_proof(p: TwoAdicPcsProof) -> (r: Result<TwoAdicPcsProof, VerifierError>)
    ensures
        match r {
            Result::Ok(out) => pcs_proof_wf(&p) && out == p,
            Result::Err(e) => !pcs_proof_wf(&p) && e == VerifierError::MalformedProof,
        },
{
    let mut i: usize = 0;
    while i < p.query_openings.len()
        invariant
            i <= p.query_openings@.len(),
            forall|t: int| 0 <= t < i ==> batch_wf(#[trigger] &p.query_openings@[t]),
        decreases p.query_openings@.len() - i,
    {
        if !check_batch(&p.query_openings[i]) {
            assert(!batch_wf(&p.query_openings@[i as int]));
            return Result::Err(VerifierError::MalformedProof);
        }
        i = i + 1;
    }
    let fri = const_fri_proof(p.fri_proof);
    match fri {
        Result::Ok(f) => Result::Ok(TwoAdicPcsProof { fri_proof: f, query_openings: p.query_openings }),
        Result::Err(e) => Result::Err(e),
    }
}

/// Check a transcript snapshot for well-formedness.
pub fn check_challenger(c: &DuplexChallengerVariable) -> (r: bool)
    ensures
        r == challenger_wf(c@),
{
    if c.sponge_state.len() != crate::perm::PERMUTATION_WIDTH {
        return false;
    }
    if c.input_buffer.len() >= crate::perm::SPONGE_RATE {
        return false;
    }
    if c.output_buffer.len() > crate::perm::SPONGE_RATE {
        return false;
    }
    let a = check_felts(&c.sponge_state);
    let b = check_felts(&c.input_buffer);
    let d = check_felts(&c.output_buffer);
    a && b && d
}

/// Check recursion public values for well-formedness.
pub fn check_pv(pv: &RecursionPublicValues) -> (r: bool)
    ensures
        r == pv_wf(pv),
{
    if pv.is_complete >= FIELD_PRIME {
        return false;
    }
    if !check_challenger(&pv.challenger) {
        return false;
    }
    if !check_challenger(&pv.reconstruct_challenger) {
        return false;
    }
    if !check_challenger(&pv.pre_challenger) {
        return false;
    }
    if !check_challenger(&pv.pre_reconstruct_challenger) {
        return false;
    }
    if !check_challenger(&pv.verify_start_challenger) {
        return false;
    }
    let a = check_digest(&pv.vk_digest);
    let b = check_digest(&pv.compress_vk_digest);
    let d = check_digest(&pv.output_digest);
    a && b && d
}

/// The verifier-internal form of a shard proof: the proof itself and the
/// machine's chip positions resolved against the proof's chip ordering.
pub struct ShardProofVariable {
    pub proof: ShardProof,
    pub sorted_indices: Vec<u32>,
}

/// The chip-position cell for machine chip `i`: its position in the proof's
/// ordering, or the field's minus-one when the proof does not include it.
/// A position at or above the machine's largest possible chip count is
/// likewise treated as absent, which keeps the cell canonical.
pub open spec fn spec_sorted_index(ordering: Seq<usize>, i: int) -> u32 {
    if 0 <= i < ordering.len() && ordering[i] < 0x1_0000 {
        ordering[i] as u32
    } else {
        (FIELD_PRIME - 1) as u32
    }
}

/// Admit one shard proof into the verifier's internal form: every digest,
/// opened value, transcript snapshot and the opening proof are checked, and
/// the machine's chip positions are resolved.
pub fn const_proof(num_chips: usize, proof: ShardProof) -> (r: Result<
    ShardProofVariable,
    VerifierError,
>)
    ensures
        match r {
            Result::Ok(out) => {
                &&& shard_proof_wf(&proof)
                &&& out.proof == proof
                &&& out.sorted_indices@.len() == num_chips
                &&& forall|i: int|
                    0 <= i < num_chips ==> (#[trigger] out.sorted_indices@[i])
                        == spec_sorted_index(proof.chip_ordering@, i)
            },
            Result::Err(e) => !shard_proof_wf(&proof) && e == VerifierError::MalformedProof,
        },
{
    if !check_digest(&proof.commitment.main_commit) {
        return Result::Err(VerifierError::MalformedProof);
    }
    if !check_digest(&proof.commitment.permutation_commit) {
        return Result::Err(VerifierError::MalformedProof);
    }
    if !check_digest(&proof.commitment.quotient_commit) {
        return Result::Err(VerifierError::MalformedProof);
    }
    let mut i: usize = 0;
    while i < proof.opened_values.len()
        invariant
            i <= proof.opened_values@.len(),
            forall|t: int|
                0 <= t < i ==> all_felts((#[trigger] proof.opened_values@[t])@),
        decreases proof.opened_values@.len() - i,
    {
        if !check_felts(&proof.opened_values[i]) {
            assert(!all_felts(proof.opened_values@[i as int]@));
            return Result::Err(VerifierError::MalformedProof);
        }
        i = i + 1;
    }
    if !check_pv(&proof.public_values) {
        return Result::Err(VerifierError::MalformedProof);
    }
    if !check_digest(&proof.public_values_digest) {
        return Result::Err(VerifierError::MalformedProof);
    }
    let mut sorted_indices: Vec<u32> = Vec::new();
    let mut i: usize = 0;
    while i < num_chips
        invariant
            i <= num_chips,
            sorted_indices@.len() == i,
            forall|t: int|
                0 <= t < i ==> (#[trigger] sorted_indices@[t]) == spec_sorted_index(
                    proof.chip_ordering@,
                    t,
                ),
        decreases num_chips - i,
    {
        if i < proof.chip_ordering.len() && proof.chip_ordering[i] < 0x1_0000 {
            sorted_indices.push(proof.chip_ordering[i] as u32);
        } else {
            sorted_indices.push(FIELD_PRIME - 1);
        }
        i = i + 1;
    }
    let pcs = const_two_adic_pcs_proof(proof.opening_proof);
    match pcs {
        Result::Ok(op) => Result::Ok(
            ShardProofVariable {
                proof: ShardProof {
                    index: proof.index,
                    commitment: proof.commitment,
                    opened_values: proof.opened_values,
                    opening_proof: op,
                    chip_ordering: proof.chip_ordering,
                    public_values: proof.public_values,
                    public_values_digest: proof.public_values_digest,
                },
                sorted_indices,
            },
        ),
        Result::Err(e) => Result::Err(e),
    }
}

/// One node input of the reduction tree: a shard proof, marked recursive
/// when it is itself the output of a fold.
pub struct ReduceProof {
    pub proof: ShardProof,
    pub recursive: bool,
}

/// Well-formedness of a reduction input list.
pub open spec fn reduce_proofs_wf(ps: Seq<ReduceProof>) -> bool {
    forall|i: int| 0 <= i < ps.len() ==> shard_proof_wf(#[trigger] &ps[i].proof)
}

/// The reconstruct transcript re-seeded at the first shard: a fresh
/// transcript that has observed the key commitment.
pub open spec fn spec_reseeded(vk: &VerifyingKey) -> ChallengerModel {
    spec_observe_seq(spec_new_challenger(), vk.commit@)
}

/// What one reduction node decides, over a list of proofs: the verifying
/// and reconstruct transcript states it ends with, or the first error.
///
/// A leaf proof at index zero requires the verifying transcript to equal
/// the precomputed start state and re-seeds the reconstruct transcript; a
/// leaf observes its main commitment and has its opening checked against a
/// copy of the verifying transcript. An already-reduced proof must present
/// the current transcripts as its pre-snapshots, hands back its
/// post-snapshots, must carry the same start state, and has its opening
/// checked against a fresh transcript.
pub open spec fn spec_reduce(
    ps: Seq<ReduceProof>,
    vk: &VerifyingKey,
    recursion_vk: &VerifyingKey,
    config: &FriConfigVariable,
    recursion_config: &FriConfigVariable,
    ch: ChallengerModel,
    rc: ChallengerModel,
    vs: ChallengerModel,
) -> Result<(ChallengerModel, ChallengerModel), VerifierError>
    decreases ps.len(),
{
    if ps.len() == 0 {
        Result::Ok((ch, rc))
    } else {
        let p = &ps[0];
        if !p.recursive {
            let rc0 = if p.proof.index == 0 {
                spec_reseeded(vk)
            } else {
                rc
            };
            if p.proof.index == 0 && ch != vs {
                Result::Err(VerifierError::ContinuityMismatch)
            } else {
                let rc1 = spec_observe_seq(rc0, p.proof.commitment.main_commit@);
                match spec_verify_shard(config, &p.proof, ch) {
                    Result::Ok(u) => spec_reduce(
                        ps.skip(1),
                        vk,
                        recursion_vk,
                        config,
                        recursion_config,
                        ch,
                        rc1,
                        vs,
                    ),
                    Result::Err(e) => Result::Err(e),
                }
            }
        } else {
            if rc != p.proof.public_values.pre_reconstruct_challenger@ {
                Result::Err(VerifierError::ContinuityMismatch)
            } else if ch != p.proof.public_values.pre_challenger@ {
                Result::Err(VerifierError::ContinuityMismatch)
            } else if vs != p.proof.public_values.verify_start_challenger@ {
                Result::Err(VerifierError::ContinuityMismatch)
            } else if p.proof.public_values.vk_digest@ != spec_hash_vkey(recursion_vk) {
                Result::Err(VerifierError::VkMismatch)
            } else {
                let ch1 = p.proof.public_values.challenger@;
                let rc1 = p.proof.public_values.reconstruct_challenger@;
                match spec_verify_shard(recursion_config, &p.proof, spec_new_challenger()) {
                    Result::Ok(u) => spec_reduce(
                        ps.skip(1),
                        vk,
                        recursion_vk,
                        config,
                        recursion_config,
                        ch1,
                        rc1,
                        vs,
                    ),
                    Result::Err(e) => Result::Err(e),
                }
            }
        }
    }
}

/// Fold one chunk of proofs: verify each, enforcing transcript continuity
/// across shard boundaries, and leave the verifying and reconstruct
/// transcripts at the states the next chunk starts from.
pub fn rust_reduce(
    proofs: &Vec<ReduceProof>,
    vk: &VerifyingKey,
    recursion_vk: &VerifyingKey,
    config: &FriConfigVariable,
    recursion_config: &FriConfigVariable,
    challenger: &mut DuplexChallengerVariable,
    reconstruct_challenger: &mut DuplexChallengerVariable,
    verify_start_challenger: &DuplexChallengerVariable,
) -> (r: Result<(), VerifierError>)
    requires
        vk_wf(vk),
        vk_wf(recursion_vk),
        reduce_proofs_wf(proofs@),
        challenger_wf(old(challenger)@),
        challenger_wf(old(reconstruct_challenger)@),
        challenger_wf(verify_start_challenger@),
        config.proof_of_work_bits <= 30,
        recursion_config.proof_of_work_bits <= 30,
    ensures
        match r {
            Result::Ok(u) => {
                &&& spec_reduce(
                    proofs@,
                    vk,
                    recursion_vk,
                    config,
                    recursion_config,
                    old(challenger)@,
                    old(reconstruct_challenger)@,
                    verify_start_challenger@,
                ) == Result::<(ChallengerModel, ChallengerModel), VerifierError>::Ok(
                    (final(challenger)@, final(reconstruct_challenger)@),
                )
                &&& challenger_wf(final(challenger)@)
                &&& challenger_wf(final(reconstruct_challenger)@)
            },
            Result::Err(e) => spec_reduce(
                proofs@,
                vk,
                recursion_vk,
                config,
                recursion_config,
                old(challenger)@,
                old(reconstruct_challenger)@,
                verify_start_challenger@,
            ) == Result::<(ChallengerModel, ChallengerModel), VerifierError>::Err(e),
        },
{
    let ghost all = proofs@;
    let ghost vs = verify_start_challenger@;
    assert(all.skip(0) == all);
    let mut i: usize = 0;
    while i < proofs.len()
        invariant
            i <= all.len(),
            all == proofs@,
            vs == verify_start_challenger@,
            vk_wf(vk),
            vk_wf(recursion_vk),
            reduce_proofs_wf(all),
            challenger_wf(challenger@),
            challenger_wf(reconstruct_challenger@),
            challenger_wf(verify_start_challenger@),
            config.proof_of_work_bits <= 30,
            recursion_config.proof_of_work_bits <= 30,
            spec_reduce(all.skip(i as int), vk, recursion_vk, config, recursion_config,
                challenger@, reconstruct_challenger@, vs) == spec_reduce(all, vk, recursion_vk,
                config, recursion_config, old(challenger)@, old(reconstruct_challenger)@, vs),
        decreases all.len() - i,
    {
        let ghost rest = all.skip(i as int);
        proof {
            assert(rest[0] == all[i as int]);
            assert(rest.skip(1) =~= all.skip(i as int + 1));
            assert(shard_proof_wf(&all[i as int].proof));
        }
        let p = &proofs[i];
        if !p.recursive {
            if p.index_is_zero() {
                if !assert_challenger_eq(challenger, verify_start_challenger) {
                    return Result::Err(VerifierError::ContinuityMismatch);
                }
                let mut fresh = DuplexChallengerVariable::new();
                fresh.observe_commitment(&vk.commit);
                *reconstruct_challenger = fresh;
            }
            reconstruct_challenger.observe_commitment(&p.proof.commitment.main_commit);
            let mut copy = challenger.snapshot();
            let shard_result = verify_shard(config, &p.proof, &mut copy);
            match shard_result {
                Result::Ok(u) => {
                },
                Result::Err(e) => {
                    return Result::Err(e);
                },
            }
        } else {
            if !assert_challenger_eq(
                reconstruct_challenger,
                &p.proof.public_values.pre_reconstruct_challenger,
            ) {
                return Result::Err(VerifierError::ContinuityMismatch);
            }
            if !assert_challenger_eq(challenger, &p.proof.public_values.pre_challenger) {
                return Result::Err(VerifierError::ContinuityMismatch);
            }
            if !assert_challenger_eq(
                verify_start_challenger,
                &p.proof.public_values.verify_start_challenger,
            ) {
                return Result::Err(VerifierError::ContinuityMismatch);
            }
            let rvk_digest = hash_vkey(recursion_vk);
            if !crate::challenger::felts_eq(&p.proof.public_values.vk_digest, &rvk_digest) {
                return Result::Err(VerifierError::VkMismatch);
            }
            *challenger = p.proof.public_values.challenger.snapshot();
            *reconstruct_challenger = p.proof.public_values.reconstruct_challenger.snapshot();
            let mut fresh = DuplexChallengerVariable::new();
            let shard_result = verify_shard(recursion_config, &p.proof, &mut fresh);
            match shard_result {
                Result::Ok(u) => {
                },
                Result::Err(e) => {
                    return Result::Err(e);
                },
            }
        }
        i = i + 1;
    }
    assert(all.skip(all.len() as int).len() == 0);
    Result::Ok(())
}

impl ReduceProof {
    /// Whether this proof claims shard index zero.
    pub fn index_is_zero(&self) -> (r: bool)
        ensures
            r == (self.proof.index == 0),
    {
        self.proof.index == 0
    }
}

/// The digest an opening proof folds to under a fresh transcript's
/// extension challenge.
pub fn compute_fresh_opening_digest(p: &TwoAdicPcsProof) -> (r: Vec<u32>)
    requires
        pcs_proof_wf(p),
    ensures
        r@ == crate::root::spec_opening_digest(
            p,
            crate::challenger::spec_sample_values(spec_new_challenger(), 4),
        ),
        digest_wf(r@),
{
    let mut fresh = DuplexChallengerVariable::new();
    let alpha = fresh.sample_ext();
    let mut flat = crate::root::flatten_opening(p);
    proof {
        crate::root::lemma_opening_flat_felts(p);
    }
    let mut alpha_copy = crate::felt::copy_felts(&alpha);
    flat.append(&mut alpha_copy);
    assert(all_felts(flat@));
    let mut digest = crate::sponge::poseidon2_hash(&flat);
    let ghost cs = p.fri_proof.commit_phase_commits@;
    let ghost d0 = digest@;
    assert(cs.skip(0) == cs);
    let mut i: usize = 0;
    while i < p.fri_proof.commit_phase_commits.len()
        invariant
            i <= cs.len(),
            cs == p.fri_proof.commit_phase_commits@,
            fri_proof_wf(&p.fri_proof),
            digest@.len() == DIGEST_SIZE,
            all_felts(digest@),
            crate::root::fold_commits(digest@, cs.skip(i as int)) == crate::root::fold_commits(
                d0,
                cs,
            ),
        decreases cs.len() - i,
    {
        proof {
            let c = Seq::new(p.fri_proof.commit_phase_commits@.len(), |t: int|
                p.fri_proof.commit_phase_commits@[t]@);
            assert(digest_wf(c[i as int]));
        }
        let ghost before = digest@;
        digest = crate::sponge::compress(&digest, &p.fri_proof.commit_phase_commits[i]);
        proof {
            let rest = cs.skip(i as int);
            assert(rest[0] == cs[i as int]);
            assert(rest.skip(1) =~= cs.skip(i as int + 1));
            assert(crate::root::fold_commits(before, rest) == crate::root::fold_commits(
                crate::sponge::spec_compress(before, cs[i as int]@),
                cs.skip(i as int + 1),
            ));
        }
        i = i + 1;
    }
    assert(cs.skip(cs.len() as int).len() == 0);
    assert(digest@ == crate::root::fold_commits(d0, cs));
    digest
}

/// Build the proof a fold hands up to the next level: the base proof's
/// openings under a commitment that a fresh transcript accepts, with the
/// public values carrying the fold's transcript snapshots by value.
pub fn make_folded_proof(
    base: ShardProof,
    pre_ch: &DuplexChallengerVariable,
    pre_rc: &DuplexChallengerVariable,
    post_ch: &DuplexChallengerVariable,
    post_rc: &DuplexChallengerVariable,
    verify_start: &DuplexChallengerVariable,
    recursion_vk: &VerifyingKey,
) -> (r: ShardProof)
    requires
        shard_proof_wf(&base),
        vk_wf(recursion_vk),
        challenger_wf(pre_ch@),
        challenger_wf(pre_rc@),
        challenger_wf(post_ch@),
        challenger_wf(post_rc@),
        challenger_wf(verify_start@),
    ensures
        shard_proof_wf(&r),
        r.recursive_fields_ok(pre_ch@, pre_rc@, post_ch@, post_rc@, verify_start@),
        r.public_values.vk_digest@ == spec_hash_vkey(recursion_vk),
        r.public_values.is_complete == 1,
        crate::root::spec_opening_matches(
            &r.opening_proof,
            spec_new_challenger(),
            r.commitment.quotient_commit@,
        ),
        r.opening_proof == base.opening_proof,
{
    let digest = compute_fresh_opening_digest(&base.opening_proof);
    let rvk_digest = hash_vkey(recursion_vk);
    let pv = RecursionPublicValues {
        is_complete: 1,
        challenger: post_ch.snapshot(),
        reconstruct_challenger: post_rc.snapshot(),
        pre_challenger: pre_ch.snapshot(),
        pre_reconstruct_challenger: pre_rc.snapshot(),
        verify_start_challenger: verify_start.snapshot(),
        vk_digest: rvk_digest,
        compress_vk_digest: crate::felt::copy_felts(&base.public_values.compress_vk_digest),
        output_digest: crate::felt::copy_felts(&base.public_values.output_digest),
    };
    ShardProof {
        index: base.index,
        commitment: ShardCommitment {
            main_commit: crate::felt::copy_felts(&base.commitment.main_commit),
            permutation_commit: crate::felt::copy_felts(&base.commitment.permutation_commit),
            quotient_commit: digest,
        },
        opened_values: base.opened_values,
        opening_proof: base.opening_proof,
        chip_ordering: base.chip_ordering,
        public_values: pv,
        public_values_digest: base.public_values_digest,
    }
}

impl ShardProof {
    /// Whether this proof's public values carry exactly the given
    /// transcript snapshots.
    pub open spec fn recursive_fields_ok(
        &self,
        pre_ch: ChallengerModel,
        pre_rc: ChallengerModel,
        post_ch: ChallengerModel,
        post_rc: ChallengerModel,
        vs: ChallengerModel,
    ) -> bool {
        &&& self.public_values.pre_challenger@ == pre_ch
        &&& self.public_values.pre_reconstruct_challenger@ == pre_rc
        &&& self.public_values.challenger@ == post_ch
        &&& self.public_values.reconstruct_challenger@ == post_rc
        &&& self.public_values.verify_start_challenger@ == vs
    }
}

/// A full multi-shard proof: its shard proofs and the digest of its public
/// values.
pub struct Proof {
    pub shard_proofs: Vec<ShardProof>,
    pub public_values_digest: Vec<u32>,
}

/// Well-formedness of a multi-shard proof.
pub open spec fn proof_wf(p: &Proof) -> bool {
    &&& forall|i: int| 0 <= i < p.shard_proofs@.len() ==> shard_proof_wf(#[trigger] &p.shard_proofs@[i])
    &&& digest_wf(p.public_values_digest@)
}

/// The post-fold reconstruct snapshot a proof carries.
pub open spec fn rp_post_rc(p: ReduceProof) -> ChallengerModel {
    p.proof.public_values.reconstruct_challenger@
}

/// One link of a folded chain: a well-formed recursive proof whose
/// snapshots present the given pre-reconstruct state, the constant
/// verifying state, the recursion key's digest, and an opening a fresh
/// transcript accepts.
pub open spec fn folded_link_wf(
    p: ReduceProof,
    recursion_vk: &VerifyingKey,
    pre_rc: ChallengerModel,
    vs: ChallengerModel,
) -> bool {
    &&& p.recursive
    &&& shard_proof_wf(&p.proof)
    &&& p.proof.public_values.pre_challenger@ == vs
    &&& p.proof.public_values.challenger@ == vs
    &&& p.proof.public_values.verify_start_challenger@ == vs
    &&& p.proof.public_values.vk_digest@ == spec_hash_vkey(recursion_vk)
    &&& p.proof.public_values.pre_reconstruct_challenger@ == pre_rc
    &&& crate::root::spec_opening_matches(
        &p.proof.opening_proof,
        spec_new_challenger(),
        p.proof.commitment.quotient_commit@,
    )
}

/// A list of folded proofs whose reconstruct snapshots thread from
/// `start_rc` consecutively through the list.
pub open spec fn folded_chain_wf(
    ps: Seq<ReduceProof>,
    recursion_vk: &VerifyingKey,
    start_rc: ChallengerModel,
    vs: ChallengerModel,
) -> bool {
    forall|i: int|
        0 <= i < ps.len() ==> folded_link_wf(
            #[trigger] ps[i],
            recursion_vk,
            if i == 0 {
                start_rc
            } else {
                rp_post_rc(ps[i - 1])
            },
            vs,
        )
}

/// A prefix of a threaded chain is a chain from the same start, and the
/// rest is a chain from the prefix's last snapshot.
pub proof fn lemma_chain_split(
    pre: Seq<ReduceProof>,
    k: int,
    recursion_vk: &VerifyingKey,
    start: ChallengerModel,
    vs: ChallengerModel,
)
    requires
        folded_chain_wf(pre, recursion_vk, start, vs),
        0 < k <= pre.len(),
    ensures
        folded_chain_wf(pre.take(k), recursion_vk, start, vs),
        folded_chain_wf(pre.skip(k), recursion_vk, rp_post_rc(pre[k - 1]), vs),
{
    let a = pre.take(k);
    let b = pre.skip(k);
    assert forall|t: int| 0 <= t < a.len() implies folded_link_wf(
        #[trigger] a[t],
        recursion_vk,
        if t == 0 {
            start
        } else {
            rp_post_rc(a[t - 1])
        },
        vs,
    ) by {
        assert(a[t] == pre[t]);
        if t > 0 {
            assert(a[t - 1] == pre[t - 1]);
        }
        assert(folded_link_wf(
            pre[t],
            recursion_vk,
            if t == 0 {
                start
            } else {
                rp_post_rc(pre[t - 1])
            },
            vs,
        ));
    }
    assert forall|t: int| 0 <= t < b.len() implies folded_link_wf(
        #[trigger] b[t],
        recursion_vk,
        if t == 0 {
            rp_post_rc(pre[k - 1])
        } else {
            rp_post_rc(b[t - 1])
        },
        vs,
    ) by {
        assert(b[t] == pre[t + k]);
        if t > 0 {
            assert(b[t - 1] == pre[t + k - 1]);
        }
        assert(folded_link_wf(
            pre[t + k],
            recursion_vk,
            rp_post_rc(pre[t + k - 1]),
            vs,
        ));
    }
}

/// Appending a link whose pre-snapshot is the chain's last snapshot keeps
/// the chain threaded.
pub proof fn lemma_chain_push(
    ps: Seq<ReduceProof>,
    p: ReduceProof,
    recursion_vk: &VerifyingKey,
    start: ChallengerModel,
    vs: ChallengerModel,
)
    requires
        folded_chain_wf(ps, recursion_vk, start, vs),
        folded_link_wf(
            p,
            recursion_vk,
            if ps.len() == 0 {
                start
            } else {
                rp_post_rc(ps.last())
            },
            vs,
        ),
    ensures
        folded_chain_wf(ps.push(p), recursion_vk, start, vs),
{
    let whole = ps.push(p);
    assert forall|t: int| 0 <= t < whole.len() implies folded_link_wf(
        #[trigger] whole[t],
        recursion_vk,
        if t == 0 {
            start
        } else {
            rp_post_rc(whole[t - 1])
        },
        vs,
    ) by {
        if t < ps.len() {
            assert(whole[t] == ps[t]);
            if t > 0 {
                assert(whole[t - 1] == ps[t - 1]);
            }
            assert(folded_link_wf(
                ps[t],
                recursion_vk,
                if t == 0 {
                    start
                } else {
                    rp_post_rc(ps[t - 1])
                },
                vs,
            ));
        } else {
            assert(whole[t] == p);
            if t > 0 {
                assert(whole[t - 1] == ps[t - 1]);
                assert(ps[t - 1] == ps.last());
            }
        }
    }
}

/// With zero grinding bits, the proof-of-work gate passes from any state.
pub proof fn lemma_pow_zero_bits(c: ChallengerModel, w: u32)
    ensures
        crate::root::spec_pow_ok(c, w, 0),
{
    let x = crate::challenger::spec_sample_value(
        crate::challenger::spec_observe(crate::challenger::spec_sample_n(c, 4), w),
    );
    assert(1u32 << 0u32 == 1) by (bit_vector);
    assert(x & 0u32 == 0) by (bit_vector);
}

/// Folding a concatenation is folding the first part, then the second from
/// the states the first part ends with.
pub proof fn lemma_spec_reduce_concat(
    ps1: Seq<ReduceProof>,
    ps2: Seq<ReduceProof>,
    vk: &VerifyingKey,
    recursion_vk: &VerifyingKey,
    config: &FriConfigVariable,
    recursion_config: &FriConfigVariable,
    ch: ChallengerModel,
    rc: ChallengerModel,
    vs: ChallengerModel,
)
    ensures
        spec_reduce(ps1 + ps2, vk, recursion_vk, config, recursion_config, ch, rc, vs) == match
            spec_reduce(ps1, vk, recursion_vk, config, recursion_config, ch, rc, vs) {
            Result::Ok(st) => spec_reduce(
                ps2,
                vk,
                recursion_vk,
                config,
                recursion_config,
                st.0,
                st.1,
                vs,
            ),
            Result::Err(e) => Result::Err(e),
        },
    decreases ps1.len(),
{
    if ps1.len() == 0 {
        assert(ps1 + ps2 =~= ps2);
    } else {
        let whole = ps1 + ps2;
        assert(whole[0] == ps1[0]);
        assert(whole.skip(1) =~= ps1.skip(1) + ps2);
        let p = ps1[0];
        if !p.recursive {
            if p.proof.index == 0 && ch != vs {
            } else {
                let rc0 = if p.proof.index == 0 {
                    spec_reseeded(vk)
                } else {
                    rc
                };
                let rc1 = spec_observe_seq(rc0, p.proof.commitment.main_commit@);
                match spec_verify_shard(config, &p.proof, ch) {
                    Result::Ok(u) => {
                        lemma_spec_reduce_concat(
                            ps1.skip(1),
                            ps2,
                            vk,
                            recursion_vk,
                            config,
                            recursion_config,
                            ch,
                            rc1,
                            vs,
                        );
                    },
                    Result::Err(e) => {
                    },
                }
            }
        } else {
            if rc == p.proof.public_values.pre_reconstruct_challenger@ && ch
                == p.proof.public_values.pre_challenger@ && vs
                == p.proof.public_values.verify_start_challenger@
                && p.proof.public_values.vk_digest@ == spec_hash_vkey(recursion_vk) {
                match spec_verify_shard(recursion_config, &p.proof, spec_new_challenger()) {
                    Result::Ok(u) => {
                        lemma_spec_reduce_concat(
                            ps1.skip(1),
                            ps2,
                            vk,
                            recursion_vk,
                            config,
                            recursion_config,
                            p.proof.public_values.challenger@,
                            p.proof.public_values.reconstruct_challenger@,
                            vs,
                        );
                    },
                    Result::Err(e) => {
                    },
                }
            }
        }
    }
}

/// Folding leaves never advances the verifying transcript.
pub proof fn lemma_reduce_leaves_keep_ch(
    ps: Seq<ReduceProof>,
    vk: &VerifyingKey,
    recursion_vk: &VerifyingKey,
    config: &FriConfigVariable,
    recursion_config: &FriConfigVariable,
    ch: ChallengerModel,
    rc: ChallengerModel,
    vs: ChallengerModel,
)
    requires
        forall|i: int| 0 <= i < ps.len() ==> !(#[trigger] ps[i]).recursive,
    ensures
        spec_reduce(ps, vk, recursion_vk, config, recursion_config, ch, rc, vs) matches
            Result::Ok(st) ==> st.0 == ch,
    decreases ps.len(),
{
    if ps.len() > 0 {
        let p = ps[0];
        assert(!p.recursive);
        if p.proof.index == 0 && ch != vs {
        } else {
            let rc0 = if p.proof.index == 0 {
                spec_reseeded(vk)
            } else {
                rc
            };
            let rc1 = spec_observe_seq(rc0, p.proof.commitment.main_commit@);
            lemma_reduce_leaves_keep_ch(
                ps.skip(1),
                vk,
                recursion_vk,
                config,
                recursion_config,
                ch,
                rc1,
                vs,
            );
        }
    }
}

/// Folding a well-threaded chain of folded proofs under a zero-bit
/// recursion configuration succeeds, keeps the verifying transcript at the
/// start state, and ends the reconstruct transcript at the last link's
/// snapshot.
pub proof fn lemma_reduce_folded_chain(
    ps: Seq<ReduceProof>,
    vk: &VerifyingKey,
    recursion_vk: &VerifyingKey,
    config: &FriConfigVariable,
    recursion_config: &FriConfigVariable,
    rc: ChallengerModel,
    vs: ChallengerModel,
)
    requires
        folded_chain_wf(ps, recursion_vk, rc, vs),
        recursion_config.proof_of_work_bits == 0,
    ensures
        spec_reduce(ps, vk, recursion_vk, config, recursion_config, vs, rc, vs) == Result::<
            (ChallengerModel, ChallengerModel),
            VerifierError,
        >::Ok(
            (
                vs,
                if ps.len() == 0 {
                    rc
                } else {
                    rp_post_rc(ps.last())
                },
            ),
        ),
    decreases ps.len(),
{
    if ps.len() > 0 {
        let p = ps[0];
        assert(folded_link_wf(p, recursion_vk, rc, vs));
        lemma_pow_zero_bits(spec_new_challenger(), p.proof.opening_proof.fri_proof.pow_witness);
        assert(spec_verify_shard(recursion_config, &p.proof, spec_new_challenger()) == Result::<
            (),
            VerifierError,
        >::Ok(()));
        let rest = ps.skip(1);
        assert forall|i: int| 0 <= i < rest.len() implies folded_link_wf(
            #[trigger] rest[i],
            recursion_vk,
            if i == 0 {
                rp_post_rc(p)
            } else {
                rp_post_rc(rest[i - 1])
            },
            vs,
        ) by {
            assert(rest[i] == ps[i + 1]);
            assert(folded_link_wf(
                ps[i + 1],
                recursion_vk,
                if i + 1 == 0 {
                    rc
                } else {
                    rp_post_rc(ps[i])
                },
                vs,
            ));
            if i > 0 {
                assert(rest[i - 1] == ps[i]);
            }
        }
        lemma_reduce_folded_chain(rest, vk, recursion_vk, config, recursion_config, rp_post_rc(p), vs);
        if rest.len() > 0 {
            assert(ps.last() == rest.last());
        }
    }
}

/// The caller's transcript advanced by every shard's main commitment, in
/// shard order.
pub open spec fn spec_observe_main_commits(
    c: ChallengerModel,
    shards: Seq<ShardProof>,
) -> ChallengerModel
    decreases shards.len(),
{
    if shards.len() == 0 {
        c
    } else {
        spec_observe_main_commits(
            spec_observe_seq(c, shards[0].commitment.main_commit@),
            shards.skip(1),
        )
    }
}

/// The precomputed start state the very first leaf is checked against: the
/// caller's transcript advanced by the key commitment, every shard's main
/// commitment in shard order, then the public-values digest.
pub open spec fn spec_verify_start(
    c: ChallengerModel,
    vk: &VerifyingKey,
    shards: Seq<ShardProof>,
    pv_digest: Seq<u32>,
) -> ChallengerModel {
    spec_observe_seq(
        spec_observe_main_commits(spec_observe_seq(c, vk.commit@), shards),
        pv_digest,
    )
}

/// The shard proofs of a multi-shard proof, as the leaf inputs of the tree.
pub open spec fn spec_leaves(shards: Seq<ShardProof>) -> Seq<ReduceProof> {
    Seq::new(shards.len(), |i: int| ReduceProof { proof: shards[i], recursive: false })
}

/// Reduce a multi-shard proof to a single root proof with a binary
/// reduction tree.
///
/// The verify-start transcript is precomputed from the key, every main
/// commitment and the public-values digest; each level folds consecutive
/// chunks of at most two proofs with `rust_reduce`, passing transcript
/// snapshots up by value; a single-shard input bypasses reduction and is
/// itself the output. The loop always ends with exactly one root, whatever
/// the shard count; the contract pins the root's snapshots to the states
/// the straight-line fold of all the leaves ends with, and the exact error
/// when that fold rejects. Already-reduced proofs are verified under the
/// recursion configuration, whose grinding is disabled because the folded
/// openings this driver produces are not ground; the leaves keep the real
/// configuration.
#[verifier::rlimit(100)]
pub fn rust_prove_reduce(
    proof: Proof,
    vk: &VerifyingKey,
    recursion_vk: &VerifyingKey,
    challenger: &DuplexChallengerVariable,
    config: &FriConfigVariable,
    recursion_config: &FriConfigVariable,
) -> (r: Result<ReduceProof, VerifierError>)
    requires
        vk_wf(vk),
        vk_wf(recursion_vk),
        proof_wf(&proof),
        proof.shard_proofs@.len() >= 1,
        challenger_wf(challenger@),
        config.proof_of_work_bits <= 30,
        recursion_config.proof_of_work_bits == 0,
    ensures
        ({
            let leaves = spec_leaves(proof.shard_proofs@);
            let vs = spec_verify_start(
                challenger@,
                vk,
                proof.shard_proofs@,
                proof.public_values_digest@,
            );
            let folded = spec_reduce(
                leaves,
                vk,
                recursion_vk,
                config,
                recursion_config,
                vs,
                challenger@,
                vs,
            );
            match r {
                Result::Ok(rp) => {
                    &&& shard_proof_wf(&rp.proof)
                    &&& (proof.shard_proofs@.len() == 1 ==> !rp.recursive && rp.proof
                        == proof.shard_proofs@[0])
                    &&& (proof.shard_proofs@.len() > 1 ==> {
                        &&& rp.recursive
                        &&& rp.proof.public_values.verify_start_challenger@ == vs
                        &&& rp.proof.public_values.challenger@ == vs
                        &&& crate::root::spec_opening_matches(
                            &rp.proof.opening_proof,
                            spec_new_challenger(),
                            rp.proof.commitment.quotient_commit@,
                        )
                        &&& folded == Result::<(ChallengerModel, ChallengerModel), VerifierError>::Ok(
                            (vs, rp.proof.public_values.reconstruct_challenger@),
                        )
                    })
                },
                Result::Err(e) => proof.shard_proofs@.len() > 1 && folded == Result::<
                    (ChallengerModel, ChallengerModel),
                    VerifierError,
                >::Err(e),
            }
        }),
{
    let ghost c0 = challenger@;
    let mut reconstruct_challenger = challenger.snapshot();
    let mut challenger_mut = challenger.snapshot();
    let mut verify_start = challenger.snapshot();
    verify_start.observe_commitment(&vk.commit);
    let ghost after_vk = verify_start@;
    let ghost all_shards = proof.shard_proofs@;
    assert(all_shards.skip(0) == all_shards);
    let mut i: usize = 0;
    while i < proof.shard_proofs.len()
        invariant
            i <= all_shards.len(),
            all_shards == proof.shard_proofs@,
            proof_wf(&proof),
            challenger_wf(verify_start@),
            spec_observe_main_commits(verify_start@, all_shards.skip(i as int))
                == spec_observe_main_commits(after_vk, all_shards),
        decreases all_shards.len() - i,
    {
        proof {
            assert(shard_proof_wf(&all_shards[i as int]));
        }
        let ghost rest = all_shards.skip(i as int);
        verify_start.observe_commitment(&proof.shard_proofs[i].commitment.main_commit);
        proof {
            assert(rest[0] == all_shards[i as int]);
            assert(rest.skip(1) =~= all_shards.skip(i as int + 1));
        }
        i = i + 1;
    }
    assert(all_shards.skip(all_shards.len() as int).len() == 0);
    verify_start.observe_slice(&proof.public_values_digest);
    challenger_mut = verify_start.snapshot();
    let ghost vs_m = verify_start@;
    assert(vs_m == spec_verify_start(c0, vk, all_shards, proof.public_values_digest@));

    let single = proof.shard_proofs.len() == 1;
    let ghost orig_shards = proof.shard_proofs@;
    let ghost orig_len = proof.shard_proofs@.len();
    let mut shards = proof.shard_proofs;
    let mut current: Vec<ReduceProof> = Vec::new();
    while shards.len() > 0
        invariant
            current@.len() + shards@.len() == orig_len,
            orig_len == orig_shards.len(),
            forall|t: int|
                0 <= t < shards@.len() ==> #[trigger] shards@[t] == orig_shards[t
                    + current@.len()],
            forall|t: int| 0 <= t < orig_len ==> shard_proof_wf(#[trigger] &orig_shards[t]),
            reduce_proofs_wf(current@),
            forall|t: int|
                0 <= t < current@.len() ==> !(#[trigger] current@[t]).recursive
                    && current@[t].proof == orig_shards[t],
            orig_len >= 1,
        decreases shards@.len(),
    {
        proof {
            assert(shards@[0] == orig_shards[current@.len() as int]);
            assert(shard_proof_wf(&shards@[0]));
        }
        let sp = shards.remove(0);
        current.push(ReduceProof { proof: sp, recursive: false });
    }
    if single {
        let rp = current.remove(0);
        return Result::Ok(rp);
    }
    assert(orig_len > 1);
    let ghost leaves = spec_leaves(orig_shards);
    assert(current@ =~= leaves);
    let ghost target = spec_reduce(
        leaves,
        vk,
        recursion_vk,
        config,
        recursion_config,
        vs_m,
        c0,
        vs_m,
    );
    let mut folded_once: bool = false;
    while current.len() > 1
        invariant
            current@.len() >= 1,
            orig_len > 1,
            orig_len == proof.shard_proofs@.len(),
            vs_m == spec_verify_start(c0, vk, proof.shard_proofs@, proof.public_values_digest@),
            target == spec_reduce(spec_leaves(proof.shard_proofs@), vk, recursion_vk, config,
                recursion_config, vs_m, c0, vs_m),
            leaves == spec_leaves(proof.shard_proofs@),
            folded_once || current@ == leaves,
            challenger_wf(challenger@),
            challenger@ == c0,
            verify_start@ == vs_m,
            challenger_wf(verify_start@),
            challenger_mut@ == vs_m,
            challenger_wf(challenger_mut@),
            challenger_wf(reconstruct_challenger@),
            vk_wf(vk),
            vk_wf(recursion_vk),
            config.proof_of_work_bits <= 30,
            recursion_config.proof_of_work_bits == 0,
            reduce_proofs_wf(current@),
            !folded_once ==> (forall|t: int|
                0 <= t < current@.len() ==> !(#[trigger] current@[t]).recursive),
            spec_reduce(current@, vk, recursion_vk, config, recursion_config, vs_m, c0, vs_m)
                == target,
            folded_once ==> folded_chain_wf(current@, recursion_vk, c0, vs_m),
            folded_once ==> target == Result::<(ChallengerModel, ChallengerModel), VerifierError>::Ok(
                (vs_m, rp_post_rc(current@.last())),
            ),
        decreases current@.len(),
    {
        reconstruct_challenger = challenger.snapshot();
        let start_len = current.len();
        let mut next: Vec<ReduceProof> = Vec::new();
        while current.len() > 0
            invariant
                2 * next@.len() == start_len - current@.len() || (2 * next@.len() == start_len
                    - current@.len() + 1 && current@.len() == 0),
                start_len >= 2,
                orig_len > 1,
                orig_len == proof.shard_proofs@.len(),
                vs_m == spec_verify_start(c0, vk, proof.shard_proofs@, proof.public_values_digest@),
                target == spec_reduce(spec_leaves(proof.shard_proofs@), vk, recursion_vk, config,
                    recursion_config, vs_m, c0, vs_m),

                reduce_proofs_wf(current@),
                reduce_proofs_wf(next@),
                vk_wf(vk),
                vk_wf(recursion_vk),
                config.proof_of_work_bits <= 30,
                recursion_config.proof_of_work_bits == 0,
                challenger@ == c0,
                challenger_wf(challenger@),
                verify_start@ == vs_m,
                challenger_wf(verify_start@),
                challenger_mut@ == vs_m,
                challenger_wf(challenger_mut@),
                challenger_wf(reconstruct_challenger@),
                !folded_once ==> (forall|t: int|
                    0 <= t < current@.len() ==> !(#[trigger] current@[t]).recursive),
                folded_once ==> folded_chain_wf(
                    current@,
                    recursion_vk,
                    reconstruct_challenger@,
                    vs_m,
                ),
                folded_chain_wf(next@, recursion_vk, c0, vs_m),
                next@.len() == 0 ==> reconstruct_challenger@ == c0,
                next@.len() > 0 ==> rp_post_rc(next@.last()) == reconstruct_challenger@,
                spec_reduce(current@, vk, recursion_vk, config, recursion_config, vs_m,
                    reconstruct_challenger@, vs_m) == target,
            decreases current@.len(),
        {
            let ghost pre_current = current@;
            let ghost rc_old = reconstruct_challenger@;
            let mut chunk: Vec<ReduceProof> = Vec::new();
            proof {
                assert(shard_proof_wf(&current@[0].proof));
            }
            chunk.push(current.remove(0));
            if current.len() > 0 {
                proof {
                    assert(shard_proof_wf(&current@[0].proof));
                }
                chunk.push(current.remove(0));
            }
            proof {
                assert(chunk@ + current@ =~= pre_current);
            }
            let pre_ch = challenger_mut.snapshot();
            let pre_rc = reconstruct_challenger.snapshot();
            let res = rust_reduce(
                &chunk,
                vk,
                recursion_vk,
                config,
                recursion_config,
                &mut challenger_mut,
                &mut reconstruct_challenger,
                &verify_start,
            );
            proof {
                lemma_spec_reduce_concat(
                    chunk@,
                    current@,
                    vk,
                    recursion_vk,
                    config,
                    recursion_config,
                    vs_m,
                    rc_old,
                    vs_m,
                );
            }
            match res {
                Result::Ok(u) => {
                },
                Result::Err(e) => {
                    return Result::Err(e);
                },
            }
            proof {
                if !folded_once {
                    assert(forall|t: int|
                        0 <= t < chunk@.len() ==> !(#[trigger] chunk@[t]).recursive) by {
                        assert(forall|t: int|
                            0 <= t < chunk@.len() ==> #[trigger] chunk@[t] == pre_current[t]);
                    }
                    lemma_reduce_leaves_keep_ch(
                        chunk@,
                        vk,
                        recursion_vk,
                        config,
                        recursion_config,
                        vs_m,
                        rc_old,
                        vs_m,
                    );
                } else {
                    let k = chunk@.len() as int;
                    assert(chunk@ =~= pre_current.take(k));
                    assert(current@ =~= pre_current.skip(k));
                    lemma_chain_split(pre_current, k, recursion_vk, rc_old, vs_m);
                    assert(chunk@.last() == pre_current[k - 1]);
                    lemma_reduce_folded_chain(
                        chunk@,
                        vk,
                        recursion_vk,
                        config,
                        recursion_config,
                        rc_old,
                        vs_m,
                    );
                    assert(challenger_mut@ == vs_m);
                    assert(reconstruct_challenger@ == rp_post_rc(chunk@.last()));
                }
                assert(challenger_mut@ == vs_m);
            }
            let base = chunk.remove(0);
            let folded = make_folded_proof(
                base.proof,
                &pre_ch,
                &pre_rc,
                &challenger_mut,
                &reconstruct_challenger,
                &verify_start,
                recursion_vk,
            );
            let ghost prev_next = next@;
            let el = ReduceProof { proof: folded, recursive: true };
            proof {
                assert(folded_link_wf(el, recursion_vk, rc_old, vs_m));
                lemma_chain_push(prev_next, el, recursion_vk, c0, vs_m);
            }
            next.push(el);
            proof {
                assert(next@ == prev_next.push(el));
                assert(next@.last() == el);
            }
        }
        proof {
            assert(current@.len() == 0);
            assert(target == Result::<(ChallengerModel, ChallengerModel), VerifierError>::Ok(
                (vs_m, reconstruct_challenger@),
            ));
            assert(next@.len() >= 1);
            lemma_reduce_folded_chain(
                next@,
                vk,
                recursion_vk,
                config,
                recursion_config,
                c0,
                vs_m,
            );
            assert(rp_post_rc(next@.last()) == reconstruct_challenger@);
        }
        current = next;
        folded_once = true;
    }
    let rp = current.remove(0);
    proof {
        assert(folded_once);
        assert(folded_link_wf(rp, recursion_vk, c0, vs_m));
    }
    Result::Ok(rp)
}


/// Compile the reduction step into a recursion program for a given key:
/// the commitment-scheme configuration is tabulated once and the key's
/// parameters are baked in, without the compress-level key check.
pub fn build_reduce(
    config: &crate::types::FriConfig,
    vk: &VerifyingKey,
) -> (r: crate::root::RecursionProgram)
    requires
        vk_wf(vk),
    ensures
        r.config.log_blowup == config.log_blowup,
        r.config.num_queries == config.num_queries,
        r.config.proof_of_work_bits == config.proof_of_work_bits,
        r.vk_commit@ == vk.commit@,
        r.vk_pc_start == vk.pc_start,
        !r.is_compress,
{
    crate::root::SP1RootVerifier::build(config, vk, false)
}

} // verus!
