//! Hashing built from the fixed permutation: a padding-free sponge used for
//! digests of public values and verifying keys, and a two-to-one compression
//! used to fold commitment openings.
//!
//! Both are verified against spec-level models stated over `permute_of`, the
//! name this crate gives to the outside permutation.

use vstd::prelude::*;
use crate::felt::all_felts;
use crate::perm::{permute, permute_of, PERMUTATION_WIDTH, SPONGE_RATE, DIGEST_SIZE};

verus! {

/// The all-zero sponge state.
pub open spec fn zero_state() -> Seq<u32> {
    Seq::new(PERMUTATION_WIDTH as nat, |i: int| 0u32)
}

/// Overwrite the leading `block.len()` positions of a width-16 state.
pub open spec fn overwrite(state: Seq<u32>, block: Seq<u32>) -> Seq<u32> {
    Seq::new(PERMUTATION_WIDTH as nat, |i: int| if i < block.len() { block[i] } else { state[i] })
}

/// Absorb an input into a sponge state, one rate-sized block at a time.
///
/// A full block overwrites the rate portion and is followed by a permutation;
/// a final partial block is absorbed the same way; an empty remainder leaves
/// the state as the last permutation produced it.
pub open spec fn spec_absorb(state: Seq<u32>, input: Seq<u32>) -> Seq<u32>
    decreases input.len(),
{
    if input.len() == 0 {
        state
    } else if input.len() < SPONGE_RATE {
        permute_of(overwrite(state, input))
    } else {
        spec_absorb(
            permute_of(overwrite(state, input.take(SPONGE_RATE as int))),
            input.skip(SPONGE_RATE as int),
        )
    }
}

/// The sponge hash of an input: absorb from the all-zero state, then squeeze
/// the first `DIGEST_SIZE` elements.
pub open spec fn spec_hash(input: Seq<u32>) -> Seq<u32> {
    spec_absorb(zero_state(), input).take(DIGEST_SIZE as int)
}

/// The two-to-one compression of a pair of digests: concatenate into the
/// leading half of the state, permute, truncate to one digest.
pub open spec fn spec_compress(left: Seq<u32>, right: Seq<u32>) -> Seq<u32> {
    permute_of(left + right).take(DIGEST_SIZE as int)
}

/// Hash a sequence of field elements into one digest.
pub fn poseidon2_hash(input: &Vec<u32>) -> (r: Vec<u32>)
    requires
        all_felts(input@),
    ensures
        r@ == spec_hash(input@),
        r@.len() == DIGEST_SIZE,
        all_felts(r@),
{
    let mut state: Vec<u32> = Vec::new();
    let mut i: usize = 0;
    while i < PERMUTATION_WIDTH
        invariant
            i <= PERMUTATION_WIDTH,
            state@ == zero_state().take(i as int),
        decreases PERMUTATION_WIDTH - i,
    {
        state.push(0);
        assert(state@ == zero_state().take(i as int + 1));
        i = i + 1;
    }
    assert(state@ == zero_state());
    assert(all_felts(state@));

    let n = input.len();
    assert(input@.skip(0) == input@);
    let mut pos: usize = 0;
    while pos < n
        invariant
            pos <= n,
            n == input@.len(),
            state@.len() == PERMUTATION_WIDTH,
            all_felts(state@),
            all_felts(input@),
            spec_absorb(state@, input@.skip(pos as int)) == spec_absorb(zero_state(), input@),
            pos < input@.len() ==> (pos % SPONGE_RATE == 0),
        decreases input@.len() - pos,
    {
        let remaining = n - pos;
        let k = if remaining < SPONGE_RATE { remaining } else { SPONGE_RATE };
        let ghost rest = input@.skip(pos as int);
        let ghost prev_state = state@;
        let mut j: usize = 0;
        while j < k
            invariant
                j <= k,
                k <= rest.len(),
                k <= SPONGE_RATE,
                pos <= n,
                pos + k <= n,
                n == input@.len(),
                rest == input@.skip(pos as int),
                prev_state.len() == PERMUTATION_WIDTH,
                state@.len() == PERMUTATION_WIDTH,
                all_felts(state@),
                all_felts(input@),
                forall|t: int| 0 <= t < j ==> state@[t] == rest[t],
                forall|t: int| j <= t < PERMUTATION_WIDTH ==> state@[t] == prev_state[t],
            decreases k - j,
        {
            state[j] = input[pos + j];
            j = j + 1;
        }
        assert(state@ =~= overwrite(prev_state, rest.take(k as int)));
        state = permute(&state);
        if remaining < SPONGE_RATE {
            assert(rest.take(k as int) == rest);
            assert(spec_absorb(prev_state, rest) == state@);
            assert(input@.skip(input@.len() as int).len() == 0);
            assert(spec_absorb(state@, input@.skip(pos as int + k)) == state@);
        } else {
            assert(spec_absorb(prev_state, rest) == spec_absorb(state@, rest.skip(
                SPONGE_RATE as int,
            )));
            assert(rest.skip(k as int) == input@.skip(pos as int + k));
        }
        pos = pos + k;
    }

    let mut r: Vec<u32> = Vec::new();
    let mut t: usize = 0;
    while t < DIGEST_SIZE
        invariant
            t <= DIGEST_SIZE,
            state@.len() == PERMUTATION_WIDTH,
            all_felts(state@),
            r@ == state@.take(t as int),
        decreases DIGEST_SIZE - t,
    {
        r.push(state[t]);
        assert(r@ == state@.take(t as int + 1));
        t = t + 1;
    }
    assert(spec_absorb(state@, input@.skip(input@.len() as int)) == state@);
    r
}

/// Compress two digests into one.
pub fn compress(left: &Vec<u32>, right: &Vec<u32>) -> (r: Vec<u32>)
    requires
        left@.len() == DIGEST_SIZE,
        right@.len() == DIGEST_SIZE,
        all_felts(left@),
        all_felts(right@),
    ensures
        r@ == spec_compress(left@, right@),
        r@.len() == DIGEST_SIZE,
        all_felts(r@),
{
    let mut pre: Vec<u32> = Vec::new();
    let mut i: usize = 0;
    while i < DIGEST_SIZE
        invariant
            i <= DIGEST_SIZE,
            left@.len() == DIGEST_SIZE,
            all_felts(left@),
            pre@ == left@.take(i as int),
        decreases DIGEST_SIZE - i,
    {
        pre.push(left[i]);
        assert(pre@ == left@.take(i as int + 1));
        i = i + 1;
    }
    assert(pre@ == left@);
    let mut i: usize = 0;
    while i < DIGEST_SIZE
        invariant
            i <= DIGEST_SIZE,
            right@.len() == DIGEST_SIZE,
            all_felts(right@),
            all_felts(left@),
            left@.len() == DIGEST_SIZE,
            pre@ == left@ + right@.take(i as int),
        decreases DIGEST_SIZE - i,
    {
        pre.push(right[i]);
        assert(pre@ == left@ + right@.take(i as int + 1));
        i = i + 1;
    }
    assert(pre@ == left@ + right@);
    assert(all_felts(pre@));
    let post = permute(&pre);
    let mut r: Vec<u32> = Vec::new();
    let mut t: usize = 0;
    while t < DIGEST_SIZE
        invariant
            t <= DIGEST_SIZE,
            post@.len() == PERMUTATION_WIDTH,
            all_felts(post@),
            r@ == post@.take(t as int),
        decreases DIGEST_SIZE - t,
    {
        r.push(post[t]);
        assert(r@ == post@.take(t as int + 1));
        t = t + 1;
    }
    r
}

} // verus!
