//! The in-circuit Fiat-Shamir transcript: a duplex sponge over the fixed
//! permutation.
//!
//! Every operation is verified against a spec-level model, so the exact
//! element-for-element order of absorptions and squeezes — the property the
//! whole recursive verifier depends on — is pinned down by the contracts.

use vstd::prelude::*;
use crate::felt::{fadd, is_felt, all_felts, felt_add};
use crate::perm::{permute, permute_of, PERMUTATION_WIDTH, SPONGE_RATE, DIGEST_SIZE};
use crate::sponge::zero_state;

verus! {

/// The mathematical state of a transcript: sponge state, pending inputs,
/// buffered outputs.
#[verifier::ext_equal]
pub struct ChallengerModel {
    pub sponge: Seq<u32>,
    pub inputs: Seq<u32>,
    pub outputs: Seq<u32>,
}

/// Well-formedness of a transcript state at rest.
pub open spec fn challenger_wf(c: ChallengerModel) -> bool {
    &&& c.sponge.len() == PERMUTATION_WIDTH
    &&& c.inputs.len() < SPONGE_RATE
    &&& c.outputs.len() <= SPONGE_RATE
    &&& all_felts(c.sponge)
    &&& all_felts(c.inputs)
    &&& all_felts(c.outputs)
}

/// The freshly created transcript: zero sponge, empty buffers.
pub open spec fn spec_new_challenger() -> ChallengerModel {
    ChallengerModel { sponge: zero_state(), inputs: Seq::empty(), outputs: Seq::empty() }
}

/// The sponge state once the pending inputs are absorbed: they overwrite the
/// leading rate slots, the rest of the rate is zeroed, and the absorbed count
/// is added into the first capacity element. An empty buffer is a squeeze
/// and leaves the state untouched.
pub open spec fn absorbed_state(c: ChallengerModel) -> Seq<u32> {
    if c.inputs.len() == 0 {
        c.sponge
    } else {
        Seq::new(
            PERMUTATION_WIDTH as nat,
            |i: int|
                if i < c.inputs.len() {
                    c.inputs[i]
                } else if i < SPONGE_RATE {
                    0u32
                } else if i == SPONGE_RATE {
                    fadd(c.sponge[SPONGE_RATE as int], c.inputs.len() as u32)
                } else {
                    c.sponge[i]
                },
        )
    }
}

/// One duplexing step: absorb the pending inputs, permute, refill the output
/// buffer with the leading rate elements of the new state.
pub open spec fn spec_duplexing(c: ChallengerModel) -> ChallengerModel {
    let p = permute_of(absorbed_state(c));
    ChallengerModel { sponge: p, inputs: Seq::empty(), outputs: p.take(SPONGE_RATE as int) }
}

/// Observing one element: any buffered output is discarded, the element is
/// appended to the pending inputs, and a full rate's worth of pending inputs
/// triggers a duplexing.
pub open spec fn spec_observe(c: ChallengerModel, value: u32) -> ChallengerModel {
    let c1 = ChallengerModel {
        sponge: c.sponge,
        inputs: c.inputs.push(value),
        outputs: Seq::empty(),
    };
    if c1.inputs.len() == SPONGE_RATE {
        spec_duplexing(c1)
    } else {
        c1
    }
}

/// Observing a sequence of elements, in order.
pub open spec fn spec_observe_seq(c: ChallengerModel, values: Seq<u32>) -> ChallengerModel
    decreases values.len(),
{
    if values.len() == 0 {
        c
    } else {
        spec_observe_seq(spec_observe(c, values[0]), values.skip(1))
    }
}

/// The transcript state from which the next sample is drawn: pending inputs
/// or an exhausted output buffer force a duplexing first.
pub open spec fn pre_sample_state(c: ChallengerModel) -> ChallengerModel {
    if c.inputs.len() > 0 || c.outputs.len() == 0 {
        spec_duplexing(c)
    } else {
        c
    }
}

/// The element one sample returns: the last buffered output.
pub open spec fn spec_sample_value(c: ChallengerModel) -> u32 {
    pre_sample_state(c).outputs.last()
}

/// The transcript state after one sample.
pub open spec fn spec_sample(c: ChallengerModel) -> ChallengerModel {
    let c1 = pre_sample_state(c);
    ChallengerModel { sponge: c1.sponge, inputs: c1.inputs, outputs: c1.outputs.drop_last() }
}

/// The transcript state after `n` samples.
pub open spec fn spec_sample_n(c: ChallengerModel, n: nat) -> ChallengerModel
    decreases n,
{
    if n == 0 {
        c
    } else {
        spec_sample(spec_sample_n(c, (n - 1) as nat))
    }
}

/// The values of `n` consecutive samples, in draw order.
pub open spec fn spec_sample_values(c: ChallengerModel, n: nat) -> Seq<u32>
    decreases n,
{
    if n == 0 {
        Seq::empty()
    } else {
        spec_sample_values(c, (n - 1) as nat).push(
            spec_sample_value(spec_sample_n(c, (n - 1) as nat)),
        )
    }
}

/// The value `sample_bits` returns: the low `bits` bits of one sample.
pub open spec fn spec_sample_bits_value(c: ChallengerModel, bits: usize) -> u32 {
    spec_sample_value(c) & (((1u32 << (bits as u32)) - 1) as u32)
}

/// The duplex-sponge transcript used by the recursive verifier.
///
/// The sponge state always holds `PERMUTATION_WIDTH` canonical field
/// elements; the input and output buffers hold at most a rate's worth.
pub struct DuplexChallengerVariable {
    pub sponge_state: Vec<u32>,
    pub input_buffer: Vec<u32>,
    pub output_buffer: Vec<u32>,
}

impl View for DuplexChallengerVariable {
    type V = ChallengerModel;

    open spec fn view(&self) -> ChallengerModel {
        ChallengerModel {
            sponge: self.sponge_state@,
            inputs: self.input_buffer@,
            outputs: self.output_buffer@,
        }
    }
}

impl DuplexChallengerVariable {
    /// A fresh transcript.
    pub fn new() -> (r: DuplexChallengerVariable)
        ensures
            r@ == spec_new_challenger(),
            challenger_wf(r@),
    {
        let mut sponge: Vec<u32> = Vec::new();
        let mut i: usize = 0;
        while i < PERMUTATION_WIDTH
            invariant
                i <= PERMUTATION_WIDTH,
                sponge@ == zero_state().take(i as int),
            decreases PERMUTATION_WIDTH - i,
        {
            sponge.push(0);
            assert(sponge@ == zero_state().take(i as int + 1));
            i = i + 1;
        }
        assert(sponge@ == zero_state());
        let r = DuplexChallengerVariable {
            sponge_state: sponge,
            input_buffer: Vec::new(),
            output_buffer: Vec::new(),
        };
        assert(r@ =~= spec_new_challenger());
        r
    }

    /// An independent copy of this transcript, with the same state.
    pub fn snapshot(&self) -> (r: DuplexChallengerVariable)
        ensures
            r@ == self@,
    {
        let r = DuplexChallengerVariable {
            sponge_state: crate::felt::copy_felts(&self.sponge_state),
            input_buffer: crate::felt::copy_felts(&self.input_buffer),
            output_buffer: crate::felt::copy_felts(&self.output_buffer),
        };
        assert(r@ =~= self@);
        r
    }

    /// Absorb the pending inputs, permute the sponge, refill the outputs.
    pub fn duplexing(&mut self)
        requires
            old(self)@.sponge.len() == PERMUTATION_WIDTH,
            old(self)@.inputs.len() <= SPONGE_RATE,
            old(self)@.outputs.len() <= SPONGE_RATE,
            all_felts(old(self)@.sponge),
            all_felts(old(self)@.inputs),
            all_felts(old(self)@.outputs),
        ensures
            final(self)@ == spec_duplexing(old(self)@),
            challenger_wf(final(self)@),
            final(self)@.outputs.len() == SPONGE_RATE,
    {
        let n = self.input_buffer.len();
        let ghost orig = self@;
        if n > 0 {
            let mut i: usize = 0;
            while i < n
                invariant
                    i <= n,
                    n == orig.inputs.len(),
                    n <= SPONGE_RATE,
                    self.input_buffer@ == orig.inputs,
                    self.sponge_state@.len() == PERMUTATION_WIDTH,
                    all_felts(self.sponge_state@),
                    all_felts(orig.inputs),
                    forall|t: int| 0 <= t < i ==> self.sponge_state@[t] == orig.inputs[t],
                    forall|t: int|
                        i <= t < PERMUTATION_WIDTH ==> self.sponge_state@[t] == orig.sponge[t],
                    orig.sponge.len() == PERMUTATION_WIDTH,
                decreases n - i,
            {
                self.sponge_state[i] = self.input_buffer[i];
                i = i + 1;
            }
            let mut i: usize = n;
            while i < SPONGE_RATE
                invariant
                    n <= i,
                    i <= SPONGE_RATE,
                    n == orig.inputs.len(),
                    self.input_buffer@ == orig.inputs,
                    self.sponge_state@.len() == PERMUTATION_WIDTH,
                    all_felts(self.sponge_state@),
                    all_felts(orig.inputs),
                    forall|t: int| 0 <= t < n ==> self.sponge_state@[t] == orig.inputs[t],
                    forall|t: int| n <= t < i ==> self.sponge_state@[t] == 0u32,
                    forall|t: int|
                        i <= t < PERMUTATION_WIDTH ==> self.sponge_state@[t] == orig.sponge[t],
                    orig.sponge.len() == PERMUTATION_WIDTH,
                decreases SPONGE_RATE - i,
            {
                self.sponge_state[i] = 0;
                i = i + 1;
            }
            let tag: u32 = n as u32;
            assert(is_felt(tag));
            assert(is_felt(self.sponge_state@[SPONGE_RATE as int]));
            let new_cap = felt_add(self.sponge_state[SPONGE_RATE], tag);
            self.sponge_state[SPONGE_RATE] = new_cap;
            self.input_buffer.clear();
            assert(self.sponge_state@ =~= absorbed_state(orig));
        } else {
            assert(self.sponge_state@ =~= absorbed_state(orig));
        }
        self.sponge_state = permute(&self.sponge_state);
        self.output_buffer.clear();
        let mut t: usize = 0;
        while t < SPONGE_RATE
            invariant
                t <= SPONGE_RATE,
                self.sponge_state@.len() == PERMUTATION_WIDTH,
                all_felts(self.sponge_state@),
                self.output_buffer@ == self.sponge_state@.take(t as int),
                self.input_buffer@.len() == 0,
                self.sponge_state@ == permute_of(absorbed_state(orig)),
            decreases SPONGE_RATE - t,
        {
            let el = self.sponge_state[t];
            self.output_buffer.push(el);
            assert(self.output_buffer@ == self.sponge_state@.take(t as int + 1));
            t = t + 1;
        }
        assert(self@ =~= spec_duplexing(orig));
    }

    /// Observe one field element.
    pub fn observe(&mut self, value: u32)
        requires
            challenger_wf(old(self)@),
            is_felt(value),
        ensures
            final(self)@ == spec_observe(old(self)@, value),
            challenger_wf(final(self)@),
    {
        let ghost orig = self@;
        self.output_buffer.clear();
        self.input_buffer.push(value);
        if self.input_buffer.len() == SPONGE_RATE {
            assert(self@ =~= ChallengerModel {
                sponge: orig.sponge,
                inputs: orig.inputs.push(value),
                outputs: Seq::empty(),
            });
            self.duplexing();
        } else {
            assert(self@ =~= spec_observe(orig, value));
        }
    }

    /// Observe a commitment digest, element by element.
    pub fn observe_commitment(&mut self, commitment: &Vec<u32>)
        requires
            challenger_wf(old(self)@),
            commitment@.len() == DIGEST_SIZE,
            all_felts(commitment@),
        ensures
            final(self)@ == spec_observe_seq(old(self)@, commitment@),
            challenger_wf(final(self)@),
    {
        self.observe_slice(commitment);
    }

    /// Observe a sequence of field elements, in order.
    pub fn observe_slice(&mut self, values: &Vec<u32>)
        requires
            challenger_wf(old(self)@),
            all_felts(values@),
        ensures
            final(self)@ == spec_observe_seq(old(self)@, values@),
            challenger_wf(final(self)@),
    {
        let ghost orig = self@;
        assert(values@.skip(0) == values@);
        let mut i: usize = 0;
        while i < values.len()
            invariant
                i <= values@.len(),
                challenger_wf(self@),
                all_felts(values@),
                spec_observe_seq(self@, values@.skip(i as int)) == spec_observe_seq(
                    orig,
                    values@,
                ),
            decreases values@.len() - i,
        {
            let ghost before = self@;
            self.observe(values[i]);
            proof {
                let rest = values@.skip(i as int);
                assert(rest[0] == values@[i as int]);
                assert(rest.skip(1) =~= values@.skip(i as int + 1));
                assert(spec_observe_seq(before, rest) == spec_observe_seq(
                    spec_observe(before, values@[i as int]),
                    values@.skip(i as int + 1),
                ));
            }
            i = i + 1;
        }
        assert(values@.skip(values@.len() as int).len() == 0);
    }

    /// Draw one field element from the transcript.
    pub fn sample(&mut self) -> (r: u32)
        requires
            challenger_wf(old(self)@),
        ensures
            final(self)@ == spec_sample(old(self)@),
            r == spec_sample_value(old(self)@),
            challenger_wf(final(self)@),
            is_felt(r),
    {
        let ghost orig = self@;
        if self.input_buffer.len() != 0 || self.output_buffer.len() == 0 {
            self.duplexing();
        }
        assert(self@ == pre_sample_state(orig));
        let r_opt = self.output_buffer.pop();
        let r = r_opt.unwrap();
        assert(self@ =~= spec_sample(orig));
        r
    }

    /// Draw one degree-4 extension-field challenge as its four base-field
    /// coordinates, in draw order.
    pub fn sample_ext(&mut self) -> (r: Vec<u32>)
        requires
            challenger_wf(old(self)@),
        ensures
            final(self)@ == spec_sample_n(old(self)@, 4),
            r@ == spec_sample_values(old(self)@, 4),
            r@.len() == 4,
            all_felts(r@),
            challenger_wf(final(self)@),
    {
        let ghost orig = self@;
        let a = self.sample();
        let b = self.sample();
        let c = self.sample();
        let d = self.sample();
        let mut r: Vec<u32> = Vec::new();
        r.push(a);
        r.push(b);
        r.push(c);
        r.push(d);
        proof {
            assert(spec_sample_n(orig, 0) == orig);
            assert(spec_sample_n(orig, 1) == spec_sample(spec_sample_n(orig, 0)));
            assert(spec_sample_n(orig, 2) == spec_sample(spec_sample_n(orig, 1)));
            assert(spec_sample_n(orig, 3) == spec_sample(spec_sample_n(orig, 2)));
            assert(spec_sample_n(orig, 4) == spec_sample(spec_sample_n(orig, 3)));
            assert(spec_sample_values(orig, 0) == Seq::<u32>::empty());
            assert(spec_sample_values(orig, 1) == spec_sample_values(orig, 0).push(
                spec_sample_value(spec_sample_n(orig, 0)),
            ));
            assert(spec_sample_values(orig, 2) == spec_sample_values(orig, 1).push(
                spec_sample_value(spec_sample_n(orig, 1)),
            ));
            assert(spec_sample_values(orig, 3) == spec_sample_values(orig, 2).push(
                spec_sample_value(spec_sample_n(orig, 2)),
            ));
            assert(spec_sample_values(orig, 4) == spec_sample_values(orig, 3).push(
                spec_sample_value(spec_sample_n(orig, 3)),
            ));
            assert(r@ =~= spec_sample_values(orig, 4));
        }
        r
    }

    /// Draw one sample and keep its low `bits` bits.
    pub fn sample_bits(&mut self, bits: usize) -> (r: u32)
        requires
            challenger_wf(old(self)@),
            bits <= 30,
        ensures
            final(self)@ == spec_sample(old(self)@),
            r == spec_sample_bits_value(old(self)@, bits),
            challenger_wf(final(self)@),
    {
        let rand_f = self.sample();
        let b: u32 = bits as u32;
        assert((1u32 << b) >= 1) by (bit_vector)
            requires
                b <= 30,
        ;
        let mask: u32 = (1u32 << b) - 1;
        rand_f & mask
    }

    /// The proof-of-work gate: observe the witness, then require the next
    /// `bits` sampled bits to be zero.
    pub fn check_witness(&mut self, bits: usize, witness: u32) -> (r: bool)
        requires
            challenger_wf(old(self)@),
            bits <= 30,
            is_felt(witness),
        ensures
            final(self)@ == spec_sample(spec_observe(old(self)@, witness)),
            r == (spec_sample_bits_value(spec_observe(old(self)@, witness), bits) == 0),
            challenger_wf(final(self)@),
    {
        self.observe(witness);
        let element = self.sample_bits(bits);
        element == 0
    }
}

/// Field-wise equality of two transcript states: the continuity checks of
/// the reduction tree compare snapshots with this, never by re-derivation.
pub fn assert_challenger_eq(
    challenger: &DuplexChallengerVariable,
    expected: &DuplexChallengerVariable,
) -> (r: bool)
    ensures
        r == (challenger@ =~= expected@),
{
    let a = felts_eq(&challenger.sponge_state, &expected.sponge_state);
    let b = felts_eq(&challenger.input_buffer, &expected.input_buffer);
    let c = felts_eq(&challenger.output_buffer, &expected.output_buffer);
    a && b && c
}

/// Element-wise equality of two field-element vectors.
pub fn felts_eq(a: &Vec<u32>, b: &Vec<u32>) -> (r: bool)
    ensures
        r == (a@ == b@),
{
    if a.len() != b.len() {
        assert(a@ != b@);
        return false;
    }
    let mut i: usize = 0;
    while i < a.len()
        invariant
            i <= a@.len(),
            a@.len() == b@.len(),
            forall|t: int| 0 <= t < i ==> a@[t] == b@[t],
        decreases a@.len() - i,
    {
        if a[i] != b[i] {
            assert(a@ != b@);
            return false;
        }
        i = i + 1;
    }
    assert(a@ =~= b@);
    true
}

} // verus!
