//! The permutation chip: arithmetizes the external rounds of a fixed-width
//! cryptographic round function.
//!
//! Each permutation request in the execution record contributes one row per
//! round. A row carries a one-hot round selector, the combined round
//! constant, the round body (add round constant, S-box, linear diffusion),
//! and the paired memory accesses that tie the operands to the machine's
//! memory bus.

use vstd::prelude::*;
use crate::felt::{
    fadd, fmul, fpow7, is_felt, all_felts, FIELD_PRIME, felt_add, felt_mul, felt_pow7,
};
use crate::record::{
    EventModel, RecordModel, ExecutionRecord, Poseidon2Event, LookupSink, LookupEvent, TraceMatrix, Program,
    MachineAir, record_wf, event_wf, spec_register,
};

verus! {

/// The number of external rounds the chip arithmetizes.
pub const EXTERNAL_ROUND_COUNT: usize = 8;

/// The number of state words per row.
pub const NUM_STATE_WORDS: usize = 16;

/// Column offsets of the chip's trace layout.
pub const COL_SEGMENT: usize = 0;

pub const COL_READ_CLK: usize = 1;

pub const COL_WRITE_CLK: usize = 17;

pub const COL_ADDR: usize = 33;

pub const COL_MEM_READ: usize = 49;

pub const COL_MEM_WRITE: usize = 65;

pub const COL_IS_ROUND: usize = 81;

pub const COL_ROUND_NUMBER: usize = 89;

pub const COL_ROUND_CONSTANT: usize = 90;

pub const COL_ADD_RC: usize = 106;

pub const COL_SBOX: usize = 122;

pub const COL_LINEAR: usize = 138;

pub const COL_IS_EXTERNAL: usize = 154;

/// The number of columns in the chip's trace.
pub const NUM_POSEIDON2_EXTERNAL_COLS: usize = 155;

/// The round-constant table, as a function of round and word index.
pub open spec fn rc_spec(round: int, i: int) -> u32 {
    ((((round * NUM_STATE_WORDS + i) * 2654435761) + 40503) % (FIELD_PRIME as int)) as u32
}

/// The round constant for one round and word.
pub fn round_constant(round: usize, i: usize) -> (r: u32)
    requires
        round < EXTERNAL_ROUND_COUNT,
        i < NUM_STATE_WORDS,
    ensures
        r == rc_spec(round as int, i as int),
        is_felt(r),
{
    let idx: u64 = (round * NUM_STATE_WORDS + i) as u64;
    let v: u64 = (idx * 2654435761u64 + 40503u64) % (FIELD_PRIME as u64);
    v as u32
}

/// The state after the round constant of round `r` is added, word-wise.
pub open spec fn spec_add_rc(state: Seq<u32>, r: int) -> Seq<u32> {
    Seq::new(NUM_STATE_WORDS as nat, |i: int| fadd(state[i], rc_spec(r, i)))
}

/// The state after the S-box (the seventh power) is applied, word-wise.
pub open spec fn spec_sbox(state: Seq<u32>) -> Seq<u32> {
    Seq::new(NUM_STATE_WORDS as nat, |i: int| fpow7(state[i]))
}

/// One output word of the 4x4 mixing block applied to four state words.
pub open spec fn m4_at(a: u32, b: u32, c: u32, d: u32, p: int) -> u32 {
    if p == 0 {
        fadd(fadd(fmul(2, a), fmul(3, b)), fadd(c, d))
    } else if p == 1 {
        fadd(fadd(a, fmul(2, b)), fadd(fmul(3, c), d))
    } else if p == 2 {
        fadd(fadd(a, b), fadd(fmul(2, c), fmul(3, d)))
    } else {
        fadd(fadd(fmul(3, a), b), fadd(c, fmul(2, d)))
    }
}

/// The state after the 4x4 mixing block is applied to each group of four.
pub open spec fn spec_m4(state: Seq<u32>) -> Seq<u32> {
    Seq::new(
        NUM_STATE_WORDS as nat,
        |i: int|
            m4_at(
                state[4 * (i / 4)],
                state[4 * (i / 4) + 1],
                state[4 * (i / 4) + 2],
                state[4 * (i / 4) + 3],
                i % 4,
            ),
    )
}

/// The state after the full external linear diffusion: the block mix,
/// then each word gains the column sum across the four blocks.
pub open spec fn spec_linear(state: Seq<u32>) -> Seq<u32> {
    let y = spec_m4(state);
    Seq::new(
        NUM_STATE_WORDS as nat,
        |i: int|
            fadd(y[i], fadd(fadd(y[i % 4], y[4 + i % 4]), fadd(y[8 + i % 4], y[12 + i % 4]))),
    )
}

/// The full body of round `r` on a state.
pub open spec fn spec_round_output(state: Seq<u32>, r: int) -> Seq<u32> {
    spec_linear(spec_sbox(spec_add_rc(state, r)))
}

/// The state entering round `r` of an event: the event's input for round 0,
/// the previous round's output after that.
pub open spec fn spec_round_state(e: EventModel, r: int) -> Seq<u32>
    decreases r,
{
    if r <= 0 {
        e.input
    } else {
        spec_round_output(spec_round_state(e, r - 1), r - 1)
    }
}

/// One cell of the row that round `r` of an event occupies.
pub open spec fn spec_cell(e: EventModel, r: int, j: int) -> u32 {
    if j == COL_SEGMENT {
        e.segment
    } else if j < COL_WRITE_CLK {
        (e.clk + 2 * r) as u32
    } else if j < COL_ADDR {
        (e.clk + 2 * r + 1) as u32
    } else if j < COL_MEM_READ {
        (e.addr + 4 * (j - COL_ADDR)) as u32
    } else if j < COL_MEM_WRITE {
        spec_round_state(e, r)[j - COL_MEM_READ]
    } else if j < COL_IS_ROUND {
        spec_round_output(spec_round_state(e, r), r)[j - COL_MEM_WRITE]
    } else if j < COL_ROUND_NUMBER {
        if j - COL_IS_ROUND == r {
            1u32
        } else {
            0u32
        }
    } else if j == COL_ROUND_NUMBER {
        r as u32
    } else if j < COL_ADD_RC {
        rc_spec(r, j - COL_ROUND_CONSTANT)
    } else if j < COL_SBOX {
        spec_add_rc(spec_round_state(e, r), r)[j - COL_ADD_RC]
    } else if j < COL_LINEAR {
        spec_sbox(spec_add_rc(spec_round_state(e, r), r))[j - COL_SBOX]
    } else if j < COL_IS_EXTERNAL {
        spec_linear(spec_sbox(spec_add_rc(spec_round_state(e, r), r)))[j - COL_LINEAR]
    } else {
        1u32
    }
}

/// The full row that round `r` of an event occupies.
pub open spec fn spec_event_row(e: EventModel, r: int) -> Seq<u32> {
    Seq::new(NUM_POSEIDON2_EXTERNAL_COLS as nat, |j: int| spec_cell(e, r, j))
}

/// An all-zero padding row.
pub open spec fn spec_zero_row() -> Seq<u32> {
    Seq::new(NUM_POSEIDON2_EXTERNAL_COLS as nat, |j: int| 0u32)
}

/// The smallest power of two that is at least `n`, starting from `acc`.
pub open spec fn pow2_from(n: nat, acc: nat) -> nat
    decreases (if acc >= n {
        0int
    } else {
        n - acc
    }),
{
    if acc >= n {
        acc
    } else if acc < 1 {
        pow2_from(n, 1)
    } else {
        pow2_from(n, 2 * acc)
    }
}

/// The padded height of a trace with `n` real rows.
pub open spec fn spec_height(n: nat) -> nat {
    pow2_from(n, 1)
}

/// The trace the chip produces: one row per event and round, padded with
/// zero rows to a power-of-two height.
pub open spec fn spec_chip_trace(rec: RecordModel) -> Seq<Seq<u32>> {
    let n_real = rec.poseidon2_events.len() * EXTERNAL_ROUND_COUNT as nat;
    Seq::new(
        spec_height(n_real),
        |k: int|
            if k < n_real {
                spec_event_row(
                    rec.poseidon2_events[k / (EXTERNAL_ROUND_COUNT as int)],
                    k % (EXTERNAL_ROUND_COUNT as int),
                )
            } else {
                spec_zero_row()
            },
    )
}

/// The lookup events the chip registers: one range-check request per state
/// word written back, in event order then word order.
pub open spec fn spec_chip_lookups(rec: RecordModel) -> Seq<LookupEvent> {
    Seq::new(
        rec.poseidon2_events.len() * NUM_STATE_WORDS as nat,
        |k: int|
            LookupEvent {
                kind: 0u32,
                value: spec_round_state(
                    rec.poseidon2_events[k / (NUM_STATE_WORDS as int)],
                    EXTERNAL_ROUND_COUNT as int,
                )[k % (NUM_STATE_WORDS as int)],
            },
    )
}

/// Add the round constant of round `r` to a state, word-wise.
pub fn add_rc_state(state: &Vec<u32>, r: usize) -> (out: Vec<u32>)
    requires
        state@.len() == NUM_STATE_WORDS,
        all_felts(state@),
        r < EXTERNAL_ROUND_COUNT,
    ensures
        out@ == spec_add_rc(state@, r as int),
        out@.len() == NUM_STATE_WORDS,
        all_felts(out@),
{
    let mut out: Vec<u32> = Vec::new();
    let mut i: usize = 0;
    while i < NUM_STATE_WORDS
        invariant
            i <= NUM_STATE_WORDS,
            state@.len() == NUM_STATE_WORDS,
            all_felts(state@),
            r < EXTERNAL_ROUND_COUNT,
            out@.len() == i,
            forall|t: int| 0 <= t < i ==> out@[t] == spec_add_rc(state@, r as int)[t],
            all_felts(out@),
        decreases NUM_STATE_WORDS - i,
    {
        let rc = round_constant(r, i);
        out.push(felt_add(state[i], rc));
        i = i + 1;
    }
    assert(out@ =~= spec_add_rc(state@, r as int));
    out
}

/// Apply the S-box to a state, word-wise.
pub fn sbox_state(state: &Vec<u32>) -> (out: Vec<u32>)
    requires
        state@.len() == NUM_STATE_WORDS,
        all_felts(state@),
    ensures
        out@ == spec_sbox(state@),
        out@.len() == NUM_STATE_WORDS,
        all_felts(out@),
{
    let mut out: Vec<u32> = Vec::new();
    let mut i: usize = 0;
    while i < NUM_STATE_WORDS
        invariant
            i <= NUM_STATE_WORDS,
            state@.len() == NUM_STATE_WORDS,
            all_felts(state@),
            out@.len() == i,
            forall|t: int| 0 <= t < i ==> out@[t] == spec_sbox(state@)[t],
            all_felts(out@),
        decreases NUM_STATE_WORDS - i,
    {
        out.push(felt_pow7(state[i]));
        i = i + 1;
    }
    assert(out@ =~= spec_sbox(state@));
    out
}

/// One output word of the mixing block, computed executably.
pub fn m4_word(a: u32, b: u32, c: u32, d: u32, p: usize) -> (r: u32)
    requires
        is_felt(a),
        is_felt(b),
        is_felt(c),
        is_felt(d),
        p < 4,
    ensures
        r == m4_at(a, b, c, d, p as int),
        is_felt(r),
{
    if p == 0 {
        felt_add(felt_add(felt_mul(2, a), felt_mul(3, b)), felt_add(c, d))
    } else if p == 1 {
        felt_add(felt_add(a, felt_mul(2, b)), felt_add(felt_mul(3, c), d))
    } else if p == 2 {
        felt_add(felt_add(a, b), felt_add(felt_mul(2, c), felt_mul(3, d)))
    } else {
        felt_add(felt_add(felt_mul(3, a), b), felt_add(c, felt_mul(2, d)))
    }
}

/// Apply the full external linear diffusion to a state.
pub fn linear_state(state: &Vec<u32>) -> (out: Vec<u32>)
    requires
        state@.len() == NUM_STATE_WORDS,
        all_felts(state@),
    ensures
        out@ == spec_linear(state@),
        out@.len() == NUM_STATE_WORDS,
        all_felts(out@),
{
    let mut y: Vec<u32> = Vec::new();
    let mut i: usize = 0;
    while i < NUM_STATE_WORDS
        invariant
            i <= NUM_STATE_WORDS,
            state@.len() == NUM_STATE_WORDS,
            all_felts(state@),
            y@.len() == i,
            forall|t: int| 0 <= t < i ==> y@[t] == spec_m4(state@)[t],
            all_felts(y@),
        decreases NUM_STATE_WORDS - i,
    {
        let base = 4 * (i / 4);
        let w = m4_word(state[base], state[base + 1], state[base + 2], state[base + 3], i % 4);
        y.push(w);
        i = i + 1;
    }
    assert(y@ =~= spec_m4(state@));
    let mut out: Vec<u32> = Vec::new();
    let mut i: usize = 0;
    while i < NUM_STATE_WORDS
        invariant
            i <= NUM_STATE_WORDS,
            state@.len() == NUM_STATE_WORDS,
            all_felts(state@),
            y@ == spec_m4(state@),
            y@.len() == NUM_STATE_WORDS,
            all_felts(y@),
            out@.len() == i,
            forall|t: int| 0 <= t < i ==> out@[t] == spec_linear(state@)[t],
            all_felts(out@),
        decreases NUM_STATE_WORDS - i,
    {
        let p = i % 4;
        let colsum = felt_add(felt_add(y[p], y[4 + p]), felt_add(y[8 + p], y[12 + p]));
        out.push(felt_add(y[i], colsum));
        i = i + 1;
    }
    assert(out@ =~= spec_linear(state@));
    out
}

/// Apply the full body of round `r` to a state.
pub fn round_output(state: &Vec<u32>, r: usize) -> (out: Vec<u32>)
    requires
        state@.len() == NUM_STATE_WORDS,
        all_felts(state@),
        r < EXTERNAL_ROUND_COUNT,
    ensures
        out@ == spec_round_output(state@, r as int),
        out@.len() == NUM_STATE_WORDS,
        all_felts(out@),
{
    let a = add_rc_state(state, r);
    let s = sbox_state(&a);
    linear_state(&s)
}

/// A vector of `count` copies of one value.
pub fn const_cells(value: u32, count: usize) -> (r: Vec<u32>)
    ensures
        r@ == Seq::new(count as nat, |i: int| value),
{
    let mut r: Vec<u32> = Vec::new();
    let mut i: usize = 0;
    while i < count
        invariant
            i <= count,
            r@.len() == i,
            forall|t: int| 0 <= t < i ==> r@[t] == value,
        decreases count - i,
    {
        r.push(value);
        i = i + 1;
    }
    assert(r@ =~= Seq::new(count as nat, |i: int| value));
    r
}

/// The per-word memory addresses of one row: the base address plus one
/// machine word per state word.
pub fn addr_cells(addr: u32) -> (r: Vec<u32>)
    requires
        addr < FIELD_PRIME - 64,
    ensures
        r@ == Seq::new(NUM_STATE_WORDS as nat, |i: int| (addr + 4 * i) as u32),
{
    let mut r: Vec<u32> = Vec::new();
    let mut i: usize = 0;
    while i < NUM_STATE_WORDS
        invariant
            i <= NUM_STATE_WORDS,
            addr < FIELD_PRIME - 64,
            r@.len() == i,
            forall|t: int| 0 <= t < i ==> r@[t] == (addr + 4 * t) as u32,
        decreases NUM_STATE_WORDS - i,
    {
        r.push(addr + 4 * (i as u32));
        i = i + 1;
    }
    assert(r@ =~= Seq::new(NUM_STATE_WORDS as nat, |i: int| (addr + 4 * i) as u32));
    r
}

/// The one-hot round selector cells for round `r`.
pub fn flag_cells(r: usize) -> (out: Vec<u32>)
    requires
        r < EXTERNAL_ROUND_COUNT,
    ensures
        out@ == Seq::new(
            EXTERNAL_ROUND_COUNT as nat,
            |i: int| if i == r { 1u32 } else { 0u32 },
        ),
{
    let mut out: Vec<u32> = Vec::new();
    let mut i: usize = 0;
    while i < EXTERNAL_ROUND_COUNT
        invariant
            i <= EXTERNAL_ROUND_COUNT,
            out@.len() == i,
            forall|t: int| 0 <= t < i ==> out@[t] == (if t == r { 1u32 } else { 0u32 }),
        decreases EXTERNAL_ROUND_COUNT - i,
    {
        if i == r {
            out.push(1);
        } else {
            out.push(0);
        }
        i = i + 1;
    }
    assert(out@ =~= Seq::new(
        EXTERNAL_ROUND_COUNT as nat,
        |i: int| if i == r { 1u32 } else { 0u32 },
    ));
    out
}

/// The combined round-constant cells for round `r`.
pub fn rc_cells(r: usize) -> (out: Vec<u32>)
    requires
        r < EXTERNAL_ROUND_COUNT,
    ensures
        out@ == Seq::new(NUM_STATE_WORDS as nat, |i: int| rc_spec(r as int, i)),
{
    let mut out: Vec<u32> = Vec::new();
    let mut i: usize = 0;
    while i < NUM_STATE_WORDS
        invariant
            i <= NUM_STATE_WORDS,
            r < EXTERNAL_ROUND_COUNT,
            out@.len() == i,
            forall|t: int| 0 <= t < i ==> out@[t] == rc_spec(r as int, t),
        decreases NUM_STATE_WORDS - i,
    {
        out.push(round_constant(r, i));
        i = i + 1;
    }
    assert(out@ =~= Seq::new(NUM_STATE_WORDS as nat, |i: int| rc_spec(r as int, i)));
    out
}

/// Build the trace row of round `r` for one event, and the state the next
/// round starts from.
#[verifier::rlimit(80)]
pub fn make_event_row(ev: &Poseidon2Event, r: usize, state: &Vec<u32>) -> (out: (Vec<u32>, Vec<
    u32,
>))
    requires
        event_wf(ev@),
        r < EXTERNAL_ROUND_COUNT,
        state@ == spec_round_state(ev@, r as int),
        state@.len() == NUM_STATE_WORDS,
        all_felts(state@),
    ensures
        out.0@ == spec_event_row(ev@, r as int),
        out.1@ == spec_round_state(ev@, r as int + 1),
        out.1@.len() == NUM_STATE_WORDS,
        all_felts(out.1@),
{
    let a = add_rc_state(state, r);
    let s = sbox_state(&a);
    let lin = linear_state(&s);
    assert(lin@ == spec_round_output(state@, r as int));
    assert(spec_round_state(ev@, r as int + 1) == spec_round_output(
        spec_round_state(ev@, r as int),
        r as int,
    ));

    let mut row: Vec<u32> = Vec::new();
    row.push(ev.segment);
    assert(forall|t: int| 0 <= t < 1 ==> row@[t] == spec_cell(ev@, r as int, t));
    let mut part = const_cells(ev.clk + 2 * (r as u32), NUM_STATE_WORDS);
    row.append(&mut part);
    assert(row@.len() == 17);
    assert(forall|t: int| 0 <= t < 17 ==> row@[t] == spec_cell(ev@, r as int, t));
    let mut part = const_cells(ev.clk + 2 * (r as u32) + 1, NUM_STATE_WORDS);
    row.append(&mut part);
    assert(row@.len() == 33);
    assert(forall|t: int| 0 <= t < 33 ==> row@[t] == spec_cell(ev@, r as int, t));
    let mut part = addr_cells(ev.addr);
    row.append(&mut part);
    assert(row@.len() == 49);
    assert(forall|t: int| 0 <= t < 49 ==> row@[t] == spec_cell(ev@, r as int, t));
    let mut part = crate::felt::copy_felts(state);
    row.append(&mut part);
    assert(row@.len() == 65);
    assert(forall|t: int| 0 <= t < 65 ==> row@[t] == spec_cell(ev@, r as int, t));
    let mut part = crate::felt::copy_felts(&lin);
    row.append(&mut part);
    assert(row@.len() == 81);
    assert(forall|t: int| 0 <= t < 81 ==> row@[t] == spec_cell(ev@, r as int, t));
    let mut part = flag_cells(r);
    row.append(&mut part);
    assert(row@.len() == 89);
    assert(forall|t: int| 0 <= t < 89 ==> row@[t] == spec_cell(ev@, r as int, t));
    row.push(r as u32);
    assert(row@.len() == 90);
    assert(forall|t: int| 0 <= t < 90 ==> row@[t] == spec_cell(ev@, r as int, t));
    let mut part = rc_cells(r);
    row.append(&mut part);
    assert(row@.len() == 106);
    assert(forall|t: int| 0 <= t < 106 ==> row@[t] == spec_cell(ev@, r as int, t));
    let mut part = crate::felt::copy_felts(&a);
    row.append(&mut part);
    assert(row@.len() == 122);
    assert(forall|t: int| 0 <= t < 122 ==> row@[t] == spec_cell(ev@, r as int, t));
    let mut part = crate::felt::copy_felts(&s);
    row.append(&mut part);
    assert(row@.len() == 138);
    assert(forall|t: int| 0 <= t < 138 ==> row@[t] == spec_cell(ev@, r as int, t));
    let mut part = crate::felt::copy_felts(&lin);
    row.append(&mut part);
    assert(row@.len() == 154);
    assert(forall|t: int| 0 <= t < 154 ==> row@[t] == spec_cell(ev@, r as int, t));
    row.push(1);
    assert(row@.len() == 155);
    assert(forall|t: int| 0 <= t < 155 ==> row@[t] == spec_cell(ev@, r as int, t));
    assert(row@ =~= spec_event_row(ev@, r as int));
    let out_state = crate::felt::copy_felts(&lin);
    (row, out_state)
}

/// The state an event's words hold once every round has run.
pub fn final_state(ev: &Poseidon2Event) -> (out: Vec<u32>)
    requires
        event_wf(ev@),
    ensures
        out@ == spec_round_state(ev@, EXTERNAL_ROUND_COUNT as int),
        out@.len() == NUM_STATE_WORDS,
        all_felts(out@),
{
    let mut state = crate::felt::copy_felts(&ev.input);
    let mut r: usize = 0;
    while r < EXTERNAL_ROUND_COUNT
        invariant
            r <= EXTERNAL_ROUND_COUNT,
            event_wf(ev@),
            state@ == spec_round_state(ev@, r as int),
            state@.len() == NUM_STATE_WORDS,
            all_felts(state@),
        decreases EXTERNAL_ROUND_COUNT - r,
    {
        state = round_output(&state, r);
        r = r + 1;
    }
    state
}

/// The smallest power of two at least `n` (and at least one).
pub fn next_power_of_two(n: usize) -> (h: usize)
    requires
        n <= 0x4000_0000,
    ensures
        h as nat == spec_height(n as nat),
        h >= n,
        h >= 1,
        h == 1 || h < 2 * n,
{
    let mut h: usize = 1;
    while h < n
        invariant
            h >= 1,
            n <= 0x4000_0000,
            h == 1 || h < 2 * n,
            pow2_from(n as nat, h as nat) == spec_height(n as nat),
        decreases (if h >= n { 0int } else { n - h }),
    {
        assert(pow2_from(n as nat, h as nat) == pow2_from(n as nat, 2 * h as nat));
        h = h * 2;
    }
    h
}

/// The field sum of the first `k` round flags of a row.
pub open spec fn flag_sum(row: Seq<u32>, k: int) -> u32
    decreases k,
{
    if k <= 0 {
        0u32
    } else {
        fadd(flag_sum(row, k - 1), row[COL_IS_ROUND + k - 1])
    }
}

/// The flag-weighted round number of a row: the sum of `i` times flag `i`.
pub open spec fn flag_weighted(row: Seq<u32>, k: int) -> u32
    decreases k,
{
    if k <= 0 {
        0u32
    } else {
        fadd(flag_weighted(row, k - 1), fmul(row[COL_IS_ROUND + k - 1], (k - 1) as u32))
    }
}

/// The flag-weighted combination of the round-constant table at word `i`.
pub open spec fn rc_combo(row: Seq<u32>, i: int, k: int) -> u32
    decreases k,
{
    if k <= 0 {
        0u32
    } else {
        fadd(rc_combo(row, i, k - 1), fmul(row[COL_IS_ROUND + k - 1], rc_spec(k - 1, i)))
    }
}

/// The control-flow constraints on one row and its successor: boolean round
/// flags, sequential round traversal into the next real row, exactly one
/// flag on an active row, the round number as the flag-weighted sum, and
/// the round constants as the flag-weighted table combination.
pub open spec fn spec_control_flow(local: Seq<u32>, next: Seq<u32>, is_transition: bool) -> bool {
    &&& forall|i: int|
        0 <= i < EXTERNAL_ROUND_COUNT ==> (#[trigger] local[COL_IS_ROUND + i]) == 0
            || local[COL_IS_ROUND + i] == 1
    &&& (is_transition && next[COL_IS_EXTERNAL as int] == 1 ==> forall|i: int|
        0 <= i < EXTERNAL_ROUND_COUNT - 1 ==> (#[trigger] local[COL_IS_ROUND + i]) == next[
            COL_IS_ROUND + i + 1
        ])
    &&& (local[COL_IS_EXTERNAL as int] == 1 ==> flag_sum(local, EXTERNAL_ROUND_COUNT as int) == 1)
    &&& local[COL_ROUND_NUMBER as int] == flag_weighted(local, EXTERNAL_ROUND_COUNT as int)
    &&& forall|i: int|
        0 <= i < NUM_STATE_WORDS ==> (#[trigger] local[COL_ROUND_CONSTANT + i]) == rc_combo(
            local,
            i,
            EXTERNAL_ROUND_COUNT as int,
        )
}

/// The memory constraints on one row: on an active row each word's read
/// precedes its write, and the word addresses are consecutive machine words
/// from the row's base address.
pub open spec fn spec_memory(local: Seq<u32>) -> bool {
    local[COL_IS_EXTERNAL as int] == 1 ==> forall|i: int|
        0 <= i < NUM_STATE_WORDS ==> ((#[trigger] local[COL_READ_CLK + i]) < local[COL_WRITE_CLK
            + i] && local[COL_ADDR + i] == local[COL_ADDR as int] + 4 * i)
}

/// The round-body constraints on one row: a boolean activity flag, and on an
/// active row the add-round-constant, S-box and linear-diffusion columns
/// chain from the words read to the words written.
pub open spec fn spec_external_ops(local: Seq<u32>) -> bool {
    &&& local[COL_IS_EXTERNAL as int] == 0 || local[COL_IS_EXTERNAL as int] == 1
    &&& (local[COL_IS_EXTERNAL as int] == 1 ==> forall|i: int|
        0 <= i < NUM_STATE_WORDS ==> ((#[trigger] local[COL_ADD_RC + i]) == fadd(
            local[COL_MEM_READ + i],
            local[COL_ROUND_CONSTANT + i],
        ) && local[COL_SBOX + i] == fpow7(local[COL_ADD_RC + i]) && local[COL_LINEAR + i]
            == spec_linear(local.subrange(COL_SBOX as int, COL_SBOX + NUM_STATE_WORDS))[i]
            && local[COL_MEM_WRITE + i] == local[COL_LINEAR + i]))
}

/// The row a transition constraint pairs with row `k`.
pub open spec fn spec_next_row(t: Seq<Seq<u32>>, k: int) -> Seq<u32> {
    if k + 1 < t.len() {
        t[k + 1]
    } else {
        t[0]
    }
}

/// All of the chip's constraints, over every row of a trace.
pub open spec fn spec_constraints(t: Seq<Seq<u32>>) -> bool {
    forall|k: int|
        0 <= k < t.len() ==> (spec_control_flow(#[trigger] t[k], spec_next_row(t, k), k + 1
            < t.len()) && spec_memory(t[k]) && spec_external_ops(t[k]))
}

/// The permutation chip itself.
pub struct Poseidon2External1Chip {
}

impl Poseidon2External1Chip {
    /// Create the chip.
    pub fn new() -> (r: Poseidon2External1Chip) {
        Poseidon2External1Chip {  }
    }

    /// The number of columns of this chip's trace.
    pub fn width(&self) -> (r: usize)
        ensures
            r == NUM_POSEIDON2_EXTERNAL_COLS,
    {
        NUM_POSEIDON2_EXTERNAL_COLS
    }

    /// Check the control-flow constraints on one row and its successor.
    ///
    /// `is_transition` is false only for the last row of the trace, where no
    /// successor constraint applies.
    pub fn constrain_control_flow_flags(
        &self,
        local: &Vec<u32>,
        next: &Vec<u32>,
        is_transition: bool,
    ) -> (r: bool)
        requires
            local@.len() == NUM_POSEIDON2_EXTERNAL_COLS,
            next@.len() == NUM_POSEIDON2_EXTERNAL_COLS,
            all_felts(local@),
            all_felts(next@),
        ensures
            r == spec_control_flow(local@, next@, is_transition),
    {
        let mut i: usize = 0;
        while i < EXTERNAL_ROUND_COUNT
            invariant
                i <= EXTERNAL_ROUND_COUNT,
                local@.len() == NUM_POSEIDON2_EXTERNAL_COLS,
                forall|t: int|
                    0 <= t < i ==> (#[trigger] local@[COL_IS_ROUND + t]) == 0 || local@[
                        COL_IS_ROUND + t
                    ] == 1,
            decreases EXTERNAL_ROUND_COUNT - i,
        {
            let f = local[COL_IS_ROUND + i];
            if f != 0 && f != 1 {
                proof {
                    assert(local@[COL_IS_ROUND + i as int] != 0 && local@[COL_IS_ROUND + i as int]
                        != 1);
                    assert(!spec_control_flow(local@, next@, is_transition));
                }
                return false;
            }
            i = i + 1;
        }
        if is_transition && next[COL_IS_EXTERNAL] == 1 {
            let mut i: usize = 0;
            while i < EXTERNAL_ROUND_COUNT - 1
                invariant
                    i <= EXTERNAL_ROUND_COUNT - 1,
                    local@.len() == NUM_POSEIDON2_EXTERNAL_COLS,
                    next@.len() == NUM_POSEIDON2_EXTERNAL_COLS,
                    is_transition,
                    next@[COL_IS_EXTERNAL as int] == 1,
                    forall|t: int|
                        0 <= t < i ==> (#[trigger] local@[COL_IS_ROUND + t]) == next@[COL_IS_ROUND
                            + t + 1],
                decreases EXTERNAL_ROUND_COUNT - 1 - i,
            {
                if local[COL_IS_ROUND + i] != next[COL_IS_ROUND + i + 1] {
                    proof {
                        assert(local@[COL_IS_ROUND + i as int] != next@[COL_IS_ROUND + i as int
                            + 1]);
                        assert(!spec_control_flow(local@, next@, is_transition));
                    }
                    return false;
                }
                i = i + 1;
            }
        }
        if local[COL_IS_EXTERNAL] == 1 {
            let mut acc: u32 = 0;
            let mut k: usize = 0;
            while k < EXTERNAL_ROUND_COUNT
                invariant
                    k <= EXTERNAL_ROUND_COUNT,
                    local@.len() == NUM_POSEIDON2_EXTERNAL_COLS,
                    all_felts(local@),
                    acc == flag_sum(local@, k as int),
                    is_felt(acc),
                decreases EXTERNAL_ROUND_COUNT - k,
            {
                acc = felt_add(acc, local[COL_IS_ROUND + k]);
                k = k + 1;
            }
            if acc != 1 {
                proof {
                    assert(flag_sum(local@, EXTERNAL_ROUND_COUNT as int) != 1);
                    assert(local@[COL_IS_EXTERNAL as int] == 1);
                    assert(!spec_control_flow(local@, next@, is_transition));
                }
                return false;
            }
        }
        let mut acc: u32 = 0;
        let mut k: usize = 0;
        while k < EXTERNAL_ROUND_COUNT
            invariant
                k <= EXTERNAL_ROUND_COUNT,
                local@.len() == NUM_POSEIDON2_EXTERNAL_COLS,
                all_felts(local@),
                acc == flag_weighted(local@, k as int),
                is_felt(acc),
            decreases EXTERNAL_ROUND_COUNT - k,
        {
            acc = felt_add(acc, felt_mul(local[COL_IS_ROUND + k], k as u32));
            k = k + 1;
        }
        if local[COL_ROUND_NUMBER] != acc {
            proof {
                assert(local@[COL_ROUND_NUMBER as int] != flag_weighted(
                    local@,
                    EXTERNAL_ROUND_COUNT as int,
                ));
                assert(!spec_control_flow(local@, next@, is_transition));
            }
            return false;
        }
        let mut i: usize = 0;
        while i < NUM_STATE_WORDS
            invariant
                i <= NUM_STATE_WORDS,
                local@.len() == NUM_POSEIDON2_EXTERNAL_COLS,
                all_felts(local@),
                forall|t: int|
                    0 <= t < i ==> (#[trigger] local@[COL_ROUND_CONSTANT + t]) == rc_combo(
                        local@,
                        t,
                        EXTERNAL_ROUND_COUNT as int,
                    ),
            decreases NUM_STATE_WORDS - i,
        {
            let mut acc: u32 = 0;
            let mut k: usize = 0;
            while k < EXTERNAL_ROUND_COUNT
                invariant
                    k <= EXTERNAL_ROUND_COUNT,
                    i < NUM_STATE_WORDS,
                    local@.len() == NUM_POSEIDON2_EXTERNAL_COLS,
                    all_felts(local@),
                    acc == rc_combo(local@, i as int, k as int),
                    is_felt(acc),
                decreases EXTERNAL_ROUND_COUNT - k,
            {
                let rc = round_constant(k, i);
                acc = felt_add(acc, felt_mul(local[COL_IS_ROUND + k], rc));
                k = k + 1;
            }
            if local[COL_ROUND_CONSTANT + i] != acc {
                proof {
                    assert(local@[COL_ROUND_CONSTANT + i as int] != rc_combo(
                        local@,
                        i as int,
                        EXTERNAL_ROUND_COUNT as int,
                    ));
                    assert(!spec_control_flow(local@, next@, is_transition));
                }
                return false;
            }
            i = i + 1;
        }
        true
    }

    /// Check the memory-access constraints on one row.
    pub fn constrain_memory(&self, local: &Vec<u32>) -> (r: bool)
        requires
            local@.len() == NUM_POSEIDON2_EXTERNAL_COLS,
            all_felts(local@),
        ensures
            r == spec_memory(local@),
    {
        if local[COL_IS_EXTERNAL] != 1 {
            return true;
        }
        let mut i: usize = 0;
        while i < NUM_STATE_WORDS
            invariant
                i <= NUM_STATE_WORDS,
                local@.len() == NUM_POSEIDON2_EXTERNAL_COLS,
                all_felts(local@),
                local@[COL_IS_EXTERNAL as int] == 1,
                forall|t: int|
                    0 <= t < i ==> ((#[trigger] local@[COL_READ_CLK + t]) < local@[COL_WRITE_CLK
                        + t] && local@[COL_ADDR + t] == local@[COL_ADDR as int] + 4 * t),
            decreases NUM_STATE_WORDS - i,
        {
            if local[COL_READ_CLK + i] >= local[COL_WRITE_CLK + i] {
                proof {
                    assert(!(local@[COL_READ_CLK + i as int] < local@[COL_WRITE_CLK + i as int]));
                    assert(local@[COL_IS_EXTERNAL as int] == 1);
                    assert(!spec_memory(local@));
                }
                return false;
            }
            let want: u64 = (local[COL_ADDR] as u64) + 4 * (i as u64);
            if (local[COL_ADDR + i] as u64) != want {
                proof {
                    assert(local@[COL_ADDR + i as int] != local@[COL_ADDR as int] + 4 * i);
                    assert(local@[COL_IS_EXTERNAL as int] == 1);
                    assert(!spec_memory(local@));
                }
                return false;
            }
            proof {
                assert(local@[COL_READ_CLK + i as int] < local@[COL_WRITE_CLK + i as int]);
                assert(local@[COL_ADDR + i as int] == local@[COL_ADDR as int] + 4 * i);
            }
            i = i + 1;
        }
        true
    }

    /// Check the round-body constraints on one row.
    pub fn constraint_external_ops(&self, local: &Vec<u32>) -> (r: bool)
        requires
            local@.len() == NUM_POSEIDON2_EXTERNAL_COLS,
            all_felts(local@),
        ensures
            r == spec_external_ops(local@),
    {
        let ext = local[COL_IS_EXTERNAL];
        if ext != 0 && ext != 1 {
            return false;
        }
        if ext != 1 {
            return true;
        }
        let mut sbox_cells: Vec<u32> = Vec::new();
        let mut i: usize = 0;
        while i < NUM_STATE_WORDS
            invariant
                i <= NUM_STATE_WORDS,
                local@.len() == NUM_POSEIDON2_EXTERNAL_COLS,
                all_felts(local@),
                sbox_cells@ == local@.subrange(COL_SBOX as int, COL_SBOX + i),
            decreases NUM_STATE_WORDS - i,
        {
            sbox_cells.push(local[COL_SBOX + i]);
            assert(sbox_cells@ == local@.subrange(COL_SBOX as int, COL_SBOX + i + 1));
            i = i + 1;
        }
        assert(all_felts(sbox_cells@));
        let lin = linear_state(&sbox_cells);
        let mut i: usize = 0;
        while i < NUM_STATE_WORDS
            invariant
                i <= NUM_STATE_WORDS,
                local@.len() == NUM_POSEIDON2_EXTERNAL_COLS,
                all_felts(local@),
                sbox_cells@ == local@.subrange(COL_SBOX as int, COL_SBOX + NUM_STATE_WORDS),
                lin@ == spec_linear(sbox_cells@),
                local@[COL_IS_EXTERNAL as int] == 1,
                forall|t: int|
                    0 <= t < i ==> ((#[trigger] local@[COL_ADD_RC + t]) == fadd(
                        local@[COL_MEM_READ + t],
                        local@[COL_ROUND_CONSTANT + t],
                    ) && local@[COL_SBOX + t] == fpow7(local@[COL_ADD_RC + t]) && local@[COL_LINEAR
                        + t] == spec_linear(
                        local@.subrange(COL_SBOX as int, COL_SBOX + NUM_STATE_WORDS),
                    )[t] && local@[COL_MEM_WRITE + t] == local@[COL_LINEAR + t]),
            decreases NUM_STATE_WORDS - i,
        {
            if local[COL_ADD_RC + i] != felt_add(
                local[COL_MEM_READ + i],
                local[COL_ROUND_CONSTANT + i],
            ) {
                proof {
                    assert(local@[COL_ADD_RC + i as int] != fadd(
                        local@[COL_MEM_READ + i as int],
                        local@[COL_ROUND_CONSTANT + i as int],
                    ));
                    assert(local@[COL_IS_EXTERNAL as int] == 1);
                    assert(!spec_external_ops(local@));
                }
                return false;
            }
            if local[COL_SBOX + i] != felt_pow7(local[COL_ADD_RC + i]) {
                proof {
                    assert(local@[COL_SBOX + i as int] != fpow7(local@[COL_ADD_RC + i as int]));
                    assert(local@[COL_IS_EXTERNAL as int] == 1);
                    assert(!spec_external_ops(local@));
                }
                return false;
            }
            if local[COL_LINEAR + i] != lin[i] {
                proof {
                    assert(local@[COL_LINEAR + i as int] != spec_linear(
                        local@.subrange(COL_SBOX as int, COL_SBOX + NUM_STATE_WORDS),
                    )[i as int]);
                    assert(local@[COL_IS_EXTERNAL as int] == 1);
                    assert(!spec_external_ops(local@));
                }
                return false;
            }
            if local[COL_MEM_WRITE + i] != local[COL_LINEAR + i] {
                proof {
                    assert(local@[COL_MEM_WRITE + i as int] != local@[COL_LINEAR + i as int]);
                    assert(local@[COL_IS_EXTERNAL as int] == 1);
                    assert(!spec_external_ops(local@));
                }
                return false;
            }
            i = i + 1;
        }
        true
    }

    /// Check every constraint on every row of a trace.
    pub fn eval(&self, trace: &TraceMatrix) -> (r: bool)
        requires
            crate::record::trace_wf(trace@, NUM_POSEIDON2_EXTERNAL_COLS as int),
            trace@.len() > 0,
        ensures
            r == spec_constraints(trace@),
    {
        let h = trace.rows.len();
        let mut k: usize = 0;
        while k < h
            invariant
                k <= h,
                h == trace@.len(),
                h > 0,
                crate::record::trace_wf(trace@, NUM_POSEIDON2_EXTERNAL_COLS as int),
                forall|t: int|
                    0 <= t < k ==> (spec_control_flow(#[trigger] trace@[t], spec_next_row(
                        trace@,
                        t,
                    ), t + 1 < trace@.len()) && spec_memory(trace@[t]) && spec_external_ops(
                        trace@[t],
                    )),
            decreases h - k,
        {
            let local = &trace.rows[k];
            let is_transition = k + 1 < h;
            let next_idx = if is_transition {
                k + 1
            } else {
                0
            };
            let next = &trace.rows[next_idx];
            assert(next@ == spec_next_row(trace@, k as int));
            assert(local@ == trace@[k as int]);
            if !self.constrain_control_flow_flags(local, next, is_transition) {
                return false;
            }
            if !self.constrain_memory(local) {
                return false;
            }
            if !self.constraint_external_ops(local) {
                return false;
            }
            k = k + 1;
        }
        true
    }
}

/// Build the chip's lookup events: one range-check request per state word
/// written back, in event order then word order.
pub fn build_lookups(input: &ExecutionRecord) -> (out: Vec<LookupEvent>)
    requires
        record_wf(input@),
    ensures
        out@ == spec_chip_lookups(input@),
{
    let mut out: Vec<LookupEvent> = Vec::new();
    let n = input.poseidon2_events.len();
    let mut k: usize = 0;
    while k < n
        invariant
            k <= n,
            n == input@.poseidon2_events.len(),
            record_wf(input@),
            out@.len() == k * NUM_STATE_WORDS,
            forall|m: int| 0 <= m < k * NUM_STATE_WORDS ==> #[trigger] out@[m]
                == spec_chip_lookups(input@)[m],
        decreases n - k,
    {
        let ev = &input.poseidon2_events[k];
        assert(ev@ == input@.poseidon2_events[k as int]);
        assert(event_wf(ev@));
        let fs = final_state(ev);
        let mut i: usize = 0;
        while i < NUM_STATE_WORDS
            invariant
                i <= NUM_STATE_WORDS,
                k < n,
                n == input@.poseidon2_events.len(),
                record_wf(input@),
                ev@ == input@.poseidon2_events[k as int],
                fs@ == spec_round_state(ev@, EXTERNAL_ROUND_COUNT as int),
                fs@.len() == NUM_STATE_WORDS,
                out@.len() == k * NUM_STATE_WORDS + i,
                forall|m: int| 0 <= m < k * NUM_STATE_WORDS + i ==> #[trigger] out@[m]
                    == spec_chip_lookups(input@)[m],
            decreases NUM_STATE_WORDS - i,
        {
            let e = LookupEvent { kind: 0, value: fs[i] };
            out.push(e);
            proof {
                let m = k * NUM_STATE_WORDS + i;
                assert(m / (NUM_STATE_WORDS as int) == k && m % (NUM_STATE_WORDS as int)
                    == i) by (nonlinear_arith)
                    requires
                        m == k * NUM_STATE_WORDS + i,
                        0 <= i < NUM_STATE_WORDS,
                        k >= 0,
                        NUM_STATE_WORDS == 16,
                ;
                assert(k * NUM_STATE_WORDS + i < n * NUM_STATE_WORDS) by (nonlinear_arith)
                    requires
                        0 <= i < NUM_STATE_WORDS,
                        0 <= k < n,
                ;
                assert(out@[m] == spec_chip_lookups(input@)[m]);
            }
            i = i + 1;
        }
        k = k + 1;
    }
    proof {
        assert(out@ =~= spec_chip_lookups(input@));
    }
    out
}

impl MachineAir for Poseidon2External1Chip {
    open spec fn spec_id(&self) -> int {
        0
    }

    open spec fn spec_trace(&self, rec: RecordModel) -> Seq<Seq<u32>> {
        spec_chip_trace(rec)
    }

    open spec fn spec_lookups(&self, rec: RecordModel) -> Seq<LookupEvent> {
        spec_chip_lookups(rec)
    }

    open spec fn spec_preprocessed(&self, instructions: Seq<u32>, pc_start: u32) -> Option<
        Seq<Seq<u32>>,
    > {
        Option::None
    }

    open spec fn spec_preprocessed_width(&self) -> int {
        0
    }

    fn name(&self) -> String {
        "poseidon2_external".to_owned()
    }

    fn chip_id(&self) -> (r: usize) {
        0
    }

    #[verifier::rlimit(100)]
    fn generate_trace(&self, input: &ExecutionRecord, output: &mut LookupSink) -> (t: TraceMatrix) {
        let mut rows: Vec<Vec<u32>> = Vec::new();
        let n = input.poseidon2_events.len();
        let mut k: usize = 0;
        while k < n
            invariant
                k <= n,
                n == input@.poseidon2_events.len(),
                record_wf(input@),
                rows@.len() == k * EXTERNAL_ROUND_COUNT,
                forall|m: int| 0 <= m < k * EXTERNAL_ROUND_COUNT ==> (#[trigger] rows@[m])@
                    == spec_event_row(
                    input@.poseidon2_events[m / (EXTERNAL_ROUND_COUNT as int)],
                    m % (EXTERNAL_ROUND_COUNT as int),
                ),
            decreases n - k,
        {
            let ev = &input.poseidon2_events[k];
            assert(ev@ == input@.poseidon2_events[k as int]);
            assert(event_wf(ev@));
            let mut state = crate::felt::copy_felts(&ev.input);
            let mut r: usize = 0;
            while r < EXTERNAL_ROUND_COUNT
                invariant
                    r <= EXTERNAL_ROUND_COUNT,
                    k < n,
                    n == input@.poseidon2_events.len(),
                    record_wf(input@),
                    ev@ == input@.poseidon2_events[k as int],
                    event_wf(ev@),
                    state@ == spec_round_state(ev@, r as int),
                    state@.len() == NUM_STATE_WORDS,
                    all_felts(state@),
                    rows@.len() == k * EXTERNAL_ROUND_COUNT + r,
                    forall|m: int| 0 <= m < k * EXTERNAL_ROUND_COUNT + r ==> (#[trigger] rows@[m])@
                        == spec_event_row(
                        input@.poseidon2_events[m / (EXTERNAL_ROUND_COUNT as int)],
                        m % (EXTERNAL_ROUND_COUNT as int),
                    ),
                decreases EXTERNAL_ROUND_COUNT - r,
            {
                let pair = make_event_row(ev, r, &state);
                let row = pair.0;
                state = pair.1;
                rows.push(row);
                proof {
                    let m = k * EXTERNAL_ROUND_COUNT + r;
                    assert(m / (EXTERNAL_ROUND_COUNT as int) == k && m % (
                    EXTERNAL_ROUND_COUNT as int) == r) by (nonlinear_arith)
                        requires
                            m == k * EXTERNAL_ROUND_COUNT + r,
                            0 <= r < EXTERNAL_ROUND_COUNT,
                            k >= 0,
                            EXTERNAL_ROUND_COUNT == 8,
                    ;
                }
                r = r + 1;
            }
            k = k + 1;
        }
        let n_real = n * EXTERNAL_ROUND_COUNT;
        assert(n_real <= 0x4000_0000) by (nonlinear_arith)
            requires
                n_real == n * EXTERNAL_ROUND_COUNT,
                n <= 0x10_0000,
                EXTERNAL_ROUND_COUNT == 8,
        ;
        let height = next_power_of_two(n_real);
        let zero_row = const_cells(0, NUM_POSEIDON2_EXTERNAL_COLS);
        assert(zero_row@ =~= spec_zero_row());
        while rows.len() < height
            invariant
                n_real <= rows@.len(),
                rows@.len() <= height,
                n_real == n * EXTERNAL_ROUND_COUNT,
                n == input@.poseidon2_events.len(),
                height as nat == spec_height(n_real as nat),
                zero_row@ == spec_zero_row(),
                forall|m: int| 0 <= m < n_real ==> (#[trigger] rows@[m])@ == spec_event_row(
                    input@.poseidon2_events[m / (EXTERNAL_ROUND_COUNT as int)],
                    m % (EXTERNAL_ROUND_COUNT as int),
                ),
                forall|m: int| n_real <= m < rows@.len() ==> (#[trigger] rows@[m])@
                    == spec_zero_row(),
            decreases height - rows@.len(),
        {
            rows.push(crate::felt::copy_felts(&zero_row));
        }
        let t = TraceMatrix { rows, width: NUM_POSEIDON2_EXTERNAL_COLS };
        proof {
            assert(t@ =~~= spec_chip_trace(input@));
        }
        let lookups = build_lookups(input);
        output.register(0, lookups);
        t
    }

    fn generate_dependencies(&self, input: &ExecutionRecord, output: &mut LookupSink) {
        let lookups = build_lookups(input);
        output.register(0, lookups);
    }

    fn preprocessed_width(&self) -> (r: usize) {
        0
    }

    fn generate_preprocessed_trace(&self, program: &Program) -> (r: Option<TraceMatrix>) {
        Option::None
    }
}

/// `pow2_from` dominates both its arguments.
pub proof fn lemma_pow2_from_ge(n: nat, acc: nat)
    ensures
        pow2_from(n, acc) >= n,
        pow2_from(n, acc) >= acc,
    decreases (if acc >= n {
        0int
    } else {
        n - acc
    }),
{
    if acc >= n {
    } else if acc < 1 {
        lemma_pow2_from_ge(n, 1);
    } else {
        lemma_pow2_from_ge(n, 2 * acc);
    }
}

/// The round invariant of the generated trace: every real row is active,
/// carries exactly the one round flag of its position within its event's
/// block of rounds, and its round number enumerates the rounds in order.
pub proof fn lemma_round_invariant(rec: RecordModel)
    requires
        record_wf(rec),
    ensures
        forall|k: int|
            0 <= k < rec.poseidon2_events.len() * EXTERNAL_ROUND_COUNT
                ==> (#[trigger] spec_chip_trace(rec)[k])[COL_IS_EXTERNAL as int] == 1
                && (forall|i: int|
                0 <= i < EXTERNAL_ROUND_COUNT ==> (#[trigger] spec_chip_trace(rec)[k][COL_IS_ROUND
                    + i]) == (if i == k % (EXTERNAL_ROUND_COUNT as int) {
                    1u32
                } else {
                    0u32
                })) && spec_chip_trace(rec)[k][COL_ROUND_NUMBER as int] == (k % (
            EXTERNAL_ROUND_COUNT as int)) as u32,
{
    let n_real = rec.poseidon2_events.len() * EXTERNAL_ROUND_COUNT as nat;
    lemma_pow2_from_ge(n_real, 1);
    assert forall|k: int| 0 <= k < n_real implies (#[trigger] spec_chip_trace(rec)[k])[
    COL_IS_EXTERNAL as int] == 1 && (forall|i: int|
        0 <= i < EXTERNAL_ROUND_COUNT ==> (#[trigger] spec_chip_trace(rec)[k][COL_IS_ROUND + i])
            == (if i == k % (EXTERNAL_ROUND_COUNT as int) {
            1u32
        } else {
            0u32
        })) && spec_chip_trace(rec)[k][COL_ROUND_NUMBER as int] == (k % (
    EXTERNAL_ROUND_COUNT as int)) as u32 by {
        let r = k % (EXTERNAL_ROUND_COUNT as int);
        let e = rec.poseidon2_events[k / (EXTERNAL_ROUND_COUNT as int)];
        assert(0 <= r < EXTERNAL_ROUND_COUNT);
        assert(spec_chip_trace(rec)[k] == spec_event_row(e, r));
        assert(spec_event_row(e, r)[COL_IS_EXTERNAL as int] == spec_cell(e, r, COL_IS_EXTERNAL as int));
        assert forall|i: int| 0 <= i < EXTERNAL_ROUND_COUNT implies (#[trigger] spec_chip_trace(
            rec,
        )[k][COL_IS_ROUND + i]) == (if i == r {
            1u32
        } else {
            0u32
        }) by {
            assert(spec_event_row(e, r)[COL_IS_ROUND + i] == spec_cell(e, r, COL_IS_ROUND + i));
        }
    }
}

/// A row whose round flags are one-hot at position `r`.
pub open spec fn flags_delta(row: Seq<u32>, r: int) -> bool {
    forall|i: int|
        0 <= i < EXTERNAL_ROUND_COUNT ==> (#[trigger] row[COL_IS_ROUND + i]) == (if i == r {
            1u32
        } else {
            0u32
        })
}

/// Whether the first `k` round flags of a row are all boolean.
pub open spec fn flags_boolean(row: Seq<u32>) -> bool {
    forall|i: int|
        0 <= i < EXTERNAL_ROUND_COUNT ==> (#[trigger] row[COL_IS_ROUND + i]) == 0 || row[
            COL_IS_ROUND + i
        ] == 1
}

/// The flag sum of a row with boolean flags counts its set flags and never
/// wraps.
pub proof fn lemma_flag_sum_bounded(row: Seq<u32>, k: int)
    requires
        row.len() == NUM_POSEIDON2_EXTERNAL_COLS,
        flags_boolean(row),
        0 <= k <= EXTERNAL_ROUND_COUNT,
    ensures
        flag_sum(row, k) <= k,
    decreases k,
{
    if k > 0 {
        lemma_flag_sum_bounded(row, k - 1);
    }
}

/// A set flag makes the flag sum positive.
pub proof fn lemma_flag_sum_positive(row: Seq<u32>, p: int, k: int)
    requires
        row.len() == NUM_POSEIDON2_EXTERNAL_COLS,
        flags_boolean(row),
        0 <= p < k <= EXTERNAL_ROUND_COUNT,
        row[COL_IS_ROUND + p] == 1,
    ensures
        flag_sum(row, k) >= 1,
    decreases k,
{
    lemma_flag_sum_bounded(row, k - 1);
    if p == k - 1 {
    } else {
        lemma_flag_sum_positive(row, p, k - 1);
    }
}

/// Boolean flags that sum to one, with flag `p` set, are one-hot at `p`.
pub proof fn lemma_one_hot(row: Seq<u32>, p: int)
    requires
        row.len() == NUM_POSEIDON2_EXTERNAL_COLS,
        flags_boolean(row),
        0 <= p < EXTERNAL_ROUND_COUNT,
        row[COL_IS_ROUND + p] == 1,
        flag_sum(row, EXTERNAL_ROUND_COUNT as int) == 1,
    ensures
        flags_delta(row, p),
{
    assert forall|i: int|
        0 <= i < EXTERNAL_ROUND_COUNT implies (#[trigger] row[COL_IS_ROUND + i]) == (if i == p {
        1u32
    } else {
        0u32
    }) by {
        if i != p && row[COL_IS_ROUND + i] == 1 {
            let a = if i < p {
                i
            } else {
                p
            };
            let b = if i < p {
                p
            } else {
                i
            };
            lemma_two_set_flags_sum_two(row, a, b, EXTERNAL_ROUND_COUNT as int);
        }
    }
}

/// Two distinct set flags make the flag sum at least two.
pub proof fn lemma_two_set_flags_sum_two(row: Seq<u32>, a: int, b: int, k: int)
    requires
        row.len() == NUM_POSEIDON2_EXTERNAL_COLS,
        flags_boolean(row),
        0 <= a < b < k <= EXTERNAL_ROUND_COUNT,
        row[COL_IS_ROUND + a] == 1,
        row[COL_IS_ROUND + b] == 1,
    ensures
        flag_sum(row, k) >= 2,
    decreases k,
{
    lemma_flag_sum_bounded(row, k - 1);
    if b == k - 1 {
        lemma_flag_sum_positive(row, a, k - 1);
    } else {
        lemma_two_set_flags_sum_two(row, a, b, k - 1);
    }
}

/// The flag-weighted round number of a one-hot row is the flag's position.
pub proof fn lemma_flag_weighted_of_delta(row: Seq<u32>, r: int, k: int)
    requires
        row.len() == NUM_POSEIDON2_EXTERNAL_COLS,
        flags_delta(row, r),
        0 <= r < EXTERNAL_ROUND_COUNT,
        0 <= k <= EXTERNAL_ROUND_COUNT,
    ensures
        flag_weighted(row, k) == if r < k {
            r as u32
        } else {
            0u32
        },
    decreases k,
{
    if k > 0 {
        lemma_flag_weighted_of_delta(row, r, k - 1);
    }
}

/// In any trace satisfying the chip's constraints, a block of consecutive
/// active rows whose first row has round flag zero set enumerates the
/// rounds in order: row `j` of the block is one-hot at round `j`, and its
/// round number is `j` — each round once, in increasing row order.
/// The emitted control-flow constraints force the round selectors of a
/// block of consecutive active rows to enumerate the rounds once each, in
/// increasing row order: under exactly the facts the constraints assert of
/// every row — boolean flags, flags summing to one, the flag-weighted
/// round number, and the sequential transition into the next active row —
/// row `j` of a block whose first row selects round zero is one-hot at
/// round `j` and carries round number `j`.
pub proof fn lemma_rounds_enumerate(rows: Seq<Seq<u32>>, j: int)
    requires
        rows.len() == EXTERNAL_ROUND_COUNT,
        forall|u: int|
            0 <= u < EXTERNAL_ROUND_COUNT ==> (#[trigger] rows[u]).len()
                == NUM_POSEIDON2_EXTERNAL_COLS,
        forall|u: int| 0 <= u < EXTERNAL_ROUND_COUNT ==> flags_boolean(#[trigger] rows[u]),
        forall|u: int|
            0 <= u < EXTERNAL_ROUND_COUNT ==> flag_sum(
                #[trigger] rows[u],
                EXTERNAL_ROUND_COUNT as int,
            ) == 1,
        forall|u: int|
            0 <= u < EXTERNAL_ROUND_COUNT ==> (#[trigger] rows[u])[COL_ROUND_NUMBER as int]
                == flag_weighted(rows[u], EXTERNAL_ROUND_COUNT as int),
        forall|u: int, i: int|
            0 <= u < EXTERNAL_ROUND_COUNT - 1 && 0 <= i < EXTERNAL_ROUND_COUNT - 1 ==> (
            #[trigger] rows[u][COL_IS_ROUND + i]) == rows[u + 1][COL_IS_ROUND + i + 1],
        rows[0][COL_IS_ROUND as int] == 1,
        0 <= j < EXTERNAL_ROUND_COUNT,
    ensures
        flags_delta(rows[j], j),
        rows[j][COL_ROUND_NUMBER as int] == j as u32,
    decreases j,
{
    if j == 0 {
        lemma_one_hot(rows[0], 0);
    } else {
        lemma_rounds_enumerate(rows, j - 1);
        assert(flags_delta(rows[j - 1], j - 1));
        assert(rows[j - 1][COL_IS_ROUND + (j - 1)] == 1);
        assert(rows[j - 1][COL_IS_ROUND + (j - 1)] == rows[j][COL_IS_ROUND + (j - 1) + 1]);
        lemma_one_hot(rows[j], j);
    }
    lemma_flag_weighted_of_delta(rows[j], j, EXTERNAL_ROUND_COUNT as int);
}

} // verus!
