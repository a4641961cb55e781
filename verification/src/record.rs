//! Execution records, the cross-chip lookup sink, trace matrices, and the
//! arithmetization interface every chip implements.

use vstd::prelude::*;
use crate::felt::{is_felt, all_felts, FIELD_PRIME};

verus! {

/// One cross-chip lookup request, written by a producing chip and consumed
/// by another chip's argument.
#[derive(Clone, Copy, PartialEq, Eq, Structural)]
pub struct LookupEvent {
    /// The kind of lookup requested (a range check, for instance).
    pub kind: u32,
    /// The value the request is about.
    pub value: u32,
}

/// The shared lookup-event sink.
///
/// Each chip owns one slot, keyed by its chip index; registering replaces the
/// slot's contents outright, so repeated dependency generation neither
/// duplicates nor drops events. Merging concatenates the slots in chip order,
/// then emission order.
pub struct LookupSink {
    pub slots: Vec<Vec<LookupEvent>>,
}

/// The sink contents after a chip registers its events: the slot list is
/// grown with empty slots as needed, then the chip's slot is replaced.
pub open spec fn spec_register(
    slots: Seq<Seq<LookupEvent>>,
    chip: int,
    events: Seq<LookupEvent>,
) -> Seq<Seq<LookupEvent>> {
    let grown = if slots.len() > chip {
        slots
    } else {
        slots + Seq::new((chip + 1 - slots.len()) as nat, |i: int| Seq::<LookupEvent>::empty())
    };
    grown.update(chip, events)
}

/// The deterministic merge of the sink: slots concatenated in chip order.
pub open spec fn spec_merged(slots: Seq<Seq<LookupEvent>>) -> Seq<LookupEvent>
    decreases slots.len(),
{
    if slots.len() == 0 {
        Seq::empty()
    } else {
        slots[0] + spec_merged(slots.skip(1))
    }
}

impl View for LookupSink {
    type V = Seq<Seq<LookupEvent>>;

    open spec fn view(&self) -> Seq<Seq<LookupEvent>> {
        Seq::new(self.slots@.len(), |i: int| self.slots@[i]@)
    }
}

/// Copy a list of lookup events; the copy carries the same view.
pub fn copy_events(v: &Vec<LookupEvent>) -> (r: Vec<LookupEvent>)
    ensures
        r@ == v@,
{
    let mut r: Vec<LookupEvent> = Vec::new();
    let mut i: usize = 0;
    while i < v.len()
        invariant
            i <= v.len(),
            r@ == v@.take(i as int),
        decreases v.len() - i,
    {
        r.push(v[i]);
        assert(r@ == v@.take(i as int + 1));
        i = i + 1;
    }
    assert(v@.take(v@.len() as int) == v@);
    r
}

impl LookupSink {
    /// An empty sink with no slots.
    pub fn new() -> (r: LookupSink)
        ensures
            r@ == Seq::<Seq<LookupEvent>>::empty(),
    {
        let r = LookupSink { slots: Vec::new() };
        assert(r@ =~= Seq::<Seq<LookupEvent>>::empty());
        r
    }

    /// Replace the events registered under one chip's slot.
    pub fn register(&mut self, chip: usize, events: Vec<LookupEvent>)
        requires
            chip < usize::MAX,
        ensures
            final(self)@ == spec_register(old(self)@, chip as int, events@),
    {
        let ghost orig = self@;
        let ghost target = spec_register(old(self)@, chip as int, events@);
        let n = if self.slots.len() > chip {
            self.slots.len()
        } else {
            chip + 1
        };
        assert(n == target.len());
        let mut new_slots: Vec<Vec<LookupEvent>> = Vec::new();
        let mut k: usize = 0;
        while k < n
            invariant
                k <= n,
                n == target.len(),
                chip < n,
                self@ == orig,
                target == spec_register(orig, chip as int, events@),
                n == if orig.len() > chip {
                    orig.len() as int
                } else {
                    chip + 1
                },
                new_slots@.len() == k,
                forall|t: int| 0 <= t < k ==> (#[trigger] new_slots@[t])@ == target[t],
            decreases n - k,
        {
            if k == chip {
                new_slots.push(copy_events(&events));
            } else if k < self.slots.len() {
                new_slots.push(copy_events(&self.slots[k]));
            } else {
                new_slots.push(Vec::new());
            }
            k = k + 1;
        }
        self.slots = new_slots;
        assert(self@ =~~= target);
    }

    /// The merged event list: slots in chip order, emission order within.
    pub fn merged(&self) -> (r: Vec<LookupEvent>)
        ensures
            r@ == spec_merged(self@),
    {
        let mut r: Vec<LookupEvent> = Vec::new();
        let ghost model = self@;
        assert(model.skip(0) == model);
        let mut i: usize = 0;
        while i < self.slots.len()
            invariant
                i <= self@.len(),
                model == self@,
                r@ + spec_merged(model.skip(i as int)) == spec_merged(model),
            decreases self@.len() - i,
        {
            let ghost before = r@;
            let mut j: usize = 0;
            let slot_len = self.slots[i].len();
            while j < slot_len
                invariant
                    j <= slot_len,
                    i < self@.len(),
                    model == self@,
                    slot_len == model[i as int].len(),
                    r@ == before + model[i as int].take(j as int),
                decreases slot_len - j,
            {
                r.push(self.slots[i][j]);
                assert(r@ == before + model[i as int].take(j as int + 1));
                j = j + 1;
            }
            proof {
                assert(model[i as int].take(model[i as int].len() as int) == model[i as int]);
                let rest = model.skip(i as int);
                assert(rest[0] == model[i as int]);
                assert(rest.skip(1) =~= model.skip(i as int + 1));
                assert(spec_merged(rest) == model[i as int] + spec_merged(model.skip(i as int + 1)));
                assert(r@ + spec_merged(model.skip(i as int + 1)) =~= spec_merged(model));
            }
            i = i + 1;
        }
        assert(spec_merged(model.skip(model.len() as int)) == Seq::<LookupEvent>::empty());
        assert(r@ =~= spec_merged(model));
        r
    }
}

/// Registering the same events twice under the same chip leaves the sink
/// exactly as one registration does: dependency generation is idempotent.
pub proof fn lemma_register_idempotent(
    slots: Seq<Seq<LookupEvent>>,
    chip: int,
    events: Seq<LookupEvent>,
)
    requires
        chip >= 0,
    ensures
        spec_register(spec_register(slots, chip, events), chip, events) == spec_register(
            slots,
            chip,
            events,
        ),
{
    let once = spec_register(slots, chip, events);
    assert(once.len() > chip);
    assert(spec_register(once, chip, events) =~= once);
}

/// One permutation request: the machine state to be permuted, with the
/// segment, clock and base address at which its words were observed on the
/// memory bus.
pub struct Poseidon2Event {
    pub segment: u32,
    pub clk: u32,
    pub addr: u32,
    pub input: Vec<u32>,
}

/// The mathematical content of a permutation request.
pub struct EventModel {
    pub segment: u32,
    pub clk: u32,
    pub addr: u32,
    pub input: Seq<u32>,
}

impl View for Poseidon2Event {
    type V = EventModel;

    open spec fn view(&self) -> EventModel {
        EventModel {
            segment: self.segment,
            clk: self.clk,
            addr: self.addr,
            input: self.input@,
        }
    }
}

/// Well-formedness of a permutation request: a full state of canonical field
/// elements, and clocks and addresses far enough from the field's modulus
/// that per-round offsets stay canonical.
pub open spec fn event_wf(e: EventModel) -> bool {
    &&& e.input.len() == crate::perm::PERMUTATION_WIDTH
    &&& all_felts(e.input)
    &&& is_felt(e.segment)
    &&& e.clk < FIELD_PRIME - 64
    &&& e.addr < FIELD_PRIME - 64
}

/// The per-shard execution record: the event lists accumulated for each chip.
pub struct ExecutionRecord {
    pub poseidon2_events: Vec<Poseidon2Event>,
}

/// The mathematical content of an execution record.
pub struct RecordModel {
    pub poseidon2_events: Seq<EventModel>,
}

impl View for ExecutionRecord {
    type V = RecordModel;

    open spec fn view(&self) -> RecordModel {
        RecordModel {
            poseidon2_events: Seq::new(
                self.poseidon2_events@.len(),
                |i: int| self.poseidon2_events@[i]@,
            ),
        }
    }
}

/// Well-formedness of a record: every event well formed, and few enough
/// events that the padded trace height fits comfortably in a machine word.
pub open spec fn record_wf(r: RecordModel) -> bool {
    &&& r.poseidon2_events.len() <= 0x10_0000
    &&& forall|i: int|
        0 <= i < r.poseidon2_events.len() ==> event_wf(#[trigger] r.poseidon2_events[i])
}

/// The static program a preprocessed trace may be computed from.
pub struct Program {
    pub instructions: Vec<u32>,
    pub pc_start: u32,
}

/// A row-major matrix of field elements: the trace a chip contributes.
pub struct TraceMatrix {
    pub rows: Vec<Vec<u32>>,
    pub width: usize,
}

impl View for TraceMatrix {
    type V = Seq<Seq<u32>>;

    open spec fn view(&self) -> Seq<Seq<u32>> {
        Seq::new(self.rows@.len(), |i: int| self.rows@[i]@)
    }
}

/// Well-formedness of a trace matrix: rectangular, and canonical throughout.
pub open spec fn trace_wf(t: Seq<Seq<u32>>, width: int) -> bool {
    forall|i: int|
        0 <= i < t.len() ==> (#[trigger] t[i]).len() == width && all_felts(t[i])
}

/// The arithmetization interface: every chip of the machine turns an
/// execution record into trace columns this way.
///
/// The trace and the registered lookup events are pinned to spec functions
/// of the record alone, so identical logical input always yields a
/// bit-identical matrix, and repeated dependency generation registers
/// identical lookup events.
pub trait MachineAir: Sized {
    /// The chip's slot in the lookup sink.
    spec fn spec_id(&self) -> int;

    /// The trace this chip produces from a record.
    spec fn spec_trace(&self, rec: RecordModel) -> Seq<Seq<u32>>;

    /// The lookup events this chip registers for a record.
    spec fn spec_lookups(&self, rec: RecordModel) -> Seq<LookupEvent>;

    /// The preprocessed trace computed once from the static program, if any.
    spec fn spec_preprocessed(&self, instructions: Seq<u32>, pc_start: u32) -> Option<
        Seq<Seq<u32>>,
    >;

    /// The number of preprocessed columns this chip contributes.
    spec fn spec_preprocessed_width(&self) -> int;

    /// A unique identifier for this chip within the machine.
    fn name(&self) -> String;

    /// The chip's slot index in the lookup sink.
    fn chip_id(&self) -> (r: usize)
        ensures
            r as int == self.spec_id(),
    ;

    /// Generate the trace for a given execution record, registering this
    /// chip's lookup events with the sink as a side effect.
    fn generate_trace(&self, input: &ExecutionRecord, output: &mut LookupSink) -> (t: TraceMatrix)
        requires
            record_wf(input@),
        ensures
            t@ == self.spec_trace(input@),
            final(output)@ == spec_register(old(output)@, self.spec_id(), self.spec_lookups(
                input@,
            )),
    ;

    /// Generate only the dependencies: register the same lookup events the
    /// trace generation would.
    fn generate_dependencies(&self, input: &ExecutionRecord, output: &mut LookupSink)
        requires
            record_wf(input@),
        ensures
            final(output)@ == spec_register(old(output)@, self.spec_id(), self.spec_lookups(
                input@,
            )),
    ;

    /// The number of preprocessed columns in the trace.
    fn preprocessed_width(&self) -> (r: usize)
        ensures
            r as int == self.spec_preprocessed_width(),
    ;

    /// The preprocessed trace computed from the static program, if this chip
    /// has one.
    fn generate_preprocessed_trace(&self, program: &Program) -> (r: Option<TraceMatrix>)
        ensures
            match r {
                Option::Some(t) => self.spec_preprocessed(program.instructions@, program.pc_start)
                    is Some && t@ == self.spec_preprocessed(
                    program.instructions@,
                    program.pc_start,
                )->0,
                Option::None => self.spec_preprocessed(program.instructions@, program.pc_start)
                    is None,
            },
    ;
}

/// Trace generation is deterministic: two equal records yield the same
/// matrix, and register the same lookup events, for any chip.
pub proof fn lemma_generate_trace_deterministic<A: MachineAir>(
    chip: &A,
    r1: RecordModel,
    r2: RecordModel,
)
    requires
        r1 == r2,
    ensures
        chip.spec_trace(r1) == chip.spec_trace(r2),
        chip.spec_lookups(r1) == chip.spec_lookups(r2),
{
}

} // verus!
