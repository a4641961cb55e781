use recursion_core::chip::{
    Poseidon2External1Chip, EXTERNAL_ROUND_COUNT, NUM_POSEIDON2_EXTERNAL_COLS, COL_IS_ROUND,
    COL_ROUND_NUMBER, COL_IS_EXTERNAL,
};
use recursion_core::record::{ExecutionRecord, LookupSink, Poseidon2Event, MachineAir};

fn sample_event(seed: u32) -> Poseidon2Event {
    let input: Vec<u32> = (0..16u32).map(|i| seed * 1009 + i * 31 + 1).collect();
    Poseidon2Event { segment: 1, clk: 100 + seed * 64, addr: 4096 + seed * 128, input }
}

fn sample_record(n: u32) -> ExecutionRecord {
    ExecutionRecord { poseidon2_events: (0..n).map(sample_event).collect() }
}

#[test]
fn generate_trace_is_deterministic() {
    let chip = Poseidon2External1Chip::new();
    let record = sample_record(2);
    let record_again = sample_record(2);
    let mut sink_a = LookupSink::new();
    let mut sink_b = LookupSink::new();
    let a = chip.generate_trace(&record, &mut sink_a);
    let b = chip.generate_trace(&record_again, &mut sink_b);
    assert_eq!(a.width, b.width);
    assert_eq!(a.rows.len(), b.rows.len());
    for (ra, rb) in a.rows.iter().zip(b.rows.iter()) {
        assert_eq!(ra, rb);
    }
    let ma = sink_a.merged();
    let mb = sink_b.merged();
    assert_eq!(ma.len(), mb.len());
    for (ea, eb) in ma.iter().zip(mb.iter()) {
        assert_eq!(ea.kind, eb.kind);
        assert_eq!(ea.value, eb.value);
    }
}

#[test]
fn dependency_generation_is_idempotent() {
    let chip = Poseidon2External1Chip::new();
    let record = sample_record(3);
    let mut sink = LookupSink::new();
    chip.generate_dependencies(&record, &mut sink);
    let once = sink.merged();
    chip.generate_dependencies(&record, &mut sink);
    let twice = sink.merged();
    assert_eq!(once.len(), twice.len());
    for (a, b) in once.iter().zip(twice.iter()) {
        assert_eq!(a.kind, b.kind);
        assert_eq!(a.value, b.value);
    }
    // One range-check request per state word written back.
    assert_eq!(once.len(), 3 * 16);
}

#[test]
fn trace_has_one_hot_round_flags_in_order() {
    let chip = Poseidon2External1Chip::new();
    let record = sample_record(2);
    let mut sink = LookupSink::new();
    let trace = chip.generate_trace(&record, &mut sink);
    assert_eq!(trace.width, NUM_POSEIDON2_EXTERNAL_COLS);
    // Two events of eight rounds each pad to a height of sixteen.
    assert_eq!(trace.rows.len(), 16);
    for (k, row) in trace.rows.iter().enumerate().take(16) {
        assert_eq!(row[COL_IS_EXTERNAL], 1);
        let r = k % EXTERNAL_ROUND_COUNT;
        for i in 0..EXTERNAL_ROUND_COUNT {
            assert_eq!(row[COL_IS_ROUND + i], if i == r { 1 } else { 0 });
        }
        assert_eq!(row[COL_ROUND_NUMBER], r as u32);
    }
}

#[test]
fn trace_height_is_padded_to_power_of_two() {
    let chip = Poseidon2External1Chip::new();
    let record = sample_record(3);
    let mut sink = LookupSink::new();
    let trace = chip.generate_trace(&record, &mut sink);
    // Three events of eight rounds each pad from twenty-four rows to
    // thirty-two.
    assert_eq!(trace.rows.len(), 32);
    for row in trace.rows.iter().skip(24) {
        assert!(row.iter().all(|v| *v == 0));
    }
}

#[test]
fn generated_trace_satisfies_constraints() {
    let chip = Poseidon2External1Chip::new();
    let record = sample_record(2);
    let mut sink = LookupSink::new();
    let trace = chip.generate_trace(&record, &mut sink);
    assert!(chip.eval(&trace));
}

#[test]
fn tampered_round_flag_is_rejected() {
    let chip = Poseidon2External1Chip::new();
    let record = sample_record(1);
    let mut sink = LookupSink::new();
    let mut trace = chip.generate_trace(&record, &mut sink);
    // A second active flag on an active row breaks the one-hot invariant.
    trace.rows[0][COL_IS_ROUND + 3] = 1;
    assert!(!chip.eval(&trace));
}

#[test]
fn tampered_round_number_is_rejected() {
    let chip = Poseidon2External1Chip::new();
    let record = sample_record(1);
    let mut sink = LookupSink::new();
    let mut trace = chip.generate_trace(&record, &mut sink);
    trace.rows[2][COL_ROUND_NUMBER] = 7;
    assert!(!chip.eval(&trace));
}

#[test]
fn chip_reports_its_shape() {
    let chip = Poseidon2External1Chip::new();
    assert_eq!(chip.name(), "poseidon2_external");
    assert_eq!(chip.chip_id(), 0);
    assert_eq!(chip.preprocessed_width(), 0);
    let program = recursion_core::record::Program { instructions: vec![1, 2, 3], pc_start: 0 };
    assert!(chip.generate_preprocessed_trace(&program).is_none());
}
