use loadgen::counters::{CounterSet, Increment, OpKind, Outcome, ShiftCounter};

#[test]
fn new_counters_are_zero() {
    let c = CounterSet::new();
    assert_eq!(c.read, ShiftCounter { op_count: 0, latency_sum_micros: 0, error_count: 0 });
    assert_eq!(c.write, ShiftCounter { op_count: 0, latency_sum_micros: 0, error_count: 0 });
    assert_eq!(ShiftCounter::new(), c.read);
}

#[test]
fn increment_of_a_success_counts_one_operation_and_its_time() {
    let inc = Increment::for_outcome(OpKind::Read, Outcome::Success { elapsed_micros: 250 });
    assert_eq!(inc, Increment { kind: OpKind::Read, ops: 1, latency_micros: 250, errors: 0 });
}

#[test]
fn increment_of_a_failure_counts_one_error() {
    let inc = Increment::for_outcome(OpKind::Write, Outcome::Failure);
    assert_eq!(inc, Increment { kind: OpKind::Write, ops: 0, latency_micros: 0, errors: 1 });
}

#[test]
fn record_touches_only_the_class_of_the_operation() {
    let mut c = CounterSet::new();
    c.record(OpKind::Read, Outcome::Success { elapsed_micros: 40 });
    c.record(OpKind::Read, Outcome::Success { elapsed_micros: 60 });
    c.record(OpKind::Read, Outcome::Failure);
    assert_eq!(c.read, ShiftCounter { op_count: 2, latency_sum_micros: 100, error_count: 1 });
    assert_eq!(c.write, ShiftCounter::new());
    c.record(OpKind::Write, Outcome::Success { elapsed_micros: 7 });
    c.record(OpKind::Write, Outcome::Failure);
    c.record(OpKind::Write, Outcome::Failure);
    assert_eq!(c.read, ShiftCounter { op_count: 2, latency_sum_micros: 100, error_count: 1 });
    assert_eq!(c.write, ShiftCounter { op_count: 1, latency_sum_micros: 7, error_count: 2 });
}

#[test]
fn a_successful_read_is_never_counted_as_an_error() {
    let mut c = CounterSet::new();
    c.record(OpKind::Write, Outcome::Success { elapsed_micros: 5 });
    for _ in 0..100 {
        c.record(OpKind::Read, Outcome::Success { elapsed_micros: 3 });
    }
    assert_eq!(c.read.error_count, 0);
    assert_eq!(c.read.op_count, 100);
    assert_eq!(c.read.latency_sum_micros, 300);
}

#[test]
fn totals_never_shrink_while_there_is_room() {
    let outcomes = [
        (OpKind::Read, Outcome::Failure),
        (OpKind::Write, Outcome::Success { elapsed_micros: 12 }),
        (OpKind::Read, Outcome::Success { elapsed_micros: 0 }),
        (OpKind::Write, Outcome::Failure),
        (OpKind::Write, Outcome::Success { elapsed_micros: u32::MAX as u64 }),
    ];
    let mut c = CounterSet::new();
    for (kind, outcome) in outcomes {
        let before = c;
        c.record(kind, outcome);
        assert!(before.read.op_count <= c.read.op_count);
        assert!(before.read.latency_sum_micros <= c.read.latency_sum_micros);
        assert!(before.read.error_count <= c.read.error_count);
        assert!(before.write.op_count <= c.write.op_count);
        assert!(before.write.latency_sum_micros <= c.write.latency_sum_micros);
        assert!(before.write.error_count <= c.write.error_count);
    }
}

#[test]
fn a_full_register_wraps_round() {
    let mut c = ShiftCounter { op_count: u64::MAX, latency_sum_micros: u64::MAX - 1, error_count: 3 };
    c.add(Increment { kind: OpKind::Read, ops: 1, latency_micros: 5, errors: 0 });
    assert_eq!(c, ShiftCounter { op_count: 0, latency_sum_micros: 3, error_count: 3 });
}
