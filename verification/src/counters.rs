//! The running totals of a load run, one set for each class of operation.
//!
//! Workers share the totals and add to them without locking. What is added
//! for one finished operation is decided here; a register that adds
//! atomically applies it. The totals only ever grow, short of wrapping
//! round at `u64::MAX` as such a register does.

use vstd::prelude::*;

verus! {

/// The two classes of operation that a run issues.
#[derive(Clone, Copy, Debug, PartialEq, Eq, Structural)]
pub enum OpKind {
    Read,
    Write,
}

/// How one operation ended.
#[derive(Clone, Copy, Debug, PartialEq, Eq, Structural)]
pub enum Outcome {
    /// The store answered; the call took `elapsed_micros` microseconds.
    Success { elapsed_micros: u64 },
    /// The store reported an error.
    Failure,
}

/// The sum of `a` and `b` as a 64-bit register holds it.
pub open spec fn wrapped_sum(a: u64, b: u64) -> u64 {
    if a + b > u64::MAX {
        (a + b - 0x1_0000_0000_0000_0000) as u64
    } else {
        (a + b) as u64
    }
}

/// The totals of one class of operation.
#[derive(Clone, Copy, Debug, PartialEq, Eq, Structural)]
pub struct ShiftCounter {
    /// Operations that succeeded.
    pub op_count: u64,
    /// The time that the successful operations took, summed, in microseconds.
    pub latency_sum_micros: u64,
    /// Operations that failed.
    pub error_count: u64,
}

/// What one finished operation adds to the totals of its class.
#[derive(Clone, Copy, Debug, PartialEq, Eq, Structural)]
pub struct Increment {
    /// The class whose totals grow.
    pub kind: OpKind,
    /// Added to `op_count`.
    pub ops: u64,
    /// Added to `latency_sum_micros`.
    pub latency_micros: u64,
    /// Added to `error_count`.
    pub errors: u64,
}

impl Increment {
    /// What an operation of class `kind` that ended in `outcome` adds: a
    /// success counts as one operation and adds its duration to the
    /// latency sum; a failure counts as one error and adds no latency.
    pub open spec fn of(kind: OpKind, outcome: Outcome) -> Increment {
        match outcome {
            Outcome::Success { elapsed_micros } => Increment {
                kind,
                ops: 1,
                latency_micros: elapsed_micros,
                errors: 0,
            },
            Outcome::Failure => Increment { kind, ops: 0, latency_micros: 0, errors: 1 },
        }
    }

    /// What is added for one operation of class `kind` that ended in
    /// `outcome`.
    pub fn for_outcome(kind: OpKind, outcome: Outcome) -> (inc: Increment)
        ensures
            inc == Increment::of(kind, outcome),
    {
        match outcome {
            Outcome::Success { elapsed_micros } => Increment {
                kind,
                ops: 1,
                latency_micros: elapsed_micros,
                errors: 0,
            },
            Outcome::Failure => Increment { kind, ops: 0, latency_micros: 0, errors: 1 },
        }
    }
}

impl ShiftCounter {
    /// The totals before anything has happened.
    pub open spec fn zero() -> ShiftCounter {
        ShiftCounter { op_count: 0, latency_sum_micros: 0, error_count: 0 }
    }

    /// Whether no total of `self` is above the same total of `later`.
    pub open spec fn precedes(self, later: ShiftCounter) -> bool {
        &&& self.op_count <= later.op_count
        &&& self.latency_sum_micros <= later.latency_sum_micros
        &&& self.error_count <= later.error_count
    }

    /// The totals after `inc` has been added, each in its register.
    pub open spec fn plus(self, inc: Increment) -> ShiftCounter {
        ShiftCounter {
            op_count: wrapped_sum(self.op_count, inc.ops),
            latency_sum_micros: wrapped_sum(self.latency_sum_micros, inc.latency_micros),
            error_count: wrapped_sum(self.error_count, inc.errors),
        }
    }

    /// Whether adding `inc` keeps every total within `u64`.
    pub open spec fn has_room_for(self, inc: Increment) -> bool {
        &&& self.op_count + inc.ops <= u64::MAX
        &&& self.latency_sum_micros + inc.latency_micros <= u64::MAX
        &&& self.error_count + inc.errors <= u64::MAX
    }

    /// All totals at zero.
    pub fn new() -> (c: ShiftCounter)
        ensures
            c == ShiftCounter::zero(),
    {
        ShiftCounter { op_count: 0, latency_sum_micros: 0, error_count: 0 }
    }

    /// Adds `inc` to the totals. While there is room, no total shrinks.
    pub fn add(&mut self, inc: Increment)
        ensures
            *final(self) == old(self).plus(inc),
            old(self).has_room_for(inc) ==> old(self).precedes(*final(self)),
    {
        self.op_count = self.op_count.wrapping_add(inc.ops);
        self.latency_sum_micros = self.latency_sum_micros.wrapping_add(inc.latency_micros);
        self.error_count = self.error_count.wrapping_add(inc.errors);
    }
}

/// The totals of both classes.
#[derive(Clone, Copy, Debug, PartialEq, Eq, Structural)]
pub struct CounterSet {
    pub read: ShiftCounter,
    pub write: ShiftCounter,
}

impl CounterSet {
    /// Both classes at zero.
    pub open spec fn zero() -> CounterSet {
        CounterSet { read: ShiftCounter::zero(), write: ShiftCounter::zero() }
    }

    /// Whether no total of `self` is above the same total of `later`.
    pub open spec fn precedes(self, later: CounterSet) -> bool {
        self.read.precedes(later.read) && self.write.precedes(later.write)
    }

    /// The totals after `inc` has been added to its class; the other class
    /// is untouched.
    pub open spec fn plus(self, inc: Increment) -> CounterSet {
        match inc.kind {
            OpKind::Read => CounterSet { read: self.read.plus(inc), write: self.write },
            OpKind::Write => CounterSet { read: self.read, write: self.write.plus(inc) },
        }
    }

    /// Whether adding `inc` keeps every total within `u64`.
    pub open spec fn has_room_for(self, inc: Increment) -> bool {
        match inc.kind {
            OpKind::Read => self.read.has_room_for(inc),
            OpKind::Write => self.write.has_room_for(inc),
        }
    }

    /// The totals after each of `incs` has been added in turn.
    pub open spec fn plus_all(self, incs: Seq<Increment>) -> CounterSet
        decreases incs.len(),
    {
        if incs.len() == 0 {
            self
        } else {
            self.plus_all(incs.drop_last()).plus(incs.last())
        }
    }

    /// Whether `incs` can be added in turn without any total leaving `u64`.
    pub open spec fn has_room_for_all(self, incs: Seq<Increment>) -> bool
        decreases incs.len(),
    {
        if incs.len() == 0 {
            true
        } else {
            &&& self.has_room_for_all(incs.drop_last())
            &&& self.plus_all(incs.drop_last()).has_room_for(incs.last())
        }
    }

    /// Both classes at zero.
    pub fn new() -> (c: CounterSet)
        ensures
            c == CounterSet::zero(),
    {
        CounterSet { read: ShiftCounter::new(), write: ShiftCounter::new() }
    }

    /// Adds `inc` to the totals of its class.
    pub fn add(&mut self, inc: Increment)
        ensures
            *final(self) == old(self).plus(inc),
            old(self).has_room_for(inc) ==> old(self).precedes(*final(self)),
    {
        match inc.kind {
            OpKind::Read => self.read.add(inc),
            OpKind::Write => self.write.add(inc),
        }
    }

    /// Accounts for one operation of class `kind` that ended in `outcome`.
    pub fn record(&mut self, kind: OpKind, outcome: Outcome)
        ensures
            *final(self) == old(self).plus(Increment::of(kind, outcome)),
            old(self).has_room_for(Increment::of(kind, outcome)) ==> old(self).precedes(
                *final(self),
            ),
    {
        self.add(Increment::for_outcome(kind, outcome));
    }
}

/// The totals never shrink: whatever operations finish, in whatever order,
/// each total afterwards is at least what it was, as long as none has
/// reached the end of `u64`.
pub proof fn lemma_totals_only_grow(start: CounterSet, incs: Seq<Increment>)
    requires
        start.has_room_for_all(incs),
    ensures
        start.precedes(start.plus_all(incs)),
    decreases incs.len(),
{
    if incs.len() > 0 {
        lemma_totals_only_grow(start, incs.drop_last());
    }
}

/// An operation that the store answered counts as done and never as an
/// error: its class has one operation more, its latency sum has grown by
/// the time the call took, and its errors stand as they were. The other
/// class is untouched.
pub proof fn lemma_success_is_no_error(before: CounterSet, kind: OpKind, elapsed_micros: u64)
    requires
        before.has_room_for(Increment::of(kind, Outcome::Success { elapsed_micros })),
    ensures
        ({
            let after = before.plus(Increment::of(kind, Outcome::Success { elapsed_micros }));
            match kind {
                OpKind::Read => {
                    &&& after.read.error_count == before.read.error_count
                    &&& after.read.op_count == before.read.op_count + 1
                    &&& after.read.latency_sum_micros == before.read.latency_sum_micros
                        + elapsed_micros
                    &&& after.write == before.write
                },
                OpKind::Write => {
                    &&& after.write.error_count == before.write.error_count
                    &&& after.write.op_count == before.write.op_count + 1
                    &&& after.write.latency_sum_micros == before.write.latency_sum_micros
                        + elapsed_micros
                    &&& after.read == before.read
                },
            }
        }),
{
}

} // verus!
