//! Snapshots of the totals, and the time series that they form.

use vstd::prelude::*;
use crate::counters::{CounterSet, ShiftCounter};

verus! {

/// Rates are kept in thousandths of an operation per second, and time in
/// nanoseconds: operations per nanosecond times this is the rate.
pub const RATE_SCALE: u128 = 1_000_000_000_000;

/// The mean time of an operation: the latency sum divided by the number of
/// operations, rounded down, and zero while there has been none.
pub open spec fn average_latency_spec(latency_sum_micros: u64, op_count: u64) -> u64 {
    if op_count > 0 {
        latency_sum_micros / op_count
    } else {
        0
    }
}

/// The mean time of an operation, in microseconds.
pub fn average_latency(latency_sum_micros: u64, op_count: u64) -> (avg: u64)
    ensures
        avg == average_latency_spec(latency_sum_micros, op_count),
        op_count == 0 ==> avg == 0,
        op_count > 0 ==> avg == latency_sum_micros / op_count,
{
    if op_count > 0 {
        latency_sum_micros / op_count
    } else {
        0
    }
}

/// Operations per second in thousandths, rounded down: `op_count`
/// operations in `elapsed_nanos` nanoseconds. Zero where no time has
/// passed.
pub open spec fn rate_milli_spec(op_count: u64, elapsed_nanos: u128) -> u128 {
    if elapsed_nanos == 0 {
        0
    } else {
        ((op_count * RATE_SCALE) / (elapsed_nanos as int)) as u128
    }
}

/// The rate at which `op_count` operations were done in `elapsed_nanos`
/// nanoseconds, in thousandths of an operation per second.
pub fn rate_milli(op_count: u64, elapsed_nanos: u128) -> (rate: u128)
    ensures
        rate == rate_milli_spec(op_count, elapsed_nanos),
{
    if elapsed_nanos == 0 {
        0
    } else {
        let scaled: u128 = (op_count as u128) * RATE_SCALE;
        scaled / elapsed_nanos
    }
}

/// One snapshot of the run: the totals at a moment, and what is derived
/// from them.
#[derive(Clone, Copy, Debug, PartialEq, Eq, Structural)]
pub struct MetricSample {
    /// Time since the sampler started, in nanoseconds.
    pub elapsed_nanos: u128,
    /// Reads that have succeeded so far.
    pub read_ops: u64,
    /// Reads per second so far, in thousandths.
    pub read_rate_milli: u128,
    /// Mean time of a successful read, in microseconds.
    pub avg_read_latency_micros: u64,
    /// Writes that have succeeded so far.
    pub write_ops: u64,
    /// Writes per second so far, in thousandths.
    pub write_rate_milli: u128,
    /// Mean time of a successful write, in microseconds.
    pub avg_write_latency_micros: u64,
    /// Reads that have failed so far.
    pub read_errors: u64,
    /// Writes that have failed so far.
    pub write_errors: u64,
    /// What the store's in-memory table held, in bytes.
    pub memtable_size_bytes: u64,
}

impl MetricSample {
    /// The sample that stands at the head of every series: time zero, and
    /// zero in every column.
    pub open spec fn seed_spec() -> MetricSample {
        MetricSample {
            elapsed_nanos: 0,
            read_ops: 0,
            read_rate_milli: 0,
            avg_read_latency_micros: 0,
            write_ops: 0,
            write_rate_milli: 0,
            avg_write_latency_micros: 0,
            read_errors: 0,
            write_errors: 0,
            memtable_size_bytes: 0,
        }
    }

    /// The sample of the totals `counters`, read `elapsed_nanos` after the
    /// start, with the store's gauge at `memtable_size_bytes`.
    pub open spec fn of(
        elapsed_nanos: u128,
        counters: CounterSet,
        memtable_size_bytes: u64,
    ) -> MetricSample {
        MetricSample {
            elapsed_nanos,
            read_ops: counters.read.op_count,
            read_rate_milli: rate_milli_spec(counters.read.op_count, elapsed_nanos),
            avg_read_latency_micros: average_latency_spec(
                counters.read.latency_sum_micros,
                counters.read.op_count,
            ),
            write_ops: counters.write.op_count,
            write_rate_milli: rate_milli_spec(counters.write.op_count, elapsed_nanos),
            avg_write_latency_micros: average_latency_spec(
                counters.write.latency_sum_micros,
                counters.write.op_count,
            ),
            read_errors: counters.read.error_count,
            write_errors: counters.write.error_count,
            memtable_size_bytes,
        }
    }

    /// Whether `self` can stand after `earlier` in a series: it was taken
    /// later, and none of its running counts is below that of `earlier`.
    pub open spec fn follows(self, earlier: MetricSample) -> bool {
        &&& earlier.elapsed_nanos < self.elapsed_nanos
        &&& earlier.read_ops <= self.read_ops
        &&& earlier.write_ops <= self.write_ops
        &&& earlier.read_errors <= self.read_errors
        &&& earlier.write_errors <= self.write_errors
    }

    /// The sample at time zero.
    pub fn seed() -> (s: MetricSample)
        ensures
            s == MetricSample::seed_spec(),
            s == MetricSample::of(0, CounterSet::zero(), 0),
    {
        MetricSample {
            elapsed_nanos: 0,
            read_ops: 0,
            read_rate_milli: 0,
            avg_read_latency_micros: 0,
            write_ops: 0,
            write_rate_milli: 0,
            avg_write_latency_micros: 0,
            read_errors: 0,
            write_errors: 0,
            memtable_size_bytes: 0,
        }
    }

    /// Takes the sample of `counters` at `elapsed_nanos`. The six totals
    /// need not have been read at one instant.
    pub fn take(
        elapsed_nanos: u128,
        counters: CounterSet,
        memtable_size_bytes: u64,
    ) -> (s: MetricSample)
        ensures
            s == MetricSample::of(elapsed_nanos, counters, memtable_size_bytes),
    {
        MetricSample {
            elapsed_nanos,
            read_ops: counters.read.op_count,
            read_rate_milli: rate_milli(counters.read.op_count, elapsed_nanos),
            avg_read_latency_micros: average_latency(
                counters.read.latency_sum_micros,
                counters.read.op_count,
            ),
            write_ops: counters.write.op_count,
            write_rate_milli: rate_milli(counters.write.op_count, elapsed_nanos),
            avg_write_latency_micros: average_latency(
                counters.write.latency_sum_micros,
                counters.write.op_count,
            ),
            read_errors: counters.read.error_count,
            write_errors: counters.write.error_count,
            memtable_size_bytes,
        }
    }
}

/// Whether a series is in the order of time: of any two samples the later
/// one follows the earlier.
pub open spec fn chronological(series: Seq<MetricSample>) -> bool {
    forall|i: int, j: int|
        0 <= i < j < series.len() ==> (#[trigger] series[j]).follows(#[trigger] series[i])
}

/// The series of a run. It is made with the seed in it, and samples are
/// only ever added at the end.
pub struct MetricLog {
    samples: Vec<MetricSample>,
}

impl View for MetricLog {
    type V = Seq<MetricSample>;

    closed spec fn view(&self) -> Seq<MetricSample> {
        self.samples@
    }
}

impl MetricLog {
    /// A series that holds the seed and nothing else.
    pub fn new() -> (log: MetricLog)
        ensures
            log@ == seq![MetricSample::seed_spec()],
    {
        let mut samples: Vec<MetricSample> = Vec::new();
        samples.push(MetricSample::seed());
        let log = MetricLog { samples };
        assert(log@ =~= seq![MetricSample::seed_spec()]);
        log
    }

    /// Adds `sample` at the end; what stood at the head stays there. A
    /// series in the order of time stays so when the sample follows all
    /// that it held.
    pub fn append(&mut self, sample: MetricSample)
        ensures
            final(self)@ == old(self)@.push(sample),
            old(self)@.len() > 0 ==> final(self)@[0] == old(self)@[0],
            chronological(old(self)@) && (old(self)@.len() > 0 ==> sample.follows(
                old(self)@.last(),
            )) ==> chronological(final(self)@),
    {
        proof {
            if chronological(self@) && (self@.len() > 0 ==> sample.follows(self@.last())) {
                lemma_push_keeps_order(self@, sample);
            }
        }
        self.samples.push(sample);
    }

    /// Samples `counters` at `elapsed_nanos`, adds the sample at the end and
    /// hands it back.
    pub fn record_tick(
        &mut self,
        elapsed_nanos: u128,
        counters: CounterSet,
        memtable_size_bytes: u64,
    ) -> (sample: MetricSample)
        ensures
            sample == MetricSample::of(elapsed_nanos, counters, memtable_size_bytes),
            final(self)@ == old(self)@.push(sample),
            old(self)@.len() > 0 ==> final(self)@[0] == old(self)@[0],
            chronological(old(self)@) && (old(self)@.len() > 0 ==> sample.follows(
                old(self)@.last(),
            )) ==> chronological(final(self)@),
    {
        let sample = MetricSample::take(elapsed_nanos, counters, memtable_size_bytes);
        self.append(sample);
        sample
    }

    /// How many samples the series holds.
    pub fn len(&self) -> (n: usize)
        ensures
            n == self@.len(),
    {
        self.samples.len()
    }

    /// The sample at place `index`, if there is one.
    pub fn get(&self, index: usize) -> (s: Option<MetricSample>)
        ensures
            index < self@.len() ==> s == Some(self@[index as int]),
            index >= self@.len() ==> s is None,
    {
        if index < self.samples.len() {
            Some(self.samples[index])
        } else {
            None
        }
    }

    /// The samples in order.
    pub fn samples(&self) -> (all: &Vec<MetricSample>)
        ensures
            all@ == self@,
    {
        &self.samples
    }
}

/// A sample that follows the last of an ordered series follows all of it.
pub proof fn lemma_push_keeps_order(series: Seq<MetricSample>, sample: MetricSample)
    requires
        chronological(series),
        series.len() > 0 ==> sample.follows(series.last()),
    ensures
        chronological(series.push(sample)),
{
    let longer = series.push(sample);
    assert forall|i: int, j: int| 0 <= i < j < longer.len() implies (#[trigger] longer[j]).follows(
        #[trigger] longer[i],
    ) by {
        if j < series.len() {
            assert(series[j].follows(series[i]));
        } else if i < series.len() - 1 {
            assert(series[series.len() - 1].follows(series[i]));
        }
    }
}

/// Totals that have only grown, sampled later, give a sample that follows:
/// no running count in it is below the earlier one.
pub proof fn lemma_later_sample_follows(
    earlier_nanos: u128,
    earlier: CounterSet,
    earlier_gauge: u64,
    later_nanos: u128,
    later: CounterSet,
    later_gauge: u64,
)
    requires
        earlier_nanos < later_nanos,
        earlier.precedes(later),
    ensures
        MetricSample::of(later_nanos, later, later_gauge).follows(
            MetricSample::of(earlier_nanos, earlier, earlier_gauge),
        ),
{
}

/// The series that comes of sampling the totals `totals[k]` at the times
/// `times[k]`, with the gauge at `gauges[k]`.
pub open spec fn sampled_series(
    times: Seq<u128>,
    totals: Seq<CounterSet>,
    gauges: Seq<u64>,
) -> Seq<MetricSample> {
    Seq::new(times.len(), |k: int| MetricSample::of(times[k], totals[k], gauges[k]))
}

/// Whether time moves on and no total shrinks from each reading to the
/// next.
pub open spec fn readings_advance(times: Seq<u128>, totals: Seq<CounterSet>) -> bool {
    &&& times.len() == totals.len()
    &&& forall|k: int| 1 <= k < times.len() ==> #[trigger] reading_advances(times, totals, k)
}

/// Whether the reading at place `k` was made later than the one before
/// it, and found no total below what that one found.
pub open spec fn reading_advances(times: Seq<u128>, totals: Seq<CounterSet>, k: int) -> bool {
    times[k - 1] < times[k] && totals[k - 1].precedes(totals[k])
}

proof fn lemma_readings_advance_far(times: Seq<u128>, totals: Seq<CounterSet>, i: int, j: int)
    requires
        readings_advance(times, totals),
        0 <= i < j < times.len(),
    ensures
        times[i] < times[j],
        totals[i].precedes(totals[j]),
    decreases j - i,
{
    assert(reading_advances(times, totals, j));
    if i < j - 1 {
        lemma_readings_advance_far(times, totals, i, j - 1);
    }
}

/// In every run the running counts of the series never fall and its times
/// rise: totals that only grow, read at moments that follow one another,
/// give a series in the order of time.
pub proof fn lemma_sampled_series_in_order(
    times: Seq<u128>,
    totals: Seq<CounterSet>,
    gauges: Seq<u64>,
)
    requires
        readings_advance(times, totals),
        gauges.len() == times.len(),
    ensures
        chronological(sampled_series(times, totals, gauges)),
{
    let series = sampled_series(times, totals, gauges);
    assert forall|i: int, j: int| 0 <= i < j < series.len() implies (#[trigger] series[j]).follows(
        #[trigger] series[i],
    ) by {
        lemma_readings_advance_far(times, totals, i, j);
        lemma_later_sample_follows(
            times[i],
            totals[i],
            gauges[i],
            times[j],
            totals[j],
            gauges[j],
        );
    }
}

} // verus!
