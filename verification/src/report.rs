//! What a run shows on the console: one line for each sample while it
//! lasts, and the totals at its end.

use vstd::prelude::*;
use vstd::string::StringExecFns;
use crate::counters::CounterSet;
use crate::decimal::{decimal_string, decimal_text};
use crate::fixed::{fixed_point_string, fixed_text, round_half_even, rounded_quotient};
use crate::sample::{rate_milli, rate_milli_spec, MetricSample};

verus! {

/// Decimals of the time shown with a sample.
pub const SHOWN_TIME_DECIMALS: u32 = 8;

/// Decimals of the rates in the closing summary.
pub const SUMMARY_RATE_DECIMALS: u32 = 2;

/// The time of a sample as shown: seconds with eight decimals, rounded
/// from nanoseconds to the nearest, a half to the even side.
pub open spec fn shown_time_text(elapsed_nanos: u128) -> Seq<char> {
    fixed_text(round_half_even(elapsed_nanos as nat, 10), SHOWN_TIME_DECIMALS as nat)
}

/// A rate as shown with a sample: whole operations per second, rounded
/// from thousandths to the nearest, a half to the even side.
pub open spec fn shown_rate_text(rate_milli: u128) -> Seq<char> {
    decimal_text(round_half_even(rate_milli as nat, 1000))
}

/// A rate as shown in the summary: two decimals, rounded from thousandths
/// to the nearest, a half to the even side.
pub open spec fn summary_rate_text(rate_milli: u128) -> Seq<char> {
    fixed_text(round_half_even(rate_milli as nat, 10), SUMMARY_RATE_DECIMALS as nat)
}

/// The console line of a sample.
pub open spec fn console_text(s: MetricSample) -> Seq<char> {
    "t: "@ + shown_time_text(s.elapsed_nanos) + " | Read Ops: "@ + decimal_text(s.read_ops as nat)
        + " | Read/s: "@ + shown_rate_text(s.read_rate_milli) + " | Avg Read Lat: "@
        + decimal_text(s.avg_read_latency_micros as nat) + " | Write Ops: "@ + decimal_text(
        s.write_ops as nat,
    ) + " | Write/s "@ + shown_rate_text(s.write_rate_milli) + " | Avg Write Lat: "@
        + decimal_text(s.avg_write_latency_micros as nat) + " | Read Err: "@ + decimal_text(
        s.read_errors as nat,
    ) + " | Write Err: "@ + decimal_text(s.write_errors as nat) + " | MemTable Size: "@
        + decimal_text(s.memtable_size_bytes as nat)
}

/// Adds `label` and then `field` to `line`.
fn push_labelled(line: &mut String, label: &str, field: String)
    ensures
        final(line)@ == old(line)@ + label@ + field@,
{
    line.append(label);
    line.append(field.as_str());
}

/// The console line of `sample`, without a line feed.
pub fn console_line(sample: &MetricSample) -> (line: String)
    ensures
        line@ == console_text(*sample),
{
    let shown_time = fixed_point_string(
        rounded_quotient(sample.elapsed_nanos, 10),
        SHOWN_TIME_DECIMALS,
    );
    let read_rate = decimal_string(rounded_quotient(sample.read_rate_milli, 1000));
    let write_rate = decimal_string(rounded_quotient(sample.write_rate_milli, 1000));
    let mut line = String::from_str("t: ");
    line.append(shown_time.as_str());
    push_labelled(&mut line, " | Read Ops: ", decimal_string(sample.read_ops as u128));
    push_labelled(&mut line, " | Read/s: ", read_rate);
    push_labelled(
        &mut line,
        " | Avg Read Lat: ",
        decimal_string(sample.avg_read_latency_micros as u128),
    );
    push_labelled(&mut line, " | Write Ops: ", decimal_string(sample.write_ops as u128));
    push_labelled(&mut line, " | Write/s ", write_rate);
    push_labelled(
        &mut line,
        " | Avg Write Lat: ",
        decimal_string(sample.avg_write_latency_micros as u128),
    );
    push_labelled(&mut line, " | Read Err: ", decimal_string(sample.read_errors as u128));
    push_labelled(&mut line, " | Write Err: ", decimal_string(sample.write_errors as u128));
    push_labelled(
        &mut line,
        " | MemTable Size: ",
        decimal_string(sample.memtable_size_bytes as u128),
    );
    line
}

/// The totals of a finished run.
#[derive(Clone, Copy, Debug, PartialEq, Eq, Structural)]
pub struct Summary {
    /// Reads per second over the whole run, in thousandths.
    pub read_rate_milli: u128,
    /// Writes per second over the whole run, in thousandths.
    pub write_rate_milli: u128,
    /// Reads that succeeded.
    pub total_reads: u64,
    /// Reads that failed.
    pub total_read_errors: u64,
    /// Writes that succeeded.
    pub total_writes: u64,
    /// Writes that failed.
    pub total_write_errors: u64,
}

impl Summary {
    /// The summary of a run that ended with the totals `counters` after
    /// `elapsed_nanos`.
    pub open spec fn of(counters: CounterSet, elapsed_nanos: u128) -> Summary {
        Summary {
            read_rate_milli: rate_milli_spec(counters.read.op_count, elapsed_nanos),
            write_rate_milli: rate_milli_spec(counters.write.op_count, elapsed_nanos),
            total_reads: counters.read.op_count,
            total_read_errors: counters.read.error_count,
            total_writes: counters.write.op_count,
            total_write_errors: counters.write.error_count,
        }
    }

    /// The six lines of the summary, in order.
    pub open spec fn lines_text(self) -> Seq<Seq<char>> {
        seq![
            "Performed "@ + summary_rate_text(self.read_rate_milli)
                + " read operations per second"@,
            "Performed "@ + summary_rate_text(self.write_rate_milli)
                + " write operations per second"@,
            "Total reads: "@ + decimal_text(self.total_reads as nat),
            "Total read errors: "@ + decimal_text(self.total_read_errors as nat),
            "Total writes: "@ + decimal_text(self.total_writes as nat),
            "Total write errors: "@ + decimal_text(self.total_write_errors as nat),
        ]
    }

    /// Sums up a run from its final totals and the time it took.
    pub fn from_totals(counters: CounterSet, elapsed_nanos: u128) -> (s: Summary)
        ensures
            s == Summary::of(counters, elapsed_nanos),
    {
        Summary {
            read_rate_milli: rate_milli(counters.read.op_count, elapsed_nanos),
            write_rate_milli: rate_milli(counters.write.op_count, elapsed_nanos),
            total_reads: counters.read.op_count,
            total_read_errors: counters.read.error_count,
            total_writes: counters.write.op_count,
            total_write_errors: counters.write.error_count,
        }
    }

    /// The lines that close the run's console output.
    pub fn lines(&self) -> (out: Vec<String>)
        ensures
            out.len() == 6,
            forall|i: int| 0 <= i < 6 ==> (#[trigger] out[i])@ == self.lines_text()[i],
    {
        let mut out: Vec<String> = Vec::new();
        out.push(rate_line(self.read_rate_milli, " read operations per second"));
        out.push(rate_line(self.write_rate_milli, " write operations per second"));
        out.push(total_line("Total reads: ", self.total_reads));
        out.push(total_line("Total read errors: ", self.total_read_errors));
        out.push(total_line("Total writes: ", self.total_writes));
        out.push(total_line("Total write errors: ", self.total_write_errors));
        out
    }
}

/// A summary line that states a rate.
fn rate_line(rate_milli: u128, what: &str) -> (line: String)
    ensures
        line@ == "Performed "@ + summary_rate_text(rate_milli) + what@,
{
    let mut line = String::from_str("Performed ");
    let shown = fixed_point_string(rounded_quotient(rate_milli, 10), SUMMARY_RATE_DECIMALS);
    line.append(shown.as_str());
    line.append(what);
    line
}

/// A summary line that states a count.
fn total_line(label: &str, count: u64) -> (line: String)
    ensures
        line@ == label@ + decimal_text(count as nat),
{
    let mut line = String::from_str(label);
    let shown = decimal_string(count as u128);
    line.append(shown.as_str());
    line
}

} // verus!
