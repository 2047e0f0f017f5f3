//! The time series as comma-separated text.
//!
//! One header line names the ten columns; one line follows for each
//! sample, in the order of the series. Every line ends with a line feed.
//! Numbers are plain decimals. Time is in seconds and rates are in
//! operations per second, both in their shortest form: a whole number
//! where there is no fraction, and no zeros at the end of one. Everything
//! else is whole.

use vstd::prelude::*;
use vstd::string::StringExecFns;
use crate::decimal::{
    decimal_string, decimal_text, decimal_value, is_digit, lemma_decimal_text_free_of,
    lemma_decimal_text_reads_back,
};
use crate::fixed::{
    lemma_short_text_free_of, lemma_short_text_reads_back, scaled_value, short_decimal_string,
    short_text,
};
use crate::fields::{
    free_of, lemma_cut_first, lemma_cut_last, lemma_free_of_concat, piece_at, rest_after,
};
use crate::sample::MetricSample;

verus! {

/// Decimals that the time column can hold: nanoseconds written as
/// seconds.
pub const TIME_DECIMALS: u32 = 9;

/// Decimals that a rate column can hold: thousandths written as whole
/// operations.
pub const RATE_DECIMALS: u32 = 3;

/// The header line, without its line feed.
pub open spec fn header_text() -> Seq<char> {
    "time,read_ops,read_ops_per_sec,avg_read_latency,write_ops,write_ops_per_sec,avg_write_latency,read_errors,write_errors,memtable_size"@
}

/// The ten fields of a sample's line, in the order of the columns.
pub open spec fn row_fields(s: MetricSample) -> Seq<Seq<char>> {
    seq![
        short_text(s.elapsed_nanos as nat, TIME_DECIMALS as nat),
        decimal_text(s.read_ops as nat),
        short_text(s.read_rate_milli as nat, RATE_DECIMALS as nat),
        decimal_text(s.avg_read_latency_micros as nat),
        decimal_text(s.write_ops as nat),
        short_text(s.write_rate_milli as nat, RATE_DECIMALS as nat),
        decimal_text(s.avg_write_latency_micros as nat),
        decimal_text(s.read_errors as nat),
        decimal_text(s.write_errors as nat),
        decimal_text(s.memtable_size_bytes as nat),
    ]
}

/// The first `n` of `fields` with a comma between each two.
pub open spec fn comma_joined_upto(fields: Seq<Seq<char>>, n: int) -> Seq<char>
    decreases n,
{
    if n <= 0 {
        Seq::empty()
    } else if n == 1 {
        fields[0]
    } else {
        comma_joined_upto(fields, n - 1) + seq![','] + fields[n - 1]
    }
}

/// `fields` with a comma between each two.
pub open spec fn comma_joined(fields: Seq<Seq<char>>) -> Seq<char> {
    comma_joined_upto(fields, fields.len() as int)
}

/// A sample's line, without its line feed.
pub open spec fn row_text(s: MetricSample) -> Seq<char> {
    comma_joined(row_fields(s))
}

/// The lines of a series, each with its line feed.
pub open spec fn rows_text(series: Seq<MetricSample>) -> Seq<char>
    decreases series.len(),
{
    if series.len() == 0 {
        Seq::empty()
    } else {
        rows_text(series.drop_last()) + row_text(series.last()) + seq!['\n']
    }
}

/// The whole export: the header line and the lines of the series.
pub open spec fn document_text(series: Seq<MetricSample>) -> Seq<char> {
    header_text() + seq!['\n'] + rows_text(series)
}

/// The header line, without its line feed.
pub fn csv_header() -> (header: String)
    ensures
        header@ == header_text(),
{
    String::from_str(
        "time,read_ops,read_ops_per_sec,avg_read_latency,write_ops,write_ops_per_sec,avg_write_latency,read_errors,write_errors,memtable_size",
    )
}

/// Adds a comma and `field` to `line`.
fn push_field(line: &mut String, field: String)
    ensures
        final(line)@ == old(line)@ + seq![','] + field@,
{
    line.push(',');
    line.append(field.as_str());
    assert(line@ =~= old(line)@ + seq![','] + field@);
}

/// The line of `sample`, without its line feed.
pub fn csv_row(sample: &MetricSample) -> (line: String)
    ensures
        line@ == row_text(*sample),
{
    let ghost f = row_fields(*sample);
    let mut line = short_decimal_string(sample.elapsed_nanos, TIME_DECIMALS);
    assert(line@ == comma_joined_upto(f, 1));
    push_field(&mut line, decimal_string(sample.read_ops as u128));
    assert(line@ == comma_joined_upto(f, 2));
    push_field(&mut line, short_decimal_string(sample.read_rate_milli, RATE_DECIMALS));
    assert(line@ == comma_joined_upto(f, 3));
    push_field(&mut line, decimal_string(sample.avg_read_latency_micros as u128));
    assert(line@ == comma_joined_upto(f, 4));
    push_field(&mut line, decimal_string(sample.write_ops as u128));
    assert(line@ == comma_joined_upto(f, 5));
    push_field(&mut line, short_decimal_string(sample.write_rate_milli, RATE_DECIMALS));
    assert(line@ == comma_joined_upto(f, 6));
    push_field(&mut line, decimal_string(sample.avg_write_latency_micros as u128));
    assert(line@ == comma_joined_upto(f, 7));
    push_field(&mut line, decimal_string(sample.read_errors as u128));
    assert(line@ == comma_joined_upto(f, 8));
    push_field(&mut line, decimal_string(sample.write_errors as u128));
    assert(line@ == comma_joined_upto(f, 9));
    push_field(&mut line, decimal_string(sample.memtable_size_bytes as u128));
    assert(line@ == comma_joined_upto(f, 10));
    line
}

/// The export of `samples`: the header line, then one line for each
/// sample in order.
pub fn csv_document(samples: &Vec<MetricSample>) -> (text: String)
    ensures
        text@ == document_text(samples@),
{
    let mut text = csv_header();
    text.push('\n');
    let mut i: usize = 0;
    while i < samples.len()
        invariant
            i <= samples.len(),
            text@ =~= header_text() + seq!['\n'] + rows_text(samples@.subrange(0, i as int)),
        decreases samples.len() - i,
    {
        let line = csv_row(&samples[i]);
        proof {
            let upto = samples@.subrange(0, i + 1);
            assert(upto.drop_last() =~= samples@.subrange(0, i as int));
            assert(upto.last() == samples@[i as int]);
        }
        text.append(line.as_str());
        text.push('\n');
        i = i + 1;
    }
    assert(samples@.subrange(0, i as int) =~= samples@);
    text
}

/// The sample that a line stands for: each field read as the number it
/// writes, time and rates by the scale of their column.
pub open spec fn row_sample(line: Seq<char>) -> MetricSample {
    MetricSample {
        elapsed_nanos: scaled_value(piece_at(line, ',', 0), TIME_DECIMALS as nat) as u128,
        read_ops: decimal_value(piece_at(line, ',', 1)) as u64,
        read_rate_milli: scaled_value(piece_at(line, ',', 2), RATE_DECIMALS as nat) as u128,
        avg_read_latency_micros: decimal_value(piece_at(line, ',', 3)) as u64,
        write_ops: decimal_value(piece_at(line, ',', 4)) as u64,
        write_rate_milli: scaled_value(piece_at(line, ',', 5), RATE_DECIMALS as nat) as u128,
        avg_write_latency_micros: decimal_value(piece_at(line, ',', 6)) as u64,
        read_errors: decimal_value(piece_at(line, ',', 7)) as u64,
        write_errors: decimal_value(piece_at(line, ',', 8)) as u64,
        memtable_size_bytes: decimal_value(piece_at(line, ',', 9)) as u64,
    }
}

/// Joined fields start with the first field; the others follow it, joined
/// in the same way.
proof fn lemma_joined_front(fields: Seq<Seq<char>>, n: int)
    requires
        2 <= n <= fields.len(),
    ensures
        comma_joined_upto(fields, n) == fields[0] + seq![','] + comma_joined_upto(
            fields.drop_first(),
            n - 1,
        ),
    decreases n,
{
    let others = fields.drop_first();
    if n == 2 {
        assert(comma_joined_upto(fields, 1) == fields[0]);
        assert(comma_joined_upto(others, 1) == fields[1]);
    } else {
        lemma_joined_front(fields, n - 1);
        assert(others[n - 2] == fields[n - 1]);
        assert(comma_joined_upto(fields, n) =~= fields[0] + seq![','] + comma_joined_upto(
            others,
            n - 1,
        ));
    }
}

/// Cutting joined fields at the commas gives the fields back, where no
/// field holds a comma.
proof fn lemma_piece_of_joined(fields: Seq<Seq<char>>, n: int, k: nat)
    requires
        1 <= n <= fields.len(),
        k < n,
        forall|i: int| 0 <= i < n ==> free_of(#[trigger] fields[i], ','),
    ensures
        piece_at(comma_joined_upto(fields, n), ',', k) == fields[k as int],
    decreases n,
{
    if n == 1 {
        lemma_cut_last(fields[0], ',');
    } else {
        let others = fields.drop_first();
        lemma_joined_front(fields, n);
        lemma_cut_first(fields[0], ',', comma_joined_upto(others, n - 1));
        if k > 0 {
            assert forall|i: int| 0 <= i < n - 1 implies free_of(#[trigger] others[i], ',') by {
                assert(others[i] == fields[i + 1]);
            }
            lemma_piece_of_joined(others, n - 1, (k - 1) as nat);
        }
    }
}

/// No field of a sample's line holds `c`, unless `c` is a digit or the
/// decimal point.
proof fn lemma_row_fields_free_of(s: MetricSample, c: char)
    requires
        !is_digit(c),
        c != '.',
    ensures
        forall|i: int| 0 <= i < 10 ==> free_of(#[trigger] row_fields(s)[i], c),
{
    lemma_short_text_free_of(s.elapsed_nanos as nat, TIME_DECIMALS as nat, c);
    lemma_decimal_text_free_of(s.read_ops as nat, c);
    lemma_short_text_free_of(s.read_rate_milli as nat, RATE_DECIMALS as nat, c);
    lemma_decimal_text_free_of(s.avg_read_latency_micros as nat, c);
    lemma_decimal_text_free_of(s.write_ops as nat, c);
    lemma_short_text_free_of(s.write_rate_milli as nat, RATE_DECIMALS as nat, c);
    lemma_decimal_text_free_of(s.avg_write_latency_micros as nat, c);
    lemma_decimal_text_free_of(s.read_errors as nat, c);
    lemma_decimal_text_free_of(s.write_errors as nat, c);
    lemma_decimal_text_free_of(s.memtable_size_bytes as nat, c);
}

/// Nothing is lost in a line: read back field by field, it gives every
/// column of the sample exactly as it was.
pub proof fn lemma_row_reads_back(s: MetricSample)
    ensures
        row_sample(row_text(s)) == s,
{
    let f = row_fields(s);
    let line = row_text(s);
    lemma_row_fields_free_of(s, ',');
    lemma_piece_of_joined(f, 10, 0);
    lemma_piece_of_joined(f, 10, 1);
    lemma_piece_of_joined(f, 10, 2);
    lemma_piece_of_joined(f, 10, 3);
    lemma_piece_of_joined(f, 10, 4);
    lemma_piece_of_joined(f, 10, 5);
    lemma_piece_of_joined(f, 10, 6);
    lemma_piece_of_joined(f, 10, 7);
    lemma_piece_of_joined(f, 10, 8);
    lemma_piece_of_joined(f, 10, 9);
    lemma_short_text_reads_back(s.elapsed_nanos as nat, TIME_DECIMALS as nat);
    lemma_decimal_text_reads_back(s.read_ops as nat);
    lemma_short_text_reads_back(s.read_rate_milli as nat, RATE_DECIMALS as nat);
    lemma_decimal_text_reads_back(s.avg_read_latency_micros as nat);
    lemma_decimal_text_reads_back(s.write_ops as nat);
    lemma_short_text_reads_back(s.write_rate_milli as nat, RATE_DECIMALS as nat);
    lemma_decimal_text_reads_back(s.avg_write_latency_micros as nat);
    lemma_decimal_text_reads_back(s.read_errors as nat);
    lemma_decimal_text_reads_back(s.write_errors as nat);
    lemma_decimal_text_reads_back(s.memtable_size_bytes as nat);
}

/// Joined fields hold a character other than the comma only where a field
/// holds it.
proof fn lemma_joined_free_of(fields: Seq<Seq<char>>, n: int, c: char)
    requires
        0 <= n <= fields.len(),
        c != ',',
        forall|i: int| 0 <= i < n ==> free_of(#[trigger] fields[i], c),
    ensures
        free_of(comma_joined_upto(fields, n), c),
    decreases n,
{
    if n >= 2 {
        lemma_joined_free_of(fields, n - 1, c);
        lemma_free_of_concat(comma_joined_upto(fields, n - 1), seq![','], c);
        lemma_free_of_concat(comma_joined_upto(fields, n - 1) + seq![','], fields[n - 1], c);
    }
}

/// The lines of a series start with the line of its first sample.
proof fn lemma_rows_front(series: Seq<MetricSample>)
    requires
        series.len() > 0,
    ensures
        rows_text(series) == row_text(series[0]) + seq!['\n'] + rows_text(series.drop_first()),
    decreases series.len(),
{
    let others = series.drop_first();
    if series.len() == 1 {
        assert(series.drop_last() =~= Seq::<MetricSample>::empty());
        assert(rows_text(series.drop_last()) =~= Seq::<char>::empty());
        assert(rows_text(others) =~= Seq::<char>::empty());
        assert(rows_text(series) =~= row_text(series[0]) + seq!['\n'] + rows_text(others));
    } else {
        lemma_rows_front(series.drop_last());
        assert(series.drop_last().drop_first() =~= others.drop_last());
        assert(others.last() == series.last());
        assert(series.drop_last()[0] == series[0]);
        assert(rows_text(series) =~= row_text(series[0]) + seq!['\n'] + rows_text(others));
    }
}

/// Cut at the line feeds, the lines of a series are the lines of its
/// samples, in order.
proof fn lemma_line_of_rows(series: Seq<MetricSample>, k: nat)
    requires
        k < series.len(),
    ensures
        piece_at(rows_text(series), '\n', k) == row_text(series[k as int]),
    decreases k,
{
    let others = series.drop_first();
    lemma_rows_front(series);
    lemma_row_fields_free_of(series[0], '\n');
    lemma_joined_free_of(row_fields(series[0]), 10, '\n');
    lemma_cut_first(row_text(series[0]), '\n', rows_text(others));
    if k > 0 {
        lemma_line_of_rows(others, (k - 1) as nat);
    }
}

/// The export keeps the series as it is: its first line is the header, and
/// the line after that of place `k` reads back as the sample at place `k`.
pub proof fn lemma_document_reads_back(series: Seq<MetricSample>, k: nat)
    requires
        k < series.len(),
    ensures
        piece_at(document_text(series), '\n', 0) == header_text(),
        piece_at(document_text(series), '\n', k + 1) == row_text(series[k as int]),
        row_sample(piece_at(document_text(series), '\n', k + 1)) == series[k as int],
{
    lemma_header_is_one_line();
    lemma_cut_first(header_text(), '\n', rows_text(series));
    lemma_line_of_rows(series, k);
    lemma_row_reads_back(series[k as int]);
}

/// The header holds no line feed.
proof fn lemma_header_is_one_line()
    ensures
        free_of(header_text(), '\n'),
{
    reveal_strlit(
        "time,read_ops,read_ops_per_sec,avg_read_latency,write_ops,write_ops_per_sec,avg_write_latency,read_errors,write_errors,memtable_size",
    );
}

} // verus!
