use loadgen::counters::{CounterSet, ShiftCounter};
use loadgen::csv::{csv_document, csv_header, csv_row, RATE_DECIMALS, TIME_DECIMALS};
use loadgen::sample::{MetricLog, MetricSample};

fn busy_counters() -> CounterSet {
    CounterSet {
        read: ShiftCounter { op_count: 3, latency_sum_micros: 100, error_count: 1 },
        write: ShiftCounter { op_count: 27, latency_sum_micros: 2700, error_count: 0 },
    }
}

#[test]
fn header_names_the_ten_columns() {
    assert_eq!(
        csv_header(),
        "time,read_ops,read_ops_per_sec,avg_read_latency,write_ops,write_ops_per_sec,avg_write_latency,read_errors,write_errors,memtable_size"
    );
    assert_eq!(csv_header().split(',').count(), 10);
}

#[test]
fn row_of_the_seed_is_all_zeros() {
    assert_eq!(csv_row(&MetricSample::seed()), "0,0,0,0,0,0,0,0,0,0");
}

#[test]
fn row_writes_each_column_in_order() {
    assert_eq!(TIME_DECIMALS, 9);
    assert_eq!(RATE_DECIMALS, 3);
    let s = MetricSample::take(1_500_000_000, busy_counters(), 4096);
    assert_eq!(csv_row(&s), "1.5,3,2,33,27,18,100,1,0,4096");
}

#[test]
fn row_keeps_the_largest_values() {
    let s = MetricSample {
        elapsed_nanos: u128::MAX,
        read_ops: u64::MAX,
        read_rate_milli: 1,
        avg_read_latency_micros: u64::MAX,
        write_ops: 0,
        write_rate_milli: u128::MAX,
        avg_write_latency_micros: 1,
        read_errors: u64::MAX,
        write_errors: 10,
        memtable_size_bytes: u64::MAX,
    };
    assert_eq!(
        csv_row(&s),
        "340282366920938463463374607431.768211455,18446744073709551615,0.001,18446744073709551615,0,340282366920938463463374607431768211.455,1,18446744073709551615,10,18446744073709551615"
    );
}

#[test]
fn document_of_a_run_of_no_length_is_header_and_seed() {
    let log = MetricLog::new();
    assert_eq!(
        csv_document(log.samples()),
        "time,read_ops,read_ops_per_sec,avg_read_latency,write_ops,write_ops_per_sec,avg_write_latency,read_errors,write_errors,memtable_size\n0,0,0,0,0,0,0,0,0,0\n"
    );
}

#[test]
fn document_of_nothing_is_the_header_line() {
    let none: Vec<MetricSample> = Vec::new();
    assert_eq!(
        csv_document(&none),
        "time,read_ops,read_ops_per_sec,avg_read_latency,write_ops,write_ops_per_sec,avg_write_latency,read_errors,write_errors,memtable_size\n"
    );
}

#[test]
fn document_has_one_line_per_sample_in_order() {
    let mut log = MetricLog::new();
    log.record_tick(100_000_000, CounterSet::new(), 5);
    log.record_tick(1_500_000_000, busy_counters(), 4096);
    let text = csv_document(log.samples());
    let lines: Vec<&str> = text.split('\n').collect();
    assert_eq!(lines.len(), 5);
    assert_eq!(lines[0], csv_header());
    assert_eq!(lines[1], "0,0,0,0,0,0,0,0,0,0");
    assert_eq!(lines[2], "0.1,0,0,0,0,0,0,0,0,5");
    assert_eq!(lines[3], "1.5,3,2,33,27,18,100,1,0,4096");
    assert_eq!(lines[4], "");
}

fn read_scaled(field: &str, decimals: usize) -> u128 {
    let (whole, fraction) = match field.split_once('.') {
        Some((whole, fraction)) => (whole, fraction),
        None => (field, ""),
    };
    assert!(fraction.len() <= decimals);
    let mut digits = String::new();
    digits.push_str(whole);
    digits.push_str(fraction);
    for _ in fraction.len()..decimals {
        digits.push('0');
    }
    digits.parse::<u128>().unwrap()
}

fn read_row(line: &str) -> MetricSample {
    let f: Vec<&str> = line.split(',').collect();
    assert_eq!(f.len(), 10);
    MetricSample {
        elapsed_nanos: read_scaled(f[0], 9),
        read_ops: f[1].parse().unwrap(),
        read_rate_milli: read_scaled(f[2], 3),
        avg_read_latency_micros: f[3].parse().unwrap(),
        write_ops: f[4].parse().unwrap(),
        write_rate_milli: read_scaled(f[5], 3),
        avg_write_latency_micros: f[6].parse().unwrap(),
        read_errors: f[7].parse().unwrap(),
        write_errors: f[8].parse().unwrap(),
        memtable_size_bytes: f[9].parse().unwrap(),
    }
}

#[test]
fn every_field_of_the_export_reads_back_exactly() {
    let mut log = MetricLog::new();
    let mut counters = CounterSet::new();
    let mut elapsed: u128 = 0;
    for k in 1..40u64 {
        counters.read.op_count += k;
        counters.read.latency_sum_micros += 17 * k + 3;
        counters.write.op_count += 9 * k;
        counters.write.latency_sum_micros += 1000 * k + 1;
        counters.write.error_count += k % 3;
        counters.read.error_count += k % 2;
        elapsed += 100_000_000 + (k as u128) * 12_345;
        log.record_tick(elapsed, counters, k * 4096 + 1);
    }
    let text = csv_document(log.samples());
    let lines: Vec<&str> = text.split('\n').collect();
    assert_eq!(lines.len(), log.len() + 2);
    for (k, sample) in log.samples().iter().enumerate() {
        assert_eq!(read_row(lines[k + 1]), *sample);
    }
}

#[test]
fn time_column_reads_as_seconds() {
    let s = MetricSample::take(2_250_000_000, CounterSet::new(), 0);
    let row = csv_row(&s);
    let time = row.split(',').next().unwrap();
    assert_eq!(time, "2.25");
    assert_eq!(time.parse::<f64>().unwrap(), 2.25);
}

fn half_second_sample() -> MetricSample {
    MetricSample {
        elapsed_nanos: 500_000_000,
        read_ops: 1,
        read_rate_milli: 2_500,
        avg_read_latency_micros: 3,
        write_ops: 4,
        write_rate_milli: 8_250,
        avg_write_latency_micros: 5,
        read_errors: 6,
        write_errors: 7,
        memtable_size_bytes: 9,
    }
}

#[test]
fn row_writes_time_and_rates_in_the_shortest_form() {
    assert_eq!(csv_row(&half_second_sample()), "0.5,1,2.5,3,4,8.25,5,6,7,9");
}

#[test]
fn document_of_one_sample_has_two_lines() {
    let text = csv_document(&vec![half_second_sample()]);
    assert_eq!(
        text,
        "time,read_ops,read_ops_per_sec,avg_read_latency,write_ops,write_ops_per_sec,avg_write_latency,read_errors,write_errors,memtable_size\n0.5,1,2.5,3,4,8.25,5,6,7,9\n"
    );
    assert_eq!(text.lines().count(), 2);
}

#[test]
fn whole_times_and_rates_have_no_point() {
    let s = MetricSample { elapsed_nanos: 3_000_000_000, read_rate_milli: 70_000, ..half_second_sample() };
    assert_eq!(csv_row(&s), "3,1,70,3,4,8.25,5,6,7,9");
}

#[test]
fn the_smallest_fractions_are_kept() {
    let s = MetricSample { elapsed_nanos: 1, read_rate_milli: 1, write_rate_milli: 1_010, ..half_second_sample() };
    assert_eq!(csv_row(&s), "0.000000001,1,0.001,3,4,1.01,5,6,7,9");
}

#[test]
fn time_and_rates_are_written_as_floats_are() {
    let s = half_second_sample();
    let row = csv_row(&s);
    let f: Vec<&str> = row.split(',').collect();
    assert_eq!(f[0], format!("{}", 0.5f64));
    assert_eq!(f[2], format!("{}", 2.5f64));
    assert_eq!(f[5], format!("{}", 8.25f64));
    let seed = csv_row(&MetricSample::seed());
    assert_eq!(seed.split(',').next().unwrap(), format!("{}", 0.0f64));
}
