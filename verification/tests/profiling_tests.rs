use tick_pipeline::optim_circular_buffer::circular_buffer::{CircularBuffer, CELL_SIZE, HEADER_SIZE};
use tick_pipeline::optim_circular_buffer::config::{BufferConfig, ColumnConfig, ProfilingConfig};
use tick_pipeline::optim_circular_buffer::mock_process::{generate_mock_data, MOCK_VALUE_BOUND};
use tick_pipeline::optim_circular_buffer::profiling::Profiler;

fn profiling(enable: bool) -> ProfilingConfig {
    ProfilingConfig { enable, output_path: "latency.json".to_string() }
}

fn plain_columns(n: usize) -> Vec<ColumnConfig> {
    (0..n)
        .map(|i| ColumnConfig {
            name: format!("c{}", i),
            element_type: "f64".to_string(),
            delta_encoding: false,
        })
        .collect()
}

#[test]
fn disabled_profiler_makes_no_report_after_a_thousand_writes() {
    let cfg = BufferConfig { num_rows: 8, num_cols: 1, columns: plain_columns(1) };
    let mut segment = vec![0u8; HEADER_SIZE + 8 * CELL_SIZE];
    let mut ring = CircularBuffer::new(&mut segment, &cfg, plain_columns(1), false, 0).unwrap();
    let mut profiler = Profiler::new(&profiling(false));
    for i in 0..1000u64 {
        ring.write_row(&[i as i64]);
        profiler.record_latency(i);
    }
    assert_eq!(ring.head(), 1000);
    assert!(profiler.finalize().is_none());
    assert!(profiler.finalize_at(5).is_none());
}

#[test]
fn enabled_profiler_reports_samples_in_call_order() {
    let mut profiler = Profiler::new(&profiling(true));
    let samples = [30u64, 10, 20, 10, u64::MAX, 0];
    for s in samples {
        profiler.record_latency(s);
    }
    let report = profiler.finalize_at(123_456).unwrap();
    assert_eq!(report.data.latency_ns, samples.to_vec());
    assert_eq!(report.data.latency_ns.len(), 6);
    assert_eq!(report.data.timestamp, 123_456);
    assert_eq!(report.output_path, "latency.json");
}

#[test]
fn report_with_no_samples_is_empty() {
    let mut profiler = Profiler::new(&profiling(true));
    let report = profiler.finalize().unwrap();
    assert!(report.data.latency_ns.is_empty());
    assert_eq!(report.output_path, "latency.json");
}

#[test]
fn finalize_twice_gives_the_same_samples() {
    let mut profiler = Profiler::new(&profiling(true));
    profiler.record_latency(7);
    profiler.record_latency(8);
    let first = profiler.finalize_at(1).unwrap();
    let second = profiler.finalize_at(1).unwrap();
    assert_eq!(first.data.latency_ns, second.data.latency_ns);
    assert_eq!(first.data.timestamp, second.data.timestamp);
    profiler.record_latency(9);
    let third = profiler.finalize().unwrap();
    assert_eq!(third.data.latency_ns, vec![7, 8, 9]);
}

#[test]
fn mock_burst_writes_one_row_per_slot() {
    let cfg = BufferConfig { num_rows: 32, num_cols: 4, columns: plain_columns(4) };
    let mut segment = vec![0u8; HEADER_SIZE + 32 * 4 * CELL_SIZE];
    let mut ring = CircularBuffer::new(&mut segment, &cfg, plain_columns(4), false, 0).unwrap();
    let mut profiler = Profiler::new(&profiling(true));
    generate_mock_data(&mut ring, &cfg, &mut profiler);
    assert_eq!(ring.head(), 32);
    let rows = ring.read_rows(0, 32).unwrap();
    assert_eq!(rows.len(), 32);
    let mut distinct = std::collections::BTreeSet::new();
    for row in &rows {
        assert_eq!(row.len(), 4);
        for value in row {
            assert!(0 <= *value && *value < MOCK_VALUE_BOUND);
            distinct.insert(*value);
        }
    }
    assert!(distinct.len() > 1);
    assert_eq!(profiler.finalize().unwrap().data.latency_ns.len(), 32);
    generate_mock_data(&mut ring, &cfg, &mut profiler);
    assert_eq!(ring.head(), 64);
    assert_eq!(profiler.finalize().unwrap().data.latency_ns.len(), 64);
}

#[test]
fn mock_burst_with_profiling_off_records_nothing() {
    let cfg = BufferConfig { num_rows: 3, num_cols: 2, columns: plain_columns(2) };
    let mut segment = vec![0u8; HEADER_SIZE + 3 * 2 * CELL_SIZE];
    let mut ring = CircularBuffer::new(&mut segment, &cfg, plain_columns(2), false, 0).unwrap();
    let mut profiler = Profiler::new(&profiling(false));
    generate_mock_data(&mut ring, &cfg, &mut profiler);
    assert_eq!(ring.head(), 3);
    assert!(profiler.finalize().is_none());
}

#[test]
fn mock_burst_may_be_narrower_than_the_table() {
    let table = BufferConfig { num_rows: 2, num_cols: 3, columns: plain_columns(3) };
    let burst = BufferConfig { num_rows: 5, num_cols: 1, columns: plain_columns(1) };
    let mut segment = vec![0u8; HEADER_SIZE + 2 * 3 * CELL_SIZE];
    let mut ring = CircularBuffer::new(&mut segment, &table, plain_columns(3), false, 0).unwrap();
    ring.write_row(&[-1, -2, -3]);
    let mut profiler = Profiler::new(&profiling(false));
    generate_mock_data(&mut ring, &burst, &mut profiler);
    assert_eq!(ring.head(), 6);
    let rows = ring.read_rows(4, 6).unwrap();
    for row in &rows {
        assert!(0 <= row[0] && row[0] < MOCK_VALUE_BOUND);
    }
    assert_eq!(&rows[0][1..], &[-2, -3]);
    assert_eq!(&rows[1][1..], &[0, 0]);
}
