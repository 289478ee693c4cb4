use tick_pipeline::optim_circular_buffer::circular_buffer::{
    read_rows_from, required_segment_len, CircularBuffer, LayoutError, SegmentReadError,
    SharedHeader, CELL_SIZE, HEADER_SIZE,
};
use tick_pipeline::optim_circular_buffer::config::{BufferConfig, ColumnConfig};
use tick_pipeline::optim_circular_buffer::delta_encoding::{
    delta_decode_column, delta_encode_column, RowDecoder,
};
use tick_pipeline::optim_circular_buffer::model::ReadError;

fn columns(delta: &[bool]) -> Vec<ColumnConfig> {
    delta
        .iter()
        .enumerate()
        .map(|(i, d)| ColumnConfig {
            name: format!("c{}", i),
            element_type: "f64".to_string(),
            delta_encoding: *d,
        })
        .collect()
}

fn shape(num_rows: usize, delta: &[bool]) -> BufferConfig {
    BufferConfig { num_rows, num_cols: delta.len(), columns: columns(delta) }
}

fn segment_for(num_rows: usize, num_cols: usize) -> Vec<u8> {
    vec![0u8; HEADER_SIZE + num_rows * num_cols * CELL_SIZE]
}

fn cell(segment: &[u8], index: usize) -> i64 {
    let at = HEADER_SIZE + index * CELL_SIZE;
    let mut raw = [0u8; 8];
    raw.copy_from_slice(&segment[at..at + 8]);
    i64::from_le_bytes(raw)
}

#[test]
fn six_rows_into_four_slots_keep_the_last_four() {
    let cfg = shape(4, &[false, false]);
    let mut segment = segment_for(4, 2);
    let mut ring = CircularBuffer::new(&mut segment, &cfg, columns(&[false, false]), false, 0).unwrap();
    let rows: Vec<Vec<i64>> = (0..6).map(|i| vec![10 * i, 10 * i + 1]).collect();
    for row in &rows {
        ring.write_row(row);
    }
    assert_eq!(ring.head(), 6);
    assert_eq!(ring.read_rows(2, 6), Ok(rows[2..6].to_vec()));
}

#[test]
fn third_row_overwrites_the_first_of_two_slots() {
    let cfg = shape(2, &[false]);
    let mut segment = segment_for(2, 1);
    {
        let mut ring = CircularBuffer::new(&mut segment, &cfg, columns(&[false]), false, 0).unwrap();
        ring.write_row(&[100]);
        ring.write_row(&[101]);
        ring.write_row(&[102]);
        assert_eq!(ring.read_rows(0, 2), Err(ReadError::Stale));
        assert_eq!(ring.read_rows(1, 3), Ok(vec![vec![101], vec![102]]));
    }
    assert_eq!(cell(&segment, 0), 102);
    assert_eq!(cell(&segment, 1), 101);
}

#[test]
fn fill_without_overflow_reads_back_in_order() {
    let cfg = shape(5, &[false, false, false]);
    let mut segment = segment_for(5, 3);
    let mut ring =
        CircularBuffer::new(&mut segment, &cfg, columns(&[false, false, false]), false, 0).unwrap();
    let rows: Vec<Vec<i64>> = vec![
        vec![1, -2, 3],
        vec![i64::MAX, i64::MIN, 0],
        vec![-1, -1, -1],
        vec![7, 8, 9],
        vec![0, 0, 0],
    ];
    for (n, row) in rows.iter().enumerate() {
        ring.write_row(row);
        assert_eq!(ring.read_rows(0, n + 1), Ok(rows[..n + 1].to_vec()));
    }
}

#[test]
fn window_is_the_last_capacity_rows() {
    let capacity = 3usize;
    let cfg = shape(capacity, &[false]);
    let mut segment = segment_for(capacity, 1);
    let mut ring = CircularBuffer::new(&mut segment, &cfg, columns(&[false]), false, 0).unwrap();
    for n in 1..=10usize {
        ring.write_row(&[n as i64 - 1]);
        let oldest = n.saturating_sub(capacity);
        let expected: Vec<Vec<i64>> = (oldest..n).map(|i| vec![i as i64]).collect();
        assert_eq!(ring.read_rows(oldest, n), Ok(expected));
        if oldest > 0 {
            assert_eq!(ring.read_rows(oldest - 1, n), Err(ReadError::Stale));
            assert_eq!(ring.read_rows(0, 1), Err(ReadError::Stale));
        }
        assert_eq!(ring.read_rows(oldest, n + 1), Err(ReadError::Unwritten));
    }
}

#[test]
fn read_errors_by_kind() {
    let cfg = shape(2, &[false]);
    let mut segment = segment_for(2, 1);
    let mut ring = CircularBuffer::new(&mut segment, &cfg, columns(&[false]), false, 0).unwrap();
    assert_eq!(ring.read_rows(0, 0), Ok(vec![]));
    assert_eq!(ring.read_rows(0, 1), Err(ReadError::Unwritten));
    assert_eq!(ring.read_rows(1, 0), Err(ReadError::Inverted));
    for v in 0..5 {
        ring.write_row(&[v]);
    }
    assert_eq!(ring.read_rows(4, 3), Err(ReadError::Inverted));
    assert_eq!(ring.read_rows(6, 5), Err(ReadError::Inverted));
    assert_eq!(ring.read_rows(3, 6), Err(ReadError::Unwritten));
    assert_eq!(ring.read_rows(2, 6), Err(ReadError::Unwritten));
    assert_eq!(ring.read_rows(2, 5), Err(ReadError::Stale));
    assert_eq!(ring.read_rows(2, 2), Err(ReadError::Stale));
    assert_eq!(ring.read_rows(3, 3), Ok(vec![]));
    assert_eq!(ring.read_rows(5, 5), Ok(vec![]));
    assert_eq!(ring.read_rows(3, 5), Ok(vec![vec![3], vec![4]]));
    assert_eq!(ring.read_rows(4, 5), Ok(vec![vec![4]]));
}

#[test]
fn head_counts_every_write() {
    let cfg = shape(2, &[false]);
    let mut segment = segment_for(2, 1);
    let mut ring = CircularBuffer::new(&mut segment, &cfg, columns(&[false]), false, 0).unwrap();
    let mut seen = Vec::new();
    assert_eq!(ring.head(), 0);
    for _ in 0..9 {
        let before = ring.head();
        ring.write_row(&[0]);
        assert_eq!(ring.head(), before + 1);
        seen.push(before);
    }
    assert_eq!(seen, (0..9).collect::<Vec<usize>>());
}

#[test]
fn interleaved_writers_never_move_head_back() {
    let cfg = shape(4, &[false, false]);
    let mut segment = segment_for(4, 2);
    let mut ring = CircularBuffer::new(&mut segment, &cfg, columns(&[false, false]), false, 0).unwrap();
    let schedule = [0, 1, 1, 0, 1, 0, 0, 0, 1, 1, 1, 0];
    let mut claimed: [Vec<usize>; 2] = [Vec::new(), Vec::new()];
    let mut last_head = ring.head();
    for (turn, writer) in schedule.iter().enumerate() {
        claimed[*writer].push(ring.head());
        ring.write_row(&[*writer as i64, turn as i64]);
        assert!(ring.head() >= last_head);
        last_head = ring.head();
    }
    assert_eq!(ring.head(), schedule.len());
    let mut all: Vec<usize> = claimed[0].iter().chain(claimed[1].iter()).cloned().collect();
    all.sort();
    assert_eq!(all, (0..schedule.len()).collect::<Vec<usize>>());
    let tail = ring.read_rows(8, 12).unwrap();
    for (k, row) in tail.iter().enumerate() {
        assert_eq!(row, &vec![schedule[8 + k] as i64, (8 + k) as i64]);
    }
}

#[test]
fn header_is_published_in_the_segment() {
    let cfg = shape(3, &[false, true]);
    let mut segment = vec![0xffu8; HEADER_SIZE + 3 * 2 * CELL_SIZE + 5];
    {
        let mut ring =
            CircularBuffer::new(&mut segment, &cfg, columns(&[false, true]), false, 0).unwrap();
        assert_eq!(ring.header(), SharedHeader { head: 0, num_rows: 3, num_cols: 2 });
        ring.write_row(&[1, 2]);
        ring.write_row(&[3, 4]);
        assert_eq!(ring.header(), SharedHeader { head: 2, num_rows: 3, num_cols: 2 });
    }
    assert_eq!(SharedHeader::read(&segment), Some(SharedHeader { head: 2, num_rows: 3, num_cols: 2 }));
    assert_eq!(&segment[0..8], &[2, 0, 0, 0, 0, 0, 0, 0]);
    assert_eq!(&segment[8..16], &[3, 0, 0, 0, 0, 0, 0, 0]);
    assert_eq!(&segment[16..24], &[2, 0, 0, 0, 0, 0, 0, 0]);
    assert_eq!(&segment[segment.len() - 5..], &[0xff; 5]);
}

#[test]
fn new_leaves_the_row_table_alone() {
    let cfg = shape(2, &[false]);
    let mut segment = vec![0u8; HEADER_SIZE + 2 * CELL_SIZE];
    for (i, b) in segment.iter_mut().enumerate() {
        *b = i as u8;
    }
    let before = segment.clone();
    {
        let ring = CircularBuffer::new(&mut segment, &cfg, columns(&[false]), true, 64).unwrap();
        assert_eq!(ring.head(), 0);
    }
    assert_eq!(&segment[HEADER_SIZE..], &before[HEADER_SIZE..]);
}

#[test]
fn header_read_needs_a_whole_header() {
    assert_eq!(SharedHeader::read(&[0u8; 23]), None);
    assert_eq!(SharedHeader::read(&[]), None);
    assert_eq!(
        SharedHeader::read(&[0u8; 24]),
        Some(SharedHeader { head: 0, num_rows: 0, num_cols: 0 })
    );
}

#[test]
fn layout_errors_by_kind() {
    let mut segment = segment_for(4, 2);
    let zero = shape(0, &[false, false]);
    assert_eq!(
        CircularBuffer::new(&mut segment, &zero, columns(&[false, false]), false, 0).err(),
        Some(LayoutError::ZeroCapacity)
    );
    let cfg = shape(4, &[false, false]);
    assert_eq!(
        CircularBuffer::new(&mut segment, &cfg, columns(&[false]), false, 0).err(),
        Some(LayoutError::ColumnCountMismatch)
    );
    assert_eq!(
        CircularBuffer::new(&mut segment, &cfg, columns(&[false, false, false]), false, 0).err(),
        Some(LayoutError::ColumnCountMismatch)
    );
    let mut short = vec![0u8; HEADER_SIZE + 4 * 2 * CELL_SIZE - 1];
    assert_eq!(
        CircularBuffer::new(&mut short, &cfg, columns(&[false, false]), false, 0).err(),
        Some(LayoutError::SegmentTooSmall)
    );
    let huge = BufferConfig { num_rows: usize::MAX, num_cols: 2, columns: vec![] };
    assert_eq!(
        CircularBuffer::new(&mut segment, &huge, columns(&[false, false]), false, 0).err(),
        Some(LayoutError::TooLarge)
    );
    let wide = BufferConfig { num_rows: 1, num_cols: usize::MAX / 8 + 1, columns: vec![] };
    let many = vec![
        ColumnConfig { name: String::new(), element_type: String::new(), delta_encoding: false };
        0
    ];
    assert_eq!(
        CircularBuffer::new(&mut segment, &wide, many, false, 0).err(),
        Some(LayoutError::ColumnCountMismatch)
    );
    assert!(CircularBuffer::new(&mut segment, &cfg, columns(&[false, false]), false, 0).is_ok());
}

#[test]
fn layout_error_reports_the_first_fault() {
    let mut empty: Vec<u8> = Vec::new();
    let zero = shape(0, &[false]);
    assert_eq!(
        CircularBuffer::new(&mut empty, &zero, columns(&[]), false, 0).err(),
        Some(LayoutError::ZeroCapacity)
    );
    let cfg = shape(1, &[false]);
    assert_eq!(
        CircularBuffer::new(&mut empty, &cfg, columns(&[]), false, 0).err(),
        Some(LayoutError::ColumnCountMismatch)
    );
    assert_eq!(
        CircularBuffer::new(&mut empty, &cfg, columns(&[false]), false, 0).err(),
        Some(LayoutError::SegmentTooSmall)
    );
}

#[test]
fn failed_new_does_not_touch_the_segment() {
    let cfg = shape(4, &[false, false]);
    let mut short = vec![0x5au8; HEADER_SIZE + 10];
    assert!(CircularBuffer::new(&mut short, &cfg, columns(&[false, false]), false, 0).is_err());
    assert_eq!(short, vec![0x5au8; HEADER_SIZE + 10]);
}

#[test]
fn a_row_with_no_columns_is_a_row() {
    let cfg = shape(2, &[]);
    let mut segment = vec![0u8; HEADER_SIZE];
    let mut ring = CircularBuffer::new(&mut segment, &cfg, columns(&[]), false, 0).unwrap();
    ring.write_row(&[]);
    ring.write_row(&[]);
    ring.write_row(&[]);
    assert_eq!(ring.head(), 3);
    assert_eq!(ring.read_rows(1, 3), Ok(vec![vec![], vec![]]));
    assert_eq!(ring.read_rows(0, 3), Err(ReadError::Stale));
}

#[test]
fn a_short_row_keeps_the_rest_of_its_slot() {
    let cfg = shape(2, &[false, false, false]);
    let mut segment = segment_for(2, 3);
    let mut ring =
        CircularBuffer::new(&mut segment, &cfg, columns(&[false, false, false]), false, 0).unwrap();
    ring.write_row(&[1, 2, 3]);
    ring.write_row(&[4, 5, 6]);
    ring.write_row(&[7]);
    assert_eq!(ring.read_rows(1, 3), Ok(vec![vec![4, 5, 6], vec![7, 2, 3]]));
}

#[test]
fn delta_column_stores_differences() {
    let cfg = shape(4, &[true]);
    let mut segment = segment_for(4, 1);
    let mut ring = CircularBuffer::new(&mut segment, &cfg, columns(&[true]), false, 0).unwrap();
    ring.write_row(&[10]);
    ring.write_row(&[12]);
    ring.write_row(&[9]);
    let stored = ring.read_rows(0, 3).unwrap();
    assert_eq!(stored, vec![vec![10], vec![2], vec![-3]]);
    let mut decoder = RowDecoder::new(&columns(&[true]));
    assert_eq!(decoder.decode_rows(&stored), vec![vec![10], vec![12], vec![9]]);
}

#[test]
fn delta_and_plain_columns_side_by_side() {
    let flags = [true, false, true];
    let cfg = shape(8, &flags);
    let mut segment = segment_for(8, 3);
    let mut ring = CircularBuffer::new(&mut segment, &cfg, columns(&flags), false, 0).unwrap();
    let rows: Vec<Vec<i64>> = vec![
        vec![5, 5, 5],
        vec![7, 7, 2],
        vec![7, -1, i64::MAX],
        vec![i64::MIN, 0, i64::MIN],
        vec![0, 1, -1],
    ];
    for row in &rows {
        ring.write_row(row);
    }
    let stored = ring.read_rows(0, 5).unwrap();
    assert_eq!(stored[0], vec![5, 5, 5]);
    assert_eq!(stored[1], vec![2, 7, -3]);
    assert_eq!(stored[2], vec![0, -1, i64::MAX - 2]);
    assert_eq!(stored[3][1], 0);
    let mut decoder = RowDecoder::new(&columns(&flags));
    assert_eq!(decoder.decode_rows(&stored), rows);
}

#[test]
fn decoder_row_by_row_matches_whole_run() {
    let flags = [true, true];
    let stored = vec![vec![1, 100], vec![1, -50], vec![-5, 0]];
    let mut whole = RowDecoder::new(&columns(&flags));
    let all = whole.decode_rows(&stored);
    let mut single = RowDecoder::new(&columns(&flags));
    let one_by_one: Vec<Vec<i64>> = stored.iter().map(|s| single.decode_row(s)).collect();
    assert_eq!(all, one_by_one);
    assert_eq!(all, vec![vec![1, 100], vec![2, 50], vec![-3, 50]]);
}

#[test]
fn delta_column_functions_exact_values() {
    assert_eq!(delta_encode_column(10, 12), 2);
    assert_eq!(delta_encode_column(12, 9), -3);
    assert_eq!(delta_encode_column(0, 10), 10);
    assert_eq!(delta_decode_column(10, 2), 12);
    assert_eq!(delta_decode_column(12, -3), 9);
    assert_eq!(delta_encode_column(i64::MIN, i64::MAX), -1);
    assert_eq!(delta_decode_column(i64::MIN, -1), i64::MAX);
    assert_eq!(delta_encode_column(i64::MAX, i64::MIN), 1);
    assert_eq!(delta_decode_column(i64::MAX, 1), i64::MIN);
}

#[test]
fn delta_round_trip_on_a_stream() {
    let values = [0i64, 1, -1, i64::MAX, i64::MIN, 42, 42, -7_000_000_000, i64::MAX];
    let mut previous = 0i64;
    let mut accumulator = 0i64;
    for value in values {
        let stored = delta_encode_column(previous, value);
        previous = value;
        accumulator = delta_decode_column(accumulator, stored);
        assert_eq!(accumulator, value);
    }
}

#[test]
fn negative_cells_survive_the_segment() {
    let cfg = shape(1, &[false, false]);
    let mut segment = segment_for(1, 2);
    {
        let mut ring =
            CircularBuffer::new(&mut segment, &cfg, columns(&[false, false]), false, 0).unwrap();
        ring.write_row(&[-1, i64::MIN]);
        assert_eq!(ring.read_rows(0, 1), Ok(vec![vec![-1, i64::MIN]]));
    }
    assert_eq!(&segment[HEADER_SIZE..HEADER_SIZE + 8], &[0xff; 8]);
    assert_eq!(&segment[HEADER_SIZE + 8..HEADER_SIZE + 16], &[0, 0, 0, 0, 0, 0, 0, 0x80]);
}

#[test]
fn prefetch_hint_points_ahead_of_the_slot() {
    let cfg = shape(4, &[false, false]);
    let mut segment = segment_for(4, 2);
    {
        let ring =
            CircularBuffer::new(&mut segment, &cfg, columns(&[false, false]), true, 64).unwrap();
        assert_eq!(ring.prefetch_hint(0), Some(HEADER_SIZE + 64));
        assert_eq!(ring.prefetch_hint(1), Some(HEADER_SIZE + 16 + 64));
        assert_eq!(ring.prefetch_hint(4), Some(HEADER_SIZE + 64));
        assert_eq!(ring.prefetch_hint(7), Some(HEADER_SIZE + 48 + 64));
    }
    let ring = CircularBuffer::new(&mut segment, &cfg, columns(&[false, false]), false, 64).unwrap();
    assert_eq!(ring.prefetch_hint(1), None);
}

#[test]
fn valid_window_trails_the_cursor_by_at_most_capacity() {
    let cfg = shape(3, &[false]);
    let mut segment = segment_for(3, 1);
    let mut ring = CircularBuffer::new(&mut segment, &cfg, columns(&[false]), false, 0).unwrap();
    assert_eq!(ring.valid_window(), (0, 0));
    let expected = [(0, 1), (0, 2), (0, 3), (1, 4), (2, 5), (3, 6), (4, 7)];
    for (n, window) in expected.iter().enumerate() {
        ring.write_row(&[n as i64]);
        assert_eq!(ring.valid_window(), *window);
        let (oldest, head) = ring.valid_window();
        assert!(ring.read_rows(oldest, head).is_ok());
    }
}

#[test]
fn required_segment_len_is_header_plus_table() {
    assert_eq!(required_segment_len(4, 2), Some(24 + 4 * 2 * 8));
    assert_eq!(required_segment_len(1, 1), Some(32));
    assert_eq!(required_segment_len(0, 5), Some(24));
    assert_eq!(required_segment_len(5, 0), Some(24));
    assert_eq!(required_segment_len(1000, 16), Some(24 + 128_000));
    assert_eq!(HEADER_SIZE, 24);
    assert_eq!(CELL_SIZE, 8);
}

#[test]
fn required_segment_len_refuses_what_cannot_be_addressed() {
    assert_eq!(required_segment_len(usize::MAX, 1), None);
    assert_eq!(required_segment_len(1, usize::MAX), None);
    assert_eq!(required_segment_len(usize::MAX / 8, 1), None);
    assert_eq!(required_segment_len(1, usize::MAX / 8 + 1), None);
    assert_eq!(required_segment_len((usize::MAX - 24) / 8, 1), Some(24 + (usize::MAX - 24) / 8 * 8));
    assert_eq!(required_segment_len((usize::MAX - 24) / 8 + 1, 1), None);
}

#[test]
fn attached_reader_sees_what_the_writer_wrote() {
    let cfg = shape(3, &[false, true]);
    let mut segment = segment_for(3, 2);
    let through_handle;
    {
        let mut ring =
            CircularBuffer::new(&mut segment, &cfg, columns(&[false, true]), false, 0).unwrap();
        for n in 0..5i64 {
            ring.write_row(&[n, 100 + n * n]);
        }
        through_handle = ring.read_rows(2, 5).unwrap();
    }
    assert_eq!(through_handle, vec![vec![2, 3], vec![3, 5], vec![4, 7]]);
    assert_eq!(read_rows_from(&segment, 2, 5), Ok(through_handle));
    assert_eq!(read_rows_from(&segment, 4, 5), Ok(vec![vec![4, 7]]));
    assert_eq!(read_rows_from(&segment, 5, 5), Ok(vec![]));
}

#[test]
fn attached_reader_refuses_ranges_outside_the_window() {
    let cfg = shape(3, &[false]);
    let mut segment = segment_for(3, 1);
    {
        let mut ring = CircularBuffer::new(&mut segment, &cfg, columns(&[false]), false, 0).unwrap();
        for n in 0..5i64 {
            ring.write_row(&[n]);
        }
    }
    assert_eq!(read_rows_from(&segment, 1, 5), Err(SegmentReadError::Range(ReadError::Stale)));
    assert_eq!(read_rows_from(&segment, 0, 0), Err(SegmentReadError::Range(ReadError::Stale)));
    assert_eq!(read_rows_from(&segment, 2, 6), Err(SegmentReadError::Range(ReadError::Unwritten)));
    assert_eq!(read_rows_from(&segment, 4, 3), Err(SegmentReadError::Range(ReadError::Inverted)));
    assert_eq!(read_rows_from(&segment, 2, 5), Ok(vec![vec![2], vec![3], vec![4]]));
}

#[test]
fn attached_reader_needs_a_ring_in_the_bytes() {
    assert_eq!(read_rows_from(&[], 0, 0), Err(SegmentReadError::NotARing));
    assert_eq!(read_rows_from(&[0u8; 23], 0, 0), Err(SegmentReadError::NotARing));
    assert_eq!(read_rows_from(&[0u8; 64], 0, 0), Err(SegmentReadError::NotARing));
    let cfg = shape(2, &[false]);
    let mut segment = segment_for(2, 1);
    {
        let mut ring = CircularBuffer::new(&mut segment, &cfg, columns(&[false]), false, 0).unwrap();
        ring.write_row(&[9]);
    }
    assert_eq!(read_rows_from(&segment, 0, 1), Ok(vec![vec![9]]));
    assert_eq!(read_rows_from(&segment[..segment.len() - 1], 0, 1), Err(SegmentReadError::NotARing));
    let mut oversized = segment.clone();
    oversized[8..16].copy_from_slice(&u64::MAX.to_le_bytes());
    assert_eq!(read_rows_from(&oversized, 0, 1), Err(SegmentReadError::NotARing));
    let mut too_wide = segment.clone();
    too_wide[16..24].copy_from_slice(&3u64.to_le_bytes());
    assert_eq!(read_rows_from(&too_wide, 0, 1), Err(SegmentReadError::NotARing));
}
