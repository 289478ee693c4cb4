//! A fixed-capacity ring of fixed-width rows over one contiguous segment.
//!
//! The segment starts with a 24-byte header (write cursor, row count, column
//! count, each a little-endian 64-bit number) followed by the row table: row
//! after row, each cell eight little-endian bytes holding a 64-bit
//! two's-complement value. The row of logical index `i` lives in physical slot
//! `i mod capacity`.

use vstd::prelude::*;
use crate::common::byte_utils::{
    le_u64_at, lemma_with_le_u64_keeps_others, lemma_with_le_u64_reads_back, read_le_u64,
    with_le_u64, write_le_u64,
};
use super::config::{BufferConfig, ColumnConfig};
use super::delta_encoding::{delta_encode_column, delta_flags, encoded_row};
use super::prefetch::{hint_address, maybe_prefetch};
use super::model::{range_error, rows_of, ReadError, RingView};

verus! {

/// Bytes taken by the header at the start of a segment.
pub const HEADER_SIZE: usize = 24;

/// Bytes taken by one cell.
pub const CELL_SIZE: usize = 8;

/// Offset of the write cursor within the header.
pub const HEAD_OFFSET: usize = 0;

/// Offset of the row count within the header.
pub const NUM_ROWS_OFFSET: usize = 8;

/// Offset of the column count within the header.
pub const NUM_COLS_OFFSET: usize = 16;

/// The record at the start of a segment.
#[derive(Debug, Clone, Copy, PartialEq, Eq, Structural)]
pub struct SharedHeader {
    /// Number of rows ever written.
    pub head: usize,
    /// Capacity of the ring in rows.
    pub num_rows: usize,
    /// Cells per row.
    pub num_cols: usize,
}

/// Why a segment cannot carry a ring of the requested shape.
#[derive(Debug, Clone, Copy, PartialEq, Eq, Structural)]
pub enum LayoutError {
    /// The ring would hold no row at all.
    ZeroCapacity,
    /// The list of column descriptors is not as long as a row is wide.
    ColumnCountMismatch,
    /// Header and row table together exceed what can be addressed.
    TooLarge,
    /// The segment is shorter than header and row table together.
    SegmentTooSmall,
}

/// Why rows cannot be read from the bytes of a segment.
#[derive(Debug, Clone, Copy, PartialEq, Eq, Structural)]
pub enum SegmentReadError {
    /// The bytes do not hold a ring: the header is cut short, names no row
    /// at all, or describes a table that the bytes are too few for.
    NotARing,
    /// The bytes hold a ring, and the range is refused for the reason given.
    Range(ReadError),
}

/// Bytes needed for a ring of `num_rows` rows of `num_cols` cells.
pub open spec fn segment_size(num_rows: int, num_cols: int) -> int {
    HEADER_SIZE + num_rows * (num_cols * CELL_SIZE)
}

/// Bytes a segment must have for a ring of `num_rows` rows of `num_cols`
/// cells, header included; `None` when that many bytes cannot be addressed.
pub fn required_segment_len(num_rows: usize, num_cols: usize) -> (len: Option<usize>)
    ensures
        match len {
            Some(len) => len == segment_size(num_rows as int, num_cols as int),
            None => segment_size(num_rows as int, num_cols as int) > usize::MAX,
        },
{
    if num_rows == 0 {
        proof {
            assert(num_rows * (num_cols * CELL_SIZE) == 0) by (nonlinear_arith)
                requires
                    num_rows == 0,
            ;
        }
        return Some(HEADER_SIZE);
    }
    let row_size = match num_cols.checked_mul(CELL_SIZE) {
        Some(bytes) => bytes,
        None => {
            proof {
                lemma_table_at_least_row(num_rows as int, num_cols * CELL_SIZE);
            }
            return None;
        },
    };
    let table_size = match num_rows.checked_mul(row_size) {
        Some(bytes) => bytes,
        None => {
            return None;
        },
    };
    table_size.checked_add(HEADER_SIZE)
}

/// Why a ring of the given shape cannot be laid over a segment of
/// `segment_len` bytes with `columns_len` column descriptors, if it cannot.
pub open spec fn layout_error(
    num_rows: int,
    num_cols: int,
    columns_len: int,
    segment_len: int,
) -> Option<LayoutError> {
    if num_rows == 0 {
        Some(LayoutError::ZeroCapacity)
    } else if columns_len != num_cols {
        Some(LayoutError::ColumnCountMismatch)
    } else if segment_size(num_rows, num_cols) > usize::MAX {
        Some(LayoutError::TooLarge)
    } else if segment_len < segment_size(num_rows, num_cols) {
        Some(LayoutError::SegmentTooSmall)
    } else {
        None
    }
}

/// The cell value that a 64-bit pattern stands for, in two's complement.
pub open spec fn cell_of_bits(bits: int) -> i64 {
    if bits <= i64::MAX {
        bits as i64
    } else {
        (bits - 0x1_0000_0000_0000_0000) as i64
    }
}

/// The cell at position `index` of the row table, counting cells row by row.
pub open spec fn cell_at(bytes: Seq<u8>, index: int) -> i64 {
    cell_of_bits(le_u64_at(bytes, HEADER_SIZE + index * CELL_SIZE))
}

/// The position of column `column` of slot `slot`, counting cells row by row.
pub open spec fn cell_index(num_cols: nat, slot: int, column: int) -> int {
    slot * num_cols + column
}

/// The row held in physical slot `slot`.
pub open spec fn row_at(bytes: Seq<u8>, num_cols: nat, slot: int) -> Seq<i64> {
    Seq::new(num_cols, |c: int| cell_at(bytes, cell_index(num_cols, slot, c)))
}

/// The whole row table of a segment.
pub open spec fn table_of(bytes: Seq<u8>, num_rows: nat, num_cols: nat) -> Seq<Seq<i64>> {
    Seq::new(num_rows, |s: int| row_at(bytes, num_cols, s))
}

/// Offset within the segment of the first byte of physical slot `slot`.
pub open spec fn slot_offset(num_cols: nat, slot: int) -> int {
    HEADER_SIZE + slot * (num_cols * CELL_SIZE)
}

/// Whether the header bytes of a segment spell `header`.
pub open spec fn header_spelled(bytes: Seq<u8>, header: SharedHeader) -> bool {
    &&& le_u64_at(bytes, HEAD_OFFSET as int) == header.head
    &&& le_u64_at(bytes, NUM_ROWS_OFFSET as int) == header.num_rows
    &&& le_u64_at(bytes, NUM_COLS_OFFSET as int) == header.num_cols
}

/// Whether the bytes start with a whole header whose fields fit the address
/// width of this machine.
pub open spec fn header_readable(bytes: Seq<u8>) -> bool {
    &&& HEADER_SIZE <= bytes.len()
    &&& le_u64_at(bytes, HEAD_OFFSET as int) <= usize::MAX
    &&& le_u64_at(bytes, NUM_ROWS_OFFSET as int) <= usize::MAX
    &&& le_u64_at(bytes, NUM_COLS_OFFSET as int) <= usize::MAX
}

/// The header that the first bytes of a segment spell.
pub open spec fn header_in(bytes: Seq<u8>) -> SharedHeader
    recommends
        header_readable(bytes),
{
    SharedHeader {
        head: le_u64_at(bytes, HEAD_OFFSET as int) as usize,
        num_rows: le_u64_at(bytes, NUM_ROWS_OFFSET as int) as usize,
        num_cols: le_u64_at(bytes, NUM_COLS_OFFSET as int) as usize,
    }
}

/// Whether the bytes hold a ring: a readable header that names at least one
/// row and describes a row table that the bytes are enough for.
pub open spec fn holds_ring(bytes: Seq<u8>) -> bool {
    &&& header_readable(bytes)
    &&& header_in(bytes).num_rows > 0
    &&& segment_size(header_in(bytes).num_rows as int, header_in(bytes).num_cols as int)
        <= bytes.len()
}

impl SharedHeader {
    /// Reads the header that a segment starts with, as any reader attached
    /// to the segment may do at any time.
    ///
    /// There is none when the segment is shorter than a header, or when a
    /// field does not fit the address width of this machine.
    pub fn read(segment: &[u8]) -> (header: Option<SharedHeader>)
        ensures
            header == if header_readable(segment@) {
                Some(header_in(segment@))
            } else {
                None
            },
    {
        if segment.len() < HEADER_SIZE {
            return None;
        }
        let head = read_le_u64(segment, HEAD_OFFSET);
        let num_rows = read_le_u64(segment, NUM_ROWS_OFFSET);
        let num_cols = read_le_u64(segment, NUM_COLS_OFFSET);
        if head > usize::MAX as u64 || num_rows > usize::MAX as u64 || num_cols > usize::MAX as u64 {
            return None;
        }
        Some(
            SharedHeader {
                head: head as usize,
                num_rows: num_rows as usize,
                num_cols: num_cols as usize,
            },
        )
    }
}

/// Reads the cell at position `index` of the row table.
fn load_cell(segment: &[u8], index: usize) -> (value: i64)
    requires
        HEADER_SIZE + (index + 1) * CELL_SIZE <= segment.len(),
    ensures
        value == cell_at(segment@, index as int),
{
    let bits = read_le_u64(segment, HEADER_SIZE + index * CELL_SIZE);
    if bits <= i64::MAX as u64 {
        bits as i64
    } else {
        -((u64::MAX - bits) as i64) - 1
    }
}

/// Writes the cell at position `index` of the row table and nothing else.
fn store_cell(segment: &mut [u8], index: usize, value: i64)
    requires
        HEADER_SIZE + (index + 1) * CELL_SIZE <= old(segment).len(),
    ensures
        final(segment)@.len() == old(segment)@.len(),
        cell_at(final(segment)@, index as int) == value,
        forall|other: int|
            0 <= other && other != index && HEADER_SIZE + (other + 1) * CELL_SIZE <= old(
                segment,
            )@.len() ==> #[trigger] cell_at(final(segment)@, other) == cell_at(old(segment)@, other),
        forall|header: SharedHeader|
            header_spelled(old(segment)@, header) ==> header_spelled(final(segment)@, header),
{
    let bits: u64 = if value >= 0 {
        value as u64
    } else {
        u64::MAX - ((-(value + 1)) as u64)
    };
    let offset = HEADER_SIZE + index * CELL_SIZE;
    write_le_u64(segment, offset, bits);
    proof {
        let before = old(segment)@;
        lemma_with_le_u64_reads_back(before, offset as int, bits);
        lemma_with_le_u64_keeps_others(before, offset as int, bits, HEAD_OFFSET as int);
        lemma_with_le_u64_keeps_others(before, offset as int, bits, NUM_ROWS_OFFSET as int);
        lemma_with_le_u64_keeps_others(before, offset as int, bits, NUM_COLS_OFFSET as int);
        assert forall|other: int|
            0 <= other && other != index && HEADER_SIZE + (other + 1) * CELL_SIZE
                <= before.len() implies #[trigger] cell_at(segment@, other) == cell_at(
            before,
            other,
        ) by {
            lemma_with_le_u64_keeps_others(
                before,
                offset as int,
                bits,
                HEADER_SIZE + other * CELL_SIZE,
            );
        }
    }
}

/// Publishes a new cursor value in the header and touches nothing else.
fn publish_head(segment: &mut [u8], header: SharedHeader)
    requires
        HEADER_SIZE <= old(segment).len(),
        le_u64_at(old(segment)@, NUM_ROWS_OFFSET as int) == header.num_rows,
        le_u64_at(old(segment)@, NUM_COLS_OFFSET as int) == header.num_cols,
    ensures
        final(segment)@.len() == old(segment)@.len(),
        header_spelled(final(segment)@, header),
        forall|index: int|
            0 <= index && HEADER_SIZE + (index + 1) * CELL_SIZE <= old(segment)@.len()
                ==> #[trigger] cell_at(final(segment)@, index) == cell_at(old(segment)@, index),
{
    write_le_u64(segment, HEAD_OFFSET, header.head as u64);
    proof {
        let before = old(segment)@;
        let bits = header.head as u64;
        lemma_with_le_u64_reads_back(before, HEAD_OFFSET as int, bits);
        lemma_with_le_u64_keeps_others(before, HEAD_OFFSET as int, bits, NUM_ROWS_OFFSET as int);
        lemma_with_le_u64_keeps_others(before, HEAD_OFFSET as int, bits, NUM_COLS_OFFSET as int);
        assert forall|index: int|
            0 <= index && HEADER_SIZE + (index + 1) * CELL_SIZE <= before.len() implies #[trigger] cell_at(
            segment@,
            index,
        ) == cell_at(before, index) by {
            lemma_with_le_u64_keeps_others(
                before,
                HEAD_OFFSET as int,
                bits,
                HEADER_SIZE + index * CELL_SIZE,
            );
        }
    }
}

/// Encodes `row` into physical slot `slot` and remembers its raw values.
fn store_row(
    segment: &mut [u8],
    columns: &Vec<ColumnConfig>,
    last_values: &mut Vec<i64>,
    num_rows: usize,
    num_cols: usize,
    slot: usize,
    row: &[i64],
)
    requires
        slot < num_rows,
        row@.len() <= num_cols,
        columns@.len() == num_cols,
        old(last_values)@.len() == num_cols,
        segment_size(num_rows as int, num_cols as int) <= old(segment).len(),
    ensures
        final(segment)@.len() == old(segment)@.len(),
        forall|header: SharedHeader|
            header_spelled(old(segment)@, header) ==> header_spelled(final(segment)@, header),
        final(last_values)@ == row@ + old(last_values)@.skip(row@.len() as int),
        table_of(final(segment)@, num_rows as nat, num_cols as nat) == table_of(
            old(segment)@,
            num_rows as nat,
            num_cols as nat,
        ).update(
            slot as int,
            encoded_row(delta_flags(columns@), old(last_values)@, row@) + row_at(
                old(segment)@,
                num_cols as nat,
                slot as int,
            ).skip(row@.len() as int),
        ),
{
    let ghost bytes_before = segment@;
    let ghost last_before = last_values@;
    let ghost stored_row = encoded_row(delta_flags(columns@), last_before, row@);
    proof {
        lemma_slot_extent(num_rows as nat, num_cols as nat, slot as int);
    }
    let base = slot * num_cols;
    let mut col: usize = 0;
    while col < row.len()
        invariant
            col <= row@.len() <= num_cols,
            slot < num_rows,
            base == slot * num_cols,
            columns@.len() == num_cols,
            segment_size(num_rows as int, num_cols as int) <= segment.len(),
            segment@.len() == bytes_before.len(),
            forall|header: SharedHeader|
                header_spelled(bytes_before, header) ==> header_spelled(segment@, header),
            last_before.len() == num_cols,
            last_values@ == row@.take(col as int) + last_before.skip(col as int),
            stored_row == encoded_row(delta_flags(columns@), last_before, row@),
            forall|c: int|
                0 <= c < col ==> cell_at(segment@, #[trigger] cell_index(num_cols as nat, slot as int, c))
                    == stored_row[c],
            forall|other: int|
                0 <= other && !(base <= other < base + col) && HEADER_SIZE + (other + 1) * CELL_SIZE
                    <= bytes_before.len() ==> #[trigger] cell_at(segment@, other) == cell_at(
                    bytes_before,
                    other,
                ),
        decreases row@.len() - col,
    {
        proof {
            lemma_cell_position(num_rows as nat, num_cols as nat, slot as int, col as int);
        }
        let value = row[col];
        let stored = if columns[col].delta_encoding {
            delta_encode_column(last_values[col], value)
        } else {
            value
        };
        let ghost bytes_mid = segment@;
        store_cell(segment, base + col, stored);
        last_values[col] = value;
        proof {
            assert(last_values@ =~= row@.take(col + 1) + last_before.skip(col + 1));
            assert forall|c: int| 0 <= c < col + 1 implies cell_at(
                segment@,
                #[trigger] cell_index(num_cols as nat, slot as int, c),
            ) == stored_row[c] by {
                if c < col {
                    lemma_cell_position(num_rows as nat, num_cols as nat, slot as int, c);
                    assert(cell_at(bytes_mid, cell_index(num_cols as nat, slot as int, c))
                        == stored_row[c]);
                }
            }
        }
        col = col + 1;
    }
    proof {
        assert(last_values@ =~= row@ + last_before.skip(row@.len() as int));
        lemma_row_replaced(
            bytes_before,
            segment@,
            num_rows as nat,
            num_cols as nat,
            slot as int,
            stored_row,
        );
    }
}

/// A segment that differs from another only in the leading cells of one slot
/// has the other's table with that slot's row replaced.
proof fn lemma_row_replaced(
    before: Seq<u8>,
    after: Seq<u8>,
    num_rows: nat,
    num_cols: nat,
    slot: int,
    stored: Seq<i64>,
)
    requires
        0 <= slot < num_rows,
        stored.len() <= num_cols,
        segment_size(num_rows as int, num_cols as int) <= before.len(),
        forall|c: int|
            0 <= c < stored.len() ==> cell_at(after, #[trigger] cell_index(num_cols, slot, c))
                == stored[c],
        forall|other: int|
            0 <= other && !(slot * num_cols <= other < slot * num_cols + stored.len())
                && HEADER_SIZE + (other + 1) * CELL_SIZE <= before.len() ==> #[trigger] cell_at(
                after,
                other,
            ) == cell_at(before, other),
    ensures
        table_of(after, num_rows, num_cols) == table_of(before, num_rows, num_cols).update(
            slot,
            stored + row_at(before, num_cols, slot).skip(stored.len() as int),
        ),
{
    let expected = table_of(before, num_rows, num_cols).update(
        slot,
        stored + row_at(before, num_cols, slot).skip(stored.len() as int),
    );
    let actual = table_of(after, num_rows, num_cols);
    assert forall|s: int| 0 <= s < num_rows implies #[trigger] actual[s] =~= expected[s] by {
        assert forall|c: int| 0 <= c < num_cols implies #[trigger] actual[s][c] == expected[s][c] by {
            lemma_cell_position(num_rows, num_cols, s, c);
            if s != slot {
                if slot * num_cols <= cell_index(num_cols, s, c) < slot * num_cols + stored.len() {
                    let c2 = cell_index(num_cols, s, c) - slot * num_cols;
                    lemma_cell_positions_apart(num_cols, s, c, slot, c2);
                }
            }
        }
    }
    assert(actual =~= expected);
}

/// Reads the rows of logical indices `start` up to `end` out of the row
/// table, or says why the range is refused.
fn read_table(segment: &[u8], header: SharedHeader, start: usize, end: usize) -> (result: Result<
    Vec<Vec<i64>>,
    ReadError,
>)
    requires
        header.num_rows > 0,
        segment_size(header.num_rows as int, header.num_cols as int) <= segment.len(),
    ensures
        match result {
            Ok(rows) => {
                &&& range_error(header.head as nat, header.num_rows as nat, start as int, end as int)
                    is None
                &&& rows.deep_view() == rows_of(
                    table_of(segment@, header.num_rows as nat, header.num_cols as nat),
                    header.num_rows as nat,
                    start as int,
                    end as int,
                )
            },
            Err(error) => range_error(
                header.head as nat,
                header.num_rows as nat,
                start as int,
                end as int,
            ) == Some(error),
        },
{
    let head = header.head;
    let num_rows = header.num_rows;
    let num_cols = header.num_cols;
    if start > end {
        return Err(ReadError::Inverted);
    }
    if end > head {
        return Err(ReadError::Unwritten);
    }
    if head > num_rows && start < head - num_rows {
        return Err(ReadError::Stale);
    }
    let ghost table = table_of(segment@, num_rows as nat, num_cols as nat);
    let mut out: Vec<Vec<i64>> = Vec::new();
    let mut index = start;
    while index < end
        invariant
            start <= index <= end,
            num_rows > 0,
            segment_size(num_rows as int, num_cols as int) <= segment.len(),
            table == table_of(segment@, num_rows as nat, num_cols as nat),
            out@.len() == index - start,
            forall|k: int|
                0 <= k < index - start ==> (#[trigger] out@[k])@ == table[(start + k) % (
                num_rows as int)],
        decreases end - index,
    {
        let slot = index % num_rows;
        proof {
            lemma_slot_extent(num_rows as nat, num_cols as nat, slot as int);
        }
        let base = slot * num_cols;
        let mut row: Vec<i64> = Vec::new();
        let mut col: usize = 0;
        while col < num_cols
            invariant
                slot < num_rows,
                segment_size(num_rows as int, num_cols as int) <= segment.len(),
                base == slot * num_cols,
                col <= num_cols,
                row@.len() == col,
                forall|c: int|
                    0 <= c < col ==> #[trigger] row@[c] == cell_at(
                        segment@,
                        cell_index(num_cols as nat, slot as int, c),
                    ),
            decreases num_cols - col,
        {
            proof {
                lemma_cell_position(num_rows as nat, num_cols as nat, slot as int, col as int);
            }
            let value = load_cell(segment, base + col);
            row.push(value);
            col = col + 1;
        }
        proof {
            assert(row@ =~= table[slot as int]);
        }
        out.push(row);
        index = index + 1;
    }
    proof {
        assert(out.deep_view() =~~= rows_of(table, num_rows as nat, start as int, end as int));
    }
    Ok(out)
}

/// Reads the stored rows of logical indices `start` up to `end` straight
/// from the bytes of a segment, as a reader attached to the segment does: it
/// takes the cursor and the shape from the header, and serves the range if
/// it lies in the valid window `[max(0, head - capacity), head)`.
///
/// Cells of delta-encoded columns come back as stored, that is as
/// differences.
pub fn read_rows_from(segment: &[u8], start: usize, end: usize) -> (result: Result<
    Vec<Vec<i64>>,
    SegmentReadError,
>)
    ensures
        match result {
            Ok(rows) => {
                &&& holds_ring(segment@)
                &&& range_error(
                    header_in(segment@).head as nat,
                    header_in(segment@).num_rows as nat,
                    start as int,
                    end as int,
                ) is None
                &&& rows.deep_view() == rows_of(
                    table_of(
                        segment@,
                        header_in(segment@).num_rows as nat,
                        header_in(segment@).num_cols as nat,
                    ),
                    header_in(segment@).num_rows as nat,
                    start as int,
                    end as int,
                )
            },
            Err(SegmentReadError::Range(error)) => {
                &&& holds_ring(segment@)
                &&& range_error(
                    header_in(segment@).head as nat,
                    header_in(segment@).num_rows as nat,
                    start as int,
                    end as int,
                ) == Some(error)
            },
            Err(SegmentReadError::NotARing) => !holds_ring(segment@),
        },
{
    let header = match SharedHeader::read(segment) {
        Some(header) => header,
        None => {
            return Err(SegmentReadError::NotARing);
        },
    };
    if header.num_rows == 0 {
        return Err(SegmentReadError::NotARing);
    }
    let available = segment.len();
    match required_segment_len(header.num_rows, header.num_cols) {
        Some(needed) => {
            if available < needed {
                return Err(SegmentReadError::NotARing);
            }
        },
        None => {
            return Err(SegmentReadError::NotARing);
        },
    }
    match read_table(segment, header, start, end) {
        Ok(rows) => Ok(rows),
        Err(error) => Err(SegmentReadError::Range(error)),
    }
}

/// A writer's handle on a ring: the segment it writes into, the shape of the
/// ring, and the raw values last written, which delta encoding needs.
pub struct CircularBuffer<'a> {
    segment: &'a mut [u8],
    header: SharedHeader,
    row_size: usize,
    column_info: Vec<ColumnConfig>,
    prefetch_enabled: bool,
    prefetch_distance: usize,
    last_values: Vec<i64>,
}

impl<'a> CircularBuffer<'a> {
    /// The ring as a mathematical value, read off the segment bytes.
    pub closed spec fn view(&self) -> RingView {
        RingView {
            head: self.header.head as nat,
            capacity: self.header.num_rows as nat,
            num_cols: self.header.num_cols as nat,
            slots: table_of(self.segment@, self.header.num_rows as nat, self.header.num_cols as nat),
            delta: delta_flags(self.column_info@),
            last_values: self.last_values@,
        }
    }

    /// The bytes of the segment as they stand.
    pub closed spec fn segment_bytes(&self) -> Seq<u8> {
        self.segment@
    }

    /// Whether prefetch hints are asked for.
    pub closed spec fn prefetch_is_enabled(&self) -> bool {
        self.prefetch_enabled
    }

    /// How many bytes ahead of a slot a prefetch hint points.
    pub closed spec fn prefetch_ahead(&self) -> usize {
        self.prefetch_distance
    }

    /// The handle agrees with its segment: the header bytes spell the cursor
    /// and the shape, and the row table fits.
    pub closed spec fn wf(&self) -> bool {
        &&& self.header.num_rows > 0
        &&& self.row_size == self.header.num_cols * CELL_SIZE
        &&& segment_size(self.header.num_rows as int, self.header.num_cols as int)
            <= self.segment@.len()
        &&& self.segment@.len() <= usize::MAX
        &&& self.column_info@.len() == self.header.num_cols
        &&& self.last_values@.len() == self.header.num_cols
        &&& header_spelled(self.segment@, self.header)
    }

    /// A well-formed handle has a well-formed view, and a reader attached to
    /// its segment finds a ring there with the cursor, the shape and the row
    /// table of that view.
    pub proof fn lemma_wf_view(&self)
        requires
            self.wf(),
        ensures
            self@.wf(),
            segment_size(self@.capacity as int, self@.num_cols as int) <= self.segment_bytes().len(),
            self@.slots == table_of(self.segment_bytes(), self@.capacity, self@.num_cols),
            holds_ring(self.segment_bytes()),
            header_in(self.segment_bytes()).head == self@.head,
            header_in(self.segment_bytes()).num_rows == self@.capacity,
            header_in(self.segment_bytes()).num_cols == self@.num_cols,
    {
    }

    /// Lays a fresh ring over `segment`: writes the header with the cursor at
    /// zero and leaves the row table as it is.
    ///
    /// Fails, without touching the segment, when the shape is unusable or the
    /// segment too short; `layout_error` says which comes first.
    pub fn new(
        segment: &'a mut [u8],
        cfg: &BufferConfig,
        columns: Vec<ColumnConfig>,
        prefetch_enabled: bool,
        prefetch_distance: usize,
    ) -> (result: Result<CircularBuffer<'a>, LayoutError>)
        ensures
            match result {
                Ok(ring) => {
                    &&& layout_error(
                        cfg.num_rows as int,
                        cfg.num_cols as int,
                        columns@.len() as int,
                        old(segment)@.len() as int,
                    ) is None
                    &&& ring.wf()
                    &&& ring@ == (RingView {
                        head: 0,
                        capacity: cfg.num_rows as nat,
                        num_cols: cfg.num_cols as nat,
                        slots: table_of(old(segment)@, cfg.num_rows as nat, cfg.num_cols as nat),
                        delta: delta_flags(columns@),
                        last_values: Seq::new(cfg.num_cols as nat, |c: int| 0i64),
                    })
                    &&& ring.segment_bytes() == with_le_u64(
                        with_le_u64(
                            with_le_u64(old(segment)@, HEAD_OFFSET as int, 0),
                            NUM_ROWS_OFFSET as int,
                            cfg.num_rows as u64,
                        ),
                        NUM_COLS_OFFSET as int,
                        cfg.num_cols as u64,
                    )
                    &&& ring.prefetch_is_enabled() == prefetch_enabled
                    &&& ring.prefetch_ahead() == prefetch_distance
                },
                Err(error) => {
                    &&& layout_error(
                        cfg.num_rows as int,
                        cfg.num_cols as int,
                        columns@.len() as int,
                        old(segment)@.len() as int,
                    ) == Some(error)
                    &&& final(segment)@ == old(segment)@
                },
            },
    {
        let num_rows = cfg.num_rows;
        let num_cols = cfg.num_cols;
        if num_rows == 0 {
            return Err(LayoutError::ZeroCapacity);
        }
        if columns.len() != num_cols {
            return Err(LayoutError::ColumnCountMismatch);
        }
        let total = match required_segment_len(num_rows, num_cols) {
            Some(bytes) => bytes,
            None => {
                return Err(LayoutError::TooLarge);
            },
        };
        proof {
            lemma_table_at_least_row(num_rows as int, num_cols * CELL_SIZE);
        }
        let row_size = num_cols * CELL_SIZE;
        if segment.len() < total {
            return Err(LayoutError::SegmentTooSmall);
        }
        write_le_u64(segment, HEAD_OFFSET, 0);
        write_le_u64(segment, NUM_ROWS_OFFSET, num_rows as u64);
        write_le_u64(segment, NUM_COLS_OFFSET, num_cols as u64);
        let mut last_values: Vec<i64> = Vec::new();
        while last_values.len() < num_cols
            invariant
                last_values@.len() <= num_cols,
                forall|c: int| 0 <= c < last_values@.len() ==> last_values@[c] == 0,
            decreases num_cols - last_values@.len(),
        {
            last_values.push(0);
        }
        let header = SharedHeader { head: 0, num_rows, num_cols };
        proof {
            let b0 = old(segment)@;
            let b1 = with_le_u64(b0, HEAD_OFFSET as int, 0);
            let b2 = with_le_u64(b1, NUM_ROWS_OFFSET as int, num_rows as u64);
            let b3 = with_le_u64(b2, NUM_COLS_OFFSET as int, num_cols as u64);
            lemma_with_le_u64_reads_back(b0, HEAD_OFFSET as int, 0);
            lemma_with_le_u64_reads_back(b1, NUM_ROWS_OFFSET as int, num_rows as u64);
            lemma_with_le_u64_reads_back(b2, NUM_COLS_OFFSET as int, num_cols as u64);
            lemma_with_le_u64_keeps_others(b1, NUM_ROWS_OFFSET as int, num_rows as u64, HEAD_OFFSET as int);
            lemma_with_le_u64_keeps_others(b2, NUM_COLS_OFFSET as int, num_cols as u64, HEAD_OFFSET as int);
            lemma_with_le_u64_keeps_others(b2, NUM_COLS_OFFSET as int, num_cols as u64, NUM_ROWS_OFFSET as int);
            assert(header_spelled(b3, header));
            assert forall|index: int| 0 <= index && HEADER_SIZE + (index + 1) * CELL_SIZE <= b0.len() implies cell_at(b3, index) == cell_at(b0, index) by {
                let offset = HEADER_SIZE + index * CELL_SIZE;
                lemma_with_le_u64_keeps_others(b0, HEAD_OFFSET as int, 0, offset);
                lemma_with_le_u64_keeps_others(b1, NUM_ROWS_OFFSET as int, num_rows as u64, offset);
                lemma_with_le_u64_keeps_others(b2, NUM_COLS_OFFSET as int, num_cols as u64, offset);
            }
            lemma_same_cells_same_table(b0, b3, num_rows as nat, num_cols as nat);
            assert(last_values@ =~= Seq::new(num_cols as nat, |c: int| 0i64));
        }
        Ok(
            CircularBuffer {
                segment,
                header,
                row_size,
                column_info: columns,
                prefetch_enabled,
                prefetch_distance,
                last_values,
            },
        )
    }

    /// Number of rows ever written: the logical index the next row will get.
    pub fn head(&self) -> (head: usize)
        requires
            self.wf(),
        ensures
            head == self@.head,
    {
        self.header.head
    }

    /// The valid window: the logical indices `oldest` up to `head` are the
    /// rows that can be read now, and no others can.
    pub fn valid_window(&self) -> (window: (usize, usize))
        requires
            self.wf(),
        ensures
            window.0 == self@.window_start(),
            window.1 == self@.head,
    {
        let head = self.header.head;
        let capacity = self.header.num_rows;
        if head > capacity {
            (head - capacity, head)
        } else {
            (0, head)
        }
    }

    /// The header as the segment spells it: the cursor and the shape.
    pub fn header(&self) -> (header: SharedHeader)
        requires
            self.wf(),
        ensures
            header.head == self@.head,
            header.num_rows == self@.capacity,
            header.num_cols == self@.num_cols,
            header_spelled(self.segment_bytes(), header),
    {
        self.header
    }

    /// Where to point a prefetch hint before the row of logical index
    /// `index` is touched, as an offset into the segment: the configured
    /// distance past the start of the slot of `index`, or nowhere when hints
    /// are switched off.
    pub fn prefetch_hint(&self, index: usize) -> (target: Option<usize>)
        requires
            self.wf(),
        ensures
            target == if self.prefetch_is_enabled() {
                Some(
                    hint_address(
                        slot_offset(self@.num_cols, self@.slot_of(index as int)) as usize,
                        self.prefetch_ahead(),
                    ),
                )
            } else {
                None
            },
    {
        let slot = index % self.header.num_rows;
        proof {
            lemma_slot_extent(
                self.header.num_rows as nat,
                self.header.num_cols as nat,
                slot as int,
            );
            assert(slot * self.row_size == slot * (self.header.num_cols * CELL_SIZE));
            assert(slot * (self.header.num_cols * CELL_SIZE) == slot * self.header.num_cols
                * CELL_SIZE) by (nonlinear_arith);
        }
        maybe_prefetch(HEADER_SIZE + slot * self.row_size, self.prefetch_distance, self.prefetch_enabled)
    }

    /// Writes one row: claims logical index `head`, advances and publishes the
    /// cursor, then stores the row in slot `head mod capacity`, each
    /// delta-encoded column as the difference from the raw value written last.
    ///
    /// A row may be shorter than the table is wide; the cells it does not
    /// reach keep what the slot held.
    pub fn write_row(&mut self, row: &[i64])
        requires
            old(self).wf(),
            row@.len() <= old(self)@.num_cols,
            old(self)@.head < usize::MAX,
        ensures
            final(self).wf(),
            final(self)@ == old(self)@.write(row@),
            final(self).segment_bytes().len() == old(self).segment_bytes().len(),
            final(self).prefetch_is_enabled() == old(self).prefetch_is_enabled(),
            final(self).prefetch_ahead() == old(self).prefetch_ahead(),
    {
        let ghost before = self@;
        let num_rows = self.header.num_rows;
        let num_cols = self.header.num_cols;
        let index = self.header.head;
        self.header.head = index + 1;
        publish_head(self.segment, self.header);
        let ghost bytes_mid = self.segment@;
        proof {
            lemma_same_cells_same_table(
                old(self).segment@,
                bytes_mid,
                num_rows as nat,
                num_cols as nat,
            );
        }
        let slot = index % num_rows;
        store_row(
            self.segment,
            &self.column_info,
            &mut self.last_values,
            num_rows,
            num_cols,
            slot,
            row,
        );
        proof {
            assert(self@ =~= before.write(row@));
        }
    }

    /// Reads the stored rows of logical indices `start` up to `end`, oldest
    /// first, as long as the whole range lies in the valid window
    /// `[max(0, head - capacity), head)`. Any other range is refused.
    ///
    /// Cells of delta-encoded columns come back as stored, that is as
    /// differences.
    pub fn read_rows(&self, start: usize, end: usize) -> (result: Result<Vec<Vec<i64>>, ReadError>)
        requires
            self.wf(),
        ensures
            match result {
                Ok(rows) => {
                    &&& self@.readable(start as int, end as int)
                    &&& rows.deep_view() == self@.read(start as int, end as int)
                },
                Err(error) => self@.read_error(start as int, end as int) == Some(error),
            },
    {
        read_table(self.segment, self.header, start, end)
    }
}

/// A table of at least one row is at least as large as one row.
proof fn lemma_table_at_least_row(num_rows: int, row_size: int)
    by (nonlinear_arith)
    requires
        num_rows >= 1,
        row_size >= 0,
    ensures
        num_rows * row_size >= row_size,
{
}

/// The position of cell `c` of slot `s` lies inside the table.
proof fn lemma_cell_position(num_rows: nat, num_cols: nat, s: int, c: int)
    by (nonlinear_arith)
    requires
        0 <= s < num_rows,
        0 <= c < num_cols,
    ensures
        0 <= cell_index(num_cols, s, c) < num_rows * num_cols,
        HEADER_SIZE + (cell_index(num_cols, s, c) + 1) * CELL_SIZE <= segment_size(
            num_rows as int,
            num_cols as int,
        ),
{
}

/// The cells of a slot lie inside the table.
proof fn lemma_slot_extent(num_rows: nat, num_cols: nat, slot: int)
    by (nonlinear_arith)
    requires
        0 <= slot < num_rows,
    ensures
        0 <= slot * num_cols,
        slot * num_cols + num_cols <= num_rows * num_cols,
        HEADER_SIZE + (slot * num_cols + num_cols) * CELL_SIZE <= segment_size(
            num_rows as int,
            num_cols as int,
        ),
{
}

/// Different slots share no cell position.
proof fn lemma_cell_positions_apart(num_cols: nat, s: int, c: int, s2: int, c2: int)
    by (nonlinear_arith)
    requires
        0 <= c < num_cols,
        0 <= c2 < num_cols,
        s != s2,
    ensures
        cell_index(num_cols, s, c) != cell_index(num_cols, s2, c2),
{
}

/// Two segments that agree on every cell of the table have the same table.
proof fn lemma_same_cells_same_table(a: Seq<u8>, b: Seq<u8>, num_rows: nat, num_cols: nat)
    requires
        segment_size(num_rows as int, num_cols as int) <= a.len(),
        forall|index: int|
            0 <= index && HEADER_SIZE + (index + 1) * CELL_SIZE <= a.len() ==> cell_at(b, index)
                == cell_at(a, index),
    ensures
        table_of(b, num_rows, num_cols) == table_of(a, num_rows, num_cols),
{
    assert forall|s: int, c: int| 0 <= s < num_rows && 0 <= c < num_cols implies cell_at(
        b,
        #[trigger] cell_index(num_cols, s, c),
    ) == cell_at(a, cell_index(num_cols, s, c)) by {
        lemma_cell_position(num_rows, num_cols, s, c);
    }
    assert(table_of(b, num_rows, num_cols) =~~= table_of(a, num_rows, num_cols));
}

} // verus!
