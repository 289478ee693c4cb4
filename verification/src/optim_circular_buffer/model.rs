//! The ring as a mathematical value: what a writer and the readers of a
//! segment agree on, free of bytes and machine integers.

use vstd::prelude::*;
use super::delta_encoding::{
    accumulators_after, decode_rows, decode_stream, encode_stream, encoded_row,
    lemma_row_round_trip, lemma_stream_round_trip, next_accumulators,
};

verus! {

/// The abstract state of a ring.
///
/// `slots` is the row table as stored, one entry per physical slot, so a cell
/// of a delta-encoded column holds a difference and not a raw value.
/// `last_values` is the writer's own memory of the raw values it wrote last.
#[verifier::ext_equal]
pub struct RingView {
    pub head: nat,
    pub capacity: nat,
    pub num_cols: nat,
    pub slots: Seq<Seq<i64>>,
    pub delta: Seq<bool>,
    pub last_values: Seq<i64>,
}

/// Why a requested range of logical indices cannot be served.
#[derive(Debug, Clone, Copy, PartialEq, Eq, Structural)]
pub enum ReadError {
    /// The range ends before it starts.
    Inverted,
    /// The range reaches past the last row written.
    Unwritten,
    /// The range starts at a row whose slot has been reused since.
    Stale,
}

/// The oldest logical index whose row is still in its slot, for a ring of
/// `capacity` slots whose cursor stands at `head`.
pub open spec fn window_start(head: nat, capacity: nat) -> nat {
    if head > capacity {
        (head - capacity) as nat
    } else {
        0
    }
}

/// Why `[start, end)` is refused by a ring of `capacity` slots whose cursor
/// stands at `head`, if it is: a range is served exactly when it lies inside
/// the valid window `[window_start, head)`.
pub open spec fn range_error(head: nat, capacity: nat, start: int, end: int) -> Option<ReadError> {
    if start > end {
        Some(ReadError::Inverted)
    } else if end > head {
        Some(ReadError::Unwritten)
    } else if start < window_start(head, capacity) {
        Some(ReadError::Stale)
    } else {
        None
    }
}

/// The rows that a table of `capacity` slots holds for the logical indices
/// `start` up to `end`, oldest first.
pub open spec fn rows_of(slots: Seq<Seq<i64>>, capacity: nat, start: int, end: int) -> Seq<Seq<i64>> {
    Seq::new((end - start) as nat, |k: int| slots[(start + k) % (capacity as int)])
}

impl RingView {
    /// Every slot has one cell per column, and so has the writer's memory.
    pub open spec fn wf(self) -> bool {
        &&& self.capacity > 0
        &&& self.slots.len() == self.capacity
        &&& forall|s: int| 0 <= s < self.capacity ==> (#[trigger] self.slots[s]).len() == self.num_cols
        &&& self.delta.len() == self.num_cols
        &&& self.last_values.len() == self.num_cols
    }

    /// The physical slot of a logical index.
    pub open spec fn slot_of(self, index: int) -> int {
        index % (self.capacity as int)
    }

    /// The ring after one more row. The row claims logical index `head`; a row
    /// shorter than the table is wide leaves the trailing cells of its slot,
    /// and the writer's memory of those columns, as they were.
    pub open spec fn write(self, row: Seq<i64>) -> RingView
        recommends
            self.wf(),
            row.len() <= self.num_cols,
    {
        let slot = self.slot_of(self.head as int);
        RingView {
            head: self.head + 1,
            slots: self.slots.update(slot, encoded_row(self.delta, self.last_values, row) + self.slots[slot].skip(
                row.len() as int,
            )),
            last_values: row + self.last_values.skip(row.len() as int),
            ..self
        }
    }

    /// The ring after a sequence of rows, written first to last.
    pub open spec fn write_all(self, rows: Seq<Seq<i64>>) -> RingView
        decreases rows.len(),
    {
        if rows.len() == 0 {
            self
        } else {
            self.write_all(rows.drop_last()).write(rows.last())
        }
    }

    /// The oldest logical index whose row is still in its slot.
    pub open spec fn window_start(self) -> nat {
        window_start(self.head, self.capacity)
    }

    /// Whether `[start, end)` lies inside the valid window `[window_start, head)`.
    pub open spec fn readable(self, start: int, end: int) -> bool {
        self.window_start() <= start <= end <= self.head
    }

    /// Why `[start, end)` is refused, if it is.
    pub open spec fn read_error(self, start: int, end: int) -> Option<ReadError> {
        range_error(self.head, self.capacity, start, end)
    }

    /// The stored rows of logical indices `start` up to `end`, oldest first.
    pub open spec fn read(self, start: int, end: int) -> Seq<Seq<i64>>
        recommends
            self.readable(start, end),
    {
        rows_of(self.slots, self.capacity, start, end)
    }
}

/// Every row is at most as wide as the table.
pub open spec fn rows_fit(rows: Seq<Seq<i64>>, num_cols: nat) -> bool {
    forall|k: int| 0 <= k < rows.len() ==> (#[trigger] rows[k]).len() <= num_cols
}

/// Every row is exactly as wide as the table.
pub open spec fn rows_full(rows: Seq<Seq<i64>>, num_cols: nat) -> bool {
    forall|k: int| 0 <= k < rows.len() ==> (#[trigger] rows[k]).len() == num_cols
}

/// No column is delta-encoded.
pub open spec fn no_delta(delta: Seq<bool>) -> bool {
    forall|c: int| 0 <= c < delta.len() ==> !#[trigger] delta[c]
}

/// Two logical indices less than a lap apart live in different slots.
pub proof fn lemma_slots_differ_within_lap(capacity: nat, index: int, later: int)
    requires
        capacity > 0,
        0 <= index < later < index + capacity,
    ensures
        index % (capacity as int) != later % (capacity as int),
{
    let c = capacity as int;
    if index % c == later % c {
        let q1 = index / c;
        let q2 = later / c;
        assert(index == c * q1 + index % c) by (nonlinear_arith)
            requires
                c > 0,
                q1 == index / c,
        ;
        assert(later == c * q2 + later % c) by (nonlinear_arith)
            requires
                c > 0,
                q2 == later / c,
        ;
        assert(later - index == c * (q2 - q1)) by (nonlinear_arith)
            requires
                index == c * q1 + index % c,
                later == c * q2 + later % c,
                index % c == later % c,
        ;
        assert(false) by (nonlinear_arith)
            requires
                0 < later - index < c,
                later - index == c * (q2 - q1),
        ;
    }
}

/// One write advances the cursor by exactly one and keeps the shape.
pub proof fn lemma_write_keeps_shape(ring: RingView, row: Seq<i64>)
    requires
        ring.wf(),
        row.len() <= ring.num_cols,
    ensures
        ring.write(row).wf(),
        ring.write(row).head == ring.head + 1,
        ring.write(row).capacity == ring.capacity,
        ring.write(row).num_cols == ring.num_cols,
        ring.write(row).delta == ring.delta,
        row.len() == ring.num_cols ==> ring.write(row).last_values == row,
{
    let slot = ring.slot_of(ring.head as int);
    assert(0 <= slot < ring.capacity);
    assert(ring.slots[slot].len() == ring.num_cols);
    if row.len() == ring.num_cols {
        assert(ring.write(row).last_values =~= row);
    }
}

/// A sequence of writes advances the cursor by its length and keeps the shape.
pub proof fn lemma_write_all_keeps_shape(ring: RingView, rows: Seq<Seq<i64>>)
    requires
        ring.wf(),
        rows_fit(rows, ring.num_cols),
    ensures
        ring.write_all(rows).wf(),
        ring.write_all(rows).head == ring.head + rows.len(),
        ring.write_all(rows).capacity == ring.capacity,
        ring.write_all(rows).num_cols == ring.num_cols,
        ring.write_all(rows).delta == ring.delta,
        rows_full(rows, ring.num_cols) && rows.len() > 0 ==> ring.write_all(rows).last_values
            == rows.last(),
    decreases rows.len(),
{
    if rows.len() > 0 {
        lemma_write_all_keeps_shape(ring, rows.drop_last());
        lemma_write_keeps_shape(ring.write_all(rows.drop_last()), rows.last());
    }
}

/// The cursor never moves backwards: whatever rows are written and in
/// whatever order writers take their turns, the cursor after any prefix of
/// the writes is at most the cursor after any longer prefix, and the write in
/// position `i` is the only one to claim logical index `head + i`.
pub proof fn lemma_head_never_decreases(ring: RingView, rows: Seq<Seq<i64>>, i: int, j: int)
    requires
        0 <= i <= j <= rows.len(),
    ensures
        ring.write_all(rows.take(i)).head == ring.head + i,
        ring.write_all(rows.take(j)).head == ring.head + j,
        ring.write_all(rows.take(i)).head <= ring.write_all(rows.take(j)).head,
{
    lemma_head_counts_writes(ring, rows.take(i));
    lemma_head_counts_writes(ring, rows.take(j));
}

/// The cursor counts the rows written and the capacity stays, with no
/// condition on the rows.
pub proof fn lemma_head_counts_writes(ring: RingView, rows: Seq<Seq<i64>>)
    ensures
        ring.write_all(rows).head == ring.head + rows.len(),
        ring.write_all(rows).capacity == ring.capacity,
    decreases rows.len(),
{
    if rows.len() > 0 {
        lemma_head_counts_writes(ring, rows.drop_last());
    }
}

/// As long as fewer than `capacity` rows have followed it, a written row is
/// found in the slot of its logical index, encoded against the row written
/// before it.
pub proof fn lemma_written_row_stays(ring: RingView, rows: Seq<Seq<i64>>, k: int)
    requires
        ring.wf(),
        rows_full(rows, ring.num_cols),
        0 <= k < rows.len(),
        rows.len() - k <= ring.capacity,
    ensures
        ring.write_all(rows).slots[ring.slot_of(ring.head + k)] == encoded_row(
            ring.delta,
            if k == 0 {
                ring.last_values
            } else {
                rows[k - 1]
            },
            rows[k],
        ),
    decreases rows.len(),
{
    let earlier = rows.drop_last();
    let middle = ring.write_all(earlier);
    lemma_write_all_keeps_shape(ring, earlier);
    let slot = middle.slot_of(middle.head as int);
    assert(0 <= slot < ring.capacity);
    if k == rows.len() - 1 {
        assert(middle.slots[slot].skip(rows.last().len() as int) =~= Seq::<i64>::empty());
        assert(middle.last_values == if k == 0 {
            ring.last_values
        } else {
            rows[k - 1]
        });
        assert(ring.write_all(rows).slots[slot] =~= encoded_row(
            ring.delta,
            middle.last_values,
            rows[k],
        ));
    } else {
        lemma_written_row_stays(ring, earlier, k);
        lemma_slots_differ_within_lap(ring.capacity, ring.head + k, middle.head as int);
    }
}

/// The valid window after `rows` have been written is exactly the last
/// `capacity` logical indices: a range is served if and only if it lies
/// inside `[max(0, head - capacity), head)`, and a range that starts before
/// the window is refused.
pub proof fn lemma_window_after_writes(ring: RingView, rows: Seq<Seq<i64>>, start: int, end: int)
    ensures
        ({
            let after = ring.write_all(rows);
            let head = ring.head + rows.len();
            let oldest = if head > ring.capacity {
                head - ring.capacity
            } else {
                0
            };
            &&& after.head == head
            &&& after.window_start() == oldest
            &&& after.read_error(start, end) is None <==> oldest <= start <= end <= head
            &&& after.readable(start, end) <==> after.read_error(start, end) is None
            &&& start < oldest ==> after.read_error(start, end) is Some
        }),
{
    lemma_head_counts_writes(ring, rows);
}

/// With no delta encoding, any range inside the valid window that covers only
/// rows of `rows` reads back exactly those rows, in insertion order.
pub proof fn lemma_read_returns_written(ring: RingView, rows: Seq<Seq<i64>>, start: int, end: int)
    requires
        ring.wf(),
        no_delta(ring.delta),
        rows_full(rows, ring.num_cols),
        ring.head <= start,
        ring.write_all(rows).readable(start, end),
    ensures
        ring.write_all(rows).read(start, end) == rows.subrange(start - ring.head, end - ring.head),
{
    let after = ring.write_all(rows);
    lemma_write_all_keeps_shape(ring, rows);
    assert forall|i: int| 0 <= i < end - start implies after.read(start, end)[i] == rows[start
        - ring.head + i] by {
        let k = start - ring.head + i;
        lemma_written_row_stays(ring, rows, k);
        let against = if k == 0 {
            ring.last_values
        } else {
            rows[k - 1]
        };
        assert(encoded_row(ring.delta, against, rows[k]) =~= rows[k]);
    }
    assert(after.read(start, end) =~= rows.subrange(start - ring.head, end - ring.head));
}

/// Filling without overflow: after at most `capacity` rows have been written
/// to a ring with no delta encoding, reading the range they occupy gives the
/// rows back exactly, in insertion order.
pub proof fn lemma_fill_reads_back(ring: RingView, rows: Seq<Seq<i64>>)
    requires
        ring.wf(),
        no_delta(ring.delta),
        rows_full(rows, ring.num_cols),
        rows.len() <= ring.capacity,
    ensures
        ring.write_all(rows).readable(ring.head as int, (ring.head + rows.len()) as int),
        ring.write_all(rows).read(ring.head as int, (ring.head + rows.len()) as int) == rows,
{
    lemma_write_all_keeps_shape(ring, rows);
    lemma_read_returns_written(ring, rows, ring.head as int, (ring.head + rows.len()) as int);
    assert(rows.subrange(0, rows.len() as int) =~= rows);
}

/// With or without delta encoding: after at most `capacity` rows have been
/// written, reading the range they occupy and decoding it in order, starting
/// from the raw values the writer held before, gives the rows back exactly.
pub proof fn lemma_fill_decodes_back(ring: RingView, rows: Seq<Seq<i64>>)
    requires
        ring.wf(),
        rows_full(rows, ring.num_cols),
        rows.len() <= ring.capacity,
    ensures
        ring.write_all(rows).readable(ring.head as int, (ring.head + rows.len()) as int),
        decode_rows(
            ring.delta,
            ring.last_values,
            ring.write_all(rows).read(ring.head as int, (ring.head + rows.len()) as int),
        ) == rows,
{
    lemma_write_all_keeps_shape(ring, rows);
    let stored = ring.write_all(rows).read(ring.head as int, (ring.head + rows.len()) as int);
    assert forall|k: int| 0 <= k < rows.len() implies #[trigger] stored[k] == encoded_row(
        ring.delta,
        if k == 0 {
            ring.last_values
        } else {
            rows[k - 1]
        },
        rows[k],
    ) by {
        lemma_written_row_stays(ring, rows, k);
    }
    assert forall|k: int| 0 <= k < rows.len() implies #[trigger] decode_rows(
        ring.delta,
        ring.last_values,
        stored,
    )[k] == rows[k] by {
        lemma_reader_follows_writer(ring.delta, ring.last_values, rows, stored, k);
        let against = if k == 0 {
            ring.last_values
        } else {
            rows[k - 1]
        };
        lemma_row_round_trip(ring.delta, against, rows[k]);
    }
    assert(decode_rows(ring.delta, ring.last_values, stored) =~= rows);
}

/// The cells of column `column` of a run of rows, oldest first.
pub open spec fn column_of(rows: Seq<Seq<i64>>, column: int) -> Seq<i64> {
    Seq::new(rows.len(), |k: int| rows[k][column])
}

/// A delta-encoded column of a ring whose writer last wrote zero there: after
/// at most `capacity` rows, what the ring stores in that column is the
/// encoded stream of the raw values written to it, and the running sum of
/// what is read there is the raw values again.
pub proof fn lemma_delta_column_is_stream(ring: RingView, rows: Seq<Seq<i64>>, column: int)
    requires
        ring.wf(),
        rows_full(rows, ring.num_cols),
        rows.len() <= ring.capacity,
        0 <= column < ring.num_cols,
        ring.delta[column],
        ring.last_values[column] == 0,
    ensures
        column_of(
            ring.write_all(rows).read(ring.head as int, (ring.head + rows.len()) as int),
            column,
        ) == encode_stream(column_of(rows, column)),
        decode_stream(
            column_of(
                ring.write_all(rows).read(ring.head as int, (ring.head + rows.len()) as int),
                column,
            ),
        ) == column_of(rows, column),
{
    lemma_write_all_keeps_shape(ring, rows);
    let stored = ring.write_all(rows).read(ring.head as int, (ring.head + rows.len()) as int);
    let raw = column_of(rows, column);
    assert forall|k: int| 0 <= k < rows.len() implies column_of(stored, column)[k]
        == encode_stream(raw)[k] by {
        lemma_written_row_stays(ring, rows, k);
    }
    assert(column_of(stored, column) =~= encode_stream(raw));
    lemma_stream_round_trip(raw);
}

/// A reader that has decoded the first `n` stored rows holds the raw values
/// the writer held when it encoded the row after them.
proof fn lemma_reader_follows_writer(
    delta: Seq<bool>,
    baseline: Seq<i64>,
    rows: Seq<Seq<i64>>,
    stored: Seq<Seq<i64>>,
    n: int,
)
    requires
        stored.len() == rows.len(),
        0 <= n <= rows.len(),
        rows_full(rows, baseline.len()),
        forall|k: int|
            0 <= k < rows.len() ==> #[trigger] stored[k] == encoded_row(
                delta,
                if k == 0 {
                    baseline
                } else {
                    rows[k - 1]
                },
                rows[k],
            ),
    ensures
        accumulators_after(delta, baseline, stored.take(n)) == if n == 0 {
            baseline
        } else {
            rows[n - 1]
        },
    decreases n,
{
    if n > 0 {
        lemma_reader_follows_writer(delta, baseline, rows, stored, n - 1);
        assert(stored.take(n).drop_last() =~= stored.take(n - 1));
        assert(stored.take(n).last() == stored[n - 1]);
        let against = if n - 1 == 0 {
            baseline
        } else {
            rows[n - 2]
        };
        lemma_row_round_trip(delta, against, rows[n - 1]);
        assert(next_accumulators(delta, against, stored[n - 1]) =~= rows[n - 1]);
    }
}

} // verus!
