//! Delta encoding of a column: each stored cell is the difference between the
//! raw value and the raw value before it, taken modulo 2^64 so that every
//! difference is representable and decoding is exact.

use vstd::prelude::*;
use super::config::ColumnConfig;

verus! {

/// The difference `new_val - previous_val`, wrapped into the 64-bit range.
pub open spec fn delta_of(previous_val: i64, new_val: i64) -> i64 {
    if new_val - previous_val > i64::MAX {
        (new_val - previous_val - 0x1_0000_0000_0000_0000) as i64
    } else if new_val - previous_val < i64::MIN {
        (new_val - previous_val + 0x1_0000_0000_0000_0000) as i64
    } else {
        (new_val - previous_val) as i64
    }
}

/// The sum `accumulator + stored`, wrapped into the 64-bit range.
pub open spec fn undelta_of(accumulator: i64, stored: i64) -> i64 {
    if accumulator + stored > i64::MAX {
        (accumulator + stored - 0x1_0000_0000_0000_0000) as i64
    } else if accumulator + stored < i64::MIN {
        (accumulator + stored + 0x1_0000_0000_0000_0000) as i64
    } else {
        (accumulator + stored) as i64
    }
}

/// What is stored for `new_val` in a delta-encoded column whose previous raw
/// value was `previous_val`.
pub fn delta_encode_column(previous_val: i64, new_val: i64) -> (stored: i64)
    ensures
        stored == delta_of(previous_val, new_val),
{
    new_val.wrapping_sub(previous_val)
}

/// The raw value that `stored` stands for, given the raw value reconstructed
/// just before it.
pub fn delta_decode_column(accumulator: i64, stored: i64) -> (value: i64)
    ensures
        value == undelta_of(accumulator, stored),
{
    accumulator.wrapping_add(stored)
}

/// Decoding a stored difference against the value it was taken from gives the
/// raw value back, whatever the two values are.
pub proof fn lemma_delta_inverts(previous_val: i64, new_val: i64)
    ensures
        undelta_of(previous_val, delta_of(previous_val, new_val)) == new_val,
{
}

/// The cells stored for the leading columns of `row`: a difference from the
/// raw value written last where the column is delta-encoded, the value itself
/// elsewhere.
pub open spec fn encoded_row(delta: Seq<bool>, last_values: Seq<i64>, row: Seq<i64>) -> Seq<i64> {
    Seq::new(
        row.len(),
        |c: int|
            if delta[c] {
                delta_of(last_values[c], row[c])
            } else {
                row[c]
            },
    )
}

/// The raw values that the cells of `stored` stand for, given the raw values
/// reconstructed from the row before.
pub open spec fn decoded_row(delta: Seq<bool>, accumulators: Seq<i64>, stored: Seq<i64>) -> Seq<i64> {
    Seq::new(
        stored.len(),
        |c: int|
            if delta[c] {
                undelta_of(accumulators[c], stored[c])
            } else {
                stored[c]
            },
    )
}

/// A row decoded against the raw values it was encoded against is the row
/// that was encoded.
pub proof fn lemma_row_round_trip(delta: Seq<bool>, last_values: Seq<i64>, row: Seq<i64>)
    ensures
        decoded_row(delta, last_values, encoded_row(delta, last_values, row)) == row,
{
    assert forall|c: int| 0 <= c < row.len() implies decoded_row(
        delta,
        last_values,
        encoded_row(delta, last_values, row),
    )[c] == row[c] by {
        lemma_delta_inverts(last_values[c], row[c]);
    }
    assert(decoded_row(delta, last_values, encoded_row(delta, last_values, row)) =~= row);
}

/// What a delta-encoded column stores for the successive raw values
/// `values`: the first against zero, each later one against the one before.
pub open spec fn encode_stream(values: Seq<i64>) -> Seq<i64> {
    Seq::new(
        values.len(),
        |k: int|
            delta_of(
                if k == 0 {
                    0
                } else {
                    values[k - 1]
                },
                values[k],
            ),
    )
}

/// The running sum of `stored`, starting at zero and wrapped into the 64-bit
/// range at every step.
pub open spec fn decode_stream(stored: Seq<i64>) -> Seq<i64>
    decreases stored.len(),
{
    if stored.len() == 0 {
        Seq::empty()
    } else {
        let earlier = decode_stream(stored.drop_last());
        let accumulator = if earlier.len() == 0 {
            0
        } else {
            earlier.last()
        };
        earlier.push(undelta_of(accumulator, stored.last()))
    }
}

/// Delta round trip: decoding the encoded stream of a column reproduces its
/// raw values exactly, whatever they are.
pub proof fn lemma_stream_round_trip(values: Seq<i64>)
    ensures
        decode_stream(encode_stream(values)) == values,
    decreases values.len(),
{
    if values.len() == 0 {
        assert(decode_stream(encode_stream(values)) =~= values);
    } else {
        let shorter = values.drop_last();
        lemma_stream_round_trip(shorter);
        assert(encode_stream(values).drop_last() =~= encode_stream(shorter));
        let previous = if shorter.len() == 0 {
            0i64
        } else {
            shorter.last()
        };
        lemma_delta_inverts(previous, values.last());
        assert(decode_stream(encode_stream(values)) =~= values);
    }
}

/// The accumulators of a reader after it has decoded `stored` against
/// `accumulators`: the decoded values, and for the columns that `stored` does
/// not reach what was there before.
pub open spec fn next_accumulators(delta: Seq<bool>, accumulators: Seq<i64>, stored: Seq<i64>) -> Seq<
    i64,
> {
    decoded_row(delta, accumulators, stored) + accumulators.skip(stored.len() as int)
}

/// The accumulators of a reader that started from `baseline` and has decoded
/// the stored rows `stored` in order.
pub open spec fn accumulators_after(delta: Seq<bool>, baseline: Seq<i64>, stored: Seq<Seq<i64>>) -> Seq<
    i64,
>
    decreases stored.len(),
{
    if stored.len() == 0 {
        baseline
    } else {
        next_accumulators(
            delta,
            accumulators_after(delta, baseline, stored.drop_last()),
            stored.last(),
        )
    }
}

/// The raw rows that the stored rows `stored` stand for when they are decoded
/// in order by a reader whose accumulators start at `baseline`.
pub open spec fn decode_rows(delta: Seq<bool>, baseline: Seq<i64>, stored: Seq<Seq<i64>>) -> Seq<
    Seq<i64>,
> {
    Seq::new(
        stored.len(),
        |k: int| decoded_row(delta, accumulators_after(delta, baseline, stored.take(k)), stored[k]),
    )
}

/// Which columns are delta-encoded.
pub open spec fn delta_flags(columns: Seq<ColumnConfig>) -> Seq<bool> {
    Seq::new(columns.len(), |c: int| columns[c].delta_encoding)
}

/// A reader's decoding state: which columns are delta-encoded and, per
/// column, the raw value reconstructed last.
pub struct RowDecoder {
    delta: Vec<bool>,
    accumulators: Vec<i64>,
}

impl RowDecoder {
    /// Which columns this decoder treats as delta-encoded.
    pub closed spec fn delta(&self) -> Seq<bool> {
        self.delta@
    }

    /// The raw values reconstructed last, one per column.
    pub closed spec fn accumulators(&self) -> Seq<i64> {
        self.accumulators@
    }

    /// There is one accumulator per column.
    pub closed spec fn wf(&self) -> bool {
        self.delta@.len() == self.accumulators@.len()
    }

    /// A decoder for rows of the given columns, every accumulator at zero:
    /// the state in which to start replaying a stream from its first row.
    pub fn new(columns: &Vec<ColumnConfig>) -> (decoder: RowDecoder)
        ensures
            decoder.wf(),
            decoder.delta() == delta_flags(columns@),
            decoder.accumulators() == Seq::new(columns@.len(), |c: int| 0i64),
    {
        let mut delta: Vec<bool> = Vec::new();
        let mut accumulators: Vec<i64> = Vec::new();
        let mut col: usize = 0;
        while col < columns.len()
            invariant
                col <= columns@.len(),
                delta@.len() == col,
                accumulators@.len() == col,
                forall|c: int| 0 <= c < col ==> delta@[c] == columns@[c].delta_encoding,
                forall|c: int| 0 <= c < col ==> accumulators@[c] == 0,
            decreases columns@.len() - col,
        {
            delta.push(columns[col].delta_encoding);
            accumulators.push(0);
            col = col + 1;
        }
        proof {
            assert(delta@ =~= delta_flags(columns@));
            assert(accumulators@ =~= Seq::new(columns@.len(), |c: int| 0i64));
        }
        RowDecoder { delta, accumulators }
    }

    /// Reconstructs the raw values of one stored row and remembers them for
    /// the row that follows. Rows must be handed over in increasing logical
    /// order and without gaps, from the row the accumulators stand at.
    pub fn decode_row(&mut self, stored: &[i64]) -> (row: Vec<i64>)
        requires
            old(self).wf(),
            stored@.len() <= old(self).delta().len(),
        ensures
            final(self).wf(),
            final(self).delta() == old(self).delta(),
            row@ == decoded_row(old(self).delta(), old(self).accumulators(), stored@),
            final(self).accumulators() == next_accumulators(
                old(self).delta(),
                old(self).accumulators(),
                stored@,
            ),
    {
        let ghost before = self.accumulators@;
        let mut row: Vec<i64> = Vec::new();
        let mut col: usize = 0;
        while col < stored.len()
            invariant
                col <= stored@.len() <= self.delta@.len(),
                self.delta@ == old(self).delta@,
                self.accumulators@.len() == self.delta@.len(),
                before.len() == self.delta@.len(),
                row@.len() == col,
                forall|c: int|
                    0 <= c < col ==> row@[c] == decoded_row(self.delta@, before, stored@)[c],
                forall|c: int| 0 <= c < col ==> self.accumulators@[c] == row@[c],
                forall|c: int| col <= c < before.len() ==> self.accumulators@[c] == before[c],
            decreases stored@.len() - col,
        {
            let value = if self.delta[col] {
                delta_decode_column(self.accumulators[col], stored[col])
            } else {
                stored[col]
            };
            self.accumulators[col] = value;
            row.push(value);
            col = col + 1;
        }
        proof {
            assert(row@ =~= decoded_row(self.delta@, before, stored@));
            assert(self.accumulators@ =~= next_accumulators(self.delta@, before, stored@));
        }
        row
    }

    /// Reconstructs the raw rows of a run of stored rows, oldest first.
    pub fn decode_rows(&mut self, stored: &Vec<Vec<i64>>) -> (rows: Vec<Vec<i64>>)
        requires
            old(self).wf(),
            forall|k: int|
                0 <= k < stored@.len() ==> (#[trigger] stored@[k])@.len() <= old(self).delta().len(),
        ensures
            final(self).wf(),
            final(self).delta() == old(self).delta(),
            rows.deep_view() == decode_rows(
                old(self).delta(),
                old(self).accumulators(),
                stored.deep_view(),
            ),
            final(self).accumulators() == accumulators_after(
                old(self).delta(),
                old(self).accumulators(),
                stored.deep_view(),
            ),
    {
        let ghost delta = self.delta@;
        let ghost baseline = self.accumulators@;
        let ghost all = stored.deep_view();
        let mut rows: Vec<Vec<i64>> = Vec::new();
        let mut index: usize = 0;
        while index < stored.len()
            invariant
                index <= stored@.len(),
                all == stored.deep_view(),
                self.wf(),
                self.delta@ == delta,
                forall|k: int|
                    0 <= k < stored@.len() ==> (#[trigger] stored@[k])@.len() <= delta.len(),
                self.accumulators@ == accumulators_after(delta, baseline, all.take(index as int)),
                rows@.len() == index,
                forall|k: int|
                    0 <= k < index ==> (#[trigger] rows@[k])@ == decode_rows(delta, baseline, all)[k],
            decreases stored@.len() - index,
        {
            let row = self.decode_row(stored[index].as_slice());
            proof {
                assert(all[index as int] == stored@[index as int]@);
                assert(all.take(index + 1).drop_last() =~= all.take(index as int));
                assert(all.take(index + 1).last() == all[index as int]);
            }
            rows.push(row);
            index = index + 1;
        }
        proof {
            assert(all.take(stored@.len() as int) =~= all);
            assert(rows.deep_view() =~~= decode_rows(delta, baseline, all));
        }
        rows
    }
}

} // verus!
