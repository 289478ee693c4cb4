//! A stand-in producer: bursts of random rows, each write timed and the
//! latency handed to the profiler.

use vstd::prelude::*;
use rand::rngs::ThreadRng;
use rand::Rng;
use std::time::Instant;
use super::circular_buffer::CircularBuffer;
use super::config::BufferConfig;
use super::model::{lemma_write_keeps_shape, rows_full, RingView};
use super::profiling::{samples_after_all, Profiler};

verus! {

/// Mock cell values are drawn from zero up to, and not including, this bound.
pub const MOCK_VALUE_BOUND: i64 = 1_000_000;

/// `rand::rngs::ThreadRng`, the handle on the generator of the current
/// thread. Nothing about its state is visible to proofs.
#[verifier::external_type_specification]
#[verifier::external_body]
pub struct ExThreadRng(rand::rngs::ThreadRng);

/// `rand::thread_rng` hands out the generator of the current thread, seeded
/// by the operating system on first use; it panics if the system has no
/// entropy to give. Nothing is claimed of the result.
pub assume_specification[ rand::thread_rng ]() -> ThreadRng;

/// `Rng::gen_range` on a half-open range of `i64`: draws one value from
/// `low..high`. The call panics on an empty range, so `low < high` is asked
/// for; what comes back lies in the range, and nothing more is claimed.
#[verifier::external_body]
fn draw_between(rng: &mut ThreadRng, low: i64, high: i64) -> (value: i64)
    requires
        low < high,
    ensures
        low <= value < high,
{
    rng.gen_range(low..high)
}

/// Every row has `num_cols` cells and every cell lies in the mock range.
pub open spec fn mock_rows(rows: Seq<Seq<i64>>, num_cols: nat) -> bool {
    &&& rows_full(rows, num_cols)
    &&& forall|k: int, c: int|
        0 <= k < rows.len() && 0 <= c < rows[k].len() ==> 0 <= #[trigger] rows[k][c]
            < MOCK_VALUE_BOUND
}

/// Writes one burst of `buffer_config.num_rows` random rows of
/// `buffer_config.num_cols` cells each, and offers the latency of every write
/// to the profiler.
///
/// Which rows are written and how long each write took is not known in
/// advance; whatever they are, the ring ends up as if those rows had been
/// written in order, and the profiler as if those latencies had been offered
/// in order.
pub fn generate_mock_data(
    cbuf: &mut CircularBuffer<'_>,
    buffer_config: &BufferConfig,
    profiler: &mut Profiler,
)
    requires
        old(cbuf).wf(),
        buffer_config.num_cols <= old(cbuf)@.num_cols,
        old(cbuf)@.head + buffer_config.num_rows <= usize::MAX,
    ensures
        final(cbuf).wf(),
        exists|rows: Seq<Seq<i64>>|
            {
                &&& rows.len() == buffer_config.num_rows
                &&& mock_rows(rows, buffer_config.num_cols as nat)
                &&& final(cbuf)@ == #[trigger] old(cbuf)@.write_all(rows)
            },
        exists|latencies: Seq<u64>|
            {
                &&& latencies.len() == buffer_config.num_rows
                &&& final(profiler).samples() == #[trigger] samples_after_all(
                    old(profiler).enabled(),
                    old(profiler).samples(),
                    latencies,
                )
            },
        final(profiler).enabled() == old(profiler).enabled(),
        final(profiler).output_path() == old(profiler).output_path(),
        final(cbuf).prefetch_is_enabled() == old(cbuf).prefetch_is_enabled(),
        final(cbuf).prefetch_ahead() == old(cbuf).prefetch_ahead(),
{
    let num_rows = buffer_config.num_rows;
    let num_cols = buffer_config.num_cols;
    let mut rng = rand::thread_rng();
    let ghost start: RingView = cbuf@;
    let ghost mut written: Seq<Seq<i64>> = Seq::empty();
    let ghost mut latencies: Seq<u64> = Seq::empty();
    proof {
        cbuf.lemma_wf_view();
    }
    let mut count: usize = 0;
    while count < num_rows
        invariant
            count <= num_rows,
            cbuf.wf(),
            start.wf(),
            start == old(cbuf)@,
            num_cols <= start.num_cols,
            start.head + num_rows <= usize::MAX,
            written.len() == count,
            mock_rows(written, num_cols as nat),
            cbuf@ == start.write_all(written),
            cbuf@.head == start.head + count,
            cbuf@.num_cols == start.num_cols,
            latencies.len() == count,
            profiler.samples() == samples_after_all(
                old(profiler).enabled(),
                old(profiler).samples(),
                latencies,
            ),
            profiler.enabled() == old(profiler).enabled(),
            profiler.output_path() == old(profiler).output_path(),
            cbuf.prefetch_is_enabled() == old(cbuf).prefetch_is_enabled(),
            cbuf.prefetch_ahead() == old(cbuf).prefetch_ahead(),
        decreases num_rows - count,
    {
        let mut row: Vec<i64> = Vec::new();
        let mut col: usize = 0;
        while col < num_cols
            invariant
                col <= num_cols,
                row@.len() == col,
                forall|c: int| 0 <= c < col ==> 0 <= #[trigger] row@[c] < MOCK_VALUE_BOUND,
            decreases num_cols - col,
        {
            let value = draw_between(&mut rng, 0, MOCK_VALUE_BOUND);
            row.push(value);
            col = col + 1;
        }
        proof {
            cbuf.lemma_wf_view();
        }
        let start_t = Instant::now();
        cbuf.write_row(row.as_slice());
        let nanos: u128 = start_t.elapsed().as_nanos();
        let write_latency: u64 = #[verifier::truncate]
        (nanos as u64);
        profiler.record_latency(write_latency);
        proof {
            lemma_write_keeps_shape(start.write_all(written), row@);
            let longer = written.push(row@);
            assert(longer.drop_last() =~= written);
            let more = latencies.push(write_latency);
            assert(more.drop_last() =~= latencies);
            written = longer;
            latencies = more;
        }
        count = count + 1;
    }
    proof {
        assert(cbuf@ == old(cbuf)@.write_all(written));
    }
}

} // verus!
