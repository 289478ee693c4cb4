//! Latency recording: samples are appended in call order while profiling is
//! enabled, and handed out as a report when the run ends.

use vstd::prelude::*;
use std::time::{Duration, Instant};
use super::config::ProfilingConfig;

verus! {

/// `std::time::Instant`, a point on the monotonic clock. Nothing about its
/// value is visible to proofs.
#[verifier::external_type_specification]
#[verifier::external_body]
pub struct ExInstant(std::time::Instant);

/// `Instant::now` reads the monotonic clock. Nothing is claimed of the result.
pub assume_specification[ std::time::Instant::now ]() -> Instant;

/// `Instant::elapsed` gives the time since the instant was taken. Nothing is
/// claimed of the result.
pub assume_specification[ std::time::Instant::elapsed ](instant: &Instant) -> Duration;

/// `Duration::as_nanos` gives a duration in whole nanoseconds. Nothing is
/// claimed of the result.
pub assume_specification[ std::time::Duration::as_nanos ](duration: &Duration) -> u128;

/// The content of a report: every latency sample in the order in which it
/// was recorded, and the time from the creation of the profiler to the
/// report, both in nanoseconds.
#[derive(Debug)]
pub struct ProfilingData {
    pub latency_ns: Vec<u64>,
    pub timestamp: u64,
}

/// A report ready to be written out: where it goes and what it holds.
#[derive(Debug)]
pub struct ProfilingReport {
    pub output_path: String,
    pub data: ProfilingData,
}

/// The samples held after `latency` has been offered.
pub open spec fn samples_after(enabled: bool, samples: Seq<u64>, latency: u64) -> Seq<u64> {
    if enabled {
        samples.push(latency)
    } else {
        samples
    }
}

/// The samples held after each of `latencies` has been offered, first to last.
pub open spec fn samples_after_all(enabled: bool, samples: Seq<u64>, latencies: Seq<u64>) -> Seq<u64>
    decreases latencies.len(),
{
    if latencies.len() == 0 {
        samples
    } else {
        samples_after(
            enabled,
            samples_after_all(enabled, samples, latencies.drop_last()),
            latencies.last(),
        )
    }
}

/// The samples that a report carries, if a report is made at all.
pub open spec fn reported(enabled: bool, samples: Seq<u64>) -> Option<Seq<u64>> {
    if enabled {
        Some(samples)
    } else {
        None
    }
}

/// An enabled profiler keeps every sample in call order, so that after `k`
/// samples its report holds exactly those `k`; a disabled one keeps nothing
/// and makes no report.
pub proof fn lemma_samples_in_call_order(enabled: bool, samples: Seq<u64>, latencies: Seq<u64>)
    ensures
        enabled ==> samples_after_all(enabled, samples, latencies) == samples + latencies,
        enabled ==> reported(enabled, samples_after_all(enabled, Seq::empty(), latencies)) == Some(
            latencies,
        ),
        !enabled ==> samples_after_all(enabled, samples, latencies) == samples,
        !enabled ==> reported(enabled, samples_after_all(enabled, samples, latencies)) is None,
    decreases latencies.len(),
{
    if latencies.len() > 0 {
        lemma_samples_in_call_order(enabled, samples, latencies.drop_last());
        lemma_samples_in_call_order(enabled, Seq::empty(), latencies.drop_last());
    }
    if enabled {
        assert(samples_after_all(enabled, samples, latencies) =~= samples + latencies);
        lemma_samples_in_call_order_from_empty(latencies);
    }
}

/// Starting with no samples, an enabled profiler holds exactly what was recorded.
proof fn lemma_samples_in_call_order_from_empty(latencies: Seq<u64>)
    ensures
        samples_after_all(true, Seq::empty(), latencies) == latencies,
    decreases latencies.len(),
{
    if latencies.len() > 0 {
        lemma_samples_in_call_order_from_empty(latencies.drop_last());
    }
    assert(samples_after_all(true, Seq::empty(), latencies) =~= latencies);
}

/// Records write latencies for one run.
pub struct Profiler {
    enabled: bool,
    start: Instant,
    data: ProfilingData,
    output_path: String,
}

impl Profiler {
    /// Whether samples are kept.
    pub closed spec fn enabled(&self) -> bool {
        self.enabled
    }

    /// The samples kept so far, in call order.
    pub closed spec fn samples(&self) -> Seq<u64> {
        self.data.latency_ns@
    }

    /// Where the report is to be written.
    pub closed spec fn output_path(&self) -> Seq<char> {
        self.output_path@
    }

    /// A profiler with no samples, whose clock starts now.
    pub fn new(cfg: &ProfilingConfig) -> (profiler: Profiler)
        ensures
            profiler.enabled() == cfg.enable,
            profiler.samples() == Seq::<u64>::empty(),
            profiler.output_path() == cfg.output_path@,
    {
        Profiler {
            enabled: cfg.enable,
            start: Instant::now(),
            data: ProfilingData { latency_ns: Vec::new(), timestamp: 0 },
            output_path: cfg.output_path.clone(),
        }
    }

    /// Appends one sample if profiling is enabled, and does nothing otherwise.
    pub fn record_latency(&mut self, latency_ns: u64)
        ensures
            final(self).enabled() == old(self).enabled(),
            final(self).output_path() == old(self).output_path(),
            final(self).samples() == samples_after(
                old(self).enabled(),
                old(self).samples(),
                latency_ns,
            ),
    {
        if self.enabled {
            self.data.latency_ns.push(latency_ns);
        }
    }

    /// Makes the report for a run that has lasted `elapsed_ns` nanoseconds:
    /// none if profiling is disabled, else every sample in call order with
    /// the elapsed time. The samples stay, so a second report made with no
    /// sample in between holds the same sequence.
    pub fn finalize_at(&mut self, elapsed_ns: u64) -> (report: Option<ProfilingReport>)
        ensures
            final(self).enabled() == old(self).enabled(),
            final(self).output_path() == old(self).output_path(),
            final(self).samples() == old(self).samples(),
            match report {
                Some(report) => {
                    &&& old(self).enabled()
                    &&& report.output_path@ == old(self).output_path()
                    &&& report.data.latency_ns@ == old(self).samples()
                    &&& report.data.timestamp == elapsed_ns
                },
                None => !old(self).enabled(),
            },
    {
        if !self.enabled {
            return None;
        }
        self.data.timestamp = elapsed_ns;
        let latency_ns = self.data.latency_ns.clone();
        proof {
            assert(latency_ns@ =~= self.data.latency_ns@);
        }
        Some(
            ProfilingReport {
                output_path: self.output_path.clone(),
                data: ProfilingData { latency_ns, timestamp: elapsed_ns },
            },
        )
    }

    /// Makes the report for the run up to now; see `finalize_at`. The elapsed
    /// time is read off the clock, cut to 64 bits.
    pub fn finalize(&mut self) -> (report: Option<ProfilingReport>)
        ensures
            final(self).enabled() == old(self).enabled(),
            final(self).output_path() == old(self).output_path(),
            final(self).samples() == old(self).samples(),
            match report {
                Some(report) => {
                    &&& old(self).enabled()
                    &&& report.output_path@ == old(self).output_path()
                    &&& report.data.latency_ns@ == old(self).samples()
                },
                None => !old(self).enabled(),
            },
    {
        let nanos: u128 = self.start.elapsed().as_nanos();
        let elapsed_ns: u64 = #[verifier::truncate]
        (nanos as u64);
        self.finalize_at(elapsed_ns)
    }
}

} // verus!
