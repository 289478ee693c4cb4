//! Host tuning before the hot path starts: which process-wide measures to
//! take, in which order, and what a failure of each one means.
//!
//! The measures themselves are privileged calls into the operating system and
//! are carried out by the caller. This module decides: from the configuration
//! and the outcome of the measure taken last it gives the measure to take
//! next, or the error that ends startup.

use vstd::prelude::*;
use super::config::OSOptimizationConfig;
use super::numa_support::{binds_only, set_numa_node, NodeMask, MAX_NUMA_NODES};

verus! {

/// The tuning measures, in the order in which they are taken.
#[derive(Debug, Clone, Copy, PartialEq, Eq, Structural)]
pub enum TuningStep {
    /// Enable transparent huge pages system-wide.
    HugePages,
    /// Lock the pages of the process against swapping.
    LockMemory,
    /// Bind the process to one CPU core.
    CpuAffinity,
    /// Bind memory allocation to one NUMA node.
    NumaBinding,
    /// Switch to real-time first-in-first-out scheduling.
    RealtimePriority,
}

/// How a measure ended.
#[derive(Debug, Clone, Copy, PartialEq, Eq, Structural)]
pub enum StepOutcome {
    /// The measure is in effect.
    Done,
    /// The operating system refused the measure.
    Failed,
    /// The control interface of the measure could not even be opened.
    Unavailable,
}

/// One measure for the caller to carry out, with what it needs.
#[derive(Debug)]
pub enum TuningAction {
    /// Write `always` to the transparent-huge-pages control file.
    EnableHugePages,
    /// Lock current and future pages into memory.
    LockMemory,
    /// Restrict the process to this core.
    SetCpuAffinity { cpu: usize },
    /// Install this mask as the memory binding policy.
    BindNumaNode { mask: NodeMask },
    /// Switch to the first-in-first-out class at this priority.
    SetRealtimePriority { priority: i32 },
}

/// Position of a step in the order of tuning.
pub open spec fn step_rank(step: TuningStep) -> nat {
    match step {
        TuningStep::HugePages => 0,
        TuningStep::LockMemory => 1,
        TuningStep::CpuAffinity => 2,
        TuningStep::NumaBinding => 3,
        TuningStep::RealtimePriority => 4,
    }
}

/// The step at a position in the order of tuning.
pub open spec fn step_at(rank: nat) -> TuningStep {
    if rank == 0 {
        TuningStep::HugePages
    } else if rank == 1 {
        TuningStep::LockMemory
    } else if rank == 2 {
        TuningStep::CpuAffinity
    } else if rank == 3 {
        TuningStep::NumaBinding
    } else {
        TuningStep::RealtimePriority
    }
}

/// Whether the configuration asks for a step. Core binding and real-time
/// scheduling are always asked for; NUMA binding only where the build
/// supports it and the configuration does not switch it off.
pub open spec fn step_wanted(cfg: OSOptimizationConfig, numa_supported: bool, step: TuningStep) -> bool {
    match step {
        TuningStep::HugePages => cfg.use_huge_pages,
        TuningStep::LockMemory => cfg.lock_memory,
        TuningStep::CpuAffinity => true,
        TuningStep::NumaBinding => numa_supported && !cfg.disable_numa,
        TuningStep::RealtimePriority => true,
    }
}

/// The first wanted step at position `from` or later, if there is one.
pub open spec fn next_wanted(cfg: OSOptimizationConfig, numa_supported: bool, from: nat) -> Option<
    TuningStep,
>
    decreases 5 - from,
{
    if from >= 5 {
        None
    } else if step_wanted(cfg, numa_supported, step_at(from)) {
        Some(step_at(from))
    } else {
        next_wanted(cfg, numa_supported, from + 1)
    }
}

/// The description of a measure that did not end well.
pub open spec fn failure_text(step: TuningStep, outcome: StepOutcome) -> Seq<char> {
    match step {
        TuningStep::HugePages => if outcome == StepOutcome::Unavailable {
            "Failed to open huge pages configuration file. Are you running as root?"@
        } else {
            "Failed to enable huge pages"@
        },
        TuningStep::LockMemory => "Failed to lock memory into RAM"@,
        TuningStep::CpuAffinity => "Failed to set CPU affinity"@,
        TuningStep::NumaBinding => "Failed to set NUMA node policy. Ensure you have permissions and NUMA is enabled."@,
        TuningStep::RealtimePriority => "Failed to set real-time priority"@,
    }
}

impl TuningAction {
    /// The step that this action carries out.
    pub open spec fn step_spec(&self) -> TuningStep {
        match *self {
            TuningAction::EnableHugePages => TuningStep::HugePages,
            TuningAction::LockMemory => TuningStep::LockMemory,
            TuningAction::SetCpuAffinity { .. } => TuningStep::CpuAffinity,
            TuningAction::BindNumaNode { .. } => TuningStep::NumaBinding,
            TuningAction::SetRealtimePriority { .. } => TuningStep::RealtimePriority,
        }
    }

    /// Whether this action is the one that carries out `step` under `cfg`.
    pub open spec fn carries_out(self, cfg: OSOptimizationConfig, step: TuningStep) -> bool {
        match step {
            TuningStep::HugePages => self is EnableHugePages,
            TuningStep::LockMemory => self is LockMemory,
            TuningStep::CpuAffinity => self matches TuningAction::SetCpuAffinity { cpu }
                && cpu == cfg.cpu_affinity,
            TuningStep::NumaBinding => self matches TuningAction::BindNumaNode { mask }
                && mask.maxnode == MAX_NUMA_NODES && binds_only(mask.words@, cfg.numa_node as int),
            TuningStep::RealtimePriority => self matches TuningAction::SetRealtimePriority {
                priority,
            } && priority == cfg.realtime_priority,
        }
    }

    /// The step that this action carries out.
    #[verifier::when_used_as_spec(step_spec)]
    pub fn step(&self) -> (step: TuningStep)
        ensures
            step == self.step_spec(),
    {
        match self {
            TuningAction::EnableHugePages => TuningStep::HugePages,
            TuningAction::LockMemory => TuningStep::LockMemory,
            TuningAction::SetCpuAffinity { .. } => TuningStep::CpuAffinity,
            TuningAction::BindNumaNode { .. } => TuningStep::NumaBinding,
            TuningAction::SetRealtimePriority { .. } => TuningStep::RealtimePriority,
        }
    }
}

/// What startup does after `last`, the step taken last and how it ended
/// (`None` before the first step): the next measure to carry out, `None` when
/// tuning is complete, or the error that ends startup.
pub open spec fn tuning_verdict(
    cfg: OSOptimizationConfig,
    numa_supported: bool,
    last: Option<(TuningStep, StepOutcome)>,
) -> Result<Option<TuningStep>, Seq<char>> {
    match last {
        Some((step, outcome)) if outcome != StepOutcome::Done => Err(failure_text(step, outcome)),
        _ => {
            let from: nat = match last {
                Some((step, _)) => step_rank(step) + 1,
                None => 0,
            };
            match next_wanted(cfg, numa_supported, from) {
                None => Ok(None),
                Some(step) => if step == TuningStep::NumaBinding && cfg.numa_node >= MAX_NUMA_NODES {
                    Err("NUMA node out of range"@)
                } else {
                    Ok(Some(step))
                },
            }
        },
    }
}

/// Position of a step in the order of tuning.
fn rank_of(step: TuningStep) -> (rank: u8)
    ensures
        rank == step_rank(step),
{
    match step {
        TuningStep::HugePages => 0,
        TuningStep::LockMemory => 1,
        TuningStep::CpuAffinity => 2,
        TuningStep::NumaBinding => 3,
        TuningStep::RealtimePriority => 4,
    }
}

/// The description of a measure that did not end well.
pub fn failure_message(step: TuningStep, outcome: StepOutcome) -> (message: String)
    ensures
        message@ == failure_text(step, outcome),
{
    match step {
        TuningStep::HugePages => match outcome {
            StepOutcome::Unavailable => "Failed to open huge pages configuration file. Are you running as root?".to_string(),
            _ => "Failed to enable huge pages".to_string(),
        },
        TuningStep::LockMemory => "Failed to lock memory into RAM".to_string(),
        TuningStep::CpuAffinity => "Failed to set CPU affinity".to_string(),
        TuningStep::NumaBinding => "Failed to set NUMA node policy. Ensure you have permissions and NUMA is enabled.".to_string(),
        TuningStep::RealtimePriority => "Failed to set real-time priority".to_string(),
    }
}

/// Drives host tuning one measure at a time.
///
/// Call it first with `last` set to `None`, carry out the action it returns,
/// and call it again with the step of that action and its outcome, until it
/// returns `Ok(None)` (tuning complete) or an error (startup must stop). The
/// measures come in the fixed order huge pages, memory lock, core binding,
/// NUMA binding, real-time scheduling; those the configuration does not ask
/// for are skipped, and nothing is asked for after a failure.
pub fn apply_os_optimizations(
    cfg: &OSOptimizationConfig,
    numa_supported: bool,
    last: Option<(TuningStep, StepOutcome)>,
) -> (result: Result<Option<TuningAction>, String>)
    ensures
        match tuning_verdict(*cfg, numa_supported, last) {
            Ok(None) => result matches Ok(None),
            Ok(Some(step)) => result matches Ok(Some(action)) && action.carries_out(*cfg, step),
            Err(text) => result matches Err(message) && message@ == text,
        },
{
    let from: u8 = match last {
        Some((step, outcome)) => {
            match outcome {
                StepOutcome::Done => {},
                _ => {
                    return Err(failure_message(step, outcome));
                },
            }
            rank_of(step) + 1
        },
        None => 0,
    };
    proof {
        reveal_with_fuel(next_wanted, 6);
    }
    if from <= 0 && cfg.use_huge_pages {
        return Ok(Some(TuningAction::EnableHugePages));
    }
    if from <= 1 && cfg.lock_memory {
        return Ok(Some(TuningAction::LockMemory));
    }
    if from <= 2 {
        return Ok(Some(TuningAction::SetCpuAffinity { cpu: cfg.cpu_affinity }));
    }
    if from <= 3 && numa_supported && !cfg.disable_numa {
        return match set_numa_node(cfg.numa_node) {
            Ok(mask) => Ok(Some(TuningAction::BindNumaNode { mask })),
            Err(message) => Err(message),
        };
    }
    if from <= 4 {
        return Ok(Some(TuningAction::SetRealtimePriority { priority: cfg.realtime_priority }));
    }
    Ok(None)
}

/// Tuning goes forward only: the step asked for next is wanted by the
/// configuration, comes at or after position `from`, and no wanted step
/// between the two is passed over.
pub proof fn lemma_steps_in_order(cfg: OSOptimizationConfig, numa_supported: bool, from: nat)
    ensures
        match next_wanted(cfg, numa_supported, from) {
            Some(step) => {
                &&& from <= step_rank(step)
                &&& step_wanted(cfg, numa_supported, step)
                &&& forall|skipped: TuningStep|
                    from <= step_rank(skipped) < step_rank(step) ==> !step_wanted(
                        cfg,
                        numa_supported,
                        skipped,
                    )
            },
            None => forall|skipped: TuningStep|
                from <= step_rank(skipped) ==> !step_wanted(cfg, numa_supported, skipped),
        },
    decreases 5 - from,
{
    if from < 5 {
        lemma_steps_in_order(cfg, numa_supported, from + 1);
        assert(forall|step: TuningStep| step_at(step_rank(step)) == step);
    } else {
        assert(forall|step: TuningStep| step_rank(step) < 5);
    }
}

} // verus!
