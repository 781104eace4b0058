//! The memory monitor: a two-state machine (running, stopped) that
//! compares each poll's combined available memory against the fixed
//! threshold, and the termination latch it uses to stop the producer
//! loop. The surrounding program runs the polling loop on its own
//! thread: it reads the memory-status source, hands each poll's outcome
//! to [`monitor_step`], performs the returned action, and sleeps the
//! fixed interval between polls.

use vstd::prelude::*;
use crate::probe::MemorySnapshot;

verus! {

/// The minimum combined RAM+swap availability in bytes (100 MiB) below
/// which the run must stop.
pub const MIN_MEMORY_THRESHOLD: u64 = 100 * 1024 * 1024;

/// Milliseconds the monitor thread sleeps between polls.
pub const CHECK_INTERVAL_MS: u64 = 10;

/// The monitor's state: it runs until one poll's total available
/// memory falls below the threshold, then stops for good.
#[derive(Clone, Copy, PartialEq, Eq, Structural, Debug)]
pub enum MonitorState {
    Running,
    Stopped,
}

/// What the surrounding program must do after one poll.
#[derive(Clone, Copy, PartialEq, Eq, Structural, Debug)]
pub enum MonitorAction {
    /// Log the snapshot's RAM, swap and total, each in whole MiB, to
    /// the console, and keep polling.
    LogStatus { ram_mb: u64, swap_mb: u64, total_mb: u64 },
    /// Log the snapshot's status line just as `LogStatus` would — every
    /// successful poll is logged, the breaching one included — then
    /// write the termination flag to "stop", log the breach, and end
    /// the monitor thread.
    SignalStop { ram_mb: u64, swap_mb: u64, total_mb: u64 },
    /// Log a probe read failure to the error stream and keep polling.
    LogProbeError,
    /// Nothing: the monitor has already stopped.
    Idle,
}

/// The monitor's transition function. A poll either produced a
/// snapshot or failed (`None`); failures never stop the run.
pub open spec fn spec_monitor_step(
    state: MonitorState,
    poll: Option<MemorySnapshot>,
) -> (MonitorState, MonitorAction) {
    match state {
        MonitorState::Stopped => (MonitorState::Stopped, MonitorAction::Idle),
        MonitorState::Running => match poll {
            Option::None => (MonitorState::Running, MonitorAction::LogProbeError),
            Option::Some(s) => if s.spec_total() < MIN_MEMORY_THRESHOLD {
                (
                    MonitorState::Stopped,
                    (MonitorAction::SignalStop {
                        ram_mb: (s.available_ram_bytes / 1024 / 1024) as u64,
                        swap_mb: (s.available_swap_bytes / 1024 / 1024) as u64,
                        total_mb: ((s.spec_total() / 1024 / 1024) as u64),
                    }),
                )
            } else {
                (
                    MonitorState::Running,
                    (MonitorAction::LogStatus {
                        ram_mb: (s.available_ram_bytes / 1024 / 1024) as u64,
                        swap_mb: (s.available_swap_bytes / 1024 / 1024) as u64,
                        total_mb: ((s.spec_total() / 1024 / 1024) as u64),
                    }),
                )
            },
        },
    }
}

/// Every snapshot a poll produced is well formed (its total fits).
pub open spec fn poll_wf(poll: Option<MemorySnapshot>) -> bool {
    match poll {
        Option::Some(s) => s.wf(),
        Option::None => true,
    }
}

/// One poll of the monitor: from the current state and the poll's
/// outcome to the next state and the action the caller must perform.
pub fn monitor_step(state: MonitorState, poll: Option<MemorySnapshot>) -> (r: (
    MonitorState,
    MonitorAction,
))
    requires
        poll_wf(poll),
    ensures
        r == spec_monitor_step(state, poll),
{
    match state {
        MonitorState::Stopped => (MonitorState::Stopped, MonitorAction::Idle),
        MonitorState::Running => match poll {
            Option::None => (MonitorState::Running, MonitorAction::LogProbeError),
            Option::Some(s) => {
                let total = s.total_available();
                if total < MIN_MEMORY_THRESHOLD {
                    (
                        MonitorState::Stopped,
                        MonitorAction::SignalStop {
                            ram_mb: s.available_ram_bytes / 1024 / 1024,
                            swap_mb: s.available_swap_bytes / 1024 / 1024,
                            total_mb: total / 1024 / 1024,
                        },
                    )
                } else {
                    (
                        MonitorState::Running,
                        MonitorAction::LogStatus {
                            ram_mb: s.available_ram_bytes / 1024 / 1024,
                            swap_mb: s.available_swap_bytes / 1024 / 1024,
                            total_mb: total / 1024 / 1024,
                        },
                    )
                }
            },
        },
    }
}

/// The run stops exactly once: the running monitor signals a stop if
/// and only if the poll produced a snapshot whose total available
/// memory lies strictly below the threshold — and that is also the one
/// transition out of the running state — while a stopped monitor stays
/// stopped and never signals again.
pub proof fn lemma_monitor_stops_exactly_once(poll: Option<MemorySnapshot>)
    ensures
        spec_monitor_step(MonitorState::Running, poll).1 is SignalStop <==> (poll
            matches Option::Some(s) && s.spec_total() < MIN_MEMORY_THRESHOLD),
        spec_monitor_step(MonitorState::Running, poll).0 == MonitorState::Stopped
            <==> spec_monitor_step(MonitorState::Running, poll).1 is SignalStop,
        spec_monitor_step(MonitorState::Stopped, poll).0 == MonitorState::Stopped,
        !(spec_monitor_step(MonitorState::Stopped, poll).1 is SignalStop),
{
}

/// The shared termination latch, as the two threads see it: it starts
/// at "continue", the monitor writes it to "stop" exactly once, and no
/// operation ever writes it back. The surrounding program carries it
/// in an atomic boolean shared between the threads; this type is the
/// value either thread reads and writes through that cell.
pub struct TerminationFlag {
    keep_running: bool,
}

impl TerminationFlag {
    /// Whether the producer loop should keep allocating.
    pub closed spec fn spec_continue(&self) -> bool {
        self.keep_running
    }

    /// A fresh flag reads "continue".
    pub fn new() -> (r: Self)
        ensures
            r.spec_continue(),
    {
        TerminationFlag { keep_running: true }
    }

    /// The monitor's one write: after it, the flag reads "stop"
    /// forever — no operation of the type sets it back.
    pub fn signal_stop(&mut self)
        ensures
            !final (self).spec_continue(),
    {
        self.keep_running = false;
    }

    /// What a polling thread reads.
    pub fn should_continue(&self) -> (r: bool)
        ensures
            r == self.spec_continue(),
    {
        self.keep_running
    }
}

} // verus!
