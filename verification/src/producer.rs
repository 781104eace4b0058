//! The leak producer: the compute part of one iteration of the main
//! loop. The surrounding program runs the loop on the primary thread:
//! while the termination flag reads "continue", it takes one step here
//! and writes the returned progress line to the console and the log
//! file, flushing after every write. The loop has no pacing of its
//! own; only the monitor thread's flag write halts it, so one extra
//! allocation beyond the threshold breach is an accepted overshoot.

use vstd::prelude::*;
use crate::report::{format_progress_line, spec_progress_line};
use crate::tracker::{LeakTracker, LEAK_SIZE};

verus! {

/// One producer iteration: allocates and retains one more block, and
/// returns the progress line reporting the new total leak count.
pub fn producer_step(tracker: &mut LeakTracker) -> (line: String)
    requires
        old(tracker).wf(),
        (old(tracker).spec_count() + 1) * LEAK_SIZE <= usize::MAX,
    ensures
        final (tracker).wf(),
        final (tracker).spec_count() == old(tracker).spec_count() + 1,
        line@ == spec_progress_line(final (tracker).spec_count()),
{
    tracker.add_leak();
    format_progress_line(tracker.get_leak_count())
}

} // verus!
