//! The exact text the tool writes: the timestamped log file's path,
//! the per-allocation progress line, and the final statistics summary.
//! Each builder's contract gives the full character sequence, so the
//! surrounding program only moves finished lines to the console and
//! the log file.

use vstd::prelude::*;
use vstd::string::*;
use crate::numfmt::{dec_rep, format_u128, lemma_dec_rep_injective};
use crate::probe::MemorySnapshot;
use crate::tracker::{LeakTracker, LEAK_SIZE};

verus! {

/// The log file's path for a run started at the given millisecond
/// timestamp: a file named after the timestamp inside the tool's log
/// directory.
pub open spec fn spec_log_file_name(timestamp_ms: nat) -> Seq<char> {
    "mleak100.log/leak_log_"@ + dec_rep(timestamp_ms) + ".txt"@
}

/// Builds the log file's path for a run started at the given
/// millisecond timestamp.
pub fn format_log_file_name(timestamp_ms: u128) -> (r: String)
    ensures
        r@ == spec_log_file_name(timestamp_ms as nat),
{
    let mut s = String::from_str("mleak100.log/leak_log_");
    let num = format_u128(timestamp_ms);
    s.append(num.as_str());
    s.append(".txt");
    proof {
        assert(s@ =~= spec_log_file_name(timestamp_ms as nat));
    }
    s
}

/// Runs started at distinct millisecond timestamps get distinct log
/// file names, so two runs never collide on one file.
pub proof fn lemma_log_file_names_distinct(t1: nat, t2: nat)
    requires
        t1 != t2,
    ensures
        spec_log_file_name(t1) != spec_log_file_name(t2),
{
    if spec_log_file_name(t1) == spec_log_file_name(t2) {
        reveal_strlit("mleak100.log/leak_log_");
        reveal_strlit(".txt");
        let p = "mleak100.log/leak_log_"@.len() as int;
        let n1 = dec_rep(t1).len() as int;
        let n2 = dec_rep(t2).len() as int;
        assert(spec_log_file_name(t1).len() == spec_log_file_name(t2).len());
        assert(n1 == n2);
        assert forall|i: int| 0 <= i < n1 implies dec_rep(t1)[i] == dec_rep(t2)[i] by {
            assert(spec_log_file_name(t1)[p + i] == dec_rep(t1)[i]);
            assert(spec_log_file_name(t2)[p + i] == dec_rep(t2)[i]);
        }
        assert(dec_rep(t1) =~= dec_rep(t2));
        lemma_dec_rep_injective(t1, t2);
    }
}

/// The progress line written after one allocation, reporting the new
/// total number of leaks.
pub open spec fn spec_progress_line(count: nat) -> Seq<char> {
    "Leaked 100KB of memory (Total leaks: "@ + dec_rep(count) + ")\n"@
}

/// Builds the progress line for the given allocation count.
pub fn format_progress_line(count: usize) -> (r: String)
    ensures
        r@ == spec_progress_line(count as nat),
{
    let mut s = String::from_str("Leaked 100KB of memory (Total leaks: ");
    let num = format_u128(count as u128);
    s.append(num.as_str());
    s.append(")\n");
    proof {
        assert(s@ =~= spec_progress_line(count as nat));
    }
    s
}

/// The final statistics block: the last snapshot's RAM, swap and
/// total, each in whole MiB, then the total leaked in whole MiB with
/// the allocation count and the fixed per-allocation size.
pub open spec fn spec_final_report(snapshot: MemorySnapshot, count: nat) -> Seq<char> {
    "\nFinal Statistics:\n----------------\nAvailable RAM: "@ + dec_rep(
        (snapshot.available_ram_bytes / 1024 / 1024) as nat,
    ) + " MB\nAvailable Swap: "@ + dec_rep((snapshot.available_swap_bytes / 1024 / 1024) as nat)
        + " MB\nTotal Available: "@ + dec_rep((snapshot.spec_total() / 1024 / 1024) as nat)
        + " MB\nTotal Memory Leaked: "@ + dec_rep(((count * LEAK_SIZE) as int / 1024 / 1024) as nat)
        + " MB ("@ + dec_rep(count) + " allocations of "@ + dec_rep((LEAK_SIZE / 1024) as nat)
        + "KB each)\n"@
}

/// Builds the final statistics block from the last snapshot and the
/// tracker's accounting.
pub fn format_final_report(snapshot: &MemorySnapshot, tracker: &LeakTracker) -> (r: String)
    requires
        snapshot.wf(),
        tracker.wf(),
    ensures
        r@ == spec_final_report(*snapshot, tracker.spec_count()),
{
    let total = snapshot.total_available();
    let total_leaked = tracker.get_total_leaked();
    let count = tracker.get_leak_count();
    let mut s = String::from_str("\nFinal Statistics:\n----------------\nAvailable RAM: ");
    let num = format_u128((snapshot.available_ram_bytes / 1024 / 1024) as u128);
    s.append(num.as_str());
    s.append(" MB\nAvailable Swap: ");
    let num = format_u128((snapshot.available_swap_bytes / 1024 / 1024) as u128);
    s.append(num.as_str());
    s.append(" MB\nTotal Available: ");
    let num = format_u128((total / 1024 / 1024) as u128);
    s.append(num.as_str());
    s.append(" MB\nTotal Memory Leaked: ");
    let num = format_u128((total_leaked / 1024 / 1024) as u128);
    s.append(num.as_str());
    s.append(" MB (");
    let num = format_u128(count as u128);
    s.append(num.as_str());
    s.append(" allocations of ");
    let num = format_u128((LEAK_SIZE / 1024) as u128);
    s.append(num.as_str());
    s.append("KB each)\n");
    proof {
        assert(s@ =~= spec_final_report(*snapshot, tracker.spec_count()));
    }
    s
}

/// The fixed trailer naming the cause of termination, appended to the
/// log file after the final statistics.
pub fn termination_trailer() -> (r: String)
    ensures
        r@ == "Process terminated due to memory threshold.\n"@,
{
    String::from_str("Process terminated due to memory threshold.\n")
}

} // verus!
