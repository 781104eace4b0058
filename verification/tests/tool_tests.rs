use mleak100::clock::get_current_time_millis;
use mleak100::monitor::{monitor_step, MonitorAction, MonitorState, TerminationFlag};
use mleak100::probe::{parse_mem_line, parse_mem_line_checked, parse_meminfo, MemorySnapshot};
use mleak100::producer::producer_step;
use mleak100::report::{
    format_final_report, format_log_file_name, format_progress_line, termination_trailer,
};
use mleak100::tracker::LeakTracker;

#[test]
fn tracker_accounting_follows_allocations() {
    let mut tracker = LeakTracker::new();
    assert_eq!(tracker.get_leak_count(), 0);
    assert_eq!(tracker.get_total_leaked(), 0);
    for n in 1..=5usize {
        tracker.add_leak();
        assert_eq!(tracker.get_leak_count(), n);
        assert_eq!(tracker.get_total_leaked(), n * 102400);
    }
}

#[test]
fn parse_reads_ram_and_swap() {
    let text = "MemAvailable: 2048 kB\nSwapFree: 1024 kB\n";
    let snapshot = parse_meminfo(text).unwrap();
    assert_eq!(snapshot.available_ram_bytes, 2097152);
    assert_eq!(snapshot.available_swap_bytes, 1048576);
}

#[test]
fn parse_mem_line_converts_kibibytes() {
    assert_eq!(parse_mem_line("MemAvailable: 2048 kB"), 2097152);
    assert_eq!(parse_mem_line("SwapFree: 1024 kB"), 1048576);
    assert_eq!(parse_mem_line("MemAvailable: 5 kB"), 5120);
}

#[test]
fn non_numeric_value_defaults_to_zero() {
    let text = "MemAvailable: banana kB\nSwapFree: 1024 kB\n";
    let snapshot = parse_meminfo(text).unwrap();
    assert_eq!(snapshot.available_ram_bytes, 0);
    assert_eq!(snapshot.available_swap_bytes, 1048576);
    assert_eq!(parse_mem_line("MemAvailable: banana kB"), 0);
}

#[test]
fn parse_accepts_leading_plus_sign() {
    assert_eq!(parse_mem_line("MemAvailable: +2048 kB"), 2097152);
}

#[test]
fn parse_defaults_unparsable_magnitudes_to_zero() {
    // Twenty-one digits never parse as a 64-bit value: default to zero.
    assert_eq!(parse_mem_line("MemAvailable: 184467440737095516160 kB"), 0);
    // A bare plus sign has no digits: default to zero.
    assert_eq!(parse_mem_line("MemAvailable: + kB"), 0);
}

#[test]
fn parse_refuses_values_whose_bytes_overflow() {
    // The value parses but cannot be converted to bytes in 64 bits.
    let line = "MemAvailable: 18446744073709551615 kB";
    assert_eq!(parse_mem_line_checked(line), None);
    let text = "MemAvailable: 18446744073709551615 kB\n";
    assert_eq!(parse_meminfo(text), None);
}

#[test]
fn matched_line_without_value_defaults_to_zero() {
    assert_eq!(parse_mem_line_checked("MemAvailable:"), Some(0));
    assert_eq!(parse_mem_line("MemAvailable:"), 0);
    let snapshot = parse_meminfo("MemAvailable:\nSwapFree: 1024 kB\n").unwrap();
    assert_eq!(snapshot.available_ram_bytes, 0);
    assert_eq!(snapshot.available_swap_bytes, 1048576);
}

#[test]
fn parse_skips_unmatched_lines() {
    let text = "MemTotal: 4096 kB\nMemFree: 512 kB\n";
    let snapshot = parse_meminfo(text).unwrap();
    assert_eq!(snapshot.available_ram_bytes, 0);
    assert_eq!(snapshot.available_swap_bytes, 0);
}

#[test]
fn parse_takes_the_last_matched_line() {
    let text = "MemAvailable: 1 kB\nMemAvailable: 2 kB\nSwapFree: 3 kB\nSwapFree: 4 kB\n";
    let snapshot = parse_meminfo(text).unwrap();
    assert_eq!(snapshot.available_ram_bytes, 2048);
    assert_eq!(snapshot.available_swap_bytes, 4096);
}

#[test]
fn parse_handles_carriage_returns_and_tabs() {
    let text = "MemAvailable:\t2048 kB\r\nSwapFree:\t1024 kB\r\n";
    let snapshot = parse_meminfo(text).unwrap();
    assert_eq!(snapshot.available_ram_bytes, 2097152);
    assert_eq!(snapshot.available_swap_bytes, 1048576);
}

#[test]
fn parse_accepts_any_unicode_whitespace_separator() {
    // Form feed and no-break space separate tokens just as a space does.
    assert_eq!(parse_mem_line("MemAvailable:\u{000C}2048 kB"), 2097152);
    assert_eq!(parse_mem_line("MemAvailable:\u{00A0}2048\u{00A0}kB"), 2097152);
}

#[test]
fn parse_of_empty_text_reads_all_zero() {
    let snapshot = parse_meminfo("").unwrap();
    assert_eq!(snapshot.available_ram_bytes, 0);
    assert_eq!(snapshot.available_swap_bytes, 0);
}

#[test]
fn monitor_stops_strictly_below_threshold() {
    let low = MemorySnapshot {
        available_ram_bytes: 50 * 1024 * 1024,
        available_swap_bytes: 10 * 1024 * 1024,
    };
    let (state, action) = monitor_step(MonitorState::Running, Some(low));
    assert_eq!(state, MonitorState::Stopped);
    // The breaching poll still carries its status line's values.
    assert_eq!(action, MonitorAction::SignalStop { ram_mb: 50, swap_mb: 10, total_mb: 60 });
}

#[test]
fn monitor_keeps_running_at_the_threshold() {
    let at = MemorySnapshot { available_ram_bytes: 100 * 1024 * 1024, available_swap_bytes: 0 };
    let (state, action) = monitor_step(MonitorState::Running, Some(at));
    assert_eq!(state, MonitorState::Running);
    assert_eq!(action, MonitorAction::LogStatus { ram_mb: 100, swap_mb: 0, total_mb: 100 });
}

#[test]
fn monitor_survives_a_probe_failure() {
    let (state, action) = monitor_step(MonitorState::Running, None);
    assert_eq!(state, MonitorState::Running);
    assert_eq!(action, MonitorAction::LogProbeError);
}

#[test]
fn monitor_stays_stopped() {
    let low = MemorySnapshot { available_ram_bytes: 0, available_swap_bytes: 0 };
    let (state, action) = monitor_step(MonitorState::Stopped, Some(low));
    assert_eq!(state, MonitorState::Stopped);
    assert_eq!(action, MonitorAction::Idle);
    let (state, action) = monitor_step(MonitorState::Stopped, None);
    assert_eq!(state, MonitorState::Stopped);
    assert_eq!(action, MonitorAction::Idle);
}

#[test]
fn termination_flag_latches() {
    let mut flag = TerminationFlag::new();
    assert!(flag.should_continue());
    flag.signal_stop();
    assert!(!flag.should_continue());
    flag.signal_stop();
    assert!(!flag.should_continue());
}

#[test]
fn end_to_end_scenario_stops_within_one_poll() {
    // 50 MiB RAM + 10 MiB swap: 60 MiB total, below the 100 MiB threshold.
    let text = "MemAvailable: 51200 kB\nSwapFree: 10240 kB\n";
    let mut tracker = LeakTracker::new();
    let mut flag = TerminationFlag::new();

    // The main loop performs at least one allocation before it can
    // observe the stop flag.
    assert!(flag.should_continue());
    let line = producer_step(&mut tracker);
    assert_eq!(line, "Leaked 100KB of memory (Total leaks: 1)\n");

    // The monitor's first poll breaches the threshold and signals.
    let snapshot = parse_meminfo(text).unwrap();
    assert_eq!(snapshot.total_available(), 62914560);
    let (state, action) = monitor_step(MonitorState::Running, Some(snapshot));
    assert_eq!(state, MonitorState::Stopped);
    assert_eq!(action, MonitorAction::SignalStop { ram_mb: 50, swap_mb: 10, total_mb: 60 });
    flag.signal_stop();
    assert!(!flag.should_continue());

    // The final report's leaked total is the count times 100 KiB exactly.
    assert_eq!(tracker.get_total_leaked(), 102400);
    let report = format_final_report(&snapshot, &tracker);
    assert_eq!(
        report,
        "\nFinal Statistics:\n----------------\nAvailable RAM: 50 MB\nAvailable Swap: 10 MB\nTotal Available: 60 MB\nTotal Memory Leaked: 0 MB (1 allocations of 100KB each)\n"
    );
}

#[test]
fn progress_line_reports_the_count() {
    assert_eq!(format_progress_line(1), "Leaked 100KB of memory (Total leaks: 1)\n");
    assert_eq!(format_progress_line(105), "Leaked 100KB of memory (Total leaks: 105)\n");
}

#[test]
fn log_file_names_are_distinct_per_timestamp() {
    let a = format_log_file_name(1700000000000);
    let b = format_log_file_name(1700000000001);
    assert_ne!(a, b);
    assert_eq!(a, "mleak100.log/leak_log_1700000000000.txt");
    assert_eq!(b, "mleak100.log/leak_log_1700000000001.txt");
}

#[test]
fn log_file_name_of_timestamp_zero() {
    assert_eq!(format_log_file_name(0), "mleak100.log/leak_log_0.txt");
}

#[test]
fn final_report_formats_every_field() {
    let snapshot = MemorySnapshot {
        available_ram_bytes: 3 * 1024 * 1024 + 7,
        available_swap_bytes: 2 * 1024 * 1024,
    };
    let mut tracker = LeakTracker::new();
    for _ in 0..11 {
        tracker.add_leak();
    }
    // 11 x 100 KiB = 1126400 bytes, one whole MiB.
    assert_eq!(tracker.get_total_leaked(), 1126400);
    let report = format_final_report(&snapshot, &tracker);
    assert_eq!(
        report,
        "\nFinal Statistics:\n----------------\nAvailable RAM: 3 MB\nAvailable Swap: 2 MB\nTotal Available: 5 MB\nTotal Memory Leaked: 1 MB (11 allocations of 100KB each)\n"
    );
}

#[test]
fn trailer_names_the_termination_cause() {
    assert_eq!(termination_trailer(), "Process terminated due to memory threshold.\n");
}

#[test]
fn clock_reads_a_positive_timestamp() {
    // The wall clock sits far past the epoch on any machine this runs on.
    assert!(get_current_time_millis() > 0);
}
