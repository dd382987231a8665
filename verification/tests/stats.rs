use clash::stats::{compare_memory, compare_time, compute_stats, isqrt_u128, make_label};
use clash::types::RunResult;

fn run(duration_nanos: u64, peak_memory_bytes: u64, exit_code: Option<i32>) -> RunResult {
    RunResult { duration_nanos, peak_memory_bytes, exit_code }
}

fn timed(duration_nanos: u64) -> RunResult {
    run(duration_nanos, 0, Some(0))
}

#[test]
fn five_runs_one_to_five_seconds() {
    let runs = vec![
        timed(1_000_000_000),
        timed(2_000_000_000),
        timed(3_000_000_000),
        timed(4_000_000_000),
        timed(5_000_000_000),
    ];
    let s = compute_stats("demo", &runs);
    assert_eq!(s.runs, 5);
    assert_eq!(s.time_mean_nanos, 3_000_000_000);
    assert_eq!(s.time_min_nanos, 1_000_000_000);
    assert_eq!(s.time_max_nanos, 5_000_000_000);
    // Bessel-corrected variance is 2.5 s^2; its square root is ~1.581 s.
    assert_eq!(s.time_std_dev_nanos, 1_581_138_830);
    assert_eq!(s.failed_runs, 0);
}

#[test]
fn single_run_has_zero_std_dev() {
    let runs = vec![timed(7_000_000_000)];
    let s = compute_stats("demo", &runs);
    assert_eq!(s.time_std_dev_nanos, 0);
    assert_eq!(s.time_mean_nanos, 7_000_000_000);
    assert_eq!(s.time_min_nanos, 7_000_000_000);
    assert_eq!(s.time_max_nanos, 7_000_000_000);
}

#[test]
fn mean_is_between_min_and_max() {
    let runs = vec![timed(10), timed(11), timed(13)];
    let s = compute_stats("demo", &runs);
    assert!(s.time_min_nanos <= s.time_mean_nanos);
    assert!(s.time_mean_nanos <= s.time_max_nanos);
}

#[test]
fn failed_runs_counts_nonzero_and_signal_exits() {
    let runs = vec![
        run(100, 0, Some(0)),
        run(100, 0, Some(1)),
        run(100, 0, None),
        run(100, 0, Some(0)),
    ];
    let s = compute_stats("demo", &runs);
    assert_eq!(s.failed_runs, 2);
    assert_eq!(s.runs, 4);
}

#[test]
fn peak_memory_is_the_maximum_across_runs() {
    let runs = vec![run(100, 2048, Some(0)), run(100, 8192, Some(0)), run(100, 4096, Some(0))];
    let s = compute_stats("demo", &runs);
    assert_eq!(s.peak_memory_bytes, 8192);
}

#[test]
fn all_runs_are_kept_in_execution_order() {
    let runs = vec![timed(3), timed(1), timed(2)];
    let s = compute_stats("demo", &runs);
    let kept: Vec<u64> = s.all_runs.iter().map(|r| r.duration_nanos).collect();
    assert_eq!(kept, vec![3, 1, 2]);
    assert_eq!(s.command, "demo");
}

#[test]
fn short_command_label_is_verbatim() {
    assert_eq!(make_label("  echo hello  "), "echo hello");
}

#[test]
fn exactly_thirty_characters_stay_verbatim() {
    let cmd = "123456789012345678901234567890";
    assert_eq!(make_label(cmd), cmd);
}

#[test]
fn long_command_label_is_28_chars_with_ellipsis() {
    let cmd = "a".repeat(40);
    let label = make_label(&cmd);
    assert_eq!(label.chars().count(), 28);
    assert!(label.ends_with('\u{2026}'));
    assert_eq!(label, format!("{}\u{2026}", "a".repeat(27)));
}

#[test]
fn all_whitespace_label_is_empty() {
    assert_eq!(make_label(" \t "), "");
}

#[test]
fn isqrt_is_exact_on_squares_and_floors_otherwise() {
    assert_eq!(isqrt_u128(0), 0);
    assert_eq!(isqrt_u128(1), 1);
    assert_eq!(isqrt_u128(24), 4);
    assert_eq!(isqrt_u128(25), 5);
    assert_eq!(isqrt_u128(2_500_000_000_000_000_000), 1_581_138_830);
    assert_eq!(isqrt_u128(u128::MAX), u64::MAX);
}

#[test]
fn compare_time_picks_fastest_and_full_spread() {
    let a = compute_stats("a", &vec![timed(2_000_000_000)]);
    let b = compute_stats("b", &vec![timed(1_000_000_000)]);
    let c = compute_stats("c", &vec![timed(4_000_000_000)]);
    let comp = compare_time(&[a, b, c]).expect("comparison");
    assert_eq!(comp.winner_index, 1);
    assert_eq!(comp.min_value, 1_000_000_000);
    assert_eq!(comp.max_value, 4_000_000_000);
    // ratio 4.0
    assert_eq!(comp.ratio_hundredths(), 400);
}

#[test]
fn compare_time_needs_two_commands() {
    let a = compute_stats("a", &vec![timed(1)]);
    assert!(compare_time(&[a]).is_none());
    assert!(compare_time(&[]).is_none());
}

#[test]
fn compare_time_tie_goes_to_the_earliest() {
    let a = compute_stats("a", &vec![timed(5)]);
    let b = compute_stats("b", &vec![timed(5)]);
    let comp = compare_time(&[a, b]).expect("comparison");
    assert_eq!(comp.winner_index, 0);
    assert_eq!(comp.ratio_hundredths(), 100);
}

#[test]
fn compare_memory_is_undefined_when_any_peak_is_zero() {
    let a = compute_stats("a", &vec![run(10, 4096, Some(0))]);
    let b = compute_stats("b", &vec![run(10, 0, Some(0))]);
    assert!(compare_memory(&[a, b]).is_none());
}

#[test]
fn compare_memory_picks_smallest_peak() {
    let a = compute_stats("a", &vec![run(10, 2048, Some(0))]);
    let b = compute_stats("b", &vec![run(10, 1024, Some(0))]);
    let comp = compare_memory(&[a, b]).expect("comparison");
    assert_eq!(comp.winner_index, 1);
    assert_eq!(comp.min_value, 1024);
    assert_eq!(comp.max_value, 2048);
    assert_eq!(comp.ratio_hundredths(), 200);
}
