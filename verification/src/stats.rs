//! StatisticsAggregator and Comparator: reduce the raw run results of one
//! command to summary statistics, and rank commands on a metric.
//!
//! All aggregation is exact integer arithmetic on nanosecond durations and
//! byte counts. The sample standard deviation is the integer square root of
//! the Bessel-corrected variance (sum of squared deviations divided by
//! `n - 1`), and is exactly 0 for a single run.

use vstd::arithmetic::div_mod::{lemma_div_is_ordered, lemma_div_multiples_vanish};
use vstd::prelude::*;
use crate::types::{CommandStats, Comparison, RunResult};

verus! {

/// Sum of the run durations, in nanoseconds.
pub open spec fn sum_durations(s: Seq<RunResult>) -> int
    decreases s.len(),
{
    if s.len() == 0 {
        0
    } else {
        sum_durations(s.drop_last()) + s.last().duration_nanos
    }
}

/// Smallest run duration, in nanoseconds.
pub open spec fn spec_min_duration(s: Seq<RunResult>) -> int
    recommends
        s.len() > 0,
    decreases s.len(),
{
    if s.len() <= 1 {
        if s.len() == 1 {
            s[0].duration_nanos as int
        } else {
            0
        }
    } else {
        let m = spec_min_duration(s.drop_last());
        if s.last().duration_nanos < m {
            s.last().duration_nanos as int
        } else {
            m
        }
    }
}

/// Largest run duration, in nanoseconds.
pub open spec fn spec_max_duration(s: Seq<RunResult>) -> int
    recommends
        s.len() > 0,
    decreases s.len(),
{
    if s.len() <= 1 {
        if s.len() == 1 {
            s[0].duration_nanos as int
        } else {
            0
        }
    } else {
        let m = spec_max_duration(s.drop_last());
        if s.last().duration_nanos > m {
            s.last().duration_nanos as int
        } else {
            m
        }
    }
}

/// Largest per-run peak memory, in bytes; 0 only if every run reports 0.
pub open spec fn spec_max_memory(s: Seq<RunResult>) -> int
    recommends
        s.len() > 0,
    decreases s.len(),
{
    if s.len() <= 1 {
        if s.len() == 1 {
            s[0].peak_memory_bytes as int
        } else {
            0
        }
    } else {
        let m = spec_max_memory(s.drop_last());
        if s.last().peak_memory_bytes > m {
            s.last().peak_memory_bytes as int
        } else {
            m
        }
    }
}

/// Number of failed runs: exit code absent or present-but-nonzero.
pub open spec fn count_failed(s: Seq<RunResult>) -> int
    decreases s.len(),
{
    if s.len() == 0 {
        0
    } else {
        count_failed(s.drop_last()) + if s.last().spec_is_failed() {
            1int
        } else {
            0int
        }
    }
}

/// Arithmetic mean of the run durations, rounded down to whole nanoseconds.
pub open spec fn spec_mean(s: Seq<RunResult>) -> int
    recommends
        s.len() > 0,
{
    sum_durations(s) / s.len() as int
}

/// Absolute difference of two integers.
pub open spec fn abs_diff(a: int, b: int) -> int {
    if a >= b {
        a - b
    } else {
        b - a
    }
}

/// Sum of squared deviations of the run durations from `m`.
pub open spec fn sum_sq_dev(s: Seq<RunResult>, m: int) -> int
    decreases s.len(),
{
    if s.len() == 0 {
        0
    } else {
        sum_sq_dev(s.drop_last(), m) + abs_diff(s.last().duration_nanos as int, m) * abs_diff(
            s.last().duration_nanos as int,
            m,
        )
    }
}

/// Bessel-corrected sample variance of the run durations, in nanoseconds
/// squared, rounded down; exactly 0 for a single run.
pub open spec fn spec_variance(s: Seq<RunResult>) -> int
    recommends
        s.len() > 0,
{
    if s.len() > 1 {
        sum_sq_dev(s, spec_mean(s)) / (s.len() - 1) as int
    } else {
        0
    }
}

/// The minimum and maximum duration bound every duration and the sum.
pub proof fn lemma_duration_bounds(s: Seq<RunResult>)
    requires
        s.len() > 0,
    ensures
        0 <= spec_min_duration(s) <= spec_max_duration(s) <= u64::MAX,
        s.len() * spec_min_duration(s) <= sum_durations(s) <= s.len() * spec_max_duration(s),
        forall|k: int|
            0 <= k < s.len() ==> spec_min_duration(s) <= #[trigger] s[k].duration_nanos
                <= spec_max_duration(s),
    decreases s.len(),
{
    if s.len() == 1 {
        assert(sum_durations(s.drop_last()) == 0);
    } else {
        let t = s.drop_last();
        lemma_duration_bounds(t);
        let n1 = t.len() as int;
        let mn1 = spec_min_duration(t);
        let mx1 = spec_max_duration(t);
        let mn = spec_min_duration(s);
        let mx = spec_max_duration(s);
        let d = s.last().duration_nanos as int;
        assert(forall|k: int| 0 <= k < t.len() ==> t[k] == s[k]);
        assert(n1 * mn <= n1 * mn1) by (nonlinear_arith)
            requires
                mn <= mn1,
                0 <= n1,
        ;
        assert(n1 * mx1 <= n1 * mx) by (nonlinear_arith)
            requires
                mx1 <= mx,
                0 <= n1,
        ;
        assert((n1 + 1) * mn == n1 * mn + mn) by (nonlinear_arith);
        assert((n1 + 1) * mx == n1 * mx + mx) by (nonlinear_arith);
        assert(sum_durations(s) == sum_durations(t) + d);
    }
}

/// A prefix contributes at most the whole sum of squared deviations.
pub proof fn lemma_sum_sq_dev_take_le(s: Seq<RunResult>, m: int, i: int)
    requires
        0 <= i <= s.len(),
    ensures
        sum_sq_dev(s.take(i), m) <= sum_sq_dev(s, m),
    decreases s.len(),
{
    if i == s.len() {
        assert(s.take(i) =~= s);
    } else {
        let t = s.drop_last();
        assert(s.take(i) =~= t.take(i));
        lemma_sum_sq_dev_take_le(t, m, i);
        let a = abs_diff(s.last().duration_nanos as int, m);
        assert(0 <= a * a) by (nonlinear_arith)
            requires
                0 <= a,
        ;
    }
}

/// Largest `r` with `r * r <= v`: the integer square root, rounded down.
pub fn isqrt_u128(v: u128) -> (r: u64)
    ensures
        (r as int) * (r as int) <= v as int,
        (v as int) < ((r as int) + 1) * ((r as int) + 1),
{
    let mut lo: u128 = 0;
    let mut hi: u128 = 0x1_0000_0000_0000_0000;
    proof {
        assert((hi as int) * (hi as int) > u128::MAX as int) by (nonlinear_arith)
            requires
                hi == 0x1_0000_0000_0000_0000u128,
        ;
    }
    while lo + 1 < hi
        invariant
            lo < hi <= 0x1_0000_0000_0000_0000,
            (lo as int) * (lo as int) <= v as int,
            (v as int) < (hi as int) * (hi as int),
        decreases hi - lo,
    {
        let mid = lo + (hi - lo) / 2;
        proof {
            assert((mid as int) * (mid as int) < u128::MAX as int) by (nonlinear_arith)
                requires
                    0 <= mid as int,
                    (mid as int) < 0x1_0000_0000_0000_0000,
            ;
        }
        if mid * mid <= v {
            lo = mid;
        } else {
            hi = mid;
        }
    }
    lo as u64
}

/// Whitespace for the purpose of trimming a command string.
pub open spec fn is_space_char(c: char) -> bool {
    c == ' ' || c == '\t' || c == '\n' || c == '\r'
}

/// First index at or after `i` that does not hold whitespace.
pub open spec fn trim_start_idx(s: Seq<char>, i: int) -> int
    decreases s.len() - i,
{
    if 0 <= i < s.len() && is_space_char(s[i]) {
        trim_start_idx(s, i + 1)
    } else {
        i
    }
}

/// Last index at or before `j` such that no whitespace precedes it at the end.
pub open spec fn trim_end_idx(s: Seq<char>, j: int) -> int
    decreases j,
{
    if 0 < j <= s.len() && is_space_char(s[j - 1]) {
        trim_end_idx(s, j - 1)
    } else {
        j
    }
}

/// The command string with leading and trailing whitespace removed.
pub open spec fn spec_trimmed(s: Seq<char>) -> Seq<char> {
    let a = trim_start_idx(s, 0);
    let b = trim_end_idx(s, s.len() as int);
    if a < b {
        s.subrange(a, b)
    } else {
        Seq::empty()
    }
}

/// Display label: the trimmed command verbatim if at most 30 characters,
/// otherwise its first 27 characters followed by an ellipsis.
pub open spec fn spec_label(s: Seq<char>) -> Seq<char> {
    let t = spec_trimmed(s);
    if t.len() <= 30 {
        t
    } else {
        t.take(27).push('\u{2026}')
    }
}

/// Whether `c` counts as whitespace when trimming a command string.
fn is_space(c: char) -> (r: bool)
    ensures
        r == is_space_char(c),
{
    c == ' ' || c == '\t' || c == '\n' || c == '\r'
}

/// Create a short display label from a command string: trim it, keep it
/// verbatim when at most 30 characters, else truncate to 27 characters and
/// append an ellipsis, for exactly 28.
pub fn make_label(cmd: &str) -> (r: String)
    ensures
        r@ == spec_label(cmd@),
        r@.len() <= 30,
        spec_trimmed(cmd@).len() > 30 ==> r@.len() == 28 && r@[27] == '\u{2026}',
{
    let n = cmd.unicode_len();
    let mut a: usize = 0;
    while a < n && is_space(cmd.get_char(a))
        invariant
            n == cmd@.len(),
            a <= n,
            trim_start_idx(cmd@, 0) == trim_start_idx(cmd@, a as int),
        decreases n - a,
    {
        a += 1;
    }
    // Here the leading trim stops exactly at `a`.
    assert(trim_start_idx(cmd@, a as int) == a as int);

    if a == n {
        // All-whitespace (or empty) command: the trimmed string is empty.
        proof {
            lemma_trim_end_le(cmd@, n as int);
            assert(spec_trimmed(cmd@) =~= Seq::<char>::empty());
        }
        return String::new();
    }

    let mut b: usize = n;
    while b > a && is_space(cmd.get_char(b - 1))
        invariant
            n == cmd@.len(),
            a < b <= n,
            !is_space_char(cmd@[a as int]),
            trim_end_idx(cmd@, n as int) == trim_end_idx(cmd@, b as int),
        decreases b,
    {
        b -= 1;
    }
    assert(trim_end_idx(cmd@, b as int) == b as int);
    assert(b > a);

    let m = b - a;
    if m <= 30 {
        let t = cmd.substring_char(a, b);
        t.to_owned()
    } else {
        let head = cmd.substring_char(a, a + 27);
        let mut label = head.to_owned();
        label.push('\u{2026}');
        proof {
            assert(spec_trimmed(cmd@).take(27) =~= cmd@.subrange(a as int, a as int + 27));
        }
        label
    }
}

/// Trimming from the end never moves past the given position.
proof fn lemma_trim_end_le(s: Seq<char>, j: int)
    requires
        j >= 0,
    ensures
        trim_end_idx(s, j) <= j,
    decreases j,
{
    if 0 < j <= s.len() && is_space_char(s[j - 1]) {
        lemma_trim_end_le(s, j - 1);
    }
}

/// Aggregate a non-empty list of measured runs of one command into its
/// summary statistics.
///
/// The second precondition is forced by the machine: the sum of squared
/// deviations is accumulated in 128-bit arithmetic.
pub fn compute_stats(command: &str, results: &[RunResult]) -> (r: CommandStats)
    requires
        results@.len() > 0,
        results@.len() > 1 ==> sum_sq_dev(results@, spec_mean(results@)) <= u128::MAX as int,
    ensures
        r.command@ == command@,
        r.label@ == spec_label(command@),
        r.runs == results@.len(),
        r.all_runs@ == results@,
        r.failed_runs == count_failed(results@),
        r.failed_runs <= r.runs,
        r.time_min_nanos == spec_min_duration(results@),
        r.time_max_nanos == spec_max_duration(results@),
        r.time_mean_nanos == spec_mean(results@),
        r.time_min_nanos <= r.time_mean_nanos <= r.time_max_nanos,
        r.peak_memory_bytes == spec_max_memory(results@),
        (r.time_std_dev_nanos as int) * (r.time_std_dev_nanos as int) <= spec_variance(results@),
        spec_variance(results@) < ((r.time_std_dev_nanos as int) + 1) * ((r.time_std_dev_nanos
            as int) + 1),
        results@.len() == 1 ==> r.time_std_dev_nanos == 0,
{
    let n = results.len();
    let first = results[0];
    let mut sum: u128 = first.duration_nanos as u128;
    let mut mn: u64 = first.duration_nanos;
    let mut mx: u64 = first.duration_nanos;
    let mut peak: u64 = first.peak_memory_bytes;
    let mut failed: usize = if first.is_failed() {
        1
    } else {
        0
    };
    let mut all_runs: Vec<RunResult> = Vec::new();
    all_runs.push(first);

    proof {
        assert(results@.take(1).drop_last() =~= Seq::<RunResult>::empty());
        assert(results@.take(1).last() == results@[0]);
        assert(sum_durations(Seq::<RunResult>::empty()) == 0);
        assert(count_failed(Seq::<RunResult>::empty()) == 0);
        assert(all_runs@ =~= results@.take(1));
    }

    let mut i: usize = 1;
    while i < n
        invariant
            n == results@.len(),
            1 <= i <= n,
            sum == sum_durations(results@.take(i as int)),
            sum <= (i as int) * (u64::MAX as int),
            mn as int == spec_min_duration(results@.take(i as int)),
            mx as int == spec_max_duration(results@.take(i as int)),
            peak as int == spec_max_memory(results@.take(i as int)),
            failed as int == count_failed(results@.take(i as int)),
            failed <= i,
            all_runs@ == results@.take(i as int),
        decreases n - i,
    {
        let ghost pre = results@.take(i as int);
        let cur = results[i];
        proof {
            assert(results@.take(i as int + 1).drop_last() =~= pre);
            assert(results@.take(i as int + 1).last() == results@[i as int]);
        }
        sum = sum + cur.duration_nanos as u128;
        if cur.duration_nanos < mn {
            mn = cur.duration_nanos;
        }
        if cur.duration_nanos > mx {
            mx = cur.duration_nanos;
        }
        if cur.peak_memory_bytes > peak {
            peak = cur.peak_memory_bytes;
        }
        if cur.is_failed() {
            failed += 1;
        }
        all_runs.push(cur);
        i += 1;
        proof {
            assert(all_runs@ =~= results@.take(i as int));
        }
    }
    proof {
        assert(results@.take(n as int) =~= results@);
    }

    let mean128 = sum / (n as u128);
    proof {
        lemma_duration_bounds(results@);
        lemma_div_is_ordered((n as int) * (mn as int), sum as int, n as int);
        lemma_div_multiples_vanish(mn as int, n as int);
        lemma_div_is_ordered(sum as int, (n as int) * (mx as int), n as int);
        lemma_div_multiples_vanish(mx as int, n as int);
    }
    let time_mean = mean128 as u64;

    let std_dev: u64;
    if n > 1 {
        let mut sumsq: u128 = 0;
        let mut j: usize = 0;
        proof {
            assert(results@.take(0) =~= Seq::<RunResult>::empty());
        }
        while j < n
            invariant
                n == results@.len(),
                n > 1,
                j <= n,
                time_mean as int == spec_mean(results@),
                sum_sq_dev(results@, spec_mean(results@)) <= u128::MAX as int,
                sumsq == sum_sq_dev(results@.take(j as int), time_mean as int),
            decreases n - j,
        {
            let cur = results[j];
            let d = cur.duration_nanos;
            let dev: u64 = if d >= time_mean {
                d - time_mean
            } else {
                time_mean - d
            };
            proof {
                assert((dev as int) * (dev as int) <= u128::MAX as int) by (nonlinear_arith)
                    requires
                        0 <= dev as int,
                        (dev as int) < 0x1_0000_0000_0000_0000,
                ;
                assert(results@.take(j as int + 1).drop_last() =~= results@.take(j as int));
                assert(results@.take(j as int + 1).last() == results@[j as int]);
                lemma_sum_sq_dev_take_le(results@, time_mean as int, j as int + 1);
            }
            let sq: u128 = (dev as u128) * (dev as u128);
            sumsq = sumsq + sq;
            j += 1;
        }
        proof {
            assert(results@.take(n as int) =~= results@);
        }
        let variance = sumsq / ((n - 1) as u128);
        assert(variance as int == spec_variance(results@));
        std_dev = isqrt_u128(variance);
        assert(spec_variance(results@) < ((std_dev as int) + 1) * ((std_dev as int) + 1));
    } else {
        std_dev = 0;
        assert(spec_variance(results@) == 0);
        assert(spec_variance(results@) < ((std_dev as int) + 1) * ((std_dev as int) + 1));
    }

    let label = make_label(command);
    let owned_command = command.to_owned();

    CommandStats {
        command: owned_command,
        label,
        runs: n,
        time_mean_nanos: time_mean,
        time_min_nanos: mn,
        time_max_nanos: mx,
        time_std_dev_nanos: std_dev,
        peak_memory_bytes: peak,
        all_runs,
        failed_runs: failed,
    }
}

/// Rank the commands on mean time: the winner is the earliest command with
/// the smallest mean, and the reported ratio is `max_value / min_value`.
///
/// Undefined (`None`) for fewer than two commands.
pub fn compare_time(stats: &[CommandStats]) -> (r: Option<Comparison>)
    ensures
        r is Some <==> stats@.len() >= 2,
        r matches Some(c) ==> {
            &&& c.winner_index < stats@.len()
            &&& c.min_value == stats@[c.winner_index as int].time_mean_nanos
            &&& forall|j: int|
                0 <= j < stats@.len() ==> c.min_value <= #[trigger] stats@[j].time_mean_nanos
            &&& forall|j: int|
                0 <= j < c.winner_index ==> c.min_value < #[trigger] stats@[j].time_mean_nanos
            &&& exists|j: int|
                0 <= j < stats@.len() && c.max_value == #[trigger] stats@[j].time_mean_nanos
            &&& forall|j: int|
                0 <= j < stats@.len() ==> #[trigger] stats@[j].time_mean_nanos <= c.max_value
        },
{
    if stats.len() < 2 {
        return None;
    }
    let mut min_idx: usize = 0;
    let mut min_v: u64 = stats[0].time_mean_nanos;
    let mut max_v: u64 = stats[0].time_mean_nanos;
    let mut j: usize = 1;
    while j < stats.len()
        invariant
            1 <= j <= stats@.len(),
            min_idx < j,
            min_v == stats@[min_idx as int].time_mean_nanos,
            forall|k: int| 0 <= k < j ==> min_v <= #[trigger] stats@[k].time_mean_nanos,
            forall|k: int| 0 <= k < min_idx ==> min_v < #[trigger] stats@[k].time_mean_nanos,
            exists|k: int| 0 <= k < j && max_v == #[trigger] stats@[k].time_mean_nanos,
            forall|k: int| 0 <= k < j ==> #[trigger] stats@[k].time_mean_nanos <= max_v,
        decreases stats@.len() - j,
    {
        let v = stats[j].time_mean_nanos;
        if v < min_v {
            min_v = v;
            min_idx = j;
        }
        if v > max_v {
            max_v = v;
        }
        j += 1;
    }
    Some(Comparison { winner_index: min_idx, min_value: min_v, max_value: max_v })
}

/// Rank the commands on peak memory, as `compare_time` does on mean time.
///
/// Undefined (`None`) for fewer than two commands, and whenever any command
/// reports a peak memory of 0 (unmeasured): a ratio against an unmeasured
/// value would mislead.
pub fn compare_memory(stats: &[CommandStats]) -> (r: Option<Comparison>)
    ensures
        r is Some <==> (stats@.len() >= 2 && forall|j: int|
            0 <= j < stats@.len() ==> #[trigger] stats@[j].peak_memory_bytes > 0),
        r matches Some(c) ==> {
            &&& c.winner_index < stats@.len()
            &&& c.min_value == stats@[c.winner_index as int].peak_memory_bytes
            &&& c.min_value > 0
            &&& forall|j: int|
                0 <= j < stats@.len() ==> c.min_value <= #[trigger] stats@[j].peak_memory_bytes
            &&& forall|j: int|
                0 <= j < c.winner_index ==> c.min_value < #[trigger] stats@[j].peak_memory_bytes
            &&& exists|j: int|
                0 <= j < stats@.len() && c.max_value == #[trigger] stats@[j].peak_memory_bytes
            &&& forall|j: int|
                0 <= j < stats@.len() ==> #[trigger] stats@[j].peak_memory_bytes <= c.max_value
        },
{
    if stats.len() < 2 {
        return None;
    }
    let mut z: usize = 0;
    while z < stats.len()
        invariant
            z <= stats@.len(),
            forall|k: int| 0 <= k < z ==> #[trigger] stats@[k].peak_memory_bytes > 0,
        decreases stats@.len() - z,
    {
        if stats[z].peak_memory_bytes == 0 {
            return None;
        }
        z += 1;
    }
    let mut min_idx: usize = 0;
    let mut min_v: u64 = stats[0].peak_memory_bytes;
    let mut max_v: u64 = stats[0].peak_memory_bytes;
    let mut j: usize = 1;
    while j < stats.len()
        invariant
            1 <= j <= stats@.len(),
            min_idx < j,
            min_v == stats@[min_idx as int].peak_memory_bytes,
            forall|k: int| 0 <= k < j ==> min_v <= #[trigger] stats@[k].peak_memory_bytes,
            forall|k: int| 0 <= k < min_idx ==> min_v < #[trigger] stats@[k].peak_memory_bytes,
            exists|k: int| 0 <= k < j && max_v == #[trigger] stats@[k].peak_memory_bytes,
            forall|k: int| 0 <= k < j ==> #[trigger] stats@[k].peak_memory_bytes <= max_v,
            forall|k: int| 0 <= k < stats@.len() ==> #[trigger] stats@[k].peak_memory_bytes > 0,
        decreases stats@.len() - j,
    {
        let v = stats[j].peak_memory_bytes;
        if v < min_v {
            min_v = v;
            min_idx = j;
        }
        if v > max_v {
            max_v = v;
        }
        j += 1;
    }
    Some(Comparison { winner_index: min_idx, min_value: min_v, max_value: max_v })
}

} // verus!
