use clash::runner::BenchmarkRun;
use clash::sampler::MemorySampler;
use clash::types::RunResult;

fn run(duration_nanos: u64) -> RunResult {
    RunResult { duration_nanos, peak_memory_bytes: 0, exit_code: Some(0) }
}

#[test]
fn warmups_come_first_and_are_discarded() {
    let mut bench = BenchmarkRun::new(2, 3);
    let mut executed: Vec<bool> = Vec::new();
    let mut tick: u64 = 0;
    while !bench.is_complete() {
        executed.push(bench.next_is_warmup());
        bench.record(run(tick));
        tick += 1;
    }
    assert_eq!(executed, vec![true, true, true, false, false]);
    let results: Vec<u64> = bench.into_results().iter().map(|r| r.duration_nanos).collect();
    // The three warmup outcomes (ticks 0..2) were discarded.
    assert_eq!(results, vec![3, 4]);
}

#[test]
fn no_warmup_measures_immediately() {
    let mut bench = BenchmarkRun::new(1, 0);
    assert!(!bench.next_is_warmup());
    assert!(!bench.is_complete());
    bench.record(run(42));
    assert!(bench.is_complete());
    let results = bench.into_results();
    assert_eq!(results.len(), 1);
    assert_eq!(results[0].duration_nanos, 42);
}

#[test]
fn sampler_peak_is_a_running_maximum() {
    let mut sampler = MemorySampler::new();
    assert_eq!(sampler.peak_bytes(), 0);
    sampler.observe(100);
    assert_eq!(sampler.peak_bytes(), 100);
    sampler.observe(50);
    assert_eq!(sampler.peak_bytes(), 100);
    sampler.observe(150);
    assert_eq!(sampler.peak_bytes(), 150);
}

#[test]
fn sampler_stop_protocol() {
    let mut sampler = MemorySampler::new();
    assert!(sampler.should_continue());
    sampler.observe(7);
    sampler.request_stop();
    assert!(!sampler.should_continue());
    assert_eq!(sampler.peak_bytes(), 7);
}

#[test]
fn sampling_a_nonexistent_process_leaves_the_peak_alone() {
    let mut sys = sysinfo::System::new();
    let mut sampler = MemorySampler::new();
    sampler.observe(33);
    // No process was ever refreshed into this empty snapshot.
    sampler.sample_step(&mut sys, u32::MAX);
    assert_eq!(sampler.peak_bytes(), 33);
    sampler.request_stop();
    sampler.finish(&mut sys, u32::MAX);
    assert_eq!(sampler.peak_bytes(), 33);
}
