use rustop::history::CpuSampleHistory;
use rustop::model::ProcessInfo;

#[test]
fn fifty_ticks_over_one_second_at_100hz_is_fifty_percent() {
    let mut h = CpuSampleHistory::new();
    // first observation: no baseline yet
    let first = h.sample(1, 5, 200, 1_000, 100);
    assert_eq!(first, 0);
    // one second later, 50 more ticks at 100 ticks/second: 50.00%
    let second = h.sample(1, 5, 250, 2_000, 100);
    assert_eq!(second, 5000);
}

#[test]
fn pid_reuse_resets_baseline() {
    let mut h = CpuSampleHistory::new();
    assert_eq!(h.sample(1, 5, 200, 1_000, 100), 0);
    // same pid, different start time: an unrelated process reused the id
    assert_eq!(h.sample(1, 6, 900, 2_000, 100), 0);
    // and the new baseline is the reused process's observation
    assert_eq!(h.sample(1, 6, 950, 3_000, 100), 5000);
}

#[test]
fn negative_delta_clamps_to_zero() {
    let mut h = CpuSampleHistory::new();
    assert_eq!(h.sample(2, 1, 500, 1_000, 100), 0);
    assert_eq!(h.sample(2, 1, 400, 2_000, 100), 0);
}

#[test]
fn result_clamps_to_one_hundred_percent() {
    let mut h = CpuSampleHistory::new();
    assert_eq!(h.sample(3, 1, 0, 1_000, 100), 0);
    // an absurd tick jump still reads as at most 100.00%
    assert_eq!(h.sample(3, 1, 1_000_000, 1_001, 100), 10000);
}

#[test]
fn zero_elapsed_time_uses_epsilon_floor() {
    let mut h = CpuSampleHistory::new();
    assert_eq!(h.sample(4, 1, 100, 1_000, 100), 0);
    // same timestamp: elapsed clamps to one millisecond, result to 100%
    assert_eq!(h.sample(4, 1, 200, 1_000, 100), 10000);
}

#[test]
fn quarter_percent_resolution() {
    let mut h = CpuSampleHistory::new();
    assert_eq!(h.sample(5, 1, 0, 0, 100), 0);
    // 1 tick over 4 seconds at 100 ticks/second = 0.25%
    assert_eq!(h.sample(5, 1, 1, 4_000, 100), 25);
}

#[test]
fn lookup_and_retain() {
    let mut h = CpuSampleHistory::new();
    h.sample(1, 10, 100, 1_000, 100);
    h.sample(2, 20, 200, 1_000, 100);
    h.sample(3, 30, 300, 1_000, 100);
    assert_eq!(h.len(), 3);
    assert_eq!(h.lookup(2), Some((20, 200, 1_000)));
    h.retain_pids(&vec![1, 3]);
    assert_eq!(h.len(), 2);
    assert!(h.lookup(2).is_none());
    assert_eq!(h.lookup(1), Some((10, 100, 1_000)));
    assert_eq!(h.lookup(3), Some((30, 300, 1_000)));
}

#[test]
fn record_updates_its_own_cpu_percent() {
    let mut h = CpuSampleHistory::new();
    let mut p = ProcessInfo::new();
    p.pid = 8;
    p.start_time = 3;
    p.cpu_time_total = 200;
    p.update_cpu_percent(&mut h, 1_000, 100);
    assert_eq!(p.cpu_centi_percent, 0);
    p.cpu_time_total = 250;
    p.update_cpu_percent(&mut h, 2_000, 100);
    assert_eq!(p.cpu_centi_percent, 5000);
    assert_eq!(h.lookup(8), Some((3, 250, 2_000)));
}
