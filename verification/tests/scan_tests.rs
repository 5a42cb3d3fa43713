use rustop::history::CpuSampleHistory;
use rustop::identity::UserCache;
use rustop::snapshot::{parse_process, scan, Observation};
use rustop::stat::StatError;
use rustop::state::ProcessState;

fn stat_line(pid: u64, name: &str, state: char, utime: u64, stime: u64, start: u64) -> String {
    format!(
        "{} ({}) {} 1 0 9 1025 0 0 0 0 0 0 {} {} 0 0 20 0 2 0 {} 2097152 50 0",
        pid, name, state, utime, stime, start
    )
}

fn obs(pid: u64, stat: Option<String>) -> Observation {
    Observation {
        pid,
        stat_text: stat,
        status_text: Some("VmSize: 2048 kB\nVmRSS:   1300 kB\n".to_string()),
        cmdline: Some(format!("/usr/bin/prog{} --flag", pid)),
        uid: None,
    }
}

#[test]
fn one_vanished_process_does_not_fail_the_scan() {
    let mut history = CpuSampleHistory::new();
    let mut users = UserCache::new();
    let observations = vec![
        obs(1, Some(stat_line(1, "one", 'S', 10, 5, 100))),
        // this process's status resource was deleted before it was read
        obs(2, None),
        obs(3, Some(stat_line(3, "three", 'R', 20, 10, 300))),
    ];
    let records = scan(&observations, 1_000, 100, &mut history, &mut users);
    assert_eq!(records.len(), 2);
    assert_eq!(records[0].pid, 1);
    assert_eq!(records[1].pid, 3);
}

#[test]
fn record_fields_are_assembled_from_the_observation() {
    let mut history = CpuSampleHistory::new();
    let mut users = UserCache::new();
    let observations = vec![obs(1, Some(stat_line(1, "one", 'S', 10, 5, 100)))];
    let records = scan(&observations, 1_000, 100, &mut history, &mut users);
    assert_eq!(records.len(), 1);
    let r = &records[0];
    assert_eq!(r.pid, 1);
    assert_eq!(r.ppid, 1);
    assert_eq!(r.name, "one");
    assert_eq!(r.command, "/usr/bin/prog1 --flag");
    assert_eq!(r.state, ProcessState::Sleeping);
    assert_eq!(r.session_id, 9);
    assert_eq!(r.terminal, "tty1");
    assert_eq!(r.memory_kb, 1300);
    assert_eq!(r.virtual_memory_kb, 2048);
    assert_eq!(r.cpu_time_total, 15);
    assert_eq!(r.cpu_centi_percent, 0);
    assert_eq!(r.start_time, 100);
    assert_eq!(r.num_threads, 2);
    assert_eq!(r.user, "uid:1");
}

#[test]
fn cpu_percent_appears_on_the_second_scan() {
    let mut history = CpuSampleHistory::new();
    let mut users = UserCache::new();
    let first = vec![obs(1, Some(stat_line(1, "one", 'S', 100, 100, 77)))];
    let records = scan(&first, 1_000, 100, &mut history, &mut users);
    assert_eq!(records[0].cpu_centi_percent, 0);
    // 50 more ticks over one second at 100 ticks/second: 50.00%
    let second = vec![obs(1, Some(stat_line(1, "one", 'S', 125, 125, 77)))];
    let records = scan(&second, 2_000, 100, &mut history, &mut users);
    assert_eq!(records[0].cpu_centi_percent, 5000);
}

#[test]
fn history_entries_of_gone_processes_are_evicted() {
    let mut history = CpuSampleHistory::new();
    let mut users = UserCache::new();
    let first = vec![
        obs(1, Some(stat_line(1, "one", 'S', 1, 1, 10))),
        obs(2, Some(stat_line(2, "two", 'S', 1, 1, 20))),
    ];
    scan(&first, 1_000, 100, &mut history, &mut users);
    assert_eq!(history.len(), 2);
    let second = vec![obs(2, Some(stat_line(2, "two", 'S', 2, 2, 20)))];
    scan(&second, 2_000, 100, &mut history, &mut users);
    assert_eq!(history.len(), 1);
    assert!(history.lookup(1).is_none());
    assert!(history.lookup(2).is_some());
}

#[test]
fn duplicate_and_nonpositive_pids_are_skipped() {
    let mut history = CpuSampleHistory::new();
    let mut users = UserCache::new();
    let observations = vec![
        obs(1, Some(stat_line(1, "one", 'S', 1, 1, 10))),
        // a second observation claiming the same pid
        obs(1, Some(stat_line(1, "dup", 'R', 9, 9, 99))),
        // a pid of zero can never name a real process
        obs(0, Some(stat_line(0, "zero", 'S', 1, 1, 10))),
    ];
    let records = scan(&observations, 1_000, 100, &mut history, &mut users);
    assert_eq!(records.len(), 1);
    assert_eq!(records[0].name, "one");
}

#[test]
fn malformed_stat_text_skips_only_that_pid() {
    let mut history = CpuSampleHistory::new();
    let mut users = UserCache::new();
    let observations = vec![
        obs(1, Some("not a stat line".to_string())),
        obs(2, Some(stat_line(2, "two", 'S', 1, 1, 20))),
    ];
    let records = scan(&observations, 1_000, 100, &mut history, &mut users);
    assert_eq!(records.len(), 1);
    assert_eq!(records[0].pid, 2);
}

#[test]
fn scan_counts_toward_user_cache_rebuild() {
    let mut history = CpuSampleHistory::new();
    let mut users = UserCache::with_interval(2);
    users.admit_lookup(5, Some("edda".to_string()));
    let observations: Vec<Observation> = Vec::new();
    scan(&observations, 1_000, 100, &mut history, &mut users);
    assert_eq!(users.cached(5), Some("edda".to_string()));
    scan(&observations, 2_000, 100, &mut history, &mut users);
    assert!(users.cached(5).is_none());
}

#[test]
fn parse_process_reports_the_reason() {
    let mut history = CpuSampleHistory::new();
    let mut users = UserCache::new();
    let vanished = obs(9, None);
    assert_eq!(
        parse_process(&vanished, 1_000, 100, &mut history, &mut users).unwrap_err(),
        StatError::StatUnavailable
    );
    let garbled = obs(9, Some("9 (x) S 1".to_string()));
    assert_eq!(
        parse_process(&garbled, 1_000, 100, &mut history, &mut users).unwrap_err(),
        StatError::InsufficientFields
    );
    let good = obs(9, Some(stat_line(9, "nine", 'S', 1, 1, 10)));
    let r = parse_process(&good, 1_000, 100, &mut history, &mut users).unwrap();
    assert_eq!(r.pid, 9);
}

#[test]
fn missing_cmdline_falls_back_to_name() {
    let mut history = CpuSampleHistory::new();
    let mut users = UserCache::new();
    let o = Observation {
        pid: 4,
        stat_text: Some(stat_line(4, "fallback", 'S', 1, 1, 10)),
        status_text: None,
        cmdline: None,
        uid: None,
    };
    let r = parse_process(&o, 1_000, 100, &mut history, &mut users).unwrap();
    assert_eq!(r.command, "fallback");
    assert_eq!(r.memory_kb, 0);
}

#[test]
fn uid_resolves_through_the_cache() {
    let mut history = CpuSampleHistory::new();
    let mut users = UserCache::new();
    users.admit_lookup(321, Some("known".to_string()));
    let o = Observation {
        pid: 4,
        stat_text: Some(stat_line(4, "p", 'S', 1, 1, 10)),
        status_text: None,
        cmdline: None,
        uid: Some(321),
    };
    let r = parse_process(&o, 1_000, 100, &mut history, &mut users).unwrap();
    assert_eq!(r.user, "known");
}
