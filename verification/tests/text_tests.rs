use rustop::digits::{parse_i64, parse_u64, u64_to_decimal};
use rustop::meminfo::parse_vmrss;
use rustop::model::ProcessInfo;
use rustop::textfmt::truncate_string;

#[test]
fn decimal_rendering() {
    assert_eq!(u64_to_decimal(0), "0");
    assert_eq!(u64_to_decimal(7), "7");
    assert_eq!(u64_to_decimal(1234), "1234");
    assert_eq!(u64_to_decimal(u64::MAX), "18446744073709551615");
}

#[test]
fn unsigned_parse() {
    assert_eq!(parse_u64("0"), Some(0));
    assert_eq!(parse_u64("+42"), Some(42));
    assert_eq!(parse_u64("18446744073709551615"), Some(u64::MAX));
    assert_eq!(parse_u64("18446744073709551616"), None);
    assert_eq!(parse_u64(""), None);
    assert_eq!(parse_u64("+"), None);
    assert_eq!(parse_u64("12a"), None);
    assert_eq!(parse_u64("-1"), None);
    assert_eq!(parse_u64(" 1"), None);
}

#[test]
fn signed_parse() {
    assert_eq!(parse_i64("-9223372036854775808"), Some(i64::MIN));
    assert_eq!(parse_i64("-9223372036854775809"), None);
    assert_eq!(parse_i64("9223372036854775807"), Some(i64::MAX));
    assert_eq!(parse_i64("9223372036854775808"), None);
    assert_eq!(parse_i64("-0"), Some(0));
    assert_eq!(parse_i64("+5"), Some(5));
    assert_eq!(parse_i64("-"), None);
    assert_eq!(parse_i64("--1"), None);
}

#[test]
fn vmrss_extraction() {
    let status = "VmPeak:\t  202380 kB\nVmSize:\t  202380 kB\nVmRSS:\t   13484 kB\nVmData: 1 kB\n";
    assert_eq!(parse_vmrss(status), 13484);
}

#[test]
fn vmrss_absent_is_zero() {
    assert_eq!(parse_vmrss("VmPeak: 100 kB\nVmData: 1 kB\n"), 0);
    assert_eq!(parse_vmrss(""), 0);
}

#[test]
fn vmrss_malformed_is_zero() {
    assert_eq!(parse_vmrss("VmRSS: notanumber kB\n"), 0);
    assert_eq!(parse_vmrss("VmRSS:\n"), 0);
}

#[test]
fn vmrss_first_matching_line_wins() {
    assert_eq!(parse_vmrss("VmRSS: 7 kB\nVmRSS: 9 kB\n"), 7);
}

#[test]
fn truncation() {
    assert_eq!(truncate_string("hello", 10), "hello");
    assert_eq!(truncate_string("hello", 5), "hello");
    assert_eq!(truncate_string("hello world", 8), "hello w\u{2026}");
    assert_eq!(truncate_string("hi", 0), "\u{2026}");
    assert_eq!(truncate_string("", 0), "");
}

#[test]
fn short_command_takes_last_path_segment() {
    let mut p = ProcessInfo::new();
    p.command = "/usr/bin/python3 script.py --x".to_string();
    assert_eq!(p.short_command(), "python3");
    p.command = "bash".to_string();
    assert_eq!(p.short_command(), "bash");
    p.command = String::new();
    p.name = "fallback".to_string();
    assert_eq!(p.short_command(), "fallback");
    p.command = "a/b/".to_string();
    assert_eq!(p.short_command(), "");
}

#[test]
fn kernel_threads_are_bracketed() {
    let mut p = ProcessInfo::new();
    p.name = "[kthreadd]".to_string();
    assert!(p.is_kernel_thread());
    p.name = "init".to_string();
    assert!(!p.is_kernel_thread());
    p.name = "[".to_string();
    assert!(!p.is_kernel_thread());
    p.name = String::new();
    assert!(!p.is_kernel_thread());
}

#[test]
fn empty_record_shape() {
    let p = ProcessInfo::new();
    assert_eq!(p.pid, 0);
    assert_eq!(p.cpu_centi_percent, 0);
    assert_eq!(p.age_seconds(), 0);
    assert_eq!(p.state.as_char(), '?');
}
