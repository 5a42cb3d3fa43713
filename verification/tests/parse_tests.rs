use rustop::stat::{parse_stat, StatError};
use rustop::state::ProcessState;

fn sample_line() -> String {
    // pid (name) then 23 positional fields
    "1234 (my proc) S 456 0 789 1025 0 0 0 0 0 0 200 100 0 0 20 -5 7 0 5555 1048576 300 0"
        .to_string()
}

#[test]
fn parses_documented_field_indices() {
    let f = parse_stat(&sample_line()).expect("well-formed line must parse");
    assert_eq!(f.pid, 1234);
    assert_eq!(f.name, "my proc");
    assert_eq!(f.state_ch, 'S');
    assert_eq!(f.state(), ProcessState::Sleeping);
    assert_eq!(f.ppid, 456);
    assert_eq!(f.session_id, 789);
    assert_eq!(f.tty_nr, 1025);
    assert_eq!(f.utime, 200);
    assert_eq!(f.stime, 100);
    assert_eq!(f.priority, 20);
    assert_eq!(f.nice, -5);
    assert_eq!(f.num_threads, 7);
    assert_eq!(f.start_time, 5555);
    assert_eq!(f.vsize_bytes, 1048576);
    assert_eq!(f.rss_raw, 300);
}

#[test]
fn name_may_contain_parentheses_and_spaces() {
    let line = "7 (a (weird) name) R 1 0 1 0 0 0 0 0 0 0 1 2 0 0 0 0 1 0 9 10 11 0";
    let f = parse_stat(line).expect("inner parentheses belong to the name");
    assert_eq!(f.pid, 7);
    assert_eq!(f.name, "a (weird) name");
    assert_eq!(f.state_ch, 'R');
    assert_eq!(f.ppid, 1);
}

#[test]
fn exactly_23_fields_is_enough() {
    let line = "1 (a) S 2 3 4 5 6 7 8 9 10 11 12 13 14 15 16 17 18 19 20 21 22 23";
    assert!(parse_stat(line).is_ok());
}

#[test]
fn missing_open_paren() {
    assert_eq!(
        parse_stat("123 no parens at all").unwrap_err(),
        StatError::MissingOpenParen
    );
}

#[test]
fn missing_close_paren() {
    assert_eq!(parse_stat("123 (name").unwrap_err(), StatError::MissingCloseParen);
}

#[test]
fn misordered_parens() {
    assert_eq!(parse_stat("12) (x").unwrap_err(), StatError::MisorderedParens);
}

#[test]
fn insufficient_fields() {
    assert_eq!(parse_stat("1 (a) S 2 3").unwrap_err(), StatError::InsufficientFields);
}

#[test]
fn bad_pid_fails_record() {
    let line = "abc (a) S 2 3 4 5 6 7 8 9 10 11 12 13 14 15 16 17 18 19 20 21 22 23";
    assert_eq!(parse_stat(line).unwrap_err(), StatError::BadPid);
}

#[test]
fn bad_ppid_fails_record() {
    let line = "1 (a) S xx 3 4 5 6 7 8 9 10 11 12 13 14 15 16 17 18 19 20 21 22 23";
    assert_eq!(parse_stat(line).unwrap_err(), StatError::BadPpid);
}

#[test]
fn auxiliary_fields_degrade_to_zero() {
    // session id, tty, utime, priority, threads, start, vsize malformed
    let line = "1 (a) S 2 3 bad bad 6 7 8 9 10 11 bad 13 14 15 bad 17 bad 19 bad bad bad 22";
    let f = parse_stat(line).expect("auxiliary damage must not discard the record");
    assert_eq!(f.pid, 1);
    assert_eq!(f.ppid, 2);
    assert_eq!(f.session_id, 0);
    assert_eq!(f.tty_nr, 0);
    assert_eq!(f.utime, 0);
    assert_eq!(f.priority, 0);
    assert_eq!(f.num_threads, 0);
    assert_eq!(f.start_time, 0);
    assert_eq!(f.vsize_bytes, 0);
    assert_eq!(f.rss_raw, 0);
}

#[test]
fn empty_state_token_cannot_happen_but_overflowed_numbers_zero() {
    // numeric overflow in an auxiliary field degrades to zero like any malformed token
    let line =
        "1 (a) S 2 3 99999999999999999999 5 6 7 8 9 10 11 12 13 14 15 16 17 18 19 20 21 22 23";
    let f = parse_stat(line).unwrap();
    assert_eq!(f.session_id, 0);
}
