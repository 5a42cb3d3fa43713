use rustop::device::get_terminal_name;

#[test]
fn zero_is_unknown() {
    assert_eq!(get_terminal_name(0), "?");
}

#[test]
fn tty_major() {
    assert_eq!(get_terminal_name((4 << 8) | 1), "tty1");
    assert_eq!(get_terminal_name(4 << 8), "tty0");
    assert_eq!(get_terminal_name((4 << 8) | 63), "tty63");
    assert_eq!(get_terminal_name((4 << 8) | 200), "tty200");
}

#[test]
fn console_major() {
    assert_eq!(get_terminal_name(5 << 8), "tty");
    assert_eq!(get_terminal_name((5 << 8) | 1), "console");
    assert_eq!(get_terminal_name((5 << 8) | 2), "ptmx");
    assert_eq!(get_terminal_name((5 << 8) | 7), "tty7");
}

#[test]
fn pts_majors() {
    assert_eq!(get_terminal_name(136 << 8), "pts/0");
    assert_eq!(get_terminal_name((136 << 8) | 10), "pts/10");
    assert_eq!(get_terminal_name((137 << 8) | 3), "pts/259");
    assert_eq!(get_terminal_name((143 << 8) | 255), "pts/2047");
}

#[test]
fn other_majors_are_literal() {
    assert_eq!(get_terminal_name((3 << 8) | 7), "3:7");
    assert_eq!(get_terminal_name((291 << 8) | 69), "291:69");
    assert_eq!(get_terminal_name((144 << 8) | 1), "144:1");
    assert_eq!(get_terminal_name((135 << 8) | 1), "135:1");
}
