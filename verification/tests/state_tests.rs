use rustop::state::ProcessState;

#[test]
fn recognized_chars_round_trip() {
    for c in ['R', 'S', 'D', 'Z', 'T', 't', 'X', 'K', 'W', 'P'] {
        let s = ProcessState::from_char(c);
        assert!(!matches!(s, ProcessState::Unknown(_)));
        assert_eq!(s.as_char(), c);
    }
}

#[test]
fn unknown_chars_round_trip() {
    for c in ['q', '?', '0', ' ', 'r', 's'] {
        let s = ProcessState::from_char(c);
        assert!(matches!(s, ProcessState::Unknown(u) if u == c));
        assert_eq!(s.as_char(), c);
    }
}

#[test]
fn specific_tags() {
    assert_eq!(ProcessState::from_char('R'), ProcessState::Running);
    assert_eq!(ProcessState::from_char('S'), ProcessState::Sleeping);
    assert_eq!(ProcessState::from_char('D'), ProcessState::DiskSleep);
    assert_eq!(ProcessState::from_char('Z'), ProcessState::Zombie);
    assert_eq!(ProcessState::from_char('T'), ProcessState::Stopped);
    assert_eq!(ProcessState::from_char('t'), ProcessState::TracingStop);
    assert_eq!(ProcessState::from_char('X'), ProcessState::Dead);
    assert_eq!(ProcessState::from_char('K'), ProcessState::WakeKill);
    assert_eq!(ProcessState::from_char('W'), ProcessState::Waking);
    assert_eq!(ProcessState::from_char('P'), ProcessState::Parked);
}

#[test]
fn descriptions() {
    assert_eq!(ProcessState::Running.description(), "Running");
    assert_eq!(ProcessState::Sleeping.description(), "Sleeping");
    assert_eq!(ProcessState::DiskSleep.description(), "Disk Sleep");
    assert_eq!(ProcessState::Zombie.description(), "Zombie");
    assert_eq!(ProcessState::Stopped.description(), "Stopped");
    assert_eq!(ProcessState::TracingStop.description(), "Tracing");
    assert_eq!(ProcessState::Dead.description(), "Dead");
    assert_eq!(ProcessState::WakeKill.description(), "Wake Kill");
    assert_eq!(ProcessState::Waking.description(), "Waking");
    assert_eq!(ProcessState::Parked.description(), "Parked");
    assert_eq!(ProcessState::Unknown('j').description(), "Unknown");
}
