use aura_factory::timetext::valid_time_text;

#[test]
fn clock_times() {
    for t in [
        "00:00:05", "1:23:45.5", "23:45", "100:00:00", "-00:01:00.250", "59:59", "1:30", "1:2:3",
        "1:2", "0:5.5",
    ] {
        assert!(valid_time_text(t), "{}", t);
    }
    for t in [
        "00:60:00", "1:2:60", "1:123", ":00:00", "00:00:00:00", "00:00.5.5", "00:0a", "+1:30", "1:30s",
    ] {
        assert!(!valid_time_text(t), "{}", t);
    }
}

#[test]
fn second_counts() {
    for t in ["5", "-5", "5.25", "5.", "5s", "5.5ms", "100ms", "7us", "0", "+5", "-+5", "+2.5s"] {
        assert!(valid_time_text(t), "{}", t);
    }
    for t in ["", "-", ".5", "abc", "5m", "5 s", "s", "ms", "+", "5e3", "--5", "++5", "+-5"] {
        assert!(!valid_time_text(t), "{}", t);
    }
}
