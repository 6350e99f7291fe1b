use dfu::text::{ends_with, starts_with, trim_end_stops};

#[test]
fn beginnings_and_ends_are_compared() {
    assert!(starts_with("dockerfile.dev", "dockerfile"));
    assert!(starts_with("dockerfile", ""));
    assert!(!starts_with("docker", "dockerfile"));
    assert!(!starts_with("dockerfyle", "dockerfile"));
    assert!(ends_with("a/Dockerfile", "file"));
    assert!(ends_with("a/Dockerfile", ""));
    assert!(!ends_with("file", "a/file"));
    assert!(!ends_with("a/Dockerfile", "File"));
    assert!(ends_with("stra\u{00df}e", "\u{00df}e"));
}

#[test]
fn stops_at_the_end_are_trimmed() {
    assert_eq!(trim_end_stops("8.0.."), "8.0");
    assert_eq!(trim_end_stops("8.0"), "8.0");
    assert_eq!(trim_end_stops("..."), "");
    assert_eq!(trim_end_stops(""), "");
    assert_eq!(trim_end_stops(".\u{00e4}."), ".\u{00e4}");
}
