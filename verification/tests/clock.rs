use greeting_core::clock::{elapsed_nanos, time_left, Span, NANOS_PER_SEC};

#[test]
fn elapsed_time_never_runs_backwards() {
    assert_eq!(elapsed_nanos(10, 3), 7);
    assert_eq!(elapsed_nanos(3, 10), 0);
    assert_eq!(elapsed_nanos(u64::MAX, 0), u64::MAX);
    assert_eq!(NANOS_PER_SEC, 1_000_000_000);
}

#[test]
fn time_left_is_the_exact_difference() {
    assert_eq!(time_left(1, 0), Some(Span { secs: 1, nanos: 0 }));
    assert_eq!(time_left(1, 1), Some(Span { secs: 0, nanos: 999_999_999 }));
    assert_eq!(time_left(1, 400_000_000), Some(Span { secs: 0, nanos: 600_000_000 }));
    assert_eq!(time_left(1, 1_000_000_000), Some(Span { secs: 0, nanos: 0 }));
    assert_eq!(time_left(1, 1_000_000_001), None);
    assert_eq!(time_left(0, 0), Some(Span { secs: 0, nanos: 0 }));
    assert_eq!(time_left(0, 1), None);
    assert_eq!(time_left(300, 12_500_000_000), Some(Span { secs: 287, nanos: 500_000_000 }));
    assert_eq!(
        time_left(u64::MAX, u64::MAX),
        Some(Span { secs: u64::MAX - 18_446_744_074, nanos: 290_448_385 })
    );
}
