use minecrust::utils::{clamp, max, min, NSEC_PER_SEC};

#[test]
fn min_and_max_pick_an_argument() {
    assert_eq!(min(3, 5), 3);
    assert_eq!(min(5, 3), 3);
    assert_eq!(max(3, 5), 5);
    assert_eq!(max(-1i64, -7), -1);
    assert_eq!(min("b", "a"), "a");
}

#[test]
fn ties_and_nan_return_the_second_argument() {
    assert_eq!(min((1, 'a'), (1, 'a')), (1, 'a'));
    assert!(min(f32::NAN, 1.0) == 1.0);
    assert!(max(f32::NAN, 1.0) == 1.0);
    assert!(min(1.0, f32::NAN).is_nan());
}

#[test]
fn clamp_returns_the_lower_bound() {
    assert_eq!(clamp(0, 10, 5), 0);
    assert_eq!(clamp(0, 10, -5), 0);
    assert_eq!(clamp(0, 10, 50), 0);
    assert_eq!(clamp(3, 3, 3), 3);
}

#[test]
fn nanoseconds_per_second() {
    assert_eq!(NSEC_PER_SEC, 1_000_000_000);
}
