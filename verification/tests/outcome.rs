use blackbox_fuzz::outcome::{classify_exit, Outcome, CRASH_SIGNAL};

#[test]
fn crash_signal_is_segmentation_fault() {
    assert_eq!(CRASH_SIGNAL, 11);
}

#[test]
fn only_signal_eleven_is_a_crash() {
    assert!(Outcome::Signaled(11).is_crash());
    assert!(!Outcome::Signaled(9).is_crash());
    assert!(!Outcome::Signaled(6).is_crash());
    assert!(!Outcome::Signaled(4).is_crash());
    assert!(!Outcome::Signaled(0).is_crash());
    assert!(!Outcome::Signaled(-11).is_crash());
    assert!(!Outcome::Normal(0).is_crash());
    assert!(!Outcome::Normal(11).is_crash());
    assert!(!Outcome::Normal(139).is_crash());
    assert!(!Outcome::TimedOut.is_crash());
}

#[test]
fn normal_exit_with_code_zero_is_normal_zero() {
    let outcome = classify_exit(None, Some(0));
    assert_eq!(outcome, Outcome::Normal(0));
    assert!(!outcome.is_crash());
}

#[test]
fn segmentation_fault_is_signaled_eleven_and_a_crash() {
    let outcome = classify_exit(Some(11), None);
    assert_eq!(outcome, Outcome::Signaled(11));
    assert!(outcome.is_crash());
}

#[test]
fn signal_takes_precedence_over_code() {
    assert_eq!(classify_exit(Some(6), Some(1)), Outcome::Signaled(6));
}

#[test]
fn exit_code_is_kept() {
    assert_eq!(classify_exit(None, Some(3)), Outcome::Normal(3));
    assert_eq!(classify_exit(None, Some(-1)), Outcome::Normal(-1));
}

#[test]
fn exit_without_code_or_signal_counts_as_zero() {
    assert_eq!(classify_exit(None, None), Outcome::Normal(0));
}
