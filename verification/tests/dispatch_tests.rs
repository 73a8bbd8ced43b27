use k380_fn_toggle::dispatch::{apply, ToggleResult, WriteOutcome};

#[test]
fn apply_without_candidates() {
    assert_eq!(apply(&Vec::new()), ToggleResult { found: false, success: false });
    assert_eq!(ToggleResult::none(), ToggleResult { found: false, success: false });
}

#[test]
fn apply_with_one_write_of_zero_bytes() {
    let r = apply(&vec![WriteOutcome::Written(0)]);
    assert_eq!(r, ToggleResult { found: true, success: false });
}

#[test]
fn apply_with_one_confirmed_write() {
    assert_eq!(apply(&vec![WriteOutcome::Written(7)]), ToggleResult { found: true, success: true });
    assert_eq!(apply(&vec![WriteOutcome::Written(1)]), ToggleResult { found: true, success: true });
}

#[test]
fn apply_skips_failures_and_goes_on() {
    let outcomes = vec![WriteOutcome::OpenFailed, WriteOutcome::Written(7), WriteOutcome::WriteFailed];
    assert_eq!(apply(&outcomes), ToggleResult { found: true, success: true });
    let outcomes = vec![WriteOutcome::Written(7), WriteOutcome::OpenFailed, WriteOutcome::Written(0)];
    assert_eq!(apply(&outcomes), ToggleResult { found: true, success: true });
}

#[test]
fn apply_with_failures_only() {
    let outcomes = vec![WriteOutcome::OpenFailed, WriteOutcome::WriteFailed, WriteOutcome::Written(0)];
    assert_eq!(apply(&outcomes), ToggleResult { found: true, success: false });
}

#[test]
fn confirmed_means_a_positive_count() {
    assert!(!WriteOutcome::OpenFailed.is_confirmed());
    assert!(!WriteOutcome::WriteFailed.is_confirmed());
    assert!(!WriteOutcome::Written(0).is_confirmed());
    assert!(WriteOutcome::Written(1).is_confirmed());
    assert!(WriteOutcome::Written(usize::MAX).is_confirmed());
}

#[test]
fn record_agrees_with_apply() {
    let outcomes = vec![WriteOutcome::Written(0), WriteOutcome::OpenFailed, WriteOutcome::Written(3), WriteOutcome::WriteFailed];
    let mut r = ToggleResult::none();
    for k in 0..outcomes.len() {
        r = r.record(outcomes[k]);
        assert_eq!(r, apply(&outcomes[..k + 1].to_vec()));
    }
    assert_eq!(r, ToggleResult { found: true, success: true });
}
