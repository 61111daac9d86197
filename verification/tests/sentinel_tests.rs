use phantom_core::sentinel::{LocalSentinel, SentinelEvent, SentinelPolicy};

#[test]
fn test_sentinel_auto_wipe() {
    let policy = SentinelPolicy {
        max_failed_logins: 3,
        auto_wipe_on_forensics: true,
        shred_keys_on_panic: true,
    };
    let mut sentinel = LocalSentinel::new(policy);

    assert!(!sentinel.process_event(SentinelEvent::FailedLoginAttempt));
    assert!(!sentinel.process_event(SentinelEvent::FailedLoginAttempt));
    assert!(sentinel.process_event(SentinelEvent::FailedLoginAttempt));
}

#[test]
fn test_sentinel_policy_switches() {
    let policy = SentinelPolicy {
        max_failed_logins: 10,
        auto_wipe_on_forensics: false,
        shred_keys_on_panic: true,
    };
    let mut sentinel = LocalSentinel::new(policy);

    assert!(!sentinel.process_event(SentinelEvent::UnauthorizedDbAccess));
    assert!(sentinel.process_event(SentinelEvent::PanicGestureTriggered));
    // Forensic extraction always recommends a wipe, whatever the policy.
    assert!(sentinel.process_event(SentinelEvent::ForensicExtractionDetected));
    // None of the above counted as a failed login.
    assert!(!sentinel.process_event(SentinelEvent::FailedLoginAttempt));
}

#[test]
fn test_sentinel_shred_identity() {
    let policy = SentinelPolicy {
        max_failed_logins: 1,
        auto_wipe_on_forensics: true,
        shred_keys_on_panic: true,
    };
    let sentinel = LocalSentinel::new(policy);
    sentinel.shred_identity();
}
