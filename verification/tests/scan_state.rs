use it_management::scan::{RetryPolicy, ScanMachine, ScanState};

#[test]
fn duplicate_hosts_are_recorded_once() {
    let mut state = ScanState::new();
    state.record_host("alpha.local".to_string());
    state.record_host("beta.local".to_string());
    state.record_host("alpha.local".to_string());
    state.record_host("beta.local".to_string());
    state.record_host("gamma.local".to_string());
    assert_eq!(state.discovered_hosts, vec!["alpha.local", "beta.local", "gamma.local"]);
}

#[test]
fn completed_scan_is_not_in_progress() {
    let mut state = ScanState::new();
    assert!(state.need_scan());
    state.begin_scan();
    assert!(state.in_progress);
    assert!(!state.need_scan());
    state.record_host("alpha.local".to_string());
    state.finish_scan();
    assert!(state.scan_completed);
    assert!(!state.in_progress);
}

#[test]
fn empty_scan_never_completes() {
    let mut state = ScanState::new();
    state.begin_scan();
    state.finish_scan();
    assert!(!state.scan_completed);
    assert!(!state.in_progress);
    // Nothing was found, so the next poll starts another scan.
    assert!(state.need_scan());
}

#[test]
fn snapshot_copies_the_current_state() {
    let mut state = ScanState::new();
    state.record_host("alpha.local".to_string());
    let snap = state.snapshot();
    assert_eq!(snap.hosts, vec!["alpha.local"]);
    assert!(!snap.scan_complete);
    // The snapshot is a copy: the live state can move on.
    state.record_host("beta.local".to_string());
    assert_eq!(snap.hosts.len(), 1);
}

#[test]
fn lines_before_the_header_are_ignored() {
    let mut machine = ScanMachine::new();
    let line: Vec<char> = "Add 3 4 local. _ssh._tcp. office-mac".chars().collect();
    assert!(machine.process_line(&line).is_none());
    assert!(!machine.found_header);

    let header: Vec<char> = "Timestamp     A/R    Flags  if Domain".chars().collect();
    assert!(machine.process_line(&header).is_none());
    assert!(machine.found_header);

    let found = machine.process_line(&line);
    assert_eq!(found.as_deref(), Some("office-mac.local"));
    assert!(machine.found_hosts);
}

#[test]
fn trailing_local_suffix_is_normalized() {
    let mut machine = ScanMachine::new();
    let header: Vec<char> = "Timestamp".chars().collect();
    machine.process_line(&header);
    let line: Vec<char> = "12:00  Add  2  4 local. _ssh._tcp. studio.local".chars().collect();
    assert_eq!(machine.process_line(&line).as_deref(), Some("studio.local"));
    let other: Vec<char> = "12:00  Add  2  4 local. _ssh._tcp. studio".chars().collect();
    assert_eq!(machine.process_line(&other).as_deref(), Some("studio.local"));
}

#[test]
fn scan_without_hosts_fails() {
    let machine = ScanMachine::new();
    assert_eq!(machine.outcome().unwrap_err(), "No hosts found on network");
}

#[test]
fn retry_policy_is_linear_and_capped() {
    let mut policy = RetryPolicy::new();
    assert!(policy.more_attempts());
    assert_eq!(policy.warmup_delay(), 2);

    policy.record_attempt(false);
    assert_eq!(policy.backoff_delay(), 1);
    assert_eq!(policy.warmup_delay(), 0);
    assert!(policy.more_attempts());

    policy.record_attempt(false);
    assert_eq!(policy.backoff_delay(), 2);

    policy.record_attempt(false);
    assert!(!policy.more_attempts());
    assert_eq!(
        policy.verdict().unwrap_err(),
        "DNS-SD scan failed after 3 attempts"
    );
}

#[test]
fn any_successful_attempt_ends_the_retry_loop() {
    let mut policy = RetryPolicy::new();
    policy.record_attempt(false);
    policy.record_attempt(true);
    assert!(!policy.more_attempts());
    assert!(policy.verdict().is_ok());
}
