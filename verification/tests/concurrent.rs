use it_management::dispatch::{assemble_outcomes, outcome_for, CommandOutcome, ProgressCounter};
use it_management::error::SSHError;

fn completion(index: usize, host: &str, stdout: &str, error: &str) -> (usize, CommandOutcome) {
    (
        index,
        CommandOutcome {
            host: host.to_string(),
            stdout: stdout.to_string(),
            error_message: error.to_string(),
        },
    )
}

#[test]
fn test_execute_concurrent_success() {
    let hosts = vec!["h1".to_string(), "h2".to_string(), "h3".to_string()];
    let o1 = outcome_for("h1".to_string(), &Ok("out1".to_string()), false);
    let o2 = outcome_for("h2".to_string(), &Ok("out2".to_string()), false);
    let o3 = outcome_for("h3".to_string(), &Ok("out3".to_string()), false);
    let completions = vec![(0usize, o1), (1usize, o2), (2usize, o3)];
    let r = assemble_outcomes(&hosts, &completions);
    assert_eq!(r.len(), 3);
    for (i, outcome) in r.iter().enumerate() {
        assert_eq!(outcome.host, hosts[i]);
        assert_eq!(outcome.stdout, format!("out{}", i + 1));
        assert_eq!(outcome.error_message, "");
    }
}

#[test]
fn test_execute_concurrent_timeout() {
    let timed = outcome_for("slow".to_string(), &Ok("ignored output".to_string()), true);
    assert_eq!(timed.host, "slow");
    assert_eq!(timed.stdout, "");
    assert_eq!(timed.error_message, "Operation timed out after 30 seconds");

    let failed_and_timed = outcome_for(
        "slow2".to_string(),
        &Err(SSHError::Connection("Connection refused".to_string())),
        true,
    );
    assert_eq!(failed_and_timed.error_message, "Operation timed out after 30 seconds");
}

#[test]
fn test_execute_concurrent_partial_failure() {
    let hosts = vec!["good".to_string(), "bad".to_string()];
    let ok = outcome_for("good".to_string(), &Ok("fine".to_string()), false);
    let bad = outcome_for(
        "bad".to_string(),
        &Err(SSHError::Authentication("Permission denied".to_string())),
        false,
    );
    let completions = vec![(1usize, bad), (0usize, ok)];
    let r = assemble_outcomes(&hosts, &completions);
    assert_eq!(r.len(), 2);
    assert_eq!(r[0].host, "good");
    assert_eq!(r[0].stdout, "fine");
    assert_eq!(r[0].error_message, "");
    assert_eq!(r[1].host, "bad");
    assert_eq!(r[1].stdout, "");
    assert_eq!(r[1].error_message, "Authentication Error: Permission denied");
}

#[test]
fn test_execute_concurrent_all_failure() {
    let hosts = vec!["a".to_string(), "b".to_string()];
    let e1 = outcome_for(
        "a".to_string(),
        &Err(SSHError::Connection("Connection closed".to_string())),
        false,
    );
    let e2 = outcome_for("b".to_string(), &Err(SSHError::IO("spawn failed".to_string())), false);
    let completions = vec![(0usize, e1), (1usize, e2)];
    let r = assemble_outcomes(&hosts, &completions);
    assert_eq!(r.len(), 2);
    assert_eq!(r[0].error_message, "Connection Error: Connection closed");
    assert_eq!(r[1].error_message, "I/O Error: spawn failed");
    assert!(r.iter().all(|o| o.stdout.is_empty()));
}

#[test]
fn test_execute_concurrent_empty_hosts() {
    let hosts: Vec<String> = Vec::new();
    let completions: Vec<(usize, CommandOutcome)> = Vec::new();
    let r = assemble_outcomes(&hosts, &completions);
    assert!(r.is_empty());
}

#[test]
fn dispatch_keeps_input_order_when_completions_race() {
    let hosts = vec!["h1".to_string(), "h2".to_string(), "h3".to_string()];
    // h2 finished first, h1 last: completion order is 2, 3, 1.
    let completions = vec![
        completion(1, "h2", "second host output", ""),
        completion(2, "h3", "third host output", ""),
        completion(0, "h1", "first host output", ""),
    ];
    let r = assemble_outcomes(&hosts, &completions);
    assert_eq!(r.len(), 3);
    assert_eq!(r[0].host, "h1");
    assert_eq!(r[0].stdout, "first host output");
    assert_eq!(r[1].host, "h2");
    assert_eq!(r[1].stdout, "second host output");
    assert_eq!(r[2].host, "h3");
    assert_eq!(r[2].stdout, "third host output");
}

#[test]
fn progress_counter_counts_each_completion() {
    let mut counter = ProgressCounter::new(3);
    assert_eq!(counter.completed, 0);
    counter.record_completion();
    counter.record_completion();
    assert_eq!(counter.completed, 2);
    assert_eq!(counter.total, 3);
}
