use it_management::error::SSHError;
use it_management::ssh::{cache_clear_outcome, expect_script, process_ssh_output, vet_command_output};

#[test]
fn noisy_stderr_with_stdout_is_success() {
    // Only a host-key-added warning on stderr: the stdout must come back.
    let r = process_ssh_output(
        "MacBookPro18,3\n",
        "Warning: Permanently added 'host.local' (ED25519) to the list of known hosts.\n",
    );
    assert_eq!(r.unwrap(), "MacBookPro18,3");
}

#[test]
fn all_noise_lines_are_filtered() {
    let stderr = "Attempting authentication...\nAuthentication failed, attempt 1\nWarning: Permanently added 'h' to the list of known hosts.";
    let r = process_ssh_output("  payload  ", stderr);
    assert_eq!(r.unwrap(), "payload");
}

#[test]
fn permission_denied_is_authentication_error() {
    let r = process_ssh_output("", "ph-admin@host: Permission denied (publickey,password).");
    match r {
        Err(SSHError::Authentication(m)) => assert_eq!(m, "Permission denied"),
        other => panic!("expected an authentication error, got {:?}", other),
    }
}

#[test]
fn connection_phrases_rank_before_authentication() {
    let r = process_ssh_output("", "Connection closed by remote host\nPermission denied");
    match r {
        Err(SSHError::Connection(m)) => assert_eq!(m, "Connection closed"),
        other => panic!("expected a connection error, got {:?}", other),
    }
}

#[test]
fn timed_out_and_refused_and_locked_classify() {
    match process_ssh_output("", "ssh: connect: Operation timed out") {
        Err(SSHError::Connection(m)) => assert_eq!(m, "Connection timed out"),
        other => panic!("unexpected {:?}", other),
    }
    match process_ssh_output("", "ssh: connect to host x port 22: Connection refused") {
        Err(SSHError::Connection(m)) => assert_eq!(m, "Connection refused"),
        other => panic!("unexpected {:?}", other),
    }
    match process_ssh_output("", "Too many authentication failures") {
        Err(SSHError::Authentication(m)) => assert_eq!(m, "Max authentication attempts reached"),
        other => panic!("unexpected {:?}", other),
    }
    match process_ssh_output("", "This account is locked.") {
        Err(SSHError::Authentication(m)) => assert_eq!(m, "Account is locked"),
        other => panic!("unexpected {:?}", other),
    }
}

#[test]
fn generic_error_fails_only_without_stdout() {
    match process_ssh_output("", "error: something odd\n") {
        Err(SSHError::IO(m)) => assert_eq!(m, "SSH command failed: error: something odd"),
        other => panic!("expected an I/O error, got {:?}", other),
    }
    // The same stderr with stdout present succeeds.
    let r = process_ssh_output("real output", "error: something odd\n");
    assert_eq!(r.unwrap(), "real output");
}

#[test]
fn empty_streams_are_quiet_success() {
    assert_eq!(process_ssh_output("", "").unwrap(), "");
}

#[test]
fn error_messages_name_their_category() {
    assert_eq!(SSHError::IO("x".to_string()).message(), "I/O Error: x");
    assert_eq!(SSHError::Connection("x".to_string()).message(), "Connection Error: x");
    assert_eq!(SSHError::DNS("x".to_string()).message(), "DNS Error: x");
    assert_eq!(SSHError::Authentication("x".to_string()).message(), "Authentication Error: x");
}

#[test]
fn crlf_stderr_lines_classify_like_plain_ones() {
    let r = process_ssh_output("", "Warning: Permanently added 'h'.\r\nPermission denied\r\n");
    assert!(matches!(r, Err(SSHError::Authentication(_))));
}

#[test]
fn expect_script_matches_the_interaction_template() {
    let s = expect_script("u", "h", "cmd", "pw");
    let expected = "\n        spawn ssh -o StrictHostKeyChecking=no u@h \"cmd\"\n        expect {\n            \"assword:\" {\n                send \"pw\\r\"\n                expect {\n                    eof { exit 0 }\n                    timeout { exit 1 }\n                }\n            }\n            eof { exit 1 }\n        }\n        ";
    assert_eq!(s, expected);
}

#[test]
fn expect_script_embeds_session_parameters() {
    let s = expect_script("ph-admin", "mac.local", "uptime", "secret");
    assert!(s.contains("spawn ssh -o StrictHostKeyChecking=no ph-admin@mac.local \"uptime\""));
    assert!(s.contains("send \"secret\\r\""));
    assert!(s.contains("\"assword:\""));
}

#[test]
fn vetting_rejects_embedded_failures_and_empty_output() {
    let r = vet_command_output("uptime", "Connection timed out".to_string());
    assert_eq!(
        r.unwrap_err(),
        "SSH command failed:\nCommand: uptime\nOutput: Connection timed out"
    );
    let r = vet_command_output("uptime", "   \n".to_string());
    assert_eq!(r.unwrap_err(), "Command execution returned no output");
    let r = vet_command_output("uptime", "10:00 up 3 days".to_string());
    assert_eq!(r.unwrap(), "10:00 up 3 days");
}

#[test]
fn cache_clear_requires_its_marker() {
    assert_eq!(
        cache_clear_outcome("Cache cleared successfully").unwrap(),
        "Cache cleared successfully"
    );
    assert_eq!(
        cache_clear_outcome("rm: permission denied").unwrap_err(),
        "Failed to clear cache: rm: permission denied"
    );
}
