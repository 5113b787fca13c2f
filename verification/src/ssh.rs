//! Classification of remote-session output.
//!
//! A remote command hands back a captured stdout and stderr.  Remote tools
//! often write benign banners to stderr, so stderr alone must not fail a
//! call: known noise lines are filtered first, hard transport and
//! authentication phrases are classified next, and non-empty stdout wins
//! over whatever generic complaints remain.

use vstd::prelude::*;
use vstd::string::StringExecFns;
use crate::error::{spec_error_message, SSHError};
use crate::text::{
    chars_string, contains_seq, join_nl, join_nl_from, lines_of, lower_vec, push_all,
    spec_contains, spec_join_nl, spec_lines, spec_lower, spec_starts_with, spec_trim, starts_with,
    str_chars, trim_vec,
};

verus! {

/// A stderr line that reports progress rather than failure: an
/// authentication-attempt banner or a host-key-added warning.
pub open spec fn is_noise_line(l: Seq<char>) -> bool {
    spec_contains(l, "Attempting authentication"@) || spec_contains(
        l,
        "Authentication failed, attempt"@,
    ) || spec_starts_with(l, "Warning: Permanently added"@)
}

/// The lines of `ls` from position `i` on with noise removed.
pub open spec fn keep_from(ls: Seq<Seq<char>>, i: int) -> Seq<Seq<char>>
    decreases ls.len() - i,
{
    if i < 0 || i >= ls.len() {
        Seq::empty()
    } else if is_noise_line(ls[i]) {
        keep_from(ls, i + 1)
    } else {
        seq![ls[i]] + keep_from(ls, i + 1)
    }
}

/// The stderr lines that still mean something once noise is filtered out.
pub open spec fn meaningful_stderr(err: Seq<char>) -> Seq<Seq<char>> {
    keep_from(spec_lines(err), 0)
}

fn noise_line(l: &Vec<char>) -> (r: bool)
    ensures
        r == is_noise_line(l@),
{
    contains_seq(l, &str_chars("Attempting authentication")) || contains_seq(
        l,
        &str_chars("Authentication failed, attempt"),
    ) || starts_with(l, &str_chars("Warning: Permanently added"))
}

fn filter_noise(ls: &Vec<Vec<char>>) -> (r: Vec<Vec<char>>)
    ensures
        r.deep_view() == keep_from(ls.deep_view(), 0),
{
    let ghost d = ls.deep_view();
    let mut r: Vec<Vec<char>> = Vec::new();
    proof {
        assert(r.deep_view() =~~= Seq::<Seq<char>>::empty());
        assert(Seq::<Seq<char>>::empty() + keep_from(d, 0) =~= keep_from(d, 0));
    }
    let mut i: usize = 0;
    while i < ls.len()
        invariant
            i <= ls@.len(),
            d == ls.deep_view(),
            d.len() == ls@.len(),
            keep_from(d, 0) == r.deep_view() + keep_from(d, i as int),
        decreases ls.len() - i,
    {
        proof {
            assert(d[i as int] == ls@[i as int]@);
        }
        let keep = !noise_line(&ls[i]);
        if keep {
            let ghost prev = r.deep_view();
            let line = ls[i].clone();
            assert(line@ == ls@[i as int]@);
            r.push(line);
            proof {
                assert(r.deep_view() =~~= prev.push(line@));
            }
        }
        proof {
            assert(keep_from(d, 0) =~= r.deep_view() + keep_from(d, i + 1 as int));
        }
        i = i + 1;
    }
    proof {
        assert(r.deep_view() =~= keep_from(d, 0));
    }
    r
}

/// The decision the classifier takes for one pair of captured streams.
pub ghost enum Verdict {
    Connection(Seq<char>),
    Authentication(Seq<char>),
    IO(Seq<char>),
    Output(Seq<char>),
}

/// The full classification rule for captured remote output.
///
/// Noise-filtered stderr is matched case-insensitively against hard
/// transport and authentication phrases, in a fixed order of precedence; a
/// generic `error:`/`fatal:` complaint only counts when stdout is empty;
/// otherwise trimmed stdout is the result, empty or not.
pub open spec fn spec_verdict(out: Seq<char>, err: Seq<char>) -> Verdict {
    let kept = meaningful_stderr(err);
    let low = spec_lower(spec_join_nl(kept));
    if kept.len() > 0 && spec_contains(low, "connection closed"@) {
        Verdict::Connection("Connection closed"@)
    } else if kept.len() > 0 && (spec_contains(low, "connection timed out"@) || spec_contains(
        low,
        "operation timed out"@,
    )) {
        Verdict::Connection("Connection timed out"@)
    } else if kept.len() > 0 && spec_contains(low, "permission denied"@) {
        Verdict::Authentication("Permission denied"@)
    } else if kept.len() > 0 && spec_contains(low, "too many authentication failures"@) {
        Verdict::Authentication("Max authentication attempts reached"@)
    } else if kept.len() > 0 && spec_contains(low, "account is locked"@) {
        Verdict::Authentication("Account is locked"@)
    } else if kept.len() > 0 && spec_contains(low, "connection refused"@) {
        Verdict::Connection("Connection refused"@)
    } else if kept.len() > 0 && (spec_contains(low, "error:"@) || spec_contains(low, "fatal:"@))
        && spec_trim(out).len() == 0 {
        Verdict::IO("SSH command failed: "@ + spec_trim(err))
    } else {
        Verdict::Output(spec_trim(out))
    }
}

/// Classifies one captured (stdout, stderr) pair: the heart of the remote
/// executor.
pub fn process_ssh_output(stdout: &str, stderr: &str) -> (r: Result<String, SSHError>)
    ensures
        match r {
            Ok(s) => spec_verdict(stdout@, stderr@) == Verdict::Output(s@),
            Err(e) => match e {
                SSHError::Connection(m) => spec_verdict(stdout@, stderr@) == Verdict::Connection(
                    m@,
                ),
                SSHError::Authentication(m) => spec_verdict(stdout@, stderr@)
                    == Verdict::Authentication(m@),
                SSHError::IO(m) => spec_verdict(stdout@, stderr@) == Verdict::IO(m@),
                SSHError::DNS(_) => false,
            },
        },
{
    let out = str_chars(stdout);
    let err = str_chars(stderr);
    let err_lines = lines_of(&err);
    let kept = filter_noise(&err_lines);
    let trimmed_out = trim_vec(&out);
    if kept.len() > 0 {
        let joined = join_nl(&kept);
        let low = lower_vec(&joined);
        if contains_seq(&low, &str_chars("connection closed")) {
            return Err(SSHError::Connection(String::from_str("Connection closed")));
        }
        if contains_seq(&low, &str_chars("connection timed out")) || contains_seq(
            &low,
            &str_chars("operation timed out"),
        ) {
            return Err(SSHError::Connection(String::from_str("Connection timed out")));
        }
        if contains_seq(&low, &str_chars("permission denied")) {
            return Err(SSHError::Authentication(String::from_str("Permission denied")));
        }
        if contains_seq(&low, &str_chars("too many authentication failures")) {
            return Err(
                SSHError::Authentication(String::from_str("Max authentication attempts reached")),
            );
        }
        if contains_seq(&low, &str_chars("account is locked")) {
            return Err(SSHError::Authentication(String::from_str("Account is locked")));
        }
        if contains_seq(&low, &str_chars("connection refused")) {
            return Err(SSHError::Connection(String::from_str("Connection refused")));
        }
        if (contains_seq(&low, &str_chars("error:")) || contains_seq(&low, &str_chars("fatal:")))
            && trimmed_out.len() == 0 {
            let trimmed_err = trim_vec(&err);
            let mut msg = str_chars("SSH command failed: ");
            push_all(&mut msg, &trimmed_err);
            return Err(SSHError::IO(chars_string(&msg)));
        }
    }
    Ok(chars_string(&trimmed_out))
}

/// Stderr that is nothing but noise never fails a call: whatever stdout
/// holds, trimmed stdout is returned as the successful result.
pub proof fn lemma_noise_only_stderr_is_success(out: Seq<char>, err: Seq<char>)
    requires
        meaningful_stderr(err).len() == 0,
    ensures
        spec_verdict(out, err) == Verdict::Output(spec_trim(out)),
{
}

/// A "permission denied" phrase in meaningful stderr, with empty stdout and
/// no connection-level phrase taking precedence, is an authentication
/// failure.
pub proof fn lemma_permission_denied_is_auth_failure(out: Seq<char>, err: Seq<char>)
    requires
        spec_trim(out).len() == 0,
        meaningful_stderr(err).len() > 0,
        spec_contains(spec_lower(spec_join_nl(meaningful_stderr(err))), "permission denied"@),
        !spec_contains(spec_lower(spec_join_nl(meaningful_stderr(err))), "connection closed"@),
        !spec_contains(spec_lower(spec_join_nl(meaningful_stderr(err))), "connection timed out"@),
        !spec_contains(spec_lower(spec_join_nl(meaningful_stderr(err))), "operation timed out"@),
    ensures
        spec_verdict(out, err) == Verdict::Authentication("Permission denied"@),
{
}

/// The administrator account remote sessions run under.
pub fn default_ssh_user() -> (r: &'static str)
    ensures
        r@ == "ph-admin"@,
{
    "ph-admin"
}

/// The interaction script for one authenticated session: it spawns the
/// remote shell, answers the password prompt with the credential, and
/// waits for end of stream.  Host keys are accepted unseen — a deliberate
/// trust-on-first-use policy, kept as a known gap rather than silently
/// replaced.  The credential rides in the script text, never in argv or
/// the environment.
pub fn expect_script(user: &str, host: &str, command: &str, credential: &str) -> (r: String)
    ensures
        r@ == "\n        spawn ssh -o StrictHostKeyChecking=no "@ + user@ + "@"@ + host@ + " \""@
            + command@
            + "\"\n        expect {\n            \"assword:\" {\n                send \""@
            + credential@
            + "\\r\"\n                expect {\n                    eof { exit 0 }\n                    timeout { exit 1 }\n                }\n            }\n            eof { exit 1 }\n        }\n        "@,
{
    let mut v: Vec<char> = str_chars("\n        spawn ssh -o StrictHostKeyChecking=no ");
    push_all(&mut v, &str_chars(user));
    push_all(&mut v, &str_chars("@"));
    push_all(&mut v, &str_chars(host));
    push_all(&mut v, &str_chars(" \""));
    push_all(&mut v, &str_chars(command));
    push_all(
        &mut v,
        &str_chars("\"\n        expect {\n            \"assword:\" {\n                send \""),
    );
    push_all(&mut v, &str_chars(credential));
    push_all(
        &mut v,
        &str_chars(
            "\\r\"\n                expect {\n                    eof { exit 0 }\n                    timeout { exit 1 }\n                }\n            }\n            eof { exit 1 }\n        }\n        ",
        ),
    );
    chars_string(&v)
}

/// Vets the output of one remote command run on behalf of a caller: an
/// output that itself announces a dropped connection or denied access is
/// a failure naming command and output, an empty output is a failure, and
/// anything else is handed back as it came.
pub fn vet_command_output(command: &str, output: String) -> (r: Result<String, String>)
    ensures
        ({
            let failed = spec_contains(output@, "Connection timed out"@) || spec_contains(
                output@,
                "Access denied"@,
            );
            match r {
                Ok(s) => !failed && spec_trim(output@).len() > 0 && s@ == output@,
                Err(m) => if failed {
                    m@ == "SSH command failed:\nCommand: "@ + command@ + "\nOutput: "@ + output@
                } else {
                    spec_trim(output@).len() == 0 && m@ == "Command execution returned no output"@
                },
            }
        }),
{
    let out_chars = str_chars(output.as_str());
    if contains_seq(&out_chars, &str_chars("Connection timed out")) || contains_seq(
        &out_chars,
        &str_chars("Access denied"),
    ) {
        let mut m: Vec<char> = str_chars("SSH command failed:\nCommand: ");
        push_all(&mut m, &str_chars(command));
        push_all(&mut m, &str_chars("\nOutput: "));
        push_all(&mut m, &out_chars);
        return Err(chars_string(&m));
    }
    let trimmed = trim_vec(&out_chars);
    if trimmed.len() == 0 {
        return Err(String::from_str("Command execution returned no output"));
    }
    Ok(output)
}

/// Decides whether a cache-clearing run worked: only an output carrying
/// the success marker counts, anything else is a failure naming the
/// output.
pub fn cache_clear_outcome(output: &str) -> (r: Result<String, String>)
    ensures
        match r {
            Ok(s) => spec_contains(output@, "Cache cleared successfully"@) && s@
                == "Cache cleared successfully"@,
            Err(m) => !spec_contains(output@, "Cache cleared successfully"@) && m@
                == "Failed to clear cache: "@ + output@,
        },
{
    let out_chars = str_chars(output);
    if contains_seq(&out_chars, &str_chars("Cache cleared successfully")) {
        Ok(String::from_str("Cache cleared successfully"))
    } else {
        let mut m: Vec<char> = str_chars("Failed to clear cache: ");
        push_all(&mut m, &out_chars);
        Err(chars_string(&m))
    }
}

} // verus!
