//! Host discovery: shared scan state, the advertisement-stream machine, and
//! the retry policy around one scan.
//!
//! The caller owns the process plumbing: it spawns the enumeration helper,
//! reads its lines, sleeps, and kills the child.  Everything the scan
//! decides — when a line yields a host, when the state flips, when a retry
//! is due — is decided here.

use vstd::prelude::*;
use vstd::string::StringExecFns;
use crate::text::{
    contains_seq, ends_with, fields_of, push_all, spec_contains, spec_ends_with, spec_fields,
    str_chars, chars_string,
};

verus! {

/// Attempt cap for the discovery retry loop.
pub const MAX_RETRY_ATTEMPTS: u32 = 3;

/// Wall-clock bound on one scan, in seconds.
pub const INITIAL_SCAN_TIMEOUT_SECS: u64 = 15;

/// Hard cap on lines examined in one scan, against a runaway stream.
pub const MAX_SCAN_LINES: usize = 100;

/// Overall deadline for the whole scanning task, in seconds.
pub const OVERALL_SCAN_TIMEOUT_SECS: u64 = 30;

/// Warm-up delay before a scan attempt, covering daemon cold-start.
pub const SCAN_WARMUP_SECS: u64 = 2;

/// Shared discovery state.  Mutated under the caller's lock; every method
/// preserves well-formedness, so every observable snapshot satisfies it.
pub struct ScanState {
    pub in_progress: bool,
    pub discovered_hosts: Vec<String>,
    pub scan_completed: bool,
}

/// A snapshot handed to pollers: the hosts found so far and whether the
/// scan has finished.  Immutable once constructed.
pub struct DiscoveryResult {
    pub hosts: Vec<String>,
    pub scan_complete: bool,
}

impl ScanState {
    /// The hosts as sequences of characters.
    pub open spec fn spec_hosts(&self) -> Seq<Seq<char>> {
        self.discovered_hosts.deep_view()
    }

    /// Well-formedness: a completed scan is no longer in progress, completion
    /// implies at least one host, and no hostname appears twice.
    pub open spec fn wf(&self) -> bool {
        &&& self.scan_completed ==> !self.in_progress
        &&& self.scan_completed ==> self.spec_hosts().len() > 0
        &&& forall|i: int, j: int|
            0 <= i < j < self.spec_hosts().len() ==> self.spec_hosts()[i] != self.spec_hosts()[j]
    }

    /// A fresh state: idle, empty, not completed.
    pub fn new() -> (r: Self)
        ensures
            r.wf(),
            !r.in_progress,
            !r.scan_completed,
            r.spec_hosts() == Seq::<Seq<char>>::empty(),
    {
        let r = ScanState { in_progress: false, discovered_hosts: Vec::new(), scan_completed: false };
        proof {
            assert(r.spec_hosts() =~~= Seq::<Seq<char>>::empty());
        }
        r
    }

    /// Whether a poll must start a scan: nothing found yet and none running.
    pub fn need_scan(&self) -> (r: bool)
        ensures
            r == (self.spec_hosts().len() == 0 && !self.in_progress),
    {
        self.discovered_hosts.len() == 0 && !self.in_progress
    }

    /// Marks the scan as running.  Only a state with no hosts and no running
    /// scan may start one, which keeps at most one scan in progress.
    pub fn begin_scan(&mut self)
        requires
            old(self).wf(),
            old(self).spec_hosts().len() == 0,
            !old(self).in_progress,
        ensures
            final(self).wf(),
            final(self).in_progress,
            !final(self).scan_completed,
            final(self).spec_hosts() == old(self).spec_hosts(),
    {
        self.in_progress = true;
    }

    /// Adds a discovered host unless it is already present, keeping
    /// discovery order and ruling out duplicates.
    pub fn record_host(&mut self, host: String)
        requires
            old(self).wf(),
        ensures
            final(self).wf(),
            final(self).in_progress == old(self).in_progress,
            final(self).scan_completed == old(self).scan_completed,
            old(self).spec_hosts().contains(host@) ==> final(self).spec_hosts() == old(
                self,
            ).spec_hosts(),
            !old(self).spec_hosts().contains(host@) ==> final(self).spec_hosts() == old(
                self,
            ).spec_hosts().push(host@),
    {
        let ghost hs = self.spec_hosts();
        let mut i: usize = 0;
        let mut found = false;
        while i < self.discovered_hosts.len()
            invariant
                hs == self.spec_hosts(),
                i <= hs.len(),
                hs.len() == self.discovered_hosts@.len(),
                found ==> hs.contains(host@),
                !found ==> forall|j: int| 0 <= j < i ==> hs[j] != host@,
            decreases self.discovered_hosts.len() - i,
        {
            if !found && self.discovered_hosts[i].eq(&host) {
                found = true;
                proof {
                    assert(hs[i as int] == host@);
                }
            }
            i = i + 1;
        }
        if !found {
            proof {
                assert(!hs.contains(host@)) by {
                    if hs.contains(host@) {
                        let j = choose|j: int| 0 <= j < hs.len() && hs[j] == host@;
                        assert(hs[j] != host@);
                    }
                }
            }
            let ghost prev = self.spec_hosts();
            self.discovered_hosts.push(host);
            proof {
                assert(self.spec_hosts() =~~= prev.push(host@));
            }
        }
    }

    /// Ends the scan: clears the running flag and marks completion exactly
    /// when at least one host was found.
    pub fn finish_scan(&mut self)
        requires
            old(self).wf(),
        ensures
            final(self).wf(),
            !final(self).in_progress,
            final(self).spec_hosts() == old(self).spec_hosts(),
            final(self).scan_completed == (old(self).scan_completed || old(
                self,
            ).spec_hosts().len() > 0),
    {
        self.in_progress = false;
        if self.discovered_hosts.len() > 0 {
            self.scan_completed = true;
        }
    }

    /// A snapshot copy for pollers; the live state stays behind the lock.
    pub fn snapshot(&self) -> (r: DiscoveryResult)
        requires
            self.wf(),
        ensures
            r.hosts.deep_view() == self.spec_hosts(),
            r.scan_complete == self.scan_completed,
    {
        let mut hosts: Vec<String> = Vec::new();
        proof {
            assert(hosts.deep_view() =~~= self.spec_hosts().take(0));
        }
        let mut i: usize = 0;
        while i < self.discovered_hosts.len()
            invariant
                i <= self.discovered_hosts@.len(),
                self.discovered_hosts@.len() == self.spec_hosts().len(),
                hosts.deep_view() == self.spec_hosts().take(i as int),
            decreases self.discovered_hosts.len() - i,
        {
            let ghost prev = hosts.deep_view();
            hosts.push(self.discovered_hosts[i].clone());
            proof {
                assert(hosts.deep_view() =~~= prev.push(self.spec_hosts()[i as int]));
                assert(self.spec_hosts().take(i + 1 as int) =~= self.spec_hosts().take(
                    i as int,
                ).push(self.spec_hosts()[i as int]));
            }
            i = i + 1;
        }
        proof {
            assert(self.spec_hosts().take(self.spec_hosts().len() as int) =~= self.spec_hosts());
        }
        DiscoveryResult { hosts, scan_complete: self.scan_completed }
    }
}

/// A completed scan is never still in progress, at every observable
/// snapshot of a well-formed state.
pub proof fn lemma_completed_scan_not_in_progress(s: &ScanState)
    requires
        s.wf(),
    ensures
        s.scan_completed ==> !s.in_progress,
{
}

/// The discovered-host list of a well-formed state never holds the same
/// hostname twice, however many discovery events were recorded.
pub proof fn lemma_no_duplicate_hosts(s: &ScanState, i: int, j: int)
    requires
        s.wf(),
        0 <= i < j < s.spec_hosts().len(),
    ensures
        s.spec_hosts()[i] != s.spec_hosts()[j],
{
}

/// The host a service-advertisement line yields, if any: the line must
/// announce an added service in the local domain; its last
/// whitespace-delimited token, with one trailing `.local` suffix removed
/// and the normalized suffix re-appended, is the host, provided the bare
/// name is non-empty.
pub open spec fn spec_extract_host(line: Seq<char>) -> Option<Seq<char>> {
    if spec_contains(line, "Add"@) && spec_contains(line, "local."@) && spec_fields(line).len()
        > 0 {
        let tok = spec_fields(line)[spec_fields(line).len() - 1];
        let base = if spec_ends_with(tok, ".local"@) {
            tok.subrange(0, tok.len() - ".local"@.len())
        } else {
            tok
        };
        if base.len() > 0 {
            Some(base + ".local"@)
        } else {
            None
        }
    } else {
        None
    }
}

/// The line-stream machine of one scan: lines before the header are
/// ignored; after it, advertisement lines yield hosts.
pub struct ScanMachine {
    pub found_header: bool,
    pub found_hosts: bool,
    pub scanned_lines: usize,
}

impl ScanMachine {
    pub fn new() -> (r: Self)
        ensures
            !r.found_header,
            !r.found_hosts,
            r.scanned_lines == 0,
    {
        ScanMachine { found_header: false, found_hosts: false, scanned_lines: 0 }
    }

    /// Whether the anti-runaway cap on examined lines has been reached.
    pub fn line_cap_reached(&self) -> (r: bool)
        ensures
            r == (self.scanned_lines >= MAX_SCAN_LINES),
    {
        self.scanned_lines >= MAX_SCAN_LINES
    }

    /// Feeds one line to the machine and returns the host it yields, if
    /// any.  Before the header only a header marker changes anything; after
    /// it, advertisement lines are parsed.
    pub fn process_line(&mut self, line: &Vec<char>) -> (r: Option<String>)
        requires
            old(self).scanned_lines < MAX_SCAN_LINES,
        ensures
            final(self).scanned_lines == old(self).scanned_lines + 1,
            final(self).found_header == (old(self).found_header || spec_contains(
                line@,
                "Timestamp"@,
            )),
            !old(self).found_header ==> r is None && final(self).found_hosts == old(
                self,
            ).found_hosts,
            old(self).found_header ==> match r {
                Some(h) => spec_extract_host(line@) == Some(h@) && final(self).found_hosts,
                None => spec_extract_host(line@) is None && final(self).found_hosts == old(
                    self,
                ).found_hosts,
            },
    {
        self.scanned_lines = self.scanned_lines + 1;
        if !self.found_header {
            if contains_seq(line, &str_chars("Timestamp")) {
                self.found_header = true;
            }
            return None;
        }
        if contains_seq(line, &str_chars("Add")) && contains_seq(line, &str_chars("local.")) {
            let fields = fields_of(line);
            if fields.len() > 0 {
                let tok = &fields[fields.len() - 1];
                proof {
                    assert(tok@ == spec_fields(line@)[spec_fields(line@).len() - 1]);
                }
                let suffix = str_chars(".local");
                let base = if ends_with(tok, &suffix) {
                    crate::text::subvec(tok, 0, tok.len() - suffix.len())
                } else {
                    tok.clone()
                };
                if base.len() > 0 {
                    let mut host = base;
                    push_all(&mut host, &suffix);
                    self.found_hosts = true;
                    return Some(chars_string(&host));
                }
            }
        }
        None
    }

    /// The verdict of one finished scan: failing to find a single host is
    /// the only failure.
    pub fn outcome(&self) -> (r: Result<(), String>)
        ensures
            match r {
                Ok(()) => self.found_hosts,
                Err(m) => !self.found_hosts && m@ == "No hosts found on network"@,
            },
    {
        if self.found_hosts {
            Ok(())
        } else {
            Err(String::from_str("No hosts found on network"))
        }
    }
}

/// The retry policy around scan attempts: a fixed attempt cap, a warm-up
/// delay before the first attempt, linear backoff after a failed one, and
/// success as soon as any attempt succeeds.
pub struct RetryPolicy {
    pub attempts_made: u32,
    pub any_success: bool,
}

impl RetryPolicy {
    pub fn new() -> (r: Self)
        ensures
            r.attempts_made == 0,
            !r.any_success,
    {
        RetryPolicy { attempts_made: 0, any_success: false }
    }

    /// Whether another attempt is due: none has succeeded and the cap is
    /// not reached.
    pub fn more_attempts(&self) -> (r: bool)
        ensures
            r == (!self.any_success && self.attempts_made < MAX_RETRY_ATTEMPTS),
    {
        !self.any_success && self.attempts_made < MAX_RETRY_ATTEMPTS
    }

    /// Seconds to wait before running the next attempt: a warm-up for the
    /// very first one, covering daemon cold-start.
    pub fn warmup_delay(&self) -> (r: u64)
        ensures
            r == if self.attempts_made == 0 {
                SCAN_WARMUP_SECS as u64
            } else {
                0u64
            },
    {
        if self.attempts_made == 0 {
            SCAN_WARMUP_SECS
        } else {
            0
        }
    }

    /// Records the outcome of one attempt.
    pub fn record_attempt(&mut self, success: bool)
        requires
            old(self).attempts_made < MAX_RETRY_ATTEMPTS,
        ensures
            final(self).attempts_made == old(self).attempts_made + 1,
            final(self).any_success == (old(self).any_success || success),
    {
        self.attempts_made = self.attempts_made + 1;
        if success {
            self.any_success = true;
        }
    }

    /// Seconds to sleep before the next attempt after a failed one: linear
    /// in the number of attempts already made.
    pub fn backoff_delay(&self) -> (r: u64)
        ensures
            r == self.attempts_made as u64,
    {
        self.attempts_made as u64
    }

    /// The aggregate verdict once no more attempts are due.
    pub fn verdict(&self) -> (r: Result<(), String>)
        ensures
            match r {
                Ok(()) => self.any_success,
                Err(m) => !self.any_success && m@ == "DNS-SD scan failed after 3 attempts"@,
            },
    {
        if self.any_success {
            Ok(())
        } else {
            Err(String::from_str("DNS-SD scan failed after 3 attempts"))
        }
    }
}

} // verus!
