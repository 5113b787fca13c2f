//! Concurrent dispatch of one command across many hosts.
//!
//! Each host's run is an independent concurrent unit; the caller hands
//! every completion back with the input slot it belongs to, in whatever
//! order the units finished, and the assembly returns the outcomes in
//! input order.  Timeouts are post-hoc: a unit that exceeded its bound has
//! its result replaced by a timeout outcome after it finished.

use vstd::prelude::*;
use vstd::string::StringExecFns;
use crate::error::{spec_error_message, SSHError};

verus! {

/// Shared per-call timeout for dispatched commands, in seconds.
pub const DISPATCH_TIMEOUT_SECS: u64 = 5;

/// What one host's command run came to: its stdout on success, an error
/// message on failure, never both.
#[derive(Debug)]
pub struct CommandOutcome {
    pub host: String,
    pub stdout: String,
    pub error_message: String,
}

impl CommandOutcome {
    /// An equal copy.
    pub fn duplicate(&self) -> (r: Self)
        ensures
            r == *self,
    {
        CommandOutcome {
            host: self.host.clone(),
            stdout: self.stdout.clone(),
            error_message: self.error_message.clone(),
        }
    }
}

/// Converts one finished unit into its outcome.  A unit that ran past its
/// bound becomes a timeout outcome whatever it returned — the check is
/// post-hoc, not a cancellation.
pub fn outcome_for(host: String, result: &Result<String, SSHError>, timed_out: bool) -> (r:
    CommandOutcome)
    ensures
        r.host@ == host@,
        timed_out ==> r.stdout@.len() == 0 && r.error_message@
            == "Operation timed out after 30 seconds"@,
        !timed_out ==> match result {
            Ok(s) => r.stdout@ == s@ && r.error_message@.len() == 0,
            Err(e) => r.stdout@.len() == 0 && r.error_message@ == spec_error_message(*e),
        },
{
    if timed_out {
        CommandOutcome {
            host,
            stdout: String::new(),
            error_message: String::from_str("Operation timed out after 30 seconds"),
        }
    } else {
        match result {
            Ok(s) => CommandOutcome { host, stdout: s.clone(), error_message: String::new() },
            Err(e) => CommandOutcome { host, stdout: String::new(), error_message: e.message() },
        }
    }
}

/// Whether some completion belongs to input slot `i`.
pub open spec fn covers(completions: Seq<(usize, CommandOutcome)>, i: int) -> bool {
    exists|j: int| 0 <= j < completions.len() && (#[trigger] completions[j]).0 == i
}

/// Whether `o` is the outcome some completion delivered for input slot `i`.
pub open spec fn slot_filled(completions: Seq<(usize, CommandOutcome)>, i: int, o: CommandOutcome) -> bool {
    exists|j: int|
        0 <= j < completions.len() && (#[trigger] completions[j]).0 == i && completions[j].1 == o
}

/// Puts completions back into input order: one outcome per input host,
/// position `i` of the result holding the completion of input `i`,
/// whatever order the units finished in.
pub fn assemble_outcomes(hosts: &Vec<String>, completions: &Vec<(usize, CommandOutcome)>) -> (r:
    Vec<CommandOutcome>)
    requires
        forall|j: int|
            0 <= j < completions@.len() ==> (#[trigger] completions@[j]).0 < hosts@.len(),
        forall|j1: int, j2: int|
            0 <= j1 < j2 < completions@.len() ==> (#[trigger] completions@[j1]).0 != (
            #[trigger] completions@[j2]).0,
        forall|i: int| 0 <= i < hosts@.len() ==> #[trigger] covers(completions@, i),
        forall|j: int|
            0 <= j < completions@.len() ==> (#[trigger] completions@[j]).1.host@ == hosts@[completions@[j].0 as int]@,
    ensures
        r@.len() == hosts@.len(),
        forall|i: int| 0 <= i < r@.len() ==> slot_filled(completions@, i, #[trigger] r@[i]),
        forall|i: int| 0 <= i < r@.len() ==> (#[trigger] r@[i]).host@ == hosts@[i]@,
{
    let n = hosts.len();
    let mut slots: Vec<Option<CommandOutcome>> = Vec::new();
    let mut t: usize = 0;
    while t < n
        invariant
            t <= n,
            slots@.len() == t,
            forall|k: int| 0 <= k < t ==> slots@[k] is None,
        decreases n - t,
    {
        slots.push(None);
        t = t + 1;
    }
    let mut j: usize = 0;
    while j < completions.len()
        invariant
            j <= completions@.len(),
            slots@.len() == n == hosts@.len(),
            forall|jj: int|
                0 <= jj < completions@.len() ==> (#[trigger] completions@[jj]).0 < n,
            forall|t: int|
                #![trigger slots@[t]]
                0 <= t < n ==> match slots@[t] {
                    Some(o) => slot_filled(completions@, t, o),
                    None => true,
                },
            forall|jj: int|
                0 <= jj < j ==> slots@[(#[trigger] completions@[jj]).0 as int] is Some,
        decreases completions.len() - j,
    {
        let idx = completions[j].0;
        let out = completions[j].1.duplicate();
        proof {
            assert(slot_filled(completions@, idx as int, out)) by {
                assert((completions@[j as int]).0 == idx && (completions@[j as int]).1 == out);
            }
        }
        slots.set(idx, Some(out));
        j = j + 1;
    }
    proof {
        assert forall|t: int| #![trigger slots@[t]] 0 <= t < n implies match slots@[t] {
            Some(o) => slot_filled(completions@, t, o),
            None => !covers(completions@, t),
        } by {
            if slots@[t] is None && covers(completions@, t) {
                let jj = choose|jj: int|
                    0 <= jj < completions@.len() && (#[trigger] completions@[jj]).0 == t;
                assert(slots@[completions@[jj].0 as int] is Some);
            }
        }
    }
    let mut r: Vec<CommandOutcome> = Vec::new();
    let mut i: usize = 0;
    while i < n
        invariant
            i <= n,
            slots@.len() == n == hosts@.len(),
            r@.len() == i,
            forall|t: int|
                #![trigger slots@[t]]
                0 <= t < n ==> match slots@[t] {
                    Some(o) => slot_filled(completions@, t, o),
                    None => !covers(completions@, t),
                },
            forall|t: int| 0 <= t < n ==> #[trigger] covers(completions@, t),
            forall|t: int| 0 <= t < i ==> slot_filled(completions@, t, #[trigger] r@[t]),
        decreases n - i,
    {
        match &slots[i] {
            Some(o) => {
                r.push(o.duplicate());
                proof {
                    assert(slot_filled(completions@, i as int, r@[i as int]));
                }
            },
            None => {
                proof {
                    assert(covers(completions@, i as int));
                    assert(false);
                }
            },
        }
        i = i + 1;
    }
    proof {
        assert forall|i: int| 0 <= i < r@.len() implies (#[trigger] r@[i]).host@ == hosts@[i]@ by {
            assert(slot_filled(completions@, i, r@[i]));
            let jj = choose|j: int|
                0 <= j < completions@.len() && (#[trigger] completions@[j]).0 == i && completions@[j].1
                    == r@[i];
            assert(completions@[jj].1.host@ == hosts@[completions@[jj].0 as int]@);
        }
    }
    r
}

/// The shared progress counter of one dispatch: completions never exceed
/// the number of units launched.
pub struct ProgressCounter {
    pub completed: usize,
    pub total: usize,
}

impl ProgressCounter {
    pub open spec fn wf(&self) -> bool {
        self.completed <= self.total
    }

    pub fn new(total: usize) -> (r: Self)
        ensures
            r.wf(),
            r.completed == 0,
            r.total == total,
    {
        ProgressCounter { completed: 0, total }
    }

    /// Counts one finished unit.
    pub fn record_completion(&mut self)
        requires
            old(self).wf(),
            old(self).completed < old(self).total,
        ensures
            final(self).wf(),
            final(self).completed == old(self).completed + 1,
            final(self).total == old(self).total,
    {
        self.completed = self.completed + 1;
    }
}

} // verus!
