//! Credential policy.
//!
//! The credential comes from the caller's environment lookup.  A missing
//! credential fails loudly: there is no baked-in fallback, by design.
//! Logs only ever see the masked form.

use vstd::prelude::*;
use vstd::string::StringExecFns;
use crate::text::{chars_string, str_chars, subvec};

verus! {

/// Turns the environment lookup into the credential: present means used
/// as is, absent means a loud failure, never a default.
pub fn credential_from_env(value: Option<String>) -> (r: Result<String, String>)
    ensures
        match value {
            Some(v) => r matches Ok(c) && c@ == v@,
            None => r matches Err(m) && m@ == "SSH_PASSWORD is not set"@,
        },
{
    match value {
        Some(v) => Ok(v),
        None => Err(String::from_str("SSH_PASSWORD is not set")),
    }
}

/// The loggable form of a credential: all but the last four characters
/// replaced by stars; a credential of four characters or fewer shows as
/// it is, star-free prefixes being empty.
pub open spec fn spec_masked(p: Seq<char>) -> Seq<char> {
    let keep = if p.len() <= 4 {
        p.len() as int
    } else {
        4
    };
    Seq::new((p.len() - keep) as nat, |i: int| '*') + p.subrange(p.len() - keep, p.len() as int)
}

pub fn mask_credential(p: &str) -> (r: String)
    ensures
        r@ == spec_masked(p@),
{
    let chars = str_chars(p);
    let n = chars.len();
    let keep: usize = if n <= 4 {
        n
    } else {
        4
    };
    let mut v: Vec<char> = Vec::new();
    let stars: usize = n - keep;
    let mut i: usize = 0;
    while i < stars
        invariant
            i <= stars,
            v@ =~= Seq::new(i as nat, |k: int| '*'),
        decreases stars - i,
    {
        v.push('*');
        proof {
            assert(v@ =~= Seq::new((i + 1) as nat, |k: int| '*'));
        }
        i = i + 1;
    }
    let tail = subvec(&chars, stars, n);
    crate::text::push_all(&mut v, &tail);
    proof {
        assert(v@ =~= spec_masked(p@));
    }
    chars_string(&v)
}

} // verus!
