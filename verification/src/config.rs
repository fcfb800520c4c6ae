//! External configuration, read-only to the registry: the authorization
//! tokens the transport layer may admit, and the per-kind concurrency
//! limits. A kind with no configured limit is unlimited.

use vstd::prelude::*;

verus! {

/// The limit configured for `name` in `entries`: the entry set most
/// recently (nearest the end) wins, and a kind with no entry is unlimited,
/// reported as `u64::MAX`.
pub open spec fn limit_in(entries: Seq<(String, u64)>, name: Seq<char>) -> u64
    decreases entries.len(),
{
    if entries.len() == 0 {
        u64::MAX
    } else if entries.last().0@ == name {
        entries.last().1
    } else {
        limit_in(entries.drop_last(), name)
    }
}

/// Static configuration, loaded once before the registry is constructed.
pub struct Config {
    /// The authorization tokens requests may carry.
    pub allow_tokens: Vec<String>,
    /// Per-kind concurrency limits; a later entry for a kind overrides an
    /// earlier one, and a kind with no entry is unlimited.
    pub job_limits: Vec<(String, u64)>,
}

impl Config {
    /// Whether `token` is one of the allowed authorization tokens.
    pub open spec fn spec_allows(self, token: Seq<char>) -> bool {
        exists|i: int|
            0 <= i < self.allow_tokens@.len() && self.allow_tokens@[i]@ == token
    }

    /// The configured limit for the kind `name`, `u64::MAX` when none is set.
    pub open spec fn spec_limit(self, name: Seq<char>) -> u64 {
        limit_in(self.job_limits@, name)
    }

    /// A configuration that allows no token and limits no kind.
    pub fn new() -> (r: Config)
        ensures
            r.allow_tokens@.len() == 0,
            r.job_limits@.len() == 0,
    {
        Config { allow_tokens: Vec::new(), job_limits: Vec::new() }
    }

    /// Membership test against the allow-list.
    pub fn contains_token(&self, token: &str) -> (r: bool)
        ensures
            r == self.spec_allows(token@),
    {
        let key: String = token.to_owned();
        let n = self.allow_tokens.len();
        for i in 0..n
            invariant
                n == self.allow_tokens@.len(),
                key@ == token@,
                forall|j: int| 0 <= j < i ==> self.allow_tokens@[j]@ != token@,
        {
            if self.allow_tokens[i] == key {
                return true;
            }
        }
        false
    }

    /// The configured limit for the kind `name`, `u64::MAX` when none is set.
    pub fn limit_of(&self, name: &str) -> (r: u64)
        ensures
            r == self.spec_limit(name@),
    {
        let key: String = name.to_owned();
        let mut current: u64 = u64::MAX;
        let n = self.job_limits.len();
        for i in 0..n
            invariant
                n == self.job_limits@.len(),
                key@ == name@,
                current == limit_in(self.job_limits@.take(i as int), name@),
        {
            proof {
                assert(self.job_limits@.take(i + 1).drop_last() =~= self.job_limits@.take(
                    i as int,
                ));
                assert(self.job_limits@.take(i + 1).last() == self.job_limits@[i as int]);
            }
            if self.job_limits[i].0 == key {
                current = self.job_limits[i].1;
            }
        }
        proof {
            assert(self.job_limits@.take(n as int) =~= self.job_limits@);
        }
        current
    }
}

} // verus!
