//! The worker registry: the single source of truth for in-flight background
//! jobs. It allocates handles, keeps one record per live job, translates a
//! job's one-shot result channel into the polling protocol, and supports
//! forced removal of work that never reports back.
//!
//! The registry is meant to be shared behind one mutual-exclusion lock held
//! for the whole of each operation; every operation here is non-blocking
//! (it never waits on a job, it only performs an instantaneous check of the
//! job's channel), which keeps such critical sections short.

use vstd::prelude::*;
use vstd::string::StringExecFns;
use std::sync::mpsc::Receiver;
use std::time::SystemTime;
use crate::config::Config;
use crate::polling::PollingError;
use crate::polling::PollingState;
use crate::trusted::ChannelRead;
use crate::trusted::snapshot_line;
use crate::trusted::system_now;
use crate::trusted::try_recv_value;

verus! {

/// Per-job bookkeeping: the display name (the job's kind, used for
/// concurrency accounting), a key identifying the job's background
/// execution unit (kept so that forced removal can report which unit to
/// terminate), the receiving end of the job's one-shot result channel,
/// and timestamps. `last_query` is refreshed on every successful poll;
/// it is recorded but never otherwise acted upon.
pub struct WorkerProp {
    pub name: String,
    pub unit: u64,
    pub receiver: Receiver<serde_json::Value>,
    pub create_time: SystemTime,
    pub last_query: SystemTime,
}

impl WorkerProp {
    /// A fresh record for a just-spawned job: the clock is read once and
    /// both timestamps start equal to that "now".
    pub fn new(name: String, unit: u64, receiver: Receiver<serde_json::Value>) -> (r:
        WorkerProp)
        ensures
            r.name == name,
            r.unit == unit,
            r.receiver == receiver,
            r.create_time == r.last_query,
    {
        let now = system_now();
        WorkerProp { name, unit, receiver, create_time: now, last_query: now }
    }
}

/// Fixes the polling outcome owed for each possible read of a job's result
/// channel: a received value is the job's completion and is returned as
/// `Done`, an empty channel is a still-running job (`Pending`), and a
/// dropped sender is a job that ended without reporting
/// (`Error(Disconnected)`).
pub fn outcome_of_read(read: ChannelRead) -> (r: PollingState)
    ensures
        read matches ChannelRead::Received(v) ==> r == PollingState::Done(v),
        read is Empty ==> r == PollingState::Pending,
        read is Disconnected ==> r == PollingState::Error(PollingError::Disconnected),
{
    match read {
        ChannelRead::Received(value) => PollingState::Done(value),
        ChannelRead::Empty => PollingState::Pending,
        ChannelRead::Disconnected => PollingState::Error(PollingError::Disconnected),
    }
}

/// No two records share a handle.
pub open spec fn unique_keys(jobs: Seq<(u64, WorkerProp)>) -> bool {
    forall|i: int, j: int|
        0 <= i < j < jobs.len() ==> (#[trigger] jobs[i]).0 != (#[trigger] jobs[j]).0
}

/// Some record is registered under `key`.
pub open spec fn has_key(jobs: Seq<(u64, WorkerProp)>, key: u64) -> bool {
    exists|i: int| 0 <= i < jobs.len() && (#[trigger] jobs[i]).0 == key
}

/// The position of the record registered under `key` (the position, once
/// `unique_keys` holds and `key` is present).
pub open spec fn index_of_key(jobs: Seq<(u64, WorkerProp)>, key: u64) -> int {
    choose|i: int| 0 <= i < jobs.len() && (#[trigger] jobs[i]).0 == key
}

/// Every registered handle lies below `bound`: handles are issued from a
/// counter, so every live handle is below the counter's next value.
pub open spec fn keys_below(jobs: Seq<(u64, WorkerProp)>, bound: u64) -> bool {
    forall|i: int| 0 <= i < jobs.len() ==> (#[trigger] jobs[i]).0 < bound
}

/// How many registered records carry the display name `name`.
pub open spec fn count_matching(jobs: Seq<(u64, WorkerProp)>, name: Seq<char>) -> nat
    decreases jobs.len(),
{
    if jobs.len() == 0 {
        0
    } else {
        count_matching(jobs.drop_last(), name) + if jobs.last().1.name@ == name {
            1nat
        } else {
            0nat
        }
    }
}

/// The two records describe the same job: everything but the last-poll
/// timestamp agrees.
pub open spec fn same_job(a: WorkerProp, b: WorkerProp) -> bool {
    &&& a.name == b.name
    &&& a.unit == b.unit
    &&& a.receiver == b.receiver
    &&& a.create_time == b.create_time
}

/// The worker registry: a map from handle to job record (kept as a vector
/// of pairs with pairwise-distinct keys), the handle counter, and the
/// static configuration it was constructed with.
///
/// Exactly one registry should exist per process; the surrounding program
/// is responsible for constructing it once at startup and sharing it
/// behind a single lock.
pub struct ServState {
    workers: Vec<(u64, WorkerProp)>,
    config: Config,
    next_token: u64,
}

impl ServState {
    /// The registered jobs, as a sequence of handle/record pairs.
    pub closed spec fn jobs(&self) -> Seq<(u64, WorkerProp)> {
        self.workers@
    }

    /// The handle the next enqueue will issue.
    pub closed spec fn next_handle(&self) -> u64 {
        self.next_token
    }

    /// The configuration the registry was constructed with.
    pub closed spec fn config(&self) -> Config {
        self.config
    }

    /// Well-formedness: handles are pairwise distinct, and every live
    /// handle was issued by the counter (lies below its next value).
    pub closed spec fn wf(&self) -> bool {
        &&& unique_keys(self.workers@)
        &&& keys_below(self.workers@, self.next_token)
    }

    /// What well-formedness says about the observable state.
    pub proof fn lemma_wf(&self)
        requires
            self.wf(),
        ensures
            unique_keys(self.jobs()),
            keys_below(self.jobs(), self.next_handle()),
    {
    }

    /// How one `enqueue` call changes the registry: the new record is
    /// registered under the counter's value, which is returned as the
    /// job's handle, and the counter advances by exactly one.
    pub open spec fn enqueue_transition(
        pre: ServState,
        post: ServState,
        prop: WorkerProp,
        r: PollingState,
    ) -> bool {
        &&& r == PollingState::Started(pre.next_handle())
        &&& post.jobs() == pre.jobs().push((pre.next_handle(), prop))
        &&& post.next_handle() == pre.next_handle() + 1
        &&& post.config() == pre.config()
    }

    /// How one `get` (poll) call changes the registry. An absent handle is
    /// reported as `NotExist` and nothing changes. A present handle yields
    /// one non-blocking read of the job's channel: a received value is
    /// returned as `Done` and the record is erased (completion is observed
    /// at most once); otherwise the job is reported `Pending` or
    /// `Disconnected` and the record stays, unchanged but for its last-poll
    /// timestamp. A disconnected record is deliberately left in place,
    /// unlike a completed one.
    pub open spec fn get_transition(
        pre: ServState,
        post: ServState,
        token: u64,
        r: PollingState,
    ) -> bool {
        &&& post.next_handle() == pre.next_handle()
        &&& post.config() == pre.config()
        &&& !has_key(pre.jobs(), token) ==> {
            &&& r == PollingState::Error(PollingError::NotExist)
            &&& post.jobs() == pre.jobs()
        }
        &&& has_key(pre.jobs(), token) ==> {
            let i = index_of_key(pre.jobs(), token);
            &&& (r is Done || r == PollingState::Pending || r == PollingState::Error(
                PollingError::Disconnected,
            ))
            &&& r is Done ==> {
                &&& post.jobs() == pre.jobs().remove(i)
                &&& !has_key(post.jobs(), token)
            }
            &&& (r == PollingState::Pending || r == PollingState::Error(
                PollingError::Disconnected,
            )) ==> {
                &&& post.jobs().len() == pre.jobs().len()
                &&& post.jobs()[i].0 == token
                &&& same_job(pre.jobs()[i].1, post.jobs()[i].1)
                &&& forall|j: int|
                    0 <= j < pre.jobs().len() && j != i ==> post.jobs()[j] == pre.jobs()[j]
            }
        }
    }

    /// How one `remove` call changes the registry: a present handle's
    /// record is erased and the key of its execution unit is handed back
    /// so that the caller can issue the forced termination; an absent
    /// handle is reported as `NotExist` and nothing changes.
    pub open spec fn remove_transition(
        pre: ServState,
        post: ServState,
        token: u64,
        r: PollingState,
        unit: Option<u64>,
    ) -> bool {
        &&& post.next_handle() == pre.next_handle()
        &&& post.config() == pre.config()
        &&& !has_key(pre.jobs(), token) ==> {
            &&& r == PollingState::Error(PollingError::NotExist)
            &&& unit is None
            &&& post.jobs() == pre.jobs()
        }
        &&& has_key(pre.jobs(), token) ==> {
            let i = index_of_key(pre.jobs(), token);
            &&& r == PollingState::Removed
            &&& unit == Some(pre.jobs()[i].1.unit)
            &&& post.jobs() == pre.jobs().remove(i)
            &&& !has_key(post.jobs(), token)
        }
    }

    /// An empty registry over the given configuration, with the handle
    /// counter at zero.
    pub fn new(config: Config) -> (r: ServState)
        ensures
            r.wf(),
            r.jobs().len() == 0,
            r.next_handle() == 0,
            r.config() == config,
    {
        ServState { workers: Vec::new(), config, next_token: 0 }
    }

    /// Where `token`'s record sits in the vector, if anywhere.
    fn find_index(&self, token: u64) -> (r: Option<usize>)
        ensures
            match r {
                Some(i) => i < self.jobs().len() && self.jobs()[i as int].0 == token,
                None => !has_key(self.jobs(), token),
            },
    {
        let n = self.workers.len();
        for i in 0..n
            invariant
                n == self.workers@.len(),
                forall|j: int| 0 <= j < i ==> (#[trigger] self.workers@[j]).0 != token,
        {
            if self.workers[i].0 == token {
                return Some(i);
            }
        }
        None
    }

    /// Registers the record, issuing the next handle for it. The returned
    /// handle is fresh: no live record is registered under it.
    ///
    /// The counter's wrap at the end of the 64-bit handle space is an
    /// accepted limit of the design, not reached in any real run; below
    /// the wrap, issued handles are strictly increasing.
    pub fn enqueue(&mut self, prop: WorkerProp) -> (r: PollingState)
        requires
            old(self).wf(),
            old(self).next_handle() < u64::MAX,
        ensures
            final(self).wf(),
            Self::enqueue_transition(*old(self), *final(self), prop, r),
            !has_key(old(self).jobs(), old(self).next_handle()),
    {
        let token = self.next_token;
        self.next_token = token + 1;
        self.workers.push((token, prop));
        proof {
            let pre = old(self).workers@;
            let post = self.workers@;
            assert forall|i: int| 0 <= i < pre.len() implies (#[trigger] pre[i]).0
                != token by {
                assert(pre[i].0 < token);
            }
            assert(!has_key(pre, token));
            assert forall|i: int, j: int| 0 <= i < j < post.len() implies (
            #[trigger] post[i]).0 != (#[trigger] post[j]).0 by {
                if j < post.len() - 1 {
                    assert(pre[i].0 != pre[j].0);
                } else {
                    assert(pre[i].0 < token);
                }
            }
            assert forall|i: int| 0 <= i < post.len() implies (#[trigger] post[i]).0 < self.next_token by {
                if i < post.len() - 1 {
                    assert(pre[i].0 < token);
                }
            }
        }
        PollingState::Started(token)
    }

    /// One poll of `token`: looks the record up, refreshes its last-poll
    /// timestamp, and performs one non-blocking read of the job's result
    /// channel. A received value is returned as `Done` and the record is
    /// erased, so completion is observed at most once; a job that has sent
    /// nothing yet is `Pending`; a job whose execution unit ended without
    /// sending is reported as `Error(Disconnected)` and its record stays.
    pub fn get(&mut self, token: u64) -> (r: PollingState)
        requires
            old(self).wf(),
        ensures
            final(self).wf(),
            Self::get_transition(*old(self), *final(self), token, r),
    {
        let found = self.find_index(token);
        match found {
            None => PollingState::Error(PollingError::NotExist),
            Some(i) => {
                proof {
                    lemma_index_of_key(old(self).jobs(), token, i as int);
                }
                let (key, mut prop) = self.workers.remove(i);
                prop.last_query = system_now();
                let read = try_recv_value(&prop.receiver);
                let state = outcome_of_read(read);
                if matches!(state, PollingState::Done(_)) {
                    // Completion is observed exactly here: the record stays
                    // erased, so it cannot be observed again.
                    proof {
                        lemma_remove_key(old(self).workers@, i as int, old(self).next_token);
                    }
                } else {
                    self.workers.insert(i, (key, prop));
                    proof {
                        lemma_put_back(
                            old(self).workers@,
                            i as int,
                            (key, prop),
                            old(self).next_token,
                        );
                    }
                }
                state
            },
        }
    }

    /// Forced removal of `token`'s job: the record is erased at once and
    /// the key of the job's execution unit is returned, against which the
    /// caller is to issue the forced termination. The call never waits for
    /// the job to reach a safe point — forced termination halts the unit
    /// wherever it stands, with no cleanup guarantee, a hazard the caller
    /// accepts. An absent handle is reported as `Error(NotExist)`.
    pub fn remove(&mut self, token: u64) -> (r: (PollingState, Option<u64>))
        requires
            old(self).wf(),
        ensures
            final(self).wf(),
            Self::remove_transition(*old(self), *final(self), token, r.0, r.1),
    {
        let found = self.find_index(token);
        match found {
            None => (PollingState::Error(PollingError::NotExist), None),
            Some(i) => {
                proof {
                    lemma_index_of_key(old(self).jobs(), token, i as int);
                }
                let (_key, prop) = self.workers.remove(i);
                proof {
                    lemma_remove_key(old(self).workers@, i as int, old(self).next_token);
                }
                (PollingState::Removed, Some(prop.unit))
            },
        }
    }

    /// Membership test of `token` against the configured allow-list.
    pub fn verify_token(&self, token: &str) -> (r: bool)
        ensures
            r == self.config().spec_allows(token@),
    {
        self.config.contains_token(token)
    }

    /// How many live jobs carry the kind name `name`. Every record is
    /// inspected exactly once, so no record is double-counted.
    pub fn job_num(&self, name: &str) -> (r: u64)
        ensures
            r == count_matching(self.jobs(), name@),
    {
        let key: String = name.to_owned();
        let mut count: usize = 0;
        let n = self.workers.len();
        for i in 0..n
            invariant
                n == self.workers@.len(),
                key@ == name@,
                count <= i,
                count == count_matching(self.workers@.take(i as int), name@),
        {
            proof {
                assert(self.workers@.take(i + 1).drop_last() =~= self.workers@.take(i as int));
                assert(self.workers@.take(i + 1).last() == self.workers@[i as int]);
            }
            if self.workers[i].1.name == key {
                count += 1;
            }
        }
        proof {
            assert(self.workers@.take(n as int) =~= self.workers@);
        }
        count as u64
    }

    /// The configured concurrency limit for the kind `name`; a kind with
    /// no configured limit is unlimited, reported as `u64::MAX`.
    pub fn job_limit(&self, name: &str) -> (r: u64)
        ensures
            r == self.config().spec_limit(name@),
    {
        self.config.limit_of(name)
    }

    /// Whether a new job of kind `name` may be admitted: true exactly when
    /// the live count of that kind is below its limit. This check is
    /// advisory: it is a separate call from `enqueue`, so two concurrent
    /// admission checks under different lock acquisitions can both pass
    /// and jointly exceed the limit. A caller needing a hard cap must
    /// check and enqueue under one critical section.
    pub fn job_available(&self, name: &str) -> (r: bool)
        ensures
            r == (count_matching(self.jobs(), name@) < self.config().spec_limit(name@)),
    {
        let num = self.job_num(name);
        let limit = self.job_limit(name);
        num < limit
    }

    /// A free-form diagnostic dump of the registry, one line per live job,
    /// for operational inspection; the text is not a stable format and
    /// nothing is promised of it.
    ///
    /// **Caution**: each line reports one non-blocking read of that job's
    /// result channel — the same consuming read that `get` performs. A
    /// value a job had already sent is swallowed by this dump, and a later
    /// poll of that job will observe `Pending` forever. This is a
    /// deliberate (if dangerous) debug affordance: use it knowing that
    /// inspecting the registry can consume a job's only result message.
    pub fn debug_info(&self) -> (r: String)
        ensures
            r@.len() >= self.jobs().len(),
            self.jobs().len() == 0 ==> r@.len() == 0,
    {
        let mut out = String::new();
        let n = self.workers.len();
        for i in 0..n
            invariant
                n == self.workers@.len(),
                out@.len() >= i,
                i == 0 ==> out@.len() == 0,
        {
            let read = try_recv_value(&self.workers[i].1.receiver);
            let line = snapshot_line(self.workers[i].0, &self.workers[i].1.name, &read);
            out.append(line.as_str());
        }
        out
    }

    /// Whether the handle counter still has room below the wrap of the
    /// 64-bit handle space. `enqueue` is specified below the wrap (an
    /// accepted limit of the design, unreachable in any real run), so a
    /// caller tests this before enqueuing.
    pub fn can_enqueue(&self) -> (r: bool)
        ensures
            r == (self.next_handle() < u64::MAX),
    {
        self.next_token < u64::MAX
    }
}

/// Law: handles issued by consecutive enqueues are strictly increasing,
/// hence pairwise distinct; with no enqueue in between, the counter
/// advances by exactly one. (The counter's wrap at the end of the 64-bit
/// handle space is an accepted limit; `enqueue` is specified below it.)
pub proof fn lemma_handles_strictly_increase(
    s0: ServState,
    s1: ServState,
    s2: ServState,
    p1: WorkerProp,
    p2: WorkerProp,
    r1: PollingState,
    r2: PollingState,
    h1: u64,
    h2: u64,
)
    requires
        ServState::enqueue_transition(s0, s1, p1, r1),
        ServState::enqueue_transition(s1, s2, p2, r2),
        r1 == PollingState::Started(h1),
        r2 == PollingState::Started(h2),
    ensures
        h1 < h2,
        h2 == h1 + 1,
{
}

/// Law: for any kind name, the count of live jobs of that kind never
/// exceeds the number of registered records — no record is double-counted.
pub proof fn lemma_count_at_most_len(jobs: Seq<(u64, WorkerProp)>, name: Seq<char>)
    ensures
        count_matching(jobs, name) <= jobs.len(),
    decreases jobs.len(),
{
    if jobs.len() > 0 {
        lemma_count_at_most_len(jobs.drop_last(), name);
    }
}

/// Law: a kind with no configured limit is available regardless of its
/// count. (Short of a registry holding `u64::MAX` records, which no real
/// machine can.)
pub proof fn lemma_unlimited_kind_available(s: ServState, name: Seq<char>)
    requires
        s.config().spec_limit(name) == u64::MAX,
        s.jobs().len() < u64::MAX,
    ensures
        count_matching(s.jobs(), name) < s.config().spec_limit(name),
{
    lemma_count_at_most_len(s.jobs(), name);
}

/// Law: once a poll has returned `Done`, a subsequent poll of the same
/// handle returns `Error(NotExist)` and changes nothing — a job's
/// completion is observed at most once.
pub proof fn lemma_poll_after_done(
    s0: ServState,
    s1: ServState,
    s2: ServState,
    token: u64,
    r1: PollingState,
    r2: PollingState,
)
    requires
        ServState::get_transition(s0, s1, token, r1),
        r1 is Done,
        ServState::get_transition(s1, s2, token, r2),
    ensures
        r2 == PollingState::Error(PollingError::NotExist),
        s2.jobs() == s1.jobs(),
{
}

/// Law: once `remove` has returned `Removed`, a subsequent poll of the
/// same handle returns `Error(NotExist)` and changes nothing.
pub proof fn lemma_poll_after_removed(
    s0: ServState,
    s1: ServState,
    s2: ServState,
    token: u64,
    r1: PollingState,
    unit: Option<u64>,
    r2: PollingState,
)
    requires
        ServState::remove_transition(s0, s1, token, r1, unit),
        r1 == PollingState::Removed,
        ServState::get_transition(s1, s2, token, r2),
    ensures
        r2 == PollingState::Error(PollingError::NotExist),
        s2.jobs() == s1.jobs(),
{
}

/// Law: a handle the counter has not yet issued is registered nowhere, so
/// both a poll and a removal of it return `Error(NotExist)`.
pub proof fn lemma_unissued_handle_not_found(s0: ServState, token: u64)
    requires
        s0.wf(),
        token >= s0.next_handle(),
    ensures
        !has_key(s0.jobs(), token),
        forall|s1: ServState, r: PollingState|
            #[trigger] ServState::get_transition(s0, s1, token, r) ==> r == PollingState::Error(
                PollingError::NotExist,
            ),
        forall|s1: ServState, r: PollingState, unit: Option<u64>|
            #[trigger] ServState::remove_transition(s0, s1, token, r, unit) ==> r
                == PollingState::Error(PollingError::NotExist),
{
    assert forall|i: int| 0 <= i < s0.jobs().len() implies (#[trigger] s0.jobs()[i]).0
        != token by {
        assert(s0.jobs()[i].0 < s0.next_handle());
    }
}

/// With pairwise-distinct keys, the position of a present key is the one
/// position that holds it.
pub proof fn lemma_index_of_key(jobs: Seq<(u64, WorkerProp)>, key: u64, i: int)
    requires
        unique_keys(jobs),
        0 <= i < jobs.len(),
        jobs[i].0 == key,
    ensures
        has_key(jobs, key),
        index_of_key(jobs, key) == i,
{
    assert(has_key(jobs, key));
    let j = index_of_key(jobs, key);
    if j < i {
        assert(jobs[j].0 != jobs[i].0);
    } else if i < j {
        assert(jobs[i].0 != jobs[j].0);
    }
}

/// Erasing the record at position `i` keeps the registry well-formed and
/// leaves no record under the erased key.
proof fn lemma_remove_key(jobs: Seq<(u64, WorkerProp)>, i: int, bound: u64)
    requires
        unique_keys(jobs),
        keys_below(jobs, bound),
        0 <= i < jobs.len(),
    ensures
        unique_keys(jobs.remove(i)),
        keys_below(jobs.remove(i), bound),
        !has_key(jobs.remove(i), jobs[i].0),
{
    jobs.remove_ensures(i);
    let post = jobs.remove(i);
    assert forall|a: int, b: int| 0 <= a < b < post.len() implies (#[trigger] post[a]).0 != (
    #[trigger] post[b]).0 by {
        let oa: int = if a < i {
            a
        } else {
            a + 1
        };
        let ob: int = if b < i {
            b
        } else {
            b + 1
        };
        assert(post[a] == jobs[oa]);
        assert(post[b] == jobs[ob]);
        assert(jobs[oa].0 != jobs[ob].0);
    }
    assert forall|a: int| 0 <= a < post.len() implies (#[trigger] post[a]).0 < bound by {
        let oa: int = if a < i {
            a
        } else {
            a + 1
        };
        assert(post[a] == jobs[oa]);
        assert(jobs[oa].0 < bound);
    }
    assert forall|a: int| 0 <= a < post.len() implies (#[trigger] post[a]).0 != jobs[i].0 by {
        let oa: int = if a < i {
            a
        } else {
            a + 1
        };
        assert(post[a] == jobs[oa]);
        if oa < i {
            assert(jobs[oa].0 != jobs[i].0);
        } else {
            assert(jobs[i].0 != jobs[oa].0);
        }
    }
}

/// Taking the record at position `i` out and putting a record with the
/// same key back in its place leaves every other position untouched and
/// keeps the registry well-formed.
proof fn lemma_put_back(jobs: Seq<(u64, WorkerProp)>, i: int, x: (u64, WorkerProp), bound: u64)
    requires
        unique_keys(jobs),
        keys_below(jobs, bound),
        0 <= i < jobs.len(),
        x.0 == jobs[i].0,
    ensures
        jobs.remove(i).insert(i, x).len() == jobs.len(),
        jobs.remove(i).insert(i, x)[i] == x,
        forall|j: int|
            0 <= j < jobs.len() && j != i ==> #[trigger] jobs.remove(i).insert(i, x)[j]
                == jobs[j],
        unique_keys(jobs.remove(i).insert(i, x)),
        keys_below(jobs.remove(i).insert(i, x), bound),
{
    jobs.remove_ensures(i);
    jobs.remove(i).insert_ensures(i, x);
    let post = jobs.remove(i).insert(i, x);
    assert forall|j: int| 0 <= j < jobs.len() && j != i implies #[trigger] post[j] == jobs[j] by {
        if j < i {
            assert(post[j] == jobs.remove(i)[j]);
            assert(jobs.remove(i)[j] == jobs[j]);
        } else {
            assert(post[(j - 1) + 1] == jobs.remove(i)[j - 1]);
            assert(jobs.remove(i)[j - 1] == jobs[(j - 1) + 1]);
        }
    }
    assert forall|a: int| 0 <= a < post.len() implies (#[trigger] post[a]).0 == jobs[a].0 by {
        if a != i {
            assert(post[a] == jobs[a]);
        }
    }
    assert forall|a: int, b: int| 0 <= a < b < post.len() implies (#[trigger] post[a]).0 != (
    #[trigger] post[b]).0 by {
        assert(post[a].0 == jobs[a].0);
        assert(post[b].0 == jobs[b].0);
        assert(jobs[a].0 != jobs[b].0);
    }
    assert forall|a: int| 0 <= a < post.len() implies (#[trigger] post[a]).0 < bound by {
        assert(post[a].0 == jobs[a].0);
        assert(jobs[a].0 < bound);
    }
}

} // verus!
