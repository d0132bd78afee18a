//! The cache of fetched repositories: each remote, branch and pinned commit
//! is materialized once and then shared by every entry that names it.
//!
//! The manager decides; the fetch itself is the caller's work. A caller
//! either hands the fetch over as a closure ([`CacheManager::get_or_fetch`])
//! or takes the decision, fetches, and reports back
//! ([`CacheManager::begin_fetch`], [`CacheManager::complete_fetch`]). The
//! lock of a key is held from the decision to fetch until the report.

use vstd::prelude::*;
use crate::checkout::CheckoutFailure;
use crate::key_generator::{cache_key, CacheKeyGenerator};
use crate::lock::{LockTable, RepositoryLockManager, LOCK_TABLE_POISONED};
use crate::parse::Method;
use crate::repo_config::RepositoryConfiguration;
use crate::text::str_eq;

verus! {

/// A local checkout as a mathematical value.
pub struct Checkout {
    pub key: Seq<char>,
    pub path: Seq<char>,
    pub method: Method,
    pub reference: Seq<char>,
}

/// One materialized local checkout.
#[derive(Debug)]
pub struct CachedRepository {
    /// The cache key that the checkout answers for.
    pub key: String,
    /// Where the checkout is.
    pub path: String,
    /// The strategy it was fetched with.
    pub method: Method,
    /// The branch or commit that was fetched.
    pub reference: String,
}

impl View for CachedRepository {
    type V = Checkout;

    open spec fn view(&self) -> Checkout {
        Checkout {
            key: self.key@,
            path: self.path@,
            method: self.method,
            reference: self.reference@,
        }
    }
}

impl CachedRepository {
    /// A copy of the checkout's description.
    pub fn duplicate(&self) -> (copy: Self)
        ensures
            copy@ == self@,
    {
        CachedRepository {
            key: self.key.clone(),
            path: self.path.clone(),
            method: self.method,
            reference: self.reference.clone(),
        }
    }
}

/// What to fetch.
#[derive(Debug)]
pub struct FetchRequest {
    /// The cache key that the fetch is for.
    pub key: String,
    /// The URL of the remote repository.
    pub url: String,
    /// The pinned commit, or else the branch.
    pub reference: String,
    /// The strategy to fetch with.
    pub method: Method,
}

/// A fetch request as a mathematical value.
pub struct Request {
    pub key: Seq<char>,
    pub url: Seq<char>,
    pub reference: Seq<char>,
    pub method: Method,
}

impl View for FetchRequest {
    type V = Request;

    open spec fn view(&self) -> Request {
        Request { key: self.key@, url: self.url@, reference: self.reference@, method: self.method }
    }
}

/// The cache key of a configuration.
pub open spec fn key_of(config: RepositoryConfiguration) -> Seq<char> {
    cache_key(config.url@, config.branch@, config.commit_text())
}

/// The request that fetches what a configuration names: the pinned commit
/// if there is one, else the branch, with the shallow strategy unless
/// another is asked for.
pub open spec fn request_of(config: RepositoryConfiguration) -> Request {
    Request {
        key: key_of(config),
        url: config.url@,
        reference: match config.commit_hash {
            Some(commit) => commit@,
            None => config.branch@,
        },
        method: match config.mtd {
            Some(method) => method,
            None => Method::Shallow,
        },
    }
}

/// The checkout that a request gives when it is materialized at `path`.
pub open spec fn checkout_of(request: Request, path: Seq<char>) -> Checkout {
    Checkout { key: request.key, path, method: request.method, reference: request.reference }
}

/// `checkout` is what `fetch` gave for `key`: the fetch answered a request
/// for the key with a local path, and the checkout is that request at that
/// path.
pub open spec fn fetched_as<F>(fetch: F, key: Seq<char>, checkout: Checkout) -> bool
    where F: Fn(&FetchRequest) -> Result<String, CheckoutFailure>
{
    exists|request: FetchRequest, path: String|
        request@.key == key && fetch.ensures((&request,), Ok::<String, CheckoutFailure>(path))
            && checkout == checkout_of(request@, path@)
}

/// What the manager decided for an entry.
#[derive(Debug)]
pub enum Resolution {
    /// The repository is there: use this checkout.
    Cached(CachedRepository),
    /// The repository is to be fetched by the caller, who holds its lock
    /// until the fetch is reported.
    Fetch(FetchRequest),
    /// Another caller is fetching the repository: ask again later.
    Busy,
}

/// The kinds of decision.
#[derive(Debug, Clone, Copy, PartialEq, Eq, Structural)]
pub enum Decision {
    LockFailed,
    Busy,
    Cached,
    Fetch,
}

/// Why no checkout can be handed out.
#[derive(Debug)]
pub enum CacheError {
    /// The table of locks is poisoned.
    Lock(String),
    /// Another caller is fetching the repository.
    Busy,
    /// The fetch failed; the key stays unregistered.
    Checkout(CheckoutFailure),
}

/// The cache as a mathematical value: the locks, and the checkout
/// registered for each key.
pub struct CacheState {
    pub locks: LockTable,
    pub ready: Map<Seq<char>, Checkout>,
}

impl CacheState {
    /// The cache with nothing fetched and no locks.
    pub open spec fn empty() -> CacheState {
        CacheState { locks: LockTable::empty(), ready: Map::empty() }
    }

    /// A fetch for `key` has been decided and not yet reported.
    pub open spec fn in_flight(self, key: Seq<char>) -> bool {
        self.locks.is_held(key)
    }

    /// A checkout is registered for `key`.
    pub open spec fn is_ready(self, key: Seq<char>) -> bool {
        self.ready.dom().contains(key)
    }

    /// The decision for `key`: the lock is tried first; with the lock in
    /// hand the cache is looked at again, and only a key that is still
    /// unregistered is fetched.
    pub open spec fn decision(self, key: Seq<char>) -> Decision {
        if self.locks.poisoned {
            Decision::LockFailed
        } else if self.locks.is_held(key) {
            Decision::Busy
        } else if self.is_ready(key) {
            Decision::Cached
        } else {
            Decision::Fetch
        }
    }

    /// The cache after the decision for `key`: the lock stays held only
    /// when a fetch was decided.
    pub open spec fn resolve(self, key: Seq<char>) -> CacheState {
        match self.decision(key) {
            Decision::LockFailed => self,
            Decision::Busy => self,
            Decision::Cached => CacheState {
                locks: self.locks.with_held(key).release(key),
                ready: self.ready,
            },
            Decision::Fetch => CacheState { locks: self.locks.with_held(key), ready: self.ready },
        }
    }

    /// The cache after the fetch for `key` was reported: a checkout is
    /// registered, a failure leaves the key unregistered, and the lock is
    /// free either way.
    pub open spec fn complete(self, key: Seq<char>, outcome: Option<Checkout>) -> CacheState {
        CacheState {
            locks: self.locks.release(key),
            ready: match outcome {
                Some(checkout) => self.ready.insert(key, checkout),
                None => self.ready,
            },
        }
    }

    /// The cache once its locks are known to be corrupt.
    pub open spec fn poison(self) -> CacheState {
        CacheState { locks: self.locks.poison(), ready: self.ready }
    }
}

/// Hands out one checkout for each cache key.
pub struct CacheManager {
    locks: RepositoryLockManager,
    repos: Vec<CachedRepository>,
    model: Ghost<Map<Seq<char>, Checkout>>,
}

impl View for CacheManager {
    type V = CacheState;

    closed spec fn view(&self) -> CacheState {
        CacheState { locks: self.locks@, ready: self.model@ }
    }
}

/// The kind of a decision that was handed out.
pub open spec fn decision_of(r: Result<Resolution, String>) -> Decision {
    match r {
        Err(_) => Decision::LockFailed,
        Ok(Resolution::Busy) => Decision::Busy,
        Ok(Resolution::Cached(_)) => Decision::Cached,
        Ok(Resolution::Fetch(_)) => Decision::Fetch,
    }
}

impl CacheManager {
    /// The manager is in order: its locks are, each key has one checkout at
    /// most, and no key that is being fetched has a checkout.
    pub closed spec fn wf(&self) -> bool {
        &&& self.repos_wf()
        &&& forall|k: Seq<char>| #[trigger] self.locks@.is_held(k) ==> !self.model@.dom().contains(k)
    }

    spec fn repos_wf(&self) -> bool {
        &&& self.locks.wf()
        &&& forall|i: int| 0 <= i < self.repos.len() ==> {
            &&& self.model@.dom().contains(#[trigger] self.repos[i].key@)
            &&& self.model@[self.repos[i].key@] == self.repos[i]@
        }
        &&& forall|k: Seq<char>| self.model@.dom().contains(k) ==> exists|i: int|
            0 <= i < self.repos.len() && #[trigger] self.repos[i].key@ == k
        &&& forall|i: int, j: int| 0 <= i < j < self.repos.len() ==> self.repos[i].key@
            != self.repos[j].key@
    }

    /// A manager with nothing fetched.
    pub fn new() -> (manager: Self)
        ensures
            manager.wf(),
            manager@ == CacheState::empty(),
    {
        CacheManager { locks: RepositoryLockManager::new(), repos: Vec::new(), model: Ghost(Map::empty()) }
    }

    /// A key that is being fetched has no checkout yet.
    pub proof fn lemma_in_flight_is_unregistered(&self, key: Seq<char>)
        requires
            self.wf(),
            self@.in_flight(key),
        ensures
            !self@.is_ready(key),
    {
        assert(self.locks@.is_held(key));
    }

    fn find(&self, key: &str) -> (at: Option<usize>)
        requires
            self.repos_wf(),
        ensures
            match at {
                Some(i) => i < self.repos.len() && self.repos[i as int].key@ == key@ && self@.is_ready(
                    key@,
                ) && self@.ready[key@] == self.repos[i as int]@,
                None => !self@.is_ready(key@),
            },
    {
        let mut i: usize = 0;
        while i < self.repos.len()
            invariant
                self.repos_wf(),
                i <= self.repos.len(),
                forall|k: int| 0 <= k < i ==> self.repos[k].key@ != key@,
            decreases self.repos.len() - i,
        {
            if str_eq(self.repos[i].key.as_str(), key) {
                return Some(i);
            }
            i += 1;
        }
        None
    }

    /// The checkout registered for `key`, if there is one.
    pub fn lookup(&self, key: &str) -> (found: Option<CachedRepository>)
        requires
            self.wf(),
        ensures
            match found {
                Some(repo) => self@.is_ready(key@) && repo@ == self@.ready[key@] && repo@.key
                    == key@,
                None => !self@.is_ready(key@),
            },
    {
        match self.find(key) {
            Some(i) => Some(self.repos[i].duplicate()),
            None => None,
        }
    }

    /// Whether a fetch for `key` has been decided and not yet reported.
    pub fn is_in_flight(&self, key: &str) -> (busy: bool)
        requires
            self.wf(),
        ensures
            busy == self@.in_flight(key@),
    {
        self.locks.is_locked(key)
    }

    /// Marks the locks corrupt: from now on nothing is fetched.
    pub fn poison(&mut self)
        requires
            old(self).wf(),
        ensures
            final(self).wf(),
            final(self)@ == old(self)@.poison(),
    {
        self.locks.poison();
        proof {
            assert forall|k: Seq<char>| #[trigger] self.locks@.is_held(k) implies !self.model@.dom().contains(
                k,
            ) by {
                assert(old(self).locks@.is_held(k));
            }
        }
    }

    /// The request that fetches what `config` names.
    pub fn request_for(config: &RepositoryConfiguration) -> (request: FetchRequest)
        ensures
            request@ == request_of(*config),
    {
        let key = CacheKeyGenerator::generate_key(config);
        let reference = match &config.commit_hash {
            Some(commit) => commit.clone(),
            None => config.branch.clone(),
        };
        let method = match config.mtd {
            Some(method) => method,
            None => Method::Shallow,
        };
        FetchRequest { key, url: config.url.clone(), reference, method }
    }

    /// Decides what is done for `config`. The lock of its key is tried
    /// without waiting. If another caller holds it, the answer is `Busy`.
    /// With the lock in hand the cache is looked at again: a registered
    /// checkout is handed out and the lock is freed; else the caller is told
    /// to fetch and keeps the lock until it reports. A poisoned table of
    /// locks fails the call.
    pub fn begin_fetch(&mut self, config: &RepositoryConfiguration) -> (r: Result<Resolution, String>)
        requires
            old(self).wf(),
        ensures
            final(self).wf(),
            decision_of(r) == old(self)@.decision(key_of(*config)),
            final(self)@ == old(self)@.resolve(key_of(*config)),
            match r {
                Ok(Resolution::Cached(repo)) => repo@ == old(self)@.ready[key_of(*config)]
                    && repo@.key == key_of(*config),
                Ok(Resolution::Fetch(request)) => request@ == request_of(*config),
                Ok(Resolution::Busy) => true,
                Err(e) => e@ == LOCK_TABLE_POISONED@,
            },
    {
        let request = Self::request_for(config);
        let ghost key = request.key@;
        match self.locks.try_acquire_lock(request.key.as_str()) {
            Err(e) => Err(e),
            Ok(false) => Ok(Resolution::Busy),
            Ok(true) => {
                match self.find(request.key.as_str()) {
                    Some(i) => {
                        let repo = self.repos[i].duplicate();
                        self.locks.release_lock(request.key.as_str());
                        proof {
                            assert forall|k: Seq<char>| #[trigger]
                                self.locks@.is_held(k) implies !self.model@.dom().contains(k) by {
                                assert(k != key);
                                assert(old(self).locks@.is_held(k));
                            }
                        }
                        Ok(Resolution::Cached(repo))
                    },
                    None => {
                        proof {
                            assert forall|k: Seq<char>| #[trigger]
                                self.locks@.is_held(k) implies !self.model@.dom().contains(k) by {
                                if k != key {
                                    assert(old(self).locks@.is_held(k));
                                }
                            }
                        }
                        Ok(Resolution::Fetch(request))
                    },
                }
            },
        }
    }

    /// Takes the report of a fetch that the manager asked for: the key of
    /// the request is in flight. A fetch that gave a local path is
    /// registered under the key of the request and handed out; a failed
    /// fetch leaves the key unregistered, so that a later entry may try
    /// again. The lock of the key is freed in both cases. A key in flight has
    /// no checkout, so no checkout is ever replaced.
    pub fn complete_fetch(
        &mut self,
        request: &FetchRequest,
        outcome: Result<String, CheckoutFailure>,
    ) -> (r: Result<CachedRepository, CheckoutFailure>)
        requires
            old(self).wf(),
            old(self)@.in_flight(request.key@),
        ensures
            final(self).wf(),
            !old(self)@.is_ready(request.key@),
            match outcome {
                Ok(path) => r is Ok && r->Ok_0@ == checkout_of(request@, path@) && final(self)@
                    == old(self)@.complete(request.key@, Some(checkout_of(request@, path@))),
                Err(failure) => r == Err::<CachedRepository, CheckoutFailure>(failure)
                    && final(self)@ == old(self)@.complete(request.key@, None),
            },
    {
        match outcome {
            Ok(path) => {
                let repo = CachedRepository {
                    key: request.key.clone(),
                    path,
                    method: request.method,
                    reference: request.reference.clone(),
                };
                let copy = repo.duplicate();
                proof {
                    assert(self.locks@.is_held(request.key@));
                }
                self.locks.release_lock(request.key.as_str());
                self.register(repo);
                proof {
                    assert forall|k: Seq<char>| #[trigger] self.locks@.is_held(k) implies !self.model@.dom().contains(
                        k,
                    ) by {
                        assert(k != request.key@);
                        assert(old(self).locks@.is_held(k));
                    }
                }
                Ok(copy)
            },
            Err(failure) => {
                proof {
                    assert(self.locks@.is_held(request.key@));
                }
                self.locks.release_lock(request.key.as_str());
                proof {
                    assert forall|k: Seq<char>| #[trigger] self.locks@.is_held(k) implies !self.model@.dom().contains(
                        k,
                    ) by {
                        assert(k != request.key@);
                        assert(old(self).locks@.is_held(k));
                    }
                }
                Err(failure)
            },
        }
    }

    fn register(&mut self, repo: CachedRepository)
        requires
            old(self).repos_wf(),
        ensures
            final(self).repos_wf(),
            final(self).locks == old(self).locks,
            final(self)@ == (CacheState {
                locks: old(self)@.locks,
                ready: old(self)@.ready.insert(repo.key@, repo@),
            }),
    {
        let ghost before = self.model@;
        let ghost key = repo.key@;
        let ghost value = repo@;
        let ghost at: int;
        match self.find(repo.key.as_str()) {
            Some(i) => {
                self.repos.set(i, repo);
                proof {
                    at = i as int;
                }
            },
            None => {
                self.repos.push(repo);
                proof {
                    at = self.repos.len() - 1;
                }
            },
        }
        self.model = Ghost(before.insert(key, value));
        proof {
            assert(self.repos[at].key@ == key);
            assert forall|k: Seq<char>| self.model@.dom().contains(k) implies exists|j: int|
                0 <= j < self.repos.len() && #[trigger] self.repos[j].key@ == k by {
                if k == key {
                    assert(self.repos[at].key@ == k);
                } else {
                    let j = choose|j: int|
                        0 <= j < old(self).repos.len() && #[trigger] old(self).repos[j].key@ == k;
                    assert(self.repos[j].key@ == k);
                }
            }
        }
    }

    /// Hands out the checkout for `config`, fetching it with `fetch` if the
    /// cache does not hold it yet. `fetch` is called at most once, and only
    /// for a key that is neither registered nor being fetched. Its failure
    /// is passed on and leaves the key unregistered. Whatever comes of the
    /// call, it leaves no lock held that was not held before, and every
    /// checkout that was registered stays as it was.
    pub fn get_or_fetch<F>(&mut self, config: &RepositoryConfiguration, fetch: &F) -> (r: Result<
        CachedRepository,
        CacheError,
    >)
        where F: Fn(&FetchRequest) -> Result<String, CheckoutFailure>
        requires
            old(self).wf(),
            forall|request: &FetchRequest| fetch.requires((request,)),
        ensures
            final(self).wf(),
            match old(self)@.decision(key_of(*config)) {
                Decision::LockFailed => final(self)@ == old(self)@ && r is Err && r->Err_0 is Lock,
                Decision::Busy => final(self)@ == old(self)@ && r is Err && r->Err_0 is Busy,
                Decision::Cached => final(self)@ == old(self)@.resolve(key_of(*config)) && r is Ok
                    && r->Ok_0@ == old(self)@.ready[key_of(*config)],
                Decision::Fetch => exists|request: FetchRequest, outcome: Result<String, CheckoutFailure>|
                    {
                        &&& request@ == request_of(*config)
                        &&& fetch.ensures((&request,), outcome)
                        &&& match outcome {
                            Ok(path) => r is Ok && r->Ok_0@ == checkout_of(request@, path@)
                                && final(self)@ == old(self)@.resolve(key_of(*config)).complete(
                                key_of(*config),
                                Some(checkout_of(request@, path@)),
                            ),
                            Err(failure) => r is Err && r->Err_0 == CacheError::Checkout(failure)
                                && final(self)@ == old(self)@.resolve(key_of(*config)).complete(
                                key_of(*config),
                                None,
                            ),
                        }
                    },
            },
            r is Ok ==> r->Ok_0@.key == key_of(*config),
            r is Ok ==> final(self)@.is_ready(key_of(*config)) && final(self)@.ready[key_of(*config)]
                == r->Ok_0@,
            forall|k: Seq<char>| final(self)@.in_flight(k) == old(self)@.in_flight(k),
            forall|k: Seq<char>|
                old(self)@.is_ready(k) ==> final(self)@.is_ready(k) && final(self)@.ready[k]
                    == old(self)@.ready[k],
            final(self)@.locks.poisoned == old(self)@.locks.poisoned,
            forall|k: Seq<char>|
                final(self)@.is_ready(k) && !old(self)@.is_ready(k) ==> fetched_as(
                    *fetch,
                    k,
                    final(self)@.ready[k],
                ),
    {
        match self.begin_fetch(config) {
            Err(e) => Err(CacheError::Lock(e)),
            Ok(Resolution::Busy) => Err(CacheError::Busy),
            Ok(Resolution::Cached(repo)) => Ok(repo),
            Ok(Resolution::Fetch(request)) => {
                let outcome = fetch(&request);
                proof {
                    if outcome is Ok {
                        assert(fetched_as(
                            *fetch,
                            request.key@,
                            checkout_of(request@, outcome->Ok_0@),
                        ));
                    }
                }
                match self.complete_fetch(&request, outcome) {
                    Ok(repo) => Ok(repo),
                    Err(failure) => Err(CacheError::Checkout(failure)),
                }
            },
        }
    }
}

/// One step in the life of a cache, seen from outside: an entry asks for
/// its repository, a caller reports a fetch, or the locks are found
/// corrupt.
pub enum CacheEvent {
    Resolve(Seq<char>),
    Complete(Seq<char>, Option<Checkout>),
    Poison,
}

/// The cache after one event.
pub open spec fn step(state: CacheState, event: CacheEvent) -> CacheState {
    match event {
        CacheEvent::Resolve(key) => state.resolve(key),
        CacheEvent::Complete(key, outcome) => state.complete(key, outcome),
        CacheEvent::Poison => state.poison(),
    }
}

/// The cache after a run of events, in any interleaving, from the empty
/// cache.
pub open spec fn run(events: Seq<CacheEvent>) -> CacheState
    decreases events.len(),
{
    if events.len() == 0 {
        CacheState::empty()
    } else {
        step(run(events.drop_last()), events.last())
    }
}

/// Callers report only fetches that they were told to make: each report
/// comes while the fetch of its key is in flight.
pub open spec fn reports_follow_fetches(events: Seq<CacheEvent>) -> bool
    decreases events.len(),
{
    events.len() == 0 || (reports_follow_fetches(events.drop_last()) && match events.last() {
        CacheEvent::Complete(key, _) => run(events.drop_last()).in_flight(key),
        _ => true,
    })
}

/// How often the run told a caller to fetch `key`.
pub open spec fn fetches(events: Seq<CacheEvent>, key: Seq<char>) -> nat
    decreases events.len(),
{
    if events.len() == 0 {
        0
    } else {
        fetches(events.drop_last(), key) + if events.last() == CacheEvent::Resolve(key) && run(
            events.drop_last(),
        ).decision(key) == Decision::Fetch {
            1nat
        } else {
            0nat
        }
    }
}

/// How often a fetch of `key` was reported as failed.
pub open spec fn failures(events: Seq<CacheEvent>, key: Seq<char>) -> nat
    decreases events.len(),
{
    if events.len() == 0 {
        0
    } else {
        failures(events.drop_last(), key) + if events.last() == CacheEvent::Complete(
            key,
            None::<Checkout>,
        ) {
            1nat
        } else {
            0nat
        }
    }
}

/// How often a fetch of `key` was reported as done.
pub open spec fn materializations(events: Seq<CacheEvent>, key: Seq<char>) -> nat
    decreases events.len(),
{
    if events.len() == 0 {
        0
    } else {
        materializations(events.drop_last(), key) + match events.last() {
            CacheEvent::Complete(k, Some(_)) => if k == key {
                1nat
            } else {
                0nat
            },
            _ => 0nat,
        }
    }
}

/// In every run, whatever the number of entries and however the callers
/// interleave, a key is materialized at most once; it is registered exactly
/// when it was materialized; and every decision to fetch it is accounted
/// for by a failed fetch, by the one materialization, or by the fetch that
/// is in flight.
pub proof fn lemma_one_materialization_per_key(events: Seq<CacheEvent>, key: Seq<char>)
    requires
        reports_follow_fetches(events),
    ensures
        materializations(events, key) <= 1,
        run(events).is_ready(key) <==> materializations(events, key) == 1,
        run(events).in_flight(key) ==> !run(events).is_ready(key),
        fetches(events, key) == failures(events, key) + materializations(events, key) + if run(
            events,
        ).in_flight(key) {
            1nat
        } else {
            0nat
        },
    decreases events.len(),
{
    if events.len() > 0 {
        let before = events.drop_last();
        lemma_one_materialization_per_key(before, key);
        let state = run(before);
        match events.last() {
            CacheEvent::Resolve(k) => {
                if k != key {
                    assert(state.resolve(k).in_flight(key) == state.in_flight(key));
                }
            },
            CacheEvent::Complete(k, outcome) => {
                if k != key {
                    assert(state.complete(k, outcome).in_flight(key) == state.in_flight(key));
                }
            },
            CacheEvent::Poison => {},
        }
    }
}

/// Where no fetch of a key failed, the run fetched the key exactly once if
/// it is registered, however many entries asked for it.
pub proof fn lemma_exactly_one_fetch(events: Seq<CacheEvent>, key: Seq<char>)
    requires
        reports_follow_fetches(events),
        failures(events, key) == 0,
        run(events).is_ready(key),
    ensures
        fetches(events, key) == 1,
        materializations(events, key) == 1,
{
    lemma_one_materialization_per_key(events, key);
}

/// Once a key is registered, every later decision for it hands out the
/// registered checkout and fetches nothing, and the key stays registered.
pub proof fn lemma_registered_key_is_reused(state: CacheState, key: Seq<char>, event: CacheEvent)
    requires
        state.is_ready(key),
        !state.in_flight(key),
    ensures
        state.decision(key) == Decision::Cached || state.decision(key) == Decision::LockFailed,
        step(state, event).is_ready(key),
{
}

} // verus!
