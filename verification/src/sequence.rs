//! Running an operation over every entry of the configuration.

use vstd::prelude::*;
use vstd::string::*;
use crate::cache::{
    fetched_as, key_of, request_of, CacheError, CacheManager, CachedRepository, Checkout, Decision,
    FetchRequest,
};
use crate::key_generator::CacheKeyGenerator;
use crate::sync::{is_listed, lists};
use crate::text::str_eq;
use crate::key_generator::cache_key;
use crate::checkout::CheckoutFailure;
use crate::parse::Parsed;
use crate::repo_config::RepositoryConfiguration;
use crate::text::{decimal_text, texts, to_decimal};

verus! {

/// How the entries are worked through.
#[derive(Debug, Clone, Copy, PartialEq, Eq, Structural)]
pub enum Mode {
    /// One entry at a time, in file order, in the calling thread.
    Single,
    /// Entries handed out to a pool of workers.
    Parallel,
}

/// What an operation did for one entry.
#[derive(Debug)]
pub struct OperationResult {
    /// Whether the operation succeeded: for a check, whether the
    /// destination matches.
    pub success: bool,
    /// What was written, or what does not match.
    pub description: String,
}

/// What came of one entry.
#[derive(Debug)]
pub enum EntryOutcome {
    /// The operation ran on the entry's checkout.
    Applied(OperationResult),
    /// The repository of the entry could not be fetched.
    FetchFailed(CheckoutFailure),
    /// The repository of the entry was being fetched by another caller.
    Busy,
}

impl EntryOutcome {
    /// The operation ran and succeeded.
    pub open spec fn succeeded(self) -> bool {
        self matches EntryOutcome::Applied(result) && result.success
    }

    /// Whether the operation ran and succeeded.
    pub fn is_success(&self) -> (b: bool)
        ensures
            b == self.succeeded(),
    {
        match self {
            EntryOutcome::Applied(result) => result.success,
            _ => false,
        }
    }
}

/// The outcome of each entry, in file order, and whether all succeeded.
#[derive(Debug)]
pub struct AggregateResult {
    pub outcomes: Vec<EntryOutcome>,
    pub success: bool,
}

/// Every outcome is a success.
pub open spec fn all_succeeded(outcomes: Seq<EntryOutcome>) -> bool {
    forall|i: int| 0 <= i < outcomes.len() ==> (#[trigger] outcomes[i]).succeeded()
}

/// Puts the outcomes of a run together: the run succeeded when every entry
/// did.
pub fn aggregate(outcomes: Vec<EntryOutcome>) -> (r: AggregateResult)
    ensures
        r.outcomes == outcomes,
        r.success == all_succeeded(outcomes@),
{
    let mut success = true;
    let mut i: usize = 0;
    while i < outcomes.len()
        invariant
            i <= outcomes.len(),
            success == all_succeeded(outcomes@.take(i as int)),
        decreases outcomes.len() - i,
    {
        let ok = outcomes[i].is_success();
        proof {
            let before = outcomes@.take(i as int);
            let now = outcomes@.take(i + 1);
            assert(now =~= before.push(outcomes@[i as int]));
            if all_succeeded(now) {
                assert forall|k: int| 0 <= k < before.len() implies (#[trigger] before[k]).succeeded() by {
                    assert(now[k].succeeded());
                }
                assert(now[i as int].succeeded());
            }
            if success && ok {
                assert forall|k: int| 0 <= k < now.len() implies (#[trigger] now[k]).succeeded() by {
                    if k < i {
                        assert(before[k].succeeded());
                    }
                }
            }
        }
        success = success && ok;
        i += 1;
    }
    assert(outcomes@.take(outcomes.len() as int) =~= outcomes@);
    AggregateResult { outcomes, success }
}

/// The repository that an entry names: its URL, its revision as the
/// branch, its pinned commit, and its destination and filters.
pub open spec fn configuration_matches(entry: Parsed, config: RepositoryConfiguration) -> bool {
    &&& config.url@ == entry.url@
    &&& config.branch@ == entry.rev@
    &&& config.target_path@ == entry.dst@
    &&& texts(config.filters@) == texts(entry.filters@)
    &&& config.commit_text() == match entry.commit_hash {
        Some(commit) => Some(commit@),
        None => None,
    }
    &&& config.mtd == entry.mtd
}

/// The repository configuration of an entry.
pub fn configuration_of(entry: &Parsed) -> (config: RepositoryConfiguration)
    ensures
        configuration_matches(*entry, config),
{
    let mut filters: Vec<String> = Vec::new();
    let mut i: usize = 0;
    while i < entry.filters.len()
        invariant
            i <= entry.filters.len(),
            texts(filters@) == texts(entry.filters@).take(i as int),
        decreases entry.filters.len() - i,
    {
        let ghost before = texts(filters@);
        filters.push(entry.filters[i].clone());
        proof {
            assert(texts(filters@) =~= before.push(entry.filters[i as int]@));
            assert(texts(entry.filters@).take(i + 1) =~= texts(entry.filters@).take(i as int).push(
                entry.filters[i as int]@,
            ));
        }
        i += 1;
    }
    assert(texts(entry.filters@).take(entry.filters.len() as int) =~= texts(entry.filters@));
    let commit_hash = match &entry.commit_hash {
        Some(commit) => Some(commit.clone()),
        None => None,
    };
    RepositoryConfiguration::new(
        entry.url.clone(),
        entry.rev.clone(),
        entry.dst.clone(),
        filters,
        commit_hash,
        entry.mtd,
    )
}

/// What stands before each message about an entry: its name, or else its
/// position in the file, counted from one.
pub open spec fn prefix_text(entry: Parsed, index: nat) -> Seq<char> {
    match entry.name {
        Some(name) => "["@ + name@ + "] "@,
        None => "[#"@ + decimal_text(index + 1) + "] "@,
    }
}

/// The prefix of the entry at position `index` of the file.
pub fn entry_prefix(entry: &Parsed, index: usize) -> (prefix: String)
    requires
        index < u64::MAX,
    ensures
        prefix@ == prefix_text(*entry, index as nat),
{
    let mut prefix = String::new();
    match &entry.name {
        Some(name) => {
            prefix.append("[");
            prefix.append(name.as_str());
            prefix.append("] ");
            assert(prefix@ =~= "["@ + name@ + "] "@);
        },
        None => {
            let number = to_decimal(index as u64 + 1);
            prefix.append("[#");
            prefix.append(number.as_str());
            prefix.append("] ");
            assert(prefix@ =~= "[#"@ + decimal_text((index + 1) as nat) + "] "@);
        },
    }
    prefix
}

/// The outcome of the entry `entry` is one that `apply` and `fetch` can
/// have given for it.
pub open spec fn outcome_is_of<A, F>(entry: Parsed, outcome: EntryOutcome, apply: A, fetch: F) -> bool
    where
        A: Fn(&Parsed, &CachedRepository) -> OperationResult,
        F: Fn(&FetchRequest) -> Result<String, CheckoutFailure>,
{
    match outcome {
        EntryOutcome::Applied(result) => exists|config: RepositoryConfiguration, repo: CachedRepository|
            {
                &&& configuration_matches(entry, config)
                &&& repo@.key == key_of(config)
                &&& apply.ensures((&entry, &repo), result)
            },
        EntryOutcome::FetchFailed(failure) => exists|
            config: RepositoryConfiguration,
            request: FetchRequest,
        |
            {
                &&& configuration_matches(entry, config)
                &&& request@ == request_of(config)
                &&& fetch.ensures((&request,), Err::<String, CheckoutFailure>(failure))
            },
        EntryOutcome::Busy => true,
    }
}

/// `result` is what `apply` gave for the entry on the checkout
/// `checkout`.
pub open spec fn applied_on<A>(apply: A, entry: Parsed, checkout: Checkout, result: OperationResult) -> bool
    where A: Fn(&Parsed, &CachedRepository) -> OperationResult
{
    exists|repo: CachedRepository| repo@ == checkout && apply.ensures((&entry, &repo), result)
}

/// The key of the repository that an entry names.
pub open spec fn entry_key(entry: Parsed) -> Seq<char> {
    cache_key(
        entry.url@,
        entry.rev@,
        match entry.commit_hash {
            Some(commit) => Some(commit@),
            None => None,
        },
    )
}

/// Works through the entries one at a time, in file order. For each entry
/// the cache hands out the checkout of its repository, fetching it with
/// `fetch` if need be, and `apply` runs on the entry and the checkout. A
/// failing entry does not stop the run: every entry gets its outcome. Only
/// a poisoned table of locks ends the run, with the failure.
pub fn sequence<A, F>(entries: &Vec<Parsed>, apply: &A, fetch: &F, cache: &mut CacheManager) -> (r:
    Result<AggregateResult, String>)
    where
        A: Fn(&Parsed, &CachedRepository) -> OperationResult,
        F: Fn(&FetchRequest) -> Result<String, CheckoutFailure>,
    requires
        old(cache).wf(),
        forall|entry: &Parsed, repo: &CachedRepository| apply.requires((entry, repo)),
        forall|request: &FetchRequest| fetch.requires((request,)),
    ensures
        final(cache).wf(),
        final(cache)@.locks.poisoned == old(cache)@.locks.poisoned,
        forall|k: Seq<char>| final(cache)@.in_flight(k) == old(cache)@.in_flight(k),
        forall|k: Seq<char>|
            old(cache)@.is_ready(k) ==> final(cache)@.is_ready(k) && final(cache)@.ready[k] == old(cache)@.ready[k],
        match r {
            Ok(run) => {
                &&& (entries.len() == 0 || !old(cache)@.locks.poisoned)
                &&& run.outcomes.len() == entries.len()
                &&& run.success == all_succeeded(run.outcomes@)
                &&& forall|i: int|
                    0 <= i < entries.len() ==> outcome_is_of(
                        entries[i],
                        #[trigger] run.outcomes[i],
                        *apply,
                        *fetch,
                    )
                &&& forall|i: int|
                    0 <= i < entries.len() ==> ((#[trigger] run.outcomes[i]) is Busy <==> old(cache)@.in_flight(entry_key(entries[i])))
                &&& forall|i: int|
                    0 <= i < entries.len() && (#[trigger] run.outcomes[i]) is Applied ==> final(cache)@.is_ready(entry_key(entries[i]))
                &&& forall|i: int|
                    0 <= i < entries.len() && (#[trigger] run.outcomes[i]) is Applied ==> applied_on(
                        *apply,
                        entries[i],
                        final(cache)@.ready[entry_key(entries[i])],
                        run.outcomes[i]->Applied_0,
                    )
            },
            Err(_) => entries.len() > 0 && old(cache)@.locks.poisoned,
        },
        forall|k: Seq<char>|
            final(cache)@.is_ready(k) && !old(cache)@.is_ready(k) ==> fetched_as(
                *fetch,
                k,
                final(cache)@.ready[k],
            ),
{
    let mut outcomes: Vec<EntryOutcome> = Vec::new();
    let mut i: usize = 0;
    while i < entries.len()
        invariant
            i <= entries.len(),
            cache.wf(),
            cache@.locks.poisoned == old(cache)@.locks.poisoned,
            i > 0 ==> !cache@.locks.poisoned,
            outcomes.len() == i,
            forall|k: Seq<char>| cache@.in_flight(k) == old(cache)@.in_flight(k),
            forall|k: Seq<char>|
                old(cache)@.is_ready(k) ==> cache@.is_ready(k) && cache@.ready[k] == old(cache)@.ready[k],
            forall|k: int|
                0 <= k < i ==> ((#[trigger] outcomes[k]) is Busy <==> old(cache)@.in_flight(
                    entry_key(entries[k]),
                )),
            forall|k: int|
                0 <= k < i && (#[trigger] outcomes[k]) is Applied ==> cache@.is_ready(
                    entry_key(entries[k]),
                ),
            forall|k: int|
                0 <= k < i && (#[trigger] outcomes[k]) is Applied ==> applied_on(
                    *apply,
                    entries[k],
                    cache@.ready[entry_key(entries[k])],
                    outcomes[k]->Applied_0,
                ),
            forall|k: Seq<char>|
                cache@.is_ready(k) && !old(cache)@.is_ready(k) ==> fetched_as(
                    *fetch,
                    k,
                    cache@.ready[k],
                ),
            forall|entry: &Parsed, repo: &CachedRepository| apply.requires((entry, repo)),
            forall|request: &FetchRequest| fetch.requires((request,)),
            forall|k: int|
                0 <= k < i ==> outcome_is_of(entries[k], #[trigger] outcomes[k], *apply, *fetch),
        decreases entries.len() - i,
    {
        let config = configuration_of(&entries[i]);
        let ghost before = cache@;
        let outcome = match cache.get_or_fetch(&config, fetch) {
            Ok(repo) => {
                let result = apply(&entries[i], &repo);
                proof {
                    assert(key_of(config) == entry_key(entries[i as int]));
                    assert(repo@ == cache@.ready[entry_key(entries[i as int])]);
                    assert(applied_on(
                        *apply,
                        entries[i as int],
                        cache@.ready[entry_key(entries[i as int])],
                        result,
                    ));
                }
                EntryOutcome::Applied(result)
            },
            Err(CacheError::Checkout(failure)) => {
                proof {
                    assert(before.decision(key_of(config)) == Decision::Fetch);
                }
                EntryOutcome::FetchFailed(failure)
            },
            Err(CacheError::Busy) => EntryOutcome::Busy,
            Err(CacheError::Lock(e)) => {
                return Err(e);
            },
        };
        assert(outcome_is_of(entries[i as int], outcome, *apply, *fetch));
        assert(key_of(config) == entry_key(entries[i as int]));
        assert(outcome is Busy <==> old(cache)@.in_flight(entry_key(entries[i as int])));
        let ghost done = outcomes@;
        outcomes.push(outcome);
        assert forall|k: int| 0 <= k < i + 1 implies ((#[trigger] outcomes[k]) is Busy <==> old(cache)@.in_flight(entry_key(entries[k]))) by {
            if k < i {
                assert(outcomes[k] == done[k]);
            }
        }
        assert forall|k: int| 0 <= k < i + 1 && (#[trigger] outcomes[k]) is Applied implies cache@.is_ready(
            entry_key(entries[k]),
        ) && applied_on(
            *apply,
            entries[k],
            cache@.ready[entry_key(entries[k])],
            outcomes[k]->Applied_0,
        ) by {
            if k < i {
                assert(outcomes[k] == done[k]);
                assert(before.is_ready(entry_key(entries[k])));
                assert(cache@.ready[entry_key(entries[k])] == before.ready[entry_key(entries[k])]);
            }
        }
        assert forall|k: Seq<char>| cache@.is_ready(k) && !old(cache)@.is_ready(k) implies fetched_as(
            *fetch,
            k,
            cache@.ready[k],
        ) by {
            if before.is_ready(k) {
                assert(cache@.ready[k] == before.ready[k]);
            }
        }
        assert forall|k: int| 0 <= k < i + 1 implies outcome_is_of(
            entries[k],
            #[trigger] outcomes[k],
            *apply,
            *fetch,
        ) by {
            if k < i {
                assert(outcomes[k] == done[k]);
            }
        }
        i += 1;
    }
    Ok(aggregate(outcomes))
}

/// An entry of the repository with the key `key` takes its files from
/// `path`.
pub open spec fn needs_path(entries: Seq<Parsed>, key: Seq<char>, path: Seq<char>) -> bool {
    exists|i: int|
        0 <= i < entries.len() && entry_key(#[trigger] entries[i]) == key && entries[i].src@ == path
}

/// The paths that the entries of one repository take their files from:
/// what a checkout that is narrowed to the wanted paths must hold. Each
/// path comes once, in the order of the entries.
pub fn paths_for_key(entries: &Vec<Parsed>, key: &str) -> (paths: Vec<String>)
    ensures
        forall|p: Seq<char>| lists(texts(paths@), p) <==> needs_path(entries@, key@, p),
        forall|a: int, b: int| 0 <= a < b < paths.len() ==> paths[a]@ != paths[b]@,
{
    let mut paths: Vec<String> = Vec::new();
    let mut i: usize = 0;
    while i < entries.len()
        invariant
            i <= entries.len(),
            forall|p: Seq<char>|
                lists(texts(paths@), p) <==> needs_path(entries@.take(i as int), key@, p),
            forall|a: int, b: int| 0 <= a < b < paths.len() ==> paths[a]@ != paths[b]@,
        decreases entries.len() - i,
    {
        let entry = &entries[i];
        let config = configuration_of(entry);
        let entry_key_text = CacheKeyGenerator::generate_key(&config);
        let ghost before = texts(paths@);
        let ghost seen = entries@.take(i as int);
        let ghost now = entries@.take(i + 1);
        proof {
            assert(entry_key_text@ == entry_key(*entry));
            assert(now.len() == i + 1);
            assert(now[i as int] == *entry);
            assert forall|k: int| 0 <= k < i implies now[k] == seen[k] by {}
        }
        let wanted = str_eq(entry_key_text.as_str(), key);
        if wanted && !is_listed(&paths, entry.src.as_str()) {
            paths.push(entry.src.clone());
            proof {
                let after = texts(paths@);
                assert(after =~= before.push(entry.src@));
                assert forall|p: Seq<char>| lists(after, p) <==> needs_path(now, key@, p) by {
                    if lists(after, p) {
                        let k = choose|k: int| 0 <= k < after.len() && after[k] == p;
                        if k < before.len() {
                            assert(before[k] == p);
                            assert(lists(before, p));
                            assert(needs_path(seen, key@, p));
                            let j = choose|j: int|
                                0 <= j < seen.len() && entry_key(#[trigger] seen[j]) == key@ && seen[j].src@
                                    == p;
                            assert(now[j] == seen[j]);
                        } else {
                            assert(now[i as int].src@ == p);
                        }
                    }
                    if needs_path(now, key@, p) {
                        let j = choose|j: int|
                            0 <= j < now.len() && entry_key(#[trigger] now[j]) == key@ && now[j].src@ == p;
                        if j < i {
                            assert(seen[j] == now[j]);
                            assert(needs_path(seen, key@, p));
                            assert(lists(before, p));
                            let k = choose|k: int| 0 <= k < before.len() && before[k] == p;
                            assert(after[k] == p);
                        } else {
                            assert(after[after.len() - 1] == p);
                        }
                    }
                }
                assert forall|a: int, b: int| 0 <= a < b < paths.len() implies paths[a]@ != paths[b]@ by {
                    if b == paths.len() - 1 {
                        assert(before[a] == paths[a]@);
                    }
                }
            }
        } else {
            proof {
                assert forall|p: Seq<char>| lists(before, p) <==> needs_path(now, key@, p) by {
                    if lists(before, p) {
                        assert(needs_path(seen, key@, p));
                        let j = choose|j: int|
                            0 <= j < seen.len() && entry_key(#[trigger] seen[j]) == key@ && seen[j].src@
                                == p;
                        assert(now[j] == seen[j]);
                    }
                    if needs_path(now, key@, p) {
                        let j = choose|j: int|
                            0 <= j < now.len() && entry_key(#[trigger] now[j]) == key@ && now[j].src@ == p;
                        if j < i {
                            assert(seen[j] == now[j]);
                            assert(needs_path(seen, key@, p));
                            assert(lists(before, p));
                        } else {
                            assert(wanted);
                            assert(lists(before, entry.src@));
                        }
                    }
                }
            }
        }
        i += 1;
    }
    assert(entries@.take(entries.len() as int) =~= entries@);
    paths
}

} // verus!
