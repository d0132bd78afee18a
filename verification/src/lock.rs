//! One exclusive lock for each repository, so that a repository is fetched
//! by one caller at a time.
//!
//! The table of locks is a plain value that its owner passes on: whoever
//! shares it between workers guards it as a whole, and every operation here
//! is one indivisible step on it.

use vstd::prelude::*;
use crate::text::str_eq;

verus! {

/// The text of the failure that a poisoned table answers with.
pub const LOCK_TABLE_POISONED: &'static str =
    "Failed to acquire global lock: poisoned lock: another task failed inside";

/// The table of locks as a mathematical value: for each repository that has
/// a lock, whether the lock is held.
pub struct LockTable {
    pub locks: Map<Seq<char>, bool>,
    pub poisoned: bool,
}

impl LockTable {
    /// The table with no lock in it.
    pub open spec fn empty() -> LockTable {
        LockTable { locks: Map::empty(), poisoned: false }
    }

    /// A lock exists for `key`.
    pub open spec fn has_lock(self, key: Seq<char>) -> bool {
        self.locks.dom().contains(key)
    }

    /// The lock of `key` is held.
    pub open spec fn is_held(self, key: Seq<char>) -> bool {
        self.locks.dom().contains(key) && self.locks[key]
    }

    /// The table once the lock of `key` is held; the lock is made if there
    /// was none.
    pub open spec fn with_held(self, key: Seq<char>) -> LockTable {
        LockTable { locks: self.locks.insert(key, true), poisoned: self.poisoned }
    }

    /// One attempt to take the lock of `key` without waiting: the table
    /// after it, and the answer. A poisoned table answers nothing and stays
    /// as it is; a held lock answers `false` and stays held; else the lock is
    /// taken.
    pub open spec fn try_acquire(self, key: Seq<char>) -> (LockTable, Option<bool>) {
        if self.poisoned {
            (self, None)
        } else if self.is_held(key) {
            (self, Some(false))
        } else {
            (self.with_held(key), Some(true))
        }
    }

    /// The table once the lock of `key` is free again. The lock itself stays
    /// in the table.
    pub open spec fn release(self, key: Seq<char>) -> LockTable {
        if self.has_lock(key) {
            LockTable { locks: self.locks.insert(key, false), poisoned: self.poisoned }
        } else {
            self
        }
    }

    /// The table once it is known to be corrupt.
    pub open spec fn poison(self) -> LockTable {
        LockTable { locks: self.locks, poisoned: true }
    }
}

struct RepoLock {
    url: String,
    held: bool,
}

/// The locks of the repositories seen so far. A lock is made when its
/// repository is first asked for and is never removed.
pub struct RepositoryLockManager {
    locks: Vec<RepoLock>,
    poisoned: bool,
    model: Ghost<Map<Seq<char>, bool>>,
}

impl View for RepositoryLockManager {
    type V = LockTable;

    closed spec fn view(&self) -> LockTable {
        LockTable { locks: self.model@, poisoned: self.poisoned }
    }
}

/// What a call that may fail on a poisoned table answered.
pub open spec fn answer_of<T>(r: Result<T, String>) -> Option<T> {
    match r {
        Ok(v) => Some(v),
        Err(_) => None,
    }
}

impl RepositoryLockManager {
    /// The manager is in order: it holds one lock for each repository it
    /// knows.
    pub closed spec fn wf(&self) -> bool {
        &&& forall|i: int| 0 <= i < self.locks.len() ==> {
            &&& self.model@.dom().contains(#[trigger] self.locks[i].url@)
            &&& self.model@[self.locks[i].url@] == self.locks[i].held
        }
        &&& forall|k: Seq<char>| self.model@.dom().contains(k) ==> exists|i: int|
            0 <= i < self.locks.len() && #[trigger] self.locks[i].url@ == k
        &&& forall|i: int, j: int| 0 <= i < j < self.locks.len() ==> self.locks[i].url@
            != self.locks[j].url@
        &&& self.model@.dom().finite()
        &&& self.model@.dom().len() == self.locks.len()
    }

    /// A manager with no locks.
    pub fn new() -> (manager: Self)
        ensures
            manager.wf(),
            manager@ == LockTable::empty(),
    {
        Self { locks: Vec::new(), poisoned: false, model: Ghost(Map::empty()) }
    }

    fn find(&self, repo_url: &str) -> (at: Option<usize>)
        ensures
            match at {
                Some(i) => i < self.locks.len() && self.locks[i as int].url@ == repo_url@,
                None => forall|i: int| 0 <= i < self.locks.len() ==> self.locks[i].url@ != repo_url@,
            },
    {
        let mut i: usize = 0;
        while i < self.locks.len()
            invariant
                i <= self.locks.len(),
                forall|k: int| 0 <= k < i ==> self.locks[k].url@ != repo_url@,
            decreases self.locks.len() - i,
        {
            if str_eq(self.locks[i].url.as_str(), repo_url) {
                return Some(i);
            }
            i += 1;
        }
        None
    }

    /// How many repositories have a lock.
    pub fn lock_count(&self) -> (n: usize)
        requires
            self.wf(),
        ensures
            n == self@.locks.dom().len(),
    {
        self.locks.len()
    }

    /// Whether the lock of `repo_url` is held.
    pub fn is_locked(&self, repo_url: &str) -> (held: bool)
        requires
            self.wf(),
        ensures
            held == self@.is_held(repo_url@),
    {
        match self.find(repo_url) {
            Some(i) => self.locks[i].held,
            None => false,
        }
    }

    /// Whether the table has been marked corrupt.
    pub fn is_poisoned(&self) -> (poisoned: bool)
        ensures
            poisoned == self@.poisoned,
    {
        self.poisoned
    }

    /// Marks the table corrupt: from now on every attempt to take a lock
    /// fails, so that no two callers can ever fetch one repository at once.
    pub fn poison(&mut self)
        requires
            old(self).wf(),
        ensures
            final(self).wf(),
            final(self)@ == old(self)@.poison(),
    {
        self.poisoned = true;
        proof {
            assert forall|k: Seq<char>| self.model@.dom().contains(k) implies exists|j: int|
                0 <= j < self.locks.len() && #[trigger] self.locks[j].url@ == k by {
                let j = choose|j: int|
                    0 <= j < old(self).locks.len() && #[trigger] old(self).locks[j].url@ == k;
                assert(self.locks[j].url@ == k);
            }
        }
    }

    fn mark(&mut self, repo_url: &str, held: bool)
        requires
            old(self).wf(),
            !held ==> old(self)@.has_lock(repo_url@),
        ensures
            final(self).wf(),
            final(self)@ == (LockTable {
                locks: old(self)@.locks.insert(repo_url@, held),
                poisoned: old(self)@.poisoned,
            }),
    {
        let ghost before = self.model@;
        let ghost key = repo_url@;
        match self.find(repo_url) {
            Some(i) => {
                self.locks.set(i, RepoLock { url: repo_url.to_owned(), held });
                self.model = Ghost(before.insert(key, held));
                proof {
                    assert(before.insert(key, held).dom() =~= before.dom());
                    assert forall|k: Seq<char>| self.model@.dom().contains(k) implies exists|j: int|
                        0 <= j < self.locks.len() && #[trigger] self.locks[j].url@ == k by {
                        let j = choose|j: int|
                            0 <= j < old(self).locks.len() && #[trigger] old(self).locks[j].url@ == k;
                        assert(self.locks[j].url@ == k);
                    }
                }
            },
            None => {
                self.locks.push(RepoLock { url: repo_url.to_owned(), held });
                self.model = Ghost(before.insert(key, held));
                proof {
                    assert(!before.dom().contains(key)) by {
                        if before.dom().contains(key) {
                            let j = choose|j: int|
                                0 <= j < old(self).locks.len() && #[trigger] old(self).locks[j].url@
                                    == key;
                        }
                    }
                    assert(before.insert(key, held).dom() =~= before.dom().insert(key));
                    assert forall|k: Seq<char>| self.model@.dom().contains(k) implies exists|j: int|
                        0 <= j < self.locks.len() && #[trigger] self.locks[j].url@ == k by {
                        if k == key {
                            assert(self.locks[self.locks.len() - 1].url@ == k);
                        } else {
                            let j = choose|j: int|
                                0 <= j < old(self).locks.len() && #[trigger] old(self).locks[j].url@
                                    == k;
                            assert(self.locks[j].url@ == k);
                        }
                    }
                }
            },
        }
    }

    /// Takes the lock of `repo_url` if it is free, without waiting, and says
    /// whether it was taken. The lock is made on first use. On a poisoned
    /// table the call fails and changes nothing.
    pub fn try_acquire_lock(&mut self, repo_url: &str) -> (r: Result<bool, String>)
        requires
            old(self).wf(),
        ensures
            final(self).wf(),
            (final(self)@, answer_of(r)) == old(self)@.try_acquire(repo_url@),
            r is Err ==> r->Err_0@ == LOCK_TABLE_POISONED@,
    {
        if self.poisoned {
            return Err(LOCK_TABLE_POISONED.to_owned());
        }
        if self.is_locked(repo_url) {
            return Ok(false);
        }
        self.mark(repo_url, true);
        Ok(true)
    }

    /// Takes the lock of `repo_url`, which is free. A caller that shares the
    /// table with others waits until the lock is free before it calls this;
    /// the owner of an unshared table would wait for ever on a held lock, so
    /// the precondition leaves that out. On a poisoned table the call fails
    /// and changes nothing.
    pub fn acquire_lock(&mut self, repo_url: &str) -> (r: Result<(), String>)
        requires
            old(self).wf(),
            !old(self)@.is_held(repo_url@),
        ensures
            final(self).wf(),
            match r {
                Ok(_) => !old(self)@.poisoned && final(self)@ == old(self)@.with_held(repo_url@),
                Err(e) => old(self)@.poisoned && final(self)@ == old(self)@ && e@
                    == LOCK_TABLE_POISONED@,
            },
    {
        if self.poisoned {
            return Err(LOCK_TABLE_POISONED.to_owned());
        }
        self.mark(repo_url, true);
        Ok(())
    }

    /// Frees the lock of `repo_url`. The lock stays in the table.
    pub fn release_lock(&mut self, repo_url: &str)
        requires
            old(self).wf(),
        ensures
            final(self).wf(),
            final(self)@ == old(self)@.release(repo_url@),
    {
        if self.is_locked(repo_url) {
            self.mark(repo_url, false);
        } else {
            proof {
                if self@.has_lock(repo_url@) {
                    assert(self@.locks.insert(repo_url@, false) =~= self@.locks);
                }
            }
        }
    }
}

/// While one caller holds the lock of a key, a second attempt on that key
/// is answered `false` at once and leaves the table as it is: of two
/// attempts in a row, at most one is granted.
pub proof fn lemma_second_try_acquire_is_refused(table: LockTable, key: Seq<char>)
    requires
        !table.poisoned,
    ensures
        ({
            let first = table.try_acquire(key);
            let second = first.0.try_acquire(key);
            &&& first.0.is_held(key)
            &&& second.1 == Some(false)
            &&& second.0 == first.0
            &&& !(first.1 == Some(true) && second.1 == Some(true))
        }),
{
}

/// A held lock stays held through every attempt, on any key, and through
/// the release of any other key: only its own release frees it.
pub proof fn lemma_held_until_released(table: LockTable, key: Seq<char>, other: Seq<char>)
    requires
        table.is_held(key),
    ensures
        table.try_acquire(other).0.is_held(key),
        other != key ==> table.release(other).is_held(key),
        !table.release(key).is_held(key),
        table.release(key).has_lock(key),
{
}

/// A lock, once made, is never removed, whatever is done to the table.
pub proof fn lemma_locks_are_never_removed(table: LockTable, key: Seq<char>, other: Seq<char>)
    requires
        table.has_lock(key),
    ensures
        table.try_acquire(other).0.has_lock(key),
        table.release(other).has_lock(key),
        table.poison().has_lock(key),
{
}

/// A poisoned table grants nothing: no attempt on it is answered, and it
/// stays poisoned.
pub proof fn lemma_poisoned_table_grants_nothing(table: LockTable, key: Seq<char>)
    requires
        table.poisoned,
    ensures
        table.try_acquire(key) == (table, None::<bool>),
        table.release(key).poisoned,
{
}

} // verus!
