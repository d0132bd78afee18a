//! A cache of earlier commit messages, kept for each author and
//! repository.

use vstd::prelude::*;
use vstd::string::*;
use crate::text::{
    capped, index_of_text, lemma_index_of_text, pieces, split_fields, str_eq, str_lt, text_lt,
    text_lt_from, texts, Separator,
};

verus! {

/// The most messages that are kept for one author and repository.
pub const MAX_MESSAGES_PER_AUTHOR_REPO: usize = 1000;

/// A cached commit message as a mathematical value.
pub struct Message {
    pub message: Seq<char>,
    pub timestamp: Seq<char>,
    pub hash: Seq<char>,
}

/// Represents a cached commit message with metadata.
#[derive(Debug)]
pub struct CachedCommitMessage {
    pub message: String,
    pub timestamp: String,
    pub hash: String,
}

impl View for CachedCommitMessage {
    type V = Message;

    open spec fn view(&self) -> Message {
        Message { message: self.message@, timestamp: self.timestamp@, hash: self.hash@ }
    }
}

impl CachedCommitMessage {
    /// A copy of the message.
    pub fn duplicate(&self) -> (copy: Self)
        ensures
            copy@ == self@,
    {
        CachedCommitMessage {
            message: self.message.clone(),
            timestamp: self.timestamp.clone(),
            hash: self.hash.clone(),
        }
    }
}

/// The messages of a list, as values.
pub open spec fn messages_of(list: Seq<CachedCommitMessage>) -> Seq<Message> {
    Seq::new(list.len(), |i: int| list[i]@)
}

struct CacheEntry {
    key: String,
    messages: Vec<CachedCommitMessage>,
}

/// Cache for commit messages organized by author and repository. Each
/// list of messages stands under the key `"author_email:repo_path"`.
pub struct CommitMessageCache {
    cache: Vec<CacheEntry>,
    cache_dir: String,
}

/// Statistics about the cache.
#[derive(Debug)]
pub struct CacheStats {
    pub total_messages: usize,
    pub total_authors: usize,
    pub total_repos: usize,
}

/// The key of an author and a repository.
pub open spec fn cache_key_text(author_email: Seq<char>, repo_path: Seq<char>) -> Seq<char> {
    author_email + ":"@ + repo_path
}

/// The keys of a cache, in order.
pub open spec fn keys_of(model: Seq<(Seq<char>, Seq<Message>)>) -> Seq<Seq<char>> {
    Seq::new(model.len(), |i: int| model[i].0)
}

/// The messages that stand under `key`; none if the key is unknown.
pub open spec fn messages_at(model: Seq<(Seq<char>, Seq<Message>)>, key: Seq<char>) -> Seq<Message> {
    let at = index_of_text(keys_of(model), key);
    if at < model.len() {
        model[at].1
    } else {
        Seq::empty()
    }
}

/// The repository that a key names: what stands between its first and its
/// second colon.
pub open spec fn repo_of_key(key: Seq<char>) -> Option<Seq<char>> {
    let parts = pieces(key, ':');
    if parts.len() > 1 {
        Some(parts[1])
    } else {
        None
    }
}

/// The author that a key names: what stands before its first colon.
pub open spec fn author_of_key(key: Seq<char>) -> Seq<char> {
    let parts = pieces(key, ':');
    if parts.len() > 0 {
        parts[0]
    } else {
        Seq::empty()
    }
}

/// The ranking names the message at position `j`.
pub open spec fn ranks(order: Seq<usize>, j: int) -> bool {
    exists|k: int| 0 <= k < order.len() && #[trigger] order[k] == j
}

/// `order` puts the messages newest first: it names each message once, no
/// message stands before one with a later timestamp, and messages with the
/// same timestamp keep the order they had.
pub open spec fn is_newest_first(all: Seq<Message>, order: Seq<usize>) -> bool {
    &&& order.len() == all.len()
    &&& forall|k: int| 0 <= k < order.len() ==> (#[trigger] order[k]) < all.len()
    &&& forall|a: int, b: int| 0 <= a < b < order.len() ==> order[a] != order[b]
    &&& forall|j: int| 0 <= j < all.len() ==> #[trigger] ranks(order, j)
    &&& forall|a: int, b: int|
        0 <= a < b < order.len() ==> !text_lt(
            all[order[a] as int].timestamp,
            all[order[b] as int].timestamp,
        )
    &&& forall|a: int, b: int|
        0 <= a < b < order.len() && all[order[a] as int].timestamp == all[order[b] as int].timestamp
            ==> order[a] < order[b]
}

/// The first `limit` messages in the given order.
pub open spec fn arranged(all: Seq<Message>, order: Seq<usize>, limit: nat) -> Seq<Message> {
    Seq::new(
        if order.len() > limit {
            limit
        } else {
            order.len()
        },
        |k: int| all[order[k] as int],
    )
}

/// `kept` is what is kept of the messages `all`: all of them while they are
/// no more than the limit, else the newest up to the limit, newest first.
pub open spec fn is_kept_of(all: Seq<Message>, kept: Seq<Message>) -> bool {
    if all.len() > MAX_MESSAGES_PER_AUTHOR_REPO {
        exists|order: Seq<usize>|
            is_newest_first(all, order) && kept == arranged(
                all,
                order,
                MAX_MESSAGES_PER_AUTHOR_REPO as nat,
            )
    } else {
        kept == all
    }
}

/// The authors of the keys that name the repository, in the order of the
/// keys.
pub open spec fn authors_of(keys: Seq<Seq<char>>, repo_path: Seq<char>) -> Seq<Seq<char>>
    decreases keys.len(),
{
    if keys.len() == 0 {
        Seq::empty()
    } else if repo_of_key(keys.last()) == Some(repo_path) {
        authors_of(keys.drop_last(), repo_path).push(author_of_key(keys.last()))
    } else {
        authors_of(keys.drop_last(), repo_path)
    }
}

/// The cache without the entries of the repository.
pub open spec fn without_repo(model: Seq<(Seq<char>, Seq<Message>)>, repo_path: Seq<char>) -> Seq<
    (Seq<char>, Seq<Message>),
>
    decreases model.len(),
{
    if model.len() == 0 {
        Seq::empty()
    } else if repo_of_key(model.last().0) == Some(repo_path) {
        without_repo(model.drop_last(), repo_path)
    } else {
        without_repo(model.drop_last(), repo_path).push(model.last())
    }
}

/// The number of messages in the cache.
pub open spec fn message_total(model: Seq<(Seq<char>, Seq<Message>)>) -> nat
    decreases model.len(),
{
    if model.len() == 0 {
        0
    } else {
        message_total(model.drop_last()) + model.last().1.len()
    }
}

/// The repository that a key counts for in the statistics: a key without a
/// colon counts for the repository with the empty name.
pub open spec fn counted_repo(key: Seq<char>) -> Seq<char> {
    match repo_of_key(key) {
        Some(repo) => repo,
        None => Seq::empty(),
    }
}

/// `text` is among the first `n` of `repos`.
pub open spec fn seen_before(repos: Seq<Seq<char>>, n: int, text: Seq<char>) -> bool {
    exists|k: int| 0 <= k < n && k < repos.len() && #[trigger] repos[k] == text
}

/// The number of different repositories among the keys: each repository
/// counts where it is first seen.
pub open spec fn repo_total(keys: Seq<Seq<char>>) -> nat
    decreases keys.len(),
{
    if keys.len() == 0 {
        0
    } else {
        let rest = keys.drop_last();
        let repos = Seq::new(rest.len(), |i: int| counted_repo(rest[i]));
        repo_total(rest) + if seen_before(repos, rest.len() as int, counted_repo(keys.last())) {
            0nat
        } else {
            1nat
        }
    }
}

proof fn lemma_lt_irreflexive(a: Seq<char>, i: int)
    requires
        0 <= i,
    ensures
        !text_lt_from(a, a, i),
    decreases a.len() - i,
{
    if i < a.len() {
        lemma_lt_irreflexive(a, i + 1);
    }
}

proof fn lemma_lt_transitive(a: Seq<char>, b: Seq<char>, c: Seq<char>, i: int)
    requires
        0 <= i,
        text_lt_from(a, b, i),
        text_lt_from(b, c, i),
    ensures
        text_lt_from(a, c, i),
    decreases a.len() - i,
{
    if i < a.len() && a[i] == b[i] && b[i] == c[i] {
        lemma_lt_transitive(a, b, c, i + 1);
    }
}

fn newest_first(list: &Vec<CachedCommitMessage>) -> (order: Vec<usize>)
    ensures
        is_newest_first(messages_of(list@), order@),
{
    let ghost all = messages_of(list@);
    let mut order: Vec<usize> = Vec::new();
    let mut i: usize = 0;
    while i < list.len()
        invariant
            i <= list.len(),
            all == messages_of(list@),
            order.len() == i,
            forall|k: int| 0 <= k < order.len() ==> (#[trigger] order[k]) < i,
            forall|a: int, b: int| 0 <= a < b < order.len() ==> order[a] != order[b],
            forall|j: int| 0 <= j < i ==> #[trigger] ranks(order@, j),
            forall|a: int, b: int|
                0 <= a < b < order.len() ==> !text_lt(
                    all[order[a] as int].timestamp,
                    all[order[b] as int].timestamp,
                ),
            forall|a: int, b: int|
                0 <= a < b < order.len() && all[order[a] as int].timestamp
                    == all[order[b] as int].timestamp ==> order[a] < order[b],
        decreases list.len() - i,
    {
        let ghost stamp = all[i as int].timestamp;
        let mut p: usize = 0;
        while p < order.len() && !str_lt(
            list[order[p]].timestamp.as_str(),
            list[i].timestamp.as_str(),
        )
            invariant
                p <= order.len(),
                i < list.len(),
                all == messages_of(list@),
                stamp == all[i as int].timestamp,
                forall|k: int| 0 <= k < order.len() ==> (#[trigger] order[k]) < i,
                forall|k: int| 0 <= k < p ==> !text_lt(all[order[k] as int].timestamp, stamp),
            decreases order.len() - p,
        {
            p += 1;
        }
        let ghost before = order@;
        order.insert(p, i);
        proof {
            assert(forall|k: int| 0 <= k < p ==> order[k] == before[k]);
            assert(order[p as int] == i);
            assert(forall|k: int| p < k < order.len() ==> order[k] == before[k - 1]);
            assert forall|j: int| 0 <= j < i + 1 implies #[trigger] ranks(order@, j) by {
                if j == i {
                    assert(order[p as int] == j);
                } else {
                    assert(ranks(before, j));
                    let k = choose|k: int| 0 <= k < before.len() && #[trigger] before[k] == j;
                    if k < p {
                        assert(order[k] == j);
                    } else {
                        assert(order[k + 1] == j);
                    }
                }
            }
            assert forall|a: int, b: int| 0 <= a < b < order.len() implies order[a] != order[b] by {
                let x = if a < p { a } else { a - 1 };
                let y = if b < p { b } else { b - 1 };
                if a != p && b != p {
                    assert(order[a] == before[x]);
                    assert(order[b] == before[y]);
                }
            }
            assert forall|a: int, b: int| 0 <= a < b < order.len() implies !text_lt(
                all[order[a] as int].timestamp,
                all[order[b] as int].timestamp,
            ) && (all[order[a] as int].timestamp == all[order[b] as int].timestamp ==> order[a]
                < order[b]) by {
                if b < p {
                } else if b == p {
                } else if a < p {
                    assert(order[b] == before[b - 1]);
                } else if a == p {
                    assert(order[b] == before[b - 1]);
                    let first = all[before[p as int] as int].timestamp;
                    let other = all[before[b - 1] as int].timestamp;
                    assert(text_lt(first, stamp));
                    if b - 1 > p {
                        assert(!text_lt(first, other));
                    }
                    if text_lt(stamp, other) {
                        lemma_lt_transitive(first, stamp, other, 0);
                        lemma_lt_irreflexive(first, 0);
                    }
                    if stamp == other {
                        lemma_lt_irreflexive(first, 0);
                    }
                } else {
                    assert(order[a] == before[a - 1]);
                    assert(order[b] == before[b - 1]);
                }
            }
        }
        i += 1;
    }
    order
}

impl View for CommitMessageCache {
    type V = Seq<(Seq<char>, Seq<Message>)>;

    closed spec fn view(&self) -> Seq<(Seq<char>, Seq<Message>)> {
        Seq::new(self.cache.len() as nat, |i: int| (self.cache[i].key@, messages_of(self.cache[i].messages@)))
    }
}

impl CommitMessageCache {
    /// The cache is in order: no key stands in it twice.
    pub closed spec fn wf(&self) -> bool {
        forall|i: int, j: int| 0 <= i < j < self.cache.len() ==> self.cache[i].key@ != self.cache[j].key@
    }

    /// The directory that the cache is stored in.
    pub closed spec fn directory(&self) -> Seq<char> {
        self.cache_dir@
    }

    /// An empty cache that is stored in `cache_dir`.
    pub fn empty(cache_dir: String) -> (cache: Self)
        ensures
            cache.wf(),
            cache@ == Seq::<(Seq<char>, Seq<Message>)>::empty(),
            cache.directory() == cache_dir@,
    {
        let cache = CommitMessageCache { cache: Vec::new(), cache_dir };
        assert(cache@ =~= Seq::<(Seq<char>, Seq<Message>)>::empty());
        cache
    }

    /// The directory that the cache is stored in.
    pub fn cache_dir(&self) -> (dir: &str)
        ensures
            dir@ == self.directory(),
    {
        self.cache_dir.as_str()
    }

    /// The keys of the cache, in order.
    pub fn keys(&self) -> (keys: Vec<String>)
        ensures
            texts(keys@) == keys_of(self@),
    {
        let mut keys: Vec<String> = Vec::new();
        let mut i: usize = 0;
        while i < self.cache.len()
            invariant
                i <= self.cache.len(),
                keys.len() == i,
                forall|k: int| 0 <= k < i ==> keys[k]@ == self.cache[k].key@,
            decreases self.cache.len() - i,
        {
            keys.push(self.cache[i].key.clone());
            i += 1;
        }
        assert(texts(keys@) =~= keys_of(self@));
        keys
    }

    fn find(&self, key: &str) -> (at: usize)
        ensures
            at == index_of_text(keys_of(self@), key@),
            at <= self.cache.len(),
            at < self.cache.len() ==> self.cache[at as int].key@ == key@,
            at == self.cache.len() ==> forall|k: int|
                0 <= k < self.cache.len() ==> self.cache[k].key@ != key@,
    {
        let mut i: usize = 0;
        while i < self.cache.len()
            invariant
                i <= self.cache.len(),
                forall|k: int| 0 <= k < i ==> keys_of(self@)[k] != key@,
                forall|k: int| 0 <= k < i ==> self.cache[k].key@ != key@,
            decreases self.cache.len() - i,
        {
            if str_eq(self.cache[i].key.as_str(), key) {
                proof {
                    lemma_index_of_text(keys_of(self@), key@, i as int);
                }
                return i;
            }
            i += 1;
        }
        proof {
            lemma_index_of_text(keys_of(self@), key@, self.cache.len() as int);
        }
        i
    }

    fn key_for(author_email: &str, repo_path: &str) -> (key: String)
        ensures
            key@ == cache_key_text(author_email@, repo_path@),
    {
        let mut key = author_email.to_owned();
        key.append(":");
        key.append(repo_path);
        key
    }

    /// The messages that stand under `key`, as they are stored.
    pub fn messages_under(&self, key: &str) -> (messages: Vec<CachedCommitMessage>)
        ensures
            messages_of(messages@) == messages_at(self@, key@),
    {
        let at = self.find(key);
        let mut messages: Vec<CachedCommitMessage> = Vec::new();
        if at < self.cache.len() {
            let list = &self.cache[at].messages;
            let mut i: usize = 0;
            while i < list.len()
                invariant
                    i <= list.len(),
                    messages.len() == i,
                    forall|k: int| 0 <= k < i ==> messages[k]@ == list[k]@,
                decreases list.len() - i,
            {
                messages.push(list[i].duplicate());
                i += 1;
            }
            assert(messages_of(messages@) =~= messages_of(list@));
        } else {
            assert(messages_of(messages@) =~= Seq::<Message>::empty());
        }
        messages
    }

    /// Get commit messages for a specific author and repository.
    pub fn get_commit_messages(&self, author_email: &str, repo_path: &str) -> (messages: Vec<
        CachedCommitMessage,
    >)
        ensures
            messages_of(messages@) == messages_at(self@, cache_key_text(author_email@, repo_path@)),
    {
        let key = Self::key_for(author_email, repo_path);
        self.messages_under(key.as_str())
    }

    /// Puts `messages` after those that stand under `key`, and keeps the
    /// newest where there are more than the limit.
    pub fn add_under(&mut self, key: String, messages: Vec<CachedCommitMessage>)
        requires
            old(self).wf(),
        ensures
            final(self).wf(),
            final(self).directory() == old(self).directory(),
            is_kept_of(
                messages_at(old(self)@, key@) + messages_of(messages@),
                messages_at(final(self)@, key@),
            ),
            keys_of(final(self)@) == if index_of_text(keys_of(old(self)@), key@) < old(self)@.len() {
                keys_of(old(self)@)
            } else {
                keys_of(old(self)@).push(key@)
            },
            forall|i: int|
                0 <= i < old(self)@.len() && i != index_of_text(keys_of(old(self)@), key@)
                    ==> final(self)@[i] == old(self)@[i],
    {
        let at = self.find(key.as_str());
        let ghost earlier = messages_at(self@, key@);
        let mut all: Vec<CachedCommitMessage> = if at < self.cache.len() {
            let list = &self.cache[at].messages;
            let mut copy: Vec<CachedCommitMessage> = Vec::new();
            let mut i: usize = 0;
            while i < list.len()
                invariant
                    i <= list.len(),
                    copy.len() == i,
                    forall|k: int| 0 <= k < i ==> copy[k]@ == list[k]@,
                decreases list.len() - i,
            {
                copy.push(list[i].duplicate());
                i += 1;
            }
            assert(messages_of(copy@) =~= messages_of(list@));
            copy
        } else {
            Vec::new()
        };
        assert(messages_of(all@) =~= earlier);
        let mut j: usize = 0;
        while j < messages.len()
            invariant
                j <= messages.len(),
                messages_of(all@) == earlier + messages_of(messages@).take(j as int),
            decreases messages.len() - j,
        {
            let ghost before = messages_of(all@);
            all.push(messages[j].duplicate());
            proof {
                assert(messages_of(all@) =~= before.push(messages[j as int]@));
                assert(messages_of(messages@).take(j + 1) =~= messages_of(messages@).take(
                    j as int,
                ).push(messages[j as int]@));
                assert(messages_of(all@) =~= earlier + messages_of(messages@).take(j + 1));
            }
            j += 1;
        }
        assert(messages_of(messages@).take(messages.len() as int) =~= messages_of(messages@));
        let kept: Vec<CachedCommitMessage> = if all.len() > MAX_MESSAGES_PER_AUTHOR_REPO {
            let order = newest_first(&all);
            let mut newest: Vec<CachedCommitMessage> = Vec::new();
            let mut k: usize = 0;
            while k < MAX_MESSAGES_PER_AUTHOR_REPO
                invariant
                    k <= MAX_MESSAGES_PER_AUTHOR_REPO < all.len(),
                    is_newest_first(messages_of(all@), order@),
                    newest.len() == k,
                    forall|m: int| 0 <= m < k ==> newest[m]@ == messages_of(all@)[order[m] as int],
                decreases MAX_MESSAGES_PER_AUTHOR_REPO - k,
            {
                newest.push(all[order[k]].duplicate());
                k += 1;
            }
            assert(messages_of(newest@) =~= arranged(
                messages_of(all@),
                order@,
                MAX_MESSAGES_PER_AUTHOR_REPO as nat,
            ));
            newest
        } else {
            all
        };
        let ghost before = self@;
        let ghost kept_view = messages_of(kept@);
        if at < self.cache.len() {
            self.cache.set(at, CacheEntry { key, messages: kept });
            proof {
                assert(keys_of(self@) =~= keys_of(before));
                lemma_index_of_text(keys_of(self@), key@, at as int);
            }
        } else {
            self.cache.push(CacheEntry { key, messages: kept });
            proof {
                assert(keys_of(self@) =~= keys_of(before).push(key@));
                lemma_index_of_text(keys_of(self@), key@, at as int);
            }
        }
    }

    /// Add commit messages for a specific author and repository. They are
    /// put after the messages that are there; where that makes more than
    /// the limit, the newest are kept, newest first.
    pub fn add_commit_messages(
        &mut self,
        author_email: &str,
        repo_path: &str,
        messages: Vec<CachedCommitMessage>,
    )
        requires
            old(self).wf(),
        ensures
            final(self).wf(),
            final(self).directory() == old(self).directory(),
            is_kept_of(
                messages_at(old(self)@, cache_key_text(author_email@, repo_path@)) + messages_of(
                    messages@,
                ),
                messages_at(final(self)@, cache_key_text(author_email@, repo_path@)),
            ),
            keys_of(final(self)@) == if index_of_text(
                keys_of(old(self)@),
                cache_key_text(author_email@, repo_path@),
            ) < old(self)@.len() {
                keys_of(old(self)@)
            } else {
                keys_of(old(self)@).push(cache_key_text(author_email@, repo_path@))
            },
            forall|i: int|
                0 <= i < old(self)@.len() && i != index_of_text(
                    keys_of(old(self)@),
                    cache_key_text(author_email@, repo_path@),
                ) ==> final(self)@[i] == old(self)@[i],
    {
        let key = Self::key_for(author_email, repo_path);
        self.add_under(key, messages);
    }
}

fn repo_named_by(key: &str) -> (repo: Option<String>)
    ensures
        match repo {
            Some(name) => repo_of_key(key@) == Some(name@),
            None => repo_of_key(key@) is None,
        },
{
    let parts = split_fields(key, Separator::Char(':'), true);
    if parts.len() > 1 {
        Some(parts[1].clone())
    } else {
        None
    }
}

fn author_named_by(key: &str) -> (author: String)
    ensures
        author@ == author_of_key(key@),
{
    let parts = split_fields(key, Separator::Char(':'), true);
    if parts.len() > 0 {
        parts[0].clone()
    } else {
        String::new()
    }
}

fn names_repo(key: &str, repo_path: &str) -> (b: bool)
    ensures
        b == (repo_of_key(key@) == Some(repo_path@)),
{
    match repo_named_by(key) {
        Some(name) => str_eq(name.as_str(), repo_path),
        None => false,
    }
}

impl CommitMessageCache {
    /// Get all cached authors for a repository, in the order in which
    /// their keys came into the cache.
    pub fn get_authors_for_repo(&self, repo_path: &str) -> (authors: Vec<String>)
        ensures
            texts(authors@) == authors_of(keys_of(self@), repo_path@),
    {
        let mut authors: Vec<String> = Vec::new();
        let mut i: usize = 0;
        assert(texts(authors@) =~= Seq::<Seq<char>>::empty());
        while i < self.cache.len()
            invariant
                i <= self.cache.len(),
                texts(authors@) == authors_of(keys_of(self@).take(i as int), repo_path@),
            decreases self.cache.len() - i,
        {
            proof {
                let now = keys_of(self@).take(i + 1);
                assert(now.drop_last() =~= keys_of(self@).take(i as int));
                assert(now.last() == self.cache[i as int].key@);
            }
            if names_repo(self.cache[i].key.as_str(), repo_path) {
                let ghost before = texts(authors@);
                authors.push(author_named_by(self.cache[i].key.as_str()));
                assert(texts(authors@) =~= before.push(author_of_key(self.cache[i as int].key@)));
            }
            i += 1;
        }
        assert(keys_of(self@).take(self.cache.len() as int) =~= keys_of(self@));
        authors
    }

    /// Clear cache for a specific repository: every key that names it goes,
    /// the others stay as they are.
    pub fn clear_repo_cache(&mut self, repo_path: &str)
        requires
            old(self).wf(),
        ensures
            final(self).wf(),
            final(self).directory() == old(self).directory(),
            final(self)@ == without_repo(old(self)@, repo_path@),
    {
        let ghost start = self@;
        let ghost mut done: int = 0;
        let mut i: usize = 0;
        assert(self@ =~= without_repo(start.take(0), repo_path@) + start.skip(0));
        while i < self.cache.len()
            invariant
                self.wf(),
                self.directory() == old(self).directory(),
                start == old(self)@,
                0 <= done <= start.len(),
                i <= self.cache.len(),
                i == without_repo(start.take(done), repo_path@).len(),
                self@ == without_repo(start.take(done), repo_path@) + start.skip(done),
            decreases self.cache.len() - i,
        {
            proof {
                assert(self@[i as int] == start.skip(done)[0]);
                assert(done < start.len());
                let now = start.take(done + 1);
                assert(now.drop_last() =~= start.take(done));
                assert(now.last() == start[done]);
                assert(start.skip(done).skip(1) =~= start.skip(done + 1));
            }
            let ghost before = self@;
            if names_repo(self.cache[i].key.as_str(), repo_path) {
                let ghost entries = self.cache@;
                self.cache.remove(i);
                proof {
                    assert(self.cache@ == entries.remove(i as int));
                    let kept = without_repo(start.take(done), repo_path@);
                    assert(before[i as int] == start[done]);
                    assert(entries[i as int].key@ == start[done].0);
                    assert(without_repo(start.take(done + 1), repo_path@) == kept);
                    assert forall|k: int| 0 <= k < self@.len() implies self@[k] == (kept + start.skip(
                        done + 1,
                    ))[k] by {
                        if k < i {
                            assert(self.cache[k] == entries[k]);
                            assert(self@[k] == before[k]);
                            assert(before == kept + start.skip(done));
                            assert(kept.len() == i);
                        } else {
                            assert(self.cache[k] == entries[k + 1]);
                            assert(self@[k] == before[k + 1]);
                            let joined = kept + start.skip(done);
                            assert(before == joined);
                            assert(kept.len() == i);
                            assert(self@.len() == before.len() - 1);
                            assert(joined[k + 1] == start.skip(done)[k + 1 - i]);
                            assert(start.skip(done)[k + 1 - i] == start.skip(done + 1)[k - i]);
                        }
                    }
                    assert(before.len() == kept.len() + start.skip(done).len());
                    assert(self@.len() == before.len() - 1);
                    assert(self@.len() == (kept + start.skip(done + 1)).len());
                    assert(self@ =~= kept + start.skip(done + 1));
                    assert forall|a: int, b: int| 0 <= a < b < self.cache.len() implies self.cache[a].key@
                        != self.cache[b].key@ by {
                        let x = if a < i { a } else { a + 1 };
                        let y = if b < i { b } else { b + 1 };
                        assert(self.cache[a] == entries[x]);
                        assert(self.cache[b] == entries[y]);
                    }
                    done = done + 1;
                }
            } else {
                proof {
                    let kept = without_repo(start.take(done), repo_path@);
                    assert(self.cache[i as int].key@ == start[done].0);
                    assert(without_repo(start.take(done + 1), repo_path@) == kept.push(start[done]));
                    assert(start.skip(done) =~= seq![start[done]] + start.skip(done + 1));
                    assert(kept + (seq![start[done]] + start.skip(done + 1)) =~= kept.push(start[done])
                        + start.skip(done + 1));
                    done = done + 1;
                }
                i += 1;
            }
        }
        proof {
            assert(done == start.len()) by {
                if done < start.len() {
                    assert(self@.len() == i + (start.len() - done));
                }
            }
            assert(start.take(done) =~= start);
            assert(self@ =~= without_repo(start, repo_path@));
        }
    }

    /// Get cache statistics: the number of messages, of keys, and of
    /// different repositories that the keys name.
    pub fn get_stats(&self) -> (stats: CacheStats)
        ensures
            stats.total_messages == capped(message_total(self@)),
            stats.total_authors == self@.len(),
            stats.total_repos == repo_total(keys_of(self@)),
    {
        let mut total_messages: usize = 0;
        let mut repos: Vec<String> = Vec::new();
        let mut total_repos: usize = 0;
        let mut i: usize = 0;
        while i < self.cache.len()
            invariant
                i <= self.cache.len(),
                total_messages == capped(message_total(self@.take(i as int))),
                repos.len() == i,
                forall|k: int| 0 <= k < i ==> repos[k]@ == counted_repo(self.cache[k].key@),
                total_repos == repo_total(keys_of(self@).take(i as int)),
                total_repos <= i,
            decreases self.cache.len() - i,
        {
            proof {
                let now = self@.take(i + 1);
                assert(now.drop_last() =~= self@.take(i as int));
                assert(now.last() == self@[i as int]);
                let keys_now = keys_of(self@).take(i + 1);
                assert(keys_now.drop_last() =~= keys_of(self@).take(i as int));
                assert(keys_now.last() == self.cache[i as int].key@);
            }
            total_messages = total_messages.saturating_add(self.cache[i].messages.len());
            let repo = match repo_named_by(self.cache[i].key.as_str()) {
                Some(name) => name,
                None => String::new(),
            };
            let ghost rest = keys_of(self@).take(i as int);
            let ghost earlier = Seq::new(rest.len(), |k: int| counted_repo(rest[k]));
            let mut seen = false;
            let mut k: usize = 0;
            while k < i
                invariant
                    k <= i,
                    i == repos.len(),
                    i == earlier.len(),
                    forall|m: int| 0 <= m < i ==> repos[m]@ == earlier[m],
                    seen == seen_before(earlier, k as int, repo@),
                decreases i - k,
            {
                if str_eq(repos[k].as_str(), repo.as_str()) {
                    assert(earlier[k as int] == repo@);
                    seen = true;
                }
                k += 1;
            }
            if !seen {
                total_repos += 1;
            }
            repos.push(repo);
            i += 1;
        }
        proof {
            assert(self@.take(self.cache.len() as int) =~= self@);
            assert(keys_of(self@).take(self.cache.len() as int) =~= keys_of(self@));
        }
        CacheStats { total_messages, total_authors: self.cache.len(), total_repos }
    }
}

} // verus!
