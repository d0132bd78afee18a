//! Cache keys: one stable digest for each remote, branch and pinned commit.

use vstd::prelude::*;
use vstd::string::*;
use vstd::std_specs::hash::*;
use vstd::utf8::encode_utf8;
use std::collections::hash_map::DefaultHasher;
use std::hash::Hasher;
use crate::repo_config::RepositoryConfiguration;
use crate::text::{hex_text, to_hex};

verus! {

/// The byte that closes each text fed to the hasher, so that the texts
/// `("ab", "c")` and `("a", "bc")` are told apart. It occurs in no UTF-8 text.
pub const TEXT_END: u8 = 0xff;

/// What is written to the hasher for a remote: the URL, the branch and, if
/// one is pinned, the commit, each followed by the closing byte.
pub open spec fn key_writes(url: Seq<char>, branch: Seq<char>, commit: Option<Seq<char>>) -> Seq<Seq<u8>> {
    let base = seq![encode_utf8(url), seq![TEXT_END], encode_utf8(branch), seq![TEXT_END]];
    match commit {
        Some(c) => base.push(encode_utf8(c)).push(seq![TEXT_END]),
        None => base,
    }
}

/// The cache key of a remote: the digest of what is written for it, in
/// hexadecimal.
pub open spec fn cache_key(url: Seq<char>, branch: Seq<char>, commit: Option<Seq<char>>) -> Seq<char> {
    hex_text(DefaultHasher::spec_finish(key_writes(url, branch, commit)) as nat)
}

fn write_text(hasher: &mut DefaultHasher, text: &str)
    ensures
        final(hasher)@ == old(hasher)@.push(encode_utf8(text@)).push(seq![TEXT_END]),
{
    hasher.write(text.as_bytes());
    let mut end: Vec<u8> = Vec::new();
    end.push(TEXT_END);
    assert(end@ =~= seq![TEXT_END]);
    hasher.write(end.as_slice());
}

/// Derives cache keys.
pub struct CacheKeyGenerator;

impl CacheKeyGenerator {
    /// The cache key of a configuration: it depends on the URL, the branch
    /// and the pinned commit, in this order, and on nothing else.
    pub fn generate_key(config: &RepositoryConfiguration) -> (key: String)
        ensures
            key@ == cache_key(config.url@, config.branch@, config.commit_text()),
    {
        let mut hasher = DefaultHasher::new();
        write_text(&mut hasher, config.url.as_str());
        write_text(&mut hasher, config.branch.as_str());
        if let Some(commit) = &config.commit_hash {
            write_text(&mut hasher, commit.as_str());
        }
        assert(hasher@ =~= key_writes(config.url@, config.branch@, config.commit_text()));
        let hash: u64 = hasher.finish();
        to_hex(hash)
    }

    /// The cache key of a URL and a branch with no commit pinned.
    pub fn generate_url_branch_key(url: &str, branch: &str) -> (key: String)
        ensures
            key@ == cache_key(url@, branch@, None),
    {
        let mut hasher = DefaultHasher::new();
        write_text(&mut hasher, url);
        write_text(&mut hasher, branch);
        assert(hasher@ =~= key_writes(url@, branch@, None));
        let hash: u64 = hasher.finish();
        to_hex(hash)
    }
}

/// Two configurations with the same URL, branch and pinned commit have the
/// same cache key, whatever their target paths, filters and methods are.
pub proof fn lemma_same_remote_same_key(a: RepositoryConfiguration, b: RepositoryConfiguration)
    requires
        a.same_remote(b),
    ensures
        cache_key(a.url@, a.branch@, a.commit_text()) == cache_key(
            b.url@,
            b.branch@,
            b.commit_text(),
        ),
{
}

/// The key of a URL and a branch is the key of a configuration that pins no
/// commit.
pub proof fn lemma_url_branch_key_is_unpinned_key(config: RepositoryConfiguration)
    requires
        config.commit_hash is None,
    ensures
        cache_key(config.url@, config.branch@, config.commit_text()) == cache_key(
            config.url@,
            config.branch@,
            None,
        ),
{
}

} // verus!
