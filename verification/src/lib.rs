//! Declarative wiring of source trees from other repositories into this
//! one, and helpers for describing changes.
//!
//! The wiring: [`parse`] holds the entries of the `.gitwire` file and the
//! rules they must meet, [`key_generator`] gives each remote its cache key,
//! [`lock`] keeps one lock for each repository, [`cache`] hands out one
//! checkout for each key, [`checkout`] plans the fetch of a repository,
//! [`sequence`] runs an operation over every entry, [`sync`] plans the
//! copies of one entry and [`check`] judges what a comparison found.
//!
//! The helpers: keywords of a change ([`semantic_similarity`]), a cache of
//! earlier commit messages ([`commit_cache`]), suggestions for a rebase
//! ([`rebase`]), budgets of tokens ([`token_optimizer`]), the steps of a
//! commit ([`completion`]) and the state of the interactive screen
//! ([`tui`]).
//!
//! Nothing here reads or writes files, runs programs or talks to a network:
//! callers do that and hand over what they found.

pub mod cache;
pub mod check;
pub mod checkout;
pub mod commit_cache;
pub mod completion;
pub mod context;
pub mod error;
pub mod git_utils;
pub mod key_generator;
pub mod lock;
pub mod parse;
pub mod rebase;
pub mod repo_config;
pub mod semantic_similarity;
pub mod sequence;
pub mod sync;
pub mod text;
pub mod token_optimizer;
pub mod tui;
pub mod unicode;
