use gitwire::cache::{CacheError, CacheManager, FetchRequest, Resolution};
use gitwire::checkout::{checkout_result, classify, materialize_plan, CheckoutError, CheckoutFailure};
use gitwire::key_generator::CacheKeyGenerator;
use gitwire::parse::{Method, Parsed};
use gitwire::repo_config::RepositoryConfiguration;
use gitwire::sequence::{
    aggregate, configuration_of, entry_prefix, paths_for_key, sequence, EntryOutcome, OperationResult,
};
use std::cell::Cell;

fn config(url: &str, branch: &str, target: &str) -> RepositoryConfiguration {
    RepositoryConfiguration::new(url.to_string(), branch.to_string(), target.to_string(), vec![], None, None)
}

fn entry(name: Option<&str>, url: &str, dst: &str) -> Parsed {
    Parsed {
        name: name.map(|n| n.to_string()),
        url: url.to_string(),
        rev: "main".to_string(),
        commit_hash: None,
        src: "src".to_string(),
        dst: dst.to_string(),
        filters: vec![],
        mtd: None,
    }
}

#[test]
fn one_fetch_for_entries_that_share_a_remote() {
    let fetches = Cell::new(0usize);
    let fetch = |request: &FetchRequest| -> Result<String, CheckoutFailure> {
        fetches.set(fetches.get() + 1);
        Ok(format!("/tmp/work/{}", request.key))
    };
    let mut cache = CacheManager::new();
    let a = config("A", "main", "vendor/a");
    let a2 = config("A", "main", "vendor/a2");
    let first = cache.get_or_fetch(&a, &fetch).unwrap();
    let second = cache.get_or_fetch(&a2, &fetch).unwrap();
    let third = cache.get_or_fetch(&a, &fetch).unwrap();
    assert_eq!(fetches.get(), 1);
    assert_eq!(first.path, second.path);
    assert_eq!(first.path, third.path);
    assert_eq!(first.key, CacheKeyGenerator::generate_key(&a));
    assert_eq!(first.path, format!("/tmp/work/{}", first.key));
    assert_eq!(first.reference, "main");
    assert_eq!(first.method, Method::Shallow);
    let b = config("B", "main", "vendor/b");
    cache.get_or_fetch(&b, &fetch).unwrap();
    assert_eq!(fetches.get(), 2);
}

#[test]
fn failed_fetch_is_not_cached() {
    let fetches = Cell::new(0usize);
    let fetch = |_: &FetchRequest| -> Result<String, CheckoutFailure> {
        fetches.set(fetches.get() + 1);
        if fetches.get() == 1 {
            Err(CheckoutFailure { step: 3, code: 128 })
        } else {
            Ok("/tmp/x".to_string())
        }
    };
    let mut cache = CacheManager::new();
    let a = config("A", "main", "vendor/a");
    match cache.get_or_fetch(&a, &fetch) {
        Err(CacheError::Checkout(f)) => assert_eq!(f, CheckoutFailure { step: 3, code: 128 }),
        _ => panic!("the failure must be passed on"),
    }
    let key = CacheKeyGenerator::generate_key(&a);
    assert!(cache.lookup(&key).is_none());
    assert!(!cache.is_in_flight(&key));
    let repo = cache.get_or_fetch(&a, &fetch).unwrap();
    assert_eq!(repo.path, "/tmp/x");
    assert_eq!(fetches.get(), 2);
    assert_eq!(cache.lookup(&key).unwrap().path, "/tmp/x");
}

#[test]
fn second_caller_is_told_busy_while_a_fetch_is_in_flight() {
    let mut cache = CacheManager::new();
    let a = config("A", "main", "vendor/a");
    let request = match cache.begin_fetch(&a).unwrap() {
        Resolution::Fetch(request) => request,
        _ => panic!("the first caller fetches"),
    };
    assert_eq!(request.url, "A");
    assert_eq!(request.reference, "main");
    assert!(cache.is_in_flight(&request.key));
    assert!(matches!(cache.begin_fetch(&a).unwrap(), Resolution::Busy));
    let b = config("B", "main", "vendor/b");
    assert!(matches!(cache.begin_fetch(&b).unwrap(), Resolution::Fetch(_)));
    let repo = cache.complete_fetch(&request, Ok("/tmp/a".to_string())).unwrap();
    assert_eq!(repo.path, "/tmp/a");
    assert!(!cache.is_in_flight(&request.key));
    match cache.begin_fetch(&a).unwrap() {
        Resolution::Cached(repo) => assert_eq!(repo.path, "/tmp/a"),
        _ => panic!("the checkout is reused"),
    }
    assert!(!cache.is_in_flight(&request.key));
}

#[test]
fn pinned_commit_is_the_reference() {
    let mut c = config("A", "main", "t");
    c.commit_hash = Some("abc123".to_string());
    c.mtd = Some(Method::Partial);
    let request = CacheManager::request_for(&c);
    assert_eq!(request.reference, "abc123");
    assert_eq!(request.method, Method::Partial);
    assert_eq!(request.key, CacheKeyGenerator::generate_key(&c));
}

#[test]
fn poisoned_cache_fetches_nothing() {
    let fetches = Cell::new(0usize);
    let fetch = |_: &FetchRequest| -> Result<String, CheckoutFailure> {
        fetches.set(fetches.get() + 1);
        Ok("/tmp/x".to_string())
    };
    let mut cache = CacheManager::new();
    cache.poison();
    assert!(matches!(cache.get_or_fetch(&config("A", "main", "t"), &fetch), Err(CacheError::Lock(_))));
    assert_eq!(fetches.get(), 0);
    assert!(cache.begin_fetch(&config("A", "main", "t")).is_err());
}

#[test]
fn exit_codes_decide_the_checkout() {
    assert_eq!(checkout_result(&vec![]), Ok(()));
    assert_eq!(checkout_result(&vec![0, 0, 0]), Ok(()));
    assert_eq!(checkout_result(&vec![0, 128, 1]), Err(CheckoutFailure { step: 1, code: 128 }));
    assert_eq!(checkout_result(&vec![-1]), Err(CheckoutFailure { step: 0, code: -1 }));
}

fn strs(v: &[&str]) -> Vec<String> {
    v.iter().map(|s| s.to_string()).collect()
}

#[test]
fn shallow_plan_is_narrowed() {
    let plan = materialize_plan(Method::Shallow, "U", "main", "/t/k", &strs(&["a", "b/c"]));
    assert_eq!(
        plan,
        vec![
            strs(&["init", "/t/k"]),
            strs(&["-C", "/t/k", "remote", "add", "origin", "U"]),
            strs(&["-C", "/t/k", "sparse-checkout", "set", "--no-cone", "a", "b/c"]),
            strs(&["-C", "/t/k", "fetch", "--depth=1", "origin", "main"]),
            strs(&["-C", "/t/k", "-c", "advice.detachedHead=false", "checkout", "FETCH_HEAD"]),
        ]
    );
}

#[test]
fn shallow_no_sparse_plan_takes_the_full_tree() {
    let plan = materialize_plan(Method::ShallowNoSparse, "U", "abc", "d", &strs(&["a"]));
    assert_eq!(
        plan,
        vec![
            strs(&["init", "d"]),
            strs(&["-C", "d", "remote", "add", "origin", "U"]),
            strs(&["-C", "d", "fetch", "--depth=1", "origin", "abc"]),
            strs(&["-C", "d", "-c", "advice.detachedHead=false", "checkout", "FETCH_HEAD"]),
        ]
    );
}

#[test]
fn partial_plan_clones_without_blobs() {
    let plan = materialize_plan(Method::Partial, "U", "v1", "d", &strs(&[]));
    assert_eq!(
        plan,
        vec![
            strs(&["clone", "--filter=blob:none", "--no-checkout", "U", "d"]),
            strs(&["-C", "d", "sparse-checkout", "set", "--no-cone"]),
            strs(&["-C", "d", "-c", "advice.detachedHead=false", "checkout", "v1"]),
        ]
    );
}

#[test]
fn aggregate_is_the_conjunction() {
    let ok = || EntryOutcome::Applied(OperationResult { success: true, description: String::new() });
    let bad = || EntryOutcome::Applied(OperationResult { success: false, description: "x".to_string() });
    assert!(aggregate(vec![]).success);
    assert!(aggregate(vec![ok(), ok()]).success);
    assert!(!aggregate(vec![ok(), bad(), ok()]).success);
    assert!(!aggregate(vec![EntryOutcome::Busy]).success);
    assert!(!aggregate(vec![ok(), EntryOutcome::FetchFailed(CheckoutFailure { step: 0, code: 1 })]).success);
    assert_eq!(aggregate(vec![ok(), bad(), ok()]).outcomes.len(), 3);
}

#[test]
fn prefix_names_the_entry() {
    assert_eq!(entry_prefix(&entry(Some("core"), "A", "d"), 4), "[core] ");
    assert_eq!(entry_prefix(&entry(None, "A", "d"), 0), "[#1] ");
    assert_eq!(entry_prefix(&entry(None, "A", "d"), 11), "[#12] ");
}

#[test]
fn configuration_of_an_entry() {
    let mut e = entry(Some("n"), "A", "vendor/a");
    e.filters = strs(&["x", "y"]);
    e.commit_hash = Some("c".to_string());
    e.mtd = Some(Method::ShallowNoSparse);
    let c = configuration_of(&e);
    assert_eq!(c.url, "A");
    assert_eq!(c.branch, "main");
    assert_eq!(c.target_path, "vendor/a");
    assert_eq!(c.filters, strs(&["x", "y"]));
    assert_eq!(c.commit_hash.as_deref(), Some("c"));
    assert_eq!(c.mtd, Some(Method::ShallowNoSparse));
}

#[test]
fn sequence_goes_on_after_a_failure() {
    let fetches = Cell::new(0usize);
    let fetch = |request: &FetchRequest| -> Result<String, CheckoutFailure> {
        fetches.set(fetches.get() + 1);
        if request.url == "BAD" {
            Err(CheckoutFailure { step: 3, code: 128 })
        } else {
            Ok(format!("/tmp/{}", request.url))
        }
    };
    let seen = std::cell::RefCell::new(Vec::<String>::new());
    let apply = |entry: &Parsed, repo: &gitwire::cache::CachedRepository| -> OperationResult {
        seen.borrow_mut().push(format!("{}<-{}", entry.dst, repo.path));
        OperationResult { success: entry.dst != "vendor/drift", description: entry.dst.clone() }
    };
    let entries = vec![
        entry(None, "A", "vendor/a"),
        entry(None, "BAD", "vendor/bad"),
        entry(None, "A", "vendor/drift"),
        entry(None, "A", "vendor/a2"),
    ];
    let mut cache = CacheManager::new();
    let run = sequence(&entries, &apply, &fetch, &mut cache).unwrap();
    assert_eq!(run.outcomes.len(), 4);
    assert!(!run.success);
    assert!(matches!(&run.outcomes[0], EntryOutcome::Applied(r) if r.success));
    assert!(matches!(&run.outcomes[1], EntryOutcome::FetchFailed(f) if f.code == 128));
    assert!(matches!(&run.outcomes[2], EntryOutcome::Applied(r) if !r.success));
    assert!(matches!(&run.outcomes[3], EntryOutcome::Applied(r) if r.success));
    assert_eq!(fetches.get(), 2);
    assert_eq!(
        *seen.borrow(),
        vec!["vendor/a<-/tmp/A", "vendor/drift<-/tmp/A", "vendor/a2<-/tmp/A"]
    );
}

#[test]
fn sequence_of_two_entries_sharing_a_url_fetches_once() {
    let fetches = Cell::new(0usize);
    let fetch = |_: &FetchRequest| -> Result<String, CheckoutFailure> {
        fetches.set(fetches.get() + 1);
        Ok("/tmp/A".to_string())
    };
    let apply = |_: &Parsed, _: &gitwire::cache::CachedRepository| -> OperationResult {
        OperationResult { success: true, description: String::new() }
    };
    let entries = vec![entry(None, "A", "vendor/a"), entry(None, "A", "vendor/a2")];
    let mut cache = CacheManager::new();
    let run = sequence(&entries, &apply, &fetch, &mut cache).unwrap();
    assert!(run.success);
    assert_eq!(fetches.get(), 1);
}

#[test]
fn sequence_ends_on_poisoned_locks() {
    let fetch = |_: &FetchRequest| -> Result<String, CheckoutFailure> { Ok("/x".to_string()) };
    let apply = |_: &Parsed, _: &gitwire::cache::CachedRepository| -> OperationResult {
        OperationResult { success: true, description: String::new() }
    };
    let mut cache = CacheManager::new();
    cache.poison();
    assert!(sequence(&vec![entry(None, "A", "d")], &apply, &fetch, &mut cache).is_err());
    assert!(sequence(&vec![], &apply, &fetch, &mut cache).unwrap().success);
}

#[test]
fn failures_are_told_by_the_failing_command() {
    let f = |step: usize| CheckoutFailure { step, code: 128 };
    assert_eq!(classify(Method::Shallow, f(0)), CheckoutError::Setup { code: 128 });
    assert_eq!(classify(Method::Shallow, f(1)), CheckoutError::Setup { code: 128 });
    assert_eq!(classify(Method::Shallow, f(2)), CheckoutError::UnsupportedStrategy { code: 128 });
    assert_eq!(classify(Method::Shallow, f(3)), CheckoutError::RemoteUnavailable { code: 128 });
    assert_eq!(classify(Method::Shallow, f(4)), CheckoutError::UnknownReference { code: 128 });
    assert_eq!(classify(Method::ShallowNoSparse, f(2)), CheckoutError::RemoteUnavailable { code: 128 });
    assert_eq!(classify(Method::ShallowNoSparse, f(3)), CheckoutError::UnknownReference { code: 128 });
    assert_eq!(classify(Method::Partial, f(0)), CheckoutError::RemoteUnavailable { code: 128 });
    assert_eq!(classify(Method::Partial, f(1)), CheckoutError::UnsupportedStrategy { code: 128 });
    assert_eq!(classify(Method::Partial, f(2)), CheckoutError::UnknownReference { code: 128 });
    assert_eq!(classify(Method::Partial, f(9)), CheckoutError::Setup { code: 128 });
}

#[test]
fn a_key_in_flight_is_busy_for_everyone_else() {
    let fetches = Cell::new(0usize);
    let fetch = |_: &FetchRequest| -> Result<String, CheckoutFailure> {
        fetches.set(fetches.get() + 1);
        Ok("/tmp/x".to_string())
    };
    let apply = |_: &Parsed, _: &gitwire::cache::CachedRepository| -> OperationResult {
        OperationResult { success: true, description: String::new() }
    };
    let mut cache = CacheManager::new();
    let a = config("A", "main", "vendor/a");
    let request = match cache.begin_fetch(&a).unwrap() {
        Resolution::Fetch(request) => request,
        _ => panic!("the first caller fetches"),
    };
    assert!(matches!(cache.get_or_fetch(&a, &fetch), Err(CacheError::Busy)));
    let run = sequence(&vec![entry(None, "A", "d"), entry(None, "B", "e")], &apply, &fetch, &mut cache).unwrap();
    assert!(matches!(run.outcomes[0], EntryOutcome::Busy));
    assert!(matches!(run.outcomes[1], EntryOutcome::Applied(_)));
    assert!(!run.success);
    assert_eq!(fetches.get(), 1);
    assert!(cache.is_in_flight(&request.key));
    assert!(cache.complete_fetch(&request, Err(CheckoutFailure { step: 0, code: 1 })).is_err());
    assert!(!cache.is_in_flight(&request.key));
    assert!(cache.get_or_fetch(&a, &fetch).is_ok());
    assert_eq!(fetches.get(), 2);
}

#[test]
fn paths_of_the_entries_of_one_repository() {
    let with_src = |url: &str, src: &str| {
        let mut e = entry(None, url, "d");
        e.src = src.to_string();
        e
    };
    let entries = vec![
        with_src("A", "lib"),
        with_src("B", "other"),
        with_src("A", "docs"),
        with_src("A", "lib"),
        with_src("A", ""),
    ];
    let key_a = CacheKeyGenerator::generate_key(&configuration_of(&entries[0]));
    let key_b = CacheKeyGenerator::generate_key(&configuration_of(&entries[1]));
    assert_eq!(paths_for_key(&entries, &key_a), strs(&["lib", "docs", ""]));
    assert_eq!(paths_for_key(&entries, &key_b), strs(&["other"]));
    assert_eq!(paths_for_key(&entries, "no such key"), Vec::<String>::new());
    assert_eq!(paths_for_key(&vec![], &key_a), Vec::<String>::new());
}

#[test]
fn a_registered_checkout_is_never_replaced() {
    let mut cache = CacheManager::new();
    let a = config("A", "main", "vendor/a");
    let request = match cache.begin_fetch(&a).unwrap() {
        Resolution::Fetch(request) => request,
        _ => panic!("the first caller fetches"),
    };
    assert!(cache.lookup(&request.key).is_none());
    cache.complete_fetch(&request, Ok("/tmp/first".to_string())).unwrap();
    assert!(!cache.is_in_flight(&request.key));
    for _ in 0..3 {
        match cache.begin_fetch(&a).unwrap() {
            Resolution::Cached(repo) => assert_eq!(repo.path, "/tmp/first"),
            _ => panic!("the checkout is reused"),
        }
    }
    assert_eq!(cache.lookup(&request.key).unwrap().path, "/tmp/first");
}
