use gitwire::cache::{CacheManager, CachedRepository, FetchRequest};
use gitwire::check::{compare_with_temp, Comparison, Differences, FoundPath};
use gitwire::checkout::CheckoutFailure;
use gitwire::parse::Parsed;
use gitwire::sequence::{sequence, OperationResult};
use gitwire::sync::{join_path, prune_plan, sync_plan};
use std::cell::{Cell, RefCell};
use std::collections::BTreeMap;

fn entry(url: &str, branch: &str, src: &str, dst: &str) -> Parsed {
    Parsed {
        name: None,
        url: url.to_string(),
        rev: branch.to_string(),
        commit_hash: None,
        src: src.to_string(),
        dst: dst.to_string(),
        filters: vec![],
        mtd: None,
    }
}

fn upstream() -> BTreeMap<String, String> {
    let mut files = BTreeMap::new();
    files.insert("lib/a.rs".to_string(), "fn a() {}".to_string());
    files.insert("lib/sub/b.rs".to_string(), "fn b() {}".to_string());
    files.insert("README.md".to_string(), "read me".to_string());
    files
}

fn below(tree: &BTreeMap<String, String>, dir: &str) -> Vec<String> {
    let prefix = format!("{dir}/");
    tree.keys().filter_map(|path| path.strip_prefix(&prefix).map(|rel| rel.to_string())).collect()
}

fn differences(fresh: &BTreeMap<String, String>, tree: &BTreeMap<String, String>, e: &Parsed) -> Differences {
    let mut d = Differences { temp_root: Some("/tmp/fresh".to_string()), missing: vec![], extra: vec![], changed: vec![] };
    for rel in below(fresh, &e.src) {
        match tree.get(&join_path(&e.dst, &rel)) {
            None => d.missing.push(Some(format!("/tmp/fresh/{}", join_path(&e.src, &rel)))),
            Some(content) if *content != fresh[&join_path(&e.src, &rel)] => {
                d.changed.push(FoundPath::Text(join_path(&e.dst, &rel)))
            }
            Some(_) => {}
        }
    }
    for rel in below(tree, &e.dst) {
        if !fresh.contains_key(&join_path(&e.src, &rel)) {
            d.extra.push(FoundPath::Text(join_path(&e.dst, &rel)));
        }
    }
    d
}

#[test]
fn two_entries_of_one_repository_share_one_checkout() {
    let entries = vec![entry("A", "main", "lib", "vendor/a"), entry("A", "main", "lib", "vendor/a2")];
    let remote = upstream();
    let checkouts = Cell::new(0usize);
    let tree = RefCell::new(BTreeMap::<String, String>::new());
    let fetch = |request: &FetchRequest| -> Result<String, CheckoutFailure> {
        checkouts.set(checkouts.get() + 1);
        Ok(format!("/tmp/work/{}", request.key))
    };
    let apply = |e: &Parsed, _: &CachedRepository| -> OperationResult {
        let plan = sync_plan(e, &below(&remote, &e.src));
        for step in &plan {
            tree.borrow_mut().insert(step.to.clone(), remote[&step.from].clone());
        }
        OperationResult { success: true, description: format!("{} file(s)", plan.len()) }
    };
    let mut cache = CacheManager::new();
    let run = sequence(&entries, &apply, &fetch, &mut cache).unwrap();
    assert!(run.success);
    assert_eq!(checkouts.get(), 1);
    let written: Vec<String> = tree.borrow().keys().cloned().collect();
    assert_eq!(
        written,
        vec!["vendor/a/a.rs", "vendor/a/sub/b.rs", "vendor/a2/a.rs", "vendor/a2/sub/b.rs"]
    );
    for e in &entries {
        let report = compare_with_temp("", Comparison::Done(differences(&remote, &tree.borrow(), e)));
        assert_eq!(report.result, Ok(true));
        assert_eq!(report.lines.len(), 1);
    }
}

#[test]
fn drift_is_found_and_pruning_mends_it() {
    let e = entry("A", "main", "lib", "vendor/a");
    let remote = upstream();
    let mut tree = BTreeMap::new();
    tree.insert("vendor/a/a.rs".to_string(), "fn changed() {}".to_string());
    tree.insert("vendor/a/old.rs".to_string(), "fn old() {}".to_string());
    let report = compare_with_temp("", Comparison::Done(differences(&remote, &tree, &e)));
    assert_eq!(report.result, Ok(false));
    assert_eq!(
        report.lines[1..],
        [
            "    ! file \"/lib/sub/b.rs\" does not exist".to_string(),
            "    ! file \"vendor/a/old.rs\" does not exist on original".to_string(),
            "    ! file \"vendor/a/a.rs\" is not identical to original".to_string(),
        ]
    );
    let files = below(&remote, &e.src);
    let present = below(&tree, &e.dst);
    for step in sync_plan(&e, &files) {
        tree.insert(step.to, remote[&step.from].clone());
    }
    let report = compare_with_temp("", Comparison::Done(differences(&remote, &tree, &e)));
    assert_eq!(report.result, Ok(false));
    for stale in prune_plan(&e, &files, &present, true) {
        tree.remove(&join_path(&e.dst, &stale));
    }
    let report = compare_with_temp("", Comparison::Done(differences(&remote, &tree, &e)));
    assert_eq!(report.result, Ok(true));
}

#[test]
fn entries_of_other_branches_are_fetched_on_their_own() {
    let entries = vec![
        entry("A", "main", "lib", "vendor/a"),
        entry("A", "dev", "lib", "vendor/dev"),
        entry("B", "main", "lib", "vendor/b"),
        entry("A", "main", "docs", "vendor/docs"),
    ];
    let checkouts = Cell::new(0usize);
    let fetch = |_: &FetchRequest| -> Result<String, CheckoutFailure> {
        checkouts.set(checkouts.get() + 1);
        Ok("/tmp/x".to_string())
    };
    let apply = |_: &Parsed, _: &CachedRepository| -> OperationResult {
        OperationResult { success: true, description: String::new() }
    };
    let mut cache = CacheManager::new();
    assert!(sequence(&entries, &apply, &fetch, &mut cache).unwrap().success);
    assert_eq!(checkouts.get(), 3);
}
