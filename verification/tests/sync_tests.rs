use gitwire::check::{compare_with_temp, Comparison, Differences, FoundPath};
use gitwire::error::ErrorType;
use gitwire::parse::Parsed;
use gitwire::sync::{glob_match, is_selected, join_path, prune_plan, sync_plan};
use gitwire::text::{remove_pattern, str_contains, str_eq, str_lt};

fn strs(v: &[&str]) -> Vec<String> {
    v.iter().map(|s| s.to_string()).collect()
}

fn entry(src: &str, dst: &str, filters: &[&str]) -> Parsed {
    Parsed {
        name: None,
        url: "A".to_string(),
        rev: "main".to_string(),
        commit_hash: None,
        src: src.to_string(),
        dst: dst.to_string(),
        filters: strs(filters),
        mtd: None,
    }
}

#[test]
fn glob_patterns() {
    assert!(glob_match("", ""));
    assert!(!glob_match("", "a"));
    assert!(glob_match("*", ""));
    assert!(glob_match("*", "anything/at/all"));
    assert!(glob_match("*.rs", "lib.rs"));
    assert!(!glob_match("*.rs", "lib.rs.bak"));
    assert!(glob_match("a?c", "abc"));
    assert!(!glob_match("a?c", "ac"));
    assert!(glob_match("a*b*c", "a--b--b--c"));
    assert!(!glob_match("a*b*c", "a--b--b--"));
    assert!(glob_match("src/*/mod.rs", "src/x/mod.rs"));
    assert!(!glob_match("abc", "abd"));
}

#[test]
fn filters_select_paths_names_and_directories() {
    let none: Vec<String> = vec![];
    assert!(is_selected(&none, "any/file"));
    assert!(is_selected(&strs(&["docs/a.md"]), "docs/a.md"));
    assert!(is_selected(&strs(&["a.md"]), "docs/deep/a.md"));
    assert!(is_selected(&strs(&["docs"]), "docs/deep/a.md"));
    assert!(is_selected(&strs(&["docs/deep"]), "docs/deep/a.md"));
    assert!(is_selected(&strs(&["*.md"]), "docs/deep/a.md"));
    assert!(!is_selected(&strs(&["doc"]), "docs/a.md"));
    assert!(!is_selected(&strs(&["b.md", "src"]), "docs/a.md"));
    assert!(is_selected(&strs(&["b.md", "docs"]), "docs/a.md"));
}

#[test]
fn paths_are_joined_below_a_directory() {
    assert_eq!(join_path("vendor/a", "x/y.rs"), "vendor/a/x/y.rs");
    assert_eq!(join_path("", "x/y.rs"), "x/y.rs");
}

#[test]
fn sync_copies_the_selected_files() {
    let e = entry("lib", "vendor/a", &["*.rs"]);
    let plan = sync_plan(&e, &strs(&["a.rs", "README.md", "deep/b.rs"]));
    let pairs: Vec<(String, String)> = plan.into_iter().map(|s| (s.from, s.to)).collect();
    assert_eq!(
        pairs,
        vec![
            ("lib/a.rs".to_string(), "vendor/a/a.rs".to_string()),
            ("lib/deep/b.rs".to_string(), "vendor/a/deep/b.rs".to_string()),
        ]
    );
    let all = sync_plan(&entry("lib", "vendor/a", &[]), &strs(&["a.rs", "README.md"]));
    assert_eq!(all.len(), 2);
    assert_eq!(sync_plan(&e, &vec![]).len(), 0);
}

#[test]
fn pruning_removes_what_the_sync_does_not_write() {
    let e = entry("lib", "vendor/a", &["*.rs"]);
    let files = strs(&["a.rs", "README.md"]);
    let present = strs(&["a.rs", "old.rs", "README.md"]);
    assert_eq!(prune_plan(&e, &files, &present, true), strs(&["old.rs", "README.md"]));
    assert_eq!(prune_plan(&e, &files, &present, false), Vec::<String>::new());
    assert_eq!(prune_plan(&e, &files, &strs(&["a.rs"]), true), Vec::<String>::new());
}

#[test]
fn pattern_is_removed_everywhere() {
    assert_eq!(remove_pattern("/tmp/x/src/a.rs", "/tmp/x"), "/src/a.rs");
    assert_eq!(remove_pattern("abcabc", "bc"), "aa");
    assert_eq!(remove_pattern("aaa", "aa"), "a");
    assert_eq!(remove_pattern("abc", ""), "abc");
    assert_eq!(remove_pattern("ab", "abc"), "ab");
    assert_eq!(remove_pattern("abc", "abc"), "");
    assert_eq!(remove_pattern("xyz", "q"), "xyz");
}

#[test]
fn text_helpers() {
    assert!(str_eq("a", "a"));
    assert!(!str_eq("a", "ab"));
    assert!(str_contains("hello world", "lo w"));
    assert!(str_contains("hello", ""));
    assert!(!str_contains("hello", "hellos"));
    assert!(str_lt("a", "b"));
    assert!(str_lt("a", "ab"));
    assert!(!str_lt("ab", "a"));
    assert!(!str_lt("a", "a"));
    assert!(str_lt("2024-01-01", "2024-01-02"));
    assert!(str_lt("Z", "a"));
}

fn found(v: &[&str]) -> Vec<FoundPath> {
    v.iter().map(|s| FoundPath::Text(s.to_string())).collect()
}

fn some(v: &[&str]) -> Vec<Option<String>> {
    v.iter().map(|s| Some(s.to_string())).collect()
}

#[test]
fn matching_destination_passes() {
    let report = compare_with_temp(
        "[a] ",
        Comparison::Done(Differences {
            temp_root: Some("/tmp/t".to_string()),
            missing: vec![],
            extra: vec![],
            changed: vec![],
        }),
    );
    assert_eq!(report.result, Ok(true));
    assert_eq!(report.lines, vec!["  - [a] compare `src` and `dst`".to_string()]);
}

#[test]
fn every_difference_is_reported() {
    let report = compare_with_temp(
        "[a] ",
        Comparison::Done(Differences {
            temp_root: Some("/tmp/t".to_string()),
            missing: some(&["/tmp/t/src/new.rs", "/tmp/t/src/q\"uote.rs"]),
            extra: found(&["/repo/dst/gone.rs"]),
            changed: found(&["/repo/dst/a.rs", "/repo/dst/b.rs"]),
        }),
    );
    assert_eq!(report.result, Ok(false));
    assert_eq!(
        report.lines,
        vec![
            "  - [a] compare `src` and `dst`".to_string(),
            "    [a] ! file \"/src/new.rs\" does not exist".to_string(),
            "    [a] ! file \"/src/q\\\"uote.rs\" does not exist".to_string(),
            "    [a] ! file \"/repo/dst/gone.rs\" does not exist on original".to_string(),
            "    [a] ! file \"/repo/dst/a.rs\" is not identical to original".to_string(),
            "    [a] ! file \"/repo/dst/b.rs\" is not identical to original".to_string(),
        ]
    );
}

#[test]
fn one_kind_of_difference_is_enough_to_fail() {
    let d = |missing: Vec<Option<String>>, extra: Vec<FoundPath>, changed: Vec<FoundPath>| {
        Comparison::Done(Differences { temp_root: Some("/t".to_string()), missing, extra, changed })
    };
    assert_eq!(compare_with_temp("", d(some(&["/t/a"]), vec![], vec![])).result, Ok(false));
    assert_eq!(compare_with_temp("", d(vec![], found(&["a"]), vec![])).result, Ok(false));
    assert_eq!(compare_with_temp("", d(vec![], vec![], found(&["a"]))).result, Ok(false));
}

#[test]
fn failed_comparison_is_an_error() {
    let report = compare_with_temp("", Comparison::Failed);
    assert_eq!(report.result, Err(ErrorType::CheckDifferenceExecution));
    assert_eq!(report.lines.len(), 1);
}

#[test]
fn paths_that_are_no_text_stop_the_report() {
    let report = compare_with_temp(
        "p",
        Comparison::Done(Differences {
            temp_root: None,
            missing: some(&["/t/a"]),
            extra: found(&["x"]),
            changed: vec![],
        }),
    );
    assert_eq!(report.result, Err(ErrorType::CheckDifferenceStringReplace));
    assert_eq!(report.lines.len(), 1);
    let report = compare_with_temp(
        "p",
        Comparison::Done(Differences {
            temp_root: Some("/t".to_string()),
            missing: vec![Some("/t/a".to_string()), None, Some("/t/b".to_string())],
            extra: found(&["x"]),
            changed: vec![],
        }),
    );
    assert_eq!(report.result, Err(ErrorType::CheckDifferenceStringReplace));
    assert_eq!(report.lines.len(), 2);
    assert_eq!(report.lines[1], "    p! file \"/a\" does not exist");
    let report = compare_with_temp(
        "p",
        Comparison::Done(Differences {
            temp_root: None,
            missing: vec![],
            extra: found(&["x"]),
            changed: vec![],
        }),
    );
    assert_eq!(report.result, Ok(false));
}

#[test]
fn paths_that_are_no_text_are_shown_as_rendered() {
    let report = compare_with_temp(
        "",
        Comparison::Done(Differences {
            temp_root: Some("/t".to_string()),
            missing: vec![],
            extra: vec![FoundPath::Rendered("\"dst/\\xFF.rs\"".to_string()), FoundPath::Text("dst/it's".to_string())],
            changed: vec![FoundPath::Rendered("\"dst/\\xFE\"".to_string())],
        }),
    );
    assert_eq!(report.result, Ok(false));
    assert_eq!(
        report.lines[1..],
        [
            "    ! file \"dst/\\xFF.rs\" does not exist on original".to_string(),
            "    ! file \"dst/it's\" does not exist on original".to_string(),
            "    ! file \"dst/\\xFE\" is not identical to original".to_string(),
        ]
    );
    assert_eq!(FoundPath::Text("a\"b".to_string()).show(), "\"a\\\"b\"");
    assert_eq!(FoundPath::Rendered("as is".to_string()).show(), "as is");
}
