use gitwire::key_generator::CacheKeyGenerator;
use gitwire::parse::Method;
use gitwire::repo_config::RepositoryConfiguration;
use gitwire::text::{to_decimal, to_hex};
use std::collections::hash_map::DefaultHasher;
use std::hash::{Hash, Hasher};

fn config(url: &str, branch: &str, target: &str, commit: Option<&str>) -> RepositoryConfiguration {
    RepositoryConfiguration::new(
        url.to_string(),
        branch.to_string(),
        target.to_string(),
        vec!["a".to_string()],
        commit.map(|c| c.to_string()),
        Some(Method::Partial),
    )
}

#[test]
fn new_keeps_every_part() {
    let c = config("u", "b", "t", Some("c"));
    assert_eq!(c.url, "u");
    assert_eq!(c.branch, "b");
    assert_eq!(c.target_path, "t");
    assert_eq!(c.filters, vec!["a".to_string()]);
    assert_eq!(c.commit_hash.as_deref(), Some("c"));
    assert_eq!(c.mtd, Some(Method::Partial));
}

#[test]
fn hex_has_no_leading_zeros() {
    assert_eq!(to_hex(0), "0");
    assert_eq!(to_hex(9), "9");
    assert_eq!(to_hex(10), "a");
    assert_eq!(to_hex(255), "ff");
    assert_eq!(to_hex(256), "100");
    assert_eq!(to_hex(0xdead_beef), "deadbeef");
    assert_eq!(to_hex(u64::MAX), "ffffffffffffffff");
}

#[test]
fn decimal_text_of_numbers() {
    assert_eq!(to_decimal(0), "0");
    assert_eq!(to_decimal(7), "7");
    assert_eq!(to_decimal(10), "10");
    assert_eq!(to_decimal(1234567890), "1234567890");
    assert_eq!(to_decimal(u64::MAX), "18446744073709551615");
}

#[test]
fn same_remote_same_key() {
    let a = config("https://example.com/a.git", "main", "vendor/a", None);
    let b = config("https://example.com/a.git", "main", "vendor/a2", None);
    assert_eq!(CacheKeyGenerator::generate_key(&a), CacheKeyGenerator::generate_key(&b));
    let mut c = config("https://example.com/a.git", "main", "vendor/a", None);
    c.filters = vec![];
    c.mtd = None;
    assert_eq!(CacheKeyGenerator::generate_key(&a), CacheKeyGenerator::generate_key(&c));
}

#[test]
fn key_depends_on_url_branch_and_commit() {
    let a = CacheKeyGenerator::generate_key(&config("u", "main", "t", None));
    assert_ne!(a, CacheKeyGenerator::generate_key(&config("v", "main", "t", None)));
    assert_ne!(a, CacheKeyGenerator::generate_key(&config("u", "dev", "t", None)));
    assert_ne!(a, CacheKeyGenerator::generate_key(&config("u", "main", "t", Some("abc"))));
    assert_ne!(
        CacheKeyGenerator::generate_key(&config("ab", "c", "t", None)),
        CacheKeyGenerator::generate_key(&config("a", "bc", "t", None))
    );
    assert_ne!(
        CacheKeyGenerator::generate_key(&config("main", "u", "t", None)),
        CacheKeyGenerator::generate_key(&config("u", "main", "t", None))
    );
}

#[test]
fn url_branch_key_is_the_unpinned_key() {
    let a = CacheKeyGenerator::generate_key(&config("u", "main", "t", None));
    assert_eq!(a, CacheKeyGenerator::generate_url_branch_key("u", "main"));
    assert_ne!(
        CacheKeyGenerator::generate_key(&config("u", "main", "t", Some("c"))),
        CacheKeyGenerator::generate_url_branch_key("u", "main")
    );
}

#[test]
fn key_is_the_hash_of_the_parts_in_hex() {
    let mut hasher = DefaultHasher::new();
    "https://example.com/a.git".hash(&mut hasher);
    "main".hash(&mut hasher);
    let expected = format!("{:x}", hasher.finish());
    assert_eq!(
        CacheKeyGenerator::generate_url_branch_key("https://example.com/a.git", "main"),
        expected
    );
    let mut hasher = DefaultHasher::new();
    "u".to_string().hash(&mut hasher);
    "b".to_string().hash(&mut hasher);
    "c0ffee".to_string().hash(&mut hasher);
    let expected = format!("{:x}", hasher.finish());
    assert_eq!(CacheKeyGenerator::generate_key(&config("u", "b", "t", Some("c0ffee"))), expected);
}

#[test]
fn key_is_lower_case_hex() {
    let key = CacheKeyGenerator::generate_url_branch_key("u", "b");
    assert!(!key.is_empty() && key.len() <= 16);
    assert!(key.chars().all(|c| c.is_ascii_digit() || ('a'..='f').contains(&c)));
}
