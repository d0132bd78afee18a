use gitwire::lock::RepositoryLockManager;

#[test]
fn test_lock_manager_creation() {
    let lock_manager = RepositoryLockManager::new();
    assert_eq!(lock_manager.lock_count(), 0);
}

#[test]
fn test_acquire_lock() {
    let mut lock_manager = RepositoryLockManager::new();
    let repo_url = "https://github.com/example/repo.git";

    let result = lock_manager.acquire_lock(repo_url);
    assert!(result.is_ok());
}

#[test]
fn test_try_acquire_lock() {
    let mut lock_manager = RepositoryLockManager::new();
    let repo_url = "https://github.com/example/repo.git";

    // Initially should be able to acquire
    let result = lock_manager.try_acquire_lock(repo_url);
    assert!(result.is_ok());
    assert!(result.unwrap());
}

#[test]
fn it_works() {
    assert_eq!(2 + 2, 4);
}

#[test]
fn second_try_acquire_is_refused_while_held() {
    let mut m = RepositoryLockManager::new();
    assert_eq!(m.try_acquire_lock("a"), Ok(true));
    assert_eq!(m.try_acquire_lock("a"), Ok(false));
    assert_eq!(m.try_acquire_lock("b"), Ok(true));
    assert!(m.is_locked("a"));
    assert_eq!(m.lock_count(), 2);
    m.release_lock("a");
    assert!(!m.is_locked("a"));
    assert_eq!(m.lock_count(), 2);
    assert_eq!(m.try_acquire_lock("a"), Ok(true));
    assert_eq!(m.lock_count(), 2);
}

#[test]
fn poisoned_table_fails_explicitly() {
    let mut m = RepositoryLockManager::new();
    assert_eq!(m.try_acquire_lock("a"), Ok(true));
    m.poison();
    assert!(m.is_poisoned());
    let e = m.try_acquire_lock("b").unwrap_err();
    assert_eq!(e, "Failed to acquire global lock: poisoned lock: another task failed inside");
    assert!(m.acquire_lock("c").is_err());
    assert_eq!(m.lock_count(), 1);
    assert!(m.is_locked("a"));
}
