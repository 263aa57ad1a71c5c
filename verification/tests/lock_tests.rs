use pmrs::lock::{LockError, LockTable};

#[test]
fn second_acquisition_fails_until_released() {
    let mut table = LockTable::new();
    let handle = table
        .acquire("/etc/super/conf.toml".to_string())
        .expect("first acquisition succeeds");
    assert_eq!(handle.path(), "/etc/super/conf.toml");

    // A concurrent second attempt on the same path fails at once.
    assert_eq!(
        table.acquire("/etc/super/conf.toml".to_string()).err(),
        Some(LockError::AlreadyRunning)
    );

    // After the first holder releases, acquisition succeeds again.
    table.release(handle);
    assert!(table.acquire("/etc/super/conf.toml".to_string()).is_ok());
}

#[test]
fn distinct_paths_do_not_exclude_each_other() {
    let mut table = LockTable::new();
    let a = table.acquire("a.toml".to_string()).expect("free path");
    let b = table.acquire("b.toml".to_string()).expect("free path");
    assert_eq!(a.path(), "a.toml");
    assert_eq!(b.path(), "b.toml");
    assert_eq!(
        table.acquire("b.toml".to_string()).err(),
        Some(LockError::AlreadyRunning)
    );
    table.release(b);
    assert!(table.acquire("b.toml".to_string()).is_ok());
    assert_eq!(
        table.acquire("a.toml".to_string()).err(),
        Some(LockError::AlreadyRunning)
    );
}
