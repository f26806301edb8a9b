use build_cache::storage::s3::{object_found, write_outcome};
use build_cache::storage::{S3Store, StorageError};

#[test]
fn balanced_key_inserts_the_shard_directory() {
    let s = S3Store::new();
    assert_eq!(s.get_blanced_key("cas/abcdef"), Some("cas/ab/abcdef".to_string()));
    assert_eq!(s.get_blanced_key("ac/x/y/1234"), Some("ac/x/y/12/1234".to_string()));
    assert_eq!(s.get_blanced_key("abcd"), Some("ab/abcd".to_string()));
    assert_eq!(s.get_blanced_key("ab"), Some("ab/ab".to_string()));
}

#[test]
fn balanced_key_needs_two_hash_characters() {
    let s = S3Store::new();
    assert_eq!(s.get_blanced_key("ac/x"), None);
    assert_eq!(s.get_blanced_key("ac/"), None);
    assert_eq!(s.get_blanced_key(""), None);
    assert_eq!(s.object_key("cas/a"), Err(StorageError::InvalidKey));
    assert_eq!(s.object_key("cas/ab"), Ok("cas/ab/ab".to_string()));
}

#[test]
fn balanced_key_counts_characters_not_bytes() {
    let s = S3Store::new();
    assert_eq!(s.get_blanced_key("cas/éüx"), Some("cas/éü/éüx".to_string()));
}

#[test]
fn balanced_key_is_deterministic_and_keeps_keys_apart() {
    let s = S3Store::new();
    let a1 = s.get_blanced_key("cas/abc1").unwrap();
    let a2 = s.get_blanced_key("cas/abc1").unwrap();
    let b = s.get_blanced_key("cas/abc2").unwrap();
    assert_eq!(a1, a2);
    assert_ne!(a1, b);
    assert_eq!(&a1[..7], "cas/ab/");
    assert_eq!(&b[..7], "cas/ab/");
}

#[test]
fn remote_admin_operations_are_unsupported() {
    let mut s = S3Store::new();
    assert_eq!(s.remove("cas/ab"), Err(StorageError::UnsupportedOperation));
    assert_eq!(s.list("cas/"), Err(StorageError::UnsupportedOperation));
    assert_eq!(s.clear(), Err(StorageError::UnsupportedOperation));
}

#[test]
fn bucket_status_is_classified() {
    assert_eq!(object_found(200), Ok(true));
    assert_eq!(object_found(206), Ok(true));
    assert_eq!(object_found(404), Ok(false));
    assert_eq!(object_found(403), Err(StorageError::TransferFailure));
    assert_eq!(object_found(500), Err(StorageError::TransferFailure));
    assert_eq!(write_outcome(200), Ok(()));
    assert_eq!(write_outcome(503), Err(StorageError::TransferFailure));
}
