//! Tests for the storage backend's path construction and escape check.

use vince621::storage::DiskStorageBackend;

#[test]
fn object_path_is_built_from_directory_name_and_extension() {
    let backend = DiskStorageBackend::new(b"saves".to_vec());
    let path = backend.get_shared_object_path(&b"game1".to_vec());
    assert_eq!(path, b"saves/game1.sol".to_vec());
}

#[test]
fn parent_components_are_refused() {
    assert!(DiskStorageBackend::is_path_allowed(&b"saves/game1.sol".to_vec()));
    assert!(DiskStorageBackend::is_path_allowed(&b"a/b/c".to_vec()));
    assert!(!DiskStorageBackend::is_path_allowed(&b"..".to_vec()));
    assert!(!DiskStorageBackend::is_path_allowed(&b"a/../b".to_vec()));
    assert!(!DiskStorageBackend::is_path_allowed(&b"a/..".to_vec()));
    assert!(!DiskStorageBackend::is_path_allowed(&b"../a".to_vec()));
    // Dots inside a component are not an escape.
    assert!(DiskStorageBackend::is_path_allowed(&b"a../b".to_vec()));
    assert!(DiskStorageBackend::is_path_allowed(&b"a/..b".to_vec()));
    assert!(DiskStorageBackend::is_path_allowed(&b"a.b/c".to_vec()));
    assert!(DiskStorageBackend::is_path_allowed(&b"".to_vec()));
    assert!(DiskStorageBackend::is_path_allowed(&b".".to_vec()));
}

#[test]
fn escaping_object_names_are_refused() {
    let backend = DiskStorageBackend::new(b"saves".to_vec());
    let ok = backend.allowed_object_path(&b"game1".to_vec());
    assert_eq!(ok, Some(b"saves/game1.sol".to_vec()));
    assert!(backend.allowed_object_path(&b"../escape".to_vec()).is_none());
    // A nested name stays inside the storage directory.
    let nested = backend.allowed_object_path(&b"dir/game2".to_vec());
    assert_eq!(nested, Some(b"saves/dir/game2.sol".to_vec()));
}
