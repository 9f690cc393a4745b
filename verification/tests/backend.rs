use skyline_config::ConfigStorage;
use skyline_config::DebugSavedataStorage;
use skyline_config::SdCardStorage;
use skyline_config::StorageHolder;
use skyline_config::UserHandle;

#[test]
fn user_handle_starts_blank() {
    let _handle = UserHandle::new();
}

#[test]
fn sd_card_paths() {
    let backend = SdCardStorage::new("myplugin".to_string());
    assert_eq!(backend.root_path(), "sd:/");
    assert_eq!(backend.storage_path(), "sd:/myplugin");
    assert!(!backend.require_flushing());
}

#[test]
fn savedata_paths_carry_user_segments() {
    let backend = DebugSavedataStorage::new(12, 34, "plugin".to_string());
    assert_eq!(backend.root_path(), "config:/");
    assert_eq!(backend.storage_path(), "config:/12/34/plugin");
    assert!(backend.require_flushing());
}

#[test]
fn savedata_paths_render_large_identifiers() {
    let backend = DebugSavedataStorage::new(u64::MAX, 0, "p".to_string());
    assert_eq!(backend.storage_path(), "config:/18446744073709551615/0/p");
}

#[test]
fn initialize_is_idempotent_on_sd_card() {
    let mut backend = SdCardStorage::new("ns".to_string());
    assert!(backend.initialize().is_ok());
    assert!(backend.initialize().is_ok());
    assert!(backend.initialize().is_ok());
    let holder = StorageHolder::new(backend);
    let entries = holder.read_dir().unwrap();
    assert_eq!(entries.len(), 0);
}

#[test]
fn initialize_is_idempotent_on_savedata() {
    let mut backend = DebugSavedataStorage::new(1, 2, "demo".to_string());
    assert!(!backend.is_mounted());
    assert!(backend.initialize().is_ok());
    assert!(backend.is_mounted());
    assert!(backend.initialize().is_ok());
    assert!(backend.is_mounted());
    // Initialization never commits by itself.
    assert_eq!(backend.commit_tally(), 0);
    let holder = StorageHolder::new(backend);
    let entries = holder.read_dir().unwrap();
    assert_eq!(entries.len(), 0);
}
