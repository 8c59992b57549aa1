use waigaya_core::storage::StorageState;

#[test]
fn document_paths_live_under_the_data_directory() {
    let storage = StorageState::new("/tmp/app-data".to_string());
    assert_eq!(storage.config_path(), "/tmp/app-data/slack-config.json");
    assert_eq!(storage.users_path(), "/tmp/app-data/users.json");
    assert_eq!(storage.emojis_path(), "/tmp/app-data/emojis.json");
}

#[test]
fn paths_follow_the_configured_root() {
    let storage = StorageState::new("/var/lib/waigaya".to_string());
    assert_eq!(storage.users_path(), "/var/lib/waigaya/users.json");
}
