//! Where credentials are stored.
use cli_engine::auth::storage::{
    default_storage, keychain_service, storage_for, AutoStorage, CredentialKey, FileStorage,
    KeychainRead, KeyringStorage, LoadStep, SaveStep, StorageBackend,
};
use cli_engine::config::CredentialStore;
use cli_engine::fs::config_base_dir;

#[test]
fn file_path_uses_app_id_and_provider() {
    let dir = "/tmp/cli-engine-storage-test-xdg";
    let base = config_base_dir(Some(dir), None, None, false);
    let key = CredentialKey::new("myapp", "prov", "prod");
    assert_eq!(
        FileStorage::path_for(&key, base.as_deref()),
        Some(format!("{dir}/myapp/credentials/prov-prod.json"))
    );
    // empty app_id falls back to provider as the dir
    let key2 = CredentialKey::new("", "prov", "prod");
    assert_eq!(
        FileStorage::path_for(&key2, base.as_deref()),
        Some(format!("{dir}/prov/credentials/prov-prod.json"))
    );
}

#[test]
fn file_path_rejects_unsafe_components() {
    for env in ["../../etc/passwd", "dev/subdir", "dev\\subdir", ".."] {
        let key = CredentialKey::new("app", "prov", env);
        assert_eq!(
            FileStorage::path_for(&key, Some("/base")),
            None,
            "{env:?} should be rejected"
        );
    }
}

#[test]
fn file_path_rejects_relative_base_dir() {
    let base = config_base_dir(Some("."), None, None, false);
    let key = CredentialKey::new("app", "prov", "dev");
    assert_eq!(FileStorage::path_for(&key, base.as_deref()), None);
}

#[test]
fn saving_needs_a_path() {
    let key = CredentialKey::new("app", "prov", "dev");
    let err = FileStorage::path_to_save(&key, None).expect_err("no base directory");
    assert_eq!(err.to_text(), "could not determine credential file path");
    assert!(FileStorage::path_to_save(&key, Some("/base")).is_ok());
}

#[test]
fn storage_for_file_is_always_available() {
    let store = storage_for(CredentialStore::File);
    assert!(format!("{store:?}").contains("FileStorage"));
}

#[test]
fn every_mode_has_its_backend() {
    assert_eq!(storage_for(CredentialStore::Keyring), StorageBackend::KeyringStorage);
    assert_eq!(storage_for(CredentialStore::Auto), StorageBackend::AutoStorage);
    assert_eq!(default_storage(None, None, None), StorageBackend::KeyringStorage);
    assert_eq!(default_storage(None, Some("file"), None), StorageBackend::FileStorage);
    assert_eq!(
        default_storage(Some(CredentialStore::Auto), Some("file"), None),
        StorageBackend::AutoStorage
    );
}

#[test]
fn keychain_service_names_app_provider_and_env() {
    assert_eq!(keychain_service(&CredentialKey::new("app", "prov", "dev")), "app/prov/dev");
    assert_eq!(keychain_service(&CredentialKey::new("", "prov", "dev")), "prov/dev");
}

#[test]
fn keyring_storage_never_falls_back() {
    assert_eq!(KeyringStorage::new().after_read(KeychainRead::Found("t".to_owned())).as_deref(), Some("t"));
    assert_eq!(KeyringStorage::new().after_read(KeychainRead::Empty), None);
    assert_eq!(KeyringStorage::new().after_read(KeychainRead::Unavailable), None);
    assert!(KeyringStorage::new().after_write(true).is_ok());
    let err = KeyringStorage::new().after_write(false).expect_err("a failed write is an error");
    assert!(err.to_text().starts_with("failed to save token to keychain — check logs"));
}

#[test]
fn auto_storage_reads_the_file_only_without_a_keychain() {
    assert!(matches!(
        AutoStorage::new().after_read(KeychainRead::Found("t".to_owned())),
        LoadStep::Done(Some(t)) if t == "t"
    ));
    assert!(matches!(AutoStorage::new().after_read(KeychainRead::Empty), LoadStep::Done(None)));
    assert!(matches!(AutoStorage::new().after_read(KeychainRead::Unavailable), LoadStep::ReadFile));
    assert!(AutoStorage::new().after_write(true) == SaveStep::DeleteFile);
    assert!(AutoStorage::new().after_write(false) == SaveStep::WriteFile);
}
