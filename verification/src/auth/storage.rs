//! Where credentials are stored.
//!
//! Reading and writing a keychain or a file is outside; the functions here say
//! under which name a credential is stored, and what is done next with what a
//! backend answered.
use crate::config::{resolve_credential_store, CredentialStore};
use crate::config;
use crate::error::CliCoreError;
use crate::error;
use crate::fs::{is_safe_path_component, join_path};
use crate::fs;
use crate::text;
use vstd::prelude::*;
use vstd::string::*;

verus! {

/// Identifies a single stored credential.
pub struct CredentialKey {
    /// Application id; namespaces credentials across CLIs sharing a keychain.
    pub app_id: String,
    /// Auth provider name.
    pub provider: String,
    /// Target environment name.
    pub env: String,
}

impl CredentialKey {
    /// Creates a key from its parts.
    pub fn new(app_id: &str, provider: &str, env: &str) -> (r: Self)
        ensures
            r.app_id@ == app_id@,
            r.provider@ == provider@,
            r.env@ == env@,
    {
        CredentialKey {
            app_id: app_id.to_owned(),
            provider: provider.to_owned(),
            env: env.to_owned(),
        }
    }
}

/// The user under which tokens are stored in a keychain.
pub const KEYCHAIN_USER: &'static str = "token";

/// The directory of an application: its id, else the name of the provider.
pub open spec fn app_folder(key: CredentialKey) -> Seq<char> {
    if key.app_id@.len() == 0 {
        key.provider@
    } else {
        key.app_id@
    }
}

/// The path of a credential file below a base directory.
pub open spec fn credential_path(key: CredentialKey, base: Option<Seq<char>>) -> Option<Seq<char>> {
    if !fs::is_safe_spec(app_folder(key)) || !fs::is_safe_spec(key.provider@) || !fs::is_safe_spec(
        key.env@,
    ) {
        None
    } else {
        match base {
            Some(dir) => Some(
                fs::join_spec(
                    fs::join_spec(fs::join_spec(dir, app_folder(key)), "credentials"@),
                    key.provider@ + "-"@ + key.env@ + ".json"@,
                ),
            ),
            None => None,
        }
    }
}

/// Unencrypted file-based credential storage.
#[derive(Clone, Copy, Debug)]
pub struct FileStorage;

impl FileStorage {
    /// Creates a file-storage backend.
    pub fn new() -> (r: Self)
        ensures
            r == FileStorage,
    {
        FileStorage
    }

    /// Resolves the on-disk path for `key`, or `None` when the config base
    /// directory is unavailable or any key component is unsafe as a path
    /// segment.
    pub fn path_for(key: &CredentialKey, base: Option<&str>) -> (r: Option<String>)
        ensures
            error::opt_text(r) == credential_path(*key, fs::str_text(base)),
    {
        let app: &str = if key.app_id.as_str().is_empty() {
            key.provider.as_str()
        } else {
            key.app_id.as_str()
        };
        if !is_safe_path_component(app) || !is_safe_path_component(key.provider.as_str())
            || !is_safe_path_component(key.env.as_str()) {
            return None;
        }
        match base {
            Some(dir) => {
                let folder = join_path(join_path(dir, app).as_str(), "credentials");
                let mut name = key.provider.clone();
                name.append("-");
                name.append(key.env.as_str());
                name.append(".json");
                Some(join_path(folder.as_str(), name.as_str()))
            },
            None => None,
        }
    }

    /// The path to write for `key`, or the error.
    pub fn path_to_save(key: &CredentialKey, base: Option<&str>) -> (r: Result<
        String,
        CliCoreError,
    >)
        ensures
            match credential_path(*key, fs::str_text(base)) {
                Some(p) => r matches Ok(path) && path@ == p,
                None => r matches Err(e) && error::is_message(
                    e,
                    "could not determine credential file path"@,
                ),
            },
    {
        match Self::path_for(key, base) {
            Some(p) => Ok(p),
            None => Err(
                CliCoreError::message("could not determine credential file path".to_owned()),
            ),
        }
    }
}

/// The keychain service name for a key.
pub open spec fn service_spec(key: CredentialKey) -> Seq<char> {
    if key.app_id@.len() == 0 {
        key.provider@ + "/"@ + key.env@
    } else {
        key.app_id@ + "/"@ + key.provider@ + "/"@ + key.env@
    }
}

/// Derives the keychain service name for `key`: `<app_id>/<provider>/<env>`, or
/// `<provider>/<env>` when `app_id` is empty.
pub fn keychain_service(key: &CredentialKey) -> (r: String)
    ensures
        r@ == service_spec(*key),
{
    let mut r = String::new();
    if !key.app_id.as_str().is_empty() {
        r.append(key.app_id.as_str());
        r.append("/");
    }
    r.append(key.provider.as_str());
    r.append("/");
    r.append(key.env.as_str());
    assert(r@ =~= service_spec(*key));
    r
}

/// What a read of the keychain gave.
pub enum KeychainRead {
    /// An entry.
    Found(String),
    /// The keychain is reachable but holds no entry.
    Empty,
    /// The keychain backend is unavailable.
    Unavailable,
}

/// What the keychain with a file fallback does after a read of the keychain.
pub enum LoadStep {
    /// The load is over.
    Done(Option<String>),
    /// The file is read.
    ReadFile,
}

/// What the keychain with a file fallback does after a read of the keychain: an
/// entry is used, an empty keychain means that there is none (the file is
/// stale or absent), and only without a keychain the file is read.
pub open spec fn load_step(read: KeychainRead) -> LoadStep {
    match read {
        KeychainRead::Found(s) => LoadStep::Done(Some(s)),
        KeychainRead::Empty => LoadStep::Done(None),
        KeychainRead::Unavailable => LoadStep::ReadFile,
    }
}

/// What the keychain with a file fallback does after a write to the keychain.
#[derive(Clone, Copy, PartialEq, Eq, Structural)]
pub enum SaveStep {
    /// The file is deleted, as the keychain is the source of truth now.
    DeleteFile,
    /// The file is written.
    WriteFile,
}

/// What the keychain with a file fallback does after a write to the keychain.
pub open spec fn save_step(written: bool) -> SaveStep {
    if written {
        SaveStep::DeleteFile
    } else {
        SaveStep::WriteFile
    }
}

/// What the keychain alone loads after a read.
pub open spec fn keychain_entry(read: KeychainRead) -> Option<String> {
    match read {
        KeychainRead::Found(s) => Some(s),
        _ => None,
    }
}

/// System-keychain credential storage: a load is none both where no entry exists
/// and where the keychain is unavailable, and a failed save is an error.
#[derive(Clone, Copy, Debug)]
pub struct KeyringStorage;

impl KeyringStorage {
    /// Creates a keychain-storage backend.
    pub fn new() -> (r: Self)
        ensures
            r == KeyringStorage,
    {
        KeyringStorage
    }

    /// What is loaded after a read of the keychain.
    pub fn after_read(&self, read: KeychainRead) -> (r: Option<String>)
        ensures
            r == keychain_entry(read),
    {
        match read {
            KeychainRead::Found(s) => Some(s),
            _ => None,
        }
    }

    /// What a save is answered after a write to the keychain.
    pub fn after_write(&self, written: bool) -> (r: Result<(), CliCoreError>)
        ensures
            match r {
                Ok(()) => written,
                Err(e) => !written && error::is_message(
                    e,
                    "failed to save token to keychain — check logs for the underlying error, ensure your system keychain (e.g. gnome-keyring, macOS Keychain) is running and unlocked, or select file storage (credential store \"file\" or \"auto\")"@,
                ),
            },
    {
        if written {
            Ok(())
        } else {
            Err(
                CliCoreError::message(
                    "failed to save token to keychain — check logs for the underlying error, ensure your system keychain (e.g. gnome-keyring, macOS Keychain) is running and unlocked, or select file storage (credential store \"file\" or \"auto\")".to_owned(),
                ),
            )
        }
    }
}

/// Keychain storage with a transparent unencrypted-file fallback.
#[derive(Clone, Copy, Debug)]
pub struct AutoStorage;

impl AutoStorage {
    /// Creates an auto (keychain-with-file-fallback) backend.
    pub fn new() -> (r: Self)
        ensures
            r == AutoStorage,
    {
        AutoStorage
    }

    /// What is done after a read of the keychain.
    pub fn after_read(&self, read: KeychainRead) -> (r: LoadStep)
        ensures
            r == load_step(read),
    {
        match read {
            KeychainRead::Found(s) => LoadStep::Done(Some(s)),
            KeychainRead::Empty => LoadStep::Done(None),
            KeychainRead::Unavailable => LoadStep::ReadFile,
        }
    }

    /// What is done after a write to the keychain.
    pub fn after_write(&self, written: bool) -> (r: SaveStep)
        ensures
            r == save_step(written),
    {
        if written {
            SaveStep::DeleteFile
        } else {
            SaveStep::WriteFile
        }
    }
}

/// A credential storage backend.
#[derive(Clone, Copy, Debug, PartialEq, Eq, Structural)]
pub enum StorageBackend {
    /// Unencrypted files.
    FileStorage,
    /// The system keychain only.
    KeyringStorage,
    /// The keychain with a file fallback.
    AutoStorage,
}

/// The backend for a mode.
pub open spec fn backend_of(mode: CredentialStore) -> StorageBackend {
    match mode {
        CredentialStore::File => StorageBackend::FileStorage,
        CredentialStore::Keyring => StorageBackend::KeyringStorage,
        CredentialStore::Auto => StorageBackend::AutoStorage,
    }
}

/// The credential storage backend for `mode`.
pub fn storage_for(mode: CredentialStore) -> (r: StorageBackend)
    ensures
        r == backend_of(mode),
{
    match mode {
        CredentialStore::File => StorageBackend::FileStorage,
        CredentialStore::Keyring => StorageBackend::KeyringStorage,
        CredentialStore::Auto => StorageBackend::AutoStorage,
    }
}

/// What stands under one key in the keychain, while it is reachable, and in the
/// file.
pub struct Vault {
    /// Whether the keychain is reachable.
    pub reachable: bool,
    /// The keychain's entry.
    pub keychain: Option<String>,
    /// The file's contents.
    pub file: Option<String>,
}

/// What a read of the keychain gives.
pub open spec fn read_of(v: Vault) -> KeychainRead {
    if !v.reachable {
        KeychainRead::Unavailable
    } else {
        match v.keychain {
            Some(s) => KeychainRead::Found(s),
            None => KeychainRead::Empty,
        }
    }
}

/// What the keychain with a file fallback loads.
pub open spec fn loaded(v: Vault) -> Option<String> {
    match load_step(read_of(v)) {
        LoadStep::Done(r) => r,
        LoadStep::ReadFile => v.file,
    }
}

/// What stands under the key after the keychain with a file fallback saved a
/// value.
pub open spec fn saved(v: Vault, value: String) -> Vault {
    match save_step(v.reachable) {
        SaveStep::DeleteFile => Vault { keychain: Some(value), file: None, ..v },
        SaveStep::WriteFile => Vault { file: Some(value), ..v },
    }
}

/// The keychain with a file fallback gives back what it saved, with or without a
/// keychain.
pub proof fn law_load_gives_back_what_was_saved(v: Vault, value: String)
    ensures
        loaded(saved(v, value)) == Some(value),
{
}

/// A save to the keychain leaves no copy in a file.
pub proof fn law_no_stale_file(v: Vault, value: String)
    requires
        v.reachable,
    ensures
        saved(v, value).file is None,
{
}

/// A file that was written while there was no keychain is not used once there
/// is one again.
pub proof fn law_empty_keychain_hides_the_file(v: Vault)
    requires
        v.reachable,
        v.keychain is None,
    ensures
        loaded(v) is None,
{
}

/// The backend that the configuration selects: the flag, the environment
/// variable, the config file, or the keychain.
pub fn default_storage(
    flag: Option<CredentialStore>,
    env_value: Option<&str>,
    contents: Option<&str>,
) -> (r: StorageBackend)
    ensures
        r == backend_of(
            config::resolved_store(
                flag,
                fs::str_text(env_value),
                config::store_in(contents),
            ),
        ),
{
    storage_for(resolve_credential_store(flag, env_value, contents))
}

/// The keychain name of a credential says which application, provider and
/// environment it is for: split at its slashes it gives them back.
pub proof fn law_service_names_the_key(key: CredentialKey)
    requires
        !key.app_id@.contains('/'),
        !key.provider@.contains('/'),
        !key.env@.contains('/'),
    ensures
        key.app_id@.len() > 0 ==> text::split_spec(service_spec(key), '/') == seq![
            key.app_id@,
            key.provider@,
            key.env@,
        ],
        key.app_id@.len() == 0 ==> text::split_spec(service_spec(key), '/') == seq![
            key.provider@,
            key.env@,
        ],
{
    reveal_strlit("/");
    assert("/"@ =~= seq!['/']);
    reveal_with_fuel(text::join_spec, 3);
    let two = seq![key.provider@, key.env@];
    let three = seq![key.app_id@, key.provider@, key.env@];
    assert(two.drop_last() =~= seq![key.provider@]);
    assert(three.drop_last() =~= seq![key.app_id@, key.provider@]);
    assert(three.drop_last().drop_last() =~= seq![key.app_id@]);
    assert(text::join_spec(two, seq!['/']) =~= key.provider@ + "/"@ + key.env@);
    assert(text::join_spec(three, seq!['/']) =~= key.app_id@ + "/"@ + key.provider@ + "/"@
        + key.env@);
    text::law_join_is_undone_by_split(two, '/');
    text::law_join_is_undone_by_split(three, '/');
}

/// The file of a credential lies below the base directory, is named after the
/// provider and the environment, and is never in the place of another
/// application.
pub proof fn law_credential_file_is_below_the_base(key: CredentialKey, base: Seq<char>)
    requires
        credential_path(key, Some(base)) is Some,
    ensures
        ({
            let path = credential_path(key, Some(base))->0;
            let file = key.provider@ + "-"@ + key.env@ + ".json"@;
            let app = if key.app_id@.len() == 0 {
                key.provider@
            } else {
                key.app_id@
            };
            &&& path.take(base.len() as int) == base
            &&& path.len() >= file.len()
            &&& path.skip(path.len() - file.len()) == file
            &&& text::contains_text(path, app + "/credentials/"@)
        }),
{
    reveal_strlit("credentials");
    reveal_strlit("/credentials/");
    let file = key.provider@ + "-"@ + key.env@ + ".json"@;
    let app = app_folder(key);
    let below = fs::join_spec(base, app);
    let folder = fs::join_spec(below, "credentials"@);
    let path = credential_path(key, Some(base))->0;
    assert(app.last() != '/') by {
        assert(!fs::is_forbidden(app[app.len() - 1]));
    }
    assert(below.last() == app.last());
    assert(folder.last() == 's') by {
        assert(folder.last() == "credentials"@.last());
    }
    assert(path =~= folder.push('/') + file);
    assert(path.skip(path.len() - file.len()) =~= file);
    assert(path.take(base.len() as int) =~= base);
    let lead = below.take(below.len() - app.len());
    assert(below =~= lead + app);
    assert("/credentials/"@ =~= seq!['/'] + "credentials"@ + seq!['/']);
    assert(path =~= lead + (app + "/credentials/"@) + file);
    text::lemma_part_occurs(lead, app + "/credentials/"@, file);
}

/// A credential has a file exactly where there is a base directory and every
/// part of its key is safe as a path component.
pub proof fn law_unsafe_keys_have_no_file(key: CredentialKey, base: Option<Seq<char>>)
    ensures
        credential_path(key, base) is Some <==> base is Some && fs::is_safe_spec(key.provider@)
            && fs::is_safe_spec(key.env@) && (key.app_id@.len() == 0 || fs::is_safe_spec(
            key.app_id@,
        )),
{
}

/// Each mode stores where its name says.
pub proof fn law_mode_is_its_backend(mode: CredentialStore)
    ensures
        backend_of(mode) is FileStorage <==> mode is File,
        backend_of(mode) is KeyringStorage <==> mode is Keyring,
        backend_of(mode) is AutoStorage <==> mode is Auto,
{
}

/// The keychain alone loads its entry and nothing else; with a file behind it,
/// the file is read only where there is no keychain.
pub proof fn law_keychain_comes_first(value: String)
    ensures
        keychain_entry(KeychainRead::Found(value)) == Some(value),
        keychain_entry(KeychainRead::Empty) is None,
        keychain_entry(KeychainRead::Unavailable) is None,
        load_step(KeychainRead::Found(value)) == LoadStep::Done(Some(value)),
        load_step(KeychainRead::Empty) == LoadStep::Done(None),
        load_step(KeychainRead::Unavailable) is ReadFile,
        save_step(true) is DeleteFile,
        save_step(false) is WriteFile,
{
}

} // verus!
