//! Engine configuration file and credential-storage selection.
//!
//! The credential store of an application is that of the command-line flag,
//! else that of its environment variable, else that of its config file, else
//! the system keychain.
use crate::error::CliCoreError;
use crate::flags;
use crate::fs;
use crate::text;
use crate::toml_doc;
use crate::toml_doc::TomlModel;
use vstd::prelude::*;
use vstd::string::*;

verus! {

/// Where an auth provider stores credentials.
#[derive(Clone, Copy, Debug, PartialEq, Eq, Structural)]
#[non_exhaustive]
pub enum CredentialStore {
    /// Try the system keychain; fall back to an unencrypted file when the
    /// keychain backend is unavailable.
    Auto,
    /// System keychain only. This is the default.
    Keyring,
    /// File only: never contact the system keychain.
    File,
}

impl Default for CredentialStore {
    fn default() -> (r: Self)
        ensures
            r == CredentialStore::Keyring,
    {
        CredentialStore::Keyring
    }
}

/// The name of a store.
pub open spec fn store_name(store: CredentialStore) -> Seq<char> {
    match store {
        CredentialStore::Auto => "auto"@,
        CredentialStore::Keyring => "keyring"@,
        CredentialStore::File => "file"@,
    }
}

/// The store that a text names, in any case and with white space around it.
pub open spec fn named_store(s: Seq<char>) -> Option<CredentialStore> {
    let name = text::ascii_lower_spec(text::trim_spec(s));
    if name == "auto"@ {
        Some(CredentialStore::Auto)
    } else if name == "keyring"@ || name == "keychain"@ {
        Some(CredentialStore::Keyring)
    } else if name == "file"@ {
        Some(CredentialStore::File)
    } else {
        None
    }
}

/// Error returned when a string does not name a [`CredentialStore`].
#[derive(Debug, PartialEq, Eq)]
pub struct ParseCredentialStoreError(pub String);

impl ParseCredentialStoreError {
    /// The text of the error.
    pub fn to_text(&self) -> (r: String)
        ensures
            r@ == store_error_text(self.0@),
    {
        let mut r = "invalid credential store ".to_owned();
        r.append(text::debug_text(self.0.as_str()).as_str());
        r.append(" (expected one of: auto, keyring, file)");
        r
    }
}

/// The text for a name that stands for no store.
pub open spec fn store_error_text(raw: Seq<char>) -> Seq<char> {
    "invalid credential store "@ + text::debug_quoted(raw)
        + " (expected one of: auto, keyring, file)"@
}

impl CredentialStore {
    /// Returns the lowercase canonical name.
    pub fn as_str(self) -> (r: &'static str)
        ensures
            r@ == store_name(self),
    {
        match self {
            CredentialStore::Auto => "auto",
            CredentialStore::Keyring => "keyring",
            CredentialStore::File => "file",
        }
    }

    /// Reads the name of a store.
    pub fn parse(s: &str) -> (r: Result<CredentialStore, ParseCredentialStoreError>)
        ensures
            match r {
                Ok(store) => named_store(s@) == Some(store),
                Err(e) => named_store(s@) is None && e.0@ == s@,
            },
    {
        let name = text::to_ascii_lower(text::trim(s).as_str());
        if text::str_eq(name.as_str(), "auto") {
            Ok(CredentialStore::Auto)
        } else if text::str_eq(name.as_str(), "keyring") || text::str_eq(
            name.as_str(),
            "keychain",
        ) {
            Ok(CredentialStore::Keyring)
        } else if text::str_eq(name.as_str(), "file") {
            Ok(CredentialStore::File)
        } else {
            Err(ParseCredentialStoreError(s.to_owned()))
        }
    }
}

impl std::str::FromStr for CredentialStore {
    type Err = ParseCredentialStoreError;

    fn from_str(s: &str) -> Result<Self, ParseCredentialStoreError> {
        CredentialStore::parse(s)
    }
}

/// The name of a store is read back as that store.
pub proof fn law_store_name_round_trips(store: CredentialStore)
    ensures
        named_store(store_name(store)) == Some(store),
{
    reveal_strlit("auto");
    reveal_strlit("keyring");
    reveal_strlit("keychain");
    reveal_strlit("file");
    let name = store_name(store);
    assert(text::trim_start_spec(name) == name);
    assert(text::trim_spec(name) == name);
    assert(text::ascii_lower_spec(name) =~= name);
    assert("file"@[0] != "auto"@[0] && "keyring"@[0] != "auto"@[0]);
    assert("file"@[0] != "keyring"@[0] && "file"@[0] != "keychain"@[0]);
}

/// Top-level engine configuration of `config.toml`.
#[derive(Clone, Copy, Debug)]
pub struct EngineConfig {
    /// Credential-storage settings (`[credentials]` table).
    pub credentials: CredentialsConfig,
}

/// The `[credentials]` table of the engine config file.
#[derive(Clone, Copy, Debug)]
pub struct CredentialsConfig {
    /// Selected credential store, or `None` when the key is absent.
    pub store: Option<CredentialStore>,
}

impl Default for EngineConfig {
    fn default() -> (r: Self)
        ensures
            r.credentials.store is None,
    {
        EngineConfig { credentials: CredentialsConfig { store: None } }
    }
}

impl Default for CredentialsConfig {
    fn default() -> (r: Self)
        ensures
            r.store is None,
    {
        CredentialsConfig { store: None }
    }
}

/// The byte that stands for an optional store.
pub open spec fn encoded(store: Option<CredentialStore>) -> u8 {
    match store {
        None => 0,
        Some(CredentialStore::Auto) => 1,
        Some(CredentialStore::Keyring) => 2,
        Some(CredentialStore::File) => 3,
    }
}

/// The optional store that a byte stands for.
pub open spec fn decoded(byte: u8) -> Option<CredentialStore> {
    if byte == 1 {
        Some(CredentialStore::Auto)
    } else if byte == 2 {
        Some(CredentialStore::Keyring)
    } else if byte == 3 {
        Some(CredentialStore::File)
    } else {
        None
    }
}

/// Puts an optional store into a byte.
pub fn encode_store(store: Option<CredentialStore>) -> (r: u8)
    ensures
        r == encoded(store),
{
    match store {
        None => 0,
        Some(CredentialStore::Auto) => 1,
        Some(CredentialStore::Keyring) => 2,
        Some(CredentialStore::File) => 3,
    }
}

/// Reads an optional store out of a byte.
pub fn decode_store(byte: u8) -> (r: Option<CredentialStore>)
    ensures
        r == decoded(byte),
{
    match byte {
        1 => Some(CredentialStore::Auto),
        2 => Some(CredentialStore::Keyring),
        3 => Some(CredentialStore::File),
        _ => None,
    }
}

/// Decoding gives back what was encoded.
pub proof fn law_store_encoding_round_trips(store: Option<CredentialStore>)
    ensures
        decoded(encoded(store)) == store,
{
}

/// Derives the credential-store override variable from an app id.
pub fn credential_store_env_var(app_id: &str) -> (r: String)
    ensures
        r@ == flags::env_prefix(app_id@) + "_CREDENTIAL_STORE"@,
{
    let mut r = flags::app_id_env_prefix(app_id);
    r.append("_CREDENTIAL_STORE");
    r
}

/// The path of the config file of an application below a base directory; none
/// without a base directory or with an app id that is no safe path component.
pub open spec fn config_path_spec(app_id: Seq<char>, base: Option<Seq<char>>) -> Option<Seq<char>> {
    if !fs::is_safe_spec(app_id) {
        None
    } else {
        match base {
            Some(dir) => Some(fs::join_spec(fs::join_spec(dir, app_id), "config.toml"@)),
            None => None,
        }
    }
}

/// Returns the path to the engine config file for `app_id`.
pub fn config_file_path(app_id: &str, base: Option<&str>) -> (r: Option<String>)
    ensures
        match r {
            Some(path) => config_path_spec(app_id@, fs::str_text(base)) == Some(path@),
            None => config_path_spec(app_id@, fs::str_text(base)) is None,
        },
{
    if !fs::is_safe_path_component(app_id) {
        return None;
    }
    match base {
        Some(dir) => {
            let folder = fs::join_path(dir, app_id);
            Some(fs::join_path(folder.as_str(), "config.toml"))
        },
        None => None,
    }
}

/// What stands at a path of keys below an item.
pub open spec fn item_at(item: TomlModel, parts: Seq<Seq<char>>) -> Option<TomlModel>
    decreases parts.len(),
{
    if parts.len() == 0 {
        Some(item)
    } else {
        match toml_doc::entry_of(item, parts[0]) {
            Some(next) => item_at(next, parts.skip(1)),
            None => None,
        }
    }
}

/// The text of a value; a table has none.
pub open spec fn value_text(item: TomlModel) -> Option<Seq<char>> {
    match item {
        TomlModel::Text(t) => Some(t),
        TomlModel::Plain(t) => Some(t),
        TomlModel::Inline(_, t) => Some(t),
        _ => None,
    }
}

/// `t` is the text of `model`: that of a value, or else what an item that holds
/// it is written as, with its formatting.
pub open spec fn is_text_of(t: Seq<char>, model: TomlModel) -> bool {
    match value_text(model) {
        Some(text) => t == text,
        None => exists|item: toml_edit::Item|
            toml_doc::item_model(item) == model && t == #[trigger] toml_doc::item_display(item),
    }
}

/// The entries with `value` at `leaf` below the tables `parents`, which are
/// made where they are missing; none where one of them is no table.
pub open spec fn put(
    entries: Map<Seq<char>, TomlModel>,
    parents: Seq<Seq<char>>,
    leaf: Seq<char>,
    value: TomlModel,
) -> Option<Map<Seq<char>, TomlModel>>
    decreases parents.len(),
{
    if parents.len() == 0 {
        Some(entries.insert(leaf, value))
    } else {
        match toml_doc::table_at(entries, parents[0]) {
            None => None,
            Some(inner) => match put(inner, parents.skip(1), leaf, value) {
                None => None,
                Some(changed) => Some(
                    entries.insert(
                        parents[0],
                        toml_doc::table_of(toml_doc::dotted_at(entries, parents[0]), changed),
                    ),
                ),
            },
        }
    }
}

/// The first of the `parents` that is no table.
pub open spec fn blocked(entries: Map<Seq<char>, TomlModel>, parents: Seq<Seq<char>>) -> Option<
    Seq<char>,
>
    decreases parents.len(),
{
    if parents.len() == 0 {
        None
    } else {
        match toml_doc::table_at(entries, parents[0]) {
            None => Some(parents[0]),
            Some(inner) => blocked(inner, parents.skip(1)),
        }
    }
}

/// The path leads from a table of dotted keys to a table under a header, or to
/// one that is missing; `dotted` tells which of the two it starts from.
pub open spec fn leaves_dotted(
    entries: Map<Seq<char>, TomlModel>,
    dotted: bool,
    parents: Seq<Seq<char>>,
) -> bool
    decreases parents.len(),
{
    if parents.len() == 0 {
        false
    } else {
        let next = toml_doc::dotted_at(entries, parents[0]);
        (dotted && !next) || match toml_doc::table_at(entries, parents[0]) {
            Some(inner) => leaves_dotted(inner, next, parents.skip(1)),
            None => false,
        }
    }
}

/// Below nothing there is nothing in the way.
proof fn lemma_empty_is_open(entries: Map<Seq<char>, TomlModel>, parents: Seq<Seq<char>>)
    requires
        entries.dom() =~= Set::<Seq<char>>::empty(),
    ensures
        blocked(entries, parents) is None,
    decreases parents.len(),
{
    if parents.len() > 0 {
        lemma_empty_is_open(Map::empty(), parents.skip(1));
    }
}

/// A value can be put unless one of its parents is no table.
pub proof fn law_put_fails_only_where_blocked(
    entries: Map<Seq<char>, TomlModel>,
    parents: Seq<Seq<char>>,
    leaf: Seq<char>,
    value: TomlModel,
)
    ensures
        put(entries, parents, leaf, value) is None <==> blocked(entries, parents) is Some,
    decreases parents.len(),
{
    if parents.len() > 0 {
        match toml_doc::table_at(entries, parents[0]) {
            None => {},
            Some(inner) => {
                law_put_fails_only_where_blocked(inner, parents.skip(1), leaf, value);
            },
        }
    }
}

/// What was put at a path is what stands there afterwards.
pub proof fn law_read_gives_back_what_was_put(
    entries: Map<Seq<char>, TomlModel>,
    parents: Seq<Seq<char>>,
    leaf: Seq<char>,
    value: TomlModel,
)
    requires
        !(value is Nothing),
    ensures
        put(entries, parents, leaf, value) matches Some(changed) ==> item_at(
            TomlModel::Table(changed),
            parents.push(leaf),
        ) == Some(value),
    decreases parents.len(),
{
    reveal_with_fuel(item_at, 2);
    let path = parents.push(leaf);
    if parents.len() == 0 {
        assert(path.skip(1) =~= Seq::empty());
        assert(path[0] == leaf);
    } else {
        assert(path[0] == parents[0]);
        assert(path.skip(1) =~= parents.skip(1).push(leaf));
        match toml_doc::table_at(entries, parents[0]) {
            None => {},
            Some(inner) => {
                law_read_gives_back_what_was_put(inner, parents.skip(1), leaf, value);
            },
        }
    }
}

/// At some place both paths have a key, and not the same one.
pub open spec fn diverge(a: Seq<Seq<char>>, b: Seq<Seq<char>>) -> bool
    decreases a.len(),
{
    a.len() > 0 && b.len() > 0 && (a[0] != b[0] || diverge(a.skip(1), b.skip(1)))
}

/// A change leaves alone what stands at any path that turns off from its own.
pub proof fn law_put_keeps_other_paths(
    entries: Map<Seq<char>, TomlModel>,
    parents: Seq<Seq<char>>,
    leaf: Seq<char>,
    value: TomlModel,
    other: Seq<Seq<char>>,
)
    requires
        diverge(parents.push(leaf), other),
    ensures
        put(entries, parents, leaf, value) matches Some(changed) ==> item_at(
            TomlModel::Table(changed),
            other,
        ) == item_at(TomlModel::Table(entries), other),
    decreases parents.len(),
{
    reveal_with_fuel(item_at, 2);
    reveal_with_fuel(diverge, 2);
    let path = parents.push(leaf);
    if parents.len() == 0 {
        assert(path.skip(1).len() == 0);
        assert(path[0] == leaf);
    } else {
        assert(path[0] == parents[0]);
        assert(path.skip(1) =~= parents.skip(1).push(leaf));
        match toml_doc::table_at(entries, parents[0]) {
            None => {},
            Some(inner) => {
                if other[0] == parents[0] {
                    law_put_keeps_other_paths(inner, parents.skip(1), leaf, value, other.skip(1));
                    if !entries.dom().contains(parents[0]) {
                        assert(other.skip(1).len() > 0);
                        assert(item_at(TomlModel::Table(inner), other.skip(1)) is None);
                    }
                }
            },
        }
    }
}

/// What a value is stored as: a boolean, an integer or a floating-point number
/// in the notation of TOML, anything else as a string.
pub open spec fn inferred(value: Seq<char>) -> TomlModel {
    if value == "true"@ {
        TomlModel::Plain("true"@)
    } else if value == "false"@ {
        TomlModel::Plain("false"@)
    } else {
        match text::parse_i64_spec(value) {
            Some(i) => TomlModel::Plain(text::signed_spec(i as int)),
            None => match toml_doc::float_literal(value) {
                Some(t) => TomlModel::Plain(t),
                None => TomlModel::Text(value),
            },
        }
    }
}

/// The text that a value has once it is stored.
pub open spec fn inferred_text(value: Seq<char>) -> Seq<char> {
    value_text(inferred(value))->0
}

/// The store that a config file names; one that is not a valid name counts as
/// absent.
pub open spec fn stored_store(entries: Map<Seq<char>, TomlModel>) -> Option<CredentialStore> {
    match item_at(TomlModel::Table(entries), seq!["credentials"@, "store"@]) {
        Some(TomlModel::Text(name)) => named_store(name),
        _ => None,
    }
}

/// The keys of a dotted path.
pub open spec fn key_parts(dotted: Seq<char>) -> Seq<Seq<char>> {
    text::split_spec(dotted, '.')
}

/// The message with which a change is refused; none where it is carried out.
pub open spec fn set_error(
    entries: Map<Seq<char>, TomlModel>,
    dotted: Seq<char>,
    value: Seq<char>,
) -> Option<Seq<char>> {
    let parts = key_parts(dotted);
    if parts[0] == "credentials"@ && dotted != "credentials.store"@ {
        Some(
            "unknown engine-reserved key "@ + text::debug_quoted(dotted)
                + "; the only supported key in [credentials] is \"credentials.store\""@,
        )
    } else if dotted == "credentials.store"@ && named_store(value) is None {
        Some(store_error_text(value))
    } else if parts.contains(Seq::empty()) {
        Some("invalid config key "@ + text::debug_quoted(dotted))
    } else {
        match blocked(entries, parts.drop_last()) {
            Some(key) => Some("config key "@ + text::debug_quoted(key) + " is not a table"@),
            None => None,
        }
    }
}

/// A loaded per-application config file.
///
/// Engine-reserved settings live in the `[credentials]` table; consumers own
/// every other top-level table. Changes keep the comments and the formatting of
/// the file.
pub struct ConfigFile {
    path: Option<String>,
    doc: toml_edit::DocumentMut,
    writable: bool,
}

/// Parses `value` as a TOML bool, integer or float when possible, else a string.
fn infer_toml_value(value: &str) -> (r: toml_edit::Value)
    ensures
        toml_doc::value_model(r) == inferred(value@),
        toml_doc::is_bare(r),
        toml_doc::fresh_in_value(r).subset_of(set![value@]),
{
    if text::str_eq(value, "true") {
        return toml_doc::bool_value(true);
    }
    if text::str_eq(value, "false") {
        return toml_doc::bool_value(false);
    }
    if let Some(i) = text::parse_i64(value) {
        return toml_doc::integer_value(i);
    }
    match toml_doc::float_value(value) {
        Some(f) => f,
        None => toml_doc::string_value(value),
    }
}

/// Puts a value below the tables `parts[i..n - 1]` of a table, under the last
/// of the parts; returns the place of a part that is no table.
fn put_at(
    table: &mut toml_edit::Table,
    parts: &Vec<String>,
    i: usize,
    value: toml_edit::Value,
) -> (r: Option<usize>)
    requires
        i < parts.len(),
    ensures
        ({
            let before = toml_doc::table_entries(*old(table));
            let after = toml_doc::table_entries(*final(table));
            let parents = text::texts(parts@).drop_last().skip(i as int);
            match r {
                Some(at) => at < parts@.len() && blocked(before, parents) == Some(parts@[at as int]@)
                    && *final(table) == *old(table),
                None => blocked(before, parents) is None && put(
                    before,
                    parents,
                    text::texts(parts@).last(),
                    toml_doc::value_model(value),
                ) == Some(after),
            }
        }),
        toml_doc::is_dotted(*final(table)) == toml_doc::is_dotted(*old(table)),
        toml_doc::is_regular(*old(table), i as nat) && toml_doc::is_bare(value) && parts@.len()
            < toml_doc::KEY_LIMIT && !leaves_dotted(
            toml_doc::table_entries(*old(table)),
            toml_doc::is_dotted(*old(table)),
            text::texts(parts@).drop_last().skip(i as int),
        ) ==> toml_doc::is_regular(*final(table), i as nat),
        toml_doc::fresh_in_table(*final(table)).subset_of(
            toml_doc::fresh_in_table(*old(table)).union(toml_doc::fresh_in_value(value)),
        ),
    decreases parts@.len() - i,
{
    let ghost before = toml_doc::table_entries(*table);
    let ghost parents = text::texts(parts@).drop_last().skip(i as int);
    if i + 1 == parts.len() {
        assert(parents.len() == 0);
        toml_doc::put_value(table, parts[i].as_str(), value);
        return None;
    }
    assert(parents[0] == parts@[i as int]@);
    assert(parents.skip(1) =~= text::texts(parts@).drop_last().skip(i + 1));
    match toml_doc::child_table(table, parts[i].as_str()) {
        None => Some(i),
        Some(child) => {
            let ghost inner = toml_doc::table_entries(*child);
            let r = put_at(child, parts, i + 1, value);
            proof {
                if r is Some {
                    if !before.dom().contains(parents[0]) {
                        lemma_empty_is_open(inner, parents.skip(1));
                    }
                }
            }
            r
        },
    }
}

impl ConfigFile {
    /// What the file holds at its top level.
    pub closed spec fn entries(&self) -> Map<Seq<char>, TomlModel> {
        toml_doc::document_entries(self.doc)
    }

    /// The path of the file, where there is one.
    pub closed spec fn path_text(&self) -> Option<Seq<char>> {
        crate::error::opt_text(self.path)
    }

    /// The text of the file, with its comments and formatting.
    pub closed spec fn written(&self) -> Seq<char> {
        toml_doc::document_written(self.doc)
    }

    /// What the file holds is read back from the text that it is written as.
    /// This holds of every file that was read, and is kept by changes at keys
    /// of fewer than [`toml_doc::KEY_LIMIT`] parts whose path does not lead from
    /// a table of dotted keys to another kind of table.
    pub closed spec fn is_regular(&self) -> bool {
        toml_doc::is_regular_document(self.doc)
    }

    /// The file can be written: no string that was put into it has too many
    /// equal quotation marks in a row. This holds of every file that was read,
    /// and is kept by changes to values without [`toml_doc::has_quote_run`].
    pub closed spec fn is_writable(&self) -> bool {
        self.writable && toml_doc::can_be_written(toml_doc::fresh_in_document(self.doc))
    }

    /// The file knows whether it can be written.
    pub closed spec fn wf(&self) -> bool {
        self.writable ==> self.is_writable()
    }

    /// The text of what stands at a dotted key can be told: the file can be
    /// written, or a string stands there, or nothing.
    pub open spec fn has_text(&self, dotted: Seq<char>) -> bool {
        self.is_writable() || (item_at(TomlModel::Table(self.entries()), key_parts(dotted)) matches Some(
            item,
        ) ==> item is Text)
    }

    /// The empty file without a path.
    pub fn empty() -> (r: Self)
        ensures
            r.entries().dom() == Set::<Seq<char>>::empty(),
            r.path_text() is None,
            r.wf(),
            r.is_regular(),
            r.is_writable(),
            r.written().len() == 0,
    {
        ConfigFile { path: None, doc: toml_doc::new_document(), writable: true }
    }

    /// The config file at `path` with the given contents, none where the file
    /// could not be read. Contents that are not TOML count as an empty file.
    pub fn from_contents(path: Option<String>, contents: Option<&str>) -> (r: Self)
        ensures
            r.path_text() == crate::error::opt_text(path),
            r.wf(),
            r.is_regular(),
            r.is_writable(),
            match contents {
                Some(t) => match toml_doc::parsed_entries(t@) {
                    Some(entries) => r.entries() == entries && r.written()
                        == toml_doc::rewritten(t@),
                    None => r.entries().dom() == Set::<Seq<char>>::empty() && r.written().len()
                        == 0,
                },
                None => r.entries().dom() == Set::<Seq<char>>::empty() && r.written().len() == 0,
            },
    {
        let parsed = match contents {
            Some(t) => toml_doc::parse_document(t),
            None => None,
        };
        let doc = match parsed {
            Some(doc) => doc,
            None => toml_doc::new_document(),
        };
        ConfigFile { path, doc, writable: true }
    }

    /// Tells whether the file can be written: whether no value that was put into
    /// it has too many equal quotation marks in a row.
    pub fn can_be_written(&self) -> (r: bool)
        requires
            self.wf(),
        ensures
            r == self.is_writable(),
    {
        self.writable
    }

    /// Returns the resolved config file path, if there is one.
    pub fn path(&self) -> (r: Option<&str>)
        ensures
            fs::str_text(r) == self.path_text(),
    {
        match &self.path {
            Some(p) => Some(p.as_str()),
            None => None,
        }
    }

    /// The engine-reserved settings. A store that is not a valid name counts
    /// as absent.
    pub fn engine(&self) -> (r: EngineConfig)
        ensures
            r.credentials.store == stored_store(self.entries()),
    {
        let ghost parts = seq!["credentials"@, "store"@];
        let root = toml_doc::document_item(&self.doc);
        assert(parts.skip(1)[0] == "store"@);
        assert(parts.skip(1).skip(1).len() == 0);
        assert(item_at(TomlModel::Table(self.entries()), parts) == match toml_doc::entry_of(
            TomlModel::Table(self.entries()),
            parts[0],
        ) {
            Some(next) => item_at(next, parts.skip(1)),
            None => None,
        });
        let store = match toml_doc::item_entry(root, "credentials") {
            None => None,
            Some(table) => {
                assert(item_at(toml_doc::item_model(*table), parts.skip(1)) == match toml_doc::entry_of(
                    toml_doc::item_model(*table),
                    "store"@,
                ) {
                    Some(next) => item_at(next, parts.skip(1).skip(1)),
                    None => None,
                });
                match toml_doc::item_entry(table, "store") {
                    None => None,
                    Some(item) => match toml_doc::string_text(item) {
                        Some(t) => match CredentialStore::parse(t.as_str()) {
                            Ok(store) => Some(store),
                            Err(_) => None,
                        },
                        None => None,
                    },
                }
            },
        };
        EngineConfig { credentials: CredentialsConfig { store } }
    }

    /// Returns the text of the value at a dotted key, or `None` when absent. A
    /// string gives what it says, another value the text that it is written as,
    /// without the white space around it, and a table the text that it is
    /// written as.
    pub fn get(&self, dotted_key: &str) -> (r: Option<String>)
        requires
            self.has_text(dotted_key@),
        ensures
            match item_at(TomlModel::Table(self.entries()), key_parts(dotted_key@)) {
                None => r is None,
                Some(item) => r is Some && is_text_of(r->0@, item),
            },
    {
        let parts = text::split_char(dotted_key, '.');
        let ghost all = text::texts(parts@);
        let mut item = toml_doc::document_item(&self.doc);
        let mut i: usize = 0;
        assert(all.skip(0) =~= all);
        while i < parts.len()
            invariant
                i <= parts@.len(),
                all == text::texts(parts@),
                item_at(TomlModel::Table(self.entries()), all) == item_at(
                    toml_doc::item_model(*item),
                    all.skip(i as int),
                ),
                all == key_parts(dotted_key@),
                toml_doc::fresh_in_item(*item).subset_of(toml_doc::fresh_in_document(self.doc)),
            decreases parts@.len() - i,
        {
            assert(all.skip(i as int)[0] == parts@[i as int]@);
            assert(all.skip(i as int).skip(1) =~= all.skip(i + 1));
            match toml_doc::item_entry(item, parts[i].as_str()) {
                Some(next) => {
                    item = next;
                },
                None => {
                    return None;
                },
            }
            i = i + 1;
        }
        assert(all.skip(parts@.len() as int).len() == 0);
        if let Some(t) = toml_doc::string_text(item) {
            return Some(t);
        }
        let written = toml_doc::item_text(item);
        assert(written@ == toml_doc::item_display(*item));
        if toml_doc::is_value(item) {
            Some(text::trim(written.as_str()))
        } else {
            Some(written)
        }
    }

    /// Sets the value at a dotted key, creating intermediate tables as needed.
    ///
    /// The value is stored as a boolean, an integer or a floating-point number
    /// where it reads as one, else as a string. In the engine-reserved
    /// `[credentials]` table only the key `store` is accepted, with the name of
    /// a store.
    pub fn set(&mut self, dotted_key: &str, value: &str) -> (r: Result<(), CliCoreError>)
        ensures
            final(self).path_text() == old(self).path_text(),
            old(self).is_regular() && key_parts(dotted_key@).len() < toml_doc::KEY_LIMIT
                && !leaves_dotted(
                old(self).entries(),
                false,
                key_parts(dotted_key@).drop_last(),
            ) ==> final(self).is_regular(),
            old(self).wf() ==> final(self).wf() && (r is Ok ==> final(self).is_writable() == (old(self).is_writable() && !toml_doc::has_quote_run(value@))),
            match r {
                Err(e) => set_error(old(self).entries(), dotted_key@, value@) is Some && crate::error::is_message(
                    e,
                    set_error(old(self).entries(), dotted_key@, value@)->0,
                ) && *final(self) == *old(self),
                Ok(()) => set_error(old(self).entries(), dotted_key@, value@) is None && put(
                    old(self).entries(),
                    key_parts(dotted_key@).drop_last(),
                    key_parts(dotted_key@).last(),
                    inferred(value@),
                ) == Some(final(self).entries()),
            },
    {
        let parts = text::split_char(dotted_key, '.');
        let ghost all = text::texts(parts@);
        proof {
            text::lemma_split_nonempty(dotted_key@, '.');
        }
        if text::str_eq(dotted_key, "credentials.store") {
            if let Err(e) = CredentialStore::parse(value) {
                return Err(CliCoreError::message(e.to_text()));
            }
        } else if text::str_eq(parts[0].as_str(), "credentials") {
            let mut m = "unknown engine-reserved key ".to_owned();
            m.append(text::debug_text(dotted_key).as_str());
            m.append("; the only supported key in [credentials] is \"credentials.store\"");
            return Err(CliCoreError::message(m));
        }
        if text::list_contains(&parts, "") {
            proof {
                reveal_strlit("");
                assert(""@ =~= Seq::<char>::empty());
            }
            let mut m = "invalid config key ".to_owned();
            m.append(text::debug_text(dotted_key).as_str());
            return Err(CliCoreError::message(m));
        }
        proof {
            reveal_strlit("");
            assert(""@ =~= Seq::<char>::empty());
            assert(all.drop_last().skip(0) =~= all.drop_last());
        }
        let table = toml_doc::document_table(&mut self.doc);
        match put_at(table, &parts, 0, infer_toml_value(value)) {
            Some(at) => {
                let mut m = "config key ".to_owned();
                m.append(text::debug_text(parts[at].as_str()).as_str());
                m.append(" is not a table");
                Err(CliCoreError::message(m))
            },
            None => {
                self.writable = self.writable && !toml_doc::quote_run(value);
                Ok(())
            },
        }
    }

    /// Renders the whole config document back to a TOML string.
    pub fn to_toml_string(&self) -> (r: String)
        requires
            self.is_writable(),
        ensures
            r@ == self.written(),
            self.is_regular() ==> toml_doc::parsed_entries(r@) == Some(self.entries()),
    {
        toml_doc::document_text(&self.doc)
    }

    /// The path and the text to write for the file to be saved.
    pub fn to_save(&self) -> (r: Result<(String, String), CliCoreError>)
        requires
            self.is_writable(),
        ensures
            match r {
                Ok((path, contents)) => {
                    &&& self.path_text() == Some(path@)
                    &&& contents@ == self.written()
                    &&& self.is_regular() ==> toml_doc::parsed_entries(contents@) == Some(
                        self.entries(),
                    )
                },
                Err(e) => self.path_text() is None && crate::error::is_message(
                    e,
                    "no config path available (set XDG_CONFIG_HOME, HOME, or %APPDATA% to a directory)"@,
                ),
            },
    {
        match &self.path {
            Some(path) => Ok((path.clone(), toml_doc::document_text(&self.doc))),
            None => Err(
                CliCoreError::message(
                    "no config path available (set XDG_CONFIG_HOME, HOME, or %APPDATA% to a directory)".to_owned(),
                ),
            ),
        }
    }
}

/// A value that a config file accepts is what a read of the same key gives
/// back, in the notation in which it is stored.
pub proof fn law_get_after_set(
    entries: Map<Seq<char>, TomlModel>,
    dotted: Seq<char>,
    value: Seq<char>,
)
    requires
        set_error(entries, dotted, value) is None,
    ensures
        put(
            entries,
            key_parts(dotted).drop_last(),
            key_parts(dotted).last(),
            inferred(value),
        ) matches Some(changed) && item_at(TomlModel::Table(changed), key_parts(dotted)) == Some(
            inferred(value),
        ),
{
    let parts = key_parts(dotted);
    text::lemma_split_nonempty(dotted, '.');
    law_put_fails_only_where_blocked(
        entries,
        parts.drop_last(),
        parts.last(),
        inferred(value),
    );
    law_read_gives_back_what_was_put(
        entries,
        parts.drop_last(),
        parts.last(),
        inferred(value),
    );
    assert(parts.drop_last().push(parts.last()) =~= parts);
}

/// A setting that a config file accepts is found under its key once the file was
/// saved and loaded, in the notation in which it is stored.
pub proof fn law_saved_setting_is_read_back(
    before: ConfigFile,
    after: ConfigFile,
    dotted: Seq<char>,
    value: Seq<char>,
    contents: Seq<char>,
)
    requires
        set_error(before.entries(), dotted, value) is None,
        put(
            before.entries(),
            key_parts(dotted).drop_last(),
            key_parts(dotted).last(),
            inferred(value),
        ) == Some(after.entries()),
        toml_doc::parsed_entries(contents) == Some(after.entries()),
    ensures
        toml_doc::parsed_entries(contents) matches Some(entries) && item_at(
            TomlModel::Table(entries),
            key_parts(dotted),
        ) == Some(inferred(value)),
{
    law_get_after_set(before.entries(), dotted, value);
}

/// The store that applies: the flag, else a valid value of the environment
/// variable, else the config file, else the keychain.
pub open spec fn resolved_store(
    flag: Option<CredentialStore>,
    env: Option<Seq<char>>,
    file: Option<CredentialStore>,
) -> CredentialStore {
    match flag {
        Some(store) => store,
        None => match (match env {
            Some(raw) => named_store(raw),
            None => None,
        }) {
            Some(store) => store,
            None => match file {
                Some(store) => store,
                None => CredentialStore::Keyring,
            },
        },
    }
}

/// Resolves the effective [`CredentialStore`] from explicit inputs.
pub fn resolve_credential_store_with(
    flag: Option<CredentialStore>,
    env: Option<&str>,
    file: &EngineConfig,
) -> (r: CredentialStore)
    ensures
        r == resolved_store(flag, fs::str_text(env), file.credentials.store),
{
    if let Some(store) = flag {
        return store;
    }
    if let Some(raw) = env {
        if let Ok(store) = CredentialStore::parse(raw) {
            return store;
        }
    }
    match file.credentials.store {
        Some(store) => store,
        None => CredentialStore::Keyring,
    }
}

/// The engine settings of a config file, given its contents.
pub fn load(contents: Option<&str>) -> (r: EngineConfig)
    ensures
        r.credentials.store == store_in(contents),
{
    ConfigFile::from_contents(None, contents).engine()
}

/// The store that the contents of a config file select.
pub open spec fn store_in(contents: Option<&str>) -> Option<CredentialStore> {
    match fs::str_text(contents) {
        None => None,
        Some(t) => match toml_doc::parsed_entries(t) {
            None => None,
            Some(entries) => stored_store(entries),
        },
    }
}

/// Resolves the effective [`CredentialStore`] of an application from the flag,
/// the value of its environment variable and the contents of its config file.
pub fn resolve_credential_store(
    flag: Option<CredentialStore>,
    env: Option<&str>,
    contents: Option<&str>,
) -> (r: CredentialStore)
    ensures
        r == resolved_store(flag, fs::str_text(env), store_in(contents)),
{
    resolve_credential_store_with(flag, env, &load(contents))
}

/// The store of a flag comes first, then that of the variable where it names
/// one, then that of the config file, and the keychain where none is named.
pub proof fn law_store_is_chosen_in_order(
    store: CredentialStore,
    env: Option<Seq<char>>,
    file: Option<CredentialStore>,
    raw: Seq<char>,
)
    ensures
        resolved_store(Some(store), env, file) == store,
        named_store(raw) == Some(store) ==> resolved_store(None, Some(raw), file) == store,
        named_store(raw) is None ==> resolved_store(None, Some(raw), file) == resolved_store(
            None,
            None,
            file,
        ),
        resolved_store(None, None, Some(store)) == store,
        resolved_store(None, None, None) == CredentialStore::Keyring,
{
}

/// A boolean and an integer are stored as such and keep their text; what is
/// neither, nor another number, is stored as the string that it is.
pub proof fn law_values_keep_their_text(n: i64, value: Seq<char>)
    ensures
        inferred("true"@) == TomlModel::Plain("true"@),
        inferred("false"@) == TomlModel::Plain("false"@),
        inferred(text::signed_spec(n as int)) == TomlModel::Plain(text::signed_spec(n as int)),
        value != "true"@ && value != "false"@ && text::parse_i64_spec(value) is None
            && toml_doc::float_literal(value) is None ==> inferred(value) == TomlModel::Text(value)
            && inferred_text(value) == value,
{
    reveal_strlit("true");
    reveal_strlit("false");
    text::law_signed_is_read_back(n);
    let s = text::signed_spec(n as int);
    assert("true"@.len() == 4 && "true"@[0] == 't');
    assert("false"@.len() == 5 && "false"@[0] == 'f');
    if n < 0 {
        assert(s[0] == '-');
    } else {
        text::law_decimal_is_read_back(n as nat);
        assert(text::is_digit(s[0]));
    }
    if s == "true"@ {
        assert(s[0] == 't');
    }
    if s == "false"@ {
        assert(s[0] == 'f');
    }
}

/// A change is refused where its key belongs to the engine and is not the one of
/// the store, where the store that it names is none, where a part of its key is
/// empty, and where its path leads through what is no table; and nowhere else.
pub proof fn law_change_is_refused(
    entries: Map<Seq<char>, TomlModel>,
    dotted: Seq<char>,
    value: Seq<char>,
)
    ensures
        ({
            let parts = key_parts(dotted);
            let reserved = parts[0] == "credentials"@ && dotted != "credentials.store"@;
            let no_store = dotted == "credentials.store"@ && named_store(value) is None;
            let blank = exists|i: int| 0 <= i < parts.len() && (#[trigger] parts[i]).len() == 0;
            set_error(entries, dotted, value) is Some <==> reserved || no_store || blank || blocked(
                entries,
                parts.drop_last(),
            ) is Some
        }),
{
    let parts = key_parts(dotted);
    let blank = exists|i: int| 0 <= i < parts.len() && (#[trigger] parts[i]).len() == 0;
    if parts.contains(Seq::empty()) {
        let i = choose|i: int| 0 <= i < parts.len() && parts[i] == Seq::<char>::empty();
        assert(parts[i].len() == 0);
    }
    if blank {
        let i = choose|i: int| 0 <= i < parts.len() && (#[trigger] parts[i]).len() == 0;
        assert(parts[i] =~= Seq::empty());
        assert(parts.contains(Seq::empty()));
    }
}

/// The keys of a dotted key are what stands between its dots.
pub proof fn law_dotted_key_is_read_back(parts: Seq<Seq<char>>)
    requires
        parts.len() > 0,
        forall|i: int| 0 <= i < parts.len() ==> !(#[trigger] parts[i]).contains('.'),
    ensures
        key_parts(text::join_spec(parts, seq!['.'])) == parts,
{
    text::law_join_is_undone_by_split(parts, '.');
}

/// The store that the config file names under its key counts, where it is the
/// name of one.
pub proof fn law_store_is_read_from_the_file(
    entries: Map<Seq<char>, TomlModel>,
    credentials: Map<Seq<char>, TomlModel>,
    store: CredentialStore,
)
    requires
        entries.dom().contains("credentials"@),
        entries["credentials"@] == TomlModel::Table(credentials),
    ensures
        credentials.dom().contains("store"@) && credentials["store"@] == TomlModel::Text(
            store_name(store),
        ) ==> stored_store(entries) == Some(store),
        !credentials.dom().contains("store"@) ==> stored_store(entries) is None,
{
    law_store_name_round_trips(store);
    reveal_with_fuel(item_at, 3);
    let parts = seq!["credentials"@, "store"@];
    assert(parts.skip(1) =~= seq!["store"@]);
    assert(parts.skip(1).skip(1).len() == 0);
}

/// The config file of an application lies below the base directory, in the
/// folder of the application.
pub proof fn law_config_file_is_below_the_base(app_id: Seq<char>, base: Seq<char>)
    ensures
        config_path_spec(app_id, Some(base)) is Some <==> fs::is_safe_spec(app_id),
        config_path_spec(app_id, None) is None,
        config_path_spec(app_id, Some(base)) matches Some(path) ==> {
            &&& path.take(base.len() as int) == base
            &&& path.len() >= (app_id + "/config.toml"@).len()
            &&& path.skip(path.len() - (app_id + "/config.toml"@).len()) == app_id
                + "/config.toml"@
        },
{
    if fs::is_safe_spec(app_id) {
        reveal_strlit("/config.toml");
        reveal_strlit("config.toml");
        let path = config_path_spec(app_id, Some(base))->0;
        let below = fs::join_spec(base, app_id);
        assert(!fs::is_forbidden(app_id[app_id.len() - 1]));
        assert(below.last() == app_id.last());
        assert("/config.toml"@ =~= seq!['/'] + "config.toml"@);
        assert(path =~= below.push('/') + "config.toml"@);
        assert(path.take(base.len() as int) =~= base);
        assert(path.skip(path.len() - (app_id + "/config.toml"@).len()) =~= app_id
            + "/config.toml"@);
    }
}

/// Each store goes by its own name, the keychain by two.
pub proof fn law_stores_go_by_their_names()
    ensures
        named_store("auto"@) == Some(CredentialStore::Auto),
        named_store("keyring"@) == Some(CredentialStore::Keyring),
        named_store("keychain"@) == Some(CredentialStore::Keyring),
        named_store("file"@) == Some(CredentialStore::File),
        store_name(CredentialStore::Auto) == "auto"@,
        store_name(CredentialStore::Keyring) == "keyring"@,
        store_name(CredentialStore::File) == "file"@,
{
    law_store_name_round_trips(CredentialStore::Auto);
    law_store_name_round_trips(CredentialStore::Keyring);
    law_store_name_round_trips(CredentialStore::File);
    reveal_strlit("auto");
    reveal_strlit("keychain");
    let name = "keychain"@;
    assert(text::trim_start_spec(name) == name);
    assert(text::trim_spec(name) == name);
    assert(text::ascii_lower_spec(name) =~= name);
    assert("keychain"@[0] != "auto"@[0]);
}

} // verus!
