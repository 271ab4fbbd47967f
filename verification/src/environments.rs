//! First-class environment definitions and layered resolution.
//!
//! An [`Environments`] value holds compiled-in environment tables. Resolving a
//! name merges them with those of an `environments.toml` file and with a
//! fallback for names known to neither (later wins, key by key, without merging
//! nested tables), and threads the result through an
//! [`EnvConfig`](crate::env_config::EnvConfig) struct's own assembly.
use crate::config::{config_file_path, ConfigFile};
use crate::config;
use crate::env_config::{
    ConfigSource, EnvConfig, EnvConfigError, EnvSource, EnvVarSource, SourceChain, SourceText,
};
use crate::env_config;
use crate::error::CliCoreError;
use crate::error;
use crate::fs;
use crate::ordmap::{Duplicate, StringMap, TextSet};
use crate::ordmap;
use crate::text;
use crate::toml_doc::TomlModel;
use crate::toml_doc;
use crate::toml_value::{copy_table, parse_toml, Toml, TomlView};
use crate::toml_value;
use vstd::prelude::*;
use vstd::string::*;

verus! {

/// Config-file key under which the sticky active environment is stored.
pub const ACTIVE_ENV_KEY: &'static str = "environment.active";

/// What a table says.
pub type TableText = Map<Seq<char>, TomlView>;

/// An environment's raw configuration, expressed as a TOML table.
pub struct EnvTable {
    table: StringMap<Toml>,
}

impl EnvTable {
    /// What the table says.
    pub closed spec fn entries(&self) -> TableText {
        toml_value::table_says(self.table@)
    }

    /// Creates an empty table.
    pub fn new() -> (r: Self)
        ensures
            r.entries() == Map::<Seq<char>, TomlView>::empty(),
    {
        let r = EnvTable { table: StringMap::new() };
        assert(r.entries() =~= Map::<Seq<char>, TomlView>::empty());
        r
    }

    /// Sets `key` to `value`.
    pub fn with(self, key: String, value: Toml) -> (r: Self)
        ensures
            r.entries() == self.entries().insert(key@, value@),
    {
        let mut table = self.table;
        table.insert(key, value);
        let r = EnvTable { table };
        assert(r.entries() =~= self.entries().insert(key@, value@));
        r
    }

    fn overlay(&mut self, src: &EnvTable)
        ensures
            final(self).entries() == old(self).entries().union_prefer_right(src.entries()),
    {
        self.table.extend(&src.table);
        assert(self.entries() =~= old(self).entries().union_prefer_right(src.entries()));
    }
}

impl Duplicate for EnvTable {
    open spec fn says_same(self, other: Self) -> bool {
        self.entries() == other.entries()
    }

    fn duplicate(&self) -> (r: Self) {
        EnvTable { table: copy_table(&self.table) }
    }
}

/// What each table of a map says.
pub open spec fn tables_say(m: Map<Seq<char>, EnvTable>) -> Map<Seq<char>, TableText> {
    m.map_values(|t: EnvTable| t.entries())
}

/// What reading a file gave.
pub enum FileRead {
    /// There is no such file.
    Missing,
    /// The file could not be read, for this reason.
    Failed(String),
    /// The text of the file.
    Contents(String),
}

/// The table of an environment in the flat shape of a file.
pub open spec fn flat_at(top: TableText, name: Seq<char>) -> Option<TableText> {
    if name != "environments"@ && top.dom().contains(name) {
        match top[name] {
            TomlView::Table(t) => Some(t),
            _ => None,
        }
    } else {
        None
    }
}

/// The table of environments in the nested shape of a file.
pub open spec fn nested_tables(top: TableText) -> TableText {
    if top.dom().contains("environments"@) {
        match top["environments"@] {
            TomlView::Table(t) => t,
            _ => Map::empty(),
        }
    } else {
        Map::empty()
    }
}

/// The table of an environment in the nested shape of a file.
pub open spec fn nested_at(top: TableText, name: Seq<char>) -> Option<TableText> {
    let nested = nested_tables(top);
    if nested.dom().contains(name) {
        match nested[name] {
            TomlView::Table(t) => Some(t),
            _ => None,
        }
    } else {
        None
    }
}

/// The two layers, the second on top.
pub open spec fn layered(below: Option<TableText>, above: Option<TableText>) -> Option<TableText> {
    match (below, above) {
        (Some(b), Some(a)) => Some(b.union_prefer_right(a)),
        (Some(b), None) => Some(b),
        (None, a) => a,
    }
}

/// The table of an environment in a file: the keys of the nested shape win over
/// those of the flat one.
pub open spec fn file_at(top: TableText, name: Seq<char>) -> Option<TableText> {
    layered(flat_at(top, name), nested_at(top, name))
}

/// The tables of a file by the names of their environments.
pub open spec fn file_environments(top: TableText) -> Map<Seq<char>, TableText> {
    Map::new(|name: Seq<char>| file_at(top, name) is Some, |name: Seq<char>| file_at(top, name)->0)
}

/// The tables of an environments file at `path`, or the text of the error.
pub open spec fn loaded_tables(path: Option<Seq<char>>, read: FileRead) -> Result<
    Map<Seq<char>, TableText>,
    Seq<char>,
> {
    match (path, read) {
        (None, _) => Ok(Map::empty()),
        (Some(_), FileRead::Missing) => Ok(Map::empty()),
        (Some(p), FileRead::Failed(e)) => Err(
            "reading environments file "@ + text::debug_quoted(p) + ": "@ + e@,
        ),
        (Some(p), FileRead::Contents(t)) => match toml_value::parsed_table(t@) {
            Ok(top) => Ok(file_environments(top)),
            Err(e) => Err("parsing environments file "@ + text::debug_quoted(p) + ": "@ + e),
        },
    }
}

/// The tables of the flat shape, one by one.
fn flat_tables(top: &StringMap<Toml>) -> (r: StringMap<EnvTable>)
    ensures
        forall|k: Seq<char>| #[trigger]
            r@.dom().contains(k) <==> flat_at(toml_value::table_says(top@), k) is Some,
        forall|k: Seq<char>| #[trigger]
            r@.dom().contains(k) ==> flat_at(toml_value::table_says(top@), k) == Some(
                r@[k].entries(),
            ),
{
    let ghost all = toml_value::table_says(top@);
    let n: usize = top.len();
    let ghost order = top.order();
    let mut r: StringMap<EnvTable> = StringMap::new();
    let mut i: usize = 0;
    while i < n
        invariant
            i <= n == order.len(),
            order == top.order(),
            ordmap::is_key_order(order, top@),
            all == toml_value::table_says(top@),
            forall|k: Seq<char>| #[trigger]
                r@.dom().contains(k) <==> flat_at(all, k) is Some && order.take(
                    i as int,
                ).contains(k),
            forall|k: Seq<char>| #[trigger]
                r@.dom().contains(k) ==> flat_at(all, k) == Some(r@[k].entries()),
        decreases n - i,
    {
        let key = top.key_at(i);
        let value = top.value_at(i);
        let ghost seen = order.take(i as int);
        let ghost next = order.take(i + 1);
        let ghost before = r@;
        proof {
            assert(next =~= seen.push(key@));
            assert forall|k: Seq<char>| next.contains(k) <==> (seen.contains(k) || k == key@) by {
                if seen.contains(k) {
                    let j = choose|j: int| 0 <= j < seen.len() && seen[j] == k;
                    assert(next[j] == k);
                }
                if k == key@ {
                    assert(next[i as int] == k);
                }
            }
        }
        if !text::str_eq(key.as_str(), "environments") {
            match value.as_table() {
                Some(t) => {
                    r.insert(key.clone(), EnvTable { table: copy_table(t) });
                },
                None => {},
            }
        }
        proof {
            assert(all[key@] == value@);
            assert forall|k: Seq<char>| #[trigger] r@.dom().contains(k) <==> flat_at(all, k) is Some
                && next.contains(k) by {
                assert(before.dom().contains(k) <==> flat_at(all, k) is Some && seen.contains(k));
            }
            assert forall|k: Seq<char>| #[trigger] r@.dom().contains(k) implies flat_at(all, k)
                == Some(r@[k].entries()) by {
                if k != key@ {
                    assert(before.dom().contains(k));
                }
            }
        }
        i = i + 1;
    }
    proof {
        assert(order.take(n as int) =~= order);
        assert forall|k: Seq<char>| #[trigger] r@.dom().contains(k) <==> flat_at(all, k) is Some by {
            assert(order.contains(k) <==> top@.dom().contains(k));
        }
    }
    r
}

/// Lays the tables of the nested shape over those of the flat one.
fn add_nested(tables: &mut StringMap<EnvTable>, nested: &StringMap<Toml>, Ghost(top): Ghost<TableText>)
    requires
        nested_tables(top) == toml_value::table_says(nested@),
        forall|k: Seq<char>| #[trigger]
            old(tables)@.dom().contains(k) <==> flat_at(top, k) is Some,
        forall|k: Seq<char>| #[trigger]
            old(tables)@.dom().contains(k) ==> flat_at(top, k) == Some(
                old(tables)@[k].entries(),
            ),
    ensures
        tables_say(final(tables)@) == file_environments(top),
{
    let ghost all = toml_value::table_says(nested@);
    let n: usize = nested.len();
    let ghost order = nested.order();
    let mut i: usize = 0;
    while i < n
        invariant
            i <= n == order.len(),
            order == nested.order(),
            ordmap::is_key_order(order, nested@),
            all == toml_value::table_says(nested@),
            all == nested_tables(top),
            forall|k: Seq<char>| #[trigger]
                tables@.dom().contains(k) <==> flat_at(top, k) is Some || (nested_at(top, k) is Some
                    && order.take(i as int).contains(k)),
            forall|k: Seq<char>| #[trigger]
                tables@.dom().contains(k) ==> Some(tables@[k].entries()) == (if order.take(
                    i as int,
                ).contains(k) {
                    file_at(top, k)
                } else {
                    flat_at(top, k)
                }),
        decreases n - i,
    {
        let key = nested.key_at(i);
        let value = nested.value_at(i);
        let ghost seen = order.take(i as int);
        let ghost next = order.take(i + 1);
        let ghost before = tables@;
        proof {
            assert(next =~= seen.push(key@));
            assert forall|k: Seq<char>| next.contains(k) <==> (seen.contains(k) || k == key@) by {
                if seen.contains(k) {
                    let j = choose|j: int| 0 <= j < seen.len() && seen[j] == k;
                    assert(next[j] == k);
                }
                if k == key@ {
                    assert(next[i as int] == k);
                }
            }
            if seen.contains(key@) {
                let j = choose|j: int| 0 <= j < seen.len() && seen[j] == key@;
                assert(ordmap::text_lt(order[j], order[i as int]));
                ordmap::lemma_text_lt_irreflexive(key@);
            }
            assert(all[key@] == value@);
        }
        match value.as_table() {
            Some(t) => {
                let over = EnvTable { table: copy_table(t) };
                let laid = match tables.get(key.as_str()) {
                    Some(existing) => {
                        let mut below = existing.duplicate();
                        below.overlay(&over);
                        below
                    },
                    None => over,
                };
                assert(Some(laid.entries()) == file_at(top, key@)) by {
                    assert(before.dom().contains(key@) <==> flat_at(top, key@) is Some);
                }
                tables.insert(key.clone(), laid);
            },
            None => {},
        }
        proof {
            assert forall|k: Seq<char>| #[trigger] tables@.dom().contains(k) <==> flat_at(top, k) is Some
                || (nested_at(top, k) is Some && next.contains(k)) by {
                assert(before.dom().contains(k) <==> flat_at(top, k) is Some || (nested_at(
                    top,
                    k,
                ) is Some && seen.contains(k)));
            }
            assert forall|k: Seq<char>| #[trigger] tables@.dom().contains(k) implies Some(
                tables@[k].entries(),
            ) == (if next.contains(k) {
                file_at(top, k)
            } else {
                flat_at(top, k)
            }) by {
                if k != key@ {
                    assert(before.dom().contains(k));
                } else if before.dom().contains(k) {
                }
            }
        }
        i = i + 1;
    }
    proof {
        assert(order.take(n as int) =~= order);
        assert forall|k: Seq<char>| #[trigger] tables@.dom().contains(k) <==> file_at(
            top,
            k,
        ) is Some by {
            assert(order.contains(k) <==> nested@.dom().contains(k));
        }
        assert forall|k: Seq<char>| #[trigger] tables@.dom().contains(k) implies Some(
            tables@[k].entries(),
        ) == file_at(top, k) by {
            assert(order.contains(k) <==> nested@.dom().contains(k));
        }
        assert(tables_say(tables@) =~= file_environments(top));
    }
}

/// Engine-owned environment system: compiled tables, resolution, and the active
/// environment.
pub struct Environments {
    default: String,
    compiled: StringMap<EnvTable>,
    use_config_file: bool,
    app_id: String,
    file_path_override: Option<String>,
}

/// What an environment system holds.
#[verifier::ext_equal]
pub struct EnvironmentsText {
    /// The default environment name.
    pub default_name: Seq<char>,
    /// The compiled-in tables by the names of their environments.
    pub compiled: Map<Seq<char>, TableText>,
    /// Whether the file is loaded.
    pub use_config_file: bool,
    /// The application id.
    pub app_id: Seq<char>,
    /// The path of the file, where one is forced.
    pub file_path_override: Option<Seq<char>>,
}

impl View for Environments {
    type V = EnvironmentsText;

    closed spec fn view(&self) -> EnvironmentsText {
        EnvironmentsText {
            default_name: self.default@,
            compiled: tables_say(self.compiled@),
            use_config_file: self.use_config_file,
            app_id: self.app_id@,
            file_path_override: error::opt_text(self.file_path_override),
        }
    }
}

/// The path of `environments.toml` next to the engine config file.
pub open spec fn environments_path(e: EnvironmentsText, base: Option<Seq<char>>) -> Option<
    Seq<char>,
> {
    if !e.use_config_file || !fs::is_safe_spec(e.app_id) {
        None
    } else {
        match base {
            Some(dir) => Some(
                fs::join_spec(fs::join_spec(dir, e.app_id), "environments.toml"@),
            ),
            None => None,
        }
    }
}

/// The path of the environments file: a forced one, else that next to the
/// engine config file.
pub open spec fn effective_path(e: EnvironmentsText, base: Option<Seq<char>>) -> Option<Seq<char>> {
    match e.file_path_override {
        Some(p) => Some(p),
        None => environments_path(e, base),
    }
}

/// The tables of the environments file, or the text of the error.
pub open spec fn file_layer(e: EnvironmentsText, base: Option<Seq<char>>, read: FileRead) -> Result<
    Map<Seq<char>, TableText>,
    Seq<char>,
> {
    loaded_tables(effective_path(e, base), read)
}

/// The names of both layers.
pub open spec fn known_names(
    compiled: Map<Seq<char>, TableText>,
    file: Map<Seq<char>, TableText>,
) -> Set<Seq<char>> {
    compiled.dom().union(file.dom())
}

/// `list` holds the names, each once and in increasing order.
pub open spec fn is_name_list(list: Seq<Seq<char>>, names: Set<Seq<char>>) -> bool {
    &&& ordmap::keys_sorted(list)
    &&& forall|k: Seq<char>| #[trigger] list.contains(k) <==> names.contains(k)
}

/// The text of the error for an unknown environment.
pub open spec fn unknown_environment(name: Seq<char>, known: Seq<Seq<char>>) -> Seq<char> {
    "unknown environment "@ + text::debug_quoted(name) + "; known: "@ + (if known.len() == 0 {
        "(none defined)"@
    } else {
        text::join_spec(known, ", "@)
    })
}

/// `err` says that the environment is unknown and lists the known ones.
pub open spec fn is_unknown_error(
    err: CliCoreError,
    name: Seq<char>,
    names: Set<Seq<char>>,
) -> bool {
    exists|known: Seq<Seq<char>>| #[trigger]
        is_name_list(known, names) && error::is_message(err, unknown_environment(name, known))
}

/// The table of an environment in a layer.
pub open spec fn table_of(m: Map<Seq<char>, TableText>, name: Seq<char>) -> Option<TableText> {
    if m.dom().contains(name) {
        Some(m[name])
    } else {
        None
    }
}

/// The merged table of an environment: the compiled-in one, or the fallback for
/// a name that neither layer knows, with the file's on top.
pub open spec fn merged_table(
    compiled: Map<Seq<char>, TableText>,
    file: Map<Seq<char>, TableText>,
    fallback: Option<TableText>,
    name: Seq<char>,
) -> Option<TableText> {
    match layered(table_of(compiled, name), table_of(file, name)) {
        Some(t) => Some(t),
        None => fallback,
    }
}

/// What an optional table says.
pub open spec fn opt_entries(t: Option<EnvTable>) -> Option<TableText> {
    match t {
        Some(t) => Some(t.entries()),
        None => None,
    }
}

/// `r` is the merged source of an environment, or the error.
pub open spec fn is_source(
    r: Result<EnvSource, CliCoreError>,
    e: EnvironmentsText,
    name: Seq<char>,
    base: Option<Seq<char>>,
    read: FileRead,
    fallback: Option<TableText>,
) -> bool {
    match file_layer(e, base, read) {
        Err(message) => r matches Err(err) && error::is_message(err, message),
        Ok(file) => match merged_table(e.compiled, file, fallback, name) {
            Some(t) => r matches Ok(source) && source.name_text() == name && source.entries() == t,
            None => r matches Err(err) && is_unknown_error(
                err,
                name,
                known_names(e.compiled, file),
            ),
        },
    }
}

/// The text of a config file's value, as far as it is a value.
pub open spec fn is_stored(entries: Map<Seq<char>, TomlModel>, key: Seq<char>, r: Option<Seq<char>>) -> bool {
    match config::item_at(TomlModel::Table(entries), config::key_parts(key)) {
        None => r is None,
        Some(item) => r is Some && config::is_text_of(r->0, item),
    }
}

/// The chain of sources for an environment: the variables with the upper-case
/// application id, where there is one, and then the environment.
pub open spec fn resolution_chain(
    app_id: Seq<char>,
    vars: Map<Seq<char>, Seq<char>>,
    name: Seq<char>,
    table: TableText,
) -> Seq<SourceText> {
    let source = SourceText { name: Some(name), table, vars: None };
    if app_id.len() == 0 {
        seq![source]
    } else {
        seq![
            SourceText {
                name: None,
                table: Map::empty(),
                vars: Some((text::uppercase(app_id), vars)),
            },
            source,
        ]
    }
}

/// `r` is the chain of sources for an environment, or the error.
pub open spec fn is_chain(
    r: Result<SourceChain, CliCoreError>,
    e: EnvironmentsText,
    name: Seq<char>,
    base: Option<Seq<char>>,
    read: FileRead,
    fallback: Option<TableText>,
    vars: Map<Seq<char>, Seq<char>>,
) -> bool {
    match found_table(e, name, base, read, fallback) {
        Some(t) => r matches Ok(chain) && chain@ == resolution_chain(e.app_id, vars, name, t),
        None => r matches Err(err) && is_source(Err(err), e, name, base, read, fallback),
    }
}

/// The merged table of an environment, where the file can be read and one of the
/// layers or the fallback knows the name.
pub open spec fn found_table(
    e: EnvironmentsText,
    name: Seq<char>,
    base: Option<Seq<char>>,
    read: FileRead,
    fallback: Option<TableText>,
) -> Option<TableText> {
    match file_layer(e, base, read) {
        Ok(file) => merged_table(e.compiled, file, fallback, name),
        Err(_) => None,
    }
}

impl Environments {
    /// Creates an environment system with the given default environment name.
    pub fn new(default_env: String) -> (r: Self)
        ensures
            r@ == (EnvironmentsText {
                default_name: default_env@,
                compiled: Map::empty(),
                use_config_file: false,
                app_id: Seq::empty(),
                file_path_override: None,
            }),
    {
        let r = Environments {
            default: default_env,
            compiled: StringMap::new(),
            use_config_file: false,
            app_id: String::new(),
            file_path_override: None,
        };
        assert(r@.compiled =~= Map::<Seq<char>, TableText>::empty());
        assert(r@.app_id =~= Seq::empty());
        r
    }

    /// Registers a compiled-in environment's table, merging onto whatever is
    /// already registered for `name` (later call wins, key by key).
    pub fn with_environment(self, name: String, table: EnvTable) -> (r: Self)
        ensures
            r@ == registered(self@, name@, table.entries()),
    {
        let laid = match self.compiled.get(name.as_str()) {
            Some(existing) => {
                let mut below = existing.duplicate();
                below.overlay(&table);
                below
            },
            None => table,
        };
        let ghost before = self.compiled@;
        let mut compiled = self.compiled;
        compiled.insert(name, laid);
        let r = Environments {
            default: self.default,
            compiled,
            use_config_file: self.use_config_file,
            app_id: self.app_id,
            file_path_override: self.file_path_override,
        };
        assert(r@.compiled =~= tables_say(before).insert(name@, laid.entries()));
        r
    }

    /// Enables loading `<config-dir>/<app_id>/environments.toml` during
    /// resolution.
    pub fn with_config_file(self, enabled: bool) -> (r: Self)
        ensures
            r@ == (EnvironmentsText { use_config_file: enabled, ..self@ }),
    {
        let mut r = self;
        r.use_config_file = enabled;
        r
    }

    /// Sets the application id used to locate the config file and as the prefix
    /// for the app-scoped environment-variable override tier.
    pub fn with_app_id(self, app_id: String) -> (r: Self)
        ensures
            r@ == (EnvironmentsText { app_id: app_id@, ..self@ }),
    {
        let mut r = self;
        r.app_id = app_id;
        r
    }

    /// Forces the environments file path.
    pub fn with_config_file_path_override(self, path: String) -> (r: Self)
        ensures
            r@ == (EnvironmentsText {
                file_path_override: Some(path@),
                use_config_file: true,
                ..self@
            }),
    {
        let mut r = self;
        r.file_path_override = Some(path);
        r.use_config_file = true;
        r
    }

    /// The default environment name.
    pub fn default_env(&self) -> (r: &str)
        ensures
            r@ == self@.default_name,
    {
        self.default.as_str()
    }

    /// The application id, empty if never set.
    pub fn app_id(&self) -> (r: &str)
        ensures
            r@ == self@.app_id,
    {
        self.app_id.as_str()
    }

    /// Path to `environments.toml` next to the engine config file, or `None`
    /// when the file layer is disabled or the config dir cannot be determined.
    pub fn config_file_path(&self, base: Option<&str>) -> (r: Option<String>)
        ensures
            error::opt_text(r) == environments_path(self@, fs::str_text(base)),
    {
        if !self.use_config_file || !fs::is_safe_path_component(self.app_id.as_str()) {
            return None;
        }
        match base {
            Some(dir) => {
                let folder = fs::join_path(dir, self.app_id.as_str());
                Some(fs::join_path(folder.as_str(), "environments.toml"))
            },
            None => None,
        }
    }

    /// Path of the file to read: a forced one, else that next to the engine
    /// config file.
    pub fn effective_file_path(&self, base: Option<&str>) -> (r: Option<String>)
        ensures
            error::opt_text(r) == effective_path(self@, fs::str_text(base)),
    {
        match &self.file_path_override {
            Some(p) => Some(p.clone()),
            None => self.config_file_path(base),
        }
    }

    /// Parses the environments file into a map from names to tables. Without a
    /// file the map is empty.
    ///
    /// A nested top-level `[environments.prod]` table is accepted beside the
    /// flat `[prod]` shape. When a name appears under both, the nested entry's
    /// keys win, per key.
    pub fn file_tables(&self, base: Option<&str>, read: &FileRead) -> (r: Result<
        StringMap<EnvTable>,
        CliCoreError,
    >)
        ensures
            match file_layer(self@, fs::str_text(base), *read) {
                Ok(m) => r matches Ok(tables) && tables_say(tables@) == m,
                Err(message) => r matches Err(e) && error::is_message(e, message),
            },
    {
        broadcast use toml_value::lemma_says;

        let none: StringMap<EnvTable> = StringMap::new();
        assert(tables_say(none@) =~= Map::<Seq<char>, TableText>::empty());
        let path = match self.effective_file_path(base) {
            Some(p) => p,
            None => {
                return Ok(none);
            },
        };
        let contents = match read {
            FileRead::Missing => {
                return Ok(none);
            },
            FileRead::Failed(e) => {
                let mut m = "reading environments file ".to_owned();
                m.append(text::debug_text(path.as_str()).as_str());
                m.append(": ");
                m.append(e.as_str());
                return Err(CliCoreError::message(m));
            },
            FileRead::Contents(t) => t,
        };
        let top = match parse_toml(contents.as_str()) {
            Ok(top) => top,
            Err(e) => {
                let mut m = "parsing environments file ".to_owned();
                m.append(text::debug_text(path.as_str()).as_str());
                m.append(": ");
                m.append(e.as_str());
                return Err(CliCoreError::message(m));
            },
        };
        let ghost all = toml_value::table_says(top@);
        let mut tables = flat_tables(&top);
        let nested = match top.get("environments") {
            Some(v) => v.as_table(),
            None => None,
        };
        match nested {
            Some(n) => {
                add_nested(&mut tables, n, Ghost(all));
            },
            None => {
                let empty: StringMap<Toml> = StringMap::new();
                assert(nested_tables(all) =~= toml_value::table_says(empty@));
                add_nested(&mut tables, &empty, Ghost(all));
            },
        }
        Ok(tables)
    }

    fn names(&self, file: &StringMap<EnvTable>) -> (r: Vec<String>)
        ensures
            is_name_list(
                text::texts(r@),
                known_names(self@.compiled, tables_say(file@)),
            ),
    {
        let mut names = TextSet::new();
        add_keys(&mut names, &self.compiled);
        add_keys(&mut names, file);
        let list = names.to_list();
        proof {
            assert(names@ =~= known_names(self@.compiled, tables_say(file@)));
        }
        list
    }

    /// Enumerable environment names (compiled-in and file-defined), sorted. A
    /// file that cannot be read or parsed counts as none.
    pub fn list(&self, base: Option<&str>, read: &FileRead) -> (r: Vec<String>)
        ensures
            is_name_list(
                text::texts(r@),
                known_names(
                    self@.compiled,
                    (match file_layer(self@, fs::str_text(base), *read) {
                        Ok(m) => m,
                        Err(_) => Map::empty(),
                    }),
                ),
            ),
    {
        match self.file_tables(base, read) {
            Ok(file) => self.names(&file),
            Err(_) => {
                let none: StringMap<EnvTable> = StringMap::new();
                assert(tables_say(none@) =~= Map::<Seq<char>, TableText>::empty());
                self.names(&none)
            },
        }
    }

    /// Whether a fallback is consulted for the name: only where neither layer
    /// knows it.
    pub fn wants_fallback(&self, name: &str, base: Option<&str>, read: &FileRead) -> (r: bool)
        ensures
            r == asks_fallback(self@, name@, fs::str_text(base), *read),
    {
        match self.file_tables(base, read) {
            Ok(file) => !self.compiled.contains_key(name) && !file.contains_key(name),
            Err(_) => false,
        }
    }

    /// Builds the merged source for `name`: the compiled-in table overlaid by
    /// the file table for the same name (file wins key by key), or the fallback
    /// when `name` is unknown to both.
    pub fn source(
        &self,
        name: &str,
        base: Option<&str>,
        read: &FileRead,
        fallback: &Option<EnvTable>,
    ) -> (r: Result<EnvSource, CliCoreError>)
        ensures
            is_source(r, self@, name@, fs::str_text(base), *read, opt_entries(*fallback)),
    {
        let file = match self.file_tables(base, read) {
            Ok(file) => file,
            Err(e) => {
                return Err(e);
            },
        };
        let known = match (self.compiled.get(name), file.get(name)) {
            (Some(c), Some(f)) => {
                let mut t = c.duplicate();
                t.overlay(f);
                Some(t)
            },
            (Some(c), None) => Some(c.duplicate()),
            (None, Some(f)) => Some(f.duplicate()),
            (None, None) => match fallback {
                Some(t) => Some(t.duplicate()),
                None => None,
            },
        };
        assert(opt_entries(known) == merged_table(
            self@.compiled,
            tables_say(file@),
            opt_entries(*fallback),
            name@,
        ));
        match known {
            Some(t) => Ok(EnvSource::new(name.to_owned(), t.table)),
            None => {
                let names = self.names(&file);
                let mut m = "unknown environment ".to_owned();
                m.append(text::debug_text(name).as_str());
                m.append("; known: ");
                assert(text::texts(names@).len() == names@.len());
                if names.len() == 0 {
                    m.append("(none defined)");
                } else {
                    m.append(text::join(&names, ", ").as_str());
                }
                let e = CliCoreError::message(m);
                assert(is_unknown_error(
                    e,
                    name@,
                    known_names(self@.compiled, tables_say(file@)),
                ));
                Err(e)
            },
        }
    }

    /// The chain of sources for `name`: the app-scoped environment variables and
    /// `name`'s merged source.
    pub fn chain(
        &self,
        name: &str,
        base: Option<&str>,
        read: &FileRead,
        fallback: &Option<EnvTable>,
        vars: StringMap<String>,
    ) -> (r: Result<SourceChain, CliCoreError>)
        ensures
            is_chain(
                r,
                self@,
                name@,
                fs::str_text(base),
                *read,
                opt_entries(*fallback),
                env_config::var_texts(vars@),
            ),
    {
        match self.source(name, base, read, fallback) {
            Err(e) => Err(e),
            Ok(source) => {
                let ghost chain_text = resolution_chain(
                    self@.app_id,
                    env_config::var_texts(vars@),
                    name@,
                    source.entries(),
                );
                let chain = SourceChain::new();
                if self.app_id.as_str().is_empty() {
                    let chain = chain.push(ConfigSource::Env(source));
                    assert(chain@ =~= chain_text);
                    Ok(chain)
                } else {
                    let prefix = text::to_uppercase(self.app_id.as_str());
                    let chain = chain.push(ConfigSource::Vars(EnvVarSource { prefix, vars }));
                    let chain = chain.push(ConfigSource::Env(source));
                    assert(chain@ =~= chain_text);
                    Ok(chain)
                }
            },
        }
    }

    /// Resolves `name` into a typed [`EnvConfig`] section, from the app-scoped
    /// environment variables and `name`'s merged source.
    pub fn resolve<T: EnvConfig>(
        &self,
        name: &str,
        base: Option<&str>,
        read: &FileRead,
        fallback: &Option<EnvTable>,
        vars: StringMap<String>,
    ) -> (r: Result<T, EnvConfigError>)
        ensures
            match found_table(
                self@,
                name@,
                fs::str_text(base),
                *read,
                opt_entries(*fallback),
            ) {
                Some(t) => env_config::is_assembled(
                    resolution_chain(self@.app_id, env_config::var_texts(vars@), name@, t),
                    r,
                ),
                None => r matches Err(EnvConfigError::Environment(err)) && is_source(
                    Err(*err),
                    self@,
                    name@,
                    fs::str_text(base),
                    *read,
                    opt_entries(*fallback),
                ),
            },
    {
        match self.chain(name, base, read, fallback, vars) {
            Err(e) => Err(EnvConfigError::Environment(Box::new(e))),
            Ok(chain) => {
                let r = T::assemble(&chain);
                assert(call_ensures(T::assemble, (&chain,), r));
                r
            },
        }
    }

    /// Reads the persisted active environment from a loaded config file.
    pub fn active_from_config(config: &ConfigFile) -> (r: Option<String>)
        requires
            config.has_text(ACTIVE_ENV_KEY@),
        ensures
            is_stored(config.entries(), ACTIVE_ENV_KEY@, error::opt_text(r)),
    {
        config.get(ACTIVE_ENV_KEY)
    }

    /// Resolves the active environment name with precedence: explicit `--env`
    /// override, then persisted active, then configured default.
    pub fn effective_active(&self, flag: Option<&str>, config: &ConfigFile) -> (r: String)
        requires
            flag is Some || config.has_text(ACTIVE_ENV_KEY@),
        ensures
            is_effective(self@, fs::str_text(flag), config.entries(), r@),
    {
        match flag {
            Some(f) => f.to_owned(),
            None => match Self::active_from_config(config) {
                Some(a) => a,
                None => self.default.clone(),
            },
        }
    }

    /// The environment of a run: the flag's, which has to be known, else the
    /// current one.
    pub fn selected(
        &self,
        flag: Option<&str>,
        current: &str,
        base: Option<&str>,
        read: &FileRead,
        fallback: &Option<EnvTable>,
    ) -> (r: Result<String, CliCoreError>)
        ensures
            is_selected(
                r,
                self@,
                fs::str_text(flag),
                current@,
                fs::str_text(base),
                *read,
                opt_entries(*fallback),
            ),
    {
        match flag {
            None => Ok(current.to_owned()),
            Some(f) => match self.source(f, base, read, fallback) {
                Ok(_) => Ok(f.to_owned()),
                Err(e) => Err(e),
            },
        }
    }

    /// The config file with `name` as the active environment, to be saved.
    ///
    /// The name has to resolve first, and the application id has to be usable.
    pub fn persist_active(
        &self,
        name: &str,
        base: Option<&str>,
        read: &FileRead,
        fallback: &Option<EnvTable>,
        stored: ConfigFile,
    ) -> (r: Result<ConfigFile, CliCoreError>)
        ensures
            is_persisted(
                r,
                self@,
                name@,
                fs::str_text(base),
                *read,
                opt_entries(*fallback),
                stored,
            ),
            stored.is_regular() ==> (r matches Ok(c) ==> c.is_regular()),
            stored.wf() ==> (r matches Ok(c) ==> c.wf() && c.is_writable() == (
            stored.is_writable() && !toml_doc::has_quote_run(name@))),
    {
        match self.source(name, base, read, fallback) {
            Err(e) => {
                return Err(e);
            },
            Ok(_) => {},
        }
        if config_file_path(self.app_id.as_str(), base).is_none() {
            let mut m = "cannot persist active environment ".to_owned();
            m.append(text::debug_text(name).as_str());
            m.append(
                ": the environment system has no usable app_id; set one via Environments::with_app_id (matching the CliConfig app_id)",
            );
            return Err(CliCoreError::message(m));
        }
        let mut config = stored;
        proof {
            reveal_strlit("environment.active");
            let table = ACTIVE_ENV_KEY@.take(11);
            let leaf = ACTIVE_ENV_KEY@.skip(12);
            assert(ACTIVE_ENV_KEY@ =~= table.push('.') + leaf);
            text::lemma_split_whole(table, '.');
            text::lemma_split_add(table, '.', leaf);
            assert(config::key_parts(ACTIVE_ENV_KEY@).drop_last().skip(1).len() == 0);
            reveal_with_fuel(config::leaves_dotted, 2);
        }
        match config.set(ACTIVE_ENV_KEY, name) {
            Ok(()) => Ok(config),
            Err(e) => Err(e),
        }
    }
}

/// The text of the error for an environment system without a usable
/// application id.
pub open spec fn no_app_id_text(name: Seq<char>) -> Seq<char> {
    "cannot persist active environment "@ + text::debug_quoted(name)
        + ": the environment system has no usable app_id; set one via Environments::with_app_id (matching the CliConfig app_id)"@
}

/// `r` is the config file with the value stored under the key, or the error.
pub open spec fn is_set(
    r: Result<ConfigFile, CliCoreError>,
    stored: ConfigFile,
    key: Seq<char>,
    value: Seq<char>,
) -> bool {
    match config::set_error(stored.entries(), key, value) {
        Some(message) => r matches Err(e) && error::is_message(e, message),
        None => r matches Ok(c) && c.path_text() == stored.path_text() && config::put(
            stored.entries(),
            config::key_parts(key).drop_last(),
            config::key_parts(key).last(),
            config::inferred(value),
        ) == Some(c.entries()),
    }
}

/// `name` is the active environment where no flag selects one: the persisted
/// one, else the default.
pub open spec fn is_active(
    e: EnvironmentsText,
    entries: Map<Seq<char>, TomlModel>,
    name: Seq<char>,
) -> bool {
    match config::item_at(TomlModel::Table(entries), config::key_parts(ACTIVE_ENV_KEY@)) {
        None => name == e.default_name,
        Some(item) => config::is_text_of(name, item),
    }
}

fn add_keys(names: &mut TextSet, tables: &StringMap<EnvTable>)
    ensures
        final(names)@ == old(names)@.union(tables@.dom()),
{
    let keys = tables.keys();
    let ghost all = text::texts(keys@);
    let mut i: usize = 0;
    while i < keys.len()
        invariant
            i <= keys@.len(),
            all == text::texts(keys@),
            forall|k: Seq<char>| #[trigger]
                names@.contains(k) <==> old(names)@.contains(k) || all.take(i as int).contains(k),
        decreases keys@.len() - i,
    {
        let ghost before = names@;
        let ghost seen = all.take(i as int);
        let ghost next = all.take(i + 1);
        names.insert(keys[i].clone());
        proof {
            assert(next =~= seen.push(all[i as int]));
            assert forall|k: Seq<char>| #[trigger] names@.contains(k) <==> old(names)@.contains(k)
                || next.contains(k) by {
                assert(before.contains(k) <==> old(names)@.contains(k) || seen.contains(k));
                if seen.contains(k) {
                    let j = choose|j: int| 0 <= j < seen.len() && seen[j] == k;
                    assert(next[j] == k);
                }
                if k == all[i as int] {
                    assert(next[i as int] == k);
                }
                if next.contains(k) && k != all[i as int] {
                    let j = choose|j: int| 0 <= j < next.len() && next[j] == k;
                    assert(seen[j] == k);
                }
            }
        }
        i = i + 1;
    }
    proof {
        assert(all.take(keys@.len() as int) =~= all);
        assert forall|k: Seq<char>| #[trigger] names@.contains(k) <==> old(names)@.union(
            tables@.dom(),
        ).contains(k) by {
            assert(all.contains(k) <==> tables@.dom().contains(k));
        }
        assert(names@ =~= old(names)@.union(tables@.dom()));
    }
}

/// `name` is the environment in effect: the one that a flag names, else the
/// active one.
pub open spec fn is_effective(
    e: EnvironmentsText,
    flag: Option<Seq<char>>,
    entries: Map<Seq<char>, TomlModel>,
    name: Seq<char>,
) -> bool {
    match flag {
        Some(f) => name == f,
        None => is_active(e, entries, name),
    }
}

/// `r` is the environment of a run: the flag's, which has to be known, else the
/// current one.
pub open spec fn is_selected(
    r: Result<String, CliCoreError>,
    e: EnvironmentsText,
    flag: Option<Seq<char>>,
    current: Seq<char>,
    base: Option<Seq<char>>,
    read: FileRead,
    fallback: Option<TableText>,
) -> bool {
    match flag {
        None => r matches Ok(name) && name@ == current,
        Some(f) => if found_table(e, f, base, read, fallback) is Some {
            r matches Ok(name) && name@ == f
        } else {
            r matches Err(err) && is_source(Err(err), e, f, base, read, fallback)
        },
    }
}

/// `r` is the config file with `name` as the active environment, or the error.
pub open spec fn is_persisted(
    r: Result<ConfigFile, CliCoreError>,
    e: EnvironmentsText,
    name: Seq<char>,
    base: Option<Seq<char>>,
    read: FileRead,
    fallback: Option<TableText>,
    stored: ConfigFile,
) -> bool {
    if found_table(e, name, base, read, fallback) is None {
        r matches Err(err) && is_source(Err(err), e, name, base, read, fallback)
    } else if config::config_path_spec(e.app_id, base) is None {
        r matches Err(err) && error::is_message(err, no_app_id_text(name))
    } else {
        is_set(r, stored, ACTIVE_ENV_KEY@, name)
    }
}

/// The environment system with one more table for an environment, on top of what
/// it has for that.
pub open spec fn registered(
    e: EnvironmentsText,
    name: Seq<char>,
    table: TableText,
) -> EnvironmentsText {
    EnvironmentsText {
        compiled: e.compiled.insert(
            name,
            layered(table_of(e.compiled, name), Some(table))->0,
        ),
        ..e
    }
}

/// A fallback is consulted for the name: the file can be read, and neither layer
/// knows the name.
pub open spec fn asks_fallback(
    e: EnvironmentsText,
    name: Seq<char>,
    base: Option<Seq<char>>,
    read: FileRead,
) -> bool {
    file_layer(e, base, read) matches Ok(file) && !e.compiled.dom().contains(name)
        && !file.dom().contains(name)
}

/// A name that one of the layers knows never gets a value from the fallback.
pub proof fn law_fallback_never_shadows(
    compiled: Map<Seq<char>, TableText>,
    file: Map<Seq<char>, TableText>,
    fallback: Option<TableText>,
    name: Seq<char>,
)
    requires
        known_names(compiled, file).contains(name),
    ensures
        merged_table(compiled, file, fallback, name) == merged_table(compiled, file, None, name),
{
}

/// The file wins over the compiled-in table key by key, and every other key of
/// the compiled-in table stays.
pub proof fn law_file_overrides_key_by_key(
    compiled: Map<Seq<char>, TableText>,
    file: Map<Seq<char>, TableText>,
    fallback: Option<TableText>,
    name: Seq<char>,
    key: Seq<char>,
)
    requires
        compiled.dom().contains(name),
        file.dom().contains(name),
    ensures
        ({
            let merged = merged_table(compiled, file, fallback, name)->0;
            &&& merged.dom().contains(key) <==> compiled[name].dom().contains(key)
                || file[name].dom().contains(key)
            &&& file[name].dom().contains(key) ==> merged[key] == file[name][key]
            &&& !file[name].dom().contains(key) && compiled[name].dom().contains(key)
                ==> merged[key] == compiled[name][key]
        }),
{
}

/// Registering the same environment twice keeps the keys of both, the later
/// winning.
pub proof fn law_registrations_merge(first: TableText, second: TableText, key: Seq<char>)
    ensures
        ({
            let both = layered(Some(first), Some(second))->0;
            &&& second.dom().contains(key) ==> both.dom().contains(key) && both[key] == second[key]
            &&& first.dom().contains(key) && !second.dom().contains(key) ==> both.dom().contains(
                key,
            ) && both[key] == first[key]
        }),
{
}

/// The environment that was persisted is the active one where no flag selects
/// another, in the notation in which the config file stores it.
pub proof fn law_persisted_environment_is_active(
    e: EnvironmentsText,
    stored: ConfigFile,
    changed: ConfigFile,
    name: Seq<char>,
    active: Seq<char>,
)
    requires
        is_set(Ok(changed), stored, ACTIVE_ENV_KEY@, name),
        is_active(e, changed.entries(), active),
    ensures
        active == config::inferred_text(name),
{
    config::law_get_after_set(stored.entries(), ACTIVE_ENV_KEY@, name);
}

/// The environment that was persisted is the active one once the config file was
/// saved and loaded, where no flag selects another.
pub proof fn law_saved_environment_is_active(
    e: EnvironmentsText,
    stored: ConfigFile,
    changed: ConfigFile,
    contents: Seq<char>,
    name: Seq<char>,
    active: Seq<char>,
)
    requires
        is_set(Ok(changed), stored, ACTIVE_ENV_KEY@, name),
        toml_doc::parsed_entries(contents) == Some(changed.entries()),
        is_active(e, toml_doc::parsed_entries(contents)->0, active),
    ensures
        active == config::inferred_text(name),
{
    law_persisted_environment_is_active(e, stored, changed, name, active);
}

/// A flag decides the environment whatever is persisted; without one the
/// persisted one counts, and the default only where none is.
pub proof fn law_flag_selects_the_environment(
    e: EnvironmentsText,
    flag: Seq<char>,
    entries: Map<Seq<char>, TomlModel>,
    name: Seq<char>,
)
    ensures
        is_effective(e, Some(flag), entries, name) <==> name == flag,
        config::item_at(TomlModel::Table(entries), config::key_parts(ACTIVE_ENV_KEY@)) is None ==> (
        is_effective(e, None, entries, name) <==> name == e.default_name),
        config::item_at(
            TomlModel::Table(entries),
            config::key_parts(ACTIVE_ENV_KEY@),
        ) matches Some(TomlModel::Text(stored)) ==> (is_effective(e, None, entries, name) <==> name
            == stored),
{
}

/// An environment that a flag names is taken only where it is known, and an
/// unknown one is refused.
pub proof fn law_unknown_environment_is_refused(
    r: Result<String, CliCoreError>,
    e: EnvironmentsText,
    flag: Seq<char>,
    current: Seq<char>,
    base: Option<Seq<char>>,
    read: FileRead,
    fallback: Option<TableText>,
)
    requires
        is_selected(r, e, Some(flag), current, base, read, fallback),
    ensures
        r matches Ok(name) ==> name@ == flag,
        e.compiled.dom().contains(flag) && file_layer(e, base, read) is Ok ==> r is Ok,
        file_layer(e, base, read) matches Ok(file) ==> (!e.compiled.dom().contains(flag)
            && !file.dom().contains(flag) && fallback is None ==> r is Err),
{
}

/// Without a flag a run has the current environment.
pub proof fn law_current_environment_stays(
    r: Result<String, CliCoreError>,
    e: EnvironmentsText,
    current: Seq<char>,
    base: Option<Seq<char>>,
    read: FileRead,
    fallback: Option<TableText>,
)
    requires
        is_selected(r, e, None, current, base, read, fallback),
    ensures
        r matches Ok(name) && name@ == current,
{
}

/// In a file the nested form of an environment wins over the flat one key by
/// key, each alone is an environment, and the table of the nested ones is none
/// itself.
pub proof fn law_nested_form_wins(
    top: TableText,
    name: Seq<char>,
    flat: TableText,
    nested: TableText,
    key: Seq<char>,
)
    requires
        name != "environments"@,
    ensures
        flat_at(top, name) == Some(flat) && nested_at(top, name) == Some(nested) ==> (file_at(
            top,
            name,
        ) matches Some(t) && {
            &&& t.dom().contains(key) <==> flat.dom().contains(key) || nested.dom().contains(key)
            &&& nested.dom().contains(key) ==> t[key] == nested[key]
            &&& flat.dom().contains(key) && !nested.dom().contains(key) ==> t[key] == flat[key]
        }),
        flat_at(top, name) == Some(flat) && nested_at(top, name) is None ==> file_at(top, name)
            == Some(flat),
        flat_at(top, name) is None && nested_at(top, name) == Some(nested) ==> file_at(top, name)
            == Some(nested),
        flat_at(top, name) is None && nested_at(top, name) is None ==> file_at(top, name) is None,
        top.dom().contains(name) && top[name] == TomlView::Table(flat) ==> flat_at(top, name)
            == Some(flat),
        flat_at(top, "environments"@) is None,
        top.dom().contains("environments"@) && top["environments"@] == TomlView::Table(flat)
            && flat.dom().contains(name) && flat[name] == TomlView::Table(nested) ==> nested_at(
            top,
            name,
        ) == Some(nested),
{
}

/// A missing file has no environments, and one that cannot be read or parsed is
/// an error.
pub proof fn law_file_is_read(path: Seq<char>, t: String, top: TableText, name: Seq<char>)
    ensures
        loaded_tables(Some(path), FileRead::Missing) == Ok::<Map<Seq<char>, TableText>, Seq<char>>(
            Map::empty(),
        ),
        loaded_tables(Some(path), FileRead::Failed(t)) is Err,
        toml_value::parsed_table(t@) is Err ==> loaded_tables(Some(path), FileRead::Contents(t))
            is Err,
        toml_value::parsed_table(t@) == Ok::<TableText, Seq<char>>(top) ==> (loaded_tables(
            Some(path),
            FileRead::Contents(t),
        ) matches Ok(m) && (m.dom().contains(name) <==> file_at(top, name) is Some) && (
        m.dom().contains(name) ==> file_at(top, name) == Some(m[name]))),
{
}

/// The environments file stands next to the config file of the application; a
/// forced path comes first, and without the file layer there is none.
pub proof fn law_environments_file_is_next_to_the_config(
    e: EnvironmentsText,
    base: Option<Seq<char>>,
    folder: Seq<char>,
)
    ensures
        e.file_path_override matches Some(p) ==> effective_path(e, base) == Some(p),
        e.file_path_override is None && !e.use_config_file ==> effective_path(e, base) is None,
        e.file_path_override is None && e.use_config_file && config::config_path_spec(
            e.app_id,
            base,
        ) == Some(folder + "config.toml"@) ==> effective_path(e, base) == Some(
            folder + "environments.toml"@,
        ),
        e.use_config_file && config::config_path_spec(e.app_id, base) is None ==> environments_path(
            e,
            base,
        ) is None,
{
    if e.use_config_file && config::config_path_spec(e.app_id, base) is Some {
        let dir = fs::join_spec(base->0, e.app_id);
        let lead = fs::join_spec(dir, Seq::empty());
        assert(fs::join_spec(dir, "config.toml"@) =~= lead + "config.toml"@);
        assert(fs::join_spec(dir, "environments.toml"@) =~= lead + "environments.toml"@);
        if config::config_path_spec(e.app_id, base) == Some(folder + "config.toml"@) {
            let n = (folder + "config.toml"@).len() - "config.toml"@.len();
            assert((folder + "config.toml"@).take(n as int) =~= folder);
            assert((lead + "config.toml"@).take(n as int) =~= lead);
        }
    }
}

/// A variable of the application wins over the table of an environment, and
/// where there is none, or a blank one, the table answers.
pub proof fn law_variables_come_before_the_table(
    app_id: Seq<char>,
    vars: Map<Seq<char>, Seq<char>>,
    name: Seq<char>,
    table: TableText,
    key: Seq<char>,
    suffix: Seq<char>,
)
    requires
        app_id.len() > 0,
    ensures
        ({
            let chain = resolution_chain(app_id, vars, name, table);
            let var = text::uppercase(app_id) + "_"@ + suffix;
            let answer = env_config::answer_from(chain, 0, key, Some(suffix), false);
            &&& vars.dom().contains(var) && !env_config::is_blank(vars[var]) ==> answer
                == env_config::AnswerText::Var(vars[var])
            &&& !vars.dom().contains(var) || env_config::is_blank(vars[var]) ==> {
                &&& table.dom().contains(key) && !env_config::is_blank_value(table[key])
                    ==> answer == env_config::AnswerText::Value(table[key])
                &&& !table.dom().contains(key) ==> answer is Absent
            }
            &&& env_config::first_name(chain, 0) == Some(name)
            &&& env_config::first_toml(chain, 0, key) == (if table.dom().contains(key) {
                Some(table[key])
            } else {
                None
            })
        }),
{
    reveal_with_fuel(env_config::answer_from, 3);
    reveal_with_fuel(env_config::first_name, 3);
    reveal_with_fuel(env_config::first_toml, 3);
    let chain = resolution_chain(app_id, vars, name, table);
    assert(chain.len() == 2);
}

/// A resolved environment is the one that was asked for, with the table that the
/// layers merge to.
pub proof fn law_source_is_the_environment(
    r: Result<EnvSource, CliCoreError>,
    e: EnvironmentsText,
    name: Seq<char>,
    base: Option<Seq<char>>,
    read: FileRead,
    fallback: Option<TableText>,
    file: Map<Seq<char>, TableText>,
)
    requires
        is_source(r, e, name, base, read, fallback),
        file_layer(e, base, read) == Ok::<Map<Seq<char>, TableText>, Seq<char>>(file),
    ensures
        r matches Ok(source) ==> source.name_text() == name,
        e.compiled.dom().contains(name) && !file.dom().contains(name) ==> (r matches Ok(source)
            && source.entries() == e.compiled[name]),
        !e.compiled.dom().contains(name) && file.dom().contains(name) ==> (r matches Ok(source)
            && source.entries() == file[name]),
        !known_names(e.compiled, file).contains(name) ==> (fallback matches Some(t) ==> (r matches Ok(
            source,
        ) && source.entries() == t)),
        !known_names(e.compiled, file).contains(name) && fallback is None ==> r is Err,
{
}

/// The chain of sources of an environment answers with its own table, behind the
/// variables of the application.
pub proof fn law_chain_is_of_the_environment(
    r: Result<SourceChain, CliCoreError>,
    e: EnvironmentsText,
    name: Seq<char>,
    base: Option<Seq<char>>,
    read: FileRead,
    fallback: Option<TableText>,
    vars: Map<Seq<char>, Seq<char>>,
    table: TableText,
)
    requires
        is_chain(r, e, name, base, read, fallback, vars),
    ensures
        found_table(e, name, base, read, fallback) == Some(table) ==> (r matches Ok(chain)
            && chain@.last() == (SourceText { name: Some(name), table, vars: None })
            && env_config::first_name(chain@, 0) == Some(name)),
        found_table(e, name, base, read, fallback) is None ==> r is Err,
{
    reveal_with_fuel(env_config::first_name, 3);
}

/// An environment is persisted only where it is known and the application has a
/// config file; nothing else of the file's place changes.
pub proof fn law_only_known_environments_are_persisted(
    r: Result<ConfigFile, CliCoreError>,
    e: EnvironmentsText,
    name: Seq<char>,
    base: Option<Seq<char>>,
    read: FileRead,
    fallback: Option<TableText>,
    stored: ConfigFile,
)
    requires
        is_persisted(r, e, name, base, read, fallback, stored),
    ensures
        r is Ok ==> found_table(e, name, base, read, fallback) is Some && config::config_path_spec(
            e.app_id,
            base,
        ) is Some,
        r matches Ok(changed) ==> is_set(Ok(changed), stored, ACTIVE_ENV_KEY@, name)
            && changed.path_text() == stored.path_text(),
{
}

/// A table that is registered for an environment is there, key by key over what
/// was registered before; other environments stay.
pub proof fn law_registered_environment(
    e: EnvironmentsText,
    name: Seq<char>,
    table: TableText,
    key: Seq<char>,
    other: Seq<char>,
)
    ensures
        ({
            let r = registered(e, name, table);
            &&& r.compiled.dom().contains(name)
            &&& table.dom().contains(key) ==> r.compiled[name].dom().contains(key)
                && r.compiled[name][key] == table[key]
            &&& !table.dom().contains(key) ==> (r.compiled[name].dom().contains(key)
                <==> e.compiled.dom().contains(name) && e.compiled[name].dom().contains(key))
            &&& e.compiled.dom().contains(name) && e.compiled[name].dom().contains(key)
                && !table.dom().contains(key) ==> r.compiled[name][key] == e.compiled[name][key]
            &&& other != name ==> r.compiled.dom().contains(other) == e.compiled.dom().contains(
                other,
            )
            &&& other != name && e.compiled.dom().contains(other) ==> r.compiled[other]
                == e.compiled[other]
            &&& r.default_name == e.default_name && r.app_id == e.app_id
        }),
{
}

/// A fallback is asked only for names that the layers do not know, and what it
/// gives is then the environment.
pub proof fn law_fallback_is_asked_for_unknown_names(
    e: EnvironmentsText,
    name: Seq<char>,
    base: Option<Seq<char>>,
    read: FileRead,
    table: TableText,
)
    ensures
        e.compiled.dom().contains(name) ==> !asks_fallback(e, name, base, read),
        file_layer(e, base, read) is Err ==> !asks_fallback(e, name, base, read),
        asks_fallback(e, name, base, read) ==> found_table(e, name, base, read, Some(table))
            == Some(table) && found_table(e, name, base, read, None) is None,
        !asks_fallback(e, name, base, read) ==> found_table(e, name, base, read, Some(table))
            == found_table(e, name, base, read, None),
{
}

/// The list of environments holds those of both layers, each once.
pub proof fn law_environments_are_listed(
    list: Seq<Seq<char>>,
    compiled: Map<Seq<char>, TableText>,
    file: Map<Seq<char>, TableText>,
    name: Seq<char>,
    i: int,
    j: int,
)
    requires
        is_name_list(list, known_names(compiled, file)),
    ensures
        list.contains(name) <==> compiled.dom().contains(name) || file.dom().contains(name),
        0 <= i < j < list.len() ==> list[i] != list[j] && ordmap::text_lt(list[i], list[j]),
{
    if 0 <= i < j < list.len() {
        ordmap::lemma_text_lt_irreflexive(list[i]);
        assert(ordmap::text_lt(list[i], list[j]));
    }
}

/// The error for an unknown environment names it and lists those that are known.
pub proof fn law_unknown_environment_lists_the_known(name: Seq<char>, known: Seq<Seq<char>>)
    ensures
        text::contains_text(unknown_environment(name, known), text::debug_quoted(name)),
        known.len() > 0 ==> text::contains_text(
            unknown_environment(name, known),
            text::join_spec(known, ", "@),
        ),
{
    let lead = "unknown environment "@;
    let quoted = text::debug_quoted(name);
    let list = if known.len() == 0 {
        "(none defined)"@
    } else {
        text::join_spec(known, ", "@)
    };
    text::lemma_part_occurs(lead, quoted, "; known: "@ + list);
    assert(lead + quoted + ("; known: "@ + list) =~= unknown_environment(name, known));
    text::lemma_part_occurs(lead + quoted + "; known: "@, list, Seq::empty());
    assert(lead + quoted + "; known: "@ + list + Seq::<char>::empty() =~= unknown_environment(
        name,
        known,
    ));
}

} // verus!
