//! The built-in command groups `auth`, `config`, `env` and `flags`, and the data
//! that their commands answer with.
use crate::command::{CommandSpec, SpecText};
use crate::command;
use crate::command_tree::{ArgNode, ArgText};
use crate::command_tree;
use crate::error::CliCoreError;
use crate::error;
use crate::feature_flags::{FlagEntryText, FlagPolicy, FlagRegistry, Stage};
use crate::feature_flags;
use crate::groups::{GroupSpec, RuntimeCommandSpec, RuntimeGroupSpec, RuntimeText, TreeText};
use crate::groups;
use crate::json::{no_members, object, with_member, Json, JsonModel};
use crate::json;
use crate::middleware::meta::{AuthRequirement, ValueMap};
use crate::text;
use crate::tier::Tier;
use crate::ordmap::StringMap;
use crate::toml_value::{copy_table, Toml, TomlView};
use crate::toml_value;
use vstd::prelude::*;
use vstd::string::*;

verus! {

/// Number of the implementation of `auth login`.
pub const AUTH_LOGIN: u64 = 1;

/// Number of the implementation of `auth status`.
pub const AUTH_STATUS: u64 = 2;

/// Number of the implementation of `auth logout`.
pub const AUTH_LOGOUT: u64 = 3;

/// Number of the implementation of `config path`.
pub const CONFIG_PATH: u64 = 4;

/// Number of the implementation of `config get`.
pub const CONFIG_GET: u64 = 5;

/// Number of the implementation of `config set`.
pub const CONFIG_SET: u64 = 6;

/// Number of the implementation of `config list`.
pub const CONFIG_LIST: u64 = 7;

/// Number of the implementation of `env list`.
pub const ENV_LIST: u64 = 8;

/// Number of the implementation of `env get`.
pub const ENV_GET: u64 = 9;

/// Number of the implementation of `env info`.
pub const ENV_INFO: u64 = 10;

/// Number of the implementation of `env set`.
pub const ENV_SET: u64 = 11;

/// Number of the implementation of `flags list`.
pub const FLAGS_LIST: u64 = 12;

/// Number of the implementation of `flags info`.
pub const FLAGS_INFO: u64 = 13;

/// The first number that is left for the commands of an application.
pub const FIRST_FREE_HANDLER: u64 = 100;

/// An executable command that gives one result.
pub open spec fn plain(spec: SpecText, handler: u64) -> RuntimeText {
    RuntimeText { spec, handler, streaming: false }
}

/// A command that never authenticates.
pub open spec fn open_spec(name: Seq<char>, short: Seq<char>) -> SpecText {
    SpecText { auth: AuthRequirement::Never, ..command::bare_spec(name, short) }
}

/// A command that never authenticates, with a system.
pub open spec fn system_spec(name: Seq<char>, short: Seq<char>, system: Seq<char>) -> SpecText {
    SpecText { system: Some(system), ..open_spec(name, short) }
}

/// A command that changes something and never authenticates, with a system.
pub open spec fn mutating_spec(name: Seq<char>, short: Seq<char>, system: Seq<char>) -> SpecText {
    SpecText { tier: Some(Tier::Mutate), mutates: true, ..system_spec(name, short, system) }
}

/// A required positional argument.
pub open spec fn required_arg(id: Seq<char>, value_name: Seq<char>, help: Seq<char>) -> ArgText {
    ArgText {
        value_name: Some(value_name),
        required: true,
        ..command_tree::bare_arg(id, help)
    }
}

/// A flag with a value.
pub open spec fn value_flag(
    id: Seq<char>,
    value_name: Seq<char>,
    required: bool,
    help: Seq<char>,
) -> ArgText {
    ArgText {
        long: Some(id),
        value_name: Some(value_name),
        required,
        ..command_tree::bare_arg(id, help)
    }
}

fn make_open(name: &str, short: &str) -> (r: CommandSpec)
    ensures
        r@ == open_spec(name@, short@),
{
    CommandSpec::new(name.to_owned(), short.to_owned()).no_auth(true)
}

fn make_system(name: &str, short: &str, system: &str) -> (r: CommandSpec)
    ensures
        r@ == system_spec(name@, short@, system@),
{
    make_open(name, short).with_system(system.to_owned())
}

fn make_mutating(name: &str, short: &str, system: &str) -> (r: CommandSpec)
    ensures
        r@ == mutating_spec(name@, short@, system@),
{
    make_system(name, short, system).with_tier(Tier::Mutate).mutates(true)
}

fn make_required(id: &str, value_name: &str, help: &str) -> (r: ArgNode)
    ensures
        r@ == required_arg(id@, value_name@, help@),
{
    let mut r = ArgNode::new(id, help);
    r.value_name = Some(value_name.to_owned());
    r.required = true;
    r
}

fn make_flag(id: &str, value_name: &str, required: bool, help: &str) -> (r: ArgNode)
    ensures
        r@ == value_flag(id@, value_name@, required, help@),
{
    let mut r = ArgNode::new(id, help);
    r.long = Some(id.to_owned());
    r.value_name = Some(value_name.to_owned());
    r.required = required;
    r
}

/// The built-in group `config`.
pub open spec fn config_tree() -> TreeText {
    let key = required_arg(
        "key"@,
        "KEY"@,
        "Dotted key, e.g. credentials.store or deploy.region"@,
    );
    let value = required_arg(
        "value"@,
        "VALUE"@,
        "Value (parsed as bool/int/float when possible, else string)"@,
    );
    TreeText {
        head: groups::bare_head("config"@, "Read and write the CLI config file"@),
        commands: seq![
            plain(
                system_spec("path"@, "Print the config file path"@, "config"@),
                CONFIG_PATH,
            ),
            plain(
                SpecText {
                    args: seq![key],
                    ..system_spec("get"@, "Print a config value by dotted key"@, "config"@)
                },
                CONFIG_GET,
            ),
            plain(
                SpecText {
                    args: seq![key, value],
                    ..mutating_spec("set"@, "Set a config value and save"@, "config"@)
                },
                CONFIG_SET,
            ),
            plain(
                system_spec("list"@, "Print the full config file contents"@, "config"@),
                CONFIG_LIST,
            ),
        ],
        groups: Seq::empty(),
    }
}

/// Builds the built-in runtime `config` command group.
pub fn config_command_group() -> (r: RuntimeGroupSpec)
    ensures
        r@ == config_tree(),
{
    let help = "Dotted key, e.g. credentials.store or deploy.region";
    let get = make_system("get", "Print a config value by dotted key", "config").with_arg(
        make_required("key", "KEY", help),
    );
    let put = make_mutating("set", "Set a config value and save", "config").with_arg(
        make_required("key", "KEY", help),
    ).with_arg(
        make_required(
            "value",
            "VALUE",
            "Value (parsed as bool/int/float when possible, else string)",
        ),
    );
    proof {
        assert(get@.args =~= config_tree().commands[1].spec.args);
        assert(put@.args =~= config_tree().commands[2].spec.args);
    }
    let r = RuntimeGroupSpec::new(
        GroupSpec::new("config".to_owned(), "Read and write the CLI config file".to_owned()),
    ).with_command(
        RuntimeCommandSpec::new(
            make_system("path", "Print the config file path", "config"),
            CONFIG_PATH,
        ),
    ).with_command(RuntimeCommandSpec::new(get, CONFIG_GET)).with_command(
        RuntimeCommandSpec::new(put, CONFIG_SET),
    ).with_command(
        RuntimeCommandSpec::new(
            make_system("list", "Print the full config file contents", "config"),
            CONFIG_LIST,
        ),
    );
    assert(r@.commands =~= config_tree().commands);
    r
}

/// The built-in group `env`.
pub open spec fn env_tree() -> TreeText {
    TreeText {
        head: groups::bare_head("env"@, "Manage the active environment"@),
        commands: seq![
            plain(open_spec("list"@, "List known environments"@), ENV_LIST),
            plain(open_spec("get"@, "Show the active environment name"@), ENV_GET),
            plain(open_spec("info"@, "Show the resolved active environment"@), ENV_INFO),
            plain(
                SpecText {
                    args: seq![
                        ArgText { required: true, ..command_tree::bare_arg("name"@, ""@) },
                    ],
                    ..open_spec("set"@, "Set and persist the active environment"@)
                },
                ENV_SET,
            ),
        ],
        groups: Seq::empty(),
    }
}

/// Builds the built-in `env` command group.
pub fn env_command_group() -> (r: RuntimeGroupSpec)
    ensures
        r@ == env_tree(),
{
    let mut name = ArgNode::new("name", "");
    name.required = true;
    let put = make_open("set", "Set and persist the active environment").with_arg(name);
    assert(put@.args =~= env_tree().commands[3].spec.args);
    let r = RuntimeGroupSpec::new(
        GroupSpec::new("env".to_owned(), "Manage the active environment".to_owned()),
    ).with_command(
        RuntimeCommandSpec::new(make_open("list", "List known environments"), ENV_LIST),
    ).with_command(
        RuntimeCommandSpec::new(make_open("get", "Show the active environment name"), ENV_GET),
    ).with_command(
        RuntimeCommandSpec::new(
            make_open("info", "Show the resolved active environment"),
            ENV_INFO,
        ),
    ).with_command(RuntimeCommandSpec::new(put, ENV_SET));
    assert(r@.commands =~= env_tree().commands);
    r
}

/// The built-in group `flags`.
pub open spec fn flags_tree() -> TreeText {
    TreeText {
        head: groups::bare_head("flags"@, "Inspect declared feature flags"@),
        commands: seq![
            plain(
                system_spec(
                    "list"@,
                    "List every flagged command/group/module node"@,
                    "flags"@,
                ),
                FLAGS_LIST,
            ),
            plain(
                SpecText {
                    args: seq![required_arg("key"@, "KEY"@, "Flag key to inspect"@)],
                    ..system_spec(
                        "info"@,
                        "Show the policy and nodes for one flag key"@,
                        "flags"@,
                    )
                },
                FLAGS_INFO,
            ),
        ],
        groups: Seq::empty(),
    }
}

/// Builds the built-in `flags` command group.
pub fn flags_command_group() -> (r: RuntimeGroupSpec)
    ensures
        r@ == flags_tree(),
{
    let info = make_system("info", "Show the policy and nodes for one flag key", "flags").with_arg(
        make_required("key", "KEY", "Flag key to inspect"),
    );
    assert(info@.args =~= flags_tree().commands[1].spec.args);
    let r = RuntimeGroupSpec::new(
        GroupSpec::new("flags".to_owned(), "Inspect declared feature flags".to_owned()),
    ).with_command(
        RuntimeCommandSpec::new(
            make_system("list", "List every flagged command/group/module node", "flags"),
            FLAGS_LIST,
        ),
    ).with_command(RuntimeCommandSpec::new(info, FLAGS_INFO));
    assert(r@.commands =~= flags_tree().commands);
    r
}

/// The provider that `auth` uses where none is given: the default one, else the
/// first that is registered.
pub open spec fn effective_default(
    default_provider: Seq<char>,
    names: Seq<Seq<char>>,
) -> Seq<char> {
    if default_provider.len() > 0 {
        default_provider
    } else if names.len() > 0 {
        names[0]
    } else {
        Seq::empty()
    }
}

/// The provider that `auth` uses where none is given.
pub fn effective_default_provider(default_provider: &str, names: &Vec<String>) -> (r: String)
    ensures
        r@ == effective_default(default_provider@, text::texts(names@)),
{
    if !default_provider.is_empty() {
        default_provider.to_owned()
    } else if names.len() > 0 {
        names[0].clone()
    } else {
        let r = String::new();
        assert(r@ =~= Seq::empty());
        r
    }
}

/// The flag `--provider` of the `auth` commands.
pub open spec fn provider_flag(default_provider: Seq<char>, names: Seq<Seq<char>>) -> ArgText {
    ArgText {
        default_value: if default_provider.len() > 0 {
            Some(default_provider)
        } else {
            None
        },
        ..value_flag(
            "provider"@,
            "NAME"@,
            false,
            "Auth provider name (one of: ["@ + text::join_spec(names, ", "@) + "])"@,
        )
    }
}

fn provider_arg(default_provider: &str, names: &Vec<String>) -> (r: ArgNode)
    ensures
        r@ == provider_flag(default_provider@, text::texts(names@)),
{
    let mut help = "Auth provider name (one of: [".to_owned();
    help.append(text::join(names, ", ").as_str());
    help.append("])");
    let mut r = make_flag("provider", "NAME", false, help.as_str());
    if !default_provider.is_empty() {
        r.default_value = Some(default_provider.to_owned());
    }
    r
}

/// The built-in group `auth`.
pub open spec fn auth_tree(default_provider: Seq<char>, names: Seq<Seq<char>>) -> TreeText {
    let provider = provider_flag(effective_default(default_provider, names), names);
    TreeText {
        head: groups::bare_head("auth"@, "Manage authentication credentials"@),
        commands: seq![
            plain(
                SpecText {
                    args: seq![provider, value_flag("env"@, "ENV"@, true, ""@)],
                    ..mutating_spec("login"@, "Authenticate and cache credentials"@, "auth"@)
                },
                AUTH_LOGIN,
            ),
            plain(
                SpecText {
                    args: seq![provider, value_flag("env"@, "ENV"@, false, ""@)],
                    ..system_spec("status"@, "Show cached credential status"@, "auth"@)
                },
                AUTH_STATUS,
            ),
            plain(
                SpecText {
                    args: seq![provider, value_flag("env"@, "ENV"@, true, ""@)],
                    ..mutating_spec("logout"@, "Clear cached credentials"@, "auth"@)
                },
                AUTH_LOGOUT,
            ),
        ],
        groups: Seq::empty(),
    }
}

/// Builds the built-in runtime `auth` command group.
pub fn auth_command_group(default_provider: &str, names: &Vec<String>) -> (r: RuntimeGroupSpec)
    ensures
        r@ == auth_tree(default_provider@, text::texts(names@)),
{
    let default = effective_default_provider(default_provider, names);
    let login = make_mutating("login", "Authenticate and cache credentials", "auth").with_arg(
        provider_arg(default.as_str(), names),
    ).with_arg(make_flag("env", "ENV", true, ""));
    let status = make_system("status", "Show cached credential status", "auth").with_arg(
        provider_arg(default.as_str(), names),
    ).with_arg(make_flag("env", "ENV", false, ""));
    let logout = make_mutating("logout", "Clear cached credentials", "auth").with_arg(
        provider_arg(default.as_str(), names),
    ).with_arg(make_flag("env", "ENV", true, ""));
    let ghost tree = auth_tree(default_provider@, text::texts(names@));
    proof {
        assert(login@.args =~= tree.commands[0].spec.args);
        assert(status@.args =~= tree.commands[1].spec.args);
        assert(logout@.args =~= tree.commands[2].spec.args);
    }
    let r = RuntimeGroupSpec::new(
        GroupSpec::new("auth".to_owned(), "Manage authentication credentials".to_owned()),
    ).with_command(RuntimeCommandSpec::new(login, AUTH_LOGIN)).with_command(
        RuntimeCommandSpec::new(status, AUTH_STATUS),
    ).with_command(RuntimeCommandSpec::new(logout, AUTH_LOGOUT));
    assert(r@.commands =~= tree.commands);
    r
}

/// The text of an argument, empty where it is absent or no text.
pub open spec fn text_arg(args: Map<Seq<char>, JsonModel>, name: Seq<char>) -> Seq<char> {
    match json::member(JsonModel::Object(args), name) {
        Some(JsonModel::Text(t)) => t,
        _ => Seq::empty(),
    }
}

/// Reads a required string argument, defaulting to empty when absent.
pub fn string_arg(args: &ValueMap, name: &str) -> (r: String)
    ensures
        r@ == text_arg(json::map_models(args@), name@),
{
    let none = String::new();
    assert(none@ =~= Seq::empty());
    match args.get(name) {
        Some(v) => match v.as_str() {
            Some(t) => t.to_owned(),
            None => none,
        },
        None => none,
    }
}

/// What `config path` answers.
pub fn config_path_data(path: &Option<String>) -> (r: Json)
    ensures
        r@ == JsonModel::Object(json::nothing().insert("path"@, json::option_model(*path))),
{
    object(with_member(no_members(), "path", Json::from_option(path)))
}

/// A setting and its value.
pub open spec fn setting_members(key: Seq<char>, value: JsonModel) -> Map<Seq<char>, JsonModel> {
    json::nothing().insert("key"@, JsonModel::Text(key)).insert("value"@, value)
}

/// What `config get` answers.
pub fn config_get_data(key: &str, value: &Option<String>) -> (r: Json)
    ensures
        r@ == JsonModel::Object(setting_members(key@, json::option_model(*value))),
{
    let m = with_member(no_members(), "key", Json::from_text(key));
    object(with_member(m, "value", Json::from_option(value)))
}

/// What `config set` answers.
pub fn config_set_data(key: &str, value: &str, path: &Option<String>) -> (r: Json)
    ensures
        r@ == JsonModel::Object(
            setting_members(key@, JsonModel::Text(value@)).insert(
                "path"@,
                json::option_model(*path),
            ),
        ),
{
    let m = with_member(no_members(), "key", Json::from_text(key));
    let m = with_member(m, "value", Json::from_text(value));
    object(with_member(m, "path", Json::from_option(path)))
}

/// A file and its contents.
pub open spec fn listing_members(path: JsonModel, contents: Seq<char>) -> Map<
    Seq<char>,
    JsonModel,
> {
    json::nothing().insert("path"@, path).insert("contents"@, JsonModel::Text(contents))
}

/// What `config list` answers.
pub fn config_list_data(path: &Option<String>, contents: &str) -> (r: Json)
    ensures
        r@ == JsonModel::Object(listing_members(json::option_model(*path), contents@)),
{
    let m = with_member(no_members(), "path", Json::from_option(path));
    object(with_member(m, "contents", Json::from_text(contents)))
}

/// One row of `env list`.
pub open spec fn env_row(name: Seq<char>, active: Seq<char>) -> JsonModel {
    JsonModel::Object(
        json::nothing().insert("name"@, JsonModel::Text(name)).insert(
            "active"@,
            JsonModel::Bool(name == active),
        ),
    )
}

/// The rows of `env list`.
pub open spec fn env_rows(names: Seq<Seq<char>>, active: Seq<char>) -> Seq<JsonModel> {
    names.map_values(|n: Seq<char>| env_row(n, active))
}

/// What `env list` answers.
pub fn env_list_data(names: &Vec<String>, active: &str) -> (r: Json)
    ensures
        r@ == JsonModel::Array(env_rows(text::texts(names@), active@)),
{
    broadcast use json::group_json;

    let mut rows: Vec<Json> = Vec::new();
    let mut i: usize = 0;
    while i < names.len()
        invariant
            i <= names@.len(),
            rows@.len() == i,
            forall|k: int| 0 <= k < i ==> (#[trigger] rows@[k])@ == env_row(names@[k]@, active@),
        decreases names@.len() - i,
    {
        let m = with_member(no_members(), "name", Json::from_text(names[i].as_str()));
        let is_active = text::str_eq(names[i].as_str(), active);
        rows.push(object(with_member(m, "active", Json::Bool(is_active))));
        proof {
            broadcast use json::group_json;

        }
        i = i + 1;
    }
    assert(json::models(rows@) =~= env_rows(text::texts(names@), active@));
    Json::Array(rows)
}

/// What `env get` and `env set` answer.
pub fn env_active_data(active: &str) -> (r: Json)
    ensures
        r@ == JsonModel::Object(json::nothing().insert("active"@, JsonModel::Text(active@))),
{
    object(with_member(no_members(), "active", Json::from_text(active)))
}

/// Why `env set` refuses a name, if it does.
pub fn check_env_name(name: &str) -> (r: Result<(), CliCoreError>)
    ensures
        match r {
            Ok(()) => name@.len() > 0,
            Err(e) => name@.len() == 0 && error::is_message(e, "missing environment name"@),
        },
{
    if name.is_empty() {
        Err(CliCoreError::message("missing environment name".to_owned()))
    } else {
        Ok(())
    }
}

/// The OAuth client of an environment as JSON.
pub open spec fn oauth_members(
    client_id: Seq<char>,
    auth_url: Seq<char>,
    token_url: Seq<char>,
    scopes: Seq<Seq<char>>,
) -> Map<Seq<char>, JsonModel> {
    json::nothing().insert("client_id"@, JsonModel::Text(client_id)).insert(
        "auth_url"@,
        JsonModel::Text(auth_url),
    ).insert("token_url"@, JsonModel::Text(token_url)).insert(
        "scopes"@,
        json::list_model(scopes),
    )
}

/// The OAuth client of an environment as JSON.
pub fn oauth_data(client_id: &str, auth_url: &str, token_url: &str, scopes: &Vec<String>) -> (r:
    Json)
    ensures
        r@ == JsonModel::Object(
            oauth_members(client_id@, auth_url@, token_url@, text::texts(scopes@)),
        ),
{
    let m = with_member(no_members(), "client_id", Json::from_text(client_id));
    let m = with_member(m, "auth_url", Json::from_text(auth_url));
    let m = with_member(m, "token_url", Json::from_text(token_url));
    object(with_member(m, "scopes", Json::from_list(scopes)))
}

/// The entries of an environment that do not belong to its OAuth settings.
pub open spec fn extra_spec(table: Map<Seq<char>, TomlView>) -> Map<Seq<char>, TomlView> {
    table.remove("client_id"@).remove("auth_url"@).remove("token_url"@).remove("scopes"@)
}

/// The entries of an environment that `env info` shows as extra: those that do
/// not belong to its OAuth settings.
pub fn extra_entries(table: &StringMap<Toml>) -> (r: StringMap<Toml>)
    ensures
        toml_value::table_says(r@) == extra_spec(toml_value::table_says(table@)),
{
    let mut r = copy_table(table);
    let ghost all = toml_value::table_says(r@);
    r.remove("client_id");
    assert(toml_value::table_says(r@) =~= all.remove("client_id"@));
    r.remove("auth_url");
    assert(toml_value::table_says(r@) =~= all.remove("client_id"@).remove("auth_url"@));
    r.remove("token_url");
    assert(toml_value::table_says(r@) =~= all.remove("client_id"@).remove("auth_url"@).remove(
        "token_url"@,
    ));
    r.remove("scopes");
    assert(toml_value::table_says(r@) =~= extra_spec(all));
    r
}

/// What `env info` answers.
pub open spec fn env_info_members(
    name: Seq<char>,
    oauth: Option<JsonModel>,
    extra: Map<Seq<char>, JsonModel>,
) -> Map<Seq<char>, JsonModel> {
    json::nothing().insert("name"@, JsonModel::Text(name)).insert(
        "oauth"@,
        match oauth {
            Some(o) => o,
            None => JsonModel::Null,
        },
    ).insert("extra"@, JsonModel::Object(extra))
}

/// What `env info` answers.
pub fn env_info_data(name: &str, oauth: Option<Json>, extra: &ValueMap) -> (r: Json)
    ensures
        r@ == JsonModel::Object(
            env_info_members(
                name@,
                (match oauth {
                    Some(o) => Some(o@),
                    None => None,
                }),
                json::map_models(extra@),
            ),
        ),
{
    broadcast use json::group_json;

    let m = with_member(no_members(), "name", Json::from_text(name));
    let o = match oauth {
        Some(o) => o,
        None => Json::Null,
    };
    let m = with_member(m, "oauth", o);
    object(with_member(m, "extra", Json::Object(json::copy_members(extra))))
}

/// One row of `flags list`.
pub open spec fn flag_row(e: FlagEntryText) -> JsonModel {
    JsonModel::Object(
        json::nothing().insert("path"@, JsonModel::Text(e.path)).insert(
            "key"@,
            JsonModel::Text(e.key),
        ).insert("stage"@, JsonModel::Text(feature_flags::stage_name(e.stage))).insert(
            "visible"@,
            JsonModel::Bool(e.visible),
        ),
    )
}

/// The rows of `flags list`.
pub open spec fn flag_rows(entries: Seq<FlagEntryText>) -> Seq<JsonModel> {
    entries.map_values(|e: FlagEntryText| flag_row(e))
}

/// What `flags list` answers.
pub fn flags_list_data(registry: &FlagRegistry) -> (r: Json)
    ensures
        r@ == JsonModel::Array(flag_rows(registry@)),
{
    broadcast use json::group_json;

    let entries = registry.entries();
    let mut rows: Vec<Json> = Vec::new();
    let mut i: usize = 0;
    while i < entries.len()
        invariant
            i <= entries@.len(),
            rows@.len() == i,
            forall|k: int| 0 <= k < i ==> (#[trigger] rows@[k])@ == flag_row(entries@[k]@),
        decreases entries@.len() - i,
    {
        let m = with_member(no_members(), "path", Json::from_text(entries[i].path.as_str()));
        let m = with_member(m, "key", Json::from_text(entries[i].key.as_str()));
        let m = with_member(m, "stage", Json::from_text(entries[i].stage.as_str()));
        rows.push(object(with_member(m, "visible", Json::Bool(entries[i].visible))));
        proof {
            broadcast use json::group_json;

        }
        i = i + 1;
    }
    assert(json::models(rows@) =~= flag_rows(registry@));
    Json::Array(rows)
}

/// What decided whether the nodes with a key are visible.
pub open spec fn decided_by(overrides: Map<Seq<char>, Stage>, key: Seq<char>) -> Seq<char> {
    if overrides.dom().contains(key) {
        "override"@
    } else {
        "min_stage"@
    }
}

/// One row of `flags info`.
pub open spec fn info_row(e: FlagEntryText, decision: Seq<char>) -> JsonModel {
    JsonModel::Object(
        json::nothing().insert("path"@, JsonModel::Text(e.path)).insert(
            "stage"@,
            JsonModel::Text(feature_flags::stage_name(e.stage)),
        ).insert("visible"@, JsonModel::Bool(e.visible)).insert(
            "decided_by"@,
            JsonModel::Text(decision),
        ),
    )
}

/// The policy as `flags info` shows it.
pub open spec fn policy_members(
    min_stage: Stage,
    overrides: Map<Seq<char>, Stage>,
    key: Seq<char>,
) -> Map<Seq<char>, JsonModel> {
    json::nothing().insert(
        "min_stage"@,
        JsonModel::Text(feature_flags::stage_name(min_stage)),
    ).insert(
        "override"@,
        if overrides.dom().contains(key) {
            JsonModel::Text(feature_flags::stage_name(overrides[key]))
        } else {
            JsonModel::Null
        },
    )
}

/// What `flags info` answers for a key with entries.
pub open spec fn info_members(
    entries: Seq<FlagEntryText>,
    min_stage: Stage,
    overrides: Map<Seq<char>, Stage>,
    key: Seq<char>,
) -> Map<Seq<char>, JsonModel> {
    json::nothing().insert("key"@, JsonModel::Text(key)).insert(
        "policy"@,
        JsonModel::Object(policy_members(min_stage, overrides, key)),
    ).insert(
        "entries"@,
        JsonModel::Array(
            entries.map_values(|e: FlagEntryText| info_row(e, decided_by(overrides, key))),
        ),
    )
}

/// `r` is what `flags info` answers for a key.
pub open spec fn is_info(
    r: Result<Json, CliCoreError>,
    registry: Seq<FlagEntryText>,
    min_stage: Stage,
    overrides: Map<Seq<char>, Stage>,
    key: Seq<char>,
) -> bool {
    let entries = feature_flags::with_key(registry, key);
    if key.len() == 0 {
        r matches Err(e) && error::is_message(e, "missing flag key"@)
    } else if entries.len() == 0 {
        r matches Err(e) && error::is_message(e, "no such flag: "@ + key)
    } else {
        r matches Ok(v) && v@ == JsonModel::Object(
            info_members(entries, min_stage, overrides, key),
        )
    }
}

/// What `flags info` answers.
pub fn flags_info_data(registry: &FlagRegistry, policy: &FlagPolicy, key: &str) -> (r: Result<
    Json,
    CliCoreError,
>)
    ensures
        is_info(r, registry@, policy.min_stage, policy.overrides@, key@),
{
    broadcast use json::group_json;

    if key.is_empty() {
        return Err(CliCoreError::message("missing flag key".to_owned()));
    }
    let found = registry.by_key(key);
    let ghost entries = feature_flags::with_key(registry@, key@);
    proof {
        assert(Seq::new(found@.len(), |i: int| found@[i]@).len() == found@.len());
    }
    if found.len() == 0 {
        let mut m = "no such flag: ".to_owned();
        m.append(key);
        return Err(CliCoreError::message(m));
    }
    let (decision, forced) = match policy.overrides.get(key) {
        Some(stage) => ("override", Json::from_text(stage.as_str())),
        None => ("min_stage", Json::Null),
    };
    let ghost how = decided_by(policy.overrides@, key@);
    let mut rows: Vec<Json> = Vec::new();
    let mut i: usize = 0;
    while i < found.len()
        invariant
            i <= found@.len(),
            rows@.len() == i,
            decision@ == how,
            forall|k: int| 0 <= k < i ==> (#[trigger] rows@[k])@ == info_row(found@[k]@, how),
        decreases found@.len() - i,
    {
        let m = with_member(no_members(), "path", Json::from_text(found[i].path.as_str()));
        let m = with_member(m, "stage", Json::from_text(found[i].stage.as_str()));
        let m = with_member(m, "visible", Json::Bool(found[i].visible));
        rows.push(object(with_member(m, "decided_by", Json::from_text(decision))));
        proof {
            broadcast use json::group_json;

        }
        i = i + 1;
    }
    proof {
        let shown = entries.map_values(|e: FlagEntryText| info_row(e, how));
        assert forall|k: int| 0 <= k < rows@.len() implies json::models(rows@)[k] == shown[k] by {
            assert(entries[k] == found@[k]@);
            assert(rows@[k]@ == info_row(found@[k]@, how));
        }
        assert(json::models(rows@) =~= shown);
    }
    let p = with_member(no_members(), "min_stage", Json::from_text(policy.min_stage.as_str()));
    let p = with_member(p, "override", forced);
    let m = with_member(no_members(), "key", Json::from_text(key));
    let m = with_member(m, "policy", object(p));
    let m = with_member(m, "entries", Json::Array(rows));
    Ok(object(m))
}

proof fn lemma_answer_names()
    ensures
        "key"@ != "value"@,
        "key"@ != "path"@,
        "key"@ != "policy"@,
        "key"@ != "entries"@,
        "key"@ != "stage"@,
        "key"@ != "visible"@,
        "value"@ != "path"@,
        "path"@ != "contents"@,
        "path"@ != "stage"@,
        "path"@ != "visible"@,
        "path"@ != "decided_by"@,
        "stage"@ != "visible"@,
        "stage"@ != "decided_by"@,
        "visible"@ != "decided_by"@,
        "policy"@ != "entries"@,
        "name"@ != "active"@,
        "name"@ != "oauth"@,
        "name"@ != "extra"@,
        "oauth"@ != "extra"@,
        "min_stage"@ != "override"@,
        "client_id"@ != "auth_url"@,
        "client_id"@ != "token_url"@,
        "client_id"@ != "scopes"@,
        "auth_url"@ != "token_url"@,
        "auth_url"@ != "scopes"@,
        "token_url"@ != "scopes"@,
{
    reveal_strlit("key");
    reveal_strlit("value");
    reveal_strlit("path");
    reveal_strlit("policy");
    reveal_strlit("entries");
    reveal_strlit("stage");
    reveal_strlit("visible");
    reveal_strlit("contents");
    reveal_strlit("decided_by");
    reveal_strlit("name");
    reveal_strlit("active");
    reveal_strlit("oauth");
    reveal_strlit("extra");
    reveal_strlit("min_stage");
    reveal_strlit("override");
    reveal_strlit("client_id");
    reveal_strlit("auth_url");
    reveal_strlit("token_url");
    reveal_strlit("scopes");
    assert("key"@.len() == 3);
    assert("value"@.len() == 5);
    assert("path"@.len() == 4);
    assert("policy"@.len() == 6);
    assert("entries"@.len() == 7);
    assert("stage"@.len() == 5);
    assert("visible"@.len() == 7);
    assert("contents"@.len() == 8);
    assert("decided_by"@.len() == 10);
    assert("name"@.len() == 4);
    assert("active"@.len() == 6);
    assert("oauth"@[0] == 'o');
    assert("extra"@[0] == 'e');
    assert("min_stage"@.len() == 9);
    assert("override"@.len() == 8);
    assert("client_id"@[0] == 'c');
    assert("auth_url"@[0] == 'a');
    assert("token_url"@[0] == 't');
    assert("scopes"@[0] == 's');
}

/// A setting is answered under its own key with its own value, and a listing
/// with the path of the file and what it holds.
pub proof fn law_config_answers(
    key: Seq<char>,
    value: JsonModel,
    path: JsonModel,
    contents: Seq<char>,
)
    ensures
        ({
            let one = JsonModel::Object(setting_members(key, value));
            let put = JsonModel::Object(setting_members(key, value).insert("path"@, path));
            let all = JsonModel::Object(listing_members(path, contents));
            &&& json::member(one, "key"@) == Some(JsonModel::Text(key))
            &&& json::member(one, "value"@) == Some(value)
            &&& json::member(put, "key"@) == Some(JsonModel::Text(key))
            &&& json::member(put, "value"@) == Some(value)
            &&& json::member(put, "path"@) == Some(path)
            &&& json::member(all, "path"@) == Some(path)
            &&& json::member(all, "contents"@) == Some(JsonModel::Text(contents))
        }),
{
    lemma_answer_names();
}

/// `env list` has one row for each environment, in their order, and only the
/// active one is marked.
pub proof fn law_env_list_marks_the_active_one(names: Seq<Seq<char>>, active: Seq<char>, i: int)
    requires
        0 <= i < names.len(),
    ensures
        env_rows(names, active).len() == names.len(),
        json::member(env_rows(names, active)[i], "name"@) == Some(JsonModel::Text(names[i])),
        names[i] == active ==> json::member(env_rows(names, active)[i], "active"@) == Some(
            JsonModel::Bool(true),
        ),
        names[i] != active ==> json::member(env_rows(names, active)[i], "active"@) == Some(
            JsonModel::Bool(false),
        ),
{
    lemma_answer_names();
}

/// `env info` names the environment and shows its OAuth client, or that it has
/// none, apart from its other entries.
pub proof fn law_env_info_shows_the_environment(
    name: Seq<char>,
    oauth: Option<JsonModel>,
    extra: Map<Seq<char>, JsonModel>,
)
    ensures
        ({
            let answer = JsonModel::Object(env_info_members(name, oauth, extra));
            &&& json::member(answer, "name"@) == Some(JsonModel::Text(name))
            &&& oauth matches Some(o) ==> json::member(answer, "oauth"@) == Some(o)
            &&& oauth is None ==> json::member(answer, "oauth"@) == Some(JsonModel::Null)
            &&& json::member(answer, "extra"@) == Some(JsonModel::Object(extra))
        }),
{
    lemma_answer_names();
}

/// The OAuth client of an environment is shown with each value under its own
/// name, and those names are no extra entries; every other entry is.
pub proof fn law_oauth_is_shown_apart(
    client_id: Seq<char>,
    auth_url: Seq<char>,
    token_url: Seq<char>,
    scopes: Seq<Seq<char>>,
    table: Map<Seq<char>, TomlView>,
    key: Seq<char>,
)
    ensures
        ({
            let shown = JsonModel::Object(oauth_members(client_id, auth_url, token_url, scopes));
            &&& json::member(shown, "client_id"@) == Some(JsonModel::Text(client_id))
            &&& json::member(shown, "auth_url"@) == Some(JsonModel::Text(auth_url))
            &&& json::member(shown, "token_url"@) == Some(JsonModel::Text(token_url))
            &&& json::member(shown, "scopes"@) == Some(json::list_model(scopes))
            &&& extra_spec(table).dom().contains(key) <==> table.dom().contains(key)
                && json::member(shown, key) is None
            &&& extra_spec(table).dom().contains(key) ==> extra_spec(table)[key] == table[key]
        }),
{
    lemma_answer_names();
}

/// `flags list` has one row for each flagged node, with its path, its key, its
/// stage and whether it is visible.
pub proof fn law_flags_list_shows_every_node(entries: Seq<FlagEntryText>, i: int)
    requires
        0 <= i < entries.len(),
    ensures
        flag_rows(entries).len() == entries.len(),
        json::member(flag_rows(entries)[i], "path"@) == Some(JsonModel::Text(entries[i].path)),
        json::member(flag_rows(entries)[i], "key"@) == Some(JsonModel::Text(entries[i].key)),
        json::member(flag_rows(entries)[i], "stage"@) == Some(
            JsonModel::Text(feature_flags::stage_name(entries[i].stage)),
        ),
        json::member(flag_rows(entries)[i], "visible"@) == Some(
            JsonModel::Bool(entries[i].visible),
        ),
{
    lemma_answer_names();
}

/// `flags info` answers for a key that some node has, and for no other. It
/// shows the policy, whether an override decides, and each node with the key.
pub proof fn law_flags_info_shows_one_key(
    r: Result<Json, CliCoreError>,
    registry: Seq<FlagEntryText>,
    min_stage: Stage,
    overrides: Map<Seq<char>, Stage>,
    key: Seq<char>,
    i: int,
)
    requires
        is_info(r, registry, min_stage, overrides, key),
    ensures
        r is Ok <==> key.len() > 0 && (exists|k: int|
            0 <= k < registry.len() && (#[trigger] registry[k]).key == key),
        r matches Ok(v) ==> {
            &&& json::member(v@, "key"@) == Some(JsonModel::Text(key))
            &&& json::member(v@, "policy"@) matches Some(p) && json::member(p, "min_stage"@)
                == Some(JsonModel::Text(feature_flags::stage_name(min_stage))) && json::member(
                p,
                "override"@,
            ) == Some(
                if overrides.dom().contains(key) {
                    JsonModel::Text(feature_flags::stage_name(overrides[key]))
                } else {
                    JsonModel::Null
                },
            )
            &&& json::member(v@, "entries"@) matches Some(JsonModel::Array(rows)) && rows.len()
                == feature_flags::with_key(registry, key).len() && (0 <= i < rows.len() ==> {
                let e = feature_flags::with_key(registry, key)[i];
                &&& json::member(rows[i], "path"@) == Some(JsonModel::Text(e.path))
                &&& json::member(rows[i], "stage"@) == Some(
                    JsonModel::Text(feature_flags::stage_name(e.stage)),
                )
                &&& json::member(rows[i], "visible"@) == Some(JsonModel::Bool(e.visible))
                &&& json::member(rows[i], "decided_by"@) == Some(
                    JsonModel::Text(
                        if overrides.dom().contains(key) {
                            "override"@
                        } else {
                            "min_stage"@
                        },
                    ),
                )
            })
        },
{
    lemma_answer_names();
    feature_flags::law_entries_of_a_key(registry, key);
    let found = feature_flags::with_key(registry, key);
    if found.len() > 0 {
        assert(found.contains(found[0]));
        let k = choose|k: int| 0 <= k < registry.len() && registry[k] == found[0];
        assert(registry[k].key == key);
    } else {
        assert forall|k: int| 0 <= k < registry.len() implies (#[trigger] registry[k]).key
            != key by {
            if registry[k].key == key {
                assert(registry.contains(registry[k]));
                assert(found.contains(registry[k]));
            }
        }
    }
}

/// The `auth` commands use the provider that is set as default, else the first
/// one that is registered.
pub proof fn law_auth_commands_have_a_provider(
    default_provider: Seq<char>,
    names: Seq<Seq<char>>,
    i: int,
)
    requires
        0 <= i < 3,
    ensures
        ({
            let c = auth_tree(default_provider, names).commands[i];
            let flag = c.spec.args[0];
            &&& flag.long == Some("provider"@)
            &&& default_provider.len() > 0 ==> flag.default_value == Some(default_provider)
            &&& default_provider.len() == 0 && names.len() > 0 && names[0].len() > 0
                ==> flag.default_value == Some(names[0])
            &&& default_provider.len() == 0 && names.len() == 0 ==> flag.default_value is None
            &&& c.spec.args[1].long == Some("env"@)
        }),
{
}

/// The built-in commands never authenticate by themselves. Those that change
/// something, and only those, are marked so: `auth login`, `auth logout` and
/// `config set`.
pub proof fn law_builtin_commands_are_open(default_provider: Seq<char>, names: Seq<Seq<char>>)
    ensures
        forall|i: int|
            0 <= i < auth_tree(default_provider, names).commands.len() ==> ({
                let c = #[trigger] auth_tree(default_provider, names).commands[i];
                &&& c.spec.auth is Never
                &&& !c.streaming
                &&& c.spec.mutates <==> c.handler == AUTH_LOGIN || c.handler == AUTH_LOGOUT
                &&& c.spec.tier == (if c.spec.mutates {
                    Some(Tier::Mutate)
                } else {
                    None
                })
            }),
        forall|i: int|
            0 <= i < config_tree().commands.len() ==> ({
                let c = #[trigger] config_tree().commands[i];
                &&& c.spec.auth is Never
                &&& c.spec.mutates <==> c.handler == CONFIG_SET
            }),
        forall|i: int|
            0 <= i < env_tree().commands.len() ==> (#[trigger] env_tree().commands[i]).spec.auth
                is Never,
        forall|i: int|
            0 <= i < flags_tree().commands.len() ==> (#[trigger] flags_tree().commands[i]).spec.auth
                is Never && !flags_tree().commands[i].spec.mutates,
{
}

/// Each built-in command has the implementation of its name.
pub proof fn law_builtin_commands_do_what_they_say(
    default_provider: Seq<char>,
    names: Seq<Seq<char>>,
    i: int,
)
    ensures
        0 <= i < 3 ==> ({
            let c = auth_tree(default_provider, names).commands[i];
            &&& c.spec.name == "login"@ <==> c.handler == AUTH_LOGIN
            &&& c.spec.name == "status"@ <==> c.handler == AUTH_STATUS
            &&& c.spec.name == "logout"@ <==> c.handler == AUTH_LOGOUT
        }),
        0 <= i < 4 ==> ({
            let c = config_tree().commands[i];
            &&& c.spec.name == "path"@ <==> c.handler == CONFIG_PATH
            &&& c.spec.name == "get"@ <==> c.handler == CONFIG_GET
            &&& c.spec.name == "set"@ <==> c.handler == CONFIG_SET
            &&& c.spec.name == "list"@ <==> c.handler == CONFIG_LIST
        }),
        0 <= i < 4 ==> ({
            let c = env_tree().commands[i];
            &&& c.spec.name == "list"@ <==> c.handler == ENV_LIST
            &&& c.spec.name == "get"@ <==> c.handler == ENV_GET
            &&& c.spec.name == "info"@ <==> c.handler == ENV_INFO
            &&& c.spec.name == "set"@ <==> c.handler == ENV_SET
        }),
        0 <= i < 2 ==> ({
            let c = flags_tree().commands[i];
            &&& c.spec.name == "list"@ <==> c.handler == FLAGS_LIST
            &&& c.spec.name == "info"@ <==> c.handler == FLAGS_INFO
        }),
{
    reveal_strlit("login");
    reveal_strlit("status");
    reveal_strlit("logout");
    reveal_strlit("path");
    reveal_strlit("get");
    reveal_strlit("set");
    reveal_strlit("list");
    reveal_strlit("info");
    assert("login"@.len() == 5);
    assert("status"@[0] == 's' && "status"@.len() == 6);
    assert("logout"@[0] == 'l' && "logout"@.len() == 6);
    assert("path"@[0] == 'p');
    assert("get"@[0] == 'g');
    assert("set"@[0] == 's' && "set"@.len() == 3);
    assert("list"@[0] == 'l');
    assert("info"@[0] == 'i');
}

/// An argument is read as the text that it is, and as empty where it is absent
/// or no text.
pub proof fn law_text_argument(args: Map<Seq<char>, JsonModel>, name: Seq<char>, value: Seq<char>)
    ensures
        text_arg(args.insert(name, JsonModel::Text(value)), name) == value,
        text_arg(args.remove(name), name).len() == 0,
{
}

/// The built-in commands take the arguments that they work on: `config get` and
/// `flags info` a key, `config set` a key and a value, and `env set` a name;
/// each of them is required.
pub proof fn law_builtin_arguments()
    ensures
        config_tree().commands[1].spec.args.len() == 1
            && config_tree().commands[1].spec.args[0].id == "key"@
            && config_tree().commands[1].spec.args[0].required,
        config_tree().commands[2].spec.args.len() == 2
            && config_tree().commands[2].spec.args[0].id == "key"@
            && config_tree().commands[2].spec.args[1].id == "value"@
            && config_tree().commands[2].spec.args[0].required
            && config_tree().commands[2].spec.args[1].required,
        env_tree().commands[3].spec.args.len() == 1 && env_tree().commands[3].spec.args[0].id
            == "name"@ && env_tree().commands[3].spec.args[0].required,
        flags_tree().commands[1].spec.args.len() == 1 && flags_tree().commands[1].spec.args[0].id
            == "key"@ && flags_tree().commands[1].spec.args[0].required,
        config_tree().head.name == "config"@ && env_tree().head.name == "env"@
            && flags_tree().head.name == "flags"@,
        config_tree().commands[2].spec.tier == Some(Tier::Mutate),
{
}

/// A login and a logout need an environment, a status does not.
pub proof fn law_auth_arguments(default_provider: Seq<char>, names: Seq<Seq<char>>)
    ensures
        ({
            let tree = auth_tree(default_provider, names);
            &&& tree.head.name == "auth"@
            &&& tree.commands[0].spec.args[1].required
            &&& !tree.commands[1].spec.args[1].required
            &&& tree.commands[2].spec.args[1].required
            &&& !tree.commands[0].spec.args[0].required
            &&& text::contains_text(
                tree.commands[0].spec.args[0].help,
                text::join_spec(names, ", "@),
            )
        }),
{
    let lead = "Auth provider name (one of: ["@;
    let list = text::join_spec(names, ", "@);
    text::lemma_part_occurs(lead, list, "])"@);
}

} // verus!
