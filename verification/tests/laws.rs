//! What holds of the library as a whole, on concrete values.
use cli_engine::auth::commands::{all_statuses_data, asks_one_status};
use cli_engine::auth::credential::{Credential, Moment};
use cli_engine::auth::dispatcher::{Dispatcher, StatusEntry};
use cli_engine::auth::scopes::{missing_scopes, union_scopes};
use cli_engine::builtin_groups::{
    auth_command_group, config_list_data, config_path_data, config_set_data, env_active_data,
};
use cli_engine::cli::config::CliConfig;
use cli_engine::cli::help::{build_root_long, ModuleHelpEntry};
use cli_engine::cli::run::{dispatch, Dispatch};
use cli_engine::cli::search::search_documents;
use cli_engine::cli::shape::CliShape;
use cli_engine::command::CommandSpec;
use cli_engine::command_tree::CommandNode;
use cli_engine::error::{exit_code_for_error, CliCoreError};
use cli_engine::flags::{
    debug_component_enabled, global_flags_from_matches, MatchedGlobals,
};
use cli_engine::groups::{GroupSpec, RuntimeCommandSpec, RuntimeGroupSpec};
use cli_engine::guide::parse_guides_from_markdown;
use cli_engine::json::Json;
use cli_engine::json_bridge::{from_serde, to_serde};
use cli_engine::matched::command_path_from_parts;
use cli_engine::middleware::meta::{AuthRequirement, CommandMeta};
use cli_engine::module::{Module, ModuleContext};
use cli_engine::ordmap::StringMap;
use cli_engine::output::envelope::Envelope;
use cli_engine::output::human::{render_human, HumanViewDef, HumanViewRegistry, TableColumn};
use cli_engine::output::json_text::escape_html_sensitive_json_chars;
use cli_engine::output::schema::{OutputField, OutputSchema, SchemaInfo, SchemaRegistry};

fn s(text: &str) -> String {
    text.to_owned()
}

fn list(items: &[&str]) -> Vec<String> {
    items.iter().map(|i| (*i).to_owned()).collect()
}

fn command(name: &str, id: u64) -> RuntimeCommandSpec {
    RuntimeCommandSpec::new(CommandSpec::new(s(name), s("short")).no_auth(true), id)
}

fn prepared(config: &CliConfig) -> CliShape {
    CliShape::prepare(
        config,
        config.flag_policy(),
        Vec::new(),
        SchemaRegistry::new(),
        HumanViewRegistry::new(),
    )
}

#[test]
fn a_granted_union_is_enough() {
    let (defaults, granted, required) = (list(&["a"]), list(&["b"]), list(&["c", "b"]));
    let union = union_scopes(&defaults, &granted, &required);
    assert!(missing_scopes(&union, &required).is_empty());
    assert_eq!(missing_scopes(&granted, &required), vec!["c"]);
}

#[test]
fn built_in_commands_cannot_be_replaced() {
    let root = CommandNode::new(s("cli"), s(""));
    let mut commands = StringMap::new();
    commands.insert(s("help"), command("help", 100));
    assert!(matches!(dispatch(&root, &commands, false, "help"), Dispatch::Help));
}

#[test]
fn extra_auth_commands_stand_beside_the_built_in_ones() {
    let config = CliConfig::new("cli", "CLI", "cli")
        .with_default_auth_provider(s("primary"))
        .with_admin_category(s("Administration"))
        .with_auth_extra_commands(vec![command("scopes", 100), command("login", 101)]);
    let cli = prepared(&config);
    assert!(cli.commands.contains_key("auth:scopes"));
    let login = cli.commands.get("auth:login").expect("login stays");
    assert!(login.handler < 100, "the built-in login is not replaced");
    assert!(cli.root.long_about.contains("Administration"));
    let group = auth_command_group("", &list(&["p"]));
    assert_eq!(group.commands.len(), 3);
}

#[test]
fn hidden_commands_are_not_found() {
    let mut root = CommandNode::new(s("cli"), s(""));
    let mut hidden = CommandNode::new(s("secret"), s("Secret"));
    hidden.hidden = true;
    root.subcommands.push(hidden);
    root.subcommands.push(CommandNode::new(s("open"), s("Open")));
    let docs = search_documents(&root, &Vec::new(), "");
    assert!(docs.iter().all(|d| !d.title.contains("secret")));
    assert!(docs.iter().any(|d| d.title.contains("open")));
}

#[test]
fn hints_and_systems_keep_text_and_code() {
    let inner = || CliCoreError::message(s("project not found"));
    let hinted = CliCoreError::with_fix(s("try again"), inner());
    assert_eq!(hinted.to_text(), "project not found");
    assert_eq!(exit_code_for_error(&hinted), 4);
    let attributed = CliCoreError::with_system(s("api"), inner());
    assert_eq!(attributed.to_text(), "project not found");
    assert_eq!(exit_code_for_error(&attributed), 4);
    assert_eq!(attributed.system(), Some("api"));
}

fn no_flags() -> MatchedGlobals {
    MatchedGlobals {
        toon: false,
        human: false,
        json: false,
        output: None,
        verbose: None,
        dry_run: None,
        fields: None,
        filter: None,
        expr: None,
        limit: None,
        offset: None,
        schema: None,
        reason: None,
        timeout: None,
        debug: None,
        search: None,
        credential_store: None,
    }
}

#[test]
fn an_explicit_format_decides_alone() {
    for default in ["human", "json", "toon"] {
        let output = MatchedGlobals { output: Some(s("toon")), ..no_flags() };
        assert_eq!(global_flags_from_matches(&output, default).output_format, "toon");
        let shorthand = MatchedGlobals { human: true, output: Some(s("json")), ..no_flags() };
        assert_eq!(global_flags_from_matches(&shorthand, default).output_format, "human");
        assert_eq!(global_flags_from_matches(&no_flags(), default).output_format, default);
    }
}

#[test]
fn scopes_and_their_metadata_stay_consistent() {
    let mut meta = CommandMeta::new();
    meta.set_scopes(list(&["a", "b"]));
    assert_eq!(meta.auth_metadata.get("scopes").map(String::as_str), Some("a b"));
    meta.set_scopes(Vec::new());
    assert!(!meta.auth_metadata.contains_key("scopes"));
}

#[test]
fn preparing_twice_is_preparing_once() {
    let envelope = Envelope::success(Json::Bool(true), "sys");
    for verbose in ["", "all", "system", "timestamp,system"] {
        let once = envelope.prepare_for_render(verbose);
        let twice = once.prepare_for_render(verbose);
        assert_eq!(once.metadata.is_some(), twice.metadata.is_some());
        if let (Some(a), Some(b)) = (&once.metadata, &twice.metadata) {
            assert_eq!((&a.system, &a.timestamp), (&b.system, &b.timestamp));
        }
        assert!(matches!(twice.data, Some(Json::Bool(true))));
    }
}

#[test]
fn escaping_keeps_the_meaning_of_json() {
    let original = r#"{"a": "<b>&\\u003c \\< \"x\"  "}"#;
    let escaped = escape_html_sensitive_json_chars(original);
    let before: serde_json::Value = serde_json::from_str(original).expect("valid JSON");
    let after: serde_json::Value = serde_json::from_str(&escaped).expect("valid JSON");
    assert_eq!(before, after);
    assert!(!escaped.contains('<'));
}

#[test]
fn nested_objects_are_shown_as_compact_json() {
    let data: serde_json::Value =
        serde_json::from_str(r#"{"a": {"c": [1, 2.5], "b": null}}"#).expect("valid JSON");
    let shown = render_human(&Envelope::success(from_serde(data), "sys"));
    assert_eq!(shown, "a: {\"b\":null,\"c\":[1,2.5]}\n");
}

#[test]
fn guides_with_invalid_bytes_are_read_all_the_same() {
    let guides = parse_guides_from_markdown(&vec![(s("a.md"), vec![b'x', 0xff, b'y'])]);
    assert_eq!(guides[0].content, "x\u{fffd}y");
}

struct Row;

impl OutputSchema for Row {
    fn fields() -> &'static [OutputField] {
        const FIELDS: [OutputField; 1] =
            [OutputField { name: "id", field_type: "string", optional: false }];
        &FIELDS
    }
}

#[test]
fn modules_contribute_guides_views_and_schemas() {
    let files = vec![(s("b.md"), b"# B\n".to_vec()), (s("a.md"), b"# A\n".to_vec())];
    let module = Module::new(s("Core"), 7)
        .with_guides_from_markdown(&files)
        .with_view(HumanViewDef::new(s("v"), Vec::new()));
    assert_eq!(module.guides.len(), 2);
    assert_eq!(module.guides[0].name, "a");
    let mut context = ModuleContext::new(SchemaRegistry::new(), HumanViewRegistry::new());
    context.register_schema::<Row>(s("core:list"));
    let columns = vec![TableColumn::new(s("id"), s("ID"))];
    context.register_view(HumanViewDef::new(s("w"), columns));
    context.add_guides_from_markdown(&files);
    assert!(context.schemas.get_by_path("core:list").is_some());
    assert!(context.human_views.has_view("w"));
    assert_eq!(context.guides.len(), 2);
    let config = CliConfig::new("cli", "CLI", "cli").with_module(Module::new(s("x"), 1));
    assert_eq!(config.with_modules(vec![module]).modules.len(), 2);
}

#[test]
fn specs_carry_their_declarations() {
    let spec = CommandSpec::new(s("x"), s("X"))
        .with_long(s("Longer"))
        .with_default_fields(s("id"))
        .with_view_id(s("shared"))
        .with_schema_info(SchemaInfo::new(s("x")))
        .auth_optional();
    assert_eq!(spec.default_fields.as_deref(), Some("id"));
    assert_eq!(spec.view_id.as_deref(), Some("shared"));
    assert!(spec.auth.is_optional());
    assert_eq!(spec.auth, AuthRequirement::Optional);
    assert_eq!(spec.node().long_about, "Longer");
    let streaming = RuntimeCommandSpec::new_streaming(spec, 100);
    assert!(streaming.streaming);
    let group = RuntimeGroupSpec::new(GroupSpec::new(s("g"), s("G")).with_long(s("Long")));
    assert_eq!(group.group.node().long_about, "Long");
}

#[test]
fn providers_are_found_through_their_facade() {
    let mut dispatcher = Dispatcher::new();
    let facade = dispatcher.for_provider(s("late"));
    assert!(facade.get(&dispatcher).is_err());
    dispatcher.register(s("late"), 5);
    assert!(matches!(facade.get(&dispatcher), Ok(5)));
}

#[test]
fn all_statuses_are_rows() {
    let known = StatusEntry::from_outcome(
        "p",
        "dev",
        Ok(Credential { identity: s("me"), ..Credential::default() }),
    );
    let failed = StatusEntry::from_outcome("q", "prod", Err(s("no")));
    let now = Moment { seconds: 0, nanos: 0 };
    let rows = to_serde(&all_statuses_data(&vec![known, failed], now));
    assert_eq!(rows[0]["identity"], "me");
    assert_eq!(rows[0]["expired"], false);
    assert_eq!(rows[1]["expired"], true);
    assert!(!asks_one_status("p", ""));
}

#[test]
fn config_commands_answer_with_their_values() {
    assert_eq!(to_serde(&config_path_data(&Some(s("/c"))))["path"], "/c");
    assert!(to_serde(&config_path_data(&None))["path"].is_null());
    assert_eq!(to_serde(&config_set_data("k", "v", &None))["value"], "v");
    assert_eq!(to_serde(&config_list_data(&None, "a = 1\n"))["contents"], "a = 1\n");
    assert_eq!(to_serde(&env_active_data("dev"))["active"], "dev");
}

#[test]
fn command_paths_are_colon_separated() {
    let parts = list(&["cli", "project", "list"]);
    assert_eq!(command_path_from_parts(&parts, None), "project:list");
    assert_eq!(command_path_from_parts(&list(&["x"]), Some("a:b")), "a:b");
    assert_eq!(command_path_from_parts(&list(&["x"]), None), "x");
}

#[test]
fn alternative_names_are_listed_in_order() {
    let config = CliConfig::new("cli", "CLI", "cli")
        .with_long(s("Long"))
        .with_argv0_personality(s("z"), 1)
        .with_argv0_alias(s("a"), list(&["x"]));
    assert_eq!(config.argv0_names(), vec!["a", "z"]);
    let mut cli = prepared(&config);
    cli.set_has_guide(true);
    assert!(cli.root.long_about.starts_with("Long"));
}

#[test]
fn provider_names_come_in_order_of_first_registration() {
    let mut d = Dispatcher::new();
    assert!(d.registered_names().is_empty());
    let facade = d.for_provider(s("b"));
    assert!(matches!(facade.get(&d), Err(CliCoreError::MissingAuthProvider(n)) if n == "b"));
    for (name, id) in [("b", 1), ("a", 2), ("b", 3), ("c", 4), ("a", 5)] {
        d.register(s(name), id);
    }
    assert_eq!(d.registered_names(), vec!["b", "a", "c"]);
    assert_eq!(d.copy().registered_names(), vec!["b", "a", "c"]);
    assert!(matches!(facade.get(&d), Ok(3)));
    d.register(s("b"), 9);
    assert!(matches!(facade.get(&d), Ok(9)));
}

#[test]
fn the_order_of_help_rows_does_not_matter() {
    let row = |category: &str, name: &str| ModuleHelpEntry {
        category: s(category),
        name: s(name),
        short: s("does it"),
    };
    let one = vec![row("B", "x"), row("A", "long-name"), row("B", "a")];
    let two = vec![row("B", "a"), row("B", "x"), row("A", "long-name")];
    let long = build_root_long("Intro", &one, true);
    assert_eq!(long, build_root_long("Intro", &two, true));
    assert!(long.starts_with("Intro\n\n  A:\n    long-name  does it\n\n  B:\n    a "));
}

#[test]
fn the_order_of_guide_files_does_not_matter() {
    let file = |path: &str| (s(path), path.as_bytes().to_vec());
    let one = parse_guides_from_markdown(&vec![file("b.md"), file("x.txt"), file("a.md")]);
    let two = parse_guides_from_markdown(&vec![file("a.md"), file("b.md"), file("x.txt")]);
    let names: Vec<&str> = one.iter().map(|g| g.name.as_str()).collect();
    assert_eq!(names, vec!["a", "b"]);
    for (a, b) in one.iter().zip(&two) {
        assert_eq!((&a.name, &a.content), (&b.name, &b.content));
    }
    assert_eq!(one.len(), two.len());
}

#[test]
fn later_debug_tokens_override_earlier_ones() {
    for pattern in ["", "*", "-*", "auth,-transport", " -AUTH "] {
        let with = |token: &str| debug_component_enabled(&format!("{pattern},{token}"), " Auth ");
        assert!(with("auth") && with("*") && with(" AUTH "));
        assert!(!with("-auth") && !with("-*") && !with("- auth "));
        let before = debug_component_enabled(pattern, " Auth ");
        assert!(with("other") == before && with("-other") == before && with(" ") == before);
    }
}
