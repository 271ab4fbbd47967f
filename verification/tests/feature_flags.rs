//! Feature flags, their policy, and the pruning of command trees.
use cli_engine::builtin_groups::{flags_info_data, flags_list_data};
use cli_engine::cli::config::CliConfig;
use cli_engine::cli::shape::CliShape;
use cli_engine::command::CommandSpec;
use cli_engine::command_tree::has_subcommand;
use cli_engine::env_config::EnvConfig;
use cli_engine::environment_flags::{environment_policy, FlagSettings};
use cli_engine::environments::{EnvTable, Environments, FileRead};
use cli_engine::feature_flags::{
    FeatureFlag, FlagPolicy, FlagRegistry, ParseStageError, Stage,
};
use cli_engine::groups::prune::prune_feature_flag_tree;
use cli_engine::groups::{GroupSpec, RuntimeCommandSpec, RuntimeGroupSpec};
use cli_engine::json::Json;
use cli_engine::json_bridge::to_serde;
use cli_engine::module::Module;
use cli_engine::ordmap::StringMap;
use cli_engine::output::human::HumanViewRegistry;
use cli_engine::output::schema::SchemaRegistry;
use cli_engine::toml_value::Toml;

fn s(text: &str) -> String {
    text.to_owned()
}

#[test]
fn stage_ordering() {
    assert!(Stage::Experimental < Stage::Beta);
    assert!(Stage::Beta < Stage::Ga);
    assert!(Stage::Experimental < Stage::Ga);
}

#[test]
fn stage_default_is_ga() {
    assert_eq!(Stage::default(), Stage::Ga);
}

#[test]
fn stage_from_str_round_trips() {
    assert_eq!("experimental".parse::<Stage>().unwrap(), Stage::Experimental);
    assert_eq!("beta".parse::<Stage>().unwrap(), Stage::Beta);
    assert_eq!("ga".parse::<Stage>().unwrap(), Stage::Ga);
}

#[test]
fn stage_from_str_rejects_unknown() {
    let err = "nightly".parse::<Stage>().unwrap_err();
    assert_eq!(err, ParseStageError { value: "nightly".to_owned() });
}

#[test]
fn flag_policy_default_is_ga_with_no_overrides() {
    let policy = FlagPolicy::default();
    assert_eq!(policy.min_stage, Stage::Ga);
    assert!(policy.overrides.is_empty());
    assert!(!policy.visible(None, Stage::Beta));
    assert!(policy.visible(None, Stage::Ga));
}

#[test]
fn flag_policy_override_precedence() {
    let policy = FlagPolicy::new()
        .with_min_stage(Stage::Ga)
        .with_override(s("my-flag"), Stage::Beta);
    // Override stage (Beta) is compared against min_stage (Ga), not the node's
    // own declared stage (Experimental).
    assert!(!policy.visible(Some("my-flag"), Stage::Experimental));

    let policy = FlagPolicy::new()
        .with_min_stage(Stage::Beta)
        .with_override(s("my-flag"), Stage::Beta);
    assert!(policy.visible(Some("my-flag"), Stage::Experimental));
}

#[test]
fn flag_policy_no_override_falls_back_to_node_stage() {
    let policy = FlagPolicy::new().with_min_stage(Stage::Beta);
    assert!(!policy.visible(Some("other-flag"), Stage::Experimental));
    assert!(policy.visible(Some("other-flag"), Stage::Beta));
    assert!(policy.visible(None, Stage::Ga));
}

fn trivial_command(name: &str) -> RuntimeCommandSpec {
    RuntimeCommandSpec::new(CommandSpec::new(s(name), s("short")).no_auth(true), 100)
}

fn flagged_command(name: &str, key: &str, stage: Stage) -> RuntimeCommandSpec {
    let command = trivial_command(name);
    RuntimeCommandSpec { spec: command.spec.with_feature_flag(s(key), stage), ..command }
}

fn group(name: &str) -> RuntimeGroupSpec {
    RuntimeGroupSpec::new(GroupSpec::new(s(name), s("short")))
}

fn flagged_group(name: &str, key: &str, stage: Stage) -> RuntimeGroupSpec {
    RuntimeGroupSpec::new(GroupSpec::new(s(name), s("short")).with_feature_flag(s(key), stage))
}

fn empty_policy() -> FlagPolicy {
    FlagPolicy::default()
}

fn prune(
    group: RuntimeGroupSpec,
    inherited: Option<&FeatureFlag>,
    policy: &FlagPolicy,
    registry: &mut FlagRegistry,
) -> Option<RuntimeGroupSpec> {
    prune_feature_flag_tree(group, inherited, policy, &Vec::new(), registry)
}

#[test]
fn no_flags_anywhere_keeps_everything() {
    let tree = group("root")
        .with_command(trivial_command("a"))
        .with_command(trivial_command("b"))
        .with_group(group("child").with_command(trivial_command("c")));
    let mut registry = FlagRegistry::new();
    let pruned = prune(tree, None, &empty_policy(), &mut registry);

    let pruned = pruned.expect("unflagged tree should never be dropped");
    assert_eq!(pruned.commands.len(), 2);
    assert_eq!(pruned.groups.len(), 1);
    assert_eq!(pruned.groups[0].commands.len(), 1);
    assert!(registry.entries().is_empty());
}

#[test]
fn experimental_command_is_pruned_sibling_is_not() {
    let tree = group("root")
        .with_command(flagged_command("gated", "gated-flag", Stage::Experimental))
        .with_command(trivial_command("sibling"));
    let mut registry = FlagRegistry::new();
    let pruned = prune(tree, None, &empty_policy(), &mut registry)
        .expect("group still has a visible command left");

    assert_eq!(pruned.commands.len(), 1);
    assert_eq!(pruned.commands[0].spec.name, "sibling");

    let entries = registry.entries();
    assert_eq!(entries.len(), 1);
    assert_eq!(entries[0].path, "root:gated");
    assert_eq!(entries[0].key, "gated-flag");
    assert!(!entries[0].visible);
}

#[test]
fn beta_group_pruned_under_ga_min_stage_kept_under_beta_min_stage() {
    let build_tree = || {
        group("root").with_command(trivial_command("keep-me")).with_group(
            flagged_group("flagged-group", "group-flag", Stage::Beta)
                .with_command(trivial_command("cmd-default"))
                .with_command(flagged_command("cmd-ga", "cmd-ga-flag", Stage::Ga)),
        )
    };

    // Default policy (min_stage: Ga) drops the whole Beta subtree, including
    // both its undeclared and explicitly-Ga-declared children, because the
    // ancestor group itself already fails visibility before children are
    // even visited.
    let mut registry = FlagRegistry::new();
    let pruned = prune(build_tree(), None, &empty_policy(), &mut registry)
        .expect("root keeps its unflagged sibling command");
    assert!(pruned.groups.is_empty());
    assert_eq!(pruned.commands.len(), 1);
    assert_eq!(pruned.commands[0].spec.name, "keep-me");
    // Only the group itself was recorded; its children were never visited.
    assert_eq!(registry.entries().len(), 1);
    assert_eq!(registry.entries()[0].path, "root:flagged-group");
    assert!(!registry.entries()[0].visible);

    // A Beta-permissive policy keeps the group and both of its children.
    let policy = FlagPolicy::default().with_min_stage(Stage::Beta);
    let mut registry = FlagRegistry::new();
    let pruned = prune(build_tree(), None, &policy, &mut registry).expect("root is kept");
    assert_eq!(pruned.groups.len(), 1);
    assert_eq!(pruned.groups[0].commands.len(), 2);
    assert!(registry.entries().iter().all(|entry| entry.visible));
}

#[test]
fn ancestor_invisibility_short_circuits_before_children_are_visited() {
    let tree = flagged_group("ancestor", "ancestor-flag", Stage::Beta)
        .with_command(flagged_command("child", "child-flag", Stage::Ga));
    let mut registry = FlagRegistry::new();
    let pruned = prune(tree, None, &empty_policy(), &mut registry);

    assert!(pruned.is_none(), "invisible ancestor drops its whole subtree");
    // The child was never visited, so nothing about it was recorded.
    assert_eq!(registry.entries().len(), 1);
    assert_eq!(registry.entries()[0].path, "ancestor");
    assert!(registry.by_key("child-flag").is_empty());
}

#[test]
fn cascading_inherited_flag_key_and_stage_reach_unflagged_descendants() {
    let module_flag = FeatureFlag::new(s("module-flag"), Stage::Beta);
    let tree = group("root").with_command(trivial_command("unflagged-child"));
    let policy = FlagPolicy::default().with_min_stage(Stage::Beta);
    let mut registry = FlagRegistry::new();
    let pruned = prune(tree, Some(&module_flag), &policy, &mut registry)
        .expect("Beta-permissive policy keeps a Beta-inherited tree");
    assert_eq!(pruned.commands.len(), 1);

    // Both the group and the descendant command recorded the *same*
    // inherited key/stage, proving real cascading rather than an implicit
    // Ga default at either level.
    let entries = registry.entries();
    assert_eq!(entries.len(), 2);
    assert_eq!(entries[0].path, "root");
    assert_eq!(entries[0].key, "module-flag");
    assert_eq!(entries[0].stage, Stage::Beta);
    assert_eq!(entries[1].path, "root:unflagged-child");
    assert_eq!(entries[1].key, "module-flag");
    assert_eq!(entries[1].stage, Stage::Beta);

    // Under the default (Ga) policy the same inherited Beta flag makes the
    // whole tree invisible together.
    let mut registry = FlagRegistry::new();
    let tree = group("root").with_command(trivial_command("unflagged-child"));
    let pruned = prune(tree, Some(&module_flag), &empty_policy(), &mut registry);
    assert!(pruned.is_none());
}

#[test]
fn registry_records_only_named_flags_not_unflagged_nodes() {
    let tree = group("root").with_group(
        flagged_group("g", "g-flag", Stage::Beta)
            .with_command(trivial_command("c1"))
            .with_command(flagged_command("c2", "c2-flag", Stage::Ga)),
    );

    // Permissive enough that nothing is pruned, so every node is visited.
    let policy = FlagPolicy::default().with_min_stage(Stage::Experimental);
    let mut registry = FlagRegistry::new();
    let pruned = prune(tree, None, &policy, &mut registry)
        .expect("permissive policy keeps everything");
    assert_eq!(pruned.groups[0].commands.len(), 2);

    let entries = registry.entries();
    assert_eq!(entries.len(), 3, "root has no flag and is not recorded");
    assert_eq!(entries[0].path, "root:g");
    assert_eq!(entries[0].key, "g-flag");
    assert_eq!(entries[1].path, "root:g:c1");
    assert_eq!(entries[1].key, "g-flag");
    assert_eq!(entries[1].stage, Stage::Beta);
    assert_eq!(entries[2].path, "root:g:c2");
    assert_eq!(entries[2].key, "c2-flag");
    assert_eq!(entries[2].stage, Stage::Ga);
    assert!(entries.iter().all(|entry| entry.visible));
}

fn build(config: &CliConfig, policy: FlagPolicy) -> CliShape {
    let mut cli = CliShape::prepare(
        config,
        policy,
        Vec::new(),
        SchemaRegistry::new(),
        HumanViewRegistry::new(),
    );
    cli.complete(&config.commands, config.config_commands, config.environments.is_some());
    cli
}

fn add_module(cli: &mut CliShape, module: Module, group_name: &str) {
    let context = cli.open_module(&module);
    let group = group(group_name).with_command(trivial_command("list"));
    cli.close_module(module, context, group);
}

fn flagged_module(key: &str, stage: Stage) -> Module {
    Module::new(s("Test Category"), 1).with_feature_flag(s(key), stage)
}

#[test]
fn module_feature_flag_cascades_into_its_group_via_add_module() {
    let config = CliConfig::new("modtest", "Module test", "modtest");
    let mut cli = build(&config, config.flag_policy());
    add_module(&mut cli, flagged_module("module-flag", Stage::Experimental), "gated-mod");

    assert!(
        !cli.commands.contains_key("gated-mod:list"),
        "module-level Experimental flag should have pruned the whole group under the default Ga policy"
    );
    assert!(
        !has_subcommand(&cli.root, "gated-mod"),
        "the pruned group must not be mounted in the command tree either"
    );
}

#[test]
fn module_feature_flag_keeps_group_when_policy_allows_it() {
    let config = CliConfig::new("modtest2", "Module test", "modtest2")
        .with_min_stage(Stage::Experimental);
    let mut cli = build(&config, config.flag_policy());
    add_module(&mut cli, flagged_module("module-flag-2", Stage::Experimental), "gated-mod-2");

    assert!(cli.commands.contains_key("gated-mod-2:list"));
    assert!(has_subcommand(&cli.root, "gated-mod-2"));
}

fn settings_of(config: &CliConfig, name: &str) -> Option<FlagSettings> {
    let environments = config.environments.as_ref()?;
    let chain =
        environments.chain(name, None, &FileRead::Missing, &None, StringMap::new()).ok()?;
    FlagSettings::assemble(&chain).ok()
}

#[test]
fn an_environment_overrides_the_policy() {
    let mut table: StringMap<Toml> = StringMap::new();
    table.insert(s("k"), Toml::from_text("beta"));
    let environments = Environments::new(s("prod"))
        .with_environment(
            s("prod"),
            EnvTable::new().with(s("feature_overrides"), Toml::Table(table)),
        )
        .with_environment(
            s("bad"),
            EnvTable::new().with(s("min_stage"), Toml::from_text("nightly")),
        );
    let config = CliConfig::new("t", "T", "t").with_environments(environments);
    let policy = environment_policy(config.flag_policy(), &settings_of(&config, "prod"));
    assert_eq!(policy.min_stage, Stage::Ga);
    assert_eq!(policy.overrides.get("k"), Some(&Stage::Beta));
    // An environment that says nothing valid is tolerated.
    assert!(settings_of(&config, "bad").is_none());
    let policy = environment_policy(config.flag_policy(), &settings_of(&config, "nope"));
    assert!(policy.overrides.is_empty());
}

#[test]
fn active_environment_min_stage_loosens_consumer_level_policy() {
    let environments = Environments::new(s("prod")).with_environment(
        s("prod"),
        EnvTable::new().with(s("min_stage"), Toml::from_text("experimental")),
    );
    let config = CliConfig::new("modtest3", "Module test", "modtest3")
        .with_environments(environments);
    let policy = environment_policy(config.flag_policy(), &settings_of(&config, "prod"));
    let mut cli = build(&config, policy);
    add_module(&mut cli, flagged_module("module-flag-3", Stage::Experimental), "gated-mod-3");

    assert!(cli.commands.contains_key("gated-mod-3:list"));
    assert!(has_subcommand(&cli.root, "gated-mod-3"));
}

#[test]
fn flags_list_reports_flagged_entries() {
    let config =
        CliConfig::new("flagtest", "Flag test", "flagtest").with_min_stage(Stage::Beta);
    let mut cli = build(&config, config.flag_policy());
    add_module(&mut cli, flagged_module("list-flag", Stage::Beta), "flagged-mod");

    let data = to_serde(&flags_list_data(&cli.flags));
    let entries = data.as_array().expect("data should be array");
    let command_entry = entries
        .iter()
        .find(|entry| entry["path"] == "flagged-mod:list")
        .expect("flagged command entry should be present");
    assert_eq!(command_entry["key"], "list-flag");
    assert_eq!(command_entry["stage"], "beta");
    assert_eq!(command_entry["visible"], true);
}

fn info(cli: &CliShape, key: &str) -> serde_json::Value {
    match flags_info_data(&cli.flags, &cli.settings.policy, key) {
        Ok(data) => to_serde(&data),
        Err(e) => panic!("{}", e.to_text()),
    }
}

#[test]
fn flags_info_returns_policy_and_entries_for_known_key() {
    let config =
        CliConfig::new("flagtest2", "Flag test", "flagtest2").with_min_stage(Stage::Beta);
    let mut cli = build(&config, config.flag_policy());
    add_module(&mut cli, flagged_module("info-flag", Stage::Beta), "flagged-mod-2");

    let data = info(&cli, "info-flag");
    assert_eq!(data["key"], "info-flag");
    assert_eq!(data["policy"]["min_stage"], "beta");
    assert!(data["policy"]["override"].is_null());
    let entries = data["entries"].as_array().expect("entries should be array");
    assert!(!entries.is_empty());
    assert!(entries.iter().any(|entry| {
        entry["path"] == "flagged-mod-2:list" && entry["decided_by"] == "min_stage"
    }));
}

#[test]
fn flags_info_reports_override_decided_by() {
    let config = CliConfig::new("flagtest3", "Flag test", "flagtest3")
        .with_feature_override(s("override-flag"), Stage::Ga);
    let mut cli = build(&config, config.flag_policy());
    add_module(&mut cli, flagged_module("override-flag", Stage::Experimental), "flagged-mod-3");

    let data = info(&cli, "override-flag");
    assert_eq!(data["policy"]["min_stage"], "ga");
    assert_eq!(data["policy"]["override"], "ga");
    let entries = data["entries"].as_array().expect("entries should be array");
    assert!(!entries.is_empty());
    assert!(entries.iter().all(|entry| entry["decided_by"] == "override"));
    assert!(entries.iter().all(|entry| entry["visible"] == true));
    assert!(entries.iter().all(|entry| entry["stage"] == "experimental"));
}

#[test]
fn flags_info_unknown_key_errors() {
    let config = CliConfig::new("flagtest4", "Flag test", "flagtest4");
    let cli = build(&config, config.flag_policy());
    let Err(err) = flags_info_data(&cli.flags, &cli.settings.policy, "no-such-flag") else {
        panic!("the key is unknown");
    };
    assert!(err.to_text().contains("no such flag"));
}

#[test]
fn the_list_of_an_application_without_flags_is_empty() {
    let config = CliConfig::new("t", "T", "t");
    let cli = build(&config, config.flag_policy());
    assert!(matches!(flags_list_data(&cli.flags), Json::Array(rows) if rows.is_empty()));
    assert!(has_subcommand(&cli.root, "flags"));
}
