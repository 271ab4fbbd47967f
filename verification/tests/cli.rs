//! The application: configuration, command tree, and what invocations lead to.
use cli_engine::auth::dispatcher::{Dispatcher, StatusEntry};
use cli_engine::cli::args::{
    arg_matches_root_name, extract_search_scope_parts, program_basename, search_scope,
    unknown_flag_consumes_value,
};
use cli_engine::cli::argv0::{
    argv0_link_file_name, argv0_script_contents, is_valid_argv0_name, plan_link, resolve_argv0,
    unregistered_link_message, Argv0LinkMethod, Argv0Outcome, Argv0Route, LinkPlan, LinkState,
};
use cli_engine::cli::builtins::{
    completion_args, completion_command, guide_args, help_args, search_args, search_command,
};
use cli_engine::cli::config::CliConfig;
use cli_engine::cli::help::{build_root_long, render_next_actions_human, ModuleHelpEntry};
use cli_engine::cli::run::{
    begin, data_page, dispatch, error_page, event_line, open_run, render_guide, render_help_for_parts, render_root,
    run_plan, streaming_output, timeout_error, Begin, CliRunOutput, Dispatch, HelpReply, Opening, RootReply, RunStep,
};
use cli_engine::cli::search::search_documents;
use cli_engine::cli::settings::{
    debug_transport_logger_for, init_done, init_step, is_interrupted, process_exit_code,
    read_timeout, BuildInfo, InitFailure, InitState, InitStep, TimeUnit, TimeoutText,
};
use cli_engine::cli::shape::CliShape;
use cli_engine::command::CommandSpec;
use cli_engine::command_tree::{has_subcommand, ArgKind, CommandNode};
use cli_engine::error::{exit_code_for_error, CliCoreError};
use cli_engine::groups::{GroupSpec, RuntimeCommandSpec, RuntimeGroupSpec};
use cli_engine::guide::GuideEntry;
use cli_engine::json::Json;
use cli_engine::module::Module;
use cli_engine::ordmap::StringMap;
use cli_engine::output::envelope::NextAction;
use cli_engine::output::formats::OutputFormat;
use cli_engine::output::human::{HumanViewDef, HumanViewRegistry, TableColumn};
use cli_engine::middleware::meta::ValueMap;
use cli_engine::output::schema::{OutputField, OutputSchema, SchemaRegistry};

fn s(text: &str) -> String {
    text.to_owned()
}

fn list(items: &[&str]) -> Vec<String> {
    items.iter().map(|i| (*i).to_owned()).collect()
}

#[test]
fn user_agent_string_derives_name_and_version_by_default() {
    let config =
        CliConfig::new("gdx", "GoDaddy CLI", "gdx").with_build(BuildInfo::new(s("1.2.3")));
    assert_eq!(config.user_agent_string(), "gdx/1.2.3");
}

#[test]
fn user_agent_string_prefers_explicit_override() {
    let config = CliConfig::new("gdx", "GoDaddy CLI", "gdx")
        .with_build(BuildInfo::new(s("1.2.3")))
        .with_user_agent(s("gdx-cli/9.9 (custom)"));
    assert_eq!(config.user_agent_string(), "gdx-cli/9.9 (custom)");
}

#[test]
fn user_agent_string_omits_version_when_absent() {
    let config = CliConfig::new("gdx", "GoDaddy CLI", "gdx");
    assert_eq!(config.user_agent_string(), "gdx");
}

#[test]
fn user_agent_string_names_the_version() {
    let config = CliConfig::new("uatest", "UA test", "uatest")
        .with_build(BuildInfo::new(s("4.5.6")));
    assert_eq!(config.user_agent_string(), "uatest/4.5.6");
}

#[test]
fn install_debug_transport_logger_tracks_the_debug_pattern() {
    // `transport` selected -> an active (enabled) logger is built.
    assert!(debug_transport_logger_for("transport", &Vec::new()).enabled());

    // Wildcard with transport excluded -> a disabled (noop) logger.
    assert!(!debug_transport_logger_for("*,-transport", &Vec::new()).enabled());

    // Empty pattern -> disabled (noop).
    assert!(!debug_transport_logger_for("", &Vec::new()).enabled());
}

#[test]
fn redacted_headers_are_trimmed() {
    let config = CliConfig::new("t", "T", "t")
        .with_redacted_debug_headers(&list(&[" x-key ", "  "]))
        .with_redacted_debug_headers(&list(&["x-other"]));
    assert_eq!(config.redacted_debug_headers, vec!["x-key", "x-other"]);
}

#[test]
fn version_strings_name_the_build() {
    assert_eq!(BuildInfo::new(s("1.0")).version_string(), "1.0");
    let full = BuildInfo::new(s("1.0")).with_commit(s("abc")).with_date(s("today"));
    assert_eq!(full.version_string(), "1.0 (commit abc, built today)");
    let half = BuildInfo::new(s("1.0")).with_commit(s("abc"));
    assert_eq!(half.version_string(), "1.0 (commit abc, built )");
}

#[test]
fn exit_codes_fit_a_byte() {
    assert_eq!(process_exit_code(0), 0);
    assert_eq!(process_exit_code(7), 7);
    assert_eq!(process_exit_code(255), 255);
    assert_eq!(process_exit_code(256), 1);
    assert_eq!(process_exit_code(-1), 1);
}

#[test]
fn a_kept_init_failure_reads_alike() {
    let err = CliCoreError::with_exit_code(
        9,
        CliCoreError::message_for_system(s("db"), s("no connection")),
    );
    let kept = InitFailure::capture(&err);
    assert_eq!(kept.message, "no connection");
    assert_eq!(kept.code, "ERROR");
    assert_eq!(kept.system, "db");
    let again = kept.into_error();
    assert_eq!(again.to_text(), err.to_text());
    assert_eq!(exit_code_for_error(&again), 9);
    assert_eq!(again.system(), Some("db"));
    // The initializer runs once, and its failure is kept.
    assert!(matches!(init_step(false, &InitState::Pending), InitStep::Skip));
    assert!(matches!(init_step(true, &InitState::Pending), InitStep::RunHook));
    let failed = init_done(&Err(err));
    assert!(matches!(init_step(true, &failed), InitStep::Fail(e) if e.to_text() == "no connection"));
    assert!(matches!(init_step(true, &init_done(&Ok(()))), InitStep::UseKept));
}

#[test]
fn timeouts_are_split_into_number_and_unit() {
    assert!(matches!(read_timeout("  "), TimeoutText::Default));
    for (raw, text, unit) in [
        ("60s", "60", TimeUnit::Seconds),
        ("5m", "5", TimeUnit::Minutes),
        (" 1.5h ", "1.5", TimeUnit::Hours),
        ("10ms", "10", TimeUnit::Milliseconds),
        ("3us", "3", TimeUnit::Microseconds),
        ("3µs", "3", TimeUnit::Microseconds),
        ("9ns", "9", TimeUnit::Nanoseconds),
    ] {
        let TimeoutText::Given { number, unit: got } = read_timeout(raw) else {
            panic!("{raw:?} is a duration");
        };
        assert_eq!(number, text);
        assert_eq!(got, unit);
    }
    let TimeoutText::Invalid(err) = read_timeout("soon?") else {
        panic!("no unit");
    };
    assert_eq!(
        err.to_text(),
        "invalid timeout \"soon?\": expected duration like 60s, 5m, or 0s"
    );
    assert_eq!(timeout_error("5s").to_text(), "command timed out after 5s");
    assert!(is_interrupted(130, "command interrupted\n"));
    assert!(!is_interrupted(0, "command interrupted\n"));
}

fn parser(node: &CommandNode) -> clap::Command {
    let mut command = clap::Command::new(node.name.clone()).no_binary_name(true);
    for node in &node.args {
        let mut arg = clap::Arg::new(node.id.clone()).required(node.required);
        if let Some(long) = &node.long {
            arg = arg.long(long.clone());
        }
        if let Some(count) = node.values {
            arg = arg.num_args(count.min..=count.max);
        }
        if node.kind == ArgKind::SetTrue {
            arg = arg.action(clap::ArgAction::SetTrue);
        }
        command = command.arg(arg);
    }
    command
}

fn search(words: &[&str]) -> ValueMap {
    let matches = parser(&search_command())
        .try_get_matches_from(words)
        .expect("the words are a search");
    let query = matches.get_many::<String>("query").expect("a query").cloned().collect();
    search_args(&query, &matches.get_one::<String>("scope").cloned())
}

#[test]
fn completion_command_parses_shell() {
    let matches = parser(&completion_command())
        .try_get_matches_from(["zsh"])
        .expect("a shell");
    assert_eq!(matches.get_one::<String>("shell").map(String::as_str), Some("zsh"));
    let args = completion_args(&matches.get_one::<String>("shell").cloned(), false);
    assert_eq!(args.get("shell").and_then(Json::as_str), Some("zsh"));
}

#[test]
fn completion_command_parses_install() {
    let matches = parser(&completion_command())
        .try_get_matches_from(["--install"])
        .expect("a flag");
    assert!(matches.get_flag("install"));
    let args = completion_args(&None, matches.get_flag("install"));
    assert!(matches!(args.get("install"), Some(Json::Bool(true))));
}

#[test]
fn completion_command_rejects_unknown_flag() {
    assert!(parser(&completion_command()).try_get_matches_from(["--bogusflag"]).is_err());
}

#[test]
fn search_args_joins_multi_word_query_with_spaces() {
    let args = search(&["deploy", "pipeline"]);
    assert_eq!(args.get("query").and_then(Json::as_str), Some("deploy pipeline"));
}

#[test]
fn search_args_leaves_a_single_quoted_token_unchanged() {
    let args = search(&["deploy pipeline"]);
    assert_eq!(args.get("query").and_then(Json::as_str), Some("deploy pipeline"));
}

#[test]
fn search_args_parses_scope() {
    let args = search(&["foo", "--scope", "domain:list"]);
    assert_eq!(args.get("query").and_then(Json::as_str), Some("foo"));
    assert_eq!(args.get("scope").and_then(Json::as_str), Some("domain:list"));
}

#[test]
fn search_args_omits_scope_when_absent() {
    assert!(search_args(&list(&["foo"]), &None).get("scope").is_none());
}

#[test]
fn search_command_requires_a_query() {
    let none: [&str; 0] = [];
    assert!(parser(&search_command()).try_get_matches_from(none).is_err());
}

#[test]
fn help_and_guide_args_carry_their_operands() {
    let help = help_args(&list(&["project", "list"]));
    assert_eq!(help.get("command").and_then(Json::as_str), Some("project list"));
    assert!(help_args(&Vec::new()).is_empty());
    let guide = guide_args(&Some(s("setup")));
    assert_eq!(guide.get("topic").and_then(Json::as_str), Some("setup"));
}

struct Row;

impl OutputSchema for Row {
    fn fields() -> &'static [OutputField] {
        const FIELDS: [OutputField; 2] = [
            OutputField { name: "id", field_type: "string", optional: false },
            OutputField { name: "size", field_type: "int", optional: true },
        ];
        &FIELDS
    }
}

fn project_group() -> RuntimeGroupSpec {
    let list_spec = CommandSpec::new(s("list"), s("List projects"))
        .with_alias(s("ls"))
        .with_output_schema::<Row>()
        .with_view(vec![TableColumn::new(s("id"), s("ID"))])
        .no_auth(true);
    let show_spec = CommandSpec::new(s("show"), s("Show a project"));
    RuntimeGroupSpec::new(GroupSpec::new(s("project"), s("Manage projects")))
        .with_command(RuntimeCommandSpec::new(list_spec, 101))
        .with_command(RuntimeCommandSpec::new(show_spec, 102))
}

fn shape() -> CliShape {
    let config = CliConfig::new("cli", "Team CLI", "cli")
        .with_guide(GuideEntry::new(s("setup"), s("How to set up"), s("# Setup\n")))
        .with_view(HumanViewDef::new(s("shared"), Vec::new()))
        .with_auth_provider(s("primary"), 1)
        .with_reason_consumer()
        .with_config_commands();
    let mut cli = CliShape::prepare(
        &config,
        config.flag_policy(),
        Vec::new(),
        SchemaRegistry::new(),
        HumanViewRegistry::new(),
    );
    let module = Module::new(s("Core"), 1);
    let mut context = cli.open_module(&module);
    context.add_guide(GuideEntry::new(s("setup"), s("Another"), s("other")));
    context.add_guide(GuideEntry::new(s("more"), s("More"), s("# More\n")));
    cli.close_module(module, context, project_group());
    cli.complete(&config.commands, config.config_commands, config.environments.is_some());
    cli
}

#[test]
fn an_application_is_put_together() {
    let cli = shape();
    for name in ["help", "guide", "tree", "completion", "auth", "project", "config", "flags"] {
        assert!(has_subcommand(&cli.root, name), "{name} is mounted");
    }
    assert!(!has_subcommand(&cli.root, "env"));
    assert!(cli.commands.contains_key("project:list"));
    assert!(cli.commands.contains_key("auth:login"));
    assert!(cli.schemas.get_by_path("project:list").is_some());
    assert!(cli.views.has_view("project:list"));
    assert!(cli.views.has_view("shared"));
    assert_eq!(cli.default_auth_provider(), "primary");
    // The first guide of a name stays.
    let guides: Vec<&str> = cli.guide_entries.iter().map(|g| g.summary.as_str()).collect();
    assert_eq!(guides, vec!["How to set up", "More"]);
    assert!(cli.root.long_about.contains("project"));
    assert!(cli.root.args.iter().any(|a| a.id == "reason"));
}

#[test]
fn reserved_names_are_not_mounted() {
    let mut cli = shape();
    let before = cli.root.subcommands.len();
    let group = RuntimeGroupSpec::new(GroupSpec::new(s("help"), s("Mine")));
    cli.add_module_group(s("Core"), group, None);
    assert_eq!(cli.root.subcommands.len(), before);
    cli.ensure_config_command();
    assert_eq!(cli.root.subcommands.len(), before);
}

fn begin_with(cli: &CliShape, args: &[&str]) -> Begin {
    begin(&cli.root, "cli", "1.2.3", "json", &list(args))
}

#[test]
fn the_version_comes_first() {
    let cli = shape();
    let Begin::Output(CliRunOutput { exit_code, rendered }) = begin_with(&cli, &["cli", "--version"]) else {
        panic!("the version is shown");
    };
    assert_eq!(exit_code, 0);
    assert_eq!(rendered, "cli version 1.2.3\n");
}

#[test]
fn schema_and_search_never_reach_the_parser() {
    let cli = shape();
    let Begin::Schema { path, format } =
        begin_with(&cli, &["cli", "project", "ls", "--schema", "--output", "human"])
    else {
        panic!("the schema is shown");
    };
    assert_eq!(path, "project:list");
    assert_eq!(format, "human");
    // A group has no schema.
    assert!(matches!(begin_with(&cli, &["cli", "project", "--schema"]), Begin::Parse(_)));
    let Begin::Search { query, scope, format } =
        begin_with(&cli, &["cli", "project", "--search", "list"])
    else {
        panic!("a search is shown");
    };
    assert_eq!((query.as_str(), scope.as_str(), format.as_str()), ("list", "project", "json"));
}

#[test]
fn group_help_is_rewritten_and_unknown_commands_are_reported() {
    let cli = shape();
    let Begin::Parse(args) = begin_with(&cli, &["cli", "project", "help", "list"]) else {
        panic!("help is parsed");
    };
    assert_eq!(args, list(&["cli", "help", "project", "list"]));
    let Begin::Output(CliRunOutput { exit_code, rendered }) = begin_with(&cli, &["cli", "project", "nope"])
    else {
        panic!("the command is unknown");
    };
    assert_eq!(exit_code, 1);
    assert!(rendered.contains("nope"), "{rendered}");
    let Begin::Parse(args) = begin_with(&cli, &["cli", "project", "list"]) else {
        panic!("a command is parsed");
    };
    assert_eq!(args, list(&["cli", "project", "list"]));
}

#[test]
fn paths_lead_to_built_ins_commands_groups_or_nothing() {
    let cli = shape();
    let to = |path: &str| dispatch(&cli.root, &cli.commands, false, path);
    assert!(matches!(to("help"), Dispatch::Help));
    assert!(matches!(to("tree"), Dispatch::Tree));
    assert!(matches!(to("guide"), Dispatch::Guide));
    assert!(matches!(to("completion"), Dispatch::Completion));
    assert!(matches!(to("project:list"), Dispatch::Command));
    assert!(matches!(to("project"), Dispatch::GroupHelp));
    assert!(matches!(to(""), Dispatch::RootHelp));
    assert!(matches!(
        to("nope"),
        Dispatch::Unknown(o) if o.rendered == "unknown command \"nope\""
    ));
    assert!(matches!(dispatch(&cli.root, &cli.commands, true, ""), Dispatch::RootActions));
}

#[test]
fn commands_run_after_initialization_and_hook() {
    assert_eq!(
        run_plan(&Dispatch::Command),
        vec![
            RunStep::ApplyFlags,
            RunStep::ApplyEnv,
            RunStep::Initialize,
            RunStep::ApplyFlags,
            RunStep::ApplyEnv,
            RunStep::PreRun,
            RunStep::Execute,
        ]
    );
    assert_eq!(
        run_plan(&Dispatch::RootHelp),
        vec![RunStep::ApplyFlags, RunStep::ApplyEnv, RunStep::Show]
    );
    assert_eq!(
        run_plan(&Dispatch::GroupHelp),
        vec![RunStep::ApplyFlags, RunStep::ApplyEnv, RunStep::PreRun, RunStep::Show]
    );
}

#[test]
fn help_finds_the_longest_known_path() {
    let cli = shape();
    let find = |parts: &[&str]| match render_help_for_parts(&cli.root, "cli", &list(parts)) {
        HelpReply::Of(node) => node.name.clone(),
        HelpReply::Unknown(o) => o.rendered,
    };
    assert_eq!(find(&[]), "cli");
    assert_eq!(find(&["project", "ls"]), "list");
    assert_eq!(find(&["project", "nope"]), "project");
    assert_eq!(
        find(&["nope", "x"]),
        "unknown command \"nope x\" — run 'cli help' for available commands"
    );
}

#[test]
fn guides_are_shown_and_reflowed_for_people() {
    let cli = shape();
    let shown = render_guide(&cli.guide_entries, Some("setup"), "human");
    assert_eq!((shown.output.exit_code, shown.reflow), (0, true));
    assert_eq!(shown.output.rendered, "# Setup\n");
    assert!(!render_guide(&cli.guide_entries, Some("setup"), "json").reflow);
    assert!(!render_guide(&cli.guide_entries, None, "human").reflow);
    let unknown = render_guide(&cli.guide_entries, Some("nope"), "json");
    assert_eq!(unknown.output.exit_code, 1);
    assert!(unknown.output.rendered.starts_with("unknown guide topic \"nope\""));
    let invalid = render_guide(&cli.guide_entries, None, "yaml");
    assert_eq!(invalid.output.exit_code, 3);
    assert_eq!(
        invalid.output.rendered,
        "invalid output format \"yaml\": must be one of toon, json, human"
    );
}

#[test]
fn the_bare_root_shows_help_or_data() {
    let actions = || vec![NextAction::new(s("cli project list"), s("List projects"))];
    let root = |format: &str| {
        render_root("LONG", &None, "Team CLI", "1.2.3", "cli", "", format, actions())
    };
    let RootReply::Help(text) = root("human") else {
        panic!("people get help");
    };
    assert!(text.starts_with("LONG"));
    assert!(text.contains("cli project list"));
    let RootReply::Data(page) = root("json") else {
        panic!("machines get data");
    };
    assert_eq!(page.format, OutputFormat::Json);
    let data = page.envelope.data.expect("data");
    assert_eq!(data.get("description").and_then(Json::as_str), Some("Team CLI"));
    assert_eq!(data.get("version").and_then(Json::as_str), Some("1.2.3"));
    assert_eq!(page.envelope.next_actions.len(), 1);
    assert!(page.envelope.metadata.is_none());
    assert!(matches!(root("yaml"), RootReply::Failure(CliRunOutput { exit_code: 3, .. })));
}

#[test]
fn pages_carry_data_or_an_error() {
    let page = data_page(Json::from_text("x"), "cli", "yaml");
    assert_eq!(page.format, OutputFormat::Json);
    assert_eq!(page.exit_code, 0);
    assert_eq!(page.envelope.data.as_ref().and_then(Json::as_str), Some("x"));
    let err = CliCoreError::MissingAuthProvider(s("p"));
    let page = error_page(&err, "cli", "", "human");
    assert_eq!(page.exit_code, 2);
    assert_eq!(page.format, OutputFormat::Human);
    let detail = page.envelope.error.expect("an error");
    assert_eq!(detail.message, "auth: no provider registered with name \"p\"");
    let done = |exit_code: i32| streaming_output(CliRunOutput { exit_code, rendered: s("x") });
    assert_eq!(done(0).rendered, "");
    assert_eq!(done(2).rendered, "x");
}

#[test]
fn search_documents_cover_commands_and_guides() {
    let cli = shape();
    let docs = search_documents(&cli.root, &cli.guide_entries, "");
    assert!(docs.iter().any(|d| d.title.contains("project list")));
    assert!(docs.iter().any(|d| d.id == "guide:setup"));
    let scoped = search_documents(&cli.root, &cli.guide_entries, "project");
    assert!(scoped.iter().all(|d| d.kind != "guide"));
    assert_eq!(search_scope(&cli.root, &list(&["cli", "project", "ls", "--search", "x"])), "project:list");
    assert_eq!(extract_search_scope_parts(&list(&["cli", "project", "--search", "x"])), vec!["project"]);
}

#[test]
fn raw_arguments_are_told_apart() {
    assert_eq!(program_basename("/usr/bin/cli.exe"), "cli");
    assert!(arg_matches_root_name("/usr/bin/cli", "cli"));
    assert!(!arg_matches_root_name("other", "cli"));
    assert!(unknown_flag_consumes_value("--team", Some(&s("platform"))));
    assert!(!unknown_flag_consumes_value("--team", None));
    assert!(!unknown_flag_consumes_value("--team", Some(&s("--other"))));
}

fn routes() -> StringMap<Argv0Route> {
    CliConfig::new("cli", "Team CLI", "cli")
        .with_argv0_alias(s("pl"), list(&["project", "list"]))
        .with_argv0_personality(s("legacy"), 7)
        .argv0_routes
}

#[test]
fn alternative_names_are_dispatched() {
    let to = |args: &[&str]| resolve_argv0(&routes(), "cli", list(args), 0);
    let Argv0Outcome::Proceed(args) = to(&["/bin/pl", "--team", "x"]) else {
        panic!("an alias");
    };
    assert_eq!(args, list(&["cli", "project", "list", "--team", "x"]));
    let Argv0Outcome::Proceed(args) = to(&["cli", "argv0", "pl", "--team", "x"]) else {
        panic!("the explicit form");
    };
    assert_eq!(args, list(&["cli", "project", "list", "--team", "x"]));
    assert!(matches!(to(&["legacy", "x"]), Argv0Outcome::HandOff { .. }));
    assert!(matches!(to(&["cli", "argv0", "nope"]), Argv0Outcome::Refused { .. }));
    let Argv0Outcome::Proceed(args) = to(&["cli", "project"]) else {
        panic!("the canonical name");
    };
    assert_eq!(args, list(&["cli", "project"]));
    let none = resolve_argv0(&StringMap::new(), "cli", list(&["pl"]), 0);
    assert!(matches!(none, Argv0Outcome::Proceed(args) if args == list(&["pl"])));
    assert!(is_valid_argv0_name("my-tool_2"));
    assert!(!is_valid_argv0_name("a.b"));
    assert!(!is_valid_argv0_name(""));
}

#[test]
fn names_are_resolved_before_anything_else() {
    let cli = shape();
    let to = |args: &[&str]| {
        open_run(&routes(), &cli.root, "cli", "1.2.3", "json", list(args), 0)
    };
    assert!(matches!(
        to(&["pl", "--version"]),
        Opening::Begun(Begin::Parse(args)) if args == list(&["cli", "project", "list", "--version"])
    ));
    assert!(matches!(to(&["cli", "--version"]), Opening::Begun(Begin::Output(_))));
    let Opening::Refused { error, format } = to(&["cli", "argv0", "nope", "--output", "human"])
    else {
        panic!("the name is unknown");
    };
    assert_eq!(
        error.to_text(),
        "\"nope\" is not a registered argv0 name; known names: legacy, pl"
    );
    assert_eq!(format, "human");
    let Opening::HandOff { personality, rest } = to(&["legacy", "x"]) else {
        panic!("another application");
    };
    assert_eq!((personality, rest), (7, list(&["x"])));
}

#[test]
fn links_are_kept_or_replaced() {
    assert_eq!(argv0_link_file_name("pl", Argv0LinkMethod::SoftLink, false), "pl");
    assert_eq!(argv0_link_file_name("pl", Argv0LinkMethod::HardLink, true), "pl.exe");
    assert_eq!(argv0_link_file_name("pl", Argv0LinkMethod::Script, true), "pl.cmd");
    let script = argv0_script_contents("/opt/cli", "pl", false);
    assert!(script.starts_with("#!/bin/sh\n"));
    assert!(script.contains("argv0 pl"));
    let method = Argv0LinkMethod::Script;
    assert!(matches!(plan_link(&None, "/opt/cli", "pl", method, false), LinkPlan::Create));
    let state = LinkState {
        contents: Some(script),
        ..plain_state()
    };
    assert!(matches!(plan_link(&Some(state), "/opt/cli", "pl", method, false), LinkPlan::Keep));
    let edited = LinkState { contents: Some(s("x")), ..plain_state() };
    assert!(matches!(
        plan_link(&Some(edited), "/opt/cli", "pl", method, false),
        LinkPlan::Replace
    ));
    assert_eq!(unregistered_link_message("x"), "\"x\" is not a registered argv0 name");
}

fn plain_state() -> LinkState {
    LinkState { is_symlink: false, points_to_target: false, same_bytes: false, contents: None }
}

#[test]
fn the_last_registered_provider_of_a_name_wins() {
    let mut dispatcher = Dispatcher::new();
    dispatcher.register(s("a"), 1);
    dispatcher.register(s("b"), 2);
    dispatcher.register(s("a"), 3);
    assert_eq!(dispatcher.registered_names(), vec!["a", "b"]);
    assert!(matches!(dispatcher.get("a"), Ok(3)));
    assert!(matches!(
        dispatcher.get("c"),
        Err(CliCoreError::MissingAuthProvider(name)) if name == "c"
    ));
    let failed = StatusEntry::from_outcome("a", "dev", Err(s("no")));
    assert_eq!(failed.error.as_deref(), Some("no"));
    assert!(failed.credential.is_none());
}

#[test]
fn the_root_help_lists_categories() {
    let rows = vec![
        ModuleHelpEntry { category: s("Core"), name: s("zeta"), short: s("Z") },
        ModuleHelpEntry { category: s("Core"), name: s("alpha"), short: s("A") },
    ];
    let text = build_root_long("Intro", &rows, true);
    assert!(text.starts_with("Intro"));
    assert!(text.find("alpha").expect("alpha") < text.find("zeta").expect("zeta"));
    let actions = vec![NextAction::new(s("cli x"), s("Do x"))];
    assert!(render_next_actions_human(&actions).contains("cli x"));
    assert_eq!(render_next_actions_human(&Vec::new()), "");
}

#[test]
fn command_nodes_describe_commands() {
    let node = CommandNode::new(s("x"), s("About"));
    assert_eq!(node.about, "About");
    assert!(!node.is_group());
    assert!(node.goes_by("x"));
}

#[test]
fn events_are_lines_of_json() {
    let mut members = ValueMap::new();
    members.insert(s("text"), Json::from_text("two\nlines"));
    let event = Json::Object(members);
    assert_eq!(event_line(&event).as_deref(), Some("{\"text\":\"two\\nlines\"}\n"));
    assert_eq!(event_line(&Json::Null).as_deref(), Some("null\n"));
}
