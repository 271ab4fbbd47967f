//! Raw arguments before they are parsed.
use cli_engine::cli::args::{
    group_help_target_parts, has_root_version_flag,
    normalize_optional_global_flags_before_command, positional_command_tokens,
    rewrite_group_help_args, unknown_group_command_message,
};
use cli_engine::cli::search::{collect_command_search_documents, command_flag_text};
use cli_engine::command_tree::{
    canonical_command_path, canonical_path_from_parts, find_help_target, ArgNode, CommandNode,
};
use cli_engine::flags::{
    derive_bool_flags, derive_value_flags, extract_command_path, register_global_flags,
};

fn s(text: &str) -> String {
    text.to_owned()
}

fn list(items: &[&str]) -> Vec<String> {
    items.iter().map(|i| (*i).to_owned()).collect()
}

fn leaf(name: &str) -> CommandNode {
    CommandNode::new(s(name), format!("About {name}"))
}

fn root() -> CommandNode {
    let mut root = register_global_flags(CommandNode::new(s("cli"), s("CLI")));
    let mut project = leaf("project");
    project.aliases.push(s("proj"));
    let mut show = leaf("list");
    show.aliases.push(s("ls"));
    let mut team = ArgNode::new("team", "Team");
    team.long = Some(s("team"));
    team.short = Some('t');
    team.aliases.push(s("squad"));
    show.args.push(team);
    project.subcommands.push(show);
    project.subcommands.push(leaf("show"));
    root.subcommands.push(project);
    root.subcommands.push(leaf("ping"));
    root
}

fn positionals(args: &[&str]) -> Vec<String> {
    let root = root();
    let (bools, values) = (derive_bool_flags(&root), derive_value_flags(&root));
    positional_command_tokens(&list(args), "cli", &bools, &values)
}

#[test]
fn positionals_leave_flags_and_their_values_out() {
    assert_eq!(
        positionals(&["cli", "--output", "json", "project", "--team", "x", "list", "--k=v"]),
        list(&["project", "list"])
    );
    assert_eq!(positionals(&["project", "--", "--team", "x"]), list(&["project", "--team", "x"]));
    // A boolean flag takes no value, an unknown flag takes the next token.
    assert_eq!(positionals(&["cli", "--human", "ping"]), list(&["ping"]));
    assert_eq!(positionals(&["cli", "--mystery", "ping"]), Vec::<String>::new());
    assert_eq!(positionals(&["cli", "--mystery", "--other", "x", "ping"]), list(&["ping"]));
}

#[test]
fn the_version_flag_counts_before_commands_only() {
    let root = root();
    let (bools, values) = (derive_bool_flags(&root), derive_value_flags(&root));
    let asks = |args: &[&str]| has_root_version_flag(&list(args), "cli", &bools, &values);
    assert!(asks(&["cli", "--version"]));
    assert!(asks(&["cli", "-v"]));
    assert!(asks(&["cli", "--output", "json", "--version"]));
    assert!(!asks(&["cli", "project", "--version"]));
    assert!(!asks(&["cli", "--", "--version"]));
    assert!(!asks(&["cli"]));
}

#[test]
fn optional_flags_are_spelled_out_before_commands() {
    let normal = |args: &[&str]| {
        normalize_optional_global_flags_before_command(&root(), &list(args))
    };
    assert_eq!(
        normal(&["cli", "--verbose", "project", "list"]),
        list(&["cli", "--verbose=all", "project", "list"])
    );
    assert_eq!(
        normal(&["cli", "project", "list", "--debug", "transport"]),
        list(&["cli", "project", "list", "--debug", "transport"])
    );
    assert_eq!(
        normal(&["cli", "project", "--verbose", "list"]),
        list(&["cli", "project", "--verbose=all", "list"])
    );
    assert_eq!(
        normal(&["cli", "project", "list", "--dry-run", "--schema", "--debug"]),
        list(&["cli", "project", "list", "--dry-run=true", "--schema=true", "--debug=*"])
    );
    assert_eq!(
        normal(&["cli", "project", "list", "--verbose", "--team", "x"]),
        list(&["cli", "project", "list", "--verbose=all", "--team", "x"])
    );
}

#[test]
fn group_help_is_told_apart_from_operands() {
    let target = |parts: &[&str], keywords: usize| {
        group_help_target_parts(&root(), &list(parts), keywords)
    };
    assert_eq!(target(&["project", "help", "list"], 3), Some(list(&["project", "list"])));
    assert_eq!(target(&["proj", "help"], 2), Some(list(&["proj"])));
    assert_eq!(target(&["help", "project"], 2), None);
    assert_eq!(target(&["ping", "help"], 2), None);
    assert_eq!(target(&["project", "help"], 1), None);
    assert_eq!(target(&["nope", "help"], 2), None);
    let mut own = root();
    own.subcommands[0].subcommands.push(leaf("help"));
    assert_eq!(group_help_target_parts(&own, &list(&["project", "help"]), 2), None);
}

#[test]
fn a_rewrite_moves_positionals_only() {
    let root = root();
    let (bools, values) = (derive_bool_flags(&root), derive_value_flags(&root));
    let rewrite = |args: &[&str], parts: &[&str]| {
        rewrite_group_help_args(&list(args), "cli", &bools, &values, &list(parts))
    };
    assert_eq!(
        rewrite(
            &["cli", "project", "--output", "json", "help", "--k=v", "list"],
            &["project", "list"]
        ),
        list(&["cli", "help", "--output", "json", "project", "--k=v", "list"])
    );
    assert_eq!(
        rewrite(&["project", "help", "--", "x"], &["project", "x"]),
        list(&["help", "project", "--", "x"])
    );
}

#[test]
fn unknown_commands_are_named_with_their_group() {
    let message = |parts: &[&str]| unknown_group_command_message(&root(), &list(parts));
    assert_eq!(message(&[]), None);
    assert_eq!(message(&["project", "ls"]), None);
    assert_eq!(
        message(&["proj", "nope"]).as_deref(),
        Some("unknown command \"nope\" for \"cli project\"")
    );
    assert_eq!(message(&["nope"]).as_deref(), Some("unknown command \"nope\" for \"cli\""));
    // A leaf may take operands.
    assert_eq!(message(&["ping", "host"]), None);
}

#[test]
fn aliases_lead_to_canonical_paths() {
    let root = root();
    assert_eq!(canonical_command_path(&root, "proj:ls"), "project:list");
    assert_eq!(canonical_command_path(&root, "proj:nope"), "proj:nope");
    assert_eq!(canonical_command_path(&root, ""), "");
    assert_eq!(
        canonical_path_from_parts(&root, &list(&["proj", "ls"])).as_deref(),
        Some("project:list")
    );
    assert_eq!(canonical_path_from_parts(&root, &list(&["x"])), None);
    assert_eq!(
        find_help_target(&root, &list(&["project", "x"])).map(|c| c.name.as_str()),
        Some("project")
    );
    assert!(find_help_target(&root, &list(&["x"])).is_none());
    let (bools, values) = (derive_bool_flags(&root), derive_value_flags(&root));
    let args = list(&["cli", "-o", "json", "proj", "--team", "x", "ls"]);
    assert_eq!(extract_command_path(&args, &bools, &values), "proj:ls");
    assert!(values.contains("--team") && values.contains("-t"));
    assert!(bools.contains("--help"));
}

#[test]
fn search_documents_hold_flags_and_aliases() {
    let root = root();
    let show = &root.subcommands[0].subcommands[0];
    assert_eq!(command_flag_text(show), "-t --team --squad");
    let docs = collect_command_search_documents(
        &root.subcommands[0],
        &list(&["project"]),
        &list(&["proj"]),
        Vec::new(),
    );
    assert_eq!(docs.len(), 2);
    assert_eq!(docs[0].id, "cmd:project list");
    assert_eq!(docs[0].title, "project list");
    assert_eq!(docs[0].summary, "About list");
    assert_eq!(docs[0].content, "About list  -t --team --squad proj ls");
    let alone = collect_command_search_documents(
        &root.subcommands[1],
        &Vec::new(),
        &Vec::new(),
        Vec::new(),
    );
    assert_eq!(alone[0].title, "ping");
}
