//! Global flags.
use cli_engine::command_tree::CommandNode;
use cli_engine::flags::{
    debug_component_enabled, derive_bool_flags, derive_value_flags, extract_command_path,
    extract_output_format, extract_search_query, has_true_schema_flag, output_env_var,
    parse_compat_bool, register_global_flags, resolve_default_output_format,
};

fn args(list: &[&str]) -> Vec<String> {
    list.iter().map(|a| (*a).to_owned()).collect()
}

#[test]
fn debug_component_matcher_handles_wildcards_and_negation() {
    // Empty pattern enables nothing.
    assert!(!debug_component_enabled("", "transport"));
    // Wildcard enables everything.
    assert!(debug_component_enabled("*", "transport"));
    assert!(debug_component_enabled("*", "auth"));
    // Bare name enables only that component.
    assert!(debug_component_enabled("transport", "transport"));
    assert!(!debug_component_enabled("transport", "auth"));
    // Negation after a wildcard removes one component but keeps the rest.
    assert!(!debug_component_enabled("*,-transport", "transport"));
    assert!(debug_component_enabled("*,-auth", "transport"));
    // `-*` disables everything; later tokens still win.
    assert!(!debug_component_enabled("*,-*", "transport"));
    assert!(debug_component_enabled("-*,transport", "transport"));
    // Whitespace and case are ignored.
    assert!(debug_component_enabled(" Transport , -auth ", "transport"));
    // An empty component fails closed, even against a wildcard.
    assert!(!debug_component_enabled("*", ""));
    assert!(!debug_component_enabled("*", "   "));
}

#[test]
fn default_output_format_follows_env_override_then_tty() {
    // TTY policy when no env override.
    assert_eq!(resolve_default_output_format(None, true), "human");
    assert_eq!(resolve_default_output_format(None, false), "json");
    // A valid env override wins over the TTY policy in both directions.
    assert_eq!(resolve_default_output_format(Some("json"), true), "json");
    assert_eq!(resolve_default_output_format(Some("human"), false), "human");
    // Env override is case-insensitive (env vars are commonly upper-cased).
    assert_eq!(resolve_default_output_format(Some("JSON"), true), "json");
    assert_eq!(resolve_default_output_format(Some(" Human "), false), "human");
    // Blank or unrecognized env overrides are ignored (fall back to TTY).
    assert_eq!(resolve_default_output_format(Some("   "), false), "json");
    assert_eq!(resolve_default_output_format(Some(""), true), "human");
    assert_eq!(resolve_default_output_format(Some("yaml"), false), "json");
    assert_eq!(resolve_default_output_format(Some("yaml"), true), "human");
}

#[test]
fn output_env_var_is_derived_from_app_id() {
    assert_eq!(output_env_var("godaddy"), "GODADDY_OUTPUT");
    assert_eq!(output_env_var("gdx"), "GDX_OUTPUT");
    assert_eq!(output_env_var("my-cli"), "MY_CLI_OUTPUT");
}

#[test]
fn raw_arguments_give_the_format_and_the_search() {
    let list = args(&["cli", "project", "--output", "human", "--search=deploy"]);
    assert_eq!(extract_output_format(&list, "json"), "human");
    assert_eq!(extract_search_query(&list), "deploy");
    let plain = args(&["cli", "project"]);
    assert_eq!(extract_output_format(&plain, "json"), "json");
    assert_eq!(extract_search_query(&plain), "");
}

#[test]
fn raw_arguments_give_the_command_path() {
    let root = register_global_flags(CommandNode::new("cli".to_owned(), "".to_owned()));
    let bools = derive_bool_flags(&root);
    let values = derive_value_flags(&root);
    let list = args(&["cli", "--output", "json", "project", "list", "--schema"]);
    assert_eq!(extract_command_path(&list, &bools, &values), "project:list");
    assert!(values.contains("--output"));
    assert!(has_true_schema_flag(&list));
    assert!(!has_true_schema_flag(&args(&["cli", "--schema=false"])));
}

#[test]
fn compatible_booleans_are_read() {
    assert_eq!(parse_compat_bool("true"), Ok(true));
    assert_eq!(parse_compat_bool("false"), Ok(false));
    assert!(parse_compat_bool("maybe").is_err());
}
