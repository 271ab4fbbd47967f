//! The built-in commands `help`, `guide`, `tree`, `completion` and `search`.
use crate::command_tree::{ArgKind, ArgNode, ArgText, CommandNode, NodeText, ValueCount};
use crate::command_tree;
use crate::json::{no_members, with_member, Json, JsonModel};
use crate::json;
use crate::middleware::meta::ValueMap;
use crate::text;
use vstd::prelude::*;
use vstd::string::*;

verus! {

/// A positional argument that takes between `min` and `max` values.
pub open spec fn positional(id: Seq<char>, min: usize, max: usize) -> ArgText {
    ArgText {
        value_name: Some(id),
        values: Some(ValueCount { min, max }),
        ..command_tree::bare_arg(id, ""@)
    }
}

fn make_positional(id: &str, min: usize, max: usize) -> (r: ArgNode)
    ensures
        r@ == positional(id@, min, max),
{
    let mut r = ArgNode::new(id, "");
    r.value_name = Some(id.to_owned());
    r.values = Some(ValueCount { min, max });
    r
}

/// A command with arguments.
pub open spec fn command_with(
    name: Seq<char>,
    about: Seq<char>,
    long_about: Seq<char>,
    args: Seq<ArgText>,
) -> NodeText {
    NodeText { long_about, args, ..command_tree::bare_node(name, about) }
}

fn make_command(name: &str, about: &str, long_about: &str, args: Vec<ArgNode>) -> (r: CommandNode)
    ensures
        command_tree::node_text(r) == command_with(
            name@,
            about@,
            long_about@,
            command_tree::arg_texts(args@),
        ),
{
    let mut r = CommandNode::new(name.to_owned(), about.to_owned());
    r.long_about = long_about.to_owned();
    r.args = args;
    proof {
        assert(text::texts(r.aliases@) =~= Seq::empty());
        assert(r.short_flag_aliases@ =~= Seq::empty());
        assert(text::texts(r.long_flag_aliases@) =~= Seq::empty());
        assert(command_tree::node_texts(r.subcommands@) =~= Seq::empty());
    }
    r
}

/// The command `guide`.
pub open spec fn guide_node() -> NodeText {
    command_with(
        "guide"@,
        "Show built-in guides for AI agents and developers"@,
        "Embedded documentation that ships with the binary. Run without arguments to list topics, or specify a topic name."@,
        seq![positional("topic"@, 0, 1)],
    )
}

/// The command `guide`.
pub fn guide_command() -> (r: CommandNode)
    ensures
        command_tree::node_text(r) == guide_node(),
{
    let mut args: Vec<ArgNode> = Vec::new();
    args.push(make_positional("topic", 0, 1));
    assert(command_tree::arg_texts(args@) =~= guide_node().args);
    make_command(
        "guide",
        "Show built-in guides for AI agents and developers",
        "Embedded documentation that ships with the binary. Run without arguments to list topics, or specify a topic name.",
        args,
    )
}

/// The command `help`.
pub open spec fn help_node() -> NodeText {
    command_with(
        "help"@,
        "Help about any command"@,
        ""@,
        seq![positional("command"@, 0, usize::MAX)],
    )
}

/// The command `help`.
pub fn help_command() -> (r: CommandNode)
    ensures
        command_tree::node_text(r) == help_node(),
{
    let mut args: Vec<ArgNode> = Vec::new();
    args.push(make_positional("command", 0, usize::MAX));
    assert(command_tree::arg_texts(args@) =~= help_node().args);
    make_command("help", "Help about any command", "", args)
}

/// The command `tree`.
pub open spec fn tree_command_node() -> NodeText {
    command_with("tree"@, "Display full command tree"@, ""@, Seq::empty())
}

/// The command `tree`.
pub fn tree_command() -> (r: CommandNode)
    ensures
        command_tree::node_text(r) == tree_command_node(),
{
    let args: Vec<ArgNode> = Vec::new();
    assert(command_tree::arg_texts(args@) =~= Seq::empty());
    make_command("tree", "Display full command tree", "", args)
}

/// The command `completion`.
pub open spec fn completion_node() -> NodeText {
    command_with(
        "completion"@,
        "Generate or install shell completion scripts"@,
        ""@,
        seq![
            positional("shell"@, 0, 1),
            ArgText {
                long: Some("install"@),
                kind: ArgKind::SetTrue,
                ..command_tree::bare_arg(
                    "install"@,
                    "Install completion script into shell config"@,
                )
            },
        ],
    )
}

/// The command `completion`.
pub fn completion_command() -> (r: CommandNode)
    ensures
        command_tree::node_text(r) == completion_node(),
{
    let mut install = ArgNode::new("install", "Install completion script into shell config");
    install.long = Some("install".to_owned());
    install.kind = ArgKind::SetTrue;
    let mut args: Vec<ArgNode> = Vec::new();
    args.push(make_positional("shell", 0, 1));
    args.push(install);
    assert(command_tree::arg_texts(args@) =~= completion_node().args);
    make_command("completion", "Generate or install shell completion scripts", "", args)
}

/// The command `search`.
pub open spec fn search_node() -> NodeText {
    command_with(
        "search"@,
        "Search commands and guides by keyword"@,
        "Searches command names, descriptions, aliases, and guide content for the given keyword(s). Narrow results to part of the command tree with --scope, e.g. --scope domain or --scope domain:list."@,
        seq![
            ArgText {
                value_name: Some("QUERY"@),
                values: Some(ValueCount { min: 1, max: usize::MAX }),
                required: true,
                ..command_tree::bare_arg("query"@, "Keyword(s) to search for"@)
            },
            ArgText {
                long: Some("scope"@),
                value_name: Some("PATH"@),
                ..command_tree::bare_arg(
                    "scope"@,
                    "Limit results to one command subtree, e.g. domain or domain:list"@,
                )
            },
        ],
    )
}

/// The command `search`.
pub fn search_command() -> (r: CommandNode)
    ensures
        command_tree::node_text(r) == search_node(),
{
    let mut query = ArgNode::new("query", "Keyword(s) to search for");
    query.value_name = Some("QUERY".to_owned());
    query.values = Some(ValueCount { min: 1, max: usize::MAX });
    query.required = true;
    let mut scope = ArgNode::new(
        "scope",
        "Limit results to one command subtree, e.g. domain or domain:list",
    );
    scope.long = Some("scope".to_owned());
    scope.value_name = Some("PATH".to_owned());
    let mut args: Vec<ArgNode> = Vec::new();
    args.push(query);
    args.push(scope);
    assert(command_tree::arg_texts(args@) =~= search_node().args);
    make_command(
        "search",
        "Search commands and guides by keyword",
        "Searches command names, descriptions, aliases, and guide content for the given keyword(s). Narrow results to part of the command tree with --scope, e.g. --scope domain or --scope domain:list.",
        args,
    )
}

/// The arguments of `help` for its command parts.
pub open spec fn help_args_map(parts: Seq<Seq<char>>) -> Map<Seq<char>, JsonModel> {
    if parts.len() == 0 {
        json::nothing()
    } else {
        json::nothing().insert("command"@, JsonModel::Text(text::join_spec(parts, " "@)))
    }
}

/// The arguments of `help` for its command parts.
pub fn help_args(parts: &Vec<String>) -> (r: ValueMap)
    ensures
        json::map_models(r@) == help_args_map(text::texts(parts@)),
{
    if parts.len() == 0 {
        return no_members();
    }
    with_member(no_members(), "command", Json::from_text(text::join(parts, " ").as_str()))
}

/// The map with one more text, if there is one.
pub open spec fn with_text(
    m: Map<Seq<char>, JsonModel>,
    name: Seq<char>,
    value: Option<Seq<char>>,
) -> Map<Seq<char>, JsonModel> {
    match value {
        Some(v) => m.insert(name, JsonModel::Text(v)),
        None => m,
    }
}

/// The arguments of `guide`.
pub fn guide_args(topic: &Option<String>) -> (r: ValueMap)
    ensures
        json::map_models(r@) == with_text(
            json::nothing(),
            "topic"@,
            crate::error::opt_text(*topic),
        ),
{
    match topic {
        Some(t) => with_member(no_members(), "topic", Json::from_text(t.as_str())),
        None => no_members(),
    }
}

/// The arguments of `completion`.
pub fn completion_args(shell: &Option<String>, install: bool) -> (r: ValueMap)
    ensures
        json::map_models(r@) == with_text(
            json::nothing().insert("install"@, JsonModel::Bool(install)),
            "shell"@,
            crate::error::opt_text(*shell),
        ),
{
    broadcast use json::group_json;

    let m = with_member(no_members(), "install", Json::Bool(install));
    match shell {
        Some(s) => with_member(m, "shell", Json::from_text(s.as_str())),
        None => m,
    }
}

/// The arguments of `search`: the words of the query joined by spaces, and the
/// scope.
pub fn search_args(query: &Vec<String>, scope: &Option<String>) -> (r: ValueMap)
    ensures
        json::map_models(r@) == with_text(
            json::nothing().insert(
                "query"@,
                JsonModel::Text(text::join_spec(text::texts(query@), " "@)),
            ),
            "scope"@,
            crate::error::opt_text(*scope),
        ),
{
    let joined = text::join(query, " ");
    let m = with_member(no_members(), "query", Json::from_text(joined.as_str()));
    match scope {
        Some(s) => with_member(m, "scope", Json::from_text(s.as_str())),
        None => m,
    }
}

/// The built-in commands go by their names. `guide` and `completion` take one
/// argument at most, and `search` needs a word at least.
pub proof fn law_builtin_commands()
    ensures
        guide_node().name == "guide"@ && help_node().name == "help"@ && tree_command_node().name
            == "tree"@ && completion_node().name == "completion"@ && search_node().name
            == "search"@,
        guide_node().args[0].values matches Some(v) && v.min == 0 && v.max == 1,
        completion_node().args[0].values matches Some(v) && v.min == 0 && v.max == 1,
        search_node().args[0].values matches Some(v) && v.min == 1,
        search_node().args[0].required,
        search_node().args[1].long == Some("scope"@),
        completion_node().args[1].long == Some("install"@),
{
}

/// An argument is handed on under its name where it was given, and is absent
/// where it was not; the others stay.
pub proof fn law_argument_is_handed_on(
    m: Map<Seq<char>, JsonModel>,
    name: Seq<char>,
    value: Seq<char>,
    other: Seq<char>,
)
    ensures
        with_text(m, name, Some(value)).dom().contains(name) && with_text(
            m,
            name,
            Some(value),
        )[name] == JsonModel::Text(value),
        with_text(m, name, None) == m,
        other != name ==> with_text(m, name, Some(value)).dom().contains(other)
            == m.dom().contains(other),
{
}

/// `help` is handed the names of the command with spaces between, and nothing
/// without one.
pub proof fn law_help_arguments(parts: Seq<Seq<char>>)
    ensures
        parts.len() > 0 ==> help_args_map(parts).dom().contains("command"@) && help_args_map(
            parts,
        )["command"@] == JsonModel::Text(text::join_spec(parts, " "@)),
        !help_args_map(Seq::empty()).dom().contains("command"@),
{
}

} // verus!
