//! What a group of commands registers when it is mounted, and its command for
//! the parser.
use crate::command::{CommandSpec, SpecText};
use crate::command;
use crate::command_tree::{CommandNode, NodeText};
use crate::command_tree;
use crate::groups::{bare_group_node, RuntimeCommandSpec, RuntimeGroupSpec, RuntimeText, TreeText};
use crate::groups::prune::child_path;
use crate::groups;
use crate::ordmap::{Duplicate, StringMap};
use crate::ordmap;
use crate::output::human::{copy_columns, HumanViewDef, HumanViewRegistry, ViewsText};
use crate::output::schema::{format_help_section, SchemaRegistry, SchemaText};
use crate::output::schema;
use crate::text;
use vstd::prelude::*;
use vstd::string::*;

verus! {

/// Commands by their colon-separated paths.
pub type CommandsText = Map<Seq<char>, RuntimeText>;

/// What a map of commands says.
pub open spec fn commands_text(m: Map<Seq<char>, RuntimeCommandSpec>) -> CommandsText {
    m.map_values(|c: RuntimeCommandSpec| c@)
}

/// The path of a child.
pub open spec fn path_of(path: Seq<Seq<char>>, name: Seq<char>) -> Seq<char> {
    text::join_spec(path.push(name), ":"@)
}

/// The commands after those of a group at `path` were put among them.
pub open spec fn commands_added(
    m: CommandsText,
    commands: Seq<RuntimeText>,
    path: Seq<Seq<char>>,
) -> CommandsText
    decreases commands.len(),
{
    if commands.len() == 0 {
        m
    } else {
        commands_added(m, commands.drop_last(), path).insert(
            path_of(path, commands.last().spec.name),
            commands.last(),
        )
    }
}

/// The commands after those of a group below `path` were put among them: those
/// of its groups first, then its own.
pub open spec fn group_added(m: CommandsText, g: TreeText, path: Seq<Seq<char>>) -> CommandsText
    decreases g,
{
    let here = path.push(g.head.name);
    commands_added(groups_added(m, g.groups, here), g.commands, here)
}

/// The commands after those of groups below `path` were put among them.
pub open spec fn groups_added(
    m: CommandsText,
    groups: Seq<TreeText>,
    path: Seq<Seq<char>>,
) -> CommandsText
    decreases groups,
{
    if groups.len() == 0 {
        m
    } else {
        group_added(groups_added(m, groups.drop_last(), path), groups.last(), path)
    }
}

fn add_groups(
    children: &Vec<RuntimeGroupSpec>,
    path: &Vec<String>,
    out: &mut StringMap<RuntimeCommandSpec>,
)
    ensures
        commands_text(final(out)@) == groups_added(
            commands_text(old(out)@),
            groups::tree_texts(children@),
            text::texts(path@),
        ),
    decreases children,
{
    let ghost all = groups::tree_texts(children@);
    let ghost at = text::texts(path@);
    let mut i: usize = 0;
    proof {
        groups::lemma_tree_texts(children@);
        assert(all.take(0) =~= Seq::empty());
    }
    while i < children.len()
        invariant
            i <= children@.len(),
            all == groups::tree_texts(children@),
            all.len() == children@.len(),
            at == text::texts(path@),
            commands_text(out@) == groups_added(
                commands_text(old(out)@),
                all.take(i as int),
                at,
            ),
        decreases children@.len() - i,
    {
        proof {
            groups::lemma_tree_texts(children@);
            assert(all.take(i + 1).drop_last() =~= all.take(i as int));
            assert(all.take(i + 1).last() == groups::tree_text(children@[i as int]));
        }
        children[i].register_commands(path, out);
        i = i + 1;
    }
    proof {
        assert(all.take(i as int) =~= all);
    }
}

impl RuntimeGroupSpec {
    /// Puts the commands of the group, and of the groups below it, among those
    /// in `out`, each under its colon-separated path.
    pub fn register_commands(
        &self,
        prefix: &Vec<String>,
        out: &mut StringMap<RuntimeCommandSpec>,
    )
        ensures
            commands_text(final(out)@) == group_added(
                commands_text(old(out)@),
                self@,
                text::texts(prefix@),
            ),
        decreases self,
    {
        let here = child_path(prefix, &self.group.name);
        add_groups(&self.groups, &here, out);
        let ghost m = commands_text(out@);
        let ghost all = groups::runtime_texts(self.commands@);
        let ghost at = text::texts(here@);
        let mut i: usize = 0;
        proof {
            assert(all.take(0) =~= Seq::empty());
        }
        while i < self.commands.len()
            invariant
                i <= self.commands@.len(),
                all == groups::runtime_texts(self.commands@),
                at == text::texts(here@),
                commands_text(out@) == commands_added(m, all.take(i as int), at),
            decreases self.commands@.len() - i,
        {
            let ghost before = out@;
            let path = text::join(&child_path(&here, &self.commands[i].spec.name), ":");
            let c = self.commands[i].copy();
            out.insert(path, c);
            proof {
                assert(all.take(i + 1).drop_last() =~= all.take(i as int));
                assert(all.take(i + 1).last() == self.commands@[i as int]@);
                assert(commands_text(out@) =~= commands_text(before).insert(path@, c@));
            }
            i = i + 1;
        }
        proof {
            assert(all.take(i as int) =~= all);
        }
    }
}

/// A command is found under its path once its group is registered, unless a
/// later command of the same group has the same name.
pub proof fn law_registered_command_is_found(
    m: CommandsText,
    commands: Seq<RuntimeText>,
    path: Seq<Seq<char>>,
    i: int,
)
    requires
        0 <= i < commands.len(),
        forall|j: int|
            i < j < commands.len() ==> path_of(path, (#[trigger] commands[j]).spec.name)
                != path_of(path, commands[i].spec.name),
    ensures
        commands_added(m, commands, path).dom().contains(path_of(path, commands[i].spec.name)),
        commands_added(m, commands, path)[path_of(path, commands[i].spec.name)] == commands[i],
    decreases commands.len(),
{
    let init = commands.drop_last();
    if i < init.len() {
        assert forall|j: int| i < j < init.len() implies path_of(
            path,
            (#[trigger] init[j]).spec.name,
        ) != path_of(path, init[i].spec.name) by {
            assert(commands[j].spec.name == init[j].spec.name);
        }
        law_registered_command_is_found(m, init, path, i);
        assert(path_of(path, commands[commands.len() - 1].spec.name) != path_of(
            path,
            commands[i].spec.name,
        ));
    }
}

/// Schemas and views.
pub struct Registries {
    /// Schemas by path.
    pub schemas: Map<Seq<char>, SchemaText>,
    /// Views by id.
    pub views: ViewsText,
}

/// What a command at `path` registers: its schema, and the columns of its own
/// view unless it uses a shared one.
pub open spec fn spec_registered(r: Registries, s: SpecText, path: Seq<char>) -> Registries {
    Registries {
        schemas: match s.output_schema {
            Some(info) => r.schemas.insert(path, SchemaText { command: path, ..info }),
            None => r.schemas,
        },
        views: if s.view_id is None && s.view_columns.len() > 0 {
            ViewsText { columns: r.views.columns.insert(path, s.view_columns), ..r.views }
        } else {
            r.views
        },
    }
}

/// What the commands of a group at `path` register.
pub open spec fn specs_registered(
    r: Registries,
    commands: Seq<RuntimeText>,
    path: Seq<Seq<char>>,
) -> Registries
    decreases commands.len(),
{
    if commands.len() == 0 {
        r
    } else {
        spec_registered(
            specs_registered(r, commands.drop_last(), path),
            commands.last().spec,
            path_of(path, commands.last().spec.name),
        )
    }
}

/// What a group below `path` registers.
pub open spec fn group_registered(r: Registries, g: TreeText, path: Seq<Seq<char>>) -> Registries
    decreases g,
{
    let here = path.push(g.head.name);
    specs_registered(groups_registered(r, g.groups, here), g.commands, here)
}

/// What groups below `path` register.
pub open spec fn groups_registered(
    r: Registries,
    groups: Seq<TreeText>,
    path: Seq<Seq<char>>,
) -> Registries
    decreases groups,
{
    if groups.len() == 0 {
        r
    } else {
        group_registered(groups_registered(r, groups.drop_last(), path), groups.last(), path)
    }
}

/// Registers the schema and the view of a command.
pub fn register_command_metadata(
    spec: &CommandSpec,
    path: &str,
    schemas: &mut SchemaRegistry,
    views: &mut HumanViewRegistry,
)
    ensures
        (Registries { schemas: final(schemas)@, views: final(views)@ }) == spec_registered(
            Registries { schemas: old(schemas)@, views: old(views)@ },
            spec@,
            path@,
        ),
{
    match &spec.output_schema {
        Some(info) => {
            schemas.register_info(path.to_owned(), info.duplicate());
        },
        None => {},
    }
    if spec.view_id.is_none() && spec.view_columns.len() > 0 {
        views.register(HumanViewDef::new(path.to_owned(), copy_columns(&spec.view_columns)));
    }
}

fn register_groups(
    children: &Vec<RuntimeGroupSpec>,
    path: &Vec<String>,
    schemas: &mut SchemaRegistry,
    views: &mut HumanViewRegistry,
)
    ensures
        (Registries { schemas: final(schemas)@, views: final(views)@ }) == groups_registered(
            Registries { schemas: old(schemas)@, views: old(views)@ },
            groups::tree_texts(children@),
            text::texts(path@),
        ),
    decreases children,
{
    let ghost all = groups::tree_texts(children@);
    let ghost at = text::texts(path@);
    let ghost start = Registries { schemas: schemas@, views: views@ };
    let mut i: usize = 0;
    proof {
        groups::lemma_tree_texts(children@);
        assert(all.take(0) =~= Seq::empty());
    }
    while i < children.len()
        invariant
            i <= children@.len(),
            all == groups::tree_texts(children@),
            all.len() == children@.len(),
            at == text::texts(path@),
            (Registries { schemas: schemas@, views: views@ }) == groups_registered(
                start,
                all.take(i as int),
                at,
            ),
        decreases children@.len() - i,
    {
        proof {
            groups::lemma_tree_texts(children@);
            assert(all.take(i + 1).drop_last() =~= all.take(i as int));
            assert(all.take(i + 1).last() == groups::tree_text(children@[i as int]));
        }
        register_runtime_group_metadata(&children[i], path, schemas, views);
        i = i + 1;
    }
    proof {
        assert(all.take(i as int) =~= all);
    }
}

/// Registers the schemas and views of the commands of a group and of the groups
/// below it.
pub fn register_runtime_group_metadata(
    group: &RuntimeGroupSpec,
    prefix: &Vec<String>,
    schemas: &mut SchemaRegistry,
    views: &mut HumanViewRegistry,
)
    ensures
        (Registries { schemas: final(schemas)@, views: final(views)@ }) == group_registered(
            Registries { schemas: old(schemas)@, views: old(views)@ },
            group@,
            text::texts(prefix@),
        ),
    decreases group,
{
    let here = child_path(prefix, &group.group.name);
    register_groups(&group.groups, &here, schemas, views);
    let ghost start = Registries { schemas: schemas@, views: views@ };
    let ghost all = groups::runtime_texts(group.commands@);
    let ghost at = text::texts(here@);
    let mut i: usize = 0;
    proof {
        assert(all.take(0) =~= Seq::empty());
    }
    while i < group.commands.len()
        invariant
            i <= group.commands@.len(),
            all == groups::runtime_texts(group.commands@),
            at == text::texts(here@),
            (Registries { schemas: schemas@, views: views@ }) == specs_registered(
                start,
                all.take(i as int),
                at,
            ),
        decreases group.commands@.len() - i,
    {
        proof {
            assert(all.take(i + 1).drop_last() =~= all.take(i as int));
            assert(all.take(i + 1).last() == group.commands@[i as int]@);
        }
        let path = text::join(&child_path(&here, &group.commands[i].spec.name), ":");
        register_command_metadata(&group.commands[i].spec, path.as_str(), schemas, views);
        i = i + 1;
    }
    proof {
        assert(all.take(i as int) =~= all);
    }
}

/// The schema that a registry gives for a path.
pub open spec fn schema_at(
    schemas: Map<Seq<char>, SchemaText>,
    path: Seq<char>,
) -> Option<SchemaText> {
    choose|r: Option<SchemaText>| #[trigger] schema::is_found(schemas, path, r)
}

/// A registry gives one schema for a path.
proof fn lemma_schema_at(
    schemas: Map<Seq<char>, SchemaText>,
    path: Seq<char>,
    r: Option<SchemaText>,
)
    requires
        schema::is_found(schemas, path, r),
    ensures
        schema_at(schemas, path) == r,
{
    let q = schema_at(schemas, path);
    let spaced = schema::spaced(path);
    assert(schema::is_found(schemas, path, q));
    if !schemas.dom().contains(path) {
        match (r, q) {
            (Some(a), Some(b)) => {
                let ka = choose|key: Seq<char>| #[trigger]
                    schema::is_first_match(schemas, spaced, key) && a == (SchemaText {
                        command: path,
                        ..schemas[key]
                    });
                let kb = choose|key: Seq<char>| #[trigger]
                    schema::is_first_match(schemas, spaced, key) && b == (SchemaText {
                        command: path,
                        ..schemas[key]
                    });
                assert(schemas.dom().contains(ka) && schema::path_matches(ka, spaced));
                assert(schemas.dom().contains(kb) && schema::path_matches(kb, spaced));
                ordmap::lemma_text_lt_total(ka, kb);
            },
            (Some(a), None) => {
                let ka = choose|key: Seq<char>| #[trigger]
                    schema::is_first_match(schemas, spaced, key) && a == (SchemaText {
                        command: path,
                        ..schemas[key]
                    });
                assert(schemas.dom().contains(ka));
            },
            (None, Some(b)) => {
                let kb = choose|key: Seq<char>| #[trigger]
                    schema::is_first_match(schemas, spaced, key) && b == (SchemaText {
                        command: path,
                        ..schemas[key]
                    });
                assert(schemas.dom().contains(kb));
            },
            (None, None) => {},
        }
    }
}

/// The command of a spec for the parser, with its output fields in the long
/// help.
pub open spec fn documented_node(
    s: SpecText,
    path: Seq<char>,
    schemas: Map<Seq<char>, SchemaText>,
) -> NodeText {
    match schema_at(schemas, path) {
        None => command::spec_node(s),
        Some(info) => {
            let help = schema::help_section(info.fields);
            let base = if command::long_of(s.long).len() > 0 {
                command::long_of(s.long)
            } else {
                s.short
            };
            if help.len() == 0 {
                command::spec_node(s)
            } else {
                NodeText {
                    long_about: if base.len() == 0 {
                        help
                    } else {
                        base + "\n\n"@ + help
                    },
                    ..command::spec_node(s)
                }
            }
        },
    }
}

/// The commands of a group at `path` for the parser.
pub open spec fn documented_nodes(
    commands: Seq<RuntimeText>,
    path: Seq<Seq<char>>,
    schemas: Map<Seq<char>, SchemaText>,
) -> Seq<NodeText> {
    commands.map_values(
        |c: RuntimeText| documented_node(c.spec, path_of(path, c.spec.name), schemas),
    )
}

/// The command of a group below `path` for the parser: the groups first, then
/// the commands, each with its output fields in the long help.
pub open spec fn tree_node(
    g: TreeText,
    path: Seq<Seq<char>>,
    schemas: Map<Seq<char>, SchemaText>,
) -> NodeText
    decreases g,
{
    let here = path.push(g.head.name);
    groups::head_node(
        g.head,
        tree_nodes(g.groups, here, schemas) + documented_nodes(g.commands, here, schemas),
    )
}

/// The commands of groups below `path` for the parser.
pub open spec fn tree_nodes(
    groups: Seq<TreeText>,
    path: Seq<Seq<char>>,
    schemas: Map<Seq<char>, SchemaText>,
) -> Seq<NodeText>
    decreases groups,
{
    if groups.len() == 0 {
        Seq::empty()
    } else {
        tree_nodes(groups.drop_last(), path, schemas).push(
            tree_node(groups.last(), path, schemas),
        )
    }
}

/// The command of a spec for the parser, with its output fields in the long
/// help.
pub fn command_node_with_schema_help(
    spec: &CommandSpec,
    path: &str,
    schemas: &SchemaRegistry,
) -> (r: CommandNode)
    ensures
        command_tree::node_text(r) == documented_node(spec@, path@, schemas@),
{
    let mut node = spec.node();
    let found = schemas.get_by_path(path);
    proof {
        lemma_schema_at(schemas@, path@, schema::found_text(found));
    }
    match found {
        None => node,
        Some(info) => {
            let help = format_help_section(&info.fields);
            if help.as_str().is_empty() {
                return node;
            }
            let long: String = match &spec.long {
                Some(l) => l.clone(),
                None => String::new(),
            };
            let base = if long.as_str().is_empty() {
                spec.short.clone()
            } else {
                long
            };
            if base.as_str().is_empty() {
                node.long_about = help;
            } else {
                let mut about = base;
                about.append("\n\n");
                about.append(help.as_str());
                node.long_about = about;
            }
            node
        },
    }
}

fn nodes_of_groups(
    children: &Vec<RuntimeGroupSpec>,
    path: &Vec<String>,
    schemas: &SchemaRegistry,
) -> (r: Vec<CommandNode>)
    ensures
        command_tree::node_texts(r@) == tree_nodes(
            groups::tree_texts(children@),
            text::texts(path@),
            schemas@,
        ),
    decreases children,
{
    let ghost all = groups::tree_texts(children@);
    let ghost at = text::texts(path@);
    let mut r: Vec<CommandNode> = Vec::new();
    let mut i: usize = 0;
    proof {
        groups::lemma_tree_texts(children@);
        assert(all.take(0) =~= Seq::empty());
        assert(command_tree::node_texts(r@) =~= Seq::empty());
    }
    while i < children.len()
        invariant
            i <= children@.len(),
            all == groups::tree_texts(children@),
            all.len() == children@.len(),
            at == text::texts(path@),
            command_tree::node_texts(r@) == tree_nodes(all.take(i as int), at, schemas@),
        decreases children@.len() - i,
    {
        let ghost before = r@;
        let node = runtime_group_node_with_schema_help(&children[i], path, schemas);
        r.push(node);
        proof {
            groups::lemma_tree_texts(children@);
            assert(all.take(i + 1).drop_last() =~= all.take(i as int));
            assert(all.take(i + 1).last() == groups::tree_text(children@[i as int]));
            groups::lemma_push_node(before, node);
        }
        i = i + 1;
    }
    proof {
        assert(all.take(i as int) =~= all);
    }
    r
}

/// The command of a group for the parser.
pub fn runtime_group_node_with_schema_help(
    group: &RuntimeGroupSpec,
    prefix: &Vec<String>,
    schemas: &SchemaRegistry,
) -> (r: CommandNode)
    ensures
        command_tree::node_text(r) == tree_node(group@, text::texts(prefix@), schemas@),
    decreases group,
{
    let here = child_path(prefix, &group.group.name);
    let mut children = nodes_of_groups(&group.groups, &here, schemas);
    let ghost first = command_tree::node_texts(children@);
    let ghost all = groups::runtime_texts(group.commands@);
    let ghost at = text::texts(here@);
    let mut i: usize = 0;
    proof {
        assert(first + documented_nodes(all.take(0), at, schemas@) =~= first);
    }
    while i < group.commands.len()
        invariant
            i <= group.commands@.len(),
            all == groups::runtime_texts(group.commands@),
            at == text::texts(here@),
            command_tree::node_texts(children@) == first + documented_nodes(
                all.take(i as int),
                at,
                schemas@,
            ),
        decreases group.commands@.len() - i,
    {
        let ghost before = children@;
        let path = text::join(&child_path(&here, &group.commands[i].spec.name), ":");
        let node = command_node_with_schema_help(
            &group.commands[i].spec,
            path.as_str(),
            schemas,
        );
        children.push(node);
        proof {
            groups::lemma_push_node(before, node);
            assert(first + documented_nodes(all.take(i + 1), at, schemas@) =~= (first
                + documented_nodes(all.take(i as int), at, schemas@)).push(
                documented_node(
                    group.commands@[i as int]@.spec,
                    path_of(at, group.commands@[i as int]@.spec.name),
                    schemas@,
                ),
            ));
        }
        i = i + 1;
    }
    proof {
        assert(all.take(i as int) =~= all);
    }
    bare_group_node(&group.group, children)
}

/// The path of a command is the names that lead to it, with colons between:
/// split there it gives them back.
pub proof fn law_path_gives_the_names_back(path: Seq<Seq<char>>, name: Seq<char>)
    requires
        !name.contains(':'),
        forall|i: int| 0 <= i < path.len() ==> !(#[trigger] path[i]).contains(':'),
    ensures
        text::split_spec(path_of(path, name), ':') == path.push(name),
{
    reveal_strlit(":");
    assert(":"@ =~= seq![':']);
    let all = path.push(name);
    assert forall|i: int| 0 <= i < all.len() implies !(#[trigger] all[i]).contains(':') by {
        if i < path.len() {
            assert(all[i] == path[i]);
        }
    }
    text::law_join_is_undone_by_split(all, ':');
}

/// The commands of a group are registered under the path of the group and their
/// own names, whatever was registered before.
pub proof fn law_group_commands_are_registered(
    m: CommandsText,
    g: TreeText,
    path: Seq<Seq<char>>,
    i: int,
)
    requires
        0 <= i < g.commands.len(),
        forall|j: int|
            i < j < g.commands.len() ==> path_of(
                path.push(g.head.name),
                (#[trigger] g.commands[j]).spec.name,
            ) != path_of(path.push(g.head.name), g.commands[i].spec.name),
    ensures
        ({
            let all = group_added(m, g, path);
            let key = path_of(path.push(g.head.name), g.commands[i].spec.name);
            all.dom().contains(key) && all[key] == g.commands[i]
        }),
{
    let here = path.push(g.head.name);
    law_registered_command_is_found(groups_added(m, g.groups, here), g.commands, here, i);
}

/// Registering commands leaves those under other paths as they are.
pub proof fn law_other_commands_stay(
    m: CommandsText,
    commands: Seq<RuntimeText>,
    path: Seq<Seq<char>>,
    key: Seq<char>,
)
    requires
        forall|i: int|
            0 <= i < commands.len() ==> path_of(path, (#[trigger] commands[i]).spec.name) != key,
    ensures
        commands_added(m, commands, path).dom().contains(key) == m.dom().contains(key),
        m.dom().contains(key) ==> commands_added(m, commands, path)[key] == m[key],
    decreases commands.len(),
{
    if commands.len() > 0 {
        let init = commands.drop_last();
        assert forall|i: int| 0 <= i < init.len() implies path_of(
            path,
            (#[trigger] init[i]).spec.name,
        ) != key by {
            assert(init[i] == commands[i]);
        }
        law_other_commands_stay(m, init, path, key);
        assert(commands[commands.len() - 1] == commands.last());
    }
}

/// A command registers its schema under its path, for that path, and its own
/// columns unless it uses a shared view; what others registered stays.
pub proof fn law_command_registers_its_own(
    r: Registries,
    s: SpecText,
    path: Seq<char>,
    other: Seq<char>,
)
    ensures
        ({
            let after = spec_registered(r, s, path);
            &&& s.output_schema matches Some(info) ==> after.schemas.dom().contains(path)
                && after.schemas[path].command == path && after.schemas[path].fields == info.fields
                && after.schemas[path].schema == info.schema
            &&& s.output_schema is None ==> after.schemas == r.schemas
            &&& s.view_id is None && s.view_columns.len() > 0 ==> after.views.columns.dom().contains(
                path,
            ) && after.views.columns[path] == s.view_columns
            &&& s.view_id is Some || s.view_columns.len() == 0 ==> after.views == r.views
            &&& after.views.custom == r.views.custom
            &&& other != path ==> after.schemas.dom().contains(other) == r.schemas.dom().contains(
                other,
            ) && after.views.columns.dom().contains(other) == r.views.columns.dom().contains(other)
            &&& other != path && r.schemas.dom().contains(other) ==> after.schemas[other]
                == r.schemas[other]
            &&& other != path && r.views.columns.dom().contains(other)
                ==> after.views.columns[other] == r.views.columns[other]
        }),
{
}

/// The command of a spec stays as it is for the parser, but for its longer
/// description, which goes on with its output fields where it has some.
pub proof fn law_documented_command(
    s: SpecText,
    path: Seq<char>,
    schemas: Map<Seq<char>, SchemaText>,
)
    ensures
        ({
            let node = documented_node(s, path, schemas);
            &&& node.name == s.name && node.about == s.short && node.aliases == s.aliases
            &&& node.hidden == s.hidden && node.args == s.args && node.subcommands.len() == 0
            &&& schema_at(schemas, path) is None ==> node.long_about == command::long_of(s.long)
            &&& schema_at(schemas, path) matches Some(info) ==> text::contains_text(
                node.long_about,
                schema::help_section(info.fields),
            ) && (s.long matches Some(l) ==> l.len() > 0 ==> node.long_about.take(l.len() as int)
                == l)
        }),
{
    if schema_at(schemas, path) is Some {
        let info = schema_at(schemas, path)->0;
        let help = schema::help_section(info.fields);
        let long = command::long_of(s.long);
        let base = if long.len() > 0 {
            long
        } else {
            s.short
        };
        let node = documented_node(s, path, schemas);
        if help.len() == 0 {
            text::lemma_part_occurs(Seq::empty(), help, node.long_about);
            assert(Seq::<char>::empty() + help + node.long_about =~= node.long_about);
            assert(node.long_about.take(long.len() as int) =~= long);
        } else if base.len() == 0 {
            text::lemma_part_occurs(Seq::empty(), help, Seq::empty());
            assert(Seq::<char>::empty() + help + Seq::<char>::empty() =~= help);
        } else {
            text::lemma_part_occurs(base + "\n\n"@, help, Seq::empty());
            assert(base + "\n\n"@ + help + Seq::<char>::empty() =~= node.long_about);
            if long.len() > 0 {
                assert(node.long_about.take(long.len() as int) =~= long);
            }
        }
    }
}

/// The parser knows a mounted group by its name, with its groups first and then
/// its commands below it, each under its own name.
pub proof fn law_parser_knows_the_tree(
    g: TreeText,
    path: Seq<Seq<char>>,
    schemas: Map<Seq<char>, SchemaText>,
    i: int,
)
    ensures
        ({
            let node = tree_node(g, path, schemas);
            &&& node.name == g.head.name && node.about == g.head.short && node.hidden
                == g.head.hidden && node.aliases == g.head.aliases
            &&& node.subcommands.len() == g.groups.len() + g.commands.len()
            &&& 0 <= i < g.groups.len() ==> node.subcommands[i].name == g.groups[i].head.name
            &&& 0 <= i < g.commands.len() ==> node.subcommands[g.groups.len() + i].name
                == g.commands[i].spec.name
        }),
{
    let here = path.push(g.head.name);
    lemma_tree_names(g.groups, here, schemas, i);
    if 0 <= i < g.commands.len() {
        law_documented_command(
            g.commands[i].spec,
            path_of(here, g.commands[i].spec.name),
            schemas,
        );
    }
}

proof fn lemma_tree_names(
    groups: Seq<TreeText>,
    path: Seq<Seq<char>>,
    schemas: Map<Seq<char>, SchemaText>,
    i: int,
)
    ensures
        tree_nodes(groups, path, schemas).len() == groups.len(),
        0 <= i < groups.len() ==> tree_nodes(groups, path, schemas)[i].name == groups[i].head.name,
    decreases groups.len(),
{
    reveal_with_fuel(tree_nodes, 2);
    reveal_with_fuel(tree_node, 2);
    if groups.len() > 0 {
        lemma_tree_names(groups.drop_last(), path, schemas, i);
    }
}

/// The schema of each command of a group is found under the path of the command
/// once the group is registered, and says that path.
pub proof fn law_group_registers_its_schemas(
    r: Registries,
    g: TreeText,
    path: Seq<Seq<char>>,
    i: int,
)
    requires
        0 <= i < g.commands.len(),
        g.commands[i].spec.output_schema is Some,
        forall|j: int|
            i < j < g.commands.len() ==> path_of(
                path.push(g.head.name),
                (#[trigger] g.commands[j]).spec.name,
            ) != path_of(path.push(g.head.name), g.commands[i].spec.name),
    ensures
        ({
            let key = path_of(path.push(g.head.name), g.commands[i].spec.name);
            let after = group_registered(r, g, path);
            &&& after.schemas.dom().contains(key)
            &&& after.schemas[key].command == key
            &&& after.schemas[key].fields == g.commands[i].spec.output_schema->0.fields
        }),
{
    let here = path.push(g.head.name);
    lemma_schema_is_registered(groups_registered(r, g.groups, here), g.commands, here, i);
}

proof fn lemma_schema_is_registered(
    r: Registries,
    commands: Seq<RuntimeText>,
    path: Seq<Seq<char>>,
    i: int,
)
    requires
        0 <= i < commands.len(),
        commands[i].spec.output_schema is Some,
        forall|j: int|
            i < j < commands.len() ==> path_of(path, (#[trigger] commands[j]).spec.name)
                != path_of(path, commands[i].spec.name),
    ensures
        ({
            let key = path_of(path, commands[i].spec.name);
            let after = specs_registered(r, commands, path);
            &&& after.schemas.dom().contains(key)
            &&& after.schemas[key].command == key
            &&& after.schemas[key].fields == commands[i].spec.output_schema->0.fields
        }),
    decreases commands.len(),
{
    let init = commands.drop_last();
    let key = path_of(path, commands[i].spec.name);
    law_command_registers_its_own(
        specs_registered(r, init, path),
        commands.last().spec,
        path_of(path, commands.last().spec.name),
        key,
    );
    if i < init.len() {
        assert forall|j: int| i < j < init.len() implies path_of(
            path,
            (#[trigger] init[j]).spec.name,
        ) != path_of(path, init[i].spec.name) by {
            assert(commands[j].spec.name == init[j].spec.name);
        }
        lemma_schema_is_registered(r, init, path, i);
        assert(path_of(path, commands[commands.len() - 1].spec.name) != key);
    }
}

} // verus!
