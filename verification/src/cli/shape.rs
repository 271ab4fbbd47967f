//! The shape of an application: its command tree, its commands and what is
//! registered for them.
use crate::auth::dispatcher::{Dispatcher, ProviderText};
use crate::auth::dispatcher;
use crate::builtin_groups::{
    auth_command_group, config_command_group, env_command_group, flags_command_group,
};
use crate::builtin_groups;
use crate::cli::builtins::{completion_command, guide_command, help_command, tree_command};
use crate::cli::builtins;
use crate::cli::help::{build_root_long, HelpText, ModuleHelpEntry};
use crate::cli::help;
use crate::cli::search::is_builtin_name;
use crate::cli::search;
use crate::command_tree::{has_subcommand, ArgNode, ArgText, CommandNode, NodeText};
use crate::command_tree;
use crate::feature_flags::{FeatureFlag, FlagEntryText, FlagPolicy, FlagRegistry};
use crate::flags::{register_global_flags, register_reason_flag};
use crate::flags;
use crate::groups::mount::{
    command_node_with_schema_help, register_runtime_group_metadata,
    runtime_group_node_with_schema_help, CommandsText, Registries,
};
use crate::groups::mount;
use crate::groups::prune::prune_feature_flag_tree;
use crate::groups::prune;
use crate::groups::{RuntimeCommandSpec, RuntimeGroupSpec, RuntimeText, TreeText};
use crate::groups;
use crate::guide::{GuideEntry, GuideText};
use crate::guide;
use crate::ordmap::{Duplicate, StringMap};
use crate::output::human::{HumanViewRegistry, ViewsText};
use crate::output::schema::{SchemaRegistry, SchemaText};
use crate::text;
use vstd::prelude::*;
use vstd::string::*;

verus! {

/// Default name for the admin help category, under which the engine files its
/// built-in command groups.
pub const DEFAULT_ADMIN_CATEGORY: &'static str = "Admin";

/// What an application is configured to look like.
pub struct ShapeSettings {
    /// Root command name shown in usage output.
    pub name: String,
    /// One-line root command description.
    pub short: String,
    /// Optional longer root command description. Defaults to `short`.
    pub long: Option<String>,
    /// Fallback auth provider when a command does not select one explicitly.
    pub default_auth_provider: String,
    /// Name of the admin help category.
    pub admin_category: Option<String>,
    /// Additional commands mounted as siblings of the built-in `auth` commands.
    pub auth_extra_commands: Vec<RuntimeCommandSpec>,
    /// Which flagged nodes are mounted.
    pub policy: FlagPolicy,
}

/// An application as it is built up.
pub struct CliShape {
    /// What the application is configured to look like.
    pub settings: ShapeSettings,
    /// The command tree.
    pub root: CommandNode,
    /// The commands by their colon-separated paths.
    pub commands: StringMap<RuntimeCommandSpec>,
    /// The rows of the root help.
    pub module_entries: Vec<ModuleHelpEntry>,
    /// The guides.
    pub guide_entries: Vec<GuideEntry>,
    /// The schemas.
    pub schemas: SchemaRegistry,
    /// The views.
    pub views: HumanViewRegistry,
    /// The auth providers.
    pub providers: Dispatcher,
    /// The flagged nodes.
    pub flags: FlagRegistry,
}

/// What an application as it is built up says.
#[verifier::ext_equal]
pub struct ShapeText {
    /// The command tree, but for the long help of the root.
    pub root: NodeText,
    /// The long help of the root.
    pub long: Seq<char>,
    /// The commands by their colon-separated paths.
    pub commands: CommandsText,
    /// The rows of the root help.
    pub entries: Seq<HelpText>,
    /// The guides.
    pub guides: Seq<GuideText>,
    /// The schemas.
    pub schemas: Map<Seq<char>, SchemaText>,
    /// The views.
    pub views: ViewsText,
    /// The auth providers.
    pub providers: Seq<ProviderText>,
    /// The flagged nodes.
    pub flags: Seq<FlagEntryText>,
}

/// A command tree but for the long help of its root.
pub open spec fn root_text(root: CommandNode) -> NodeText {
    NodeText { long_about: Seq::empty(), ..command_tree::node_text(root) }
}

impl View for CliShape {
    type V = ShapeText;

    open spec fn view(&self) -> ShapeText {
        ShapeText {
            root: root_text(self.root),
            long: self.root.long_about@,
            commands: mount::commands_text(self.commands@),
            entries: help::help_texts(self.module_entries@),
            guides: guide::guide_texts(self.guide_entries@),
            schemas: self.schemas@,
            views: self.views@,
            providers: self.providers@,
            flags: self.flags@,
        }
    }
}

/// What the root help starts with: the long description, else the short one.
pub open spec fn intro_of(s: ShapeSettings) -> Seq<char> {
    match s.long {
        Some(l) => if l@.len() > 0 {
            l@
        } else {
            s.short@
        },
        None => s.short@,
    }
}

/// The admin help category.
pub open spec fn category_of(s: ShapeSettings) -> Seq<char> {
    match s.admin_category {
        Some(c) => c@,
        None => DEFAULT_ADMIN_CATEGORY@,
    }
}

/// One of the commands has the name.
pub open spec fn has_named(subs: Seq<NodeText>, name: Seq<char>) -> bool {
    exists|i: int| 0 <= i < subs.len() && (#[trigger] subs[i]).name == name
}

/// One of the rows has the name.
pub open spec fn is_listed(entries: Seq<HelpText>, name: Seq<char>) -> bool {
    exists|i: int| 0 <= i < entries.len() && (#[trigger] entries[i]).name == name
}

/// The rows for visible commands that are neither built in nor listed.
pub open spec fn generic_rows(subs: Seq<NodeText>, entries: Seq<HelpText>) -> Seq<HelpText>
    decreases subs.len(),
{
    if subs.len() == 0 {
        Seq::empty()
    } else {
        let before = generic_rows(subs.drop_last(), entries);
        let c = subs.last();
        if !c.hidden && !search::is_builtin(c.name) && !is_listed(entries, c.name) {
            before.push(HelpText { category: "Commands"@, name: c.name, short: c.about })
        } else {
            before
        }
    }
}

/// The long help of the root says what the application holds: its rows, every
/// other visible command, and whether there are guides.
pub open spec fn is_fresh(s: ShapeSettings, a: ShapeText) -> bool {
    help::is_root_long(
        a.long,
        intro_of(s),
        a.entries + generic_rows(a.root.subcommands, a.entries),
        a.guides.len() > 0 || has_named(a.root.subcommands, "guide"@),
    )
}

/// The application with another command tree and the same long help.
pub open spec fn with_subcommand(a: ShapeText, node: NodeText) -> ShapeText {
    ShapeText {
        root: NodeText { subcommands: a.root.subcommands.push(node), ..a.root },
        ..a
    }
}

/// The application with a top-level command.
pub open spec fn command_added(a: ShapeText, c: RuntimeText) -> ShapeText {
    let schemas = match c.spec.output_schema {
        Some(info) => a.schemas.insert(
            c.spec.name,
            SchemaText { command: c.spec.name, ..info },
        ),
        None => a.schemas,
    };
    ShapeText {
        commands: a.commands.insert(c.spec.name, c),
        schemas,
        ..with_subcommand(a, mount::documented_node(c.spec, c.spec.name, schemas))
    }
}

/// The commands without the first that has the name.
pub open spec fn without_named(subs: Seq<NodeText>, name: Seq<char>) -> Seq<NodeText>
    decreases subs.len(),
{
    if subs.len() == 0 {
        subs
    } else if subs[0].name == name {
        subs.skip(1)
    } else {
        seq![subs[0]] + without_named(subs.skip(1), name)
    }
}

/// A group is mounted: its schemas and views where `registers`, its commands,
/// and its command in the tree, in place of the one with its name where
/// `replaces`.
pub open spec fn mounted(
    a: ShapeText,
    g: TreeText,
    registers: bool,
    replaces: bool,
) -> ShapeText {
    let before = Registries { schemas: a.schemas, views: a.views };
    let after = if registers {
        mount::group_registered(before, g, Seq::empty())
    } else {
        before
    };
    let subs = if replaces {
        without_named(a.root.subcommands, g.head.name)
    } else {
        a.root.subcommands
    };
    ShapeText {
        root: NodeText {
            subcommands: subs.push(mount::tree_node(g, Seq::empty(), after.schemas)),
            ..a.root
        },
        commands: mount::group_added(a.commands, g, Seq::empty()),
        schemas: after.schemas,
        views: after.views,
        ..a
    }
}

/// The application with one more row in the root help.
pub open spec fn with_row(
    a: ShapeText,
    category: Seq<char>,
    name: Seq<char>,
    short: Seq<char>,
) -> ShapeText {
    ShapeText { entries: a.entries.push(HelpText { category, name, short }), ..a }
}

/// The application with one more row, unless the name is listed.
pub open spec fn with_new_row(
    a: ShapeText,
    category: Seq<char>,
    name: Seq<char>,
    short: Seq<char>,
) -> ShapeText {
    if is_listed(a.entries, name) {
        a
    } else {
        with_row(a, category, name, short)
    }
}

/// The two differ in the long help of the root at most.
pub open spec fn same_but_long(a: ShapeText, b: ShapeText) -> bool {
    a == (ShapeText { long: a.long, ..b })
}

/// What a flag says.
pub open spec fn flag_of(f: Option<FeatureFlag>) -> Option<prune::FlagText> {
    crate::feature_flags::flag_text(f)
}

/// The application after a module group was added: nothing changes for a
/// reserved name, and a group that its flags prune away is only recorded.
pub open spec fn is_group_added(
    s: ShapeSettings,
    before: ShapeText,
    after: ShapeText,
    category: Seq<char>,
    g: TreeText,
    inherited: Option<prune::FlagText>,
) -> bool {
    let p = prune::prune_group(g, inherited, prune::policy_text(s.policy), Seq::empty());
    let recorded = ShapeText { flags: before.flags + p.records, ..before };
    if search::is_builtin(g.head.name) {
        after == before
    } else {
        match p.kept {
            None => after == recorded,
            Some(kept) => {
                let listed = if kept.head.hidden {
                    recorded
                } else {
                    with_row(recorded, category, kept.head.name, kept.head.short)
                };
                same_but_long(after, mounted(listed, kept, true, false)) && is_fresh(s, after)
            },
        }
    }
}

proof fn lemma_named(nodes: Seq<CommandNode>, name: Seq<char>)
    ensures
        (exists|i: int| 0 <= i < nodes.len() && (#[trigger] nodes[i]).name@ == name) <==> has_named(
            command_tree::node_texts(nodes),
            name,
        ),
{
    command_tree::lemma_node_texts(nodes);
    let texts = command_tree::node_texts(nodes);
    if exists|i: int| 0 <= i < nodes.len() && (#[trigger] nodes[i]).name@ == name {
        let i = choose|i: int| 0 <= i < nodes.len() && (#[trigger] nodes[i]).name@ == name;
        assert(texts[i].name == name);
    }
    if has_named(texts, name) {
        let i = choose|i: int| 0 <= i < texts.len() && (#[trigger] texts[i]).name == name;
        assert(texts[i] == command_tree::node_text(nodes[i]));
        assert(nodes[i].name@ == name);
    }
}

fn has_name(root: &CommandNode, name: &str) -> (r: bool)
    ensures
        r == has_named(root_text(*root).subcommands, name@),
{
    proof {
        lemma_named(root.subcommands@, name@);
    }
    has_subcommand(root, name)
}

fn lists_name(entries: &Vec<ModuleHelpEntry>, name: &str) -> (r: bool)
    ensures
        r == is_listed(help::help_texts(entries@), name@),
{
    let mut i: usize = 0;
    while i < entries.len()
        invariant
            i <= entries@.len(),
            forall|k: int| 0 <= k < i ==> (#[trigger] entries@[k]).name@ != name@,
        decreases entries@.len() - i,
    {
        if text::str_eq(entries[i].name.as_str(), name) {
            assert(help::help_texts(entries@)[i as int].name == name@);
            return true;
        }
        i = i + 1;
    }
    proof {
        let rows = help::help_texts(entries@);
        assert forall|k: int| 0 <= k < rows.len() implies (#[trigger] rows[k]).name != name@ by {
            assert(entries@[k].name@ != name@);
        }
    }
    false
}

fn no_path() -> (r: Vec<String>)
    ensures
        text::texts(r@) == Seq::<Seq<char>>::empty(),
{
    let r: Vec<String> = Vec::new();
    assert(text::texts(r@) =~= Seq::<Seq<char>>::empty());
    r
}

fn remove_named(given: Vec<CommandNode>, name: &str) -> (r: Vec<CommandNode>)
    ensures
        command_tree::node_texts(r@) == without_named(command_tree::node_texts(given@), name@),
{
    let mut nodes = given;
    let ghost all = command_tree::node_texts(nodes@);
    let mut i: usize = 0;
    proof {
        command_tree::lemma_node_texts(nodes@);
        assert(all.skip(0) =~= all);
        assert(without_named(all, name@) =~= all.take(0) + without_named(all.skip(0), name@));
    }
    while i < nodes.len()
        invariant
            i <= nodes@.len(),
            all == command_tree::node_texts(given@),
            all == command_tree::node_texts(nodes@),
            all.len() == nodes@.len(),
            without_named(all, name@) == all.take(i as int) + without_named(
                all.skip(i as int),
                name@,
            ),
        decreases nodes@.len() - i,
    {
        proof {
            command_tree::lemma_node_texts(nodes@);
            assert(all.skip(i as int)[0] == command_tree::node_text(nodes@[i as int]));
            assert(all.skip(i as int).skip(1) =~= all.skip(i + 1));
        }
        if text::str_eq(nodes[i].name.as_str(), name) {
            let ghost before = nodes@;
            let _ = nodes.remove(i);
            proof {
                command_tree::lemma_node_texts(nodes@);
                assert(command_tree::node_texts(nodes@) =~= all.take(i as int) + all.skip(i + 1))
                    by {
                    assert(nodes@ =~= before.remove(i as int));
                }
            }
            return nodes;
        }
        proof {
            assert(all.take(i as int) + (seq![all.skip(i as int)[0]] + without_named(
                all.skip(i + 1),
                name@,
            )) =~= all.take(i + 1) + without_named(all.skip(i + 1), name@));
        }
        i = i + 1;
    }
    proof {
        assert(all.skip(i as int) =~= Seq::empty());
        assert(all.take(i as int) + without_named(all.skip(i as int), name@) =~= all);
    }
    nodes
}

impl CliShape {
    /// The category under which the engine files its own groups.
    fn admin_category(&self) -> (r: String)
        ensures
            r@ == category_of(self.settings),
    {
        match &self.settings.admin_category {
            Some(c) => c.clone(),
            None => DEFAULT_ADMIN_CATEGORY.to_owned(),
        }
    }

    /// Writes the long help of the root anew.
    ///
    /// It lists the rows of modules, plus any visible top-level command that is
    /// neither listed nor an engine built-in, under a generic "Commands" section.
    /// This keeps every command discoverable.
    pub fn refresh_root_long(&mut self)
        ensures
            final(self).settings == old(self).settings,
            same_but_long(final(self)@, old(self)@),
            is_fresh(final(self).settings, final(self)@),
    {
        let mut entries: Vec<ModuleHelpEntry> = Vec::new();
        let ghost rows = help::help_texts(self.module_entries@);
        let mut i: usize = 0;
        while i < self.module_entries.len()
            invariant
                i <= self.module_entries@.len(),
                entries@.len() == i,
                forall|k: int|
                    0 <= k < i ==> (#[trigger] entries@[k])@ == self.module_entries@[k]@,
            decreases self.module_entries@.len() - i,
        {
            entries.push(self.module_entries[i].copy());
            i = i + 1;
        }
        let ghost subs = root_text(self.root).subcommands;
        let mut j: usize = 0;
        proof {
            command_tree::lemma_node_texts(self.root.subcommands@);
            assert(subs.take(0) =~= Seq::empty());
            assert(help::help_texts(entries@) =~= rows + generic_rows(subs.take(0), rows));
        }
        while j < self.root.subcommands.len()
            invariant
                j <= self.root.subcommands@.len(),
                rows == help::help_texts(self.module_entries@),
                subs == command_tree::node_texts(self.root.subcommands@),
                subs.len() == self.root.subcommands@.len(),
                help::help_texts(entries@) == rows + generic_rows(subs.take(j as int), rows),
            decreases self.root.subcommands@.len() - j,
        {
            let ghost before = entries@;
            let c = &self.root.subcommands[j];
            proof {
                command_tree::lemma_node_texts(self.root.subcommands@);
                assert(subs.take(j + 1).drop_last() =~= subs.take(j as int));
                assert(subs.take(j + 1).last() == command_tree::node_text(*c));
            }
            if !c.hidden && !is_builtin_name(c.name.as_str()) && !lists_name(
                &self.module_entries,
                c.name.as_str(),
            ) {
                let row = ModuleHelpEntry {
                    category: "Commands".to_owned(),
                    name: c.name.clone(),
                    short: c.about.clone(),
                };
                entries.push(row);
                proof {
                    assert(help::help_texts(entries@) =~= help::help_texts(before).push(row@));
                    assert(rows + generic_rows(subs.take(j + 1), rows) =~= (rows + generic_rows(
                        subs.take(j as int),
                        rows,
                    )).push(row@));
                }
            }
            j = j + 1;
        }
        proof {
            assert(subs.take(j as int) =~= subs);
        }
        let has_guide = self.guide_entries.len() > 0 || has_name(&self.root, "guide");
        let intro: String = match &self.settings.long {
            Some(l) => {
                if l.as_str().is_empty() {
                    self.settings.short.clone()
                } else {
                    l.clone()
                }
            },
            None => self.settings.short.clone(),
        };
        let long = build_root_long(intro.as_str(), &entries, has_guide);
        self.root.long_about = long;
    }

    /// Mounts a group.
    fn mount(&mut self, group: &RuntimeGroupSpec, registers: bool, replaces: bool)
        ensures
            final(self).settings == old(self).settings,
            final(self)@ == mounted(old(self)@, group@, registers, replaces),
    {
        let ghost before = self@;
        let prefix = no_path();
        if registers {
            register_runtime_group_metadata(group, &prefix, &mut self.schemas, &mut self.views);
        }
        group.register_commands(&prefix, &mut self.commands);
        let node = runtime_group_node_with_schema_help(group, &prefix, &self.schemas);
        let mut subs: Vec<CommandNode> = Vec::new();
        std::mem::swap(&mut subs, &mut self.root.subcommands);
        let mut subs = if replaces {
            remove_named(subs, group.group.name.as_str())
        } else {
            subs
        };
        let ghost rest = subs@;
        subs.push(node);
        self.root.subcommands = subs;
        proof {
            groups::lemma_push_node(rest, node);
            assert(self@ =~= mounted(before, group@, registers, replaces));
        }
    }

    /// Adds one runtime module group. `inherited` is the flag of the module it
    /// belongs to, if that has one.
    ///
    /// A group whose name is reserved for an engine built-in is not registered.
    pub fn add_module_group(
        &mut self,
        category: String,
        group: RuntimeGroupSpec,
        inherited: Option<FeatureFlag>,
    )
        ensures
            final(self).settings == old(self).settings,
            is_group_added(
                old(self).settings,
                old(self)@,
                final(self)@,
                category@,
                group@,
                flag_of(inherited),
            ),
    {
        if is_builtin_name(group.group.name.as_str()) {
            return;
        }
        let flag = match &inherited {
            Some(f) => Some(f),
            None => None,
        };
        let prefix = no_path();
        let kept = match prune_feature_flag_tree(
            group,
            flag,
            &self.settings.policy,
            &prefix,
            &mut self.flags,
        ) {
            None => {
                return;
            },
            Some(g) => g,
        };
        if !kept.group.hidden {
            let ghost before = self.module_entries@;
            let row = ModuleHelpEntry {
                category,
                name: kept.group.name.clone(),
                short: kept.group.short.clone(),
            };
            self.module_entries.push(row);
            assert(help::help_texts(self.module_entries@) =~= help::help_texts(before).push(row@));
        }
        self.mount(&kept, true, false);
        self.refresh_root_long();
    }

    /// Adds one top-level runtime command.
    pub fn add_command(&mut self, command: RuntimeCommandSpec)
        ensures
            final(self).settings == old(self).settings,
            final(self)@ == command_added(old(self)@, command@),
    {
        let ghost before = self@;
        let ghost subs = self.root.subcommands@;
        let ghost commands = self.commands@;
        match &command.spec.output_schema {
            Some(info) => {
                self.schemas.register_info(command.spec.name.clone(), info.duplicate());
            },
            None => {},
        }
        let node = command_node_with_schema_help(
            &command.spec,
            command.spec.name.as_str(),
            &self.schemas,
        );
        self.commands.insert(command.spec.name.clone(), command);
        self.root.subcommands.push(node);
        proof {
            groups::lemma_push_node(subs, node);
            assert(mount::commands_text(self.commands@) =~= mount::commands_text(commands).insert(
                command@.spec.name,
                command@,
            ));
        }
    }
}

/// The guides after others were added: of guides with the same name the first
/// stays.
pub open spec fn guides_added(guides: Seq<GuideText>, more: Seq<GuideText>) -> Seq<GuideText>
    decreases more.len(),
{
    if more.len() == 0 {
        guides
    } else {
        let before = guides_added(guides, more.drop_last());
        if guide::topics(before).contains(more.last().name) {
            before
        } else {
            before.push(more.last())
        }
    }
}

/// The application with the command `guide` in its tree, if it has guides.
pub open spec fn with_guide_command(a: ShapeText) -> ShapeText {
    if a.guides.len() > 0 && !has_named(a.root.subcommands, "guide"@) {
        with_subcommand(a, builtins::guide_node())
    } else {
        a
    }
}

/// The application with the command `guide` in its tree, if it is advertised and
/// no guide has brought it yet.
pub open spec fn with_guide_advertised(a: ShapeText, has_guide: bool) -> ShapeText {
    if has_guide && a.guides.len() == 0 && !has_named(a.root.subcommands, "guide"@) {
        with_subcommand(a, builtins::guide_node())
    } else {
        a
    }
}

/// The command goes by the name.
pub open spec fn goes_by(n: NodeText, name: Seq<char>) -> bool {
    n.name == name || n.aliases.contains(name)
}

/// The first command that goes by the name.
pub open spec fn first_by_name(subs: Seq<NodeText>, name: Seq<char>) -> Option<NodeText>
    decreases subs.len(),
{
    if subs.len() == 0 {
        None
    } else if goes_by(subs[0], name) {
        Some(subs[0])
    } else {
        first_by_name(subs.skip(1), name)
    }
}

/// The application with a row for its command `auth`, if that is visible and
/// not listed.
pub open spec fn with_auth_row(s: ShapeSettings, a: ShapeText) -> ShapeText {
    match first_by_name(a.root.subcommands, "auth"@) {
        Some(auth) => if auth.hidden {
            a
        } else {
            with_new_row(a, category_of(s), "auth"@, auth.about)
        },
        None => a,
    }
}

/// The provider that is used where none is named: the configured one, else the
/// first that is registered.
pub open spec fn default_provider_spec(s: ShapeSettings, a: ShapeText) -> Seq<char> {
    builtin_groups::effective_default(
        s.default_auth_provider@,
        dispatcher::provider_names(a.providers),
    )
}

/// The names of commands.
pub open spec fn command_names(commands: Seq<RuntimeText>) -> Seq<Seq<char>> {
    commands.map_values(|c: RuntimeText| c.spec.name)
}

/// The commands with others behind them, but for those whose name is taken.
pub open spec fn with_extras(commands: Seq<RuntimeText>, extras: Seq<RuntimeText>) -> Seq<
    RuntimeText,
>
    decreases extras.len(),
{
    if extras.len() == 0 {
        commands
    } else {
        let before = with_extras(commands, extras.drop_last());
        if command_names(before).contains(extras.last().spec.name) {
            before
        } else {
            before.push(extras.last())
        }
    }
}

/// The group `auth` with the additional commands of the application.
pub open spec fn full_auth_tree(s: ShapeSettings, a: ShapeText) -> TreeText {
    let names = dispatcher::provider_names(a.providers);
    let tree = builtin_groups::auth_tree(default_provider_spec(s, a), names);
    TreeText {
        commands: with_extras(tree.commands, groups::runtime_texts(s.auth_extra_commands@)),
        ..tree
    }
}

/// The application after its command `auth` was ensured: nothing changes without
/// providers, nor where the application has a command `auth` of its own.
pub open spec fn is_auth_ensured(s: ShapeSettings, before: ShapeText, after: ShapeText) -> bool {
    let replaces = before.commands.dom().contains("auth:login"@);
    if (default_provider_spec(s, before).len() == 0 && before.providers.len() == 0) || (has_named(
        before.root.subcommands,
        "auth"@,
    ) && !replaces) {
        after == before
    } else {
        same_but_long(
            after,
            with_auth_row(s, mounted(before, full_auth_tree(s, before), true, replaces)),
        ) && is_fresh(s, after)
    }
}

/// The application after its command `auth` was ensured and the long help of the
/// root was written anew.
pub open spec fn is_auth_ensured_anew(
    s: ShapeSettings,
    before: ShapeText,
    after: ShapeText,
) -> bool {
    exists|ensured: ShapeText| #[trigger]
        is_auth_ensured(s, before, ensured) && same_but_long(after, ensured)
}

/// The application after a built-in group was ensured: nothing changes where it
/// has a command with that name.
pub open spec fn is_ensured(
    s: ShapeSettings,
    before: ShapeText,
    after: ShapeText,
    g: TreeText,
) -> bool {
    if has_named(before.root.subcommands, g.head.name) {
        after == before
    } else {
        same_but_long(
            after,
            with_new_row(
                mounted(before, g, false, false),
                category_of(s),
                g.head.name,
                g.head.short,
            ),
        ) && is_fresh(s, after)
    }
}

/// The flag that selects the environment.
pub open spec fn env_flag() -> ArgText {
    ArgText {
        value_name: Some("ENV"@),
        ..flags::global_flag("env"@, "Override the active environment (see: env list)"@)
    }
}

/// The flags of the root: the framework's, those of the application, and the
/// ones for a reason and for the environment where they are used.
pub open spec fn root_args(
    extra: Seq<ArgText>,
    with_reason: bool,
    with_env: bool,
) -> Seq<ArgText> {
    flags::global_flag_list() + extra + (if with_reason {
        seq![flags::reason_flag()]
    } else {
        Seq::empty()
    }) + (if with_env {
        seq![env_flag()]
    } else {
        Seq::empty()
    })
}

/// The command tree of an application that nothing was added to.
pub open spec fn bare_root(
    s: ShapeSettings,
    extra: Seq<ArgText>,
    with_reason: bool,
    with_env: bool,
) -> NodeText {
    NodeText {
        args: root_args(extra, with_reason, with_env),
        subcommands: seq![
            builtins::help_node(),
            builtins::guide_node(),
            builtins::tree_command_node(),
            builtins::completion_node(),
        ],
        ..command_tree::bare_node(s.name@, s.short@)
    }
}

fn known_topic(entries: &Vec<GuideEntry>, name: &str) -> (r: bool)
    ensures
        r == guide::topics(guide::guide_texts(entries@)).contains(name@),
{
    let ghost topics = guide::topics(guide::guide_texts(entries@));
    let mut i: usize = 0;
    while i < entries.len()
        invariant
            i <= entries@.len(),
            topics == guide::topics(guide::guide_texts(entries@)),
            forall|k: int| 0 <= k < i ==> #[trigger] topics[k] != name@,
        decreases entries@.len() - i,
    {
        assert(topics[i as int] == entries@[i as int].name@);
        if text::str_eq(entries[i].name.as_str(), name) {
            return true;
        }
        i = i + 1;
    }
    false
}

impl CliShape {
    /// An application that nothing was added to.
    pub fn new(
        settings: ShapeSettings,
        extra_flags: Vec<ArgNode>,
        with_reason: bool,
        with_env: bool,
        schemas: SchemaRegistry,
        views: HumanViewRegistry,
    ) -> (r: Self)
        ensures
            r.settings == settings,
            r@.root == bare_root(
                settings,
                command_tree::arg_texts(extra_flags@),
                with_reason,
                with_env,
            ),
            help::is_root_long(r@.long, intro_of(settings), Seq::empty(), false),
            r@.commands == Map::<Seq<char>, RuntimeText>::empty(),
            r@.entries.len() == 0,
            r@.guides.len() == 0,
            r@.schemas == schemas@,
            r@.views == views@,
            r@.providers.len() == 0,
            r@.flags.len() == 0,
    {
        let root = CommandNode::new(settings.name.clone(), settings.short.clone());
        let ghost first = root;
        let mut root = register_global_flags(root);
        let mut extra = extra_flags;
        root.args.append(&mut extra);
        assert(command_tree::arg_texts(root.args@) =~= flags::global_flag_list()
            + command_tree::arg_texts(extra_flags@));
        let mut root = if with_reason {
            register_reason_flag(root)
        } else {
            root
        };
        let ghost sofar = command_tree::arg_texts(root.args@);
        if with_env {
            let mut env = ArgNode::new("env", "Override the active environment (see: env list)");
            env.long = Some("env".to_owned());
            env.global = true;
            env.value_name = Some("ENV".to_owned());
            root.args.push(env);
            assert(env@ =~= env_flag());
            assert(command_tree::arg_texts(root.args@) =~= sofar.push(env_flag()));
        }
        assert(command_tree::arg_texts(root.args@) =~= root_args(
            command_tree::arg_texts(extra_flags@),
            with_reason,
            with_env,
        ));
        root.subcommands.push(help_command());
        root.subcommands.push(guide_command());
        root.subcommands.push(tree_command());
        root.subcommands.push(completion_command());
        let intro: String = match &settings.long {
            Some(l) => {
                if l.as_str().is_empty() {
                    settings.short.clone()
                } else {
                    l.clone()
                }
            },
            None => settings.short.clone(),
        };
        let none: Vec<ModuleHelpEntry> = Vec::new();
        assert(help::help_texts(none@) =~= Seq::empty());
        root.long_about = build_root_long(intro.as_str(), &none, false);
        let r = CliShape {
            settings,
            root,
            commands: StringMap::new(),
            module_entries: Vec::new(),
            guide_entries: Vec::new(),
            schemas,
            views,
            providers: Dispatcher::new(),
            flags: FlagRegistry::new(),
        };
        proof {
            let bare = bare_root(
                settings,
                command_tree::arg_texts(extra_flags@),
                with_reason,
                with_env,
            );
            assert(text::texts(root.aliases@) =~= Seq::empty());
            assert(root.short_flag_aliases@ =~= Seq::empty());
            assert(text::texts(root.long_flag_aliases@) =~= Seq::empty());
            command_tree::lemma_node_texts(root.subcommands@);
            assert(r@.root.subcommands =~= bare.subcommands);
            assert(r@.commands =~= Map::<Seq<char>, RuntimeText>::empty());
        }
        r
    }

    /// Adds guide entries.
    pub fn add_guides(&mut self, entries: &Vec<GuideEntry>)
        ensures
            final(self).settings == old(self).settings,
            ({
                let added = ShapeText {
                    guides: guides_added(old(self)@.guides, guide::guide_texts(entries@)),
                    ..old(self)@
                };
                same_but_long(final(self)@, with_guide_command(added)) && is_fresh(
                    final(self).settings,
                    final(self)@,
                )
            }),
    {
        let ghost first = self@;
        let ghost more = guide::guide_texts(entries@);
        let mut i: usize = 0;
        proof {
            assert(more.take(0) =~= Seq::empty());
        }
        while i < entries.len()
            invariant
                i <= entries@.len(),
                more == guide::guide_texts(entries@),
                self.settings == old(self).settings,
                self@ == (ShapeText {
                    guides: guides_added(first.guides, more.take(i as int)),
                    ..first
                }),
            decreases entries@.len() - i,
        {
            proof {
                assert(more.take(i + 1).drop_last() =~= more.take(i as int));
                assert(more.take(i + 1).last() == entries@[i as int]@);
            }
            if !known_topic(&self.guide_entries, entries[i].name.as_str()) {
                let ghost before = self.guide_entries@;
                let e = entries[i].copy();
                self.guide_entries.push(e);
                assert(guide::guide_texts(self.guide_entries@) =~= guide::guide_texts(
                    before,
                ).push(e@));
            }
            i = i + 1;
        }
        proof {
            assert(more.take(i as int) =~= more);
        }
        if self.guide_entries.len() > 0 && !has_name(&self.root, "guide") {
            self.push_node(guide_command());
        }
        self.refresh_root_long();
    }

    fn push_node(&mut self, node: CommandNode)
        ensures
            final(self).settings == old(self).settings,
            final(self)@ == with_subcommand(old(self)@, command_tree::node_text(node)),
    {
        let ghost subs = self.root.subcommands@;
        self.root.subcommands.push(node);
        proof {
            groups::lemma_push_node(subs, node);
        }
    }

    /// Controls whether the built-in `guide` command is advertised.
    pub fn set_has_guide(&mut self, has_guide: bool)
        ensures
            final(self).settings == old(self).settings,
            same_but_long(final(self)@, with_guide_advertised(old(self)@, has_guide)),
            is_fresh(final(self).settings, final(self)@),
    {
        if has_guide && self.guide_entries.len() == 0 && !has_name(&self.root, "guide") {
            self.push_node(guide_command());
        }
        self.refresh_root_long();
    }

    fn add_row(&mut self, category: String, name: &str, short: &str)
        ensures
            final(self).settings == old(self).settings,
            final(self)@ == with_new_row(old(self)@, category@, name@, short@),
    {
        if !lists_name(&self.module_entries, name) {
            let ghost before = self.module_entries@;
            let row = ModuleHelpEntry {
                category,
                name: name.to_owned(),
                short: short.to_owned(),
            };
            self.module_entries.push(row);
            assert(help::help_texts(self.module_entries@) =~= help::help_texts(before).push(row@));
        }
    }

    /// Mounts a built-in group and files it under the admin help category.
    /// Yields to a command of the application with the same name.
    fn ensure_group(&mut self, group: &RuntimeGroupSpec)
        ensures
            final(self).settings == old(self).settings,
            is_ensured(old(self).settings, old(self)@, final(self)@, group@),
    {
        if has_name(&self.root, group.group.name.as_str()) {
            return;
        }
        self.mount(group, false, false);
        let category = self.admin_category();
        self.add_row(category, group.group.name.as_str(), group.group.short.as_str());
        self.refresh_root_long();
    }

    /// Mounts the built-in `config` command group.
    pub fn ensure_config_command(&mut self)
        ensures
            final(self).settings == old(self).settings,
            is_ensured(
                old(self).settings,
                old(self)@,
                final(self)@,
                builtin_groups::config_tree(),
            ),
    {
        self.ensure_group(&config_command_group());
    }

    /// Mounts the built-in `env` command group.
    pub fn ensure_env_command(&mut self)
        ensures
            final(self).settings == old(self).settings,
            is_ensured(
                old(self).settings,
                old(self)@,
                final(self)@,
                builtin_groups::env_tree(),
            ),
    {
        self.ensure_group(&env_command_group());
    }

    /// Mounts the built-in `flags` command group.
    pub fn ensure_flags_command(&mut self)
        ensures
            final(self).settings == old(self).settings,
            is_ensured(
                old(self).settings,
                old(self)@,
                final(self)@,
                builtin_groups::flags_tree(),
            ),
    {
        self.ensure_group(&flags_command_group());
    }

    /// The provider that is used where none is named.
    pub fn default_auth_provider(&self) -> (r: String)
        ensures
            r@ == default_provider_spec(self.settings, self@),
    {
        let names = self.providers.registered_names();
        builtin_groups::effective_default_provider(
            self.settings.default_auth_provider.as_str(),
            &names,
        )
    }

    fn find_about(&self, name: &str) -> (r: Option<(bool, String)>)
        ensures
            match r {
                Some((hidden, about)) => first_by_name(self@.root.subcommands, name@) matches Some(
                    n,
                ) && n.hidden == hidden && n.about == about@,
                None => first_by_name(self@.root.subcommands, name@) is None,
            },
    {
        let ghost subs = self@.root.subcommands;
        let mut i: usize = 0;
        proof {
            command_tree::lemma_node_texts(self.root.subcommands@);
            assert(subs.skip(0) =~= subs);
        }
        while i < self.root.subcommands.len()
            invariant
                i <= self.root.subcommands@.len(),
                subs == command_tree::node_texts(self.root.subcommands@),
                subs == self@.root.subcommands,
                subs.len() == self.root.subcommands@.len(),
                first_by_name(subs, name@) == first_by_name(subs.skip(i as int), name@),
            decreases self.root.subcommands@.len() - i,
        {
            proof {
                command_tree::lemma_node_texts(self.root.subcommands@);
                assert(subs.skip(i as int)[0] == command_tree::node_text(
                    self.root.subcommands@[i as int],
                ));
                assert(subs.skip(i as int).skip(1) =~= subs.skip(i + 1));
            }
            if self.root.subcommands[i].goes_by(name) {
                return Some(
                    (self.root.subcommands[i].hidden, self.root.subcommands[i].about.clone()),
                );
            }
            i = i + 1;
        }
        None
    }

    /// Mounts the built-in `auth` command group, with the additional commands of
    /// the application whose names are not taken.
    pub fn ensure_auth_command(&mut self)
        ensures
            final(self).settings == old(self).settings,
            is_auth_ensured(old(self).settings, old(self)@, final(self)@),
    {
        let default_provider = self.default_auth_provider();
        let names = self.providers.registered_names();
        assert(text::texts(names@).len() == names@.len());
        if default_provider.as_str().is_empty() && names.len() == 0 {
            return;
        }
        let replaces = self.commands.contains_key("auth:login");
        assert(mount::commands_text(self.commands@).dom() =~= self.commands@.dom());
        if has_name(&self.root, "auth") && !replaces {
            return;
        }
        let ghost first = self@;
        let ghost s = self.settings;
        let mut group = auth_command_group(default_provider.as_str(), &names);
        let ghost tree = group@;
        let ghost extras = groups::runtime_texts(self.settings.auth_extra_commands@);
        let mut i: usize = 0;
        proof {
            assert(extras.take(0) =~= Seq::empty());
        }
        while i < self.settings.auth_extra_commands.len()
            invariant
                i <= self.settings.auth_extra_commands@.len(),
                extras == groups::runtime_texts(self.settings.auth_extra_commands@),
                group@ == (TreeText {
                    commands: with_extras(tree.commands, extras.take(i as int)),
                    ..tree
                }),
            decreases self.settings.auth_extra_commands@.len() - i,
        {
            proof {
                assert(extras.take(i + 1).drop_last() =~= extras.take(i as int));
                assert(extras.take(i + 1).last()
                    == self.settings.auth_extra_commands@[i as int]@);
            }
            let extra = &self.settings.auth_extra_commands[i];
            if !has_command(&group.commands, extra.spec.name.as_str()) {
                group = group.with_command(extra.copy());
            }
            i = i + 1;
        }
        proof {
            assert(extras.take(i as int) =~= extras);
        }
        self.mount(&group, true, replaces);
        match self.find_about("auth") {
            Some((hidden, about)) => {
                if !hidden {
                    let category = self.admin_category();
                    self.add_row(category, "auth", about.as_str());
                }
            },
            None => {},
        }
        self.refresh_root_long();
    }

    /// Registers an auth provider.
    pub fn register_auth_provider(&mut self, name: String, provider: u64)
        ensures
            final(self).settings == old(self).settings,
            is_auth_ensured_anew(
                old(self).settings,
                ShapeText {
                    providers: dispatcher::registered(old(self)@.providers, name@, provider),
                    ..old(self)@
                },
                final(self)@,
            ),
            is_fresh(final(self).settings, final(self)@),
    {
        let ghost first = self@;
        self.providers.register(name, provider);
        let ghost registered = self@;
        self.ensure_auth_command();
        let ghost ensured = self@;
        self.refresh_root_long();
        assert(is_auth_ensured(old(self).settings, registered, ensured));
    }
}

fn has_command(commands: &Vec<RuntimeCommandSpec>, name: &str) -> (r: bool)
    ensures
        r == command_names(groups::runtime_texts(commands@)).contains(name@),
{
    let ghost names = command_names(groups::runtime_texts(commands@));
    let mut i: usize = 0;
    while i < commands.len()
        invariant
            i <= commands@.len(),
            names == command_names(groups::runtime_texts(commands@)),
            forall|k: int| 0 <= k < i ==> #[trigger] names[k] != name@,
        decreases commands@.len() - i,
    {
        assert(names[i as int] == commands@[i as int].spec.name@);
        if text::str_eq(commands[i].spec.name.as_str(), name) {
            return true;
        }
        i = i + 1;
    }
    false
}

/// A group with the name of an engine built-in never gets into the tree.
pub proof fn law_builtin_names_are_reserved(
    s: ShapeSettings,
    before: ShapeText,
    after: ShapeText,
    category: Seq<char>,
    g: TreeText,
    inherited: Option<prune::FlagText>,
)
    requires
        search::is_builtin(g.head.name),
        is_group_added(s, before, after, category, g, inherited),
    ensures
        after == before,
{
}

/// Ensuring a built-in group twice is the same as ensuring it once.
pub proof fn law_ensuring_is_idempotent(
    s: ShapeSettings,
    a: ShapeText,
    b: ShapeText,
    c: ShapeText,
    g: TreeText,
)
    requires
        is_ensured(s, a, b, g),
        is_ensured(s, b, c, g),
    ensures
        c == b,
{
    if !has_named(a.root.subcommands, g.head.name) {
        let subs = b.root.subcommands;
        let i = a.root.subcommands.len() as int;
        assert(subs[i].name == g.head.name);
        assert(has_named(subs, g.head.name));
    }
}

/// The built-in `auth` commands keep their names whatever commands an
/// application adds beside them.
pub proof fn law_extras_never_replace(commands: Seq<RuntimeText>, extras: Seq<RuntimeText>, i: int)
    requires
        0 <= i < commands.len(),
    ensures
        i < with_extras(commands, extras).len(),
        with_extras(commands, extras)[i] == commands[i],
    decreases extras.len(),
{
    if extras.len() > 0 {
        law_extras_never_replace(commands, extras.drop_last(), i);
    }
}

/// A guide that is there stays, whatever guides are added later.
pub proof fn law_first_guide_wins(guides: Seq<GuideText>, more: Seq<GuideText>, i: int)
    requires
        0 <= i < guides.len(),
    ensures
        i < guides_added(guides, more).len(),
        guides_added(guides, more)[i] == guides[i],
    decreases more.len(),
{
    if more.len() > 0 {
        law_first_guide_wins(guides, more.drop_last(), i);
    }
}

/// A group of a module that its flags keep is mounted last, under its own name,
/// and listed in its category unless it is hidden. What was there before stays.
pub proof fn law_kept_group_is_mounted(
    s: ShapeSettings,
    before: ShapeText,
    after: ShapeText,
    category: Seq<char>,
    g: TreeText,
    inherited: Option<prune::FlagText>,
    kept: TreeText,
    i: int,
)
    requires
        is_group_added(s, before, after, category, g, inherited),
        !search::is_builtin(g.head.name),
        prune::prune_group(g, inherited, prune::policy_text(s.policy), Seq::empty()).kept == Some(
            kept,
        ),
    ensures
        after.root.subcommands.len() == before.root.subcommands.len() + 1,
        after.root.subcommands.last().name == kept.head.name,
        after.root.subcommands.drop_last() == before.root.subcommands,
        kept.head.hidden ==> after.entries == before.entries,
        !kept.head.hidden ==> after.entries.len() == before.entries.len() + 1
            && after.entries.last().category == category && after.entries.last().name
            == kept.head.name && after.entries.last().short == kept.head.short,
        after.commands == mount::group_added(before.commands, kept, Seq::empty()),
        after.guides == before.guides,
        after.providers == before.providers,
        0 <= i < before.flags.len() ==> after.flags[i] == before.flags[i],
{
    let p = prune::prune_group(g, inherited, prune::policy_text(s.policy), Seq::empty());
    mount::law_parser_knows_the_tree(kept, Seq::empty(), after.schemas, 0);
    assert(after.root.subcommands.drop_last() =~= before.root.subcommands);
}

/// A group that its flags prune away changes neither the commands nor the help,
/// and is only recorded.
pub proof fn law_pruned_group_is_only_recorded(
    s: ShapeSettings,
    before: ShapeText,
    after: ShapeText,
    category: Seq<char>,
    g: TreeText,
    inherited: Option<prune::FlagText>,
)
    requires
        is_group_added(s, before, after, category, g, inherited),
        !search::is_builtin(g.head.name),
        prune::prune_group(g, inherited, prune::policy_text(s.policy), Seq::empty()).kept is None,
    ensures
        after.root == before.root,
        after.commands == before.commands,
        after.entries == before.entries,
        after.long == before.long,
        after.flags == before.flags + prune::prune_group(
            g,
            inherited,
            prune::policy_text(s.policy),
            Seq::empty(),
        ).records,
{
}

/// A top-level command is known under its own name, to the dispatch and to the
/// parser; the others stay.
pub proof fn law_top_level_command_is_known(a: ShapeText, c: RuntimeText, other: Seq<char>)
    ensures
        ({
            let b = command_added(a, c);
            &&& b.commands.dom().contains(c.spec.name) && b.commands[c.spec.name] == c
            &&& other != c.spec.name ==> b.commands.dom().contains(other)
                == a.commands.dom().contains(other)
            &&& other != c.spec.name && a.commands.dom().contains(other) ==> b.commands[other]
                == a.commands[other]
            &&& b.root.subcommands.len() == a.root.subcommands.len() + 1
            &&& b.root.subcommands.last().name == c.spec.name
            &&& b.root.subcommands.drop_last() == a.root.subcommands
            &&& c.spec.output_schema is Some ==> b.schemas.dom().contains(c.spec.name)
                && b.schemas[c.spec.name].command == c.spec.name
            &&& b.guides == a.guides && b.providers == a.providers && b.entries == a.entries
        }),
{
    let b = command_added(a, c);
    mount::law_documented_command(c.spec, c.spec.name, b.schemas);
    assert(b.root.subcommands.drop_last() =~= a.root.subcommands);
}

/// Every visible command that is neither built in nor listed gets a row in the
/// help of the root, and no other does.
pub proof fn law_unlisted_commands_get_a_row(
    subs: Seq<NodeText>,
    c: NodeText,
    entries: Seq<HelpText>,
)
    ensures
        c.hidden || search::is_builtin(c.name) || is_listed(entries, c.name) ==> generic_rows(
            subs.push(c),
            entries,
        ) == generic_rows(subs, entries),
        !c.hidden && !search::is_builtin(c.name) && !is_listed(entries, c.name) ==> generic_rows(
            subs.push(c),
            entries,
        ) == generic_rows(subs, entries).push(
            HelpText { category: "Commands"@, name: c.name, short: c.about },
        ),
        generic_rows(Seq::empty(), entries).len() == 0,
{
    assert(subs.push(c).drop_last() =~= subs);
}

/// A built-in group that is wanted gets into the tree under its name, with its
/// commands; a command of that name that is there already stays instead.
pub proof fn law_builtin_group_is_mounted(
    s: ShapeSettings,
    before: ShapeText,
    after: ShapeText,
    g: TreeText,
)
    requires
        is_ensured(s, before, after, g),
    ensures
        has_named(after.root.subcommands, g.head.name),
        has_named(before.root.subcommands, g.head.name) ==> after == before,
        !has_named(before.root.subcommands, g.head.name) ==> {
            &&& after.root.subcommands.drop_last() == before.root.subcommands
            &&& after.root.subcommands.last().name == g.head.name
            &&& after.commands == mount::group_added(before.commands, g, Seq::empty())
            &&& is_listed(after.entries, g.head.name)
        },
{
    if !has_named(before.root.subcommands, g.head.name) {
        let subs = after.root.subcommands;
        mount::law_parser_knows_the_tree(g, Seq::empty(), before.schemas, 0);
        assert(subs.drop_last() =~= before.root.subcommands);
        assert(subs[subs.len() - 1].name == g.head.name);
        if !is_listed(before.entries, g.head.name) {
            assert(after.entries[after.entries.len() - 1].name == g.head.name);
        }
    }
}

/// Without a provider there is no command `auth`, an `auth` of the application
/// stays, and else the built-in one gets into the tree.
pub proof fn law_auth_is_mounted_with_a_provider(
    s: ShapeSettings,
    before: ShapeText,
    after: ShapeText,
)
    requires
        is_auth_ensured(s, before, after),
    ensures
        s.default_auth_provider@.len() == 0 && before.providers.len() == 0 ==> after == before,
        has_named(before.root.subcommands, "auth"@) && !before.commands.dom().contains(
            "auth:login"@,
        ) ==> after == before,
        before.providers.len() > 0 && !has_named(before.root.subcommands, "auth"@) ==> has_named(
            after.root.subcommands,
            "auth"@,
        ),
        after.providers == before.providers,
        after.guides == before.guides,
{
    let tree = full_auth_tree(s, before);
    assert(tree.head.name == "auth"@);
    if before.providers.len() > 0 && !has_named(before.root.subcommands, "auth"@) {
        let m = mounted(before, tree, true, before.commands.dom().contains("auth:login"@));
        mount::law_parser_knows_the_tree(tree, Seq::empty(), m.schemas, 0);
        let subs = after.root.subcommands;
        assert(subs == m.root.subcommands);
        assert(subs[subs.len() - 1].name == "auth"@);
    }
}

/// Taking a command out by its name takes the first with that name, and leaves
/// all others in their order.
pub proof fn law_first_of_the_name_is_taken_out(
    before: Seq<NodeText>,
    c: NodeText,
    behind: Seq<NodeText>,
)
    requires
        forall|i: int| 0 <= i < before.len() ==> (#[trigger] before[i]).name != c.name,
    ensures
        without_named(before + seq![c] + behind, c.name) == before + behind,
        without_named(before, c.name) == before,
    decreases before.len(),
{
    let all = before + seq![c] + behind;
    if before.len() == 0 {
        assert(all[0] == c);
        assert(all.skip(1) =~= before + behind);
    } else {
        let rest = before.skip(1);
        assert forall|i: int| 0 <= i < rest.len() implies (#[trigger] rest[i]).name != c.name by {
            assert(rest[i] == before[i + 1]);
        }
        law_first_of_the_name_is_taken_out(rest, c, behind);
        assert(all[0] == before[0]);
        assert(all.skip(1) =~= rest + seq![c] + behind);
        assert(seq![before[0]] + (rest + behind) =~= before + behind);
        assert(seq![before[0]] + rest =~= before);
    }
}

/// The help of the root begins with the longer description where there is one,
/// and else with the short one.
pub proof fn law_intro(s: ShapeSettings)
    ensures
        s.long matches Some(l) ==> (l@.len() > 0 ==> intro_of(s) == l@),
        s.long is None ==> intro_of(s) == s.short@,
        s.admin_category matches Some(c) ==> category_of(s) == c@,
        s.admin_category is None ==> category_of(s) == DEFAULT_ADMIN_CATEGORY@,
{
}

/// The root has the flags of the framework, then those of the application; it
/// has one for a reason and one for the environment exactly where they are
/// used.
pub proof fn law_root_flags(extra: Seq<ArgText>, with_reason: bool, with_env: bool, i: int)
    ensures
        ({
            let all = root_args(extra, with_reason, with_env);
            let n = flags::global_flag_list().len();
            &&& 0 <= i < n ==> all[i] == flags::global_flag_list()[i]
            &&& 0 <= i < extra.len() ==> all[n + i] == extra[i]
            &&& with_reason ==> all[(n + extra.len()) as int].long == Some("reason"@)
            &&& with_env ==> all.last().long == Some("env"@)
            &&& all.len() == n + extra.len() + (if with_reason {
                1int
            } else {
                0
            }) + (if with_env {
                1int
            } else {
                0
            })
        }),
{
}

/// An application that nothing was added to has its own name and the built-in
/// commands.
pub proof fn law_bare_root(
    s: ShapeSettings,
    extra: Seq<ArgText>,
    with_reason: bool,
    with_env: bool,
)
    ensures
        bare_root(s, extra, with_reason, with_env).name == s.name@,
        bare_root(s, extra, with_reason, with_env).about == s.short@,
        forall|i: int|
            0 <= i < bare_root(s, extra, with_reason, with_env).subcommands.len()
                ==> search::is_builtin(
                (#[trigger] bare_root(s, extra, with_reason, with_env).subcommands[i]).name,
            ),
        has_named(bare_root(s, extra, with_reason, with_env).subcommands, "help"@),
        has_named(bare_root(s, extra, with_reason, with_env).subcommands, "tree"@),
        has_named(bare_root(s, extra, with_reason, with_env).subcommands, "guide"@),
        has_named(bare_root(s, extra, with_reason, with_env).subcommands, "completion"@),
{
    let subs = bare_root(s, extra, with_reason, with_env).subcommands;
    assert(subs[0].name == "help"@);
    assert(subs[1].name == "guide"@);
    assert(subs[2].name == "tree"@);
    assert(subs[3].name == "completion"@);
}

/// A guide with a new name is added, behind those that are there.
pub proof fn law_new_guide_is_added(guides: Seq<GuideText>, more: Seq<GuideText>, g: GuideText)
    ensures
        !guide::topics(guides_added(guides, more)).contains(g.name) ==> guides_added(
            guides,
            more.push(g),
        ) == guides_added(guides, more).push(g),
        guide::topics(guides_added(guides, more)).contains(g.name) ==> guides_added(
            guides,
            more.push(g),
        ) == guides_added(guides, more),
{
    assert(more.push(g).drop_last() =~= more);
}

/// An additional `auth` command with a name of its own is added.
pub proof fn law_new_auth_command_is_added(
    commands: Seq<RuntimeText>,
    extras: Seq<RuntimeText>,
    c: RuntimeText,
)
    ensures
        !command_names(with_extras(commands, extras)).contains(c.spec.name) ==> with_extras(
            commands,
            extras.push(c),
        ) == with_extras(commands, extras).push(c),
        command_names(with_extras(commands, extras)).contains(c.spec.name) ==> with_extras(
            commands,
            extras.push(c),
        ) == with_extras(commands, extras),
{
    assert(extras.push(c).drop_last() =~= extras);
}

/// The help of the root shows every listed row, and every other visible command.
pub proof fn law_help_shows_every_command(s: ShapeSettings, a: ShapeText, k: int)
    requires
        is_fresh(s, a),
    ensures
        0 <= k < a.entries.len() ==> text::contains_text(a.long, a.entries[k].short)
            && text::contains_text(a.long, a.entries[k].category + ":"@),
        0 <= k < a.root.subcommands.len() && !a.root.subcommands[k].hidden && !search::is_builtin(
            a.root.subcommands[k].name,
        ) && !is_listed(a.entries, a.root.subcommands[k].name) ==> text::contains_text(
            a.long,
            a.root.subcommands[k].about,
        ),
{
    let rows = a.entries + generic_rows(a.root.subcommands, a.entries);
    let has_guide = a.guides.len() > 0 || has_named(a.root.subcommands, "guide"@);
    if 0 <= k < a.entries.len() {
        assert(rows[k] == a.entries[k]);
        lemma_row_is_shown(a.long, intro_of(s), rows, has_guide, k);
    }
    if 0 <= k < a.root.subcommands.len() && !a.root.subcommands[k].hidden && !search::is_builtin(
        a.root.subcommands[k].name,
    ) && !is_listed(a.entries, a.root.subcommands[k].name) {
        let more = generic_rows(a.root.subcommands, a.entries);
        lemma_generic_row(a.root.subcommands, a.entries, k);
        let i = choose|i: int|
            0 <= i < more.len() && (#[trigger] more[i]).short == a.root.subcommands[k].about;
        assert(rows[a.entries.len() + i] == more[i]);
        lemma_row_is_shown(a.long, intro_of(s), rows, has_guide, a.entries.len() + i);
    }
}

proof fn lemma_row_is_shown(
    long: Seq<char>,
    intro: Seq<char>,
    rows: Seq<HelpText>,
    has_guide: bool,
    k: int,
)
    requires
        help::is_root_long(long, intro, rows, has_guide),
        0 <= k < rows.len(),
    ensures
        text::contains_text(long, rows[k].short),
        text::contains_text(long, rows[k].category + ":"@),
{
    help::law_root_long_shows_every_row(long, intro, rows, has_guide, k);
    let lead = "\n    "@ + text::pad_spec(rows[k].name, text::max_bytes(help::names(rows))) + "  "@;
    let line = lead + rows[k].short;
    assert(line == "\n    "@ + text::pad_spec(rows[k].name, text::max_bytes(help::names(rows)))
        + "  "@ + rows[k].short);
    let i = choose|i: int| text::occurs_at(long, line, i);
    let at: int = i + lead.len();
    assert(long.subrange(i, i + line.len()) == line);
    assert(long.subrange(at, at + rows[k].short.len()) =~= line.skip(lead.len() as int));
    assert(line.skip(lead.len() as int) =~= rows[k].short);
    assert(text::occurs_at(long, rows[k].short, at));
}

proof fn lemma_generic_row(subs: Seq<NodeText>, entries: Seq<HelpText>, k: int)
    requires
        0 <= k < subs.len(),
        !subs[k].hidden,
        !search::is_builtin(subs[k].name),
        !is_listed(entries, subs[k].name),
    ensures
        exists|i: int|
            0 <= i < generic_rows(subs, entries).len() && (#[trigger] generic_rows(
                subs,
                entries,
            )[i]).short == subs[k].about,
    decreases subs.len(),
{
    let before = generic_rows(subs.drop_last(), entries);
    let all = generic_rows(subs, entries);
    if k < subs.len() - 1 {
        lemma_generic_row(subs.drop_last(), entries, k);
        let i = choose|i: int|
            0 <= i < before.len() && (#[trigger] before[i]).short == subs[k].about;
        assert(all[i] == before[i]);
    } else {
        assert(all[all.len() - 1].short == subs[k].about);
    }
}

/// Guides bring the command `guide` into the tree, and without guides it is not
/// brought.
pub proof fn law_guides_bring_their_command(a: ShapeText)
    ensures
        a.guides.len() > 0 ==> has_named(with_guide_command(a).root.subcommands, "guide"@),
        a.guides.len() == 0 ==> with_guide_command(a) == a,
        has_named(a.root.subcommands, "guide"@) ==> with_guide_command(a) == a,
        with_guide_command(a).guides == a.guides,
        with_guide_command(a).commands == a.commands,
{
    if a.guides.len() > 0 && !has_named(a.root.subcommands, "guide"@) {
        let subs = with_guide_command(a).root.subcommands;
        assert(subs[subs.len() - 1].name == "guide"@);
    }
}

/// Advertising guides brings the command `guide`, once; not advertising them
/// changes nothing.
pub proof fn law_guides_are_advertised(a: ShapeText)
    ensures
        a.guides.len() == 0 ==> has_named(with_guide_advertised(a, true).root.subcommands, "guide"@),
        with_guide_advertised(a, false) == a,
        has_named(a.root.subcommands, "guide"@) ==> with_guide_advertised(a, true) == a,
{
    if a.guides.len() == 0 && !has_named(a.root.subcommands, "guide"@) {
        let subs = with_guide_advertised(a, true).root.subcommands;
        assert(subs[subs.len() - 1].name == "guide"@);
    }
}

/// A visible command `auth` is listed in the admin category, a hidden one is
/// not.
pub proof fn law_auth_is_listed(s: ShapeSettings, a: ShapeText, auth: NodeText)
    requires
        first_by_name(a.root.subcommands, "auth"@) == Some(auth),
    ensures
        auth.hidden ==> with_auth_row(s, a) == a,
        !auth.hidden ==> is_listed(with_auth_row(s, a).entries, "auth"@),
        !auth.hidden && !is_listed(a.entries, "auth"@) ==> with_auth_row(s, a).entries.last()
            == (HelpText { category: category_of(s), name: "auth"@, short: auth.about }),
        with_auth_row(s, a).root == a.root,
{
    if !auth.hidden && !is_listed(a.entries, "auth"@) {
        let rows = with_auth_row(s, a).entries;
        assert(rows[rows.len() - 1].name == "auth"@);
    }
}

/// A built-in `auth` that is there already is replaced, so that the tree holds
/// as many commands as before.
pub proof fn law_auth_is_replaced(s: ShapeSettings, before: ShapeText, after: ShapeText)
    requires
        is_auth_ensured(s, before, after),
        before.providers.len() > 0,
        has_named(before.root.subcommands, "auth"@),
        before.commands.dom().contains("auth:login"@),
    ensures
        after.root.subcommands.len() == before.root.subcommands.len(),
        after.root.subcommands.last().name == "auth"@,
{
    let tree = full_auth_tree(s, before);
    assert(tree.head.name == "auth"@);
    let m = mounted(before, tree, true, true);
    mount::law_parser_knows_the_tree(tree, Seq::empty(), m.schemas, 0);
    lemma_one_less(before.root.subcommands, "auth"@);
    assert(after.root.subcommands == m.root.subcommands);
}

proof fn lemma_one_less(subs: Seq<NodeText>, name: Seq<char>)
    requires
        has_named(subs, name),
    ensures
        without_named(subs, name).len() == subs.len() - 1,
    decreases subs.len(),
{
    let i = choose|i: int| 0 <= i < subs.len() && (#[trigger] subs[i]).name == name;
    if subs[0].name != name {
        let rest = subs.skip(1);
        assert(rest[i - 1].name == name);
        lemma_one_less(rest, name);
    }
}

} // verus!
