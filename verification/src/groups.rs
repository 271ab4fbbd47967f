//! Groups of commands: their declaration, how flags prune them, and what they
//! register.
pub mod mount;
pub mod prune;

use crate::command::{CommandSpec, SpecText};
use crate::command;
use crate::command_tree::{CommandNode, NodeText};
use crate::command_tree;
use crate::error;
use crate::feature_flags::{FeatureFlag, Stage};
use crate::feature_flags;
use crate::ordmap::Duplicate;
use crate::text;
use vstd::prelude::*;
use vstd::string::*;

verus! {

/// Declarative command group metadata.
///
/// Groups are noun-based containers. They do not run business logic directly;
/// when invoked bare, the CLI renders group help.
pub struct GroupSpec {
    /// Group command name.
    pub name: String,
    /// One-line group description.
    pub short: String,
    /// Optional long help text.
    pub long: Option<String>,
    /// Alternate group names accepted by the parser.
    pub aliases: Vec<String>,
    /// Whether the group runs but is hidden from discovery output.
    pub hidden: bool,
    /// Flag that decides whether the group is mounted.
    pub feature_flag: Option<FeatureFlag>,
    /// Declarative child commands used for static tree construction.
    pub commands: Vec<CommandSpec>,
    /// Declarative nested groups used for static tree construction.
    pub groups: Vec<GroupSpec>,
}

/// What a group says of itself, without its children.
#[verifier::ext_equal]
pub struct HeadText {
    /// Group command name.
    pub name: Seq<char>,
    /// One-line group description.
    pub short: Seq<char>,
    /// Optional long help text.
    pub long: Option<Seq<char>>,
    /// Alternate group names.
    pub aliases: Seq<Seq<char>>,
    /// Whether the group is hidden.
    pub hidden: bool,
    /// Flag that decides whether the group is mounted.
    pub feature_flag: Option<(Seq<char>, Stage)>,
}

/// What a group with its declarative children says.
pub struct GroupText {
    /// The group itself.
    pub head: HeadText,
    /// Child commands.
    pub commands: Seq<SpecText>,
    /// Nested groups.
    pub groups: Seq<GroupText>,
}

/// What a group says of itself.
pub open spec fn head_text(g: GroupSpec) -> HeadText {
    HeadText {
        name: g.name@,
        short: g.short@,
        long: error::opt_text(g.long),
        aliases: text::texts(g.aliases@),
        hidden: g.hidden,
        feature_flag: feature_flags::flag_text(g.feature_flag),
    }
}

/// What the specs of a list say.
pub open spec fn spec_texts(commands: Seq<CommandSpec>) -> Seq<SpecText> {
    commands.map_values(|c: CommandSpec| c@)
}

/// What a group with its declarative children says.
pub open spec fn group_text(g: GroupSpec) -> GroupText
    decreases g,
{
    GroupText {
        head: head_text(g),
        commands: spec_texts(g.commands@),
        groups: group_texts(g.groups@),
    }
}

/// What the groups of a list say.
pub open spec fn group_texts(groups: Seq<GroupSpec>) -> Seq<GroupText>
    decreases groups,
{
    if groups.len() == 0 {
        Seq::empty()
    } else {
        group_texts(groups.drop_last()).push(group_text(groups.last()))
    }
}

impl View for GroupSpec {
    type V = GroupText;

    open spec fn view(&self) -> GroupText {
        group_text(*self)
    }
}

/// A group with nothing but its name and one-line help.
pub open spec fn bare_head(name: Seq<char>, short: Seq<char>) -> HeadText {
    HeadText {
        name,
        short,
        long: None,
        aliases: Seq::empty(),
        hidden: false,
        feature_flag: None,
    }
}

/// The command of a group for the parser, with its children.
pub open spec fn head_node(h: HeadText, children: Seq<NodeText>) -> NodeText {
    NodeText {
        long_about: command::long_of(h.long),
        aliases: h.aliases,
        hidden: h.hidden,
        subcommands: children,
        ..command_tree::bare_node(h.name, h.short)
    }
}

/// The commands of specs for the parser.
pub open spec fn spec_nodes(commands: Seq<SpecText>) -> Seq<NodeText> {
    commands.map_values(|c: SpecText| command::spec_node(c))
}

/// The command of a declarative group for the parser: the groups first, then
/// the commands.
pub open spec fn group_node(g: GroupText) -> NodeText
    decreases g,
{
    head_node(g.head, group_nodes(g.groups) + spec_nodes(g.commands))
}

/// The commands of declarative groups for the parser.
pub open spec fn group_nodes(groups: Seq<GroupText>) -> Seq<NodeText>
    decreases groups,
{
    if groups.len() == 0 {
        Seq::empty()
    } else {
        group_nodes(groups.drop_last()).push(group_node(groups.last()))
    }
}

/// The command of a group for the parser, without children.
pub(crate) fn bare_group_node(g: &GroupSpec, children: Vec<CommandNode>) -> (r: CommandNode)
    ensures
        command_tree::node_text(r) == head_node(
            head_text(*g),
            command_tree::node_texts(children@),
        ),
{
    let r = CommandNode {
        name: g.name.clone(),
        about: g.short.clone(),
        long_about: match &g.long {
            Some(l) => l.clone(),
            None => String::new(),
        },
        hidden: g.hidden,
        aliases: text::clone_strings(&g.aliases),
        short_flag_aliases: Vec::new(),
        long_flag_aliases: Vec::new(),
        args: Vec::new(),
        subcommands: children,
    };
    proof {
        assert(r.short_flag_aliases@ =~= Seq::empty());
        assert(text::texts(r.long_flag_aliases@) =~= Seq::empty());
        assert(command_tree::arg_texts(r.args@) =~= Seq::empty());
    }
    r
}

/// A longer list of commands says more by one.
pub proof fn lemma_push_node(nodes: Seq<CommandNode>, node: CommandNode)
    ensures
        command_tree::node_texts(nodes.push(node)) == command_tree::node_texts(nodes).push(
            command_tree::node_text(node),
        ),
{
    assert(nodes.push(node).drop_last() =~= nodes);
}

impl GroupSpec {
    /// Creates a command group with the required name and one-line help.
    pub fn new(name: String, short: String) -> (r: Self)
        ensures
            r@ == (GroupText {
                head: bare_head(name@, short@),
                commands: Seq::empty(),
                groups: Seq::empty(),
            }),
    {
        let r = GroupSpec {
            name,
            short,
            long: None,
            aliases: Vec::new(),
            hidden: false,
            feature_flag: None,
            commands: Vec::new(),
            groups: Vec::new(),
        };
        assert(r@.head =~= bare_head(name@, short@));
        assert(r@.commands =~= Seq::empty());
        assert(r@.groups =~= Seq::empty());
        r
    }

    /// Sets expanded group help.
    pub fn with_long(self, long: String) -> (r: Self)
        ensures
            r@ == (GroupText { head: HeadText { long: Some(long@), ..self@.head }, ..self@ }),
    {
        let mut r = self;
        r.long = Some(long);
        r
    }

    /// Adds one group alias.
    pub fn with_alias(self, alias: String) -> (r: Self)
        ensures
            r@ == (GroupText {
                head: HeadText { aliases: self@.head.aliases.push(alias@), ..self@.head },
                ..self@
            }),
    {
        let mut r = self;
        r.aliases.push(alias);
        assert(r@.head.aliases =~= self@.head.aliases.push(alias@));
        r
    }

    /// Hides or shows this group in discovery output.
    pub fn hidden(self, hidden: bool) -> (r: Self)
        ensures
            r@ == (GroupText { head: HeadText { hidden, ..self@.head }, ..self@ }),
    {
        let mut r = self;
        r.hidden = hidden;
        r
    }

    /// Declares the feature flag of this group.
    pub fn with_feature_flag(self, key: String, stage: Stage) -> (r: Self)
        ensures
            r@ == (GroupText {
                head: HeadText { feature_flag: Some((key@, stage)), ..self@.head },
                ..self@
            }),
    {
        let mut r = self;
        r.feature_flag = Some(FeatureFlag::new(key, stage));
        r
    }

    /// Adds one declarative child command.
    pub fn with_command(self, command: CommandSpec) -> (r: Self)
        ensures
            r@ == (GroupText { commands: self@.commands.push(command@), ..self@ }),
    {
        let mut r = self;
        r.commands.push(command);
        assert(r@.commands =~= self@.commands.push(command@));
        r
    }

    /// Adds one declarative nested group.
    pub fn with_group(self, group: GroupSpec) -> (r: Self)
        ensures
            r@ == (GroupText { groups: self@.groups.push(group@), ..self@ }),
    {
        let mut r = self;
        let ghost before = r.groups@;
        r.groups.push(group);
        assert(r.groups@.drop_last() =~= before);
        r
    }

    /// Builds the command for parser registration.
    pub fn node(&self) -> (r: CommandNode)
        ensures
            command_tree::node_text(r) == group_node(self@),
        decreases self,
    {
        let mut children: Vec<CommandNode> = Vec::new();
        let mut i: usize = 0;
        proof {
            assert(self.groups@.take(0) =~= Seq::empty());
            assert(command_tree::node_texts(children@) =~= group_nodes(
                group_texts(self.groups@.take(0)),
            ));
        }
        while i < self.groups.len()
            invariant
                i <= self.groups@.len(),
                command_tree::node_texts(children@) == group_nodes(
                    group_texts(self.groups@.take(i as int)),
                ),
            decreases self.groups@.len() - i,
        {
            let ghost before = children@;
            let child = self.groups[i].node();
            children.push(child);
            proof {
                lemma_push_node(before, child);
                let all = self.groups@.take(i + 1);
                assert(all.drop_last() =~= self.groups@.take(i as int));
                assert(group_texts(all).drop_last() =~= group_texts(
                    self.groups@.take(i as int),
                ));
            }
            i = i + 1;
        }
        proof {
            assert(self.groups@.take(i as int) =~= self.groups@);
        }
        let ghost groups = command_tree::node_texts(children@);
        let mut j: usize = 0;
        proof {
            assert(groups =~= groups + spec_nodes(spec_texts(self.commands@.take(0))));
        }
        while j < self.commands.len()
            invariant
                j <= self.commands@.len(),
                command_tree::node_texts(children@) == groups + spec_nodes(
                    spec_texts(self.commands@.take(j as int)),
                ),
            decreases self.commands@.len() - j,
        {
            let ghost before = children@;
            let child = self.commands[j].node();
            children.push(child);
            proof {
                lemma_push_node(before, child);
                assert(groups + spec_nodes(spec_texts(self.commands@.take(j + 1))) =~= (groups
                    + spec_nodes(spec_texts(self.commands@.take(j as int)))).push(
                    command::spec_node(self.commands@[j as int]@),
                ));
            }
            j = j + 1;
        }
        proof {
            assert(self.commands@.take(j as int) =~= self.commands@);
        }
        bare_group_node(self, children)
    }
}

/// Executable leaf command.
///
/// `RuntimeCommandSpec` pairs a [`CommandSpec`] with the number of its business
/// logic. This split keeps metadata inspectable for help/search/schema
/// generation before the handler ever runs.
pub struct RuntimeCommandSpec {
    /// Declarative command metadata.
    pub spec: CommandSpec,
    /// Number of the command implementation.
    pub handler: u64,
    /// Whether the implementation emits events instead of one result.
    pub streaming: bool,
}

/// What an executable command says.
#[verifier::ext_equal]
pub struct RuntimeText {
    /// Declarative command metadata.
    pub spec: SpecText,
    /// Number of the command implementation.
    pub handler: u64,
    /// Whether the implementation emits events.
    pub streaming: bool,
}

impl View for RuntimeCommandSpec {
    type V = RuntimeText;

    open spec fn view(&self) -> RuntimeText {
        RuntimeText { spec: self.spec@, handler: self.handler, streaming: self.streaming }
    }
}

impl Duplicate for RuntimeCommandSpec {
    open spec fn says_same(self, other: Self) -> bool {
        self@ == other@
    }

    fn duplicate(&self) -> (r: Self) {
        self.copy()
    }
}

impl RuntimeCommandSpec {
    /// Creates a runtime command whose implementation gives one result.
    pub fn new(spec: CommandSpec, handler: u64) -> (r: Self)
        ensures
            r@ == (RuntimeText { spec: spec@, handler, streaming: false }),
    {
        RuntimeCommandSpec { spec, handler, streaming: false }
    }

    /// Creates a streaming command that emits events.
    pub fn new_streaming(spec: CommandSpec, handler: u64) -> (r: Self)
        ensures
            r@ == (RuntimeText { spec: spec@, handler, streaming: true }),
    {
        RuntimeCommandSpec { spec, handler, streaming: true }
    }

    /// Copies the command.
    pub fn copy(&self) -> (r: Self)
        ensures
            r@ == self@,
    {
        RuntimeCommandSpec {
            spec: self.spec.copy(),
            handler: self.handler,
            streaming: self.streaming,
        }
    }
}

/// Executable command group with runtime children.
pub struct RuntimeGroupSpec {
    /// Declarative group metadata.
    pub group: GroupSpec,
    /// Executable leaf commands under this group.
    pub commands: Vec<RuntimeCommandSpec>,
    /// Executable nested groups under this group.
    pub groups: Vec<RuntimeGroupSpec>,
}

/// What an executable group says.
pub struct TreeText {
    /// The group itself.
    pub head: HeadText,
    /// Executable leaf commands.
    pub commands: Seq<RuntimeText>,
    /// Executable nested groups.
    pub groups: Seq<TreeText>,
}

/// What the executable commands of a list say.
pub open spec fn runtime_texts(commands: Seq<RuntimeCommandSpec>) -> Seq<RuntimeText> {
    commands.map_values(|c: RuntimeCommandSpec| c@)
}

/// What an executable group says.
pub open spec fn tree_text(g: RuntimeGroupSpec) -> TreeText
    decreases g,
{
    TreeText {
        head: head_text(g.group),
        commands: runtime_texts(g.commands@),
        groups: tree_texts(g.groups@),
    }
}

/// What the executable groups of a list say.
pub open spec fn tree_texts(groups: Seq<RuntimeGroupSpec>) -> Seq<TreeText>
    decreases groups,
{
    if groups.len() == 0 {
        Seq::empty()
    } else {
        tree_texts(groups.drop_last()).push(tree_text(groups.last()))
    }
}

/// The texts of a list of groups, one by one.
pub proof fn lemma_tree_texts(groups: Seq<RuntimeGroupSpec>)
    ensures
        tree_texts(groups).len() == groups.len(),
        forall|i: int| 0 <= i < groups.len() ==> #[trigger] tree_texts(groups)[i] == tree_text(groups[i]),
    decreases groups.len(),
{
    if groups.len() > 0 {
        lemma_tree_texts(groups.drop_last());
    }
}

impl View for RuntimeGroupSpec {
    type V = TreeText;

    open spec fn view(&self) -> TreeText {
        tree_text(*self)
    }
}

/// Copies a group without its children.
pub(crate) fn copy_head(g: &GroupSpec) -> (r: GroupSpec)
    ensures
        head_text(r) == head_text(*g),
{
    GroupSpec {
        name: g.name.clone(),
        short: g.short.clone(),
        long: error::clone_option(&g.long),
        aliases: text::clone_strings(&g.aliases),
        hidden: g.hidden,
        feature_flag: match &g.feature_flag {
            Some(f) => Some(f.copy()),
            None => None,
        },
        commands: Vec::new(),
        groups: Vec::new(),
    }
}

impl RuntimeGroupSpec {
    /// Creates a runtime group from declarative group metadata.
    pub fn new(group: GroupSpec) -> (r: Self)
        ensures
            r@ == (TreeText { head: group@.head, commands: Seq::empty(), groups: Seq::empty() }),
    {
        let r = RuntimeGroupSpec { group, commands: Vec::new(), groups: Vec::new() };
        assert(r@.commands =~= Seq::empty());
        assert(r@.groups =~= Seq::empty());
        r
    }

    /// Adds one executable leaf command.
    pub fn with_command(self, command: RuntimeCommandSpec) -> (r: Self)
        ensures
            r@ == (TreeText { commands: self@.commands.push(command@), ..self@ }),
    {
        let mut r = self;
        r.commands.push(command);
        assert(r@.commands =~= self@.commands.push(command@));
        r
    }

    /// Adds one executable nested group.
    pub fn with_group(self, group: RuntimeGroupSpec) -> (r: Self)
        ensures
            r@ == (TreeText { groups: self@.groups.push(group@), ..self@ }),
    {
        let mut r = self;
        let ghost before = r.groups@;
        r.groups.push(group);
        assert(r.groups@.drop_last() =~= before);
        r
    }
}

/// The parser knows a group by its name, with its groups first and then its
/// commands below it, each under its own name.
pub proof fn law_parser_knows_the_group(g: GroupText, i: int)
    ensures
        group_node(g).name == g.head.name,
        group_node(g).about == g.head.short,
        group_node(g).aliases == g.head.aliases,
        group_node(g).hidden == g.head.hidden,
        group_node(g).subcommands.len() == g.groups.len() + g.commands.len(),
        0 <= i < g.groups.len() ==> group_node(g).subcommands[i].name == g.groups[i].head.name,
        0 <= i < g.commands.len() ==> group_node(g).subcommands[g.groups.len() + i].name
            == g.commands[i].name,
{
    lemma_group_names(g.groups, i);
}

proof fn lemma_group_names(groups: Seq<GroupText>, i: int)
    ensures
        group_nodes(groups).len() == groups.len(),
        0 <= i < groups.len() ==> group_nodes(groups)[i].name == groups[i].head.name,
    decreases groups.len(),
{
    reveal_with_fuel(group_nodes, 2);
    reveal_with_fuel(group_node, 2);
    if groups.len() > 0 {
        lemma_group_names(groups.drop_last(), i);
    }
}

} // verus!
