//! The tree of commands as plain data: names, aliases, help texts and flags.
use crate::text;
use vstd::prelude::*;
use vstd::string::*;

verus! {

/// What the parser does with an argument.
#[derive(Clone, Copy, Debug, PartialEq, Eq, Structural)]
pub enum ArgKind {
    /// Stores the value.
    Store,
    /// Adds the value to a list.
    Append,
    /// Stores `true`.
    SetTrue,
    /// Stores `false`.
    SetFalse,
    /// Counts occurrences.
    Count,
    /// Shows help.
    Help,
    /// Shows the short help.
    HelpShort,
    /// Shows the long help.
    HelpLong,
    /// Shows the version.
    Version,
}

/// How many values an argument takes.
#[derive(Clone, Copy, Debug, PartialEq, Eq, Structural)]
pub struct ValueCount {
    /// At least this many.
    pub min: usize,
    /// At most this many.
    pub max: usize,
}

/// What the value of an argument is read as.
#[derive(Clone, Copy, Debug, PartialEq, Eq, Structural)]
pub enum ValueForm {
    /// Text, taken as it is.
    Plain,
    /// An integer.
    Integer,
    /// A boolean in one of the accepted spellings.
    Boolean,
    /// The name of a credential store.
    Store,
}

/// One argument of a command.
pub struct ArgNode {
    /// Id under which the parsed value is found.
    pub id: String,
    /// Long flag, without its dashes.
    pub long: Option<String>,
    /// Short flag.
    pub short: Option<char>,
    /// Further long flags.
    pub aliases: Vec<String>,
    /// Further short flags.
    pub short_aliases: Vec<char>,
    /// What the parser does with it.
    pub kind: ArgKind,
    /// How many values it takes, where that was set.
    pub values: Option<ValueCount>,
    /// What the value is read as.
    pub form: ValueForm,
    /// Name of the value in help texts.
    pub value_name: Option<String>,
    /// Value where the argument is absent.
    pub default_value: Option<String>,
    /// Value where the flag stands without one.
    pub default_missing: Option<String>,
    /// Whether the value must follow an equals sign.
    pub require_equals: bool,
    /// Whether the value may begin with a dash.
    pub allow_hyphen: bool,
    /// Whether every subcommand takes the argument too.
    pub global: bool,
    /// Whether the argument must be given.
    pub required: bool,
    /// Help text.
    pub help: String,
}

/// What an argument says.
#[verifier::ext_equal]
pub struct ArgText {
    /// Id.
    pub id: Seq<char>,
    /// Long flag.
    pub long: Option<Seq<char>>,
    /// Short flag.
    pub short: Option<char>,
    /// Further long flags.
    pub aliases: Seq<Seq<char>>,
    /// Further short flags.
    pub short_aliases: Seq<char>,
    /// What the parser does with it.
    pub kind: ArgKind,
    /// How many values it takes.
    pub values: Option<ValueCount>,
    /// What the value is read as.
    pub form: ValueForm,
    /// Name of the value.
    pub value_name: Option<Seq<char>>,
    /// Value where the argument is absent.
    pub default_value: Option<Seq<char>>,
    /// Value where the flag stands without one.
    pub default_missing: Option<Seq<char>>,
    /// Whether the value must follow an equals sign.
    pub require_equals: bool,
    /// Whether the value may begin with a dash.
    pub allow_hyphen: bool,
    /// Whether every subcommand takes the argument too.
    pub global: bool,
    /// Whether the argument must be given.
    pub required: bool,
    /// Help text.
    pub help: Seq<char>,
}

impl View for ArgNode {
    type V = ArgText;

    open spec fn view(&self) -> ArgText {
        ArgText {
            id: self.id@,
            long: opt_text(self.long),
            short: self.short,
            aliases: text::texts(self.aliases@),
            short_aliases: self.short_aliases@,
            kind: self.kind,
            values: self.values,
            form: self.form,
            value_name: opt_text(self.value_name),
            default_value: opt_text(self.default_value),
            default_missing: opt_text(self.default_missing),
            require_equals: self.require_equals,
            allow_hyphen: self.allow_hyphen,
            global: self.global,
            required: self.required,
            help: self.help@,
        }
    }
}

/// The text of an optional string.
pub open spec fn opt_text(s: Option<String>) -> Option<Seq<char>> {
    crate::error::opt_text(s)
}

/// An argument without anything but its id and its help text.
pub open spec fn bare_arg(id: Seq<char>, help: Seq<char>) -> ArgText {
    ArgText {
        id,
        long: None,
        short: None,
        aliases: Seq::empty(),
        short_aliases: Seq::empty(),
        kind: ArgKind::Store,
        values: None,
        form: ValueForm::Plain,
        value_name: None,
        default_value: None,
        default_missing: None,
        require_equals: false,
        allow_hyphen: false,
        global: false,
        required: false,
        help,
    }
}

/// What the arguments of a list say.
pub open spec fn arg_texts(args: Seq<ArgNode>) -> Seq<ArgText> {
    args.map_values(|a: ArgNode| a@)
}

/// Copies the characters of a list.
fn copy_chars(chars: &Vec<char>) -> (r: Vec<char>)
    ensures
        r@ == chars@,
{
    let mut r: Vec<char> = Vec::new();
    let mut i: usize = 0;
    while i < chars.len()
        invariant
            i <= chars@.len(),
            r@ == chars@.take(i as int),
        decreases chars@.len() - i,
    {
        r.push(chars[i]);
        i = i + 1;
        assert(r@ =~= chars@.take(i as int));
    }
    assert(chars@.take(i as int) =~= chars@);
    r
}

/// Copies the arguments of a list.
pub fn copy_args(args: &Vec<ArgNode>) -> (r: Vec<ArgNode>)
    ensures
        arg_texts(r@) == arg_texts(args@),
{
    let mut r: Vec<ArgNode> = Vec::new();
    let mut i: usize = 0;
    while i < args.len()
        invariant
            i <= args@.len(),
            r@.len() == i,
            forall|k: int| 0 <= k < i ==> (#[trigger] r@[k])@ == args@[k]@,
        decreases args@.len() - i,
    {
        r.push(args[i].copy());
        i = i + 1;
    }
    assert(arg_texts(r@) =~= arg_texts(args@));
    r
}

impl ArgNode {
    /// Copies the argument.
    pub fn copy(&self) -> (r: Self)
        ensures
            r@ == self@,
    {
        ArgNode {
            id: self.id.clone(),
            long: crate::error::clone_option(&self.long),
            short: self.short,
            aliases: text::clone_strings(&self.aliases),
            short_aliases: copy_chars(&self.short_aliases),
            kind: self.kind,
            values: self.values,
            form: self.form,
            value_name: crate::error::clone_option(&self.value_name),
            default_value: crate::error::clone_option(&self.default_value),
            default_missing: crate::error::clone_option(&self.default_missing),
            require_equals: self.require_equals,
            allow_hyphen: self.allow_hyphen,
            global: self.global,
            required: self.required,
            help: self.help.clone(),
        }
    }

    /// Creates an argument that takes a text.
    pub fn new(id: &str, help: &str) -> (r: Self)
        ensures
            r@ == bare_arg(id@, help@),
    {
        let r = ArgNode {
            id: id.to_owned(),
            long: None,
            short: None,
            aliases: Vec::new(),
            short_aliases: Vec::new(),
            kind: ArgKind::Store,
            values: None,
            form: ValueForm::Plain,
            value_name: None,
            default_value: None,
            default_missing: None,
            require_equals: false,
            allow_hyphen: false,
            global: false,
            required: false,
            help: help.to_owned(),
        };
        assert(r@ =~= bare_arg(id@, help@));
        r
    }
}

/// A command with its subcommands.
pub struct CommandNode {
    /// Name of the command.
    pub name: String,
    /// One-line description.
    pub about: String,
    /// Longer description.
    pub long_about: String,
    /// Whether help and search leave the command out.
    pub hidden: bool,
    /// Other names.
    pub aliases: Vec<String>,
    /// Other names as a short flag.
    pub short_flag_aliases: Vec<char>,
    /// Other names as a long flag.
    pub long_flag_aliases: Vec<String>,
    /// Arguments, in the order in which they were added.
    pub args: Vec<ArgNode>,
    /// Subcommands, in the order in which they were added.
    pub subcommands: Vec<CommandNode>,
}

/// What a command with its subcommands says.
pub struct NodeText {
    /// Name of the command.
    pub name: Seq<char>,
    /// One-line description.
    pub about: Seq<char>,
    /// Longer description.
    pub long_about: Seq<char>,
    /// Whether help and search leave the command out.
    pub hidden: bool,
    /// Other names.
    pub aliases: Seq<Seq<char>>,
    /// Other names as a short flag.
    pub short_flag_aliases: Seq<char>,
    /// Other names as a long flag.
    pub long_flag_aliases: Seq<Seq<char>>,
    /// Arguments.
    pub args: Seq<ArgText>,
    /// Subcommands.
    pub subcommands: Seq<NodeText>,
}

/// What a command with its subcommands says.
pub open spec fn node_text(node: CommandNode) -> NodeText
    decreases node,
{
    NodeText {
        name: node.name@,
        about: node.about@,
        long_about: node.long_about@,
        hidden: node.hidden,
        aliases: text::texts(node.aliases@),
        short_flag_aliases: node.short_flag_aliases@,
        long_flag_aliases: text::texts(node.long_flag_aliases@),
        args: arg_texts(node.args@),
        subcommands: node_texts(node.subcommands@),
    }
}

/// What the commands of a list say.
pub open spec fn node_texts(nodes: Seq<CommandNode>) -> Seq<NodeText>
    decreases nodes,
{
    if nodes.len() == 0 {
        Seq::empty()
    } else {
        node_texts(nodes.drop_last()).push(node_text(nodes.last()))
    }
}

/// A command without arguments and subcommands.
pub open spec fn bare_node(name: Seq<char>, about: Seq<char>) -> NodeText {
    NodeText {
        name,
        about,
        long_about: Seq::empty(),
        hidden: false,
        aliases: Seq::empty(),
        short_flag_aliases: Seq::empty(),
        long_flag_aliases: Seq::empty(),
        args: Seq::empty(),
        subcommands: Seq::empty(),
    }
}

/// The texts of a list of commands, one by one.
pub proof fn lemma_node_texts(nodes: Seq<CommandNode>)
    ensures
        node_texts(nodes).len() == nodes.len(),
        forall|i: int| 0 <= i < nodes.len() ==> #[trigger] node_texts(nodes)[i] == node_text(nodes[i]),
    decreases nodes.len(),
{
    if nodes.len() > 0 {
        lemma_node_texts(nodes.drop_last());
    }
}

/// A command goes by its name and by each of its aliases.
pub open spec fn answers_to(node: CommandNode, name: Seq<char>) -> bool {
    node.name@ == name || text::texts(node.aliases@).contains(name)
}

/// The first command of `subs` from the place `i` on that goes by `name`.
pub open spec fn find_from(subs: Seq<CommandNode>, name: Seq<char>, i: int) -> Option<CommandNode>
    decreases subs.len() - i,
{
    if i < 0 || i >= subs.len() {
        None
    } else if answers_to(subs[i], name) {
        Some(subs[i])
    } else {
        find_from(subs, name, i + 1)
    }
}

/// The first subcommand that goes by `name`.
pub open spec fn find_sub(node: CommandNode, name: Seq<char>) -> Option<CommandNode> {
    find_from(node.subcommands@, name, 0)
}

/// Where the names lead from `root`: the command, and the own names of the
/// commands on the way.
pub open spec fn walk(root: CommandNode, parts: Seq<Seq<char>>) -> Option<
    (CommandNode, Seq<Seq<char>>),
>
    decreases parts.len(),
{
    if parts.len() == 0 {
        Some((root, Seq::empty()))
    } else {
        match walk(root, parts.drop_last()) {
            None => None,
            Some((at, names)) => match find_sub(at, parts.last()) {
                None => None,
                Some(next) => Some((next, names.push(next.name@))),
            },
        }
    }
}

/// The names that a colon-separated path holds; the empty path holds none.
pub open spec fn path_parts(path: Seq<char>) -> Seq<Seq<char>> {
    if path.len() == 0 {
        Seq::empty()
    } else {
        text::split_spec(path, ':')
    }
}

/// The longest start of `parts` that leads somewhere from `root`.
pub open spec fn longest_walk(root: CommandNode, parts: Seq<Seq<char>>, n: nat) -> nat
    decreases n,
{
    if n == 0 || walk(root, parts.take(n as int)) is Some {
        n
    } else {
        longest_walk(root, parts, (n - 1) as nat)
    }
}

/// A path that stops leading anywhere does not lead anywhere further on.
pub proof fn lemma_walk_prefix(root: CommandNode, parts: Seq<Seq<char>>, n: int)
    requires
        0 <= n <= parts.len(),
        walk(root, parts) is Some,
    ensures
        walk(root, parts.take(n)) is Some,
    decreases parts.len(),
{
    if n < parts.len() {
        lemma_walk_prefix(root, parts.drop_last(), n);
        assert(parts.drop_last().take(n) =~= parts.take(n));
    } else {
        assert(parts.take(n) =~= parts);
    }
}

/// The longest walk is found where the next name leads nowhere.
pub proof fn lemma_longest_walk(root: CommandNode, parts: Seq<Seq<char>>, n: nat, m: nat)
    requires
        m <= n <= parts.len(),
        walk(root, parts.take(m as int)) is Some,
        m < parts.len() ==> walk(root, parts.take(m as int + 1)) is None,
    ensures
        longest_walk(root, parts, n) == m,
    decreases n,
{
    if n > m {
        if walk(root, parts.take(n as int)) is Some {
            lemma_walk_prefix(root, parts.take(n as int), m as int + 1);
            assert(parts.take(n as int).take(m as int + 1) =~= parts.take(m as int + 1));
        }
        lemma_longest_walk(root, parts, (n - 1) as nat, m);
    }
}

impl CommandNode {
    /// Creates a command without anything but its name and description.
    pub fn new(name: String, about: String) -> (r: Self)
        ensures
            r.name == name,
            r.about == about,
            r.long_about@.len() == 0,
            !r.hidden,
            r.aliases@.len() == 0,
            r.short_flag_aliases@.len() == 0,
            r.long_flag_aliases@.len() == 0,
            r.args@.len() == 0,
            r.subcommands@.len() == 0,
    {
        CommandNode {
            name,
            about,
            long_about: String::new(),
            hidden: false,
            aliases: Vec::new(),
            short_flag_aliases: Vec::new(),
            long_flag_aliases: Vec::new(),
            args: Vec::new(),
            subcommands: Vec::new(),
        }
    }

    /// Tells whether the command goes by `name`.
    pub fn goes_by(&self, name: &str) -> (r: bool)
        ensures
            r == answers_to(*self, name@),
    {
        if text::str_eq(self.name.as_str(), name) {
            return true;
        }
        text::list_contains(&self.aliases, name)
    }

    /// The first subcommand that goes by `name`.
    pub fn find_subcommand(&self, name: &str) -> (r: Option<&CommandNode>)
        ensures
            match r {
                Some(node) => find_sub(*self, name@) == Some(*node),
                None => find_sub(*self, name@) is None,
            },
    {
        let mut i: usize = 0;
        while i < self.subcommands.len()
            invariant
                i <= self.subcommands@.len(),
                find_sub(*self, name@) == find_from(self.subcommands@, name@, i as int),
            decreases self.subcommands@.len() - i,
        {
            if self.subcommands[i].goes_by(name) {
                return Some(&self.subcommands[i]);
            }
            i = i + 1;
        }
        None
    }

    /// Tells whether the command has subcommands.
    pub fn is_group(&self) -> (r: bool)
        ensures
            r == (self.subcommands@.len() > 0),
    {
        self.subcommands.len() > 0
    }
}

/// Tells whether a subcommand has exactly this name.
pub fn has_subcommand(command: &CommandNode, name: &str) -> (r: bool)
    ensures
        r == exists|i: int|
            0 <= i < command.subcommands@.len() && command.subcommands@[i].name@ == name@,
{
    let mut i: usize = 0;
    while i < command.subcommands.len()
        invariant
            i <= command.subcommands@.len(),
            forall|k: int| 0 <= k < i ==> command.subcommands@[k].name@ != name@,
        decreases command.subcommands@.len() - i,
    {
        if text::str_eq(command.subcommands[i].name.as_str(), name) {
            return true;
        }
        i = i + 1;
    }
    false
}

/// Follows a list of names from `root`.
pub fn walk_parts<'a>(root: &'a CommandNode, parts: &Vec<String>) -> (r: Option<
    (&'a CommandNode, Vec<String>),
>)
    ensures
        match r {
            Some((node, names)) => walk(*root, text::texts(parts@)) == Some(
                (*node, text::texts(names@)),
            ),
            None => walk(*root, text::texts(parts@)) is None,
        },
{
    let ghost all = text::texts(parts@);
    let mut current = root;
    let mut canonical: Vec<String> = Vec::new();
    let mut i: usize = 0;
    assert(text::texts(canonical@) =~= Seq::<Seq<char>>::empty());
    while i < parts.len()
        invariant
            i <= parts@.len(),
            all == text::texts(parts@),
            walk(*root, all.take(i as int)) == Some((*current, text::texts(canonical@))),
        decreases parts@.len() - i,
    {
        assert(all.take(i + 1).drop_last() =~= all.take(i as int));
        assert(all.take(i + 1).last() == parts@[i as int]@);
        match current.find_subcommand(parts[i].as_str()) {
            Some(next) => {
                let ghost before = canonical@;
                canonical.push(next.name.clone());
                assert(text::texts(canonical@) =~= text::texts(before).push(next.name@));
                current = next;
            },
            None => {
                proof {
                    assert(walk(*root, all.take(i + 1)) is None);
                    if walk(*root, all) is Some {
                        lemma_walk_prefix(*root, all, i + 1);
                    }
                }
                return None;
            },
        }
        i = i + 1;
    }
    assert(all.take(parts@.len() as int) =~= all);
    Some((current, canonical))
}

/// Follows a colon-separated path from `root`; the names on the way come back
/// in their own form, whatever alias the path used.
pub fn find_command_and_canonical_path_by_colon_path<'a>(root: &'a CommandNode, path: &str) -> (r:
    Option<(&'a CommandNode, Vec<String>)>)
    ensures
        match r {
            Some((node, names)) => walk(*root, path_parts(path@)) == Some(
                (*node, text::texts(names@)),
            ),
            None => walk(*root, path_parts(path@)) is None,
        },
{
    let parts = if path.is_empty() {
        Vec::new()
    } else {
        text::split_char(path, ':')
    };
    assert(text::texts(parts@) =~= path_parts(path@));
    walk_parts(root, &parts)
}

/// The command to which a colon-separated path leads.
pub fn find_command_by_colon_path<'a>(root: &'a CommandNode, path: &str) -> (r: Option<
    &'a CommandNode,
>)
    ensures
        match r {
            Some(node) => walk(*root, path_parts(path@)) matches Some((at, _)) && at == *node,
            None => walk(*root, path_parts(path@)) is None,
        },
{
    match find_command_and_canonical_path_by_colon_path(root, path) {
        Some((node, _)) => Some(node),
        None => None,
    }
}

/// The canonical colon path to which a list of names leads.
pub open spec fn canonical_spec(root: CommandNode, parts: Seq<Seq<char>>) -> Option<Seq<char>> {
    match walk(root, parts) {
        Some((_, names)) => Some(text::join_spec(names, ":"@)),
        None => None,
    }
}

/// The canonical colon path of a list of names.
pub fn canonical_path_from_parts(root: &CommandNode, parts: &Vec<String>) -> (r: Option<String>)
    ensures
        match r {
            Some(path) => canonical_spec(*root, text::texts(parts@)) == Some(path@),
            None => canonical_spec(*root, text::texts(parts@)) is None,
        },
{
    match walk_parts(root, parts) {
        Some((_, names)) => Some(text::join(&names, ":")),
        None => None,
    }
}

/// The canonical form of a colon path that leads somewhere; any other path as
/// it is.
pub fn canonical_command_path(root: &CommandNode, path: &str) -> (r: String)
    ensures
        r@ == match canonical_spec(*root, path_parts(path@)) {
            Some(canonical) => canonical,
            None => path@,
        },
{
    match find_command_and_canonical_path_by_colon_path(root, path) {
        Some((_, names)) => text::join(&names, ":"),
        None => path.to_owned(),
    }
}

/// The command at the end of the longest start of `parts` that leads
/// somewhere; none where not even the first name does.
pub fn find_help_target<'a>(root: &'a CommandNode, parts: &Vec<String>) -> (r: Option<
    &'a CommandNode,
>)
    ensures
        ({
            let all = text::texts(parts@);
            let n = longest_walk(*root, all, all.len());
            match r {
                Some(node) => n > 0 && (walk(*root, all.take(n as int)) matches Some((at, _))
                    && at == *node),
                None => n == 0,
            }
        }),
{
    let ghost all = text::texts(parts@);
    let mut current = root;
    let mut i: usize = 0;
    while i < parts.len()
        invariant
            i <= parts@.len(),
            all == text::texts(parts@),
            walk(*root, all.take(i as int)) matches Some((at, _)) && at == *current,
        ensures
            i <= parts@.len(),
            walk(*root, all.take(i as int)) matches Some((at, _)) && at == *current,
            i < parts@.len() ==> walk(*root, all.take(i + 1)) is None,
        decreases parts@.len() - i,
    {
        assert(all.take(i + 1).drop_last() =~= all.take(i as int));
        assert(all.take(i + 1).last() == parts@[i as int]@);
        match current.find_subcommand(parts[i].as_str()) {
            Some(next) => {
                current = next;
            },
            None => {
                break;
            },
        }
        i = i + 1;
    }
    proof {
        lemma_longest_walk(*root, all, all.len(), i as nat);
    }
    if i > 0 {
        Some(current)
    } else {
        None
    }
}

/// The command that names lead to.
pub open spec fn reached(root: CommandNode, parts: Seq<Seq<char>>) -> CommandNode {
    match walk(root, parts) {
        Some((node, _)) => node,
        None => root,
    }
}

/// The own names of the commands that names lead over.
pub open spec fn way(root: CommandNode, parts: Seq<Seq<char>>) -> Seq<Seq<char>> {
    match walk(root, parts) {
        Some((_, names)) => names,
        None => Seq::empty(),
    }
}

/// A name leads to the first subcommand that has it, as its own or as an alias.
pub proof fn law_first_subcommand_is_found(node: CommandNode, name: Seq<char>, k: int)
    requires
        0 <= k < node.subcommands@.len(),
        node.subcommands@[k].name@ == name || text::texts(
            node.subcommands@[k].aliases@,
        ).contains(name),
        forall|i: int|
            0 <= i < k ==> (#[trigger] node.subcommands@[i]).name@ != name && !text::texts(
                node.subcommands@[i].aliases@,
            ).contains(name),
    ensures
        find_sub(node, name) == Some(node.subcommands@[k]),
{
    lemma_find_from(node.subcommands@, name, 0, k);
}

proof fn lemma_find_from(subs: Seq<CommandNode>, name: Seq<char>, i: int, k: int)
    requires
        0 <= i <= k < subs.len(),
        answers_to(subs[k], name),
        forall|j: int| i <= j < k ==> !answers_to(#[trigger] subs[j], name),
    ensures
        find_from(subs, name, i) == Some(subs[k]),
    decreases k - i,
{
    if i < k {
        assert(!answers_to(subs[i], name));
        lemma_find_from(subs, name, i + 1, k);
    }
}

/// A name that no subcommand has leads nowhere, and what a name leads to has it.
pub proof fn law_unknown_name_leads_nowhere(node: CommandNode, name: Seq<char>)
    ensures
        find_sub(node, name) is None <==> (forall|i: int|
            0 <= i < node.subcommands@.len() ==> !answers_to(
                #[trigger] node.subcommands@[i],
                name,
            )),
        find_sub(node, name) matches Some(sub) ==> answers_to(sub, name)
            && node.subcommands@.contains(sub),
{
    lemma_find_none(node.subcommands@, name, 0);
}

proof fn lemma_find_none(subs: Seq<CommandNode>, name: Seq<char>, i: int)
    requires
        0 <= i,
    ensures
        find_from(subs, name, i) is None <==> (forall|j: int|
            i <= j < subs.len() ==> !answers_to(#[trigger] subs[j], name)),
        find_from(subs, name, i) matches Some(sub) ==> answers_to(sub, name) && subs.contains(sub),
    decreases subs.len() - i,
{
    if i < subs.len() {
        lemma_find_none(subs, name, i + 1);
        if answers_to(subs[i], name) {
            assert(subs.contains(subs[i]));
        }
    }
}

/// A path leads where its end leads from where its beginning leads.
pub proof fn law_walk_goes_on(
    root: CommandNode,
    first: Seq<Seq<char>>,
    second: Seq<Seq<char>>,
)
    ensures
        walk(root, first) is None ==> walk(root, first + second) is None,
        walk(root, first) matches Some((at, names)) ==> match walk(at, second) {
            Some((end, more)) => walk(root, first + second) == Some((end, names + more)),
            None => walk(root, first + second) is None,
        },
    decreases second.len(),
{
    if second.len() == 0 {
        assert(first + second =~= first);
        if walk(root, first) is Some {
            let names = way(root, first);
            assert(names + Seq::<Seq<char>>::empty() =~= names);
        }
    } else {
        law_walk_goes_on(root, first, second.drop_last());
        assert((first + second).drop_last() =~= first + second.drop_last());
        assert((first + second).last() == second.last());
        if walk(root, first) is Some {
            let (at, names) = walk(root, first)->0;
            if walk(at, second.drop_last()) is Some {
                let (m, more) = walk(at, second.drop_last())->0;
                if find_sub(m, second.last()) is Some {
                    let next = find_sub(m, second.last())->0;
                    assert((names + more).push(next.name@) =~= names + more.push(next.name@));
                }
            }
        }
    }
}

/// One name leads to the subcommand that has it, and the path names that
/// subcommand by its own name, whatever alias was used.
pub proof fn law_walk_uses_own_names(root: CommandNode, name: Seq<char>)
    ensures
        walk(root, Seq::empty()) == Some((root, Seq::<Seq<char>>::empty())),
        find_sub(root, name) matches Some(sub) ==> walk(root, seq![name]) == Some(
            (sub, seq![sub.name@]),
        ) && canonical_spec(root, seq![name]) == Some(sub.name@),
        find_sub(root, name) is None ==> walk(root, seq![name]) is None && canonical_spec(
            root,
            seq![name],
        ) is None,
{
    reveal_with_fuel(walk, 2);
    assert(seq![name].drop_last() =~= Seq::empty());
    if find_sub(root, name) is Some {
        let sub = find_sub(root, name)->0;
        assert(Seq::<Seq<char>>::empty().push(sub.name@) =~= seq![sub.name@]);
    }
}

/// The canonical path of names has the own names of the commands on the way,
/// with colons between.
pub proof fn law_canonical_path_is_read_back(root: CommandNode, parts: Seq<Seq<char>>)
    requires
        parts.len() > 0,
        walk(root, parts) is Some,
        forall|i: int|
            0 <= i < way(root, parts).len() ==> !(#[trigger] way(
                root,
                parts,
            )[i]).contains(':') && way(root, parts)[i].len() > 0,
    ensures
        canonical_spec(root, parts) is Some,
        path_parts(canonical_spec(root, parts)->0) == way(root, parts),
        way(root, parts).len() == parts.len(),
        way(root, parts).last() == reached(root, parts).name@,
{
    lemma_walk_len(root, parts);
    let names = way(root, parts);
    reveal_strlit(":");
    assert(":"@ =~= seq![':']);
    text::law_join_is_undone_by_split(names, ':');
    assert(names[0].len() > 0);
    text::lemma_first_part(text::join_spec(names, ":"@), ':');
}

proof fn lemma_walk_len(root: CommandNode, parts: Seq<Seq<char>>)
    requires
        walk(root, parts) is Some,
    ensures
        way(root, parts).len() == parts.len(),
        parts.len() > 0 ==> way(root, parts).last() == reached(root, parts).name@,
    decreases parts.len(),
{
    if parts.len() > 0 {
        lemma_walk_len(root, parts.drop_last());
    }
}

/// The longest beginning of a path that leads somewhere does, and no longer one
/// does.
pub proof fn law_longest_walk_is_longest(root: CommandNode, parts: Seq<Seq<char>>, n: nat, m: nat)
    requires
        n <= parts.len(),
    ensures
        longest_walk(root, parts, n) <= n,
        walk(root, parts.take(longest_walk(root, parts, n) as int)) is Some,
        longest_walk(root, parts, n) < m <= n ==> walk(root, parts.take(m as int)) is None,
    decreases n,
{
    if n == 0 {
        assert(parts.take(0) =~= Seq::empty());
    } else if walk(root, parts.take(n as int)) is None {
        law_longest_walk_is_longest(root, parts, (n - 1) as nat, m);
    }
}

} // verus!
