//! The documents that a search runs over.
use crate::command_tree::{ArgNode, CommandNode};
use crate::command_tree;
use crate::guide::GuideEntry;
use crate::guide;
use crate::text;
use vstd::prelude::*;
use vstd::string::*;

verus! {

/// A document that a search can find.
#[derive(Debug, PartialEq, Eq)]
pub struct SearchDocument {
    /// Unique id.
    pub id: String,
    /// `command`, `guide`, or a kind of the application's own.
    pub kind: String,
    /// Title.
    pub title: String,
    /// One-line summary.
    pub summary: String,
    /// Text that is searched.
    pub content: String,
}

/// What a document says.
#[verifier::ext_equal]
pub struct DocumentText {
    /// Unique id.
    pub id: Seq<char>,
    /// Kind.
    pub kind: Seq<char>,
    /// Title.
    pub title: Seq<char>,
    /// Summary.
    pub summary: Seq<char>,
    /// Content.
    pub content: Seq<char>,
}

impl View for SearchDocument {
    type V = DocumentText;

    open spec fn view(&self) -> DocumentText {
        DocumentText {
            id: self.id@,
            kind: self.kind@,
            title: self.title@,
            summary: self.summary@,
            content: self.content@,
        }
    }
}

/// What each document of a list says.
pub open spec fn document_texts(docs: Seq<SearchDocument>) -> Seq<DocumentText> {
    Seq::new(docs.len(), |i: int| docs[i]@)
}

/// The names of the engine's own top-level commands.
pub open spec fn is_builtin(name: Seq<char>) -> bool {
    name == "help"@ || name == "guide"@ || name == "tree"@ || name == "completion"@
}

/// Tells whether a name is that of one of the engine's own commands.
pub fn is_builtin_name(name: &str) -> (r: bool)
    ensures
        r == is_builtin(name@),
{
    text::str_eq(name, "help") || text::str_eq(name, "guide") || text::str_eq(name, "tree")
        || text::str_eq(name, "completion")
}

/// The characters of a list, each as a text.
pub open spec fn char_terms(list: Seq<char>) -> Seq<Seq<char>> {
    Seq::new(list.len(), |i: int| seq![list[i]])
}

/// The other names of a command.
pub open spec fn alias_terms(node: CommandNode) -> Seq<Seq<char>> {
    text::texts(node.aliases@) + char_terms(node.short_flag_aliases@) + text::texts(
        node.long_flag_aliases@,
    )
}

/// Adds the texts of a list.
fn push_all(list: &Vec<String>, terms: Vec<String>) -> (r: Vec<String>)
    ensures
        text::texts(r@) == text::texts(terms@) + text::texts(list@),
{
    let ghost all = text::texts(list@);
    let mut r = terms;
    let mut i: usize = 0;
    assert(text::texts(terms@) + all.take(0) =~= text::texts(terms@));
    while i < list.len()
        invariant
            i <= list@.len(),
            all == text::texts(list@),
            text::texts(r@) == text::texts(terms@) + all.take(i as int),
        decreases list@.len() - i,
    {
        let ghost before = text::texts(r@);
        r.push(list[i].clone());
        i = i + 1;
        assert(text::texts(r@) =~= before.push(all[i - 1]));
        assert(all.take(i as int) =~= all.take(i - 1).push(all[i - 1]));
    }
    assert(all.take(list@.len() as int) =~= all);
    r
}

/// Adds the other names of a command.
fn append_command_alias_terms(command: &CommandNode, terms: Vec<String>) -> (r: Vec<String>)
    ensures
        text::texts(r@) == text::texts(terms@) + alias_terms(*command),
{
    let ghost chars = char_terms(command.short_flag_aliases@);
    let mut r = push_all(&command.aliases, terms);
    let ghost named = text::texts(r@);
    let mut i: usize = 0;
    assert(named + chars.take(0) =~= named);
    while i < command.short_flag_aliases.len()
        invariant
            i <= command.short_flag_aliases@.len(),
            chars == char_terms(command.short_flag_aliases@),
            text::texts(r@) == named + chars.take(i as int),
        decreases command.short_flag_aliases@.len() - i,
    {
        let ghost before = text::texts(r@);
        let mut term = String::new();
        term.push(command.short_flag_aliases[i]);
        r.push(term);
        i = i + 1;
        assert(term@ =~= chars[i - 1]);
        assert(text::texts(r@) =~= before.push(chars[i - 1]));
        assert(chars.take(i as int) =~= chars.take(i - 1).push(chars[i - 1]));
    }
    assert(chars.take(chars.len() as int) =~= chars);
    let r = push_all(&command.long_flag_aliases, r);
    assert(text::texts(r@) =~= text::texts(terms@) + alias_terms(*command));
    r
}

/// The flags of an argument: the short one, the long one, and their aliases.
pub open spec fn flag_words(arg: ArgNode) -> Seq<Seq<char>> {
    let short = match arg.short {
        Some(c) => seq!["-"@.push(c)],
        None => Seq::empty(),
    };
    let long = match arg.long {
        Some(name) => seq!["--"@ + name@],
        None => Seq::empty(),
    };
    short + long + Seq::new(arg.short_aliases@.len(), |i: int| "-"@.push(arg.short_aliases@[i]))
        + Seq::new(arg.aliases@.len(), |i: int| "--"@ + arg.aliases@[i]@)
}

/// The flags of each argument that has some, with spaces between.
pub open spec fn flag_phrases(args: Seq<ArgNode>) -> Seq<Seq<char>>
    decreases args.len(),
{
    if args.len() == 0 {
        Seq::empty()
    } else {
        let before = flag_phrases(args.drop_last());
        let words = flag_words(args.last());
        if words.len() == 0 {
            before
        } else {
            before.push(text::join_spec(words, " "@))
        }
    }
}

/// The flags of a command as one text.
pub open spec fn flag_text(node: CommandNode) -> Seq<char> {
    text::join_spec(flag_phrases(node.args@), " "@)
}

/// The flags of an argument.
fn words_of(arg: &ArgNode) -> (r: Vec<String>)
    ensures
        text::texts(r@) == flag_words(*arg),
{
    let mut r: Vec<String> = Vec::new();
    if let Some(c) = arg.short {
        let mut word = "-".to_owned();
        word.push(c);
        r.push(word);
    }
    if let Some(name) = &arg.long {
        let mut word = "--".to_owned();
        word.append(name.as_str());
        r.push(word);
    }
    let ghost own = text::texts(r@);
    let ghost shorts = Seq::new(
        arg.short_aliases@.len(),
        |i: int| "-"@.push(arg.short_aliases@[i]),
    );
    let ghost longs = Seq::new(arg.aliases@.len(), |i: int| "--"@ + arg.aliases@[i]@);
    assert(own + shorts + longs =~= flag_words(*arg));
    let mut i: usize = 0;
    assert(own + shorts.take(0) =~= own);
    while i < arg.short_aliases.len()
        invariant
            i <= arg.short_aliases@.len(),
            shorts == Seq::new(
                arg.short_aliases@.len(),
                |i: int| "-"@.push(arg.short_aliases@[i]),
            ),
            text::texts(r@) == own + shorts.take(i as int),
        decreases arg.short_aliases@.len() - i,
    {
        let ghost before = text::texts(r@);
        let mut word = "-".to_owned();
        word.push(arg.short_aliases[i]);
        r.push(word);
        i = i + 1;
        assert(text::texts(r@) =~= before.push(shorts[i - 1]));
        assert(shorts.take(i as int) =~= shorts.take(i - 1).push(shorts[i - 1]));
    }
    assert(shorts.take(shorts.len() as int) =~= shorts);
    let ghost half = own + shorts;
    let mut j: usize = 0;
    assert(half + longs.take(0) =~= half);
    while j < arg.aliases.len()
        invariant
            j <= arg.aliases@.len(),
            longs == Seq::new(arg.aliases@.len(), |i: int| "--"@ + arg.aliases@[i]@),
            text::texts(r@) == half + longs.take(j as int),
        decreases arg.aliases@.len() - j,
    {
        let ghost before = text::texts(r@);
        let mut word = "--".to_owned();
        word.append(arg.aliases[j].as_str());
        r.push(word);
        j = j + 1;
        assert(text::texts(r@) =~= before.push(longs[j - 1]));
        assert(longs.take(j as int) =~= longs.take(j - 1).push(longs[j - 1]));
    }
    assert(longs.take(longs.len() as int) =~= longs);
    r
}

/// The flags of a command as one text.
pub fn command_flag_text(command: &CommandNode) -> (r: String)
    ensures
        r@ == flag_text(*command),
{
    let ghost all = command.args@;
    let mut phrases: Vec<String> = Vec::new();
    let mut i: usize = 0;
    assert(text::texts(phrases@) =~= flag_phrases(all.take(0)));
    while i < command.args.len()
        invariant
            i <= command.args@.len(),
            all == command.args@,
            text::texts(phrases@) == flag_phrases(all.take(i as int)),
        decreases command.args@.len() - i,
    {
        assert(all.take(i + 1).drop_last() =~= all.take(i as int));
        let words = words_of(&command.args[i]);
        let ghost before = phrases@;
        assert(text::texts(words@).len() == words@.len());
        if words.len() > 0 {
            let phrase = text::join(&words, " ");
            phrases.push(phrase);
            assert(text::texts(phrases@) =~= text::texts(before).push(phrase@));
        }
        i = i + 1;
    }
    assert(all.take(command.args@.len() as int) =~= all);
    text::join(&phrases, " ")
}

/// The document of a command without subcommands.
pub open spec fn command_document(
    node: CommandNode,
    path: Seq<Seq<char>>,
    aliases: Seq<Seq<char>>,
) -> DocumentText {
    let title = text::join_spec(path, " "@);
    DocumentText {
        id: "cmd:"@ + title,
        kind: "command"@,
        title,
        summary: node.about@,
        content: node.about@ + " "@ + node.long_about@ + " "@ + flag_text(node) + " "@
            + text::join_spec(aliases, " "@),
    }
}

/// The documents of a command and of all commands below it, where `path` leads
/// to it and `aliases` are the other names on the way. Hidden commands and the
/// engine's own have none, nor have the commands below them.
pub open spec fn documents_below(
    node: CommandNode,
    path: Seq<Seq<char>>,
    aliases: Seq<Seq<char>>,
) -> Seq<DocumentText>
    decreases node,
{
    if node.hidden || is_builtin(node.name@) {
        Seq::empty()
    } else if node.subcommands@.len() > 0 {
        documents_of_all(node.subcommands@, path, aliases)
    } else if path.len() == 0 {
        seq![command_document(node, seq![node.name@], aliases + alias_terms(node))]
    } else {
        seq![command_document(node, path, aliases)]
    }
}

/// The documents of several commands below the same one.
pub open spec fn documents_of_all(
    nodes: Seq<CommandNode>,
    path: Seq<Seq<char>>,
    aliases: Seq<Seq<char>>,
) -> Seq<DocumentText>
    decreases nodes,
{
    if nodes.len() == 0 {
        Seq::empty()
    } else {
        documents_of_all(nodes.drop_last(), path, aliases) + documents_below(
            nodes.last(),
            path.push(nodes.last().name@),
            aliases + alias_terms(nodes.last()),
        )
    }
}

/// Builds the document of a command.
fn make_document(command: &CommandNode, path: &Vec<String>, aliases: &Vec<String>) -> (r:
    SearchDocument)
    ensures
        r@ == command_document(*command, text::texts(path@), text::texts(aliases@)),
{
    let title = text::join(path, " ");
    let mut id = "cmd:".to_owned();
    id.append(title.as_str());
    let mut content = command.about.clone();
    content.append(" ");
    content.append(command.long_about.as_str());
    content.append(" ");
    content.append(command_flag_text(command).as_str());
    content.append(" ");
    content.append(text::join(aliases, " ").as_str());
    SearchDocument {
        id,
        kind: "command".to_owned(),
        title,
        summary: command.about.clone(),
        content,
    }
}

/// Adds the documents of a command and of all commands below it.
pub fn collect_command_search_documents(
    command: &CommandNode,
    path: &Vec<String>,
    aliases: &Vec<String>,
    docs: Vec<SearchDocument>,
) -> (r: Vec<SearchDocument>)
    ensures
        document_texts(r@) == document_texts(docs@) + documents_below(
            *command,
            text::texts(path@),
            text::texts(aliases@),
        ),
    decreases command,
{
    let mut r = docs;
    if command.hidden || is_builtin_name(command.name.as_str()) {
        assert(document_texts(docs@) + Seq::<DocumentText>::empty() =~= document_texts(docs@));
        return r;
    }
    if command.is_group() {
        return collect_from_all(&command.subcommands, path, aliases, r);
    }
    assert(text::texts(path@).len() == path@.len());
    if path.len() == 0 {
        let mut own: Vec<String> = Vec::new();
        own.push(command.name.clone());
        assert(text::texts(own@) =~= seq![command.name@]);
        let terms = append_command_alias_terms(command, text::clone_strings(aliases));
        r.push(make_document(command, &own, &terms));
    } else {
        r.push(make_document(command, path, aliases));
    }
    assert(document_texts(r@) =~= document_texts(docs@) + documents_below(
        *command,
        text::texts(path@),
        text::texts(aliases@),
    ));
    r
}

/// Adds the documents of several commands below the same one.
fn collect_from_all(
    nodes: &Vec<CommandNode>,
    path: &Vec<String>,
    aliases: &Vec<String>,
    docs: Vec<SearchDocument>,
) -> (r: Vec<SearchDocument>)
    ensures
        document_texts(r@) == document_texts(docs@) + documents_of_all(
            nodes@,
            text::texts(path@),
            text::texts(aliases@),
        ),
    decreases nodes,
{
    let ghost p = text::texts(path@);
    let ghost a = text::texts(aliases@);
    let mut r = docs;
    let mut i: usize = 0;
    assert(document_texts(docs@) + documents_of_all(nodes@.take(0), p, a) =~= document_texts(
        docs@,
    ));
    while i < nodes.len()
        invariant
            i <= nodes@.len(),
            p == text::texts(path@),
            a == text::texts(aliases@),
            document_texts(r@) == document_texts(docs@) + documents_of_all(
                nodes@.take(i as int),
                p,
                a,
            ),
        decreases nodes@.len() - i,
    {
        let child = &nodes[i];
        assert(nodes@.take(i + 1).drop_last() =~= nodes@.take(i as int));
        let mut child_path = text::clone_strings(path);
        child_path.push(child.name.clone());
        assert(text::texts(child_path@) =~= p.push(child.name@));
        let child_aliases = append_command_alias_terms(child, text::clone_strings(aliases));
        r = collect_command_search_documents(child, &child_path, &child_aliases, r);
        i = i + 1;
        assert(document_texts(r@) =~= document_texts(docs@) + documents_of_all(
            nodes@.take(i as int),
            p,
            a,
        ));
    }
    assert(nodes@.take(nodes@.len() as int) =~= nodes@);
    r
}

/// The document of a guide.
pub open spec fn guide_document(g: guide::GuideText) -> DocumentText {
    DocumentText {
        id: "guide:"@ + g.name,
        kind: "guide"@,
        title: "guide "@ + g.name,
        summary: g.summary,
        content: g.summary + " "@ + g.content,
    }
}

/// The documents of guides.
pub open spec fn guide_documents(guides: Seq<guide::GuideText>) -> Seq<DocumentText> {
    Seq::new(guides.len(), |i: int| guide_document(guides[i]))
}

/// The documents that a search in `scope` runs over, without those of the
/// application's own: the commands at and below the scope, all commands where
/// it leads nowhere; and the guides where there is no scope.
pub open spec fn documents_in(
    root: CommandNode,
    guides: Seq<guide::GuideText>,
    scope: Seq<char>,
) -> Seq<DocumentText> {
    let commands = match command_tree::walk(root, command_tree::path_parts(scope)) {
        Some((node, names)) => documents_below(node, names, alias_terms(node)),
        None => documents_below(root, Seq::empty(), alias_terms(root)),
    };
    if scope.len() == 0 {
        commands + guide_documents(guides)
    } else {
        commands
    }
}

/// Collects the documents that a search in `scope` runs over. An application
/// adds its own behind them where there is no scope.
pub fn search_documents(root: &CommandNode, guides: &Vec<GuideEntry>, scope: &str) -> (r: Vec<
    SearchDocument,
>)
    ensures
        document_texts(r@) == documents_in(*root, guide::guide_texts(guides@), scope@),
{
    let (node, names) = match command_tree::find_command_and_canonical_path_by_colon_path(
        root,
        scope,
    ) {
        Some((node, names)) => (node, names),
        None => (root, Vec::new()),
    };
    let aliases = append_command_alias_terms(node, Vec::new());
    assert(text::texts(aliases@) =~= alias_terms(*node));
    let empty: Vec<SearchDocument> = Vec::new();
    let mut r = collect_command_search_documents(node, &names, &aliases, empty);
    assert(document_texts(r@) =~= documents_below(*node, text::texts(names@), alias_terms(*node)));
    assert(command_tree::walk(*root, command_tree::path_parts(scope@)) is None ==> text::texts(
        names@,
    ) =~= Seq::<Seq<char>>::empty());
    if scope.is_empty() {
        let ghost commands = document_texts(r@);
        let ghost all = guide_documents(guide::guide_texts(guides@));
        let mut i: usize = 0;
        assert(commands + all.take(0) =~= commands);
        while i < guides.len()
            invariant
                i <= guides@.len(),
                all == guide_documents(guide::guide_texts(guides@)),
                document_texts(r@) == commands + all.take(i as int),
            decreases guides@.len() - i,
        {
            let ghost before = document_texts(r@);
            let entry = &guides[i];
            let mut id = "guide:".to_owned();
            id.append(entry.name.as_str());
            let mut title = "guide ".to_owned();
            title.append(entry.name.as_str());
            let mut content = entry.summary.clone();
            content.append(" ");
            content.append(entry.content.as_str());
            r.push(
                SearchDocument {
                    id,
                    kind: "guide".to_owned(),
                    title,
                    summary: entry.summary.clone(),
                    content,
                },
            );
            i = i + 1;
            assert(document_texts(r@) =~= before.push(all[i - 1]));
            assert(all.take(i as int) =~= all.take(i - 1).push(all[i - 1]));
        }
        assert(all.take(all.len() as int) =~= all);
    }
    r
}

/// A hidden command is found by no search.
pub proof fn law_hidden_commands_are_not_found(
    node: CommandNode,
    path: Seq<Seq<char>>,
    aliases: Seq<Seq<char>>,
)
    requires
        node.hidden,
    ensures
        documents_below(node, path, aliases).len() == 0,
{
}

/// The documents of commands one behind the other are those of the first and
/// then those of the others.
proof fn lemma_documents_hold(
    nodes: Seq<CommandNode>,
    path: Seq<Seq<char>>,
    aliases: Seq<Seq<char>>,
    k: int,
    doc: DocumentText,
)
    requires
        0 <= k < nodes.len(),
        documents_below(
            nodes[k],
            path.push(nodes[k].name@),
            aliases + alias_terms(nodes[k]),
        ).contains(doc),
    ensures
        documents_of_all(nodes, path, aliases).contains(doc),
    decreases nodes.len(),
{
    reveal_with_fuel(documents_of_all, 2);
    let before = documents_of_all(nodes.drop_last(), path, aliases);
    let last = documents_below(
        nodes.last(),
        path.push(nodes.last().name@),
        aliases + alias_terms(nodes.last()),
    );
    let all = documents_of_all(nodes, path, aliases);
    assert(all == before + last);
    if k < nodes.len() - 1 {
        lemma_documents_hold(nodes.drop_last(), path, aliases, k, doc);
        let i = choose|i: int| 0 <= i < before.len() && before[i] == doc;
        assert(all[i] == doc);
    } else {
        let i = choose|i: int| 0 <= i < last.len() && last[i] == doc;
        assert(all[before.len() + i] == doc);
    }
}

/// A visible command without subcommands is found below its group: by its path,
/// with its description as the summary.
pub proof fn law_visible_commands_are_found(
    group: CommandNode,
    path: Seq<Seq<char>>,
    aliases: Seq<Seq<char>>,
    k: int,
)
    requires
        !group.hidden,
        !is_builtin(group.name@),
        0 <= k < group.subcommands@.len(),
        !group.subcommands@[k].hidden,
        !is_builtin(group.subcommands@[k].name@),
        group.subcommands@[k].subcommands@.len() == 0,
    ensures
        exists|doc: DocumentText|
            {
                &&& #[trigger] documents_below(group, path, aliases).contains(doc)
                &&& doc.title == text::join_spec(path.push(group.subcommands@[k].name@), " "@)
                &&& doc.id == "cmd:"@ + doc.title
                &&& doc.kind == "command"@
                &&& doc.summary == group.subcommands@[k].about@
                &&& text::contains_text(doc.content, group.subcommands@[k].about@)
                &&& text::contains_text(doc.content, group.subcommands@[k].long_about@)
                &&& text::contains_text(doc.content, flag_text(group.subcommands@[k]))
            },
{
    let node = group.subcommands@[k];
    let below = path.push(node.name@);
    let names = aliases + alias_terms(node);
    let doc = command_document(node, below, names);
    reveal_with_fuel(documents_below, 2);
    let docs = documents_below(node, below, names);
    assert(docs == seq![doc]);
    assert(docs[0] == doc);
    assert(docs.contains(doc));
    lemma_documents_hold(group.subcommands@, path, aliases, k, doc);
    assert(documents_below(group, path, aliases).contains(doc));
    let tail = " "@ + text::join_spec(names, " "@);
    text::lemma_part_occurs(
        Seq::empty(),
        node.about@,
        " "@ + node.long_about@ + " "@ + flag_text(node) + tail,
    );
    assert(Seq::<char>::empty() + node.about@ + (" "@ + node.long_about@ + " "@ + flag_text(node)
        + tail) =~= doc.content);
    text::lemma_part_occurs(
        node.about@ + " "@,
        node.long_about@,
        " "@ + flag_text(node) + tail,
    );
    assert(node.about@ + " "@ + node.long_about@ + (" "@ + flag_text(node) + tail)
        =~= doc.content);
    text::lemma_part_occurs(
        node.about@ + " "@ + node.long_about@ + " "@,
        flag_text(node),
        tail,
    );
    assert(node.about@ + " "@ + node.long_about@ + " "@ + flag_text(node) + tail =~= doc.content);
}

/// A command is found by its other names too.
pub proof fn law_aliases_are_searched(
    node: CommandNode,
    path: Seq<Seq<char>>,
    aliases: Seq<Seq<char>>,
)
    ensures
        text::contains_text(
            command_document(node, path, aliases).content,
            text::join_spec(aliases, " "@),
        ),
{
    let names = text::join_spec(aliases, " "@);
    let lead = node.about@ + " "@ + node.long_about@ + " "@ + flag_text(node) + " "@;
    text::lemma_part_occurs(lead, names, Seq::empty());
    assert(lead + names + Seq::<char>::empty() =~= command_document(node, path, aliases).content);
}

/// Each flag of an argument is searched as it is written.
pub proof fn law_flags_are_searched(arg: ArgNode)
    ensures
        arg.short matches Some(c) ==> flag_words(arg).contains("-"@.push(c)),
        arg.long matches Some(name) ==> flag_words(arg).contains("--"@ + name@),
        arg.short is None && arg.long is None && arg.short_aliases@.len() == 0
            && arg.aliases@.len() == 0 ==> flag_words(arg).len() == 0,
{
    let words = flag_words(arg);
    if arg.short is Some {
        assert(words[0] == "-"@.push(arg.short->0));
    }
    if arg.long is Some {
        if arg.short is Some {
            assert(words[1] == "--"@ + arg.long->0@);
        } else {
            assert(words[0] == "--"@ + arg.long->0@);
        }
    }
}

/// A search without a scope runs over every guide too, a search in one over
/// commands alone: those at and below the scope, all where it leads nowhere.
pub proof fn law_scope_limits_the_search(
    root: CommandNode,
    guides: Seq<guide::GuideText>,
    scope: Seq<char>,
    i: int,
)
    ensures
        0 <= i < guides.len() ==> documents_in(root, guides, Seq::empty()).contains(
            guide_document(guides[i]),
        ),
        scope.len() > 0 ==> (command_tree::walk(root, command_tree::path_parts(scope)) matches Some(
            (node, names),
        ) ==> documents_in(root, guides, scope) == documents_below(
            node,
            names,
            alias_terms(node),
        )),
        scope.len() > 0 && command_tree::walk(root, command_tree::path_parts(scope)) is None
            ==> documents_in(root, guides, scope) == documents_below(
            root,
            Seq::empty(),
            alias_terms(root),
        ),
{
    let all = documents_in(root, guides, Seq::empty());
    if 0 <= i < guides.len() {
        let n = all.len() - guides.len();
        assert(all[n + i] == guide_document(guides[i]));
    }
}

/// A guide is found under its name, by its summary and by its content.
pub proof fn law_guides_are_found(g: guide::GuideText)
    ensures
        guide_document(g).id == "guide:"@ + g.name,
        guide_document(g).kind == "guide"@,
        guide_document(g).title == "guide "@ + g.name,
        guide_document(g).summary == g.summary,
        text::contains_text(guide_document(g).content, g.summary),
        text::contains_text(guide_document(g).content, g.content),
{
    text::lemma_part_occurs(Seq::empty(), g.summary, " "@ + g.content);
    assert(Seq::<char>::empty() + g.summary + (" "@ + g.content) =~= guide_document(g).content);
    text::lemma_part_occurs(g.summary + " "@, g.content, Seq::empty());
    assert(g.summary + " "@ + g.content + Seq::<char>::empty() =~= guide_document(g).content);
}

/// The engine's own commands are found by no search, nor is what is below them.
pub proof fn law_builtins_are_not_found(
    node: CommandNode,
    path: Seq<Seq<char>>,
    aliases: Seq<Seq<char>>,
)
    requires
        node.name@ == "help"@ || node.name@ == "guide"@ || node.name@ == "tree"@ || node.name@
            == "completion"@,
    ensures
        documents_below(node, path, aliases).len() == 0,
{
}

} // verus!
