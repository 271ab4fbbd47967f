//! Help texts of the root command.
use crate::output::envelope::NextAction;
use crate::output::envelope;
use crate::sorting;
use crate::text;
use vstd::prelude::*;
use vstd::string::*;

verus! {

/// Help template for the root command: the curated description, which already
/// lists every command by category, and usage.
pub const ROOT_HELP_TEMPLATE: &'static str = "{before-help}{about-with-newline}\n{usage-heading} {usage}{after-help}";

/// Help template for group commands: description, usage and child commands.
pub const GROUP_HELP_TEMPLATE: &'static str = "{before-help}{about-with-newline}\n{usage-heading} {usage}\n\nCommands:\n{subcommands}{after-help}";

/// One module row in root long help.
#[derive(Debug, PartialEq, Eq)]
pub struct ModuleHelpEntry {
    /// Help category label.
    pub category: String,
    /// Top-level module group name.
    pub name: String,
    /// One-line module description.
    pub short: String,
}

/// What a row says.
#[verifier::ext_equal]
pub struct HelpText {
    /// Category.
    pub category: Seq<char>,
    /// Name.
    pub name: Seq<char>,
    /// Description.
    pub short: Seq<char>,
}

impl View for ModuleHelpEntry {
    type V = HelpText;

    open spec fn view(&self) -> HelpText {
        HelpText { category: self.category@, name: self.name@, short: self.short@ }
    }
}

impl ModuleHelpEntry {
    /// Copies the row.
    pub fn copy(&self) -> (r: Self)
        ensures
            r@ == self@,
    {
        ModuleHelpEntry {
            category: self.category.clone(),
            name: self.name.clone(),
            short: self.short.clone(),
        }
    }
}

/// What each row of a list says.
pub open spec fn help_texts(entries: Seq<ModuleHelpEntry>) -> Seq<HelpText> {
    Seq::new(entries.len(), |i: int| entries[i]@)
}

/// The categories of the rows.
pub open spec fn categories(entries: Seq<HelpText>) -> Seq<Seq<char>> {
    Seq::new(entries.len(), |i: int| entries[i].category)
}

/// The names of the rows.
pub open spec fn names(entries: Seq<HelpText>) -> Seq<Seq<char>> {
    Seq::new(entries.len(), |i: int| entries[i].name)
}

/// The first `n` rows in the given order, with a heading before the first row
/// of each category.
pub open spec fn sections(
    entries: Seq<HelpText>,
    order: Seq<usize>,
    width: nat,
    n: nat,
) -> Seq<char>
    decreases n,
{
    if n == 0 {
        Seq::empty()
    } else {
        let row = entries[order[n - 1] as int];
        let heading = if n == 1 || entries[order[n - 2] as int].category != row.category {
            "\n\n  "@ + row.category + ":"@
        } else {
            Seq::empty()
        };
        sections(entries, order, width, (n - 1) as nat) + heading + "\n    "@ + text::pad_spec(
            row.name,
            width,
        ) + "  "@ + row.short
    }
}

/// The hints behind the rows.
pub open spec fn command_hints(has_guide: bool) -> Seq<char> {
    let hints = "\n\n  Find Commands:"@
        + "\n    --search <keyword>  Search all commands and guides by keyword"@
        + "\n    tree                Display full command tree"@;
    if has_guide {
        hints + "\n    guide               Built-in guides for AI agents and developers"@
    } else {
        hints
    }
}

/// `long` is the root long help text: the intro, the rows by category and name,
/// and hints to built-in commands.
pub open spec fn is_root_long(
    long: Seq<char>,
    intro: Seq<char>,
    rows: Seq<HelpText>,
    has_guide: bool,
) -> bool {
    exists|order: Seq<usize>|
        {
            &&& #[trigger] sorting::is_sorted_order(order, categories(rows), names(rows))
            &&& long == intro + sections(rows, order, text::max_bytes(names(rows)), rows.len())
                + command_hints(has_guide)
        }
}

/// Builds the root long help text: the intro, the rows by category and name,
/// and hints to built-in commands.
pub fn build_root_long(intro: &str, entries: &Vec<ModuleHelpEntry>, has_guide: bool) -> (r: String)
    ensures
        is_root_long(r@, intro@, help_texts(entries@), has_guide),
{
    let ghost rows = help_texts(entries@);
    let mut category_keys: Vec<String> = Vec::new();
    let mut name_keys: Vec<String> = Vec::new();
    let mut i: usize = 0;
    while i < entries.len()
        invariant
            i <= entries@.len(),
            rows == help_texts(entries@),
            text::texts(category_keys@) == categories(rows).take(i as int),
            text::texts(name_keys@) == names(rows).take(i as int),
        decreases entries@.len() - i,
    {
        let ghost c = text::texts(category_keys@);
        let ghost m = text::texts(name_keys@);
        category_keys.push(entries[i].category.clone());
        name_keys.push(entries[i].name.clone());
        i = i + 1;
        assert(text::texts(category_keys@) =~= c.push(rows[i - 1].category));
        assert(text::texts(name_keys@) =~= m.push(rows[i - 1].name));
        assert(categories(rows).take(i as int) =~= categories(rows).take(i - 1).push(
            rows[i - 1].category,
        ));
        assert(names(rows).take(i as int) =~= names(rows).take(i - 1).push(rows[i - 1].name));
    }
    assert(categories(rows).take(entries@.len() as int) =~= categories(rows));
    assert(names(rows).take(entries@.len() as int) =~= names(rows));
    let width: usize = text::widest(&name_keys);
    assert(text::texts(category_keys@).len() == category_keys@.len());
    assert(text::texts(name_keys@).len() == name_keys@.len());
    let order = sorting::sorted_order(&category_keys, &name_keys);
    let mut out = intro.to_owned();
    let mut n: usize = 0;
    assert(intro@ + sections(rows, order@, width as nat, 0) =~= intro@);
    while n < order.len()
        invariant
            n <= order@.len(),
            rows == help_texts(entries@),
            sorting::is_sorted_order(order@, categories(rows), names(rows)),
            out@ == intro@ + sections(rows, order@, width as nat, n as nat),
        decreases order@.len() - n,
    {
        assert(order@[n as int] < entries@.len());
        let row = &entries[order[n]];
        let ghost before = out@;
        let mut fresh = true;
        if n > 0 {
            assert(order@[n - 1] < entries@.len());
            fresh = !text::str_eq(
                entries[order[n - 1]].category.as_str(),
                row.category.as_str(),
            );
        }
        if fresh {
            out.append("\n\n  ");
            out.append(row.category.as_str());
            out.append(":");
        }
        out.append("\n    ");
        out.append(text::pad(row.name.as_str(), width).as_str());
        out.append("  ");
        out.append(row.short.as_str());
        n = n + 1;
        assert(out@ =~= intro@ + sections(rows, order@, width as nat, n as nat));
    }
    let ghost body = out@;
    out.append("\n\n  Find Commands:");
    out.append("\n    --search <keyword>  Search all commands and guides by keyword");
    out.append("\n    tree                Display full command tree");
    if has_guide {
        out.append("\n    guide               Built-in guides for AI agents and developers");
    }
    assert(out@ =~= body + command_hints(has_guide));
    out
}

/// The rows come one after another, whatever their places are.
proof fn lemma_sections(
    a: Seq<HelpText>,
    p: Seq<usize>,
    b: Seq<HelpText>,
    q: Seq<usize>,
    width: nat,
    n: nat,
)
    requires
        n <= p.len(),
        n <= q.len(),
        forall|i: int| 0 <= i < n ==> a[#[trigger] p[i] as int] == b[q[i] as int],
    ensures
        sections(a, p, width, n) == sections(b, q, width, n),
    decreases n,
{
    if n > 0 {
        lemma_sections(a, p, b, q, width, (n - 1) as nat);
        assert(a[p[n - 1] as int] == b[q[n - 1] as int]);
        if n > 1 {
            assert(a[p[n - 2] as int] == b[q[n - 2] as int]);
        }
    }
}

/// Rows with the same category and name are one row.
pub open spec fn are_distinct_rows(rows: Seq<HelpText>) -> bool {
    sorting::are_distinct(categories(rows), names(rows))
}

/// A row comes before another.
pub open spec fn row_before(a: HelpText, b: HelpText) -> bool {
    sorting::pair_before((a.category, a.name), (b.category, b.name))
}

/// The rows in the order of their categories and names ascend.
proof fn lemma_rows_ascend(rows: Seq<HelpText>, order: Seq<usize>)
    requires
        are_distinct_rows(rows),
        sorting::is_sorted_order(order, categories(rows), names(rows)),
    ensures
        sorting::is_ascending(
            sorting::reordered(rows, order),
            |a: HelpText, b: HelpText| row_before(a, b),
        ),
{
    let sorted = sorting::reordered(rows, order);
    let less = |a: HelpText, b: HelpText| row_before(a, b);
    assert forall|i: int, j: int| 0 <= i < j < sorted.len() implies less(
        #[trigger] sorted[i],
        #[trigger] sorted[j],
    ) by {
        sorting::lemma_keys_ascend(order, categories(rows), names(rows), i, j);
    }
}

/// Where no two rows have the same category and name, the order in which they
/// are given does not matter for the root long help.
pub proof fn law_order_of_rows_does_not_matter(
    one: Seq<char>,
    two: Seq<char>,
    intro: Seq<char>,
    rows: Seq<HelpText>,
    p: Seq<usize>,
    has_guide: bool,
)
    requires
        are_distinct_rows(rows),
        sorting::lists_places(p, rows.len() as int),
        is_root_long(one, intro, rows, has_guide),
        is_root_long(two, intro, sorting::reordered(rows, p), has_guide),
    ensures
        one == two,
{
    let other = sorting::reordered(rows, p);
    let a = choose|order: Seq<usize>|
        #[trigger] sorting::is_sorted_order(order, categories(rows), names(rows)) && one == intro
            + sections(rows, order, text::max_bytes(names(rows)), rows.len()) + command_hints(
            has_guide,
        );
    let b = choose|order: Seq<usize>|
        #[trigger] sorting::is_sorted_order(order, categories(other), names(other)) && two == intro
            + sections(other, order, text::max_bytes(names(other)), other.len()) + command_hints(
            has_guide,
        );
    assert(are_distinct_rows(other)) by {
        assert forall|i: int, j: int| 0 <= i < j < other.len() implies #[trigger] categories(
            other,
        )[i] != #[trigger] categories(other)[j] || names(other)[i] != names(other)[j] by {
            let x = p[i] as int;
            let y = p[j] as int;
            assert(x != y);
            if x < y {
                assert(categories(rows)[x] != categories(rows)[y] || names(rows)[x] != names(
                    rows,
                )[y]);
            } else {
                assert(categories(rows)[y] != categories(rows)[x] || names(rows)[y] != names(
                    rows,
                )[x]);
            }
        }
    }
    lemma_rows_ascend(rows, a);
    lemma_rows_ascend(other, b);
    let less = |x: HelpText, y: HelpText| row_before(x, y);
    assert forall|x: HelpText, y: HelpText| #[trigger] less(x, y) implies !less(y, x) by {
        sorting::lemma_pair_before_asymmetric((x.category, x.name), (y.category, y.name));
    }
    assert forall|x: HelpText| sorting::reordered(rows, a).contains(x)
        <==> sorting::reordered(other, b).contains(x) by {
        sorting::lemma_reordered_items(rows, a, x);
        sorting::lemma_reordered_items(other, b, x);
        sorting::lemma_reordered_items(rows, p, x);
    }
    sorting::lemma_one_ascending(sorting::reordered(rows, a), sorting::reordered(other, b), less);
    assert forall|i: int| 0 <= i < rows.len() implies rows[#[trigger] a[i] as int]
        == other[b[i] as int] by {
        assert(sorting::reordered(rows, a)[i] == sorting::reordered(other, b)[i]);
    }
    lemma_same_width(rows, other, p);
    lemma_sections(rows, a, other, b, text::max_bytes(names(rows)), rows.len());
}

proof fn lemma_same_width(rows: Seq<HelpText>, other: Seq<HelpText>, p: Seq<usize>)
    requires
        sorting::lists_places(p, rows.len() as int),
        other == sorting::reordered(rows, p),
    ensures
        text::max_bytes(names(rows)) == text::max_bytes(names(other)),
{
    assert forall|i: int| 0 <= i < names(rows).len() implies names(other).contains(
        #[trigger] names(rows)[i],
    ) by {
        sorting::lemma_lists_all(p, rows.len() as int, i);
        let k = choose|k: int| 0 <= k < p.len() && #[trigger] p[k] == i;
        assert(names(other)[k] == names(rows)[i]);
    }
    assert forall|i: int| 0 <= i < names(other).len() implies names(rows).contains(
        #[trigger] names(other)[i],
    ) by {
        assert(0 <= p[i] < rows.len());
        assert(names(rows)[p[i] as int] == names(other)[i]);
    }
    text::lemma_max_bytes(names(rows), names(other));
    text::lemma_max_bytes(names(other), names(rows));
}

/// The commands of the actions.
pub open spec fn action_commands(actions: Seq<envelope::ActionText>) -> Seq<Seq<char>> {
    Seq::new(actions.len(), |i: int| actions[i].command)
}

/// One line for each action.
pub open spec fn action_lines(actions: Seq<envelope::ActionText>, width: nat) -> Seq<char>
    decreases actions.len(),
{
    if actions.len() == 0 {
        Seq::empty()
    } else {
        action_lines(actions.drop_last(), width) + "\n    "@ + text::pad_spec(
            actions.last().command,
            width,
        ) + "  "@ + actions.last().description
    }
}

/// The section of suggested actions; empty where there are none.
pub open spec fn actions_section(actions: Seq<envelope::ActionText>) -> Seq<char> {
    if actions.len() == 0 {
        Seq::empty()
    } else {
        "\n\n  Suggested next actions:"@ + action_lines(
            actions,
            text::max_bytes(action_commands(actions)),
        )
    }
}

/// Builds the section of suggested actions that bare-root human help ends with.
pub fn render_next_actions_human(actions: &Vec<NextAction>) -> (r: String)
    ensures
        r@ == actions_section(envelope::action_texts(actions@)),
{
    let ghost all = envelope::action_texts(actions@);
    if actions.len() == 0 {
        return String::new();
    }
    let mut commands: Vec<String> = Vec::new();
    let mut i: usize = 0;
    while i < actions.len()
        invariant
            i <= actions@.len(),
            all == envelope::action_texts(actions@),
            text::texts(commands@) == action_commands(all).take(i as int),
        decreases actions@.len() - i,
    {
        let ghost before = text::texts(commands@);
        commands.push(actions[i].command.clone());
        i = i + 1;
        assert(text::texts(commands@) =~= before.push(all[i - 1].command));
        assert(action_commands(all).take(i as int) =~= action_commands(all).take(i - 1).push(
            all[i - 1].command,
        ));
    }
    assert(action_commands(all).take(actions@.len() as int) =~= action_commands(all));
    let width: usize = text::widest(&commands);
    let mut out = "\n\n  Suggested next actions:".to_owned();
    let mut n: usize = 0;
    assert("\n\n  Suggested next actions:"@ + action_lines(all.take(0), width as nat)
        =~= "\n\n  Suggested next actions:"@);
    while n < actions.len()
        invariant
            n <= actions@.len(),
            all == envelope::action_texts(actions@),
            out@ == "\n\n  Suggested next actions:"@ + action_lines(
                all.take(n as int),
                width as nat,
            ),
        decreases actions@.len() - n,
    {
        assert(all.take(n + 1).drop_last() =~= all.take(n as int));
        out.append("\n    ");
        out.append(text::pad(actions[n].command.as_str(), width).as_str());
        out.append("  ");
        out.append(actions[n].description.as_str());
        n = n + 1;
        assert(out@ =~= "\n\n  Suggested next actions:"@ + action_lines(
            all.take(n as int),
            width as nat,
        ));
    }
    assert(all.take(actions@.len() as int) =~= all);
    out
}

/// The root long help begins with the intro, ends with the hints, and shows each
/// row on a line of its own: its name, and behind it its description.
pub proof fn law_root_long_shows_every_row(
    long: Seq<char>,
    intro: Seq<char>,
    rows: Seq<HelpText>,
    has_guide: bool,
    k: int,
)
    requires
        is_root_long(long, intro, rows, has_guide),
        0 <= k < rows.len(),
    ensures
        long.take(intro.len() as int) == intro,
        text::contains_text(long, rows[k].category + ":"@),
        text::contains_text(
            long,
            "\n    "@ + text::pad_spec(rows[k].name, text::max_bytes(names(rows))) + "  "@
                + rows[k].short,
        ),
        has_guide ==> text::contains_text(
            long,
            "\n    guide               Built-in guides for AI agents and developers"@,
        ),
{
    let order = choose|order: Seq<usize>|
        #[trigger] sorting::is_sorted_order(order, categories(rows), names(rows)) && long == intro
            + sections(rows, order, text::max_bytes(names(rows)), rows.len()) + command_hints(
            has_guide,
        );
    let width = text::max_bytes(names(rows));
    let body = sections(rows, order, width, rows.len());
    let hints = command_hints(has_guide);
    assert(long.take(intro.len() as int) =~= intro);
    sorting::lemma_lists_all(order, rows.len() as int, k);
    let at = choose|at: int| 0 <= at < order.len() && order[at] == k;
    let line = "\n    "@ + text::pad_spec(rows[k].name, width) + "  "@ + rows[k].short;
    lemma_section_line(rows, order, width, rows.len(), at);
    lemma_inside(intro, body, hints, line);
    lemma_section_heading(rows, order, width, rows.len(), at);
    lemma_inside(intro, body, hints, rows[k].category + ":"@);
    if has_guide {
        let guide = "\n    guide               Built-in guides for AI agents and developers"@;
        let lead = intro + body + hints.take(hints.len() - guide.len());
        assert(hints =~= hints.take(hints.len() - guide.len()) + guide);
        text::lemma_part_occurs(lead, guide, Seq::empty());
        assert(lead + guide + Seq::<char>::empty() =~= long);
    }
}

proof fn lemma_inside(before: Seq<char>, middle: Seq<char>, behind: Seq<char>, part: Seq<char>)
    requires
        text::contains_text(middle, part),
    ensures
        text::contains_text(before + middle + behind, part),
{
    let i = choose|i: int| text::occurs_at(middle, part, i);
    let whole = before + middle + behind;
    let at: int = before.len() + i;
    assert(whole.subrange(at, at + part.len()) =~= middle.subrange(i, i + part.len()));
    assert(text::occurs_at(whole, part, at));
}

proof fn lemma_section_line(
    rows: Seq<HelpText>,
    order: Seq<usize>,
    width: nat,
    n: nat,
    at: int,
)
    requires
        0 <= at < n,
    ensures
        text::contains_text(
            sections(rows, order, width, n),
            "\n    "@ + text::pad_spec(rows[order[at] as int].name, width) + "  "@
                + rows[order[at] as int].short,
        ),
    decreases n,
{
    let row = rows[order[n - 1] as int];
    let heading = if n == 1 || rows[order[n - 2] as int].category != row.category {
        "\n\n  "@ + row.category + ":"@
    } else {
        Seq::empty()
    };
    let before = sections(rows, order, width, (n - 1) as nat);
    let last = "\n    "@ + text::pad_spec(row.name, width) + "  "@ + row.short;
    assert(sections(rows, order, width, n) =~= before + heading + last);
    if at == n - 1 {
        text::lemma_part_occurs(before + heading, last, Seq::empty());
        assert(before + heading + last + Seq::<char>::empty() =~= before + heading + last);
    } else {
        lemma_section_line(rows, order, width, (n - 1) as nat, at);
        let line = "\n    "@ + text::pad_spec(rows[order[at] as int].name, width) + "  "@
            + rows[order[at] as int].short;
        lemma_inside(Seq::empty(), before, heading + last, line);
        assert(Seq::<char>::empty() + before + (heading + last) =~= before + heading + last);
    }
}

proof fn lemma_section_heading(
    rows: Seq<HelpText>,
    order: Seq<usize>,
    width: nat,
    n: nat,
    at: int,
)
    requires
        0 <= at < n,
    ensures
        text::contains_text(
            sections(rows, order, width, n),
            rows[order[at] as int].category + ":"@,
        ),
    decreases n,
{
    let row = rows[order[n - 1] as int];
    let new = n == 1 || rows[order[n - 2] as int].category != row.category;
    let heading = if new {
        "\n\n  "@ + row.category + ":"@
    } else {
        Seq::empty()
    };
    let before = sections(rows, order, width, (n - 1) as nat);
    let last = "\n    "@ + text::pad_spec(row.name, width) + "  "@ + row.short;
    let name = rows[order[at] as int].category + ":"@;
    assert(sections(rows, order, width, n) =~= before + heading + last);
    if at == n - 1 && new {
        text::lemma_part_occurs(before + "\n\n  "@, name, last);
        assert(before + "\n\n  "@ + name + last =~= before + heading + last);
    } else {
        let other: int = if at == n - 1 {
            n - 2
        } else {
            at
        };
        lemma_section_heading(rows, order, width, (n - 1) as nat, other);
        lemma_inside(Seq::empty(), before, heading + last, name);
        assert(Seq::<char>::empty() + before + (heading + last) =~= before + heading + last);
    }
}

/// Each suggested action is shown with its command and behind it its
/// description; without actions there is no section.
pub proof fn law_actions_are_shown(actions: Seq<envelope::ActionText>, k: int)
    requires
        0 <= k < actions.len(),
    ensures
        actions_section(Seq::empty()).len() == 0,
        text::contains_text(
            actions_section(actions),
            text::pad_spec(actions[k].command, text::max_bytes(action_commands(actions))) + "  "@
                + actions[k].description,
        ),
{
    let width = text::max_bytes(action_commands(actions));
    lemma_action_line(actions, width, k);
    let line = text::pad_spec(actions[k].command, width) + "  "@ + actions[k].description;
    lemma_inside("\n\n  Suggested next actions:"@, action_lines(actions, width), Seq::empty(), line);
    assert("\n\n  Suggested next actions:"@ + action_lines(actions, width) + Seq::<char>::empty()
        =~= actions_section(actions));
}

proof fn lemma_action_line(actions: Seq<envelope::ActionText>, width: nat, k: int)
    requires
        0 <= k < actions.len(),
    ensures
        text::contains_text(
            action_lines(actions, width),
            text::pad_spec(actions[k].command, width) + "  "@ + actions[k].description,
        ),
    decreases actions.len(),
{
    let before = action_lines(actions.drop_last(), width);
    let last = text::pad_spec(actions.last().command, width) + "  "@ + actions.last().description;
    let line = text::pad_spec(actions[k].command, width) + "  "@ + actions[k].description;
    assert(action_lines(actions, width) =~= before + "\n    "@ + last);
    if k == actions.len() - 1 {
        text::lemma_part_occurs(before + "\n    "@, last, Seq::empty());
        assert(before + "\n    "@ + last + Seq::<char>::empty() =~= before + "\n    "@ + last);
    } else {
        lemma_action_line(actions.drop_last(), width, k);
        lemma_inside(Seq::empty(), before, "\n    "@ + last, line);
        assert(Seq::<char>::empty() + before + ("\n    "@ + last) =~= before + "\n    "@ + last);
    }
}

/// A category has one heading: a row of the same category as the one before it
/// follows without another, and a row of a new one comes behind its heading.
pub proof fn law_one_heading_for_a_category(
    rows: Seq<HelpText>,
    order: Seq<usize>,
    width: nat,
    n: nat,
)
    requires
        n >= 2,
    ensures
        ({
            let row = rows[order[n - 1] as int];
            let before = rows[order[n - 2] as int];
            let line = "\n    "@ + text::pad_spec(row.name, width) + "  "@ + row.short;
            let shown = sections(rows, order, width, (n - 1) as nat);
            &&& row.category == before.category ==> sections(rows, order, width, n) == shown + line
            &&& row.category != before.category ==> sections(rows, order, width, n) == shown + (
            "\n\n  "@ + row.category + ":"@) + line
        }),
{
    let row = rows[order[n - 1] as int];
    let before = rows[order[n - 2] as int];
    let line = "\n    "@ + text::pad_spec(row.name, width) + "  "@ + row.short;
    let shown = sections(rows, order, width, (n - 1) as nat);
    if row.category == before.category {
        assert(sections(rows, order, width, n) =~= shown + line);
    } else {
        assert(sections(rows, order, width, n) =~= shown + ("\n\n  "@ + row.category + ":"@)
            + line);
    }
}

} // verus!
