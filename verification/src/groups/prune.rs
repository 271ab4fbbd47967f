//! Which part of a command tree its feature flags leave visible.
use crate::feature_flags::{FeatureFlag, FlagEntry, FlagEntryText, FlagPolicy, FlagRegistry, Stage};
use crate::feature_flags;
use crate::groups::{copy_head, RuntimeCommandSpec, RuntimeGroupSpec, RuntimeText, TreeText};
use crate::groups;
use crate::text;
use vstd::prelude::*;
use vstd::string::*;

verus! {

/// A flag: its key and its stage.
pub type FlagText = (Seq<char>, Stage);

/// What a policy says.
pub struct PolicyText {
    /// Minimum stage a node must meet to be visible.
    pub min_stage: Stage,
    /// Stages that override the declared ones, by key.
    pub overrides: Map<Seq<char>, Stage>,
}

/// What a policy says.
pub open spec fn policy_text(p: FlagPolicy) -> PolicyText {
    PolicyText { min_stage: p.min_stage, overrides: p.overrides@ }
}

/// The flag of a node: its own, else the one it inherits.
pub open spec fn effective(own: Option<FlagText>, inherited: Option<FlagText>) -> Option<FlagText> {
    match own {
        Some(f) => Some(f),
        None => inherited,
    }
}

/// A node with this flag is visible; without a flag it always is.
pub open spec fn shows(flag: Option<FlagText>, policy: PolicyText) -> bool {
    match flag {
        Some(f) => feature_flags::is_visible(policy.min_stage, policy.overrides, Some(f.0), f.1),
        None => true,
    }
}

/// What is recorded of a node: nothing where it has no flag.
pub open spec fn record_of(
    flag: Option<FlagText>,
    policy: PolicyText,
    path: Seq<Seq<char>>,
) -> Seq<FlagEntryText> {
    match flag {
        Some(f) => seq![
            FlagEntryText {
                path: text::join_spec(path, ":"@),
                key: f.0,
                stage: f.1,
                visible: shows(flag, policy),
            },
        ],
        None => Seq::empty(),
    }
}

/// What pruning leaves of commands, and what it records.
pub struct CommandsPruned {
    /// The commands that stay.
    pub kept: Seq<RuntimeText>,
    /// The records.
    pub records: Seq<FlagEntryText>,
}

/// What pruning leaves of groups, and what it records.
pub struct GroupsPruned {
    /// The groups that stay.
    pub kept: Seq<TreeText>,
    /// The records.
    pub records: Seq<FlagEntryText>,
}

/// What pruning leaves of a group, and what it records.
pub struct GroupPruned {
    /// The group, if it stays.
    pub kept: Option<TreeText>,
    /// The records.
    pub records: Seq<FlagEntryText>,
}

/// Prunes the commands of a group at `path` with the flag `flag`.
pub open spec fn prune_commands(
    commands: Seq<RuntimeText>,
    flag: Option<FlagText>,
    policy: PolicyText,
    path: Seq<Seq<char>>,
) -> CommandsPruned
    decreases commands.len(),
{
    if commands.len() == 0 {
        CommandsPruned { kept: Seq::empty(), records: Seq::empty() }
    } else {
        let before = prune_commands(commands.drop_last(), flag, policy, path);
        let c = commands.last();
        let own = effective(c.spec.feature_flag, flag);
        CommandsPruned {
            kept: if shows(own, policy) {
                before.kept.push(c)
            } else {
                before.kept
            },
            records: before.records + record_of(own, policy, path.push(c.spec.name)),
        }
    }
}

/// Prunes groups below `path` that inherit the flag `flag`.
pub open spec fn prune_groups(
    groups: Seq<TreeText>,
    flag: Option<FlagText>,
    policy: PolicyText,
    path: Seq<Seq<char>>,
) -> GroupsPruned
    decreases groups,
{
    if groups.len() == 0 {
        GroupsPruned { kept: Seq::empty(), records: Seq::empty() }
    } else {
        let before = prune_groups(groups.drop_last(), flag, policy, path);
        let one = prune_group(groups.last(), flag, policy, path);
        GroupsPruned {
            kept: match one.kept {
                Some(g) => before.kept.push(g),
                None => before.kept,
            },
            records: before.records + one.records,
        }
    }
}

/// Prunes a group below `path` that inherits the flag `inherited`: an invisible
/// group goes with everything below it, and so does one that is left without
/// children.
pub open spec fn prune_group(
    group: TreeText,
    inherited: Option<FlagText>,
    policy: PolicyText,
    path: Seq<Seq<char>>,
) -> GroupPruned
    decreases group,
{
    let flag = effective(group.head.feature_flag, inherited);
    let here = path.push(group.head.name);
    let own = record_of(flag, policy, here);
    if !shows(flag, policy) {
        GroupPruned { kept: None, records: own }
    } else {
        let groups = prune_groups(group.groups, flag, policy, here);
        let commands = prune_commands(group.commands, flag, policy, here);
        GroupPruned {
            kept: if groups.kept.len() == 0 && commands.kept.len() == 0 {
                None
            } else {
                Some(TreeText { head: group.head, commands: commands.kept, groups: groups.kept })
            },
            records: own + groups.records + commands.records,
        }
    }
}

/// What an optional flag says.
pub open spec fn opt_flag(f: Option<&FeatureFlag>) -> Option<FlagText> {
    match f {
        Some(f) => Some((f.key@, f.stage)),
        None => None,
    }
}

/// Records the flag of the node at `path`, if it has one, and returns whether
/// the node is visible.
pub fn record_and_check_visibility(
    flag: Option<&FeatureFlag>,
    policy: &FlagPolicy,
    path: &Vec<String>,
    registry: &mut FlagRegistry,
) -> (r: bool)
    ensures
        r == shows(opt_flag(flag), policy_text(*policy)),
        final(registry)@ == old(registry)@ + record_of(
            opt_flag(flag),
            policy_text(*policy),
            text::texts(path@),
        ),
{
    match flag {
        None => {
            assert(registry@ =~= old(registry)@ + Seq::<FlagEntryText>::empty());
            true
        },
        Some(f) => {
            let visible = policy.visible(Some(f.key.as_str()), f.stage);
            let entry = FlagEntry {
                path: text::join(path, ":"),
                key: f.key.clone(),
                stage: f.stage,
                visible,
            };
            registry.record(entry);
            assert(registry@ =~= old(registry)@ + record_of(
                opt_flag(flag),
                policy_text(*policy),
                text::texts(path@),
            ));
            visible
        },
    }
}

fn pick<'a>(own: &'a Option<FeatureFlag>, inherited: Option<&'a FeatureFlag>) -> (r: Option<
    &'a FeatureFlag,
>)
    ensures
        opt_flag(r) == effective(feature_flags::flag_text(*own), opt_flag(inherited)),
{
    match own {
        Some(f) => Some(f),
        None => inherited,
    }
}

/// The path with the name of a child.
pub(crate) fn child_path(path: &Vec<String>, name: &String) -> (r: Vec<String>)
    ensures
        text::texts(r@) == text::texts(path@).push(name@),
{
    let mut r = text::clone_strings(path);
    let ghost before = r@;
    r.push(name.clone());
    assert(text::texts(r@) =~= text::texts(before).push(name@));
    r
}

fn pruned_commands(
    commands: &Vec<RuntimeCommandSpec>,
    flag: Option<&FeatureFlag>,
    policy: &FlagPolicy,
    path: &Vec<String>,
    registry: &mut FlagRegistry,
) -> (r: Vec<RuntimeCommandSpec>)
    ensures
        ({
            let p = prune_commands(
                groups::runtime_texts(commands@),
                opt_flag(flag),
                policy_text(*policy),
                text::texts(path@),
            );
            groups::runtime_texts(r@) == p.kept && final(registry)@ == old(registry)@ + p.records
        }),
{
    let ghost all = groups::runtime_texts(commands@);
    let ghost f = opt_flag(flag);
    let ghost p = policy_text(*policy);
    let ghost at = text::texts(path@);
    let mut r: Vec<RuntimeCommandSpec> = Vec::new();
    let mut i: usize = 0;
    proof {
        assert(all.take(0) =~= Seq::empty());
        assert(groups::runtime_texts(r@) =~= Seq::empty());
        assert(registry@ =~= old(registry)@ + Seq::<FlagEntryText>::empty());
    }
    while i < commands.len()
        invariant
            i <= commands@.len(),
            all == groups::runtime_texts(commands@),
            f == opt_flag(flag),
            p == policy_text(*policy),
            at == text::texts(path@),
            groups::runtime_texts(r@) == prune_commands(all.take(i as int), f, p, at).kept,
            registry@ == old(registry)@ + prune_commands(all.take(i as int), f, p, at).records,
        decreases commands@.len() - i,
    {
        let ghost before = r@;
        let ghost seen = registry@;
        proof {
            assert(all.take(i + 1).drop_last() =~= all.take(i as int));
            assert(all.take(i + 1).last() == commands@[i as int]@);
        }
        let own = pick(&commands[i].spec.feature_flag, flag);
        let here = child_path(path, &commands[i].spec.name);
        let visible = record_and_check_visibility(own, policy, &here, registry);
        if visible {
            let c = commands[i].copy();
            r.push(c);
            assert(groups::runtime_texts(r@) =~= groups::runtime_texts(before).push(c@));
        }
        proof {
            let records = prune_commands(all.take(i as int), f, p, at).records;
            let own_records = record_of(opt_flag(own), p, text::texts(here@));
            assert(old(registry)@ + records + own_records =~= old(registry)@ + (records
                + own_records));
        }
        i = i + 1;
    }
    proof {
        assert(all.take(i as int) =~= all);
    }
    r
}

fn pruned_groups(
    children: &Vec<RuntimeGroupSpec>,
    flag: Option<&FeatureFlag>,
    policy: &FlagPolicy,
    path: &Vec<String>,
    registry: &mut FlagRegistry,
) -> (r: Vec<RuntimeGroupSpec>)
    ensures
        ({
            let p = prune_groups(
                groups::tree_texts(children@),
                opt_flag(flag),
                policy_text(*policy),
                text::texts(path@),
            );
            groups::tree_texts(r@) == p.kept && final(registry)@ == old(registry)@ + p.records
        }),
    decreases children,
{
    let ghost all = groups::tree_texts(children@);
    let ghost f = opt_flag(flag);
    let ghost p = policy_text(*policy);
    let ghost at = text::texts(path@);
    let mut r: Vec<RuntimeGroupSpec> = Vec::new();
    let mut i: usize = 0;
    proof {
        groups::lemma_tree_texts(children@);
        assert(all.take(0) =~= Seq::empty());
        assert(groups::tree_texts(r@) =~= Seq::empty());
        assert(registry@ =~= old(registry)@ + Seq::<FlagEntryText>::empty());
    }
    while i < children.len()
        invariant
            i <= children@.len(),
            all == groups::tree_texts(children@),
            all.len() == children@.len(),
            f == opt_flag(flag),
            p == policy_text(*policy),
            at == text::texts(path@),
            groups::tree_texts(r@) == prune_groups(all.take(i as int), f, p, at).kept,
            registry@ == old(registry)@ + prune_groups(all.take(i as int), f, p, at).records,
        decreases children@.len() - i,
    {
        let ghost before = r@;
        proof {
            groups::lemma_tree_texts(children@);
            assert(all.take(i + 1).drop_last() =~= all.take(i as int));
            assert(all.take(i + 1).last() == groups::tree_text(children@[i as int]));
        }
        match pruned_group(&children[i], flag, policy, path, registry) {
            Some(g) => {
                r.push(g);
                assert(r@.drop_last() =~= before);
            },
            None => {},
        }
        proof {
            let records = prune_groups(all.take(i as int), f, p, at).records;
            let own = prune_group(all.take(i + 1).last(), f, p, at).records;
            assert(old(registry)@ + records + own =~= old(registry)@ + (records + own));
        }
        i = i + 1;
    }
    proof {
        assert(all.take(i as int) =~= all);
    }
    r
}

/// What a pruned group says.
pub open spec fn opt_tree(g: Option<RuntimeGroupSpec>) -> Option<TreeText> {
    match g {
        Some(g) => Some(g@),
        None => None,
    }
}

fn pruned_group(
    group: &RuntimeGroupSpec,
    inherited: Option<&FeatureFlag>,
    policy: &FlagPolicy,
    path: &Vec<String>,
    registry: &mut FlagRegistry,
) -> (r: Option<RuntimeGroupSpec>)
    ensures
        ({
            let p = prune_group(
                group@,
                opt_flag(inherited),
                policy_text(*policy),
                text::texts(path@),
            );
            opt_tree(r) == p.kept && final(registry)@ == old(registry)@ + p.records
        }),
    decreases group,
{
    let flag = pick(&group.group.feature_flag, inherited);
    let here = child_path(path, &group.group.name);
    if !record_and_check_visibility(flag, policy, &here, registry) {
        return None;
    }
    let ghost first = registry@;
    let kept_groups = pruned_groups(&group.groups, flag, policy, &here, registry);
    let ghost second = registry@;
    let kept_commands = pruned_commands(&group.commands, flag, policy, &here, registry);
    proof {
        let f = opt_flag(flag);
        let p = policy_text(*policy);
        let at = text::texts(here@);
        let own = record_of(f, p, at);
        let gs = prune_groups(group@.groups, f, p, at);
        let cs = prune_commands(group@.commands, f, p, at);
        assert(first == old(registry)@ + own);
        assert(old(registry)@ + own + gs.records + cs.records =~= old(registry)@ + (own
            + gs.records + cs.records));
        groups::lemma_tree_texts(kept_groups@);
        assert(gs.kept.len() == kept_groups@.len());
        assert(cs.kept.len() == kept_commands@.len());
    }
    if kept_commands.len() == 0 && kept_groups.len() == 0 {
        None
    } else {
        Some(
            RuntimeGroupSpec {
                group: copy_head(&group.group),
                commands: kept_commands,
                groups: kept_groups,
            },
        )
    }
}

/// Walks a runtime group tree, resolving each node's effective feature flag by
/// cascading from `inherited` — a node's own flag wins if set, otherwise it
/// inherits the nearest ancestor's effective flag, otherwise it implicitly
/// resolves to a visible one with no key. Every node that resolves to a *named*
/// flag (own or inherited) is recorded into `registry` under its colon-separated
/// path, together with whether `policy` judged it visible.
///
/// Returns `None` when this group itself should be dropped from the tree —
/// either because its effective flag is not visible under `policy`, or
/// because every one of its commands and subgroups was pruned away.
///
/// An invisible ancestor short-circuits before its children are even visited: a
/// more permissive flag on a descendant cannot resurrect a subtree whose
/// enclosing group already failed the visibility check.
pub fn prune_feature_flag_tree(
    group: RuntimeGroupSpec,
    inherited: Option<&FeatureFlag>,
    policy: &FlagPolicy,
    prefix: &Vec<String>,
    registry: &mut FlagRegistry,
) -> (r: Option<RuntimeGroupSpec>)
    ensures
        ({
            let p = prune_group(
                group@,
                opt_flag(inherited),
                policy_text(*policy),
                text::texts(prefix@),
            );
            opt_tree(r) == p.kept && final(registry)@ == old(registry)@ + p.records
        }),
{
    pruned_group(&group, inherited, policy, prefix, registry)
}

/// Neither the group nor anything below it declares a flag.
pub open spec fn is_unflagged(group: TreeText) -> bool
    decreases group,
{
    &&& group.head.feature_flag is None
    &&& forall|i: int|
        0 <= i < group.commands.len() ==> (#[trigger] group.commands[i]).spec.feature_flag is None
    &&& are_unflagged(group.groups)
}

/// None of the groups declares a flag, nor does anything below them.
pub open spec fn are_unflagged(groups: Seq<TreeText>) -> bool
    decreases groups,
{
    if groups.len() == 0 {
        true
    } else {
        are_unflagged(groups.drop_last()) && is_unflagged(groups.last())
    }
}

/// Without flags nothing is recorded, and every command of a group stays.
pub proof fn law_unflagged_group_is_untouched(
    group: TreeText,
    policy: PolicyText,
    path: Seq<Seq<char>>,
)
    requires
        is_unflagged(group),
    ensures
        prune_group(group, None, policy, path).records.len() == 0,
        prune_group(group, None, policy, path).kept matches Some(k) ==> k.commands
            == group.commands && k.head == group.head,
        group.commands.len() > 0 ==> prune_group(group, None, policy, path).kept is Some,
    decreases group, 1nat,
{
    let here = path.push(group.head.name);
    lemma_unflagged_commands(group.commands, policy, here);
    lemma_unflagged_groups(group.groups, policy, here);
}

proof fn lemma_unflagged_commands(
    commands: Seq<RuntimeText>,
    policy: PolicyText,
    path: Seq<Seq<char>>,
)
    requires
        forall|i: int|
            0 <= i < commands.len() ==> (#[trigger] commands[i]).spec.feature_flag is None,
    ensures
        prune_commands(commands, None, policy, path).kept =~= commands,
        prune_commands(commands, None, policy, path).records.len() == 0,
    decreases commands.len(),
{
    if commands.len() > 0 {
        let init = commands.drop_last();
        assert(forall|i: int| 0 <= i < init.len() ==> init[i] == commands[i]);
        lemma_unflagged_commands(init, policy, path);
        assert(commands[commands.len() - 1].spec.feature_flag is None);
    }
}

proof fn lemma_unflagged_groups(
    groups: Seq<TreeText>,
    policy: PolicyText,
    path: Seq<Seq<char>>,
)
    requires
        are_unflagged(groups),
    ensures
        prune_groups(groups, None, policy, path).records.len() == 0,
    decreases groups, 0nat,
{
    if groups.len() > 0 {
        lemma_unflagged_groups(groups.drop_last(), policy, path);
        law_unflagged_group_is_untouched(groups.last(), policy, path);
    }
}

/// An invisible group is dropped whatever is below it, and nothing below it is
/// recorded.
pub proof fn law_invisible_group_hides_its_subtree(
    group: TreeText,
    inherited: Option<FlagText>,
    policy: PolicyText,
    path: Seq<Seq<char>>,
)
    requires
        !shows(effective(group.head.feature_flag, inherited), policy),
    ensures
        prune_group(group, inherited, policy, path).kept is None,
        prune_group(group, inherited, policy, path).records.len() == 1,
{
}

/// A command stays only where its flag, its own or inherited, is visible.
pub proof fn law_kept_commands_are_visible(
    commands: Seq<RuntimeText>,
    flag: Option<FlagText>,
    policy: PolicyText,
    path: Seq<Seq<char>>,
    i: int,
)
    requires
        0 <= i < prune_commands(commands, flag, policy, path).kept.len(),
    ensures
        shows(
            effective(
                prune_commands(commands, flag, policy, path).kept[i].spec.feature_flag,
                flag,
            ),
            policy,
        ),
    decreases commands.len(),
{
    if commands.len() > 0 {
        let before = prune_commands(commands.drop_last(), flag, policy, path).kept;
        if i < before.len() {
            law_kept_commands_are_visible(commands.drop_last(), flag, policy, path, i);
        }
    }
}

/// A group that stays has something below it.
pub proof fn law_kept_group_is_not_empty(
    group: TreeText,
    inherited: Option<FlagText>,
    policy: PolicyText,
    path: Seq<Seq<char>>,
)
    ensures
        prune_group(group, inherited, policy, path).kept matches Some(k) ==> k.commands.len() > 0
            || k.groups.len() > 0,
{
}

/// A command stays exactly where it is visible: by its own flag, else by the one
/// of its group, and always without one. Those that stay keep their order.
pub proof fn law_visible_commands_are_kept(
    first: Seq<RuntimeText>,
    c: RuntimeText,
    flag: Option<FlagText>,
    policy: PolicyText,
    path: Seq<Seq<char>>,
)
    ensures
        ({
            let before = prune_commands(first, flag, policy, path);
            let after = prune_commands(first.push(c), flag, policy, path);
            let counts = if c.spec.feature_flag is Some {
                c.spec.feature_flag
            } else {
                flag
            };
            &&& counts is None ==> after.kept == before.kept.push(c) && after.records
                == before.records
            &&& counts matches Some(f) ==> {
                let visible = feature_flags::is_visible(
                    policy.min_stage,
                    policy.overrides,
                    Some(f.0),
                    f.1,
                );
                &&& visible ==> after.kept == before.kept.push(c)
                &&& !visible ==> after.kept == before.kept
                &&& after.records.len() == before.records.len() + 1
                &&& after.records.last().path == text::join_spec(path.push(c.spec.name), ":"@)
                &&& after.records.last().key == f.0
                &&& after.records.last().stage == f.1
                &&& after.records.last().visible == visible
                &&& after.records.drop_last() == before.records
            }
        }),
{
    assert(first.push(c).drop_last() =~= first);
    assert(first.push(c).last() == c);
    let before = prune_commands(first, flag, policy, path);
    let after = prune_commands(first.push(c), flag, policy, path);
    assert(before.records + Seq::<FlagEntryText>::empty() =~= before.records);
    if effective(c.spec.feature_flag, flag) is Some {
        assert(after.records.drop_last() =~= before.records);
    }
}

/// A visible group that keeps something stays under its own name, with what is
/// kept of its commands and groups.
pub proof fn law_visible_group_is_kept(
    group: TreeText,
    inherited: Option<FlagText>,
    policy: PolicyText,
    path: Seq<Seq<char>>,
    i: int,
)
    requires
        shows(effective(group.head.feature_flag, inherited), policy),
        0 <= i < group.commands.len(),
        shows(
            effective(
                group.commands[i].spec.feature_flag,
                effective(group.head.feature_flag, inherited),
            ),
            policy,
        ),
    ensures
        prune_group(group, inherited, policy, path).kept matches Some(k) && k.head == group.head
            && k.commands.contains(group.commands[i]),
{
    let flag = effective(group.head.feature_flag, inherited);
    let here = path.push(group.head.name);
    lemma_kept_command(group.commands, flag, policy, here, i);
    let kept = prune_commands(group.commands, flag, policy, here).kept;
    assert(kept.contains(group.commands[i]));
    assert(kept.len() > 0);
}

proof fn lemma_kept_command(
    commands: Seq<RuntimeText>,
    flag: Option<FlagText>,
    policy: PolicyText,
    path: Seq<Seq<char>>,
    i: int,
)
    requires
        0 <= i < commands.len(),
        shows(effective(commands[i].spec.feature_flag, flag), policy),
    ensures
        prune_commands(commands, flag, policy, path).kept.contains(commands[i]),
        prune_commands(commands, flag, policy, path).kept.len() > 0,
    decreases commands.len(),
{
    let before = prune_commands(commands.drop_last(), flag, policy, path).kept;
    let all = prune_commands(commands, flag, policy, path).kept;
    if i < commands.len() - 1 {
        lemma_kept_command(commands.drop_last(), flag, policy, path, i);
        let k = choose|k: int| 0 <= k < before.len() && before[k] == commands[i];
        assert(all[k] == commands[i]);
    } else {
        assert(all[all.len() - 1] == commands[i]);
    }
}

/// The flag of a node is its own where it has one, and else the one above it.
pub proof fn law_own_flag_wins(own: FlagText, inherited: Option<FlagText>)
    ensures
        effective(Some(own), inherited) == Some(own),
        effective(None, inherited) == inherited,
{
}

} // verus!
