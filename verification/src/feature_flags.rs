//! Stage-based feature flags: a command, group or module can declare the stage
//! at which it becomes visible, and a policy decides whether that stage is
//! enabled.
use crate::fs;
use crate::ordmap::StringMap;
use crate::text;
use std::cmp::Ordering;
use vstd::prelude::*;
use vstd::string::*;

verus! {

/// Feature readiness stage.
#[derive(Clone, Copy, Debug, PartialEq, Eq, Ord, Structural)]
pub enum Stage {
    /// Early, unstable functionality; visible only when explicitly opted in.
    Experimental,
    /// Functionally complete but still gathering feedback.
    Beta,
    /// Fully promoted and visible by default.
    Ga,
}

/// How far a stage is from the first one.
pub open spec fn rank(stage: Stage) -> int {
    match stage {
        Stage::Experimental => 0,
        Stage::Beta => 1,
        Stage::Ga => 2,
    }
}

impl PartialOrd for Stage {
    fn partial_cmp(&self, other: &Stage) -> (r: Option<Ordering>) {
        match (self, other) {
            (Stage::Experimental, Stage::Experimental) => Some(Ordering::Equal),
            (Stage::Beta, Stage::Beta) => Some(Ordering::Equal),
            (Stage::Ga, Stage::Ga) => Some(Ordering::Equal),
            (Stage::Experimental, _) => Some(Ordering::Less),
            (_, Stage::Experimental) => Some(Ordering::Greater),
            (Stage::Beta, Stage::Ga) => Some(Ordering::Less),
            (Stage::Ga, Stage::Beta) => Some(Ordering::Greater),
        }
    }
}

impl vstd::std_specs::cmp::PartialOrdSpecImpl for Stage {
    open spec fn obeys_partial_cmp_spec() -> bool {
        true
    }

    open spec fn partial_cmp_spec(&self, other: &Stage) -> Option<Ordering> {
        if rank(*self) < rank(*other) {
            Some(Ordering::Less)
        } else if rank(*self) == rank(*other) {
            Some(Ordering::Equal)
        } else {
            Some(Ordering::Greater)
        }
    }
}

/// The name of a stage.
pub open spec fn stage_name(stage: Stage) -> Seq<char> {
    match stage {
        Stage::Experimental => "experimental"@,
        Stage::Beta => "beta"@,
        Stage::Ga => "ga"@,
    }
}

/// The stage that a name stands for.
pub open spec fn named_stage(name: Seq<char>) -> Option<Stage> {
    if name == "experimental"@ {
        Some(Stage::Experimental)
    } else if name == "beta"@ {
        Some(Stage::Beta)
    } else if name == "ga"@ {
        Some(Stage::Ga)
    } else {
        None
    }
}

/// Error returned when parsing an unknown feature stage.
#[derive(Debug, PartialEq, Eq)]
pub struct ParseStageError {
    /// What was read.
    pub value: String,
}

impl ParseStageError {
    /// The text of the error.
    pub fn to_text(&self) -> (r: String)
        ensures
            r@ == "invalid stage "@ + text::debug_quoted(self.value@)
                + ": must be one of experimental, beta, ga"@,
    {
        let mut r = "invalid stage ".to_owned();
        r.append(text::debug_text(self.value.as_str()).as_str());
        r.append(": must be one of experimental, beta, ga");
        r
    }
}

impl Stage {
    /// Returns the wire string for the stage.
    pub fn as_str(self) -> (r: &'static str)
        ensures
            r@ == stage_name(self),
    {
        match self {
            Stage::Experimental => "experimental",
            Stage::Beta => "beta",
            Stage::Ga => "ga",
        }
    }

    /// Reads the name of a stage.
    pub fn parse(value: &str) -> (r: Result<Stage, ParseStageError>)
        ensures
            match r {
                Ok(stage) => named_stage(value@) == Some(stage),
                Err(e) => named_stage(value@) is None && e.value@ == value@,
            },
    {
        if text::str_eq(value, "experimental") {
            Ok(Stage::Experimental)
        } else if text::str_eq(value, "beta") {
            Ok(Stage::Beta)
        } else if text::str_eq(value, "ga") {
            Ok(Stage::Ga)
        } else {
            Err(ParseStageError { value: value.to_owned() })
        }
    }
}

impl Default for Stage {
    fn default() -> (r: Self)
        ensures
            r == Stage::Ga,
    {
        Stage::Ga
    }
}

impl std::str::FromStr for Stage {
    type Err = ParseStageError;

    fn from_str(value: &str) -> Result<Self, ParseStageError> {
        Stage::parse(value)
    }
}

/// The name of a stage is read back as that stage.
pub proof fn law_stage_name_round_trips(stage: Stage)
    ensures
        named_stage(stage_name(stage)) == Some(stage),
{
    reveal_strlit("experimental");
    reveal_strlit("beta");
    reveal_strlit("ga");
    assert("beta"@[0] != "experimental"@[0]);
    assert("ga"@[0] != "experimental"@[0] && "ga"@[0] != "beta"@[0]);
}

/// A named feature flag: a key paired with the stage at which the flagged node
/// becomes visible.
#[derive(Debug)]
pub struct FeatureFlag {
    /// Stable identifier used for policy overrides and introspection.
    pub key: String,
    /// Stage at which the flagged node becomes visible.
    pub stage: Stage,
}

impl FeatureFlag {
    /// Creates a new feature flag with the given key and stage.
    pub fn new(key: String, stage: Stage) -> (r: Self)
        ensures
            r == (FeatureFlag { key, stage }),
    {
        FeatureFlag { key, stage }
    }

    /// Copies the flag.
    pub fn copy(&self) -> (r: Self)
        ensures
            r == *self,
    {
        FeatureFlag { key: self.key.clone(), stage: self.stage }
    }
}

/// What a flag says: its key and its stage.
pub open spec fn flag_text(flag: Option<FeatureFlag>) -> Option<(Seq<char>, Stage)> {
    match flag {
        Some(f) => Some((f.key@, f.stage)),
        None => None,
    }
}

/// The decision inputs for one run: the least stage that a node needs to be
/// visible, and overrides of the stage by flag key.
pub struct FlagPolicy {
    /// Minimum stage a node must meet (or exceed) to be visible.
    pub min_stage: Stage,
    /// Per-key overrides that substitute a forced effective stage for the
    /// node's own declared stage.
    pub overrides: StringMap<Stage>,
}

/// The stage that counts: that of an override for the key, else the declared
/// one.
pub open spec fn effective_stage(
    overrides: Map<Seq<char>, Stage>,
    key: Option<Seq<char>>,
    stage: Stage,
) -> Stage {
    match key {
        Some(k) => if overrides.dom().contains(k) {
            overrides[k]
        } else {
            stage
        },
        None => stage,
    }
}

/// A node with this key and this declared stage is visible.
pub open spec fn is_visible(
    min_stage: Stage,
    overrides: Map<Seq<char>, Stage>,
    key: Option<Seq<char>>,
    stage: Stage,
) -> bool {
    rank(effective_stage(overrides, key, stage)) >= rank(min_stage)
}

/// `r` is the policy with a minimum stage and overrides on top.
pub open spec fn is_merged(
    r: FlagPolicy,
    policy: FlagPolicy,
    min_stage: Option<Stage>,
    overrides: Map<Seq<char>, Stage>,
) -> bool {
    &&& r.min_stage == (match min_stage {
        Some(stage) => stage,
        None => policy.min_stage,
    })
    &&& r.overrides@ =~= policy.overrides@.union_prefer_right(overrides)
}

impl Default for FlagPolicy {
    fn default() -> (r: Self)
        ensures
            r.min_stage == Stage::Ga,
            r.overrides@ == Map::<Seq<char>, Stage>::empty(),
    {
        FlagPolicy { min_stage: Stage::Ga, overrides: StringMap::new() }
    }
}

impl FlagPolicy {
    /// Creates a policy with the minimum stage [`Stage::Ga`] and no overrides.
    pub fn new() -> (r: Self)
        ensures
            r.min_stage == Stage::Ga,
            r.overrides@ == Map::<Seq<char>, Stage>::empty(),
    {
        FlagPolicy { min_stage: Stage::Ga, overrides: StringMap::new() }
    }

    /// Sets the minimum stage required for a node to be visible.
    pub fn with_min_stage(self, stage: Stage) -> (r: Self)
        ensures
            r.min_stage == stage,
            r.overrides == self.overrides,
    {
        FlagPolicy { min_stage: stage, overrides: self.overrides }
    }

    /// Adds (or replaces) a per-key override.
    pub fn with_override(self, key: String, stage: Stage) -> (r: Self)
        ensures
            r.min_stage == self.min_stage,
            r.overrides@ == self.overrides@.insert(key@, stage),
    {
        let mut overrides = self.overrides;
        overrides.insert(key, stage);
        FlagPolicy { min_stage: self.min_stage, overrides }
    }

    /// Returns whether a node is visible under this policy.
    pub fn visible(&self, key: Option<&str>, stage: Stage) -> (r: bool)
        ensures
            r == is_visible(self.min_stage, self.overrides@, fs::str_text(key), stage),
    {
        let effective = match key {
            Some(k) => match self.overrides.get(k) {
                Some(forced) => *forced,
                None => stage,
            },
            None => stage,
        };
        effective >= self.min_stage
    }

    /// Takes over the minimum stage and the overrides that an environment
    /// sets; they win over those of the policy.
    pub fn merged_with(self, min_stage: Option<Stage>, overrides: &StringMap<Stage>) -> (r: Self)
        ensures
            is_merged(r, self, min_stage, overrides@),
    {
        let mut merged = self.overrides;
        let n: usize = overrides.len();
        let mut i: usize = 0;
        let ghost order = overrides.order();
        while i < n
            invariant
                n == order.len(),
                i <= n,
                order == overrides.order(),
                forall|k: Seq<char>|
                    #[trigger] merged@.dom().contains(k) <==> self.overrides@.dom().contains(k)
                        || order.take(i as int).contains(k),
                forall|k: Seq<char>|
                    #[trigger] merged@.dom().contains(k) ==> merged@[k] == (if order.take(
                        i as int,
                    ).contains(k) {
                        overrides@[k]
                    } else {
                        self.overrides@[k]
                    }),
            decreases n - i,
        {
            let key = overrides.key_at(i).clone();
            let stage = *overrides.value_at(i);
            let ghost before = merged@;
            merged.insert(key, stage);
            proof {
                let now = order.take(i + 1);
                assert(now =~= order.take(i as int).push(key@));
                assert forall|k: Seq<char>| now.contains(k) <==> (order.take(i as int).contains(k)
                    || k == key@) by {
                    if order.take(i as int).contains(k) {
                        let j = choose|j: int|
                            0 <= j < i && order.take(i as int)[j] == k;
                        assert(now[j] == k);
                    }
                    if k == key@ {
                        assert(now[i as int] == k);
                    }
                    if now.contains(k) && k != key@ {
                        let j = choose|j: int| 0 <= j < i + 1 && now[j] == k;
                        assert(order.take(i as int)[j] == k);
                    }
                }
            }
            i = i + 1;
        }
        assert(order.take(n as int) =~= order);
        assert(merged@ =~= self.overrides@.union_prefer_right(overrides@));
        FlagPolicy {
            min_stage: match min_stage {
                Some(stage) => stage,
                None => self.min_stage,
            },
            overrides: merged,
        }
    }
}

/// What is visible stays visible when the minimum stage is lowered.
pub proof fn law_lower_minimum_shows_more(
    low: Stage,
    high: Stage,
    overrides: Map<Seq<char>, Stage>,
    key: Option<Seq<char>>,
    stage: Stage,
)
    requires
        rank(low) <= rank(high),
        is_visible(high, overrides, key, stage),
    ensures
        is_visible(low, overrides, key, stage),
{
}

/// An override decides alone: the declared stage of its key does not matter.
pub proof fn law_override_replaces_stage(
    min_stage: Stage,
    overrides: Map<Seq<char>, Stage>,
    key: Seq<char>,
    a: Stage,
    b: Stage,
)
    requires
        overrides.dom().contains(key),
    ensures
        is_visible(min_stage, overrides, Some(key), a) == is_visible(
            min_stage,
            overrides,
            Some(key),
            b,
        ),
{
}

/// A flagged node that was met while a command tree was mounted.
#[derive(Debug)]
pub struct FlagEntry {
    /// Colon-separated path of the node.
    pub path: String,
    /// Key of its flag.
    pub key: String,
    /// Declared stage of its flag.
    pub stage: Stage,
    /// Whether the policy made it visible.
    pub visible: bool,
}

/// What an entry says.
#[verifier::ext_equal]
pub struct FlagEntryText {
    /// Path of the node.
    pub path: Seq<char>,
    /// Key of its flag.
    pub key: Seq<char>,
    /// Declared stage.
    pub stage: Stage,
    /// Whether it is visible.
    pub visible: bool,
}

impl View for FlagEntry {
    type V = FlagEntryText;

    open spec fn view(&self) -> FlagEntryText {
        FlagEntryText {
            path: self.path@,
            key: self.key@,
            stage: self.stage,
            visible: self.visible,
        }
    }
}

/// What each entry of a list says.
pub open spec fn entry_texts(entries: Seq<FlagEntry>) -> Seq<FlagEntryText> {
    Seq::new(entries.len(), |i: int| entries[i]@)
}

/// The flagged nodes of a command tree, in the order in which they were met.
pub struct FlagRegistry {
    entries: Vec<FlagEntry>,
}

impl View for FlagRegistry {
    type V = Seq<FlagEntryText>;

    closed spec fn view(&self) -> Seq<FlagEntryText> {
        entry_texts(self.entries@)
    }
}

/// The entries with a key.
pub open spec fn with_key(entries: Seq<FlagEntryText>, key: Seq<char>) -> Seq<FlagEntryText>
    decreases entries.len(),
{
    if entries.len() == 0 {
        Seq::empty()
    } else if entries.last().key == key {
        with_key(entries.drop_last(), key).push(entries.last())
    } else {
        with_key(entries.drop_last(), key)
    }
}

impl FlagRegistry {
    /// The registry without entries.
    pub fn new() -> (r: Self)
        ensures
            r@ == Seq::<FlagEntryText>::empty(),
    {
        let r = FlagRegistry { entries: Vec::new() };
        assert(r@ =~= Seq::<FlagEntryText>::empty());
        r
    }

    /// Adds an entry.
    pub fn record(&mut self, entry: FlagEntry)
        ensures
            final(self)@ == old(self)@.push(entry@),
    {
        self.entries.push(entry);
        assert(self@ =~= old(self)@.push(entry@));
    }

    /// All entries.
    pub fn entries(&self) -> (r: &Vec<FlagEntry>)
        ensures
            entry_texts(r@) == self@,
    {
        &self.entries
    }

    /// The entries with a key.
    pub fn by_key(&self, key: &str) -> (r: Vec<&FlagEntry>)
        ensures
            Seq::new(r@.len(), |i: int| r@[i]@) == with_key(self@, key@),
    {
        let ghost all = self@;
        let mut r: Vec<&FlagEntry> = Vec::new();
        let mut i: usize = 0;
        assert(Seq::new(r@.len(), |k: int| r@[k]@) =~= with_key(all.take(0), key@));
        while i < self.entries.len()
            invariant
                i <= self.entries@.len(),
                all == entry_texts(self.entries@),
                Seq::new(r@.len(), |k: int| r@[k]@) == with_key(all.take(i as int), key@),
            decreases self.entries@.len() - i,
        {
            assert(all.take(i + 1).drop_last() =~= all.take(i as int));
            let ghost before = r@;
            if text::str_eq(self.entries[i].key.as_str(), key) {
                r.push(&self.entries[i]);
                assert(Seq::new(r@.len(), |k: int| r@[k]@) =~= Seq::new(
                    before.len(),
                    |k: int| before[k]@,
                ).push(all[i as int]));
            }
            i = i + 1;
        }
        assert(all.take(self.entries@.len() as int) =~= all);
        r
    }
}

/// The entries of a key are those of the list that have it, in its order.
pub proof fn law_entries_of_a_key(entries: Seq<FlagEntryText>, key: Seq<char>)
    ensures
        forall|e: FlagEntryText| #[trigger]
            with_key(entries, key).contains(e) <==> entries.contains(e) && e.key == key,
        with_key(entries, key).len() <= entries.len(),
    decreases entries.len(),
{
    if entries.len() > 0 {
        let init = entries.drop_last();
        law_entries_of_a_key(init, key);
        let before = with_key(init, key);
        let all = with_key(entries, key);
        assert(entries[entries.len() - 1] == entries.last());
        assert forall|e: FlagEntryText| #[trigger] all.contains(e) <==> entries.contains(e) && e.key
            == key by {
            assert(before.contains(e) <==> init.contains(e) && e.key == key);
            if init.contains(e) {
                let i = choose|i: int| 0 <= i < init.len() && init[i] == e;
                assert(entries[i] == e);
            }
            if entries.contains(e) && e != entries.last() {
                let i = choose|i: int| 0 <= i < entries.len() && entries[i] == e;
                assert(init[i] == e);
            }
            if before.contains(e) {
                let i = choose|i: int| 0 <= i < before.len() && before[i] == e;
                assert(all[i] == e);
            }
            if entries.last().key == key {
                assert(all[all.len() - 1] == entries.last());
            }
            if all.contains(e) && e != entries.last() {
                let i = choose|i: int| 0 <= i < all.len() && all[i] == e;
                assert(before[i] == e);
            }
        }
    }
}

/// The entries of a key in two lists one behind the other are those of the first
/// and then those of the second.
pub proof fn law_entries_keep_their_order(
    a: Seq<FlagEntryText>,
    b: Seq<FlagEntryText>,
    key: Seq<char>,
)
    ensures
        with_key(a + b, key) == with_key(a, key) + with_key(b, key),
    decreases b.len(),
{
    if b.len() == 0 {
        assert(a + b =~= a);
        assert(with_key(a, key) + with_key(b, key) =~= with_key(a, key));
    } else {
        law_entries_keep_their_order(a, b.drop_last(), key);
        assert((a + b).drop_last() =~= a + b.drop_last());
        assert((a + b).last() == b.last());
        if b.last().key == key {
            assert(with_key(a, key) + with_key(b, key) =~= (with_key(a, key) + with_key(
                b.drop_last(),
                key,
            )).push(b.last()));
        }
    }
}

/// A node is visible exactly where the stage that counts is not below the least
/// one: without an override its own stage counts, with one for its key the
/// override alone.
pub proof fn law_stage_decides_visibility(
    min_stage: Stage,
    overrides: Map<Seq<char>, Stage>,
    key: Seq<char>,
    stage: Stage,
    forced: Stage,
)
    ensures
        is_visible(Stage::Experimental, overrides, Some(key), stage),
        is_visible(min_stage, overrides.insert(key, Stage::Ga), Some(key), stage),
        is_visible(min_stage, overrides.remove(key), Some(key), stage) == is_visible(
            min_stage,
            overrides,
            None,
            stage,
        ),
        is_visible(min_stage, overrides.insert(key, forced), Some(key), stage) == is_visible(
            min_stage,
            overrides,
            None,
            forced,
        ),
        is_visible(Stage::Ga, overrides, None, stage) <==> stage is Ga,
        is_visible(Stage::Beta, overrides, None, stage) <==> !(stage is Experimental),
{
}

/// Each stage goes by its own name and by no other.
pub proof fn law_stages_go_by_their_names(name: Seq<char>)
    ensures
        named_stage("experimental"@) == Some(Stage::Experimental),
        named_stage("beta"@) == Some(Stage::Beta),
        named_stage("ga"@) == Some(Stage::Ga),
        stage_name(Stage::Experimental) == "experimental"@,
        stage_name(Stage::Beta) == "beta"@,
        stage_name(Stage::Ga) == "ga"@,
        named_stage(name) matches Some(s) ==> name == stage_name(s),
        rank(Stage::Experimental) < rank(Stage::Beta) < rank(Stage::Ga),
{
    law_stage_name_round_trips(Stage::Experimental);
    law_stage_name_round_trips(Stage::Beta);
    law_stage_name_round_trips(Stage::Ga);
}

} // verus!
