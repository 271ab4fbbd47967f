//! What the middleware knows of a command.
use crate::json::Json;
use crate::json;
use crate::ordmap::{Duplicate, StringMap};
use crate::text;
use crate::tier::Tier;
use crate::tier;
use vstd::prelude::*;
use vstd::string::*;

verus! {

/// JSON object map used for command args and metadata.
pub type ValueMap = StringMap<Json>;

impl Duplicate for Json {
    open spec fn says_same(self, other: Self) -> bool {
        self@ == other@
    }

    fn duplicate(&self) -> (r: Self) {
        self.copy()
    }
}

/// The map after its entries were put into it one after the other.
pub open spec fn entries_map(entries: Seq<(String, Json)>) -> Map<Seq<char>, json::JsonModel>
    decreases entries.len(),
{
    if entries.len() == 0 {
        Map::empty()
    } else {
        entries_map(entries.drop_last()).insert(entries.last().0@, entries.last().1@)
    }
}

/// Builds a JSON object map.
pub fn value_map(entries: &Vec<(String, Json)>) -> (r: ValueMap)
    ensures
        json::map_models(r@) == entries_map(entries@),
{
    let mut r: StringMap<Json> = StringMap::new();
    let mut i: usize = 0;
    proof {
        assert(entries@.take(0) =~= Seq::empty());
        assert(json::map_models(r@) =~= entries_map(entries@.take(0)));
    }
    while i < entries.len()
        invariant
            i <= entries@.len(),
            json::map_models(r@) == entries_map(entries@.take(i as int)),
        decreases entries@.len() - i,
    {
        let ghost before = r@;
        let key = entries[i].0.clone();
        let value = entries[i].1.copy();
        r.insert(key, value);
        proof {
            assert(entries@.take(i + 1).drop_last() =~= entries@.take(i as int));
            assert(json::map_models(r@) =~= json::map_models(before).insert(key@, value@));
        }
        i = i + 1;
    }
    proof {
        assert(entries@.take(i as int) =~= entries@);
    }
    r
}

/// Per-command metadata consumed by middleware.
///
/// Command specs build this metadata automatically.
pub struct CommandMeta {
    /// Whether `--dry-run` should short-circuit command business logic.
    pub dry_run_prompt: bool,
    /// Whether the command handles `--dry-run` itself instead of being
    /// generically short-circuited.
    pub handles_dry_run: bool,
    /// Provider-specific auth metadata.
    pub auth_metadata: StringMap<String>,
    /// OAuth-style scopes derived from `auth_metadata["scopes"]`.
    pub scopes: Vec<String>,
}

/// What the metadata of a command say.
#[verifier::ext_equal]
pub struct MetaText {
    /// Whether `--dry-run` should short-circuit command business logic.
    pub dry_run_prompt: bool,
    /// Whether the command handles `--dry-run` itself.
    pub handles_dry_run: bool,
    /// Provider-specific auth metadata.
    pub auth_metadata: Map<Seq<char>, Seq<char>>,
    /// OAuth-style scopes.
    pub scopes: Seq<Seq<char>>,
}

/// The texts of a map.
pub open spec fn text_map(m: Map<Seq<char>, String>) -> Map<Seq<char>, Seq<char>> {
    m.map_values(|s: String| s@)
}

impl View for CommandMeta {
    type V = MetaText;

    open spec fn view(&self) -> MetaText {
        MetaText {
            dry_run_prompt: self.dry_run_prompt,
            handles_dry_run: self.handles_dry_run,
            auth_metadata: text_map(self.auth_metadata@),
            scopes: text::texts(self.scopes@),
        }
    }
}

/// The value of a key, if there is one.
pub open spec fn value_of(m: Map<Seq<char>, Seq<char>>, key: Seq<char>) -> Option<Seq<char>> {
    if m.dom().contains(key) {
        Some(m[key])
    } else {
        None
    }
}

/// The risk tier that metadata name, [`Tier::Read`] where they name none.
pub open spec fn tier_of(m: MetaText) -> Tier {
    match value_of(m.auth_metadata, "tier"@) {
        Some(name) => match tier::named_tier(name) {
            Some(t) => t,
            None => Tier::Read,
        },
        None => Tier::Read,
    }
}

/// The metadata with other scopes.
pub open spec fn with_scopes(m: MetaText, scopes: Seq<Seq<char>>) -> MetaText {
    MetaText {
        auth_metadata: if scopes.len() == 0 {
            m.auth_metadata.remove("scopes"@)
        } else {
            m.auth_metadata.insert("scopes"@, text::join_spec(scopes, " "@))
        },
        scopes,
        ..m
    }
}

/// Copies a map of texts.
pub fn copy_text_map(m: &StringMap<String>) -> (r: StringMap<String>)
    ensures
        text_map(r@) == text_map(m@),
{
    let n: usize = m.len();
    let ghost order = m.order();
    let mut r: StringMap<String> = StringMap::new();
    let mut i: usize = 0;
    while i < n
        invariant
            i <= n == order.len(),
            order == m.order(),
            crate::ordmap::is_key_order(order, m@),
            forall|k: Seq<char>| #[trigger]
                r@.dom().contains(k) <==> order.take(i as int).contains(k),
            forall|k: Seq<char>| #[trigger] r@.dom().contains(k) ==> r@[k]@ == m@[k]@,
        decreases n - i,
    {
        let key = m.key_at(i).clone();
        let value = m.value_at(i).clone();
        let ghost before = r@;
        r.insert(key, value);
        proof {
            let seen = order.take(i as int);
            let next = order.take(i + 1);
            assert(next =~= seen.push(key@));
            assert forall|k: Seq<char>| #[trigger] r@.dom().contains(k) <==> next.contains(k) by {
                assert(before.dom().contains(k) <==> seen.contains(k));
                if seen.contains(k) {
                    let j = choose|j: int| 0 <= j < seen.len() && seen[j] == k;
                    assert(next[j] == k);
                }
                if k == key@ {
                    assert(next[i as int] == k);
                }
            }
        }
        i = i + 1;
    }
    proof {
        assert(order.take(i as int) =~= order);
        assert forall|k: Seq<char>| r@.dom().contains(k) <==> m@.dom().contains(k) by {
            assert(order.contains(k) <==> m@.dom().contains(k));
        }
        assert(text_map(r@) =~= text_map(m@));
    }
    r
}

impl CommandMeta {
    /// Metadata that say nothing.
    pub fn new() -> (r: Self)
        ensures
            !r@.dry_run_prompt,
            !r@.handles_dry_run,
            r@.auth_metadata == Map::<Seq<char>, Seq<char>>::empty(),
            r@.scopes.len() == 0,
    {
        let r = CommandMeta {
            dry_run_prompt: false,
            handles_dry_run: false,
            auth_metadata: StringMap::new(),
            scopes: Vec::new(),
        };
        assert(r@.auth_metadata =~= Map::<Seq<char>, Seq<char>>::empty());
        r
    }

    fn value(&self, key: &str) -> (r: Option<&str>)
        ensures
            match r {
                Some(v) => value_of(self@.auth_metadata, key@) == Some(v@),
                None => value_of(self@.auth_metadata, key@) is None,
            },
    {
        match self.auth_metadata.get(key) {
            Some(v) => Some(v.as_str()),
            None => None,
        }
    }

    /// Returns the selected auth provider, if one is present.
    pub fn provider(&self) -> (r: Option<&str>)
        ensures
            match r {
                Some(v) => value_of(self@.auth_metadata, "provider"@) == Some(v@),
                None => value_of(self@.auth_metadata, "provider"@) is None,
            },
    {
        self.value("provider")
    }

    /// Returns the risk tier, defaulting to [`Tier::Read`].
    pub fn tier(&self) -> (r: Tier)
        ensures
            r == tier_of(self@),
    {
        match self.value("tier") {
            Some(name) => match Tier::parse(name) {
                Some(t) => t,
                None => Tier::Read,
            },
            None => Tier::Read,
        }
    }

    /// Returns a fixed auth environment override, if present.
    pub fn fixed_env(&self) -> (r: Option<&str>)
        ensures
            match r {
                Some(v) => value_of(self@.auth_metadata, "fixed_env"@) == Some(v@),
                None => value_of(self@.auth_metadata, "fixed_env"@) is None,
            },
    {
        self.value("fixed_env")
    }

    /// The text of the tier, empty where there is none.
    pub fn tier_text(&self) -> (r: String)
        ensures
            r@ == (match value_of(self@.auth_metadata, "tier"@) {
                Some(v) => v,
                None => ""@,
            }),
    {
        match self.value("tier") {
            Some(v) => v.to_owned(),
            None => "".to_owned(),
        }
    }

    /// Sets the OAuth scopes, keeping [`scopes`](CommandMeta::scopes) and
    /// `auth_metadata["scopes"]` consistent.
    ///
    /// An empty list removes the key.
    pub fn set_scopes(&mut self, scopes: Vec<String>)
        ensures
            final(self)@ == with_scopes(old(self)@, text::texts(scopes@)),
    {
        let ghost before = self.auth_metadata@;
        if scopes.len() == 0 {
            self.auth_metadata.remove("scopes");
        } else {
            let joined = text::join(&scopes, " ");
            self.auth_metadata.insert("scopes".to_owned(), joined);
        }
        self.scopes = scopes;
        assert(self@ =~= with_scopes(old(self)@, text::texts(scopes@)));
    }

    /// Copies the metadata.
    pub fn copy(&self) -> (r: Self)
        ensures
            r@ == self@,
    {
        CommandMeta {
            dry_run_prompt: self.dry_run_prompt,
            handles_dry_run: self.handles_dry_run,
            auth_metadata: copy_text_map(&self.auth_metadata),
            scopes: text::clone_strings(&self.scopes),
        }
    }
}

/// The scopes and the metadata under `scopes` agree once they were set.
pub proof fn law_scopes_stay_consistent(m: MetaText, scopes: Seq<Seq<char>>)
    ensures
        value_of(with_scopes(m, scopes).auth_metadata, "scopes"@) == (if scopes.len() == 0 {
            None
        } else {
            Some(text::join_spec(with_scopes(m, scopes).scopes, " "@))
        }),
{
}

/// Declares whether a command requires an authenticated credential.
///
/// The default is [`Required`](AuthRequirement::Required), which fails closed:
/// the engine resolves the credential before the handler runs, so a command that
/// should be gated behind authentication cannot execute unauthenticated even if
/// its handler never reads the credential.
#[derive(Clone, Copy, Debug, PartialEq, Eq, Structural)]
pub enum AuthRequirement {
    /// The engine resolves the credential before the handler runs (fail-closed).
    Required,
    /// Resolution is deferred to the handler.
    Optional,
    /// The command never authenticates and has no credential.
    Never,
}

impl Default for AuthRequirement {
    fn default() -> (r: Self)
        ensures
            r == AuthRequirement::Required,
    {
        AuthRequirement::Required
    }
}

impl AuthRequirement {
    /// Returns `true` when the command never authenticates.
    pub fn is_none(self) -> (r: bool)
        ensures
            r == (self is Never),
    {
        match self {
            AuthRequirement::Never => true,
            _ => false,
        }
    }

    /// Returns `true` when the engine must resolve the credential before the handler runs.
    pub fn is_required(self) -> (r: bool)
        ensures
            r == (self is Required),
    {
        match self {
            AuthRequirement::Required => true,
            _ => false,
        }
    }

    /// Returns `true` when resolution is deferred to the handler.
    pub fn is_optional(self) -> (r: bool)
        ensures
            r == (self is Optional),
    {
        match self {
            AuthRequirement::Optional => true,
            _ => false,
        }
    }
}

/// Other scopes change nothing else: every other entry and both marks stay.
pub proof fn law_scopes_change_nothing_else(m: MetaText, scopes: Seq<Seq<char>>, key: Seq<char>)
    ensures
        with_scopes(m, scopes).scopes == scopes,
        with_scopes(m, scopes).dry_run_prompt == m.dry_run_prompt,
        with_scopes(m, scopes).handles_dry_run == m.handles_dry_run,
        key != "scopes"@ ==> value_of(with_scopes(m, scopes).auth_metadata, key) == value_of(
            m.auth_metadata,
            key,
        ),
{
}

/// Metadata that name a tier have it, and without one, or with a name that is
/// no tier's, the lowest.
pub proof fn law_named_tier_counts(m: MetaText, t: Tier)
    ensures
        value_of(m.auth_metadata, "tier"@) == Some(tier::tier_name(t)) ==> tier_of(m) == t,
        value_of(m.auth_metadata, "tier"@) is None ==> tier_of(m) == Tier::Read,
        value_of(m.auth_metadata, "tier"@) matches Some(name) ==> (tier::named_tier(name) is None
            ==> tier_of(m) == Tier::Read),
{
    tier::law_tier_name_round_trips(t);
}

} // verus!
