//! The feature-flag policy that an environment brings.
use crate::env_config::{Answer, EnvConfig, EnvConfigError, SourceChain, SourceText};
use crate::env_config;
use crate::feature_flags::{FlagPolicy, Stage};
use crate::feature_flags;
use crate::ordmap::StringMap;
use crate::ordmap;
use crate::toml_value::{Toml, TomlView};
use crate::toml_value;
use vstd::prelude::*;
use vstd::string::*;

verus! {

/// The part of an environment that decides which flagged nodes are mounted.
pub struct FlagSettings {
    /// Minimum stage, where the environment sets one.
    pub min_stage: Option<Stage>,
    /// Stages by flag key.
    pub feature_overrides: StringMap<Stage>,
}

/// The stage that an answer names, none where there is no answer.
pub open spec fn stage_in(a: env_config::AnswerText) -> Option<Option<Stage>> {
    match a {
        env_config::AnswerText::Absent => Some(None),
        env_config::AnswerText::Var(t) => match feature_flags::named_stage(t) {
            Some(stage) => Some(Some(stage)),
            None => None,
        },
        env_config::AnswerText::Value(TomlView::Text(t)) => match feature_flags::named_stage(t) {
            Some(stage) => Some(Some(stage)),
            None => None,
        },
        _ => None,
    }
}

/// The stage that a value names.
pub open spec fn value_stage(v: TomlView) -> Option<Stage> {
    match v {
        TomlView::Text(t) => feature_flags::named_stage(t),
        _ => None,
    }
}

/// Every value of the table names a stage.
pub open spec fn names_stages(m: Map<Seq<char>, TomlView>) -> bool {
    forall|k: Seq<char>| #[trigger] m.dom().contains(k) ==> value_stage(m[k]) is Some
}

/// The stages that the values of a table name.
pub open spec fn stages_of(m: Map<Seq<char>, TomlView>) -> Map<Seq<char>, Stage> {
    m.map_values(|v: TomlView| value_stage(v)->0)
}

/// The stages that an answer names by key, none where there is no answer.
pub open spec fn stages_in(a: env_config::AnswerText) -> Option<Map<Seq<char>, Stage>> {
    match a {
        env_config::AnswerText::Absent => Some(Map::empty()),
        env_config::AnswerText::Value(TomlView::Table(m)) => if names_stages(m) {
            Some(stages_of(m))
        } else {
            None
        },
        _ => None,
    }
}

/// The answer for the minimum stage.
pub open spec fn min_stage_answer(chain: Seq<SourceText>) -> env_config::AnswerText {
    env_config::answer_from(chain, 0, "min_stage"@, Some("MIN_STAGE"@), false)
}

/// The answer for the stages by flag key.
pub open spec fn overrides_answer(chain: Seq<SourceText>) -> env_config::AnswerText {
    env_config::answer_from(chain, 0, "feature_overrides"@, None, false)
}

/// `r` is what a chain of sources says of feature flags, or the error.
pub open spec fn is_flag_settings(
    r: Result<FlagSettings, EnvConfigError>,
    chain: Seq<SourceText>,
) -> bool {
    match (stage_in(min_stage_answer(chain)), stages_in(overrides_answer(chain))) {
        (Some(stage), Some(stages)) => r matches Ok(s) && s.min_stage == stage
            && s.feature_overrides@ == stages,
        (None, _) => r matches Err(EnvConfigError::InvalidField { field, reason }) && field@
            == "min_stage"@ && reason@ == "must be one of experimental, beta, ga"@,
        (Some(_), None) => r matches Err(EnvConfigError::InvalidField { field, reason }) && field@
            == "feature_overrides"@ && reason@ == "must be one of experimental, beta, ga"@,
    }
}

fn invalid(field: &str) -> (r: EnvConfigError)
    ensures
        r matches EnvConfigError::InvalidField { field: f, reason } && f@ == field@ && reason@
            == "must be one of experimental, beta, ga"@,
{
    EnvConfigError::InvalidField {
        field: field.to_owned(),
        reason: "must be one of experimental, beta, ga".to_owned(),
    }
}

fn stages_from(table: &StringMap<Toml>) -> (r: Option<StringMap<Stage>>)
    ensures
        ({
            let m = toml_value::table_says(table@);
            match r {
                Some(stages) => names_stages(m) && stages@ == stages_of(m),
                None => !names_stages(m),
            }
        }),
{
    let ghost m = toml_value::table_says(table@);
    let n: usize = table.len();
    let ghost order = table.order();
    let mut r: StringMap<Stage> = StringMap::new();
    let mut i: usize = 0;
    while i < n
        invariant
            i <= n == order.len(),
            order == table.order(),
            ordmap::is_key_order(order, table@),
            m == toml_value::table_says(table@),
            forall|k: Seq<char>| #[trigger]
                r@.dom().contains(k) <==> order.take(i as int).contains(k),
            forall|k: Seq<char>| #[trigger]
                r@.dom().contains(k) ==> m.dom().contains(k) && value_stage(m[k]) == Some(r@[k]),
        decreases n - i,
    {
        let key = table.key_at(i);
        let value = table.value_at(i);
        let ghost seen = order.take(i as int);
        let ghost next = order.take(i + 1);
        let ghost before = r@;
        proof {
            assert(next =~= seen.push(key@));
            assert(m.dom().contains(key@) && m[key@] == value@);
            assert forall|k: Seq<char>| next.contains(k) <==> (seen.contains(k) || k == key@) by {
                if seen.contains(k) {
                    let j = choose|j: int| 0 <= j < seen.len() && seen[j] == k;
                    assert(next[j] == k);
                }
                if k == key@ {
                    assert(next[i as int] == k);
                }
            }
        }
        let stage = match value.as_str() {
            Some(t) => match Stage::parse(t) {
                Ok(stage) => Some(stage),
                Err(_) => None,
            },
            None => None,
        };
        match stage {
            Some(stage) => {
                r.insert(key.clone(), stage);
            },
            None => {
                assert(value_stage(m[key@]) is None);
                return None;
            },
        }
        proof {
            assert forall|k: Seq<char>| #[trigger] r@.dom().contains(k) implies m.dom().contains(k)
                && value_stage(m[k]) == Some(r@[k]) by {
                if k != key@ {
                    assert(before.dom().contains(k));
                }
            }
            assert forall|k: Seq<char>| #[trigger] r@.dom().contains(k) <==> next.contains(k) by {
                assert(before.dom().contains(k) <==> seen.contains(k));
            }
        }
        i = i + 1;
    }
    proof {
        assert(order.take(n as int) =~= order);
        assert forall|k: Seq<char>| #[trigger] m.dom().contains(k) implies value_stage(
            m[k],
        ) is Some by {
            assert(order.contains(k) <==> table@.dom().contains(k));
            assert(r@.dom().contains(k));
        }
        assert forall|k: Seq<char>| #[trigger] r@.dom().contains(k) <==> m.dom().contains(k) by {
            assert(order.contains(k) <==> table@.dom().contains(k));
        }
        assert(r@ =~= stages_of(m));
    }
    Some(r)
}

impl EnvConfig for FlagSettings {
    fn assemble(sources: &SourceChain) -> (r: Result<Self, EnvConfigError>)
        ensures
            is_flag_settings(r, sources@),
    {
        let named = match sources.answer("min_stage", Some("MIN_STAGE"), false) {
            Answer::Absent => Some(None),
            Answer::Var(t) => match Stage::parse(t.as_str()) {
                Ok(stage) => Some(Some(stage)),
                Err(_) => None,
            },
            Answer::Value(v) => match v.as_str() {
                Some(t) => match Stage::parse(t) {
                    Ok(stage) => Some(Some(stage)),
                    Err(_) => None,
                },
                None => None,
            },
        };
        let min_stage = match named {
            Some(stage) => stage,
            None => {
                return Err(invalid("min_stage"));
            },
        };
        let feature_overrides = match sources.answer("feature_overrides", None, false) {
            Answer::Absent => StringMap::new(),
            Answer::Var(_) => {
                return Err(invalid("feature_overrides"));
            },
            Answer::Value(v) => {
                let stages = match v.as_table() {
                    Some(table) => stages_from(table),
                    None => None,
                };
                match stages {
                    Some(stages) => stages,
                    None => {
                        return Err(invalid("feature_overrides"));
                    },
                }
            },
        };
        Ok(FlagSettings { min_stage, feature_overrides })
    }
}

/// `r` is the policy with what an environment sets on top.
pub open spec fn is_policy(
    r: FlagPolicy,
    policy: FlagPolicy,
    settings: Option<FlagSettings>,
) -> bool {
    match settings {
        Some(s) => feature_flags::is_merged(r, policy, s.min_stage, s.feature_overrides@),
        None => r == policy,
    }
}

/// The policy with what an environment sets on top; an environment that cannot
/// be resolved changes nothing.
pub fn environment_policy(policy: FlagPolicy, settings: &Option<FlagSettings>) -> (r: FlagPolicy)
    ensures
        is_policy(r, policy, *settings),
{
    match settings {
        Some(s) => policy.merged_with(s.min_stage, &s.feature_overrides),
        None => policy,
    }
}

/// What an environment sets comes on top of the policy: its minimum stage where
/// it sets one, and its stages key by key; other keys stay.
pub proof fn law_environment_sets_the_policy(
    r: FlagPolicy,
    policy: FlagPolicy,
    s: FlagSettings,
    key: Seq<char>,
)
    requires
        is_policy(r, policy, Some(s)),
    ensures
        s.min_stage matches Some(stage) ==> r.min_stage == stage,
        s.min_stage is None ==> r.min_stage == policy.min_stage,
        s.feature_overrides@.dom().contains(key) ==> r.overrides@.dom().contains(key)
            && r.overrides@[key] == s.feature_overrides@[key],
        !s.feature_overrides@.dom().contains(key) ==> r.overrides@.dom().contains(key)
            == policy.overrides@.dom().contains(key),
        !s.feature_overrides@.dom().contains(key) && policy.overrides@.dom().contains(key)
            ==> r.overrides@[key] == policy.overrides@[key],
{
}

/// The settings of an environment are the stages that it names, under their
/// keys; a name that is no stage's is refused.
pub proof fn law_named_stages_are_read(
    r: Result<FlagSettings, EnvConfigError>,
    chain: Seq<SourceText>,
    stage: Stage,
)
    requires
        is_flag_settings(r, chain),
        overrides_answer(chain) is Absent,
    ensures
        min_stage_answer(chain) is Absent ==> (r matches Ok(s) && s.min_stage is None),
        min_stage_answer(chain) == env_config::AnswerText::Var(feature_flags::stage_name(stage))
            ==> (r matches Ok(s) && s.min_stage == Some(stage)),
        min_stage_answer(chain) == env_config::AnswerText::Value(
            TomlView::Text(feature_flags::stage_name(stage)),
        ) ==> (r matches Ok(s) && s.min_stage == Some(stage)),
        min_stage_answer(chain) matches env_config::AnswerText::Var(t)
            ==> (feature_flags::named_stage(t) is None ==> r is Err),
{
    feature_flags::law_stage_name_round_trips(stage);
}

/// The stages by key are those that a table of names says.
pub proof fn law_stages_by_key_are_read(
    r: Result<FlagSettings, EnvConfigError>,
    chain: Seq<SourceText>,
    table: Map<Seq<char>, TomlView>,
    key: Seq<char>,
    stage: Stage,
)
    requires
        is_flag_settings(r, chain),
        overrides_answer(chain) == env_config::AnswerText::Value(TomlView::Table(table)),
        r is Ok,
    ensures
        r->Ok_0.feature_overrides@.dom() =~= table.dom(),
        table.dom().contains(key) && table[key] == TomlView::Text(feature_flags::stage_name(stage))
            ==> r->Ok_0.feature_overrides@[key] == stage,
        table.dom().contains(key) ==> table[key] is Text,
{
    feature_flags::law_stage_name_round_trips(stage);
}

} // verus!
