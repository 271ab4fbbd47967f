//! Risk tiers of commands.
use crate::text;
use vstd::prelude::*;
use vstd::string::*;

verus! {

/// Risk tier of a command, used by authentication, authorization and dry-run.
#[derive(Clone, Copy, Debug, PartialEq, Eq, Structural)]
pub enum Tier {
    /// The command only reads.
    Read,
    /// The command changes something.
    Mutate,
}

/// The name of a tier.
pub open spec fn tier_name(tier: Tier) -> Seq<char> {
    match tier {
        Tier::Read => "read"@,
        Tier::Mutate => "mutate"@,
    }
}

/// The tier that goes by a name.
pub open spec fn named_tier(name: Seq<char>) -> Option<Tier> {
    if name == "read"@ {
        Some(Tier::Read)
    } else if name == "mutate"@ {
        Some(Tier::Mutate)
    } else {
        None
    }
}

impl Tier {
    /// The name of the tier.
    pub fn as_str(self) -> (r: &'static str)
        ensures
            r@ == tier_name(self),
    {
        match self {
            Tier::Read => "read",
            Tier::Mutate => "mutate",
        }
    }

    /// The tier that goes by `name`.
    pub fn parse(name: &str) -> (r: Option<Tier>)
        ensures
            r == named_tier(name@),
    {
        if text::str_eq(name, "read") {
            Some(Tier::Read)
        } else if text::str_eq(name, "mutate") {
            Some(Tier::Mutate)
        } else {
            None
        }
    }

    /// Tells whether a command of this tier changes something.
    pub fn is_mutating(self) -> (r: bool)
        ensures
            r == (self == Tier::Mutate),
    {
        match self {
            Tier::Read => false,
            Tier::Mutate => true,
        }
    }
}

/// A tier is found again by its name.
pub proof fn law_tier_name_round_trips(tier: Tier)
    ensures
        named_tier(tier_name(tier)) == Some(tier),
{
    reveal_strlit("read");
    reveal_strlit("mutate");
    assert("read"@.len() != "mutate"@.len());
}

/// Each tier goes by its own name and by no other.
pub proof fn law_tiers_go_by_their_names(name: Seq<char>)
    ensures
        named_tier("read"@) == Some(Tier::Read),
        named_tier("mutate"@) == Some(Tier::Mutate),
        tier_name(Tier::Read) == "read"@,
        tier_name(Tier::Mutate) == "mutate"@,
        named_tier(name) matches Some(t) ==> name == tier_name(t),
{
    law_tier_name_round_trips(Tier::Read);
    law_tier_name_round_trips(Tier::Mutate);
}

} // verus!
