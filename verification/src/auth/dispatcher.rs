//! Auth providers by name.
use crate::auth::credential::{Credential, CredentialText};
use crate::auth::credential;
use crate::error::CliCoreError;
use crate::text;
use vstd::prelude::*;
use vstd::string::*;

verus! {

/// A provider under its name, known by the number that its owner gave it.
pub struct ProviderEntry {
    /// Name of the provider.
    pub name: String,
    /// Number of the provider.
    pub id: u64,
}

/// What a provider entry says.
#[verifier::ext_equal]
pub struct ProviderText {
    /// Name of the provider.
    pub name: Seq<char>,
    /// Number of the provider.
    pub id: u64,
}

impl View for ProviderEntry {
    type V = ProviderText;

    open spec fn view(&self) -> ProviderText {
        ProviderText { name: self.name@, id: self.id }
    }
}

/// Routes auth operations to registered providers by name.
pub struct Dispatcher {
    providers: Vec<ProviderEntry>,
}

impl View for Dispatcher {
    type V = Seq<ProviderText>;

    closed spec fn view(&self) -> Seq<ProviderText> {
        self.providers@.map_values(|e: ProviderEntry| e@)
    }
}

/// The place of the provider with a name, counted from `i`.
pub open spec fn place_from(d: Seq<ProviderText>, name: Seq<char>, i: int) -> Option<int>
    decreases d.len() - i,
{
    if i < 0 || i >= d.len() {
        None
    } else if d[i].name == name {
        Some(i)
    } else {
        place_from(d, name, i + 1)
    }
}

/// The provider registered under a name.
pub open spec fn provider_of(d: Seq<ProviderText>, name: Seq<char>) -> Option<u64> {
    match place_from(d, name, 0) {
        Some(p) => Some(d[p].id),
        None => None,
    }
}

/// The names of providers.
pub open spec fn provider_names(d: Seq<ProviderText>) -> Seq<Seq<char>> {
    d.map_values(|e: ProviderText| e.name)
}

/// The providers after a registration: the new one takes the place of the one
/// with its name, or comes last.
pub open spec fn registered(d: Seq<ProviderText>, name: Seq<char>, id: u64) -> Seq<ProviderText> {
    match place_from(d, name, 0) {
        Some(p) => d.update(p, ProviderText { name, id }),
        None => d.push(ProviderText { name, id }),
    }
}

proof fn lemma_place(d: Seq<ProviderText>, name: Seq<char>, i: int)
    requires
        0 <= i,
    ensures
        match place_from(d, name, i) {
            Some(p) => i <= p < d.len() && d[p].name == name && forall|k: int|
                i <= k < p ==> (#[trigger] d[k]).name != name,
            None => forall|k: int| i <= k < d.len() ==> (#[trigger] d[k]).name != name,
        },
    decreases d.len() - i,
{
    if i < d.len() && d[i].name != name {
        lemma_place(d, name, i + 1);
    }
}

proof fn lemma_place_is(d: Seq<ProviderText>, name: Seq<char>, i: int, p: int)
    requires
        0 <= i <= p < d.len(),
        d[p].name == name,
        forall|k: int| i <= k < p ==> (#[trigger] d[k]).name != name,
    ensures
        place_from(d, name, i) == Some(p),
    decreases p - i,
{
    if i < p {
        assert(d[i].name != name);
        lemma_place_is(d, name, i + 1, p);
    }
}

proof fn lemma_no_place(d: Seq<ProviderText>, name: Seq<char>, i: int)
    requires
        0 <= i,
        forall|k: int| i <= k < d.len() ==> (#[trigger] d[k]).name != name,
    ensures
        place_from(d, name, i) is None,
    decreases d.len() - i,
{
    if i < d.len() {
        assert(d[i].name != name);
        lemma_no_place(d, name, i + 1);
    }
}

impl Dispatcher {
    /// Creates an empty dispatcher.
    pub fn new() -> (r: Self)
        ensures
            r@.len() == 0,
    {
        Dispatcher { providers: Vec::new() }
    }

    fn place(&self, name: &str) -> (r: Option<usize>)
        ensures
            match r {
                Some(p) => place_from(self@, name@, 0) == Some(p as int) && p
                    < self.providers@.len(),
                None => place_from(self@, name@, 0) is None,
            },
    {
        let mut i: usize = 0;
        while i < self.providers.len()
            invariant
                i <= self.providers@.len(),
                place_from(self@, name@, 0) == place_from(self@, name@, i as int),
            decreases self.providers@.len() - i,
        {
            assert(self@[i as int] == self.providers@[i as int]@);
            if text::str_eq(self.providers[i].name.as_str(), name) {
                return Some(i);
            }
            i = i + 1;
        }
        None
    }

    /// Registers or replaces a provider under its name.
    pub fn register(&mut self, name: String, provider: u64)
        ensures
            final(self)@ == registered(old(self)@, name@, provider),
    {
        match self.place(name.as_str()) {
            Some(p) => {
                let entry = ProviderEntry { name, id: provider };
                self.providers.set(p, entry);
            },
            None => {
                self.providers.push(ProviderEntry { name, id: provider });
            },
        }
        assert(self@ =~= registered(old(self)@, name@, provider));
    }

    /// Returns provider names in registration order.
    pub fn registered_names(&self) -> (r: Vec<String>)
        ensures
            text::texts(r@) == provider_names(self@),
    {
        let mut r: Vec<String> = Vec::new();
        let mut i: usize = 0;
        while i < self.providers.len()
            invariant
                i <= self.providers@.len(),
                r@.len() == i,
                forall|k: int| 0 <= k < i ==> (#[trigger] r@[k])@ == self.providers@[k].name@,
            decreases self.providers@.len() - i,
        {
            r.push(self.providers[i].name.clone());
            i = i + 1;
        }
        assert(text::texts(r@) =~= provider_names(self@));
        r
    }

    /// A dispatcher with the same providers.
    pub fn copy(&self) -> (r: Self)
        ensures
            r@ == self@,
    {
        let mut providers: Vec<ProviderEntry> = Vec::new();
        let mut i: usize = 0;
        while i < self.providers.len()
            invariant
                i <= self.providers@.len(),
                providers@.len() == i,
                forall|k: int| 0 <= k < i ==> (#[trigger] providers@[k])@ == self.providers@[k]@,
            decreases self.providers@.len() - i,
        {
            providers.push(
                ProviderEntry { name: self.providers[i].name.clone(), id: self.providers[i].id },
            );
            i = i + 1;
        }
        let r = Dispatcher { providers };
        assert(r@ =~= self@);
        r
    }

    /// The number of the provider with a name.
    pub fn get(&self, name: &str) -> (r: Result<u64, CliCoreError>)
        ensures
            is_found(r, self@, name@),
    {
        match self.place(name) {
            Some(p) => {
                assert(self@[p as int] == self.providers@[p as int]@);
                Ok(self.providers[p].id)
            },
            None => Err(CliCoreError::MissingAuthProvider(name.to_owned())),
        }
    }
}

/// `r` is the number of the provider with a name, or the error that there is
/// none.
pub open spec fn is_found(
    r: Result<u64, CliCoreError>,
    d: Seq<ProviderText>,
    name: Seq<char>,
) -> bool {
    match r {
        Ok(id) => provider_of(d, name) == Some(id),
        Err(e) => provider_of(d, name) is None && (e matches CliCoreError::MissingAuthProvider(n)
            && n@ == name),
    }
}

/// The provider registered last under a name is the one found, and the others
/// stay.
pub proof fn law_last_registration_wins(
    d: Seq<ProviderText>,
    name: Seq<char>,
    id: u64,
    other: Seq<char>,
)
    ensures
        provider_of(registered(d, name, id), name) == Some(id),
        other != name ==> provider_of(registered(d, name, id), other) == provider_of(d, other),
{
    let e = registered(d, name, id);
    lemma_place(d, name, 0);
    lemma_place(d, other, 0);
    match place_from(d, name, 0) {
        Some(p) => {
            lemma_place_is(e, name, 0, p);
        },
        None => {
            lemma_place_is(e, name, 0, d.len() as int);
        },
    }
    if other != name {
        match place_from(d, other, 0) {
            Some(q) => {
                lemma_place_is(e, other, 0, q);
            },
            None => {
                lemma_no_place(e, other, 0);
            },
        }
    }
}

/// The providers after further registrations, one after another.
pub open spec fn registered_all(d: Seq<ProviderText>, more: Seq<ProviderText>) -> Seq<ProviderText>
    decreases more.len(),
{
    if more.len() == 0 {
        d
    } else {
        registered(registered_all(d, more.drop_last()), more.last().name, more.last().id)
    }
}

/// The names without every repeat after the first.
pub open spec fn first_names(names: Seq<Seq<char>>) -> Seq<Seq<char>>
    decreases names.len(),
{
    if names.len() == 0 {
        Seq::empty()
    } else {
        let before = first_names(names.drop_last());
        if before.contains(names.last()) {
            before
        } else {
            before.push(names.last())
        }
    }
}

/// The provider that was registered last under a name, if any was.
pub open spec fn last_registered(more: Seq<ProviderText>, name: Seq<char>) -> Option<u64>
    decreases more.len(),
{
    if more.len() == 0 {
        None
    } else if more.last().name == name {
        Some(more.last().id)
    } else {
        last_registered(more.drop_last(), name)
    }
}

/// After any registrations into an empty dispatcher its names are those of the
/// registrations in the order of the first of each, and none comes twice.
pub proof fn law_names_come_in_order_of_first_registration(regs: Seq<ProviderText>)
    ensures
        provider_names(registered_all(Seq::empty(), regs)) == first_names(provider_names(regs)),
        provider_names(registered_all(Seq::empty(), regs)).no_duplicates(),
    decreases regs.len(),
{
    let empty = Seq::<ProviderText>::empty();
    let d = registered_all(empty, regs);
    if regs.len() == 0 {
        assert(provider_names(d) =~= first_names(provider_names(regs)));
    } else {
        let name = regs.last().name;
        let before = registered_all(empty, regs.drop_last());
        law_names_come_in_order_of_first_registration(regs.drop_last());
        assert(provider_names(regs).drop_last() =~= provider_names(regs.drop_last()));
        lemma_place(before, name, 0);
        match place_from(before, name, 0) {
            Some(p) => {
                assert(provider_names(before)[p] == name);
                assert(provider_names(d) =~= provider_names(before));
            },
            None => {
                if provider_names(before).contains(name) {
                    let k = choose|k: int|
                        0 <= k < before.len() && provider_names(before)[k] == name;
                    assert(before[k].name != name);
                }
                assert(provider_names(d) =~= provider_names(before).push(name));
            },
        }
    }
}

/// The provider found under a name is the one that was registered last under it,
/// however many registrations came: a facade that was made before them finds it
/// too, and until there is one it finds what it found before.
pub proof fn law_facade_follows_the_registry(
    d: Seq<ProviderText>,
    more: Seq<ProviderText>,
    name: Seq<char>,
)
    ensures
        provider_of(registered_all(d, more), name) == match last_registered(more, name) {
            Some(id) => Some(id),
            None => provider_of(d, name),
        },
    decreases more.len(),
{
    if more.len() > 0 {
        law_facade_follows_the_registry(d, more.drop_last(), name);
        law_last_registration_wins(
            registered_all(d, more.drop_last()),
            more.last().name,
            more.last().id,
            name,
        );
    }
}

/// One provider of a dispatcher, known by its name.
pub struct SingleProvider {
    /// Name of the provider.
    pub name: String,
}

impl Dispatcher {
    /// The facade of one provider of this dispatcher.
    pub fn for_provider(&self, name: String) -> (r: SingleProvider)
        ensures
            r == (SingleProvider { name }),
    {
        SingleProvider { name }
    }
}

impl SingleProvider {
    /// The provider in the dispatcher, as it is registered now.
    pub fn get(&self, dispatcher: &Dispatcher) -> (r: Result<u64, CliCoreError>)
        ensures
            is_found(r, dispatcher@, self.name@),
    {
        dispatcher.get(self.name.as_str())
    }
}

/// Status row produced while querying all providers.
pub struct StatusEntry {
    /// Provider name.
    pub provider: String,
    /// Environment name.
    pub env: String,
    /// Cached credential when status succeeded.
    pub credential: Option<Credential>,
    /// Status error text when status failed.
    pub error: Option<String>,
}

/// What a status row says.
#[verifier::ext_equal]
pub struct StatusText {
    /// Provider name.
    pub provider: Seq<char>,
    /// Environment name.
    pub env: Seq<char>,
    /// Cached credential when status succeeded.
    pub credential: Option<CredentialText>,
    /// Status error text when status failed.
    pub error: Option<Seq<char>>,
}

impl View for StatusEntry {
    type V = StatusText;

    open spec fn view(&self) -> StatusText {
        StatusText {
            provider: self.provider@,
            env: self.env@,
            credential: credential::opt_credential(self.credential),
            error: crate::error::opt_text(self.error),
        }
    }
}

/// The row for what a provider said of one environment.
pub open spec fn status_of(
    provider: Seq<char>,
    env: Seq<char>,
    outcome: Result<Credential, String>,
) -> StatusText {
    StatusText {
        provider,
        env,
        credential: match outcome {
            Ok(c) => Some(c@),
            Err(_) => None,
        },
        error: match outcome {
            Ok(_) => None,
            Err(e) => Some(e@),
        },
    }
}

impl StatusEntry {
    /// The row for what a provider said of one environment.
    pub fn from_outcome(provider: &str, env: &str, outcome: Result<Credential, String>) -> (r: Self)
        ensures
            r@ == status_of(provider@, env@, outcome),
    {
        match outcome {
            Ok(c) => StatusEntry {
                provider: provider.to_owned(),
                env: env.to_owned(),
                credential: Some(c),
                error: None,
            },
            Err(e) => StatusEntry {
                provider: provider.to_owned(),
                env: env.to_owned(),
                credential: None,
                error: Some(e),
            },
        }
    }
}

/// A status row names the provider and the environment that it is about, and
/// holds the credential that the provider gave, or else its error.
pub proof fn law_status_is_of_the_provider(
    provider: Seq<char>,
    env: Seq<char>,
    outcome: Result<Credential, String>,
)
    ensures
        ({
            let s = status_of(provider, env, outcome);
            &&& s.provider == provider
            &&& s.env == env
            &&& outcome matches Ok(c) ==> s.credential == Some(c@) && s.error is None
            &&& outcome matches Err(e) ==> s.credential is None && s.error == Some(e@)
        }),
{
}

/// A provider that is registered is found under its name, and an unknown name is
/// an error that says it.
pub proof fn law_unknown_provider_is_an_error(
    r: Result<u64, CliCoreError>,
    d: Seq<ProviderText>,
    name: Seq<char>,
)
    requires
        is_found(r, d, name),
    ensures
        r is Ok <==> (exists|k: int| 0 <= k < d.len() && (#[trigger] d[k]).name == name),
        r matches Err(e) ==> (e matches CliCoreError::MissingAuthProvider(n) && n@ == name),
{
    lemma_place(d, name, 0);
    if place_from(d, name, 0) is Some {
        let p = place_from(d, name, 0)->0;
        assert(d[p].name == name);
    }
}

} // verus!
