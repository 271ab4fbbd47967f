//! The credential of one command invocation, resolved at most once for a set of
//! scopes.
use crate::auth::credential::{Credential, CredentialText};
use crate::auth::credential;
use crate::error::CliCoreError;
use crate::error;
use crate::middleware::meta::{CommandMeta, MetaText};
use crate::middleware::meta;
use crate::text;
use vstd::prelude::*;
use vstd::string::*;

verus! {

/// Resolves the credential for a single command invocation, memoizing the result.
///
/// A handler and an authorizer that both ask share a single resolution. Scopes
/// that the memoized credential does not cover yet lead to another resolution,
/// for the wider set. The provider itself is asked by the caller: [`begin`]
/// says what to ask for, and [`finish`] takes the answer.
///
/// [`begin`]: CredentialResolver::begin
/// [`finish`]: CredentialResolver::finish
pub struct CredentialResolver {
    provider: String,
    env: String,
    command_path: String,
    tier: String,
    no_auth: bool,
    meta: CommandMeta,
    credential: Option<Credential>,
    requested: Vec<String>,
    first: Option<Credential>,
}

/// What a resolver holds.
#[verifier::ext_equal]
pub struct ResolverText {
    /// Provider that is asked.
    pub provider: Seq<char>,
    /// Environment of the credential.
    pub env: Seq<char>,
    /// Colon-separated command path.
    pub command_path: Seq<char>,
    /// Text of the tier.
    pub tier: Seq<char>,
    /// Whether the command never authenticates.
    pub no_auth: bool,
    /// Metadata of the command; their scopes are always requested.
    pub meta: MetaText,
    /// The resolved credential.
    pub credential: Option<CredentialText>,
    /// The scopes it was requested with.
    pub requested: Seq<Seq<char>>,
    /// The credential resolved first.
    pub first: Option<CredentialText>,
}

impl View for CredentialResolver {
    type V = ResolverText;

    closed spec fn view(&self) -> ResolverText {
        ResolverText {
            provider: self.provider@,
            env: self.env@,
            command_path: self.command_path@,
            tier: self.tier@,
            no_auth: self.no_auth,
            meta: self.meta@,
            credential: credential::opt_credential(self.credential),
            requested: text::texts(self.requested@),
            first: credential::opt_credential(self.first),
        }
    }
}

/// What a provider is asked for.
pub struct CredentialRequest {
    /// Provider that is asked.
    pub provider: String,
    /// Environment of the credential.
    pub env: String,
    /// Colon-separated command path.
    pub command: String,
    /// Text of the tier.
    pub tier: String,
    /// Metadata of the command, with the scopes to request.
    pub meta: CommandMeta,
}

/// What a request says.
#[verifier::ext_equal]
pub struct RequestText {
    /// Provider that is asked.
    pub provider: Seq<char>,
    /// Environment of the credential.
    pub env: Seq<char>,
    /// Colon-separated command path.
    pub command: Seq<char>,
    /// Text of the tier.
    pub tier: Seq<char>,
    /// Metadata of the command, with the scopes to request.
    pub meta: MetaText,
}

impl View for CredentialRequest {
    type V = RequestText;

    open spec fn view(&self) -> RequestText {
        RequestText {
            provider: self.provider@,
            env: self.env@,
            command: self.command@,
            tier: self.tier@,
            meta: self.meta@,
        }
    }
}

/// The request of a login: no command, and the additional scopes on top of the
/// provider's own.
pub open spec fn login_text(
    provider: Seq<char>,
    env: Seq<char>,
    additional_scopes: Seq<Seq<char>>,
) -> RequestText {
    RequestText {
        provider,
        env,
        command: ""@,
        tier: ""@,
        meta: meta::with_scopes(no_meta(), additional_scopes),
    }
}

/// The request of a login: no command, and the additional scopes on top of the
/// provider's own.
pub fn login_request(provider: &str, env: &str, additional_scopes: &Vec<String>) -> (r:
    CredentialRequest)
    ensures
        r@ == login_text(provider@, env@, text::texts(additional_scopes@)),
{
    let mut m = CommandMeta::new();
    assert(m@ =~= no_meta());
    m.set_scopes(text::clone_strings(additional_scopes));
    CredentialRequest {
        provider: provider.to_owned(),
        env: env.to_owned(),
        command: "".to_owned(),
        tier: "".to_owned(),
        meta: m,
    }
}

/// Metadata that say nothing.
pub open spec fn no_meta() -> MetaText {
    MetaText {
        dry_run_prompt: false,
        handles_dry_run: false,
        auth_metadata: Map::empty(),
        scopes: Seq::empty(),
    }
}

/// What a resolver does when it is asked for a credential.
pub enum ResolveStep {
    /// The command has no credential.
    Refused(CliCoreError),
    /// The memoized credential covers the scopes.
    Memoized(Credential),
    /// The provider has to be asked.
    Ask(CredentialRequest),
}

/// The scopes that a request for `extra` scopes wants.
pub open spec fn wanted(r: ResolverText, extra: Seq<Seq<char>>) -> Seq<Seq<char>> {
    text::with_missing(r.meta.scopes, extra)
}

/// The memoized credential covers the wanted scopes.
pub open spec fn is_memoized(r: ResolverText, extra: Seq<Seq<char>>) -> bool {
    r.credential is Some && text::covers(r.requested, wanted(r, extra))
}

/// What the provider is asked for: everything requested before and the wanted
/// scopes.
pub open spec fn request_for(r: ResolverText, extra: Seq<Seq<char>>) -> RequestText {
    RequestText {
        provider: r.provider,
        env: r.env,
        command: r.command_path,
        tier: r.tier,
        meta: meta::with_scopes(
            r.meta,
            text::with_missing(r.requested, wanted(r, extra)),
        ),
    }
}

/// `step` is what the resolver does for `extra` scopes.
pub open spec fn is_step(r: ResolverText, extra: Seq<Seq<char>>, step: ResolveStep) -> bool {
    if r.no_auth {
        step matches ResolveStep::Refused(e) && error::is_message(
            e,
            "command is marked no_auth and has no credential"@,
        )
    } else if is_memoized(r, extra) {
        step matches ResolveStep::Memoized(c) && r.credential == Some(c@)
    } else {
        step matches ResolveStep::Ask(q) && q@ == request_for(r, extra)
    }
}

/// Stable identity discriminator for a credential: the subject when set,
/// otherwise the human identity.
pub open spec fn identity_key_of(c: CredentialText) -> Seq<char> {
    if c.sub.len() == 0 {
        c.identity
    } else {
        c.sub
    }
}

/// The two credentials belong to identities that are known and different.
pub open spec fn switches_identity(before: CredentialText, after: CredentialText) -> bool {
    identity_key_of(before).len() > 0 && identity_key_of(after).len() > 0 && identity_key_of(
        before,
    ) != identity_key_of(after)
}

/// The credential would switch the identity of the invocation.
pub open spec fn is_switch(r: ResolverText, c: CredentialText) -> bool {
    r.credential is Some && switches_identity(r.credential->0, c)
}

/// The message for a step-up that came back as someone else.
pub open spec fn switch_message(before: CredentialText, after: CredentialText) -> Seq<char> {
    "scope step-up authenticated as a different identity (was "@ + text::debug_quoted(
        identity_key_of(before),
    ) + ", now "@ + text::debug_quoted(identity_key_of(after)) + "); aborting"@
}

/// The resolver after the provider gave a credential for `requested` scopes.
pub open spec fn resolved(
    r: ResolverText,
    requested: Seq<Seq<char>>,
    c: CredentialText,
) -> ResolverText {
    ResolverText {
        credential: Some(c),
        requested,
        first: match r.first {
            Some(f) => Some(f),
            None => Some(c),
        },
        ..r
    }
}

/// The error is marked as one of resolution, and is otherwise as it was.
pub open spec fn is_resolution_error(
    r: CliCoreError,
    provider: Seq<char>,
    source: CliCoreError,
) -> bool {
    match source {
        CliCoreError::MissingAuthProvider(_) => r == source,
        CliCoreError::AuthProvider { .. } => r == source,
        _ => r matches CliCoreError::AuthProvider { provider: p, source: s } && p@ == provider
            && *s == source,
    }
}

/// `after` and `answer` are what a resolver holds and answers after the provider
/// spoke.
pub open spec fn is_finished(
    before: ResolverText,
    after: ResolverText,
    request: RequestText,
    outcome: Result<Credential, CliCoreError>,
    answer: Result<Credential, CliCoreError>,
) -> bool {
    match outcome {
        Err(source) => after == before && (answer matches Err(e) && is_resolution_error(
            e,
            before.provider,
            source,
        )),
        Ok(c) => if is_switch(before, c@) {
            after == before && (answer matches Err(e) && error::is_message(
                e,
                switch_message(before.credential->0, c@),
            ))
        } else {
            after == resolved(before, request.meta.scopes, c@) && (answer matches Ok(given)
                && given@ == c@)
        },
    }
}

/// Marks a credential-resolution failure so its auth origin is detectable,
/// leaving errors that are already auth-typed unchanged.
pub fn auth_resolution_error(provider: &str, source: CliCoreError) -> (r: CliCoreError)
    ensures
        is_resolution_error(r, provider@, source),
{
    match source {
        CliCoreError::MissingAuthProvider(name) => CliCoreError::MissingAuthProvider(name),
        CliCoreError::AuthProvider { provider, source } => CliCoreError::AuthProvider {
            provider,
            source,
        },
        other => CliCoreError::AuthProvider {
            provider: provider.to_owned(),
            source: Box::new(other),
        },
    }
}

/// Stable identity discriminator for a credential.
pub fn identity_key(c: &Credential) -> (r: &str)
    ensures
        r@ == identity_key_of(c@),
{
    if c.sub.as_str().is_empty() {
        c.identity.as_str()
    } else {
        c.sub.as_str()
    }
}

impl CredentialResolver {
    /// A resolver that has not resolved anything yet.
    pub fn new(
        provider: String,
        env: String,
        command_path: String,
        tier: String,
        no_auth: bool,
        meta: CommandMeta,
    ) -> (r: Self)
        ensures
            r@ == (ResolverText {
                provider: provider@,
                env: env@,
                command_path: command_path@,
                tier: tier@,
                no_auth,
                meta: meta@,
                credential: None,
                requested: Seq::empty(),
                first: None,
            }),
    {
        let r = CredentialResolver {
            provider,
            env,
            command_path,
            tier,
            no_auth,
            meta,
            credential: None,
            requested: Vec::new(),
            first: None,
        };
        assert(r@.requested =~= Seq::empty());
        r
    }

    /// What to do for a credential that also covers `extra` scopes.
    pub fn begin(&self, extra: &Vec<String>) -> (r: ResolveStep)
        ensures
            is_step(self@, text::texts(extra@), r),
    {
        if self.no_auth {
            return ResolveStep::Refused(
                CliCoreError::message(
                    "command is marked no_auth and has no credential".to_owned(),
                ),
            );
        }
        let mut want = text::clone_strings(&self.meta.scopes);
        text::add_missing(&mut want, extra);
        match &self.credential {
            Some(c) => {
                if text::list_covers(&self.requested, &want) {
                    return ResolveStep::Memoized(c.copy());
                }
            },
            None => {},
        }
        let mut requested = text::clone_strings(&self.requested);
        text::add_missing(&mut requested, &want);
        let mut m = self.meta.copy();
        m.set_scopes(requested);
        ResolveStep::Ask(
            CredentialRequest {
                provider: self.provider.clone(),
                env: self.env.clone(),
                command: self.command_path.clone(),
                tier: self.tier.clone(),
                meta: m,
            },
        )
    }

    /// Takes what the provider said to a request. A credential of another
    /// identity than the one before is refused.
    pub fn finish(
        &mut self,
        request: CredentialRequest,
        outcome: Result<Credential, CliCoreError>,
    ) -> (r: Result<Credential, CliCoreError>)
        ensures
            is_finished(old(self)@, final(self)@, request@, outcome, r),
    {
        let c = match outcome {
            Err(source) => {
                return Err(auth_resolution_error(self.provider.as_str(), source));
            },
            Ok(c) => c,
        };
        match &self.credential {
            Some(previous) => {
                let before = identity_key(previous);
                let after = identity_key(&c);
                if !before.is_empty() && !after.is_empty() && !text::str_eq(before, after) {
                    let mut m =
                        "scope step-up authenticated as a different identity (was ".to_owned();
                    m.append(text::debug_text(before).as_str());
                    m.append(", now ");
                    m.append(text::debug_text(after).as_str());
                    m.append("); aborting");
                    return Err(CliCoreError::message(m));
                }
            },
            None => {},
        }
        let given = c.copy();
        if self.first.is_none() {
            self.first = Some(c.copy());
        }
        self.credential = Some(c);
        self.requested = request.meta.scopes;
        Ok(given)
    }

    /// Returns the credential resolved first, without triggering resolution.
    pub fn peek(&self) -> (r: Option<&Credential>)
        ensures
            match r {
                Some(c) => self@.first == Some(c@),
                None => self@.first is None,
            },
    {
        match &self.first {
            Some(c) => Some(c),
            None => None,
        }
    }

    /// Tells whether the command never authenticates, so that nothing has to be
    /// resolved where a credential is optional.
    pub fn never_authenticates(&self) -> (r: bool)
        ensures
            r == self@.no_auth,
    {
        self.no_auth
    }
}

/// Once a request for scopes was answered, asking for them again triggers no
/// other resolution.
pub proof fn law_resolution_is_memoized(
    r: ResolverText,
    extra: Seq<Seq<char>>,
    c: CredentialText,
)
    requires
        !r.no_auth,
        !is_memoized(r, extra),
    ensures
        is_memoized(resolved(r, request_for(r, extra).meta.scopes, c), extra),
{
    text::lemma_with_missing_covers(r.requested, wanted(r, extra));
}

/// A wider request never loses scopes that were requested before.
pub proof fn law_step_up_keeps_scopes(
    r: ResolverText,
    extra: Seq<Seq<char>>,
    c: CredentialText,
)
    ensures
        text::covers(
            resolved(r, request_for(r, extra).meta.scopes, c).requested,
            r.requested,
        ),
{
    text::lemma_with_missing_covers(r.requested, wanted(r, extra));
}

/// The credential that audit and activity see is the one resolved first,
/// whatever is resolved later.
pub proof fn law_first_credential_stays(
    r: ResolverText,
    requested: Seq<Seq<char>>,
    c: CredentialText,
)
    requires
        r.first is Some,
    ensures
        resolved(r, requested, c).first == r.first,
{
}

/// The identity of the credential in use is that of the one resolved first, as
/// long as providers tell identities.
pub open spec fn same_identity(r: ResolverText) -> bool {
    match (r.first, r.credential) {
        (Some(f), Some(c)) => identity_key_of(f).len() > 0 && identity_key_of(c).len() > 0
            && identity_key_of(f) == identity_key_of(c),
        (None, None) => true,
        _ => false,
    }
}

/// A resolution that is not refused keeps the identity.
pub proof fn law_step_up_keeps_identity(
    r: ResolverText,
    requested: Seq<Seq<char>>,
    c: CredentialText,
)
    requires
        same_identity(r),
        identity_key_of(c).len() > 0,
        !is_switch(r, c),
    ensures
        same_identity(resolved(r, requested, c)),
{
}

/// A command that never authenticates asks no provider and has no credential.
pub proof fn law_no_auth_is_refused(r: ResolverText, extra: Seq<Seq<char>>, step: ResolveStep)
    requires
        r.no_auth,
        is_step(r, extra, step),
    ensures
        step is Refused,
{
}

/// A provider is asked exactly where the credential at hand does not cover the
/// scopes, and the credential at hand is given where it does.
pub proof fn law_provider_is_asked_only_where_needed(
    r: ResolverText,
    extra: Seq<Seq<char>>,
    step: ResolveStep,
)
    requires
        !r.no_auth,
        is_step(r, extra, step),
    ensures
        r.credential is None ==> step is Ask,
        step matches ResolveStep::Memoized(c) ==> r.credential == Some(c@) && text::covers(
            r.requested,
            r.meta.scopes,
        ) && text::covers(r.requested, extra),
        r.credential is Some && text::covers(r.requested, r.meta.scopes) && text::covers(
            r.requested,
            extra,
        ) ==> step is Memoized,
        step is Memoized || step is Ask,
{
    text::lemma_with_missing_covers(r.meta.scopes, extra);
    let all = wanted(r, extra);
    if text::covers(r.requested, all) {
        assert forall|i: int| 0 <= i < r.meta.scopes.len() implies r.requested.contains(
            #[trigger] r.meta.scopes[i],
        ) by {
            assert(all.contains(r.meta.scopes[i]));
            let j = choose|j: int| 0 <= j < all.len() && all[j] == r.meta.scopes[i];
            assert(r.requested.contains(all[j]));
        }
        assert forall|i: int| 0 <= i < extra.len() implies r.requested.contains(
            #[trigger] extra[i],
        ) by {
            assert(all.contains(extra[i]));
            let j = choose|j: int| 0 <= j < all.len() && all[j] == extra[i];
            assert(r.requested.contains(all[j]));
        }
    }
    if text::covers(r.requested, r.meta.scopes) && text::covers(r.requested, extra) {
        assert forall|i: int| 0 <= i < all.len() implies r.requested.contains(
            #[trigger] all[i],
        ) by {
            assert(all.contains(all[i]));
            if r.meta.scopes.contains(all[i]) {
                let j = choose|j: int| 0 <= j < r.meta.scopes.len() && r.meta.scopes[j] == all[i];
                assert(r.requested.contains(r.meta.scopes[j]));
            } else {
                let j = choose|j: int| 0 <= j < extra.len() && extra[j] == all[i];
                assert(r.requested.contains(extra[j]));
            }
        }
    }
}

/// A request to a provider is for the provider, environment, command and tier
/// of the invocation. It asks for the scopes of the command, the extra ones and
/// those requested before, and for no others.
pub proof fn law_request_is_for_the_invocation(
    r: ResolverText,
    extra: Seq<Seq<char>>,
    scope: Seq<char>,
)
    ensures
        request_for(r, extra).provider == r.provider,
        request_for(r, extra).env == r.env,
        request_for(r, extra).command == r.command_path,
        request_for(r, extra).tier == r.tier,
        request_for(r, extra).meta.scopes.contains(scope) <==> r.meta.scopes.contains(scope)
            || extra.contains(scope) || r.requested.contains(scope),
{
    let some = wanted(r, extra);
    let all = text::with_missing(r.requested, some);
    text::lemma_with_missing_covers(r.meta.scopes, extra);
    text::lemma_with_missing_covers(r.requested, some);
    if r.meta.scopes.contains(scope) {
        let i = choose|i: int| 0 <= i < r.meta.scopes.len() && r.meta.scopes[i] == scope;
        assert(some.contains(r.meta.scopes[i]));
    }
    if extra.contains(scope) {
        let i = choose|i: int| 0 <= i < extra.len() && extra[i] == scope;
        assert(some.contains(extra[i]));
    }
    if some.contains(scope) {
        let i = choose|i: int| 0 <= i < some.len() && some[i] == scope;
        assert(all.contains(some[i]));
    }
    if r.requested.contains(scope) {
        let i = choose|i: int| 0 <= i < r.requested.len() && r.requested[i] == scope;
        assert(all.contains(r.requested[i]));
    }
    assert(request_for(r, extra).meta.scopes == all);
}

/// A credential that the provider gave is answered and kept, with the scopes
/// that it was asked for; the first one stays known. All else stays.
pub proof fn law_given_credential_is_kept(
    before: ResolverText,
    after: ResolverText,
    request: RequestText,
    c: Credential,
    answer: Result<Credential, CliCoreError>,
)
    requires
        is_finished(before, after, request, Ok(c), answer),
        before.credential matches Some(old_one) ==> old_one.sub.len() == 0 || old_one.sub
            == c@.sub,
        before.credential matches Some(old_one) ==> old_one.sub.len() > 0 || (c@.sub.len() == 0
            && old_one.identity == c@.identity),
    ensures
        answer matches Ok(given) && given@ == c@,
        after.credential == Some(c@),
        after.requested == request.meta.scopes,
        before.first is None ==> after.first == Some(c@),
        before.first is Some ==> after.first == before.first,
        after.provider == before.provider && after.env == before.env && after.meta == before.meta
            && after.tier == before.tier && after.command_path == before.command_path
            && after.no_auth == before.no_auth,
{
}

/// A step-up that comes back with another subject is refused, and the
/// credential at hand stays.
pub proof fn law_other_identity_is_refused(
    before: ResolverText,
    after: ResolverText,
    request: RequestText,
    c: Credential,
    answer: Result<Credential, CliCoreError>,
    at_hand: CredentialText,
)
    requires
        is_finished(before, after, request, Ok(c), answer),
        before.credential == Some(at_hand),
        at_hand.sub.len() > 0,
        c@.sub.len() > 0,
        at_hand.sub != c@.sub,
    ensures
        answer is Err,
        after == before,
{
}

/// A failed resolution changes nothing, and its error counts as one of
/// authentication, with the provider's own error inside.
pub proof fn law_failed_resolution_changes_nothing(
    before: ResolverText,
    after: ResolverText,
    request: RequestText,
    source: CliCoreError,
    answer: Result<Credential, CliCoreError>,
)
    requires
        is_finished(before, after, request, Err(source), answer),
    ensures
        after == before,
        answer matches Err(e) && error::is_auth_spec(e) && (e == source || (e matches
            CliCoreError::AuthProvider { provider, source: s } && provider@ == before.provider && *s
            == source)),
{
}

/// A login asks for the environment and the scopes that were named, and for no
/// command.
pub proof fn law_login_request(provider: Seq<char>, env: Seq<char>, scopes: Seq<Seq<char>>)
    ensures
        login_text(provider, env, scopes).provider == provider,
        login_text(provider, env, scopes).env == env,
        login_text(provider, env, scopes).command.len() == 0,
        login_text(provider, env, scopes).tier.len() == 0,
        login_text(provider, env, scopes).meta.scopes == scopes,
{
    reveal_strlit("");
}

/// Where no subject is told the identity decides: another one is refused, and
/// one that is not told is not.
pub proof fn law_identity_decides_without_a_subject(
    before: ResolverText,
    after: ResolverText,
    request: RequestText,
    c: Credential,
    answer: Result<Credential, CliCoreError>,
    at_hand: CredentialText,
)
    requires
        is_finished(before, after, request, Ok(c), answer),
        before.credential == Some(at_hand),
        at_hand.sub.len() == 0,
        c@.sub.len() == 0,
    ensures
        at_hand.identity.len() > 0 && c@.identity.len() > 0 && at_hand.identity != c@.identity
            ==> answer is Err && after == before,
        at_hand.identity.len() == 0 || c@.identity.len() == 0 || at_hand.identity == c@.identity
            ==> answer is Ok && after.credential == Some(c@),
{
}

} // verus!
