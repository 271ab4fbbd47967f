//! What the `auth` commands answer.
use crate::auth::credential::{present, Credential, CredentialText, Moment};
use crate::auth::credential;
use crate::auth::dispatcher::{StatusEntry, StatusText};
use crate::json::{no_members, object, with_member, Json, JsonModel};
use crate::json;
use vstd::prelude::*;
use vstd::string::*;

verus! {

/// Data rendered after a successful `auth login`.
pub struct AuthLoginResult {
    /// Provider used for login.
    pub provider: String,
    /// Environment used for login.
    pub env: String,
    /// Authenticated identity.
    pub identity: String,
    /// Credential expiration timestamp.
    pub expires_at: String,
}

/// Data rendered by `auth status`.
pub struct AuthStatusEntry {
    /// Provider name.
    pub provider: String,
    /// Environment name.
    pub env: String,
    /// Cached identity, empty when missing or unavailable.
    pub identity: String,
    /// Credential expiration timestamp, empty when missing or unavailable.
    pub expires_at: String,
    /// Whether the cached credential is expired or unavailable.
    pub expired: bool,
}

/// What a row of `auth status` says.
#[verifier::ext_equal]
pub struct RowText {
    /// Provider name.
    pub provider: Seq<char>,
    /// Environment name.
    pub env: Seq<char>,
    /// Cached identity.
    pub identity: Seq<char>,
    /// Credential expiration timestamp.
    pub expires_at: Seq<char>,
    /// Whether the cached credential is expired or unavailable.
    pub expired: bool,
}

impl View for AuthStatusEntry {
    type V = RowText;

    open spec fn view(&self) -> RowText {
        RowText {
            provider: self.provider@,
            env: self.env@,
            identity: self.identity@,
            expires_at: self.expires_at@,
            expired: self.expired,
        }
    }
}

/// The row for a credential at a moment, with the timestamp that a status
/// shows; without a credential it counts as expired.
pub open spec fn row_at(
    provider: Seq<char>,
    env: Seq<char>,
    credential: Option<CredentialText>,
    now: Moment,
) -> RowText {
    match credential {
        Some(c) => RowText {
            provider,
            env,
            identity: c.identity,
            expires_at: credential::effective_expiry_spec(c),
            expired: credential::expired_at(c, now),
        },
        None => RowText {
            provider,
            env,
            identity: Seq::empty(),
            expires_at: Seq::empty(),
            expired: true,
        },
    }
}

/// What an optional credential says.
pub open spec fn opt_text(c: Option<&Credential>) -> Option<CredentialText> {
    match c {
        Some(c) => Some(c@),
        None => None,
    }
}

/// Converts an optional credential into an auth status row at a moment.
pub fn to_status_entry_at(
    provider: &str,
    env: &str,
    credential: Option<&Credential>,
    now: Moment,
) -> (r: AuthStatusEntry)
    ensures
        r@ == row_at(provider@, env@, opt_text(credential), now),
{
    match credential {
        Some(c) => AuthStatusEntry {
            provider: provider.to_owned(),
            env: env.to_owned(),
            identity: c.identity.clone(),
            expires_at: c.effective_expiry(),
            expired: c.is_expired_at(now),
        },
        None => {
            let r = AuthStatusEntry {
                provider: provider.to_owned(),
                env: env.to_owned(),
                identity: String::new(),
                expires_at: String::new(),
                expired: true,
            };
            assert(r@ =~= row_at(provider@, env@, None, now));
            r
        },
    }
}

/// Converts an optional credential into an auth status row now.
pub fn to_status_entry(provider: &str, env: &str, credential: Option<&Credential>) -> (r:
    AuthStatusEntry)
    ensures
        exists|now: Moment| r@ == #[trigger] row_at(provider@, env@, opt_text(credential), now),
{
    let now = present();
    let r = to_status_entry_at(provider, env, credential, now);
    assert(r@ == row_at(provider@, env@, opt_text(credential), now));
    r
}

/// A row of `auth status` as JSON.
pub open spec fn row_members(r: RowText) -> Map<Seq<char>, JsonModel> {
    json::nothing().insert("provider"@, JsonModel::Text(r.provider)).insert(
        "env"@,
        JsonModel::Text(r.env),
    ).insert("identity"@, JsonModel::Text(r.identity)).insert(
        "expires_at"@,
        JsonModel::Text(r.expires_at),
    ).insert("expired"@, JsonModel::Bool(r.expired))
}

/// A row of `auth status` as JSON.
pub fn status_data(r: &AuthStatusEntry) -> (v: Json)
    ensures
        v@ == JsonModel::Object(row_members(r@)),
{
    broadcast use json::group_json;

    let m = with_member(no_members(), "provider", Json::from_text(r.provider.as_str()));
    let m = with_member(m, "env", Json::from_text(r.env.as_str()));
    let m = with_member(m, "identity", Json::from_text(r.identity.as_str()));
    let m = with_member(m, "expires_at", Json::from_text(r.expires_at.as_str()));
    object(with_member(m, "expired", Json::Bool(r.expired)))
}

/// The row for what a provider said: one that failed counts as expired and has
/// nothing else to show.
pub open spec fn status_row(s: StatusText, now: Moment) -> RowText {
    row_at(
        s.provider,
        s.env,
        if s.error is Some {
            None
        } else {
            s.credential
        },
        now,
    )
}

/// What several rows say.
pub open spec fn status_texts(entries: Seq<StatusEntry>) -> Seq<StatusText> {
    entries.map_values(|e: StatusEntry| e@)
}

/// What `auth status` answers for what all providers said, row by row.
pub open spec fn status_models(said: Seq<StatusText>, now: Moment) -> Seq<JsonModel> {
    said.map_values(|s: StatusText| JsonModel::Object(row_members(status_row(s, now))))
}

/// What `auth status` answers for what all providers said, at a moment.
pub fn all_statuses_data(entries: &Vec<StatusEntry>, now: Moment) -> (r: Json)
    ensures
        r@ == JsonModel::Array(status_models(status_texts(entries@), now)),
{
    broadcast use json::group_json;

    let mut rows: Vec<Json> = Vec::new();
    let mut i: usize = 0;
    while i < entries.len()
        invariant
            i <= entries@.len(),
            rows@.len() == i,
            forall|k: int|
                0 <= k < i ==> (#[trigger] rows@[k])@ == JsonModel::Object(
                    row_members(status_row(entries@[k]@, now)),
                ),
        decreases entries@.len() - i,
    {
        let credential = if entries[i].error.is_some() {
            None
        } else {
            match &entries[i].credential {
                Some(c) => Some(c),
                None => None,
            }
        };
        let row = to_status_entry_at(
            entries[i].provider.as_str(),
            entries[i].env.as_str(),
            credential,
            now,
        );
        rows.push(status_data(&row));
        i = i + 1;
    }
    assert(json::models(rows@) =~= status_models(status_texts(entries@), now));
    Json::Array(rows)
}

/// Whether `auth status` asks one provider for one environment, or all of them.
pub fn asks_one_status(provider: &str, env: &str) -> (r: bool)
    ensures
        r == (provider@.len() > 0 && env@.len() > 0),
{
    !provider.is_empty() && !env.is_empty()
}

/// `r` is what `auth login` shows of the credential that it got.
pub open spec fn is_login_result(
    r: AuthLoginResult,
    provider: Seq<char>,
    env: Seq<char>,
    c: CredentialText,
) -> bool {
    r.provider@ == provider && r.env@ == env && r.identity@ == c.identity && r.expires_at@
        == c.expires_at
}

/// What `auth login` shows of the credential that it got.
pub fn login_result(provider: &str, env: &str, c: &Credential) -> (r: AuthLoginResult)
    ensures
        is_login_result(r, provider@, env@, c@),
{
    AuthLoginResult {
        provider: provider.to_owned(),
        env: env.to_owned(),
        identity: c.identity.clone(),
        expires_at: c.expires_at.clone(),
    }
}

/// What `auth login` answers.
pub open spec fn login_members(
    provider: Seq<char>,
    env: Seq<char>,
    identity: Seq<char>,
    expires_at: Seq<char>,
) -> Map<Seq<char>, JsonModel> {
    json::nothing().insert("provider"@, JsonModel::Text(provider)).insert(
        "env"@,
        JsonModel::Text(env),
    ).insert("identity"@, JsonModel::Text(identity)).insert(
        "expires_at"@,
        JsonModel::Text(expires_at),
    )
}

/// What `auth login` answers.
pub fn login_data(r: &AuthLoginResult) -> (v: Json)
    ensures
        v@ == JsonModel::Object(
            login_members(r.provider@, r.env@, r.identity@, r.expires_at@),
        ),
{
    let m = with_member(no_members(), "provider", Json::from_text(r.provider.as_str()));
    let m = with_member(m, "env", Json::from_text(r.env.as_str()));
    let m = with_member(m, "identity", Json::from_text(r.identity.as_str()));
    object(with_member(m, "expires_at", Json::from_text(r.expires_at.as_str())))
}

/// What `auth logout` answers.
pub open spec fn logout_members(provider: Seq<char>, env: Seq<char>) -> Map<Seq<char>, JsonModel> {
    json::nothing().insert("provider"@, JsonModel::Text(provider)).insert(
        "env"@,
        JsonModel::Text(env),
    ).insert("status"@, JsonModel::Text("logged out"@))
}

/// What `auth logout` answers.
pub fn logout_data(provider: &str, env: &str) -> (v: Json)
    ensures
        v@ == JsonModel::Object(logout_members(provider@, env@)),
{
    let m = with_member(no_members(), "provider", Json::from_text(provider));
    let m = with_member(m, "env", Json::from_text(env));
    object(with_member(m, "status", Json::from_text("logged out")))
}

proof fn lemma_member_names()
    ensures
        "provider"@ != "env"@,
        "provider"@ != "identity"@,
        "provider"@ != "expires_at"@,
        "provider"@ != "expired"@,
        "provider"@ != "status"@,
        "env"@ != "identity"@,
        "env"@ != "expires_at"@,
        "env"@ != "expired"@,
        "env"@ != "status"@,
        "identity"@ != "expires_at"@,
        "identity"@ != "expired"@,
        "expires_at"@ != "expired"@,
{
    reveal_strlit("provider");
    reveal_strlit("env");
    reveal_strlit("identity");
    reveal_strlit("expires_at");
    reveal_strlit("expired");
    reveal_strlit("status");
    assert("provider"@[0] == 'p');
    assert("identity"@[0] == 'i');
    assert("env"@.len() == 3);
    assert("expires_at"@.len() == 10);
    assert("expired"@.len() == 7);
    assert("status"@.len() == 6);
    assert("provider"@.len() == 8);
}

/// The status row of a credential names its provider and environment, shows its
/// identity and when it ends, and says whether it is expired. Where there is
/// none, or the provider failed, it counts as expired and shows nothing else.
pub proof fn law_status_shows_the_credential(s: StatusText, now: Moment)
    ensures
        ({
            let row = JsonModel::Object(row_members(status_row(s, now)));
            &&& json::member(row, "provider"@) == Some(JsonModel::Text(s.provider))
            &&& json::member(row, "env"@) == Some(JsonModel::Text(s.env))
            &&& s.error is Some || s.credential is None ==> {
                &&& json::member(row, "expired"@) == Some(JsonModel::Bool(true))
                &&& json::member(row, "identity"@) == Some(JsonModel::Text(Seq::empty()))
                &&& json::member(row, "expires_at"@) == Some(JsonModel::Text(Seq::empty()))
            }
            &&& s.error is None ==> (s.credential matches Some(c) ==> {
                &&& json::member(row, "expired"@) == Some(
                    JsonModel::Bool(credential::expired_at(c, now)),
                )
                &&& json::member(row, "identity"@) == Some(JsonModel::Text(c.identity))
                &&& json::member(row, "expires_at"@) == Some(
                    JsonModel::Text(credential::effective_expiry_spec(c)),
                )
            })
        }),
{
    lemma_member_names();
}

/// `auth status` answers one row for each thing that a provider said, in the
/// same order, and a row depends on nothing else.
pub proof fn law_status_has_one_row_each(said: Seq<StatusText>, now: Moment, i: int)
    requires
        0 <= i < said.len(),
    ensures
        status_models(said, now).len() == said.len(),
        status_models(said, now)[i] == status_models(seq![said[i]], now)[0],
        status_models(said, now)[i] == JsonModel::Object(row_members(status_row(said[i], now))),
{
}

/// `auth login` answers with the provider, the environment, the identity and
/// the end of the credential, each under its own name.
pub proof fn law_login_shows_the_credential(
    provider: Seq<char>,
    env: Seq<char>,
    identity: Seq<char>,
    expires_at: Seq<char>,
)
    ensures
        ({
            let answer = JsonModel::Object(login_members(provider, env, identity, expires_at));
            &&& json::member(answer, "provider"@) == Some(JsonModel::Text(provider))
            &&& json::member(answer, "env"@) == Some(JsonModel::Text(env))
            &&& json::member(answer, "identity"@) == Some(JsonModel::Text(identity))
            &&& json::member(answer, "expires_at"@) == Some(JsonModel::Text(expires_at))
        }),
{
    lemma_member_names();
}

/// `auth logout` answers with the provider and the environment that it logged
/// out of.
pub proof fn law_logout_names_what_it_left(provider: Seq<char>, env: Seq<char>)
    ensures
        ({
            let answer = JsonModel::Object(logout_members(provider, env));
            &&& json::member(answer, "provider"@) == Some(JsonModel::Text(provider))
            &&& json::member(answer, "env"@) == Some(JsonModel::Text(env))
            &&& json::member(answer, "status"@) == Some(JsonModel::Text("logged out"@))
        }),
{
    lemma_member_names();
}

/// A login shows the credential that it got, for the provider and the
/// environment that it was for.
pub proof fn law_login_result(
    r: AuthLoginResult,
    provider: Seq<char>,
    env: Seq<char>,
    c: CredentialText,
)
    requires
        is_login_result(r, provider, env, c),
    ensures
        r.provider@ == provider,
        r.env@ == env,
        r.identity@ == c.identity,
        r.expires_at@ == c.expires_at,
{
}

} // verus!
