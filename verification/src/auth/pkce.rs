//! OAuth 2.0 PKCE authentication provider.
//!
//! The browser, the network and the store are outside; the functions here decide
//! what is asked of them and what is done with what they answer.
use crate::auth::callback::CallbackStep;
use crate::auth::callback;
use crate::auth::credential::{present, Credential, CredentialText};
use crate::auth::encoding::{add_params, parse_url, url_path, url_port, wipe, write_seconds};
use crate::auth::encoding;
use crate::auth::scopes::{
    check_granted, decode_jwt_claims, extract_identity, missing_scope_error, plan_step_up,
    scopes_from_jwt, text_claim, union_scopes, ClaimsText, StepUp,
};
use crate::auth::scopes;
use crate::auth::storage::{storage_for, CredentialKey, StorageBackend};
use crate::auth::storage;
use crate::config::CredentialStore;
use crate::env_config::{EnvConfig, EnvConfigError, SourceChain, SourceText};
use crate::env_config;
use crate::environments::{EnvTable, Environments, FileRead};
use crate::environments;
use crate::error::CliCoreError;
use crate::error;
use crate::fs;
use crate::json::JsonModel;
use crate::middleware::meta::ValueMap;
use crate::ordmap::{Duplicate, StringMap};
use crate::text;
use crate::toml_value::TomlView;
use crate::toml_value;
use vstd::prelude::*;
use vstd::string::*;

verus! {

/// Port of the local redirect server where none is set.
pub const REDIRECT_PORT_DEFAULT: u16 = 7443;

/// How many seconds a request to the token endpoint may take where no timeout is
/// set.
pub const TOKEN_TIMEOUT_SECS: u64 = 30;

/// How many seconds before its expiry a token counts as expired.
pub const TOKEN_EXPIRY_BUFFER_SECS: i64 = 30;

/// How many seconds a token lives where the server does not say.
pub const DEFAULT_LIFETIME_SECS: i64 = 3600;

/// Stored token with expiry tracking. Its secrets are wiped when it is dropped.
pub struct StoredToken {
    /// Access token.
    pub access_token: String,
    /// Expiry, in seconds since the start of 1970.
    pub expires_at: i64,
    /// Refresh token.
    pub refresh_token: Option<String>,
    /// Scopes the token was obtained with (granted by the authorization server,
    /// or the requested set when the server does not echo `scope`).
    pub scopes: Vec<String>,
}

impl Drop for StoredToken {
    fn drop(&mut self)
        opens_invariants none
        no_unwind
    {
        wipe(&mut self.access_token);
        if let Some(refresh_token) = &mut self.refresh_token {
            wipe(refresh_token);
        }
    }
}

/// What a stored token says.
#[verifier::ext_equal]
pub struct TokenText {
    /// Access token.
    pub access_token: Seq<char>,
    /// Expiry.
    pub expires_at: i64,
    /// Refresh token.
    pub refresh_token: Option<Seq<char>>,
    /// Scopes.
    pub scopes: Seq<Seq<char>>,
}

impl View for StoredToken {
    type V = TokenText;

    open spec fn view(&self) -> TokenText {
        TokenText {
            access_token: self.access_token@,
            expires_at: self.expires_at,
            refresh_token: error::opt_text(self.refresh_token),
            scopes: text::texts(self.scopes@),
        }
    }
}

/// What an optional token says.
pub open spec fn opt_token(t: Option<StoredToken>) -> Option<TokenText> {
    match t {
        Some(t) => Some(t@),
        None => None,
    }
}

/// The token is usable at a time: it is not about to expire.
pub open spec fn usable(t: TokenText, now: i64) -> bool {
    t.expires_at - TOKEN_EXPIRY_BUFFER_SECS > now
}

impl Duplicate for StoredToken {
    open spec fn says_same(self, other: Self) -> bool {
        self@ == other@
    }

    fn duplicate(&self) -> (r: Self) {
        StoredToken {
            access_token: self.access_token.clone(),
            expires_at: self.expires_at,
            refresh_token: error::clone_option(&self.refresh_token),
            scopes: text::clone_strings(&self.scopes),
        }
    }
}

impl StoredToken {
    /// Tells whether the token is usable at `now`.
    pub fn is_valid_at(&self, now: i64) -> (r: bool)
        ensures
            r == usable(self@, now),
    {
        self.expires_at as i128 - TOKEN_EXPIRY_BUFFER_SECS as i128 > now as i128
    }

    /// Tells whether the token is usable now.
    pub fn is_valid(&self) -> (r: bool)
        ensures
            exists|now: i64| r == #[trigger] usable(self@, now),
    {
        let now: i64 = present().seconds;
        self.is_valid_at(now)
    }
}

/// All scopes an access token is known to carry: those of its claims, and those
/// recorded when it was obtained.
pub open spec fn granted_spec(t: TokenText) -> Seq<Seq<char>> {
    text::with_missing(scopes::scopes_in(scopes::claims_of(t.access_token)), t.scopes)
}

/// All scopes an access token is known to carry: the JWT `scope`/`scp` claim
/// plus the scopes recorded when the token was obtained.
pub fn granted_scopes(token: &StoredToken) -> (r: Vec<String>)
    ensures
        text::texts(r@) == granted_spec(token@),
{
    let mut r = scopes_from_jwt(token.access_token.as_str());
    text::add_missing(&mut r, &token.scopes);
    r
}

/// Confirms a freshly (re)authenticated token actually grants `required`.
pub fn ensure_granted(env: &str, token: &StoredToken, required: &Vec<String>) -> (r: Result<
    (),
    CliCoreError,
>)
    ensures
        scopes::is_grant_check(r, env@, granted_spec(token@), text::texts(required@)),
{
    let granted = granted_scopes(token);
    check_granted(env, &granted, required)
}

/// What a token endpoint answers.
pub struct TokenResponse {
    /// Access token.
    pub access_token: String,
    /// Lifetime in seconds.
    pub expires_in: Option<i64>,
    /// Refresh token.
    pub refresh_token: Option<String>,
    /// Space-delimited scopes the server actually granted, when it echoes them.
    pub scope: Option<String>,
}

/// The lifetime of a new token.
pub open spec fn lifetime(r: TokenResponse) -> i64 {
    match r.expires_in {
        Some(s) => s,
        None => DEFAULT_LIFETIME_SECS,
    }
}

/// The scopes of a new token: those that the server echoes, else those that
/// were asked for.
pub open spec fn obtained_scopes(scope: Option<Seq<char>>, requested: Seq<Seq<char>>) -> Seq<
    Seq<char>,
> {
    match scope {
        Some(s) => if text::words(s).len() > 0 {
            text::words(s)
        } else {
            requested
        },
        None => requested,
    }
}

/// The token that a response brings, received at `now`.
pub open spec fn received_token(body: TokenResponse, requested: Seq<Seq<char>>, now: i64) -> TokenText {
    TokenText {
        access_token: body.access_token@,
        expires_at: (now + lifetime(body)) as i64,
        refresh_token: error::opt_text(body.refresh_token),
        scopes: obtained_scopes(error::opt_text(body.scope), requested),
    }
}

/// The token that a response brings, received at `now`.
pub fn token_from_response(body: TokenResponse, requested_scopes: &Vec<String>, now: i64) -> (r:
    StoredToken)
    requires
        i64::MIN <= now + lifetime(body) <= i64::MAX,
    ensures
        r@ == received_token(body, text::texts(requested_scopes@), now),
{
    let expires_in: i64 = match body.expires_in {
        Some(s) => s,
        None => DEFAULT_LIFETIME_SECS,
    };
    let echoed = match &body.scope {
        Some(s) => text::split_whitespace(s.as_str()),
        None => Vec::new(),
    };
    assert(text::texts(echoed@).len() == echoed@.len());
    let scopes = if echoed.len() > 0 {
        echoed
    } else {
        text::clone_strings(requested_scopes)
    };
    StoredToken {
        access_token: body.access_token,
        expires_at: now + expires_in,
        refresh_token: body.refresh_token,
        scopes,
    }
}

/// The OAuth client of an environment.
pub struct OAuthConfig {
    /// Client id.
    pub client_id: String,
    /// Authorization endpoint.
    pub auth_url: String,
    /// Token endpoint.
    pub token_url: String,
    /// Scopes.
    pub scopes: Vec<String>,
}

/// What an OAuth client says.
#[verifier::ext_equal]
pub struct OAuthText {
    /// Client id.
    pub client_id: Seq<char>,
    /// Authorization endpoint.
    pub auth_url: Seq<char>,
    /// Token endpoint.
    pub token_url: Seq<char>,
    /// Scopes.
    pub scopes: Seq<Seq<char>>,
}

impl View for OAuthConfig {
    type V = OAuthText;

    open spec fn view(&self) -> OAuthText {
        OAuthText {
            client_id: self.client_id@,
            auth_url: self.auth_url@,
            token_url: self.token_url@,
            scopes: text::texts(self.scopes@),
        }
    }
}

/// What an optional OAuth client says.
pub open spec fn opt_oauth(o: Option<OAuthConfig>) -> Option<OAuthText> {
    match o {
        Some(o) => Some(o@),
        None => None,
    }
}

/// The text of a field, empty where no source has one; none where it is no
/// string.
pub open spec fn text_field(chain: Seq<SourceText>, key: Seq<char>) -> Option<Seq<char>> {
    match env_config::answer_from(chain, 0, key, None, false) {
        env_config::AnswerText::Value(TomlView::Text(s)) => Some(s),
        env_config::AnswerText::Absent => Some(Seq::empty()),
        _ => None,
    }
}

/// The list `v` is one of strings.
pub open spec fn is_texts(v: TomlView, items: Seq<Seq<char>>) -> bool {
    v == toml_value::text_list(items)
}

/// The texts of a list of strings.
pub open spec fn texts_in(v: TomlView) -> Option<Seq<Seq<char>>> {
    if exists|items: Seq<Seq<char>>| is_texts(v, items) {
        Some(choose|items: Seq<Seq<char>>| is_texts(v, items))
    } else {
        None
    }
}

proof fn lemma_texts_in(items: Seq<Seq<char>>)
    ensures
        texts_in(toml_value::text_list(items)) == Some(items),
{
    let v = toml_value::text_list(items);
    assert(is_texts(v, items));
    let other = choose|other: Seq<Seq<char>>| is_texts(v, other);
    let a = items.map_values(|t: Seq<char>| TomlView::Text(t));
    let b = other.map_values(|t: Seq<char>| TomlView::Text(t));
    assert(a == b);
    assert(items.len() == a.len() && other.len() == b.len());
    assert forall|i: int| 0 <= i < items.len() implies items[i] == other[i] by {
        assert(a[i] == TomlView::Text(items[i]));
        assert(b[i] == TomlView::Text(other[i]));
    }
    assert(items =~= other);
}

/// The texts of a list field, none where no source has one; nothing where it is
/// no list of strings.
pub open spec fn list_field(chain: Seq<SourceText>, key: Seq<char>) -> Option<Seq<Seq<char>>> {
    match env_config::answer_from(chain, 0, key, None, false) {
        env_config::AnswerText::Value(v) => texts_in(v),
        env_config::AnswerText::Absent => Some(Seq::empty()),
        _ => None,
    }
}

/// The OAuth client that a chain of sources gives; none where a field has
/// another type.
pub open spec fn oauth_in(chain: Seq<SourceText>) -> Option<OAuthText> {
    match (
        text_field(chain, "client_id"@),
        text_field(chain, "auth_url"@),
        text_field(chain, "token_url"@),
        list_field(chain, "scopes"@),
    ) {
        (Some(client_id), Some(auth_url), Some(token_url), Some(scopes)) => Some(
            OAuthText { client_id, auth_url, token_url, scopes },
        ),
        _ => None,
    }
}

/// The first field of another type, and what is wrong with it.
pub open spec fn oauth_failure(chain: Seq<SourceText>) -> Option<(Seq<char>, Seq<char>)> {
    if text_field(chain, "client_id"@) is None {
        Some(("client_id"@, "expected a string"@))
    } else if text_field(chain, "auth_url"@) is None {
        Some(("auth_url"@, "expected a string"@))
    } else if text_field(chain, "token_url"@) is None {
        Some(("token_url"@, "expected a string"@))
    } else if list_field(chain, "scopes"@) is None {
        Some(("scopes"@, "expected a list of strings"@))
    } else {
        None
    }
}

fn invalid_field(field: &str, reason: &str) -> (r: EnvConfigError)
    ensures
        r matches EnvConfigError::InvalidField { field: f, reason: why } && f@ == field@ && why@
            == reason@,
{
    EnvConfigError::InvalidField { field: field.to_owned(), reason: reason.to_owned() }
}

fn read_text(sources: &SourceChain, key: &str) -> (r: Result<String, EnvConfigError>)
    ensures
        match text_field(sources@, key@) {
            Some(t) => r matches Ok(s) && s@ == t,
            None => r matches Err(EnvConfigError::InvalidField { field, reason }) && field@ == key@
                && reason@ == "expected a string"@,
        },
{
    match sources.answer(key, None, false) {
        env_config::Answer::Value(v) => match v.as_str() {
            Some(s) => Ok(s.to_owned()),
            None => Err(invalid_field(key, "expected a string")),
        },
        env_config::Answer::Absent => {
            let r = String::new();
            assert(r@ =~= Seq::empty());
            Ok(r)
        },
        env_config::Answer::Var(_) => Err(invalid_field(key, "expected a string")),
    }
}

fn read_list(sources: &SourceChain, key: &str) -> (r: Result<Vec<String>, EnvConfigError>)
    ensures
        match list_field(sources@, key@) {
            Some(t) => r matches Ok(s) && text::texts(s@) == t,
            None => r matches Err(EnvConfigError::InvalidField { field, reason }) && field@ == key@
                && reason@ == "expected a list of strings"@,
        },
{
    match sources.answer(key, None, false) {
        env_config::Answer::Value(v) => match v.as_texts() {
            Some(items) => {
                proof {
                    lemma_texts_in(text::texts(items@));
                }
                Ok(items)
            },
            None => {
                proof {
                    assert forall|items: Seq<Seq<char>>| !is_texts(v@, items) by {
                        assert(v@ != toml_value::text_list(items));
                    }
                }
                Err(invalid_field(key, "expected a list of strings"))
            },
        },
        env_config::Answer::Absent => {
            let r: Vec<String> = Vec::new();
            assert(text::texts(r@) =~= Seq::empty());
            Ok(r)
        },
        env_config::Answer::Var(_) => Err(invalid_field(key, "expected a list of strings")),
    }
}

impl EnvConfig for OAuthConfig {
    fn assemble(sources: &SourceChain) -> (r: Result<Self, EnvConfigError>)
        ensures
            match oauth_in(sources@) {
                Some(o) => r matches Ok(c) && c@ == o,
                None => r matches Err(EnvConfigError::InvalidField { field, reason })
                    && oauth_failure(sources@) == Some((field@, reason@)),
            },
    {
        let client_id = match read_text(sources, "client_id") {
            Ok(s) => s,
            Err(e) => {
                return Err(e);
            },
        };
        let auth_url = match read_text(sources, "auth_url") {
            Ok(s) => s,
            Err(e) => {
                return Err(e);
            },
        };
        let token_url = match read_text(sources, "token_url") {
            Ok(s) => s,
            Err(e) => {
                return Err(e);
            },
        };
        let scopes = match read_list(sources, "scopes") {
            Ok(s) => s,
            Err(e) => {
                return Err(e);
            },
        };
        Ok(OAuthConfig { client_id, auth_url, token_url, scopes })
    }
}

/// OAuth 2.0 PKCE authentication provider.
pub struct PkceAuthProvider {
    /// Provider registration name.
    pub name: String,
    /// Authorization endpoint.
    pub auth_url: String,
    /// Token endpoint.
    pub token_url: String,
    /// OAuth client ID.
    pub client_id: String,
    /// Default OAuth scopes.
    pub scopes: Vec<String>,
    /// Optional environment resolver; when set, per-env OAuth config comes from
    /// the resolved environment where that has one.
    pub environments: Option<Environments>,
    /// Port of the local redirect server.
    pub redirect_port: u16,
    /// Redirect URI, where it is not the default one.
    pub redirect_uri: Option<String>,
    /// Application id, the keychain service prefix.
    pub app_id: String,
    /// Prefix of the provider's environment variables.
    pub env_prefix: String,
    /// Forced storage mode.
    pub store_mode: Option<CredentialStore>,
    /// Prioritized JWT claim names used to derive an identity.
    pub identity_claims: Vec<String>,
    /// In-process token cache keyed by env.
    pub cache: StringMap<StoredToken>,
    /// How long a request to the token endpoint may take.
    pub token_timeout: std::time::Duration,
}

/// The default prioritized claim names for deriving a human-readable identity.
pub open spec fn default_claims() -> Seq<Seq<char>> {
    seq!["email"@, "preferred_username"@, "username"@, "name"@, "sub"@]
}

/// The default prioritized claim names for deriving a human-readable identity.
pub fn default_identity_claims() -> (r: Vec<String>)
    ensures
        text::texts(r@) == default_claims(),
{
    let mut r: Vec<String> = Vec::new();
    r.push("email".to_owned());
    r.push("preferred_username".to_owned());
    r.push("username".to_owned());
    r.push("name".to_owned());
    r.push("sub".to_owned());
    assert(text::texts(r@) =~= default_claims());
    r
}

/// The text with `_` for every `-`.
pub open spec fn underscored(s: Seq<char>) -> Seq<char> {
    s.map_values(
        |c: char|
            if c == '-' {
                '_'
            } else {
                c
            },
    )
}

fn replace_hyphens(s: &str) -> (r: String)
    ensures
        r@ == underscored(s@),
{
    let chars = text::chars_of(s);
    let mut out: Vec<char> = Vec::new();
    let mut i: usize = 0;
    while i < chars.len()
        invariant
            i <= chars@.len(),
            chars@ == s@,
            out@.len() == i,
            forall|k: int| 0 <= k < i ==> #[trigger] out@[k] == underscored(s@)[k],
        decreases chars@.len() - i,
    {
        if chars[i] == '-' {
            out.push('_');
        } else {
            out.push(chars[i]);
        }
        i = i + 1;
    }
    let r = text::string_of(out.as_slice());
    assert(r@ =~= underscored(s@));
    r
}

/// What the tokens of a cache say.
pub open spec fn cache_texts(m: Map<Seq<char>, StoredToken>) -> Map<Seq<char>, TokenText> {
    m.map_values(|t: StoredToken| t@)
}

/// The usable token for an environment in a cache.
pub open spec fn cached_spec(cache: Map<Seq<char>, TokenText>, env: Seq<char>, now: i64) -> Option<
    TokenText,
> {
    if cache.dom().contains(env) && usable(cache[env], now) {
        Some(cache[env])
    } else {
        None
    }
}

/// A field of the effective OAuth config: the resolved value when it is not
/// empty, else the provider's environment variable, else the base value.
pub open spec fn oauth_field(
    resolved: Option<Seq<char>>,
    vars: Map<Seq<char>, Seq<char>>,
    var: Seq<char>,
    base: Seq<char>,
) -> Seq<char> {
    match resolved {
        Some(v) if v.len() > 0 => v,
        _ => if vars.dom().contains(var) {
            vars[var]
        } else {
            base
        },
    }
}

/// The effective OAuth config.
pub open spec fn effective_spec(
    p: PkceAuthProvider,
    resolved: Option<OAuthText>,
    vars: Map<Seq<char>, Seq<char>>,
) -> OAuthText {
    let field = |value: Option<Seq<char>>, suffix: Seq<char>, base: Seq<char>|
        oauth_field(value, vars, p.env_prefix@ + "_OAUTH_"@ + suffix, base);
    match resolved {
        Some(o) => OAuthText {
            client_id: field(Some(o.client_id), "CLIENT_ID"@, p.client_id@),
            auth_url: field(Some(o.auth_url), "AUTH_URL"@, p.auth_url@),
            token_url: field(Some(o.token_url), "TOKEN_URL"@, p.token_url@),
            scopes: if o.scopes.len() > 0 {
                o.scopes
            } else {
                text::texts(p.scopes@)
            },
        },
        None => OAuthText {
            client_id: field(None, "CLIENT_ID"@, p.client_id@),
            auth_url: field(None, "AUTH_URL"@, p.auth_url@),
            token_url: field(None, "TOKEN_URL"@, p.token_url@),
            scopes: text::texts(p.scopes@),
        },
    }
}

/// The OAuth client that the environments give for `env`, if they are wired and
/// know it.
pub open spec fn resolved_spec(
    environments: Option<environments::EnvironmentsText>,
    env: Seq<char>,
    base: Option<Seq<char>>,
    read: FileRead,
    fallback: Option<environments::TableText>,
    vars: Map<Seq<char>, Seq<char>>,
) -> Option<OAuthText> {
    match environments {
        Some(e) => match environments::found_table(e, env, base, read, fallback) {
            Some(t) => oauth_in(environments::resolution_chain(e.app_id, vars, env, t)),
            None => None,
        },
        None => None,
    }
}

/// What an optional environment system holds.
pub open spec fn opt_environments(e: Option<Environments>) -> Option<
    environments::EnvironmentsText,
> {
    match e {
        Some(e) => Some(e@),
        None => None,
    }
}

/// The redirect URI.
pub open spec fn redirect_spec(p: PkceAuthProvider) -> Seq<char> {
    match p.redirect_uri {
        Some(uri) => uri@,
        None => "http://127.0.0.1:"@ + text::decimal_spec(p.redirect_port as nat) + "/callback"@,
    }
}

/// A credential as a provider builds it.
pub open spec fn built_credential(
    provider: Seq<char>,
    env: Seq<char>,
    token: TokenText,
    claims: Option<ClaimsText>,
    identity_claims: Seq<Seq<char>>,
) -> CredentialText {
    CredentialText {
        token: token.access_token,
        expires_at: error::text_or_empty(encoding::written_seconds(token.expires_at)),
        cached_at: Seq::empty(),
        provider,
        env,
        realm: Seq::empty(),
        identity: match claims {
            Some(c) => scopes::identity_from(c, identity_claims, 0),
            None => Seq::empty(),
        },
        sub: match claims {
            Some(c) => scopes::claim_text(c, "sub"@),
            None => Seq::empty(),
        },
        account_type: Seq::empty(),
    }
}

/// The credential for a stored token with these claims.
pub fn credential_from(
    provider: &str,
    env: &str,
    token: &StoredToken,
    claims: &Option<ValueMap>,
    identity_claims: &Vec<String>,
) -> (r: Credential)
    ensures
        r@ == built_credential(
            provider@,
            env@,
            token@,
            scopes::opt_claims(*claims),
            text::texts(identity_claims@),
        ),
{
    let (identity, sub) = match claims {
        Some(c) => (extract_identity(c, identity_claims), text_claim(c, "sub")),
        None => (String::new(), String::new()),
    };
    let expires_at = match write_seconds(token.expires_at) {
        Some(t) => t,
        None => String::new(),
    };
    let r = Credential {
        token: token.access_token.clone(),
        expires_at,
        cached_at: String::new(),
        provider: provider.to_owned(),
        env: env.to_owned(),
        realm: String::new(),
        identity,
        sub,
        account_type: String::new(),
    };
    assert(r@ =~= built_credential(
        provider@,
        env@,
        token@,
        scopes::opt_claims(*claims),
        text::texts(identity_claims@),
    ));
    r
}

/// What is done next for a token, after the store was read.
pub enum TokenStep {
    /// The stored token is used, and put into the cache.
    UseToken(StoredToken),
    /// The token is refreshed.
    Refresh {
        /// The refresh token.
        refresh_token: String,
        /// The scopes of the old token.
        scopes: Vec<String>,
    },
    /// There is no token.
    Absent,
}

/// `s` is what is done next for a token, after the store was read.
pub open spec fn is_token_step(s: TokenStep, stored: Option<TokenText>, now: i64) -> bool {
    match stored {
        None => s is Absent,
        Some(t) => if usable(t, now) {
            s matches TokenStep::UseToken(u) && u@ == t
        } else {
            match t.refresh_token {
                Some(rt) => s matches TokenStep::Refresh { refresh_token, scopes }
                    && refresh_token@ == rt && text::texts(scopes@) == t.scopes,
                None => s is Absent,
            }
        },
    }
}

/// What is done next for a token, after the store was read: a usable one is
/// used, another is refreshed where it can be.
pub fn after_load(stored: Option<StoredToken>, now: i64) -> (r: TokenStep)
    ensures
        is_token_step(r, opt_token(stored), now),
{
    match stored {
        None => TokenStep::Absent,
        Some(t) => {
            if t.is_valid_at(now) {
                TokenStep::UseToken(t)
            } else {
                match &t.refresh_token {
                    Some(refresh_token) => TokenStep::Refresh {
                        refresh_token: refresh_token.clone(),
                        scopes: text::clone_strings(&t.scopes),
                    },
                    None => TokenStep::Absent,
                }
            }
        },
    }
}

/// The token that is saved and cached after a refresh: the refresh token stays
/// where the server sent no new one.
pub open spec fn kept_token(refreshed: TokenText, refresh_token: Seq<char>) -> TokenText {
    TokenText {
        refresh_token: Some(
            match refreshed.refresh_token {
                Some(t) => t,
                None => refresh_token,
            },
        ),
        ..refreshed
    }
}

/// The token that is saved and cached after a refresh: the refresh token stays
/// where the server sent no new one.
pub fn after_refresh(refreshed: StoredToken, refresh_token: &str) -> (r: StoredToken)
    ensures
        r@ == kept_token(refreshed@, refresh_token@),
{
    let mut r = refreshed;
    if r.refresh_token.is_none() {
        r.refresh_token = Some(refresh_token.to_owned());
    }
    r
}

/// What is done for a command's credential.
pub enum CredentialPlan {
    /// The token at hand is used.
    UseToken,
    /// The request fails.
    Fail(CliCoreError),
    /// A login asks for these scopes, and has to grant the required ones.
    Authenticate(Vec<String>),
}

/// `p` is what is done for a command's credential, with what the token at hand
/// grants, if there is one.
pub open spec fn is_credential_plan(
    p: CredentialPlan,
    env: Seq<char>,
    granted: Option<Seq<Seq<char>>>,
    defaults: Seq<Seq<char>>,
    required: Seq<Seq<char>>,
    interactive: bool,
) -> bool {
    match granted {
        None => p matches CredentialPlan::Authenticate(s) && text::texts(s@) == scopes::union_spec(
            defaults,
            Seq::empty(),
            required,
        ),
        Some(g) => {
            let missing = scopes::missing_spec(g, required);
            if missing.len() == 0 {
                p is UseToken
            } else if interactive {
                p matches CredentialPlan::Authenticate(s) && text::texts(s@) == scopes::union_spec(
                    defaults,
                    g,
                    required,
                )
            } else {
                p matches CredentialPlan::Fail(e) && error::is_message(
                    e,
                    "access token for "@ + text::debug_quoted(env)
                        + " is missing required scope(s): "@ + text::join_spec(missing, ", "@)
                        + "; run `auth login --env "@ + env + " "@ + text::join_spec(
                        scopes::scope_options(missing),
                        " "@,
                    ) + "` in an interactive terminal"@,
                )
            }
        },
    }
}

/// What is done for a command's credential: a token at hand that covers what is
/// required is used. Otherwise one login asks for the defaults, what is already
/// granted, and what is required; a session that cannot prompt fails instead
/// where there is a token.
pub fn plan_credential(
    env: &str,
    existing: &Option<StoredToken>,
    defaults: &Vec<String>,
    required: &Vec<String>,
    interactive: bool,
) -> (r: CredentialPlan)
    ensures
        is_credential_plan(
            r,
            env@,
            (match *existing {
                Some(t) => Some(granted_spec(t@)),
                None => None,
            }),
            text::texts(defaults@),
            text::texts(required@),
            interactive,
        ),
{
    match existing {
        Some(t) => {
            let granted = granted_scopes(t);
            match plan_step_up(defaults, &granted, required, interactive) {
                StepUp::Covered => CredentialPlan::UseToken,
                StepUp::MissingNonInteractive(missing) => CredentialPlan::Fail(
                    missing_scope_error(env, &missing),
                ),
                StepUp::Reauthenticate(union) => CredentialPlan::Authenticate(union),
            }
        },
        None => {
            let none: Vec<String> = Vec::new();
            assert(text::texts(none@) =~= Seq::empty());
            CredentialPlan::Authenticate(union_scopes(defaults, &none, required))
        },
    }
}

fn pair(name: &str, value: &str) -> (r: (String, String))
    ensures
        r.0@ == name@,
        r.1@ == value@,
{
    (name.to_owned(), value.to_owned())
}

/// The parameters of a request for a code.
pub open spec fn code_params(
    client_id: Seq<char>,
    redirect_uri: Seq<char>,
    scope: Seq<char>,
    state: Seq<char>,
    challenge: Seq<char>,
) -> Seq<(Seq<char>, Seq<char>)> {
    seq![
        ("response_type"@, "code"@),
        ("client_id"@, client_id),
        ("redirect_uri"@, redirect_uri),
        ("scope"@, scope),
        ("state"@, state),
        ("code_challenge"@, challenge),
        ("code_challenge_method"@, "S256"@),
    ]
}

/// The parameters of a request for a token in exchange for a code.
pub open spec fn exchange_spec(
    client_id: Seq<char>,
    redirect_uri: Seq<char>,
    code: Seq<char>,
    verifier: Seq<char>,
) -> Seq<(Seq<char>, Seq<char>)> {
    seq![
        ("grant_type"@, "authorization_code"@),
        ("client_id"@, client_id),
        ("redirect_uri"@, redirect_uri),
        ("code"@, code),
        ("code_verifier"@, verifier),
    ]
}

/// The parameters with which a provider sends the browser for a code.
pub open spec fn asked_params(
    p: PkceAuthProvider,
    oauth: OAuthText,
    scopes: Seq<Seq<char>>,
    state: Seq<char>,
    challenge: Seq<char>,
) -> Seq<(Seq<char>, Seq<char>)> {
    code_params(
        oauth.client_id,
        redirect_spec(p),
        text::join_spec(scopes, " "@),
        state,
        challenge,
    )
}

/// The parameters with which a provider asks for a token in exchange for a code.
pub open spec fn sent_params(
    p: PkceAuthProvider,
    oauth: OAuthText,
    code: Seq<char>,
    verifier: Seq<char>,
) -> Seq<(Seq<char>, Seq<char>)> {
    exchange_spec(oauth.client_id, redirect_spec(p), code, verifier)
}

/// The parameters of a request for a token in exchange for a refresh token.
pub open spec fn refresh_spec(client_id: Seq<char>, refresh_token: Seq<char>) -> Seq<
    (Seq<char>, Seq<char>),
> {
    seq![
        ("grant_type"@, "refresh_token"@),
        ("client_id"@, client_id),
        ("refresh_token"@, refresh_token),
    ]
}

/// The parameters of a request for a token in exchange for a refresh token.
pub fn refresh_params(client_id: &str, refresh_token: &str) -> (r: Vec<(String, String)>)
    ensures
        encoding::pair_texts(r@) == refresh_spec(client_id@, refresh_token@),
        callback::first_value(encoding::pair_texts(r@), "refresh_token"@, 0) == Some(
            refresh_token@,
        ),
{
    let mut r: Vec<(String, String)> = Vec::new();
    r.push(pair("grant_type", "refresh_token"));
    r.push(pair("client_id", client_id));
    r.push(pair("refresh_token", refresh_token));
    assert(encoding::pair_texts(r@) =~= refresh_spec(client_id@, refresh_token@));
    proof {
        law_refresh_sends_the_refresh_token(client_id@, refresh_token@);
    }
    r
}

/// The error for an endpoint that answers with a failure.
pub fn endpoint_error(endpoint: &str, status: &str, body: &str) -> (r: CliCoreError)
    ensures
        error::is_message(r, endpoint@ + " endpoint returned "@ + status@ + ": "@ + body@),
{
    let mut m = endpoint.to_owned();
    m.append(" endpoint returned ");
    m.append(status);
    m.append(": ");
    m.append(body);
    CliCoreError::message(m)
}

/// The error of a status without a stored token.
pub fn not_logged_in(env: &str) -> (r: CliCoreError)
    ensures
        error::is_message(r, "not logged in for environment "@ + text::debug_quoted(env@)),
{
    let mut m = "not logged in for environment ".to_owned();
    m.append(text::debug_text(env).as_str());
    CliCoreError::message(m)
}

/// Where a provider keeps its tokens.
#[derive(Clone, Copy, Debug, PartialEq, Eq, Structural)]
pub enum StorageChoice {
    /// In the backend that was injected.
    Injected,
    /// In a built-in backend.
    BuiltIn(StorageBackend),
    /// In the one that the configuration selects.
    Configured,
}

/// Where tokens are kept: in an injected backend, else in that of a forced mode,
/// else in the configured one.
pub open spec fn chosen_storage(injected: bool, mode: Option<CredentialStore>) -> StorageChoice {
    if injected {
        StorageChoice::Injected
    } else {
        match mode {
            Some(mode) => StorageChoice::BuiltIn(storage::backend_of(mode)),
            None => StorageChoice::Configured,
        }
    }
}

/// `r` is the port to bind and the path of the callback of a redirect URI, or
/// the error.
pub open spec fn is_redirect(r: Result<(u16, String), CliCoreError>, uri: Seq<char>) -> bool {
    match encoding::parsed_url(uri) {
        Err(e) => r matches Err(err) && error::is_message(
            err,
            "invalid redirect URI '"@ + uri + "': "@ + e,
        ),
        Ok(u) => match u.port {
            Some(port) => r matches Ok((p, path)) && p == port && path@ == u.path,
            None => r matches Err(err) && error::is_message(
                err,
                "redirect URI '"@ + uri + "' has no port"@,
            ),
        },
    }
}

impl PkceAuthProvider {
    /// Creates a new PKCE provider.
    pub fn new(
        name: String,
        auth_url: String,
        token_url: String,
        client_id: String,
        scopes: Vec<String>,
    ) -> (r: Self)
        ensures
            r.name == name,
            r.auth_url == auth_url,
            r.token_url == token_url,
            r.client_id == client_id,
            r.scopes == scopes,
            r.environments is None,
            r.redirect_port == REDIRECT_PORT_DEFAULT,
            r.redirect_uri is None,
            r.app_id@.len() == 0,
            r.env_prefix@ == underscored(text::uppercase(name@)),
            r.store_mode is None,
            text::texts(r.identity_claims@) == default_claims(),
            r.cache@ == Map::<Seq<char>, StoredToken>::empty(),
            encoding::duration_nanos(r.token_timeout) == TOKEN_TIMEOUT_SECS * 1_000_000_000,
    {
        let upper = text::to_uppercase(name.as_str());
        let env_prefix = replace_hyphens(upper.as_str());
        PkceAuthProvider {
            name,
            auth_url,
            token_url,
            client_id,
            scopes,
            environments: None,
            redirect_port: REDIRECT_PORT_DEFAULT,
            redirect_uri: None,
            app_id: String::new(),
            env_prefix,
            store_mode: None,
            identity_claims: default_identity_claims(),
            cache: StringMap::new(),
            token_timeout: std::time::Duration::from_secs(TOKEN_TIMEOUT_SECS),
        }
    }

    /// Sets how long a request to the token endpoint may take (default: 30
    /// seconds).
    pub fn with_token_timeout(self, timeout: std::time::Duration) -> (r: Self)
        ensures
            r == (PkceAuthProvider { token_timeout: timeout, ..self }),
    {
        let mut r = self;
        r.token_timeout = timeout;
        r
    }

    /// Sources per-environment OAuth config from an environment system.
    pub fn with_environments(self, environments: Environments) -> (r: Self)
        ensures
            r == (PkceAuthProvider { environments: Some(environments), ..self }),
    {
        let mut r = self;
        r.environments = Some(environments);
        r
    }

    /// Sets the local redirect server port (default: 7443).
    pub fn with_redirect_port(self, port: u16) -> (r: Self)
        ensures
            r == (PkceAuthProvider { redirect_port: port, ..self }),
    {
        let mut r = self;
        r.redirect_port = port;
        r
    }

    /// Overrides the redirect URI sent to the authorization server.
    pub fn with_redirect_uri(self, uri: String) -> (r: Self)
        ensures
            r == (PkceAuthProvider { redirect_uri: Some(uri), ..self }),
    {
        let mut r = self;
        r.redirect_uri = Some(uri);
        r
    }

    /// Sets the application id used as the keychain service prefix.
    pub fn with_app_id(self, app_id: String) -> (r: Self)
        ensures
            r == (PkceAuthProvider { app_id, ..self }),
    {
        let mut r = self;
        r.app_id = app_id;
        r
    }

    /// Adds extra scopes beyond the default set.
    pub fn with_extra_scopes(self, scopes: &Vec<String>) -> (r: Self)
        ensures
            r == (PkceAuthProvider { scopes: r.scopes, ..self }),
            text::texts(r.scopes@) == text::texts(self.scopes@) + text::texts(scopes@),
    {
        let mut r = self;
        let ghost first = r.scopes@;
        let mut more = text::clone_strings(scopes);
        let ghost added = more@;
        r.scopes.append(&mut more);
        assert(text::texts(r.scopes@) =~= text::texts(first) + text::texts(added));
        r
    }

    /// Forces a built-in credential storage mode, bypassing the flag/env/config
    /// resolution.
    pub fn with_credential_store(self, mode: CredentialStore) -> (r: Self)
        ensures
            r == (PkceAuthProvider { store_mode: Some(mode), ..self }),
    {
        let mut r = self;
        r.store_mode = Some(mode);
        r
    }

    /// Enables a file-based fallback when the system keychain is unavailable.
    pub fn with_file_fallback(self, enabled: bool) -> (r: Self)
        ensures
            r == (PkceAuthProvider {
                store_mode: Some(
                    if enabled {
                        CredentialStore::Auto
                    } else {
                        CredentialStore::Keyring
                    },
                ),
                ..self
            }),
    {
        self.with_credential_store(
            if enabled {
                CredentialStore::Auto
            } else {
                CredentialStore::Keyring
            },
        )
    }

    /// Overrides the prioritized JWT claim names used to derive an identity.
    pub fn with_identity_claims(self, claims: Vec<String>) -> (r: Self)
        ensures
            r == (PkceAuthProvider { identity_claims: claims, ..self }),
    {
        let mut r = self;
        r.identity_claims = claims;
        r
    }

    /// Where tokens are kept: in an injected backend, else in that of a forced
    /// mode, else in the configured one.
    pub fn storage_choice(&self, injected: bool) -> (r: StorageChoice)
        ensures
            r == chosen_storage(injected, self.store_mode),
    {
        if injected {
            StorageChoice::Injected
        } else {
            match self.store_mode {
                Some(mode) => StorageChoice::BuiltIn(storage_for(mode)),
                None => StorageChoice::Configured,
            }
        }
    }

    /// Builds the storage key for this provider and `env`.
    pub fn credential_key(&self, env: &str) -> (r: CredentialKey)
        ensures
            r.app_id@ == self.app_id@,
            r.provider@ == self.name@,
            r.env@ == env@,
    {
        CredentialKey::new(self.app_id.as_str(), self.name.as_str(), env)
    }

    /// Builds a [`Credential`] from a stored token, deriving `identity` and `sub`
    /// from the access-token JWT claims when present.
    pub fn build_credential(&self, env: &str, token: &StoredToken) -> (r: Credential)
        ensures
            r@ == built_credential(
                self.name@,
                env@,
                token@,
                scopes::claims_of(token@.access_token),
                text::texts(self.identity_claims@),
            ),
    {
        let claims = decode_jwt_claims(token.access_token.as_str());
        credential_from(self.name.as_str(), env, token, &claims, &self.identity_claims)
    }

    /// Resolves the OAuth client for `env` from the wired environments, if any.
    /// `None` when no resolver is wired or the env does not resolve.
    pub fn resolved_oauth(
        &self,
        env: &str,
        base: Option<&str>,
        read: &FileRead,
        fallback: &Option<EnvTable>,
        vars: StringMap<String>,
    ) -> (r: Option<OAuthConfig>)
        ensures
            opt_oauth(r) == resolved_spec(
                opt_environments(self.environments),
                env@,
                fs::str_text(base),
                *read,
                environments::opt_entries(*fallback),
                env_config::var_texts(vars@),
            ),
    {
        match &self.environments {
            Some(envs) => {
                match envs.chain(env, base, read, fallback, vars) {
                    Ok(chain) => match OAuthConfig::assemble(&chain) {
                        Ok(o) => Some(o),
                        Err(_) => None,
                    },
                    Err(_) => None,
                }
            },
            None => None,
        }
    }

    fn field(
        &self,
        resolved: Option<&String>,
        suffix: &str,
        vars: &StringMap<String>,
        base: &String,
    ) -> (r: String)
        ensures
            r@ == oauth_field(
                (match resolved {
                    Some(s) => Some(s@),
                    None => None,
                }),
                env_config::var_texts(vars@),
                self.env_prefix@ + "_OAUTH_"@ + suffix@,
                base@,
            ),
    {
        match resolved {
            Some(v) => {
                if !v.as_str().is_empty() {
                    return v.clone();
                }
            },
            None => {},
        }
        let mut var = self.env_prefix.clone();
        var.append("_OAUTH_");
        var.append(suffix);
        match vars.get(var.as_str()) {
            Some(v) => v.clone(),
            None => base.clone(),
        }
    }

    /// Computes the effective OAuth config with the resolved, then environment
    /// variable, then base precedence for each field.
    pub fn effective_oauth(&self, resolved: &Option<OAuthConfig>, vars: &StringMap<String>) -> (r:
        OAuthConfig)
        ensures
            r@ == effective_spec(*self, opt_oauth(*resolved), env_config::var_texts(vars@)),
    {
        let (client_id, auth_url, token_url) = match resolved {
            Some(o) => (Some(&o.client_id), Some(&o.auth_url), Some(&o.token_url)),
            None => (None, None, None),
        };
        let scopes = match resolved {
            Some(o) => {
                assert(text::texts(o.scopes@).len() == o.scopes@.len());
                if o.scopes.len() > 0 {
                    text::clone_strings(&o.scopes)
                } else {
                    text::clone_strings(&self.scopes)
                }
            },
            None => text::clone_strings(&self.scopes),
        };
        OAuthConfig {
            client_id: self.field(client_id, "CLIENT_ID", vars, &self.client_id),
            auth_url: self.field(auth_url, "AUTH_URL", vars, &self.auth_url),
            token_url: self.field(token_url, "TOKEN_URL", vars, &self.token_url),
            scopes,
        }
    }

    /// The redirect URI that is sent to the authorization server.
    pub fn effective_redirect_uri(&self) -> (r: String)
        ensures
            r@ == redirect_spec(*self),
    {
        match &self.redirect_uri {
            Some(uri) => uri.clone(),
            None => {
                let mut r = "http://127.0.0.1:".to_owned();
                r.append(text::decimal(self.redirect_port as u128).as_str());
                r.append("/callback");
                r
            },
        }
    }

    /// Parses the effective redirect URI and returns the port to bind and the
    /// path of the callback.
    pub fn parse_redirect_uri(&self) -> (r: Result<(u16, String), CliCoreError>)
        ensures
            is_redirect(r, redirect_spec(*self)),
    {
        let uri = self.effective_redirect_uri();
        match parse_url(uri.as_str()) {
            Err(e) => {
                let mut m = "invalid redirect URI '".to_owned();
                m.append(uri.as_str());
                m.append("': ");
                m.append(e.as_str());
                Err(CliCoreError::message(m))
            },
            Ok(u) => match url_port(&u) {
                Some(port) => Ok((port, url_path(&u))),
                None => {
                    let mut m = "redirect URI '".to_owned();
                    m.append(uri.as_str());
                    m.append("' has no port");
                    Err(CliCoreError::message(m))
                },
            },
        }
    }

    /// The URL that the browser is sent to.
    pub fn authorize_url(
        &self,
        oauth: &OAuthConfig,
        scopes: &Vec<String>,
        state: &str,
        challenge: &str,
    ) -> (r: Result<String, CliCoreError>)
        ensures
            match encoding::url_with(
                oauth.auth_url@,
                asked_params(*self, oauth@, text::texts(scopes@), state@, challenge@),
            ) {
                Ok(url) => r matches Ok(s) && s@ == url,
                Err(e) => r matches Err(err) && error::is_message(err, "invalid auth URL: "@ + e),
            },
    {
        let redirect_uri = self.effective_redirect_uri();
        let scope = text::join(scopes, " ");
        let mut params: Vec<(String, String)> = Vec::new();
        params.push(pair("response_type", "code"));
        params.push(pair("client_id", oauth.client_id.as_str()));
        params.push(pair("redirect_uri", redirect_uri.as_str()));
        params.push(pair("scope", scope.as_str()));
        params.push(pair("state", state));
        params.push(pair("code_challenge", challenge));
        params.push(pair("code_challenge_method", "S256"));
        assert(encoding::pair_texts(params@) =~= code_params(
            oauth.client_id@,
            redirect_spec(*self),
            scope@,
            state@,
            challenge@,
        ));
        match add_params(oauth.auth_url.as_str(), &params) {
            Ok(url) => Ok(url),
            Err(e) => {
                let mut m = "invalid auth URL: ".to_owned();
                m.append(e.as_str());
                Err(CliCoreError::message(m))
            },
        }
    }

    /// The parameters of a request for a token in exchange for a code.
    pub fn exchange_params(&self, oauth: &OAuthConfig, code: &str, verifier: &str) -> (r: Vec<
        (String, String),
    >)
        ensures
            encoding::pair_texts(r@) == sent_params(*self, oauth@, code@, verifier@),
            callback::first_value(encoding::pair_texts(r@), "code"@, 0) == Some(code@),
            callback::first_value(encoding::pair_texts(r@), "code_verifier"@, 0) == Some(
                verifier@,
            ),
    {
        let redirect_uri = self.effective_redirect_uri();
        let mut r: Vec<(String, String)> = Vec::new();
        r.push(pair("grant_type", "authorization_code"));
        r.push(pair("client_id", oauth.client_id.as_str()));
        r.push(pair("redirect_uri", redirect_uri.as_str()));
        r.push(pair("code", code));
        r.push(pair("code_verifier", verifier));
        assert(encoding::pair_texts(r@) =~= exchange_spec(
            oauth.client_id@,
            redirect_spec(*self),
            code@,
            verifier@,
        ));
        proof {
            law_exchange_carries_code_and_verifier(*self, oauth@, code@, verifier@);
        }
        r
    }

    /// The usable token for `env` in the cache.
    pub fn cached_token(&self, env: &str, now: i64) -> (r: Option<StoredToken>)
        ensures
            opt_token(r) == cached_spec(cache_texts(self.cache@), env@, now),
    {
        match self.cache.get(env) {
            Some(t) => {
                if t.is_valid_at(now) {
                    Some(t.duplicate())
                } else {
                    None
                }
            },
            None => None,
        }
    }

    /// Puts a token into the cache.
    pub fn store_cached_token(&mut self, env: &str, token: StoredToken)
        ensures
            cache_texts(final(self).cache@) == cache_texts(old(self).cache@).insert(env@, token@),
            *final(self) == (PkceAuthProvider { cache: final(self).cache, ..*old(self) }),
    {
        self.cache.insert(env.to_owned(), token);
        assert(cache_texts(self.cache@) =~= cache_texts(old(self).cache@).insert(env@, token@));
    }

    /// Takes the token for `env` out of the cache.
    pub fn forget(&mut self, env: &str)
        ensures
            cache_texts(final(self).cache@) == cache_texts(old(self).cache@).remove(env@),
            *final(self) == (PkceAuthProvider { cache: final(self).cache, ..*old(self) }),
    {
        self.cache.remove(env);
        assert(cache_texts(self.cache@) =~= cache_texts(old(self).cache@).remove(env@));
    }

    /// The environments with a token in the cache, as a hint; what is only in
    /// the store is not listed.
    pub fn list_environments(&self) -> (r: Vec<String>)
        ensures
            environments::is_name_list(text::texts(r@), self.cache@.dom()),
    {
        self.cache.keys()
    }
}

/// A token that was put into the cache is found there until it is about to
/// expire.
pub proof fn law_cached_token_is_found(
    cache: Map<Seq<char>, TokenText>,
    env: Seq<char>,
    token: TokenText,
    now: i64,
)
    ensures
        cached_spec(cache.insert(env, token), env, now) == (if usable(token, now) {
            Some(token)
        } else {
            None
        }),
{
}

/// After a logout the cache has no token for the environment, and those for the
/// others are untouched.
pub proof fn law_logout_forgets(
    cache: Map<Seq<char>, TokenText>,
    env: Seq<char>,
    other: Seq<char>,
    now: i64,
)
    ensures
        cached_spec(cache.remove(env), env, now) is None,
        other != env ==> cached_spec(cache.remove(env), other, now) == cached_spec(
            cache,
            other,
            now,
        ),
{
}

/// A token that covers what is required never leads to a login.
pub proof fn law_covering_token_is_used(
    p: CredentialPlan,
    env: Seq<char>,
    granted: Seq<Seq<char>>,
    defaults: Seq<Seq<char>>,
    required: Seq<Seq<char>>,
    interactive: bool,
)
    requires
        is_credential_plan(p, env, Some(granted), defaults, required, interactive),
        text::covers(granted, required),
    ensures
        p is UseToken,
{
    let missing = scopes::missing_spec(granted, required);
    if missing.len() > 0 {
        scopes::law_missing_is_the_difference(granted, required, missing[0]);
        assert(missing.contains(missing[0]));
        let i = choose|i: int| 0 <= i < required.len() && required[i] == missing[0];
        assert(granted.contains(required[i]));
    }
}

/// An empty field of the resolved environment falls through to the variable, and
/// then to the base value; a field that is set wins over both.
pub proof fn law_resolved_field_wins(
    value: Seq<char>,
    vars: Map<Seq<char>, Seq<char>>,
    var: Seq<char>,
    base: Seq<char>,
)
    ensures
        value.len() > 0 ==> oauth_field(Some(value), vars, var, base) == value,
        value.len() == 0 && vars.dom().contains(var) ==> oauth_field(Some(value), vars, var, base)
            == vars[var],
        value.len() == 0 && !vars.dom().contains(var) ==> oauth_field(Some(value), vars, var, base)
            == base,
{
}

/// The words of the parameters of the two requests of a login differ.
proof fn lemma_parameter_names()
    ensures
        "grant_type"@ != "client_id"@,
        "grant_type"@ != "redirect_uri"@,
        "grant_type"@ != "code"@,
        "grant_type"@ != "code_verifier"@,
        "grant_type"@ != "refresh_token"@,
        "client_id"@ != "redirect_uri"@,
        "client_id"@ != "code"@,
        "client_id"@ != "code_verifier"@,
        "client_id"@ != "refresh_token"@,
        "client_id"@ != "scope"@,
        "client_id"@ != "state"@,
        "client_id"@ != "code_challenge"@,
        "client_id"@ != "code_challenge_method"@,
        "redirect_uri"@ != "code"@,
        "redirect_uri"@ != "code_verifier"@,
        "redirect_uri"@ != "scope"@,
        "redirect_uri"@ != "state"@,
        "redirect_uri"@ != "code_challenge"@,
        "redirect_uri"@ != "code_challenge_method"@,
        "response_type"@ != "client_id"@,
        "response_type"@ != "redirect_uri"@,
        "response_type"@ != "scope"@,
        "response_type"@ != "state"@,
        "response_type"@ != "code_challenge"@,
        "response_type"@ != "code_challenge_method"@,
        "scope"@ != "state"@,
        "scope"@ != "code_challenge"@,
        "scope"@ != "code_challenge_method"@,
        "state"@ != "code_challenge"@,
        "state"@ != "code_challenge_method"@,
        "code_challenge"@ != "code_challenge_method"@,
        "code"@ != "code_verifier"@,
{
    reveal_strlit("grant_type");
    reveal_strlit("client_id");
    reveal_strlit("redirect_uri");
    reveal_strlit("code");
    reveal_strlit("code_verifier");
    reveal_strlit("refresh_token");
    reveal_strlit("response_type");
    reveal_strlit("scope");
    reveal_strlit("state");
    reveal_strlit("code_challenge");
    reveal_strlit("code_challenge_method");
    assert("code"@.len() == 4);
    assert("client_id"@.len() == 9);
    assert("code_challenge"@.len() == 14);
    assert("code_challenge_method"@.len() == 21);
    assert("code_verifier"@.len() == 13);
    assert("redirect_uri"@[0] != "grant_type"@[0]);
    assert("scope"@[1] != "state"@[1]);
    assert("code_verifier"@[5] != "code_challenge"@[5]);
    assert("response_type"@[2] != "redirect_uri"@[2]);
    assert("response_type"@[2] != "refresh_token"@[2]);
}

/// The request for a token carries the code under `code`, the verifier under
/// `code_verifier`, and the client and the redirect URI under their names.
pub proof fn law_exchange_carries_code_and_verifier(
    p: PkceAuthProvider,
    oauth: OAuthText,
    code: Seq<char>,
    verifier: Seq<char>,
)
    ensures
        callback::first_value(sent_params(p, oauth, code, verifier), "code"@, 0) == Some(code),
        callback::first_value(sent_params(p, oauth, code, verifier), "code_verifier"@, 0) == Some(
            verifier,
        ),
        callback::first_value(sent_params(p, oauth, code, verifier), "client_id"@, 0) == Some(
            oauth.client_id,
        ),
        callback::first_value(sent_params(p, oauth, code, verifier), "grant_type"@, 0) == Some(
            "authorization_code"@,
        ),
        p.redirect_uri matches Some(uri) ==> callback::first_value(
            sent_params(p, oauth, code, verifier),
            "redirect_uri"@,
            0,
        ) == Some(uri@),
{
    lemma_parameter_names();
    reveal_with_fuel(callback::first_value, 6);
}

/// The browser is sent with the state under `state`, the challenge under
/// `code_challenge`, and the scopes under `scope`, separated by spaces.
pub proof fn law_login_asks_for_a_code(
    p: PkceAuthProvider,
    oauth: OAuthText,
    scopes: Seq<Seq<char>>,
    state: Seq<char>,
    challenge: Seq<char>,
)
    ensures
        ({
            let asked = asked_params(p, oauth, scopes, state, challenge);
            &&& callback::first_value(asked, "response_type"@, 0) == Some("code"@)
            &&& callback::first_value(asked, "client_id"@, 0) == Some(oauth.client_id)
            &&& callback::first_value(asked, "scope"@, 0) == Some(text::join_spec(scopes, " "@))
            &&& callback::first_value(asked, "state"@, 0) == Some(state)
            &&& callback::first_value(asked, "code_challenge"@, 0) == Some(challenge)
            &&& callback::first_value(asked, "code_challenge_method"@, 0) == Some("S256"@)
            &&& p.redirect_uri matches Some(uri) ==> callback::first_value(
                asked,
                "redirect_uri"@,
                0,
            ) == Some(uri@)
        }),
{
    lemma_parameter_names();
    reveal_with_fuel(callback::first_value, 8);
}

/// The two requests of a login belong together: the code that is exchanged is
/// the one that the callback brought, the verifier is the one whose hash was the
/// challenge, the client and the redirect URI are the same in both, and a
/// callback is taken only with the state that was sent.
pub proof fn law_exchange_completes_the_login(
    p: PkceAuthProvider,
    oauth: OAuthText,
    scopes: Seq<Seq<char>>,
    state: Seq<char>,
    verifier: Seq<char>,
    request: Seq<char>,
    step: CallbackStep,
    code: Seq<char>,
)
    requires
        callback::is_callback_step(
            step,
            callback::request_param(request, "code"@),
            callback::request_param(request, "state"@),
            state,
        ),
        step matches CallbackStep::Finished { response: _, code: Ok(got) } && got@ == code,
    ensures
        ({
            let asked = asked_params(
                p,
                oauth,
                scopes,
                state,
                encoding::base64_text(encoding::sha256_of(verifier)),
            );
            let sent = sent_params(p, oauth, code, verifier);
            &&& callback::first_value(sent, "code"@, 0) == callback::request_param(
                request,
                "code"@,
            )
            &&& callback::first_value(asked, "state"@, 0) == callback::request_param(
                request,
                "state"@,
            )
            &&& callback::first_value(sent, "code_verifier"@, 0) matches Some(v)
                && callback::first_value(asked, "code_challenge"@, 0) == Some(
                encoding::base64_text(encoding::sha256_of(v)),
            )
            &&& callback::first_value(sent, "client_id"@, 0) == callback::first_value(
                asked,
                "client_id"@,
                0,
            )
            &&& callback::first_value(sent, "redirect_uri"@, 0) == callback::first_value(
                asked,
                "redirect_uri"@,
                0,
            )
            &&& callback::first_value(sent, "redirect_uri"@, 0) is Some
        }),
{
    lemma_parameter_names();
    reveal_with_fuel(callback::first_value, 8);
}

/// A refresh sends the refresh token under `refresh_token`, for the client.
pub proof fn law_refresh_sends_the_refresh_token(client_id: Seq<char>, refresh_token: Seq<char>)
    ensures
        ({
            let sent = refresh_spec(client_id, refresh_token);
            &&& callback::first_value(sent, "grant_type"@, 0) == Some("refresh_token"@)
            &&& callback::first_value(sent, "client_id"@, 0) == Some(client_id)
            &&& callback::first_value(sent, "refresh_token"@, 0) == Some(refresh_token)
        }),
{
    lemma_parameter_names();
    reveal_with_fuel(callback::first_value, 4);
}

/// A received token is usable for its lifetime less the buffer, counted from
/// when it was received, and for an hour less the buffer where the server told
/// no lifetime.
pub proof fn law_received_token_expires(
    body: TokenResponse,
    requested: Seq<Seq<char>>,
    now: i64,
    later: i64,
)
    requires
        i64::MIN <= now + lifetime(body) <= i64::MAX,
    ensures
        ({
            let t = received_token(body, requested, now);
            &&& t.access_token == body.access_token@
            &&& body.expires_in matches Some(s) ==> (usable(t, later) <==> later < now + s - 30)
            &&& body.expires_in is None ==> (usable(t, later) <==> later < now + 3600 - 30)
        }),
{
}

/// A received token has the scopes that the server echoes; where it echoes
/// none, those that were asked for.
pub proof fn law_received_scopes(
    body: TokenResponse,
    asked: Seq<Seq<char>>,
    others: Seq<Seq<char>>,
    now: i64,
)
    ensures
        ({
            let t = received_token(body, asked, now);
            let u = received_token(body, others, now);
            &&& body.scope is None ==> t.scopes == asked
            &&& body.scope matches Some(s) ==> if text::words(s@).len() == 0 {
                t.scopes == asked
            } else {
                t.scopes == text::words(s@) && t.scopes == u.scopes
            }
        }),
{
}

/// A refresh never loses the refresh token: a new one takes its place, else the
/// old one stays. All else is as the server sent it.
pub proof fn law_refresh_token_is_not_lost(refreshed: TokenText, old_token: Seq<char>)
    ensures
        ({
            let kept = kept_token(refreshed, old_token);
            &&& kept.refresh_token is Some
            &&& refreshed.refresh_token is Some ==> kept == refreshed
            &&& refreshed.refresh_token is None ==> kept.refresh_token == Some(old_token)
            &&& kept.access_token == refreshed.access_token
            &&& kept.expires_at == refreshed.expires_at
            &&& kept.scopes == refreshed.scopes
        }),
{
}

/// A stored token is used exactly while it has more than the buffer left; after
/// that its own refresh token is exchanged, for its own scopes, if it has one.
pub proof fn law_stored_token_is_used_or_refreshed(s: TokenStep, t: TokenText, now: i64)
    requires
        is_token_step(s, Some(t), now),
    ensures
        s is UseToken <==> now < t.expires_at - 30,
        s matches TokenStep::UseToken(u) ==> u@ == t,
        s is Refresh <==> t.expires_at - 30 <= now && t.refresh_token is Some,
        s matches TokenStep::Refresh { refresh_token, scopes } ==> Some(refresh_token@)
            == t.refresh_token && text::texts(scopes@) == t.scopes,
{
}

/// A login for a command asks for every default scope, every scope that the
/// token at hand has and every required scope, and happens only where a scope is
/// missing.
pub proof fn law_login_asks_for_all_scopes(
    p: CredentialPlan,
    env: Seq<char>,
    granted: Seq<Seq<char>>,
    defaults: Seq<Seq<char>>,
    required: Seq<Seq<char>>,
    interactive: bool,
    scope: Seq<char>,
)
    requires
        is_credential_plan(p, env, Some(granted), defaults, required, interactive),
    ensures
        p matches CredentialPlan::Authenticate(asked) ==> {
            &&& interactive
            &&& !text::covers(granted, required)
            &&& text::texts(asked@).contains(scope) <==> defaults.contains(scope)
                || granted.contains(scope) || required.contains(scope)
        },
        p is Fail ==> !interactive && !text::covers(granted, required),
        p is UseToken ==> text::covers(granted, required),
{
    let missing = scopes::missing_spec(granted, required);
    let union = scopes::union_spec(defaults, granted, required);
    scopes::law_step_up_never_drops_scopes(defaults, granted, required);
    if missing.len() > 0 {
        assert(missing.contains(missing[0]));
        scopes::law_missing_is_the_difference(granted, required, missing[0]);
        let i = choose|i: int| 0 <= i < required.len() && required[i] == missing[0];
        assert(!granted.contains(required[i]));
    } else {
        assert forall|i: int| 0 <= i < required.len() implies granted.contains(
            #[trigger] required[i],
        ) by {
            scopes::law_missing_is_the_difference(granted, required, required[i]);
        }
    }
    if defaults.contains(scope) {
        let i = choose|i: int| 0 <= i < defaults.len() && defaults[i] == scope;
        assert(union.contains(defaults[i]));
    }
    if granted.contains(scope) {
        let i = choose|i: int| 0 <= i < granted.len() && granted[i] == scope;
        assert(union.contains(granted[i]));
    }
    if required.contains(scope) {
        let i = choose|i: int| 0 <= i < required.len() && required[i] == scope;
        assert(union.contains(required[i]));
    }
}

/// What a login resolves to for a client: each field of a resolved client that
/// is not empty is taken as it is, and the field of the provider only where
/// neither the resolved client nor the variables have one.
pub proof fn law_effective_client(
    p: PkceAuthProvider,
    o: OAuthText,
    vars: Map<Seq<char>, Seq<char>>,
)
    ensures
        ({
            let e = effective_spec(p, Some(o), vars);
            &&& o.client_id.len() > 0 ==> e.client_id == o.client_id
            &&& o.auth_url.len() > 0 ==> e.auth_url == o.auth_url
            &&& o.token_url.len() > 0 ==> e.token_url == o.token_url
            &&& o.scopes.len() > 0 ==> e.scopes == o.scopes
            &&& o.scopes.len() == 0 ==> e.scopes == text::texts(p.scopes@)
        }),
        ({
            let e = effective_spec(p, None, vars);
            let client = p.env_prefix@ + "_OAUTH_"@ + "CLIENT_ID"@;
            let auth = p.env_prefix@ + "_OAUTH_"@ + "AUTH_URL"@;
            let token = p.env_prefix@ + "_OAUTH_"@ + "TOKEN_URL"@;
            &&& vars.dom().contains(client) ==> e.client_id == vars[client]
            &&& !vars.dom().contains(client) ==> e.client_id == p.client_id@
            &&& vars.dom().contains(auth) ==> e.auth_url == vars[auth]
            &&& !vars.dom().contains(auth) ==> e.auth_url == p.auth_url@
            &&& vars.dom().contains(token) ==> e.token_url == vars[token]
            &&& !vars.dom().contains(token) ==> e.token_url == p.token_url@
            &&& e.scopes == text::texts(p.scopes@)
        }),
{
}

/// A credential is for the provider and the environment that it was built for,
/// and carries the access token of the stored token, whatever its claims say;
/// without claims it names nobody.
pub proof fn law_credential_carries_the_token(
    provider: Seq<char>,
    env: Seq<char>,
    token: TokenText,
    claims: Option<ClaimsText>,
    identity_claims: Seq<Seq<char>>,
)
    ensures
        ({
            let c = built_credential(provider, env, token, claims, identity_claims);
            &&& c.token == token.access_token
            &&& c.provider == provider
            &&& c.env == env
            &&& claims is None ==> c.identity.len() == 0 && c.sub.len() == 0
            &&& encoding::written_seconds(token.expires_at) matches Some(at) ==> c.expires_at == at
        }),
{
}

/// A token grants what its claims say and what was recorded when it was
/// obtained, and nothing else.
pub proof fn law_token_grants_claims_and_records(t: TokenText, scope: Seq<char>)
    ensures
        granted_spec(t).contains(scope) <==> scopes::scopes_in(
            scopes::claims_of(t.access_token),
        ).contains(scope) || t.scopes.contains(scope),
{
    let claimed = scopes::scopes_in(scopes::claims_of(t.access_token));
    text::lemma_with_missing_covers(claimed, t.scopes);
    if claimed.contains(scope) {
        let i = choose|i: int| 0 <= i < claimed.len() && claimed[i] == scope;
        assert(granted_spec(t).contains(claimed[i]));
    }
    if t.scopes.contains(scope) {
        let i = choose|i: int| 0 <= i < t.scopes.len() && t.scopes[i] == scope;
        assert(granted_spec(t).contains(t.scopes[i]));
    }
}

/// An injected backend comes before a forced mode, which comes before what is
/// configured.
pub proof fn law_storage_is_chosen_in_order(mode: CredentialStore, forced: Option<CredentialStore>)
    ensures
        chosen_storage(true, forced) is Injected,
        chosen_storage(false, Some(mode)) == StorageChoice::BuiltIn(storage::backend_of(mode)),
        chosen_storage(false, None) is Configured,
{
}

/// The callback is awaited on the port and the path of the redirect URI; one
/// without a port, or that is no URL, is refused.
pub proof fn law_redirect_has_a_port(r: Result<(u16, String), CliCoreError>, uri: Seq<char>)
    requires
        is_redirect(r, uri),
    ensures
        r is Ok <==> (encoding::parsed_url(uri) matches Ok(u) && u.port is Some),
        r matches Ok((port, path)) ==> (encoding::parsed_url(uri) matches Ok(u) && u.port == Some(
            port,
        ) && u.path == path@),
{
}

/// Without a redirect URI of its own a provider is called back on the local
/// machine, on its port.
pub proof fn law_default_redirect(p: PkceAuthProvider)
    requires
        p.redirect_uri is None,
    ensures
        redirect_spec(p) == "http://127.0.0.1:"@ + text::decimal_spec(p.redirect_port as nat)
            + "/callback"@,
{
}

/// The client of an environment is read from its table: each field from the
/// entry of its own name, and empty where there is none.
pub proof fn law_client_is_read_from_the_table(
    table: Map<Seq<char>, TomlView>,
    client_id: Seq<char>,
    auth_url: Seq<char>,
    token_url: Seq<char>,
    scopes: Seq<Seq<char>>,
)
    requires
        table.dom().contains("client_id"@) && table["client_id"@] == TomlView::Text(client_id),
        table.dom().contains("auth_url"@) && table["auth_url"@] == TomlView::Text(auth_url),
        table.dom().contains("token_url"@) && table["token_url"@] == TomlView::Text(token_url),
        table.dom().contains("scopes"@) && table["scopes"@] == toml_value::text_list(scopes),
        !env_config::is_blank(client_id),
        !env_config::is_blank(auth_url),
        !env_config::is_blank(token_url),
        scopes.len() > 0,
    ensures
        oauth_in(seq![SourceText { name: None, table, vars: None }]) == Some(
            OAuthText { client_id, auth_url, token_url, scopes },
        ),
        oauth_in(seq![SourceText { name: None, table: Map::empty(), vars: None }]) == Some(
            OAuthText {
                client_id: Seq::empty(),
                auth_url: Seq::empty(),
                token_url: Seq::empty(),
                scopes: Seq::empty(),
            },
        ),
{
    reveal_with_fuel(env_config::answer_from, 2);
    lemma_texts_in(scopes);
    let list = scopes.map_values(|t: Seq<char>| TomlView::Text(t));
    assert(list.len() == scopes.len());
}

/// The client of an environment is that of its table; without an environment
/// system, or for an environment that is not known, there is none.
pub proof fn law_client_is_of_the_environment(
    e: environments::EnvironmentsText,
    env: Seq<char>,
    base: Option<Seq<char>>,
    read: FileRead,
    fallback: Option<environments::TableText>,
    vars: Map<Seq<char>, Seq<char>>,
    table: environments::TableText,
)
    ensures
        resolved_spec(None, env, base, read, fallback, vars) is None,
        environments::found_table(e, env, base, read, fallback) is None ==> resolved_spec(
            Some(e),
            env,
            base,
            read,
            fallback,
            vars,
        ) is None,
        environments::found_table(e, env, base, read, fallback) == Some(table) ==> resolved_spec(
            Some(e),
            env,
            base,
            read,
            fallback,
            vars,
        ) == oauth_in(environments::resolution_chain(e.app_id, vars, env, table)),
{
}

/// A client that cannot be read names the first field that is wrong, and one
/// that can names none.
pub proof fn law_unreadable_client_names_a_field(chain: Seq<SourceText>)
    ensures
        oauth_in(chain) is None <==> oauth_failure(chain) is Some,
        oauth_failure(chain) matches Some((field, _)) ==> (field == "scopes"@ && list_field(
            chain,
            field,
        ) is None) || (field != "scopes"@ && text_field(chain, field) is None),
{
    reveal_strlit("scopes");
    reveal_strlit("client_id");
    reveal_strlit("auth_url");
    reveal_strlit("token_url");
    assert("scopes"@[0] == 's' && "client_id"@[0] == 'c' && "auth_url"@[0] == 'a'
        && "token_url"@[0] == 't');
}

/// The prefix of a provider has an underscore for each hyphen and is otherwise
/// as it was.
pub proof fn law_prefix_has_no_hyphens(s: Seq<char>, i: int)
    requires
        0 <= i < s.len(),
    ensures
        underscored(s).len() == s.len(),
        s[i] == '-' ==> underscored(s)[i] == '_',
        s[i] != '-' ==> underscored(s)[i] == s[i],
        !underscored(s).contains('-'),
{
    if underscored(s).contains('-') {
        let k = choose|k: int| 0 <= k < s.len() && underscored(s)[k] == '-';
        assert(underscored(s)[k] != '-');
    }
}

/// Without a token a login asks for the defaults and for what is required,
/// whether or not the session can prompt.
pub proof fn law_first_login_asks_for_all_scopes(
    p: CredentialPlan,
    env: Seq<char>,
    defaults: Seq<Seq<char>>,
    required: Seq<Seq<char>>,
    interactive: bool,
    scope: Seq<char>,
)
    requires
        is_credential_plan(p, env, None, defaults, required, interactive),
    ensures
        p matches CredentialPlan::Authenticate(asked) && (text::texts(asked@).contains(scope)
            <==> defaults.contains(scope) || required.contains(scope)),
{
    let none = Seq::<Seq<char>>::empty();
    let union = scopes::union_spec(defaults, none, required);
    scopes::law_step_up_never_drops_scopes(defaults, none, required);
    if defaults.contains(scope) {
        let i = choose|i: int| 0 <= i < defaults.len() && defaults[i] == scope;
        assert(union.contains(defaults[i]));
    }
    if required.contains(scope) {
        let i = choose|i: int| 0 <= i < required.len() && required[i] == scope;
        assert(union.contains(required[i]));
    }
}

/// An empty field of a resolved client is as good as none: the variables and the
/// provider decide on it.
pub proof fn law_empty_fields_are_filled(
    p: PkceAuthProvider,
    o: OAuthText,
    vars: Map<Seq<char>, Seq<char>>,
)
    ensures
        ({
            let e = effective_spec(p, Some(o), vars);
            let without = effective_spec(p, None, vars);
            &&& o.client_id.len() == 0 ==> e.client_id == without.client_id
            &&& o.auth_url.len() == 0 ==> e.auth_url == without.auth_url
            &&& o.token_url.len() == 0 ==> e.token_url == without.token_url
            &&& o.scopes.len() == 0 ==> e.scopes == without.scopes
        }),
{
}

/// The claims of a token say who a credential is for: the subject as it stands
/// there, and the identity by the first of the named claims.
pub proof fn law_credential_names_its_owner(
    provider: Seq<char>,
    env: Seq<char>,
    token: TokenText,
    claims: ClaimsText,
    names: Seq<Seq<char>>,
    owner: Seq<char>,
)
    requires
        claims.dom().contains("sub"@),
        claims["sub"@] == JsonModel::Text(owner),
    ensures
        built_credential(provider, env, token, Some(claims), names).sub == owner,
        owner.len() > 0 ==> built_credential(
            provider,
            env,
            token,
            Some(claims),
            seq!["sub"@] + names,
        ).identity == owner,
{
    let first = seq!["sub"@] + names;
    assert(first[0] == "sub"@);
    if owner.len() > 0 {
        scopes::law_first_named_claim_is_the_identity(claims, first, 0, owner);
    }
}

/// A session that cannot prompt is told which scopes are missing, and for which
/// environment to log in.
pub proof fn law_missing_scopes_are_named(
    p: CredentialPlan,
    env: Seq<char>,
    granted: Seq<Seq<char>>,
    defaults: Seq<Seq<char>>,
    required: Seq<Seq<char>>,
)
    requires
        is_credential_plan(p, env, Some(granted), defaults, required, false),
    ensures
        p matches CredentialPlan::Fail(e) ==> {
            let missing = scopes::missing_spec(granted, required);
            &&& text::contains_text(error::display_spec(e), text::join_spec(missing, ", "@))
            &&& text::contains_text(error::display_spec(e), "auth login --env "@ + env + " "@)
        },
{
    if p is Fail {
        let missing = scopes::missing_spec(granted, required);
        let listed = text::join_spec(missing, ", "@);
        let options = text::join_spec(scopes::scope_options(missing), " "@);
        let lead = "access token for "@ + text::debug_quoted(env)
            + " is missing required scope(s): "@;
        let middle = "; run `auth login --env "@ + env + " "@;
        let tail = options + "` in an interactive terminal"@;
        let whole = lead + listed + "; run `auth login --env "@ + env + " "@ + options
            + "` in an interactive terminal"@;
        text::lemma_part_occurs(lead, listed, middle + tail);
        assert(lead + listed + (middle + tail) =~= whole);
        reveal_strlit("; run `auth login --env ");
        reveal_strlit("auth login --env ");
        let run = "; run `auth login --env "@.take(7);
        assert("; run `auth login --env "@ =~= run + "auth login --env "@);
        let command = "auth login --env "@ + env + " "@;
        text::lemma_part_occurs(lead + listed + run, command, tail);
        assert(lead + listed + run + command + tail =~= whole);
    }
}

/// By default a token is named by its e-mail address where it has one, and by
/// its subject only where no other of the named claims is there.
pub proof fn law_default_identity(claims: ClaimsText, email: Seq<char>, owner: Seq<char>)
    ensures
        claims.dom().contains("email"@) && claims["email"@] == JsonModel::Text(email)
            && email.len() > 0 ==> scopes::identity_from(claims, default_claims(), 0) == email,
        !claims.dom().contains("email"@) && !claims.dom().contains("preferred_username"@)
            && !claims.dom().contains("username"@) && !claims.dom().contains("name"@)
            && claims.dom().contains("sub"@) && claims["sub"@] == JsonModel::Text(owner)
            && owner.len() > 0 ==> scopes::identity_from(claims, default_claims(), 0) == owner,
{
    reveal_with_fuel(scopes::identity_from, 6);
}

} // verus!
