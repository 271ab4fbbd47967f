//! The OAuth PKCE provider.
use base64::engine::general_purpose::URL_SAFE_NO_PAD;
use base64::Engine;
use cli_engine::auth::callback::{
    answer_callback, answer_request, extract_query_param, extract_request_path, CallbackStep,
};
use cli_engine::auth::encoding::{challenge_of, pkce_challenge, random_state};
use cli_engine::auth::pkce::{
    after_load, after_refresh, default_identity_claims, endpoint_error, ensure_granted,
    granted_scopes, not_logged_in, plan_credential, refresh_params, token_from_response,
    CredentialPlan, OAuthConfig, PkceAuthProvider, StorageChoice, StoredToken, TokenResponse,
    TokenStep, TOKEN_EXPIRY_BUFFER_SECS,
};
use cli_engine::auth::scopes::{
    decode_jwt_claims, extract_identity, missing_scope_error, plan_step_up, scopes_from_jwt,
    union_scopes, StepUp,
};
use cli_engine::auth::storage::StorageBackend;
use cli_engine::config::CredentialStore;
use cli_engine::environments::{EnvTable, Environments, FileRead};
use cli_engine::json::Json;
use cli_engine::json_bridge::from_serde;
use cli_engine::middleware::meta::ValueMap;
use cli_engine::ordmap::StringMap;
use cli_engine::toml_value::Toml;

const NOW: i64 = 1_700_000_000;

fn s(text: &str) -> String {
    text.to_owned()
}

fn list(items: &[&str]) -> Vec<String> {
    items.iter().map(|i| (*i).to_owned()).collect()
}

fn test_provider() -> PkceAuthProvider {
    PkceAuthProvider::new(
        s("test"),
        s("https://example.com/auth"),
        s("https://example.com/token"),
        s("client-id"),
        list(&["openid"]),
    )
}

fn base_provider() -> PkceAuthProvider {
    PkceAuthProvider::new(
        s("godaddy"),
        s("https://base/auth"),
        s("https://base/token"),
        s("base-client"),
        list(&["openid"]),
    )
}

fn token_with_scopes(access_token: &str, scopes: &[&str]) -> StoredToken {
    StoredToken {
        access_token: s(access_token),
        expires_at: NOW + 3600,
        refresh_token: None,
        scopes: list(scopes),
    }
}

fn valid_token(access_token: &str) -> StoredToken {
    token_with_scopes(access_token, &[])
}

fn expired_token() -> StoredToken {
    StoredToken {
        access_token: s("old-token"),
        expires_at: NOW - TOKEN_EXPIRY_BUFFER_SECS - 1,
        refresh_token: None,
        scopes: Vec::new(),
    }
}

/// An unsigned-looking JWT whose payload is the given claims object.
fn make_jwt(claims: &str) -> String {
    let header = URL_SAFE_NO_PAD.encode(br#"{"alg":"none","typ":"JWT"}"#);
    let payload = URL_SAFE_NO_PAD.encode(claims.as_bytes());
    format!("{header}.{payload}.signature")
}

fn claims_map(text: &str) -> ValueMap {
    let value: serde_json::Value = serde_json::from_str(text).expect("claims parse");
    match from_serde(value) {
        Json::Object(members) => members,
        _ => panic!("claims are an object"),
    }
}

fn no_vars() -> StringMap<String> {
    StringMap::new()
}

fn one_var(name: &str, value: &str) -> StringMap<String> {
    let mut vars = StringMap::new();
    vars.insert(s(name), s(value));
    vars
}

fn effective(
    provider: &PkceAuthProvider,
    env: &str,
    read: &FileRead,
    vars: fn() -> StringMap<String>,
) -> OAuthConfig {
    let resolved = provider.resolved_oauth(env, None, read, &None, vars());
    provider.effective_oauth(&resolved, &vars())
}

fn envs_for_test() -> Environments {
    Environments::new(s("prod")).with_environment(
        s("prod"),
        EnvTable::new()
            .with(s("client_id"), Toml::from_text("prod-client"))
            .with(s("auth_url"), Toml::from_text("https://prod.example.com/auth"))
            .with(s("token_url"), Toml::from_text("https://prod.example.com/token"))
            .with(s("scopes"), Toml::from_list(&list(&["openid", "prod.read"]))),
    )
}

#[test]
fn environment_wired_provider_sources_oauth_from_resolver() {
    let provider = base_provider().with_environments(envs_for_test());
    let oauth = effective(&provider, "prod", &FileRead::Missing, no_vars);
    assert_eq!(oauth.client_id, "prod-client");
    assert_eq!(oauth.auth_url, "https://prod.example.com/auth");
    assert_eq!(oauth.token_url, "https://prod.example.com/token");
    assert_eq!(oauth.scopes, vec!["openid".to_owned(), "prod.read".to_owned()]);
}

#[test]
fn non_wired_provider_uses_base_config() {
    let oauth = effective(&base_provider(), "anything", &FileRead::Missing, no_vars);
    assert_eq!(oauth.client_id, "base-client");
    assert_eq!(oauth.scopes, vec!["openid".to_owned()]);
}

#[test]
fn wired_provider_resolves_client_id_from_environments_file() {
    let environments = Environments::new(s("prod"))
        .with_app_id(s("x"))
        .with_environment(
            s("prod"),
            EnvTable::new().with(s("client_id"), Toml::from_text("compiled-prod-client")),
        )
        .with_config_file_path_override(s("/tmp/environments.toml"));
    let provider = base_provider().with_environments(environments);
    let read = FileRead::Contents(s("\n[prod]\nclient_id = \"file-prod-client\"\n"));
    assert_eq!(effective(&provider, "prod", &read, no_vars).client_id, "file-prod-client");
}

#[test]
fn legacy_oauth_client_id_env_var_overrides_base_but_yields_to_wired_env() {
    let vars = || one_var("TEST_OAUTH_CLIENT_ID", "legacy-client");
    // Non-wired provider: the legacy var overrides the base client id.
    let bare = test_provider();
    assert_eq!(effective(&bare, "prod", &FileRead::Missing, vars).client_id, "legacy-client");

    // Wired provider whose resolved env carries a non-empty client id: the
    // resolved environment wins over the legacy var.
    let environments = Environments::new(s("prod")).with_app_id(s("x")).with_environment(
        s("prod"),
        EnvTable::new().with(s("client_id"), Toml::from_text("env-client")),
    );
    let wired = test_provider().with_environments(environments);
    assert_eq!(effective(&wired, "prod", &FileRead::Missing, vars).client_id, "env-client");
}

#[test]
fn a_field_of_another_type_falls_back_to_the_base() {
    let environments = Environments::new(s("prod"))
        .with_environment(s("prod"), EnvTable::new().with(s("client_id"), Toml::Integer(7)));
    let provider = base_provider().with_environments(environments);
    let oauth = effective(&provider, "prod", &FileRead::Missing, no_vars);
    assert_eq!(oauth.client_id, "base-client");
}

#[test]
fn cache_stores_and_retrieves_valid_token() {
    let mut provider = test_provider();
    provider.store_cached_token("dev", valid_token("access-abc"));
    let cached = provider.cached_token("dev", NOW);
    assert!(cached.is_some(), "expected cached token to be present");
    assert_eq!(cached.expect("token must be present").access_token, "access-abc");
}

#[test]
fn cached_token_ignores_expired_tokens() {
    let mut provider = test_provider();
    provider.store_cached_token("dev", expired_token());
    assert!(
        provider.cached_token("dev", NOW).is_none(),
        "expired token should not be returned from cache"
    );
}

#[test]
fn a_token_expires_before_its_time() {
    let token = valid_token("t");
    assert!(token.is_valid_at(NOW + 3569));
    assert!(!token.is_valid_at(NOW + 3570));
    assert!(!valid_token("t").is_valid() || token.is_valid());
    let mut never = valid_token("t");
    never.expires_at = i64::MIN;
    assert!(!never.is_valid_at(NOW));
    let mut always = valid_token("t");
    always.expires_at = i64::MAX;
    assert!(always.is_valid());
}

#[test]
fn scopes_from_jwt_parses_scope_claim() {
    let token = make_jwt(r#"{"scope": "a b c"}"#);
    assert_eq!(scopes_from_jwt(&token), vec!["a", "b", "c"]);
}

#[test]
fn scopes_from_jwt_parses_scp_and_array_claims() {
    // Azure-style `scp` array.
    let scp = make_jwt(r#"{"scp": ["a", "b"]}"#);
    assert_eq!(scopes_from_jwt(&scp), vec!["a", "b"]);
    // `scope` encoded as an array.
    let array = make_jwt(r#"{"scope": ["a", "b c"]}"#);
    assert_eq!(scopes_from_jwt(&array), vec!["a", "b", "c"]);
    // Empty `scope` falls through to `scp`.
    let mixed = make_jwt(r#"{"scope": "", "scp": ["x"]}"#);
    assert_eq!(scopes_from_jwt(&mixed), vec!["x"]);
}

#[test]
fn granted_scopes_uses_recorded_scopes_for_opaque_token() {
    let token = token_with_scopes("opaque-token", &["a", "b"]);
    assert_eq!(granted_scopes(&token), vec!["a", "b"]);
}

#[test]
fn ensure_granted_rejects_a_token_missing_required_scopes() {
    let required = list(&["a", "b"]);
    // JWT that exposes only `a` → `b` is detectably not granted.
    let jwt = valid_token(&make_jwt(r#"{"scope": "a"}"#));
    let err = ensure_granted("dev", &jwt, &required).expect_err("b is not granted").to_text();
    assert!(err.contains("did not grant required scope(s)"), "{err}");
    assert!(err.contains('b'), "{err}");
    assert_eq!(err, "authorization server did not grant required scope(s) for \"dev\": b");

    // A token granting both passes.
    let ok = valid_token(&make_jwt(r#"{"scope": "a b"}"#));
    assert!(ensure_granted("dev", &ok, &required).is_ok(), "both granted");
    // Recorded scopes (opaque token) also satisfy the check.
    let opaque = token_with_scopes("opaque", &["a", "b"]);
    assert!(ensure_granted("dev", &opaque, &required).is_ok(), "recorded scopes granted");
}

#[test]
fn plan_step_up_covers_reauths_and_fails_non_interactive() {
    let defaults = list(&["base"]);
    let granted = list(&["base", "read"]);
    let read = list(&["read"]);
    let write = list(&["write"]);

    // Already covered.
    assert_eq!(plan_step_up(&defaults, &granted, &read, true), StepUp::Covered);
    // Missing + interactive → reauth requesting the union.
    assert_eq!(
        plan_step_up(&defaults, &granted, &write, true),
        StepUp::Reauthenticate(vec!["base".to_owned(), "read".to_owned(), "write".to_owned()])
    );
    // Missing + non-interactive → fail fast, carrying the missing scopes.
    assert_eq!(
        plan_step_up(&defaults, &granted, &write, false),
        StepUp::MissingNonInteractive(vec!["write".to_owned()])
    );
}

#[test]
fn union_scopes_dedupes_and_preserves_order() {
    let defaults = list(&["a", "b"]);
    let granted = list(&["b", "c"]);
    let required = list(&["c", "d"]);
    assert_eq!(union_scopes(&defaults, &granted, &required), vec!["a", "b", "c", "d"]);
}

#[test]
fn scopes_from_jwt_empty_for_opaque_or_missing() {
    assert!(scopes_from_jwt("opaque-token").is_empty());
    let no_scope = make_jwt(r#"{"sub": "user"}"#);
    assert!(scopes_from_jwt(&no_scope).is_empty());
}

#[test]
fn get_credential_for_uses_recorded_scopes_for_opaque_token() {
    let mut provider = test_provider();
    provider.store_cached_token("dev", token_with_scopes("opaque-token", &["read", "write"]));
    let token = provider.cached_token("dev", NOW);
    let plan =
        plan_credential("dev", &token, &list(&["openid"]), &list(&["read"]), false);
    assert!(matches!(plan, CredentialPlan::UseToken));
    let token = token.expect("cached");
    assert_eq!(provider.build_credential("dev", &token).token, "opaque-token");
}

#[test]
fn get_credential_for_uses_cached_token_when_scopes_covered() {
    let mut provider = test_provider();
    let jwt = make_jwt(
        r#"{"scope": "apps.app-registry:read apps.app-registry:write", "sub": "user-1"}"#,
    );
    provider.store_cached_token("dev", valid_token(&jwt));
    let token = provider.cached_token("dev", NOW);
    let required = list(&["apps.app-registry:read"]);
    let plan = plan_credential("dev", &token, &list(&["openid"]), &required, false);
    assert!(matches!(plan, CredentialPlan::UseToken));
    let token = token.expect("cached");
    assert_eq!(provider.build_credential("dev", &token).sub, "user-1");
}

#[test]
fn get_credential_for_no_scopes_returns_cached() {
    let mut provider = test_provider();
    provider.store_cached_token("dev", valid_token("opaque"));
    let token = provider.cached_token("dev", NOW);
    let plan = plan_credential("dev", &token, &list(&["openid"]), &Vec::new(), false);
    assert!(matches!(plan, CredentialPlan::UseToken));
    assert_eq!(token.expect("cached").access_token, "opaque");
}

#[test]
fn a_login_asks_once_for_all_scopes() {
    let defaults = list(&["openid"]);
    let required = list(&["write"]);
    let fresh = plan_credential("dev", &None, &defaults, &required, false);
    assert!(matches!(fresh, CredentialPlan::Authenticate(s) if s == vec!["openid", "write"]));
    let held = Some(token_with_scopes("opaque", &["read"]));
    let step_up = plan_credential("dev", &held, &defaults, &required, true);
    assert!(matches!(
        step_up,
        CredentialPlan::Authenticate(s) if s == vec!["openid", "read", "write"]
    ));
    let CredentialPlan::Fail(err) = plan_credential("dev", &held, &defaults, &required, false)
    else {
        panic!("a session without a terminal cannot step up");
    };
    assert_eq!(
        err.to_text(),
        "access token for \"dev\" is missing required scope(s): write; run `auth login --env dev \
         --scope write` in an interactive terminal"
    );
    assert!(missing_scope_error("dev", &list(&["a", "b"])).to_text().contains("--scope a --scope b"));
}

#[test]
fn redirect_uri_default_uses_127_0_0_1_and_redirect_port() {
    let provider = test_provider().with_redirect_port(9000);
    assert_eq!(provider.effective_redirect_uri(), "http://127.0.0.1:9000/callback");
}

#[test]
fn with_redirect_uri_overrides_default() {
    let provider = test_provider().with_redirect_uri(s("http://localhost:8080/auth/callback"));
    assert_eq!(provider.effective_redirect_uri(), "http://localhost:8080/auth/callback");
}

#[test]
fn parse_redirect_uri_extracts_port_and_path_from_default() {
    let provider = test_provider().with_redirect_port(9000);
    let Ok((port, path)) = provider.parse_redirect_uri() else {
        panic!("valid URI");
    };
    assert_eq!(port, 9000);
    assert_eq!(path, "/callback");
}

#[test]
fn parse_redirect_uri_extracts_port_and_path_from_custom_uri() {
    let provider = test_provider().with_redirect_uri(s("http://localhost:8080/auth/callback"));
    let Ok((port, path)) = provider.parse_redirect_uri() else {
        panic!("valid URI");
    };
    assert_eq!(port, 8080);
    assert_eq!(path, "/auth/callback");
}

#[test]
fn with_redirect_uri_does_not_affect_listener_host() {
    let provider = test_provider().with_redirect_uri(s("http://localhost:7777/callback"));
    let Ok((port, _)) = provider.parse_redirect_uri() else {
        panic!("valid URI");
    };
    assert_eq!(port, 7777);
}

#[test]
fn redirect_uris_that_cannot_be_bound_are_refused() {
    let bad = test_provider().with_redirect_uri(s("no url"));
    let err = bad.parse_redirect_uri().expect_err("no URL").to_text();
    assert!(err.starts_with("invalid redirect URI 'no url': "), "{err}");
    let portless = test_provider().with_redirect_uri(s("foo://localhost/callback"));
    let err = portless.parse_redirect_uri().expect_err("no port").to_text();
    assert_eq!(err, "redirect URI 'foo://localhost/callback' has no port");
    let known = test_provider().with_redirect_uri(s("https://localhost/callback"));
    assert!(matches!(known.parse_redirect_uri(), Ok((443, path)) if path == "/callback"));
}

#[test]
fn extract_request_path_strips_query_string() {
    assert_eq!(
        extract_request_path("GET /auth/callback?code=abc&state=xyz HTTP/1.1\r\n"),
        Some("/auth/callback".to_owned()),
    );
}

#[test]
fn extract_request_path_handles_no_query_string() {
    assert_eq!(
        extract_request_path("GET /callback HTTP/1.1\r\n"),
        Some("/callback".to_owned()),
    );
    assert_eq!(extract_request_path(""), None);
}

#[test]
fn extract_query_param_skips_malformed_pairs() {
    let request = "GET /callback?foo&code=abc123&state=xyz HTTP/1.1\r\nHost: localhost\r\n";
    assert_eq!(extract_query_param(request, "code"), Some("abc123".to_owned()));
    assert_eq!(extract_query_param(request, "state"), Some("xyz".to_owned()));
}

#[test]
fn extract_query_param_decodes_percent_encoding() {
    let request = "GET /callback?code=a%20b%2Bc&state=ok HTTP/1.1\r\n";
    assert_eq!(extract_query_param(request, "code"), Some("a b+c".to_owned()));
}

#[test]
fn only_the_right_state_ends_the_wait() {
    let right = "GET /callback?code=c1&state=st HTTP/1.1\r\n";
    let CallbackStep::Finished { response, code: Ok(code) } =
        answer_callback(right, "st", "/callback")
    else {
        panic!("the callback is complete");
    };
    assert_eq!(code, "c1");
    assert!(response.starts_with("HTTP/1.1 200 OK\r\n"));

    let wrong = answer_callback(right, "other", "/callback");
    assert!(
        matches!(wrong, CallbackStep::Again { response } if response.starts_with("HTTP/1.1 400 "))
    );
    let stray = answer_callback("GET /favicon.ico HTTP/1.1\r\n", "st", "/callback");
    assert!(
        matches!(stray, CallbackStep::Again { response } if response.starts_with("HTTP/1.1 404 "))
    );
    let no_code = answer_callback("GET /callback?state=st HTTP/1.1\r\n", "st", "/callback");
    let CallbackStep::Finished { code: Err(err), .. } = no_code else {
        panic!("the state is right");
    };
    assert_eq!(err.to_text(), "no authorization code in callback");
}

#[test]
fn resolve_token_returns_cached_token_without_pkce_flow() {
    let mut provider = test_provider();
    provider.store_cached_token("dev", valid_token("cached-token"));
    let resolved = provider.cached_token("dev", NOW).expect("resolve from cache");
    assert_eq!(resolved.access_token, "cached-token");
}

#[test]
fn list_environments_returns_only_cached_keys() {
    let mut provider = test_provider();
    provider.store_cached_token("dev", valid_token("t1"));
    provider.store_cached_token("prod", valid_token("t2"));
    assert_eq!(provider.list_environments(), ["dev", "prod"]);
}

#[test]
fn list_environments_returns_empty_without_cache() {
    let envs = test_provider().list_environments();
    assert!(envs.is_empty(), "expected empty list for a fresh provider");
}

#[test]
fn a_logout_forgets_one_environment() {
    let mut provider = test_provider();
    provider.store_cached_token("dev", valid_token("t1"));
    provider.store_cached_token("prod", valid_token("t2"));
    provider.forget("dev");
    assert!(provider.cached_token("dev", NOW).is_none());
    assert!(provider.cached_token("prod", NOW).is_some());
    assert_eq!(not_logged_in("dev").to_text(), "not logged in for environment \"dev\"");
}

#[test]
fn decode_jwt_claims_extracts_payload() {
    let token = make_jwt(r#"{"email": "user@example.com", "sub": "abc123"}"#);
    let claims = decode_jwt_claims(&token).expect("claims decode");
    assert_eq!(claims.get("email").and_then(Json::as_str), Some("user@example.com"));
    assert_eq!(claims.get("sub").and_then(Json::as_str), Some("abc123"));
}

#[test]
fn decode_jwt_claims_returns_none_for_non_jwt() {
    assert!(decode_jwt_claims("opaque-access-token").is_none());
    assert!(decode_jwt_claims("only.two").is_none());
    // Valid structure but the payload is not valid base64/JSON.
    assert!(decode_jwt_claims("aaa.!!!.bbb").is_none());
    // JSON, but no object.
    let number = URL_SAFE_NO_PAD.encode(b"5");
    assert!(decode_jwt_claims(&format!("aaa.{number}.bbb")).is_none());
}

#[test]
fn extract_identity_honors_priority_and_skips_empty() {
    let priority = default_identity_claims();
    // `email` is empty, so the next non-empty claim (`preferred_username`) wins.
    let claims =
        claims_map(r#"{"email": "", "preferred_username": "jdoe", "name": "Jane Doe"}"#);
    assert_eq!(extract_identity(&claims, &priority), "jdoe");

    // No matching claim yields an empty identity.
    let empty = claims_map(r#"{"unrelated": "x"}"#);
    assert_eq!(extract_identity(&empty, &priority), "");
}

#[test]
fn build_credential_populates_identity_and_sub() {
    let provider = test_provider();
    let token =
        valid_token(&make_jwt(r#"{"email": "user@example.com", "sub": "subject-1"}"#));
    let credential = provider.build_credential("prod", &token);
    assert_eq!(credential.identity, "user@example.com");
    assert_eq!(credential.sub, "subject-1");
    assert_eq!(credential.env, "prod");
    assert_eq!(credential.provider, "test");
    assert_eq!(credential.expires_at, "2023-11-14T23:13:20Z");
}

#[test]
fn build_credential_leaves_identity_blank_for_opaque_token() {
    let provider = test_provider();
    let credential = provider.build_credential("prod", &valid_token("opaque-token"));
    assert_eq!(credential.identity, "");
    assert_eq!(credential.sub, "");
}

#[test]
fn with_identity_claims_overrides_selection() {
    let provider = test_provider().with_identity_claims(list(&["custom_user"]));
    let token = valid_token(&make_jwt(
        r#"{"email": "ignored@example.com", "custom_user": "picked"}"#,
    ));
    let credential = provider.build_credential("prod", &token);
    assert_eq!(credential.identity, "picked");
}

#[test]
fn with_file_fallback_maps_to_store_modes() {
    assert_eq!(
        test_provider().with_file_fallback(true).store_mode,
        Some(CredentialStore::Auto)
    );
    assert_eq!(
        test_provider().with_file_fallback(false).store_mode,
        Some(CredentialStore::Keyring)
    );
}

#[test]
fn builders_record_storage_selection() {
    let provider = test_provider().with_credential_store(CredentialStore::File);
    assert_eq!(provider.store_mode, Some(CredentialStore::File));
    assert!(provider.storage_choice(false) == StorageChoice::BuiltIn(StorageBackend::FileStorage));
    assert!(provider.storage_choice(true) == StorageChoice::Injected);
    assert!(test_provider().storage_choice(false) == StorageChoice::Configured);
}

#[test]
fn a_provider_has_its_own_variables_and_key() {
    let provider = PkceAuthProvider::new(
        s("my-idp"),
        s("https://a"),
        s("https://t"),
        s("c"),
        list(&["openid"]),
    )
    .with_app_id(s("app"))
    .with_extra_scopes(&list(&["profile"]));
    assert_eq!(provider.env_prefix, "MY_IDP");
    assert_eq!(provider.scopes, vec!["openid", "profile"]);
    let key = provider.credential_key("dev");
    assert_eq!((key.app_id.as_str(), key.provider.as_str(), key.env.as_str()), ("app", "my-idp", "dev"));
}

#[test]
fn a_stored_token_is_used_refreshed_or_dropped() {
    assert!(matches!(after_load(None, NOW), TokenStep::Absent));
    assert!(matches!(
        after_load(Some(valid_token("t")), NOW),
        TokenStep::UseToken(t) if t.access_token == "t"
    ));
    assert!(matches!(after_load(Some(expired_token()), NOW), TokenStep::Absent));
    let mut old = expired_token();
    old.refresh_token = Some(s("rt"));
    old.scopes = list(&["read"]);
    let TokenStep::Refresh { refresh_token, scopes } = after_load(Some(old), NOW) else {
        panic!("the token can be refreshed");
    };
    assert_eq!(refresh_token, "rt");
    assert_eq!(scopes, vec!["read"]);
    // The refresh token stays where the server sent none.
    assert_eq!(after_refresh(valid_token("n"), "rt").refresh_token.as_deref(), Some("rt"));
    let mut renewed = valid_token("n");
    renewed.refresh_token = Some(s("rt2"));
    assert_eq!(after_refresh(renewed, "rt").refresh_token.as_deref(), Some("rt2"));
}

#[test]
fn a_token_response_becomes_a_stored_token() {
    let body = TokenResponse {
        access_token: s("at"),
        expires_in: Some(60),
        refresh_token: Some(s("rt")),
        scope: Some(s("a  b")),
    };
    let token = token_from_response(body, &list(&["x"]), NOW);
    assert_eq!(token.expires_at, NOW + 60);
    assert_eq!(token.scopes, vec!["a", "b"]);
    let silent = TokenResponse {
        access_token: s("at"),
        expires_in: None,
        refresh_token: None,
        scope: Some(s(" ")),
    };
    let token = token_from_response(silent, &list(&["x"]), NOW);
    assert_eq!(token.expires_at, NOW + 3600);
    assert_eq!(token.scopes, vec!["x"]);
}

#[test]
fn requests_carry_their_parameters() {
    let provider = test_provider();
    let oauth = OAuthConfig {
        client_id: s("c id"),
        auth_url: s("https://example.com/auth?x=1"),
        token_url: s("https://example.com/token"),
        scopes: list(&["openid"]),
    };
    let Ok(url) = provider.authorize_url(&oauth, &list(&["a", "b"]), "st", "ch") else {
        panic!("the URL is valid");
    };
    assert_eq!(
        url,
        "https://example.com/auth?x=1&response_type=code&client_id=c+id&redirect_uri=\
         http%3A%2F%2F127.0.0.1%3A7443%2Fcallback&scope=a+b&state=st&code_challenge=ch\
         &code_challenge_method=S256"
    );
    let bad = OAuthConfig { auth_url: s("nope"), ..oauth };
    let err = provider.authorize_url(&bad, &Vec::new(), "st", "ch").expect_err("no URL");
    assert!(err.to_text().starts_with("invalid auth URL: "));
    let exchange = provider.exchange_params(&bad, "code", "verifier");
    assert_eq!(exchange[0], (s("grant_type"), s("authorization_code")));
    assert_eq!(exchange[2].1, "http://127.0.0.1:7443/callback");
    assert_eq!(exchange[4], (s("code_verifier"), s("verifier")));
    let refresh = refresh_params("c", "rt");
    assert_eq!(refresh[0], (s("grant_type"), s("refresh_token")));
    assert_eq!(refresh[2], (s("refresh_token"), s("rt")));
    assert_eq!(
        endpoint_error("token", "400 Bad Request", "no").to_text(),
        "token endpoint returned 400 Bad Request: no"
    );
}

#[test]
fn a_challenge_is_the_hash_of_its_verifier() {
    // The example of RFC 7636, appendix B.
    let bytes: Vec<u8> = vec![
        116, 24, 223, 180, 151, 153, 224, 37, 79, 250, 96, 125, 216, 173, 187, 186, 22, 212, 37,
        77, 105, 214, 191, 240, 91, 88, 5, 88, 83, 132, 141, 121,
    ];
    let pair = challenge_of(&bytes);
    assert_eq!(pair.verifier, "dBjftJeZ4CVP-mB92K27uhbUJU1p1r_wW1gFWFOEjXk");
    assert_eq!(pair.challenge, "E9Melhoa2OwvFrEMTJguCHaoeK1t8URWbuGJSstw-cM");
    let fresh = pkce_challenge();
    assert_eq!(fresh.verifier.len(), 43);
    assert_ne!(fresh.verifier, pkce_challenge().verifier);
    assert_eq!(random_state().len(), 22);
}

#[test]
fn default_token_timeout_is_thirty_seconds() {
    assert_eq!(test_provider().token_timeout, std::time::Duration::from_secs(30));
}

#[test]
fn with_token_timeout_overrides_default() {
    let provider = test_provider().with_token_timeout(std::time::Duration::from_secs(5));
    assert_eq!(provider.token_timeout, std::time::Duration::from_secs(5));
}

#[test]
fn the_bytes_of_a_request_are_answered() {
    let request = b"GET /callback?code=a%20b&state=xyz HTTP/1.1\r\nX: \xff\r\n".to_vec();
    let CallbackStep::Finished { code: Ok(code), .. } = answer_request(&request, "xyz", "/callback")
    else {
        panic!("the state is right");
    };
    assert_eq!(code, "a b");
    assert!(matches!(
        answer_request(&request, "xyz", "/other"),
        CallbackStep::Again { response } if response.starts_with("HTTP/1.1 404")
    ));
    assert!(matches!(
        answer_request(&request, "abc", "/callback"),
        CallbackStep::Again { .. }
    ));
}
