//! Layered environments.
use cli_engine::cli::config::CliConfig;
use cli_engine::config::ConfigFile;
use cli_engine::env_config::{resolve_field, EnvConfig, EnvConfigError, SourceChain};
use cli_engine::environments::{EnvTable, Environments, FileRead, ACTIVE_ENV_KEY};
use cli_engine::ordmap::StringMap;
use cli_engine::toml_value::{parse_toml, Toml};

fn s(text: &str) -> String {
    text.to_owned()
}

fn text_from_toml(v: &Toml) -> Result<String, String> {
    v.as_str().map(str::to_owned).ok_or_else(|| s("expected a string"))
}

fn list_from_toml(v: &Toml) -> Result<Vec<String>, String> {
    v.as_texts().ok_or_else(|| s("expected a list"))
}

fn text_from_env(raw: &str) -> Result<String, String> {
    Ok(raw.to_owned())
}

fn text_field(chain: &SourceChain, key: &str, suffix: Option<&str>) -> Result<Option<String>, EnvConfigError> {
    resolve_field(chain, key, key, suffix, false, text_from_toml, text_from_env)
}

#[derive(Debug)]
struct OAuthLike {
    client_id: String,
    auth_url: String,
    token_url: String,
    scopes: Vec<String>,
}

impl EnvConfig for OAuthLike {
    fn assemble(chain: &SourceChain) -> Result<Self, EnvConfigError> {
        let client_id = text_field(chain, "client_id", None)?
            .ok_or(EnvConfigError::MissingField { field: s("client_id") })?;
        let auth_url = text_field(chain, "auth_url", None)?.unwrap_or_default();
        let token_url = text_field(chain, "token_url", None)?.unwrap_or_default();
        let scopes = resolve_field(chain, "scopes", "scopes", None, false, list_from_toml, |_| {
            Err(String::new())
        })?
        .unwrap_or_default();
        Ok(OAuthLike { client_id, auth_url, token_url, scopes })
    }
}

struct ApiLike {
    api_url: String,
}

impl EnvConfig for ApiLike {
    fn assemble(chain: &SourceChain) -> Result<Self, EnvConfigError> {
        let api_url = text_field(chain, "api_url", Some("API_URL"))?
            .ok_or(EnvConfigError::MissingField { field: s("api_url") })?;
        Ok(ApiLike { api_url })
    }
}

impl From<OAuthLike> for EnvEntry {
    fn from(o: OAuthLike) -> EnvEntry {
        EnvEntry(
            EnvTable::new()
                .with(s("client_id"), Toml::from_text(&o.client_id))
                .with(s("auth_url"), Toml::from_text(&o.auth_url))
                .with(s("token_url"), Toml::from_text(&o.token_url))
                .with(s("scopes"), Toml::from_list(&o.scopes)),
        )
    }
}

struct EnvEntry(EnvTable);

fn table(entries: &[(&str, &str)]) -> EnvTable {
    let mut t = EnvTable::new();
    for (k, v) in entries {
        t = t.with(s(k), Toml::from_text(v));
    }
    t
}

fn sample() -> Environments {
    Environments::new(s("prod"))
        .with_environment(
            s("prod"),
            table(&[
                ("client_id", "prod-client"),
                ("auth_url", "https://api.example.com/authorize"),
                ("token_url", "https://api.example.com/token"),
                ("api_url", "https://api.example.com"),
            ])
            .with(s("scopes"), Toml::from_list(&vec![s("openid")])),
        )
        .with_environment(s("dev"), table(&[("client_id", "dev-client")]))
}

fn resolved<T: EnvConfig>(
    envs: &Environments,
    name: &str,
    read: &FileRead,
    fallback: Option<EnvTable>,
    vars: StringMap<String>,
) -> T {
    match envs.resolve(name, None, read, &fallback, vars) {
        Ok(v) => v,
        Err(e) => panic!("{name}: {}", e.to_text()),
    }
}

fn plain<T: EnvConfig>(envs: &Environments, name: &str) -> T {
    resolved(envs, name, &FileRead::Missing, None, StringMap::new())
}

fn with_file<T: EnvConfig>(envs: &Environments, name: &str, contents: &str) -> T {
    resolved(envs, name, &FileRead::Contents(s(contents)), None, StringMap::new())
}

fn unknown(envs: &Environments, name: &str) -> String {
    match envs.source(name, None, &FileRead::Missing, &None) {
        Ok(_) => panic!("{name} should not resolve"),
        Err(e) => e.to_text(),
    }
}

#[test]
fn resolve_unknown_env_with_no_defs_uses_placeholder() {
    let message = unknown(&Environments::new(s("prod")), "prod");
    assert!(message.contains("(none defined)"), "expected placeholder, got: {message}");
}

#[test]
fn persist_active_without_app_id_errors_clearly() {
    let outcome =
        sample().persist_active("prod", Some("/base"), &FileRead::Missing, &None, ConfigFile::empty());
    let Err(err) = outcome else {
        panic!("persist without app_id should fail");
    };
    let message = err.to_text();
    assert!(message.contains("app_id"), "error should mention app_id, got: {message}");
}

#[test]
fn a_persisted_environment_is_active() {
    let envs = sample().with_app_id(s("gddy"));
    let Ok(config) =
        envs.persist_active("dev", Some("/base"), &FileRead::Missing, &None, ConfigFile::empty())
    else {
        panic!("dev is known");
    };
    assert_eq!(envs.effective_active(None, &config), "dev");
    let unknown =
        envs.persist_active("nope", Some("/base"), &FileRead::Missing, &None, ConfigFile::empty());
    assert!(matches!(unknown, Err(e) if e.to_text().contains("unknown environment \"nope\"")));
}

#[test]
fn builder_registers_compiled_environment() {
    let envs = Environments::new(s("prod"))
        .with_environment(s("prod"), table(&[("client_id", "prod-client")]));
    assert_eq!(envs.default_env(), "prod");
    assert_eq!(envs.list(None, &FileRead::Missing), vec!["prod".to_owned()]);
}

#[test]
fn with_environment_accepts_a_typed_struct_value() {
    let value = OAuthLike {
        client_id: s("prod-client"),
        auth_url: s("https://api.example.com/authorize"),
        token_url: s("https://api.example.com/token"),
        scopes: vec![s("openid")],
    };
    let envs = Environments::new(s("prod")).with_environment(s("prod"), EnvEntry::from(value).0);
    let oauth: OAuthLike = plain(&envs, "prod");
    assert_eq!(oauth.client_id, "prod-client");
    assert_eq!(oauth.auth_url, "https://api.example.com/authorize");
}

#[test]
fn with_environment_merges_across_repeated_calls_for_the_same_name() {
    let envs = Environments::new(s("prod"))
        .with_environment(s("prod"), table(&[("client_id", "prod-client")]))
        .with_environment(s("prod"), table(&[("api_url", "https://api.example.com")]));
    let oauth: OAuthLike = plain(&envs, "prod");
    assert_eq!(oauth.client_id, "prod-client", "first call's key survives");
    let api: ApiLike = plain(&envs, "prod");
    assert_eq!(api.api_url, "https://api.example.com", "second call's key is also present");
}

#[test]
fn resolve_returns_compiled_record() {
    let oauth: OAuthLike = plain(&sample(), "prod");
    assert_eq!(oauth.client_id, "prod-client");
    assert_eq!(oauth.auth_url, "https://api.example.com/authorize");
    assert_eq!(oauth.token_url, "https://api.example.com/token");
    assert_eq!(oauth.scopes, vec!["openid".to_owned()]);
}

#[test]
fn resolve_unknown_env_errors_with_known_names() {
    let err = unknown(&sample(), "nope");
    assert!(err.contains("nope"));
    assert!(err.contains("prod") && err.contains("dev"));
    assert_eq!(err, "unknown environment \"nope\"; known: dev, prod");
}

#[test]
fn app_scoped_env_var_overrides_toml_value() {
    let envs = sample().with_app_id(s("myapp"));
    let mut vars = StringMap::new();
    vars.insert(s("MYAPP_API_URL"), s("https://override.example.com"));
    let api: ApiLike = resolved(&envs, "prod", &FileRead::Missing, None, vars);
    assert_eq!(api.api_url, "https://override.example.com");
}

#[test]
fn environments_file_path_sits_next_to_config() {
    let envs = sample().with_app_id(s("gddy")).with_config_file(true);
    let path = envs.config_file_path(Some("/base")).expect("path resolves with app id");
    assert!(path.ends_with("gddy/environments.toml"), "got {path:?}");
    assert_eq!(sample().with_app_id(s("gddy")).config_file_path(Some("/base")), None);
}

#[test]
fn file_layer_overrides_compiled_and_adds_custom_env() {
    let contents = r#"
[prod]
client_id = "file-client"

[custom]
client_id = "custom-client"
api_url = "https://api.custom.example.com"
"#;
    let envs = sample()
        .with_config_file(true)
        .with_config_file_path_override(s("/tmp/environments.toml"));

    let prod: OAuthLike = with_file(&envs, "prod", contents);
    assert_eq!(prod.client_id, "file-client");
    let prod_api: ApiLike = with_file(&envs, "prod", contents);
    assert_eq!(prod_api.api_url, "https://api.example.com");

    let custom: OAuthLike = with_file(&envs, "custom", contents);
    assert_eq!(custom.client_id, "custom-client");
    let names = envs.list(None, &FileRead::Contents(s(contents)));
    assert!(names.contains(&"custom".to_owned()));
}

#[test]
fn nested_environments_table_shape_parses_like_flat_shape() {
    let contents = r#"
[environments.dev]
api_url = "https://api.dev-godaddy.com"
client_id = "94488449-5769-4ecf-8bf4-9f8aa83859a3"

[environments.test]
api_url = "https://api.test-godaddy.com"
client_id = "e710d8b9-f4e5-4178-b1bf-98dfcd15d4ed"
"#;
    let envs = Environments::new(s("prod"))
        .with_config_file(true)
        .with_config_file_path_override(s("/tmp/environments.toml"));

    let dev: OAuthLike = with_file(&envs, "dev", contents);
    assert_eq!(dev.client_id, "94488449-5769-4ecf-8bf4-9f8aa83859a3");

    let test: OAuthLike = with_file(&envs, "test", contents);
    assert_eq!(test.client_id, "e710d8b9-f4e5-4178-b1bf-98dfcd15d4ed");
    let names = envs.list(None, &FileRead::Contents(s(contents)));
    assert!(names.contains(&"dev".to_owned()));
    assert!(names.contains(&"test".to_owned()));
}

#[test]
fn nested_environments_table_wins_over_flat_entry_for_same_name() {
    let contents = r#"
[prod]
client_id = "flat-client"
api_url = "https://api.flat.example.com"

[environments.prod]
client_id = "nested-client"
"#;
    let envs = Environments::new(s("prod"))
        .with_config_file(true)
        .with_config_file_path_override(s("/tmp/environments.toml"));

    let prod: OAuthLike = with_file(&envs, "prod", contents);
    assert_eq!(prod.client_id, "nested-client");
    let prod_api: ApiLike = with_file(&envs, "prod", contents);
    assert_eq!(prod_api.api_url, "https://api.flat.example.com");
}

#[test]
fn a_file_that_cannot_be_used_is_an_error() {
    let envs = sample().with_config_file_path_override(s("/tmp/e.toml"));
    let failed = FileRead::Failed(s("permission denied"));
    let Err(err) = envs.source("prod", None, &failed, &None) else {
        panic!("the file cannot be read");
    };
    assert_eq!(err.to_text(), "reading environments file \"/tmp/e.toml\": permission denied");
    let malformed = FileRead::Contents(s("not = valid = toml"));
    let Err(err) = envs.source("prod", None, &malformed, &None) else {
        panic!("the file cannot be parsed");
    };
    assert!(err.to_text().starts_with("parsing environments file \"/tmp/e.toml\": "));
    // A list swallows both.
    assert_eq!(envs.list(None, &malformed), vec!["dev", "prod"]);
}

#[test]
fn active_env_round_trips_through_config_file() {
    let mut cfg = ConfigFile::empty();
    assert_eq!(Environments::active_from_config(&cfg), None);
    assert!(cfg.set(ACTIVE_ENV_KEY, "ote").is_ok());
    assert_eq!(Environments::active_from_config(&cfg).as_deref(), Some("ote"));
}

#[test]
fn effective_active_prefers_override_then_config_then_default() {
    let envs = sample();
    let mut cfg = ConfigFile::empty();
    assert!(cfg.set("environment.active", "dev").is_ok());

    assert_eq!(envs.effective_active(Some("prod"), &cfg), "prod"); // explicit wins
    assert_eq!(envs.effective_active(None, &cfg), "dev"); // config next
    let empty = ConfigFile::empty();
    assert_eq!(envs.effective_active(None, &empty), "prod"); // default last
}

#[test]
fn fallback_resolves_a_name_unknown_to_compiled_and_file_layers() {
    let envs = sample();
    assert!(envs.wants_fallback("throwaway", None, &FileRead::Missing));
    let fallback = Some(table(&[("client_id", "throwaway-fallback-client")]));
    let env: OAuthLike =
        resolved(&envs, "throwaway", &FileRead::Missing, fallback, StringMap::new());
    assert_eq!(env.client_id, "throwaway-fallback-client");
}

#[test]
fn fallback_returning_none_preserves_unknown_env_error() {
    let err = unknown(&sample(), "nope");
    assert!(err.contains("nope"));
    assert!(err.contains("prod") && err.contains("dev"));
}

#[test]
fn fallback_is_not_consulted_for_a_known_name() {
    let envs = sample();
    assert!(!envs.wants_fallback("prod", None, &FileRead::Missing));
    let fallback = Some(table(&[("client_id", "should-not-win")]));
    let env: OAuthLike = resolved(&envs, "prod", &FileRead::Missing, fallback, StringMap::new());
    assert_eq!(env.client_id, "prod-client");
}

#[test]
fn fallback_plus_env_var_layer_defines_a_brand_new_environment() {
    let fallback = Some(table(&[("api_url", "https://api.throwaway.example.com")]));
    let env: ApiLike =
        resolved(&sample(), "throwaway", &FileRead::Missing, fallback, StringMap::new());
    assert_eq!(env.api_url, "https://api.throwaway.example.com");
}

#[test]
fn with_environments_stores_shared_arc_with_consumer_app_id() {
    let cfg = CliConfig::new("gddy", "GoDaddy CLI", "gddy").with_environments(
        Environments::new(s("prod")).with_app_id(s("gddy")).with_config_file(true),
    );
    let envs = cfg.environments.as_ref().expect("environments set");
    assert!(envs.config_file_path(Some("/base")).is_some());
}

#[test]
fn env_flag_overrides_default_and_reaches_middleware_env() {
    let envs = Environments::new(s("prod"))
        .with_environment(s("prod"), EnvTable::new())
        .with_environment(s("ote"), EnvTable::new());
    let selected = envs.selected(Some("ote"), "prod", None, &FileRead::Missing, &None);
    assert!(matches!(selected, Ok(name) if name == "ote"));
    let kept = envs.selected(None, "prod", None, &FileRead::Missing, &None);
    assert!(matches!(kept, Ok(name) if name == "prod"));
}

#[test]
fn unknown_env_flag_produces_error_envelope() {
    let envs = Environments::new(s("prod")).with_environment(s("prod"), EnvTable::new());
    let selected = envs.selected(Some("nope"), "prod", None, &FileRead::Missing, &None);
    assert!(matches!(selected, Err(e) if e.to_text().contains("nope")));
}

#[test]
fn middleware_carries_optional_environments() {
    let envs = Some(Environments::new(s("prod")));
    assert_eq!(envs.as_ref().map(|e| e.default_env().to_owned()), Some("prod".to_owned()));
}

#[test]
fn toml_values_keep_their_types() {
    let Ok(t) = parse_toml("a = 1\nb = true\nc = 1.5\nd = [\"x\"]\ne = 1979-05-27\n[f]\ng = \"h\"\n")
    else {
        panic!("valid TOML");
    };
    assert!(matches!(t.get("a"), Some(Toml::Integer(1))));
    assert!(matches!(t.get("b"), Some(Toml::Boolean(true))));
    assert!(matches!(t.get("c"), Some(Toml::Literal(v)) if v == "1.5"));
    assert_eq!(t.get("d").and_then(Toml::as_texts), Some(vec![s("x")]));
    assert!(matches!(t.get("e"), Some(Toml::Literal(v)) if v == "1979-05-27"));
    let f = t.get("f").and_then(Toml::as_table).expect("a table");
    assert_eq!(f.get("g").and_then(Toml::as_str), Some("h"));
    assert!(parse_toml("a = ").is_err());
}
