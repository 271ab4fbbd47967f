//! Fields from chains of sources.
use cli_engine::env_config::{
    resolve_field, ConfigSource, EnvConfig, EnvConfigError, EnvSource, EnvVarSource, SourceChain,
    ValueSource,
};
use cli_engine::error::CliCoreError;
use cli_engine::ordmap::StringMap;
use cli_engine::toml_value::Toml;

fn s(text: &str) -> String {
    text.to_owned()
}

fn table(entries: Vec<(&str, Toml)>) -> StringMap<Toml> {
    let mut t = StringMap::new();
    for (k, v) in entries {
        t.insert(s(k), v);
    }
    t
}

fn env(name: &str, entries: Vec<(&str, Toml)>) -> ConfigSource {
    ConfigSource::Env(EnvSource::new(s(name), table(entries)))
}

fn text_from_toml(v: &Toml) -> Result<String, String> {
    v.as_str().map(str::to_owned).ok_or_else(|| s("expected a string"))
}

fn text_from_env(raw: &str) -> Result<String, String> {
    Ok(raw.to_owned())
}

fn number_from_toml(v: &Toml) -> Result<u32, String> {
    match v {
        Toml::Integer(n) => u32::try_from(*n).map_err(|e| e.to_string()),
        _ => Err(s("expected a number")),
    }
}

fn number_from_env(raw: &str) -> Result<u32, String> {
    raw.parse().map_err(|_| s("not a number"))
}

fn list_from_toml(v: &Toml) -> Result<Vec<String>, String> {
    v.as_texts().ok_or_else(|| s("expected a list"))
}

fn list_from_env(_raw: &str) -> Result<Vec<String>, String> {
    Err(String::new())
}

struct Section {
    client_id: String,
    port: u32,
}

impl EnvConfig for Section {
    fn assemble(sources: &SourceChain) -> Result<Self, EnvConfigError> {
        let client_id = match resolve_field(
            sources,
            "client_id",
            "client_id",
            None,
            false,
            text_from_toml,
            text_from_env,
        )? {
            Some(v) => v,
            None => return Err(EnvConfigError::MissingField { field: s("client_id") }),
        };
        let port = resolve_field(
            sources,
            "port",
            "port",
            Some("PORT"),
            false,
            number_from_toml,
            number_from_env,
        )?
        .unwrap_or(8080);
        Ok(Section { client_id, port })
    }
}

struct WithDerivedField {
    base: String,
    derived: String,
    env_name: String,
}

impl EnvConfig for WithDerivedField {
    fn assemble(sources: &SourceChain) -> Result<Self, EnvConfigError> {
        let base =
            resolve_field(sources, "base", "base", None, true, text_from_toml, text_from_env)?
                .unwrap_or_default();
        let derived = match resolve_field(
            sources,
            "derived",
            "derived",
            None,
            false,
            text_from_toml,
            text_from_env,
        )? {
            Some(v) => v,
            None => format!("derived-from-{base}"),
        };
        let env_name = sources.env_name().unwrap_or_default().to_owned();
        Ok(WithDerivedField { base, derived, env_name })
    }
}

fn section(chain: &SourceChain) -> Section {
    match Section::assemble(chain) {
        Ok(v) => v,
        Err(e) => panic!("{}", e.to_text()),
    }
}

fn derived(chain: &SourceChain) -> WithDerivedField {
    match WithDerivedField::assemble(chain) {
        Ok(v) => v,
        Err(e) => panic!("{}", e.to_text()),
    }
}

#[test]
fn toml_value_wins_when_no_env_var_set() {
    let chain =
        SourceChain::new().push(env("prod", vec![("client_id", Toml::from_text("from-toml"))]));
    let section = section(&chain);
    assert_eq!(section.client_id, "from-toml");
    assert_eq!(section.port, 8080, "no source set port; default applies");
}

#[test]
fn env_var_source_outranks_toml_value_source() {
    let mut vars = StringMap::new();
    vars.insert(s("GDDY_PORT"), s("9999"));
    let app = ConfigSource::Vars(EnvVarSource { prefix: s("GDDY"), vars });
    let source = env(
        "prod",
        vec![("client_id", Toml::from_text("from-toml")), ("port", Toml::Integer(1234))],
    );
    let section = section(&SourceChain::new().push(app).push(source));
    assert_eq!(
        section.client_id, "from-toml",
        "app source has no client_id, falls through to env table"
    );
    assert_eq!(section.port, 9999, "app-scoped env var outranks the TOML value");
}

#[test]
fn missing_required_field_errors() {
    let err = Section::assemble(&SourceChain::new());
    assert!(matches!(
        err,
        Err(EnvConfigError::MissingField { field }) if field == "client_id"
    ));
}

#[test]
fn malformed_value_is_a_hard_error() {
    let chain = SourceChain::new().push(env(
        "prod",
        vec![("client_id", Toml::from_text("ok")), ("port", Toml::from_text("not-a-number"))],
    ));
    let err = Section::assemble(&chain);
    assert!(matches!(
        err,
        Err(EnvConfigError::InvalidField { field, .. }) if field == "port"
    ));
}

#[test]
fn value_source_is_a_pure_table_lookup() {
    let base = ValueSource::new().with(s("client_id"), Toml::from_text("base-client"));
    let chain = SourceChain::new().push(ConfigSource::Values(base));
    assert_eq!(section(&chain).client_id, "base-client");
    assert_eq!(chain.toml_value("client_id").and_then(Toml::as_str), Some("base-client"));
    assert!(chain.toml_value("other").is_none());
}

#[test]
fn default_fn_derives_from_a_sibling_field_via_source_chain_toml_value() {
    let chain = SourceChain::new().push(env("prod", vec![("base", Toml::from_text("widget"))]));
    assert_eq!(derived(&chain).derived, "derived-from-widget");
}

#[test]
fn blank_value_falls_through_to_default_fn_by_default() {
    let chain = SourceChain::new().push(env(
        "prod",
        vec![("base", Toml::from_text("widget")), ("derived", Toml::from_text("   "))],
    ));
    assert_eq!(
        derived(&chain).derived,
        "derived-from-widget",
        "an explicit blank value is treated the same as an absent one by default"
    );
}

#[test]
fn allow_blank_accepts_a_blank_value_as_is() {
    let chain = SourceChain::new().push(env("prod", vec![("base", Toml::from_text("   "))]));
    assert_eq!(
        derived(&chain).base,
        "   ",
        "`base` opts in via `allow_blank`, so its blank value is used as-is"
    );
}

fn tag_chain() -> SourceChain {
    let base = ValueSource::new().with(s("tags"), Toml::from_list(&vec![s("real")]));
    SourceChain::new()
        .push(env("prod", vec![("tags", Toml::List(Vec::new()))]))
        .push(ConfigSource::Values(base))
}

fn tags(allow_blank: bool) -> Vec<String> {
    let chain = tag_chain();
    match resolve_field(&chain, "tags", "tags", None, allow_blank, list_from_toml, list_from_env) {
        Ok(Some(v)) => v,
        _ => panic!("some tier has a value"),
    }
}

#[test]
fn empty_array_falls_through_to_the_next_source_by_default() {
    assert_eq!(
        tags(false),
        vec!["real".to_owned()],
        "the higher-priority source's empty array must defer to the base's real value"
    );
}

#[test]
fn allow_blank_accepts_an_empty_array_as_is() {
    assert_eq!(
        tags(true),
        Vec::<String>::new(),
        "with allow_blank set, the empty array is accepted as-is, not skipped"
    );
}

#[test]
fn source_chain_env_name_reflects_the_first_env_source() {
    let chain = SourceChain::new().push(env("staging", Vec::new()));
    assert_eq!(derived(&chain).env_name, "staging");

    let no_env_chain = SourceChain::new().push(ConfigSource::Values(ValueSource::new()));
    assert_eq!(
        derived(&no_env_chain).env_name,
        "",
        "a chain with no EnvSource has no env name to report"
    );
}

#[test]
fn errors_name_their_field() {
    let invalid = EnvConfigError::InvalidField { field: s("port"), reason: s("no number") };
    assert_eq!(invalid.to_text(), "field port: no number");
    let missing = EnvConfigError::MissingField { field: s("port") };
    assert_eq!(missing.to_text(), "field port has no value in any source, and no default");
    let inner = EnvConfigError::Environment(Box::new(CliCoreError::message(s("unknown"))));
    assert_eq!(inner.to_text(), "unknown");
}
