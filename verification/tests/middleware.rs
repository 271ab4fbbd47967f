//! Command specs, credentials, and the middleware's decisions.
use cli_engine::auth::commands::{
    asks_one_status, login_data, login_result, logout_data, status_data, to_status_entry_at,
};
use cli_engine::auth::credential::{Credential, Moment};
use cli_engine::builtin_groups::{
    check_env_name, config_get_data, env_info_data, env_list_data, extra_entries, oauth_data,
    string_arg,
};
use cli_engine::cli::run::{command_request, render_settings, run_settings};
use cli_engine::command::{CommandResult, CommandSpec};
use cli_engine::error::CliCoreError;
use cli_engine::flags::{global_flags_from_matches, GlobalFlags, MatchedGlobals};
use cli_engine::guide::{
    guide_content, list_guides, parse_front_matter, parse_guides_from_markdown, GuideEntry,
};
use cli_engine::json::Json;
use cli_engine::json_bridge::to_serde;
use cli_engine::matched::{
    command_args_from_matches, command_path_from_matches, MatchedArg,
};
use cli_engine::middleware::meta::{value_map, AuthRequirement, CommandMeta};
use cli_engine::middleware::render::{
    activity_event, after_staging, build_data_envelope, failure_envelope, finish_envelope,
    schema_data, shown, stage_envelope, Showing,
};
use cli_engine::middleware::resolver::{
    auth_resolution_error, identity_key, login_request, CredentialResolver, ResolveStep,
};
use cli_engine::middleware::run::{
    after_authorization, after_handler, after_resolution, after_start, effective_request_system,
    fallback_system, start, Finish, MiddlewareRequest, Reply, RunSettings, Step,
};
use cli_engine::ordmap::StringMap;
use cli_engine::output::formats::OutputFormat;
use cli_engine::output::human::HumanViewRegistry;
use cli_engine::output::schema::SchemaRegistry;
use cli_engine::tier::Tier;
use cli_engine::toml_value::Toml;

fn s(text: &str) -> String {
    text.to_owned()
}

fn list(items: &[&str]) -> Vec<String> {
    items.iter().map(|i| (*i).to_owned()).collect()
}

#[test]
fn specs_surface_their_scopes_and_tier() {
    let spec = CommandSpec::new(s("list"), s("List"))
        .with_scopes(&list(&["a:read", "b"]))
        .with_auth_provider(s("primary"))
        .with_tier(Tier::Mutate);
    let meta = spec.metadata();
    assert_eq!(meta.scopes, vec!["a:read", "b"]);
    assert_eq!(meta.provider(), Some("primary"));
    assert_eq!(meta.tier(), Tier::Mutate);
    assert!(meta.dry_run_prompt);
    let cleared = spec.with_scopes(&Vec::new()).metadata();
    assert!(cleared.scopes.is_empty());
    let explicit = CommandSpec::new(s("x"), s("X"))
        .with_tier(Tier::Mutate)
        .with_auth_metadata(s("tier"), s("read"));
    assert_eq!(explicit.metadata().tier(), Tier::Read);
    assert_eq!(CommandSpec::new(s("x"), s("X")).auth, AuthRequirement::Required);
    assert_eq!(Tier::parse(Tier::Mutate.as_str()), Some(Tier::Mutate));
}

fn credential(token: &str, identity: &str) -> Credential {
    Credential { token: s(token), identity: s(identity), ..Credential::default() }
}

fn resolver(scopes: &[&str]) -> CredentialResolver {
    let mut meta = CommandMeta::new();
    meta.set_scopes(list(scopes));
    CredentialResolver::new(s("primary"), s("dev"), s("a:b"), s("read"), false, meta)
}

#[test]
fn a_credential_is_resolved_once_for_its_scopes() {
    let mut r = resolver(&["read"]);
    let ResolveStep::Ask(request) = r.begin(&Vec::new()) else {
        panic!("nothing is memoized");
    };
    assert_eq!(request.meta.scopes, vec!["read"]);
    assert_eq!((request.provider.as_str(), request.env.as_str()), ("primary", "dev"));
    assert!(r.finish(request, Ok(credential("t1", "me"))).is_ok());
    assert!(matches!(r.begin(&Vec::new()), ResolveStep::Memoized(c) if c.token == "t1"));
    // More scopes lead to a wider request.
    let ResolveStep::Ask(request) = r.begin(&list(&["write"])) else {
        panic!("write is not covered");
    };
    assert_eq!(request.meta.scopes, vec!["read", "write"]);
    assert!(r.finish(request, Ok(credential("t2", "me"))).is_ok());
    assert!(matches!(r.begin(&list(&["write"])), ResolveStep::Memoized(c) if c.token == "t2"));
    // Another identity is refused.
    let ResolveStep::Ask(request) = r.begin(&list(&["admin"])) else {
        panic!("admin is not covered");
    };
    assert!(r.finish(request, Ok(credential("t3", "you"))).is_err());
    // What others see is the first credential.
    assert_eq!(r.peek().map(|c| c.token.as_str()), Some("t1"));
    let login = login_request("primary", "dev", &list(&["x"]));
    assert_eq!(login.meta.scopes, vec!["x"]);
    assert_eq!(login.command, "");
}

#[test]
fn commands_without_credentials_are_refused_one() {
    let r = CredentialResolver::new(s("p"), s("dev"), s("a"), s("read"), true, CommandMeta::new());
    assert!(r.never_authenticates());
    assert!(matches!(r.begin(&Vec::new()), ResolveStep::Refused(_)));
    let err = auth_resolution_error("p", CliCoreError::message(s("no")));
    assert_eq!(err.to_text(), "auth: provider \"p\": no");
    let known = auth_resolution_error("p", CliCoreError::MissingAuthProvider(s("q")));
    assert!(matches!(known, CliCoreError::MissingAuthProvider(name) if name == "q"));
    assert_eq!(identity_key(&credential("t", "me")), "me");
}

fn settings() -> RunSettings {
    RunSettings {
        default_auth_provider: s("primary"),
        env: s("dev"),
        dry_run: false,
        schema: false,
        authorizes: false,
    }
}

fn request(auth: AuthRequirement, mutates: bool) -> MiddlewareRequest {
    let spec = CommandSpec::new(s("list"), s("List")).mutates(mutates).auth(auth);
    command_request(&spec, "project:list", spec.metadata(), StringMap::new(), StringMap::new())
}

fn finish_of(step: Step) -> Finish {
    match step {
        Step::Finish(f) => f,
        _ => panic!("the run is over"),
    }
}

#[test]
fn required_commands_resolve_before_they_run() {
    let s1 = settings();
    let (run, _) = start(&s1, request(AuthRequirement::Required, false));
    assert_eq!(run.provider, "primary");
    assert_eq!(run.system, "project");
    assert!(matches!(after_start(&s1, &run), Step::Resolve));
    let failed = finish_of(after_resolution(&run, Err(CliCoreError::message(s("expired")))));
    assert_eq!(failed.audit.expect("audited").result, "auth-error");
    assert!(matches!(failed.reply, Reply::Failure { .. }));
    assert!(matches!(after_resolution(&run, Ok(())), Step::Handle));
    let (open, _) = start(&s1, request(AuthRequirement::Never, false));
    assert!(matches!(after_start(&s1, &open), Step::Handle));
}

#[test]
fn dry_runs_and_schemas_run_nothing() {
    let dry = RunSettings { dry_run: true, ..settings() };
    let (run, _) = start(&dry, request(AuthRequirement::Required, true));
    let f = finish_of(after_start(&dry, &run));
    assert!(matches!(f.reply, Reply::Data { dry_run: true, .. }));
    assert_eq!(f.activity.expect("told").status, "dry-run");
    let schema = RunSettings { schema: true, ..settings() };
    let (run, _) = start(&schema, request(AuthRequirement::Required, true));
    assert!(matches!(finish_of(after_start(&schema, &run)).reply, Reply::Schema { .. }));
}

#[test]
fn a_denied_command_does_not_run() {
    let gated = RunSettings { authorizes: true, ..settings() };
    let (run, _) = start(&gated, request(AuthRequirement::Required, false));
    assert!(matches!(after_start(&gated, &run), Step::Authorize));
    let denial = Err(CliCoreError::message(s("denied by policy")));
    let f = finish_of(after_authorization(&gated, &run, denial, None));
    assert_eq!(f.audit.expect("audited").result, "denied");
    let Reply::Failure { error, .. } = f.reply else {
        panic!("the command is denied");
    };
    assert_eq!(error.to_text(), "denied by policy");
    assert!(matches!(after_authorization(&gated, &run, Ok(()), None), Step::Resolve));
}

#[test]
fn handlers_end_with_data_or_an_error() {
    let s1 = settings();
    let (run, _) = start(&s1, request(AuthRequirement::Never, false));
    let seen = credential("t", "me");
    let done = after_handler(&s1, &run, Ok(CommandResult::new(Json::Bool(true))), Some(&seen));
    assert_eq!(done.audit.expect("audited").identity, "me");
    assert_eq!(done.activity.expect("told").status, "ok");
    let Reply::Data { data, system, dry_run, .. } = done.reply else {
        panic!("the handler succeeded");
    };
    assert!(matches!(data, Json::Bool(true)));
    assert_eq!((system.as_str(), dry_run), ("project", false));
    let failed = after_handler(&s1, &run, Err(CliCoreError::message(s("boom"))), None);
    assert_eq!(failed.activity.expect("told").error, "boom");
    assert_eq!(fallback_system("a:b"), "a");
    assert_eq!(effective_request_system("x", "a:b"), "x");
}

fn flags() -> GlobalFlags {
    GlobalFlags::default()
}

#[test]
fn envelopes_are_staged_for_a_format() {
    let f = GlobalFlags { filter: s("n"), limit: 1, fields: s("n"), ..flags() };
    let settings = render_settings(&f, "cli", "dev");
    let data = Json::Array(vec![Json::Null, Json::Bool(true)]);
    let envelope = build_data_envelope(data, "project", Vec::new(), false);
    let Ok(staged) = stage_envelope(&settings, &HumanViewRegistry::new(), envelope, "id", "") else {
        panic!("the format is valid");
    };
    assert_eq!(staged.format, OutputFormat::Json);
    assert_eq!(staged.fields, "n");
    let bad = render_settings(&GlobalFlags { output_format: s("yaml"), ..flags() }, "cli", "dev");
    let envelope = build_data_envelope(Json::Null, "project", Vec::new(), false);
    let refused = stage_envelope(&bad, &HumanViewRegistry::new(), envelope, "", "");
    assert!(matches!(refused, Err(CliCoreError::InvalidOutputFormat(f)) if f == "yaml"));
    let verbose = render_settings(&GlobalFlags { verbose: s("all"), ..flags() }, "cli", "dev");
    let none = StringMap::new();
    let envelope = build_data_envelope(Json::Null, "project", Vec::new(), true);
    let shown = finish_envelope(envelope, &verbose, "a:b", "me", "1s", &none, &none);
    let metadata = shown.metadata.expect("verbose");
    assert_eq!(metadata.command, "a:b");
    assert!(metadata.dry_run);
    let err = CliCoreError::message(s("boom"));
    let failed = failure_envelope(&err, "project", &verbose, "me", "1s", &none, &none);
    assert_eq!(failed.error.expect("an error").message, "boom");
    let run = run_settings(&GlobalFlags { dry_run: true, ..flags() }, "p", "dev", false);
    assert!(run.dry_run);
    assert!(schema_data(&SchemaRegistry::new(), "a:b").is_object());
}

#[test]
fn activity_events_name_the_caller() {
    let seen = Credential { sub: s("u1"), ..credential("t", "me") };
    let none = StringMap::new();
    let e = activity_event("cli", "dev", "why", "a:b", &none, Some(&seen), "ok", "api", "", 12);
    assert_eq!((e.identity.as_str(), e.sub.as_str(), e.duration_ms), ("me", "u1", 12));
    let huge = activity_event("c", "d", "", "a", &none, None, "ok", "", "", u128::MAX);
    assert_eq!(huge.duration_ms, i64::MAX);
    assert_eq!(huge.identity, "");
}

#[test]
fn credentials_expire() {
    let at = |seconds: i64| Moment { seconds, nanos: 0 };
    let by_expiry =
        Credential { expires_at: s("2023-11-14T22:13:20Z"), ..Credential::default() };
    assert!(!by_expiry.is_expired_at(at(1_700_000_000)));
    assert!(by_expiry.is_expired_at(at(1_700_000_001)));
    let by_cache = Credential { cached_at: s("2023-11-14T22:13:20Z"), ..Credential::default() };
    assert!(!by_cache.is_expired_at(at(1_700_001_800)));
    assert!(by_cache.is_expired_at(at(1_700_001_801)));
    assert_eq!(by_cache.effective_expiry(), "2023-11-14T22:43:20Z");
    let bad = Credential { expires_at: s("soon"), ..Credential::default() };
    assert!(bad.is_expired());
    assert!(!Credential::default().is_expired());
}

#[test]
fn auth_commands_answer_with_rows() {
    let now = Moment { seconds: 0, nanos: 0 };
    let c = Credential { identity: s("me"), ..credential("t", "me") };
    let row = to_status_entry_at("p", "dev", Some(&c), now);
    assert_eq!(row.identity, "me");
    assert!(status_data(&row).is_object());
    let login = login_result("p", "dev", &c);
    let shown = to_serde(&login_data(&login));
    assert_eq!(shown["provider"], "p");
    assert_eq!(to_serde(&logout_data("p", "dev"))["env"], "dev");
    assert!(asks_one_status("p", "dev"));
}

#[test]
fn built_in_groups_answer_with_data() {
    let rows = to_serde(&env_list_data(&list(&["dev", "prod"]), "prod"));
    assert_eq!(rows[1]["name"], "prod");
    assert_eq!(rows[1]["active"], true);
    assert_eq!(rows[0]["active"], false);
    assert!(check_env_name("").is_err());
    assert!(check_env_name("dev").is_ok());
    let oauth = oauth_data("c", "a", "t", &list(&["openid"]));
    let info = to_serde(&env_info_data("dev", Some(oauth), &StringMap::new()));
    assert_eq!(info["oauth"]["client_id"], "c");
    let got = to_serde(&config_get_data("k", &Some(s("v"))));
    assert_eq!(got["value"], "v");
    let args = value_map(&vec![(s("name"), Json::from_text("x"))]);
    assert_eq!(string_arg(&args, "name"), "x");
    assert_eq!(string_arg(&args, "other"), "");
}

fn matched(id: &str, raw: &[&str], changed: bool) -> MatchedArg {
    MatchedArg {
        id: s(id),
        present: true,
        changed,
        flag: None,
        typed: Vec::new(),
        raw: list(raw),
    }
}

#[test]
fn matched_arguments_become_values() {
    let args = vec![matched("name", &["x"], true), matched("tags", &["a", "b"], false)];
    let all = command_args_from_matches(&args, false);
    assert_eq!(all.get("name").and_then(Json::as_str), Some("x"));
    assert!(matches!(all.get("tags"), Some(Json::Array(items)) if items.len() == 2));
    let changed = command_args_from_matches(&args, true);
    assert_eq!(changed.keys(), vec!["name"]);
    assert_eq!(command_path_from_matches("cli", &list(&["project", "list"])), "project:list");
    assert_eq!(command_path_from_matches("cli", &Vec::new()), "");
}

#[test]
fn global_flags_are_read_from_matches() {
    let none = MatchedGlobals {
        toon: false,
        human: false,
        json: false,
        output: None,
        verbose: None,
        dry_run: None,
        fields: None,
        filter: None,
        expr: None,
        limit: None,
        offset: None,
        schema: None,
        reason: None,
        timeout: None,
        debug: None,
        search: None,
        credential_store: None,
    };
    assert_eq!(global_flags_from_matches(&none, "human").output_format, "human");
    let some = MatchedGlobals { json: true, limit: Some(5), ..none };
    let f = global_flags_from_matches(&some, "human");
    assert_eq!((f.output_format.as_str(), f.limit), ("json", 5));
}

#[test]
fn guides_come_from_markdown() {
    let files = vec![
        (s("docs/b.md"), b"---\nsummary: About b\n---\n# B\n".to_vec()),
        (s("docs/a.md"), b"# A\n".to_vec()),
        (s("docs/skip.txt"), b"x".to_vec()),
    ];
    let guides = parse_guides_from_markdown(&files);
    let names: Vec<&str> = guides.iter().map(|g| g.name.as_str()).collect();
    assert_eq!(names, vec!["a", "b"]);
    assert_eq!(guides[1].summary, "About b");
    assert!(guide_content(&guides, Some("a")).is_ok());
    assert!(guide_content(&guides, Some("zzz")).is_err());
    assert!(list_guides(&guides).contains("b"));
    let (summary, body) = parse_front_matter("no front matter");
    assert_eq!((summary.as_str(), body.as_str()), ("", "no front matter"));
    let twice = vec![
        GuideEntry::new(s("x"), s("1"), s("first")),
        GuideEntry::new(s("x"), s("2"), s("second")),
    ];
    assert_eq!(guide_content(&twice, Some("x")), Ok(s("second")));
}

#[test]
fn a_request_without_authentication_takes_its_system_from_its_path() {
    let request = MiddlewareRequest::no_auth(
        CommandMeta::new(),
        s("project:deploy:start"),
        StringMap::new(),
        StringMap::new(),
        s("id,name"),
    );
    assert_eq!(request.system, "project");
    assert_eq!(request.command_path, "project:deploy:start");
    assert_eq!(request.default_fields, "id,name");
    assert!(request.view_id.is_none());
    assert!(request.auth == AuthRequirement::Never);
}

#[test]
fn a_status_shows_the_effective_expiry() {
    let c = Credential {
        cached_at: s("2026-01-01T00:00:00Z"),
        expires_at: s("2026-01-02T00:00:00Z"),
        ..Credential::default()
    };
    assert_eq!(c.effective_expiry(), "2026-01-01T00:30:00Z");
    let row = to_status_entry_at("p", "e", Some(&c), Moment { seconds: 0, nanos: 0 });
    assert_eq!(row.expires_at, "2026-01-01T00:30:00Z");
    let plain = Credential { cached_at: String::new(), ..c };
    assert_eq!(plain.effective_expiry(), "2026-01-02T00:00:00Z");
}

#[test]
fn a_leap_second_is_left_behind() {
    let c = Credential { cached_at: s("2016-12-31T23:59:60.5Z"), ..Credential::default() };
    assert_eq!(c.effective_expiry(), "2017-01-01T00:29:59Z");
    let end = 1_483_230_599;
    assert!(!c.is_expired_at(Moment { seconds: end, nanos: 500_000_000 }));
    assert!(c.is_expired_at(Moment { seconds: end, nanos: 500_000_001 }));
}

#[test]
fn only_an_unknown_format_has_a_page_of_its_own() {
    let unknown = CliCoreError::InvalidOutputFormat(s("yaml"));
    assert!(matches!(
        after_staging(Err(unknown)),
        Showing::ErrorPage(CliCoreError::InvalidOutputFormat(f)) if f == "yaml"
    ));
    assert!(matches!(
        after_staging(Err(CliCoreError::message(s("no")))),
        Showing::Nothing(e) if e.to_text() == "no"
    ));
    assert_eq!(shown(s("page"), None).exit_code, 0);
    let failed = shown(s("page"), Some(&CliCoreError::message(s("not found"))));
    assert_eq!((failed.exit_code, failed.rendered.as_str()), (4, "page"));
}

#[test]
fn oauth_settings_are_not_extra() {
    let mut table = StringMap::new();
    for key in ["client_id", "auth_url", "token_url", "scopes", "api_url", "region"] {
        table.insert(s(key), Toml::from_text(key));
    }
    assert_eq!(extra_entries(&table).keys(), vec!["api_url", "region"]);
}
