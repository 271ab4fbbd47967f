//! The steps around one command invocation.
//!
//! The work that takes place outside — authorizing, asking a provider, running
//! the handler — is done by the caller. Each function here takes what came of
//! one such step and says what comes next.
use crate::auth::credential::{Credential, CredentialText};
use crate::command::{CommandResult, ResultText};
use crate::error::CliCoreError;
use crate::error;
use crate::json::{Json, JsonModel};
use crate::json;
use crate::middleware::meta::{AuthRequirement, CommandMeta, MetaText, ValueMap};
use crate::middleware::meta;
use crate::middleware::resolver::{CredentialResolver, ResolverText};
use crate::ordmap::StringMap;
use crate::output::envelope::NextAction;
use crate::output::envelope;
use crate::text;
use vstd::prelude::*;
use vstd::string::*;

verus! {

/// What the middleware is set to for one run.
pub struct RunSettings {
    /// Fallback auth provider for commands without an explicit provider.
    pub default_auth_provider: String,
    /// Selected environment.
    pub env: String,
    /// Whether mutating commands should short-circuit.
    pub dry_run: bool,
    /// Whether schema rendering was requested.
    pub schema: bool,
    /// Whether there is an authorizer.
    pub authorizes: bool,
}

/// Inputs for one middleware-managed command execution.
pub struct MiddlewareRequest {
    /// Per-command metadata used by authentication, authorization, dry-run, audit, and activity.
    pub meta: CommandMeta,
    /// Colon-separated command path.
    pub command_path: String,
    /// Backend/system id used in output metadata and generic error attribution.
    pub system: String,
    /// Arguments explicitly supplied by the user.
    pub user_args: ValueMap,
    /// Effective arguments, including defaults.
    pub args: ValueMap,
    /// Default field projection when `--fields` is absent.
    pub default_fields: String,
    /// Id of the human view this command declared, if any.
    pub view_id: Option<String>,
    /// Authentication requirement enforced by the engine for this command.
    pub auth: AuthRequirement,
}

/// What precedes the first colon of a path, or the whole path.
pub open spec fn fallback_system_spec(path: Seq<char>) -> Seq<char> {
    text::split_spec(path, ':')[0]
}

/// The system of a command path: what precedes its first colon.
pub fn fallback_system(command_path: &str) -> (r: String)
    ensures
        r@ == fallback_system_spec(command_path@),
{
    let parts = text::split_char(command_path, ':');
    proof {
        text::lemma_split_nonempty(command_path@, ':');
        assert(text::texts(parts@).len() == parts@.len());
        assert(text::texts(parts@)[0] == parts@[0]@);
    }
    parts[0].clone()
}

/// `r` is the request of a command that never authenticates and declares no
/// view; its system is the first segment of its path.
pub open spec fn is_open_request(
    r: MiddlewareRequest,
    meta: CommandMeta,
    command_path: String,
    user_args: ValueMap,
    args: ValueMap,
    default_fields: String,
) -> bool {
    &&& r.meta == meta
    &&& r.command_path == command_path
    &&& r.system@ == fallback_system_spec(command_path@)
    &&& r.user_args == user_args
    &&& r.args == args
    &&& r.default_fields == default_fields
    &&& r.view_id is None
    &&& r.auth == AuthRequirement::Never
}

impl MiddlewareRequest {
    /// The request of a command that never authenticates and declares no view;
    /// its system is the first segment of its path.
    pub fn no_auth(
        meta: CommandMeta,
        command_path: String,
        user_args: ValueMap,
        args: ValueMap,
        default_fields: String,
    ) -> (r: Self)
        ensures
            is_open_request(r, meta, command_path, user_args, args, default_fields),
    {
        let system = fallback_system(command_path.as_str());
        MiddlewareRequest {
            meta,
            command_path,
            system,
            user_args,
            args,
            default_fields,
            view_id: None,
            auth: AuthRequirement::Never,
        }
    }
}

/// The system of a request: its own, else that of its path.
pub open spec fn system_spec(system: Seq<char>, path: Seq<char>) -> Seq<char> {
    if system.len() == 0 {
        fallback_system_spec(path)
    } else {
        system
    }
}

/// The system of a request.
pub fn effective_request_system(system: &str, command_path: &str) -> (r: String)
    ensures
        r@ == system_spec(system@, command_path@),
{
    if system.is_empty() {
        fallback_system(command_path)
    } else {
        system.to_owned()
    }
}

/// One command invocation under way.
pub struct Run {
    /// Metadata of the command.
    pub meta: CommandMeta,
    /// Colon-separated command path.
    pub command_path: String,
    /// Backend/system of the command.
    pub system: String,
    /// Auth provider of the command.
    pub provider: String,
    /// Arguments explicitly supplied by the user.
    pub user_args: ValueMap,
    /// Effective arguments, including the environment.
    pub args: ValueMap,
    /// Default field projection.
    pub default_fields: String,
    /// Id of the human view, empty where there is none.
    pub view_id: String,
    /// Authentication requirement.
    pub auth: AuthRequirement,
}

/// What an invocation under way says.
#[verifier::ext_equal]
pub struct RunText {
    /// Metadata of the command.
    pub meta: MetaText,
    /// Colon-separated command path.
    pub command_path: Seq<char>,
    /// Backend/system of the command.
    pub system: Seq<char>,
    /// Auth provider of the command.
    pub provider: Seq<char>,
    /// Arguments explicitly supplied by the user.
    pub user_args: Map<Seq<char>, JsonModel>,
    /// Effective arguments.
    pub args: Map<Seq<char>, JsonModel>,
    /// Default field projection.
    pub default_fields: Seq<char>,
    /// Id of the human view.
    pub view_id: Seq<char>,
    /// Authentication requirement.
    pub auth: AuthRequirement,
}

impl View for Run {
    type V = RunText;

    open spec fn view(&self) -> RunText {
        RunText {
            meta: self.meta@,
            command_path: self.command_path@,
            system: self.system@,
            provider: self.provider@,
            user_args: json::map_models(self.user_args@),
            args: json::map_models(self.args@),
            default_fields: self.default_fields@,
            view_id: self.view_id@,
            auth: self.auth,
        }
    }
}

/// The effective arguments: with the environment, unless the command never
/// authenticates, none is selected or the user gave one.
pub open spec fn args_with_env(
    args: Map<Seq<char>, JsonModel>,
    env: Seq<char>,
    auth: AuthRequirement,
) -> Map<Seq<char>, JsonModel> {
    if !(auth is Never) && env.len() > 0 && !args.dom().contains("env"@) {
        args.insert("env"@, JsonModel::Text(env))
    } else {
        args
    }
}

/// The auth provider of a command: the one it names, else the default.
pub open spec fn provider_spec(m: MetaText, default_provider: Seq<char>) -> Seq<char> {
    match meta::value_of(m.auth_metadata, "provider"@) {
        Some(p) => if p.len() > 0 {
            p
        } else {
            default_provider
        },
        None => default_provider,
    }
}

/// The invocation that a request starts.
pub open spec fn run_of(s: RunSettings, q: MiddlewareRequest) -> RunText {
    RunText {
        meta: q.meta@,
        command_path: q.command_path@,
        system: system_spec(q.system@, q.command_path@),
        provider: provider_spec(q.meta@, s.default_auth_provider@),
        user_args: json::map_models(q.user_args@),
        args: args_with_env(json::map_models(q.args@), s.env@, q.auth),
        default_fields: q.default_fields@,
        view_id: match q.view_id {
            Some(id) => id@,
            None => ""@,
        },
        auth: q.auth,
    }
}

/// The resolver of an invocation, which has not resolved anything yet.
pub open spec fn resolver_of(s: RunSettings, q: MiddlewareRequest) -> ResolverText {
    ResolverText {
        provider: provider_spec(q.meta@, s.default_auth_provider@),
        env: match meta::value_of(q.meta@.auth_metadata, "fixed_env"@) {
            Some(env) => env,
            None => s.env@,
        },
        command_path: q.command_path@,
        tier: match meta::value_of(q.meta@.auth_metadata, "tier"@) {
            Some(t) => t,
            None => ""@,
        },
        no_auth: q.auth is Never,
        meta: q.meta@,
        credential: None,
        requested: Seq::empty(),
        first: None,
    }
}

/// Starts an invocation.
pub fn start(s: &RunSettings, q: MiddlewareRequest) -> (r: (Run, CredentialResolver))
    ensures
        r.0@ == run_of(*s, q),
        r.1@ == resolver_of(*s, q),
        q.meta@.auth_metadata.dom().contains("provider"@)
            && q.meta@.auth_metadata["provider"@].len() > 0 ==> r.0@.provider
            == q.meta@.auth_metadata["provider"@] && r.1@.provider
            == q.meta@.auth_metadata["provider"@],
{
    let no_auth = q.auth.is_none();
    let system = effective_request_system(q.system.as_str(), q.command_path.as_str());
    let mut args = q.args;
    let ghost before = args@;
    if !no_auth && !s.env.as_str().is_empty() && !args.contains_key("env") {
        args.insert("env".to_owned(), Json::from_text(s.env.as_str()));
        proof {
            assert(json::map_models(args@) =~= json::map_models(before).insert(
                "env"@,
                JsonModel::Text(s.env@),
            ));
        }
    }
    proof {
        assert(json::map_models(before).dom() =~= before.dom());
    }
    let provider = match q.meta.provider() {
        Some(p) => {
            if p.is_empty() {
                s.default_auth_provider.clone()
            } else {
                p.to_owned()
            }
        },
        None => s.default_auth_provider.clone(),
    };
    let env = match q.meta.fixed_env() {
        Some(e) => e.to_owned(),
        None => s.env.clone(),
    };
    let tier = q.meta.tier_text();
    let resolver = CredentialResolver::new(
        provider.clone(),
        env,
        q.command_path.clone(),
        tier,
        no_auth,
        q.meta.copy(),
    );
    let run = Run {
        meta: q.meta,
        command_path: q.command_path,
        system,
        provider,
        user_args: q.user_args,
        args,
        default_fields: q.default_fields,
        view_id: match q.view_id {
            Some(id) => id,
            None => "".to_owned(),
        },
        auth: q.auth,
    };
    (run, resolver)
}

/// What is written to the audit log.
pub struct AuditRecord {
    /// Identity of the caller.
    pub identity: String,
    /// Outcome.
    pub result: String,
}

/// What is told to the activity sink, beside the invocation and the credential.
pub struct ActivityRecord {
    /// Outcome.
    pub status: String,
    /// Backend that the outcome is attributed to.
    pub backend: String,
    /// Error message for failed outcomes.
    pub error: String,
}

/// What is answered to the caller.
pub enum Reply {
    /// The schema of the command.
    Schema {
        /// Identity of the caller.
        identity: String,
    },
    /// Data in an envelope.
    Data {
        /// The data.
        data: Json,
        /// System that the data come from.
        system: String,
        /// Suggested follow-up actions.
        next_actions: Vec<NextAction>,
        /// Whether the data are those of a dry run.
        dry_run: bool,
        /// Default field projection.
        default_fields: String,
        /// Id of the human view.
        view_id: String,
        /// Identity of the caller.
        identity: String,
    },
    /// An error in an envelope.
    Failure {
        /// The error.
        error: CliCoreError,
        /// System that the error is attributed to.
        system: String,
        /// Identity of the caller.
        identity: String,
    },
}

/// The end of an invocation.
pub struct Finish {
    /// What is written to the audit log.
    pub audit: Option<AuditRecord>,
    /// What is told to the activity sink.
    pub activity: Option<ActivityRecord>,
    /// What is answered.
    pub reply: Reply,
}

/// What comes next.
pub enum Step {
    /// Ask the authorizer.
    Authorize,
    /// Resolve the credential.
    Resolve,
    /// Run the handler.
    Handle,
    /// Nothing: the invocation is over.
    Finish(Finish),
}

/// What is audited and told, said in texts.
#[verifier::ext_equal]
pub struct Trace {
    /// Identity in the audit log.
    pub identity: Seq<char>,
    /// Outcome, in both.
    pub result: Seq<char>,
    /// Backend that the outcome is attributed to.
    pub backend: Seq<char>,
    /// Error message.
    pub error: Seq<char>,
}

/// The audit and the activity record say what the trace says.
pub open spec fn is_traced(f: Finish, t: Trace) -> bool {
    &&& f.audit matches Some(a) && a.identity@ == t.identity && a.result@ == t.result
    &&& f.activity matches Some(b) && b.status@ == t.result && b.backend@ == t.backend && b.error@
        == t.error
}

/// The identity of what was resolved so far, empty where nothing was.
pub open spec fn identity_of(seen: Option<CredentialText>) -> Seq<char> {
    match seen {
        Some(c) => c.identity,
        None => Seq::empty(),
    }
}

/// The invocation ends with the schema of the command.
pub open spec fn ends_with_schema(step: Step, identity: Seq<char>) -> bool {
    step matches Step::Finish(f) && f.audit is None && f.activity is None && (f.reply matches
        Reply::Schema { identity: i } && i@ == identity)
}

/// The invocation ends with an error.
pub open spec fn ends_with_error(
    f: Finish,
    err: CliCoreError,
    system: Seq<char>,
    identity: Seq<char>,
    t: Trace,
) -> bool {
    &&& is_traced(f, t)
    &&& f.reply matches Reply::Failure { error: e, system: s, identity: i } && e == err && s@
        == system && i@ == identity
}

/// What a dry run answers.
pub open spec fn dry_run_members(path: Seq<char>) -> Map<Seq<char>, JsonModel> {
    Map::<Seq<char>, JsonModel>::empty().insert("command"@, JsonModel::Text(path)).insert(
        "action"@,
        JsonModel::Text("dry-run: would execute"@),
    )
}

/// The invocation ends as a dry run that ran nothing.
pub open spec fn ends_dry(step: Step, run: RunText, identity: Seq<char>) -> bool {
    step matches Step::Finish(f) && is_traced(
        f,
        Trace {
            identity,
            result: "dry-run"@,
            backend: run.command_path,
            error: Seq::empty(),
        },
    ) && (f.reply matches Reply::Data {
        data,
        system,
        next_actions,
        dry_run,
        default_fields,
        view_id,
        identity: i,
    } && {
        &&& data@ == JsonModel::Object(dry_run_members(run.command_path))
        &&& system@ == run.command_path
        &&& next_actions@.len() == 0
        &&& dry_run
        &&& default_fields@.len() == 0
        &&& view_id@.len() == 0
        &&& i@ == identity
    })
}

/// What comes after the authorizer let the command pass, or where there is
/// none.
pub open spec fn is_passed(step: Step, s: RunSettings, run: RunText, identity: Seq<char>) -> bool {
    if s.schema {
        ends_with_schema(step, identity)
    } else if s.dry_run && run.meta.dry_run_prompt && !run.meta.handles_dry_run {
        ends_dry(step, run, identity)
    } else if run.auth is Required {
        step is Resolve
    } else {
        step is Handle
    }
}

/// What comes first: the schema of a command that never authenticates, then the
/// authorizer.
pub open spec fn is_first(step: Step, s: RunSettings, run: RunText) -> bool {
    if run.auth is Never && s.schema {
        ends_with_schema(step, Seq::empty())
    } else if s.authorizes {
        step is Authorize
    } else {
        is_passed(step, s, run, Seq::empty())
    }
}

/// The trace of a command that the authorizer did not let pass.
pub open spec fn denial(run: RunText, err: CliCoreError, identity: Seq<char>) -> Trace {
    Trace {
        identity,
        result: if error::is_auth_spec(err) {
            "auth-error"@
        } else {
            "denied"@
        },
        backend: if error::is_auth_spec(err) {
            run.provider
        } else {
            run.command_path
        },
        error: error::display_spec(err),
    }
}

/// The trace of a command whose credential could not be resolved.
pub open spec fn auth_failure(run: RunText, err: CliCoreError) -> Trace {
    Trace {
        identity: Seq::empty(),
        result: "auth-error"@,
        backend: run.provider,
        error: error::display_spec(err),
    }
}

/// The system that an error of the handler is attributed to.
pub open spec fn failed_system(run: RunText, err: CliCoreError) -> Seq<char> {
    if error::is_auth_spec(err) {
        run.command_path
    } else {
        match error::system_of_spec(err) {
            Some(s) => s,
            None => run.system,
        }
    }
}

/// The trace of a command whose handler failed.
pub open spec fn handler_failure(run: RunText, err: CliCoreError, identity: Seq<char>) -> Trace {
    Trace {
        identity,
        result: if error::is_auth_spec(err) {
            "auth-error"@
        } else {
            "error"@
        },
        backend: if error::is_auth_spec(err) {
            run.provider
        } else {
            failed_system(run, err)
        },
        error: error::display_spec(err),
    }
}

/// The handler's result is that of a dry run: the handler says so, and a dry
/// run was asked for.
pub open spec fn is_dry_result(s: RunSettings, result: ResultText) -> bool {
    s.dry_run && result.dry_run
}

/// The invocation ends with the handler's result.
pub open spec fn ends_with_result(
    f: Finish,
    s: RunSettings,
    run: RunText,
    result: ResultText,
    identity: Seq<char>,
) -> bool {
    &&& is_traced(
        f,
        Trace {
            identity,
            result: if is_dry_result(s, result) {
                "dry-run"@
            } else {
                "ok"@
            },
            backend: run.system,
            error: Seq::empty(),
        },
    )
    &&& f.reply matches Reply::Data {
        data,
        system,
        next_actions,
        dry_run,
        default_fields,
        view_id,
        identity: i,
    } && {
        &&& data@ == result.data
        &&& system@ == run.system
        &&& envelope::action_texts(next_actions@) == result.next_actions
        &&& dry_run == is_dry_result(s, result)
        &&& default_fields@ == run.default_fields
        &&& view_id@ == run.view_id
        &&& i@ == identity
    }
}

fn seen_identity(seen: Option<&Credential>) -> (r: String)
    ensures
        r@ == identity_of(opt_seen(seen)),
{
    match seen {
        Some(c) => c.identity.clone(),
        None => String::new(),
    }
}

/// What was resolved so far, said in texts.
pub open spec fn opt_seen(seen: Option<&Credential>) -> Option<CredentialText> {
    match seen {
        Some(c) => Some(c@),
        None => None,
    }
}

fn traced(
    identity: &String,
    result: &str,
    backend: &String,
    error: String,
    reply: Reply,
) -> (r: Finish)
    ensures
        is_traced(
            r,
            Trace {
                identity: identity@,
                result: result@,
                backend: backend@,
                error: error@,
            },
        ),
        r.reply == reply,
{
    Finish {
        audit: Some(AuditRecord { identity: identity.clone(), result: result.to_owned() }),
        activity: Some(
            ActivityRecord { status: result.to_owned(), backend: backend.clone(), error },
        ),
        reply,
    }
}

fn dry_run_data(path: &str) -> (r: Json)
    ensures
        r@ == JsonModel::Object(dry_run_members(path@)),
{
    broadcast use json::group_json;

    let mut members: StringMap<Json> = StringMap::new();
    members.insert("command".to_owned(), Json::from_text(path));
    members.insert("action".to_owned(), Json::from_text("dry-run: would execute"));
    assert(json::map_models(members@) =~= dry_run_members(path@));
    Json::Object(members)
}

/// What comes after the authorizer let the command pass, or where there is
/// none.
fn passed(s: &RunSettings, run: &Run, identity: String) -> (r: Step)
    ensures
        is_passed(r, *s, run@, identity@),
{
    if s.schema {
        return Step::Finish(
            Finish { audit: None, activity: None, reply: Reply::Schema { identity } },
        );
    }
    if s.dry_run && run.meta.dry_run_prompt && !run.meta.handles_dry_run {
        let error = String::new();
        assert(error@ =~= Seq::empty());
        let reply = Reply::Data {
            data: dry_run_data(run.command_path.as_str()),
            system: run.command_path.clone(),
            next_actions: Vec::new(),
            dry_run: true,
            default_fields: String::new(),
            view_id: String::new(),
            identity: identity.clone(),
        };
        return Step::Finish(traced(&identity, "dry-run", &run.command_path, error, reply));
    }
    if run.auth.is_required() {
        Step::Resolve
    } else {
        Step::Handle
    }
}

/// What comes first.
pub fn after_start(s: &RunSettings, run: &Run) -> (r: Step)
    ensures
        is_first(r, *s, run@),
{
    let identity = String::new();
    assert(identity@ =~= Seq::empty());
    if run.auth.is_none() && s.schema {
        return Step::Finish(
            Finish { audit: None, activity: None, reply: Reply::Schema { identity } },
        );
    }
    if s.authorizes {
        Step::Authorize
    } else {
        passed(s, run, identity)
    }
}

/// What comes after the authorizer spoke, with what was resolved so far.
pub open spec fn is_authorized(
    step: Step,
    s: RunSettings,
    run: RunText,
    outcome: Result<(), CliCoreError>,
    seen: Option<CredentialText>,
) -> bool {
    match outcome {
        Ok(()) => is_passed(step, s, run, identity_of(seen)),
        Err(err) => step matches Step::Finish(f) && ends_with_error(
            f,
            err,
            run.command_path,
            identity_of(seen),
            denial(run, err, identity_of(seen)),
        ),
    }
}

/// What comes after the authorizer spoke, with what was resolved so far.
pub fn after_authorization(
    s: &RunSettings,
    run: &Run,
    outcome: Result<(), CliCoreError>,
    seen: Option<&Credential>,
) -> (r: Step)
    ensures
        is_authorized(r, *s, run@, outcome, opt_seen(seen)),
{
    let identity = seen_identity(seen);
    match outcome {
        Ok(()) => passed(s, run, identity),
        Err(err) => {
            let message = err.to_text();
            let is_auth = err.is_auth();
            let reply = Reply::Failure {
                error: err,
                system: run.command_path.clone(),
                identity: identity.clone(),
            };
            if is_auth {
                Step::Finish(traced(&identity, "auth-error", &run.provider, message, reply))
            } else {
                Step::Finish(traced(&identity, "denied", &run.command_path, message, reply))
            }
        },
    }
}

/// What comes after the credential of a command that requires one was asked
/// for.
pub open spec fn is_resolved(step: Step, run: RunText, outcome: Result<(), CliCoreError>) -> bool {
    match outcome {
        Ok(()) => step is Handle,
        Err(err) => step matches Step::Finish(f) && ends_with_error(
            f,
            err,
            run.command_path,
            Seq::empty(),
            auth_failure(run, err),
        ),
    }
}

/// What comes after the credential of a command that requires one was asked
/// for.
pub fn after_resolution(run: &Run, outcome: Result<(), CliCoreError>) -> (r: Step)
    ensures
        is_resolved(r, run@, outcome),
{
    match outcome {
        Ok(()) => Step::Handle,
        Err(err) => {
            let message = err.to_text();
            let identity = String::new();
            let none = String::new();
            assert(identity@ =~= Seq::empty());
            assert(none@ =~= Seq::empty());
            let reply = Reply::Failure {
                error: err,
                system: run.command_path.clone(),
                identity: none,
            };
            Step::Finish(traced(&identity, "auth-error", &run.provider, message, reply))
        },
    }
}

/// The end of an invocation whose handler ran, with what was resolved so far.
pub open spec fn is_handled(
    f: Finish,
    s: RunSettings,
    run: RunText,
    outcome: Result<CommandResult, CliCoreError>,
    seen: Option<CredentialText>,
) -> bool {
    match outcome {
        Ok(result) => ends_with_result(f, s, run, result@, identity_of(seen)),
        Err(err) => ends_with_error(
            f,
            err,
            failed_system(run, err),
            identity_of(seen),
            handler_failure(run, err, identity_of(seen)),
        ),
    }
}

/// The end of an invocation whose handler ran, with what was resolved so far.
pub fn after_handler(
    s: &RunSettings,
    run: &Run,
    outcome: Result<CommandResult, CliCoreError>,
    seen: Option<&Credential>,
) -> (r: Finish)
    ensures
        is_handled(r, *s, run@, outcome, opt_seen(seen)),
{
    let identity = seen_identity(seen);
    match outcome {
        Err(err) => {
            let message = err.to_text();
            if err.is_auth() {
                let reply = Reply::Failure {
                    error: err,
                    system: run.command_path.clone(),
                    identity: identity.clone(),
                };
                traced(&identity, "auth-error", &run.provider, message, reply)
            } else {
                let system = match err.system() {
                    Some(s) => s.to_owned(),
                    None => run.system.clone(),
                };
                let reply = Reply::Failure {
                    error: err,
                    system: system.clone(),
                    identity: identity.clone(),
                };
                traced(&identity, "error", &system, message, reply)
            }
        },
        Ok(result) => {
            let dry = s.dry_run && result.metadata.dry_run;
            let none = String::new();
            assert(none@ =~= Seq::empty());
            let reply = Reply::Data {
                data: result.data,
                system: run.system.clone(),
                next_actions: result.metadata.next_actions,
                dry_run: dry,
                default_fields: run.default_fields.clone(),
                view_id: run.view_id.clone(),
                identity: identity.clone(),
            };
            if dry {
                traced(&identity, "dry-run", &run.system, none, reply)
            } else {
                traced(&identity, "ok", &run.system, none, reply)
            }
        },
    }
}

/// A command that requires a credential runs only after it was resolved: no
/// step leads to the handler but a successful resolution.
pub proof fn law_required_commands_fail_closed(s: RunSettings, run: RunText, step: Step)
    requires
        run.auth is Required,
        is_first(step, s, run) || exists|identity: Seq<char>| #[trigger]
            is_passed(step, s, run, identity),
    ensures
        !(step is Handle),
{
}

/// A request for the schema never runs the handler nor resolves a credential on
/// its own.
pub proof fn law_schema_runs_nothing(s: RunSettings, run: RunText, step: Step)
    requires
        s.schema,
        is_first(step, s, run) || exists|identity: Seq<char>| #[trigger]
            is_passed(step, s, run, identity),
    ensures
        !(step is Handle) && !(step is Resolve),
{
}

/// A dry run of a command that changes something, and does not handle dry runs
/// itself, never runs the handler nor resolves a credential on its own.
pub proof fn law_dry_run_runs_nothing(s: RunSettings, run: RunText, step: Step)
    requires
        s.dry_run,
        run.meta.dry_run_prompt,
        !run.meta.handles_dry_run,
        is_first(step, s, run) || exists|identity: Seq<char>| #[trigger]
            is_passed(step, s, run, identity),
    ensures
        !(step is Handle) && !(step is Resolve),
{
}

/// A handler cannot pass a real run off as a dry one.
pub proof fn law_real_runs_are_not_dry(
    f: Finish,
    s: RunSettings,
    run: RunText,
    result: ResultText,
    identity: Seq<char>,
)
    requires
        !s.dry_run,
        ends_with_result(f, s, run, result, identity),
    ensures
        f.audit->0.result@ == "ok"@,
        !f.reply->dry_run,
{
}

/// A provider that the metadata name is the one of the invocation and of its
/// credential, whatever the default is.
pub proof fn law_named_provider_wins(
    s: RunSettings,
    other: RunSettings,
    q: MiddlewareRequest,
    provider: Seq<char>,
)
    requires
        q.meta@.auth_metadata.dom().contains("provider"@),
        q.meta@.auth_metadata["provider"@] == provider,
        provider.len() > 0,
    ensures
        run_of(s, q).provider == provider,
        resolver_of(s, q).provider == provider,
        run_of(other, q).provider == run_of(s, q).provider,
        resolver_of(other, q).provider == resolver_of(s, q).provider,
{
}

/// The default provider is used only where the metadata name none, or an empty
/// one.
pub proof fn law_default_provider_is_the_last_resort(s: RunSettings, q: MiddlewareRequest)
    requires
        !q.meta@.auth_metadata.dom().contains("provider"@)
            || q.meta@.auth_metadata["provider"@].len() == 0,
    ensures
        run_of(s, q).provider == s.default_auth_provider@,
        resolver_of(s, q).provider == s.default_auth_provider@,
{
}

/// A credential is asked of the provider that the outcome is told of, for the
/// command that runs; a fixed environment of the command wins over the selected
/// one; and nothing is resolved at the start.
pub proof fn law_credential_is_for_the_command(s: RunSettings, q: MiddlewareRequest)
    ensures
        resolver_of(s, q).provider == run_of(s, q).provider,
        resolver_of(s, q).command_path == q.command_path@,
        run_of(s, q).command_path == q.command_path@,
        resolver_of(s, q).meta == q.meta@,
        run_of(s, q).meta == q.meta@,
        q.meta@.auth_metadata.dom().contains("fixed_env"@) ==> resolver_of(s, q).env
            == q.meta@.auth_metadata["fixed_env"@],
        !q.meta@.auth_metadata.dom().contains("fixed_env"@) ==> resolver_of(s, q).env == s.env@,
        q.meta@.auth_metadata.dom().contains("tier"@) ==> resolver_of(s, q).tier
            == q.meta@.auth_metadata["tier"@],
        !q.meta@.auth_metadata.dom().contains("tier"@) ==> resolver_of(s, q).tier.len() == 0,
        resolver_of(s, q).no_auth <==> run_of(s, q).auth is Never,
        run_of(s, q).auth == q.auth,
        resolver_of(s, q).credential is None,
        resolver_of(s, q).first is None,
        resolver_of(s, q).requested.len() == 0,
{
    reveal_strlit("");
}

/// The arguments of an invocation are those of the request. Only the selected
/// environment is added, under `env`: never over one that the request has, and
/// never for a command that does not authenticate. What the user gave stays as
/// it is.
pub proof fn law_arguments_are_kept(s: RunSettings, q: MiddlewareRequest, key: Seq<char>)
    ensures
        run_of(s, q).user_args == json::map_models(q.user_args@),
        ({
            let given = json::map_models(q.args@);
            let args = run_of(s, q).args;
            &&& given.dom().contains(key) ==> args.dom().contains(key) && args[key] == given[key]
            &&& !given.dom().contains(key) && args.dom().contains(key) ==> key == "env"@
                && args[key] == JsonModel::Text(s.env@) && s.env@.len() > 0 && !(q.auth is Never)
            &&& s.env@.len() > 0 && !(q.auth is Never) ==> args.dom().contains("env"@)
        }),
{
}

/// The system of a request is the one that it names; else the part of its path
/// before the first colon, which is the whole path where there is none.
pub proof fn law_system_of_a_request(s: RunSettings, q: MiddlewareRequest)
    ensures
        q.system@.len() > 0 ==> run_of(s, q).system == q.system@,
        q.system@.len() == 0 ==> {
            let system = run_of(s, q).system;
            let path = q.command_path@;
            &&& system.len() <= path.len()
            &&& system == path.take(system.len() as int)
            &&& !system.contains(':')
            &&& system.len() < path.len() ==> path[system.len() as int] == ':'
        },
{
    text::lemma_first_part(q.command_path@, ':');
}

/// The view and the default fields of an invocation are those of the request.
pub proof fn law_shape_of_the_reply_is_kept(s: RunSettings, q: MiddlewareRequest)
    ensures
        run_of(s, q).default_fields == q.default_fields@,
        q.view_id matches Some(id) ==> run_of(s, q).view_id == id@,
        q.view_id is None ==> run_of(s, q).view_id.len() == 0,
{
    reveal_strlit("");
}

/// Where an authorizer is set it is asked first, but for the schema of a
/// command that never authenticates.
pub proof fn law_authorizer_is_asked_first(s: RunSettings, run: RunText, step: Step)
    requires
        s.authorizes,
        is_first(step, s, run),
    ensures
        step is Authorize || (s.schema && run.auth is Never),
        s.schema && run.auth is Never ==> step is Finish,
{
}

/// Without an authorizer, a schema or a dry run, a command goes straight to its
/// handler, or to its credential where it requires one. The same holds of a
/// command that the authorizer let pass.
pub proof fn law_passed_commands_run(
    s: RunSettings,
    run: RunText,
    step: Step,
    seen: Option<CredentialText>,
)
    requires
        !s.schema,
        !s.dry_run || !run.meta.dry_run_prompt || run.meta.handles_dry_run,
        (!s.authorizes && is_first(step, s, run)) || is_authorized(step, s, run, Ok(()), seen),
    ensures
        run.auth is Required ==> step is Resolve,
        !(run.auth is Required) ==> step is Handle,
{
}

/// A command that the authorizer did not let pass ends with the authorizer's
/// error, which is answered, audited and told; its handler never runs.
pub proof fn law_denied_command_ends(
    s: RunSettings,
    run: RunText,
    err: CliCoreError,
    seen: Option<CredentialText>,
    step: Step,
)
    requires
        is_authorized(step, s, run, Err(err), seen),
    ensures
        step matches Step::Finish(f) && {
            &&& f.reply matches Reply::Failure { error, system, identity } && error == err
                && system@ == run.command_path && (seen matches Some(c) ==> identity@ == c.identity)
            &&& f.audit matches Some(a) && (seen matches Some(c) ==> a.identity@ == c.identity) && (
            seen is None ==> a.identity@.len() == 0) && a.result@ == (if error::is_auth_spec(err) {
                "auth-error"@
            } else {
                "denied"@
            })
            &&& f.activity matches Some(b) && b.error@ == error::display_spec(err) && b.status@
                == f.audit->0.result@ && b.backend@ == (if error::is_auth_spec(err) {
                run.provider
            } else {
                run.command_path
            })
        },
{
}

/// A command whose credential could not be resolved ends with that error, which
/// is told of its provider; the handler runs where it could.
pub proof fn law_unresolved_command_ends(
    run: RunText,
    outcome: Result<(), CliCoreError>,
    step: Step,
)
    requires
        is_resolved(step, run, outcome),
    ensures
        step is Handle <==> outcome is Ok,
        outcome matches Err(err) ==> (step matches Step::Finish(f) && {
            &&& f.reply matches Reply::Failure { error, system, identity } && error == err
                && system@ == run.command_path && identity@.len() == 0
            &&& f.audit matches Some(a) && a.result@ == "auth-error"@ && a.identity@.len() == 0
            &&& f.activity matches Some(b) && b.status@ == "auth-error"@ && b.backend@
                == run.provider && b.error@ == error::display_spec(err)
        }),
{
}

/// What the handler returns is what is answered, under the system of the
/// command and with its own follow-up actions, and is audited for the identity
/// of the credential that was resolved.
pub proof fn law_handler_result_is_answered(
    f: Finish,
    s: RunSettings,
    run: RunText,
    result: CommandResult,
    seen: Option<CredentialText>,
)
    requires
        is_handled(f, s, run, Ok(result), seen),
    ensures
        f.reply matches Reply::Data {
            data,
            system,
            next_actions,
            dry_run,
            default_fields,
            view_id,
            identity,
        } && {
            &&& data@ == result@.data
            &&& system@ == run.system
            &&& envelope::action_texts(next_actions@) == result@.next_actions
            &&& dry_run <==> s.dry_run && result@.dry_run
            &&& default_fields@ == run.default_fields
            &&& view_id@ == run.view_id
            &&& seen matches Some(c) ==> identity@ == c.identity
            &&& seen is None ==> identity@.len() == 0
        },
        f.audit matches Some(a) && (seen matches Some(c) ==> a.identity@ == c.identity) && a.result@
            == (if s.dry_run && result@.dry_run {
            "dry-run"@
        } else {
            "ok"@
        }),
        f.activity matches Some(b) && b.status@ == f.audit->0.result@ && b.backend@ == run.system
            && b.error@.len() == 0,
{
}

/// An error of the handler is answered as it is. One of authentication is told
/// of the provider and answered for the command; any other is attributed, in
/// both, to the system that it names, else to that of the command.
pub proof fn law_handler_error_is_answered(
    f: Finish,
    s: RunSettings,
    run: RunText,
    err: CliCoreError,
    seen: Option<CredentialText>,
)
    requires
        is_handled(f, s, run, Err(err), seen),
    ensures
        f.reply matches Reply::Failure { error, system, identity } && f.audit matches Some(a)
            && f.activity matches Some(b) && {
            &&& error == err
            &&& seen matches Some(c) ==> identity@ == c.identity && a.identity@ == c.identity
            &&& seen is None ==> identity@.len() == 0 && a.identity@.len() == 0
            &&& b.error@ == error::display_spec(err)
            &&& b.status@ == a.result@
            &&& error::is_auth_spec(err) ==> a.result@ == "auth-error"@ && b.backend@
                == run.provider && system@ == run.command_path
            &&& !error::is_auth_spec(err) ==> a.result@ == "error"@ && b.backend@ == system@ && (
            error::system_of_spec(err) matches Some(named) ==> system@ == named) && (
            error::system_of_spec(err) is None ==> system@ == run.system)
        },
{
}

/// A dry run that ran nothing answers with the path of the command and says
/// that it was dry.
pub proof fn law_dry_run_says_so(s: RunSettings, run: RunText, identity: Seq<char>, step: Step)
    requires
        !s.schema,
        s.dry_run,
        run.meta.dry_run_prompt,
        !run.meta.handles_dry_run,
        is_passed(step, s, run, identity),
    ensures
        step matches Step::Finish(f) && {
            &&& f.reply matches Reply::Data { data, dry_run, identity: i, .. } && dry_run && i@
                == identity && json::member(data@, "command"@) == Some(
                JsonModel::Text(run.command_path),
            ) && json::member(data@, "action"@) == Some(JsonModel::Text("dry-run: would execute"@))
            &&& f.audit matches Some(a) && a.result@ == "dry-run"@ && a.identity@ == identity
            &&& f.activity matches Some(b) && b.status@ == "dry-run"@ && b.backend@
                == run.command_path
        },
{
    reveal_strlit("command");
    reveal_strlit("action");
    assert("command"@.len() == 7);
    assert("action"@.len() == 6);
}

/// A schema that is asked for is answered, and nothing is audited or told.
pub proof fn law_schema_is_not_traced(s: RunSettings, run: RunText, identity: Seq<char>, step: Step)
    requires
        s.schema,
        is_passed(step, s, run, identity),
    ensures
        step matches Step::Finish(f) && f.audit is None && f.activity is None && (f.reply matches
            Reply::Schema { identity: i } && i@ == identity),
{
}

/// A request that never authenticates has what it was made with, and is started
/// without a credential and without the environment among its arguments.
pub proof fn law_open_requests_have_no_credential(
    s: RunSettings,
    q: MiddlewareRequest,
    meta: CommandMeta,
    command_path: String,
    user_args: ValueMap,
    args: ValueMap,
    default_fields: String,
)
    requires
        is_open_request(q, meta, command_path, user_args, args, default_fields),
    ensures
        resolver_of(s, q).no_auth,
        run_of(s, q).args == json::map_models(args@),
        run_of(s, q).user_args == json::map_models(user_args@),
        run_of(s, q).command_path == command_path@,
        run_of(s, q).meta == meta@,
        run_of(s, q).default_fields == default_fields@,
        run_of(s, q).view_id.len() == 0,
        run_of(s, q).auth is Never,
{
    reveal_strlit("");
}

} // verus!
