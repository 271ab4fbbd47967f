//! From the answer of an invocation to the envelope that is rendered.
use crate::auth::credential::{Credential, CredentialText};
use crate::cli::run::CliRunOutput;
use crate::error::{exit_code_for_error, CliCoreError};
use crate::error;
use crate::json::{Json, JsonModel};
use crate::json;
use crate::middleware::meta::ValueMap;
use crate::middleware::run;
use crate::ordmap::StringMap;
use crate::output::envelope::{
    build_error_envelope, now_timestamp, ActionText, Envelope, EnvelopeText, MetadataText,
    NextAction,
};
use crate::output::envelope;
use crate::output::formats::{parse_output_format, OutputFormat};
use crate::output::formats;
use crate::output::human::{HumanViewRegistry, ViewsText};
use crate::output::pipeline::{apply_steps, PipelineOpts};
use crate::output::pipeline;
use crate::output::schema::{no_schema_response, FieldInfo, FieldText, SchemaInfo, SchemaRegistry, SchemaText};
use crate::output::schema;
use vstd::prelude::*;
use vstd::string::*;

verus! {

/// What the middleware is set to when it renders.
pub struct RenderSettings {
    /// Application id used in output metadata.
    pub app_id: String,
    /// Output format: `json`, `human`, or `toon`.
    pub output_format: String,
    /// Selected environment.
    pub env: String,
    /// Metadata verbosity selector.
    pub verbose: String,
    /// User field projection.
    pub fields: String,
    /// JMESPath per-item list predicate.
    pub filter: String,
    /// JMESPath whole-result expression.
    pub expr: String,
    /// Client-side page size.
    pub limit: i64,
    /// Client-side page offset.
    pub offset: i64,
}

/// A field summary as JSON.
pub open spec fn field_members(f: FieldText) -> Map<Seq<char>, JsonModel> {
    Map::<Seq<char>, JsonModel>::empty().insert("name"@, JsonModel::Text(f.name)).insert(
        "type"@,
        JsonModel::Text(f.field_type),
    ).insert("optional"@, JsonModel::Bool(f.optional))
}

/// Field summaries as JSON.
pub open spec fn fields_model(fields: Seq<FieldText>) -> Seq<JsonModel> {
    fields.map_values(|f: FieldText| JsonModel::Object(field_members(f)))
}

/// Schema information as JSON: without fields where there are none, and without
/// schema where there is none.
pub open spec fn schema_members(s: SchemaText) -> Map<Seq<char>, JsonModel> {
    let command = Map::<Seq<char>, JsonModel>::empty().insert(
        "command"@,
        JsonModel::Text(s.command),
    );
    let with_fields = if s.fields.len() == 0 {
        command
    } else {
        command.insert("fields"@, JsonModel::Array(fields_model(s.fields)))
    };
    match s.schema {
        Some(v) => with_fields.insert("schema"@, v),
        None => with_fields,
    }
}

fn field_json(f: &FieldInfo) -> (r: Json)
    ensures
        r@ == JsonModel::Object(field_members(f@)),
{
    broadcast use json::group_json;

    let mut members: StringMap<Json> = StringMap::new();
    members.insert("name".to_owned(), Json::from_text(f.name.as_str()));
    members.insert("type".to_owned(), Json::from_text(f.field_type.as_str()));
    members.insert("optional".to_owned(), Json::Bool(f.optional));
    assert(json::map_models(members@) =~= field_members(f@));
    Json::Object(members)
}

/// Schema information as JSON.
pub fn schema_json(info: &SchemaInfo) -> (r: Json)
    ensures
        r@ == JsonModel::Object(schema_members(info@)),
{
    broadcast use json::group_json;

    let mut members: StringMap<Json> = StringMap::new();
    members.insert("command".to_owned(), Json::from_text(info.command.as_str()));
    let ghost mut model = Map::<Seq<char>, JsonModel>::empty().insert(
        "command"@,
        JsonModel::Text(info@.command),
    );
    assert(json::map_models(members@) =~= model);
    if info.fields.len() > 0 {
        let mut fields: Vec<Json> = Vec::new();
        let mut i: usize = 0;
        while i < info.fields.len()
            invariant
                i <= info.fields@.len(),
                fields@.len() == i,
                forall|k: int|
                    0 <= k < i ==> (#[trigger] fields@[k])@ == JsonModel::Object(
                        field_members(info.fields@[k]@),
                    ),
            decreases info.fields@.len() - i,
        {
            fields.push(field_json(&info.fields[i]));
            i = i + 1;
        }
        assert(json::models(fields@) =~= fields_model(info@.fields));
        members.insert("fields".to_owned(), Json::Array(fields));
        proof {
            model = model.insert("fields"@, JsonModel::Array(fields_model(info@.fields)));
            assert(json::map_models(members@) =~= model);
        }
    }
    match &info.schema {
        Some(v) => {
            members.insert("schema".to_owned(), v.copy());
            proof {
                model = model.insert("schema"@, v@);
                assert(json::map_models(members@) =~= model);
            }
        },
        None => {},
    }
    Json::Object(members)
}

/// The answer to `--schema` for what a registry found.
pub open spec fn schema_answer(found: Option<SchemaText>, path: Seq<char>) -> JsonModel {
    match found {
        Some(s) => JsonModel::Object(schema_members(s)),
        None => JsonModel::Object(schema::no_schema(path)),
    }
}

/// The data that answer `--schema` for a command.
pub fn schema_data(schemas: &SchemaRegistry, path: &str) -> (r: Json)
    ensures
        exists|found: Option<SchemaText>| #[trigger]
            schema::is_found(schemas@, path@, found) && r@ == schema_answer(found, path@),
{
    let found = schemas.get_by_path(path);
    let ghost f = schema::found_text(found);
    assert(schema::is_found(schemas@, path@, f));
    match found {
        Some(info) => schema_json(&info),
        None => no_schema_response(path),
    }
}

/// Data in an envelope, with follow-up actions and the mark of a dry run.
pub open spec fn data_envelope(
    data: JsonModel,
    system: Seq<char>,
    timestamp: Seq<char>,
    actions: Seq<ActionText>,
    dry_run: bool,
) -> EnvelopeText {
    let m = envelope::fresh_metadata(system, timestamp);
    EnvelopeText {
        metadata: Some(
            if dry_run {
                MetadataText { dry_run: true, ..m }
            } else {
                m
            },
        ),
        next_actions: actions,
        ..envelope::plain_envelope(Some(data), m, None, None)
    }
}

/// Puts data in an envelope.
pub fn build_data_envelope(
    data: Json,
    system: &str,
    actions: Vec<NextAction>,
    dry_run: bool,
) -> (r: Envelope)
    ensures
        r.metadata matches Some(m) && r@ == data_envelope(
            data@,
            system@,
            m.timestamp@,
            envelope::action_texts(actions@),
            dry_run,
        ),
{
    let e = Envelope::success(data, system);
    let ghost m = e.metadata->0;
    let e = e.with_next_actions(actions);
    let e = if dry_run {
        e.with_dry_run()
    } else {
        e
    };
    assert(e@.metadata->0.timestamp == m.timestamp@);
    assert(e@ =~= data_envelope(
        data@,
        system@,
        m.timestamp@,
        envelope::action_texts(actions@),
        dry_run,
    ));
    e
}

/// The field selection that counts: an explicit one wins over the default of
/// the command.
pub open spec fn effective_fields_spec(fields: Seq<char>, default_fields: Seq<char>) -> Seq<char> {
    if fields.len() == 0 {
        default_fields
    } else {
        fields
    }
}

/// A human view is shown: then the selection narrows its columns, and the data
/// is not projected.
pub open spec fn shows_view(format: OutputFormat, views: ViewsText, view_id: Seq<char>) -> bool {
    format is Human && (views.columns.dom().contains(view_id) || views.custom.dom().contains(
        view_id,
    ))
}

/// An envelope whose data went through the pipeline.
pub struct Staged {
    /// The envelope.
    pub envelope: Envelope,
    /// The format to render in.
    pub format: OutputFormat,
    /// The field selection that counts.
    pub fields: String,
    /// The projection that the data still has to go through, empty where there
    /// is none.
    pub projection: String,
}

/// The options of the pipeline.
pub open spec fn is_pipeline(opts: PipelineOpts, s: RenderSettings) -> bool {
    opts.filter@ == s.filter@ && opts.limit == s.limit && opts.offset == s.offset && opts.expr@
        == s.expr@
}

/// The envelope after its data went through the pipeline.
pub open spec fn piped(e: EnvelopeText, opts: PipelineOpts) -> EnvelopeText {
    match e.data {
        None => e,
        Some(data) => EnvelopeText {
            data: Some(pipeline::after_expr(data, opts).data),
            metadata: match (pipeline::pipeline_meta(data, opts), e.metadata) {
                (Some(p), Some(m)) => Some(MetadataText { pagination: Some(p), ..m }),
                _ => e.metadata,
            },
            ..e
        },
    }
}

/// Why the data did not go through the pipeline.
pub open spec fn pipe_failure(e: EnvelopeText, opts: PipelineOpts) -> Option<Seq<char>> {
    match e.data {
        None => None,
        Some(data) => pipeline::after_expr(data, opts).failure,
    }
}

/// The outcome of staging an envelope.
pub open spec fn is_staged(
    r: Result<Staged, CliCoreError>,
    s: RenderSettings,
    views: ViewsText,
    e: EnvelopeText,
    default_fields: Seq<char>,
    view_id: Seq<char>,
    opts: PipelineOpts,
) -> bool {
    match formats::named_format(s.output_format@) {
        None => r matches Err(CliCoreError::InvalidOutputFormat(f)) && f@ == s.output_format@,
        Some(format) => match pipe_failure(e, opts) {
            Some(m) => r matches Err(err) && error::is_message(err, m),
            None => r matches Ok(staged) && {
                &&& staged.envelope@ == piped(e, opts)
                &&& staged.format == format
                &&& staged.fields@ == effective_fields_spec(s.fields@, default_fields)
                &&& staged.projection@ == (if shows_view(format, views, view_id) {
                    Seq::empty()
                } else {
                    effective_fields_spec(s.fields@, default_fields)
                })
            },
        },
    }
}

/// Takes the data of an envelope through the pipeline, up to the projection.
///
/// The effective field selection is the explicit one, otherwise the command's
/// default. With a registered human view it narrows which of the view's columns
/// show, so the view reads the full payload. Everywhere else it projects the
/// output data.
pub fn stage_envelope(
    s: &RenderSettings,
    views: &HumanViewRegistry,
    e: Envelope,
    default_fields: &str,
    view_id: &str,
) -> (r: Result<Staged, CliCoreError>)
    ensures
        exists|opts: PipelineOpts| #[trigger]
            is_pipeline(opts, *s) && is_staged(
                r,
                *s,
                views@,
                e@,
                default_fields@,
                view_id@,
                opts,
            ),
{
    let opts = PipelineOpts {
        filter: s.filter.clone(),
        limit: s.limit,
        offset: s.offset,
        expr: s.expr.clone(),
        fields: String::new(),
    };
    assert(is_pipeline(opts, *s));
    let format = match parse_output_format(s.output_format.as_str()) {
        None => {
            return Err(CliCoreError::InvalidOutputFormat(s.output_format.clone()));
        },
        Some(f) => f,
    };
    let fields = if s.fields.as_str().is_empty() {
        default_fields.to_owned()
    } else {
        s.fields.clone()
    };
    let human = match format {
        OutputFormat::Human => true,
        _ => false,
    };
    let projection = if human && views.has_view(view_id) {
        String::new()
    } else {
        fields.clone()
    };
    proof {
        if human && shows_view(format, views@, view_id@) {
            assert(projection@ =~= Seq::empty());
        }
    }
    let mut out = e;
    match out.data {
        None => {},
        Some(data) => {
            let mut data = data;
            match apply_steps(&mut data, &opts) {
                Err(err) => {
                    return Err(err);
                },
                Ok(meta) => {
                    out.data = Some(data);
                    if meta.is_some() {
                        out = out.with_pagination(meta);
                    }
                },
            }
        },
    }
    assert(out@ =~= piped(e@, opts));
    Ok(Staged { envelope: out, format, fields, projection })
}

/// The envelope with its context, prepared for rendering.
pub open spec fn finished(
    e: EnvelopeText,
    s: RenderSettings,
    command: Seq<char>,
    identity: Seq<char>,
    duration: Seq<char>,
    user_args: Map<Seq<char>, JsonModel>,
    args: Map<Seq<char>, JsonModel>,
) -> EnvelopeText {
    envelope::prepared(
        envelope::in_context(
            e,
            command,
            s.env@,
            identity,
            duration,
            Some(JsonModel::Object(user_args)),
            Some(JsonModel::Object(args)),
        ),
        s.verbose@,
    )
}

/// Adds the context of the invocation to an envelope and prepares it for
/// rendering.
pub fn finish_envelope(
    e: Envelope,
    s: &RenderSettings,
    command: &str,
    identity: &str,
    duration: &str,
    user_args: &ValueMap,
    args: &ValueMap,
) -> (r: Envelope)
    ensures
        r@ == finished(
            e@,
            *s,
            command@,
            identity@,
            duration@,
            json::map_models(user_args@),
            json::map_models(args@),
        ),
{
    broadcast use json::group_json;

    let given = Json::Object(json::copy_members(user_args));
    let effective = Json::Object(json::copy_members(args));
    let e = e.with_context(
        command,
        s.env.as_str(),
        identity,
        duration,
        Some(given),
        Some(effective),
    );
    e.prepare_for_render(s.verbose.as_str())
}

/// The envelope of an error, with the context of the invocation and prepared
/// for rendering.
pub fn failure_envelope(
    err: &CliCoreError,
    system: &str,
    s: &RenderSettings,
    identity: &str,
    duration: &str,
    user_args: &ValueMap,
    args: &ValueMap,
) -> (r: Envelope)
    ensures
        exists|timestamp: Seq<char>|
            r@ == #[trigger] finished(
                error_text(*err, system@, timestamp),
                *s,
                ""@,
                identity@,
                duration@,
                json::map_models(user_args@),
                json::map_models(args@),
            ),
{
    let e = build_error_envelope(err, system);
    let ghost timestamp = e.metadata->0.timestamp@;
    assert(e@ == error_text(*err, system@, timestamp));
    finish_envelope(e, s, "", identity, duration, user_args, args)
}

/// The envelope of an error at a time.
pub open spec fn error_text(
    err: CliCoreError,
    system: Seq<char>,
    timestamp: Seq<char>,
) -> EnvelopeText {
    let d = envelope::shown_details(err, system);
    envelope::error_envelope_text(
        d.code,
        error::display_spec(err),
        d.system,
        d.request_id,
        timestamp,
    )
}

/// Structured activity event emitted after command execution paths.
pub struct ActivityEvent {
    /// UTC timestamp in RFC3339 seconds format.
    pub timestamp: String,
    /// CLI application id.
    pub app: String,
    /// Colon-separated command path.
    pub command: String,
    /// Selected environment.
    pub env: String,
    /// Backend/system id.
    pub backend: String,
    /// Human identity from the resolved credential.
    pub identity: String,
    /// Subject identifier from the resolved credential.
    pub sub: String,
    /// Account type from the resolved credential.
    pub account_type: String,
    /// Outcome such as `ok`, `error`, `denied`, `auth-error`, or `dry-run`.
    pub status: String,
    /// Error message for failed outcomes.
    pub error: String,
    /// User-provided reason.
    pub reason: String,
    /// Effective command args.
    pub args: ValueMap,
    /// Command duration in milliseconds.
    pub duration_ms: i64,
    /// Reserved extension metadata.
    pub meta: ValueMap,
}

/// A duration in milliseconds, at most the largest that the event can hold.
pub open spec fn capped_millis(millis: u128) -> i64 {
    if millis > i64::MAX {
        i64::MAX
    } else {
        millis as i64
    }
}

/// What an activity event says, but for its time.
#[verifier::ext_equal]
pub struct EventText {
    /// CLI application id.
    pub app: Seq<char>,
    /// Colon-separated command path.
    pub command: Seq<char>,
    /// Selected environment.
    pub env: Seq<char>,
    /// Backend/system id.
    pub backend: Seq<char>,
    /// Human identity from the resolved credential.
    pub identity: Seq<char>,
    /// Subject identifier from the resolved credential.
    pub sub: Seq<char>,
    /// Account type from the resolved credential.
    pub account_type: Seq<char>,
    /// Outcome.
    pub status: Seq<char>,
    /// Error message for failed outcomes.
    pub error: Seq<char>,
    /// User-provided reason.
    pub reason: Seq<char>,
    /// Effective command args.
    pub args: Map<Seq<char>, JsonModel>,
    /// Command duration in milliseconds.
    pub duration_ms: i64,
    /// Reserved extension metadata.
    pub meta: Map<Seq<char>, JsonModel>,
}

impl View for ActivityEvent {
    type V = EventText;

    open spec fn view(&self) -> EventText {
        EventText {
            app: self.app@,
            command: self.command@,
            env: self.env@,
            backend: self.backend@,
            identity: self.identity@,
            sub: self.sub@,
            account_type: self.account_type@,
            status: self.status@,
            error: self.error@,
            reason: self.reason@,
            args: json::map_models(self.args@),
            duration_ms: self.duration_ms,
            meta: json::map_models(self.meta@),
        }
    }
}

/// The event of an invocation.
pub open spec fn event_of(
    app: Seq<char>,
    env: Seq<char>,
    reason: Seq<char>,
    command: Seq<char>,
    args: Map<Seq<char>, JsonModel>,
    seen: Option<CredentialText>,
    status: Seq<char>,
    backend: Seq<char>,
    error: Seq<char>,
    millis: u128,
) -> EventText {
    EventText {
        app,
        command,
        env,
        backend,
        identity: match seen {
            Some(c) => c.identity,
            None => Seq::empty(),
        },
        sub: match seen {
            Some(c) => c.sub,
            None => Seq::empty(),
        },
        account_type: match seen {
            Some(c) => c.account_type,
            None => Seq::empty(),
        },
        status,
        error,
        reason,
        args,
        duration_ms: capped_millis(millis),
        meta: Map::empty(),
    }
}

/// Builds the activity event of an invocation that took `millis` milliseconds.
pub fn activity_event(
    app_id: &str,
    env: &str,
    reason: &str,
    command_path: &str,
    args: &ValueMap,
    seen: Option<&Credential>,
    status: &str,
    backend: &str,
    error: &str,
    millis: u128,
) -> (r: ActivityEvent)
    ensures
        r@ == event_of(
            app_id@,
            env@,
            reason@,
            command_path@,
            json::map_models(args@),
            run::opt_seen(seen),
            status@,
            backend@,
            error@,
            millis,
        ),
{
    let duration_ms: i64 = if millis > i64::MAX as u128 {
        i64::MAX
    } else {
        millis as i64
    };
    let (identity, sub, account_type) = match seen {
        Some(c) => (c.identity.clone(), c.sub.clone(), c.account_type.clone()),
        None => (String::new(), String::new(), String::new()),
    };
    let r = ActivityEvent {
        timestamp: now_timestamp(),
        app: app_id.to_owned(),
        command: command_path.to_owned(),
        env: env.to_owned(),
        backend: backend.to_owned(),
        identity,
        sub,
        account_type,
        status: status.to_owned(),
        error: error.to_owned(),
        reason: reason.to_owned(),
        args: json::copy_members(args),
        duration_ms,
        meta: StringMap::new(),
    };
    assert(r@.meta =~= Map::<Seq<char>, JsonModel>::empty());
    assert(r@ =~= event_of(
        app_id@,
        env@,
        reason@,
        command_path@,
        json::map_models(args@),
        run::opt_seen(seen),
        status@,
        backend@,
        error@,
        millis,
    ));
    r
}

/// What is shown after an envelope was staged.
pub enum Showing {
    /// The envelope.
    Page(Staged),
    /// The page of an error.
    ErrorPage(CliCoreError),
    /// Nothing: the error goes to the caller.
    Nothing(CliCoreError),
}

/// What is shown after an envelope was staged: an unknown output format has a
/// page of its own, any other error goes to the caller.
pub open spec fn showing_of(staged: Result<Staged, CliCoreError>) -> Showing {
    match staged {
        Ok(s) => Showing::Page(s),
        Err(CliCoreError::InvalidOutputFormat(f)) => Showing::ErrorPage(
            CliCoreError::InvalidOutputFormat(f),
        ),
        Err(e) => Showing::Nothing(e),
    }
}

/// Decides what is shown after an envelope was staged: an unknown output format
/// has a page of its own, any other error goes to the caller.
pub fn after_staging(staged: Result<Staged, CliCoreError>) -> (r: Showing)
    ensures
        r == showing_of(staged),
{
    match staged {
        Ok(s) => Showing::Page(s),
        Err(CliCoreError::InvalidOutputFormat(f)) => Showing::ErrorPage(
            CliCoreError::InvalidOutputFormat(f),
        ),
        Err(e) => Showing::Nothing(e),
    }
}

/// The exit code of a page that was rendered.
pub open spec fn shown_code(failure: Option<&CliCoreError>) -> i32 {
    match failure {
        Some(e) => error::exit_code_of(*e),
        None => 0,
    }
}

/// The output of a page that was rendered: that of an error ends with the exit
/// code of the error, any other with 0.
pub fn shown(rendered: String, failure: Option<&CliCoreError>) -> (r: CliRunOutput)
    ensures
        r.rendered == rendered,
        r.exit_code == shown_code(failure),
{
    let exit_code: i32 = match failure {
        Some(e) => exit_code_for_error(e),
        None => 0,
    };
    CliRunOutput { exit_code, rendered }
}

/// The event of an invocation tells what it was told, each under its own name,
/// and who ran it as far as a credential says. A duration is never more than
/// what it was.
pub proof fn law_event_tells_the_invocation(
    app: Seq<char>,
    env: Seq<char>,
    reason: Seq<char>,
    command: Seq<char>,
    args: Map<Seq<char>, JsonModel>,
    seen: Option<CredentialText>,
    status: Seq<char>,
    backend: Seq<char>,
    error: Seq<char>,
    millis: u128,
)
    ensures
        ({
            let e = event_of(
                app,
                env,
                reason,
                command,
                args,
                seen,
                status,
                backend,
                error,
                millis,
            );
            &&& e.app == app && e.env == env && e.reason == reason && e.command == command
            &&& e.args == args && e.status == status && e.backend == backend && e.error == error
            &&& seen matches Some(c) ==> e.identity == c.identity && e.sub == c.sub
                && e.account_type == c.account_type
            &&& seen is None ==> e.identity.len() == 0 && e.sub.len() == 0 && e.account_type.len()
                == 0
            &&& millis <= i64::MAX ==> e.duration_ms == millis
            &&& 0 <= e.duration_ms <= millis
            &&& e.meta.dom() =~= Set::<Seq<char>>::empty()
        }),
{
}

/// An envelope is finished with the context of its invocation and keeps what it
/// says: with all metadata wanted it tells the command, the environment, the
/// identity, the duration, and what the user gave apart from what was in
/// effect; with none it tells no metadata.
pub proof fn law_finished_envelope_tells_its_context(
    e: EnvelopeText,
    s: RenderSettings,
    command: Seq<char>,
    identity: Seq<char>,
    duration: Seq<char>,
    user_args: Map<Seq<char>, JsonModel>,
    args: Map<Seq<char>, JsonModel>,
)
    ensures
        ({
            let f = finished(e, s, command, identity, duration, user_args, args);
            &&& f.data == e.data && f.error == e.error && f.warnings == e.warnings
                && f.next_actions == e.next_actions
            &&& s.verbose@.len() == 0 ==> f.metadata is None
            &&& s.verbose@ == "all"@ ==> (e.metadata matches Some(m) ==> (f.metadata matches Some(n)
                && {
                &&& n.command == command
                &&& n.env == s.env@
                &&& n.identity == identity
                &&& n.duration == duration
                &&& n.args == Some(JsonModel::Object(user_args))
                &&& n.effective_args == Some(JsonModel::Object(args))
                &&& n.system == m.system
                &&& n.timestamp == m.timestamp
                &&& n.request_id == m.request_id
                &&& n.dry_run == m.dry_run
                &&& n.pagination == m.pagination
            }))
        }),
{
    reveal_strlit("all");
}

/// Data that were put in an envelope are its data, of the given system, and the
/// mark of a dry run stands exactly where it was one.
pub proof fn law_data_envelope_holds_the_data(
    data: JsonModel,
    system: Seq<char>,
    timestamp: Seq<char>,
    actions: Seq<ActionText>,
    dry_run: bool,
)
    ensures
        ({
            let e = data_envelope(data, system, timestamp, actions, dry_run);
            &&& e.data == Some(data)
            &&& e.error is None
            &&& e.serialization_error is None
            &&& e.warnings.len() == 0
            &&& e.next_actions == actions
            &&& e.metadata matches Some(m) && m.system == system && m.timestamp == timestamp
                && m.dry_run == dry_run && m.pagination is None
        }),
{
}

/// An unknown output format is refused before anything else, and with the name
/// that was given.
pub proof fn law_unknown_format_is_refused(
    r: Result<Staged, CliCoreError>,
    s: RenderSettings,
    views: ViewsText,
    e: EnvelopeText,
    default_fields: Seq<char>,
    view_id: Seq<char>,
    opts: PipelineOpts,
)
    requires
        is_staged(r, s, views, e, default_fields, view_id, opts),
        formats::named_format(s.output_format@) is None,
    ensures
        r matches Err(CliCoreError::InvalidOutputFormat(f)) && f@ == s.output_format@,
        showing_of(r) is ErrorPage,
{
}

/// A staged envelope holds what the pipeline leaves of the data, and all else as
/// it was, but for what is told about the page. The fields that the user asked
/// for win over those of the command, and project the data wherever no view
/// shows them.
pub proof fn law_staged_envelope(
    r: Result<Staged, CliCoreError>,
    s: RenderSettings,
    views: ViewsText,
    e: EnvelopeText,
    default_fields: Seq<char>,
    view_id: Seq<char>,
    opts: PipelineOpts,
    data: JsonModel,
)
    requires
        is_staged(r, s, views, e, default_fields, view_id, opts),
        formats::named_format(s.output_format@) is Some,
        e.data == Some(data),
    ensures
        pipeline::after_expr(data, opts).failure is Some ==> r is Err,
        pipeline::after_expr(data, opts).failure is None ==> (r matches Ok(staged) && {
            &&& staged.envelope@.data == Some(pipeline::after_expr(data, opts).data)
            &&& staged.envelope@.error == e.error
            &&& staged.envelope@.next_actions == e.next_actions
            &&& Some(staged.format) == formats::named_format(s.output_format@)
            &&& s.fields@.len() > 0 ==> staged.fields@ == s.fields@
            &&& s.fields@.len() == 0 ==> staged.fields@ == default_fields
            &&& !(staged.format is Human) ==> staged.projection@ == staged.fields@
            &&& staged.format is Human && (views.columns.dom().contains(view_id)
                || views.custom.dom().contains(view_id)) ==> staged.projection@.len() == 0
            &&& !views.columns.dom().contains(view_id) && !views.custom.dom().contains(view_id)
                ==> staged.projection@ == staged.fields@
            &&& pipeline::pipeline_meta(data, opts) matches Some(p) ==> (e.metadata is Some ==> (
            staged.envelope@.metadata matches Some(m) && m.pagination == Some(p)))
            &&& pipeline::pipeline_meta(data, opts) is None ==> staged.envelope@.metadata
                == e.metadata
        }),
{
}

/// The pipeline of an envelope is set by the options of the user, each in its
/// own place.
pub proof fn law_pipeline_follows_the_settings(opts: PipelineOpts, s: RenderSettings)
    requires
        is_pipeline(opts, s),
    ensures
        opts.filter@ == s.filter@,
        opts.expr@ == s.expr@,
        opts.limit == s.limit,
        opts.offset == s.offset,
{
}

/// An error without data passes the pipeline as it is.
pub proof fn law_errors_pass_the_pipeline(
    r: Result<Staged, CliCoreError>,
    s: RenderSettings,
    views: ViewsText,
    e: EnvelopeText,
    default_fields: Seq<char>,
    view_id: Seq<char>,
    opts: PipelineOpts,
)
    requires
        is_staged(r, s, views, e, default_fields, view_id, opts),
        formats::named_format(s.output_format@) is Some,
        e.data is None,
    ensures
        r matches Ok(staged) && staged.envelope@ == e,
{
}

/// What was staged is shown, and of the errors only that of the format has a
/// page.
pub proof fn law_staged_is_shown(staged: Result<Staged, CliCoreError>)
    ensures
        staged matches Ok(s) ==> showing_of(staged) == Showing::Page(s),
        staged matches Err(e) ==> if e is InvalidOutputFormat {
            showing_of(staged) == Showing::ErrorPage(e)
        } else {
            showing_of(staged) == Showing::Nothing(e)
        },
{
}

/// A page without an error exits with success, and the page of an error with
/// the code of that error.
pub proof fn law_exit_code_of_a_page(failure: CliCoreError)
    ensures
        shown_code(None) == 0,
        shown_code(Some(&failure)) == error::exit_code_of(failure),
{
}

/// The answer to a request for a schema names the command, and has its fields
/// and its schema exactly where there are some.
pub proof fn law_schema_answer(s: SchemaText, path: Seq<char>, i: int)
    ensures
        ({
            let answer = schema_answer(Some(s), path);
            &&& json::member(answer, "command"@) == Some(JsonModel::Text(s.command))
            &&& json::member(answer, "schema"@) == s.schema
            &&& s.fields.len() == 0 ==> json::member(answer, "fields"@) is None
            &&& s.fields.len() > 0 ==> (json::member(answer, "fields"@) matches Some(
                JsonModel::Array(items),
            ) && items.len() == s.fields.len() && (0 <= i < items.len() ==> {
                &&& json::member(items[i], "name"@) == Some(JsonModel::Text(s.fields[i].name))
                &&& json::member(items[i], "type"@) == Some(
                    JsonModel::Text(s.fields[i].field_type),
                )
                &&& json::member(items[i], "optional"@) == Some(
                    JsonModel::Bool(s.fields[i].optional),
                )
            }))
        }),
{
    reveal_strlit("command");
    reveal_strlit("schema");
    reveal_strlit("fields");
    reveal_strlit("name");
    reveal_strlit("type");
    reveal_strlit("optional");
    assert("command"@.len() == 7);
    assert("schema"@.len() == 6 && "schema"@[0] == 's');
    assert("fields"@.len() == 6 && "fields"@[0] == 'f');
    assert("name"@.len() == 4 && "name"@[0] == 'n');
    assert("type"@.len() == 4 && "type"@[0] == 't');
    assert("optional"@.len() == 8);
}

} // verus!
