//! The envelope around the result of a command.
use crate::error::{clone_option, report_of, CliCoreError, DetailedError, ErrorReport};
use crate::error;
use crate::json::Json;
use crate::json;
use crate::json::JsonModel;
use crate::ordmap::{Duplicate, StringMap};
use crate::text;
use vstd::prelude::*;
use vstd::string::*;

verus! {

/// Top-level output envelope rendered for successful and failed commands.
pub struct Envelope {
    /// Successful command data.
    pub data: Option<Json>,
    /// Optional execution metadata, controlled by `--verbose`.
    pub metadata: Option<Metadata>,
    /// Structured error information for failed commands.
    pub error: Option<ErrorEnvelope>,
    /// Non-fatal warnings.
    pub warnings: Vec<String>,
    /// Suggested follow-up actions for the caller.
    pub next_actions: Vec<NextAction>,
    /// Why the data could not be turned into JSON.
    pub serialization_error: Option<String>,
}

/// A suggested follow-up command the caller can run next.
pub struct NextAction {
    /// Executable command template.
    pub command: String,
    /// Human-readable description of what this action does.
    pub description: String,
    /// Optional parameter hints for agent-driven invocation.
    pub params: StringMap<NextActionParam>,
}

/// Metadata hint for a parameter in a [`NextAction`] command template.
pub struct NextActionParam {
    /// Concrete value to substitute, if known.
    pub value: Option<String>,
    /// Allowed values for enumeration parameters.
    pub options: Vec<String>,
    /// Whether the parameter is required.
    pub required: bool,
    /// Default value when none is supplied.
    pub default: Option<String>,
    /// Human-readable description of this parameter.
    pub description: Option<String>,
}

/// Execution metadata attached to an [`Envelope`].
pub struct Metadata {
    /// Backend/system id.
    pub system: String,
    /// UTC timestamp in RFC3339 seconds format.
    pub timestamp: String,
    /// Optional backend request id.
    pub request_id: String,
    /// Whether the command was a dry-run response.
    pub dry_run: bool,
    /// Pagination metadata when client-side pagination ran.
    pub pagination: Option<PaginationMeta>,
    /// Colon-separated command path.
    pub command: String,
    /// Rounded command duration.
    pub duration: String,
    /// Selected environment.
    pub env: String,
    /// Authenticated identity.
    pub identity: String,
    /// User-supplied args.
    pub args: Option<Json>,
    /// Effective args after defaults and middleware injection.
    pub effective_args: Option<Json>,
}

/// Client-side pagination metadata.
#[derive(Clone, Copy, Debug, PartialEq, Eq, Structural)]
pub struct PaginationMeta {
    /// Total list items before pagination.
    pub total: i64,
    /// Applied offset.
    pub offset: i64,
    /// Applied limit.
    pub limit: i64,
    /// Item count after pagination.
    pub count: i64,
}

/// Structured error payload in an [`Envelope`].
#[derive(Debug, PartialEq, Eq)]
pub struct ErrorEnvelope {
    /// Stable error code.
    pub code: String,
    /// Human-readable error message.
    pub message: String,
    /// Optional backend/system id.
    pub system: String,
    /// Optional backend request id.
    pub request_id: String,
}

/// What a parameter hint says.
#[verifier::ext_equal]
pub struct ParamText {
    /// Concrete value.
    pub value: Option<Seq<char>>,
    /// Allowed values.
    pub options: Seq<Seq<char>>,
    /// Whether it is required.
    pub required: bool,
    /// Default value.
    pub default: Option<Seq<char>>,
    /// Description.
    pub description: Option<Seq<char>>,
}

impl View for NextActionParam {
    type V = ParamText;

    open spec fn view(&self) -> ParamText {
        ParamText {
            value: error::opt_text(self.value),
            options: text::texts(self.options@),
            required: self.required,
            default: error::opt_text(self.default),
            description: error::opt_text(self.description),
        }
    }
}

/// What a next action says.
#[verifier::ext_equal]
pub struct ActionText {
    /// Command template.
    pub command: Seq<char>,
    /// Description.
    pub description: Seq<char>,
    /// Parameter hints.
    pub params: Map<Seq<char>, ParamText>,
}

impl View for NextAction {
    type V = ActionText;

    open spec fn view(&self) -> ActionText {
        ActionText {
            command: self.command@,
            description: self.description@,
            params: self.params@.map_values(|p: NextActionParam| p@),
        }
    }
}

/// What each action of a list says.
pub open spec fn action_texts(actions: Seq<NextAction>) -> Seq<ActionText> {
    Seq::new(actions.len(), |i: int| actions[i]@)
}

/// What the metadata say.
#[verifier::ext_equal]
pub struct MetadataText {
    /// Backend/system id.
    pub system: Seq<char>,
    /// Timestamp.
    pub timestamp: Seq<char>,
    /// Request id.
    pub request_id: Seq<char>,
    /// Whether it is a dry-run response.
    pub dry_run: bool,
    /// Pagination.
    pub pagination: Option<PaginationMeta>,
    /// Command path.
    pub command: Seq<char>,
    /// Duration.
    pub duration: Seq<char>,
    /// Environment.
    pub env: Seq<char>,
    /// Identity.
    pub identity: Seq<char>,
    /// User-supplied args.
    pub args: Option<JsonModel>,
    /// Effective args.
    pub effective_args: Option<JsonModel>,
}

/// What an optional value says.
pub open spec fn opt_model(v: Option<Json>) -> Option<JsonModel> {
    match v {
        Some(value) => Some(value@),
        None => None,
    }
}

impl View for Metadata {
    type V = MetadataText;

    open spec fn view(&self) -> MetadataText {
        MetadataText {
            system: self.system@,
            timestamp: self.timestamp@,
            request_id: self.request_id@,
            dry_run: self.dry_run,
            pagination: self.pagination,
            command: self.command@,
            duration: self.duration@,
            env: self.env@,
            identity: self.identity@,
            args: opt_model(self.args),
            effective_args: opt_model(self.effective_args),
        }
    }
}

/// What an error payload says.
#[verifier::ext_equal]
pub struct ErrorText {
    /// Error code.
    pub code: Seq<char>,
    /// Message.
    pub message: Seq<char>,
    /// Backend/system id.
    pub system: Seq<char>,
    /// Request id.
    pub request_id: Seq<char>,
}

impl View for ErrorEnvelope {
    type V = ErrorText;

    open spec fn view(&self) -> ErrorText {
        ErrorText {
            code: self.code@,
            message: self.message@,
            system: self.system@,
            request_id: self.request_id@,
        }
    }
}

/// What an envelope says.
#[verifier::ext_equal]
pub struct EnvelopeText {
    /// Data.
    pub data: Option<JsonModel>,
    /// Metadata.
    pub metadata: Option<MetadataText>,
    /// Error.
    pub error: Option<ErrorText>,
    /// Warnings.
    pub warnings: Seq<Seq<char>>,
    /// Next actions.
    pub next_actions: Seq<ActionText>,
    /// Why the data could not be turned into JSON.
    pub serialization_error: Option<Seq<char>>,
}

impl View for Envelope {
    type V = EnvelopeText;

    open spec fn view(&self) -> EnvelopeText {
        EnvelopeText {
            data: opt_model(self.data),
            metadata: match self.metadata {
                Some(m) => Some(m@),
                None => None,
            },
            error: match self.error {
                Some(e) => Some(e@),
                None => None,
            },
            warnings: text::texts(self.warnings@),
            next_actions: action_texts(self.next_actions@),
            serialization_error: error::opt_text(self.serialization_error),
        }
    }
}

impl Duplicate for NextActionParam {
    open spec fn says_same(self, other: Self) -> bool {
        self@ == other@
    }

    fn duplicate(&self) -> (r: Self) {
        NextActionParam {
            value: clone_option(&self.value),
            options: text::clone_strings(&self.options),
            required: self.required,
            default: clone_option(&self.default),
            description: clone_option(&self.description),
        }
    }
}

/// A parameter hint that says nothing.
pub open spec fn blank_param() -> ParamText {
    ParamText {
        value: None,
        options: Seq::empty(),
        required: false,
        default: None,
        description: None,
    }
}

impl Default for NextActionParam {
    fn default() -> (r: Self)
        ensures
            r@ == blank_param(),
    {
        let r = NextActionParam {
            value: None,
            options: Vec::new(),
            required: false,
            default: None,
            description: None,
        };
        assert(r@ =~= blank_param());
        r
    }
}

impl NextActionParam {
    /// Creates a parameter hint with a known concrete value.
    pub fn value(value: String) -> (r: Self)
        ensures
            r@ == (ParamText { value: Some(value@), ..blank_param() }),
    {
        let r = NextActionParam {
            value: Some(value),
            options: Vec::new(),
            required: false,
            default: None,
            description: None,
        };
        assert(r@ =~= (ParamText { value: Some(value@), ..blank_param() }));
        r
    }

    /// Creates a required parameter hint.
    pub fn required() -> (r: Self)
        ensures
            r@ == (ParamText { required: true, ..blank_param() }),
    {
        let r = NextActionParam {
            value: None,
            options: Vec::new(),
            required: true,
            default: None,
            description: None,
        };
        assert(r@ =~= (ParamText { required: true, ..blank_param() }));
        r
    }
}

impl NextAction {
    /// Creates a next action with a command template and description.
    pub fn new(command: String, description: String) -> (r: Self)
        ensures
            r@ == (ActionText {
                command: command@,
                description: description@,
                params: Map::empty(),
            }),
    {
        let r = NextAction { command, description, params: StringMap::new() };
        assert(r@.params =~= Map::empty());
        r
    }

    /// Adds a parameter hint.
    pub fn with_param(self, name: String, param: NextActionParam) -> (r: Self)
        ensures
            r@ == (ActionText { params: self@.params.insert(name@, param@), ..self@ }),
    {
        let mut params = self.params;
        params.insert(name, param);
        let r = NextAction { command: self.command, description: self.description, params };
        assert(r@.params =~= self@.params.insert(name@, param@));
        r
    }

    /// Copies the action.
    pub fn copy(&self) -> (r: Self)
        ensures
            r@ == self@,
    {
        let r = NextAction {
            command: self.command.clone(),
            description: self.description.clone(),
            params: self.params.duplicate(),
        };
        assert(r@.params =~= self@.params);
        r
    }
}

/// Copies a list of actions.
pub fn copy_actions(actions: &Vec<NextAction>) -> (r: Vec<NextAction>)
    ensures
        action_texts(r@) == action_texts(actions@),
{
    let mut r: Vec<NextAction> = Vec::new();
    let mut i: usize = 0;
    while i < actions.len()
        invariant
            i <= actions@.len(),
            r@.len() == i,
            forall|k: int| 0 <= k < i ==> (#[trigger] r@[k])@ == actions@[k]@,
        decreases actions@.len() - i,
    {
        r.push(actions[i].copy());
        i = i + 1;
    }
    assert(action_texts(r@) =~= action_texts(actions@));
    r
}

/// Copies an optional value.
pub fn copy_option(v: &Option<Json>) -> (r: Option<Json>)
    ensures
        opt_model(r) == opt_model(*v),
{
    match v {
        Some(value) => Some(value.copy()),
        None => None,
    }
}

/// Metadata with nothing but a system and a timestamp.
pub open spec fn fresh_metadata(system: Seq<char>, timestamp: Seq<char>) -> MetadataText {
    MetadataText {
        system,
        timestamp,
        request_id: Seq::empty(),
        dry_run: false,
        pagination: None,
        command: Seq::empty(),
        duration: Seq::empty(),
        env: Seq::empty(),
        identity: Seq::empty(),
        args: None,
        effective_args: None,
    }
}

/// `Utc::now` and `DateTime::to_rfc3339_opts` of chrono: the time of the call
/// in UTC, in seconds. Nothing is claimed of it.
#[verifier::external_body]
pub(crate) fn now_timestamp() -> (r: String) {
    chrono::Utc::now().to_rfc3339_opts(chrono::SecondsFormat::Secs, true)
}

impl Metadata {
    /// Creates metadata with system and the present time.
    pub fn new(system: &str) -> (r: Self)
        ensures
            r@ == fresh_metadata(system@, r.timestamp@),
    {
        Metadata::at(system, now_timestamp())
    }

    /// Creates metadata with system and timestamp.
    pub fn at(system: &str, timestamp: String) -> (r: Self)
        ensures
            r@ == fresh_metadata(system@, timestamp@),
    {
        let r = Metadata {
            system: system.to_owned(),
            timestamp,
            request_id: String::new(),
            dry_run: false,
            pagination: None,
            command: String::new(),
            duration: String::new(),
            env: String::new(),
            identity: String::new(),
            args: None,
            effective_args: None,
        };
        assert(r@ =~= fresh_metadata(system@, timestamp@));
        r
    }

    /// Copies the metadata.
    pub fn copy(&self) -> (r: Self)
        ensures
            r@ == self@,
    {
        Metadata {
            system: self.system.clone(),
            timestamp: self.timestamp.clone(),
            request_id: self.request_id.clone(),
            dry_run: self.dry_run,
            pagination: self.pagination,
            command: self.command.clone(),
            duration: self.duration.clone(),
            env: self.env.clone(),
            identity: self.identity.clone(),
            args: copy_option(&self.args),
            effective_args: copy_option(&self.effective_args),
        }
    }

    /// Keeps only the fields that a comma-separated list names.
    pub fn filter_fields(&self, verbose: &str) -> (r: Self)
        ensures
            r@ == filtered_metadata(self@, wanted_fields(verbose@)),
    {
        let wanted = split_fields(verbose);
        Metadata {
            system: keep_string(&wanted, "system", self.system.as_str()),
            timestamp: keep_string(&wanted, "timestamp", self.timestamp.as_str()),
            request_id: keep_string(&wanted, "request_id", self.request_id.as_str()),
            dry_run: text::list_contains(&wanted, "dry_run") && self.dry_run,
            pagination: if text::list_contains(&wanted, "pagination") {
                self.pagination
            } else {
                None
            },
            command: keep_string(&wanted, "command", self.command.as_str()),
            duration: keep_string(&wanted, "duration", self.duration.as_str()),
            env: keep_string(&wanted, "env", self.env.as_str()),
            identity: keep_string(&wanted, "identity", self.identity.as_str()),
            args: if text::list_contains(&wanted, "args") {
                copy_option(&self.args)
            } else {
                None
            },
            effective_args: if text::list_contains(&wanted, "effective_args") {
                copy_option(&self.effective_args)
            } else {
                None
            },
        }
    }
}

/// The non-empty pieces of a comma-separated list, without white space around
/// them.
pub open spec fn trimmed_pieces(pieces: Seq<Seq<char>>) -> Seq<Seq<char>>
    decreases pieces.len(),
{
    if pieces.len() == 0 {
        Seq::empty()
    } else {
        let before = trimmed_pieces(pieces.drop_last());
        let piece = text::trim_spec(pieces.last());
        if piece.len() == 0 {
            before
        } else {
            before.push(piece)
        }
    }
}

/// The fields that a comma-separated list names.
pub open spec fn wanted_fields(list: Seq<char>) -> Seq<Seq<char>> {
    trimmed_pieces(text::split_spec(list, ','))
}

/// Splits a comma-separated list.
pub fn split_fields(list: &str) -> (r: Vec<String>)
    ensures
        text::texts(r@) == wanted_fields(list@),
{
    let pieces = text::split_char(list, ',');
    let ghost all = text::texts(pieces@);
    let mut r: Vec<String> = Vec::new();
    let mut i: usize = 0;
    assert(text::texts(r@) =~= trimmed_pieces(all.take(0)));
    while i < pieces.len()
        invariant
            i <= pieces@.len(),
            all == text::texts(pieces@),
            text::texts(r@) == trimmed_pieces(all.take(i as int)),
        decreases pieces@.len() - i,
    {
        assert(all.take(i + 1).drop_last() =~= all.take(i as int));
        let piece = text::trim(pieces[i].as_str());
        let ghost before = r@;
        if !piece.as_str().is_empty() {
            r.push(piece);
            assert(text::texts(r@) =~= text::texts(before).push(piece@));
        }
        i = i + 1;
    }
    assert(all.take(pieces@.len() as int) =~= all);
    r
}

/// The value of a field that is wanted; empty where it is not.
pub open spec fn kept(wanted: Seq<Seq<char>>, field: Seq<char>, value: Seq<char>) -> Seq<char> {
    if wanted.contains(field) {
        value
    } else {
        Seq::empty()
    }
}

/// The value of a field that is wanted; empty where it is not.
pub fn keep_string(wanted: &Vec<String>, field: &str, value: &str) -> (r: String)
    ensures
        r@ == kept(text::texts(wanted@), field@, value@),
{
    if text::list_contains(wanted, field) {
        value.to_owned()
    } else {
        String::new()
    }
}

/// The metadata with only the wanted fields.
pub open spec fn filtered_metadata(m: MetadataText, wanted: Seq<Seq<char>>) -> MetadataText {
    MetadataText {
        system: kept(wanted, "system"@, m.system),
        timestamp: kept(wanted, "timestamp"@, m.timestamp),
        request_id: kept(wanted, "request_id"@, m.request_id),
        dry_run: wanted.contains("dry_run"@) && m.dry_run,
        pagination: if wanted.contains("pagination"@) {
            m.pagination
        } else {
            None
        },
        command: kept(wanted, "command"@, m.command),
        duration: kept(wanted, "duration"@, m.duration),
        env: kept(wanted, "env"@, m.env),
        identity: kept(wanted, "identity"@, m.identity),
        args: if wanted.contains("args"@) {
            m.args
        } else {
            None
        },
        effective_args: if wanted.contains("effective_args"@) {
            m.effective_args
        } else {
            None
        },
    }
}

/// An envelope with metadata and, perhaps, data or an error.
pub open spec fn plain_envelope(
    data: Option<JsonModel>,
    metadata: MetadataText,
    error: Option<ErrorText>,
    serialization_error: Option<Seq<char>>,
) -> EnvelopeText {
    EnvelopeText {
        data,
        metadata: Some(metadata),
        error,
        warnings: Seq::empty(),
        next_actions: Seq::empty(),
        serialization_error,
    }
}

/// What the envelope says once it is prepared for rendering: without metadata,
/// with all of them, or with the fields that the selector names.
pub open spec fn prepared(e: EnvelopeText, verbose: Seq<char>) -> EnvelopeText {
    EnvelopeText {
        metadata: if verbose.len() == 0 {
            None
        } else if verbose == "all"@ {
            e.metadata
        } else {
            match e.metadata {
                Some(m) => Some(filtered_metadata(m, wanted_fields(verbose))),
                None => None,
            }
        },
        ..e
    }
}

/// The envelope with the context of an invocation in its metadata.
pub open spec fn in_context(
    e: EnvelopeText,
    command: Seq<char>,
    env: Seq<char>,
    identity: Seq<char>,
    duration: Seq<char>,
    user_args: Option<JsonModel>,
    effective_args: Option<JsonModel>,
) -> EnvelopeText {
    EnvelopeText {
        metadata: match e.metadata {
            Some(m) => Some(
                MetadataText {
                    command,
                    env,
                    identity,
                    duration,
                    args: user_args,
                    effective_args,
                    ..m
                },
            ),
            None => None,
        },
        ..e
    }
}

/// The envelope marked as that of a dry run.
pub open spec fn marked_dry(e: EnvelopeText) -> EnvelopeText {
    EnvelopeText {
        metadata: match e.metadata {
            Some(m) => Some(MetadataText { dry_run: true, ..m }),
            None => None,
        },
        ..e
    }
}

/// The envelope with what is told about a page.
pub open spec fn on_page(e: EnvelopeText, pagination: Option<PaginationMeta>) -> EnvelopeText {
    EnvelopeText {
        metadata: match e.metadata {
            Some(m) => Some(MetadataText { pagination, ..m }),
            None => None,
        },
        ..e
    }
}

impl Envelope {
    /// Creates a success envelope from data.
    pub fn success(data: Json, system: &str) -> (r: Self)
        ensures
            r.metadata matches Some(m) && r@ == plain_envelope(
                Some(data@),
                fresh_metadata(system@, m.timestamp@),
                None,
                None,
            ),
    {
        Envelope::from_data(Some(data), None, Metadata::new(system))
    }

    /// Creates a success envelope from the outcome of a serialization.
    pub fn success_from(data: Result<Json, String>, system: &str) -> (r: Self)
        ensures
            r.metadata matches Some(m) && r@ == plain_envelope(
                (match data {
                    Ok(v) => Some(v@),
                    Err(_) => None,
                }),
                fresh_metadata(system@, m.timestamp@),
                None,
                (match data {
                    Ok(_) => None,
                    Err(message) => Some(message@),
                }),
            ),
    {
        match data {
            Ok(v) => Envelope::from_data(Some(v), None, Metadata::new(system)),
            Err(message) => Envelope::from_data(None, Some(message), Metadata::new(system)),
        }
    }

    /// An envelope with data and metadata.
    fn from_data(
        data: Option<Json>,
        serialization_error: Option<String>,
        metadata: Metadata,
    ) -> (r: Self)
        ensures
            r@ == plain_envelope(
                opt_model(data),
                metadata@,
                None,
                error::opt_text(serialization_error),
            ),
            r.metadata == Some(metadata),
    {
        let r = Envelope {
            data,
            metadata: Some(metadata),
            error: None,
            warnings: Vec::new(),
            next_actions: Vec::new(),
            serialization_error,
        };
        assert(r@ =~= plain_envelope(
            opt_model(data),
            metadata@,
            None,
            error::opt_text(serialization_error),
        ));
        r
    }

    /// Creates a generic error envelope.
    pub fn error(code: &str, message: &str, system: &str) -> (r: Self)
        ensures
            r.metadata matches Some(m) && r@ == error_envelope_text(
                code@,
                message@,
                system@,
                Seq::empty(),
                m.timestamp@,
            ),
    {
        let r = Envelope::error_detail(code, message, system, "");
        proof {
            reveal_strlit("");
            assert(""@ =~= Seq::<char>::empty());
        }
        r
    }

    /// Creates a structured error envelope with request id.
    pub fn error_detail(code: &str, message: &str, system: &str, request_id: &str) -> (r: Self)
        ensures
            r.metadata matches Some(m) && r@ == error_envelope_text(
                code@,
                message@,
                system@,
                request_id@,
                m.timestamp@,
            ),
    {
        let mut metadata = Metadata::new(system);
        metadata.request_id = request_id.to_owned();
        let ghost timestamp = metadata.timestamp@;
        let r = Envelope {
            data: None,
            metadata: Some(metadata),
            error: Some(
                ErrorEnvelope {
                    code: code.to_owned(),
                    message: message.to_owned(),
                    system: system.to_owned(),
                    request_id: request_id.to_owned(),
                },
            ),
            warnings: Vec::new(),
            next_actions: Vec::new(),
            serialization_error: None,
        };
        assert(r@ =~= error_envelope_text(code@, message@, system@, request_id@, timestamp));
        r
    }

    /// Attaches suggested follow-up actions.
    pub fn with_next_actions(self, actions: Vec<NextAction>) -> (r: Self)
        ensures
            r@ == (EnvelopeText { next_actions: action_texts(actions@), ..self@ }),
            r.metadata == self.metadata,
    {
        let mut r = self;
        r.next_actions = actions;
        r
    }

    /// Marks the envelope as a dry-run response.
    pub fn with_dry_run(self) -> (r: Self)
        ensures
            r@ == marked_dry(self@),
    {
        let mut r = self;
        r.metadata = match r.metadata {
            Some(metadata) => {
                let mut metadata = metadata;
                metadata.dry_run = true;
                Some(metadata)
            },
            None => None,
        };
        r
    }

    /// Adds command execution context to envelope metadata.
    pub fn with_context(
        self,
        command: &str,
        env: &str,
        identity: &str,
        duration: &str,
        user_args: Option<Json>,
        effective_args: Option<Json>,
    ) -> (r: Self)
        ensures
            r@ == in_context(
                self@,
                command@,
                env@,
                identity@,
                duration@,
                opt_model(user_args),
                opt_model(effective_args),
            ),
    {
        let mut r = self;
        r.metadata = match r.metadata {
            Some(metadata) => {
                let mut metadata = metadata;
                metadata.command = command.to_owned();
                metadata.env = env.to_owned();
                metadata.identity = identity.to_owned();
                metadata.duration = duration.to_owned();
                metadata.args = user_args;
                metadata.effective_args = effective_args;
                Some(metadata)
            },
            None => None,
        };
        r
    }

    /// Adds pagination metadata.
    pub fn with_pagination(self, pagination: Option<PaginationMeta>) -> (r: Self)
        ensures
            r@ == on_page(self@, pagination),
    {
        let mut r = self;
        r.metadata = match r.metadata {
            Some(metadata) => {
                let mut metadata = metadata;
                metadata.pagination = pagination;
                Some(metadata)
            },
            None => None,
        };
        r
    }

    /// Returns a copy with metadata stripped or filtered according to
    /// `--verbose`.
    pub fn prepare_for_render(&self, verbose: &str) -> (r: Self)
        ensures
            r@ == prepared(self@, verbose@),
    {
        let metadata = if verbose.is_empty() {
            None
        } else if text::str_eq(verbose, "all") {
            match &self.metadata {
                Some(m) => Some(m.copy()),
                None => None,
            }
        } else {
            match &self.metadata {
                Some(m) => Some(m.filter_fields(verbose)),
                None => None,
            }
        };
        let error = match &self.error {
            Some(e) => Some(
                ErrorEnvelope {
                    code: e.code.clone(),
                    message: e.message.clone(),
                    system: e.system.clone(),
                    request_id: e.request_id.clone(),
                },
            ),
            None => None,
        };
        let r = Envelope {
            data: copy_option(&self.data),
            metadata,
            error,
            warnings: text::clone_strings(&self.warnings),
            next_actions: copy_actions(&self.next_actions),
            serialization_error: clone_option(&self.serialization_error),
        };
        assert(r@ =~= prepared(self@, verbose@));
        r
    }

    /// Appends a non-fatal warning.
    pub fn add_warning(&mut self, message: String)
        ensures
            final(self)@ == (EnvelopeText {
                warnings: old(self)@.warnings.push(message@),
                ..old(self)@
            }),
    {
        self.warnings.push(message);
        assert(self@ =~= (EnvelopeText {
            warnings: old(self)@.warnings.push(message@),
            ..old(self)@
        }));
    }

    /// The failure to turn the data into JSON, if there was one.
    pub fn serialization_result(&self) -> (r: Result<(), CliCoreError>)
        ensures
            match self@.serialization_error {
                Some(message) => r is Err && error::is_message(r->Err_0, message),
                None => r is Ok,
            },
    {
        match &self.serialization_error {
            Some(message) => Err(CliCoreError::message(message.clone())),
            None => Ok(()),
        }
    }
}

/// Preparing twice with the same selector changes nothing more.
pub proof fn law_prepare_is_idempotent(e: EnvelopeText, verbose: Seq<char>)
    ensures
        prepared(prepared(e, verbose), verbose) == prepared(e, verbose),
{
}

/// Preparing an envelope touches nothing but its metadata.
pub proof fn law_prepare_keeps_result(e: EnvelopeText, verbose: Seq<char>)
    ensures
        ({
            let p = prepared(e, verbose);
            p.data == e.data && p.error == e.error && p.warnings == e.warnings && p.next_actions
                == e.next_actions
        }),
{
}

/// The envelope of an error.
pub open spec fn error_envelope_text(
    code: Seq<char>,
    message: Seq<char>,
    system: Seq<char>,
    request_id: Seq<char>,
    timestamp: Seq<char>,
) -> EnvelopeText {
    plain_envelope(
        None,
        MetadataText { request_id, ..fresh_metadata(system, timestamp) },
        Some(ErrorText { code, message, system, request_id }),
        None,
    )
}

/// Code, system and request id of an error.
#[verifier::ext_equal]
pub struct DetailText {
    /// Error code.
    pub code: Seq<char>,
    /// Backend/system id.
    pub system: Seq<char>,
    /// Request id.
    pub request_id: Seq<char>,
}

/// The system of an error, or the one that was named around it where it names
/// none.
pub open spec fn system_or(system: Seq<char>, around: Option<Seq<char>>) -> Seq<char> {
    match around {
        Some(other) => if system.len() == 0 {
            other
        } else {
            system
        },
        None => system,
    }
}

/// The first structured details in the chain of an error. A system that is
/// named around an error stands in where the details name none, and gives
/// details by itself where there are none.
pub open spec fn details_of(err: CliCoreError, around: Option<Seq<char>>) -> Option<DetailText>
    decreases err,
{
    match err {
        CliCoreError::SystemMessage { system, code, request_id, .. } => Some(
            DetailText { code: code@, system: system@, request_id: request_id@ },
        ),
        CliCoreError::Detailed { code, system, request_id, .. } => Some(
            DetailText {
                code: code@,
                system: system_or(system@, around),
                request_id: request_id@,
            },
        ),
        CliCoreError::Transport(t) => Some(
            DetailText {
                code: t.code@,
                system: system_or(error::text_or_empty(error::opt_text(t.system)), around),
                request_id: error::text_or_empty(error::opt_text(t.request_id)),
            },
        ),
        CliCoreError::System { system, source } => details_of(
            *source,
            if system@.len() > 0 && around is None {
                Some(system@)
            } else {
                around
            },
        ),
        CliCoreError::AuthProvider { source, .. } => details_of(*source, around),
        CliCoreError::ExitCode { source, .. } => details_of(*source, around),
        CliCoreError::Fix { source, .. } => details_of(*source, around),
        CliCoreError::Io { source: Some(inner), .. } => details_of(*inner, around),
        CliCoreError::Json { source: Some(inner), .. } => details_of(*inner, around),
        CliCoreError::Foreign { source: Some(inner), .. } => details_of(*inner, around),
        _ => match around {
            Some(system) => Some(
                DetailText { code: "ERROR"@, system, request_id: Seq::empty() },
            ),
            None => None,
        },
    }
}

/// Structured details of an error.
pub struct ErrorDetails {
    /// Stable error code.
    pub code: String,
    /// Backend/system id.
    pub system: String,
    /// Request id.
    pub request_id: String,
}

impl View for ErrorDetails {
    type V = DetailText;

    open spec fn view(&self) -> DetailText {
        DetailText { code: self.code@, system: self.system@, request_id: self.request_id@ }
    }
}

/// The system, or the one that was named around it where it is empty.
fn choose_system(system: &str, around: Option<&String>) -> (r: String)
    ensures
        r@ == system_or(
            system@,
            (match around {
                Some(s) => Some(s@),
                None => None,
            }),
        ),
{
    match around {
        Some(other) => if system.is_empty() {
            other.clone()
        } else {
            system.to_owned()
        },
        None => system.to_owned(),
    }
}

/// The text of an optional string, empty where there is none.
fn or_empty(s: &Option<String>) -> (r: &str)
    ensures
        r@ == error::text_or_empty(error::opt_text(*s)),
{
    match s {
        Some(t) => t.as_str(),
        None => {
            proof {
                reveal_strlit("");
                assert(""@ =~= Seq::<char>::empty());
            }
            ""
        },
    }
}

/// Finds the first structured details in the chain of an error.
pub fn find_detailed_error(err: &CliCoreError, around: Option<&String>) -> (r: Option<ErrorDetails>)
    ensures
        ({
            let named = match around {
                Some(s) => Some(s@),
                None => None,
            };
            match r {
                Some(d) => details_of(*err, named) == Some(d@),
                None => details_of(*err, named) is None,
            }
        }),
    decreases err,
{
    match err {
        CliCoreError::SystemMessage { system, code, request_id, .. } => Some(
            ErrorDetails {
                code: code.clone(),
                system: system.clone(),
                request_id: request_id.clone(),
            },
        ),
        CliCoreError::Detailed { code, system, request_id, .. } => Some(
            ErrorDetails {
                code: code.clone(),
                system: choose_system(system.as_str(), around),
                request_id: request_id.clone(),
            },
        ),
        CliCoreError::Transport(t) => Some(
            ErrorDetails {
                code: t.code.clone(),
                system: choose_system(or_empty(&t.system), around),
                request_id: or_empty(&t.request_id).to_owned(),
            },
        ),
        CliCoreError::System { system, source } => match around {
            Some(_) => find_detailed_error(source, around),
            None => if system.as_str().is_empty() {
                find_detailed_error(source, None)
            } else {
                find_detailed_error(source, Some(system))
            },
        },
        CliCoreError::AuthProvider { source, .. } => find_detailed_error(source, around),
        CliCoreError::ExitCode { source, .. } => find_detailed_error(source, around),
        CliCoreError::Fix { source, .. } => find_detailed_error(source, around),
        CliCoreError::Io { source: Some(inner), .. } => find_detailed_error(inner, around),
        CliCoreError::Json { source: Some(inner), .. } => find_detailed_error(inner, around),
        CliCoreError::Foreign { source: Some(inner), .. } => find_detailed_error(inner, around),
        _ => match around {
            Some(system) => Some(
                ErrorDetails {
                    code: "ERROR".to_owned(),
                    system: system.clone(),
                    request_id: String::new(),
                },
            ),
            None => None,
        },
    }
}

/// The code of an error, `ERROR` where it has none.
pub open spec fn code_or_error(code: Seq<char>) -> Seq<char> {
    if code.len() == 0 {
        "ERROR"@
    } else {
        code
    }
}

/// The details that the envelope of an error shows, with `system` where the
/// error names none.
pub open spec fn shown_details(err: CliCoreError, system: Seq<char>) -> DetailText {
    match details_of(err, None) {
        Some(d) => DetailText {
            code: code_or_error(d.code),
            system: if d.system.len() == 0 {
                system
            } else {
                d.system
            },
            request_id: d.request_id,
        },
        None => DetailText { code: "ERROR"@, system, request_id: Seq::empty() },
    }
}

/// Builds an error envelope, preserving structured details of the error.
pub fn build_error_envelope(err: &CliCoreError, system: &str) -> (r: Envelope)
    ensures
        ({
            let d = shown_details(*err, system@);
            r.metadata matches Some(m) && r@ == error_envelope_text(
                d.code,
                error::display_spec(*err),
                d.system,
                d.request_id,
                m.timestamp@,
            )
        }),
{
    let message = err.to_text();
    match find_detailed_error(err, None) {
        Some(d) => {
            let code = if d.code.as_str().is_empty() {
                "ERROR".to_owned()
            } else {
                d.code
            };
            let sys = if d.system.as_str().is_empty() {
                system.to_owned()
            } else {
                d.system
            };
            Envelope::error_detail(
                code.as_str(),
                message.as_str(),
                sys.as_str(),
                d.request_id.as_str(),
            )
        },
        None => Envelope::error("ERROR", message.as_str(), system),
    }
}

/// `e` is the error envelope of a report.
pub open spec fn is_report_envelope(e: Envelope, report: ErrorReport, system: Seq<char>) -> bool {
    e.metadata matches Some(m) && e@ == error_envelope_text(
        code_or_error(report.code@),
        report.message@,
        (match report.system {
            Some(s) => s@,
            None => system,
        }),
        error::text_or_empty(error::opt_text(report.request_id)),
        m.timestamp@,
    )
}

/// Builds the error envelope of a report.
pub fn report_envelope(report: &ErrorReport, system: &str) -> (r: Envelope)
    ensures
        is_report_envelope(r, *report, system@),
{
    let code: &str = if report.code.as_str().is_empty() {
        "ERROR"
    } else {
        report.code.as_str()
    };
    let sys: &str = match &report.system {
        Some(s) => s.as_str(),
        None => system,
    };
    Envelope::error_detail(code, report.message.as_str(), sys, or_empty(&report.request_id))
}

/// Builds an error envelope from a [`DetailedError`].
pub fn build_detailed_error_envelope<E: DetailedError>(err: &E, system: &str) -> (r: Envelope)
    ensures
        exists|report: ErrorReport| #[trigger]
            error::reports(err, report) && is_report_envelope(r, report, system@),
{
    let report = report_of(err);
    let r = report_envelope(&report, system);
    assert(error::reports(err, report) && is_report_envelope(r, report, system@));
    r
}

/// `n` in three digits.
pub open spec fn three_digits(n: nat) -> Seq<char> {
    seq![
        text::digit_char(n / 100 % 10),
        text::digit_char(n / 10 % 10),
        text::digit_char(n % 10),
    ]
}

/// The text without zeros at its end.
pub open spec fn without_trailing_zeros(s: Seq<char>) -> Seq<char>
    decreases s.len(),
{
    if s.len() > 0 && s.last() == '0' {
        without_trailing_zeros(s.drop_last())
    } else {
        s
    }
}

/// A duration in milliseconds as text: seconds with a fraction from one second
/// on, milliseconds below it.
pub open spec fn duration_text(millis: nat) -> Seq<char> {
    if millis == 0 {
        "0s"@
    } else if millis >= 1000 {
        if millis % 1000 == 0 {
            text::decimal_spec(millis / 1000) + "s"@
        } else {
            text::decimal_spec(millis / 1000) + "."@ + without_trailing_zeros(
                three_digits(millis % 1000),
            ) + "s"@
        }
    } else {
        text::decimal_spec(millis) + "ms"@
    }
}

/// A duration rounded to milliseconds.
pub open spec fn rounded_millis(seconds: nat, nanos: nat) -> nat {
    (seconds * 1_000_000_000 + nanos + 500_000) / 1_000_000
}

/// Formats a duration, rounded to milliseconds.
pub fn format_duration(seconds: u64, nanos: u32) -> (r: String)
    ensures
        r@ == duration_text(rounded_millis(seconds as nat, nanos as nat)),
{
    let total: u128 = (seconds as u128) * 1_000_000_000 + (nanos as u128);
    let millis: u128 = (total + 500_000) / 1_000_000;
    if millis == 0 {
        return "0s".to_owned();
    }
    if millis >= 1000 {
        let rem: u128 = millis % 1000;
        let mut r = text::decimal(millis / 1000);
        if rem != 0 {
            let hundreds: u8 = (rem / 100) as u8;
            let tens: u8 = (rem / 10 % 10) as u8;
            let ones: u8 = (rem % 10) as u8;
            let mut digits: Vec<char> = Vec::new();
            digits.push((48 + hundreds) as char);
            digits.push((48 + tens) as char);
            digits.push((48 + ones) as char);
            assert(digits@ =~= three_digits(rem as nat));
            while digits.len() > 0 && digits[digits.len() - 1] == '0'
                invariant
                    without_trailing_zeros(digits@) == without_trailing_zeros(
                        three_digits(rem as nat),
                    ),
                decreases digits@.len(),
            {
                let ghost before = digits@;
                digits.pop();
                assert(digits@ =~= before.drop_last());
            }
            r.append(".");
            r.append(text::string_of(digits.as_slice()).as_str());
        }
        r.append("s");
        r
    } else {
        let mut r = text::decimal(millis);
        r.append("ms");
        r
    }
}

/// Tells whether a flag is unset.
pub fn is_false(value: &bool) -> (r: bool)
    ensures
        r == !*value,
{
    !*value
}

/// The value is absent or `null`.
pub open spec fn is_absent(value: Option<JsonModel>) -> bool {
    match value {
        None => true,
        Some(v) => v is Null,
    }
}

/// The value is absent, `null` or an object without entries.
pub open spec fn says_nothing(value: Option<JsonModel>) -> bool {
    match value {
        None => true,
        Some(JsonModel::Null) => true,
        Some(JsonModel::Object(members)) => members.dom() =~= Set::<Seq<char>>::empty(),
        _ => false,
    }
}

/// Tells whether a value is absent or `null`.
pub fn is_absent_or_null(value: &Option<Json>) -> (r: bool)
    ensures
        r == is_absent(opt_model(*value)),
{
    match value {
        None => true,
        Some(v) => v.is_null(),
    }
}

/// Tells whether a value is absent, `null` or an object without entries.
pub fn is_absent_null_or_empty_object(value: &Option<Json>) -> (r: bool)
    ensures
        r == says_nothing(opt_model(*value)),
{
    broadcast use json::group_json;

    match value {
        None => true,
        Some(Json::Null) => true,
        Some(Json::Object(members)) => members.is_empty(),
        _ => false,
    }
}

/// The names of a list with commas between them are read back, as long as none
/// is empty, has a comma or white space around it.
pub proof fn law_field_list_is_read_back(names: Seq<Seq<char>>)
    requires
        names.len() > 0,
        forall|i: int|
            0 <= i < names.len() ==> !(#[trigger] names[i]).contains(',') && names[i].len() > 0
                && text::trim_spec(names[i]) == names[i],
    ensures
        wanted_fields(text::join_spec(names, seq![','])) == names,
{
    text::law_join_is_undone_by_split(names, ',');
    lemma_pieces_are_names(names);
}

proof fn lemma_pieces_are_names(names: Seq<Seq<char>>)
    requires
        forall|i: int|
            0 <= i < names.len() ==> (#[trigger] names[i]).len() > 0 && text::trim_spec(names[i])
                == names[i],
    ensures
        trimmed_pieces(names) == names,
    decreases names.len(),
{
    if names.len() > 0 {
        let init = names.drop_last();
        assert forall|i: int| 0 <= i < init.len() implies (#[trigger] init[i]).len() > 0
            && text::trim_spec(init[i]) == init[i] by {
            assert(init[i] == names[i]);
        }
        lemma_pieces_are_names(init);
        assert(names[names.len() - 1] == names.last());
        assert(init.push(names.last()) =~= names);
    } else {
        assert(names =~= Seq::empty());
    }
}

/// White space around a name and empty names do not matter, and each name that
/// a list gives has neither.
pub proof fn law_fields_are_trimmed(list: Seq<char>, i: int)
    requires
        0 <= i < wanted_fields(list).len(),
    ensures
        wanted_fields(list)[i].len() > 0,
        text::trim_spec(wanted_fields(list)[i]) == wanted_fields(list)[i],
{
    lemma_pieces_are_trimmed(text::split_spec(list, ','), i);
}

proof fn lemma_pieces_are_trimmed(pieces: Seq<Seq<char>>, i: int)
    requires
        0 <= i < trimmed_pieces(pieces).len(),
    ensures
        trimmed_pieces(pieces)[i].len() > 0,
        text::trim_spec(trimmed_pieces(pieces)[i]) == trimmed_pieces(pieces)[i],
    decreases pieces.len(),
{
    let before = trimmed_pieces(pieces.drop_last());
    text::lemma_trim_again(pieces.last());
    if i < before.len() {
        lemma_pieces_are_trimmed(pieces.drop_last(), i);
    }
}

/// Without a selector an envelope shows no metadata, with `all` every one, and
/// with names those that are named: each keeps its own value, and the others
/// are blank.
pub proof fn law_verbose_selects_metadata(e: EnvelopeText, verbose: Seq<char>, m: MetadataText)
    requires
        e.metadata == Some(m),
    ensures
        verbose.len() == 0 ==> prepared(e, verbose).metadata is None,
        verbose == "all"@ ==> prepared(e, verbose).metadata == Some(m),
        verbose.len() > 0 && verbose != "all"@ ==> (prepared(e, verbose).metadata matches Some(p)
            && {
            let w = wanted_fields(verbose);
            &&& p.system == (if w.contains("system"@) { m.system } else { Seq::empty() })
            &&& p.timestamp == (if w.contains("timestamp"@) { m.timestamp } else { Seq::empty() })
            &&& p.request_id == (if w.contains("request_id"@) { m.request_id } else { Seq::empty() })
            &&& p.command == (if w.contains("command"@) { m.command } else { Seq::empty() })
            &&& p.duration == (if w.contains("duration"@) { m.duration } else { Seq::empty() })
            &&& p.env == (if w.contains("env"@) { m.env } else { Seq::empty() })
            &&& p.identity == (if w.contains("identity"@) { m.identity } else { Seq::empty() })
            &&& p.dry_run <==> w.contains("dry_run"@) && m.dry_run
            &&& w.contains("pagination"@) ==> p.pagination == m.pagination
            &&& !w.contains("pagination"@) ==> p.pagination is None
            &&& w.contains("args"@) ==> p.args == m.args
            &&& !w.contains("args"@) ==> p.args is None
            &&& w.contains("effective_args"@) ==> p.effective_args == m.effective_args
            &&& !w.contains("effective_args"@) ==> p.effective_args is None
        }),
{
    reveal_strlit("all");
}

/// The envelope of an error tells its code, message, system and request, has no
/// data, and says the same system and request in its metadata.
pub proof fn law_error_envelope_tells_the_error(
    code: Seq<char>,
    message: Seq<char>,
    system: Seq<char>,
    request_id: Seq<char>,
    timestamp: Seq<char>,
)
    ensures
        ({
            let e = error_envelope_text(code, message, system, request_id, timestamp);
            &&& e.data is None
            &&& e.error matches Some(err) && err.code == code && err.message == message
                && err.system == system && err.request_id == request_id
            &&& e.metadata matches Some(m) && m.system == system && m.request_id == request_id
                && m.timestamp == timestamp && !m.dry_run
            &&& e.warnings.len() == 0 && e.next_actions.len() == 0
        }),
{
}

/// The code of a shown error is never empty: it is that of the error, or the
/// general one. Its system is the one that the error names, else the one of the
/// command.
pub proof fn law_shown_error_has_code_and_system(
    code: String,
    system: String,
    request_id: String,
    source: Box<CliCoreError>,
    around: Seq<char>,
)
    ensures
        ({
            let err = CliCoreError::Detailed { code, system, request_id, source };
            let d = shown_details(err, around);
            &&& d.code.len() > 0
            &&& code@.len() > 0 ==> d.code == code@
            &&& system@.len() > 0 ==> d.system == system@
            &&& system@.len() == 0 ==> d.system == around
            &&& d.request_id == request_id@
        }),
{
    reveal_strlit("ERROR");
}

/// What is wrapped around an error hides none of its details, and a system that
/// is named around it stands in only where the details name none.
pub proof fn law_wrapping_keeps_details(
    source: CliCoreError,
    code: i32,
    fix: String,
    system: String,
    around: Seq<char>,
)
    ensures
        shown_details(CliCoreError::ExitCode { code, source: Box::new(source) }, around)
            == shown_details(source, around),
        shown_details(CliCoreError::Fix { fix, source: Box::new(source) }, around)
            == shown_details(source, around),
        ({
            let wrapped = shown_details(
                CliCoreError::System { system, source: Box::new(source) },
                around,
            );
            &&& details_of(source, None) is None && system@.len() > 0 ==> wrapped.system == system@
            &&& details_of(source, None) is None ==> wrapped.code == "ERROR"@
            &&& system@.len() == 0 ==> wrapped == shown_details(source, around)
        }),
{
    reveal_with_fuel(details_of, 2);
    if system@.len() > 0 && details_of(source, None) is None {
        lemma_around_gives_details(source, system@);
        reveal_strlit("ERROR");
    }
}

proof fn lemma_around_gives_details(err: CliCoreError, system: Seq<char>)
    requires
        details_of(err, None) is None,
        system.len() > 0,
    ensures
        details_of(err, Some(system)) == Some(
            DetailText { code: "ERROR"@, system, request_id: Seq::empty() },
        ),
    decreases err,
{
    match err {
        CliCoreError::System { system: named, source } => {
            if named@.len() > 0 {
                lemma_around_is_never_none(*source, named@);
            } else {
                lemma_around_gives_details(*source, system);
            }
        },
        CliCoreError::AuthProvider { source, .. } => {
            lemma_around_gives_details(*source, system);
        },
        CliCoreError::ExitCode { source, .. } => {
            lemma_around_gives_details(*source, system);
        },
        CliCoreError::Fix { source, .. } => {
            lemma_around_gives_details(*source, system);
        },
        CliCoreError::Io { source: Some(inner), .. } => {
            lemma_around_gives_details(*inner, system);
        },
        CliCoreError::Json { source: Some(inner), .. } => {
            lemma_around_gives_details(*inner, system);
        },
        CliCoreError::Foreign { source: Some(inner), .. } => {
            lemma_around_gives_details(*inner, system);
        },
        _ => {},
    }
}

proof fn lemma_around_is_never_none(err: CliCoreError, system: Seq<char>)
    ensures
        details_of(err, Some(system)) is Some,
    decreases err,
{
    match err {
        CliCoreError::System { source, .. } => {
            lemma_around_is_never_none(*source, system);
        },
        CliCoreError::AuthProvider { source, .. } => {
            lemma_around_is_never_none(*source, system);
        },
        CliCoreError::ExitCode { source, .. } => {
            lemma_around_is_never_none(*source, system);
        },
        CliCoreError::Fix { source, .. } => {
            lemma_around_is_never_none(*source, system);
        },
        CliCoreError::Io { source: Some(inner), .. } => {
            lemma_around_is_never_none(*inner, system);
        },
        CliCoreError::Json { source: Some(inner), .. } => {
            lemma_around_is_never_none(*inner, system);
        },
        CliCoreError::Foreign { source: Some(inner), .. } => {
            lemma_around_is_never_none(*inner, system);
        },
        _ => {},
    }
}

/// What an envelope is told later changes only what it is about: the context of
/// an invocation, the mark of a dry run or the page, each in the metadata.
pub proof fn law_later_facts_keep_the_rest(
    e: EnvelopeText,
    m: MetadataText,
    pagination: Option<PaginationMeta>,
)
    requires
        e.metadata == Some(m),
    ensures
        marked_dry(e).metadata matches Some(n) && n.dry_run && n.system == m.system && n.identity
            == m.identity && n.pagination == m.pagination,
        marked_dry(e).data == e.data && marked_dry(e).error == e.error,
        on_page(e, pagination).metadata matches Some(n) && n.pagination == pagination && n.system
            == m.system && n.dry_run == m.dry_run,
        on_page(e, pagination).data == e.data && on_page(e, pagination).error == e.error,
{
}

/// A duration is rounded to the nearest millisecond.
pub proof fn law_duration_is_rounded(seconds: nat, nanos: nat)
    ensures
        rounded_millis(seconds, nanos) * 1_000_000 <= seconds * 1_000_000_000 + nanos + 500_000,
        seconds * 1_000_000_000 + nanos + 500_000 < (rounded_millis(seconds, nanos) + 1)
            * 1_000_000,
{
}

/// A duration is shown in milliseconds below a second and in seconds from there
/// on, with as many digits of a fraction as it has, but no zero at its end.
pub proof fn law_duration_is_shown(seconds: nat, millis: nat)
    requires
        millis < 1000,
    ensures
        duration_text(0) == "0s"@,
        0 < millis ==> duration_text(millis) == text::decimal_spec(millis) + "ms"@,
        seconds > 0 ==> duration_text(seconds * 1000) == text::decimal_spec(seconds) + "s"@,
        seconds > 0 && 0 < millis ==> exists|fraction: Seq<char>|
            {
                &&& 0 < fraction.len() <= 3
                &&& fraction.last() != '0'
                &&& text::all_digits(fraction)
                &&& text::digits_value(fraction) * (if fraction.len() == 3 {
                    1
                } else if fraction.len() == 2 {
                    10int
                } else {
                    100
                }) == millis
                &&& duration_text(seconds * 1000 + millis) == #[trigger] (text::decimal_spec(
                    seconds,
                ) + "."@ + fraction + "s"@)
            },
{
    if seconds > 0 && 0 < millis {
        let digits = three_digits(millis);
        let fraction = without_trailing_zeros(digits);
        let total = seconds * 1000 + millis;
        assert(total % 1000 == millis && total / 1000 == seconds) by (nonlinear_arith)
            requires
                total == seconds * 1000 + millis,
                millis < 1000,
        ;
        reveal_with_fuel(without_trailing_zeros, 4);
        reveal_with_fuel(text::digits_value, 4);
        let a: nat = millis / 100 % 10;
        let b: nat = millis / 10 % 10;
        let c: nat = millis % 10;
        assert(millis == 100 * a + 10 * b + c);
        assert(digits =~= seq![text::digit_char(a), text::digit_char(b), text::digit_char(c)]);
        assert(digits.drop_last() =~= seq![text::digit_char(a), text::digit_char(b)]);
        assert(digits.drop_last().drop_last() =~= seq![text::digit_char(a)]);
        assert(digits.drop_last().drop_last().drop_last() =~= Seq::<char>::empty());
        assert(duration_text(total) == text::decimal_spec(seconds) + "."@ + fraction + "s"@);
    }
    if seconds > 0 {
        assert((seconds * 1000) % 1000 == 0 && (seconds * 1000) / 1000 == seconds);
    }
}

/// The envelope of a report tells its message, its code where it has one, and
/// the system that it names, else that of the command.
pub proof fn law_report_envelope_tells_the_report(
    e: Envelope,
    report: ErrorReport,
    system: Seq<char>,
)
    requires
        is_report_envelope(e, report, system),
    ensures
        e@.data is None,
        e@.error matches Some(err) && {
            &&& err.message == report.message@
            &&& report.code@.len() > 0 ==> err.code == report.code@
            &&& report.code@.len() == 0 ==> err.code == "ERROR"@
            &&& report.system matches Some(s) ==> err.system == s@
            &&& report.system is None ==> err.system == system
            &&& report.request_id matches Some(id) ==> err.request_id == id@
        },
{
}

/// The context of an invocation is told under its own names, and what the user
/// gave apart from what was in effect.
pub proof fn law_context_is_told(
    e: EnvelopeText,
    m: MetadataText,
    command: Seq<char>,
    env: Seq<char>,
    identity: Seq<char>,
    duration: Seq<char>,
    user_args: Option<JsonModel>,
    effective_args: Option<JsonModel>,
)
    requires
        e.metadata == Some(m),
    ensures
        ({
            let told = in_context(
                e,
                command,
                env,
                identity,
                duration,
                user_args,
                effective_args,
            );
            &&& told.data == e.data && told.error == e.error
            &&& told.metadata matches Some(n) && n.command == command && n.env == env && n.identity
                == identity && n.duration == duration && n.args == user_args && n.effective_args
                == effective_args && n.system == m.system && n.dry_run == m.dry_run
        }),
{
}

/// Null says nothing, nor does an object without members; any other value does.
pub proof fn law_what_says_nothing(
    members: Map<Seq<char>, JsonModel>,
    key: Seq<char>,
    t: Seq<char>,
    b: bool,
)
    ensures
        is_absent(None) && is_absent(Some(JsonModel::Null)),
        !is_absent(Some(JsonModel::Text(t))) && !is_absent(Some(JsonModel::Bool(b))),
        says_nothing(None) && says_nothing(Some(JsonModel::Null)),
        says_nothing(Some(JsonModel::Object(Map::empty()))),
        members.dom().contains(key) ==> !says_nothing(Some(JsonModel::Object(members))),
        !says_nothing(Some(JsonModel::Text(t))) && !says_nothing(Some(JsonModel::Bool(b))),
{
}

/// A message of a system and a transport error show their own details; a
/// provider, and what only carries another error, hides none.
pub proof fn law_details_are_found(
    message: String,
    system: String,
    code: String,
    request_id: String,
    t: error::TransportError,
    provider: String,
    source: CliCoreError,
    around: Seq<char>,
)
    ensures
        ({
            let d = shown_details(
                CliCoreError::SystemMessage { message, system, code, request_id },
                around,
            );
            &&& code@.len() > 0 ==> d.code == code@
            &&& system@.len() > 0 ==> d.system == system@
            &&& system@.len() == 0 ==> d.system == around
            &&& d.request_id == request_id@
        }),
        ({
            let d = shown_details(CliCoreError::Transport(t), around);
            &&& t.code@.len() > 0 ==> d.code == t.code@
            &&& t.system matches Some(s) ==> (s@.len() > 0 ==> d.system == s@)
            &&& t.system is None ==> d.system == around
            &&& t.request_id matches Some(id) ==> d.request_id == id@
        }),
        shown_details(CliCoreError::AuthProvider { provider, source: Box::new(source) }, around)
            == shown_details(source, around),
        shown_details(CliCoreError::Io { message, source: Some(Box::new(source)) }, around)
            == shown_details(source, around),
        shown_details(CliCoreError::Json { message, source: Some(Box::new(source)) }, around)
            == shown_details(source, around),
        shown_details(CliCoreError::Foreign { message, source: Some(Box::new(source)) }, around)
            == shown_details(source, around),
        shown_details(CliCoreError::Message(message), around) == (DetailText {
            code: "ERROR"@,
            system: around,
            request_id: Seq::empty(),
        }),
{
    reveal_with_fuel(details_of, 2);
}

} // verus!
