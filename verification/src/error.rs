//! The error type of the framework, its texts, and the mapping of errors to
//! process exit codes.
use crate::text;
use vstd::prelude::*;
use vstd::string::*;

verus! {

/// An error value that carries a process exit code.
pub trait ExitCoder {
    /// Returns the process-style exit code of the error.
    fn exit_code(&self) -> i32;
}

/// An error value that carries structured metadata for the output envelope.
pub trait DetailedError {
    /// Text of the error.
    fn error_message(&self) -> String;

    /// Stable error code.
    fn error_code(&self) -> String;

    /// Optional backend/system id.
    fn error_system(&self) -> Option<String>;

    /// Optional backend request id.
    fn error_request_id(&self) -> Option<String>;

    /// Optional recovery hint for the envelope's `fix`.
    fn error_fix(&self) -> Option<String>;

    /// The error that caused this one, if one did.
    fn error_source(&self) -> Option<CliCoreError>;
}

/// What a [`DetailedError`] says of itself.
pub struct ErrorReport {
    /// Text of the error.
    pub message: String,
    /// Stable error code.
    pub code: String,
    /// Backend/system id.
    pub system: Option<String>,
    /// Backend request id.
    pub request_id: Option<String>,
    /// Recovery hint.
    pub fix: Option<String>,
    /// The error that caused it.
    pub source: Option<CliCoreError>,
}

/// The report holds what the methods of the error returned.
pub open spec fn reports<E: DetailedError>(err: &E, r: ErrorReport) -> bool {
    &&& call_ensures(E::error_message, (err,), r.message)
    &&& call_ensures(E::error_code, (err,), r.code)
    &&& call_ensures(E::error_system, (err,), r.system)
    &&& call_ensures(E::error_request_id, (err,), r.request_id)
    &&& call_ensures(E::error_fix, (err,), r.fix)
    &&& call_ensures(E::error_source, (err,), r.source)
}

/// What a [`DetailedError`] says of itself.
pub fn report_of<E: DetailedError>(err: &E) -> (r: ErrorReport)
    ensures
        reports(err, r),
{
    let message = err.error_message();
    let code = err.error_code();
    let system = err.error_system();
    let request_id = err.error_request_id();
    let fix = err.error_fix();
    let source = err.error_source();
    ErrorReport { message, code, system, request_id, fix, source }
}

/// The text of an optional string.
pub open spec fn opt_text(s: Option<String>) -> Option<Seq<char>> {
    match s {
        Some(t) => Some(t@),
        None => None,
    }
}

/// The text of an optional string, empty where there is none.
pub open spec fn text_or_empty(s: Option<Seq<char>>) -> Seq<char> {
    match s {
        Some(t) => t,
        None => Seq::empty(),
    }
}

/// A structured HTTP transport error.
pub struct TransportError {
    /// Text of the error.
    pub message: String,
    /// Stable error code.
    pub code: String,
    /// Backend/system id.
    pub system: Option<String>,
    /// Backend request id.
    pub request_id: Option<String>,
}

impl DetailedError for TransportError {
    fn error_message(&self) -> (r: String)
        ensures
            r == self.message,
    {
        self.message.clone()
    }

    fn error_code(&self) -> (r: String)
        ensures
            r == self.code,
    {
        self.code.clone()
    }

    fn error_system(&self) -> (r: Option<String>)
        ensures
            r == self.system,
    {
        clone_option(&self.system)
    }

    fn error_request_id(&self) -> (r: Option<String>)
        ensures
            r == self.request_id,
    {
        clone_option(&self.request_id)
    }

    fn error_fix(&self) -> (r: Option<String>)
        ensures
            r is None,
    {
        None
    }

    fn error_source(&self) -> (r: Option<CliCoreError>)
        ensures
            r is None,
    {
        None
    }
}

/// Copies an optional string.
pub fn clone_option(s: &Option<String>) -> (r: Option<String>)
    ensures
        r == *s,
        opt_text(r) == opt_text(*s),
{
    match s {
        Some(t) => Some(t.clone()),
        None => None,
    }
}

/// Framework error type.
///
/// An error links to the error that caused it. An error of another type that
/// stands in such a chain is a [`CliCoreError::Foreign`].
#[allow(inconsistent_fields)]
pub enum CliCoreError {
    /// Requested auth provider has not been registered.
    MissingAuthProvider(String),
    /// Auth provider failed.
    AuthProvider {
        /// Provider name.
        provider: String,
        /// Source error.
        source: Box<CliCoreError>,
    },
    /// Output format is not supported.
    InvalidOutputFormat(String),
    /// Plain message error.
    Message(String),
    /// Structured message with explicit envelope metadata.
    SystemMessage {
        /// Error message.
        message: String,
        /// Backend/system id.
        system: String,
        /// Stable error code.
        code: String,
        /// Optional request id.
        request_id: String,
    },
    /// Wrapped source error with backend/system attribution.
    System {
        /// Backend/system id.
        system: String,
        /// Source error.
        source: Box<CliCoreError>,
    },
    /// Wrapped source error with structured metadata captured up front.
    Detailed {
        /// Stable error code.
        code: String,
        /// Backend/system id.
        system: String,
        /// Optional request id.
        request_id: String,
        /// Source error.
        source: Box<CliCoreError>,
    },
    /// Wrapped source error with explicit process exit code.
    ExitCode {
        /// Process-style exit code.
        code: i32,
        /// Source error.
        source: Box<CliCoreError>,
    },
    /// Wrapped source error with a recovery hint for the output envelope.
    Fix {
        /// Recovery guidance shown as the envelope's `fix`.
        fix: String,
        /// Source error.
        source: Box<CliCoreError>,
    },
    /// IO error, by its text and its own source.
    Io {
        /// Text of the error.
        message: String,
        /// What caused it.
        source: Option<Box<CliCoreError>>,
    },
    /// JSON serialization or decoding error, by its text and its own source.
    Json {
        /// Text of the error.
        message: String,
        /// What caused it.
        source: Option<Box<CliCoreError>>,
    },
    /// Structured HTTP transport error.
    Transport(TransportError),
    /// An error of another type, by its text and its own source.
    Foreign {
        /// Text of the error.
        message: String,
        /// What caused it.
        source: Option<Box<CliCoreError>>,
    },
}

/// The error is the plain message `text`.
pub open spec fn is_message(err: CliCoreError, text: Seq<char>) -> bool {
    err matches CliCoreError::Message(m) && m@ == text
}

/// The text that an error shows.
pub open spec fn display_spec(err: CliCoreError) -> Seq<char>
    decreases err,
{
    match err {
        CliCoreError::MissingAuthProvider(name) => "auth: no provider registered with name "@
            + text::debug_quoted(name@),
        CliCoreError::AuthProvider { provider, source } => "auth: provider "@ + text::debug_quoted(
            provider@,
        ) + ": "@ + display_spec(*source),
        CliCoreError::InvalidOutputFormat(format) => "invalid output format "@ + text::debug_quoted(
            format@,
        ) + ": must be one of toon, json, human"@,
        CliCoreError::Message(message) => message@,
        CliCoreError::SystemMessage { message, .. } => message@,
        CliCoreError::System { source, .. } => display_spec(*source),
        CliCoreError::Detailed { source, .. } => display_spec(*source),
        CliCoreError::ExitCode { source, .. } => display_spec(*source),
        CliCoreError::Fix { source, .. } => display_spec(*source),
        CliCoreError::Io { message, .. } => message@,
        CliCoreError::Json { message, .. } => message@,
        CliCoreError::Transport(transport) => transport.message@,
        CliCoreError::Foreign { message, .. } => message@,
    }
}

/// The error is a failure to resolve a credential, be it behind a hint or an
/// exit code.
pub open spec fn is_auth_spec(err: CliCoreError) -> bool
    decreases err,
{
    match err {
        CliCoreError::MissingAuthProvider(_) => true,
        CliCoreError::AuthProvider { .. } => true,
        CliCoreError::ExitCode { source, .. } => is_auth_spec(*source),
        CliCoreError::Fix { source, .. } => is_auth_spec(*source),
        _ => false,
    }
}

/// The non-empty system that an error names, be it behind a hint or an exit
/// code.
pub open spec fn system_of_spec(err: CliCoreError) -> Option<Seq<char>>
    decreases err,
{
    match err {
        CliCoreError::SystemMessage { system, .. } => if system@.len() > 0 {
            Some(system@)
        } else {
            None
        },
        CliCoreError::System { system, .. } => if system@.len() > 0 {
            Some(system@)
        } else {
            None
        },
        CliCoreError::Detailed { system, .. } => if system@.len() > 0 {
            Some(system@)
        } else {
            None
        },
        CliCoreError::ExitCode { source, .. } => system_of_spec(*source),
        CliCoreError::Fix { source, .. } => system_of_spec(*source),
        _ => None,
    }
}

/// The exit code that the chain of causes sets, the outermost first.
pub open spec fn explicit_code_spec(err: CliCoreError) -> Option<i32>
    decreases err,
{
    match err {
        CliCoreError::ExitCode { code, .. } => Some(code),
        CliCoreError::AuthProvider { source, .. } => explicit_code_spec(*source),
        CliCoreError::System { source, .. } => explicit_code_spec(*source),
        CliCoreError::Detailed { source, .. } => explicit_code_spec(*source),
        CliCoreError::Fix { source, .. } => explicit_code_spec(*source),
        CliCoreError::Io { source: Some(inner), .. } => explicit_code_spec(*inner),
        CliCoreError::Json { source: Some(inner), .. } => explicit_code_spec(*inner),
        CliCoreError::Foreign { source: Some(inner), .. } => explicit_code_spec(*inner),
        _ => None,
    }
}

/// The exit code of the first error in the chain whose kind has one.
pub open spec fn kind_code_spec(err: CliCoreError) -> Option<i32>
    decreases err,
{
    match err {
        CliCoreError::MissingAuthProvider(_) => Some(2i32),
        CliCoreError::AuthProvider { .. } => Some(2i32),
        CliCoreError::InvalidOutputFormat(_) => Some(3i32),
        CliCoreError::System { source, .. } => kind_code_spec(*source),
        CliCoreError::Detailed { source, .. } => kind_code_spec(*source),
        CliCoreError::ExitCode { source, .. } => kind_code_spec(*source),
        CliCoreError::Fix { source, .. } => kind_code_spec(*source),
        CliCoreError::Io { source: Some(inner), .. } => kind_code_spec(*inner),
        CliCoreError::Json { source: Some(inner), .. } => kind_code_spec(*inner),
        CliCoreError::Foreign { source: Some(inner), .. } => kind_code_spec(*inner),
        _ => None,
    }
}

/// The exit code that the words of a lower-case message stand for.
pub open spec fn message_code_spec(lowered: Seq<char>) -> i32 {
    if text::contains_text(lowered, "auth"@) {
        2
    } else if text::contains_text(lowered, "validation"@) || text::contains_text(
        lowered,
        "invalid"@,
    ) {
        3
    } else if text::contains_text(lowered, "not found"@) {
        4
    } else if text::contains_text(lowered, "permission"@) || text::contains_text(
        lowered,
        "forbidden"@,
    ) {
        5
    } else if text::contains_text(lowered, "denied"@) {
        6
    } else {
        1
    }
}

/// The exit code of an error: an explicit one in its chain, else that of a
/// kind in its chain, else that of the words of its text.
pub open spec fn exit_code_of(err: CliCoreError) -> i32 {
    match explicit_code_spec(err) {
        Some(code) => code,
        None => match kind_code_spec(err) {
            Some(code) => code,
            None => message_code_spec(text::lowercase(display_spec(err))),
        },
    }
}

/// An error behind a hint. An empty hint does not wrap: the error stays as it
/// is, one of another type as its message.
pub open spec fn hinted(fix: String, source: CliCoreError) -> CliCoreError {
    if fix@.len() > 0 {
        CliCoreError::Fix { fix, source: Box::new(source) }
    } else {
        match source {
            CliCoreError::Foreign { message, .. } => CliCoreError::Message(message),
            other => other,
        }
    }
}

/// `err` holds what a report says, behind its hint where it has one.
pub open spec fn is_detailed(err: CliCoreError, report: ErrorReport) -> bool {
    let hint = text_or_empty(opt_text(report.fix));
    let detailed = match err {
        CliCoreError::Fix { source: inner, .. } => *inner,
        other => other,
    };
    &&& err is Fix <==> hint.len() > 0
    &&& err matches CliCoreError::Fix { fix, .. } ==> fix@ == hint
    &&& detailed matches CliCoreError::Detailed { code, system, request_id, source: cause }
    &&& code == report.code
    &&& system@ == text_or_empty(opt_text(report.system))
    &&& request_id@ == text_or_empty(opt_text(report.request_id))
    &&& *cause matches CliCoreError::Foreign { message, source: below }
    &&& message == report.message
    &&& match (below, report.source) {
        (Some(b), Some(s)) => *b == s,
        (None, None) => true,
        _ => false,
    }
}

impl CliCoreError {
    /// Creates a plain message error.
    pub fn message(message: String) -> (r: Self)
        ensures
            r == CliCoreError::Message(message),
    {
        CliCoreError::Message(message)
    }

    /// Creates a structured message attributed to a backend/system id.
    pub fn message_for_system(system: String, message: String) -> (r: Self)
        ensures
            r matches CliCoreError::SystemMessage { message: m, system: s, code, request_id }
                && m == message && s == system && code@ == "ERROR"@ && request_id@
                == Seq::<char>::empty(),
    {
        CliCoreError::SystemMessage {
            message,
            system,
            code: "ERROR".to_owned(),
            request_id: String::new(),
        }
    }

    /// Wraps a source error with backend/system attribution.
    pub fn with_system(system: String, source: CliCoreError) -> (r: Self)
        ensures
            r == (CliCoreError::System { system, source: Box::new(source) }),
    {
        CliCoreError::System { system, source: Box::new(source) }
    }

    /// Wraps a source error with an explicit process exit code.
    pub fn with_exit_code(code: i32, source: CliCoreError) -> (r: Self)
        ensures
            r == (CliCoreError::ExitCode { code, source: Box::new(source) }),
    {
        CliCoreError::ExitCode { code, source: Box::new(source) }
    }

    /// Wraps a source error with a recovery hint for the output envelope.
    ///
    /// An empty hint does not wrap: the source is returned as it is, an error
    /// of another type as its message.
    pub fn with_fix(fix: String, source: CliCoreError) -> (r: Self)
        ensures
            r == hinted(fix, source),
    {
        if fix.as_str().is_empty() {
            return match source {
                CliCoreError::Foreign { message, .. } => CliCoreError::Message(message),
                other => other,
            };
        }
        CliCoreError::Fix { fix, source: Box::new(source) }
    }

    /// Captures structured metadata from a detailed source error.
    pub fn with_detailed_error<E: DetailedError>(source: &E) -> (r: Self)
        ensures
            exists|report: ErrorReport| #[trigger] reports(source, report) && is_detailed(r, report),
    {
        let report = report_of(source);
        let ghost kept = report;
        let r = Self::from_report(report);
        assert(reports(source, kept) && is_detailed(r, kept));
        r
    }

    /// The error of a report.
    pub fn from_report(report: ErrorReport) -> (r: Self)
        ensures
            is_detailed(r, report),
    {
        let system = string_or_empty(report.system);
        let request_id = string_or_empty(report.request_id);
        let fix = string_or_empty(report.fix);
        let below = match report.source {
            Some(source) => Some(Box::new(source)),
            None => None,
        };
        let cause = CliCoreError::Foreign { message: report.message, source: below };
        let detailed = CliCoreError::Detailed {
            code: report.code,
            system,
            request_id,
            source: Box::new(cause),
        };
        CliCoreError::with_fix(fix, detailed)
    }

    /// Reports whether this error comes from credential resolution.
    pub fn is_auth(&self) -> (r: bool)
        ensures
            r == is_auth_spec(*self),
        decreases self,
    {
        match self {
            CliCoreError::MissingAuthProvider(_) => true,
            CliCoreError::AuthProvider { .. } => true,
            CliCoreError::ExitCode { source, .. } => source.is_auth(),
            CliCoreError::Fix { source, .. } => source.is_auth(),
            _ => false,
        }
    }

    /// Returns the backend/system attribution that the error carries.
    pub fn system(&self) -> (r: Option<&str>)
        ensures
            match r {
                Some(s) => system_of_spec(*self) == Some(s@),
                None => system_of_spec(*self) is None,
            },
        decreases self,
    {
        match self {
            CliCoreError::SystemMessage { system, .. } => nonempty(system),
            CliCoreError::System { system, .. } => nonempty(system),
            CliCoreError::Detailed { system, .. } => nonempty(system),
            CliCoreError::ExitCode { source, .. } => source.system(),
            CliCoreError::Fix { source, .. } => source.system(),
            _ => None,
        }
    }

    /// The text that the error shows.
    pub fn to_text(&self) -> (r: String)
        ensures
            r@ == display_spec(*self),
        decreases self,
    {
        match self {
            CliCoreError::MissingAuthProvider(name) => {
                let mut r = "auth: no provider registered with name ".to_owned();
                r.append(text::debug_text(name.as_str()).as_str());
                r
            },
            CliCoreError::AuthProvider { provider, source } => {
                let mut r = "auth: provider ".to_owned();
                r.append(text::debug_text(provider.as_str()).as_str());
                r.append(": ");
                r.append(source.to_text().as_str());
                r
            },
            CliCoreError::InvalidOutputFormat(format) => {
                let mut r = "invalid output format ".to_owned();
                r.append(text::debug_text(format.as_str()).as_str());
                r.append(": must be one of toon, json, human");
                r
            },
            CliCoreError::Message(message) => message.clone(),
            CliCoreError::SystemMessage { message, .. } => message.clone(),
            CliCoreError::System { source, .. } => source.to_text(),
            CliCoreError::Detailed { source, .. } => source.to_text(),
            CliCoreError::ExitCode { source, .. } => source.to_text(),
            CliCoreError::Fix { source, .. } => source.to_text(),
            CliCoreError::Io { message, .. } => message.clone(),
            CliCoreError::Json { message, .. } => message.clone(),
            CliCoreError::Transport(transport) => transport.message.clone(),
            CliCoreError::Foreign { message, .. } => message.clone(),
        }
    }

    /// The exit code that the chain of causes sets.
    fn explicit_code(&self) -> (r: Option<i32>)
        ensures
            r == explicit_code_spec(*self),
        decreases self,
    {
        match self {
            CliCoreError::ExitCode { code, .. } => Some(*code),
            CliCoreError::AuthProvider { source, .. } => source.explicit_code(),
            CliCoreError::System { source, .. } => source.explicit_code(),
            CliCoreError::Detailed { source, .. } => source.explicit_code(),
            CliCoreError::Fix { source, .. } => source.explicit_code(),
            CliCoreError::Io { source: Some(inner), .. } => inner.explicit_code(),
            CliCoreError::Json { source: Some(inner), .. } => inner.explicit_code(),
            CliCoreError::Foreign { source: Some(inner), .. } => inner.explicit_code(),
            _ => None,
        }
    }

    /// The exit code of the first error in the chain whose kind has one.
    fn kind_code(&self) -> (r: Option<i32>)
        ensures
            r == kind_code_spec(*self),
        decreases self,
    {
        match self {
            CliCoreError::MissingAuthProvider(_) => Some(2i32),
            CliCoreError::AuthProvider { .. } => Some(2i32),
            CliCoreError::InvalidOutputFormat(_) => Some(3i32),
            CliCoreError::System { source, .. } => source.kind_code(),
            CliCoreError::Detailed { source, .. } => source.kind_code(),
            CliCoreError::ExitCode { source, .. } => source.kind_code(),
            CliCoreError::Fix { source, .. } => source.kind_code(),
            CliCoreError::Io { source: Some(inner), .. } => inner.kind_code(),
            CliCoreError::Json { source: Some(inner), .. } => inner.kind_code(),
            CliCoreError::Foreign { source: Some(inner), .. } => inner.kind_code(),
            _ => None,
        }
    }
}

/// `s` where it holds text.
fn nonempty(s: &String) -> (r: Option<&str>)
    ensures
        match r {
            Some(t) => t@ == s@ && s@.len() > 0,
            None => s@.len() == 0,
        },
{
    if s.as_str().is_empty() {
        None
    } else {
        Some(s.as_str())
    }
}

/// The string, or the empty one where there is none.
fn string_or_empty(s: Option<String>) -> (r: String)
    ensures
        r@ == text_or_empty(opt_text(s)),
{
    match s {
        Some(t) => t,
        None => String::new(),
    }
}

impl ExitCoder for CliCoreError {
    fn exit_code(&self) -> (code: i32)
        ensures
            code == exit_code_of(*self),
    {
        exit_code_for_error(self)
    }
}

/// Returns the exit code carried by an [`ExitCoder`].
pub fn exit_code_for_exit_coder<E: ExitCoder>(err: &E) -> (code: i32)
    ensures
        call_ensures(E::exit_code, (err,), code),
{
    err.exit_code()
}

/// The exit code that the words of a lower-case message stand for.
pub fn exit_code_for_message(lowered: &str) -> (code: i32)
    ensures
        code == message_code_spec(lowered@),
{
    if text::contains_str(lowered, "auth") {
        2
    } else if text::contains_str(lowered, "validation") || text::contains_str(lowered, "invalid") {
        3
    } else if text::contains_str(lowered, "not found") {
        4
    } else if text::contains_str(lowered, "permission") || text::contains_str(
        lowered,
        "forbidden",
    ) {
        5
    } else if text::contains_str(lowered, "denied") {
        6
    } else {
        1
    }
}

/// Maps an error chain to the framework's process-style exit code.
pub fn exit_code_for_error(err: &CliCoreError) -> (code: i32)
    ensures
        code == exit_code_of(*err),
{
    if let Some(code) = err.explicit_code() {
        return code;
    }
    if let Some(code) = err.kind_code() {
        return code;
    }
    let lowered = text::to_lowercase(err.to_text().as_str());
    exit_code_for_message(lowered.as_str())
}

/// An exit code that is set around an error is the one that it exits with,
/// whatever the error.
pub proof fn law_exit_code_wins(code: i32, source: CliCoreError)
    ensures
        exit_code_of(CliCoreError::ExitCode { code, source: Box::new(source) }) == code,
{
}

/// A hint around an error changes neither its text, nor its exit code, nor
/// what system it names, nor whether it is an auth error.
pub proof fn law_fix_is_transparent(fix: String, source: CliCoreError)
    ensures
        ({
            let wrapped = CliCoreError::Fix { fix, source: Box::new(source) };
            &&& display_spec(wrapped) == display_spec(source)
            &&& exit_code_of(wrapped) == exit_code_of(source)
            &&& system_of_spec(wrapped) == system_of_spec(source)
            &&& is_auth_spec(wrapped) == is_auth_spec(source)
        }),
{
}

/// Attribution to a system changes neither the text nor the exit code of an
/// error.
pub proof fn law_system_keeps_text_and_code(system: String, source: CliCoreError)
    ensures
        ({
            let wrapped = CliCoreError::System { system, source: Box::new(source) };
            &&& display_spec(wrapped) == display_spec(source)
            &&& exit_code_of(wrapped) == exit_code_of(source)
        }),
{
}

/// An auth error without an explicit exit code exits with the auth code.
pub proof fn law_auth_exits_with_two(err: CliCoreError)
    requires
        is_auth_spec(err),
        explicit_code_spec(err) is None,
    ensures
        exit_code_of(err) == 2,
    decreases err,
{
    match err {
        CliCoreError::Fix { source, .. } => {
            law_auth_exits_with_two(*source);
        },
        _ => {},
    }
}

/// An error shows what it was made of: a message itself, one with a provider
/// names the provider and goes on with its cause, and a code or a system around
/// an error is not shown.
pub proof fn law_error_shows_its_cause(
    message: String,
    provider: String,
    code: i32,
    system: String,
    source: CliCoreError,
)
    ensures
        display_spec(CliCoreError::Message(message)) == message@,
        display_spec(CliCoreError::AuthProvider { provider, source: Box::new(source) })
            == "auth: provider "@ + text::debug_quoted(provider@) + ": "@ + display_spec(source),
        display_spec(CliCoreError::ExitCode { code, source: Box::new(source) }) == display_spec(
            source,
        ),
        display_spec(CliCoreError::System { system, source: Box::new(source) }) == display_spec(
            source,
        ),
{
}

/// The exit code that stands outermost counts, below whatever names a provider,
/// a system or a hint.
pub proof fn law_outermost_exit_code_counts(
    code: i32,
    provider: String,
    system: String,
    fix: String,
    source: CliCoreError,
)
    ensures
        ({
            let coded = CliCoreError::ExitCode { code, source: Box::new(source) };
            &&& exit_code_of(CliCoreError::AuthProvider { provider, source: Box::new(coded) })
                == code
            &&& exit_code_of(CliCoreError::System { system, source: Box::new(coded) }) == code
            &&& exit_code_of(CliCoreError::Fix { fix, source: Box::new(coded) }) == code
        }),
{
    reveal_with_fuel(explicit_code_spec, 3);
}

/// A failure to find or ask a provider exits with 2, an unknown format with 3.
/// A message exits by its words: what is about authentication comes before what
/// is invalid, then what was not found, what is forbidden, and what was denied.
pub proof fn law_exit_code_by_message(message: String)
    ensures
        ({
            let code = exit_code_of(CliCoreError::Message(message));
            let words = text::lowercase(message@);
            let auth = text::contains_text(words, "auth"@);
            let invalid = text::contains_text(words, "validation"@) || text::contains_text(
                words,
                "invalid"@,
            );
            let absent = text::contains_text(words, "not found"@);
            let forbidden = text::contains_text(words, "permission"@) || text::contains_text(
                words,
                "forbidden"@,
            );
            let denied = text::contains_text(words, "denied"@);
            &&& 1 <= code <= 6
            &&& code == 2 <==> auth
            &&& code == 3 <==> !auth && invalid
            &&& code == 4 <==> !auth && !invalid && absent
            &&& code == 5 <==> !auth && !invalid && !absent && forbidden
            &&& code == 6 <==> !auth && !invalid && !absent && !forbidden && denied
        }),
        exit_code_of(CliCoreError::MissingAuthProvider(message)) == 2,
        exit_code_of(CliCoreError::InvalidOutputFormat(message)) == 3,
{
}

/// An error names the system that stands in it, where that is not empty, be it
/// behind an exit code or a hint.
pub proof fn law_error_names_its_system(
    system: String,
    source: CliCoreError,
    code: i32,
    fix: String,
)
    ensures
        ({
            let named = CliCoreError::System { system, source: Box::new(source) };
            &&& system@.len() > 0 ==> system_of_spec(named) == Some(system@)
            &&& system@.len() == 0 ==> system_of_spec(named) is None
            &&& system_of_spec(CliCoreError::ExitCode { code, source: Box::new(named) })
                == system_of_spec(named)
            &&& !is_auth_spec(named)
        }),
{
    reveal_with_fuel(system_of_spec, 3);
}

/// What fails because of a provider counts as authentication, be it behind an
/// exit code or a hint.
pub proof fn law_auth_errors_are_found(
    provider: String,
    source: CliCoreError,
    code: i32,
    fix: String,
)
    ensures
        is_auth_spec(CliCoreError::MissingAuthProvider(provider)),
        ({
            let failed = CliCoreError::AuthProvider { provider, source: Box::new(source) };
            &&& is_auth_spec(failed)
            &&& is_auth_spec(CliCoreError::ExitCode { code, source: Box::new(failed) })
            &&& is_auth_spec(CliCoreError::Fix { fix, source: Box::new(failed) })
        }),
{
    reveal_with_fuel(is_auth_spec, 3);
}

/// The error of a report says what the report says: its message, its code and
/// its system; a hint changes none of that.
pub proof fn law_report_is_kept(err: CliCoreError, report: ErrorReport)
    requires
        is_detailed(err, report),
    ensures
        display_spec(err) == report.message@,
        report.system matches Some(s) ==> (s@.len() > 0 ==> system_of_spec(err) == Some(s@)),
        report.system is None ==> system_of_spec(err) is None,
        report.fix matches Some(f) ==> (f@.len() > 0 ==> (err matches CliCoreError::Fix { fix, .. }
            && fix@ == f@)),
        report.fix is None ==> !(err is Fix),
        !is_auth_spec(err),
{
    reveal_with_fuel(display_spec, 4);
    reveal_with_fuel(system_of_spec, 3);
    reveal_with_fuel(is_auth_spec, 3);
}

/// A hint that is not empty stands around the error, and changes nothing of its
/// text; an empty one leaves no trace.
pub proof fn law_hints(fix: String, source: CliCoreError)
    ensures
        fix@.len() > 0 ==> (hinted(fix, source) matches CliCoreError::Fix { fix: f, source: s } && f
            == fix && *s == source),
        fix@.len() == 0 && !(source is Foreign) ==> hinted(fix, source) == source,
        display_spec(hinted(fix, source)) == display_spec(source),
{
    reveal_with_fuel(display_spec, 2);
}

/// An error that comes with a message shows it, whatever caused it, and a
/// missing provider and an unknown format are named.
pub proof fn law_error_shows_its_message(
    message: String,
    system: String,
    code: String,
    request_id: String,
    t: TransportError,
    source: Option<Box<CliCoreError>>,
)
    ensures
        display_spec(CliCoreError::SystemMessage { message, system, code, request_id })
            == message@,
        display_spec(CliCoreError::Transport(t)) == t.message@,
        display_spec(CliCoreError::Io { message, source }) == message@,
        display_spec(CliCoreError::Json { message, source }) == message@,
        display_spec(CliCoreError::Foreign { message, source }) == message@,
        text::contains_text(
            display_spec(CliCoreError::MissingAuthProvider(message)),
            text::debug_quoted(message@),
        ),
        text::contains_text(
            display_spec(CliCoreError::InvalidOutputFormat(message)),
            text::debug_quoted(message@),
        ),
{
    let name = text::debug_quoted(message@);
    text::lemma_part_occurs("auth: no provider registered with name "@, name, Seq::empty());
    assert("auth: no provider registered with name "@ + name + Seq::<char>::empty()
        =~= display_spec(CliCoreError::MissingAuthProvider(message)));
    text::lemma_part_occurs(
        "invalid output format "@,
        name,
        ": must be one of toon, json, human"@,
    );
}

/// What carries another error exits as that error does, as long as it has a code
/// or a kind of its own.
pub proof fn law_carried_error_decides_the_exit(
    message: String,
    system: String,
    code: i32,
    name: String,
)
    ensures
        ({
            let missing = CliCoreError::MissingAuthProvider(name);
            let coded = CliCoreError::ExitCode { code, source: Box::new(missing) };
            &&& exit_code_of(CliCoreError::System { system, source: Box::new(missing) }) == 2
            &&& exit_code_of(CliCoreError::Io { message, source: Some(Box::new(missing)) }) == 2
            &&& exit_code_of(CliCoreError::Json { message, source: Some(Box::new(missing)) }) == 2
            &&& exit_code_of(CliCoreError::Foreign { message, source: Some(Box::new(missing)) })
                == 2
            &&& exit_code_of(CliCoreError::Io { message, source: Some(Box::new(coded)) }) == code
            &&& exit_code_of(CliCoreError::Json { message, source: Some(Box::new(coded)) }) == code
            &&& exit_code_of(CliCoreError::Foreign { message, source: Some(Box::new(coded)) })
                == code
        }),
{
    reveal_with_fuel(explicit_code_spec, 3);
    reveal_with_fuel(kind_code_spec, 3);
}

} // verus!
