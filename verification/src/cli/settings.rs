//! Build metadata, the user agent, and other settings of an application.
use crate::error::CliCoreError;
use crate::error;
use crate::flags::debug_component_enabled;
use crate::flags;
use crate::output::envelope::build_error_envelope;
use crate::output::envelope;
use crate::text;
use vstd::prelude::*;
use vstd::string::*;

verus! {

/// Build metadata shown by the root `--version` flag.
pub struct BuildInfo {
    /// Semantic version or other release label.
    pub version: String,
    /// Optional source control commit identifier.
    pub commit: Option<String>,
    /// Optional build date string.
    pub date: Option<String>,
}

/// The version string of build metadata.
pub open spec fn version_text(b: BuildInfo) -> Seq<char> {
    let commit = error::text_or_empty(error::opt_text(b.commit));
    let date = error::text_or_empty(error::opt_text(b.date));
    if commit.len() == 0 && date.len() == 0 {
        b.version@
    } else {
        b.version@ + " (commit "@ + commit + ", built "@ + date + ")"@
    }
}

impl BuildInfo {
    /// Creates build metadata with only a version string.
    pub fn new(version: String) -> (r: Self)
        ensures
            r == (BuildInfo { version, commit: None, date: None }),
    {
        BuildInfo { version, commit: None, date: None }
    }

    /// Adds a commit identifier to the version string shown by `--version`.
    pub fn with_commit(self, commit: String) -> (r: Self)
        ensures
            r == (BuildInfo { commit: Some(commit), ..self }),
    {
        BuildInfo { version: self.version, commit: Some(commit), date: self.date }
    }

    /// Adds a build date to the version string shown by `--version`.
    pub fn with_date(self, date: String) -> (r: Self)
        ensures
            r == (BuildInfo { date: Some(date), ..self }),
    {
        BuildInfo { version: self.version, commit: self.commit, date: Some(date) }
    }

    /// Returns the rendered version string used by the root `--version` flag.
    pub fn version_string(&self) -> (r: String)
        ensures
            r@ == version_text(*self),
    {
        let commit: String = match &self.commit {
            Some(c) => c.clone(),
            None => String::new(),
        };
        let date: String = match &self.date {
            Some(d) => d.clone(),
            None => String::new(),
        };
        proof {
            assert(commit@ =~= error::text_or_empty(error::opt_text(self.commit)));
            assert(date@ =~= error::text_or_empty(error::opt_text(self.date)));
        }
        if commit.as_str().is_empty() && date.as_str().is_empty() {
            self.version.clone()
        } else {
            let mut r = self.version.clone();
            r.append(" (commit ");
            r.append(commit.as_str());
            r.append(", built ");
            r.append(date.as_str());
            r.append(")");
            r
        }
    }
}

/// The outbound user agent: an explicit one, else the name with the version.
pub open spec fn user_agent_spec(
    user_agent: Option<Seq<char>>,
    name: Seq<char>,
    version: Seq<char>,
) -> Seq<char> {
    match user_agent {
        Some(u) => u,
        None => if version.len() == 0 {
            name
        } else {
            name + "/"@ + version
        },
    }
}

/// Returns the outbound user agent of an application.
pub fn user_agent_string(user_agent: &Option<String>, name: &str, version: &str) -> (r: String)
    ensures
        r@ == user_agent_spec(error::opt_text(*user_agent), name@, version@),
{
    match user_agent {
        Some(u) => u.clone(),
        None => {
            let mut r = name.to_owned();
            if !version.is_empty() {
                r.append("/");
                r.append(version);
            }
            r
        },
    }
}

/// The names without the white space around them, but for those that are
/// nothing else.
pub open spec fn header_names(names: Seq<Seq<char>>) -> Seq<Seq<char>>
    decreases names.len(),
{
    if names.len() == 0 {
        Seq::empty()
    } else {
        let before = header_names(names.drop_last());
        let name = text::trim_spec(names.last());
        if name.len() == 0 {
            before
        } else {
            before.push(name)
        }
    }
}

/// Adds HTTP header names to those that debug output redacts.
pub fn add_redacted_headers(headers: &mut Vec<String>, names: &Vec<String>)
    ensures
        text::texts(final(headers)@) == text::texts(old(headers)@) + header_names(
            text::texts(names@),
        ),
{
    let ghost first = text::texts(headers@);
    let ghost all = text::texts(names@);
    let mut i: usize = 0;
    proof {
        assert(all.take(0) =~= Seq::empty());
        assert(first + header_names(all.take(0)) =~= first);
    }
    while i < names.len()
        invariant
            i <= names@.len(),
            all == text::texts(names@),
            text::texts(headers@) == first + header_names(all.take(i as int)),
        decreases names@.len() - i,
    {
        let ghost before = headers@;
        proof {
            assert(all.take(i + 1).drop_last() =~= all.take(i as int));
            assert(all.take(i + 1).last() == names@[i as int]@);
        }
        let name = text::trim(names[i].as_str());
        if !name.as_str().is_empty() {
            headers.push(name);
            proof {
                assert(text::texts(headers@) =~= text::texts(before).push(name@));
                assert(first + header_names(all.take(i + 1)) =~= (first + header_names(
                    all.take(i as int),
                )).push(name@));
            }
        }
        i = i + 1;
    }
    proof {
        assert(all.take(i as int) =~= all);
    }
}

/// The transport logger that a `--debug` pattern implies.
pub struct DebugTransportLogger {
    /// Whether requests are logged.
    pub active: bool,
    /// Further header names that are redacted.
    pub redacted: Vec<String>,
}

impl DebugTransportLogger {
    /// Tells whether requests are logged.
    pub fn enabled(&self) -> (r: bool)
        ensures
            r == self.active,
    {
        self.active
    }
}

/// Builds the transport debug logger implied by a parsed `--debug` pattern,
/// without publishing it anywhere.
pub fn debug_transport_logger_for(debug: &str, extra_redacted: &Vec<String>) -> (r:
    DebugTransportLogger)
    ensures
        r.active == flags::debug_enabled(debug@, "transport"@),
        text::texts(r.redacted@) == (if r.active {
            text::texts(extra_redacted@)
        } else {
            Seq::empty()
        }),
{
    if debug_component_enabled(debug, "transport") {
        DebugTransportLogger { active: true, redacted: text::clone_strings(extra_redacted) }
    } else {
        let redacted: Vec<String> = Vec::new();
        assert(text::texts(redacted@) =~= Seq::empty());
        DebugTransportLogger { active: false, redacted }
    }
}

/// The process exit code for a code of the engine: what does not fit is 1.
pub open spec fn process_code(code: i32) -> i32 {
    if 0 <= code <= 255 {
        code
    } else {
        1
    }
}

/// The process exit code for a code of the engine: what does not fit is 1.
pub fn process_exit_code(code: i32) -> (r: u8)
    ensures
        r == process_code(code),
{
    if 0 <= code && code <= 255 {
        code as u8
    } else {
        1
    }
}

/// A failed initialization never ends with exit code zero.
pub proof fn law_failure_is_never_success(code: i32)
    requires
        code != 0,
    ensures
        process_code(code) != 0,
{
}

/// A failure of the late initializer, kept for every later run.
pub struct InitFailure {
    /// Error text.
    pub message: String,
    /// Error code.
    pub code: String,
    /// System.
    pub system: String,
    /// Request id.
    pub request_id: String,
    /// Process-style exit code.
    pub exit_code: i32,
}

/// The failure keeps what an error says.
pub open spec fn is_captured(f: InitFailure, err: CliCoreError) -> bool {
    let d = envelope::shown_details(err, ""@);
    &&& f.message@ == error::display_spec(err)
    &&& f.code@ == d.code
    &&& f.system@ == d.system
    &&& f.request_id@ == d.request_id
    &&& f.exit_code == error::exit_code_of(err)
}

impl InitFailure {
    /// Copies the failure.
    pub fn copy(&self) -> (r: Self)
        ensures
            r == *self,
    {
        InitFailure {
            message: self.message.clone(),
            code: self.code.clone(),
            system: self.system.clone(),
            request_id: self.request_id.clone(),
            exit_code: self.exit_code,
        }
    }

    /// Keeps what an error says.
    pub fn capture(err: &CliCoreError) -> (r: Self)
        ensures
            is_captured(r, *err),
    {
        let e = build_error_envelope(err, "");
        let message = err.to_text();
        let exit_code: i32 = error::exit_code_for_error(err);
        match e.error {
            Some(d) => InitFailure {
                message,
                code: d.code,
                system: d.system,
                request_id: d.request_id,
                exit_code,
            },
            None => InitFailure {
                message,
                code: "ERROR".to_owned(),
                system: String::new(),
                request_id: String::new(),
                exit_code,
            },
        }
    }

    /// The error that is reported for the failure.
    pub fn into_error(self) -> (r: CliCoreError)
        ensures
            r == kept_error(self),
    {
        CliCoreError::with_exit_code(
            self.exit_code,
            CliCoreError::SystemMessage {
                message: self.message,
                system: self.system,
                code: self.code,
                request_id: self.request_id,
            },
        )
    }
}

/// The late initializer of an application.
pub enum InitState {
    /// It has not run.
    Pending,
    /// It succeeded.
    Ready,
    /// It failed.
    Failed(InitFailure),
}

/// What is done for a command with regard to the late initializer.
pub enum InitStep {
    /// There is none.
    Skip,
    /// It runs.
    RunHook,
    /// What it made is used.
    UseKept,
    /// Its failure is reported.
    Fail(CliCoreError),
}

/// `step` is what is done for a command: the initializer runs for the first, and
/// its outcome is kept for every later one.
pub open spec fn is_init_step(step: InitStep, has_hook: bool, state: InitState) -> bool {
    if !has_hook {
        step is Skip
    } else {
        match state {
            InitState::Pending => step is RunHook,
            InitState::Ready => step is UseKept,
            InitState::Failed(f) => step matches InitStep::Fail(e) && e == kept_error(f),
        }
    }
}

/// The error that is reported for a kept failure.
pub open spec fn kept_error(f: InitFailure) -> CliCoreError {
    CliCoreError::ExitCode {
        code: f.exit_code,
        source: Box::new(
            CliCoreError::SystemMessage {
                message: f.message,
                system: f.system,
                code: f.code,
                request_id: f.request_id,
            },
        ),
    }
}

/// What is done for a command with regard to the late initializer.
pub fn init_step(has_hook: bool, state: &InitState) -> (r: InitStep)
    ensures
        is_init_step(r, has_hook, *state),
{
    if !has_hook {
        return InitStep::Skip;
    }
    match state {
        InitState::Pending => InitStep::RunHook,
        InitState::Ready => InitStep::UseKept,
        InitState::Failed(f) => InitStep::Fail(f.copy().into_error()),
    }
}

/// What is kept of the initializer's run.
pub fn init_done(outcome: &Result<(), CliCoreError>) -> (r: InitState)
    ensures
        match *outcome {
            Ok(()) => r is Ready,
            Err(e) => r matches InitState::Failed(f) && is_captured(f, e),
        },
{
    match outcome {
        Ok(()) => InitState::Ready,
        Err(e) => InitState::Failed(InitFailure::capture(e)),
    }
}

/// Once the initializer ran it never runs again, and its failure is reported for
/// every later command.
pub proof fn law_initializer_runs_once(
    outcome: Result<(), CliCoreError>,
    state: InitState,
    step: InitStep,
)
    requires
        match outcome {
            Ok(()) => state is Ready,
            Err(e) => state matches InitState::Failed(f) && is_captured(f, e),
        },
        is_init_step(step, true, state),
    ensures
        !(step is RunHook),
        outcome matches Err(e) ==> (step matches InitStep::Fail(again) && error::display_spec(
            again,
        ) == error::display_spec(e) && error::exit_code_of(again) == error::exit_code_of(e)),
{
    reveal_with_fuel(error::display_spec, 3);
}

/// A unit of time.
#[derive(Clone, Copy, Debug, PartialEq, Eq, Structural)]
pub enum TimeUnit {
    /// `ns`.
    Nanoseconds,
    /// `us` or `µs`.
    Microseconds,
    /// `ms`.
    Milliseconds,
    /// `s`.
    Seconds,
    /// `m`.
    Minutes,
    /// `h`.
    Hours,
}

/// The text without a suffix that it ends with.
pub open spec fn without(s: Seq<char>, suffix: Seq<char>) -> Seq<char> {
    s.take(s.len() - suffix.len())
}

/// The number of a duration and its unit, told by its suffix; the longer
/// suffixes come first.
pub open spec fn duration_parts(raw: Seq<char>) -> Option<(Seq<char>, TimeUnit)> {
    if "ns"@.is_suffix_of(raw) {
        Some((without(raw, "ns"@), TimeUnit::Nanoseconds))
    } else if "us"@.is_suffix_of(raw) {
        Some((without(raw, "us"@), TimeUnit::Microseconds))
    } else if "µs"@.is_suffix_of(raw) {
        Some((without(raw, "µs"@), TimeUnit::Microseconds))
    } else if "ms"@.is_suffix_of(raw) {
        Some((without(raw, "ms"@), TimeUnit::Milliseconds))
    } else if "s"@.is_suffix_of(raw) {
        Some((without(raw, "s"@), TimeUnit::Seconds))
    } else if "m"@.is_suffix_of(raw) {
        Some((without(raw, "m"@), TimeUnit::Minutes))
    } else if "h"@.is_suffix_of(raw) {
        Some((without(raw, "h"@), TimeUnit::Hours))
    } else {
        None
    }
}

/// Splits a duration into its number and its unit.
pub fn split_duration(raw: &str) -> (r: Option<(String, TimeUnit)>)
    ensures
        match r {
            Some((number, unit)) => duration_parts(raw@) == Some((number@, unit)),
            None => duration_parts(raw@) is None,
        },
{
    if let Some(n) = text::strip_suffix(raw, "ns") {
        return Some((n, TimeUnit::Nanoseconds));
    }
    if let Some(n) = text::strip_suffix(raw, "us") {
        return Some((n, TimeUnit::Microseconds));
    }
    if let Some(n) = text::strip_suffix(raw, "µs") {
        return Some((n, TimeUnit::Microseconds));
    }
    if let Some(n) = text::strip_suffix(raw, "ms") {
        return Some((n, TimeUnit::Milliseconds));
    }
    if let Some(n) = text::strip_suffix(raw, "s") {
        return Some((n, TimeUnit::Seconds));
    }
    if let Some(n) = text::strip_suffix(raw, "m") {
        return Some((n, TimeUnit::Minutes));
    }
    if let Some(n) = text::strip_suffix(raw, "h") {
        return Some((n, TimeUnit::Hours));
    }
    None
}

/// Seconds that a command may take where no timeout is given.
pub const DEFAULT_TIMEOUT_SECS: u64 = 60;

/// What a timeout says.
pub enum TimeoutText {
    /// Nothing: the default holds.
    Default,
    /// A number, which is still to be read, of units.
    Given {
        /// The text before the unit.
        number: String,
        /// The unit.
        unit: TimeUnit,
    },
    /// No duration.
    Invalid(CliCoreError),
}

/// The error for a timeout that is no duration.
pub open spec fn timeout_complaint(raw: Seq<char>) -> Seq<char> {
    "invalid timeout "@ + text::debug_quoted(raw) + ": expected duration like 60s, 5m, or 0s"@
}

/// The error for a timeout that is no duration.
pub fn invalid_timeout(raw: &str) -> (r: CliCoreError)
    ensures
        error::is_message(r, timeout_complaint(raw@)),
{
    let mut m = "invalid timeout ".to_owned();
    m.append(text::debug_text(raw).as_str());
    m.append(": expected duration like 60s, 5m, or 0s");
    CliCoreError::message(m)
}

/// `r` is what a timeout says.
pub open spec fn is_timeout(r: TimeoutText, raw: Seq<char>) -> bool {
    let t = text::trim_spec(raw);
    if t.len() == 0 {
        r is Default
    } else {
        match duration_parts(t) {
            Some((n, u)) => r matches TimeoutText::Given { number, unit } && number@ == n && unit
                == u,
            None => r matches TimeoutText::Invalid(e) && error::is_message(e, timeout_complaint(t)),
        }
    }
}

/// Reads a timeout, without the white space around it, up to its number.
pub fn read_timeout(raw: &str) -> (r: TimeoutText)
    ensures
        is_timeout(r, raw@),
{
    let t = text::trim(raw);
    if t.as_str().is_empty() {
        return TimeoutText::Default;
    }
    match split_duration(t.as_str()) {
        Some((number, unit)) => TimeoutText::Given { number, unit },
        None => TimeoutText::Invalid(invalid_timeout(t.as_str())),
    }
}

/// Exit code of an interrupted run.
pub const INTERRUPTED_CODE: i32 = 130;

/// Output of an interrupted run.
pub const INTERRUPTED_TEXT: &'static str = "command interrupted\n";

/// Tells whether a run was interrupted, so that the shutdown hook is still to be
/// called.
pub fn is_interrupted(exit_code: i32, rendered: &str) -> (r: bool)
    ensures
        r == (exit_code == INTERRUPTED_CODE && rendered@ == INTERRUPTED_TEXT@),
{
    exit_code == INTERRUPTED_CODE && text::str_eq(rendered, INTERRUPTED_TEXT)
}

/// A code between 0 and 255 is kept, and only 0 is success.
pub proof fn law_exit_codes_are_kept(code: i32)
    ensures
        0 <= code <= 255 ==> process_code(code) == code,
        0 <= process_code(code) <= 255,
        process_code(code) == 0 <==> code == 0,
{
}

/// A kept failure is reported as the error that it was: with its text, its exit
/// code, its system, its code and its request.
pub proof fn law_kept_failure_says_the_same(f: InitFailure, err: CliCoreError, system: Seq<char>)
    requires
        is_captured(f, err),
    ensures
        error::display_spec(kept_error(f)) == error::display_spec(err),
        error::exit_code_of(kept_error(f)) == error::exit_code_of(err),
        envelope::shown_details(kept_error(f), system).code == envelope::shown_details(
            err,
            system,
        ).code,
        envelope::shown_details(kept_error(f), system).request_id == envelope::shown_details(
            err,
            system,
        ).request_id,
        envelope::shown_details(kept_error(f), system).system == envelope::shown_details(
            err,
            system,
        ).system,
{
    reveal_strlit("");
    reveal_strlit("ERROR");
    reveal_with_fuel(error::display_spec, 3);
    reveal_with_fuel(envelope::details_of, 3);
}

/// The number of a timeout stands before its unit, and each unit has its own
/// suffix. White space around a timeout does not matter, and a blank one is
/// none.
pub proof fn law_timeout_has_number_and_unit(number: Seq<char>, r: TimeoutText)
    requires
        number.len() > 0,
        forall|i: int| 0 <= i < number.len() ==> text::is_digit(#[trigger] number[i]),
    ensures
        duration_parts(number + "s"@) == Some((number, TimeUnit::Seconds)),
        duration_parts(number + "m"@) == Some((number, TimeUnit::Minutes)),
        duration_parts(number + "h"@) == Some((number, TimeUnit::Hours)),
        duration_parts(number + "ms"@) == Some((number, TimeUnit::Milliseconds)),
        duration_parts(number + "us"@) == Some((number, TimeUnit::Microseconds)),
        duration_parts(number + "ns"@) == Some((number, TimeUnit::Nanoseconds)),
        duration_parts(number) is None,
        is_timeout(r, ""@) ==> r is Default,
{
    reveal_strlit("s");
    reveal_strlit("m");
    reveal_strlit("h");
    reveal_strlit("ms");
    reveal_strlit("us");
    reveal_strlit("ns");
    reveal_strlit("µs");
    reveal_strlit("");
    let n: int = number.len() as int;
    assert(text::is_digit(number[n - 1]));
    assert((number + "s"@).take(n) =~= number);
    assert((number + "m"@).take(n) =~= number);
    assert((number + "h"@).take(n) =~= number);
    assert((number + "ms"@).take(n) =~= number);
    assert((number + "us"@).take(n) =~= number);
    assert((number + "ns"@).take(n) =~= number);
    lemma_suffixes(number, "s"@);
    lemma_suffixes(number, "m"@);
    lemma_suffixes(number, "h"@);
    lemma_suffixes(number, "ms"@);
    lemma_suffixes(number, "us"@);
    lemma_suffixes(number, "ns"@);
    lemma_suffixes(number, Seq::empty());
    assert(number + Seq::<char>::empty() =~= number);
}

/// What a text ends with is told by its last two characters.
proof fn lemma_suffixes(number: Seq<char>, unit: Seq<char>)
    requires
        number.len() > 0,
        unit.len() <= 2,
    ensures
        ({
            let s = number + unit;
            let last = s.last();
            &&& "s"@.is_suffix_of(s) <==> last == 's'
            &&& "m"@.is_suffix_of(s) <==> last == 'm'
            &&& "h"@.is_suffix_of(s) <==> last == 'h'
            &&& "ns"@.is_suffix_of(s) <==> s.len() >= 2 && last == 's' && s[s.len() - 2] == 'n'
            &&& "us"@.is_suffix_of(s) <==> s.len() >= 2 && last == 's' && s[s.len() - 2] == 'u'
            &&& "ms"@.is_suffix_of(s) <==> s.len() >= 2 && last == 's' && s[s.len() - 2] == 'm'
            &&& "µs"@.is_suffix_of(s) <==> s.len() >= 2 && last == 's' && s[s.len() - 2] == 'µ'
        }),
{
    reveal_strlit("s");
    reveal_strlit("m");
    reveal_strlit("h");
    reveal_strlit("ms");
    reveal_strlit("us");
    reveal_strlit("ns");
    reveal_strlit("µs");
    let s = number + unit;
    lemma_one_suffix(s, "s"@);
    lemma_one_suffix(s, "m"@);
    lemma_one_suffix(s, "h"@);
    lemma_two_suffix(s, "ns"@);
    lemma_two_suffix(s, "us"@);
    lemma_two_suffix(s, "ms"@);
    lemma_two_suffix(s, "µs"@);
}

proof fn lemma_one_suffix(s: Seq<char>, suffix: Seq<char>)
    requires
        s.len() > 0,
        suffix.len() == 1,
    ensures
        suffix.is_suffix_of(s) <==> s.last() == suffix[0],
{
    let end = s.subrange(s.len() - 1, s.len() as int);
    assert(end[0] == s.last());
    if s.last() == suffix[0] {
        assert(end =~= suffix);
    }
}

proof fn lemma_two_suffix(s: Seq<char>, suffix: Seq<char>)
    requires
        s.len() > 0,
        suffix.len() == 2,
    ensures
        suffix.is_suffix_of(s) <==> s.len() >= 2 && s.last() == suffix[1] && s[s.len() - 2]
            == suffix[0],
{
    if s.len() >= 2 {
        let end = s.subrange(s.len() - 2, s.len() as int);
        assert(end[0] == s[s.len() - 2] && end[1] == s.last());
        if s.last() == suffix[1] && s[s.len() - 2] == suffix[0] {
            assert(end =~= suffix);
        }
    }
}

/// A version shows the commit and the date where it has one of them, and else
/// nothing but itself.
pub proof fn law_version_shows_the_build(b: BuildInfo, commit: String, date: String)
    ensures
        b.commit is None && b.date is None ==> version_text(b) == b.version@,
        b.commit == Some(commit) && b.date == Some(date) && commit@.len() > 0 ==> version_text(b)
            == b.version@ + " (commit "@ + commit@ + ", built "@ + date@ + ")"@,
{
}

/// An explicit user agent is used as it is; else the name stands there, with the
/// version behind a slash where there is one.
pub proof fn law_user_agent(agent: Seq<char>, name: Seq<char>, version: Seq<char>)
    ensures
        user_agent_spec(Some(agent), name, version) == agent,
        version.len() > 0 ==> user_agent_spec(None, name, version) == name + "/"@ + version,
        version.len() == 0 ==> user_agent_spec(None, name, version) == name,
{
}

/// A header name is redacted without the white space around it; blank names are
/// none.
pub proof fn law_header_names_are_trimmed(names: Seq<Seq<char>>, name: Seq<char>)
    ensures
        text::trim_spec(name).len() == 0 ==> header_names(names.push(name)) == header_names(names),
        text::trim_spec(name).len() > 0 ==> header_names(names.push(name)) == header_names(
            names,
        ).push(text::trim_spec(name)),
        header_names(Seq::empty()).len() == 0,
{
    assert(names.push(name).drop_last() =~= names);
}

/// White space around a timeout does not matter, and what has no unit is no
/// timeout.
pub proof fn law_timeout_is_read(
    r: TimeoutText,
    before: Seq<char>,
    number: Seq<char>,
    behind: Seq<char>,
)
    requires
        number.len() > 0,
        forall|i: int| 0 <= i < number.len() ==> text::is_digit(#[trigger] number[i]),
        forall|i: int| 0 <= i < before.len() ==> text::is_whitespace_spec(#[trigger] before[i]),
        forall|i: int| 0 <= i < behind.len() ==> text::is_whitespace_spec(#[trigger] behind[i]),
    ensures
        is_timeout(r, before + (number + "m"@) + behind) ==> (r matches TimeoutText::Given {
            number: n,
            unit,
        } && n@ == number && unit is Minutes),
        is_timeout(r, before + number + behind) ==> r is Invalid,
{
    reveal_strlit("m");
    assert(text::is_digit(number[0]));
    assert(text::is_digit(number[number.len() - 1]));
    let minutes = number + "m"@;
    assert(minutes[0] == number[0]);
    assert(minutes.last() == 'm');
    text::law_trim_takes_only_white_space(before, minutes, behind);
    text::law_trim_takes_only_white_space(before, number, behind);
    law_timeout_has_number_and_unit(number, r);
}

} // verus!
