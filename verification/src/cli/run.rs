//! What an invocation leads to.
//!
//! Parsing and the commands themselves are outside; the functions here take
//! arguments and parsed values, and say what is done with them.
use crate::cli::args::{
    find_token, group_help_target_parts, has_root_version_flag,
    normalize_optional_global_flags_before_command, positional_command_tokens,
    rewrite_group_help_args, search_scope, unknown_group_command_message,
};
use crate::cli::args;
use crate::cli::argv0::{resolve_argv0, Argv0Outcome, Argv0Route, OutcomeText};
use crate::cli::argv0;
use crate::cli::help::render_next_actions_human;
use crate::cli::help;
use crate::command::{CommandSpec, SpecText};
use crate::command_tree::{
    canonical_command_path, find_command_by_colon_path, find_help_target, CommandNode,
};
use crate::command_tree;
use crate::error::CliCoreError;
use crate::error;
use crate::flags::{
    derive_bool_flags, derive_value_flags, extract_command_path, extract_output_format,
    extract_search_query, has_true_schema_flag, GlobalFlags,
};
use crate::flags;
use crate::groups::RuntimeCommandSpec;
use crate::guide::{guide_content, GuideEntry};
use crate::guide;
use crate::json::{no_members, object, with_member, Json, JsonModel};
use crate::json;
use crate::json_bridge;
use crate::middleware::meta::{CommandMeta, ValueMap};
use crate::middleware::render::RenderSettings;
use crate::middleware::run::{MiddlewareRequest, RunSettings};
use crate::ordmap::StringMap;
use crate::output::envelope::{build_error_envelope, Envelope, NextAction};
use crate::output::envelope;
use crate::output::formats::{is_valid_output_format, parse_format_or_json, OutputFormat};
use crate::output::formats;
use crate::text;
use vstd::prelude::*;
use vstd::string::*;

verus! {

/// The flags that do not consume the following token.
pub open spec fn bool_set(root: CommandNode) -> Set<Seq<char>> {
    flags::engine_bool_flags().union(flags::names_below(root, false))
}

/// The flags that consume the following token.
pub open spec fn value_set(root: CommandNode) -> Set<Seq<char>> {
    flags::names_below(root, true)
}

/// The output of a run.
pub struct CliRunOutput {
    /// Process-style exit code.
    pub exit_code: i32,
    /// Rendered text.
    pub rendered: String,
}

/// The output says so.
pub open spec fn is_output(o: CliRunOutput, exit_code: i32, rendered: Seq<char>) -> bool {
    o.exit_code == exit_code && o.rendered@ == rendered
}

/// What an invocation leads to before it is parsed.
pub enum Begin {
    /// The run is over with this output.
    Output(CliRunOutput),
    /// The schema of a command is shown.
    Schema {
        /// Canonical command path.
        path: String,
        /// Output format.
        format: String,
    },
    /// Search results are shown.
    Search {
        /// Query.
        query: String,
        /// Canonical path of the command that the search is limited to.
        scope: String,
        /// Output format.
        format: String,
    },
    /// The arguments are parsed.
    Parse(Vec<String>),
}

/// What an invocation leads to before it is parsed, said in texts.
pub enum BeginText {
    /// The run is over with this output.
    Output(i32, Seq<char>),
    /// The schema of a command is shown.
    Schema(Seq<char>, Seq<char>),
    /// Search results are shown.
    Search(Seq<char>, Seq<char>, Seq<char>),
    /// The arguments are parsed.
    Parse(Seq<Seq<char>>),
}

impl View for Begin {
    type V = BeginText;

    open spec fn view(&self) -> BeginText {
        match self {
            Begin::Output(o) => BeginText::Output(o.exit_code, o.rendered@),
            Begin::Schema { path, format } => BeginText::Schema(path@, format@),
            Begin::Search { query, scope, format } => BeginText::Search(query@, scope@, format@),
            Begin::Parse(args) => BeginText::Parse(text::texts(args@)),
        }
    }
}

/// The canonical command path of raw arguments.
pub open spec fn schema_path(root: CommandNode, args: Seq<Seq<char>>) -> Seq<char> {
    let path = text::join_spec(
        flags::path_from(args, 1, bool_set(root), value_set(root)),
        ":"@,
    );
    match command_tree::canonical_spec(root, command_tree::path_parts(path)) {
        Some(canonical) => canonical,
        None => path,
    }
}

/// The path leads to a command without subcommands.
pub open spec fn is_leaf(root: CommandNode, path: Seq<char>) -> bool {
    match command_tree::walk(root, command_tree::path_parts(path)) {
        Some((at, _)) => at.subcommands@.len() == 0,
        None => false,
    }
}

/// The canonical scope of a search.
pub open spec fn scope_spec(root: CommandNode, args: Seq<Seq<char>>) -> Seq<char> {
    match command_tree::canonical_spec(root, args::scope_from(args, 1)) {
        Some(path) => path,
        None => Seq::empty(),
    }
}

/// The positional arguments behind the program name.
pub open spec fn positionals(root: CommandNode, name: Seq<char>, args: Seq<Seq<char>>) -> Seq<
    Seq<char>,
> {
    args::positional_from(args, args::after_program(args, name), bool_set(root), value_set(root))
}

/// How many positional arguments precede a `--`, and so can be command keywords.
pub open spec fn keyword_count(root: CommandNode, name: Seq<char>, args: Seq<Seq<char>>) -> nat {
    let end = args::first_place(args, "--"@, 0);
    if end < args.len() {
        positionals(root, name, args.take(end)).len()
    } else {
        positionals(root, name, args).len()
    }
}

/// The arguments for the parser: optional global flags spelled out.
pub open spec fn normalized(root: CommandNode, args: Seq<Seq<char>>) -> Seq<Seq<char>> {
    args::normalize_from(root, args, 0, root)
}

/// The arguments for the parser where `<group> help` asks for the help of
/// `parts`.
pub open spec fn rewritten(
    root: CommandNode,
    name: Seq<char>,
    args: Seq<Seq<char>>,
    parts: Seq<Seq<char>>,
) -> Seq<Seq<char>> {
    let all = normalized(root, args);
    let start = args::after_program(all, name);
    all.take(start) + args::rewrite_from(
        all,
        start,
        bool_set(root),
        value_set(root),
        seq!["help"@] + parts,
    )
}

/// What an invocation leads to before it is parsed: the version first, then the
/// schema of a command, then a search, then the help of a group, and last an
/// unknown command below a group.
pub open spec fn begun(
    root: CommandNode,
    name: Seq<char>,
    version: Seq<char>,
    default_format: Seq<char>,
    args: Seq<Seq<char>>,
) -> BeginText {
    if args::version_from(
        args,
        args::after_program(args, name),
        bool_set(root),
        value_set(root),
    ) {
        BeginText::Output(0, name + " version "@ + version + "\n"@)
    } else if flags::schema_from(args, 0) && is_leaf(root, schema_path(root, args)) {
        BeginText::Schema(
            schema_path(root, args),
            flags::output_format_from(args, 0, default_format),
        )
    } else if flags::search_query_from(args, 0).len() > 0 {
        BeginText::Search(
            flags::search_query_from(args, 0),
            scope_spec(root, args),
            flags::output_format_from(args, 0, default_format),
        )
    } else {
        match args::help_target(
            root,
            positionals(root, name, args),
            keyword_count(root, name, args) as int,
        ) {
            Some(parts) => BeginText::Parse(rewritten(root, name, args, parts)),
            None => match args::unknown_message(root, positionals(root, name, args)) {
                Some(message) => BeginText::Output(1, message),
                None => BeginText::Parse(normalized(root, args)),
            },
        }
    }
}

fn count_keywords(
    root: &CommandNode,
    name: &str,
    text_args: &Vec<String>,
    positional_count: usize,
) -> (n: usize)
    requires
        positional_count == positionals(*root, name@, text::texts(text_args@)).len(),
    ensures
        n == keyword_count(*root, name@, text::texts(text_args@)),
{
    let ghost all = text::texts(text_args@);
    match find_token(text_args, "--") {
        None => positional_count,
        Some(end) => {
            let mut before: Vec<String> = Vec::new();
            let mut i: usize = 0;
            assert(all.take(0) =~= text::texts(before@));
            while i < end
                invariant
                    i <= end < text_args@.len(),
                    all == text::texts(text_args@),
                    text::texts(before@) == all.take(i as int),
                decreases end - i,
            {
                let ghost sofar = text::texts(before@);
                before.push(text_args[i].clone());
                i = i + 1;
                assert(text::texts(before@) =~= sofar.push(all[i - 1]));
                assert(all.take(i as int) =~= all.take(i - 1).push(all[i - 1]));
            }
            let bool_flags = derive_bool_flags(root);
            let value_flags = derive_value_flags(root);
            let tokens = positional_command_tokens(&before, name, &bool_flags, &value_flags);
            assert(text::texts(tokens@).len() == tokens@.len());
            tokens.len()
        },
    }
}

/// What an invocation leads to before it is parsed.
pub fn begin(
    root: &CommandNode,
    name: &str,
    version: &str,
    default_format: &str,
    text_args: &Vec<String>,
) -> (r: Begin)
    ensures
        r@ == begun(*root, name@, version@, default_format@, text::texts(text_args@)),
{
    let bool_flags = derive_bool_flags(root);
    let value_flags = derive_value_flags(root);
    if has_root_version_flag(text_args, name, &bool_flags, &value_flags) {
        let mut rendered = name.to_owned();
        rendered.append(" version ");
        rendered.append(version);
        rendered.append("\n");
        return Begin::Output(CliRunOutput { exit_code: 0, rendered });
    }
    if has_true_schema_flag(text_args) {
        let raw = extract_command_path(text_args, &bool_flags, &value_flags);
        let path = canonical_command_path(root, raw.as_str());
        match find_command_by_colon_path(root, path.as_str()) {
            Some(command) => {
                if !command.is_group() {
                    let format = extract_output_format(text_args, default_format);
                    return Begin::Schema { path, format };
                }
            },
            None => {},
        }
    }
    let query = extract_search_query(text_args);
    if !query.as_str().is_empty() {
        let scope = search_scope(root, text_args);
        let format = extract_output_format(text_args, default_format);
        return Begin::Search { query, scope, format };
    }
    let found = positional_command_tokens(text_args, name, &bool_flags, &value_flags);
    assert(text::texts(found@).len() == found@.len());
    let keywords: usize = count_keywords(root, name, text_args, found.len());
    let normal = normalize_optional_global_flags_before_command(root, text_args);
    match group_help_target_parts(root, &found, keywords) {
        Some(parts) => Begin::Parse(
            rewrite_group_help_args(&normal, name, &bool_flags, &value_flags, &parts),
        ),
        None => match unknown_group_command_message(root, &found) {
            Some(message) => Begin::Output(CliRunOutput { exit_code: 1, rendered: message }),
            None => Begin::Parse(normal),
        },
    }
}

/// What an invocation leads to, with its program name resolved first.
pub enum Opening {
    /// Another application is run, with these arguments behind its name.
    HandOff {
        /// The number of the other application.
        personality: u64,
        /// The arguments behind its name.
        rest: Vec<String>,
    },
    /// The program name is refused with an error page in this format.
    Refused {
        /// The error.
        error: CliCoreError,
        /// The format.
        format: String,
    },
    /// The invocation goes on.
    Begun(Begin),
}

/// `o` is what an invocation leads to: the program name is resolved first, and
/// what it stands for is then begun.
pub open spec fn is_opening(
    o: Opening,
    routes: StringMap<Argv0Route>,
    root: CommandNode,
    name: Seq<char>,
    version: Seq<char>,
    default_format: Seq<char>,
    args: Seq<Seq<char>>,
    depth: nat,
) -> bool {
    match argv0::resolved(argv0::route_texts(routes@), routes.order(), name, args, depth) {
        OutcomeText::Proceed(resolved) => o matches Opening::Begun(b) && b@ == begun(
            root,
            name,
            version,
            default_format,
            resolved,
        ),
        OutcomeText::Refused(message) => o matches Opening::Refused { error: e, format }
            && error::is_message(e, message) && format@ == flags::output_format_from(
            args,
            0,
            default_format,
        ),
        OutcomeText::HandOff(id, behind) => o matches Opening::HandOff { personality, rest }
            && personality == id && text::texts(rest@) == behind,
    }
}

/// What an invocation leads to, with its program name resolved first. `depth`
/// counts chained hand-offs.
pub fn open_run(
    routes: &StringMap<Argv0Route>,
    root: &CommandNode,
    name: &str,
    version: &str,
    default_format: &str,
    text_args: Vec<String>,
    depth: usize,
) -> (r: Opening)
    ensures
        is_opening(
            r,
            *routes,
            *root,
            name@,
            version@,
            default_format@,
            text::texts(text_args@),
            depth as nat,
        ),
{
    let format = extract_output_format(&text_args, default_format);
    match resolve_argv0(routes, name, text_args, depth) {
        Argv0Outcome::Proceed(args) => Opening::Begun(
            begin(root, name, version, default_format, &args),
        ),
        Argv0Outcome::Refused(message) => Opening::Refused {
            error: CliCoreError::message(message),
            format,
        },
        Argv0Outcome::HandOff { personality, rest } => Opening::HandOff { personality, rest },
    }
}

/// What a parsed invocation leads to.
pub enum Dispatch {
    /// The built-in `help`.
    Help,
    /// The built-in `tree`.
    Tree,
    /// The built-in `guide`.
    Guide,
    /// The built-in `completion`.
    Completion,
    /// A command of the application.
    Command,
    /// The help of a group.
    GroupHelp,
    /// The suggested next actions of the bare root.
    RootActions,
    /// The help of the root.
    RootHelp,
    /// A path that leads nowhere.
    Unknown(CliRunOutput),
}

/// The path leads to a command with subcommands.
pub open spec fn is_group_path(root: CommandNode, path: Seq<char>) -> bool {
    match command_tree::walk(root, command_tree::path_parts(path)) {
        Some((at, _)) => at.subcommands@.len() > 0,
        None => false,
    }
}

/// `d` is what the command path of a parsed invocation leads to: the built-in
/// commands first, then those of the application, then groups and the root.
pub open spec fn is_dispatch(
    d: Dispatch,
    root: CommandNode,
    commands: Set<Seq<char>>,
    has_root_actions: bool,
    path: Seq<char>,
) -> bool {
    if path == "help"@ {
        d is Help
    } else if path == "tree"@ {
        d is Tree
    } else if path == "guide"@ {
        d is Guide
    } else if path == "completion"@ {
        d is Completion
    } else if commands.contains(path) {
        d is Command
    } else if path.len() > 0 && is_group_path(root, path) {
        d is GroupHelp
    } else if path.len() > 0 {
        d matches Dispatch::Unknown(o) && is_output(
            o,
            1,
            "unknown command "@ + text::debug_quoted(path),
        )
    } else if has_root_actions {
        d is RootActions
    } else {
        d is RootHelp
    }
}

/// What the command path of a parsed invocation leads to.
pub fn dispatch(
    root: &CommandNode,
    commands: &StringMap<RuntimeCommandSpec>,
    has_root_actions: bool,
    path: &str,
) -> (d: Dispatch)
    ensures
        is_dispatch(d, *root, commands@.dom(), has_root_actions, path@),
{
    if text::str_eq(path, "help") {
        return Dispatch::Help;
    }
    if text::str_eq(path, "tree") {
        return Dispatch::Tree;
    }
    if text::str_eq(path, "guide") {
        return Dispatch::Guide;
    }
    if text::str_eq(path, "completion") {
        return Dispatch::Completion;
    }
    if commands.contains_key(path) {
        return Dispatch::Command;
    }
    if !path.is_empty() {
        match find_command_by_colon_path(root, path) {
            Some(group) => {
                if group.is_group() {
                    return Dispatch::GroupHelp;
                }
            },
            None => {},
        }
        let mut rendered = "unknown command ".to_owned();
        rendered.append(text::debug_text(path).as_str());
        return Dispatch::Unknown(CliRunOutput { exit_code: 1, rendered });
    }
    if has_root_actions {
        Dispatch::RootActions
    } else {
        Dispatch::RootHelp
    }
}

/// A step of a parsed invocation. The first that fails ends the run with an
/// error page.
#[derive(Clone, Copy, Debug, PartialEq, Eq, Structural)]
pub enum RunStep {
    /// The application's hook takes its own flags.
    ApplyFlags,
    /// The environment flag is validated and takes effect.
    ApplyEnv,
    /// The late initializer runs, or its kept outcome is used.
    Initialize,
    /// The hook before commands runs.
    PreRun,
    /// The built-in output is shown.
    Show,
    /// The command is executed.
    Execute,
}

/// The steps of a parsed invocation. The root and unknown commands are shown
/// without the hook before commands; a command of the application takes the
/// flags once more after its initialization.
pub open spec fn plan_of(d: Dispatch) -> Seq<RunStep> {
    match d {
        Dispatch::Command => seq![
            RunStep::ApplyFlags,
            RunStep::ApplyEnv,
            RunStep::Initialize,
            RunStep::ApplyFlags,
            RunStep::ApplyEnv,
            RunStep::PreRun,
            RunStep::Execute,
        ],
        Dispatch::RootActions | Dispatch::RootHelp | Dispatch::Unknown(_) => seq![
            RunStep::ApplyFlags,
            RunStep::ApplyEnv,
            RunStep::Show,
        ],
        _ => seq![RunStep::ApplyFlags, RunStep::ApplyEnv, RunStep::PreRun, RunStep::Show],
    }
}

/// The steps of a parsed invocation.
pub fn run_plan(d: &Dispatch) -> (r: Vec<RunStep>)
    ensures
        r@ == plan_of(*d),
{
    let mut r: Vec<RunStep> = Vec::new();
    r.push(RunStep::ApplyFlags);
    r.push(RunStep::ApplyEnv);
    match d {
        Dispatch::Command => {
            r.push(RunStep::Initialize);
            r.push(RunStep::ApplyFlags);
            r.push(RunStep::ApplyEnv);
            r.push(RunStep::PreRun);
            r.push(RunStep::Execute);
        },
        Dispatch::RootActions | Dispatch::RootHelp | Dispatch::Unknown(_) => {
            r.push(RunStep::Show);
        },
        _ => {
            r.push(RunStep::PreRun);
            r.push(RunStep::Show);
        },
    }
    assert(r@ =~= plan_of(*d));
    r
}

/// A command is executed last, and only after the initializer and the hook
/// before commands.
pub proof fn law_commands_run_last(d: Dispatch, i: int)
    requires
        0 <= i < plan_of(d).len(),
        plan_of(d)[i] == RunStep::Execute,
    ensures
        i == plan_of(d).len() - 1,
        plan_of(d).take(i).contains(RunStep::Initialize),
        plan_of(d).take(i).contains(RunStep::PreRun),
{
    let before = plan_of(d).take(i);
    assert(d is Command);
    assert(before[2] == RunStep::Initialize);
    assert(before[5] == RunStep::PreRun);
}

/// The human view of a command: a shared one wins, else its own columns under
/// its path.
pub open spec fn view_of(s: SpecText, path: Seq<char>) -> Option<Seq<char>> {
    match s.view_id {
        Some(id) => Some(id),
        None => if s.view_columns.len() > 0 {
            Some(path)
        } else {
            None
        },
    }
}

/// `r` is the request for a command that was found, with its metadata.
pub open spec fn is_request(
    r: MiddlewareRequest,
    spec: SpecText,
    path: Seq<char>,
    meta: CommandMeta,
    args: ValueMap,
    user_args: ValueMap,
) -> bool {
    &&& r.meta == meta
    &&& r.command_path@ == path
    &&& r.system@ == error::text_or_empty(spec.system)
    &&& r.user_args == user_args
    &&& r.args == args
    &&& r.default_fields@ == error::text_or_empty(spec.default_fields)
    &&& error::opt_text(r.view_id) == view_of(spec, path)
    &&& r.auth == spec.auth
}

/// The request for a command that was found, with its metadata.
pub fn command_request(
    spec: &CommandSpec,
    path: &str,
    meta: CommandMeta,
    args: ValueMap,
    user_args: ValueMap,
) -> (r: MiddlewareRequest)
    ensures
        is_request(r, spec@, path@, meta, args, user_args),
{
    let system: String = match &spec.system {
        Some(s) => s.clone(),
        None => String::new(),
    };
    let default_fields: String = match &spec.default_fields {
        Some(f) => f.clone(),
        None => String::new(),
    };
    let view_id = match &spec.view_id {
        Some(id) => Some(id.clone()),
        None => {
            if spec.view_columns.len() > 0 {
                Some(path.to_owned())
            } else {
                None
            }
        },
    };
    proof {
        assert(system@ =~= error::text_or_empty(spec@.system));
        assert(default_fields@ =~= error::text_or_empty(spec@.default_fields));
    }
    MiddlewareRequest {
        meta,
        command_path: path.to_owned(),
        system,
        user_args,
        args,
        default_fields,
        view_id,
        auth: spec.auth,
    }
}

/// `r` are the settings that parsed global flags give for rendering.
pub open spec fn are_render_settings(
    r: RenderSettings,
    f: GlobalFlags,
    app_id: Seq<char>,
    env: Seq<char>,
) -> bool {
    &&& r.app_id@ == app_id
    &&& r.output_format@ == f.output_format@
    &&& r.env@ == env
    &&& r.verbose@ == f.verbose@
    &&& r.fields@ == f.fields@
    &&& r.filter@ == f.filter@
    &&& r.expr@ == f.expr@
    &&& r.limit == f.limit
    &&& r.offset == f.offset
}

/// The settings that parsed global flags give for rendering.
pub fn render_settings(f: &GlobalFlags, app_id: &str, env: &str) -> (r: RenderSettings)
    ensures
        are_render_settings(r, *f, app_id@, env@),
{
    RenderSettings {
        app_id: app_id.to_owned(),
        output_format: f.output_format.clone(),
        env: env.to_owned(),
        verbose: f.verbose.clone(),
        fields: f.fields.clone(),
        filter: f.filter.clone(),
        expr: f.expr.clone(),
        limit: f.limit,
        offset: f.offset,
    }
}

/// `r` are the settings that parsed global flags give for a run.
pub open spec fn are_run_settings(
    r: RunSettings,
    f: GlobalFlags,
    default_auth_provider: Seq<char>,
    env: Seq<char>,
    authorizes: bool,
) -> bool {
    &&& r.default_auth_provider@ == default_auth_provider
    &&& r.env@ == env
    &&& r.dry_run == f.dry_run
    &&& r.schema == f.schema
    &&& r.authorizes == authorizes
}

/// The settings that parsed global flags give for a run.
pub fn run_settings(
    f: &GlobalFlags,
    default_auth_provider: &str,
    env: &str,
    authorizes: bool,
) -> (r: RunSettings)
    ensures
        are_run_settings(r, *f, default_auth_provider@, env@, authorizes),
{
    RunSettings {
        default_auth_provider: default_auth_provider.to_owned(),
        env: env.to_owned(),
        dry_run: f.dry_run,
        schema: f.schema,
        authorizes,
    }
}

/// An envelope with the format to render it in.
pub struct Page {
    /// The envelope, prepared for rendering.
    pub envelope: Envelope,
    /// The format.
    pub format: OutputFormat,
    /// Process-style exit code.
    pub exit_code: i32,
}

/// Data in an envelope of the application, without metadata.
pub fn data_page(data: Json, app_id: &str, format: &str) -> (r: Page)
    ensures
        r.envelope@.data == Some(data@),
        r.envelope@.metadata is None,
        r.envelope@.error is None,
        r.envelope@.warnings.len() == 0,
        r.envelope@.next_actions.len() == 0,
        r.envelope@.serialization_error is None,
        r.format == formats::format_or_json(format@),
        r.exit_code == 0,
{
    let envelope = Envelope::success(data, app_id).prepare_for_render("");
    proof {
        reveal_strlit("");
    }
    Page { envelope, format: parse_format_or_json(format), exit_code: 0 }
}

/// The envelope of an error, with its exit code.
pub fn error_page(err: &CliCoreError, system: &str, verbose: &str, format: &str) -> (r: Page)
    ensures
        is_error_page(r, *err, system@, verbose@, format@),
{
    let e = build_error_envelope(err, system);
    let ghost timestamp = e.metadata->0.timestamp@;
    let envelope = e.prepare_for_render(verbose);
    let r = Page {
        envelope,
        format: parse_format_or_json(format),
        exit_code: error::exit_code_for_error(err),
    };
    assert(r.envelope@ == envelope::prepared(
        crate::middleware::render::error_text(*err, system@, timestamp),
        verbose@,
    ));
    r
}

/// The page shows the error.
pub open spec fn is_error_page(
    r: Page,
    err: CliCoreError,
    system: Seq<char>,
    verbose: Seq<char>,
    format: Seq<char>,
) -> bool {
    &&& exists|timestamp: Seq<char>|
        r.envelope@ == envelope::prepared(
            #[trigger] crate::middleware::render::error_text(err, system, timestamp),
            verbose,
        )
    &&& r.format == formats::format_or_json(format)
    &&& r.exit_code == error::exit_code_of(err)
}

/// What the bare root shows.
pub enum RootReply {
    /// An error text with its exit code.
    Failure(CliRunOutput),
    /// The help of the root with this long description.
    Help(String),
    /// Data in an envelope.
    Data(Page),
}

/// The description of the application: the long one, else the short one.
pub open spec fn description(long: Option<Seq<char>>, short: Seq<char>) -> Seq<char> {
    match long {
        Some(l) => if l.len() > 0 {
            l
        } else {
            short
        },
        None => short,
    }
}

/// The description and the version of the application in an envelope with the
/// suggested actions.
pub open spec fn root_envelope(
    long: Option<Seq<char>>,
    short: Seq<char>,
    version: Seq<char>,
    app_id: Seq<char>,
    timestamp: Seq<char>,
    actions: Seq<envelope::ActionText>,
) -> envelope::EnvelopeText {
    envelope::EnvelopeText {
        next_actions: actions,
        ..envelope::plain_envelope(
            Some(
                JsonModel::Object(
                    json::nothing().insert(
                        "description"@,
                        JsonModel::Text(description(long, short)),
                    ).insert("version"@, JsonModel::Text(version)),
                ),
            ),
            envelope::fresh_metadata(app_id, timestamp),
            None,
            None,
        )
    }
}

/// What the bare root shows: for people the long help with the suggested
/// actions, otherwise a description with the actions. An unknown format is an
/// error.
pub open spec fn is_root_reply(
    r: RootReply,
    root_long: Seq<char>,
    long: Option<Seq<char>>,
    short: Seq<char>,
    version: Seq<char>,
    app_id: Seq<char>,
    verbose: Seq<char>,
    format: Seq<char>,
    actions: Seq<envelope::ActionText>,
) -> bool {
    match formats::named_format(format) {
        None => r matches RootReply::Failure(o) && is_output(o, 3, invalid_format_text(format)),
        Some(OutputFormat::Human) => r matches RootReply::Help(h) && h@ == root_long
            + help::actions_section(actions),
        Some(f) => r matches RootReply::Data(page) && {
            &&& exists|timestamp: Seq<char>|
                page.envelope@ == envelope::prepared(
                    #[trigger] root_envelope(long, short, version, app_id, timestamp, actions),
                    verbose,
                )
            &&& page.format == f
            &&& page.exit_code == 0
        },
    }
}

/// The text of the error for an unknown format.
pub open spec fn invalid_format_text(format: Seq<char>) -> Seq<char> {
    "invalid output format "@ + text::debug_quoted(format)
        + ": must be one of toon, json, human"@
}

/// What the bare root shows.
pub fn render_root(
    root_long: &str,
    long: &Option<String>,
    short: &str,
    version: &str,
    app_id: &str,
    verbose: &str,
    format: &str,
    actions: Vec<NextAction>,
) -> (r: RootReply)
    ensures
        is_root_reply(
            r,
            root_long@,
            error::opt_text(*long),
            short@,
            version@,
            app_id@,
            verbose@,
            format@,
            envelope::action_texts(actions@),
        ),
{
    if !is_valid_output_format(format) {
        let err = CliCoreError::InvalidOutputFormat(format.to_owned());
        return RootReply::Failure(
            CliRunOutput {
                exit_code: error::exit_code_for_error(&err),
                rendered: err.to_text(),
            },
        );
    }
    let parsed = parse_format_or_json(format);
    match parsed {
        OutputFormat::Human => {
            let mut h = root_long.to_owned();
            h.append(render_next_actions_human(&actions).as_str());
            RootReply::Help(h)
        },
        _ => {
            let intro: String = match long {
                Some(l) => {
                    if l.as_str().is_empty() {
                        short.to_owned()
                    } else {
                        l.clone()
                    }
                },
                None => short.to_owned(),
            };
            let m = with_member(no_members(), "description", Json::from_text(intro.as_str()));
            let data = object(with_member(m, "version", Json::from_text(version)));
            let plain = Envelope::success(data, app_id);
            let ghost timestamp = plain.metadata->0.timestamp@;
            let full = plain.with_next_actions(actions);
            let envelope = full.prepare_for_render(verbose);
            assert(full@ == root_envelope(
                error::opt_text(*long),
                short@,
                version@,
                app_id@,
                timestamp,
                envelope::action_texts(actions@),
            ));
            RootReply::Data(Page { envelope, format: parsed, exit_code: 0 })
        },
    }
}

/// What `guide` shows.
pub struct GuideReply {
    /// The output.
    pub output: CliRunOutput,
    /// Whether the text is a guide that is reflowed for people.
    pub reflow: bool,
}

/// `r` is what `guide` shows for a topic, or for none.
pub open spec fn is_guide_reply(
    r: GuideReply,
    entries: Seq<guide::GuideText>,
    topic: Option<Seq<char>>,
    format: Seq<char>,
) -> bool {
    if formats::named_format(format) is None {
        is_output(r.output, 3, invalid_format_text(format)) && !r.reflow
    } else {
        match topic {
            None => is_output(r.output, 0, guide::topic_list(entries)) && !r.reflow,
            Some(name) => match guide::last_on(entries, name) {
                Some(content) => is_output(r.output, 0, content) && r.reflow == (format
                    == "human"@),
                None => is_output(
                    r.output,
                    1,
                    "unknown guide topic "@ + text::debug_quoted(name) + " — valid topics: "@
                        + text::join_spec(guide::topics(entries), ", "@),
                ) && !r.reflow,
            },
        }
    }
}

/// Shows the list of guides or one of them. Only the body of a guide is
/// reflowed, and only for people.
pub fn render_guide(entries: &Vec<GuideEntry>, topic: Option<&str>, format: &str) -> (r: GuideReply)
    ensures
        is_guide_reply(
            r,
            guide::guide_texts(entries@),
            (match topic {
                Some(name) => Some(name@),
                None => None,
            }),
            format@,
        ),
{
    if !is_valid_output_format(format) {
        let err = CliCoreError::InvalidOutputFormat(format.to_owned());
        let output = CliRunOutput {
            exit_code: error::exit_code_for_error(&err),
            rendered: err.to_text(),
        };
        return GuideReply { output, reflow: false };
    }
    match guide_content(entries, topic) {
        Ok(rendered) => GuideReply {
            output: CliRunOutput { exit_code: 0, rendered },
            reflow: topic.is_some() && text::str_eq(format, "human"),
        },
        Err(message) => GuideReply {
            output: CliRunOutput { exit_code: 1, rendered: message },
            reflow: false,
        },
    }
}

/// Whose help is shown.
pub enum HelpReply<'a> {
    /// That of a command.
    Of(&'a CommandNode),
    /// None: the path leads nowhere.
    Unknown(CliRunOutput),
}

/// `r` is whose help is shown for a path.
pub open spec fn is_help_reply(
    r: HelpReply,
    root: CommandNode,
    name: Seq<char>,
    parts: Seq<Seq<char>>,
) -> bool {
    let n = command_tree::longest_walk(root, parts, parts.len());
    if parts.len() == 0 {
        r matches HelpReply::Of(c) && *c == root
    } else if n == 0 {
        r matches HelpReply::Unknown(o) && is_output(
            o,
            1,
            "unknown command "@ + text::debug_quoted(text::join_spec(parts, " "@)) + " — run '"@
                + name + " help' for available commands"@,
        )
    } else {
        r matches HelpReply::Of(c) && (command_tree::walk(root, parts.take(n as int)) matches Some(
            (at, _),
        ) && at == *c)
    }
}

/// Whose help is shown for a path: that of the root for an empty one, that of
/// the command at the end of the longest start that leads somewhere, and none
/// where not even the first name does.
pub fn render_help_for_parts<'a>(root: &'a CommandNode, name: &str, parts: &Vec<String>) -> (r:
    HelpReply<'a>)
    ensures
        is_help_reply(r, *root, name@, text::texts(parts@)),
{
    if parts.len() == 0 {
        return HelpReply::Of(root);
    }
    match find_help_target(root, parts) {
        Some(command) => HelpReply::Of(command),
        None => {
            let mut rendered = "unknown command ".to_owned();
            rendered.append(text::debug_text(text::join(parts, " ").as_str()).as_str());
            rendered.append(" — run '");
            rendered.append(name);
            rendered.append(" help' for available commands");
            HelpReply::Unknown(CliRunOutput { exit_code: 1, rendered })
        },
    }
}

/// The line that a streaming command shows for an event: the event as JSON, with
/// the only line feed at its end. There is none for an event that is no JSON.
pub fn event_line(event: &Json) -> (r: Option<String>)
    ensures
        match json_bridge::compact_text(event@) {
            Some(t) => r matches Some(line) && line@ == t + "\n"@ && !t.contains('\n'),
            None => r is None,
        },
{
    match json_bridge::value_text(&json_bridge::to_serde(event)) {
        Some(t) => {
            let mut line = t;
            line.append("\n");
            Some(line)
        },
        None => None,
    }
}

/// What is still to be shown of a streaming command that ended.
pub open spec fn streamed(output: CliRunOutput) -> Seq<char> {
    if output.exit_code == 0 {
        ""@
    } else {
        output.rendered@
    }
}

/// The output of a streaming command: nothing where it succeeded, as its events
/// were shown already.
pub fn streaming_output(output: CliRunOutput) -> (r: CliRunOutput)
    ensures
        r.exit_code == output.exit_code,
        r.rendered@ == streamed(output),
{
    if output.exit_code == 0 {
        CliRunOutput { exit_code: 0, rendered: "".to_owned() }
    } else {
        output
    }
}

/// The error for a command that took too long.
pub fn timeout_error(label: &str) -> (r: CliCoreError)
    ensures
        error::is_message(r, "command timed out after "@ + label@),
{
    let mut m = "command timed out after ".to_owned();
    m.append(label);
    CliCoreError::message(m)
}

/// A request for the version is answered whatever else the invocation holds.
pub proof fn law_version_comes_first(
    root: CommandNode,
    name: Seq<char>,
    version: Seq<char>,
    default_format: Seq<char>,
    args: Seq<Seq<char>>,
)
    requires
        args::version_from(
            args,
            args::after_program(args, name),
            bool_set(root),
            value_set(root),
        ),
    ensures
        begun(root, name, version, default_format, args) == BeginText::Output(
            0,
            name + " version "@ + version + "\n"@,
        ),
{
}

/// `--schema` on a command never leads to the parser, and so never runs it.
pub proof fn law_schema_never_parses(
    root: CommandNode,
    name: Seq<char>,
    version: Seq<char>,
    default_format: Seq<char>,
    args: Seq<Seq<char>>,
)
    requires
        flags::schema_from(args, 0),
        is_leaf(root, schema_path(root, args)),
    ensures
        !(begun(root, name, version, default_format, args) is Parse),
{
}

/// A search never leads to the parser.
pub proof fn law_search_never_parses(
    root: CommandNode,
    name: Seq<char>,
    version: Seq<char>,
    default_format: Seq<char>,
    args: Seq<Seq<char>>,
)
    requires
        flags::search_query_from(args, 0).len() > 0,
    ensures
        !(begun(root, name, version, default_format, args) is Parse),
{
}

/// No command of the application can take the place of a built-in one.
pub proof fn law_builtins_win(
    d: Dispatch,
    root: CommandNode,
    commands: Set<Seq<char>>,
    has_root_actions: bool,
    path: Seq<char>,
)
    requires
        crate::cli::search::is_builtin(path),
        is_dispatch(d, root, commands, has_root_actions, path),
    ensures
        !(d is Command),
{
}

/// Words that lead to a command are handed to the parser as they are.
pub proof fn law_commands_are_parsed(
    root: CommandNode,
    name: Seq<char>,
    version: Seq<char>,
    default_format: Seq<char>,
    program: Seq<char>,
    words: Seq<Seq<char>>,
)
    requires
        args::names_program(program, name),
        !args::is_flag(program),
        forall|i: int|
            0 <= i < words.len() ==> args::is_plain(
                #[trigger] words[i],
                bool_set(root),
                value_set(root),
            ) && words[i] != "help"@,
        command_tree::walk(root, words) is Some,
    ensures
        begun(root, name, version, default_format, seq![program] + words) == BeginText::Parse(
            seq![program] + words,
        ),
{
    let all = seq![program] + words;
    let bools = bool_set(root);
    let values = value_set(root);
    reveal_strlit("--dry-run");
    reveal_strlit("--schema");
    reveal_strlit("--schema=");
    reveal_strlit("--verbose");
    reveal_strlit("--debug");
    reveal_strlit("--search");
    reveal_strlit("--search=");
    reveal_strlit("--");
    reveal_strlit("--version");
    reveal_strlit("-v");
    assert("--dry-run"@[0] == '-' && "--schema"@[0] == '-' && "--verbose"@[0] == '-');
    assert("--debug"@[0] == '-' && "--search"@[0] == '-' && "--"@[0] == '-');
    assert("--schema="@[0] == '-' && "--search="@[0] == '-');
    assert("--version"@[0] == '-' && "-v"@[0] == '-');
    assert(all[0] == program);
    assert(all.skip(1) =~= words);
    assert forall|k: int| 0 <= k < all.len() implies !args::is_flag(#[trigger] all[k]) by {
        if k > 0 {
            assert(all[k] == words[k - 1]);
        }
    }
    args::law_positional_words(all, 1, bools, values);
    if words.len() > 0 {
        assert(all[1] == words[0]);
        assert(args::is_plain(words[0], bools, values));
    }
    lemma_no_schema(all, 0);
    lemma_no_search(all, 0);
    if words.contains("help"@) {
        let i = choose|i: int| 0 <= i < words.len() && words[i] == "help"@;
        assert(words[i] != "help"@);
    }
    args::law_no_help_without_the_word(root, words, words, keyword_count(root, name, all) as int);
    args::law_known_path_is_not_unknown(root, words);
    assert forall|k: int| 0 <= k < all.len() implies (#[trigger] all[k]) != "--dry-run"@ && all[k]
        != "--schema"@ && all[k] != "--verbose"@ && all[k] != "--debug"@ by {
        assert(!args::is_flag(all[k]));
    }
    args::law_other_arguments_stay(root, all, 0, root);
    assert(all.skip(0) =~= all);
}

proof fn lemma_no_schema(args: Seq<Seq<char>>, i: int)
    requires
        0 <= i <= args.len(),
        forall|k: int| 0 <= k < args.len() ==> !args::is_flag(#[trigger] args[k]),
    ensures
        !flags::schema_from(args, i),
    decreases args.len() - i,
{
    reveal_strlit("--schema");
    reveal_strlit("--schema=");
    if i < args.len() {
        assert(!args::is_flag(args[i]));
        assert("--schema"@[0] == '-' && "--schema="@[0] == '-');
        if "--schema="@.is_prefix_of(args[i]) {
            assert(args[i][0] == "--schema="@[0]);
        }
        lemma_no_schema(args, i + 1);
    }
}

proof fn lemma_no_search(args: Seq<Seq<char>>, i: int)
    requires
        0 <= i <= args.len(),
        forall|k: int| 0 <= k < args.len() ==> !args::is_flag(#[trigger] args[k]),
    ensures
        flags::search_query_from(args, i).len() == 0,
    decreases args.len() - i,
{
    reveal_strlit("--search");
    reveal_strlit("--search=");
    if i < args.len() {
        assert(!args::is_flag(args[i]));
        assert("--search"@[0] == '-' && "--search="@[0] == '-');
        if "--search="@.is_prefix_of(args[i]) {
            assert(args[i][0] == "--search="@[0]);
        }
        lemma_no_search(args, i + 1);
    }
}

/// What an invocation asks for is what it leads to: the schema of the command
/// that it names, or a search for its own words, in the format that it asks
/// for.
pub proof fn law_questions_are_answered(
    root: CommandNode,
    name: Seq<char>,
    version: Seq<char>,
    default_format: Seq<char>,
    args: Seq<Seq<char>>,
)
    requires
        !args::version_from(
            args,
            args::after_program(args, name),
            bool_set(root),
            value_set(root),
        ),
    ensures
        ({
            let b = begun(root, name, version, default_format, args);
            &&& flags::schema_from(args, 0) && is_leaf(root, schema_path(root, args)) ==> (b matches
                BeginText::Schema(path, format) && path == schema_path(root, args) && format
                == flags::output_format_from(args, 0, default_format))
            &&& !flags::schema_from(args, 0) && flags::search_query_from(args, 0).len() > 0 ==> (
            b matches BeginText::Search(query, scope, format) && query == flags::search_query_from(
                args,
                0,
            ) && scope == scope_spec(root, args) && format == flags::output_format_from(
                args,
                0,
                default_format,
            ))
            &&& b matches BeginText::Output(code, _) ==> code == 1
        }),
{
}

/// A parsed command leads to its own handling: a built-in by its name, a command
/// of the application by its path, a group to its help, nothing to the root,
/// and any other path to a failure that names it.
pub proof fn law_path_leads_to_its_command(
    d: Dispatch,
    root: CommandNode,
    commands: Set<Seq<char>>,
    has_root_actions: bool,
    path: Seq<char>,
)
    requires
        is_dispatch(d, root, commands, has_root_actions, path),
    ensures
        d is Help <==> path == "help"@,
        d is Tree <==> path == "tree"@,
        d is Guide <==> path == "guide"@,
        d is Completion <==> path == "completion"@,
        commands.contains(path) && !crate::cli::search::is_builtin(path) ==> d is Command,
        d is Command ==> commands.contains(path),
        d is GroupHelp ==> is_group_path(root, path) && path.len() > 0,
        path.len() == 0 && !commands.contains(path) ==> (d is RootActions <==> has_root_actions) && (
        d is RootHelp <==> !has_root_actions),
        d matches Dispatch::Unknown(o) ==> o.exit_code == 1 && text::contains_text(
            o.rendered@,
            text::debug_quoted(path),
        ),
{
    reveal_strlit("help");
    reveal_strlit("tree");
    reveal_strlit("guide");
    reveal_strlit("completion");
    assert("help"@[0] == 'h' && "tree"@[0] == 't' && "guide"@[0] == 'g' && "completion"@[0] == 'c');
    if d is Unknown {
        let lead = "unknown command "@;
        text::lemma_part_occurs(lead, text::debug_quoted(path), Seq::empty());
        assert(lead + text::debug_quoted(path) + Seq::<char>::empty() =~= lead
            + text::debug_quoted(path));
    }
}

/// Only a command of the application is executed, and nothing else is
/// initialized for; everything else is shown. The flags and the environment
/// come first in every case.
pub proof fn law_plans(d: Dispatch)
    ensures
        plan_of(d).len() >= 3,
        plan_of(d)[0] == RunStep::ApplyFlags,
        plan_of(d)[1] == RunStep::ApplyEnv,
        plan_of(d).contains(RunStep::Execute) <==> d is Command,
        plan_of(d).contains(RunStep::Initialize) <==> d is Command,
        plan_of(d).contains(RunStep::Show) <==> !(d is Command),
        plan_of(d).contains(RunStep::PreRun) <==> !(d is RootActions || d is RootHelp
            || d is Unknown),
{
    let plan = plan_of(d);
    if d is Command {
        assert(plan[6] == RunStep::Execute);
        assert(plan[2] == RunStep::Initialize);
        assert(plan[5] == RunStep::PreRun);
    } else if d is RootActions || d is RootHelp || d is Unknown {
        assert(plan[2] == RunStep::Show);
    } else {
        assert(plan[2] == RunStep::PreRun);
        assert(plan[3] == RunStep::Show);
    }
}

/// The request for a command is made of what the command declares and what the
/// invocation gave: what the user gave stays apart from what is in effect, and
/// a shared view comes before the columns of the command itself.
pub proof fn law_request_is_for_the_command(
    r: MiddlewareRequest,
    spec: SpecText,
    path: Seq<char>,
    meta: CommandMeta,
    args: ValueMap,
    user_args: ValueMap,
)
    requires
        is_request(r, spec, path, meta, args, user_args),
    ensures
        r.command_path@ == path,
        r.meta == meta,
        r.args == args,
        r.user_args == user_args,
        r.auth == spec.auth,
        spec.system matches Some(s) ==> r.system@ == s,
        spec.system is None ==> r.system@.len() == 0,
        spec.default_fields matches Some(f) ==> r.default_fields@ == f,
        spec.default_fields is None ==> r.default_fields@.len() == 0,
        spec.view_id matches Some(id) ==> (r.view_id matches Some(v) && v@ == id),
        spec.view_id is None && spec.view_columns.len() > 0 ==> (r.view_id matches Some(v) && v@
            == path),
        spec.view_id is None && spec.view_columns.len() == 0 ==> r.view_id is None,
{
}

/// The flags of an invocation reach the run and the rendering, each in its own
/// place.
pub proof fn law_flags_reach_their_settings(
    render: RenderSettings,
    run: RunSettings,
    f: GlobalFlags,
    app_id: Seq<char>,
    provider: Seq<char>,
    env: Seq<char>,
    authorizes: bool,
)
    requires
        are_render_settings(render, f, app_id, env),
        are_run_settings(run, f, provider, env, authorizes),
    ensures
        render.filter@ == f.filter@,
        render.expr@ == f.expr@,
        render.fields@ == f.fields@,
        render.limit == f.limit,
        render.offset == f.offset,
        render.verbose@ == f.verbose@,
        render.output_format@ == f.output_format@,
        render.env@ == env,
        render.app_id@ == app_id,
        run.env@ == env,
        run.dry_run == f.dry_run,
        run.schema == f.schema,
        run.default_auth_provider@ == provider,
        run.authorizes == authorizes,
{
}

/// The page of an error tells its message, its code and its system, has no data
/// and exits with the code of the error.
pub proof fn law_error_page_tells_the_error(
    r: Page,
    err: CliCoreError,
    system: Seq<char>,
    verbose: Seq<char>,
    format: Seq<char>,
)
    requires
        is_error_page(r, err, system, verbose, format),
    ensures
        r.exit_code == error::exit_code_of(err),
        r.envelope@.data is None,
        r.envelope@.error matches Some(e) && e.message == error::display_spec(err) && e.code
            == envelope::shown_details(err, system).code && e.system == envelope::shown_details(
            err,
            system,
        ).system,
        verbose.len() == 0 ==> r.envelope@.metadata is None,
        formats::named_format(format) matches Some(f) ==> r.format == f,
{
}

/// The bare root shows its long help to people, and else what the application is
/// and which version, with the same suggested actions. An unknown format is
/// refused.
pub proof fn law_root_tells_what_it_is(
    r: RootReply,
    root_long: Seq<char>,
    long: Option<Seq<char>>,
    short: Seq<char>,
    version: Seq<char>,
    app_id: Seq<char>,
    verbose: Seq<char>,
    format: Seq<char>,
    actions: Seq<envelope::ActionText>,
)
    requires
        is_root_reply(r, root_long, long, short, version, app_id, verbose, format, actions),
    ensures
        formats::named_format(format) == Some(OutputFormat::Human) ==> (r matches RootReply::Help(h)
            && h@.take(root_long.len() as int) == root_long),
        formats::named_format(format) is None ==> (r matches RootReply::Failure(o) && o.exit_code
            != 0),
        r matches RootReply::Data(page) ==> {
            &&& page.envelope@.next_actions == actions
            &&& page.envelope@.error is None
            &&& page.exit_code == 0
            &&& page.envelope@.data matches Some(data) && json::member(data, "version"@) == Some(
                JsonModel::Text(version),
            ) && (long is None ==> json::member(data, "description"@) == Some(
                JsonModel::Text(short),
            )) && (long matches Some(l) ==> (l.len() > 0 ==> json::member(data, "description"@)
                == Some(JsonModel::Text(l))))
        },
{
    reveal_strlit("description");
    reveal_strlit("version");
    assert("description"@.len() == 11 && "version"@.len() == 7);
    if formats::named_format(format) == Some(OutputFormat::Human) {
        assert((root_long + help::actions_section(actions)).take(root_long.len() as int)
            =~= root_long);
    }
}

/// `guide` shows the guide on the topic that was asked for; without a topic the
/// list of them, and for an unknown topic it fails.
pub proof fn law_guide_shows_the_topic(
    r: GuideReply,
    entries: Seq<guide::GuideText>,
    topic: Seq<char>,
    format: Seq<char>,
)
    requires
        is_guide_reply(r, entries, Some(topic), format),
        formats::named_format(format) is Some,
    ensures
        guide::last_on(entries, topic) matches Some(content) ==> r.output.exit_code == 0
            && r.output.rendered@ == content,
        guide::last_on(entries, topic) is None ==> r.output.exit_code == 1 && !r.reflow,
        format != "human"@ ==> !r.reflow,
{
}

/// Help is shown of the command at the end of what leads somewhere: of the
/// command itself where the whole path does, and of none where not even the
/// first name does.
pub proof fn law_help_is_of_the_command(
    r: HelpReply,
    root: CommandNode,
    name: Seq<char>,
    parts: Seq<Seq<char>>,
)
    requires
        is_help_reply(r, root, name, parts),
        parts.len() > 0,
    ensures
        command_tree::walk(root, parts) matches Some((at, _)) ==> (r matches HelpReply::Of(c) && *c
            == at),
        command_tree::find_sub(root, parts[0]) is None ==> (r matches HelpReply::Unknown(o)
            && o.exit_code == 1),
{
    let n = command_tree::longest_walk(root, parts, parts.len());
    command_tree::law_longest_walk_is_longest(root, parts, parts.len(), n + 1);
    assert(parts.take(parts.len() as int) =~= parts);
    command_tree::law_walk_uses_own_names(root, parts[0]);
    if command_tree::find_sub(root, parts[0]) is None && n > 0 {
        let rest = parts.take(n as int).skip(1);
        assert(parts.take(n as int) =~= seq![parts[0]] + rest);
        command_tree::law_walk_goes_on(root, seq![parts[0]], rest);
    }
}

/// A streaming command that succeeded has nothing more to show, and one that
/// failed shows its failure.
pub proof fn law_streams_end_quietly(output: CliRunOutput)
    ensures
        output.exit_code == 0 ==> streamed(output).len() == 0,
        output.exit_code != 0 ==> streamed(output) == output.rendered@,
{
    reveal_strlit("");
}

/// Without routes an invocation is begun as it is. With some, an alias is begun
/// as what it stands for, a personality is handed on, and what is refused is
/// reported in the format that was asked for.
pub proof fn law_invocation_is_opened(
    o: Opening,
    routes: StringMap<Argv0Route>,
    root: CommandNode,
    name: Seq<char>,
    version: Seq<char>,
    default_format: Seq<char>,
    args: Seq<Seq<char>>,
    depth: nat,
    id: u64,
    rest: Seq<Seq<char>>,
)
    requires
        is_opening(o, routes, root, name, version, default_format, args, depth),
    ensures
        routes.order().len() == 0 ==> (o matches Opening::Begun(b) && b@ == begun(
            root,
            name,
            version,
            default_format,
            args,
        )),
        argv0::resolved(argv0::route_texts(routes@), routes.order(), name, args, depth)
            == OutcomeText::Proceed(rest) ==> (o matches Opening::Begun(b) && b@ == begun(
            root,
            name,
            version,
            default_format,
            rest,
        )),
        argv0::resolved(argv0::route_texts(routes@), routes.order(), name, args, depth)
            == OutcomeText::HandOff(id, rest) ==> (o matches Opening::HandOff {
            personality,
            rest: behind,
        } && personality == id && text::texts(behind@) == rest),
        argv0::resolved(argv0::route_texts(routes@), routes.order(), name, args, depth) is Refused
            ==> (o matches Opening::Refused { error: _, format } && format@
            == flags::output_format_from(args, 0, default_format)),
{
    if routes.order().len() == 0 {
        assert(routes.order() =~= Seq::empty());
        argv0::law_no_routes_no_dispatch(argv0::route_texts(routes@), name, args, depth);
    }
}

/// A schema is asked for by the path of the command in its own names, whatever
/// aliases were used.
pub proof fn law_schema_path_is_canonical(
    root: CommandNode,
    program: Seq<char>,
    words: Seq<Seq<char>>,
)
    requires
        words.len() > 0,
        forall|i: int|
            0 <= i < words.len() ==> !args::is_flag(#[trigger] words[i]) && words[i].len() > 0
                && !words[i].contains(':'),
        command_tree::walk(root, words) is Some,
    ensures
        schema_path(root, seq![program] + words) == text::join_spec(
            command_tree::way(root, words),
            ":"@,
        ),
{
    flags::law_path_is_made_of_words(program, words, bool_set(root), value_set(root));
    lemma_path_of_words(words);
}

proof fn lemma_path_of_words(words: Seq<Seq<char>>)
    requires
        words.len() > 0,
        forall|i: int|
            0 <= i < words.len() ==> (#[trigger] words[i]).len() > 0 && !words[i].contains(':'),
    ensures
        command_tree::path_parts(text::join_spec(words, ":"@)) == words,
{
    reveal_strlit(":");
    assert(":"@ =~= seq![':']);
    text::law_join_is_undone_by_split(words, ':');
    text::lemma_first_part(text::join_spec(words, ":"@), ':');
    assert(words[0].len() > 0);
}

/// A search is limited to the command that is named before it, in its own names,
/// and to none where the names lead nowhere.
pub proof fn law_search_scope_is_canonical(
    root: CommandNode,
    program: Seq<char>,
    names: Seq<Seq<char>>,
    rest: Seq<Seq<char>>,
)
    requires
        forall|i: int| 0 <= i < names.len() ==> !args::is_flag(#[trigger] names[i]),
    ensures
        ({
            let scope = scope_spec(root, seq![program] + names + seq!["--search"@] + rest);
            &&& command_tree::walk(root, names) is Some ==> scope == text::join_spec(
                command_tree::way(root, names),
                ":"@,
            )
            &&& command_tree::walk(root, names) is None ==> scope.len() == 0
        }),
{
    args::law_search_scope_is_before_the_flag(program, names, rest);
}

/// Words before `--` can name commands, those behind it cannot.
pub proof fn law_keywords_end_at_the_separator(
    root: CommandNode,
    name: Seq<char>,
    words: Seq<Seq<char>>,
    rest: Seq<Seq<char>>,
)
    requires
        !args::is_flag(name),
        forall|i: int|
            0 <= i < words.len() ==> args::is_plain(
                #[trigger] words[i],
                bool_set(root),
                value_set(root),
            ),
    ensures
        keyword_count(root, name, seq![name] + words + seq!["--"@] + rest) == words.len(),
        keyword_count(root, name, seq![name] + words) == words.len(),
{
    reveal_strlit("--");
    let lead = seq![name] + words;
    let all = lead + seq!["--"@] + rest;
    let n: int = lead.len() as int;
    assert("--"@[0] == '-');
    assert forall|k: int| 0 <= k < n implies #[trigger] all[k] != "--"@ by {
        if k > 0 {
            assert(all[k] == words[k - 1]);
        } else {
            assert(all[k] == name);
        }
    }
    assert forall|k: int| 0 <= k < n implies #[trigger] lead[k] != "--"@ by {
        assert(lead[k] == all[k]);
    }
    assert(all[n] == "--"@);
    args::lemma_first_token(all, "--"@, n);
    args::lemma_no_token(lead, "--"@);
    assert(all.take(n) =~= lead);
    assert(lead[0] == name);
    assert forall|i: int| 1 <= i < lead.len() implies args::is_plain(
        #[trigger] lead[i],
        bool_set(root),
        value_set(root),
    ) by {
        assert(lead[i] == words[i - 1]);
    }
    args::law_positional_words(lead, 1, bool_set(root), value_set(root));
    assert(lead.skip(1) =~= words);
}

/// `help` behind a group leads to the help of what it is about: the parser gets
/// `help` first, and then the group and what is below it.
pub proof fn law_group_help_is_asked_for(
    root: CommandNode,
    name: Seq<char>,
    version: Seq<char>,
    default_format: Seq<char>,
    group: Seq<Seq<char>>,
    below: Seq<Seq<char>>,
)
    requires
        !args::is_flag(name),
        group.len() > 0,
        !group.contains("help"@),
        command_tree::walk(root, group) is Some,
        command_tree::reached(root, group).subcommands@.len() > 0,
        command_tree::find_sub(command_tree::reached(root, group), "help"@) is None,
        args::is_plain("help"@, bool_set(root), value_set(root)),
        forall|i: int|
            0 <= i < group.len() ==> args::is_plain(
                #[trigger] group[i],
                bool_set(root),
                value_set(root),
            ),
        forall|i: int|
            0 <= i < below.len() ==> args::is_plain(
                #[trigger] below[i],
                bool_set(root),
                value_set(root),
            ),
    ensures
        begun(
            root,
            name,
            version,
            default_format,
            seq![name] + (group + seq!["help"@] + below),
        ) == BeginText::Parse(seq![name, "help"@] + group + below),
{
    let words = group + seq!["help"@] + below;
    let all = seq![name] + words;
    let bools = bool_set(root);
    let values = value_set(root);
    reveal_strlit("--dry-run");
    reveal_strlit("--schema");
    reveal_strlit("--verbose");
    reveal_strlit("--debug");
    reveal_strlit("--version");
    reveal_strlit("-v");
    reveal_strlit("--");
    assert("--dry-run"@[0] == '-' && "--schema"@[0] == '-' && "--verbose"@[0] == '-');
    assert("--debug"@[0] == '-' && "--"@[0] == '-');
    assert("--version"@[0] == '-' && "-v"@[0] == '-');
    assert(all[0] == name);
    assert(all.skip(1) =~= words);
    assert forall|i: int| 0 <= i < words.len() implies args::is_plain(
        #[trigger] words[i],
        bools,
        values,
    ) by {
        if i < group.len() {
            assert(words[i] == group[i]);
        } else if i == group.len() {
            assert(words[i] == "help"@);
        } else {
            assert(words[i] == below[i - group.len() - 1]);
        }
    }
    assert forall|k: int| 1 <= k < all.len() implies args::is_plain(
        #[trigger] all[k],
        bools,
        values,
    ) by {
        assert(all[k] == words[k - 1]);
    }
    assert forall|k: int| 0 <= k < all.len() implies !args::is_flag(#[trigger] all[k]) by {
        if k > 0 {
            assert(args::is_plain(all[k], bools, values));
        }
    }
    args::law_positional_words(all, 1, bools, values);
    assert(all[1] == words[0]);
    lemma_no_schema(all, 0);
    lemma_no_search(all, 0);
    law_keywords_end_at_the_separator(root, name, words, Seq::empty());
    args::law_help_behind_a_group(root, group, below, words.len() as int);
    assert forall|k: int| 0 <= k < all.len() implies (#[trigger] all[k]) != "--dry-run"@ && all[k]
        != "--schema"@ && all[k] != "--verbose"@ && all[k] != "--debug"@ by {
        assert(!args::is_flag(all[k]));
    }
    args::law_other_arguments_stay(root, all, 0, root);
    assert(all.skip(0) =~= all);
    let queue = seq!["help"@] + (group + below);
    args::law_plain_words_are_rewritten(all, 1, bools, values, queue);
    assert(all.take(1) =~= seq![name]);
    assert(all.take(1) + queue =~= seq![name, "help"@] + group + below);
}

/// A name that a group does not know ends the invocation with a failure.
pub proof fn law_unknown_command_fails(
    root: CommandNode,
    name: Seq<char>,
    version: Seq<char>,
    default_format: Seq<char>,
    known: Seq<Seq<char>>,
    unknown: Seq<char>,
)
    requires
        !args::is_flag(name),
        command_tree::walk(root, known) is Some,
        command_tree::reached(root, known).subcommands@.len() > 0,
        command_tree::find_sub(command_tree::reached(root, known), unknown) is None,
        !known.contains("help"@),
        unknown != "help"@,
        args::is_plain(unknown, bool_set(root), value_set(root)),
        forall|i: int|
            0 <= i < known.len() ==> args::is_plain(
                #[trigger] known[i],
                bool_set(root),
                value_set(root),
            ),
    ensures
        begun(root, name, version, default_format, seq![name] + known.push(unknown)) matches
            BeginText::Output(code, message) && code == 1 && text::contains_text(
            message,
            text::debug_quoted(unknown),
        ),
{
    let words = known.push(unknown);
    let all = seq![name] + words;
    let bools = bool_set(root);
    let values = value_set(root);
    reveal_strlit("--version");
    reveal_strlit("-v");
    reveal_strlit("--");
    assert("--version"@[0] == '-' && "-v"@[0] == '-' && "--"@[0] == '-');
    assert(all[0] == name);
    assert(all.skip(1) =~= words);
    assert forall|k: int| 1 <= k < all.len() implies args::is_plain(
        #[trigger] all[k],
        bools,
        values,
    ) by {
        assert(all[k] == words[k - 1]);
        if k - 1 < known.len() {
            assert(words[k - 1] == known[k - 1]);
        }
    }
    assert forall|k: int| 0 <= k < all.len() implies !args::is_flag(#[trigger] all[k]) by {
        if k > 0 {
            assert(args::is_plain(all[k], bools, values));
        }
    }
    args::law_positional_words(all, 1, bools, values);
    assert(all[1] == words[0]);
    lemma_no_schema(all, 0);
    lemma_no_search(all, 0);
    if words.contains("help"@) {
        let i = choose|i: int| 0 <= i < words.len() && words[i] == "help"@;
        if i < known.len() {
            assert(known.contains(known[i]));
        }
    }
    args::law_no_help_without_the_word(root, words, words, keyword_count(root, name, all) as int);
    args::law_unknown_command_is_reported(root, known, unknown, Seq::empty());
    assert(known + seq![unknown] + Seq::<Seq<char>>::empty() =~= words);
    let names = command_tree::way(root, known);
    let lead = "unknown command "@;
    let quoted = text::debug_quoted(unknown);
    let tail = " for "@ + text::debug_quoted(text::join_spec(seq![root.name@] + names, " "@));
    text::lemma_part_occurs(lead, quoted, tail);
    assert(lead + quoted + tail =~= lead + quoted + " for "@ + text::debug_quoted(
        text::join_spec(seq![root.name@] + names, " "@),
    ));
}

} // verus!
