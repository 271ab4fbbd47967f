//! The framework's global flags, and reading them from raw arguments.
use crate::cli::args;
use crate::command_tree::{ArgKind, ArgNode, ArgText, CommandNode, ValueCount, ValueForm};
use crate::command_tree;
use crate::config::CredentialStore;
use crate::fs;
use crate::ordmap::TextSet;
use crate::output::formats;
use crate::text;
use vstd::prelude::*;
use vstd::string::*;

verus! {

/// An ASCII letter or digit.
pub open spec fn is_alphanumeric(c: char) -> bool {
    'a' <= c <= 'z' || 'A' <= c <= 'Z' || '0' <= c <= '9'
}

/// The environment-variable prefix of an app id: ASCII letters in upper case,
/// digits as they are, and an underscore for anything else.
pub open spec fn env_prefix(app_id: Seq<char>) -> Seq<char> {
    Seq::new(
        app_id.len(),
        |i: int|
            if is_alphanumeric(app_id[i]) {
                text::ascii_upper_char(app_id[i])
            } else {
                '_'
            },
    )
}

/// Turns an app id into an environment-variable prefix.
pub fn app_id_env_prefix(app_id: &str) -> (r: String)
    ensures
        r@ == env_prefix(app_id@),
{
    let v = text::chars_of(app_id);
    let mut r = String::new();
    let mut i: usize = 0;
    while i < v.len()
        invariant
            i <= v@.len(),
            r@ == env_prefix(v@.take(i as int)),
        decreases v@.len() - i,
    {
        let c = v[i];
        if 'a' <= c && c <= 'z' {
            r.push(((c as u8) - 32) as char);
        } else if ('A' <= c && c <= 'Z') || ('0' <= c && c <= '9') {
            r.push(c);
        } else {
            r.push('_');
        }
        i = i + 1;
        assert(env_prefix(v@.take(i as int)) =~= env_prefix(v@.take(i - 1)).push(
            env_prefix(v@.take(i as int))[i - 1],
        ));
    }
    assert(v@.take(v@.len() as int) =~= v@);
    r
}

/// Derives the output-format override variable from an app id.
pub fn output_env_var(app_id: &str) -> (r: String)
    ensures
        r@ == env_prefix(app_id@) + "_OUTPUT"@,
{
    let mut r = app_id_env_prefix(app_id);
    r.append("_OUTPUT");
    r
}

/// The format without an explicit one: that of the environment variable, in
/// any case and with white space around it, where it names one; else by the
/// kind of the output.
pub open spec fn default_format_spec(env: Option<Seq<char>>, is_tty: bool) -> Seq<char> {
    let policy = if is_tty {
        "human"@
    } else {
        "json"@
    };
    match env {
        Some(value) => {
            let name = text::ascii_lower_spec(text::trim_spec(value));
            if formats::named_format(name) is Some {
                name
            } else {
                policy
            }
        },
        None => policy,
    }
}

/// Resolves the default output format when the user gave no explicit format.
pub fn resolve_default_output_format(env_override: Option<&str>, is_tty: bool) -> (r: String)
    ensures
        r@ == default_format_spec(fs::str_text(env_override), is_tty),
{
    if let Some(value) = env_override {
        let name = text::to_ascii_lower(text::trim(value).as_str());
        if formats::is_valid_output_format(name.as_str()) {
            return name;
        }
    }
    if is_tty {
        "human".to_owned()
    } else {
        "json".to_owned()
    }
}

/// The default output format is always a valid one.
pub proof fn law_default_format_is_valid(env: Option<Seq<char>>, is_tty: bool)
    ensures
        formats::named_format(default_format_spec(env, is_tty)) is Some,
{
}

/// Parsed framework-global flags.
pub struct GlobalFlags {
    /// Output format: `json`, `human`, or `toon`.
    pub output_format: String,
    /// Metadata verbosity selector.
    pub verbose: String,
    /// Whether mutating commands should short-circuit.
    pub dry_run: bool,
    /// Field projection.
    pub fields: String,
    /// JMESPath per-item filter.
    pub filter: String,
    /// JMESPath whole-result expression.
    pub expr: String,
    /// Client-side page size.
    pub limit: i64,
    /// Client-side page offset.
    pub offset: i64,
    /// Whether schema rendering was requested.
    pub schema: bool,
    /// User-provided command reason.
    pub reason: String,
    /// Raw timeout string.
    pub timeout: String,
    /// Debug selector.
    pub debug: String,
    /// Search query.
    pub search: String,
    /// Credential storage override, if supplied.
    pub credential_store: Option<CredentialStore>,
}

impl Default for GlobalFlags {
    fn default() -> (r: Self)
        ensures
            r.output_format@ == "json"@,
            r.verbose@.len() == 0,
            !r.dry_run,
            r.fields@.len() == 0,
            r.filter@.len() == 0,
            r.expr@.len() == 0,
            r.limit == 0,
            r.offset == 0,
            !r.schema,
            r.reason@.len() == 0,
            r.timeout@ == "0s"@,
            r.debug@.len() == 0,
            r.search@.len() == 0,
            r.credential_store is None,
    {
        GlobalFlags {
            output_format: "json".to_owned(),
            verbose: String::new(),
            dry_run: false,
            fields: String::new(),
            filter: String::new(),
            expr: String::new(),
            limit: 0,
            offset: 0,
            schema: false,
            reason: String::new(),
            timeout: "0s".to_owned(),
            debug: String::new(),
            search: String::new(),
            credential_store: None,
        }
    }
}

/// What the parser found for the framework-global flags.
pub struct MatchedGlobals {
    /// `--toon` was given.
    pub toon: bool,
    /// `--human` was given.
    pub human: bool,
    /// `--json` was given.
    pub json: bool,
    /// Value of `--output`, where the command line gave one.
    pub output: Option<String>,
    /// Value of `--verbose`.
    pub verbose: Option<String>,
    /// Value of `--dry-run`.
    pub dry_run: Option<bool>,
    /// Value of `--fields`.
    pub fields: Option<String>,
    /// Value of `--filter`.
    pub filter: Option<String>,
    /// Value of `--expr`.
    pub expr: Option<String>,
    /// Value of `--limit`.
    pub limit: Option<i64>,
    /// Value of `--offset`.
    pub offset: Option<i64>,
    /// Value of `--schema`.
    pub schema: Option<bool>,
    /// Value of `--reason`; none where the flag is not registered.
    pub reason: Option<String>,
    /// Value of `--timeout`.
    pub timeout: Option<String>,
    /// Value of `--debug`.
    pub debug: Option<String>,
    /// Value of `--search`.
    pub search: Option<String>,
    /// Value of `--credential-store`.
    pub credential_store: Option<CredentialStore>,
}

/// The text of an optional string, or another text where there is none.
pub open spec fn text_or(s: Option<String>, other: Seq<char>) -> Seq<char> {
    match s {
        Some(t) => t@,
        None => other,
    }
}

/// The format that the flags select: a shorthand flag before `--output`, and
/// of the shorthands `--toon` first, `--json` last.
pub open spec fn selected_format(m: MatchedGlobals, default: Seq<char>) -> Seq<char> {
    if m.toon {
        "toon"@
    } else if m.human {
        "human"@
    } else if m.json {
        "json"@
    } else {
        text_or(m.output, default)
    }
}

/// The command line gives a format.
pub open spec fn is_explicit(m: MatchedGlobals) -> bool {
    m.toon || m.human || m.json || m.output is Some
}

/// A format on the command line decides alone.
pub proof fn law_explicit_format_wins(m: MatchedGlobals, a: Seq<char>, b: Seq<char>)
    requires
        is_explicit(m),
    ensures
        selected_format(m, a) == selected_format(m, b),
{
}

/// Without one on the command line, a format that the environment variable
/// names decides, whatever the output is; without both, the output does.
pub proof fn law_environment_comes_before_the_terminal(
    m: MatchedGlobals,
    env: Option<Seq<char>>,
    is_tty: bool,
)
    requires
        !is_explicit(m),
    ensures
        ({
            let chosen = selected_format(m, default_format_spec(env, is_tty));
            let named = match env {
                Some(value) => formats::named_format(
                    text::ascii_lower_spec(text::trim_spec(value)),
                ),
                None => None,
            };
            &&& named is Some ==> formats::named_format(chosen) == named
            &&& named is None ==> chosen == (if is_tty {
                "human"@
            } else {
                "json"@
            })
        }),
{
}

/// The string, or another one where there is none.
fn string_or(s: &Option<String>, other: &str) -> (r: String)
    ensures
        r@ == text_or(*s, other@),
{
    match s {
        Some(t) => t.clone(),
        None => other.to_owned(),
    }
}

/// `r` are the framework-global flags that the parser found.
pub open spec fn are_globals(r: GlobalFlags, m: MatchedGlobals, default: Seq<char>) -> bool {
    &&& r.output_format@ == selected_format(m, default)
    &&& r.verbose@ == text_or(m.verbose, Seq::empty())
    &&& r.dry_run == (m.dry_run == Some(true))
    &&& r.fields@ == text_or(m.fields, Seq::empty())
    &&& r.filter@ == text_or(m.filter, Seq::empty())
    &&& r.expr@ == text_or(m.expr, Seq::empty())
    &&& r.limit == (match m.limit {
        Some(n) => n,
        None => 0,
    })
    &&& r.offset == (match m.offset {
        Some(n) => n,
        None => 0,
    })
    &&& r.schema == (m.schema == Some(true))
    &&& r.reason@ == text_or(m.reason, Seq::empty())
    &&& r.timeout@ == text_or(m.timeout, "0s"@)
    &&& r.debug@ == text_or(m.debug, Seq::empty())
    &&& r.search@ == text_or(m.search, Seq::empty())
    &&& r.credential_store == m.credential_store
}

/// Builds the framework-global flags from what the parser found, with
/// `default_format` where the user gave no explicit output format.
pub fn global_flags_from_matches(m: &MatchedGlobals, default_format: &str) -> (r: GlobalFlags)
    ensures
        are_globals(r, *m, default_format@),
{
    proof {
        reveal_strlit("");
        assert(""@ =~= Seq::<char>::empty());
    }
    let output_format = if m.toon {
        "toon".to_owned()
    } else if m.human {
        "human".to_owned()
    } else if m.json {
        "json".to_owned()
    } else {
        string_or(&m.output, default_format)
    };
    GlobalFlags {
        output_format,
        verbose: string_or(&m.verbose, ""),
        dry_run: match m.dry_run {
            Some(b) => b,
            None => false,
        },
        fields: string_or(&m.fields, ""),
        filter: string_or(&m.filter, ""),
        expr: string_or(&m.expr, ""),
        limit: match m.limit {
            Some(n) => n,
            None => 0,
        },
        offset: match m.offset {
            Some(n) => n,
            None => 0,
        },
        schema: match m.schema {
            Some(b) => b,
            None => false,
        },
        reason: string_or(&m.reason, ""),
        timeout: string_or(&m.timeout, "0s"),
        debug: string_or(&m.debug, ""),
        search: string_or(&m.search, ""),
        credential_store: m.credential_store,
    }
}

/// The query behind the first search flag from the place `i` on; empty where
/// there is none.
pub open spec fn search_query_from(args: Seq<Seq<char>>, i: int) -> Seq<char>
    decreases args.len() - i,
{
    if i < 0 || i >= args.len() {
        Seq::empty()
    } else if args[i] == "--search"@ {
        if i + 1 < args.len() {
            args[i + 1]
        } else {
            Seq::empty()
        }
    } else if "--search="@.is_prefix_of(args[i]) {
        args[i].skip("--search="@.len() as int)
    } else {
        search_query_from(args, i + 1)
    }
}

/// Extracts `--search` from raw args before normal parsing.
pub fn extract_search_query(args: &Vec<String>) -> (r: String)
    ensures
        r@ == search_query_from(text::texts(args@), 0),
{
    let mut i: usize = 0;
    while i < args.len()
        invariant
            i <= args@.len(),
            search_query_from(text::texts(args@), 0) == search_query_from(
                text::texts(args@),
                i as int,
            ),
        decreases args@.len() - i,
    {
        let arg = args[i].as_str();
        if text::str_eq(arg, "--search") {
            return if i + 1 < args.len() {
                args[i + 1].clone()
            } else {
                String::new()
            };
        }
        if let Some(value) = text::strip_prefix(arg, "--search=") {
            return value;
        }
        i = i + 1;
    }
    String::new()
}

/// The format that the first output flag from the place `i` on selects.
pub open spec fn output_format_from(args: Seq<Seq<char>>, i: int, default: Seq<char>) -> Seq<char>
    decreases args.len() - i,
{
    if i < 0 || i >= args.len() {
        default
    } else if args[i] == "--output"@ || args[i] == "-o"@ {
        if i + 1 < args.len() {
            args[i + 1]
        } else {
            default
        }
    } else if "--output="@.is_prefix_of(args[i]) {
        args[i].skip("--output="@.len() as int)
    } else if args[i] == "--json"@ {
        "json"@
    } else if args[i] == "--toon"@ {
        "toon"@
    } else if args[i] == "--human"@ {
        "human"@
    } else {
        output_format_from(args, i + 1, default)
    }
}

/// Extracts the output format from raw args.
pub fn extract_output_format(args: &Vec<String>, default_format: &str) -> (r: String)
    ensures
        r@ == output_format_from(text::texts(args@), 0, default_format@),
{
    let mut i: usize = 0;
    while i < args.len()
        invariant
            i <= args@.len(),
            output_format_from(text::texts(args@), 0, default_format@) == output_format_from(
                text::texts(args@),
                i as int,
                default_format@,
            ),
        decreases args@.len() - i,
    {
        let arg = args[i].as_str();
        if text::str_eq(arg, "--output") || text::str_eq(arg, "-o") {
            return if i + 1 < args.len() {
                args[i + 1].clone()
            } else {
                default_format.to_owned()
            };
        }
        if let Some(value) = text::strip_prefix(arg, "--output=") {
            return value;
        }
        if text::str_eq(arg, "--json") {
            return "json".to_owned();
        }
        if text::str_eq(arg, "--toon") {
            return "toon".to_owned();
        }
        if text::str_eq(arg, "--human") {
            return "human".to_owned();
        }
        i = i + 1;
    }
    default_format.to_owned()
}

/// The command names from the place `i` on: what is neither a flag nor the
/// value of one.
pub open spec fn path_from(
    args: Seq<Seq<char>>,
    i: int,
    bool_flags: Set<Seq<char>>,
    value_flags: Set<Seq<char>>,
) -> Seq<Seq<char>>
    decreases args::left(args, i),
{
    if i < 0 || i >= args.len() {
        Seq::empty()
    } else if args[i] == "--schema"@ {
        path_from(args, i + 1, bool_flags, value_flags)
    } else if args::is_flag(args[i]) {
        if bool_flags.contains(args[i]) || args[i].contains('=') {
            path_from(args, i + 1, bool_flags, value_flags)
        } else if value_flags.contains(args[i]) || args::takes_next(args, i) {
            path_from(args, i + 2, bool_flags, value_flags)
        } else {
            path_from(args, i + 1, bool_flags, value_flags)
        }
    } else {
        seq![args[i]] + path_from(args, i + 1, bool_flags, value_flags)
    }
}

/// Extracts a colon-separated command path from raw args.
pub fn extract_command_path(args: &Vec<String>, bool_flags: &TextSet, value_flags: &TextSet) -> (r:
    String)
    ensures
        r@ == text::join_spec(
            path_from(text::texts(args@), 1, bool_flags@, value_flags@),
            ":"@,
        ),
{
    let ghost all = text::texts(args@);
    let ghost goal = path_from(all, 1, bool_flags@, value_flags@);
    let mut parts: Vec<String> = Vec::new();
    let mut i: usize = 1;
    assert(text::texts(parts@) + goal =~= goal);
    while i < args.len()
        invariant
            1 <= i,
            all == text::texts(args@),
            text::texts(parts@) + path_from(all, i as int, bool_flags@, value_flags@) == goal,
        decreases args@.len() - i,
    {
        let arg = args[i].as_str();
        let ghost before = text::texts(parts@);
        if text::str_eq(arg, "--schema") {
            i = i + 1;
        } else if args::looks_like_flag(arg) {
            if bool_flags.contains(arg) || text::contains_char(arg, '=') {
                i = i + 1;
            } else if value_flags.contains(arg) || (i + 1 < args.len() && !args::looks_like_flag(
                args[i + 1].as_str(),
            )) {
                if i + 1 < args.len() {
                    i = i + 2;
                } else {
                    assert(path_from(all, i + 2, bool_flags@, value_flags@).len() == 0);
                    assert(path_from(all, i + 1, bool_flags@, value_flags@).len() == 0);
                    assert(path_from(all, i + 1, bool_flags@, value_flags@) =~= path_from(
                        all,
                        i + 2,
                        bool_flags@,
                        value_flags@,
                    ));
                    i = i + 1;
                }
            } else {
                i = i + 1;
            }
        } else {
            parts.push(args[i].clone());
            assert(text::texts(parts@) =~= before.push(arg@));
            assert(before + (seq![arg@] + path_from(all, i + 1, bool_flags@, value_flags@))
                =~= before.push(arg@) + path_from(all, i + 1, bool_flags@, value_flags@));
            i = i + 1;
        }
    }
    assert(text::texts(parts@) + Seq::<Seq<char>>::empty() =~= text::texts(parts@));
    text::join(&parts, ":")
}

/// The boolean that a spelling stands for.
pub open spec fn compat_bool(raw: Seq<char>) -> Option<bool> {
    if raw == "1"@ || raw == "t"@ || raw == "T"@ || raw == "TRUE"@ || raw == "true"@ || raw
        == "True"@ {
        Some(true)
    } else if raw == "0"@ || raw == "f"@ || raw == "F"@ || raw == "FALSE"@ || raw == "false"@
        || raw == "False"@ {
        Some(false)
    } else {
        None
    }
}

/// Reads a boolean in one of the accepted spellings.
pub fn parse_compat_bool(raw: &str) -> (r: Result<bool, String>)
    ensures
        match r {
            Ok(b) => compat_bool(raw@) == Some(b),
            Err(m) => compat_bool(raw@) is None && m@ == "invalid boolean value "@
                + text::debug_quoted(raw@),
        },
{
    if text::str_eq(raw, "1") || text::str_eq(raw, "t") || text::str_eq(raw, "T") || text::str_eq(
        raw,
        "TRUE",
    ) || text::str_eq(raw, "true") || text::str_eq(raw, "True") {
        Ok(true)
    } else if text::str_eq(raw, "0") || text::str_eq(raw, "f") || text::str_eq(raw, "F")
        || text::str_eq(raw, "FALSE") || text::str_eq(raw, "false") || text::str_eq(raw, "False") {
        Ok(false)
    } else {
        let mut m = "invalid boolean value ".to_owned();
        m.append(text::debug_text(raw).as_str());
        Err(m)
    }
}

/// Whether the first schema flag from the place `i` on is set.
pub open spec fn schema_from(args: Seq<Seq<char>>, i: int) -> bool
    decreases args.len() - i,
{
    if i < 0 || i >= args.len() {
        false
    } else if args[i] == "--schema"@ {
        true
    } else if "--schema="@.is_prefix_of(args[i]) {
        compat_bool(args[i].skip("--schema="@.len() as int)) == Some(true)
    } else {
        schema_from(args, i + 1)
    }
}

/// Reports whether raw args contain a true `--schema` flag.
pub fn has_true_schema_flag(args: &Vec<String>) -> (r: bool)
    ensures
        r == schema_from(text::texts(args@), 0),
{
    let mut i: usize = 0;
    while i < args.len()
        invariant
            i <= args@.len(),
            schema_from(text::texts(args@), 0) == schema_from(text::texts(args@), i as int),
        decreases args@.len() - i,
    {
        let arg = args[i].as_str();
        if text::str_eq(arg, "--schema") {
            return true;
        }
        if let Some(value) = text::strip_prefix(arg, "--schema=") {
            return match parse_compat_bool(value.as_str()) {
                Ok(b) => b,
                Err(_) => false,
            };
        }
        i = i + 1;
    }
    false
}

/// An argument takes the next token for its value.
pub open spec fn requires_value(arg: ArgNode) -> bool {
    match arg.kind {
        ArgKind::Store | ArgKind::Append => match arg.values {
            None => true,
            Some(count) => count.max != 0 && count.min > 0,
        },
        _ => false,
    }
}

/// Reports whether an argument takes the next token for its value.
pub fn arg_requires_value(arg: &ArgNode) -> (r: bool)
    ensures
        r == requires_value(*arg),
{
    match arg.kind {
        ArgKind::Store | ArgKind::Append => match arg.values {
            None => true,
            Some(count) => count.max != 0 && count.min > 0,
        },
        _ => false,
    }
}

/// The flags of an argument, as they are written.
pub open spec fn names_of(arg: ArgNode) -> Set<Seq<char>> {
    let long = match arg.long {
        Some(name) => set!["--"@ + name@],
        None => Set::empty(),
    };
    match arg.short {
        Some(c) => long.insert("-"@.push(c)),
        None => long,
    }
}

/// The flags among the arguments that do, or do not, take a value.
pub open spec fn names_among(args: Seq<ArgNode>, valued: bool) -> Set<Seq<char>>
    decreases args.len(),
{
    if args.len() == 0 {
        Set::empty()
    } else if requires_value(args.last()) == valued {
        names_among(args.drop_last(), valued).union(names_of(args.last()))
    } else {
        names_among(args.drop_last(), valued)
    }
}

/// The flags of a command and of all commands below it that do, or do not,
/// take a value.
pub open spec fn names_below(node: CommandNode, valued: bool) -> Set<Seq<char>>
    decreases node,
{
    names_among(node.args@, valued).union(names_below_all(node.subcommands@, valued))
}

/// The flags of several commands and of all commands below them.
pub open spec fn names_below_all(nodes: Seq<CommandNode>, valued: bool) -> Set<Seq<char>>
    decreases nodes,
{
    if nodes.len() == 0 {
        Set::empty()
    } else {
        names_below_all(nodes.drop_last(), valued).union(names_below(nodes.last(), valued))
    }
}

/// Adds the flags of a command and of all commands below it.
fn collect_flag_names(command: &CommandNode, valued: bool, flags: TextSet) -> (r: TextSet)
    ensures
        r@ == flags@.union(names_below(*command, valued)),
    decreases command,
{
    let mut r = flags;
    let mut i: usize = 0;
    while i < command.args.len()
        invariant
            i <= command.args@.len(),
            r@ =~= flags@.union(names_among(command.args@.take(i as int), valued)),
        decreases command.args@.len() - i,
    {
        let arg = &command.args[i];
        assert(command.args@.take(i + 1).drop_last() =~= command.args@.take(i as int));
        let ghost before = r@;
        if arg_requires_value(arg) == valued {
            if let Some(long) = &arg.long {
                let mut name = "--".to_owned();
                name.append(long.as_str());
                r.insert(name);
            }
            if let Some(short) = arg.short {
                let mut name = "-".to_owned();
                name.push(short);
                r.insert(name);
            }
            assert(r@ =~= before.union(names_of(*arg)));
        }
        i = i + 1;
    }
    assert(command.args@.take(command.args@.len() as int) =~= command.args@);
    let r = collect_below(&command.subcommands, valued, r);
    assert(r@ =~= flags@.union(names_below(*command, valued)));
    r
}

/// Adds the flags of several commands and of all commands below them.
fn collect_below(nodes: &Vec<CommandNode>, valued: bool, flags: TextSet) -> (r: TextSet)
    ensures
        r@ == flags@.union(names_below_all(nodes@, valued)),
    decreases nodes,
{
    let mut r = flags;
    let mut i: usize = 0;
    while i < nodes.len()
        invariant
            i <= nodes@.len(),
            r@ =~= flags@.union(names_below_all(nodes@.take(i as int), valued)),
        decreases nodes@.len() - i,
    {
        assert(nodes@.take(i + 1).drop_last() =~= nodes@.take(i as int));
        r = collect_flag_names(&nodes[i], valued, r);
        i = i + 1;
    }
    assert(nodes@.take(nodes@.len() as int) =~= nodes@);
    r
}

/// The flags that the engine itself reads without a value.
pub open spec fn engine_bool_flags() -> Set<Seq<char>> {
    set!["--help"@, "-h"@, "--verbose"@, "--debug"@]
}

/// Derives flag names that do not consume the following token.
pub fn derive_bool_flags(command: &CommandNode) -> (r: TextSet)
    ensures
        r@ == engine_bool_flags().union(names_below(*command, false)),
{
    let mut flags = TextSet::new();
    flags.insert("--help".to_owned());
    flags.insert("-h".to_owned());
    flags.insert("--verbose".to_owned());
    flags.insert("--debug".to_owned());
    assert(flags@ =~= engine_bool_flags());
    collect_flag_names(command, false, flags)
}

/// Derives flag names that consume the following token.
pub fn derive_value_flags(command: &CommandNode) -> (r: TextSet)
    ensures
        r@ == names_below(*command, true),
{
    let r = collect_flag_names(command, true, TextSet::new());
    assert(r@ =~= names_below(*command, true));
    r
}

/// What the tokens of a pattern, read from left to right, say of a component.
pub open spec fn enabled_by(tokens: Seq<Seq<char>>, component: Seq<char>) -> bool
    decreases tokens.len(),
{
    if tokens.len() == 0 {
        false
    } else {
        let before = enabled_by(tokens.drop_last(), component);
        let token = text::trim_spec(tokens.last());
        if token.len() == 0 {
            before
        } else {
            let negated = token[0] == '-';
            let name = text::ascii_lower_spec(
                text::trim_spec(
                    if negated {
                        token.skip(1)
                    } else {
                        token
                    },
                ),
            );
            if name == "*"@ || name == component {
                !negated
            } else {
                before
            }
        }
    }
}

/// A `--debug` pattern enables a component: the last token that speaks of it
/// says so. Nothing enables a blank component.
pub open spec fn debug_enabled(pattern: Seq<char>, component: Seq<char>) -> bool {
    let name = text::ascii_lower_spec(text::trim_spec(component));
    name.len() > 0 && enabled_by(text::split_spec(pattern, ','), name)
}

/// Reports whether a `--debug` pattern enables a named component.
pub fn debug_component_enabled(pattern: &str, component: &str) -> (r: bool)
    ensures
        r == debug_enabled(pattern@, component@),
{
    let component = text::to_ascii_lower(text::trim(component).as_str());
    if component.as_str().is_empty() {
        return false;
    }
    let tokens = text::split_char(pattern, ',');
    let ghost all = text::texts(tokens@);
    let mut enabled = false;
    let mut i: usize = 0;
    while i < tokens.len()
        invariant
            i <= tokens@.len(),
            all == text::texts(tokens@),
            enabled == enabled_by(all.take(i as int), component@),
        decreases tokens@.len() - i,
    {
        assert(all.take(i + 1).drop_last() =~= all.take(i as int));
        assert(all.take(i + 1).last() == tokens@[i as int]@);
        let token = text::trim(tokens[i].as_str());
        if !token.as_str().is_empty() {
            let negated = args::looks_like_flag(token.as_str());
            let bare = if negated {
                let v = text::chars_of(token.as_str());
                let rest = text::substring_of(&v, 1, v.len());
                assert(rest@ =~= token@.skip(1));
                rest
            } else {
                token
            };
            let name = text::to_ascii_lower(text::trim(bare.as_str()).as_str());
            if text::str_eq(name.as_str(), "*") || text::str_eq(name.as_str(), component.as_str()) {
                enabled = !negated;
            }
        }
        i = i + 1;
    }
    assert(all.take(tokens@.len() as int) =~= all);
    enabled
}

/// The tokens of a pattern with one more behind them.
proof fn lemma_token_added(pattern: Seq<char>, token: Seq<char>, component: Seq<char>)
    requires
        !token.contains(','),
    ensures
        enabled_by(text::split_spec(pattern.push(',') + token, ','), component) == ({
            let before = enabled_by(text::split_spec(pattern, ','), component);
            let t = text::trim_spec(token);
            if t.len() == 0 {
                before
            } else {
                let name = text::ascii_lower_spec(
                    text::trim_spec(
                        if t[0] == '-' {
                            t.skip(1)
                        } else {
                            t
                        },
                    ),
                );
                if name == "*"@ || name == component {
                    t[0] != '-'
                } else {
                    before
                }
            }
        }),
{
    text::lemma_split_add(pattern, ',', token);
    let tokens = text::split_spec(pattern, ',');
    assert(tokens.push(token).drop_last() =~= tokens);
    assert(tokens.push(token).last() == token);
}

/// The name of a component behind a dash is read as that name.
proof fn lemma_negated(name: Seq<char>)
    ensures
        ({
            let t = text::trim_spec(seq!['-'] + name);
            &&& t.len() > 0
            &&& t[0] == '-'
            &&& text::trim_spec(t.skip(1)) == text::trim_spec(name)
        }),
{
    let s = seq!['-'] + name;
    assert(s[0] == '-');
    assert(text::trim_start_spec(s) == s);
    text::lemma_trim_end_behind('-', name);
    text::lemma_trim_again(name);
    assert(text::trim_end_spec(seq!['-']) =~= seq!['-']);
    let kept = text::trim_end_spec(name);
    let t = text::trim_spec(s);
    if kept.len() == 0 {
        assert(t.skip(1) =~= kept);
    } else {
        assert(t.skip(1) =~= kept);
    }
}

/// Tokens of `--debug` that come later override earlier ones: a component or
/// `*` behind a pattern enables the component, and with a dash before it
/// disables it, whatever the pattern says.
pub proof fn law_later_debug_token_decides(pattern: Seq<char>, component: Seq<char>)
    requires
        text::trim_spec(component).len() > 0,
        text::trim_spec(component)[0] != '-',
        !component.contains(','),
    ensures
        debug_enabled(pattern.push(',') + component, component),
        !debug_enabled(pattern.push(',') + (seq!['-'] + component), component),
        debug_enabled(pattern.push(',') + seq!['*'], component),
        !debug_enabled(pattern.push(',') + seq!['-', '*'], component),
{
    let name = text::ascii_lower_spec(text::trim_spec(component));
    text::lemma_trim_again(component);
    lemma_token_added(pattern, component, name);
    let negated = seq!['-'] + component;
    assert forall|i: int| 0 <= i < negated.len() implies negated[i] != ',' by {
        if i > 0 {
            assert(component.contains(component[i - 1]));
        }
    }
    lemma_negated(component);
    lemma_token_added(pattern, negated, name);
    let star = seq!['*'];
    assert(text::trim_start_spec(star) == star);
    assert(text::trim_end_spec(star) == star);
    reveal_strlit("*");
    assert(text::ascii_lower_spec(star) =~= "*"@);
    lemma_token_added(pattern, star, name);
    assert(seq!['-', '*'] =~= seq!['-'] + star);
    lemma_negated(star);
    lemma_token_added(pattern, seq!['-', '*'], name);
}

/// Empty tokens of `--debug`, and tokens for other components, do not matter.
pub proof fn law_other_debug_tokens_do_not_matter(
    pattern: Seq<char>,
    component: Seq<char>,
    other: Seq<char>,
)
    requires
        text::trim_spec(other).len() > 0,
        text::trim_spec(other)[0] != '-',
        text::trim_spec(other) != seq!['*'],
        !other.contains(','),
        text::ascii_lower_spec(text::trim_spec(other)) != text::ascii_lower_spec(
            text::trim_spec(component),
        ),
    ensures
        debug_enabled(pattern.push(',') + other, component) == debug_enabled(pattern, component),
        debug_enabled(pattern.push(',') + (seq!['-'] + other), component) == debug_enabled(
            pattern,
            component,
        ),
        debug_enabled(pattern.push(',') + seq![' '], component) == debug_enabled(
            pattern,
            component,
        ),
        debug_enabled(pattern.push(','), component) == debug_enabled(pattern, component),
{
    let name = text::ascii_lower_spec(text::trim_spec(component));
    let trimmed = text::trim_spec(other);
    text::lemma_trim_again(other);
    reveal_strlit("*");
    let lower = text::ascii_lower_spec(trimmed);
    if lower == "*"@ {
        assert(trimmed.len() == lower.len());
        assert(lower[0] == text::ascii_lower_char(trimmed[0]));
        assert(lower[0] == '*');
        assert(trimmed[0] == '*');
        assert(trimmed =~= seq!['*']);
    }
    lemma_token_added(pattern, other, name);
    let negated = seq!['-'] + other;
    assert forall|i: int| 0 <= i < negated.len() implies negated[i] != ',' by {
        if i > 0 {
            assert(other.contains(other[i - 1]));
        }
    }
    lemma_negated(other);
    lemma_token_added(pattern, negated, name);
    let blank = seq![' '];
    assert(blank.skip(1) =~= Seq::empty());
    assert(text::trim_start_spec(blank.skip(1)) =~= Seq::<char>::empty());
    assert(text::trim_start_spec(blank) =~= Seq::<char>::empty());
    assert(text::trim_spec(blank).len() == 0);
    lemma_token_added(pattern, blank, name);
    let none = Seq::<char>::empty();
    assert(text::trim_start_spec(none) == none);
    assert(text::trim_spec(none) == none);
    lemma_token_added(pattern, none, name);
    assert(pattern.push(',') + none =~= pattern.push(','));
}

/// A global flag with the long name `long` that takes a text.
pub open spec fn global_flag(long: Seq<char>, help: Seq<char>) -> ArgText {
    ArgText { long: Some(long), global: true, ..command_tree::bare_arg(long, help) }
}

/// The framework-global flags.
pub open spec fn global_flag_list() -> Seq<ArgText> {
    seq![
        ArgText {
            short: Some('h'),
            kind: ArgKind::HelpLong,
            ..global_flag("help"@, "Print help"@)
        },
        ArgText {
            short: Some('o'),
            value_name: Some("FORMAT"@),
            default_value: Some("json"@),
            ..global_flag("output"@, "Output format: toon|json|human"@)
        },
        ArgText {
            values: Some(ValueCount { min: 0, max: 1 }),
            value_name: Some("FIELDS"@),
            default_missing: Some("all"@),
            ..global_flag("verbose"@, "Include metadata in output (all, or comma-separated: system,duration,args,env,identity,command,effective_args,timestamp)"@)
        },
        ArgText {
            values: Some(ValueCount { min: 0, max: 1 }),
            form: ValueForm::Boolean,
            default_value: Some("false"@),
            default_missing: Some("true"@),
            require_equals: true,
            ..global_flag("dry-run"@, "Preview mutations without executing"@)
        },
        ArgText {
            value_name: Some("FIELDS"@),
            ..global_flag("fields"@, "Comma-separated fields to include in output (use 'all' or '*' for everything)"@)
        },
        ArgText {
            value_name: Some("EXPR"@),
            ..global_flag("filter"@, "Per-item JMESPath predicate for list data"@)
        },
        ArgText {
            value_name: Some("EXPR"@),
            ..global_flag("expr"@, "JMESPath query applied to the whole result"@)
        },
        ArgText {
            form: ValueForm::Integer,
            default_value: Some("0"@),
            allow_hyphen: true,
            ..global_flag("limit"@, "Max items to return (client-side, 0=all)"@)
        },
        ArgText {
            form: ValueForm::Integer,
            default_value: Some("0"@),
            allow_hyphen: true,
            ..global_flag("offset"@, "Skip N items before applying limit"@)
        },
        ArgText {
            values: Some(ValueCount { min: 0, max: 1 }),
            form: ValueForm::Boolean,
            default_value: Some("false"@),
            default_missing: Some("true"@),
            require_equals: true,
            ..global_flag("schema"@, "Dump output field metadata instead of running the command"@)
        },
        ArgText {
            value_name: Some("DURATION"@),
            default_value: Some("0s"@),
            allow_hyphen: true,
            ..global_flag("timeout"@, "Overall command timeout (e.g. 60s, 5m); default 0s = no timeout"@)
        },
        ArgText {
            values: Some(ValueCount { min: 0, max: 1 }),
            value_name: Some("PATTERN"@),
            default_missing: Some("*"@),
            ..global_flag("debug"@, "Enable debug logging (comma-separated component patterns, e.g. *, transport, *,-auth)"@)
        },
        ArgText {
            value_name: Some("KEYWORD"@),
            ..global_flag("search"@, "Search commands and guides by keyword"@)
        },
        ArgText {
            form: ValueForm::Store,
            value_name: Some("MODE"@),
            ..global_flag("credential-store"@, "Credential storage: auto|keyring|file (overrides env and config)"@)
        },
        ArgText {
            kind: ArgKind::SetTrue,
            ..global_flag("json"@, "Shorthand for --output json"@)
        },
        ArgText {
            kind: ArgKind::SetTrue,
            ..global_flag("toon"@, "Shorthand for --output toon"@)
        },
        ArgText {
            kind: ArgKind::SetTrue,
            ..global_flag("human"@, "Shorthand for --output human"@)
        },
    ]
}

/// The flag that gives the reason for a command.
pub open spec fn reason_flag() -> ArgText {
    ArgText {
        value_name: Some("TEXT"@),
        ..global_flag(
            "reason"@,
            "Short explanation of why this command is being run (forwarded to your authorizer, auditor, or activity emitter)"@,
        )
    }
}

/// A global flag with the long name `long` that takes a text.
fn global_arg(long: &str, help: &str) -> (r: ArgNode)
    ensures
        r@ == global_flag(long@, help@),
{
    let mut r = ArgNode::new(long, help);
    r.long = Some(long.to_owned());
    r.global = true;
    assert(r@ =~= global_flag(long@, help@));
    r
}

/// The command with further arguments, otherwise unchanged.
pub open spec fn with_args(before: CommandNode, after: CommandNode, added: Seq<ArgText>) -> bool {
    &&& command_tree::arg_texts(after.args@) == command_tree::arg_texts(before.args@) + added
    &&& after == CommandNode { args: after.args, ..before }
}

/// Registers the framework-global flags on a command.
pub fn register_global_flags(command: CommandNode) -> (r: CommandNode)
    ensures
        with_args(command, r, global_flag_list()),
{
    let ghost before = command;
    let mut command = command;
    let mut arg = global_arg("help", "Print help");
    arg.short = Some('h');
    arg.kind = ArgKind::HelpLong;
    command.args.push(arg);
    let mut arg = global_arg("output", "Output format: toon|json|human");
    arg.short = Some('o');
    arg.value_name = Some("FORMAT".to_owned());
    arg.default_value = Some("json".to_owned());
    command.args.push(arg);
    let mut arg = global_arg("verbose", "Include metadata in output (all, or comma-separated: system,duration,args,env,identity,command,effective_args,timestamp)");
    arg.values = Some(ValueCount { min: 0, max: 1 });
    arg.value_name = Some("FIELDS".to_owned());
    arg.default_missing = Some("all".to_owned());
    command.args.push(arg);
    let mut arg = global_arg("dry-run", "Preview mutations without executing");
    arg.values = Some(ValueCount { min: 0, max: 1 });
    arg.form = ValueForm::Boolean;
    arg.default_value = Some("false".to_owned());
    arg.default_missing = Some("true".to_owned());
    arg.require_equals = true;
    command.args.push(arg);
    let mut arg = global_arg("fields", "Comma-separated fields to include in output (use 'all' or '*' for everything)");
    arg.value_name = Some("FIELDS".to_owned());
    command.args.push(arg);
    let mut arg = global_arg("filter", "Per-item JMESPath predicate for list data");
    arg.value_name = Some("EXPR".to_owned());
    command.args.push(arg);
    let mut arg = global_arg("expr", "JMESPath query applied to the whole result");
    arg.value_name = Some("EXPR".to_owned());
    command.args.push(arg);
    let mut arg = global_arg("limit", "Max items to return (client-side, 0=all)");
    arg.form = ValueForm::Integer;
    arg.default_value = Some("0".to_owned());
    arg.allow_hyphen = true;
    command.args.push(arg);
    let mut arg = global_arg("offset", "Skip N items before applying limit");
    arg.form = ValueForm::Integer;
    arg.default_value = Some("0".to_owned());
    arg.allow_hyphen = true;
    command.args.push(arg);
    let mut arg = global_arg("schema", "Dump output field metadata instead of running the command");
    arg.values = Some(ValueCount { min: 0, max: 1 });
    arg.form = ValueForm::Boolean;
    arg.default_value = Some("false".to_owned());
    arg.default_missing = Some("true".to_owned());
    arg.require_equals = true;
    command.args.push(arg);
    let mut arg = global_arg("timeout", "Overall command timeout (e.g. 60s, 5m); default 0s = no timeout");
    arg.value_name = Some("DURATION".to_owned());
    arg.default_value = Some("0s".to_owned());
    arg.allow_hyphen = true;
    command.args.push(arg);
    let mut arg = global_arg("debug", "Enable debug logging (comma-separated component patterns, e.g. *, transport, *,-auth)");
    arg.values = Some(ValueCount { min: 0, max: 1 });
    arg.value_name = Some("PATTERN".to_owned());
    arg.default_missing = Some("*".to_owned());
    command.args.push(arg);
    let mut arg = global_arg("search", "Search commands and guides by keyword");
    arg.value_name = Some("KEYWORD".to_owned());
    command.args.push(arg);
    let mut arg = global_arg("credential-store", "Credential storage: auto|keyring|file (overrides env and config)");
    arg.form = ValueForm::Store;
    arg.value_name = Some("MODE".to_owned());
    command.args.push(arg);
    let mut arg = global_arg("json", "Shorthand for --output json");
    arg.kind = ArgKind::SetTrue;
    command.args.push(arg);
    let mut arg = global_arg("toon", "Shorthand for --output toon");
    arg.kind = ArgKind::SetTrue;
    command.args.push(arg);
    let mut arg = global_arg("human", "Shorthand for --output human");
    arg.kind = ArgKind::SetTrue;
    command.args.push(arg);
    assert(command_tree::arg_texts(command.args@) =~= command_tree::arg_texts(before.args@) + global_flag_list());
    command
}

/// Registers the flag that gives the reason for a command.
pub fn register_reason_flag(command: CommandNode) -> (r: CommandNode)
    ensures
        with_args(command, r, seq![reason_flag()]),
{
    let ghost before = command;
    let mut command = command;
    let mut arg = global_arg(
        "reason",
        "Short explanation of why this command is being run (forwarded to your authorizer, auditor, or activity emitter)",
    );
    arg.value_name = Some("TEXT".to_owned());
    command.args.push(arg);
    assert(command_tree::arg_texts(command.args@) =~= command_tree::arg_texts(before.args@) + seq![reason_flag()]);
    command
}

/// Each global flag has the value that was given for it, and its own default
/// where none was.
pub proof fn law_globals_have_what_was_given(r: GlobalFlags, m: MatchedGlobals, default: Seq<char>)
    requires
        are_globals(r, m, default),
    ensures
        m.verbose matches Some(v) ==> r.verbose@ == v@,
        m.fields matches Some(v) ==> r.fields@ == v@,
        m.filter matches Some(v) ==> r.filter@ == v@,
        m.expr matches Some(v) ==> r.expr@ == v@,
        m.limit matches Some(v) ==> r.limit == v,
        m.offset matches Some(v) ==> r.offset == v,
        m.reason matches Some(v) ==> r.reason@ == v@,
        m.timeout matches Some(v) ==> r.timeout@ == v@,
        m.debug matches Some(v) ==> r.debug@ == v@,
        m.search matches Some(v) ==> r.search@ == v@,
        m.dry_run matches Some(v) ==> r.dry_run == v,
        m.schema matches Some(v) ==> r.schema == v,
        r.credential_store == m.credential_store,
        m.verbose is None ==> r.verbose@.len() == 0,
        m.fields is None ==> r.fields@.len() == 0,
        m.filter is None ==> r.filter@.len() == 0,
        m.expr is None ==> r.expr@.len() == 0,
        m.limit is None ==> r.limit == 0,
        m.offset is None ==> r.offset == 0,
        m.reason is None ==> r.reason@.len() == 0,
        m.timeout is None ==> r.timeout@ == "0s"@,
        m.debug is None ==> r.debug@.len() == 0,
        m.search is None ==> r.search@.len() == 0,
        m.dry_run is None ==> !r.dry_run,
        m.schema is None ==> !r.schema,
{
}

/// The format is the one that was asked for: by a shorthand, where of several
/// the one for toon comes before that for people and that for JSON, else by
/// the value of the output flag, else the default.
pub proof fn law_format_is_the_one_asked_for(m: MatchedGlobals, output: String, default: Seq<char>)
    ensures
        m.toon ==> selected_format(m, default) == "toon"@,
        m.human && !m.toon ==> selected_format(m, default) == "human"@,
        m.json && !m.toon && !m.human ==> selected_format(m, default) == "json"@,
        !m.toon && !m.human && !m.json && m.output == Some(output) ==> selected_format(m, default)
            == output@,
        !m.toon && !m.human && !m.json && m.output is None ==> selected_format(m, default)
            == default,
{
}

/// Without an override a terminal gets the form for people and anything else
/// JSON.
pub proof fn law_terminal_decides_the_default(value: Seq<char>, is_tty: bool)
    ensures
        default_format_spec(None, true) == "human"@,
        default_format_spec(None, false) == "json"@,
        formats::named_format(text::ascii_lower_spec(text::trim_spec(value))) is None
            ==> default_format_spec(Some(value), is_tty) == default_format_spec(None, is_tty),
        formats::named_format(text::ascii_lower_spec(text::trim_spec(value))) is Some
            ==> default_format_spec(Some(value), is_tty) == text::ascii_lower_spec(
            text::trim_spec(value),
        ),
{
}

/// The first search flag counts, in either of its two forms; what stands before
/// it does not matter.
pub proof fn law_search_query_is_read(
    before: Seq<Seq<char>>,
    query: Seq<char>,
    rest: Seq<Seq<char>>,
)
    requires
        forall|i: int|
            0 <= i < before.len() ==> (#[trigger] before[i]) != "--search"@ && !(
            "--search="@.is_prefix_of(before[i])),
    ensures
        search_query_from(before + seq!["--search"@, query] + rest, 0) == query,
        search_query_from(before + seq!["--search="@ + query] + rest, 0) == query,
        search_query_from(before, 0).len() == 0,
{
    reveal_strlit("--search");
    reveal_strlit("--search=");
    let two = before + seq!["--search"@, query] + rest;
    let one = before + seq!["--search="@ + query] + rest;
    let n: int = before.len() as int;
    assert forall|i: int| 0 <= i < n implies (#[trigger] two[i]) != "--search"@ && !(
    "--search="@.is_prefix_of(two[i])) by {
        assert(two[i] == before[i]);
    }
    assert forall|i: int| 0 <= i < n implies (#[trigger] one[i]) != "--search"@ && !(
    "--search="@.is_prefix_of(one[i])) by {
        assert(one[i] == before[i]);
    }
    lemma_search_skips(two, 0, n);
    lemma_search_skips(one, 0, n);
    lemma_search_skips(before, 0, n);
    assert(two[n] == "--search"@ && two[n + 1] == query);
    let joined = "--search="@ + query;
    assert(one[n] == joined);
    assert("--search="@.is_prefix_of(joined)) by {
        assert(joined.subrange(0, "--search="@.len() as int) =~= "--search="@);
    }
    assert(joined != "--search"@) by {
        assert("--search"@.len() == 8);
        assert("--search="@.len() == 9);
    }
    assert(joined.skip("--search="@.len() as int) =~= query);
}

proof fn lemma_search_skips(args: Seq<Seq<char>>, i: int, n: int)
    requires
        0 <= i <= n <= args.len(),
        forall|k: int|
            i <= k < n ==> (#[trigger] args[k]) != "--search"@ && !("--search="@.is_prefix_of(
                args[k],
            )),
    ensures
        search_query_from(args, i) == search_query_from(args, n),
    decreases n - i,
{
    if i < n {
        assert(args[i] != "--search"@);
        lemma_search_skips(args, i + 1, n);
    }
}

/// The first output flag counts, in each of its forms.
pub proof fn law_output_format_is_read(
    word: Seq<char>,
    format: Seq<char>,
    rest: Seq<Seq<char>>,
    default: Seq<char>,
)
    ensures
        output_format_from(seq!["--output"@, format] + rest, 0, default) == format,
        output_format_from(seq!["-o"@, format] + rest, 0, default) == format,
        output_format_from(seq!["--output="@ + format] + rest, 0, default) == format,
        output_format_from(seq!["--json"@] + rest, 0, default) == "json"@,
        output_format_from(seq!["--toon"@] + rest, 0, default) == "toon"@,
        output_format_from(seq!["--human"@] + rest, 0, default) == "human"@,
        output_format_from(Seq::empty(), 0, default) == default,
        !args::is_flag(word) ==> output_format_from(seq![word] + rest, 0, default)
            == output_format_from(rest, 0, default),
{
    reveal_strlit("--output");
    reveal_strlit("-o");
    reveal_strlit("--output=");
    reveal_strlit("--json");
    reveal_strlit("--toon");
    reveal_strlit("--human");
    let joined = "--output="@ + format;
    assert("--output="@.is_prefix_of(joined)) by {
        assert(joined.subrange(0, "--output="@.len() as int) =~= "--output="@);
    }
    assert("--output"@.len() == 8 && "-o"@.len() == 2 && "--output="@.len() == 9);
    assert("--json"@.len() == 6 && "--toon"@.len() == 6 && "--human"@.len() == 7);
    assert("--json"@[2] == 'j' && "--toon"@[2] == 't');
    assert(joined.skip("--output="@.len() as int) =~= format);
    assert((seq!["--output"@, format] + rest)[0] == "--output"@);
    assert((seq!["--output"@, format] + rest)[1] == format);
    assert((seq!["-o"@, format] + rest)[0] == "-o"@);
    assert((seq!["-o"@, format] + rest)[1] == format);
    assert((seq![joined] + rest)[0] == joined);
    assert((seq!["--json"@] + rest)[0] == "--json"@);
    assert((seq!["--toon"@] + rest)[0] == "--toon"@);
    assert((seq!["--human"@] + rest)[0] == "--human"@);
    if !args::is_flag(word) {
        let all = seq![word] + rest;
        assert(all[0] == word);
        assert("--output"@[0] == '-' && "-o"@[0] == '-' && "--output="@[0] == '-');
        assert("--json"@[0] == '-' && "--toon"@[0] == '-' && "--human"@[0] == '-');
        assert(!("--output="@.is_prefix_of(word))) by {
            if "--output="@.is_prefix_of(word) {
                assert(word[0] == "--output="@[0]);
            }
        }
        lemma_output_behind(all, 1, 0, default);
        assert(all.skip(1) =~= rest);
    }
}

proof fn lemma_output_behind(args: Seq<Seq<char>>, k: int, i: int, default: Seq<char>)
    requires
        0 <= k <= args.len(),
        0 <= i,
    ensures
        output_format_from(args, k + i, default) == output_format_from(args.skip(k), i, default),
    decreases args.len() - k - i,
{
    if k + i < args.len() {
        assert(args.skip(k)[i] == args[k + i]);
        if k + i + 1 < args.len() {
            assert(args.skip(k)[i + 1] == args[k + i + 1]);
        }
        lemma_output_behind(args, k, i + 1, default);
    }
}

/// The path of a command is made of the words that stand there alone: neither
/// flags, nor their values.
pub proof fn law_path_is_made_of_words(
    program: Seq<char>,
    words: Seq<Seq<char>>,
    bool_flags: Set<Seq<char>>,
    value_flags: Set<Seq<char>>,
)
    requires
        forall|i: int| 0 <= i < words.len() ==> !args::is_flag(#[trigger] words[i]),
    ensures
        path_from(seq![program] + words, 1, bool_flags, value_flags) == words,
{
    let all = seq![program] + words;
    assert forall|i: int| 1 <= i < all.len() implies !args::is_flag(#[trigger] all[i]) by {
        assert(all[i] == words[i - 1]);
    }
    lemma_path_words(all, 1, bool_flags, value_flags);
    assert(all.skip(1) =~= words);
}

proof fn lemma_path_words(
    args: Seq<Seq<char>>,
    i: int,
    bool_flags: Set<Seq<char>>,
    value_flags: Set<Seq<char>>,
)
    requires
        0 <= i <= args.len(),
        forall|k: int| i <= k < args.len() ==> !args::is_flag(#[trigger] args[k]),
    ensures
        path_from(args, i, bool_flags, value_flags) == args.skip(i),
    decreases args.len() - i,
{
    reveal_strlit("--schema");
    if i < args.len() {
        assert(!args::is_flag(args[i]));
        assert("--schema"@[0] == '-');
        lemma_path_words(args, i + 1, bool_flags, value_flags);
        assert(seq![args[i]] + args.skip(i + 1) =~= args.skip(i));
    } else {
        assert(args.skip(i) =~= Seq::empty());
    }
}

/// A flag stands in no path, nor does what a flag with a value takes.
pub proof fn law_path_skips_flags(
    args: Seq<Seq<char>>,
    i: int,
    bool_flags: Set<Seq<char>>,
    value_flags: Set<Seq<char>>,
)
    requires
        0 <= i < args.len(),
        args::is_flag(args[i]),
        args[i] != "--schema"@,
    ensures
        bool_flags.contains(args[i]) || args[i].contains('=') ==> path_from(
            args,
            i,
            bool_flags,
            value_flags,
        ) == path_from(args, i + 1, bool_flags, value_flags),
        !bool_flags.contains(args[i]) && !args[i].contains('=') && value_flags.contains(args[i])
            ==> path_from(args, i, bool_flags, value_flags) == path_from(
            args,
            i + 2,
            bool_flags,
            value_flags,
        ),
{
}

/// The accepted spellings of a boolean mean what they say, and nothing else is
/// one.
pub proof fn law_boolean_spellings(raw: Seq<char>)
    ensures
        compat_bool("true"@) == Some(true),
        compat_bool("1"@) == Some(true),
        compat_bool("false"@) == Some(false),
        compat_bool("0"@) == Some(false),
        raw.len() == 0 || raw.len() > 5 ==> compat_bool(raw) is None,
        compat_bool(raw) == Some(true) ==> text::ascii_lower_spec(raw) == "true"@
            || text::ascii_lower_spec(raw) == "t"@ || raw == "1"@,
        compat_bool(raw) == Some(false) ==> text::ascii_lower_spec(raw) == "false"@
            || text::ascii_lower_spec(raw) == "f"@ || raw == "0"@,
{
    reveal_strlit("1");
    reveal_strlit("t");
    reveal_strlit("T");
    reveal_strlit("TRUE");
    reveal_strlit("true");
    reveal_strlit("True");
    reveal_strlit("0");
    reveal_strlit("f");
    reveal_strlit("F");
    reveal_strlit("FALSE");
    reveal_strlit("false");
    reveal_strlit("False");
    assert("1"@[0] == '1' && "0"@[0] == '0' && "t"@[0] == 't' && "f"@[0] == 'f');
    assert("T"@[0] == 'T' && "F"@[0] == 'F');
    assert("true"@[0] == 't' && "TRUE"@[0] == 'T' && "True"@[0] == 'T');
    assert("false"@[0] == 'f' && "FALSE"@[0] == 'F' && "False"@[0] == 'F');
    assert("true"@.len() == 4 && "TRUE"@.len() == 4 && "True"@.len() == 4);
    assert("false"@.len() == 5 && "FALSE"@.len() == 5 && "False"@.len() == 5);
    assert("1"@.len() == 1 && "0"@.len() == 1);
    assert(text::ascii_lower_spec("TRUE"@) =~= "true"@);
    assert(text::ascii_lower_spec("True"@) =~= "true"@);
    assert(text::ascii_lower_spec("true"@) =~= "true"@);
    assert(text::ascii_lower_spec("T"@) =~= "t"@);
    assert(text::ascii_lower_spec("t"@) =~= "t"@);
    assert(text::ascii_lower_spec("FALSE"@) =~= "false"@);
    assert(text::ascii_lower_spec("False"@) =~= "false"@);
    assert(text::ascii_lower_spec("false"@) =~= "false"@);
    assert(text::ascii_lower_spec("F"@) =~= "f"@);
    assert(text::ascii_lower_spec("f"@) =~= "f"@);
}

/// A schema is asked for by its flag alone, or with a value that means true; a
/// value that means false does not ask for one, nor does its absence.
pub proof fn law_schema_flag_is_read(value: Seq<char>, rest: Seq<Seq<char>>)
    ensures
        schema_from(seq!["--schema"@] + rest, 0),
        schema_from(seq!["--schema="@ + value] + rest, 0) <==> compat_bool(value) == Some(true),
        !schema_from(Seq::empty(), 0),
{
    reveal_strlit("--schema");
    reveal_strlit("--schema=");
    let joined = "--schema="@ + value;
    assert((seq!["--schema"@] + rest)[0] == "--schema"@);
    assert((seq![joined] + rest)[0] == joined);
    assert("--schema="@.is_prefix_of(joined)) by {
        assert(joined.subrange(0, "--schema="@.len() as int) =~= "--schema="@);
    }
    assert(joined != "--schema"@) by {
        assert("--schema"@.len() == 8);
        assert("--schema="@.len() == 9);
    }
    assert(joined.skip("--schema="@.len() as int) =~= value);
}

/// The flags of a command are told apart by whether they take a value: each
/// long and short form of an argument stands on its own side, and on the other
/// only where another argument has it.
pub proof fn law_flags_are_told_apart(arg: ArgNode, before: Seq<ArgNode>, name: Seq<char>)
    ensures
        names_among(before.push(arg), requires_value(arg)) == names_among(
            before,
            requires_value(arg),
        ).union(names_of(arg)),
        names_among(before.push(arg), !requires_value(arg)) == names_among(
            before,
            !requires_value(arg),
        ),
        arg.long matches Some(long) ==> names_of(arg).contains("--"@ + long@),
        arg.short matches Some(short) ==> names_of(arg).contains("-"@.push(short)),
        arg.long is None && arg.short is None ==> !names_of(arg).contains(name),
        arg.kind is SetTrue ==> !requires_value(arg),
        (arg.kind is Store || arg.kind is Append) && arg.values is None ==> requires_value(arg),
{
    assert(before.push(arg).drop_last() =~= before);
}

/// The flags of every command below are known at the command.
pub proof fn law_flags_below_are_known(node: CommandNode, k: int, valued: bool, name: Seq<char>)
    requires
        0 <= k < node.subcommands@.len(),
        names_below(node.subcommands@[k], valued).contains(name),
    ensures
        names_below(node, valued).contains(name),
{
    lemma_flags_of_one(node.subcommands@, k, valued, name);
}

proof fn lemma_flags_of_one(nodes: Seq<CommandNode>, k: int, valued: bool, name: Seq<char>)
    requires
        0 <= k < nodes.len(),
        names_below(nodes[k], valued).contains(name),
    ensures
        names_below_all(nodes, valued).contains(name),
    decreases nodes.len(),
{
    reveal_with_fuel(names_below_all, 2);
    if k < nodes.len() - 1 {
        lemma_flags_of_one(nodes.drop_last(), k, valued, name);
    }
}

/// A prefix has capitals, digits and underscores alone, one character for each
/// of the app id.
pub proof fn law_prefix_is_a_variable_name(app_id: Seq<char>, i: int)
    requires
        0 <= i < app_id.len(),
    ensures
        env_prefix(app_id).len() == app_id.len(),
        'A' <= env_prefix(app_id)[i] <= 'Z' || '0' <= env_prefix(app_id)[i] <= '9' || env_prefix(
            app_id,
        )[i] == '_',
        'A' <= app_id[i] <= 'Z' || '0' <= app_id[i] <= '9' ==> env_prefix(app_id)[i] == app_id[i],
        'a' <= app_id[i] <= 'z' ==> text::ascii_lower_char(env_prefix(app_id)[i]) == app_id[i],
        app_id[i] == '-' ==> env_prefix(app_id)[i] == '_',
{
}

/// Registering flags on a command adds them behind its own, and changes nothing
/// else of it.
pub proof fn law_flags_are_added(
    before: CommandNode,
    after: CommandNode,
    added: Seq<ArgText>,
    i: int,
)
    requires
        with_args(before, after, added),
    ensures
        after.name == before.name,
        after.about == before.about,
        after.subcommands == before.subcommands,
        after.args@.len() == before.args@.len() + added.len(),
        0 <= i < before.args@.len() ==> after.args@[i]@ == before.args@[i]@,
        0 <= i < added.len() ==> after.args@[before.args@.len() + i]@ == added[i],
{
    let all = command_tree::arg_texts(after.args@);
    let own = command_tree::arg_texts(before.args@);
    assert(all.len() == after.args@.len() && own.len() == before.args@.len());
    if 0 <= i < before.args@.len() {
        assert(all[i] == own[i]);
    }
    if 0 <= i < added.len() {
        assert(all[own.len() + i] == added[i]);
    }
}

/// Every global flag is global and goes by its own long name; those of output,
/// page and dry run have their defaults.
pub proof fn law_global_flags(i: int)
    requires
        0 <= i < global_flag_list().len(),
    ensures
        global_flag_list()[i].global,
        global_flag_list()[i].long == Some(global_flag_list()[i].id),
        global_flag_list()[i].long == Some("limit"@) ==> global_flag_list()[i].default_value
            == Some("0"@) && global_flag_list()[i].form is Integer,
        global_flag_list()[i].long == Some("offset"@) ==> global_flag_list()[i].default_value
            == Some("0"@) && global_flag_list()[i].form is Integer,
        global_flag_list()[i].long == Some("dry-run"@) ==> global_flag_list()[i].default_missing
            == Some("true"@) && global_flag_list()[i].default_value == Some("false"@),
        global_flag_list()[i].long == Some("output"@) ==> global_flag_list()[i].short == Some('o'),
        reason_flag().global && reason_flag().long == Some("reason"@),
{
    reveal_strlit("limit");
    reveal_strlit("offset");
    reveal_strlit("dry-run");
    reveal_strlit("output");
    reveal_strlit("help");
    reveal_strlit("verbose");
    reveal_strlit("fields");
    reveal_strlit("filter");
    reveal_strlit("expr");
    reveal_strlit("schema");
    reveal_strlit("timeout");
    reveal_strlit("debug");
    reveal_strlit("search");
    reveal_strlit("credential-store");
    reveal_strlit("json");
    reveal_strlit("toon");
    reveal_strlit("human");
    assert("limit"@[0] == 'l' && "offset"@[0] == 'o' && "offset"@[1] == 'f');
    assert("dry-run"@[0] == 'd' && "dry-run"@[1] == 'r' && "debug"@[1] == 'e');
    assert("output"@[0] == 'o' && "output"@[1] == 'u');
    assert("help"@[0] == 'h' && "verbose"@[0] == 'v' && "fields"@[0] == 'f');
    assert("filter"@[0] == 'f' && "expr"@[0] == 'e' && "schema"@[0] == 's');
    assert("timeout"@[0] == 't' && "search"@[0] == 's' && "credential-store"@[0] == 'c');
    assert("json"@[0] == 'j' && "toon"@[0] == 't' && "human"@[0] == 'h');
}

/// What stands before the first output flag does not matter.
pub proof fn law_first_output_flag_counts(
    before: Seq<Seq<char>>,
    rest: Seq<Seq<char>>,
    default: Seq<char>,
)
    requires
        forall|i: int|
            0 <= i < before.len() ==> (#[trigger] before[i]) != "--output"@ && before[i] != "-o"@
                && before[i] != "--json"@ && before[i] != "--toon"@ && before[i] != "--human"@
                && !("--output="@.is_prefix_of(before[i])),
    ensures
        output_format_from(before + rest, 0, default) == output_format_from(rest, 0, default),
        output_format_from(before, 0, default) == default,
    decreases before.len(),
{
    if before.len() == 0 {
        assert(before + rest =~= rest);
    } else {
        let tail = before.skip(1);
        assert forall|i: int| 0 <= i < tail.len() implies (#[trigger] tail[i]) != "--output"@
            && tail[i] != "-o"@ && tail[i] != "--json"@ && tail[i] != "--toon"@ && tail[i]
            != "--human"@ && !("--output="@.is_prefix_of(tail[i])) by {
            assert(tail[i] == before[i + 1]);
        }
        law_first_output_flag_counts(tail, rest, default);
        let all = before + rest;
        assert(all[0] == before[0]);
        assert(all.skip(1) =~= tail + rest);
        lemma_output_behind(all, 1, 0, default);
        lemma_output_behind(before, 1, 0, default);
    }
}

/// What stands before the first schema flag does not matter.
pub proof fn law_first_schema_flag_counts(before: Seq<Seq<char>>, rest: Seq<Seq<char>>)
    requires
        forall|i: int|
            0 <= i < before.len() ==> (#[trigger] before[i]) != "--schema"@ && !(
            "--schema="@.is_prefix_of(before[i])),
    ensures
        schema_from(before + rest, 0) == schema_from(rest, 0),
        !schema_from(before, 0),
    decreases before.len(),
{
    if before.len() == 0 {
        assert(before + rest =~= rest);
    } else {
        let tail = before.skip(1);
        assert forall|i: int| 0 <= i < tail.len() implies (#[trigger] tail[i]) != "--schema"@ && !(
        "--schema="@.is_prefix_of(tail[i])) by {
            assert(tail[i] == before[i + 1]);
        }
        law_first_schema_flag_counts(tail, rest);
        let all = before + rest;
        assert(all[0] == before[0]);
        assert(all.skip(1) =~= tail + rest);
        lemma_schema_behind(all, 1, 0);
        lemma_schema_behind(before, 1, 0);
    }
}

proof fn lemma_schema_behind(args: Seq<Seq<char>>, k: int, i: int)
    requires
        0 <= k <= args.len(),
        0 <= i,
    ensures
        schema_from(args, k + i) == schema_from(args.skip(k), i),
    decreases args.len() - k - i,
{
    if k + i < args.len() {
        assert(args.skip(k)[i] == args[k + i]);
        lemma_schema_behind(args, k, i + 1);
    }
}

/// An argument whose value may be left out takes none from the next token, and
/// one that needs a value does.
pub proof fn law_optional_values_take_nothing(arg: ArgNode, count: ValueCount)
    requires
        arg.kind is Store || arg.kind is Append,
        arg.values == Some(count),
    ensures
        count.min == 0 ==> !requires_value(arg),
        count.min > 0 && count.max > 0 ==> requires_value(arg),
{
}

} // verus!
