//! Invocations under alternative program names.
use crate::cli::args::program_basename;
use crate::cli::args;
use crate::ordmap::StringMap;
use crate::text;
use vstd::prelude::*;
use vstd::string::*;

verus! {

/// Maximum number of chained hand-offs before the engine refuses to go on. Real
/// nesting is zero or one level; this bounds a pathologically long explicit
/// `argv0 … argv0 …` chain.
pub const MAX_ARGV0_DEPTH: usize = 16;

/// How the engine behaves when invoked under a registered alternative name.
pub enum Argv0Route {
    /// Rewrite the invocation into these canonical subcommand tokens and run it
    /// through the normal command tree, with the real argument tail appended.
    Alias(Vec<String>),
    /// Run an entirely separate application, known by the number that its owner
    /// gave it.
    Personality(u64),
}

/// What a route says.
pub enum RouteText {
    /// The canonical subcommand tokens.
    Alias(Seq<Seq<char>>),
    /// The number of the separate application.
    Personality(u64),
}

impl View for Argv0Route {
    type V = RouteText;

    open spec fn view(&self) -> RouteText {
        match self {
            Argv0Route::Alias(tokens) => RouteText::Alias(text::texts(tokens@)),
            Argv0Route::Personality(id) => RouteText::Personality(*id),
        }
    }
}

/// What the routes of a map say.
pub open spec fn route_texts(m: Map<Seq<char>, Argv0Route>) -> Map<Seq<char>, RouteText> {
    m.map_values(|r: Argv0Route| r@)
}

/// The character may stand in an alternative name.
pub open spec fn is_name_char(c: char) -> bool {
    ('a' <= c && c <= 'z') || ('A' <= c && c <= 'Z') || ('0' <= c && c <= '9') || c == '-' || c
        == '_'
}

/// The name is one that a route can have.
pub open spec fn is_valid_name(name: Seq<char>) -> bool {
    name.len() > 0 && forall|i: int| 0 <= i < name.len() ==> is_name_char(#[trigger] name[i])
}

/// Returns `true` when `name` is a valid alternative route name: a non-empty
/// token of ASCII letters, digits, `-`, or `_`. This keeps the name safe as a
/// link or shim file name and as a program name.
pub fn is_valid_argv0_name(name: &str) -> (r: bool)
    ensures
        r == is_valid_name(name@),
{
    let chars = text::chars_of(name);
    if chars.len() == 0 {
        return false;
    }
    let mut i: usize = 0;
    while i < chars.len()
        invariant
            chars@ == name@,
            i <= chars@.len(),
            forall|k: int| 0 <= k < i ==> is_name_char(#[trigger] name@[k]),
        decreases chars@.len() - i,
    {
        let c = chars[i];
        let fits = ('a' <= c && c <= 'z') || ('A' <= c && c <= 'Z') || ('0' <= c && c <= '9') || c
            == '-' || c == '_';
        if !fits {
            assert(!is_name_char(name@[i as int]));
            return false;
        }
        i = i + 1;
    }
    true
}

/// What comes of looking at the program name.
pub enum Argv0Outcome {
    /// Continue the normal run with these arguments.
    Proceed(Vec<String>),
    /// Report this error.
    Refused(String),
    /// Run the separate application with these arguments behind its name.
    HandOff {
        /// The number of the separate application.
        personality: u64,
        /// The arguments behind its name.
        rest: Vec<String>,
    },
}

/// What comes of looking at the program name, said in texts.
pub enum OutcomeText {
    /// Continue the normal run with these arguments.
    Proceed(Seq<Seq<char>>),
    /// Report this error.
    Refused(Seq<char>),
    /// Run the separate application with these arguments behind its name.
    HandOff(u64, Seq<Seq<char>>),
}

impl View for Argv0Outcome {
    type V = OutcomeText;

    open spec fn view(&self) -> OutcomeText {
        match self {
            Argv0Outcome::Proceed(args) => OutcomeText::Proceed(text::texts(args@)),
            Argv0Outcome::Refused(m) => OutcomeText::Refused(m@),
            Argv0Outcome::HandOff { personality, rest } => OutcomeText::HandOff(
                *personality,
                text::texts(rest@),
            ),
        }
    }
}

/// The arguments from a place on, none where there are fewer.
pub open spec fn tail_from(args: Seq<Seq<char>>, n: int) -> Seq<Seq<char>> {
    if n < args.len() {
        args.skip(n)
    } else {
        Seq::empty()
    }
}

/// The message for a name that is not registered.
pub open spec fn unknown_name(name: Seq<char>, known: Seq<Seq<char>>) -> Seq<char> {
    text::debug_quoted(name) + " is not a registered argv0 name; known names: "@ + text::join_spec(
        known,
        ", "@,
    )
}

/// What comes of a program name with the arguments behind it.
pub open spec fn dispatched(
    routes: Map<Seq<char>, RouteText>,
    known: Seq<Seq<char>>,
    canonical: Seq<char>,
    explicit: bool,
    name: Seq<char>,
    rest: Seq<Seq<char>>,
) -> OutcomeText {
    if routes.dom().contains(name) {
        match routes[name] {
            RouteText::Alias(tokens) => OutcomeText::Proceed(seq![canonical] + tokens + rest),
            RouteText::Personality(id) => OutcomeText::HandOff(id, rest),
        }
    } else if explicit {
        OutcomeText::Refused(unknown_name(name, known))
    } else {
        OutcomeText::Proceed(seq![canonical] + rest)
    }
}

/// What comes of the program name of an invocation: nothing changes without
/// routes; `argv0 <name>` behind the program name stands for the name.
pub open spec fn resolved(
    routes: Map<Seq<char>, RouteText>,
    known: Seq<Seq<char>>,
    canonical: Seq<char>,
    args: Seq<Seq<char>>,
    depth: nat,
) -> OutcomeText {
    if known.len() == 0 {
        OutcomeText::Proceed(args)
    } else if depth > MAX_ARGV0_DEPTH {
        OutcomeText::Refused("argv0 dispatch recursion limit exceeded"@)
    } else if args.len() > 1 && args[1] == "argv0"@ {
        if args.len() == 2 {
            OutcomeText::Refused("the argv0 command requires a name to dispatch as"@)
        } else {
            dispatched(
                routes,
                known,
                canonical,
                true,
                args::basename_spec(args[2]),
                tail_from(args, 3),
            )
        }
    } else {
        dispatched(
            routes,
            known,
            canonical,
            false,
            if args.len() > 0 {
                args::basename_spec(args[0])
            } else {
                Seq::empty()
            },
            tail_from(args, 1),
        )
    }
}

fn copy_tail(args: &Vec<String>, from: usize) -> (r: Vec<String>)
    ensures
        text::texts(r@) == tail_from(text::texts(args@), from as int),
{
    let mut r: Vec<String> = Vec::new();
    append_from(&mut r, args, from);
    assert(text::texts(r@) =~= tail_from(text::texts(args@), from as int));
    r
}

fn append_from(list: &mut Vec<String>, args: &Vec<String>, from: usize)
    ensures
        text::texts(final(list)@) =~= text::texts(old(list)@) + tail_from(
            text::texts(args@),
            from as int,
        ),
{
    let ghost first = text::texts(list@);
    let ghost all = text::texts(args@);
    if from >= args.len() {
        assert(first + tail_from(all, from as int) =~= first);
        return;
    }
    let mut i: usize = from;
    assert(first + all.subrange(from as int, from as int) =~= first);
    while i < args.len()
        invariant
            from <= i <= args@.len(),
            all == text::texts(args@),
            text::texts(list@) == first + all.subrange(from as int, i as int),
        decreases args@.len() - i,
    {
        let ghost before = list@;
        list.push(args[i].clone());
        proof {
            assert(text::texts(list@) =~= text::texts(before).push(args@[i as int]@));
            assert(first + all.subrange(from as int, i + 1) =~= (first + all.subrange(
                from as int,
                i as int,
            )).push(all[i as int]));
        }
        i = i + 1;
    }
    assert(all.subrange(from as int, i as int) =~= tail_from(all, from as int));
}

/// Resolves the program name of an invocation before the normal run. `canonical`
/// is the name of the application, and `depth` counts chained hand-offs.
pub fn resolve_argv0(
    routes: &StringMap<Argv0Route>,
    canonical: &str,
    text_args: Vec<String>,
    depth: usize,
) -> (r: Argv0Outcome)
    ensures
        r@ == resolved(
            route_texts(routes@),
            routes.order(),
            canonical@,
            text::texts(text_args@),
            depth as nat,
        ),
{
    let ghost all = text::texts(text_args@);
    let ghost map = route_texts(routes@);
    let known = routes.keys();
    if known.len() == 0 {
        return Argv0Outcome::Proceed(text_args);
    }
    if depth > MAX_ARGV0_DEPTH {
        return Argv0Outcome::Refused("argv0 dispatch recursion limit exceeded".to_owned());
    }
    let explicit = text_args.len() > 1 && text::str_eq(text_args[1].as_str(), "argv0");
    let name: String;
    let rest: Vec<String>;
    if explicit {
        if text_args.len() == 2 {
            return Argv0Outcome::Refused(
                "the argv0 command requires a name to dispatch as".to_owned(),
            );
        }
        name = program_basename(text_args[2].as_str());
        rest = copy_tail(&text_args, 3);
    } else {
        name = if text_args.len() > 0 {
            program_basename(text_args[0].as_str())
        } else {
            let none = String::new();
            assert(none@ =~= Seq::empty());
            none
        };
        rest = copy_tail(&text_args, 1);
    }
    assert(map.dom() =~= routes@.dom());
    match routes.get(name.as_str()) {
        Some(Argv0Route::Alias(tokens)) => {
            let mut rewritten: Vec<String> = Vec::new();
            rewritten.push(canonical.to_owned());
            assert(text::texts(rewritten@) =~= seq![canonical@]);
            append_from(&mut rewritten, tokens, 0);
            assert(tail_from(text::texts(tokens@), 0) =~= text::texts(tokens@));
            append_from(&mut rewritten, &rest, 0);
            assert(tail_from(text::texts(rest@), 0) =~= text::texts(rest@));
            Argv0Outcome::Proceed(rewritten)
        },
        Some(Argv0Route::Personality(id)) => {
            Argv0Outcome::HandOff { personality: *id, rest }
        },
        None => {
            if explicit {
                let mut m = text::debug_text(name.as_str());
                m.append(" is not a registered argv0 name; known names: ");
                m.append(text::join(&known, ", ").as_str());
                Argv0Outcome::Refused(m)
            } else {
                let mut rewritten: Vec<String> = Vec::new();
                rewritten.push(canonical.to_owned());
                assert(text::texts(rewritten@) =~= seq![canonical@]);
                append_from(&mut rewritten, &rest, 0);
                assert(tail_from(text::texts(rest@), 0) =~= text::texts(rest@));
                Argv0Outcome::Proceed(rewritten)
            }
        },
    }
}

/// Without routes an invocation stays as it is.
pub proof fn law_no_routes_no_dispatch(
    routes: Map<Seq<char>, RouteText>,
    canonical: Seq<char>,
    args: Seq<Seq<char>>,
    depth: nat,
)
    ensures
        resolved(routes, Seq::empty(), canonical, args, depth) == OutcomeText::Proceed(args),
{
}

/// The explicit form does what an invocation under the name does.
pub proof fn law_explicit_form_is_equivalent(
    routes: Map<Seq<char>, RouteText>,
    known: Seq<Seq<char>>,
    canonical: Seq<char>,
    program: Seq<char>,
    name: Seq<char>,
    rest: Seq<Seq<char>>,
    depth: nat,
)
    requires
        routes.dom().contains(args::basename_spec(name)),
        rest.len() > 0 ==> rest[0] != "argv0"@,
    ensures
        resolved(routes, known, canonical, seq![program, "argv0"@, name] + rest, depth) == (
        if known.len() == 0 {
            OutcomeText::Proceed(seq![program, "argv0"@, name] + rest)
        } else {
            resolved(routes, known, canonical, seq![name] + rest, depth)
        }),
{
    let long = seq![program, "argv0"@, name] + rest;
    let short = seq![name] + rest;
    assert(tail_from(long, 3) =~= rest);
    assert(tail_from(short, 1) =~= rest);
    if rest.len() > 0 {
        assert(short[1] == rest[0]);
    }
}

/// On-disk mechanism used to materialize an alternative name.
#[derive(Clone, Copy, Debug, PartialEq, Eq, Structural)]
pub enum Argv0LinkMethod {
    /// A symbolic link to the target executable.
    SoftLink,
    /// A hard link to the target executable. The link must live on the same
    /// volume as the target.
    HardLink,
    /// A small shim script that forwards to the target via the `argv0` command.
    Script,
}

/// The file name of an alternative name.
pub open spec fn link_file_name(
    name: Seq<char>,
    method: Argv0LinkMethod,
    windows: bool,
) -> Seq<char> {
    if !windows {
        name
    } else if method is Script {
        name + ".cmd"@
    } else {
        name + ".exe"@
    }
}

/// File name for an alternative name, per method and platform.
pub fn argv0_link_file_name(name: &str, method: Argv0LinkMethod, windows: bool) -> (r: String)
    ensures
        r@ == link_file_name(name@, method, windows),
{
    let mut r = name.to_owned();
    if windows {
        match method {
            Argv0LinkMethod::Script => r.append(".cmd"),
            _ => r.append(".exe"),
        }
    }
    r
}

/// The contents of a shim script.
pub open spec fn script_contents(target: Seq<char>, name: Seq<char>, windows: bool) -> Seq<char> {
    if windows {
        "@\""@ + target + "\" argv0 "@ + name + " %*\r\n"@
    } else {
        "#!/bin/sh\nexec \""@ + target + "\" argv0 "@ + name + " \"$@\"\n"@
    }
}

/// Contents of a shim script that forwards to `target` via the explicit `argv0`
/// command. A batch file on Windows, a POSIX shell script elsewhere.
pub fn argv0_script_contents(target: &str, name: &str, windows: bool) -> (r: String)
    ensures
        r@ == script_contents(target@, name@, windows),
{
    if windows {
        let mut r = "@\"".to_owned();
        r.append(target);
        r.append("\" argv0 ");
        r.append(name);
        r.append(" %*\r\n");
        r
    } else {
        let mut r = "#!/bin/sh\nexec \"".to_owned();
        r.append(target);
        r.append("\" argv0 ");
        r.append(name);
        r.append(" \"$@\"\n");
        r
    }
}

/// What stands at the place of a link.
pub struct LinkState {
    /// It is a symbolic link.
    pub is_symlink: bool,
    /// It is a symbolic link to the target.
    pub points_to_target: bool,
    /// It holds the same bytes as the target.
    pub same_bytes: bool,
    /// Its contents, where they are text.
    pub contents: Option<String>,
}

/// What stands at the place of a link is what would be created there.
pub open spec fn link_matches(
    state: LinkState,
    target: Seq<char>,
    name: Seq<char>,
    method: Argv0LinkMethod,
    windows: bool,
) -> bool {
    match method {
        Argv0LinkMethod::SoftLink => state.is_symlink && state.points_to_target,
        Argv0LinkMethod::HardLink => !state.is_symlink && state.same_bytes,
        Argv0LinkMethod::Script => !state.is_symlink && (match state.contents {
            Some(c) => c@ == script_contents(target, name, windows),
            None => false,
        }),
    }
}

/// Returns `true` when what stands at the place of a link already matches what
/// would be created there, so it can be left untouched.
pub fn argv0_link_matches(
    state: &LinkState,
    target: &str,
    name: &str,
    method: Argv0LinkMethod,
    windows: bool,
) -> (r: bool)
    ensures
        r == link_matches(*state, target@, name@, method, windows),
{
    match method {
        Argv0LinkMethod::SoftLink => state.is_symlink && state.points_to_target,
        Argv0LinkMethod::HardLink => !state.is_symlink && state.same_bytes,
        Argv0LinkMethod::Script => !state.is_symlink && (match &state.contents {
            Some(c) => text::str_eq(
                c.as_str(),
                argv0_script_contents(target, name, windows).as_str(),
            ),
            None => false,
        }),
    }
}

/// What is done to have a link.
#[derive(Clone, Copy, Debug, PartialEq, Eq, Structural)]
pub enum LinkPlan {
    /// Nothing: it is there.
    Keep,
    /// Remove what is there and create the link.
    Replace,
    /// Create the link.
    Create,
}

/// What is done to have a link, given what stands at its place.
pub open spec fn planned(
    state: Option<LinkState>,
    target: Seq<char>,
    name: Seq<char>,
    method: Argv0LinkMethod,
    windows: bool,
) -> LinkPlan {
    match state {
        None => LinkPlan::Create,
        Some(s) => if link_matches(s, target, name, method, windows) {
            LinkPlan::Keep
        } else {
            LinkPlan::Replace
        },
    }
}

/// What is done to have a link, given what stands at its place.
pub fn plan_link(
    state: &Option<LinkState>,
    target: &str,
    name: &str,
    method: Argv0LinkMethod,
    windows: bool,
) -> (r: LinkPlan)
    ensures
        r == planned(*state, target@, name@, method, windows),
{
    match state {
        None => LinkPlan::Create,
        Some(s) => {
            if argv0_link_matches(s, target, name, method, windows) {
                LinkPlan::Keep
            } else {
                LinkPlan::Replace
            }
        },
    }
}

/// The message for a link under a name that is not registered.
pub fn unregistered_link_message(name: &str) -> (r: String)
    ensures
        r@ == text::debug_quoted(name@) + " is not a registered argv0 name"@,
{
    let mut m = text::debug_text(name);
    m.append(" is not a registered argv0 name");
    m
}

/// A shim script that was just written is kept.
pub proof fn law_written_script_is_kept(target: Seq<char>, name: Seq<char>, windows: bool, c: String)
    requires
        c@ == script_contents(target, name, windows),
    ensures
        link_matches(
            LinkState {
                is_symlink: false,
                points_to_target: false,
                same_bytes: false,
                contents: Some(c),
            },
            target,
            name,
            Argv0LinkMethod::Script,
            windows,
        ),
{
}

/// A program that is invoked under the name of an alias runs the canonical
/// program with the tokens of the alias, and then with its own arguments. One
/// with the name of a personality is handed off with its arguments.
pub proof fn law_route_is_taken(
    routes: Map<Seq<char>, RouteText>,
    known: Seq<Seq<char>>,
    canonical: Seq<char>,
    program: Seq<char>,
    rest: Seq<Seq<char>>,
    depth: nat,
)
    requires
        known.len() > 0,
        depth <= MAX_ARGV0_DEPTH,
        routes.dom().contains(args::basename_spec(program)),
        rest.len() > 0 ==> rest[0] != "argv0"@,
    ensures
        ({
            let out = resolved(routes, known, canonical, seq![program] + rest, depth);
            match routes[args::basename_spec(program)] {
                RouteText::Alias(tokens) => out matches OutcomeText::Proceed(all) && all[0]
                    == canonical && all.skip(1) == tokens + rest,
                RouteText::Personality(id) => out == OutcomeText::HandOff(id, rest),
            }
        }),
{
    let all = seq![program] + rest;
    assert(tail_from(all, 1) =~= rest);
    if rest.len() > 0 {
        assert(all[1] == rest[0]);
    }
    match routes[args::basename_spec(program)] {
        RouteText::Alias(tokens) => {
            assert((seq![canonical] + tokens + rest).skip(1) =~= tokens + rest);
        },
        RouteText::Personality(id) => {},
    }
}

/// Under a name that is no route the program runs as the canonical one, with
/// its arguments; asked for outright, such a name is refused.
pub proof fn law_unknown_names(
    routes: Map<Seq<char>, RouteText>,
    known: Seq<Seq<char>>,
    canonical: Seq<char>,
    program: Seq<char>,
    name: Seq<char>,
    rest: Seq<Seq<char>>,
    depth: nat,
)
    requires
        known.len() > 0,
        depth <= MAX_ARGV0_DEPTH,
        !routes.dom().contains(args::basename_spec(program)),
        !routes.dom().contains(args::basename_spec(name)),
        rest.len() > 0 ==> rest[0] != "argv0"@,
    ensures
        resolved(routes, known, canonical, seq![program] + rest, depth) == OutcomeText::Proceed(
            seq![canonical] + rest,
        ),
        resolved(
            routes,
            known,
            canonical,
            seq![program, "argv0"@, name] + rest,
            depth,
        ) is Refused,
        resolved(routes, known, canonical, seq![program, "argv0"@], depth) is Refused,
{
    let all = seq![program] + rest;
    assert(tail_from(all, 1) =~= rest);
    if rest.len() > 0 {
        assert(all[1] == rest[0]);
    }
}

/// Chained hand-offs come to an end.
pub proof fn law_dispatch_is_bounded(
    routes: Map<Seq<char>, RouteText>,
    known: Seq<Seq<char>>,
    canonical: Seq<char>,
    args: Seq<Seq<char>>,
    depth: nat,
)
    requires
        known.len() > 0,
        depth > MAX_ARGV0_DEPTH,
    ensures
        resolved(routes, known, canonical, args, depth) is Refused,
{
}

/// A link is created where nothing stands, kept where it is what would be
/// created, and else replaced. A link that points elsewhere, or is of another
/// kind, is never kept.
pub proof fn law_link_is_planned(
    s: LinkState,
    target: Seq<char>,
    name: Seq<char>,
    method: Argv0LinkMethod,
    windows: bool,
)
    ensures
        planned(None, target, name, method, windows) is Create,
        !(planned(Some(s), target, name, method, windows) is Create),
        method is SoftLink ==> (planned(Some(s), target, name, method, windows) is Keep
            <==> s.is_symlink && s.points_to_target),
        method is HardLink ==> (planned(Some(s), target, name, method, windows) is Keep
            <==> !s.is_symlink && s.same_bytes),
        method is Script && s.is_symlink ==> planned(Some(s), target, name, method, windows)
            is Replace,
        method is Script && s.contents is None ==> planned(Some(s), target, name, method, windows)
            is Replace,
{
}

/// A shim script runs its target under the name that it stands for.
pub proof fn law_script_runs_the_target(target: Seq<char>, name: Seq<char>, windows: bool)
    ensures
        text::contains_text(
            script_contents(target, name, windows),
            target + "\" argv0 "@ + name,
        ),
{
    let part = target + "\" argv0 "@ + name;
    if windows {
        text::lemma_part_occurs("@\""@, part, " %*\r\n"@);
        assert("@\""@ + part + " %*\r\n"@ =~= script_contents(target, name, windows));
    } else {
        text::lemma_part_occurs("#!/bin/sh\nexec \""@, part, " \"$@\"\n"@);
        assert("#!/bin/sh\nexec \""@ + part + " \"$@\"\n"@ =~= script_contents(
            target,
            name,
            windows,
        ));
    }
}

/// A link has the name that it stands for, on Windows with the extension of a
/// program, or of a batch file where it is a script.
pub proof fn law_link_file_name(name: Seq<char>, method: Argv0LinkMethod)
    ensures
        link_file_name(name, method, false) == name,
        !(method is Script) ==> link_file_name(name, method, true) == name + ".exe"@,
        method is Script ==> link_file_name(name, method, true) == name + ".cmd"@,
{
}

/// A valid name holds nothing that a path or a command line reads otherwise.
pub proof fn law_valid_names_are_plain(name: Seq<char>)
    requires
        is_valid_name(name),
    ensures
        !name.contains('/'),
        !name.contains('\\'),
        !name.contains('.'),
        !name.contains(' '),
        name.len() > 0,
{
    assert forall|c: char| name.contains(c) implies is_name_char(c) by {
        let i = choose|i: int| 0 <= i < name.len() && name[i] == c;
        assert(is_name_char(name[i]));
    }
}

} // verus!
