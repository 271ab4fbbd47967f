//! Reading a raw argument vector before the parser sees it.
use crate::command_tree::CommandNode;
use crate::command_tree;
use crate::ordmap::TextSet;
use crate::paths;
use crate::text;
use vstd::prelude::*;
use vstd::string::*;

verus! {

/// The argument has the form of a flag.
pub open spec fn is_flag(arg: Seq<char>) -> bool {
    arg.len() > 0 && arg[0] == '-'
}

/// Tells whether an argument has the form of a flag.
pub fn looks_like_flag(arg: &str) -> (r: bool)
    ensures
        r == is_flag(arg@),
{
    proof {
        reveal_strlit("-");
    }
    let r = text::starts_with(arg, "-");
    proof {
        if is_flag(arg@) {
            assert(arg@.subrange(0, 1) =~= "-"@);
        }
        if r {
            assert(arg@.subrange(0, 1)[0] == '-');
        }
    }
    r
}

/// A flag that is not known takes the next argument for its value, unless
/// that is a flag too.
pub open spec fn takes_next(args: Seq<Seq<char>>, i: int) -> bool {
    is_flag(args[i]) && i + 1 < args.len() && !is_flag(args[i + 1])
}

/// Tells whether an unknown flag takes the next argument for its value.
pub fn unknown_flag_consumes_value(arg: &str, next: Option<&String>) -> (r: bool)
    ensures
        r == (is_flag(arg@) && (next matches Some(value) && !is_flag(value@))),
{
    if !looks_like_flag(arg) {
        return false;
    }
    match next {
        Some(value) => !looks_like_flag(value.as_str()),
        None => false,
    }
}

/// The argument stands for the program `root_name`: its name, or a path whose
/// last component has that name, with or without an extension.
pub open spec fn names_program(arg: Seq<char>, root_name: Seq<char>) -> bool {
    arg == root_name || paths::file_stem_spec(arg) == Some(root_name)
}

/// Tells whether the argument stands for the program `root_name`.
pub fn arg_matches_root_name(arg: &str, root_name: &str) -> (r: bool)
    ensures
        r == names_program(arg@, root_name@),
{
    if text::str_eq(arg, root_name) {
        return true;
    }
    match paths::file_stem(arg) {
        Some(name) => text::str_eq(name.as_str(), root_name),
        None => false,
    }
}

/// The name under which a program was invoked: the last component of the path
/// without its extension; the path itself where it has none.
pub open spec fn basename_spec(arg: Seq<char>) -> Seq<char> {
    match paths::file_stem_spec(arg) {
        Some(name) => name,
        None => arg,
    }
}

/// Extracts the bare program name from the first argument.
pub fn program_basename(arg: &str) -> (r: String)
    ensures
        r@ == basename_spec(arg@),
{
    match paths::file_stem(arg) {
        Some(name) => name,
        None => arg.to_owned(),
    }
}

/// The place behind the program name, where the first argument is that.
pub open spec fn after_program(args: Seq<Seq<char>>, root_name: Seq<char>) -> int {
    if args.len() > 0 && names_program(args[0], root_name) {
        1
    } else {
        0
    }
}

/// The place behind the program name.
fn skip_program(args: &Vec<String>, root_name: &str) -> (i: usize)
    ensures
        i == after_program(text::texts(args@), root_name@),
        i <= args@.len(),
{
    if args.len() > 0 && arg_matches_root_name(args[0].as_str(), root_name) {
        1
    } else {
        0
    }
}

/// How many arguments stand from the place `i` on.
pub open spec fn left(args: Seq<Seq<char>>, i: int) -> nat {
    if i < args.len() {
        (args.len() - i) as nat
    } else {
        0
    }
}

/// What an argument is to the scan of positional arguments.
pub enum ArgRole {
    /// The separator behind which all is positional.
    Separator,
    /// A flag that stands for itself.
    Alone,
    /// A flag whose value is the next argument.
    WithValue,
    /// A positional argument.
    Positional,
}

/// The role of the argument at the place `i`.
pub open spec fn role(
    args: Seq<Seq<char>>,
    i: int,
    bool_flags: Set<Seq<char>>,
    value_flags: Set<Seq<char>>,
) -> ArgRole {
    let arg = args[i];
    if arg == "--"@ {
        ArgRole::Separator
    } else if arg.contains('=') || bool_flags.contains(arg) {
        ArgRole::Alone
    } else if value_flags.contains(arg) || takes_next(args, i) {
        ArgRole::WithValue
    } else if is_flag(arg) {
        ArgRole::Alone
    } else {
        ArgRole::Positional
    }
}

/// Finds the role of the argument at the place `i`.
fn find_role(args: &Vec<String>, i: usize, bool_flags: &TextSet, value_flags: &TextSet) -> (r:
    ArgRole)
    requires
        i < args.len(),
    ensures
        r == role(text::texts(args@), i as int, bool_flags@, value_flags@),
{
    let arg = args[i].as_str();
    let next = if i + 1 < args.len() {
        Some(&args[i + 1])
    } else {
        None
    };
    if text::str_eq(arg, "--") {
        ArgRole::Separator
    } else if text::contains_char(arg, '=') || bool_flags.contains(arg) {
        ArgRole::Alone
    } else if value_flags.contains(arg) || unknown_flag_consumes_value(arg, next) {
        ArgRole::WithValue
    } else if looks_like_flag(arg) {
        ArgRole::Alone
    } else {
        ArgRole::Positional
    }
}

/// The positional arguments from the place `i` on.
pub open spec fn positional_from(
    args: Seq<Seq<char>>,
    i: int,
    bool_flags: Set<Seq<char>>,
    value_flags: Set<Seq<char>>,
) -> Seq<Seq<char>>
    decreases left(args, i),
{
    if i < 0 || i >= args.len() {
        Seq::empty()
    } else {
        match role(args, i, bool_flags, value_flags) {
            ArgRole::Separator => args.skip(i + 1),
            ArgRole::Alone => positional_from(args, i + 1, bool_flags, value_flags),
            ArgRole::WithValue => positional_from(args, i + 2, bool_flags, value_flags),
            ArgRole::Positional => seq![args[i]] + positional_from(
                args,
                i + 1,
                bool_flags,
                value_flags,
            ),
        }
    }
}

/// The positional arguments behind the program name: everything that is
/// neither a flag nor the value of one.
pub fn positional_command_tokens(
    args: &Vec<String>,
    root_name: &str,
    bool_flags: &TextSet,
    value_flags: &TextSet,
) -> (r: Vec<String>)
    ensures
        text::texts(r@) == positional_from(
            text::texts(args@),
            after_program(text::texts(args@), root_name@),
            bool_flags@,
            value_flags@,
        ),
{
    let ghost all = text::texts(args@);
    let mut tokens: Vec<String> = Vec::new();
    let mut i: usize = skip_program(args, root_name);
    let ghost start = i as int;
    assert(text::texts(tokens@) + positional_from(all, start, bool_flags@, value_flags@)
        =~= positional_from(all, start, bool_flags@, value_flags@));
    while i < args.len()
        invariant
            all == text::texts(args@),
            start == after_program(all, root_name@),
            text::texts(tokens@) + positional_from(all, i as int, bool_flags@, value_flags@)
                == positional_from(all, start, bool_flags@, value_flags@),
        decreases args@.len() - i,
    {
        match find_role(args, i, bool_flags, value_flags) {
            ArgRole::Separator => {
                return append_rest(args, i + 1, tokens);
            },
            ArgRole::Alone => {
                i = i + 1;
            },
            ArgRole::WithValue => {
                if i + 1 < args.len() {
                    i = i + 2;
                } else {
                    assert(positional_from(all, i + 2, bool_flags@, value_flags@).len() == 0);
                    assert(text::texts(tokens@) + Seq::<Seq<char>>::empty() =~= text::texts(
                        tokens@,
                    ));
                    return tokens;
                }
            },
            ArgRole::Positional => {
                let ghost before = text::texts(tokens@);
                tokens.push(args[i].clone());
                assert(text::texts(tokens@) =~= before.push(all[i as int]));
                assert(before + (seq![all[i as int]] + positional_from(
                    all,
                    i + 1,
                    bool_flags@,
                    value_flags@,
                )) =~= before.push(all[i as int]) + positional_from(
                    all,
                    i + 1,
                    bool_flags@,
                    value_flags@,
                ));
                i = i + 1;
            },
        }
    }
    assert(text::texts(tokens@) + Seq::<Seq<char>>::empty() =~= text::texts(tokens@));
    tokens
}

/// Adds the arguments from the place `from` on to `tokens`.
fn append_rest(args: &Vec<String>, from: usize, tokens: Vec<String>) -> (r: Vec<String>)
    requires
        from <= args@.len(),
    ensures
        text::texts(r@) == text::texts(tokens@) + text::texts(args@).skip(from as int),
{
    let ghost all = text::texts(args@);
    let mut r = tokens;
    let mut i: usize = from;
    while i < args.len()
        invariant
            all == text::texts(args@),
            from <= i <= args@.len(),
            text::texts(r@) == text::texts(tokens@) + all.subrange(from as int, i as int),
        decreases args@.len() - i,
    {
        let ghost before = text::texts(r@);
        r.push(args[i].clone());
        i = i + 1;
        assert(text::texts(r@) =~= before.push(all[i - 1]));
        assert(all.subrange(from as int, i as int) =~= all.subrange(from as int, i - 1).push(
            all[i - 1],
        ));
    }
    assert(all.subrange(from as int, args@.len() as int) =~= all.skip(from as int));
    r
}

/// Whether a root version flag stands from the place `i` on, before the first
/// positional argument.
pub open spec fn version_from(
    args: Seq<Seq<char>>,
    i: int,
    bool_flags: Set<Seq<char>>,
    value_flags: Set<Seq<char>>,
) -> bool
    decreases left(args, i),
{
    if i < 0 || i >= args.len() {
        false
    } else if args[i] == "--version"@ || args[i] == "-v"@ {
        true
    } else {
        match role(args, i, bool_flags, value_flags) {
            ArgRole::Separator => false,
            ArgRole::Alone => version_from(args, i + 1, bool_flags, value_flags),
            ArgRole::WithValue => version_from(args, i + 2, bool_flags, value_flags),
            ArgRole::Positional => false,
        }
    }
}

/// Tells whether the invocation asks for the version of the application.
pub fn has_root_version_flag(
    args: &Vec<String>,
    root_name: &str,
    bool_flags: &TextSet,
    value_flags: &TextSet,
) -> (r: bool)
    ensures
        r == version_from(
            text::texts(args@),
            after_program(text::texts(args@), root_name@),
            bool_flags@,
            value_flags@,
        ),
{
    let ghost all = text::texts(args@);
    let mut i: usize = skip_program(args, root_name);
    let ghost start = i as int;
    while i < args.len()
        invariant
            all == text::texts(args@),
            start == after_program(all, root_name@),
            version_from(all, i as int, bool_flags@, value_flags@) == version_from(
                all,
                start,
                bool_flags@,
                value_flags@,
            ),
        decreases args@.len() - i,
    {
        if text::str_eq(args[i].as_str(), "--version") || text::str_eq(args[i].as_str(), "-v") {
            return true;
        }
        match find_role(args, i, bool_flags, value_flags) {
            ArgRole::Separator => {
                return false;
            },
            ArgRole::Alone => {
                i = i + 1;
            },
            ArgRole::WithValue => {
                if i + 1 < args.len() {
                    i = i + 2;
                } else {
                    assert(!version_from(all, i + 2, bool_flags@, value_flags@));
                    return false;
                }
            },
            ArgRole::Positional => {
                return false;
            },
        }
    }
    false
}

/// The tokens of `rest` with those of `queue` in their place, as many as there
/// are; what is left of the queue comes behind.
pub open spec fn fill(rest: Seq<Seq<char>>, queue: Seq<Seq<char>>) -> Seq<Seq<char>> {
    Seq::new(
        if rest.len() < queue.len() {
            queue.len()
        } else {
            rest.len()
        },
        |i: int|
            if i < queue.len() {
                queue[i]
            } else {
                rest[i]
            },
    )
}

/// The arguments from the place `i` on with the tokens of `queue` in place of
/// the positional ones, slot by slot. Every flag and every value keeps its
/// place; tokens without a slot come at the end.
pub open spec fn rewrite_from(
    args: Seq<Seq<char>>,
    i: int,
    bool_flags: Set<Seq<char>>,
    value_flags: Set<Seq<char>>,
    queue: Seq<Seq<char>>,
) -> Seq<Seq<char>>
    decreases left(args, i),
{
    if i < 0 || i >= args.len() {
        queue
    } else {
        match role(args, i, bool_flags, value_flags) {
            ArgRole::Separator => seq![args[i]] + fill(args.skip(i + 1), queue),
            ArgRole::Alone => seq![args[i]] + rewrite_from(
                args,
                i + 1,
                bool_flags,
                value_flags,
                queue,
            ),
            ArgRole::WithValue => if i + 1 < args.len() {
                seq![args[i], args[i + 1]] + rewrite_from(
                    args,
                    i + 2,
                    bool_flags,
                    value_flags,
                    queue,
                )
            } else {
                seq![args[i]] + queue
            },
            ArgRole::Positional => if queue.len() > 0 {
                seq![queue[0]] + rewrite_from(
                    args,
                    i + 1,
                    bool_flags,
                    value_flags,
                    queue.skip(1),
                )
            } else {
                seq![args[i]] + rewrite_from(args, i + 1, bool_flags, value_flags, queue)
            },
        }
    }
}

/// Rewrites `<group> help [sub...]` into `help <group> [sub...]`: the
/// positional arguments become `help` and the given parts, everything else
/// stays where it is.
pub fn rewrite_group_help_args(
    args: &Vec<String>,
    root_name: &str,
    bool_flags: &TextSet,
    value_flags: &TextSet,
    parts: &Vec<String>,
) -> (r: Vec<String>)
    ensures
        ({
            let all = text::texts(args@);
            let start = after_program(all, root_name@);
            text::texts(r@) == all.take(start) + rewrite_from(
                all,
                start,
                bool_flags@,
                value_flags@,
                seq!["help"@] + text::texts(parts@),
            )
        }),
{
    let ghost all = text::texts(args@);
    let mut queue: Vec<String> = Vec::new();
    queue.push("help".to_owned());
    assert(text::texts(queue@) =~= seq!["help"@]);
    let queue = append_rest(parts, 0, queue);
    let ghost whole = text::texts(queue@);
    assert(text::texts(parts@).skip(0) =~= text::texts(parts@));
    let mut out: Vec<String> = Vec::new();
    let mut i: usize = skip_program(args, root_name);
    let ghost start = i as int;
    if i == 1 {
        out.push(args[0].clone());
    }
    assert(text::texts(out@) =~= all.take(start));
    let mut used: usize = 0;
    assert(whole.skip(0) =~= whole);
    let ghost goal = all.take(start) + rewrite_from(all, start, bool_flags@, value_flags@, whole);
    while i < args.len()
        invariant
            all == text::texts(args@),
            whole == text::texts(queue@),
            start == after_program(all, root_name@),
            goal == all.take(start) + rewrite_from(
                all,
                start,
                bool_flags@,
                value_flags@,
                seq!["help"@] + text::texts(parts@),
            ),
            used <= queue@.len(),
            text::texts(out@) + rewrite_from(
                all,
                i as int,
                bool_flags@,
                value_flags@,
                whole.skip(used as int),
            ) == goal,
        decreases args@.len() - i,
    {
        let ghost before = text::texts(out@);
        let ghost rest = whole.skip(used as int);
        match find_role(args, i, bool_flags, value_flags) {
            ArgRole::Separator => {
                out.push(args[i].clone());
                assert(text::texts(out@) =~= before.push(all[i as int]));
                let tail = fill_rest(args, i + 1, &queue, used);
                let r = append_rest(&tail, 0, out);
                assert(text::texts(tail@).skip(0) =~= text::texts(tail@));
                assert(before + (seq![all[i as int]] + fill(all.skip(i + 1), rest)) =~= before.push(
                    all[i as int],
                ) + fill(all.skip(i + 1), rest));
                return r;
            },
            ArgRole::Alone => {
                out.push(args[i].clone());
                assert(text::texts(out@) =~= before.push(all[i as int]));
                assert(before + (seq![all[i as int]] + rewrite_from(
                    all,
                    i + 1,
                    bool_flags@,
                    value_flags@,
                    rest,
                )) =~= before.push(all[i as int]) + rewrite_from(
                    all,
                    i + 1,
                    bool_flags@,
                    value_flags@,
                    rest,
                ));
                i = i + 1;
            },
            ArgRole::WithValue => {
                out.push(args[i].clone());
                assert(text::texts(out@) =~= before.push(all[i as int]));
                if i + 1 < args.len() {
                    out.push(args[i + 1].clone());
                    assert(text::texts(out@) =~= before.push(all[i as int]).push(all[i + 1]));
                    assert(before + (seq![all[i as int], all[i + 1]] + rewrite_from(
                        all,
                        i + 2,
                        bool_flags@,
                        value_flags@,
                        rest,
                    )) =~= before.push(all[i as int]).push(all[i + 1]) + rewrite_from(
                        all,
                        i + 2,
                        bool_flags@,
                        value_flags@,
                        rest,
                    ));
                    i = i + 2;
                } else {
                    let r = append_rest(&queue, used, out);
                    assert(before + (seq![all[i as int]] + rest) =~= before.push(all[i as int])
                        + rest);
                    return r;
                }
            },
            ArgRole::Positional => {
                if used < queue.len() {
                    out.push(queue[used].clone());
                    assert(rest.skip(1) =~= whole.skip(used + 1));
                    assert(text::texts(out@) =~= before.push(rest[0]));
                    assert(before + (seq![rest[0]] + rewrite_from(
                        all,
                        i + 1,
                        bool_flags@,
                        value_flags@,
                        rest.skip(1),
                    )) =~= before.push(rest[0]) + rewrite_from(
                        all,
                        i + 1,
                        bool_flags@,
                        value_flags@,
                        rest.skip(1),
                    ));
                    used = used + 1;
                } else {
                    out.push(args[i].clone());
                    assert(text::texts(out@) =~= before.push(all[i as int]));
                    assert(before + (seq![all[i as int]] + rewrite_from(
                        all,
                        i + 1,
                        bool_flags@,
                        value_flags@,
                        rest,
                    )) =~= before.push(all[i as int]) + rewrite_from(
                        all,
                        i + 1,
                        bool_flags@,
                        value_flags@,
                        rest,
                    ));
                }
                i = i + 1;
            },
        }
    }
    append_rest(&queue, used, out)
}

/// Fills the slots from the place `from` on with what is left of the queue.
fn fill_rest(args: &Vec<String>, from: usize, queue: &Vec<String>, used: usize) -> (r: Vec<String>)
    requires
        from <= args@.len(),
        used <= queue@.len(),
    ensures
        text::texts(r@) == fill(
            text::texts(args@).skip(from as int),
            text::texts(queue@).skip(used as int),
        ),
{
    let ghost rest = text::texts(args@).skip(from as int);
    let ghost tokens = text::texts(queue@).skip(used as int);
    let mut r: Vec<String> = Vec::new();
    let mut i: usize = from;
    let mut j: usize = used;
    while i < args.len()
        invariant
            rest == text::texts(args@).skip(from as int),
            tokens == text::texts(queue@).skip(used as int),
            from <= i <= args@.len(),
            used <= j <= queue@.len(),
            r@.len() == i - from,
            j - used == (if i - from < tokens.len() {
                i - from
            } else {
                tokens.len() as int
            }),
            forall|k: int| 0 <= k < r@.len() ==> (#[trigger] r@[k])@ == fill(rest, tokens)[k],
        decreases args@.len() - i,
    {
        if j < queue.len() {
            r.push(queue[j].clone());
            j = j + 1;
        } else {
            r.push(args[i].clone());
        }
        i = i + 1;
    }
    while j < queue.len()
        invariant
            rest == text::texts(args@).skip(from as int),
            tokens == text::texts(queue@).skip(used as int),
            i == args@.len(),
            used <= j <= queue@.len(),
            from <= i,
            r@.len() == (if j - used < rest.len() {
                rest.len() as int
            } else {
                j - used
            }),
            j < queue@.len() ==> r@.len() == j - used,
            forall|k: int| 0 <= k < r@.len() ==> (#[trigger] r@[k])@ == fill(rest, tokens)[k],
        decreases queue@.len() - j,
    {
        r.push(queue[j].clone());
        j = j + 1;
    }
    assert(text::texts(r@) =~= fill(rest, tokens));
    r
}

/// A token that the scan takes for a positional argument wherever it stands.
pub open spec fn is_plain(
    token: Seq<char>,
    bool_flags: Set<Seq<char>>,
    value_flags: Set<Seq<char>>,
) -> bool {
    !is_flag(token) && !token.contains('=') && !bool_flags.contains(token)
        && !value_flags.contains(token)
}

/// What stands before a place does not matter to the scan from there on.
proof fn lemma_positional_shift(
    front: Seq<Seq<char>>,
    args: Seq<Seq<char>>,
    j: int,
    bool_flags: Set<Seq<char>>,
    value_flags: Set<Seq<char>>,
)
    requires
        0 <= j,
    ensures
        positional_from(front + args, front.len() + j, bool_flags, value_flags) == positional_from(
            args,
            j,
            bool_flags,
            value_flags,
        ),
    decreases left(args, j),
{
    let all = front + args;
    let at = front.len() + j;
    if j < args.len() {
        assert(all[at] == args[j]);
        if j + 1 < args.len() {
            assert(all[at + 1] == args[j + 1]);
        }
        assert(role(all, at, bool_flags, value_flags) == role(args, j, bool_flags, value_flags));
        assert(all.skip(at + 1) =~= args.skip(j + 1));
        lemma_positional_shift(front, args, j + 1, bool_flags, value_flags);
        lemma_positional_shift(front, args, j + 2, bool_flags, value_flags);
    }
}

/// The step of the proof that a rewritten vector has the queue for its
/// positional arguments.
proof fn lemma_rewrite(
    args: Seq<Seq<char>>,
    i: int,
    bool_flags: Set<Seq<char>>,
    value_flags: Set<Seq<char>>,
    queue: Seq<Seq<char>>,
)
    requires
        0 <= i,
        positional_from(args, i, bool_flags, value_flags).len() == queue.len(),
        forall|k: int|
            0 <= k < queue.len() ==> is_plain(#[trigger] queue[k], bool_flags, value_flags),
    ensures
        ({
            let out = rewrite_from(args, i, bool_flags, value_flags, queue);
            &&& out.len() == left(args, i)
            &&& out.len() > 0 ==> is_flag(out[0]) == is_flag(args[i])
            &&& positional_from(out, 0, bool_flags, value_flags) == queue
        }),
    decreases left(args, i),
{
    reveal_strlit("--");
    let out = rewrite_from(args, i, bool_flags, value_flags, queue);
    if i < args.len() {
        match role(args, i, bool_flags, value_flags) {
            ArgRole::Separator => {
                let tail = fill(args.skip(i + 1), queue);
                assert(tail =~= queue);
                assert(out.skip(1) =~= queue);
                assert(role(out, 0, bool_flags, value_flags) is Separator);
            },
            ArgRole::Alone => {
                lemma_rewrite(args, i + 1, bool_flags, value_flags, queue);
                let tail = rewrite_from(args, i + 1, bool_flags, value_flags, queue);
                assert(out =~= seq![args[i]] + tail);
                if tail.len() > 0 {
                    assert(out[1] == tail[0]);
                }
                assert(role(out, 0, bool_flags, value_flags) is Alone);
                lemma_positional_shift(seq![args[i]], tail, 0, bool_flags, value_flags);
            },
            ArgRole::WithValue => {
                if i + 1 < args.len() {
                    lemma_rewrite(args, i + 2, bool_flags, value_flags, queue);
                    let tail = rewrite_from(args, i + 2, bool_flags, value_flags, queue);
                    assert(out =~= seq![args[i], args[i + 1]] + tail);
                    assert(role(out, 0, bool_flags, value_flags) is WithValue);
                    lemma_positional_shift(
                        seq![args[i], args[i + 1]],
                        tail,
                        0,
                        bool_flags,
                        value_flags,
                    );
                } else {
                    assert(positional_from(args, i + 2, bool_flags, value_flags).len() == 0);
                    assert(queue =~= Seq::empty());
                    assert(out =~= seq![args[i]]);
                    assert(role(out, 0, bool_flags, value_flags) is WithValue);
                    assert(positional_from(out, 2, bool_flags, value_flags).len() == 0);
                }
            },
            ArgRole::Positional => {
                assert(queue.len() > 0);
                assert(is_plain(queue[0], bool_flags, value_flags));
                let rest = queue.skip(1);
                assert forall|k: int| 0 <= k < rest.len() implies is_plain(
                    #[trigger] rest[k],
                    bool_flags,
                    value_flags,
                ) by {
                    assert(rest[k] == queue[k + 1]);
                }
                lemma_rewrite(args, i + 1, bool_flags, value_flags, rest);
                let tail = rewrite_from(args, i + 1, bool_flags, value_flags, rest);
                assert(out =~= seq![queue[0]] + tail);
                assert(queue[0] != "--"@);
                assert(role(out, 0, bool_flags, value_flags) is Positional);
                lemma_positional_shift(seq![queue[0]], tail, 0, bool_flags, value_flags);
                assert(seq![queue[0]] + rest =~= queue);
            },
        }
    } else {
        assert(queue =~= Seq::empty());
    }
}

/// Rewriting keeps the number of arguments and puts exactly the given tokens
/// into the positional slots, when there is a slot for each and none of them
/// can be taken for a flag.
pub proof fn law_rewrite_fills_positional_slots(
    args: Seq<Seq<char>>,
    start: int,
    bool_flags: Set<Seq<char>>,
    value_flags: Set<Seq<char>>,
    queue: Seq<Seq<char>>,
)
    requires
        0 <= start <= args.len(),
        positional_from(args, start, bool_flags, value_flags).len() == queue.len(),
        forall|k: int|
            0 <= k < queue.len() ==> is_plain(#[trigger] queue[k], bool_flags, value_flags),
    ensures
        rewrite_from(args, start, bool_flags, value_flags, queue).len() == args.len() - start,
        positional_from(
            rewrite_from(args, start, bool_flags, value_flags, queue),
            0,
            bool_flags,
            value_flags,
        ) == queue,
{
    lemma_rewrite(args, start, bool_flags, value_flags, queue);
}

/// Rewriting leaves every flag before a `--` in its place.
pub proof fn law_rewrite_keeps_flags(
    args: Seq<Seq<char>>,
    start: int,
    bool_flags: Set<Seq<char>>,
    value_flags: Set<Seq<char>>,
    queue: Seq<Seq<char>>,
    k: int,
)
    requires
        0 <= start <= k < args.len(),
        is_flag(args[k]),
        forall|j: int| start <= j <= k ==> #[trigger] args[j] != "--"@,
    ensures
        ({
            let out = rewrite_from(args, start, bool_flags, value_flags, queue);
            k - start < out.len() && out[k - start] == args[k]
        }),
    decreases left(args, start),
{
    let out = rewrite_from(args, start, bool_flags, value_flags, queue);
    assert(args[start] != "--"@);
    match role(args, start, bool_flags, value_flags) {
        ArgRole::Separator => {},
        ArgRole::Alone => {
            if k > start {
                law_rewrite_keeps_flags(args, start + 1, bool_flags, value_flags, queue, k);
                assert(out[k - start] == rewrite_from(
                    args,
                    start + 1,
                    bool_flags,
                    value_flags,
                    queue,
                )[k - start - 1]);
            }
        },
        ArgRole::WithValue => {
            if k > start + 1 {
                law_rewrite_keeps_flags(args, start + 2, bool_flags, value_flags, queue, k);
                assert(out[k - start] == rewrite_from(
                    args,
                    start + 2,
                    bool_flags,
                    value_flags,
                    queue,
                )[k - start - 2]);
            }
        },
        ArgRole::Positional => {
            let rest = if queue.len() > 0 {
                queue.skip(1)
            } else {
                queue
            };
            law_rewrite_keeps_flags(args, start + 1, bool_flags, value_flags, rest, k);
            assert(out[k - start] == rewrite_from(
                args,
                start + 1,
                bool_flags,
                value_flags,
                rest,
            )[k - start - 1]);
        },
    }
}

/// The place of the first `token` in the list from `i` on, or the end.
pub open spec fn first_place(list: Seq<Seq<char>>, token: Seq<char>, i: int) -> int
    decreases list.len() - i,
{
    if i < 0 || i >= list.len() || list[i] == token {
        i
    } else {
        first_place(list, token, i + 1)
    }
}

/// Finds the first `token` in the list.
pub fn find_token(list: &Vec<String>, token: &str) -> (r: Option<usize>)
    ensures
        ({
            let place = first_place(text::texts(list@), token@, 0);
            match r {
                Some(i) => i == place && i < list@.len(),
                None => place == list@.len(),
            }
        }),
{
    let mut i: usize = 0;
    while i < list.len()
        invariant
            i <= list@.len(),
            first_place(text::texts(list@), token@, 0) == first_place(
                text::texts(list@),
                token@,
                i as int,
            ),
        decreases list@.len() - i,
    {
        if text::str_eq(list[i].as_str(), token) {
            return Some(i);
        }
        i = i + 1;
    }
    None
}

/// The command path whose help `<group> help [sub...]` asks for: none unless
/// the names before `help` lead to a group that has no `help` of its own and
/// `help` is one of the `keywords` leading positional arguments, not the first.
pub open spec fn help_target(
    root: CommandNode,
    positionals: Seq<Seq<char>>,
    keywords: int,
) -> Option<Seq<Seq<char>>> {
    let at = first_place(positionals, "help"@, 0);
    if at >= positionals.len() || at == 0 || at >= keywords {
        None
    } else {
        match command_tree::walk(root, positionals.take(at)) {
            None => None,
            Some((group, _)) => if group.subcommands@.len() == 0 || command_tree::find_sub(
                group,
                "help"@,
            ) is Some {
                None
            } else {
                Some(positionals.take(at) + positionals.skip(at + 1))
            },
        }
    }
}

/// Detects `<group> help [sub...]` and returns the command path whose help is
/// asked for.
pub fn group_help_target_parts(
    root: &CommandNode,
    positionals: &Vec<String>,
    command_keyword_count: usize,
) -> (r: Option<Vec<String>>)
    ensures
        match r {
            Some(parts) => help_target(
                *root,
                text::texts(positionals@),
                command_keyword_count as int,
            ) == Some(text::texts(parts@)),
            None => help_target(
                *root,
                text::texts(positionals@),
                command_keyword_count as int,
            ) is None,
        },
{
    let ghost all = text::texts(positionals@);
    let at: usize = match find_token(positionals, "help") {
        Some(at) => at,
        None => {
            return None;
        },
    };
    if at == 0 || at >= command_keyword_count {
        return None;
    }
    let mut prefix: Vec<String> = Vec::new();
    let mut i: usize = 0;
    while i < at
        invariant
            all == text::texts(positionals@),
            i <= at < positionals@.len(),
            text::texts(prefix@) == all.take(i as int),
        decreases at - i,
    {
        let ghost before = text::texts(prefix@);
        prefix.push(positionals[i].clone());
        i = i + 1;
        assert(text::texts(prefix@) =~= before.push(all[i - 1]));
        assert(all.take(i as int) =~= all.take(i - 1).push(all[i - 1]));
    }
    match command_tree::walk_parts(root, &prefix) {
        None => None,
        Some((group, _)) => {
            if !group.is_group() {
                return None;
            }
            match group.find_subcommand("help") {
                Some(_) => None,
                None => Some(append_rest(positionals, at + 1, prefix)),
            }
        },
    }
}

/// The message for positional arguments that leave the command tree at a
/// group: the name that leads nowhere, and the command path up to it.
pub open spec fn unknown_message(root: CommandNode, positionals: Seq<Seq<char>>) -> Option<
    Seq<char>,
> {
    let n = command_tree::longest_walk(root, positionals, positionals.len());
    if n == positionals.len() {
        None
    } else {
        match command_tree::walk(root, positionals.take(n as int)) {
            None => None,
            Some((at, names)) => if at.subcommands@.len() == 0 {
                None
            } else {
                Some(
                    "unknown command "@ + text::debug_quoted(positionals[n as int]) + " for "@
                        + text::debug_quoted(
                        text::join_spec(seq![root.name@] + names, " "@),
                    ),
                )
            },
        }
    }
}

/// The message for an unknown command below a group.
pub fn unknown_group_command_message(root: &CommandNode, positionals: &Vec<String>) -> (r: Option<
    String,
>)
    ensures
        match r {
            Some(message) => unknown_message(*root, text::texts(positionals@)) == Some(message@),
            None => unknown_message(*root, text::texts(positionals@)) is None,
        },
{
    let ghost all = text::texts(positionals@);
    let mut current = root;
    let mut path: Vec<String> = Vec::new();
    path.push(root.name.clone());
    let mut i: usize = 0;
    assert(text::texts(path@) =~= seq![root.name@] + Seq::<Seq<char>>::empty());
    while i < positionals.len()
        invariant
            all == text::texts(positionals@),
            i <= positionals@.len(),
            command_tree::walk(*root, all.take(i as int)) matches Some((at, names)) && at
                == *current && text::texts(path@) == seq![root.name@] + names,
        decreases positionals@.len() - i,
    {
        assert(all.take(i + 1).drop_last() =~= all.take(i as int));
        assert(all.take(i + 1).last() == positionals@[i as int]@);
        match current.find_subcommand(positionals[i].as_str()) {
            Some(next) => {
                let ghost before = text::texts(path@);
                let ghost reached = command_tree::walk(*root, all.take(i as int))->0;
                let ghost names = reached.1;
                path.push(next.name.clone());
                assert(text::texts(path@) =~= before.push(next.name@));
                assert((seq![root.name@] + names).push(next.name@) =~= seq![root.name@]
                    + names.push(next.name@));
                current = next;
            },
            None => {
                proof {
                    command_tree::lemma_longest_walk(*root, all, all.len(), i as nat);
                }
                if current.is_group() {
                    let mut message = "unknown command ".to_owned();
                    message.append(text::debug_text(positionals[i].as_str()).as_str());
                    message.append(" for ");
                    message.append(text::debug_text(text::join(&path, " ").as_str()).as_str());
                    return Some(message);
                }
                return None;
            },
        }
        i = i + 1;
    }
    proof {
        command_tree::lemma_longest_walk(*root, all, all.len(), i as nat);
    }
    None
}

/// A command path that leads to a command is never reported as unknown.
pub proof fn law_known_path_is_not_unknown(root: CommandNode, positionals: Seq<Seq<char>>)
    requires
        command_tree::walk(root, positionals) is Some,
    ensures
        unknown_message(root, positionals) is None,
{
    assert(positionals.take(positionals.len() as int) =~= positionals);
}

/// The value that stands for an optional boolean flag without one.
pub open spec fn bool_default(arg: Seq<char>) -> Option<Seq<char>> {
    if arg == "--dry-run"@ || arg == "--schema"@ {
        Some("true"@)
    } else {
        None
    }
}

/// The value that stands for an optional text flag without one.
pub open spec fn text_default(arg: Seq<char>) -> Option<Seq<char>> {
    if arg == "--verbose"@ {
        Some("all"@)
    } else if arg == "--debug"@ {
        Some("*"@)
    } else {
        None
    }
}

/// The argument behind an optional text flag is not its value: at the root,
/// where it is a flag, or where it names a subcommand.
pub open spec fn not_a_value(
    root: CommandNode,
    current: CommandNode,
    next: Seq<char>,
) -> bool {
    current.name@ == root.name@ || is_flag(next) || command_tree::find_sub(current, next) is Some
}

/// The arguments from the place `i` on with the optional global flags spelled
/// out, where the command reached so far is `current`.
pub open spec fn normalize_from(
    root: CommandNode,
    args: Seq<Seq<char>>,
    i: int,
    current: CommandNode,
) -> Seq<Seq<char>>
    decreases left(args, i),
{
    if i < 0 || i >= args.len() {
        Seq::empty()
    } else {
        let arg = args[i];
        if i == 0 && names_program(arg, root.name@) {
            seq![arg] + normalize_from(root, args, i + 1, current)
        } else if bool_default(arg) is Some {
            seq![arg + "="@ + bool_default(arg)->0] + normalize_from(root, args, i + 1, current)
        } else if text_default(arg) is Some {
            if i + 1 >= args.len() || not_a_value(root, current, args[i + 1]) {
                seq![arg + "="@ + text_default(arg)->0] + normalize_from(
                    root,
                    args,
                    i + 1,
                    current,
                )
            } else {
                seq![arg, args[i + 1]] + normalize_from(root, args, i + 2, current)
            }
        } else {
            let next = command_tree::find_sub(current, arg);
            seq![arg] + normalize_from(
                root,
                args,
                i + 1,
                if !is_flag(arg) && next is Some {
                    next->0
                } else {
                    current
                },
            )
        }
    }
}

/// `flag=value`.
fn with_value(flag: &str, value: &str) -> (r: String)
    ensures
        r@ == flag@ + "="@ + value@,
{
    let mut r = flag.to_owned();
    r.append("=");
    r.append(value);
    r
}

/// Spells out the optional global flags: a flag that may stand without a value
/// gets its default where the next argument is not its value.
pub fn normalize_optional_global_flags_before_command(
    root: &CommandNode,
    args: &Vec<String>,
) -> (r: Vec<String>)
    ensures
        text::texts(r@) == normalize_from(*root, text::texts(args@), 0, *root),
{
    let ghost all = text::texts(args@);
    let ghost goal = normalize_from(*root, all, 0, *root);
    let mut normalized: Vec<String> = Vec::new();
    let mut i: usize = 0;
    let mut current = root;
    assert(text::texts(normalized@) + goal =~= goal);
    while i < args.len()
        invariant
            all == text::texts(args@),
            goal == normalize_from(*root, all, 0, *root),
            text::texts(normalized@) + normalize_from(*root, all, i as int, *current) == goal,
        decreases args@.len() - i,
    {
        let arg = args[i].as_str();
        let ghost before = text::texts(normalized@);
        let default = if text::str_eq(arg, "--verbose") {
            Some("all")
        } else if text::str_eq(arg, "--debug") {
            Some("*")
        } else {
            None
        };
        if i == 0 && arg_matches_root_name(arg, root.name.as_str()) {
            normalized.push(args[i].clone());
            assert(text::texts(normalized@) =~= before.push(arg@));
            assert(before + (seq![arg@] + normalize_from(*root, all, i + 1, *current))
                =~= before.push(arg@) + normalize_from(*root, all, i + 1, *current));
        } else if text::str_eq(arg, "--dry-run") || text::str_eq(arg, "--schema") {
            let spelled = with_value(arg, "true");
            normalized.push(spelled);
            assert(text::texts(normalized@) =~= before.push(spelled@));
            assert(before + (seq![spelled@] + normalize_from(*root, all, i + 1, *current))
                =~= before.push(spelled@) + normalize_from(*root, all, i + 1, *current));
        } else if let Some(value) = default {
            let keep = if i + 1 >= args.len() {
                false
            } else {
                let next = args[i + 1].as_str();
                let own = match current.find_subcommand(next) {
                    Some(_) => true,
                    None => false,
                };
                !(text::str_eq(current.name.as_str(), root.name.as_str()) || looks_like_flag(next)
                    || own)
            };
            if keep {
                normalized.push(args[i].clone());
                normalized.push(args[i + 1].clone());
                assert(text::texts(normalized@) =~= before.push(arg@).push(all[i + 1]));
                assert(before + (seq![arg@, all[i + 1]] + normalize_from(
                    *root,
                    all,
                    i + 2,
                    *current,
                )) =~= before.push(arg@).push(all[i + 1]) + normalize_from(
                    *root,
                    all,
                    i + 2,
                    *current,
                ));
                i = i + 1;
            } else {
                let spelled = with_value(arg, value);
                normalized.push(spelled);
                assert(text::texts(normalized@) =~= before.push(spelled@));
                assert(before + (seq![spelled@] + normalize_from(*root, all, i + 1, *current))
                    =~= before.push(spelled@) + normalize_from(*root, all, i + 1, *current));
            }
        } else {
            normalized.push(args[i].clone());
            assert(text::texts(normalized@) =~= before.push(arg@));
            if !looks_like_flag(arg) {
                if let Some(next) = current.find_subcommand(arg) {
                    current = next;
                }
            }
            assert(before + (seq![arg@] + normalize_from(*root, all, i + 1, *current))
                =~= before.push(arg@) + normalize_from(*root, all, i + 1, *current));
        }
        i = i + 1;
    }
    assert(text::texts(normalized@) + Seq::<Seq<char>>::empty() =~= text::texts(normalized@));
    normalized
}

/// The command names before the search flag, from the place `i` on.
pub open spec fn scope_from(args: Seq<Seq<char>>, i: int) -> Seq<Seq<char>>
    decreases left(args, i),
{
    if i < 0 || i >= args.len() {
        Seq::empty()
    } else if args[i] == "--search"@ || "--search="@.is_prefix_of(args[i]) {
        Seq::empty()
    } else if is_flag(args[i]) {
        if !args[i].contains('=') && i + 1 < args.len() && !is_flag(args[i + 1]) {
            scope_from(args, i + 2)
        } else {
            scope_from(args, i + 1)
        }
    } else {
        seq![args[i]] + scope_from(args, i + 1)
    }
}

/// The command names that stand before the search flag, without the program
/// name, flags and their values.
pub fn extract_search_scope_parts(args: &Vec<String>) -> (r: Vec<String>)
    ensures
        text::texts(r@) == scope_from(text::texts(args@), 1),
{
    let ghost all = text::texts(args@);
    let ghost goal = scope_from(all, 1);
    let mut parts: Vec<String> = Vec::new();
    let mut i: usize = 1;
    assert(text::texts(parts@) + goal =~= goal);
    while i < args.len()
        invariant
            all == text::texts(args@),
            goal == scope_from(all, 1),
            1 <= i,
            text::texts(parts@) + scope_from(all, i as int) == goal,
        decreases args@.len() - i,
    {
        let arg = args[i].as_str();
        let ghost before = text::texts(parts@);
        if text::str_eq(arg, "--search") || text::starts_with(arg, "--search=") {
            assert(before + Seq::<Seq<char>>::empty() =~= before);
            return parts;
        }
        if looks_like_flag(arg) {
            if !text::contains_char(arg, '=') && i + 1 < args.len() && !looks_like_flag(
                args[i + 1].as_str(),
            ) {
                i = i + 2;
            } else {
                i = i + 1;
            }
        } else {
            parts.push(args[i].clone());
            assert(text::texts(parts@) =~= before.push(arg@));
            assert(before + (seq![arg@] + scope_from(all, i + 1)) =~= before.push(arg@)
                + scope_from(all, i + 1));
            i = i + 1;
        }
    }
    assert(text::texts(parts@) + Seq::<Seq<char>>::empty() =~= text::texts(parts@));
    parts
}

/// The canonical path of the command that a search is limited to; empty where
/// the names lead nowhere.
pub fn search_scope(root: &CommandNode, args: &Vec<String>) -> (r: String)
    ensures
        r@ == match command_tree::canonical_spec(*root, scope_from(text::texts(args@), 1)) {
            Some(path) => path,
            None => Seq::empty(),
        },
{
    let parts = extract_search_scope_parts(args);
    match command_tree::canonical_path_from_parts(root, &parts) {
        Some(path) => path,
        None => String::new(),
    }
}

/// A scan from a place on is the scan of what stands there.
proof fn lemma_positional_behind(
    args: Seq<Seq<char>>,
    k: int,
    i: int,
    bool_flags: Set<Seq<char>>,
    value_flags: Set<Seq<char>>,
)
    requires
        0 <= k,
        0 <= i,
        k + i <= args.len() + 2,
        k <= args.len(),
    ensures
        positional_from(args, k + i, bool_flags, value_flags) == positional_from(
            args.skip(k),
            i,
            bool_flags,
            value_flags,
        ),
    decreases left(args, k + i),
{
    let rest = args.skip(k);
    if k + i < args.len() {
        assert(rest[i] == args[k + i]);
        if k + i + 1 < args.len() {
            assert(rest[i + 1] == args[k + i + 1]);
        }
        assert(rest.skip(i + 1) =~= args.skip(k + i + 1));
        lemma_positional_behind(args, k, i + 1, bool_flags, value_flags);
        if k + i + 2 <= args.len() + 2 {
            lemma_positional_behind(args, k, i + 2, bool_flags, value_flags);
        }
    }
}

/// Plain words are positional arguments, each of them.
pub proof fn law_plain_words_are_positional(
    args: Seq<Seq<char>>,
    bool_flags: Set<Seq<char>>,
    value_flags: Set<Seq<char>>,
)
    requires
        forall|i: int|
            0 <= i < args.len() ==> is_plain(#[trigger] args[i], bool_flags, value_flags),
    ensures
        positional_from(args, 0, bool_flags, value_flags) == args,
    decreases args.len(),
{
    reveal_strlit("--");
    if args.len() > 0 {
        let rest = args.skip(1);
        assert(is_plain(args[0], bool_flags, value_flags));
        assert(args[0] != "--"@) by {
            assert("--"@[0] == '-');
        }
        assert forall|i: int| 0 <= i < rest.len() implies is_plain(
            #[trigger] rest[i],
            bool_flags,
            value_flags,
        ) by {
            assert(rest[i] == args[i + 1]);
        }
        law_plain_words_are_positional(rest, bool_flags, value_flags);
        lemma_positional_behind(args, 1, 0, bool_flags, value_flags);
        assert(seq![args[0]] + rest =~= args);
    } else {
        assert(args =~= Seq::empty());
    }
}

/// A flag is no positional argument, nor is the value of one: a known flag with
/// a value takes the next argument, a known flag without one and one that is
/// written with its value take none. Behind `--` everything is positional.
pub proof fn law_flags_are_not_positional(
    flag: Seq<char>,
    value: Seq<char>,
    rest: Seq<Seq<char>>,
    bool_flags: Set<Seq<char>>,
    value_flags: Set<Seq<char>>,
)
    requires
        flag != "--"@,
    ensures
        !flag.contains('=') && !bool_flags.contains(flag) && value_flags.contains(flag)
            ==> positional_from(seq![flag, value] + rest, 0, bool_flags, value_flags)
            == positional_from(rest, 0, bool_flags, value_flags),
        bool_flags.contains(flag) || flag.contains('=') ==> positional_from(
            seq![flag] + rest,
            0,
            bool_flags,
            value_flags,
        ) == positional_from(rest, 0, bool_flags, value_flags),
        positional_from(seq!["--"@] + rest, 0, bool_flags, value_flags) == rest,
{
    let two = seq![flag, value] + rest;
    let one = seq![flag] + rest;
    let sep = seq!["--"@] + rest;
    assert(two[0] == flag && one[0] == flag && sep[0] == "--"@);
    assert(two.skip(2) =~= rest);
    assert(one.skip(1) =~= rest);
    assert(sep.skip(1) =~= rest);
    lemma_positional_behind(two, 2, 0, bool_flags, value_flags);
    lemma_positional_behind(one, 1, 0, bool_flags, value_flags);
}

/// An unknown flag takes the next argument for its value, unless that is a flag
/// itself.
pub proof fn law_unknown_flags_take_a_value(
    flag: Seq<char>,
    next: Seq<char>,
    rest: Seq<Seq<char>>,
    bool_flags: Set<Seq<char>>,
    value_flags: Set<Seq<char>>,
)
    requires
        flag.len() > 0,
        flag[0] == '-',
        flag != "--"@,
        !flag.contains('='),
        !bool_flags.contains(flag),
        !value_flags.contains(flag),
    ensures
        !is_flag(next) ==> positional_from(seq![flag, next] + rest, 0, bool_flags, value_flags)
            == positional_from(rest, 0, bool_flags, value_flags),
        is_flag(next) ==> positional_from(seq![flag, next] + rest, 0, bool_flags, value_flags)
            == positional_from(seq![next] + rest, 0, bool_flags, value_flags),
{
    let two = seq![flag, next] + rest;
    assert(two[0] == flag && two[1] == next);
    assert(two.skip(2) =~= rest);
    assert(two.skip(1) =~= seq![next] + rest);
    lemma_positional_behind(two, 2, 0, bool_flags, value_flags);
    lemma_positional_behind(two, 1, 0, bool_flags, value_flags);
}

/// The version is asked for where its flag comes before any command, and not
/// where a command comes first.
pub proof fn law_version_before_commands(
    word: Seq<char>,
    rest: Seq<Seq<char>>,
    bool_flags: Set<Seq<char>>,
    value_flags: Set<Seq<char>>,
)
    ensures
        version_from(seq!["--version"@] + rest, 0, bool_flags, value_flags),
        version_from(seq!["-v"@] + rest, 0, bool_flags, value_flags),
        is_plain(word, bool_flags, value_flags) ==> !version_from(
            seq![word] + rest,
            0,
            bool_flags,
            value_flags,
        ),
        !version_from(seq!["--"@] + rest, 0, bool_flags, value_flags),
        !version_from(Seq::empty(), 0, bool_flags, value_flags),
{
    reveal_strlit("--version");
    reveal_strlit("-v");
    reveal_strlit("--");
    assert((seq!["--version"@] + rest)[0] == "--version"@);
    assert((seq!["-v"@] + rest)[0] == "-v"@);
    assert((seq!["--"@] + rest)[0] == "--"@);
    assert((seq![word] + rest)[0] == word);
    assert("--version"@[0] == '-' && "-v"@[0] == '-' && "--"@[0] == '-');
    assert("--"@.len() == 2 && "--"@[1] == '-' && "-v"@[1] == 'v' && "--version"@.len() == 9);
}

/// A program is named by its own name and by a path that ends in it, with an
/// extension or without.
pub proof fn law_program_is_named_by_its_path(
    folder: Seq<char>,
    name: Seq<char>,
    extension: Seq<char>,
)
    requires
        name.len() > 0,
        !name.contains('/'),
        !name.contains('.'),
        !extension.contains('/'),
        !extension.contains('.'),
    ensures
        names_program(name, name),
        names_program(folder.push('/') + name, name),
        names_program(folder.push('/') + (name + "."@ + extension), name),
        basename_spec(folder.push('/') + name) == name,
        basename_spec(folder.push('/') + (name + "."@ + extension)) == name,
{
    reveal_strlit(".");
    let full = name + "."@ + extension;
    assert(full.len() > name.len());
    assert(full[name.len() as int] == '.');
    assert(full[0] == name[0]);
    assert(name.contains(name[0]));
    assert(full != seq!['.'] && full != seq!['.', '.']) by {
        assert(seq!['.'][0] == '.' && seq!['.', '.'][0] == '.');
    }
    assert(name != seq!['.'] && name != seq!['.', '.']) by {
        assert(seq!['.'][0] == '.' && seq!['.', '.'][0] == '.');
    }
    assert(!full.contains('/')) by {
        if full.contains('/') {
            let i = choose|i: int| 0 <= i < full.len() && full[i] == '/';
            if i < name.len() {
                assert(name.contains(name[i]));
            } else if i > name.len() {
                assert(extension.contains(extension[i - name.len() - 1]));
            }
        }
    }
    paths::law_file_name_is_behind_the_last_slash(folder, name);
    paths::law_file_name_is_behind_the_last_slash(folder, full);
    paths::law_stem_leaves_the_extension(name, extension);
}

proof fn lemma_first_place(list: Seq<Seq<char>>, token: Seq<char>, i: int, k: int)
    requires
        0 <= i <= k < list.len(),
        list[k] == token,
        forall|j: int| i <= j < k ==> #[trigger] list[j] != token,
    ensures
        first_place(list, token, i) == k,
    decreases k - i,
{
    if i < k {
        assert(list[i] != token);
        lemma_first_place(list, token, i + 1, k);
    }
}

proof fn lemma_no_place_of(list: Seq<Seq<char>>, token: Seq<char>, i: int)
    requires
        0 <= i <= list.len(),
        forall|j: int| i <= j < list.len() ==> #[trigger] list[j] != token,
    ensures
        first_place(list, token, i) == list.len(),
    decreases list.len() - i,
{
    if i < list.len() {
        assert(list[i] != token);
        lemma_no_place_of(list, token, i + 1);
    }
}

/// The first place of a token is where it first stands.
pub proof fn lemma_first_token(list: Seq<Seq<char>>, token: Seq<char>, k: int)
    requires
        0 <= k < list.len(),
        list[k] == token,
        forall|j: int| 0 <= j < k ==> #[trigger] list[j] != token,
    ensures
        first_place(list, token, 0) == k,
{
    lemma_first_place(list, token, 0, k);
}

/// A token that does not occur has the end for its place.
pub proof fn lemma_no_token(list: Seq<Seq<char>>, token: Seq<char>)
    requires
        forall|j: int| 0 <= j < list.len() ==> #[trigger] list[j] != token,
    ensures
        first_place(list, token, 0) == list.len(),
{
    lemma_no_place_of(list, token, 0);
}

/// `help` behind a group that has no such command asks for the help of what
/// stands around it: the group, and below it what comes behind `help`.
pub proof fn law_help_behind_a_group(
    root: CommandNode,
    group: Seq<Seq<char>>,
    below: Seq<Seq<char>>,
    keywords: int,
)
    requires
        0 < group.len() < keywords,
        !group.contains("help"@),
        command_tree::walk(root, group) is Some,
    ensures
        ({
            let at = command_tree::reached(root, group);
            let target = help_target(root, group + seq!["help"@] + below, keywords);
            &&& at.subcommands@.len() > 0 && command_tree::find_sub(at, "help"@) is None ==> target
                == Some(group + below)
            &&& at.subcommands@.len() == 0 || command_tree::find_sub(at, "help"@) is Some ==> target
                is None
        }),
{
    let all = group + seq!["help"@] + below;
    let n: int = group.len() as int;
    assert(all[n] == "help"@);
    assert forall|j: int| 0 <= j < n implies #[trigger] all[j] != "help"@ by {
        assert(all[j] == group[j]);
        assert(group.contains(group[j]));
    }
    lemma_first_place(all, "help"@, 0, n);
    assert(all.take(n) =~= group);
    assert(all.skip(n + 1) =~= below);
}

/// Without the word `help`, or with nothing before it, no help of a group is
/// asked for.
pub proof fn law_no_help_without_the_word(
    root: CommandNode,
    positionals: Seq<Seq<char>>,
    rest: Seq<Seq<char>>,
    keywords: int,
)
    ensures
        !positionals.contains("help"@) ==> help_target(root, positionals, keywords) is None,
        help_target(root, seq!["help"@] + rest, keywords) is None,
{
    if !positionals.contains("help"@) {
        assert forall|j: int| 0 <= j < positionals.len() implies #[trigger] positionals[j]
            != "help"@ by {
            assert(positionals.contains(positionals[j]));
        }
        lemma_no_place_of(positionals, "help"@, 0);
    }
    assert((seq!["help"@] + rest)[0] == "help"@);
}

/// A name that a group does not know is reported, with the path of the group;
/// what stands behind a command without subcommands is not.
pub proof fn law_unknown_command_is_reported(
    root: CommandNode,
    known: Seq<Seq<char>>,
    unknown: Seq<char>,
    rest: Seq<Seq<char>>,
)
    requires
        command_tree::walk(root, known) is Some,
        command_tree::find_sub(command_tree::reached(root, known), unknown) is None,
    ensures
        ({
            let (at, names) = command_tree::walk(root, known)->0;
            let message = unknown_message(root, known + seq![unknown] + rest);
            &&& at.subcommands@.len() > 0 ==> message == Some(
                "unknown command "@ + text::debug_quoted(unknown) + " for "@ + text::debug_quoted(
                    text::join_spec(seq![root.name@] + names, " "@),
                ),
            )
            &&& at.subcommands@.len() == 0 ==> message is None
        }),
{
    let all = known + seq![unknown] + rest;
    let n = command_tree::longest_walk(root, all, all.len());
    command_tree::law_longest_walk_is_longest(root, all, all.len(), known.len());
    assert(all.take(known.len() as int) =~= known);
    command_tree::law_walk_uses_own_names(command_tree::reached(root, known), unknown);
    command_tree::law_walk_goes_on(root, known, seq![unknown]);
    if n > known.len() {
        let tail = all.take(n as int).skip((known.len() + 1) as int);
        assert(all.take(n as int) =~= (known + seq![unknown]) + tail);
        command_tree::law_walk_goes_on(root, known + seq![unknown], tail);
    }
    assert(all[known.len() as int] == unknown);
}

/// Flags that may stand alone get their values spelled out: `true` for a dry run
/// and a schema, `all` for verbose and `*` for debug, the latter two only where
/// no value follows.
pub proof fn law_optional_flags_get_their_defaults(
    root: CommandNode,
    args: Seq<Seq<char>>,
    i: int,
    current: CommandNode,
)
    requires
        0 < i < args.len(),
    ensures
        ({
            let out = normalize_from(root, args, i, current);
            let alone = i + 1 == args.len() || is_flag(args[i + 1]);
            &&& out.len() > 0
            &&& args[i] == "--dry-run"@ ==> out[0] == "--dry-run"@ + "="@ + "true"@
            &&& args[i] == "--schema"@ ==> out[0] == "--schema"@ + "="@ + "true"@
            &&& args[i] == "--verbose"@ && alone ==> out[0] == "--verbose"@ + "="@ + "all"@
            &&& args[i] == "--debug"@ && alone ==> out[0] == "--debug"@ + "="@ + "*"@
            &&& args[i] != "--dry-run"@ && args[i] != "--schema"@ && args[i] != "--verbose"@
                && args[i] != "--debug"@ ==> out[0] == args[i]
            &&& (args[i] == "--verbose"@ || args[i] == "--debug"@) && !alone && current.name@
                != root.name@ && command_tree::find_sub(current, args[i + 1]) is None ==> out.len()
                >= 2 && out[0] == args[i] && out[1] == args[i + 1]
        }),
{
    reveal_strlit("--dry-run");
    reveal_strlit("--schema");
    reveal_strlit("--verbose");
    reveal_strlit("--debug");
    assert("--dry-run"@.len() == 9 && "--dry-run"@[3] == 'r');
    assert("--verbose"@.len() == 9 && "--verbose"@[3] == 'e');
    assert("--schema"@.len() == 8);
    assert("--debug"@.len() == 7);
}

/// Without those flags the arguments stay as they are.
pub proof fn law_other_arguments_stay(
    root: CommandNode,
    args: Seq<Seq<char>>,
    i: int,
    current: CommandNode,
)
    requires
        0 <= i <= args.len(),
        forall|k: int|
            0 <= k < args.len() ==> (#[trigger] args[k]) != "--dry-run"@ && args[k] != "--schema"@
                && args[k] != "--verbose"@ && args[k] != "--debug"@,
    ensures
        normalize_from(root, args, i, current) == args.skip(i),
    decreases left(args, i),
{
    if i < args.len() {
        let next = command_tree::find_sub(current, args[i]);
        let reached = if i == 0 && names_program(args[i], root.name@) {
            current
        } else if !is_flag(args[i]) && next is Some {
            next->0
        } else {
            current
        };
        law_other_arguments_stay(root, args, i + 1, reached);
        assert(seq![args[i]] + args.skip(i + 1) =~= args.skip(i));
    } else {
        assert(args.skip(i) =~= Seq::empty());
    }
}

/// A search is limited to the command that is named before its flag, without
/// the flags there and their values.
pub proof fn law_search_scope_is_before_the_flag(
    program: Seq<char>,
    names: Seq<Seq<char>>,
    rest: Seq<Seq<char>>,
)
    requires
        forall|i: int| 0 <= i < names.len() ==> !is_flag(#[trigger] names[i]),
    ensures
        scope_from(seq![program] + names + seq!["--search"@] + rest, 1) == names,
{
    reveal_strlit("--search");
    reveal_strlit("--search=");
    lemma_scope_names(seq![program] + names + seq!["--search"@] + rest, 1, 1 + names.len() as int);
    let all = seq![program] + names + seq!["--search"@] + rest;
    assert(all.subrange(1, 1 + names.len() as int) =~= names);
}

proof fn lemma_scope_names(args: Seq<Seq<char>>, i: int, end: int)
    requires
        0 <= i <= end < args.len(),
        args[end] == "--search"@,
        forall|k: int| i <= k < end ==> !is_flag(#[trigger] args[k]),
    ensures
        scope_from(args, i) == args.subrange(i, end),
    decreases end - i,
{
    reveal_strlit("--search");
    reveal_strlit("--search=");
    if i < end {
        assert(!is_flag(args[i]));
        assert(args[i] != "--search"@) by {
            assert("--search"@[0] == '-');
        }
        assert(!("--search="@.is_prefix_of(args[i]))) by {
            if "--search="@.is_prefix_of(args[i]) {
                assert(args[i][0] == "--search="@[0]);
            }
        }
        lemma_scope_names(args, i + 1, end);
        assert(seq![args[i]] + args.subrange(i + 1, end) =~= args.subrange(i, end));
    } else {
        assert(args.subrange(i, end) =~= Seq::empty());
    }
}

/// From a place on, plain words are positional arguments, each of them.
pub proof fn law_positional_words(
    args: Seq<Seq<char>>,
    start: int,
    bool_flags: Set<Seq<char>>,
    value_flags: Set<Seq<char>>,
)
    requires
        0 <= start <= args.len(),
        forall|i: int|
            start <= i < args.len() ==> is_plain(#[trigger] args[i], bool_flags, value_flags),
    ensures
        positional_from(args, start, bool_flags, value_flags) == args.skip(start),
{
    let rest = args.skip(start);
    assert forall|i: int| 0 <= i < rest.len() implies is_plain(
        #[trigger] rest[i],
        bool_flags,
        value_flags,
    ) by {
        assert(rest[i] == args[start + i]);
    }
    law_plain_words_are_positional(rest, bool_flags, value_flags);
    lemma_positional_behind(args, start, 0, bool_flags, value_flags);
}

/// A word that is neither the name of the program nor a path or a file does not
/// name it; the name of the program is skipped where it comes first.
pub proof fn law_other_words_do_not_name_the_program(
    word: Seq<char>,
    name: Seq<char>,
    rest: Seq<Seq<char>>,
)
    requires
        word.len() > 0,
        !word.contains('/'),
        !word.contains('.'),
    ensures
        names_program(word, name) <==> word == name,
        word != name ==> after_program(seq![word] + rest, name) == 0,
        after_program(seq![name] + rest, name) == 1,
        after_program(Seq::empty(), name) == 0,
        basename_spec(word) == word,
{
    assert(word.contains(word[0]));
    assert(word != seq!['.'] && word != seq!['.', '.']) by {
        assert(seq!['.'][0] == '.' && seq!['.', '.'][0] == '.');
    }
    paths::law_file_name_is_behind_the_last_slash(Seq::empty(), word);
    paths::law_stem_leaves_the_extension(word, Seq::empty());
    assert((seq![word] + rest)[0] == word);
    assert((seq![name] + rest)[0] == name);
}

/// Where every argument is a plain word, rewriting puts the new words in their
/// place.
pub proof fn law_plain_words_are_rewritten(
    args: Seq<Seq<char>>,
    start: int,
    bool_flags: Set<Seq<char>>,
    value_flags: Set<Seq<char>>,
    queue: Seq<Seq<char>>,
)
    requires
        0 <= start <= args.len(),
        queue.len() == args.len() - start,
        forall|i: int|
            start <= i < args.len() ==> is_plain(#[trigger] args[i], bool_flags, value_flags),
    ensures
        rewrite_from(args, start, bool_flags, value_flags, queue) == queue,
    decreases args.len() - start,
{
    reveal_strlit("--");
    if start < args.len() {
        assert(is_plain(args[start], bool_flags, value_flags));
        assert("--"@[0] == '-');
        law_plain_words_are_rewritten(args, start + 1, bool_flags, value_flags, queue.skip(1));
        assert(seq![queue[0]] + queue.skip(1) =~= queue);
    }
}

/// `help` that is not among the leading words of a command asks for no help of a
/// group.
pub proof fn law_help_behind_the_separator(
    root: CommandNode,
    group: Seq<Seq<char>>,
    below: Seq<Seq<char>>,
    keywords: int,
)
    requires
        !group.contains("help"@),
        keywords <= group.len(),
    ensures
        help_target(root, group + seq!["help"@] + below, keywords) is None,
{
    let all = group + seq!["help"@] + below;
    let n: int = group.len() as int;
    assert(all[n] == "help"@);
    assert forall|j: int| 0 <= j < n implies #[trigger] all[j] != "help"@ by {
        assert(all[j] == group[j]);
        assert(group.contains(group[j]));
    }
    lemma_first_place(all, "help"@, 0, n);
}

/// A word that names a subcommand is no value of an optional flag, and before
/// any command no word is.
pub proof fn law_subcommands_are_no_values(
    root: CommandNode,
    args: Seq<Seq<char>>,
    i: int,
    current: CommandNode,
)
    requires
        0 < i,
        i + 1 < args.len(),
        current.name@ == root.name@ || command_tree::find_sub(current, args[i + 1]) is Some,
    ensures
        ({
            let out = normalize_from(root, args, i, current);
            &&& args[i] == "--verbose"@ ==> out.len() > 0 && out[0] == "--verbose"@ + "="@ + "all"@
                && out.skip(1) == normalize_from(root, args, i + 1, current)
            &&& args[i] == "--debug"@ ==> out.len() > 0 && out[0] == "--debug"@ + "="@ + "*"@
                && out.skip(1) == normalize_from(root, args, i + 1, current)
        }),
{
    reveal_strlit("--dry-run");
    reveal_strlit("--schema");
    reveal_strlit("--verbose");
    reveal_strlit("--debug");
    assert("--dry-run"@.len() == 9 && "--dry-run"@[3] == 'r');
    assert("--verbose"@.len() == 9 && "--verbose"@[3] == 'e');
    assert("--schema"@.len() == 8);
    assert("--debug"@.len() == 7);
    let rest = normalize_from(root, args, i + 1, current);
    assert((seq!["--verbose"@ + "="@ + "all"@] + rest).skip(1) =~= rest);
    assert((seq!["--debug"@ + "="@ + "*"@] + rest).skip(1) =~= rest);
}

/// Before a search, a flag names no command, nor does the value behind it; a
/// flag that is written with its value takes no other.
pub proof fn law_search_scope_skips_flags(args: Seq<Seq<char>>, i: int)
    requires
        0 <= i,
        i + 1 < args.len(),
        is_flag(args[i]),
        args[i] != "--search"@,
        !("--search="@.is_prefix_of(args[i])),
    ensures
        !args[i].contains('=') && !is_flag(args[i + 1]) ==> scope_from(args, i) == scope_from(
            args,
            i + 2,
        ),
        args[i].contains('=') || is_flag(args[i + 1]) ==> scope_from(args, i) == scope_from(
            args,
            i + 1,
        ),
{
}

} // verus!
