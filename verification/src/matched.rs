//! What is read from the arguments that the parser matched.
use crate::json::{Json, JsonModel};
use crate::json;
use crate::middleware::meta::ValueMap;
use crate::ordmap::StringMap;
use crate::text;
use vstd::prelude::*;
use vstd::string::*;

verus! {

/// What the parser matched for one argument.
pub struct MatchedArg {
    /// Id of the argument.
    pub id: String,
    /// Whether it has a value from anywhere.
    pub present: bool,
    /// Whether its value came from the command line.
    pub changed: bool,
    /// The value of a flag that stores `true` or `false`.
    pub flag: Option<bool>,
    /// The values as the type that they were parsed into.
    pub typed: Vec<Json>,
    /// The values as they were written.
    pub raw: Vec<String>,
}

/// What was matched for one argument.
#[verifier::ext_equal]
pub struct MatchedText {
    /// Id of the argument.
    pub id: Seq<char>,
    /// Whether it has a value from anywhere.
    pub present: bool,
    /// Whether its value came from the command line.
    pub changed: bool,
    /// The value of a flag that stores `true` or `false`.
    pub flag: Option<bool>,
    /// The values as the type that they were parsed into.
    pub typed: Seq<JsonModel>,
    /// The values as they were written.
    pub raw: Seq<Seq<char>>,
}

impl View for MatchedArg {
    type V = MatchedText;

    open spec fn view(&self) -> MatchedText {
        MatchedText {
            id: self.id@,
            present: self.present,
            changed: self.changed,
            flag: self.flag,
            typed: json::models(self.typed@),
            raw: text::texts(self.raw@),
        }
    }
}

/// What was matched for the arguments of a list.
pub open spec fn matched_texts(args: Seq<MatchedArg>) -> Seq<MatchedText> {
    args.map_values(|a: MatchedArg| a@)
}

/// One value stands for itself, several are a list, none is nothing.
pub open spec fn folded(values: Seq<JsonModel>) -> Option<JsonModel> {
    if values.len() == 0 {
        None
    } else if values.len() == 1 {
        Some(values[0])
    } else {
        Some(JsonModel::Array(values))
    }
}

/// The value of an argument: that of a flag first, then the typed values, then
/// the texts.
pub open spec fn value_of(a: MatchedText) -> Option<JsonModel> {
    if !a.present {
        None
    } else {
        match a.flag {
            Some(b) => Some(JsonModel::Bool(b)),
            None => if a.typed.len() > 0 {
                folded(a.typed)
            } else {
                folded(json::text_models(a.raw))
            },
        }
    }
}

/// The map of arguments, only those from the command line where `changed_only`.
pub open spec fn args_map(args: Seq<MatchedText>, changed_only: bool) -> Map<
    Seq<char>,
    JsonModel,
>
    decreases args.len(),
{
    if args.len() == 0 {
        Map::empty()
    } else {
        let before = args_map(args.drop_last(), changed_only);
        let a = args.last();
        match value_of(a) {
            Some(v) => if a.changed || !changed_only {
                before.insert(a.id, v)
            } else {
                before
            },
            None => before,
        }
    }
}

/// The value of an argument.
pub fn arg_value_from_matches(a: &MatchedArg) -> (r: Option<Json>)
    ensures
        match r {
            Some(v) => value_of(a@) == Some(v@),
            None => value_of(a@) is None,
        },
        a.present ==> (a.flag matches Some(b) ==> (r matches Some(v) && v@ == JsonModel::Bool(b))),
        !a.present ==> r is None,
{
    broadcast use json::group_json;

    if !a.present {
        return None;
    }
    match a.flag {
        Some(b) => {
            return Some(Json::Bool(b));
        },
        None => {},
    }
    if a.typed.len() == 1 {
        return Some(a.typed[0].copy());
    }
    if a.typed.len() > 1 {
        return Some(Json::Array(json::copy_values(&a.typed)));
    }
    if a.raw.len() == 0 {
        None
    } else if a.raw.len() == 1 {
        let r = Json::from_text(a.raw[0].as_str());
        assert(json::text_models(a@.raw)[0] == r@);
        Some(r)
    } else {
        Some(Json::from_list(&a.raw))
    }
}

/// Converts matched arguments into the map consumed by middleware.
///
/// When `changed_only` is true, only arguments that came from the command line
/// are included. This is the user-args map used by authz and audit.
pub fn command_args_from_matches(args: &Vec<MatchedArg>, changed_only: bool) -> (r: ValueMap)
    ensures
        json::map_models(r@) == args_map(matched_texts(args@), changed_only),
{
    let ghost all = matched_texts(args@);
    let mut r: StringMap<Json> = StringMap::new();
    let mut i: usize = 0;
    proof {
        assert(all.take(0) =~= Seq::empty());
        assert(json::map_models(r@) =~= args_map(all.take(0), changed_only));
    }
    while i < args.len()
        invariant
            i <= args@.len(),
            all == matched_texts(args@),
            json::map_models(r@) == args_map(all.take(i as int), changed_only),
        decreases args@.len() - i,
    {
        let ghost before = r@;
        proof {
            assert(all.take(i + 1).drop_last() =~= all.take(i as int));
            assert(all.take(i + 1).last() == args@[i as int]@);
        }
        if args[i].changed || !changed_only {
            match arg_value_from_matches(&args[i]) {
                Some(v) => {
                    r.insert(args[i].id.clone(), v);
                    proof {
                        assert(json::map_models(r@) =~= json::map_models(before).insert(
                            args@[i as int].id@,
                            v@,
                        ));
                    }
                },
                None => {},
            }
        }
        i = i + 1;
    }
    proof {
        assert(all.take(i as int) =~= all);
    }
    r
}

/// What the user gave is among the effective arguments, with the same value, as
/// long as each argument has one id.
pub proof fn law_user_args_are_effective(args: Seq<MatchedText>, id: Seq<char>)
    requires
        forall|i: int, j: int|
            0 <= i < j < args.len() ==> (#[trigger] args[i]).id != (#[trigger] args[j]).id,
        args_map(args, true).dom().contains(id),
    ensures
        args_map(args, false).dom().contains(id),
        args_map(args, false)[id] == args_map(args, true)[id],
    decreases args.len(),
{
    if args.len() > 0 {
        let init = args.drop_last();
        assert forall|i: int, j: int| 0 <= i < j < init.len() implies (#[trigger] init[i]).id != (
        #[trigger] init[j]).id by {
            assert(args[i].id != args[j].id);
        }
        if args_map(init, true).dom().contains(id) {
            lemma_arg_is_named(init, id);
            law_user_args_are_effective(init, id);
            let k = choose|k: int| 0 <= k < init.len() && (#[trigger] init[k]).id == id;
            assert(args[k].id != args[args.len() - 1].id);
        }
    }
}

proof fn lemma_arg_is_named(args: Seq<MatchedText>, id: Seq<char>)
    requires
        args_map(args, true).dom().contains(id),
    ensures
        exists|k: int| 0 <= k < args.len() && (#[trigger] args[k]).id == id,
    decreases args.len(),
{
    if args.len() > 0 {
        let init = args.drop_last();
        if args_map(init, true).dom().contains(id) {
            lemma_arg_is_named(init, id);
            let k = choose|k: int| 0 <= k < init.len() && (#[trigger] init[k]).id == id;
            assert(args[k].id == id);
        } else {
            assert(args[args.len() - 1].id == id);
        }
    }
}

/// The names other than that of the root.
pub open spec fn path_names(names: Seq<Seq<char>>, root_name: Seq<char>) -> Seq<Seq<char>>
    decreases names.len(),
{
    if names.len() == 0 {
        Seq::empty()
    } else {
        let before = path_names(names.drop_last(), root_name);
        if names.last() == root_name {
            before
        } else {
            before.push(names.last())
        }
    }
}

/// The colon-separated path of the subcommands that were matched.
pub fn command_path_from_matches(root_name: &str, names: &Vec<String>) -> (r: String)
    ensures
        r@ == text::join_spec(path_names(text::texts(names@), root_name@), ":"@),
{
    let ghost all = text::texts(names@);
    let mut parts: Vec<String> = Vec::new();
    let mut i: usize = 0;
    proof {
        assert(all.take(0) =~= Seq::empty());
        assert(text::texts(parts@) =~= Seq::empty());
    }
    while i < names.len()
        invariant
            i <= names@.len(),
            all == text::texts(names@),
            text::texts(parts@) == path_names(all.take(i as int), root_name@),
        decreases names@.len() - i,
    {
        let ghost before = parts@;
        proof {
            assert(all.take(i + 1).drop_last() =~= all.take(i as int));
            assert(all.take(i + 1).last() == names@[i as int]@);
        }
        if !text::str_eq(names[i].as_str(), root_name) {
            parts.push(names[i].clone());
            assert(text::texts(parts@) =~= text::texts(before).push(names@[i as int]@));
        }
        i = i + 1;
    }
    proof {
        assert(all.take(i as int) =~= all);
    }
    text::join(&parts, ":")
}

/// The colon-separated path of path parts, the first of which is the root.
///
/// The annotation is used only where there is no other part.
pub open spec fn parts_path(parts: Seq<Seq<char>>, annotation: Option<Seq<char>>) -> Seq<char> {
    if parts.len() == 0 {
        Seq::empty()
    } else if parts.len() > 1 {
        text::join_spec(parts.skip(1), ":"@)
    } else {
        match annotation {
            Some(a) => if a.len() > 0 {
                a
            } else {
                parts[0]
            },
            None => parts[0],
        }
    }
}

/// Builds a colon-separated command path from path parts.
///
/// The optional annotation is used only for isolated single-command tests.
pub fn command_path_from_parts(parts: &Vec<String>, path_annotation: Option<&str>) -> (r: String)
    ensures
        r@ == parts_path(text::texts(parts@), crate::fs::str_text(path_annotation)),
{
    if parts.len() == 0 {
        return String::new();
    }
    if parts.len() > 1 {
        let mut rest: Vec<String> = Vec::new();
        let mut i: usize = 1;
        while i < parts.len()
            invariant
                1 <= i <= parts@.len(),
                rest@.len() == i - 1,
                forall|k: int| 0 <= k < rest@.len() ==> (#[trigger] rest@[k])@ == parts@[k + 1]@,
            decreases parts@.len() - i,
        {
            rest.push(parts[i].clone());
            i = i + 1;
        }
        assert(text::texts(rest@) =~= text::texts(parts@).skip(1));
        return text::join(&rest, ":");
    }
    match path_annotation {
        Some(a) => {
            if a.is_empty() {
                parts[0].clone()
            } else {
                a.to_owned()
            }
        },
        None => parts[0].clone(),
    }
}

/// A matched argument has its own value in the map: a flag the boolean that was
/// matched, one value itself, several values a list of them. The typed values
/// come before the texts.
pub proof fn law_argument_has_its_value(a: MatchedText)
    requires
        a.present,
    ensures
        ({
            let m = args_map(seq![a], false);
            &&& a.flag matches Some(b) ==> m.dom().contains(a.id) && m[a.id] == JsonModel::Bool(b)
            &&& a.flag is None && a.typed.len() == 1 ==> m.dom().contains(a.id) && m[a.id]
                == a.typed[0]
            &&& a.flag is None && a.typed.len() > 1 ==> m.dom().contains(a.id) && m[a.id]
                == JsonModel::Array(a.typed)
            &&& a.flag is None && a.typed.len() == 0 && a.raw.len() == 1 ==> m.dom().contains(
                a.id,
            ) && m[a.id] == JsonModel::Text(a.raw[0])
            &&& a.flag is None && a.typed.len() == 0 && a.raw.len() > 1 ==> m.dom().contains(a.id)
                && (m[a.id] matches JsonModel::Array(items) && items.len() == a.raw.len() && (
            forall|i: int| 0 <= i < a.raw.len() ==> #[trigger] items[i] == JsonModel::Text(a.raw[i])))
            &&& a.flag is None && a.typed.len() == 0 && a.raw.len() == 0 ==> !m.dom().contains(a.id)
        }),
{
    reveal_with_fuel(args_map, 2);
    assert(seq![a].drop_last() =~= Seq::empty());
    assert(seq![a].last() == a);
}

/// Each argument of a list stands in the map with the value that it has alone,
/// as long as each has an id of its own. Where only those from the command line
/// are wanted, it stands there only if it came from there.
pub proof fn law_arguments_do_not_mix(args: Seq<MatchedText>, k: int, changed_only: bool)
    requires
        0 <= k < args.len(),
        forall|i: int, j: int|
            0 <= i < j < args.len() ==> (#[trigger] args[i]).id != (#[trigger] args[j]).id,
    ensures
        ({
            let m = args_map(args, changed_only);
            let alone = args_map(seq![args[k]], false);
            let id = args[k].id;
            &&& m.dom().contains(id) <==> alone.dom().contains(id) && (args[k].changed
                || !changed_only)
            &&& m.dom().contains(id) ==> m[id] == alone[id]
        }),
    decreases args.len(),
{
    let init = args.drop_last();
    let a = args[k];
    reveal_with_fuel(args_map, 2);
    assert(seq![a].drop_last() =~= Seq::empty());
    assert(seq![a].last() == a);
    assert forall|i: int, j: int| 0 <= i < j < init.len() implies (#[trigger] init[i]).id != (
    #[trigger] init[j]).id by {
        assert(args[i].id != args[j].id);
    }
    if k < args.len() - 1 {
        law_arguments_do_not_mix(init, k, changed_only);
        assert(init[k] == args[k]);
        assert(args[k].id != args[args.len() - 1].id);
    } else {
        if args_map(init, changed_only).dom().contains(a.id) {
            lemma_arg_in_list(init, a.id, changed_only);
            let n = choose|n: int| 0 <= n < init.len() && (#[trigger] init[n]).id == a.id;
            assert(args[n].id != args[k].id);
        }
    }
}

/// What is in the map is an argument of the list that has a value: nothing is
/// made up, and what has none, is absent or was not asked for is left out.
pub proof fn law_no_argument_is_made_up(args: Seq<MatchedText>, id: Seq<char>, changed_only: bool)
    requires
        args_map(args, changed_only).dom().contains(id),
    ensures
        exists|k: int|
            0 <= k < args.len() && (#[trigger] args[k]).id == id && args[k].present && (
            args[k].changed || !changed_only),
    decreases args.len(),
{
    if args.len() > 0 {
        let init = args.drop_last();
        if args_map(init, changed_only).dom().contains(id) {
            law_no_argument_is_made_up(init, id, changed_only);
            let k = choose|k: int|
                0 <= k < init.len() && (#[trigger] init[k]).id == id && init[k].present && (
                init[k].changed || !changed_only);
            assert(args[k].id == id);
        } else {
            assert(args[args.len() - 1].id == id);
        }
    }
}

proof fn lemma_arg_in_list(args: Seq<MatchedText>, id: Seq<char>, changed_only: bool)
    requires
        args_map(args, changed_only).dom().contains(id),
    ensures
        exists|k: int| 0 <= k < args.len() && (#[trigger] args[k]).id == id,
{
    law_no_argument_is_made_up(args, id, changed_only);
    let k = choose|k: int|
        0 <= k < args.len() && (#[trigger] args[k]).id == id && args[k].present && (args[k].changed
            || !changed_only);
    assert(args[k].id == id);
}

/// The path of the matched subcommands names them all, from the outermost in,
/// and split at its colons it gives them back, as long as none of them has a
/// colon or the name of the root.
pub proof fn law_path_names_the_subcommands(names: Seq<Seq<char>>, root_name: Seq<char>)
    requires
        names.len() > 0,
        forall|i: int|
            0 <= i < names.len() ==> !(#[trigger] names[i]).contains(':') && names[i] != root_name,
    ensures
        text::split_spec(text::join_spec(path_names(names, root_name), ":"@), ':') == names,
{
    lemma_path_names_all(names, root_name);
    reveal_strlit(":");
    assert(":"@ =~= seq![':']);
    text::law_join_is_undone_by_split(names, ':');
}

proof fn lemma_path_names_all(names: Seq<Seq<char>>, root_name: Seq<char>)
    requires
        forall|i: int| 0 <= i < names.len() ==> (#[trigger] names[i]) != root_name,
    ensures
        path_names(names, root_name) == names,
    decreases names.len(),
{
    if names.len() > 0 {
        let init = names.drop_last();
        assert forall|i: int| 0 <= i < init.len() implies (#[trigger] init[i]) != root_name by {
            assert(init[i] == names[i]);
        }
        lemma_path_names_all(init, root_name);
        assert(names.last() == names[names.len() - 1]);
        assert(init.push(names.last()) =~= names);
    } else {
        assert(names =~= Seq::empty());
    }
}

/// The name of the root stands in no path.
pub proof fn law_root_is_not_in_the_path(names: Seq<Seq<char>>, root_name: Seq<char>)
    ensures
        !path_names(names, root_name).contains(root_name),
    decreases names.len(),
{
    if names.len() > 0 {
        law_root_is_not_in_the_path(names.drop_last(), root_name);
        let before = path_names(names.drop_last(), root_name);
        let all = path_names(names, root_name);
        if all.contains(root_name) {
            let i = choose|i: int| 0 <= i < all.len() && all[i] == root_name;
            if i < before.len() {
                assert(before[i] == root_name);
            }
        }
    }
}

/// The path of parts leaves the root out and names all others in order. Only
/// the root alone takes the annotation, where that is not empty.
pub proof fn law_path_of_parts(
    root: Seq<char>,
    rest: Seq<Seq<char>>,
    annotation: Option<Seq<char>>,
    other: Option<Seq<char>>,
)
    requires
        forall|i: int| 0 <= i < rest.len() ==> !(#[trigger] rest[i]).contains(':'),
    ensures
        rest.len() > 0 ==> text::split_spec(parts_path(seq![root] + rest, annotation), ':') == rest,
        rest.len() > 0 ==> parts_path(seq![root] + rest, annotation) == parts_path(
            seq![root] + rest,
            other,
        ),
        annotation matches Some(a) ==> a.len() > 0 ==> parts_path(seq![root], annotation) == a,
        parts_path(seq![root], None) == root,
{
    assert((seq![root] + rest).skip(1) =~= rest);
    reveal_strlit(":");
    assert(":"@ =~= seq![':']);
    if rest.len() > 0 {
        text::law_join_is_undone_by_split(rest, ':');
    }
}

} // verus!
