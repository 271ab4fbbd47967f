//! Field summaries of a JSON Schema.
use crate::json::{Json, JsonModel};
use crate::json;
use crate::json_bridge;
use crate::ordmap;
use crate::output::schema::{FieldInfo, FieldText, SchemaInfo};
use crate::output::schema;
use crate::text;
use vstd::prelude::*;
use vstd::string::*;

verus! {

/// The schema is that of `null`.
pub open spec fn is_null_type(s: JsonModel) -> bool {
    json::member(s, "type"@) == Some(JsonModel::Text("null"@))
}

/// The first schema of a list that is not that of `null`.
pub open spec fn first_non_null(items: Seq<JsonModel>) -> Option<JsonModel>
    decreases items.len(),
{
    if items.len() == 0 {
        None
    } else if !is_null_type(items[0]) {
        Some(items[0])
    } else {
        first_non_null(items.skip(1))
    }
}

/// The first of the alternatives under `key` that is not `null`.
pub open spec fn alternative(s: JsonModel, key: Seq<char>) -> Option<JsonModel> {
    match json::member(s, key) {
        Some(JsonModel::Array(items)) => first_non_null(items),
        _ => None,
    }
}

/// The schema without the alternative `null`.
pub open spec fn non_null(s: JsonModel) -> JsonModel {
    match alternative(s, "anyOf"@) {
        Some(v) => v,
        None => match alternative(s, "oneOf"@) {
            Some(v) => v,
            None => s,
        },
    }
}

/// The schema that a reference into the root leads to.
pub open spec fn local_ref(s: JsonModel, root: JsonModel) -> Option<JsonModel> {
    match json::member(s, "$ref"@) {
        Some(JsonModel::Text(reference)) => if reference.len() > 0 && reference[0] == '#' {
            json_bridge::pointed(root, reference.skip(1))
        } else {
            None
        },
        _ => None,
    }
}

/// The schema without the alternative `null` and with its reference followed.
pub open spec fn resolved(s: JsonModel, root: JsonModel) -> JsonModel {
    match local_ref(non_null(s), root) {
        Some(v) => v,
        None => non_null(s),
    }
}

/// The first text of a list that is not `null`.
pub open spec fn first_type(values: Seq<JsonModel>) -> Option<Seq<char>>
    decreases values.len(),
{
    if values.len() == 0 {
        None
    } else {
        match values[0] {
            JsonModel::Text(t) => if t != "null"@ {
                Some(t)
            } else {
                first_type(values.skip(1))
            },
            _ => first_type(values.skip(1)),
        }
    }
}

/// The type that a schema names.
pub open spec fn primary_type(s: JsonModel) -> Option<Seq<char>> {
    match json::member(s, "type"@) {
        Some(JsonModel::Text(t)) => Some(t),
        Some(JsonModel::Array(values)) => first_type(values),
        _ => None,
    }
}

/// The label of a type that is no list.
pub open spec fn plain_label(t: Seq<char>) -> Seq<char> {
    if t == "integer"@ {
        "int"@
    } else if t == "number"@ {
        "float"@
    } else if t == "boolean"@ {
        "bool"@
    } else {
        t
    }
}

/// The label of the type of a schema, with at most `steps` lists inside each
/// other.
pub open spec fn label_within(s: JsonModel, root: JsonModel, steps: nat) -> Option<Seq<char>>
    decreases steps,
{
    if steps == 0 {
        None
    } else {
        let at = resolved(s, root);
        match primary_type(at) {
            Some(t) => if t == "array"@ {
                match json::member(at, "items"@) {
                    Some(items) => match label_within(items, root, (steps - 1) as nat) {
                        Some(label) => Some("[]"@ + label),
                        None => None,
                    },
                    None => Some("[]any"@),
                }
            } else {
                Some(plain_label(t))
            },
            None => Some(
                if json::member(at, "properties"@) is Some {
                    "object"@
                } else {
                    "any"@
                },
            ),
        }
    }
}

/// The type of the schema is no list that holds itself.
pub open spec fn has_label(s: JsonModel, root: JsonModel) -> bool {
    exists|steps: nat| #[trigger] label_within(s, root, steps) is Some
}

/// The label of the type of a schema.
pub open spec fn type_label(s: JsonModel, root: JsonModel) -> Seq<char> {
    label_within(s, root, choose|steps: nat| #[trigger] label_within(s, root, steps) is Some)->0
}

/// Some schema of the list is that of `null`.
pub open spec fn holds_null_type(items: Seq<JsonModel>) -> bool {
    exists|i: int| 0 <= i < items.len() && is_null_type(#[trigger] items[i])
}

/// Some schema of the list under `key` is that of `null`.
pub open spec fn some_null(s: JsonModel, key: Seq<char>) -> bool {
    match json::member(s, key) {
        Some(JsonModel::Array(items)) => holds_null_type(items),
        _ => false,
    }
}

/// The list under `key` holds the text.
pub open spec fn lists_text(s: JsonModel, key: Seq<char>, t: Seq<char>) -> bool {
    match json::member(s, key) {
        Some(JsonModel::Array(items)) => exists|i: int|
            0 <= i < items.len() && #[trigger] items[i] == JsonModel::Text(t),
        _ => false,
    }
}

/// The schema admits `null`.
pub open spec fn allows_null(s: JsonModel) -> bool {
    is_null_type(s) || lists_text(s, "type"@, "null"@) || some_null(s, "anyOf"@) || some_null(
        s,
        "oneOf"@,
    )
}

/// The summary of the property `name` of a schema.
pub open spec fn property_field(name: Seq<char>, property: JsonModel, root: JsonModel) -> FieldText {
    FieldText {
        name,
        field_type: type_label(property, root),
        optional: !lists_text(root, "required"@, name) || allows_null(property),
    }
}

/// The names of fields.
pub open spec fn field_names(fields: Seq<FieldText>) -> Seq<Seq<char>> {
    fields.map_values(|f: FieldText| f.name)
}

/// The fields are the properties of the schema, in the order of their names.
pub open spec fn lists_fields(fields: Seq<FieldText>, s: JsonModel) -> bool {
    match json::member(s, "properties"@) {
        Some(JsonModel::Object(properties)) => {
            &&& ordmap::is_key_order(field_names(fields), properties)
            &&& forall|i: int|
                0 <= i < fields.len() ==> #[trigger] fields[i] == property_field(
                    fields[i].name,
                    properties[fields[i].name],
                    s,
                )
        },
        _ => fields.len() == 0,
    }
}

/// None of the properties is a list that holds itself.
pub open spec fn all_labelled(properties: Map<Seq<char>, JsonModel>, s: JsonModel) -> bool {
    forall|name: Seq<char>| #[trigger]
        properties.dom().contains(name) ==> has_label(properties[name], s)
}

/// Some property has more than `limit` lists inside each other.
pub open spec fn some_deeper(
    properties: Map<Seq<char>, JsonModel>,
    s: JsonModel,
    limit: nat,
) -> bool {
    exists|name: Seq<char>| #[trigger]
        properties.dom().contains(name) && label_within(properties[name], s, limit) is None
}

/// No property of the schema is a list that holds itself.
pub open spec fn schema_resolves(s: JsonModel) -> bool {
    match json::member(s, "properties"@) {
        Some(JsonModel::Object(properties)) => all_labelled(properties, s),
        _ => true,
    }
}

fn has_null_type(s: &Json) -> (r: bool)
    ensures
        r == is_null_type(s@),
{
    match s.get("type") {
        Some(t) => match t.as_str() {
            Some(t) => text::str_eq(t, "null"),
            None => false,
        },
        None => false,
    }
}

fn find_alternative<'a>(s: &'a Json, key: &str) -> (r: Option<&'a Json>)
    ensures
        match r {
            Some(v) => alternative(s@, key@) == Some(v@),
            None => alternative(s@, key@) is None,
        },
{
    broadcast use json::group_json;

    match s.get(key) {
        Some(Json::Array(items)) => {
            let ghost all = json::models(items@);
            let mut i: usize = 0;
            proof {
                assert(all.skip(0) =~= all);
            }
            while i < items.len()
                invariant
                    all == json::models(items@),
                    all.len() == items@.len(),
                    i <= items@.len(),
                    alternative(s@, key@) == first_non_null(all),
                    first_non_null(all) == first_non_null(all.skip(i as int)),
                decreases items@.len() - i,
            {
                proof {
                    json::lemma_models(items@);
                    assert(all.skip(i as int).skip(1) =~= all.skip(i + 1));
                    assert(all.skip(i as int)[0] == items@[i as int]@);
                }
                if !has_null_type(&items[i]) {
                    return Some(&items[i]);
                }
                i = i + 1;
            }
            None
        },
        _ => None,
    }
}

/// The schema without the alternative `null`.
fn non_null_schema(s: &Json) -> (r: &Json)
    ensures
        r@ == non_null(s@),
{
    match find_alternative(s, "anyOf") {
        Some(v) => v,
        None => match find_alternative(s, "oneOf") {
            Some(v) => v,
            None => s,
        },
    }
}

/// The schema that a reference into the root leads to.
fn resolve_local_ref(s: &Json, root: &serde_json::Value) -> (r: Option<Json>)
    ensures
        match r {
            Some(v) => local_ref(s@, json_bridge::serde_model(*root)) == Some(v@),
            None => local_ref(s@, json_bridge::serde_model(*root)) is None,
        },
{
    proof {
        reveal_strlit("#");
    }
    match s.get("$ref") {
        Some(reference) => match reference.as_str() {
            Some(reference) => match text::strip_prefix(reference, "#") {
                Some(pointer) => {
                    assert(pointer@ =~= reference@.skip(1));
                    assert(reference@[0] == "#"@[0]);
                    match json_bridge::value_at(root, pointer.as_str()) {
                        Some(v) => Some(json_bridge::from_serde(v)),
                        None => None,
                    }
                },
                None => None,
            },
            None => None,
        },
        None => None,
    }
}

/// The type that a schema names.
fn primary_json_type(s: &Json) -> (r: Option<String>)
    ensures
        match r {
            Some(t) => primary_type(s@) == Some(t@),
            None => primary_type(s@) is None,
        },
{
    broadcast use json::group_json;

    match s.get("type") {
        Some(Json::Text(t)) => Some(t.clone()),
        Some(Json::Array(values)) => {
            let ghost all = json::models(values@);
            let mut i: usize = 0;
            proof {
                assert(all.skip(0) =~= all);
            }
            while i < values.len()
                invariant
                    all == json::models(values@),
                    all.len() == values@.len(),
                    i <= values@.len(),
                    primary_type(s@) == first_type(all),
                    first_type(all) == first_type(all.skip(i as int)),
                decreases values@.len() - i,
            {
                proof {
                    json::lemma_models(values@);
                    assert(all.skip(i as int).skip(1) =~= all.skip(i + 1));
                    assert(all.skip(i as int)[0] == values@[i as int]@);
                }
                match values[i].as_str() {
                    Some(t) => {
                        if !text::str_eq(t, "null") {
                            return Some(t.to_owned());
                        }
                    },
                    None => {},
                }
                i = i + 1;
            }
            None
        },
        _ => None,
    }
}

/// What the label of the type of a schema begins with.
enum LabelStep {
    /// The whole label.
    Whole(String),
    /// The label is that of a list of such items.
    ListOf(Json),
}

/// Looks at the type of a schema itself, not at that of its items.
fn label_step(s: &Json, root: &serde_json::Value) -> (r: LabelStep)
    ensures
        forall|n: nat|
            n > 0 ==> #[trigger] label_within(s@, json_bridge::serde_model(*root), n) == (match r {
                LabelStep::Whole(t) => Some(t@),
                LabelStep::ListOf(items) => match label_within(
                    items@,
                    json_bridge::serde_model(*root),
                    (n - 1) as nat,
                ) {
                    Some(label) => Some("[]"@ + label),
                    None => None,
                },
            }),
{
    let s = non_null_schema(s);
    let target = resolve_local_ref(s, root);
    let at = match &target {
        Some(v) => v,
        None => s,
    };
    match primary_json_type(at) {
        Some(t) => {
            if text::str_eq(t.as_str(), "array") {
                match at.get("items") {
                    Some(items) => LabelStep::ListOf(items.copy()),
                    None => LabelStep::Whole("[]any".to_owned()),
                }
            } else if text::str_eq(t.as_str(), "integer") {
                LabelStep::Whole("int".to_owned())
            } else if text::str_eq(t.as_str(), "number") {
                LabelStep::Whole("float".to_owned())
            } else if text::str_eq(t.as_str(), "boolean") {
                LabelStep::Whole("bool".to_owned())
            } else {
                LabelStep::Whole(t)
            }
        },
        None => {
            if at.get("properties").is_some() {
                LabelStep::Whole("object".to_owned())
            } else {
                LabelStep::Whole("any".to_owned())
            }
        },
    }
}

fn list_label(label: &str) -> (r: String)
    ensures
        r@ == "[]"@ + label@,
{
    let mut r = "[]".to_owned();
    r.append(label);
    r
}

/// The label of the type of a schema, if it is found within `limit` lists
/// inside each other.
fn label_upto(s: &Json, root: &serde_json::Value, limit: usize) -> (r: Option<String>)
    ensures
        match r {
            Some(t) => label_within(s@, json_bridge::serde_model(*root), limit as nat) == Some(t@),
            None => label_within(s@, json_bridge::serde_model(*root), limit as nat) is None,
        },
    decreases limit,
{
    if limit == 0 {
        return None;
    }
    match label_step(s, root) {
        LabelStep::Whole(t) => Some(t),
        LabelStep::ListOf(items) => match label_upto(&items, root, limit - 1) {
            Some(label) => Some(list_label(label.as_str())),
            None => None,
        },
    }
}

/// The label of the type of a schema.
fn json_schema_type_name(
    s: &Json,
    root: &serde_json::Value,
    Ghost(steps): Ghost<nat>,
) -> (r: String)
    requires
        label_within(s@, json_bridge::serde_model(*root), steps) is Some,
    ensures
        label_within(s@, json_bridge::serde_model(*root), steps) == Some(r@),
    decreases steps,
{
    match label_step(s, root) {
        LabelStep::Whole(t) => t,
        LabelStep::ListOf(items) => {
            let label = json_schema_type_name(&items, root, Ghost((steps - 1) as nat));
            list_label(label.as_str())
        },
    }
}

fn text_listed(s: &Json, key: &str, t: &str) -> (r: bool)
    ensures
        r == lists_text(s@, key@, t@),
{
    broadcast use json::group_json;

    match s.get(key) {
        Some(Json::Array(items)) => {
            let mut i: usize = 0;
            while i < items.len()
                invariant
                    json::member(s@, key@) == Some(JsonModel::Array(json::models(items@))),
                    i <= items@.len(),
                    forall|k: int| 0 <= k < i ==> items@[k]@ != JsonModel::Text(t@),
                decreases items@.len() - i,
            {
                proof {
                    json::lemma_models(items@);
                    assert(json::models(items@)[i as int] == items@[i as int]@);
                }
                match items[i].as_str() {
                    Some(u) => {
                        if text::str_eq(u, t) {
                            return true;
                        }
                    },
                    None => {},
                }
                i = i + 1;
            }
            false
        },
        _ => false,
    }
}

fn null_listed(s: &Json, key: &str) -> (r: bool)
    ensures
        r == some_null(s@, key@),
{
    broadcast use json::group_json;

    match s.get(key) {
        Some(Json::Array(items)) => {
            let mut i: usize = 0;
            while i < items.len()
                invariant
                    json::member(s@, key@) == Some(JsonModel::Array(json::models(items@))),
                    i <= items@.len(),
                    forall|k: int| 0 <= k < i ==> !is_null_type(items@[k]@),
                decreases items@.len() - i,
            {
                proof {
                    json::lemma_models(items@);
                    assert(json::models(items@)[i as int] == items@[i as int]@);
                }
                if has_null_type(&items[i]) {
                    assert(is_null_type(json::models(items@)[i as int]));
                    return true;
                }
                i = i + 1;
            }
            false
        },
        _ => false,
    }
}

/// Tells whether the schema admits `null`.
fn schema_allows_null(s: &Json) -> (r: bool)
    ensures
        r == allows_null(s@),
{
    has_null_type(s) || text_listed(s, "type", "null") || null_listed(s, "anyOf") || null_listed(
        s,
        "oneOf",
    )
}

/// Extracts compact field summaries from a JSON Schema object.
pub fn fields_from_json_schema(schema: &Json) -> (r: Vec<FieldInfo>)
    requires
        schema_resolves(schema@),
    ensures
        lists_fields(schema::field_texts(r@), schema@),
{
    broadcast use json::group_json;

    let root = json_bridge::to_serde(schema);
    let properties = match schema.get("properties") {
        Some(Json::Object(properties)) => properties,
        _ => {
            return Vec::new();
        },
    };
    let ghost model = json::map_models(properties@);
    let ghost order = properties.order();
    let n: usize = properties.len();
    let mut r: Vec<FieldInfo> = Vec::new();
    let mut i: usize = 0;
    while i < n
        invariant
            n == order.len(),
            i <= n,
            order == properties.order(),
            model == json::map_models(properties@),
            json::member(schema@, "properties"@) == Some(JsonModel::Object(model)),
            json_bridge::serde_model(root) == schema@,
            schema_resolves(schema@),
            r@.len() == i,
            forall|k: int|
                0 <= k < i ==> (#[trigger] r@[k])@ == property_field(
                    order[k],
                    model[order[k]],
                    schema@,
                ),
        decreases n - i,
    {
        let name = properties.key_at(i);
        let property = properties.value_at(i);
        let ghost steps = choose|steps: nat| #[trigger]
            label_within(property@, schema@, steps) is Some;
        proof {
            assert(model.dom().contains(name@));
            assert(model[name@] == property@);
            assert(has_label(property@, schema@));
        }
        let field_type = json_schema_type_name(property, &root, Ghost(steps));
        let optional = !text_listed(schema, "required", name.as_str()) || schema_allows_null(
            property,
        );
        r.push(FieldInfo { name: name.clone(), field_type, optional });
        i = i + 1;
    }
    proof {
        let fields = schema::field_texts(r@);
        assert(field_names(fields) =~= order);
        assert forall|k: Seq<char>| #[trigger] order.contains(k) <==> model.dom().contains(k) by {
            assert(order.contains(k) <==> properties@.dom().contains(k));
        }
        assert forall|k: int| 0 <= k < order.len() implies model.dom().contains(
            #[trigger] order[k],
        ) by {
            assert(properties@.dom().contains(order[k]));
        }
    }
    r
}

/// Extracts compact field summaries from a JSON Schema object, unless one of
/// its properties has more than `limit` lists inside each other.
pub fn fields_from_json_schema_within(schema: &Json, limit: usize) -> (r: Option<Vec<FieldInfo>>)
    ensures
        match r {
            Some(fields) => schema_resolves(schema@) && lists_fields(
                schema::field_texts(fields@),
                schema@,
            ),
            None => json::member(schema@, "properties"@) matches Some(
                JsonModel::Object(properties),
            ) && some_deeper(properties, schema@, limit as nat),
        },
{
    broadcast use json::group_json;

    let root = json_bridge::to_serde(schema);
    match schema.get("properties") {
        Some(Json::Object(properties)) => {
            let ghost model = json::map_models(properties@);
            let ghost order = properties.order();
            let n: usize = properties.len();
            let mut i: usize = 0;
            while i < n
                invariant
                    n == order.len(),
                    i <= n,
                    order == properties.order(),
                    model == json::map_models(properties@),
                    json::member(schema@, "properties"@) == Some(JsonModel::Object(model)),
                    json_bridge::serde_model(root) == schema@,
                    forall|k: int|
                        0 <= k < i ==> has_label(#[trigger] model[order[k]], schema@),
                decreases n - i,
            {
                let property = properties.value_at(i);
                assert(model.dom().contains(order[i as int]));
                assert(model[order[i as int]] == property@);
                match label_upto(property, &root, limit) {
                    Some(_) => {},
                    None => {
                        return None;
                    },
                }
                i = i + 1;
            }
            proof {
                assert forall|name: Seq<char>| #[trigger] model.dom().contains(name) implies has_label(
                    model[name],
                    schema@,
                ) by {
                    assert(order.contains(name) <==> properties@.dom().contains(name));
                    let k = choose|k: int| 0 <= k < order.len() && order[k] == name;
                    assert(has_label(model[order[k]], schema@));
                }
            }
        },
        _ => {},
    }
    Some(fields_from_json_schema(schema))
}

/// Builds schema info from the JSON Schema of a command's output.
pub fn json_schema_info(command_path: String, schema: Json) -> (r: SchemaInfo)
    requires
        schema_resolves(schema@),
    ensures
        r@.command == command_path@,
        lists_fields(r@.fields, schema@),
        r@.schema == Some(schema@),
{
    let fields = fields_from_json_schema(&schema);
    SchemaInfo { command: command_path, fields, schema: Some(schema) }
}

/// A type has its short label: `int`, `float` and `bool` for those of numbers
/// and booleans, its own name otherwise, and `any` where it has none.
pub proof fn law_label_of_a_type(s: JsonModel, root: JsonModel, steps: nat, name: Seq<char>)
    requires
        steps > 0,
        resolved(s, root) == s,
    ensures
        json::member(s, "type"@) == Some(JsonModel::Text("integer"@)) ==> label_within(
            s,
            root,
            steps,
        ) == Some("int"@),
        json::member(s, "type"@) == Some(JsonModel::Text("number"@)) ==> label_within(
            s,
            root,
            steps,
        ) == Some("float"@),
        json::member(s, "type"@) == Some(JsonModel::Text("boolean"@)) ==> label_within(
            s,
            root,
            steps,
        ) == Some("bool"@),
        json::member(s, "type"@) == Some(JsonModel::Text("string"@)) ==> label_within(
            s,
            root,
            steps,
        ) == Some("string"@),
        json::member(s, "type"@) is None && json::member(s, "properties"@) is Some ==> label_within(
            s,
            root,
            steps,
        ) == Some("object"@),
        json::member(s, "type"@) is None && json::member(s, "properties"@) is None ==> label_within(
            s,
            root,
            steps,
        ) == Some("any"@),
{
    reveal_strlit("integer");
    reveal_strlit("number");
    reveal_strlit("boolean");
    reveal_strlit("string");
    reveal_strlit("array");
    assert("integer"@[0] == 'i' && "number"@[0] == 'n' && "boolean"@[0] == 'b');
    assert("string"@[0] == 's' && "array"@[0] == 'a');
}

/// A list has the label of its items behind brackets, and `any` where it names
/// none.
pub proof fn law_label_of_a_list(s: JsonModel, items: JsonModel, root: JsonModel, steps: nat)
    requires
        resolved(s, root) == s,
        json::member(s, "type"@) == Some(JsonModel::Text("array"@)),
    ensures
        json::member(s, "items"@) == Some(items) ==> (label_within(items, root, steps) matches Some(
            label,
        ) ==> label_within(s, root, steps + 1) == Some("[]"@ + label)),
        json::member(s, "items"@) is None ==> label_within(s, root, steps + 1) == Some("[]any"@),
{
}

/// A reference into the document is followed, and of several alternatives the
/// first that is not null counts; else a schema stands for itself.
pub proof fn law_references_are_followed(
    s: JsonModel,
    root: JsonModel,
    place: Seq<char>,
    target: JsonModel,
)
    ensures
        json::member(s, "anyOf"@) is None && json::member(s, "oneOf"@) is None ==> {
            &&& json::member(s, "$ref"@) is None ==> resolved(s, root) == s
            &&& json::member(s, "$ref"@) == Some(JsonModel::Text("#"@ + place))
                && json_bridge::pointed(root, place) == Some(target) ==> resolved(s, root)
                == target
        },
        json::member(s, "anyOf"@) == Some(JsonModel::Array(seq![target])) && !is_null_type(target)
            && json::member(target, "$ref"@) is None ==> resolved(s, root) == target,
{
    reveal_strlit("#");
    let reference = "#"@ + place;
    assert(reference[0] == '#');
    assert(reference.skip(1) =~= place);
    reveal_with_fuel(first_non_null, 2);
}

/// Null is skipped among alternatives and among types.
pub proof fn law_null_is_skipped(s: JsonModel, rest: Seq<JsonModel>)
    ensures
        is_null_type(s) ==> first_non_null(seq![s] + rest) == first_non_null(rest),
        !is_null_type(s) ==> first_non_null(seq![s] + rest) == Some(s),
        first_type(seq![JsonModel::Text("null"@)] + rest) == first_type(rest),
        s matches JsonModel::Text(t) ==> (t != "null"@ ==> first_type(seq![s] + rest) == Some(t)),
{
    assert((seq![s] + rest).skip(1) =~= rest);
    let null = seq![JsonModel::Text("null"@)] + rest;
    assert(null.skip(1) =~= rest);
    assert(null[0] == JsonModel::Text("null"@));
}

/// A field is optional exactly where it is not among the required ones or may be
/// null.
pub proof fn law_optional_fields(
    fields: Seq<FieldText>,
    s: JsonModel,
    properties: Map<Seq<char>, JsonModel>,
    required: Seq<JsonModel>,
    i: int,
)
    requires
        lists_fields(fields, s),
        json::member(s, "properties"@) == Some(JsonModel::Object(properties)),
        json::member(s, "required"@) == Some(JsonModel::Array(required)),
        0 <= i < fields.len(),
    ensures
        properties.dom().contains(fields[i].name),
        fields[i].optional <==> !required.contains(JsonModel::Text(fields[i].name)) || allows_null(
            properties[fields[i].name],
        ),
        fields[i].field_type == type_label(properties[fields[i].name], s),
{
    let name = fields[i].name;
    assert(field_names(fields)[i] == name);
    assert(fields[i] == property_field(name, properties[name], s));
    if required.contains(JsonModel::Text(name)) {
        let k = choose|k: int| 0 <= k < required.len() && required[k] == JsonModel::Text(name);
        assert(required[k] == JsonModel::Text(name));
    }
}

/// Every property is a field.
pub proof fn law_every_property_is_a_field(
    fields: Seq<FieldText>,
    s: JsonModel,
    properties: Map<Seq<char>, JsonModel>,
    name: Seq<char>,
)
    requires
        lists_fields(fields, s),
        json::member(s, "properties"@) == Some(JsonModel::Object(properties)),
        properties.dom().contains(name),
    ensures
        exists|i: int| 0 <= i < fields.len() && (#[trigger] fields[i]).name == name,
{
    assert(field_names(fields).contains(name));
    let i = choose|i: int| 0 <= i < field_names(fields).len() && field_names(fields)[i] == name;
    assert(fields[i].name == name);
}

/// A schema may be null where it names that type, alone or among others, or has
/// it as an alternative.
pub proof fn law_what_may_be_null(s: JsonModel, others: Seq<JsonModel>, k: int)
    ensures
        json::member(s, "type"@) == Some(JsonModel::Text("null"@)) ==> allows_null(s),
        json::member(s, "type"@) == Some(JsonModel::Array(others)) && 0 <= k < others.len()
            && others[k] == JsonModel::Text("null"@) ==> allows_null(s),
        json::member(s, "anyOf"@) == Some(JsonModel::Array(others)) && 0 <= k < others.len()
            && is_null_type(others[k]) ==> allows_null(s),
        json::member(s, "oneOf"@) == Some(JsonModel::Array(others)) && 0 <= k < others.len()
            && is_null_type(others[k]) ==> allows_null(s),
        json::member(s, "type"@) == Some(JsonModel::Text("string"@)) && json::member(s, "anyOf"@)
            is None && json::member(s, "oneOf"@) is None ==> !allows_null(s),
{
    reveal_strlit("null");
    reveal_strlit("string");
    assert("null"@[0] == 'n' && "string"@[0] == 's');
}

} // verus!
