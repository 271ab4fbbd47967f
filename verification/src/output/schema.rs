//! Output schemas of commands.
use crate::json::{Json, JsonModel};
use crate::json;
use crate::ordmap::{Duplicate, StringMap};
use crate::ordmap;
use crate::output::envelope;
use crate::output::json_schema;
use crate::text;
use vstd::prelude::*;
use vstd::string::*;

verus! {

/// Compact field summary used in help text and schema output.
pub struct FieldInfo {
    /// Field name.
    pub name: String,
    /// Field type label.
    pub field_type: String,
    /// Whether the field is optional or nullable.
    pub optional: bool,
}

/// What a field summary says.
#[verifier::ext_equal]
pub struct FieldText {
    /// Field name.
    pub name: Seq<char>,
    /// Field type label.
    pub field_type: Seq<char>,
    /// Whether the field is optional or nullable.
    pub optional: bool,
}

impl View for FieldInfo {
    type V = FieldText;

    open spec fn view(&self) -> FieldText {
        FieldText { name: self.name@, field_type: self.field_type@, optional: self.optional }
    }
}

/// What the summaries of a list say.
pub open spec fn field_texts(fields: Seq<FieldInfo>) -> Seq<FieldText> {
    fields.map_values(|f: FieldInfo| f@)
}

impl FieldInfo {
    /// Creates a compact field summary.
    pub fn new(name: String, field_type: String) -> (r: Self)
        ensures
            r@ == (FieldText { name: name@, field_type: field_type@, optional: false }),
    {
        FieldInfo { name, field_type, optional: false }
    }

    /// Marks the field as optional or nullable.
    pub fn optional(self) -> (r: Self)
        ensures
            r@ == (FieldText { optional: true, ..self@ }),
    {
        FieldInfo { name: self.name, field_type: self.field_type, optional: true }
    }

    /// Copies the summary.
    pub fn copy(&self) -> (r: Self)
        ensures
            r@ == self@,
    {
        FieldInfo {
            name: self.name.clone(),
            field_type: self.field_type.clone(),
            optional: self.optional,
        }
    }
}

/// Copies the summaries of a list.
pub fn copy_fields(fields: &Vec<FieldInfo>) -> (r: Vec<FieldInfo>)
    ensures
        field_texts(r@) == field_texts(fields@),
{
    let mut r: Vec<FieldInfo> = Vec::new();
    let mut i: usize = 0;
    while i < fields.len()
        invariant
            i <= fields@.len(),
            r@.len() == i,
            forall|k: int| 0 <= k < i ==> (#[trigger] r@[k])@ == fields@[k]@,
        decreases fields@.len() - i,
    {
        r.push(fields[i].copy());
        i = i + 1;
    }
    assert(field_texts(r@) =~= field_texts(fields@));
    r
}

/// Schema information returned by `--schema`.
pub struct SchemaInfo {
    /// Colon-separated command path.
    pub command: String,
    /// Compact field summary for help and quick inspection.
    pub fields: Vec<FieldInfo>,
    /// Full JSON Schema when available.
    pub schema: Option<Json>,
}

/// What schema information says.
#[verifier::ext_equal]
pub struct SchemaText {
    /// Colon-separated command path.
    pub command: Seq<char>,
    /// Compact field summary.
    pub fields: Seq<FieldText>,
    /// Full JSON Schema when available.
    pub schema: Option<JsonModel>,
}

impl View for SchemaInfo {
    type V = SchemaText;

    open spec fn view(&self) -> SchemaText {
        SchemaText {
            command: self.command@,
            fields: field_texts(self.fields@),
            schema: envelope::opt_model(self.schema),
        }
    }
}

impl Duplicate for SchemaInfo {
    open spec fn says_same(self, other: Self) -> bool {
        self@ == other@
    }

    fn duplicate(&self) -> (r: Self) {
        SchemaInfo {
            command: self.command.clone(),
            fields: copy_fields(&self.fields),
            schema: envelope::copy_option(&self.schema),
        }
    }
}

impl SchemaInfo {
    /// Creates an empty schema record for a command path.
    pub fn new(command: String) -> (r: Self)
        ensures
            r@ == (SchemaText { command: command@, fields: Seq::empty(), schema: None }),
    {
        let r = SchemaInfo { command, fields: Vec::new(), schema: None };
        assert(r@.fields =~= Seq::empty());
        r
    }

    /// Adds compact field summaries.
    pub fn with_fields(self, fields: Vec<FieldInfo>) -> (r: Self)
        ensures
            r@ == (SchemaText { fields: field_texts(fields@), ..self@ }),
    {
        SchemaInfo { command: self.command, fields, schema: self.schema }
    }

    /// Adds a full JSON Schema document.
    pub fn with_schema(self, schema: Json) -> (r: Self)
        ensures
            r@ == (SchemaText { schema: Some(schema@), ..self@ }),
    {
        SchemaInfo { command: self.command, fields: self.fields, schema: Some(schema) }
    }
}

/// The answer to `--schema` for a command without a registered schema.
pub open spec fn no_schema(command_path: Seq<char>) -> Map<Seq<char>, JsonModel> {
    Map::<Seq<char>, JsonModel>::empty().insert("command"@, JsonModel::Text(command_path)).insert(
        "fields"@,
        JsonModel::Array(Seq::empty()),
    ).insert(
        "message"@,
        JsonModel::Text("No output schema is registered for this command."@),
    )
}

/// Builds the `--schema` response body for a command with no registered schema.
///
/// `--schema` must never run the command, so when no schema exists we report
/// that rather than executing. The body mirrors the `{ command, fields }` shape
/// of a real [`SchemaInfo`] response (with an empty `fields` array) and adds a
/// `message`, so callers can parse the schema and no-schema responses with one
/// code path.
pub fn no_schema_response(command_path: &str) -> (r: Json)
    ensures
        r@ == JsonModel::Object(no_schema(command_path@)),
{
    broadcast use json::group_json;

    let mut members: StringMap<Json> = StringMap::new();
    members.insert("command".to_owned(), Json::from_text(command_path));
    members.insert("fields".to_owned(), Json::Array(Vec::new()));
    members.insert(
        "message".to_owned(),
        Json::from_text("No output schema is registered for this command."),
    );
    let r = Json::Object(members);
    proof {
        assert(json::models(Seq::<Json>::empty()) =~= Seq::empty());
        assert(json::map_models(members@) =~= no_schema(command_path@));
    }
    r
}

/// Manual output field descriptor.
#[derive(Clone, Copy)]
pub struct OutputField {
    /// Field name.
    pub name: &'static str,
    /// Field type label.
    pub field_type: &'static str,
    /// Whether the field is optional.
    pub optional: bool,
}

/// The summary that a descriptor stands for.
pub open spec fn described(f: OutputField) -> FieldText {
    FieldText { name: f.name@, field_type: f.field_type@, optional: f.optional }
}

impl OutputField {
    /// Creates a field descriptor.
    pub fn new(name: &'static str, field_type: &'static str) -> (r: Self)
        ensures
            described(r) == (FieldText { name: name@, field_type: field_type@, optional: false }),
    {
        OutputField { name, field_type, optional: false }
    }

    /// Marks the field optional.
    pub fn optional(self) -> (r: Self)
        ensures
            described(r) == (FieldText { optional: true, ..described(self) }),
    {
        OutputField { name: self.name, field_type: self.field_type, optional: true }
    }

    /// Creates a string field.
    pub fn string(name: &'static str) -> (r: Self)
        ensures
            described(r) == (FieldText { name: name@, field_type: "string"@, optional: false }),
    {
        Self::new(name, "string")
    }

    /// Creates an integer field.
    pub fn integer(name: &'static str) -> (r: Self)
        ensures
            described(r) == (FieldText { name: name@, field_type: "int"@, optional: false }),
    {
        Self::new(name, "int")
    }

    /// Creates a float field.
    pub fn float(name: &'static str) -> (r: Self)
        ensures
            described(r) == (FieldText { name: name@, field_type: "float"@, optional: false }),
    {
        Self::new(name, "float")
    }

    /// Creates a boolean field.
    pub fn bool(name: &'static str) -> (r: Self)
        ensures
            described(r) == (FieldText { name: name@, field_type: "bool"@, optional: false }),
    {
        Self::new(name, "bool")
    }

    /// Creates a list field with a custom type label.
    pub fn list(name: &'static str, field_type: &'static str) -> (r: Self)
        ensures
            described(r) == (FieldText { name: name@, field_type: field_type@, optional: false }),
    {
        Self::new(name, field_type)
    }

    /// Creates a string-list field.
    pub fn string_list(name: &'static str) -> (r: Self)
        ensures
            described(r) == (FieldText { name: name@, field_type: "[]string"@, optional: false }),
    {
        Self::new(name, "[]string")
    }

    /// Creates an integer-list field.
    pub fn int_list(name: &'static str) -> (r: Self)
        ensures
            described(r) == (FieldText { name: name@, field_type: "[]int"@, optional: false }),
    {
        Self::new(name, "[]int")
    }

    /// Creates a float-list field.
    pub fn float_list(name: &'static str) -> (r: Self)
        ensures
            described(r) == (FieldText { name: name@, field_type: "[]float"@, optional: false }),
    {
        Self::new(name, "[]float")
    }

    /// Creates a boolean-list field.
    pub fn bool_list(name: &'static str) -> (r: Self)
        ensures
            described(r) == (FieldText { name: name@, field_type: "[]bool"@, optional: false }),
    {
        Self::new(name, "[]bool")
    }

    /// Creates an object-list field.
    pub fn object_list(name: &'static str) -> (r: Self)
        ensures
            described(r) == (FieldText { name: name@, field_type: "[]object"@, optional: false }),
    {
        Self::new(name, "[]object")
    }

    /// Creates an object field.
    pub fn object(name: &'static str) -> (r: Self)
        ensures
            described(r) == (FieldText { name: name@, field_type: "object"@, optional: false }),
    {
        Self::new(name, "object")
    }

    /// Creates a field with unknown or mixed type.
    pub fn any(name: &'static str) -> (r: Self)
        ensures
            described(r) == (FieldText { name: name@, field_type: "any"@, optional: false }),
    {
        Self::new(name, "any")
    }
}

/// Trait for manually declared output schemas.
pub trait OutputSchema {
    /// Returns the schema's compact field descriptors.
    fn fields() -> &'static [OutputField];
}

/// The summaries of declared fields.
pub open spec fn declared_texts(fields: Seq<OutputField>) -> Seq<FieldText> {
    fields.map_values(|f: OutputField| described(f))
}

/// The summaries are those of the fields that the schema returned.
pub open spec fn is_declared<T: OutputSchema>(texts: Seq<FieldText>) -> bool {
    exists|fields: &'static [OutputField]| #[trigger]
        call_ensures(T::fields, (), fields) && texts == declared_texts(fields@)
}

/// Converts an [`OutputSchema`] implementation to compact field info.
pub fn fields_for<T: OutputSchema>() -> (r: Vec<FieldInfo>)
    ensures
        is_declared::<T>(field_texts(r@)),
{
    let fields = T::fields();
    field_infos(fields)
}

/// The summaries of declared fields.
pub fn field_infos(fields: &[OutputField]) -> (r: Vec<FieldInfo>)
    ensures
        field_texts(r@) == declared_texts(fields@),
{
    let mut r: Vec<FieldInfo> = Vec::new();
    let mut i: usize = 0;
    while i < fields.len()
        invariant
            i <= fields@.len(),
            r@.len() == i,
            forall|k: int| 0 <= k < i ==> (#[trigger] r@[k])@ == described(fields@[k]),
        decreases fields@.len() - i,
    {
        let f = fields[i];
        r.push(
            FieldInfo {
                name: f.name.to_owned(),
                field_type: f.field_type.to_owned(),
                optional: f.optional,
            },
        );
        i = i + 1;
    }
    assert(field_texts(r@) =~= declared_texts(fields@));
    r
}

/// Registry for command output schemas.
pub struct SchemaRegistry {
    by_path: StringMap<SchemaInfo>,
}

impl View for SchemaRegistry {
    type V = Map<Seq<char>, SchemaText>;

    closed spec fn view(&self) -> Map<Seq<char>, SchemaText> {
        self.by_path@.map_values(|i: SchemaInfo| i@)
    }
}

/// The schemas of two registries, those of the second in place of those of the
/// first.
pub open spec fn merged_schemas(
    first: Map<Seq<char>, SchemaText>,
    second: Map<Seq<char>, SchemaText>,
) -> Map<Seq<char>, SchemaText> {
    first.union_prefer_right(second)
}

/// The text with a space for each colon.
pub open spec fn spaced(path: Seq<char>) -> Seq<char> {
    path.map_values(
        |c: char|
            if c == ':' {
                ' '
            } else {
                c
            },
    )
}

/// What follows the first space of a text.
pub open spec fn after_space(s: Seq<char>) -> Option<Seq<char>>
    decreases s.len(),
{
    if s.len() == 0 {
        None
    } else if s[0] == ' ' {
        Some(s.skip(1))
    } else {
        after_space(s.skip(1))
    }
}

/// A schema registered for `registered` is that of a command path that reads
/// `space_path` with spaces.
pub open spec fn path_matches(registered: Seq<char>, space_path: Seq<char>) -> bool {
    registered == space_path || after_space(registered) == Some(space_path)
}

/// `key` is the first of the registered paths that match.
pub open spec fn is_first_match(
    m: Map<Seq<char>, SchemaText>,
    space_path: Seq<char>,
    key: Seq<char>,
) -> bool {
    &&& m.dom().contains(key)
    &&& path_matches(key, space_path)
    &&& forall|k: Seq<char>| #[trigger]
        m.dom().contains(k) && path_matches(k, space_path) ==> !ordmap::text_lt(k, key)
}

/// `r` is the schema that the registry gives for a command path.
pub open spec fn is_found(
    m: Map<Seq<char>, SchemaText>,
    command_path: Seq<char>,
    r: Option<SchemaText>,
) -> bool {
    if m.dom().contains(command_path) {
        r == Some(SchemaText { command: command_path, ..m[command_path] })
    } else {
        match r {
            Some(info) => exists|key: Seq<char>| #[trigger]
                is_first_match(m, spaced(command_path), key) && info == (SchemaText {
                    command: command_path,
                    ..m[key]
                }),
            None => forall|key: Seq<char>| #[trigger]
                m.dom().contains(key) ==> !path_matches(key, spaced(command_path)),
        }
    }
}

/// What an optional schema says.
pub open spec fn found_text(r: Option<SchemaInfo>) -> Option<SchemaText> {
    match r {
        Some(i) => Some(i@),
        None => None,
    }
}

fn matches_path(registered: &str, space_path: &str) -> (r: bool)
    ensures
        r == path_matches(registered@, space_path@),
{
    if text::str_eq(registered, space_path) {
        return true;
    }
    let chars = text::chars_of(registered);
    let mut i: usize = 0;
    proof {
        assert(registered@.skip(0) =~= registered@);
    }
    while i < chars.len()
        invariant
            chars@ == registered@,
            i <= chars@.len(),
            registered@ != space_path@,
            after_space(registered@) == after_space(registered@.skip(i as int)),
        decreases chars@.len() - i,
    {
        assert(registered@.skip(i as int).skip(1) =~= registered@.skip(i + 1));
        if chars[i] == ' ' {
            let rest = text::substring_of(&chars, i + 1, chars.len());
            assert(rest@ =~= registered@.skip(i + 1));
            return text::str_eq(rest.as_str(), space_path);
        }
        i = i + 1;
    }
    false
}

fn spaced_path(path: &str) -> (r: String)
    ensures
        r@ == spaced(path@),
{
    let chars = text::chars_of(path);
    let mut r = String::new();
    let mut i: usize = 0;
    while i < chars.len()
        invariant
            chars@ == path@,
            i <= chars@.len(),
            r@ =~= spaced(path@).take(i as int),
        decreases chars@.len() - i,
    {
        if chars[i] == ':' {
            r.push(' ');
        } else {
            r.push(chars[i]);
        }
        i = i + 1;
    }
    assert(spaced(path@).take(i as int) =~= spaced(path@));
    r
}

fn schema_with_command(info: &SchemaInfo, command_path: &str) -> (r: SchemaInfo)
    ensures
        r@ == (SchemaText { command: command_path@, ..info@ }),
{
    SchemaInfo {
        command: command_path.to_owned(),
        fields: copy_fields(&info.fields),
        schema: envelope::copy_option(&info.schema),
    }
}

impl SchemaRegistry {
    /// Creates an empty registry.
    pub fn new() -> (r: Self)
        ensures
            r@ == Map::<Seq<char>, SchemaText>::empty(),
    {
        let r = SchemaRegistry { by_path: StringMap::new() };
        assert(r@ =~= Map::<Seq<char>, SchemaText>::empty());
        r
    }

    /// Registers a manual schema for a command path.
    pub fn register<T: OutputSchema>(&mut self, command_path: String)
        ensures
            exists|fields: Seq<FieldText>| #[trigger]
                is_declared::<T>(fields) && final(self)@ == old(self)@.insert(
                    command_path@,
                    SchemaText { command: command_path@, fields, schema: None },
                ),
    {
        let fields = fields_for::<T>();
        let ghost texts = field_texts(fields@);
        self.register_fields(command_path, fields);
        assert(is_declared::<T>(texts));
    }

    /// Registers the JSON Schema of a command path.
    pub fn register_json_schema(&mut self, command_path: String, schema: Json)
        requires
            json_schema::schema_resolves(schema@),
        ensures
            exists|fields: Seq<FieldText>| #[trigger]
                json_schema::lists_fields(fields, schema@) && final(self)@ == old(self)@.insert(
                    command_path@,
                    SchemaText { command: command_path@, fields, schema: Some(schema@) },
                ),
    {
        let info = json_schema::json_schema_info(command_path.clone(), schema);
        let ghost fields = info@.fields;
        self.register_info(command_path, info);
        assert(json_schema::lists_fields(fields, schema@));
    }

    /// Registers compact field summaries for a command path.
    pub fn register_fields(&mut self, command_path: String, fields: Vec<FieldInfo>)
        ensures
            final(self)@ == old(self)@.insert(
                command_path@,
                SchemaText {
                    command: command_path@,
                    fields: field_texts(fields@),
                    schema: None,
                },
            ),
    {
        let command = command_path.clone();
        self.register_info(command_path, SchemaInfo { command, fields, schema: None });
    }

    /// Registers a complete schema record for a command path.
    pub fn register_info(&mut self, command_path: String, info: SchemaInfo)
        ensures
            final(self)@ == old(self)@.insert(
                command_path@,
                SchemaText { command: command_path@, ..info@ },
            ),
    {
        let stored = SchemaInfo {
            command: command_path.clone(),
            fields: info.fields,
            schema: info.schema,
        };
        self.by_path.insert(command_path, stored);
        assert(self@ =~= old(self)@.insert(
            command_path@,
            SchemaText { command: command_path@, ..info@ },
        ));
    }

    /// Merges another registry into this one.
    pub fn merge(&mut self, other: &Self)
        ensures
            final(self)@ == merged_schemas(old(self)@, other@),
    {
        let ghost before = self.by_path@;
        self.by_path.extend(&other.by_path);
        proof {
            let after = self.by_path@;
            assert(self@.dom() =~= old(self)@.union_prefer_right(other@).dom());
            assert forall|k: Seq<char>| self@.dom().contains(k) implies #[trigger] self@[k] == old(
                self,
            )@.union_prefer_right(other@)[k] by {
                assert(after.dom().contains(k));
            }
            assert(self@ =~= old(self)@.union_prefer_right(other@));
        }
    }

    /// Looks up schema information by colon-separated or space-separated path.
    pub fn get_by_path(&self, command_path: &str) -> (r: Option<SchemaInfo>)
        ensures
            is_found(self@, command_path@, found_text(r)),
    {
        match self.by_path.get(command_path) {
            Some(info) => {
                return Some(schema_with_command(info, command_path));
            },
            None => {},
        }
        let space_path = spaced_path(command_path);
        let n: usize = self.by_path.len();
        let ghost order = self.by_path.order();
        let mut i: usize = 0;
        while i < n
            invariant
                i <= n == order.len(),
                order == self.by_path.order(),
                ordmap::is_key_order(order, self.by_path@),
                !self@.dom().contains(command_path@),
                space_path@ == spaced(command_path@),
                forall|k: int| 0 <= k < i ==> !path_matches(#[trigger] order[k], space_path@),
            decreases n - i,
        {
            let key = self.by_path.key_at(i);
            if matches_path(key.as_str(), space_path.as_str()) {
                proof {
                    assert forall|k: Seq<char>| #[trigger]
                        self@.dom().contains(k) && path_matches(k, space_path@) implies !ordmap::text_lt(
                        k,
                        key@,
                    ) by {
                        assert(order.contains(k) <==> self.by_path@.dom().contains(k));
                        let j = choose|j: int| 0 <= j < order.len() && order[j] == k;
                        if j > i {
                            assert(ordmap::text_lt(order[i as int], order[j]));
                            if ordmap::text_lt(k, key@) {
                                ordmap::lemma_text_lt_transitive(k, key@, k);
                                ordmap::lemma_text_lt_irreflexive(k);
                            }
                        } else {
                            ordmap::lemma_text_lt_irreflexive(k);
                        }
                    }
                    assert(is_first_match(self@, space_path@, key@));
                }
                return Some(schema_with_command(self.by_path.value_at(i), command_path));
            }
            i = i + 1;
        }
        proof {
            assert forall|k: Seq<char>| #[trigger] self@.dom().contains(k) implies !path_matches(
                k,
                space_path@,
            ) by {
                assert(order.contains(k) <==> self.by_path@.dom().contains(k));
                let j = choose|j: int| 0 <= j < order.len() && order[j] == k;
            }
        }
        None
    }

    /// Copies the registry.
    pub fn copy(&self) -> (r: Self)
        ensures
            r@ == self@,
    {
        let r = SchemaRegistry { by_path: self.by_path.duplicate() };
        assert(r@ =~= self@);
        r
    }
}

/// What is registered for a path is found under that path.
pub proof fn law_registered_schema_is_found(
    m: Map<Seq<char>, SchemaText>,
    path: Seq<char>,
    info: SchemaText,
    r: Option<SchemaText>,
)
    requires
        is_found(m.insert(path, SchemaText { command: path, ..info }), path, r),
    ensures
        r == Some(SchemaText { command: path, ..info }),
{
}

/// The name of the first field with the type label.
pub open spec fn first_of_type(fields: Seq<FieldText>, label: Seq<char>) -> Option<Seq<char>>
    decreases fields.len(),
{
    if fields.len() == 0 {
        None
    } else if fields[0].field_type == label {
        Some(fields[0].name)
    } else {
        first_of_type(fields.skip(1), label)
    }
}

/// The lines for fields in the help, with the names padded to `width`.
pub open spec fn field_lines(fields: Seq<FieldText>, width: nat) -> Seq<char>
    decreases fields.len(),
{
    if fields.len() == 0 {
        Seq::empty()
    } else {
        let f = fields.last();
        field_lines(fields.drop_last(), width) + "  "@ + text::pad_spec(f.name, width) + "  "@
            + f.field_type + (if f.optional {
            "  (optional)"@
        } else {
            ""@
        }) + "\n"@
    }
}

/// The examples for `--filter`.
pub open spec fn filter_examples(
    first_string: Option<Seq<char>>,
    first_bool: Option<Seq<char>>,
) -> Seq<char> {
    if first_string is Some || first_bool is Some {
        "\nFilter examples:\n"@ + (match first_string {
            Some(name) => "  --filter \"contains("@ + name + ", 'example')\"\n"@,
            None => ""@,
        }) + (match first_bool {
            Some(name) => "  --filter '"@ + name + "'\n"@,
            None => ""@,
        })
    } else {
        ""@
    }
}

/// The examples for `--expr`.
pub open spec fn expr_examples(first_string: Option<Seq<char>>) -> Seq<char> {
    "\nExpr examples:\n  --expr 'length(@)'\n"@ + (match first_string {
        Some(name) => "  --expr '[]."@ + name + "'\n"@,
        None => ""@,
    })
}

/// The section on output fields in the long help of a command.
pub open spec fn help_section(fields: Seq<FieldText>) -> Seq<char> {
    if fields.len() == 0 {
        ""@
    } else {
        "Output fields:\n"@ + field_lines(
            fields,
            text::max_bytes(json_schema::field_names(fields)),
        ) + filter_examples(
            first_of_type(fields, "string"@),
            first_of_type(fields, "bool"@),
        ) + expr_examples(first_of_type(fields, "string"@))
    }
}

fn find_of_type<'a>(fields: &'a Vec<FieldInfo>, label: &str) -> (r: Option<&'a String>)
    ensures
        match r {
            Some(name) => first_of_type(field_texts(fields@), label@) == Some(name@),
            None => first_of_type(field_texts(fields@), label@) is None,
        },
{
    let ghost all = field_texts(fields@);
    let mut i: usize = 0;
    proof {
        assert(all.skip(0) =~= all);
    }
    while i < fields.len()
        invariant
            all == field_texts(fields@),
            i <= fields@.len(),
            first_of_type(all, label@) == first_of_type(all.skip(i as int), label@),
        decreases fields@.len() - i,
    {
        proof {
            assert(all.skip(i as int).skip(1) =~= all.skip(i + 1));
            assert(all.skip(i as int)[0] == fields@[i as int]@);
        }
        if text::str_eq(fields[i].field_type.as_str(), label) {
            return Some(&fields[i].name);
        }
        i = i + 1;
    }
    None
}

fn widest_name(fields: &Vec<FieldInfo>) -> (n: usize)
    ensures
        n == text::max_bytes(json_schema::field_names(field_texts(fields@))),
{
    let ghost all = json_schema::field_names(field_texts(fields@));
    let mut n: usize = 0;
    let mut i: usize = 0;
    while i < fields.len()
        invariant
            i <= fields@.len(),
            all == json_schema::field_names(field_texts(fields@)),
            n == text::max_bytes(all.take(i as int)),
        decreases fields@.len() - i,
    {
        assert(all.take(i + 1).drop_last() =~= all.take(i as int));
        let len: usize = text::byte_len(fields[i].name.as_str());
        if len > n {
            n = len;
        }
        i = i + 1;
    }
    assert(all.take(fields@.len() as int) =~= all);
    n
}

/// Formats compact field summaries for command long help.
pub fn format_help_section(fields: &Vec<FieldInfo>) -> (r: String)
    ensures
        r@ == help_section(field_texts(fields@)),
{
    if fields.len() == 0 {
        return "".to_owned();
    }
    let ghost all = field_texts(fields@);
    let max_name: usize = widest_name(fields);
    let mut lines = String::new();
    let mut i: usize = 0;
    proof {
        assert(all.take(0) =~= Seq::empty());
    }
    while i < fields.len()
        invariant
            i <= fields@.len(),
            all == field_texts(fields@),
            lines@ == field_lines(all.take(i as int), max_name as nat),
        decreases fields@.len() - i,
    {
        proof {
            assert(all.take(i + 1).drop_last() =~= all.take(i as int));
            assert(all.take(i + 1).last() == fields@[i as int]@);
        }
        lines.append("  ");
        lines.append(text::pad(fields[i].name.as_str(), max_name).as_str());
        lines.append("  ");
        lines.append(fields[i].field_type.as_str());
        if fields[i].optional {
            lines.append("  (optional)");
        } else {
            lines.append("");
        }
        lines.append("\n");
        i = i + 1;
    }
    proof {
        assert(all.take(i as int) =~= all);
    }
    let first_string = find_of_type(fields, "string");
    let first_bool = find_of_type(fields, "bool");
    let mut filters = String::new();
    if first_string.is_some() || first_bool.is_some() {
        filters.append("\nFilter examples:\n");
        match first_string {
            Some(name) => {
                let mut line = "  --filter \"contains(".to_owned();
                line.append(name.as_str());
                line.append(", 'example')\"\n");
                filters.append(line.as_str());
            },
            None => {
                filters.append("");
            },
        }
        match first_bool {
            Some(name) => {
                let mut line = "  --filter '".to_owned();
                line.append(name.as_str());
                line.append("'\n");
                filters.append(line.as_str());
            },
            None => {
                filters.append("");
            },
        }
        assert(filters@ =~= filter_examples(
            first_of_type(all, "string"@),
            first_of_type(all, "bool"@),
        ));
    } else {
        proof {
            reveal_strlit("");
        }
        assert(filters@ =~= ""@);
    }
    let mut exprs = "\nExpr examples:\n  --expr 'length(@)'\n".to_owned();
    match first_string {
        Some(name) => {
            let mut line = "  --expr '[].".to_owned();
            line.append(name.as_str());
            line.append("'\n");
            exprs.append(line.as_str());
        },
        None => {
            exprs.append("");
        },
    }
    let mut out = "Output fields:\n".to_owned();
    out.append(lines.as_str());
    out.append(filters.as_str());
    out.append(exprs.as_str());
    out
}

/// A schema that was registered with spaces in its path is found for the path
/// with colons, with or without the name of the program before it; its fields
/// are those that were registered.
pub proof fn law_spaced_schema_is_found(
    m: Map<Seq<char>, SchemaText>,
    path: Seq<char>,
    program: Seq<char>,
    found: Option<SchemaText>,
)
    requires
        is_found(m, path, found),
        !m.dom().contains(path),
        !program.contains(' '),
    ensures
        m.dom().contains(spaced(path)) ==> found is Some,
        m.dom().contains(program + " "@ + spaced(path)) ==> found is Some,
        found matches Some(info) ==> info.command == path && (exists|key: Seq<char>| #[trigger]
            m.dom().contains(key) && info.fields == m[key].fields && info.schema == m[key].schema
                && path_matches(key, spaced(path))),
{
    reveal_strlit(" ");
    let long = program + " "@ + spaced(path);
    lemma_after_space(program, spaced(path));
    assert(path_matches(long, spaced(path)));
    assert(path_matches(spaced(path), spaced(path)));
    if found is Some {
        let key = choose|key: Seq<char>| #[trigger]
            is_first_match(m, spaced(path), key) && found->0 == (SchemaText {
                command: path,
                ..m[key]
            });
        assert(m.dom().contains(key));
    }
}

proof fn lemma_after_space(word: Seq<char>, rest: Seq<char>)
    requires
        !word.contains(' '),
    ensures
        after_space(word + " "@ + rest) == Some(rest),
    decreases word.len(),
{
    reveal_strlit(" ");
    let all = word + " "@ + rest;
    if word.len() == 0 {
        assert(all[0] == ' ');
        assert(all.skip(1) =~= rest);
    } else {
        assert(all[0] == word[0]);
        assert(word.contains(word[0]));
        let tail = word.skip(1);
        assert forall|c: char| tail.contains(c) implies word.contains(c) by {
            let i = choose|i: int| 0 <= i < tail.len() && tail[i] == c;
            assert(word[i + 1] == c);
        }
        lemma_after_space(tail, rest);
        assert(all.skip(1) =~= tail + " "@ + rest);
    }
}

/// The answer for a command without a schema names the command, has no fields,
/// and says so.
pub proof fn law_no_schema_says_so(path: Seq<char>)
    ensures
        ({
            let answer = JsonModel::Object(no_schema(path));
            &&& json::member(answer, "command"@) == Some(JsonModel::Text(path))
            &&& json::member(answer, "fields"@) == Some(JsonModel::Array(Seq::empty()))
            &&& json::member(answer, "message"@) is Some
        }),
{
    reveal_strlit("command");
    reveal_strlit("fields");
    reveal_strlit("message");
    assert("command"@[0] == 'c' && "fields"@[0] == 'f' && "message"@[0] == 'm');
}

/// The first field of a type is the first in the list that has it.
pub proof fn law_first_field_of_a_type(
    before: Seq<FieldText>,
    f: FieldText,
    behind: Seq<FieldText>,
)
    requires
        forall|i: int| 0 <= i < before.len() ==> (#[trigger] before[i]).field_type != f.field_type,
    ensures
        first_of_type(before + seq![f] + behind, f.field_type) == Some(f.name),
        first_of_type(before, f.field_type) is None,
    decreases before.len(),
{
    let all = before + seq![f] + behind;
    if before.len() > 0 {
        let rest = before.skip(1);
        assert(all[0] == before[0]);
        assert(all.skip(1) =~= rest + seq![f] + behind);
        assert forall|i: int| 0 <= i < rest.len() implies (#[trigger] rest[i]).field_type
            != f.field_type by {
            assert(rest[i] == before[i + 1]);
        }
        law_first_field_of_a_type(rest, f, behind);
    } else {
        assert(all[0] == f);
    }
}

/// The help of a command shows each output field with its type, and marks the
/// optional ones. Its example filters on the first text field by name.
pub proof fn law_help_shows_the_fields(fields: Seq<FieldText>, k: int, name: Seq<char>)
    requires
        0 <= k < fields.len(),
    ensures
        ({
            let width = text::max_bytes(json_schema::field_names(fields));
            let line = text::pad_spec(fields[k].name, width) + "  "@ + fields[k].field_type;
            &&& fields[k].optional ==> text::contains_text(
                help_section(fields),
                line + "  (optional)"@ + "\n"@,
            )
            &&& !fields[k].optional ==> text::contains_text(help_section(fields), line + "\n"@)
            &&& first_of_type(fields, "string"@) == Some(name) ==> text::contains_text(
                help_section(fields),
                "  --filter \"contains("@ + name + ", 'example')\"\n"@,
            ) && text::contains_text(help_section(fields), "  --expr '[]."@ + name + "'\n"@)
            &&& first_of_type(fields, "bool"@) == Some(name) ==> text::contains_text(
                help_section(fields),
                "  --filter '"@ + name + "'\n"@,
            )
        }),
        help_section(Seq::empty()).len() == 0,
{
    reveal_strlit("");
    let width = text::max_bytes(json_schema::field_names(fields));
    let line = text::pad_spec(fields[k].name, width) + "  "@ + fields[k].field_type;
    let mark = if fields[k].optional {
        "  (optional)"@
    } else {
        ""@
    };
    let whole_line = line + mark + "\n"@;
    let lead = "Output fields:\n"@;
    let lines = field_lines(fields, width);
    let first_string = first_of_type(fields, "string"@);
    let first_bool = first_of_type(fields, "bool"@);
    let filters = filter_examples(first_string, first_bool);
    let exprs = expr_examples(first_string);
    let all = help_section(fields);
    assert(all == lead + lines + filters + exprs);
    lemma_field_line(fields, width, k);
    let i = choose|i: int| text::occurs_at(lines, whole_line, i);
    let at: int = lead.len() + i;
    assert(all.subrange(at, at + whole_line.len()) =~= lines.subrange(i, i + whole_line.len()));
    assert(text::occurs_at(all, whole_line, at));
    if !fields[k].optional {
        assert(whole_line =~= line + "\n"@);
    }
    let head = "\nFilter examples:\n"@;
    let of_bool = match first_bool {
        Some(b) => "  --filter '"@ + b + "'\n"@,
        None => ""@,
    };
    let of_string = match first_string {
        Some(n) => "  --filter \"contains("@ + n + ", 'example')\"\n"@,
        None => ""@,
    };
    if first_string == Some(name) {
        text::lemma_part_occurs(lead + lines + head, of_string, of_bool + exprs);
        assert(lead + lines + head + of_string + (of_bool + exprs) =~= all);
        let intro = "\nExpr examples:\n  --expr 'length(@)'\n"@;
        let last = "  --expr '[]."@ + name + "'\n"@;
        text::lemma_part_occurs(lead + lines + filters + intro, last, Seq::empty());
        assert(lead + lines + filters + intro + last + Seq::<char>::empty() =~= all);
    }
    if first_bool == Some(name) {
        text::lemma_part_occurs(lead + lines + head + of_string, of_bool, exprs);
        assert(lead + lines + head + of_string + of_bool + exprs =~= all);
    }
}

proof fn lemma_field_line(fields: Seq<FieldText>, width: nat, k: int)
    requires
        0 <= k < fields.len(),
    ensures
        text::contains_text(
            field_lines(fields, width),
            text::pad_spec(fields[k].name, width) + "  "@ + fields[k].field_type + (
            if fields[k].optional {
                "  (optional)"@
            } else {
                ""@
            }) + "\n"@,
        ),
    decreases fields.len(),
{
    let before = field_lines(fields.drop_last(), width);
    let f = fields.last();
    let last = text::pad_spec(f.name, width) + "  "@ + f.field_type + (if f.optional {
        "  (optional)"@
    } else {
        ""@
    }) + "\n"@;
    let line = text::pad_spec(fields[k].name, width) + "  "@ + fields[k].field_type + (
    if fields[k].optional {
        "  (optional)"@
    } else {
        ""@
    }) + "\n"@;
    let all = before + "  "@ + last;
    assert(field_lines(fields, width) =~= all);
    if k == fields.len() - 1 {
        text::lemma_part_occurs(before + "  "@, last, Seq::empty());
        assert(before + "  "@ + last + Seq::<char>::empty() =~= all);
    } else {
        lemma_field_line(fields.drop_last(), width, k);
        let i = choose|i: int| text::occurs_at(before, line, i);
        assert(all.subrange(i, i + line.len()) =~= before.subrange(i, i + line.len()));
        assert(text::occurs_at(all, line, i));
    }
}

/// A merged registry has the schemas of both, and where both have one that of
/// the second.
pub proof fn law_merged_schemas(
    first: Map<Seq<char>, SchemaText>,
    second: Map<Seq<char>, SchemaText>,
    path: Seq<char>,
)
    ensures
        merged_schemas(first, second).dom().contains(path) <==> first.dom().contains(path)
            || second.dom().contains(path),
        second.dom().contains(path) ==> merged_schemas(first, second)[path] == second[path],
        first.dom().contains(path) && !second.dom().contains(path) ==> merged_schemas(
            first,
            second,
        )[path] == first[path],
{
}

} // verus!
