//! JSON values as plain data.
use crate::ordmap::StringMap;
use crate::json_bridge;
use crate::ordmap;
use crate::text;
use vstd::prelude::*;
use vstd::string::*;

verus! {

/// A floating-point number, by the text that it is written as.
pub struct Float {
    text: String,
}

impl Float {
    #[verifier::type_invariant]
    spec fn written(self) -> bool {
        json_bridge::float_text(self.text@) == Some(self.text@)
    }

    /// The number as it is written.
    pub closed spec fn literal(&self) -> Seq<char> {
        self.text@
    }

    /// The floating-point number that `raw` stands for, if it is a finite one.
    pub fn parse(raw: &str) -> (r: Option<Float>)
        ensures
            match r {
                Some(f) => json_bridge::float_text(raw@) == Some(f.literal()),
                None => json_bridge::float_text(raw@) is None,
            },
    {
        match json_bridge::float_value(raw) {
            Some(v) => {
                let text = json_bridge::number_text(&v);
                Some(Float { text })
            },
            None => None,
        }
    }

    /// The number as it is written.
    pub fn text(&self) -> (r: &str)
        ensures
            r@ == self.literal(),
            json_bridge::float_text(r@) == Some(r@),
    {
        proof {
            use_type_invariant(self);
        }
        self.text.as_str()
    }

    /// Copies the number.
    pub fn copy(&self) -> (r: Float)
        ensures
            r.literal() == self.literal(),
    {
        proof {
            use_type_invariant(self);
        }
        Float { text: self.text.clone() }
    }
}

/// A JSON number.
pub enum Number {
    /// A whole number that is not negative.
    Unsigned(u64),
    /// A whole number.
    Signed(i64),
    /// Any other number.
    Float(Float),
}

/// A JSON value. The members of an object stand in the order of their names.
pub enum Json {
    /// `null`.
    Null,
    /// `true` or `false`.
    Bool(bool),
    /// A number.
    Number(Number),
    /// A string.
    Text(String),
    /// A list.
    Array(Vec<Json>),
    /// Names and their values.
    Object(StringMap<Json>),
}

/// What a JSON number says.
pub enum NumberModel {
    /// A whole number.
    Integer(int),
    /// Any other number, by the text that it is written as.
    Float(Seq<char>),
}

/// What a JSON value says.
pub enum JsonModel {
    /// `null`.
    Null,
    /// `true` or `false`.
    Bool(bool),
    /// A number.
    Number(NumberModel),
    /// A string.
    Text(Seq<char>),
    /// A list.
    Array(Seq<JsonModel>),
    /// Names and their values.
    Object(Map<Seq<char>, JsonModel>),
}

/// What a number says.
pub open spec fn number_model(n: Number) -> NumberModel {
    match n {
        Number::Unsigned(u) => NumberModel::Integer(u as int),
        Number::Signed(i) => NumberModel::Integer(i as int),
        Number::Float(f) => NumberModel::Float(f.literal()),
    }
}

/// What a value says.
pub closed spec fn model(v: Json) -> JsonModel
    decreases v,
{
    match v {
        Json::Null => JsonModel::Null,
        Json::Bool(b) => JsonModel::Bool(b),
        Json::Number(n) => JsonModel::Number(number_model(n)),
        Json::Text(s) => JsonModel::Text(s@),
        Json::Array(items) => JsonModel::Array(models(items@)),
        Json::Object(members) => JsonModel::Object(member_models(members.entries@)),
    }
}

/// What each value of a list says.
pub closed spec fn models(items: Seq<Json>) -> Seq<JsonModel>
    decreases items,
{
    if items.len() == 0 {
        Seq::empty()
    } else {
        models(items.drop_last()).push(model(items.last()))
    }
}

/// What the members of an object say.
closed spec fn member_models(entries: Seq<(String, Json)>) -> Map<Seq<char>, JsonModel>
    decreases entries,
{
    if entries.len() == 0 {
        Map::empty()
    } else {
        member_models(entries.drop_last()).insert(entries.last().0@, model(entries.last().1))
    }
}

/// What a map of values says.
pub open spec fn map_models(m: Map<Seq<char>, Json>) -> Map<Seq<char>, JsonModel> {
    m.map_values(|v: Json| model(v))
}

proof fn lemma_member_models(entries: Seq<(String, Json)>)
    ensures
        member_models(entries) =~= map_models(ordmap::entry_map(entries)),
    decreases entries.len(),
{
    if entries.len() > 0 {
        lemma_member_models(entries.drop_last());
    }
}

proof fn lemma_list_models(items: Seq<Json>)
    ensures
        models(items).len() == items.len(),
        forall|i: int| 0 <= i < items.len() ==> #[trigger] models(items)[i] == model(items[i]),
    decreases items.len(),
{
    if items.len() > 0 {
        lemma_list_models(items.drop_last());
    }
}

/// The models of a list, one by one.
pub broadcast proof fn lemma_models(items: Seq<Json>)
    ensures
        #![trigger models(items)]
        models(items).len() == items.len(),
        forall|i: int| 0 <= i < items.len() ==> #[trigger] models(items)[i] == model(items[i]),
{
    lemma_list_models(items);
}

/// What a value says, by its form.
pub broadcast proof fn lemma_model(v: Json)
    ensures
        #[trigger] model(v) == (match v {
            Json::Null => JsonModel::Null,
            Json::Bool(b) => JsonModel::Bool(b),
            Json::Number(n) => JsonModel::Number(number_model(n)),
            Json::Text(s) => JsonModel::Text(s@),
            Json::Array(items) => JsonModel::Array(models(items@)),
            Json::Object(members) => JsonModel::Object(map_models(members@)),
        }),
{
    if let Json::Object(members) = v {
        ordmap::lemma_view(members);
        lemma_member_models(members.entries@);
    }
}

/// The meaning of values.
pub broadcast group group_json {
    lemma_models,
    lemma_model,
}

impl View for Json {
    type V = JsonModel;

    open spec fn view(&self) -> JsonModel {
        model(*self)
    }
}

/// The member `name` of an object; none of anything else.
pub open spec fn member(v: JsonModel, name: Seq<char>) -> Option<JsonModel> {
    match v {
        JsonModel::Object(members) => if members.dom().contains(name) {
            Some(members[name])
        } else {
            None
        },
        _ => None,
    }
}

impl Json {
    /// The member `name` of an object.
    pub fn get(&self, name: &str) -> (r: Option<&Json>)
        ensures
            match r {
                Some(v) => member(self@, name@) == Some(v@),
                None => member(self@, name@) is None,
            },
    {
        broadcast use group_json;

        match self {
            Json::Object(members) => members.get(name),
            _ => None,
        }
    }

    /// The text of a string.
    pub fn as_str(&self) -> (r: Option<&str>)
        ensures
            match r {
                Some(s) => self@ == JsonModel::Text(s@),
                None => !(self@ is Text),
            },
    {
        broadcast use group_json;

        match self {
            Json::Text(s) => Some(s.as_str()),
            _ => None,
        }
    }

    /// Tells whether the value is `null`.
    pub fn is_null(&self) -> (r: bool)
        ensures
            r == (self@ is Null),
    {
        broadcast use group_json;

        match self {
            Json::Null => true,
            _ => false,
        }
    }

    /// Tells whether the value is an object.
    pub fn is_object(&self) -> (r: bool)
        ensures
            r == (self@ is Object),
    {
        broadcast use group_json;

        match self {
            Json::Object(_) => true,
            _ => false,
        }
    }

    /// The value of a string.
    pub fn from_text(s: &str) -> (r: Json)
        ensures
            r@ == JsonModel::Text(s@),
    {
        broadcast use group_json;

        Json::Text(s.to_owned())
    }

    /// The value of an optional string: `null` where there is none.
    pub fn from_option(s: &Option<String>) -> (r: Json)
        ensures
            r@ == option_model(*s),
    {
        broadcast use group_json;

        match s {
            Some(t) => Json::Text(t.clone()),
            None => Json::Null,
        }
    }

    /// The list of strings.
    pub fn from_list(items: &Vec<String>) -> (r: Json)
        ensures
            r@ == list_model(text::texts(items@)),
    {
        broadcast use group_json;

        let mut values: Vec<Json> = Vec::new();
        let mut i: usize = 0;
        while i < items.len()
            invariant
                i <= items@.len(),
                values@.len() == i,
                forall|k: int|
                    0 <= k < i ==> model(#[trigger] values@[k]) == JsonModel::Text(items@[k]@),
            decreases items@.len() - i,
        {
            values.push(Json::Text(items[i].clone()));
            i = i + 1;
        }
        assert(models(values@) =~= text_models(text::texts(items@)));
        Json::Array(values)
    }

    /// Copies the value.
    pub fn copy(&self) -> (r: Json)
        ensures
            r@ == self@,
        decreases self,
    {
        broadcast use group_json;

        match self {
            Json::Null => Json::Null,
            Json::Bool(b) => Json::Bool(*b),
            Json::Number(n) => Json::Number(n.copy()),
            Json::Text(s) => Json::Text(s.clone()),
            Json::Array(items) => Json::Array(copy_values(items)),
            Json::Object(members) => Json::Object(copy_members(members)),
        }
    }
}

impl Number {
    /// Copies the number.
    pub fn copy(&self) -> (r: Number)
        ensures
            number_model(r) == number_model(*self),
    {
        match self {
            Number::Unsigned(u) => Number::Unsigned(*u),
            Number::Signed(i) => Number::Signed(*i),
            Number::Float(f) => Number::Float(f.copy()),
        }
    }

    /// The number as it is written.
    pub fn to_text(&self) -> (r: String)
        ensures
            r@ == number_text(number_model(*self)),
    {
        match self {
            Number::Unsigned(u) => text::decimal(*u as u128),
            Number::Signed(i) => text::signed(*i),
            Number::Float(f) => f.text().to_owned(),
        }
    }
}

/// A number as it is written.
pub open spec fn number_text(n: NumberModel) -> Seq<char> {
    match n {
        NumberModel::Integer(i) => text::signed_spec(i),
        NumberModel::Float(t) => t,
    }
}

/// What a list of strings says.
pub open spec fn text_models(items: Seq<Seq<char>>) -> Seq<JsonModel> {
    Seq::new(items.len(), |i: int| JsonModel::Text(items[i]))
}

/// The JSON list of strings.
pub open spec fn list_model(items: Seq<Seq<char>>) -> JsonModel {
    JsonModel::Array(text_models(items))
}

/// The JSON value of an optional string.
pub open spec fn option_model(s: Option<String>) -> JsonModel {
    match s {
        Some(t) => JsonModel::Text(t@),
        None => JsonModel::Null,
    }
}

/// Copies the values of a list.
pub fn copy_values(items: &Vec<Json>) -> (r: Vec<Json>)
    ensures
        models(r@) == models(items@),
    decreases items,
{
    broadcast use group_json;

    let mut r: Vec<Json> = Vec::new();
    let mut i: usize = 0;
    while i < items.len()
        invariant
            i <= items@.len(),
            r@.len() == i,
            forall|k: int| 0 <= k < i ==> model(#[trigger] r@[k]) == model(items@[k]),
        decreases items@.len() - i,
    {
        let c = items[i].copy();
        r.push(c);
        i = i + 1;
    }
    assert(models(r@) =~= models(items@));
    r
}

/// Copies the members of an object.
pub fn copy_members(members: &StringMap<Json>) -> (r: StringMap<Json>)
    ensures
        map_models(r@) == map_models(members@),
        r.order() == members.order(),
    decreases members,
{
    broadcast use group_json;

    let n: usize = members.len();
    proof {
        ordmap::lemma_view(*members);
    }
    let mut entries: Vec<(String, Json)> = Vec::new();
    let mut i: usize = 0;
    while i < members.entries.len()
        invariant
            i <= members.entries@.len(),
            entries@.len() == i,
            forall|k: int|
                0 <= k < i ==> (#[trigger] entries@[k]).0@ == members.entries@[k].0@ && model(
                    entries@[k].1,
                ) == model(members.entries@[k].1),
        decreases members.entries@.len() - i,
    {
        let k = members.entries[i].0.clone();
        let c = members.entries[i].1.copy();
        entries.push((k, c));
        i = i + 1;
    }
    proof {
        lemma_same_members(members.entries@, entries@);
        assert(ordmap::entry_keys(entries@) =~= ordmap::entry_keys(members.entries@));
    }
    let r = StringMap::from_sorted(entries);
    proof {
        ordmap::lemma_view(r);
    }
    r
}

proof fn lemma_same_members(a: Seq<(String, Json)>, b: Seq<(String, Json)>)
    requires
        a.len() == b.len(),
        forall|k: int|
            0 <= k < a.len() ==> (#[trigger] b[k]).0@ == a[k].0@ && model(b[k].1) == model(a[k].1),
    ensures
        map_models(ordmap::entry_map(a)) =~= map_models(ordmap::entry_map(b)),
    decreases a.len(),
{
    broadcast use group_json;

    if a.len() > 0 {
        lemma_same_members(a.drop_last(), b.drop_last());
        assert(b.last().0@ == a.last().0@);
        lemma_member_models(a);
        lemma_member_models(b);
        lemma_member_models(a.drop_last());
        lemma_member_models(b.drop_last());
    }
}

/// An object without members.
pub fn no_members() -> (r: StringMap<Json>)
    ensures
        map_models(r@) == Map::<Seq<char>, JsonModel>::empty(),
{
    let r: StringMap<Json> = StringMap::new();
    assert(map_models(r@) =~= Map::<Seq<char>, JsonModel>::empty());
    r
}

/// An object with one more member.
pub fn with_member(members: StringMap<Json>, name: &str, v: Json) -> (r: StringMap<Json>)
    ensures
        map_models(r@) == map_models(members@).insert(name@, v@),
{
    let mut r = members;
    r.insert(name.to_owned(), v);
    assert(map_models(r@) =~= map_models(members@).insert(name@, v@));
    r
}

/// The object with the members.
pub fn object(members: StringMap<Json>) -> (r: Json)
    ensures
        r@ == JsonModel::Object(map_models(members@)),
{
    broadcast use group_json;

    Json::Object(members)
}

/// An object without members, as it is said.
pub open spec fn nothing() -> Map<Seq<char>, JsonModel> {
    Map::empty()
}

} // verus!
