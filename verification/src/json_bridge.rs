//! JSON values of `serde_json`, and JMESPath queries on them.
use crate::json::{Float, Json, JsonModel, Number, NumberModel};
use crate::json;
use crate::ordmap::StringMap;
use crate::ordmap;
use crate::text;
use vstd::prelude::*;
use vstd::string::*;

verus! {

/// `serde_json::Value`.
#[verifier::external_type_specification]
#[verifier::external_body]
pub struct ExSerdeValue(serde_json::Value);

/// What a value of `serde_json` holds.
pub uninterp spec fn serde_model(v: serde_json::Value) -> JsonModel;

/// How `serde_json` writes the floating-point number that `raw` stands for,
/// where `raw` is a finite one.
pub uninterp spec fn float_text(raw: Seq<char>) -> Option<Seq<char>>;

/// How `serde_json` writes a value in one line, where it can.
pub uninterp spec fn compact_text(v: JsonModel) -> Option<Seq<char>>;

/// What `serde_json` reads from bytes, or its complaint.
pub uninterp spec fn parsed_bytes(bytes: Seq<u8>) -> Result<JsonModel, Seq<char>>;

/// The value that a JSON pointer leads to.
pub uninterp spec fn pointed(root: JsonModel, pointer: Seq<char>) -> Option<JsonModel>;

/// What each value of a list holds.
pub open spec fn serde_models(items: Seq<serde_json::Value>) -> Seq<JsonModel> {
    items.map_values(|v: serde_json::Value| serde_model(v))
}

/// What the values of a map hold.
pub open spec fn serde_map(m: Map<Seq<char>, serde_json::Value>) -> Map<Seq<char>, JsonModel> {
    m.map_values(|v: serde_json::Value| serde_model(v))
}

/// What a number says, written with a point or an exponent.
pub open spec fn float_model(t: Seq<char>) -> JsonModel {
    JsonModel::Number(NumberModel::Float(t))
}

/// What a whole number says.
pub open spec fn integer_model(n: int) -> JsonModel {
    JsonModel::Number(NumberModel::Integer(n))
}

/// `Value::Null` of `serde_json`.
#[verifier::external_body]
pub(crate) fn null_value() -> (r: serde_json::Value)
    ensures
        serde_model(r) == JsonModel::Null,
{
    serde_json::Value::Null
}

/// `Value::Bool` of `serde_json`.
#[verifier::external_body]
pub(crate) fn bool_value(b: bool) -> (r: serde_json::Value)
    ensures
        serde_model(r) == JsonModel::Bool(b),
{
    serde_json::Value::Bool(b)
}

/// `Value::from` of `serde_json` for `u64`.
#[verifier::external_body]
pub(crate) fn unsigned_value(n: u64) -> (r: serde_json::Value)
    ensures
        serde_model(r) == integer_model(n as int),
{
    serde_json::Value::from(n)
}

/// `Value::from` of `serde_json` for `i64`.
#[verifier::external_body]
pub(crate) fn signed_value(n: i64) -> (r: serde_json::Value)
    ensures
        serde_model(r) == integer_model(n as int),
{
    serde_json::Value::from(n)
}

/// `str::parse` of std to a floating-point number and `Number::from_f64` of
/// `serde_json`: whether the text is a finite number, and how `serde_json`
/// writes it, is a function of the text.
#[verifier::external_body]
pub(crate) fn float_value(raw: &str) -> (r: Option<serde_json::Value>)
    ensures
        match r {
            Some(v) => float_text(raw@) matches Some(t) && serde_model(v) == float_model(t),
            None => float_text(raw@) is None,
        },
{
    Some(serde_json::Value::Number(serde_json::Number::from_f64(raw.parse().ok()?)?))
}

/// `Value::String` of `serde_json`.
#[verifier::external_body]
pub(crate) fn text_value(s: &str) -> (r: serde_json::Value)
    ensures
        serde_model(r) == JsonModel::Text(s@),
{
    serde_json::Value::String(s.to_owned())
}

/// `Value::Array` of `serde_json`.
#[verifier::external_body]
pub(crate) fn list_value(items: Vec<serde_json::Value>) -> (r: serde_json::Value)
    ensures
        serde_model(r) == JsonModel::Array(serde_models(items@)),
{
    serde_json::Value::Array(items)
}

/// `Value::Object` of `serde_json` with an empty `Map`.
#[verifier::external_body]
pub(crate) fn empty_object() -> (r: serde_json::Value)
    ensures
        serde_model(r) is Object,
        serde_model(r)->Object_0.dom() == Set::<Seq<char>>::empty(),
{
    serde_json::Value::Object(serde_json::Map::new())
}

/// `Map::insert` of `serde_json` in an object: the member is there with the
/// value given, in place of the one it had.
#[verifier::external_body]
pub(crate) fn put_member(object: &mut serde_json::Value, name: &str, v: serde_json::Value)
    requires
        serde_model(*old(object)) is Object,
    ensures
        serde_model(*final(object)) == JsonModel::Object(
            serde_model(*old(object))->Object_0.insert(name@, serde_model(v)),
        ),
{
    if let serde_json::Value::Object(members) = object {
        members.insert(name.to_owned(), v);
    }
}

/// The forms of a JSON value.
pub enum Opened {
    /// `null`.
    Null,
    /// `true` or `false`.
    Bool(bool),
    /// A number.
    Number,
    /// A string.
    Text(String),
    /// A list.
    Array(Vec<serde_json::Value>),
    /// The names of an object and their values.
    Object(Vec<(String, serde_json::Value)>),
}

/// `o` is the form of a value that holds `m`.
pub open spec fn opens(o: Opened, m: JsonModel) -> bool {
    match o {
        Opened::Null => m is Null,
        Opened::Bool(b) => m == JsonModel::Bool(b),
        Opened::Number => m is Number,
        Opened::Text(s) => m == JsonModel::Text(s@),
        Opened::Array(items) => m == JsonModel::Array(serde_models(items@)),
        Opened::Object(members) => {
            &&& m == JsonModel::Object(serde_map(ordmap::entry_map(members@)))
            &&& ordmap::keys_sorted(ordmap::entry_keys(members@))
        },
    }
}

/// The variants of `serde_json::Value`, told apart and taken by value. An
/// object gives its members in the order of their names, as `Map` is a
/// `BTreeMap`.
#[verifier::external_body]
pub(crate) fn open_value(v: serde_json::Value) -> (r: Opened)
    ensures
        opens(r, serde_model(v)),
{
    match v {
        serde_json::Value::Null => Opened::Null,
        serde_json::Value::Bool(b) => Opened::Bool(b),
        serde_json::Value::Number(_) => Opened::Number,
        serde_json::Value::String(s) => Opened::Text(s),
        serde_json::Value::Array(items) => Opened::Array(items),
        serde_json::Value::Object(members) => Opened::Object(members.into_iter().collect()),
    }
}

/// `Value::as_u64` of `serde_json`: the number, where it is a whole one that
/// fits.
#[verifier::external_body]
pub(crate) fn as_unsigned(v: &serde_json::Value) -> (r: Option<u64>)
    ensures
        match r {
            Some(n) => serde_model(*v) == integer_model(n as int),
            None => forall|n: u64| serde_model(*v) != #[trigger] integer_model(n as int),
        },
{
    v.as_u64()
}

/// `Value::as_i64` of `serde_json`: the number, where it is a whole one that
/// fits. A number that is neither of these is a floating-point number.
#[verifier::external_body]
pub(crate) fn as_signed(v: &serde_json::Value) -> (r: Option<i64>)
    ensures
        match r {
            Some(n) => serde_model(*v) == integer_model(n as int),
            None => forall|n: int|
                serde_model(*v) == #[trigger] integer_model(n) ==> i64::MAX < n <= u64::MAX,
        },
{
    v.as_i64()
}

/// `Value::to_string` of `serde_json` on a number: a floating-point number is
/// written by the text that reads back as itself.
#[verifier::external_body]
pub(crate) fn number_text(v: &serde_json::Value) -> (r: String)
    ensures
        serde_model(*v) is Number && serde_model(*v)->Number_0 is Float ==> {
            &&& serde_model(*v) == float_model(r@)
            &&& float_text(r@) == Some(r@)
        },
{
    v.to_string()
}

/// `to_string` of `serde_json`: the text is a function of what the value
/// holds. It is one line, as nothing stands between the parts of a value and
/// strings have their line feeds escaped.
#[verifier::external_body]
pub(crate) fn value_text(v: &serde_json::Value) -> (r: Option<String>)
    ensures
        match r {
            Some(t) => compact_text(serde_model(*v)) == Some(t@) && !t@.contains('\n'),
            None => compact_text(serde_model(*v)) is None,
        },
{
    serde_json::to_string(v).ok()
}

/// `from_slice` of `serde_json`: what is read, or the complaint, is a function
/// of the bytes.
#[verifier::external_body]
pub(crate) fn read_value(bytes: &[u8]) -> (r: Result<serde_json::Value, String>)
    ensures
        match r {
            Ok(v) => parsed_bytes(bytes@) == Ok::<JsonModel, Seq<char>>(serde_model(v)),
            Err(e) => parsed_bytes(bytes@) == Err::<JsonModel, Seq<char>>(e@),
        },
{
    serde_json::from_slice(bytes).map_err(|e| e.to_string())
}

/// `Value::pointer` of `serde_json`: the value found is a function of what the
/// root holds and of the pointer.
#[verifier::external_body]
pub(crate) fn value_at(root: &serde_json::Value, pointer: &str) -> (r: Option<serde_json::Value>)
    ensures
        match r {
            Some(v) => pointed(serde_model(*root), pointer@) == Some(serde_model(v)),
            None => pointed(serde_model(*root), pointer@) is None,
        },
{
    root.pointer(pointer).cloned()
}

/// The value of `serde_json` that holds what `v` says.
pub fn to_serde(v: &Json) -> (r: serde_json::Value)
    ensures
        serde_model(r) == v@,
    decreases v,
{
    broadcast use json::group_json;

    match v {
        Json::Null => null_value(),
        Json::Bool(b) => bool_value(*b),
        Json::Number(n) => match n {
            Number::Unsigned(u) => unsigned_value(*u),
            Number::Signed(i) => signed_value(*i),
            Number::Float(f) => {
                let t = f.text();
                match float_value(t) {
                    Some(r) => r,
                    None => null_value(),
                }
            },
        },
        Json::Text(s) => text_value(s.as_str()),
        Json::Array(items) => list_to_serde(items),
        Json::Object(members) => members_to_serde(members),
    }
}

fn list_to_serde(items: &Vec<Json>) -> (r: serde_json::Value)
    ensures
        serde_model(r) == JsonModel::Array(json::models(items@)),
    decreases items,
{
    broadcast use json::group_json;

    let mut values: Vec<serde_json::Value> = Vec::new();
    let mut i: usize = 0;
    while i < items.len()
        invariant
            i <= items@.len(),
            values@.len() == i,
            forall|k: int| 0 <= k < i ==> serde_model(#[trigger] values@[k]) == items@[k]@,
        decreases items@.len() - i,
    {
        let v = to_serde(&items[i]);
        values.push(v);
        i = i + 1;
    }
    assert(serde_models(values@) =~= json::models(items@));
    list_value(values)
}

fn members_to_serde(members: &StringMap<Json>) -> (r: serde_json::Value)
    ensures
        serde_model(r) == JsonModel::Object(json::map_models(members@)),
    decreases members,
{
    broadcast use json::group_json;

    let mut object = empty_object();
    let mut i: usize = 0;
    proof {
        ordmap::lemma_view(*members);
        assert(members.entries@.take(0) =~= Seq::empty());
        assert(serde_model(object)->Object_0 =~= json::map_models(
            ordmap::entry_map(members.entries@.take(0)),
        ));
    }
    while i < members.entries.len()
        invariant
            i <= members.entries@.len(),
            serde_model(object) == JsonModel::Object(
                json::map_models(ordmap::entry_map(members.entries@.take(i as int))),
            ),
        decreases members.entries@.len() - i,
    {
        let v = to_serde(&members.entries[i].1);
        put_member(&mut object, members.entries[i].0.as_str(), v);
        proof {
            let before = members.entries@.take(i as int);
            let after = members.entries@.take(i + 1);
            assert(after.drop_last() =~= before);
            assert(json::map_models(ordmap::entry_map(after)) =~= json::map_models(
                ordmap::entry_map(before),
            ).insert(members.entries@[i as int].0@, members.entries@[i as int].1@));
        }
        i = i + 1;
    }
    proof {
        assert(members.entries@.take(i as int) =~= members.entries@);
    }
    object
}

/// The values of a map of entries are no larger than the map.
proof fn lemma_entry_value(members: Seq<(String, serde_json::Value)>, i: int)
    requires
        ordmap::keys_sorted(ordmap::entry_keys(members)),
        0 <= i < members.len(),
    ensures
        ({
            let m = serde_map(ordmap::entry_map(members));
            &&& m.dom().finite()
            &&& m.dom().contains(members[i].0@)
            &&& m[members[i].0@] == serde_model(members[i].1)
        }),
{
    ordmap::lemma_entry_map_value(members, i);
    ordmap::lemma_entry_map_finite(members);
    let m = ordmap::entry_map(members);
    assert(serde_map(m).dom() =~= m.dom());
}

/// What the value of `serde_json` holds.
pub fn from_serde(v: serde_json::Value) -> (r: Json)
    ensures
        r@ == serde_model(v),
    decreases serde_model(v), 1nat,
{
    broadcast use json::group_json;

    let unsigned: Option<u64> = as_unsigned(&v);
    let signed: Option<i64> = as_signed(&v);
    let text = number_text(&v);
    let ghost m = serde_model(v);
    match open_value(v) {
        Opened::Null => Json::Null,
        Opened::Bool(b) => Json::Bool(b),
        Opened::Number => {
            match unsigned {
                Some(u) => Json::Number(Number::Unsigned(u)),
                None => match signed {
                    Some(i) => Json::Number(Number::Signed(i)),
                    None => {
                        proof {
                            if m->Number_0 is Integer {
                                let n = m->Number_0->Integer_0;
                                assert(m == integer_model(n));
                                assert(m == integer_model((n as u64) as int));
                            }
                        }
                        match Float::parse(text.as_str()) {
                            Some(f) => Json::Number(Number::Float(f)),
                            None => Json::Null,
                        }
                    },
                },
            }
        },
        Opened::Text(s) => Json::Text(s),
        Opened::Array(items) => {
            let r = list_from_serde(items);
            Json::Array(r)
        },
        Opened::Object(members) => {
            let r = members_from_serde(members);
            Json::Object(r)
        },
    }
}

fn list_from_serde(values: Vec<serde_json::Value>) -> (r: Vec<Json>)
    ensures
        json::models(r@) == serde_models(values@),
    decreases JsonModel::Array(serde_models(values@)), 0nat,
{
    broadcast use json::group_json;

    let mut items = values;
    let ghost all = items@;
    let mut back: Vec<Json> = Vec::new();
    while items.len() > 0
        invariant
            all == values@,
            items@ =~= all.take(items@.len() as int),
            items@.len() + back@.len() == all.len(),
            forall|k: int|
                0 <= k < back@.len() ==> (#[trigger] back@[k])@ == serde_model(
                    all[all.len() - 1 - k],
                ),
        decreases items@.len(),
    {
        let ghost at = items@.len() - 1;
        match items.pop() {
            Some(v) => {
                proof {
                    let whole = JsonModel::Array(serde_models(all));
                    assert(serde_models(all)[at] == serde_model(v));
                    assert(decreases_to!(whole => whole->Array_0));
                    assert(decreases_to!(serde_models(all) => serde_models(all)[at]));
                }
                let j = from_serde(v);
                back.push(j);
            },
            None => {},
        }
    }
    let mut r: Vec<Json> = Vec::new();
    while back.len() > 0
        invariant
            back@.len() + r@.len() == all.len(),
            forall|k: int|
                0 <= k < back@.len() ==> (#[trigger] back@[k])@ == serde_model(
                    all[all.len() - 1 - k],
                ),
            forall|k: int| 0 <= k < r@.len() ==> (#[trigger] r@[k])@ == serde_model(all[k]),
        decreases back@.len(),
    {
        match back.pop() {
            Some(j) => r.push(j),
            None => {},
        }
    }
    assert(json::models(r@) =~= serde_models(all));
    r
}

fn members_from_serde(values: Vec<(String, serde_json::Value)>) -> (r: StringMap<Json>)
    requires
        ordmap::keys_sorted(ordmap::entry_keys(values@)),
    ensures
        json::map_models(r@) == serde_map(ordmap::entry_map(values@)),
    decreases JsonModel::Object(serde_map(ordmap::entry_map(values@))), 0nat,
{
    broadcast use json::group_json;

    let mut members = values;
    let ghost all = members@;
    let ghost m = serde_map(ordmap::entry_map(all));
    let mut r: StringMap<Json> = StringMap::new();
    proof {
        assert(json::map_models(r@) =~= serde_map(ordmap::entry_map(all.skip(all.len() as int))));
    }
    while members.len() > 0
        invariant
            ordmap::keys_sorted(ordmap::entry_keys(all)),
            all == values@,
            m == serde_map(ordmap::entry_map(all)),
            members@ =~= all.take(members@.len() as int),
            members@.len() <= all.len(),
            forall|k: Seq<char>|
                #![trigger r@.dom().contains(k)]
                r@.dom().contains(k) ==> m.dom().contains(k) && r@[k]@ == m[k],
            forall|i: int|
                members@.len() <= i < all.len() ==> r@.dom().contains((#[trigger] all[i]).0@),
        decreases members@.len(),
    {
        let ghost at = members@.len() - 1;
        match members.pop() {
            Some((k, v)) => {
                proof {
                    let whole = JsonModel::Object(m);
                    lemma_entry_value(all, at);
                    assert(decreases_to!(whole => whole->Object_0));
                    assert(decreases_to!(m => m[all[at].0@]));
                }
                let j = from_serde(v);
                r.insert(k, j);
            },
            None => {},
        }
    }
    proof {
        assert forall|k: Seq<char>| m.dom().contains(k) implies r@.dom().contains(k) by {
            ordmap::lemma_entry_map_dom(all, k);
            let keys = ordmap::entry_keys(all);
            let i = choose|i: int| 0 <= i < keys.len() && keys[i] == k;
            assert(all[i].0@ == k);
        }
        assert(json::map_models(r@) =~= m);
    }
    r
}

} // verus!
