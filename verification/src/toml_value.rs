//! TOML values as plain data, and reading them with `toml`.
use crate::ordmap::{Duplicate, StringMap};
use crate::ordmap;
use crate::text;
use vstd::prelude::*;
use vstd::string::*;

verus! {

/// `toml`'s value.
#[verifier::external_type_specification]
#[verifier::external_body]
pub struct ExTomlValue(toml::Value);

/// A TOML value. The entries of a table stand in the order of their keys.
pub enum Toml {
    /// A string.
    Text(String),
    /// A whole number.
    Integer(i64),
    /// `true` or `false`.
    Boolean(bool),
    /// A floating-point number or a time, as `toml` writes it.
    Literal(String),
    /// A list.
    List(Vec<Toml>),
    /// Keys and their values.
    Table(StringMap<Toml>),
}

/// What a TOML value says.
pub enum TomlView {
    /// A string.
    Text(Seq<char>),
    /// A whole number.
    Integer(i64),
    /// `true` or `false`.
    Boolean(bool),
    /// A floating-point number or a time, as `toml` writes it.
    Literal(Seq<char>),
    /// A list.
    List(Seq<TomlView>),
    /// Keys and their values.
    Table(Map<Seq<char>, TomlView>),
}

/// What a value says.
pub closed spec fn says(v: Toml) -> TomlView
    decreases v,
{
    match v {
        Toml::Text(s) => TomlView::Text(s@),
        Toml::Integer(n) => TomlView::Integer(n),
        Toml::Boolean(b) => TomlView::Boolean(b),
        Toml::Literal(s) => TomlView::Literal(s@),
        Toml::List(items) => TomlView::List(list_says(items@)),
        Toml::Table(entries) => TomlView::Table(entries_say(entries.entries@)),
    }
}

/// What each value of a list says.
pub closed spec fn list_says(items: Seq<Toml>) -> Seq<TomlView>
    decreases items,
{
    if items.len() == 0 {
        Seq::empty()
    } else {
        list_says(items.drop_last()).push(says(items.last()))
    }
}

closed spec fn entries_say(entries: Seq<(String, Toml)>) -> Map<Seq<char>, TomlView>
    decreases entries,
{
    if entries.len() == 0 {
        Map::empty()
    } else {
        entries_say(entries.drop_last()).insert(entries.last().0@, says(entries.last().1))
    }
}

/// What a map of values says.
pub open spec fn table_says(m: Map<Seq<char>, Toml>) -> Map<Seq<char>, TomlView> {
    m.map_values(|v: Toml| says(v))
}

proof fn lemma_entries_say(entries: Seq<(String, Toml)>)
    ensures
        entries_say(entries) =~= table_says(ordmap::entry_map(entries)),
    decreases entries.len(),
{
    if entries.len() > 0 {
        lemma_entries_say(entries.drop_last());
    }
}

/// What the values of a list say, one by one.
pub proof fn lemma_list_says(items: Seq<Toml>)
    ensures
        list_says(items).len() == items.len(),
        forall|i: int| 0 <= i < items.len() ==> #[trigger] list_says(items)[i] == says(items[i]),
    decreases items.len(),
{
    if items.len() > 0 {
        lemma_list_says(items.drop_last());
    }
}

/// What a value says, by its form.
pub broadcast proof fn lemma_says(v: Toml)
    ensures
        #[trigger] says(v) == (match v {
            Toml::Text(s) => TomlView::Text(s@),
            Toml::Integer(n) => TomlView::Integer(n),
            Toml::Boolean(b) => TomlView::Boolean(b),
            Toml::Literal(s) => TomlView::Literal(s@),
            Toml::List(items) => TomlView::List(list_says(items@)),
            Toml::Table(entries) => TomlView::Table(table_says(entries@)),
        }),
{
    if let Toml::Table(entries) = v {
        ordmap::lemma_view(entries);
        lemma_entries_say(entries.entries@);
    }
}

impl View for Toml {
    type V = TomlView;

    open spec fn view(&self) -> TomlView {
        says(*self)
    }
}

impl Duplicate for Toml {
    open spec fn says_same(self, other: Self) -> bool {
        self@ == other@
    }

    fn duplicate(&self) -> (r: Self)
        decreases self,
    {
        broadcast use lemma_says;

        match self {
            Toml::Text(s) => Toml::Text(s.clone()),
            Toml::Integer(n) => Toml::Integer(*n),
            Toml::Boolean(b) => Toml::Boolean(*b),
            Toml::Literal(s) => Toml::Literal(s.clone()),
            Toml::List(items) => Toml::List(copy_list(items)),
            Toml::Table(entries) => Toml::Table(copy_table(entries)),
        }
    }
}

/// Copies a list.
fn copy_list(items: &Vec<Toml>) -> (r: Vec<Toml>)
    ensures
        list_says(r@) == list_says(items@),
    decreases items,
{
    let mut r: Vec<Toml> = Vec::new();
    let mut i: usize = 0;
    while i < items.len()
        invariant
            i <= items@.len(),
            r@.len() == i,
            forall|k: int| 0 <= k < i ==> (#[trigger] r@[k])@ == items@[k]@,
        decreases items@.len() - i,
    {
        r.push(items[i].duplicate());
        i = i + 1;
    }
    proof {
        lemma_list_says(r@);
        lemma_list_says(items@);
        assert(list_says(r@) =~= list_says(items@));
    }
    r
}

/// Copies a table.
pub fn copy_table(entries: &StringMap<Toml>) -> (r: StringMap<Toml>)
    ensures
        table_says(r@) == table_says(entries@),
    decreases entries,
{
    let mut r: StringMap<Toml> = StringMap::new();
    let mut i: usize = 0;
    proof {
        ordmap::lemma_view(*entries);
        assert(entries.entries@.take(0) =~= Seq::empty());
        assert(table_says(r@) =~= table_says(ordmap::entry_map(entries.entries@.take(0))));
    }
    while i < entries.entries.len()
        invariant
            i <= entries.entries@.len(),
            table_says(r@) == table_says(ordmap::entry_map(entries.entries@.take(i as int))),
        decreases entries.entries@.len() - i,
    {
        let ghost sofar = r@;
        let v = entries.entries[i].1.duplicate();
        r.insert(entries.entries[i].0.clone(), v);
        proof {
            let before = entries.entries@.take(i as int);
            let after = entries.entries@.take(i + 1);
            assert(after.drop_last() =~= before);
            assert(table_says(ordmap::entry_map(after)) =~= table_says(
                ordmap::entry_map(before),
            ).insert(entries.entries@[i as int].0@, entries.entries@[i as int].1@));
            assert(table_says(r@) =~= table_says(sofar).insert(
                entries.entries@[i as int].0@,
                v@,
            ));
        }
        i = i + 1;
    }
    proof {
        assert(entries.entries@.take(i as int) =~= entries.entries@);
    }
    r
}

impl Toml {
    /// The value of a string.
    pub fn from_text(s: &str) -> (r: Toml)
        ensures
            r@ == TomlView::Text(s@),
    {
        broadcast use lemma_says;

        Toml::Text(s.to_owned())
    }

    /// The list of strings.
    pub fn from_list(items: &Vec<String>) -> (r: Toml)
        ensures
            r@ == text_list(text::texts(items@)),
    {
        broadcast use lemma_says;

        let mut list: Vec<Toml> = Vec::new();
        let mut i: usize = 0;
        while i < items.len()
            invariant
                i <= items@.len(),
                list@.len() == i,
                forall|k: int|
                    0 <= k < i ==> (#[trigger] list@[k])@ == TomlView::Text(items@[k]@),
            decreases items@.len() - i,
        {
            list.push(Toml::from_text(items[i].as_str()));
            i = i + 1;
        }
        proof {
            lemma_list_says(list@);
            assert(list_says(list@) =~= text::texts(items@).map_values(
                |t: Seq<char>| TomlView::Text(t),
            ));
        }
        Toml::List(list)
    }

    /// What a string says.
    pub fn as_str(&self) -> (r: Option<&str>)
        ensures
            match r {
                Some(s) => self@ == TomlView::Text(s@),
                None => !(self@ is Text),
            },
    {
        broadcast use lemma_says;

        match self {
            Toml::Text(s) => Some(s.as_str()),
            _ => None,
        }
    }

    /// The entries of a table.
    pub fn as_table(&self) -> (r: Option<&StringMap<Toml>>)
        ensures
            match r {
                Some(t) => self@ == TomlView::Table(table_says(t@)),
                None => !(self@ is Table),
            },
    {
        broadcast use lemma_says;

        match self {
            Toml::Table(entries) => Some(entries),
            _ => None,
        }
    }

    /// The strings of a list that holds nothing else.
    pub fn as_texts(&self) -> (r: Option<Vec<String>>)
        ensures
            match r {
                Some(items) => self@ == text_list(text::texts(items@)),
                None => forall|items: Seq<Seq<char>>| self@ != #[trigger] text_list(items),
            },
    {
        broadcast use lemma_says;

        match self {
            Toml::List(items) => {
                let mut r: Vec<String> = Vec::new();
                let mut i: usize = 0;
                while i < items.len()
                    invariant
                        i <= items@.len(),
                        r@.len() == i,
                        self@ == TomlView::List(list_says(items@)),
                        forall|k: int|
                            0 <= k < i ==> says(items@[k]) == TomlView::Text((#[trigger] r@[k])@),
                    decreases items@.len() - i,
                {
                    match items[i].as_str() {
                        Some(s) => {
                            r.push(s.to_owned());
                        },
                        None => {
                            proof {
                                lemma_list_says(items@);
                                assert forall|list: Seq<Seq<char>>| self@ != #[trigger] text_list(
                                    list,
                                ) by {
                                    if self@ == text_list(list) {
                                        assert(list_says(items@)[i as int] == TomlView::Text(
                                            list[i as int],
                                        ));
                                    }
                                }
                            }
                            return None;
                        },
                    }
                    i = i + 1;
                }
                proof {
                    lemma_list_says(items@);
                    assert(list_says(items@) =~= text::texts(r@).map_values(
                        |t: Seq<char>| TomlView::Text(t),
                    ));
                }
                Some(r)
            },
            _ => None,
        }
    }
}

/// The list of strings.
pub open spec fn text_list(items: Seq<Seq<char>>) -> TomlView {
    TomlView::List(items.map_values(|t: Seq<char>| TomlView::Text(t)))
}

/// What a value of `toml` holds.
pub uninterp spec fn toml_view(v: toml::Value) -> TomlView;

/// What `toml` reads from a text, or its complaint.
pub uninterp spec fn read_outcome(contents: Seq<char>) -> Result<TomlView, Seq<char>>;

/// What each value of a list holds.
pub open spec fn toml_views(items: Seq<toml::Value>) -> Seq<TomlView> {
    items.map_values(|v: toml::Value| toml_view(v))
}

/// What the values of a map hold.
pub open spec fn toml_map(m: Map<Seq<char>, toml::Value>) -> Map<Seq<char>, TomlView> {
    m.map_values(|v: toml::Value| toml_view(v))
}

/// `from_str` of `toml` for a table: what is read, or the complaint, is a
/// function of the text.
#[verifier::external_body]
pub(crate) fn read_table(contents: &str) -> (r: Result<toml::Value, String>)
    ensures
        match r {
            Ok(v) => read_outcome(contents@) == Ok::<TomlView, Seq<char>>(toml_view(v))
                && toml_view(v) is Table,
            Err(e) => read_outcome(contents@) == Err::<TomlView, Seq<char>>(e@),
        },
{
    toml::from_str::<toml::Table>(contents).map(toml::Value::Table).map_err(|e| e.to_string())
}

/// The forms of a TOML value.
pub enum TomlForm {
    /// A string.
    Text(String),
    /// A whole number.
    Integer(i64),
    /// `true` or `false`.
    Boolean(bool),
    /// A floating-point number or a time, as `toml` writes it.
    Literal(String),
    /// A list.
    List(Vec<toml::Value>),
    /// The keys of a table and their values.
    Table(Vec<(String, toml::Value)>),
}

/// `f` is the form of a value that holds `v`.
pub open spec fn has_form(f: TomlForm, v: TomlView) -> bool {
    match f {
        TomlForm::Text(s) => v == TomlView::Text(s@),
        TomlForm::Integer(n) => v == TomlView::Integer(n),
        TomlForm::Boolean(b) => v == TomlView::Boolean(b),
        TomlForm::Literal(s) => v == TomlView::Literal(s@),
        TomlForm::List(items) => v == TomlView::List(toml_views(items@)),
        TomlForm::Table(entries) => {
            &&& v == TomlView::Table(toml_map(ordmap::entry_map(entries@)))
            &&& ordmap::keys_sorted(ordmap::entry_keys(entries@))
        },
    }
}

/// The variants of `toml::Value`, told apart and taken by value. A number with a
/// point is given as `Value::to_string` writes it, a time as
/// `Datetime::to_string` does. A table gives its entries in the order of their
/// keys, as `Table` is a `BTreeMap`.
#[verifier::external_body]
pub(crate) fn open_toml(v: toml::Value) -> (r: TomlForm)
    ensures
        has_form(r, toml_view(v)),
{
    match v {
        toml::Value::String(s) => TomlForm::Text(s),
        toml::Value::Integer(n) => TomlForm::Integer(n),
        toml::Value::Boolean(b) => TomlForm::Boolean(b),
        toml::Value::Float(_) => TomlForm::Literal(v.to_string()),
        toml::Value::Datetime(d) => TomlForm::Literal(d.to_string()),
        toml::Value::Array(items) => TomlForm::List(items),
        toml::Value::Table(entries) => TomlForm::Table(entries.into_iter().collect()),
    }
}

/// The values of a map of entries are no larger than the map.
proof fn lemma_entry_value(entries: Seq<(String, toml::Value)>, i: int)
    requires
        ordmap::keys_sorted(ordmap::entry_keys(entries)),
        0 <= i < entries.len(),
    ensures
        ({
            let m = toml_map(ordmap::entry_map(entries));
            &&& m.dom().finite()
            &&& m.dom().contains(entries[i].0@)
            &&& m[entries[i].0@] == toml_view(entries[i].1)
        }),
{
    ordmap::lemma_entry_map_value(entries, i);
    ordmap::lemma_entry_map_finite(entries);
    let m = ordmap::entry_map(entries);
    assert(toml_map(m).dom() =~= m.dom());
}

/// What the value of `toml` holds.
fn from_toml(v: toml::Value) -> (r: Toml)
    ensures
        r@ == toml_view(v),
    decreases toml_view(v), 1nat,
{
    broadcast use lemma_says;

    match open_toml(v) {
        TomlForm::Text(s) => Toml::Text(s),
        TomlForm::Integer(n) => Toml::Integer(n),
        TomlForm::Boolean(b) => Toml::Boolean(b),
        TomlForm::Literal(s) => Toml::Literal(s),
        TomlForm::List(items) => Toml::List(list_from_toml(items)),
        TomlForm::Table(entries) => Toml::Table(table_from_toml(entries)),
    }
}

fn list_from_toml(values: Vec<toml::Value>) -> (r: Vec<Toml>)
    ensures
        list_says(r@) == toml_views(values@),
    decreases TomlView::List(toml_views(values@)), 0nat,
{
    let mut items = values;
    let ghost all = items@;
    let mut back: Vec<Toml> = Vec::new();
    while items.len() > 0
        invariant
            all == values@,
            items@ =~= all.take(items@.len() as int),
            items@.len() + back@.len() == all.len(),
            forall|k: int|
                0 <= k < back@.len() ==> (#[trigger] back@[k])@ == toml_view(
                    all[all.len() - 1 - k],
                ),
        decreases items@.len(),
    {
        let ghost at = items@.len() - 1;
        match items.pop() {
            Some(v) => {
                proof {
                    let whole = TomlView::List(toml_views(all));
                    assert(toml_views(all)[at] == toml_view(v));
                    assert(decreases_to!(whole => whole->List_0));
                    assert(decreases_to!(toml_views(all) => toml_views(all)[at]));
                }
                let t = from_toml(v);
                back.push(t);
            },
            None => {},
        }
    }
    let mut r: Vec<Toml> = Vec::new();
    while back.len() > 0
        invariant
            back@.len() + r@.len() == all.len(),
            forall|k: int|
                0 <= k < back@.len() ==> (#[trigger] back@[k])@ == toml_view(
                    all[all.len() - 1 - k],
                ),
            forall|k: int| 0 <= k < r@.len() ==> (#[trigger] r@[k])@ == toml_view(all[k]),
        decreases back@.len(),
    {
        match back.pop() {
            Some(t) => r.push(t),
            None => {},
        }
    }
    proof {
        lemma_list_says(r@);
        assert(list_says(r@) =~= toml_views(all));
    }
    r
}

fn table_from_toml(values: Vec<(String, toml::Value)>) -> (r: StringMap<Toml>)
    requires
        ordmap::keys_sorted(ordmap::entry_keys(values@)),
    ensures
        table_says(r@) == toml_map(ordmap::entry_map(values@)),
    decreases TomlView::Table(toml_map(ordmap::entry_map(values@))), 0nat,
{
    let mut entries = values;
    let ghost all = entries@;
    let ghost m = toml_map(ordmap::entry_map(all));
    let mut r: StringMap<Toml> = StringMap::new();
    while entries.len() > 0
        invariant
            ordmap::keys_sorted(ordmap::entry_keys(all)),
            all == values@,
            m == toml_map(ordmap::entry_map(all)),
            entries@ =~= all.take(entries@.len() as int),
            entries@.len() <= all.len(),
            forall|k: Seq<char>|
                #![trigger r@.dom().contains(k)]
                r@.dom().contains(k) ==> m.dom().contains(k) && r@[k]@ == m[k],
            forall|i: int|
                entries@.len() <= i < all.len() ==> r@.dom().contains((#[trigger] all[i]).0@),
        decreases entries@.len(),
    {
        let ghost at = entries@.len() - 1;
        match entries.pop() {
            Some((k, v)) => {
                proof {
                    let whole = TomlView::Table(m);
                    lemma_entry_value(all, at);
                    assert(decreases_to!(whole => whole->Table_0));
                    assert(decreases_to!(m => m[all[at].0@]));
                }
                let t = from_toml(v);
                r.insert(k, t);
            },
            None => {},
        }
    }
    proof {
        assert forall|k: Seq<char>| m.dom().contains(k) implies r@.dom().contains(k) by {
            ordmap::lemma_entry_map_dom(all, k);
            let keys = ordmap::entry_keys(all);
            let i = choose|i: int| 0 <= i < keys.len() && keys[i] == k;
            assert(all[i].0@ == k);
        }
        assert(table_says(r@) =~= m);
    }
    r
}

/// What the top-level table of a TOML text says.
pub open spec fn parsed_table(contents: Seq<char>) -> Result<
    Map<Seq<char>, TomlView>,
    Seq<char>,
> {
    match read_outcome(contents) {
        Ok(v) => Ok(v->Table_0),
        Err(e) => Err(e),
    }
}

/// Reads a TOML text.
pub fn parse_toml(contents: &str) -> (r: Result<StringMap<Toml>, String>)
    ensures
        match r {
            Ok(t) => parsed_table(contents@) matches Ok(m) && table_says(t@) == m,
            Err(e) => parsed_table(contents@) matches Err(m) && e@ == m,
        },
{
    broadcast use lemma_says;

    match read_table(contents) {
        Ok(v) => match from_toml(v) {
            Toml::Table(t) => Ok(t),
            _ => Ok(StringMap::new()),
        },
        Err(e) => Err(e),
    }
}

} // verus!
