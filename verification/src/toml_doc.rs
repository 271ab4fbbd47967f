//! TOML documents: the calls into `toml_edit`, and what they do to the
//! contents of a document.
use crate::text;
use vstd::prelude::*;
use vstd::string::*;

verus! {

/// `toml_edit`'s document.
#[verifier::external_type_specification]
#[verifier::external_body]
pub struct ExDocument(toml_edit::DocumentMut);

/// `toml_edit`'s item: a table, a value, or an array of tables.
#[verifier::external_type_specification]
#[verifier::external_body]
pub struct ExItem(toml_edit::Item);

/// `toml_edit`'s table.
#[verifier::external_type_specification]
#[verifier::external_body]
pub struct ExTable(toml_edit::Table);

/// `toml_edit`'s value.
#[verifier::external_type_specification]
#[verifier::external_body]
pub struct ExValue(toml_edit::Value);

/// What an item holds, without its formatting.
pub enum TomlModel {
    /// An empty slot.
    Nothing,
    /// A table that stands under a header, of its own or of a table in it.
    Table(Map<Seq<char>, TomlModel>),
    /// A table that the dotted keys of another table's section make.
    Dotted(Map<Seq<char>, TomlModel>),
    /// An inline table, with the text that it is written as, without the white
    /// space around it.
    Inline(Map<Seq<char>, TomlModel>, Seq<char>),
    /// A string, by what it says.
    Text(Seq<char>),
    /// Any other value, by the text that it is written as, without the white
    /// space around it.
    Plain(Seq<char>),
    /// An array of tables.
    Tables,
}

/// What a document holds at its top level.
pub uninterp spec fn document_entries(doc: toml_edit::DocumentMut) -> Map<Seq<char>, TomlModel>;

/// What a table holds.
pub uninterp spec fn table_entries(table: toml_edit::Table) -> Map<Seq<char>, TomlModel>;

/// What an item holds.
pub uninterp spec fn item_model(item: toml_edit::Item) -> TomlModel;

/// What a value holds.
pub uninterp spec fn value_model(value: toml_edit::Value) -> TomlModel;

/// What the document holds that a text is parsed into, where it is TOML.
pub uninterp spec fn parsed_entries(contents: Seq<char>) -> Option<Map<Seq<char>, TomlModel>>;

/// The text of the TOML number that a floating-point literal of Rust stands
/// for, where the text is one.
pub uninterp spec fn float_literal(raw: Seq<char>) -> Option<Seq<char>>;

/// The text of a document, with its comments and formatting.
pub uninterp spec fn document_written(doc: toml_edit::DocumentMut) -> Seq<char>;

/// The text that `toml_edit` writes an item as.
pub uninterp spec fn item_display(item: toml_edit::Item) -> Seq<char>;

/// The text that the document parsed from a text is written as.
pub uninterp spec fn rewritten(contents: Seq<char>) -> Seq<char>;

/// The strings in a table that have no notation of their own yet.
pub uninterp spec fn fresh_in_table(table: toml_edit::Table) -> Set<Seq<char>>;

/// The strings in a document that have no notation of their own yet.
pub uninterp spec fn fresh_in_document(doc: toml_edit::DocumentMut) -> Set<Seq<char>>;

/// The strings in an item that have no notation of their own yet.
pub uninterp spec fn fresh_in_item(item: toml_edit::Item) -> Set<Seq<char>>;

/// The strings in a value that have no notation of their own yet.
pub uninterp spec fn fresh_in_value(value: toml_edit::Value) -> Set<Seq<char>>;

/// `toml_edit` counts quotation marks in a row up to this many less one when it
/// picks the notation of a string.
pub const QUOTE_LIMIT: usize = 256;

/// A text has too many equal quotation marks in a row for `toml_edit` to pick a
/// notation.
pub open spec fn has_quote_run(s: Seq<char>) -> bool {
    exists|i: int, c: char| #[trigger] is_quote_run(s, i, c)
}

/// From the place `i` on a text has too many of the quotation mark `c` in a row.
pub open spec fn is_quote_run(s: Seq<char>, i: int, c: char) -> bool {
    &&& c == '\'' || c == '"'
    &&& 0 <= i
    &&& i + QUOTE_LIMIT <= s.len()
    &&& forall|k: int| i <= k < i + QUOTE_LIMIT ==> #[trigger] s[k] == c
}

/// `toml_edit` can pick a notation for each of the strings.
pub open spec fn can_be_written(fresh: Set<Seq<char>>) -> bool {
    forall|s: Seq<char>| #[trigger] fresh.contains(s) ==> !has_quote_run(s)
}

/// `toml_edit` reads no path of this many keys or more.
pub const KEY_LIMIT: usize = 80;

/// The dotted keys of another table's section make the table.
pub uninterp spec fn is_dotted(table: toml_edit::Table) -> bool;

/// A table that stands `depth` keys below the root is as `toml_edit` parses it
/// or as insertions leave it: nothing in it is left out or garbled when the
/// document is written.
pub uninterp spec fn is_regular(table: toml_edit::Table, depth: nat) -> bool;

/// A document is as `toml_edit` parses it or as insertions leave it: it is read
/// back from the text that it is written as.
pub uninterp spec fn is_regular_document(doc: toml_edit::DocumentMut) -> bool;

/// A value has no formatting of its own.
pub uninterp spec fn is_bare(value: toml_edit::Value) -> bool;

/// The entry `key` of a table, standard or inline; an empty slot of a standard
/// table counts as no entry.
pub open spec fn entry_of(model: TomlModel, key: Seq<char>) -> Option<TomlModel> {
    match model {
        TomlModel::Table(entries) => filled(entries, key),
        TomlModel::Dotted(entries) => filled(entries, key),
        TomlModel::Inline(entries, _) => if entries.dom().contains(key) {
            Some(entries[key])
        } else {
            None
        },
        _ => None,
    }
}

/// The entry `key` of a map, unless its slot is empty.
pub open spec fn filled(entries: Map<Seq<char>, TomlModel>, key: Seq<char>) -> Option<TomlModel> {
    if entries.dom().contains(key) && !(entries[key] is Nothing) {
        Some(entries[key])
    } else {
        None
    }
}

/// What the standard table at `key` holds, nothing where there is no such
/// entry; `None` where the entry is something else.
pub open spec fn table_at(entries: Map<Seq<char>, TomlModel>, key: Seq<char>) -> Option<
    Map<Seq<char>, TomlModel>,
> {
    if entries.dom().contains(key) {
        match entries[key] {
            TomlModel::Table(inner) => Some(inner),
            TomlModel::Dotted(inner) => Some(inner),
            _ => None,
        }
    } else {
        Some(Map::empty())
    }
}

/// The entry `key` is a table that dotted keys make.
pub open spec fn dotted_at(entries: Map<Seq<char>, TomlModel>, key: Seq<char>) -> bool {
    entries.dom().contains(key) && entries[key] is Dotted
}

/// A table with these entries.
pub open spec fn table_of(dotted: bool, entries: Map<Seq<char>, TomlModel>) -> TomlModel {
    if dotted {
        TomlModel::Dotted(entries)
    } else {
        TomlModel::Table(entries)
    }
}

/// Tells whether a text has too many equal quotation marks in a row to be
/// written.
pub fn quote_run(s: &str) -> (r: bool)
    ensures
        r == has_quote_run(s@),
{
    let v = text::chars_of(s);
    let mut last = ' ';
    let mut n: usize = 0;
    let mut i: usize = 0;
    while i < v.len()
        invariant
            v@ == s@,
            i <= v@.len(),
            n <= i,
            n < QUOTE_LIMIT,
            n > 0 ==> last == '\'' || last == '"',
            forall|k: int| i - n <= k < i ==> #[trigger] v@[k] == last,
            0 < n < i ==> v@[i - n - 1] != last,
            n == 0 && i > 0 ==> v@[i - 1] != '\'' && v@[i - 1] != '"',
            forall|j: int, c: char| j + QUOTE_LIMIT <= i ==> !#[trigger] is_quote_run(s@, j, c),
        decreases v@.len() - i,
    {
        let c = v[i];
        let ghost before = n;
        if c == '\'' || c == '"' {
            if n > 0 && c == last {
                n = n + 1;
            } else {
                n = 1;
                last = c;
            }
        } else {
            n = 0;
        }
        i = i + 1;
        if n == QUOTE_LIMIT {
            assert(is_quote_run(s@, i - QUOTE_LIMIT, last));
            return true;
        }
        proof {
            assert forall|j: int, q: char| j + QUOTE_LIMIT <= i implies !#[trigger] is_quote_run(
                s@,
                j,
                q,
            ) by {
                if is_quote_run(s@, j, q) {
                    assert(j + QUOTE_LIMIT == i);
                    assert(s@[i - 1] == q);
                    assert(s@[i - n - 1] == q);
                }
            }
        }
    }
    proof {
        if has_quote_run(s@) {
            let (j, c) = choose|j: int, c: char| #[trigger] is_quote_run(s@, j, c);
            assert(!is_quote_run(s@, j, c));
        }
    }
    false
}

/// `DocumentMut::new` of `toml_edit`: a document that holds nothing, and is
/// written as nothing.
#[verifier::external_body]
pub(crate) fn new_document() -> (r: toml_edit::DocumentMut)
    ensures
        document_entries(r).dom() == Set::<Seq<char>>::empty(),
        document_written(r).len() == 0,
        is_regular_document(r),
        fresh_in_document(r) == Set::<Seq<char>>::empty(),
{
    toml_edit::DocumentMut::new()
}

/// `DocumentMut::from_str` of `toml_edit`: what the document holds, the text that
/// it is written as, and whether there is one, is a function of the text. Every
/// string of it keeps the notation that it has there.
#[verifier::external_body]
pub(crate) fn parse_document(contents: &str) -> (r: Option<toml_edit::DocumentMut>)
    ensures
        match r {
            Some(doc) => {
                &&& parsed_entries(contents@) == Some(document_entries(doc))
                &&& document_written(doc) == rewritten(contents@)
                &&& is_regular_document(doc)
                &&& fresh_in_document(doc) == Set::<Seq<char>>::empty()
            },
            None => parsed_entries(contents@) is None,
        },
{
    contents.parse::<toml_edit::DocumentMut>().ok()
}

/// `DocumentMut::as_item` of `toml_edit`: the top-level table as an item; the
/// root of a document is always a table.
#[verifier::external_body]
pub(crate) fn document_item(doc: &toml_edit::DocumentMut) -> (r: &toml_edit::Item)
    ensures
        item_model(*r) == TomlModel::Table(document_entries(*doc)),
        fresh_in_item(*r) == fresh_in_document(*doc),
{
    doc.as_item()
}

/// `Item::as_table_like` and `TableLike::get` of `toml_edit`: the entry `key`
/// of a standard or inline table; an empty slot of a standard table counts as
/// no entry.
#[verifier::external_body]
pub(crate) fn item_entry<'a>(item: &'a toml_edit::Item, key: &str) -> (r: Option<
    &'a toml_edit::Item,
>)
    ensures
        match r {
            Some(inner) => entry_of(item_model(*item), key@) == Some(item_model(*inner))
                && fresh_in_item(*inner).subset_of(fresh_in_item(*item)),
            None => entry_of(item_model(*item), key@) is None,
        },
{
    item.as_table_like()?.get(key)
}

/// `Item::as_str` of `toml_edit`: what the item says, where it is a string.
#[verifier::external_body]
pub(crate) fn string_text(item: &toml_edit::Item) -> (r: Option<String>)
    ensures
        match r {
            Some(t) => item_model(*item) == TomlModel::Text(t@),
            None => !(item_model(*item) is Text),
        },
{
    item.as_str().map(str::to_owned)
}

/// `Item::to_string` of `toml_edit`: the text of the item, with its formatting.
/// That of a value is what the value is written as, up to the white space around
/// it.
#[verifier::external_body]
pub(crate) fn item_text(item: &toml_edit::Item) -> (r: String)
    requires
        can_be_written(fresh_in_item(*item)),
    ensures
        r@ == item_display(*item),
        match item_model(*item) {
            TomlModel::Plain(t) => text::trim_spec(r@) == t,
            TomlModel::Inline(_, t) => text::trim_spec(r@) == t,
            _ => true,
        },
{
    item.to_string()
}

/// `Item::is_value` of `toml_edit`: whether the item is a value, inline tables
/// included.
#[verifier::external_body]
pub(crate) fn is_value(item: &toml_edit::Item) -> (r: bool)
    ensures
        r == (item_model(*item) is Text || item_model(*item) is Plain || item_model(
            *item,
        ) is Inline),
{
    item.is_value()
}

/// `DocumentMut::as_table_mut` of `toml_edit`: the top-level table.
#[verifier::external_body]
pub(crate) fn document_table(doc: &mut toml_edit::DocumentMut) -> (r: &mut toml_edit::Table)
    ensures
        table_entries(*r) == document_entries(*old(doc)),
        document_entries(*final(doc)) == table_entries(*final(r)),
        !is_dotted(*r),
        *final(r) == *r ==> *final(doc) == *old(doc),
        fresh_in_table(*r) == fresh_in_document(*old(doc)),
        fresh_in_document(*final(doc)) == fresh_in_table(*final(r)),
        is_regular_document(*old(doc)) ==> is_regular(*r, 0),
        is_regular_document(*old(doc)) && is_regular(*final(r), 0) ==> is_regular_document(
            *final(doc),
        ),
{
    doc.as_table_mut()
}

/// `Table::entry`, `Entry::or_insert` and `Item::as_table_mut` of `toml_edit`:
/// the standard table at `key`, made with a header of its own where there is no
/// entry; none, and no change, where the entry is something else. A document
/// stays regular, but for a table under a header that stands in one of dotted
/// keys: its header can come to stand before the section that has those keys.
#[verifier::external_body]
pub(crate) fn child_table<'a>(table: &'a mut toml_edit::Table, key: &str) -> (r: Option<
    &'a mut toml_edit::Table,
>)
    ensures
        match table_at(table_entries(*old(table)), key@) {
            Some(inner) => r.is_some() && table_entries(*r.unwrap()) == inner && table_entries(
                *final(table),
            ) == table_entries(*old(table)).insert(
                key@,
                table_of(is_dotted(*final(r.unwrap())), table_entries(*final(r.unwrap()))),
            ),
            None => r.is_none() && *final(table) == *old(table),
        },
        is_dotted(*final(table)) == is_dotted(*old(table)),
        r matches Some(child) ==> {
            &&& is_dotted(*child) == dotted_at(table_entries(*old(table)), key@)
            &&& table_entries(*old(table)).dom().contains(key@) && *final(child) == *child
                ==> *final(table) == *old(table)
            &&& fresh_in_table(*child).subset_of(fresh_in_table(*old(table)))
            &&& fresh_in_table(*final(table)).subset_of(
                fresh_in_table(*old(table)).union(fresh_in_table(*final(child))),
            )
        },
        r matches Some(child) ==> forall|d: nat|
            d + 1 < KEY_LIMIT && #[trigger] is_regular(*old(table), d) && (is_dotted(*old(table))
                ==> is_dotted(*child)) ==> {
                &&& is_regular(*child, d + 1)
                &&& is_regular(*final(child), d + 1) && is_dotted(*final(child)) == is_dotted(
                    *child,
                ) ==> is_regular(*final(table), d)
            },
{
    table.entry(key).or_insert(toml_edit::Item::Table(toml_edit::Table::new())).as_table_mut()
}

/// `Table::index_mut` of `toml_edit`: sets the entry `key`.
#[verifier::external_body]
pub(crate) fn put_value(table: &mut toml_edit::Table, key: &str, value: toml_edit::Value)
    ensures
        table_entries(*final(table)) == table_entries(*old(table)).insert(
            key@,
            value_model(value),
        ),
        is_dotted(*final(table)) == is_dotted(*old(table)),
        fresh_in_table(*final(table)).subset_of(
            fresh_in_table(*old(table)).union(fresh_in_value(value)),
        ),
        forall|d: nat|
            d + 1 < KEY_LIMIT && #[trigger] is_regular(*old(table), d) && is_bare(value)
                ==> is_regular(*final(table), d),
{
    table[key] = toml_edit::Item::Value(value);
}

/// `Value::from` of `toml_edit` for a boolean, which is written as in Rust.
#[verifier::external_body]
pub(crate) fn bool_value(b: bool) -> (r: toml_edit::Value)
    ensures
        value_model(r) == TomlModel::Plain(
            if b {
                "true"@
            } else {
                "false"@
            },
        ),
        is_bare(r),
        fresh_in_value(r) == Set::<Seq<char>>::empty(),
{
    toml_edit::Value::from(b)
}

/// `Value::from` of `toml_edit` for an integer, which is written in decimal
/// notation.
#[verifier::external_body]
pub(crate) fn integer_value(i: i64) -> (r: toml_edit::Value)
    ensures
        value_model(r) == TomlModel::Plain(text::signed_spec(i as int)),
        is_bare(r),
        fresh_in_value(r) == Set::<Seq<char>>::empty(),
{
    toml_edit::Value::from(i)
}

/// `Value::from` of `toml_edit` for a string, which says that string.
#[verifier::external_body]
pub(crate) fn string_value(s: &str) -> (r: toml_edit::Value)
    ensures
        value_model(r) == TomlModel::Text(s@),
        is_bare(r),
        fresh_in_value(r) == set![s@],
{
    toml_edit::Value::from(s)
}

/// `str::parse` of std to a floating-point number and `Formatted::new` of
/// `toml_edit`: whether the text is such a number, and how `toml_edit` writes
/// it, is a function of the text.
#[verifier::external_body]
pub(crate) fn float_value(raw: &str) -> (r: Option<toml_edit::Value>)
    ensures
        match r {
            Some(value) => float_literal(raw@) matches Some(t) && value_model(value)
                == TomlModel::Plain(t) && is_bare(value) && fresh_in_value(value) == Set::<
                Seq<char>,
            >::empty(),
            None => float_literal(raw@) is None,
        },
{
    Some(toml_edit::Value::Float(toml_edit::Formatted::new(raw.parse().ok()?)))
}

/// `DocumentMut::to_string` of `toml_edit`: the text of the document with its
/// comments and formatting. A regular document is read back from it.
#[verifier::external_body]
pub(crate) fn document_text(doc: &toml_edit::DocumentMut) -> (r: String)
    requires
        can_be_written(fresh_in_document(*doc)),
    ensures
        r@ == document_written(*doc),
        is_regular_document(*doc) ==> parsed_entries(r@) == Some(document_entries(*doc)),
{
    doc.to_string()
}

} // verus!
