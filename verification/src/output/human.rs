//! Text for people: tables, key-value lines and plain values.
use crate::json::{Json, JsonModel};
use crate::json;
use crate::json_bridge;
use crate::ordmap::{Duplicate, StringMap};
use crate::ordmap;
use crate::output::envelope::{Envelope, EnvelopeText};
use crate::output::envelope;
use crate::text;
use vstd::prelude::*;
use vstd::string::*;

verus! {

/// Column definition for registered human table views.
pub struct TableColumn {
    /// JSON field path.
    pub field: String,
    /// Display header.
    pub header: String,
}

/// What a column definition says.
#[verifier::ext_equal]
pub struct ColumnText {
    /// JSON field path.
    pub field: Seq<char>,
    /// Display header.
    pub header: Seq<char>,
}

impl View for TableColumn {
    type V = ColumnText;

    open spec fn view(&self) -> ColumnText {
        ColumnText { field: self.field@, header: self.header@ }
    }
}

/// What the columns of a list say.
pub open spec fn column_texts(columns: Seq<TableColumn>) -> Seq<ColumnText> {
    columns.map_values(|c: TableColumn| c@)
}

/// Columns that stand for one view.
pub struct ColumnList {
    /// The columns.
    pub columns: Vec<TableColumn>,
}

impl Duplicate for ColumnList {
    open spec fn says_same(self, other: Self) -> bool {
        column_texts(self.columns@) == column_texts(other.columns@)
    }

    fn duplicate(&self) -> (r: Self) {
        ColumnList { columns: copy_columns(&self.columns) }
    }
}

/// Copies columns.
pub fn copy_columns(columns: &Vec<TableColumn>) -> (r: Vec<TableColumn>)
    ensures
        column_texts(r@) == column_texts(columns@),
{
    let mut r: Vec<TableColumn> = Vec::new();
    let mut i: usize = 0;
    while i < columns.len()
        invariant
            i <= columns@.len(),
            r@.len() == i,
            forall|k: int| 0 <= k < i ==> (#[trigger] r@[k])@ == columns@[k]@,
        decreases columns@.len() - i,
    {
        r.push(
            TableColumn { field: columns[i].field.clone(), header: columns[i].header.clone() },
        );
        i = i + 1;
    }
    assert(column_texts(r@) =~= column_texts(columns@));
    r
}

impl TableColumn {
    /// Creates a table column from a JSON field path and display header.
    pub fn new(field: String, header: String) -> (r: Self)
        ensures
            r@ == (ColumnText { field: field@, header: header@ }),
    {
        TableColumn { field, header }
    }
}

/// Human view definition keyed by schema id.
pub struct HumanViewDef {
    /// Schema id, usually the command path.
    pub schema_id: String,
    /// Columns rendered for matching object or list data.
    pub columns: Vec<TableColumn>,
}

impl HumanViewDef {
    /// Creates a column-based human view for a schema id or command path.
    pub fn new(schema_id: String, columns: Vec<TableColumn>) -> (r: Self)
        ensures
            r.schema_id@ == schema_id@,
            column_texts(r.columns@) == column_texts(columns@),
    {
        HumanViewDef { schema_id, columns }
    }
}

/// A custom renderer, by the number that its owner gave it.
#[derive(Clone, Copy)]
pub struct HumanViewRenderer {
    /// The number.
    pub id: u64,
}

impl Duplicate for HumanViewRenderer {
    open spec fn says_same(self, other: Self) -> bool {
        self.id == other.id
    }

    fn duplicate(&self) -> (r: Self) {
        HumanViewRenderer { id: self.id }
    }
}

/// Registry of human column and custom-renderer views.
pub struct HumanViewRegistry {
    by_schema_id: StringMap<ColumnList>,
    custom_by_schema_id: StringMap<HumanViewRenderer>,
}

/// What a registry of views holds.
#[verifier::ext_equal]
pub struct ViewsText {
    /// The columns of each schema id.
    pub columns: Map<Seq<char>, Seq<ColumnText>>,
    /// The custom renderer of each schema id.
    pub custom: Map<Seq<char>, u64>,
}

impl View for HumanViewRegistry {
    type V = ViewsText;

    closed spec fn view(&self) -> ViewsText {
        ViewsText {
            columns: self.by_schema_id@.map_values(|l: ColumnList| column_texts(l.columns@)),
            custom: self.custom_by_schema_id@.map_values(|r: HumanViewRenderer| r.id),
        }
    }
}

impl HumanViewRegistry {
    /// Creates an empty registry.
    pub fn new() -> (r: Self)
        ensures
            r@.columns == Map::<Seq<char>, Seq<ColumnText>>::empty(),
            r@.custom == Map::<Seq<char>, u64>::empty(),
    {
        let r = HumanViewRegistry {
            by_schema_id: StringMap::new(),
            custom_by_schema_id: StringMap::new(),
        };
        assert(r@.columns =~= Map::<Seq<char>, Seq<ColumnText>>::empty());
        assert(r@.custom =~= Map::<Seq<char>, u64>::empty());
        r
    }

    /// Registers a column-based human view.
    pub fn register(&mut self, view: HumanViewDef)
        ensures
            final(self)@ == (ViewsText {
                columns: old(self)@.columns.insert(view.schema_id@, column_texts(view.columns@)),
                ..old(self)@
            }),
    {
        self.by_schema_id.insert(view.schema_id, ColumnList { columns: view.columns });
        assert(self@.columns =~= old(self)@.columns.insert(
            view.schema_id@,
            column_texts(view.columns@),
        ));
    }

    /// Registers a custom renderer for a schema id.
    pub fn register_func(&mut self, schema_id: String, renderer: HumanViewRenderer)
        ensures
            final(self)@ == (ViewsText {
                custom: old(self)@.custom.insert(schema_id@, renderer.id),
                ..old(self)@
            }),
    {
        self.custom_by_schema_id.insert(schema_id, renderer);
        assert(self@.custom =~= old(self)@.custom.insert(schema_id@, renderer.id));
    }

    /// Merges another registry into this one.
    pub fn merge(&mut self, other: &Self)
        ensures
            final(self)@ == merged_views(old(self)@, other@),
    {
        self.by_schema_id.extend(&other.by_schema_id);
        self.custom_by_schema_id.extend(&other.custom_by_schema_id);
        proof {
            let columns = old(self)@.columns.union_prefer_right(other@.columns);
            let custom = old(self)@.custom.union_prefer_right(other@.custom);
            assert(self@.columns.dom() =~= columns.dom());
            assert forall|k: Seq<char>| self@.columns.dom().contains(k) implies #[trigger] self@.columns[k]
                == columns[k] by {
                assert(self.by_schema_id@.dom().contains(k));
            }
            assert(self@.columns =~= columns);
            assert(self@.custom.dom() =~= custom.dom());
            assert forall|k: Seq<char>| self@.custom.dom().contains(k) implies #[trigger] self@.custom[k]
                == custom[k] by {
                assert(self.custom_by_schema_id@.dom().contains(k));
            }
            assert(self@.custom =~= custom);
        }
    }

    /// Returns column definitions for a schema id.
    pub fn columns(&self, schema_id: &str) -> (r: Option<&Vec<TableColumn>>)
        ensures
            match r {
                Some(c) => self@.columns.dom().contains(schema_id@) && self@.columns[schema_id@]
                    == column_texts(c@),
                None => !self@.columns.dom().contains(schema_id@),
            },
    {
        match self.by_schema_id.get(schema_id) {
            Some(list) => Some(&list.columns),
            None => None,
        }
    }

    /// Returns the custom renderer for a schema id.
    pub fn custom(&self, schema_id: &str) -> (r: Option<HumanViewRenderer>)
        ensures
            match r {
                Some(c) => self@.custom.dom().contains(schema_id@) && self@.custom[schema_id@]
                    == c.id,
                None => !self@.custom.dom().contains(schema_id@),
            },
    {
        match self.custom_by_schema_id.get(schema_id) {
            Some(renderer) => Some(HumanViewRenderer { id: renderer.id }),
            None => None,
        }
    }

    /// Tells whether there is a view for a schema id.
    pub fn has_view(&self, schema_id: &str) -> (r: bool)
        ensures
            r == (self@.columns.dom().contains(schema_id@) || self@.custom.dom().contains(
                schema_id@,
            )),
    {
        self.columns(schema_id).is_some() || self.custom(schema_id).is_some()
    }

    /// Copies the registry.
    pub fn copy(&self) -> (r: Self)
        ensures
            r@ == self@,
    {
        let r = HumanViewRegistry {
            by_schema_id: self.by_schema_id.duplicate(),
            custom_by_schema_id: self.custom_by_schema_id.duplicate(),
        };
        assert(r@.columns =~= self@.columns);
        assert(r@.custom =~= self@.custom);
        r
    }
}

/// The views of two registries, those of the second in place of those of the
/// first.
pub open spec fn merged_views(first: ViewsText, second: ViewsText) -> ViewsText {
    ViewsText {
        columns: first.columns.union_prefer_right(second.columns),
        custom: first.custom.union_prefer_right(second.custom),
    }
}

/// An object in one line.
pub open spec fn object_text(v: JsonModel) -> Seq<char> {
    match json_bridge::compact_text(v) {
        Some(t) => t,
        None => "{}"@,
    }
}

/// A value as a cell or a member shows it.
pub open spec fn shown(v: JsonModel) -> Seq<char>
    decreases v,
{
    match v {
        JsonModel::Null => Seq::empty(),
        JsonModel::Bool(true) => "yes"@,
        JsonModel::Bool(false) => "no"@,
        JsonModel::Number(n) => json::number_text(n),
        JsonModel::Text(s) => s,
        JsonModel::Array(items) => text::join_spec(shown_each(items), ", "@),
        JsonModel::Object(_) => object_text(v),
    }
}

/// Each value of a list as a cell shows it.
pub open spec fn shown_each(items: Seq<JsonModel>) -> Seq<Seq<char>>
    decreases items,
{
    if items.len() == 0 {
        Seq::empty()
    } else {
        shown_each(items.drop_last()).push(shown(items.last()))
    }
}

/// A value that stands alone or in a list without columns.
pub open spec fn plain(v: JsonModel) -> Seq<char>
    decreases v,
{
    match v {
        JsonModel::Null => "<nil>"@,
        JsonModel::Bool(true) => "true"@,
        JsonModel::Bool(false) => "false"@,
        JsonModel::Number(n) => json::number_text(n),
        JsonModel::Text(s) => s,
        JsonModel::Array(items) => "["@ + text::join_spec(plain_each(items), " "@) + "]"@,
        JsonModel::Object(_) => object_text(v),
    }
}

/// Each value of a list in its plain form.
pub open spec fn plain_each(items: Seq<JsonModel>) -> Seq<Seq<char>>
    decreases items,
{
    if items.len() == 0 {
        Seq::empty()
    } else {
        plain_each(items.drop_last()).push(plain(items.last()))
    }
}

fn compact(v: &Json) -> (r: String)
    ensures
        r@ == object_text(v@),
{
    let value = json_bridge::to_serde(v);
    match json_bridge::value_text(&value) {
        Some(t) => t,
        None => "{}".to_owned(),
    }
}

/// A value as a cell or a member shows it.
fn format_value(value: &Json) -> (r: String)
    ensures
        r@ == shown(value@),
    decreases value,
{
    broadcast use json::group_json;

    match value {
        Json::Null => String::new(),
        Json::Bool(b) => {
            if *b {
                "yes".to_owned()
            } else {
                "no".to_owned()
            }
        },
        Json::Number(n) => n.to_text(),
        Json::Text(s) => s.clone(),
        Json::Array(items) => {
            let parts = format_each(items);
            text::join(&parts, ", ")
        },
        Json::Object(_) => compact(value),
    }
}

/// A value that stands alone or in a list without columns.
fn format_plain_value(value: &Json) -> (r: String)
    ensures
        r@ == plain(value@),
    decreases value,
{
    broadcast use json::group_json;

    match value {
        Json::Null => "<nil>".to_owned(),
        Json::Bool(b) => {
            if *b {
                "true".to_owned()
            } else {
                "false".to_owned()
            }
        },
        Json::Number(n) => n.to_text(),
        Json::Text(s) => s.clone(),
        Json::Array(items) => {
            let parts = format_plain_each(items);
            let mut r = "[".to_owned();
            r.append(text::join(&parts, " ").as_str());
            r.append("]");
            r
        },
        Json::Object(_) => compact(value),
    }
}

fn format_each(items: &Vec<Json>) -> (r: Vec<String>)
    ensures
        text::texts(r@) == shown_each(json::models(items@)),
    decreases items,
{
    broadcast use json::group_json;

    let ghost all = json::models(items@);
    let mut parts: Vec<String> = Vec::new();
    let mut i: usize = 0;
    proof {
        assert(all.take(0) =~= Seq::empty());
        assert(text::texts(parts@) =~= Seq::empty());
    }
    while i < items.len()
        invariant
            i <= items@.len(),
            all == json::models(items@),
            all.len() == items@.len(),
            text::texts(parts@) == shown_each(all.take(i as int)),
        decreases items@.len() - i,
    {
        let ghost before = parts@;
        let part = format_value(&items[i]);
        parts.push(part);
        proof {
            json::lemma_models(items@);
            assert(all.take(i + 1).drop_last() =~= all.take(i as int));
            assert(all.take(i + 1).last() == items@[i as int]@);
            assert(text::texts(parts@) =~= text::texts(before).push(part@));
        }
        i = i + 1;
    }
    proof {
        assert(all.take(i as int) =~= all);
    }
    parts
}

fn format_plain_each(items: &Vec<Json>) -> (r: Vec<String>)
    ensures
        text::texts(r@) == plain_each(json::models(items@)),
    decreases items,
{
    broadcast use json::group_json;

    let ghost all = json::models(items@);
    let mut parts: Vec<String> = Vec::new();
    let mut i: usize = 0;
    proof {
        assert(all.take(0) =~= Seq::empty());
        assert(text::texts(parts@) =~= Seq::empty());
    }
    while i < items.len()
        invariant
            i <= items@.len(),
            all == json::models(items@),
            all.len() == items@.len(),
            text::texts(parts@) == plain_each(all.take(i as int)),
        decreases items@.len() - i,
    {
        let ghost before = parts@;
        let part = format_plain_value(&items[i]);
        parts.push(part);
        proof {
            json::lemma_models(items@);
            assert(all.take(i + 1).drop_last() =~= all.take(i as int));
            assert(all.take(i + 1).last() == items@[i as int]@);
            assert(text::texts(parts@) =~= text::texts(before).push(part@));
        }
        i = i + 1;
    }
    proof {
        assert(all.take(i as int) =~= all);
    }
    parts
}

/// What the member `field` of an item shows, nothing where there is none.
pub open spec fn cell(item: JsonModel, field: Seq<char>) -> Seq<char> {
    match json::member(item, field) {
        Some(v) => shown(v),
        None => Seq::empty(),
    }
}

/// The cells of an item.
pub open spec fn row_of(item: JsonModel, fields: Seq<Seq<char>>) -> Seq<Seq<char>> {
    Seq::new(fields.len(), |i: int| cell(item, fields[i]))
}

/// The cells of each item.
pub open spec fn rows_of(items: Seq<JsonModel>, fields: Seq<Seq<char>>) -> Seq<Seq<Seq<char>>> {
    Seq::new(items.len(), |i: int| row_of(items[i], fields))
}

/// The larger of two widths, but at most 40.
pub open spec fn capped(a: nat, b: nat) -> nat {
    let larger = if a > b {
        a
    } else {
        b
    };
    if larger > 40 {
        40
    } else {
        larger
    }
}

/// The width of a column: that of its header, widened by the cells, and at
/// most 40 once there is a cell.
pub open spec fn column_width(
    header: Seq<char>,
    field: Seq<char>,
    items: Seq<JsonModel>,
) -> nat
    decreases items.len(),
{
    if items.len() == 0 {
        text::byte_len_spec(header)
    } else {
        capped(
            column_width(header, field, items.drop_last()),
            text::byte_len_spec(cell(items.last(), field)),
        )
    }
}

/// The width of each column.
pub open spec fn column_widths(
    headers: Seq<Seq<char>>,
    fields: Seq<Seq<char>>,
    items: Seq<JsonModel>,
) -> Seq<nat> {
    Seq::new(headers.len(), |i: int| column_width(headers[i], fields[i], items))
}

/// A value cut to a width, with dots where there is room for them.
pub open spec fn truncated(value: Seq<char>, width: nat) -> Seq<char> {
    if text::byte_len_spec(value) <= width {
        value
    } else if width <= 3 {
        first_chars(value, width)
    } else {
        first_chars(value, (width - 3) as nat) + "..."@
    }
}

/// The first `n` characters of a text.
pub open spec fn first_chars(value: Seq<char>, n: nat) -> Seq<char> {
    if value.len() <= n {
        value
    } else {
        value.take(n as int)
    }
}

/// The cells of the header line.
pub open spec fn header_cells(headers: Seq<Seq<char>>, widths: Seq<nat>) -> Seq<Seq<char>> {
    Seq::new(headers.len(), |i: int| text::pad_spec(text::uppercase(headers[i]), widths[i]))
}

/// The cells of the line under the header.
pub open spec fn rule_cells(widths: Seq<nat>) -> Seq<Seq<char>> {
    Seq::new(widths.len(), |i: int| text::repeated('-', widths[i]))
}

/// The cells of a row, each cut and padded to its width.
pub open spec fn row_cells(row: Seq<Seq<char>>, widths: Seq<nat>) -> Seq<Seq<char>> {
    Seq::new(row.len(), |i: int| text::pad_spec(truncated(row[i], widths[i]), widths[i]))
}

/// The lines of the rows.
pub open spec fn row_lines(rows: Seq<Seq<Seq<char>>>, widths: Seq<nat>) -> Seq<char>
    decreases rows.len(),
{
    if rows.len() == 0 {
        Seq::empty()
    } else {
        row_lines(rows.drop_last(), widths) + text::join_spec(
            row_cells(rows.last(), widths),
            "  "@,
        ) + "\n"@
    }
}

/// A table with its header and the number of its rows.
pub open spec fn table_text(
    headers: Seq<Seq<char>>,
    widths: Seq<nat>,
    rows: Seq<Seq<Seq<char>>>,
) -> Seq<char> {
    text::join_spec(header_cells(headers, widths), "  "@) + "\n"@ + text::join_spec(
        rule_cells(widths),
        "  "@,
    ) + "\n"@ + row_lines(rows, widths) + "\n("@ + text::decimal_spec(rows.len()) + " rows)\n"@
}

fn truncate(value: &str, width: usize) -> (r: String)
    ensures
        r@ == truncated(value@, width as nat),
{
    if text::byte_len(value) <= width {
        return value.to_owned();
    }
    let chars = text::chars_of(value);
    if width <= 3 {
        let n: usize = if chars.len() <= width {
            chars.len()
        } else {
            width
        };
        let r = text::substring_of(&chars, 0, n);
        assert(r@ =~= first_chars(value@, width as nat));
        return r;
    }
    let n: usize = if chars.len() <= width - 3 {
        chars.len()
    } else {
        width - 3
    };
    let mut r = text::substring_of(&chars, 0, n);
    assert(r@ =~= first_chars(value@, (width - 3) as nat));
    r.append("...");
    r
}

/// The widths as numbers.
pub open spec fn as_nats(widths: Seq<usize>) -> Seq<nat> {
    widths.map_values(|w: usize| w as nat)
}

/// The texts of rows.
pub open spec fn row_texts(rows: Seq<Vec<String>>) -> Seq<Seq<Seq<char>>> {
    rows.map_values(|r: Vec<String>| text::texts(r@))
}

fn render_row(row: &Vec<String>, widths: &Vec<usize>) -> (r: String)
    requires
        row@.len() == widths@.len(),
    ensures
        r@ == text::join_spec(row_cells(text::texts(row@), as_nats(widths@)), "  "@),
{
    let mut cells: Vec<String> = Vec::new();
    let mut i: usize = 0;
    while i < row.len()
        invariant
            i <= row@.len() == widths@.len(),
            cells@.len() == i,
            forall|k: int|
                0 <= k < i ==> (#[trigger] cells@[k])@ == text::pad_spec(
                    truncated(row@[k]@, widths@[k] as nat),
                    widths@[k] as nat,
                ),
        decreases row@.len() - i,
    {
        cells.push(text::pad(truncate(row[i].as_str(), widths[i]).as_str(), widths[i]));
        i = i + 1;
    }
    assert(text::texts(cells@) =~= row_cells(text::texts(row@), as_nats(widths@)));
    text::join(&cells, "  ")
}

fn render_table(headers: &Vec<String>, widths: &Vec<usize>, rows: &Vec<Vec<String>>) -> (r: String)
    requires
        headers@.len() == widths@.len(),
        forall|i: int| 0 <= i < rows@.len() ==> (#[trigger] rows@[i])@.len() == widths@.len(),
    ensures
        r@ == table_text(text::texts(headers@), as_nats(widths@), row_texts(rows@)),
{
    let ghost wide = as_nats(widths@);
    let mut cells: Vec<String> = Vec::new();
    let mut rule: Vec<String> = Vec::new();
    let mut i: usize = 0;
    while i < headers.len()
        invariant
            i <= headers@.len() == widths@.len(),
            cells@.len() == i,
            rule@.len() == i,
            forall|k: int|
                0 <= k < i ==> (#[trigger] cells@[k])@ == text::pad_spec(
                    text::uppercase(headers@[k]@),
                    widths@[k] as nat,
                ),
            forall|k: int|
                0 <= k < i ==> (#[trigger] rule@[k])@ == text::repeated('-', widths@[k] as nat),
        decreases headers@.len() - i,
    {
        cells.push(text::pad(text::to_uppercase(headers[i].as_str()).as_str(), widths[i]));
        rule.push(text::repeat('-', widths[i]));
        i = i + 1;
    }
    assert(text::texts(cells@) =~= header_cells(text::texts(headers@), wide));
    assert(text::texts(rule@) =~= rule_cells(wide));
    let ghost all = row_texts(rows@);
    let mut lines = String::new();
    let mut j: usize = 0;
    proof {
        assert(all.take(0) =~= Seq::empty());
    }
    while j < rows.len()
        invariant
            j <= rows@.len(),
            all == row_texts(rows@),
            wide == as_nats(widths@),
            forall|i: int| 0 <= i < rows@.len() ==> (#[trigger] rows@[i])@.len() == widths@.len(),
            lines@ == row_lines(all.take(j as int), wide),
        decreases rows@.len() - j,
    {
        proof {
            assert(all.take(j + 1).drop_last() =~= all.take(j as int));
            assert(all.take(j + 1).last() == text::texts(rows@[j as int]@));
        }
        lines.append(render_row(&rows[j], widths).as_str());
        lines.append("\n");
        j = j + 1;
    }
    proof {
        assert(all.take(j as int) =~= all);
    }
    let mut out = text::join(&cells, "  ");
    out.append("\n");
    out.append(text::join(&rule, "  ").as_str());
    out.append("\n");
    out.append(lines.as_str());
    out.append("\n(");
    out.append(text::decimal(rows.len() as u128).as_str());
    out.append(" rows)\n");
    out
}

fn cell_text(item: &Json, field: &str) -> (r: String)
    ensures
        r@ == cell(item@, field@),
{
    match item.get(field) {
        Some(v) => format_value(v),
        None => String::new(),
    }
}

fn item_row(item: &Json, fields: &Vec<String>) -> (r: Vec<String>)
    ensures
        text::texts(r@) == row_of(item@, text::texts(fields@)),
{
    let mut r: Vec<String> = Vec::new();
    let mut i: usize = 0;
    while i < fields.len()
        invariant
            i <= fields@.len(),
            r@.len() == i,
            forall|k: int| 0 <= k < i ==> (#[trigger] r@[k])@ == cell(item@, fields@[k]@),
        decreases fields@.len() - i,
    {
        r.push(cell_text(item, fields[i].as_str()));
        i = i + 1;
    }
    assert(text::texts(r@) =~= row_of(item@, text::texts(fields@)));
    r
}

fn measure_column(header: &str, field: &str, items: &Vec<Json>) -> (n: usize)
    ensures
        n == column_width(header@, field@, json::models(items@)),
{
    broadcast use json::group_json;

    let ghost all = json::models(items@);
    let mut n: usize = text::byte_len(header);
    let mut i: usize = 0;
    proof {
        assert(all.take(0) =~= Seq::empty());
    }
    while i < items.len()
        invariant
            i <= items@.len() == all.len(),
            all == json::models(items@),
            n == column_width(header@, field@, all.take(i as int)),
        decreases items@.len() - i,
    {
        proof {
            json::lemma_models(items@);
            assert(all.take(i + 1).drop_last() =~= all.take(i as int));
            assert(all.take(i + 1).last() == items@[i as int]@);
        }
        let value = cell_text(&items[i], field);
        let len: usize = text::byte_len(value.as_str());
        if len > n {
            n = len;
        }
        if n > 40 {
            n = 40;
        }
        i = i + 1;
    }
    proof {
        assert(all.take(i as int) =~= all);
    }
    n
}

/// The table of items under headers, one column for each field.
pub open spec fn items_table(
    headers: Seq<Seq<char>>,
    fields: Seq<Seq<char>>,
    items: Seq<JsonModel>,
) -> Seq<char> {
    table_text(headers, column_widths(headers, fields, items), rows_of(items, fields))
}

fn render_items(headers: &Vec<String>, fields: &Vec<String>, items: &Vec<Json>) -> (r: String)
    requires
        headers@.len() == fields@.len(),
    ensures
        r@ == items_table(text::texts(headers@), text::texts(fields@), json::models(items@)),
{
    broadcast use json::group_json;

    let ghost all = json::models(items@);
    let mut widths: Vec<usize> = Vec::new();
    let mut i: usize = 0;
    while i < headers.len()
        invariant
            i <= headers@.len() == fields@.len(),
            all == json::models(items@),
            widths@.len() == i,
            forall|k: int|
                0 <= k < i ==> (#[trigger] widths@[k]) == column_width(
                    headers@[k]@,
                    fields@[k]@,
                    all,
                ),
        decreases headers@.len() - i,
    {
        widths.push(measure_column(headers[i].as_str(), fields[i].as_str(), items));
        i = i + 1;
    }
    let mut rows: Vec<Vec<String>> = Vec::new();
    let mut j: usize = 0;
    while j < items.len()
        invariant
            j <= items@.len(),
            rows@.len() == j,
            forall|k: int|
                0 <= k < j ==> text::texts((#[trigger] rows@[k])@) == row_of(
                    items@[k]@,
                    text::texts(fields@),
                ),
        decreases items@.len() - j,
    {
        rows.push(item_row(&items[j], fields));
        j = j + 1;
    }
    proof {
        let wide = column_widths(text::texts(headers@), text::texts(fields@), all);
        assert(as_nats(widths@) =~= wide);
        assert(row_texts(rows@) =~= rows_of(all, text::texts(fields@)));
        assert forall|i: int| 0 <= i < rows@.len() implies (#[trigger] rows@[i])@.len()
            == widths@.len() by {
            assert(text::texts(rows@[i]@).len() == rows@[i]@.len());
        }
    }
    render_table(headers, &widths, &rows)
}

/// Each value of a list on a line of its own.
pub open spec fn value_lines(items: Seq<JsonModel>) -> Seq<char>
    decreases items.len(),
{
    if items.len() == 0 {
        Seq::empty()
    } else {
        value_lines(items.drop_last()) + plain(items.last()) + "\n"@
    }
}

fn render_array_lines(items: &Vec<Json>) -> (r: String)
    ensures
        r@ == value_lines(json::models(items@)),
{
    broadcast use json::group_json;

    let ghost all = json::models(items@);
    let mut out = String::new();
    let mut i: usize = 0;
    proof {
        assert(all.take(0) =~= Seq::empty());
    }
    while i < items.len()
        invariant
            i <= items@.len() == all.len(),
            all == json::models(items@),
            out@ == value_lines(all.take(i as int)),
        decreases items@.len() - i,
    {
        proof {
            json::lemma_models(items@);
            assert(all.take(i + 1).drop_last() =~= all.take(i as int));
            assert(all.take(i + 1).last() == items@[i as int]@);
        }
        out.append(format_plain_value(&items[i]).as_str());
        out.append("\n");
        i = i + 1;
    }
    proof {
        assert(all.take(i as int) =~= all);
    }
    out
}

/// Every value of the list is an object.
pub open spec fn all_objects(items: Seq<JsonModel>) -> bool {
    forall|i: int| 0 <= i < items.len() ==> #[trigger] items[i] is Object
}

fn are_objects(items: &Vec<Json>) -> (r: bool)
    ensures
        r == all_objects(json::models(items@)),
{
    let mut i: usize = 0;
    while i < items.len()
        invariant
            i <= items@.len(),
            forall|k: int| 0 <= k < i ==> (#[trigger] items@[k])@ is Object,
        decreases items@.len() - i,
    {
        if !items[i].is_object() {
            proof {
                json::lemma_models(items@);
                assert(!(json::models(items@)[i as int] is Object));
            }
            return false;
        }
        i = i + 1;
    }
    proof {
        json::lemma_models(items@);
        assert forall|k: int| 0 <= k < json::models(items@).len() implies #[trigger] json::models(
            items@,
        )[k] is Object by {
            assert(items@[k]@ is Object);
        }
    }
    true
}

/// The headers of columns.
pub open spec fn headers_of(columns: Seq<ColumnText>) -> Seq<Seq<char>> {
    columns.map_values(|c: ColumnText| c.header)
}

/// The fields of columns.
pub open spec fn fields_of(columns: Seq<ColumnText>) -> Seq<Seq<char>> {
    columns.map_values(|c: ColumnText| c.field)
}

/// A list shown with given columns.
pub open spec fn array_with_columns(items: Seq<JsonModel>, columns: Seq<ColumnText>) -> Seq<char> {
    if items.len() == 0 {
        "(no results)\n"@
    } else if !all_objects(items) {
        value_lines(items)
    } else {
        items_table(headers_of(columns), fields_of(columns), items)
    }
}

fn render_array_with_columns(items: &Vec<Json>, columns: &Vec<TableColumn>) -> (r: String)
    ensures
        r@ == array_with_columns(json::models(items@), column_texts(columns@)),
{
    broadcast use json::group_json;

    if items.len() == 0 {
        return "(no results)\n".to_owned();
    }
    if !are_objects(items) {
        return render_array_lines(items);
    }
    let mut headers: Vec<String> = Vec::new();
    let mut fields: Vec<String> = Vec::new();
    let mut i: usize = 0;
    while i < columns.len()
        invariant
            i <= columns@.len(),
            headers@.len() == i,
            fields@.len() == i,
            forall|k: int| 0 <= k < i ==> (#[trigger] headers@[k])@ == columns@[k].header@,
            forall|k: int| 0 <= k < i ==> (#[trigger] fields@[k])@ == columns@[k].field@,
        decreases columns@.len() - i,
    {
        headers.push(columns[i].header.clone());
        fields.push(columns[i].field.clone());
        i = i + 1;
    }
    assert(text::texts(headers@) =~= headers_of(column_texts(columns@)));
    assert(text::texts(fields@) =~= fields_of(column_texts(columns@)));
    render_items(&headers, &fields, items)
}

/// The lines of an object for given columns.
pub open spec fn column_lines(object: JsonModel, columns: Seq<ColumnText>) -> Seq<char>
    decreases columns.len(),
{
    if columns.len() == 0 {
        Seq::empty()
    } else {
        let c = columns.last();
        column_lines(object, columns.drop_last()) + c.header + ": "@ + cell(object, c.field)
            + "\n"@
    }
}

/// The object has no members.
pub open spec fn is_empty_object(object: JsonModel) -> bool {
    object matches JsonModel::Object(members) && members.dom() =~= Set::<Seq<char>>::empty()
}

fn object_is_empty(object: &Json) -> (r: bool)
    ensures
        r == is_empty_object(object@),
{
    broadcast use json::group_json;

    match object {
        Json::Object(members) => {
            let r = members.is_empty();
            proof {
                assert(json::map_models(members@).dom() =~= members@.dom());
            }
            r
        },
        _ => false,
    }
}

fn render_object_with_columns(object: &Json, columns: &Vec<TableColumn>) -> (r: String)
    ensures
        r@ == (if is_empty_object(object@) {
            "(no data)\n"@
        } else {
            column_lines(object@, column_texts(columns@))
        }),
{
    if object_is_empty(object) {
        return "(no data)\n".to_owned();
    }
    let ghost all = column_texts(columns@);
    let mut out = String::new();
    let mut i: usize = 0;
    proof {
        assert(all.take(0) =~= Seq::empty());
    }
    while i < columns.len()
        invariant
            i <= columns@.len(),
            all == column_texts(columns@),
            out@ == column_lines(object@, all.take(i as int)),
        decreases columns@.len() - i,
    {
        proof {
            assert(all.take(i + 1).drop_last() =~= all.take(i as int));
            assert(all.take(i + 1).last() == columns@[i as int]@);
        }
        out.append(columns[i].header.as_str());
        out.append(": ");
        out.append(cell_text(object, columns[i].field.as_str()).as_str());
        out.append("\n");
        i = i + 1;
    }
    proof {
        assert(all.take(i as int) =~= all);
    }
    out
}

/// The keys of an object in increasing order.
pub open spec fn sorted_keys(members: Map<Seq<char>, JsonModel>) -> Seq<Seq<char>> {
    choose|order: Seq<Seq<char>>| #[trigger] ordmap::is_key_order(order, members)
}

/// A list shown with a column for each member of its first item.
pub open spec fn array_text(items: Seq<JsonModel>) -> Seq<char> {
    if items.len() == 0 {
        "(no results)\n"@
    } else if !all_objects(items) {
        value_lines(items)
    } else if is_empty_object(items[0]) {
        "(no results)\n"@
    } else {
        let columns = sorted_keys(items[0]->Object_0);
        items_table(columns, columns, items)
    }
}

/// The keys of a map come in one increasing order only.
proof fn lemma_sorted_keys(order: Seq<Seq<char>>, members: Map<Seq<char>, JsonModel>)
    requires
        ordmap::is_key_order(order, members),
    ensures
        sorted_keys(members) == order,
{
    ordmap::lemma_key_order_unique(order, sorted_keys(members), members);
}

fn render_array(items: &Vec<Json>) -> (r: String)
    ensures
        r@ == array_text(json::models(items@)),
{
    broadcast use json::group_json;

    if items.len() == 0 {
        return "(no results)\n".to_owned();
    }
    if !are_objects(items) {
        return render_array_lines(items);
    }
    assert(json::models(items@)[0] == items@[0]@);
    if object_is_empty(&items[0]) {
        return "(no results)\n".to_owned();
    }
    match &items[0] {
        Json::Object(first) => {
            let columns = first.keys();
            proof {
                lemma_model_order(*first, text::texts(columns@));
                lemma_sorted_keys(text::texts(columns@), json::map_models(first@));
            }
            render_items(&columns, &columns, items)
        },
        _ => render_array_lines(items),
    }
}

/// The members of an object have the keys of its map.
proof fn lemma_model_order(members: StringMap<Json>, order: Seq<Seq<char>>)
    requires
        ordmap::is_key_order(order, members@),
    ensures
        ordmap::is_key_order(order, json::map_models(members@)),
{
    let m = json::map_models(members@);
    assert(m.dom() =~= members@.dom());
    assert forall|k: Seq<char>| #[trigger] order.contains(k) <==> m.dom().contains(k) by {
        assert(order.contains(k) <==> members@.dom().contains(k));
    }
}

/// The lines of an object, one for each key of the order.
pub open spec fn member_lines(object: JsonModel, order: Seq<Seq<char>>) -> Seq<char>
    decreases order.len(),
{
    if order.len() == 0 {
        Seq::empty()
    } else {
        member_lines(object, order.drop_last()) + order.last() + ": "@ + cell(
            object,
            order.last(),
        ) + "\n"@
    }
}

/// Data as it is shown without columns.
pub open spec fn data_text(data: JsonModel) -> Seq<char> {
    match data {
        JsonModel::Array(items) => array_text(items),
        JsonModel::Object(members) => if is_empty_object(data) {
            "(no data)\n"@
        } else {
            member_lines(data, sorted_keys(members))
        },
        _ => plain(data) + "\n"@,
    }
}

/// Data as it is shown with columns.
pub open spec fn data_with_columns(data: JsonModel, columns: Seq<ColumnText>) -> Seq<char> {
    match data {
        JsonModel::Array(items) => array_with_columns(items, columns),
        JsonModel::Object(_) => if is_empty_object(data) {
            "(no data)\n"@
        } else {
            column_lines(data, columns)
        },
        _ => shown(data) + "\n"@,
    }
}

/// An envelope as it is shown to people.
pub open spec fn human_text(e: EnvelopeText, columns: Option<Seq<ColumnText>>) -> Seq<char> {
    match e.error {
        Some(error) => "Error: "@ + error.message + "\n"@,
        None => match e.data {
            None => "(no data)\n"@,
            Some(data) => match columns {
                Some(c) => data_with_columns(data, c),
                None => data_text(data),
            },
        },
    }
}

fn render_members(object: &Json, members: &StringMap<Json>) -> (r: String)
    requires
        *object == Json::Object(*members),
    ensures
        r@ == member_lines(object@, sorted_keys(json::map_models(members@))),
{
    let keys = members.keys();
    let ghost order = text::texts(keys@);
    proof {
        lemma_model_order(*members, order);
        lemma_sorted_keys(order, json::map_models(members@));
    }
    let mut out = String::new();
    let mut i: usize = 0;
    proof {
        assert(order.take(0) =~= Seq::empty());
    }
    while i < keys.len()
        invariant
            i <= keys@.len(),
            order == text::texts(keys@),
            out@ == member_lines(object@, order.take(i as int)),
        decreases keys@.len() - i,
    {
        proof {
            assert(order.take(i + 1).drop_last() =~= order.take(i as int));
            assert(order.take(i + 1).last() == keys@[i as int]@);
        }
        out.append(keys[i].as_str());
        out.append(": ");
        out.append(cell_text(object, keys[i].as_str()).as_str());
        out.append("\n");
        i = i + 1;
    }
    proof {
        assert(order.take(i as int) =~= order);
    }
    out
}

/// What optional columns say.
pub open spec fn opt_columns(columns: Option<&Vec<TableColumn>>) -> Option<Seq<ColumnText>> {
    match columns {
        Some(c) => Some(column_texts(c@)),
        None => None,
    }
}

fn render_data_with_columns(data: &Json, columns: &Vec<TableColumn>) -> (r: String)
    ensures
        r@ == data_with_columns(data@, column_texts(columns@)),
{
    broadcast use json::group_json;

    match data {
        Json::Array(items) => render_array_with_columns(items, columns),
        Json::Object(_) => render_object_with_columns(data, columns),
        _ => {
            let mut r = format_value(data);
            r.append("\n");
            r
        },
    }
}

fn render_plain_data(data: &Json) -> (r: String)
    ensures
        r@ == data_text(data@),
{
    broadcast use json::group_json;

    match data {
        Json::Array(items) => render_array(items),
        Json::Object(members) => {
            if object_is_empty(data) {
                "(no data)\n".to_owned()
            } else {
                render_members(data, members)
            }
        },
        _ => {
            let mut r = format_plain_value(data);
            r.append("\n");
            r
        },
    }
}

/// Renders an envelope using explicit table columns.
pub fn render_human_with_view(envelope: &Envelope, columns: Option<&Vec<TableColumn>>) -> (r: String)
    ensures
        r@ == human_text(envelope@, opt_columns(columns)),
{
    match &envelope.error {
        Some(error) => {
            let mut r = "Error: ".to_owned();
            r.append(error.message.as_str());
            r.append("\n");
            return r;
        },
        None => {},
    }
    match &envelope.data {
        None => "(no data)\n".to_owned(),
        Some(data) => match columns {
            Some(c) => render_data_with_columns(data, c),
            None => render_plain_data(data),
        },
    }
}

/// Renders an envelope using generic human output.
pub fn render_human(envelope: &Envelope) -> (r: String)
    ensures
        r@ == human_text(envelope@, None),
{
    render_human_with_view(envelope, None)
}

/// What is shown of an envelope: a text, or what a custom renderer makes of
/// the data.
pub enum HumanOutput {
    /// The text.
    Rendered(String),
    /// The data goes to the custom renderer with this number.
    Custom(u64),
}

/// What is shown of an envelope, said in texts.
pub enum HumanOutputText {
    /// The text.
    Rendered(Seq<char>),
    /// The data goes to the custom renderer with this number.
    Custom(u64),
}

impl View for HumanOutput {
    type V = HumanOutputText;

    open spec fn view(&self) -> HumanOutputText {
        match self {
            HumanOutput::Rendered(s) => HumanOutputText::Rendered(s@),
            HumanOutput::Custom(id) => HumanOutputText::Custom(*id),
        }
    }
}

/// The columns registered for a schema id.
pub open spec fn registered_columns(views: ViewsText, id: Seq<char>) -> Option<Seq<ColumnText>> {
    if views.columns.dom().contains(id) {
        Some(views.columns[id])
    } else {
        None
    }
}

/// What is shown of an envelope with the views of a registry: the error first,
/// then the custom renderer, then the columns.
pub open spec fn registry_output(
    e: EnvelopeText,
    views: ViewsText,
    id: Seq<char>,
) -> HumanOutputText {
    if e.error is None && e.data is Some && views.custom.dom().contains(id) {
        HumanOutputText::Custom(views.custom[id])
    } else {
        HumanOutputText::Rendered(human_text(e, registered_columns(views, id)))
    }
}

/// Renders an envelope using registry entries for a specific schema id.
pub fn render_human_with_registry_for_schema(
    envelope: &Envelope,
    registry: &HumanViewRegistry,
    schema_id: &str,
) -> (r: HumanOutput)
    ensures
        r@ == registry_output(envelope@, registry@, schema_id@),
{
    if envelope.error.is_none() && envelope.data.is_some() {
        match registry.custom(schema_id) {
            Some(renderer) => {
                return HumanOutput::Custom(renderer.id);
            },
            None => {},
        }
    }
    HumanOutput::Rendered(render_human_with_view(envelope, registry.columns(schema_id)))
}

/// The system that an envelope names.
pub open spec fn system_of(e: EnvelopeText) -> Seq<char> {
    match e.metadata {
        Some(m) => m.system,
        None => ""@,
    }
}

/// Renders an envelope using a human view registry.
pub fn render_human_with_registry(envelope: &Envelope, registry: &HumanViewRegistry) -> (r:
    HumanOutput)
    ensures
        r@ == registry_output(envelope@, registry@, system_of(envelope@)),
{
    match &envelope.metadata {
        Some(m) => render_human_with_registry_for_schema(envelope, registry, m.system.as_str()),
        None => render_human_with_registry_for_schema(envelope, registry, ""),
    }
}

/// The selection keeps every column.
pub open spec fn keeps_all(selection: Seq<char>) -> bool {
    selection.len() == 0 || selection == "all"@ || selection == "*"@
}

/// The columns that a selection of fields keeps, in their order.
pub open spec fn selected(columns: Seq<ColumnText>, wanted: Seq<Seq<char>>) -> Seq<ColumnText>
    decreases columns.len(),
{
    if columns.len() == 0 {
        Seq::empty()
    } else {
        let before = selected(columns.drop_last(), wanted);
        if wanted.contains(columns.last().field) {
            before.push(columns.last())
        } else {
            before
        }
    }
}

/// The columns registered for a schema id, narrowed by a selection of fields.
pub open spec fn narrowed_columns(
    views: ViewsText,
    id: Seq<char>,
    selection: Seq<char>,
) -> Option<Seq<ColumnText>> {
    match registered_columns(views, id) {
        Some(columns) => if keeps_all(selection) {
            Some(columns)
        } else {
            Some(selected(columns, envelope::wanted_fields(selection)))
        },
        None => None,
    }
}

/// What is shown of an envelope with the views of a registry and a selection of
/// fields.
pub open spec fn selected_output(
    e: EnvelopeText,
    views: ViewsText,
    id: Seq<char>,
    selection: Seq<char>,
) -> HumanOutputText {
    if e.error is None && e.data is Some && views.custom.dom().contains(id) {
        HumanOutputText::Custom(views.custom[id])
    } else {
        HumanOutputText::Rendered(human_text(e, narrowed_columns(views, id, selection)))
    }
}

fn select_columns(columns: &Vec<TableColumn>, selection: &str) -> (r: Vec<TableColumn>)
    ensures
        column_texts(r@) == selected(
            column_texts(columns@),
            envelope::wanted_fields(selection@),
        ),
{
    let wanted = envelope::split_fields(selection);
    let ghost all = column_texts(columns@);
    let ghost names = envelope::wanted_fields(selection@);
    let mut r: Vec<TableColumn> = Vec::new();
    let mut i: usize = 0;
    proof {
        assert(all.take(0) =~= Seq::empty());
        assert(column_texts(r@) =~= Seq::empty());
    }
    while i < columns.len()
        invariant
            i <= columns@.len(),
            all == column_texts(columns@),
            names == text::texts(wanted@),
            column_texts(r@) == selected(all.take(i as int), names),
        decreases columns@.len() - i,
    {
        let ghost before = r@;
        proof {
            assert(all.take(i + 1).drop_last() =~= all.take(i as int));
            assert(all.take(i + 1).last() == columns@[i as int]@);
        }
        if text::list_contains(&wanted, columns[i].field.as_str()) {
            let c = TableColumn {
                field: columns[i].field.clone(),
                header: columns[i].header.clone(),
            };
            r.push(c);
            assert(column_texts(r@) =~= column_texts(before).push(c@));
        }
        i = i + 1;
    }
    proof {
        assert(all.take(i as int) =~= all);
    }
    r
}

/// Renders an envelope using registry entries for a specific schema id, with
/// only the selected columns.
pub fn render_human_with_registry_selected(
    envelope: &Envelope,
    registry: &HumanViewRegistry,
    schema_id: &str,
    selection: &str,
) -> (r: HumanOutput)
    ensures
        r@ == selected_output(envelope@, registry@, schema_id@, selection@),
{
    if envelope.error.is_none() && envelope.data.is_some() {
        match registry.custom(schema_id) {
            Some(renderer) => {
                return HumanOutput::Custom(renderer.id);
            },
            None => {},
        }
    }
    match registry.columns(schema_id) {
        None => HumanOutput::Rendered(render_human_with_view(envelope, None)),
        Some(columns) => {
            if selection.is_empty() || text::str_eq(selection, "all") || text::str_eq(
                selection,
                "*",
            ) {
                HumanOutput::Rendered(render_human_with_view(envelope, Some(columns)))
            } else {
                let narrowed = select_columns(columns, selection);
                HumanOutput::Rendered(render_human_with_view(envelope, Some(&narrowed)))
            }
        },
    }
}

/// A cell never takes more characters than its width, as long as the text is
/// ASCII.
pub proof fn law_truncated_cell_fits(value: Seq<char>, width: nat)
    requires
        vstd::utf8::is_ascii_chars(value),
    ensures
        truncated(value, width).len() <= width,
{
    reveal_strlit("...");
    vstd::utf8::is_ascii_chars_encode_utf8(value);
}

/// A column with rows is never wider than 40.
pub proof fn law_column_width_is_capped(
    header: Seq<char>,
    field: Seq<char>,
    items: Seq<JsonModel>,
)
    requires
        items.len() > 0,
    ensures
        column_width(header, field, items) <= 40,
{
}

/// An error is shown whatever views there are.
pub proof fn law_error_is_shown_first(e: EnvelopeText, views: ViewsText, id: Seq<char>)
    requires
        e.error is Some,
    ensures
        registry_output(e, views, id) == HumanOutputText::Rendered(
            "Error: "@ + e.error->0.message + "\n"@,
        ),
{
}

/// What a cell shows of a value: a text as it is, nothing for null, and `yes`
/// or `no` for a boolean; a list shows its items one behind the other.
pub proof fn law_cell_shows_its_member(item: JsonModel, field: Seq<char>, other: JsonModel)
    ensures
        json::member(item, field) == Some(JsonModel::Bool(true)) ==> cell(item, field) == "yes"@,
        json::member(item, field) == Some(JsonModel::Bool(false)) ==> cell(item, field) == "no"@,
        json::member(item, field) == Some(JsonModel::Null) ==> cell(item, field).len() == 0,
        json::member(item, field) is None ==> cell(item, field).len() == 0,
        json::member(item, field) matches Some(JsonModel::Text(t)) ==> cell(item, field) == t,
        json::member(item, field) matches Some(JsonModel::Number(n)) ==> cell(item, field)
            == json::number_text(n),
        json::member(item, field) == json::member(other, field) ==> cell(item, field) == cell(
            other,
            field,
        ),
{
}

/// A list of texts is shown with a comma and a space between each two.
pub proof fn law_cell_shows_a_list(items: Seq<Seq<char>>)
    ensures
        shown(json::list_model(items)) == text::join_spec(items, ", "@),
        plain(json::list_model(items)) == "["@ + text::join_spec(items, " "@) + "]"@,
{
    lemma_shown_texts(items);
}

proof fn lemma_shown_texts(items: Seq<Seq<char>>)
    ensures
        shown_each(json::text_models(items)) == items,
        plain_each(json::text_models(items)) == items,
    decreases items.len(),
{
    reveal_with_fuel(shown_each, 3);
    reveal_with_fuel(plain_each, 3);
    let all = json::text_models(items);
    if items.len() > 0 {
        let init = items.drop_last();
        lemma_shown_texts(init);
        assert(all.drop_last() =~= json::text_models(init));
        assert(all.last() == JsonModel::Text(items.last()));
        assert(init.push(items.last()) =~= items);
    } else {
        assert(items =~= Seq::empty());
    }
}

/// The lines of an object are those of its columns, one behind the other, and a
/// column whose member is a text shows that text behind its header, whatever
/// the header is.
pub proof fn law_column_shows_its_field(
    object: JsonModel,
    before: Seq<ColumnText>,
    column: ColumnText,
    behind: Seq<ColumnText>,
    value: Seq<char>,
)
    requires
        json::member(object, column.field) == Some(JsonModel::Text(value)),
    ensures
        column_lines(object, seq![column]) == column.header + ": "@ + value + "\n"@,
        column_lines(object, before + seq![column] + behind) == column_lines(object, before) + (
        column.header + ": "@ + value + "\n"@) + column_lines(object, behind),
        text::contains_text(
            column_lines(object, before + seq![column] + behind),
            column.header + ": "@ + value + "\n"@,
        ),
{
    reveal_with_fuel(column_lines, 2);
    let line = column.header + ": "@ + value + "\n"@;
    assert(seq![column].drop_last() =~= Seq::empty());
    assert(seq![column].last() == column);
    assert(column_lines(object, seq![column]) =~= line);
    lemma_column_lines_add(object, before, seq![column]);
    lemma_column_lines_add(object, before + seq![column], behind);
    text::lemma_part_occurs(column_lines(object, before), line, column_lines(object, behind));
}

proof fn lemma_column_lines_add(object: JsonModel, a: Seq<ColumnText>, b: Seq<ColumnText>)
    ensures
        column_lines(object, a + b) == column_lines(object, a) + column_lines(object, b),
    decreases b.len(),
{
    if b.len() == 0 {
        assert(a + b =~= a);
        assert(column_lines(object, a) + column_lines(object, b) =~= column_lines(object, a));
    } else {
        let c = b.last();
        lemma_column_lines_add(object, a, b.drop_last());
        assert((a + b).drop_last() =~= a + b.drop_last());
        assert((a + b).last() == c);
        let line = c.header + ": "@ + cell(object, c.field) + "\n"@;
        assert(column_lines(object, a + b) =~= column_lines(object, a) + (column_lines(
            object,
            b.drop_last(),
        ) + line));
        assert(column_lines(object, b) =~= column_lines(object, b.drop_last()) + line);
    }
}

/// Another header changes no value: a column shows, behind whatever header it
/// has, the same value of the object.
pub proof fn law_header_changes_no_value(
    object: JsonModel,
    field: Seq<char>,
    header: Seq<char>,
    other: Seq<char>,
)
    ensures
        exists|value: Seq<char>|
            {
                &&& #[trigger] (header + ": "@ + value + "\n"@) == column_lines(
                    object,
                    seq![(ColumnText { field, header })],
                )
                &&& column_lines(object, seq![(ColumnText { field, header: other })]) == other
                    + ": "@ + value + "\n"@
            },
{
    reveal_with_fuel(column_lines, 2);
    let a = seq![ColumnText { field, header }];
    let b = seq![ColumnText { field, header: other }];
    let value = cell(object, field);
    assert(a.drop_last() =~= Seq::empty());
    assert(b.drop_last() =~= Seq::empty());
    assert(column_lines(object, a) =~= header + ": "@ + value + "\n"@);
    assert(column_lines(object, b) =~= other + ": "@ + value + "\n"@);
}

/// Two objects that agree on the fields of the columns are shown alike.
pub proof fn law_columns_show_only_their_fields(
    object: JsonModel,
    other: JsonModel,
    columns: Seq<ColumnText>,
)
    requires
        forall|i: int|
            0 <= i < columns.len() ==> json::member(object, (#[trigger] columns[i]).field)
                == json::member(other, columns[i].field),
    ensures
        column_lines(object, columns) == column_lines(other, columns),
    decreases columns.len(),
{
    if columns.len() > 0 {
        let init = columns.drop_last();
        assert forall|i: int| 0 <= i < init.len() implies json::member(
            object,
            (#[trigger] init[i]).field,
        ) == json::member(other, init[i].field) by {
            assert(init[i] == columns[i]);
        }
        law_columns_show_only_their_fields(object, other, init);
        assert(columns[columns.len() - 1] == columns.last());
    }
}

/// Without columns each text member of an object is shown on a line of its own,
/// behind its name.
pub proof fn law_members_are_shown(
    members: Map<Seq<char>, JsonModel>,
    order: Seq<Seq<char>>,
    name: Seq<char>,
    value: Seq<char>,
)
    requires
        ordmap::is_key_order(order, members),
        members.dom().contains(name),
        members[name] == JsonModel::Text(value),
    ensures
        text::contains_text(
            data_text(JsonModel::Object(members)),
            name + ": "@ + value + "\n"@,
        ),
{
    let object = JsonModel::Object(members);
    lemma_sorted_keys(order, members);
    assert(order.contains(name));
    let k = choose|k: int| 0 <= k < order.len() && order[k] == name;
    lemma_member_line(object, order, k);
    assert(!is_empty_object(object));
}

proof fn lemma_member_line(object: JsonModel, order: Seq<Seq<char>>, k: int)
    requires
        0 <= k < order.len(),
    ensures
        text::contains_text(
            member_lines(object, order),
            order[k] + ": "@ + cell(object, order[k]) + "\n"@,
        ),
    decreases order.len(),
{
    let line = order[k] + ": "@ + cell(object, order[k]) + "\n"@;
    let last = order.last() + ": "@ + cell(object, order.last()) + "\n"@;
    let before = member_lines(object, order.drop_last());
    assert(member_lines(object, order) =~= before + last);
    if k < order.len() - 1 {
        lemma_member_line(object, order.drop_last(), k);
        let i = choose|i: int| text::occurs_at(before, line, i);
        assert((before + last).subrange(i, i + line.len()) =~= before.subrange(i, i + line.len()));
        assert(text::occurs_at(before + last, line, i));
    } else {
        text::lemma_part_occurs(before, last, Seq::empty());
        assert(before + last + Seq::<char>::empty() =~= before + last);
    }
}

/// A cell that is not longer than 40 bytes is shown whole in a table: its text,
/// and behind it nothing but spaces.
pub proof fn law_table_shows_its_cells(
    headers: Seq<Seq<char>>,
    fields: Seq<Seq<char>>,
    items: Seq<JsonModel>,
    j: int,
    i: int,
    value: Seq<char>,
)
    requires
        headers.len() == fields.len(),
        0 <= j < items.len(),
        0 <= i < fields.len(),
        json::member(items[j], fields[i]) == Some(JsonModel::Text(value)),
        text::byte_len_spec(value) <= 40,
    ensures
        ({
            let widths = column_widths(headers, fields, items);
            let cells = row_cells(rows_of(items, fields)[j], widths);
            &&& cells[i].len() >= value.len()
            &&& cells[i].take(value.len() as int) == value
            &&& forall|k: int| value.len() <= k < cells[i].len() ==> #[trigger] cells[i][k] == ' '
            &&& text::contains_text(
                items_table(headers, fields, items),
                text::join_spec(cells, "  "@) + "\n"@,
            )
        }),
{
    let widths = column_widths(headers, fields, items);
    let rows = rows_of(items, fields);
    let cells = row_cells(rows[j], widths);
    lemma_wide_enough(headers[i], fields[i], items, j);
    assert(rows[j] == row_of(items[j], fields));
    assert(rows[j][i] == value);
    assert(cells[i] == text::pad_spec(value, widths[i]));
    assert(cells[i].take(value.len() as int) =~= value);
    lemma_row_line(rows, widths, j);
    let lines = row_lines(rows, widths);
    let line = text::join_spec(cells, "  "@) + "\n"@;
    let at = choose|at: int| text::occurs_at(lines, line, at);
    let head = text::join_spec(header_cells(headers, widths), "  "@) + "\n"@ + text::join_spec(
        rule_cells(widths),
        "  "@,
    ) + "\n"@;
    let tail = "\n("@ + text::decimal_spec(rows.len()) + " rows)\n"@;
    let table = items_table(headers, fields, items);
    assert(table =~= head + lines + tail);
    assert(table.subrange(head.len() + at, head.len() + at + line.len()) =~= lines.subrange(
        at,
        at + line.len(),
    ));
    assert(text::occurs_at(table, line, head.len() + at));
}

proof fn lemma_wide_enough(
    header: Seq<char>,
    field: Seq<char>,
    items: Seq<JsonModel>,
    j: int,
)
    requires
        0 <= j < items.len(),
        text::byte_len_spec(cell(items[j], field)) <= 40,
    ensures
        text::byte_len_spec(cell(items[j], field)) <= column_width(header, field, items),
    decreases items.len(),
{
    if j < items.len() - 1 {
        lemma_wide_enough(header, field, items.drop_last(), j);
    }
}

proof fn lemma_row_line(rows: Seq<Seq<Seq<char>>>, widths: Seq<nat>, j: int)
    requires
        0 <= j < rows.len(),
    ensures
        text::contains_text(
            row_lines(rows, widths),
            text::join_spec(row_cells(rows[j], widths), "  "@) + "\n"@,
        ),
    decreases rows.len(),
{
    let line = text::join_spec(row_cells(rows[j], widths), "  "@) + "\n"@;
    let last = text::join_spec(row_cells(rows.last(), widths), "  "@) + "\n"@;
    let before = row_lines(rows.drop_last(), widths);
    assert(row_lines(rows, widths) =~= before + last);
    if j < rows.len() - 1 {
        lemma_row_line(rows.drop_last(), widths, j);
        let i = choose|i: int| text::occurs_at(before, line, i);
        assert((before + last).subrange(i, i + line.len()) =~= before.subrange(i, i + line.len()));
        assert(text::occurs_at(before + last, line, i));
    } else {
        text::lemma_part_occurs(before, last, Seq::empty());
        assert(before + last + Seq::<char>::empty() =~= before + last);
    }
}

/// A longer cell is cut: what is shown of it is a beginning of it, and dots.
pub proof fn law_long_cell_is_cut(value: Seq<char>, width: nat)
    requires
        text::byte_len_spec(value) > width,
        width > 3,
        value.len() > width - 3,
    ensures
        truncated(value, width) == value.take(width - 3) + "..."@,
{
}

/// A column that has the same field as another shows the same cells, whatever
/// the headers are.
pub proof fn law_table_rows_show_fields(
    items: Seq<JsonModel>,
    fields: Seq<Seq<char>>,
    others: Seq<Seq<char>>,
    j: int,
    i: int,
    k: int,
)
    requires
        0 <= j < items.len(),
        0 <= i < fields.len(),
        0 <= k < others.len(),
        fields[i] == others[k],
    ensures
        rows_of(items, fields).len() == items.len(),
        rows_of(items, fields)[j].len() == fields.len(),
        rows_of(items, fields)[j][i] == rows_of(items, others)[j][k],
{
}

/// A table begins with its headers in upper case and ends with the number of
/// its items.
pub proof fn law_table_begins_and_ends(
    headers: Seq<Seq<char>>,
    fields: Seq<Seq<char>>,
    items: Seq<JsonModel>,
    i: int,
)
    requires
        headers.len() == fields.len(),
        0 <= i < headers.len(),
    ensures
        ({
            let widths = column_widths(headers, fields, items);
            let table = items_table(headers, fields, items);
            let head = text::join_spec(header_cells(headers, widths), "  "@) + "\n"@;
            let tail = "\n("@ + text::decimal_spec(items.len()) + " rows)\n"@;
            let shown_header = header_cells(headers, widths)[i];
            &&& table.len() >= head.len() + tail.len()
            &&& table.take(head.len() as int) == head
            &&& table.skip(table.len() - tail.len()) == tail
            &&& shown_header.take(text::uppercase(headers[i]).len() as int) == text::uppercase(
                headers[i],
            )
            &&& forall|k: int|
                text::uppercase(headers[i]).len() <= k < shown_header.len()
                    ==> #[trigger] shown_header[k] == ' '
        }),
{
    let widths = column_widths(headers, fields, items);
    let table = items_table(headers, fields, items);
    let head = text::join_spec(header_cells(headers, widths), "  "@) + "\n"@;
    let tail = "\n("@ + text::decimal_spec(items.len()) + " rows)\n"@;
    let middle = text::join_spec(rule_cells(widths), "  "@) + "\n"@ + row_lines(
        rows_of(items, fields),
        widths,
    );
    assert(table =~= head + middle + tail);
    assert(table.take(head.len() as int) =~= head);
    assert(table.skip(table.len() - tail.len()) =~= tail);
    assert(header_cells(headers, widths)[i].take(text::uppercase(headers[i]).len() as int)
        =~= text::uppercase(headers[i]));
}

/// Data without an error are shown with the columns of their view where there is
/// one, and the rest of the envelope changes nothing of it.
pub proof fn law_data_are_shown_with_their_columns(
    e: EnvelopeText,
    other: EnvelopeText,
    views: ViewsText,
    id: Seq<char>,
    data: JsonModel,
)
    requires
        e.error is None,
        other.error is None,
        e.data == Some(data),
        other.data == Some(data),
        !views.custom.dom().contains(id),
    ensures
        registry_output(e, views, id) == registry_output(other, views, id),
        views.columns.dom().contains(id) ==> registry_output(e, views, id)
            == HumanOutputText::Rendered(data_with_columns(data, views.columns[id])),
        !views.columns.dom().contains(id) ==> registry_output(e, views, id)
            == HumanOutputText::Rendered(data_text(data)),
{
}

/// A custom renderer gets the data of its own schema, before any columns, and
/// never an error.
pub proof fn law_custom_renderer_comes_first(
    e: EnvelopeText,
    views: ViewsText,
    id: Seq<char>,
    selection: Seq<char>,
)
    requires
        views.custom.dom().contains(id),
    ensures
        e.error is None && e.data is Some ==> registry_output(e, views, id)
            == HumanOutputText::Custom(views.custom[id]),
        registry_output(e, views, id) is Custom <==> e.error is None && e.data is Some,
        registry_output(e, views, id) is Custom <==> selected_output(e, views, id, selection)
            is Custom,
{
}

/// A selection of fields keeps the columns of those fields, in the order of the
/// view, and no others; an empty one, `all` and `*` keep every column.
pub proof fn law_selection_keeps_wanted_columns(
    columns: Seq<ColumnText>,
    wanted: Seq<Seq<char>>,
    column: ColumnText,
    behind: Seq<ColumnText>,
)
    ensures
        selected(columns, wanted).contains(column) <==> columns.contains(column)
            && wanted.contains(column.field),
        selected(columns + behind, wanted) == selected(columns, wanted) + selected(behind, wanted),
    decreases columns.len(), behind.len(),
{
    lemma_selected_add(columns, behind, wanted);
    if columns.len() > 0 {
        let init = columns.drop_last();
        law_selection_keeps_wanted_columns(init, wanted, column, Seq::empty());
        let before = selected(init, wanted);
        let all = selected(columns, wanted);
        if columns.contains(column) && column != columns.last() {
            let i = choose|i: int| 0 <= i < columns.len() && columns[i] == column;
            assert(init[i] == column);
        }
        if init.contains(column) {
            let i = choose|i: int| 0 <= i < init.len() && init[i] == column;
            assert(columns[i] == column);
        }
        if before.contains(column) {
            let i = choose|i: int| 0 <= i < before.len() && before[i] == column;
            assert(all[i] == column);
        }
        assert(columns[columns.len() - 1] == columns.last());
        if wanted.contains(columns.last().field) {
            assert(all[all.len() - 1] == columns.last());
            if all.contains(column) && column != columns.last() {
                let i = choose|i: int| 0 <= i < all.len() && all[i] == column;
                assert(before[i] == column);
            }
        }
    }
}

proof fn lemma_selected_add(a: Seq<ColumnText>, b: Seq<ColumnText>, wanted: Seq<Seq<char>>)
    ensures
        selected(a + b, wanted) == selected(a, wanted) + selected(b, wanted),
    decreases b.len(),
{
    if b.len() == 0 {
        assert(a + b =~= a);
        assert(selected(a, wanted) + selected(b, wanted) =~= selected(a, wanted));
    } else {
        lemma_selected_add(a, b.drop_last(), wanted);
        assert((a + b).drop_last() =~= a + b.drop_last());
        assert((a + b).last() == b.last());
        if wanted.contains(b.last().field) {
            assert(selected(a, wanted) + selected(b, wanted) =~= (selected(a, wanted) + selected(
                b.drop_last(),
                wanted,
            )).push(b.last()));
        }
    }
}

/// A selection that is empty, `all` or `*` shows what no selection shows.
pub proof fn law_full_selection_shows_all(
    e: EnvelopeText,
    views: ViewsText,
    id: Seq<char>,
    selection: Seq<char>,
)
    requires
        selection.len() == 0 || selection == "all"@ || selection == "*"@,
    ensures
        selected_output(e, views, id, selection) == registry_output(e, views, id),
{
}

/// A column is as wide as its header, or as its widest cell, and never wider
/// than it needs or than 40 once it has a cell.
pub proof fn law_column_width_is_needed(
    header: Seq<char>,
    field: Seq<char>,
    items: Seq<JsonModel>,
)
    ensures
        items.len() == 0 ==> column_width(header, field, items) == text::byte_len_spec(header),
        column_width(header, field, items) >= text::byte_len_spec(header) || column_width(
            header,
            field,
            items,
        ) == 40,
        column_width(header, field, items) == text::byte_len_spec(header) || column_width(
            header,
            field,
            items,
        ) == 40 || (exists|j: int|
            0 <= j < items.len() && column_width(header, field, items) == text::byte_len_spec(
                cell(#[trigger] items[j], field),
            )),
    decreases items.len(),
{
    if items.len() > 0 {
        let init = items.drop_last();
        law_column_width_is_needed(header, field, init);
        let before = column_width(header, field, init);
        let last = text::byte_len_spec(cell(items.last(), field));
        assert(items[items.len() - 1] == items.last());
        if exists|j: int|
            0 <= j < init.len() && before == text::byte_len_spec(cell(#[trigger] init[j], field)) {
            let j = choose|j: int|
                0 <= j < init.len() && before == text::byte_len_spec(
                    cell(#[trigger] init[j], field),
                );
            assert(items[j] == init[j]);
        }
    }
}

/// Where there is nothing to show, that is said; a value that is neither a list
/// nor an object is shown on one line.
pub proof fn law_nothing_and_single_values(
    e: EnvelopeText,
    columns: Seq<ColumnText>,
    data: JsonModel,
    t: Seq<char>,
)
    ensures
        data_with_columns(JsonModel::Array(Seq::empty()), columns) == "(no results)\n"@,
        data_text(JsonModel::Array(Seq::empty())) == "(no results)\n"@,
        data_text(JsonModel::Object(Map::empty())) == "(no data)\n"@,
        data_with_columns(JsonModel::Object(Map::empty()), columns) == "(no data)\n"@,
        e.error is None && e.data is None ==> human_text(e, Some(columns)) == "(no data)\n"@,
        data_text(JsonModel::Text(t)) == t + "\n"@,
        data_with_columns(JsonModel::Text(t), columns) == t + "\n"@,
        data_text(JsonModel::Bool(true)) == "true"@ + "\n"@,
        data_text(JsonModel::Bool(false)) == "false"@ + "\n"@,
        data_text(JsonModel::Null) == "<nil>"@ + "\n"@,
{
}

/// A list that is not one of objects is shown with one line for each of its
/// values, in their order.
pub proof fn law_values_have_their_lines(first: Seq<JsonModel>, second: Seq<JsonModel>, t: Seq<char>)
    ensures
        value_lines(first + second) == value_lines(first) + value_lines(second),
        value_lines(seq![JsonModel::Text(t)]) == t + "\n"@,
        second.len() > 0 && !(second[0] is Object) ==> array_text(second) == value_lines(second),
    decreases second.len(),
{
    reveal_with_fuel(value_lines, 2);
    assert(seq![JsonModel::Text(t)].drop_last() =~= Seq::empty());
    assert(value_lines(seq![JsonModel::Text(t)]) =~= t + "\n"@);
    if second.len() == 0 {
        assert(first + second =~= first);
        assert(value_lines(first) + value_lines(second) =~= value_lines(first));
    } else {
        let init = second.drop_last();
        law_values_have_their_lines(first, init, t);
        assert((first + second).drop_last() =~= first + init);
        assert((first + second).last() == second.last());
        let line = plain(second.last()) + "\n"@;
        assert(value_lines(first + second) =~= value_lines(first) + (value_lines(init) + line));
        assert(value_lines(second) =~= value_lines(init) + line);
    }
}

/// A list of objects without a view has a column for each member of its first
/// item, headed by the name of the member.
pub proof fn law_first_item_gives_the_columns(
    items: Seq<JsonModel>,
    members: Map<Seq<char>, JsonModel>,
    order: Seq<Seq<char>>,
)
    requires
        items.len() > 0,
        items[0] == JsonModel::Object(members),
        all_objects(items),
        ordmap::is_key_order(order, members),
        order.len() > 0,
    ensures
        array_text(items) == items_table(order, order, items),
{
    lemma_sorted_keys(order, members);
    assert(members.dom().contains(order[0]));
    assert(!is_empty_object(items[0]));
}

/// A list of objects with a view has a column for each column of the view, with
/// its header and its field.
pub proof fn law_view_gives_the_columns(items: Seq<JsonModel>, columns: Seq<ColumnText>, i: int)
    requires
        items.len() > 0,
        all_objects(items),
        0 <= i < columns.len(),
    ensures
        array_with_columns(items, columns) == items_table(
            headers_of(columns),
            fields_of(columns),
            items,
        ),
        headers_of(columns).len() == columns.len() && headers_of(columns)[i] == columns[i].header,
        fields_of(columns).len() == columns.len() && fields_of(columns)[i] == columns[i].field,
{
}

/// A merged registry has the views of both, and where both have one that of the
/// second.
pub proof fn law_merged_views(first: ViewsText, second: ViewsText, id: Seq<char>)
    ensures
        ({
            let all = merged_views(first, second);
            &&& all.columns.dom().contains(id) <==> first.columns.dom().contains(id)
                || second.columns.dom().contains(id)
            &&& second.columns.dom().contains(id) ==> all.columns[id] == second.columns[id]
            &&& first.columns.dom().contains(id) && !second.columns.dom().contains(id)
                ==> all.columns[id] == first.columns[id]
            &&& all.custom.dom().contains(id) <==> first.custom.dom().contains(id)
                || second.custom.dom().contains(id)
            &&& second.custom.dom().contains(id) ==> all.custom[id] == second.custom[id]
            &&& first.custom.dom().contains(id) && !second.custom.dom().contains(id)
                ==> all.custom[id] == first.custom[id]
        }),
{
}

/// Without a schema id of its own an envelope is shown with the view of its
/// system.
pub proof fn law_system_names_the_view(e: EnvelopeText)
    ensures
        e.metadata matches Some(m) ==> system_of(e) == m.system,
        e.metadata is None ==> system_of(e).len() == 0,
{
    reveal_strlit("");
}

/// In a narrow column a long cell is cut without dots.
pub proof fn law_narrow_cell_is_cut(value: Seq<char>, width: nat)
    requires
        text::byte_len_spec(value) > width,
        width <= 3,
        value.len() > width,
    ensures
        truncated(value, width) == value.take(width as int),
{
}

/// A cell that holds an object shows it in one line.
pub proof fn law_cell_shows_an_object(
    item: JsonModel,
    field: Seq<char>,
    members: Map<Seq<char>, JsonModel>,
    line: Seq<char>,
)
    requires
        json::member(item, field) == Some(JsonModel::Object(members)),
        json_bridge::compact_text(JsonModel::Object(members)) == Some(line),
    ensures
        cell(item, field) == line,
        plain(JsonModel::Object(members)) == line,
{
}

/// Under the headers of a table stands a rule of dashes, as wide as each column.
pub proof fn law_table_has_a_rule(
    headers: Seq<Seq<char>>,
    fields: Seq<Seq<char>>,
    items: Seq<JsonModel>,
    i: int,
    k: int,
)
    requires
        headers.len() == fields.len(),
        0 <= i < headers.len(),
    ensures
        ({
            let widths = column_widths(headers, fields, items);
            let rule = rule_cells(widths);
            &&& rule.len() == headers.len()
            &&& rule[i].len() == column_width(headers[i], fields[i], items)
            &&& 0 <= k < rule[i].len() ==> rule[i][k] == '-'
            &&& text::contains_text(
                items_table(headers, fields, items),
                "\n"@ + text::join_spec(rule, "  "@) + "\n"@,
            )
        }),
{
    let widths = column_widths(headers, fields, items);
    let rule = rule_cells(widths);
    let table = items_table(headers, fields, items);
    let head = text::join_spec(header_cells(headers, widths), "  "@);
    let part = "\n"@ + text::join_spec(rule, "  "@) + "\n"@;
    let tail = row_lines(rows_of(items, fields), widths) + "\n("@ + text::decimal_spec(items.len())
        + " rows)\n"@;
    text::lemma_part_occurs(head, part, tail);
    assert(table =~= head + part + tail);
}

} // verus!
