//! What is done to the data of a command before it is shown.
use crate::error::CliCoreError;
use crate::error;
use crate::json::{Json, JsonModel};
use crate::json;
use crate::json_bridge;
use crate::output::envelope::PaginationMeta;
use crate::text;
use vstd::prelude::*;
use vstd::string::*;

verus! {

/// Options for the output pipeline.
pub struct PipelineOpts {
    /// JMESPath predicate applied to each list item.
    pub filter: String,
    /// Client-side page size.
    pub limit: i64,
    /// Client-side page offset.
    pub offset: i64,
    /// JMESPath expression applied to the whole result.
    pub expr: String,
    /// Comma-separated field projection.
    pub fields: String,
}

impl Default for PipelineOpts {
    fn default() -> (r: Self)
        ensures
            r.filter@.len() == 0,
            r.limit == 0,
            r.offset == 0,
            r.expr@.len() == 0,
            r.fields@.len() == 0,
    {
        PipelineOpts {
            filter: String::new(),
            limit: 0,
            offset: 0,
            expr: String::new(),
            fields: String::new(),
        }
    }
}

/// `jmespath::Expression`.
#[verifier::external_type_specification]
#[verifier::external_body]
pub struct ExExpression<'a>(jmespath::Expression<'a>);

/// `jmespath::Variable`.
#[verifier::external_type_specification]
#[verifier::external_body]
pub struct ExVariable(jmespath::Variable);

/// What a result of `jmespath` says.
pub uninterp spec fn variable_view(v: jmespath::Variable) -> FoundText;

/// The query that an expression was compiled from.
pub uninterp spec fn expression_text(e: jmespath::Expression<'static>) -> Seq<char>;

/// What is wrong with a query, if anything is.
pub uninterp spec fn query_error(query: Seq<char>) -> Option<Seq<char>>;

/// What a query gives on a value, or why it failed.
pub uninterp spec fn search_outcome(query: Seq<char>, data: JsonModel) -> Result<
    FoundText,
    Seq<char>,
>;

/// The result of a query: whether it counts as true, and its JSON value.
pub struct Found {
    /// The result counts as true.
    pub truthy: bool,
    /// The value, or why the result is no JSON.
    pub value: Result<Json, String>,
}

/// What the result of a query says.
pub struct FoundText {
    /// The result counts as true.
    pub truthy: bool,
    /// The value, or why the result is no JSON.
    pub value: Result<JsonModel, Seq<char>>,
}

impl View for Found {
    type V = FoundText;

    open spec fn view(&self) -> FoundText {
        FoundText {
            truthy: self.truthy,
            value: match self.value {
                Ok(v) => Ok(v@),
                Err(e) => Err(e@),
            },
        }
    }
}

/// A JSON value counts as true for a query.
pub open spec fn counts_as_true(v: JsonModel) -> bool {
    match v {
        JsonModel::Null => false,
        JsonModel::Bool(b) => b,
        JsonModel::Number(_) => true,
        JsonModel::Text(t) => t.len() > 0,
        JsonModel::Array(items) => items.len() > 0,
        JsonModel::Object(members) => !(members.dom() =~= Set::<Seq<char>>::empty()),
    }
}

/// A slice of a list in a query: where it starts, if it says so, and its step.
#[derive(Clone, Copy)]
pub struct Slice {
    /// The first place; a negative one counts from the end.
    pub start: Option<i64>,
    /// How far it goes from one place to the next.
    pub step: i64,
}

/// How far a query was looked through for slices.
#[derive(Clone, Copy)]
pub struct SliceScan {
    /// The quotation mark of the text that is being looked through.
    pub quote: Option<char>,
    /// A backslash came last in that text.
    pub escaped: bool,
    /// A bracket came, and after it only what a slice may have.
    pub open: bool,
    /// How many colons came since, at most three.
    pub colons: u8,
    /// The number that came last.
    pub number: Option<i64>,
    /// A dash came before it.
    pub negative: bool,
    /// The number before the first colon.
    pub start: Option<i64>,
}

/// No number of a query that compiles is as large.
pub const NUMBER_LIMIT: i64 = 10_000_000_000;

/// No slice has begun.
pub open spec fn scan_start() -> SliceScan {
    SliceScan {
        quote: None,
        escaped: false,
        open: false,
        colons: 0,
        number: None,
        negative: false,
        start: None,
    }
}

/// The number that came last, with its sign.
pub open spec fn signed_number(s: SliceScan) -> Option<i64> {
    match s.number {
        Some(n) => Some(
            if s.negative {
                (0 - n) as i64
            } else {
                n
            },
        ),
        None => None,
    }
}

/// A number with one more digit, as far as it matters.
pub open spec fn grown(number: Option<i64>, c: char) -> i64 {
    let before = match number {
        Some(n) => n,
        None => 0i64,
    };
    let n = before * 10 + (c as int - '0' as int);
    if n < NUMBER_LIMIT {
        n as i64
    } else {
        NUMBER_LIMIT
    }
}

/// One more character has come.
pub open spec fn scan_next(s: SliceScan, c: char) -> SliceScan {
    match s.quote {
        Some(q) => if s.escaped {
            SliceScan { escaped: false, ..s }
        } else if c == '\\' {
            SliceScan { escaped: true, ..s }
        } else if c == q {
            scan_start()
        } else {
            s
        },
        None => if c == '\'' || c == '"' || c == '`' {
            SliceScan { quote: Some(c), ..scan_start() }
        } else if c == '[' {
            SliceScan { open: true, ..scan_start() }
        } else if !s.open {
            s
        } else if c == ':' {
            SliceScan {
                colons: if s.colons < 3 {
                    (s.colons + 1) as u8
                } else {
                    3
                },
                number: None,
                negative: false,
                start: if s.colons == 0 {
                    signed_number(s)
                } else {
                    s.start
                },
                ..s
            }
        } else if '0' <= c <= '9' {
            SliceScan { number: Some(grown(s.number, c)), ..s }
        } else if c == '-' {
            SliceScan { negative: true, ..s }
        } else if c == ' ' || c == '\t' || c == '\n' || c == '\r' {
            s
        } else {
            scan_start()
        },
    }
}

/// The slice that a character ends, if it ends one.
pub open spec fn ended_slice(s: SliceScan, c: char) -> Option<Slice> {
    if s.quote is None && s.open && s.colons > 0 && c == ']' {
        Some(
            Slice {
                start: s.start,
                step: match (s.colons == 2, signed_number(s)) {
                    (true, Some(n)) => n,
                    _ => 1,
                },
            },
        )
    } else {
        None
    }
}

/// How far the query was looked through, and the slices in it.
pub open spec fn scanned(query: Seq<char>) -> (SliceScan, Seq<Slice>)
    decreases query.len(),
{
    if query.len() == 0 {
        (scan_start(), Seq::empty())
    } else {
        let (s, slices) = scanned(query.drop_last());
        let c = query.last();
        (
            scan_next(s, c),
            match ended_slice(s, c) {
                Some(slice) => slices.push(slice),
                None => slices,
            },
        )
    }
}

/// How far the places of a slice reach in lists of up to `bound` items, before
/// the last step is taken.
pub open spec fn reach(slice: Slice, bound: int) -> int {
    if slice.step < bound {
        bound
    } else {
        match slice.start {
            None => 0,
            Some(k) => if 0 <= k < bound {
                k as int
            } else {
                bound
            },
        }
    }
}

/// A place of the slice can be out of range in a list of up to `bound` items.
pub open spec fn slice_overflows(slice: Slice, bound: int) -> bool {
    bound > i32::MAX || (slice.step > 0 && reach(slice, bound) + slice.step > i32::MAX)
}

/// No list that a query makes out of others has more items than this.
pub const LIST_LIMIT: i64 = 1_147_483_647;

/// The query may make lists that are longer than those at hand: it flattens
/// lists, or reads text as JSON.
pub open spec fn makes_lists(query: Seq<char>) -> bool {
    text::contains_text(query, "[]"@) || text::contains_text(query, "to_number"@)
}

/// How many items a list can have while a query runs on data: the text of the
/// data and that of the query have at least as many characters.
pub open spec fn list_bound(query: Seq<char>, data: JsonModel) -> int {
    match (makes_lists(query), json_bridge::compact_text(data)) {
        (false, Some(t)) => (t.len() + query.len()) as int,
        _ => LIST_LIMIT as int,
    }
}

/// A slice of the query can leave the range of places while it runs on data.
pub open spec fn overflows(query: Seq<char>, data: JsonModel) -> bool {
    exists|i: int|
        0 <= i < scanned(query).1.len() && #[trigger] slice_overflows(
            scanned(query).1[i],
            list_bound(query, data),
        )
}

fn signed(s: SliceScan) -> (r: Option<i64>)
    requires
        s.number matches Some(n) ==> 0 <= n <= NUMBER_LIMIT,
    ensures
        r == signed_number(s),
{
    match s.number {
        Some(n) => {
            let m: i64 = if s.negative {
                0 - n
            } else {
                n
            };
            Some(m)
        },
        None => None,
    }
}

fn next_scan(s: SliceScan, c: char) -> (r: SliceScan)
    requires
        s.number matches Some(n) ==> 0 <= n <= NUMBER_LIMIT,
    ensures
        r == scan_next(s, c),
        r.number matches Some(n) ==> 0 <= n <= NUMBER_LIMIT,
{
    let start = SliceScan {
        quote: None,
        escaped: false,
        open: false,
        colons: 0,
        number: None,
        negative: false,
        start: None,
    };
    if let Some(q) = s.quote {
        return if s.escaped {
            SliceScan { escaped: false, ..s }
        } else if c == '\\' {
            SliceScan { escaped: true, ..s }
        } else if c == q {
            start
        } else {
            s
        };
    }
    if c == '\'' || c == '"' || c == '`' {
        SliceScan { quote: Some(c), ..start }
    } else if c == '[' {
        SliceScan { open: true, ..start }
    } else if !s.open {
        s
    } else if c == ':' {
        let colons: u8 = if s.colons < 3 {
            s.colons + 1
        } else {
            3
        };
        let first = if s.colons == 0 {
            signed(s)
        } else {
            s.start
        };
        SliceScan { colons, number: None, negative: false, start: first, ..s }
    } else if '0' <= c && c <= '9' {
        let before: i64 = match s.number {
            Some(n) => n,
            None => 0,
        };
        let n: i64 = before * 10 + (c as u32 - '0' as u32) as i64;
        let kept: i64 = if n < NUMBER_LIMIT {
            n
        } else {
            NUMBER_LIMIT
        };
        SliceScan { number: Some(kept), ..s }
    } else if c == '-' {
        SliceScan { negative: true, ..s }
    } else if c == ' ' || c == '\t' || c == '\n' || c == '\r' {
        s
    } else {
        start
    }
}

/// The slices of a query.
pub fn slices_of(query: &str) -> (r: Vec<Slice>)
    ensures
        r@ == scanned(query@).1,
{
    let v = text::chars_of(query);
    let mut s = SliceScan {
        quote: None,
        escaped: false,
        open: false,
        colons: 0,
        number: None,
        negative: false,
        start: None,
    };
    let mut r: Vec<Slice> = Vec::new();
    let mut i: usize = 0;
    assert(v@.take(0) =~= Seq::empty());
    while i < v.len()
        invariant
            i <= v@.len(),
            s == scanned(v@.take(i as int)).0,
            r@ == scanned(v@.take(i as int)).1,
            s.number matches Some(n) ==> 0 <= n <= NUMBER_LIMIT,
        decreases v@.len() - i,
    {
        assert(v@.take(i + 1).drop_last() =~= v@.take(i as int));
        let c = v[i];
        if s.quote.is_none() && s.open && s.colons > 0 && c == ']' {
            let step: i64 = match (s.colons == 2, signed(s)) {
                (true, Some(n)) => n,
                _ => 1,
            };
            r.push(Slice { start: s.start, step });
        }
        s = next_scan(s, c);
        i = i + 1;
    }
    assert(v@.take(i as int) =~= query@);
    r
}

fn out_of_range(slice: &Slice, bound: usize) -> (r: bool)
    ensures
        r == slice_overflows(*slice, bound as int),
{
    let most: i64 = i32::MAX as i64;
    if bound > i32::MAX as usize {
        return true;
    }
    let bound = bound as i64;
    if slice.step <= 0 {
        return false;
    }
    if slice.step > most {
        return true;
    }
    let furthest: i64 = if slice.step < bound {
        bound
    } else {
        match slice.start {
            None => 0,
            Some(k) => {
                if 0 <= k && k < bound {
                    k
                } else {
                    bound
                }
            },
        }
    };
    furthest + slice.step > most
}

/// Tells whether a slice of the query can leave the range of places while it
/// runs on data.
fn may_overflow(query: &str, data: &serde_json::Value) -> (r: bool)
    ensures
        r == overflows(query@, json_bridge::serde_model(*data)),
{
    let slices = slices_of(query);
    if slices.len() == 0 {
        return false;
    }
    let ghost bound = list_bound(query@, json_bridge::serde_model(*data));
    let limit: usize = if text::contains_str(query, "[]") || text::contains_str(query, "to_number") {
        LIST_LIMIT as usize
    } else {
        match json_bridge::value_text(data) {
            Some(t) => {
                let a = text::chars_of(t.as_str());
                let b = text::chars_of(query);
                match a.len().checked_add(b.len()) {
                    Some(n) => n,
                    None => {
                        proof {
                            assert(slice_overflows(scanned(query@).1[0], bound));
                        }
                        return true;
                    },
                }
            },
            None => LIST_LIMIT as usize,
        }
    };
    let mut i: usize = 0;
    while i < slices.len()
        invariant
            i <= slices@.len(),
            slices@ == scanned(query@).1,
            limit == list_bound(query@, json_bridge::serde_model(*data)),
            forall|k: int|
                0 <= k < i ==> !slice_overflows(
                    #[trigger] scanned(query@).1[k],
                    list_bound(query@, json_bridge::serde_model(*data)),
                ),
        decreases slices@.len() - i,
    {
        if out_of_range(&slices[i], limit) {
            assert(slice_overflows(
                scanned(query@).1[i as int],
                list_bound(query@, json_bridge::serde_model(*data)),
            ));
            return true;
        }
        i = i + 1;
    }
    false
}

/// `compile` of `jmespath`: whether a query compiles, and the complaint where
/// it does not, is a function of the query.
#[verifier::external_body]
pub(crate) fn compile(query: &str) -> (r: Result<jmespath::Expression<'static>, String>)
    ensures
        match r {
            Ok(e) => query_error(query@) is None && expression_text(e) == query@,
            Err(e) => query_error(query@) == Some(e@),
        },
{
    jmespath::compile(query).map_err(|e| e.to_string())
}

/// `Expression::search` of `jmespath`: the result, or the complaint, is a
/// function of the query and of what the data holds. A slice adds its step to a
/// place in a list, in 32 bits; a list has no more items than the texts of the
/// data and of the query have characters, unless the query flattens lists or
/// reads text as JSON.
#[verifier::external_body]
pub(crate) fn search(
    expression: &jmespath::Expression<'static>,
    data: &serde_json::Value,
) -> (r: Result<std::rc::Rc<jmespath::Variable>, String>)
    requires
        !overflows(expression_text(*expression), json_bridge::serde_model(*data)),
    ensures
        match r {
            Ok(v) => search_outcome(
                expression_text(*expression),
                json_bridge::serde_model(*data),
            ) == Ok::<FoundText, Seq<char>>(variable_view(*v)),
            Err(e) => search_outcome(
                expression_text(*expression),
                json_bridge::serde_model(*data),
            ) == Err::<FoundText, Seq<char>>(e@),
        },
{
    expression.search(data).map_err(|e| e.to_string())
}

/// `Variable::is_truthy` of `jmespath`. An expression reference, which is a text
/// as JSON, does not count as true; anything else counts as its JSON value does.
#[verifier::external_body]
pub(crate) fn is_truthy(v: &jmespath::Variable) -> (r: bool)
    ensures
        r == variable_view(*v).truthy,
        variable_view(*v).value matches Ok(m) ==> (m is Text && m->Text_0.len() > 0) || r
            == counts_as_true(m),
{
    v.is_truthy()
}

/// `to_value` of `serde_json` on a result of `jmespath`.
#[verifier::external_body]
pub(crate) fn variable_value(v: &jmespath::Variable) -> (r: Result<serde_json::Value, String>)
    ensures
        match r {
            Ok(m) => variable_view(*v).value == Ok::<JsonModel, Seq<char>>(
                json_bridge::serde_model(m),
            ),
            Err(e) => variable_view(*v).value == Err::<JsonModel, Seq<char>>(e@),
        },
{
    serde_json::to_value(v).map_err(|e| e.to_string())
}

/// What a query gives on a value, or why it failed. It fails where a slice can
/// leave the range of places.
pub open spec fn query_outcome(query: Seq<char>, data: JsonModel) -> Result<FoundText, Seq<char>> {
    if overflows(query, data) {
        Err("slice step exceeds supported range"@)
    } else {
        search_outcome(query, data)
    }
}

/// `Expression::as_str` of `jmespath`: the query that the expression was
/// compiled from.
#[verifier::external_body]
fn compiled_text(expression: &jmespath::Expression<'static>) -> (r: String)
    ensures
        r@ == expression_text(*expression),
{
    expression.as_str().to_owned()
}

/// The message for a query that does not compile.
pub open spec fn invalid_query(e: Seq<char>) -> Seq<char> {
    "expr: invalid JMESPath query: "@ + e
}

/// The message for a query that fails.
pub open spec fn failed_query(e: Seq<char>) -> Seq<char> {
    "expr: JMESPath query failed: "@ + e
}

/// The message for a query whose result is no JSON.
pub open spec fn invalid_result(e: Seq<char>) -> Seq<char> {
    "expr: invalid result: "@ + e
}

fn prefixed(prefix: &str, e: &str) -> (r: CliCoreError)
    ensures
        error::is_message(r, prefix@ + e@),
{
    let mut m = prefix.to_owned();
    m.append(e);
    CliCoreError::message(m)
}

/// Compiles a query, without the white space around it.
pub fn compile_query(expression: &str) -> (r: Result<jmespath::Expression<'static>, CliCoreError>)
    ensures
        match r {
            Ok(e) => query_error(text::trim_spec(expression@)) is None && expression_text(e)
                == text::trim_spec(expression@),
            Err(e) => query_error(text::trim_spec(expression@)) matches Some(m)
                && error::is_message(e, invalid_query(m)),
        },
{
    let trimmed = text::trim(expression);
    match compile(trimmed.as_str()) {
        Ok(e) => Ok(e),
        Err(m) => Err(prefixed("expr: invalid JMESPath query: ", m.as_str())),
    }
}

/// Runs a query on a value.
pub fn search_query(expression: &jmespath::Expression<'static>, data: &Json) -> (r: Result<
    Found,
    CliCoreError,
>)
    ensures
        match r {
            Ok(f) => query_outcome(expression_text(*expression), data@) == Ok::<
                FoundText,
                Seq<char>,
            >(f@),
            Err(e) => query_outcome(expression_text(*expression), data@) matches Err(m)
                && error::is_message(e, failed_query(m)),
        },
{
    let value = json_bridge::to_serde(data);
    if may_overflow(compiled_text(expression).as_str(), &value) {
        return Err(
            prefixed("expr: JMESPath query failed: ", "slice step exceeds supported range"),
        );
    }
    match search(expression, &value) {
        Ok(v) => {
            let truthy = is_truthy(&*v);
            let value = match variable_value(&*v) {
                Ok(m) => Ok(json_bridge::from_serde(m)),
                Err(e) => Err(e),
            };
            Ok(Found { truthy, value })
        },
        Err(m) => Err(prefixed("expr: JMESPath query failed: ", m.as_str())),
    }
}

/// The items for which the query gives something that counts as true, or the
/// complaint about the first on which it fails.
pub open spec fn retained(query: Seq<char>, items: Seq<JsonModel>) -> Result<
    Seq<JsonModel>,
    Seq<char>,
>
    decreases items.len(),
{
    if items.len() == 0 {
        Ok(Seq::empty())
    } else {
        match retained(query, items.drop_last()) {
            Err(e) => Err(e),
            Ok(kept) => match query_outcome(query, items.last()) {
                Err(e) => Err(failed_query(e)),
                Ok(f) => Ok(
                    if f.truthy {
                        kept.push(items.last())
                    } else {
                        kept
                    },
                ),
            },
        }
    }
}

/// What a step leaves of the data, and the message that it fails with.
#[verifier::ext_equal]
pub struct Step {
    /// The data after the step.
    pub data: JsonModel,
    /// Why the step failed, if it did.
    pub failure: Option<Seq<char>>,
}

/// The data and the outcome are those of the step.
pub open spec fn step_done(data: JsonModel, r: Result<(), CliCoreError>, s: Step) -> bool {
    &&& data == s.data
    &&& match r {
        Ok(()) => s.failure is None,
        Err(e) => s.failure matches Some(m) && error::is_message(e, m),
    }
}

/// Keeps the items of a list for which a query counts as true.
pub open spec fn filtered(data: JsonModel, expression: Seq<char>) -> Step {
    let query = text::trim_spec(expression);
    match data {
        JsonModel::Array(items) => match query_error(query) {
            Some(e) => Step { data, failure: Some(invalid_query(e)) },
            None => match retained(query, items) {
                Ok(kept) => Step { data: JsonModel::Array(kept), failure: None },
                Err(e) => Step { data: JsonModel::Array(Seq::empty()), failure: Some(e) },
            },
        },
        _ => Step {
            data,
            failure: Some("filter requires list data; use --expr for single objects"@),
        },
    }
}

/// Once an item fails the query, so does every longer list.
proof fn lemma_retained_prefix(query: Seq<char>, items: Seq<JsonModel>, n: int)
    requires
        0 <= n <= items.len(),
        retained(query, items.take(n)) is Err,
    ensures
        retained(query, items) == retained(query, items.take(n)),
    decreases items.len() - n,
{
    if n < items.len() {
        assert(items.take(n + 1).drop_last() =~= items.take(n));
        lemma_retained_prefix(query, items, n + 1);
    } else {
        assert(items.take(n) =~= items);
    }
}

/// Keeps the items of a list for which a query counts as true.
pub fn apply_filter(data: &mut Json, expression: &str) -> (r: Result<(), CliCoreError>)
    ensures
        step_done(final(data)@, r, filtered(old(data)@, expression@)),
{
    broadcast use json::group_json;

    let items: Vec<Json> = match data {
        Json::Array(items) => json::copy_values(items),
        _ => {
            return Err(
                CliCoreError::message(
                    "filter requires list data; use --expr for single objects".to_owned(),
                ),
            );
        },
    };
    let query = match compile_query(expression) {
        Ok(q) => q,
        Err(e) => {
            return Err(e);
        },
    };
    let ghost q = expression_text(query);
    let ghost all = json::models(items@);
    let mut kept: Vec<Json> = Vec::new();
    let mut i: usize = 0;
    proof {
        assert(all.take(0) =~= Seq::empty());
        assert(json::models(kept@) =~= Seq::empty());
    }
    while i < items.len()
        invariant
            i <= items@.len(),
            all == json::models(items@),
            q == expression_text(query),
            q == text::trim_spec(expression@),
            query_error(q) is None,
            old(data)@ == JsonModel::Array(all),
            retained(q, all.take(i as int)) == Ok::<Seq<JsonModel>, Seq<char>>(
                json::models(kept@),
            ),
        decreases items@.len() - i,
    {
        proof {
            broadcast use json::group_json;

            assert(all.take(i + 1).drop_last() =~= all.take(i as int));
            assert(all.take(i + 1).last() == items@[i as int]@);
        }
        match search_query(&query, &items[i]) {
            Ok(found) => {
                if found.truthy {
                    let ghost before = kept@;
                    let c = items[i].copy();
                    kept.push(c);
                    proof {
                        broadcast use json::group_json;

                        assert(json::models(kept@) =~= json::models(before).push(c@));
                    }
                }
            },
            Err(e) => {
                proof {
                    lemma_retained_prefix(q, all, i + 1);
                }
                *data = Json::Array(Vec::new());
                proof {
                    broadcast use json::group_json;

                    assert(data@->Array_0 =~= Seq::empty());
                }
                return Err(e);
            },
        }
        i = i + 1;
    }
    proof {
        assert(all.take(i as int) =~= all);
    }
    *data = Json::Array(kept);
    Ok(())
}

/// Puts the value that a query gives in the place of the data.
pub open spec fn evaluated(data: JsonModel, expression: Seq<char>) -> Step {
    let query = text::trim_spec(expression);
    match query_error(query) {
        Some(e) => Step { data, failure: Some(invalid_query(e)) },
        None => match query_outcome(query, data) {
            Err(e) => Step { data, failure: Some(failed_query(e)) },
            Ok(f) => match f.value {
                Ok(v) => Step { data: v, failure: None },
                Err(e) => Step { data, failure: Some(invalid_result(e)) },
            },
        },
    }
}

/// Puts the value that a query gives in the place of the data.
pub fn apply_expr(data: &mut Json, expression: &str) -> (r: Result<(), CliCoreError>)
    ensures
        step_done(final(data)@, r, evaluated(old(data)@, expression@)),
{
    let query = match compile_query(expression) {
        Ok(q) => q,
        Err(e) => {
            return Err(e);
        },
    };
    match search_query(&query, &*data) {
        Ok(found) => match found.value {
            Ok(v) => {
                *data = v;
                Ok(())
            },
            Err(e) => Err(prefixed("expr: invalid result: ", e.as_str())),
        },
        Err(e) => Err(e),
    }
}

/// Where a page starts in a list.
pub open spec fn page_start(total: nat, offset: i64) -> int {
    if offset < total {
        offset as int
    } else {
        total as int
    }
}

/// Where a page ends in a list.
pub open spec fn page_end(total: nat, offset: i64, limit: i64) -> int {
    let start = page_start(total, offset);
    if limit > 0 && start + limit < total {
        start + limit
    } else {
        total as int
    }
}

/// What is wrong with a page of a list of `total` items, if anything is.
pub open spec fn page_failure(total: nat, offset: i64, limit: i64) -> Option<Seq<char>> {
    if total > i64::MAX {
        Some("pagination: list length exceeds supported range"@)
    } else if offset < 0 {
        Some("pagination: offset must be non-negative"@)
    } else if limit > usize::MAX {
        Some("pagination: limit exceeds supported range"@)
    } else {
        None
    }
}

/// The page that starts after `offset` items and holds at most `limit`, where
/// a limit of zero or less is none. Data that is no list has no pages.
pub open spec fn paged(data: JsonModel, offset: i64, limit: i64) -> Step {
    match data {
        JsonModel::Array(items) => match page_failure(items.len(), offset, limit) {
            Some(m) => Step { data, failure: Some(m) },
            None => Step {
                data: JsonModel::Array(
                    items.subrange(
                        page_start(items.len(), offset),
                        page_end(items.len(), offset, limit),
                    ),
                ),
                failure: None,
            },
        },
        _ => Step { data, failure: None },
    }
}

/// What is told about the page.
pub open spec fn page_meta(data: JsonModel, offset: i64, limit: i64) -> Option<PaginationMeta> {
    match data {
        JsonModel::Array(items) => {
            let total = items.len();
            Some(
                PaginationMeta {
                    total: total as i64,
                    offset,
                    limit,
                    count: (page_end(total, offset, limit) - page_start(total, offset)) as i64,
                },
            )
        },
        _ => None,
    }
}

/// The outcome of a step that may tell about a page.
pub open spec fn page_done(
    data: JsonModel,
    r: Result<Option<PaginationMeta>, CliCoreError>,
    s: Step,
    meta: Option<PaginationMeta>,
) -> bool {
    &&& data == s.data
    &&& match r {
        Ok(m) => s.failure is None && m == meta,
        Err(e) => s.failure matches Some(m) && error::is_message(e, m),
    }
}

/// Cuts a list down to a page.
pub fn apply_pagination(data: &mut Json, offset: i64, limit: i64) -> (r: Result<
    Option<PaginationMeta>,
    CliCoreError,
>)
    ensures
        page_done(
            final(data)@,
            r,
            paged(old(data)@, offset, limit),
            page_meta(old(data)@, offset, limit),
        ),
{
    broadcast use json::group_json;

    let items: Vec<Json> = match data {
        Json::Array(items) => json::copy_values(items),
        _ => {
            return Ok(None);
        },
    };
    let total: usize = items.len();
    if total as u64 > i64::MAX as u64 {
        return Err(
            CliCoreError::message("pagination: list length exceeds supported range".to_owned()),
        );
    }
    if offset < 0 {
        return Err(CliCoreError::message("pagination: offset must be non-negative".to_owned()));
    }
    let start: usize = if (offset as u64) < total as u64 {
        offset as usize
    } else {
        total
    };
    let mut end: usize = total;
    if limit > 0 {
        if limit as u64 > usize::MAX as u64 {
            return Err(
                CliCoreError::message("pagination: limit exceeds supported range".to_owned()),
            );
        }
        if (limit as usize) < total - start {
            end = start + limit as usize;
        }
    }
    let mut page: Vec<Json> = Vec::new();
    let mut i: usize = start;
    while i < end
        invariant
            start <= i <= end <= items@.len(),
            page@.len() == i - start,
            forall|k: int| 0 <= k < page@.len() ==> (#[trigger] page@[k])@ == items@[start + k]@,
        decreases end - i,
    {
        let c = items[i].copy();
        page.push(c);
        i = i + 1;
    }
    proof {
        assert(json::models(page@) =~= json::models(items@).subrange(start as int, end as int));
    }
    *data = Json::Array(page);
    Ok(
        Some(
            PaginationMeta {
                total: total as i64,
                offset,
                limit,
                count: (end - start) as i64,
            },
        ),
    )
}

/// The step `next` after the step `s`, unless that failed.
pub open spec fn continued(s: Step, next: spec_fn(JsonModel) -> Step) -> Step {
    if s.failure is Some {
        s
    } else {
        next(s.data)
    }
}

/// The data after the filter.
pub open spec fn after_filter(data: JsonModel, opts: PipelineOpts) -> Step {
    if opts.filter@.len() > 0 {
        filtered(data, opts.filter@)
    } else {
        Step { data, failure: None }
    }
}

/// The options ask for a page.
pub open spec fn wants_page(opts: PipelineOpts) -> bool {
    opts.limit > 0 || opts.offset > 0
}

/// The data after the filter and the page.
pub open spec fn after_page(data: JsonModel, opts: PipelineOpts) -> Step {
    continued(
        after_filter(data, opts),
        |d: JsonModel|
            if wants_page(opts) {
                paged(d, opts.offset, opts.limit)
            } else {
                Step { data: d, failure: None }
            },
    )
}

/// The data after the filter, the page and the expression.
pub open spec fn after_expr(data: JsonModel, opts: PipelineOpts) -> Step {
    continued(
        after_page(data, opts),
        |d: JsonModel|
            if opts.expr@.len() > 0 {
                evaluated(d, opts.expr@)
            } else {
                Step { data: d, failure: None }
            },
    )
}

/// What the pipeline tells about the page.
pub open spec fn pipeline_meta(data: JsonModel, opts: PipelineOpts) -> Option<PaginationMeta> {
    if wants_page(opts) {
        page_meta(after_filter(data, opts).data, opts.offset, opts.limit)
    } else {
        None
    }
}

/// Applies filter, pagination and expression, in this order.
pub fn apply_steps(data: &mut Json, opts: &PipelineOpts) -> (r: Result<
    Option<PaginationMeta>,
    CliCoreError,
>)
    ensures
        page_done(
            final(data)@,
            r,
            after_expr(old(data)@, *opts),
            pipeline_meta(old(data)@, *opts),
        ),
        r is Ok && opts.expr@.len() > 0 && !overflows(
            text::trim_spec(opts.expr@),
            after_page(old(data)@, *opts).data,
        ) ==> (search_outcome(
            text::trim_spec(opts.expr@),
            after_page(old(data)@, *opts).data,
        ) matches Ok(f) && f.value == Ok::<JsonModel, Seq<char>>(final(data)@)),
{
    if !opts.filter.as_str().is_empty() {
        match apply_filter(data, opts.filter.as_str()) {
            Ok(()) => {},
            Err(e) => {
                return Err(e);
            },
        }
    }
    let mut pagination: Option<PaginationMeta> = None;
    if opts.limit > 0 || opts.offset > 0 {
        match apply_pagination(data, opts.offset, opts.limit) {
            Ok(m) => {
                pagination = m;
            },
            Err(e) => {
                return Err(e);
            },
        }
    }
    if !opts.expr.as_str().is_empty() {
        match apply_expr(data, opts.expr.as_str()) {
            Ok(()) => {},
            Err(e) => {
                return Err(e);
            },
        }
    }
    Ok(pagination)
}

/// `p` is what the projection gives on `d`.
pub open spec fn is_projected<F: Fn(&Json, &str) -> Json>(
    project: F,
    d: JsonModel,
    fields: Seq<char>,
    p: JsonModel,
) -> bool {
    exists|data: Json, names: &str, projected: Json|
        #![trigger project.ensures((&data, names), projected)]
        data@ == d && names@ == fields && projected@ == p && project.ensures(
            (&data, names),
            projected,
        )
}

/// Applies filter, pagination, expression, and field projection in this order.
///
/// `project` gives the fields of a value that a list of names selects.
pub fn apply_pipeline<F: Fn(&Json, &str) -> Json>(
    data: &mut Json,
    opts: &PipelineOpts,
    project: F,
) -> (r: Result<Option<PaginationMeta>, CliCoreError>)
    requires
        forall|d: &Json, names: &str| #[trigger] project.requires((d, names)),
    ensures
        ({
            let s = after_expr(old(data)@, *opts);
            if s.failure is None && opts.fields@.len() > 0 {
                &&& r == Ok::<Option<PaginationMeta>, CliCoreError>(
                    pipeline_meta(old(data)@, *opts),
                )
                &&& is_projected(project, s.data, opts.fields@, final(data)@)
            } else {
                page_done(final(data)@, r, s, pipeline_meta(old(data)@, *opts))
            }
        }),
{
    match apply_steps(data, opts) {
        Ok(pagination) => {
            if !opts.fields.as_str().is_empty() {
                let projected = project(&*data, opts.fields.as_str());
                *data = projected;
            }
            Ok(pagination)
        },
        Err(e) => Err(e),
    }
}

/// A page holds at most as many items as its limit, all of them from the list
/// and in its order.
pub proof fn law_page_is_a_slice(items: Seq<JsonModel>, offset: i64, limit: i64)
    requires
        page_failure(items.len(), offset, limit) is None,
    ensures
        paged(JsonModel::Array(items), offset, limit).data matches JsonModel::Array(page) && {
            &&& limit > 0 ==> page.len() <= limit
            &&& page_meta(JsonModel::Array(items), offset, limit)->0.count == page.len()
            &&& forall|i: int| 0 <= i < page.len() ==> page[i] == #[trigger] items[page_start(items.len(), offset) + i]
        },
{
    assert forall|i: int| 0 <= i < page_end(items.len(), offset, limit) - page_start(items.len(), offset)
        implies paged(JsonModel::Array(items), offset, limit).data->Array_0[i] == #[trigger] items[page_start(items.len(), offset) + i] by {
    }
}

/// Consecutive pages of one size follow each other without gap or overlap.
pub proof fn law_pages_follow_each_other(items: Seq<JsonModel>, offset: i64, limit: i64)
    requires
        limit > 0,
        offset + limit <= i64::MAX,
        page_failure(items.len(), offset, limit) is None,
    ensures
        page_end(items.len(), offset, limit) == page_start(
            items.len(),
            (offset + limit) as i64,
        ),
{
}

/// What the filter keeps passes the filter again.
pub proof fn law_filter_is_idempotent(query: Seq<char>, items: Seq<JsonModel>)
    requires
        retained(query, items) is Ok,
    ensures
        retained(query, retained(query, items)->Ok_0) == retained(query, items),
    decreases items.len(),
{
    if items.len() > 0 {
        law_filter_is_idempotent(query, items.drop_last());
        let kept = retained(query, items.drop_last())->Ok_0;
        let all = retained(query, items)->Ok_0;
        if query_outcome(query, items.last())->Ok_0.truthy {
            assert(all.drop_last() =~= kept);
            assert(all.last() == items.last());
        }
    }
}

/// A query on data gives what the query engine gives, unless a slice of it could
/// leave the range of places.
pub proof fn law_query_gives_what_the_engine_gives(query: Seq<char>, data: JsonModel)
    ensures
        !overflows(query, data) ==> query_outcome(query, data) == search_outcome(query, data),
        overflows(query, data) ==> query_outcome(query, data) is Err,
{
}

/// The expression is what the data become: once filter and page are done, the
/// data that the steps leave is the value that the query gives on what those
/// left. A query that does not compile, fails or gives no value makes the steps
/// fail, and the data stay as filter and page left them.
pub proof fn law_expression_replaces_the_data(data: JsonModel, opts: PipelineOpts)
    requires
        opts.expr@.len() > 0,
        after_page(data, opts).failure is None,
    ensures
        ({
            let query = text::trim_spec(opts.expr@);
            let found = search_outcome(query, after_page(data, opts).data);
            let result = after_expr(data, opts);
            &&& query_error(query) is Some ==> result.failure is Some
            &&& query_error(query) is None && !overflows(query, after_page(data, opts).data) ==> {
                &&& found is Err ==> result.failure is Some
                &&& found matches Ok(f) ==> {
                    &&& f.value matches Ok(v) ==> result.data == v && result.failure is None
                    &&& f.value is Err ==> result.failure is Some
                }
            }
            &&& result.failure is Some ==> result.data == after_page(data, opts).data
        }),
{
}

/// Without an expression the data stay as filter and page left them; without a
/// filter and a page, as they were.
pub proof fn law_absent_steps_change_nothing(data: JsonModel, opts: PipelineOpts)
    ensures
        opts.expr@.len() == 0 ==> after_expr(data, opts) == after_page(data, opts),
        opts.filter@.len() == 0 && opts.limit <= 0 && opts.offset <= 0 ==> after_page(data, opts)
            == (Step { data, failure: None }),
        opts.filter@.len() == 0 && opts.limit <= 0 && opts.offset <= 0 && opts.expr@.len() == 0
            ==> after_expr(data, opts).data == data && after_expr(data, opts).failure is None
            && pipeline_meta(data, opts) is None,
{
}

/// A filter keeps, of two lists one behind the other, what it keeps of the
/// first and then what it keeps of the second.
pub proof fn law_filter_goes_item_by_item(
    query: Seq<char>,
    first: Seq<JsonModel>,
    second: Seq<JsonModel>,
)
    ensures
        match (retained(query, first), retained(query, second)) {
            (Ok(a), Ok(b)) => retained(query, first + second) == Ok::<Seq<JsonModel>, Seq<char>>(
                a + b,
            ),
            (Err(e), _) => retained(query, first + second) == Err::<Seq<JsonModel>, Seq<char>>(e),
            (Ok(_), Err(e)) => retained(query, first + second) == Err::<
                Seq<JsonModel>,
                Seq<char>,
            >(e),
        },
    decreases second.len(),
{
    if second.len() == 0 {
        assert(first + second =~= first);
        if retained(query, first) is Ok {
            assert(retained(query, first)->Ok_0 + Seq::<JsonModel>::empty() =~= retained(
                query,
                first,
            )->Ok_0);
        }
    } else {
        law_filter_goes_item_by_item(query, first, second.drop_last());
        assert((first + second).drop_last() =~= first + second.drop_last());
        assert((first + second).last() == second.last());
        if retained(query, first) is Ok && retained(query, second.drop_last()) is Ok {
            let a = retained(query, first)->Ok_0;
            let b = retained(query, second.drop_last())->Ok_0;
            assert((a + b).push(second.last()) =~= a + b.push(second.last()));
        }
    }
}

/// A filter keeps an item exactly where the query gives something on it that
/// counts as true.
pub proof fn law_filter_keeps_what_counts_as_true(query: Seq<char>, item: JsonModel)
    ensures
        query_outcome(query, item) matches Ok(f) ==> {
            &&& f.truthy ==> retained(query, seq![item]) == Ok::<Seq<JsonModel>, Seq<char>>(
                seq![item],
            )
            &&& !f.truthy ==> retained(query, seq![item]) == Ok::<Seq<JsonModel>, Seq<char>>(
                Seq::empty(),
            )
        },
        query_outcome(query, item) is Err ==> retained(query, seq![item]) is Err,
{
    reveal_with_fuel(retained, 2);
    assert(seq![item].drop_last() =~= Seq::empty());
    assert(seq![item].last() == item);
    assert(Seq::<JsonModel>::empty().push(item) =~= seq![item]);
}

/// What a filter keeps of a list are items of the list for which the query
/// counts as true, and every one of those.
pub proof fn law_filtered_items(query: Seq<char>, items: Seq<JsonModel>, item: JsonModel)
    requires
        retained(query, items) is Ok,
    ensures
        retained(query, items)->Ok_0.contains(item) <==> items.contains(item) && (query_outcome(
            query,
            item,
        ) matches Ok(f) && f.truthy),
        retained(query, items)->Ok_0.len() <= items.len(),
        items.contains(item) ==> query_outcome(query, item) is Ok,
    decreases items.len(),
{
    if items.len() > 0 {
        let init = items.drop_last();
        law_filtered_items(query, init, item);
        let before = retained(query, init)->Ok_0;
        let all = retained(query, items)->Ok_0;
        assert(items =~= init.push(items.last()));
        if items.contains(item) && item != items.last() {
            let i = choose|i: int| 0 <= i < items.len() && items[i] == item;
            assert(init[i] == item);
        }
        if init.contains(item) {
            let i = choose|i: int| 0 <= i < init.len() && init[i] == item;
            assert(items[i] == item);
        }
        if before.contains(item) {
            let i = choose|i: int| 0 <= i < before.len() && before[i] == item;
            assert(all[i] == item);
        }
        if query_outcome(query, items.last())->Ok_0.truthy {
            assert(all[all.len() - 1] == items.last());
            if all.contains(item) && item != items.last() {
                let i = choose|i: int| 0 <= i < all.len() && all[i] == item;
                assert(before[i] == item);
            }
        }
        assert(items[items.len() - 1] == items.last());
    }
}

/// A filter applies to lists alone, and only with a query that compiles; where
/// it cannot run the data stay.
pub proof fn law_filter_needs_a_list_and_a_query(data: JsonModel, opts: PipelineOpts)
    requires
        opts.filter@.len() > 0,
    ensures
        ({
            let query = text::trim_spec(opts.filter@);
            let result = after_filter(data, opts);
            &&& !(data is Array) || query_error(query) is Some ==> result.failure is Some
                && result.data == data
            &&& data matches JsonModel::Array(items) ==> (query_error(query) is None ==> match retained(
                query,
                items,
            ) {
                Ok(kept) => result.failure is None && result.data == JsonModel::Array(kept),
                Err(_) => result.failure is Some,
            })
        }),
{
}

/// A page of a list holds the items behind the first `offset`, at most `limit`
/// of them where there is a limit, and says how many there were before and how
/// many it holds.
pub proof fn law_page_of_a_list(items: Seq<JsonModel>, offset: i64, limit: i64, i: int)
    requires
        items.len() <= i64::MAX,
        0 <= offset,
        limit <= usize::MAX,
    ensures
        ({
            let s = paged(JsonModel::Array(items), offset, limit);
            let rest = if offset < items.len() {
                items.len() - offset
            } else {
                0
            };
            &&& s.failure is None
            &&& s.data matches JsonModel::Array(page) && {
                &&& limit <= 0 || rest <= limit ==> page.len() == rest
                &&& 0 < limit < rest ==> page.len() == limit
                &&& 0 <= i < page.len() ==> page[i] == items[offset + i]
                &&& page_meta(JsonModel::Array(items), offset, limit) matches Some(m) && m.total
                    == items.len() && m.offset == offset && m.limit == limit && m.count
                    == page.len()
            }
        }),
{
}

/// A negative offset, and a list or a limit that is too long, is refused, and
/// the list stays.
pub proof fn law_bad_page_is_refused(items: Seq<JsonModel>, offset: i64, limit: i64)
    ensures
        ({
            let s = paged(JsonModel::Array(items), offset, limit);
            &&& s.failure is Some <==> items.len() > i64::MAX || offset < 0 || limit > usize::MAX
            &&& s.failure is Some ==> s.data == JsonModel::Array(items)
        }),
{
}

/// Data that is no list passes a page unchanged, and nothing is told of pages.
pub proof fn law_single_values_have_no_pages(data: JsonModel, offset: i64, limit: i64)
    requires
        !(data is Array),
    ensures
        paged(data, offset, limit) == (Step { data, failure: None }),
        page_meta(data, offset, limit) is None,
{
}

/// The page is taken of what the filter kept, and counts that.
pub proof fn law_page_follows_the_filter(
    items: Seq<JsonModel>,
    kept: Seq<JsonModel>,
    opts: PipelineOpts,
    i: int,
)
    requires
        opts.filter@.len() > 0,
        query_error(text::trim_spec(opts.filter@)) is None,
        retained(text::trim_spec(opts.filter@), items) == Ok::<Seq<JsonModel>, Seq<char>>(kept),
        kept.len() <= i64::MAX,
        opts.limit > 0,
        opts.limit <= usize::MAX,
        0 <= opts.offset,
    ensures
        after_page(JsonModel::Array(items), opts).failure is None,
        after_page(JsonModel::Array(items), opts).data matches JsonModel::Array(page) && {
            &&& page.len() <= opts.limit
            &&& 0 <= i < page.len() ==> page[i] == kept[opts.offset + i]
            &&& kept.len() <= opts.offset ==> page.len() == 0
            &&& opts.offset + opts.limit <= kept.len() ==> page.len() == opts.limit
            &&& pipeline_meta(JsonModel::Array(items), opts) matches Some(m) && m.total
                == kept.len() && m.count == page.len()
        },
{
    law_page_of_a_list(kept, opts.offset, opts.limit, i);
}

/// A step that fails ends the pipeline: neither the page nor the expression
/// changes what a failed filter left.
pub proof fn law_failure_ends_the_pipeline(data: JsonModel, opts: PipelineOpts)
    ensures
        after_filter(data, opts).failure is Some ==> after_expr(data, opts) == after_filter(
            data,
            opts,
        ),
        after_page(data, opts).failure is Some ==> after_expr(data, opts) == after_page(data, opts),
{
}

/// A query without a colon has no slices, so it never leaves the range of
/// places.
pub proof fn law_queries_without_slices_run(query: Seq<char>, data: JsonModel)
    requires
        !query.contains(':'),
    ensures
        query_outcome(query, data) == search_outcome(query, data),
{
    lemma_no_slices(query);
}

proof fn lemma_no_slices(query: Seq<char>)
    requires
        !query.contains(':'),
    ensures
        scanned(query).1.len() == 0,
        scanned(query).0.colons == 0,
    decreases query.len(),
{
    if query.len() > 0 {
        let init = query.drop_last();
        assert forall|c: char| init.contains(c) implies query.contains(c) by {
            let i = choose|i: int| 0 <= i < init.len() && init[i] == c;
            assert(query[i] == c);
        }
        lemma_no_slices(init);
        assert(query[query.len() - 1] == query.last());
    }
}

/// What the steps answer tells what they did: they succeed exactly where none of
/// them fails, and then the data are what filter, page and expression leave of
/// them, one after the other, with what is told about the page.
pub proof fn law_steps_tell_their_outcome(
    before: JsonModel,
    after: JsonModel,
    r: Result<Option<PaginationMeta>, CliCoreError>,
    opts: PipelineOpts,
)
    requires
        page_done(after, r, after_expr(before, opts), pipeline_meta(before, opts)),
    ensures
        r is Ok <==> after_expr(before, opts).failure is None,
        r is Ok && opts.filter@.len() == 0 && opts.limit <= 0 && opts.offset <= 0
            && opts.expr@.len() == 0 ==> after == before && r->Ok_0 is None,
        r is Ok && opts.expr@.len() > 0 && !overflows(
            text::trim_spec(opts.expr@),
            after_page(before, opts).data,
        ) ==> (search_outcome(
            text::trim_spec(opts.expr@),
            after_page(before, opts).data,
        ) matches Ok(f) && f.value == Ok::<JsonModel, Seq<char>>(after)),
        r is Ok && opts.expr@.len() == 0 ==> after == after_page(before, opts).data,
        opts.expr@.len() > 0 && query_error(text::trim_spec(opts.expr@)) is Some ==> r is Err,
        opts.filter@.len() > 0 && query_error(text::trim_spec(opts.filter@)) is Some ==> r is Err,
        opts.filter@.len() > 0 && !(before is Array) ==> r is Err,
        opts.limit <= 0 && opts.offset <= 0 ==> (r matches Ok(m) ==> m is None),
{
}

/// A single step tells its outcome: it succeeds exactly where it does not fail,
/// and the data are what it leaves.
pub proof fn law_step_tells_its_outcome(
    before: JsonModel,
    after: JsonModel,
    r: Result<(), CliCoreError>,
    expression: Seq<char>,
    v: JsonModel,
)
    ensures
        step_done(after, r, evaluated(before, expression)) && query_error(
            text::trim_spec(expression),
        ) is None && !overflows(text::trim_spec(expression), before) && (search_outcome(
            text::trim_spec(expression),
            before,
        ) matches Ok(f) && f.value == Ok::<JsonModel, Seq<char>>(v)) ==> r is Ok && after == v,
        step_done(after, r, evaluated(before, expression)) && query_error(
            text::trim_spec(expression),
        ) is Some ==> r is Err && after == before,
        step_done(after, r, filtered(before, expression)) && !(before is Array) ==> r is Err
            && after == before,
        step_done(after, r, filtered(before, expression)) && r is Ok ==> (before matches
            JsonModel::Array(items) && retained(text::trim_spec(expression), items) matches Ok(kept)
            && after == JsonModel::Array(kept)),
{
}

/// A query is refused only where a slice of it has steps that could leave the
/// range of places: not where the lists and the steps together stay in it.
pub proof fn law_slices_in_range_run(query: Seq<char>, data: JsonModel)
    requires
        list_bound(query, data) <= i32::MAX,
        forall|i: int|
            0 <= i < scanned(query).1.len() ==> list_bound(query, data) + (
            #[trigger] scanned(query).1[i]).step <= i32::MAX,
    ensures
        query_outcome(query, data) == search_outcome(query, data),
{
    assert forall|i: int| 0 <= i < scanned(query).1.len() implies !#[trigger] slice_overflows(
        scanned(query).1[i],
        list_bound(query, data),
    ) by {
        let slice = scanned(query).1[i];
        assert(reach(slice, list_bound(query, data)) <= list_bound(query, data) || slice.step <= 0
            || reach(slice, list_bound(query, data)) == 0);
    }
}

/// Without a filter the page is taken of the data as they are, and a page is
/// taken wherever an offset or a limit is given.
pub proof fn law_page_of_the_data(items: Seq<JsonModel>, opts: PipelineOpts, i: int)
    requires
        opts.filter@.len() == 0,
        opts.limit > 0 || opts.offset > 0,
        items.len() <= i64::MAX,
        opts.limit <= usize::MAX,
        0 <= opts.offset,
    ensures
        after_page(JsonModel::Array(items), opts).failure is None,
        after_page(JsonModel::Array(items), opts).data matches JsonModel::Array(page) && {
            &&& 0 <= i < page.len() ==> page[i] == items[opts.offset + i]
            &&& opts.limit > 0 ==> page.len() <= opts.limit
            &&& opts.limit <= 0 && opts.offset <= items.len() ==> page.len() == items.len()
                - opts.offset
            &&& opts.limit > 0 && opts.offset + opts.limit <= items.len() ==> page.len()
                == opts.limit
            &&& items.len() <= opts.offset ==> page.len() == 0
            &&& pipeline_meta(JsonModel::Array(items), opts) matches Some(m) && m.total
                == items.len() && m.offset == opts.offset && m.limit == opts.limit && m.count
                == page.len()
        },
{
    law_page_of_a_list(items, opts.offset, opts.limit, i);
}

/// Digits behind what may begin a number are that number.
proof fn lemma_digits_are_scanned(query: Seq<char>, digits: Seq<char>)
    requires
        scanned(query).0.quote is None,
        scanned(query).0.open,
        scanned(query).0.number is None,
        text::all_digits(digits),
        text::digits_value(digits) < NUMBER_LIMIT,
    ensures
        scanned(query + digits).1 == scanned(query).1,
        digits.len() == 0 ==> scanned(query + digits).0 == scanned(query).0,
        digits.len() > 0 ==> scanned(query + digits).0 == (SliceScan {
            number: Some(text::digits_value(digits) as i64),
            ..scanned(query).0
        }),
    decreases digits.len(),
{
    if digits.len() == 0 {
        assert(query + digits =~= query);
    } else {
        let init = digits.drop_last();
        let c = digits.last();
        assert(text::is_digit(digits[digits.len() - 1]));
        assert forall|i: int| 0 <= i < init.len() implies text::is_digit(#[trigger] init[i]) by {
            assert(text::is_digit(digits[i]));
        }
        assert(text::digits_value(digits) == text::digits_value(init) * 10 + (c as int
            - '0' as int));
        lemma_digits_are_scanned(query, init);
        assert((query + digits).drop_last() =~= query + init);
        assert((query + digits).last() == c);
        if init.len() == 0 {
            assert(text::digits_value(init) == 0);
        }
    }
}

/// A slice in a query is found with its start and its step, whatever stands
/// before it, unless that is a text that is still open.
pub proof fn law_slice_is_found(
    query: Seq<char>,
    start: Seq<char>,
    end: Seq<char>,
    step: Seq<char>,
)
    requires
        scanned(query).0.quote is None,
        text::all_digits(start) && start.len() > 0 && text::digits_value(start) < NUMBER_LIMIT,
        text::all_digits(end) && text::digits_value(end) < NUMBER_LIMIT,
        text::all_digits(step) && step.len() > 0 && text::digits_value(step) < NUMBER_LIMIT,
    ensures
        scanned(query + seq!['['] + start + seq![':'] + end + seq![':'] + step + seq![']']).1
            == scanned(query).1.push(
            Slice {
                start: Some(text::digits_value(start) as i64),
                step: text::digits_value(step) as i64,
            },
        ),
        scanned(query + seq!['['] + start + seq![':'] + end + seq![']']).1 == scanned(
            query,
        ).1.push(Slice { start: Some(text::digits_value(start) as i64), step: 1 }),
{
    let a = query + seq!['['];
    assert(a.drop_last() =~= query);
    let b = a + start;
    lemma_digits_are_scanned(a, start);
    let c = b + seq![':'];
    assert(c.drop_last() =~= b);
    let d = c + end;
    lemma_digits_are_scanned(c, end);
    let e = d + seq![':'];
    assert(e.drop_last() =~= d);
    let f = e + step;
    lemma_digits_are_scanned(e, step);
    let g = f + seq![']'];
    assert(g.drop_last() =~= f);
    let short = d + seq![']'];
    assert(short.drop_last() =~= d);
}

/// Inside a text of a query nothing is a slice.
pub proof fn law_texts_hold_no_slices(query: Seq<char>, inside: Seq<char>)
    requires
        scanned(query).0.quote is Some,
        forall|i: int|
            0 <= i < inside.len() ==> Some(#[trigger] inside[i]) != scanned(query).0.quote
                && inside[i] != '\\',
        !scanned(query).0.escaped,
    ensures
        scanned(query + inside) == scanned(query),
    decreases inside.len(),
{
    if inside.len() == 0 {
        assert(query + inside =~= query);
    } else {
        let init = inside.drop_last();
        assert forall|i: int| 0 <= i < init.len() implies Some(#[trigger] init[i]) != scanned(
            query,
        ).0.quote && init[i] != '\\' by {
            assert(init[i] == inside[i]);
        }
        law_texts_hold_no_slices(query, init);
        assert((query + inside).drop_last() =~= query + init);
        assert((query + inside).last() == inside[inside.len() - 1]);
    }
}

/// A step that leads out of the range of places is refused, be the start what it
/// may.
pub proof fn law_large_steps_are_refused(
    query: Seq<char>,
    data: JsonModel,
    i: int,
)
    requires
        0 <= i < scanned(query).1.len(),
        scanned(query).1[i].step > i32::MAX,
        0 <= list_bound(query, data),
    ensures
        query_outcome(query, data) is Err,
{
    let slice = scanned(query).1[i];
    assert(reach(slice, list_bound(query, data)) >= 0);
    assert(slice_overflows(slice, list_bound(query, data)));
}

} // verus!
