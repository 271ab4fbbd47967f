//! Declarative per-environment configuration.
//!
//! Each field of an [`EnvConfig`] struct is looked up in a [`SourceChain`]: a
//! list of sources, the first of which that answers wins. Within one source an
//! environment variable is asked before a TOML value. A blank answer counts as
//! none, unless the field says otherwise.
use crate::error::CliCoreError;
use crate::error;
use crate::fs;
use crate::ordmap::StringMap;
use crate::text;
use crate::toml_value::{Toml, TomlView};
use crate::toml_value;
use vstd::prelude::*;
use vstd::string::*;

verus! {

/// One environment's source: its name and its merged TOML table.
pub struct EnvSource {
    name: String,
    table: StringMap<Toml>,
}

/// A source that only ever answers environment-variable lookups, under a fixed
/// prefix.
pub struct EnvVarSource {
    /// The prefix prepended to a field's `env` suffix, e.g. `"GDDY"` for
    /// `GDDY_<SUFFIX>`.
    pub prefix: String,
    /// The environment variables of the process.
    pub vars: StringMap<String>,
}

/// A source backed by values a consumer already has in hand.
pub struct ValueSource {
    table: StringMap<Toml>,
}

/// Something a field's assembly instructions can be checked against.
pub enum ConfigSource {
    /// An environment.
    Env(EnvSource),
    /// Environment variables.
    Vars(EnvVarSource),
    /// Values in hand.
    Values(ValueSource),
}

/// What a source answers.
#[verifier::ext_equal]
pub struct SourceText {
    /// The environment that it represents, if it does represent one.
    pub name: Option<Seq<char>>,
    /// The TOML values by their keys.
    pub table: Map<Seq<char>, TomlView>,
    /// The prefix of environment variables and their values, if it looks at any.
    pub vars: Option<(Seq<char>, Map<Seq<char>, Seq<char>>)>,
}

/// The texts of a map of strings.
pub open spec fn var_texts(m: Map<Seq<char>, String>) -> Map<Seq<char>, Seq<char>> {
    m.map_values(|s: String| s@)
}

impl EnvSource {
    /// The name of the environment.
    pub closed spec fn name_text(&self) -> Seq<char> {
        self.name@
    }

    /// What the merged table says.
    pub closed spec fn entries(&self) -> Map<Seq<char>, TomlView> {
        toml_value::table_says(self.table@)
    }

    /// Creates a source from an already-merged table.
    pub fn new(name: String, table: StringMap<Toml>) -> (r: Self)
        ensures
            r.name_text() == name@,
            r.entries() == toml_value::table_says(table@),
    {
        EnvSource { name, table }
    }

    /// The environment name this source was resolved for.
    pub fn name(&self) -> (r: &str)
        ensures
            r@ == self.name_text(),
    {
        self.name.as_str()
    }

    /// The whole merged table, for generic introspection.
    pub fn table(&self) -> (r: &StringMap<Toml>)
        ensures
            toml_value::table_says(r@) == self.entries(),
    {
        &self.table
    }
}

impl ValueSource {
    /// What the values say.
    pub closed spec fn entries(&self) -> Map<Seq<char>, TomlView> {
        toml_value::table_says(self.table@)
    }

    /// Creates an empty value source.
    pub fn new() -> (r: Self)
        ensures
            r.entries() == Map::<Seq<char>, TomlView>::empty(),
    {
        let r = ValueSource { table: StringMap::new() };
        assert(r.entries() =~= Map::<Seq<char>, TomlView>::empty());
        r
    }

    /// Sets `key` to `value`.
    pub fn with(self, key: String, value: Toml) -> (r: Self)
        ensures
            r.entries() == self.entries().insert(key@, value@),
    {
        let mut table = self.table;
        table.insert(key, value);
        let r = ValueSource { table };
        assert(r.entries() =~= self.entries().insert(key@, value@));
        r
    }
}

impl View for ConfigSource {
    type V = SourceText;

    open spec fn view(&self) -> SourceText {
        match self {
            ConfigSource::Env(e) => SourceText {
                name: Some(e.name_text()),
                table: e.entries(),
                vars: None,
            },
            ConfigSource::Vars(v) => SourceText {
                name: None,
                table: Map::empty(),
                vars: Some((v.prefix@, var_texts(v.vars@))),
            },
            ConfigSource::Values(v) => SourceText { name: None, table: v.entries(), vars: None },
        }
    }
}

/// The TOML value that a source has under `key`.
pub open spec fn toml_of(s: SourceText, key: Seq<char>) -> Option<TomlView> {
    if s.table.dom().contains(key) {
        Some(s.table[key])
    } else {
        None
    }
}

/// The value of the environment variable that a source looks at for a suffix.
pub open spec fn var_of(s: SourceText, suffix: Seq<char>) -> Option<Seq<char>> {
    match s.vars {
        Some((prefix, vars)) => {
            let name = prefix + "_"@ + suffix;
            if vars.dom().contains(name) {
                Some(vars[name])
            } else {
                None
            }
        },
        None => None,
    }
}

impl ConfigSource {
    /// The raw TOML value stored under `key`, if this source has one.
    pub fn toml_value(&self, key: &str) -> (r: Option<&Toml>)
        ensures
            match r {
                Some(v) => toml_of(self@, key@) == Some(v@),
                None => toml_of(self@, key@) is None,
            },
    {
        match self {
            ConfigSource::Env(e) => e.table.get(key),
            ConfigSource::Vars(_) => None,
            ConfigSource::Values(v) => v.table.get(key),
        }
    }

    /// The raw environment-variable string for a field, if this source has one.
    pub fn env_var(&self, suffix: &str) -> (r: Option<String>)
        ensures
            error::opt_text(r) == var_of(self@, suffix@),
    {
        match self {
            ConfigSource::Vars(v) => {
                let mut name = v.prefix.clone();
                name.append("_");
                name.append(suffix);
                match v.vars.get(name.as_str()) {
                    Some(value) => Some(value.clone()),
                    None => None,
                }
            },
            _ => None,
        }
    }

    /// The environment name this source represents, if it represents one at all.
    pub fn env_name(&self) -> (r: Option<&str>)
        ensures
            fs::str_text(r) == self@.name,
    {
        match self {
            ConfigSource::Env(e) => Some(e.name()),
            _ => None,
        }
    }
}

/// An ordered chain of [`ConfigSource`]s.
pub struct SourceChain {
    sources: Vec<ConfigSource>,
}

/// What the sources of a list answer.
pub open spec fn source_texts(sources: Seq<ConfigSource>) -> Seq<SourceText> {
    sources.map_values(|s: ConfigSource| s@)
}

impl View for SourceChain {
    type V = Seq<SourceText>;

    closed spec fn view(&self) -> Seq<SourceText> {
        source_texts(self.sources@)
    }
}

/// The TOML value of the first source that has one for `key`, from the source
/// `i` on.
pub open spec fn first_toml(chain: Seq<SourceText>, i: int, key: Seq<char>) -> Option<TomlView>
    decreases chain.len() - i,
{
    if i < 0 || chain.len() <= i {
        None
    } else {
        match toml_of(chain[i], key) {
            Some(v) => Some(v),
            None => first_toml(chain, i + 1, key),
        }
    }
}

/// The environment that the first source that represents one stands for, from
/// the source `i` on.
pub open spec fn first_name(chain: Seq<SourceText>, i: int) -> Option<Seq<char>>
    decreases chain.len() - i,
{
    if i < 0 || chain.len() <= i {
        None
    } else {
        match chain[i].name {
            Some(n) => Some(n),
            None => first_name(chain, i + 1),
        }
    }
}

/// What a chain answers for a field.
pub enum AnswerText {
    /// The value of an environment variable.
    Var(Seq<char>),
    /// A TOML value.
    Value(TomlView),
    /// Nothing.
    Absent,
}

/// The text holds nothing but white space.
pub open spec fn is_blank(s: Seq<char>) -> bool {
    text::trim_spec(s).len() == 0
}

/// The value is a blank string or an empty list.
pub open spec fn is_blank_value(v: TomlView) -> bool {
    match v {
        TomlView::Text(s) => is_blank(s),
        TomlView::List(items) => items.len() == 0,
        _ => false,
    }
}

/// What one source answers for a field: its environment variable, else its TOML
/// value; a blank one counts only where that is allowed.
pub open spec fn answer_of(
    s: SourceText,
    key: Seq<char>,
    suffix: Option<Seq<char>>,
    allow_blank: bool,
) -> AnswerText {
    let raw = match suffix {
        Some(x) => var_of(s, x),
        None => None,
    };
    match (raw, toml_of(s, key)) {
        (Some(t), _) if allow_blank || !is_blank(t) => AnswerText::Var(t),
        (_, Some(v)) if allow_blank || !is_blank_value(v) => AnswerText::Value(v),
        _ => AnswerText::Absent,
    }
}

/// What the first source that answers for a field says, from the source `i` on.
pub open spec fn answer_from(
    chain: Seq<SourceText>,
    i: int,
    key: Seq<char>,
    suffix: Option<Seq<char>>,
    allow_blank: bool,
) -> AnswerText
    decreases chain.len() - i,
{
    if i < 0 || chain.len() <= i {
        AnswerText::Absent
    } else {
        match answer_of(chain[i], key, suffix, allow_blank) {
            AnswerText::Absent => answer_from(chain, i + 1, key, suffix, allow_blank),
            found => found,
        }
    }
}

/// What a chain answers for a field.
pub enum Answer<'a> {
    /// The value of an environment variable.
    Var(String),
    /// A TOML value.
    Value(&'a Toml),
    /// Nothing.
    Absent,
}

/// What an answer says.
pub open spec fn answer_text(a: Answer) -> AnswerText {
    match a {
        Answer::Var(s) => AnswerText::Var(s@),
        Answer::Value(v) => AnswerText::Value(v@),
        Answer::Absent => AnswerText::Absent,
    }
}

fn blank(s: &str) -> (r: bool)
    ensures
        r == is_blank(s@),
{
    text::trim(s).as_str().is_empty()
}

fn blank_value(v: &Toml) -> (r: bool)
    ensures
        r == is_blank_value(v@),
{
    broadcast use toml_value::lemma_says;

    match v {
        Toml::Text(s) => blank(s.as_str()),
        Toml::List(items) => {
            proof {
                toml_value::lemma_list_says(items@);
            }
            items.len() == 0
        },
        _ => false,
    }
}

impl SourceChain {
    /// Creates an empty chain.
    pub fn new() -> (r: Self)
        ensures
            r@.len() == 0,
    {
        SourceChain { sources: Vec::new() }
    }

    /// Appends `source` to the end of the chain (lowest priority so far).
    pub fn push(self, source: ConfigSource) -> (r: Self)
        ensures
            r@ == self@.push(source@),
    {
        let mut sources = self.sources;
        sources.push(source);
        assert(source_texts(sources@) =~= source_texts(self.sources@).push(source@));
        SourceChain { sources }
    }

    /// The first source in the chain that has a TOML value for `key`, if any.
    pub fn toml_value(&self, key: &str) -> (r: Option<&Toml>)
        ensures
            match r {
                Some(v) => first_toml(self@, 0, key@) == Some(v@),
                None => first_toml(self@, 0, key@) is None,
            },
    {
        let mut i: usize = 0;
        while i < self.sources.len()
            invariant
                i <= self.sources@.len(),
                self@.len() == self.sources@.len(),
                first_toml(self@, 0, key@) == first_toml(self@, i as int, key@),
            decreases self.sources@.len() - i,
        {
            assert(self@[i as int] == self.sources@[i as int]@);
            match self.sources[i].toml_value(key) {
                Some(v) => {
                    return Some(v);
                },
                None => {},
            }
            i = i + 1;
        }
        None
    }

    /// The environment name of the first source in the chain that has one, if
    /// any.
    pub fn env_name(&self) -> (r: Option<&str>)
        ensures
            fs::str_text(r) == first_name(self@, 0),
    {
        let mut i: usize = 0;
        while i < self.sources.len()
            invariant
                i <= self.sources@.len(),
                self@.len() == self.sources@.len(),
                first_name(self@, 0) == first_name(self@, i as int),
            decreases self.sources@.len() - i,
        {
            assert(self@[i as int] == self.sources@[i as int]@);
            match self.sources[i].env_name() {
                Some(n) => {
                    return Some(n);
                },
                None => {},
            }
            i = i + 1;
        }
        None
    }

    /// What the first source that answers for a field says.
    pub fn answer(&self, key: &str, env_suffix: Option<&str>, allow_blank: bool) -> (r: Answer<'_>)
        ensures
            answer_text(r) == answer_from(self@, 0, key@, fs::str_text(env_suffix), allow_blank),
    {
        let ghost suffix = fs::str_text(env_suffix);
        let mut i: usize = 0;
        while i < self.sources.len()
            invariant
                i <= self.sources@.len(),
                self@.len() == self.sources@.len(),
                suffix == fs::str_text(env_suffix),
                answer_from(self@, 0, key@, suffix, allow_blank) == answer_from(
                    self@,
                    i as int,
                    key@,
                    suffix,
                    allow_blank,
                ),
            decreases self.sources@.len() - i,
        {
            let source = &self.sources[i];
            assert(self@[i as int] == source@);
            let raw = match env_suffix {
                Some(x) => source.env_var(x),
                None => None,
            };
            match raw {
                Some(t) => {
                    if allow_blank || !blank(t.as_str()) {
                        return Answer::Var(t);
                    }
                },
                None => {},
            }
            match source.toml_value(key) {
                Some(v) => {
                    if allow_blank || !blank_value(v) {
                        return Answer::Value(v);
                    }
                },
                None => {},
            }
            i = i + 1;
        }
        Answer::Absent
    }
}

/// An error assembling an [`EnvConfig`] struct.
pub enum EnvConfigError {
    /// A present value failed to convert to the field's type.
    InvalidField {
        /// The field's name.
        field: String,
        /// Why conversion failed.
        reason: String,
    },
    /// No source had a value for this field, and it has no default.
    MissingField {
        /// The field's name.
        field: String,
    },
    /// The underlying environment failed to resolve at all.
    Environment(Box<CliCoreError>),
}

impl EnvConfigError {
    /// The text of the error.
    pub fn to_text(&self) -> (r: String)
        ensures
            r@ == match self {
                EnvConfigError::InvalidField { field, reason } => "field "@ + field@ + ": "@
                    + reason@,
                EnvConfigError::MissingField { field } => "field "@ + field@
                    + " has no value in any source, and no default"@,
                EnvConfigError::Environment(e) => error::display_spec(**e),
            },
    {
        match self {
            EnvConfigError::InvalidField { field, reason } => {
                let mut r = "field ".to_owned();
                r.append(field.as_str());
                r.append(": ");
                r.append(reason.as_str());
                r
            },
            EnvConfigError::MissingField { field } => {
                let mut r = "field ".to_owned();
                r.append(field.as_str());
                r.append(" has no value in any source, and no default");
                r
            },
            EnvConfigError::Environment(e) => e.to_text(),
        }
    }
}

/// A struct that can be assembled from a [`SourceChain`].
pub trait EnvConfig: Sized {
    /// Threads `sources` through this struct's per-field assembly instructions
    /// to build an instance.
    fn assemble(sources: &SourceChain) -> Result<Self, EnvConfigError>;
}

/// `r` is what the struct's assembly made of a chain that answers so.
pub open spec fn is_assembled<T: EnvConfig>(
    answers: Seq<SourceText>,
    r: Result<T, EnvConfigError>,
) -> bool {
    exists|chain: SourceChain|
        chain@ == answers && #[trigger] call_ensures(T::assemble, (&chain,), r)
}

/// `r` is what a conversion gave, for the named field.
pub open spec fn is_converted<T>(
    o: Result<T, String>,
    field: Seq<char>,
    r: Result<Option<T>, EnvConfigError>,
) -> bool {
    match o {
        Ok(v) => r == Ok::<Option<T>, EnvConfigError>(Some(v)),
        Err(why) => r matches Err(EnvConfigError::InvalidField { field: f, reason }) && f@ == field
            && reason == why,
    }
}

/// `r` is what `from_env` makes of the text `t`.
pub open spec fn is_from_env<T, G: Fn(&str) -> Result<T, String>>(
    from_env: G,
    t: Seq<char>,
    field: Seq<char>,
    r: Result<Option<T>, EnvConfigError>,
) -> bool {
    exists|raw: &str, o: Result<T, String>|
        raw@ == t && #[trigger] from_env.ensures((raw,), o) && is_converted(o, field, r)
}

/// `r` is what `from_toml` makes of a value that says `v`.
pub open spec fn is_from_toml<T, F: Fn(&Toml) -> Result<T, String>>(
    from_toml: F,
    v: TomlView,
    field: Seq<char>,
    r: Result<Option<T>, EnvConfigError>,
) -> bool {
    exists|raw: &Toml, o: Result<T, String>|
        raw@ == v && #[trigger] from_toml.ensures((raw,), o) && is_converted(o, field, r)
}

/// Walks `sources` looking for a value for one field, and converts the first
/// that is found. `Ok(None)` when no source has the field at all, letting the
/// caller apply a default.
pub fn resolve_field<T, F: Fn(&Toml) -> Result<T, String>, G: Fn(&str) -> Result<T, String>>(
    sources: &SourceChain,
    field: &str,
    key: &str,
    env_suffix: Option<&str>,
    allow_blank: bool,
    from_toml: F,
    from_env: G,
) -> (r: Result<Option<T>, EnvConfigError>)
    requires
        forall|v: &Toml| from_toml.requires((v,)),
        forall|s: &str| from_env.requires((s,)),
    ensures
        match answer_from(sources@, 0, key@, fs::str_text(env_suffix), allow_blank) {
            AnswerText::Var(t) => is_from_env(from_env, t, field@, r),
            AnswerText::Value(v) => is_from_toml(from_toml, v, field@, r),
            AnswerText::Absent => r == Ok::<Option<T>, EnvConfigError>(None),
        },
{
    match sources.answer(key, env_suffix, allow_blank) {
        Answer::Var(raw) => {
            let o = from_env(raw.as_str());
            match o {
                Ok(v) => {
                    let r = Ok(Some(v));
                    assert(is_converted(Ok::<T, String>(v), field@, r));
                    r
                },
                Err(reason) => {
                    let r = Err(EnvConfigError::InvalidField { field: field.to_owned(), reason });
                    assert(is_converted(Err::<T, String>(reason), field@, r));
                    r
                },
            }
        },
        Answer::Value(raw) => {
            let o = from_toml(raw);
            match o {
                Ok(v) => {
                    let r = Ok(Some(v));
                    assert(is_converted(Ok::<T, String>(v), field@, r));
                    r
                },
                Err(reason) => {
                    let r = Err(EnvConfigError::InvalidField { field: field.to_owned(), reason });
                    assert(is_converted(Err::<T, String>(reason), field@, r));
                    r
                },
            }
        },
        Answer::Absent => Ok(None),
    }
}

/// A source that answers wins over all that stand behind it.
pub proof fn law_first_answer_wins(
    chain: Seq<SourceText>,
    key: Seq<char>,
    suffix: Option<Seq<char>>,
    allow_blank: bool,
)
    requires
        chain.len() > 0,
        !(answer_of(chain[0], key, suffix, allow_blank) is Absent),
    ensures
        answer_from(chain, 0, key, suffix, allow_blank) == answer_of(
            chain[0],
            key,
            suffix,
            allow_blank,
        ),
{
}

/// Answers from one source on do not depend on the sources before it.
proof fn lemma_answer_skips(
    chain: Seq<SourceText>,
    i: int,
    key: Seq<char>,
    suffix: Option<Seq<char>>,
    allow_blank: bool,
)
    requires
        0 <= i < chain.len(),
    ensures
        answer_from(chain, i + 1, key, suffix, allow_blank) == answer_from(
            chain.skip(1),
            i,
            key,
            suffix,
            allow_blank,
        ),
    decreases chain.len() - i,
{
    if i + 1 < chain.len() {
        lemma_answer_skips(chain, i + 1, key, suffix, allow_blank);
        assert(chain.skip(1)[i] == chain[i + 1]);
    }
}

/// A blank value of a source is the same as none: the next source is asked.
pub proof fn law_blank_is_absent(
    chain: Seq<SourceText>,
    key: Seq<char>,
    suffix: Option<Seq<char>>,
)
    requires
        chain.len() > 0,
        toml_of(chain[0], key) matches Some(v) ==> is_blank_value(v),
        suffix matches Some(x) ==> (var_of(chain[0], x) matches Some(t) ==> is_blank(t)),
    ensures
        answer_from(chain, 0, key, suffix, false) == answer_from(
            chain.skip(1),
            0,
            key,
            suffix,
            false,
        ),
{
    lemma_answer_skips(chain, 0, key, suffix, false);
}

/// Within one source an environment variable that is not blank wins over a TOML
/// value.
pub proof fn law_env_var_beats_toml(
    s: SourceText,
    key: Seq<char>,
    suffix: Seq<char>,
    allow_blank: bool,
)
    requires
        var_of(s, suffix) matches Some(t) && !is_blank(t),
    ensures
        answer_of(s, key, Some(suffix), allow_blank) == AnswerText::Var(var_of(s, suffix)->0),
{
}

/// The first source that has a value, or stands for an environment, counts, and
/// those behind it do not.
pub proof fn law_first_source_counts(
    s: SourceText,
    rest: Seq<SourceText>,
    key: Seq<char>,
    value: TomlView,
    name: Seq<char>,
)
    ensures
        s.table.dom().contains(key) && s.table[key] == value ==> first_toml(
            seq![s] + rest,
            0,
            key,
        ) == Some(value),
        !s.table.dom().contains(key) ==> first_toml(seq![s] + rest, 0, key) == first_toml(
            rest,
            0,
            key,
        ),
        s.name == Some(name) ==> first_name(seq![s] + rest, 0) == Some(name),
        s.name is None ==> first_name(seq![s] + rest, 0) == first_name(rest, 0),
        first_toml(Seq::empty(), 0, key) is None,
        first_name(Seq::empty(), 0) is None,
{
    let chain = seq![s] + rest;
    assert(chain[0] == s);
    lemma_first_skips(chain, rest, 0, key);
}

proof fn lemma_first_skips(
    chain: Seq<SourceText>,
    rest: Seq<SourceText>,
    i: int,
    key: Seq<char>,
)
    requires
        0 <= i,
        chain.len() == rest.len() + 1,
        forall|k: int| 0 <= k < rest.len() ==> #[trigger] rest[k] == chain[k + 1],
    ensures
        first_toml(chain, i + 1, key) == first_toml(rest, i, key),
        first_name(chain, i + 1) == first_name(rest, i),
    decreases rest.len() - i,
{
    if i < rest.len() {
        assert(rest[i] == chain[i + 1]);
        lemma_first_skips(chain, rest, i + 1, key);
    }
}

/// A variable is looked up under its prefix and its suffix, with an underscore
/// between.
pub proof fn law_variables_have_a_prefix(
    prefix: Seq<char>,
    vars: Map<Seq<char>, Seq<char>>,
    suffix: Seq<char>,
    value: Seq<char>,
    s: SourceText,
)
    ensures
        s.vars == Some((prefix, vars.insert(prefix + "_"@ + suffix, value))) ==> var_of(s, suffix)
            == Some(value),
        s.vars == Some((prefix, vars.remove(prefix + "_"@ + suffix))) ==> var_of(s, suffix)
            is None,
        s.vars is None ==> var_of(s, suffix) is None,
{
}

/// A blank value answers only where blank values are allowed.
pub proof fn law_blank_values_answer_where_allowed(s: SourceText, key: Seq<char>, value: TomlView)
    requires
        toml_of(s, key) == Some(value),
    ensures
        answer_of(s, key, None, true) == AnswerText::Value(value),
        is_blank_value(value) ==> answer_of(s, key, None, false) is Absent,
        !is_blank_value(value) ==> answer_of(s, key, None, false) == AnswerText::Value(value),
{
}

} // verus!
