//! Domain-bounded units of CLI functionality.
use crate::feature_flags::{FeatureFlag, Stage};
use crate::guide::{parse_guides_from_markdown, GuideEntry};
use crate::guide;
use crate::json::Json;
use crate::output::human::{copy_columns, HumanViewDef, HumanViewRegistry, ViewsText};
use crate::output::human;
use crate::output::json_schema;
use crate::output::schema::{FieldText, OutputSchema, SchemaRegistry, SchemaText};
use crate::output::schema;
use vstd::prelude::*;
use vstd::string::*;

verus! {

/// `after` holds the guides of `before`, and behind them those of the markdown
/// files.
pub open spec fn is_markdown_added(
    before: Seq<GuideEntry>,
    after: Seq<GuideEntry>,
    files: Seq<(String, Vec<u8>)>,
) -> bool {
    &&& before.len() <= after.len()
    &&& after.take(before.len() as int) == before
    &&& guide::are_markdown_guides(guide::guide_texts(after.skip(before.len() as int)), files)
}

proof fn lemma_markdown_added(
    before: Seq<GuideEntry>,
    added: Seq<GuideEntry>,
    files: Seq<(String, Vec<u8>)>,
)
    requires
        guide::are_markdown_guides(guide::guide_texts(added), files),
    ensures
        is_markdown_added(before, before + added, files),
{
    let after = before + added;
    assert(after.take(before.len() as int) =~= before);
    assert(after.skip(before.len() as int) =~= added);
}

/// Domain-bounded unit of CLI functionality: one top-level group plus optional
/// guides and human output views.
///
/// The function that registers the group is known by the number that its owner
/// gave it.
pub struct Module {
    /// Root help category.
    pub category: String,
    /// Guide entries merged into the CLI-wide guide command.
    pub guides: Vec<GuideEntry>,
    /// Human output views registered before command execution.
    pub views: Vec<HumanViewDef>,
    /// Flag that the module's group inherits.
    pub feature_flag: Option<FeatureFlag>,
    /// Number of the registration function.
    pub register: u64,
}

impl Module {
    /// Creates a module.
    pub fn new(category: String, register: u64) -> (r: Self)
        ensures
            r.category == category,
            r.guides@.len() == 0,
            r.views@.len() == 0,
            r.feature_flag is None,
            r.register == register,
    {
        Module {
            category,
            guides: Vec::new(),
            views: Vec::new(),
            feature_flag: None,
            register,
        }
    }

    /// Adds one guide entry.
    pub fn with_guide(self, guide: GuideEntry) -> (r: Self)
        ensures
            r == (Module { guides: r.guides, ..self }),
            r.guides@ == self.guides@.push(guide),
    {
        let mut r = self;
        r.guides.push(guide);
        r
    }

    /// Adds several guide entries.
    pub fn with_guides(self, guides: Vec<GuideEntry>) -> (r: Self)
        ensures
            r == (Module { guides: r.guides, ..self }),
            r.guides@ == self.guides@ + guides@,
    {
        let mut r = self;
        let mut more = guides;
        r.guides.append(&mut more);
        r
    }

    /// Parses markdown guide entries from embedded `(path, bytes)` pairs.
    pub fn with_guides_from_markdown(self, files: &Vec<(String, Vec<u8>)>) -> (r: Self)
        ensures
            r == (Module { guides: r.guides, ..self }),
            is_markdown_added(self.guides@, r.guides@, files@),
    {
        let more = parse_guides_from_markdown(files);
        let ghost added = more@;
        let r = self.with_guides(more);
        proof {
            lemma_markdown_added(self.guides@, added, files@);
        }
        r
    }

    /// Adds one human output view.
    pub fn with_view(self, view: HumanViewDef) -> (r: Self)
        ensures
            r == (Module { views: r.views, ..self }),
            r.views@ == self.views@.push(view),
    {
        let mut r = self;
        r.views.push(view);
        r
    }

    /// Gates the module's group behind a feature flag.
    pub fn with_feature_flag(self, key: String, stage: Stage) -> (r: Self)
        ensures
            r == (Module { feature_flag: Some(FeatureFlag { key, stage }), ..self }),
    {
        let mut r = self;
        r.feature_flag = Some(FeatureFlag::new(key, stage));
        r
    }
}

/// What is available while a module registers itself: the registries of the
/// application, and what the module adds.
pub struct ModuleContext {
    /// The schemas.
    pub schemas: SchemaRegistry,
    /// The views of the application.
    pub human_views: HumanViewRegistry,
    /// The guides that the module adds.
    pub guides: Vec<GuideEntry>,
    /// The views that the module adds.
    pub views: Vec<HumanViewDef>,
}

/// Copies a view.
pub fn copy_view(view: &HumanViewDef) -> (r: HumanViewDef)
    ensures
        r.schema_id == view.schema_id,
        human::column_texts(r.columns@) == human::column_texts(view.columns@),
{
    HumanViewDef { schema_id: view.schema_id.clone(), columns: copy_columns(&view.columns) }
}

impl ModuleContext {
    /// A context on these registries.
    pub fn new(schemas: SchemaRegistry, human_views: HumanViewRegistry) -> (r: Self)
        ensures
            r.schemas == schemas,
            r.human_views == human_views,
            r.guides@.len() == 0,
            r.views@.len() == 0,
    {
        ModuleContext { schemas, human_views, guides: Vec::new(), views: Vec::new() }
    }

    /// Registers a compact framework schema for a command path.
    pub fn register_schema<T: OutputSchema>(&mut self, command_path: String)
        ensures
            exists|fields: Seq<FieldText>| #[trigger]
                schema::is_declared::<T>(fields) && final(self).schemas@ == old(
                    self,
                ).schemas@.insert(
                    command_path@,
                    SchemaText { command: command_path@, fields, schema: None },
                ),
            *final(self) == (ModuleContext { schemas: final(self).schemas, ..*old(self) }),
    {
        self.schemas.register::<T>(command_path);
    }

    /// Registers a JSON Schema for a command path.
    pub fn register_json_schema(&mut self, command_path: String, schema: Json)
        requires
            json_schema::schema_resolves(schema@),
        ensures
            exists|fields: Seq<FieldText>| #[trigger]
                json_schema::lists_fields(fields, schema@) && final(self).schemas@ == old(
                    self,
                ).schemas@.insert(
                    command_path@,
                    SchemaText { command: command_path@, fields, schema: Some(schema@) },
                ),
            *final(self) == (ModuleContext { schemas: final(self).schemas, ..*old(self) }),
    {
        self.schemas.register_json_schema(command_path, schema);
    }

    /// Registers a human output view and keeps it with the module.
    pub fn register_view(&mut self, view: HumanViewDef)
        ensures
            final(self).human_views@ == (ViewsText {
                columns: old(self).human_views@.columns.insert(
                    view.schema_id@,
                    human::column_texts(view.columns@),
                ),
                ..old(self).human_views@
            }),
            final(self).views@ == old(self).views@.push(view),
            final(self).schemas == old(self).schemas,
            final(self).guides == old(self).guides,
    {
        self.human_views.register(copy_view(&view));
        self.views.push(view);
    }

    /// Adds one guide entry.
    pub fn add_guide(&mut self, guide: GuideEntry)
        ensures
            final(self).guides@ == old(self).guides@.push(guide),
            *final(self) == (ModuleContext { guides: final(self).guides, ..*old(self) }),
    {
        self.guides.push(guide);
    }

    /// Adds several guide entries.
    pub fn add_guides(&mut self, guides: Vec<GuideEntry>)
        ensures
            final(self).guides@ == old(self).guides@ + guides@,
            *final(self) == (ModuleContext { guides: final(self).guides, ..*old(self) }),
    {
        let mut more = guides;
        self.guides.append(&mut more);
    }

    /// Parses and adds markdown guides from embedded `(path, bytes)` pairs.
    pub fn add_guides_from_markdown(&mut self, files: &Vec<(String, Vec<u8>)>)
        ensures
            is_markdown_added(old(self).guides@, final(self).guides@, files@),
            *final(self) == (ModuleContext { guides: final(self).guides, ..*old(self) }),
    {
        let more = parse_guides_from_markdown(files);
        proof {
            lemma_markdown_added(self.guides@, more@, files@);
        }
        self.add_guides(more);
    }
}

/// The guides of markdown files come behind those that are there, one for each
/// file.
pub proof fn law_markdown_guides_are_added(
    before: Seq<GuideEntry>,
    after: Seq<GuideEntry>,
    files: Seq<(String, Vec<u8>)>,
    i: int,
)
    requires
        is_markdown_added(before, after, files),
    ensures
        after.len() == before.len() + guide::markdown_files(files).len(),
        0 <= i < before.len() ==> after[i] == before[i],
{
    let more = guide::guide_texts(after.skip(before.len() as int));
    guide::law_every_markdown_file_is_a_guide(more, files, 0);
    assert(more.len() == after.len() - before.len());
    if 0 <= i < before.len() {
        assert(after.take(before.len() as int)[i] == after[i]);
    }
}

} // verus!
