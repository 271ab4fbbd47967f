//! Declarations of commands and groups, and what is read from parsed arguments.
use crate::command_tree::{copy_args, ArgNode, ArgText, CommandNode, NodeText};
use crate::command_tree;
use crate::error::clone_option;
use crate::error;
use crate::feature_flags::{FeatureFlag, Stage};
use crate::feature_flags;
use crate::json::{Json, JsonModel};
use crate::middleware::meta::{copy_text_map, AuthRequirement, CommandMeta, MetaText};
use crate::middleware::meta;
use crate::ordmap::{Duplicate, StringMap};
use crate::output::envelope::{ActionText, NextAction};
use crate::output::envelope;
use crate::output::human::{copy_columns, ColumnText, TableColumn};
use crate::output::human;
use crate::output::schema::{fields_for, FieldText, OutputSchema, SchemaInfo, SchemaText};
use crate::output::schema;
use crate::text;
use crate::tier::Tier;
use crate::tier;
use vstd::prelude::*;
use vstd::string::*;

verus! {

/// Data returned by a command handler.
///
/// Command handlers should return renderable data and keep output metadata on
/// [`CommandSpec`].
pub struct CommandResult {
    /// JSON data rendered by the configured output formatter.
    pub data: Json,
    /// Optional command-result extension metadata.
    pub metadata: CommandResultMetadata,
}

/// Optional metadata a command can attach to its result.
pub struct CommandResultMetadata {
    /// Suggested follow-up actions for the caller.
    pub next_actions: Vec<NextAction>,
    /// Whether the result is that of a dry run.
    pub dry_run: bool,
}

/// What a command result says.
#[verifier::ext_equal]
pub struct ResultText {
    /// JSON data.
    pub data: JsonModel,
    /// Suggested follow-up actions.
    pub next_actions: Seq<ActionText>,
    /// Whether the result is that of a dry run.
    pub dry_run: bool,
}

impl View for CommandResult {
    type V = ResultText;

    open spec fn view(&self) -> ResultText {
        ResultText {
            data: self.data@,
            next_actions: envelope::action_texts(self.metadata.next_actions@),
            dry_run: self.metadata.dry_run,
        }
    }
}

impl CommandResult {
    /// Creates a command result from renderable JSON data.
    pub fn new(data: Json) -> (r: Self)
        ensures
            r@ == (ResultText { data: data@, next_actions: Seq::empty(), dry_run: false }),
    {
        let r = CommandResult {
            data,
            metadata: CommandResultMetadata { next_actions: Vec::new(), dry_run: false },
        };
        assert(r@.next_actions =~= Seq::empty());
        r
    }

    /// Attaches suggested follow-up actions to this result.
    pub fn with_next_actions(self, actions: Vec<NextAction>) -> (r: Self)
        ensures
            r@ == (ResultText { next_actions: envelope::action_texts(actions@), ..self@ }),
    {
        CommandResult {
            data: self.data,
            metadata: CommandResultMetadata {
                next_actions: actions,
                dry_run: self.metadata.dry_run,
            },
        }
    }

    /// Tags the result as that of a dry run.
    pub fn with_dry_run(self) -> (r: Self)
        ensures
            r@ == (ResultText { dry_run: true, ..self@ }),
    {
        CommandResult {
            data: self.data,
            metadata: CommandResultMetadata {
                next_actions: self.metadata.next_actions,
                dry_run: true,
            },
        }
    }
}

/// Declarative leaf command metadata and parser arguments.
///
/// `CommandSpec` intentionally keeps command metadata next to the command's
/// handler. This is the primary copy/paste surface for teams adding commands.
pub struct CommandSpec {
    /// Leaf command name.
    pub name: String,
    /// One-line command description.
    pub short: String,
    /// Optional long help text.
    pub long: Option<String>,
    /// Alternate command names accepted by the parser.
    pub aliases: Vec<String>,
    /// Whether the command runs but is hidden from help, tree, and search.
    pub hidden: bool,
    /// Backend/system id used in output metadata and generic error envelopes.
    pub system: Option<String>,
    /// Default comma-separated field projection.
    pub default_fields: Option<String>,
    /// Authentication requirement enforced by the engine for this command.
    ///
    /// Defaults to [`AuthRequirement::Required`] (fail-closed).
    pub auth: AuthRequirement,
    /// Auth provider name for this command.
    pub auth_provider: Option<String>,
    /// Risk tier used by authentication, authorization, and dry-run.
    pub tier: Option<Tier>,
    /// Explicit dry-run prompt marker for commands without a tier.
    pub mutates: bool,
    /// Whether the command handles `--dry-run` itself.
    pub handles_dry_run: bool,
    /// Provider-specific auth metadata.
    pub auth_metadata: StringMap<String>,
    /// Command-specific arguments.
    pub args: Vec<ArgNode>,
    /// Optional output schema published through `--schema` and help.
    pub output_schema: Option<SchemaInfo>,
    /// Flag that decides whether the command is mounted.
    pub feature_flag: Option<FeatureFlag>,
    /// Id of a shared human view.
    pub view_id: Option<String>,
    /// Columns of the command's own human view.
    pub view_columns: Vec<TableColumn>,
}

/// What a command spec says.
#[verifier::ext_equal]
pub struct SpecText {
    /// Leaf command name.
    pub name: Seq<char>,
    /// One-line command description.
    pub short: Seq<char>,
    /// Optional long help text.
    pub long: Option<Seq<char>>,
    /// Alternate command names.
    pub aliases: Seq<Seq<char>>,
    /// Whether the command is hidden.
    pub hidden: bool,
    /// Backend/system id.
    pub system: Option<Seq<char>>,
    /// Default field projection.
    pub default_fields: Option<Seq<char>>,
    /// Authentication requirement.
    pub auth: AuthRequirement,
    /// Auth provider name.
    pub auth_provider: Option<Seq<char>>,
    /// Risk tier.
    pub tier: Option<Tier>,
    /// Explicit dry-run prompt marker.
    pub mutates: bool,
    /// Whether the command handles `--dry-run` itself.
    pub handles_dry_run: bool,
    /// Provider-specific auth metadata.
    pub auth_metadata: Map<Seq<char>, Seq<char>>,
    /// Command-specific arguments.
    pub args: Seq<ArgText>,
    /// Optional output schema.
    pub output_schema: Option<SchemaText>,
    /// Flag that decides whether the command is mounted.
    pub feature_flag: Option<(Seq<char>, Stage)>,
    /// Id of a shared human view.
    pub view_id: Option<Seq<char>>,
    /// Columns of the command's own human view.
    pub view_columns: Seq<ColumnText>,
}

impl View for CommandSpec {
    type V = SpecText;

    open spec fn view(&self) -> SpecText {
        SpecText {
            name: self.name@,
            short: self.short@,
            long: error::opt_text(self.long),
            aliases: text::texts(self.aliases@),
            hidden: self.hidden,
            system: error::opt_text(self.system),
            default_fields: error::opt_text(self.default_fields),
            auth: self.auth,
            auth_provider: error::opt_text(self.auth_provider),
            tier: self.tier,
            mutates: self.mutates,
            handles_dry_run: self.handles_dry_run,
            auth_metadata: meta::text_map(self.auth_metadata@),
            args: command_tree::arg_texts(self.args@),
            output_schema: schema::found_text(self.output_schema),
            feature_flag: feature_flags::flag_text(self.feature_flag),
            view_id: error::opt_text(self.view_id),
            view_columns: human::column_texts(self.view_columns@),
        }
    }
}

/// A command spec with nothing but its name and one-line help.
pub open spec fn bare_spec(name: Seq<char>, short: Seq<char>) -> SpecText {
    SpecText {
        name,
        short,
        long: None,
        aliases: Seq::empty(),
        hidden: false,
        system: None,
        default_fields: None,
        auth: AuthRequirement::Required,
        auth_provider: None,
        tier: None,
        mutates: false,
        handles_dry_run: false,
        auth_metadata: Map::empty(),
        args: Seq::empty(),
        output_schema: None,
        feature_flag: None,
        view_id: None,
        view_columns: Seq::empty(),
    }
}

/// The auth metadata that a spec hands to the middleware.
pub open spec fn spec_metadata(s: SpecText) -> Map<Seq<char>, Seq<char>> {
    let with_provider = match s.auth_provider {
        Some(p) => if p.len() > 0 {
            s.auth_metadata.insert("provider"@, p)
        } else {
            s.auth_metadata
        },
        None => s.auth_metadata,
    };
    match s.tier {
        Some(t) => if with_provider.dom().contains("tier"@) {
            with_provider
        } else {
            with_provider.insert("tier"@, tier::tier_name(t))
        },
        None => with_provider,
    }
}

/// A spec with scopes: they stand in its auth metadata, joined by spaces, and no
/// scopes leave no entry.
pub open spec fn scoped(s: SpecText, scopes: Seq<Seq<char>>) -> SpecText {
    let joined = text::join_spec(scopes, " "@);
    SpecText {
        auth_metadata: if joined.len() == 0 {
            s.auth_metadata.remove("scopes"@)
        } else {
            s.auth_metadata.insert("scopes"@, joined)
        },
        ..s
    }
}

/// The metadata that a spec hands to the middleware.
pub open spec fn spec_meta(s: SpecText) -> MetaText {
    MetaText {
        dry_run_prompt: s.mutates || s.tier == Some(Tier::Mutate),
        handles_dry_run: s.handles_dry_run,
        auth_metadata: spec_metadata(s),
        scopes: match meta::value_of(spec_metadata(s), "scopes"@) {
            Some(scopes) => text::words(scopes),
            None => Seq::empty(),
        },
    }
}

/// The longer description: none where it is empty.
pub open spec fn long_of(long: Option<Seq<char>>) -> Seq<char> {
    match long {
        Some(l) => l,
        None => Seq::empty(),
    }
}

/// The command of a spec for the parser.
pub open spec fn spec_node(s: SpecText) -> NodeText {
    NodeText {
        long_about: long_of(s.long),
        aliases: s.aliases,
        hidden: s.hidden,
        args: s.args,
        ..command_tree::bare_node(s.name, s.short)
    }
}

fn copy_schema(s: &Option<SchemaInfo>) -> (r: Option<SchemaInfo>)
    ensures
        schema::found_text(r) == schema::found_text(*s),
{
    match s {
        Some(i) => Some(i.duplicate()),
        None => None,
    }
}

fn copy_flag(f: &Option<FeatureFlag>) -> (r: Option<FeatureFlag>)
    ensures
        r == *f,
{
    match f {
        Some(f) => Some(f.copy()),
        None => None,
    }
}

impl CommandSpec {
    /// Creates a command spec with the required name and one-line help.
    pub fn new(name: String, short: String) -> (r: Self)
        ensures
            r@ == bare_spec(name@, short@),
    {
        let r = CommandSpec {
            name,
            short,
            long: None,
            aliases: Vec::new(),
            hidden: false,
            system: None,
            default_fields: None,
            auth: AuthRequirement::Required,
            auth_provider: None,
            tier: None,
            mutates: false,
            handles_dry_run: false,
            auth_metadata: StringMap::new(),
            args: Vec::new(),
            output_schema: None,
            feature_flag: None,
            view_id: None,
            view_columns: Vec::new(),
        };
        assert(r@ =~= bare_spec(name@, short@)) by {
            assert(r@.auth_metadata =~= Map::empty());
        }
        r
    }

    /// Sets expanded command help.
    pub fn with_long(self, long: String) -> (r: Self)
        ensures
            r@ == (SpecText { long: Some(long@), ..self@ }),
    {
        let mut r = self;
        r.long = Some(long);
        r
    }

    /// Adds one command alias.
    pub fn with_alias(self, alias: String) -> (r: Self)
        ensures
            r@ == (SpecText { aliases: self@.aliases.push(alias@), ..self@ }),
    {
        let mut r = self;
        r.aliases.push(alias);
        assert(r@.aliases =~= self@.aliases.push(alias@));
        r
    }

    /// Hides or shows this command in discovery output.
    pub fn hidden(self, hidden: bool) -> (r: Self)
        ensures
            r@ == (SpecText { hidden, ..self@ }),
    {
        let mut r = self;
        r.hidden = hidden;
        r
    }

    /// Sets the backend/system id for output metadata and error attribution.
    pub fn with_system(self, system: String) -> (r: Self)
        ensures
            r@ == (SpecText { system: Some(system@), ..self@ }),
    {
        let mut r = self;
        r.system = Some(system);
        r
    }

    /// Sets the default field projection used when `--fields` is absent.
    pub fn with_default_fields(self, default_fields: String) -> (r: Self)
        ensures
            r@ == (SpecText { default_fields: Some(default_fields@), ..self@ }),
    {
        let mut r = self;
        r.default_fields = Some(default_fields);
        r
    }

    /// Selects the auth provider for this command.
    pub fn with_auth_provider(self, provider: String) -> (r: Self)
        ensures
            r@ == (SpecText { auth_provider: Some(provider@), ..self@ }),
    {
        let mut r = self;
        r.auth_provider = Some(provider);
        r
    }

    /// Marks the command as no-auth.
    ///
    /// `no_auth(true)` sets [`AuthRequirement::Never`]: the command never
    /// resolves a credential and default-env injection is suppressed.
    /// `no_auth(false)` restores the default [`AuthRequirement::Required`].
    pub fn no_auth(self, no_auth: bool) -> (r: Self)
        ensures
            r@ == (SpecText {
                auth: if no_auth {
                    AuthRequirement::Never
                } else {
                    AuthRequirement::Required
                },
                ..self@
            }),
    {
        let mut r = self;
        r.auth = if no_auth {
            AuthRequirement::Never
        } else {
            AuthRequirement::Required
        };
        r
    }

    /// Sets the command's [`AuthRequirement`] explicitly.
    pub fn auth(self, requirement: AuthRequirement) -> (r: Self)
        ensures
            r@ == (SpecText { auth: requirement, ..self@ }),
    {
        let mut r = self;
        r.auth = requirement;
        r
    }

    /// Marks authentication as optional ([`AuthRequirement::Optional`]).
    pub fn auth_optional(self) -> (r: Self)
        ensures
            r@ == (SpecText { auth: AuthRequirement::Optional, ..self@ }),
    {
        let mut r = self;
        r.auth = AuthRequirement::Optional;
        r
    }

    /// Sets the command risk tier.
    pub fn with_tier(self, tier: Tier) -> (r: Self)
        ensures
            r@ == (SpecText { tier: Some(tier), ..self@ }),
    {
        let mut r = self;
        r.tier = Some(tier);
        r
    }

    /// Adds provider-specific auth metadata.
    pub fn with_auth_metadata(self, key: String, value: String) -> (r: Self)
        ensures
            r@ == (SpecText {
                auth_metadata: self@.auth_metadata.insert(key@, value@),
                ..self@
            }),
    {
        let mut r = self;
        r.auth_metadata.insert(key, value);
        assert(r@.auth_metadata =~= self@.auth_metadata.insert(key@, value@));
        r
    }

    /// Declares the OAuth scopes this command requires.
    ///
    /// The scopes stand in the auth metadata under `"scopes"`, joined by spaces;
    /// an empty list clears the key rather than leaving an empty-but-present one.
    pub fn with_scopes(self, scopes: &Vec<String>) -> (r: Self)
        ensures
            r@ == scoped(self@, text::texts(scopes@)),
    {
        let joined = text::join(scopes, " ");
        let mut r = self;
        if joined.as_str().is_empty() {
            r.auth_metadata.remove("scopes");
            assert(r@.auth_metadata =~= self@.auth_metadata.remove("scopes"@));
        } else {
            r.auth_metadata.insert("scopes".to_owned(), joined);
            assert(r@.auth_metadata =~= self@.auth_metadata.insert("scopes"@, joined@));
        }
        r
    }

    /// Adds an argument or option to this command.
    pub fn with_arg(self, arg: ArgNode) -> (r: Self)
        ensures
            r@ == (SpecText { args: self@.args.push(arg@), ..self@ }),
    {
        let mut r = self;
        r.args.push(arg);
        assert(r@.args =~= self@.args.push(arg@));
        r
    }

    /// Adds a flag or option to this command.
    pub fn with_flag(self, flag: ArgNode) -> (r: Self)
        ensures
            r@ == (SpecText { args: self@.args.push(flag@), ..self@ }),
    {
        self.with_arg(flag)
    }

    /// Registers a compact framework schema from an [`OutputSchema`] type.
    pub fn with_output_schema<T: OutputSchema>(self) -> (r: Self)
        ensures
            exists|fields: Seq<FieldText>| #[trigger]
                schema::is_declared::<T>(fields) && r@ == (SpecText {
                    output_schema: Some(
                        SchemaText { command: Seq::empty(), fields, schema: None },
                    ),
                    ..self@
                }),
    {
        let fields = fields_for::<T>();
        let ghost texts = schema::field_texts(fields@);
        let mut r = self;
        r.output_schema = Some(SchemaInfo { command: String::new(), fields, schema: None });
        assert(r@.output_schema->0.command =~= Seq::empty());
        assert(schema::is_declared::<T>(texts));
        r
    }

    /// Registers schema information of the command's output.
    pub fn with_schema_info(self, info: SchemaInfo) -> (r: Self)
        ensures
            r@ == (SpecText { output_schema: Some(info@), ..self@ }),
    {
        let mut r = self;
        r.output_schema = Some(info);
        r
    }

    /// Marks whether the command should short-circuit under `--dry-run`.
    pub fn mutates(self, mutates: bool) -> (r: Self)
        ensures
            r@ == (SpecText { mutates, ..self@ }),
    {
        let mut r = self;
        r.mutates = mutates;
        r
    }

    /// Marks whether the command handles `--dry-run` itself.
    pub fn handles_dry_run(self, handles: bool) -> (r: Self)
        ensures
            r@ == (SpecText { handles_dry_run: handles, ..self@ }),
    {
        let mut r = self;
        r.handles_dry_run = handles;
        r
    }

    /// Declares the feature flag of this command.
    pub fn with_feature_flag(self, key: String, stage: Stage) -> (r: Self)
        ensures
            r@ == (SpecText { feature_flag: Some((key@, stage)), ..self@ }),
    {
        let mut r = self;
        r.feature_flag = Some(FeatureFlag::new(key, stage));
        r
    }

    /// Declares the columns of this command's human view.
    pub fn with_view(self, columns: Vec<TableColumn>) -> (r: Self)
        ensures
            r@ == (SpecText { view_columns: human::column_texts(columns@), ..self@ }),
    {
        let mut r = self;
        r.view_columns = columns;
        r
    }

    /// Selects a shared human view for this command.
    pub fn with_view_id(self, id: String) -> (r: Self)
        ensures
            r@ == (SpecText { view_id: Some(id@), ..self@ }),
    {
        let mut r = self;
        r.view_id = Some(id);
        r
    }

    /// Builds middleware metadata from the spec.
    pub fn metadata(&self) -> (r: CommandMeta)
        ensures
            r@ == spec_meta(self@),
    {
        let mut auth_metadata = copy_text_map(&self.auth_metadata);
        let ghost mut model = self@.auth_metadata;
        match &self.auth_provider {
            Some(provider) => {
                if !provider.as_str().is_empty() {
                    let ghost before = auth_metadata@;
                    auth_metadata.insert("provider".to_owned(), provider.clone());
                    proof {
                        model = model.insert("provider"@, provider@);
                        assert(meta::text_map(auth_metadata@) =~= model);
                    }
                }
            },
            None => {},
        }
        match self.tier {
            Some(tier) => {
                if !auth_metadata.contains_key("tier") {
                    auth_metadata.insert("tier".to_owned(), tier.as_str().to_owned());
                    proof {
                        model = model.insert("tier"@, tier::tier_name(tier));
                        assert(meta::text_map(auth_metadata@) =~= model);
                    }
                }
            },
            None => {},
        }
        assert(model == spec_metadata(self@));
        let scopes = match auth_metadata.get("scopes") {
            Some(s) => text::split_whitespace(s.as_str()),
            None => Vec::new(),
        };
        let dry_run_prompt = self.mutates || match self.tier {
            Some(tier) => tier.is_mutating(),
            None => false,
        };
        let r = CommandMeta {
            dry_run_prompt,
            handles_dry_run: self.handles_dry_run,
            auth_metadata,
            scopes,
        };
        assert(r@.scopes =~= spec_meta(self@).scopes);
        r
    }

    /// Builds the command for parser registration.
    pub fn node(&self) -> (r: CommandNode)
        ensures
            command_tree::node_text(r) == spec_node(self@),
    {
        let r = CommandNode {
            name: self.name.clone(),
            about: self.short.clone(),
            long_about: match &self.long {
                Some(l) => l.clone(),
                None => String::new(),
            },
            hidden: self.hidden,
            aliases: text::clone_strings(&self.aliases),
            short_flag_aliases: Vec::new(),
            long_flag_aliases: Vec::new(),
            args: copy_args(&self.args),
            subcommands: Vec::new(),
        };
        proof {
            assert(r.short_flag_aliases@ =~= Seq::empty());
            assert(text::texts(r.long_flag_aliases@) =~= Seq::empty());
            assert(command_tree::node_texts(r.subcommands@) =~= Seq::empty());
        }
        r
    }

    /// Copies the spec.
    pub fn copy(&self) -> (r: Self)
        ensures
            r@ == self@,
    {
        CommandSpec {
            name: self.name.clone(),
            short: self.short.clone(),
            long: clone_option(&self.long),
            aliases: text::clone_strings(&self.aliases),
            hidden: self.hidden,
            system: clone_option(&self.system),
            default_fields: clone_option(&self.default_fields),
            auth: self.auth,
            auth_provider: clone_option(&self.auth_provider),
            tier: self.tier,
            mutates: self.mutates,
            handles_dry_run: self.handles_dry_run,
            auth_metadata: copy_text_map(&self.auth_metadata),
            args: copy_args(&self.args),
            output_schema: copy_schema(&self.output_schema),
            feature_flag: copy_flag(&self.feature_flag),
            view_id: clone_option(&self.view_id),
            view_columns: copy_columns(&self.view_columns),
        }
    }
}

/// A command that says nothing of authentication is authenticated before it
/// runs.
pub proof fn law_commands_fail_closed(name: Seq<char>, short: Seq<char>)
    ensures
        bare_spec(name, short).auth is Required,
{
}

/// An explicit tier in the auth metadata wins over the declared one.
pub proof fn law_explicit_tier_wins(s: SpecText, tier: Tier)
    requires
        s.auth_metadata.dom().contains("tier"@),
    ensures
        spec_meta(SpecText { tier: Some(tier), ..s }).auth_metadata["tier"@]
            == s.auth_metadata["tier"@],
{
    reveal_strlit("tier");
    reveal_strlit("provider");
    assert("tier"@.len() != "provider"@.len());
}

/// The scopes that a command declares are those that its metadata hands on,
/// where each is one word.
pub proof fn law_declared_scopes_surface(s: SpecText, scopes: Seq<Seq<char>>)
    requires
        forall|i: int| 0 <= i < scopes.len() ==> text::is_word(#[trigger] scopes[i]),
    ensures
        spec_meta(scoped(s, scopes)).scopes == scopes,
{
    let after = scoped(s, scopes);
    text::lemma_words_of_join(scopes);
    reveal_strlit("scopes");
    reveal_strlit("provider");
    reveal_strlit("tier");
    assert("scopes"@.len() == 6 && "provider"@.len() == 8 && "tier"@.len() == 4);
    if text::join_spec(scopes, " "@).len() == 0 {
        assert(scopes.len() == 0);
        assert(!after.auth_metadata.dom().contains("scopes"@));
        assert(scopes =~= Seq::empty());
    } else {
        assert(after.auth_metadata["scopes"@] == text::join_spec(scopes, " "@));
    }
}

/// The metadata of a command name the provider that it selects, and the tier
/// that it declares unless its metadata name one; every other entry stays.
pub proof fn law_metadata_name_provider_and_tier(s: SpecText, key: Seq<char>)
    ensures
        s.auth_provider matches Some(p) ==> (p.len() > 0 ==> meta::value_of(
            spec_meta(s).auth_metadata,
            "provider"@,
        ) == Some(p)),
        s.auth_provider is None ==> meta::value_of(spec_meta(s).auth_metadata, "provider"@)
            == meta::value_of(s.auth_metadata, "provider"@),
        s.tier matches Some(t) ==> (!s.auth_metadata.dom().contains("tier"@) ==> meta::value_of(
            spec_meta(s).auth_metadata,
            "tier"@,
        ) == Some(tier::tier_name(t))),
        s.tier is None ==> meta::value_of(spec_meta(s).auth_metadata, "tier"@) == meta::value_of(
            s.auth_metadata,
            "tier"@,
        ),
        key != "provider"@ && key != "tier"@ ==> meta::value_of(spec_meta(s).auth_metadata, key)
            == meta::value_of(s.auth_metadata, key),
{
    reveal_strlit("provider");
    reveal_strlit("tier");
    assert("provider"@.len() == 8 && "tier"@.len() == 4);
}

/// A command is asked before a dry run exactly where it is marked as changing
/// something or has the tier for it, and handles dry runs itself exactly where
/// it says so.
pub proof fn law_changes_are_marked(s: SpecText)
    ensures
        spec_meta(s).dry_run_prompt <==> s.mutates || s.tier == Some(Tier::Mutate),
        spec_meta(s).handles_dry_run == s.handles_dry_run,
        !s.auth_metadata.dom().contains("scopes"@) ==> spec_meta(s).scopes.len() == 0,
{
    reveal_strlit("provider");
    reveal_strlit("tier");
    reveal_strlit("scopes");
    assert("provider"@.len() == 8 && "tier"@.len() == 4 && "scopes"@.len() == 6);
}

/// The parser knows a command by its name and its aliases, with its own
/// arguments, and nothing is below it.
pub proof fn law_parser_knows_the_command(s: SpecText)
    ensures
        spec_node(s).name == s.name,
        spec_node(s).about == s.short,
        spec_node(s).aliases == s.aliases,
        spec_node(s).hidden == s.hidden,
        spec_node(s).args == s.args,
        spec_node(s).subcommands.len() == 0,
        s.long matches Some(l) ==> spec_node(s).long_about == l,
        s.long is None ==> spec_node(s).long_about.len() == 0,
{
}

} // verus!
