//! Declarative configuration for a CLI application.
//!
//! Hooks, providers and the like are outside; what stands for them here is the
//! number that their owner gave them.
use crate::auth::dispatcher::ProviderEntry;
use crate::cli::argv0::Argv0Route;
use crate::cli::argv0;
use crate::cli::settings::{add_redacted_headers, user_agent_string, BuildInfo};
use crate::cli::settings;
use crate::environments::Environments;
use crate::error;
use crate::feature_flags::{FlagPolicy, Stage};
use crate::groups::RuntimeCommandSpec;
use crate::guide::GuideEntry;
use crate::module::Module;
use crate::ordmap::StringMap;
use crate::output::human::HumanViewDef;
use crate::text;
use vstd::prelude::*;
use vstd::string::*;

verus! {

/// Declarative configuration for a CLI application.
pub struct CliConfig {
    /// Root command name shown in usage output.
    pub name: String,
    /// One-line root command description.
    pub short: String,
    /// Optional longer root command description. Defaults to `short`.
    pub long: Option<String>,
    /// Version/build metadata for `--version`.
    pub build: BuildInfo,
    /// Application id stored in middleware and output metadata.
    pub app_id: String,
    /// Fallback auth provider when a command does not select one explicitly.
    pub default_auth_provider: Option<String>,
    /// Domain modules mounted under the root command.
    pub modules: Vec<Module>,
    /// Additional top-level runtime commands.
    pub commands: Vec<RuntimeCommandSpec>,
    /// Additional commands mounted as siblings of the built-in `auth` commands.
    pub auth_extra_commands: Vec<RuntimeCommandSpec>,
    /// Global guide entries mounted under `guide`.
    pub guides: Vec<GuideEntry>,
    /// Global human output views.
    pub views: Vec<HumanViewDef>,
    /// Providers registered before command execution starts.
    pub auth_providers: Vec<ProviderEntry>,
    /// Optional override for the process-wide outbound User-Agent.
    pub user_agent: Option<String>,
    /// Extra HTTP header names to redact in `--debug transport` output.
    pub redacted_debug_headers: Vec<String>,
    /// Whether anything consumes `--reason`: an authorizer, an auditor or an
    /// activity emitter.
    pub consumes_reason: bool,
    /// Name of the admin help category.
    pub admin_category: Option<String>,
    /// Whether to mount the built-in `config` command group.
    pub config_commands: bool,
    /// Alternative `argv[0]` names this binary may be invoked as.
    pub argv0_routes: StringMap<Argv0Route>,
    /// Optional first-class environment system.
    pub environments: Option<Environments>,
    /// Minimum feature stage required for a flagged command, group, or module to
    /// remain mounted.
    pub min_stage: Stage,
    /// Per-key stage overrides.
    pub feature_overrides: StringMap<Stage>,
}

/// The config says no more than a name, a description and an id.
pub open spec fn is_minimal(c: CliConfig, name: Seq<char>, short: Seq<char>, app_id: Seq<char>) -> bool {
    &&& c.name@ == name
    &&& c.short@ == short
    &&& c.long is None
    &&& c.build.version@.len() == 0
    &&& c.build.commit is None
    &&& c.build.date is None
    &&& c.app_id@ == app_id
    &&& c.default_auth_provider is None
    &&& c.modules@.len() == 0
    &&& c.commands@.len() == 0
    &&& c.auth_extra_commands@.len() == 0
    &&& c.guides@.len() == 0
    &&& c.views@.len() == 0
    &&& c.auth_providers@.len() == 0
    &&& c.user_agent is None
    &&& c.redacted_debug_headers@.len() == 0
    &&& !c.consumes_reason
    &&& c.admin_category is None
    &&& !c.config_commands
    &&& c.argv0_routes@ == Map::<Seq<char>, Argv0Route>::empty()
    &&& c.environments is None
    &&& c.min_stage == Stage::Ga
    &&& c.feature_overrides@ == Map::<Seq<char>, Stage>::empty()
}

impl CliConfig {
    /// Creates the minimum useful CLI configuration.
    pub fn new(name: &str, short: &str, app_id: &str) -> (r: Self)
        ensures
            is_minimal(r, name@, short@, app_id@),
    {
        CliConfig {
            name: name.to_owned(),
            short: short.to_owned(),
            long: None,
            build: BuildInfo { version: String::new(), commit: None, date: None },
            app_id: app_id.to_owned(),
            default_auth_provider: None,
            modules: Vec::new(),
            commands: Vec::new(),
            auth_extra_commands: Vec::new(),
            guides: Vec::new(),
            views: Vec::new(),
            auth_providers: Vec::new(),
            user_agent: None,
            redacted_debug_headers: Vec::new(),
            consumes_reason: false,
            admin_category: None,
            config_commands: false,
            argv0_routes: StringMap::new(),
            environments: None,
            min_stage: Stage::Ga,
            feature_overrides: StringMap::new(),
        }
    }

    /// Sets root long help text.
    pub fn with_long(self, long: String) -> (r: Self)
        ensures
            r == (CliConfig { long: Some(long), ..self }),
    {
        let mut r = self;
        r.long = Some(long);
        r
    }

    /// Sets version/build metadata.
    pub fn with_build(self, build: BuildInfo) -> (r: Self)
        ensures
            r == (CliConfig { build, ..self }),
    {
        let mut r = self;
        r.build = build;
        r
    }

    /// Sets the fallback auth provider.
    pub fn with_default_auth_provider(self, provider: String) -> (r: Self)
        ensures
            r == (CliConfig { default_auth_provider: Some(provider), ..self }),
    {
        let mut r = self;
        r.default_auth_provider = Some(provider);
        r
    }

    /// Registers the environment system.
    pub fn with_environments(self, environments: Environments) -> (r: Self)
        ensures
            r == (CliConfig { environments: Some(environments), ..self }),
    {
        let mut r = self;
        r.environments = Some(environments);
        r
    }

    /// Sets the minimum feature stage required for a flagged command, group, or
    /// module to remain mounted.
    pub fn with_min_stage(self, stage: Stage) -> (r: Self)
        ensures
            r == (CliConfig { min_stage: stage, ..self }),
    {
        let mut r = self;
        r.min_stage = stage;
        r
    }

    /// Adds (or replaces) a per-key feature-flag stage override.
    pub fn with_feature_override(self, key: String, stage: Stage) -> (r: Self)
        ensures
            r == (CliConfig { feature_overrides: r.feature_overrides, ..self }),
            r.feature_overrides@ == self.feature_overrides@.insert(key@, stage),
    {
        let mut r = self;
        r.feature_overrides.insert(key, stage);
        r
    }

    /// Builds the [`FlagPolicy`] used for command-tree pruning from this
    /// config's `min_stage` and `feature_overrides`.
    pub fn flag_policy(&self) -> (r: FlagPolicy)
        ensures
            r.min_stage == self.min_stage,
            r.overrides@ == self.feature_overrides@,
    {
        let r = FlagPolicy::new().with_min_stage(self.min_stage).merged_with(
            None,
            &self.feature_overrides,
        );
        assert(r.overrides@ =~= self.feature_overrides@);
        r
    }

    /// Overrides the outbound User-Agent string for all HTTP traffic.
    pub fn with_user_agent(self, user_agent: String) -> (r: Self)
        ensures
            r == (CliConfig { user_agent: Some(user_agent), ..self }),
    {
        let mut r = self;
        r.user_agent = Some(user_agent);
        r
    }

    /// Adds HTTP header names to redact in `--debug transport` output. Names are
    /// trimmed and empty entries are dropped.
    pub fn with_redacted_debug_headers(self, names: &Vec<String>) -> (r: Self)
        ensures
            r == (CliConfig { redacted_debug_headers: r.redacted_debug_headers, ..self }),
            text::texts(r.redacted_debug_headers@) == text::texts(self.redacted_debug_headers@)
                + settings::header_names(text::texts(names@)),
    {
        let mut r = self;
        add_redacted_headers(&mut r.redacted_debug_headers, names);
        r
    }

    /// Returns the outbound User-Agent string the CLI presents on HTTP requests:
    /// an explicit override, otherwise `name/version`, otherwise just `name`
    /// when no build version is set.
    pub fn user_agent_string(&self) -> (r: String)
        ensures
            r@ == settings::user_agent_spec(
                error::opt_text(self.user_agent),
                self.name@,
                self.build.version@,
            ),
    {
        user_agent_string(&self.user_agent, self.name.as_str(), self.build.version.as_str())
    }

    /// Adds one domain module.
    pub fn with_module(self, module: Module) -> (r: Self)
        ensures
            r == (CliConfig { modules: r.modules, ..self }),
            r.modules@ == self.modules@.push(module),
    {
        let mut r = self;
        r.modules.push(module);
        r
    }

    /// Adds several domain modules.
    pub fn with_modules(self, modules: Vec<Module>) -> (r: Self)
        ensures
            r == (CliConfig { modules: r.modules, ..self }),
            r.modules@ == self.modules@ + modules@,
    {
        let mut r = self;
        let mut more = modules;
        r.modules.append(&mut more);
        r
    }

    /// Adds one top-level runtime command.
    pub fn with_command(self, command: RuntimeCommandSpec) -> (r: Self)
        ensures
            r == (CliConfig { commands: r.commands, ..self }),
            r.commands@ == self.commands@.push(command),
    {
        let mut r = self;
        r.commands.push(command);
        r
    }

    /// Adds commands mounted as siblings of the built-in `auth` group's
    /// `login`/`status`/`logout`.
    pub fn with_auth_extra_commands(self, commands: Vec<RuntimeCommandSpec>) -> (r: Self)
        ensures
            r == (CliConfig { auth_extra_commands: r.auth_extra_commands, ..self }),
            r.auth_extra_commands@ == self.auth_extra_commands@ + commands@,
    {
        let mut r = self;
        let mut more = commands;
        r.auth_extra_commands.append(&mut more);
        r
    }

    /// Adds one global guide.
    pub fn with_guide(self, guide: GuideEntry) -> (r: Self)
        ensures
            r == (CliConfig { guides: r.guides, ..self }),
            r.guides@ == self.guides@.push(guide),
    {
        let mut r = self;
        r.guides.push(guide);
        r
    }

    /// Adds several global guides.
    pub fn with_guides(self, guides: Vec<GuideEntry>) -> (r: Self)
        ensures
            r == (CliConfig { guides: r.guides, ..self }),
            r.guides@ == self.guides@ + guides@,
    {
        let mut r = self;
        let mut more = guides;
        r.guides.append(&mut more);
        r
    }

    /// Adds one global human output view.
    pub fn with_view(self, view: HumanViewDef) -> (r: Self)
        ensures
            r == (CliConfig { views: r.views, ..self }),
            r.views@ == self.views@.push(view),
    {
        let mut r = self;
        r.views.push(view);
        r
    }

    /// Registers an auth provider before command execution starts.
    pub fn with_auth_provider(self, name: String, id: u64) -> (r: Self)
        ensures
            r == (CliConfig { auth_providers: r.auth_providers, ..self }),
            r.auth_providers@ == self.auth_providers@.push(ProviderEntry { name, id }),
    {
        let mut r = self;
        r.auth_providers.push(ProviderEntry { name, id });
        r
    }

    /// Notes that an authorizer, an auditor or an activity emitter consumes
    /// `--reason`.
    pub fn with_reason_consumer(self) -> (r: Self)
        ensures
            r == (CliConfig { consumes_reason: true, ..self }),
    {
        let mut r = self;
        r.consumes_reason = true;
        r
    }

    /// Sets the name of the admin help category.
    pub fn with_admin_category(self, category: String) -> (r: Self)
        ensures
            r == (CliConfig { admin_category: Some(category), ..self }),
    {
        let mut r = self;
        r.admin_category = Some(category);
        r
    }

    /// Mounts the built-in `config` command group.
    pub fn with_config_commands(self) -> (r: Self)
        ensures
            r == (CliConfig { config_commands: true, ..self }),
    {
        let mut r = self;
        r.config_commands = true;
        r
    }

    /// Registers an alternative `argv[0]` name that acts as a shortcut to a
    /// command path on this same CLI.
    ///
    /// `name` must be a simple `[A-Za-z0-9_-]` token that differs from the CLI's
    /// own name.
    pub fn with_argv0_alias(self, name: String, command_path: Vec<String>) -> (r: Self)
        requires
            argv0::is_valid_name(name@),
            name@ != self.name@,
        ensures
            r == (CliConfig { argv0_routes: r.argv0_routes, ..self }),
            r.argv0_routes@ == self.argv0_routes@.insert(name@, Argv0Route::Alias(command_path)),
    {
        let mut r = self;
        r.argv0_routes.insert(name, Argv0Route::Alias(command_path));
        r
    }

    /// Registers an alternative `argv[0]` name that runs an entirely separate
    /// CLI application, known by its number.
    ///
    /// `name` must be a simple `[A-Za-z0-9_-]` token that differs from the CLI's
    /// own name.
    pub fn with_argv0_personality(self, name: String, id: u64) -> (r: Self)
        requires
            argv0::is_valid_name(name@),
            name@ != self.name@,
        ensures
            r == (CliConfig { argv0_routes: r.argv0_routes, ..self }),
            r.argv0_routes@ == self.argv0_routes@.insert(name@, Argv0Route::Personality(id)),
    {
        let mut r = self;
        r.argv0_routes.insert(name, Argv0Route::Personality(id));
        r
    }

    /// The alternative names that are registered, in increasing order.
    pub fn argv0_names(&self) -> (r: Vec<String>)
        ensures
            crate::environments::is_name_list(text::texts(r@), self.argv0_routes@.dom()),
    {
        self.argv0_routes.keys()
    }
}

/// A new configuration has the name, the description and the id that it was
/// made with, asks for nothing else, and shows only what is generally
/// available.
pub proof fn law_new_configuration(
    c: CliConfig,
    name: Seq<char>,
    short: Seq<char>,
    app_id: Seq<char>,
)
    requires
        is_minimal(c, name, short, app_id),
    ensures
        c.name@ == name,
        c.short@ == short,
        c.app_id@ == app_id,
        c.min_stage is Ga,
        !c.config_commands,
        !c.consumes_reason,
        c.environments is None,
        c.default_auth_provider is None,
        c.modules@.len() == 0 && c.commands@.len() == 0 && c.auth_providers@.len() == 0,
{
}

} // verus!
