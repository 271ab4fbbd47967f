//! How an application is put together from its configuration.
use crate::auth::dispatcher::ProviderEntry;
use crate::auth::dispatcher;
use crate::cli::config::CliConfig;
use crate::cli::shape::{CliShape, ShapeSettings, ShapeText};
use crate::cli::shape;
use crate::command_tree::{ArgNode, ArgText};
use crate::command_tree;
use crate::builtin_groups;
use crate::error;
use crate::feature_flags::FlagPolicy;
use crate::groups::{RuntimeCommandSpec, RuntimeGroupSpec, RuntimeText, TreeText};
use crate::groups;
use crate::guide::GuideText;
use crate::guide;
use crate::module::{copy_view, Module, ModuleContext};
use crate::output::human::{HumanViewDef, HumanViewRegistry, ViewsText};
use crate::output::human;
use crate::output::schema::{SchemaRegistry, SchemaText};
use vstd::prelude::*;
use vstd::string::*;

verus! {

/// The views after others were registered, later ones in place of earlier ones.
pub open spec fn views_added(views: ViewsText, more: Seq<HumanViewDef>) -> ViewsText
    decreases more.len(),
{
    if more.len() == 0 {
        views
    } else {
        let before = views_added(views, more.drop_last());
        ViewsText {
            columns: before.columns.insert(
                more.last().schema_id@,
                human::column_texts(more.last().columns@),
            ),
            ..before
        }
    }
}

/// `after` is the application with guides added, and its long help written anew.
pub open spec fn is_guided(
    s: ShapeSettings,
    before: ShapeText,
    after: ShapeText,
    more: Seq<GuideText>,
) -> bool {
    &&& shape::same_but_long(
        after,
        shape::with_guide_command(
            ShapeText { guides: shape::guides_added(before.guides, more), ..before },
        ),
    )
    &&& shape::is_fresh(s, after)
}

/// `after` is the application with one more provider.
pub open spec fn is_provided(
    s: ShapeSettings,
    before: ShapeText,
    after: ShapeText,
    p: ProviderEntry,
) -> bool {
    &&& shape::is_auth_ensured_anew(
        s,
        ShapeText {
            providers: dispatcher::registered(before.providers, p.name@, p.id),
            ..before
        },
        after,
    )
    &&& shape::is_fresh(s, after)
}

/// `after` is the application with these providers, one after the other.
pub open spec fn are_provided(
    s: ShapeSettings,
    before: ShapeText,
    after: ShapeText,
    all: Seq<ProviderEntry>,
) -> bool
    decreases all.len(),
{
    if all.len() == 0 {
        after == before
    } else {
        exists|mid: ShapeText|
            are_provided(s, before, mid, all.drop_last()) && #[trigger] is_provided(
                s,
                mid,
                after,
                all.last(),
            )
    }
}

/// The application with a top-level command.
pub open spec fn command_added(a: ShapeText, c: RuntimeText) -> ShapeText {
    shape::command_added(a, c)
}

/// The application with top-level commands.
pub open spec fn commands_added(a: ShapeText, all: Seq<RuntimeText>) -> ShapeText
    decreases all.len(),
{
    if all.len() == 0 {
        a
    } else {
        command_added(commands_added(a, all.drop_last()), all.last())
    }
}

/// `after` is the application with the group ensured, where that is `wanted`.
pub open spec fn is_ensured_if(
    wanted: bool,
    s: ShapeSettings,
    before: ShapeText,
    after: ShapeText,
    g: TreeText,
) -> bool {
    if wanted {
        shape::is_ensured(s, before, after, g)
    } else {
        after == before
    }
}

/// `after` is the application after its modules were added: the top-level
/// commands, then the built-in groups `config`, `env` and `flags`.
pub open spec fn is_completed(
    s: ShapeSettings,
    before: ShapeText,
    after: ShapeText,
    commands: Seq<RuntimeText>,
    with_config: bool,
    with_env: bool,
) -> bool {
    exists|configured: ShapeText, environed: ShapeText|
        {
            &&& #[trigger] is_ensured_if(
                with_config,
                s,
                commands_added(before, commands),
                configured,
                builtin_groups::config_tree(),
            )
            &&& #[trigger] is_ensured_if(
                with_env,
                s,
                configured,
                environed,
                builtin_groups::env_tree(),
            )
            &&& shape::is_ensured(s, environed, after, builtin_groups::flags_tree())
        }
}

/// `settings` are those of a configuration, with the policy and the default
/// provider given.
pub open spec fn are_settings(
    settings: ShapeSettings,
    config: CliConfig,
    policy: FlagPolicy,
    default_provider: Seq<char>,
) -> bool {
    &&& settings.name@ == config.name@
    &&& settings.short@ == config.short@
    &&& error::opt_text(settings.long) == error::opt_text(config.long)
    &&& settings.default_auth_provider@ == default_provider
    &&& error::opt_text(settings.admin_category) == error::opt_text(config.admin_category)
    &&& groups::runtime_texts(settings.auth_extra_commands@) == groups::runtime_texts(
        config.auth_extra_commands@,
    )
    &&& settings.policy == policy
}

/// `a` is an application that nothing was added to.
pub open spec fn is_bare(
    s: ShapeSettings,
    a: ShapeText,
    extra_flags: Seq<ArgText>,
    with_reason: bool,
    with_env: bool,
    schemas: Map<Seq<char>, SchemaText>,
    views: ViewsText,
) -> bool {
    &&& a.root == shape::bare_root(s, extra_flags, with_reason, with_env)
    &&& crate::cli::help::is_root_long(a.long, shape::intro_of(s), Seq::empty(), false)
    &&& a.commands == Map::<Seq<char>, RuntimeText>::empty()
    &&& a.entries.len() == 0
    &&& a.guides.len() == 0
    &&& a.schemas == schemas
    &&& a.views == views
    &&& a.providers.len() == 0
    &&& a.flags.len() == 0
}

/// The default provider of a configuration, before any is registered.
pub open spec fn configured_provider(config: CliConfig) -> Seq<char> {
    error::text_or_empty(error::opt_text(config.default_auth_provider))
}

/// `after` is the application before its modules are added: its providers, the
/// command `auth`, its views and its guides. Without a configured default
/// provider the first registered one is the default.
pub open spec fn is_prepared(
    first: ShapeSettings,
    s: ShapeSettings,
    after: ShapeText,
    config: CliConfig,
    policy: FlagPolicy,
    extra_flags: Seq<ArgText>,
    schemas: Map<Seq<char>, SchemaText>,
    views: ViewsText,
) -> bool {
    exists|bare: ShapeText, provided: ShapeText, ensured: ShapeText|
        {
            &&& are_settings(first, config, policy, configured_provider(config))
            &&& #[trigger] is_bare(
                first,
                bare,
                extra_flags,
                config.consumes_reason,
                config.environments is Some,
                schemas,
                views,
            )
            &&& #[trigger] are_provided(first, bare, provided, config.auth_providers@)
            &&& are_settings(s, config, policy, shape::default_provider_spec(first, provided))
            &&& #[trigger] is_auth_ensured_if(s, provided, ensured)
            &&& is_guided(
                s,
                ShapeText { views: views_added(ensured.views, config.views@), ..ensured },
                after,
                guide::guide_texts(config.guides@),
            )
        }
}

/// `after` is the application with the command `auth` ensured, where there is a
/// default provider.
pub open spec fn is_auth_ensured_if(s: ShapeSettings, before: ShapeText, after: ShapeText) -> bool {
    if s.default_auth_provider@.len() > 0 {
        shape::is_auth_ensured(s, before, after)
    } else {
        after == before
    }
}

/// `after` is the application with what a module registered: its schemas, views
/// and guides, and its group below the module's flag.
pub open spec fn is_module_closed(
    s: ShapeSettings,
    before: ShapeText,
    after: ShapeText,
    module: Module,
    context: ModuleContext,
    group: TreeText,
) -> bool {
    exists|mid: ShapeText|
        {
            &&& #[trigger] is_guided(
                s,
                ShapeText {
                    schemas: context.schemas@,
                    views: views_added(context.human_views@, context.views@),
                    ..before
                },
                mid,
                guide::guide_texts(context.guides@),
            )
            &&& shape::is_group_added(
                s,
                mid,
                after,
                module.category@,
                group,
                shape::flag_of(module.feature_flag),
            )
        }
}

proof fn lemma_one_more_provided(
    s: ShapeSettings,
    before: ShapeText,
    mid: ShapeText,
    after: ShapeText,
    all: Seq<ProviderEntry>,
    i: int,
)
    requires
        0 <= i < all.len(),
        are_provided(s, before, mid, all.take(i)),
        is_provided(s, mid, after, all[i]),
    ensures
        are_provided(s, before, after, all.take(i + 1)),
{
    let next = all.take(i + 1);
    assert(next.drop_last() =~= all.take(i));
    assert(next.last() == all[i]);
    assert(is_provided(s, mid, after, next.last()));
}

fn copy_commands(commands: &Vec<RuntimeCommandSpec>) -> (r: Vec<RuntimeCommandSpec>)
    ensures
        groups::runtime_texts(r@) == groups::runtime_texts(commands@),
{
    let mut r: Vec<RuntimeCommandSpec> = Vec::new();
    let mut i: usize = 0;
    while i < commands.len()
        invariant
            i <= commands@.len(),
            r@.len() == i,
            forall|k: int| 0 <= k < i ==> (#[trigger] r@[k])@ == commands@[k]@,
        decreases commands@.len() - i,
    {
        r.push(commands[i].copy());
        i = i + 1;
    }
    assert(groups::runtime_texts(r@) =~= groups::runtime_texts(commands@));
    r
}

impl CliShape {
    /// Registers views.
    pub fn register_views(&mut self, views: &Vec<HumanViewDef>)
        ensures
            final(self).settings == old(self).settings,
            final(self)@ == (ShapeText {
                views: views_added(old(self)@.views, views@),
                ..old(self)@
            }),
    {
        let ghost first = self@;
        let mut i: usize = 0;
        proof {
            assert(views@.take(0) =~= Seq::empty());
        }
        while i < views.len()
            invariant
                i <= views@.len(),
                self.settings == old(self).settings,
                self@ == (ShapeText {
                    views: views_added(first.views, views@.take(i as int)),
                    ..first
                }),
            decreases views@.len() - i,
        {
            proof {
                assert(views@.take(i + 1).drop_last() =~= views@.take(i as int));
            }
            self.views.register(copy_view(&views[i]));
            i = i + 1;
        }
        proof {
            assert(views@.take(i as int) =~= views@);
        }
    }

    /// Registers auth providers, one after the other.
    pub fn register_providers(&mut self, providers: &Vec<ProviderEntry>)
        ensures
            final(self).settings == old(self).settings,
            are_provided(old(self).settings, old(self)@, final(self)@, providers@),
    {
        let ghost s = self.settings;
        let ghost before = self@;
        let mut i: usize = 0;
        proof {
            assert(providers@.take(0) =~= Seq::empty());
        }
        while i < providers.len()
            invariant
                i <= providers@.len(),
                self.settings == s,
                are_provided(s, before, self@, providers@.take(i as int)),
            decreases providers@.len() - i,
        {
            let ghost mid = self@;
            self.register_auth_provider(providers[i].name.clone(), providers[i].id);
            proof {
                lemma_one_more_provided(s, before, mid, self@, providers@, i as int);
            }
            i = i + 1;
        }
        proof {
            assert(providers@.take(i as int) =~= providers@);
        }
    }

    /// The application of a configuration before its modules are added.
    ///
    /// `policy` is the configuration's flag policy, with that of the active
    /// environment on top; `extra_flags` are the application's own global flags.
    pub fn prepare(
        config: &CliConfig,
        policy: FlagPolicy,
        extra_flags: Vec<ArgNode>,
        schemas: SchemaRegistry,
        views: HumanViewRegistry,
    ) -> (r: Self)
        ensures
            exists|first: ShapeSettings| #[trigger]
                is_prepared(
                    first,
                    r.settings,
                    r@,
                    *config,
                    policy,
                    command_tree::arg_texts(extra_flags@),
                    schemas@,
                    views@,
                ),
    {
        let default_auth_provider: String = match &config.default_auth_provider {
            Some(p) => p.clone(),
            None => String::new(),
        };
        assert(default_auth_provider@ =~= configured_provider(*config));
        let settings = ShapeSettings {
            name: config.name.clone(),
            short: config.short.clone(),
            long: error::clone_option(&config.long),
            default_auth_provider,
            admin_category: error::clone_option(&config.admin_category),
            auth_extra_commands: copy_commands(&config.auth_extra_commands),
            policy,
        };
        let ghost first = settings;
        let mut r = CliShape::new(
            settings,
            extra_flags,
            config.consumes_reason,
            config.environments.is_some(),
            schemas,
            views,
        );
        let ghost bare = r@;
        r.register_providers(&config.auth_providers);
        let ghost provided = r@;
        r.settings.default_auth_provider = r.default_auth_provider();
        assert(r@ == provided);
        let ghost s = r.settings;
        if !r.settings.default_auth_provider.as_str().is_empty() {
            r.ensure_auth_command();
        }
        let ghost ensured = r@;
        assert(is_auth_ensured_if(s, provided, ensured));
        r.register_views(&config.views);
        r.add_guides(&config.guides);
        proof {
            assert(is_bare(
                first,
                bare,
                command_tree::arg_texts(extra_flags@),
                config.consumes_reason,
                config.environments is Some,
                schemas@,
                views@,
            ));
            assert(is_prepared(
                first,
                r.settings,
                r@,
                *config,
                policy,
                command_tree::arg_texts(extra_flags@),
                schemas@,
                views@,
            ));
        }
        r
    }

    /// Starts to add a module: its views and guides are registered, and a context
    /// is made for its registration function.
    pub fn open_module(&mut self, module: &Module) -> (r: ModuleContext)
        ensures
            final(self).settings == old(self).settings,
            is_guided(
                old(self).settings,
                ShapeText {
                    views: views_added(old(self)@.views, module.views@),
                    ..old(self)@
                },
                final(self)@,
                guide::guide_texts(module.guides@),
            ),
            r.schemas@ == final(self)@.schemas,
            r.human_views@ == final(self)@.views,
            r.guides@.len() == 0,
            r.views@.len() == 0,
    {
        self.register_views(&module.views);
        self.add_guides(&module.guides);
        ModuleContext::new(self.schemas.copy(), self.views.copy())
    }

    /// Adds what a module registered: the schemas, views and guides of its
    /// context, and its group.
    pub fn close_module(&mut self, module: Module, context: ModuleContext, group: RuntimeGroupSpec)
        ensures
            final(self).settings == old(self).settings,
            is_module_closed(
                old(self).settings,
                old(self)@,
                final(self)@,
                module,
                context,
                group@,
            ),
    {
        self.schemas = context.schemas;
        self.views = context.human_views;
        self.register_views(&context.views);
        self.add_guides(&context.guides);
        let ghost mid = self@;
        assert(is_guided(
            old(self).settings,
            ShapeText {
                schemas: context.schemas@,
                views: views_added(context.human_views@, context.views@),
                ..old(self)@
            },
            mid,
            guide::guide_texts(context.guides@),
        ));
        self.add_module_group(module.category, group, module.feature_flag);
    }

    /// Adds what comes after the modules: the top-level commands, and the
    /// built-in groups `config`, `env` and `flags`.
    pub fn complete(&mut self, commands: &Vec<RuntimeCommandSpec>, with_config: bool, with_env: bool)
        ensures
            final(self).settings == old(self).settings,
            is_completed(
                old(self).settings,
                old(self)@,
                final(self)@,
                groups::runtime_texts(commands@),
                with_config,
                with_env,
            ),
    {
        let ghost first = self@;
        let ghost all = groups::runtime_texts(commands@);
        let mut i: usize = 0;
        proof {
            assert(all.take(0) =~= Seq::empty());
        }
        while i < commands.len()
            invariant
                i <= commands@.len(),
                all == groups::runtime_texts(commands@),
                self.settings == old(self).settings,
                self@ == commands_added(first, all.take(i as int)),
            decreases commands@.len() - i,
        {
            proof {
                assert(all.take(i + 1).drop_last() =~= all.take(i as int));
                assert(all.take(i + 1).last() == commands@[i as int]@);
            }
            self.add_command(commands[i].copy());
            i = i + 1;
        }
        proof {
            assert(all.take(i as int) =~= all);
        }
        if with_config {
            self.ensure_config_command();
        }
        let ghost configured = self@;
        assert(is_ensured_if(
            with_config,
            self.settings,
            commands_added(first, all),
            configured,
            builtin_groups::config_tree(),
        ));
        if with_env {
            self.ensure_env_command();
        }
        assert(is_ensured_if(
            with_env,
            self.settings,
            configured,
            self@,
            builtin_groups::env_tree(),
        ));
        self.ensure_flags_command();
    }
}

/// A finished application lists its feature flags: it has a command `flags`.
pub proof fn law_flags_are_listed(
    s: ShapeSettings,
    before: ShapeText,
    after: ShapeText,
    commands: Seq<RuntimeText>,
    with_config: bool,
    with_env: bool,
)
    requires
        is_completed(s, before, after, commands, with_config, with_env),
    ensures
        shape::has_named(after.root.subcommands, "flags"@),
{
    let (configured, environed) = choose|configured: ShapeText, environed: ShapeText|
        {
            &&& #[trigger] is_ensured_if(
                with_config,
                s,
                commands_added(before, commands),
                configured,
                builtin_groups::config_tree(),
            )
            &&& #[trigger] is_ensured_if(
                with_env,
                s,
                configured,
                environed,
                builtin_groups::env_tree(),
            )
            &&& shape::is_ensured(s, environed, after, builtin_groups::flags_tree())
        };
    let g = builtin_groups::flags_tree();
    assert(g.head.name == "flags"@);
    if !shape::has_named(environed.root.subcommands, g.head.name) {
        let i = environed.root.subcommands.len() as int;
        assert(after.root.subcommands[i].name == g.head.name);
    }
}

/// The view that was registered last for an id counts, and custom renderers
/// stay.
pub proof fn law_last_view_counts(views: ViewsText, more: Seq<HumanViewDef>, v: HumanViewDef)
    ensures
        ({
            let before = views_added(views, more);
            let after = views_added(views, more.push(v));
            &&& after.columns.dom().contains(v.schema_id@) && after.columns[v.schema_id@]
                == human::column_texts(v.columns@)
            &&& after.columns.remove(v.schema_id@) == before.columns.remove(v.schema_id@)
            &&& after.custom == views.custom
        }),
    decreases more.len(),
{
    assert(more.push(v).drop_last() =~= more);
    let before = views_added(views, more);
    let after = views_added(views, more.push(v));
    assert(after.columns.remove(v.schema_id@) =~= before.columns.remove(v.schema_id@));
    if more.len() > 0 {
        law_last_view_counts(views, more.drop_last(), more.last());
        assert(more.drop_last().push(more.last()) =~= more);
    }
}

/// Each top-level command is known under its name, unless a later one has the
/// same.
pub proof fn law_commands_are_known(a: ShapeText, all: Seq<RuntimeText>, i: int)
    requires
        0 <= i < all.len(),
        forall|j: int| i < j < all.len() ==> (#[trigger] all[j]).spec.name != all[i].spec.name,
    ensures
        commands_added(a, all).commands.dom().contains(all[i].spec.name),
        commands_added(a, all).commands[all[i].spec.name] == all[i],
        commands_added(a, all).root.subcommands.len() == a.root.subcommands.len() + all.len(),
        commands_added(a, all).root.subcommands[a.root.subcommands.len() + i].name
            == all[i].spec.name,
    decreases all.len(),
{
    let init = all.drop_last();
    let before = commands_added(a, init);
    shape::law_top_level_command_is_known(before, all.last(), all[i].spec.name);
    lemma_commands_len(a, init);
    if i < all.len() - 1 {
        assert forall|j: int| i < j < init.len() implies (#[trigger] init[j]).spec.name
            != init[i].spec.name by {
            assert(init[j] == all[j]);
        }
        law_commands_are_known(a, init, i);
        assert(all[all.len() - 1].spec.name != all[i].spec.name);
        let subs = commands_added(a, all).root.subcommands;
        assert(subs.drop_last()[a.root.subcommands.len() + i] == subs[a.root.subcommands.len() + i]);
    }
}

proof fn lemma_commands_len(a: ShapeText, all: Seq<RuntimeText>)
    ensures
        commands_added(a, all).root.subcommands.len() == a.root.subcommands.len() + all.len(),
    decreases all.len(),
{
    if all.len() > 0 {
        lemma_commands_len(a, all.drop_last());
        shape::law_top_level_command_is_known(
            commands_added(a, all.drop_last()),
            all.last(),
            all.last().spec.name,
        );
    }
}

/// A complete application has the command `flags`, and `config` and `env` where
/// they are wanted.
pub proof fn law_complete_application(
    s: ShapeSettings,
    before: ShapeText,
    after: ShapeText,
    commands: Seq<RuntimeText>,
    with_config: bool,
    with_env: bool,
)
    requires
        is_completed(s, before, after, commands, with_config, with_env),
    ensures
        shape::has_named(after.root.subcommands, "flags"@),
        with_config ==> shape::has_named(after.root.subcommands, "config"@),
        with_env ==> shape::has_named(after.root.subcommands, "env"@),
{
    let (configured, environed) = choose|configured: ShapeText, environed: ShapeText|
        {
            &&& #[trigger] is_ensured_if(
                with_config,
                s,
                commands_added(before, commands),
                configured,
                builtin_groups::config_tree(),
            )
            &&& #[trigger] is_ensured_if(
                with_env,
                s,
                configured,
                environed,
                builtin_groups::env_tree(),
            )
            &&& shape::is_ensured(s, environed, after, builtin_groups::flags_tree())
        };
    shape::law_builtin_group_is_mounted(s, environed, after, builtin_groups::flags_tree());
    if with_config {
        shape::law_builtin_group_is_mounted(
            s,
            commands_added(before, commands),
            configured,
            builtin_groups::config_tree(),
        );
        lemma_still_named(with_env, s, configured, environed, builtin_groups::env_tree(), "config"@);
    }
    if with_env {
        shape::law_builtin_group_is_mounted(s, configured, environed, builtin_groups::env_tree());
    }
    if with_config {
        lemma_still_named(true, s, environed, after, builtin_groups::flags_tree(), "config"@);
    }
    if with_env {
        lemma_still_named(true, s, environed, after, builtin_groups::flags_tree(), "env"@);
    }
}

proof fn lemma_still_named(
    wanted: bool,
    s: ShapeSettings,
    before: ShapeText,
    after: ShapeText,
    g: TreeText,
    name: Seq<char>,
)
    requires
        is_ensured_if(wanted, s, before, after, g),
        shape::has_named(before.root.subcommands, name),
    ensures
        shape::has_named(after.root.subcommands, name),
{
    if wanted {
        shape::law_builtin_group_is_mounted(s, before, after, g);
        if !shape::has_named(before.root.subcommands, g.head.name) {
            let i = choose|i: int|
                0 <= i < before.root.subcommands.len() && (
                #[trigger] before.root.subcommands[i]).name == name;
            let subs = after.root.subcommands;
            assert(subs.drop_last()[i] == subs[i]);
            assert(subs[i].name == name);
        }
    }
}

/// The settings of an application are those of its configuration, each in its
/// own place.
pub proof fn law_settings_follow_the_configuration(
    settings: ShapeSettings,
    config: CliConfig,
    policy: FlagPolicy,
    default_provider: Seq<char>,
)
    requires
        are_settings(settings, config, policy, default_provider),
    ensures
        settings.name@ == config.name@,
        settings.short@ == config.short@,
        config.long matches Some(l) ==> (settings.long matches Some(m) && m@ == l@),
        config.admin_category matches Some(c) ==> shape::category_of(settings) == c@,
        settings.default_auth_provider@ == default_provider,
        settings.policy == policy,
        config.default_auth_provider matches Some(p) ==> configured_provider(config) == p@,
        config.default_auth_provider is None ==> configured_provider(config).len() == 0,
{
}

/// Guides that are added are there afterwards, under their names, and bring the
/// command `guide`; commands and providers stay.
pub proof fn law_guides_are_there(
    s: ShapeSettings,
    before: ShapeText,
    after: ShapeText,
    more: Seq<GuideText>,
    i: int,
)
    requires
        is_guided(s, before, after, more),
    ensures
        0 <= i < more.len() ==> guide::topics(after.guides).contains(more[i].name),
        0 <= i < before.guides.len() ==> after.guides[i] == before.guides[i],
        more.len() > 0 ==> shape::has_named(after.root.subcommands, "guide"@),
        after.commands == before.commands,
        after.providers == before.providers,
        after.schemas == before.schemas,
        after.views == before.views,
{
    let added = ShapeText { guides: shape::guides_added(before.guides, more), ..before };
    shape::law_guides_bring_their_command(added);
    if 0 <= i < more.len() {
        lemma_topic_is_there(before.guides, more, i);
    }
    if more.len() > 0 {
        lemma_topic_is_there(before.guides, more, 0);
        assert(added.guides.len() > 0);
    }
    if 0 <= i < before.guides.len() {
        shape::law_first_guide_wins(before.guides, more, i);
    }
}

proof fn lemma_topic_is_there(guides: Seq<GuideText>, more: Seq<GuideText>, i: int)
    requires
        0 <= i < more.len(),
    ensures
        guide::topics(shape::guides_added(guides, more)).contains(more[i].name),
        shape::guides_added(guides, more).len() > 0,
    decreases more.len(),
{
    let before = shape::guides_added(guides, more.drop_last());
    let all = shape::guides_added(guides, more);
    if i < more.len() - 1 {
        lemma_topic_is_there(guides, more.drop_last(), i);
        let k = choose|k: int|
            0 <= k < guide::topics(before).len() && guide::topics(before)[k] == more[i].name;
        assert(guide::topics(all)[k] == more[i].name);
    } else if guide::topics(before).contains(more[i].name) {
        assert(all == before);
        let k = choose|k: int|
            0 <= k < guide::topics(before).len() && guide::topics(before)[k] == more[i].name;
        assert(before.len() > 0);
    } else {
        assert(guide::topics(all)[all.len() - 1] == more[i].name);
    }
}

/// A provider that is added is found under its name, and the others stay.
pub proof fn law_provider_is_there(
    s: ShapeSettings,
    before: ShapeText,
    after: ShapeText,
    p: ProviderEntry,
    other: Seq<char>,
)
    requires
        is_provided(s, before, after, p),
    ensures
        dispatcher::provider_of(after.providers, p.name@) == Some(p.id),
        other != p.name@ ==> dispatcher::provider_of(after.providers, other)
            == dispatcher::provider_of(before.providers, other),
        after.guides == before.guides,
{
    let registered = ShapeText {
        providers: dispatcher::registered(before.providers, p.name@, p.id),
        ..before
    };
    let ensured = choose|ensured: ShapeText| #[trigger]
        shape::is_auth_ensured(s, registered, ensured) && shape::same_but_long(after, ensured);
    shape::law_auth_is_mounted_with_a_provider(s, registered, ensured);
    dispatcher::law_last_registration_wins(before.providers, p.name@, p.id, p.name@);
    dispatcher::law_last_registration_wins(before.providers, p.name@, p.id, other);
}

/// Of providers that are added one after the other, the last of a name is found
/// under it.
pub proof fn law_providers_are_there(
    s: ShapeSettings,
    before: ShapeText,
    after: ShapeText,
    all: Seq<ProviderEntry>,
    i: int,
)
    requires
        are_provided(s, before, after, all),
        0 <= i < all.len(),
        forall|j: int| i < j < all.len() ==> (#[trigger] all[j]).name@ != all[i].name@,
    ensures
        dispatcher::provider_of(after.providers, all[i].name@) == Some(all[i].id),
    decreases all.len(),
{
    let init = all.drop_last();
    let mid = choose|mid: ShapeText|
        are_provided(s, before, mid, init) && #[trigger] is_provided(s, mid, after, all.last());
    law_provider_is_there(s, mid, after, all.last(), all[i].name@);
    if i < all.len() - 1 {
        assert forall|j: int| i < j < init.len() implies (#[trigger] init[j]).name@
            != init[i].name@ by {
            assert(init[j] == all[j]);
        }
        law_providers_are_there(s, before, mid, init, i);
        assert(all[all.len() - 1].name@ != all[i].name@);
    }
}

/// A prepared application has the name and the description of its configuration,
/// its guides, and its views, and uses the configured default provider where
/// there is one.
pub proof fn law_prepared_application(
    first: ShapeSettings,
    s: ShapeSettings,
    after: ShapeText,
    config: CliConfig,
    policy: FlagPolicy,
    extra_flags: Seq<ArgText>,
    schemas: Map<Seq<char>, SchemaText>,
    views: ViewsText,
    i: int,
)
    requires
        is_prepared(first, s, after, config, policy, extra_flags, schemas, views),
    ensures
        s.name@ == config.name@,
        s.short@ == config.short@,
        s.policy == policy,
        config.default_auth_provider matches Some(p) ==> (p@.len() > 0
            ==> s.default_auth_provider@ == p@),
        0 <= i < config.guides@.len() ==> guide::topics(after.guides).contains(
            config.guides@[i].name@,
        ),
{
    let (bare, provided, ensured) = choose|bare: ShapeText, provided: ShapeText, ensured: ShapeText|
        {
            &&& are_settings(first, config, policy, configured_provider(config))
            &&& #[trigger] is_bare(
                first,
                bare,
                extra_flags,
                config.consumes_reason,
                config.environments is Some,
                schemas,
                views,
            )
            &&& #[trigger] are_provided(first, bare, provided, config.auth_providers@)
            &&& are_settings(s, config, policy, shape::default_provider_spec(first, provided))
            &&& #[trigger] is_auth_ensured_if(s, provided, ensured)
            &&& is_guided(
                s,
                ShapeText { views: views_added(ensured.views, config.views@), ..ensured },
                after,
                guide::guide_texts(config.guides@),
            )
        };
    law_guides_are_there(
        s,
        ShapeText { views: views_added(ensured.views, config.views@), ..ensured },
        after,
        guide::guide_texts(config.guides@),
        i,
    );
}

/// A module that was added has its group in the tree, unless the name is
/// reserved or its flags prune it away; its guides are there in any case.
pub proof fn law_module_is_there(
    s: ShapeSettings,
    before: ShapeText,
    after: ShapeText,
    module: Module,
    context: ModuleContext,
    group: TreeText,
    kept: TreeText,
    i: int,
)
    requires
        is_module_closed(s, before, after, module, context, group),
        !crate::cli::search::is_builtin(group.head.name),
        crate::groups::prune::prune_group(
            group,
            shape::flag_of(module.feature_flag),
            crate::groups::prune::policy_text(s.policy),
            Seq::empty(),
        ).kept == Some(kept),
    ensures
        after.root.subcommands.last().name == kept.head.name,
        !kept.head.hidden ==> after.entries.last().category == module.category@
            && after.entries.last().name == kept.head.name,
        0 <= i < context.guides@.len() ==> guide::topics(after.guides).contains(
            context.guides@[i].name@,
        ),
{
    let mid = choose|mid: ShapeText|
        {
            &&& #[trigger] is_guided(
                s,
                ShapeText {
                    schemas: context.schemas@,
                    views: views_added(context.human_views@, context.views@),
                    ..before
                },
                mid,
                guide::guide_texts(context.guides@),
            )
            &&& shape::is_group_added(
                s,
                mid,
                after,
                module.category@,
                group,
                shape::flag_of(module.feature_flag),
            )
        };
    law_guides_are_there(
        s,
        ShapeText {
            schemas: context.schemas@,
            views: views_added(context.human_views@, context.views@),
            ..before
        },
        mid,
        guide::guide_texts(context.guides@),
        i,
    );
    shape::law_kept_group_is_mounted(
        s,
        mid,
        after,
        module.category@,
        group,
        shape::flag_of(module.feature_flag),
        kept,
        i,
    );
}

} // verus!
