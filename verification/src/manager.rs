//! The registry/aggregator: owns the fixed built-in sources plus the
//! externally registered ones, drives discovery across all of them, merges
//! the results into one deduplicated, priority-ordered list, and locates the
//! owning source of an already-selected name so that actions are routed
//! correctly.
//!
//! A foreign source's code cannot run inside the engine, so each round's
//! foreign observations — the records its `discover` produced, its
//! `can_handle` answers, its legend lines — enter as arguments, one entry
//! per registered source, in registration order.
use vstd::prelude::*;

use crate::active::{
    ActivePlugin, active_can_handle_v, active_discover_rec, active_discover_v, active_preview_v,
    active_resolve_v,
};
use crate::recent::{
    RecentPlugin, recent_can_handle_v, recent_discover_v, recent_preview_v, recent_resolve_v,
};
use crate::scratch::{
    ScratchPlugin, scratch_discover_rec, scratch_discover_v, scratch_preview_v, scratch_resolve_v,
};
use crate::session::{
    CtxV, EnvSnapshot, EnvV, ItemV, MetaV, SessionContext, SessionItem, SessionMetadata,
    items_view,
};
use crate::tmuxinator::{
    TmuxinatorPlugin, tmuxinator_discover_v, tmuxinator_items_rec, tmuxinator_preview_v,
    tmuxinator_resolve_v,
};
use crate::traits::{
    KillPlan, KillPlanV, PlanV, PluginMetadata, PluginMetadataV, PreviewData,
    PreviewDataV, PreviewPlan, PreviewPlanV, SwitchPlan, deps_available, enter_plan_v,
};
use crate::worktree::{
    WorktreePlugin, worktree_discover_v, worktree_preview_v, wt_absent_items_rec, wt_candidates_v,
    wt_live_items_rec, wt_live_names_rec, wt_resolve_v, wt_switch_v,
};
use crate::{ErrV, SessionError};
use crate::strutil::{has_substr, str_eq, strs_view};

verus! {

/// The fixed family of built-in sources, in one tagged type so the registry
/// can hold and iterate them uniformly while every dispatch stays an
/// exhaustive match.
#[derive(Debug, Clone)]
pub enum BuiltinPlugin {
    Recent(RecentPlugin),
    Worktree(WorktreePlugin),
    Active(ActivePlugin),
    Tmuxinator(TmuxinatorPlugin),
    Scratch(ScratchPlugin),
}

impl BuiltinPlugin {
    /// The source's identifier.
    pub open spec fn name_v(&self) -> Seq<char> {
        match self {
            BuiltinPlugin::Recent(_) => "recent"@,
            BuiltinPlugin::Worktree(_) => "worktree"@,
            BuiltinPlugin::Active(_) => "active"@,
            BuiltinPlugin::Tmuxinator(_) => "tmuxinator"@,
            BuiltinPlugin::Scratch(_) => "scratch"@,
        }
    }

    /// The source's nominal priority.
    pub open spec fn priority_v(&self) -> u32 {
        match self {
            BuiltinPlugin::Recent(_) => 0,
            BuiltinPlugin::Worktree(_) => 5,
            BuiltinPlugin::Active(_) => 10,
            BuiltinPlugin::Tmuxinator(_) => 50,
            BuiltinPlugin::Scratch(_) => 999,
        }
    }

    /// The external tools the source needs.
    pub open spec fn deps_v(&self) -> Seq<Seq<char>> {
        match self {
            BuiltinPlugin::Recent(_) => seq!["tmux"@],
            BuiltinPlugin::Worktree(_) => seq!["git"@],
            BuiltinPlugin::Active(_) => seq!["tmux"@],
            BuiltinPlugin::Tmuxinator(_) => seq!["tmuxinator"@],
            BuiltinPlugin::Scratch(_) => seq!["tmux"@],
        }
    }

    /// What the source discovers from a context and environment snapshot.
    pub open spec fn discover_v(&self, ctx: CtxV, env: EnvV) -> Seq<ItemV> {
        match self {
            BuiltinPlugin::Recent(_) => recent_discover_v(ctx, env.now),
            BuiltinPlugin::Worktree(_) => worktree_discover_v(ctx, env),
            BuiltinPlugin::Active(_) => active_discover_v(ctx, env.now),
            BuiltinPlugin::Tmuxinator(_) => tmuxinator_discover_v(ctx, env),
            BuiltinPlugin::Scratch(_) => scratch_discover_v(ctx, env.now),
        }
    }

    /// The source's ownership test.
    pub open spec fn can_handle_v(&self, name: Seq<char>, ctx: CtxV, env: EnvV) -> bool {
        match self {
            BuiltinPlugin::Recent(_) => recent_can_handle_v(name, ctx),
            BuiltinPlugin::Worktree(_) => wt_resolve_v(name, ctx, env) is Ok,
            BuiltinPlugin::Active(_) => active_can_handle_v(name, ctx, env),
            BuiltinPlugin::Tmuxinator(_) => tmuxinator_resolve_v(name, ctx, env) is Ok,
            BuiltinPlugin::Scratch(_) => true,
        }
    }

    /// What the source's `resolve` returns.
    pub open spec fn resolve_spec(&self, name: Seq<char>, ctx: CtxV, env: EnvV) -> Result<
        MetaV,
        ErrV,
    > {
        match self {
            BuiltinPlugin::Recent(_) => recent_resolve_v(name, ctx),
            BuiltinPlugin::Worktree(_) => wt_resolve_v(name, ctx, env),
            BuiltinPlugin::Active(_) => active_resolve_v(name, ctx, env),
            BuiltinPlugin::Tmuxinator(_) => tmuxinator_resolve_v(name, ctx, env),
            BuiltinPlugin::Scratch(_) => Ok(scratch_resolve_v(name, ctx)),
        }
    }

    /// What the source's `switch` plans.
    pub open spec fn switch_spec(&self, name: Seq<char>, meta: MetaV, ctx: CtxV, env: EnvV) -> Result<
        PlanV,
        ErrV,
    > {
        match self {
            BuiltinPlugin::Recent(_) => Ok(enter_plan_v(name, env)),
            BuiltinPlugin::Worktree(_) => wt_switch_v(name, meta, ctx, env),
            BuiltinPlugin::Active(_) => Ok(enter_plan_v(name, env)),
            BuiltinPlugin::Tmuxinator(_) => Ok(
                if ctx.has_session(name) {
                    enter_plan_v(name, env)
                } else {
                    PlanV::ProjectStartThenEnter { session: name, attach: !env.inside_tmux }
                },
            ),
            BuiltinPlugin::Scratch(_) => Ok(enter_plan_v(name, env)),
        }
    }

    /// What the source's `start` plans: the saved-project source launches
    /// detached, every other source starts by switching.
    pub open spec fn start_spec(&self, name: Seq<char>, meta: MetaV, ctx: CtxV, env: EnvV) -> Result<
        PlanV,
        ErrV,
    > {
        match self {
            BuiltinPlugin::Tmuxinator(_) => Ok(PlanV::ProjectStartDetached { session: name }),
            _ => self.switch_spec(name, meta, ctx, env),
        }
    }

    pub fn name(&self) -> (r: &str)
        ensures
            r@ == self.name_v(),
    {
        match self {
            BuiltinPlugin::Recent(p) => p.name(),
            BuiltinPlugin::Worktree(p) => p.name(),
            BuiltinPlugin::Active(p) => p.name(),
            BuiltinPlugin::Tmuxinator(p) => p.name(),
            BuiltinPlugin::Scratch(p) => p.name(),
        }
    }

    /// The source's one-line description.
    pub open spec fn description_v(&self) -> Seq<char> {
        match self {
            BuiltinPlugin::Recent(_) => "Most recent active session"@,
            BuiltinPlugin::Worktree(_) => "Git worktree sessions"@,
            BuiltinPlugin::Active(_) => "Currently active tmux sessions"@,
            BuiltinPlugin::Tmuxinator(_) => "Tmuxinator configuration sessions"@,
            BuiltinPlugin::Scratch(_) => "Scratch/temporary sessions"@,
        }
    }

    pub fn description(&self) -> (r: &str)
        ensures
            r@ == self.description_v(),
    {
        match self {
            BuiltinPlugin::Recent(p) => p.description(),
            BuiltinPlugin::Worktree(p) => p.description(),
            BuiltinPlugin::Active(p) => p.description(),
            BuiltinPlugin::Tmuxinator(p) => p.description(),
            BuiltinPlugin::Scratch(p) => p.description(),
        }
    }

    pub fn priority(&self) -> (r: u32)
        ensures
            r == self.priority_v(),
    {
        match self {
            BuiltinPlugin::Recent(p) => p.priority(),
            BuiltinPlugin::Worktree(p) => p.priority(),
            BuiltinPlugin::Active(p) => p.priority(),
            BuiltinPlugin::Tmuxinator(p) => p.priority(),
            BuiltinPlugin::Scratch(p) => p.priority(),
        }
    }

    pub fn dependencies(&self) -> (r: Vec<String>)
        ensures
            strs_view(r@) == self.deps_v(),
    {
        match self {
            BuiltinPlugin::Recent(p) => p.dependencies(),
            BuiltinPlugin::Worktree(p) => p.dependencies(),
            BuiltinPlugin::Active(p) => p.dependencies(),
            BuiltinPlugin::Tmuxinator(p) => p.dependencies(),
            BuiltinPlugin::Scratch(p) => p.dependencies(),
        }
    }

    /// Candidate records from this source; discovery is pure over the two
    /// snapshots and cannot fail.
    pub fn discover(&self, context: &SessionContext, env: &EnvSnapshot) -> (r: Vec<SessionItem>)
        ensures
            items_view(r@) == self.discover_v(context@, env@),
    {
        match self {
            BuiltinPlugin::Recent(p) => p.discover(context, env),
            BuiltinPlugin::Worktree(p) => p.discover(context, env),
            BuiltinPlugin::Active(p) => p.discover(context, env),
            BuiltinPlugin::Tmuxinator(p) => p.discover(context, env),
            BuiltinPlugin::Scratch(p) => p.discover(context, env),
        }
    }

    /// Fresh metadata for a name this source owns.
    pub fn resolve(&self, session_name: &str, context: &SessionContext, env: &EnvSnapshot) -> (r:
        Result<SessionMetadata, SessionError>)
        ensures
            match r {
                Ok(m) => self.resolve_spec(session_name@, context@, env@) == Ok::<MetaV, ErrV>(m@),
                Err(e) => self.resolve_spec(session_name@, context@, env@) == Err::<MetaV, ErrV>(
                    e@,
                ),
            },
    {
        match self {
            BuiltinPlugin::Recent(p) => p.resolve(session_name, context, env),
            BuiltinPlugin::Worktree(p) => p.resolve(session_name, context, env),
            BuiltinPlugin::Active(p) => p.resolve(session_name, context, env),
            BuiltinPlugin::Tmuxinator(p) => p.resolve(session_name, context, env),
            BuiltinPlugin::Scratch(p) => p.resolve(session_name, context, env),
        }
    }

    /// Ownership test for dispatch.
    pub fn can_handle(&self, session_name: &str, context: &SessionContext, env: &EnvSnapshot) -> (r:
        bool)
        ensures
            r == self.can_handle_v(session_name@, context@, env@),
    {
        match self {
            BuiltinPlugin::Recent(p) => p.can_handle(session_name, context),
            BuiltinPlugin::Worktree(p) => p.can_handle(session_name, context, env),
            BuiltinPlugin::Active(p) => p.can_handle(session_name, context, env),
            BuiltinPlugin::Tmuxinator(p) => p.can_handle(session_name, context, env),
            BuiltinPlugin::Scratch(p) => p.can_handle(session_name, context, env),
        }
    }

    /// The plan for entering (creating if necessary) the session.
    pub fn switch(&self, session_name: &str, metadata: &SessionMetadata, context: &SessionContext, env: &EnvSnapshot) -> (r: Result<SwitchPlan, SessionError>)
        ensures
            match r {
                Ok(p) => self.switch_spec(session_name@, metadata@, context@, env@) == Ok::<
                    PlanV,
                    ErrV,
                >(p@),
                Err(e) => self.switch_spec(session_name@, metadata@, context@, env@) == Err::<
                    PlanV,
                    ErrV,
                >(e@),
            },
    {
        match self {
            BuiltinPlugin::Recent(p) => p.switch(session_name, metadata, env),
            BuiltinPlugin::Worktree(p) => p.switch(session_name, metadata, context, env),
            BuiltinPlugin::Active(p) => p.switch(session_name, metadata, env),
            BuiltinPlugin::Tmuxinator(p) => p.switch(session_name, metadata, context, env),
            BuiltinPlugin::Scratch(p) => p.switch(session_name, metadata, env),
        }
    }

    /// The plan for starting in the background.
    pub fn start(&self, session_name: &str, metadata: &SessionMetadata, context: &SessionContext, env: &EnvSnapshot) -> (r: Result<SwitchPlan, SessionError>)
        ensures
            match r {
                Ok(p) => self.start_spec(session_name@, metadata@, context@, env@) == Ok::<
                    PlanV,
                    ErrV,
                >(p@),
                Err(e) => self.start_spec(session_name@, metadata@, context@, env@) == Err::<
                    PlanV,
                    ErrV,
                >(e@),
            },
    {
        match self {
            BuiltinPlugin::Tmuxinator(p) => p.start(session_name, metadata),
            _ => self.switch(session_name, metadata, context, env),
        }
    }

    /// What the source's preview renders.
    pub open spec fn preview_spec(
        &self,
        name: Seq<char>,
        meta: MetaV,
        env: EnvV,
        data: PreviewDataV,
    ) -> Result<Seq<char>, ErrV> {
        match self {
            BuiltinPlugin::Recent(_) => recent_preview_v(name, meta, data),
            BuiltinPlugin::Worktree(_) => Ok(worktree_preview_v(name, meta, env, data)),
            BuiltinPlugin::Active(_) => active_preview_v(name, meta, data),
            BuiltinPlugin::Tmuxinator(_) => Ok(tmuxinator_preview_v(name, meta, data)),
            BuiltinPlugin::Scratch(_) => scratch_preview_v(name, meta, data),
        }
    }

    /// Render the source's preview pane text from the given observations.
    pub fn preview(&self, session_name: &str, metadata: &SessionMetadata, env: &EnvSnapshot, data: &PreviewData) -> (r: Result<String, SessionError>)
        ensures
            match r {
                Ok(s) => self.preview_spec(session_name@, metadata@, env@, data@) == Ok::<
                    Seq<char>,
                    ErrV,
                >(s@),
                Err(e) => self.preview_spec(session_name@, metadata@, env@, data@) == Err::<
                    Seq<char>,
                    ErrV,
                >(e@),
            },
    {
        match self {
            BuiltinPlugin::Recent(p) => p.preview(session_name, metadata, data),
            BuiltinPlugin::Worktree(p) => p.preview(session_name, metadata, env, data),
            BuiltinPlugin::Active(p) => p.preview(session_name, metadata, data),
            BuiltinPlugin::Tmuxinator(p) => p.preview(session_name, metadata, data),
            BuiltinPlugin::Scratch(p) => p.preview(session_name, metadata, data),
        }
    }

    /// The source's legend lines.
    pub open spec fn help_v(&self) -> Seq<Seq<char>> {
        match self {
            BuiltinPlugin::Recent(_) => seq!["\x1b[1;33m★\x1b[0m - Most recent session"@],
            BuiltinPlugin::Worktree(_) => seq![
                "\x1b[0;34m●\x1b[0m - Active worktree session (blue)"@,
                "\x1b[0;34m○\x1b[0m - Inactive worktree (blue outline)"@,
            ],
            BuiltinPlugin::Active(_) => seq![
                "\x1b[1;32m●\x1b[0m - Active session (green)"@,
                "\x1b[1;32m→\x1b[0m - Current session"@,
            ],
            BuiltinPlugin::Tmuxinator(_) => seq!["\x1b[0;90m●\x1b[0m - Tmuxinator config (grey)"@],
            BuiltinPlugin::Scratch(_) => seq![
                "\x1b[1;32m󱗽\x1b[0m - Scratch session (green when active)"@,
            ],
        }
    }

    /// Legend lines for this source's display icons.
    pub fn get_help_text(&self) -> (r: Vec<String>)
        ensures
            strs_view(r@) == self.help_v(),
    {
        match self {
            BuiltinPlugin::Recent(p) => p.get_help_text(),
            BuiltinPlugin::Worktree(p) => p.get_help_text(),
            BuiltinPlugin::Active(p) => p.get_help_text(),
            BuiltinPlugin::Tmuxinator(p) => p.get_help_text(),
            BuiltinPlugin::Scratch(p) => p.get_help_text(),
        }
    }
}

/// The fixed declaration order of the built-in sources.
pub open spec fn builtins_wf(s: Seq<BuiltinPlugin>) -> bool {
    s.len() == 5 && (s[0] is Recent) && (s[1] is Worktree) && (s[2] is Active) && (s[3]
        is Tmuxinator) && (s[4] is Scratch)
}

/// No two records in `s` share a display name.
pub open spec fn distinct_names(s: Seq<ItemV>) -> bool {
    forall|i: int, j: int| 0 <= i < j < s.len() ==> (#[trigger] s[i]).name != (#[trigger] s[j]).name
}

/// Display rank: lower priority first, and within a priority tier the more
/// recently used record first.
pub open spec fn item_le(a: ItemV, b: ItemV) -> bool {
    a.priority < b.priority || (a.priority == b.priority && a.timestamp >= b.timestamp)
}

/// Strict display rank.
pub open spec fn item_lt(a: ItemV, b: ItemV) -> bool {
    a.priority < b.priority || (a.priority == b.priority && a.timestamp > b.timestamp)
}

/// Every adjacent pair is in display rank order.
pub open spec fn sorted_ranked(s: Seq<ItemV>) -> bool {
    forall|i: int| 0 <= i && i + 1 < s.len() ==> item_le(#[trigger] s[i], s[i + 1])
}

/// What the gated built-in sources contribute, concatenated in declaration
/// order; a source with an unavailable dependency contributes nothing.
pub open spec fn builtin_contribs(plugins: Seq<BuiltinPlugin>, ctx: CtxV, env: EnvV) -> Seq<ItemV>
    decreases plugins.len(),
{
    if plugins.len() == 0 {
        Seq::empty()
    } else {
        builtin_contribs(plugins.drop_last(), ctx, env) + (if deps_available(
            plugins.last().deps_v(),
            env,
        ) {
            plugins.last().discover_v(ctx, env)
        } else {
            Seq::empty()
        })
    }
}

/// What the gated registered sources contribute: the batch a source handed
/// in, unless one of its declared dependencies is unavailable.
pub open spec fn dynamic_contribs(
    metas: Seq<PluginMetadataV>,
    batches: Seq<Seq<ItemV>>,
    env: EnvV,
) -> Seq<ItemV>
    recommends
        metas.len() == batches.len(),
    decreases metas.len(),
{
    if metas.len() == 0 {
        Seq::empty()
    } else {
        dynamic_contribs(metas.drop_last(), batches.drop_last(), env) + (if deps_available(
            metas.last().dependencies,
            env,
        ) {
            batches.last()
        } else {
            Seq::empty()
        })
    }
}

/// Views of a sequence of record batches.
pub open spec fn batch_views(batches: Seq<Vec<SessionItem>>) -> Seq<Seq<ItemV>> {
    batches.map_values(|b: Vec<SessionItem>| items_view(b@))
}

/// Everything the enabled sources contribute this round, built-ins first.
pub open spec fn all_contribs(
    builtins: Seq<BuiltinPlugin>,
    metas: Seq<PluginMetadataV>,
    ctx: CtxV,
    env: EnvV,
    batches: Seq<Seq<ItemV>>,
) -> Seq<ItemV> {
    builtin_contribs(builtins, ctx, env) + dynamic_contribs(metas, batches, env)
}

/// Which source a dispatch request was routed to: a built-in source, by
/// declaration order, or a registered source, by registration order.
#[derive(Debug, Clone, Copy, PartialEq, Eq, Structural)]
pub enum PluginRef {
    Builtin { index: usize },
    Dynamic { index: usize },
}

/// The registry: the five built-in sources in declaration order, plus the
/// metadata of every source registered at startup.
#[derive(Debug, Clone)]
pub struct PluginManager {
    pub builtin_plugins: Vec<BuiltinPlugin>,
    pub dynamic_plugins: Vec<PluginMetadata>,
}

impl PluginManager {
    /// The built-in set is complete and in declaration order.
    pub open spec fn wf(&self) -> bool {
        builtins_wf(self.builtin_plugins@)
    }

    /// Metadata views of the registered sources.
    pub open spec fn dynamic_v(&self) -> Seq<PluginMetadataV> {
        self.dynamic_plugins@.map_values(|m: PluginMetadata| m@)
    }

    /// A registry holding the built-in sources in declaration order and no
    /// registered sources yet.
    pub fn new() -> (r: PluginManager)
        ensures
            r.wf(),
            r.dynamic_v() == Seq::<PluginMetadataV>::empty(),
    {
        let mut builtin_plugins: Vec<BuiltinPlugin> = Vec::new();
        builtin_plugins.push(BuiltinPlugin::Recent(RecentPlugin::new()));
        builtin_plugins.push(BuiltinPlugin::Worktree(WorktreePlugin::new()));
        builtin_plugins.push(BuiltinPlugin::Active(ActivePlugin::new()));
        builtin_plugins.push(BuiltinPlugin::Tmuxinator(TmuxinatorPlugin::new()));
        builtin_plugins.push(BuiltinPlugin::Scratch(ScratchPlugin::new()));
        let r = PluginManager { builtin_plugins, dynamic_plugins: Vec::new() };
        proof {
            assert(r.dynamic_v() =~= Seq::<PluginMetadataV>::empty());
        }
        r
    }

    /// Record an externally loaded source; its behaviour arrives per round
    /// as plain values.
    pub fn register_dynamic_plugin(&mut self, metadata: PluginMetadata)
        ensures
            final(self).builtin_plugins == old(self).builtin_plugins,
            final(self).dynamic_plugins@ == old(self).dynamic_plugins@.push(metadata),
    {
        self.dynamic_plugins.push(metadata);
    }

    /// Every dependency of the source is an available command.
    pub fn check_plugin_dependencies(&self, plugin: &BuiltinPlugin, env: &EnvSnapshot) -> (r:
        bool)
        ensures
            r == deps_available(plugin.deps_v(), env@),
    {
        let deps = plugin.dependencies();
        deps_ok(&deps, env)
    }

    /// Gather, deduplicate and order this round's candidates.
    ///
    /// `dynamic_batches` holds what each registered source's `discover`
    /// produced, one batch per source in registration order; a failed
    /// foreign source is represented by an empty batch, so one misbehaving
    /// source never aborts the round.
    ///
    /// The returned list contains no two records with the same name, is
    /// sorted by (priority ascending, discovery time descending), consists
    /// only of contributed records, and covers every contributed name with
    /// exactly the record `merge_survivor` picks for it — so when several
    /// sources offer the same name, the numerically lowest priority wins,
    /// and on a tie the contribution arriving earlier in source order.
    pub fn discover_all_sessions(
        &self,
        context: &SessionContext,
        env: &EnvSnapshot,
        dynamic_batches: Vec<Vec<SessionItem>>,
    ) -> (r: Vec<SessionItem>)
        requires
            dynamic_batches@.len() == self.dynamic_plugins@.len(),
        ensures
            ({
                let contribs = all_contribs(
                    self.builtin_plugins@,
                    self.dynamic_v(),
                    context@,
                    env@,
                    batch_views(dynamic_batches@),
                );
                let rv = items_view(r@);
                &&& distinct_names(rv)
                &&& sorted_ranked(rv)
                &&& forall|k: int| 0 <= k < rv.len() ==> contribs.contains(#[trigger] rv[k])
                &&& forall|k: int|
                    0 <= k < contribs.len() ==> exists|m: int|
                        0 <= m < rv.len() && (#[trigger] rv[m]).name == (
                        #[trigger] contribs[k]).name && rv[m].priority <= contribs[k].priority
                &&& forall|k: int|
                    0 <= k < rv.len() ==> merge_survivor(contribs, (#[trigger] rv[k]).name)
                        == Some(rv[k])
            }),
    {
        let contribs = self.collect_contributions(context, env, dynamic_batches);
        let ghost contribs_v = items_view(contribs@);
        let merged = merge_by_name(contribs);
        let ghost mv = items_view(merged@);
        let sorted = sort_items(merged);
        proof {
            assert forall|k: int|
                0 <= k < items_view(sorted@).len() implies merge_survivor(
                contribs_v,
                (#[trigger] items_view(sorted@)[k]).name,
            ) == Some(items_view(sorted@)[k]) by {
                let rv = items_view(sorted@);
                assert(mv.contains(rv[k]));
                let m0 = choose|m: int| 0 <= m < mv.len() && mv[m] == rv[k];
                assert(merge_survivor(contribs_v, mv[m0].name) == Some(mv[m0]));
            }
        }
        sorted
    }

    /// Concatenate what every enabled source contributes, built-ins first in
    /// declaration order, then registered sources in registration order.
    #[verifier::loop_isolation(false)]
    fn collect_contributions(
        &self,
        context: &SessionContext,
        env: &EnvSnapshot,
        dynamic_batches: Vec<Vec<SessionItem>>,
    ) -> (r: Vec<SessionItem>)
        requires
            dynamic_batches@.len() == self.dynamic_plugins@.len(),
        ensures
            items_view(r@) == all_contribs(
                self.builtin_plugins@,
                self.dynamic_v(),
                context@,
                env@,
                batch_views(dynamic_batches@),
            ),
    {
        let ghost orig_batches = batch_views(dynamic_batches@);
        let mut contribs: Vec<SessionItem> = Vec::new();
        let mut i: usize = 0;
        proof {
            assert(items_view(contribs@) =~= builtin_contribs(
                self.builtin_plugins@.take(0),
                context@,
                env@,
            ));
        }
        while i < self.builtin_plugins.len()
            invariant
                i <= self.builtin_plugins@.len(),
                items_view(contribs@) == builtin_contribs(
                    self.builtin_plugins@.take(i as int),
                    context@,
                    env@,
                ),
            decreases self.builtin_plugins@.len() - i,
        {
            let plugin = &self.builtin_plugins[i];
            proof {
                assert(self.builtin_plugins@.take(i as int + 1).drop_last()
                    =~= self.builtin_plugins@.take(i as int));
                assert(self.builtin_plugins@.take(i as int + 1).last()
                    == self.builtin_plugins@[i as int]);
            }
            if self.check_plugin_dependencies(plugin, env) {
                let mut found = plugin.discover(context, env);
                proof {
                    assert(items_view(contribs@ + found@) =~= items_view(contribs@) + items_view(
                        found@,
                    ));
                }
                contribs.append(&mut found);
            } else {
                proof {
                    assert(items_view(contribs@) + Seq::<ItemV>::empty() =~= items_view(contribs@));
                }
            }
            i += 1;
        }
        proof {
            assert(self.builtin_plugins@.take(self.builtin_plugins@.len() as int)
                =~= self.builtin_plugins@);
        }
        let ghost after_builtins = items_view(contribs@);
        let mut batches = dynamic_batches;
        let mut j: usize = 0;
        proof {
            assert(batches@.map_values(|b: Vec<SessionItem>| items_view(b@)) =~= orig_batches.skip(
                0,
            ));
            assert(after_builtins + dynamic_contribs(
                self.dynamic_v().take(0),
                orig_batches.take(0),
                env@,
            ) =~= after_builtins);
        }
        while j < self.dynamic_plugins.len()
            invariant
                j <= self.dynamic_plugins@.len(),
                batches@.len() == self.dynamic_plugins@.len() - j,
                batch_views(batches@) == orig_batches.skip(j as int),
                items_view(contribs@) == after_builtins + dynamic_contribs(
                    self.dynamic_v().take(j as int),
                    orig_batches.take(j as int),
                    env@,
                ),
            decreases self.dynamic_plugins@.len() - j,
        {
            proof {
                assert(self.dynamic_v().take(j as int + 1).drop_last() =~= self.dynamic_v().take(
                    j as int,
                ));
                assert(orig_batches.take(j as int + 1).drop_last() =~= orig_batches.take(j as int));
                assert(self.dynamic_v().take(j as int + 1).last() == self.dynamic_v()[j as int]);
                assert(orig_batches.take(j as int + 1).last() == orig_batches[j as int]);
                assert(batch_views(batches@)[0] == orig_batches[j as int]);
            }
            let ghost bold = batches@;
            let mut batch = batches.remove(0);
            proof {
                assert(items_view(batch@) == orig_batches[j as int]);
                bold.remove_ensures(0);
                assert forall|k: int| 0 <= k < batches@.len() implies #[trigger] batch_views(
                    batches@,
                )[k] == orig_batches.skip(j as int + 1)[k] by {
                    assert(batches@[k] == bold[k + 1]);
                    assert(batch_views(bold)[k + 1] == items_view(bold[k + 1]@));
                    assert(orig_batches.skip(j as int)[k + 1] == orig_batches[j as int + 1 + k]);
                }
                assert(batch_views(batches@) =~= orig_batches.skip(j as int + 1));
            }
            let meta = &self.dynamic_plugins[j];
            proof {
                assert(self.dynamic_v()[j as int] == meta@);
            }
            if deps_ok(&meta.dependencies, env) {
                proof {
                    assert(items_view(contribs@ + batch@) =~= items_view(contribs@) + items_view(
                        batch@,
                    ));
                }
                contribs.append(&mut batch);
            } else {
                proof {
                    assert(items_view(contribs@) + Seq::<ItemV>::empty() =~= items_view(contribs@));
                }
            }
            j += 1;
        }
        proof {
            assert(self.dynamic_v().take(self.dynamic_v().len() as int) =~= self.dynamic_v());
            assert(orig_batches.take(orig_batches.len() as int) =~= orig_batches);
        }
        contribs
    }
}

/// Every dependency name in `deps` is an available command.
fn deps_ok(deps: &Vec<String>, env: &EnvSnapshot) -> (r: bool)
    ensures
        r == deps_available(strs_view(deps@), env@),
{
    let mut i: usize = 0;
    while i < deps.len()
        invariant
            i <= deps@.len(),
            forall|k: int| 0 <= k < i ==> env@.command_available(#[trigger] strs_view(deps@)[k]),
        decreases deps@.len() - i,
    {
        if !env.command_available(deps[i].as_str()) {
            assert(!env@.command_available(strs_view(deps@)[i as int]));
            return false;
        }
        i += 1;
    }
    true
}

/// Index of the first record named `name`, if any.
fn find_name_index(v: &Vec<SessionItem>, name: &str) -> (r: Option<usize>)
    ensures
        match r {
            Some(j) => j < v@.len() && items_view(v@)[j as int].name == name@,
            None => forall|m: int|
                0 <= m < v@.len() ==> (#[trigger] items_view(v@)[m]).name != name@,
        },
{
    let mut i: usize = 0;
    while i < v.len()
        invariant
            i <= v@.len(),
            forall|m: int| 0 <= m < i ==> (#[trigger] items_view(v@)[m]).name != name@,
        decreases v@.len() - i,
    {
        if str_eq(v[i].name.as_str(), name) {
            assert(items_view(v@)[i as int].name == name@);
            return Some(i);
        }
        assert(items_view(v@)[i as int].name != name@);
        i += 1;
    }
    None
}

/// The record that survives the merge for one name: scanning the
/// contributions left to right, the first record of that name, replaced
/// whenever a later record of the same name has a strictly lower priority —
/// so on equal priority the earlier record stays.
pub open spec fn merge_survivor(all: Seq<ItemV>, name: Seq<char>) -> Option<ItemV>
    decreases all.len(),
{
    if all.len() == 0 {
        None
    } else {
        let prior = merge_survivor(all.drop_last(), name);
        if all.last().name != name {
            prior
        } else {
            match prior {
                None => Some(all.last()),
                Some(s) => if all.last().priority < s.priority {
                    Some(all.last())
                } else {
                    Some(s)
                },
            }
        }
    }
}

/// The merge has a survivor for a name exactly when some contribution
/// carries that name.
proof fn lemma_survivor_none(all: Seq<ItemV>, name: Seq<char>)
    ensures
        (merge_survivor(all, name) is None) <==> (forall|l: int|
            0 <= l < all.len() ==> (#[trigger] all[l]).name != name),
    decreases all.len(),
{
    if all.len() > 0 {
        lemma_survivor_none(all.drop_last(), name);
        assert(forall|l: int| 0 <= l < all.len() - 1 ==> all.drop_last()[l] == #[trigger] all[l]);
        if all.last().name != name && merge_survivor(all, name) is Some {
            let l0 = choose|l: int| 0 <= l < all.drop_last().len() && (#[trigger] all.drop_last()[l]).name == name;
            assert(all[l0].name == name);
        }
    }
}

/// Law: the merge's survivor for a name is a contribution of that name, and
/// no contribution of that name has a strictly lower priority.
pub proof fn lemma_survivor_minimal(all: Seq<ItemV>, name: Seq<char>, v: ItemV)
    requires
        merge_survivor(all, name) == Some(v),
    ensures
        v.name == name,
        all.contains(v),
        forall|l: int|
            0 <= l < all.len() && (#[trigger] all[l]).name == name ==> v.priority
                <= all[l].priority,
    decreases all.len(),
{
    let d = all.drop_last();
    assert(forall|l: int| 0 <= l < all.len() - 1 ==> d[l] == #[trigger] all[l]);
    if all.last().name != name || (merge_survivor(d, name) matches Some(s) && !(all.last().priority
        < s.priority)) {
        lemma_survivor_minimal(d, name, v);
        let l0 = choose|l: int| 0 <= l < d.len() && d[l] == v;
        assert(all[l0] == v);
    } else {
        assert(v == all.last());
        assert(all[all.len() - 1] == v);
        match merge_survivor(d, name) {
            Some(s) => lemma_survivor_minimal(d, name, s),
            None => lemma_survivor_none(d, name),
        }
    }
}

/// Law: on a tie the earlier contribution stays.  Any contribution of the
/// name whose priority does not exceed the survivor's appears no earlier
/// than the survivor itself — so the survivor is the first contribution of
/// its name with the minimal priority.
pub proof fn lemma_survivor_earliest(all: Seq<ItemV>, name: Seq<char>, v: ItemV, l: int)
    requires
        merge_survivor(all, name) == Some(v),
        0 <= l < all.len(),
        all[l].name == name,
        all[l].priority <= v.priority,
    ensures
        exists|l2: int| 0 <= l2 <= l && #[trigger] all[l2] == v,
    decreases all.len(),
{
    let d = all.drop_last();
    assert(forall|k: int| 0 <= k < all.len() - 1 ==> d[k] == #[trigger] all[k]);
    if all.last().name != name || (merge_survivor(d, name) matches Some(s) && !(all.last().priority
        < s.priority)) {
        // the survivor comes from the earlier contributions
        let s = merge_survivor(d, name)->Some_0;
        assert(v == s);
        if l < all.len() - 1 {
            lemma_survivor_earliest(d, name, v, l);
            let l2 = choose|l2: int| 0 <= l2 <= l && #[trigger] d[l2] == v;
            assert(all[l2] == v);
        } else {
            lemma_survivor_minimal(d, name, v);
            let l2 = choose|l2: int| 0 <= l2 < d.len() && d[l2] == v;
            assert(all[l2] == v);
            assert(l2 <= l);
        }
    } else {
        // the survivor is the last contribution itself
        assert(v == all.last());
        if l < all.len() - 1 {
            match merge_survivor(d, name) {
                None => {
                    lemma_survivor_none(d, name);
                    assert(d[l].name != name);
                    assert(false);
                },
                Some(s) => {
                    lemma_survivor_minimal(d, name, s);
                    assert(s.priority <= d[l].priority);
                    assert(all.last().priority < s.priority);
                    assert(false);
                },
            }
        } else {
            assert(all[l] == v);
        }
    }
}

/// Merge records by name: when two records share a name, the one with the
/// numerically lower priority is kept and the other discarded, whichever
/// source produced it and in whatever order it arrived; on equal priority
/// the earlier record stays, as `merge_survivor` spells out.
#[verifier::loop_isolation(false)]
#[verifier::rlimit(80)]
fn merge_by_name(contribs: Vec<SessionItem>) -> (r: Vec<SessionItem>)
    ensures
        ({
            let all = items_view(contribs@);
            let rv = items_view(r@);
            &&& distinct_names(rv)
            &&& forall|k: int| 0 <= k < rv.len() ==> all.contains(#[trigger] rv[k])
            &&& forall|l: int|
                0 <= l < all.len() ==> exists|m: int|
                    0 <= m < rv.len() && (#[trigger] rv[m]).name == (#[trigger] all[l]).name
                        && rv[m].priority <= all[l].priority
            &&& forall|k: int|
                0 <= k < rv.len() ==> merge_survivor(all, (#[trigger] rv[k]).name) == Some(rv[k])
        }),
{
    let ghost all = items_view(contribs@);
    let mut rest = contribs;
    let mut merged: Vec<SessionItem> = Vec::new();
    let ghost mut p: int = 0;
    proof {
        assert(items_view(rest@) =~= all.skip(0));
    }
    while rest.len() > 0
        invariant
            0 <= p <= all.len(),
            items_view(rest@) == all.skip(p),
            distinct_names(items_view(merged@)),
            forall|k: int|
                0 <= k < merged@.len() ==> all.take(p).contains(#[trigger] items_view(merged@)[k]),
            forall|l: int|
                0 <= l < p ==> exists|m: int|
                    0 <= m < merged@.len() && (#[trigger] items_view(merged@)[m]).name == (
                    #[trigger] all[l]).name && items_view(merged@)[m].priority <= all[l].priority,
            forall|m: int|
                0 <= m < merged@.len() ==> merge_survivor(
                    all.take(p),
                    (#[trigger] items_view(merged@)[m]).name,
                ) == Some(items_view(merged@)[m]),
        decreases rest@.len(),
    {
        proof {
            assert(all.skip(p)[0] == all[p]);
        }
        let ghost rold = rest@;
        let item = rest.remove(0);
        proof {
            assert(item@ == all[p]);
            rold.remove_ensures(0);
            assert forall|k: int| 0 <= k < rest@.len() implies #[trigger] items_view(rest@)[k]
                == all.skip(p + 1)[k] by {
                assert(rest@[k] == rold[k + 1]);
                assert(items_view(rold)[k + 1] == all.skip(p)[k + 1]);
                assert(all.skip(p)[k + 1] == all[p + 1 + k]);
            }
            assert(items_view(rest@) =~= all.skip(p + 1));
        }
        let ghost mv = items_view(merged@);
        match find_name_index(&merged, item.name.as_str()) {
            None => {
                proof {
                    lemma_take_step(all, p);
                    assert(all.take(p + 1).drop_last() =~= all.take(p));
                    assert(all.take(p + 1).last() == all[p]);
                    // no processed contribution carries the incoming name,
                    // so the merge so far has no survivor for it
                    assert forall|l: int|
                        0 <= l < all.take(p).len() implies (#[trigger] all.take(p)[l]).name
                        != item@.name by {
                        assert(all.take(p)[l] == all[l]);
                        let m0 = choose|m: int|
                            0 <= m < merged@.len() && (#[trigger] items_view(merged@)[m]).name
                                == all[l].name && items_view(merged@)[m].priority
                                <= all[l].priority;
                    }
                    lemma_survivor_none(all.take(p), item@.name);
                    assert forall|m2: int|
                        0 <= m2 < merged@.len() + 1 implies merge_survivor(
                        all.take(p + 1),
                        (#[trigger] items_view(merged@.push(item))[m2]).name,
                    ) == Some(items_view(merged@.push(item))[m2]) by {
                        assert(items_view(merged@.push(item)) =~= mv.push(item@));
                        if m2 < merged@.len() {
                            assert(mv[m2].name != item@.name);
                            assert(merge_survivor(all.take(p), mv[m2].name) == Some(mv[m2]));
                        }
                    }
                    assert forall|k: int|
                        0 <= k < merged@.len() + 1 implies all.take(p + 1).contains(
                        #[trigger] items_view(merged@.push(item))[k],
                    ) by {
                        assert(items_view(merged@.push(item)) =~= mv.push(item@));
                        if k < merged@.len() {
                            lemma_contains_mono(all, p, mv[k]);
                        } else {
                            assert(all.take(p + 1)[p] == all[p]);
                        }
                    }
                    assert forall|l: int|
                        0 <= l < p + 1 implies exists|m: int|
                        0 <= m < merged@.len() + 1 && (#[trigger] items_view(merged@.push(item))[
                        m]).name == (#[trigger] all[l]).name && items_view(merged@.push(item))[
                        m].priority <= all[l].priority by {
                        assert(items_view(merged@.push(item)) =~= mv.push(item@));
                        if l < p {
                            let m0 = choose|m: int|
                                0 <= m < mv.len() && (#[trigger] mv[m]).name == all[l].name
                                    && mv[m].priority <= all[l].priority;
                            assert(items_view(merged@.push(item))[m0] == mv[m0]);
                        } else {
                            assert(items_view(merged@.push(item))[mv.len() as int] == item@);
                        }
                    }
                    assert(distinct_names(mv.push(item@)));
                    assert(items_view(merged@.push(item)) =~= mv.push(item@));
                }
                merged.push(item);
            },
            Some(j) => {
                if item.priority < merged[j].priority {
                    let ghost removed = mv[j as int];
                    let _ = merged.remove(j);
                    proof {
                        assert(items_view(merged@) =~= mv.remove(j as int));
                        mv.remove_ensures(j as int);
                    }
                    let ghost mv2 = items_view(merged@);
                    proof {
                        lemma_take_step(all, p);
                        // names other than the removed one are still distinct,
                        // and the incoming record's name matches only the
                        // removed record
                        assert forall|x: int, y: int|
                            0 <= x < y < mv2.len() + 1 implies (#[trigger] items_view(
                            merged@.push(item),
                        )[x]).name != (#[trigger] items_view(merged@.push(item))[y]).name by {
                            assert(items_view(merged@.push(item)) =~= mv2.push(item@));
                            let ox = if x < j { x } else { x + 1 };
                            if y < mv2.len() {
                                let oy = if y < j { y } else { y + 1 };
                                assert(mv2[x] == mv[ox] && mv2[y] == mv[oy]);
                            } else {
                                assert(mv2[x] == mv[ox]);
                                assert(mv[ox].name != mv[j as int].name);
                                assert(item@.name == mv[j as int].name);
                            }
                        }
                        assert forall|k: int|
                            0 <= k < mv2.len() + 1 implies all.take(p + 1).contains(
                            #[trigger] items_view(merged@.push(item))[k],
                        ) by {
                            assert(items_view(merged@.push(item)) =~= mv2.push(item@));
                            if k < mv2.len() {
                                let ok = if k < j { k } else { k + 1 };
                                assert(mv2[k] == mv[ok]);
                                lemma_contains_mono(all, p, mv[ok]);
                            } else {
                                assert(all.take(p + 1)[p] == all[p]);
                            }
                        }
                        assert forall|l: int|
                            0 <= l < p + 1 implies exists|m: int|
                            0 <= m < mv2.len() + 1 && (#[trigger] items_view(merged@.push(item))[
                            m]).name == (#[trigger] all[l]).name && items_view(merged@.push(item))[
                            m].priority <= all[l].priority by {
                            let nv = items_view(merged@.push(item));
                            assert(nv =~= mv2.push(item@));
                            if l < p {
                                let m0 = choose|m: int|
                                    0 <= m < mv.len() && (#[trigger] mv[m]).name == all[l].name
                                        && mv[m].priority <= all[l].priority;
                                if m0 == j {
                                    // the record it pointed at was replaced by a
                                    // strictly lower-priority one
                                    assert(nv[mv2.len() as int] == item@);
                                    assert(item@.name == removed.name);
                                    assert(item@.priority < removed.priority);
                                } else {
                                    let nm = if m0 < j {
                                        m0
                                    } else {
                                        m0 - 1
                                    };
                                    assert(mv2[nm] == mv[m0]);
                                    assert(nv[nm] == mv[m0]);
                                }
                            } else {
                                assert(nv[mv2.len() as int] == item@);
                            }
                        }
                        // the incoming record replaces the survivor of its
                        // name; every other name's survivor is untouched
                        assert(all.take(p + 1).drop_last() =~= all.take(p));
                        assert(all.take(p + 1).last() == all[p]);
                        assert forall|m2: int|
                            0 <= m2 < mv2.len() + 1 implies merge_survivor(
                            all.take(p + 1),
                            (#[trigger] items_view(merged@.push(item))[m2]).name,
                        ) == Some(items_view(merged@.push(item))[m2]) by {
                            assert(items_view(merged@.push(item)) =~= mv2.push(item@));
                            if m2 < mv2.len() {
                                let ok = if m2 < j {
                                    m2
                                } else {
                                    m2 + 1
                                };
                                assert(mv2[m2] == mv[ok]);
                                assert(mv[ok].name != mv[j as int].name);
                                assert(merge_survivor(all.take(p), mv[ok].name) == Some(mv[ok]));
                            } else {
                                assert(merge_survivor(all.take(p), item@.name) == Some(
                                    mv[j as int],
                                ));
                                assert(item@.priority < mv[j as int].priority);
                            }
                        }
                        assert(items_view(merged@.push(item)) =~= mv2.push(item@));
                    }
                    merged.push(item);
                } else {
                    proof {
                        lemma_take_step(all, p);
                        assert(all.take(p + 1).drop_last() =~= all.take(p));
                        assert(all.take(p + 1).last() == all[p]);
                        // the kept record outranks the incoming one (or ties,
                        // and the earlier record stays), so no survivor moves
                        assert forall|m2: int|
                            0 <= m2 < mv.len() implies merge_survivor(
                            all.take(p + 1),
                            (#[trigger] mv[m2]).name,
                        ) == Some(mv[m2]) by {
                            assert(merge_survivor(all.take(p), mv[m2].name) == Some(mv[m2]));
                            if mv[m2].name == item@.name {
                                if m2 < j {
                                    assert(mv[m2].name != mv[j as int].name);
                                } else if m2 > j {
                                    assert(mv[j as int].name != mv[m2].name);
                                }
                                assert(m2 == j);
                                assert(!(item@.priority < mv[m2].priority));
                            }
                        }
                        assert forall|k: int|
                            0 <= k < mv.len() implies all.take(p + 1).contains(
                            #[trigger] items_view(merged@)[k],
                        ) by {
                            lemma_contains_mono(all, p, mv[k]);
                        }
                        assert forall|l: int|
                            0 <= l < p + 1 implies exists|m: int|
                            0 <= m < mv.len() && (#[trigger] mv[m]).name == (#[trigger] all[l]).name
                                && mv[m].priority <= all[l].priority by {
                            if l == p {
                                assert(mv[j as int].name == all[p].name);
                                assert(mv[j as int].priority <= all[p].priority);
                            } else {
                                let m0 = choose|m: int|
                                    0 <= m < mv.len() && (#[trigger] mv[m]).name == all[l].name
                                        && mv[m].priority <= all[l].priority;
                            }
                        }
                    }
                }
            },
        }
        proof {
            p = p + 1;
        }
    }
    proof {
        assert(all.take(p) =~= all);
    }
    merged
}

/// Index of the first built-in source at or after `i` whose ownership test
/// accepts the name.
pub open spec fn first_builtin_owner(
    plugins: Seq<BuiltinPlugin>,
    name: Seq<char>,
    ctx: CtxV,
    env: EnvV,
    i: int,
) -> Option<int>
    decreases plugins.len() - i,
{
    if i < 0 || i >= plugins.len() {
        None
    } else if plugins[i].can_handle_v(name, ctx, env) {
        Some(i)
    } else {
        first_builtin_owner(plugins, name, ctx, env, i + 1)
    }
}

/// Index of the first `true` answer at or after `i`.
pub open spec fn first_true(answers: Seq<bool>, i: int) -> Option<int>
    decreases answers.len() - i,
{
    if i < 0 || i >= answers.len() {
        None
    } else if answers[i] {
        Some(i)
    } else {
        first_true(answers, i + 1)
    }
}

impl PluginManager {
    /// Reverse lookup for dispatch: the first source, built-ins first in
    /// declaration order and then registered sources in registration order,
    /// whose ownership test accepts the name.  `dynamic_can` holds each
    /// registered source's `can_handle` answer for this name, in
    /// registration order.
    pub fn find_plugin_for_session(
        &self,
        session_name: &str,
        context: &SessionContext,
        env: &EnvSnapshot,
        dynamic_can: &Vec<bool>,
    ) -> (r: Option<PluginRef>)
        ensures
            ({
                let bo = first_builtin_owner(
                    self.builtin_plugins@,
                    session_name@,
                    context@,
                    env@,
                    0,
                );
                let dyn_o = first_true(dynamic_can@, 0);
                match r {
                    Some(PluginRef::Builtin { index }) => bo == Some(index as int),
                    Some(PluginRef::Dynamic { index }) => bo is None && dyn_o == Some(index as int),
                    None => bo is None && dyn_o is None,
                }
            }),
    {
        let mut i: usize = 0;
        while i < self.builtin_plugins.len()
            invariant
                i <= self.builtin_plugins@.len(),
                first_builtin_owner(self.builtin_plugins@, session_name@, context@, env@, 0)
                    == first_builtin_owner(
                    self.builtin_plugins@,
                    session_name@,
                    context@,
                    env@,
                    i as int,
                ),
            decreases self.builtin_plugins@.len() - i,
        {
            if self.builtin_plugins[i].can_handle(session_name, context, env) {
                return Some(PluginRef::Builtin { index: i });
            }
            i += 1;
        }
        let mut j: usize = 0;
        while j < dynamic_can.len()
            invariant
                j <= dynamic_can@.len(),
                first_builtin_owner(self.builtin_plugins@, session_name@, context@, env@, 0)
                    is None,
                first_true(dynamic_can@, 0) == first_true(dynamic_can@, j as int),
            decreases dynamic_can@.len() - j,
        {
            if dynamic_can[j] {
                return Some(PluginRef::Dynamic { index: j });
            }
            j += 1;
        }
        None
    }

    /// Route a switch to an already-located owner: no owner fails with
    /// `NotFound`, a built-in owner re-resolves fresh metadata and plans its
    /// own switch, a registered owner's switch is delegated back to the
    /// caller.
    pub fn dispatch_switch(
        &self,
        owner: Option<PluginRef>,
        session_name: &str,
        context: &SessionContext,
        env: &EnvSnapshot,
    ) -> (r: Result<SwitchPlan, SessionError>)
        requires
            owner matches Some(PluginRef::Builtin { index }) ==> index
                < self.builtin_plugins@.len(),
        ensures
            ({
                match owner {
                    None => r matches Err(e) && e@ == ErrV::NotFound(
                        "No plugin found for session: "@ + session_name@,
                    ),
                    Some(PluginRef::Builtin { index }) => {
                        let p = self.builtin_plugins@[index as int];
                        match p.resolve_spec(session_name@, context@, env@) {
                            Err(e0) => r matches Err(e) && e@ == e0,
                            Ok(m) => match r {
                                Ok(plan) => p.switch_spec(session_name@, m, context@, env@)
                                    == Ok::<PlanV, ErrV>(plan@),
                                Err(e) => p.switch_spec(session_name@, m, context@, env@) == Err::<
                                    PlanV,
                                    ErrV,
                                >(e@),
                            },
                        }
                    },
                    Some(PluginRef::Dynamic { index }) => r matches Ok(plan) && plan@ == (
                    PlanV::Dynamic { index: index as int }),
                }
            }),
    {
        match owner {
            None => Err(SessionError::not_found("No plugin found for session: ", session_name)),
            Some(PluginRef::Builtin { index }) => {
                let plugin = &self.builtin_plugins[index];
                match plugin.resolve(session_name, context, env) {
                    Ok(metadata) => plugin.switch(session_name, &metadata, context, env),
                    Err(e) => Err(e),
                }
            },
            Some(PluginRef::Dynamic { index }) => Ok(SwitchPlan::Dynamic { index }),
        }
    }

    /// Locate the owning source of `session_name` and plan the switch;
    /// fails with `NotFound` when no source owns the name.
    pub fn switch_to_session(
        &self,
        session_name: &str,
        context: &SessionContext,
        env: &EnvSnapshot,
        dynamic_can: &Vec<bool>,
    ) -> (r: Result<SwitchPlan, SessionError>)
        ensures
            ({
                let bo = first_builtin_owner(
                    self.builtin_plugins@,
                    session_name@,
                    context@,
                    env@,
                    0,
                );
                let dyn_o = first_true(dynamic_can@, 0);
                match bo {
                    Some(i) => {
                        let p = self.builtin_plugins@[i];
                        match p.resolve_spec(session_name@, context@, env@) {
                            Err(e0) => r matches Err(e) && e@ == e0,
                            Ok(m) => match r {
                                Ok(plan) => p.switch_spec(session_name@, m, context@, env@)
                                    == Ok::<PlanV, ErrV>(plan@),
                                Err(e) => p.switch_spec(session_name@, m, context@, env@) == Err::<
                                    PlanV,
                                    ErrV,
                                >(e@),
                            },
                        }
                    },
                    None => match dyn_o {
                        Some(i) => r matches Ok(plan) && plan@ == (PlanV::Dynamic { index: i }),
                        None => r matches Err(e) && e@ == ErrV::NotFound(
                            "No plugin found for session: "@ + session_name@,
                        ),
                    },
                }
            }),
    {
        let owner = self.find_plugin_for_session(session_name, context, env, dynamic_can);
        proof {
            lemma_first_builtin_owner_bound(
                self.builtin_plugins@,
                session_name@,
                context@,
                env@,
                0,
            );
        }
        self.dispatch_switch(owner, session_name, context, env)
    }

    /// Locate the owning source and plan the kill.  Killing needs no fresh
    /// metadata: a built-in owner uses the multiplexer's generic kill, a
    /// registered owner is delegated back to the caller.  Fails with
    /// `NotFound` when no source owns the name.
    pub fn kill_session(
        &self,
        session_name: &str,
        context: &SessionContext,
        env: &EnvSnapshot,
        dynamic_can: &Vec<bool>,
    ) -> (r: Result<KillPlan, SessionError>)
        ensures
            ({
                let bo = first_builtin_owner(
                    self.builtin_plugins@,
                    session_name@,
                    context@,
                    env@,
                    0,
                );
                let dyn_o = first_true(dynamic_can@, 0);
                match bo {
                    Some(i) => r matches Ok(plan) && plan@ == (KillPlanV::KillTmux {
                        session: session_name@,
                    }),
                    None => match dyn_o {
                        Some(i) => r matches Ok(plan) && plan@ == (KillPlanV::Dynamic {
                            index: i,
                            session: session_name@,
                        }),
                        None => r matches Err(e) && e@ == ErrV::NotFound(
                            "No plugin found for session: "@ + session_name@,
                        ),
                    },
                }
            }),
    {
        match self.find_plugin_for_session(session_name, context, env, dynamic_can) {
            None => Err(SessionError::not_found("No plugin found for session: ", session_name)),
            Some(PluginRef::Builtin { index: _ }) => Ok(
                KillPlan::KillTmux { session: session_name.to_owned() },
            ),
            Some(PluginRef::Dynamic { index }) => Ok(
                KillPlan::Dynamic { index, session: session_name.to_owned() },
            ),
        }
    }

    /// Locate the owning source and render (or route) the preview; fails
    /// with `NotFound` when no source owns the name.
    pub fn preview_session(
        &self,
        session_name: &str,
        context: &SessionContext,
        env: &EnvSnapshot,
        dynamic_can: &Vec<bool>,
        data: &PreviewData,
    ) -> (r: Result<PreviewPlan, SessionError>)
        ensures
            ({
                let bo = first_builtin_owner(
                    self.builtin_plugins@,
                    session_name@,
                    context@,
                    env@,
                    0,
                );
                let dyn_o = first_true(dynamic_can@, 0);
                match bo {
                    Some(i) => {
                        let p = self.builtin_plugins@[i];
                        match p.resolve_spec(session_name@, context@, env@) {
                            Err(e0) => r matches Err(e) && e@ == e0,
                            Ok(m) => match r {
                                Ok(plan) => plan matches PreviewPlan::Text(s) && p.preview_spec(
                                    session_name@,
                                    m,
                                    env@,
                                    data@,
                                ) == Ok::<Seq<char>, ErrV>(s@),
                                Err(e) => p.preview_spec(session_name@, m, env@, data@) == Err::<
                                    Seq<char>,
                                    ErrV,
                                >(e@),
                            },
                        }
                    },
                    None => match dyn_o {
                        Some(i) => r matches Ok(plan) && plan@ == (PreviewPlanV::Dynamic {
                            index: i,
                        }),
                        None => r matches Err(e) && e@ == ErrV::NotFound(
                            "No plugin found for session: "@ + session_name@,
                        ),
                    },
                }
            }),
    {
        proof {
            lemma_first_builtin_owner_bound(
                self.builtin_plugins@,
                session_name@,
                context@,
                env@,
                0,
            );
        }
        match self.find_plugin_for_session(session_name, context, env, dynamic_can) {
            None => Err(SessionError::not_found("No plugin found for session: ", session_name)),
            Some(PluginRef::Builtin { index }) => {
                let plugin = &self.builtin_plugins[index];
                match plugin.resolve(session_name, context, env) {
                    Ok(metadata) => match plugin.preview(session_name, &metadata, env, data) {
                        Ok(text) => Ok(PreviewPlan::Text(text)),
                        Err(e) => Err(e),
                    },
                    Err(e) => Err(e),
                }
            },
            Some(PluginRef::Dynamic { index }) => Ok(PreviewPlan::Dynamic { index }),
        }
    }

    /// Locate the owning source and plan the background start; like a
    /// switch, except that the saved-project source launches detached.
    pub fn start_session(
        &self,
        session_name: &str,
        context: &SessionContext,
        env: &EnvSnapshot,
        dynamic_can: &Vec<bool>,
    ) -> (r: Result<SwitchPlan, SessionError>)
        ensures
            ({
                let bo = first_builtin_owner(
                    self.builtin_plugins@,
                    session_name@,
                    context@,
                    env@,
                    0,
                );
                let dyn_o = first_true(dynamic_can@, 0);
                match bo {
                    Some(i) => {
                        let p = self.builtin_plugins@[i];
                        match p.resolve_spec(session_name@, context@, env@) {
                            Err(e0) => r matches Err(e) && e@ == e0,
                            Ok(m) => match r {
                                Ok(plan) => p.start_spec(session_name@, m, context@, env@) == Ok::<
                                    PlanV,
                                    ErrV,
                                >(plan@),
                                Err(e) => p.start_spec(session_name@, m, context@, env@) == Err::<
                                    PlanV,
                                    ErrV,
                                >(e@),
                            },
                        }
                    },
                    None => match dyn_o {
                        Some(i) => r matches Ok(plan) && plan@ == (PlanV::Dynamic { index: i }),
                        None => r matches Err(e) && e@ == ErrV::NotFound(
                            "No plugin found for session: "@ + session_name@,
                        ),
                    },
                }
            }),
    {
        proof {
            lemma_first_builtin_owner_bound(
                self.builtin_plugins@,
                session_name@,
                context@,
                env@,
                0,
            );
        }
        match self.find_plugin_for_session(session_name, context, env, dynamic_can) {
            None => Err(SessionError::not_found("No plugin found for session: ", session_name)),
            Some(PluginRef::Builtin { index }) => {
                let plugin = &self.builtin_plugins[index];
                match plugin.resolve(session_name, context, env) {
                    Ok(metadata) => plugin.start(session_name, &metadata, context, env),
                    Err(e) => Err(e),
                }
            },
            Some(PluginRef::Dynamic { index }) => Ok(SwitchPlan::Dynamic { index }),
        }
    }

    /// Every source's (name, description, priority), built-ins and
    /// registered alike, ordered by ascending priority.
    pub fn list_plugins(&self) -> (r: Vec<(String, String, u32)>)
        ensures
            ({
                let base = plugin_triples(self.builtin_plugins@, self.dynamic_v());
                let rv = triples_view(r@);
                &&& rv.len() == base.len()
                &&& forall|i: int| 0 <= i && i + 1 < rv.len() ==> (#[trigger] rv[i]).2 <= rv[i
                    + 1].2
                &&& forall|k: int| 0 <= k < rv.len() ==> base.contains(#[trigger] rv[k])
                &&& forall|k: int| 0 <= k < base.len() ==> rv.contains(#[trigger] base[k])
            }),
    {
        let mut plugins: Vec<(String, String, u32)> = Vec::new();
        let mut i: usize = 0;
        proof {
            assert(triples_view(plugins@) =~= builtin_triples(self.builtin_plugins@.take(0)));
        }
        while i < self.builtin_plugins.len()
            invariant
                i <= self.builtin_plugins@.len(),
                triples_view(plugins@) == builtin_triples(self.builtin_plugins@.take(i as int)),
            decreases self.builtin_plugins@.len() - i,
        {
            let p = &self.builtin_plugins[i];
            let entry = (p.name().to_owned(), p.description().to_owned(), p.priority());
            proof {
                assert(self.builtin_plugins@.take(i as int + 1).drop_last()
                    =~= self.builtin_plugins@.take(i as int));
                assert(self.builtin_plugins@.take(i as int + 1).last()
                    == self.builtin_plugins@[i as int]);
                assert(triples_view(plugins@.push(entry)) =~= triples_view(plugins@).push(
                    (entry.0@, entry.1@, entry.2),
                ));
            }
            plugins.push(entry);
            i += 1;
        }
        proof {
            assert(self.builtin_plugins@.take(self.builtin_plugins@.len() as int)
                =~= self.builtin_plugins@);
        }
        let ghost base_builtin = builtin_triples(self.builtin_plugins@);
        let mut j: usize = 0;
        proof {
            assert(triples_view(plugins@) + dynamic_triples(self.dynamic_v().take(0))
                =~= triples_view(plugins@));
        }
        while j < self.dynamic_plugins.len()
            invariant
                j <= self.dynamic_plugins@.len(),
                triples_view(plugins@) == base_builtin + dynamic_triples(
                    self.dynamic_v().take(j as int),
                ),
            decreases self.dynamic_plugins@.len() - j,
        {
            let m = &self.dynamic_plugins[j];
            let entry = (m.name.clone(), m.description.clone(), m.priority);
            proof {
                assert(self.dynamic_v().take(j as int + 1).drop_last() =~= self.dynamic_v().take(
                    j as int,
                ));
                assert(self.dynamic_v().take(j as int + 1).last() == self.dynamic_v()[j as int]);
                assert(self.dynamic_v()[j as int] == m@);
                assert(triples_view(plugins@.push(entry)) =~= triples_view(plugins@).push(
                    (entry.0@, entry.1@, entry.2),
                ));
            }
            plugins.push(entry);
            j += 1;
        }
        proof {
            assert(self.dynamic_v().take(self.dynamic_v().len() as int) =~= self.dynamic_v());
        }
        sort_triples(plugins)
    }

    /// The legend lines of every source: the built-ins' in declaration
    /// order, then the registered sources' in registration order, with no
    /// line added, dropped or reordered.  `dynamic_help` holds what each
    /// registered source's `get_help_text` returned, one batch per source.
    pub fn get_all_help_text(&self, dynamic_help: &Vec<Vec<String>>) -> (r: Vec<String>)
        requires
            dynamic_help@.len() == self.dynamic_plugins@.len(),
        ensures
            strs_view(r@) == builtin_help_concat(self.builtin_plugins@) + dynamic_help_concat(
                help_batch_views(dynamic_help@),
            ),
    {
        let mut help_lines: Vec<String> = Vec::new();
        let mut i: usize = 0;
        proof {
            assert(strs_view(help_lines@) =~= builtin_help_concat(self.builtin_plugins@.take(0)));
        }
        while i < self.builtin_plugins.len()
            invariant
                i <= self.builtin_plugins@.len(),
                strs_view(help_lines@) == builtin_help_concat(
                    self.builtin_plugins@.take(i as int),
                ),
            decreases self.builtin_plugins@.len() - i,
        {
            let mut lines = self.builtin_plugins[i].get_help_text();
            proof {
                assert(self.builtin_plugins@.take(i as int + 1).drop_last()
                    =~= self.builtin_plugins@.take(i as int));
                assert(self.builtin_plugins@.take(i as int + 1).last()
                    == self.builtin_plugins@[i as int]);
                assert(strs_view(help_lines@ + lines@) =~= strs_view(help_lines@) + strs_view(
                    lines@,
                ));
            }
            help_lines.append(&mut lines);
            i += 1;
        }
        proof {
            assert(self.builtin_plugins@.take(self.builtin_plugins@.len() as int)
                =~= self.builtin_plugins@);
        }
        let ghost base = strs_view(help_lines@);
        let ghost hv = help_batch_views(dynamic_help@);
        let mut j: usize = 0;
        proof {
            assert(base + dynamic_help_concat(hv.take(0)) =~= base);
        }
        while j < dynamic_help.len()
            invariant
                j <= dynamic_help@.len(),
                hv == help_batch_views(dynamic_help@),
                strs_view(help_lines@) == base + dynamic_help_concat(hv.take(j as int)),
            decreases dynamic_help@.len() - j,
        {
            let batch = &dynamic_help[j];
            let ghost mid = strs_view(help_lines@);
            let mut k: usize = 0;
            proof {
                assert(mid + strs_view(batch@.take(0)) =~= mid);
            }
            while k < batch.len()
                invariant
                    k <= batch@.len(),
                    strs_view(help_lines@) == mid + strs_view(batch@.take(k as int)),
                decreases batch@.len() - k,
            {
                let line = batch[k].clone();
                proof {
                    assert(strs_view(batch@.take(k as int + 1)) =~= strs_view(
                        batch@.take(k as int),
                    ).push(batch@[k as int]@));
                    assert(strs_view(help_lines@.push(line)) =~= strs_view(help_lines@).push(
                        line@,
                    ));
                }
                help_lines.push(line);
                k += 1;
            }
            proof {
                assert(batch@.take(batch@.len() as int) =~= batch@);
                assert(strs_view(batch@) == hv[j as int]);
                assert(hv.take(j as int + 1).drop_last() =~= hv.take(j as int));
                assert(hv.take(j as int + 1).last() == hv[j as int]);
                assert(mid + strs_view(batch@) =~= base + dynamic_help_concat(
                    hv.take(j as int + 1),
                ));
            }
            j += 1;
        }
        proof {
            assert(hv.take(hv.len() as int) =~= hv);
        }
        help_lines
    }
}

/// Views of the given legend-line batches.
pub open spec fn help_batch_views(batches: Seq<Vec<String>>) -> Seq<Seq<Seq<char>>> {
    batches.map_values(|b: Vec<String>| strs_view(b@))
}

/// The registered sources' legend lines, concatenated in order.
pub open spec fn dynamic_help_concat(batches: Seq<Seq<Seq<char>>>) -> Seq<Seq<char>>
    decreases batches.len(),
{
    if batches.len() == 0 {
        Seq::empty()
    } else {
        dynamic_help_concat(batches.drop_last()) + batches.last()
    }
}

/// A located built-in owner's index is within the built-in list.
pub proof fn lemma_first_builtin_owner_bound(
    plugins: Seq<BuiltinPlugin>,
    name: Seq<char>,
    ctx: CtxV,
    env: EnvV,
    i: int,
)
    ensures
        first_builtin_owner(plugins, name, ctx, env, i) matches Some(k) ==> 0 <= k
            < plugins.len() && plugins[k].can_handle_v(name, ctx, env),
    decreases plugins.len() - i,
{
    if 0 <= i < plugins.len() && !plugins[i].can_handle_v(name, ctx, env) {
        lemma_first_builtin_owner_bound(plugins, name, ctx, env, i + 1);
    }
}

/// Views of (name, description, priority) listing entries.
pub open spec fn triples_view(v: Seq<(String, String, u32)>) -> Seq<(Seq<char>, Seq<char>, u32)> {
    v.map_values(|t: (String, String, u32)| (t.0@, t.1@, t.2))
}

pub open spec fn builtin_triples(plugins: Seq<BuiltinPlugin>) -> Seq<(Seq<char>, Seq<char>, u32)>
    decreases plugins.len(),
{
    if plugins.len() == 0 {
        Seq::empty()
    } else {
        builtin_triples(plugins.drop_last()) + seq![
            (
                plugins.last().name_v(),
                plugins.last().description_v(),
                plugins.last().priority_v(),
            ),
        ]
    }
}

pub open spec fn dynamic_triples(metas: Seq<PluginMetadataV>) -> Seq<(Seq<char>, Seq<char>, u32)>
    decreases metas.len(),
{
    if metas.len() == 0 {
        Seq::empty()
    } else {
        dynamic_triples(metas.drop_last()) + seq![
            (metas.last().name, metas.last().description, metas.last().priority),
        ]
    }
}

/// The listing entries of all sources, built-ins first.
pub open spec fn plugin_triples(
    plugins: Seq<BuiltinPlugin>,
    metas: Seq<PluginMetadataV>,
) -> Seq<(Seq<char>, Seq<char>, u32)> {
    builtin_triples(plugins) + dynamic_triples(metas)
}

/// The legend lines of the built-in sources, concatenated in order.
pub open spec fn builtin_help_concat(plugins: Seq<BuiltinPlugin>) -> Seq<Seq<char>>
    decreases plugins.len(),
{
    if plugins.len() == 0 {
        Seq::empty()
    } else {
        builtin_help_concat(plugins.drop_last()) + plugins.last().help_v()
    }
}

/// Order listing entries by ascending priority, keeping exactly the input
/// entries.
#[verifier::loop_isolation(false)]
fn sort_triples(input: Vec<(String, String, u32)>) -> (r: Vec<(String, String, u32)>)
    ensures
        ({
            let iv = triples_view(input@);
            let rv = triples_view(r@);
            &&& rv.len() == iv.len()
            &&& forall|i: int| 0 <= i && i + 1 < rv.len() ==> (#[trigger] rv[i]).2 <= rv[i + 1].2
            &&& forall|k: int| 0 <= k < rv.len() ==> iv.contains(#[trigger] rv[k])
            &&& forall|k: int| 0 <= k < iv.len() ==> rv.contains(#[trigger] iv[k])
        }),
{
    let ghost orig = triples_view(input@);
    let mut v = input;
    let mut out: Vec<(String, String, u32)> = Vec::new();
    while v.len() > 0
        invariant
            out@.len() + v@.len() == orig.len(),
            forall|i: int|
                0 <= i && i + 1 < out@.len() ==> (#[trigger] triples_view(out@)[i]).2
                    <= triples_view(out@)[i + 1].2,
            forall|x: int, y: int|
                0 <= x < out@.len() && 0 <= y < v@.len() ==> (#[trigger] triples_view(out@)[x]).2
                    <= (#[trigger] triples_view(v@)[y]).2,
            forall|k: int| 0 <= k < out@.len() ==> orig.contains(#[trigger] triples_view(out@)[k]),
            forall|k: int| 0 <= k < v@.len() ==> orig.contains(#[trigger] triples_view(v@)[k]),
            forall|l: int|
                0 <= l < orig.len() ==> triples_view(out@).contains(#[trigger] orig[l])
                    || triples_view(v@).contains(orig[l]),
        decreases v@.len(),
    {
        let ghost vv = triples_view(v@);
        let mut min: usize = 0;
        let mut k: usize = 1;
        while k < v.len()
            invariant
                min < k <= v@.len(),
                v@.len() > 0,
                vv == triples_view(v@),
                forall|t: int| 0 <= t < k ==> vv[min as int].2 <= (#[trigger] vv[t]).2,
            decreases v@.len() - k,
        {
            if v[k].2 < v[min].2 {
                min = k;
            }
            k += 1;
        }
        let x = v.remove(min);
        proof {
            assert((x.0@, x.1@, x.2) == vv[min as int]);
            assert(triples_view(v@) =~= vv.remove(min as int));
            vv.remove_ensures(min as int);
        }
        let ghost ov = triples_view(out@);
        let ghost vv2 = triples_view(v@);
        let ghost xv = (x.0@, x.1@, x.2);
        proof {
            assert forall|y: int| 0 <= y < vv2.len() implies xv.2 <= (#[trigger] vv2[y]).2 by {
                let oy = if y < min {
                    y
                } else {
                    y + 1
                };
                assert(vv2[y] == vv[oy]);
            }
            assert forall|l: int|
                0 <= l < orig.len() implies triples_view(out@).push(xv).contains(#[trigger] orig[l])
                    || vv2.contains(orig[l]) by {
                if ov.contains(orig[l]) {
                    let m = choose|m: int| 0 <= m < ov.len() && ov[m] == orig[l];
                    assert(ov.push(xv)[m] == orig[l]);
                } else if vv.contains(orig[l]) {
                    let m = choose|m: int| 0 <= m < vv.len() && vv[m] == orig[l];
                    if m == min {
                        assert(ov.push(xv)[ov.len() as int] == xv);
                    } else {
                        let nm = if m < min {
                            m
                        } else {
                            m - 1
                        };
                        assert(vv2[nm] == vv[m]);
                    }
                }
            }
            assert forall|k2: int| 0 <= k2 < vv2.len() implies orig.contains(#[trigger] vv2[k2]) by {
                let ok = if k2 < min {
                    k2
                } else {
                    k2 + 1
                };
                assert(vv2[k2] == vv[ok]);
            }
            assert(orig.contains(vv[min as int]));
            assert(triples_view(out@.push(x)) =~= ov.push(xv));
        }
        out.push(x);
    }
    out
}

/// Law: dedup tie-break.  When the round's contributions include a record
/// named `n` with priority `p`, and no contribution of that name has a
/// lower priority, the aggregated list holds exactly one record named `n`,
/// and its priority is `p` — so of two sources offering the same name at
/// priorities 10 and 50, only the priority-10 record survives.  The
/// hypotheses are exactly what `discover_all_sessions` ensures about its
/// result.
pub proof fn lemma_dedup_tie_break(result: Seq<ItemV>, contribs: Seq<ItemV>, n: Seq<char>, p: u32)
    requires
        distinct_names(result),
        forall|k: int| 0 <= k < result.len() ==> contribs.contains(#[trigger] result[k]),
        forall|k: int|
            0 <= k < contribs.len() ==> exists|m: int|
                0 <= m < result.len() && (#[trigger] result[m]).name == (
                #[trigger] contribs[k]).name && result[m].priority <= contribs[k].priority,
        exists|k: int|
            0 <= k < contribs.len() && (#[trigger] contribs[k]).name == n && contribs[k].priority
                == p,
        forall|k: int|
            0 <= k < contribs.len() && (#[trigger] contribs[k]).name == n ==> contribs[k].priority
                >= p,
    ensures
        exists|m: int|
            0 <= m < result.len() && (#[trigger] result[m]).name == n && result[m].priority == p,
        forall|m1: int, m2: int|
            0 <= m1 < m2 < result.len() && (#[trigger] result[m1]).name == n ==> (
            #[trigger] result[m2]).name != n,
{
    let k = choose|k: int|
        0 <= k < contribs.len() && (#[trigger] contribs[k]).name == n && contribs[k].priority == p;
    let m = choose|m: int|
        0 <= m < result.len() && (#[trigger] result[m]).name == contribs[k].name
            && result[m].priority <= contribs[k].priority;
    assert(contribs.contains(result[m]));
    let l = choose|l: int| 0 <= l < contribs.len() && contribs[l] == result[m];
    assert(contribs[l].priority >= p);
    assert(result[m].priority == p);
}

/// Law: idempotent resolution.  Resolution is a function of the name and
/// the two read-only snapshots alone, so two resolutions against the same
/// snapshots yield metadata equal in all fields; each source's `resolve`
/// ensures its result matches `resolve_spec`.
pub proof fn lemma_resolve_idempotent(
    plugin: BuiltinPlugin,
    name: Seq<char>,
    ctx: CtxV,
    env: EnvV,
    r1: Result<MetaV, ErrV>,
    r2: Result<MetaV, ErrV>,
)
    requires
        r1 == plugin.resolve_spec(name, ctx, env),
        r2 == plugin.resolve_spec(name, ctx, env),
    ensures
        r1 == r2,
{
}

/// The most-recent source never marks a record current, and never offers
/// the current session's name (it skips the head of the active list when
/// that head is the current session).
proof fn lemma_recent_not_current(ctx: CtxV, now: i64, c: Seq<char>)
    requires
        ctx.current_session == Some(c),
    ensures
        forall|k: int|
            0 <= k < recent_discover_v(ctx, now).len() ==> !(#[trigger] recent_discover_v(
                ctx,
                now,
            )[k]).is_current && recent_discover_v(ctx, now)[k].name != c,
{
}

/// The active source's per-session records are never current and never
/// named after the current session (it skips the current session in its
/// loop and appends it separately).
proof fn lemma_active_rec_not_current(names: Seq<Seq<char>>, ctx: CtxV, now: i64)
    ensures
        forall|k: int|
            0 <= k < active_discover_rec(names, ctx, now).len() ==> !(
            #[trigger] active_discover_rec(names, ctx, now)[k]).is_current && Some(
                active_discover_rec(names, ctx, now)[k].name,
            ) != ctx.current_session,
    decreases names.len(),
{
    if names.len() > 0 {
        lemma_active_rec_not_current(names.drop_last(), ctx, now);
    }
}

/// A scratch record is marked current exactly when it carries the current
/// session's name.
proof fn lemma_scratch_rec_current_iff(names: Seq<Seq<char>>, ctx: CtxV, now: i64, c: Seq<char>)
    requires
        ctx.current_session == Some(c),
    ensures
        forall|k: int|
            0 <= k < scratch_discover_rec(names, ctx, now).len() ==> ((
            #[trigger] scratch_discover_rec(names, ctx, now)[k]).is_current
                <==> scratch_discover_rec(names, ctx, now)[k].name == c),
    decreases names.len(),
{
    if names.len() > 0 {
        lemma_scratch_rec_current_iff(names.drop_last(), ctx, now, c);
    }
}

/// A live worktree record is marked current exactly when it carries the
/// current session's name.
proof fn lemma_wt_live_rec_current_iff(all: Seq<crate::session::TmuxSessionV>, ctx: CtxV, env: EnvV, c: Seq<char>)
    requires
        ctx.current_session == Some(c),
    ensures
        forall|k: int|
            0 <= k < wt_live_items_rec(all, ctx, env).len() ==> ((#[trigger] wt_live_items_rec(
                all,
                ctx,
                env,
            )[k]).is_current <==> wt_live_items_rec(all, ctx, env)[k].name == c),
    decreases all.len(),
{
    if all.len() > 0 {
        lemma_wt_live_rec_current_iff(all.drop_last(), ctx, env, c);
    }
}

/// A not-yet-materialized worktree record is never current; when no
/// worktree candidate is named after the current session, none of these
/// records is either.
proof fn lemma_wt_absent_rec_not_current(
    entries: Seq<(Seq<char>, Seq<char>)>,
    names: Seq<Seq<char>>,
    env: EnvV,
    now: i64,
    c: Seq<char>,
)
    requires
        forall|j: int| 0 <= j < entries.len() ==> (#[trigger] entries[j]).1 != c,
    ensures
        forall|k: int|
            0 <= k < wt_absent_items_rec(entries, names, env, now).len() ==> !(
            #[trigger] wt_absent_items_rec(entries, names, env, now)[k]).is_current
                && wt_absent_items_rec(entries, names, env, now)[k].name != c,
    decreases entries.len(),
{
    if entries.len() > 0 {
        assert(forall|j: int|
            0 <= j < entries.drop_last().len() ==> (#[trigger] entries.drop_last()[j]).1 != c);
        lemma_wt_absent_rec_not_current(entries.drop_last(), names, env, now, c);
    }
}

/// A saved-project record is marked current exactly when it carries the
/// current session's name.
proof fn lemma_tmuxinator_rec_current_iff(
    entries: Seq<(Seq<char>, Seq<char>)>,
    ctx: CtxV,
    now: i64,
    c: Seq<char>,
)
    requires
        ctx.current_session == Some(c),
    ensures
        forall|k: int|
            0 <= k < tmuxinator_items_rec(entries, ctx, now).len() ==> ((
            #[trigger] tmuxinator_items_rec(entries, ctx, now)[k]).is_current
                <==> tmuxinator_items_rec(entries, ctx, now)[k].name == c),
    decreases entries.len(),
{
    if entries.len() > 0 {
        lemma_tmuxinator_rec_current_iff(entries.drop_last(), ctx, now, c);
    }
}

/// Across everything the built-in sources contribute, a record is marked
/// current exactly when it carries the current session's name.
proof fn lemma_builtin_contribs_current_iff(
    builtins: Seq<BuiltinPlugin>,
    ctx: CtxV,
    env: EnvV,
    c: Seq<char>,
)
    requires
        builtins_wf(builtins),
        ctx.current_session == Some(c),
        forall|j: int|
            0 <= j < wt_candidates_v(env).len() ==> (#[trigger] wt_candidates_v(env)[j]).1 != c,
    ensures
        forall|k: int|
            0 <= k < builtin_contribs(builtins, ctx, env).len() ==> ((
            #[trigger] builtin_contribs(builtins, ctx, env)[k]).is_current <==> builtin_contribs(
                builtins,
                ctx,
                env,
            )[k].name == c),
{
    let s4 = builtins.drop_last();
    let s3 = s4.drop_last();
    let s2 = s3.drop_last();
    let s1 = s2.drop_last();
    let s0 = s1.drop_last();
    assert(s4.last() == builtins[3] && s3.last() == builtins[2] && s2.last() == builtins[1]
        && s1.last() == builtins[0]);
    assert(s0.len() == 0);
    lemma_recent_not_current(ctx, env.now, c);
    lemma_active_rec_not_current(ctx.active_sessions, ctx, env.now);
    lemma_scratch_rec_current_iff(ctx.scratch_sessions, ctx, env.now, c);
    lemma_wt_live_rec_current_iff(ctx.all_tmux_sessions, ctx, env, c);
    lemma_wt_absent_rec_not_current(
        wt_candidates_v(env),
        wt_live_names_rec(ctx.all_tmux_sessions, env),
        env,
        env.now,
        c,
    );
    lemma_tmuxinator_rec_current_iff(config_entries_of(env), ctx, env.now, c);
    assert forall|k: int|
        0 <= k < builtin_contribs(builtins, ctx, env).len() implies ((
    #[trigger] builtin_contribs(builtins, ctx, env)[k]).is_current <==> builtin_contribs(
        builtins,
        ctx,
        env,
    )[k].name == c) by {
        let bc = builtin_contribs(builtins, ctx, env);
        let x = bc[k];
        // bc is the concatenation of the five sources' gated contributions;
        // each segment satisfies the claim
        assert(bc == builtin_contribs(s4, ctx, env) + scratch_part(builtins, ctx, env));
        assert(builtin_contribs(s4, ctx, env) == builtin_contribs(s3, ctx, env) + tmuxinator_part(
            builtins,
            ctx,
            env,
        ));
        assert(builtin_contribs(s3, ctx, env) == builtin_contribs(s2, ctx, env) + active_part(
            builtins,
            ctx,
            env,
        ));
        assert(builtin_contribs(s2, ctx, env) == builtin_contribs(s1, ctx, env) + worktree_part(
            builtins,
            ctx,
            env,
        ));
        assert(builtin_contribs(s1, ctx, env) == builtin_contribs(s0, ctx, env) + recent_part(
            builtins,
            ctx,
            env,
        ));
        assert(builtin_contribs(s0, ctx, env) =~= Seq::<ItemV>::empty());
    }
}

/// The saved-project definitions visible this round.
pub open spec fn config_entries_of(env: EnvV) -> Seq<(Seq<char>, Seq<char>)> {
    crate::tmuxinator::config_entries(env.config_files)
}

/// The gated contribution of one built-in source.
pub open spec fn gated(p: BuiltinPlugin, ctx: CtxV, env: EnvV) -> Seq<ItemV> {
    if deps_available(p.deps_v(), env) {
        p.discover_v(ctx, env)
    } else {
        Seq::empty()
    }
}

pub open spec fn recent_part(builtins: Seq<BuiltinPlugin>, ctx: CtxV, env: EnvV) -> Seq<ItemV> {
    gated(builtins[0], ctx, env)
}

pub open spec fn worktree_part(builtins: Seq<BuiltinPlugin>, ctx: CtxV, env: EnvV) -> Seq<ItemV> {
    gated(builtins[1], ctx, env)
}

pub open spec fn active_part(builtins: Seq<BuiltinPlugin>, ctx: CtxV, env: EnvV) -> Seq<ItemV> {
    gated(builtins[2], ctx, env)
}

pub open spec fn tmuxinator_part(builtins: Seq<BuiltinPlugin>, ctx: CtxV, env: EnvV) -> Seq<
    ItemV,
> {
    gated(builtins[3], ctx, env)
}

pub open spec fn scratch_part(builtins: Seq<BuiltinPlugin>, ctx: CtxV, env: EnvV) -> Seq<ItemV> {
    gated(builtins[4], ctx, env)
}

/// With the multiplexer available and a non-scratch current session, the
/// active source contributes a record named after the current session.
proof fn lemma_current_contribution_present(
    builtins: Seq<BuiltinPlugin>,
    ctx: CtxV,
    env: EnvV,
    c: Seq<char>,
)
    requires
        builtins_wf(builtins),
        ctx.current_session == Some(c),
        !has_substr(c, "scratch"@),
        env.command_available("tmux"@),
    ensures
        exists|k: int|
            0 <= k < builtin_contribs(builtins, ctx, env).len() && (#[trigger] builtin_contribs(
                builtins,
                ctx,
                env,
            )[k]).name == c,
{
    let s4 = builtins.drop_last();
    let s3 = s4.drop_last();
    let s2 = s3.drop_last();
    assert(s3.last() == builtins[2]);
    let bc = builtin_contribs(builtins, ctx, env);
    assert(bc == builtin_contribs(s4, ctx, env) + scratch_part(builtins, ctx, env));
    assert(builtin_contribs(s4, ctx, env) == builtin_contribs(s3, ctx, env) + tmuxinator_part(
        builtins,
        ctx,
        env,
    ));
    assert(builtin_contribs(s3, ctx, env) == builtin_contribs(s2, ctx, env) + active_part(
        builtins,
        ctx,
        env,
    ));
    // the active source's tmux dependency is available
    assert(deps_available(builtins[2].deps_v(), env)) by {
        assert(forall|i: int|
            0 <= i < builtins[2].deps_v().len() ==> #[trigger] builtins[2].deps_v()[i]
                == "tmux"@);
    }
    let act = active_discover_v(ctx, env.now);
    assert(active_part(builtins, ctx, env) == act);
    let cur_item = crate::active::active_item_v(c, ctx, env.now, true);
    assert(act.last() == cur_item);
    assert(act.len() > 0);
    let pos = builtin_contribs(s2, ctx, env).len() + act.len() - 1;
    assert(builtin_contribs(s3, ctx, env)[pos] == cur_item);
    assert(builtin_contribs(s4, ctx, env)[pos] == cur_item);
    assert(bc[pos] == cur_item);
}

/// Law: current-session singularity.  For a round over a context with a
/// current session whose name does not follow the scratch convention, with
/// the multiplexer available, no worktree candidate named after the current
/// session, and no registered source contributing a record that is marked
/// current or carries the current session's name, the aggregated list holds
/// exactly one record marked current, and that record carries the current
/// session's name.  `extra` is what the registered sources contributed this
/// round; the hypotheses about `result` are exactly what
/// `discover_all_sessions` ensures.
pub proof fn lemma_current_session_singularity(
    result: Seq<ItemV>,
    builtins: Seq<BuiltinPlugin>,
    extra: Seq<ItemV>,
    ctx: CtxV,
    env: EnvV,
    c: Seq<char>,
)
    requires
        builtins_wf(builtins),
        ctx.current_session == Some(c),
        !has_substr(c, "scratch"@),
        env.command_available("tmux"@),
        forall|j: int|
            0 <= j < wt_candidates_v(env).len() ==> (#[trigger] wt_candidates_v(env)[j]).1 != c,
        forall|k: int|
            0 <= k < extra.len() ==> !(#[trigger] extra[k]).is_current && extra[k].name != c,
        distinct_names(result),
        forall|k: int|
            0 <= k < result.len() ==> (builtin_contribs(builtins, ctx, env) + extra).contains(
                #[trigger] result[k],
            ),
        forall|k: int|
            0 <= k < (builtin_contribs(builtins, ctx, env) + extra).len() ==> exists|m: int|
                0 <= m < result.len() && (#[trigger] result[m]).name == (#[trigger] (
                builtin_contribs(builtins, ctx, env) + extra)[k]).name && result[m].priority <= (
                builtin_contribs(builtins, ctx, env) + extra)[k].priority,
    ensures
        exists|m: int|
            0 <= m < result.len() && (#[trigger] result[m]).is_current && result[m].name == c,
        forall|m: int|
            0 <= m < result.len() && (#[trigger] result[m]).is_current ==> result[m].name == c,
        forall|m1: int, m2: int|
            0 <= m1 < m2 < result.len() && (#[trigger] result[m1]).is_current ==> !(
            #[trigger] result[m2]).is_current,
{
    let bc = builtin_contribs(builtins, ctx, env);
    let all = bc + extra;
    lemma_builtin_contribs_current_iff(builtins, ctx, env, c);
    lemma_current_contribution_present(builtins, ctx, env, c);
    // a contribution is current exactly when it carries the current name
    assert forall|k: int|
        0 <= k < all.len() implies ((#[trigger] all[k]).is_current <==> all[k].name == c) by {
        if k < bc.len() {
            assert(all[k] == bc[k]);
        } else {
            assert(all[k] == extra[k - bc.len()]);
        }
    }
    // a record named after the current session survives aggregation
    let k = choose|k: int| 0 <= k < bc.len() && (#[trigger] bc[k]).name == c;
    assert(all[k] == bc[k]);
    let m = choose|m: int|
        0 <= m < result.len() && (#[trigger] result[m]).name == all[k].name && result[m].priority
            <= all[k].priority;
    assert(all.contains(result[m]));
    let l = choose|l: int| 0 <= l < all.len() && all[l] == result[m];
    assert(result[m].is_current);
    // and every surviving current record carries that name
    assert forall|m2: int|
        0 <= m2 < result.len() && (#[trigger] result[m2]).is_current implies result[m2].name
        == c by {
        assert(all.contains(result[m2]));
        let l2 = choose|l2: int| 0 <= l2 < all.len() && all[l2] == result[m2];
    }
}

/// Extending the processed prefix keeps every record it contained.
proof fn lemma_contains_mono(all: Seq<ItemV>, p: int, x: ItemV)
    requires
        0 <= p < all.len(),
        all.take(p).contains(x),
    ensures
        all.take(p + 1).contains(x),
{
    let l = choose|l: int| 0 <= l < all.take(p).len() && all.take(p)[l] == x;
    assert(all.take(p + 1)[l] == x);
}

proof fn lemma_take_step(all: Seq<ItemV>, p: int)
    requires
        0 <= p < all.len(),
    ensures
        all.take(p + 1)[p] == all[p],
        all.take(p + 1).len() == p + 1,
{
}

/// Exec comparison of strict display rank.
fn item_lt_exec(a: &SessionItem, b: &SessionItem) -> (r: bool)
    ensures
        r == item_lt(a@, b@),
{
    a.priority < b.priority || (a.priority == b.priority && a.timestamp > b.timestamp)
}

/// Stable ordering of records by display rank, via selection of a minimal
/// remaining record; keeps exactly the input records.
#[verifier::loop_isolation(false)]
fn sort_items(input: Vec<SessionItem>) -> (r: Vec<SessionItem>)
    ensures
        ({
            let iv = items_view(input@);
            let rv = items_view(r@);
            &&& sorted_ranked(rv)
            &&& rv.len() == iv.len()
            &&& forall|k: int| 0 <= k < rv.len() ==> iv.contains(#[trigger] rv[k])
            &&& forall|l: int| 0 <= l < iv.len() ==> rv.contains(#[trigger] iv[l])
            &&& (distinct_names(iv) ==> distinct_names(rv))
        }),
{
    let ghost orig = items_view(input@);
    let mut v = input;
    let mut out: Vec<SessionItem> = Vec::new();
    while v.len() > 0
        invariant
            out@.len() + v@.len() == orig.len(),
            sorted_ranked(items_view(out@)),
            forall|x: int, y: int|
                0 <= x < out@.len() && 0 <= y < v@.len() ==> item_le(
                    #[trigger] items_view(out@)[x],
                    #[trigger] items_view(v@)[y],
                ),
            forall|k: int| 0 <= k < out@.len() ==> orig.contains(#[trigger] items_view(out@)[k]),
            forall|k: int| 0 <= k < v@.len() ==> orig.contains(#[trigger] items_view(v@)[k]),
            forall|l: int|
                0 <= l < orig.len() ==> items_view(out@).contains(#[trigger] orig[l]) || items_view(
                    v@,
                ).contains(orig[l]),
            distinct_names(orig) ==> (distinct_names(items_view(out@)) && distinct_names(
                items_view(v@),
            ) && (forall|x: int, y: int|
                0 <= x < out@.len() && 0 <= y < v@.len() ==> (#[trigger] items_view(out@)[x]).name
                    != (#[trigger] items_view(v@)[y]).name)),
        decreases v@.len(),
    {
        let ghost vv = items_view(v@);
        let mut min: usize = 0;
        let mut k: usize = 1;
        while k < v.len()
            invariant
                min < k <= v@.len(),
                v@.len() > 0,
                vv == items_view(v@),
                forall|t: int| 0 <= t < k ==> item_le(vv[min as int], #[trigger] vv[t]),
            decreases v@.len() - k,
        {
            if item_lt_exec(&v[k], &v[min]) {
                min = k;
            }
            k += 1;
        }
        let x = v.remove(min);
        proof {
            assert(x@ == vv[min as int]);
            assert(items_view(v@) =~= vv.remove(min as int));
            vv.remove_ensures(min as int);
        }
        let ghost ov = items_view(out@);
        let ghost vv2 = items_view(v@);
        proof {
            // the chosen record ranks no later than everything that remains
            assert forall|y: int| 0 <= y < vv2.len() implies item_le(x@, #[trigger] vv2[y]) by {
                let oy = if y < min {
                    y
                } else {
                    y + 1
                };
                assert(vv2[y] == vv[oy]);
            }
            // sortedness of out extended with x
            assert forall|i: int|
                0 <= i && i + 1 < ov.len() + 1 implies item_le(
                #[trigger] items_view(out@.push(x))[i],
                items_view(out@.push(x))[i + 1],
            ) by {
                assert(items_view(out@.push(x)) =~= ov.push(x@));
                if i + 1 < ov.len() {
                } else {
                    assert(ov.push(x@)[i] == ov[i]);
                    assert(ov.push(x@)[i + 1] == x@);
                    assert(item_le(ov[i], vv[min as int]));
                }
            }
            // every original record is accounted for in out+x or the rest
            assert forall|l: int|
                0 <= l < orig.len() implies items_view(out@.push(x)).contains(#[trigger] orig[l])
                    || vv2.contains(orig[l]) by {
                assert(items_view(out@.push(x)) =~= ov.push(x@));
                if ov.contains(orig[l]) {
                    let m = choose|m: int| 0 <= m < ov.len() && ov[m] == orig[l];
                    assert(ov.push(x@)[m] == orig[l]);
                } else if vv.contains(orig[l]) {
                    let m = choose|m: int| 0 <= m < vv.len() && vv[m] == orig[l];
                    if m == min {
                        assert(ov.push(x@)[ov.len() as int] == x@);
                    } else {
                        let nm = if m < min {
                            m
                        } else {
                            m - 1
                        };
                        assert(vv2[nm] == vv[m]);
                    }
                }
            }
            // containment of each side in the original
            assert forall|k2: int|
                0 <= k2 < ov.len() + 1 implies orig.contains(
                #[trigger] items_view(out@.push(x))[k2],
            ) by {
                assert(items_view(out@.push(x)) =~= ov.push(x@));
                if k2 == ov.len() {
                    assert(ov.push(x@)[k2] == x@);
                    assert(orig.contains(vv[min as int]));
                }
            }
            assert forall|k2: int| 0 <= k2 < vv2.len() implies orig.contains(#[trigger] vv2[k2]) by {
                let ok = if k2 < min {
                    k2
                } else {
                    k2 + 1
                };
                assert(vv2[k2] == vv[ok]);
            }
            // name distinctness bookkeeping
            if distinct_names(orig) {
                assert forall|a: int, b: int|
                    0 <= a < b < ov.len() + 1 implies (#[trigger] items_view(out@.push(x))[
                a]).name != (#[trigger] items_view(out@.push(x))[b]).name by {
                    assert(items_view(out@.push(x)) =~= ov.push(x@));
                    if b == ov.len() {
                        assert(ov.push(x@)[b] == x@);
                        assert(ov[a].name != vv[min as int].name);
                    }
                }
                assert forall|a: int, b: int|
                    0 <= a < b < vv2.len() implies (#[trigger] vv2[a]).name != (
                #[trigger] vv2[b]).name by {
                    let oa = if a < min {
                        a
                    } else {
                        a + 1
                    };
                    let ob = if b < min {
                        b
                    } else {
                        b + 1
                    };
                    assert(vv2[a] == vv[oa] && vv2[b] == vv[ob]);
                }
                assert forall|a: int, b: int|
                    0 <= a < ov.len() + 1 && 0 <= b < vv2.len() implies (#[trigger] items_view(
                    out@.push(x),
                )[a]).name != (#[trigger] vv2[b]).name by {
                    assert(items_view(out@.push(x)) =~= ov.push(x@));
                    let ob = if b < min {
                        b
                    } else {
                        b + 1
                    };
                    assert(vv2[b] == vv[ob]);
                    if a == ov.len() {
                        assert(ov.push(x@)[a] == x@);
                        assert(vv[min as int].name != vv[ob].name);
                    }
                }
            }
            assert(items_view(out@.push(x)) =~= ov.push(x@));
        }
        out.push(x);
    }
    proof {
        assert(items_view(v@).len() == 0);
    }
    out
}

} // verus!
