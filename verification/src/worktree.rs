//! The worktree source: live sessions whose working directory is a worktree
//! checkout, plus not-yet-materialized records for worktrees of the
//! surrounding repository that have no session yet.
//!
//! Worktree names may open with a character the multiplexer rejects (a
//! leading dot); the source keeps the display name for deduplication and the
//! sanitized name for actual multiplexer operations, translating at the
//! switch/resolve boundary.
use vstd::prelude::*;

use crate::session::{
    CtxV, EnvSnapshot, EnvV, ItemV, MetaV, RepoKind, SessionContext, SessionItem, SessionMetadata,
    TmuxSessionV, branch_lookup, items_view,
};
use crate::traits::{PlanV, PreviewData, PreviewDataV, SwitchPlan, enter_plan_v};
use crate::{ErrV, SessionError};
use crate::strutil::{
    contains_str_seq, indent_lines, indented_lines_v, is_prefix, last_component_v,
    last_path_component, lines_v, opt_str_view, pairs_view, split_lines, starts_with, str_eq,
    strs_view, vec_contains_str,
};

verus! {

/// Source of version-control worktree sessions.
#[derive(Debug, Clone)]
pub struct WorktreePlugin {}

/// The sanitized session name: worktree names may open with a dot, which
/// the multiplexer rejects, so a leading dot is dropped.
pub open spec fn safe_name_v(name: Seq<char>) -> Seq<char> {
    if name.len() > 0 && name[0] == '.' {
        name.drop_first()
    } else {
        name
    }
}

/// The branch named on a `branch` line of the porcelain worktree listing,
/// with the ref prefix removed when present.
pub open spec fn branch_part(line: Seq<char>) -> Seq<char> {
    if is_prefix(line, "branch refs/heads/"@) {
        line.skip(18)
    } else {
        line.skip(7)
    }
}

/// The (path, short name) pairs read off the porcelain worktree listing: a
/// `worktree` line records a path, a `branch` line records a branch, and as
/// soon as both are at hand an entry is emitted and the state cleared.  The
/// short name is the last path component.
pub open spec fn worktree_entries(
    lines: Seq<Seq<char>>,
    cur_path: Option<Seq<char>>,
    cur_branch: Option<Seq<char>>,
) -> Seq<(Seq<char>, Seq<char>)>
    decreases lines.len(),
{
    if lines.len() == 0 {
        Seq::empty()
    } else {
        let line = lines[0];
        let p2 = if is_prefix(line, "worktree "@) {
            Some(line.skip(9))
        } else {
            cur_path
        };
        let b2 = if is_prefix(line, "branch "@) {
            Some(branch_part(line))
        } else {
            cur_branch
        };
        match (p2, b2) {
            (Some(p), Some(_b)) => seq![(p, last_component_v(p))] + worktree_entries(
                lines.drop_first(),
                None,
                None,
            ),
            (p3, b3) => worktree_entries(lines.drop_first(), p3, b3),
        }
    }
}

/// All worktree candidates of the surrounding repository, if its listing
/// was obtained this round.
pub open spec fn wt_candidates_v(env: EnvV) -> Seq<(Seq<char>, Seq<char>)> {
    match env.worktree_output {
        Some(out) => worktree_entries(lines_v(out), None, None),
        None => Seq::empty(),
    }
}

/// The live session's working directory is a worktree checkout.
pub open spec fn session_in_worktree_v(t: TmuxSessionV, env: EnvV) -> bool {
    match t.current_path {
        Some(p) => env.is_worktree_path(p),
        None => false,
    }
}

/// The record discovered for a live worktree session.
pub open spec fn wt_live_item_v(t: TmuxSessionV, ctx: CtxV) -> ItemV {
    ItemV {
        name: t.name,
        plugin_name: "worktree"@,
        priority: 5,
        timestamp: t.last_attached,
        is_current: ctx.current_session == Some(t.name),
        is_active: true,
        metadata: MetaV {
            session_type: "worktree"@,
            path: None,
            exists: true,
            props: Seq::empty(),
        },
    }
}

pub open spec fn wt_live_items_rec(all: Seq<TmuxSessionV>, ctx: CtxV, env: EnvV) -> Seq<ItemV>
    decreases all.len(),
{
    if all.len() == 0 {
        Seq::empty()
    } else {
        wt_live_items_rec(all.drop_last(), ctx, env) + (if session_in_worktree_v(all.last(), env) {
            seq![wt_live_item_v(all.last(), ctx)]
        } else {
            Seq::empty()
        })
    }
}

/// Names of the live worktree sessions, in context order.
pub open spec fn wt_live_names_rec(all: Seq<TmuxSessionV>, env: EnvV) -> Seq<Seq<char>>
    decreases all.len(),
{
    if all.len() == 0 {
        Seq::empty()
    } else {
        wt_live_names_rec(all.drop_last(), env) + (if session_in_worktree_v(all.last(), env) {
            seq![all.last().name]
        } else {
            Seq::empty()
        })
    }
}

/// A worktree candidate is skipped when a live worktree session already
/// covers its name (plain or sanitized), or when it is the main checkout.
pub open spec fn wt_skip_entry(e: (Seq<char>, Seq<char>), names: Seq<Seq<char>>, env: EnvV) -> bool {
    contains_str_seq(names, e.1) || contains_str_seq(names, safe_name_v(e.1)) || env.path_kind(e.0)
        == Some(RepoKind::MainCheckout)
}

/// The record for a worktree with no session yet: not active, creation path
/// recorded, display name kept.
pub open spec fn wt_absent_item_v(e: (Seq<char>, Seq<char>), now: i64) -> ItemV {
    ItemV {
        name: e.1,
        plugin_name: "worktree"@,
        priority: 5,
        timestamp: now,
        is_current: false,
        is_active: false,
        metadata: MetaV {
            session_type: "worktree"@,
            path: Some(e.0),
            exists: false,
            props: Seq::empty(),
        },
    }
}

pub open spec fn wt_absent_items_rec(
    entries: Seq<(Seq<char>, Seq<char>)>,
    names: Seq<Seq<char>>,
    env: EnvV,
    now: i64,
) -> Seq<ItemV>
    decreases entries.len(),
{
    if entries.len() == 0 {
        Seq::empty()
    } else {
        wt_absent_items_rec(entries.drop_last(), names, env, now) + (if wt_skip_entry(
            entries.last(),
            names,
            env,
        ) {
            Seq::empty()
        } else {
            seq![wt_absent_item_v(entries.last(), now)]
        })
    }
}

/// What this source discovers: live worktree sessions first, then
/// not-yet-materialized worktrees of the surrounding repository.
pub open spec fn worktree_discover_v(ctx: CtxV, env: EnvV) -> Seq<ItemV> {
    wt_live_items_rec(ctx.all_tmux_sessions, ctx, env) + wt_absent_items_rec(
        wt_candidates_v(env),
        wt_live_names_rec(ctx.all_tmux_sessions, env),
        env,
        env.now,
    )
}

/// Path of the first worktree candidate with the given short name.
pub open spec fn first_entry_named(entries: Seq<(Seq<char>, Seq<char>)>, name: Seq<char>) -> Option<
    Seq<char>,
>
    decreases entries.len(),
{
    if entries.len() == 0 {
        None
    } else if entries[0].1 == name {
        Some(entries[0].0)
    } else {
        first_entry_named(entries.drop_first(), name)
    }
}

/// Metadata `resolve` recomputes: for a live worktree session, its path and
/// branch; otherwise the creation path of the matching candidate; otherwise
/// the name is not owned by this source.
pub open spec fn wt_resolve_v(name: Seq<char>, ctx: CtxV, env: EnvV) -> Result<MetaV, ErrV> {
    let safe = safe_name_v(name);
    let exists_sess = ctx.has_session(name) || ctx.has_session(safe);
    let path_opt = if exists_sess {
        match ctx.session_path(name) {
            Some(p) => Some(p),
            None => ctx.session_path(safe),
        }
    } else {
        None
    };
    let live_path = match path_opt {
        Some(p) => if env.is_worktree_path(p) {
            Some(p)
        } else {
            None
        },
        None => None,
    };
    match live_path {
        Some(p) => Ok(
            MetaV {
                session_type: "worktree"@,
                path: Some(p),
                exists: true,
                props: match branch_lookup(env.branches, p) {
                    Some(b) => seq![("branch"@, b)],
                    None => Seq::empty(),
                },
            },
        ),
        None => match first_entry_named(wt_candidates_v(env), name) {
            Some(wpath) => Ok(
                MetaV {
                    session_type: "worktree"@,
                    path: Some(wpath),
                    exists: false,
                    props: Seq::empty(),
                },
            ),
            None => Err(ErrV::NotFound("Worktree not found for session: "@ + name)),
        },
    }
}

/// The plan `switch` computes: the metadata must carry a creation path that
/// exists on disk; then the sanitized session is entered, created first when
/// it is not live yet.
pub open spec fn wt_switch_v(name: Seq<char>, meta: MetaV, ctx: CtxV, env: EnvV) -> Result<
    PlanV,
    ErrV,
> {
    match meta.path {
        None => Err(ErrV::NotFound("No worktree path found for session: "@ + name)),
        Some(p) => if env.path_kind(p) is None {
            Err(ErrV::NotFound("Worktree path does not exist: "@ + p))
        } else {
            let safe = safe_name_v(name);
            if ctx.has_session(safe) {
                Ok(enter_plan_v(safe, env))
            } else {
                Ok(PlanV::CreateThenEnter { session: safe, path: Some(p), attach: !env.inside_tmux })
            }
        },
    }
}

/// What the preview pane shows for this source: the worktree's path, and —
/// when that path exists on disk — whatever of the branch, recent commits
/// and working-tree status could be observed, the status limited to ten
/// changed files.
pub open spec fn worktree_preview_v(
    name: Seq<char>,
    meta: MetaV,
    env: EnvV,
    data: PreviewDataV,
) -> Seq<char> {
    let head = "\x1b[0;34mGit Worktree: "@ + name + "\x1b[0m\n\n"@;
    match meta.path {
        None => head + "Worktree path not found\n"@,
        Some(p) => head + "\x1b[1;33mWorktree path:\x1b[0m\n"@ + p + "\n\n"@ + (if env.path_kind(p)
            is Some {
            (match data.branch {
                Some(b) => "\x1b[1;33mBranch info:\x1b[0m\n"@ + b + "\n\n"@,
                None => Seq::empty(),
            }) + (match data.log_output {
                Some(log) => "\x1b[1;33mRecent commits:\x1b[0m\n"@ + indented_lines_v(
                    lines_v(log),
                ) + "\n"@,
                None => Seq::empty(),
            }) + (match data.status_output {
                Some(st) => "\x1b[1;33mWorking directory status:\x1b[0m\n"@ + (if st.len() == 0 {
                    "  Clean working directory\n"@
                } else {
                    indented_lines_v(
                        lines_v(st).take(
                            if lines_v(st).len() <= 10 {
                                lines_v(st).len() as int
                            } else {
                                10
                            },
                        ),
                    )
                }),
                None => Seq::empty(),
            })
        } else {
            "Worktree path does not exist\n"@
        }),
    }
}

impl WorktreePlugin {
    pub fn new() -> (r: WorktreePlugin) {
        WorktreePlugin {  }
    }

    pub fn name(&self) -> (r: &str)
        ensures
            r@ == "worktree"@,
    {
        "worktree"
    }

    pub fn description(&self) -> (r: &str)
        ensures
            r@ == "Git worktree sessions"@,
    {
        "Git worktree sessions"
    }

    pub fn priority(&self) -> (r: u32)
        ensures
            r == 5,
    {
        5
    }

    pub fn dependencies(&self) -> (r: Vec<String>)
        ensures
            strs_view(r@) =~= seq!["git"@],
    {
        let mut v: Vec<String> = Vec::new();
        v.push("git".to_owned());
        v
    }

    /// The multiplexer-safe session name: a leading dot is dropped.
    pub fn get_tmux_safe_name(&self, session_name: &str) -> (r: String)
        ensures
            r@ == safe_name_v(session_name@),
    {
        let len = session_name.unicode_len();
        if len > 0 && session_name.get_char(0) == '.' {
            let r = session_name.substring_char(1, len).to_owned();
            proof {
                assert(r@ =~= session_name@.drop_first());
            }
            r
        } else {
            session_name.to_owned()
        }
    }

    /// Parse the porcelain worktree listing into (path, short name) pairs.
    pub fn parse_worktree_list(&self, output: &str) -> (r: Vec<(String, String)>)
        ensures
            pairs_view(r@) == worktree_entries(lines_v(output@), None, None),
    {
        let lines = split_lines(output);
        let mut out: Vec<(String, String)> = Vec::new();
        let mut cur_path: Option<String> = None;
        let mut cur_branch: Option<String> = None;
        let mut i: usize = 0;
        proof {
            reveal_strlit("worktree ");
            reveal_strlit("branch refs/heads/");
            reveal_strlit("branch ");
            assert(strs_view(lines@).skip(0) =~= strs_view(lines@));
            assert(pairs_view(out@) =~= Seq::<(Seq<char>, Seq<char>)>::empty());
        }
        while i < lines.len()
            invariant
                i <= lines@.len(),
                strs_view(lines@) == lines_v(output@),
                worktree_entries(lines_v(output@), None, None) == pairs_view(out@)
                    + worktree_entries(
                    strs_view(lines@).skip(i as int),
                    opt_str_view(cur_path),
                    opt_str_view(cur_branch),
                ),
            decreases lines@.len() - i,
        {
            let ghost pre_rest = strs_view(lines@).skip(i as int);
            proof {
                assert(pre_rest[0] == lines@[i as int]@);
                assert(pre_rest.drop_first() =~= strs_view(lines@).skip(i as int + 1));
            }
            let line = &lines[i];
            let llen = line.as_str().unicode_len();
            proof {
                reveal_strlit("worktree ");
                reveal_strlit("branch refs/heads/");
                reveal_strlit("branch ");
            }
            if starts_with(line.as_str(), "worktree ") {
                let p = line.as_str().substring_char(9, llen).to_owned();
                proof {
                    assert(p@ =~= line@.skip(9));
                }
                cur_path = Some(p);
            }
            if starts_with(line.as_str(), "branch ") {
                let b: String = if starts_with(line.as_str(), "branch refs/heads/") {
                    let b0 = line.as_str().substring_char(18, llen).to_owned();
                    proof {
                        assert(b0@ =~= line@.skip(18));
                    }
                    b0
                } else {
                    let b0 = line.as_str().substring_char(7, llen).to_owned();
                    proof {
                        assert(b0@ =~= line@.skip(7));
                    }
                    b0
                };
                cur_branch = Some(b);
            }
            let both = cur_path.is_some() && cur_branch.is_some();
            if both {
                match (cur_path, cur_branch) {
                    (Some(p), Some(_b)) => {
                        let name = last_path_component(p.as_str()).to_owned();
                        let ghost entry_v = (p@, name@);
                        proof {
                            assert(pairs_view(out@.push((p, name))) =~= pairs_view(out@).push(
                                entry_v,
                            ));
                        }
                        out.push((p, name));
                        cur_path = None;
                        cur_branch = None;
                    },
                    (p3, b3) => {
                        cur_path = p3;
                        cur_branch = b3;
                    },
                }
            }
            i += 1;
        }
        proof {
            assert(strs_view(lines@).skip(lines@.len() as int) =~= Seq::<Seq<char>>::empty());
            assert(pairs_view(out@) + Seq::<(Seq<char>, Seq<char>)>::empty() =~= pairs_view(out@));
        }
        out
    }

    /// Live worktree sessions first, then not-yet-materialized worktrees of
    /// the surrounding repository, skipping names already covered and the
    /// main checkout itself.
    pub fn discover(&self, context: &SessionContext, env: &EnvSnapshot) -> (r: Vec<SessionItem>)
        ensures
            items_view(r@) == worktree_discover_v(context@, env@),
    {
        let mut sessions: Vec<SessionItem> = Vec::new();
        let mut discovered: Vec<String> = Vec::new();
        let all = &context.all_tmux_sessions;
        let mut i: usize = 0;
        proof {
            assert(items_view(sessions@) =~= wt_live_items_rec(
                context@.all_tmux_sessions.take(0),
                context@,
                env@,
            ));
            assert(strs_view(discovered@) =~= wt_live_names_rec(
                context@.all_tmux_sessions.take(0),
                env@,
            ));
        }
        while i < all.len()
            invariant
                i <= all@.len(),
                context@.all_tmux_sessions.len() == all@.len(),
                context@.all_tmux_sessions == all@.map_values(|t: crate::session::TmuxSession| t@),
                items_view(sessions@) == wt_live_items_rec(
                    context@.all_tmux_sessions.take(i as int),
                    context@,
                    env@,
                ),
                strs_view(discovered@) == wt_live_names_rec(
                    context@.all_tmux_sessions.take(i as int),
                    env@,
                ),
            decreases all@.len() - i,
        {
            let t = &all[i];
            proof {
                assert(context@.all_tmux_sessions.take(i as int + 1).drop_last()
                    =~= context@.all_tmux_sessions.take(i as int));
                assert(context@.all_tmux_sessions.take(i as int + 1).last() == t@);
            }
            let in_worktree = match &t.current_path {
                Some(p) => match env.path_kind(p.as_str()) {
                    Some(RepoKind::WorktreeCheckout) => true,
                    _ => false,
                },
                None => false,
            };
            if in_worktree {
                let is_current = match &context.current_session {
                    Some(current) => str_eq(t.name.as_str(), current.as_str()),
                    None => false,
                };
                let metadata = SessionMetadata::new("worktree".to_owned()).with_exists(true);
                let item = SessionItem::new(
                    t.name.clone(),
                    "worktree".to_owned(),
                    self.priority(),
                    metadata,
                    env.now,
                ).with_current(is_current).with_active(true).with_timestamp(t.last_attached);
                let name_copy = t.name.clone();
                proof {
                    assert(item@.metadata.props =~= Seq::<(Seq<char>, Seq<char>)>::empty());
                    assert(item@ == wt_live_item_v(t@, context@));
                    assert(items_view(sessions@.push(item)) =~= items_view(sessions@).push(item@));
                    assert(strs_view(discovered@.push(name_copy)) =~= strs_view(discovered@).push(
                        t@.name,
                    ));
                }
                sessions.push(item);
                discovered.push(name_copy);
            }
            i += 1;
        }
        proof {
            assert(context@.all_tmux_sessions.take(context@.all_tmux_sessions.len() as int)
                =~= context@.all_tmux_sessions);
        }
        let ghost live_names = wt_live_names_rec(context@.all_tmux_sessions, env@);
        match &env.worktree_output {
            Some(output) => {
                let entries = self.parse_worktree_list(output.as_str());
                let mut j: usize = 0;
                proof {
                    assert(wt_candidates_v(env@).take(0) =~= pairs_view(entries@).take(0));
                    assert(items_view(sessions@) + wt_absent_items_rec(
                        wt_candidates_v(env@).take(0),
                        live_names,
                        env@,
                        env@.now,
                    ) =~= items_view(sessions@));
                }
                while j < entries.len()
                    invariant
                        j <= entries@.len(),
                        pairs_view(entries@) == wt_candidates_v(env@),
                        strs_view(discovered@) == live_names,
                        items_view(sessions@) == wt_live_items_rec(
                            context@.all_tmux_sessions,
                            context@,
                            env@,
                        ) + wt_absent_items_rec(
                            wt_candidates_v(env@).take(j as int),
                            live_names,
                            env@,
                            env@.now,
                        ),
                    decreases entries@.len() - j,
                {
                    let ghost e = pairs_view(entries@)[j as int];
                    proof {
                        assert(wt_candidates_v(env@).take(j as int + 1).drop_last()
                            =~= wt_candidates_v(env@).take(j as int));
                        assert(wt_candidates_v(env@).take(j as int + 1).last() == e);
                    }
                    let wname = &entries[j].1;
                    let wpath = &entries[j].0;
                    let safe = self.get_tmux_safe_name(wname.as_str());
                    let mut skip = vec_contains_str(&discovered, wname.as_str())
                        || vec_contains_str(&discovered, safe.as_str());
                    if !skip {
                        match env.path_kind(wpath.as_str()) {
                            Some(RepoKind::MainCheckout) => {
                                skip = true;
                            },
                            _ => {},
                        }
                    }
                    assert(skip == wt_skip_entry(e, live_names, env@));
                    if !skip {
                        let metadata = SessionMetadata::new("worktree".to_owned()).with_exists(
                            false,
                        ).with_path(wpath.clone());
                        let item = SessionItem::new(
                            wname.clone(),
                            "worktree".to_owned(),
                            self.priority(),
                            metadata,
                            env.now,
                        ).with_active(false);
                        proof {
                            assert(item@.metadata.props =~= Seq::<(Seq<char>, Seq<char>)>::empty());
                            assert(item@ == wt_absent_item_v(e, env@.now));
                            assert(items_view(sessions@.push(item)) =~= items_view(sessions@).push(
                                item@,
                            ));
                        }
                        sessions.push(item);
                    }
                    j += 1;
                }
                proof {
                    assert(wt_candidates_v(env@).take(entries@.len() as int) =~= wt_candidates_v(
                        env@,
                    ));
                }
                sessions
            },
            None => {
                proof {
                    assert(wt_candidates_v(env@) =~= Seq::<(Seq<char>, Seq<char>)>::empty());
                    assert(items_view(sessions@) + Seq::<ItemV>::empty() =~= items_view(sessions@));
                }
                sessions
            },
        }
    }

    /// Fresh metadata for a name this source owns: path and branch for a
    /// live worktree session, the creation path for a known worktree with
    /// no session, and `NotFound` otherwise.
    #[verifier::loop_isolation(false)]
    pub fn resolve(&self, session_name: &str, context: &SessionContext, env: &EnvSnapshot) -> (r:
        Result<SessionMetadata, SessionError>)
        ensures
            match r {
                Ok(m) => wt_resolve_v(session_name@, context@, env@) == Ok::<MetaV, ErrV>(m@),
                Err(e) => wt_resolve_v(session_name@, context@, env@) == Err::<MetaV, ErrV>(e@),
            },
    {
        let safe = self.get_tmux_safe_name(session_name);
        let exists_sess = context.has_session(session_name) || context.has_session(safe.as_str());
        let path_opt: Option<String> = if exists_sess {
            let by_name: Option<String> = match context.find_session(session_name) {
                Some(t) => match &t.current_path {
                    Some(p) => Some(p.clone()),
                    None => None,
                },
                None => None,
            };
            match by_name {
                Some(p) => Some(p),
                None => match context.find_session(safe.as_str()) {
                    Some(t) => match &t.current_path {
                        Some(p) => Some(p.clone()),
                        None => None,
                    },
                    None => None,
                },
            }
        } else {
            None
        };
        let ghost spec_path_opt = (if context@.has_session(session_name@) || context@.has_session(
            safe_name_v(session_name@),
        ) {
            match context@.session_path(session_name@) {
                Some(p) => Some(p),
                None => context@.session_path(safe_name_v(session_name@)),
            }
        } else {
            None
        });
        proof {
            assert(opt_str_view(path_opt) == spec_path_opt);
        }
        let live_path: Option<String> = match path_opt {
            Some(p) => match env.path_kind(p.as_str()) {
                Some(RepoKind::WorktreeCheckout) => Some(p),
                _ => None,
            },
            None => None,
        };
        proof {
            assert(opt_str_view(live_path) == (match spec_path_opt {
                Some(p) => if env@.is_worktree_path(p) {
                    Some(p)
                } else {
                    None
                },
                None => None,
            }));
        }
        match live_path {
            Some(p) => {
                let mut metadata = SessionMetadata::new("worktree".to_owned()).with_exists(
                    true,
                ).with_path(p.clone());
                match env.branch_of(p.as_str()) {
                    Some(b) => {
                        metadata = metadata.with_property("branch".to_owned(), b.clone());
                        proof {
                            assert(metadata@.props =~= seq![("branch"@, b@)]);
                        }
                    },
                    None => {
                        proof {
                            assert(metadata@.props =~= Seq::<(Seq<char>, Seq<char>)>::empty());
                        }
                    },
                }
                Ok(metadata)
            },
            None => {
                // the session is absent or not in a worktree: look for a
                // worktree candidate with this display name
                match &env.worktree_output {
                    Some(output) => {
                        let entries = self.parse_worktree_list(output.as_str());
                        let mut j: usize = 0;
                        proof {
                            assert(pairs_view(entries@).skip(0) =~= pairs_view(entries@));
                        }
                        while j < entries.len()
                            invariant
                                j <= entries@.len(),
                                pairs_view(entries@) == wt_candidates_v(env@),
                                first_entry_named(wt_candidates_v(env@), session_name@)
                                    == first_entry_named(
                                    pairs_view(entries@).skip(j as int),
                                    session_name@,
                                ),
                            decreases entries@.len() - j,
                        {
                            if str_eq(entries[j].1.as_str(), session_name) {
                                let metadata = SessionMetadata::new("worktree".to_owned())
                                    .with_exists(false).with_path(entries[j].0.clone());
                                proof {
                                    assert(metadata@.props =~= Seq::<(Seq<char>, Seq<char>)>::empty());
                                    assert(pairs_view(entries@).skip(j as int)[0] == pairs_view(
                                        entries@,
                                    )[j as int]);
                                    assert(first_entry_named(
                                        pairs_view(entries@).skip(j as int),
                                        session_name@,
                                    ) == Some(pairs_view(entries@)[j as int].0));
                                    assert(first_entry_named(
                                        wt_candidates_v(env@),
                                        session_name@,
                                    ) == Some(pairs_view(entries@)[j as int].0));
                                }
                                return Ok(metadata);
                            }
                            proof {
                                assert(pairs_view(entries@).skip(j as int).drop_first()
                                    =~= pairs_view(entries@).skip(j as int + 1));
                            }
                            j += 1;
                        }
                        Err(SessionError::not_found("Worktree not found for session: ", session_name))
                    },
                    None => {
                        Err(SessionError::not_found("Worktree not found for session: ", session_name))
                    },
                }
            },
        }
    }

    /// Ownership test: this source falls back to `resolve` succeeding.
    pub fn can_handle(&self, session_name: &str, context: &SessionContext, env: &EnvSnapshot) -> (r:
        bool)
        ensures
            r == (wt_resolve_v(session_name@, context@, env@) is Ok),
    {
        self.resolve(session_name, context, env).is_ok()
    }

    /// The plan for entering (creating if necessary) the worktree session.
    pub fn switch(&self, session_name: &str, metadata: &SessionMetadata, context: &SessionContext, env: &EnvSnapshot) -> (r: Result<SwitchPlan, SessionError>)
        ensures
            match r {
                Ok(p) => wt_switch_v(session_name@, metadata@, context@, env@) == Ok::<PlanV, ErrV>(
                    p@,
                ),
                Err(e) => wt_switch_v(session_name@, metadata@, context@, env@) == Err::<
                    PlanV,
                    ErrV,
                >(e@),
            },
    {
        match &metadata.path {
            None => Err(
                SessionError::not_found("No worktree path found for session: ", session_name),
            ),
            Some(worktree_path) => {
                match env.path_kind(worktree_path.as_str()) {
                    None => Err(
                        SessionError::not_found(
                            "Worktree path does not exist: ",
                            worktree_path.as_str(),
                        ),
                    ),
                    Some(_) => {
                        let tmux_session_name = self.get_tmux_safe_name(session_name);
                        if context.has_session(tmux_session_name.as_str()) {
                            Ok(
                                SwitchPlan::Enter {
                                    session: tmux_session_name,
                                    attach: !env.inside_tmux,
                                },
                            )
                        } else {
                            Ok(
                                SwitchPlan::CreateThenEnter {
                                    session: tmux_session_name,
                                    path: Some(worktree_path.clone()),
                                    attach: !env.inside_tmux,
                                },
                            )
                        }
                    },
                }
            },
        }
    }

    /// Render the preview pane text from the worktree's path and whatever
    /// version-control observations the round gathered.  Never fails.
    #[verifier::rlimit(80)]
    pub fn preview(&self, session_name: &str, metadata: &SessionMetadata, env: &EnvSnapshot, data: &PreviewData) -> (r: Result<String, SessionError>)
        ensures
            r matches Ok(s) && s@ == worktree_preview_v(session_name@, metadata@, env@, data@),
    {
        let mut s = String::new();
        s.append("\x1b[0;34mGit Worktree: ");
        s.append(session_name);
        s.append("\x1b[0m\n\n");
        match &metadata.path {
            None => {
                s.append("Worktree path not found\n");
                proof {
                    assert(s@ =~= worktree_preview_v(session_name@, metadata@, env@, data@));
                }
                Ok(s)
            },
            Some(worktree_path) => {
                s.append("\x1b[1;33mWorktree path:\x1b[0m\n");
                s.append(worktree_path.as_str());
                s.append("\n\n");
                let ghost upto_path = s@;
                proof {
                    assert(upto_path =~= "\x1b[0;34mGit Worktree: "@ + session_name@
                        + "\x1b[0m\n\n"@ + "\x1b[1;33mWorktree path:\x1b[0m\n"@ + worktree_path@
                        + "\n\n"@);
                }
                match env.path_kind(worktree_path.as_str()) {
                    Some(_) => {
                        let mut body = String::new();
                        match &data.branch {
                            Some(branch) => {
                                body.append("\x1b[1;33mBranch info:\x1b[0m\n");
                                body.append(branch.as_str());
                                body.append("\n\n");
                            },
                            None => {},
                        }
                        let ghost b1 = body@;
                        proof {
                            assert(b1 =~= (match data@.branch {
                                Some(b) => "\x1b[1;33mBranch info:\x1b[0m\n"@ + b + "\n\n"@,
                                None => Seq::<char>::empty(),
                            }));
                        }
                        match &data.log_output {
                            Some(log) => {
                                body.append("\x1b[1;33mRecent commits:\x1b[0m\n");
                                let commit_lines = split_lines(log.as_str());
                                let block = indent_lines(&commit_lines, commit_lines.len());
                                proof {
                                    assert(strs_view(commit_lines@).take(
                                        strs_view(commit_lines@).len() as int,
                                    ) =~= lines_v(log@));
                                }
                                body.append(block.as_str());
                                body.append("\n");
                            },
                            None => {},
                        }
                        let ghost b2 = body@;
                        proof {
                            assert(b2 =~= b1 + (match data@.log_output {
                                Some(log) => "\x1b[1;33mRecent commits:\x1b[0m\n"@
                                    + indented_lines_v(lines_v(log)) + "\n"@,
                                None => Seq::<char>::empty(),
                            }));
                        }
                        match &data.status_output {
                            Some(status) => {
                                body.append("\x1b[1;33mWorking directory status:\x1b[0m\n");
                                if status.as_str().unicode_len() == 0 {
                                    body.append("  Clean working directory\n");
                                } else {
                                    let status_lines = split_lines(status.as_str());
                                    let block = indent_lines(&status_lines, 10);
                                    body.append(block.as_str());
                                }
                            },
                            None => {},
                        }
                        proof {
                            assert(body@ =~= b2 + (match data@.status_output {
                                Some(st) => "\x1b[1;33mWorking directory status:\x1b[0m\n"@ + (
                                if st.len() == 0 {
                                    "  Clean working directory\n"@
                                } else {
                                    indented_lines_v(
                                        lines_v(st).take(
                                            if lines_v(st).len() <= 10 {
                                                lines_v(st).len() as int
                                            } else {
                                                10
                                            },
                                        ),
                                    )
                                }),
                                None => Seq::<char>::empty(),
                            }));
                        }
                        s.append(body.as_str());
                        proof {
                            assert(s@ =~= worktree_preview_v(
                                session_name@,
                                metadata@,
                                env@,
                                data@,
                            ));
                        }
                    },
                    None => {
                        s.append("Worktree path does not exist\n");
                        proof {
                            assert(s@ =~= worktree_preview_v(
                                session_name@,
                                metadata@,
                                env@,
                                data@,
                            ));
                        }
                    },
                }
                Ok(s)
            },
        }
    }

    /// Legend lines for this source's display icons.
    pub fn get_help_text(&self) -> (r: Vec<String>)
        ensures
            strs_view(r@) =~= seq![
                "\x1b[0;34m●\x1b[0m - Active worktree session (blue)"@,
                "\x1b[0;34m○\x1b[0m - Inactive worktree (blue outline)"@,
            ],
    {
        let mut v: Vec<String> = Vec::new();
        v.push("\x1b[0;34m●\x1b[0m - Active worktree session (blue)".to_owned());
        v.push("\x1b[0;34m○\x1b[0m - Inactive worktree (blue outline)".to_owned());
        v
    }
}

} // verus!
