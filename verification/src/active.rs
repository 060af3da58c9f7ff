//! The active source: one record per live non-current session, plus the
//! current session itself unless it matches the scratch naming convention.
//!
//! Ownership is disambiguated against the worktree source: a session whose
//! working directory is a worktree checkout belongs to the worktree source,
//! not to this one.
use vstd::prelude::*;

use crate::session::{
    CtxV, EnvSnapshot, EnvV, ItemV, MetaV, RepoKind, SessionContext, SessionItem, SessionMetadata,
    items_view,
};
use crate::traits::{
    PreviewData, PreviewDataV, SwitchPlan, capture_block_v, enter_plan_v, not_active_v,
};
use crate::{ErrV, SessionError};
use crate::strutil::{
    contains_str_seq, contains_substr, dec_str, has_substr, str_eq, strs_view, u32_to_string,
    vec_contains_str,
};

verus! {

/// Source of currently live multiplexer sessions.
#[derive(Debug, Clone)]
pub struct ActivePlugin {}

/// The `in_worktree` property recorded by `resolve` for a session at `path`:
/// present and true for a worktree checkout, absent for a main checkout
/// (whose marker is not a readable file), present and false otherwise.
pub open spec fn in_worktree_props(path: Seq<char>, env: EnvV) -> Seq<(Seq<char>, Seq<char>)> {
    match env.path_kind(path) {
        Some(RepoKind::WorktreeCheckout) => seq![("in_worktree"@, "true"@)],
        Some(RepoKind::MainCheckout) => Seq::empty(),
        _ => seq![("in_worktree"@, "false"@)],
    }
}

/// What `resolve` returns: fresh metadata for a live session, a `NotFound`
/// error for a name with no live session.
pub open spec fn active_resolve_v(name: Seq<char>, ctx: CtxV, env: EnvV) -> Result<MetaV, ErrV> {
    if ctx.has_session(name) {
        match ctx.session_path(name) {
            Some(p) => Ok(
                MetaV {
                    session_type: "active"@,
                    path: Some(p),
                    exists: true,
                    props: in_worktree_props(p, env),
                },
            ),
            None => Ok(
                MetaV { session_type: "active"@, path: None, exists: true, props: Seq::empty() },
            ),
        }
    } else {
        Err(ErrV::NotFound("Session not found: "@ + name))
    }
}

/// The record discovered for one live session: stamped with the session's
/// last-used time from the snapshot, falling back to the discovery time.
pub open spec fn active_item_v(name: Seq<char>, ctx: CtxV, now: i64, is_current: bool) -> ItemV {
    ItemV {
        name,
        plugin_name: "active"@,
        priority: 10,
        timestamp: match crate::session::first_with_name(ctx.all_tmux_sessions, name) {
            Some(t) => t.last_attached,
            None => now,
        },
        is_current,
        is_active: false,
        metadata: MetaV { session_type: "active"@, path: None, exists: true, props: Seq::empty() },
    }
}

pub open spec fn active_discover_rec(names: Seq<Seq<char>>, ctx: CtxV, now: i64) -> Seq<ItemV>
    decreases names.len(),
{
    if names.len() == 0 {
        Seq::empty()
    } else {
        active_discover_rec(names.drop_last(), ctx, now) + (if Some(names.last())
            == ctx.current_session {
            Seq::empty()
        } else {
            seq![active_item_v(names.last(), ctx, now, false)]
        })
    }
}

/// What this source discovers: every active session except the current one,
/// then the current session itself unless its name contains "scratch".
pub open spec fn active_discover_v(ctx: CtxV, now: i64) -> Seq<ItemV> {
    active_discover_rec(ctx.active_sessions, ctx, now) + (
    match ctx.current_session {
        Some(c) => if !has_substr(c, "scratch"@) {
            seq![active_item_v(c, ctx, now, true)]
        } else {
            Seq::empty()
        },
        None => Seq::empty(),
    })
}

/// What the preview pane shows for this source: a placeholder for a session
/// that is not live, otherwise a header with the window count followed by
/// the captured pane content; without a window count the preview fails.
pub open spec fn active_preview_v(name: Seq<char>, meta: MetaV, data: PreviewDataV) -> Result<
    Seq<char>,
    ErrV,
> {
    if !meta.exists {
        Ok(not_active_v(name))
    } else {
        match data.windows {
            None => Err(ErrV::ExternalToolFailure("Could not get session info for: "@ + name)),
            Some(w) => Ok(
                "\x1b[1;32m● "@ + name + "\x1b[0m (\x1b[1;33m"@ + dec_str(w as int)
                    + " windows\x1b[0m)\n"@ + capture_block_v(data),
            ),
        }
    }
}

/// Ownership test: the name is live (active or current), and its working
/// directory is not a worktree checkout — those belong to the worktree
/// source.
pub open spec fn active_can_handle_v(name: Seq<char>, ctx: CtxV, env: EnvV) -> bool {
    let relevant = contains_str_seq(ctx.active_sessions, name) || ctx.current_session == Some(
        name,
    );
    relevant && !(ctx.has_session(name) && match ctx.session_path(name) {
        Some(p) => env.is_worktree_path(p),
        None => false,
    })
}

impl ActivePlugin {
    pub fn new() -> (r: ActivePlugin) {
        ActivePlugin {  }
    }

    pub fn name(&self) -> (r: &str)
        ensures
            r@ == "active"@,
    {
        "active"
    }

    pub fn description(&self) -> (r: &str)
        ensures
            r@ == "Currently active tmux sessions"@,
    {
        "Currently active tmux sessions"
    }

    pub fn priority(&self) -> (r: u32)
        ensures
            r == 10,
    {
        10
    }

    pub fn dependencies(&self) -> (r: Vec<String>)
        ensures
            strs_view(r@) =~= seq!["tmux"@],
    {
        let mut v: Vec<String> = Vec::new();
        v.push("tmux".to_owned());
        v
    }

    /// Every active session except the current one, then the current session
    /// unless it is a scratch session.
    pub fn discover(&self, context: &SessionContext, env: &EnvSnapshot) -> (r: Vec<SessionItem>)
        ensures
            items_view(r@) == active_discover_v(context@, env@.now),
    {
        let mut sessions: Vec<SessionItem> = Vec::new();
        let mut i: usize = 0;
        proof {
            assert(items_view(sessions@) =~= active_discover_rec(
                context@.active_sessions.take(0),
                context@,
                env@.now,
            ));
        }
        while i < context.active_sessions.len()
            invariant
                i <= context.active_sessions@.len(),
                context@.active_sessions.len() == context.active_sessions@.len(),
                items_view(sessions@) == active_discover_rec(
                    context@.active_sessions.take(i as int),
                    context@,
                    env@.now,
                ),
            decreases context.active_sessions@.len() - i,
        {
            let session_name = &context.active_sessions[i];
            let is_current = match &context.current_session {
                Some(current) => str_eq(session_name.as_str(), current.as_str()),
                None => false,
            };
            proof {
                assert(context@.active_sessions.take(i as int + 1).drop_last()
                    =~= context@.active_sessions.take(i as int));
                assert(context@.active_sessions.take(i as int + 1).last()
                    == context@.active_sessions[i as int]);
            }
            if !is_current {
                let metadata = SessionMetadata::new("active".to_owned()).with_exists(true);
                let mut item = SessionItem::new(
                    session_name.clone(),
                    "active".to_owned(),
                    self.priority(),
                    metadata,
                    env.now,
                );
                match context.find_session(session_name.as_str()) {
                    Some(t) => {
                        item = item.with_timestamp(t.last_attached);
                    },
                    None => {},
                }
                proof {
                    assert(item@.metadata.props =~= Seq::<(Seq<char>, Seq<char>)>::empty());
                    assert(item@ == active_item_v(
                        context@.active_sessions[i as int],
                        context@,
                        env@.now,
                        false,
                    ));
                    assert(items_view(sessions@.push(item)) =~= items_view(sessions@).push(item@));
                }
                sessions.push(item);
            }
            i += 1;
        }
        proof {
            assert(context@.active_sessions.take(context@.active_sessions.len() as int)
                =~= context@.active_sessions);
        }
        match &context.current_session {
            Some(current) => {
                if !contains_substr(current.as_str(), "scratch") {
                    let metadata = SessionMetadata::new("active".to_owned()).with_exists(true);
                    let mut item = SessionItem::new(
                        current.clone(),
                        "active".to_owned(),
                        self.priority(),
                        metadata,
                        env.now,
                    ).with_current(true);
                    match context.find_session(current.as_str()) {
                        Some(t) => {
                            item = item.with_timestamp(t.last_attached);
                        },
                        None => {},
                    }
                    proof {
                        assert(item@.metadata.props =~= Seq::<(Seq<char>, Seq<char>)>::empty());
                        assert(items_view(sessions@.push(item)) =~= items_view(sessions@).push(
                            item@,
                        ));
                    }
                    sessions.push(item);
                }
            },
            None => {},
        }
        sessions
    }

    /// Fresh metadata for a live session, including whether its working
    /// directory sits in a worktree; a name with no live session is not
    /// owned by this source and fails with `NotFound`.
    pub fn resolve(&self, session_name: &str, context: &SessionContext, env: &EnvSnapshot) -> (r:
        Result<SessionMetadata, SessionError>)
        ensures
            match r {
                Ok(m) => active_resolve_v(session_name@, context@, env@) == Ok::<MetaV, ErrV>(m@),
                Err(e) => active_resolve_v(session_name@, context@, env@) == Err::<MetaV, ErrV>(
                    e@,
                ),
            },
    {
        let found_path: Option<String> = match context.find_session(session_name) {
            Some(t) => match &t.current_path {
                Some(p) => Some(p.clone()),
                None => None,
            },
            None => {
                return Err(SessionError::not_found("Session not found: ", session_name));
            },
        };
        let mut metadata = SessionMetadata::new("active".to_owned()).with_exists(true);
        match found_path {
            Some(path) => {
                metadata = metadata.with_path(path.clone());
                match env.path_kind(path.as_str()) {
                    Some(RepoKind::WorktreeCheckout) => {
                        metadata = metadata.with_property(
                            "in_worktree".to_owned(),
                            "true".to_owned(),
                        );
                    },
                    Some(RepoKind::MainCheckout) => {},
                    _ => {
                        metadata = metadata.with_property(
                            "in_worktree".to_owned(),
                            "false".to_owned(),
                        );
                    },
                }
                proof {
                    assert(metadata@.props =~= in_worktree_props(path@, env@));
                }
                Ok(metadata)
            },
            None => {
                proof {
                    assert(metadata@.props =~= Seq::<(Seq<char>, Seq<char>)>::empty());
                }
                Ok(metadata)
            },
        }
    }

    /// Ownership test: live sessions that are not worktree checkouts.
    pub fn can_handle(&self, session_name: &str, context: &SessionContext, env: &EnvSnapshot) -> (r:
        bool)
        ensures
            r == active_can_handle_v(session_name@, context@, env@),
    {
        let is_active = vec_contains_str(&context.active_sessions, session_name);
        let is_current = match &context.current_session {
            Some(current) => str_eq(session_name, current.as_str()),
            None => false,
        };
        if is_active || is_current {
            match context.find_session(session_name) {
                Some(t) => match &t.current_path {
                    Some(p) => {
                        match env.path_kind(p.as_str()) {
                            Some(RepoKind::WorktreeCheckout) => false,
                            _ => true,
                        }
                    },
                    None => true,
                },
                None => true,
            }
        } else {
            false
        }
    }

    /// Entering the session: switch the client inside the multiplexer,
    /// attach outside it.
    pub fn switch(&self, session_name: &str, _metadata: &SessionMetadata, env: &EnvSnapshot) -> (r:
        Result<SwitchPlan, SessionError>)
        ensures
            r matches Ok(p) && p@ == enter_plan_v(session_name@, env@),
    {
        Ok(SwitchPlan::Enter { session: session_name.to_owned(), attach: !env.inside_tmux })
    }

    /// Render the preview pane text: a green-dotted header with the window
    /// count, then the captured pane content.
    pub fn preview(&self, session_name: &str, metadata: &SessionMetadata, data: &PreviewData) -> (r:
        Result<String, SessionError>)
        ensures
            match r {
                Ok(s) => active_preview_v(session_name@, metadata@, data@) == Ok::<
                    Seq<char>,
                    ErrV,
                >(s@),
                Err(e) => active_preview_v(session_name@, metadata@, data@) == Err::<
                    Seq<char>,
                    ErrV,
                >(e@),
            },
    {
        if !metadata.exists {
            let mut s = String::new();
            s.append("\x1b[0;31mSession '");
            s.append(session_name);
            s.append("' is not active\x1b[0m\n\nThis session will be created when selected.");
            return Ok(s);
        }
        let windows = match data.windows {
            Some(w) => w,
            None => {
                return Err(
                    SessionError::tool_failure("Could not get session info for: ", session_name),
                );
            },
        };
        let wstr = u32_to_string(windows);
        let mut s = String::new();
        s.append("\x1b[1;32m● ");
        s.append(session_name);
        s.append("\x1b[0m (\x1b[1;33m");
        s.append(wstr.as_str());
        s.append(" windows\x1b[0m)\n");
        s.append("\x1b[0;90m────────────────────────────────────────\x1b[0m\n");
        match &data.captured {
            Some(content) => {
                s.append(content.as_str());
            },
            None => {
                s.append(
                    "\x1b[0;31mCould not capture session content\x1b[0m\nSession may be busy or inaccessible",
                );
            },
        }
        proof {
            assert(s@ =~= "\x1b[1;32m● "@ + session_name@ + "\x1b[0m (\x1b[1;33m"@ + dec_str(
                windows as int,
            ) + " windows\x1b[0m)\n"@ + capture_block_v(data@));
        }
        Ok(s)
    }

    /// Legend lines for this source's display icons.
    pub fn get_help_text(&self) -> (r: Vec<String>)
        ensures
            strs_view(r@) =~= seq![
                "\x1b[1;32m●\x1b[0m - Active session (green)"@,
                "\x1b[1;32m→\x1b[0m - Current session"@,
            ],
    {
        let mut v: Vec<String> = Vec::new();
        v.push("\x1b[1;32m●\x1b[0m - Active session (green)".to_owned());
        v.push("\x1b[1;32m→\x1b[0m - Current session".to_owned());
        v
    }
}

} // verus!
