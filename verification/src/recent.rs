//! The most-recent source: offers at most one record, the most recently used
//! session other than the current one.
use vstd::prelude::*;

use crate::session::{
    CtxV, EnvSnapshot, ItemV, MetaV, SessionContext, SessionItem, SessionMetadata, items_view,
};
use crate::traits::{
    PreviewData, PreviewDataV, SwitchPlan, capture_block_v, enter_plan_v, not_active_v,
};
use crate::{ErrV, SessionError};
use crate::strutil::{dec_str, str_eq, strs_view, u32_to_string};

verus! {

/// Source of the single most recently used non-current session.
#[derive(Debug, Clone)]
pub struct RecentPlugin {}

/// What `resolve` returns: for the one name this source owns — the head of
/// the active list — existence and working directory straight from the
/// context snapshot; any other name fails with `NotFound`.
pub open spec fn recent_resolve_v(name: Seq<char>, ctx: CtxV) -> Result<MetaV, ErrV> {
    if !recent_can_handle_v(name, ctx) {
        Err(ErrV::NotFound("Not the most recent session: "@ + name))
    } else if ctx.has_session(name) {
        Ok(
            MetaV {
                session_type: "recent"@,
                path: ctx.session_path(name),
                exists: true,
                props: Seq::empty(),
            },
        )
    } else {
        Ok(MetaV { session_type: "recent"@, path: None, exists: false, props: Seq::empty() })
    }
}

/// What this source discovers: the head of the active list, unless it is the
/// current session; stamped with that session's last-used time from the
/// snapshot, falling back to the discovery time.
pub open spec fn recent_discover_v(ctx: CtxV, now: i64) -> Seq<ItemV> {
    if ctx.active_sessions.len() > 0 && Some(ctx.active_sessions[0]) != ctx.current_session {
        seq![
            ItemV {
                name: ctx.active_sessions[0],
                plugin_name: "recent"@,
                priority: 0,
                timestamp: match crate::session::first_with_name(
                    ctx.all_tmux_sessions,
                    ctx.active_sessions[0],
                ) {
                    Some(t) => t.last_attached,
                    None => now,
                },
                is_current: false,
                is_active: false,
                metadata: MetaV {
                    session_type: "recent"@,
                    path: None,
                    exists: true,
                    props: Seq::empty(),
                },
            },
        ]
    } else {
        Seq::empty()
    }
}

/// What the preview pane shows for this source: a placeholder for a session
/// that is not live, otherwise a header with the window count followed by
/// the captured pane content; without a window count the preview fails.
pub open spec fn recent_preview_v(name: Seq<char>, meta: MetaV, data: PreviewDataV) -> Result<
    Seq<char>,
    ErrV,
> {
    if !meta.exists {
        Ok(not_active_v(name))
    } else {
        match data.windows {
            None => Err(ErrV::ExternalToolFailure("Could not get session info for: "@ + name)),
            Some(w) => Ok(
                "\x1b[1;33m★ "@ + name + "\x1b[0m (\x1b[1;33m"@ + dec_str(w as int)
                    + " windows\x1b[0m) \x1b[0;90m[most recent]\x1b[0m\n"@ + capture_block_v(data),
            ),
        }
    }
}

/// This source owns exactly the head of the active list.
pub open spec fn recent_can_handle_v(name: Seq<char>, ctx: CtxV) -> bool {
    ctx.active_sessions.len() > 0 && ctx.active_sessions[0] == name
}

impl RecentPlugin {
    pub fn new() -> (r: RecentPlugin) {
        RecentPlugin {  }
    }

    pub fn name(&self) -> (r: &str)
        ensures
            r@ == "recent"@,
    {
        "recent"
    }

    pub fn description(&self) -> (r: &str)
        ensures
            r@ == "Most recent active session"@,
    {
        "Most recent active session"
    }

    pub fn priority(&self) -> (r: u32)
        ensures
            r == 0,
    {
        0
    }

    pub fn dependencies(&self) -> (r: Vec<String>)
        ensures
            strs_view(r@) =~= seq!["tmux"@],
    {
        let mut v: Vec<String> = Vec::new();
        v.push("tmux".to_owned());
        v
    }

    /// At most one candidate: the most recently used non-current session.
    pub fn discover(&self, context: &SessionContext, env: &EnvSnapshot) -> (r: Vec<SessionItem>)
        ensures
            items_view(r@) == recent_discover_v(context@, env@.now),
    {
        let mut sessions: Vec<SessionItem> = Vec::new();
        proof {
            assert(items_view(sessions@) =~= Seq::<ItemV>::empty());
        }
        if context.active_sessions.len() > 0 {
            let most_recent = &context.active_sessions[0];
            let skip = match &context.current_session {
                Some(current) => str_eq(most_recent.as_str(), current.as_str()),
                None => false,
            };
            if !skip {
                let metadata = SessionMetadata::new("recent".to_owned()).with_exists(true);
                let mut item = SessionItem::new(
                    most_recent.clone(),
                    "recent".to_owned(),
                    self.priority(),
                    metadata,
                    env.now,
                );
                match context.find_session(most_recent.as_str()) {
                    Some(t) => {
                        item = item.with_timestamp(t.last_attached);
                    },
                    None => {},
                }
                proof {
                    assert(items_view(sessions@.push(item)) =~= items_view(sessions@).push(item@));
                    assert(item@.metadata.props =~= Seq::<(Seq<char>, Seq<char>)>::empty());
                    assert(items_view(sessions@).push(item@) =~= recent_discover_v(
                        context@,
                        env@.now,
                    ));
                }
                sessions.push(item);
            }
        }
        sessions
    }

    /// Fresh metadata for the one name this source owns — the head of the
    /// active list; any other name fails with `NotFound`.
    pub fn resolve(&self, session_name: &str, context: &SessionContext, _env: &EnvSnapshot) -> (r:
        Result<SessionMetadata, SessionError>)
        ensures
            match r {
                Ok(m) => recent_resolve_v(session_name@, context@) == Ok::<MetaV, ErrV>(m@),
                Err(e) => recent_resolve_v(session_name@, context@) == Err::<MetaV, ErrV>(e@),
            },
    {
        if !self.can_handle(session_name, context) {
            return Err(
                SessionError::not_found("Not the most recent session: ", session_name),
            );
        }
        match context.find_session(session_name) {
            Some(t) => {
                let mut metadata = SessionMetadata::new("recent".to_owned()).with_exists(true);
                match &t.current_path {
                    Some(p) => {
                        metadata = metadata.with_path(p.clone());
                    },
                    None => {},
                }
                proof {
                    assert(metadata@.props =~= Seq::<(Seq<char>, Seq<char>)>::empty());
                }
                Ok(metadata)
            },
            None => {
                let metadata = SessionMetadata::new("recent".to_owned()).with_exists(false);
                proof {
                    assert(metadata@.props =~= Seq::<(Seq<char>, Seq<char>)>::empty());
                }
                Ok(metadata)
            },
        }
    }

    /// Ownership test: only the head of the active list.
    pub fn can_handle(&self, session_name: &str, context: &SessionContext) -> (r: bool)
        ensures
            r == recent_can_handle_v(session_name@, context@),
    {
        if context.active_sessions.len() > 0 {
            str_eq(context.active_sessions[0].as_str(), session_name)
        } else {
            false
        }
    }

    /// Entering the session: switch the client inside the multiplexer,
    /// attach outside it.
    pub fn switch(&self, session_name: &str, _metadata: &SessionMetadata, env: &EnvSnapshot) -> (r:
        Result<SwitchPlan, SessionError>)
        ensures
            r matches Ok(p) && p@ == enter_plan_v(session_name@, env@),
    {
        Ok(SwitchPlan::Enter { session: session_name.to_owned(), attach: !env.inside_tmux })
    }

    /// Render the preview pane text: a yellow-starred header with the
    /// window count, then the captured pane content.
    pub fn preview(&self, session_name: &str, metadata: &SessionMetadata, data: &PreviewData) -> (r:
        Result<String, SessionError>)
        ensures
            match r {
                Ok(s) => recent_preview_v(session_name@, metadata@, data@) == Ok::<
                    Seq<char>,
                    ErrV,
                >(s@),
                Err(e) => recent_preview_v(session_name@, metadata@, data@) == Err::<
                    Seq<char>,
                    ErrV,
                >(e@),
            },
    {
        if !metadata.exists {
            let mut s = String::new();
            s.append("\x1b[0;31mSession '");
            s.append(session_name);
            s.append("' is not active\x1b[0m\n\nThis session will be created when selected.");
            return Ok(s);
        }
        let windows = match data.windows {
            Some(w) => w,
            None => {
                return Err(
                    SessionError::tool_failure("Could not get session info for: ", session_name),
                );
            },
        };
        let wstr = u32_to_string(windows);
        let mut s = String::new();
        s.append("\x1b[1;33m★ ");
        s.append(session_name);
        s.append("\x1b[0m (\x1b[1;33m");
        s.append(wstr.as_str());
        s.append(" windows\x1b[0m) \x1b[0;90m[most recent]\x1b[0m\n");
        s.append("\x1b[0;90m────────────────────────────────────────\x1b[0m\n");
        match &data.captured {
            Some(content) => {
                s.append(content.as_str());
            },
            None => {
                s.append(
                    "\x1b[0;31mCould not capture session content\x1b[0m\nSession may be busy or inaccessible",
                );
            },
        }
        proof {
            assert(s@ =~= "\x1b[1;33m★ "@ + session_name@ + "\x1b[0m (\x1b[1;33m"@ + dec_str(
                windows as int,
            ) + " windows\x1b[0m) \x1b[0;90m[most recent]\x1b[0m\n"@ + capture_block_v(data@));
        }
        Ok(s)
    }

    /// Legend lines for this source's display icon.
    pub fn get_help_text(&self) -> (r: Vec<String>)
        ensures
            strs_view(r@) =~= seq!["\x1b[1;33m★\x1b[0m - Most recent session"@],
    {
        let mut v: Vec<String> = Vec::new();
        v.push("\x1b[1;33m★\x1b[0m - Most recent session".to_owned());
        v
    }
}

} // verus!
