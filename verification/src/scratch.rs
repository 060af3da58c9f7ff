//! The scratch source: one record per live session matching the throwaway
//! naming convention, always shown last.
use vstd::prelude::*;

use crate::session::{
    CtxV, EnvSnapshot, ItemV, MetaV, SessionContext, SessionItem, SessionMetadata, first_with_name,
    items_view,
};
use crate::traits::{PreviewData, PreviewDataV, SwitchPlan, capture_block_v, enter_plan_v};
use crate::{ErrV, SessionError};
use crate::strutil::{dec_str, str_eq, strs_view, u32_to_string};

verus! {

/// Source of scratch/temporary sessions.
#[derive(Debug, Clone)]
pub struct ScratchPlugin {}

/// Metadata `resolve` recomputes for a name this source owns.
pub open spec fn scratch_resolve_v(name: Seq<char>, ctx: CtxV) -> MetaV {
    if ctx.has_session(name) {
        MetaV {
            session_type: "scratch"@,
            path: ctx.session_path(name),
            exists: true,
            props: Seq::empty(),
        }
    } else {
        MetaV { session_type: "scratch"@, path: None, exists: false, props: Seq::empty() }
    }
}

/// The record discovered for one scratch session name: always active, with
/// the live session's last-used time when the raw list has it.
pub open spec fn scratch_item_v(name: Seq<char>, ctx: CtxV, now: i64) -> ItemV {
    ItemV {
        name,
        plugin_name: "scratch"@,
        priority: 999,
        timestamp: match first_with_name(ctx.all_tmux_sessions, name) {
            Some(t) => t.last_attached,
            None => now,
        },
        is_current: ctx.current_session == Some(name),
        is_active: true,
        metadata: MetaV { session_type: "scratch"@, path: None, exists: true, props: Seq::empty() },
    }
}

/// What the preview pane shows for this source: a placeholder for a scratch
/// session that is not live, otherwise a header with the window count
/// followed by the captured pane content; without a window count the
/// preview fails.
pub open spec fn scratch_preview_v(name: Seq<char>, meta: MetaV, data: PreviewDataV) -> Result<
    Seq<char>,
    ErrV,
> {
    if !meta.exists {
        Ok(
            "\x1b[1;33m󱗽 Scratch Session: "@ + name
                + "\x1b[0m\n\nThis session will be created when selected."@,
        )
    } else {
        match data.windows {
            None => Err(ErrV::ExternalToolFailure("Could not get session info for: "@ + name)),
            Some(w) => Ok(
                "\x1b[1;33m󱗽 "@ + name + "\x1b[0m (\x1b[1;33m"@ + dec_str(w as int)
                    + " windows\x1b[0m)\n"@ + capture_block_v(data),
            ),
        }
    }
}

pub open spec fn scratch_discover_rec(names: Seq<Seq<char>>, ctx: CtxV, now: i64) -> Seq<ItemV>
    decreases names.len(),
{
    if names.len() == 0 {
        Seq::empty()
    } else {
        scratch_discover_rec(names.drop_last(), ctx, now) + seq![
            scratch_item_v(names.last(), ctx, now),
        ]
    }
}

/// What this source discovers: one record per scratch session name, in the
/// context's order.
pub open spec fn scratch_discover_v(ctx: CtxV, now: i64) -> Seq<ItemV> {
    scratch_discover_rec(ctx.scratch_sessions, ctx, now)
}

impl ScratchPlugin {
    pub fn new() -> (r: ScratchPlugin) {
        ScratchPlugin {  }
    }

    pub fn name(&self) -> (r: &str)
        ensures
            r@ == "scratch"@,
    {
        "scratch"
    }

    pub fn description(&self) -> (r: &str)
        ensures
            r@ == "Scratch/temporary sessions"@,
    {
        "Scratch/temporary sessions"
    }

    pub fn priority(&self) -> (r: u32)
        ensures
            r == 999,
    {
        999
    }

    pub fn dependencies(&self) -> (r: Vec<String>)
        ensures
            strs_view(r@) =~= seq!["tmux"@],
    {
        let mut v: Vec<String> = Vec::new();
        v.push("tmux".to_owned());
        v
    }

    /// One record per scratch session, marked active, timestamped from the
    /// matching raw session when present.
    pub fn discover(&self, context: &SessionContext, env: &EnvSnapshot) -> (r: Vec<SessionItem>)
        ensures
            items_view(r@) == scratch_discover_v(context@, env@.now),
    {
        let mut sessions: Vec<SessionItem> = Vec::new();
        let mut i: usize = 0;
        proof {
            assert(items_view(sessions@) =~= scratch_discover_rec(
                context@.scratch_sessions.take(0),
                context@,
                env@.now,
            ));
        }
        while i < context.scratch_sessions.len()
            invariant
                i <= context.scratch_sessions@.len(),
                context@.scratch_sessions.len() == context.scratch_sessions@.len(),
                items_view(sessions@) == scratch_discover_rec(
                    context@.scratch_sessions.take(i as int),
                    context@,
                    env@.now,
                ),
            decreases context.scratch_sessions@.len() - i,
        {
            let session_name = &context.scratch_sessions[i];
            let is_current = match &context.current_session {
                Some(current) => str_eq(session_name.as_str(), current.as_str()),
                None => false,
            };
            let metadata = SessionMetadata::new("scratch".to_owned()).with_exists(true);
            let mut item = SessionItem::new(
                session_name.clone(),
                "scratch".to_owned(),
                self.priority(),
                metadata,
                env.now,
            ).with_current(is_current).with_active(true);
            match context.find_session(session_name.as_str()) {
                Some(t) => {
                    item = item.with_timestamp(t.last_attached);
                },
                None => {},
            }
            proof {
                assert(item@.metadata.props =~= Seq::<(Seq<char>, Seq<char>)>::empty());
                assert(item@ == scratch_item_v(
                    context@.scratch_sessions[i as int],
                    context@,
                    env@.now,
                ));
                assert(context@.scratch_sessions.take(i as int + 1).drop_last()
                    =~= context@.scratch_sessions.take(i as int));
                assert(context@.scratch_sessions.take(i as int + 1).last()
                    == context@.scratch_sessions[i as int]);
                assert(items_view(sessions@.push(item)) =~= items_view(sessions@).push(item@));
            }
            sessions.push(item);
            i += 1;
        }
        proof {
            assert(context@.scratch_sessions.take(context@.scratch_sessions.len() as int)
                =~= context@.scratch_sessions);
        }
        sessions
    }

    /// Fresh metadata for a name this source owns; never fails.
    pub fn resolve(&self, session_name: &str, context: &SessionContext, _env: &EnvSnapshot) -> (r:
        Result<SessionMetadata, SessionError>)
        ensures
            r matches Ok(m) && m@ == scratch_resolve_v(session_name@, context@),
    {
        match context.find_session(session_name) {
            Some(t) => {
                let mut metadata = SessionMetadata::new("scratch".to_owned()).with_exists(true);
                match &t.current_path {
                    Some(p) => {
                        metadata = metadata.with_path(p.clone());
                    },
                    None => {},
                }
                proof {
                    assert(metadata@.props =~= Seq::<(Seq<char>, Seq<char>)>::empty());
                }
                Ok(metadata)
            },
            None => {
                let metadata = SessionMetadata::new("scratch".to_owned()).with_exists(false);
                proof {
                    assert(metadata@.props =~= Seq::<(Seq<char>, Seq<char>)>::empty());
                }
                Ok(metadata)
            },
        }
    }

    /// Ownership test: this source falls back to `resolve`, which never
    /// fails, so it accepts every name.
    pub fn can_handle(&self, session_name: &str, context: &SessionContext, env: &EnvSnapshot) -> (r:
        bool)
        ensures
            r,
    {
        self.resolve(session_name, context, env).is_ok()
    }

    /// Entering the session: switch the client inside the multiplexer,
    /// attach outside it.
    pub fn switch(&self, session_name: &str, _metadata: &SessionMetadata, env: &EnvSnapshot) -> (r:
        Result<SwitchPlan, SessionError>)
        ensures
            r matches Ok(p) && p@ == enter_plan_v(session_name@, env@),
    {
        Ok(SwitchPlan::Enter { session: session_name.to_owned(), attach: !env.inside_tmux })
    }

    /// Render the preview pane text: a scratch-icon header with the window
    /// count, then the captured pane content.
    pub fn preview(&self, session_name: &str, metadata: &SessionMetadata, data: &PreviewData) -> (r:
        Result<String, SessionError>)
        ensures
            match r {
                Ok(s) => scratch_preview_v(session_name@, metadata@, data@) == Ok::<
                    Seq<char>,
                    ErrV,
                >(s@),
                Err(e) => scratch_preview_v(session_name@, metadata@, data@) == Err::<
                    Seq<char>,
                    ErrV,
                >(e@),
            },
    {
        if !metadata.exists {
            let mut s = String::new();
            s.append("\x1b[1;33m󱗽 Scratch Session: ");
            s.append(session_name);
            s.append("\x1b[0m\n\nThis session will be created when selected.");
            return Ok(s);
        }
        let windows = match data.windows {
            Some(w) => w,
            None => {
                return Err(
                    SessionError::tool_failure("Could not get session info for: ", session_name),
                );
            },
        };
        let wstr = u32_to_string(windows);
        let mut s = String::new();
        s.append("\x1b[1;33m󱗽 ");
        s.append(session_name);
        s.append("\x1b[0m (\x1b[1;33m");
        s.append(wstr.as_str());
        s.append(" windows\x1b[0m)\n");
        s.append("\x1b[0;90m────────────────────────────────────────\x1b[0m\n");
        match &data.captured {
            Some(content) => {
                s.append(content.as_str());
            },
            None => {
                s.append(
                    "\x1b[0;31mCould not capture session content\x1b[0m\nSession may be busy or inaccessible",
                );
            },
        }
        proof {
            assert(s@ =~= "\x1b[1;33m󱗽 "@ + session_name@ + "\x1b[0m (\x1b[1;33m"@ + dec_str(
                windows as int,
            ) + " windows\x1b[0m)\n"@ + capture_block_v(data@));
        }
        Ok(s)
    }

    /// Legend lines for this source's display icon.
    pub fn get_help_text(&self) -> (r: Vec<String>)
        ensures
            strs_view(r@) =~= seq!["\x1b[1;32m󱗽\x1b[0m - Scratch session (green when active)"@],
    {
        let mut v: Vec<String> = Vec::new();
        v.push("\x1b[1;32m󱗽\x1b[0m - Scratch session (green when active)".to_owned());
        v
    }
}

} // verus!
