//! The saved-project-config source: one record per project definition file
//! found in the configuration directories, cross-referenced against live
//! sessions; a definition can be materialized attached (switch) or detached
//! (start) via the external project tool.
use vstd::prelude::*;

use crate::config::{config_dir_path, home_dir_path};
use crate::session::{
    CtxV, EnvSnapshot, EnvV, ItemV, MetaV, SessionContext, SessionItem, SessionMetadata,
    first_with_name, items_view,
};
use crate::traits::{PlanV, PreviewData, PreviewDataV, SwitchPlan, enter_plan_v};
use crate::{ErrV, SessionError};
use crate::strutil::{
    dec_str, ends_with, find_char_from, indent_lines, indented_lines_v, index_of_char, is_prefix,
    is_suffix, join_strings, join_v, last_component_v, last_path_component, lines_v, opt_str_view,
    pairs_view, split_lines, starts_with, str_eq, strs_view, trim_char, trim_char_v,
    trim_start_matches, trim_start_matches_v, trim_v, trim_ws, u32_to_string,
};
use crate::session::prop_lookup;

verus! {

/// Source of sessions defined by saved project configuration files.
#[derive(Debug, Clone)]
pub struct TmuxinatorPlugin {
    /// Directories scanned for project definition files; the scan itself is
    /// the caller's I/O, its results arrive in the environment snapshot.
    pub config_dirs: Vec<String>,
}

/// The (project name, file path) pair a definition file contributes: files
/// named `*.yml` or `*.yaml`, the name being the file name without its
/// extension.
pub open spec fn config_entry(f: Seq<char>) -> Option<(Seq<char>, Seq<char>)> {
    let lc = last_component_v(f);
    if is_suffix(lc, ".yml"@) {
        Some((lc.take(lc.len() - 4), f))
    } else if is_suffix(lc, ".yaml"@) {
        Some((lc.take(lc.len() - 5), f))
    } else {
        None
    }
}

pub open spec fn config_entries(files: Seq<Seq<char>>) -> Seq<(Seq<char>, Seq<char>)>
    decreases files.len(),
{
    if files.len() == 0 {
        Seq::empty()
    } else {
        config_entries(files.drop_last()) + (match config_entry(files.last()) {
            Some(e) => seq![e],
            None => Seq::empty(),
        })
    }
}

/// Path of the first definition whose project name is `name`.
pub open spec fn first_config_for(entries: Seq<(Seq<char>, Seq<char>)>, name: Seq<char>) -> Option<
    Seq<char>,
>
    decreases entries.len(),
{
    if entries.len() == 0 {
        None
    } else if entries[0].0 == name {
        Some(entries[0].1)
    } else {
        first_config_for(entries.drop_first(), name)
    }
}

/// The record discovered for one project definition.
pub open spec fn tmuxinator_item_v(e: (Seq<char>, Seq<char>), ctx: CtxV, now: i64) -> ItemV {
    let is_active = ctx.has_session(e.0);
    ItemV {
        name: e.0,
        plugin_name: "tmuxinator"@,
        priority: 50,
        timestamp: if is_active {
            match first_with_name(ctx.all_tmux_sessions, e.0) {
                Some(t) => t.last_attached,
                None => now,
            }
        } else {
            now
        },
        is_current: ctx.current_session == Some(e.0),
        is_active,
        metadata: MetaV {
            session_type: "tmuxinator"@,
            path: Some(e.1),
            exists: is_active,
            props: seq![("config_path"@, e.1)],
        },
    }
}

pub open spec fn tmuxinator_items_rec(entries: Seq<(Seq<char>, Seq<char>)>, ctx: CtxV, now: i64) -> Seq<
    ItemV,
>
    decreases entries.len(),
{
    if entries.len() == 0 {
        Seq::empty()
    } else {
        tmuxinator_items_rec(entries.drop_last(), ctx, now) + seq![
            tmuxinator_item_v(entries.last(), ctx, now),
        ]
    }
}

/// What this source discovers: nothing when the external project tool is
/// absent, otherwise one record per definition file.
pub open spec fn tmuxinator_discover_v(ctx: CtxV, env: EnvV) -> Seq<ItemV> {
    if env.command_available("tmuxinator"@) {
        tmuxinator_items_rec(config_entries(env.config_files), ctx, env.now)
    } else {
        Seq::empty()
    }
}

/// Metadata `resolve` recomputes: the definition's path and the live state
/// of a session with the project's name, or `NotFound` when no definition
/// has this name.
pub open spec fn tmuxinator_resolve_v(name: Seq<char>, ctx: CtxV, env: EnvV) -> Result<
    MetaV,
    ErrV,
> {
    match first_config_for(config_entries(env.config_files), name) {
        Some(path) => Ok(
            MetaV {
                session_type: "tmuxinator"@,
                path: Some(path),
                exists: ctx.has_session(name),
                props: seq![("config_path"@, path)],
            },
        ),
        None => Err(ErrV::NotFound("Tmuxinator config not found for session: "@ + name)),
    }
}

/// The window name a definition line declares: the line without its list
/// dash, cut at the first colon, trimmed.
pub open spec fn window_name_v(line: Seq<char>) -> Seq<char> {
    let wd = trim_v(trim_start_matches_v(line, "- "@));
    match index_of_char(wd, ':', 0) {
        Some(i) => trim_v(wd.take(i)),
        None => wd,
    }
}

/// Fold of the definition's lines: a `root:` line sets the root directory
/// (quotes trimmed), a list line adds a window name, everything else is
/// passed over.
pub open spec fn summary_state(
    lines: Seq<Seq<char>>,
    root: Option<Seq<char>>,
    ws: Seq<Seq<char>>,
) -> (Option<Seq<char>>, Seq<Seq<char>>)
    decreases lines.len(),
{
    if lines.len() == 0 {
        (root, ws)
    } else {
        let line = trim_v(lines[0]);
        if is_prefix(line, "root:"@) {
            summary_state(
                lines.drop_first(),
                Some(trim_char_v(trim_v(line.skip(5)), '"')),
                ws,
            )
        } else if is_prefix(line, "windows:"@) {
            summary_state(lines.drop_first(), root, ws)
        } else if is_prefix(line, "- "@) {
            summary_state(lines.drop_first(), root, ws.push(window_name_v(line)))
        } else {
            summary_state(lines.drop_first(), root, ws)
        }
    }
}

/// The human-readable summary of a project definition: its root directory
/// and its window names, as far as the minimal reading finds them.
pub open spec fn config_summary_v(content: Seq<char>) -> Seq<char> {
    let st = summary_state(lines_v(content), None, Seq::empty());
    (match st.0 {
        Some(r) => "Root: "@ + r + "\n"@,
        None => Seq::empty(),
    }) + (if st.1.len() > 0 {
        "Windows: "@ + join_v(st.1, ", "@) + "\n"@
    } else {
        Seq::empty()
    })
}

/// What the preview pane shows for this source: the definition's path, a
/// summary of the definition when its contents were read, and whether a
/// live session exists for it.
pub open spec fn tmuxinator_preview_v(name: Seq<char>, meta: MetaV, data: PreviewDataV) -> Seq<
    char,
> {
    let head = "\x1b[0;37m● Tmuxinator: "@ + name + "\x1b[0m\n\n"@;
    match prop_lookup(meta.props, "config_path"@) {
        None => head + "Configuration file not found\n"@,
        Some(path) => head + "\x1b[1;33mConfig file:\x1b[0m\n"@ + path + "\n\n"@ + (
        match data.config_content {
            Some(content) => {
                let summary = config_summary_v(content);
                if summary.len() > 0 {
                    "\x1b[1;33mConfiguration:\x1b[0m\n"@ + indented_lines_v(lines_v(summary))
                        + "\n"@
                } else {
                    Seq::empty()
                }
            },
            None => "Could not read configuration details\n\n"@,
        }) + (if meta.exists {
            "\x1b[1;32mSession is currently active\x1b[0m\n"@ + (match data.windows {
                Some(w) => "Windows: "@ + dec_str(w as int) + "\n"@,
                None => Seq::empty(),
            })
        } else {
            "\x1b[1;33mSession will be started from configuration\x1b[0m\n"@
        }),
    }
}

impl TmuxinatorPlugin {
    /// The default configuration directories: the project tool's spots under
    /// the home and configuration directories, as far as this environment
    /// defines them — at most three, each ending in one of the tool's fixed
    /// directory suffixes.
    pub fn new() -> (r: TmuxinatorPlugin)
        ensures
            r.config_dirs@.len() <= 3,
            forall|i: int|
                0 <= i < r.config_dirs@.len() ==> is_suffix(
                    #[trigger] strs_view(r.config_dirs@)[i],
                    "/.config/tmuxinator"@,
                ) || is_suffix(strs_view(r.config_dirs@)[i], "/.tmuxinator"@) || is_suffix(
                    strs_view(r.config_dirs@)[i],
                    "/tmuxinator"@,
                ),
    {
        let mut config_dirs: Vec<String> = Vec::new();
        match home_dir_path() {
            Some(home) => {
                let mut d1 = home.clone();
                d1.append("/.config/tmuxinator");
                proof {
                    assert(d1@.subrange(
                        d1@.len() - "/.config/tmuxinator"@.len(),
                        d1@.len() as int,
                    ) =~= "/.config/tmuxinator"@);
                }
                config_dirs.push(d1);
                let mut d2 = home;
                d2.append("/.tmuxinator");
                proof {
                    assert(d2@.subrange(d2@.len() - "/.tmuxinator"@.len(), d2@.len() as int)
                        =~= "/.tmuxinator"@);
                }
                config_dirs.push(d2);
            },
            None => {},
        }
        match config_dir_path() {
            Some(cfg) => {
                let mut d3 = cfg;
                d3.append("/tmuxinator");
                proof {
                    assert(d3@.subrange(d3@.len() - "/tmuxinator"@.len(), d3@.len() as int)
                        =~= "/tmuxinator"@);
                }
                config_dirs.push(d3);
            },
            None => {},
        }
        TmuxinatorPlugin { config_dirs }
    }

    pub fn name(&self) -> (r: &str)
        ensures
            r@ == "tmuxinator"@,
    {
        "tmuxinator"
    }

    pub fn description(&self) -> (r: &str)
        ensures
            r@ == "Tmuxinator configuration sessions"@,
    {
        "Tmuxinator configuration sessions"
    }

    pub fn priority(&self) -> (r: u32)
        ensures
            r == 50,
    {
        50
    }

    pub fn dependencies(&self) -> (r: Vec<String>)
        ensures
            strs_view(r@) =~= seq!["tmuxinator"@],
    {
        let mut v: Vec<String> = Vec::new();
        v.push("tmuxinator".to_owned());
        v
    }

    /// Select the project definition files among the observed directory
    /// entries and name each after its file.
    pub fn find_tmuxinator_configs(&self, env: &EnvSnapshot) -> (r: Vec<(String, String)>)
        ensures
            pairs_view(r@) == config_entries(env@.config_files),
    {
        let files = &env.config_files;
        let mut out: Vec<(String, String)> = Vec::new();
        let mut i: usize = 0;
        proof {
            assert(pairs_view(out@) =~= config_entries(env@.config_files.take(0)));
        }
        while i < files.len()
            invariant
                i <= files@.len(),
                env@.config_files.len() == files@.len(),
                env@.config_files == strs_view(files@),
                pairs_view(out@) == config_entries(env@.config_files.take(i as int)),
            decreases files@.len() - i,
        {
            let f = &files[i];
            proof {
                assert(env@.config_files.take(i as int + 1).drop_last() =~= env@.config_files.take(
                    i as int,
                ));
                assert(env@.config_files.take(i as int + 1).last() == f@);
            }
            let lc = last_path_component(f.as_str());
            let lc_len = lc.unicode_len();
            let entry: Option<(String, String)> = if ends_with(lc, ".yml") {
                proof {
                    reveal_strlit(".yml");
                }
                let stem = lc.substring_char(0, lc_len - 4).to_owned();
                proof {
                    assert(stem@ =~= last_component_v(f@).take(last_component_v(f@).len() - 4));
                }
                Some((stem, f.clone()))
            } else if ends_with(lc, ".yaml") {
                proof {
                    reveal_strlit(".yaml");
                }
                let stem = lc.substring_char(0, lc_len - 5).to_owned();
                proof {
                    assert(stem@ =~= last_component_v(f@).take(last_component_v(f@).len() - 5));
                }
                Some((stem, f.clone()))
            } else {
                None
            };
            match entry {
                Some(e) => {
                    let ghost ev = (e.0@, e.1@);
                    proof {
                        assert(pairs_view(out@.push(e)) =~= pairs_view(out@).push(ev));
                    }
                    out.push(e);
                },
                None => {},
            }
            i += 1;
        }
        proof {
            assert(env@.config_files.take(files@.len() as int) =~= env@.config_files);
        }
        out
    }

    /// Nothing when the project tool is unavailable; otherwise one record
    /// per definition file, cross-referenced against live sessions.
    pub fn discover(&self, context: &SessionContext, env: &EnvSnapshot) -> (r: Vec<SessionItem>)
        ensures
            items_view(r@) == tmuxinator_discover_v(context@, env@),
    {
        let mut sessions: Vec<SessionItem> = Vec::new();
        if !env.command_available("tmuxinator") {
            proof {
                assert(items_view(sessions@) =~= Seq::<ItemV>::empty());
            }
            return sessions;
        }
        let configs = self.find_tmuxinator_configs(env);
        let ghost entries = config_entries(env@.config_files);
        let mut i: usize = 0;
        proof {
            assert(items_view(sessions@) =~= tmuxinator_items_rec(
                entries.take(0),
                context@,
                env@.now,
            ));
        }
        while i < configs.len()
            invariant
                i <= configs@.len(),
                entries == config_entries(env@.config_files),
                pairs_view(configs@) == entries,
                entries.len() == configs@.len(),
                items_view(sessions@) == tmuxinator_items_rec(
                    entries.take(i as int),
                    context@,
                    env@.now,
                ),
            decreases configs@.len() - i,
        {
            let config_name = &configs[i].0;
            let config_path = &configs[i].1;
            proof {
                assert(entries.take(i as int + 1).drop_last() =~= entries.take(i as int));
                assert(entries.take(i as int + 1).last() == entries[i as int]);
                assert(entries[i as int] == (config_name@, config_path@));
            }
            let is_active = context.has_session(config_name.as_str());
            let is_current = match &context.current_session {
                Some(current) => str_eq(config_name.as_str(), current.as_str()),
                None => false,
            };
            let metadata = SessionMetadata::new("tmuxinator".to_owned()).with_exists(is_active)
                .with_path(config_path.clone()).with_property(
                "config_path".to_owned(),
                config_path.clone(),
            );
            let mut item = SessionItem::new(
                config_name.clone(),
                "tmuxinator".to_owned(),
                self.priority(),
                metadata,
                env.now,
            ).with_current(is_current).with_active(is_active);
            if is_active {
                match context.find_session(config_name.as_str()) {
                    Some(t) => {
                        item = item.with_timestamp(t.last_attached);
                    },
                    None => {},
                }
            }
            proof {
                assert(item@.metadata.props =~= seq![("config_path"@, config_path@)]);
                assert(item@ == tmuxinator_item_v(entries[i as int], context@, env@.now));
                assert(items_view(sessions@.push(item)) =~= items_view(sessions@).push(item@));
            }
            sessions.push(item);
            i += 1;
        }
        proof {
            assert(entries.take(configs@.len() as int) =~= entries);
        }
        sessions
    }

    /// Fresh metadata for a project name: its definition path and live
    /// state, or `NotFound` when no definition has this name.
    #[verifier::loop_isolation(false)]
    pub fn resolve(&self, session_name: &str, context: &SessionContext, env: &EnvSnapshot) -> (r:
        Result<SessionMetadata, SessionError>)
        ensures
            match r {
                Ok(m) => tmuxinator_resolve_v(session_name@, context@, env@) == Ok::<MetaV, ErrV>(
                    m@,
                ),
                Err(e) => tmuxinator_resolve_v(session_name@, context@, env@) == Err::<
                    MetaV,
                    ErrV,
                >(e@),
            },
    {
        let configs = self.find_tmuxinator_configs(env);
        let ghost entries = config_entries(env@.config_files);
        let mut i: usize = 0;
        proof {
            assert(entries.skip(0) =~= entries);
        }
        while i < configs.len()
            invariant
                i <= configs@.len(),
                first_config_for(entries, session_name@) == first_config_for(
                    entries.skip(i as int),
                    session_name@,
                ),
            decreases configs@.len() - i,
        {
            if str_eq(configs[i].0.as_str(), session_name) {
                let is_active = context.has_session(session_name);
                let metadata = SessionMetadata::new("tmuxinator".to_owned()).with_exists(
                    is_active,
                ).with_path(configs[i].1.clone()).with_property(
                    "config_path".to_owned(),
                    configs[i].1.clone(),
                );
                proof {
                    assert(entries.skip(i as int)[0] == entries[i as int]);
                    assert(metadata@.props =~= seq![("config_path"@, configs@[i as int].1@)]);
                }
                return Ok(metadata);
            }
            proof {
                assert(entries.skip(i as int)[0] == entries[i as int]);
                assert(entries.skip(i as int).drop_first() =~= entries.skip(i as int + 1));
            }
            i += 1;
        }
        proof {
            assert(entries.skip(configs@.len() as int) =~= Seq::<(Seq<char>, Seq<char>)>::empty());
        }
        Err(SessionError::not_found("Tmuxinator config not found for session: ", session_name))
    }

    /// Ownership test: this source falls back to `resolve` succeeding.
    pub fn can_handle(&self, session_name: &str, context: &SessionContext, env: &EnvSnapshot) -> (r:
        bool)
        ensures
            r == (tmuxinator_resolve_v(session_name@, context@, env@) is Ok),
    {
        self.resolve(session_name, context, env).is_ok()
    }

    /// The plan for entering the project's session: enter it when live,
    /// otherwise start the project first and then enter it.
    pub fn switch(&self, session_name: &str, _metadata: &SessionMetadata, context: &SessionContext, env: &EnvSnapshot) -> (r: Result<SwitchPlan, SessionError>)
        ensures
            r matches Ok(p) && p@ == (if context@.has_session(session_name@) {
                enter_plan_v(session_name@, env@)
            } else {
                PlanV::ProjectStartThenEnter { session: session_name@, attach: !env@.inside_tmux }
            }),
    {
        if context.has_session(session_name) {
            Ok(SwitchPlan::Enter { session: session_name.to_owned(), attach: !env.inside_tmux })
        } else {
            Ok(
                SwitchPlan::ProjectStartThenEnter {
                    session: session_name.to_owned(),
                    attach: !env.inside_tmux,
                },
            )
        }
    }

    /// The plan for launching the project detached, leaving the current
    /// session in place.
    pub fn start(&self, session_name: &str, _metadata: &SessionMetadata) -> (r: Result<
        SwitchPlan,
        SessionError,
    >)
        ensures
            r matches Ok(p) && p@ == (PlanV::ProjectStartDetached { session: session_name@ }),
    {
        Ok(SwitchPlan::ProjectStartDetached { session: session_name.to_owned() })
    }

    /// Read a minimal summary out of a project definition's text: the root
    /// directory and the window names — not a full parse.
    #[verifier::loop_isolation(false)]
    pub fn read_config_summary(&self, content: &str) -> (r: String)
        ensures
            r@ == config_summary_v(content@),
    {
        let lines = split_lines(content);
        let ghost l = lines_v(content@);
        let mut root: Option<String> = None;
        let mut windows: Vec<String> = Vec::new();
        let mut i: usize = 0;
        proof {
            assert(l.skip(0) =~= l);
            assert(strs_view(windows@) =~= Seq::<Seq<char>>::empty());
        }
        while i < lines.len()
            invariant
                i <= lines@.len(),
                strs_view(lines@) == l,
                summary_state(l, None, Seq::empty()) == summary_state(
                    l.skip(i as int),
                    opt_str_view(root),
                    strs_view(windows@),
                ),
            decreases lines@.len() - i,
        {
            proof {
                reveal_strlit("root:");
                reveal_strlit("windows:");
                reveal_strlit("- ");
                assert(l.skip(i as int)[0] == l[i as int]);
                assert(l.skip(i as int).drop_first() =~= l.skip(i as int + 1));
            }
            let line = trim_ws(lines[i].as_str());
            let llen = line.unicode_len();
            if starts_with(line, "root:") {
                let raw = line.substring_char(5, llen);
                proof {
                    assert(raw@ =~= trim_v(l[i as int]).skip(5));
                }
                let value = trim_char(trim_ws(raw), '"');
                root = Some(value.to_owned());
            } else if starts_with(line, "windows:") {
                // the start of the windows section carries no name itself
            } else if starts_with(line, "- ") {
                let wd = trim_ws(trim_start_matches(line, "- "));
                let wdlen = wd.unicode_len();
                let name: String = match find_char_from(wd, ':', 0) {
                    Some(colon_pos) => {
                        let before = wd.substring_char(0, colon_pos);
                        proof {
                            assert(before@ =~= trim_v(
                                trim_start_matches_v(trim_v(l[i as int]), "- "@),
                            ).take(colon_pos as int));
                        }
                        trim_ws(before).to_owned()
                    },
                    None => wd.to_owned(),
                };
                proof {
                    assert(name@ == window_name_v(trim_v(l[i as int])));
                    assert(strs_view(windows@.push(name)) =~= strs_view(windows@).push(name@));
                }
                windows.push(name);
            }
            i += 1;
        }
        proof {
            assert(l.skip(l.len() as int) =~= Seq::<Seq<char>>::empty());
        }
        let mut summary = String::new();
        match &root {
            Some(r) => {
                summary.append("Root: ");
                summary.append(r.as_str());
                summary.append("\n");
            },
            None => {},
        }
        let ghost after_root = summary@;
        if windows.len() > 0 {
            summary.append("Windows: ");
            let joined = join_strings(&windows, ", ");
            proof {
                reveal_strlit(", ");
            }
            summary.append(joined.as_str());
            summary.append("\n");
        }
        proof {
            assert(summary@ =~= config_summary_v(content@));
        }
        summary
    }

    /// Render the preview pane text: the definition's path, its summary when
    /// readable, and the live state of its session.  Never fails.
    #[verifier::rlimit(80)]
    pub fn preview(&self, session_name: &str, metadata: &SessionMetadata, data: &PreviewData) -> (r:
        Result<String, SessionError>)
        ensures
            r matches Ok(s) && s@ == tmuxinator_preview_v(session_name@, metadata@, data@),
    {
        let mut s = String::new();
        s.append("\x1b[0;37m● Tmuxinator: ");
        s.append(session_name);
        s.append("\x1b[0m\n\n");
        match metadata.get_property("config_path") {
            None => {
                s.append("Configuration file not found\n");
                proof {
                    assert(s@ =~= tmuxinator_preview_v(session_name@, metadata@, data@));
                }
                Ok(s)
            },
            Some(config_path) => {
                let config_path = config_path.clone();
                s.append("\x1b[1;33mConfig file:\x1b[0m\n");
                s.append(config_path.as_str());
                s.append("\n\n");
                let ghost upto_path = s@;
                match &data.config_content {
                    Some(content) => {
                        let summary = self.read_config_summary(content.as_str());
                        if summary.as_str().unicode_len() > 0 {
                            s.append("\x1b[1;33mConfiguration:\x1b[0m\n");
                            let summary_lines = split_lines(summary.as_str());
                            let block = indent_lines(&summary_lines, summary_lines.len());
                            proof {
                                assert(strs_view(summary_lines@).take(
                                    strs_view(summary_lines@).len() as int,
                                ) =~= lines_v(summary@));
                            }
                            s.append(block.as_str());
                            s.append("\n");
                        }
                    },
                    None => {
                        s.append("Could not read configuration details\n\n");
                    },
                }
                let ghost upto_summary = s@;
                proof {
                    assert(upto_summary =~= upto_path + (match data@.config_content {
                        Some(content) => {
                            let summary = config_summary_v(content);
                            if summary.len() > 0 {
                                "\x1b[1;33mConfiguration:\x1b[0m\n"@ + indented_lines_v(
                                    lines_v(summary),
                                ) + "\n"@
                            } else {
                                Seq::<char>::empty()
                            }
                        },
                        None => "Could not read configuration details\n\n"@,
                    }));
                }
                if metadata.exists {
                    s.append("\x1b[1;32mSession is currently active\x1b[0m\n");
                    match data.windows {
                        Some(w) => {
                            let wstr = u32_to_string(w);
                            s.append("Windows: ");
                            s.append(wstr.as_str());
                            s.append("\n");
                        },
                        None => {},
                    }
                } else {
                    s.append("\x1b[1;33mSession will be started from configuration\x1b[0m\n");
                }
                proof {
                    assert(s@ =~= tmuxinator_preview_v(session_name@, metadata@, data@));
                }
                Ok(s)
            },
        }
    }

    /// Legend lines for this source's display icon.
    pub fn get_help_text(&self) -> (r: Vec<String>)
        ensures
            strs_view(r@) =~= seq!["\x1b[0;90m●\x1b[0m - Tmuxinator config (grey)"@],
    {
        let mut v: Vec<String> = Vec::new();
        v.push("\x1b[0;90m●\x1b[0m - Tmuxinator config (grey)".to_owned());
        v
    }
}

} // verus!
