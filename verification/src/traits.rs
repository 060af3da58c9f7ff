//! The source ("plugin") contract: metadata describing an externally
//! registered source, the interface such a source implements, and the action
//! plans that dispatch hands back to the caller for execution.
//!
//! A source's side-effecting operations (entering, creating or killing a
//! multiplexer session, launching a saved project) cannot run inside the
//! engine; dispatch therefore returns a `SwitchPlan` or `KillPlan` value
//! that says exactly which external operation to perform.
use vstd::prelude::*;

use crate::session::{EnvV, SessionContext, SessionItem, SessionMetadata};
use crate::strutil::strs_view;
use crate::SessionError;

verus! {

/// Mathematical view of `PluginMetadata`.
pub struct PluginMetadataV {
    pub name: Seq<char>,
    pub description: Seq<char>,
    pub version: Seq<char>,
    pub priority: u32,
    pub dependencies: Seq<Seq<char>>,
    pub author: Option<Seq<char>>,
    pub homepage: Option<Seq<char>>,
}

/// Identity and ranking metadata of an externally registered source.
#[derive(Debug, Clone, PartialEq)]
pub struct PluginMetadata {
    pub name: String,
    pub description: String,
    pub version: String,
    pub priority: u32,
    pub dependencies: Vec<String>,
    pub author: Option<String>,
    pub homepage: Option<String>,
}

impl View for PluginMetadata {
    type V = PluginMetadataV;

    open spec fn view(&self) -> PluginMetadataV {
        PluginMetadataV {
            name: self.name@,
            description: self.description@,
            version: self.version@,
            priority: self.priority,
            dependencies: strs_view(self.dependencies@),
            author: match self.author {
                Some(ref a) => Some(a@),
                None => None,
            },
            homepage: match self.homepage {
                Some(ref h) => Some(h@),
                None => None,
            },
        }
    }
}

/// Every named dependency is an available command.
pub open spec fn deps_available(deps: Seq<Seq<char>>, env: EnvV) -> bool {
    forall|i: int| 0 <= i < deps.len() ==> env.command_available(#[trigger] deps[i])
}

/// Contract for a source loaded at runtime from outside the crate.  The
/// registry stores its metadata and receives the results of the query
/// methods as plain values each round; the action methods run outside the
/// engine, invoked by the caller when a dispatch plan delegates to the
/// source.  Nothing is proved about a foreign implementation.
pub trait DynamicPlugin {
    /// Identity, ranking and dependency metadata of this source.
    fn metadata(&self) -> PluginMetadata;

    /// Candidate records discovered from the given context.
    fn discover(&self, context: &SessionContext) -> Vec<SessionItem>;

    /// Ownership test for a session name.
    fn can_handle(&self, session_name: &String, context: &SessionContext) -> bool;

    /// Fresh metadata for a name this source owns.
    fn resolve(&self, session_name: &String, context: &SessionContext) -> Result<
        SessionMetadata,
        SessionError,
    >;

    /// Enter the session, creating it if necessary.
    fn switch(&self, session_name: &String, metadata: &SessionMetadata) -> Result<
        (),
        SessionError,
    >;

    /// Destroy the session.
    fn kill(&self, session_name: &String) -> Result<(), SessionError>;

    /// Start the session in the background.
    fn start(&self, session_name: &String, metadata: &SessionMetadata) -> Result<
        (),
        SessionError,
    >;

    /// Human-readable preview text for the UI's preview pane.
    fn preview(&self, session_name: &String, metadata: &SessionMetadata) -> Result<
        String,
        SessionError,
    >;

    /// Static legend lines describing this source's display icons.
    fn get_help_text(&self) -> Vec<String>;
}

/// Mathematical view of `SwitchPlan`.
pub enum PlanV {
    Enter { session: Seq<char>, attach: bool },
    CreateThenEnter { session: Seq<char>, path: Option<Seq<char>>, attach: bool },
    ProjectStartThenEnter { session: Seq<char>, attach: bool },
    ProjectStartDetached { session: Seq<char> },
    Dynamic { index: int },
}

/// The external operation that realizes a switch or start: enter an existing
/// session (attaching when outside the multiplexer), create one first, start
/// a saved project definition, or delegate to the externally registered
/// source at the given index.
#[derive(Debug, Clone, PartialEq)]
pub enum SwitchPlan {
    Enter { session: String, attach: bool },
    CreateThenEnter { session: String, path: Option<String>, attach: bool },
    ProjectStartThenEnter { session: String, attach: bool },
    ProjectStartDetached { session: String },
    Dynamic { index: usize },
}

impl View for SwitchPlan {
    type V = PlanV;

    open spec fn view(&self) -> PlanV {
        match self {
            SwitchPlan::Enter { session, attach } => PlanV::Enter {
                session: session@,
                attach: *attach,
            },
            SwitchPlan::CreateThenEnter { session, path, attach } => PlanV::CreateThenEnter {
                session: session@,
                path: match path {
                    Some(p) => Some(p@),
                    None => None,
                },
                attach: *attach,
            },
            SwitchPlan::ProjectStartThenEnter { session, attach } => PlanV::ProjectStartThenEnter {
                session: session@,
                attach: *attach,
            },
            SwitchPlan::ProjectStartDetached { session } => PlanV::ProjectStartDetached {
                session: session@,
            },
            SwitchPlan::Dynamic { index } => PlanV::Dynamic { index: *index as int },
        }
    }
}

/// Entering an existing session: switch the client when already inside the
/// multiplexer, attach otherwise.
pub open spec fn enter_plan_v(session: Seq<char>, env: EnvV) -> PlanV {
    PlanV::Enter { session, attach: !env.inside_tmux }
}

/// Mathematical view of `PreviewData`.
pub struct PreviewDataV {
    pub windows: Option<u32>,
    pub captured: Option<Seq<char>>,
    pub branch: Option<Seq<char>>,
    pub log_output: Option<Seq<char>>,
    pub status_output: Option<Seq<char>>,
    pub config_content: Option<Seq<char>>,
}

/// Observations a preview is rendered from, gathered by the caller's I/O:
/// the session's window count, its captured pane content, the checkout's
/// current branch, recent-log and status listings, and the raw project
/// definition file.  `None` records that the corresponding query failed or
/// was not made.
#[derive(Debug, Clone, PartialEq)]
pub struct PreviewData {
    pub windows: Option<u32>,
    pub captured: Option<String>,
    pub branch: Option<String>,
    pub log_output: Option<String>,
    pub status_output: Option<String>,
    pub config_content: Option<String>,
}

impl View for PreviewData {
    type V = PreviewDataV;

    open spec fn view(&self) -> PreviewDataV {
        PreviewDataV {
            windows: self.windows,
            captured: match self.captured {
                Some(ref s) => Some(s@),
                None => None,
            },
            branch: match self.branch {
                Some(ref s) => Some(s@),
                None => None,
            },
            log_output: match self.log_output {
                Some(ref s) => Some(s@),
                None => None,
            },
            status_output: match self.status_output {
                Some(ref s) => Some(s@),
                None => None,
            },
            config_content: match self.config_content {
                Some(ref s) => Some(s@),
                None => None,
            },
        }
    }
}

impl PreviewData {
    /// No observations at all.
    pub fn new() -> (r: PreviewData)
        ensures
            r@.windows is None,
            r@.captured is None,
            r@.branch is None,
            r@.log_output is None,
            r@.status_output is None,
            r@.config_content is None,
    {
        PreviewData {
            windows: None,
            captured: None,
            branch: None,
            log_output: None,
            status_output: None,
            config_content: None,
        }
    }
}

/// The dim horizontal rule between a preview's header and its content.
pub open spec fn sep_line_v() -> Seq<char> {
    "\x1b[0;90m────────────────────────────────────────\x1b[0m\n"@
}

/// The fallback shown when pane content could not be captured.
pub open spec fn capture_fallback_v() -> Seq<char> {
    "\x1b[0;31mCould not capture session content\x1b[0m\nSession may be busy or inaccessible"@
}

/// The rule followed by the captured pane content, or by the fallback.
pub open spec fn capture_block_v(data: PreviewDataV) -> Seq<char> {
    sep_line_v() + (match data.captured {
        Some(c) => c,
        None => capture_fallback_v(),
    })
}

/// What the preview renders when a session is not live.
pub open spec fn not_active_v(name: Seq<char>) -> Seq<char> {
    "\x1b[0;31mSession '"@ + name
        + "' is not active\x1b[0m\n\nThis session will be created when selected."@
}

/// Mathematical view of `PreviewPlan`.
pub enum PreviewPlanV {
    Text(Seq<char>),
    Dynamic { index: int },
}

/// The outcome of routing a preview request: rendered text, or delegation
/// to the externally registered source at the given index.
#[derive(Debug, Clone, PartialEq)]
pub enum PreviewPlan {
    Text(String),
    Dynamic { index: usize },
}

impl View for PreviewPlan {
    type V = PreviewPlanV;

    open spec fn view(&self) -> PreviewPlanV {
        match self {
            PreviewPlan::Text(s) => PreviewPlanV::Text(s@),
            PreviewPlan::Dynamic { index } => PreviewPlanV::Dynamic { index: *index as int },
        }
    }
}

/// Mathematical view of `KillPlan`.
pub enum KillPlanV {
    KillTmux { session: Seq<char> },
    Dynamic { index: int, session: Seq<char> },
}

/// The external operation that realizes a kill: the multiplexer's generic
/// kill, or delegation to an externally registered source.
#[derive(Debug, Clone, PartialEq)]
pub enum KillPlan {
    KillTmux { session: String },
    Dynamic { index: usize, session: String },
}

impl View for KillPlan {
    type V = KillPlanV;

    open spec fn view(&self) -> KillPlanV {
        match self {
            KillPlan::KillTmux { session } => KillPlanV::KillTmux { session: session@ },
            KillPlan::Dynamic { index, session } => KillPlanV::Dynamic {
                index: *index as int,
                session: session@,
            },
        }
    }
}

} // verus!
