//! Discovery and dispatch engine for a terminal-multiplexer session picker.
//!
//! Sessions are discovered by a fixed family of sources (most-recent, active,
//! worktree, scratch, saved-project-config) plus externally registered ones,
//! merged into one deduplicated, priority-ordered list, and the chosen name is
//! routed back to the source that owns it.  Everything here is pure logic over
//! read-only snapshots of the live environment; the surrounding binary performs
//! the actual multiplexer, version-control and filesystem calls and feeds their
//! results in as plain values.
use vstd::prelude::*;

pub mod active;
pub mod config;
pub mod control;
pub mod manager;
pub mod recent;
pub mod scratch;
pub mod session;
pub mod strutil;
pub mod tmux;
pub mod tmuxinator;
pub mod traits;
pub mod ui;
pub mod worktree;

verus! {

/// Mathematical view of `SessionError`.
pub enum ErrV {
    NotFound(Seq<char>),
    ExternalToolFailure(Seq<char>),
    MalformedExternalOutput(Seq<char>),
    DependencyMissing(Seq<char>),
}

/// Failure taxonomy of the engine; each variant carries its full diagnostic
/// text.
///
/// `DependencyMissing` is not surfaced by discovery (a source whose external
/// tool is absent is silently skipped for the round); it exists for callers
/// that probe a single source explicitly.
#[derive(Debug, Clone, PartialEq, Eq)]
pub enum SessionError {
    /// No source owns the requested session name, or a required path or
    /// definition was not found.
    NotFound(String),
    /// An external command failed or its result was unavailable.
    ExternalToolFailure(String),
    /// External tool output did not have the expected shape.
    MalformedExternalOutput(String),
    /// A source's required external tool is absent.
    DependencyMissing(String),
}

impl View for SessionError {
    type V = ErrV;

    open spec fn view(&self) -> ErrV {
        match self {
            SessionError::NotFound(m) => ErrV::NotFound(m@),
            SessionError::ExternalToolFailure(m) => ErrV::ExternalToolFailure(m@),
            SessionError::MalformedExternalOutput(m) => ErrV::MalformedExternalOutput(m@),
            SessionError::DependencyMissing(m) => ErrV::DependencyMissing(m@),
        }
    }
}

impl ErrV {
    /// The diagnostic text, independent of the variant.
    pub open spec fn message_v(self) -> Seq<char> {
        match self {
            ErrV::NotFound(m) => m,
            ErrV::ExternalToolFailure(m) => m,
            ErrV::MalformedExternalOutput(m) => m,
            ErrV::DependencyMissing(m) => m,
        }
    }
}

impl SessionError {
    /// Human-readable diagnostic for the operator.
    pub fn message(&self) -> (r: &String)
        ensures
            r@ == self@.message_v(),
    {
        match self {
            SessionError::NotFound(m) => m,
            SessionError::ExternalToolFailure(m) => m,
            SessionError::MalformedExternalOutput(m) => m,
            SessionError::DependencyMissing(m) => m,
        }
    }

    /// A `NotFound` error whose message is `prefix` followed by `name`.
    pub fn not_found(prefix: &str, name: &str) -> (r: SessionError)
        ensures
            r@ == ErrV::NotFound(prefix@ + name@),
    {
        let mut m = String::new();
        m.append(prefix);
        m.append(name);
        SessionError::NotFound(m)
    }

    /// An `ExternalToolFailure` error whose message is `prefix` followed by
    /// `detail`.
    pub fn tool_failure(prefix: &str, detail: &str) -> (r: SessionError)
        ensures
            r@ == ErrV::ExternalToolFailure(prefix@ + detail@),
    {
        let mut m = String::new();
        m.append(prefix);
        m.append(detail);
        SessionError::ExternalToolFailure(m)
    }

    /// A `MalformedExternalOutput` error whose message is `prefix` followed
    /// by `detail`.
    pub fn malformed(prefix: &str, detail: &str) -> (r: SessionError)
        ensures
            r@ == ErrV::MalformedExternalOutput(prefix@ + detail@),
    {
        let mut m = String::new();
        m.append(prefix);
        m.append(detail);
        SessionError::MalformedExternalOutput(m)
    }
}

} // verus!
