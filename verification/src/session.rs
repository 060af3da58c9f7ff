//! The data model: session records, per-record metadata, the read-only
//! context snapshot built once per discovery round, and the companion
//! snapshot of environment observations (time, command availability,
//! filesystem classifications, version-control output).
use vstd::prelude::*;

use crate::strutil::{contains_str_seq, str_eq, strs_view, vec_contains_str};

verus! {

/// Relies on `uuid::Uuid::new_v4` (via `as_u128`): a freshly generated random
/// 128-bit identifier.  Nothing can be promised of a random value.  The
/// generator aborts the process if the operating system's randomness source
/// is unavailable — an environment fault no input can avoid.
#[verifier::external_body]
fn fresh_id() -> u128 {
    uuid::Uuid::new_v4().as_u128()
}

/// Relies on `chrono::Utc::now` (via `timestamp`): the current wall-clock
/// time as Unix seconds.  Nothing can be promised of the clock.  The call
/// aborts the process if the system clock reads before the Unix epoch — an
/// environment fault no input can avoid.
#[verifier::external_body]
fn now_timestamp() -> i64 {
    chrono::Utc::now().timestamp()
}

/// Mathematical view of `SessionMetadata`.
pub struct MetaV {
    pub session_type: Seq<char>,
    pub path: Option<Seq<char>>,
    pub exists: bool,
    pub props: Seq<(Seq<char>, Seq<char>)>,
}

/// Fresh per-session facts recomputed by a source's `resolve`: the session
/// category, an optional filesystem path, an existence flag, and an
/// open-ended key/value property bag (keys are kept unique by construction).
#[derive(Debug, Clone, PartialEq)]
pub struct SessionMetadata {
    pub session_type: String,
    pub path: Option<String>,
    pub exists: bool,
    pub properties: Vec<(String, String)>,
}

impl View for SessionMetadata {
    type V = MetaV;

    open spec fn view(&self) -> MetaV {
        MetaV {
            session_type: self.session_type@,
            path: match self.path {
                Some(ref p) => Some(p@),
                None => None,
            },
            exists: self.exists,
            props: self.properties@.map_values(|kv: (String, String)| (kv.0@, kv.1@)),
        }
    }
}

/// First value bound to `key`, scanning left to right.
pub open spec fn prop_lookup(props: Seq<(Seq<char>, Seq<char>)>, key: Seq<char>) -> Option<
    Seq<char>,
>
    decreases props.len(),
{
    if props.len() == 0 {
        None
    } else if props[0].0 == key {
        Some(props[0].1)
    } else {
        prop_lookup(props.drop_first(), key)
    }
}

/// The property bag with every binding of `key` removed, order kept.
pub open spec fn remove_key(props: Seq<(Seq<char>, Seq<char>)>, key: Seq<char>) -> Seq<
    (Seq<char>, Seq<char>),
>
    decreases props.len(),
{
    if props.len() == 0 {
        Seq::empty()
    } else {
        let rest = remove_key(props.drop_last(), key);
        if props.last().0 == key {
            rest
        } else {
            rest.push(props.last())
        }
    }
}

impl SessionMetadata {
    /// A bag with the given category, no path, no existence, no properties.
    pub fn new(session_type: String) -> (r: SessionMetadata)
        ensures
            r@ == (MetaV {
                session_type: session_type@,
                path: None,
                exists: false,
                props: Seq::empty(),
            }),
    {
        let r = SessionMetadata { session_type, path: None, exists: false, properties: Vec::new() };
        proof {
            assert(r@.props =~= Seq::<(Seq<char>, Seq<char>)>::empty());
        }
        r
    }

    /// The same metadata with the path set.
    pub fn with_path(self, path: String) -> (r: SessionMetadata)
        ensures
            r@ == (MetaV { path: Some(path@), ..self@ }),
    {
        SessionMetadata { path: Some(path), ..self }
    }

    /// The same metadata with the existence flag set.
    pub fn with_exists(self, exists: bool) -> (r: SessionMetadata)
        ensures
            r@ == (MetaV { exists, ..self@ }),
    {
        SessionMetadata { exists, ..self }
    }

    /// The same metadata with `key` bound to `value`, replacing any earlier
    /// binding of the same key.
    pub fn with_property(self, key: String, value: String) -> (r: SessionMetadata)
        ensures
            r@ == (MetaV { props: remove_key(self@.props, key@).push((key@, value@)), ..self@ }),
    {
        let mut kept: Vec<(String, String)> = Vec::new();
        let mut i: usize = 0;
        proof {
            assert(kept@.map_values(|kv: (String, String)| (kv.0@, kv.1@)) =~= remove_key(
                self@.props.take(0),
                key@,
            ));
        }
        while i < self.properties.len()
            invariant
                i <= self.properties@.len(),
                self@.props.len() == self.properties@.len(),
                kept@.map_values(|kv: (String, String)| (kv.0@, kv.1@)) == remove_key(
                    self@.props.take(i as int),
                    key@,
                ),
            decreases self.properties@.len() - i,
        {
            let ghost pre = kept@;
            if !str_eq(self.properties[i].0.as_str(), key.as_str()) {
                let entry = (self.properties[i].0.clone(), self.properties[i].1.clone());
                assert(entry.0@ == self@.props[i as int].0 && entry.1@ == self@.props[i as int].1);
                kept.push(entry);
                proof {
                    assert(kept@.map_values(|kv: (String, String)| (kv.0@, kv.1@)) =~= pre
                        .map_values(|kv: (String, String)| (kv.0@, kv.1@)).push(
                        (self@.props[i as int].0, self@.props[i as int].1),
                    ));
                }
            }
            proof {
                assert(self@.props.take(i as int + 1).drop_last() =~= self@.props.take(i as int));
                assert(self@.props.take(i as int + 1).last() == self@.props[i as int]);
            }
            i += 1;
        }
        proof {
            assert(self@.props.take(self@.props.len() as int) =~= self@.props);
        }
        let ghost old_props = self@.props;
        let mut kept = kept;
        kept.push((key, value));
        let r = SessionMetadata {
            session_type: self.session_type,
            path: self.path,
            exists: self.exists,
            properties: kept,
        };
        proof {
            assert(r@.props =~= remove_key(old_props, r@.props.last().0).push(r@.props.last()));
        }
        r
    }

    /// The first value bound to `key`, if any.
    pub fn get_property(&self, key: &str) -> (r: Option<&String>)
        ensures
            match r {
                Some(v) => prop_lookup(self@.props, key@) == Some(v@),
                None => prop_lookup(self@.props, key@) == None::<Seq<char>>,
            },
    {
        let mut i: usize = 0;
        proof {
            assert(self@.props.skip(0) =~= self@.props);
        }
        while i < self.properties.len()
            invariant
                i <= self.properties@.len(),
                self@.props.len() == self.properties@.len(),
                prop_lookup(self@.props, key@) == prop_lookup(
                    self@.props.skip(i as int),
                    key@,
                ),
            decreases self.properties@.len() - i,
        {
            if str_eq(self.properties[i].0.as_str(), key) {
                return Some(&self.properties[i].1);
            }
            proof {
                assert(self@.props.skip(i as int).drop_first() =~= self@.props.skip(i as int + 1));
            }
            i += 1;
        }
        None
    }
}

/// Mathematical view of `SessionItem` — everything but the opaque identifier.
pub struct ItemV {
    pub name: Seq<char>,
    pub plugin_name: Seq<char>,
    pub priority: u32,
    pub timestamp: i64,
    pub is_current: bool,
    pub is_active: bool,
    pub metadata: MetaV,
}

/// One discoverable session: display name (the merge key), owning source,
/// priority (lower = shown earlier), discovery timestamp, flags relating it
/// to the live environment, and free-form metadata.  The identifier is
/// opaque, never reused, and never consulted for equality.
#[derive(Debug, Clone)]
pub struct SessionItem {
    pub id: u128,
    pub name: String,
    pub plugin_name: String,
    pub priority: u32,
    pub timestamp: i64,
    pub is_current: bool,
    pub is_active: bool,
    pub metadata: SessionMetadata,
}

impl View for SessionItem {
    type V = ItemV;

    open spec fn view(&self) -> ItemV {
        ItemV {
            name: self.name@,
            plugin_name: self.plugin_name@,
            priority: self.priority,
            timestamp: self.timestamp,
            is_current: self.is_current,
            is_active: self.is_active,
            metadata: self.metadata@,
        }
    }
}

/// Views of a sequence of records.
pub open spec fn items_view(s: Seq<SessionItem>) -> Seq<ItemV> {
    s.map_values(|x: SessionItem| x@)
}

impl SessionItem {
    /// A fresh record with a new opaque identifier, discovered at `now`,
    /// not current and not active.
    pub fn new(name: String, plugin_name: String, priority: u32, metadata: SessionMetadata, now: i64) -> (r:
        SessionItem)
        ensures
            r@ == (ItemV {
                name: name@,
                plugin_name: plugin_name@,
                priority,
                timestamp: now,
                is_current: false,
                is_active: false,
                metadata: metadata@,
            }),
    {
        SessionItem {
            id: fresh_id(),
            name,
            plugin_name,
            priority,
            timestamp: now,
            is_current: false,
            is_active: false,
            metadata,
        }
    }

    /// The same record with the current flag set.
    pub fn with_current(self, is_current: bool) -> (r: SessionItem)
        ensures
            r@ == (ItemV { is_current, ..self@ }),
    {
        SessionItem { is_current, ..self }
    }

    /// The same record with the active flag set.
    pub fn with_active(self, is_active: bool) -> (r: SessionItem)
        ensures
            r@ == (ItemV { is_active, ..self@ }),
    {
        SessionItem { is_active, ..self }
    }

    /// The same record with the discovery timestamp replaced.
    pub fn with_timestamp(self, timestamp: i64) -> (r: SessionItem)
        ensures
            r@ == (ItemV { timestamp, ..self@ }),
    {
        SessionItem { timestamp, ..self }
    }
}

/// Icon shown before the record's name.
pub open spec fn icon_v(it: ItemV) -> Seq<char> {
    if it.is_current {
        "→"@
    } else if it.plugin_name == "recent"@ {
        "★"@
    } else if it.plugin_name == "worktree"@ {
        if it.is_active {
            "●"@
        } else {
            "○"@
        }
    } else if it.plugin_name == "scratch"@ {
        "󱗽"@
    } else {
        "●"@
    }
}

/// Terminal color introducing the record's line.
pub open spec fn color_v(it: ItemV) -> Seq<char> {
    if it.plugin_name == "recent"@ {
        "\x1b[1;33m"@  // yellow
    } else if it.plugin_name == "active"@ {
        "\x1b[1;32m"@  // green
    } else if it.plugin_name == "worktree"@ {
        "\x1b[0;34m"@  // blue
    } else if it.plugin_name == "scratch"@ {
        if it.is_active {
            "\x1b[1;32m"@
        } else {
            "\x1b[0;34m"@
        }
    } else if it.plugin_name == "tmuxinator"@ {
        "\x1b[0;90m"@  // dark grey
    } else {
        "\x1b[1;32m"@
    }
}

/// Source-name annotation after the record's name; the primary sources need
/// no annotation.
pub open spec fn suffix_v(it: ItemV) -> Seq<char> {
    if it.plugin_name == "recent"@ || it.plugin_name == "active"@ || it.plugin_name
        == "scratch"@ {
        Seq::empty()
    } else {
        " ("@ + it.plugin_name + ")"@
    }
}

/// The full formatted display line of a record.
pub open spec fn display_line_v(it: ItemV) -> Seq<char> {
    color_v(it) + icon_v(it) + "\x1b[0m "@ + it.name + suffix_v(it)
}

impl SessionItem {
    fn get_display_icon(&self) -> (r: &str)
        ensures
            r@ == icon_v(self@),
    {
        if self.is_current {
            "→"
        } else if str_eq(self.plugin_name.as_str(), "recent") {
            "★"
        } else if str_eq(self.plugin_name.as_str(), "worktree") {
            if self.is_active {
                "●"
            } else {
                "○"
            }
        } else if str_eq(self.plugin_name.as_str(), "scratch") {
            "󱗽"
        } else {
            "●"
        }
    }

    fn get_display_color(&self) -> (r: &str)
        ensures
            r@ == color_v(self@),
    {
        if str_eq(self.plugin_name.as_str(), "recent") {
            "\x1b[1;33m"
        } else if str_eq(self.plugin_name.as_str(), "active") {
            "\x1b[1;32m"
        } else if str_eq(self.plugin_name.as_str(), "worktree") {
            "\x1b[0;34m"
        } else if str_eq(self.plugin_name.as_str(), "scratch") {
            if self.is_active {
                "\x1b[1;32m"
            } else {
                "\x1b[0;34m"
            }
        } else if str_eq(self.plugin_name.as_str(), "tmuxinator") {
            "\x1b[0;90m"
        } else {
            "\x1b[1;32m"
        }
    }

    fn get_display_suffix(&self) -> (r: String)
        ensures
            r@ == suffix_v(self@),
    {
        if str_eq(self.plugin_name.as_str(), "recent") || str_eq(
            self.plugin_name.as_str(),
            "active",
        ) || str_eq(self.plugin_name.as_str(), "scratch") {
            let r = String::new();
            proof {
                assert(r@ =~= suffix_v(self@));
            }
            r
        } else {
            let mut r = String::new();
            r.append(" (");
            r.append(self.plugin_name.as_str());
            r.append(")");
            r
        }
    }

    /// The line shown for this record in the picker: color, icon, name, and
    /// a source annotation for secondary sources.
    pub fn format_for_display(&self) -> (r: String)
        ensures
            r@ == display_line_v(self@),
    {
        let icon = self.get_display_icon();
        let color = self.get_display_color();
        let suffix = self.get_display_suffix();
        let mut r = String::new();
        r.append(color);
        r.append(icon);
        r.append("\x1b[0m ");
        r.append(self.name.as_str());
        r.append(suffix.as_str());
        r
    }
}

/// Mathematical view of `TmuxSession`.
pub struct TmuxSessionV {
    pub name: Seq<char>,
    pub last_attached: i64,
    pub windows: u32,
    pub attached: bool,
    pub current_path: Option<Seq<char>>,
}

/// One live multiplexer session as reported by the adapter: name, last-used
/// Unix time, window count, attached flag, and (when probed) the working
/// directory of its active pane.
#[derive(Debug, Clone, PartialEq)]
pub struct TmuxSession {
    pub name: String,
    pub last_attached: i64,
    pub windows: u32,
    pub attached: bool,
    pub current_path: Option<String>,
}

impl View for TmuxSession {
    type V = TmuxSessionV;

    open spec fn view(&self) -> TmuxSessionV {
        TmuxSessionV {
            name: self.name@,
            last_attached: self.last_attached,
            windows: self.windows,
            attached: self.attached,
            current_path: match self.current_path {
                Some(ref p) => Some(p@),
                None => None,
            },
        }
    }
}

/// Views of a sequence of live sessions.
pub open spec fn sessions_view(s: Seq<TmuxSession>) -> Seq<TmuxSessionV> {
    s.map_values(|x: TmuxSession| x@)
}

/// First live session with the given name, scanning left to right.
pub open spec fn first_with_name(all: Seq<TmuxSessionV>, name: Seq<char>) -> Option<TmuxSessionV>
    decreases all.len(),
{
    if all.len() == 0 {
        None
    } else if all[0].name == name {
        Some(all[0])
    } else {
        first_with_name(all.drop_first(), name)
    }
}

/// Mathematical view of `SessionContext`.
pub struct CtxV {
    pub current_session: Option<Seq<char>>,
    pub active_sessions: Seq<Seq<char>>,
    pub scratch_sessions: Seq<Seq<char>>,
    pub all_tmux_sessions: Seq<TmuxSessionV>,
}

impl CtxV {
    /// A live session with this name is in the snapshot.
    pub open spec fn has_session(self, name: Seq<char>) -> bool {
        first_with_name(self.all_tmux_sessions, name) is Some
    }

    /// The recorded working directory of the named live session, if probed.
    pub open spec fn session_path(self, name: Seq<char>) -> Option<Seq<char>> {
        match first_with_name(self.all_tmux_sessions, name) {
            Some(t) => t.current_path,
            None => None,
        }
    }
}

/// Read-only snapshot of the live multiplexer state, built once per
/// discovery round and shared by every source; never mutated afterwards.
/// `active_sessions` and `scratch_sessions` exclude the current session and
/// are ordered most recently used first.
#[derive(Debug, Clone)]
pub struct SessionContext {
    pub current_session: Option<String>,
    pub active_sessions: Vec<String>,
    pub scratch_sessions: Vec<String>,
    pub all_tmux_sessions: Vec<TmuxSession>,
}

impl View for SessionContext {
    type V = CtxV;

    open spec fn view(&self) -> CtxV {
        CtxV {
            current_session: match self.current_session {
                Some(ref s) => Some(s@),
                None => None,
            },
            active_sessions: strs_view(self.active_sessions@),
            scratch_sessions: strs_view(self.scratch_sessions@),
            all_tmux_sessions: sessions_view(self.all_tmux_sessions@),
        }
    }
}

impl SessionContext {
    /// An empty snapshot: no current session, no live sessions.
    pub fn new() -> (r: SessionContext)
        ensures
            r@.current_session is None,
            r@.active_sessions == Seq::<Seq<char>>::empty(),
            r@.scratch_sessions == Seq::<Seq<char>>::empty(),
            r@.all_tmux_sessions == Seq::<TmuxSessionV>::empty(),
    {
        let r = SessionContext {
            current_session: None,
            active_sessions: Vec::new(),
            scratch_sessions: Vec::new(),
            all_tmux_sessions: Vec::new(),
        };
        proof {
            assert(r@.active_sessions =~= Seq::<Seq<char>>::empty());
            assert(r@.scratch_sessions =~= Seq::<Seq<char>>::empty());
            assert(r@.all_tmux_sessions =~= Seq::<TmuxSessionV>::empty());
        }
        r
    }

    /// The same snapshot with the current session replaced.
    pub fn with_current_session(self, session: Option<String>) -> (r: SessionContext)
        ensures
            r@ == (CtxV {
                current_session: match session {
                    Some(ref s) => Some(s@),
                    None => None,
                },
                ..self@
            }),
    {
        SessionContext { current_session: session, ..self }
    }

    /// The same snapshot with the active-session names replaced.
    pub fn with_active_sessions(self, sessions: Vec<String>) -> (r: SessionContext)
        ensures
            r@ == (CtxV { active_sessions: strs_view(sessions@), ..self@ }),
    {
        SessionContext { active_sessions: sessions, ..self }
    }

    /// The same snapshot with the scratch-session names replaced.
    pub fn with_scratch_sessions(self, sessions: Vec<String>) -> (r: SessionContext)
        ensures
            r@ == (CtxV { scratch_sessions: strs_view(sessions@), ..self@ }),
    {
        SessionContext { scratch_sessions: sessions, ..self }
    }

    /// The same snapshot with the raw live-session list replaced.
    pub fn with_all_tmux_sessions(self, sessions: Vec<TmuxSession>) -> (r: SessionContext)
        ensures
            r@ == (CtxV { all_tmux_sessions: sessions_view(sessions@), ..self@ }),
    {
        SessionContext { all_tmux_sessions: sessions, ..self }
    }

    /// Linear scan for the first live session with this name.
    pub fn find_session(&self, name: &str) -> (r: Option<&TmuxSession>)
        ensures
            match r {
                Some(t) => first_with_name(self@.all_tmux_sessions, name@) == Some(t@),
                None => first_with_name(self@.all_tmux_sessions, name@) == None::<TmuxSessionV>,
            },
    {
        let all = &self.all_tmux_sessions;
        let mut i: usize = 0;
        proof {
            assert(self@.all_tmux_sessions.skip(0) =~= self@.all_tmux_sessions);
        }
        while i < all.len()
            invariant
                i <= all@.len(),
                self@.all_tmux_sessions.len() == all@.len(),
                self@.all_tmux_sessions == sessions_view(all@),
                first_with_name(self@.all_tmux_sessions, name@) == first_with_name(
                    self@.all_tmux_sessions.skip(i as int),
                    name@,
                ),
            decreases all@.len() - i,
        {
            if str_eq(all[i].name.as_str(), name) {
                return Some(&all[i]);
            }
            proof {
                assert(self@.all_tmux_sessions.skip(i as int).drop_first()
                    =~= self@.all_tmux_sessions.skip(i as int + 1));
            }
            i += 1;
        }
        None
    }

    /// A live session with this name is in the snapshot.
    pub fn has_session(&self, name: &str) -> (r: bool)
        ensures
            r == self@.has_session(name@),
    {
        self.find_session(name).is_some()
    }
}

/// Three-way classification of a directory with respect to version control:
/// not inside a repository, the main checkout (directory-form marker), or a
/// secondary worktree checkout (file-form marker).
#[derive(Debug, Clone, Copy, PartialEq, Eq, Structural)]
pub enum RepoKind {
    NotARepo,
    MainCheckout,
    WorktreeCheckout,
}

/// Mathematical view of `EnvSnapshot`.
pub struct EnvV {
    pub now: i64,
    pub available_commands: Seq<Seq<char>>,
    pub path_kinds: Seq<(Seq<char>, RepoKind)>,
    pub worktree_output: Option<Seq<char>>,
    pub branches: Seq<(Seq<char>, Seq<char>)>,
    pub config_files: Seq<Seq<char>>,
    pub inside_tmux: bool,
}

/// Per-round observations of everything outside the multiplexer snapshot:
/// the observation time, which external commands exist, the repository
/// classification of each probed directory (a path absent from the list was
/// not found on disk), the raw worktree listing of the surrounding
/// repository, the current branch of each probed checkout, the files found
/// in the saved-project-config directories, and whether the process runs
/// inside the multiplexer.
#[derive(Debug, Clone)]
pub struct EnvSnapshot {
    pub now: i64,
    pub available_commands: Vec<String>,
    pub path_kinds: Vec<(String, RepoKind)>,
    pub worktree_output: Option<String>,
    pub branches: Vec<(String, String)>,
    pub config_files: Vec<String>,
    pub inside_tmux: bool,
}

impl View for EnvSnapshot {
    type V = EnvV;

    open spec fn view(&self) -> EnvV {
        EnvV {
            now: self.now,
            available_commands: strs_view(self.available_commands@),
            path_kinds: self.path_kinds@.map_values(|pk: (String, RepoKind)| (pk.0@, pk.1)),
            worktree_output: match self.worktree_output {
                Some(ref s) => Some(s@),
                None => None,
            },
            branches: self.branches@.map_values(|kv: (String, String)| (kv.0@, kv.1@)),
            config_files: strs_view(self.config_files@),
            inside_tmux: self.inside_tmux,
        }
    }
}

/// Classification recorded for a probed path, if the path exists on disk.
pub open spec fn kind_lookup(kinds: Seq<(Seq<char>, RepoKind)>, path: Seq<char>) -> Option<
    RepoKind,
>
    decreases kinds.len(),
{
    if kinds.len() == 0 {
        None
    } else if kinds[0].0 == path {
        Some(kinds[0].1)
    } else {
        kind_lookup(kinds.drop_first(), path)
    }
}

/// Branch recorded for a probed checkout path.
pub open spec fn branch_lookup(branches: Seq<(Seq<char>, Seq<char>)>, path: Seq<char>) -> Option<
    Seq<char>,
>
    decreases branches.len(),
{
    if branches.len() == 0 {
        None
    } else if branches[0].0 == path {
        Some(branches[0].1)
    } else {
        branch_lookup(branches.drop_first(), path)
    }
}

impl EnvV {
    /// The external command is available on this machine.
    pub open spec fn command_available(self, name: Seq<char>) -> bool {
        contains_str_seq(self.available_commands, name)
    }

    /// Classification of a probed path.
    pub open spec fn path_kind(self, path: Seq<char>) -> Option<RepoKind> {
        kind_lookup(self.path_kinds, path)
    }

    /// The path was probed, exists, and is a worktree checkout.
    pub open spec fn is_worktree_path(self, path: Seq<char>) -> bool {
        self.path_kind(path) == Some(RepoKind::WorktreeCheckout)
    }
}

impl EnvSnapshot {
    /// A snapshot taken now, before any probes: nothing observed yet.
    pub fn new() -> (r: EnvSnapshot)
        ensures
            r@.available_commands == Seq::<Seq<char>>::empty(),
            r@.path_kinds == Seq::<(Seq<char>, RepoKind)>::empty(),
            r@.worktree_output is None,
            r@.branches == Seq::<(Seq<char>, Seq<char>)>::empty(),
            r@.config_files == Seq::<Seq<char>>::empty(),
            !r@.inside_tmux,
    {
        let r = EnvSnapshot {
            now: now_timestamp(),
            available_commands: Vec::new(),
            path_kinds: Vec::new(),
            worktree_output: None,
            branches: Vec::new(),
            config_files: Vec::new(),
            inside_tmux: false,
        };
        proof {
            assert(r@.available_commands =~= Seq::<Seq<char>>::empty());
            assert(r@.path_kinds =~= Seq::<(Seq<char>, RepoKind)>::empty());
            assert(r@.branches =~= Seq::<(Seq<char>, Seq<char>)>::empty());
            assert(r@.config_files =~= Seq::<Seq<char>>::empty());
        }
        r
    }

    /// The same snapshot with the observation time replaced.
    pub fn with_now(self, now: i64) -> (r: EnvSnapshot)
        ensures
            r@ == (EnvV { now, ..self@ }),
    {
        EnvSnapshot { now, ..self }
    }

    /// The same snapshot with the available commands replaced.
    pub fn with_available_commands(self, commands: Vec<String>) -> (r: EnvSnapshot)
        ensures
            r@ == (EnvV { available_commands: strs_view(commands@), ..self@ }),
    {
        EnvSnapshot { available_commands: commands, ..self }
    }

    /// The same snapshot with the path classifications replaced.
    pub fn with_path_kinds(self, kinds: Vec<(String, RepoKind)>) -> (r: EnvSnapshot)
        ensures
            r@ == (EnvV {
                path_kinds: kinds@.map_values(|pk: (String, RepoKind)| (pk.0@, pk.1)),
                ..self@
            }),
    {
        EnvSnapshot { path_kinds: kinds, ..self }
    }

    /// The same snapshot with the raw worktree listing replaced.
    pub fn with_worktree_output(self, output: Option<String>) -> (r: EnvSnapshot)
        ensures
            r@ == (EnvV {
                worktree_output: match output {
                    Some(ref s) => Some(s@),
                    None => None,
                },
                ..self@
            }),
    {
        EnvSnapshot { worktree_output: output, ..self }
    }

    /// The same snapshot with the probed branches replaced.
    pub fn with_branches(self, branches: Vec<(String, String)>) -> (r: EnvSnapshot)
        ensures
            r@ == (EnvV {
                branches: branches@.map_values(|kv: (String, String)| (kv.0@, kv.1@)),
                ..self@
            }),
    {
        EnvSnapshot { branches, ..self }
    }

    /// The same snapshot with the saved-project-config file list replaced.
    pub fn with_config_files(self, files: Vec<String>) -> (r: EnvSnapshot)
        ensures
            r@ == (EnvV { config_files: strs_view(files@), ..self@ }),
    {
        EnvSnapshot { config_files: files, ..self }
    }

    /// The same snapshot with the inside-multiplexer flag replaced.
    pub fn with_inside_tmux(self, inside_tmux: bool) -> (r: EnvSnapshot)
        ensures
            r@ == (EnvV { inside_tmux, ..self@ }),
    {
        EnvSnapshot { inside_tmux, ..self }
    }

    /// The external command is available on this machine.
    pub fn command_available(&self, name: &str) -> (r: bool)
        ensures
            r == self@.command_available(name@),
    {
        vec_contains_str(&self.available_commands, name)
    }

    /// Classification of a probed path.
    pub fn path_kind(&self, path: &str) -> (r: Option<RepoKind>)
        ensures
            r == self@.path_kind(path@),
    {
        let kinds = &self.path_kinds;
        let mut i: usize = 0;
        proof {
            assert(self@.path_kinds.skip(0) =~= self@.path_kinds);
        }
        while i < kinds.len()
            invariant
                i <= kinds@.len(),
                self@.path_kinds.len() == kinds@.len(),
                self@.path_kinds == kinds@.map_values(|pk: (String, RepoKind)| (pk.0@, pk.1)),
                kind_lookup(self@.path_kinds, path@) == kind_lookup(
                    self@.path_kinds.skip(i as int),
                    path@,
                ),
            decreases kinds@.len() - i,
        {
            if str_eq(kinds[i].0.as_str(), path) {
                return Some(kinds[i].1);
            }
            proof {
                assert(self@.path_kinds.skip(i as int).drop_first() =~= self@.path_kinds.skip(
                    i as int + 1,
                ));
            }
            i += 1;
        }
        None
    }

    /// Branch recorded for a probed checkout path.
    pub fn branch_of(&self, path: &str) -> (r: Option<&String>)
        ensures
            match r {
                Some(b) => branch_lookup(self@.branches, path@) == Some(b@),
                None => branch_lookup(self@.branches, path@) == None::<Seq<char>>,
            },
    {
        let branches = &self.branches;
        let mut i: usize = 0;
        proof {
            assert(self@.branches.skip(0) =~= self@.branches);
        }
        while i < branches.len()
            invariant
                i <= branches@.len(),
                self@.branches.len() == branches@.len(),
                self@.branches == branches@.map_values(|kv: (String, String)| (kv.0@, kv.1@)),
                branch_lookup(self@.branches, path@) == branch_lookup(
                    self@.branches.skip(i as int),
                    path@,
                ),
            decreases branches@.len() - i,
        {
            if str_eq(branches[i].0.as_str(), path) {
                return Some(&branches[i].1);
            }
            proof {
                assert(self@.branches.skip(i as int).drop_first() =~= self@.branches.skip(
                    i as int + 1,
                ));
            }
            i += 1;
        }
        None
    }
}

} // verus!
