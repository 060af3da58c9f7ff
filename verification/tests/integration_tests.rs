use std::collections::{HashMap, HashSet};
use tmux_session_manager::config::Config;
use tmux_session_manager::manager::{PluginManager, PluginRef};
use tmux_session_manager::session::{
    EnvSnapshot, SessionContext, SessionItem, SessionMetadata, TmuxSession,
};

/// Build a context the way the multiplexer adapter would: the raw list
/// most-recently-used first, the active and scratch buckets excluding the
/// current session.
fn build_context(sessions: &[(&str, i64)], current: Option<&str>) -> SessionContext {
    let mut all: Vec<TmuxSession> = sessions
        .iter()
        .map(|(name, ts)| TmuxSession {
            name: name.to_string(),
            last_attached: *ts,
            windows: 1,
            attached: false,
            current_path: None,
        })
        .collect();
    all.sort_by(|a, b| b.last_attached.cmp(&a.last_attached));

    let mut active = Vec::new();
    let mut scratch = Vec::new();
    for s in &all {
        if Some(s.name.as_str()) == current {
            continue;
        }
        if s.name.contains("scratch") {
            scratch.push(s.name.clone());
        } else {
            active.push(s.name.clone());
        }
    }

    SessionContext::new()
        .with_current_session(current.map(|c| c.to_string()))
        .with_active_sessions(active)
        .with_scratch_sessions(scratch)
        .with_all_tmux_sessions(all)
}

fn test_env() -> EnvSnapshot {
    EnvSnapshot::new()
        .with_now(1234567895)
        .with_available_commands(vec!["tmux".to_string(), "git".to_string()])
}

#[test]
fn test_plugin_manager_creation() {
    let plugin_manager = PluginManager::new();
    let plugins = plugin_manager.list_plugins();

    assert!(plugins.len() >= 4);

    let plugin_names: Vec<&str> = plugins.iter().map(|(name, _, _)| name.as_str()).collect();
    assert!(plugin_names.contains(&"active"));
    assert!(plugin_names.contains(&"worktree"));
    assert!(plugin_names.contains(&"scratch"));
    assert!(plugin_names.contains(&"tmuxinator"));
}

#[test]
fn test_plugin_priority_ordering() {
    let plugin_manager = PluginManager::new();
    let plugins = plugin_manager.list_plugins();

    let mut prev_priority = 0u32;
    for (_, _, priority) in &plugins {
        assert!(*priority >= prev_priority, "Plugins should be sorted by priority");
        prev_priority = *priority;
    }

    let plugin_priorities: HashMap<&str, u32> = plugins
        .iter()
        .map(|(name, _, priority)| (name.as_str(), *priority))
        .collect();

    assert_eq!(plugin_priorities.get("worktree"), Some(&5));
    assert_eq!(plugin_priorities.get("active"), Some(&10));
    assert_eq!(plugin_priorities.get("tmuxinator"), Some(&50));
    assert_eq!(plugin_priorities.get("scratch"), Some(&999));
}

#[test]
fn test_session_discovery_ordering() {
    let plugin_manager = PluginManager::new();

    let context = build_context(
        &[
            ("main", 1234567890),
            ("dotfiles", 1234567889),
            ("notes", 1234567888),
            ("scratch-session", 1234567887),
            ("default", 1234567886),
        ],
        Some("dotfiles"),
    );
    let env = test_env();
    let sessions = plugin_manager.discover_all_sessions(&context, &env, Vec::new());

    assert!(sessions.len() > 0, "Should discover sessions");

    let mut prev_priority = 0u32;
    for session in &sessions {
        assert!(
            session.priority >= prev_priority,
            "Sessions should be ordered by priority: {} (priority {}) should not come before priority {}",
            session.name,
            session.priority,
            prev_priority
        );
        prev_priority = session.priority;
    }

    let current_sessions: Vec<_> = sessions.iter().filter(|s| s.is_current).collect();
    assert_eq!(current_sessions.len(), 1, "Should have exactly one current session");
    assert_eq!(current_sessions[0].name, "dotfiles");
}

#[test]
fn test_session_metadata() {
    let metadata = SessionMetadata::new("test".to_string())
        .with_path("/test/path".to_string())
        .with_exists(true)
        .with_property("test_key".to_string(), "test_value".to_string());

    assert_eq!(metadata.session_type, "test");
    assert_eq!(metadata.path, Some("/test/path".to_string()));
    assert_eq!(metadata.exists, true);
    assert_eq!(metadata.get_property("test_key"), Some(&"test_value".to_string()));
    assert_eq!(metadata.get_property("missing_key"), None);
}

#[test]
fn test_session_item_formatting() {
    let metadata = SessionMetadata::new("active".to_string()).with_exists(true);

    let session = SessionItem::new(
        "test-session".to_string(),
        "active".to_string(),
        10,
        metadata.clone(),
        0,
    );

    let formatted = session.format_for_display();
    assert!(formatted.contains("test-session"));
    assert!(formatted.contains("●"));

    let current_session = SessionItem::new(
        "current-session".to_string(),
        "active".to_string(),
        10,
        metadata,
        0,
    )
    .with_current(true);

    let formatted_current = current_session.format_for_display();
    assert!(formatted_current.contains("current-session"));
    assert!(formatted_current.contains("→"));
}

#[test]
fn test_session_context_building() {
    let context = SessionContext::new()
        .with_current_session(Some("test".to_string()))
        .with_active_sessions(vec!["session1".to_string(), "session2".to_string()])
        .with_scratch_sessions(vec!["scratch1".to_string()]);

    assert_eq!(context.current_session, Some("test".to_string()));
    assert_eq!(context.active_sessions.len(), 2);
    assert_eq!(context.scratch_sessions.len(), 1);
}

#[test]
fn test_session_deduplication() {
    let plugin_manager = PluginManager::new();

    let context = build_context(
        &[
            ("duplicate", 1234567890),
            ("unique1", 1234567889),
            ("unique2", 1234567888),
        ],
        None,
    );
    let env = test_env();
    let sessions = plugin_manager.discover_all_sessions(&context, &env, Vec::new());

    let mut seen_names = HashSet::new();
    for session in &sessions {
        assert!(
            seen_names.insert(session.name.clone()),
            "Session name '{}' appears multiple times",
            session.name
        );
    }
}

#[test]
fn test_config_management() {
    let mut config = Config::default();

    assert_eq!(config.preview_enabled, true);

    config.preview_enabled = false;
    assert_eq!(config.preview_enabled, false);

    let plugin_dir = config.get_plugin_dir();
    assert!(plugin_dir.contains("tmux-session-manager"));
    assert!(plugin_dir.contains("plugins"));
}

#[test]
fn test_scratch_session_priority() {
    let plugin_manager = PluginManager::new();

    let context = build_context(
        &[
            ("regular-session", 1234567890),
            ("scratch-session", 1234567891),
            ("current-session", 1234567892),
        ],
        Some("current-session"),
    );
    let env = test_env();
    let sessions = plugin_manager.discover_all_sessions(&context, &env, Vec::new());

    let scratch_sessions: Vec<_> = sessions.iter().filter(|s| s.plugin_name == "scratch").collect();
    let regular_sessions: Vec<_> = sessions.iter().filter(|s| s.plugin_name == "active").collect();

    assert!(scratch_sessions.len() > 0, "Should find scratch sessions");
    assert!(regular_sessions.len() > 0, "Should find regular sessions");

    for scratch in &scratch_sessions {
        for regular in &regular_sessions {
            assert!(
                scratch.priority > regular.priority,
                "Scratch session priority ({}) should be higher than regular session priority ({})",
                scratch.priority,
                regular.priority
            );
        }
    }
}

#[test]
fn test_plugin_dependencies() {
    let plugin_manager = PluginManager::new();
    let plugins = plugin_manager.list_plugins();

    assert!(plugins.len() >= 4, "Should load all core plugins");

    let plugin_names: HashSet<&str> = plugins.iter().map(|(name, _, _)| name.as_str()).collect();

    assert!(plugin_names.contains("active"), "Should have active plugin");
    assert!(plugin_names.contains("worktree"), "Should have worktree plugin");
    assert!(plugin_names.contains("scratch"), "Should have scratch plugin");
    assert!(plugin_names.contains("tmuxinator"), "Should have tmuxinator plugin");
}

#[test]
fn test_integration_bash_compatibility() {
    let plugin_manager = PluginManager::new();

    let context = build_context(
        &[
            ("main", 1234567890),
            ("dotfiles", 1234567889),
            ("notes", 1234567888),
            ("scratch-session", 1234567887),
            ("default", 1234567886),
        ],
        Some("dotfiles"),
    );
    let env = test_env();
    let sessions = plugin_manager.discover_all_sessions(&context, &env, Vec::new());

    assert!(sessions.len() > 0, "Should discover sessions");

    let current_count = sessions.iter().filter(|s| s.is_current).count();
    assert_eq!(current_count, 1, "Should have exactly one current session");

    let priorities: Vec<u32> = sessions.iter().map(|s| s.priority).collect();
    let mut sorted_priorities = priorities.clone();
    sorted_priorities.sort();
    assert_eq!(priorities, sorted_priorities, "Sessions should be sorted by priority");

    let names: Vec<String> = sessions.iter().map(|s| s.name.clone()).collect();
    let unique_names: HashSet<_> = names.iter().collect();
    assert_eq!(names.len(), unique_names.len(), "Should not have duplicate session names");
}

#[test]
fn test_worktree_session_switching() {
    let plugin_manager = PluginManager::new();

    let context = build_context(
        &[("tmux-session-manager", 1234567890), ("dotfiles", 1234567889)],
        Some("tmux-session-manager"),
    );
    let env = test_env();

    let session_name = "dotfiles-tmux-session-manager".to_string();
    let plugin_found =
        plugin_manager.find_plugin_for_session(&session_name, &context, &env, &Vec::new());

    // with no live session and no worktree listing, only the scratch
    // source's catch-all ownership test accepts the name
    match plugin_found {
        Some(PluginRef::Builtin { index }) => {
            let plugin = &plugin_manager.builtin_plugins[index];
            assert_eq!(plugin.name(), "scratch");
            let resolved = plugin.resolve(&session_name, &context, &env);
            match resolved {
                Ok(metadata) => {
                    assert_eq!(metadata.session_type, "scratch");
                    assert!(!metadata.exists);
                }
                Err(e) => panic!("Resolve failed: {}", e.message()),
            }
        }
        other => panic!("Expected a built-in owner, got {:?}", other),
    }
}
