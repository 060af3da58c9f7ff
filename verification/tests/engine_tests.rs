use tmux_session_manager::SessionError;
use tmux_session_manager::active::ActivePlugin;
use tmux_session_manager::config::Config;
use tmux_session_manager::recent::RecentPlugin;
use tmux_session_manager::control::{LoopDecision, decide_next};
use tmux_session_manager::manager::PluginManager;
use tmux_session_manager::session::{
    EnvSnapshot, RepoKind, SessionContext, SessionItem, SessionMetadata, TmuxSession,
};
use tmux_session_manager::strutil::u32_to_string;
use tmux_session_manager::tmux::TmuxClient;
use tmux_session_manager::traits::{
    KillPlan, PluginMetadata, PreviewData, PreviewPlan, SwitchPlan,
};
use tmux_session_manager::ui::{FzfInterface, FzfResult};
use tmux_session_manager::worktree::WorktreePlugin;

fn make_context(sessions: &[(&str, i64)], current: Option<&str>) -> SessionContext {
    let mut all: Vec<TmuxSession> = sessions
        .iter()
        .map(|(name, ts)| TmuxSession {
            name: name.to_string(),
            last_attached: *ts,
            windows: 1,
            attached: false,
            current_path: None,
        })
        .collect();
    all.sort_by(|a, b| b.last_attached.cmp(&a.last_attached));

    let mut active = Vec::new();
    let mut scratch = Vec::new();
    for s in &all {
        if Some(s.name.as_str()) == current {
            continue;
        }
        if s.name.contains("scratch") {
            scratch.push(s.name.clone());
        } else {
            active.push(s.name.clone());
        }
    }

    SessionContext::new()
        .with_current_session(current.map(|c| c.to_string()))
        .with_active_sessions(active)
        .with_scratch_sessions(scratch)
        .with_all_tmux_sessions(all)
}

fn plain_env() -> EnvSnapshot {
    EnvSnapshot::new()
        .with_now(1234567895)
        .with_available_commands(vec!["tmux".to_string(), "git".to_string()])
}

fn meta(name: &str) -> PluginMetadata {
    PluginMetadata {
        name: name.to_string(),
        description: String::new(),
        version: "1.0".to_string(),
        priority: 42,
        dependencies: Vec::new(),
        author: None,
        homepage: None,
    }
}

fn item(name: &str, priority: u32, ts: i64) -> SessionItem {
    SessionItem::new(
        name.to_string(),
        "dynamic".to_string(),
        priority,
        SessionMetadata::new("dynamic".to_string()),
        ts,
    )
}

// Scenario: five live sessions, one current, one scratch-named — the list
// has one current record, the scratch record last in its own tier, and the
// rest ranked by tier and then by last-used recency within the tier.
#[test]
fn scenario_full_round_ordering() {
    let manager = PluginManager::new();
    let context = make_context(
        &[
            ("main", 1234567890),
            ("dotfiles", 1234567889),
            ("notes", 1234567888),
            ("scratch-session", 1234567887),
            ("default", 1234567886),
        ],
        Some("dotfiles"),
    );
    let env = plain_env();
    let sessions = manager.discover_all_sessions(&context, &env, Vec::new());

    let names: Vec<&str> = sessions.iter().map(|s| s.name.as_str()).collect();
    assert_eq!(names, vec!["main", "dotfiles", "notes", "default", "scratch-session"]);

    // main is claimed by the most-recent source at the top tier
    assert_eq!(sessions[0].plugin_name, "recent");
    assert_eq!(sessions[0].priority, 0);

    // the active tier carries each session's last-used time, so its order
    // is recency, not discovery order
    assert_eq!(sessions[1].timestamp, 1234567889);
    assert_eq!(sessions[2].timestamp, 1234567888);
    assert_eq!(sessions[3].timestamp, 1234567886);

    // exactly one current record, and it is the current session
    let current: Vec<_> = sessions.iter().filter(|s| s.is_current).collect();
    assert_eq!(current.len(), 1);
    assert_eq!(current[0].name, "dotfiles");

    // the scratch record sits alone in the last tier
    let last = sessions.last().unwrap();
    assert_eq!(last.name, "scratch-session");
    assert_eq!(last.priority, 999);
    assert_eq!(last.plugin_name, "scratch");
}

// Scenario: a registered source declaring an unavailable dependency
// contributes zero records and does not abort the round.
#[test]
fn scenario_missing_dependency_contributes_nothing() {
    let mut manager = PluginManager::new();
    let mut broken = meta("broken");
    broken.dependencies = vec!["nonexistent-tool-xyz".to_string()];
    manager.register_dynamic_plugin(broken);

    let context = make_context(&[("main", 1234567890)], None);
    let env = plain_env();
    let batches = vec![vec![item("ghosty", 1, 1234567890)]];
    let sessions = manager.discover_all_sessions(&context, &env, batches);

    assert!(sessions.len() > 0);
    assert!(sessions.iter().all(|s| s.name != "ghosty"));
}

// A registered source whose dependencies are available does contribute.
#[test]
fn dynamic_source_with_available_dependencies_contributes() {
    let mut manager = PluginManager::new();
    manager.register_dynamic_plugin(meta("extra"));

    let context = make_context(&[("main", 1234567890)], None);
    let env = plain_env();
    let batches = vec![vec![item("from-extra", 1, 1234567890)]];
    let sessions = manager.discover_all_sessions(&context, &env, batches);

    assert!(sessions.iter().any(|s| s.name == "from-extra"));
}

// Scenario: dispatch against a name no source owns fails with NotFound,
// not a panic or a silent no-op.
#[test]
fn scenario_dispatch_unowned_name_is_not_found() {
    let manager = PluginManager::new();
    let context = make_context(&[], None);
    let env = plain_env();

    let r = manager.dispatch_switch(None, "ghost-session", &context, &env);
    match r {
        Err(SessionError::NotFound(msg)) => {
            assert_eq!(msg, "No plugin found for session: ghost-session");
        }
        other => panic!("expected NotFound, got {:?}", other),
    }
}

// Dedup tie-break: two sources emit the same name at priorities 10 and 50;
// exactly one record with that name survives, at priority 10.
#[test]
fn dedup_keeps_lower_priority_record() {
    let mut manager = PluginManager::new();
    manager.register_dynamic_plugin(meta("dup"));

    // "top" heads the active list so the most-recent source claims it,
    // leaving shared-name to the active source at priority 10; the
    // registered source emits the same name at priority 50
    let context = make_context(&[("top", 1234567899), ("shared-name", 1234567890)], None);
    let env = plain_env();
    let batches = vec![vec![item("shared-name", 50, 1234567890)]];
    let sessions = manager.discover_all_sessions(&context, &env, batches);

    let matching: Vec<_> = sessions.iter().filter(|s| s.name == "shared-name").collect();
    assert_eq!(matching.len(), 1);
    assert_eq!(matching[0].priority, 10);
}

// And the mirror case: the registered record wins when its priority is lower.
#[test]
fn dedup_keeps_lower_priority_record_from_dynamic_source() {
    let mut manager = PluginManager::new();
    manager.register_dynamic_plugin(meta("dup"));

    let context = make_context(&[("top", 1234567899), ("shared-name", 1234567890)], None);
    let env = plain_env();
    let batches = vec![vec![item("shared-name", 3, 1234567890)]];
    let sessions = manager.discover_all_sessions(&context, &env, batches);

    let matching: Vec<_> = sessions.iter().filter(|s| s.name == "shared-name").collect();
    assert_eq!(matching.len(), 1);
    assert_eq!(matching[0].priority, 3);
}

// Resolving twice against the same snapshots yields identical metadata.
#[test]
fn resolve_twice_yields_equal_metadata() {
    let manager = PluginManager::new();
    let mut context = make_context(&[("work", 1234567890)], None);
    context.all_tmux_sessions[0].current_path = Some("/repo/wt".to_string());
    let env = plain_env()
        .with_path_kinds(vec![("/repo/wt".to_string(), RepoKind::WorktreeCheckout)])
        .with_branches(vec![("/repo/wt".to_string(), "feature".to_string())]);

    for plugin in &manager.builtin_plugins {
        let first = plugin.resolve("work", &context, &env);
        let second = plugin.resolve("work", &context, &env);
        assert_eq!(first, second, "{} resolve is not deterministic", plugin.name());
    }
}

#[test]
fn parse_session_line_reads_all_fields() {
    let tmux = TmuxClient::new();
    let parsed = tmux.parse_session_line("1234567890:main:2:1", 7).unwrap().unwrap();
    assert_eq!(parsed.name, "main");
    assert_eq!(parsed.last_attached, 1234567890);
    assert_eq!(parsed.windows, 2);
    assert!(parsed.attached);

    // a bad timestamp falls back to the observation time
    let fallback = tmux.parse_session_line("zzz:main:2:0", 7).unwrap().unwrap();
    assert_eq!(fallback.last_attached, 7);
    assert!(!fallback.attached);

    // too few fields is not a session line
    assert_eq!(tmux.parse_session_line("only:three:fields", 7).unwrap(), None);
}

#[test]
fn parse_session_line_rejects_bad_window_count() {
    let tmux = TmuxClient::new();
    let r = tmux.parse_session_line("1:main:notanumber:1", 7);
    match r {
        Err(SessionError::MalformedExternalOutput(msg)) => {
            assert_eq!(msg, "Invalid window count: notanumber");
        }
        other => panic!("expected MalformedExternalOutput, got {:?}", other),
    }
}

#[test]
fn parse_session_list_orders_most_recent_first() {
    let tmux = TmuxClient::new();
    let output = "100:old:1:0\n300:new:1:0\n200:mid:1:0\n";
    let sessions = tmux.parse_session_list(output, 7).unwrap();
    let names: Vec<&str> = sessions.iter().map(|s| s.name.as_str()).collect();
    assert_eq!(names, vec!["new", "mid", "old"]);

    // one malformed line fails the whole listing
    assert!(tmux.parse_session_list("100:a:bad:0\n", 7).is_err());
}

#[test]
fn categorize_sessions_partitions_and_orders() {
    let tmux = TmuxClient::new();
    let sessions = vec![
        TmuxSession {
            name: "alpha".to_string(),
            last_attached: 100,
            windows: 1,
            attached: false,
            current_path: None,
        },
        TmuxSession {
            name: "my-scratch-thing".to_string(),
            last_attached: 300,
            windows: 1,
            attached: false,
            current_path: None,
        },
        TmuxSession {
            name: "beta".to_string(),
            last_attached: 200,
            windows: 1,
            attached: false,
            current_path: None,
        },
        TmuxSession {
            name: "here".to_string(),
            last_attached: 400,
            windows: 1,
            attached: false,
            current_path: None,
        },
    ];
    let (active, scratch) = tmux.categorize_sessions(&sessions, &Some("here".to_string()));
    assert_eq!(active, vec!["beta".to_string(), "alpha".to_string()]);
    assert_eq!(scratch, vec!["my-scratch-thing".to_string()]);
}

#[test]
fn parse_session_info_reads_windows_and_attached() {
    let tmux = TmuxClient::new();
    assert_eq!(tmux.parse_session_info("3:1\n").unwrap(), (3, true));
    assert_eq!(tmux.parse_session_info("12:0").unwrap(), (12, false));
    assert!(tmux.parse_session_info("nonsense").is_err());
    assert!(tmux.parse_session_info("x:1").is_err());
}

#[test]
fn worktree_listing_parses_paths_and_short_names() {
    let plugin = WorktreePlugin::new();
    let output = "worktree /repo/main\nHEAD abcdef\nbranch refs/heads/main\n\nworktree /repo/.wt-fix\nHEAD 123456\nbranch refs/heads/fix\n";
    let entries = plugin.parse_worktree_list(output);
    assert_eq!(
        entries,
        vec![
            ("/repo/main".to_string(), "main".to_string()),
            ("/repo/.wt-fix".to_string(), ".wt-fix".to_string()),
        ]
    );
}

#[test]
fn tmux_safe_name_drops_leading_dot() {
    let plugin = WorktreePlugin::new();
    assert_eq!(plugin.get_tmux_safe_name(".dotfiles"), "dotfiles");
    assert_eq!(plugin.get_tmux_safe_name("plain"), "plain");
}

#[test]
fn worktree_discovery_offers_unmaterialized_worktrees() {
    let manager = PluginManager::new();
    let mut context = make_context(&[("elsewhere", 1234567890)], None);
    context.all_tmux_sessions[0].current_path = Some("/repo/main".to_string());
    let env = plain_env()
        .with_worktree_output(Some(
            "worktree /repo/main\nbranch refs/heads/main\nworktree /repo/wt-fix\nbranch refs/heads/fix\n"
                .to_string(),
        ))
        .with_path_kinds(vec![
            ("/repo/main".to_string(), RepoKind::MainCheckout),
            ("/repo/wt-fix".to_string(), RepoKind::WorktreeCheckout),
        ]);
    let sessions = manager.discover_all_sessions(&context, &env, Vec::new());

    // the main checkout is skipped, the worktree without a session offered
    let wt: Vec<_> = sessions.iter().filter(|s| s.plugin_name == "worktree").collect();
    assert_eq!(wt.len(), 1);
    assert_eq!(wt[0].name, "wt-fix");
    assert!(!wt[0].metadata.exists);
    assert_eq!(wt[0].metadata.path, Some("/repo/wt-fix".to_string()));
    assert!(sessions.iter().all(|s| s.name != "main"));
}

#[test]
fn worktree_switch_plans_create_when_session_absent() {
    let plugin = WorktreePlugin::new();
    let context = make_context(&[], None);
    let env = plain_env().with_path_kinds(vec![(
        "/repo/.wt".to_string(),
        RepoKind::WorktreeCheckout,
    )]);
    let metadata = SessionMetadata::new("worktree".to_string())
        .with_exists(false)
        .with_path("/repo/.wt".to_string());

    let plan = plugin.switch(".wt", &metadata, &context, &env).unwrap();
    assert_eq!(
        plan,
        SwitchPlan::CreateThenEnter {
            session: "wt".to_string(),
            path: Some("/repo/.wt".to_string()),
            attach: true,
        }
    );

    // with the session live under its sanitized name, no creation
    let live = make_context(&[("wt", 1)], None);
    let plan2 = plugin.switch(".wt", &metadata, &live, &env).unwrap();
    assert_eq!(plan2, SwitchPlan::Enter { session: "wt".to_string(), attach: true });

    // a metadata without a path cannot be switched to
    let bare = SessionMetadata::new("worktree".to_string());
    assert!(plugin.switch(".wt", &bare, &context, &env).is_err());

    // a path that does not exist on disk cannot be switched to
    let gone = plugin.switch(".wt", &metadata, &context, &plain_env());
    match gone {
        Err(SessionError::NotFound(msg)) => {
            assert_eq!(msg, "Worktree path does not exist: /repo/.wt");
        }
        other => panic!("expected NotFound, got {:?}", other),
    }
}

#[test]
fn tmuxinator_discovery_and_start_plans() {
    let manager = PluginManager::new();
    let context = make_context(&[("top", 99), ("proj", 50)], None);
    let env = EnvSnapshot::new()
        .with_now(1234567895)
        .with_available_commands(vec!["tmux".to_string(), "tmuxinator".to_string()])
        .with_config_files(vec![
            "/home/u/.config/tmuxinator/proj.yml".to_string(),
            "/home/u/.config/tmuxinator/other.yaml".to_string(),
            "/home/u/.config/tmuxinator/readme.txt".to_string(),
        ]);
    let sessions = manager.discover_all_sessions(&context, &env, Vec::new());

    let tx: Vec<_> = sessions.iter().filter(|s| s.plugin_name == "tmuxinator").collect();
    let tx_names: Vec<&str> = tx.iter().map(|s| s.name.as_str()).collect();
    assert!(tx_names.contains(&"other"));
    // "proj" is live, so the active source's priority-10 record wins dedup
    let proj: Vec<_> = sessions.iter().filter(|s| s.name == "proj").collect();
    assert_eq!(proj.len(), 1);
    assert_eq!(proj[0].priority, 10);

    // starting in the background launches the project detached
    let plan = manager
        .start_session("other", &context, &env, &Vec::new())
        .unwrap();
    assert_eq!(plan, SwitchPlan::ProjectStartDetached { session: "other".to_string() });
}

#[test]
fn kill_is_routed_to_the_generic_kill() {
    let manager = PluginManager::new();
    let context = make_context(&[("main", 10)], None);
    let env = plain_env();
    let plan = manager.kill_session("main", &context, &env, &Vec::new()).unwrap();
    assert_eq!(plan, KillPlan::KillTmux { session: "main".to_string() });
}

#[test]
fn switch_prefers_attach_outside_the_multiplexer() {
    let manager = PluginManager::new();
    let context = make_context(&[("main", 10), ("other", 5)], Some("main"));
    let outside = plain_env();
    let inside = plain_env().with_inside_tmux(true);

    let plan_outside = manager.switch_to_session("other", &context, &outside, &Vec::new()).unwrap();
    assert_eq!(plan_outside, SwitchPlan::Enter { session: "other".to_string(), attach: true });

    let plan_inside = manager.switch_to_session("other", &context, &inside, &Vec::new()).unwrap();
    assert_eq!(plan_inside, SwitchPlan::Enter { session: "other".to_string(), attach: false });
}

#[test]
fn display_line_has_exact_shape() {
    let md = SessionMetadata::new("recent".to_string()).with_exists(true);
    let it = SessionItem::new("mywork".to_string(), "recent".to_string(), 0, md, 0);
    assert_eq!(it.format_for_display(), "\u{1b}[1;33m★\u{1b}[0m mywork");

    let md2 = SessionMetadata::new("tmuxinator".to_string());
    let it2 = SessionItem::new("proj".to_string(), "tmuxinator".to_string(), 50, md2, 0);
    assert_eq!(it2.format_for_display(), "\u{1b}[0;90m●\u{1b}[0m proj (tmuxinator)");
}

#[test]
fn extract_session_name_strips_icon_and_annotation() {
    let ui = FzfInterface::new();
    assert_eq!(ui.extract_session_name("\u{1b}[1;32m●\u{1b}[0m work"), "work");
    assert_eq!(ui.extract_session_name("\u{1b}[0;90m●\u{1b}[0m proj (tmuxinator)"), "proj");
    assert_eq!(ui.extract_session_name("loneword"), "loneword");
}

#[test]
fn fzf_output_parses_key_and_selection() {
    let ui = FzfInterface::new();
    assert_eq!(ui.parse_fzf_result(""), FzfResult { key: None, selection: None });
    assert_eq!(
        ui.parse_fzf_result("● work\n"),
        FzfResult { key: None, selection: Some("● work".to_string()) }
    );
    assert_eq!(
        ui.parse_fzf_result("ctrl-x\n● work\n"),
        FzfResult { key: Some("ctrl-x".to_string()), selection: Some("● work".to_string()) }
    );
}

#[test]
fn loop_decisions_follow_the_pressed_key() {
    let ui = FzfInterface::new();
    let sel = |key: Option<&str>| FzfResult {
        key: key.map(|k| k.to_string()),
        selection: Some("● work".to_string()),
    };
    assert_eq!(
        decide_next(&ui, &sel(Some("ctrl-x"))),
        LoopDecision::KillAndRelist { session: "work".to_string() }
    );
    assert_eq!(decide_next(&ui, &sel(Some("ctrl-r"))), LoopDecision::RenameUnsupported);
    assert_eq!(
        decide_next(&ui, &sel(Some("ctrl-s"))),
        LoopDecision::StartAndRelist { session: "work".to_string() }
    );
    assert_eq!(decide_next(&ui, &sel(Some("ctrl-n"))), LoopDecision::NewUnsupported);
    assert_eq!(decide_next(&ui, &sel(Some("ctrl-p"))), LoopDecision::TogglePreviewAndRelist);
    assert_eq!(
        decide_next(&ui, &sel(None)),
        LoopDecision::Switch { session: "work".to_string() }
    );
    assert_eq!(
        decide_next(&ui, &FzfResult { key: None, selection: None }),
        LoopDecision::Cancelled
    );
}

#[test]
fn preview_texts_have_exact_shape() {
    let manager = PluginManager::new();
    let context = make_context(&[("work", 10)], None);
    let env = plain_env();
    let mut data = PreviewData::new();
    data.windows = Some(2);
    data.captured = Some("pane content".to_string());

    // "work" heads the active list, so the most-recent source owns it
    let plan = manager
        .preview_session("work", &context, &env, &Vec::new(), &data)
        .unwrap();
    match plan {
        PreviewPlan::Text(text) => {
            assert_eq!(
                text,
                "\u{1b}[1;33m★ work\u{1b}[0m (\u{1b}[1;33m2 windows\u{1b}[0m) \u{1b}[0;90m[most recent]\u{1b}[0m\n\u{1b}[0;90m────────────────────────────────────────\u{1b}[0m\npane content"
            );
        }
        other => panic!("expected text, got {:?}", other),
    }

    // without a window count, a live session's preview fails
    let plan2 = manager.preview_session("work", &context, &env, &Vec::new(), &PreviewData::new());
    assert!(matches!(plan2, Err(SessionError::ExternalToolFailure(_))));

    // a name nobody owns fails dispatch with NotFound; the scratch source
    // claims every name, so exercise the no-owner route directly
    let none_ctx = make_context(&[], None);
    let unowned = manager.dispatch_switch(None, "nobody", &none_ctx, &env);
    assert!(matches!(unowned, Err(SessionError::NotFound(_))));
}

// A source's resolve fails with NotFound for a name it does not own: the
// active source owns only live sessions, the most-recent source only the
// head of the active list.
#[test]
fn resolve_rejects_names_the_source_does_not_own() {
    let context = make_context(&[("work", 100), ("older", 50)], None);
    let env = plain_env();

    let active = ActivePlugin::new();
    match active.resolve("ghost", &context, &env) {
        Err(SessionError::NotFound(msg)) => assert_eq!(msg, "Session not found: ghost"),
        other => panic!("expected NotFound, got {:?}", other),
    }
    let live = active.resolve("work", &context, &env).unwrap();
    assert!(live.exists);

    let recent = RecentPlugin::new();
    match recent.resolve("older", &context, &env) {
        Err(SessionError::NotFound(msg)) => {
            assert_eq!(msg, "Not the most recent session: older")
        }
        other => panic!("expected NotFound, got {:?}", other),
    }
    let head = recent.resolve("work", &context, &env).unwrap();
    assert!(head.exists);
}

// The aggregated help legend holds every built-in source's lines in
// declaration order, then each registered source's lines in load order.
#[test]
fn help_text_concatenates_builtin_and_registered_lines() {
    let mut manager = PluginManager::new();
    manager.register_dynamic_plugin(meta("extra"));

    let dynamic_help = vec![vec!["X - extra session".to_string()]];
    let lines = manager.get_all_help_text(&dynamic_help);

    // recent 1, worktree 2, active 2, tmuxinator 1, scratch 1, registered 1
    assert_eq!(lines.len(), 8);
    assert_eq!(lines[0], "\u{1b}[1;33m★\u{1b}[0m - Most recent session");
    assert_eq!(lines[7], "X - extra session");
}

// Equal-priority tie-break: when two sources emit the same name at the same
// priority, the contribution arriving earlier in source order survives.
#[test]
fn equal_priority_tie_keeps_the_earlier_record() {
    let mut manager = PluginManager::new();
    manager.register_dynamic_plugin(meta("first"));
    manager.register_dynamic_plugin(meta("second"));

    let context = make_context(&[], None);
    let env = plain_env();
    let batches = vec![
        vec![item("tie", 20, 111)],
        vec![item("tie", 20, 222)],
    ];
    let sessions = manager.discover_all_sessions(&context, &env, batches);

    let matching: Vec<_> = sessions.iter().filter(|s| s.name == "tie").collect();
    assert_eq!(matching.len(), 1);
    assert_eq!(matching[0].priority, 20);
    assert_eq!(matching[0].timestamp, 111);
}

#[test]
fn tmuxinator_preview_summarizes_the_definition() {
    let plugin = tmux_session_manager::tmuxinator::TmuxinatorPlugin::new();
    let summary = plugin.read_config_summary(
        "name: proj\nroot: \"/home/u/proj\"\nwindows:\n  - editor: vim\n  - shell\n",
    );
    assert_eq!(summary, "Root: /home/u/proj\nWindows: editor, shell\n");
}

#[test]
fn decimal_rendering_is_exact() {
    assert_eq!(u32_to_string(0), "0");
    assert_eq!(u32_to_string(7), "7");
    assert_eq!(u32_to_string(12), "12");
    assert_eq!(u32_to_string(4294967295), "4294967295");
}

#[test]
fn error_messages_carry_their_text() {
    assert_eq!(
        SessionError::DependencyMissing("git".to_string()).message().as_str(),
        "git"
    );
    assert_eq!(
        SessionError::ExternalToolFailure("tmux exploded".to_string()).message().as_str(),
        "tmux exploded"
    );
}

#[test]
fn config_path_sits_under_the_config_directory() {
    match Config::get_config_path() {
        Ok(path) => assert!(path.ends_with("/tmux-session-manager/config.json")),
        Err(_) => {}
    }
}

#[test]
fn metadata_property_replacement_keeps_keys_unique() {
    let md = SessionMetadata::new("t".to_string())
        .with_property("k".to_string(), "v1".to_string())
        .with_property("k".to_string(), "v2".to_string());
    assert_eq!(md.get_property("k"), Some(&"v2".to_string()));
    assert_eq!(md.properties.len(), 1);
}

#[test]
fn active_ownership_defers_worktree_sessions() {
    let manager = PluginManager::new();
    // "plain" heads the active list (so the most-recent source does not
    // claim "inwt"); "inwt" runs inside a worktree checkout
    let mut context = make_context(&[("inwt", 50), ("plain", 100)], None);
    context.all_tmux_sessions[1].current_path = Some("/repo/wt".to_string());
    let env = plain_env().with_path_kinds(vec![(
        "/repo/wt".to_string(),
        RepoKind::WorktreeCheckout,
    )]);

    // the worktree source (declared before the active source) owns "inwt"
    match manager.find_plugin_for_session("inwt", &context, &env, &Vec::new()) {
        Some(tmux_session_manager::manager::PluginRef::Builtin { index }) => {
            assert_eq!(manager.builtin_plugins[index].name(), "worktree");
        }
        other => panic!("expected a built-in owner, got {:?}", other),
    }
}
