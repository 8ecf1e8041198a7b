use easyhg::commands::{CommandResult, HgAction};
use easyhg::config::{AppConfig, CommandContext, CustomCommand};
use easyhg::domain::{
    Bookmark, ConflictEntry, FileChange, FileStatus, HgCapabilities, RebaseState, RepoSnapshot,
    Revision,
};
use easyhg::keys::{ActionId, KeyCode, KeyInput};
use easyhg::session::{
    ActionOutcomeKind, App, AppEvent, Effect, FocusPanel, InputPurpose, InputState, MouseButton,
    MouseEvent, MouseEventKind, PendingConfirmation, PendingRunAction, Region, UiRects,
    DOUBLE_CLICK_THRESHOLD_MS,
};

fn region(x: u16, y: u16, width: u16, height: u16) -> Region {
    Region { x, y, width, height }
}

fn make_app() -> App {
    let mut app = App::new(AppConfig::default());
    app.ui_rects = UiRects {
        header: region(0, 0, 100, 2),
        footer: region(0, 29, 100, 1),
        files: region(0, 2, 58, 12),
        details: region(0, 14, 58, 15),
        revisions: region(58, 2, 42, 10),
        bookmarks: region(58, 12, 42, 5),
        shelves: region(58, 17, 21, 5),
        conflicts: region(79, 17, 21, 5),
        log: region(58, 22, 42, 7),
    };
    app
}

fn revision_fixture(rev: i64) -> Revision {
    Revision {
        rev,
        node: format!("node-{rev}"),
        desc: format!("desc-{rev}"),
        user: "u".to_string(),
        branch: "default".to_string(),
        phase: "draft".to_string(),
        tags: Vec::new(),
        bookmarks: Vec::new(),
        date_unix_secs: 0,
        graph_prefix: Some("o".to_string()),
    }
}

fn bookmark_fixture(name: &str, rev: i64) -> Bookmark {
    Bookmark { name: name.to_string(), rev, node: name.to_string(), active: false }
}

fn file_fixture(path: &str) -> FileChange {
    FileChange { path: path.to_string(), status: FileStatus::Modified }
}

fn left_down(column: u16, row: u16) -> MouseEvent {
    MouseEvent { kind: MouseEventKind::Down(MouseButton::Left), column, row }
}

fn scroll_down(column: u16, row: u16) -> MouseEvent {
    MouseEvent { kind: MouseEventKind::ScrollDown, column, row }
}

fn scroll_up(column: u16, row: u16) -> MouseEvent {
    MouseEvent { kind: MouseEventKind::ScrollUp, column, row }
}

fn ok_result(preview: &str) -> CommandResult {
    CommandResult {
        command_preview: preview.to_string(),
        success: true,
        stdout: String::new(),
        stderr: String::new(),
    }
}

#[test]
fn panel_hit_testing() {
    let app = make_app();
    assert_eq!(app.panel_at(1, 3), Some(FocusPanel::Files));
    assert_eq!(app.panel_at(80, 3), Some(FocusPanel::Revisions));
    assert_eq!(app.panel_at(90, 26), Some(FocusPanel::Log));
    assert_eq!(app.panel_at(20, 20), None);
}

#[test]
fn row_mapping_uses_offset() {
    let mut app = make_app();
    app.snapshot.files = (0..20).map(|i| file_fixture(&format!("f{i}"))).collect();
    app.files_offset = 5;
    assert_eq!(app.list_row_from_point(FocusPanel::Files, 2, 3), Some(5));
    assert_eq!(app.list_row_from_point(FocusPanel::Files, 2, 4), Some(6));
}

#[test]
fn mouse_click_selects_row_and_focuses_panel() {
    let mut app = make_app();
    app.snapshot.bookmarks = vec![bookmark_fixture("a", 1), bookmark_fixture("b", 2)];
    app.handle_mouse(left_down(60, 13));
    assert_eq!(app.focus, FocusPanel::Bookmarks);
    assert_eq!(app.bookmarks_idx, 0);
}

#[test]
fn modal_blocks_mouse() {
    let mut app = make_app();
    app.focus = FocusPanel::Files;
    app.confirmation = Some(PendingConfirmation {
        message: "Confirm".to_string(),
        action: PendingRunAction::Hg(HgAction::Push),
    });
    app.handle_mouse(left_down(80, 3));
    assert_eq!(app.focus, FocusPanel::Files);
}

#[test]
fn mouse_scroll_falls_back_to_focused_panel_when_not_over_panel() {
    let mut app = make_app();
    app.focus = FocusPanel::Bookmarks;
    app.snapshot.bookmarks = vec![bookmark_fixture("a", 1), bookmark_fixture("b", 2)];
    app.handle_mouse(scroll_down(1, 1));
    assert_eq!(app.focus, FocusPanel::Bookmarks);
    assert_eq!(app.bookmarks_idx, 1);
}

#[test]
fn mouse_scroll_prefers_hovered_panel_over_focused_panel() {
    let mut app = make_app();
    app.focus = FocusPanel::Conflicts;
    app.conflicts_idx = 1;
    app.snapshot.bookmarks = vec![bookmark_fixture("a", 1), bookmark_fixture("b", 2)];
    app.snapshot.conflicts = vec![
        ConflictEntry { resolved: false, path: "x".to_string() },
        ConflictEntry { resolved: false, path: "y".to_string() },
    ];
    app.handle_mouse(scroll_down(60, 13));
    assert_eq!(app.focus, FocusPanel::Bookmarks);
    assert_eq!(app.bookmarks_idx, 1);
    assert_eq!(app.conflicts_idx, 1);
}

#[test]
fn mouse_scroll_on_details_uses_details_offset_without_changing_focus() {
    let mut app = make_app();
    app.focus = FocusPanel::Files;
    app.files_idx = 2;
    app.detail_text = (0..30).map(|i| format!("line-{i}")).collect::<Vec<_>>().join("\n");
    app.handle_mouse(scroll_down(2, 15));
    assert_eq!(app.details_scroll, 1);
    assert_eq!(app.focus, FocusPanel::Files);
    assert_eq!(app.files_idx, 2);
    app.handle_mouse(scroll_up(2, 15));
    assert_eq!(app.details_scroll, 0);
}

#[test]
fn detail_scroll_resets_when_new_detail_arrives() {
    let mut app = make_app();
    app.details_scroll = 5;
    app.detail_request_id = 99;
    app.handle_app_event(AppEvent::DetailLoaded {
        request_id: 99,
        result: Ok("new detail text".to_string()),
    });
    assert_eq!(app.details_scroll, 0);
}

#[test]
fn stale_detail_completion_is_discarded() {
    let mut app = make_app();
    app.detail_request_id = 6;
    app.detail_text = "from request 6".to_string();
    app.handle_app_event(AppEvent::DetailLoaded {
        request_id: 5,
        result: Ok("from request 5".to_string()),
    });
    assert_eq!(app.detail_text, "from request 6");
}

#[test]
fn out_of_order_detail_completions_keep_latest_request() {
    let mut app = make_app();
    app.snapshot.files = vec![file_fixture("a.rs"), file_fixture("b.rs")];
    app.focus = FocusPanel::Files;
    app.files_idx = 0;
    app.refresh_detail_for_focus();
    let first_id = app.detail_request_id;
    app.files_idx = 1;
    app.refresh_detail_for_focus();
    let second_id = app.detail_request_id;
    assert_ne!(first_id, second_id);
    // the completions arrive out of order: the newer one first
    app.handle_app_event(AppEvent::DetailLoaded {
        request_id: second_id,
        result: Ok("diff of b.rs".to_string()),
    });
    app.handle_app_event(AppEvent::DetailLoaded {
        request_id: first_id,
        result: Ok("diff of a.rs".to_string()),
    });
    assert_eq!(app.detail_text, "diff of b.rs");
}

#[test]
fn periodic_snapshot_refresh_preserves_detail_scroll_for_same_target() {
    let mut app = make_app();
    app.focus = FocusPanel::Files;
    app.files_idx = 0;
    app.snapshot.files = vec![file_fixture("src/main.rs")];
    app.detail_text = (0..30).map(|i| format!("line-{i}")).collect::<Vec<_>>().join("\n");
    app.details_scroll = 7;
    let snapshot = RepoSnapshot {
        files: vec![file_fixture("src/main.rs")],
        ..RepoSnapshot::default()
    };
    app.handle_app_event(AppEvent::SnapshotLoaded {
        preserve_details: true,
        include_revisions: true,
        result: Ok(snapshot),
    });
    assert_eq!(app.details_scroll, 7);
}

#[test]
fn periodic_snapshot_refresh_resets_detail_scroll_when_target_changes() {
    let mut app = make_app();
    app.focus = FocusPanel::Files;
    app.files_idx = 0;
    app.snapshot.files = vec![file_fixture("src/main.rs")];
    app.details_scroll = 7;
    app.handle_app_event(AppEvent::SnapshotLoaded {
        preserve_details: true,
        include_revisions: true,
        result: Ok(RepoSnapshot::default()),
    });
    assert_eq!(app.details_scroll, 0);
}

#[test]
fn explicit_snapshot_refresh_resets_detail_scroll() {
    let mut app = make_app();
    app.focus = FocusPanel::Files;
    app.files_idx = 0;
    app.snapshot.files = vec![file_fixture("src/main.rs")];
    app.details_scroll = 7;
    app.handle_app_event(AppEvent::SnapshotLoaded {
        preserve_details: false,
        include_revisions: true,
        result: Ok(RepoSnapshot::default()),
    });
    assert_eq!(app.details_scroll, 0);
}

#[test]
fn lightweight_snapshot_refresh_preserves_existing_revisions() {
    let mut app = make_app();
    app.snapshot.revisions = vec![Revision {
        rev: 7,
        node: "abc".to_string(),
        desc: "old".to_string(),
        user: "u".to_string(),
        branch: "default".to_string(),
        phase: "draft".to_string(),
        tags: Vec::new(),
        bookmarks: Vec::new(),
        date_unix_secs: 0,
        graph_prefix: None,
    }];
    app.handle_app_event(AppEvent::SnapshotLoaded {
        preserve_details: true,
        include_revisions: false,
        result: Ok(RepoSnapshot::default()),
    });
    assert_eq!(app.snapshot.revisions.len(), 1);
    assert_eq!(app.snapshot.revisions[0].rev, 7);
}

#[test]
fn full_snapshot_refresh_replaces_revisions() {
    let mut app = make_app();
    app.snapshot.revisions = vec![revision_fixture(7)];
    let fresh = RepoSnapshot {
        revisions: vec![revision_fixture(8)],
        ..RepoSnapshot::default()
    };
    app.handle_app_event(AppEvent::SnapshotLoaded {
        preserve_details: true,
        include_revisions: true,
        result: Ok(fresh),
    });
    assert_eq!(app.snapshot.revisions.len(), 1);
    assert_eq!(app.snapshot.revisions[0].rev, 8);
}

#[test]
fn periodic_refresh_uses_lightweight_snapshot_mode() {
    let mut app = make_app();
    app.set_clock(10_000, "00:00:10".to_string());
    app.last_refresh_ms = 0;
    app.periodic_refresh();
    let effects = app.take_effects();
    assert_eq!(effects.len(), 1);
    assert!(matches!(
        effects[0],
        Effect::RefreshSnapshot { preserve_details: true, include_revisions: false }
    ));
}

#[test]
fn periodic_refresh_is_throttled() {
    let mut app = make_app();
    app.set_clock(10_000, "00:00:10".to_string());
    app.last_refresh_ms = 9_000;
    app.periodic_refresh();
    assert_eq!(app.take_effects().len(), 0);
}

#[test]
fn manual_refresh_uses_full_snapshot_mode() {
    let mut app = make_app();
    app.refresh_snapshot(false);
    let effects = app.take_effects();
    assert_eq!(effects.len(), 1);
    assert!(matches!(
        effects[0],
        Effect::RefreshSnapshot { preserve_details: false, include_revisions: true }
    ));
}

#[test]
fn rebase_picker_requires_distinct_source_and_destination() {
    let mut app = make_app();
    app.snapshot.capabilities.has_rebase = true;
    app.snapshot.revisions = vec![revision_fixture(12)];
    app.rev_idx = 0;
    app.dispatch_action(ActionId::RebaseSelected);
    assert_eq!(app.pending_rebase_source, Some(12));
    assert!(app.confirmation.is_none());
    app.dispatch_action(ActionId::RebaseSelected);
    assert_eq!(app.pending_rebase_source, Some(12));
    assert!(app.confirmation.is_none());
    assert!(app.status_line.contains("different destination"));
}

#[test]
fn rebase_picker_two_step_sets_confirmation() {
    let mut app = make_app();
    app.snapshot.capabilities.has_rebase = true;
    app.snapshot.revisions = vec![revision_fixture(20), revision_fixture(18)];
    app.rev_idx = 0;
    app.dispatch_action(ActionId::RebaseSelected);
    assert_eq!(app.pending_rebase_source, Some(20));
    assert!(app.confirmation.is_none());
    assert!(app.status_line.contains("step 1/2"));
    app.rev_idx = 1;
    app.dispatch_action(ActionId::RebaseSelected);
    assert_eq!(app.pending_rebase_source, None);
    assert!(app.status_line.contains("step 2/2"));
    let confirm = app.confirmation.as_ref().expect("rebase confirmation");
    assert!(confirm.message.contains("20"));
    assert!(confirm.message.contains("18"));
    match &confirm.action {
        PendingRunAction::Hg(HgAction::RebaseSourceDest { source_rev, dest_rev }) => {
            assert_eq!(*source_rev, 20);
            assert_eq!(*dest_rev, 18);
        }
        other => panic!("unexpected action: {other:?}"),
    }
}

#[test]
fn esc_cancels_rebase_picker_source_selection() {
    let mut app = make_app();
    app.snapshot.capabilities.has_rebase = true;
    app.snapshot.revisions = vec![revision_fixture(20), revision_fixture(18)];
    app.rev_idx = 0;
    app.dispatch_action(ActionId::RebaseSelected);
    assert_eq!(app.pending_rebase_source, Some(20));
    app.handle_key(KeyInput::plain(KeyCode::Esc));
    assert_eq!(app.pending_rebase_source, None);
    assert_eq!(app.status_line, "Rebase selection cancelled.");
}

#[test]
fn rebase_continue_blocked_without_in_progress_rebase() {
    let mut app = make_app();
    app.snapshot.capabilities.has_rebase = true;
    app.snapshot.rebase.in_progress = false;
    app.dispatch_action(ActionId::RebaseContinue);
    assert!(app.confirmation.is_none());
    assert_eq!(app.status_line, "No rebase is currently in progress.");
    assert!(app.detail_text.contains("No rebase is currently in progress."));
}

#[test]
fn rebase_continue_blocked_with_unresolved_conflicts() {
    let mut app = make_app();
    app.snapshot.capabilities.has_rebase = true;
    app.snapshot.rebase.in_progress = true;
    app.snapshot.rebase.unresolved_conflicts = 2;
    app.dispatch_action(ActionId::RebaseContinue);
    assert!(app.confirmation.is_none());
    assert!(app.status_line.contains("Cannot continue rebase"));
    assert!(app.detail_text.contains("2 unresolved conflict"));
}

#[test]
fn rebase_continue_and_abort_open_confirmations_when_in_progress_and_clear() {
    let mut app = make_app();
    app.snapshot.capabilities.has_rebase = true;
    app.snapshot.rebase.in_progress = true;
    app.snapshot.rebase.unresolved_conflicts = 0;
    app.dispatch_action(ActionId::RebaseContinue);
    match app.confirmation.as_ref().map(|c| &c.action) {
        Some(PendingRunAction::Hg(HgAction::RebaseContinue)) => {}
        other => panic!("unexpected continue confirmation: {other:?}"),
    }
    app.confirmation = None;
    app.dispatch_action(ActionId::RebaseAbort);
    match app.confirmation.as_ref().map(|c| &c.action) {
        Some(PendingRunAction::Hg(HgAction::RebaseAbort)) => {}
        other => panic!("unexpected abort confirmation: {other:?}"),
    }
}

#[test]
fn rebase_abort_blocked_without_in_progress_rebase() {
    let mut app = make_app();
    app.snapshot.capabilities.has_rebase = true;
    app.snapshot.rebase.in_progress = false;
    app.dispatch_action(ActionId::RebaseAbort);
    assert!(app.confirmation.is_none());
    assert_eq!(app.status_line, "No rebase is currently in progress.");
}

#[test]
fn rebase_action_without_extension_sets_actionable_detail_help() {
    let mut app = make_app();
    app.snapshot.capabilities.has_rebase = false;
    app.snapshot.revisions = vec![revision_fixture(20)];
    app.rev_idx = 0;
    app.dispatch_action(ActionId::RebaseSelected);
    assert_eq!(app.status_line, "Rebase extension not enabled.");
    assert!(app.detail_text.contains("[extensions]"));
    assert!(app.detail_text.contains("rebase ="));
}

#[test]
fn snapshot_logs_rebase_unavailable_notice_once() {
    let mut app = make_app();
    let snapshot = RepoSnapshot {
        capabilities: HgCapabilities { has_rebase: false, ..HgCapabilities::default() },
        ..RepoSnapshot::default()
    };
    app.handle_app_event(AppEvent::SnapshotLoaded {
        preserve_details: true,
        include_revisions: true,
        result: Ok(snapshot.clone()),
    });
    app.handle_app_event(AppEvent::SnapshotLoaded {
        preserve_details: true,
        include_revisions: true,
        result: Ok(snapshot),
    });
    let count = app.log_lines.iter().filter(|line| line.contains("Rebase unavailable")).count();
    assert_eq!(count, 1);
}

#[test]
fn snapshot_rebase_hint_indicates_continue_when_conflicts_resolved() {
    let mut app = make_app();
    app.snapshot.capabilities.has_rebase = true;
    app.handle_app_event(AppEvent::SnapshotLoaded {
        preserve_details: true,
        include_revisions: true,
        result: Ok(RepoSnapshot {
            capabilities: HgCapabilities { has_rebase: true, ..HgCapabilities::default() },
            rebase: RebaseState {
                in_progress: true,
                unresolved_conflicts: 0,
                resolved_conflicts: 2,
                total_conflicts: 2,
            },
            ..RepoSnapshot::default()
        }),
    });
    assert!(app.status_line.contains("all conflicts resolved"));
    assert!(app.log_lines.iter().any(|line| line.contains("all conflicts resolved")));
}

#[test]
fn snapshot_rebase_hint_indicates_remaining_conflicts() {
    let mut app = make_app();
    app.handle_app_event(AppEvent::SnapshotLoaded {
        preserve_details: true,
        include_revisions: true,
        result: Ok(RepoSnapshot {
            capabilities: HgCapabilities { has_rebase: true, ..HgCapabilities::default() },
            rebase: RebaseState {
                in_progress: true,
                unresolved_conflicts: 3,
                resolved_conflicts: 1,
                total_conflicts: 4,
            },
            ..RepoSnapshot::default()
        }),
    });
    assert!(app.status_line.contains("3 unresolved conflict"));
}

#[test]
fn snapshot_rebase_completion_emits_completion_status() {
    let mut app = make_app();
    app.handle_app_event(AppEvent::SnapshotLoaded {
        preserve_details: true,
        include_revisions: true,
        result: Ok(RepoSnapshot {
            capabilities: HgCapabilities { has_rebase: true, ..HgCapabilities::default() },
            rebase: RebaseState {
                in_progress: true,
                unresolved_conflicts: 0,
                resolved_conflicts: 0,
                total_conflicts: 0,
            },
            ..RepoSnapshot::default()
        }),
    });
    app.handle_app_event(AppEvent::SnapshotLoaded {
        preserve_details: true,
        include_revisions: true,
        result: Ok(RepoSnapshot {
            capabilities: HgCapabilities { has_rebase: true, ..HgCapabilities::default() },
            rebase: RebaseState {
                in_progress: false,
                unresolved_conflicts: 0,
                resolved_conflicts: 0,
                total_conflicts: 0,
            },
            ..RepoSnapshot::default()
        }),
    });
    assert_eq!(app.status_line, "Rebase is no longer in progress.");
}

#[test]
fn update_selected_without_target_sets_status_message() {
    let mut app = make_app();
    app.focus = FocusPanel::Revisions;
    app.snapshot.revisions.clear();
    app.dispatch_action(ActionId::UpdateSelected);
    assert_eq!(app.status_line, "No revision selected.");
    app.focus = FocusPanel::Bookmarks;
    app.snapshot.bookmarks.clear();
    app.dispatch_action(ActionId::UpdateSelected);
    assert_eq!(app.status_line, "No bookmark selected.");
}

#[test]
fn histedit_without_selected_revision_sets_status_message() {
    let mut app = make_app();
    app.snapshot.capabilities.has_histedit = true;
    app.snapshot.revisions.clear();
    app.dispatch_action(ActionId::HisteditSelected);
    assert_eq!(app.status_line, "No revision selected for histedit.");
}

#[test]
fn snapshot_with_flat_revisions_logs_graph_warning_once() {
    let mut app = make_app();
    let flat_snapshot = RepoSnapshot {
        revisions: vec![revision_fixture(4), revision_fixture(3)]
            .into_iter()
            .map(|mut rev| {
                rev.graph_prefix = None;
                rev
            })
            .collect(),
        ..RepoSnapshot::default()
    };
    app.handle_app_event(AppEvent::SnapshotLoaded {
        preserve_details: true,
        include_revisions: true,
        result: Ok(flat_snapshot.clone()),
    });
    let after_first =
        app.log_lines.iter().filter(|line| line.contains("Commit graph unavailable")).count();
    assert_eq!(after_first, 1);
    app.handle_app_event(AppEvent::SnapshotLoaded {
        preserve_details: true,
        include_revisions: true,
        result: Ok(flat_snapshot),
    });
    let after_second =
        app.log_lines.iter().filter(|line| line.contains("Commit graph unavailable")).count();
    assert_eq!(after_second, 1);
}

#[test]
fn detail_line_count_includes_trailing_newline_segment() {
    let mut app = make_app();
    app.detail_text = "a\nb\n".to_string();
    assert_eq!(app.detail_line_count(), 3);
}

#[test]
fn max_detail_scroll_counts_trailing_newline() {
    let mut app = make_app();
    let lines = (0..13).map(|i| format!("line-{i}")).collect::<Vec<_>>().join("\n");
    app.detail_text = format!("{lines}\n");
    assert_eq!(app.max_detail_scroll(), 1);
}

#[test]
fn max_detail_scroll_without_trailing_newline_is_unchanged() {
    let mut app = make_app();
    app.detail_text = (0..13).map(|i| format!("line-{i}")).collect::<Vec<_>>().join("\n");
    assert_eq!(app.max_detail_scroll(), 0);
}

#[test]
fn custom_command_templates_render_selected_context() {
    let mut app = make_app();
    app.snapshot.repo_root = Some("/repo".to_string());
    app.snapshot.branch = Some("default".to_string());
    app.snapshot.files = vec![file_fixture("src/main.rs")];
    app.snapshot.revisions = vec![Revision {
        rev: 42,
        node: "abcdef0123456789".to_string(),
        desc: "msg".to_string(),
        user: "u".to_string(),
        branch: "default".to_string(),
        phase: "draft".to_string(),
        tags: Vec::new(),
        bookmarks: Vec::new(),
        date_unix_secs: 0,
        graph_prefix: None,
    }];
    let command = CustomCommand {
        id: "demo".to_string(),
        title: "Demo".to_string(),
        context: CommandContext::Repo,
        command: "echo {repo_root}".to_string(),
        args: vec!["{branch}".to_string(), "{file}".to_string(), "{node}".to_string()],
        env: vec![("TARGET".to_string(), "{rev}".to_string())],
        show_output: true,
        needs_confirmation: false,
    };
    let run = app.prepare_custom_run_action(&command).expect("custom command");
    assert_eq!(run.invocation.program, "echo");
    assert_eq!(
        run.invocation.args,
        vec![
            "/repo".to_string(),
            "default".to_string(),
            "src/main.rs".to_string(),
            "abcdef0123456789".to_string()
        ]
    );
    assert_eq!(run.invocation.env, vec![("TARGET".to_string(), "42".to_string())]);
}

#[test]
fn custom_command_file_context_requires_selected_file() {
    let mut app = make_app();
    app.snapshot.repo_root = Some("/repo".to_string());
    let command = CustomCommand {
        id: "file-only".to_string(),
        title: "FileOnly".to_string(),
        context: CommandContext::File,
        command: "echo {file}".to_string(),
        args: Vec::new(),
        env: Vec::new(),
        show_output: true,
        needs_confirmation: false,
    };
    let err = app.prepare_custom_run_action(&command).expect_err("requires file selection");
    assert!(err.contains("file-context"));
}

#[test]
fn custom_command_revision_context_requires_selected_revision() {
    let mut app = make_app();
    app.snapshot.repo_root = Some("/repo".to_string());
    let command = CustomCommand {
        id: "rev-only".to_string(),
        title: "RevOnly".to_string(),
        context: CommandContext::Revision,
        command: "echo {rev}".to_string(),
        args: Vec::new(),
        env: Vec::new(),
        show_output: true,
        needs_confirmation: false,
    };
    let err = app.prepare_custom_run_action(&command).expect_err("requires revision selection");
    assert!(err.contains("revision-context"));
}

#[test]
fn custom_command_revision_context_populates_rev_and_node() {
    let mut app = make_app();
    app.snapshot.repo_root = Some("/repo".to_string());
    app.snapshot.revisions = vec![Revision {
        rev: 9,
        node: "deadbeef".to_string(),
        desc: "msg".to_string(),
        user: "u".to_string(),
        branch: "default".to_string(),
        phase: "draft".to_string(),
        tags: Vec::new(),
        bookmarks: Vec::new(),
        date_unix_secs: 0,
        graph_prefix: None,
    }];
    let command = CustomCommand {
        id: "rev".to_string(),
        title: "Rev".to_string(),
        context: CommandContext::Revision,
        command: "echo {node}".to_string(),
        args: Vec::new(),
        env: vec![("REV".to_string(), "{rev}".to_string())],
        show_output: true,
        needs_confirmation: false,
    };
    let run = app.prepare_custom_run_action(&command).expect("revision command renders");
    assert_eq!(run.invocation.program, "echo");
    assert_eq!(run.invocation.args, vec!["deadbeef".to_string()]);
    assert_eq!(run.invocation.env, vec![("REV".to_string(), "9".to_string())]);
}

#[test]
fn custom_command_repo_context_uses_selected_revision_fallback_vars() {
    let mut app = make_app();
    app.snapshot.repo_root = Some("/repo".to_string());
    app.snapshot.revisions = vec![Revision {
        rev: 11,
        node: "cafebabe".to_string(),
        desc: "msg".to_string(),
        user: "u".to_string(),
        branch: "default".to_string(),
        phase: "draft".to_string(),
        tags: Vec::new(),
        bookmarks: Vec::new(),
        date_unix_secs: 0,
        graph_prefix: None,
    }];
    let command = CustomCommand {
        id: "repo-with-rev-fallback".to_string(),
        title: "RepoWithRevFallback".to_string(),
        context: CommandContext::Repo,
        command: "echo".to_string(),
        args: vec!["{rev}".to_string(), "{node}".to_string()],
        env: Vec::new(),
        show_output: true,
        needs_confirmation: false,
    };
    let run = app.prepare_custom_run_action(&command).expect("repo fallback vars");
    assert_eq!(run.invocation.program, "echo");
    assert_eq!(run.invocation.args, vec!["11".to_string(), "cafebabe".to_string()]);
}

#[test]
fn custom_command_repo_context_rejects_unavailable_template_var() {
    let mut app = make_app();
    app.snapshot.repo_root = Some("/repo".to_string());
    let command = CustomCommand {
        id: "repo-with-file-var".to_string(),
        title: "RepoWithFileVar".to_string(),
        context: CommandContext::Repo,
        command: "echo".to_string(),
        args: vec!["{file}".to_string()],
        env: Vec::new(),
        show_output: true,
        needs_confirmation: false,
    };
    let err =
        app.prepare_custom_run_action(&command).expect_err("missing file selection rejected");
    assert!(err.contains("requires unavailable template vars"));
    assert!(err.contains("file"));
}

#[test]
fn custom_command_without_repo_root_is_rejected() {
    let app = make_app();
    let command = CustomCommand {
        id: "anything".to_string(),
        title: "Anything".to_string(),
        context: CommandContext::Repo,
        command: "echo hi".to_string(),
        args: Vec::new(),
        env: Vec::new(),
        show_output: true,
        needs_confirmation: false,
    };
    let err = app.prepare_custom_run_action(&command).expect_err("no repository root");
    assert_eq!(err, "repository root unavailable");
}

#[test]
fn unresolved_placeholders_are_listed_sorted_and_deduplicated() {
    let mut app = make_app();
    app.snapshot.repo_root = Some("/repo".to_string());
    let command = CustomCommand {
        id: "multi".to_string(),
        title: "Multi".to_string(),
        context: CommandContext::Repo,
        command: "echo {rev} {file}".to_string(),
        args: vec!["{file}".to_string()],
        env: vec![("N".to_string(), "{node}".to_string())],
        show_output: true,
        needs_confirmation: false,
    };
    let err = app.prepare_custom_run_action(&command).expect_err("unresolved rejected");
    assert_eq!(
        err,
        "custom command 'multi' requires unavailable template vars: file, node, rev"
    );
}

#[test]
fn open_command_palette_no_commands_sets_status() {
    let mut app = make_app();
    app.config.custom_commands = Vec::new();
    app.open_command_palette();
    assert!(app.command_palette.is_none());
    assert!(app.status_line.contains("No custom commands configured"));
}

#[test]
fn toggle_file_selection_adds_and_removes_path() {
    let mut app = make_app();
    app.snapshot.files = vec![file_fixture("src/main.rs")];
    app.files_idx = 0;
    app.toggle_selected_file_for_commit();
    assert!(app.is_file_selected_for_commit("src/main.rs"));
    assert_eq!(app.selected_file_commit_count(), 1);
    app.toggle_selected_file_for_commit();
    assert!(!app.is_file_selected_for_commit("src/main.rs"));
    assert_eq!(app.selected_file_commit_count(), 0);
}

#[test]
fn clear_file_selection_empties_selection() {
    let mut app = make_app();
    app.commit_file_selection.push("a".to_string());
    app.commit_file_selection.push("b".to_string());
    app.clear_file_selection();
    assert_eq!(app.selected_file_commit_count(), 0);
    assert!(app.status_line.contains("Cleared commit file selection"));
}

#[test]
fn selection_is_pruned_of_vanished_paths() {
    let mut app = make_app();
    app.snapshot.files = vec![file_fixture("keep.rs"), file_fixture("gone.rs")];
    app.commit_file_selection.push("keep.rs".to_string());
    app.commit_file_selection.push("gone.rs".to_string());
    app.handle_app_event(AppEvent::SnapshotLoaded {
        preserve_details: true,
        include_revisions: true,
        result: Ok(RepoSnapshot {
            files: vec![file_fixture("keep.rs")],
            ..RepoSnapshot::default()
        }),
    });
    assert!(app.is_file_selected_for_commit("keep.rs"));
    assert!(!app.is_file_selected_for_commit("gone.rs"));
}

#[test]
fn successful_commit_action_event_clears_selected_files() {
    let mut app = make_app();
    app.commit_file_selection.push("src/app.rs".to_string());
    app.handle_app_event(AppEvent::ActionFinished {
        action_kind: ActionOutcomeKind::Other,
        action_preview: "hg commit -m <message> <1 files>".to_string(),
        show_output: false,
        clear_commit_selection: true,
        result: Ok(ok_result("hg commit -m test src/app.rs")),
    });
    assert_eq!(app.selected_file_commit_count(), 0);
}

#[test]
fn rebase_start_action_success_sets_progress_hint_before_refresh() {
    let mut app = make_app();
    app.handle_app_event(AppEvent::ActionFinished {
        action_kind: ActionOutcomeKind::RebaseStart,
        action_preview: "hg rebase -s 5 -d 2".to_string(),
        show_output: false,
        clear_commit_selection: false,
        result: Ok(ok_result("hg rebase -s 5 -d 2")),
    });
    assert!(app.status_line.contains("Rebase started"));
}

#[test]
fn resolve_mark_action_success_updates_remaining_conflict_hint() {
    let mut app = make_app();
    app.snapshot.capabilities.has_rebase = true;
    app.snapshot.rebase.in_progress = true;
    app.snapshot.rebase.unresolved_conflicts = 2;
    app.handle_app_event(AppEvent::ActionFinished {
        action_kind: ActionOutcomeKind::ResolveMark,
        action_preview: "hg resolve -m src/main.rs".to_string(),
        show_output: false,
        clear_commit_selection: false,
        result: Ok(ok_result("hg resolve -m src/main.rs")),
    });
    assert!(app.status_line.contains("unresolved conflict"));
}

#[test]
fn rebase_continue_action_failure_sets_guidance() {
    let mut app = make_app();
    app.handle_app_event(AppEvent::ActionFinished {
        action_kind: ActionOutcomeKind::RebaseContinue,
        action_preview: "hg rebase --continue".to_string(),
        show_output: false,
        clear_commit_selection: false,
        result: Ok(CommandResult {
            command_preview: "hg rebase --continue".to_string(),
            success: false,
            stdout: String::new(),
            stderr: "abort: unresolved conflicts".to_string(),
        }),
    });
    assert!(app.status_line.contains("Rebase continue failed"));
    assert!(app.status_line.contains("Resolve conflicts"));
}

#[test]
fn failed_commit_action_event_keeps_selected_files() {
    let mut app = make_app();
    app.commit_file_selection.push("src/app.rs".to_string());
    app.handle_app_event(AppEvent::ActionFinished {
        action_kind: ActionOutcomeKind::Other,
        action_preview: "hg commit -m <message> <1 files>".to_string(),
        show_output: false,
        clear_commit_selection: true,
        result: Ok(CommandResult {
            command_preview: "hg commit -m test src/app.rs".to_string(),
            success: false,
            stdout: String::new(),
            stderr: "abort: no username configured".to_string(),
        }),
    });
    assert_eq!(app.selected_file_commit_count(), 1);
}

#[test]
fn interactive_commit_input_creates_request() {
    let mut app = make_app();
    app.commit_file_selection.push("src/app.rs".to_string());
    app.input = Some(InputState {
        title: "Interactive".to_string(),
        value: "msg".to_string(),
        purpose: InputPurpose::CommitMessageInteractive,
    });
    assert!(app.handle_input_key(KeyInput::plain(KeyCode::Enter)));
    let request = app.interactive_commit_request.as_ref().expect("interactive request created");
    assert_eq!(request.message, "msg");
    assert_eq!(request.files, vec!["src/app.rs".to_string()]);
}

#[test]
fn empty_input_keeps_modal_open_for_retry() {
    let mut app = make_app();
    app.input = Some(InputState {
        title: "Commit".to_string(),
        value: "   ".to_string(),
        purpose: InputPurpose::CommitMessage,
    });
    assert!(app.handle_input_key(KeyInput::plain(KeyCode::Enter)));
    assert!(app.input.is_some());
    assert_eq!(app.status_line, "Input cannot be empty.");
}

#[test]
fn double_click_requires_same_target_within_threshold() {
    let mut app = make_app();
    app.set_clock(1_000, "00:00:01".to_string());
    app.last_mouse_click = Some(easyhg::session::LastMouseClick {
        panel: FocusPanel::Files,
        index: Some(1),
        button: MouseButton::Left,
        at_ms: 1_000,
    });
    assert!(app.is_double_click(FocusPanel::Files, Some(1), MouseButton::Left));
    assert!(!app.is_double_click(FocusPanel::Files, Some(2), MouseButton::Left));
    app.last_mouse_click = Some(easyhg::session::LastMouseClick {
        panel: FocusPanel::Files,
        index: Some(1),
        button: MouseButton::Left,
        at_ms: 1_000 - DOUBLE_CLICK_THRESHOLD_MS - 5,
    });
    assert!(!app.is_double_click(FocusPanel::Files, Some(1), MouseButton::Left));
}

#[test]
fn validate_config_reports_errors() {
    let mut config = AppConfig::default();
    config.theme = "neon".to_string();
    config.keybinds.push(("unknown_action".to_string(), "x".to_string()));
    config.custom_commands = vec![
        CustomCommand {
            id: "dup".to_string(),
            title: "".to_string(),
            context: CommandContext::Repo,
            command: "".to_string(),
            args: vec!["".to_string()],
            env: Vec::new(),
            show_output: true,
            needs_confirmation: false,
        },
        CustomCommand {
            id: "dup".to_string(),
            title: "ok".to_string(),
            context: CommandContext::Repo,
            command: "echo hi".to_string(),
            args: Vec::new(),
            env: Vec::new(),
            show_output: true,
            needs_confirmation: false,
        },
    ];
    let issues = easyhg::config::validate_config(&config);
    assert!(issues.iter().any(|line| line.contains("invalid theme")));
    assert!(issues.iter().any(|line| line.contains("unknown keybinding action")));
    assert!(issues.iter().any(|line| line.contains("empty title")));
    assert!(issues.iter().any(|line| line.contains("empty command")));
    assert!(issues.iter().any(|line| line.contains("empty arg entry")));
    assert!(issues.iter().any(|line| line.contains("duplicate custom command id")));
}

#[test]
fn confirmed_action_is_queued_and_cancel_reports() {
    let mut app = make_app();
    app.confirmation = Some(PendingConfirmation {
        message: "Push current changes?".to_string(),
        action: PendingRunAction::Hg(HgAction::Push),
    });
    app.handle_key(KeyInput::plain(KeyCode::Enter));
    assert!(app.confirmation.is_none());
    let effects = app.take_effects();
    assert_eq!(effects.len(), 1);
    match &effects[0] {
        Effect::RunAction { action_preview, .. } => assert_eq!(action_preview, "hg push"),
        other => panic!("unexpected effect: {other:?}"),
    }
    app.confirmation = Some(PendingConfirmation {
        message: "Push current changes?".to_string(),
        action: PendingRunAction::Hg(HgAction::Push),
    });
    app.handle_key(KeyInput::plain(KeyCode::Esc));
    assert!(app.confirmation.is_none());
    assert_eq!(app.status_line, "Action cancelled.");
    assert_eq!(app.take_effects().len(), 0);
}
