use easyhg::commands::{CustomInvocation, HgAction};
use easyhg::domain::{build_rebase_state, ConflictEntry, FileStatus, Revision};
use easyhg::parsehg::{
    merge_log_graph, parse_bookmarks_plain, parse_log_graph, parse_log_plain_template,
    parse_resolve_list, parse_shelve_list, parse_status_plain, ParsedGraphRow,
};

fn revision(rev: i64, node: &str, desc: &str) -> Revision {
    Revision {
        rev,
        node: node.to_string(),
        desc: desc.to_string(),
        user: "u".to_string(),
        branch: "default".to_string(),
        phase: "draft".to_string(),
        tags: Vec::new(),
        bookmarks: Vec::new(),
        date_unix_secs: rev,
        graph_prefix: None,
    }
}

#[test]
fn file_status_from_hg_code_maps_known_values() {
    assert_eq!(FileStatus::from_hg_code("M"), FileStatus::Modified);
    assert_eq!(FileStatus::from_hg_code("A"), FileStatus::Added);
    assert_eq!(FileStatus::from_hg_code("R"), FileStatus::Removed);
    assert_eq!(FileStatus::from_hg_code("!"), FileStatus::Missing);
    assert_eq!(FileStatus::from_hg_code("?"), FileStatus::Unknown);
    assert_eq!(FileStatus::from_hg_code("I"), FileStatus::Ignored);
    assert_eq!(FileStatus::from_hg_code("C"), FileStatus::Clean);
    assert_eq!(FileStatus::from_hg_code(" "), FileStatus::Copied);
}

#[test]
fn file_status_from_hg_code_uses_first_character() {
    assert_eq!(FileStatus::from_hg_code("??"), FileStatus::Unknown);
    assert_eq!(FileStatus::from_hg_code(""), FileStatus::Unknown);
    assert_eq!(FileStatus::from_hg_code("Z"), FileStatus::Other('Z'));
}

#[test]
fn parse_resolve_entries() {
    let raw = "U src/main.rs\nR README.md\n";
    let parsed = parse_resolve_list(raw);
    assert_eq!(parsed.len(), 2);
    assert!(!parsed[0].resolved);
    assert!(parsed[1].resolved);
}

#[test]
fn build_rebase_state_counts_resolved_and_unresolved_conflicts() {
    let conflicts = vec![
        ConflictEntry { resolved: false, path: "a".to_string() },
        ConflictEntry { resolved: true, path: "b".to_string() },
        ConflictEntry { resolved: false, path: "c".to_string() },
    ];
    let state = build_rebase_state(true, &conflicts);
    assert!(state.in_progress);
    assert_eq!(state.total_conflicts, 3);
    assert_eq!(state.unresolved_conflicts, 2);
    assert_eq!(state.resolved_conflicts, 1);
}

#[test]
fn status_plain_parser_trims_and_handles_multi_char_status_tokens() {
    let raw = "M src/main.rs\nA  docs/guide.md\n?? README.md\n";
    let parsed = parse_status_plain(raw);
    assert_eq!(parsed.len(), 3);
    assert_eq!(parsed[0].path, "src/main.rs");
    assert_eq!(parsed[0].status, FileStatus::Modified);
    assert_eq!(parsed[1].path, "docs/guide.md");
    assert_eq!(parsed[1].status, FileStatus::Added);
    assert_eq!(parsed[2].path, "README.md");
    assert_eq!(parsed[2].status, FileStatus::Unknown);
}

#[test]
fn bookmarks_plain_parser_maps_active_and_revision() {
    let raw = " * main                     7:abc123\n   dev                      5:def456\n";
    let parsed = parse_bookmarks_plain(raw);
    assert_eq!(parsed.len(), 2);
    assert_eq!(parsed[0].name, "main");
    assert_eq!(parsed[0].rev, 7);
    assert!(parsed[0].active);
    assert_eq!(parsed[1].name, "dev");
    assert_eq!(parsed[1].rev, 5);
    assert!(!parsed[1].active);
}

#[test]
fn log_plain_template_parser_maps_all_fields() {
    let raw = "9\u{1f}abcdef\u{1f}msg\u{1f}u\u{1f}default\u{1f}draft\u{1f}tip\u{1f}main\u{1f}1700000000 0\n";
    let parsed = parse_log_plain_template(raw).expect("parse plain template");
    assert_eq!(parsed.len(), 1);
    assert_eq!(parsed[0].rev, 9);
    assert_eq!(parsed[0].node, "abcdef");
    assert_eq!(parsed[0].desc, "msg");
    assert_eq!(parsed[0].tags, vec!["tip"]);
    assert_eq!(parsed[0].bookmarks, vec!["main"]);
    assert_eq!(parsed[0].date_unix_secs, 1_700_000_000);
}

#[test]
fn log_plain_template_rejects_bad_rows() {
    let err = parse_log_plain_template("only three\u{1f}fields\u{1f}here\n")
        .expect_err("field count rejected");
    assert!(err.contains("failed parsing hg log template row"));
    let err = parse_log_plain_template(
        "x\u{1f}n\u{1f}d\u{1f}u\u{1f}b\u{1f}p\u{1f}t\u{1f}bm\u{1f}0 0\n",
    )
    .expect_err("bad revision rejected");
    assert!(err.contains("invalid revision number in log row"));
}

#[test]
fn shelve_list_parser_splits_name_and_description() {
    let raw = "feature-wip 2 hours ago\nhotfix\n";
    let parsed = parse_shelve_list(raw);
    assert_eq!(parsed.len(), 2);
    assert_eq!(parsed[0].name, "feature-wip");
    assert_eq!(parsed[0].description, "2 hours ago");
    assert_eq!(parsed[1].name, "hotfix");
    assert_eq!(parsed[1].description, "");
}

#[test]
fn commit_preview_includes_selected_file_count() {
    let action = HgAction::Commit {
        message: "msg".to_string(),
        files: vec!["a.txt".to_string(), "b.txt".to_string()],
    };
    assert_eq!(action.command_preview(), "hg commit -m <message> <2 files>");
}

#[test]
fn custom_invocation_preview_joins_program_and_args() {
    let invocation = CustomInvocation {
        program: "hg".to_string(),
        args: vec!["log".to_string(), "-l".to_string(), "1".to_string()],
        env: vec![("X".to_string(), "1".to_string())],
    };
    assert_eq!(invocation.command_preview(), "hg log -l 1");
}

#[test]
fn log_graph_parser_extracts_graph_prefix_and_revision() {
    let raw = "@  9\n|\no  8\n|\\\n| o  7\n";
    let parsed = parse_log_graph(raw);
    assert_eq!(
        parsed,
        vec![
            ParsedGraphRow { rev: 9, graph_prefix: "@".to_string() },
            ParsedGraphRow { rev: 8, graph_prefix: "o".to_string() },
            ParsedGraphRow { rev: 7, graph_prefix: "| o".to_string() },
        ]
    );
}

#[test]
fn merge_log_graph_applies_order_and_prefixes() {
    let revisions = vec![
        revision(7, "n7", "seven"),
        revision(8, "n8", "eight"),
        revision(9, "n9", "nine"),
    ];
    let graph = vec![
        ParsedGraphRow { rev: 9, graph_prefix: "@".to_string() },
        ParsedGraphRow { rev: 8, graph_prefix: "o".to_string() },
    ];
    let merged = merge_log_graph(revisions, &graph);
    assert_eq!(merged.iter().map(|r| r.rev).collect::<Vec<_>>(), vec![9, 8, 7]);
    assert_eq!(merged[0].graph_prefix.as_deref(), Some("@"));
    assert_eq!(merged[1].graph_prefix.as_deref(), Some("o"));
    assert_eq!(merged[2].graph_prefix, None);
}

#[test]
fn merge_log_graph_without_rows_keeps_list() {
    let revisions = vec![revision(3, "n3", "three"), revision(2, "n2", "two")];
    let merged = merge_log_graph(revisions.clone(), &Vec::new());
    assert_eq!(merged, revisions);
}

#[test]
fn rebase_preview_includes_source_and_destination() {
    let action = HgAction::RebaseSourceDest { source_rev: 5, dest_rev: 2 };
    assert_eq!(action.command_preview(), "hg rebase -s 5 -d 2");
    assert_eq!(HgAction::RebaseContinue.command_preview(), "hg rebase --continue");
    assert_eq!(HgAction::RebaseAbort.command_preview(), "hg rebase --abort");
}

#[test]
fn status_json_parser() {
    let raw = r#"[{"path":"src/main.rs","status":"M"},{"path":"README.md","status":"A"}]"#;
    let parsed = easyhg::json::parse_status_json(raw).expect("parse status");
    assert_eq!(parsed.len(), 2);
    assert_eq!(parsed[0].status, FileStatus::Modified);
    assert_eq!(parsed[1].status, FileStatus::Added);
}

#[test]
fn log_json_parser() {
    let raw = r#"[{"rev":4,"node":"abcd","desc":"msg","user":"u","branch":"default","phase":"draft","tags":["tip"],"bookmarks":["main"],"date":[10,0]}]"#;
    let parsed = easyhg::json::parse_log_json(raw).expect("parse log");
    assert_eq!(parsed.len(), 1);
    assert_eq!(parsed[0].rev, 4);
    assert_eq!(parsed[0].bookmarks, vec!["main"]);
    assert_eq!(parsed[0].graph_prefix, None);
}

#[test]
fn bookmarks_json_parser_maps_active_and_node() {
    let raw = r#"[{"bookmark":"main","rev":7,"node":"abc","active":true},{"bookmark":"dev","rev":5,"node":"def"}]"#;
    let parsed = easyhg::json::parse_bookmarks_json(raw).expect("parse bookmarks");
    assert_eq!(parsed.len(), 2);
    assert_eq!(parsed[0].name, "main");
    assert!(parsed[0].active);
    assert_eq!(parsed[1].name, "dev");
    assert!(!parsed[1].active);
}

#[test]
fn bad_json_falls_back_to_error() {
    assert!(easyhg::json::parse_status_json("not json").is_err());
    assert!(easyhg::json::parse_log_json("{\"not\":\"an array\"}").is_err());
    assert!(easyhg::json::parse_bookmarks_json("[{\"rev\":1}]").is_err());
}

#[test]
fn command_failed_embeds_compacted_output() {
    let out = easyhg::commands::CommandResult {
        command_preview: "hg pull -u".to_string(),
        success: false,
        stdout: "  some output  ".to_string(),
        stderr: "abort: no default path\n".to_string(),
    };
    let msg = easyhg::commands::command_failed(&out);
    assert_eq!(
        msg,
        "command failed: hg pull -u (stderr: abort: no default path | stdout: some output)"
    );
    let quiet = easyhg::commands::CommandResult {
        command_preview: "hg push".to_string(),
        success: false,
        stdout: String::new(),
        stderr: String::new(),
    };
    assert_eq!(easyhg::commands::command_failed(&quiet), "command failed: hg push");
}

#[test]
fn version_line_is_found_or_unknown() {
    let raw = "Mercurial Distributed SCM (version 6.9)\n(see https://mercurial-scm.org)\n";
    assert_eq!(
        easyhg::assemble::version_from_stdout(raw),
        "Mercurial Distributed SCM (version 6.9)"
    );
    assert_eq!(easyhg::assemble::version_from_stdout("no match here\n"), "unknown");
}

#[test]
fn structured_status_falls_back_on_bad_json() {
    let bad = easyhg::commands::CommandResult {
        command_preview: "hg status -Tjson".to_string(),
        success: true,
        stdout: "garbage".to_string(),
        stderr: String::new(),
    };
    assert!(matches!(
        easyhg::assemble::status_from_first(&bad, true),
        easyhg::assemble::FieldOutcome::NeedLegacy
    ));
    let failed = easyhg::commands::CommandResult {
        command_preview: "hg status -Tjson".to_string(),
        success: false,
        stdout: String::new(),
        stderr: String::new(),
    };
    assert!(matches!(
        easyhg::assemble::status_from_first(&failed, true),
        easyhg::assemble::FieldOutcome::NeedLegacy
    ));
    let legacy = easyhg::commands::CommandResult {
        command_preview: "hg status".to_string(),
        success: true,
        stdout: "M a.rs\n".to_string(),
        stderr: String::new(),
    };
    match easyhg::assemble::status_from_first(&legacy, false) {
        easyhg::assemble::FieldOutcome::Done(files) => {
            assert_eq!(files.len(), 1);
            assert_eq!(files[0].path, "a.rs");
        }
        _ => panic!("legacy status should parse"),
    }
}
