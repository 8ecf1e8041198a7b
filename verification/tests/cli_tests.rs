use easyhg::cli::{check_config_output, output_exit_code, parse_cli_mode, CliMode};
use easyhg::config::{AppConfig, ConfigLoadReport};

fn argv(parts: &[&str]) -> Vec<String> {
    parts.iter().map(|s| s.to_string()).collect()
}

#[test]
fn parse_help() {
    let mode = parse_cli_mode(&argv(&["easyhg", "--help"])).expect("help parses");
    assert!(matches!(mode, CliMode::PrintHelp));
}

#[test]
fn parse_version() {
    let mode = parse_cli_mode(&argv(&["easyhg", "-V"])).expect("version parses");
    assert!(matches!(mode, CliMode::PrintVersion));
}

#[test]
fn parse_snapshot_json() {
    let mode = parse_cli_mode(&argv(&["easyhg", "--snapshot-json"])).expect("snapshot parses");
    assert!(matches!(mode, CliMode::SnapshotJson));
}

#[test]
fn parse_exclusive_options_rejected() {
    let err = parse_cli_mode(&argv(&["easyhg", "--doctor", "--version"]))
        .expect_err("exclusive options rejected");
    assert!(err.contains("mutually exclusive"));
}

#[test]
fn parse_unknown_rejected() {
    let err = parse_cli_mode(&argv(&["easyhg", "--bogus"])).expect_err("unknown rejected");
    assert!(err.contains("unknown option: --bogus"));
}

#[test]
fn check_config_output_marks_issues_as_not_ok() {
    let output = check_config_output(ConfigLoadReport {
        config: AppConfig::default(),
        path: Some("/tmp/config.toml".to_string()),
        issues: vec!["bad key".to_string()],
    });
    assert!(!output.ok);
    assert_eq!(output.path, Some("/tmp/config.toml".to_string()));
    assert_eq!(output_exit_code(output.ok), 2);
}

#[test]
fn check_config_output_ok_has_zero_exit_code() {
    let output = check_config_output(ConfigLoadReport {
        config: AppConfig::default(),
        path: None,
        issues: Vec::new(),
    });
    assert!(output.ok);
    assert_eq!(output_exit_code(output.ok), 0);
}

#[test]
fn snapshot_output_reflects_result() {
    let ok = easyhg::cli::build_snapshot_output(123, Ok(easyhg::domain::RepoSnapshot::default()));
    assert!(ok.ok);
    assert!(ok.snapshot.is_some());
    assert!(ok.error.is_none());
    assert_eq!(ok.timestamp_unix_secs, 123);
    let bad = easyhg::cli::build_snapshot_output(124, Err("snapshot failed".to_string()));
    assert!(!bad.ok);
    assert!(bad.snapshot.is_none());
    assert_eq!(bad.error, Some("snapshot failed".to_string()));
    assert_eq!(output_exit_code(bad.ok), 2);
}

#[test]
fn doctor_output_reports_probe_failures() {
    let probes = vec![
        easyhg::cli::probe_outcome(
            "hg --version".to_string(),
            &Ok(easyhg::commands::CommandResult {
                command_preview: "hg --version".to_string(),
                success: true,
                stdout: "Mercurial 6.9".to_string(),
                stderr: String::new(),
            }),
        ),
        easyhg::cli::probe_outcome(
            "hg root".to_string(),
            &Ok(easyhg::commands::CommandResult {
                command_preview: "hg root".to_string(),
                success: false,
                stdout: String::new(),
                stderr: "abort: no repository found".to_string(),
            }),
        ),
    ];
    let config = check_config_output(ConfigLoadReport {
        config: AppConfig::default(),
        path: None,
        issues: Vec::new(),
    });
    let out = easyhg::cli::build_doctor_output(
        "/tmp/repo".to_string(),
        config,
        None,
        probes,
        Err("snapshot failed".to_string()),
        200,
    );
    assert!(!out.ok);
    assert_eq!(out.timestamp_unix_secs, 200);
    assert_eq!(out.error, Some("snapshot failed".to_string()));
    assert!(out.probes.iter().any(|probe| !probe.ok));
    assert_eq!(output_exit_code(out.ok), 2);
}

#[test]
fn repo_guard_rejects_non_repositories() {
    let inside = easyhg::cli::repo_guard_error(
        "/repo",
        &Ok(easyhg::commands::CommandResult {
            command_preview: "hg root".to_string(),
            success: true,
            stdout: "/repo\n".to_string(),
            stderr: String::new(),
        }),
    );
    assert!(inside.is_none());
    let outside = easyhg::cli::repo_guard_error(
        "/tmp/outside",
        &Ok(easyhg::commands::CommandResult {
            command_preview: "hg root".to_string(),
            success: false,
            stdout: String::new(),
            stderr: "abort: no repository found".to_string(),
        }),
    )
    .expect("non-repo rejected");
    assert!(outside.contains("not inside a Mercurial repository"));
    assert!(outside.contains("abort: no repository found"));
    let spawn_failed = easyhg::cli::repo_guard_error(
        "/tmp/outside",
        &Err("spawn failed".to_string()),
    )
    .expect("spawn failure rejected");
    assert!(spawn_failed.contains("spawn failed"));
}
