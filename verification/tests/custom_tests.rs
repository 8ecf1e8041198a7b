use easyhg::custom::{
    parse_command_parts, render_template, template_vars, unknown_template_vars,
    unresolved_template_vars,
};

#[test]
fn extracts_template_vars() {
    let names = template_vars("echo {repo_root} {branch} {repo_root} {rev}");
    assert_eq!(names, vec!["repo_root", "branch", "rev"]);
}

#[test]
fn unknown_template_vars_reports_unsupported_names() {
    let names = unknown_template_vars("echo {repo_root} {bogus} {also_bad}");
    assert_eq!(names, vec!["bogus", "also_bad"]);
}

#[test]
fn parse_command_parts_supports_quotes_and_escapes() {
    let (program, args) =
        parse_command_parts(r#"cmd --message "hello world" --path 'src/main.rs' plain\ arg"#)
            .expect("parse command");
    assert_eq!(program, "cmd");
    assert_eq!(
        args,
        vec![
            "--message".to_string(),
            "hello world".to_string(),
            "--path".to_string(),
            "src/main.rs".to_string(),
            "plain arg".to_string(),
        ]
    );
}

#[test]
fn parse_command_parts_rejects_unmatched_quote() {
    let err = parse_command_parts(r#"echo "broken"#).expect_err("reject unmatched quote");
    assert!(err.contains("unmatched quote"));
}

#[test]
fn parse_command_parts_rejects_trailing_escape_and_empty() {
    let err = parse_command_parts("echo broken\\").expect_err("reject trailing escape");
    assert!(err.contains("trailing escape"));
    let err = parse_command_parts("   ").expect_err("reject empty");
    assert!(err.contains("empty executable"));
}

#[test]
fn render_template_substitutes_each_placeholder_once() {
    let vars = vec![
        ("repo_root".to_string(), "/repo".to_string()),
        ("branch".to_string(), "default".to_string()),
    ];
    assert_eq!(render_template("ls {repo_root}/{branch}", &vars), "ls /repo/default");
    assert_eq!(render_template("no placeholders", &vars), "no placeholders");
}

#[test]
fn unresolved_template_vars_lists_missing_names() {
    let vars = vec![("repo_root".to_string(), "/repo".to_string())];
    let missing = unresolved_template_vars("run {repo_root} {file} {rev}", &vars);
    assert_eq!(missing, vec!["file", "rev"]);
}
