use easyhg::keys::{canonicalize_key_binding, validate_key_overrides, ActionId, ActionKeyMap};

#[test]
fn parses_named_and_char_keys() {
    assert_eq!(canonicalize_key_binding("tab").expect("tab"), "tab");
    assert_eq!(canonicalize_key_binding("shift+tab").expect("shift tab"), "shift+tab");
    assert_eq!(canonicalize_key_binding("P").expect("char"), "P");
    assert_eq!(canonicalize_key_binding("ctrl+l").expect("ctrl+l"), "ctrl+l");
    assert_eq!(canonicalize_key_binding("cmd+r").expect("cmd+r"), "cmd+r");
}

#[test]
fn rejects_invalid_keybinding_tokens() {
    let err = canonicalize_key_binding("meta+x").expect_err("invalid modifier");
    assert!(err.contains("unknown modifier"));
    let err = canonicalize_key_binding("ctrl+space").expect_err("invalid key");
    assert!(err.contains("unknown key"));
}

#[test]
fn override_validation_catches_unknown_action_and_duplicates() {
    let overrides = vec![
        ("bogus".to_string(), "x".to_string()),
        ("quit".to_string(), "x".to_string()),
        ("help".to_string(), "x".to_string()),
    ];
    let issues = validate_key_overrides(&overrides);
    assert!(issues.iter().any(|line| line.contains("unknown keybinding action")));
    assert!(issues.iter().any(|line| line.contains("duplicate keybinding")));
}

#[test]
fn default_bindings_include_rebase_lifecycle_and_cmd_refresh() {
    let map = ActionKeyMap::from_overrides(&Vec::new()).expect("default keymap");
    assert_eq!(map.key_for_action(ActionId::RefreshSnapshot), Some("cmd+r"));
    assert_eq!(map.key_for_action(ActionId::RebaseSelected), Some("r"));
    assert_eq!(map.key_for_action(ActionId::RebaseContinue), Some("C"));
    assert_eq!(map.key_for_action(ActionId::RebaseAbort), Some("A"));
}

#[test]
fn canonical_form_is_a_fixed_point() {
    for raw in [
        "  Ctrl + Alt + K ",
        "shift+BACKTAB",
        "command+Escape",
        "q",
        "SUPER+enter",
        "control+shift+x",
    ] {
        let once = canonicalize_key_binding(raw).expect("valid combination");
        let twice = canonicalize_key_binding(&once).expect("canonical form stays valid");
        assert_eq!(once, twice);
    }
}

#[test]
fn rejects_blank_and_gappy_bindings() {
    let err = canonicalize_key_binding("   ").expect_err("blank rejected");
    assert_eq!(err, "empty keybinding");
    let err = canonicalize_key_binding("ctrl++x").expect_err("empty token rejected");
    assert!(err.contains("invalid keybinding"));
}

#[test]
fn action_names_round_trip() {
    for action in ActionId::all() {
        assert_eq!(ActionId::from_str(action.as_str()), Some(action));
    }
    assert_eq!(ActionId::from_str("  quit  "), Some(ActionId::Quit));
    assert_eq!(ActionId::from_str("bogus"), None);
}

#[test]
fn overrides_replace_default_keys() {
    let overrides = vec![("commit".to_string(), "ctrl+c".to_string())];
    let map = ActionKeyMap::from_overrides(&overrides).expect("override applies");
    assert_eq!(map.key_for_action(ActionId::Commit), Some("ctrl+c"));
    assert_eq!(map.key_for_action(ActionId::Quit), Some("q"));
}
