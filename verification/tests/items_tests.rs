use easyhg::domain::{Bookmark, ConflictEntry, FileChange, FileStatus, Shelf};
use easyhg::items::{bookmark_item, conflict_item, file_item, shelf_item, short_path};

#[test]
fn file_item_selected_prefix() {
    let file = FileChange { path: "src/main.rs".to_string(), status: FileStatus::Modified };
    assert!(file_item(&file, true, true).starts_with("> "));
    assert!(file_item(&file, false, false).starts_with("  "));
    assert!(file_item(&file, true, true).contains("[x]"));
    assert!(file_item(&file, true, false).contains("[ ]"));
}

#[test]
fn bookmark_item_preserves_active_marker() {
    let bookmark = Bookmark {
        name: "main".to_string(),
        rev: 3,
        node: "1234567890abcdef".to_string(),
        active: true,
    };
    let line = bookmark_item(&bookmark, true);
    assert!(line.starts_with("> * "));
    assert!(line.contains("main @3"));
}

#[test]
fn shelf_item_prefix_and_text() {
    let shelf = Shelf { name: "wip".to_string(), age: None, description: "my changes".to_string() };
    assert_eq!(shelf_item(&shelf, true), "> wip my changes");
    assert_eq!(shelf_item(&shelf, false), "  wip my changes");
}

#[test]
fn conflict_item_keeps_status_marker() {
    let conflict = ConflictEntry { resolved: false, path: "src/lib.rs".to_string() };
    assert_eq!(conflict_item(&conflict, true), "> U src/lib.rs");
}

#[test]
fn short_path_keeps_short_and_truncates_long() {
    assert_eq!(short_path("src/main.rs"), "src/main.rs");
    let long = "a/very/long/path/that/goes/on/and/on/until/it/overflows.rs";
    let shortened = short_path(long);
    assert!(shortened.starts_with("..."));
    assert_eq!(shortened.chars().count(), 42);
    assert!(long.ends_with(&shortened[3..]));
}
