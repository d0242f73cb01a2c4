use tmuxtui::archive::{ArchivedPane, archive_file_name, archive_name, archive_text};

#[test]
fn archive_names_keep_safe_characters_only() {
    assert_eq!(archive_name("my session/1"), "my-session-1");
    assert_eq!(archive_name("--dev_box--"), "dev_box");
    assert_eq!(archive_name("***"), "archive");
    assert_eq!(archive_name(""), "archive");
    assert_eq!(archive_name("été"), "t");
    let long = "a".repeat(100);
    assert_eq!(archive_name(&long).len(), 80);
}

#[test]
fn archive_file_name_starts_with_timestamp() {
    assert_eq!(archive_file_name("1700000000", "dev"), "1700000000-dev.txt");
}

#[test]
fn archive_text_lists_each_pane() {
    let panes = vec![
        ArchivedPane { label: String::from("1"), pane_id: String::from("%1"), contents: String::from("hello") },
        ArchivedPane { label: String::from("2"), pane_id: String::from("%4"), contents: String::new() },
    ];
    assert_eq!(
        archive_text("dev", "42", &panes),
        "archive: dev\ncreated: 42\n\n--- 1 %1 ---\nhello\n\n--- 2 %4 ---\n\n"
    );
}
