use blink_md::cli::diff::{diff_markdown, render_changes, LineTag};

#[test]
fn changed_heading_is_marked() {
    assert_eq!(diff_markdown("# A\n", "# B\n"), "- # A\n+ # B\n");
}

#[test]
fn equal_documents_are_all_context() {
    assert_eq!(diff_markdown("text", "text"), "  text\n");
}

#[test]
fn marks_follow_tags() {
    let changes = vec![
        (LineTag::Equal, "a\n".to_string()),
        (LineTag::Delete, "b\n".to_string()),
        (LineTag::Insert, "c\n".to_string()),
    ];
    assert_eq!(render_changes(&changes), "  a\n- b\n+ c\n");
}
