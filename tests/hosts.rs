use domain_router::hosts::{
    add_domain_to_content, parse_domain_entries, remove_any_domain_from_content,
    remove_domain_from_content, toggle_any_domain_in_content, toggle_domain_in_content, MARKER_END,
    MARKER_START,
};

#[test]
fn test_add_domain_to_content() {
    let content = "127.0.0.1 localhost\n";
    let result = add_domain_to_content(content, "example.com");

    assert!(result.contains(MARKER_START));
    assert!(result.contains(MARKER_END));
    assert!(result.contains("127.0.0.1 example.com"));
}

#[test]
fn test_remove_domain_from_content() {
    let content = format!(
        "127.0.0.1 localhost\n{}\n127.0.0.1 example.com\n{}\n",
        MARKER_START, MARKER_END
    );

    let result = remove_domain_from_content(&content, "example.com");
    assert!(!result.contains("example.com"));
}

#[test]
fn add_creates_section_exactly() {
    let result = add_domain_to_content("127.0.0.1 localhost", "a.test");
    assert_eq!(
        result,
        format!("127.0.0.1 localhost\n\n{}\n127.0.0.1 a.test\n{}\n", MARKER_START, MARKER_END)
    );
}

#[test]
fn add_to_empty_content() {
    let result = add_domain_to_content("", "a.test");
    assert_eq!(result, format!("\n\n{}\n127.0.0.1 a.test\n{}\n", MARKER_START, MARKER_END));
}

#[test]
fn add_into_existing_section_keeps_one_entry() {
    let content = format!("x\n{}\n127.0.0.1 a.test\n{}\ny\n", MARKER_START, MARKER_END);
    let once = add_domain_to_content(&content, "b.test");
    assert_eq!(
        once,
        format!("x\n{}\n127.0.0.1 a.test\n127.0.0.1 b.test\n{}\ny\n", MARKER_START, MARKER_END)
    );
    let twice = add_domain_to_content(&once, "b.test");
    assert_eq!(twice, once);
}

#[test]
fn remove_keeps_lines_outside_section() {
    let content = format!(
        "127.0.0.1 example.com\n{}\n127.0.0.1 example.com\n127.0.0.1 other.test\n{}\n",
        MARKER_START, MARKER_END
    );
    let result = remove_domain_from_content(&content, "example.com");
    assert_eq!(
        result,
        format!("127.0.0.1 example.com\n{}\n127.0.0.1 other.test\n{}\n", MARKER_START, MARKER_END)
    );
}

#[test]
fn toggle_in_section_comments_and_uncomments() {
    let content = format!("127.0.0.1 a.test\n{}\n  127.0.0.1 a.test\n{}\n", MARKER_START, MARKER_END);
    let off = toggle_domain_in_content(&content, "a.test", false);
    assert_eq!(
        off,
        format!("127.0.0.1 a.test\n{}\n# 127.0.0.1 a.test\n{}\n", MARKER_START, MARKER_END)
    );
    let off_again = toggle_domain_in_content(&off, "a.test", false);
    assert_eq!(off_again, off);
    let on = toggle_domain_in_content(&off, "a.test", true);
    assert_eq!(on, format!("127.0.0.1 a.test\n{}\n127.0.0.1 a.test\n{}\n", MARKER_START, MARKER_END));
}

#[test]
fn toggle_any_touches_every_matching_line() {
    let content = "127.0.0.1 a.test\r\n##  10.0.0.1 a.test\n127.0.0.1 b.test";
    let on = toggle_any_domain_in_content(content, "a.test", true);
    assert_eq!(on, "127.0.0.1 a.test\n10.0.0.1 a.test\n127.0.0.1 b.test\n");
    let off = toggle_any_domain_in_content(content, "a.test", false);
    assert_eq!(off, "# 127.0.0.1 a.test\n##  10.0.0.1 a.test\n127.0.0.1 b.test\n");
}

#[test]
fn remove_any_drops_every_matching_line() {
    let content = "127.0.0.1 a.test\n# 127.0.0.1 a.test\n127.0.0.1 b.test\n";
    assert_eq!(remove_any_domain_from_content(content, "a.test"), "127.0.0.1 b.test\n");
    assert_eq!(remove_any_domain_from_content("", "a.test"), "");
}

#[test]
fn parse_lists_active_and_commented_entries() {
    let content = format!(
        "127.0.0.1   localhost  extra\n\n{}\n#  ::1 ip6-localhost\n# comment\n{}\nsingle\n",
        MARKER_START, MARKER_END
    );
    let entries = parse_domain_entries(&content);
    assert_eq!(
        entries,
        vec![
            ("127.0.0.1 localhost".to_string(), true),
            ("::1 ip6-localhost".to_string(), false),
        ]
    );
}

#[test]
fn disable_then_enable_restores_line() {
    let content = "127.0.0.1 a.test\n";
    let off = toggle_any_domain_in_content(content, "a.test", false);
    assert_eq!(off, "# 127.0.0.1 a.test\n");
    assert_eq!(toggle_any_domain_in_content(&off, "a.test", true), content);
}
