use ninjasana::state::UiState;

#[test]
fn collapse_reads_back_per_list_and_section() {
    let mut s = UiState::new();
    assert!(!s.is_collapsed("me", "Now"));
    s.set_collapsed("me", "Now", true);
    assert!(s.is_collapsed("me", "Now"));
    assert!(!s.is_collapsed("me", "Later"));
    assert!(!s.is_collapsed("p1", "Now"));
    s.set_collapsed("me", "Now", true);
    s.set_collapsed("me", "Later", true);
    s.set_collapsed("me", "Now", false);
    assert!(!s.is_collapsed("me", "Now"));
    assert!(s.is_collapsed("me", "Later"));
}

#[test]
fn widths_read_back() {
    let mut s = UiState::new();
    assert_eq!(s.column_width("tags"), None);
    s.set_column_width("tags", 30);
    s.set_column_width("due_date", 12);
    s.set_column_width("tags", 25);
    assert_eq!(s.column_width("tags"), Some(25));
    assert_eq!(s.column_width("due_date"), Some(12));
    assert_eq!(s.column_width("name"), None);
}

#[test]
fn state_survives_storage() {
    let mut s = UiState::new();
    s.set_collapsed("me", "s1", true);
    s.set_collapsed("me", "s2", true);
    s.set_collapsed("p", "x", true);
    s.set_collapsed("p", "x", false);
    s.set_column_width("custom:Priority", 20);
    let (collapsed, widths) = s.to_parts();
    assert_eq!(widths, vec![("custom:Priority".to_string(), 20)]);
    let t = UiState::from_parts(collapsed, widths);
    assert!(t.is_collapsed("me", "s1"));
    assert!(t.is_collapsed("me", "s2"));
    assert!(!t.is_collapsed("p", "x"));
    assert_eq!(t.column_width("custom:Priority"), Some(20));
}

#[test]
fn stored_duplicates_take_the_last_entry() {
    let collapsed = vec![
        ("me".to_string(), vec!["a".to_string(), "a".to_string()]),
        ("me".to_string(), vec!["b".to_string()]),
    ];
    let widths = vec![("tags".to_string(), 5), ("tags".to_string(), 9)];
    let s = UiState::from_parts(collapsed, widths);
    assert!(!s.is_collapsed("me", "a"));
    assert!(s.is_collapsed("me", "b"));
    assert_eq!(s.column_width("tags"), Some(9));
}
