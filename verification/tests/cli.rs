use ninjasana::cli::parse_task_gid;

#[test]
fn bare_id() {
    assert_eq!(parse_task_gid("1201234567890").unwrap(), "1201234567890");
}

#[test]
fn classic_url() {
    let url = "https://app.asana.com/0/1199999999/1201234567890";
    assert_eq!(parse_task_gid(url).unwrap(), "1201234567890");
}

#[test]
fn task_marker_url() {
    let url = "https://app.asana.com/1/55/project/77/task/1201234567890?focus=true";
    assert_eq!(parse_task_gid(url).unwrap(), "1201234567890");
}

#[test]
fn no_id() {
    assert!(parse_task_gid("https://example.com/nope").is_err());
}

#[test]
fn bare_id_with_surrounding_space_is_trimmed() {
    assert_eq!(parse_task_gid("  42 \n").unwrap(), "42");
}

#[test]
fn fragment_is_ignored() {
    let url = "https://app.asana.com/0/123/456#comment-789";
    assert_eq!(parse_task_gid(url).unwrap(), "456");
}

#[test]
fn task_marker_wins_over_later_numbers() {
    let url = "https://app.asana.com/1/55/task/900/subtask/901";
    assert_eq!(parse_task_gid(url).unwrap(), "900");
}

#[test]
fn non_numeric_after_marker_falls_back_to_last_numeric_segment() {
    let url = "https://app.asana.com/1/55/project/77/task/abc";
    assert_eq!(parse_task_gid(url).unwrap(), "77");
}

#[test]
fn empty_input_has_no_id() {
    let err = parse_task_gid("   ").unwrap_err();
    assert_eq!(err.message(), "could not find a task id in:    ");
}

#[test]
fn parsed_gid_parses_to_itself() {
    let url = "https://app.asana.com/0/1199999999/1201234567890";
    let gid = parse_task_gid(url).unwrap();
    assert_eq!(parse_task_gid(&gid).unwrap(), gid);
}
