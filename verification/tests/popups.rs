use ninjasana::app::AppMode;
use ninjasana::asana::{Named, Story};
use ninjasana::popups::{
    activity_tabs, complete_label, composer_view, confirm_buttons, detail_buttons, dialog_rect, list_rows,
    matching_names, option_marker, people_matches, picklist_rect, status_hints, story_author, story_meta,
    thread_placeholder, EditTarget,
};
use ninjasana::zones::Rect;

fn rect(x: u16, y: u16, width: u16, height: u16) -> Rect {
    Rect { x, y, width, height }
}

fn names(list: &[&str]) -> Vec<String> {
    list.iter().map(|n| n.to_string()).collect()
}

#[test]
fn dialogs_are_centered_with_a_margin() {
    assert_eq!(dialog_rect(rect(0, 0, 100, 30), 44, 7), rect(28, 11, 44, 7));
    assert_eq!(dialog_rect(rect(0, 0, 30, 6), 44, 7), rect(1, 1, 28, 4));
    assert_eq!(dialog_rect(rect(0, 0, 1, 1), 44, 7), rect(0, 0, 0, 0));
}

#[test]
fn picklist_height_follows_the_options() {
    assert_eq!(picklist_rect(rect(0, 0, 100, 30), 4), rect(30, 12, 40, 6));
    assert_eq!(picklist_rect(rect(0, 0, 100, 30), 0), rect(30, 13, 40, 3));
    assert_eq!(picklist_rect(rect(0, 0, 100, 30), 100), rect(30, 1, 40, 28));
}

#[test]
fn confirm_buttons_are_centered_pair() {
    let (yes, no) = confirm_buttons(rect(10, 20, 42, 1));
    assert_eq!(yes, rect(25, 20, 5, 1));
    assert_eq!(no, rect(33, 20, 4, 1));
}

#[test]
fn option_markers() {
    assert_eq!(option_marker(true, true), "[x] ");
    assert_eq!(option_marker(true, false), "[ ] ");
    assert_eq!(option_marker(false, true), "● ");
    assert_eq!(option_marker(false, false), "  ");
}

#[test]
fn scrolled_list_rows() {
    let rows = list_rows(5, 10, 20, 3, 10, 4);
    assert_eq!(rows, vec![(4, rect(5, 10, 20, 1)), (5, rect(5, 11, 20, 1)), (6, rect(5, 12, 20, 1))]);
    let tail = list_rows(5, 10, 20, 3, 10, 50);
    assert_eq!(tail, vec![(9, rect(5, 10, 20, 1))]);
    assert!(list_rows(5, 10, 20, 3, 0, 0).is_empty());
}

#[test]
fn people_search_ignores_case() {
    let people = names(&["Ada Lovelace", "Alan Turing", "Grace Hopper"]);
    assert_eq!(people_matches(&people, "A"), vec![0, 1, 2]);
    assert_eq!(people_matches(&people, "TUR"), vec![1]);
    assert_eq!(people_matches(&people, ""), vec![0, 1, 2]);
    assert!(people_matches(&people, "zz").is_empty());
    assert_eq!(people_matches(&names(&["ÉMILE"]), "émile"), vec![0]);
    assert_eq!(matching_names(&people, "Grace"), vec![2]);
    assert_eq!(matching_names(&people, "grace"), Vec::<usize>::new());
}

#[test]
fn detail_buttons_layout() {
    let (done, copy) = detail_buttons(rect(2, 3, 40, 1), false).unwrap();
    assert_eq!(done, rect(2, 3, 17, 1));
    assert_eq!(copy, Some(rect(31, 3, 11, 1)));
    let (done, copy) = detail_buttons(rect(2, 3, 25, 1), true).unwrap();
    assert_eq!(done, rect(2, 3, 13, 1));
    assert_eq!(copy, None);
    assert!(detail_buttons(rect(2, 3, 9, 1), true).is_none());
    assert_eq!(complete_label(true), " ✓ Completed ");
    assert_eq!(complete_label(false).chars().count(), 17);
}

#[test]
fn activity_tabs_fit_whole() {
    assert_eq!(activity_tabs(rect(4, 9, 30, 1)), vec![rect(4, 9, 10, 1), rect(15, 9, 14, 1)]);
    assert_eq!(activity_tabs(rect(4, 9, 24, 1)), vec![rect(4, 9, 10, 1)]);
    assert!(activity_tabs(rect(4, 9, 9, 1)).is_empty());
}

#[test]
fn composer_states() {
    let idle = composer_view(None, "ignored");
    assert_eq!((idle.title, idle.body.as_str(), idle.active, idle.clickable), (" Comment ", "Click to add a comment…", false, true));
    let comment = composer_view(Some(EditTarget::Comment), "hi");
    assert_eq!((comment.title, comment.body.as_str(), comment.active, comment.clickable), (" New comment ", "hi▏", true, true));
    let field = composer_view(Some(EditTarget::Field), "42");
    assert_eq!((field.title, field.body.as_str(), field.active, field.clickable), (" Edit field ", "42▏", true, false));
    let new_task = composer_view(Some(EditTarget::NewTask), "x");
    assert!(!new_task.active && new_task.clickable);
}

#[test]
fn thread_texts() {
    let s = Story {
        kind: "comment".to_string(),
        text: String::new(),
        created_at: "2026-03-04T05:06:07Z".to_string(),
        created_by: None,
    };
    assert_eq!(story_author(&s), "Someone");
    assert_eq!(story_meta(&s), "  ·  2026-03-04 05:06");
    let t = Story { created_by: Some(Named { name: "Ada".to_string() }), ..s };
    assert_eq!(story_author(&t), "Ada");
    assert_eq!(thread_placeholder(true, true), "Loading…");
    assert_eq!(thread_placeholder(false, true), "No comments yet.");
    assert_eq!(thread_placeholder(false, false), "No activity yet.");
    assert_eq!(status_hints(&AppMode::TaskDetail("1".to_string())), " q: quit ");
    assert!(status_hints(&AppMode::Full).contains("drag: reorder/resize"));
}
