use ninjasana::app::{demo_detail, demo_projects, demo_tasks_for, flatten_sections, keys_match, Action, App, AppMode, Input, Key};
use ninjasana::asana::{AsanaUpdate, Project, Section, Task, TaskListKey, User, Workspace};
use ninjasana::zones::{Nav, Rect, Zone, ZoneMap};

fn rect(x: u16, y: u16, width: u16, height: u16) -> Rect {
    Rect { x, y, width, height }
}

fn task(gid: &str, name: &str) -> Task {
    Task {
        gid: gid.to_string(),
        name: name.to_string(),
        completed: false,
        due_on: None,
        assignee: None,
        assignee_section: None,
        memberships: Vec::new(),
        tags: Vec::new(),
        custom_fields: Vec::new(),
        notes: String::new(),
        permalink_url: None,
    }
}

fn key(code: Key) -> Input {
    Input::Key { code, ctrl: false, press: true }
}

#[test]
fn rect_edges_and_containment() {
    let r = rect(2, 3, 4, 2);
    assert_eq!(r.right(), 6);
    assert_eq!(r.bottom(), 5);
    assert!(r.contains(2, 3));
    assert!(r.contains(5, 4));
    assert!(!r.contains(6, 4));
    assert!(!r.contains(5, 5));
    assert!(!r.contains(1, 3));
    assert_eq!(rect(65530, 0, 10, 1).right(), u16::MAX);
}

#[test]
fn later_zones_sit_on_top() {
    let mut zones = ZoneMap::new();
    zones.push(Zone::TaskRow(0), rect(0, 0, 10, 10));
    zones.push(Zone::Quit, rect(2, 2, 2, 2));
    assert_eq!(zones.hit(3, 3), Some(Zone::Quit));
    assert_eq!(zones.hit(1, 1), Some(Zone::TaskRow(0)));
    assert_eq!(zones.hit(20, 20), None);
    zones.clear();
    assert_eq!(zones.hit(3, 3), None);
}

#[test]
fn offline_app_starts_in_demo_mode() {
    let app = App::new(AppMode::Full, false);
    assert!(app.running);
    assert_eq!(app.projects.len(), 3);
    assert_eq!(app.projects[1].name, "Website Redesign");
    assert_eq!(app.tasks.len(), 6);
    assert_eq!(app.tasks[0].gid, "demo-me-0");
    assert!(app.tasks[0].completed);
    assert_eq!(app.status, "Demo mode — no token set. Run `ninjasana login`. Click around; q to quit.");
    assert_eq!(app.nav_title(), "My Tasks");
}

#[test]
fn online_app_starts_empty_and_connects() {
    let mut app = App::new(AppMode::Full, true);
    assert!(app.projects.is_empty() && app.tasks.is_empty());
    let act = app.start();
    assert!(matches!(act, Action::Bootstrap));
    assert_eq!(app.status, "Connecting to Asana…");
}

#[test]
fn task_view_loads_its_task_or_asks_for_login() {
    let mut app = App::new(AppMode::TaskDetail("77".to_string()), true);
    let act = app.start();
    assert!(matches!(act, Action::LoadDetail(ref g) if g == "77"));
    assert!(app.detail_loading);
    assert_eq!(app.status, "Loading task 77…");
    let mut offline = App::new(AppMode::TaskDetail("77".to_string()), false);
    assert!(matches!(offline.start(), Action::Nothing));
    assert_eq!(offline.status, "No Asana credentials — run `ninjasana login` first. Press q to quit.");
}

#[test]
fn keys_move_selection_and_quit() {
    let mut app = App::new(AppMode::Full, false);
    app.handle_input(key(Key::Down));
    assert_eq!(app.selected_task, Some(0));
    app.handle_input(key(Key::Char('j')));
    assert_eq!(app.selected_task, Some(1));
    app.handle_input(key(Key::Char('k')));
    app.handle_input(key(Key::Up));
    assert_eq!(app.selected_task, Some(0));
    for _ in 0..10 {
        app.handle_input(key(Key::Down));
    }
    assert_eq!(app.selected_task, Some(5));
    assert_eq!(app.status, "Selected: Browser OAuth login");
    let d = app.detail.as_ref().unwrap();
    assert_eq!(d.due_on.as_deref(), Some("2026-06-30"));
    app.handle_input(Input::Key { code: Key::Char('q'), ctrl: false, press: false });
    assert!(app.running);
    app.handle_input(Input::Key { code: Key::Char('c'), ctrl: true, press: true });
    assert!(!app.running);
}

#[test]
fn clicks_go_to_the_topmost_zone_and_never_complete_tasks() {
    let mut app = App::new(AppMode::Full, false);
    app.zones.push(Zone::TaskRow(3), rect(0, 5, 40, 1));
    app.zones.push(Zone::Nav(Nav::Project(0)), rect(0, 1, 20, 1));
    let before: Vec<bool> = app.tasks.iter().map(|t| t.completed).collect();
    app.handle_input(Input::LeftClick { column: 4, row: 5 });
    assert_eq!(app.selected_task, Some(3));
    let after: Vec<bool> = app.tasks.iter().map(|t| t.completed).collect();
    assert_eq!(before, after);
    app.handle_input(Input::LeftClick { column: 4, row: 1 });
    assert_eq!(app.nav, Nav::Project(0));
    assert_eq!(app.selected_task, None);
    assert_eq!(app.tasks.len(), 3);
    assert_eq!(app.tasks[0].gid, "demo-Ninjasana-0");
    assert_eq!(app.status, "Ninjasana — 3 task(s).");
    app.handle_input(Input::LeftClick { column: 79, row: 40 });
    assert_eq!(app.nav, Nav::Project(0));
}

#[test]
fn wheel_scrolls_but_not_below_zero() {
    let mut app = App::new(AppMode::Full, false);
    app.handle_input(Input::ScrollUp);
    assert_eq!(app.task_scroll, 0);
    app.handle_input(Input::ScrollDown);
    app.handle_input(Input::ScrollDown);
    app.handle_input(Input::ScrollUp);
    assert_eq!(app.task_scroll, 1);
}

#[test]
fn online_navigation_asks_for_the_list() {
    let mut app = App::new(AppMode::Full, true);
    let act = app.handle_asana(AsanaUpdate::Bootstrap {
        user: User { gid: "u1".to_string(), name: "Ada".to_string() },
        workspace: Workspace { gid: "w1".to_string(), name: "Acme".to_string() },
        projects: vec![Project { gid: "p1".to_string(), name: "Roadmap".to_string(), members: Vec::new() }],
    });
    assert_eq!(app.status, "Connected as Ada (Acme).");
    assert!(matches!(act, Action::LoadMyTasks { ref workspace, ref user } if workspace == "w1" && user == "u1"));
    let act = app.select_nav(Nav::Project(0));
    assert!(matches!(act, Action::LoadProject(ref g) if g == "p1"));
    assert_eq!(app.status, "Loading Roadmap…");
    // A late My Tasks answer is ignored.
    let stale = Section { gid: None, name: "x".to_string(), tasks: vec![task("9", "old")] };
    app.handle_asana(AsanaUpdate::Tasks { key: TaskListKey::MyTasks, sections: vec![stale] });
    assert!(app.tasks.is_empty());
    let fresh = vec![
        Section { gid: Some("s".to_string()), name: "A".to_string(), tasks: vec![task("1", "one")] },
        Section { gid: Some("t".to_string()), name: "B".to_string(), tasks: vec![task("2", "two"), task("3", "three")] },
    ];
    app.handle_asana(AsanaUpdate::Tasks { key: TaskListKey::Project("p1".to_string()), sections: fresh });
    assert_eq!(app.tasks.len(), 3);
    assert_eq!(app.status, "Roadmap — 3 task(s).");
    let act = app.select_task(1);
    assert!(matches!(act, Action::LoadDetail(ref g) if g == "2"));
    assert!(app.detail_loading && app.detail.is_none());
    app.handle_asana(AsanaUpdate::Detail(task("2", "two")));
    assert!(!app.detail_loading);
    assert_eq!(app.detail.as_ref().unwrap().name, "two");
    app.handle_asana(AsanaUpdate::Error("boom".to_string()));
    assert_eq!(app.status, "Asana error: boom");
}

#[test]
fn my_tasks_need_identity_first() {
    let mut app = App::new(AppMode::Full, true);
    let act = app.select_nav(Nav::MyTasks);
    assert!(matches!(act, Action::Fail(ref m) if m == "workspace/user not ready"));
    let act = app.select_nav(Nav::Project(7));
    assert!(matches!(act, Action::Nothing));
    assert_eq!(app.nav_title(), "Project");
}

#[test]
fn demo_data_and_helpers() {
    let projects = demo_projects();
    assert_eq!(projects[2].gid, "demo-2");
    assert_eq!(projects[2].name, "Q3 Roadmap");
    let other = demo_tasks_for(Nav::Project(2), &projects);
    assert_eq!(other.len(), 2);
    assert_eq!(other[1].gid, "demo-Q3 Roadmap-1");
    assert!(other[1].completed);
    let d = demo_detail(&other[0]);
    assert_eq!(d.gid, other[0].gid);
    assert!(d.notes.starts_with("This is demo detail."));
    assert_eq!(d.assignee.unwrap().name, "You (demo)");
    assert!(keys_match(&TaskListKey::MyTasks, &TaskListKey::MyTasks));
    assert!(!keys_match(&TaskListKey::MyTasks, &TaskListKey::Project(String::new())));
    assert!(keys_match(&TaskListKey::Project("a".to_string()), &TaskListKey::Project("a".to_string())));
    let flat = flatten_sections(vec![
        Section { gid: None, name: "x".to_string(), tasks: vec![task("1", "a")] },
        Section { gid: None, name: "y".to_string(), tasks: Vec::new() },
        Section { gid: None, name: "z".to_string(), tasks: vec![task("2", "b")] },
    ]);
    let gids: Vec<&str> = flat.iter().map(|t| t.gid.as_str()).collect();
    assert_eq!(gids, vec!["1", "2"]);
}
