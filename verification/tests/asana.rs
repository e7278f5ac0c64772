use ninjasana::asana::{
    field_name_matches, first_workspace, group_by_assignee_section, member_projects_of, next_page_request, pick_named_projects, request_url,
    section_from,
    ApiRequest, CustomField, Membership, Named, Project, Ref, SectionRef, Story, Task, Workspace,
};

fn task(gid: &str, name: &str) -> Task {
    Task {
        gid: gid.to_string(),
        name: name.to_string(),
        completed: false,
        due_on: None,
        assignee: None,
        assignee_section: None,
        memberships: Vec::new(),
        tags: Vec::new(),
        custom_fields: Vec::new(),
        notes: String::new(),
        permalink_url: None,
    }
}

fn in_section(mut t: Task, gid: &str, name: &str) -> Task {
    t.assignee_section = Some(SectionRef { gid: gid.to_string(), name: name.to_string() });
    t
}

fn field(name: &str, display: Option<&str>, subtype: &str) -> CustomField {
    CustomField {
        gid: String::new(),
        name: name.to_string(),
        display_value: display.map(|d| d.to_string()),
        resource_subtype: subtype.to_string(),
        enum_options: Vec::new(),
        enum_value: None,
        multi_enum_values: Vec::new(),
        date_value: None,
    }
}

fn pairs(q: &[(&str, &str)]) -> Vec<(String, String)> {
    q.iter().map(|(k, v)| (k.to_string(), v.to_string())).collect()
}

#[test]
fn field_names_match_despite_whitespace_and_case() {
    assert!(field_name_matches("Urgency ", "Urgency"));
    assert!(field_name_matches("Customer ", "customer"));
    assert!(field_name_matches("Priority", "Priority"));
    assert!(!field_name_matches("Status", "Priority"));
}

#[test]
fn groups_my_tasks_by_assignee_section_in_first_seen_order() {
    let tasks = vec![
        in_section(task("1", "A"), "s1", "Now"),
        in_section(task("2", "B"), "s2", "Today"),
        in_section(task("3", "C"), "s1", "Now"),
        task("4", "D"),
    ];
    let sections = group_by_assignee_section(tasks);

    let names: Vec<&str> = sections.iter().map(|s| s.name.as_str()).collect();
    assert_eq!(names, vec!["Now", "Today", "(No section)"]);

    assert_eq!(sections[0].gid.as_deref(), Some("s1"));
    assert_eq!(sections[2].gid, None);

    let now: Vec<&str> = sections[0].tasks.iter().map(|t| t.name.as_str()).collect();
    assert_eq!(now, vec!["A", "C"]);
    assert_eq!(sections[1].tasks.len(), 1);
    assert_eq!(sections[2].tasks[0].name, "D");
}

#[test]
fn task_accessors_read_tags_and_custom_fields() {
    let mut t = task("9", "T");
    t.tags = vec![Named { name: "infra".to_string() }, Named { name: "urgent".to_string() }];
    t.custom_fields = vec![field("Priority", Some("2. Development"), ""), field("Empty", None, "")];
    t.memberships = vec![Membership { project: Some(Named { name: "Acme".to_string() }) }];
    assert_eq!(t.tag_names(), vec!["infra", "urgent"]);
    assert_eq!(t.project_names(), vec!["Acme"]);
    assert_eq!(t.custom_field("Priority").as_deref(), Some("2. Development"));
    assert_eq!(t.custom_field("Empty"), None);
    assert_eq!(t.custom_field("Missing"), None);
}

#[test]
fn accessors_skip_empty_names_and_empty_values() {
    let mut t = task("9", "T");
    t.tags = vec![Named { name: String::new() }, Named { name: "x".to_string() }];
    t.memberships = vec![
        Membership { project: Some(Named { name: String::new() }) },
        Membership { project: None },
        Membership { project: Some(Named { name: "P".to_string() }) },
    ];
    t.custom_fields = vec![field("Stage", Some(""), "text"), field("stage ", Some("late"), "text")];
    assert_eq!(t.tag_names(), vec!["x"]);
    assert_eq!(t.project_names(), vec!["P"]);
    // The first field whose name matches decides, even when its value is empty.
    assert_eq!(t.custom_field("Stage"), None);
}

#[test]
fn grouping_keeps_every_task_once() {
    let tasks = vec![
        in_section(task("1", "A"), "s1", ""),
        task("2", "B"),
        in_section(task("3", "C"), "s2", "Later"),
        task("4", "D"),
        in_section(task("5", "E"), "s1", "Renamed"),
    ];
    let sections = group_by_assignee_section(tasks);
    let total: usize = sections.iter().map(|s| s.tasks.len()).sum();
    assert_eq!(total, 5);
    let names: Vec<&str> = sections.iter().map(|s| s.name.as_str()).collect();
    // An unnamed section is shown as "(No section)" but keeps its gid.
    assert_eq!(names, vec!["(No section)", "(No section)", "Later"]);
    assert_eq!(sections[0].gid.as_deref(), Some("s1"));
    assert_eq!(sections[1].gid, None);
    let first: Vec<&str> = sections[0].tasks.iter().map(|t| t.gid.as_str()).collect();
    assert_eq!(first, vec!["1", "5"]);
    assert!(group_by_assignee_section(Vec::new()).is_empty());
}

#[test]
fn custom_field_kinds_and_story_kinds() {
    assert!(field("a", None, "enum").is_enum());
    assert!(field("a", None, "multi_enum").is_multi_enum());
    assert!(!field("a", None, "multi_enum").is_enum());
    assert!(field("a", None, "text").is_text());
    assert!(field("a", None, "number").is_number());
    assert!(field("a", None, "date").is_date());
    assert!(field("a", None, "people").is_people());
    let story = |kind: &str| Story {
        kind: kind.to_string(),
        text: String::new(),
        created_at: String::new(),
        created_by: None,
    };
    assert!(story("comment").is_comment());
    assert!(!story("system").is_comment());
}

#[test]
fn urls_join_base_and_path_with_one_slash() {
    assert_eq!(
        request_url("https://app.asana.com/api/1.0/", "/users/me", &[]),
        "https://app.asana.com/api/1.0/users/me"
    );
    assert_eq!(
        request_url("http://h//", "tasks/1", &pairs(&[("limit", "100"), ("opt_fields", "name")])),
        "http://h/tasks/1?limit=100&opt_fields=name"
    );
}

#[test]
fn endpoints_name_their_paths_and_queries() {
    let r = ApiRequest::me();
    assert_eq!(r.path, "users/me");
    assert!(r.query.is_empty());
    let r = ApiRequest::workspaces();
    assert_eq!(r.query, pairs(&[("limit", "100")]));
    let r = ApiRequest::favorite_projects("W");
    assert_eq!(r.path, "users/me/favorites");
    assert_eq!(
        r.query,
        pairs(&[("workspace", "W"), ("resource_type", "project"), ("limit", "100"), ("opt_fields", "name")])
    );
    let r = ApiRequest::projects("W", true);
    assert_eq!(
        r.query,
        pairs(&[("workspace", "W"), ("archived", "false"), ("limit", "100"), ("opt_fields", "name,members")])
    );
    assert_eq!(ApiRequest::projects("W", false).query[3].1, "name");
    assert_eq!(ApiRequest::project_sections("P").path, "projects/P/sections");
    assert_eq!(ApiRequest::section_tasks("S").path, "sections/S/tasks");
    let r = ApiRequest::user_task_list("U", "W");
    assert_eq!(r.path, "users/U/user_task_list");
    assert_eq!(r.query, pairs(&[("workspace", "W")]));
    let r = ApiRequest::user_task_list_tasks("L");
    assert_eq!(r.path, "user_task_lists/L/tasks");
    assert_eq!(r.query[0], ("completed_since".to_string(), "now".to_string()));
    assert!(r.query[2].1.contains("assignee_section.name"));
    let r = ApiRequest::task("T");
    assert_eq!(r.path, "tasks/T");
    assert!(r.query[0].1.starts_with("name,completed,notes,permalink_url"));
    assert_eq!(ApiRequest::stories("T").path, "tasks/T/stories");
    assert_eq!(ApiRequest::subtasks("T").path, "tasks/T/subtasks");
    assert_eq!(ApiRequest::users("W").path, "users");
    assert_eq!(ApiRequest::task_update("T").path, "tasks/T");
    assert_eq!(ApiRequest::add_comment("T").path, "tasks/T/stories");
    assert_eq!(ApiRequest::add_task_to_section("S").path, "sections/S/addTask");
}

#[test]
fn next_page_adds_the_offset_to_the_first_query() {
    let first = ApiRequest::workspaces();
    let next = first.with_offset("abc");
    assert_eq!(next.path, "workspaces");
    assert_eq!(next.query, pairs(&[("limit", "100"), ("offset", "abc")]));
}

#[test]
fn member_projects_keep_order_and_membership() {
    let project = |gid: &str, members: &[&str]| Project {
        gid: gid.to_string(),
        name: format!("P{gid}"),
        members: members.iter().map(|m| Ref { gid: m.to_string() }).collect(),
    };
    let all = vec![project("1", &["u", "v"]), project("2", &["v"]), project("3", &["u"]), project("4", &[])];
    let mine: Vec<String> = member_projects_of(all, "u").into_iter().map(|p| p.gid).collect();
    assert_eq!(mine, vec!["1", "3"]);
}

#[test]
fn sections_and_workspaces() {
    let s = section_from(SectionRef { gid: "9".to_string(), name: String::new() }, vec![task("1", "A")]);
    assert_eq!(s.name, "(No section)");
    assert_eq!(s.gid.as_deref(), Some("9"));
    assert_eq!(s.tasks.len(), 1);
    let s = section_from(SectionRef { gid: "9".to_string(), name: "Doing".to_string() }, Vec::new());
    assert_eq!(s.name, "Doing");
    let ws = vec![
        Workspace { gid: "w1".to_string(), name: "One".to_string() },
        Workspace { gid: "w2".to_string(), name: "Two".to_string() },
    ];
    assert_eq!(first_workspace(ws).unwrap().gid, "w1");
    assert!(first_workspace(Vec::new()).is_none());
}

#[test]
fn explicit_project_names_pick_in_their_order() {
    let project = |gid: &str, name: &str| Project { gid: gid.to_string(), name: name.to_string(), members: Vec::new() };
    let all = vec![project("1", "ISMS"), project("2", "Sprint - Maximilian "), project("3", "isms")];
    let names = vec!["sprint - maximilian".to_string(), "Nope".to_string(), "ISMS".to_string()];
    assert_eq!(pick_named_projects(&all, &names), vec![1, 0]);
    assert!(pick_named_projects(&all, &Vec::new()).is_empty());
}

#[test]
fn next_page_follows_the_offset_until_none() {
    let first = ApiRequest::users("W");
    let next = next_page_request(&first, Some("xyz".to_string())).unwrap();
    assert_eq!(next.path, "users");
    assert_eq!(next.query, pairs(&[("workspace", "W"), ("limit", "100"), ("opt_fields", "name"), ("offset", "xyz")]));
    assert!(next_page_request(&first, None).is_none());
}
