use ninjasana::asana::{CustomField, Membership, Named, Task};
use ninjasana::settings::{
    default_columns, parse_columns, project_source, Column, ProjectSource, RawConfig, RawProjects, Settings,
};

fn raw(columns: &[&str], projects: Option<RawProjects>) -> RawConfig {
    RawConfig { columns: columns.iter().map(|c| c.to_string()).collect(), projects }
}

fn task(name: &str) -> Task {
    Task {
        gid: "1".to_string(),
        name: name.to_string(),
        completed: false,
        due_on: None,
        assignee: None,
        assignee_section: None,
        memberships: Vec::new(),
        tags: Vec::new(),
        custom_fields: Vec::new(),
        notes: String::new(),
        permalink_url: None,
    }
}

#[test]
fn parses_builtin_and_custom_columns() {
    assert_eq!(Column::parse("name"), Some(Column::Name));
    assert_eq!(Column::parse("due_date"), Some(Column::DueDate));
    assert_eq!(Column::parse("due"), Some(Column::DueDate));
    assert_eq!(
        Column::parse("custom:Dev Status v2"),
        Some(Column::Custom("Dev Status v2".to_string()))
    );
    assert_eq!(Column::parse("not_a_column"), None);
    assert_eq!(Column::parse("custom:"), None);
}

#[test]
fn parse_columns_skips_unknown_tokens() {
    let tokens = ["name".to_string(), "bogus".to_string(), "tags".to_string()];
    assert_eq!(parse_columns(&tokens), vec![Column::Name, Column::Tags]);
}

#[test]
fn project_source_accepts_mode_string() {
    let raw = raw(&[], Some(RawProjects::Mode("member".to_string())));
    assert_eq!(project_source(raw.projects.as_ref()), ProjectSource::Member);
}

#[test]
fn project_source_accepts_explicit_list() {
    let raw = raw(
        &[],
        Some(RawProjects::List(vec!["ISMS".to_string(), "Sprint - Maximilian".to_string()])),
    );
    assert_eq!(
        project_source(raw.projects.as_ref()),
        ProjectSource::Explicit(vec!["ISMS".to_string(), "Sprint - Maximilian".to_string()])
    );
}

#[test]
fn project_source_defaults_to_favorites() {
    assert_eq!(project_source(None), ProjectSource::Favorites);
    let bad = raw(&[], Some(RawProjects::Mode("nonsense".to_string())));
    assert_eq!(project_source(bad.projects.as_ref()), ProjectSource::Favorites);
    let empty = raw(&[], Some(RawProjects::List(Vec::new())));
    assert_eq!(project_source(empty.projects.as_ref()), ProjectSource::Favorites);
}

#[test]
fn full_config_round_trips() {
    let raw = raw(
        &["name", "custom:Dev Status v2", "tags"],
        Some(RawProjects::List(vec!["ISMS".to_string()])),
    );
    assert_eq!(
        parse_columns(&raw.columns),
        vec![Column::Name, Column::Custom("Dev Status v2".to_string()), Column::Tags]
    );
    assert_eq!(
        project_source(raw.projects.as_ref()),
        ProjectSource::Explicit(vec!["ISMS".to_string()])
    );
}

#[test]
fn column_tokens_ignore_case_space_and_aliases() {
    assert_eq!(Column::parse("  TAGS "), Some(Column::Tags));
    assert_eq!(Column::parse("Project"), Some(Column::Projects));
    assert_eq!(Column::parse("done"), Some(Column::Completed));
    assert_eq!(Column::parse("custom:  Priority  "), Some(Column::Custom("Priority".to_string())));
}

#[test]
fn mode_names_ignore_case_and_aliases() {
    assert_eq!(ProjectSource::parse(" Starred "), Some(ProjectSource::Favorites));
    assert_eq!(ProjectSource::parse("ALL"), Some(ProjectSource::Member));
    assert_eq!(ProjectSource::parse("everything"), None);
}

#[test]
fn column_keys_read_back() {
    let columns = vec![
        Column::Name,
        Column::DueDate,
        Column::Assignee,
        Column::Projects,
        Column::Tags,
        Column::Completed,
        Column::Custom("Dev Status v2".to_string()),
    ];
    for c in columns {
        assert_eq!(Column::parse(&c.key()), Some(c.clone()));
    }
    assert_eq!(Column::Custom("Priority".to_string()).key(), "custom:Priority");
}

#[test]
fn column_titles_and_widths() {
    assert_eq!(Column::DueDate.title(), "Due Date");
    assert_eq!(Column::Completed.title(), "Done");
    assert_eq!(Column::Custom("Urgency".to_string()).title(), "Urgency");
    assert_eq!(Column::Name.width(), 0);
    assert_eq!(Column::Projects.width(), 22);
    assert_eq!(Column::Custom("x".to_string()).width(), 16);
    assert!(Column::Name.is_name());
    assert!(!Column::Tags.is_name());
}

#[test]
fn column_values_of_a_task() {
    let mut t = task("Write docs");
    assert_eq!(Column::Name.value(&t), "Write docs");
    assert_eq!(Column::DueDate.value(&t), "—");
    assert_eq!(Column::Assignee.value(&t), "");
    assert_eq!(Column::Completed.value(&t), "");
    t.due_on = Some("2026-06-30".to_string());
    t.completed = true;
    t.assignee = Some(Named { name: "Ada".to_string() });
    t.tags = vec![Named { name: "infra".to_string() }, Named { name: "urgent".to_string() }];
    t.memberships = vec![
        Membership { project: Some(Named { name: "Acme".to_string() }) },
        Membership { project: None },
        Membership { project: Some(Named { name: "Beta".to_string() }) },
    ];
    t.custom_fields = vec![CustomField {
        gid: String::new(),
        name: "Priority ".to_string(),
        display_value: Some("High".to_string()),
        resource_subtype: "enum".to_string(),
        enum_options: Vec::new(),
        enum_value: None,
        multi_enum_values: Vec::new(),
        date_value: None,
    }];
    assert_eq!(Column::DueDate.value(&t), "2026-06-30");
    assert_eq!(Column::Completed.value(&t), "✓");
    assert_eq!(Column::Assignee.value(&t), "Ada");
    assert_eq!(Column::Tags.value(&t), "infra, urgent");
    assert_eq!(Column::Projects.value(&t), "Acme, Beta");
    assert_eq!(Column::Custom("priority".to_string()).value(&t), "High");
    assert_eq!(Column::Custom("Missing".to_string()).value(&t), "");
}

#[test]
fn settings_fall_back_to_default_columns() {
    let s = Settings::load(None);
    assert_eq!(s.columns, default_columns());
    assert_eq!(s.projects, ProjectSource::Favorites);
    let unknown = Settings::load(Some(raw(&["bogus"], Some(RawProjects::Mode("member".to_string())))));
    assert_eq!(unknown.columns, default_columns());
    assert_eq!(unknown.projects, ProjectSource::Member);
    let chosen = Settings::load(Some(raw(&["tags", "name"], None)));
    assert_eq!(chosen.columns, vec![Column::Tags, Column::Name]);
    assert_eq!(default_columns().len(), 5);
}
