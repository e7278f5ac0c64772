//! User configuration: which columns the task table shows, in which order, and
//! which projects appear in the navigation pane. Reading and writing the
//! configuration file happens at the program's edge; what stands here turns
//! the file's decoded values into [`Settings`].

use vstd::prelude::*;

use crate::asana::{custom_field_value, project_names_of, tag_names_of, Task};
use crate::text::{
    chars_eq_str, chars_of, clone_strings, copy_range, has_prefix, join_strings, joined, lower_chars, lower_seq,
    opt_view, starts_with_str, string_of, string_views, trim_chars, trimmed,
};

verus! {

broadcast use vstd::string::group_string_axioms;

/// A column in the task table.
#[derive(Clone, Debug, PartialEq, Eq)]
pub enum Column {
    Name,
    DueDate,
    Assignee,
    Projects,
    Tags,
    Completed,
    /// A custom field, referenced by its exact Asana name.
    Custom(String),
}

/// What a [`Column`] is, with a custom field's name as characters.
pub enum ColumnView {
    Name,
    DueDate,
    Assignee,
    Projects,
    Tags,
    Completed,
    Custom(Seq<char>),
}

impl View for Column {
    type V = ColumnView;

    open spec fn view(&self) -> ColumnView {
        match self {
            Column::Name => ColumnView::Name,
            Column::DueDate => ColumnView::DueDate,
            Column::Assignee => ColumnView::Assignee,
            Column::Projects => ColumnView::Projects,
            Column::Tags => ColumnView::Tags,
            Column::Completed => ColumnView::Completed,
            Column::Custom(name) => ColumnView::Custom(name@),
        }
    }
}

/// The column a config token names: `custom:<name>` with a non-empty trimmed
/// name, or one of the built-in names (ASCII case ignored, surrounding
/// whitespace ignored).
pub open spec fn column_of(token: Seq<char>) -> Option<ColumnView> {
    let t = trimmed(token);
    if has_prefix(t, "custom:"@) {
        let name = trimmed(t.skip("custom:"@.len() as int));
        if name.len() > 0 {
            Some(ColumnView::Custom(name))
        } else {
            None
        }
    } else {
        let l = lower_seq(t);
        if l == "name"@ {
            Some(ColumnView::Name)
        } else if l == "due_date"@ || l == "due"@ {
            Some(ColumnView::DueDate)
        } else if l == "assignee"@ {
            Some(ColumnView::Assignee)
        } else if l == "projects"@ || l == "project"@ {
            Some(ColumnView::Projects)
        } else if l == "tags"@ || l == "tag"@ {
            Some(ColumnView::Tags)
        } else if l == "completed"@ || l == "done"@ {
            Some(ColumnView::Completed)
        } else {
            None
        }
    }
}

/// The view of an optional column.
pub open spec fn opt_column_view(c: Option<Column>) -> Option<ColumnView> {
    match c {
        Some(c) => Some(c@),
        None => None,
    }
}

/// The header title of a column.
pub open spec fn column_title(c: ColumnView) -> Seq<char> {
    match c {
        ColumnView::Name => "Name"@,
        ColumnView::DueDate => "Due Date"@,
        ColumnView::Assignee => "Assignee"@,
        ColumnView::Projects => "Projects"@,
        ColumnView::Tags => "Tags"@,
        ColumnView::Completed => "Done"@,
        ColumnView::Custom(name) => name,
    }
}

/// The fixed display width of a column; `0` for `Name`, which flexes.
pub open spec fn column_width(c: ColumnView) -> usize {
    match c {
        ColumnView::Name => 0,
        ColumnView::DueDate => 10,
        ColumnView::Assignee => 16,
        ColumnView::Projects => 22,
        ColumnView::Tags => 18,
        ColumnView::Completed => 4,
        ColumnView::Custom(_) => 16,
    }
}

/// The stable key of a column, for persisting per-column state.
pub open spec fn column_key(c: ColumnView) -> Seq<char> {
    match c {
        ColumnView::Name => "name"@,
        ColumnView::DueDate => "due_date"@,
        ColumnView::Assignee => "assignee"@,
        ColumnView::Projects => "projects"@,
        ColumnView::Tags => "tags"@,
        ColumnView::Completed => "completed"@,
        ColumnView::Custom(name) => "custom:"@ + name,
    }
}

/// The cell text of a column for a task.
pub open spec fn column_value(c: ColumnView, task: Task) -> Seq<char> {
    match c {
        ColumnView::Name => task.name@,
        ColumnView::DueDate => match task.due_on {
            Some(d) => d@,
            None => "—"@,
        },
        ColumnView::Assignee => match task.assignee {
            Some(a) => a.name@,
            None => Seq::empty(),
        },
        ColumnView::Projects => joined(project_names_of(task.memberships@), ", "@),
        ColumnView::Tags => joined(tag_names_of(task.tags@), ", "@),
        ColumnView::Completed => if task.completed { "✓"@ } else { ""@ },
        ColumnView::Custom(name) => match custom_field_value(task.custom_fields@, name) {
            Some(v) => v,
            None => Seq::empty(),
        },
    }
}

impl Column {
    /// Parse one config token, e.g. `"due_date"` or `"custom:Dev Status v2"`.
    pub fn parse(token: &str) -> (r: Option<Column>)
        ensures
            opt_column_view(r) == column_of(token@),
    {
        let chars = chars_of(token);
        let t = trim_chars(chars.as_slice());
        if starts_with_str(t.as_slice(), "custom:") {
            let plen = chars_of("custom:").len();
            let rest = copy_range(t.as_slice(), plen, t.len());
            let name = trim_chars(rest.as_slice());
            assert(rest@ =~= t@.skip("custom:"@.len() as int));
            return if name.len() > 0 {
                Some(Column::Custom(string_of(name.as_slice())))
            } else {
                None
            };
        }
        let l = lower_chars(t.as_slice());
        let l = l.as_slice();
        if chars_eq_str(l, "name") {
            Some(Column::Name)
        } else if chars_eq_str(l, "due_date") || chars_eq_str(l, "due") {
            Some(Column::DueDate)
        } else if chars_eq_str(l, "assignee") {
            Some(Column::Assignee)
        } else if chars_eq_str(l, "projects") || chars_eq_str(l, "project") {
            Some(Column::Projects)
        } else if chars_eq_str(l, "tags") || chars_eq_str(l, "tag") {
            Some(Column::Tags)
        } else if chars_eq_str(l, "completed") || chars_eq_str(l, "done") {
            Some(Column::Completed)
        } else {
            None
        }
    }

    pub fn title(&self) -> (r: String)
        ensures
            r@ == column_title(self@),
    {
        match self {
            Column::Name => String::from_str("Name"),
            Column::DueDate => String::from_str("Due Date"),
            Column::Assignee => String::from_str("Assignee"),
            Column::Projects => String::from_str("Projects"),
            Column::Tags => String::from_str("Tags"),
            Column::Completed => String::from_str("Done"),
            Column::Custom(name) => name.clone(),
        }
    }

    /// Fixed display width. `Name` returns 0, meaning "flex to fill".
    pub fn width(&self) -> (r: usize)
        ensures
            r == column_width(self@),
    {
        match self {
            Column::Name => 0,
            Column::DueDate => 10,
            Column::Assignee => 16,
            Column::Projects => 22,
            Column::Tags => 18,
            Column::Completed => 4,
            Column::Custom(_) => 16,
        }
    }

    pub fn is_name(&self) -> (b: bool)
        ensures
            b == (self@ is Name),
    {
        match self {
            Column::Name => true,
            _ => false,
        }
    }

    /// Stable identity for persisting per-column state (e.g. resized width).
    pub fn key(&self) -> (r: String)
        ensures
            r@ == column_key(self@),
    {
        match self {
            Column::Name => String::from_str("name"),
            Column::DueDate => String::from_str("due_date"),
            Column::Assignee => String::from_str("assignee"),
            Column::Projects => String::from_str("projects"),
            Column::Tags => String::from_str("tags"),
            Column::Completed => String::from_str("completed"),
            Column::Custom(name) => {
                let mut k = String::from_str("custom:");
                k.append(name.as_str());
                k
            },
        }
    }

    /// The cell value for a task.
    pub fn value(&self, task: &Task) -> (r: String)
        ensures
            r@ == column_value(self@, *task),
    {
        match self {
            Column::Name => task.name.clone(),
            Column::DueDate => match &task.due_on {
                Some(d) => d.clone(),
                None => String::from_str("—"),
            },
            Column::Assignee => match &task.assignee {
                Some(a) => a.name.clone(),
                None => String::new(),
            },
            Column::Projects => join_strings(&task.project_names(), ", "),
            Column::Tags => join_strings(&task.tag_names(), ", "),
            Column::Completed => if task.completed {
                String::from_str("✓")
            } else {
                String::from_str("")
            },
            Column::Custom(name) => match task.custom_field(name.as_str()) {
                Some(v) => v,
                None => String::new(),
            },
        }
    }
}


/// Which projects to show in the navigation pane.
#[derive(Clone, Debug, PartialEq, Eq)]
pub enum ProjectSource {
    /// Favorited projects, in sidebar order (closest to the web sidebar).
    Favorites,
    /// All projects the user is a member of.
    Member,
    /// An explicit, ordered list of project names.
    Explicit(Vec<String>),
}

/// What a [`ProjectSource`] is, with explicit names as characters.
pub enum ProjectSourceView {
    Favorites,
    Member,
    Explicit(Seq<Seq<char>>),
}

impl View for ProjectSource {
    type V = ProjectSourceView;

    open spec fn view(&self) -> ProjectSourceView {
        match self {
            ProjectSource::Favorites => ProjectSourceView::Favorites,
            ProjectSource::Member => ProjectSourceView::Member,
            ProjectSource::Explicit(names) => ProjectSourceView::Explicit(string_views(names@)),
        }
    }
}

/// The mode a `projects` string names (surrounding whitespace and ASCII case
/// ignored), if any.
pub open spec fn project_mode_of(value: Seq<char>) -> Option<ProjectSourceView> {
    let l = lower_seq(trimmed(value));
    if l == "favorites"@ || l == "favorite"@ || l == "starred"@ {
        Some(ProjectSourceView::Favorites)
    } else if l == "member"@ || l == "members"@ || l == "all"@ {
        Some(ProjectSourceView::Member)
    } else {
        None
    }
}

/// The view of an optional project source.
pub open spec fn opt_source_view(p: Option<ProjectSource>) -> Option<ProjectSourceView> {
    match p {
        Some(p) => Some(p@),
        None => None,
    }
}

impl ProjectSource {
    /// Parse a `projects` mode string.
    pub fn parse(value: &str) -> (r: Option<ProjectSource>)
        ensures
            opt_source_view(r) == project_mode_of(value@),
    {
        let chars = chars_of(value);
        let l = lower_chars(trim_chars(chars.as_slice()).as_slice());
        let l = l.as_slice();
        if chars_eq_str(l, "favorites") || chars_eq_str(l, "favorite") || chars_eq_str(l, "starred") {
            Some(ProjectSource::Favorites)
        } else if chars_eq_str(l, "member") || chars_eq_str(l, "members") || chars_eq_str(l, "all") {
            Some(ProjectSource::Member)
        } else {
            None
        }
    }
}

/// The `projects` config value: either a mode string or an explicit name list.
#[derive(Clone, Debug)]
pub enum RawProjects {
    Mode(String),
    List(Vec<String>),
}

/// The configuration file as decoded: every key optional.
#[derive(Clone, Debug)]
pub struct RawConfig {
    pub columns: Vec<String>,
    pub projects: Option<RawProjects>,
}

/// The user's settings.
pub struct Settings {
    pub columns: Vec<Column>,
    pub projects: ProjectSource,
}

/// The columns named by a list of tokens, unknown tokens skipped, in order.
pub open spec fn columns_of(tokens: Seq<String>) -> Seq<ColumnView>
    decreases tokens.len(),
{
    if tokens.len() == 0 {
        Seq::empty()
    } else {
        let rest = columns_of(tokens.drop_last());
        match column_of(tokens.last()@) {
            Some(c) => rest.push(c),
            None => rest,
        }
    }
}

/// The views of a list of columns.
pub open spec fn column_views(cs: Seq<Column>) -> Seq<ColumnView> {
    cs.map_values(|c: Column| c@)
}

/// The columns shown when the configuration names none that is known.
pub open spec fn default_column_views() -> Seq<ColumnView> {
    seq![ColumnView::Name, ColumnView::DueDate, ColumnView::Assignee, ColumnView::Projects, ColumnView::Tags]
}

/// The project source a `projects` value selects: a non-empty list verbatim;
/// a mode string by its name, favorites when it names none; favorites when the
/// value is absent or an empty list.
pub open spec fn source_of(raw: Option<RawProjects>) -> ProjectSourceView {
    match raw {
        Some(RawProjects::List(names)) => if names@.len() > 0 {
            ProjectSourceView::Explicit(string_views(names@))
        } else {
            ProjectSourceView::Favorites
        },
        Some(RawProjects::Mode(mode)) => match project_mode_of(mode@) {
            Some(p) => p,
            None => ProjectSourceView::Favorites,
        },
        None => ProjectSourceView::Favorites,
    }
}

/// The columns configured by a list of tokens; unknown tokens are skipped.
pub fn parse_columns(tokens: &[String]) -> (r: Vec<Column>)
    ensures
        column_views(r@) == columns_of(tokens@),
{
    let mut r: Vec<Column> = Vec::new();
    let mut i: usize = 0;
    while i < tokens.len()
        invariant
            i <= tokens@.len(),
            column_views(r@) == columns_of(tokens@.take(i as int)),
        decreases tokens@.len() - i,
    {
        assert(tokens@.take(i + 1).drop_last() =~= tokens@.take(i as int));
        let ghost before = r@;
        match Column::parse(tokens[i].as_str()) {
            Some(c) => {
                r.push(c);
                assert(column_views(r@) =~= column_views(before).push(c@));
            },
            None => {},
        }
        i = i + 1;
    }
    assert(tokens@.take(tokens@.len() as int) =~= tokens@);
    r
}

/// Resolve the `projects` config value into a [`ProjectSource`].
pub fn project_source(raw: Option<&RawProjects>) -> (r: ProjectSource)
    ensures
        r@ == source_of(match raw { Some(p) => Some(*p), None => None }),
{
    match raw {
        Some(RawProjects::List(names)) => {
            if names.len() > 0 {
                ProjectSource::Explicit(clone_strings(names))
            } else {
                ProjectSource::Favorites
            }
        },
        Some(RawProjects::Mode(mode)) => match ProjectSource::parse(mode.as_str()) {
            Some(p) => p,
            None => ProjectSource::Favorites,
        },
        None => ProjectSource::Favorites,
    }
}

/// Name, Due Date, Assignee, Projects, Tags.
pub fn default_columns() -> (r: Vec<Column>)
    ensures
        column_views(r@) == default_column_views(),
{
    let r = vec![Column::Name, Column::DueDate, Column::Assignee, Column::Projects, Column::Tags];
    assert(column_views(r@) =~= default_column_views());
    r
}

impl Settings {
    /// The settings a decoded configuration gives (`None` when there is no
    /// readable configuration): its known columns, or the default columns when
    /// it names none; and its project source.
    pub fn load(raw: Option<RawConfig>) -> (s: Settings)
        ensures
            column_views(s.columns@) == (match raw {
                Some(r) => if columns_of(r.columns@).len() > 0 {
                    columns_of(r.columns@)
                } else {
                    default_column_views()
                },
                None => default_column_views(),
            }),
            s.projects@ == source_of(match raw {
                Some(r) => r.projects,
                None => None,
            }),
    {
        match raw {
            Some(r) => {
                let parsed = parse_columns(r.columns.as_slice());
                let columns = if parsed.len() > 0 {
                    parsed
                } else {
                    default_columns()
                };
                let projects = project_source(r.projects.as_ref());
                Settings { columns, projects }
            },
            None => Settings { columns: default_columns(), projects: ProjectSource::Favorites },
        }
    }
}

} // verus!
