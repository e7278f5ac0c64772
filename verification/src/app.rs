//! Application state and its decisions. The program around it runs the event
//! loop: it turns terminal input into an [`Input`], hands results of Asana calls
//! back as [`AsanaUpdate`]s, and performs the [`Action`] each step returns.

use vstd::prelude::*;

use crate::asana::{AsanaUpdate, Named, Project, Section, Task, TaskListKey};
use crate::text::{decimal, decimal_string, str_eq};
use crate::zones::{topmost, Nav, Zone, ZoneMap};

verus! {

broadcast use vstd::string::group_string_axioms;

/// Which front door the app was launched through.
#[derive(Clone, Debug)]
pub enum AppMode {
    /// The full three-pane view.
    Full,
    /// Only the detail pane for one task.
    TaskDetail(String),
}

/// A key, as far as the app tells keys apart.
#[derive(Clone, Copy, Debug, PartialEq, Eq, Structural)]
pub enum Key {
    Char(char),
    Esc,
    Down,
    Up,
    Other,
}

/// Terminal input, as far as the app tells it apart.
#[derive(Clone, Copy, Debug, PartialEq, Eq, Structural)]
pub enum Input {
    /// A key event; `press` is false for releases and repeats.
    Key { code: Key, ctrl: bool, press: bool },
    /// The left mouse button went down at a cell.
    LeftClick { column: u16, row: u16 },
    ScrollDown,
    ScrollUp,
    Other,
}

/// Outside work that a step asks the program to start. Each result comes back
/// as an [`AsanaUpdate`].
#[derive(Clone, Debug)]
pub enum Action {
    Nothing,
    /// Load identity, the first workspace, and its projects.
    Bootstrap,
    /// Load the user's My Tasks in a workspace.
    LoadMyTasks { workspace: String, user: String },
    /// Load a project's tasks.
    LoadProject(String),
    /// Load one task's detail.
    LoadDetail(String),
    /// Report an error back as an update.
    Fail(String),
}

/// What an [`Action`] asks for, with strings as characters.
pub enum ActionView {
    Nothing,
    Bootstrap,
    LoadMyTasks { workspace: Seq<char>, user: Seq<char> },
    LoadProject(Seq<char>),
    LoadDetail(Seq<char>),
    Fail(Seq<char>),
}

impl View for Action {
    type V = ActionView;

    open spec fn view(&self) -> ActionView {
        match self {
            Action::Nothing => ActionView::Nothing,
            Action::Bootstrap => ActionView::Bootstrap,
            Action::LoadMyTasks { workspace, user } => ActionView::LoadMyTasks { workspace: workspace@, user: user@ },
            Action::LoadProject(gid) => ActionView::LoadProject(gid@),
            Action::LoadDetail(gid) => ActionView::LoadDetail(gid@),
            Action::Fail(m) => ActionView::Fail(m@),
        }
    }
}

/// What a [`TaskListKey`] is, with the project gid as characters.
pub enum TaskListKeyView {
    MyTasks,
    Project(Seq<char>),
}

/// The view of a task-list key.
pub open spec fn key_view(k: TaskListKey) -> TaskListKeyView {
    match k {
        TaskListKey::MyTasks => TaskListKeyView::MyTasks,
        TaskListKey::Project(g) => TaskListKeyView::Project(g@),
    }
}

/// The title of a navigation entry.
pub open spec fn nav_title_of(nav: Nav, projects: Seq<Project>) -> Seq<char> {
    match nav {
        Nav::MyTasks => "My Tasks"@,
        Nav::Project(i) => if i < projects.len() { projects[i as int].name@ } else { "Project"@ },
    }
}

/// The task list a navigation entry shows; an out-of-range project has the
/// empty gid.
pub open spec fn key_of_nav(nav: Nav, projects: Seq<Project>) -> TaskListKeyView {
    match nav {
        Nav::MyTasks => TaskListKeyView::MyTasks,
        Nav::Project(i) => TaskListKeyView::Project(
            if i < projects.len() { projects[i as int].gid@ } else { Seq::empty() },
        ),
    }
}

/// The tasks of a list of sections, section by section.
pub open spec fn flatten_tasks(sections: Seq<Section>) -> Seq<Task>
    decreases sections.len(),
{
    if sections.len() == 0 {
        Seq::empty()
    } else {
        flatten_tasks(sections.drop_last()) + sections.last().tasks@
    }
}

/// The status line after a task list is shown.
pub open spec fn count_status(title: Seq<char>, n: nat) -> Seq<char> {
    title + " — "@ + decimal(n) + " task(s)."@
}

/// A task with only its gid, name and completion set.
pub open spec fn is_plain_task(t: Task, gid: Seq<char>, name: Seq<char>, completed: bool) -> bool {
    &&& t.gid@ == gid
    &&& t.name@ == name
    &&& t.completed == completed
    &&& t.due_on is None
    &&& t.assignee is None
    &&& t.assignee_section is None
    &&& t.memberships@.len() == 0
    &&& t.tags@.len() == 0
    &&& t.custom_fields@.len() == 0
    &&& t.notes@.len() == 0
    &&& t.permalink_url is None
}

/// The offline project names.
pub open spec fn demo_project_names() -> Seq<Seq<char>> {
    seq!["Ninjasana"@, "Website Redesign"@, "Q3 Roadmap"@]
}

/// The offline task list of a navigation entry: names and completion.
pub open spec fn demo_task_list(nav: Nav) -> Seq<(Seq<char>, bool)> {
    match nav {
        Nav::MyTasks => seq![
            ("Pick the language (Rust + Ratatui)"@, true),
            ("Create the private GitHub repo"@, true),
            ("Scaffold the mouse zone system"@, true),
            ("Wire up PAT login"@, false),
            ("Render real My Tasks from the API"@, false),
            ("Browser OAuth login"@, false),
        ],
        Nav::Project(0) => seq![
            ("Three-pane layout"@, false),
            ("Drag-to-reorder task rows"@, false),
            ("Right-click context menus"@, false),
        ],
        _ => seq![("Sample task A"@, false), ("Sample task B"@, true)],
    }
}

/// The gid prefix of offline tasks of a navigation entry.
pub open spec fn demo_prefix(nav: Nav, projects: Seq<Project>) -> Seq<char> {
    match nav {
        Nav::Project(i) => if i < projects.len() { projects[i as int].name@ } else { "Project"@ },
        Nav::MyTasks => "me"@,
    }
}

/// `ts` is the offline task list of `nav`.
pub open spec fn is_demo_tasks(ts: Seq<Task>, nav: Nav, projects: Seq<Project>) -> bool {
    let list = demo_task_list(nav);
    &&& ts.len() == list.len()
    &&& forall|i: int| 0 <= i < ts.len() ==> is_plain_task(
        #[trigger] ts[i],
        "demo-"@ + demo_prefix(nav, projects) + "-"@ + decimal(i as nat),
        list[i].0,
        list[i].1,
    )
}

/// The offline notes of a task's detail.
pub open spec fn demo_notes() -> Seq<char> {
    "This is demo detail. Connect a real account with `ninjasana login` to see live task notes, assignee, and due date."@
}

/// `d` is the offline detail of `t`.
pub open spec fn is_demo_detail(d: Task, t: Task) -> bool {
    &&& d.gid@ == t.gid@
    &&& d.name@ == t.name@
    &&& d.completed == t.completed
    &&& d.notes@ == demo_notes()
    &&& (d.assignee matches Some(a) && a.name@ == "You (demo)"@)
    &&& (d.due_on matches Some(due) && due@ == "2026-06-30"@)
    &&& d.permalink_url is None
    &&& d.assignee_section is None
    &&& d.memberships@.len() == 0
    &&& d.tags@.len() == 0
    &&& d.custom_fields@.len() == 0
}

/// The status shown in offline mode.
pub open spec fn demo_status() -> Seq<char> {
    "Demo mode — no token set. Run `ninjasana login`. Click around; q to quit."@
}

/// A task with only its gid, name and completion set.
fn plain_task(gid: String, name: String, completed: bool) -> (t: Task)
    ensures
        is_plain_task(t, gid@, name@, completed),
{
    Task {
        gid,
        name,
        completed,
        due_on: None,
        assignee: None,
        assignee_section: None,
        memberships: Vec::new(),
        tags: Vec::new(),
        custom_fields: Vec::new(),
        notes: String::new(),
        permalink_url: None,
    }
}

/// `a + b`.
fn concat2(a: &str, b: &str) -> (r: String)
    ensures
        r@ == a@ + b@,
{
    let mut r = String::from_str(a);
    r.append(b);
    r
}

/// `a + b + c`.
fn concat3(a: &str, b: &str, c: &str) -> (r: String)
    ensures
        r@ == a@ + b@ + c@,
{
    let mut r = concat2(a, b);
    r.append(c);
    r
}

/// The offline projects: Ninjasana, Website Redesign, Q3 Roadmap, with gids
/// `demo-0`, `demo-1`, `demo-2` and no members.
pub open spec fn is_demo_projects(ps: Seq<Project>) -> bool {
    &&& ps.len() == 3
    &&& forall|i: int| 0 <= i < 3 ==> {
        &&& (#[trigger] ps[i]).gid@ == "demo-"@ + decimal(i as nat)
        &&& ps[i].name@ == demo_project_names()[i]
        &&& ps[i].members@.len() == 0
    }
}

/// The offline projects.
pub fn demo_projects() -> (r: Vec<Project>)
    ensures
        is_demo_projects(r@),
{
    let names = ["Ninjasana", "Website Redesign", "Q3 Roadmap"];
    let mut r: Vec<Project> = Vec::new();
    let mut i: usize = 0;
    while i < 3
        invariant
            i <= 3,
            names@ == seq!["Ninjasana", "Website Redesign", "Q3 Roadmap"],
            r@.len() == i,
            forall|j: int| 0 <= j < i ==> {
                &&& (#[trigger] r@[j]).gid@ == "demo-"@ + decimal(j as nat)
                &&& r@[j].name@ == demo_project_names()[j]
                &&& r@[j].members@.len() == 0
            },
        decreases 3 - i,
    {
        let gid = concat2("demo-", decimal_string(i).as_str());
        r.push(Project { gid, name: String::from_str(names[i]), members: Vec::new() });
        i = i + 1;
    }
    r
}

/// The offline tasks of a navigation entry.
pub fn demo_tasks_for(nav: Nav, projects: &[Project]) -> (r: Vec<Task>)
    ensures
        is_demo_tasks(r@, nav, projects@),
{
    let names: Vec<(&str, bool)> = match nav {
        Nav::MyTasks => vec![
            ("Pick the language (Rust + Ratatui)", true),
            ("Create the private GitHub repo", true),
            ("Scaffold the mouse zone system", true),
            ("Wire up PAT login", false),
            ("Render real My Tasks from the API", false),
            ("Browser OAuth login", false),
        ],
        Nav::Project(0) => vec![
            ("Three-pane layout", false),
            ("Drag-to-reorder task rows", false),
            ("Right-click context menus", false),
        ],
        _ => vec![("Sample task A", false), ("Sample task B", true)],
    };
    let ghost list = demo_task_list(nav);
    assert(names@.len() == list.len());
    assert(forall|i: int| 0 <= i < list.len() ==> #[trigger] names@[i].0@ == list[i].0 && names@[i].1 == list[i].1);
    let prefix: String = match nav {
        Nav::Project(i) => if i < projects.len() {
            projects[i].name.clone()
        } else {
            String::from_str("Project")
        },
        Nav::MyTasks => String::from_str("me"),
    };
    let mut r: Vec<Task> = Vec::new();
    let mut i: usize = 0;
    while i < names.len()
        invariant
            i <= names@.len() == list.len(),
            prefix@ == demo_prefix(nav, projects@),
            forall|k: int| 0 <= k < list.len() ==> #[trigger] names@[k].0@ == list[k].0 && names@[k].1 == list[k].1,
            r@.len() == i,
            forall|j: int| 0 <= j < i ==> is_plain_task(
                #[trigger] r@[j],
                "demo-"@ + demo_prefix(nav, projects@) + "-"@ + decimal(j as nat),
                list[j].0,
                list[j].1,
            ),
        decreases names@.len() - i,
    {
        let mut gid = concat3("demo-", prefix.as_str(), "-");
        gid.append(decimal_string(i).as_str());
        let (name, completed) = names[i];
        r.push(plain_task(gid, String::from_str(name), completed));
        i = i + 1;
    }
    r
}

/// The offline detail of a task.
pub fn demo_detail(task: &Task) -> (d: Task)
    ensures
        is_demo_detail(d, *task),
{
    Task {
        gid: task.gid.clone(),
        name: task.name.clone(),
        completed: task.completed,
        due_on: Some(String::from_str("2026-06-30")),
        assignee: Some(Named { name: String::from_str("You (demo)") }),
        assignee_section: None,
        memberships: Vec::new(),
        tags: Vec::new(),
        custom_fields: Vec::new(),
        notes: String::from_str(
            "This is demo detail. Connect a real account with `ninjasana login` to see live task notes, assignee, and due date.",
        ),
        permalink_url: None,
    }
}


/// The application state.
pub struct App {
    pub mode: AppMode,
    pub running: bool,
    /// Whether an Asana client is at hand; without one the app shows demo data.
    pub online: bool,
    /// Identity / workspace, learned at bootstrap.
    pub workspace: Option<String>,
    pub user_gid: Option<String>,
    pub user_name: Option<String>,
    /// Left pane.
    pub projects: Vec<Project>,
    pub nav: Nav,
    /// Middle pane.
    pub tasks: Vec<Task>,
    pub task_scroll: usize,
    pub selected_task: Option<usize>,
    /// Right pane.
    pub detail: Option<Task>,
    pub detail_loading: bool,
    pub status: String,
    pub zones: ZoneMap,
}

/// `b` equals `a` in identity, projects, mode, connectivity and zones.
pub open spec fn same_frame(a: App, b: App) -> bool {
    &&& b.mode == a.mode
    &&& b.online == a.online
    &&& b.workspace == a.workspace
    &&& b.user_gid == a.user_gid
    &&& b.user_name == a.user_name
    &&& b.projects == a.projects
    &&& b.zones == a.zones
}

/// `b` equals `a` in everything the task list and the detail pane show.
pub open spec fn same_view(a: App, b: App) -> bool {
    &&& b.running == a.running
    &&& b.nav == a.nav
    &&& b.tasks == a.tasks
    &&& b.task_scroll == a.task_scroll
    &&& b.selected_task == a.selected_task
    &&& b.detail == a.detail
    &&& b.detail_loading == a.detail_loading
    &&& b.status == a.status
}

/// The load that shows the task list of `nav` when online: My Tasks once
/// workspace and user are known (an error report otherwise); a project's tasks
/// when the entry names a project; nothing when offline or out of range.
pub open spec fn load_for(a: App, nav: Nav) -> ActionView {
    if !a.online {
        ActionView::Nothing
    } else {
        match nav {
            Nav::MyTasks => match (a.workspace, a.user_gid) {
                (Some(w), Some(u)) => ActionView::LoadMyTasks { workspace: w@, user: u@ },
                _ => ActionView::Fail("workspace/user not ready"@),
            },
            Nav::Project(i) => if i < a.projects@.len() {
                ActionView::LoadProject(a.projects@[i as int].gid@)
            } else {
                ActionView::Nothing
            },
        }
    }
}

/// Where selecting `index` would move the selection by `delta` from `sel` in a
/// list of `n > 0` tasks: one step clamped to the list, or the first task when
/// nothing is selected.
pub open spec fn delta_target(sel: Option<usize>, delta: int, n: nat) -> int {
    match sel {
        Some(i) => {
            let t = i + delta;
            if t < 0 { 0 } else if t > n - 1 { n - 1 } else { t }
        },
        None => 0,
    }
}

/// `b` is `a` unchanged.
pub open spec fn unchanged(a: App, b: App) -> bool {
    same_frame(a, b) && same_view(a, b)
}

/// `b` is `a` after quitting.
pub open spec fn quit_effect(a: App, b: App) -> bool {
    &&& same_frame(a, b)
    &&& !b.running
    &&& b.nav == a.nav
    &&& b.tasks == a.tasks
    &&& b.task_scroll == a.task_scroll
    &&& b.selected_task == a.selected_task
    &&& b.detail == a.detail
    &&& b.detail_loading == a.detail_loading
    &&& b.status == a.status
}

/// `b` is `a` after navigating to `nav`, asking for `act`: the selection and
/// detail are dropped; online, the list empties, the status says it is
/// loading, and the list's load is asked for; offline, the list is the
/// offline list of `nav` and the status counts it.
pub open spec fn nav_effect(a: App, b: App, nav: Nav, act: ActionView) -> bool {
    &&& same_frame(a, b)
    &&& b.running == a.running
    &&& b.task_scroll == a.task_scroll
    &&& b.detail_loading == a.detail_loading
    &&& b.nav == nav
    &&& b.selected_task is None
    &&& b.detail is None
    &&& if a.online {
        &&& b.tasks@.len() == 0
        &&& b.status@ == "Loading "@ + nav_title_of(nav, a.projects@) + "…"@
        &&& act == load_for(a, nav)
    } else {
        &&& is_demo_tasks(b.tasks@, nav, a.projects@)
        &&& b.status@ == count_status(nav_title_of(nav, a.projects@), b.tasks@.len())
        &&& act == ActionView::Nothing
    }
}

/// `b` is `a` after selecting task `index`, asking for `act`: nothing happens
/// when `index` is out of range; otherwise the task is selected and named in
/// the status, and online its detail is loaded, offline its offline detail is
/// shown.
pub open spec fn select_effect(a: App, b: App, index: int, act: ActionView) -> bool {
    if index < 0 || index >= a.tasks@.len() {
        unchanged(a, b) && act == ActionView::Nothing
    } else {
        let t = a.tasks@[index];
        &&& same_frame(a, b)
        &&& b.running == a.running
        &&& b.nav == a.nav
        &&& b.tasks == a.tasks
        &&& b.task_scroll == a.task_scroll
        &&& b.selected_task == Some(index as usize)
        &&& b.status@ == "Selected: "@ + t.name@
        &&& if a.online {
            &&& b.detail is None
            &&& b.detail_loading
            &&& act == ActionView::LoadDetail(t.gid@)
        } else {
            &&& (b.detail matches Some(d) && is_demo_detail(d, t))
            &&& b.detail_loading == a.detail_loading
            &&& act == ActionView::Nothing
        }
    }
}

/// `b` is `a` after moving the selection by `delta`.
pub open spec fn delta_effect(a: App, b: App, delta: int, act: ActionView) -> bool {
    if a.tasks@.len() == 0 {
        unchanged(a, b) && act == ActionView::Nothing
    } else {
        select_effect(a, b, delta_target(a.selected_task, delta, a.tasks@.len()), act)
    }
}

/// `b` is `a` after clicking the zone `zone`.
pub open spec fn zone_effect(a: App, b: App, zone: Zone, act: ActionView) -> bool {
    match zone {
        Zone::Nav(nav) => nav_effect(a, b, nav, act),
        Zone::TaskRow(i) => select_effect(a, b, i as int, act),
        Zone::Quit => quit_effect(a, b) && act == ActionView::Nothing,
    }
}

/// `b` is `a` with only the scroll offset set to `scroll`.
pub open spec fn scroll_effect(a: App, b: App, scroll: int) -> bool {
    &&& same_frame(a, b)
    &&& b.running == a.running
    &&& b.nav == a.nav
    &&& b.tasks == a.tasks
    &&& b.task_scroll == scroll
    &&& b.selected_task == a.selected_task
    &&& b.detail == a.detail
    &&& b.detail_loading == a.detail_loading
    &&& b.status == a.status
}

/// `b` is `a` after the input `input`, asking for `act`. Key presses: `q`,
/// Esc and Ctrl-C quit; Down/`j` and Up/`k` move the selection. A left click
/// activates the topmost zone under the cursor. The wheel scrolls the task
/// list by one row, not below zero. Everything else is ignored.
pub open spec fn input_effect(a: App, b: App, input: Input, act: ActionView) -> bool {
    match input {
        Input::Key { code, ctrl, press } => if !press {
            unchanged(a, b) && act == ActionView::Nothing
        } else {
            match code {
                Key::Char(c) => if c == 'q' || (c == 'c' && ctrl) {
                    quit_effect(a, b) && act == ActionView::Nothing
                } else if c == 'j' {
                    delta_effect(a, b, 1, act)
                } else if c == 'k' {
                    delta_effect(a, b, -1, act)
                } else {
                    unchanged(a, b) && act == ActionView::Nothing
                },
                Key::Esc => quit_effect(a, b) && act == ActionView::Nothing,
                Key::Down => delta_effect(a, b, 1, act),
                Key::Up => delta_effect(a, b, -1, act),
                Key::Other => unchanged(a, b) && act == ActionView::Nothing,
            }
        },
        Input::LeftClick { column, row } => match topmost(a.zones@, column, row) {
            Some(zone) => zone_effect(a, b, zone, act),
            None => unchanged(a, b) && act == ActionView::Nothing,
        },
        Input::ScrollDown => scroll_effect(a, b, if a.task_scroll == usize::MAX { usize::MAX as int } else { a.task_scroll + 1 })
            && act == ActionView::Nothing,
        Input::ScrollUp => scroll_effect(a, b, if a.task_scroll == 0 { 0 } else { a.task_scroll - 1 })
            && act == ActionView::Nothing,
        Input::Other => unchanged(a, b) && act == ActionView::Nothing,
    }
}

/// `b` is `a` after the Asana result `u`, asking for `act`. Bootstrap records
/// identity, workspace and projects, says so in the status, and loads the
/// current list. A task list replaces the shown one (flattened, scroll and
/// selection reset, detail dropped, status counting it) when it is for the
/// list currently shown, and is ignored otherwise. A detail ends loading and
/// is shown. An error ends loading and is shown in the status. Other results
/// are not shown by this view.
pub open spec fn update_effect(a: App, b: App, u: AsanaUpdate, act: ActionView) -> bool {
    match u {
        AsanaUpdate::Bootstrap { user, workspace, projects } => {
            &&& b.mode == a.mode
            &&& b.online == a.online
            &&& b.zones == a.zones
            &&& b.user_name == Some(user.name)
            &&& b.user_gid == Some(user.gid)
            &&& b.workspace == Some(workspace.gid)
            &&& b.projects == projects
            &&& b.status@ == "Connected as "@ + user.name@ + " ("@ + workspace.name@ + ")."@
            &&& b.running == a.running
            &&& b.nav == a.nav
            &&& b.tasks == a.tasks
            &&& b.task_scroll == a.task_scroll
            &&& b.selected_task == a.selected_task
            &&& b.detail == a.detail
            &&& b.detail_loading == a.detail_loading
            &&& act == load_for(b, a.nav)
        },
        AsanaUpdate::Tasks { key, sections } => {
            &&& act == ActionView::Nothing
            &&& if key_view(key) == key_of_nav(a.nav, a.projects@) {
                &&& same_frame(a, b)
                &&& b.running == a.running
                &&& b.nav == a.nav
                &&& b.tasks@ == flatten_tasks(sections@)
                &&& b.task_scroll == 0
                &&& b.selected_task is None
                &&& b.detail is None
                &&& b.detail_loading == a.detail_loading
                &&& b.status@ == count_status(nav_title_of(a.nav, a.projects@), b.tasks@.len())
            } else {
                unchanged(a, b)
            }
        },
        AsanaUpdate::Detail(d) => {
            &&& act == ActionView::Nothing
            &&& same_frame(a, b)
            &&& b.running == a.running
            &&& b.nav == a.nav
            &&& b.tasks == a.tasks
            &&& b.task_scroll == a.task_scroll
            &&& b.selected_task == a.selected_task
            &&& b.detail == Some(d)
            &&& !b.detail_loading
            &&& b.status == a.status
        },
        AsanaUpdate::Error(m) => {
            &&& act == ActionView::Nothing
            &&& same_frame(a, b)
            &&& b.running == a.running
            &&& b.nav == a.nav
            &&& b.tasks == a.tasks
            &&& b.task_scroll == a.task_scroll
            &&& b.selected_task == a.selected_task
            &&& b.detail == a.detail
            &&& !b.detail_loading
            &&& b.status@ == "Asana error: "@ + m@
        },
        _ => unchanged(a, b) && act == ActionView::Nothing,
    }
}

/// Whether two task-list keys name the same list.
pub fn keys_match(a: &TaskListKey, b: &TaskListKey) -> (r: bool)
    ensures
        r == (key_view(*a) == key_view(*b)),
{
    match (a, b) {
        (TaskListKey::MyTasks, TaskListKey::MyTasks) => true,
        (TaskListKey::Project(x), TaskListKey::Project(y)) => str_eq(x.as_str(), y.as_str()),
        _ => false,
    }
}

/// The tasks of `sections`, section by section.
pub fn flatten_sections(sections: Vec<Section>) -> (r: Vec<Task>)
    ensures
        r@ == flatten_tasks(sections@),
{
    let ghost ss = sections@;
    let total = sections.len();
    let mut r: Vec<Task> = Vec::new();
    let mut n: usize = 0;
    for section in it: sections
        invariant
            ss == it.seq(),
            ss.len() == total,
            n == it.index(),
            n <= ss.len(),
            r@ == flatten_tasks(ss.take(n as int)),
    {
        assert(n < ss.len());
        assert(ss.take(n + 1).drop_last() =~= ss.take(n as int));
        assert(ss.take(n + 1).last() == section);
        let mut tasks = section.tasks;
        r.append(&mut tasks);
        n = n + 1;
    }
    assert(ss.take(ss.len() as int) =~= ss);
    r
}

impl App {
    /// A new app. Without a client it starts in demo mode: the offline
    /// projects, the offline My Tasks list and the demo status.
    pub fn new(mode: AppMode, online: bool) -> (a: App)
        ensures
            a.mode == mode,
            a.running,
            a.online == online,
            a.workspace is None && a.user_gid is None && a.user_name is None,
            a.nav == Nav::MyTasks,
            a.task_scroll == 0,
            a.selected_task is None,
            a.detail is None,
            !a.detail_loading,
            a.zones@.len() == 0,
            online ==> a.projects@.len() == 0 && a.tasks@.len() == 0 && a.status@.len() == 0,
            !online ==> is_demo_projects(a.projects@) && is_demo_tasks(a.tasks@, Nav::MyTasks, a.projects@)
                && a.status@ == demo_status(),
    {
        let mut app = App {
            mode,
            running: true,
            online,
            workspace: None,
            user_gid: None,
            user_name: None,
            projects: Vec::new(),
            nav: Nav::MyTasks,
            tasks: Vec::new(),
            task_scroll: 0,
            selected_task: None,
            detail: None,
            detail_loading: false,
            status: String::new(),
            zones: ZoneMap::new(),
        };
        if !online {
            app.load_demo();
        }
        app
    }

    fn load_demo(&mut self)
        ensures
            is_demo_projects(final(self).projects@),
            is_demo_tasks(final(self).tasks@, Nav::MyTasks, final(self).projects@),
            final(self).status@ == demo_status(),
            final(self).mode == old(self).mode,
            final(self).running == old(self).running,
            final(self).online == old(self).online,
            final(self).workspace == old(self).workspace,
            final(self).user_gid == old(self).user_gid,
            final(self).user_name == old(self).user_name,
            final(self).nav == old(self).nav,
            final(self).task_scroll == old(self).task_scroll,
            final(self).selected_task == old(self).selected_task,
            final(self).detail == old(self).detail,
            final(self).detail_loading == old(self).detail_loading,
            final(self).zones == old(self).zones,
    {
        self.projects = demo_projects();
        self.tasks = demo_tasks_for(Nav::MyTasks, self.projects.as_slice());
        self.status = String::from_str("Demo mode — no token set. Run `ninjasana login`. Click around; q to quit.");
    }

    /// The title of the current navigation entry.
    pub fn nav_title(&self) -> (r: String)
        ensures
            r@ == nav_title_of(self.nav, self.projects@),
    {
        match self.nav {
            Nav::MyTasks => String::from_str("My Tasks"),
            Nav::Project(i) => if i < self.projects.len() {
                self.projects[i].name.clone()
            } else {
                String::from_str("Project")
            },
        }
    }

    /// The task list the current navigation entry shows.
    pub fn current_key(&self) -> (k: TaskListKey)
        ensures
            key_view(k) == key_of_nav(self.nav, self.projects@),
    {
        match self.nav {
            Nav::MyTasks => TaskListKey::MyTasks,
            Nav::Project(i) => TaskListKey::Project(
                if i < self.projects.len() {
                    self.projects[i].gid.clone()
                } else {
                    String::new()
                },
            ),
        }
    }

    /// The load that shows the task list of `nav`.
    fn load_tasks_for(&self, nav: Nav) -> (a: Action)
        ensures
            a@ == load_for(*self, nav),
    {
        if !self.online {
            return Action::Nothing;
        }
        match nav {
            Nav::MyTasks => match (&self.workspace, &self.user_gid) {
                (Some(w), Some(u)) => Action::LoadMyTasks { workspace: w.clone(), user: u.clone() },
                _ => Action::Fail(String::from_str("workspace/user not ready")),
            },
            Nav::Project(i) => if i < self.projects.len() {
                Action::LoadProject(self.projects[i].gid.clone())
            } else {
                Action::Nothing
            },
        }
    }

    /// The status line for the current task list.
    fn count_status(&self) -> (r: String)
        ensures
            r@ == count_status(nav_title_of(self.nav, self.projects@), self.tasks@.len()),
    {
        let mut r = self.nav_title();
        r.append(" — ");
        r.append(decimal_string(self.tasks.len()).as_str());
        r.append(" task(s).");
        r
    }
}

impl App {
    // ---- selection -----------------------------------------------------

    /// Navigate to `nav`.
    pub fn select_nav(&mut self, nav: Nav) -> (act: Action)
        ensures
            nav_effect(*old(self), *final(self), nav, act@),
    {
        self.nav = nav;
        self.selected_task = None;
        self.detail = None;
        self.tasks.clear();
        if self.online {
            let mut status = String::from_str("Loading ");
            status.append(self.nav_title().as_str());
            status.append("…");
            self.status = status;
            self.load_tasks_for(nav)
        } else {
            self.tasks = demo_tasks_for(nav, self.projects.as_slice());
            self.status = self.count_status();
            Action::Nothing
        }
    }

    /// Select task `index` of the list.
    pub fn select_task(&mut self, index: usize) -> (act: Action)
        ensures
            select_effect(*old(self), *final(self), index as int, act@),
    {
        if index >= self.tasks.len() {
            return Action::Nothing;
        }
        self.selected_task = Some(index);
        let mut status = String::from_str("Selected: ");
        status.append(self.tasks[index].name.as_str());
        self.status = status;
        if self.online {
            self.detail = None;
            self.detail_loading = true;
            Action::LoadDetail(self.tasks[index].gid.clone())
        } else {
            self.detail = Some(demo_detail(&self.tasks[index]));
            Action::Nothing
        }
    }

    /// Move the selection by `delta` rows, clamped to the list; with nothing
    /// selected, select the first task.
    pub fn select_task_delta(&mut self, delta: isize) -> (act: Action)
        ensures
            delta_effect(*old(self), *final(self), delta as int, act@),
    {
        if self.tasks.len() == 0 {
            return Action::Nothing;
        }
        let last = self.tasks.len() - 1;
        let next: usize = match self.selected_task {
            Some(i) => {
                let t = (i as i128) + (delta as i128);
                if t < 0 {
                    0
                } else if t > last as i128 {
                    last
                } else {
                    t as usize
                }
            },
            None => 0,
        };
        self.select_task(next)
    }

    /// Act on a clicked zone.
    pub fn activate(&mut self, zone: Zone) -> (act: Action)
        ensures
            zone_effect(*old(self), *final(self), zone, act@),
    {
        match zone {
            Zone::Nav(nav) => self.select_nav(nav),
            Zone::TaskRow(index) => self.select_task(index),
            Zone::Quit => {
                self.running = false;
                Action::Nothing
            },
        }
    }

    // ---- event handling ------------------------------------------------

    /// React to terminal input.
    pub fn handle_input(&mut self, input: Input) -> (act: Action)
        ensures
            input_effect(*old(self), *final(self), input, act@),
    {
        match input {
            Input::Key { code, ctrl, press } => {
                if !press {
                    return Action::Nothing;
                }
                match code {
                    Key::Char(c) => {
                        if c == 'q' || (c == 'c' && ctrl) {
                            self.running = false;
                            Action::Nothing
                        } else if c == 'j' {
                            self.select_task_delta(1)
                        } else if c == 'k' {
                            self.select_task_delta(-1)
                        } else {
                            Action::Nothing
                        }
                    },
                    Key::Esc => {
                        self.running = false;
                        Action::Nothing
                    },
                    Key::Down => self.select_task_delta(1),
                    Key::Up => self.select_task_delta(-1),
                    Key::Other => Action::Nothing,
                }
            },
            Input::LeftClick { column, row } => match self.zones.hit(column, row) {
                Some(zone) => self.activate(zone),
                None => Action::Nothing,
            },
            Input::ScrollDown => {
                self.task_scroll = self.task_scroll.saturating_add(1);
                Action::Nothing
            },
            Input::ScrollUp => {
                self.task_scroll = self.task_scroll.saturating_sub(1);
                Action::Nothing
            },
            Input::Other => Action::Nothing,
        }
    }

    /// React to the result of an Asana call.
    pub fn handle_asana(&mut self, update: AsanaUpdate) -> (act: Action)
        ensures
            update_effect(*old(self), *final(self), update, act@),
    {
        match update {
            AsanaUpdate::Bootstrap { user, workspace, projects } => {
                let mut status = String::from_str("Connected as ");
                status.append(user.name.as_str());
                status.append(" (");
                status.append(workspace.name.as_str());
                status.append(").");
                self.status = status;
                self.user_name = Some(user.name);
                self.user_gid = Some(user.gid);
                self.workspace = Some(workspace.gid);
                self.projects = projects;
                let nav = self.nav;
                self.load_tasks_for(nav)
            },
            AsanaUpdate::Tasks { key, sections } => {
                // Ignore responses for a list the user has since navigated away from.
                let current = self.current_key();
                if keys_match(&current, &key) {
                    self.tasks = flatten_sections(sections);
                    self.task_scroll = 0;
                    self.selected_task = None;
                    self.detail = None;
                    self.status = self.count_status();
                }
                Action::Nothing
            },
            AsanaUpdate::Detail(detail) => {
                self.detail_loading = false;
                self.detail = Some(detail);
                Action::Nothing
            },
            AsanaUpdate::Error(message) => {
                self.detail_loading = false;
                let mut status = String::from_str("Asana error: ");
                status.append(message.as_str());
                self.status = status;
                Action::Nothing
            },
            _ => Action::Nothing,
        }
    }

    /// The first step of the event loop: in the full view, connect (when a
    /// client is at hand); in the task view, load the task (or say that there
    /// are no credentials).
    pub fn start(&mut self) -> (act: Action)
        ensures
            same_frame(*old(self), *final(self)),
            final(self).running == old(self).running,
            final(self).nav == old(self).nav,
            final(self).tasks == old(self).tasks,
            final(self).task_scroll == old(self).task_scroll,
            final(self).selected_task == old(self).selected_task,
            final(self).detail == old(self).detail,
            match old(self).mode {
                AppMode::Full => if old(self).online {
                    &&& final(self).status@ == "Connecting to Asana…"@
                    &&& final(self).detail_loading == old(self).detail_loading
                    &&& act@ == ActionView::Bootstrap
                } else {
                    &&& final(self).status == old(self).status
                    &&& final(self).detail_loading == old(self).detail_loading
                    &&& act@ == ActionView::Nothing
                },
                AppMode::TaskDetail(gid) => if old(self).online {
                    &&& final(self).status@ == "Loading task "@ + gid@ + "…"@
                    &&& final(self).detail_loading
                    &&& act@ == ActionView::LoadDetail(gid@)
                } else {
                    &&& final(self).status@ == "No Asana credentials — run `ninjasana login` first. Press q to quit."@
                    &&& final(self).detail_loading == old(self).detail_loading
                    &&& act@ == ActionView::Nothing
                },
            },
    {
        match &self.mode {
            AppMode::Full => {
                if self.online {
                    self.status = String::from_str("Connecting to Asana…");
                    Action::Bootstrap
                } else {
                    Action::Nothing
                }
            },
            AppMode::TaskDetail(gid) => {
                let gid = gid.clone();
                if self.online {
                    self.status = concat3("Loading task ", gid.as_str(), "…");
                    self.detail_loading = true;
                    Action::LoadDetail(gid)
                } else {
                    self.status = String::from_str(
                        "No Asana credentials — run `ninjasana login` first. Press q to quit.",
                    );
                    Action::Nothing
                }
            },
        }
    }
}

} // verus!
