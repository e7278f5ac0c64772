//! The Asana data model and the pure parts of talking to the REST API.
//!
//! Every Asana response wraps its payload in a top-level `{ "data": ... }`
//! envelope; decoding those is done where the bytes arrive. What stands here
//! is what the client computes on the decoded values: task accessors, the
//! grouping of My Tasks into sections, the member filter, and the request URLs.

use vstd::prelude::*;

use crate::text::{
    chars_eq, chars_of, copy_range, joined, lower_chars, lower_seq, opt_view, str_eq, string_of, string_views,
    trim_chars, trimmed,
};

verus! {

broadcast use vstd::string::group_string_axioms;

/// Identifies which task list a set of sections belongs to, so the UI can
/// ignore responses that arrive after the user has navigated elsewhere.
#[derive(Debug, Clone)]
pub enum TaskListKey {
    MyTasks,
    Project(String),
}

/// A result handed back to the UI from an Asana call.
#[derive(Debug, Clone)]
pub enum AsanaUpdate {
    /// Initial load: identity, workspace, and the project list.
    Bootstrap { user: User, workspace: Workspace, projects: Vec<Project> },
    /// Section-grouped tasks for a given list.
    Tasks { key: TaskListKey, sections: Vec<Section> },
    /// Full detail for a single task.
    Detail(Task),
    /// Comments / activity stories for a task.
    Stories { gid: String, stories: Vec<Story> },
    /// Subtasks of a task.
    Subtasks { gid: String, subtasks: Vec<Task> },
    /// Workspace users (for assignee / people pickers).
    Users(Vec<User>),
    /// Something went wrong; carries a human-readable message.
    Error(String),
}

#[derive(Debug, Clone)]
pub struct User {
    pub gid: String,
    pub name: String,
}

#[derive(Debug, Clone)]
pub struct Workspace {
    pub gid: String,
    pub name: String,
}

/// A compact `{ "name": ... }` reference (assignee, project, …).
#[derive(Debug, Clone)]
pub struct Named {
    pub name: String,
}

/// A compact `{ "gid": ... }` reference (e.g. a project member).
#[derive(Debug, Clone)]
pub struct Ref {
    pub gid: String,
}

#[derive(Debug, Clone)]
pub struct Project {
    pub gid: String,
    pub name: String,
    pub members: Vec<Ref>,
}

/// A section reference, with its position-defining gid.
#[derive(Debug, Clone)]
pub struct SectionRef {
    pub gid: String,
    pub name: String,
}

/// A task's membership in a project.
#[derive(Debug, Clone)]
pub struct Membership {
    pub project: Option<Named>,
}

/// One selectable option of an enum custom field.
#[derive(Debug, Clone)]
pub struct EnumOption {
    pub gid: String,
    pub name: String,
}

/// A custom field on a task. `display_value` is Asana's rendered value for any
/// field type (enum, text, number, …), so it can be shown without type logic.
#[derive(Debug, Clone)]
pub struct CustomField {
    pub gid: String,
    pub name: String,
    pub display_value: Option<String>,
    pub resource_subtype: String,
    pub enum_options: Vec<EnumOption>,
    /// The currently selected option (enum fields).
    pub enum_value: Option<EnumOption>,
    /// The currently selected options (multi_enum fields).
    pub multi_enum_values: Vec<EnumOption>,
    /// The current value (date fields).
    pub date_value: Option<DateValue>,
}

/// A date custom field value (date-only or with a time).
#[derive(Debug, Clone)]
pub struct DateValue {
    pub date: Option<String>,
}

#[derive(Debug, Clone)]
pub struct Task {
    pub gid: String,
    pub name: String,
    pub completed: bool,
    pub due_on: Option<String>,
    pub assignee: Option<Named>,
    /// Present on My Tasks results: the section within the user's task list.
    pub assignee_section: Option<SectionRef>,
    pub memberships: Vec<Membership>,
    pub tags: Vec<Named>,
    pub custom_fields: Vec<CustomField>,
    pub notes: String,
    pub permalink_url: Option<String>,
}

/// A named group of tasks, in display order. `gid` is the section's id when one
/// exists; it is `None` for the synthetic "(No section)" bucket.
#[derive(Debug, Clone)]
pub struct Section {
    pub gid: Option<String>,
    pub name: String,
    pub tasks: Vec<Task>,
}

/// A story is a comment or activity event on a task.
#[derive(Debug, Clone)]
pub struct Story {
    /// `"comment"` or `"system"`.
    pub kind: String,
    pub text: String,
    pub created_at: String,
    pub created_by: Option<Named>,
}

/// Name of the bucket for tasks that have no section.
pub const NO_SECTION: &'static str = "(No section)";

impl CustomField {
    pub fn is_enum(&self) -> (b: bool)
        ensures
            b == (self.resource_subtype@ == "enum"@),
    {
        str_eq(self.resource_subtype.as_str(), "enum")
    }

    pub fn is_multi_enum(&self) -> (b: bool)
        ensures
            b == (self.resource_subtype@ == "multi_enum"@),
    {
        str_eq(self.resource_subtype.as_str(), "multi_enum")
    }

    pub fn is_text(&self) -> (b: bool)
        ensures
            b == (self.resource_subtype@ == "text"@),
    {
        str_eq(self.resource_subtype.as_str(), "text")
    }

    pub fn is_number(&self) -> (b: bool)
        ensures
            b == (self.resource_subtype@ == "number"@),
    {
        str_eq(self.resource_subtype.as_str(), "number")
    }

    pub fn is_date(&self) -> (b: bool)
        ensures
            b == (self.resource_subtype@ == "date"@),
    {
        str_eq(self.resource_subtype.as_str(), "date")
    }

    pub fn is_people(&self) -> (b: bool)
        ensures
            b == (self.resource_subtype@ == "people"@),
    {
        str_eq(self.resource_subtype.as_str(), "people")
    }
}

impl Story {
    pub fn is_comment(&self) -> (b: bool)
        ensures
            b == (self.kind@ == "comment"@),
    {
        str_eq(self.kind.as_str(), "comment")
    }
}

/// Non-empty project names of a list of memberships, in order.
pub open spec fn project_names_of(ms: Seq<Membership>) -> Seq<Seq<char>>
    decreases ms.len(),
{
    if ms.len() == 0 {
        Seq::empty()
    } else {
        let rest = project_names_of(ms.drop_last());
        match ms.last().project {
            Some(p) => if p.name@.len() > 0 { rest.push(p.name@) } else { rest },
            None => rest,
        }
    }
}

/// Non-empty names of a list of tags, in order.
pub open spec fn tag_names_of(tags: Seq<Named>) -> Seq<Seq<char>>
    decreases tags.len(),
{
    if tags.len() == 0 {
        Seq::empty()
    } else {
        let rest = tag_names_of(tags.drop_last());
        if tags.last().name@.len() > 0 {
            rest.push(tags.last().name@)
        } else {
            rest
        }
    }
}

/// Whether a configured field name refers to an Asana field name: equal after
/// trimming whitespace, ignoring ASCII case.
pub open spec fn names_match(asana_name: Seq<char>, configured: Seq<char>) -> bool {
    lower_seq(trimmed(asana_name)) == lower_seq(trimmed(configured))
}

/// Index of the first custom field whose name matches `name`, or `fields.len()`.
pub open spec fn matching_field(fields: Seq<CustomField>, name: Seq<char>) -> int
    decreases fields.len(),
{
    if fields.len() == 0 {
        0
    } else if names_match(fields[0].name@, name) {
        0
    } else {
        1 + matching_field(fields.drop_first(), name)
    }
}

/// The shown value of the custom field named `name`: the display value of the
/// first field whose name matches, when that value is set and non-empty.
pub open spec fn custom_field_value(fields: Seq<CustomField>, name: Seq<char>) -> Option<Seq<char>> {
    let i = matching_field(fields, name);
    if i < fields.len() {
        match fields[i].display_value {
            Some(v) => if v@.len() > 0 { Some(v@) } else { None },
            None => None,
        }
    } else {
        None
    }
}

proof fn lemma_matching_field(fields: Seq<CustomField>, name: Seq<char>, k: int)
    requires
        0 <= k <= fields.len(),
        forall|i: int| 0 <= i < k ==> !names_match(#[trigger] fields[i].name@, name),
        k == fields.len() || names_match(fields[k].name@, name),
    ensures
        matching_field(fields, name) == k,
    decreases k,
{
    if k > 0 {
        let t = fields.drop_first();
        assert forall|i: int| 0 <= i < k - 1 implies !names_match(#[trigger] t[i].name@, name) by {
            assert(t[i] == fields[i + 1]);
        }
        lemma_matching_field(t, name, k - 1);
    }
}

impl Task {
    /// The project names from the task's memberships, empty ones left out.
    pub fn project_names(&self) -> (r: Vec<String>)
        ensures
            string_views(r@) == project_names_of(self.memberships@),
    {
        let mut r: Vec<String> = Vec::new();
        let mut i: usize = 0;
        let ghost ms = self.memberships@;
        while i < self.memberships.len()
            invariant
                i <= ms.len(),
                ms == self.memberships@,
                string_views(r@) == project_names_of(ms.take(i as int)),
            decreases ms.len() - i,
        {
            assert(ms.take(i + 1).drop_last() =~= ms.take(i as int));
            let ghost before = r@;
            match &self.memberships[i].project {
                Some(p) => {
                    if !p.name.as_str().is_empty() {
                        r.push(p.name.clone());
                        assert(string_views(r@) =~= string_views(before).push(p.name@));
                    }
                }
                None => {}
            }
            i = i + 1;
        }
        assert(ms.take(ms.len() as int) =~= ms);
        r
    }

    /// The task's tag names, empty ones left out.
    pub fn tag_names(&self) -> (r: Vec<String>)
        ensures
            string_views(r@) == tag_names_of(self.tags@),
    {
        let mut r: Vec<String> = Vec::new();
        let mut i: usize = 0;
        let ghost ts = self.tags@;
        while i < self.tags.len()
            invariant
                i <= ts.len(),
                ts == self.tags@,
                string_views(r@) == tag_names_of(ts.take(i as int)),
            decreases ts.len() - i,
        {
            assert(ts.take(i + 1).drop_last() =~= ts.take(i as int));
            let ghost before = r@;
            if !self.tags[i].name.as_str().is_empty() {
                r.push(self.tags[i].name.clone());
                assert(string_views(r@) =~= string_views(before).push(ts[i as int].name@));
            }
            i = i + 1;
        }
        assert(ts.take(ts.len() as int) =~= ts);
        r
    }

    /// The display value of a named custom field (e.g. "Priority"), if set.
    pub fn custom_field(&self, name: &str) -> (r: Option<String>)
        ensures
            opt_view(r) == custom_field_value(self.custom_fields@, name@),
    {
        let ghost fs = self.custom_fields@;
        let mut i: usize = 0;
        while i < self.custom_fields.len()
            invariant
                i <= fs.len(),
                fs == self.custom_fields@,
                forall|j: int| 0 <= j < i ==> !names_match(#[trigger] fs[j].name@, name@),
            ensures
                i <= fs.len(),
                forall|j: int| 0 <= j < i ==> !names_match(#[trigger] fs[j].name@, name@),
                i == fs.len() || names_match(fs[i as int].name@, name@),
            decreases fs.len() - i,
        {
            if field_name_matches(self.custom_fields[i].name.as_str(), name) {
                break;
            }
            i = i + 1;
        }
        proof {
            lemma_matching_field(fs, name@, i as int);
        }
        if i < self.custom_fields.len() {
            match &self.custom_fields[i].display_value {
                Some(v) => {
                    if !v.as_str().is_empty() {
                        Some(v.clone())
                    } else {
                        None
                    }
                }
                None => None,
            }
        } else {
            None
        }
    }
}

/// Match a configured field name against an Asana field name, tolerating stray
/// whitespace and case differences (Asana field names sometimes have trailing
/// spaces, e.g. "Urgency ").
pub fn field_name_matches(asana_name: &str, configured: &str) -> (b: bool)
    ensures
        b == names_match(asana_name@, configured@),
{
    let a = chars_of(asana_name);
    let c = chars_of(configured);
    let a = lower_chars(trim_chars(a.as_slice()).as_slice());
    let c = lower_chars(trim_chars(c.as_slice()).as_slice());
    chars_eq(a.as_slice(), c.as_slice())
}


/// The grouping key of a task in My Tasks: its assignee-section gid, or the
/// "(No section)" name when it has none.
pub open spec fn group_key(t: Task) -> Seq<char> {
    match t.assignee_section {
        Some(sec) => sec.gid@,
        None => NO_SECTION@,
    }
}

/// The section gid a task's group carries.
pub open spec fn group_gid(t: Task) -> Option<Seq<char>> {
    match t.assignee_section {
        Some(sec) => Some(sec.gid@),
        None => None,
    }
}

/// The display name of a section: its name, or "(No section)" when empty.
pub open spec fn section_name(name: Seq<char>) -> Seq<char> {
    if name.len() == 0 {
        NO_SECTION@
    } else {
        name
    }
}

/// The section name a task's group carries.
pub open spec fn group_name(t: Task) -> Seq<char> {
    match t.assignee_section {
        Some(sec) => section_name(sec.name@),
        None => NO_SECTION@,
    }
}

/// The distinct group keys of `ts`, in order of first appearance.
pub open spec fn group_keys(ts: Seq<Task>) -> Seq<Seq<char>>
    decreases ts.len(),
{
    if ts.len() == 0 {
        Seq::empty()
    } else {
        let ks = group_keys(ts.drop_last());
        if ks.contains(group_key(ts.last())) {
            ks
        } else {
            ks.push(group_key(ts.last()))
        }
    }
}

/// Index of the first task of `ts` with key `k`, or `-1`.
pub open spec fn first_with_key(ts: Seq<Task>, k: Seq<char>) -> int
    decreases ts.len(),
{
    if ts.len() == 0 {
        -1
    } else {
        let i = first_with_key(ts.drop_last(), k);
        if i >= 0 {
            i
        } else if group_key(ts.last()) == k {
            ts.len() - 1
        } else {
            -1
        }
    }
}

/// The tasks of `ts` whose key is `k`, in order.
pub open spec fn tasks_with_key(ts: Seq<Task>, k: Seq<char>) -> Seq<Task> {
    ts.filter(|t: Task| group_key(t) == k)
}

/// `sections` is the grouping of `ts` by assignee section: one section per
/// distinct key in first-appearance order, each holding exactly the tasks with
/// that key in the order they came, and named after the first of them.
pub open spec fn is_grouping(ts: Seq<Task>, sections: Seq<Section>) -> bool {
    let keys = group_keys(ts);
    &&& sections.len() == keys.len()
    &&& forall|i: int| 0 <= i < sections.len() ==> {
        let first = ts[first_with_key(ts, keys[i])];
        &&& (#[trigger] sections[i]).tasks@ == tasks_with_key(ts, keys[i])
        &&& opt_view(sections[i].gid) == group_gid(first)
        &&& sections[i].name@ == group_name(first)
    }
}

pub(crate) proof fn lemma_first_with_key(ts: Seq<Task>, k: Seq<char>)
    ensures
        group_keys(ts).contains(k) <==> first_with_key(ts, k) >= 0,
        first_with_key(ts, k) < ts.len(),
        first_with_key(ts, k) >= 0 ==> group_key(ts[first_with_key(ts, k)]) == k,
        first_with_key(ts, k) < 0 ==> forall|i: int| 0 <= i < ts.len() ==> group_key(#[trigger] ts[i]) != k,
    decreases ts.len(),
{
    if ts.len() > 0 {
        let d = ts.drop_last();
        lemma_first_with_key(d, k);
        let i = first_with_key(d, k);
        let ks = group_keys(d);
        let x = group_key(ts.last());
        if i >= 0 {
            assert(ts[i] == d[i]);
        }
        if !ks.contains(x) {
            let p = ks.push(x);
            if p.contains(k) {
                let j = choose|j: int| 0 <= j < p.len() && p[j] == k;
                if j < ks.len() {
                    assert(ks[j] == k);
                }
            }
            if ks.contains(k) {
                let j = choose|j: int| 0 <= j < ks.len() && ks[j] == k;
                assert(p[j] == k);
            }
            if x == k {
                assert(p[ks.len() as int] == k);
            }
        }
        if first_with_key(ts, k) < 0 {
            assert forall|j: int| 0 <= j < ts.len() implies group_key(#[trigger] ts[j]) != k by {
                if j < d.len() {
                    assert(ts[j] == d[j]);
                }
            }
        }
    }
}

pub(crate) proof fn lemma_group_keys_distinct(ts: Seq<Task>)
    ensures
        group_keys(ts).no_duplicates(),
    decreases ts.len(),
{
    if ts.len() > 0 {
        lemma_group_keys_distinct(ts.drop_last());
    }
}

/// Group My Tasks by their assignee-section, preserving the order in which the
/// sections first appear (which matches the user's My Tasks ordering). Keyed by
/// section gid so renamed/duplicate names stay distinct.
pub fn group_by_assignee_section(tasks: Vec<Task>) -> (r: Vec<Section>)
    ensures
        is_grouping(tasks@, r@),
{
    let ghost ts = tasks@;
    let total = tasks.len();
    let mut keys: Vec<String> = Vec::new();
    let mut groups: Vec<Section> = Vec::new();
    let mut n: usize = 0;
    for task in it: tasks
        invariant
            ts == it.seq(),
            ts.len() == total,
            n == it.index(),
            n <= ts.len(),
            keys@.len() == groups@.len(),
            string_views(keys@) == group_keys(ts.take(n as int)),
            forall|j: int| 0 <= j < groups@.len() ==> {
                let first = first_with_key(ts.take(n as int), #[trigger] keys@[j]@);
                &&& 0 <= first < n
                &&& first < ts.len()
                &&& groups@[j].tasks@ == tasks_with_key(ts.take(n as int), keys@[j]@)
                &&& opt_view(groups@[j].gid) == group_gid(ts[first])
                &&& groups@[j].name@ == group_name(ts[first])
            },
    {
        assert(n < ts.len());
        let ghost pre = ts.take(n as int);
        let ghost post = ts.take(n + 1);
        proof {
            assert(post.drop_last() =~= pre);
            assert(post.last() == task);
            lemma_group_keys_distinct(pre);
        }
        let (key, gid, name) = match &task.assignee_section {
            Some(section) => {
                let name = if section.name.as_str().is_empty() {
                    String::from_str(NO_SECTION)
                } else {
                    section.name.clone()
                };
                (section.gid.clone(), Some(section.gid.clone()), name)
            },
            None => (String::from_str(NO_SECTION), None, String::from_str(NO_SECTION)),
        };
        assert(key@ == group_key(task));
        let mut idx: usize = 0;
        while idx < keys.len()
            invariant
                idx <= keys@.len(),
                forall|j: int| 0 <= j < idx ==> #[trigger] keys@[j]@ != key@,
            ensures
                idx <= keys@.len(),
                forall|j: int| 0 <= j < idx ==> #[trigger] keys@[j]@ != key@,
                idx == keys@.len() || keys@[idx as int]@ == key@,
            decreases keys@.len() - idx,
        {
            if keys[idx] == key {
                break;
            }
            idx = idx + 1;
        }
        let ghost old_keys = keys@;
        let ghost old_groups = groups@;
        if idx == keys.len() {
            proof {
                assert forall|j: int| 0 <= j < old_keys.len() implies #[trigger] string_views(old_keys)[j] != key@ by {
                    assert(string_views(old_keys)[j] == old_keys[j]@);
                }
                assert(!group_keys(pre).contains(key@));
                lemma_first_with_key(pre, key@);
            }
            keys.push(key);
            groups.push(Section { gid, name, tasks: Vec::new() });
            proof {
                assert(string_views(keys@) =~= string_views(old_keys).push(group_key(task)));
                assert(tasks_with_key(pre, keys@[idx as int]@) =~= Seq::<Task>::empty()) by {
                    let p = |t: Task| group_key(t) == keys@[idx as int]@;
                    assert forall|i: int| 0 <= i < pre.len() implies !p(#[trigger] pre[i]) by {}
                    pre.lemma_all_neg_filter_empty(p);
                }
            }
        } else {
            proof {
                assert(string_views(old_keys)[idx as int] == key@);
            }
        }
        let ghost mid_groups = groups@;
        groups[idx].tasks.push(task);
        proof {
            assert(string_views(keys@) == group_keys(post));
            assert forall|j: int| 0 <= j < groups@.len() implies {
                let first = first_with_key(post, #[trigger] keys@[j]@);
                &&& 0 <= first < n + 1
                &&& groups@[j].tasks@ == tasks_with_key(post, keys@[j]@)
                &&& opt_view(groups@[j].gid) == group_gid(ts[first])
                &&& groups@[j].name@ == group_name(ts[first])
            } by {
                let kj = keys@[j]@;
                let p = |t: Task| group_key(t) == kj;
                pre.lemma_filter_push(task, p);
                assert(pre.push(task) =~= post);
                lemma_first_with_key(pre, kj);
                if j < old_keys.len() {
                    assert(string_views(old_keys)[j] == kj);
                    assert(group_keys(pre).contains(kj));
                    if j != idx {
                        assert(string_views(keys@)[j] == kj);
                        assert(string_views(keys@)[idx as int] == key@);
                        lemma_group_keys_distinct(post);
                    }
                } else {
                    assert(first_with_key(pre, kj) == -1);
                }
            }
        }
        n = n + 1;
    }
    proof {
        assert(ts.take(ts.len() as int) =~= ts);
        assert forall|i: int| 0 <= i < groups@.len() implies {
            let first = ts[first_with_key(ts, group_keys(ts)[i])];
            &&& (#[trigger] groups@[i]).tasks@ == tasks_with_key(ts, group_keys(ts)[i])
            &&& opt_view(groups@[i].gid) == group_gid(first)
            &&& groups@[i].name@ == group_name(first)
        } by {
            assert(string_views(keys@)[i] == keys@[i]@);
        }
    }
    groups
}

/// `s` without any trailing `/`.
pub open spec fn trim_end_slashes(s: Seq<char>) -> Seq<char>
    decreases s.len(),
{
    if s.len() > 0 && s.last() == '/' {
        trim_end_slashes(s.drop_last())
    } else {
        s
    }
}

/// `s` without any leading `/`.
pub open spec fn trim_start_slashes(s: Seq<char>) -> Seq<char>
    decreases s.len(),
{
    if s.len() > 0 && s[0] == '/' {
        trim_start_slashes(s.drop_first())
    } else {
        s
    }
}

/// The `k=v` texts of a list of query pairs.
pub open spec fn query_pairs(query: Seq<(String, String)>) -> Seq<Seq<char>> {
    query.map_values(|p: (String, String)| p.0@ + "="@ + p.1@)
}

/// The URL of `path` under `base_url`: the two joined by exactly one `/`
/// (slashes at the seam dropped), then `?k=v&…` when there is a query.
pub open spec fn url_of(base_url: Seq<char>, path: Seq<char>, query: Seq<(String, String)>) -> Seq<char> {
    let head = trim_end_slashes(base_url) + "/"@ + trim_start_slashes(path);
    if query.len() > 0 {
        head + "?"@ + joined(query_pairs(query), "&"@)
    } else {
        head
    }
}

proof fn lemma_trim_end_slashes(s: Seq<char>, k: int)
    requires
        0 <= k <= s.len(),
        forall|i: int| k <= i < s.len() ==> #[trigger] s[i] == '/',
        k == 0 || s[k - 1] != '/',
    ensures
        trim_end_slashes(s) == s.take(k),
    decreases s.len() - k,
{
    if k == s.len() {
        assert(s.take(k) =~= s);
    } else {
        let t = s.drop_last();
        assert forall|i: int| k <= i < t.len() implies #[trigger] t[i] == '/' by {
            assert(t[i] == s[i]);
        }
        lemma_trim_end_slashes(t, k);
        assert(t.take(k) =~= s.take(k));
    }
}

proof fn lemma_trim_start_slashes(s: Seq<char>, k: int)
    requires
        0 <= k <= s.len(),
        forall|i: int| 0 <= i < k ==> #[trigger] s[i] == '/',
        k == s.len() || s[k] != '/',
    ensures
        trim_start_slashes(s) == s.skip(k),
    decreases k,
{
    if k == 0 {
        assert(s.skip(0) =~= s);
    } else {
        let t = s.drop_first();
        assert forall|i: int| 0 <= i < k - 1 implies #[trigger] t[i] == '/' by {
            assert(t[i] == s[i + 1]);
        }
        lemma_trim_start_slashes(t, k - 1);
        assert(t.skip(k - 1) =~= s.skip(k));
    }
}

/// Build a full URL, appending `query` as a `?k=v&…` string. The values passed
/// (gids, field lists, literals) are all query-safe, so nothing is escaped.
pub fn request_url(base_url: &str, path: &str, query: &[(String, String)]) -> (r: String)
    ensures
        r@ == url_of(base_url@, path@, query@),
{
    let b = chars_of(base_url);
    let mut end = b.len();
    while end > 0 && b[end - 1] == '/'
        invariant
            end <= b@.len(),
            b@ == base_url@,
            forall|i: int| end <= i < b@.len() ==> #[trigger] b@[i] == '/',
        decreases end,
    {
        end = end - 1;
    }
    proof {
        lemma_trim_end_slashes(base_url@, end as int);
    }
    let p = chars_of(path);
    let mut start: usize = 0;
    while start < p.len() && p[start] == '/'
        invariant
            start <= p@.len(),
            p@ == path@,
            forall|i: int| 0 <= i < start ==> #[trigger] p@[i] == '/',
        decreases p@.len() - start,
    {
        start = start + 1;
    }
    proof {
        lemma_trim_start_slashes(path@, start as int);
        assert(p@.subrange(start as int, p@.len() as int) =~= path@.skip(start as int));
        assert(b@.subrange(0, end as int) =~= base_url@.take(end as int));
    }
    let mut url = string_of(copy_range(b.as_slice(), 0, end).as_slice());
    url.append("/");
    url.append(string_of(copy_range(p.as_slice(), start, p.len()).as_slice()).as_str());
    if query.len() > 0 {
        let mut pairs: Vec<String> = Vec::new();
        let mut i: usize = 0;
        while i < query.len()
            invariant
                i <= query@.len(),
                string_views(pairs@) == query_pairs(query@).take(i as int),
            decreases query@.len() - i,
        {
            let mut kv = query[i].0.clone();
            kv.append("=");
            kv.append(query[i].1.as_str());
            let ghost before = pairs@;
            assert(kv@ == query@[i as int].0@ + "="@ + query@[i as int].1@);
            pairs.push(kv);
            proof {
                assert(string_views(pairs@) =~= string_views(before).push(kv@));
                assert(query_pairs(query@).take(i + 1) =~= query_pairs(query@).take(i as int).push(kv@));
            }
            i = i + 1;
        }
        assert(query_pairs(query@).take(query@.len() as int) =~= query_pairs(query@));
        url.append("?");
        url.append(crate::text::join_strings(&pairs, "&").as_str());
    }
    url
}

/// A request of the REST API: the path under the base URL, and the query.
pub struct ApiRequest {
    pub path: String,
    pub query: Vec<(String, String)>,
}

/// The pairs of a query, as character sequences.
pub open spec fn query_views(q: Seq<(String, String)>) -> Seq<(Seq<char>, Seq<char>)> {
    q.map_values(|p: (String, String)| (p.0@, p.1@))
}

/// A query pair.
fn pair(k: &str, v: &str) -> (p: (String, String))
    ensures
        p.0@ == k@,
        p.1@ == v@,
{
    (String::from_str(k), String::from_str(v))
}

/// `a + b`.
fn path_with(a: &str, b: &str) -> (r: String)
    ensures
        r@ == a@ + b@,
{
    let mut r = String::from_str(a);
    r.append(b);
    r
}

/// `a + b + c`.
fn path_with3(a: &str, b: &str, c: &str) -> (r: String)
    ensures
        r@ == a@ + b@ + c@,
{
    let mut r = path_with(a, b);
    r.append(c);
    r
}

/// The task fields fetched for the rows of a task list.
pub open spec fn list_fields() -> Seq<char> {
    "name,completed,due_on,assignee.name,memberships.project.name,tags.name,custom_fields.name,custom_fields.display_value"@
}

/// The task fields fetched for My Tasks rows.
pub open spec fn my_list_fields() -> Seq<char> {
    "name,completed,due_on,assignee.name,assignee_section.name,memberships.project.name,tags.name,custom_fields.name,custom_fields.display_value"@
}

/// The task fields fetched for the detail pane.
pub open spec fn detail_fields() -> Seq<char> {
    "name,completed,notes,permalink_url,due_on,assignee.name,memberships.project.name,tags.name,custom_fields.gid,custom_fields.name,custom_fields.display_value,custom_fields.resource_subtype,custom_fields.enum_options.gid,custom_fields.enum_options.name,custom_fields.enum_value.gid,custom_fields.enum_value.name,custom_fields.multi_enum_values.gid,custom_fields.multi_enum_values.name,custom_fields.date_value.date"@
}

impl ApiRequest {
    /// The authenticated user.
    pub fn me() -> (r: ApiRequest)
        ensures
            r.path@ == "users/me"@,
            r.query@.len() == 0,
    {
        ApiRequest { path: String::from_str("users/me"), query: Vec::new() }
    }

    /// The user's workspaces.
    pub fn workspaces() -> (r: ApiRequest)
        ensures
            r.path@ == "workspaces"@,
            query_views(r.query@) == seq![("limit"@, "100"@)],
    {
        let r = ApiRequest { path: String::from_str("workspaces"), query: vec![pair("limit", "100")] };
        assert(query_views(r.query@) =~= seq![("limit"@, "100"@)]);
        r
    }

    /// The user's favorited projects in a workspace, in sidebar order.
    pub fn favorite_projects(workspace_gid: &str) -> (r: ApiRequest)
        ensures
            r.path@ == "users/me/favorites"@,
            query_views(r.query@) == seq![
                ("workspace"@, workspace_gid@),
                ("resource_type"@, "project"@),
                ("limit"@, "100"@),
                ("opt_fields"@, "name"@),
            ],
    {
        let r = ApiRequest {
            path: String::from_str("users/me/favorites"),
            query: vec![
                pair("workspace", workspace_gid),
                pair("resource_type", "project"),
                pair("limit", "100"),
                pair("opt_fields", "name"),
            ],
        };
        assert(query_views(r.query@) =~= seq![
            ("workspace"@, workspace_gid@),
            ("resource_type"@, "project"@),
            ("limit"@, "100"@),
            ("opt_fields"@, "name"@),
        ]);
        r
    }

    /// Every non-archived project in a workspace; with `with_members`, each
    /// with its member list.
    pub fn projects(workspace_gid: &str, with_members: bool) -> (r: ApiRequest)
        ensures
            r.path@ == "projects"@,
            query_views(r.query@) == seq![
                ("workspace"@, workspace_gid@),
                ("archived"@, "false"@),
                ("limit"@, "100"@),
                ("opt_fields"@, if with_members { "name,members"@ } else { "name"@ }),
            ],
    {
        let fields = if with_members { "name,members" } else { "name" };
        let r = ApiRequest {
            path: String::from_str("projects"),
            query: vec![
                pair("workspace", workspace_gid),
                pair("archived", "false"),
                pair("limit", "100"),
                pair("opt_fields", fields),
            ],
        };
        assert(query_views(r.query@) =~= seq![
            ("workspace"@, workspace_gid@),
            ("archived"@, "false"@),
            ("limit"@, "100"@),
            ("opt_fields"@, if with_members { "name,members"@ } else { "name"@ }),
        ]);
        r
    }

    /// The sections of a project, in order.
    pub fn project_sections(project_gid: &str) -> (r: ApiRequest)
        ensures
            r.path@ == "projects/"@ + project_gid@ + "/sections"@,
            query_views(r.query@) == seq![("opt_fields"@, "name"@), ("limit"@, "100"@)],
    {
        let r = ApiRequest {
            path: path_with3("projects/", project_gid, "/sections"),
            query: vec![pair("opt_fields", "name"), pair("limit", "100")],
        };
        assert(query_views(r.query@) =~= seq![("opt_fields"@, "name"@), ("limit"@, "100"@)]);
        r
    }

    /// The tasks of a section, with the fields a task row shows.
    pub fn section_tasks(section_gid: &str) -> (r: ApiRequest)
        ensures
            r.path@ == "sections/"@ + section_gid@ + "/tasks"@,
            query_views(r.query@) == seq![("limit"@, "100"@), ("opt_fields"@, list_fields())],
    {
        let r = ApiRequest {
            path: path_with3("sections/", section_gid, "/tasks"),
            query: vec![
                pair("limit", "100"),
                pair(
                    "opt_fields",
                    "name,completed,due_on,assignee.name,memberships.project.name,tags.name,custom_fields.name,custom_fields.display_value",
                ),
            ],
        };
        assert(query_views(r.query@) =~= seq![("limit"@, "100"@), ("opt_fields"@, list_fields())]);
        r
    }

    /// The user's task list in a workspace.
    pub fn user_task_list(user_gid: &str, workspace_gid: &str) -> (r: ApiRequest)
        ensures
            r.path@ == "users/"@ + user_gid@ + "/user_task_list"@,
            query_views(r.query@) == seq![("workspace"@, workspace_gid@)],
    {
        let r = ApiRequest {
            path: path_with3("users/", user_gid, "/user_task_list"),
            query: vec![pair("workspace", workspace_gid)],
        };
        assert(query_views(r.query@) =~= seq![("workspace"@, workspace_gid@)]);
        r
    }

    /// The incomplete tasks of a user task list, with the fields a My Tasks row
    /// shows.
    pub fn user_task_list_tasks(list_gid: &str) -> (r: ApiRequest)
        ensures
            r.path@ == "user_task_lists/"@ + list_gid@ + "/tasks"@,
            query_views(r.query@) == seq![
                ("completed_since"@, "now"@),
                ("limit"@, "100"@),
                ("opt_fields"@, my_list_fields()),
            ],
    {
        let r = ApiRequest {
            path: path_with3("user_task_lists/", list_gid, "/tasks"),
            query: vec![
                pair("completed_since", "now"),
                pair("limit", "100"),
                pair(
                    "opt_fields",
                    "name,completed,due_on,assignee.name,assignee_section.name,memberships.project.name,tags.name,custom_fields.name,custom_fields.display_value",
                ),
            ],
        };
        assert(query_views(r.query@) =~= seq![
            ("completed_since"@, "now"@),
            ("limit"@, "100"@),
            ("opt_fields"@, my_list_fields()),
        ]);
        r
    }

    /// Full detail of a task.
    pub fn task(gid: &str) -> (r: ApiRequest)
        ensures
            r.path@ == "tasks/"@ + gid@,
            query_views(r.query@) == seq![("opt_fields"@, detail_fields())],
    {
        let r = ApiRequest {
            path: path_with("tasks/", gid),
            query: vec![pair(
                "opt_fields",
                "name,completed,notes,permalink_url,due_on,assignee.name,memberships.project.name,tags.name,custom_fields.gid,custom_fields.name,custom_fields.display_value,custom_fields.resource_subtype,custom_fields.enum_options.gid,custom_fields.enum_options.name,custom_fields.enum_value.gid,custom_fields.enum_value.name,custom_fields.multi_enum_values.gid,custom_fields.multi_enum_values.name,custom_fields.date_value.date",
            )],
        };
        assert(query_views(r.query@) =~= seq![("opt_fields"@, detail_fields())]);
        r
    }

    /// Comments and activity stories of a task, oldest first.
    pub fn stories(gid: &str) -> (r: ApiRequest)
        ensures
            r.path@ == "tasks/"@ + gid@ + "/stories"@,
            query_views(r.query@) == seq![("limit"@, "100"@), ("opt_fields"@, "type,text,created_at,created_by.name"@)],
    {
        let r = ApiRequest {
            path: path_with3("tasks/", gid, "/stories"),
            query: vec![pair("limit", "100"), pair("opt_fields", "type,text,created_at,created_by.name")],
        };
        assert(query_views(r.query@) =~= seq![("limit"@, "100"@), ("opt_fields"@, "type,text,created_at,created_by.name"@)]);
        r
    }

    /// Subtasks of a task, in order.
    pub fn subtasks(gid: &str) -> (r: ApiRequest)
        ensures
            r.path@ == "tasks/"@ + gid@ + "/subtasks"@,
            query_views(r.query@) == seq![("limit"@, "100"@), ("opt_fields"@, "name,completed"@)],
    {
        let r = ApiRequest {
            path: path_with3("tasks/", gid, "/subtasks"),
            query: vec![pair("limit", "100"), pair("opt_fields", "name,completed")],
        };
        assert(query_views(r.query@) =~= seq![("limit"@, "100"@), ("opt_fields"@, "name,completed"@)]);
        r
    }

    /// Users of a workspace.
    pub fn users(workspace_gid: &str) -> (r: ApiRequest)
        ensures
            r.path@ == "users"@,
            query_views(r.query@) == seq![("workspace"@, workspace_gid@), ("limit"@, "100"@), ("opt_fields"@, "name"@)],
    {
        let r = ApiRequest {
            path: String::from_str("users"),
            query: vec![pair("workspace", workspace_gid), pair("limit", "100"), pair("opt_fields", "name")],
        };
        assert(query_views(r.query@) =~= seq![("workspace"@, workspace_gid@), ("limit"@, "100"@), ("opt_fields"@, "name"@)]);
        r
    }

    /// The task itself, for updates (completion, fields, custom fields, My
    /// Tasks section).
    pub fn task_update(gid: &str) -> (r: ApiRequest)
        ensures
            r.path@ == "tasks/"@ + gid@,
            r.query@.len() == 0,
    {
        ApiRequest { path: path_with("tasks/", gid), query: Vec::new() }
    }

    /// A new comment on a task.
    pub fn add_comment(gid: &str) -> (r: ApiRequest)
        ensures
            r.path@ == "tasks/"@ + gid@ + "/stories"@,
            r.query@.len() == 0,
    {
        ApiRequest { path: path_with3("tasks/", gid, "/stories"), query: Vec::new() }
    }

    /// Moving a task into (a position in) a project section.
    pub fn add_task_to_section(section_gid: &str) -> (r: ApiRequest)
        ensures
            r.path@ == "sections/"@ + section_gid@ + "/addTask"@,
            r.query@.len() == 0,
    {
        ApiRequest { path: path_with3("sections/", section_gid, "/addTask"), query: Vec::new() }
    }

    /// The query of the next page of a paginated list: the first page's query
    /// followed by `offset=<offset>`.
    pub fn with_offset(&self, offset: &str) -> (r: ApiRequest)
        ensures
            r.path@ == self.path@,
            query_views(r.query@) == query_views(self.query@).push(("offset"@, offset@)),
    {
        let mut query: Vec<(String, String)> = Vec::new();
        let mut i: usize = 0;
        while i < self.query.len()
            invariant
                i <= self.query@.len(),
                query_views(query@) == query_views(self.query@).take(i as int),
            decreases self.query@.len() - i,
        {
            let ghost before = query@;
            let k = self.query[i].0.clone();
            let v = self.query[i].1.clone();
            assert(k@ == self.query@[i as int].0@ && v@ == self.query@[i as int].1@);
            query.push((k, v));
            proof {
                assert(query_views(query@) =~= query_views(before).push((k@, v@)));
                assert(query_views(self.query@).take(i + 1) =~= query_views(self.query@).take(i as int).push((k@, v@)));
            }
            i = i + 1;
        }
        assert(query_views(self.query@).take(self.query@.len() as int) =~= query_views(self.query@));
        query.push(pair("offset", offset));
        assert(query_views(query@) =~= query_views(self.query@).push(("offset"@, offset@)));
        ApiRequest { path: self.path.clone(), query }
    }
}

/// The request for the next page of a paginated list whose first request is
/// `first`: the first request with the offset that the last page named, or
/// none when it named no offset (the list is complete).
pub fn next_page_request(first: &ApiRequest, next_offset: Option<String>) -> (r: Option<ApiRequest>)
    ensures
        r is Some <==> next_offset is Some,
        r matches Some(q) ==> (next_offset matches Some(o) && q.path@ == first.path@
            && query_views(q.query@) == query_views(first.query@).push(("offset"@, o@))),
{
    match next_offset {
        Some(o) => Some(first.with_offset(o.as_str())),
        None => None,
    }
}

/// Whether a project lists `user_gid` among its members.
pub open spec fn has_member(p: Project, user_gid: Seq<char>) -> bool {
    exists|i: int| 0 <= i < p.members@.len() && #[trigger] p.members@[i].gid@ == user_gid
}

/// The projects of which the user is a member, in their order.
pub fn member_projects_of(projects: Vec<Project>, user_gid: &str) -> (r: Vec<Project>)
    ensures
        r@ == projects@.filter(|p: Project| has_member(p, user_gid@)),
{
    let ghost ps = projects@;
    let total = projects.len();
    let mut r: Vec<Project> = Vec::new();
    let mut n: usize = 0;
    for p in it: projects
        invariant
            ps == it.seq(),
            ps.len() == total,
            n == it.index(),
            n <= ps.len(),
            r@ == ps.take(n as int).filter(|p: Project| has_member(p, user_gid@)),
    {
        assert(n < ps.len());
        let ghost pre = ps.take(n as int);
        proof {
            assert(ps.take(n + 1) =~= pre.push(p));
            pre.lemma_filter_push(p, |p: Project| has_member(p, user_gid@));
        }
        let mut found = false;
        let mut i: usize = 0;
        while i < p.members.len()
            invariant
                i <= p.members@.len(),
                found == exists|j: int| 0 <= j < i && #[trigger] p.members@[j].gid@ == user_gid@,
            decreases p.members@.len() - i,
        {
            if str_eq(p.members[i].gid.as_str(), user_gid) {
                found = true;
            }
            i = i + 1;
        }
        if found {
            r.push(p);
        }
        n = n + 1;
    }
    assert(ps.take(ps.len() as int) =~= ps);
    r
}

/// A project section with its tasks, shown under the section's name or
/// "(No section)" when that is empty.
pub fn section_from(section: SectionRef, tasks: Vec<Task>) -> (s: Section)
    ensures
        s.gid == Some(section.gid),
        s.name@ == section_name(section.name@),
        s.tasks == tasks,
{
    let name = if section.name.as_str().is_empty() {
        String::from_str(NO_SECTION)
    } else {
        section.name
    };
    Section { gid: Some(section.gid), name, tasks }
}

/// The workspace the app works in: the first one the account has.
pub fn first_workspace(workspaces: Vec<Workspace>) -> (r: Option<Workspace>)
    ensures
        r == (if workspaces@.len() > 0 { Some(workspaces@[0]) } else { None }),
{
    let mut workspaces = workspaces;
    if workspaces.len() == 0 {
        None
    } else {
        Some(workspaces.swap_remove(0))
    }
}

/// Index of the first project whose name matches `name` (case and surrounding
/// whitespace ignored), or `projects.len()`.
pub open spec fn first_named(projects: Seq<Project>, name: Seq<char>) -> int
    decreases projects.len(),
{
    if projects.len() == 0 {
        0
    } else if names_match(projects[0].name@, name) {
        0
    } else {
        1 + first_named(projects.drop_first(), name)
    }
}

/// The projects an explicit name list selects, by index: for each name in
/// its order, the first project of that name, if there is one.
pub open spec fn picked_projects(projects: Seq<Project>, names: Seq<Seq<char>>) -> Seq<int>
    decreases names.len(),
{
    if names.len() == 0 {
        Seq::empty()
    } else {
        let rest = picked_projects(projects, names.drop_last());
        let i = first_named(projects, names.last());
        if i < projects.len() {
            rest.push(i)
        } else {
            rest
        }
    }
}

proof fn lemma_first_named(projects: Seq<Project>, name: Seq<char>, k: int)
    requires
        0 <= k <= projects.len(),
        forall|i: int| 0 <= i < k ==> !names_match(#[trigger] projects[i].name@, name),
        k == projects.len() || names_match(projects[k].name@, name),
    ensures
        first_named(projects, name) == k,
    decreases k,
{
    if k > 0 {
        let t = projects.drop_first();
        assert forall|i: int| 0 <= i < k - 1 implies !names_match(#[trigger] t[i].name@, name) by {
            assert(t[i] == projects[i + 1]);
        }
        lemma_first_named(t, name, k - 1);
    }
}

/// The indices of the projects of an explicit, ordered name list from the
/// configuration, matched by name with case and surrounding whitespace
/// ignored; names that match no project are skipped.
pub fn pick_named_projects(projects: &Vec<Project>, names: &Vec<String>) -> (r: Vec<usize>)
    ensures
        r@.map_values(|i: usize| i as int) == picked_projects(projects@, string_views(names@)),
{
    let ghost views = string_views(names@);
    let mut r: Vec<usize> = Vec::new();
    let mut n: usize = 0;
    while n < names.len()
        invariant
            n <= names@.len(),
            views == string_views(names@),
            r@.map_values(|i: usize| i as int) == picked_projects(projects@, views.take(n as int)),
        decreases names@.len() - n,
    {
        let mut i: usize = 0;
        while i < projects.len()
            invariant
                i <= projects@.len(),
                n < names@.len(),
                forall|j: int| 0 <= j < i ==> !names_match(#[trigger] projects@[j].name@, names@[n as int]@),
            ensures
                i <= projects@.len(),
                forall|j: int| 0 <= j < i ==> !names_match(#[trigger] projects@[j].name@, names@[n as int]@),
                i == projects@.len() || names_match(projects@[i as int].name@, names@[n as int]@),
            decreases projects@.len() - i,
        {
            if field_name_matches(projects[i].name.as_str(), names[n].as_str()) {
                break;
            }
            i = i + 1;
        }
        proof {
            lemma_first_named(projects@, names@[n as int]@, i as int);
            assert(views.take(n + 1).drop_last() =~= views.take(n as int));
            assert(views.take(n + 1).last() == names@[n as int]@);
        }
        let ghost before = r@;
        if i < projects.len() {
            r.push(i);
            assert(r@.map_values(|i: usize| i as int) =~= before.map_values(|i: usize| i as int).push(i as int));
        }
        n = n + 1;
    }
    assert(views.take(names@.len() as int) =~= views);
    r
}

} // verus!
