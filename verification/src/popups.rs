//! Layout of the modal popups and the small controls of the detail pane: the
//! size and place of each dialog, the rows of a scrolled option list, the
//! confirm buttons, the activity tabs, and the texts these show.

use vstd::prelude::*;

use crate::app::AppMode;
use crate::asana::Story;
use crate::text::{chars_of, contains_chars, contains_seq, string_views, to_lowercase, unicode_lowercase};
use crate::ui::{centered, centered_in, first_shown, format_time, short_time};
use crate::zones::Rect;

verus! {

/// `a - b`, or zero when `b` is larger.
pub open spec fn sat_sub(a: u16, b: u16) -> u16 {
    if a > b { (a - b) as u16 } else { 0 }
}

/// The smaller of two cell counts.
pub open spec fn min_u16(a: u16, b: u16) -> u16 {
    if a < b { a } else { b }
}

/// A dialog of at most `max_w`×`max_h` cells, leaving a cell of margin on each
/// side of the screen where it can, centered on the screen.
pub open spec fn dialog_in(screen: Rect, max_w: u16, max_h: u16) -> Rect {
    centered_in(screen, min_u16(max_w, sat_sub(screen.width, 2)), min_u16(max_h, sat_sub(screen.height, 2)))
}

/// Place a dialog of at most `max_w`×`max_h` cells on the screen.
pub fn dialog_rect(screen: Rect, max_w: u16, max_h: u16) -> (r: Rect)
    requires
        screen.x + screen.width <= u16::MAX,
        screen.y + screen.height <= u16::MAX,
    ensures
        r == dialog_in(screen, max_w, max_h),
{
    let w = if max_w < screen.width.saturating_sub(2) { max_w } else { screen.width.saturating_sub(2) };
    let h = if max_h < screen.height.saturating_sub(2) { max_h } else { screen.height.saturating_sub(2) };
    centered(screen, w, h)
}

/// The height of the option-list popup for `options` options: two more rows
/// than options (the border), but at least three and at most the screen's
/// height less two.
pub open spec fn picklist_height(options: u16, screen_height: u16) -> u16 {
    let want = options + 2;
    let most = (screen_height - 2) as u16;
    if want < 3 { 3 } else if want > most { most } else { want as u16 }
}

/// Place the option-list popup: forty cells wide at most, as high as
/// `picklist_height` says, centered on the screen. The option count is taken
/// modulo 2^16, as a cast to a cell count does.
pub fn picklist_rect(screen: Rect, options: usize) -> (r: Rect)
    requires
        screen.x + screen.width <= u16::MAX,
        screen.y + screen.height <= u16::MAX,
        screen.height >= 5,
        (options as u16) + 2 <= u16::MAX,
    ensures
        r == centered_in(screen, min_u16(40, sat_sub(screen.width, 2)), picklist_height(options as u16, screen.height)),
{
    let w = if 40 < screen.width.saturating_sub(2) { 40 } else { screen.width.saturating_sub(2) };
    let n: u16 = options as u16;
    let want = n + 2;
    let most = screen.height - 2;
    let h = if want < 3 { 3 } else if want > most { most } else { want };
    centered(screen, w, h)
}

/// Where the "Yes" (five cells) and "No" (four cells) buttons of the confirm
/// dialog go on its button row: side by side with three cells between them,
/// the pair centered on the row.
pub open spec fn confirm_start(row: Rect) -> int {
    row.x + sat_sub(row.width, 12) / 2
}

/// The "Yes" and "No" buttons of the confirm dialog on the row `row`.
pub fn confirm_buttons(row: Rect) -> (r: (Rect, Rect))
    requires
        confirm_start(row) + 8 <= u16::MAX,
    ensures
        r.0 == (Rect { x: confirm_start(row) as u16, width: 5, ..row }),
        r.1 == (Rect { x: (confirm_start(row) + 8) as u16, width: 4, ..row }),
{
    let yw: u16 = 5;
    let nw: u16 = 4;
    let total = yw + nw + 3;
    let start = row.x + (row.width.saturating_sub(total)) / 2;
    (Rect { x: start, width: yw, ..row }, Rect { x: start + yw + 3, width: nw, ..row })
}

/// The mark before an option of the option list: a check box when several
/// options can be chosen, else a dot before the chosen one.
pub open spec fn marker_of(multi: bool, selected: bool) -> Seq<char> {
    if multi {
        if selected { "[x] "@ } else { "[ ] "@ }
    } else {
        if selected { "\u{25cf} "@ } else { "  "@ }
    }
}

/// The mark before an option of the option list.
pub fn option_marker(multi: bool, selected: bool) -> (r: &'static str)
    ensures
        r@ == marker_of(multi, selected),
{
    match (multi, selected) {
        (true, true) => "[x] ",
        (true, false) => "[ ] ",
        (false, true) => "\u{25cf} ",
        (false, false) => "  ",
    }
}

/// The rows of a scrolled list of `n` items shown in `height` one-cell rows
/// from `(x, top)`: the first shown item is the scroll offset, but at most the
/// last item; each row is paired with the index of its item.
pub open spec fn is_list_rows(rows: Seq<(usize, Rect)>, x: u16, top: u16, width: u16, height: nat, n: nat, scroll: nat) -> bool {
    let start = first_shown(n, scroll);
    let count = if start + height <= n { height as int } else if start <= n { n - start } else { 0 };
    &&& rows.len() == count
    &&& forall|k: int| 0 <= k < rows.len() ==> #[trigger] rows[k] == (
        (start + k) as usize,
        Rect { x, y: (top + k) as u16, width, height: 1 },
    )
}

/// Lay out a scrolled list of `n` items in `height` rows from `(x, top)`.
pub fn list_rows(x: u16, top: u16, width: u16, height: usize, n: usize, scroll: usize) -> (r: Vec<(usize, Rect)>)
    requires
        top + height <= u16::MAX + 1,
    ensures
        is_list_rows(r@, x, top, width, height as nat, n as nat, scroll as nat),
{
    let last = n.saturating_sub(1);
    let start = if scroll < last { scroll } else { last };
    let mut rows: Vec<(usize, Rect)> = Vec::new();
    let mut k: usize = 0;
    while k < height && start + k < n
        invariant
            k <= height,
            top + height <= u16::MAX + 1,
            start == first_shown(n as nat, scroll as nat),
            start <= n || n == 0,
            start + k <= n || n == 0,
            n > 0 || k == 0,
            rows@.len() == k,
            forall|j: int| 0 <= j < rows@.len() ==> #[trigger] rows@[j] == (
                (start + j) as usize,
                Rect { x, y: (top + j) as u16, width, height: 1 },
            ),
        decreases height - k,
    {
        rows.push((start + k, Rect { x, y: top + k as u16, width, height: 1 }));
        k = k + 1;
    }
    rows
}

/// The indices of the names that contain `q`, in order; all of them when `q`
/// is empty.
pub open spec fn name_filter(names: Seq<Seq<char>>, q: Seq<char>) -> Seq<int>
    decreases names.len(),
{
    if names.len() == 0 {
        Seq::empty()
    } else {
        let before = name_filter(names.drop_last(), q);
        if q.len() == 0 || contains_seq(names.last(), q) {
            before.push(names.len() - 1)
        } else {
            before
        }
    }
}

/// The names in lower case.
pub open spec fn lowered_names(names: Seq<String>) -> Seq<Seq<char>> {
    names.map_values(|n: String| unicode_lowercase(n@))
}

/// The indices of the names that contain `query`, in order (all of them when
/// the query is empty). The assignee picker calls it with names and query
/// already in lower case.
pub fn matching_names(names: &Vec<String>, query: &str) -> (r: Vec<usize>)
    ensures
        r@.map_values(|i: usize| i as int) == name_filter(string_views(names@), query@),
{
    let qc = chars_of(query);
    let ghost views = string_views(names@);
    let mut r: Vec<usize> = Vec::new();
    let mut i: usize = 0;
    while i < names.len()
        invariant
            i <= names@.len(),
            views == string_views(names@),
            qc@ == query@,
            r@.map_values(|j: usize| j as int) == name_filter(views.take(i as int), query@),
        decreases names@.len() - i,
    {
        let nc = chars_of(names[i].as_str());
        let keep = qc.len() == 0 || contains_chars(nc.as_slice(), qc.as_slice());
        let ghost before = r@;
        if keep {
            r.push(i);
        }
        proof {
            assert(views.take(i + 1).drop_last() =~= views.take(i as int));
            assert(views.take(i + 1).last() == names@[i as int]@);
            if keep {
                assert(r@.map_values(|j: usize| j as int) =~= before.map_values(|j: usize| j as int).push(i as int));
            }
        }
        i = i + 1;
    }
    assert(views.take(names@.len() as int) =~= views);
    r
}

/// The people the assignee picker lists for a search `query`: the indices of
/// the names that contain it, both compared in lower case.
pub fn people_matches(names: &Vec<String>, query: &str) -> (r: Vec<usize>)
    ensures
        r@.map_values(|i: usize| i as int) == name_filter(lowered_names(names@), unicode_lowercase(query@)),
{
    let q = to_lowercase(query);
    let mut lowered: Vec<String> = Vec::new();
    let mut i: usize = 0;
    while i < names.len()
        invariant
            i <= names@.len(),
            lowered@.len() == i,
            forall|j: int| 0 <= j < i ==> #[trigger] lowered@[j]@ == unicode_lowercase(names@[j]@),
        decreases names@.len() - i,
    {
        lowered.push(to_lowercase(names[i].as_str()));
        i = i + 1;
    }
    assert(string_views(lowered@) =~= lowered_names(names@));
    matching_names(&lowered, q.as_str())
}

/// The label of the completion button: " ✓ Completed " (13 cells) on a
/// completed task, " ✓ Mark complete " (17 cells) otherwise.
pub open spec fn complete_label_of(completed: bool) -> Seq<char> {
    if completed { " \u{2713} Completed "@ } else { " \u{2713} Mark complete "@ }
}

/// The label of the completion button.
pub fn complete_label(completed: bool) -> (r: &'static str)
    ensures
        r@ == complete_label_of(completed),
{
    if completed { " \u{2713} Completed " } else { " \u{2713} Mark complete " }
}

/// The completion button and, where there is room, the eleven-cell
/// "Copy Link" button of the detail pane's button row `area`: nothing on a row
/// narrower than ten cells; the completion button at the left, as wide as its
/// label but not wider than the row; the link button flush right when the row
/// is wider than both buttons and a cell between them.
pub open spec fn is_detail_buttons(r: Option<(Rect, Option<Rect>)>, area: Rect, completed: bool) -> bool {
    let lw: u16 = if completed { 13 } else { 17 };
    let w = min_u16(lw, area.width);
    if area.width < 10 {
        r is None
    } else {
        &&& r matches Some((done, copy))
        &&& done == (Rect { width: w, ..area })
        &&& (copy is Some <==> area.width > w + 12)
        &&& (copy matches Some(c) ==> c == (Rect { x: (area.x + area.width - 11) as u16, width: 11, ..area }))
    }
}

/// Lay out the detail pane's button row.
pub fn detail_buttons(area: Rect, completed: bool) -> (r: Option<(Rect, Option<Rect>)>)
    requires
        area.x + area.width <= u16::MAX,
    ensures
        is_detail_buttons(r, area, completed),
{
    if area.width < 10 {
        return None;
    }
    let lw: u16 = if completed { 13 } else { 17 };
    let w = if lw < area.width { lw } else { area.width };
    let done = Rect { width: w, ..area };
    let cw: u16 = 11;
    let copy = if area.width > w + cw + 1 {
        Some(Rect { x: area.x + area.width - cw, width: cw, ..area })
    } else {
        None
    };
    Some((done, copy))
}

/// The activity tabs " Comments " (ten cells) and " All activity " (fourteen
/// cells) on the row `area`, left to right with a cell between them, as many
/// as fit whole.
pub open spec fn is_activity_tabs(r: Seq<Rect>, area: Rect) -> bool {
    let first = Rect { x: area.x, y: area.y, width: 10, height: 1 };
    let second = Rect { x: (area.x + 11) as u16, y: area.y, width: 14, height: 1 };
    if area.width < 10 {
        r.len() == 0
    } else if area.width < 25 {
        r == seq![first]
    } else {
        r == seq![first, second]
    }
}

/// Lay out the activity tabs.
pub fn activity_tabs(area: Rect) -> (r: Vec<Rect>)
    requires
        area.x + area.width <= u16::MAX,
    ensures
        is_activity_tabs(r@, area),
{
    let widths: [u16; 2] = [10, 14];
    let right: u32 = area.x as u32 + area.width as u32;
    let mut x: u32 = area.x as u32;
    let mut r: Vec<Rect> = Vec::new();
    let mut i: usize = 0;
    while i < 2
        invariant
            i <= 2,
            widths@ == seq![10u16, 14u16],
            right == area.x + area.width,
            right <= u16::MAX,
            x == area.x + (if i == 0 { 0int } else if i == 1 { 11int } else { 26int }),
            r@.len() == i,
            i >= 1 ==> r@[0] == (Rect { x: area.x, y: area.y, width: 10, height: 1 }),
            i >= 2 ==> r@[1] == (Rect { x: (area.x + 11) as u16, y: area.y, width: 14, height: 1 }),
            i >= 1 ==> area.width >= 10,
            i >= 2 ==> area.width >= 25,
        ensures
            (r@.len() == 0 && area.width < 10) || (r@.len() == 1 && area.width < 25 && area.width >= 10) || (r@.len() == 2),
            r@.len() >= 1 ==> r@[0] == (Rect { x: area.x, y: area.y, width: 10, height: 1 }),
            r@.len() >= 2 ==> r@[1] == (Rect { x: (area.x + 11) as u16, y: area.y, width: 14, height: 1 }),
            r@.len() >= 1 ==> area.width >= 10,
            r@.len() >= 2 ==> area.width >= 25,
        decreases 2 - i,
    {
        let w = widths[i];
        if x + w as u32 > right {
            break;
        }
        r.push(Rect { x: x as u16, y: area.y, width: w, height: 1 });
        x = x + w as u32 + 1;
        i = i + 1;
    }
    proof {
        if r@.len() == 1 {
            assert(r@ =~= seq![Rect { x: area.x, y: area.y, width: 10, height: 1 }]);
        } else if r@.len() == 2 {
            assert(r@ =~= seq![Rect { x: area.x, y: area.y, width: 10, height: 1 }, Rect { x: (area.x + 11) as u16, y: area.y, width: 14, height: 1 }]);
        }
    }
    r
}

/// What the bottom line editor is editing.
#[derive(Clone, Copy, Debug, PartialEq, Eq, Structural)]
pub enum EditTarget {
    /// A new comment on the task.
    Comment,
    /// A field of the task.
    Field,
    /// The name of a new task; it has a dialog of its own.
    NewTask,
}

/// What the comment composer shows.
#[derive(Clone, Debug)]
pub struct ComposerView {
    /// The title on its border.
    pub title: &'static str,
    /// The text inside it.
    pub body: String,
    /// Whether it is being typed into.
    pub active: bool,
    /// Whether a click on it focuses it.
    pub clickable: bool,
}

/// The comment composer for the line being edited, if any (a new task's name
/// is edited in its own dialog, so it counts as none): its title, the typed
/// text followed by a cursor bar, or a prompt when idle; clickable unless a
/// field is being edited.
pub open spec fn is_composer(v: ComposerView, target: Option<EditTarget>, buffer: Seq<char>) -> bool {
    let editing = target matches Some(t) && t != EditTarget::NewTask;
    &&& v.active == editing
    &&& v.clickable == (!editing || target == Some(EditTarget::Comment))
    &&& v.title@ == (if !editing { " Comment "@ } else if target == Some(EditTarget::Comment) { " New comment "@ } else { " Edit field "@ })
    &&& v.body@ == (if editing { buffer.push('\u{258f}') } else { "Click to add a comment\u{2026}"@ })
}

/// Decide what the comment composer shows.
pub fn composer_view(target: Option<EditTarget>, buffer: &str) -> (v: ComposerView)
    ensures
        is_composer(v, target, buffer@),
{
    match target {
        Some(EditTarget::Comment) => {
            let mut body = String::from_str(buffer);
            body.push('\u{258f}');
            ComposerView { title: " New comment ", body, active: true, clickable: true }
        },
        Some(EditTarget::Field) => {
            let mut body = String::from_str(buffer);
            body.push('\u{258f}');
            ComposerView { title: " Edit field ", body, active: true, clickable: false }
        },
        _ => ComposerView {
            title: " Comment ",
            body: String::from_str("Click to add a comment\u{2026}"),
            active: false,
            clickable: true,
        },
    }
}

/// The author shown above a story: the name of whoever wrote it, or
/// "Someone".
pub open spec fn author_of(story: Story) -> Seq<char> {
    match story.created_by {
        Some(n) => n.name@,
        None => "Someone"@,
    }
}

/// The author shown above a story.
pub fn story_author(story: &Story) -> (r: String)
    ensures
        r@ == author_of(*story),
{
    match &story.created_by {
        Some(n) => n.name.clone(),
        None => String::from_str("Someone"),
    }
}

/// The time shown beside a story's author: a separator dot, then the story's
/// time as `YYYY-MM-DD HH:MM`.
pub fn story_meta(story: &Story) -> (r: String)
    ensures
        r@ == "  \u{b7}  "@ + short_time(story.created_at@),
{
    let mut r = String::from_str("  \u{b7}  ");
    let t = format_time(story.created_at.as_str());
    r.append(t.as_str());
    r
}

/// What the thread shows when it has no story to show.
pub open spec fn thread_placeholder_of(loading: bool, comments_only: bool) -> Seq<char> {
    if loading {
        "Loading\u{2026}"@
    } else if comments_only {
        "No comments yet."@
    } else {
        "No activity yet."@
    }
}

/// What the thread shows when it has no story to show.
pub fn thread_placeholder(loading: bool, comments_only: bool) -> (r: &'static str)
    ensures
        r@ == thread_placeholder_of(loading, comments_only),
{
    if loading {
        "Loading\u{2026}"
    } else if comments_only {
        "No comments yet."
    } else {
        "No activity yet."
    }
}

/// The key hints on the status line: the full view's controls, or only how
/// to quit in the single-task view.
pub open spec fn hints_of(mode: AppMode) -> Seq<char> {
    match mode {
        AppMode::Full => " click: open \u{b7} drag: reorder/resize \u{b7} \u{2191}/\u{2193}: move \u{b7} n: new \u{b7} b: nav \u{b7} q: quit "@,
        AppMode::TaskDetail(_) => " q: quit "@,
    }
}

/// The key hints on the status line.
pub fn status_hints(mode: &AppMode) -> (r: &'static str)
    ensures
        r@ == hints_of(*mode),
{
    match mode {
        AppMode::Full => " click: open \u{b7} drag: reorder/resize \u{b7} \u{2191}/\u{2193}: move \u{b7} n: new \u{b7} b: nav \u{b7} q: quit ",
        AppMode::TaskDetail(_) => " q: quit ",
    }
}

} // verus!
