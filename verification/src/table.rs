//! The task table's rows and lines, and the rows of the detail pane's
//! property and subtask lists: which rows there are, what each says, and how a
//! row is drawn.

use vstd::prelude::*;

use crate::settings::{column_title, Column};
use crate::text::{decimal, decimal_string};
use crate::ui::{fit, fitted, task_mark};
use crate::zones::Rect;

verus! {

broadcast use vstd::string::group_string_axioms;

/// One row of the task list: a section's header, or a task of a section.
#[derive(Clone, Copy, Debug, PartialEq, Eq, Structural)]
pub enum ListRow {
    /// The header of section `.0`.
    Header(usize),
    /// Task `.1` of section `.0`.
    Task(usize, usize),
}

/// The rows of the task list for sections given as (collapsed, task count):
/// each section's header, followed by its tasks unless it is collapsed.
pub open spec fn entries_of(sections: Seq<(bool, usize)>) -> Seq<ListRow>
    decreases sections.len(),
{
    if sections.len() == 0 {
        Seq::empty()
    } else {
        let si = (sections.len() - 1) as usize;
        let (collapsed, count) = sections.last();
        let tasks = if collapsed { Seq::empty() } else { Seq::new(count as nat, |t: int| ListRow::Task(si, t as usize)) };
        entries_of(sections.drop_last()).push(ListRow::Header(si)) + tasks
    }
}

/// The rows of the task list.
pub fn list_entries(sections: &[(bool, usize)]) -> (r: Vec<ListRow>)
    ensures
        r@ == entries_of(sections@),
{
    let mut r: Vec<ListRow> = Vec::new();
    let mut si: usize = 0;
    while si < sections.len()
        invariant
            si <= sections@.len(),
            r@ == entries_of(sections@.take(si as int)),
        decreases sections@.len() - si,
    {
        let (collapsed, count) = sections[si];
        let ghost before = r@;
        r.push(ListRow::Header(si));
        if !collapsed {
            let mut t: usize = 0;
            while t < count
                invariant
                    t <= count,
                    r@ == before.push(ListRow::Header(si)) + Seq::new(t as nat, |k: int| ListRow::Task(si, k as usize)),
                decreases count - t,
            {
                r.push(ListRow::Task(si, t));
                t = t + 1;
                assert(r@ =~= before.push(ListRow::Header(si)) + Seq::new(t as nat, |k: int| ListRow::Task(si, k as usize)));
            }
        } else {
            assert(r@ =~= before.push(ListRow::Header(si)) + Seq::<ListRow>::empty());
        }
        proof {
            let s = sections@.take(si + 1);
            assert(s.drop_last() =~= sections@.take(si as int));
            assert(s.last() == sections@[si as int]);
        }
        si = si + 1;
    }
    assert(sections@.take(sections@.len() as int) =~= sections@);
    r
}

/// The label of a section header: a chevron (▸ collapsed, ▾ open), the
/// section's name and its task count in brackets.
pub open spec fn section_label_of(name: Seq<char>, collapsed: bool, count: nat) -> Seq<char> {
    " "@ + (if collapsed { "\u{25b8}"@ } else { "\u{25be}"@ }) + " "@ + name + " ("@ + decimal(count) + ")"@
}

/// The label of a section header.
pub fn section_label(name: &str, collapsed: bool, count: usize) -> (r: String)
    ensures
        r@ == section_label_of(name@, collapsed, count as nat),
{
    let mut r = String::from_str(" ");
    r.append(if collapsed { "\u{25b8}" } else { "\u{25be}" });
    r.append(" ");
    r.append(name);
    r.append(" (");
    let n = decimal_string(count);
    r.append(n.as_str());
    r.append(")");
    r
}

/// The first `k` cells fitted to their widths, a divider `│` between each two.
pub open spec fn cells_line(cells: Seq<Seq<char>>, widths: Seq<usize>, k: int) -> Seq<char>
    decreases k,
{
    if k <= 0 {
        Seq::empty()
    } else {
        cells_line(cells, widths, k - 1) + (if k > 1 { seq!['\u{2502}'] } else { Seq::empty() })
            + fitted(cells[k - 1], widths[k - 1] as nat)
    }
}

/// A line of the task table: `lead`, then each cell fitted to its column's
/// width with a divider between columns, for as many cells as there are both
/// cells and widths.
pub fn table_line(lead: &str, cells: &Vec<String>, widths: &[usize]) -> (r: String)
    ensures
        r@ == lead@ + cells_line(cells@.map_values(|c: String| c@), widths@,
            if cells@.len() < widths@.len() { cells@.len() as int } else { widths@.len() as int }),
{
    let n = if cells.len() < widths.len() { cells.len() } else { widths.len() };
    let ghost views = cells@.map_values(|c: String| c@);
    let mut r = String::from_str(lead);
    let mut i: usize = 0;
    while i < n
        invariant
            i <= n <= cells@.len(),
            n <= widths@.len(),
            views == cells@.map_values(|c: String| c@),
            r@ == lead@ + cells_line(views, widths@, i as int),
        decreases n - i,
    {
        let ghost before = r@;
        if i > 0 {
            r.push('\u{2502}');
        }
        let cell = fit(cells[i].as_str(), widths[i]);
        r.append(cell.as_str());
        assert(views[i as int] == cells@[i as int]@);
        assert(r@ =~= lead@ + cells_line(views, widths@, i + 1));
        i = i + 1;
    }
    r
}

/// How a task row is drawn: rows that are a drop target, being dragged,
/// selected or completed in one uniform style (in that order of precedence),
/// other rows colour-coded by column.
#[derive(Clone, Copy, Debug, PartialEq, Eq, Structural)]
pub enum RowLook {
    DropTarget,
    Grabbed,
    Selected,
    Completed,
    Coded,
}

/// How a task row is drawn.
pub fn row_look(selected: bool, completed: bool, grabbed: bool, dropping: bool) -> (r: RowLook)
    ensures
        r == (if dropping { RowLook::DropTarget } else if grabbed { RowLook::Grabbed } else if selected {
            RowLook::Selected
        } else if completed { RowLook::Completed } else { RowLook::Coded }),
{
    if selected || completed || grabbed || dropping {
        if dropping {
            RowLook::DropTarget
        } else if grabbed {
            RowLook::Grabbed
        } else if selected {
            RowLook::Selected
        } else {
            RowLook::Completed
        }
    } else {
        RowLook::Coded
    }
}

/// The label of a property row: the column's title and a colon.
pub fn property_label(column: &Column) -> (r: String)
    ensures
        r@ == column_title(column@) + ": "@,
{
    let mut r = column.title();
    r.append(": ");
    r
}

/// The value a property row shows: the value, or a dash when it is empty.
pub fn property_shown(value: &str) -> (r: String)
    ensures
        r@ == (if value@.len() == 0 { "\u{2014}"@ } else { value@ }),
{
    if value.is_empty() {
        String::from_str("\u{2014}")
    } else {
        String::from_str(value)
    }
}

/// The clickable link part of a property row `row` whose label takes
/// `label_width` cells: the rest of the row after the label, if any is left.
pub fn value_link(row: Rect, label_width: u16) -> (r: Option<Rect>)
    requires
        row.x + row.width <= u16::MAX,
    ensures
        r is Some <==> row.width > label_width,
        r matches Some(c) ==> c == (Rect { x: (row.x + label_width) as u16, y: row.y, width: (row.width - label_width) as u16, height: 1 }),
{
    let lx = row.x + if label_width < row.width { label_width } else { row.width };
    let w = row.width.saturating_sub(label_width);
    if w > 0 {
        Some(Rect { x: lx, y: row.y, width: w, height: 1 })
    } else {
        None
    }
}

/// The line of a subtask: its mark (✔ done, ○ open) and name, fitted to `width`.
pub fn subtask_line(name: &str, completed: bool, width: usize) -> (r: String)
    ensures
        r@ == fitted(seq![if completed { '\u{2714}' } else { '\u{25cb}' }, ' '] + name@, width as nat),
{
    let mut line = String::new();
    line.push(task_mark(false, completed));
    line.push(' ');
    line.append(name);
    assert(line@ =~= seq![if completed { '\u{2714}' } else { '\u{25cb}' }, ' '] + name@);
    fit(line.as_str(), width)
}

/// What the detail pane shows while no task is open.
pub fn detail_placeholder(loading: bool) -> (r: &'static str)
    ensures
        r@ == (if loading { "Loading\u{2026}"@ } else { "Select a task to see its details."@ }),
{
    if loading { "Loading\u{2026}" } else { "Select a task to see its details." }
}

} // verus!
