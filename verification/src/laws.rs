//! Properties that hold across the library's operations, each stated over
//! the spec functions the operations' own contracts use, and proved.

use vstd::prelude::*;

use crate::app::{
    delta_target, input_effect, key_of_nav, key_view, load_for, nav_effect, select_effect, update_effect, zone_effect,
    ActionView, App, TaskListKeyView,
};
use crate::asana::{
    group_key, group_keys, is_grouping, lemma_first_with_key, lemma_group_keys_distinct, names_match, tasks_with_key, AsanaUpdate,
    Section, Task, TaskListKey,
};
use crate::calendar::day_cell;
use crate::cli::{is_gid, task_gid};
use crate::popups::name_filter;
use crate::table::cells_line;
use crate::ui::{detail_heights, detail_sizable, first_shown, fitted, shared_height, DetailContent};
use crate::settings::{column_key, column_of, columns_of, default_column_views, Column, ColumnView, RawConfig};
use crate::state::{collapsed_update, is_collapsed_in, width_in};
use crate::text::{ascii_lower, has_prefix, is_ascii_digit, is_ws, lower_seq, trim_end, trim_start, trimmed};
use crate::zones::{rect_contains, topmost, Nav, Rect, Zone};
use crate::app::{Input, Key};
use crate::asana::{trim_end_slashes, trim_start_slashes, url_of};
use crate::settings::{project_mode_of, source_of, ProjectSourceView, RawProjects};
use crate::text::contains_seq;
use crate::ui::{mentions_any, tone_of, Tone};

verus! {

proof fn lemma_trim_start_front(s: Seq<char>)
    ensures
        trim_start(s).len() > 0 ==> !is_ws(trim_start(s)[0]),
        trim_start(s).len() <= s.len(),
    decreases s.len(),
{
    if s.len() > 0 && is_ws(s[0]) {
        lemma_trim_start_front(s.drop_first());
    }
}

proof fn lemma_trim_end_back(s: Seq<char>)
    ensures
        trim_end(s).len() > 0 ==> !is_ws(trim_end(s).last()),
        trim_end(s).len() <= s.len(),
        trim_end(s) == s.take(trim_end(s).len() as int),
    decreases s.len(),
{
    if s.len() > 0 && is_ws(s.last()) {
        lemma_trim_end_back(s.drop_last());
        let t = trim_end(s.drop_last());
        assert(s.drop_last().take(t.len() as int) =~= s.take(t.len() as int));
    } else {
        assert(s.take(s.len() as int) =~= s);
    }
}

/// Trimming twice trims no more than trimming once.
pub proof fn law_trim_idempotent(s: Seq<char>)
    ensures
        trimmed(trimmed(s)) == trimmed(s),
{
    let t = trim_start(s);
    let u = trim_end(t);
    lemma_trim_start_front(s);
    lemma_trim_end_back(t);
    if u.len() > 0 {
        assert(t.take(u.len() as int)[0] == t[0]);
        assert(u[0] == t[0]);
        assert(trim_start(u) == u);
    } else {
        assert(trim_start(u) == u);
    }
}

proof fn lemma_digits_untrimmed(g: Seq<char>)
    requires
        is_gid(g),
    ensures
        trimmed(g) == g,
{
    assert(is_ascii_digit(g[0]));
    assert(trim_start(g) == g);
    assert(is_ascii_digit(g[g.len() - 1]));
    assert(trim_end(g) == g);
}

proof fn lemma_last_gid(segs: Seq<Seq<char>>)
    ensures
        crate::cli::last_gid_index(segs) < segs.len(),
        crate::cli::last_gid_index(segs) >= 0 ==> is_gid(segs[crate::cli::last_gid_index(segs)]),
    decreases segs.len(),
{
    if segs.len() > 0 && !is_gid(segs.last()) {
        let d = segs.drop_last();
        lemma_last_gid(d);
        let k = crate::cli::last_gid_index(d);
        if k >= 0 {
            assert(segs[k] == d[k]);
        }
    }
}

/// Whatever a task reference names is a task gid: a non-empty run of digits.
pub proof fn law_found_gid_is_digits(input: Seq<char>)
    ensures
        task_gid(input) matches Some(g) ==> is_gid(g),
{
    let t = trimmed(input);
    let segs = crate::cli::path_segments(crate::cli::url_path(t));
    lemma_last_gid(segs);
}

/// A bare task gid names itself.
pub proof fn law_bare_gid_names_itself(g: Seq<char>)
    requires
        is_gid(g),
    ensures
        task_gid(g) == Some(g),
{
    lemma_digits_untrimmed(g);
}

/// Reading a task reference twice changes nothing: the gid it names names
/// itself.
pub proof fn law_gid_lookup_idempotent(input: Seq<char>)
    ensures
        task_gid(input) matches Some(g) ==> task_gid(g) == Some(g),
{
    law_found_gid_is_digits(input);
    if let Some(g) = task_gid(input) {
        law_bare_gid_names_itself(g);
    }
}

/// Whitespace around a task reference does not change what it names.
pub proof fn law_gid_ignores_surrounding_space(input: Seq<char>)
    ensures
        task_gid(trimmed(input)) == task_gid(input),
{
    law_trim_idempotent(input);
}

/// A click at a cell inside the zone registered last hits that zone.
pub proof fn law_hit_finds_last_pushed(items: Seq<(Zone, Rect)>, zone: Zone, rect: Rect, x: u16, y: u16)
    requires
        rect_contains(rect, x, y),
    ensures
        topmost(items.push((zone, rect)), x, y) == Some(zone),
{
}

/// A zone registered last that does not contain the cell leaves the hit as it
/// was.
pub proof fn law_hit_passes_outside_push(items: Seq<(Zone, Rect)>, zone: Zone, rect: Rect, x: u16, y: u16)
    requires
        !rect_contains(rect, x, y),
    ensures
        topmost(items.push((zone, rect)), x, y) == topmost(items, x, y),
{
    assert(items.push((zone, rect)).drop_last() =~= items);
}

/// A hit zone was registered with a rectangle that contains the cell, and
/// every zone registered after it misses the cell.
pub proof fn law_hit_is_topmost_containing(items: Seq<(Zone, Rect)>, x: u16, y: u16)
    ensures
        topmost(items, x, y) matches Some(z) ==> exists|i: int|
            0 <= i < items.len() && (#[trigger] items[i]).0 == z && rect_contains(items[i].1, x, y)
                && forall|j: int| i < j < items.len() ==> !rect_contains((#[trigger] items[j]).1, x, y),
        topmost(items, x, y) is None ==> forall|j: int| 0 <= j < items.len() ==> !rect_contains((#[trigger] items[j]).1, x, y),
    decreases items.len(),
{
    if items.len() > 0 {
        let d = items.drop_last();
        law_hit_is_topmost_containing(d, x, y);
        let n = items.len() - 1;
        if rect_contains(items[n].1, x, y) {
            assert(items[n].0 == topmost(items, x, y).unwrap());
        } else {
            if let Some(z) = topmost(d, x, y) {
                let i = choose|i: int|
                    0 <= i < d.len() && (#[trigger] d[i]).0 == z && rect_contains(d[i].1, x, y)
                        && forall|j: int| i < j < d.len() ==> !rect_contains((#[trigger] d[j]).1, x, y);
                assert(items[i] == d[i]);
                assert forall|j: int| i < j < items.len() implies !rect_contains((#[trigger] items[j]).1, x, y) by {
                    if j < n {
                        assert(items[j] == d[j]);
                    }
                }
            } else {
                assert forall|j: int| 0 <= j < items.len() implies !rect_contains((#[trigger] items[j]).1, x, y) by {
                    if j < n {
                        assert(items[j] == d[j]);
                    }
                }
            }
        }
    }
}

/// Clicking a task row never changes the task list (it never completes a
/// task): it only selects the task and asks for its detail.
pub proof fn law_row_click_keeps_tasks(a: App, b: App, index: usize, act: ActionView)
    requires
        zone_effect(a, b, Zone::TaskRow(index), act),
    ensures
        b.tasks == a.tasks,
        b.nav == a.nav,
        b.projects == a.projects,
{
}

/// The task list a navigation asks to load is the one whose result the app
/// then accepts, rather than ignoring it as stale.
pub proof fn law_requested_list_is_accepted(a: App, nav: Nav)
    ensures
        load_for(a, nav) matches ActionView::LoadMyTasks { .. } ==> key_of_nav(nav, a.projects@) == TaskListKeyView::MyTasks,
        load_for(a, nav) matches ActionView::LoadProject(g) ==> key_of_nav(nav, a.projects@) == TaskListKeyView::Project(g),
{
}

/// A task list for another list than the one shown is ignored.
pub proof fn law_stale_tasks_ignored(a: App, b: App, key: TaskListKey, sections: Vec<crate::asana::Section>, act: ActionView)
    requires
        update_effect(a, b, AsanaUpdate::Tasks { key, sections }, act),
        key_view(key) != key_of_nav(a.nav, a.projects@),
    ensures
        b == a,
{
}

/// The selection, when there is one, is always a task of the list shown: every
/// input and every Asana result keeps it so.
pub proof fn law_selection_stays_in_list(a: App, b: App, input: crate::app::Input, u: AsanaUpdate, act: ActionView)
    requires
        a.selected_task matches Some(i) ==> i < a.tasks@.len(),
        input_effect(a, b, input, act) || update_effect(a, b, u, act),
    ensures
        b.selected_task matches Some(i) ==> i < b.tasks@.len(),
{
    if a.tasks@.len() > 0 {
        let n = a.tasks@.len();
        assert(0 <= delta_target(a.selected_task, 1, n) < n);
        assert(0 <= delta_target(a.selected_task, -1, n) < n);
    }
}

/// After marking a section collapsed or expanded, it reads back as marked;
/// every other section of every list reads as before.
pub proof fn law_collapse_reads_back(
    m: Map<Seq<char>, Set<Seq<char>>>,
    nav: Seq<char>,
    section: Seq<char>,
    collapsed: bool,
    other_nav: Seq<char>,
    other_section: Seq<char>,
)
    ensures
        is_collapsed_in(collapsed_update(m, nav, section, collapsed), nav, section) == collapsed,
        (other_nav != nav || other_section != section) ==> is_collapsed_in(collapsed_update(m, nav, section, collapsed), other_nav, other_section)
            == is_collapsed_in(m, other_nav, other_section),
{
}

/// After resizing a column, its width reads back; every other column's width
/// is as before.
pub proof fn law_width_reads_back(m: Map<Seq<char>, usize>, column: Seq<char>, width: usize, other: Seq<char>)
    ensures
        width_in(m.insert(column, width), column) == Some(width),
        other != column ==> width_in(m.insert(column, width), other) == width_in(m, other),
{
}

/// Field-name matching is symmetric, reflexive, and blind to surrounding
/// whitespace.
pub proof fn law_names_match_equivalence(a: Seq<char>, b: Seq<char>)
    ensures
        names_match(a, b) == names_match(b, a),
        names_match(a, a),
        names_match(trimmed(a), b) == names_match(a, b),
{
    law_trim_idempotent(a);
}

/// With an empty search every person is listed, in order.
pub proof fn law_empty_search_lists_everyone(names: Seq<Seq<char>>)
    ensures
        name_filter(names, Seq::empty()) == Seq::new(names.len(), |i: int| i),
    decreases names.len(),
{
    if names.len() > 0 {
        law_empty_search_lists_everyone(names.drop_last());
        assert(name_filter(names, Seq::empty()) =~= Seq::new(names.len(), |i: int| i));
    }
}

/// In a date picker box of the least size (21 by 8 cells) or larger, every
/// day's cell lies inside the box, below the header and weekday rows, and no
/// two days share a cell.
pub proof fn law_day_cells_inside_and_apart(inner: Rect, first: u8, d1: int, d2: int)
    requires
        inner.width >= 21,
        inner.height >= 8,
        inner.x + inner.width <= u16::MAX,
        inner.y + inner.height <= u16::MAX,
        first < 7,
        1 <= d1 <= 31,
        1 <= d2 <= 31,
    ensures
        day_cell(inner, first, d1).x >= inner.x,
        day_cell(inner, first, d1).x + day_cell(inner, first, d1).width <= inner.x + inner.width,
        day_cell(inner, first, d1).y >= inner.y + 2,
        day_cell(inner, first, d1).y < inner.y + inner.height,
        d1 != d2 ==> (day_cell(inner, first, d1).x != day_cell(inner, first, d2).x
            || day_cell(inner, first, d1).y != day_cell(inner, first, d2).y),
{
    let i1 = first + d1 - 1;
    let i2 = first + d2 - 1;
    assert(0 <= i1 % 7 < 7 && i1 / 7 <= 5) by (nonlinear_arith)
        requires
            0 <= i1 <= 36,
    ;
    assert(0 <= i2 % 7 < 7 && i2 / 7 <= 5) by (nonlinear_arith)
        requires
            0 <= i2 <= 36,
    ;
    assert(i1 != i2 ==> (i1 % 7 != i2 % 7 || i1 / 7 != i2 / 7)) by (nonlinear_arith)
        requires
            0 <= i1,
            0 <= i2,
    ;
}

proof fn lemma_plain_key(k: Seq<char>)
    requires
        k.len() > 0,
        forall|i: int| 0 <= i < k.len() ==> ('a' <= #[trigger] k[i] <= 'z' || k[i] == '_'),
    ensures
        trimmed(k) == k,
        lower_seq(k) == k,
        !has_prefix(k, "custom:"@),
{
    assert(!is_ws(k[0]));
    assert(trim_start(k) == k);
    assert(!is_ws(k[k.len() - 1]));
    assert(trim_end(k) == k);
    assert(lower_seq(k) =~= k) by {
        assert forall|i: int| 0 <= i < k.len() implies #[trigger] lower_seq(k)[i] == k[i] by {
            assert(ascii_lower(k[i]) == k[i]);
        }
    }
    reveal_strlit("custom:");
    if k.len() >= 7 {
        assert(k.take(7)[6] != ':');
    }
}

/// Parsing a column's key gives the column back: `Column::parse(&c.key())`
/// is `Some(c)` (as `Column::parse` and `Column::key` state it over
/// `column_of` and `column_key`) for every built-in column and every custom
/// column whose name is non-empty and has no surrounding whitespace.
pub proof fn law_column_key_reads_back(c: Column)
    requires
        c@ matches ColumnView::Custom(name) ==> name.len() > 0 && trimmed(name) == name,
    ensures
        column_of(column_key(c@)) == Some(c@),
{
    let c = c@;
    reveal_strlit("name");
    reveal_strlit("due_date");
    reveal_strlit("due");
    reveal_strlit("assignee");
    reveal_strlit("projects");
    reveal_strlit("project");
    reveal_strlit("tags");
    reveal_strlit("tag");
    reveal_strlit("completed");
    reveal_strlit("done");
    reveal_strlit("custom:");
    match c {
        ColumnView::Custom(name) => {
            let k = "custom:"@ + name;
            assert(k[0] == 'c');
            assert(trim_start(k) == k);
            lemma_trim_start_front(name);
            lemma_trim_end_back(trim_start(name));
            assert(k.last() == name.last());
            assert(trim_end(k) == k);
            assert(k.take(7) =~= "custom:"@);
            assert(k.skip(7) =~= name);
        },
        _ => {
            lemma_plain_key(column_key(c));
        },
    }
}

/// The settings always have at least one column: a configuration that names
/// no known column gets the default columns.
pub proof fn law_settings_have_columns(raw: Option<RawConfig>)
    ensures
        (match raw {
            Some(r) => if columns_of(r.columns@).len() > 0 {
                columns_of(r.columns@)
            } else {
                default_column_views()
            },
            None => default_column_views(),
        }).len() > 0,
{
}

/// The number of tasks in all of `sections`.
pub open spec fn total_tasks(sections: Seq<Section>) -> nat
    decreases sections.len(),
{
    if sections.len() == 0 {
        0
    } else {
        total_tasks(sections.drop_last()) + sections.last().tasks@.len()
    }
}

/// The number of tasks of `ts` whose group key is among `keys`, counted key by
/// key.
spec fn key_count_sum(ts: Seq<Task>, keys: Seq<Seq<char>>) -> nat
    decreases keys.len(),
{
    if keys.len() == 0 {
        0
    } else {
        key_count_sum(ts, keys.drop_last()) + tasks_with_key(ts, keys.last()).len()
    }
}

proof fn lemma_count_push(d: Seq<Task>, x: Task, keys: Seq<Seq<char>>)
    requires
        keys.no_duplicates(),
    ensures
        key_count_sum(d.push(x), keys) == key_count_sum(d, keys) + (if keys.contains(group_key(x)) { 1nat } else { 0nat }),
    decreases keys.len(),
{
    if keys.len() > 0 {
        let ks = keys.drop_last();
        let k = keys.last();
        lemma_count_push(d, x, ks);
        d.lemma_filter_push(x, |t: Task| group_key(t) == k);
        let kx = group_key(x);
        if keys.contains(kx) {
            let j = choose|j: int| 0 <= j < keys.len() && keys[j] == kx;
            if j < ks.len() {
                assert(ks[j] == kx);
                assert(keys[j] != keys[keys.len() - 1]);
            }
        }
        if ks.contains(kx) {
            let j = choose|j: int| 0 <= j < ks.len() && ks[j] == kx;
            assert(keys[j] == kx);
        }
        if kx == k {
            assert(keys[keys.len() - 1] == kx);
            if ks.contains(kx) {
                let j = choose|j: int| 0 <= j < ks.len() && ks[j] == kx;
                assert(keys[j] == keys[keys.len() - 1]);
            }
        }
    }
}

proof fn lemma_absent_key_count(ts: Seq<Task>, k: Seq<char>)
    requires
        !group_keys(ts).contains(k),
    ensures
        tasks_with_key(ts, k).len() == 0,
{
    lemma_first_with_key(ts, k);
    ts.lemma_all_neg_filter_empty(|t: Task| group_key(t) == k);
}

proof fn lemma_key_counts(ts: Seq<Task>)
    ensures
        key_count_sum(ts, group_keys(ts)) == ts.len(),
    decreases ts.len(),
{
    if ts.len() > 0 {
        let d = ts.drop_last();
        let x = ts.last();
        assert(d.push(x) =~= ts);
        lemma_key_counts(d);
        lemma_group_keys_distinct(d);
        lemma_count_push(d, x, group_keys(d));
        let kx = group_key(x);
        if !group_keys(d).contains(kx) {
            let ks = group_keys(d).push(kx);
            assert(ks.drop_last() =~= group_keys(d));
            lemma_absent_key_count(d, kx);
            d.lemma_filter_push(x, |t: Task| group_key(t) == kx);
        }
    }
}

proof fn lemma_total_is_key_sum(ts: Seq<Task>, sections: Seq<Section>, n: int)
    requires
        0 <= n <= sections.len(),
        sections.len() == group_keys(ts).len(),
        forall|i: int| 0 <= i < sections.len() ==> (#[trigger] sections[i]).tasks@ == tasks_with_key(ts, group_keys(ts)[i]),
    ensures
        total_tasks(sections.take(n)) == key_count_sum(ts, group_keys(ts).take(n)),
    decreases n,
{
    if n > 0 {
        lemma_total_is_key_sum(ts, sections, n - 1);
        assert(sections.take(n).drop_last() =~= sections.take(n - 1));
        assert(group_keys(ts).take(n).drop_last() =~= group_keys(ts).take(n - 1));
    }
}

/// Grouping My Tasks by section loses and duplicates nothing: the sections
/// hold as many tasks as there were, every task is in a section of its key,
/// and no section is empty.
pub proof fn law_grouping_partitions(ts: Seq<Task>, sections: Seq<Section>)
    requires
        is_grouping(ts, sections),
    ensures
        total_tasks(sections) == ts.len(),
        forall|j: int| 0 <= j < ts.len() ==> exists|i: int| 0 <= i < sections.len() && (#[trigger] sections[i]).tasks@.contains(#[trigger] ts[j]),
        forall|i: int| 0 <= i < sections.len() ==> (#[trigger] sections[i]).tasks@.len() > 0,
{
    let keys = group_keys(ts);
    assert forall|i: int| 0 <= i < sections.len() implies (#[trigger] sections[i]).tasks@ == tasks_with_key(ts, keys[i]) by {
    }
    lemma_total_is_key_sum(ts, sections, sections.len() as int);
    assert(sections.take(sections.len() as int) =~= sections);
    assert(keys.take(keys.len() as int) =~= keys);
    lemma_key_counts(ts);
    assert forall|j: int| 0 <= j < ts.len() implies exists|i: int| 0 <= i < sections.len() && (#[trigger] sections[i]).tasks@.contains(#[trigger] ts[j]) by {
        let k = group_key(ts[j]);
        lemma_first_with_key(ts, k);
        let i = choose|i: int| 0 <= i < keys.len() && keys[i] == k;
        ts.filter_lemma(|t: Task| group_key(t) == k);
        assert(sections[i].tasks@.contains(ts[j]));
    }
    assert forall|i: int| 0 <= i < sections.len() implies (#[trigger] sections[i]).tasks@.len() > 0 by {
        let k = keys[i];
        assert(keys.contains(k));
        lemma_first_with_key(ts, k);
        let f = crate::asana::first_with_key(ts, k);
        ts.filter_lemma(|t: Task| group_key(t) == k);
        assert(tasks_with_key(ts, k).contains(ts[f]));
    }
}

/// The description and the conversation share exactly the rows the other
/// regions leave, and each gets at least three of them when six or more are
/// left (the description only when it is shown).
pub proof fn law_detail_shares_leftover(c: DetailContent)
    requires
        detail_sizable(c),
    ensures
        detail_heights(c).description + detail_heights(c).thread == shared_height(c),
        !c.show_description ==> detail_heights(c).description == 0,
        shared_height(c) >= 6 && c.show_description ==> detail_heights(c).description >= 3 && detail_heights(c).thread >= 3,
{
    let avail = shared_height(c);
    let dw = crate::ui::description_want(c);
    let tw = crate::ui::thread_want(c);
    if c.show_description && dw + tw > avail {
        assert((avail * dw) / (dw + tw) >= 0) by (nonlinear_arith)
            requires
                avail >= 0,
                dw >= 0,
                tw > 0,
        ;
    }
}

/// The rows a scrolled list shows lie within the list and are no more than
/// fit: the first is the scroll offset held at the last row, and the shown
/// range ends no later than the list.
pub proof fn law_shown_rows_within_list(total: nat, scroll: nat)
    ensures
        first_shown(total, scroll) <= scroll,
        total > 0 ==> first_shown(total, scroll) < total,
        total == 0 ==> first_shown(total, scroll) == 0,
{
}

/// Fitting text to a width gives exactly that many characters.
pub proof fn law_fitted_length(s: Seq<char>, width: nat)
    ensures
        fitted(s, width).len() == width,
{
}

/// The widths and dividers of the first `k` cells of a table line.
pub open spec fn line_width(widths: Seq<usize>, k: int) -> int
    decreases k,
{
    if k <= 0 {
        0
    } else {
        line_width(widths, k - 1) + (if k > 1 { 1int } else { 0int }) + widths[k - 1]
    }
}

/// A table line is as long as its columns and dividers, whatever its cells
/// say; so the header and every row of the table line up.
pub proof fn law_table_lines_align(cells: Seq<Seq<char>>, widths: Seq<usize>, k: int)
    requires
        0 <= k <= cells.len(),
        k <= widths.len(),
    ensures
        cells_line(cells, widths, k).len() == line_width(widths, k),
    decreases k,
{
    if k > 0 {
        law_table_lines_align(cells, widths, k - 1);
        law_fitted_length(cells[k - 1], widths[k - 1] as nat);
    }
}

/// `q`, Esc and Ctrl-C quit: after any of these key presses the app is no
/// longer running, asks for nothing, and shows the same list, selection,
/// detail and status as before.
pub proof fn law_quit_keys_stop_the_app(a: App, b: App, code: Key, ctrl: bool, act: ActionView)
    requires
        code == Key::Char('q') || code == Key::Esc || (code == Key::Char('c') && ctrl),
        input_effect(a, b, Input::Key { code, ctrl, press: true }, act),
    ensures
        !b.running,
        act == ActionView::Nothing,
        b.mode == a.mode,
        b.projects == a.projects,
        b.nav == a.nav,
        b.tasks == a.tasks,
        b.task_scroll == a.task_scroll,
        b.selected_task == a.selected_task,
        b.detail == a.detail,
        b.status == a.status,
        b.zones == a.zones,
{
}

/// When the description and the conversation both fit in the rows left, each
/// gets its rows plus border (at least three), and the spare rows all go to
/// the one with more text lines, to the description on a tie.
pub proof fn law_spare_rows_go_to_longer_text(c: DetailContent)
    requires
        detail_sizable(c),
        c.show_description,
    ensures
        ({
            let d0 = (c.description_lines as u16) + 2;
            let t0 = (c.thread_lines as u16) + 2;
            let dw = if d0 > 3 { d0 } else { 3 };
            let tw = if t0 > 3 { t0 } else { 3 };
            let left = shared_height(c);
            dw + tw <= left ==> if c.description_lines >= c.thread_lines {
                &&& detail_heights(c).description == left - tw
                &&& detail_heights(c).thread == tw
            } else {
                &&& detail_heights(c).description == dw
                &&& detail_heights(c).thread == left - dw
            }
        }),
{
}

/// The mode strings of the `projects` setting, in any ASCII case and with
/// surrounding whitespace: "favorites", "favorite" and "starred" select the
/// favorited projects; "member", "members" and "all" every member project.
pub proof fn law_project_mode_names(value: Seq<char>)
    ensures
        (lower_seq(trimmed(value)) == "favorites"@ || lower_seq(trimmed(value)) == "favorite"@
            || lower_seq(trimmed(value)) == "starred"@) ==> project_mode_of(value) == Some(ProjectSourceView::Favorites),
        (lower_seq(trimmed(value)) == "member"@ || lower_seq(trimmed(value)) == "members"@
            || lower_seq(trimmed(value)) == "all"@) ==> project_mode_of(value) == Some(ProjectSourceView::Member),
{
    reveal_strlit("favorites");
    reveal_strlit("favorite");
    reveal_strlit("starred");
    reveal_strlit("member");
    reveal_strlit("members");
    reveal_strlit("all");
    let l = lower_seq(trimmed(value));
    if l == "member"@ || l == "members"@ || l == "all"@ {
        assert(l[0] != "favorites"@[0] || l.len() != "favorites"@.len());
        assert(l != "favorites"@);
        assert(l[0] != "favorite"@[0] || l.len() != "favorite"@.len());
        assert(l != "favorite"@);
        assert(l[0] != "starred"@[0] || l.len() != "starred"@.len());
        assert(l != "starred"@);
    }
}

/// A `projects` setting of "favorites" (any ASCII case, surrounding
/// whitespace ignored) shows the favorited projects.
pub proof fn law_favorites_mode_shows_favorites(mode: String)
    requires
        lower_seq(trimmed(mode@)) == "favorites"@,
    ensures
        source_of(Some(RawProjects::Mode(mode))) == ProjectSourceView::Favorites,
{
    law_project_mode_names(mode@);
}

/// A base URL and a path without slashes at the seam are joined by exactly
/// one `/`; with no query that is the whole URL, and with a query it is
/// followed by `?`.
pub proof fn law_url_joins_with_one_slash(base: Seq<char>, path: Seq<char>, query: Seq<(String, String)>)
    requires
        base.len() == 0 || base.last() != '/',
        path.len() == 0 || path[0] != '/',
    ensures
        query.len() == 0 ==> url_of(base, path, query) == base + "/"@ + path,
        query.len() > 0 ==> url_of(base, path, query).take((base.len() + 2 + path.len()) as int) == base + "/"@ + path + "?"@,
{
    reveal_strlit("/");
    reveal_strlit("?");
    assert(trim_end_slashes(base) == base);
    assert(trim_start_slashes(path) == path);
    if query.len() > 0 {
        let head = base + "/"@ + path;
        let rest = crate::text::joined(crate::asana::query_pairs(query), "&"@);
        assert((head + "?"@ + rest).take((base.len() + 2 + path.len()) as int) =~= head + "?"@);
    }
}

/// Extra slashes at the seam change nothing: a base URL ending in `/` and a
/// path starting with `/` give the same URL as without them.
pub proof fn law_url_seam_slashes_collapse(base: Seq<char>, path: Seq<char>, query: Seq<(String, String)>)
    ensures
        url_of(base.push('/'), path, query) == url_of(base, path, query),
        url_of(base, seq!['/'] + path, query) == url_of(base, path, query),
{
    assert(base.push('/').drop_last() =~= base);
    assert((seq!['/'] + path).drop_first() =~= path);
}

proof fn lemma_none_mentioned(v: Seq<char>, keys: Seq<Seq<char>>)
    requires
        forall|i: int| 0 <= i < keys.len() ==> !contains_seq(v, #[trigger] keys[i]),
    ensures
        !mentions_any(v, keys),
{
}

/// A status containing "done" is green, whatever else it says.
pub proof fn law_done_is_green(v: Seq<char>)
    requires
        contains_seq(v, "done"@),
    ensures
        tone_of(v) == Tone::Green,
{
    reveal_strlit("done");
    let keys = seq!["done"@, "complete"@, "merged"@, "closed"@, "shipped"@];
    assert(keys[0] == "done"@);
    assert(mentions_any(v, keys));
}

/// A status containing "progress" and none of the done or review words
/// ("done", "complete", "merged", "closed", "shipped", "review", "qa",
/// "verify", "test") is cyan.
pub proof fn law_progress_is_cyan(v: Seq<char>)
    requires
        contains_seq(v, "progress"@),
        !contains_seq(v, "done"@),
        !contains_seq(v, "complete"@),
        !contains_seq(v, "merged"@),
        !contains_seq(v, "closed"@),
        !contains_seq(v, "shipped"@),
        !contains_seq(v, "review"@),
        !contains_seq(v, "qa"@),
        !contains_seq(v, "verify"@),
        !contains_seq(v, "test"@),
    ensures
        tone_of(v) == Tone::Cyan,
{
    reveal_strlit("progress");
    let done = seq!["done"@, "complete"@, "merged"@, "closed"@, "shipped"@];
    let review = seq!["review"@, "qa"@, "verify"@, "test"@];
    let progress = seq!["progress"@, "develop"@, "doing"@, "active"@];
    assert forall|i: int| 0 <= i < done.len() implies !contains_seq(v, #[trigger] done[i]) by {
        if i == 0 { assert(done[i] == "done"@); } else if i == 1 { assert(done[i] == "complete"@); }
        else if i == 2 { assert(done[i] == "merged"@); } else if i == 3 { assert(done[i] == "closed"@); }
        else { assert(done[i] == "shipped"@); }
    }
    assert forall|i: int| 0 <= i < review.len() implies !contains_seq(v, #[trigger] review[i]) by {
        if i == 0 { assert(review[i] == "review"@); } else if i == 1 { assert(review[i] == "qa"@); }
        else if i == 2 { assert(review[i] == "verify"@); } else { assert(review[i] == "test"@); }
    }
    lemma_none_mentioned(v, done);
    lemma_none_mentioned(v, review);
    assert(progress[0] == "progress"@);
    assert(mentions_any(v, progress));
    assert(v.len() > 0) by {
        let i = choose|i: int| 0 <= i && i + 8 <= v.len() && #[trigger] v.subrange(i, i + 8) == "progress"@;
    }
}

} // verus!
