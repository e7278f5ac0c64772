use ninjasana::asana::{Named, Story};
use ninjasana::settings::Column;
use ninjasana::ui::{
    centered, column_style, detail_layout, distribute_widths, field_value_style, fit, format_time, is_url, link_cells,
    month_name, nav_rows, quit_button, resize_handles, status_color, status_tone, task_mark, thread_line_count,
    title_height, visible_rows, wrapped_lines, CellStyle, DetailContent, DetailHeights, Tone,
};
use ninjasana::ui::{detail_layout_checked, distribute_widths_checked};
use ninjasana::zones::Rect;

fn rect(x: u16, y: u16, width: u16, height: u16) -> Rect {
    Rect { x, y, width, height }
}

fn story(kind: &str, text: &str) -> Story {
    Story {
        kind: kind.to_string(),
        text: text.to_string(),
        created_at: "2026-01-02T03:04:05.000Z".to_string(),
        created_by: Some(Named { name: "Ada".to_string() }),
    }
}

#[test]
fn fit_pads_or_truncates_to_the_width() {
    assert_eq!(fit("abc", 5), "abc  ");
    assert_eq!(fit("abcdef", 4), "abc…");
    assert_eq!(fit("abcdef", 1), "…");
    assert_eq!(fit("abc", 0), "");
    assert_eq!(fit("abc", 3), "abc");
    assert_eq!(fit("héllo wörld", 6).chars().count(), 6);
}

#[test]
fn wrapped_lines_counts_rows() {
    assert_eq!(wrapped_lines("", 10), 1);
    assert_eq!(wrapped_lines("abcdefghij", 5), 2);
    assert_eq!(wrapped_lines("abcdefghijk", 5), 3);
    assert_eq!(wrapped_lines("a\n\nb", 5), 3);
    assert_eq!(wrapped_lines("a\r\nb\n", 5), 2);
    assert_eq!(wrapped_lines("one\ntwo", 0), 2);
}

#[test]
fn time_links_and_month_names() {
    assert_eq!(format_time("2026-01-02T03:04:05.000Z"), "2026-01-02 03:04");
    assert_eq!(format_time("2026-01"), "2026-01");
    assert!(is_url("https://x.io"));
    assert!(is_url("http://x.io"));
    assert!(!is_url("ftp://x.io"));
    assert!(!is_url("see https://x.io"));
    assert_eq!(month_name(1), "January");
    assert_eq!(month_name(12), "December");
    assert_eq!(month_name(0), "January");
    assert_eq!(month_name(13), "");
}

#[test]
fn centered_rect() {
    assert_eq!(centered(rect(10, 4, 80, 24), 40, 10), rect(30, 11, 40, 10));
    assert_eq!(centered(rect(0, 0, 10, 5), 20, 8), rect(0, 0, 20, 8));
}

#[test]
fn status_colors_follow_the_keyword_groups() {
    assert_eq!(status_color(""), Tone::DarkGray);
    assert_eq!(status_color("Done"), Tone::Green);
    assert_eq!(status_color("In Review"), Tone::Magenta);
    assert_eq!(status_color("2. Development"), Tone::Cyan);
    assert_eq!(status_color("BLOCKED"), Tone::Red);
    assert_eq!(status_color("To Do"), Tone::Yellow);
    assert_eq!(status_color("Someday"), Tone::Blue);
    // The first matching group wins.
    assert_eq!(status_color("done testing"), Tone::Green);
    assert_eq!(status_tone("Done"), Tone::Blue);
}

#[test]
fn cell_styles() {
    assert_eq!(column_style(&Column::Name, "x"), CellStyle::Plain);
    assert_eq!(column_style(&Column::Tags, "x"), CellStyle::Tag);
    assert_eq!(column_style(&Column::Completed, "✓"), CellStyle::Done);
    assert_eq!(column_style(&Column::DueDate, "x"), CellStyle::Dim);
    assert_eq!(column_style(&Column::Custom("S".to_string()), "QA"), CellStyle::Pill(Tone::Magenta));
    assert_eq!(field_value_style(&Column::Custom("S".to_string()), ""), CellStyle::Plain);
    assert_eq!(field_value_style(&Column::Custom("S".to_string()), "Stuck"), CellStyle::Tinted(Tone::Red));
    assert_eq!(field_value_style(&Column::Assignee, "x"), CellStyle::Plain);
    assert_eq!(field_value_style(&Column::Tags, "x"), CellStyle::Tag);
}

#[test]
fn name_columns_share_what_fixed_columns_leave() {
    let columns = [Column::Name, Column::DueDate, Column::Tags];
    assert_eq!(distribute_widths(&columns, &[0, 10, 18], 60), vec![30, 10, 18]);
    assert_eq!(distribute_widths(&columns, &[0, 10, 18], 20), vec![12, 10, 18]);
    let two = [Column::Name, Column::Tags, Column::Name];
    assert_eq!(distribute_widths(&two, &[0, 8, 0], 50), vec![20, 8, 20]);
    let none = [Column::Tags];
    assert_eq!(distribute_widths(&none, &[7], 50), vec![7]);
}

#[test]
fn detail_regions_share_the_height() {
    let c = DetailContent {
        body_height: 40,
        show_description: true,
        property_rows: 4,
        subtask_rows: 2,
        description_lines: 3,
        thread_lines: 5,
    };
    let h = detail_layout(c);
    // props 6 (cap 13), subs 4 (cap 10), shared 40 - 4 - 10 = 26; wants 5 and 7.
    assert_eq!(h, DetailHeights { description: 5, properties: 6, subtasks: 4, thread: 21 });
    let tight = DetailContent { body_height: 20, show_description: true, property_rows: 0, subtask_rows: 0, description_lines: 30, thread_lines: 10 };
    // shared 16; wants 32 and 12: 16 * 32 / 44 = 11.
    assert_eq!(detail_layout(tight), DetailHeights { description: 11, properties: 0, subtasks: 0, thread: 5 });
    let no_desc = DetailContent { body_height: 12, show_description: false, property_rows: 0, subtask_rows: 0, description_lines: 0, thread_lines: 1 };
    assert_eq!(detail_layout(no_desc).thread, 8);
    assert_eq!(title_height(0), 1);
    assert_eq!(title_height(2), 2);
    assert_eq!(title_height(9), 3);
}

#[test]
fn thread_rows_count_header_text_and_gap() {
    let stories = vec![story("comment", "hi"), story("system", "moved\nto done"), story("comment", "")];
    assert_eq!(thread_line_count(&stories, true, 20), 6);
    assert_eq!(thread_line_count(&stories, false, 20), 10);
    assert_eq!(thread_line_count(&[], true, 20), 1);
    assert_eq!(thread_line_count(&[story("system", "x")], true, 20), 1);
}

#[test]
fn header_and_nav_geometry() {
    assert_eq!(quit_button(rect(1, 1, 40, 1)), Some(rect(34, 1, 6, 1)));
    assert_eq!(quit_button(rect(1, 1, 7, 1)), None);
    let rows = nav_rows(rect(1, 2, 20, 3), 5);
    assert_eq!(rows, vec![rect(1, 2, 20, 1), rect(1, 3, 20, 1), rect(1, 4, 20, 1)]);
    assert_eq!(nav_rows(rect(1, 2, 20, 10), 2).len(), 2);
}

#[test]
fn scrolled_rows() {
    assert_eq!(visible_rows(10, 3, 4), (3, 7));
    assert_eq!(visible_rows(10, 8, 4), (8, 10));
    assert_eq!(visible_rows(10, 50, 4), (9, 10));
    assert_eq!(visible_rows(0, 5, 4), (0, 0));
}

#[test]
fn resize_handles_sit_on_dividers() {
    let handles = resize_handles(rect(1, 2, 60, 10), &[20, 10, 18]);
    assert_eq!(handles, vec![rect(23, 2, 1, 10), rect(34, 2, 1, 10)]);
    assert!(resize_handles(rect(1, 2, 60, 10), &[20]).is_empty());
}

#[test]
fn marks_and_link_cells() {
    assert_eq!(task_mark(true, true), '≡');
    assert_eq!(task_mark(false, true), '✔');
    assert_eq!(task_mark(false, false), '○');
    let cells = link_cells(rect(0, 7, 40, 1), &[20, 10, 30], &[false, true, true]);
    // Cell 1 starts at 2 + 20 + 1 = 23; cell 2 at 34, clipped at the row's right edge (40).
    assert_eq!(cells, vec![(1, rect(23, 7, 10, 1)), (2, rect(34, 7, 6, 1))]);
    let none = link_cells(rect(0, 7, 20, 1), &[30, 5], &[false, true]);
    assert!(none.is_empty());
}

#[test]
fn checked_layouts_refuse_undefined_inputs() {
    let ok = DetailContent { body_height: 40, show_description: true, property_rows: 4, subtask_rows: 2, description_lines: 3, thread_lines: 5 };
    assert_eq!(detail_layout_checked(ok), Some(detail_layout(ok)));
    // Both want more than the five rows left: no split with three rows each.
    let cramped = DetailContent { body_height: 9, show_description: true, property_rows: 0, subtask_rows: 0, description_lines: 10, thread_lines: 10 };
    assert_eq!(detail_layout_checked(cramped), None);
    let columns = [Column::Name, Column::Tags];
    assert_eq!(distribute_widths_checked(&columns, &[0, 8], 40), Some(vec![31, 8]));
    assert_eq!(distribute_widths_checked(&columns, &[0], 40), None);
    assert_eq!(distribute_widths_checked(&columns, &[0, usize::MAX], 40), None);
}
