use ninjasana::settings::Column;
use ninjasana::table::{
    detail_placeholder, list_entries, property_label, property_shown, row_look, section_label, subtask_line,
    table_line, value_link, ListRow, RowLook,
};
use ninjasana::zones::Rect;

#[test]
fn list_rows_hide_collapsed_sections() {
    let rows = list_entries(&[(false, 2), (true, 3), (false, 0), (false, 1)]);
    assert_eq!(
        rows,
        vec![
            ListRow::Header(0),
            ListRow::Task(0, 0),
            ListRow::Task(0, 1),
            ListRow::Header(1),
            ListRow::Header(2),
            ListRow::Header(3),
            ListRow::Task(3, 0),
        ]
    );
    assert!(list_entries(&[]).is_empty());
}

#[test]
fn section_labels() {
    assert_eq!(section_label("Now", false, 12), " ▾ Now (12)");
    assert_eq!(section_label("Later", true, 0), " ▸ Later (0)");
}

#[test]
fn table_lines_fit_cells_between_dividers() {
    let cells = vec!["Write docs".to_string(), "2026-06-30".to_string(), "infra".to_string()];
    assert_eq!(table_line("○ ", &cells, &[6, 10, 3]), "○ Write…│2026-06-30│in…");
    assert_eq!(table_line("  ", &cells, &[4]), "  Wri…");
    assert_eq!(table_line("  ", &Vec::new(), &[4]), "  ");
}

#[test]
fn row_looks_by_precedence() {
    assert_eq!(row_look(true, true, true, true), RowLook::DropTarget);
    assert_eq!(row_look(true, true, true, false), RowLook::Grabbed);
    assert_eq!(row_look(true, true, false, false), RowLook::Selected);
    assert_eq!(row_look(false, true, false, false), RowLook::Completed);
    assert_eq!(row_look(false, false, false, false), RowLook::Coded);
}

#[test]
fn property_rows() {
    assert_eq!(property_label(&Column::DueDate), "Due Date: ");
    assert_eq!(property_label(&Column::Custom("Priority".to_string())), "Priority: ");
    assert_eq!(property_shown(""), "—");
    assert_eq!(property_shown("High"), "High");
    let row = Rect { x: 3, y: 8, width: 30, height: 1 };
    assert_eq!(value_link(row, 10), Some(Rect { x: 13, y: 8, width: 20, height: 1 }));
    assert_eq!(value_link(row, 30), None);
    assert_eq!(value_link(row, 45), None);
    assert_eq!(subtask_line("Ship it", true, 12), "✔ Ship it   ");
    assert_eq!(subtask_line("Ship it", false, 5), "○ Sh…");
    assert_eq!(detail_placeholder(true), "Loading…");
    assert_eq!(detail_placeholder(false), "Select a task to see its details.");
}

#[test]
fn header_and_rows_line_up() {
    let widths = [12, 10, 4];
    let titles = vec!["Name".to_string(), "Due Date".to_string(), "Done".to_string()];
    let row = vec!["A much longer task name".to_string(), "—".to_string(), "✓".to_string()];
    let header = table_line("  ", &titles, &widths);
    let line = table_line("○ ", &row, &widths);
    assert_eq!(header.chars().count(), 2 + 12 + 1 + 10 + 1 + 4);
    assert_eq!(line.chars().count(), header.chars().count());
}
