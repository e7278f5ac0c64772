use ninjasana::calendar::{date_picker_layout, date_picker_today, today_in_month};
use ninjasana::config::{entered_token, Config, LoginError, DEFAULT_BASE_URL};
use ninjasana::zones::Rect;

fn rect(x: u16, y: u16, width: u16, height: u16) -> Rect {
    Rect { x, y, width, height }
}

#[test]
fn leap_february_has_29_day_cells() {
    let inner = rect(10, 5, 28, 10);
    let l = date_picker_layout(inner, 2024, 2).unwrap();
    assert_eq!(l.days.len(), 29);
    // 2024-02-01 was a Thursday (4): first cell in the fifth column.
    assert_eq!(l.days[0], rect(10 + 4 * 3, 7, 2, 1));
    // The 4th is a Sunday, on the next row.
    assert_eq!(l.days[3], rect(10, 8, 2, 1));
    assert_eq!(date_picker_layout(inner, 2023, 2).unwrap().days.len(), 28);
    assert_eq!(date_picker_layout(inner, 1900, 2).unwrap().days.len(), 28);
    assert_eq!(date_picker_layout(inner, 2000, 2).unwrap().days.len(), 29);
}

#[test]
fn september_2024_starts_on_sunday() {
    let inner = rect(3, 4, 21, 8);
    let l = date_picker_layout(inner, 2024, 9).unwrap();
    assert_eq!(l.days.len(), 30);
    assert_eq!(l.days[0], rect(3, 6, 2, 1));
    assert_eq!(l.days[29], rect(3 + 3, 6 + 4, 2, 1));
    assert_eq!(l.header, rect(3, 4, 21, 1));
    assert_eq!(l.prev, rect(3, 4, 1, 1));
    assert_eq!(l.next, rect(23, 4, 1, 1));
    assert_eq!(l.weekdays, rect(3, 5, 21, 1));
    assert_eq!(l.today, rect(3, 11, 7, 1));
    assert_eq!(l.clear, rect(11, 11, 7, 1));
}

#[test]
fn small_boxes_get_no_picker() {
    assert!(date_picker_layout(rect(0, 0, 20, 8), 2024, 1).is_none());
    assert!(date_picker_layout(rect(0, 0, 21, 7), 2024, 1).is_none());
}

#[test]
fn config_needs_a_non_blank_token() {
    assert!(Config::from_values(None, None).is_none());
    assert!(Config::from_values(Some("  \t".to_string()), None).is_none());
    let c = Config::from_values(Some("tok".to_string()), None).unwrap();
    assert_eq!(c.token, "tok");
    assert_eq!(c.base_url, DEFAULT_BASE_URL);
    let c = Config::from_values(Some("tok".to_string()), Some("http://localhost:1".to_string())).unwrap();
    assert_eq!(c.base_url, "http://localhost:1");
    let c = Config::with_token("abc".to_string());
    assert_eq!((c.token.as_str(), c.base_url.as_str()), ("abc", "https://app.asana.com/api/1.0"));
}

#[test]
fn entered_tokens_are_trimmed() {
    assert_eq!(entered_token(Some("  pat-123 \n".to_string())), Ok("pat-123".to_string()));
    assert_eq!(entered_token(Some("   ".to_string())), Err(LoginError::NoToken));
    assert_eq!(entered_token(None), Err(LoginError::NoToken));
    assert_eq!(LoginError::NoToken.message(), "no token entered");
}

#[test]
fn a_six_row_month_stays_inside_the_smallest_box() {
    // March 2025 starts on a Saturday and has 31 days: six rows of days.
    let inner = rect(0, 0, 21, 8);
    let l = date_picker_layout(inner, 2025, 3).unwrap();
    assert_eq!(l.days[0], rect(18, 2, 2, 1));
    let last = l.days[30];
    assert_eq!(last, rect(3, 7, 2, 1));
    for cell in &l.days {
        assert!(cell.x + cell.width <= 21 && cell.y >= 2 && cell.y < 8);
    }
}

#[test]
fn today_is_highlighted_only_in_its_month() {
    assert_eq!(today_in_month(2026, 6, (2026, 6, 30)), Some(30));
    assert_eq!(today_in_month(2026, 7, (2026, 6, 30)), None);
    assert_eq!(today_in_month(2025, 6, (2026, 6, 30)), None);
    if let Some(d) = date_picker_today(2026, 6) {
        assert!((1..=30).contains(&d));
    }
}

#[test]
fn any_year_gets_a_grid_and_bad_months_get_none() {
    let inner = rect(0, 0, 21, 8);
    // Beyond the years the date library handles, the month starts on Sunday.
    let far = date_picker_layout(inner, 10000, 2).unwrap();
    assert_eq!(far.days.len(), 29);
    assert_eq!(far.days[0], rect(0, 2, 2, 1));
    assert!(date_picker_layout(inner, 2024, 13).is_none());
    assert!(date_picker_layout(inner, 2024, 0).is_none());
    // 1 January of year 0 was a Saturday.
    assert_eq!(date_picker_layout(inner, 0, 1).unwrap().days[0], rect(18, 2, 2, 1));
}
