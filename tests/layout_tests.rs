//! Multi-month layouts.

use cal::layout::{
    join_side_by_side, push_padded, render_month, render_month_vertical, render_months_count,
    render_months_count_for, render_months_side_by_side, render_three_months,
    render_three_months_vertical, render_twelve_months, render_year,
};
use cal::types::{
    CalContext, ColumnsMode, Date, HolidayBook, Locale, MonthData, ReformType, WeekType, Weekday,
};
use unicode_width::UnicodeWidthStr;

fn ctx() -> CalContext {
    CalContext {
        reform_year: ReformType::Year1752.reform_year(),
        week_start: Weekday::Mon,
        julian: false,
        week_numbers: false,
        week_type: WeekType::Iso,
        color: false,
        vertical: false,
        today: Date::new(2026, 2, 18),
        show_year_in_header: true,
        gutter_width: 2,
        columns: ColumnsMode::Fixed(3),
        span: false,
        holidays: false,
        locale: Locale::new("en_US"),
    }
}

#[test]
fn end_to_end_january_2024_monday_start() {
    let c = ctx();
    let m = MonthData::new(&c, 2024, 1);
    assert_eq!(m.days[0], Some(1));
    assert_eq!(m.days[30], Some(31));
    assert_eq!(m.days[31], None);
    let lines = render_month(&c, 2024, 1, &HolidayBook::empty());
    assert_eq!(lines[0], "    January 2024    ");
    assert_eq!(lines[1], "Mo Tu We Th Fr Sa Su");
    assert_eq!(lines[2], " 1  2  3  4  5  6  7");
    assert_eq!(lines[6], "29 30 31            ");
}

#[test]
fn join_pads_and_separates() {
    let grids = vec![
        vec!["ab".to_string(), "c".to_string()],
        vec!["日本".to_string()],
    ];
    let lines = join_side_by_side(&grids, 5, 2);
    assert_eq!(lines, vec!["ab     日本 ".to_string(), "c           ".to_string()]);
}

#[test]
fn side_by_side_months() {
    let c = ctx();
    let months = vec![MonthData::new(&c, 2024, 1), MonthData::new(&c, 2024, 2)];
    let lines = render_months_side_by_side(&c, &months);
    assert_eq!(lines.len(), 8);
    for line in &lines {
        assert_eq!(line.width(), 20 + 2 + 20);
    }
    assert_eq!(lines[0], "    January 2024          February 2024   ");
}

#[test]
fn three_months_row_and_year_rollover() {
    let c = ctx();
    let lines = render_three_months(&c, 2024, 1, &HolidayBook::empty());
    assert_eq!(lines.len(), 8);
    assert!(lines[0].starts_with("    December 2023"));
    assert!(lines[0].contains("January 2024"));
    assert!(lines[0].contains("February 2024"));
    assert_eq!(lines[0].width(), 64);
}

#[test]
fn vertical_month() {
    let mut c = ctx();
    c.vertical = true;
    c.gutter_width = 1;
    let m = MonthData::new(&c, 2024, 1);
    let lines = render_month_vertical(&c, &m, true);
    assert_eq!(lines.len(), 8);
    assert_eq!(lines[0], "    January 2024       ");
    assert_eq!(lines[1], "Mo  1  8 15 22 29   ");
    assert_eq!(lines[7], "Su  7 14 21 28      ");
    let single = render_month(&c, 2024, 1, &HolidayBook::empty());
    assert_eq!(single, lines);
}

#[test]
fn vertical_sunday_start_rows_hold_their_weekday() {
    let mut c = ctx();
    c.vertical = true;
    c.gutter_width = 1;
    c.week_start = Weekday::Sun;
    let m = MonthData::new(&c, 2024, 1);
    let lines = render_month_vertical(&c, &m, true);
    // January 2024 starts on a Monday: Sundays are 7, 14, 21, 28.
    assert_eq!(lines[1], "Su     7 14 21 28   ");
    assert_eq!(lines[2], "Mo  1  8 15 22 29   ");
    assert_eq!(lines[7], "Sa  6 13 20 27      ");
}

#[test]
fn padded_pieces() {
    let mut line = String::from("|");
    push_padded(&mut line, "日本", 4, 6, 2);
    assert_eq!(line, "|日本    ");
    let mut line = String::new();
    push_padded(&mut line, "abcdefg", 7, 5, 1);
    assert_eq!(line, "abcdefg ");
}

#[test]
fn vertical_three_months() {
    let mut c = ctx();
    c.vertical = true;
    c.gutter_width = 1;
    let months = vec![MonthData::new(&c, 2024, 1), MonthData::new(&c, 2024, 2)];
    let lines = render_three_months_vertical(&c, &months);
    assert_eq!(lines.len(), 9);
    assert_eq!(lines[0], "    January 2024       February 2024      ");
    assert_eq!(lines[1], "Mo  1  8 15 22 29         5 12 19 26   ");
    assert_eq!(lines[8], "");
}

#[test]
fn whole_year() {
    let c = ctx();
    let lines = render_year(&c, 2024, &HolidayBook::empty());
    assert_eq!(lines.len(), 2 + 4 * 8);
    assert_eq!(lines[0].trim(), "2024");
    assert_eq!(lines[0].len(), 66);
    assert_eq!(lines[1], "");
    assert!(lines[2].contains("January"));
    assert!(!lines[2].contains("2024"));
    assert_eq!(lines[2].width(), 20 * 3 + 3 * 2);
    let mut v = ctx();
    v.vertical = true;
    let lines = render_year(&v, 2024, &HolidayBook::empty());
    assert_eq!(lines.len(), 2 + 4 * 9);
    assert_eq!(lines[0].len(), 62);
}

#[test]
fn twelve_months_roll_over() {
    let c = ctx();
    let lines = render_twelve_months(&c, 2024, 11, &HolidayBook::empty());
    assert_eq!(lines.len(), 4 * 8);
    assert!(lines[0].contains("November 2024"));
    assert!(lines[0].contains("January 2025"));
    assert!(lines[24].contains("October 2025"));
    let mut v = ctx();
    v.vertical = true;
    let lines = render_twelve_months(&v, 2024, 11, &HolidayBook::empty());
    assert_eq!(lines.len(), 12 * 9);
    assert!(lines[0].contains("November 2024"));
}

#[test]
fn months_count_rows_and_span() {
    let c = ctx();
    let lines = render_months_count_for(&c, 2024, 1, 5, 2, &HolidayBook::empty());
    assert_eq!(lines.len(), 3 * 8);
    assert!(lines[0].contains("January 2024") && lines[0].contains("February 2024"));
    assert!(lines[16].contains("May 2024"));
    let mut s = ctx();
    s.span = true;
    let lines = render_months_count_for(&s, 2024, 1, 5, 5, &HolidayBook::empty());
    assert_eq!(lines.len(), 8);
    assert!(lines[0].starts_with("    November 2023"));
    assert!(lines[0].contains("March 2024"));
    let lines = render_months_count(&s, 2024, 1, 4, &HolidayBook::empty());
    assert!(lines[0].starts_with("    December 2023"));
    let none = render_months_count_for(&c, 2024, 1, 0, 3, &HolidayBook::empty());
    assert!(none.is_empty());
}

#[test]
fn holiday_book_highlights_days() {
    let mut c = ctx();
    c.color = true;
    let mut book = HolidayBook::empty();
    let mut codes = vec![0u32; 31];
    codes[7] = 8;
    book.add(2024, 1, codes);
    let lines = render_month(&c, 2024, 1, &book);
    assert!(lines[3].starts_with("\x1b[91m 8\x1b[0m"));
    assert_eq!(book.codes_for(2024, 1)[7], 8);
    assert!(book.codes_for(2024, 2).is_empty());
}
