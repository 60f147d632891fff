//! Names, month parsing, headers and month grids.

use cal::formatter::{
    format_day, format_month_grid, format_month_header, format_weekday_headers, get_month_name,
    first_two_chars, get_weekday_order, get_weekday_short_name, month_from_folded_name, parse_month,
};
use cal::text::{center_in, center_text};
use cal::types::{CalContext, ColumnsMode, Date, Locale, MonthData, ReformType, WeekType, Weekday};
use unicode_width::UnicodeWidthStr;

fn base_context() -> CalContext {
    CalContext {
        reform_year: ReformType::Year1752.reform_year(),
        week_start: Weekday::Mon,
        julian: false,
        week_numbers: false,
        week_type: WeekType::Iso,
        color: false,
        vertical: false,
        today: Date::new(2026, 2, 18),
        show_year_in_header: true,
        gutter_width: 2,
        columns: ColumnsMode::Auto,
        span: false,
        holidays: false,
        locale: Locale::new("ru_RU"),
    }
}

fn ru() -> Locale {
    Locale::new("ru_RU")
}

// Month parsing

#[test]
fn test_parse_month_numeric() {
    for (input, expected) in [
        ("1", Some(1)),
        ("2", Some(2)),
        ("12", Some(12)),
        ("0", None),
        ("13", None),
        ("abc", None),
    ] {
        assert_eq!(parse_month(input), expected, "Failed for input: {}", input);
    }
}

#[test]
fn test_parse_month_english_names() {
    assert_eq!(parse_month("january"), Some(1));
    assert_eq!(parse_month("January"), Some(1));
    assert_eq!(parse_month("JANUARY"), Some(1));
    assert_eq!(parse_month("february"), Some(2));
    assert_eq!(parse_month("december"), Some(12));
}

#[test]
fn test_parse_month_english_short() {
    assert_eq!(parse_month("jan"), Some(1));
    assert_eq!(parse_month("feb"), Some(2));
    assert_eq!(parse_month("mar"), Some(3));
    assert_eq!(parse_month("apr"), Some(4));
    assert_eq!(parse_month("jun"), Some(6));
    assert_eq!(parse_month("jul"), Some(7));
    assert_eq!(parse_month("aug"), Some(8));
    assert_eq!(parse_month("sep"), Some(9));
    assert_eq!(parse_month("oct"), Some(10));
    assert_eq!(parse_month("nov"), Some(11));
    assert_eq!(parse_month("dec"), Some(12));
}

#[test]
fn test_parse_month_russian() {
    assert_eq!(parse_month("январь"), Some(1));
    assert_eq!(parse_month("февраль"), Some(2));
    assert_eq!(parse_month("декабрь"), Some(12));
}

#[test]
fn numeric_valid() {
    for n in 1..=12 {
        assert_eq!(parse_month(&n.to_string()), Some(n));
    }
}

#[test]
fn numeric_invalid() {
    assert_eq!(parse_month("0"), None);
    assert_eq!(parse_month("13"), None);
    assert_eq!(parse_month("-1"), None);
    assert_eq!(parse_month("999"), None);
}

#[test]
fn english_full_names() {
    let names = [
        "january",
        "february",
        "march",
        "april",
        "may",
        "june",
        "july",
        "august",
        "september",
        "october",
        "november",
        "december",
    ];
    for (i, name) in names.iter().enumerate() {
        assert_eq!(parse_month(name), Some(i as u32 + 1), "{name}");
    }
}

#[test]
fn english_case_insensitive() {
    assert_eq!(parse_month("January"), Some(1));
    assert_eq!(parse_month("JANUARY"), Some(1));
    assert_eq!(parse_month("jAnUaRy"), Some(1));
}

#[test]
fn english_abbreviations() {
    let abbrevs = [
        ("jan", 1),
        ("feb", 2),
        ("mar", 3),
        ("apr", 4),
        ("jun", 6),
        ("jul", 7),
        ("aug", 8),
        ("sep", 9),
        ("oct", 10),
        ("nov", 11),
        ("dec", 12),
    ];
    for (abbr, expected) in abbrevs {
        assert_eq!(parse_month(abbr), Some(expected), "{abbr}");
    }
}

#[test]
fn russian_names() {
    let names = [
        ("январь", 1),
        ("февраль", 2),
        ("март", 3),
        ("апрель", 4),
        ("май", 5),
        ("июнь", 6),
        ("июль", 7),
        ("август", 8),
        ("сентябрь", 9),
        ("октябрь", 10),
        ("ноябрь", 11),
        ("декабрь", 12),
    ];
    for (name, expected) in names {
        assert_eq!(parse_month(name), Some(expected), "{name}");
    }
}

#[test]
fn garbage_input() {
    assert_eq!(parse_month("abc"), None);
    assert_eq!(parse_month(""), None);
    assert_eq!(parse_month("hello"), None);
}

#[test]
fn parse_month_signs_and_case() {
    assert_eq!(parse_month("+3"), Some(3));
    assert_eq!(parse_month("05"), Some(5));
    assert_eq!(parse_month("ЯНВАРЬ"), Some(1));
    assert_eq!(parse_month("Sep"), Some(9));
    assert_eq!(parse_month("4294967296"), None);
}

#[test]
fn folded_names_round_trip() {
    let table = [
        ("january", 1), ("february", 2), ("march", 3), ("april", 4), ("may", 5),
        ("june", 6), ("july", 7), ("august", 8), ("september", 9), ("october", 10),
        ("november", 11), ("december", 12), ("январь", 1), ("февраль", 2), ("март", 3),
        ("апрель", 4), ("май", 5), ("июнь", 6), ("июль", 7), ("август", 8),
        ("сентябрь", 9), ("октябрь", 10), ("ноябрь", 11), ("декабрь", 12), ("jan", 1),
        ("feb", 2), ("mar", 3), ("apr", 4), ("jun", 6), ("jul", 7), ("aug", 8),
        ("sep", 9), ("oct", 10), ("nov", 11), ("dec", 12),
    ];
    for (name, n) in table {
        assert_eq!(month_from_folded_name(name), Some(n), "{name}");
        assert_eq!(parse_month(name), Some(n), "{name}");
    }
    assert_eq!(month_from_folded_name("January"), None);
}

// Month names and headers

#[test]
fn month_names_by_locale() {
    assert_eq!(get_month_name(&ru(), 2), "Февраль");
    assert_eq!(get_month_name(&Locale::new("uk_UA"), 3), "Березень");
    assert_eq!(get_month_name(&Locale::new("be_BY"), 12), "Снежань");
    assert_eq!(get_month_name(&Locale::new("en_US"), 1), "January");
    assert_eq!(get_month_name(&Locale::new("de_DE"), 3), "März");
    assert_eq!(get_month_name(&Locale::new("xx_YY"), 5), "May");
}

#[test]
fn test_month_header_format() {
    let header = format_month_header(2026, 2, 20, true, false, &ru());
    assert!(header.contains("Февраль"));
    assert!(header.contains("2026"));
    assert!(header.width() >= 20);
}

#[test]
fn test_month_header_without_year() {
    let header = format_month_header(2026, 2, 20, false, false, &ru());
    assert!(header.contains("Февраль"));
    assert!(!header.contains("2026"));
}

#[test]
fn test_month_header_with_color() {
    let header = format_month_header(2026, 2, 20, true, true, &ru());
    assert!(header.contains("\x1b[96m"));
    assert!(header.contains("\x1b[0m"));
}

#[test]
fn test_color_codes_in_header() {
    let header = format_month_header(2024, 1, 20, true, true, &ru());
    assert!(header.starts_with("\x1b[96m"));
    assert!(header.ends_with("\x1b[0m"));
}

#[test]
fn test_no_color_codes_when_disabled() {
    let header = format_month_header(2024, 1, 20, true, false, &ru());
    assert!(!header.contains("\x1b[96m"));
    assert!(!header.contains("\x1b[0m"));
}

#[test]
fn test_header_width_consistency() {
    let width = 20;
    let header1 = format_month_header(2024, 1, width, true, false, &ru());
    let header2 = format_month_header(2024, 12, width, true, false, &ru());
    assert_eq!(header1.width(), width);
    assert_eq!(header2.width(), width);
}

#[test]
fn month_header_with_year() {
    let header = format_month_header(2026, 2, 20, true, false, &ru());
    assert!(header.contains("2026"));
    assert_eq!(header.width(), 20);
}

#[test]
fn month_header_without_year() {
    let header = format_month_header(2026, 2, 20, false, false, &ru());
    assert!(!header.contains("2026"));
}

#[test]
fn month_header_color_codes() {
    let colored = format_month_header(2026, 2, 20, true, true, &ru());
    assert!(colored.starts_with("\x1b[96m"));
    assert!(colored.ends_with("\x1b[0m"));
    let plain = format_month_header(2026, 2, 20, true, false, &ru());
    assert!(!plain.contains("\x1b["));
}

#[test]
fn header_width_consistent_across_months() {
    for month in 1..=12 {
        let h = format_month_header(2024, month, 20, true, false, &ru());
        assert_eq!(h.width(), 20, "month {month}");
    }
}

#[test]
fn month_header_exact_centering() {
    // "Февраль 2026" is 12 columns wide: 8 columns of slack, 4 on each side.
    assert_eq!(format_month_header(2026, 2, 20, true, false, &ru()), "    Февраль 2026    ");
    // "May 2024" is 8 wide in 21 columns: 13 of slack, 7 left and 6 right.
    assert_eq!(
        format_month_header(2024, 5, 21, true, false, &Locale::new("en_US")),
        "       May 2024      "
    );
}

#[test]
fn center_in_given_width() {
    assert_eq!(center_in("ab", 2, 7), "   ab  ");
    assert_eq!(center_in("日本", 4, 9), "   日本  ");
    assert_eq!(center_in("abc", 5, 4), "abc");
}

#[test]
fn first_two_characters() {
    assert_eq!(first_two_chars("Пн."), "Пн");
    assert_eq!(first_two_chars("M"), "M");
    assert_eq!(first_two_chars(""), "");
}

#[test]
fn center_text_by_display_width() {
    assert_eq!(center_text("ab", 7), "   ab  ");
    assert_eq!(center_text("abc", 3), "abc");
    assert_eq!(center_text("abcdef", 3), "abcdef");
    // Wide glyphs count two columns each.
    let wide = center_text("日本", 9);
    assert_eq!(wide, "   日本  ");
    assert_eq!(wide.width(), 9);
    for f in 4..12 {
        let c = center_text("abcd", f);
        assert_eq!(c.width(), f);
        let left = c.len() - c.trim_start().len();
        assert_eq!(left, (f - 4 + 1) / 2);
    }
}

// Weekday names and header row

#[test]
fn weekday_short_names() {
    assert_eq!(get_weekday_short_name(Weekday::Mon, &ru()), "Пн");
    assert_eq!(get_weekday_short_name(Weekday::Sun, &ru()), "Вс");
    assert_eq!(get_weekday_short_name(Weekday::Mon, &Locale::new("en_US")), "Mo");
    assert_eq!(get_weekday_short_name(Weekday::Sat, &Locale::new("en_US")), "Sa");
}

#[test]
fn test_weekday_header_structure_monday_start() {
    let ctx = base_context();
    let header = format_weekday_headers(&ctx, false);
    assert!(header.contains("Пн"));
    assert!(header.contains("Вт"));
    assert!(header.contains("Ср"));
    assert!(header.contains("Чт"));
    assert!(header.contains("Пт"));
    assert!(header.contains("Сб"));
    assert!(header.contains("Вс"));
    let mon_pos = header.find("Пн").unwrap();
    let tue_pos = header.find("Вт").unwrap();
    assert!(mon_pos < tue_pos);
}

#[test]
fn test_weekday_header_structure_sunday_start() {
    let mut ctx = base_context();
    ctx.week_start = Weekday::Sun;
    let header = format_weekday_headers(&ctx, false);
    let sun_pos = header.find("Вс").unwrap();
    let mon_pos = header.find("Пн").unwrap();
    assert!(sun_pos < mon_pos);
}

#[test]
fn test_weekday_header_with_week_numbers() {
    let mut ctx = base_context();
    ctx.week_numbers = true;
    let header = format_weekday_headers(&ctx, false);
    assert!(header.len() > 20);
}

#[test]
fn test_weekday_header_with_julian() {
    let mut ctx = base_context();
    ctx.julian = true;
    let header = format_weekday_headers(&ctx, false);
    assert!(header.starts_with(" "));
}

#[test]
fn test_weekday_header_color_placement() {
    let mut ctx = base_context();
    ctx.color = true;
    let header = format_weekday_headers(&ctx, false);
    assert!(header.starts_with("\x1b[93m"));
    assert!(header.ends_with("\x1b[0m"));
}

#[test]
fn test_weekday_header_no_color_when_disabled() {
    let mut ctx = base_context();
    ctx.color = false;
    let header = format_weekday_headers(&ctx, false);
    assert!(!header.contains("\x1b[93m"));
    assert!(!header.contains("\x1b[0m"));
}

#[test]
fn weekday_header_monday_start() {
    let ctx = base_context();
    let header = format_weekday_headers(&ctx, false);
    let mon_pos = header.find("Пн").unwrap();
    let sun_pos = header.find("Вс").unwrap();
    assert!(mon_pos < sun_pos);
}

#[test]
fn weekday_header_sunday_start() {
    let mut ctx = base_context();
    ctx.week_start = Weekday::Sun;
    let header = format_weekday_headers(&ctx, false);
    let sun_pos = header.find("Вс").unwrap();
    let mon_pos = header.find("Пн").unwrap();
    assert!(sun_pos < mon_pos);
}

#[test]
fn weekday_header_color() {
    let mut ctx = base_context();
    ctx.color = true;
    let header = format_weekday_headers(&ctx, false);
    assert!(header.starts_with("\x1b[93m"));
    assert!(header.ends_with("\x1b[0m"));
    ctx.color = false;
    let header = format_weekday_headers(&ctx, false);
    assert!(!header.contains("\x1b["));
}

#[test]
fn weekday_header_julian_mode_has_extra_space() {
    let mut ctx = base_context();
    ctx.julian = true;
    let header = format_weekday_headers(&ctx, false);
    assert!(header.starts_with(' '));
}

#[test]
fn weekday_header_exact_rows() {
    let ctx = base_context();
    assert_eq!(format_weekday_headers(&ctx, false), "Пн Вт Ср Чт Пт Сб Вс");
    assert_eq!(format_weekday_headers(&ctx, true), "   Пн Вт Ср Чт Пт Сб Вс");
    let mut julian = base_context();
    julian.julian = true;
    assert_eq!(format_weekday_headers(&julian, false), " Пн  Вт  Ср  Чт  Пт  Сб   Вс");
}

#[test]
fn weekday_order_monday_start() {
    let order = get_weekday_order(Weekday::Mon);
    assert_eq!(order[0], Weekday::Mon);
    assert_eq!(order[6], Weekday::Sun);
}

#[test]
fn weekday_order_sunday_start() {
    let order = get_weekday_order(Weekday::Sun);
    assert_eq!(order[0], Weekday::Sun);
    assert_eq!(order[6], Weekday::Sat);
}

#[test]
fn test_vertical_layout_weekday_order() {
    let ctx = base_context();
    let weekday_order = get_weekday_order(ctx.week_start);
    assert_eq!(weekday_order[0], Weekday::Mon);
    assert_eq!(weekday_order[6], Weekday::Sun);
}

// Day cells

#[test]
fn day_cell_color_precedence() {
    let mut ctx = base_context();
    assert_eq!(format_day(&ctx, 7, 2, 2026, Weekday::Sat, false, 8), " 7 ");
    ctx.color = true;
    // Today wins over everything.
    assert_eq!(format_day(&ctx, 18, 2, 2026, Weekday::Sat, true, 2), "\x1b[7m18\x1b[0m");
    // A shortened day wins over a weekend.
    assert_eq!(format_day(&ctx, 7, 2, 2026, Weekday::Sat, true, 2), "\x1b[96m 7\x1b[0m");
    // Weekend, public holiday, holiday weekend.
    assert_eq!(format_day(&ctx, 7, 2, 2026, Weekday::Sat, false, 0), "\x1b[91m 7\x1b[0m ");
    assert_eq!(format_day(&ctx, 9, 2, 2026, Weekday::Mon, false, 8), "\x1b[91m 9\x1b[0m ");
    assert_eq!(format_day(&ctx, 9, 2, 2026, Weekday::Mon, false, 1), "\x1b[91m 9\x1b[0m ");
    // Unknown codes and working days are plain.
    assert_eq!(format_day(&ctx, 10, 2, 2026, Weekday::Tue, false, 0), "10 ");
    assert_eq!(format_day(&ctx, 10, 2, 2026, Weekday::Tue, true, 5), "10");
}

// Month grids

#[test]
fn test_month_grid_line_count() {
    let ctx = base_context();
    let month = MonthData::new(&ctx, 2024, 1);
    let grid = format_month_grid(&ctx, &month);
    assert!(grid.len() >= 8);
    assert!(grid.len() <= 9);
}

#[test]
fn test_month_grid_first_line_is_header() {
    let ctx = base_context();
    let month = MonthData::new(&ctx, 2024, 1);
    let grid = format_month_grid(&ctx, &month);
    assert!(grid[0].contains("Январь"));
    assert!(grid[0].contains("2024"));
}

#[test]
fn test_month_grid_second_line_is_weekdays() {
    let ctx = base_context();
    let month = MonthData::new(&ctx, 2024, 1);
    let grid = format_month_grid(&ctx, &month);
    assert!(grid[1].contains("Пн"));
}

#[test]
fn test_month_grid_contains_day_1() {
    let ctx = base_context();
    let month = MonthData::new(&ctx, 2024, 1);
    let grid = format_month_grid(&ctx, &month);
    let days_area: String = grid[2..].join("\n");
    assert!(days_area.contains(" 1"));
}

#[test]
fn test_month_grid_contains_last_day() {
    let ctx = base_context();
    let month = MonthData::new(&ctx, 2024, 1);
    let grid = format_month_grid(&ctx, &month);
    let days_area: String = grid[2..].join("\n");
    assert!(days_area.contains("31"));
}

#[test]
fn test_month_grid_february_leap_year() {
    let ctx = base_context();
    let month = MonthData::new(&ctx, 2024, 2);
    let grid = format_month_grid(&ctx, &month);
    let days_area: String = grid[2..].join("\n");
    assert!(days_area.contains("29"));
}

#[test]
fn test_month_grid_february_non_leap_year() {
    let ctx = base_context();
    let month = MonthData::new(&ctx, 2023, 2);
    let grid = format_month_grid(&ctx, &month);
    let days_area: String = grid[2..].join("\n");
    assert!(days_area.contains("28"));
    assert!(!days_area.contains("29"));
}

#[test]
fn test_day_alignment_in_grid() {
    let ctx = base_context();
    let month = MonthData::new(&ctx, 2024, 1);
    let grid = format_month_grid(&ctx, &month);
    let expected_width = grid[2].width();
    for (i, line) in grid.iter().enumerate().skip(2) {
        assert_eq!(line.width(), expected_width, "Line {} has inconsistent width", i);
    }
}

#[test]
fn grid_structure() {
    let ctx = base_context();
    let m = MonthData::new(&ctx, 2024, 1);
    let grid = format_month_grid(&ctx, &m);
    assert!(grid.len() >= 8 && grid.len() <= 9);
    assert!(grid[0].contains("Январь"));
    assert!(grid[0].contains("2024"));
    assert!(grid[1].contains("Пн"));
}

#[test]
fn grid_contains_all_days() {
    let ctx = base_context();
    let m = MonthData::new(&ctx, 2024, 1);
    let grid = format_month_grid(&ctx, &m);
    let body: String = grid[2..].join("\n");
    assert!(body.contains(" 1"));
    assert!(body.contains("15"));
    assert!(body.contains("31"));
}

#[test]
fn grid_february_leap() {
    let ctx = base_context();
    let m = MonthData::new(&ctx, 2024, 2);
    let grid = format_month_grid(&ctx, &m);
    let body: String = grid[2..].join("\n");
    assert!(body.contains("29"));
}

#[test]
fn grid_february_non_leap() {
    let ctx = base_context();
    let m = MonthData::new(&ctx, 2023, 2);
    let grid = format_month_grid(&ctx, &m);
    let body: String = grid[2..].join("\n");
    assert!(body.contains("28"));
    assert!(!body.contains("29"));
}

#[test]
fn grid_day_rows_consistent_width() {
    let ctx = base_context();
    let m = MonthData::new(&ctx, 2024, 1);
    let grid = format_month_grid(&ctx, &m);
    let expected_width = grid[2].width();
    for (i, line) in grid.iter().enumerate().skip(2) {
        assert_eq!(line.width(), expected_width, "line {i}");
    }
}

#[test]
fn grid_with_week_numbers() {
    let mut ctx = base_context();
    ctx.week_numbers = true;
    let m = MonthData::new(&ctx, 2024, 1);
    let grid = format_month_grid(&ctx, &m);
    assert!(grid[2].width() > 20);
}

#[test]
fn grid_exact_rows_january_2024() {
    let ctx = base_context();
    let m = MonthData::new(&ctx, 2024, 1);
    let grid = format_month_grid(&ctx, &m);
    assert_eq!(grid.len(), 8);
    assert_eq!(grid[0], "     Январь 2024    ");
    assert_eq!(grid[2], " 1  2  3  4  5  6  7");
    assert_eq!(grid[6], "29 30 31            ");
    assert_eq!(grid[7], "                    ");
}

#[test]
fn grid_julian_and_week_number_columns() {
    let mut ctx = base_context();
    ctx.julian = true;
    let m = MonthData::new(&ctx, 2024, 2);
    let grid = format_month_grid(&ctx, &m);
    assert_eq!(grid[2], "             32  33  34  35");
    let mut wctx = base_context();
    wctx.week_numbers = true;
    let m = MonthData::new(&wctx, 2024, 1);
    let grid = format_month_grid(&wctx, &m);
    assert_eq!(grid[2], " 1  1  2  3  4  5  6  7");
    assert_eq!(grid[7], "                       ");
}

#[test]
fn grid_september_1752_rows() {
    let ctx = base_context();
    let m = MonthData::new(&ctx, 1752, 9);
    let grid = format_month_grid(&ctx, &m);
    assert_eq!(grid[2], "             1  2   ");
    assert_eq!(grid[3], "                    ");
    assert_eq!(grid[4], "         14 15 16 17");
}

#[test]
fn grid_holiday_codes_and_today() {
    let mut ctx = base_context();
    ctx.color = true;
    let mut codes = vec![0u32; 28];
    codes[22] = 8;
    codes[19] = 2;
    let m = MonthData::new(&ctx, 2026, 2).with_holiday_codes(codes);
    let grid = format_month_grid(&ctx, &m);
    let body: String = grid[2..].join("\n");
    assert!(body.contains("\x1b[91m23\x1b[0m"));
    assert!(body.contains("\x1b[96m20\x1b[0m"));
    assert!(body.contains("\x1b[7m18\x1b[0m"));
    assert!(body.contains("\x1b[91m 1\x1b[0m"));
}
