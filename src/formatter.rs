//! Localized names, month-name parsing, headers, the weekday row, day cells
//! and the row layout of one month. Renderers return lines; printing is the
//! caller's part.

use vstd::prelude::*;

use crate::calendar::{day_of_year_spec, valid_year_month};
use crate::text::{
    center_text, centered, decimal, display_width_of, lowercase_of, parse_u32, parse_u32_spec,
    locale_name, locale_name_spec, push_decimal, push_right_justified, right_justified, str_eq, to_lowercase,
};
use crate::types::{
    CalContext, Locale, MonthData, MonthView, Weekday, COLOR_RED, COLOR_RESET, COLOR_REVERSE,
    COLOR_SAND_YELLOW, COLOR_TEAL,
};

verus! {

/// Full month name of a locale as chrono's localized `%B` gives it (an unknown
/// locale tag falls back to `en_US`).
pub uninterp spec fn localized_month_name(tag: Seq<char>, month: int) -> Seq<char>;

/// Abbreviated weekday name (Monday = 0) of a locale as chrono's localized
/// `%a` gives it (an unknown locale tag falls back to `en_US`).
pub uninterp spec fn localized_weekday_abbrev(tag: Seq<char>, from_monday: int) -> Seq<char>;

/// Relies on chrono's `NaiveDate::format_localized` with `%B` and on
/// pure-rust-locales' `Locale::try_from`: the month's full name in a locale.
#[verifier::external_body]
fn chrono_month_name(tag: &str, month: u32) -> (r: String)
    requires
        1 <= month <= 12,
    ensures
        r@ == localized_month_name(tag@, month as int),
{
    let locale = chrono::Locale::try_from(tag).unwrap_or(chrono::Locale::en_US);
    let date = chrono::NaiveDate::from_ymd_opt(2000, month, 1).unwrap();
    date.format_localized("%B", locale).to_string()
}

/// Relies on chrono's `NaiveDate::format_localized` with `%a` and on
/// pure-rust-locales' `Locale::try_from`: the abbreviated weekday name of
/// `day` January 2000 (the 3rd is a Monday) in a locale.
#[verifier::external_body]
fn chrono_weekday_abbrev(tag: &str, day: u32) -> (r: String)
    requires
        3 <= day <= 9,
    ensures
        r@ == localized_weekday_abbrev(tag@, day - 3),
{
    let locale = chrono::Locale::try_from(tag).unwrap_or(chrono::Locale::en_US);
    let date = chrono::NaiveDate::from_ymd_opt(2000, 1, day).unwrap();
    date.format_localized("%a", locale).to_string()
}

impl Locale {
    /// A locale from its tag, such as `ru_RU`.
    pub fn new(tag: &str) -> (r: Locale)
        ensures
            r.tag@ == tag@,
    {
        Locale { tag: String::from_str(tag) }
    }

    /// The locale of a setting read from the environment (`LC_ALL`, else
    /// `LC_TIME`, else `LANG`): its name without encoding or modifier; `en_US`
    /// when none is set.
    pub fn from_environment(value: Option<&str>) -> (r: Locale)
        ensures
            r.tag@ == match value {
                Some(v) => locale_name_spec(v@),
                None => "en_US"@,
            },
    {
        match value {
            Some(v) => Locale { tag: locale_name(v) },
            None => Locale::new("en_US"),
        }
    }
}

/// Russian month names in the nominative case.
pub open spec fn ru_month(m: int) -> Seq<char> {
    if m == 1 {
        "Январь"@
    } else if m == 2 {
        "Февраль"@
    } else if m == 3 {
        "Март"@
    } else if m == 4 {
        "Апрель"@
    } else if m == 5 {
        "Май"@
    } else if m == 6 {
        "Июнь"@
    } else if m == 7 {
        "Июль"@
    } else if m == 8 {
        "Август"@
    } else if m == 9 {
        "Сентябрь"@
    } else if m == 10 {
        "Октябрь"@
    } else if m == 11 {
        "Ноябрь"@
    } else {
        "Декабрь"@
    }
}

/// Ukrainian month names in the nominative case.
pub open spec fn uk_month(m: int) -> Seq<char> {
    if m == 1 {
        "Січень"@
    } else if m == 2 {
        "Лютий"@
    } else if m == 3 {
        "Березень"@
    } else if m == 4 {
        "Квітень"@
    } else if m == 5 {
        "Травень"@
    } else if m == 6 {
        "Червень"@
    } else if m == 7 {
        "Липень"@
    } else if m == 8 {
        "Серпень"@
    } else if m == 9 {
        "Вересень"@
    } else if m == 10 {
        "Жовтень"@
    } else if m == 11 {
        "Листопад"@
    } else {
        "Грудень"@
    }
}

/// Belarusian month names in the nominative case.
pub open spec fn be_month(m: int) -> Seq<char> {
    if m == 1 {
        "Студзень"@
    } else if m == 2 {
        "Люты"@
    } else if m == 3 {
        "Сакавік"@
    } else if m == 4 {
        "Красавік"@
    } else if m == 5 {
        "Май"@
    } else if m == 6 {
        "Чэрвень"@
    } else if m == 7 {
        "Ліпень"@
    } else if m == 8 {
        "Жнівень"@
    } else if m == 9 {
        "Верасень"@
    } else if m == 10 {
        "Кастрычнік"@
    } else if m == 11 {
        "Лістапад"@
    } else {
        "Снежань"@
    }
}

/// Month name in a locale: Russian, Ukrainian and Belarusian from the tables
/// above (nominative case), every other locale from chrono.
pub open spec fn month_name_spec(tag: Seq<char>, m: int) -> Seq<char> {
    if tag == "ru_RU"@ {
        ru_month(m)
    } else if tag == "uk_UA"@ {
        uk_month(m)
    } else if tag == "be_BY"@ {
        be_month(m)
    } else {
        localized_month_name(tag, m)
    }
}

fn ru_month_name(m: u32) -> (r: &'static str)
    ensures
        r@ == ru_month(m as int),
{
    match m {
        1 => "Январь",
        2 => "Февраль",
        3 => "Март",
        4 => "Апрель",
        5 => "Май",
        6 => "Июнь",
        7 => "Июль",
        8 => "Август",
        9 => "Сентябрь",
        10 => "Октябрь",
        11 => "Ноябрь",
        _ => "Декабрь",
    }
}

fn uk_month_name(m: u32) -> (r: &'static str)
    ensures
        r@ == uk_month(m as int),
{
    match m {
        1 => "Січень",
        2 => "Лютий",
        3 => "Березень",
        4 => "Квітень",
        5 => "Травень",
        6 => "Червень",
        7 => "Липень",
        8 => "Серпень",
        9 => "Вересень",
        10 => "Жовтень",
        11 => "Листопад",
        _ => "Грудень",
    }
}

fn be_month_name(m: u32) -> (r: &'static str)
    ensures
        r@ == be_month(m as int),
{
    match m {
        1 => "Студзень",
        2 => "Люты",
        3 => "Сакавік",
        4 => "Красавік",
        5 => "Май",
        6 => "Чэрвень",
        7 => "Ліпень",
        8 => "Жнівень",
        9 => "Верасень",
        10 => "Кастрычнік",
        11 => "Лістапад",
        _ => "Снежань",
    }
}

/// Month name (nominative) in the locale's language.
pub fn get_month_name(locale: &Locale, month: u32) -> (r: String)
    requires
        1 <= month <= 12,
    ensures
        r@ == month_name_spec(locale.tag@, month as int),
{
    let tag = locale.tag.as_str();
    if str_eq(tag, "ru_RU") {
        String::from_str(ru_month_name(month))
    } else if str_eq(tag, "uk_UA") {
        String::from_str(uk_month_name(month))
    } else if str_eq(tag, "be_BY") {
        String::from_str(be_month_name(month))
    } else {
        chrono_month_name(tag, month)
    }
}

/// The month names (and abbreviations) accepted on input, with their numbers.
pub open spec fn month_name_table() -> Seq<(Seq<char>, u32)> {
    seq![
        ("january"@, 1u32),
        ("february"@, 2u32),
        ("march"@, 3u32),
        ("april"@, 4u32),
        ("may"@, 5u32),
        ("june"@, 6u32),
        ("july"@, 7u32),
        ("august"@, 8u32),
        ("september"@, 9u32),
        ("october"@, 10u32),
        ("november"@, 11u32),
        ("december"@, 12u32),
        ("январь"@, 1u32),
        ("февраль"@, 2u32),
        ("март"@, 3u32),
        ("апрель"@, 4u32),
        ("май"@, 5u32),
        ("июнь"@, 6u32),
        ("июль"@, 7u32),
        ("август"@, 8u32),
        ("сентябрь"@, 9u32),
        ("октябрь"@, 10u32),
        ("ноябрь"@, 11u32),
        ("декабрь"@, 12u32),
        ("jan"@, 1u32),
        ("feb"@, 2u32),
        ("mar"@, 3u32),
        ("apr"@, 4u32),
        ("jun"@, 6u32),
        ("jul"@, 7u32),
        ("aug"@, 8u32),
        ("sep"@, 9u32),
        ("oct"@, 10u32),
        ("nov"@, 11u32),
        ("dec"@, 12u32),
    ]
}

/// Number of the first table entry named `s`, if any.
pub open spec fn lookup_month(table: Seq<(Seq<char>, u32)>, s: Seq<char>) -> Option<u32>
    decreases table.len(),
{
    if table.len() == 0 {
        None
    } else if table[0].0 == s {
        Some(table[0].1)
    } else {
        lookup_month(table.drop_first(), s)
    }
}

/// A month number 1-12, or else the number of a month named in lower case.
pub open spec fn parse_month_spec(s: Seq<char>, folded: Seq<char>) -> Option<u32> {
    match parse_u32_spec(s) {
        Some(n) if 1 <= n <= 12 => Some(n),
        _ => lookup_month(month_name_table(), folded),
    }
}

/// The month number of a lower-case month name or abbreviation.
pub fn month_from_folded_name(folded: &str) -> (r: Option<u32>)
    ensures
        r == lookup_month(month_name_table(), folded@),
        r matches Some(n) ==> 1 <= n <= 12,
{
    let table: Vec<(&str, u32)> = vec![
        ("january", 1u32),
        ("february", 2u32),
        ("march", 3u32),
        ("april", 4u32),
        ("may", 5u32),
        ("june", 6u32),
        ("july", 7u32),
        ("august", 8u32),
        ("september", 9u32),
        ("october", 10u32),
        ("november", 11u32),
        ("december", 12u32),
        ("январь", 1u32),
        ("февраль", 2u32),
        ("март", 3u32),
        ("апрель", 4u32),
        ("май", 5u32),
        ("июнь", 6u32),
        ("июль", 7u32),
        ("август", 8u32),
        ("сентябрь", 9u32),
        ("октябрь", 10u32),
        ("ноябрь", 11u32),
        ("декабрь", 12u32),
        ("jan", 1u32),
        ("feb", 2u32),
        ("mar", 3u32),
        ("apr", 4u32),
        ("jun", 6u32),
        ("jul", 7u32),
        ("aug", 8u32),
        ("sep", 9u32),
        ("oct", 10u32),
        ("nov", 11u32),
        ("dec", 12u32),
    ];
    let ghost spec_table = month_name_table();
    assert(table@.len() == spec_table.len());
    assert forall|j: int| 0 <= j < table@.len() implies (#[trigger] table@[j]).0@ == spec_table[j].0
        && table@[j].1 == spec_table[j].1 by {}
    assert(spec_table.subrange(0, spec_table.len() as int) =~= spec_table);
    let mut i: usize = 0;
    while i < table.len()
        invariant
            table@.len() == spec_table.len(),
            spec_table == month_name_table(),
            forall|j: int|
                0 <= j < table@.len() ==> (#[trigger] table@[j]).0@ == spec_table[j].0 && table@[j].1
                    == spec_table[j].1,
            i <= table@.len(),
            forall|j: int| 0 <= j < spec_table.len() ==> 1 <= #[trigger] spec_table[j].1 <= 12,
            lookup_month(spec_table, folded@) == lookup_month(
                spec_table.subrange(i as int, spec_table.len() as int),
                folded@,
            ),
        decreases table.len() - i,
    {
        let ghost rest = spec_table.subrange(i as int, spec_table.len() as int);
        assert(rest.drop_first() =~= spec_table.subrange(i + 1, spec_table.len() as int));
        if str_eq(table[i].0, folded) {
            return Some(table[i].1);
        }
        i += 1;
    }
    None
}

proof fn lemma_lookup_first(table: Seq<(Seq<char>, u32)>, i: int)
    requires
        0 <= i < table.len(),
        forall|j: int| 0 <= j < i ==> #[trigger] table[j].0 != table[i].0,
    ensures
        lookup_month(table, table[i].0) == Some(table[i].1),
    decreases i,
{
    if i > 0 {
        let rest = table.drop_first();
        assert forall|j: int| 0 <= j < i - 1 implies #[trigger] rest[j].0 != rest[i - 1].0 by {
            assert(rest[j] == table[j + 1]);
        }
        lemma_lookup_first(rest, i - 1);
    }
}

/// Every accepted month name and abbreviation, in English or Russian, reads
/// back as the number of its month.
pub proof fn lemma_month_names_round_trip()
    ensures
        forall|i: int|
            0 <= i < month_name_table().len() ==> lookup_month(
                month_name_table(),
                #[trigger] month_name_table()[i].0,
            ) == Some(month_name_table()[i].1),
{
    reveal_strlit("january");
    reveal_strlit("february");
    reveal_strlit("march");
    reveal_strlit("april");
    reveal_strlit("may");
    reveal_strlit("june");
    reveal_strlit("july");
    reveal_strlit("august");
    reveal_strlit("september");
    reveal_strlit("october");
    reveal_strlit("november");
    reveal_strlit("december");
    reveal_strlit("январь");
    reveal_strlit("февраль");
    reveal_strlit("март");
    reveal_strlit("апрель");
    reveal_strlit("май");
    reveal_strlit("июнь");
    reveal_strlit("июль");
    reveal_strlit("август");
    reveal_strlit("сентябрь");
    reveal_strlit("октябрь");
    reveal_strlit("ноябрь");
    reveal_strlit("декабрь");
    reveal_strlit("jan");
    reveal_strlit("feb");
    reveal_strlit("mar");
    reveal_strlit("apr");
    reveal_strlit("jun");
    reveal_strlit("jul");
    reveal_strlit("aug");
    reveal_strlit("sep");
    reveal_strlit("oct");
    reveal_strlit("nov");
    reveal_strlit("dec");
    let t = month_name_table();
    assert forall|i: int| 0 <= i < t.len() implies lookup_month(t, #[trigger] t[i].0) == Some(t[i].1) by {
        assert forall|j: int| 0 <= j < i implies #[trigger] t[j].0 != t[i].0 by {
            assert(t[j].0.len() != t[i].0.len() || t[j].0[0] != t[i].0[0] || t[j].0[1] != t[i].0[1]
                || t[j].0[2] != t[i].0[2]);
        }
        lemma_lookup_first(t, i);
    }
}

/// Parse a month given as a number 1-12, or as an English or Russian name or
/// English abbreviation in any letter case.
pub fn parse_month(s: &str) -> (r: Option<u32>)
    ensures
        r == parse_month_spec(s@, lowercase_of(s@)),
        r matches Some(n) ==> 1 <= n <= 12,
{
    if let Some(n) = parse_u32(s) {
        if 1 <= n && n <= 12 {
            return Some(n);
        }
    }
    let folded = to_lowercase(s);
    month_from_folded_name(folded.as_str())
}

/// Month name, followed by the year when it is shown.
pub open spec fn header_text(tag: Seq<char>, year: int, month: int, show_year: bool) -> Seq<char> {
    let name = month_name_spec(tag, month);
    if show_year {
        name + " "@ + decimal(year as nat)
    } else {
        name
    }
}

/// `s` wrapped in the given color, when color is on.
pub open spec fn colored(s: Seq<char>, color_on: bool, code: Seq<char>) -> Seq<char> {
    if color_on {
        code + s + COLOR_RESET@
    } else {
        s
    }
}

/// The month header centered in `width` columns, in the header color when
/// color is on.
pub open spec fn month_header_spec(
    tag: Seq<char>,
    year: int,
    month: int,
    width: int,
    show_year: bool,
    color: bool,
) -> Seq<char> {
    let h = header_text(tag, year, month, show_year);
    colored(centered(h, display_width_of(h) as int, width), color, COLOR_TEAL@)
}

/// Month header: the localized month name (and year), centered by display
/// width in `width` columns, in teal when color is on.
pub fn format_month_header(
    year: i32,
    month: u32,
    width: usize,
    show_year: bool,
    color: bool,
    locale: &Locale,
) -> (r: String)
    requires
        valid_year_month(year as int, month as int),
    ensures
        r@ == month_header_spec(locale.tag@, year as int, month as int, width as int, show_year, color),
{
    let mut header = get_month_name(locale, month);
    if show_year {
        header.append(" ");
        push_decimal(&mut header, year as u32);
    }
    let centered_header = center_text(header.as_str(), width);
    if color {
        let mut r = String::from_str(COLOR_TEAL);
        r.append(centered_header.as_str());
        r.append(COLOR_RESET);
        r
    } else {
        centered_header
    }
}

/// The weekdays in display order, starting from the context's first day.
pub fn get_weekday_order(week_start: Weekday) -> (r: [Weekday; 7])
    requires
        week_start == Weekday::Mon || week_start == Weekday::Sun,
    ensures
        forall|i: int| 0 <= i < 7 ==> #[trigger] r@[i] == Weekday::from_index(week_start.index() + i),
{
    match week_start {
        Weekday::Sun => [
            Weekday::Sun,
            Weekday::Mon,
            Weekday::Tue,
            Weekday::Wed,
            Weekday::Thu,
            Weekday::Fri,
            Weekday::Sat,
        ],
        _ => [
            Weekday::Mon,
            Weekday::Tue,
            Weekday::Wed,
            Weekday::Thu,
            Weekday::Fri,
            Weekday::Sat,
            Weekday::Sun,
        ],
    }
}

/// At most the first two characters.
pub open spec fn first_two(s: Seq<char>) -> Seq<char> {
    if s.len() <= 2 {
        s
    } else {
        s.subrange(0, 2)
    }
}

/// Two-character weekday name in a locale.
pub open spec fn weekday_short_spec(tag: Seq<char>, wd: Weekday) -> Seq<char> {
    first_two(localized_weekday_abbrev(tag, wd.index()))
}

/// Two-character weekday abbreviation in the locale's language.
pub fn get_weekday_short_name(weekday: Weekday, locale: &Locale) -> (r: String)
    ensures
        r@ == weekday_short_spec(locale.tag@, weekday),
{
    let full = chrono_weekday_abbrev(locale.tag.as_str(), weekday.num_days_from_monday() + 3);
    first_two_chars(full.as_str())
}

/// The first two characters of a string (all of it when shorter).
pub fn first_two_chars(s: &str) -> (r: String)
    ensures
        r@ == first_two(s@),
{
    let n = s.unicode_len();
    let end: usize = if n <= 2 {
        n
    } else {
        2
    };
    let r = String::from_str(s.substring_char(0, end));
    assert(s@.len() <= 2 ==> s@.subrange(0, end as int) =~= s@);
    r
}

/// Weekday shown in column `i` of a week row.
pub open spec fn column_weekday(ctx: CalContext, i: int) -> Weekday {
    Weekday::from_index(ctx.week_start.index() + i)
}

/// Cell `i` of the weekday header row: the short name and its separator.
pub open spec fn weekday_header_cell(ctx: CalContext, i: int) -> Seq<char> {
    let name = weekday_short_spec(ctx.locale.tag@, column_weekday(ctx, i));
    if ctx.julian {
        if i < 6 {
            name + "  "@
        } else {
            " "@ + name
        }
    } else if i < 6 {
        name + " "@
    } else {
        name
    }
}

/// The first `n` cells of the weekday header row.
pub open spec fn weekday_header_cells(ctx: CalContext, n: int) -> Seq<char>
    decreases n,
{
    if n <= 0 {
        Seq::empty()
    } else {
        weekday_header_cells(ctx, n - 1) + weekday_header_cell(ctx, n - 1)
    }
}

/// The weekday header row: room for the week-number column, one more blank in
/// day-of-year mode, then the seven names, in sand yellow when color is on.
pub open spec fn weekday_header_spec(ctx: CalContext, week_numbers: bool) -> Seq<char> {
    (if week_numbers {
        "   "@
    } else {
        Seq::empty()
    }) + (if ctx.julian {
        " "@
    } else {
        Seq::empty()
    }) + colored(weekday_header_cells(ctx, 7), ctx.color, COLOR_SAND_YELLOW@)
}

/// The weekday header row of a month.
pub fn format_weekday_headers(ctx: &CalContext, week_numbers: bool) -> (r: String)
    requires
        ctx.wf(),
    ensures
        r@ == weekday_header_spec(*ctx, week_numbers),
{
    let mut result = String::new();
    if week_numbers {
        result.append("   ");
    }
    if ctx.julian {
        result.append(" ");
    }
    let ghost lead = result@;
    let weekday_order = get_weekday_order(ctx.week_start);
    if ctx.color {
        result.append(COLOR_SAND_YELLOW);
    }
    let ghost start = result@;
    let mut i: usize = 0;
    while i < 7
        invariant
            i <= 7,
            ctx.wf(),
            forall|k: int| 0 <= k < 7 ==> #[trigger] weekday_order@[k] == column_weekday(*ctx, k),
            result@ == start + weekday_header_cells(*ctx, i as int),
        decreases 7 - i,
    {
        let short_name = get_weekday_short_name(weekday_order[i], &ctx.locale);
        if ctx.julian {
            if i < 6 {
                result.append(short_name.as_str());
                result.append("  ");
            } else {
                result.append(" ");
                result.append(short_name.as_str());
            }
        } else if i < 6 {
            result.append(short_name.as_str());
            result.append(" ");
        } else {
            result.append(short_name.as_str());
        }
        assert(result@ =~= start + weekday_header_cells(*ctx, i + 1));
        i += 1;
    }
    if ctx.color {
        result.append(COLOR_RESET);
    }
    assert(result@ =~= weekday_header_spec(*ctx, week_numbers));
    result
}

/// A day cell: the day right-justified in two columns, marked (when color is
/// on) in reverse video if it is today, else teal for a shortened day (code 2),
/// else red for a weekend or a holiday (codes 1 and 8); a blank follows unless
/// it is the last column.
pub open spec fn day_cell_spec(
    ctx: CalContext,
    d: int,
    m: int,
    y: int,
    wd: Weekday,
    is_last: bool,
    code: int,
) -> Seq<char> {
    let is_today = ctx.color && ctx.today.day == d && ctx.today.month == m && ctx.today.year == y;
    let is_weekend = ctx.color && (wd == Weekday::Sat || wd == Weekday::Sun);
    let code = if ctx.color {
        code
    } else {
        0
    };
    let ds = right_justified(d as nat, 2);
    let f = if is_today {
        COLOR_REVERSE@ + ds + COLOR_RESET@
    } else if code == 2 {
        COLOR_TEAL@ + ds + COLOR_RESET@
    } else if is_weekend || code == 1 || code == 8 {
        COLOR_RED@ + ds + COLOR_RESET@
    } else {
        ds
    };
    if is_last {
        f
    } else {
        f + " "@
    }
}

/// Format one day cell of the row layout; `holiday_code` is the day's holiday
/// classification (0 when unknown).
pub fn format_day(
    ctx: &CalContext,
    day: u32,
    month: u32,
    year: i32,
    weekday: Weekday,
    is_last: bool,
    holiday_code: u32,
) -> (r: String)
    ensures
        r@ == day_cell_spec(*ctx, day as int, month as int, year as int, weekday, is_last, holiday_code as int),
{
    let is_today = ctx.color && ctx.today.day() == day && ctx.today.month() == month
        && ctx.today.year() == year;
    let is_weekend = ctx.color && ctx.is_weekend(weekday);
    let code = if ctx.color {
        holiday_code
    } else {
        0
    };
    let mut day_str = String::new();
    push_right_justified(&mut day_str, day, 2);
    let mut formatted = if is_today || code == 2 || is_weekend || code == 1 || code == 8 {
        let mut f = String::from_str(
            if is_today {
                COLOR_REVERSE
            } else if code == 2 {
                COLOR_TEAL
            } else {
                COLOR_RED
            },
        );
        f.append(day_str.as_str());
        f.append(COLOR_RESET);
        f
    } else {
        day_str
    };
    if !is_last {
        formatted.append(" ");
    }
    formatted
}

/// Holiday code of day `d` of a month grid: 0 when none was attached.
pub open spec fn holiday_code_of(md: MonthView, d: int) -> int {
    if 0 <= d - 1 < md.holiday_codes.len() {
        md.holiday_codes[d - 1] as int
    } else {
        0
    }
}

/// Width of a month column in the row layout: 27 with day-of-year numbers,
/// else 23 with week numbers, else 20.
pub open spec fn month_width_spec(ctx: CalContext) -> int {
    if ctx.julian {
        27
    } else if ctx.week_numbers {
        23
    } else {
        20
    }
}

/// The first week number among `n` cells from `start`.
pub open spec fn first_week_number(s: Seq<Option<u32>>, start: int, n: int) -> Option<u32>
    decreases n,
{
    if n <= 0 {
        None
    } else if s[start] is Some {
        s[start]
    } else {
        first_week_number(s, start + 1, n - 1)
    }
}

/// The week-number column of week row `w`: the row's week number
/// right-justified in two columns and a blank, or three blanks.
pub open spec fn week_number_column(ctx: CalContext, md: MonthView, w: int) -> Seq<char> {
    if !ctx.week_numbers {
        Seq::empty()
    } else {
        match first_week_number(md.week_numbers, 7 * w, 7) {
            Some(n) => right_justified(n as nat, 2) + " "@,
            None => "   "@,
        }
    }
}

/// Cell `idx` of the grid in the row layout (`is_last`: rightmost column).
pub open spec fn grid_cell_spec(ctx: CalContext, md: MonthView, idx: int, is_last: bool) -> Seq<char> {
    match md.days[idx] {
        Some(d) => if ctx.julian {
            let doy = right_justified(
                day_of_year_spec(ctx.reform_year as int, md.year, md.month, d as int) as nat,
                3,
            );
            if is_last {
                doy
            } else {
                doy + " "@
            }
        } else {
            day_cell_spec(
                ctx,
                d as int,
                md.month,
                md.year,
                md.weekdays[idx]->0,
                is_last,
                holiday_code_of(md, d as int),
            )
        },
        None => if ctx.julian {
            if is_last {
                "   "@
            } else {
                "    "@
            }
        } else if is_last {
            "  "@
        } else {
            "   "@
        },
    }
}

/// The first `n` cells of week row `w`.
pub open spec fn week_cells(ctx: CalContext, md: MonthView, w: int, n: int) -> Seq<char>
    decreases n,
{
    if n <= 0 {
        Seq::empty()
    } else {
        week_cells(ctx, md, w, n - 1) + grid_cell_spec(ctx, md, 7 * w + n - 1, n - 1 == 6)
    }
}

/// Week row `w` (0-5) of the row layout.
pub open spec fn week_line(ctx: CalContext, md: MonthView, w: int) -> Seq<char> {
    week_number_column(ctx, md, w) + week_cells(ctx, md, w, 7)
}

/// The lines of a month in the row layout: header, weekday names, six weeks.
pub open spec fn month_grid_spec(ctx: CalContext, md: MonthView) -> Seq<Seq<char>> {
    seq![
        month_header_spec(
            ctx.locale.tag@,
            md.year,
            md.month,
            month_width_spec(ctx),
            ctx.show_year_in_header,
            ctx.color,
        ),
        weekday_header_spec(ctx, ctx.week_numbers),
        week_line(ctx, md, 0),
        week_line(ctx, md, 1),
        week_line(ctx, md, 2),
        week_line(ctx, md, 3),
        week_line(ctx, md, 4),
        week_line(ctx, md, 5),
    ]
}

/// Views of a vector of strings.
pub open spec fn lines_view(v: Seq<String>) -> Seq<Seq<char>> {
    v.map_values(|s: String| s@)
}

/// The week number of week row `w`, if any cell of it has one.
fn row_week_number(month: &MonthData, w: usize) -> (r: Option<u32>)
    requires
        w < 6,
        month.wf(),
    ensures
        r == first_week_number(month@.week_numbers, 7 * w as int, 7),
{
    let mut d: usize = 0;
    while d < 7
        invariant
            d <= 7,
            w < 6,
            month.wf(),
            first_week_number(month@.week_numbers, 7 * w as int, 7) == first_week_number(
                month@.week_numbers,
                7 * w + d,
                7 - d,
            ),
        decreases 7 - d,
    {
        if month.week_numbers[7 * w + d].is_some() {
            return month.week_numbers[7 * w + d];
        }
        d += 1;
    }
    None
}

/// Append cell `idx` of the grid in the row layout.
fn push_grid_cell(line: &mut String, ctx: &CalContext, month: &MonthData, idx: usize, is_last: bool)
    requires
        ctx.wf(),
        month.wf(),
        idx < 42,
    ensures
        final(line)@ == old(line)@ + grid_cell_spec(*ctx, month@, idx as int, is_last),
{
    match month.days[idx] {
        Some(day) => {
            if ctx.julian {
                let doy = ctx.day_of_year(month.year, month.month, day);
                push_right_justified(line, doy, 3);
                if !is_last {
                    line.append(" ");
                }
            } else {
                let weekday = match month.weekdays[idx] {
                    Some(wd) => wd,
                    None => Weekday::Mon,
                };
                let code: u32 = if day >= 1 && ((day - 1) as usize) < month.holiday_codes.len() {
                    month.holiday_codes[(day - 1) as usize]
                } else {
                    0
                };
                let cell = format_day(ctx, day, month.month, month.year, weekday, is_last, code);
                line.append(cell.as_str());
            }
        },
        None => {
            if ctx.julian {
                if is_last {
                    line.append("   ");
                } else {
                    line.append("    ");
                }
            } else if is_last {
                line.append("  ");
            } else {
                line.append("   ");
            }
        },
    }
}

/// A month in the row layout: the centered header, the weekday names and six
/// week rows.
pub fn format_month_grid(ctx: &CalContext, month: &MonthData) -> (r: Vec<String>)
    requires
        ctx.wf(),
        month.wf(),
    ensures
        lines_view(r@) == month_grid_spec(*ctx, month@),
{
    let mut lines: Vec<String> = Vec::with_capacity(8);
    let header_width: usize = if ctx.julian {
        27
    } else if ctx.week_numbers {
        23
    } else {
        20
    };
    lines.push(
        format_month_header(
            month.year,
            month.month,
            header_width,
            ctx.show_year_in_header,
            ctx.color,
            &ctx.locale,
        ),
    );
    lines.push(format_weekday_headers(ctx, ctx.week_numbers));
    let mut week: usize = 0;
    while week < 6
        invariant
            week <= 6,
            ctx.wf(),
            month.wf(),
            lines@.len() == week + 2,
            forall|k: int| 0 <= k < week + 2 ==> #[trigger] lines@[k]@ == month_grid_spec(*ctx, month@)[k],
        decreases 6 - week,
    {
        let mut line = String::new();
        if ctx.week_numbers {
            match row_week_number(month, week) {
                Some(wn) => {
                    push_right_justified(&mut line, wn, 2);
                    line.append(" ");
                },
                None => {
                    line.append("   ");
                },
            }
        }
        let ghost lead = line@;
        assert(lead =~= week_number_column(*ctx, month@, week as int));
        let mut day_in_week: usize = 0;
        while day_in_week < 7
            invariant
                day_in_week <= 7,
                week < 6,
                ctx.wf(),
                month.wf(),
                line@ == lead + week_cells(*ctx, month@, week as int, day_in_week as int),
            decreases 7 - day_in_week,
        {
            push_grid_cell(&mut line, ctx, month, 7 * week + day_in_week, day_in_week == 6);
            assert(line@ =~= lead + week_cells(*ctx, month@, week as int, day_in_week + 1));
            day_in_week += 1;
        }
        lines.push(line);
        week += 1;
    }
    assert(lines_view(lines@) =~= month_grid_spec(*ctx, month@));
    lines
}

} // verus!

