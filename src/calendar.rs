//! Date arithmetic under a configurable Julian/Gregorian reform, and the
//! fixed-size month grid.

use chrono::Datelike;
use vstd::prelude::*;

use crate::types::{
    ALWAYS_GREGORIAN, ALWAYS_JULIAN, CalContext, ColumnsMode, HolidayBook, MonthCodes, MonthData, MonthView, WeekType, Weekday, CELLS_PER_MONTH, REFORM_FIRST_DAY,
    REFORM_LAST_DAY, REFORM_MONTH, REFORM_YEAR_GB,
};

verus! {

/// Julian rule: every fourth year.
pub open spec fn julian_leap(y: int) -> bool {
    y % 4 == 0
}

/// Gregorian rule: every fourth year, except centuries not divisible by 400.
pub open spec fn gregorian_leap(y: int) -> bool {
    (y % 4 == 0 && y % 100 != 0) || y % 400 == 0
}

/// Julian rule before the reform year, Gregorian rule from it on.
pub open spec fn leap(reform: int, y: int) -> bool {
    if y < reform {
        julian_leap(y)
    } else {
        gregorian_leap(y)
    }
}

/// Length of a month of a year whose leap status is `is_leap`.
pub open spec fn month_length(is_leap: bool, m: int) -> int {
    if m == 2 {
        if is_leap {
            29
        } else {
            28
        }
    } else if m == 4 || m == 6 || m == 9 || m == 11 {
        30
    } else {
        31
    }
}

/// Days in the months before month `m` of a common year.
pub open spec fn days_before_month(m: int) -> int {
    if m <= 1 {
        0
    } else if m == 2 {
        31
    } else if m == 3 {
        59
    } else if m == 4 {
        90
    } else if m == 5 {
        120
    } else if m == 6 {
        151
    } else if m == 7 {
        181
    } else if m == 8 {
        212
    } else if m == 9 {
        243
    } else if m == 10 {
        273
    } else if m == 11 {
        304
    } else {
        334
    }
}

/// Year 1-9999, month 1-12.
pub open spec fn valid_year_month(y: int, m: int) -> bool {
    1 <= y <= 9999 && 1 <= m <= 12
}

/// The day lies in the span removed by the 1752 reform, under a context that
/// uses that reform.
pub open spec fn reform_gap(reform: int, y: int, m: int, d: int) -> bool {
    reform == REFORM_YEAR_GB as int && y == REFORM_YEAR_GB as int && m == REFORM_MONTH as int
        && REFORM_FIRST_DAY as int <= d <= REFORM_LAST_DAY as int
}

/// Number of days removed by the reform.
pub open spec fn reform_gap_len() -> int {
    REFORM_LAST_DAY as int - REFORM_FIRST_DAY as int + 1
}

/// Zeller's congruence for the first day of a month: 0 is Saturday, 1 Sunday,
/// ..., 6 Friday. The Julian branch omits the century correction.
pub open spec fn zeller(julian: bool, y: int, m: int, q: int) -> int {
    let mm = if m < 3 {
        m + 12
    } else {
        m
    };
    let yy = if m < 3 {
        y - 1
    } else {
        y
    };
    let k = yy % 100;
    let j = yy / 100;
    if julian {
        (q + (13 * (mm + 1)) / 5 + k + k / 4 + 5) % 7
    } else {
        (q + (13 * (mm + 1)) / 5 + k + k / 4 + j / 4 - 2 * j) % 7
    }
}

/// Weekday (Monday = 0) of the first day of a month under the context's rules.
pub open spec fn first_weekday_index(reform: int, y: int, m: int) -> int {
    (zeller(y < reform, y, m, 1) + 5) % 7
}

/// Day of year, counting the leap day and removing the reform gap once,
/// from the reform month of the reform year on.
pub open spec fn day_of_year_spec(reform: int, y: int, m: int, d: int) -> int {
    let base = days_before_month(m) + d + if m > 2 && leap(reform, y) {
        1int
    } else {
        0int
    };
    if reform == REFORM_YEAR_GB as int && y == REFORM_YEAR_GB as int && m >= REFORM_MONTH as int {
        if base >= reform_gap_len() {
            base - reform_gap_len()
        } else {
            0
        }
    } else {
        base
    }
}

/// A date of the proleptic Gregorian calendar.
pub open spec fn gregorian_valid(y: int, m: int, d: int) -> bool {
    1 <= m <= 12 && 1 <= d <= month_length(gregorian_leap(y), m)
}

/// Day of year in the proleptic Gregorian calendar.
pub open spec fn gregorian_ordinal(y: int, m: int, d: int) -> int {
    days_before_month(m) + d + if m > 2 && gregorian_leap(y) {
        1int
    } else {
        0int
    }
}

/// Weekday (Monday = 0) of a proleptic Gregorian date.
pub open spec fn gregorian_weekday_index(y: int, m: int, d: int) -> int {
    (zeller(false, y, m, d) + 5) % 7
}

/// ISO weeks in a year: 53 when it starts on a Thursday, or on a Wednesday
/// in a leap year; else 52.
pub open spec fn iso_weeks_in_year(y: int) -> int {
    let jan1 = gregorian_weekday_index(y, 1, 1);
    if jan1 == 3 || (gregorian_leap(y) && jan1 == 2) {
        53
    } else {
        52
    }
}

/// ISO 8601 week number: weeks start on Monday and week 1 holds the year's
/// first Thursday.
pub open spec fn iso_week_spec(y: int, m: int, d: int) -> int {
    let raw = (gregorian_ordinal(y, m, d) - (gregorian_weekday_index(y, m, d) + 1) + 10) / 7;
    if raw < 1 {
        iso_weeks_in_year(y - 1)
    } else if raw > iso_weeks_in_year(y) {
        1
    } else {
        raw
    }
}

/// US week number: weeks start on Sunday and week 1 holds January 1.
pub open spec fn us_week_spec(y: int, m: int, d: int) -> int {
    (gregorian_ordinal(y, m, d) - 1 + (gregorian_weekday_index(y, 1, 1) + 1) % 7) / 7 + 1
}

/// Leap year under a reform year: the Julian rule before it, the Gregorian
/// rule from it on.
pub fn leap_year(reform_year: i32, year: i32) -> (r: bool)
    requires
        year >= 0,
    ensures
        r == leap(reform_year as int, year as int),
{
    if year < reform_year {
        year % 4 == 0
    } else {
        (year % 4 == 0 && year % 100 != 0) || (year % 400 == 0)
    }
}

/// Number of days of a month under a reform year.
pub fn month_days(reform_year: i32, year: i32, month: u32) -> (r: u32)
    requires
        valid_year_month(year as int, month as int),
    ensures
        r as int == month_length(leap(reform_year as int, year as int), month as int),
        28 <= r <= 31,
{
    match month {
        1 | 3 | 5 | 7 | 8 | 10 | 12 => 31,
        4 | 6 | 9 | 11 => 30,
        _ => {
            if leap_year(reform_year, year) {
                29
            } else {
                28
            }
        },
    }
}

/// Relies on chrono's `NaiveDate::from_ymd_opt` and `Datelike::ordinal`:
/// a date exists in the proleptic Gregorian calendar, and its day of year.
#[verifier::external_body]
pub(crate) fn proleptic_ordinal(y: i32, m: u32, d: u32) -> (r: Option<u32>)
    requires
        1 <= y <= 9999,
    ensures
        gregorian_valid(y as int, m as int, d as int) <==> r is Some,
        r matches Some(o) ==> o as int == gregorian_ordinal(y as int, m as int, d as int),
{
    match chrono::NaiveDate::from_ymd_opt(y, m, d) {
        Some(date) => Some(date.ordinal()),
        None => None,
    }
}

/// Relies on chrono's `Datelike::weekday` and `Weekday::num_days_from_sunday`:
/// the weekday of a proleptic Gregorian date, Sunday = 0.
#[verifier::external_body]
fn proleptic_weekday_from_sunday(y: i32, m: u32, d: u32) -> (r: u32)
    requires
        1 <= y <= 9999,
        gregorian_valid(y as int, m as int, d as int),
    ensures
        r as int == (gregorian_weekday_index(y as int, m as int, d as int) + 1) % 7,
{
    chrono::NaiveDate::from_ymd_opt(y, m, d).unwrap().weekday().num_days_from_sunday()
}

/// Relies on chrono's `Datelike::iso_week` and `IsoWeek::week`: the ISO 8601
/// week number of a proleptic Gregorian date.
#[verifier::external_body]
fn proleptic_iso_week(y: i32, m: u32, d: u32) -> (r: u32)
    requires
        1 <= y <= 9999,
        gregorian_valid(y as int, m as int, d as int),
    ensures
        r as int == iso_week_spec(y as int, m as int, d as int),
{
    chrono::NaiveDate::from_ymd_opt(y, m, d).unwrap().iso_week().week()
}

/// Relies on terminal_size's `terminal_size`: the width in columns of the
/// terminal on stdout, stderr or stdin, if any. It depends on the process's
/// surroundings, so nothing is promised of it.
#[verifier::external_body]
fn terminal_width() -> (r: Option<u32>) {
    match terminal_size::terminal_size() {
        Some((w, _)) => Some(w.0 as u32),
        None => None,
    }
}

/// Months per row for a context whose column mode is automatic, given the
/// terminal width if one was found: about 20 columns plus the gutter per month,
/// clamped to 1-3.
pub open spec fn auto_months_per_row(term_width: Option<u32>, gutter: int) -> int {
    match term_width {
        Some(w) => {
            let n = w as int / (20 + gutter);
            if n < 1 {
                1
            } else if n > 3 {
                3
            } else {
                n
            }
        },
        None => 3,
    }
}

/// Cells left blank before the first of the month.
pub open spec fn grid_offset(ctx: CalContext, y: int, m: int) -> int {
    let f = first_weekday_index(ctx.reform_year as int, y, m);
    if ctx.week_start == Weekday::Sun {
        (f + 1) % 7
    } else {
        f
    }
}

/// Day shown in cell `i` of a month grid: days follow the leading blanks in
/// order, and days removed by the reform leave their cells blank.
pub open spec fn grid_day(ctx: CalContext, y: int, m: int, i: int) -> Option<u32> {
    let k = i - grid_offset(ctx, y, m);
    if 0 <= k < ctx.spec_days_in_month(y, m) && !reform_gap(ctx.reform_year as int, y, m, k + 1) {
        Some((k + 1) as u32)
    } else {
        None
    }
}

/// Weekday of cell `i` when it holds a day: the first of the month's weekday
/// advanced by the cell's distance from the first populated cell.
pub open spec fn grid_weekday(ctx: CalContext, y: int, m: int, i: int) -> Option<Weekday> {
    let k = i - grid_offset(ctx, y, m);
    if grid_day(ctx, y, m, i) is Some {
        Some(Weekday::from_index(first_weekday_index(ctx.reform_year as int, y, m) + k))
    } else {
        None
    }
}

/// Week number of cell `i` when it holds a day and week numbers are shown.
pub open spec fn grid_week_number(ctx: CalContext, y: int, m: int, i: int) -> Option<u32> {
    match grid_day(ctx, y, m, i) {
        Some(d) => if ctx.week_numbers {
            Some(ctx.spec_week_number(y, m, d as int) as u32)
        } else {
            None
        },
        None => None,
    }
}

/// Week numbers come from the proleptic Gregorian calendar: with week numbers
/// shown, every day of the month must exist there (a Julian-only 29 February
/// does not).
pub open spec fn week_numbers_defined(ctx: CalContext, y: int, m: int) -> bool {
    ctx.week_numbers ==> ctx.spec_days_in_month(y, m) <= month_length(gregorian_leap(y), m)
}

/// The grid of month `m` of year `y` under the context, with the given
/// holiday codes attached.
pub open spec fn grid_view_of(ctx: CalContext, y: int, m: int, codes: Seq<u32>) -> MonthView {
    MonthView {
        year: y,
        month: m,
        days: Seq::new(CELLS_PER_MONTH as nat, |i: int| grid_day(ctx, y, m, i)),
        week_numbers: Seq::new(CELLS_PER_MONTH as nat, |i: int| grid_week_number(ctx, y, m, i)),
        weekdays: Seq::new(CELLS_PER_MONTH as nat, |i: int| grid_weekday(ctx, y, m, i)),
        holiday_codes: codes,
    }
}

/// Codes of the first entry of the book for month `m` of year `y`, or none.
pub open spec fn book_codes(entries: Seq<MonthCodes>, y: int, m: int) -> Seq<u32>
    decreases entries.len(),
{
    if entries.len() == 0 {
        Seq::empty()
    } else if entries[0].year as int == y && entries[0].month as int == m {
        entries[0].codes@
    } else {
        book_codes(entries.drop_first(), y, m)
    }
}

impl HolidayBook {
    /// A book with no codes: nothing is highlighted as a holiday.
    pub fn empty() -> (r: HolidayBook)
        ensures
            r.entries@.len() == 0,
    {
        HolidayBook { entries: Vec::new() }
    }

    /// Record the codes of a month.
    pub fn add(&mut self, year: i32, month: u32, codes: Vec<u32>)
        ensures
            final(self).entries@.len() == old(self).entries@.len() + 1,
            forall|i: int| 0 <= i < old(self).entries@.len() ==> #[trigger] final(self).entries@[i] == old(self).entries@[i],
            final(self).entries@.last() == (MonthCodes { year, month, codes }),
    {
        self.entries.push(MonthCodes { year, month, codes });
    }

    /// The codes recorded for a month (a copy), or none.
    pub fn codes_for(&self, year: i32, month: u32) -> (r: Vec<u32>)
        ensures
            r@ == book_codes(self.entries@, year as int, month as int),
    {
        let mut i: usize = 0;
        assert(self.entries@.subrange(0, self.entries@.len() as int) =~= self.entries@);
        while i < self.entries.len()
            invariant
                i <= self.entries@.len(),
                book_codes(self.entries@, year as int, month as int) == book_codes(
                    self.entries@.subrange(i as int, self.entries@.len() as int),
                    year as int,
                    month as int,
                ),
            decreases self.entries.len() - i,
        {
            let ghost rest = self.entries@.subrange(i as int, self.entries@.len() as int);
            assert(rest.drop_first() =~= self.entries@.subrange(i + 1, self.entries@.len() as int));
            if self.entries[i].year == year && self.entries[i].month == month {
                return copy_vec(&self.entries[i].codes);
            }
            i += 1;
        }
        Vec::new()
    }
}

/// A copy of a vector, element by element.
fn copy_vec<T: Copy>(v: &Vec<T>) -> (r: Vec<T>)
    ensures
        r@ == v@,
{
    let mut out: Vec<T> = Vec::new();
    let mut j: usize = 0;
    while j < v.len()
        invariant
            j <= v@.len(),
            out@ == v@.subrange(0, j as int),
        decreases v.len() - j,
    {
        out.push(v[j]);
        assert(out@ =~= v@.subrange(0, j + 1));
        j += 1;
    }
    assert(out@ =~= v@);
    out
}

impl MonthData {
    /// A copy of the grid.
    pub fn clone_grid(&self) -> (r: MonthData)
        ensures
            r@ == self@,
            self.wf() ==> r.wf(),
    {
        MonthData {
            year: self.year,
            month: self.month,
            days: copy_vec(&self.days),
            week_numbers: copy_vec(&self.week_numbers),
            weekdays: copy_vec(&self.weekdays),
            holiday_codes: copy_vec(&self.holiday_codes),
        }
    }

    /// The same grid with holiday codes attached.
    pub fn with_holiday_codes(self, codes: Vec<u32>) -> (r: MonthData)
        ensures
            r@ == (MonthView { holiday_codes: codes@, ..self@ }),
            self.wf() ==> r.wf(),
    {
        MonthData { holiday_codes: codes, ..self }
    }

    /// The grid of a month with the book's holiday codes for it.
    pub fn with_book(ctx: &CalContext, year: i32, month: u32, book: &HolidayBook) -> (r: MonthData)
        requires
            ctx.wf(),
            valid_year_month(year as int, month as int),
            week_numbers_defined(*ctx, year as int, month as int),
        ensures
            r@ == grid_view_of(*ctx, year as int, month as int, book_codes(book.entries@, year as int, month as int)),
            r.wf(),
    {
        let m = MonthData::new(ctx, year, month);
        m.with_holiday_codes(book.codes_for(year, month))
    }

    /// Build the 42-cell grid of a month.
    pub fn new(ctx: &CalContext, year: i32, month: u32) -> (r: MonthData)
        requires
            ctx.wf(),
            valid_year_month(year as int, month as int),
            week_numbers_defined(*ctx, year as int, month as int),
        ensures
            r@ == grid_view_of(*ctx, year as int, month as int, Seq::empty()),
            r.wf(),
            r.year == year && r.month == month,
            r.days@.len() == CELLS_PER_MONTH && r.week_numbers@.len() == CELLS_PER_MONTH
                && r.weekdays@.len() == CELLS_PER_MONTH,
            forall|i: int| 0 <= i < CELLS_PER_MONTH ==> (#[trigger] r.days@[i] is Some <==> r.weekdays@[i] is Some),
    {
        let days_in_month = ctx.days_in_month(year, month);
        let first_day = ctx.first_day_of_month(year, month);
        let offset: usize = match ctx.week_start {
            Weekday::Sun => first_day.num_days_from_sunday() as usize,
            _ => first_day.num_days_from_monday() as usize,
        };
        let mut days: Vec<Option<u32>> = Vec::with_capacity(CELLS_PER_MONTH);
        let mut week_numbers: Vec<Option<u32>> = Vec::with_capacity(CELLS_PER_MONTH);
        let mut weekdays: Vec<Option<Weekday>> = Vec::with_capacity(CELLS_PER_MONTH);
        let ghost g = *ctx;
        let mut i: usize = 0;
        while i < CELLS_PER_MONTH
            invariant
                0 <= i <= CELLS_PER_MONTH,
                g == *ctx,
                offset as int == grid_offset(g, year as int, month as int),
                offset < 7,
                days_in_month as int == ctx.spec_days_in_month(year as int, month as int),
                28 <= days_in_month <= 31,
                first_day.index() == first_weekday_index(ctx.reform_year as int, year as int, month as int),
                ctx.wf(),
                valid_year_month(year as int, month as int),
                week_numbers_defined(*ctx, year as int, month as int),
                days@.len() == i,
                week_numbers@.len() == i,
                weekdays@.len() == i,
                forall|j: int| 0 <= j < i ==> #[trigger] days@[j] == grid_day(g, year as int, month as int, j),
                forall|j: int| 0 <= j < i ==> #[trigger] weekdays@[j] == grid_weekday(g, year as int, month as int, j),
                forall|j: int| 0 <= j < i ==> #[trigger] week_numbers@[j] == grid_week_number(g, year as int, month as int, j),
            decreases CELLS_PER_MONTH - i,
        {
            if i >= offset && ((i - offset) as u32) < days_in_month && !ctx.is_reform_gap(
                year,
                month,
                (i - offset) as u32 + 1,
            ) {
                let day = (i - offset) as u32 + 1;
                days.push(Some(day));
                weekdays.push(
                    Some(Weekday::from_monday_index(first_day.num_days_from_monday() + day - 1)),
                );
                if ctx.week_numbers {
                    proof {
                        assert(gregorian_valid(year as int, month as int, day as int));
                    }
                    week_numbers.push(Some(ctx.week_number(year, month, day)));
                } else {
                    week_numbers.push(None);
                }
            } else {
                days.push(None);
                weekdays.push(None);
                week_numbers.push(None);
            }
            i += 1;
        }
        let r = MonthData {
            year,
            month,
            days,
            week_numbers,
            weekdays,
            holiday_codes: Vec::new(),
        };
        assert(r@ =~= grid_view_of(*ctx, year as int, month as int, Seq::empty())) by {
            assert(r.days@ =~= grid_view_of(*ctx, year as int, month as int, Seq::empty()).days);
            assert(r.weekdays@ =~= grid_view_of(*ctx, year as int, month as int, Seq::empty()).weekdays);
            assert(r.week_numbers@ =~= grid_view_of(*ctx, year as int, month as int, Seq::empty()).week_numbers);
            assert(r.holiday_codes@ =~= Seq::<u32>::empty());
        }
        assert(r.wf()) by {
            assert forall|i: int| 0 <= i < CELLS_PER_MONTH implies (#[trigger] r.days@[i] is Some
                <==> r.weekdays@[i] is Some) by {
                assert(r.days@[i] == grid_day(g, year as int, month as int, i));
                assert(r.weekdays@[i] == grid_weekday(g, year as int, month as int, i));
            }
            assert forall|i: int| 0 <= i < CELLS_PER_MONTH implies (#[trigger] r.days@[i] matches Some(
                d,
            ) ==> 1 <= d <= 31) by {
                assert(r.days@[i] == grid_day(g, year as int, month as int, i));
            }
        }
        r
    }
}

/// Under the "always Julian" sentinel every year follows the Julian rule,
/// and under the "always Gregorian" sentinel every year follows the Gregorian
/// rule (the largest `i32` is itself the Julian sentinel, so it is left out).
pub proof fn lemma_pure_calendars_leap(y: int)
    requires
        i32::MIN <= y < i32::MAX,
    ensures
        leap(ALWAYS_JULIAN as int, y) == (y % 4 == 0),
        leap(ALWAYS_GREGORIAN as int, y) == ((y % 4 == 0 && y % 100 != 0) || y % 400 == 0),
{
}

/// Every month grid has exactly 42 cells, and a cell has a weekday exactly
/// when it has a day.
pub proof fn lemma_grid_shape(ctx: CalContext, y: int, m: int, codes: Seq<u32>)
    ensures
        ({
            let v = grid_view_of(ctx, y, m, codes);
            &&& v.days.len() == CELLS_PER_MONTH
            &&& v.weekdays.len() == CELLS_PER_MONTH
            &&& v.week_numbers.len() == CELLS_PER_MONTH
            &&& forall|i: int| 0 <= i < CELLS_PER_MONTH ==> (#[trigger] v.days[i] is Some <==> v.weekdays[i] is Some)
        }),
{
    let v = grid_view_of(ctx, y, m, codes);
    assert forall|i: int| 0 <= i < CELLS_PER_MONTH implies (#[trigger] v.days[i] is Some <==> v.weekdays[i] is Some) by {
        assert(v.days[i] == grid_day(ctx, y, m, i));
        assert(v.weekdays[i] == grid_weekday(ctx, y, m, i));
    }
}

/// Number of populated cells among cells `lo..hi`.
pub open spec fn count_populated(s: Seq<Option<u32>>, lo: int, hi: int) -> int
    decreases hi - lo,
{
    if hi <= lo {
        0
    } else {
        count_populated(s, lo, hi - 1) + if s[hi - 1] is Some {
            1int
        } else {
            0int
        }
    }
}

proof fn lemma_count_split(s: Seq<Option<u32>>, lo: int, mid: int, hi: int)
    requires
        lo <= mid <= hi,
    ensures
        count_populated(s, lo, hi) == count_populated(s, lo, mid) + count_populated(s, mid, hi),
    decreases hi - mid,
{
    if hi > mid {
        lemma_count_split(s, lo, mid, hi - 1);
    }
}

proof fn lemma_count_uniform(s: Seq<Option<u32>>, lo: int, hi: int, populated: bool)
    requires
        lo <= hi,
        forall|i: int| lo <= i < hi ==> (#[trigger] s[i] is Some) == populated,
    ensures
        count_populated(s, lo, hi) == if populated {
            hi - lo
        } else {
            0
        },
    decreases hi - lo,
{
    if hi > lo {
        lemma_count_uniform(s, lo, hi - 1, populated);
    }
}

/// Under the 1752 reform, the grid of September 1752 shows 19 days: days 3 to
/// 13 are absent, and day 14 is the next populated cell after day 2 (the cells
/// between them are blank).
pub proof fn lemma_september_1752(ctx: CalContext, codes: Seq<u32>)
    requires
        ctx.wf(),
        ctx.reform_year == REFORM_YEAR_GB,
    ensures
        ({
            let v = grid_view_of(ctx, 1752, 9, codes);
            &&& count_populated(v.days, 0, 42) == 19
            &&& forall|i: int| 0 <= i < 42 ==> (#[trigger] v.days[i] matches Some(d) ==> !(3 <= d <= 13))
            &&& exists|i: int|
                0 <= i && i + 12 < 42 && #[trigger] v.days[i] == Some(2u32) && v.days[i + 12] == Some(14u32)
                    && forall|j: int| i < j < i + 12 ==> #[trigger] v.days[j] is None
        }),
{
    let v = grid_view_of(ctx, 1752, 9, codes);
    let off = grid_offset(ctx, 1752, 9);
    assert(0 <= off < 7);
    assert(ctx.spec_days_in_month(1752, 9) == 30);
    assert forall|i: int| 0 <= i < 42 implies (#[trigger] v.days[i] is Some) == (0 <= i - off < 2 || 13
        <= i - off < 30) by {
        assert(v.days[i] == grid_day(ctx, 1752, 9, i));
    }
    lemma_count_split(v.days, 0, off, 42);
    lemma_count_split(v.days, off, off + 2, 42);
    lemma_count_split(v.days, off + 2, off + 13, 42);
    lemma_count_split(v.days, off + 13, off + 30, 42);
    lemma_count_uniform(v.days, 0, off, false);
    lemma_count_uniform(v.days, off, off + 2, true);
    lemma_count_uniform(v.days, off + 2, off + 13, false);
    lemma_count_uniform(v.days, off + 13, off + 30, true);
    lemma_count_uniform(v.days, off + 30, 42, false);
    assert forall|i: int| 0 <= i < 42 implies (#[trigger] v.days[i] matches Some(d) ==> !(3 <= d <= 13)) by {
        assert(v.days[i] == grid_day(ctx, 1752, 9, i));
    }
    assert(v.days[off + 1] == grid_day(ctx, 1752, 9, off + 1));
    assert(v.days[off + 13] == grid_day(ctx, 1752, 9, off + 13));
    assert forall|j: int| off + 1 < j < off + 13 implies #[trigger] v.days[j] is None by {
        assert(v.days[j] == grid_day(ctx, 1752, 9, j));
    }
}

impl CalContext {
    pub open spec fn spec_is_leap_year(&self, year: int) -> bool {
        leap(self.reform_year as int, year)
    }

    pub open spec fn spec_days_in_month(&self, year: int, month: int) -> int {
        month_length(self.spec_is_leap_year(year), month)
    }

    /// The week number shown beside a date under the context's policy.
    pub open spec fn spec_week_number(&self, y: int, m: int, d: int) -> int {
        match self.week_type {
            WeekType::Iso => iso_week_spec(y, m, d),
            WeekType::Us => us_week_spec(y, m, d),
        }
    }

    /// Leap year: the Julian rule before the reform year, else the Gregorian
    /// rule.
    pub fn is_leap_year(&self, year: i32) -> (r: bool)
        requires
            year >= 0,
        ensures
            r == self.spec_is_leap_year(year as int),
    {
        leap_year(self.reform_year, year)
    }

    pub fn days_in_month(&self, year: i32, month: u32) -> (r: u32)
        requires
            valid_year_month(year as int, month as int),
        ensures
            r as int == self.spec_days_in_month(year as int, month as int),
            28 <= r <= 31,
    {
        month_days(self.reform_year, year, month)
    }

    /// The date lies in the span that the 1752 reform removed (only under
    /// that reform).
    pub fn is_reform_gap(&self, year: i32, month: u32, day: u32) -> (r: bool)
        ensures
            r == reform_gap(self.reform_year as int, year as int, month as int, day as int),
    {
        if self.reform_year != REFORM_YEAR_GB {
            return false;
        }
        year == REFORM_YEAR_GB && month == REFORM_MONTH && REFORM_FIRST_DAY <= day && day
            <= REFORM_LAST_DAY
    }

    /// Weekday of the first of the month, by Zeller's congruence.
    pub fn first_day_of_month(&self, year: i32, month: u32) -> (r: Weekday)
        requires
            valid_year_month(year as int, month as int),
        ensures
            r.index() == first_weekday_index(self.reform_year as int, year as int, month as int),
    {
        let m: i32 = if month < 3 {
            month as i32 + 12
        } else {
            month as i32
        };
        let q: i32 = 1;
        let year_i: i32 = if month < 3 {
            year - 1
        } else {
            year
        };
        let k: i32 = year_i % 100;
        let j: i32 = year_i / 100;
        let sum: i32 = if year < self.reform_year {
            q + (13 * (m + 1)) / 5 + k + k / 4 + 5
        } else {
            q + (13 * (m + 1)) / 5 + k + k / 4 + j / 4 - 2 * j
        };
        proof {
            assert((sum + 210) % 7 == sum % 7) by (nonlinear_arith);
        }
        let h: i32 = (sum + 210) % 7;
        Weekday::from_monday_index(((h + 5) % 7) as u32)
    }

    /// Day of the year, with the leap day and the reform gap taken into account.
    pub fn day_of_year(&self, year: i32, month: u32, day: u32) -> (r: u32)
        requires
            valid_year_month(year as int, month as int),
            1 <= day <= 31,
        ensures
            r as int == day_of_year_spec(self.reform_year as int, year as int, month as int, day as int),
    {
        let before: u32 = match month {
            1 => 0,
            2 => 31,
            3 => 59,
            4 => 90,
            5 => 120,
            6 => 151,
            7 => 181,
            8 => 212,
            9 => 243,
            10 => 273,
            11 => 304,
            _ => 334,
        };
        let mut doy = before + day;
        if month > 2 && self.is_leap_year(year) {
            doy += 1;
        }
        if self.reform_year == REFORM_YEAR_GB && year == REFORM_YEAR_GB && month >= REFORM_MONTH {
            let gap = REFORM_LAST_DAY - REFORM_FIRST_DAY + 1;
            doy = if doy >= gap {
                doy - gap
            } else {
                0
            };
        }
        doy
    }

    /// Week number of a date under the context's policy. The date must exist
    /// in the proleptic Gregorian calendar.
    pub fn week_number(&self, year: i32, month: u32, day: u32) -> (r: u32)
        requires
            1 <= year <= 9999,
            gregorian_valid(year as int, month as int, day as int),
        ensures
            r as int == self.spec_week_number(year as int, month as int, day as int),
    {
        match self.week_type {
            WeekType::Iso => proleptic_iso_week(year, month, day),
            WeekType::Us => {
                let ordinal = proleptic_ordinal(year, month, day);
                let days_since_jan1 = match ordinal {
                    Some(o) => o - 1,
                    None => 0,
                };
                let jan1_weekday = proleptic_weekday_from_sunday(year, 1, 1);
                (days_since_jan1 + jan1_weekday) / 7 + 1
            },
        }
    }

    /// Saturday and Sunday, whatever day the week starts on.
    pub fn is_weekend(&self, weekday: Weekday) -> (r: bool)
        ensures
            r == (weekday == Weekday::Sat || weekday == Weekday::Sun),
    {
        match weekday {
            Weekday::Sat | Weekday::Sun => true,
            _ => false,
        }
    }

    /// Months per row for a given terminal width (`None`: no terminal).
    pub fn months_per_row_for(&self, term_width: Option<u32>) -> (r: u32)
        requires
            self.wf(),
        ensures
            r as int == match self.columns {
                ColumnsMode::Fixed(n) => n as int,
                ColumnsMode::Auto => auto_months_per_row(term_width, self.gutter_width as int),
            },
    {
        match self.columns {
            ColumnsMode::Fixed(n) => n,
            ColumnsMode::Auto => {
                match term_width {
                    Some(w) => {
                        let n: u64 = if self.gutter_width >= w as usize {
                            proof {
                                assert(w as int / (20 + self.gutter_width as int) == 0) by (nonlinear_arith)
                                    requires
                                        0 <= w as int <= self.gutter_width as int,
                                ;
                            }
                            0
                        } else {
                            (w as u64) / (20 + self.gutter_width as u64)
                        };
                        assert(n as int == w as int / (20 + self.gutter_width as int));
                        if n < 1 {
                            1
                        } else if n > 3 {
                            3
                        } else {
                            n as u32
                        }
                    },
                    None => 3,
                }
            },
        }
    }

    /// Months per row: the fixed count, or one derived from the width of the
    /// terminal found now.
    pub fn months_per_row(&self) -> (r: u32)
        requires
            self.wf(),
        ensures
            self.columns matches ColumnsMode::Fixed(n) ==> r == n,
            self.columns is Auto ==> 1 <= r <= 3,
    {
        let width = match self.columns {
            ColumnsMode::Fixed(_) => None,
            ColumnsMode::Auto => terminal_width(),
        };
        self.months_per_row_for(width)
    }
}

} // verus!
