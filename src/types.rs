//! Data model shared by the calendar engine and the layout code.

use vstd::prelude::*;

verus! {

/// Reform year meaning "always Gregorian".
pub const ALWAYS_GREGORIAN: i32 = i32::MIN;

/// Reform year meaning "always Julian".
pub const ALWAYS_JULIAN: i32 = i32::MAX;

/// Number of cells in a month grid: six weeks of seven days.
pub const CELLS_PER_MONTH: usize = 42;

pub const GUTTER_WIDTH_REGULAR: usize = 2;

pub const GUTTER_WIDTH_YEAR: usize = 3;

pub const COLOR_ENABLED_BY_DEFAULT: bool = true;

/// Great Britain's reform: 3 to 13 September 1752 were skipped.
pub const REFORM_YEAR_GB: i32 = 1752;

pub const REFORM_MONTH: u32 = 9;

pub const REFORM_FIRST_DAY: u32 = 3;

pub const REFORM_LAST_DAY: u32 = 13;

pub const COLOR_RESET: &'static str = "\x1b[0m";

pub const COLOR_REVERSE: &'static str = "\x1b[7m";

pub const COLOR_RED: &'static str = "\x1b[91m";

pub const COLOR_TEAL: &'static str = "\x1b[96m";

pub const COLOR_SAND_YELLOW: &'static str = "\x1b[93m";

/// Which calendar system applies to which years.
#[derive(Debug, Clone, Copy, PartialEq, Eq, Structural)]
pub enum ReformType {
    /// Gregorian rules for every year.
    Gregorian,
    /// ISO 8601: the same as Gregorian.
    Iso,
    /// Julian rules for every year.
    Julian,
    /// Julian before 1752, Gregorian from 1752 on, with September 3-13 1752 removed.
    Year1752,
}

impl ReformType {
    pub open spec fn spec_reform_year(self) -> int {
        match self {
            ReformType::Gregorian | ReformType::Iso => i32::MIN as int,
            ReformType::Julian => i32::MAX as int,
            ReformType::Year1752 => REFORM_YEAR_GB as int,
        }
    }

    /// The first year that follows the Gregorian rules (a sentinel for the
    /// two pure systems).
    pub fn reform_year(self) -> (r: i32)
        ensures
            r as int == self.spec_reform_year(),
    {
        match self {
            ReformType::Gregorian | ReformType::Iso => ALWAYS_GREGORIAN,
            ReformType::Julian => ALWAYS_JULIAN,
            ReformType::Year1752 => REFORM_YEAR_GB,
        }
    }
}

/// Week numbering policy.
#[derive(Debug, Clone, Copy, PartialEq, Eq, Structural)]
pub enum WeekType {
    /// ISO 8601: weeks start on Monday, week 1 holds the first Thursday.
    Iso,
    /// US: weeks start on Sunday, week 1 holds January 1.
    Us,
}

/// How many months a multi-month row layout puts side by side.
#[derive(Debug, Clone, Copy, PartialEq, Eq, Structural)]
pub enum ColumnsMode {
    /// A fixed number of months per row.
    Fixed(u32),
    /// Derived from the terminal width.
    Auto,
}

/// Day of the week.
#[derive(Debug, Clone, Copy, PartialEq, Eq, Structural)]
pub enum Weekday {
    Mon,
    Tue,
    Wed,
    Thu,
    Fri,
    Sat,
    Sun,
}

impl Weekday {
    /// Monday is 0, Sunday is 6.
    pub open spec fn index(self) -> int {
        match self {
            Weekday::Mon => 0,
            Weekday::Tue => 1,
            Weekday::Wed => 2,
            Weekday::Thu => 3,
            Weekday::Fri => 4,
            Weekday::Sat => 5,
            Weekday::Sun => 6,
        }
    }

    /// The weekday whose Monday-based index is `i` modulo 7.
    pub open spec fn from_index(i: int) -> Weekday {
        let r = i % 7;
        if r == 0 {
            Weekday::Mon
        } else if r == 1 {
            Weekday::Tue
        } else if r == 2 {
            Weekday::Wed
        } else if r == 3 {
            Weekday::Thu
        } else if r == 4 {
            Weekday::Fri
        } else if r == 5 {
            Weekday::Sat
        } else {
            Weekday::Sun
        }
    }

    pub fn num_days_from_monday(self) -> (r: u32)
        ensures
            r as int == self.index(),
    {
        match self {
            Weekday::Mon => 0,
            Weekday::Tue => 1,
            Weekday::Wed => 2,
            Weekday::Thu => 3,
            Weekday::Fri => 4,
            Weekday::Sat => 5,
            Weekday::Sun => 6,
        }
    }

    pub fn num_days_from_sunday(self) -> (r: u32)
        ensures
            r as int == (self.index() + 1) % 7,
    {
        match self {
            Weekday::Sun => 0,
            Weekday::Mon => 1,
            Weekday::Tue => 2,
            Weekday::Wed => 3,
            Weekday::Thu => 4,
            Weekday::Fri => 5,
            Weekday::Sat => 6,
        }
    }

    pub fn from_monday_index(i: u32) -> (r: Weekday)
        ensures
            r == Weekday::from_index(i as int),
            r.index() == i % 7,
    {
        let k = i % 7;
        if k == 0 {
            Weekday::Mon
        } else if k == 1 {
            Weekday::Tue
        } else if k == 2 {
            Weekday::Wed
        } else if k == 3 {
            Weekday::Thu
        } else if k == 4 {
            Weekday::Fri
        } else if k == 5 {
            Weekday::Sat
        } else {
            Weekday::Sun
        }
    }

    /// The next day of the week.
    pub fn succ(self) -> (r: Weekday)
        ensures
            r == Weekday::from_index(self.index() + 1),
    {
        match self {
            Weekday::Mon => Weekday::Tue,
            Weekday::Tue => Weekday::Wed,
            Weekday::Wed => Weekday::Thu,
            Weekday::Thu => Weekday::Fri,
            Weekday::Fri => Weekday::Sat,
            Weekday::Sat => Weekday::Sun,
            Weekday::Sun => Weekday::Mon,
        }
    }
}

/// A calendar date as plain numbers.
#[derive(Debug, Clone, Copy, PartialEq, Eq, Structural)]
pub struct Date {
    pub year: i32,
    pub month: u32,
    pub day: u32,
}

impl Date {
    pub fn new(year: i32, month: u32, day: u32) -> (r: Date)
        ensures
            r.year == year && r.month == month && r.day == day,
    {
        Date { year, month, day }
    }

    pub fn year(&self) -> (r: i32)
        ensures
            r == self.year,
    {
        self.year
    }

    pub fn month(&self) -> (r: u32)
        ensures
            r == self.month,
    {
        self.month
    }

    pub fn day(&self) -> (r: u32)
        ensures
            r == self.day,
    {
        self.day
    }
}

/// A locale tag such as `ru_RU` or `en_US` (language and territory, without
/// encoding or modifier).
#[derive(Debug, Clone)]
pub struct Locale {
    pub tag: String,
}

/// Everything that shapes one render.
#[derive(Debug, Clone)]
pub struct CalContext {
    /// First year under Gregorian rules (`ALWAYS_GREGORIAN` / `ALWAYS_JULIAN`
    /// select one system for every year).
    pub reform_year: i32,
    /// First day of the week: Monday or Sunday.
    pub week_start: Weekday,
    /// Show day-of-year numbers instead of day-of-month numbers.
    pub julian: bool,
    /// Show a week-number column.
    pub week_numbers: bool,
    pub week_type: WeekType,
    /// Emit ANSI color sequences.
    pub color: bool,
    /// Column layout: one row per weekday.
    pub vertical: bool,
    /// The date highlighted as today.
    pub today: Date,
    pub show_year_in_header: bool,
    /// Blank columns between months placed side by side.
    pub gutter_width: usize,
    pub columns: ColumnsMode,
    /// Center a range of months on the target month.
    pub span: bool,
    /// Highlight holidays.
    pub holidays: bool,
    /// Language of month and weekday names.
    pub locale: Locale,
}

impl CalContext {
    /// The context invariant: weeks start on Monday or Sunday, a fixed column
    /// count is positive, and a month column plus the gutter fits in a `usize`.
    pub open spec fn wf(&self) -> bool {
        &&& (self.week_start == Weekday::Mon || self.week_start == Weekday::Sun)
        &&& self.gutter_width + 27 <= usize::MAX
        &&& (self.columns matches ColumnsMode::Fixed(n) ==> n >= 1)
    }
}

/// One month laid out as six weeks of seven cells.
pub struct MonthData {
    pub year: i32,
    pub month: u32,
    /// Day of month in each cell, or `None` for a blank cell.
    pub days: Vec<Option<u32>>,
    /// Week number beside each populated cell when week numbers are shown.
    pub week_numbers: Vec<Option<u32>>,
    /// Weekday of each populated cell.
    pub weekdays: Vec<Option<Weekday>>,
    /// Holiday classification code of each day of the month (index `day - 1`);
    /// empty when holidays are not highlighted.
    pub holiday_codes: Vec<u32>,
}

/// What a month grid holds, as mathematical values.
pub struct MonthView {
    pub year: int,
    pub month: int,
    pub days: Seq<Option<u32>>,
    pub week_numbers: Seq<Option<u32>>,
    pub weekdays: Seq<Option<Weekday>>,
    pub holiday_codes: Seq<u32>,
}

impl View for MonthData {
    type V = MonthView;

    open spec fn view(&self) -> MonthView {
        MonthView {
            year: self.year as int,
            month: self.month as int,
            days: self.days@,
            week_numbers: self.week_numbers@,
            weekdays: self.weekdays@,
            holiday_codes: self.holiday_codes@,
        }
    }
}

/// Holiday classification codes of the days of one month (index `day - 1`).
pub struct MonthCodes {
    pub year: i32,
    pub month: u32,
    pub codes: Vec<u32>,
}

/// The holiday codes known for the months about to be rendered; empty when
/// holidays are not highlighted.
pub struct HolidayBook {
    pub entries: Vec<MonthCodes>,
}

impl MonthData {
    /// Every grid has exactly 42 cells, and a cell has a weekday exactly when
    /// it has a day.
    pub open spec fn wf(&self) -> bool {
        &&& 1 <= self.year <= 9999
        &&& 1 <= self.month <= 12
        &&& self.days@.len() == CELLS_PER_MONTH
        &&& self.week_numbers@.len() == CELLS_PER_MONTH
        &&& self.weekdays@.len() == CELLS_PER_MONTH
        &&& forall|i: int|
            0 <= i < CELLS_PER_MONTH ==> (#[trigger] self.days@[i] is Some <==> self.weekdays@[i] is Some)
        &&& forall|i: int|
            0 <= i < CELLS_PER_MONTH ==> (#[trigger] self.days@[i] matches Some(d) ==> 1 <= d <= 31)
    }
}

} // verus!

