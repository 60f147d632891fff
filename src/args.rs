//! Command-line values as plain data: the positional `[[day] month] year`
//! arguments and the construction of the render context.

use vstd::prelude::*;

use crate::calendar::{leap, month_days, month_length};
use crate::formatter::{parse_month, parse_month_spec};
use crate::text::{
    decimal, lowercase_of, parse_i32, parse_i32_spec, parse_u32, parse_u32_spec, push_decimal,
    push_signed_decimal, signed_decimal, str_eq,
};
use crate::types::{
    CalContext, ColumnsMode, Date, Locale, ReformType, WeekType, Weekday, ALWAYS_GREGORIAN,
    COLOR_ENABLED_BY_DEFAULT, GUTTER_WIDTH_REGULAR,
};

verus! {

/// The options and positional arguments of one invocation.
pub struct Args {
    /// Weeks start on Sunday.
    pub sunday: bool,
    /// Weeks start on Monday (the default).
    pub monday: bool,
    /// Show day-of-year numbers.
    pub julian: bool,
    /// Show week numbers.
    pub week_numbers: bool,
    pub week_type: WeekType,
    /// Whole-year display.
    pub year: bool,
    /// Twelve months from the target month.
    pub twelve_months: bool,
    /// Previous, target and next month.
    pub three_months: bool,
    /// Number of months to display.
    pub months_count: Option<u32>,
    /// A single month (the default).
    pub one_month: bool,
    /// Center a range of months on the target month.
    pub span: bool,
    pub reform: ReformType,
    /// ISO 8601 reform (overrides `reform`).
    pub iso: bool,
    /// First positional argument.
    pub day_arg: Option<String>,
    /// Second positional argument.
    pub month_arg: Option<String>,
    /// Third positional argument.
    pub year_arg: Option<String>,
    /// Color is switched off.
    pub color: bool,
    /// Months per row: a number, or `auto`.
    pub columns: Option<String>,
    /// Column layout.
    pub vertical: bool,
    /// Highlight holidays.
    pub holidays: bool,
}

impl Default for Args {
    fn default() -> (r: Args)
        ensures
            r.day_arg is None && r.month_arg is None && r.year_arg is None,
            r.months_count is None && r.columns is None,
            r.week_type == WeekType::Iso && r.reform == ReformType::Year1752,
            !r.sunday && !r.monday && !r.julian && !r.week_numbers && !r.year && !r.twelve_months
                && !r.three_months && !r.one_month && !r.span && !r.iso && !r.color && !r.vertical
                && !r.holidays,
    {
        Args {
            sunday: false,
            monday: false,
            julian: false,
            week_numbers: false,
            week_type: WeekType::Iso,
            year: false,
            twelve_months: false,
            three_months: false,
            months_count: None,
            one_month: false,
            span: false,
            reform: ReformType::Year1752,
            iso: false,
            day_arg: None,
            month_arg: None,
            year_arg: None,
            color: false,
            columns: None,
            vertical: false,
            holidays: false,
        }
    }
}

/// A year 1-9999.
pub open spec fn year_in_range(y: int) -> bool {
    1 <= y <= 9999
}

/// The reform year the options select: Gregorian with `--iso`, else the
/// `--reform` choice.
pub open spec fn args_reform_year(args: Args) -> int {
    if args.iso {
        ALWAYS_GREGORIAN as int
    } else {
        args.reform.spec_reform_year()
    }
}

/// The date to display from the positional arguments and today's date: one
/// argument is a four-digit year (1000-9999), else a month number 1-12, else a
/// month name; two are month and year; three are day, month and year, the day
/// lying within its month under the reform year `reform`.
pub open spec fn display_date_spec(
    d: Option<Seq<char>>,
    m: Option<Seq<char>>,
    y: Option<Seq<char>>,
    today: Date,
    reform: int,
) -> Result<(i32, u32, Option<u32>), Seq<char>> {
    match (d, m, y) {
        (Some(v), None, None) => match parse_i32_spec(v) {
            Some(num) if 1000 <= num <= 9999 => Ok((num, today.month, None)),
            Some(num) if 1 <= num <= 12 => Ok((today.year, num as u32, None)),
            _ => match parse_month_spec(v, lowercase_of(v)) {
                Some(month) => Ok((today.year, month, None)),
                None => Err("Invalid argument: "@ + v),
            },
        },
        (Some(mv), Some(yv), None) => match parse_month_spec(mv, lowercase_of(mv)) {
            None => Err("Invalid month: "@ + mv),
            Some(month) => match parse_i32_spec(yv) {
                None => Err("Invalid year: "@ + yv),
                Some(year) => if year_in_range(year as int) {
                    Ok((year, month, None))
                } else {
                    Err("Invalid year: "@ + signed_decimal(year as int) + " (must be 1-9999)"@)
                },
            },
        },
        (Some(dv), Some(mv), Some(yv)) => match parse_u32_spec(dv) {
            None => Err("Invalid day: "@ + dv),
            Some(day) => if !(1 <= day <= 31) {
                Err("Invalid day: "@ + decimal(day as nat) + " (must be 1-31)"@)
            } else {
                match parse_month_spec(mv, lowercase_of(mv)) {
                    None => Err("Invalid month: "@ + mv),
                    Some(month) => match parse_i32_spec(yv) {
                        None => Err("Invalid year: "@ + yv),
                        Some(year) => if !year_in_range(year as int) {
                            Err("Invalid year: "@ + signed_decimal(year as int) + " (must be 1-9999)"@)
                        } else if day > month_length(leap(reform, year as int), month as int) {
                            Err(
                                "Invalid day: "@ + decimal(day as nat) + " (must be 1-"@ + decimal(
                                    month_length(leap(reform, year as int), month as int) as nat,
                                ) + ")"@,
                            )
                        } else {
                            Ok((year, month, Some(day)))
                        },
                    },
                }
            },
        },
        (None, None, None) => Ok((today.year, today.month, None)),
        _ => Err("Invalid argument combination"@),
    }
}

/// View of an optional string.
pub open spec fn opt_view(o: Option<String>) -> Option<Seq<char>> {
    match o {
        Some(s) => Some(s@),
        None => None,
    }
}

/// A `Result` whose error is a string, viewed.
pub open spec fn result_view<T>(r: Result<T, String>) -> Result<T, Seq<char>> {
    match r {
        Ok(v) => Ok(v),
        Err(e) => Err(e@),
    }
}

fn message(prefix: &str, value: &str) -> (r: String)
    ensures
        r@ == prefix@ + value@,
{
    let mut s = String::from_str(prefix);
    s.append(value);
    s
}

fn year_range_message(prefix: &str, year: i32) -> (r: String)
    ensures
        r@ == prefix@ + signed_decimal(year as int) + " (must be 1-9999)"@,
{
    let mut s = String::from_str(prefix);
    push_signed_decimal(&mut s, year);
    s.append(" (must be 1-9999)");
    s
}

/// Month, then year, of the month-year and day-month-year forms.
fn month_and_year(month_arg: &str, year_arg: &str) -> (r: Result<(u32, i32), String>)
    ensures
        result_view(r) == (match parse_month_spec(month_arg@, lowercase_of(month_arg@)) {
            None => Err("Invalid month: "@ + month_arg@),
            Some(month) => match parse_i32_spec(year_arg@) {
                None => Err("Invalid year: "@ + year_arg@),
                Some(year) => if year_in_range(year as int) {
                    Ok((month, year))
                } else {
                    Err("Invalid year: "@ + signed_decimal(year as int) + " (must be 1-9999)"@)
                },
            },
        }),
        r matches Ok((m, y)) ==> 1 <= m <= 12 && 1 <= y <= 9999,
{
    let month = match parse_month(month_arg) {
        Some(m) => m,
        None => {
            return Err(message("Invalid month: ", month_arg));
        },
    };
    let year = match parse_i32(year_arg) {
        Some(y) => y,
        None => {
            return Err(message("Invalid year: ", year_arg));
        },
    };
    if !(1 <= year && year <= 9999) {
        return Err(year_range_message("Invalid year: ", year));
    }
    Ok((month, year))
}

/// The year, month and optional day to display, from the positional
/// arguments and today's date.
pub fn get_display_date(args: &Args, today: Date) -> (r: Result<(i32, u32, Option<u32>), String>)
    ensures
        result_view(r) == display_date_spec(
            opt_view(args.day_arg),
            opt_view(args.month_arg),
            opt_view(args.year_arg),
            today,
            args_reform_year(*args),
        ),
{
    match (&args.day_arg, &args.month_arg, &args.year_arg) {
        (Some(val), None, None) => {
            let v = val.as_str();
            if let Some(num) = parse_i32(v) {
                if 1000 <= num && num <= 9999 {
                    return Ok((num, today.month(), None));
                }
                if 1 <= num && num <= 12 {
                    return Ok((today.year(), num as u32, None));
                }
            }
            match parse_month(v) {
                Some(month) => Ok((today.year(), month, None)),
                None => Err(message("Invalid argument: ", v)),
            }
        },
        (Some(mv), Some(yv), None) => match month_and_year(mv.as_str(), yv.as_str()) {
            Ok((month, year)) => Ok((year, month, None)),
            Err(e) => Err(e),
        },
        (Some(dv), Some(mv), Some(yv)) => {
            let day = match parse_u32(dv.as_str()) {
                Some(d) => d,
                None => {
                    return Err(message("Invalid day: ", dv.as_str()));
                },
            };
            if !(1 <= day && day <= 31) {
                let mut s = String::from_str("Invalid day: ");
                push_decimal(&mut s, day);
                s.append(" (must be 1-31)");
                return Err(s);
            }
            match month_and_year(mv.as_str(), yv.as_str()) {
                Ok((month, year)) => {
                    let reform = if args.iso {
                        ALWAYS_GREGORIAN
                    } else {
                        args.reform.reform_year()
                    };
                    let length = month_days(reform, year, month);
                    if day > length {
                        let mut s = String::from_str("Invalid day: ");
                        push_decimal(&mut s, day);
                        s.append(" (must be 1-");
                        push_decimal(&mut s, length);
                        s.append(")");
                        return Err(s);
                    }
                    Ok((year, month, Some(day)))
                },
                Err(e) => Err(e),
            }
        },
        (None, None, None) => Ok((today.year(), today.month(), None)),
        _ => Err(String::from_str("Invalid argument combination")),
    }
}

/// The column mode of a `--columns` value: `auto` or nothing is automatic, a
/// positive number is fixed.
pub open spec fn columns_spec(c: Option<Seq<char>>) -> Result<ColumnsMode, Seq<char>> {
    match c {
        None => Ok(ColumnsMode::Auto),
        Some(s) => if s == "auto"@ {
            Ok(ColumnsMode::Auto)
        } else {
            match parse_u32_spec(s) {
                None => Err("Invalid columns value: "@ + s),
                Some(n) => if n == 0 {
                    Err("Columns must be positive"@)
                } else {
                    Ok(ColumnsMode::Fixed(n))
                },
            }
        },
    }
}

/// Number of display-mode options among year, twelve months and a month count.
pub open spec fn mode_count(args: Args) -> int {
    (if args.year {
        1int
    } else {
        0
    }) + (if args.twelve_months {
        1int
    } else {
        0
    }) + (if args.months_count is Some {
        1int
    } else {
        0
    })
}

/// A year argument, when given, must be a number 1-9999.
pub open spec fn year_arg_check(y: Option<Seq<char>>) -> Option<Seq<char>> {
    match y {
        None => None,
        Some(s) => match parse_i32_spec(s) {
            None => Some("Invalid year value: "@ + s),
            Some(year) => if year_in_range(year as int) {
                None
            } else {
                Some("Invalid year value: "@ + signed_decimal(year as int) + " (must be 1-9999)"@)
            },
        },
    }
}

/// The render context for the options: the column value is checked first,
/// then that at most one of year, twelve months and a month count is asked
/// for, then the year argument.
pub open spec fn context_spec(args: Args, today: Date, stdout_is_terminal: bool, locale: Locale) -> Result<
    CalContext,
    Seq<char>,
> {
    match columns_spec(opt_view(args.columns)) {
        Err(e) => Err(e),
        Ok(columns) => if mode_count(args) > 1 {
            Err("Options -y, -Y, and -n are mutually exclusive"@)
        } else {
            match year_arg_check(opt_view(args.year_arg)) {
                Some(e) => Err(e),
                None => Ok(
                    CalContext {
                        reform_year: if args.iso {
                            ALWAYS_GREGORIAN
                        } else {
                            args.reform.spec_reform_year() as i32
                        },
                        week_start: if args.sunday {
                            Weekday::Sun
                        } else {
                            Weekday::Mon
                        },
                        julian: args.julian,
                        week_numbers: args.week_numbers,
                        week_type: args.week_type,
                        color: !args.color && COLOR_ENABLED_BY_DEFAULT && stdout_is_terminal,
                        vertical: args.vertical,
                        today,
                        show_year_in_header: true,
                        gutter_width: if args.vertical {
                            1
                        } else {
                            GUTTER_WIDTH_REGULAR
                        },
                        columns,
                        span: args.span,
                        holidays: args.holidays,
                        locale,
                    },
                ),
            }
        },
    }
}

fn parse_columns(c: &Option<String>) -> (r: Result<ColumnsMode, String>)
    ensures
        result_view(r) == columns_spec(opt_view(*c)),
{
    match c {
        None => Ok(ColumnsMode::Auto),
        Some(s) => {
            if str_eq(s.as_str(), "auto") {
                return Ok(ColumnsMode::Auto);
            }
            match parse_u32(s.as_str()) {
                None => Err(message("Invalid columns value: ", s.as_str())),
                Some(n) => if n == 0 {
                    Err(String::from_str("Columns must be positive"))
                } else {
                    Ok(ColumnsMode::Fixed(n))
                },
            }
        },
    }
}

impl CalContext {
    /// Build the render context from the options, today's date, whether
    /// standard output is a terminal, and the locale.
    pub fn new(args: &Args, today: Date, stdout_is_terminal: bool, locale: Locale) -> (r: Result<CalContext, String>)
        ensures
            result_view(r) == context_spec(*args, today, stdout_is_terminal, locale),
            r matches Ok(c) ==> c.wf(),
    {
        let color = !args.color && COLOR_ENABLED_BY_DEFAULT && stdout_is_terminal;
        let columns = match parse_columns(&args.columns) {
            Ok(c) => c,
            Err(e) => {
                return Err(e);
            },
        };
        let mode_count: u32 = (if args.year {
            1u32
        } else {
            0
        }) + (if args.twelve_months {
            1u32
        } else {
            0
        }) + (if args.months_count.is_some() {
            1u32
        } else {
            0
        });
        if mode_count > 1 {
            return Err(String::from_str("Options -y, -Y, and -n are mutually exclusive"));
        }
        if let Some(year_str) = &args.year_arg {
            match parse_i32(year_str.as_str()) {
                None => {
                    return Err(message("Invalid year value: ", year_str.as_str()));
                },
                Some(year) => {
                    if !(1 <= year && year <= 9999) {
                        return Err(year_range_message("Invalid year value: ", year));
                    }
                },
            }
        }
        let gutter_width = if args.vertical {
            1
        } else {
            GUTTER_WIDTH_REGULAR
        };
        let reform_year = if args.iso {
            ReformType::Iso.reform_year()
        } else {
            args.reform.reform_year()
        };
        Ok(
            CalContext {
                reform_year,
                week_start: if args.sunday {
                    Weekday::Sun
                } else {
                    Weekday::Mon
                },
                julian: args.julian,
                week_numbers: args.week_numbers,
                week_type: args.week_type,
                color,
                vertical: args.vertical,
                today,
                show_year_in_header: true,
                gutter_width,
                columns,
                span: args.span,
                holidays: args.holidays,
                locale,
            },
        )
    }
}

} // verus!
