//! Multi-month layouts: grids side by side (row layout), one row per weekday
//! (column layout), and the year, twelve-month and N-month orchestrations.

use vstd::prelude::*;

use crate::calendar::{book_codes, grid_view_of, valid_year_month, week_numbers_defined};
use crate::formatter::{
    colored, column_weekday, format_month_grid, get_month_name, get_weekday_order,
    get_weekday_short_name, header_text, holiday_code_of, lines_view, month_grid_spec,
    month_width_spec, weekday_short_spec,
};
use crate::text::{
    center_text, centered, decimal, decimal_len, display_width, display_width_of, lemma_decimal_len,
    push_decimal, push_right_justified, push_spaces, right_justified, spaces,
};
use crate::types::{
    CalContext, ColumnsMode, HolidayBook, Locale, MonthCodes, MonthData, MonthView, Weekday,
    COLOR_RED, COLOR_RESET, COLOR_REVERSE, COLOR_SAND_YELLOW, COLOR_TEAL, GUTTER_WIDTH_YEAR,
};

verus! {

/// `a - b`, or 0 when `b >= a`.
pub open spec fn sat_sub(a: int, b: int) -> int {
    if a > b {
        a - b
    } else {
        0
    }
}

/// Grid `i`'s part of output row `row`: its line padded to the month width
/// (by display width) and followed by the gutter unless it is the last grid;
/// blanks when the grid has no such line.
pub open spec fn side_piece(grids: Seq<Seq<Seq<char>>>, i: int, row: int, mw: int, gutter: int) -> Seq<char> {
    let g = grids[i];
    let not_last = i < grids.len() - 1;
    if row < g.len() {
        g[row] + spaces(sat_sub(mw, display_width_of(g[row]) as int)) + if not_last {
            spaces(gutter)
        } else {
            Seq::empty()
        }
    } else {
        spaces(
            if not_last {
                mw + gutter
            } else {
                mw
            },
        )
    }
}

/// The parts of output row `row` from the first `k` grids.
pub open spec fn side_line(grids: Seq<Seq<Seq<char>>>, row: int, k: int, mw: int, gutter: int) -> Seq<char>
    decreases k,
{
    if k <= 0 {
        Seq::empty()
    } else {
        side_line(grids, row, k - 1, mw, gutter) + side_piece(grids, k - 1, row, mw, gutter)
    }
}

/// The greatest line count among the first `k` grids.
pub open spec fn max_height(grids: Seq<Seq<Seq<char>>>, k: int) -> int
    decreases k,
{
    if k <= 0 {
        0
    } else {
        let h = max_height(grids, k - 1);
        if grids[k - 1].len() > h {
            grids[k - 1].len() as int
        } else {
            h
        }
    }
}

/// Grids placed side by side, row by row.
pub open spec fn side_by_side_spec(grids: Seq<Seq<Seq<char>>>, mw: int, gutter: int) -> Seq<Seq<char>> {
    Seq::new(
        max_height(grids, grids.len() as int) as nat,
        |row: int| side_line(grids, row, grids.len() as int, mw, gutter),
    )
}

/// Views of a list of line lists.
pub open spec fn grids_view(v: Seq<Vec<String>>) -> Seq<Seq<Seq<char>>> {
    v.map_values(|g: Vec<String>| lines_view(g@))
}

proof fn lemma_max_height_bound(grids: Seq<Seq<Seq<char>>>, k: int)
    requires
        0 <= k <= grids.len(),
    ensures
        forall|i: int| 0 <= i < k ==> grids[i].len() <= max_height(grids, k),
        max_height(grids, k) >= 0,
        k > 0 ==> exists|i: int| 0 <= i < k && grids[i].len() == max_height(grids, k),
    decreases k,
{
    if k > 0 {
        lemma_max_height_bound(grids, k - 1);
    }
}

/// Append `text` (of display width `text_width`) padded with blanks to
/// `width` columns, then `gap` more blanks.
pub fn push_padded(line: &mut String, text: &str, text_width: usize, width: usize, gap: usize)
    ensures
        final(line)@ == old(line)@ + text@ + spaces(sat_sub(width as int, text_width as int)) + spaces(
            gap as int,
        ),
{
    line.append(text);
    let padding: usize = if width > text_width {
        width - text_width
    } else {
        0
    };
    push_spaces(line, padding);
    push_spaces(line, gap);
}

/// Place grids side by side: each line padded to `month_width` display
/// columns, grids separated by `gutter` blanks, shorter grids padded with
/// blank lines.
pub fn join_side_by_side(grids: &Vec<Vec<String>>, month_width: usize, gutter: usize) -> (r: Vec<String>)
    requires
        month_width + gutter <= usize::MAX,
    ensures
        lines_view(r@) == side_by_side_spec(grids_view(grids@), month_width as int, gutter as int),
{
    let ghost gv = grids_view(grids@);
    let n = grids.len();
    let mut height: usize = 0;
    let mut k: usize = 0;
    while k < n
        invariant
            n == grids@.len(),
            gv == grids_view(grids@),
            k <= n,
            height as int == max_height(gv, k as int),
        decreases n - k,
    {
        if grids[k].len() > height {
            height = grids[k].len();
        }
        k += 1;
    }
    let mut lines: Vec<String> = Vec::new();
    let mut row: usize = 0;
    while row < height
        invariant
            n == grids@.len(),
            gv == grids_view(grids@),
            height as int == max_height(gv, n as int),
            row <= height,
            month_width + gutter <= usize::MAX,
            lines@.len() == row,
            forall|j: int| 0 <= j < row ==> #[trigger] lines@[j]@ == side_line(gv, j, n as int, month_width as int, gutter as int),
        decreases height - row,
    {
        let mut line = String::new();
        let mut i: usize = 0;
        while i < n
            invariant
                n == grids@.len(),
                gv == grids_view(grids@),
                i <= n,
                month_width + gutter <= usize::MAX,
                line@ == side_line(gv, row as int, i as int, month_width as int, gutter as int),
            decreases n - i,
        {
            let grid = &grids[i];
            let ghost before = line@;
            if row < grid.len() {
                let text = &grid[row];
                let text_width = display_width(text.as_str());
                let gap = if i < n - 1 {
                    gutter
                } else {
                    0
                };
                push_padded(&mut line, text.as_str(), text_width, month_width, gap);
            } else {
                let width = if i < n - 1 {
                    month_width + gutter
                } else {
                    month_width
                };
                push_spaces(&mut line, width);
            }
            assert(line@ =~= side_line(gv, row as int, i + 1, month_width as int, gutter as int));
            i += 1;
        }
        lines.push(line);
        row += 1;
    }
    assert(lines_view(lines@) =~= side_by_side_spec(gv, month_width as int, gutter as int));
    lines
}

/// Views of a list of month grids.
pub open spec fn month_views(months: Seq<MonthData>) -> Seq<MonthView> {
    months.map_values(|m: MonthData| m@)
}

/// The row-layout lines of each month.
pub open spec fn month_grids_spec(ctx: CalContext, mds: Seq<MonthView>) -> Seq<Seq<Seq<char>>> {
    mds.map_values(|md: MonthView| month_grid_spec(ctx, md))
}

/// Months side by side in the row layout.
pub open spec fn months_side_by_side_spec(ctx: CalContext, mds: Seq<MonthView>) -> Seq<Seq<char>> {
    side_by_side_spec(
        month_grids_spec(ctx, mds),
        month_width_spec(ctx),
        ctx.gutter_width as int,
    )
}

/// Months placed side by side in the row layout, each padded to the month
/// column width and separated by the context's gutter.
pub fn render_months_side_by_side(ctx: &CalContext, months: &[MonthData]) -> (r: Vec<String>)
    requires
        ctx.wf(),
        forall|i: int| 0 <= i < months@.len() ==> (#[trigger] months@[i]).wf(),
    ensures
        lines_view(r@) == months_side_by_side_spec(*ctx, month_views(months@)),
{
    let mut grids: Vec<Vec<String>> = Vec::new();
    let mut i: usize = 0;
    while i < months.len()
        invariant
            ctx.wf(),
            forall|j: int| 0 <= j < months@.len() ==> (#[trigger] months@[j]).wf(),
            i <= months@.len(),
            grids@.len() == i,
            grids_view(grids@) == month_grids_spec(*ctx, month_views(months@)).subrange(0, i as int),
        decreases months.len() - i,
    {
        let g = format_month_grid(ctx, &months[i]);
        let ghost old_grids = grids@;
        grids.push(g);
        assert(month_views(months@)[i as int] == months@[i as int]@);
        assert(grids@[i as int] == g);
        assert(forall|j: int| 0 <= j < i ==> grids@[j] == old_grids[j]);
        assert(grids_view(grids@) =~= month_grids_spec(*ctx, month_views(months@)).subrange(0, i + 1));
        i += 1;
    }
    assert(grids_view(grids@) =~= month_grids_spec(*ctx, month_views(months@)));
    let month_width: usize = if ctx.julian {
        27
    } else if ctx.week_numbers {
        23
    } else {
        20
    };
    join_side_by_side(&grids, month_width, ctx.gutter_width)
}

/// `s` padded with blanks to `w` characters, as `{:<w}` formats it.
pub open spec fn left_justified(s: Seq<char>, w: int) -> Seq<char> {
    if s.len() >= w {
        s
    } else {
        s + spaces(w - s.len())
    }
}

/// Width of a month's header field in the column layout.
pub open spec fn vertical_month_width() -> int {
    18
}

/// A month's header in the column layout: four blanks before the first one,
/// the header left-justified in 18 characters, then the gutter; teal when
/// color is on.
pub open spec fn vertical_header_piece(ctx: CalContext, md: MonthView, first: bool) -> Seq<char> {
    colored(
        (if first {
            "    "@
        } else {
            Seq::empty()
        }) + left_justified(header_text(ctx.locale.tag@, md.year, md.month, ctx.show_year_in_header), 18)
            + spaces(ctx.gutter_width as int),
        ctx.color,
        COLOR_TEAL@,
    )
}

/// A day in the column layout: right-justified in three columns, with the
/// same color precedence as the row layout.
pub open spec fn vertical_day_cell(ctx: CalContext, md: MonthView, d: int, wd: Weekday) -> Seq<char> {
    let is_today = ctx.color && ctx.today.day == d && ctx.today.month == md.month
        && ctx.today.year == md.year;
    let is_weekend = ctx.color && (wd == Weekday::Sat || wd == Weekday::Sun);
    let code = if ctx.color {
        holiday_code_of(md, d)
    } else {
        0
    };
    let digits = decimal(d as nat);
    let pad = spaces(3 - digits.len());
    if is_today {
        pad + COLOR_REVERSE@ + digits + COLOR_RESET@
    } else if code == 2 {
        pad + COLOR_TEAL@ + digits + COLOR_RESET@
    } else if is_weekend || code == 1 || code == 8 {
        pad + COLOR_RED@ + digits + COLOR_RESET@
    } else {
        right_justified(d as nat, 3)
    }
}

/// The first `n` week slots of column `r` (weekday `wd`) in a month: slot `w`
/// is cell `r + 7 w`.
pub open spec fn vertical_month_cells(ctx: CalContext, md: MonthView, r: int, wd: Weekday, n: int) -> Seq<char>
    decreases n,
{
    if n <= 0 {
        Seq::empty()
    } else {
        vertical_month_cells(ctx, md, r, wd, n - 1) + match md.days[r + 7 * (n - 1)] {
            Some(d) => vertical_day_cell(ctx, md, d as int, wd),
            None => "   "@,
        }
    }
}

/// The slots of column `r` (weekday `wd`) for the first `k` months, gutters
/// between months.
pub open spec fn vertical_row_months(ctx: CalContext, mds: Seq<MonthView>, r: int, wd: Weekday, k: int) -> Seq<char>
    decreases k,
{
    if k <= 0 {
        Seq::empty()
    } else {
        vertical_row_months(ctx, mds, r, wd, k - 1) + (if k - 1 > 0 {
            spaces(ctx.gutter_width as int)
        } else {
            Seq::empty()
        }) + vertical_month_cells(ctx, mds[k - 1], r, wd, 6)
    }
}

/// Row `r` of the column layout: the short name of the weekday of grid column
/// `r` (sand yellow when color is on), then that column's slots in every month.
pub open spec fn vertical_row(ctx: CalContext, mds: Seq<MonthView>, r: int) -> Seq<char> {
    let wd = column_weekday(ctx, r);
    colored(weekday_short_spec(ctx.locale.tag@, wd), ctx.color, COLOR_SAND_YELLOW@) + vertical_row_months(
        ctx,
        mds,
        r,
        wd,
        mds.len() as int,
    )
}

/// The seven weekday rows of the column layout.
pub open spec fn vertical_rows(ctx: CalContext, mds: Seq<MonthView>) -> Seq<Seq<char>> {
    Seq::new(7, |r: int| vertical_row(ctx, mds, r))
}

/// The headers of the first `k` months in the column layout.
pub open spec fn vertical_headers(ctx: CalContext, mds: Seq<MonthView>, k: int) -> Seq<char>
    decreases k,
{
    if k <= 0 {
        Seq::empty()
    } else {
        vertical_headers(ctx, mds, k - 1) + vertical_header_piece(ctx, mds[k - 1], k - 1 == 0)
    }
}

/// One month in the column layout.
pub open spec fn month_vertical_spec(ctx: CalContext, md: MonthView, is_first: bool) -> Seq<Seq<char>> {
    seq![vertical_header_piece(ctx, md, is_first)] + vertical_rows(ctx, seq![md])
}

/// Several months in the column layout, followed by a blank line.
pub open spec fn months_vertical_spec(ctx: CalContext, mds: Seq<MonthView>) -> Seq<Seq<char>> {
    seq![vertical_headers(ctx, mds, mds.len() as int)] + vertical_rows(ctx, mds) + seq![Seq::empty()]
}

/// Append a month's header in the column layout.
fn push_vertical_header(line: &mut String, ctx: &CalContext, month: &MonthData, first: bool)
    requires
        ctx.wf(),
        month.wf(),
    ensures
        final(line)@ == old(line)@ + vertical_header_piece(*ctx, month@, first),
{
    let mut header = get_month_name(&ctx.locale, month.month);
    if ctx.show_year_in_header {
        header.append(" ");
        push_decimal(&mut header, month.year as u32);
    }
    let mut piece = String::new();
    if first {
        piece.append("    ");
    }
    let n = header.as_str().unicode_len();
    piece.append(header.as_str());
    if n < 18 {
        push_spaces(&mut piece, 18 - n);
    }
    push_spaces(&mut piece, ctx.gutter_width);
    if ctx.color {
        line.append(COLOR_TEAL);
        line.append(piece.as_str());
        line.append(COLOR_RESET);
    } else {
        line.append(piece.as_str());
    }
    assert(line@ =~= old(line)@ + vertical_header_piece(*ctx, month@, first));
}

/// Append a day cell of the column layout.
fn push_vertical_day(line: &mut String, ctx: &CalContext, day: u32, month: &MonthData, weekday: Weekday)
    requires
        1 <= day <= 31,
    ensures
        final(line)@ == old(line)@ + vertical_day_cell(*ctx, month@, day as int, weekday),
{
    let is_today = ctx.color && ctx.today.day() == day && ctx.today.month() == month.month
        && ctx.today.year() == month.year;
    let is_weekend = ctx.color && ctx.is_weekend(weekday);
    let code: u32 = if ctx.color {
        if ((day - 1) as usize) < month.holiday_codes.len() {
            month.holiday_codes[(day - 1) as usize]
        } else {
            0
        }
    } else {
        0
    };
    let len = decimal_len(day);
    proof {
        lemma_decimal_len(day as nat);
    }
    if is_today || code == 2 || is_weekend || code == 1 || code == 8 {
        push_spaces(line, 3 - len);
        if is_today {
            line.append(COLOR_REVERSE);
        } else if code == 2 {
            line.append(COLOR_TEAL);
        } else {
            line.append(COLOR_RED);
        }
        push_decimal(line, day);
        line.append(COLOR_RESET);
    } else {
        push_right_justified(line, day, 3);
    }
    assert(line@ =~= old(line)@ + vertical_day_cell(*ctx, month@, day as int, weekday));
}

/// The seven weekday rows of the column layout for some months.
fn vertical_row_lines(ctx: &CalContext, months: &[MonthData]) -> (r: Vec<String>)
    requires
        ctx.wf(),
        forall|i: int| 0 <= i < months@.len() ==> (#[trigger] months@[i]).wf(),
    ensures
        lines_view(r@) == vertical_rows(*ctx, month_views(months@)),
{
    let ghost mds = month_views(months@);
    let weekday_order = get_weekday_order(ctx.week_start);
    let mut lines: Vec<String> = Vec::new();
    let mut row: usize = 0;
    while row < 7
        invariant
            ctx.wf(),
            forall|i: int| 0 <= i < months@.len() ==> (#[trigger] months@[i]).wf(),
            mds == month_views(months@),
            forall|k: int| 0 <= k < 7 ==> #[trigger] weekday_order@[k] == column_weekday(*ctx, k),
            row <= 7,
            lines@.len() == row,
            forall|j: int| 0 <= j < row ==> #[trigger] lines@[j]@ == vertical_row(*ctx, mds, j),
        decreases 7 - row,
    {
        let weekday = weekday_order[row];
        let short = get_weekday_short_name(weekday, &ctx.locale);
        let mut line = String::new();
        if ctx.color {
            line.append(COLOR_SAND_YELLOW);
            line.append(short.as_str());
            line.append(COLOR_RESET);
        } else {
            line.append(short.as_str());
        }
        let ghost lead = line@;
        let mut m: usize = 0;
        while m < months.len()
            invariant
                ctx.wf(),
                forall|i: int| 0 <= i < months@.len() ==> (#[trigger] months@[i]).wf(),
                mds == month_views(months@),
                weekday == column_weekday(*ctx, row as int),
                row < 7,
                m <= months@.len(),
                line@ == lead + vertical_row_months(*ctx, mds, row as int, weekday, m as int),
            decreases months.len() - m,
        {
            let ghost before = line@;
            if m > 0 {
                push_spaces(&mut line, ctx.gutter_width);
            }
            let ghost mid = line@;
            let month = &months[m];
            assert(mds[m as int] == month@);
            let mut week: usize = 0;
            while week < 6
                invariant
                    month.wf(),
                    week <= 6,
                    row < 7,
                    line@ == mid + vertical_month_cells(*ctx, month@, row as int, weekday, week as int),
                decreases 6 - week,
            {
                let idx = row + 7 * week;
                match month.days[idx] {
                    Some(day) => {
                        push_vertical_day(&mut line, ctx, day, month, weekday);
                    },
                    None => {
                        line.append("   ");
                    },
                }
                assert(line@ =~= mid + vertical_month_cells(*ctx, month@, row as int, weekday, week + 1));
                week += 1;
            }
            assert(line@ =~= lead + vertical_row_months(*ctx, mds, row as int, weekday, m + 1));
            m += 1;
        }
        assert(line@ == vertical_row(*ctx, mds, row as int));
        lines.push(line);
        row += 1;
    }
    assert(lines_view(lines@) =~= vertical_rows(*ctx, mds));
    lines
}

/// One month in the column layout: its header line (indented when `is_first`),
/// then one row per weekday with the days of that weekday across the weeks.
pub fn render_month_vertical(ctx: &CalContext, month: &MonthData, is_first: bool) -> (r: Vec<String>)
    requires
        ctx.wf(),
        month.wf(),
    ensures
        lines_view(r@) == month_vertical_spec(*ctx, month@, is_first),
{
    let mut header = String::new();
    push_vertical_header(&mut header, ctx, month, is_first);
    let one = [month.clone_grid()];
    assert(month_views(one@) =~= seq![month@]);
    let rows = vertical_row_lines(ctx, &one);
    let mut lines: Vec<String> = Vec::new();
    lines.push(header);
    let mut rows = rows;
    lines.append(&mut rows);
    assert(lines_view(lines@) =~= month_vertical_spec(*ctx, month@, is_first));
    lines
}

/// Several months in the column layout: one header line, one row per weekday
/// with each month's slots separated by the gutter, then a blank line.
pub fn render_three_months_vertical(ctx: &CalContext, months: &[MonthData]) -> (r: Vec<String>)
    requires
        ctx.wf(),
        forall|i: int| 0 <= i < months@.len() ==> (#[trigger] months@[i]).wf(),
    ensures
        lines_view(r@) == months_vertical_spec(*ctx, month_views(months@)),
{
    let ghost mds = month_views(months@);
    let mut header = String::new();
    let mut i: usize = 0;
    while i < months.len()
        invariant
            ctx.wf(),
            forall|j: int| 0 <= j < months@.len() ==> (#[trigger] months@[j]).wf(),
            mds == month_views(months@),
            i <= months@.len(),
            header@ == vertical_headers(*ctx, mds, i as int),
        decreases months.len() - i,
    {
        assert(mds[i as int] == months@[i as int]@);
        push_vertical_header(&mut header, ctx, &months[i], i == 0);
        i += 1;
    }
    let mut rows = vertical_row_lines(ctx, months);
    let mut lines: Vec<String> = Vec::new();
    lines.push(header);
    lines.append(&mut rows);
    lines.push(String::new());
    assert(lines_view(lines@) =~= months_vertical_spec(*ctx, mds));
    lines
}

/// Line blocks one after another.
pub open spec fn concat_lines(blocks: Seq<Seq<Seq<char>>>) -> Seq<Seq<char>>
    decreases blocks.len(),
{
    if blocks.len() == 0 {
        Seq::empty()
    } else {
        concat_lines(blocks.drop_last()) + blocks.last()
    }
}

/// Month number `t` counted from January of year 0 (`year * 12 + month - 1`)
/// can be rendered: its year is 1-9999 and, with week numbers shown, all its
/// days exist in the proleptic Gregorian calendar.
pub open spec fn month_ok(ctx: CalContext, t: int) -> bool {
    &&& 12 <= t < 120000
    &&& week_numbers_defined(ctx, t / 12, t % 12 + 1)
}

/// Every month of `n` from month number `t0` on can be rendered.
pub open spec fn months_ok(ctx: CalContext, t0: int, n: int) -> bool {
    forall|t: int| t0 <= t < t0 + n ==> #[trigger] month_ok(ctx, t)
}

/// The grid of month number `t`, with the book's holiday codes.
pub open spec fn view_at(ctx: CalContext, t: int, book: Seq<MonthCodes>) -> MonthView {
    grid_view_of(ctx, t / 12, t % 12 + 1, book_codes(book, t / 12, t % 12 + 1))
}

/// The grids of `n` consecutive months from month number `t0`.
pub open spec fn views_from(ctx: CalContext, t0: int, n: int, book: Seq<MonthCodes>) -> Seq<MonthView> {
    Seq::new(n as nat, |j: int| view_at(ctx, t0 + j, book))
}

/// The context with other header and gutter settings.
pub open spec fn with_header_spec(ctx: CalContext, show_year: bool, gutter: usize) -> CalContext {
    CalContext { show_year_in_header: show_year, gutter_width: gutter, ..ctx }
}

/// A copy of the context with other header and gutter settings.
pub fn with_header(ctx: &CalContext, show_year: bool, gutter: usize) -> (r: CalContext)
    ensures
        r == with_header_spec(*ctx, show_year, gutter),
{
    CalContext {
        reform_year: ctx.reform_year,
        week_start: ctx.week_start,
        julian: ctx.julian,
        week_numbers: ctx.week_numbers,
        week_type: ctx.week_type,
        color: ctx.color,
        vertical: ctx.vertical,
        today: ctx.today,
        show_year_in_header: show_year,
        gutter_width: gutter,
        columns: ctx.columns,
        span: ctx.span,
        holidays: ctx.holidays,
        locale: Locale { tag: ctx.locale.tag.clone() },
    }
}

/// The grids of `n` consecutive months from month number `t0`.
fn months_from(ctx: &CalContext, t0: u32, n: u32, book: &HolidayBook) -> (r: Vec<MonthData>)
    requires
        ctx.wf(),
        months_ok(*ctx, t0 as int, n as int),
        t0 + n <= 120000,
    ensures
        month_views(r@) == views_from(*ctx, t0 as int, n as int, book.entries@),
        r@.len() == n,
        forall|i: int| 0 <= i < r@.len() ==> (#[trigger] r@[i]).wf(),
{
    let mut months: Vec<MonthData> = Vec::new();
    let mut j: u32 = 0;
    while j < n
        invariant
            ctx.wf(),
            months_ok(*ctx, t0 as int, n as int),
            t0 + n <= 120000,
            j <= n,
            months@.len() == j,
            forall|i: int| 0 <= i < j ==> (#[trigger] months@[i]).wf(),
            month_views(months@) == views_from(*ctx, t0 as int, j as int, book.entries@),
        decreases n - j,
    {
        let t = t0 + j;
        assert(month_ok(*ctx, t as int));
        let year = (t / 12) as i32;
        let month = t % 12 + 1;
        let m = MonthData::with_book(ctx, year, month, book);
        assert(m@ == view_at(*ctx, t0 + j, book.entries@));
        let ghost prev = months@;
        months.push(m);
        assert(forall|i: int| 0 <= i < j ==> months@[i] == prev[i]);
        assert forall|i: int| 0 <= i < j + 1 implies #[trigger] month_views(months@)[i] == views_from(
            *ctx,
            t0 as int,
            j + 1,
            book.entries@,
        )[i] by {
            if i < j {
                assert(month_views(prev)[i] == views_from(*ctx, t0 as int, j as int, book.entries@)[i]);
            }
        }
        assert(month_views(months@) =~= views_from(*ctx, t0 as int, j + 1, book.entries@));
        j += 1;
    }
    months
}

/// Append a block of lines.
fn push_block(out: &mut Vec<String>, block: Vec<String>)
    ensures
        lines_view(final(out)@) == lines_view(old(out)@) + lines_view(block@),
{
    let ghost added = block@;
    let mut block = block;
    out.append(&mut block);
    assert(lines_view(out@) =~= lines_view(old(out)@) + lines_view(added));
}

/// The lines of one month: the column layout when the context asks for it,
/// else the row layout.
pub open spec fn month_spec(ctx: CalContext, md: MonthView) -> Seq<Seq<char>> {
    if ctx.vertical {
        month_vertical_spec(ctx, md, true)
    } else {
        month_grid_spec(ctx, md)
    }
}

/// Several months: the column layout when the context asks for it, else side
/// by side.
pub open spec fn months_spec(ctx: CalContext, mds: Seq<MonthView>) -> Seq<Seq<char>> {
    if ctx.vertical {
        months_vertical_spec(ctx, mds)
    } else {
        months_side_by_side_spec(ctx, mds)
    }
}

/// Render one month.
pub fn render_month(ctx: &CalContext, year: i32, month: u32, book: &HolidayBook) -> (r: Vec<String>)
    requires
        ctx.wf(),
        valid_year_month(year as int, month as int),
        week_numbers_defined(*ctx, year as int, month as int),
    ensures
        lines_view(r@) == month_spec(
            *ctx,
            grid_view_of(*ctx, year as int, month as int, book_codes(book.entries@, year as int, month as int)),
        ),
{
    let month_data = MonthData::with_book(ctx, year, month, book);
    if ctx.vertical {
        render_month_vertical(ctx, &month_data, true)
    } else {
        format_month_grid(ctx, &month_data)
    }
}

/// Render a group of months.
fn render_group(ctx: &CalContext, months: &Vec<MonthData>) -> (r: Vec<String>)
    requires
        ctx.wf(),
        forall|i: int| 0 <= i < months@.len() ==> (#[trigger] months@[i]).wf(),
    ensures
        lines_view(r@) == months_spec(*ctx, month_views(months@)),
{
    if ctx.vertical {
        render_three_months_vertical(ctx, months.as_slice())
    } else {
        render_months_side_by_side(ctx, months.as_slice())
    }
}

/// Render the previous, the given and the next month.
pub fn render_three_months(ctx: &CalContext, year: i32, month: u32, book: &HolidayBook) -> (r: Vec<String>)
    requires
        ctx.wf(),
        valid_year_month(year as int, month as int),
        months_ok(*ctx, year * 12 + month - 2, 3),
    ensures
        lines_view(r@) == months_spec(*ctx, views_from(*ctx, year * 12 + month - 2, 3, book.entries@)),
{
    assert(month_ok(*ctx, year * 12 + month - 2));
    assert(month_ok(*ctx, year * 12 + month));
    let t0 = (year as u32) * 12 + month - 2;
    let months = months_from(ctx, t0, 3, book);
    render_group(ctx, &months)
}

/// The context of the months of a whole-year display: no year in the month
/// headers, and a wider gutter in the row layout.
pub open spec fn year_ctx(ctx: CalContext) -> CalContext {
    with_header_spec(ctx, false, if ctx.vertical { 1 } else { 3 })
}

/// A whole year: the year centered over the width of three months, a blank
/// line, then four rows of three months.
pub open spec fn year_spec(ctx: CalContext, year: int, book: Seq<MonthCodes>) -> Seq<Seq<char>> {
    let title = decimal(year as nat);
    let mctx = year_ctx(ctx);
    seq![centered(title, display_width_of(title) as int, if ctx.vertical { 62 } else { 66 }), Seq::empty()]
        + concat_lines(Seq::new(4, |k: int| months_spec(mctx, views_from(mctx, year * 12 + 3 * k, 3, book))))
}

/// Render a whole year.
pub fn render_year(ctx: &CalContext, year: i32, book: &HolidayBook) -> (r: Vec<String>)
    requires
        ctx.wf(),
        1 <= year <= 9999,
        months_ok(*ctx, year * 12, 12),
    ensures
        lines_view(r@) == year_spec(*ctx, year as int, book.entries@),
{
    let mut title = String::new();
    push_decimal(&mut title, year as u32);
    let width: usize = if ctx.vertical {
        62
    } else {
        66
    };
    let mut lines: Vec<String> = Vec::new();
    lines.push(center_text(title.as_str(), width));
    lines.push(String::new());
    let gutter: usize = if ctx.vertical {
        1
    } else {
        GUTTER_WIDTH_YEAR
    };
    let month_ctx = with_header(ctx, false, gutter);
    let ghost mctx = month_ctx;
    let ghost blocks = Seq::new(4, |k: int| months_spec(mctx, views_from(mctx, year * 12 + 3 * k, 3, book.entries@)));
    let ghost head = lines_view(lines@);
    assert(months_ok(mctx, year * 12, 12)) by {
        assert forall|t: int| year * 12 <= t < year * 12 + 12 implies #[trigger] month_ok(mctx, t) by {
            assert(month_ok(*ctx, t));
        }
    }
    let mut row: u32 = 0;
    while row < 4
        invariant
            row <= 4,
            1 <= year <= 9999,
            mctx == month_ctx,
            month_ctx == year_ctx(*ctx),
            month_ctx.wf(),
            months_ok(mctx, year * 12, 12),
            blocks == Seq::new(4, |k: int| months_spec(mctx, views_from(mctx, year * 12 + 3 * k, 3, book.entries@))),
            lines_view(lines@) == head + concat_lines(blocks.subrange(0, row as int)),
        decreases 4 - row,
    {
        assert(months_ok(mctx, year * 12 + 3 * row, 3)) by {
            assert forall|t: int| year * 12 + 3 * row <= t < year * 12 + 3 * row + 3 implies #[trigger] month_ok(mctx, t) by {
                assert(year * 12 <= t < year * 12 + 12);
            }
        }
        let months = months_from(&month_ctx, (year as u32) * 12 + 3 * row, 3, book);
        let block = render_group(&month_ctx, &months);
        push_block(&mut lines, block);
        assert(blocks.subrange(0, row + 1).drop_last() =~= blocks.subrange(0, row as int));
        row += 1;
    }
    assert(blocks.subrange(0, 4) =~= blocks);
    lines
}

/// Twelve months from a start month: month headers with the year, the wide
/// gutter; rows of three side by side, or one month after another in the
/// column layout.
pub open spec fn twelve_spec(ctx: CalContext, t0: int, book: Seq<MonthCodes>) -> Seq<Seq<char>> {
    let mctx = with_header_spec(ctx, true, 3);
    if ctx.vertical {
        concat_lines(Seq::new(12, |i: int| month_vertical_spec(mctx, view_at(mctx, t0 + i, book), true) + seq![Seq::<char>::empty()]))
    } else {
        concat_lines(Seq::new(4, |k: int| months_side_by_side_spec(mctx, views_from(mctx, t0 + 3 * k, 3, book))))
    }
}

/// Render twelve consecutive months from the given one.
pub fn render_twelve_months(ctx: &CalContext, start_year: i32, start_month: u32, book: &HolidayBook) -> (r: Vec<String>)
    requires
        ctx.wf(),
        valid_year_month(start_year as int, start_month as int),
        months_ok(*ctx, start_year * 12 + start_month - 1, 12),
    ensures
        lines_view(r@) == twelve_spec(*ctx, start_year * 12 + start_month - 1, book.entries@),
{
    let t0 = (start_year as u32) * 12 + start_month - 1;
    assert(month_ok(*ctx, t0 + 11));
    let month_ctx = with_header(ctx, true, GUTTER_WIDTH_YEAR);
    let ghost mctx = month_ctx;
    assert(months_ok(mctx, t0 as int, 12)) by {
        assert forall|t: int| t0 <= t < t0 + 12 implies #[trigger] month_ok(mctx, t) by {
            assert(month_ok(*ctx, t));
        }
    }
    let months = months_from(&month_ctx, t0, 12, book);
    let mut lines: Vec<String> = Vec::new();
    if ctx.vertical {
        let ghost blocks = Seq::new(12, |i: int| month_vertical_spec(mctx, view_at(mctx, t0 + i, book.entries@), true) + seq![Seq::<char>::empty()]);
        let mut i: usize = 0;
        while i < 12
            invariant
                i <= 12,
                mctx == month_ctx,
                month_ctx.wf(),
                months@.len() == 12,
                forall|j: int| 0 <= j < months@.len() ==> (#[trigger] months@[j]).wf(),
                month_views(months@) == views_from(mctx, t0 as int, 12, book.entries@),
                blocks == Seq::new(12, |i: int| month_vertical_spec(mctx, view_at(mctx, t0 + i, book.entries@), true) + seq![Seq::<char>::empty()]),
                lines_view(lines@) == concat_lines(blocks.subrange(0, i as int)),
            decreases 12 - i,
        {
            assert(months@[i as int]@ == month_views(months@)[i as int]);
            let mut block = render_month_vertical(&month_ctx, &months[i], true);
            block.push(String::new());
            assert(lines_view(block@) =~= blocks[i as int]);
            push_block(&mut lines, block);
            assert(blocks.subrange(0, i + 1).drop_last() =~= blocks.subrange(0, i as int));
            i += 1;
        }
        assert(blocks.subrange(0, 12) =~= blocks);
    } else {
        let ghost blocks = Seq::new(4, |k: int| months_side_by_side_spec(mctx, views_from(mctx, t0 + 3 * k, 3, book.entries@)));
        let mut k: u32 = 0;
        while k < 4
            invariant
                k <= 4,
                mctx == month_ctx,
                month_ctx.wf(),
                months_ok(mctx, t0 as int, 12),
                t0 + 12 <= 120000,
                blocks == Seq::new(4, |k: int| months_side_by_side_spec(mctx, views_from(mctx, t0 + 3 * k, 3, book.entries@))),
                lines_view(lines@) == concat_lines(blocks.subrange(0, k as int)),
            decreases 4 - k,
        {
            assert(months_ok(mctx, t0 + 3 * k, 3)) by {
                assert forall|t: int| t0 + 3 * k <= t < t0 + 3 * k + 3 implies #[trigger] month_ok(mctx, t) by {
                    assert(t0 <= t < t0 + 12);
                }
            }
            let chunk = months_from(&month_ctx, t0 + 3 * k, 3, book);
            let block = render_months_side_by_side(&month_ctx, chunk.as_slice());
            push_block(&mut lines, block);
            assert(blocks.subrange(0, k + 1).drop_last() =~= blocks.subrange(0, k as int));
            k += 1;
        }
        assert(blocks.subrange(0, 4) =~= blocks);
    }
    lines
}

/// First month number of an N-month display: the target month, or with span
/// centering (N > 1) (N - 1) / 2 months before it.
pub open spec fn count_start(ctx: CalContext, start_year: int, start_month: int, count: int) -> int {
    let t = start_year * 12 + start_month - 1;
    if ctx.span && count > 1 {
        t - (count - 1) / 2
    } else {
        t
    }
}

/// `n` months from month number `t`: in the column layout one month after
/// another, each followed by a blank line; else rows of `per_row` months side
/// by side (the last row may hold fewer).
pub open spec fn months_run_spec(ctx: CalContext, t: int, n: int, per_row: int, book: Seq<MonthCodes>) -> Seq<Seq<char>>
    decreases n,
{
    if n <= 0 || per_row <= 0 {
        Seq::empty()
    } else if ctx.vertical {
        month_vertical_spec(ctx, view_at(ctx, t, book), true) + seq![Seq::<char>::empty()] + months_run_spec(ctx, t + 1, n - 1, per_row, book)
    } else {
        let k = if per_row < n {
            per_row
        } else {
            n
        };
        months_side_by_side_spec(ctx, views_from(ctx, t, k, book)) + months_run_spec(ctx, t + k, n - k, per_row, book)
    }
}

/// Months in the first block of a run of `n` months: one in the column layout,
/// else up to `per_row`.
pub open spec fn run_step(ctx: CalContext, n: int, per_row: int) -> int {
    if ctx.vertical {
        1
    } else if per_row < n {
        per_row
    } else {
        n
    }
}

/// The lines of the block of `k` months from month number `t`: one month in
/// the column layout followed by a blank line, else a row side by side.
pub open spec fn run_block(ctx: CalContext, t: int, k: int, book: Seq<MonthCodes>) -> Seq<Seq<char>> {
    if ctx.vertical {
        month_vertical_spec(ctx, view_at(ctx, t, book), true) + seq![Seq::<char>::empty()]
    } else {
        months_side_by_side_spec(ctx, views_from(ctx, t, k, book))
    }
}

proof fn lemma_run_unfold(ctx: CalContext, t: int, n: int, per_row: int, book: Seq<MonthCodes>)
    requires
        n > 0,
        per_row >= 1,
    ensures
        months_run_spec(ctx, t, n, per_row, book) == run_block(ctx, t, run_step(ctx, n, per_row), book)
            + months_run_spec(ctx, t + run_step(ctx, n, per_row), n - run_step(ctx, n, per_row), per_row, book),
{
}

/// Render one block of a run of months.
fn render_run_block(ctx: &CalContext, t: u32, k: u32, book: &HolidayBook) -> (r: Vec<String>)
    requires
        ctx.wf(),
        k >= 1,
        ctx.vertical ==> k == 1,
        months_ok(*ctx, t as int, k as int),
        t + k <= 120000,
    ensures
        lines_view(r@) == run_block(*ctx, t as int, k as int, book.entries@),
{
    let months = months_from(ctx, t, k, book);
    if ctx.vertical {
        assert(month_views(months@)[0] == months@[0]@);
        let mut block = render_month_vertical(ctx, &months[0], true);
        block.push(String::new());
        assert(lines_view(block@) =~= run_block(*ctx, t as int, k as int, book.entries@));
        block
    } else {
        render_months_side_by_side(ctx, months.as_slice())
    }
}

/// Render `count` months from the given one (or centered on it with span
/// centering), `per_row` months per row in the row layout.
pub fn render_months_count_for(
    ctx: &CalContext,
    start_year: i32,
    start_month: u32,
    count: u32,
    per_row: u32,
    book: &HolidayBook,
) -> (r: Vec<String>)
    requires
        ctx.wf(),
        valid_year_month(start_year as int, start_month as int),
        per_row >= 1,
        months_ok(*ctx, count_start(*ctx, start_year as int, start_month as int, count as int), count as int),
    ensures
        lines_view(r@) == months_run_spec(
            *ctx,
            count_start(*ctx, start_year as int, start_month as int, count as int),
            count as int,
            per_row as int,
            book.entries@,
        ),
{
    let ghost t0 = count_start(*ctx, start_year as int, start_month as int, count as int);
    let mut lines: Vec<String> = Vec::new();
    if count == 0 {
        return lines;
    }
    assert(month_ok(*ctx, t0));
    assert(month_ok(*ctx, t0 + count - 1));
    let target = (start_year as u32) * 12 + start_month - 1;
    let start: u32 = if ctx.span && count > 1 {
        target - (count - 1) / 2
    } else {
        target
    };
    assert(start == t0);
    let mut t: u32 = start;
    let mut left: u32 = count;
    while left > 0
        invariant
            ctx.wf(),
            per_row >= 1,
            t0 <= t,
            t + left == t0 + count,
            t0 + count <= 120000,
            months_ok(*ctx, t0, count as int),
            lines_view(lines@) + months_run_spec(*ctx, t as int, left as int, per_row as int, book.entries@)
                == months_run_spec(*ctx, t0, count as int, per_row as int, book.entries@),
        decreases left,
    {
        let ghost before = lines_view(lines@);
        let k: u32 = if ctx.vertical {
            1
        } else if per_row < left {
            per_row
        } else {
            left
        };
        assert(months_ok(*ctx, t as int, k as int)) by {
            assert forall|u: int| t <= u < t + k implies #[trigger] month_ok(*ctx, u) by {
                assert(t0 <= u < t0 + count);
            }
        }
        let block = render_run_block(ctx, t, k, book);
        push_block(&mut lines, block);
        proof {
            lemma_run_unfold(*ctx, t as int, left as int, per_row as int, book.entries@);
        }
        assert(lines_view(lines@) + months_run_spec(*ctx, t + k, left - k, per_row as int, book.entries@)
            =~= before + months_run_spec(*ctx, t as int, left as int, per_row as int, book.entries@));
        t = t + k;
        left = left - k;
    }
    assert(lines_view(lines@) =~= lines_view(lines@) + months_run_spec(*ctx, t as int, 0, per_row as int, book.entries@));
    lines
}

/// Render `count` months, with as many months per row as the context's
/// column mode gives (from the terminal width when it is automatic).
pub fn render_months_count(ctx: &CalContext, start_year: i32, start_month: u32, count: u32, book: &HolidayBook) -> (r: Vec<String>)
    requires
        ctx.wf(),
        valid_year_month(start_year as int, start_month as int),
        months_ok(*ctx, count_start(*ctx, start_year as int, start_month as int, count as int), count as int),
    ensures
        exists|per_row: int|
            1 <= per_row && (ctx.columns matches ColumnsMode::Fixed(n) ==> per_row == n) && (
            ctx.columns is Auto ==> per_row <= 3)
                && lines_view(r@) == months_run_spec(
                *ctx,
                count_start(*ctx, start_year as int, start_month as int, count as int),
                count as int,
                per_row,
                book.entries@,
            ),
{
    let per_row = ctx.months_per_row();
    render_months_count_for(ctx, start_year, start_month, count, per_row, book)
}

} // verus!



