//! Holiday classification: per-day codes, the one-entry cache with its
//! whole-year priority rule, and the country derived from a locale.

use vstd::prelude::*;

use crate::calendar::{gregorian_ordinal, gregorian_valid, proleptic_ordinal};
use crate::types::CalContext;
use crate::text::{find_char, index_of, is_digit, locale_name, locale_name_spec, str_eq};

verus! {

/// Name of the extension module that provides holiday data.
pub const PLUGIN_NAME: &'static str = "holiday_highlighter";

/// Version of the extension module interface.
pub const PLUGIN_VERSION: &'static str = "0.1.0";

/// A working day.
pub const CODE_WORKING: u32 = 0;

/// A weekend day.
pub const CODE_WEEKEND: u32 = 1;

/// A shortened working day.
pub const CODE_SHORTENED: u32 = 2;

/// A public holiday.
pub const CODE_PUBLIC_HOLIDAY: u32 = 8;

/// Length in bytes of the UTF-8 encoding of a string.
pub open spec fn byte_len(s: Seq<char>) -> int {
    (vstd::utf8::encode_utf8(s).len() as usize) as int
}

/// Code of the character at index `idx` of a classification string: its
/// decimal digit value, or 0 (unknown, treated as working) when there is no
/// such character or it is not a digit.
pub open spec fn code_spec(data: Seq<char>, idx: int) -> u32 {
    if 0 <= idx < data.len() && is_digit(data[idx]) {
        (data[idx] as u32 - '0' as u32) as u32
    } else {
        0
    }
}

/// The code at index `idx` of a classification string.
pub fn code_at(data: &str, idx: usize) -> (r: u32)
    ensures
        r == code_spec(data@, idx as int),
        r <= 9,
{
    if idx < data.unicode_len() {
        let c = data.get_char(idx);
        if '0' <= c && c <= '9' {
            return (c as u32) - ('0' as u32);
        }
    }
    0
}

/// The codes of days 1..=n of a month's classification string (index `d - 1`).
pub open spec fn month_codes_spec(data: Seq<char>, n: int) -> Seq<u32> {
    Seq::new(n as nat, |i: int| code_spec(data, i))
}

/// The codes of the first `n` days of a month's classification string.
pub fn month_codes(data: &str, n: u32) -> (r: Vec<u32>)
    ensures
        r@ == month_codes_spec(data@, n as int),
{
    let mut out: Vec<u32> = Vec::new();
    let mut i: u32 = 0;
    while i < n
        invariant
            i <= n,
            out@ == month_codes_spec(data@, i as int),
        decreases n - i,
    {
        out.push(code_at(data, i as usize));
        assert(out@ =~= month_codes_spec(data@, i + 1));
        i += 1;
    }
    out
}

/// The one resident cache entry: a year, a month (0: the whole year) and the
/// classification string.
pub struct CacheEntry {
    pub year: i32,
    pub month: u32,
    pub data: String,
}

/// The holiday cache: at most one entry.
pub struct HolidayCache {
    pub entry: Option<CacheEntry>,
}

/// What the cache holds: year, month (0: whole year) and the codes.
pub type CacheView = Option<(int, int, Seq<char>)>;

impl View for HolidayCache {
    type V = CacheView;

    open spec fn view(&self) -> CacheView {
        match self.entry {
            Some(e) => Some((e.year as int, e.month as int, e.data@)),
            None => None,
        }
    }
}

/// The cache after a fetch of month `m` of year `y`: a whole-year entry of the
/// same year stays; anything else is replaced.
pub open spec fn store_month_spec(c: CacheView, y: int, m: int, data: Seq<char>) -> CacheView {
    match c {
        Some((cy, cm, _)) if cy == y && cm == 0 => c,
        _ => Some((y, m, data)),
    }
}

/// The cache after a fetch of the whole year `y`: always replaced.
pub open spec fn store_year_spec(c: CacheView, y: int, data: Seq<char>) -> CacheView {
    Some((y, 0, data))
}

/// What a cache lookup decides for a date: `Some(code)` when the cache answers,
/// `None` when the month must be fetched. Only a whole-year entry of the year
/// or an entry of the same month answers. A whole-year entry is indexed by the
/// proleptic Gregorian day of year (0 for a date that does not exist there);
/// an index past the end of the string (in bytes) falls through to a fetch.
pub open spec fn lookup_spec(c: CacheView, bytes: int, y: int, m: int, d: int) -> Option<u32> {
    match c {
        Some((cy, cm, data)) if cy == y => {
            if cm == 0 {
                if !gregorian_valid(y, m, d) {
                    Some(0u32)
                } else {
                    let idx = gregorian_ordinal(y, m, d) - 1;
                    if idx < bytes {
                        Some(code_spec(data, idx))
                    } else {
                        None
                    }
                }
            } else if cm == m {
                if d - 1 < bytes {
                    Some(code_spec(data, d - 1))
                } else {
                    None
                }
            } else {
                None
            }
        },
        _ => None,
    }
}

/// Length in bytes of the cached string (0 when empty).
pub open spec fn cached_bytes(c: &HolidayCache) -> int {
    match c.entry {
        Some(e) => byte_len(e.data@),
        None => 0,
    }
}

impl HolidayCache {
    pub fn new() -> (r: HolidayCache)
        ensures
            r@ == None::<(int, int, Seq<char>)>,
    {
        HolidayCache { entry: None }
    }

    /// The cache holds the whole year `year`.
    pub fn has_year(&self, year: i32) -> (r: bool)
        ensures
            r == (self@ matches Some((cy, cm, _)) && cy == year && cm == 0),
    {
        match &self.entry {
            Some(e) => e.year == year && e.month == 0,
            None => false,
        }
    }

    /// The cache holds month `month` of `year`, or the whole year.
    pub fn covers(&self, year: i32, month: u32) -> (r: bool)
        ensures
            r == (self@ matches Some((cy, cm, _)) && cy == year && (cm == month || cm == 0)),
    {
        match &self.entry {
            Some(e) => e.year == year && (e.month == month || e.month == 0),
            None => false,
        }
    }

    /// Answer a lookup from the cache, or `None` when a fetch is needed.
    pub fn lookup(&self, year: i32, month: u32, day: u32) -> (r: Option<u32>)
        requires
            1 <= year <= 9999,
            1 <= day,
        ensures
            r == lookup_spec(self@, cached_bytes(self), year as int, month as int, day as int),
    {
        match &self.entry {
            Some(e) => {
                if e.year != year {
                    return None;
                }
                let bytes = e.data.as_str().len();
                assert(bytes == byte_len(e.data@));
                let idx: usize = if e.month == 0 {
                    match proleptic_ordinal(year, month, day) {
                        Some(o) => (o - 1) as usize,
                        None => {
                            return Some(0);
                        },
                    }
                } else if e.month == month {
                    (day - 1) as usize
                } else {
                    return None;
                };
                if idx < bytes {
                    Some(code_at(e.data.as_str(), idx))
                } else {
                    None
                }
            },
            None => None,
        }
    }

    /// Record a month's classification string, keeping a whole-year entry of
    /// the same year.
    pub fn store_month(&mut self, year: i32, month: u32, data: String)
        ensures
            final(self)@ == store_month_spec(old(self)@, year as int, month as int, data@),
    {
        let keep = match &self.entry {
            Some(e) => e.year == year && e.month == 0,
            None => false,
        };
        if !keep {
            self.entry = Some(CacheEntry { year, month, data });
        }
    }

    /// Record a whole year's classification string.
    pub fn store_year(&mut self, year: i32, data: String)
        ensures
            final(self)@ == store_year_spec(old(self)@, year as int, data@),
    {
        self.entry = Some(CacheEntry { year, month: 0, data });
    }
}

/// After a month fetch for a date: record what came back (if anything) and
/// give the date's code (the character at index `day - 1`); 0 when the fetch
/// failed.
pub fn code_after_fetch(cache: &mut HolidayCache, year: i32, month: u32, day: u32, fetched: Option<String>) -> (r: u32)
    requires
        1 <= day,
    ensures
        match fetched {
            Some(data) => final(cache)@ == store_month_spec(old(cache)@, year as int, month as int, data@)
                && r == code_spec(data@, day - 1),
            None => final(cache)@ == old(cache)@ && r == 0,
        },
{
    match fetched {
        Some(data) => {
            let code = code_at(data.as_str(), (day - 1) as usize);
            cache.store_month(year, month, data);
            code
        },
        None => 0,
    }
}

/// The cache's answer for a date in a context: 0 (no highlight) when holidays
/// are not highlighted, else what the cache decides (`None`: fetch the month).
pub fn cached_code(ctx: &CalContext, cache: &HolidayCache, year: i32, month: u32, day: u32) -> (r: Option<u32>)
    requires
        1 <= year <= 9999,
        1 <= day,
    ensures
        r == if ctx.holidays {
            lookup_spec(cache@, cached_bytes(cache), year as int, month as int, day as int)
        } else {
            Some(0u32)
        },
{
    if !ctx.holidays {
        return Some(0);
    }
    cache.lookup(year, month, day)
}

/// A whole-year entry for year `y` is never replaced by a later month fetch
/// for the same year.
pub proof fn lemma_year_entry_survives_month_fetch(c: CacheView, y: int, m: int, data: Seq<char>)
    requires
        c matches Some((cy, cm, _)) && cy == y && cm == 0,
    ensures
        store_month_spec(c, y, m, data) == c,
{
}

/// A fetch for another year always replaces the cached entry.
pub proof fn lemma_other_year_fetch_replaces(c: CacheView, y: int, m: int, data: Seq<char>)
    requires
        c matches Some((cy, _, _)) ==> cy != y,
    ensures
        store_month_spec(c, y, m, data) == Some((y, m, data)),
        store_year_spec(c, y, data) == Some((y, 0int, data)),
{
}

/// Locale names recognised for each supported country, in the order they are
/// tried: the country of the first one equal to the locale name wins.
pub open spec fn locale_countries() -> Seq<(Seq<char>, Seq<char>)> {
    seq![
        ("ru_RU"@, "RU"@),
        ("ru_BY"@, "RU"@),
        ("ru_KZ"@, "RU"@),
        ("ru_UZ"@, "RU"@),
        ("ru_LV"@, "RU"@),
        ("be_BY"@, "BY"@),
        ("ru_BY"@, "BY"@),
        ("kk_KZ"@, "KZ"@),
        ("ru_KZ"@, "KZ"@),
        ("en_US"@, "US"@),
        ("en"@, "US"@),
        ("uz_UZ"@, "UZ"@),
        ("ru_UZ"@, "UZ"@),
        ("tr_TR"@, "TR"@),
        ("lv_LV"@, "LV"@),
        ("ru_LV"@, "LV"@),
    ]
}

/// The supported country codes.
pub open spec fn supported_countries() -> Seq<Seq<char>> {
    seq!["RU"@, "BY"@, "KZ"@, "US"@, "UZ"@, "TR"@, "LV"@]
}

/// The value paired with the first key equal to `k`.
pub open spec fn lookup_pair(table: Seq<(Seq<char>, Seq<char>)>, k: Seq<char>) -> Option<Seq<char>>
    decreases table.len(),
{
    if table.len() == 0 {
        None
    } else if table[0].0 == k {
        Some(table[0].1)
    } else {
        lookup_pair(table.drop_first(), k)
    }
}

/// The country of a locale name: from the table; else the part after the
/// first `_` when it is a supported country code; else `RU`.
pub open spec fn country_of_name(name: Seq<char>) -> Seq<char> {
    match lookup_pair(locale_countries(), name) {
        Some(c) => c,
        None => {
            let u = index_of(name, '_');
            let code = if u < name.len() {
                name.subrange(u + 1, name.len() as int)
            } else {
                Seq::empty()
            };
            if u < name.len() && supported_countries().contains(code) {
                code
            } else {
                "RU"@
            }
        },
    }
}

/// The country of the locale setting found in the environment (`None`: no
/// variable set, which reads as `en_US.UTF-8`).
pub open spec fn country_spec(value: Option<Seq<char>>) -> Seq<char> {
    match value {
        Some(v) => country_of_name(locale_name_spec(v)),
        None => "US"@,
    }
}

fn lookup_country(name: &str) -> (r: Option<String>)
    ensures
        r matches Some(c) ==> lookup_pair(locale_countries(), name@) == Some(c@),
        r is None ==> lookup_pair(locale_countries(), name@) is None,
{
    let table: Vec<(&str, &str)> = vec![
        ("ru_RU", "RU"),
        ("ru_BY", "RU"),
        ("ru_KZ", "RU"),
        ("ru_UZ", "RU"),
        ("ru_LV", "RU"),
        ("be_BY", "BY"),
        ("ru_BY", "BY"),
        ("kk_KZ", "KZ"),
        ("ru_KZ", "KZ"),
        ("en_US", "US"),
        ("en", "US"),
        ("uz_UZ", "UZ"),
        ("ru_UZ", "UZ"),
        ("tr_TR", "TR"),
        ("lv_LV", "LV"),
        ("ru_LV", "LV"),
    ];
    let ghost spec_table = locale_countries();
    assert forall|j: int| 0 <= j < table@.len() implies (#[trigger] table@[j]).0@ == spec_table[j].0
        && table@[j].1@ == spec_table[j].1 by {}
    assert(spec_table.subrange(0, spec_table.len() as int) =~= spec_table);
    let mut i: usize = 0;
    while i < table.len()
        invariant
            table@.len() == spec_table.len(),
            spec_table == locale_countries(),
            forall|j: int|
                0 <= j < table@.len() ==> (#[trigger] table@[j]).0@ == spec_table[j].0 && table@[j].1@
                    == spec_table[j].1,
            i <= table@.len(),
            lookup_pair(spec_table, name@) == lookup_pair(
                spec_table.subrange(i as int, spec_table.len() as int),
                name@,
            ),
        decreases table.len() - i,
    {
        let ghost rest = spec_table.subrange(i as int, spec_table.len() as int);
        assert(rest.drop_first() =~= spec_table.subrange(i + 1, spec_table.len() as int));
        if str_eq(table[i].0, name) {
            return Some(String::from_str(table[i].1));
        }
        i += 1;
    }
    None
}

fn is_supported_country(code: &str) -> (r: bool)
    ensures
        r == supported_countries().contains(code@),
{
    let codes: Vec<&str> = vec!["RU", "BY", "KZ", "US", "UZ", "TR", "LV"];
    let ghost spec_codes = supported_countries();
    assert forall|j: int| 0 <= j < codes@.len() implies (#[trigger] codes@[j])@ == spec_codes[j] by {}
    let mut i: usize = 0;
    while i < codes.len()
        invariant
            codes@.len() == spec_codes.len(),
            spec_codes == supported_countries(),
            forall|j: int| 0 <= j < codes@.len() ==> (#[trigger] codes@[j])@ == spec_codes[j],
            i <= codes@.len(),
            forall|j: int| 0 <= j < i ==> spec_codes[j] != code@,
        decreases codes.len() - i,
    {
        if str_eq(codes[i], code) {
            assert(spec_codes[i as int] == code@);
            return true;
        }
        i += 1;
    }
    false
}

/// Country code for a locale setting read from the environment (`LC_ALL`,
/// else `LC_TIME`, else `LANG`; `None` when none is set).
pub fn country_from_locale(value: Option<&str>) -> (r: String)
    ensures
        r@ == country_spec(
            match value {
                Some(v) => Some(v@),
                None => None,
            },
        ),
{
    match value {
        None => String::from_str("US"),
        Some(v) => {
            let name = locale_name(v);
            let n = name.as_str();
            match lookup_country(n) {
                Some(c) => c,
                None => {
                    let u = find_char(n, '_');
                    let len = n.unicode_len();
                    if u < len {
                        let code = n.substring_char(u + 1, len);
                        if is_supported_country(code) {
                            return String::from_str(code);
                        }
                    }
                    String::from_str("RU")
                },
            }
        },
    }
}

} // verus!
