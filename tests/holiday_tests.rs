//! Holiday codes, the cache rules and the country of a locale.

use cal::types::{CalContext, ColumnsMode, Date, Locale, WeekType, Weekday};
use cal::holidays::{
    cached_code, code_after_fetch, code_at, country_from_locale, month_codes, HolidayCache, PLUGIN_NAME,
    PLUGIN_VERSION,
};

#[test]
fn test_plugin_metadata_from_cargo() {
    assert_eq!(PLUGIN_NAME, "holiday_highlighter");
    assert_eq!(PLUGIN_VERSION, "0.1.0");
}

#[test]
fn test_get_country_from_locale_ru() {
    assert_eq!(country_from_locale(Some("ru_RU.UTF-8")), "RU");
}

#[test]
fn test_get_country_from_locale_us() {
    assert_eq!(country_from_locale(Some("en_US.UTF-8")), "US");
}

#[test]
fn test_get_country_from_locale_by() {
    assert_eq!(country_from_locale(Some("be_BY.UTF-8")), "BY");
}

#[test]
fn test_get_country_from_locale_fallback() {
    assert_eq!(country_from_locale(Some("")), "RU");
}

#[test]
fn country_from_locale_ru() {
    assert_eq!(country_from_locale(Some("ru_RU.UTF-8")), "RU");
}

#[test]
fn country_from_locale_us() {
    assert_eq!(country_from_locale(Some("en_US.UTF-8")), "US");
}

#[test]
fn country_from_locale_by() {
    assert_eq!(country_from_locale(Some("be_BY.UTF-8")), "BY");
}

#[test]
fn country_from_locale_kz() {
    assert_eq!(country_from_locale(Some("kk_KZ.UTF-8")), "KZ");
}

#[test]
fn country_from_locale_fallback_to_us() {
    assert_eq!(country_from_locale(None), "US");
}

#[test]
fn country_from_locale_lc_time_fallback() {
    assert_eq!(country_from_locale(Some("tr_TR.UTF-8")), "TR");
}

#[test]
fn country_from_locale_other_forms() {
    // The first matching table entry wins: ru_BY is listed under RU first.
    assert_eq!(country_from_locale(Some("ru_BY.UTF-8")), "RU");
    assert_eq!(country_from_locale(Some("en")), "US");
    assert_eq!(country_from_locale(Some("lv_LV@euro")), "LV");
    // A supported country after the underscore.
    assert_eq!(country_from_locale(Some("de_US.UTF-8")), "US");
    // Unsupported: the default.
    assert_eq!(country_from_locale(Some("de_DE.UTF-8")), "RU");
    assert_eq!(country_from_locale(Some("C")), "RU");
}

#[test]
fn codes_from_strings() {
    assert_eq!(code_at("0128", 0), 0);
    assert_eq!(code_at("0128", 1), 1);
    assert_eq!(code_at("0128", 2), 2);
    assert_eq!(code_at("0128", 3), 8);
    assert_eq!(code_at("0128", 4), 0);
    assert_eq!(code_at("0x", 1), 0);
    assert_eq!(month_codes("0812", 6), vec![0, 8, 1, 2, 0, 0]);
}

#[test]
fn cache_lookup_rules() {
    let mut cache = HolidayCache::new();
    assert_eq!(cache.lookup(2024, 1, 1), None);
    cache.store_month(2024, 3, "01280".to_string());
    assert!(cache.covers(2024, 3));
    assert!(!cache.covers(2024, 4));
    assert!(!cache.has_year(2024));
    assert_eq!(cache.lookup(2024, 3, 4), Some(8));
    // Past the end of the string: fetch again.
    assert_eq!(cache.lookup(2024, 3, 6), None);
    // Same year, other month: fetch that month.
    assert_eq!(cache.lookup(2024, 4, 1), None);
    // Other year: fetch.
    assert_eq!(cache.lookup(2025, 3, 1), None);
}

#[test]
fn whole_year_entry_uses_day_of_year_and_survives_month_fetch() {
    let mut cache = HolidayCache::new();
    let mut year = "0".repeat(366);
    year.replace_range(59..60, "8");
    cache.store_year(2024, year);
    assert!(cache.has_year(2024));
    assert!(cache.covers(2024, 7));
    // 29 February 2024 is day 60.
    assert_eq!(cache.lookup(2024, 2, 29), Some(8));
    assert_eq!(cache.lookup(2024, 3, 1), Some(0));
    // A date that does not exist.
    assert_eq!(cache.lookup(2024, 2, 30), Some(0));
    // A month fetch for the same year does not replace it.
    cache.store_month(2024, 5, "1111".to_string());
    assert!(cache.has_year(2024));
    assert_eq!(cache.lookup(2024, 2, 29), Some(8));
    // A fetch for another year replaces it.
    cache.store_month(2025, 1, "2".to_string());
    assert!(!cache.has_year(2024));
    assert!(cache.covers(2025, 1));
    assert_eq!(cache.lookup(2025, 1, 1), Some(2));
}

#[test]
fn month_fetches_of_one_year_replace_each_other() {
    let mut cache = HolidayCache::new();
    assert_eq!(code_after_fetch(&mut cache, 2024, 1, 1, Some("8".to_string())), 8);
    assert_eq!(cache.lookup(2024, 2, 1), None);
    assert_eq!(code_after_fetch(&mut cache, 2024, 2, 1, Some("2".to_string())), 2);
    assert!(cache.covers(2024, 2));
    assert!(!cache.covers(2024, 1));
    assert_eq!(cache.lookup(2024, 2, 1), Some(2));
}

#[test]
fn holidays_off_answers_working_day() {
    let mut ctx = CalContext {
        reform_year: 1752,
        week_start: Weekday::Mon,
        julian: false,
        week_numbers: false,
        week_type: WeekType::Iso,
        color: true,
        vertical: false,
        today: Date::new(2026, 2, 18),
        show_year_in_header: true,
        gutter_width: 2,
        columns: ColumnsMode::Auto,
        span: false,
        holidays: false,
        locale: Locale::new("en_US"),
    };
    let mut cache = HolidayCache::new();
    cache.store_month(2024, 1, "8".to_string());
    assert_eq!(cached_code(&ctx, &cache, 2024, 1, 1), Some(0));
    ctx.holidays = true;
    assert_eq!(cached_code(&ctx, &cache, 2024, 1, 1), Some(8));
    assert_eq!(cached_code(&ctx, &cache, 2024, 3, 1), None);
}

#[test]
fn fetch_results_are_recorded() {
    let mut cache = HolidayCache::new();
    assert_eq!(code_after_fetch(&mut cache, 2024, 5, 2, None), 0);
    assert!(!cache.covers(2024, 5));
    assert_eq!(code_after_fetch(&mut cache, 2024, 5, 2, Some("08".to_string())), 8);
    assert!(cache.covers(2024, 5));
    assert_eq!(code_after_fetch(&mut cache, 2024, 6, 9, Some("0".to_string())), 0);
    assert!(cache.covers(2024, 6));
}
