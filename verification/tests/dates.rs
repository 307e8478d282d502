use chrono::Datelike;
use chrono::NaiveDate;
use powermeal_ai_choice::date::Date;
use powermeal_ai_choice::date::MAX_DAYS;
use powermeal_ai_choice::date::MIN_DAYS;
use powermeal_ai_choice::text::decimal_text;

#[test]
fn day_numbers_are_those_of_the_calendar() {
    assert_eq!(Date::from_ymd(1, 1, 1).unwrap().days(), 1);
    assert_eq!(Date::from_ymd(1970, 1, 1).unwrap().days(), 719_163);
    assert_eq!(Date::from_ymd(2024, 2, 29).unwrap().days(), 738_945);
    assert_eq!(Date::from_ymd(2025, 6, 3).unwrap().days(), 739_405);
}

#[test]
fn days_that_do_not_exist_are_refused() {
    assert_eq!(Date::from_ymd(2025, 2, 30), None);
    assert_eq!(Date::from_ymd(2025, 13, 1), None);
    assert_eq!(Date::from_ymd(2025, 0, 1), None);
    assert_eq!(Date::from_ymd(2023, 2, 29), None);
    assert_eq!(Date::from_ymd(400_000, 1, 1), None);
}

#[test]
fn the_range_of_days_is_that_of_the_calendar_library() {
    assert_eq!(NaiveDate::MIN.num_days_from_ce(), MIN_DAYS);
    assert_eq!(NaiveDate::MAX.num_days_from_ce(), MAX_DAYS);
    assert!(Date::from_days(MIN_DAYS).is_some());
    assert!(Date::from_days(MAX_DAYS).is_some());
    assert_eq!(Date::from_days(MIN_DAYS - 1), None);
    assert_eq!(Date::from_days(MAX_DAYS + 1), None);
    assert!(NaiveDate::from_num_days_from_ce_opt(MIN_DAYS - 1).is_none());
    assert!(NaiveDate::from_num_days_from_ce_opt(MAX_DAYS + 1).is_none());
}

#[test]
fn days_are_added_and_taken_away() {
    let day = Date::from_ymd(2025, 6, 1).unwrap();
    assert_eq!(day.plus_days(14), Date::from_ymd(2025, 6, 15));
    assert_eq!(day.plus_days(0), Some(day));
    assert_eq!(day.minus_days(7), Date::from_ymd(2025, 5, 25));
    assert_eq!(day.next_day(), Date::from_ymd(2025, 6, 2));
    assert_eq!(Date::from_ymd(2024, 12, 31).unwrap().next_day(), Date::from_ymd(2025, 1, 1));
}

#[test]
fn days_beyond_the_range_are_not_made() {
    let last = Date::from_days(MAX_DAYS).unwrap();
    let first = Date::from_days(MIN_DAYS).unwrap();
    assert_eq!(last.next_day(), None);
    assert_eq!(last.plus_days(1), None);
    assert_eq!(last.plus_days(u32::MAX), None);
    assert_eq!(first.minus_days(1), None);
    assert_eq!(first.minus_days(u32::MAX), None);
    assert_eq!(first.plus_days(1), Date::from_days(MIN_DAYS + 1));
    assert_eq!(last.minus_days(1), Date::from_days(MAX_DAYS - 1));
}

#[test]
fn days_compare_by_their_numbers() {
    let earlier = Date::from_ymd(2025, 6, 1).unwrap();
    let later = Date::from_ymd(2025, 6, 3).unwrap();
    assert!(earlier.is_before(&later));
    assert!(!later.is_before(&earlier));
    assert!(!earlier.is_before(&earlier));
}

#[test]
fn a_day_is_written_year_month_day() {
    assert_eq!(Date::from_ymd(2025, 6, 3).unwrap().iso_text(), "2025-06-03");
    assert_eq!(Date::from_ymd(1, 1, 1).unwrap().iso_text(), "0001-01-01");
    assert_eq!(Date::from_ymd(9999, 12, 31).unwrap().iso_text(), "9999-12-31");
    assert_eq!(Date::from_days(MAX_DAYS).unwrap().iso_text(), "+262142-12-31");
    assert_eq!(Date::from_days(MIN_DAYS).unwrap().iso_text(), "-262143-01-01");
}

#[test]
fn the_written_day_is_what_the_calendar_library_shows() {
    let day = Date::from_ymd(2025, 6, 3).unwrap();
    let naive = NaiveDate::from_ymd_opt(2025, 6, 3).unwrap();
    assert_eq!(day.iso_text(), naive.to_string());
    assert_eq!(day.iso_text(), naive.format("%Y-%m-%d").to_string());
}

#[test]
fn weekdays_are_named_in_english() {
    assert_eq!(Date::from_ymd(1, 1, 1).unwrap().weekday_text(), "Monday");
    assert_eq!(Date::from_ymd(2025, 6, 3).unwrap().weekday_text(), "Tuesday");
    assert_eq!(Date::from_ymd(2025, 6, 4).unwrap().weekday_text(), "Wednesday");
    assert_eq!(Date::from_ymd(1970, 1, 1).unwrap().weekday_text(), "Thursday");
    assert_eq!(Date::from_ymd(9999, 12, 31).unwrap().weekday_text(), "Friday");
    assert_eq!(Date::from_ymd(2025, 6, 7).unwrap().weekday_text(), "Saturday");
    assert_eq!(Date::from_ymd(2025, 6, 1).unwrap().weekday_text(), "Sunday");
    assert_eq!(Date::from_days(0).unwrap().weekday_text(), "Sunday");
    assert_eq!(Date::from_days(-6).unwrap().weekday_text(), "Monday");
}

#[test]
fn integers_are_written_in_decimal() {
    assert_eq!(decimal_text(0), "0");
    assert_eq!(decimal_text(7), "7");
    assert_eq!(decimal_text(10), "10");
    assert_eq!(decimal_text(1_234_567_890), "1234567890");
    assert_eq!(decimal_text(-5), "-5");
    assert_eq!(decimal_text(i64::MAX), "9223372036854775807");
    assert_eq!(decimal_text(i64::MIN), "-9223372036854775808");
}
