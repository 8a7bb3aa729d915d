use chrono::Datelike;

use walkinplanner::calendar::classify;
use walkinplanner::calendar::german_weekday_name;
use walkinplanner::calendar::is_weekend;
use walkinplanner::calendar::slot_key;
use walkinplanner::calendar::weekday_number;
use walkinplanner::DayClass;
use walkinplanner::Slot;

/// Day numbers count days since an epoch Monday; chrono's day 1 of the
/// common era (0001-01-01) is a Monday, so this is the conversion app code
/// uses.
fn day_number(date: chrono::NaiveDate) -> u64 {
    (date.num_days_from_ce() - 1) as u64
}

#[test]
fn weekday_numbers_match_chrono() {
    let dates = [
        chrono::NaiveDate::from_ymd_opt(2024, 1, 1).unwrap(),
        chrono::NaiveDate::from_ymd_opt(2024, 2, 29).unwrap(),
        chrono::NaiveDate::from_ymd_opt(2025, 12, 31).unwrap(),
        chrono::NaiveDate::from_ymd_opt(1999, 7, 24).unwrap(),
        chrono::NaiveDate::from_ymd_opt(2000, 2, 29).unwrap(),
    ];
    for date in dates {
        let w = weekday_number(day_number(date));
        assert_eq!(w as u32, date.weekday().number_from_monday());
    }
}

#[test]
fn weekends_match_chrono() {
    let start = chrono::NaiveDate::from_ymd_opt(2023, 11, 1).unwrap();
    for offset in 0..30 {
        let date = start + chrono::Days::new(offset);
        let expected = matches!(date.weekday(), chrono::Weekday::Sat | chrono::Weekday::Sun);
        assert_eq!(is_weekend(day_number(date)), expected);
    }
}

#[test]
fn classify_weekend_holiday_workday() {
    // day 0 is a Monday, day 5 a Saturday, day 6 a Sunday
    let holidays = vec![2u64, 5u64];
    assert_eq!(classify(0, &holidays), DayClass::Workday);
    assert_eq!(classify(2, &holidays), DayClass::Holiday);
    assert_eq!(classify(5, &holidays), DayClass::Weekend); // weekend wins over holiday
    assert_eq!(classify(6, &holidays), DayClass::Weekend);
    assert_eq!(classify(7, &holidays), DayClass::Workday);
}

#[test]
fn german_weekday_names() {
    let expected = [
        "Montag",
        "Dienstag",
        "Mittwoch",
        "Donnerstag",
        "Freitag",
        "Samstag",
        "Sonntag",
    ];
    for w in 1u8..=7u8 {
        assert_eq!(german_weekday_name(w), expected[(w - 1) as usize]);
    }
}

#[test]
fn slot_keys_carry_weekday_and_slot() {
    let k = slot_key(0, Slot::Morning);
    assert_eq!(k.weekday, 1);
    assert_eq!(k.slot, Slot::Morning);
    let k2 = slot_key(10, Slot::Afternoon); // day 10 is a Thursday
    assert_eq!(k2.weekday, 4);
    assert_eq!(k2.slot, Slot::Afternoon);
}
