//! Day classification: weekday numbers, weekends, holidays, duty slots.
//!
//! A day is a `u64` day number counted from an epoch that falls on a Monday,
//! so `day % 7` is 0 for Monday through 6 for Sunday. Weekday numbers follow
//! the 1-to-7 convention, Monday being 1 and Sunday 7.
use vstd::prelude::*;

verus! {

/// One of the two daily duty periods.
#[derive(Clone, Copy, Debug, PartialEq, Eq, Structural)]
pub enum Slot {
    Morning,
    Afternoon,
}

/// A (weekday, slot) pair: the unit on which off-days and fixed
/// overrides are keyed.
#[derive(Clone, Copy, Debug, PartialEq, Eq, Structural)]
pub struct SlotKey {
    /// Weekday number, 1 (Monday) to 7 (Sunday).
    pub weekday: u8,
    pub slot: Slot,
}

impl SlotKey {
    /// A key is well formed when its weekday number is one of the seven.
    pub open spec fn wf(self) -> bool {
        1 <= self.weekday <= 7
    }
}

/// What a day in the planning window is, for assignment purposes.
#[derive(Clone, Copy, Debug, PartialEq, Eq, Structural)]
pub enum DayClass {
    Weekend,
    Holiday,
    Workday,
}

/// Weekday number (1 = Monday .. 7 = Sunday) of a day number.
pub open spec fn weekday_of(day: int) -> int {
    day % 7 + 1
}

/// Saturdays and Sundays carry the weekday numbers 6 and 7.
pub open spec fn is_weekend_day(day: int) -> bool {
    weekday_of(day) >= 6
}

/// The (weekday, slot) key under which a given day and slot is looked up.
pub open spec fn key_of(day: int, slot: Slot) -> SlotKey {
    SlotKey { weekday: weekday_of(day) as u8, slot }
}

/// How `classify` decides: weekends first, then holidays, else a workday.
pub open spec fn spec_classify(day: u64, holidays: Seq<u64>) -> DayClass {
    if is_weekend_day(day as int) {
        DayClass::Weekend
    } else if holidays.contains(day) {
        DayClass::Holiday
    } else {
        DayClass::Workday
    }
}

/// Weekday number of a day, 1 (Monday) to 7 (Sunday).
pub fn weekday_number(day: u64) -> (w: u8)
    ensures
        w == weekday_of(day as int),
        1 <= w <= 7,
{
    (day % 7) as u8 + 1
}

/// Whether the day is a Saturday or a Sunday.
pub fn is_weekend(day: u64) -> (r: bool)
    ensures
        r == is_weekend_day(day as int),
{
    day % 7 >= 5
}

/// The (weekday, slot) key of a given day and slot.
pub fn slot_key(day: u64, slot: Slot) -> (k: SlotKey)
    ensures
        k == key_of(day as int, slot),
        k.wf(),
{
    SlotKey { weekday: weekday_number(day), slot }
}

/// Whether `day` is one of the listed holidays.
pub fn is_holiday(day: u64, holidays: &Vec<u64>) -> (r: bool)
    ensures
        r == holidays@.contains(day),
{
    let mut i: usize = 0;
    while i < holidays.len()
        invariant
            i <= holidays@.len(),
            forall|j: int| 0 <= j < i ==> holidays@[j] != day,
        decreases holidays@.len() - i,
    {
        if holidays[i] == day {
            return true;
        }
        i = i + 1;
    }
    false
}

/// Classify a day of the planning window: weekend days are skipped, holiday
/// days are emitted as a marker record, workdays get two assignments.
pub fn classify(day: u64, holidays: &Vec<u64>) -> (c: DayClass)
    ensures
        c == spec_classify(day, holidays@),
{
    if is_weekend(day) {
        DayClass::Weekend
    } else if is_holiday(day, holidays) {
        DayClass::Holiday
    } else {
        DayClass::Workday
    }
}

/// The German name of a weekday number, as the roster output shows it.
pub fn german_weekday_name(weekday: u8) -> (name: String)
    requires
        1 <= weekday <= 7,
    ensures
        weekday == 1 ==> name@ == "Montag"@,
        weekday == 2 ==> name@ == "Dienstag"@,
        weekday == 3 ==> name@ == "Mittwoch"@,
        weekday == 4 ==> name@ == "Donnerstag"@,
        weekday == 5 ==> name@ == "Freitag"@,
        weekday == 6 ==> name@ == "Samstag"@,
        weekday == 7 ==> name@ == "Sonntag"@,
{
    if weekday == 1 {
        "Montag".to_owned()
    } else if weekday == 2 {
        "Dienstag".to_owned()
    } else if weekday == 3 {
        "Mittwoch".to_owned()
    } else if weekday == 4 {
        "Donnerstag".to_owned()
    } else if weekday == 5 {
        "Freitag".to_owned()
    } else if weekday == 6 {
        "Samstag".to_owned()
    } else {
        "Sonntag".to_owned()
    }
}

/// Number of weekend days among the day numbers `from ..= to`.
pub open spec fn weekend_days_in(from: int, to: int) -> int
    decreases to - from + 1 when from <= to + 1
{
    if from > to {
        0
    } else {
        weekend_days_in(from, to - 1) + if is_weekend_day(to) {
            1int
        } else {
            0int
        }
    }
}

/// Number of emitted holiday days (holidays that do not fall on a weekend)
/// among the day numbers `from ..= to`.
pub open spec fn holiday_days_in(from: int, to: int, holidays: Seq<u64>) -> int
    decreases to - from + 1 when from <= to + 1
{
    if from > to {
        0
    } else {
        holiday_days_in(from, to - 1, holidays) + if !is_weekend_day(to) && holidays.contains(
            to as u64,
        ) {
            1int
        } else {
            0int
        }
    }
}

/// Weekend counts never exceed the length of the range.
pub proof fn lemma_weekend_days_in_bounds(from: int, to: int)
    requires
        from <= to + 1,
    ensures
        0 <= weekend_days_in(from, to) <= to - from + 1,
    decreases to - from + 1,
{
    if from <= to {
        lemma_weekend_days_in_bounds(from, to - 1);
    }
}

/// Holiday counts never exceed the length of the range.
pub proof fn lemma_holiday_days_in_bounds(from: int, to: int, holidays: Seq<u64>)
    requires
        from <= to + 1,
    ensures
        0 <= holiday_days_in(from, to, holidays) <= to - from + 1,
    decreases to - from + 1,
{
    if from <= to {
        lemma_holiday_days_in_bounds(from, to - 1, holidays);
    }
}

} // verus!
