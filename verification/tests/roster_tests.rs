use rand::SeedableRng;

use walkinplanner::calendar::SlotKey;
use walkinplanner::config::ConfigError;
use walkinplanner::config::FixedSlot;
use walkinplanner::config::ScheduleConfig;
use walkinplanner::employee::Employee;
use walkinplanner::roster::build_roster;
use walkinplanner::roster::RosterRecord;
use walkinplanner::roster::SlotOutcome;
use walkinplanner::Slot;

fn employee(id: u32, short: &str, percent: u32, off_days: Vec<SlotKey>) -> Employee {
    Employee {
        id,
        name: format!("Name{}", id),
        surname: format!("Surname{}", id),
        short: short.to_string(),
        percent,
        off_days,
        duty_load: 0,
        last_duty: None,
    }
}

fn rng(seed: u64) -> rand::rngs::StdRng {
    rand::rngs::StdRng::seed_from_u64(seed)
}

fn config(from: u64, to: u64) -> ScheduleConfig {
    ScheduleConfig { from, to, global_holidays: Vec::new(), fixed_slots: Vec::new() }
}

fn count_assignments(records: &[RosterRecord], id: u32) -> u64 {
    let mut n = 0;
    for r in records {
        if let RosterRecord::Workday { morning, afternoon, .. } = r {
            if matches!(morning, SlotOutcome::Assigned { id: a, .. } if *a == id) {
                n += 1;
            }
            if matches!(afternoon, SlotOutcome::Assigned { id: a, .. } if *a == id) {
                n += 1;
            }
        }
    }
    n
}

#[test]
fn from_after_to_is_fatal() {
    let mut employees = vec![employee(1, "ab", 100, Vec::new())];
    let r = build_roster(&config(9, 8), &mut employees, &mut rng(1));
    assert_eq!(r.unwrap_err(), ConfigError::FromAfterTo);
}

#[test]
fn empty_roster_is_fatal() {
    let mut employees: Vec<Employee> = Vec::new();
    let r = build_roster(&config(0, 6), &mut employees, &mut rng(1));
    assert_eq!(r.unwrap_err(), ConfigError::NoEmployees);
}

/// One full week, four equal full-time employees, nothing excluded: five
/// workday records, two weekend days skipped, ten assignments spread so that
/// no two final duty loads differ by more than one duty.
#[test]
fn one_week_four_equal_employees() {
    for seed in [1u64, 7, 42, 2024] {
        let mut employees = vec![
            employee(1, "aa", 100, Vec::new()),
            employee(2, "bb", 100, Vec::new()),
            employee(3, "cc", 100, Vec::new()),
            employee(4, "dd", 100, Vec::new()),
        ];
        // day 0 is a Monday: the window Monday..=Sunday
        let summary = build_roster(&config(0, 6), &mut employees, &mut rng(seed)).unwrap();
        assert_eq!(summary.records.len(), 5);
        assert_eq!(summary.days_planned, 5);
        assert_eq!(summary.days_weekend_and_holiday, 2);
        assert_eq!(summary.unresolved_slots, 0);
        let total: u64 = employees.iter().map(|e| e.duty_load).sum();
        assert_eq!(total, 10 * 100);
        let max = employees.iter().map(|e| e.duty_load).max().unwrap();
        let min = employees.iter().map(|e| e.duty_load).min().unwrap();
        assert!(max - min <= 100, "duty loads spread too far: {} vs {}", max, min);
    }
}

/// A single employee who is off on every weekday morning: over two weeks
/// every morning ends unresolved (without consuming a duty), every
/// afternoon is assigned, and the error counter equals the number of
/// workday mornings.
#[test]
fn single_employee_off_every_morning() {
    let off: Vec<SlotKey> = (1u8..=7u8).map(|w| SlotKey { weekday: w, slot: Slot::Morning }).collect();
    let mut employees = vec![employee(5, "ee", 100, off)];
    // two weeks starting on a Monday: days 0..=13, ten workdays
    let summary = build_roster(&config(0, 13), &mut employees, &mut rng(3)).unwrap();
    assert_eq!(summary.records.len(), 10);
    assert_eq!(summary.unresolved_slots, 10);
    for r in &summary.records {
        match r {
            RosterRecord::Workday { morning, afternoon, .. } => {
                assert_eq!(*morning, SlotOutcome::Unresolved);
                assert!(matches!(afternoon, SlotOutcome::Assigned { id: 5, .. }));
            },
            RosterRecord::Holiday { .. } => panic!("no holidays were configured"),
        }
    }
    // unresolved slots consume no duty: only the ten afternoons count
    assert_eq!(employees[0].duty_load, 10 * 100);
    assert_eq!(employees[0].last_duty, Some(11)); // the second Friday
}

/// A fixed override for Monday morning decides that slot on every Monday of
/// the window, whatever the seed.
#[test]
fn fixed_override_decides_monday_mornings() {
    for seed in [2u64, 19, 777] {
        let mut employees = vec![
            employee(6, "ff", 100, Vec::new()),
            employee(7, "gg", 100, Vec::new()),
            employee(8, "hh", 100, Vec::new()),
        ];
        let cfg = ScheduleConfig {
            from: 0,
            to: 13,
            global_holidays: Vec::new(),
            fixed_slots: vec![FixedSlot { weekday: 1, slot: Slot::Morning, employee_id: 7 }],
        };
        let summary = build_roster(&cfg, &mut employees, &mut rng(seed)).unwrap();
        let mut mondays = 0;
        for r in &summary.records {
            if let RosterRecord::Workday { weekday, morning, .. } = r {
                if *weekday == 1 {
                    mondays += 1;
                    match morning {
                        SlotOutcome::Assigned { id, short } => {
                            assert_eq!(*id, 7);
                            assert_eq!(short, "gg");
                        },
                        SlotOutcome::Unresolved => panic!("override left unresolved"),
                    }
                }
            }
        }
        assert_eq!(mondays, 2);
    }
}

/// An override naming an unknown id is a non-fatal mistake: the selector
/// fills the slot with a real employee instead.
#[test]
fn override_with_unknown_id_defers_to_selector() {
    let mut employees = vec![employee(1, "aa", 100, Vec::new()), employee(2, "bb", 100, Vec::new())];
    let cfg = ScheduleConfig {
        from: 0,
        to: 0,
        global_holidays: Vec::new(),
        fixed_slots: vec![FixedSlot { weekday: 1, slot: Slot::Morning, employee_id: 99 }],
    };
    let summary = build_roster(&cfg, &mut employees, &mut rng(11)).unwrap();
    match &summary.records[0] {
        RosterRecord::Workday { morning, .. } => match morning {
            SlotOutcome::Assigned { id, .. } => assert!(*id == 1 || *id == 2),
            SlotOutcome::Unresolved => panic!("selector had free employees"),
        },
        RosterRecord::Holiday { .. } => panic!("not a holiday"),
    }
}

/// An override entry with id 0 means no override at all.
#[test]
fn override_with_zero_id_is_ignored() {
    let mut employees = vec![employee(1, "aa", 100, Vec::new())];
    let cfg = ScheduleConfig {
        from: 0,
        to: 0,
        global_holidays: Vec::new(),
        fixed_slots: vec![FixedSlot { weekday: 1, slot: Slot::Morning, employee_id: 0 }],
    };
    let summary = build_roster(&cfg, &mut employees, &mut rng(11)).unwrap();
    match &summary.records[0] {
        RosterRecord::Workday { morning, .. } => {
            assert!(matches!(morning, SlotOutcome::Assigned { id: 1, .. }));
        },
        RosterRecord::Holiday { .. } => panic!("not a holiday"),
    }
}

/// Holidays still emit one marker record each; the record count over the
/// window is the number of days minus the weekend days.
#[test]
fn holidays_emit_marker_records() {
    let mut employees = vec![employee(1, "aa", 100, Vec::new()), employee(2, "bb", 100, Vec::new())];
    let cfg = ScheduleConfig {
        from: 0,
        to: 13,
        // a Wednesday and a Saturday; the weekend one never shows up
        global_holidays: vec![2, 5],
        fixed_slots: Vec::new(),
    };
    let summary = build_roster(&cfg, &mut employees, &mut rng(23)).unwrap();
    assert_eq!(summary.records.len(), 14 - 4);
    assert_eq!(summary.days_planned, 9);
    assert_eq!(summary.days_weekend_and_holiday, 4 + 1);
    let holiday_days: Vec<u64> = summary
        .records
        .iter()
        .filter_map(|r| match r {
            RosterRecord::Holiday { day, .. } => Some(*day),
            RosterRecord::Workday { .. } => None,
        })
        .collect();
    assert_eq!(holiday_days, vec![2]);
}

/// Every employee's final duty load is the baseline plus one hundred scaled
/// units per assignment the records give them.
#[test]
fn duty_loads_account_for_the_records() {
    let mut employees = vec![
        employee(1, "aa", 100, Vec::new()),
        employee(2, "bb", 50, Vec::new()),
        employee(3, "cc", 80, Vec::new()),
    ];
    employees[0].duty_load = 250; // a caller-supplied baseline
    let baselines: Vec<u64> = employees.iter().map(|e| e.duty_load).collect();
    let summary = build_roster(&config(0, 20), &mut employees, &mut rng(9)).unwrap();
    for (i, e) in employees.iter().enumerate() {
        let assigned = count_assignments(&summary.records, e.id);
        assert_eq!(e.duty_load, baselines[i] + 100 * assigned);
        assert!(e.duty_load >= baselines[i]);
    }
}

/// Records come in strictly ascending day order, each on a non-weekend day
/// of the window, carrying the day's weekday number.
#[test]
fn records_are_ordered_and_dated() {
    let mut employees = vec![employee(1, "aa", 100, Vec::new()), employee(2, "bb", 100, Vec::new())];
    let summary = build_roster(&config(3, 25), &mut employees, &mut rng(31)).unwrap();
    let mut last_day = None;
    for r in &summary.records {
        let (day, weekday) = match r {
            RosterRecord::Holiday { day, weekday } => (*day, *weekday),
            RosterRecord::Workday { day, weekday, .. } => (*day, *weekday),
        };
        assert!((3..=25).contains(&day));
        assert_eq!(weekday as u64, day % 7 + 1);
        assert!(weekday <= 5, "weekend days are never emitted");
        if let Some(prev) = last_day {
            assert!(day > prev);
        }
        last_day = Some(day);
    }
}

/// No record ever assigns an employee to a (weekday, slot) among their
/// off-days when the selector decides.
#[test]
fn off_days_are_never_assigned() {
    for seed in [6u64, 17, 333] {
        let mut employees = vec![
            employee(1, "aa", 100, vec![SlotKey { weekday: 1, slot: Slot::Morning }]),
            employee(2, "bb", 100, vec![SlotKey { weekday: 2, slot: Slot::Afternoon }]),
            employee(3, "cc", 60, Vec::new()),
        ];
        let summary = build_roster(&config(0, 27), &mut employees, &mut rng(seed)).unwrap();
        for r in &summary.records {
            if let RosterRecord::Workday { weekday, morning, afternoon, .. } = r {
                if *weekday == 1 {
                    assert!(!matches!(morning, SlotOutcome::Assigned { id: 1, .. }));
                }
                if *weekday == 2 {
                    assert!(!matches!(afternoon, SlotOutcome::Assigned { id: 2, .. }));
                }
            }
        }
    }
}

/// The recency rule: when the fairness draw lands on somebody who served
/// less than two days ago, the employee who has gone longest without a duty
/// takes the slot instead. With two employees the draw always lands on the
/// lighter one, so the outcome is deterministic.
#[test]
fn recent_candidate_is_replaced_by_longest_idle() {
    for seed in [4u64, 13, 99] {
        let mut employees = vec![employee(1, "aa", 100, Vec::new()), employee(2, "bb", 100, Vec::new())];
        // employee 1 is lighter but served yesterday; employee 2 never did
        employees[0].last_duty = Some(9);
        employees[1].duty_load = 100;
        let cfg = config(10, 10);
        let summary = build_roster(&cfg, &mut employees, &mut rng(seed)).unwrap();
        match &summary.records[0] {
            RosterRecord::Workday { morning, .. } => {
                assert!(matches!(morning, SlotOutcome::Assigned { id: 2, .. }));
            },
            RosterRecord::Holiday { .. } => panic!("not a holiday"),
        }
    }
}

/// The ledger update is visible within the same day: with two employees and
/// no constraints, a day's two slots go to both employees, never twice to
/// the same one (the second draw sees the first update and the recency rule
/// moves the slot to the idle employee).
#[test]
fn morning_update_influences_afternoon() {
    for seed in [5u64, 21, 1234] {
        let mut employees = vec![employee(1, "aa", 100, Vec::new()), employee(2, "bb", 100, Vec::new())];
        let summary = build_roster(&config(0, 0), &mut employees, &mut rng(seed)).unwrap();
        match &summary.records[0] {
            RosterRecord::Workday { morning, afternoon, .. } => {
                let m = match morning {
                    SlotOutcome::Assigned { id, .. } => *id,
                    SlotOutcome::Unresolved => panic!("nobody is off"),
                };
                let a = match afternoon {
                    SlotOutcome::Assigned { id, .. } => *id,
                    SlotOutcome::Unresolved => panic!("nobody is off"),
                };
                assert_ne!(m, a);
            },
            RosterRecord::Holiday { .. } => panic!("not a holiday"),
        }
    }
}
