//! Schedule configuration and the fixed-override resolver.
use vstd::prelude::*;

use crate::calendar::Slot;
use crate::calendar::SlotKey;
use crate::employee::Employee;

verus! {

/// An administrator-fixed assignment: on every occurrence of the weekday,
/// the given slot goes to the employee with `employee_id`. An id of 0 means
/// no override (the selector decides).
#[derive(Clone, Copy, Debug, PartialEq, Eq, Structural)]
pub struct FixedSlot {
    /// Weekday number, 1 (Monday) to 7 (Sunday).
    pub weekday: u8,
    pub slot: Slot,
    pub employee_id: u32,
}

/// The planning window and its exclusions; the employee roster travels
/// beside it as the mutable duty ledger.
#[derive(Debug)]
pub struct ScheduleConfig {
    /// First day of the inclusive planning window.
    pub from: u64,
    /// Last day of the inclusive planning window.
    pub to: u64,
    /// Days fully excluded from assignment, emitted as holiday markers.
    pub global_holidays: Vec<u64>,
    /// Administrator-fixed (weekday, slot) assignments.
    pub fixed_slots: Vec<FixedSlot>,
}

/// The fatal configuration errors: they abort a run before any record is
/// produced.
#[derive(Clone, Copy, Debug, PartialEq, Eq, Structural)]
pub enum ConfigError {
    /// The window's first day lies after its last day.
    FromAfterTo,
    /// The employee roster is empty.
    NoEmployees,
}

/// The override for a key: the employee id of the first entry that matches
/// the key, unless that id is 0 (treated as no override).
pub open spec fn spec_override_id(fixed: Seq<FixedSlot>, key: SlotKey) -> Option<u32>
    decreases fixed.len(),
{
    if fixed.len() == 0 {
        Option::None
    } else if fixed[0].weekday == key.weekday && fixed[0].slot == key.slot {
        if fixed[0].employee_id > 0 {
            Option::Some(fixed[0].employee_id)
        } else {
            Option::None
        }
    } else {
        spec_override_id(fixed.subrange(1, fixed.len() as int), key)
    }
}

/// Whether some employee of the roster carries the id.
pub open spec fn has_employee(employees: Seq<Employee>, id: u32) -> bool {
    exists|j: int| 0 <= j < employees.len() && employees[j].id == id
}

/// The override that actually takes effect for a key: the looked-up id, but
/// only when an employee with that id exists. An override naming an unknown
/// id is a non-fatal configuration mistake and defers to the selector.
pub open spec fn effective_override(
    fixed: Seq<FixedSlot>,
    employees: Seq<Employee>,
    key: SlotKey,
) -> Option<u32> {
    match spec_override_id(fixed, key) {
        Option::Some(id) => if has_employee(employees, id) {
            Option::Some(id)
        } else {
            Option::None
        },
        Option::None => Option::None,
    }
}

/// Look up the administrator-fixed employee id for a key.
pub fn override_id(fixed: &Vec<FixedSlot>, key: SlotKey) -> (r: Option<u32>)
    ensures
        r == spec_override_id(fixed@, key),
{
    proof {
        assert(fixed@.subrange(0, fixed@.len() as int) =~= fixed@);
    }
    let mut i: usize = 0;
    while i < fixed.len()
        invariant
            i <= fixed@.len(),
            spec_override_id(fixed@, key) == spec_override_id(
                fixed@.subrange(i as int, fixed@.len() as int),
                key,
            ),
        decreases fixed@.len() - i,
    {
        let entry = fixed[i];
        proof {
            assert(fixed@.subrange(i as int, fixed@.len() as int)[0] == fixed@[i as int]);
            assert(fixed@.subrange(i as int, fixed@.len() as int).subrange(
                1,
                fixed@.len() - i as int,
            ) =~= fixed@.subrange(i as int + 1, fixed@.len() as int));
        }
        if entry.weekday == key.weekday && entry.slot == key.slot {
            if entry.employee_id > 0 {
                return Some(entry.employee_id);
            } else {
                return None;
            }
        }
        i = i + 1;
    }
    proof {
        assert(fixed@.subrange(fixed@.len() as int, fixed@.len() as int).len() == 0);
    }
    None
}

/// Find the first employee carrying the id.
pub fn find_employee_index(employees: &Vec<Employee>, id: u32) -> (r: Option<usize>)
    ensures
        match r {
            Option::Some(k) => k < employees@.len() && employees@[k as int].id == id && forall|
                j: int,
            | 0 <= j < k ==> employees@[j].id != id,
            Option::None => !has_employee(employees@, id),
        },
{
    let mut i: usize = 0;
    while i < employees.len()
        invariant
            i <= employees@.len(),
            forall|j: int| 0 <= j < i ==> employees@[j].id != id,
        decreases employees@.len() - i,
    {
        if employees[i].id == id {
            return Some(i);
        }
        i = i + 1;
    }
    None
}

} // verus!
