//! Roster records and the roster builder.
//!
//! The builder walks the planning window once, in ascending day order:
//! weekend days are skipped, holidays emit a marker record, and every other
//! day gets a morning and an afternoon outcome, each resolved by the fixed
//! override when one names a known employee and by the bounded-retry
//! selector otherwise.
use vstd::prelude::*;

use crate::calendar::Slot;
use crate::calendar::SlotKey;
use crate::calendar::key_of;
use crate::calendar::weekday_of;
use crate::calendar::is_weekend_day;
use crate::calendar::weekend_days_in;
use crate::calendar::holiday_days_in;
use crate::calendar::lemma_weekend_days_in_bounds;
use crate::calendar::lemma_holiday_days_in_bounds;
use crate::employee::Employee;
use crate::config::FixedSlot;
use crate::config::ScheduleConfig;
use crate::config::ConfigError;
use crate::config::effective_override;

verus! {

/// What one slot of a workday ended as.
#[derive(Debug, PartialEq, Eq)]
pub enum SlotOutcome {
    /// The slot went to the employee with this id and short label.
    Assigned { id: u32, short: String },
    /// No compliant employee was found within the retry bound.
    Unresolved,
}

/// One emitted line of the roster: a holiday marker, or a workday with its
/// two slot outcomes.
#[derive(Debug, PartialEq, Eq)]
pub enum RosterRecord {
    Holiday { day: u64, weekday: u8 },
    Workday { day: u64, weekday: u8, morning: SlotOutcome, afternoon: SlotOutcome },
}

/// The records of one run together with its summary counters.
#[derive(Debug)]
pub struct RosterSummary {
    /// One record per non-weekend day of the window, in ascending day order.
    pub records: Vec<RosterRecord>,
    /// Number of workday records (days that got slot assignments).
    pub days_planned: u64,
    /// Number of days skipped for assignment purposes: weekend days plus
    /// holidays.
    pub days_weekend_and_holiday: u64,
    /// Number of slots recorded as unresolved after exhausting the retry
    /// bound.
    pub unresolved_slots: u64,
}

/// The day a record belongs to.
pub open spec fn record_day(r: RosterRecord) -> u64 {
    match r {
        RosterRecord::Holiday { day, .. } => day,
        RosterRecord::Workday { day, .. } => day,
    }
}

/// The weekday number a record carries.
pub open spec fn record_weekday(r: RosterRecord) -> u8 {
    match r {
        RosterRecord::Holiday { weekday, .. } => weekday,
        RosterRecord::Workday { weekday, .. } => weekday,
    }
}

/// How many of this employee id's assignments the outcome holds (0 or 1).
pub open spec fn slot_assigns(out: SlotOutcome, id: u32) -> int {
    match out {
        SlotOutcome::Assigned { id: a, .. } => if a == id {
            1int
        } else {
            0int
        },
        SlotOutcome::Unresolved => 0,
    }
}

/// How many assignments of the employee id one record holds (0 to 2).
pub open spec fn record_assigns(r: RosterRecord, id: u32) -> int {
    match r {
        RosterRecord::Holiday { .. } => 0,
        RosterRecord::Workday { morning, afternoon, .. } => slot_assigns(morning, id)
            + slot_assigns(afternoon, id),
    }
}

/// Total number of assignments the records give to the employee id.
pub open spec fn count_assignments(records: Seq<RosterRecord>, id: u32) -> int
    decreases records.len(),
{
    if records.len() == 0 {
        0
    } else {
        count_assignments(records.drop_last(), id) + record_assigns(records.last(), id)
    }
}

/// How many unresolved slots one record holds (0 to 2).
pub open spec fn record_unresolved(r: RosterRecord) -> int {
    match r {
        RosterRecord::Holiday { .. } => 0,
        RosterRecord::Workday { morning, afternoon, .. } => (if morning is Unresolved {
            1int
        } else {
            0int
        }) + (if afternoon is Unresolved {
            1int
        } else {
            0int
        }),
    }
}

/// Total number of unresolved slots over the records.
pub open spec fn count_unresolved(records: Seq<RosterRecord>) -> int
    decreases records.len(),
{
    if records.len() == 0 {
        0
    } else {
        count_unresolved(records.drop_last()) + record_unresolved(records.last())
    }
}

/// Appending a record adds exactly that record's assignments to the count.
pub proof fn lemma_count_assignments_push(records: Seq<RosterRecord>, r: RosterRecord, id: u32)
    ensures
        count_assignments(records.push(r), id) == count_assignments(records, id) + record_assigns(
            r,
            id,
        ),
{
    assert(records.push(r).drop_last() =~= records);
}

/// Assignment counts are between 0 and twice the number of records.
pub proof fn lemma_count_assignments_bounds(records: Seq<RosterRecord>, id: u32)
    ensures
        0 <= count_assignments(records, id) <= 2 * records.len(),
    decreases records.len(),
{
    if records.len() > 0 {
        lemma_count_assignments_bounds(records.drop_last(), id);
    }
}

/// Appending a record adds exactly that record's unresolved slots.
pub proof fn lemma_count_unresolved_push(records: Seq<RosterRecord>, r: RosterRecord)
    ensures
        count_unresolved(records.push(r)) == count_unresolved(records) + record_unresolved(r),
{
    assert(records.push(r).drop_last() =~= records);
}

/// Unresolved counts are between 0 and twice the number of records.
pub proof fn lemma_count_unresolved_bounds(records: Seq<RosterRecord>)
    ensures
        0 <= count_unresolved(records) <= 2 * records.len(),
    decreases records.len(),
{
    if records.len() > 0 {
        lemma_count_unresolved_bounds(records.drop_last());
    }
}

/// What a slot outcome must satisfy, relative to the fixed overrides and a
/// roster (read for its identity fields only).
///
/// Where an override takes effect it decides the slot, whatever the random
/// draws did; otherwise an assigned employee is never off on the day's key
/// (and an assigned id and short label always belong to one employee), and a
/// slot stays unresolved only when somebody's off-days clash with the key.
pub open spec fn slot_obeys(
    fixed: Seq<FixedSlot>,
    roster: Seq<Employee>,
    day: u64,
    slot: Slot,
    out: SlotOutcome,
) -> bool {
    let key = key_of(day as int, slot);
    match effective_override(fixed, roster, key) {
        Option::Some(oid) => out matches SlotOutcome::Assigned { id, short } && id == oid
            && assigned_short_matches(roster, oid, short),
        Option::None => match out {
            SlotOutcome::Assigned { id, short } => {
                &&& assigned_short_matches(roster, id, short)
                &&& exists|k: int|
                    0 <= k < roster.len() && (#[trigger] roster[k]).id == id && !roster[k].is_off(
                        key,
                    )
            },
            SlotOutcome::Unresolved => exists|j: int|
                0 <= j < roster.len() && (#[trigger] roster[j]).is_off(key),
        },
    }
}

/// The assigned short label is the short label of an employee with that id.
pub open spec fn assigned_short_matches(roster: Seq<Employee>, id: u32, short: String) -> bool {
    exists|k: int|
        0 <= k < roster.len() && (#[trigger] roster[k]).id == id && roster[k].short@ == short@
}

/// `slot_obeys` reads only identity fields, so it carries over between
/// rosters whose identity fields agree pointwise.
pub proof fn lemma_slot_obeys_identity(
    fixed: Seq<FixedSlot>,
    a: Seq<Employee>,
    b: Seq<Employee>,
    day: u64,
    slot: Slot,
    out: SlotOutcome,
)
    requires
        a.len() == b.len(),
        forall|i: int| 0 <= i < a.len() ==> (#[trigger] a[i]).same_identity(b[i]),
        slot_obeys(fixed, a, day, slot, out),
    ensures
        slot_obeys(fixed, b, day, slot, out),
{
    let key = key_of(day as int, slot);
    assert forall|id: u32| crate::config::has_employee(a, id) implies crate::config::has_employee(
        b,
        id,
    ) by {
        let j = choose|j: int| 0 <= j < a.len() && a[j].id == id;
        assert(b[j].id == id);
    }
    assert forall|id: u32| crate::config::has_employee(b, id) implies crate::config::has_employee(
        a,
        id,
    ) by {
        let j = choose|j: int| 0 <= j < b.len() && b[j].id == id;
        assert(a[j].id == id);
    }
    assert forall|id: u32, short: String| assigned_short_matches(a, id, short)
        implies assigned_short_matches(b, id, short) by {
        let k = choose|k: int| 0 <= k < a.len() && a[k].id == id && a[k].short@ == short@;
        assert(b[k].id == id && b[k].short@ == short@);
    }
    match effective_override(fixed, a, key) {
        Option::Some(oid) => {},
        Option::None => {
            match out {
                SlotOutcome::Assigned { id, short } => {
                    let k = choose|k: int|
                        0 <= k < a.len() && (#[trigger] a[k]).id == id && !a[k].is_off(key);
                    assert(b[k].id == id && !b[k].is_off(key));
                },
                SlotOutcome::Unresolved => {
                    let j = choose|j: int| 0 <= j < a.len() && (#[trigger] a[j]).is_off(key);
                    assert(b[j].is_off(key));
                },
            }
        },
    }
}

/// How a slot planning step may change the ledger: nothing, or exactly one
/// employee (carrying the outcome's id and short label) gets one assignment
/// on `day`.
pub open spec fn ledger_step(
    pre: Seq<Employee>,
    post: Seq<Employee>,
    out: SlotOutcome,
    day: u64,
) -> bool {
    match out {
        SlotOutcome::Assigned { id, short } => exists|k: int|
            0 <= k < pre.len() && (#[trigger] pre[k]).id == id && pre[k].short@ == short@ && post
                == pre.update(k, pre[k].with_assignment(day)),
        SlotOutcome::Unresolved => post == pre,
    }
}

/// Plan one slot of a workday through the fairness selector (no override
/// applies or the override named an unknown id).
fn plan_slot_by_selector(
    employees: &mut Vec<Employee>,
    day: u64,
    slot: Slot,
    rng: &mut rand::rngs::StdRng,
) -> (out: SlotOutcome)
    requires
        old(employees)@.len() >= 1,
        forall|i: int| 0 <= i < old(employees)@.len() ==> (#[trigger] old(employees)@[i]).wf(),
        forall|i: int|
            0 <= i < old(employees)@.len() ==> (#[trigger] old(employees)@[i]).duty_load + 100
                <= u64::MAX,
    ensures
        final(employees)@.len() == old(employees)@.len(),
        ledger_step(old(employees)@, final(employees)@, out, day),
        match out {
            SlotOutcome::Assigned { id, short } => exists|k: int|
                0 <= k < old(employees)@.len() && (#[trigger] old(employees)@[k]).id == id
                    && !old(employees)@[k].is_off(key_of(day as int, slot)),
            SlotOutcome::Unresolved => exists|j: int|
                0 <= j < old(employees)@.len() && (#[trigger] old(employees)@[j]).is_off(
                    key_of(day as int, slot),
                ),
        },
{
    match crate::selector::select_with_retry(
        employees,
        day,
        slot,
        crate::selector::MAX_SELECT_ATTEMPTS,
        rng,
    ) {
        Option::Some(k) => {
            let id = employees[k].id;
            let short = employees[k].short.clone();
            SlotOutcome::Assigned { id, short }
        },
        Option::None => SlotOutcome::Unresolved,
    }
}

/// What every emitted record satisfies, relative to the configuration and
/// the roster's identity fields: it sits on a non-weekend day, carries that
/// day's weekday number, is a holiday marker exactly for the configured
/// holidays, and both slot outcomes of a workday obey the overrides and
/// off-days (see `slot_obeys`).
pub open spec fn record_obeys(
    fixed: Seq<FixedSlot>,
    roster: Seq<Employee>,
    holidays: Seq<u64>,
    r: RosterRecord,
) -> bool {
    &&& !is_weekend_day(record_day(r) as int)
    &&& record_weekday(r) == weekday_of(record_day(r) as int)
    &&& (r is Holiday <==> holidays.contains(record_day(r)))
    &&& match r {
        RosterRecord::Holiday { .. } => true,
        RosterRecord::Workday { day, morning, afternoon, .. } => slot_obeys(
            fixed,
            roster,
            day,
            Slot::Morning,
            morning,
        ) && slot_obeys(fixed, roster, day, Slot::Afternoon, afternoon),
    }
}

/// Some record sits on day `d`.
pub open spec fn record_covers(records: Seq<RosterRecord>, d: u64) -> bool {
    exists|i: int| 0 <= i < records.len() && record_day(#[trigger] records[i]) == d
}

/// The emitted records of a run over `[from, to]`: each obeys the
/// configuration, they lie in the window in strictly ascending day order,
/// and every non-weekend day of the window is covered.
pub open spec fn records_well_formed(
    records: Seq<RosterRecord>,
    fixed: Seq<FixedSlot>,
    roster: Seq<Employee>,
    holidays: Seq<u64>,
    from: u64,
    to: u64,
) -> bool {
    &&& forall|i: int|
        0 <= i < records.len() ==> record_obeys(fixed, roster, holidays, #[trigger] records[i])
    &&& forall|i: int| 0 <= i < records.len() ==> from <= record_day(#[trigger] records[i]) <= to
    &&& forall|p: int, q: int|
        0 <= p < q < records.len() ==> record_day(records[p]) < record_day(records[q])
    &&& forall|d: u64|
        from <= d <= to && !is_weekend_day(d as int) ==> #[trigger] record_covers(records, d)
}

/// How a run's records account for the ledger: identity fields are kept, the
/// duty load of each employee grows by exactly 100 (one normalized duty, in
/// scaled units) per assignment the records give them — so it never
/// decreases — and a last-duty date is either untouched or a day of the
/// window.
pub open spec fn ledger_accounts(
    roster0: Seq<Employee>,
    roster1: Seq<Employee>,
    records: Seq<RosterRecord>,
    from: u64,
    to: u64,
) -> bool {
    &&& roster1.len() == roster0.len()
    &&& forall|i: int| 0 <= i < roster0.len() ==> (#[trigger] roster0[i]).same_identity(roster1[i])
    &&& forall|i: int|
        0 <= i < roster0.len() ==> (#[trigger] roster1[i]).duty_load == roster0[i].duty_load + 100
            * count_assignments(records, roster0[i].id)
    &&& forall|i: int|
        0 <= i < roster0.len() ==> (#[trigger] roster1[i]).duty_load >= roster0[i].duty_load
    &&& forall|i: int|
        0 <= i < roster0.len() ==> ((#[trigger] roster1[i]).last_duty == roster0[i].last_duty || (
        roster1[i].last_duty matches Option::Some(d) && from <= d <= to))
}

/// Pointwise consequences of one `ledger_step` on a roster with pairwise
/// distinct ids: identities and well-formedness are kept, and each
/// employee's duty load grows by exactly 100 times the outcome's
/// assignments to their id.
pub proof fn lemma_ledger_step_pointwise(
    pre: Seq<Employee>,
    post: Seq<Employee>,
    out: SlotOutcome,
    day: u64,
)
    requires
        ledger_step(pre, post, out, day),
        forall|i: int, j: int| 0 <= i < j < pre.len() ==> pre[i].id != pre[j].id,
        forall|i: int|
            0 <= i < pre.len() ==> (#[trigger] pre[i]).duty_load + 100 <= u64::MAX,
    ensures
        post.len() == pre.len(),
        forall|i: int| 0 <= i < pre.len() ==> (#[trigger] pre[i]).same_identity(post[i]),
        forall|i: int|
            0 <= i < pre.len() ==> (#[trigger] post[i]).duty_load == pre[i].duty_load + 100
                * slot_assigns(out, pre[i].id),
        forall|i: int| 0 <= i < pre.len() ==> ((#[trigger] post[i]).wf() <==> pre[i].wf()),
        forall|i: int|
            0 <= i < pre.len() ==> ((#[trigger] post[i]).last_duty == pre[i].last_duty
                || post[i].last_duty == Option::Some(day)),
        forall|i: int|
            0 <= i < pre.len() ==> (#[trigger] post[i]).duty_load <= pre[i].duty_load + 100,
{
    match out {
        SlotOutcome::Assigned { id, short } => {
            let k = choose|k: int|
                0 <= k < pre.len() && (#[trigger] pre[k]).id == id && pre[k].short@ == short@
                    && post == pre.update(k, pre[k].with_assignment(day));
            assert forall|i: int| 0 <= i < pre.len() implies (#[trigger] post[i]).duty_load
                == pre[i].duty_load + 100 * slot_assigns(out, pre[i].id) by {
                if i != k {
                    assert(pre[i].id != pre[k].id);
                }
            }
            assert forall|i: int| 0 <= i < pre.len() implies ((#[trigger] post[i]).wf()
                <==> pre[i].wf()) by {
                assert(post[i].percent == pre[i].percent);
                assert(post[i].off_days == pre[i].off_days);
            }
        },
        SlotOutcome::Unresolved => {},
    }
}

/// A day covered before a push, or the pushed record's own day, is covered
/// after the push.
pub proof fn lemma_record_covers_push(records: Seq<RosterRecord>, rec: RosterRecord, d: u64)
    requires
        record_covers(records, d) || record_day(rec) == d,
    ensures
        record_covers(records.push(rec), d),
{
    if record_covers(records, d) {
        let i = choose|i: int| 0 <= i < records.len() && record_day(#[trigger] records[i]) == d;
        assert(record_day(records.push(rec)[i]) == d);
    } else {
        assert(record_day(records.push(rec)[records.len() as int]) == d);
    }
}

/// Plan one slot of a workday: the fixed override decides when it names a
/// known employee (whose ledger is still updated); otherwise the
/// bounded-retry selector does.
pub fn plan_slot(
    fixed: &Vec<FixedSlot>,
    employees: &mut Vec<Employee>,
    day: u64,
    slot: Slot,
    rng: &mut rand::rngs::StdRng,
) -> (out: SlotOutcome)
    requires
        old(employees)@.len() >= 1,
        forall|i: int| 0 <= i < old(employees)@.len() ==> (#[trigger] old(employees)@[i]).wf(),
        forall|i: int|
            0 <= i < old(employees)@.len() ==> (#[trigger] old(employees)@[i]).duty_load + 100
                <= u64::MAX,
    ensures
        final(employees)@.len() == old(employees)@.len(),
        ledger_step(old(employees)@, final(employees)@, out, day),
        slot_obeys(fixed@, old(employees)@, day, slot, out),
{
    let key = crate::calendar::slot_key(day, slot);
    match crate::config::override_id(fixed, key) {
        Option::Some(id) => {
            match crate::config::find_employee_index(employees, id) {
                Option::Some(k) => {
                    let short = employees[k].short.clone();
                    let emp = &mut employees[k];
                    emp.record_assignment(day);
                    SlotOutcome::Assigned { id, short }
                },
                Option::None => {
                    // non-fatal configuration mistake: the override names an
                    // unknown employee id, so the selector decides instead
                    plan_slot_by_selector(employees, day, slot, rng)
                },
            }
        },
        Option::None => plan_slot_by_selector(employees, day, slot, rng),
    }
}

/// The outcome a record holds for a slot; holiday markers hold none.
pub open spec fn slot_outcome_of(r: RosterRecord, slot: Slot) -> Option<SlotOutcome> {
    match r {
        RosterRecord::Holiday { .. } => Option::None,
        RosterRecord::Workday { morning, afternoon, .. } => Option::Some(
            match slot {
                Slot::Morning => morning,
                Slot::Afternoon => afternoon,
            },
        ),
    }
}

/// The record gives the slot to the employee id.
pub open spec fn slot_assigned_to(r: RosterRecord, slot: Slot, id: u32) -> bool {
    match slot_outcome_of(r, slot) {
        Option::Some(SlotOutcome::Assigned { id: a, .. }) => a == id,
        _ => false,
    }
}

/// The record gives the slot to an employee who is off under the day's key.
pub open spec fn record_assigns_off_day(r: RosterRecord, roster: Seq<Employee>, slot: Slot) -> bool {
    match slot_outcome_of(r, slot) {
        Option::Some(SlotOutcome::Assigned { id, .. }) => exists|k: int|
            0 <= k < roster.len() && (#[trigger] roster[k]).id == id && roster[k].is_off(
                key_of(record_day(r) as int, slot),
            ),
        _ => false,
    }
}

/// No fixed override names an employee who is off on the overridden key.
pub open spec fn overrides_respect_off_days(fixed: Seq<FixedSlot>, roster: Seq<Employee>) -> bool {
    forall|key: SlotKey, k: int|
        #![trigger effective_override(fixed, roster, key), roster[k]]
        (0 <= k < roster.len() && effective_override(fixed, roster, key) == Option::Some(
            roster[k].id,
        )) ==> !roster[k].is_off(key)
}

/// Off-day law: in a run whose records obey the configuration (as
/// `build_roster` ensures) and whose fixed overrides never name an employee
/// who is off on the overridden key, no record at all assigns an employee to
/// a (weekday, slot) among their off-days — overrides included.
pub proof fn lemma_off_day_invariant(
    records: Seq<RosterRecord>,
    fixed: Seq<FixedSlot>,
    roster: Seq<Employee>,
    holidays: Seq<u64>,
)
    requires
        forall|i: int|
            0 <= i < records.len() ==> record_obeys(fixed, roster, holidays, #[trigger] records[i]),
        forall|i: int, j: int| 0 <= i < j < roster.len() ==> roster[i].id != roster[j].id,
        overrides_respect_off_days(fixed, roster),
    ensures
        forall|i: int, slot: Slot|
            0 <= i < records.len() ==> !(#[trigger] record_assigns_off_day(
                records[i],
                roster,
                slot,
            )),
{
    assert forall|i: int, slot: Slot| 0 <= i < records.len() implies !(
    #[trigger] record_assigns_off_day(records[i], roster, slot)) by {
        let r = records[i];
        let key = key_of(record_day(r) as int, slot);
        if record_assigns_off_day(r, roster, slot) {
            match slot_outcome_of(r, slot) {
                Option::Some(out) => {
                    match out {
                        SlotOutcome::Assigned { id, .. } => {
                            let k = choose|k: int|
                                0 <= k < roster.len() && (#[trigger] roster[k]).id == id
                                    && roster[k].is_off(key);
                            assert(slot_obeys(fixed, roster, record_day(r), slot, out));
                            match effective_override(fixed, roster, key) {
                                Option::Some(oid) => {
                                    assert(oid == id);
                                    assert(effective_override(fixed, roster, key) == Option::Some(
                                        roster[k].id,
                                    ));
                                    assert(!roster[k].is_off(key));
                                },
                                Option::None => {
                                    let k2 = choose|k2: int|
                                        0 <= k2 < roster.len() && (#[trigger] roster[k2]).id == id
                                            && !roster[k2].is_off(key);
                                    assert(k2 == k);
                                },
                            }
                        },
                        SlotOutcome::Unresolved => {},
                    }
                },
                Option::None => {},
            }
        }
    }
}

/// Fixed-override determinism law: whenever an override takes effect for the
/// (weekday, slot) key of a non-weekend, non-holiday day of the window, the
/// run's record of that day gives the slot to the overridden employee id —
/// whatever the random draws did.
pub proof fn lemma_fixed_override_determinism(
    records: Seq<RosterRecord>,
    fixed: Seq<FixedSlot>,
    roster: Seq<Employee>,
    holidays: Seq<u64>,
    from: u64,
    to: u64,
    d: u64,
    slot: Slot,
    oid: u32,
)
    requires
        records_well_formed(records, fixed, roster, holidays, from, to),
        from <= d <= to,
        !is_weekend_day(d as int),
        !holidays.contains(d),
        effective_override(fixed, roster, key_of(d as int, slot)) == Option::Some(oid),
    ensures
        exists|i: int|
            0 <= i < records.len() && record_day(#[trigger] records[i]) == d && slot_assigned_to(
                records[i],
                slot,
                oid,
            ),
{
    assert(record_covers(records, d));
    let i = choose|i: int| 0 <= i < records.len() && record_day(#[trigger] records[i]) == d;
    let r = records[i];
    assert(record_obeys(fixed, roster, holidays, r));
    match r {
        RosterRecord::Holiday { .. } => {
            assert(holidays.contains(d));
        },
        RosterRecord::Workday { day, morning, afternoon, .. } => {
            let out = match slot {
                Slot::Morning => morning,
                Slot::Afternoon => afternoon,
            };
            assert(slot_obeys(fixed, roster, day, slot, out));
            assert(slot_assigned_to(r, slot, oid));
        },
    }
}

/// Build the roster for the configured window in one forward pass.
///
/// The window must be ordered and the roster non-empty, else the matching
/// fatal error comes back and nothing is touched. On success the summary
/// holds one record per non-weekend day of the window in ascending day
/// order — holiday markers for the configured holidays, two slot outcomes
/// for every other day — the ledger accounts exactly for the records'
/// assignments, and the counters give the workdays planned, the days skipped
/// (weekends and holidays) and the unresolved slots.
pub fn build_roster(
    config: &ScheduleConfig,
    employees: &mut Vec<Employee>,
    rng: &mut rand::rngs::StdRng,
) -> (r: Result<RosterSummary, ConfigError>)
    requires
        forall|i: int| 0 <= i < old(employees)@.len() ==> (#[trigger] old(employees)@[i]).wf(),
        forall|i: int, j: int|
            0 <= i < j < old(employees)@.len() ==> old(employees)@[i].id != old(employees)@[j].id,
        config.to < u64::MAX,
        config.from <= config.to ==> forall|i: int|
            0 <= i < old(employees)@.len() ==> (#[trigger] old(employees)@[i]).duty_load + 200 * (
            config.to - config.from + 1) <= u64::MAX,
    ensures
        r is Err <==> (config.from > config.to || old(employees)@.len() == 0),
        r matches Err(e) ==> {
            &&& final(employees)@ == old(employees)@
            &&& (e == ConfigError::FromAfterTo <==> config.from > config.to)
            &&& (e == ConfigError::NoEmployees <==> (config.from <= config.to && old(
                employees,
            )@.len() == 0))
        },
        r matches Ok(summary) ==> {
            &&& summary.records@.len() == (config.to - config.from + 1) - weekend_days_in(
                config.from as int,
                config.to as int,
            )
            &&& records_well_formed(
                summary.records@,
                config.fixed_slots@,
                old(employees)@,
                config.global_holidays@,
                config.from,
                config.to,
            )
            &&& ledger_accounts(
                old(employees)@,
                final(employees)@,
                summary.records@,
                config.from,
                config.to,
            )
            &&& summary.days_planned == (config.to - config.from + 1) - weekend_days_in(
                config.from as int,
                config.to as int,
            ) - holiday_days_in(config.from as int, config.to as int, config.global_holidays@)
            &&& summary.days_weekend_and_holiday == weekend_days_in(
                config.from as int,
                config.to as int,
            ) + holiday_days_in(config.from as int, config.to as int, config.global_holidays@)
            &&& summary.unresolved_slots == count_unresolved(summary.records@)
        },
{
    if config.from > config.to {
        return Err(ConfigError::FromAfterTo);
    }
    if employees.len() == 0 {
        return Err(ConfigError::NoEmployees);
    }
    let ghost roster0 = employees@;
    let ghost f = config.from;
    let ghost t = config.to;
    let ghost hh = config.global_holidays@;
    let ghost ff = config.fixed_slots@;
    let n = employees.len();
    let mut records: Vec<RosterRecord> = Vec::new();
    let mut days_planned: u64 = 0;
    let mut days_weekend_and_holiday: u64 = 0;
    let mut unresolved_slots: u64 = 0;
    let mut current: u64 = config.from;
    proof {
        assert(roster0[0].duty_load + 200 * (t - f + 1) <= u64::MAX);
    }
    while current <= config.to
        invariant
            f == config.from,
            t == config.to,
            hh == config.global_holidays@,
            ff == config.fixed_slots@,
            f <= current <= t + 1,
            t < u64::MAX,
            200 * (t + 1 - f) <= u64::MAX,
            roster0.len() == n,
            n >= 1,
            forall|i: int| 0 <= i < n ==> (#[trigger] roster0[i]).wf(),
            forall|i: int, j: int| 0 <= i < j < n ==> roster0[i].id != roster0[j].id,
            employees@.len() == n,
            forall|i: int| 0 <= i < n ==> (#[trigger] roster0[i]).same_identity(employees@[i]),
            forall|i: int| 0 <= i < n ==> (#[trigger] employees@[i]).wf(),
            forall|i: int|
                0 <= i < n ==> (#[trigger] employees@[i]).duty_load == roster0[i].duty_load + 100
                    * count_assignments(records@, roster0[i].id),
            forall|i: int|
                0 <= i < n ==> ((#[trigger] employees@[i]).last_duty == roster0[i].last_duty || (
                employees@[i].last_duty matches Option::Some(d) && f <= d < current)),
            forall|i: int|
                0 <= i < n ==> (#[trigger] employees@[i]).duty_load + 200 * (t + 1 - current)
                    <= u64::MAX,
            records@.len() == (current - f) - weekend_days_in(f as int, current - 1),
            forall|i: int|
                0 <= i < records@.len() ==> record_obeys(ff, roster0, hh, #[trigger] records@[i]),
            forall|i: int|
                0 <= i < records@.len() ==> f <= record_day(#[trigger] records@[i]) < current,
            forall|p: int, q: int|
                0 <= p < q < records@.len() ==> record_day(records@[p]) < record_day(records@[q]),
            forall|d: u64|
                f <= d < current && !is_weekend_day(d as int) ==> #[trigger] record_covers(
                    records@,
                    d,
                ),
            days_planned == (current - f) - weekend_days_in(f as int, current - 1)
                - holiday_days_in(f as int, current - 1, hh),
            days_weekend_and_holiday == weekend_days_in(f as int, current - 1) + holiday_days_in(
                f as int,
                current - 1,
                hh,
            ),
            unresolved_slots == count_unresolved(records@),
        decreases t + 1 - current,
    {
        proof {
            lemma_weekend_days_in_bounds(f as int, current - 1);
            lemma_weekend_days_in_bounds(f as int, current as int);
            lemma_holiday_days_in_bounds(f as int, current - 1, hh);
            lemma_holiday_days_in_bounds(f as int, current as int, hh);
            lemma_count_unresolved_bounds(records@);
        }
        let wd = crate::calendar::weekday_number(current);
        let class = crate::calendar::classify(current, &config.global_holidays);
        if class == crate::calendar::DayClass::Weekend {
            days_weekend_and_holiday = days_weekend_and_holiday + 1;
        } else if class == crate::calendar::DayClass::Holiday {
            let rec = RosterRecord::Holiday { day: current, weekday: wd };
            let ghost recg = rec;
            proof {
                lemma_count_unresolved_push(records@, recg);
                assert forall|i: int| 0 <= i < n implies count_assignments(
                    records@.push(recg),
                    roster0[i].id,
                ) == count_assignments(records@, roster0[i].id) by {
                    lemma_count_assignments_push(records@, recg, roster0[i].id);
                }
                assert forall|d: u64| f <= d < current + 1 && !is_weekend_day(d as int)
                    implies record_covers(records@.push(recg), d) by {
                    lemma_record_covers_push(records@, recg, d);
                }
            }
            records.push(rec);
            days_weekend_and_holiday = days_weekend_and_holiday + 1;
        } else {
            let ghost led0 = employees@;
            let morning = plan_slot(&config.fixed_slots, employees, current, Slot::Morning, rng);
            let ghost led1 = employees@;
            proof {
                lemma_ledger_step_pointwise(led0, led1, morning, current);
            }
            let afternoon = plan_slot(
                &config.fixed_slots,
                employees,
                current,
                Slot::Afternoon,
                rng,
            );
            let ghost led2 = employees@;
            proof {
                lemma_ledger_step_pointwise(led1, led2, afternoon, current);
            }
            let morning_unresolved = match &morning {
                SlotOutcome::Unresolved => true,
                _ => false,
            };
            let afternoon_unresolved = match &afternoon {
                SlotOutcome::Unresolved => true,
                _ => false,
            };
            if morning_unresolved {
                unresolved_slots = unresolved_slots + 1;
            }
            if afternoon_unresolved {
                unresolved_slots = unresolved_slots + 1;
            }
            let ghost gm = morning;
            let ghost ga = afternoon;
            let rec = RosterRecord::Workday { day: current, weekday: wd, morning, afternoon };
            let ghost recg = rec;
            proof {
                lemma_slot_obeys_identity(ff, led0, roster0, current, Slot::Morning, gm);
                lemma_slot_obeys_identity(ff, led1, roster0, current, Slot::Afternoon, ga);
                lemma_count_unresolved_push(records@, recg);
                assert forall|i: int| 0 <= i < n implies (#[trigger] led2[i]).duty_load
                    == roster0[i].duty_load + 100 * count_assignments(
                    records@.push(recg),
                    roster0[i].id,
                ) by {
                    lemma_count_assignments_push(records@, recg, roster0[i].id);
                    assert(led0[i].id == roster0[i].id && led1[i].id == roster0[i].id);
                }
                assert forall|d: u64| f <= d < current + 1 && !is_weekend_day(d as int)
                    implies record_covers(records@.push(recg), d) by {
                    lemma_record_covers_push(records@, recg, d);
                }
            }
            records.push(rec);
            days_planned = days_planned + 1;
        }
        current = current + 1;
    }
    proof {
        lemma_weekend_days_in_bounds(f as int, t as int);
        lemma_holiday_days_in_bounds(f as int, t as int, hh);
        assert forall|i: int| 0 <= i < n implies (#[trigger] employees@[i]).duty_load
            >= roster0[i].duty_load by {
            lemma_count_assignments_bounds(records@, roster0[i].id);
        }
    }
    Ok(
        RosterSummary {
            records,
            days_planned,
            days_weekend_and_holiday,
            unresolved_slots,
        },
    )
}

} // verus!
