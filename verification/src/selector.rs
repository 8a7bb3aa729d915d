//! The availability-constrained fairness selector.
//!
//! One attempt sorts the roster ascending by duty load, draws a candidate
//! uniformly from the lower half, replaces the candidate by the employee who
//! has gone longest without a duty when the candidate served less than two
//! days ago, and gives up (without touching the ledger) when the chosen
//! employee has the day's (weekday, slot) pair among their off-days. The
//! retry wrapper repeats attempts up to a bound.
use vstd::prelude::*;

use crate::calendar::Slot;
use crate::calendar::key_of;
use crate::calendar::slot_key;
use crate::employee::Employee;
use crate::employee::last_le;
use crate::employee::load_le;
use crate::employee::load_le_exec;
use crate::employee::lemma_load_le_trans;
use crate::employee::last_le_exec;
use crate::employee::is_recently_on_duty;
use crate::employee::recently_on_duty;
use crate::rng::gen_index;

verus! {

/// `order` lists positions of `s` (each once), ascending by duty load.
pub open spec fn is_load_order(s: Seq<Employee>, order: Seq<usize>) -> bool {
    &&& order.len() == s.len()
    &&& forall|i: int| 0 <= i < order.len() ==> (#[trigger] order[i]) < s.len()
    &&& forall|i: int, j: int| 0 <= i < j < order.len() ==> order[i] != order[j]
    &&& forall|i: int, j: int|
        0 <= i <= j < order.len() ==> load_le(s[order[i] as int], s[order[j] as int])
}

/// Size of the lower half the fairness draw ranges over: half the roster,
/// rounded down, but at least one so a single employee can be drawn.
pub open spec fn half_of(n: int) -> int {
    if n / 2 == 0 {
        1
    } else {
        n / 2
    }
}

/// Position `k` of `s` stands in the lower half of some ordering of the
/// roster ascending by duty load: the fairness rule allows the pick.
pub open spec fn in_lower_half(s: Seq<Employee>, k: int) -> bool {
    exists|order: Seq<usize>, p: int|
        is_load_order(s, order) && 0 <= p < half_of(s.len() as int) && order[p] == k
}

/// Position `k` of `s` has gone longest without a duty: no other employee's
/// last duty lies earlier.
pub open spec fn is_least_recent(s: Seq<Employee>, k: int) -> bool {
    &&& 0 <= k < s.len()
    &&& forall|j: int| 0 <= j < s.len() ==> last_le(s[k].last_duty, (#[trigger] s[j]).last_duty)
}

/// Recency law. A successful selection assigns an employee who served less
/// than two days before only when that employee had gone longest without a
/// duty (the `recently_on_duty ==> is_least_recent` clause of
/// `select_attempt` and `select_with_retry`). This lemma closes the gap:
/// when even the longest-idle employee served less than two days ago — and
/// no last-duty date lies in the future of the day being planned — then
/// every employee did, so no compliant candidate existed at all. Together:
/// no one is assigned within two days of their previous duty unless nobody
/// could have been.
pub proof fn lemma_recency_rule(s: Seq<Employee>, day: u64, k: int)
    requires
        is_least_recent(s, k),
        recently_on_duty(s[k], day),
        forall|j: int| 0 <= j < s.len() ==> last_le((#[trigger] s[j]).last_duty, Option::Some(day)),
    ensures
        forall|j: int| 0 <= j < s.len() ==> recently_on_duty(#[trigger] s[j], day),
{
}

/// Sort the roster's positions ascending by duty load (selection sort; ties
/// in arbitrary order).
fn sorted_indices_by_load(employees: &Vec<Employee>) -> (order: Vec<usize>)
    requires
        forall|i: int| 0 <= i < employees@.len() ==> (#[trigger] employees@[i]).wf(),
    ensures
        is_load_order(employees@, order@),
{
    let n = employees.len();
    let mut order: Vec<usize> = Vec::new();
    let mut k: usize = 0;
    while k < n
        invariant
            k <= n,
            order@.len() == k,
            forall|i: int| 0 <= i < k ==> order@[i] == i,
        decreases n - k,
    {
        order.push(k);
        k = k + 1;
    }
    let mut i: usize = 0;
    while i < n
        invariant
            i <= n,
            n == employees@.len(),
            order@.len() == n,
            forall|p: int| 0 <= p < employees@.len() ==> (#[trigger] employees@[p]).wf(),
            forall|p: int| 0 <= p < n ==> (#[trigger] order@[p]) < n,
            forall|p: int, q: int| 0 <= p < q < n ==> order@[p] != order@[q],
            forall|p: int, q: int|
                0 <= p <= q < i ==> load_le(
                    employees@[order@[p] as int],
                    employees@[order@[q] as int],
                ),
            forall|p: int, q: int|
                0 <= p < i <= q < n ==> load_le(
                    employees@[order@[p] as int],
                    employees@[order@[q] as int],
                ),
        decreases n - i,
    {
        let mut m: usize = i;
        let mut j: usize = i + 1;
        while j < n
            invariant
                i <= m < j <= n,
                n == employees@.len(),
                order@.len() == n,
                forall|p: int| 0 <= p < employees@.len() ==> (#[trigger] employees@[p]).wf(),
                forall|p: int| 0 <= p < n ==> (#[trigger] order@[p]) < n,
                forall|q: int|
                    i <= q < j ==> load_le(
                        employees@[order@[m as int] as int],
                        employees@[order@[q] as int],
                    ),
            decreases n - j,
        {
            if !load_le_exec(&employees[order[m]], &employees[order[j]]) {
                proof {
                    assert forall|q: int| i <= q < j implies load_le(
                        employees@[order@[j as int] as int],
                        employees@[order@[q] as int],
                    ) by {
                        lemma_load_le_trans(
                            employees@[order@[j as int] as int],
                            employees@[order@[m as int] as int],
                            employees@[order@[q] as int],
                        );
                    }
                }
                m = j;
            }
            j = j + 1;
        }
        let a = order[i];
        let b = order[m];
        order[i] = b;
        order[m] = a;
        i = i + 1;
    }
    order
}

/// The first position whose employee has gone longest without a duty.
fn least_recent_index(employees: &Vec<Employee>) -> (k: usize)
    requires
        employees@.len() >= 1,
    ensures
        is_least_recent(employees@, k as int),
{
    let mut best: usize = 0;
    let mut j: usize = 1;
    while j < employees.len()
        invariant
            best < j <= employees@.len(),
            forall|q: int|
                0 <= q < j ==> last_le(
                    employees@[best as int].last_duty,
                    (#[trigger] employees@[q]).last_duty,
                ),
        decreases employees@.len() - j,
    {
        if !last_le_exec(&employees[best].last_duty, &employees[j].last_duty) {
            best = j;
        }
        j = j + 1;
    }
    best
}

/// One attempt of the availability-constrained selection for `day` and
/// `slot`.
///
/// On success the returned position's employee was either drawn from the
/// lower half of the load order or, when the drawn candidate had served less
/// than two days before, replaced by the employee who had gone longest
/// without a duty; the chosen employee is never assigned on one of their
/// off-days, and the ledger is updated for them alone. On failure (the
/// chosen employee was off) nothing changes.
pub fn select_attempt(
    employees: &mut Vec<Employee>,
    day: u64,
    slot: Slot,
    rng: &mut rand::rngs::StdRng,
) -> (r: Option<usize>)
    requires
        old(employees)@.len() >= 1,
        forall|i: int| 0 <= i < old(employees)@.len() ==> (#[trigger] old(employees)@[i]).wf(),
        forall|i: int|
            0 <= i < old(employees)@.len() ==> (#[trigger] old(employees)@[i]).duty_load + 100
                <= u64::MAX,
    ensures
        final(employees)@.len() == old(employees)@.len(),
        match r {
            Option::Some(k) => {
                &&& k < old(employees)@.len()
                &&& !old(employees)@[k as int].is_off(key_of(day as int, slot))
                &&& final(employees)@ == old(employees)@.update(
                    k as int,
                    old(employees)@[k as int].with_assignment(day),
                )
                &&& in_lower_half(old(employees)@, k as int) || is_least_recent(
                    old(employees)@,
                    k as int,
                )
                &&& recently_on_duty(old(employees)@[k as int], day) ==> is_least_recent(
                    old(employees)@,
                    k as int,
                )
            },
            Option::None => {
                &&& final(employees)@ == old(employees)@
                &&& exists|j: int|
                    0 <= j < old(employees)@.len() && (#[trigger] old(employees)@[j]).is_off(
                        key_of(day as int, slot),
                    )
            },
        },
        (forall|j: int|
            0 <= j < old(employees)@.len() ==> !(#[trigger] old(employees)@[j]).is_off(
                key_of(day as int, slot),
            )) ==> r is Some,
{
    let ghost s0 = employees@;
    let n = employees.len();
    let order = sorted_indices_by_load(employees);
    let half: usize = if n / 2 == 0 {
        1
    } else {
        n / 2
    };
    let p = gen_index(rng, half);
    let mut cand: usize = order[p];
    proof {
        assert(is_load_order(s0, order@) && 0 <= p < half_of(s0.len() as int) && order@[p as int]
            == cand);
        assert(in_lower_half(s0, cand as int));
    }
    if is_recently_on_duty(&employees[cand], day) {
        cand = least_recent_index(employees);
    }
    let key = slot_key(day, slot);
    if employees[cand].is_off_on(key) {
        return None;
    }
    let emp = &mut employees[cand];
    emp.record_assignment(day);
    Some(cand)
}

/// The per-slot retry bound on selection attempts.
pub const MAX_SELECT_ATTEMPTS: u64 = 5000;

/// Bounded retry around `select_attempt`: re-draws until an attempt
/// succeeds or `max_attempts` attempts have failed. Failed attempts leave
/// the ledger untouched, so a success updates it exactly once; when every
/// employee is free on the day's key, the very first attempt succeeds.
pub fn select_with_retry(
    employees: &mut Vec<Employee>,
    day: u64,
    slot: Slot,
    max_attempts: u64,
    rng: &mut rand::rngs::StdRng,
) -> (r: Option<usize>)
    requires
        old(employees)@.len() >= 1,
        forall|i: int| 0 <= i < old(employees)@.len() ==> (#[trigger] old(employees)@[i]).wf(),
        forall|i: int|
            0 <= i < old(employees)@.len() ==> (#[trigger] old(employees)@[i]).duty_load + 100
                <= u64::MAX,
    ensures
        final(employees)@.len() == old(employees)@.len(),
        match r {
            Option::Some(k) => {
                &&& k < old(employees)@.len()
                &&& !old(employees)@[k as int].is_off(key_of(day as int, slot))
                &&& final(employees)@ == old(employees)@.update(
                    k as int,
                    old(employees)@[k as int].with_assignment(day),
                )
                &&& in_lower_half(old(employees)@, k as int) || is_least_recent(
                    old(employees)@,
                    k as int,
                )
                &&& recently_on_duty(old(employees)@[k as int], day) ==> is_least_recent(
                    old(employees)@,
                    k as int,
                )
            },
            Option::None => {
                &&& final(employees)@ == old(employees)@
                &&& max_attempts == 0 || exists|j: int|
                    0 <= j < old(employees)@.len() && (#[trigger] old(employees)@[j]).is_off(
                        key_of(day as int, slot),
                    )
            },
        },
        (max_attempts >= 1 && forall|j: int|
            0 <= j < old(employees)@.len() ==> !(#[trigger] old(employees)@[j]).is_off(
                key_of(day as int, slot),
            )) ==> r is Some,
{
    let mut attempts: u64 = 0;
    while attempts < max_attempts
        invariant
            attempts <= max_attempts,
            employees@ == old(employees)@,
            old(employees)@.len() >= 1,
            forall|i: int| 0 <= i < old(employees)@.len() ==> (#[trigger] old(employees)@[i]).wf(),
            forall|i: int|
                0 <= i < old(employees)@.len() ==> (#[trigger] old(employees)@[i]).duty_load + 100
                    <= u64::MAX,
            attempts > 0 ==> exists|j: int|
                0 <= j < old(employees)@.len() && (#[trigger] old(employees)@[j]).is_off(
                    key_of(day as int, slot),
                ),
        decreases max_attempts - attempts,
    {
        let r = select_attempt(employees, day, slot, rng);
        if r.is_some() {
            return r;
        }
        attempts = attempts + 1;
    }
    None
}

} // verus!
