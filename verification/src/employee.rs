//! Employees and the duty ledger.
//!
//! The fairness metric (the duty load) is exact rational arithmetic kept in
//! integers: an employee's workload fraction is stored in hundredths
//! (`percent`, 1 to 100), and the cumulative duty load as the scaled
//! numerator `duty_load`, whose true value is `duty_load / percent`. One
//! assignment adds `1 / fraction = 100 / percent` to the true load, that is
//! exactly 100 to the numerator. Two loads are compared by cross
//! multiplication, so no rounding ever enters the fairness order.
use vstd::prelude::*;

use crate::calendar::SlotKey;

verus! {

/// One employee of the roster, with the mutable ledger fields
/// (`duty_load`, `last_duty`) that every successful assignment updates.
#[derive(Debug)]
pub struct Employee {
    /// Unique identifier.
    pub id: u32,
    pub name: String,
    pub surname: String,
    /// Short display label used in roster records.
    pub short: String,
    /// Contracted workload fraction in hundredths: 1 to 100.
    pub percent: u32,
    /// (weekday, slot) pairs on which this employee must never be assigned.
    pub off_days: Vec<SlotKey>,
    /// Scaled duty load: the true load is `duty_load / percent`, and one
    /// assignment adds exactly 100 here.
    pub duty_load: u64,
    /// Day number of the most recent duty, `None` when there was none yet.
    pub last_duty: Option<u64>,
}

impl Employee {
    /// Validity: the workload fraction lies in (0, 1] and every off-day key
    /// names a real weekday.
    pub open spec fn wf(self) -> bool {
        &&& 1 <= self.percent <= 100
        &&& forall|i: int|
            0 <= i < self.off_days@.len() ==> (#[trigger] self.off_days@[i]).wf()
    }

    /// Whether this employee must not serve under the given key.
    pub open spec fn is_off(self, key: SlotKey) -> bool {
        self.off_days@.contains(key)
    }

    /// The employee as one successful assignment on `day` leaves it:
    /// the load grows by one normalized duty, the last-duty date is `day`,
    /// all identity fields stay.
    pub open spec fn with_assignment(self, day: u64) -> Employee {
        Employee { duty_load: (self.duty_load + 100) as u64, last_duty: Some(day), ..self }
    }

    /// Identity fields (everything but the ledger fields) agree.
    pub open spec fn same_identity(self, other: Employee) -> bool {
        &&& self.id == other.id
        &&& self.name@ == other.name@
        &&& self.surname@ == other.surname@
        &&& self.short@ == other.short@
        &&& self.percent == other.percent
        &&& self.off_days@ == other.off_days@
    }

    /// Ledger update on a successful assignment: one normalized duty is
    /// added to the load and the last-duty date becomes `day`.
    pub fn record_assignment(&mut self, day: u64)
        requires
            old(self).duty_load + 100 <= u64::MAX,
        ensures
            *final(self) == old(self).with_assignment(day),
    {
        self.duty_load = self.duty_load + 100;
        self.last_duty = Some(day);
    }

    /// Whether the given key is one of this employee's off-days.
    pub fn is_off_on(&self, key: SlotKey) -> (r: bool)
        ensures
            r == self.is_off(key),
    {
        let mut i: usize = 0;
        while i < self.off_days.len()
            invariant
                i <= self.off_days@.len(),
                forall|j: int| 0 <= j < i ==> self.off_days@[j] != key,
            decreases self.off_days@.len() - i,
        {
            if self.off_days[i] == key {
                return true;
            }
            i = i + 1;
        }
        false
    }
}

/// The fairness order: `a`'s true duty load is at most `b`'s, decided by
/// cross multiplication of the exact rationals.
pub open spec fn load_le(a: Employee, b: Employee) -> bool {
    a.duty_load * b.percent <= b.duty_load * a.percent
}

/// The fairness order is transitive (on valid workload fractions).
pub proof fn lemma_load_le_trans(a: Employee, b: Employee, c: Employee)
    requires
        a.percent >= 1,
        b.percent >= 1,
        c.percent >= 1,
        load_le(a, b),
        load_le(b, c),
    ensures
        load_le(a, c),
{
    let ad = a.duty_load as int;
    let bd = b.duty_load as int;
    let cd = c.duty_load as int;
    let ap = a.percent as int;
    let bp = b.percent as int;
    let cp = c.percent as int;
    assert(ad * cp <= cd * ap) by (nonlinear_arith)
        requires
            ad * bp <= bd * ap,
            bd * cp <= cd * bp,
            ap >= 1,
            bp >= 1,
            cp >= 1,
    ;
}

/// Exec comparison realizing `load_le`, exact by widening to 128 bits.
pub fn load_le_exec(a: &Employee, b: &Employee) -> (r: bool)
    ensures
        r == load_le(*a, *b),
{
    proof {
        let ad = a.duty_load as int;
        let ap = a.percent as int;
        let bd = b.duty_load as int;
        let bp = b.percent as int;
        assert(ad * bp <= u64::MAX as int * u32::MAX as int && bd * ap <= u64::MAX as int
            * u32::MAX as int) by (nonlinear_arith)
            requires
                0 <= ad <= u64::MAX as int,
                0 <= bp <= u32::MAX as int,
                0 <= bd <= u64::MAX as int,
                0 <= ap <= u32::MAX as int,
        ;
    }
    (a.duty_load as u128) * (b.percent as u128) <= (b.duty_load as u128) * (a.percent as u128)
}

/// Order on last-duty dates; an employee who never had a duty comes first.
pub open spec fn last_le(a: Option<u64>, b: Option<u64>) -> bool {
    match a {
        Option::None => true,
        Option::Some(x) => match b {
            Option::None => false,
            Option::Some(y) => x <= y,
        },
    }
}

/// Exec comparison realizing `last_le`.
pub fn last_le_exec(a: &Option<u64>, b: &Option<u64>) -> (r: bool)
    ensures
        r == last_le(*a, *b),
{
    match a {
        Option::None => true,
        Option::Some(x) => match b {
            Option::None => false,
            Option::Some(y) => *x <= *y,
        },
    }
}

/// Whether the employee's most recent duty lies strictly less than 2 days
/// from `day` (in either direction): the recency rule's trigger.
pub open spec fn recently_on_duty(e: Employee, day: u64) -> bool {
    match e.last_duty {
        Option::None => false,
        Option::Some(l) => (if day >= l {
            day - l
        } else {
            l - day
        }) < 2,
    }
}

/// Exec check realizing `recently_on_duty`.
pub fn is_recently_on_duty(e: &Employee, day: u64) -> (r: bool)
    ensures
        r == recently_on_duty(*e, day),
{
    match e.last_duty {
        Option::None => false,
        Option::Some(l) => {
            let diff: u64 = if day >= l {
                day - l
            } else {
                l - day
            };
            diff < 2
        },
    }
}

} // verus!
