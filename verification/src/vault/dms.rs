//! The dead man's switch: a check-in deadline computed from the last
//! check-in and a timeout in hours. The state file and the clock live
//! with the caller; the arithmetic that decides whether the switch has
//! tripped is here.

use vstd::prelude::*;
use vstd::string::StringExecFns;

verus! {

/// A switch that trips when its owner fails to check in before the
/// deadline.
pub struct DeadMansSwitch {
    /// Where the caller keeps the switch's state file.
    pub path: String,
}

impl DeadMansSwitch {
    /// A switch whose state lives at `<storage_path>/dms.lock`.
    pub fn new(storage_path: &str) -> (r: DeadMansSwitch)
        ensures
            r.path@ == storage_path@ + "/dms.lock"@,
    {
        let mut path: String = storage_path.to_owned();
        path.append("/dms.lock");
        DeadMansSwitch { path }
    }
}

/// The deadline that follows a check-in: the check-in time plus the
/// timeout in hours, or nothing when that leaves the representable range.
pub fn deadline_after(last_checkin: i64, timeout_hours: i64) -> (r: Option<i64>)
    ensures
        r is Some <==> i64::MIN <= last_checkin + timeout_hours * 3600 <= i64::MAX
            && i64::MIN <= timeout_hours * 3600 <= i64::MAX,
        r is Some ==> r->0 == last_checkin + timeout_hours * 3600,
{
    match timeout_hours.checked_mul(3600) {
        Some(secs) => last_checkin.checked_add(secs),
        None => None,
    }
}

/// Whether the switch has tripped: the clock is past the deadline.
pub fn switch_triggered(deadline: i64, now: i64) -> (r: bool)
    ensures
        r == (now > deadline),
{
    now > deadline
}

/// Whole hours and leftover minutes until the deadline, as a status
/// report shows them.
pub fn remaining_time(deadline: i64, now: i64) -> (r: (i64, i64))
    requires
        now <= deadline,
        deadline - now <= i64::MAX,
    ensures
        r.0 == (deadline - now) / 3600,
        r.1 == ((deadline - now) / 60) % 60,
{
    let secs: i64 = deadline - now;
    (secs / 3600, (secs / 60) % 60)
}

} // verus!
