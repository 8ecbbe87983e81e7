//! Reading the wall clock. Instants are nanoseconds since the UNIX
//! epoch (UTC), as `i128`: a reading before the epoch is negative.

use vstd::prelude::*;
use std::time::SystemTime;

verus! {

/// `std::time::SystemTime`, one reading of the system clock; the library
/// only hands it from the read to its measure against the epoch.
#[verifier::external_type_specification]
#[verifier::external_body]
pub struct ExSystemTime(SystemTime);

/// `std::time::SystemTime::now`: the system clock's current reading.
/// The reading depends on the clock, so nothing is claimed of it.
#[verifier::external_body]
fn read_system_clock() -> (t: SystemTime) {
    SystemTime::now()
}

/// `SystemTime::duration_since(UNIX_EPOCH)` on a reading: `Ok` with the
/// span since the epoch when the reading is at or after it, otherwise
/// `Err` with how far before the epoch it lies (the error's `duration`),
/// each as whole seconds (`as_secs`) and the nanosecond part
/// (`subsec_nanos`, which std documents as below one billion). Neither
/// case panics; which one comes back depends on the reading, so nothing
/// more is claimed.
#[verifier::external_body]
fn since_unix_epoch(t: &SystemTime) -> (r: Result<(u64, u32), (u64, u32)>)
    ensures
        match r {
            Ok((_, nanos)) => nanos < 1_000_000_000,
            Err((_, nanos)) => nanos < 1_000_000_000,
        },
{
    match t.duration_since(std::time::UNIX_EPOCH) {
        Ok(d) => Ok((d.as_secs(), d.subsec_nanos())),
        Err(e) => Err((e.duration().as_secs(), e.duration().subsec_nanos())),
    }
}

/// The largest span a clock reading can lie from the epoch, in
/// nanoseconds: `u64::MAX` seconds and one second more.
pub open spec fn clock_span_bound() -> int {
    (u64::MAX as int) * 1_000_000_000 + 1_000_000_000
}

/// The current instant in nanoseconds since the epoch, negative when
/// the system clock reads before the epoch.
pub fn now() -> (t: i128)
    ensures
        -clock_span_bound() < t < clock_span_bound(),
{
    let reading = read_system_clock();
    match since_unix_epoch(&reading) {
        Ok((secs, nanos)) => {
            assert(secs * 1_000_000_000 <= (u64::MAX as int) * 1_000_000_000) by (nonlinear_arith)
                requires
                    secs <= u64::MAX,
            ;
            secs as i128 * 1_000_000_000 + nanos as i128
        },
        Err((secs, nanos)) => {
            assert(secs * 1_000_000_000 <= (u64::MAX as int) * 1_000_000_000) by (nonlinear_arith)
                requires
                    secs <= u64::MAX,
            ;
            -(secs as i128 * 1_000_000_000 + nanos as i128)
        },
    }
}

/// `t` is a value `now` can return: a reading of the system clock.
pub open spec fn is_clock_reading(t: i128) -> bool {
    call_ensures(now, (), t)
}

/// `t` comes at or after `floor`, and is a reading of the system clock
/// unless it is `floor` itself.
pub open spec fn reads_after(t: i128, floor: i128) -> bool {
    &&& floor <= t
    &&& (t == floor || is_clock_reading(t))
}

/// The current instant, or `floor` when the clock reads earlier: a
/// reading no earlier than `floor`, so that instants stamped one after
/// another never run backwards, even when the system clock is set back.
pub fn now_from(floor: i128) -> (t: i128)
    ensures
        reads_after(t, floor),
{
    let t = now();
    if t < floor {
        floor
    } else {
        t
    }
}

} // verus!
