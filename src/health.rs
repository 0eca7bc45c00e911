use vstd::prelude::*;

verus! {

/// An uptime split into whole days, then the hours, minutes and seconds
/// left over.
#[derive(Clone, Copy, Debug, PartialEq, Eq, Structural)]
pub struct Uptime {
    pub days: u64,
    pub hours: u64,
    pub minutes: u64,
    pub seconds: u64,
}

/// Splits `secs` seconds into days, hours, minutes and seconds.
pub fn uptime_parts(secs: u64) -> (r: Uptime)
    ensures
        r.days * 86400 + r.hours * 3600 + r.minutes * 60 + r.seconds == secs,
        r.hours < 24,
        r.minutes < 60,
        r.seconds < 60,
{
    let minutes = secs / 60;
    let hours = minutes / 60;
    let days = hours / 24;
    let r = Uptime { days, hours: hours % 24, minutes: minutes % 60, seconds: secs % 60 };
    assert(r.days * 86400 + r.hours * 3600 + r.minutes * 60 + r.seconds == secs) by (nonlinear_arith)
        requires
            minutes == secs / 60,
            hours == minutes / 60,
            days == hours / 24,
            r.days == days,
            r.hours == hours % 24,
            r.minutes == minutes % 60,
            r.seconds == secs % 60,
    ;
    r
}

} // verus!
