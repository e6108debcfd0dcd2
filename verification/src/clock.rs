//! Points in time, as the library records them.

use vstd::prelude::*;

verus! {

/// A point in UTC time: whole seconds since the Unix epoch (negative before
/// it) and the nanoseconds past that second.
#[derive(Debug, Clone, Copy, PartialEq, Eq, Structural)]
pub struct Timestamp {
    pub secs: i64,
    pub nanos: u32,
}

/// `std::time::SystemTime`: a reading of the system clock.
#[verifier::external_type_specification]
#[verifier::external_body]
pub struct ExSystemTime(std::time::SystemTime);

/// `std::time::SystemTime::now()`. It reads the system clock, so nothing is
/// promised of the value.
#[verifier::external_body]
fn system_now() -> (t: std::time::SystemTime) {
    std::time::SystemTime::now()
}

/// `SystemTime::duration_since(UNIX_EPOCH)`, as whole seconds and the
/// nanoseconds past them: `Ok` with how long after the epoch `t` lies, or,
/// for a reading before the epoch, `Err` with how long before it. std
/// documents `Duration::subsec_nanos` as always less than one billion,
/// which is all the contract claims.
#[verifier::external_body]
fn since_epoch(t: &std::time::SystemTime) -> (r: Result<(u64, u32), (u64, u32)>)
    ensures
        match r {
            Ok((_, n)) => n < 1_000_000_000,
            Err((_, n)) => n < 1_000_000_000,
        },
{
    match t.duration_since(std::time::UNIX_EPOCH) {
        Ok(d) => Ok((d.as_secs(), d.subsec_nanos())),
        Err(e) => Err((e.duration().as_secs(), e.duration().subsec_nanos())),
    }
}

/// The timestamp of a clock reading given as its distance from the epoch:
/// `Ok((s, n))` lies `s` seconds and `n` nanoseconds after it, `Err((s, n))`
/// as far before it. Seconds beyond the range of `i64` saturate.
pub open spec fn timestamp_of(r: Result<(u64, u32), (u64, u32)>) -> Timestamp {
    match r {
        Ok((s, n)) => if s <= i64::MAX {
            Timestamp { secs: s as i64, nanos: n }
        } else {
            Timestamp { secs: i64::MAX, nanos: n }
        },
        Err((s, n)) => if s > i64::MAX {
            Timestamp { secs: i64::MIN, nanos: 0 }
        } else if n == 0 {
            Timestamp { secs: (-(s as int)) as i64, nanos: 0 }
        } else {
            Timestamp { secs: (-(s as int) - 1) as i64, nanos: (1_000_000_000 - n) as u32 }
        },
    }
}

/// Build the timestamp of a clock reading given as its distance from the
/// epoch; see `timestamp_of`.
pub fn timestamp_from_epoch_offset(r: Result<(u64, u32), (u64, u32)>) -> (t: Timestamp)
    requires
        match r {
            Ok((_, n)) => n < 1_000_000_000,
            Err((_, n)) => n < 1_000_000_000,
        },
    ensures
        t == timestamp_of(r),
        t.nanos < 1_000_000_000,
        (r is Err && t.secs > i64::MIN) ==> t.secs * 1_000_000_000 + t.nanos == -(r->Err_0.0 * 1_000_000_000 + r->Err_0.1),
        (r is Ok && t.secs < i64::MAX) ==> t.secs * 1_000_000_000 + t.nanos == r->Ok_0.0 * 1_000_000_000 + r->Ok_0.1,
{
    match r {
        Ok((s, n)) => {
            if s <= 0x7fff_ffff_ffff_ffffu64 {
                Timestamp { secs: s as i64, nanos: n }
            } else {
                Timestamp { secs: i64::MAX, nanos: n }
            }
        },
        Err((s, n)) => {
            if s > 0x7fff_ffff_ffff_ffffu64 {
                Timestamp { secs: i64::MIN, nanos: 0 }
            } else if n == 0 {
                let v = s as i64;
                Timestamp { secs: -v, nanos: 0 }
            } else {
                let v = s as i64;
                Timestamp { secs: -v - 1, nanos: 1_000_000_000 - n }
            }
        },
    }
}

/// The current time. The system clock decides the value, so nothing is
/// promised of it beyond a well-formed timestamp; a clock set before the
/// epoch gives negative seconds.
pub fn utc_now() -> (t: Timestamp)
    ensures
        t.nanos < 1_000_000_000,
{
    let now = system_now();
    timestamp_from_epoch_offset(since_epoch(&now))
}

} // verus!
