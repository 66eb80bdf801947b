//! The time of the system.

use vstd::prelude::*;

use crate::orchestration::clock::Clock;

verus! {

/// `std::time::SystemTime`: a reading of the system clock. It is only carried.
#[verifier::external_type_specification]
#[verifier::external_body]
pub struct ExSystemTime(std::time::SystemTime);

/// `std::time::SystemTimeError`: what measuring back from a later instant gives. It is only
/// carried.
#[verifier::external_type_specification]
#[verifier::external_body]
pub struct ExSystemTimeError(std::time::SystemTimeError);

/// `SystemTime::now` reads the clock of the machine. Nothing is claimed of the reading.
#[verifier::external_body]
fn read_system_clock() -> (r: std::time::SystemTime) {
    std::time::SystemTime::now()
}

/// `SystemTime::duration_since`, from the Unix epoch: how long after the epoch the reading lies,
/// or an error if it lies before. A reading is opaque, so nothing is claimed of the span.
#[verifier::external_body]
fn since_epoch(reading: std::time::SystemTime) -> (r: Result<
    std::time::Duration,
    std::time::SystemTimeError,
>) {
    reading.duration_since(std::time::UNIX_EPOCH)
}

/// `Duration::as_secs`: the whole seconds of a span. A span is opaque, so nothing is claimed of
/// the number.
#[verifier::external_body]
fn whole_seconds(span: std::time::Duration) -> (r: u64) {
    span.as_secs()
}

/// `Duration::as_millis`: the whole milliseconds of a span. A span is opaque, so nothing is
/// claimed of the number.
#[verifier::external_body]
fn whole_milliseconds(span: std::time::Duration) -> (r: u128) {
    span.as_millis()
}

/// A reading of the system clock in whole seconds after the epoch; `None` before it.
pub closed spec fn reads_seconds(reading: Option<u64>) -> bool {
    exists|
        t: std::time::SystemTime,
        d: Result<std::time::Duration, std::time::SystemTimeError>,
    |
        {
            &&& call_ensures(read_system_clock, (), t)
            &&& #[trigger] call_ensures(since_epoch, (t,), d)
            &&& match d {
                Ok(span) => reading matches Some(s) && call_ensures(whole_seconds, (span,), s),
                Err(_) => reading is None,
            }
        }
}

/// A reading of the system clock in whole milliseconds after the epoch; `None` before it.
pub closed spec fn reads_milliseconds(reading: Option<u128>) -> bool {
    exists|
        t: std::time::SystemTime,
        d: Result<std::time::Duration, std::time::SystemTimeError>,
    |
        {
            &&& call_ensures(read_system_clock, (), t)
            &&& #[trigger] call_ensures(since_epoch, (t,), d)
            &&& match d {
                Ok(span) => reading matches Some(s) && call_ensures(
                    whole_milliseconds,
                    (span,),
                    s,
                ),
                Err(_) => reading is None,
            }
        }
}

fn read_seconds() -> (r: Option<u64>)
    ensures
        reads_seconds(r),
{
    let t = read_system_clock();
    match since_epoch(t) {
        Ok(span) => Some(whole_seconds(span)),
        Err(_) => None,
    }
}

fn read_milliseconds() -> (r: Option<u128>)
    ensures
        reads_milliseconds(r),
{
    let t = read_system_clock();
    match since_epoch(t) {
        Ok(span) => Some(whole_milliseconds(span)),
        Err(_) => None,
    }
}

/// The seconds a reading stands for: 0 if the clock is set before the epoch.
pub open spec fn seconds_or_zero(reading: Option<u64>) -> u64 {
    match reading {
        Some(s) => s,
        None => 0,
    }
}

/// The seconds a reading stands for: 0 if the clock is set before the epoch.
pub fn seconds_of(reading: Option<u64>) -> (r: u64)
    ensures
        r == seconds_or_zero(reading),
{
    match reading {
        Some(s) => s,
        None => 0,
    }
}

/// The signed timestamp a reading stands for: 0 if the clock is set before the epoch.
pub fn timestamp_of(reading: Option<u64>) -> (r: i64)
    ensures
        r == seconds_or_zero(reading) as i64,
{
    #[verifier::truncate]
    (seconds_of(reading) as i64)
}

/// The low 64 bits of the milliseconds a reading stands for: 0 if the clock is set before the
/// epoch.
pub open spec fn milliseconds_or_zero(reading: Option<u128>) -> u64 {
    match reading {
        Some(s) => s as u64,
        None => 0,
    }
}

/// The milliseconds a reading stands for: 0 if the clock is set before the epoch.
pub fn milliseconds_of(reading: Option<u128>) -> (r: u64)
    ensures
        r == milliseconds_or_zero(reading),
{
    match reading {
        Some(s) => {
            #[verifier::truncate]
            (s as u64)
        },
        None => 0,
    }
}

/// The current time in seconds since the Unix epoch.
pub fn now() -> (r: u64)
    ensures
        exists|reading: Option<u64>| #[trigger]
            reads_seconds(reading) && r == seconds_or_zero(reading),
{
    let reading = read_seconds();
    seconds_of(reading)
}

/// The current timestamp in seconds since the Unix epoch.
pub fn current_timestamp() -> (r: i64)
    ensures
        exists|reading: Option<u64>| #[trigger]
            reads_seconds(reading) && r == seconds_or_zero(reading) as i64,
{
    let reading = read_seconds();
    timestamp_of(reading)
}

/// The clock of the system.
pub struct SystemClock;

impl Clock for SystemClock {
    fn now_ms(&self) -> (r: u64)
        ensures
            exists|reading: Option<u128>| #[trigger]
                reads_milliseconds(reading) && r == milliseconds_or_zero(reading),
    {
        let reading = read_milliseconds();
        milliseconds_of(reading)
    }
}

/// A clock behind the epoch reads as zero, and any other reading as it is, as far as it fits.
pub proof fn a_clock_behind_the_epoch_reads_zero(s: u64, ms: u128)
    ensures
        seconds_or_zero(None) == 0,
        seconds_or_zero(Some(s)) == s,
        milliseconds_or_zero(None) == 0,
        ms <= u64::MAX ==> milliseconds_or_zero(Some(ms)) == ms,
{
}

} // verus!
