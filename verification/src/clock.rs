//! Today's date, read from the system clock.

use vstd::prelude::*;
use crate::calendar::CalendarDate;

verus! {

/// `time::OffsetDateTime`, a moment with its offset from UTC. Nothing of
/// what a moment holds is known here; `date_of` reads its date.
#[verifier::external_type_specification]
#[verifier::external_body]
pub struct ExOffsetDateTime(time::OffsetDateTime);

/// `time::OffsetDateTime::now_utc`: the present moment in UTC. Taken on
/// trust; nothing is claimed of the moment. The call panics only where the
/// system clock lies outside the years that the `time` crate can represent.
#[verifier::external_body]
fn utc_now() -> (now: time::OffsetDateTime) {
    time::OffsetDateTime::now_utc()
}

/// `time::OffsetDateTime::now_local`: the present moment in the local time
/// zone, or nothing where the zone's offset cannot be determined. Taken on
/// trust; nothing is claimed of the moment, nor of when the offset can be
/// determined.
#[verifier::external_body]
fn local_now() -> (now: Option<time::OffsetDateTime>) {
    match time::OffsetDateTime::now_local() {
        Ok(now) => Some(now),
        Err(_) => None,
    }
}

/// `year`, `month` and `day` of `time::OffsetDateTime`: the calendar date of
/// a moment. Taken on trust: the month is one of the twelve of
/// `time::Month`, which number 1 to 12, and the crate documents the day as
/// lying in 1 to 31. Nothing is claimed of the year.
#[verifier::external_body]
fn date_of(moment: &time::OffsetDateTime) -> (parts: (i32, u8, u8))
    ensures
        1 <= parts.1 <= 12,
        1 <= parts.2 <= 31,
{
    (moment.year(), moment.month() as u8, moment.day())
}

/// Today's date: in local time where the local offset is known, in UTC
/// where it is not. What the date is depends on the clock; the contract
/// says what holds of every date that the clock can give.
pub fn today() -> (date: CalendarDate)
    ensures
        date.well_formed(),
{
    let now = match local_now() {
        Some(now) => now,
        None => utc_now(),
    };
    let (year, month, day) = date_of(&now);
    CalendarDate { year, month, day }
}

} // verus!
