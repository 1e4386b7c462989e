//! Instants, and what a time zone makes of them.
//!
//! The time zone database is chrono-tz's. This module hands it plain values
//! and takes plain values back; what it answers is known here only by name.

use crate::calendar::{Date, TimeOfDay};
use vstd::prelude::*;

verus! {

/// A point in time: seconds and nanoseconds since 1970-01-01 00:00:00 UTC.
#[derive(Clone, Copy, Debug, PartialEq, Eq, Structural)]
pub struct Instant {
    pub secs: i64,
    pub nanos: u32,
}

/// What a wall-clock reading on some day is as an instant, in seconds since
/// 1970-01-01 00:00:00 UTC.
#[derive(Clone, Copy, Debug, PartialEq, Eq, Structural)]
pub enum LocalInstant {
    /// There is no such instant: the clocks of the zone skip this reading,
    /// or the reading could not be resolved.
    Gap,
    /// The reading occurs once.
    Single(i64),
    /// The clocks of the zone show this reading twice: the earlier and the later instant.
    Fold(i64, i64),
}

/// Whether chrono-tz has a time zone of this name.
pub uninterp spec fn zone_is_known(zone: Seq<char>) -> bool;

/// The civil date in `zone` at the instant `secs`, `nanos`, as year, month and
/// day; `None` where the zone is unknown or chrono cannot hold the instant or
/// its local time.
pub uninterp spec fn zone_local_date(zone: Seq<char>, secs: int, nanos: int) -> Option<
    (i32, u32, u32),
>;

/// The instant at which the clocks of `zone` read `hour`:`minute`:`second` on
/// the day `year`-`month`-`day`; `None` where the zone is unknown or the day
/// or the time of day is none.
pub uninterp spec fn zone_reading(
    zone: Seq<char>,
    year: int,
    month: int,
    day: int,
    hour: int,
    minute: int,
    second: int,
) -> Option<LocalInstant>;

/// The civil date in `zone` at `now`.
pub open spec fn date_in_zone(zone: Seq<char>, now: Instant) -> Option<Date> {
    match zone_local_date(zone, now.secs as int, now.nanos as int) {
        Some((year, month, day)) => Some(Date::of(year, month, day)),
        None => None,
    }
}

/// The instant at which the clocks of `zone` read `at` on the day `date`.
pub open spec fn reading_in_zone(zone: Seq<char>, date: Date, at: TimeOfDay) -> Option<
    LocalInstant,
> {
    zone_reading(
        zone,
        date.year() as int,
        date.month() as int,
        date.day() as int,
        at.hour as int,
        at.minute as int,
        at.second as int,
    )
}

/// The civil date in `zone` at `now`.
pub fn civil_date(zone: &str, now: Instant) -> (date: Option<Date>)
    ensures
        date == date_in_zone(zone@, now),
        date matches Some(d) ==> d.is_real(),
{
    let date = local_date(zone, now);
    proof {
        if let Some(d) = date {
            d.lemma_of_fields();
        }
    }
    date
}

/// Parses `zone` as a `chrono_tz::Tz`. Trusted: whether the name is in
/// chrono-tz's table depends on the name alone.
#[verifier::external_body]
pub(crate) fn known_zone(zone: &str) -> (known: bool)
    ensures
        known == zone_is_known(zone@),
{
    zone.parse::<chrono_tz::Tz>().is_ok()
}

/// Moves the instant into the zone with `chrono::DateTime::with_timezone`
/// and takes the date of its local time. The instant is made of the plain
/// values with `DateTime::from_timestamp`, and the local time is read with
/// `NaiveDateTime::checked_add_offset`, which answers `None` where
/// `date_naive` would panic. Trusted: the result is a function of the
/// arguments, and a date that chrono hands out names a day that exists.
#[verifier::external_body]
fn local_date(zone: &str, now: Instant) -> (date: Option<Date>)
    ensures
        date matches Some(d) ==> d.is_real() && zone_local_date(
            zone@,
            now.secs as int,
            now.nanos as int,
        ) == Some((d.year(), d.month(), d.day())),
        date is None ==> zone_local_date(zone@, now.secs as int, now.nanos as int) is None,
{
    let tz: chrono_tz::Tz = zone.parse().ok()?;
    let here = chrono::DateTime::from_timestamp(now.secs, now.nanos)?.with_timezone(&tz);
    let day = here.naive_utc().checked_add_offset(chrono::Offset::fix(here.offset()))?.date();
    Some(
        Date {
            year: chrono::Datelike::year(&day),
            month: chrono::Datelike::month(&day),
            day: chrono::Datelike::day(&day),
        },
    )
}

/// Asks `chrono::TimeZone::from_local_datetime` when the clocks of the zone
/// read `at` on the day `date`. The zone, the day and the time of day are
/// made of the plain values with `str::parse`, `NaiveDate::from_ymd_opt` and
/// `NaiveTime::from_hms_opt`. Trusted: the result is a function of the
/// arguments.
#[verifier::external_body]
pub(crate) fn local_time(zone: &str, date: Date, at: TimeOfDay) -> (found: Option<LocalInstant>)
    ensures
        found == zone_reading(
            zone@,
            date.year() as int,
            date.month() as int,
            date.day() as int,
            at.hour as int,
            at.minute as int,
            at.second as int,
        ),
{
    let tz: chrono_tz::Tz = zone.parse().ok()?;
    let day = chrono::NaiveDate::from_ymd_opt(date.year, date.month, date.day)?;
    let time = chrono::NaiveTime::from_hms_opt(at.hour, at.minute, at.second)?;
    Some(
        match chrono::TimeZone::from_local_datetime(&tz, &day.and_time(time)) {
            chrono::LocalResult::None => LocalInstant::Gap,
            chrono::LocalResult::Single(t) => LocalInstant::Single(t.timestamp()),
            chrono::LocalResult::Ambiguous(a, b) => LocalInstant::Fold(a.timestamp(), b.timestamp()),
        },
    )
}

} // verus!
