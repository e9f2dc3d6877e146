use vstd::prelude::*;

use chrono::Datelike;
use chrono::TimeZone;
use chrono::Timelike;

use crate::data::Date;
use crate::data::valid_ymd;
use crate::text::pad2;
use crate::text::pad4;
use crate::text::push_pad2;
use crate::text::push_pad4;

verus! {

/// A civil date and time on the UTC timeline, as handed back by the
/// timezone converter.
#[derive(Debug, Clone, Copy, PartialEq, Eq, Structural)]
pub struct UtcInstant {
    pub year: u32,
    pub month: u8,
    pub day: u8,
    pub hour: u8,
    pub minute: u8,
    pub second: u8,
}

/// The UTC civil time that the timezone database gives for the New York
/// wall-clock reading `y-mo-d h:mi:s`, as components
/// (year, month, day, hour, minute, second).
pub uninterp spec fn ny_utc_of(y: int, mo: int, d: int, h: int, mi: int, s: int) -> (
    int,
    int,
    int,
    int,
    int,
    int,
);

/// True when the New York wall-clock reading `y-mo-d h:mi:s` falls in a
/// daylight-saving gap, which the timezone database maps to no instant.
pub uninterp spec fn ny_gap_of(y: int, mo: int, d: int, h: int, mi: int, s: int) -> bool;

/// Relies on chrono's `NaiveDate::from_ymd_opt` / `and_hms_opt` and
/// chrono-tz's `America/New_York` table: interprets the given wall-clock
/// reading in New York (taking the earlier side of an ambiguous fold) and
/// returns the matching UTC civil time; `None` exactly when the reading
/// falls in a daylight-saving gap, and every New York transition in the
/// table is at 2 AM local, so readings from 3 AM on always resolve.
/// Month, day, hour, minute and second ranges are as chrono documents its
/// accessors; the year moves forward at most one day's worth since New
/// York stands behind UTC.
#[verifier::external_body]
fn ny_to_utc(y: u32, mo: u8, d: u8, h: u8, mi: u8, s: u8) -> (r: Option<UtcInstant>)
    requires
        valid_ymd(y as int, mo as int, d as int),
        h < 24,
        mi < 60,
        s < 60,
    ensures
        (r is None) == ny_gap_of(y as int, mo as int, d as int, h as int, mi as int, s as int),
        h >= 3 ==> r is Some,
        r matches Some(u) ==> ((u.year as int, u.month as int, u.day as int, u.hour as int,
        u.minute as int, u.second as int) == ny_utc_of(
            y as int,
            mo as int,
            d as int,
            h as int,
            mi as int,
            s as int,
        ) && y <= u.year <= y + 1 && 1 <= u.month <= 12 && 1 <= u.day <= 31 && u.hour < 24
            && u.minute < 60 && u.second < 60),
{
    let nd = chrono::NaiveDate::from_ymd_opt(y as i32, mo as u32, d as u32)?;
    let ndt = nd.and_hms_opt(h as u32, mi as u32, s as u32)?;
    let t = chrono_tz::Tz::America__New_York.from_local_datetime(&ndt).earliest()?;
    let u = t.naive_utc();
    Some(
        UtcInstant {
            year: u.year() as u32,
            month: u.month() as u8,
            day: u.day() as u8,
            hour: u.hour() as u8,
            minute: u.minute() as u8,
            second: u.second() as u8,
        },
    )
}

/// The compact UTC timestamp `YYYYMMDDTHHMMSSZ` of the given components.
pub open spec fn utc_compact(c: (int, int, int, int, int, int)) -> Seq<char> {
    pad4(c.0) + pad2(c.1) + pad2(c.2) + seq!['T'] + pad2(c.3) + pad2(c.4) + pad2(c.5) + seq!['Z']
}

/// Writes one converted instant in the compact form `YYYYMMDDTHHMMSSZ`.
pub fn format_utc_stamp(u: &UtcInstant) -> (r: String)
    ensures
        r@ == utc_compact(
            (
                u.year as int,
                u.month as int,
                u.day as int,
                u.hour as int,
                u.minute as int,
                u.second as int,
            ),
        ),
{
    let mut out = String::new();
    push_pad4(&mut out, u.year);
    push_pad2(&mut out, u.month as u32);
    push_pad2(&mut out, u.day as u32);
    out.push('T');
    push_pad2(&mut out, u.hour as u32);
    push_pad2(&mut out, u.minute as u32);
    push_pad2(&mut out, u.second as u32);
    out.push('Z');
    proof {
        assert(out@ =~= utc_compact(
            (
                u.year as int,
                u.month as int,
                u.day as int,
                u.hour as int,
                u.minute as int,
                u.second as int,
            ),
        ));
    }
    out
}

/// Renders the New York wall-clock reading `date h:mi:s` as a compact UTC
/// timestamp; `None` exactly when the reading falls in a daylight-saving
/// gap, which never happens from 3 AM on.
pub fn format_ny_time(date: &Date, hour: u8, minute: u8, second: u8) -> (r: Option<String>)
    requires
        date.wf(),
        hour < 24,
        minute < 60,
        second < 60,
    ensures
        (r is None) == ny_gap_of(
            date@.year,
            date@.month,
            date@.day,
            hour as int,
            minute as int,
            second as int,
        ),
        hour >= 3 ==> r is Some,
        r matches Some(t) ==> t@ == utc_compact(
            ny_utc_of(
                date@.year,
                date@.month,
                date@.day,
                hour as int,
                minute as int,
                second as int,
            ),
        ),
{
    match ny_to_utc(date.year, date.month, date.day, hour, minute, second) {
        Some(u) => Some(format_utc_stamp(&u)),
        None => None,
    }
}

} // verus!
