//! Unpacking FAT's packed 16-bit date and time words.

use crate::error::FatError;
use vstd::prelude::*;

verus! {

/// Scale applied to the packed seconds field.
///
/// FAT conventionally stores seconds in two-second units; the decoder here
/// keeps the literal, undoubled reading of the field, so the scale is one.
/// A standard-conformant variant is this one constant away.
pub const SECONDS_SCALE: u8 = 1;

/// A decoded calendar timestamp. Values only come from
/// [`decode_datetime`], which admits none that fails
/// [`valid_packed_datetime`].
#[derive(Clone, Copy, Debug, PartialEq, Eq, Structural)]
pub struct Timestamp {
    pub year: u16,
    pub month: u8,
    pub day: u8,
    pub hour: u8,
    pub minute: u8,
    pub second: u8,
}

/// Year held by a packed date: the top seven bits, based at 1980.
pub open spec fn packed_year(date: u16) -> u16 {
    ((date >> 9) + 1980) as u16
}

/// Month held by a packed date: bits 5..9.
pub open spec fn packed_month(date: u16) -> u16 {
    (date & 0x01E0) >> 5
}

/// Day held by a packed date: the low five bits.
pub open spec fn packed_day(date: u16) -> u16 {
    date & 0x001F
}

/// Hour held by a packed time: the top five bits.
pub open spec fn packed_hour(time: u16) -> u16 {
    time >> 11
}

/// Minute held by a packed time: bits 5..11.
pub open spec fn packed_minute(time: u16) -> u16 {
    (time & 0x07E0) >> 5
}

/// Second held by a packed time: the low five bits, scaled by
/// [`SECONDS_SCALE`].
pub open spec fn packed_second(time: u16) -> u16 {
    ((time & 0x001F) * (SECONDS_SCALE as u16)) as u16
}

/// The Gregorian leap-year rule.
pub open spec fn spec_is_leap_year(year: int) -> bool {
    year % 4 == 0 && (year % 100 != 0 || year % 400 == 0)
}

/// Length of `month` in `year`.
pub open spec fn spec_days_in_month(year: int, month: int) -> int
    recommends
        1 <= month <= 12,
{
    if month == 2 {
        if spec_is_leap_year(year) {
            29
        } else {
            28
        }
    } else if month == 4 || month == 6 || month == 9 || month == 11 {
        30
    } else {
        31
    }
}

/// The packed pair denotes a real calendar moment: a month of 1..12, a day
/// the month has, and an hour, minute and second on the clock.
pub open spec fn valid_packed_datetime(date: u16, time: u16) -> bool {
    &&& 1 <= packed_month(date) <= 12
    &&& 1 <= packed_day(date) <= spec_days_in_month(
        packed_year(date) as int,
        packed_month(date) as int,
    )
    &&& packed_hour(time) <= 23
    &&& packed_minute(time) <= 59
    &&& packed_second(time) <= 59
}

/// The timestamp that a valid packed pair denotes.
pub open spec fn spec_timestamp(date: u16, time: u16) -> Timestamp {
    Timestamp {
        year: packed_year(date),
        month: packed_month(date) as u8,
        day: packed_day(date) as u8,
        hour: packed_hour(time) as u8,
        minute: packed_minute(time) as u8,
        second: packed_second(time) as u8,
    }
}

/// Whether `year` is a Gregorian leap year.
pub fn is_leap_year(year: u16) -> (r: bool)
    ensures
        r == spec_is_leap_year(year as int),
{
    year % 4 == 0 && (year % 100 != 0 || year % 400 == 0)
}

/// How many days `month` has in `year`.
pub fn days_in_month(year: u16, month: u8) -> (r: u8)
    requires
        1 <= month <= 12,
    ensures
        r == spec_days_in_month(year as int, month as int),
{
    if month == 2 {
        if is_leap_year(year) {
            29
        } else {
            28
        }
    } else if month == 4 || month == 6 || month == 9 || month == 11 {
        30
    } else {
        31
    }
}

/// Unpacks a creation date/time pair.
///
/// Succeeds exactly when the pair denotes a real calendar moment, and then
/// returns the bit-field values — year based at 1980, seconds deliberately
/// unscaled (see [`SECONDS_SCALE`]); any other pair is rejected as an invalid
/// timestamp.
pub fn decode_datetime(date: u16, time: u16) -> (r: Result<Timestamp, FatError>)
    ensures
        valid_packed_datetime(date, time) ==> (r matches Ok(t) && t == spec_timestamp(
            date,
            time,
        )),
        !valid_packed_datetime(date, time) ==> r == Err::<Timestamp, FatError>(
            FatError::InvalidTimestamp,
        ),
{
    proof {
        assert((date >> 9) < 0x80 && ((date & 0x01E0) >> 5) < 0x10 && (date & 0x001F) < 0x20
            && (time >> 11) < 0x20 && ((time & 0x07E0) >> 5) < 0x40 && (time & 0x001F) < 0x20)
            by (bit_vector);
        assert(SECONDS_SCALE == 1);
    }
    let year: u16 = (date >> 9) + 1980;
    let month_w: u16 = (date & 0x01E0) >> 5;
    let day_w: u16 = date & 0x001F;
    let hour_w: u16 = time >> 11;
    let minute_w: u16 = (time & 0x07E0) >> 5;
    let second_w: u16 = (time & 0x001F) * (SECONDS_SCALE as u16);
    if month_w < 1 || month_w > 12 {
        return Err(FatError::InvalidTimestamp);
    }
    let month: u8 = month_w as u8;
    if day_w < 1 || day_w > days_in_month(year, month) as u16 {
        return Err(FatError::InvalidTimestamp);
    }
    if hour_w > 23 || minute_w > 59 || second_w > 59 {
        return Err(FatError::InvalidTimestamp);
    }
    Ok(
        Timestamp {
            year,
            month,
            day: day_w as u8,
            hour: hour_w as u8,
            minute: minute_w as u8,
            second: second_w as u8,
        },
    )
}

} // verus!
