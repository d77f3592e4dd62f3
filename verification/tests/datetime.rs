use fat12::datetime::{days_in_month, decode_datetime, is_leap_year, Timestamp};
use fat12::error::FatError;

/// Packs year (based at 1980), month and day the FAT way.
fn pack_date(year: u16, month: u16, day: u16) -> u16 {
    ((year - 1980) << 9) | (month << 5) | day
}

/// Packs hour, minute and the raw seconds field the FAT way.
fn pack_time(hour: u16, minute: u16, second: u16) -> u16 {
    (hour << 11) | (minute << 5) | second
}

#[test]
fn epoch_date_decodes_to_1980_01_01() {
    let t = decode_datetime(0x0021, 0x0000).unwrap();
    assert_eq!(
        t,
        Timestamp { year: 1980, month: 1, day: 1, hour: 0, minute: 0, second: 0 }
    );
}

#[test]
fn all_fields_decode() {
    let date = pack_date(1994, 12, 25);
    let time = pack_time(23, 59, 29);
    let t = decode_datetime(date, time).unwrap();
    assert_eq!(
        t,
        Timestamp { year: 1994, month: 12, day: 25, hour: 23, minute: 59, second: 29 }
    );
}

#[test]
fn seconds_field_is_not_doubled() {
    let t = decode_datetime(0x0021, pack_time(0, 0, 29)).unwrap();
    assert_eq!(t.second, 29);
}

#[test]
fn month_zero_is_invalid() {
    assert_eq!(
        decode_datetime(0x0001, 0x0000),
        Err(FatError::InvalidTimestamp)
    );
}

#[test]
fn day_zero_is_invalid() {
    assert_eq!(
        decode_datetime(0x0020, 0x0000),
        Err(FatError::InvalidTimestamp)
    );
}

#[test]
fn month_13_is_invalid() {
    let date = (13u16 << 5) | 1;
    assert_eq!(decode_datetime(date, 0x0000), Err(FatError::InvalidTimestamp));
}

#[test]
fn day_past_month_end_is_invalid() {
    assert_eq!(
        decode_datetime(pack_date(1983, 4, 31), 0x0000),
        Err(FatError::InvalidTimestamp)
    );
}

#[test]
fn february_29_depends_on_the_leap_year() {
    assert!(decode_datetime(pack_date(1984, 2, 29), 0x0000).is_ok());
    assert_eq!(
        decode_datetime(pack_date(1983, 2, 29), 0x0000),
        Err(FatError::InvalidTimestamp)
    );
    // 2000 is divisible by 400, 2100 by 100 only.
    assert!(decode_datetime(pack_date(2000, 2, 29), 0x0000).is_ok());
    assert_eq!(
        decode_datetime(pack_date(2100, 2, 29), 0x0000),
        Err(FatError::InvalidTimestamp)
    );
}

#[test]
fn hour_and_minute_out_of_range_are_invalid() {
    assert_eq!(
        decode_datetime(0x0021, 24u16 << 11),
        Err(FatError::InvalidTimestamp)
    );
    assert_eq!(
        decode_datetime(0x0021, 60u16 << 5),
        Err(FatError::InvalidTimestamp)
    );
}

#[test]
fn month_lengths() {
    let lengths = [31, 28, 31, 30, 31, 30, 31, 31, 30, 31, 30, 31];
    for m in 1..=12u8 {
        assert_eq!(days_in_month(1981, m), lengths[(m - 1) as usize]);
    }
    assert_eq!(days_in_month(1984, 2), 29);
}

#[test]
fn leap_year_rule() {
    assert!(is_leap_year(1984));
    assert!(!is_leap_year(1981));
    assert!(is_leap_year(2000));
    assert!(!is_leap_year(2100));
}
