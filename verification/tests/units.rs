use chrono::{NaiveDate, TimeZone, Utc};

use mailbomb::consts::{sysmenu_vars, SECONDS_TO_2000};
use mailbomb::date::{cdb_time_from_date, Date};
use mailbomb::error::MacAddressError;
use mailbomb::payload::make_iv;
use mailbomb::types::{MacAddress, PayloadWriter, WiiId};

#[test]
fn timestamp_of_known_date() {
    let date = Date::new(2022, 5, 2).unwrap();
    assert_eq!(cdb_time_from_date(&date), 0x2a032cc4);
}

#[test]
fn timestamp_matches_calendar_arithmetic() {
    for (y, m, d) in [
        (2000u16, 1u8, 1u8),
        (2000, 2, 29),
        (2003, 12, 31),
        (2020, 2, 29),
        (2022, 5, 2),
        (2035, 12, 31),
    ] {
        let date = Date::new(y, m, d).unwrap();
        let naive = NaiveDate::from_ymd_opt(y as i32, m as u32, d as u32)
            .unwrap()
            .and_hms_opt(23, 59, 0)
            .unwrap();
        let unix = Utc.from_utc_datetime(&naive).timestamp();
        let expected = (unix - SECONDS_TO_2000 as i64) as u32;
        assert_eq!(cdb_time_from_date(&date), expected);
    }
}

#[test]
fn mac_parsing_accepts_both_cases_and_any_separators() {
    let a = MacAddress::parse_str("aa-bb-cc-dd-ee-ff").unwrap();
    let b = MacAddress::parse_str("AABBCCDDEEFF").unwrap();
    let c = MacAddress::parse_str("Aa-Bb-cC-dd-EE-ff").unwrap();
    assert_eq!(a.octets(), [0xaa, 0xbb, 0xcc, 0xdd, 0xee, 0xff]);
    assert_eq!(b.octets(), a.octets());
    assert_eq!(c.octets(), a.octets());
}

#[test]
fn mac_formats_as_uppercase_hex() {
    let a = MacAddress::parse_str("aa-bb-cc-dd-ee-ff").unwrap();
    assert_eq!(a.to_hex_string(), "AABBCCDDEEFF");
    let b = MacAddress::parse_str("01-23-45-67-89-0f").unwrap();
    assert_eq!(b.to_hex_string(), "01234567890F");
}

#[test]
fn mac_parsing_rejections() {
    // a character that is no hex digit
    assert_eq!(
        MacAddress::parse_str("zz-bb-cc-dd-ee-ff").unwrap_err(),
        MacAddressError::InvalidHex
    );
    // an odd number of digits
    assert_eq!(
        MacAddress::parse_str("aabbccddeef").unwrap_err(),
        MacAddressError::InvalidHex
    );
    // an even number of digits, but not six bytes
    assert_eq!(
        MacAddress::parse_str("aa-bb-cc-dd-ee").unwrap_err(),
        MacAddressError::InvalidMacAddress
    );
    assert_eq!(
        MacAddress::parse_str("aa-bb-cc-dd-ee-ff-00").unwrap_err(),
        MacAddressError::InvalidMacAddress
    );
    // non-ASCII input is not hex
    assert_eq!(
        MacAddress::parse_str("ää-bb-cc-dd-ee-ff").unwrap_err(),
        MacAddressError::InvalidHex
    );
}

#[test]
fn split_upper_lower_reads_big_endian_words() {
    let bytes = [1u8, 2, 3, 4, 5, 6, 7, 8, 9];
    assert_eq!(
        WiiId::split_upper_lower(&bytes),
        Some((0x01020304, 0x05060708))
    );
    assert_eq!(WiiId::split_upper_lower(&bytes[..7]), None);
    assert_eq!(WiiId::split_upper_lower(&[]), None);
}

#[test]
fn iv_repeats_the_word_little_endian() {
    let iv = make_iv();
    assert_eq!(
        iv,
        vec![
            0x78, 0x56, 0x34, 0x12, 0x78, 0x56, 0x34, 0x12, 0x78, 0x56, 0x34, 0x12, 0x78, 0x56,
            0x34, 0x12
        ]
    );
}

#[test]
fn payload_writer_emits_sequential_masked_words() {
    let mut buf = vec![0u8; 64];
    let mut p = PayloadWriter::new(8, 0x11111111);
    p.l(&mut buf, 0xAABBCCDD);
    p.x(&mut buf, 0x11111111);
    p.write_raw(&mut buf, &[1, 2, 3, 4]);
    p.increment_offset(4);
    p.l(&mut buf, 0x01010101);
    assert_eq!(&buf[8..12], &[0xAA, 0xBB, 0xCC, 0xDD]);
    // masked with the key: 0x11111111 ^ 0x11111111 == 0
    assert_eq!(&buf[12..16], &[0, 0, 0, 0]);
    assert_eq!(&buf[16..20], &[1, 2, 3, 4]);
    // the skipped bytes stay untouched
    assert_eq!(&buf[20..24], &[0, 0, 0, 0]);
    assert_eq!(&buf[24..28], &[1, 1, 1, 1]);
}

#[test]
fn version_table_lookup() {
    assert!(sysmenu_vars("4.3u").is_some());
    assert!(sysmenu_vars("4.3e").is_some());
    assert!(sysmenu_vars("4.3j").is_some());
    assert!(sysmenu_vars("4.3k").is_some());
    assert!(sysmenu_vars("4.3x").is_none());
    assert!(sysmenu_vars("4.3").is_none());
    assert!(sysmenu_vars("4.3ee").is_none());
    // the overwrite target is adjusted by +0x14 - 0x08 before use
    let vars = sysmenu_vars("4.3e").unwrap();
    assert_eq!((vars.overwrite_addr + 0x14) - 0x08, vars.overwrite_addr + 0xC);
}
