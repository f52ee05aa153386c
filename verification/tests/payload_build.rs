use mailbomb::consts::{get_supported_versions, BUFFER_SIZE};
use mailbomb::error::{BuildPayloadError, MacAddressError};
use mailbomb::date::Date;
use mailbomb::payload::build_payload;
use mailbomb::types::MacAddress;

fn known_mac() -> MacAddress {
    MacAddress::parse_str("aa-bb-cc-dd-ee-ff").unwrap()
}

fn known_date() -> Date {
    Date::new(2022, 5, 2).unwrap()
}

#[test]
fn known_scenario_path_and_file_name() {
    let payload = build_payload(&known_mac(), &known_date(), "4.3e").unwrap();
    assert_eq!(
        payload.path,
        "private/wii/title/HAEA/2669460f/ada5ed77/2022/04/02/23/59/PUNE_69/log"
    );
    assert_eq!(payload.file_name, "2a032cc4.000");
    assert_eq!(payload.bin.len(), BUFFER_SIZE);
}

#[test]
fn buffer_length_is_fixed_for_every_version() {
    for version in get_supported_versions() {
        let payload = build_payload(&known_mac(), &known_date(), &version).unwrap();
        assert_eq!(payload.bin.len(), BUFFER_SIZE);
    }
}

#[test]
fn build_is_deterministic() {
    let a = build_payload(&known_mac(), &known_date(), "4.3u").unwrap();
    let b = build_payload(&known_mac(), &known_date(), "4.3u").unwrap();
    assert_eq!(a.bin, b.bin);
    assert_eq!(a.path, b.path);
    assert_eq!(a.file_name, b.file_name);
}

#[test]
fn attribute_header_fields() {
    let payload = build_payload(&known_mac(), &known_date(), "4.3e").unwrap();
    let bin = &payload.bin;
    assert_eq!(&bin[0x000..0x008], b"CDBFILE\x02");
    // identity words from the known scenario
    assert_eq!(&bin[0x008..0x00C], &[0x26, 0x69, 0x46, 0x0f]);
    assert_eq!(&bin[0x00C..0x010], &[0xad, 0xa5, 0xed, 0x77]);
    assert_eq!(bin[0x010], 0x12);
    assert_eq!(&bin[0x014..0x026], b"ripl_board_record\0");
    assert_eq!(&bin[0x070..0x074], &[0, 0, 0, 1]);
    assert_eq!(&bin[0x074..0x078], &[0, 0, 0, 1]);
    // total length, big-endian: 205824 = 0x00032400
    assert_eq!(&bin[0x078..0x07C], &[0x00, 0x03, 0x24, 0x00]);
    // the timestamp of the known scenario
    assert_eq!(&bin[0x07C..0x080], &[0x2a, 0x03, 0x2c, 0xc4]);
    // the key string: the timestamp in decimal and the fixed tokens
    assert_eq!(&bin[0x080..0x09A], b"0704851140_PUNE_69_000.log");
    assert_eq!(bin[0x09A], 0);
    // the IV: 0x12345678 little-endian, four times
    let iv: Vec<u8> = [0x78u8, 0x56, 0x34, 0x12].repeat(4);
    assert_eq!(&bin[0x0A0..0x0B0], iv.as_slice());
}

#[test]
fn unsupported_version_is_rejected() {
    let r = build_payload(&known_mac(), &known_date(), "4.2e");
    assert!(matches!(r, Err(BuildPayloadError::InvalidSystemVersion)));
    let r = build_payload(&known_mac(), &known_date(), "");
    assert!(matches!(r, Err(BuildPayloadError::InvalidSystemVersion)));
}

#[test]
fn out_of_range_years_are_rejected() {
    let r = build_payload(&known_mac(), &Date::new(1999, 12, 31).unwrap(), "4.3e");
    assert!(matches!(r, Err(BuildPayloadError::InvalidYear)));
    let r = build_payload(&known_mac(), &Date::new(2036, 1, 1).unwrap(), "4.3e");
    assert!(matches!(r, Err(BuildPayloadError::InvalidYear)));
}

#[test]
fn invalid_dates_do_not_exist() {
    assert!(Date::new(2022, 2, 29).is_none());
    assert!(Date::new(2024, 2, 29).is_some());
    assert!(Date::new(2022, 13, 1).is_none());
    assert!(Date::new(2022, 0, 1).is_none());
    assert!(Date::new(2022, 4, 31).is_none());
    assert!(Date::new(2100, 2, 29).is_none());
    assert!(Date::new(2000, 2, 29).is_some());
}

#[test]
fn error_messages() {
    assert_eq!(
        BuildPayloadError::InvalidYear.message(),
        "year must be between 2000 and 2035"
    );
    assert!(MacAddressError::InvalidHex.message().contains("hex"));
}
