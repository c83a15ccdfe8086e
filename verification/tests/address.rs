use bluetooth_battery::address::{bt_addr_from_mac, parse_bt_addr, parse_u64};

#[test]
fn parse_u64_reads_decimal_text() {
    assert_eq!(parse_u64("0"), Some(0));
    assert_eq!(parse_u64("123"), Some(123));
    assert_eq!(parse_u64("+7"), Some(7));
    assert_eq!(parse_u64("007"), Some(7));
    assert_eq!(parse_u64("18446744073709551615"), Some(u64::MAX));
}

#[test]
fn parse_u64_refuses_what_from_str_refuses() {
    assert_eq!(parse_u64(""), None);
    assert_eq!(parse_u64("+"), None);
    assert_eq!(parse_u64("-1"), None);
    assert_eq!(parse_u64("12a"), None);
    assert_eq!(parse_u64(" 1"), None);
    assert_eq!(parse_u64("18446744073709551616"), None);
    assert_eq!(parse_u64("99999999999999999999x"), None);
}

#[test]
fn parse_u64_agrees_with_std() {
    for text in ["42", "+0", "", "++1", "1+1", "00000000000000000000000001", "1e3"] {
        assert_eq!(parse_u64(text), text.parse::<u64>().ok(), "{}", text);
    }
}

#[test]
fn bt_addr_reads_hex_text_as_decimal() {
    assert_eq!(bt_addr_from_mac(&[0x00, 0x11, 0x22, 0x33, 0x44, 0x55]), Some(1122334455));
    assert_eq!(bt_addr_from_mac(&[0x12, 0x34, 0x56, 0x78, 0x90, 0x12]), Some(123456789012));
    assert_eq!(bt_addr_from_mac(&[0x99; 8]), Some(9999999999999999));
}

#[test]
fn bt_addr_needs_decimal_nibbles() {
    assert_eq!(bt_addr_from_mac(&[0x00, 0x11, 0x22, 0x33, 0x44, 0x5a]), None);
    assert_eq!(bt_addr_from_mac(&[0xa0, 0x11, 0x22, 0x33, 0x44, 0x55]), None);
    assert_eq!(bt_addr_from_mac(&[]), None);
}

#[test]
fn parse_bt_addr_of_six_byte_text() {
    assert_eq!(parse_bt_addr("00:11:22:33:44:55"), Some(1122334455));
    assert_eq!(parse_bt_addr("00-11-22-33-44-55"), Some(1122334455));
}

#[test]
fn parse_bt_addr_of_eight_byte_text() {
    assert_eq!(parse_bt_addr("00-11-22-33-44-55-66-77"), Some(11223344556677));
}

#[test]
fn parse_bt_addr_refusals() {
    assert_eq!(parse_bt_addr("AB:0D:EF:12:34:56"), None);
    assert_eq!(parse_bt_addr("zz:11:22:33:44:55"), None);
    assert_eq!(parse_bt_addr("00:11:22"), None);
    assert_eq!(parse_bt_addr(""), None);
}
