use zkp_postcard::text::{decimal_string, hex8_string, with_number};

#[test]
fn decimal_rendering() {
    assert_eq!(decimal_string(0), "0");
    assert_eq!(decimal_string(7), "7");
    assert_eq!(decimal_string(2280), "2280");
    assert_eq!(decimal_string(u64::MAX), u64::MAX.to_string());
    assert_eq!(with_number("repid ", 42), "repid 42");
}

#[test]
fn fixed_width_hex_rendering() {
    assert_eq!(hex8_string(0), "0x00000000");
    assert_eq!(hex8_string(0x5e8a02f1), "0x5e8a02f1");
    assert_eq!(hex8_string(u32::MAX), "0xffffffff");
    assert_eq!(hex8_string(0xABC), "0x00000abc");
}
