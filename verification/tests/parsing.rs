use zkp_postcard::cli::parse_u32s;
use zkp_postcard::text::{parse_unsigned, ParseFailure};

fn std_u64(s: &str, radix: u32) -> Result<u64, String> {
    u64::from_str_radix(s, radix).map_err(|e| e.to_string())
}

#[test]
fn parse_matches_the_standard_parser() {
    let cases = [
        "", "0", "7", "+7", "-7", "+", "-", "++1", "42", "007", "18446744073709551615", "18446744073709551616",
        "99999999999999999999x", "12a", " 1", "1 ", "é", "+0", "ff", "FF", "0x10",
    ];
    for s in cases {
        for radix in [10u32, 16] {
            let ours = parse_unsigned(s, radix, u64::MAX).map_err(|e| e.message().to_string());
            assert_eq!(ours, std_u64(s, radix), "{:?} radix {}", s, radix);
        }
    }
}

#[test]
fn parse_respects_a_smaller_maximum() {
    assert_eq!(parse_unsigned("4294967295", 10, u32::MAX as u64), Ok(4294967295));
    assert_eq!(parse_unsigned("4294967296", 10, u32::MAX as u64), Err(ParseFailure::Overflow));
    assert_eq!(parse_unsigned("65536x", 10, 65535), Err(ParseFailure::Overflow), "overflow is seen before the bad digit");
    assert_eq!(parse_unsigned("x65536", 10, 65535), Err(ParseFailure::InvalidDigit));
    for s in ["0", "4294967295", "4294967296", "+12", "-1", "", "abc"] {
        let ours = parse_unsigned(s, 10, u32::MAX as u64).map(|v| v as u32).map_err(|e| e.message().to_string());
        assert_eq!(ours, s.parse::<u32>().map_err(|e| e.to_string()), "{:?}", s);
    }
}

#[test]
fn u32_arguments_parse_or_name_the_first_bad_one() {
    let args: Vec<String> = ["1", "+2", "4294967295"].iter().map(|s| s.to_string()).collect();
    assert_eq!(parse_u32s(&args), Ok(vec![1, 2, 4294967295]));
    let bad: Vec<String> = ["1", "x", "4294967296"].iter().map(|s| s.to_string()).collect();
    assert_eq!(parse_u32s(&bad).unwrap_err(), "not a u32: x");
    let big: Vec<String> = ["1", "4294967296", "x"].iter().map(|s| s.to_string()).collect();
    assert_eq!(parse_u32s(&big).unwrap_err(), "not a u32: 4294967296");
    assert_eq!(parse_u32s(&[]), Ok(vec![]));
}
