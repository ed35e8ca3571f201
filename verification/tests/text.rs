use llama_hud::text::{chars_of, parse_unsigned_chars, string_from_chars, u64_to_string};

#[test]
fn renders_numbers_in_base_ten() {
    assert_eq!(u64_to_string(0), "0");
    assert_eq!(u64_to_string(7), "7");
    assert_eq!(u64_to_string(1234567890), "1234567890");
    assert_eq!(u64_to_string(u64::MAX), u64::MAX.to_string());
}

#[test]
fn parses_unsigned_like_std() {
    for s in ["0", "42", "+42", "", "+", "-1", "4a", "18446744073709551615", "18446744073709551616", " 1"] {
        let cs = chars_of(s);
        assert_eq!(parse_unsigned_chars(&cs, 0, u64::MAX), s.parse::<u64>().ok(), "input {:?}", s);
    }
}

#[test]
fn parses_with_a_bound() {
    let cs = chars_of("300");
    assert_eq!(parse_unsigned_chars(&cs, 0, 255), None);
    assert_eq!(parse_unsigned_chars(&cs, 0, 300), Some(300));
}

#[test]
fn chars_round_trip() {
    let s = "héllo ×2";
    assert_eq!(string_from_chars(&chars_of(s)), s);
}
