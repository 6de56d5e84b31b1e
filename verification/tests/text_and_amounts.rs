use apraxus_node::amount::apxs;
use apraxus_node::text::{decimal_string, str_eq, to_hex_lower};

#[test]
fn apxs_whole_amounts_have_eight_zero_decimals() {
    assert_eq!(apxs(0), "0.00000000");
    assert_eq!(apxs(2_500_000_000), "25.00000000");
    assert_eq!(apxs(100_000_000_000_000_000), "1000000000.00000000");
}

#[test]
fn apxs_fractions_are_zero_padded() {
    assert_eq!(apxs(1), "0.00000001");
    assert_eq!(apxs(123_456_789), "1.23456789");
    assert_eq!(apxs(100_000), "0.00100000");
    assert_eq!(apxs(1_000_000_005), "10.00000005");
}

#[test]
fn apxs_of_largest_amount() {
    assert_eq!(apxs(u64::MAX), "184467440737.09551615");
}

#[test]
fn decimal_rendering() {
    assert_eq!(decimal_string(0), "0");
    assert_eq!(decimal_string(7), "7");
    assert_eq!(decimal_string(10), "10");
    assert_eq!(decimal_string(u64::MAX), u64::MAX.to_string());
    for n in [1u64, 9, 99, 100, 12345, 100_000, 1 << 40] {
        assert_eq!(decimal_string(n), n.to_string());
    }
}

#[test]
fn hex_rendering_is_lowercase_two_digits_per_byte() {
    assert_eq!(to_hex_lower(&[]), "");
    assert_eq!(to_hex_lower(&[0x00, 0x0f, 0xa0, 0xff]), "000fa0ff");
}

#[test]
fn string_slice_equality() {
    assert!(str_eq("abc", "abc"));
    assert!(!str_eq("abc", "abd"));
    assert!(!str_eq("abc", "ab"));
    assert!(str_eq("", ""));
    assert!(str_eq("é", "é"));
    assert!(!str_eq("é", "e"));
}
