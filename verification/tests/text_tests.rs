use radar::text::format_address;
use radar::text::push_aligned;
use radar::text::push_decimal;
use radar::text::push_degrees;
use radar::text::push_fixed_decimal;
use radar::text::push_lower_hex;
use radar::text::push_signed;
use radar::text::push_trimmed_fraction;

#[test]
fn decimal_digits() {
    let mut s = String::from("n=");
    push_decimal(&mut s, 0);
    assert_eq!(s, "n=0");
    let mut s = String::new();
    push_decimal(&mut s, 10_000);
    assert_eq!(s, "10000");
    let mut s = String::new();
    push_decimal(&mut s, u64::MAX);
    assert_eq!(s, "18446744073709551615");
}

#[test]
fn lower_hex_digits() {
    let mut s = String::new();
    push_lower_hex(&mut s, 0);
    assert_eq!(s, "0");
    let mut s = String::new();
    push_lower_hex(&mut s, 0xABCDEF);
    assert_eq!(s, "abcdef");
    let mut s = String::new();
    push_lower_hex(&mut s, 0x10);
    assert_eq!(s, "10");
}

#[test]
fn fixed_width_decimal() {
    let mut s = String::new();
    push_fixed_decimal(&mut s, 42, 6);
    assert_eq!(s, "000042");
    let mut s = String::new();
    push_fixed_decimal(&mut s, 1_234_567, 3);
    assert_eq!(s, "567");
    let mut s = String::from("x");
    push_fixed_decimal(&mut s, 9, 0);
    assert_eq!(s, "x");
}

#[test]
fn signed_decimal_text() {
    let mut s = String::new();
    push_signed(&mut s, -64);
    assert_eq!(s, "-64");
    let mut s = String::new();
    push_signed(&mut s, 1_024);
    assert_eq!(s, "1024");
    let mut s = String::new();
    push_signed(&mut s, i64::MIN);
    assert_eq!(s, "-9223372036854775808");
    let mut s = String::new();
    push_signed(&mut s, 0);
    assert_eq!(s, "0");
}

fn degrees(micro: i32) -> String {
    let mut s = String::new();
    push_degrees(&mut s, micro);
    s
}

#[test]
fn whole_degrees_have_no_point() {
    assert_eq!(degrees(40_000_000), "40");
    assert_eq!(degrees(-74_000_000), "-74");
    assert_eq!(degrees(0), "0");
    assert_eq!(degrees(1_000_000), "1");
    assert_eq!(degrees(-2_147_000_000), "-2147");
}

#[test]
fn decimals_end_at_the_last_that_is_not_zero() {
    assert_eq!(degrees(40_700_000), "40.7");
    assert_eq!(degrees(40_712_800), "40.7128");
    assert_eq!(degrees(-500), "-0.0005");
    assert_eq!(degrees(1), "0.000001");
    assert_eq!(degrees(-1), "-0.000001");
    assert_eq!(degrees(100_000), "0.1");
    assert_eq!(degrees(10), "0.00001");
    assert_eq!(degrees(-71_058_900), "-71.0589");
    assert_eq!(degrees(1_000_001), "1.000001");
    assert_eq!(degrees(i32::MAX), "2147.483647");
    assert_eq!(degrees(i32::MIN), "-2147.483648");
}

#[test]
fn degrees_are_appended() {
    let mut s = String::from("(");
    push_degrees(&mut s, 39_500_000);
    assert_eq!(s, "(39.5");
}

#[test]
fn trimmed_fraction_digits() {
    let mut s = String::new();
    push_trimmed_fraction(&mut s, 500, 6);
    assert_eq!(s, "0005");
    let mut s = String::new();
    push_trimmed_fraction(&mut s, 0, 6);
    assert_eq!(s, "");
    let mut s = String::new();
    push_trimmed_fraction(&mut s, 123_456, 6);
    assert_eq!(s, "123456");
    let mut s = String::from("x");
    push_trimmed_fraction(&mut s, 7, 0);
    assert_eq!(s, "x");
}

#[test]
fn right_alignment() {
    let mut s = String::new();
    push_aligned(&mut s, "350", 8, ' ');
    assert_eq!(s, "     350");
    let mut s = String::new();
    push_aligned(&mut s, "123456789", 8, ' ');
    assert_eq!(s, "123456789");
    let mut s = String::new();
    push_aligned(&mut s, "", 3, '.');
    assert_eq!(s, "...");
    let mut s = String::from("[");
    push_aligned(&mut s, "ab", 2, ' ');
    assert_eq!(s, "[ab");
}

#[test]
fn address_text_has_six_hex_digits() {
    assert_eq!(format_address(0x4840D6), "4840d6");
    assert_eq!(format_address(0x00000A), "00000a");
    assert_eq!(format_address(0), "000000");
    assert_eq!(format_address(0x1234567), "1234567");
}
