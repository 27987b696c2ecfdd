use radar::city::parse_microdegrees;
use radar::city::City;
use radar::city::CityError;

fn angle(text: &str) -> Option<i32> {
    parse_microdegrees(&text.chars().collect())
}

#[test]
fn city_in_parentheses() {
    assert_eq!(
        City::parse("(Boston,42.3601,-71.0589)"),
        Ok(City { name: "Boston".to_string(), lat: 42_360_100, long: -71_058_900 })
    );
}

#[test]
fn city_from_str() {
    let city: City = "(New York,40.7128,-74.0060)".parse().unwrap();
    assert_eq!(city, City { name: "New York".to_string(), lat: 40_712_800, long: -74_006_000 });
    assert_eq!("(x,1)".parse::<City>(), Err(CityError::MissingField));
}

#[test]
fn parentheses_are_optional_and_may_repeat() {
    let expected = City { name: "A".to_string(), lat: 1_000_000, long: 2_000_000 };
    assert_eq!(City::parse("A,1,2"), Ok(City { name: "A".to_string(), lat: 1_000_000, long: 2_000_000 }));
    assert_eq!(City::parse("((A,1,2))"), Ok(City { name: "A".to_string(), lat: 1_000_000, long: 2_000_000 }));
    assert_eq!(City::parse(")A,1,2("), Ok(expected));
}

#[test]
fn parentheses_inside_are_kept() {
    assert_eq!(
        City::parse("(St (Paul),1,2)"),
        Ok(City { name: "St (Paul)".to_string(), lat: 1_000_000, long: 2_000_000 })
    );
    assert_eq!(City::parse("(A,(1),2)"), Err(CityError::InvalidLatitude));
}

#[test]
fn fields_after_the_third_are_ignored() {
    assert_eq!(
        City::parse("(A,1,2,rest,more)"),
        Ok(City { name: "A".to_string(), lat: 1_000_000, long: 2_000_000 })
    );
}

#[test]
fn name_may_be_empty_or_not_ascii() {
    assert_eq!(City::parse("(,1,2)"), Ok(City { name: String::new(), lat: 1_000_000, long: 2_000_000 }));
    assert_eq!(
        City::parse("(Z\u{fc}rich,47.3769,8.5417)"),
        Ok(City { name: "Z\u{fc}rich".to_string(), lat: 47_376_900, long: 8_541_700 })
    );
}

#[test]
fn fewer_than_three_fields() {
    assert_eq!(City::parse(""), Err(CityError::MissingField));
    assert_eq!(City::parse("()"), Err(CityError::MissingField));
    assert_eq!(City::parse("(Boston)"), Err(CityError::MissingField));
    assert_eq!(City::parse("(Boston,42.3)"), Err(CityError::MissingField));
}

#[test]
fn bad_latitude_and_longitude() {
    assert_eq!(City::parse("(A,north,2)"), Err(CityError::InvalidLatitude));
    assert_eq!(City::parse("(A,,2)"), Err(CityError::InvalidLatitude));
    assert_eq!(City::parse("(A, 1,2)"), Err(CityError::InvalidLatitude));
    assert_eq!(City::parse("(A,1,2 )"), Err(CityError::InvalidLongitude));
    assert_eq!(City::parse("(A,1,)"), Err(CityError::InvalidLongitude));
    assert_eq!(City::parse("(A,x,y)"), Err(CityError::InvalidLatitude));
    assert_eq!(City::parse("(A,1,3000)"), Err(CityError::InvalidLongitude));
}

#[test]
fn decimal_forms() {
    assert_eq!(angle("0"), Some(0));
    assert_eq!(angle("-0"), Some(0));
    assert_eq!(angle("7"), Some(7_000_000));
    assert_eq!(angle("+7"), Some(7_000_000));
    assert_eq!(angle("-7.5"), Some(-7_500_000));
    assert_eq!(angle("007.250"), Some(7_250_000));
    assert_eq!(angle("5."), Some(5_000_000));
    assert_eq!(angle(".5"), Some(500_000));
    assert_eq!(angle("-.000001"), Some(-1));
    assert_eq!(angle("1.000001"), Some(1_000_001));
}

#[test]
fn decimals_behind_the_sixth_are_dropped() {
    assert_eq!(angle("1.0000019"), Some(1_000_001));
    assert_eq!(angle("-1.99999999"), Some(-1_999_999));
    assert_eq!(angle("0.0000009"), Some(0));
}

#[test]
fn not_a_decimal() {
    assert_eq!(angle(""), None);
    assert_eq!(angle("-"), None);
    assert_eq!(angle("+"), None);
    assert_eq!(angle("."), None);
    assert_eq!(angle("-."), None);
    assert_eq!(angle("1.2.3"), None);
    assert_eq!(angle("--1"), None);
    assert_eq!(angle("nan"), None);
    assert_eq!(angle("1,5"), None);
    assert_eq!(angle("12a"), None);
    assert_eq!(angle("1.2x"), None);
    assert_eq!(angle("1.2345678x"), None);
    assert_eq!(angle(" 1"), None);
    assert_eq!(angle("inf"), None);
}

#[test]
fn angles_at_the_edge_of_the_range() {
    assert_eq!(angle("2147.483647"), Some(i32::MAX));
    assert_eq!(angle("2147.483648"), None);
    assert_eq!(angle("-2147.483648"), Some(i32::MIN));
    assert_eq!(angle("-2147.483649"), None);
    assert_eq!(angle("2148"), None);
    assert_eq!(angle("-2148"), None);
    assert_eq!(angle("99999999999999999999999999"), None);
    assert_eq!(angle("00000000000000000000000180"), Some(180_000_000));
}

#[test]
fn exponent_forms() {
    assert_eq!(angle("1e3"), Some(1_000_000_000));
    assert_eq!(angle("1E3"), Some(1_000_000_000));
    assert_eq!(angle("1e+2"), Some(100_000_000));
    assert_eq!(angle("1e0"), Some(1_000_000));
    assert_eq!(angle("1.5e-1"), Some(150_000));
    assert_eq!(angle("-4.07128e1"), Some(-40_712_800));
    assert_eq!(angle("+7.4E01"), Some(74_000_000));
    assert_eq!(angle("12.5e-3"), Some(12_500));
    assert_eq!(angle(".5e1"), Some(5_000_000));
    assert_eq!(angle("1.e2"), Some(100_000_000));
    assert_eq!(angle("0.0000000000001e13"), Some(1_000_000));
    assert_eq!(angle("1e-6"), Some(1));
    assert_eq!(angle("1e-7"), Some(0));
    assert_eq!(angle("19e-7"), Some(1));
    assert_eq!(angle("-19e-7"), Some(-1));
}

#[test]
fn exponent_at_the_edge_of_the_range() {
    assert_eq!(angle("2e3"), Some(2_000_000_000));
    assert_eq!(angle("2.147483647e3"), Some(i32::MAX));
    assert_eq!(angle("2.147483648e3"), None);
    assert_eq!(angle("-2.147483648e3"), Some(i32::MIN));
    assert_eq!(angle("-2.147483649e3"), None);
    assert_eq!(angle("3e3"), None);
    assert_eq!(angle("1e4"), None);
    assert_eq!(angle("1e10"), None);
    assert_eq!(angle("1e16"), None);
    assert_eq!(angle("1e17"), None);
    assert_eq!(angle("0.00000000001e14"), Some(1_000_000_000));
}

#[test]
fn very_large_and_very_small_exponents() {
    assert_eq!(angle("1e99999999999999999999999999999999"), None);
    assert_eq!(angle("0e99999999999999999999999999999999"), Some(0));
    assert_eq!(angle("0.000e99999999999999999999999999999999"), Some(0));
    assert_eq!(angle("-0e1180591620717411303424"), Some(0));
    assert_eq!(angle("5e1180591620717411303424"), None);
    assert_eq!(angle("5e-1180591620717411303424"), Some(0));
    assert_eq!(angle("1e-99999999999999999999999999999999"), Some(0));
    assert_eq!(angle("123456789e-99999999999999999999999999999999"), Some(0));
    assert_eq!(angle("1e1180591620717411303423"), None);
    assert_eq!(angle("1e-1180591620717411303423"), Some(0));
}

#[test]
fn not_an_exponent_form() {
    assert_eq!(angle("1e"), None);
    assert_eq!(angle("1e+"), None);
    assert_eq!(angle("1e-"), None);
    assert_eq!(angle("e5"), None);
    assert_eq!(angle(".e5"), None);
    assert_eq!(angle("-e5"), None);
    assert_eq!(angle("1e5.5"), None);
    assert_eq!(angle("1e5e5"), None);
    assert_eq!(angle("1e 5"), None);
    assert_eq!(angle("1e++5"), None);
    assert_eq!(angle("1x5"), None);
}

#[test]
fn city_with_exponent_forms() {
    assert_eq!(
        City::parse("(A,4.25e1,-7.1E+1)"),
        Ok(City { name: "A".to_string(), lat: 42_500_000, long: -71_000_000 })
    );
    assert_eq!(City::parse("(A,1e4,2)"), Err(CityError::InvalidLatitude));
    assert_eq!(City::parse("(A,1,2e)"), Err(CityError::InvalidLongitude));
}

#[test]
fn what_is_no_finite_decimal_is_refused() {
    assert_eq!(angle("inf"), None);
    assert_eq!(angle("-inf"), None);
    assert_eq!(angle("infinity"), None);
    assert_eq!(angle("NaN"), None);
}
