use good_days_to_bike::wind::{parse_wind_speed, WIND_UNKNOWN};

#[test]
fn plain_speed() {
    assert_eq!(parse_wind_speed("12 mph"), 12);
}

#[test]
fn range_gives_first_number() {
    assert_eq!(parse_wind_speed("10 to 15 mph"), 10);
}

#[test]
fn empty_text_is_unknown() {
    assert_eq!(parse_wind_speed(""), 255);
    assert_eq!(WIND_UNKNOWN, 255);
}

#[test]
fn word_is_unknown() {
    assert_eq!(parse_wind_speed("calm"), 255);
}

#[test]
fn overflow_is_unknown() {
    assert_eq!(parse_wind_speed("300 mph"), 255);
    assert_eq!(parse_wind_speed("256 mph"), 255);
}

#[test]
fn largest_speed_and_zero() {
    assert_eq!(parse_wind_speed("254 mph"), 254);
    assert_eq!(parse_wind_speed("0 mph"), 0);
    assert_eq!(parse_wind_speed("007 mph"), 7);
}

#[test]
fn plus_sign_and_bare_number() {
    assert_eq!(parse_wind_speed("+5 mph"), 5);
    assert_eq!(parse_wind_speed("+ mph"), 255);
    assert_eq!(parse_wind_speed("9"), 9);
}

#[test]
fn sign_or_glued_unit_is_unknown() {
    assert_eq!(parse_wind_speed("-3 mph"), 255);
    assert_eq!(parse_wind_speed("12mph"), 255);
}

#[test]
fn any_whitespace_delimits_the_token() {
    assert_eq!(parse_wind_speed(" 12 mph"), 12);
    assert_eq!(parse_wind_speed("12\tmph"), 12);
    assert_eq!(parse_wind_speed("\n\t 8\nmph"), 8);
    assert_eq!(parse_wind_speed("\u{a0}7\u{3000}mph"), 7);
}

#[test]
fn only_whitespace_is_unknown() {
    assert_eq!(parse_wind_speed("   "), 255);
}
