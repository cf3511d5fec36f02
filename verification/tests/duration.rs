use room_light::duration::ParseError;
use room_light::duration::Seconds;

#[test]
fn new_keeps_values_under_the_ceiling() {
    assert_eq!(Seconds::new(0).value(), 0);
    assert_eq!(Seconds::new(1).value(), 1);
    assert_eq!(Seconds::new(150).value(), 150);
    assert_eq!(Seconds::new(300).value(), 300);
}

#[test]
fn new_clamps_values_over_the_ceiling() {
    assert_eq!(Seconds::new(301).value(), 300);
    assert_eq!(Seconds::new(9999).value(), 300);
    assert_eq!(Seconds::new(u64::MAX).value(), 300);
}

#[test]
fn from_str_accepts_plain_decimal_strings() {
    assert_eq!(Seconds::from_str("0".to_string()), Ok(Seconds::new(0)));
    assert_eq!(Seconds::from_str("45".to_string()), Ok(Seconds::new(45)));
    assert_eq!(Seconds::from_str("300".to_string()), Ok(Seconds::new(300)));
}

#[test]
fn from_str_clamps_large_values() {
    assert_eq!(Seconds::from_str("9999".to_string()), Ok(Seconds::new(300)));
    // far beyond the largest machine integer: still accepted and clamped
    let huge = "123456789012345678901234567890".to_string();
    assert_eq!(Seconds::from_str(huge), Ok(Seconds::new(300)));
}

#[test]
fn from_str_accepts_leading_zeros() {
    assert_eq!(Seconds::from_str("045".to_string()), Ok(Seconds::new(45)));
    assert_eq!(Seconds::from_str("000".to_string()), Ok(Seconds::new(0)));
}

#[test]
fn from_str_rejects_empty_input() {
    let r = Seconds::from_str(String::new());
    assert_eq!(r, Err(ParseError { text: String::new() }));
}

#[test]
fn from_str_rejects_negative_numbers() {
    let r = Seconds::from_str("-3".to_string());
    assert_eq!(r, Err(ParseError { text: "-3".to_string() }));
}

#[test]
fn from_str_rejects_extraneous_characters() {
    for text in ["45 seconds", " 45", "45 ", "4.5", "+5", "abc", "1e3", "4 5"] {
        let r = Seconds::from_str(text.to_string());
        assert_eq!(r, Err(ParseError { text: text.to_string() }));
    }
}
