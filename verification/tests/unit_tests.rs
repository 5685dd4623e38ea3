use votodroid::decimal::format_hundredths;
use votodroid::graphql::{MutationRoot, QueryRoot};
use votodroid::ids::parse_id;
use votodroid::models::field_error::FieldError;

#[test]
fn api_version_is_reported() {
    assert_eq!(QueryRoot::api_version(), "1.0");
}

#[test]
fn roots_hand_out_the_resolver_groups() {
    let q = QueryRoot;
    let m = MutationRoot;
    let _ = q.users();
    let _ = q.questions();
    let _ = q.votes();
    let _ = m.users();
    let _ = m.questions();
    let _ = m.votes();
}

#[test]
fn field_error_keeps_field_and_message() {
    let e = FieldError::new("field".to_string(), "message".to_string());
    assert_eq!(e.field, "field");
    assert_eq!(e.message, "message");
}

#[test]
fn parse_id_accepts_plain_decimal_tokens() {
    assert_eq!(parse_id("0"), Some(0));
    assert_eq!(parse_id("1"), Some(1));
    assert_eq!(parse_id("007"), Some(7));
    assert_eq!(parse_id("18446744073709551615"), Some(u64::MAX));
}

#[test]
fn parse_id_rejects_everything_else() {
    assert_eq!(parse_id(""), None);
    assert_eq!(parse_id("12a3"), None);
    assert_eq!(parse_id("-4"), None);
    assert_eq!(parse_id(" 5"), None);
    assert_eq!(parse_id("18446744073709551616"), None);
    assert_eq!(parse_id("99999999999999999999999999"), None);
}

#[test]
fn format_hundredths_writes_two_decimal_places() {
    assert_eq!(format_hundredths(0), "0.00");
    assert_eq!(format_hundredths(7), "0.07");
    assert_eq!(format_hundredths(70), "0.70");
    assert_eq!(format_hundredths(150), "1.50");
    assert_eq!(format_hundredths(500), "5.00");
    assert_eq!(format_hundredths(999), "9.99");
}
