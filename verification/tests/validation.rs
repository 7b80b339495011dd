use ogonek::models::users::SignUpPayload;
use ogonek::validation::{validate_length, validate_range};

fn signup_with_email(email: &str) -> SignUpPayload {
    SignUpPayload {
        name: "Anna".to_string(),
        email: email.to_string(),
        pass: "password".to_string(),
        username: "anna".to_string(),
        role: "student".to_string(),
    }
}

#[test]
fn email_rule() {
    assert!(signup_with_email("user@example.com").validate().is_ok());
    for bad in ["user.example.com", "", "a@"] {
        assert_eq!(signup_with_email(bad).validate().err().unwrap().fields, vec!["email"]);
    }
}

#[test]
fn length_rule_counts_characters() {
    assert!(validate_length(&"abc".to_string(), Some(3), None));
    assert!(!validate_length(&"ab".to_string(), Some(3), None));
    assert!(validate_length(&"ééé".to_string(), Some(3), Some(3)));
    assert!(!validate_length(&"abcd".to_string(), None, Some(3)));
    assert!(validate_length(&"".to_string(), None, None));
}

#[test]
fn range_rule() {
    assert!(validate_range(1, Some(1), Some(3)));
    assert!(validate_range(3, Some(1), Some(3)));
    assert!(!validate_range(0, Some(1), Some(3)));
    assert!(validate_range(i64::MAX, Some(0), None));
}
