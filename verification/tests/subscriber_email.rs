use zero2prod::domain::SubscriberEmail;

#[test]
fn empty_string_is_rejected() {
    let email = "".to_string();
    assert!(SubscriberEmail::parse(email).is_err());
}

#[test]
fn email_missing_at_symbol_is_rejected() {
    let email = "ursuladomain.com".to_string();
    assert!(SubscriberEmail::parse(email).is_err());
}

#[test]
fn email_missing_subject_is_rejected() {
    let email = "@domain.com".to_string();
    assert!(SubscriberEmail::parse(email).is_err());
}

#[test]
fn email_with_invalid_character_is_rejected() {
    let email = "hel<@domain.com".to_string();
    assert!(SubscriberEmail::parse(email).is_err());
}

#[test]
fn valid_emails_are_parsed_successfully() {
    for email in ["ursula@domain.com", "a.b-c@example.org", "x@[127.0.0.1]"] {
        let parsed = SubscriberEmail::parse(email.to_string());
        assert!(parsed.is_ok());
        assert_eq!(parsed.unwrap().as_ref(), email);
    }
}

#[test]
fn a_rejected_email_is_named_in_the_message() {
    let rejected = SubscriberEmail::parse("ursuladomain.com".to_string());
    assert_eq!(
        rejected.unwrap_err(),
        "ursuladomain.com is not a valid subscriber email."
    );
}
