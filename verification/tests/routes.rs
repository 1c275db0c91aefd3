use zero2prod::authentication::basic::BasicAuthError;
use zero2prod::authentication::password::compute_password_hash;
use zero2prod::authentication::password::AuthFault;
use zero2prod::authentication::password::CredentialsFault;
use zero2prod::authentication::password::StoredCredentials;
use zero2prod::authentication::AuthError;
use zero2prod::domain::SubscriberEmail;
use zero2prod::idempotency::persistence::IdempotencyError;
use zero2prod::idempotency::persistence::Response;
use zero2prod::idempotency::KeyError;
use zero2prod::routes::admin::password::change_password;
use zero2prod::routes::admin::password::check_new_password;
use zero2prod::routes::admin::password::PasswordChange;
use zero2prod::routes::admin::password::PasswordRejection;
use zero2prod::routes::login::login;
use zero2prod::routes::login::login_failure_redirect;
use zero2prod::routes::login::session_started;
use zero2prod::routes::login::LoginError;
use zero2prod::routes::login::LoginFault;
use zero2prod::authentication::basic::AuthorizationHeader;
use zero2prod::authentication::Credentials;
use zero2prod::routes::newsletters::get_confirmed_subscribers;
use zero2prod::routes::newsletters::sender;
use zero2prod::routes::newsletters::sender_credentials;
use zero2prod::routes::newsletters::AuthRejection;
use zero2prod::routes::newsletters::BodyData;
use zero2prod::routes::newsletters::Content;
use zero2prod::routes::newsletters::PublishError;
use zero2prod::routes::newsletters::PublishFault;
use zero2prod::routes::subscriptions::confirmation_email;
use zero2prod::routes::subscriptions::generate_subscription_token;
use zero2prod::routes::subscriptions::subscriber_email;
use zero2prod::routes::subscriptions::StoreTokenError;
use zero2prod::routes::subscriptions::SubscribeError;
use zero2prod::routes::subscriptions::SubscribeFault;
use zero2prod::routes::subscriptions_confirm::confirm;
use zero2prod::routes::subscriptions_confirm::subscriber_to_confirm;
use zero2prod::routes::subscriptions_confirm::ConfirmFault;
use zero2prod::routes::subscriptions_confirm::ConfirmSubscriberError;
use zero2prod::routes::subscriptions_confirm::Params;
use zero2prod::routes::subscriptions_confirm::TokenLookup;

fn parts(response: &Response) -> (u16, Vec<(String, Vec<u8>)>, Vec<u8>) {
    (
        response.status_code(),
        response
            .headers()
            .iter()
            .map(|h| (h.name.clone(), h.value.clone()))
            .collect(),
        response.body().clone(),
    )
}

fn redirect(location: &str) -> (u16, Vec<(String, Vec<u8>)>, Vec<u8>) {
    (
        303,
        vec![("location".to_string(), location.as_bytes().to_vec())],
        vec![],
    )
}

fn password_form(old: &str, new: &str, confirm: &str) -> zero2prod::routes::admin::password::FormData {
    zero2prod::routes::admin::password::FormData {
        old_password: old.to_string(),
        new_password: new.to_string(),
        new_password_confirm: confirm.to_string(),
    }
}

fn login_form(password: &str) -> zero2prod::routes::login::FormData {
    zero2prod::routes::login::FormData {
        username: "admin".to_string(),
        password: password.to_string(),
    }
}

fn stored(password: &str) -> StoredCredentials {
    StoredCredentials {
        user_id: 42,
        password_hash: compute_password_hash(password).unwrap(),
    }
}

#[test]
fn new_passwords_must_match() {
    let form = password_form("old", "a-long-new-password", "another-long-password");
    assert_eq!(check_new_password(&form), Err(PasswordRejection::Mismatch));
    assert_eq!(
        PasswordRejection::Mismatch.message(),
        "You entered two different new passwords - the field values must match."
    );
}

#[test]
fn new_password_must_be_longer_than_12_characters() {
    let twelve = "a".repeat(12);
    assert_eq!(
        check_new_password(&password_form("old", &twelve, &twelve)),
        Err(PasswordRejection::Length)
    );
    assert_eq!(
        check_new_password(&password_form("old", "tooshort", "tooshort")),
        Err(PasswordRejection::Length)
    );
    let thirteen = "a".repeat(13);
    assert_eq!(check_new_password(&password_form("old", &thirteen, &thirteen)), Ok(()));
    assert_eq!(
        PasswordRejection::Length.message(),
        "New password must be longer than 12 characters and shorter than 129 characters"
    );
}

#[test]
fn new_password_must_be_shorter_than_129_characters() {
    let long = "a".repeat(129);
    assert_eq!(
        check_new_password(&password_form("old", &long, &long)),
        Err(PasswordRejection::Length)
    );
    let longest = "a".repeat(128);
    assert_eq!(check_new_password(&password_form("old", &longest, &longest)), Ok(()));
}

#[test]
fn the_length_of_a_new_password_is_counted_in_bytes_and_judged_first() {
    let seven = "\u{e9}".repeat(7);
    assert_eq!(check_new_password(&password_form("old", &seven, &seven)), Ok(()));
    let six = "\u{e9}".repeat(6);
    assert_eq!(
        check_new_password(&password_form("old", &six, "something else")),
        Err(PasswordRejection::Length)
    );
}

#[test]
fn current_password_must_be_valid() {
    let outcome = change_password(
        password_form("random-old-password", "a-long-new-password", "a-long-new-password"),
        "admin".to_string(),
        Some(stored("the-old-password")),
    );
    assert!(matches!(
        outcome,
        PasswordChange::Rejected(PasswordRejection::WrongCurrentPassword)
    ));
    assert_eq!(
        PasswordRejection::WrongCurrentPassword.message(),
        "The current password is incorrect"
    );
}

#[test]
fn a_password_change_without_a_stored_user_is_rejected() {
    let outcome = change_password(
        password_form("the-old-password", "a-long-new-password", "a-long-new-password"),
        "admin".to_string(),
        None,
    );
    assert!(matches!(
        outcome,
        PasswordChange::Rejected(PasswordRejection::WrongCurrentPassword)
    ));
}

#[test]
fn a_password_change_with_a_malformed_stored_hash_fails() {
    let outcome = change_password(
        password_form("the-old-password", "a-long-new-password", "a-long-new-password"),
        "admin".to_string(),
        Some(StoredCredentials {
            user_id: 42,
            password_hash: "plain".to_string(),
        }),
    );
    assert!(matches!(outcome, PasswordChange::Failed(AuthFault::MalformedHash)));
}

#[test]
fn a_new_password_is_judged_before_the_current_one() {
    let outcome = change_password(
        password_form("random-old-password", "short", "short"),
        "admin".to_string(),
        Some(stored("the-old-password")),
    );
    assert!(matches!(outcome, PasswordChange::Rejected(PasswordRejection::Length)));
}

#[test]
fn an_accepted_password_change_gives_the_hash_of_the_new_password() {
    let outcome = change_password(
        password_form("the-old-password", "a-long-new-password", "a-long-new-password"),
        "admin".to_string(),
        Some(stored("the-old-password")),
    );
    match outcome {
        PasswordChange::Accepted {
            user_id,
            password_hash,
        } => {
            assert_eq!(user_id, 42);
            assert_eq!(
                zero2prod::authentication::password::verify_password_hash(
                    &password_hash,
                    "a-long-new-password"
                ),
                Ok(())
            );
        }
        other => panic!("unexpected outcome {:?}", other),
    }
}

#[test]
fn a_login_with_valid_credentials_gives_the_user() {
    assert_eq!(
        login(login_form("the-password"), Some(stored("the-password"))).unwrap(),
        42
    );
    let response = session_started(true).unwrap();
    assert_eq!(parts(&response), redirect("/admin/dashboard"));
}

#[test]
fn a_login_with_a_wrong_password_is_sent_back_to_the_form() {
    let failure = login(login_form("random-password"), Some(stored("the-password"))).unwrap_err();
    assert_eq!(
        failure.error,
        LoginError::AuthError(CredentialsFault::InvalidPassword)
    );
    assert_eq!(failure.flash_message, "Authentication failed");
    assert_eq!(parts(&failure.response), redirect("/login"));
}

#[test]
fn a_login_of_an_unknown_user_is_sent_back_to_the_form() {
    let failure = login(login_form("random-password"), None).unwrap_err();
    assert!(matches!(failure.error, LoginError::AuthError(_)));
    assert_eq!(failure.flash_message, "Authentication failed");
    assert_eq!(parts(&failure.response), redirect("/login"));
}

#[test]
fn a_login_that_cannot_be_checked_went_wrong() {
    let failure = login(
        login_form("the-password"),
        Some(StoredCredentials {
            user_id: 42,
            password_hash: "plain".to_string(),
        }),
    )
    .unwrap_err();
    assert_eq!(
        failure.error,
        LoginError::UnexpectedError(LoginFault::Authentication(AuthFault::MalformedHash))
    );
    assert_eq!(failure.flash_message, "Something went wrong");
    assert_eq!(parts(&failure.response), redirect("/login"));
}

#[test]
fn a_session_that_cannot_be_started_sends_back_to_the_form() {
    let failure = session_started(false).unwrap_err();
    assert_eq!(failure.error, LoginError::UnexpectedError(LoginFault::Session));
    assert_eq!(failure.flash_message, "Something went wrong");
    assert_eq!(parts(&failure.response), redirect("/login"));
    let same = login_failure_redirect(LoginError::UnexpectedError(LoginFault::Session));
    assert_eq!(same.flash_message, failure.flash_message);
    assert_eq!(
        LoginError::AuthError(CredentialsFault::UnknownUsername).message(),
        "Authentication failed"
    );
}

#[test]
fn a_subscription_token_has_25_letters_and_digits() {
    let token = generate_subscription_token();
    assert_eq!(token.chars().count(), 25);
    assert!(token.chars().all(|c| c.is_ascii_alphanumeric()));
    assert_ne!(generate_subscription_token(), token);
}

#[test]
fn the_confirmation_email_carries_the_link() {
    let recipient = SubscriberEmail::parse("bryan@gmail.com".to_string()).unwrap();
    let email = confirmation_email(&recipient, "http://127.0.0.1", "tok123");
    assert_eq!(email.recipient, "bryan@gmail.com");
    assert_eq!(email.subject, "Welcome!");
    assert_eq!(
        email.html_content,
        "Welcome to our newsletter!<br/>Click <a href=\"http://127.0.0.1/subscriptions/confirm?subscription_token=tok123\">here</a> to confirm your subscription."
    );
    assert_eq!(
        email.text_content,
        "Welcome to our newsletter!\nVisit http://127.0.0.1/subscriptions/confirm?subscription_token=tok123 to confirm your subscription."
    );
}

#[test]
fn the_address_of_a_subscription_is_validated() {
    let form = zero2prod::routes::subscriptions::FormData {
        email: "bryan@gmail.com".to_string(),
        name: "bryan".to_string(),
    };
    assert_eq!(subscriber_email(&form).unwrap().as_ref(), "bryan@gmail.com");
    let form = zero2prod::routes::subscriptions::FormData {
        email: "brya<n@gmail.com".to_string(),
        name: "bryan".to_string(),
    };
    let error = subscriber_email(&form).unwrap_err();
    assert_eq!(error.status_code(), 400);
    assert_eq!(error.message(), "brya<n@gmail.com is not a valid subscriber email.");
    assert!(matches!(error, SubscribeError::ValidationError(_)));
}

#[test]
fn the_failures_of_subscribing_are_answered_with_500() {
    for (fault, message) in [
        (
            SubscribeFault::AcquireConnection,
            "Failed to acquire a Postgres connection from the pool",
        ),
        (
            SubscribeFault::InsertSubscriber,
            "Failed to insert new subscriber in the database.",
        ),
        (
            SubscribeFault::StoreToken,
            "Failed to store the confirmation token for a new subscriber.",
        ),
        (
            SubscribeFault::Commit,
            "Failed to commit SQL transaction to store a new subscriber.",
        ),
        (SubscribeFault::SendEmail, "Failed to send a confirmation email."),
    ] {
        let error = SubscribeError::UnexpectedError(fault);
        assert_eq!(error.status_code(), 500);
        assert_eq!(error.message(), message);
        assert_eq!(fault.message(), message);
    }
    assert_eq!(
        StoreTokenError.message(),
        "A database error occurred while trying to store a subscription token"
    );
}

#[test]
fn a_confirmation_finds_its_subscriber_or_fails() {
    let params = Params {
        subscription_token: "tok123".to_string(),
    };
    assert_eq!(params.subscription_token, "tok123");
    assert_eq!(subscriber_to_confirm(TokenLookup::Found(9)), Ok(9));
    let unknown = subscriber_to_confirm(TokenLookup::Unknown).unwrap_err();
    assert_eq!(unknown, ConfirmSubscriberError::UnauthorizedError);
    assert_eq!(unknown.status_code(), 401);
    assert_eq!(
        unknown.message(),
        "There is no subscriber associated with the provided token."
    );
    let failed = subscriber_to_confirm(TokenLookup::Failed).unwrap_err();
    assert_eq!(
        failed,
        ConfirmSubscriberError::UnexpectedError(ConfirmFault::FindSubscriber)
    );
    assert_eq!(failed.status_code(), 500);
    assert_eq!(
        failed.message(),
        "Failed to retrieve the subscriber id associated with the provided token."
    );
    assert_eq!(confirm(true), Ok(200));
    let unconfirmed = confirm(false).unwrap_err();
    assert_eq!(
        unconfirmed,
        ConfirmSubscriberError::UnexpectedError(ConfirmFault::ConfirmSubscriber)
    );
    assert_eq!(unconfirmed.status_code(), 500);
    assert_eq!(unconfirmed.message(), "Failed to confirm new subscriber");
}

#[test]
fn a_malformed_key_is_answered_with_400_and_the_reason() {
    let error = PublishError::ValidationError(KeyError::Empty);
    assert_eq!(error.status_code(), 400);
    assert_eq!(
        parts(&error.error_response()),
        (400, vec![], b"The idempotency key cannot be empty".to_vec())
    );
}

#[test]
fn an_unknown_sender_is_answered_with_401_and_a_challenge() {
    for error in [
        PublishError::AuthError(AuthRejection::Header(BasicAuthError::MissingHeader)),
        PublishError::AuthError(AuthRejection::Credentials(CredentialsFault::InvalidPassword)),
    ] {
        assert_eq!(error.status_code(), 401);
        assert_eq!(
            parts(&error.error_response()),
            (
                401,
                vec![(
                    "www-authenticate".to_string(),
                    b"Basic realm=\"publish\"".to_vec()
                )],
                vec![]
            )
        );
    }
}

#[test]
fn an_unexpected_failure_is_answered_with_500() {
    for error in [
        PublishError::UnexpectedError(PublishFault::Storage),
        PublishError::UnexpectedError(PublishFault::Idempotency(
            IdempotencyError::MissingSavedResponse,
        )),
        PublishError::UnexpectedError(PublishFault::Authentication(AuthFault::MalformedHash)),
    ] {
        assert_eq!(error.status_code(), 500);
        assert_eq!(parts(&error.error_response()), (500, vec![], vec![]));
    }
}

#[test]
fn a_failure_to_authenticate_becomes_a_failure_to_publish() {
    assert_eq!(
        PublishError::from_auth_error(AuthError::InvalidCredentials(
            CredentialsFault::UnknownUsername
        )),
        PublishError::AuthError(AuthRejection::Credentials(CredentialsFault::UnknownUsername))
    );
    assert_eq!(
        PublishError::from_auth_error(AuthError::UnexpectedError(AuthFault::MalformedHash)),
        PublishError::UnexpectedError(PublishFault::Authentication(AuthFault::MalformedHash))
    );
}

#[test]
fn a_json_body_becomes_the_fields_of_a_publish_request() {
    let body = BodyData {
        title: "Newsletter title".to_string(),
        content: Content {
            html: "<p>Newsletter body as HTML</p>".to_string(),
            text: "Newsletter body as plain text".to_string(),
        },
    };
    let form = body.into_form("abc123".to_string());
    assert_eq!(form.title, "Newsletter title");
    assert_eq!(form.html_content, "<p>Newsletter body as HTML</p>");
    assert_eq!(form.text_content, "Newsletter body as plain text");
    assert_eq!(form.idempotency_key, "abc123");
}

#[test]
fn stored_addresses_become_subscribers_or_rejections_in_order() {
    let read = get_confirmed_subscribers(vec![
        "ann@example.com".to_string(),
        "not-an-address".to_string(),
        "bob@example.com".to_string(),
    ]);
    assert_eq!(read.len(), 3);
    assert_eq!(read[0].as_ref().unwrap().email.as_ref(), "ann@example.com");
    assert_eq!(
        read[1].as_ref().unwrap_err(),
        "not-an-address is not a valid subscriber email."
    );
    assert_eq!(read[2].as_ref().unwrap().email.as_ref(), "bob@example.com");
    assert!(get_confirmed_subscribers(vec![]).is_empty());
}

#[test]
fn the_sender_of_a_publish_request_is_read_from_the_header() {
    let credentials =
        sender_credentials(AuthorizationHeader::Text("Basic dXNlcjpwYXNz".to_string())).unwrap();
    assert_eq!(credentials.username, "user");
    assert_eq!(credentials.password, "pass");
    assert_eq!(
        sender_credentials(AuthorizationHeader::Missing).unwrap_err(),
        PublishError::AuthError(AuthRejection::Header(BasicAuthError::MissingHeader))
    );
    assert_eq!(
        sender_credentials(AuthorizationHeader::Text("Bearer abc".to_string())).unwrap_err(),
        PublishError::AuthError(AuthRejection::Header(BasicAuthError::NotBasicScheme))
    );
}

#[test]
fn the_sender_of_a_publish_request_must_be_a_user() {
    let credentials = |password: &str| Credentials {
        username: "admin".to_string(),
        password: password.to_string(),
    };
    assert_eq!(sender(credentials("the-password"), Some(stored("the-password"))), Ok(42));
    assert_eq!(
        sender(credentials("random-password"), Some(stored("the-password"))),
        Err(PublishError::AuthError(AuthRejection::Credentials(
            CredentialsFault::InvalidPassword
        )))
    );
    assert!(matches!(
        sender(credentials("the-password"), None),
        Err(PublishError::AuthError(AuthRejection::Credentials(_)))
    ));
    assert_eq!(
        sender(
            credentials("the-password"),
            Some(StoredCredentials {
                user_id: 42,
                password_hash: "plain".to_string()
            })
        ),
        Err(PublishError::UnexpectedError(PublishFault::Authentication(
            AuthFault::MalformedHash
        )))
    );
}
