use zero2prod::domain::SubscriberEmail;
use zero2prod::email_client::delivery_result;
use zero2prod::email_client::EmailClient;
use zero2prod::email_client::SendError;
use zero2prod::email_client::TOKEN_HEADER;
use zero2prod::utils::error_chain_fmt;
use zero2prod::utils::see_other;

#[test]
fn a_redirect_has_status_303_and_the_location() {
    let response = see_other("/admin/newsletters");
    assert_eq!(response.status_code(), 303);
    assert_eq!(response.headers().len(), 1);
    assert_eq!(response.headers()[0].name, "location");
    assert_eq!(response.headers()[0].value, b"/admin/newsletters");
    assert_eq!(response.body(), b"");
    let response = see_other("/caf\u{e9}");
    assert_eq!(response.headers()[0].value, "/caf\u{e9}".as_bytes());
}

#[test]
fn an_error_without_causes_is_written_with_an_empty_line() {
    assert_eq!(error_chain_fmt("Something went wrong", &vec![]), "Something went wrong\n\n");
}

#[test]
fn an_error_is_written_with_the_chain_of_its_causes() {
    assert_eq!(
        error_chain_fmt(
            "Failed to store the confirmation token for a new subscriber.",
            &vec![
                "A database error occurred while trying to store a subscription token"
                    .to_string(),
                "connection refused".to_string()
            ]
        ),
        "Failed to store the confirmation token for a new subscriber.\n\nCaused by:\n\tA database error occurred while trying to store a subscription token\nCaused by:\n\tconnection refused\n"
    );
}

#[test]
fn an_email_is_posted_to_the_mail_service() {
    let client = EmailClient::new(
        "http://mail.example.com".to_string(),
        SubscriberEmail::parse("sender@example.com".to_string()).unwrap(),
        "secret-token".to_string(),
        10000,
    );
    let recipient = SubscriberEmail::parse("ann@example.com".to_string()).unwrap();
    let request = client.send_email_request(&recipient, "Subject", "<p>Html</p>", "Text");
    assert_eq!(request.url, "http://mail.example.com/email");
    assert_eq!(request.token, "secret-token");
    assert_eq!(request.timeout_milliseconds, 10000);
    assert_eq!(request.body.from, "sender@example.com");
    assert_eq!(request.body.to, "ann@example.com");
    assert_eq!(request.body.subject, "Subject");
    assert_eq!(request.body.html_body, "<p>Html</p>");
    assert_eq!(request.body.text_body, "Text");
    assert_eq!(TOKEN_HEADER, "X-Postmark-Server-Token");
}

#[test]
fn a_delivery_succeeds_unless_the_status_is_a_client_or_server_error() {
    for status in [200u16, 201, 204, 302, 399, 600, 999] {
        assert_eq!(delivery_result(Some(status)), Ok(()));
    }
    for status in [400u16, 404, 499, 500, 503, 599] {
        assert_eq!(delivery_result(Some(status)), Err(SendError::Status(status)));
    }
}

#[test]
fn a_delivery_without_an_answer_fails() {
    assert_eq!(delivery_result(None), Err(SendError::Transport));
}
