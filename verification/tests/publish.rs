use zero2prod::email_client::Outbox;
use zero2prod::idempotency::persistence::save_response;
use zero2prod::idempotency::persistence::try_processing;
use zero2prod::idempotency::persistence::IdempotencyError;
use zero2prod::idempotency::persistence::IdempotencyRecord;
use zero2prod::idempotency::persistence::NextAction;
use zero2prod::idempotency::persistence::Response;
use zero2prod::idempotency::persistence::SavedResponse;
use zero2prod::idempotency::IdempotencyKey;
use zero2prod::idempotency::KeyError;
use zero2prod::issue_delivery_worker::try_execute_task;
use zero2prod::issue_delivery_worker::ExecutionOutcome;
use zero2prod::routes::admin::newsletters::publish_issue;
use zero2prod::routes::admin::newsletters::publish_newsletter;
use zero2prod::routes::admin::newsletters::FormData;
use zero2prod::routes::admin::newsletters::PublishAction;
use zero2prod::routes::admin::newsletters::PublishEvent;
use zero2prod::routes::admin::newsletters::PublishState;
use zero2prod::routes::newsletters::PublishError;
use zero2prod::routes::newsletters::PublishFault;
use zero2prod::store::NewsletterIssue;
use zero2prod::store::Store;
use zero2prod::utils::see_other;

fn form(title: &str, html: &str, text: &str, key: &str) -> FormData {
    FormData {
        title: title.to_string(),
        html_content: html.to_string(),
        text_content: text.to_string(),
        idempotency_key: key.to_string(),
    }
}

fn subscribers() -> Vec<String> {
    vec![
        "ann@example.com".to_string(),
        "bob@example.com".to_string(),
        "cy@example.com".to_string(),
    ]
}

fn parts(response: &Response) -> (u16, Vec<(String, Vec<u8>)>, Vec<u8>) {
    (
        response.status_code(),
        response
            .headers()
            .iter()
            .map(|h| (h.name.clone(), h.value.clone()))
            .collect(),
        response.body().clone(),
    )
}

fn accepted() -> (u16, Vec<(String, Vec<u8>)>, Vec<u8>) {
    (
        303,
        vec![("location".to_string(), b"/admin/newsletters".to_vec())],
        vec![],
    )
}

fn drain(store: &mut Store, worker: u64, outbox: &mut Outbox) -> usize {
    let mut completed = 0;
    while try_execute_task(store, worker, outbox).unwrap() == ExecutionOutcome::TaskCompleted {
        completed += 1;
    }
    completed
}

#[test]
fn publishing_queues_one_task_per_subscriber_and_a_retry_sends_nothing_more() {
    let mut store = Store::new();
    let first = publish_issue(
        &mut store,
        form("T", "<p>H</p>", "T", "abc123"),
        1,
        subscribers(),
        100,
        77,
    )
    .unwrap();
    assert_eq!(parts(&first), accepted());
    assert_eq!(store.queue_len(), 3);
    assert_eq!(store.issue_count(), 1);
    for address in subscribers() {
        assert!(store.is_queued(77, &address));
    }

    let mut outbox = Outbox::new(vec![]);
    assert_eq!(drain(&mut store, 1, &mut outbox), 3);
    assert_eq!(outbox.len(), 3);
    let mut recipients = Vec::new();
    for i in 0..3 {
        let email = outbox.get(i).unwrap();
        assert_eq!(email.subject, "T");
        assert_eq!(email.html_content, "<p>H</p>");
        assert_eq!(email.text_content, "T");
        recipients.push(email.recipient.clone());
    }
    recipients.sort();
    assert_eq!(recipients, subscribers());
    assert_eq!(store.queue_len(), 0);

    let second = publish_issue(
        &mut store,
        form("T", "<p>H</p>", "T", "abc123"),
        1,
        subscribers(),
        200,
        78,
    )
    .unwrap();
    assert_eq!(parts(&second), parts(&first));
    assert_eq!(store.queue_len(), 0);
    assert_eq!(store.issue_count(), 1);
    assert_eq!(drain(&mut store, 1, &mut outbox), 0);
    assert_eq!(outbox.len(), 3);
}

#[test]
fn a_retry_with_another_payload_gets_the_first_response_and_writes_nothing() {
    let mut store = Store::new();
    let first = publish_issue(
        &mut store,
        form("T", "<p>H</p>", "T", "abc123"),
        1,
        subscribers(),
        100,
        77,
    )
    .unwrap();
    let second = publish_issue(
        &mut store,
        form("Other", "<p>Other</p>", "Other", "abc123"),
        1,
        vec!["dee@example.com".to_string()],
        200,
        78,
    )
    .unwrap();
    assert_eq!(parts(&second), parts(&first));
    assert_eq!(store.issue_count(), 1);
    assert_eq!(store.queue_len(), 3);
    assert!(store.get_issue(78).is_none());
    assert_eq!(store.get_issue(77).unwrap().title, "T");
    assert!(!store.is_queued(78, &"dee@example.com".to_string()));
}

#[test]
fn another_key_publishes_another_issue() {
    let mut store = Store::new();
    publish_issue(&mut store, form("T", "h", "t", "abc123"), 1, subscribers(), 1, 77).unwrap();
    publish_issue(&mut store, form("U", "h", "t", "abc124"), 1, subscribers(), 2, 78).unwrap();
    assert_eq!(store.issue_count(), 2);
    assert_eq!(store.queue_len(), 6);
}

#[test]
fn the_same_key_of_another_user_publishes_another_issue() {
    let mut store = Store::new();
    publish_issue(&mut store, form("T", "h", "t", "abc123"), 1, subscribers(), 1, 77).unwrap();
    publish_issue(&mut store, form("U", "h", "t", "abc123"), 2, subscribers(), 2, 78).unwrap();
    assert_eq!(store.issue_count(), 2);
    assert_eq!(store.queue_len(), 6);
}

#[test]
fn publishing_without_subscribers_queues_nothing() {
    let mut store = Store::new();
    let response =
        publish_issue(&mut store, form("T", "h", "t", "abc123"), 1, vec![], 1, 77).unwrap();
    assert_eq!(parts(&response), accepted());
    assert_eq!(store.issue_count(), 1);
    assert_eq!(store.queue_len(), 0);
}

#[test]
fn a_malformed_key_is_rejected_before_the_store_is_touched() {
    let mut store = Store::new();
    for (key, reason) in [
        ("", KeyError::Empty),
        ("not a key", KeyError::InvalidCharacter),
        (
            "kkkkkkkkkkkkkkkkkkkkkkkkkkkkkkkkkkkkkkkkkkkkkkkkkkk",
            KeyError::TooLong,
        ),
    ] {
        let error =
            publish_issue(&mut store, form("T", "h", "t", key), 1, subscribers(), 1, 77)
                .unwrap_err();
        assert_eq!(error, PublishError::ValidationError(reason));
        assert_eq!(error.status_code(), 400);
    }
    assert_eq!(store.issue_count(), 0);
    assert_eq!(store.queue_len(), 0);
    assert!(store.find_record(1, &"not a key".to_string()).is_none());
    assert!(store.find_record(1, &"".to_string()).is_none());
}

#[test]
fn a_used_issue_identifier_fails_the_request_and_leaves_the_key_free() {
    let mut store = Store::new();
    publish_issue(&mut store, form("T", "h", "t", "first"), 1, subscribers(), 1, 77).unwrap();
    let error =
        publish_issue(&mut store, form("U", "h", "t", "second"), 1, subscribers(), 2, 77)
            .unwrap_err();
    assert_eq!(error, PublishError::UnexpectedError(PublishFault::Storage));
    assert_eq!(error.status_code(), 500);
    assert!(store.find_record(1, &"second".to_string()).is_none());
    assert_eq!(store.issue_count(), 1);
    assert_eq!(store.queue_len(), 3);
    let retried =
        publish_issue(&mut store, form("U", "h", "t", "second"), 1, subscribers(), 3, 78)
            .unwrap();
    assert_eq!(parts(&retried), accepted());
    assert_eq!(store.issue_count(), 2);
}

#[test]
fn a_key_that_is_claimed_and_not_completed_fails_the_request() {
    let mut store = Store::new();
    let key = IdempotencyKey::parse("abc123".to_string()).unwrap();
    let held = match try_processing(&mut store, &key, 1, 5).unwrap() {
        NextAction::StartProcessing(transaction) => transaction,
        NextAction::ReturnSavedResponse(_) => panic!("the key was free"),
    };
    let error =
        publish_issue(&mut store, form("T", "h", "t", "abc123"), 1, subscribers(), 6, 77)
            .unwrap_err();
    assert_eq!(
        error,
        PublishError::UnexpectedError(PublishFault::Idempotency(
            IdempotencyError::MissingSavedResponse
        ))
    );
    assert_eq!(store.issue_count(), 0);
    store.rollback(held);
    let response =
        publish_issue(&mut store, form("T", "h", "t", "abc123"), 1, subscribers(), 7, 77)
            .unwrap();
    assert_eq!(parts(&response), accepted());
}

#[test]
fn five_callers_with_one_key_publish_once() {
    let mut store = Store::new();
    let key = IdempotencyKey::parse("abc123".to_string()).unwrap();
    let mut winner = match try_processing(&mut store, &key, 1, 5).unwrap() {
        NextAction::StartProcessing(transaction) => transaction,
        NextAction::ReturnSavedResponse(_) => panic!("the key was free"),
    };
    winner.insert_newsletter_issue(NewsletterIssue {
        issue_id: 77,
        title: "T".to_string(),
        html_content: "<p>H</p>".to_string(),
        text_content: "T".to_string(),
    });
    winner.enqueue_delivery_tasks(subscribers());
    let first = save_response(&mut store, winner, see_other("/admin/newsletters")).unwrap();
    assert_eq!(parts(&first), accepted());
    for caller in 0..4u128 {
        let answer = publish_issue(
            &mut store,
            form("T", "<p>H</p>", "T", "abc123"),
            1,
            subscribers(),
            6 + caller as u64,
            100 + caller,
        )
        .unwrap();
        assert_eq!(parts(&answer), parts(&first));
    }
    assert_eq!(store.issue_count(), 1);
    assert_eq!(store.queue_len(), 3);
    let record = store.find_record(1, &"abc123".to_string()).unwrap();
    assert_eq!(record.created_at, 5);
    assert_eq!(record.saved.unwrap().response_status_code, 303);
}

#[test]
fn issues_published_under_fresh_identifiers_do_not_collide() {
    let mut store = Store::new();
    let first = publish_newsletter(&mut store, form("T", "h", "t", "k1"), 1, subscribers(), 1);
    let second = publish_newsletter(&mut store, form("U", "h", "t", "k2"), 1, subscribers(), 2);
    assert_eq!(parts(&first.unwrap()), accepted());
    assert_eq!(parts(&second.unwrap()), accepted());
    assert_eq!(store.issue_count(), 2);
    assert_eq!(store.queue_len(), 6);
}

#[test]
fn a_publish_request_claims_then_commits() {
    let (state, action) = PublishState::start(form("T", "<p>H</p>", "T", "abc123"), 1, 77);
    match action {
        PublishAction::Claim { user_id, key } => {
            assert_eq!(user_id, 1);
            assert_eq!(key.as_ref(), "abc123");
        }
        other => panic!("unexpected action {:?}", other),
    }
    let (state, action) = state.step(PublishEvent::Claimed(true));
    match action {
        PublishAction::Commit {
            user_id,
            key,
            issue,
            columns,
        } => {
            assert_eq!(user_id, 1);
            assert_eq!(key.as_ref(), "abc123");
            assert_eq!(issue.issue_id, 77);
            assert_eq!(issue.title, "T");
            assert_eq!(issue.html_content, "<p>H</p>");
            assert_eq!(issue.text_content, "T");
            assert_eq!(columns.response_status_code, 303);
            assert_eq!(columns.response_body, b"");
            assert_eq!(columns.response_headers.len(), 1);
            assert_eq!(columns.response_headers[0].name, "location");
            assert_eq!(columns.response_headers[0].value, b"/admin/newsletters");
        }
        other => panic!("unexpected action {:?}", other),
    }
    let (state, action) = state.step(PublishEvent::Committed);
    match action {
        PublishAction::Respond(Ok(response)) => assert_eq!(parts(&response), accepted()),
        other => panic!("unexpected action {:?}", other),
    }
    assert!(matches!(state, PublishState::Finished));
}

#[test]
fn a_publish_request_that_finds_its_key_taken_replays() {
    let (state, _) = PublishState::start(form("T", "<p>H</p>", "T", "abc123"), 1, 77);
    let (state, action) = state.step(PublishEvent::Claimed(false));
    match action {
        PublishAction::LoadSaved { user_id, key } => {
            assert_eq!(user_id, 1);
            assert_eq!(key.as_ref(), "abc123");
        }
        other => panic!("unexpected action {:?}", other),
    }
    assert!(matches!(state, PublishState::Replaying));
    let saved = SavedResponse {
        response_status_code: 200,
        response_headers: vec![],
        response_body: b"earlier".to_vec(),
    };
    let (state, action) = state.step(PublishEvent::Saved(Some(IdempotencyRecord {
        created_at: 3,
        saved: Some(saved),
    })));
    match action {
        PublishAction::Respond(Ok(response)) => {
            assert_eq!(parts(&response), (200, vec![], b"earlier".to_vec()))
        }
        other => panic!("unexpected action {:?}", other),
    }
    assert!(matches!(state, PublishState::Finished));
}

#[test]
fn a_publish_request_fails_where_nothing_can_be_replayed() {
    for (record, reason) in [
        (None, IdempotencyError::MissingSavedResponse),
        (
            Some(IdempotencyRecord {
                created_at: 3,
                saved: None,
            }),
            IdempotencyError::MissingSavedResponse,
        ),
        (
            Some(IdempotencyRecord {
                created_at: 3,
                saved: Some(SavedResponse {
                    response_status_code: 7,
                    response_headers: vec![],
                    response_body: vec![],
                }),
            }),
            IdempotencyError::InvalidSavedStatus,
        ),
    ] {
        let (state, _) = PublishState::start(form("T", "h", "t", "abc123"), 1, 77);
        let (state, _) = state.step(PublishEvent::Claimed(false));
        let (_, action) = state.step(PublishEvent::Saved(record));
        match action {
            PublishAction::Respond(Err(e)) => assert_eq!(
                e,
                PublishError::UnexpectedError(PublishFault::Idempotency(reason))
            ),
            other => panic!("unexpected action {:?}", other),
        }
    }
}

#[test]
fn a_publish_request_ends_with_an_error_on_a_storage_failure() {
    let storage = PublishError::UnexpectedError(PublishFault::Storage);
    let (state, _) = PublishState::start(form("T", "h", "t", "abc123"), 1, 77);
    let (_, action) = state.step(PublishEvent::Failed);
    assert!(matches!(action, PublishAction::Respond(Err(e)) if e == storage));

    let (state, _) = PublishState::start(form("T", "h", "t", "abc123"), 1, 77);
    let (state, _) = state.step(PublishEvent::Claimed(true));
    let (state, action) = state.step(PublishEvent::Failed);
    assert!(matches!(action, PublishAction::Respond(Err(e)) if e == storage));
    assert!(matches!(state, PublishState::Finished));

    let (state, _) = PublishState::start(form("T", "h", "t", "abc123"), 1, 77);
    let (state, _) = state.step(PublishEvent::Claimed(false));
    let (_, action) = state.step(PublishEvent::Committed);
    assert!(matches!(action, PublishAction::Respond(Err(e)) if e == storage));

    let (_, action) = PublishState::Finished.step(PublishEvent::Claimed(true));
    assert!(matches!(action, PublishAction::Respond(Err(e)) if e == storage));
}

#[test]
fn a_publish_request_with_a_malformed_key_answers_at_once() {
    let (state, action) = PublishState::start(form("T", "h", "t", "a b"), 1, 77);
    assert!(matches!(state, PublishState::Finished));
    assert!(matches!(
        action,
        PublishAction::Respond(Err(PublishError::ValidationError(KeyError::InvalidCharacter)))
    ));
}
