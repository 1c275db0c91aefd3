use zero2prod::idempotency::persistence::copy_bytes;
use zero2prod::idempotency::persistence::copy_headers;
use zero2prod::idempotency::persistence::get_saved_response;
use zero2prod::idempotency::persistence::save_response;
use zero2prod::idempotency::persistence::try_processing;
use zero2prod::idempotency::persistence::HeaderPairRecord;
use zero2prod::idempotency::persistence::IdempotencyError;
use zero2prod::idempotency::persistence::IdempotencyRecord;
use zero2prod::idempotency::persistence::NextAction;
use zero2prod::idempotency::persistence::Response;
use zero2prod::idempotency::persistence::SavedResponse;
use zero2prod::idempotency::IdempotencyKey;
use zero2prod::store::NewsletterIssue;
use zero2prod::store::Store;
use zero2prod::store::Transaction;

fn key(text: &str) -> IdempotencyKey {
    IdempotencyKey::parse(text.to_string()).unwrap()
}

fn header(name: &str, value: &[u8]) -> HeaderPairRecord {
    HeaderPairRecord {
        name: name.to_string(),
        value: value.to_vec(),
    }
}

fn sample_response() -> Response {
    Response::build(
        201,
        vec![header("location", b"/there"), header("x-bytes", &[0, 255, 7])],
        b"made".to_vec(),
    )
    .unwrap()
}

fn parts(response: &Response) -> (u16, Vec<(String, Vec<u8>)>, Vec<u8>) {
    (
        response.status_code(),
        response
            .headers()
            .iter()
            .map(|h| (h.name.clone(), h.value.clone()))
            .collect(),
        response.body().clone(),
    )
}

fn issue(issue_id: u128) -> NewsletterIssue {
    NewsletterIssue {
        issue_id,
        title: "T".to_string(),
        html_content: "<p>H</p>".to_string(),
        text_content: "T".to_string(),
    }
}

fn begin(store: &mut Store, text: &str, user_id: u128) -> Transaction {
    match try_processing(store, &key(text), user_id, 7).unwrap() {
        NextAction::StartProcessing(transaction) => transaction,
        NextAction::ReturnSavedResponse(_) => panic!("the key was free"),
    }
}

#[test]
fn a_response_takes_the_status_codes_from_100_to_999() {
    assert!(Response::build(99, vec![], vec![]).is_err());
    assert!(Response::build(0, vec![], vec![]).is_err());
    assert!(Response::build(1000, vec![], vec![]).is_err());
    assert!(Response::build(u16::MAX, vec![], vec![]).is_err());
    assert_eq!(Response::build(100, vec![], vec![]).unwrap().status_code(), 100);
    assert_eq!(Response::build(999, vec![], vec![]).unwrap().status_code(), 999);
}

#[test]
fn a_response_keeps_its_parts() {
    let response = sample_response();
    assert_eq!(
        parts(&response),
        (
            201,
            vec![
                ("location".to_string(), b"/there".to_vec()),
                ("x-bytes".to_string(), vec![0, 255, 7])
            ],
            b"made".to_vec()
        )
    );
    assert_eq!(parts(&response.clone()), parts(&response));
}

#[test]
fn copies_are_equal_to_what_they_copy() {
    assert_eq!(copy_bytes(&vec![1, 2, 3]), vec![1, 2, 3]);
    assert_eq!(copy_bytes(&vec![]), Vec::<u8>::new());
    let headers = vec![header("a", b"1"), header("b", b"")];
    let copy = copy_headers(&headers);
    assert_eq!(copy.len(), 2);
    assert_eq!(copy[0].name, "a");
    assert_eq!(copy[0].value, b"1");
    assert_eq!(copy[1].name, "b");
    assert_eq!(copy[1].value, b"");
}

#[test]
fn a_response_survives_being_stored_and_read_back() {
    let response = sample_response();
    let columns = SavedResponse::from_response(&response);
    assert_eq!(columns.response_status_code, 201);
    assert_eq!(columns.response_body, b"made");
    assert_eq!(columns.response_headers.len(), 2);
    let back = columns.to_response().unwrap();
    assert_eq!(parts(&back), parts(&response));
    assert_eq!(parts(&columns.clone().to_response().unwrap()), parts(&response));
}

#[test]
fn stored_columns_with_an_impossible_status_give_no_response() {
    for code in [-1i16, 0, 99, 1000, i16::MAX, i16::MIN] {
        let columns = SavedResponse {
            response_status_code: code,
            response_headers: vec![],
            response_body: vec![],
        };
        assert!(columns.to_response().is_err());
    }
}

#[test]
fn a_bare_claim_row_holds_no_response() {
    let record = IdempotencyRecord {
        created_at: 1,
        saved: None,
    };
    assert_eq!(
        record.to_response().unwrap_err(),
        IdempotencyError::MissingSavedResponse
    );
    let record = IdempotencyRecord {
        created_at: 1,
        saved: Some(SavedResponse {
            response_status_code: 42,
            response_headers: vec![],
            response_body: vec![],
        }),
    };
    assert_eq!(
        record.clone().to_response().unwrap_err(),
        IdempotencyError::InvalidSavedStatus
    );
}

#[test]
fn a_free_key_is_claimed() {
    let mut store = Store::new();
    assert!(get_saved_response(&store, &key("abc123"), 1).unwrap().is_none());
    let transaction = begin(&mut store, "abc123", 1);
    assert_eq!(transaction.user_id(), 1);
    assert_eq!(transaction.idempotency_key(), "abc123");
    let record = store.find_record(1, &"abc123".to_string()).unwrap();
    assert_eq!(record.created_at, 7);
    assert!(record.saved.is_none());
}

#[test]
fn a_claimed_key_that_has_not_completed_is_an_error() {
    let mut store = Store::new();
    let _held = begin(&mut store, "abc123", 1);
    assert_eq!(
        try_processing(&mut store, &key("abc123"), 1, 8).unwrap_err(),
        IdempotencyError::MissingSavedResponse
    );
    assert_eq!(
        get_saved_response(&store, &key("abc123"), 1).unwrap_err(),
        IdempotencyError::MissingSavedResponse
    );
}

#[test]
fn keys_are_scoped_by_user() {
    let mut store = Store::new();
    let _first = begin(&mut store, "abc123", 1);
    let second = begin(&mut store, "abc123", 2);
    assert_eq!(second.user_id(), 2);
}

#[test]
fn a_completed_key_replays_its_response() {
    let mut store = Store::new();
    let transaction = begin(&mut store, "abc123", 1);
    let persisted = save_response(&mut store, transaction, sample_response()).unwrap();
    assert_eq!(parts(&persisted), parts(&sample_response()));
    match try_processing(&mut store, &key("abc123"), 1, 9).unwrap() {
        NextAction::ReturnSavedResponse(saved) => {
            assert_eq!(parts(&saved), parts(&sample_response()))
        }
        NextAction::StartProcessing(_) => panic!("the key has completed"),
    }
    let saved = get_saved_response(&store, &key("abc123"), 1).unwrap().unwrap();
    assert_eq!(parts(&saved), parts(&sample_response()));
    let record = store.find_record(1, &"abc123".to_string()).unwrap();
    assert_eq!(record.created_at, 7);
}

#[test]
fn a_commit_writes_the_issue_the_tasks_and_the_response_together() {
    let mut store = Store::new();
    let mut transaction = begin(&mut store, "abc123", 1);
    transaction.insert_newsletter_issue(issue(10));
    transaction
        .enqueue_delivery_tasks(vec!["a@example.com".to_string(), "b@example.com".to_string()]);
    assert_eq!(store.issue_count(), 0);
    assert_eq!(store.queue_len(), 0);
    save_response(&mut store, transaction, sample_response()).unwrap();
    assert_eq!(store.issue_count(), 1);
    assert_eq!(store.queue_len(), 2);
    assert!(store.is_queued(10, &"a@example.com".to_string()));
    assert!(store.is_queued(10, &"b@example.com".to_string()));
    assert!(!store.is_queued(10, &"c@example.com".to_string()));
    let stored = store.get_issue(10).unwrap();
    assert_eq!(stored.issue_id, 10);
    assert_eq!(stored.title, "T");
    assert_eq!(stored.html_content, "<p>H</p>");
    assert_eq!(stored.text_content, "T");
    assert!(store.get_issue(11).is_none());
}

#[test]
fn an_address_that_occurs_twice_in_a_snapshot_is_queued_once() {
    let mut store = Store::new();
    let mut transaction = begin(&mut store, "abc123", 1);
    transaction.insert_newsletter_issue(issue(10));
    transaction.enqueue_delivery_tasks(vec![
        "a@example.com".to_string(),
        "b@example.com".to_string(),
        "a@example.com".to_string(),
    ]);
    save_response(&mut store, transaction, sample_response()).unwrap();
    assert_eq!(store.queue_len(), 2);
}

#[test]
fn a_rollback_leaves_nothing_behind() {
    let mut store = Store::new();
    let mut transaction = begin(&mut store, "abc123", 1);
    transaction.insert_newsletter_issue(issue(10));
    transaction.enqueue_delivery_tasks(vec!["a@example.com".to_string()]);
    store.rollback(transaction);
    assert!(store.find_record(1, &"abc123".to_string()).is_none());
    assert_eq!(store.issue_count(), 0);
    assert_eq!(store.queue_len(), 0);
    let again = begin(&mut store, "abc123", 1);
    assert_eq!(again.idempotency_key(), "abc123");
}

#[test]
fn a_commit_with_a_used_issue_identifier_is_rolled_back() {
    let mut store = Store::new();
    let mut first = begin(&mut store, "first", 1);
    first.insert_newsletter_issue(issue(10));
    save_response(&mut store, first, sample_response()).unwrap();
    let mut second = begin(&mut store, "second", 1);
    second.insert_newsletter_issue(issue(10));
    second.enqueue_delivery_tasks(vec!["a@example.com".to_string()]);
    assert_eq!(
        save_response(&mut store, second, sample_response()).unwrap_err(),
        IdempotencyError::Conflict
    );
    assert!(store.find_record(1, &"second".to_string()).is_none());
    assert_eq!(store.issue_count(), 1);
    assert_eq!(store.queue_len(), 0);
}

#[test]
fn a_commit_of_tasks_without_an_issue_is_rolled_back() {
    let mut store = Store::new();
    let mut transaction = begin(&mut store, "abc123", 1);
    transaction.enqueue_delivery_tasks(vec!["a@example.com".to_string()]);
    assert_eq!(
        save_response(&mut store, transaction, sample_response()).unwrap_err(),
        IdempotencyError::Conflict
    );
    assert!(store.find_record(1, &"abc123".to_string()).is_none());
    assert_eq!(store.queue_len(), 0);
}

#[test]
fn a_commit_without_its_claim_row_is_refused() {
    let mut store = Store::new();
    let mut elsewhere = Store::new();
    let mut transaction = begin(&mut elsewhere, "abc123", 1);
    transaction.insert_newsletter_issue(issue(10));
    assert_eq!(
        save_response(&mut store, transaction, sample_response()).unwrap_err(),
        IdempotencyError::ClaimMissing
    );
    assert_eq!(store.issue_count(), 0);
    assert!(store.find_record(1, &"abc123".to_string()).is_none());
}

#[test]
fn a_commit_without_writes_completes_the_key() {
    let mut store = Store::new();
    let transaction = begin(&mut store, "abc123", 1);
    save_response(&mut store, transaction, sample_response()).unwrap();
    assert_eq!(store.issue_count(), 0);
    assert_eq!(store.queue_len(), 0);
    assert!(store.find_record(1, &"abc123".to_string()).unwrap().saved.is_some());
}
