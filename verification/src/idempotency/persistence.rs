//! Responses as they are saved for replay, and the columns they are stored in.

use crate::idempotency::key::IdempotencyKey;
use crate::store::CommitError;
use crate::store::Store;
use crate::store::StoreView;
use crate::store::Transaction;
use crate::store::TransactionView;
use vstd::prelude::*;
use vstd::string::*;

verus! {

/// One response header as it is stored: its name, and its value as raw bytes.
#[derive(Debug)]
pub struct HeaderPairRecord {
    pub name: String,
    pub value: Vec<u8>,
}

impl View for HeaderPairRecord {
    type V = (Seq<char>, Seq<u8>);

    open spec fn view(&self) -> (Seq<char>, Seq<u8>) {
        (self.name@, self.value@)
    }
}

impl Clone for HeaderPairRecord {
    fn clone(&self) -> (copy: Self)
        ensures
            copy@ == self@,
    {
        HeaderPairRecord { name: self.name.clone(), value: copy_bytes(&self.value) }
    }
}

/// The headers of a response, in order, each as a pair of name and value.
pub open spec fn headers_view(headers: Seq<HeaderPairRecord>) -> Seq<(Seq<char>, Seq<u8>)> {
    Seq::new(headers.len(), |i: int| headers[i]@)
}

/// A copy of a byte vector.
pub fn copy_bytes(bytes: &Vec<u8>) -> (copy: Vec<u8>)
    ensures
        copy@ == bytes@,
{
    let mut copy: Vec<u8> = Vec::new();
    let mut i: usize = 0;
    while i < bytes.len()
        invariant
            i <= bytes@.len(),
            copy@ == bytes@.subrange(0, i as int),
        decreases bytes@.len() - i,
    {
        copy.push(bytes[i]);
        proof {
            assert(copy@ =~= bytes@.subrange(0, i + 1));
        }
        i = i + 1;
    }
    proof {
        assert(bytes@.subrange(0, i as int) =~= bytes@);
    }
    copy
}

/// A copy of a list of headers.
pub fn copy_headers(headers: &Vec<HeaderPairRecord>) -> (copy: Vec<HeaderPairRecord>)
    ensures
        headers_view(copy@) == headers_view(headers@),
{
    let mut copy: Vec<HeaderPairRecord> = Vec::new();
    let mut i: usize = 0;
    while i < headers.len()
        invariant
            i <= headers@.len(),
            copy@.len() == i,
            forall|j: int| 0 <= j < i ==> (#[trigger] copy@[j])@ == headers@[j]@,
        decreases headers@.len() - i,
    {
        copy.push(headers[i].clone());
        i = i + 1;
    }
    proof {
        assert(headers_view(copy@) =~= headers_view(headers@));
    }
    copy
}

/// What a response is, byte for byte: status code, headers in order, body.
pub struct ResponseView {
    pub status_code: u16,
    pub headers: Seq<(Seq<char>, Seq<u8>)>,
    pub body: Seq<u8>,
}

/// The status codes that HTTP admits: three decimal digits, the first not zero.
pub open spec fn is_status_code(code: int) -> bool {
    100 <= code < 1000
}

/// Calls `actix_web::http::StatusCode::from_u16`, which accepts exactly the
/// codes from 100 to 999.
#[verifier::external_body]
fn status_code_accepted(code: u16) -> (ok: bool)
    ensures
        ok == is_status_code(code as int),
{
    actix_web::http::StatusCode::from_u16(code).is_ok()
}

/// An HTTP response held as plain values. Its status code is always one that
/// HTTP admits.
#[derive(Debug)]
pub struct Response {
    status_code: u16,
    headers: Vec<HeaderPairRecord>,
    body: Vec<u8>,
}

impl View for Response {
    type V = ResponseView;

    closed spec fn view(&self) -> ResponseView {
        ResponseView {
            status_code: self.status_code,
            headers: headers_view(self.headers@),
            body: self.body@,
        }
    }
}

/// The status code was outside the range that HTTP admits.
#[derive(Clone, Copy, Debug, PartialEq, Eq, Structural)]
pub struct InvalidStatusCode;

impl Response {
    #[verifier::type_invariant]
    closed spec fn valid(self) -> bool {
        is_status_code(self.status_code as int)
    }

    /// A response from its parts; refused exactly where the status code is
    /// not one that HTTP admits.
    pub fn build(status_code: u16, headers: Vec<HeaderPairRecord>, body: Vec<u8>) -> (r: Result<
        Response,
        InvalidStatusCode,
    >)
        ensures
            match r {
                Ok(response) => is_status_code(status_code as int) && response@ == (ResponseView {
                    status_code,
                    headers: headers_view(headers@),
                    body: body@,
                }),
                Err(_) => !is_status_code(status_code as int),
            },
    {
        if status_code_accepted(status_code) {
            Ok(Response { status_code, headers, body })
        } else {
            Err(InvalidStatusCode)
        }
    }

    pub fn status_code(&self) -> (code: u16)
        ensures
            code == self@.status_code,
            is_status_code(code as int),
    {
        proof {
            use_type_invariant(self);
        }
        self.status_code
    }

    pub fn headers(&self) -> (headers: &Vec<HeaderPairRecord>)
        ensures
            headers_view(headers@) == self@.headers,
    {
        &self.headers
    }

    pub fn body(&self) -> (body: &Vec<u8>)
        ensures
            body@ == self@.body,
    {
        &self.body
    }
}

impl Clone for Response {
    fn clone(&self) -> (copy: Self)
        ensures
            copy@ == self@,
    {
        proof {
            use_type_invariant(self);
        }
        Response {
            status_code: self.status_code,
            headers: copy_headers(&self.headers),
            body: copy_bytes(&self.body),
        }
    }
}

/// The three response columns of a completed row of the idempotency table.
#[derive(Debug)]
pub struct SavedResponse {
    pub response_status_code: i16,
    pub response_headers: Vec<HeaderPairRecord>,
    pub response_body: Vec<u8>,
}

/// What the response columns hold.
pub struct SavedResponseView {
    pub status_code: i16,
    pub headers: Seq<(Seq<char>, Seq<u8>)>,
    pub body: Seq<u8>,
}

impl View for SavedResponse {
    type V = SavedResponseView;

    open spec fn view(&self) -> SavedResponseView {
        SavedResponseView {
            status_code: self.response_status_code,
            headers: headers_view(self.response_headers@),
            body: self.response_body@,
        }
    }
}

/// The columns that a response is stored in.
pub open spec fn columns_of(response: ResponseView) -> SavedResponseView {
    SavedResponseView {
        status_code: response.status_code as i16,
        headers: response.headers,
        body: response.body,
    }
}

/// The response that stored columns stand for, if their status code is one
/// that HTTP admits.
pub open spec fn response_of(columns: SavedResponseView) -> Option<ResponseView> {
    if is_status_code(columns.status_code as int) {
        Some(
            ResponseView {
                status_code: columns.status_code as u16,
                headers: columns.headers,
                body: columns.body,
            },
        )
    } else {
        None
    }
}

/// Storing a response and reading it back gives the same response, byte for byte.
pub proof fn lemma_saved_response_round_trip(response: ResponseView)
    requires
        is_status_code(response.status_code as int),
    ensures
        response_of(columns_of(response)) == Some(response),
{
    let code = response.status_code;
    assert(code as i16 as int == code as int);
    assert(code as i16 as u16 == code);
}

impl SavedResponse {
    /// The columns for a response.
    pub fn from_response(response: &Response) -> (columns: SavedResponse)
        ensures
            columns@ == columns_of(response@),
            response_of(columns@) == Some(response@),
    {
        let code = response.status_code();
        proof {
            lemma_saved_response_round_trip(response@);
        }
        SavedResponse {
            response_status_code: code as i16,
            response_headers: copy_headers(response.headers()),
            response_body: copy_bytes(response.body()),
        }
    }

    /// The response that the columns stand for; refused exactly where the
    /// stored status code is not one that HTTP admits.
    pub fn to_response(&self) -> (r: Result<Response, InvalidStatusCode>)
        ensures
            match r {
                Ok(response) => response_of(self@) == Some(response@),
                Err(_) => response_of(self@) is None,
            },
    {
        if self.response_status_code < 0 {
            return Err(InvalidStatusCode);
        }
        let code = self.response_status_code as u16;
        Response::build(code, copy_headers(&self.response_headers), copy_bytes(&self.response_body))
    }
}

impl Clone for SavedResponse {
    fn clone(&self) -> (copy: Self)
        ensures
            copy@ == self@,
    {
        SavedResponse {
            response_status_code: self.response_status_code,
            response_headers: copy_headers(&self.response_headers),
            response_body: copy_bytes(&self.response_body),
        }
    }
}

/// The columns of a row of the idempotency table besides its key: when the
/// key was claimed, and the response once the request has completed.
#[derive(Debug)]
pub struct IdempotencyRecord {
    pub created_at: u64,
    pub saved: Option<SavedResponse>,
}

/// What a row of the idempotency table holds.
pub struct IdempotencyRecordView {
    pub created_at: u64,
    pub saved: Option<SavedResponseView>,
}

impl View for IdempotencyRecord {
    type V = IdempotencyRecordView;

    open spec fn view(&self) -> IdempotencyRecordView {
        IdempotencyRecordView {
            created_at: self.created_at,
            saved: match self.saved {
                Some(columns) => Some(columns@),
                None => None,
            },
        }
    }
}

impl Clone for IdempotencyRecord {
    fn clone(&self) -> (copy: Self)
        ensures
            copy@ == self@,
    {
        IdempotencyRecord {
            created_at: self.created_at,
            saved: match &self.saved {
                Some(columns) => Some(columns.clone()),
                None => None,
            },
        }
    }
}

/// The response that a row of the idempotency table holds, or why it holds
/// none that can be replayed.
pub open spec fn record_response(record: IdempotencyRecordView) -> Result<
    ResponseView,
    IdempotencyError,
> {
    match record.saved {
        None => Err(IdempotencyError::MissingSavedResponse),
        Some(columns) => match response_of(columns) {
            Some(response) => Ok(response),
            None => Err(IdempotencyError::InvalidSavedStatus),
        },
    }
}

impl IdempotencyRecord {
    /// The response that the row holds: an error where the row is a bare
    /// claim, and where the saved status code is not one that HTTP admits.
    pub fn to_response(&self) -> (r: Result<Response, IdempotencyError>)
        ensures
            match r {
                Ok(response) => record_response(self@) == Ok::<ResponseView, IdempotencyError>(
                    response@,
                ),
                Err(e) => record_response(self@) == Err::<ResponseView, IdempotencyError>(e),
            },
    {
        match &self.saved {
            None => Err(IdempotencyError::MissingSavedResponse),
            Some(columns) => match columns.to_response() {
                Ok(response) => Ok(response),
                Err(_) => Err(IdempotencyError::InvalidSavedStatus),
            },
        }
    }
}

/// What a request with an idempotency key does next.
#[derive(Debug)]
pub enum NextAction {
    /// The key was free and is now claimed: the request does its work inside
    /// the transaction and completes it with `save_response`.
    StartProcessing(Transaction),
    /// A request with this key has completed: its response is replayed.
    ReturnSavedResponse(Response),
}

/// How the idempotency table can fail a request.
#[derive(Clone, Copy, Debug, PartialEq, Eq, Structural)]
pub enum IdempotencyError {
    /// The key has a row that holds no response, so a request with it was
    /// begun and has not completed.
    MissingSavedResponse,
    /// The saved response carries a status code that HTTP does not admit.
    InvalidSavedStatus,
    /// At completion the table held no bare claim row for the key.
    ClaimMissing,
    /// At completion the staged writes broke a rule of the tables.
    Conflict,
}

impl StoreView {
    /// The response saved under the key, if the key has completed and the
    /// saved columns stand for a response.
    pub open spec fn saved_response(self, user_id: u128, key: Seq<char>) -> Option<ResponseView> {
        if self.is_completed(user_id, key) {
            response_of(self.idempotency[(user_id, key)].saved->0)
        } else {
            None
        }
    }

    /// What a lookup of the saved response fails with, if it fails.
    pub open spec fn lookup_error(self, user_id: u128, key: Seq<char>) -> Option<IdempotencyError> {
        if self.is_claimed(user_id, key) {
            Some(IdempotencyError::MissingSavedResponse)
        } else if self.is_completed(user_id, key) && self.saved_response(user_id, key) is None {
            Some(IdempotencyError::InvalidSavedStatus)
        } else {
            None
        }
    }
}

/// The response saved under the key: `None` where the key has no row, an
/// error where its row holds no response or one that cannot be rebuilt.
pub fn get_saved_response(store: &Store, idempotency_key: &IdempotencyKey, user_id: u128) -> (r:
    Result<Option<Response>, IdempotencyError>)
    requires
        store.wf(),
    ensures
        match r {
            Ok(Some(response)) => store@.saved_response(user_id, idempotency_key@) == Some(
                response@,
            ),
            Ok(None) => !store@.idempotency.contains_key((user_id, idempotency_key@)),
            Err(e) => store@.lookup_error(user_id, idempotency_key@) == Some(e),
        },
{
    match store.find_record(user_id, idempotency_key.as_string()) {
        None => Ok(None),
        Some(record) => match record.to_response() {
            Ok(response) => Ok(Some(response)),
            Err(e) => Err(e),
        },
    }
}

/// Claims the key for a new request, or answers with what an earlier request
/// with the same key left.
///
/// A free key is claimed at time `now` and a transaction opens. A completed
/// key gives its saved response and the store does not change. A key that is
/// claimed and not completed is an error, as is a saved response that cannot
/// be rebuilt.
pub fn try_processing(
    store: &mut Store,
    idempotency_key: &IdempotencyKey,
    user_id: u128,
    now: u64,
) -> (r: Result<NextAction, IdempotencyError>)
    requires
        old(store).wf(),
    ensures
        final(store).wf(),
        match r {
            Ok(NextAction::StartProcessing(t)) => {
                &&& !old(store)@.idempotency.contains_key((user_id, idempotency_key@))
                &&& final(store)@ == old(store)@.with_claim(user_id, idempotency_key@, now)
                &&& t@ == (TransactionView {
                    user_id,
                    key: idempotency_key@,
                    issue: None,
                    recipients: Seq::empty(),
                })
            },
            Ok(NextAction::ReturnSavedResponse(response)) => {
                &&& old(store)@.saved_response(user_id, idempotency_key@) == Some(response@)
                &&& final(store)@ == old(store)@
            },
            Err(e) => {
                &&& old(store)@.lookup_error(user_id, idempotency_key@) == Some(e)
                &&& final(store)@ == old(store)@
            },
        },
{
    match store.begin(user_id, idempotency_key, now) {
        Some(transaction) => Ok(NextAction::StartProcessing(transaction)),
        None => match get_saved_response(store, idempotency_key, user_id) {
            Ok(Some(response)) => Ok(NextAction::ReturnSavedResponse(response)),
            Ok(None) => Err(IdempotencyError::MissingSavedResponse),
            Err(e) => Err(e),
        },
    }
}

/// What completing a transaction fails with, if it fails.
pub open spec fn completion_error(store: StoreView, t: TransactionView) -> Option<IdempotencyError> {
    match store.commit_error(t) {
        Some(CommitError::ClaimMissing) => Some(IdempotencyError::ClaimMissing),
        Some(CommitError::Conflict) => Some(IdempotencyError::Conflict),
        None => None,
    }
}

/// Completes the request: saves the response under the transaction's key and
/// commits the transaction, all in one step, and hands the response back.
/// Where the commit is refused, the transaction is rolled back.
pub fn save_response(store: &mut Store, transaction: Transaction, response: Response) -> (r:
    Result<Response, IdempotencyError>)
    requires
        old(store).wf(),
    ensures
        final(store).wf(),
        match r {
            Ok(persisted) => {
                &&& persisted@ == response@
                &&& completion_error(old(store)@, transaction@) is None
                &&& final(store)@ == old(store)@.committed(transaction@, columns_of(response@))
                &&& final(store)@.saved_response(transaction@.user_id, transaction@.key) == Some(
                    response@,
                )
            },
            Err(e) => {
                &&& completion_error(old(store)@, transaction@) == Some(e)
                &&& final(store)@ == old(store)@.rolled_back(transaction@)
            },
        },
{
    let columns = SavedResponse::from_response(&response);
    match store.commit(transaction, columns) {
        Ok(_) => Ok(response),
        Err(CommitError::ClaimMissing) => Err(IdempotencyError::ClaimMissing),
        Err(CommitError::Conflict) => Err(IdempotencyError::Conflict),
    }
}

} // verus!
