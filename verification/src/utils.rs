//! Responses that several routes share.

use crate::idempotency::persistence::HeaderPairRecord;
use crate::idempotency::persistence::Response;
use crate::idempotency::persistence::ResponseView;
use vstd::prelude::*;
use vstd::string::*;

verus! {

/// A redirect: status 303, the target in a `location` header, no body.
pub open spec fn see_other_view(location: Seq<char>) -> ResponseView {
    ResponseView {
        status_code: 303,
        headers: seq![("location"@, vstd::utf8::encode_utf8(location))],
        body: Seq::empty(),
    }
}

/// The response that sends the client on to `location`.
pub fn see_other(location: &str) -> (response: Response)
    ensures
        response@ == see_other_view(location@),
{
    let mut headers: Vec<HeaderPairRecord> = Vec::new();
    headers.push(
        HeaderPairRecord { name: String::from_str("location"), value: location.as_bytes_vec() },
    );
    let body: Vec<u8> = Vec::new();
    let response = Response::build(303, headers, body).unwrap();
    proof {
        assert(response@.headers =~= see_other_view(location@).headers);
        assert(response@.body =~= see_other_view(location@).body);
    }
    response
}

/// What follows the message in the text of an error chain: each cause on a
/// line of its own, indented, under a line that announces it.
pub open spec fn causes_text(causes: Seq<Seq<char>>) -> Seq<char>
    decreases causes.len(),
{
    if causes.len() == 0 {
        Seq::empty()
    } else {
        causes_text(causes.drop_last()) + "Caused by:\n\t"@ + causes.last() + "\n"@
    }
}

/// The text of an error chain: the message, an empty line, and the causes.
pub open spec fn error_chain_text(message: Seq<char>, causes: Seq<Seq<char>>) -> Seq<char> {
    message + "\n\n"@ + causes_text(causes)
}

/// Writes out an error with the chain of its causes, the nearest first.
pub fn error_chain_fmt(message: &str, causes: &Vec<String>) -> (text: String)
    ensures
        text@ == error_chain_text(message@, crate::store::texts(causes@)),
{
    let ghost all = crate::store::texts(causes@);
    let mut text = String::from_str(message);
    text.append("\n\n");
    let mut i: usize = 0;
    proof {
        assert(all.take(0) =~= Seq::<Seq<char>>::empty());
    }
    while i < causes.len()
        invariant
            i <= causes@.len(),
            all == crate::store::texts(causes@),
            text@ == error_chain_text(message@, all.take(i as int)),
        decreases causes@.len() - i,
    {
        let ghost before = text@;
        text.append("Caused by:\n\t");
        text.append(causes[i].as_str());
        text.append("\n");
        proof {
            let longer = all.take(i + 1);
            assert(longer.drop_last() =~= all.take(i as int));
            assert(longer.last() == causes@[i as int]@);
            assert(text@ =~= message@ + "\n\n"@ + causes_text(longer));
        }
        i = i + 1;
    }
    proof {
        assert(all.take(i as int) =~= all);
    }
    text
}

} // verus!
