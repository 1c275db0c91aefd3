//! Credentials from the `Authorization` header of the 'Basic' scheme.

use crate::authentication::password::Credentials;
use vstd::prelude::*;
use vstd::string::*;
use vstd::utf8::decode_utf8;
use vstd::utf8::valid_utf8;

verus! {

/// What `base64::engine::general_purpose::STANDARD` decodes the text to,
/// `None` where it refuses the text.
pub uninterp spec fn base64_decoded(text: Seq<char>) -> Option<Seq<u8>>;

/// Calls `base64::Engine::decode` on the engine `STANDARD`. What it gives
/// depends on the text alone and is taken on trust under the name
/// `base64_decoded`.
#[verifier::external_body]
fn base64_decode(text: &str) -> (r: Option<Vec<u8>>)
    ensures
        match r {
            Some(bytes) => base64_decoded(text@) == Some(bytes@),
            None => base64_decoded(text@) is None,
        },
{
    base64::Engine::decode(&base64::engine::general_purpose::STANDARD, text).ok()
}

/// Calls `String::from_utf8`, which gives the text that the bytes encode and
/// refuses exactly the bytes that are not valid UTF-8.
#[verifier::external_body]
fn text_from_utf8(bytes: Vec<u8>) -> (r: Option<String>)
    ensures
        match r {
            Some(text) => valid_utf8(bytes@) && text@ == decode_utf8(bytes@),
            None => !valid_utf8(bytes@),
        },
{
    String::from_utf8(bytes).ok()
}

/// The `Authorization` header of a request, as far as it matters here.
#[derive(Debug)]
pub enum AuthorizationHeader {
    /// The request has no such header.
    Missing,
    /// The header's value is not text.
    Unreadable,
    /// The header's value.
    Text(String),
}

/// Why no credentials could be taken from the header.
#[derive(Clone, Copy, Debug, PartialEq, Eq, Structural)]
pub enum BasicAuthError {
    MissingHeader,
    UnreadableHeader,
    NotBasicScheme,
    InvalidBase64,
    InvalidUtf8,
    MissingPassword,
}

impl BasicAuthError {
    /// The text that the error is reported with.
    pub open spec fn message_text(self) -> Seq<char> {
        match self {
            BasicAuthError::MissingHeader => "The 'Authorization' header was missing"@,
            BasicAuthError::UnreadableHeader => "The 'Authorization' must be valid UTF-8"@,
            BasicAuthError::NotBasicScheme => "The authorization scheme was not 'Basic'."@,
            BasicAuthError::InvalidBase64 => "Failed to base64-decode 'Basic' credentials."@,
            BasicAuthError::InvalidUtf8 => "The decoded credential string is not valid UTF8."@,
            BasicAuthError::MissingPassword => "A password must be provided in 'Basic' auth."@,
        }
    }

    pub fn message(&self) -> (text: String)
        ensures
            text@ == self.message_text(),
    {
        match self {
            BasicAuthError::MissingHeader => String::from_str(
                "The 'Authorization' header was missing",
            ),
            BasicAuthError::UnreadableHeader => String::from_str(
                "The 'Authorization' must be valid UTF-8",
            ),
            BasicAuthError::NotBasicScheme => String::from_str(
                "The authorization scheme was not 'Basic'.",
            ),
            BasicAuthError::InvalidBase64 => String::from_str(
                "Failed to base64-decode 'Basic' credentials.",
            ),
            BasicAuthError::InvalidUtf8 => String::from_str(
                "The decoded credential string is not valid UTF8.",
            ),
            BasicAuthError::MissingPassword => String::from_str(
                "A password must be provided in 'Basic' auth.",
            ),
        }
    }
}

/// The text starts with the scheme's name and a space.
pub open spec fn has_basic_prefix(text: Seq<char>) -> bool {
    text.len() >= 6 && text.subrange(0, 6) == "Basic "@
}

/// The position of the first colon of the text.
pub open spec fn is_first_colon(text: Seq<char>, i: int) -> bool {
    &&& 0 <= i < text.len()
    &&& text[i] == ':'
    &&& forall|j: int| 0 <= j < i ==> text[j] != ':'
}

/// The text holds a colon.
pub open spec fn has_colon(text: Seq<char>) -> bool {
    exists|i: int| 0 <= i < text.len() && text[i] == ':'
}

/// The credentials that a decoded text stands for: the username before its
/// first colon, the password after it.
pub open spec fn is_split_of(text: Seq<char>, username: Seq<char>, password: Seq<char>) -> bool {
    exists|i: int|
        #![trigger text[i]]
        is_first_colon(text, i) && username == text.subrange(0, i) && password == text.subrange(
            i + 1,
            text.len() as int,
        )
}

/// Why the header gives no credentials, or `None` where it gives some.
pub open spec fn basic_auth_error(header: AuthorizationHeader) -> Option<BasicAuthError> {
    match header {
        AuthorizationHeader::Missing => Some(BasicAuthError::MissingHeader),
        AuthorizationHeader::Unreadable => Some(BasicAuthError::UnreadableHeader),
        AuthorizationHeader::Text(value) => {
            if !has_basic_prefix(value@) {
                Some(BasicAuthError::NotBasicScheme)
            } else {
                match base64_decoded(value@.subrange(6, value@.len() as int)) {
                    None => Some(BasicAuthError::InvalidBase64),
                    Some(bytes) => if !valid_utf8(bytes) {
                        Some(BasicAuthError::InvalidUtf8)
                    } else if !has_colon(decode_utf8(bytes)) {
                        Some(BasicAuthError::MissingPassword)
                    } else {
                        None
                    },
                }
            }
        },
    }
}

/// The position of the first colon of the text, if it has one.
fn find_colon(text: &str) -> (r: Option<usize>)
    ensures
        match r {
            Some(i) => is_first_colon(text@, i as int),
            None => !has_colon(text@),
        },
{
    let n = text.unicode_len();
    let mut i: usize = 0;
    while i < n
        invariant
            n == text@.len(),
            i <= n,
            forall|j: int| 0 <= j < i ==> text@[j] != ':',
        decreases n - i,
    {
        if text.get_char(i) == ':' {
            return Some(i);
        }
        i = i + 1;
    }
    None
}

/// Reads the credentials of the 'Basic' scheme from the header: after the
/// scheme's name the header holds, in base64, the username, a colon and the
/// password.
pub fn basic_authentication(header: AuthorizationHeader) -> (r: Result<Credentials, BasicAuthError>)
    ensures
        match r {
            Ok(credentials) => {
                &&& basic_auth_error(header) is None
                &&& header matches AuthorizationHeader::Text(value) && is_split_of(
                    decode_utf8(base64_decoded(value@.subrange(6, value@.len() as int))->0),
                    credentials.username@,
                    credentials.password@,
                )
            },
            Err(e) => basic_auth_error(header) == Some(e),
        },
{
    let value = match header {
        AuthorizationHeader::Missing => {
            return Err(BasicAuthError::MissingHeader);
        },
        AuthorizationHeader::Unreadable => {
            return Err(BasicAuthError::UnreadableHeader);
        },
        AuthorizationHeader::Text(value) => value,
    };
    proof {
        reveal_strlit("Basic ");
    }
    let n = value.as_str().unicode_len();
    if n < 6 {
        return Err(BasicAuthError::NotBasicScheme);
    }
    let scheme = String::from_str(value.as_str().substring_char(0, 6));
    if scheme != String::from_str("Basic ") {
        return Err(BasicAuthError::NotBasicScheme);
    }
    let encoded = value.as_str().substring_char(6, n);
    let decoded_bytes = match base64_decode(encoded) {
        Some(bytes) => bytes,
        None => {
            return Err(BasicAuthError::InvalidBase64);
        },
    };
    let decoded_credentials = match text_from_utf8(decoded_bytes) {
        Some(text) => text,
        None => {
            return Err(BasicAuthError::InvalidUtf8);
        },
    };
    let text = decoded_credentials.as_str();
    let colon = match find_colon(text) {
        Some(i) => i,
        None => {
            return Err(BasicAuthError::MissingPassword);
        },
    };
    let length = text.unicode_len();
    let username = String::from_str(text.substring_char(0, colon));
    let password = String::from_str(text.substring_char(colon + 1, length));
    proof {
        assert(text@[colon as int] == ':');
        assert(has_colon(text@));
        assert(is_first_colon(text@, colon as int));
    }
    Ok(Credentials { username, password })
}

} // verus!
