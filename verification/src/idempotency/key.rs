//! The client-supplied token that names one logical request across retries.

use vstd::prelude::*;
use vstd::string::*;

verus! {

/// The longest key that is accepted, in characters.
pub const MAX_KEY_LENGTH: usize = 50;

/// Why a key was rejected.
#[derive(Clone, Copy, Debug, PartialEq, Eq, Structural)]
pub enum KeyError {
    /// The key has no characters.
    Empty,
    /// The key has more than `MAX_KEY_LENGTH` characters.
    TooLong,
    /// The key holds a character other than an ASCII letter, an ASCII digit, `-` or `_`.
    InvalidCharacter,
}

/// The characters a key may hold: ASCII letters and digits, `-` and `_`.
pub open spec fn is_key_char(c: char) -> bool {
    ||| ('a' <= c && c <= 'z')
    ||| ('A' <= c && c <= 'Z')
    ||| ('0' <= c && c <= '9')
    ||| c == '-'
    ||| c == '_'
}

/// The verdict on a candidate key: `None` where it is accepted, else the
/// first rule it breaks, in the order empty, too long, character set.
pub open spec fn key_error(text: Seq<char>) -> Option<KeyError> {
    if text.len() == 0 {
        Some(KeyError::Empty)
    } else if text.len() > MAX_KEY_LENGTH {
        Some(KeyError::TooLong)
    } else if exists|i: int| 0 <= i < text.len() && !is_key_char(#[trigger] text[i]) {
        Some(KeyError::InvalidCharacter)
    } else {
        None
    }
}

/// A key is valid where no rule rejects it.
pub open spec fn is_valid_key(text: Seq<char>) -> bool {
    key_error(text) is None
}

fn is_allowed(c: char) -> (ok: bool)
    ensures
        ok == is_key_char(c),
{
    ('a' <= c && c <= 'z') || ('A' <= c && c <= 'Z') || ('0' <= c && c <= '9') || c == '-' || c
        == '_'
}

impl KeyError {
    /// The text of the message that the rejection is reported with.
    pub open spec fn message_text(self) -> Seq<char> {
        match self {
            KeyError::Empty => "The idempotency key cannot be empty"@,
            KeyError::TooLong => "The idempotency key must not be longer than 50 characters"@,
            KeyError::InvalidCharacter => "The idempotency key may only hold ASCII letters, digits, '-' and '_'"@,
        }
    }

    pub fn message(&self) -> (text: String)
        ensures
            text@ == self.message_text(),
    {
        match self {
            KeyError::Empty => String::from_str("The idempotency key cannot be empty"),
            KeyError::TooLong => String::from_str(
                "The idempotency key must not be longer than 50 characters",
            ),
            KeyError::InvalidCharacter => String::from_str(
                "The idempotency key may only hold ASCII letters, digits, '-' and '_'",
            ),
        }
    }
}

/// A key that passed validation.
#[derive(Debug)]
pub struct IdempotencyKey(String);

impl View for IdempotencyKey {
    type V = Seq<char>;

    closed spec fn view(&self) -> Seq<char> {
        self.0@
    }
}

impl IdempotencyKey {
    #[verifier::type_invariant]
    closed spec fn valid(self) -> bool {
        is_valid_key(self.0@)
    }

    /// Accepts exactly the valid keys, and names the rule a rejected one breaks.
    pub fn parse(text: String) -> (r: Result<IdempotencyKey, KeyError>)
        ensures
            match r {
                Ok(key) => is_valid_key(text@) && key@ == text@,
                Err(e) => key_error(text@) == Some(e),
            },
    {
        let n = text.as_str().unicode_len();
        if n == 0 {
            return Err(KeyError::Empty);
        }
        if n > MAX_KEY_LENGTH {
            return Err(KeyError::TooLong);
        }
        let mut i: usize = 0;
        while i < n
            invariant
                n == text@.len(),
                0 < n <= MAX_KEY_LENGTH,
                i <= n,
                forall|j: int| 0 <= j < i ==> is_key_char(#[trigger] text@[j]),
            decreases n - i,
        {
            let c = text.as_str().get_char(i);
            if !is_allowed(c) {
                assert(!is_key_char(text@[i as int]));
                return Err(KeyError::InvalidCharacter);
            }
            i = i + 1;
        }
        Ok(IdempotencyKey(text))
    }

    /// The key as text.
    pub fn as_ref(&self) -> (s: &str)
        ensures
            s@ == self@,
            is_valid_key(s@),
    {
        proof {
            use_type_invariant(self);
        }
        self.0.as_str()
    }

    /// The key as an owned string, borrowed.
    pub fn as_string(&self) -> (s: &String)
        ensures
            s@ == self@,
            is_valid_key(s@),
    {
        proof {
            use_type_invariant(self);
        }
        &self.0
    }

    /// Gives the text back.
    pub fn into_string(self) -> (s: String)
        ensures
            s@ == self@,
            is_valid_key(s@),
    {
        proof {
            use_type_invariant(&self);
        }
        self.0
    }
}

impl Clone for IdempotencyKey {
    fn clone(&self) -> (copy: Self)
        ensures
            copy@ == self@,
    {
        proof {
            use_type_invariant(self);
        }
        IdempotencyKey(self.0.clone())
    }
}

} // verus!
