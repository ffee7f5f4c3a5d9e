//! The key that signs orders.

use vstd::prelude::*;
use vstd::string::*;

use crate::executor::config::AppConfig;
use crate::text::{chars_of, join2, Text};

verus! {

/// Why the executor cannot sign in.
pub enum AuthError {
    InvalidPrivateKey,
    AuthFailed(String),
}

/// The message of a failure to sign in.
pub open spec fn auth_message(e: AuthError) -> Text {
    match e {
        AuthError::InvalidPrivateKey => "invalid private key"@,
        AuthError::AuthFailed(s) => "authentication failed: "@ + s@,
    }
}

impl AuthError {
    /// The message of this failure.
    pub fn message(&self) -> (m: String)
        ensures
            m@ == auth_message(*self),
    {
        match self {
            AuthError::InvalidPrivateKey => "invalid private key".to_owned(),
            AuthError::AuthFailed(s) => join2("authentication failed: ", s.as_str()),
        }
    }
}

/// A key without the `0x` in front of it, if there is one.
pub open spec fn bare_key(key: Text) -> Text {
    if key.len() >= 2 && key[0] == '0' && key[1] == 'x' { key.skip(2) } else { key }
}

/// The key in the settings, without `0x` in front of it.
pub fn key_digits(c: &AppConfig) -> (s: String)
    ensures
        s@ == bare_key(c.private_key@),
{
    let chars: Vec<char> = chars_of(c.private_key.expose());
    let from: usize = if chars.len() >= 2 && chars[0] == '0' && chars[1] == 'x' { 2 } else { 0 };
    let mut s: String = String::new();
    let mut i: usize = from;
    assert(s@ =~= chars@.subrange(from as int, i as int));
    while i < chars.len()
        invariant
            from <= i <= chars@.len(),
            s@ == chars@.subrange(from as int, i as int),
        decreases chars@.len() - i,
    {
        s.push(chars[i]);
        i = i + 1;
        assert(s@ =~= chars@.subrange(from as int, i as int));
    }
    assert(s@ =~= bare_key(c.private_key@));
    s
}

/// A key is the same with `0x` in front of it and without; any other key stays as it is.
pub proof fn keys_lose_their_mark(key: Text)
    ensures
        bare_key("0x"@ + key) == key,
        !(key.len() >= 2 && key[0] == '0' && key[1] == 'x') ==> bare_key(key) == key,
{
    reveal_strlit("0x");
    assert(("0x"@ + key).skip(2) =~= key);
}

} // verus!
