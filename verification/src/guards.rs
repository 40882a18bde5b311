//! The request checks on the `x-api-key` and `x-pass-key` headers.

use vstd::prelude::*;
use vstd::string::*;

use crate::status::HttpStatus;
use crate::text::{text_eq, texts};

verus! {

/// Why a key header was refused.
#[derive(Debug, Clone, Copy, PartialEq, Eq, Structural)]
pub enum ApiKeyError {
    Missing,
    Invalid,
}

/// A request that carried the valid API key in `x-api-key`; only the check makes one.
#[derive(Debug)]
pub struct ApiKey<'r>(&'r str);

/// A request that carried an accepted password in `x-pass-key`; only the check
/// makes one.
#[derive(Debug)]
pub struct PassKey<'r>(&'r str);

/// The one API key that the server accepts.
pub open spec fn valid_api_key() -> Seq<char> {
    "valid_api_key"@
}

/// The passwords that the server accepts.
pub open spec fn accepted_passwords() -> Seq<Seq<char>> {
    seq!["ChangeMe!"@]
}

/// Whether a password is one of those accepted.
pub open spec fn is_accepted_password(key: Seq<char>) -> bool {
    accepted_passwords().contains(key)
}

/// The server takes exactly one API key, "valid_api_key", and exactly one
/// password, "ChangeMe!".
pub proof fn law_accepted_keys(key: Seq<char>)
    ensures
        valid_api_key() == "valid_api_key"@,
        is_accepted_password(key) <==> key == "ChangeMe!"@,
{
    if key == "ChangeMe!"@ {
        assert(accepted_passwords()[0] == key);
    }
}

/// The passwords that the server accepts.
pub fn passwords() -> (r: Vec<String>)
    ensures
        texts(r@) == accepted_passwords(),
{
    let mut r: Vec<String> = Vec::new();
    r.push("ChangeMe!".to_owned());
    assert(texts(r@) =~= accepted_passwords());
    r
}

/// Whether `key` is one of `passwords`.
pub fn contains_password(passwords: &Vec<String>, key: &str) -> (r: bool)
    ensures
        r == texts(passwords@).contains(key@),
{
    let ghost known = texts(passwords@);
    let n = passwords.len();
    let mut i: usize = 0;
    while i < n
        invariant
            n == passwords@.len(),
            i <= n,
            known == texts(passwords@),
            forall|k: int| 0 <= k < i ==> known[k] != key@,
        decreases n - i,
    {
        if text_eq(passwords[i].as_str(), key) {
            assert(known[i as int] == key@);
            return true;
        }
        i = i + 1;
    }
    false
}

impl<'r> ApiKey<'r> {
    /// The key that the request carried.
    pub closed spec fn key_text(self) -> &'r str {
        self.0
    }

    /// The key that the request carried.
    pub fn key(&self) -> (r: &'r str)
        ensures
            r == self.key_text(),
    {
        self.0
    }

    /// Whether `key` is the valid API key.
    pub fn is_valid(key: &str) -> (r: bool)
        ensures
            r == (key@ == valid_api_key()),
    {
        text_eq(key, "valid_api_key")
    }

    /// Checks the value of the `x-api-key` header: a missing header is refused as
    /// `Missing`, any value but the valid key as `Invalid`, both with Bad Request.
    pub fn from_request(header: Option<&'r str>) -> (r: Result<ApiKey<'r>, (HttpStatus, ApiKeyError)>)
        ensures
            match header {
                None => r == Err::<ApiKey<'r>, (HttpStatus, ApiKeyError)>(
                    (HttpStatus::BadRequest, ApiKeyError::Missing),
                ),
                Some(key) => if key@ == valid_api_key() {
                    r matches Ok(k) && k.key_text() == key
                } else {
                    r == Err::<ApiKey<'r>, (HttpStatus, ApiKeyError)>(
                        (HttpStatus::BadRequest, ApiKeyError::Invalid),
                    )
                },
            },
    {
        match header {
            None => Err((HttpStatus::BadRequest, ApiKeyError::Missing)),
            Some(key) => {
                if Self::is_valid(key) {
                    Ok(ApiKey(key))
                } else {
                    Err((HttpStatus::BadRequest, ApiKeyError::Invalid))
                }
            },
        }
    }
}

impl<'r> PassKey<'r> {
    /// The password that the request carried.
    pub closed spec fn key_text(self) -> &'r str {
        self.0
    }

    /// The password that the request carried.
    pub fn key(&self) -> (r: &'r str)
        ensures
            r == self.key_text(),
    {
        self.0
    }

    /// Whether `key` is one of `passwords`.
    pub fn is_valid(key: &str, passwords: Vec<String>) -> (r: bool)
        ensures
            r == texts(passwords@).contains(key@),
    {
        contains_password(&passwords, key)
    }

    /// Checks the value of the `x-pass-key` header: a missing header is refused as
    /// `Missing`, a value that is no accepted password as `Invalid`, both with
    /// Unauthorized.
    pub fn from_request(header: Option<&'r str>) -> (r: Result<PassKey<'r>, (HttpStatus, ApiKeyError)>)
        ensures
            match header {
                None => r == Err::<PassKey<'r>, (HttpStatus, ApiKeyError)>(
                    (HttpStatus::Unauthorized, ApiKeyError::Missing),
                ),
                Some(key) => if is_accepted_password(key@) {
                    r matches Ok(k) && k.key_text() == key
                } else {
                    r == Err::<PassKey<'r>, (HttpStatus, ApiKeyError)>(
                        (HttpStatus::Unauthorized, ApiKeyError::Invalid),
                    )
                },
            },
    {
        let passwords = passwords();
        match header {
            None => Err((HttpStatus::Unauthorized, ApiKeyError::Missing)),
            Some(key) => {
                if Self::is_valid(key, passwords) {
                    Ok(PassKey(key))
                } else {
                    Err((HttpStatus::Unauthorized, ApiKeyError::Invalid))
                }
            },
        }
    }
}

} // verus!
