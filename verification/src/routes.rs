//! The handlers whose answer is fixed.

use vstd::prelude::*;
use vstd::string::*;

use crate::guards::ApiKey;
use crate::logging::failure_message;
use crate::status::HttpStatus;

verus! {

/// The answer to `GET /teapot`.
pub fn teapot() -> (r: HttpStatus)
    ensures
        r == HttpStatus::ImATeapot,
{
    HttpStatus::ImATeapot
}

/// The answer to `GET /sensitive`, reached only with the valid API key.
pub fn sensitive(_key: ApiKey<'_>) -> (r: &'static str)
    ensures
        r@ == "Sensitive data."@,
{
    "Sensitive data."
}

/// The answer to `GET /`.
pub fn index() -> (r: &'static str)
    ensures
        r@ == "Hello, world!"@,
{
    "Hello, world!"
}

/// The answer once a row has been written: Accepted whether or not the write
/// succeeded, and, when it failed, the message to log.
pub fn after_append(write_error: Option<&str>) -> (r: (HttpStatus, Option<String>))
    ensures
        r.0 == HttpStatus::Accepted,
        match write_error {
            None => r.1 is None,
            Some(e) => r.1 matches Some(m) && m@ == "Uh oh, "@ + e@,
        },
{
    match write_error {
        None => (HttpStatus::Accepted, None),
        Some(e) => (HttpStatus::Accepted, Some(failure_message(e))),
    }
}

/// The answer to `DELETE /scouting`, once the match data are wiped.
pub fn scouting_delete_reply() -> (r: String)
    ensures
        r@ == "Wiped data.csv"@,
{
    "Wiped data.csv".to_owned()
}

/// The answer to any `OPTIONS` request: nothing, so that the CORS headers alone
/// go out.
pub fn all_options() {
}

} // verus!
