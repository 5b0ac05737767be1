//! The wire-level rules of the HTTP command channel: the headers every
//! command carries and the classification of a response by its status.
use vstd::prelude::*;

use crate::error::ErrorKind;
use crate::error::GeckError;
use crate::json::int_text;
use crate::json::write_int;

verus! {

/// The header pair every command request carries: JSON is both accepted
/// and sent.
pub fn request_headers() -> (r: Vec<(String, String)>)
    ensures
        r@.len() == 2,
        r@[0].0@ == "Accept"@,
        r@[0].1@ == "application/json"@,
        r@[1].0@ == "Content-Type"@,
        r@[1].1@ == "application/json;charset=UTF-8"@,
{
    let mut v: Vec<(String, String)> = Vec::new();
    v.push(("Accept".to_owned(), "application/json".to_owned()));
    v.push(("Content-Type".to_owned(), "application/json;charset=UTF-8".to_owned()));
    v
}

/// Classifies one HTTP exchange: a 200 status hands the body bytes back
/// unmodified, and any other status is a channel failure carrying that
/// status.
pub fn classify_http_response(status: u16, body: Vec<u8>) -> (r: Result<Vec<u8>, GeckError>)
    ensures
        status == 200 ==> (r matches Ok(b) && b@ == body@),
        status != 200 ==> (r matches Err(e) && e.kind() == ErrorKind::Service && e.details()
            == "Response status is "@ + int_text(status as int)),
{
    if status == 200 {
        Ok(body)
    } else {
        let mut msg = "Response status is ".to_owned();
        write_int(status as i32, &mut msg);
        Err(GeckError::new(ErrorKind::Service, None, msg.as_str()))
    }
}

} // verus!
