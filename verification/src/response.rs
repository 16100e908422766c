//! The response envelope that the surrounding CRUD request handlers
//! answer with. The handlers themselves are plain store reads and writes
//! around the pipeline and live outside the library; the envelope's
//! fixed shape is stated here.

use vstd::prelude::*;

verus! {

/// One gateway response: never base64-encoded, a status code, a JSON
/// body, and the response headers as pairs.
pub struct CustomOutput {
    pub is_base64_encoded: bool,
    pub status_code: u16,
    pub body: String,
    pub headers: Vec<(&'static str, &'static str)>,
}

impl CustomOutput {
    /// A successful response carrying `body`: status 200, not
    /// base64-encoded, with the one header that opens the resource to
    /// any origin.
    pub fn new(body: String) -> (r: Self)
        ensures
            !r.is_base64_encoded,
            r.status_code == 200,
            r.body == body,
            r.headers@.len() == 1,
            r.headers@[0].0@ == "Access-Control-Allow-Origin"@,
            r.headers@[0].1@ == "*"@,
    {
        let mut headers: Vec<(&'static str, &'static str)> = Vec::new();
        headers.push(("Access-Control-Allow-Origin", "*"));
        CustomOutput { is_base64_encoded: false, status_code: 200, body, headers }
    }
}

} // verus!
