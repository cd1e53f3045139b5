//! The requests that create or update one record, and what their answers
//! mean.

use vstd::prelude::*;
use vstd::string::StringExecFns;

verus! {

/// The HTTP method of a request that writes a record.
#[derive(Clone, Copy, Debug, PartialEq, Eq, Structural)]
pub enum Method {
    Post,
    Patch,
}

/// A request that writes one record: where it goes, and the identifier
/// that its envelope carries, which is empty where it carries none.
#[derive(Debug)]
pub struct WriteRequest {
    pub method: Method,
    pub url: String,
    pub id: String,
}

/// Why a write did not succeed.
#[derive(Clone, Copy, Debug, PartialEq, Eq, Structural)]
pub enum WriteError {
    /// The remote store answered with this status, which is no success.
    Status(u16),
}

/// The text `text` as a JSON string: quoted and escaped.
pub uninterp spec fn json_string(text: Seq<char>) -> Seq<char>;

#[verifier::external_type_specification]
#[verifier::external_body]
pub struct ExJsonError(serde_json::Error);

/// Calls `serde_json::to_string` on a string slice. Not proved: that it
/// succeeds, and that what it gives is the JSON string that `serde_json`
/// writes for the text. It writes into a vector of its own, and for a text
/// its only failure would be one of that writer, which a vector never
/// reports.
#[verifier::external_body]
fn to_json_string(text: &str) -> (r: Result<String, serde_json::Error>)
    ensures
        r.is_ok(),
        r matches Ok(json) ==> json@ == json_string(text@),
{
    serde_json::to_string(text)
}

/// The wire envelope of one record: the record's fields as JSON, and
/// before them the identifier as JSON where the envelope carries one.
pub open spec fn envelope_text(id: Option<Seq<char>>, fields: Seq<char>) -> Seq<char> {
    match id {
        Some(json) => "{\"id\":"@ + json + ",\"fields\":"@ + fields + "}"@,
        None => "{\"fields\":"@ + fields + "}"@,
    }
}

/// The text of an option.
pub open spec fn optional_text(text: Option<&str>) -> Option<Seq<char>> {
    match text {
        Some(s) => Some(s@),
        None => None,
    }
}

/// The wire envelope made of an identifier and of fields that are both
/// JSON already.
pub fn envelope(id: Option<&str>, fields: &str) -> (body: String)
    ensures
        body@ == envelope_text(optional_text(id), fields@),
{
    let mut body = String::new();
    match id {
        Some(json) => {
            body.append("{\"id\":");
            body.append(json);
            body.append(",\"fields\":");
        },
        None => {
            body.append("{\"fields\":");
        },
    }
    body.append(fields);
    body.append("}");
    assert(body@ =~= envelope_text(optional_text(id), fields@));
    body
}

/// What the status of an answered write means: success for 200 to 299, and
/// for every other status a failure that carries it.
pub fn write_result(status: u16) -> (r: Result<(), WriteError>)
    ensures
        200 <= status < 300 ==> r == Ok::<(), WriteError>(()),
        !(200 <= status < 300) ==> r == Err::<(), WriteError>(WriteError::Status(status)),
{
    if 200 <= status && status < 300 {
        Ok(())
    } else {
        Err(WriteError::Status(status))
    }
}

impl WriteRequest {
    /// The wire envelope that the request carries: the identifier as a JSON
    /// string where it is not empty, and nothing where it is.
    pub open spec fn body_text(&self, fields: Seq<char>) -> Seq<char> {
        if self.id@.len() == 0 {
            envelope_text(None, fields)
        } else {
            envelope_text(Some(json_string(self.id@)), fields)
        }
    }

    /// The body of the request for a record whose fields are `fields` in
    /// JSON. An empty identifier is left out of it.
    pub fn body(&self, fields: &str) -> (body: String)
        ensures
            body@ == self.body_text(fields@),
    {
        if self.id.as_str().is_empty() {
            envelope(None, fields)
        } else {
            match to_json_string(self.id.as_str()) {
                Ok(json) => envelope(Some(json.as_str()), fields),
                Err(_) => unreached(),
            }
        }
    }
}

} // verus!
