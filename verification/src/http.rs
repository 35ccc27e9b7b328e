//! What an HTTP exchange leaves to decide on: a status and a body.
use crate::json::{self, Json, JsonView};
use vstd::prelude::*;

verus! {

/// An HTTP status code: a number of three digits.
#[derive(Debug, Clone, Copy)]
pub struct Status {
    code: u16,
}

impl View for Status {
    type V = u16;

    closed spec fn view(&self) -> u16 {
        self.code
    }
}

/// The reply to a request: its status, and its body or why that could not be read.
#[derive(Debug)]
pub struct Reply {
    pub status: Status,
    pub body: Result<Vec<u8>, String>,
}

/// What an exchange came to: a reply, or why there was none.
pub type Exchange = Result<Reply, String>;

/// What a status reads as: `reqwest::StatusCode` writes the code and its
/// canonical reason.
pub uninterp spec fn status_text(code: u16) -> Seq<char>;

/// `reqwest::StatusCode::to_string`: the text depends on the code alone.
#[verifier::external_body]
fn write_status(code: u16) -> (text: String)
    requires
        100 <= code <= 999,
    ensures
        text@ == status_text(code),
{
    reqwest::StatusCode::from_u16(code).unwrap().to_string()
}

impl Status {
    #[verifier::type_invariant]
    spec fn has_three_digits(self) -> bool {
        100 <= self.code <= 999
    }

    /// The status with a code; none where the code has not three digits.
    pub fn from_u16(code: u16) -> (status: Option<Status>)
        ensures
            match status {
                Some(status) => status@ == code && 100 <= code <= 999,
                None => !(100 <= code <= 999),
            },
    {
        if 100 <= code && code <= 999 {
            Some(Status { code })
        } else {
            None
        }
    }

    /// The code.
    pub fn code(&self) -> (code: u16)
        ensures
            code == self@,
    {
        self.code
    }

    /// Whether the status reports success.
    pub fn is_success(&self) -> (r: bool)
        ensures
            r == success(self@),
    {
        200 <= self.code && self.code < 300
    }

    /// Whether the status blames the client.
    pub fn is_client_error(&self) -> (r: bool)
        ensures
            r == client_error(self@),
    {
        400 <= self.code && self.code < 500
    }

    /// The code and its canonical reason.
    pub fn text(&self) -> (text: String)
        ensures
            text@ == status_text(self@),
    {
        proof {
            use_type_invariant(self);
        }
        write_status(self.code)
    }
}

/// The codes that report success.
pub open spec fn success(code: u16) -> bool {
    200 <= code < 300
}

/// The codes that blame the client.
pub open spec fn client_error(code: u16) -> bool {
    400 <= code < 500
}

/// What reading a body as JSON gives: the document, or why there is none.
pub open spec fn body_json(body: Result<Vec<u8>, String>) -> Result<JsonView, Seq<char>> {
    match body {
        Ok(bytes) => match json::json_text(bytes@) {
            Some(doc) => Ok(doc),
            None => Err("error decoding response body"@),
        },
        Err(why) => Err(why@),
    }
}

/// Reads a body as JSON.
pub fn read_body(body: &Result<Vec<u8>, String>) -> (doc: Result<Json, String>)
    ensures
        match doc {
            Ok(doc) => body_json(*body) == Ok::<JsonView, Seq<char>>(doc@),
            Err(why) => body_json(*body) == Err::<JsonView, Seq<char>>(why@),
        },
{
    match body {
        Ok(bytes) => match Json::parse(bytes.as_slice()) {
            Some(doc) => Ok(doc),
            None => Err("error decoding response body".to_string()),
        },
        Err(why) => Err(why.clone()),
    }
}

} // verus!
