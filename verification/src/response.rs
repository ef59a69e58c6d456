//! The response surface of the api: a status code, a payload, and the
//! derived content headers.
//!
//! The HTTP framework itself stays outside the library; these types carry
//! the information that the framework needs (status, content type, content
//! disposition) as plain values.

use vstd::prelude::*;

verus! {

/// Status code sent with a successful response.
pub const STATUS_OK: u16 = 200;

/// Status code sent when a request is rejected as malformed or not allowed.
pub const STATUS_BAD_REQUEST: u16 = 400;

/// Status code sent when the server itself failed.
pub const STATUS_INTERNAL_SERVER_ERROR: u16 = 500;

/// Status code sent when a user has exceeded their request budget.
pub const STATUS_TOO_MANY_REQUESTS: u16 = 429;

/// Internal data that must be passed to a responder. Any payload may be
/// carried; the status accompanies it.
#[derive(Debug)]
pub struct Data<T> {
    pub data: T,
    pub status: u16,
}

impl<T> Data<T> {
    /// Returns the status of this response.
    pub fn status(&self) -> (r: u16)
        ensures
            r == self.status,
    {
        self.status
    }

    /// Returns the inner data of this response.
    pub fn data(&self) -> (r: &T)
        ensures
            r == &self.data,
    {
        &self.data
    }
}

/// Represents a response from the api; the content-type and
/// content-disposition headers are derived from the variant.
///
/// `F` is the payload of a file download (the file handle type is chosen
/// by the caller; the library never opens files itself).
#[derive(Debug)]
pub enum Response<F> {
    TextErr(Data<String>),
    TextOk(Data<String>),
    JsonOk(Data<String>),
    FileDownload((Data<F>, String)),
}

impl<F> Response<F> {
    /// The content-type header of this response, as (top, sub) parts.
    pub fn content_type(&self) -> (r: (String, String))
        ensures
            (self is TextErr || self is TextOk) ==> r.0@ == "text"@ && r.1@ == "plain; charset=utf-8"@,
            self is JsonOk ==> r.0@ == "application"@ && r.1@ == "json; charset=utf-8"@,
            self is FileDownload ==> r.0@ == "audio"@ && r.1@ == "mpeg"@,
    {
        match self {
            Response::TextErr(_) | Response::TextOk(_) => (
                String::from_str("text"),
                String::from_str("plain; charset=utf-8"),
            ),
            Response::JsonOk(_) => (
                String::from_str("application"),
                String::from_str("json; charset=utf-8"),
            ),
            Response::FileDownload(_) => (String::from_str("audio"), String::from_str("mpeg")),
        }
    }

    /// The content-disposition header of this response: downloads carry an
    /// attachment name, everything else is inline.
    pub fn content_disposition(&self) -> (r: String)
        ensures
            match self {
                Response::FileDownload(d) => r@ == "attachment; filename=\""@ + d.1@ + "\""@,
                _ => r@ == "inline"@,
            },
    {
        match self {
            Response::FileDownload(d) => {
                let mut s = String::from_str("attachment; filename=\"");
                s.append(d.1.as_str());
                s.append("\"");
                s
            },
            _ => String::from_str("inline"),
        }
    }

    /// The status code carried by this response.
    pub fn status(&self) -> (r: u16)
        ensures
            match self {
                Response::TextErr(d) => r == d.status,
                Response::TextOk(d) => r == d.status,
                Response::JsonOk(d) => r == d.status,
                Response::FileDownload(d) => r == d.0.status,
            },
    {
        match self {
            Response::TextErr(d) => d.status,
            Response::TextOk(d) => d.status,
            Response::JsonOk(d) => d.status,
            Response::FileDownload(d) => d.0.status,
        }
    }
}

} // verus!
