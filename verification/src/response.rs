//! What one request brought back.

use vstd::prelude::*;

verus! {

/// The outcome of one successful request: what the filter chain judges and
/// the reporter prints. A record lives for the handling of one payload.
#[derive(Clone, Debug)]
pub struct ResponseRecord {
    /// HTTP status code of the response.
    pub status: u16,
    /// Announced length of the content in bytes, zero where none was announced.
    pub content_length: u64,
    /// Wall-clock time from the start of the call to the response, in milliseconds.
    pub elapsed_ms: u128,
    /// The resolved URL that was requested.
    pub url: String,
    /// The response body as text.
    pub body: String,
}

/// The mathematical content of a [`ResponseRecord`].
pub struct ResponseRecordView {
    pub status: u16,
    pub content_length: u64,
    pub elapsed_ms: u128,
    pub url: Seq<char>,
    pub body: Seq<char>,
}

impl View for ResponseRecord {
    type V = ResponseRecordView;

    open spec fn view(&self) -> ResponseRecordView {
        ResponseRecordView {
            status: self.status,
            content_length: self.content_length,
            elapsed_ms: self.elapsed_ms,
            url: self.url@,
            body: self.body@,
        }
    }
}

impl ResponseRecord {
    /// A record of the given parts. A response that announced no content
    /// length counts as one of length zero.
    pub fn new(
        status: u16,
        content_length: Option<u64>,
        elapsed_ms: u128,
        url: String,
        body: String,
    ) -> (record: ResponseRecord)
        ensures
            record@ == (ResponseRecordView {
                status,
                content_length: match content_length {
                    Some(length) => length,
                    None => 0,
                },
                elapsed_ms,
                url: url@,
                body: body@,
            }),
    {
        let content_length = match content_length {
            Some(length) => length,
            None => 0,
        };
        ResponseRecord { status, content_length, elapsed_ms, url, body }
    }
}

} // verus!
