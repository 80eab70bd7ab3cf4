//! A proxied exchange as plain values: what the log format reads of an
//! HTTP request and of its response.

use vstd::prelude::*;

verus! {

/// One header: its name as the HTTP library spells it, and its raw value bytes.
pub struct HeaderField {
    pub name: String,
    pub value: Vec<u8>,
}

impl HeaderField {
    /// The name holds no line break, as no name of the HTTP library's header
    /// maps does; the log's line structure relies on it.
    pub open spec fn well_formed(self) -> bool {
        !self.name@.contains('\n')
    }
}

/// A request as it reached the proxy, with its whole body.
pub struct RequestRecord {
    /// The method, such as `GET`.
    pub method: String,
    /// The request target as the HTTP library renders it.
    pub uri: String,
    pub headers: Vec<HeaderField>,
    pub body: Vec<u8>,
}

/// A response as it came back from the target, with its whole body.
pub struct ResponseRecord {
    /// The numeric status code, such as 200.
    pub status: u16,
    pub headers: Vec<HeaderField>,
    pub body: Vec<u8>,
}

/// A request and the response it received.
pub struct LogEntry {
    pub request: RequestRecord,
    pub response: ResponseRecord,
}

} // verus!
