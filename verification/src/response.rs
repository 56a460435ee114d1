//! The response under construction.

use vstd::prelude::*;
use vstd::utf8::encode_utf8;

verus! {

pub const OK: u16 = 200;

/// An outbound response: the status, the headers, and the body so far.
#[derive(Debug, Clone, PartialEq, Eq)]
pub struct Response {
    pub status: u16,
    pub headers: Vec<(String, String)>,
    pub body: Vec<u8>,
}

impl Response {
    /// An empty response with status 200.
    pub fn new() -> (r: Response)
        ensures
            r.status == OK,
            r.headers@.len() == 0,
            r.body@.len() == 0,
    {
        Response { status: OK, headers: Vec::new(), body: Vec::new() }
    }

    /// Appends the UTF-8 bytes of `text` to the body.
    pub fn write_str(&mut self, text: &str)
        ensures
            final(self).status == old(self).status,
            final(self).headers == old(self).headers,
            final(self).body@ == old(self).body@ + encode_utf8(text@),
    {
        let bytes = text.as_bytes();
        let ghost before = self.body@;
        let mut i: usize = 0;
        while i < bytes.len()
            invariant
                i <= bytes.len(),
                self.status == old(self).status,
                self.headers == old(self).headers,
                self.body@ == before + bytes@.take(i as int),
            decreases bytes.len() - i,
        {
            self.body.push(bytes[i]);
            i += 1;
        }
    }
}

impl Default for Response {
    fn default() -> (r: Response)
        ensures
            r.status == OK,
            r.headers@.len() == 0,
            r.body@.len() == 0,
    {
        Response::new()
    }
}

} // verus!
