//! The request as the core sees it.

use vstd::prelude::*;
use vstd::string::StringExecFns;
use crate::method::Method;
use crate::text::chars_of;

verus! {

/// The value of a header: text, or bytes that are none.
#[derive(Debug, Clone, PartialEq, Eq)]
pub enum HeaderValue {
    Text(String),
    Opaque(Vec<u8>),
}

/// The text of a header value, or `None` for one that is not text.
pub open spec fn value_text(value: HeaderValue) -> Option<Seq<char>> {
    match value {
        HeaderValue::Text(text) => Some(text@),
        HeaderValue::Opaque(_) => None,
    }
}

/// The code of a character, with that of the lower-case letter for an
/// upper-case letter of ASCII.
pub open spec fn folded(c: char) -> u32 {
    let v = c as u32;
    if 0x41 <= v <= 0x5A {
        (v + 0x20) as u32
    } else {
        v
    }
}

/// Whether two header names are the same: the same characters, the case of
/// ASCII letters aside.
pub open spec fn same_name(a: Seq<char>, b: Seq<char>) -> bool {
    &&& a.len() == b.len()
    &&& forall|i: int| 0 <= i < a.len() ==> folded(a[i]) == folded(b[i])
}

/// An inbound request: the method, the path and the query of its target,
/// its headers in the order received, and its body.
///
/// A header is found by its name whatever the case of its letters.
#[derive(Debug)]
pub struct Request {
    pub method: Method,
    pub path: String,
    pub query: String,
    pub headers: Vec<(String, HeaderValue)>,
    pub body: Vec<u8>,
}

/// The first header named `name`: its text, or `None` inside where its
/// value is not text. `None` where no header has that name.
pub open spec fn header_of(headers: Seq<(String, HeaderValue)>, name: Seq<char>) -> Option<
    Option<Seq<char>>,
>
    decreases headers.len(),
{
    if headers.len() == 0 {
        None
    } else if same_name(headers[0].0@, name) {
        Some(value_text(headers[0].1))
    } else {
        header_of(headers.drop_first(), name)
    }
}

/// The characters of a string that may be absent.
pub open spec fn text_view(text: Option<String>) -> Option<Seq<char>> {
    match text {
        Some(s) => Some(s@),
        None => None,
    }
}

/// The characters of a header that was looked up.
pub open spec fn found_view(found: Option<Option<String>>) -> Option<Option<Seq<char>>> {
    match found {
        Some(value) => Some(text_view(value)),
        None => None,
    }
}

/// The code of a character, folded as [`folded`] has it.
fn fold(c: char) -> (v: u32)
    ensures
        v == folded(c),
{
    let v: u32 = c as u32;
    if 0x41 <= v && v <= 0x5A {
        v + 0x20
    } else {
        v
    }
}

/// Whether two header names are the same, the case of ASCII letters aside.
pub fn names_match(a: &str, b: &str) -> (r: bool)
    ensures
        r == same_name(a@, b@),
{
    let left = chars_of(a);
    let right = chars_of(b);
    if left.len() != right.len() {
        return false;
    }
    let mut i: usize = 0;
    while i < left.len()
        invariant
            i <= left.len(),
            left.len() == right.len(),
            left@ == a@,
            right@ == b@,
            forall|k: int| 0 <= k < i ==> folded(a@[k]) == folded(b@[k]),
        decreases left.len() - i,
    {
        if fold(left[i]) != fold(right[i]) {
            assert(folded(a@[i as int]) != folded(b@[i as int]));
            return false;
        }
        i += 1;
    }
    true
}

impl Request {
    /// A `GET` request for the root, without query, headers or body.
    pub fn new() -> (r: Request)
        ensures
            r.method@ == "GET"@,
            r.path@ == "/"@,
            r.query@.len() == 0,
            r.headers@.len() == 0,
            r.body@.len() == 0,
    {
        Request {
            method: Method::get(),
            path: String::from_str("/"),
            query: String::new(),
            headers: Vec::new(),
            body: Vec::new(),
        }
    }

    /// The first header named `name`: its text, or `None` inside where its
    /// value is not text. `None` where no header has that name.
    pub fn header(&self, name: &str) -> (r: Option<Option<String>>)
        ensures
            found_view(r) == header_of(self.headers@, name@),
    {
        let mut i: usize = 0;
        assert(self.headers@.skip(0) =~= self.headers@);
        while i < self.headers.len()
            invariant
                i <= self.headers.len(),
                header_of(self.headers@, name@) == header_of(self.headers@.skip(i as int), name@),
            decreases self.headers.len() - i,
        {
            assert(self.headers@.skip(i as int).drop_first() =~= self.headers@.skip(i as int + 1));
            if names_match(self.headers[i].0.as_str(), name) {
                return Some(
                    match &self.headers[i].1 {
                        HeaderValue::Text(text) => Some(text.clone()),
                        HeaderValue::Opaque(_) => None,
                    },
                );
            }
            i += 1;
        }
        None
    }
}

impl Default for Request {
    fn default() -> (r: Request)
        ensures
            r.method@ == "GET"@,
            r.path@ == "/"@,
            r.query@.len() == 0,
            r.headers@.len() == 0,
            r.body@.len() == 0,
    {
        Request::new()
    }
}

} // verus!
