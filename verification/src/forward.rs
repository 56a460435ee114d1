//! What a proxy says of the request it passes on: the `x-forwarded-*`
//! headers.

use vstd::prelude::*;
use vstd::string::StringExecFns;
use crate::context::Context;
use crate::error::{error_of, Error, ErrorView, BAD_REQUEST};
use crate::request::{header_of, HeaderValue, Request};
use crate::text::{chars_of, pieces, split_on, string_of, strip, stripped};

verus! {

/// The answer where neither header names a host.
pub open spec fn no_host() -> ErrorView {
    error_of(BAD_REQUEST, "header `host` and `x-forwarded-host` are both not set"@, true)
}

/// The answer where a header's value is not text.
pub open spec fn not_text(name: Seq<char>) -> ErrorView {
    error_of(BAD_REQUEST, "header `"@ + name + "` is not a valid string"@, true)
}

/// The host that the client asked for: what `x-forwarded-host` says, or else
/// what `host` says. A header whose value is not text counts as absent.
pub open spec fn host_of(headers: Seq<(String, HeaderValue)>) -> Result<Seq<char>, ErrorView> {
    match header_of(headers, "x-forwarded-host"@) {
        Some(Some(host)) => Ok(host),
        _ => match header_of(headers, "host"@) {
            Some(Some(host)) => Ok(host),
            _ => Err(no_host()),
        },
    }
}

/// The protocol that the client used, as `x-forwarded-proto` has it:
/// nothing where the header is absent, and an error where its value is not
/// text.
pub open spec fn proto_of(headers: Seq<(String, HeaderValue)>) -> Option<
    Result<Seq<char>, ErrorView>,
> {
    match header_of(headers, "x-forwarded-proto"@) {
        None => None,
        Some(Some(proto)) => Some(Ok(proto)),
        Some(None) => Some(Err(not_text("x-forwarded-proto"@))),
    }
}

/// The entries of `x-forwarded-for`: the pieces between its commas, each
/// without the white space at its ends. None where the header is absent or
/// not text.
pub open spec fn forwarded_of(headers: Seq<(String, HeaderValue)>) -> Seq<Seq<char>> {
    match header_of(headers, "x-forwarded-for"@) {
        Some(Some(value)) => {
            let parts = split_on(value, ',');
            Seq::new(parts.len(), |i: int| stripped(parts[i]))
        },
        _ => Seq::empty(),
    }
}

/// The outcome of a lookup that can fail, over sequences.
pub open spec fn text_result(r: Result<String, Error>) -> Result<Seq<char>, ErrorView> {
    match r {
        Ok(text) => Ok(text@),
        Err(e) => Err(e@),
    }
}

/// The outcome of a lookup that can be absent or fail, over sequences.
pub open spec fn optional_text_result(r: Option<Result<String, Error>>) -> Option<
    Result<Seq<char>, ErrorView>,
> {
    match r {
        Some(inner) => Some(text_result(inner)),
        None => None,
    }
}

/// The character sequences of a list of strings.
pub open spec fn string_views(list: Seq<String>) -> Seq<Seq<char>> {
    Seq::new(list.len(), |i: int| list[i]@)
}

/// The headers that a proxy adds, read from a request.
pub trait Forward {
    /// The headers of the request.
    spec fn forward_headers(&self) -> Seq<(String, HeaderValue)>;

    /// The host that the client asked for.
    fn host(&self) -> (r: Result<String, Error>)
        ensures
            text_result(r) == host_of(self.forward_headers()),
    ;

    /// The addresses that the request passed, the client's first, as
    /// `x-forwarded-for` lists them. Whether an entry is an address is for
    /// the caller to tell.
    fn forwarded_for(&self) -> (r: Vec<String>)
        ensures
            string_views(r@) == forwarded_of(self.forward_headers()),
    ;

    /// The protocol that the client used.
    fn forwarded_proto(&self) -> (r: Option<Result<String, Error>>)
        ensures
            optional_text_result(r) == proto_of(self.forward_headers()),
    ;
}

impl Forward for Request {
    open spec fn forward_headers(&self) -> Seq<(String, HeaderValue)> {
        self.headers@
    }

    fn host(&self) -> (r: Result<String, Error>) {
        if let Some(Some(host)) = self.header("x-forwarded-host") {
            return Ok(host);
        }
        if let Some(Some(host)) = self.header("host") {
            return Ok(host);
        }
        Err(
            Error::new(
                BAD_REQUEST,
                String::from_str("header `host` and `x-forwarded-host` are both not set"),
                true,
            ),
        )
    }

    fn forwarded_for(&self) -> (r: Vec<String>) {
        let mut out: Vec<String> = Vec::new();
        if let Some(Some(value)) = self.header("x-forwarded-for") {
            let v = chars_of(value.as_str());
            let parts = pieces(&v, 0, v.len(), ',');
            assert(v@.subrange(0, v.len() as int) =~= v@);
            let ghost all = forwarded_of(self.headers@);
            let mut i: usize = 0;
            assert(string_views(out@) =~= all.take(0));
            while i < parts.len()
                invariant
                    i <= parts.len(),
                    all.len() == parts.len(),
                    forall|k: int| 0 <= k < parts.len() ==> all[k] == stripped(#[trigger] parts@[k]@),
                    string_views(out@) == all.take(i as int),
                decreases parts.len() - i,
            {
                let entry = strip(&parts[i]);
                let ghost done = string_views(out@);
                out.push(string_of(&entry));
                assert(string_views(out@) =~= done.push(entry@));
                i += 1;
                assert(string_views(out@) =~= all.take(i as int));
            }
            assert(all.take(parts.len() as int) =~= all);
        } else {
            assert(string_views(out@) =~= Seq::empty());
        }
        out
    }

    fn forwarded_proto(&self) -> (r: Option<Result<String, Error>>) {
        match self.header("x-forwarded-proto") {
            None => None,
            Some(Some(proto)) => Some(Ok(proto)),
            Some(None) => {
                let mut message = String::from_str("header `");
                message.append("x-forwarded-proto");
                message.append("` is not a valid string");
                Some(Err(Error::new(BAD_REQUEST, message, true)))
            },
        }
    }
}

impl<S> Forward for Context<S> {
    open spec fn forward_headers(&self) -> Seq<(String, HeaderValue)> {
        self.request.headers@
    }

    fn host(&self) -> (r: Result<String, Error>) {
        self.request.host()
    }

    fn forwarded_for(&self) -> (r: Vec<String>) {
        self.request.forwarded_for()
    }

    fn forwarded_proto(&self) -> (r: Option<Result<String, Error>>) {
        self.request.forwarded_proto()
    }
}

/// The client's address: the first that a proxy passed on, or else the
/// peer's own.
pub fn client<A>(forwarded: Vec<A>, remote: A) -> (r: A)
    ensures
        forwarded@.len() > 0 ==> r == forwarded@[0],
        forwarded@.len() == 0 ==> r == remote,
{
    let mut forwarded = forwarded;
    if forwarded.len() > 0 {
        forwarded.swap_remove(0)
    } else {
        remote
    }
}

} // verus!
