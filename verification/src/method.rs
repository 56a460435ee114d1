//! Request methods.

use vstd::prelude::*;
use vstd::string::StringExecFns;

verus! {

/// A request method, known by its token (`GET`, `POST`, or any other a
/// client may send). Two methods are the same when their tokens are equal,
/// case included.
#[derive(Debug, PartialEq, Eq)]
pub struct Method {
    name: String,
}

impl View for Method {
    type V = Seq<char>;

    closed spec fn view(&self) -> Seq<char> {
        self.name@
    }
}

impl Method {
    /// The method with the given token.
    pub fn new(name: &str) -> (m: Method)
        ensures
            m@ == name@,
    {
        Method { name: String::from_str(name) }
    }

    pub fn get() -> (m: Method)
        ensures
            m@ == "GET"@,
    {
        Method::new("GET")
    }

    pub fn post() -> (m: Method)
        ensures
            m@ == "POST"@,
    {
        Method::new("POST")
    }

    pub fn put() -> (m: Method)
        ensures
            m@ == "PUT"@,
    {
        Method::new("PUT")
    }

    pub fn patch() -> (m: Method)
        ensures
            m@ == "PATCH"@,
    {
        Method::new("PATCH")
    }

    pub fn options() -> (m: Method)
        ensures
            m@ == "OPTIONS"@,
    {
        Method::new("OPTIONS")
    }

    pub fn delete() -> (m: Method)
        ensures
            m@ == "DELETE"@,
    {
        Method::new("DELETE")
    }

    pub fn head() -> (m: Method)
        ensures
            m@ == "HEAD"@,
    {
        Method::new("HEAD")
    }

    pub fn trace() -> (m: Method)
        ensures
            m@ == "TRACE"@,
    {
        Method::new("TRACE")
    }

    pub fn connect() -> (m: Method)
        ensures
            m@ == "CONNECT"@,
    {
        Method::new("CONNECT")
    }

    /// The method's token.
    pub fn as_str(&self) -> (s: &str)
        ensures
            s@ == self@,
    {
        self.name.as_str()
    }

    /// Whether `other` is this method.
    pub fn same(&self, other: &Method) -> (r: bool)
        ensures
            r == (self@ == other@),
    {
        self.name == other.name
    }

    /// A second value for the same method.
    pub fn duplicate(&self) -> (m: Method)
        ensures
            m@ == self@,
    {
        Method { name: self.name.clone() }
    }
}

/// The tokens of the nine standard methods, in the order in which
/// [`all_methods`] lists them.
pub open spec fn standard_tokens() -> Seq<Seq<char>> {
    seq![
        "GET"@,
        "POST"@,
        "PUT"@,
        "PATCH"@,
        "OPTIONS"@,
        "DELETE"@,
        "HEAD"@,
        "TRACE"@,
        "CONNECT"@,
    ]
}

/// The tokens of a list of methods.
pub open spec fn method_views(methods: Seq<Method>) -> Seq<Seq<char>> {
    Seq::new(methods.len(), |i: int| methods[i]@)
}

/// The nine standard methods.
pub fn all_methods() -> (all: Vec<Method>)
    ensures
        method_views(all@) == standard_tokens(),
{
    let mut all: Vec<Method> = Vec::new();
    all.push(Method::get());
    all.push(Method::post());
    all.push(Method::put());
    all.push(Method::patch());
    all.push(Method::options());
    all.push(Method::delete());
    all.push(Method::head());
    all.push(Method::trace());
    all.push(Method::connect());
    all
}

} // verus!
