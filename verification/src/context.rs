//! What travels through a chain with one request.

use vstd::prelude::*;
use vstd::string::StringExecFns;
use crate::assoc::{absent, assoc, first_at, lemma_assoc_absent, lemma_assoc_present, lemma_assoc_push, lemma_assoc_update};
use crate::request::{text_view, Request};
use crate::response::Response;

verus! {

/// A namespace of the store. Values kept under one symbol are out of reach
/// of every other, whatever their names.
#[derive(Debug, Clone, Copy, PartialEq, Eq, Structural)]
pub struct Symbol {
    reserved: bool,
    id: u64,
}

impl Symbol {
    /// The namespace of the given number.
    pub closed spec fn of(id: u64) -> Symbol {
        Symbol { reserved: false, id }
    }

    /// The namespace of the variables that the router takes from a path.
    pub closed spec fn router() -> Symbol {
        Symbol { reserved: true, id: 0 }
    }

    /// A namespace for a middleware's own values.
    pub fn new(id: u64) -> (s: Symbol)
        ensures
            s == Symbol::of(id),
    {
        Symbol { reserved: false, id }
    }

    pub(crate) fn for_router() -> (s: Symbol)
        ensures
            s == Symbol::router(),
    {
        Symbol { reserved: true, id: 0 }
    }

    /// No namespace that a middleware can make is the router's, and two of
    /// them are the same only where their numbers are.
    pub proof fn lemma_apart(a: u64, b: u64)
        ensures
            Symbol::of(a) != Symbol::router(),
            Symbol::of(a) == Symbol::of(b) <==> a == b,
    {
    }
}

/// A store of named values, each under a namespace.
#[derive(Debug)]
pub struct Store {
    entries: Vec<(Symbol, String, String)>,
}

/// The keys and values of a list of stored entries.
pub open spec fn stored_pairs(entries: Seq<(Symbol, String, String)>) -> Seq<
    ((Symbol, Seq<char>), Seq<char>),
> {
    Seq::new(entries.len(), |i: int| ((entries[i].0, entries[i].1@), entries[i].2@))
}

/// What stands under a namespace and a name, if anything does.
pub open spec fn lookup(
    store: Map<(Symbol, Seq<char>), Seq<char>>,
    symbol: Symbol,
    name: Seq<char>,
) -> Option<Seq<char>> {
    if store.contains_key((symbol, name)) {
        Some(store[(symbol, name)])
    } else {
        None
    }
}

/// The store without values.
pub open spec fn nothing_stored() -> Map<(Symbol, Seq<char>), Seq<char>> {
    Map::empty()
}

impl View for Store {
    type V = Map<(Symbol, Seq<char>), Seq<char>>;

    closed spec fn view(&self) -> Map<(Symbol, Seq<char>), Seq<char>> {
        assoc(stored_pairs(self.entries@))
    }
}

impl Store {
    /// A store without values.
    pub fn new() -> (s: Store)
        ensures
            s@ == nothing_stored(),
    {
        let s = Store { entries: Vec::new() };
        s
    }

    /// Where the entry of this namespace and name stands, if there is one.
    fn find(&self, symbol: Symbol, name: &String) -> (r: Option<usize>)
        ensures
            match r {
                Some(i) => first_at(stored_pairs(self.entries@), (symbol, name@), i as int),
                None => absent(stored_pairs(self.entries@), (symbol, name@)),
            },
    {
        let mut i: usize = 0;
        while i < self.entries.len()
            invariant
                i <= self.entries.len(),
                forall|j: int| 0 <= j < i ==> stored_pairs(self.entries@)[j].0 != (symbol, name@),
            decreases self.entries.len() - i,
        {
            if self.entries[i].0 == symbol && self.entries[i].1 == *name {
                return Some(i);
            }
            i += 1;
        }
        None
    }

    /// Keeps `value` under `name` in the namespace `symbol`, in place of what
    /// stood there, which is returned. Nothing else in the store changes.
    pub fn put(&mut self, symbol: Symbol, name: &str, value: String) -> (previous: Option<String>)
        ensures
            final(self)@ == old(self)@.insert((symbol, name@), value@),
            text_view(previous) == lookup(old(self)@, symbol, name@),
    {
        let key = String::from_str(name);
        let ghost before = stored_pairs(self.entries@);
        match self.find(symbol, &key) {
            Some(i) => {
                let previous = self.entries[i].2.clone();
                proof {
                    lemma_assoc_present(before, (symbol, name@), i as int);
                    lemma_assoc_update(before, (symbol, name@), i as int, value@);
                }
                self.entries.set(i, (symbol, key, value));
                assert(stored_pairs(self.entries@) =~= before.update(
                    i as int,
                    ((symbol, name@), value@),
                ));
                Some(previous)
            },
            None => {
                proof {
                    lemma_assoc_absent(before, (symbol, name@));
                    lemma_assoc_push(before, (symbol, name@), value@);
                }
                self.entries.push((symbol, key, value));
                assert(stored_pairs(self.entries@) =~= before.push(((symbol, name@), value@)));
                None
            },
        }
    }

    /// The value under `name` in the namespace `symbol`.
    pub fn get(&self, symbol: Symbol, name: &str) -> (r: Option<String>)
        ensures
            text_view(r) == lookup(self@, symbol, name@),
    {
        let key = String::from_str(name);
        let ghost entries = stored_pairs(self.entries@);
        match self.find(symbol, &key) {
            Some(i) => {
                proof {
                    lemma_assoc_present(entries, (symbol, name@), i as int);
                }
                Some(self.entries[i].2.clone())
            },
            None => {
                proof {
                    lemma_assoc_absent(entries, (symbol, name@));
                }
                None
            },
        }
    }
}

/// The request, the response under construction, the application's state
/// for this request, the peer's address, and a store of named values.
#[derive(Debug)]
pub struct Context<S> {
    pub request: Request,
    pub response: Response,
    pub state: S,
    pub peer_addr: String,
    pub storage: Store,
}

/// Whether a context is as new: an empty response with status 200, and
/// nothing in the store.
pub open spec fn fresh<S>(ctx: Context<S>) -> bool {
    &&& ctx.response.status == crate::response::OK
    &&& ctx.response.headers@.len() == 0
    &&& ctx.response.body@.len() == 0
    &&& ctx.storage@ == nothing_stored()
}

impl<S> Context<S> {
    /// A context for one request, with an empty response and an empty store.
    pub fn new(request: Request, state: S, peer_addr: String) -> (ctx: Context<S>)
        ensures
            ctx.request == request,
            ctx.state == state,
            ctx.peer_addr == peer_addr,
            fresh(ctx),
    {
        Context { request, response: Response::new(), state, peer_addr, storage: Store::new() }
    }

    /// Keeps `value` under `name` in the namespace `symbol`, in place of what
    /// stood there, which is returned. Nothing else in the context changes.
    pub fn store(&mut self, symbol: Symbol, name: &str, value: String) -> (previous: Option<String>)
        ensures
            final(self).storage@ == old(self).storage@.insert((symbol, name@), value@),
            text_view(previous) == lookup(old(self).storage@, symbol, name@),
            final(self).request == old(self).request,
            final(self).response == old(self).response,
            final(self).state == old(self).state,
            final(self).peer_addr == old(self).peer_addr,
    {
        self.storage.put(symbol, name, value)
    }

    /// The value under `name` in the namespace `symbol`.
    pub fn load(&self, symbol: Symbol, name: &str) -> (r: Option<String>)
        ensures
            text_view(r) == lookup(self.storage@, symbol, name@),
    {
        self.storage.get(symbol, name)
    }

    /// The request.
    pub fn request(&self) -> (r: &Request)
        ensures
            *r == self.request,
    {
        &self.request
    }

    /// The response under construction.
    pub fn response(&self) -> (r: &Response)
        ensures
            *r == self.response,
    {
        &self.response
    }

    /// The application's state for this request.
    pub fn state(&self) -> (r: &S)
        ensures
            *r == self.state,
    {
        &self.state
    }

    /// The path of the request's target, as it was sent.
    pub fn uri(&self) -> (r: &str)
        ensures
            r@ == self.request.path@,
    {
        self.request.path.as_str()
    }
}

impl Context<()> {
    /// A context without state, from the peer `127.0.0.1:8080`.
    pub fn fake(request: Request) -> (ctx: Context<()>)
        ensures
            ctx.request == request,
            ctx.peer_addr@ == "127.0.0.1:8080"@,
            fresh(ctx),
    {
        Context::new(request, (), String::from_str("127.0.0.1:8080"))
    }
}

} // verus!
