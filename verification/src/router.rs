//! A configurable, nestable router.
//!
//! Routes are registered on a [`Router`], which may hold middlewares of its
//! own and other routers below a prefix. [`Router::routes`] turns it, once,
//! into a [`RouteEndpoint`]: one table of routes for each method, which is
//! read-only from then on and answers every request.
//!
//! Handlers live in one list. Everything else names a handler by its place
//! in that list, so a middleware that guards many routes is held once.

pub mod decode;
pub mod endpoint;
pub mod err;
pub mod index;
pub mod laws;
pub mod param;
pub mod path;
pub mod table;

use vstd::prelude::*;
use vstd::string::StringExecFns;
use crate::chain::{chain_views, flat, join_all, Chain};
use crate::method::{all_methods, method_views, standard_tokens, Method};
pub use crate::router::endpoint::RouteEndpoint;
pub use crate::router::param::RouterParam;
use crate::router::endpoint::{built, lemma_built_stays, registered, tables_view};
use crate::router::err::RouterError;
use crate::router::path::{join_path, joined, str_views};

verus! {

/// One registered route: a method, a path, and the chain that serves it.
#[derive(Debug)]
pub struct Entry {
    pub method: Method,
    pub path: String,
    pub chain: Chain<usize>,
}

/// An [`Entry`] over sequences.
pub struct EntryView {
    pub method: Seq<char>,
    pub path: Seq<char>,
    pub chain: Seq<usize>,
}

impl View for Entry {
    type V = EntryView;

    open spec fn view(&self) -> EntryView {
        EntryView { method: self.method@, path: self.path@, chain: self.chain@ }
    }
}

/// The views of a list of entries.
pub open spec fn entry_views(entries: Seq<Entry>) -> Seq<EntryView> {
    Seq::new(entries.len(), |i: int| entries[i]@)
}

/// Whether every number of `chain` is below `n`.
pub open spec fn ids_below(chain: Seq<usize>, n: nat) -> bool {
    forall|k: int| 0 <= k < chain.len() ==> chain[k] < n
}

/// A router under construction.
#[derive(Debug)]
pub struct Router<H> {
    handlers: Vec<H>,
    middlewares: Vec<usize>,
    endpoints: Vec<Entry>,
}

/// What a [`Router`] holds: its handlers, which of them guard every route,
/// and the routes in the order of their registration.
pub struct RouterView<H> {
    pub handlers: Seq<H>,
    pub middlewares: Seq<usize>,
    pub endpoints: Seq<EntryView>,
}

impl<H> RouterView<H> {
    /// Whether every number names a handler of the router.
    pub open spec fn sound(self) -> bool {
        &&& ids_below(self.middlewares, self.handlers.len())
        &&& forall|i: int|
            0 <= i < self.endpoints.len() ==> ids_below(
                (#[trigger] self.endpoints[i]).chain,
                self.handlers.len(),
            )
    }
}

impl<H> View for Router<H> {
    type V = RouterView<H>;

    closed spec fn view(&self) -> RouterView<H> {
        RouterView {
            handlers: self.handlers@,
            middlewares: self.middlewares@,
            endpoints: entry_views(self.endpoints@),
        }
    }
}

/// The routes of a router as they stand below `prefix`: each path is the
/// prefix joined with the route's own, and each chain is the router's
/// middlewares, in the order in which they were added, around the route's
/// own chain.
pub open spec fn mounted<H>(r: RouterView<H>, prefix: Seq<char>) -> Seq<EntryView> {
    Seq::new(
        r.endpoints.len(),
        |i: int|
            EntryView {
                method: r.endpoints[i].method,
                path: joined(seq![prefix, r.endpoints[i].path]),
                chain: r.middlewares + r.endpoints[i].chain,
            },
    )
}

/// `chain` with each number raised by `by`.
pub open spec fn raised(chain: Seq<usize>, by: nat) -> Seq<usize> {
    Seq::new(chain.len(), |k: int| (chain[k] + by) as usize)
}

/// The entries with each number of their chains raised by `by`.
pub open spec fn shifted(entries: Seq<EntryView>, by: nat) -> Seq<EntryView> {
    Seq::new(
        entries.len(),
        |i: int|
            EntryView {
                method: entries[i].method,
                path: entries[i].path,
                chain: raised(entries[i].chain, by),
            },
    )
}

/// The entries whose method is among `methods`, in their order.
pub open spec fn kept(entries: Seq<EntryView>, methods: Seq<Seq<char>>) -> Seq<EntryView>
    decreases entries.len(),
{
    if entries.len() == 0 {
        Seq::empty()
    } else {
        let init = kept(entries.drop_last(), methods);
        if methods.contains(entries.last().method) {
            init.push(entries.last())
        } else {
            init
        }
    }
}

/// A router after `child` was mounted below `prefix` for the given methods.
/// The child's handlers follow the parent's own, so the numbers in the
/// child's routes rise by the count of the parent's handlers. Of the child's
/// mounted routes those stay whose method is among `methods`; the child's
/// middlewares are in their chains, not among the parent's.
pub open spec fn included<H>(
    parent: RouterView<H>,
    prefix: Seq<char>,
    child: RouterView<H>,
    methods: Seq<Seq<char>>,
) -> RouterView<H> {
    RouterView {
        handlers: parent.handlers + child.handlers,
        middlewares: parent.middlewares,
        endpoints: parent.endpoints + kept(
            shifted(mounted(child, prefix), parent.handlers.len()),
            methods,
        ),
    }
}

/// A router after one handler was registered as the end point of `path`
/// for each of `methods`.
pub open spec fn ended<H>(
    r: RouterView<H>,
    methods: Seq<Seq<char>>,
    path: Seq<char>,
    endpoint: H,
) -> RouterView<H> {
    RouterView {
        handlers: r.handlers.push(endpoint),
        middlewares: r.middlewares,
        endpoints: r.endpoints + Seq::new(
            methods.len(),
            |i: int|
                EntryView { method: methods[i], path: path, chain: seq![r.handlers.len() as usize] },
        ),
    }
}

/// A router after one middleware was added around all its routes.
pub open spec fn gated<H>(r: RouterView<H>, middleware: H) -> RouterView<H> {
    RouterView {
        handlers: r.handlers.push(middleware),
        middlewares: r.middlewares.push(r.handlers.len() as usize),
        endpoints: r.endpoints,
    }
}

/// Nesting single layers around a chain puts them in front of it.
proof fn lemma_flat_units(units: Seq<Seq<usize>>, ids: Seq<usize>, chain: Seq<usize>)
    requires
        units.len() == ids.len(),
        forall|k: int| 0 <= k < ids.len() ==> units[k] == seq![ids[k]],
    ensures
        flat(units.push(chain)) == ids + chain,
    decreases units.len(),
{
    let all = units.push(chain);
    if units.len() == 0 {
        assert(flat(all.drop_first()) =~= Seq::empty());
    } else {
        assert(all.drop_first() =~= units.drop_first().push(chain));
        lemma_flat_units(units.drop_first(), ids.drop_first(), chain);
    }
}

/// Whether `m` is among `methods`.
fn listed(methods: &[Method], m: &Method) -> (r: bool)
    ensures
        r == method_views(methods@).contains(m@),
{
    let mut i: usize = 0;
    while i < methods.len()
        invariant
            i <= methods.len(),
            forall|k: int| 0 <= k < i ==> method_views(methods@)[k] != m@,
        decreases methods.len() - i,
    {
        if methods[i].same(m) {
            assert(method_views(methods@)[i as int] == m@);
            return true;
        }
        i += 1;
    }
    false
}

/// `chain` with each number raised by `by`.
fn raise(chain: &Chain<usize>, by: usize) -> (r: Chain<usize>)
    requires
        forall|k: int| 0 <= k < chain@.len() ==> chain@[k] + by <= usize::MAX,
    ensures
        r@ == raised(chain@, by as nat),
{
    let mut out: Vec<usize> = Vec::new();
    let mut k: usize = 0;
    while k < chain.len()
        invariant
            k <= chain@.len(),
            forall|j: int| 0 <= j < chain@.len() ==> chain@[j] + by <= usize::MAX,
            out@ == raised(chain@, by as nat).take(k as int),
        decreases chain@.len() - k,
    {
        let id = *chain.layer(k).unwrap();
        out.push(id + by);
        k += 1;
        assert(out@ =~= raised(chain@, by as nat).take(k as int));
    }
    assert(raised(chain@, by as nat).take(chain@.len() as int) =~= raised(chain@, by as nat));
    Chain::of(out)
}

impl<H> Router<H> {
    #[verifier::type_invariant]
    spec fn numbered(self) -> bool {
        self@.sound()
    }

    /// A router without handlers or routes.
    pub fn new() -> (r: Router<H>)
        ensures
            r@.handlers.len() == 0,
            r@.middlewares.len() == 0,
            r@.endpoints.len() == 0,
    {
        Router { handlers: Vec::new(), middlewares: Vec::new(), endpoints: Vec::new() }
    }

    /// Adds a middleware around every route of this router, inside the
    /// middlewares that were added before.
    pub fn gate(&mut self, middleware: H) -> (me: &mut Self)
        ensures
            me@ == gated(old(self)@, middleware),
            *final(self) == *final(me),
    {
        let mut taken: Router<H> = Router::new();
        core::mem::swap(self, &mut taken);
        proof {
            use_type_invariant(&taken);
        }
        let ghost before = taken@;
        let Router { handlers, middlewares, endpoints } = taken;
        let mut handlers = handlers;
        let mut middlewares = middlewares;
        let id = handlers.len();
        handlers.push(middleware);
        middlewares.push(id);
        proof {
            assert forall|i: int| 0 <= i < endpoints@.len() implies ids_below(
                (#[trigger] entry_views(endpoints@)[i]).chain,
                handlers@.len(),
            ) by {
                assert(ids_below(before.endpoints[i].chain, before.handlers.len()));
            }
        }
        *self = Router { handlers, middlewares, endpoints };
        self
    }

    /// [`Router::gate`], for a closure.
    pub fn gate_fn(&mut self, middleware: H) -> (me: &mut Self)
        ensures
            me@ == gated(old(self)@, middleware),
            *final(self) == *final(me),
    {
        self.gate(middleware)
    }

    /// Registers `endpoint` as the end point of `path` for each of `methods`.
    pub fn end(&mut self, methods: &[Method], path: &str, endpoint: H) -> (me: &mut Self)
        ensures
            me@ == ended(old(self)@, method_views(methods@), path@, endpoint),
            *final(self) == *final(me),
    {
        let mut taken: Router<H> = Router::new();
        core::mem::swap(self, &mut taken);
        proof {
            use_type_invariant(&taken);
        }
        let ghost before = taken@;
        let ghost after = ended(before, method_views(methods@), path@, endpoint);
        let Router { handlers, middlewares, endpoints } = taken;
        let mut handlers = handlers;
        let mut endpoints = endpoints;
        let id = handlers.len();
        handlers.push(endpoint);
        let mut i: usize = 0;
        while i < methods.len()
            invariant
                i <= methods.len(),
                id == before.handlers.len(),
                id < handlers@.len(),
                after == ended(before, method_views(methods@), path@, endpoint),
                endpoints@.len() == before.endpoints.len() + i,
                entry_views(endpoints@) == after.endpoints.take(before.endpoints.len() + i),
            decreases methods.len() - i,
        {
            endpoints.push(
                Entry {
                    method: methods[i].duplicate(),
                    path: String::from_str(path),
                    chain: Chain::unit(id),
                },
            );
            i += 1;
        }
        proof {
            assert(after.endpoints.take(before.endpoints.len() + methods.len()) =~= after.endpoints);
            assert forall|k: int| 0 <= k < endpoints@.len() implies ids_below(
                (#[trigger] entry_views(endpoints@)[k]).chain,
                handlers@.len(),
            ) by {
                if k < before.endpoints.len() {
                    assert(ids_below(before.endpoints[k].chain, before.handlers.len()));
                }
            }
        }
        *self = Router { handlers, middlewares, endpoints };
        self
    }

    /// [`Router::end`], for a function.
    pub fn end_fn(&mut self, path: &str, methods: &[Method], endpoint: H) -> (me: &mut Self)
        ensures
            me@ == ended(old(self)@, method_views(methods@), path@, endpoint),
            *final(self) == *final(me),
    {
        self.end(methods, path, endpoint)
    }

    /// The routes of this router as they stand below `prefix`.
    pub fn on(&self, prefix: &str) -> (entries: Vec<Entry>)
        ensures
            entry_views(entries@) == mounted(self@, prefix@),
    {
        let mut entries: Vec<Entry> = Vec::new();
        let mut i: usize = 0;
        while i < self.endpoints.len()
            invariant
                i <= self.endpoints.len(),
                entry_views(entries@) == mounted(self@, prefix@).take(i as int),
            decreases self.endpoints.len() - i,
        {
            let entry = &self.endpoints[i];
            let mut layers: Vec<Chain<usize>> = Vec::new();
            let mut k: usize = 0;
            while k < self.middlewares.len()
                invariant
                    k <= self.middlewares.len(),
                    layers@.len() == k,
                    forall|j: int|
                        0 <= j < k ==> (#[trigger] layers@[j])@ == seq![self.middlewares@[j]],
                decreases self.middlewares.len() - k,
            {
                layers.push(Chain::unit(self.middlewares[k]));
                k += 1;
            }
            let ghost units = chain_views(layers@);
            layers.push(entry.chain.duplicate());
            proof {
                assert forall|j: int| 0 <= j < self.middlewares@.len() implies units[j] == seq![
                    self.middlewares@[j],
                ] by {}
                assert(chain_views(layers@) =~= units.push(entry.chain@));
                lemma_flat_units(units, self.middlewares@, entry.chain@);
            }
            let chain = join_all(layers);
            let parts: Vec<&str> = vec![prefix, entry.path.as_str()];
            let path = join_path(parts.as_slice());
            let ghost done = entry_views(entries@);
            let added = Entry { method: entry.method.duplicate(), path, chain };
            proof {
                assert(str_views(parts@) =~= seq![prefix@, entry.path@]);
            }
            entries.push(added);
            i += 1;
            assert(entry_views(entries@) =~= done.push(added@));
        }
        entries
    }
}

impl<H> Router<H> {
    /// Registers `endpoint` for `GET` requests of `path`.
    pub fn get(&mut self, path: &str, endpoint: H) -> (me: &mut Self)
        ensures
            me@ == ended(old(self)@, seq!["GET"@], path@, endpoint),
            *final(self) == *final(me),
    {
        let methods: Vec<Method> = vec![Method::get()];
        assert(method_views(methods@) =~= seq!["GET"@]);
        self.end(methods.as_slice(), path, endpoint)
    }

    /// [`Router::get`], for a function.
    pub fn get_fn(&mut self, path: &str, endpoint: H) -> (me: &mut Self)
        ensures
            me@ == ended(old(self)@, seq!["GET"@], path@, endpoint),
            *final(self) == *final(me),
    {
        self.get(path, endpoint)
    }

    /// Registers `endpoint` for `POST` requests of `path`.
    pub fn post(&mut self, path: &str, endpoint: H) -> (me: &mut Self)
        ensures
            me@ == ended(old(self)@, seq!["POST"@], path@, endpoint),
            *final(self) == *final(me),
    {
        let methods: Vec<Method> = vec![Method::post()];
        assert(method_views(methods@) =~= seq!["POST"@]);
        self.end(methods.as_slice(), path, endpoint)
    }

    /// [`Router::post`], for a function.
    pub fn post_fn(&mut self, path: &str, endpoint: H) -> (me: &mut Self)
        ensures
            me@ == ended(old(self)@, seq!["POST"@], path@, endpoint),
            *final(self) == *final(me),
    {
        self.post(path, endpoint)
    }

    /// Registers `endpoint` for `PUT` requests of `path`.
    pub fn put(&mut self, path: &str, endpoint: H) -> (me: &mut Self)
        ensures
            me@ == ended(old(self)@, seq!["PUT"@], path@, endpoint),
            *final(self) == *final(me),
    {
        let methods: Vec<Method> = vec![Method::put()];
        assert(method_views(methods@) =~= seq!["PUT"@]);
        self.end(methods.as_slice(), path, endpoint)
    }

    /// [`Router::put`], for a function.
    pub fn put_fn(&mut self, path: &str, endpoint: H) -> (me: &mut Self)
        ensures
            me@ == ended(old(self)@, seq!["PUT"@], path@, endpoint),
            *final(self) == *final(me),
    {
        self.put(path, endpoint)
    }

    /// Registers `endpoint` for `PATCH` requests of `path`.
    pub fn patch(&mut self, path: &str, endpoint: H) -> (me: &mut Self)
        ensures
            me@ == ended(old(self)@, seq!["PATCH"@], path@, endpoint),
            *final(self) == *final(me),
    {
        let methods: Vec<Method> = vec![Method::patch()];
        assert(method_views(methods@) =~= seq!["PATCH"@]);
        self.end(methods.as_slice(), path, endpoint)
    }

    /// [`Router::patch`], for a function.
    pub fn patch_fn(&mut self, path: &str, endpoint: H) -> (me: &mut Self)
        ensures
            me@ == ended(old(self)@, seq!["PATCH"@], path@, endpoint),
            *final(self) == *final(me),
    {
        self.patch(path, endpoint)
    }

    /// Registers `endpoint` for `OPTIONS` requests of `path`.
    pub fn options(&mut self, path: &str, endpoint: H) -> (me: &mut Self)
        ensures
            me@ == ended(old(self)@, seq!["OPTIONS"@], path@, endpoint),
            *final(self) == *final(me),
    {
        let methods: Vec<Method> = vec![Method::options()];
        assert(method_views(methods@) =~= seq!["OPTIONS"@]);
        self.end(methods.as_slice(), path, endpoint)
    }

    /// [`Router::options`], for a function.
    pub fn options_fn(&mut self, path: &str, endpoint: H) -> (me: &mut Self)
        ensures
            me@ == ended(old(self)@, seq!["OPTIONS"@], path@, endpoint),
            *final(self) == *final(me),
    {
        self.options(path, endpoint)
    }

    /// Registers `endpoint` for `DELETE` requests of `path`.
    pub fn delete(&mut self, path: &str, endpoint: H) -> (me: &mut Self)
        ensures
            me@ == ended(old(self)@, seq!["DELETE"@], path@, endpoint),
            *final(self) == *final(me),
    {
        let methods: Vec<Method> = vec![Method::delete()];
        assert(method_views(methods@) =~= seq!["DELETE"@]);
        self.end(methods.as_slice(), path, endpoint)
    }

    /// [`Router::delete`], for a function.
    pub fn delete_fn(&mut self, path: &str, endpoint: H) -> (me: &mut Self)
        ensures
            me@ == ended(old(self)@, seq!["DELETE"@], path@, endpoint),
            *final(self) == *final(me),
    {
        self.delete(path, endpoint)
    }

    /// Registers `endpoint` for `HEAD` requests of `path`.
    pub fn head(&mut self, path: &str, endpoint: H) -> (me: &mut Self)
        ensures
            me@ == ended(old(self)@, seq!["HEAD"@], path@, endpoint),
            *final(self) == *final(me),
    {
        let methods: Vec<Method> = vec![Method::head()];
        assert(method_views(methods@) =~= seq!["HEAD"@]);
        self.end(methods.as_slice(), path, endpoint)
    }

    /// [`Router::head`], for a function.
    pub fn head_fn(&mut self, path: &str, endpoint: H) -> (me: &mut Self)
        ensures
            me@ == ended(old(self)@, seq!["HEAD"@], path@, endpoint),
            *final(self) == *final(me),
    {
        self.head(path, endpoint)
    }

    /// Registers `endpoint` for `TRACE` requests of `path`.
    pub fn trace(&mut self, path: &str, endpoint: H) -> (me: &mut Self)
        ensures
            me@ == ended(old(self)@, seq!["TRACE"@], path@, endpoint),
            *final(self) == *final(me),
    {
        let methods: Vec<Method> = vec![Method::trace()];
        assert(method_views(methods@) =~= seq!["TRACE"@]);
        self.end(methods.as_slice(), path, endpoint)
    }

    /// [`Router::trace`], for a function.
    pub fn trace_fn(&mut self, path: &str, endpoint: H) -> (me: &mut Self)
        ensures
            me@ == ended(old(self)@, seq!["TRACE"@], path@, endpoint),
            *final(self) == *final(me),
    {
        self.trace(path, endpoint)
    }

    /// Registers `endpoint` for `CONNECT` requests of `path`.
    pub fn connect(&mut self, path: &str, endpoint: H) -> (me: &mut Self)
        ensures
            me@ == ended(old(self)@, seq!["CONNECT"@], path@, endpoint),
            *final(self) == *final(me),
    {
        let methods: Vec<Method> = vec![Method::connect()];
        assert(method_views(methods@) =~= seq!["CONNECT"@]);
        self.end(methods.as_slice(), path, endpoint)
    }

    /// [`Router::connect`], for a function.
    pub fn connect_fn(&mut self, path: &str, endpoint: H) -> (me: &mut Self)
        ensures
            me@ == ended(old(self)@, seq!["CONNECT"@], path@, endpoint),
            *final(self) == *final(me),
    {
        self.connect(path, endpoint)
    }

    /// Registers `endpoint` for requests of `path` by any of the nine
    /// standard methods.
    pub fn all(&mut self, path: &str, endpoint: H) -> (me: &mut Self)
        ensures
            me@ == ended(old(self)@, standard_tokens(), path@, endpoint),
            *final(self) == *final(me),
    {
        let methods = all_methods();
        self.end(methods.as_slice(), path, endpoint)
    }

    /// [`Router::all`], for a function.
    pub fn all_fn(&mut self, path: &str, endpoint: H) -> (me: &mut Self)
        ensures
            me@ == ended(old(self)@, standard_tokens(), path@, endpoint),
            *final(self) == *final(me),
    {
        self.all(path, endpoint)
    }

    /// Mounts `router` below `prefix`, for the nine standard methods.
    pub fn mount(&mut self, prefix: &str, router: Router<H>) -> (me: &mut Self)
        ensures
            me@ == included(old(self)@, prefix@, router@, standard_tokens()),
            *final(self) == *final(me),
    {
        let methods = all_methods();
        self.include_methods(prefix, router, methods.as_slice())
    }

    /// Mounts `router` below `prefix`, keeping of its routes those whose
    /// method is among `methods`.
    pub fn include_methods(&mut self, prefix: &str, router: Router<H>, methods: &[Method]) -> (me:
        &mut Self)
        ensures
            me@ == included(old(self)@, prefix@, router@, method_views(methods@)),
            *final(self) == *final(me),
    {
        let mut taken: Router<H> = Router::new();
        core::mem::swap(self, &mut taken);
        proof {
            use_type_invariant(&taken);
            use_type_invariant(&router);
        }
        let ghost before = taken@;
        let ghost child = router@;
        let ghost wanted = method_views(methods@);
        let ghost offset = before.handlers.len();
        let ghost moved = shifted(mounted(child, prefix@), offset);
        let mounted_entries = router.on(prefix);
        let Router { handlers, middlewares, endpoints } = taken;
        let Router { handlers: child_handlers, middlewares: _, endpoints: _ } = router;
        let mut handlers = handlers;
        let mut child_handlers = child_handlers;
        let mut endpoints = endpoints;
        let by = handlers.len();
        handlers.append(&mut child_handlers);
        let total = handlers.len();
        let mut i: usize = 0;
        assert(moved.take(0) =~= Seq::empty());
        assert(entry_views(endpoints@) =~= before.endpoints + kept(moved.take(0), wanted));
        while i < mounted_entries.len()
            invariant
                i <= mounted_entries.len(),
                by == offset,
                total == offset + child.handlers.len(),
                total == handlers@.len(),
                child.sound(),
                before.sound(),
                wanted == method_views(methods@),
                entry_views(mounted_entries@) == mounted(child, prefix@),
                moved == shifted(mounted(child, prefix@), offset),
                entry_views(endpoints@) == before.endpoints + kept(moved.take(i as int), wanted),
                forall|k: int|
                    0 <= k < endpoints@.len() ==> ids_below(
                        (#[trigger] entry_views(endpoints@)[k]).chain,
                        total as nat,
                    ),
            decreases mounted_entries.len() - i,
        {
            let entry = &mounted_entries[i];
            let ghost done = entry_views(endpoints@);
            proof {
                assert(entry_views(mounted_entries@)[i as int] == entry@);
                assert forall|k: int| 0 <= k < entry.chain@.len() implies entry.chain@[k] + by
                    < total by {
                    if k < child.middlewares.len() {
                        assert(entry.chain@[k] == child.middlewares[k]);
                    } else {
                        assert(entry.chain@[k] == child.endpoints[i as int].chain[k
                            - child.middlewares.len()]);
                    }
                }
                assert(moved.take(i as int + 1).drop_last() =~= moved.take(i as int));
            }
            if listed(methods, &entry.method) {
                let added = Entry {
                    method: entry.method.duplicate(),
                    path: entry.path.clone(),
                    chain: raise(&entry.chain, by),
                };
                endpoints.push(added);
                assert(entry_views(endpoints@) =~= done.push(moved[i as int]));
            }
            i += 1;
        }
        proof {
            assert(moved.take(mounted_entries.len() as int) =~= moved);
        }
        *self = Router { handlers, middlewares, endpoints };
        self
    }

    /// Builds the tables of this router's routes as they stand below
    /// `prefix`. One refused registration fails the build, and no tables come
    /// of it.
    pub fn routes(self, prefix: &str) -> (r: Result<RouteEndpoint<H>, RouterError>)
        ensures
            tables_view(r) == built(mounted(self@, prefix@)),
            r matches Ok(endpoint) ==> endpoint@.handlers == self@.handlers,
    {
        proof {
            use_type_invariant(&self);
        }
        let ghost me = self@;
        let ghost all = mounted(me, prefix@);
        let entries = self.on(prefix);
        let Router { handlers, middlewares: _, endpoints: _ } = self;
        let mut endpoint = RouteEndpoint::with_handlers(handlers);
        let mut i: usize = 0;
        while i < entries.len()
            invariant
                i <= entries.len(),
                me == self@,
                me.sound(),
                all == mounted(me, prefix@),
                entry_views(entries@) == all,
                endpoint@.handlers == me.handlers,
                built(all.take(i as int)) is Ok,
                built(all.take(i as int))->Ok_0 == endpoint@.tables,
            decreases entries.len() - i,
        {
            let entry = &entries[i];
            proof {
                assert(all.take(i as int + 1).drop_last() =~= all.take(i as int));
                assert forall|k: int| 0 <= k < entry.chain@.len() implies entry.chain@[k]
                    < me.handlers.len() by {
                    if k < me.middlewares.len() {
                        assert(entry.chain@[k] == me.middlewares[k]);
                    } else {
                        assert(entry.chain@[k] == me.endpoints[i as int].chain[k
                            - me.middlewares.len()]);
                    }
                }
            }
            let ghost tables = endpoint@.tables;
            let method = entry.method.duplicate();
            let chain = entry.chain.duplicate();
            proof {
                let e = EntryView { method: method@, path: entry.path@, chain: chain@ };
                assert(built(all.take(i as int + 1)) == registered(tables, e));
            }
            match endpoint.insert(method, entry.path.as_str(), chain) {
                Ok(next) => {
                    endpoint = next;
                },
                Err(e) => {
                    proof {
                        lemma_built_stays(all, i as int + 1);
                    }
                    return Err(e);
                },
            }
            i += 1;
        }
        assert(all.take(entries.len() as int) =~= all);
        Ok(endpoint)
    }
}

} // verus!
