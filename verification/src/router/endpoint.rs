//! The tables that answer requests.

use vstd::prelude::*;
use vstd::string::StringExecFns;
use crate::assoc::{assoc, lemma_assoc_absent, lemma_assoc_present, lemma_assoc_update};
use crate::chain::Chain;
use crate::context::Context;
use crate::error::{error_of, Error, ErrorView, METHOD_NOT_ALLOWED};
use crate::method::Method;
use crate::router::decode::decoded;
use crate::router::err::{RouterError, RouterErrorView};
use crate::router::param::{bind, bound};
use crate::router::path::{distinct_names, segments_of, standard, PatternView};
use crate::router::table::{
    bad_path, decode_path, first_match, inserted, matched_view, no_routes, resolved, Matched,
    MatchedView, RouteTable, RoutesView,
};
use crate::router::{ids_below, EntryView};

verus! {

/// The tables after the registration of one route, or why it is refused.
/// A method that has no table yet gets an empty one first.
pub open spec fn registered(tables: Map<Seq<char>, RoutesView>, e: EntryView) -> Result<
    Map<Seq<char>, RoutesView>,
    RouterErrorView,
> {
    let t = if tables.contains_key(e.method) {
        tables[e.method]
    } else {
        no_routes()
    };
    match inserted(t, e.path, e.chain) {
        Ok(next) => Ok(tables.insert(e.method, next)),
        Err(x) => Err(x),
    }
}

/// The tables that a list of routes builds, registered one after the other
/// from the first, or the first refusal.
pub open spec fn built(entries: Seq<EntryView>) -> Result<
    Map<Seq<char>, RoutesView>,
    RouterErrorView,
>
    decreases entries.len(),
{
    if entries.len() == 0 {
        Ok(Map::empty())
    } else {
        match built(entries.drop_last()) {
            Ok(tables) => registered(tables, entries.last()),
            Err(x) => Err(x),
        }
    }
}

/// Whether every number in the routes of `t` is below `n`.
pub open spec fn routes_below(t: RoutesView, n: nat) -> bool {
    &&& forall|p: Seq<char>| #[trigger] t.statics.contains_key(p) ==> ids_below(t.statics[p], n)
    &&& forall|k: int| 0 <= k < t.dynamics.len() ==> ids_below((#[trigger] t.dynamics[k]).1, n)
}

/// The methods and tables of a list, over sequences.
pub open spec fn table_views(list: Seq<(Method, RouteTable)>) -> Seq<(Seq<char>, RoutesView)> {
    Seq::new(list.len(), |i: int| (list[i].0@, list[i].1@))
}

/// Once a registration was refused, later routes do not change the refusal.
pub proof fn lemma_built_stays(entries: Seq<EntryView>, k: int)
    requires
        0 <= k <= entries.len(),
        built(entries.take(k)) is Err,
    ensures
        built(entries) == built(entries.take(k)),
    decreases entries.len(),
{
    if k == entries.len() {
        assert(entries.take(k) =~= entries);
    } else {
        assert(entries.drop_last().take(k) =~= entries.take(k));
        lemma_built_stays(entries.drop_last(), k);
    }
}

/// The routes of a router, ready to answer requests: the handlers, and one
/// table of routes for each method that has a route.
#[derive(Debug)]
pub struct RouteEndpoint<H> {
    handlers: Vec<H>,
    tables: Vec<(Method, RouteTable)>,
}

/// What a [`RouteEndpoint`] holds.
pub struct EndpointView<H> {
    pub handlers: Seq<H>,
    pub tables: Map<Seq<char>, RoutesView>,
}

impl<H> View for RouteEndpoint<H> {
    type V = EndpointView<H>;

    closed spec fn view(&self) -> EndpointView<H> {
        EndpointView { handlers: self.handlers@, tables: assoc(table_views(self.tables@)) }
    }
}

/// No table for any method.
pub open spec fn no_tables() -> Map<Seq<char>, RoutesView> {
    Map::empty()
}

/// The outcome of a build, over sequences.
pub open spec fn tables_view<H>(r: Result<RouteEndpoint<H>, RouterError>) -> Result<
    Map<Seq<char>, RoutesView>,
    RouterErrorView,
> {
    match r {
        Ok(endpoint) => Ok(endpoint@.tables),
        Err(e) => Err(e@),
    }
}

/// The answer to a method that has no route at all.
pub open spec fn not_allowed(method: Seq<char>) -> ErrorView {
    error_of(METHOD_NOT_ALLOWED, "method "@ + method + " is not allowed"@, true)
}

/// What a request resolves to. The path is decoded first: one that cannot
/// be decoded is answered with 400, whatever the method and the routes. A
/// method without a table is then answered with 405, whatever the path says.
/// Else the decoded path is resolved in the method's table.
pub open spec fn dispatched(
    tables: Map<Seq<char>, RoutesView>,
    method: Seq<char>,
    raw: Seq<char>,
    r: Result<MatchedView, ErrorView>,
) -> bool {
    match decoded(raw) {
        None => exists|detail: Seq<char>| r == Err::<MatchedView, ErrorView>(bad_path(raw, detail)),
        Some(path) => if tables.contains_key(method) {
            r == resolved(tables[method], path)
        } else {
            r == Err::<MatchedView, ErrorView>(not_allowed(method))
        },
    }
}

/// What entering a route does to a context: the request resolves, as
/// [`dispatched`] has it, to a chain, which is returned while the store takes
/// the route's variables, no two of which share a name; or to an error,
/// which is returned while the store stays as it was.
pub open spec fn entered<S>(
    tables: Map<Seq<char>, RoutesView>,
    before: Context<S>,
    after: Context<S>,
    r: Result<Chain<usize>, Error>,
) -> bool {
    exists|resolution: Result<MatchedView, ErrorView>|
        {
            &&& dispatched(tables, before.request.method@, before.request.path@, resolution)
            &&& match resolution {
                Ok(m) => r is Ok && r->Ok_0@ == m.chain && distinct_names(m.params)
                    && after.storage@ == bound(before.storage@, m.params),
                Err(e) => r is Err && r->Err_0@ == e && after.storage@ == before.storage@,
            }
        }
}

/// The error for a method that has no route.
pub fn not_allowed_error(method: &Method) -> (e: Error)
    ensures
        e@ == not_allowed(method@),
{
    let mut message = String::from_str("method ");
    message.append(method.as_str());
    message.append(" is not allowed");
    Error::new(METHOD_NOT_ALLOWED, message, true)
}

impl<H> Default for RouteEndpoint<H> {
    /// No handlers and no routes.
    fn default() -> (endpoint: RouteEndpoint<H>)
        ensures
            endpoint@.handlers.len() == 0,
            endpoint@.tables == no_tables(),
    {
        RouteEndpoint::with_handlers(Vec::new())
    }
}

impl<H> RouteEndpoint<H> {
    #[verifier::type_invariant]
    spec fn numbered(self) -> bool {
        forall|i: int|
            0 <= i < self.tables@.len() ==> routes_below(
                (#[trigger] self.tables@[i]).1@,
                self.handlers@.len(),
            )
    }

    /// An endpoint with the given handlers and no routes.
    pub(crate) fn with_handlers(handlers: Vec<H>) -> (endpoint: RouteEndpoint<H>)
        ensures
            endpoint@.handlers == handlers@,
            endpoint@.tables == no_tables(),
    {
        let endpoint = RouteEndpoint { handlers, tables: Vec::new() };
        endpoint
    }

    /// Where the table of `method` stands, if it has one.
    fn find(&self, method: &Method) -> (r: Option<usize>)
        ensures
            match r {
                Some(i) => i < self.tables@.len() && self.tables@[i as int].0@ == method@
                    && forall|j: int| 0 <= j < i ==> self.tables@[j].0@ != method@,
                None => forall|j: int| 0 <= j < self.tables@.len() ==> self.tables@[j].0@ != method@,
            },
    {
        let mut i: usize = 0;
        while i < self.tables.len()
            invariant
                i <= self.tables.len(),
                forall|j: int| 0 <= j < i ==> self.tables@[j].0@ != method@,
            decreases self.tables.len() - i,
        {
            if self.tables[i].0.same(method) {
                return Some(i);
            }
            i += 1;
        }
        None
    }

    /// Registers one route. The chain may name handlers of this endpoint
    /// only.
    pub(crate) fn insert(self, method: Method, raw_path: &str, endpoint: Chain<usize>) -> (r: Result<
        RouteEndpoint<H>,
        RouterError,
    >)
        requires
            ids_below(endpoint@, self@.handlers.len()),
        ensures
            tables_view(r) == registered(
                self@.tables,
                EntryView { method: method@, path: raw_path@, chain: endpoint@ },
            ),
            r matches Ok(next) ==> next@.handlers == self@.handlers,
    {
        proof {
            use_type_invariant(&self);
        }
        let ghost before = table_views(self.tables@);
        let ghost n = self.handlers@.len();
        let found = self.find(&method);
        let RouteEndpoint { handlers, tables } = self;
        let mut tables = tables;
        let at = match found {
            Some(i) => {
                proof {
                    assert forall|j: int| 0 <= j < i implies before[j].0 != method@ by {}
                    lemma_assoc_present(before, method@, i as int);
                }
                i
            },
            None => {
                proof {
                    assert forall|j: int| 0 <= j < before.len() implies before[j].0 != method@ by {}
                    lemma_assoc_absent(before, method@);
                }
                tables.push((method, RouteTable::new()));
                tables.len() - 1
            },
        };
        let ghost listed = table_views(tables@);
        proof {
            if found is None {
                assert(listed =~= before.push((method@, no_routes())));
                assert(listed.drop_last() =~= before);
            } else {
                assert(listed =~= before);
            }
            assert forall|j: int| 0 <= j < at implies listed[j].0 != method@ by {}
            assert forall|j: int| 0 <= j < tables@.len() implies routes_below(
                (#[trigger] tables@[j]).1@,
                n,
            ) by {}
        }
        let (m, table) = tables.remove(at);
        let mut table = table;
        let r = table.insert(raw_path, endpoint);
        let ghost new_table = table@;
        tables.insert(at, (m, table));
        match r {
            Ok(()) => {
                proof {
                    assert(table_views(tables@) =~= listed.update(at as int, (method@, new_table)));
                    lemma_assoc_update(listed, method@, at as int, new_table);
                    lemma_assoc_present(listed, method@, at as int);
                    if found is None {
                        assert(assoc(listed).insert(method@, new_table) =~= assoc(
                            before,
                        ).insert(method@, new_table));
                    }
                    assert forall|j: int| 0 <= j < tables@.len() implies routes_below(
                        (#[trigger] tables@[j]).1@,
                        n,
                    ) by {
                        if j != at {
                            assert(table_views(tables@)[j] == listed[j]);
                        }
                    }
                }
                Ok(RouteEndpoint { handlers, tables })
            },
            Err(e) => Err(e),
        }
    }

    /// Resolves a request to the chain that serves it. Every number in the
    /// chain names a handler of this endpoint.
    pub fn handle(&self, method: &Method, uri_path: &str) -> (r: Result<Matched, Error>)
        ensures
            dispatched(self@.tables, method@, uri_path@, matched_view(r)),
            r matches Ok(m) ==> ids_below(m@.chain, self@.handlers.len()),
            r matches Ok(m) ==> distinct_names(m@.params),
    {
        proof {
            use_type_invariant(self);
        }
        let path = match decode_path(uri_path) {
            Ok(path) => path,
            Err(e) => {
                proof {
                    let detail = choose|detail: Seq<char>|
                        Err::<Seq<char>, ErrorView>(e@) == Err::<Seq<char>, ErrorView>(
                            bad_path(uri_path@, detail),
                        );
                    assert(matched_view(Err(e)) == Err::<MatchedView, ErrorView>(
                        bad_path(uri_path@, detail),
                    ));
                }
                return Err(e);
            },
        };
        let ghost listed = table_views(self.tables@);
        match self.find(method) {
            None => {
                proof {
                    assert forall|j: int| 0 <= j < listed.len() implies listed[j].0 != method@ by {}
                    lemma_assoc_absent(listed, method@);
                }
                Err(not_allowed_error(method))
            },
            Some(i) => {
                proof {
                    assert forall|j: int| 0 <= j < i implies listed[j].0 != method@ by {}
                    lemma_assoc_present(listed, method@, i as int);
                }
                let r = self.tables[i].1.resolve(path.as_str());
                proof {
                    lemma_resolved_chain(self.tables@[i as int].1@, path@);
                }
                r
            },
        }
    }

    /// Resolves the request of a context and keeps the variables of its
    /// route in the context's store, so that they are there before the first
    /// handler of the chain runs. A request that does not resolve leaves the
    /// context as it is.
    pub fn enter<S>(&self, ctx: &mut Context<S>) -> (r: Result<Chain<usize>, Error>)
        ensures
            entered(self@.tables, *old(ctx), *final(ctx), r),
            r matches Ok(chain) ==> ids_below(chain@, self@.handlers.len()),
            final(ctx).request == old(ctx).request,
            final(ctx).response == old(ctx).response,
            final(ctx).state == old(ctx).state,
            final(ctx).peer_addr == old(ctx).peer_addr,
    {
        match self.handle(&ctx.request.method, ctx.request.path.as_str()) {
            Ok(found) => {
                bind(ctx, &found.params);
                Ok(found.chain)
            },
            Err(e) => {
                Err(e)
            },
        }
    }

    /// The handler of the given number.
    pub fn handler(&self, id: usize) -> (r: Option<&H>)
        ensures
            id < self@.handlers.len() ==> r == Some(&self@.handlers[id as int]),
            id >= self@.handlers.len() ==> r is None,
    {
        if id < self.handlers.len() {
            Some(&self.handlers[id])
        } else {
            None
        }
    }
}

/// A resolved chain is one that the table holds.
proof fn lemma_resolved_chain(t: RoutesView, path: Seq<char>)
    ensures
        resolved(t, path) matches Ok(m) ==> {
            ||| t.statics.contains_key(standard(path)) && m.chain
                == t.statics[standard(path)]
            ||| exists|k: int| 0 <= k < t.dynamics.len() && m.chain == (#[trigger] t.dynamics[k]).1
        },
{
    lemma_first_match_in_range(t.dynamics, segments_of(path));
}

/// The first match, where there is one, is a place in the list.
pub proof fn lemma_first_match_in_range(d: Seq<(PatternView, Seq<usize>)>, segs: Seq<Seq<char>>)
    ensures
        first_match(d, segs) matches Some(i) ==> 0 <= i < d.len(),
    decreases d.len(),
{
    if d.len() > 0 {
        lemma_first_match_in_range(d.drop_last(), segs);
    }
}

} // verus!
