//! What holds of every router and every request.

use vstd::prelude::*;
use crate::context::{lookup, Symbol};
use crate::error::{ErrorView, BAD_REQUEST, METHOD_NOT_ALLOWED, NOT_FOUND};
use crate::router::decode::decoded;
use crate::router::err::RouterErrorView;
use crate::router::path::{
    distinct_names, lemma_captured_distinct, lemma_parsed_pattern, parsed, segments_of, standard,
    well_named, PathView,
};
use crate::router::table::{
    bad_path, first_match, no_routes, resolved, MatchedView, RoutesView,
};
use crate::router::endpoint::{
    built, dispatched, lemma_built_stays, lemma_first_match_in_range, registered,
};
use crate::router::param::{bound, lemma_bound_elsewhere};
use crate::router::EntryView;

verus! {

/// Whether a registered path is literal, with the given normal form.
pub open spec fn literal(raw: Seq<char>, normal: Seq<char>) -> bool {
    parsed(raw) == Ok::<PathView, RouterErrorView>(PathView::Static(normal))
}

/// A literal route that was registered stands in the table of its method.
proof fn lemma_static_stands(entries: Seq<EntryView>, i: int, p: Seq<char>)
    requires
        0 <= i < entries.len(),
        literal(entries[i].path, p),
        built(entries) is Ok,
    ensures
        built(entries)->Ok_0.contains_key(entries[i].method),
        built(entries)->Ok_0[entries[i].method].statics.contains_key(p),
    decreases entries.len(),
{
    let init = entries.drop_last();
    let last = entries.last();
    let before = built(init)->Ok_0;
    assert(built(entries) == registered(before, last));
    if i < entries.len() - 1 {
        assert(init[i] == entries[i]);
        lemma_static_stands(init, i, p);
    }
}

/// Two literal routes with the same method and the same normal path cannot
/// both be built: the build fails, and no tables come of it. Where every
/// path of the router is well formed, the failure is a conflict of paths.
pub proof fn lemma_static_conflict(entries: Seq<EntryView>, i: int, j: int, p: Seq<char>)
    requires
        0 <= i < j < entries.len(),
        entries[i].method == entries[j].method,
        literal(entries[i].path, p),
        literal(entries[j].path, p),
    ensures
        built(entries) is Err,
        (forall|k: int| 0 <= k < entries.len() ==> parsed(#[trigger] entries[k].path) is Ok)
            ==> built(entries)->Err_0 is Conflict && built(entries)->Err_0->Conflict_0 is Path,
{
    let upto = entries.take(j + 1);
    let init = entries.take(j);
    assert(upto.drop_last() =~= init);
    if built(init) is Ok {
        lemma_static_stands(init, i, p);
    }
    lemma_built_stays(entries, j + 1);
    if forall|k: int| 0 <= k < entries.len() ==> parsed(#[trigger] entries[k].path) is Ok {
        lemma_refusal_of_well_formed(entries);
    }
}

/// Where every path is well formed, nothing but a conflict of paths can fail
/// the build.
pub proof fn lemma_refusal_of_well_formed(entries: Seq<EntryView>)
    requires
        forall|k: int| 0 <= k < entries.len() ==> parsed(#[trigger] entries[k].path) is Ok,
        built(entries) is Err,
    ensures
        built(entries)->Err_0 is Conflict,
        built(entries)->Err_0->Conflict_0 is Path,
    decreases entries.len(),
{
    let init = entries.drop_last();
    assert forall|k: int| 0 <= k < init.len() implies parsed(#[trigger] init[k].path) is Ok by {}
    if built(init) is Err {
        lemma_refusal_of_well_formed(init);
    } else {
        assert(parsed(entries[entries.len() - 1].path) is Ok);
    }
}

/// A method has a table exactly when a route was registered for it.
pub proof fn lemma_tables_of_methods(entries: Seq<EntryView>, method: Seq<char>)
    requires
        built(entries) is Ok,
    ensures
        built(entries)->Ok_0.contains_key(method) <==> exists|i: int|
            0 <= i < entries.len() && (#[trigger] entries[i]).method == method,
    decreases entries.len(),
{
    if entries.len() > 0 {
        let init = entries.drop_last();
        lemma_tables_of_methods(init, method);
        if exists|i: int| 0 <= i < init.len() && (#[trigger] init[i]).method == method {
            let i = choose|i: int| 0 <= i < init.len() && (#[trigger] init[i]).method == method;
        }
        if exists|i: int| 0 <= i < entries.len() && (#[trigger] entries[i]).method == method {
            let i = choose|i: int|
                0 <= i < entries.len() && (#[trigger] entries[i]).method == method;
            if i < init.len() {
                assert(init[i] == entries[i]);
            }
        }
    }
}

/// A method without any route is answered with 405, whatever path that
/// can be decoded is asked for.
pub proof fn lemma_unrouted_method(
    tables: Map<Seq<char>, RoutesView>,
    method: Seq<char>,
    raw: Seq<char>,
    r: Result<MatchedView, ErrorView>,
)
    requires
        !tables.contains_key(method),
        decoded(raw) is Some,
        dispatched(tables, method, raw, r),
    ensures
        r is Err,
        r->Err_0.status_code == METHOD_NOT_ALLOWED,
{
}

/// A path that a literal route serves resolves to that route, whatever
/// patterns would fit it too.
pub proof fn lemma_static_first(t: RoutesView, path: Seq<char>)
    requires
        t.statics.contains_key(standard(path)),
    ensures
        resolved(t, path) is Ok,
        resolved(t, path)->Ok_0.chain == t.statics[standard(path)],
        resolved(t, path)->Ok_0.params.len() == 0,
{
}

/// A path that no route of its method serves is answered with 404.
pub proof fn lemma_unrouted_path(t: RoutesView, path: Seq<char>)
    requires
        !t.statics.contains_key(standard(path)),
        first_match(t.dynamics, segments_of(path)) is None,
    ensures
        resolved(t, path) is Err,
        resolved(t, path)->Err_0.status_code == NOT_FOUND,
{
}

/// A path whose decoded bytes are no UTF-8 is always answered with 400 and
/// a message that ends by naming the path as it was sent: whatever the
/// method is, and whatever routes there are.
pub proof fn lemma_undecodable_path(
    tables: Map<Seq<char>, RoutesView>,
    method: Seq<char>,
    raw: Seq<char>,
    r: Result<MatchedView, ErrorView>,
)
    requires
        decoded(raw) is None,
        dispatched(tables, method, raw, r),
    ensures
        r is Err,
        r->Err_0.status_code == BAD_REQUEST,
        r->Err_0.expose,
        ends_with(r->Err_0.message, "path `"@ + raw + "` is not a valid utf-8 string"@),
{
    let detail = choose|detail: Seq<char>|
        r == Err::<MatchedView, ErrorView>(bad_path(raw, detail));
    let tail = "path `"@ + raw + "` is not a valid utf-8 string"@;
    let message = r->Err_0.message;
    reveal_strlit("\npath `");
    reveal_strlit("path `");
    assert("\npath `"@ =~= seq!['\n'] + "path `"@);
    assert(message =~= (detail + seq!['\n']) + tail);
    assert(message.subrange(message.len() - tail.len(), message.len() as int) =~= tail);
}

/// Whether `text` ends with `tail`.
pub open spec fn ends_with(text: Seq<char>, tail: Seq<char>) -> bool {
    &&& tail.len() <= text.len()
    &&& text.subrange(text.len() - tail.len(), text.len() as int) == tail
}

/// Whether every pattern in the tables is well named.
pub open spec fn patterns_well_named(tables: Map<Seq<char>, RoutesView>) -> bool {
    forall|method: Seq<char>, k: int|
        tables.contains_key(method) && 0 <= k < tables[method].dynamics.len() ==> well_named(
            (#[trigger] tables[method].dynamics[k]).0.segments,
        )
}

/// Every pattern in tables that were built is well named: each of its
/// variables has a name, and no two have the same.
pub proof fn lemma_built_patterns(entries: Seq<EntryView>)
    requires
        built(entries) is Ok,
    ensures
        patterns_well_named(built(entries)->Ok_0),
    decreases entries.len(),
{
    if entries.len() > 0 {
        let init = entries.drop_last();
        let last = entries.last();
        lemma_built_patterns(init);
        let before = built(init)->Ok_0;
        let after = built(entries)->Ok_0;
        lemma_parsed_pattern(last.path);
        assert forall|method: Seq<char>, k: int|
            after.contains_key(method) && 0 <= k < after[method].dynamics.len() implies well_named(
            (#[trigger] after[method].dynamics[k]).0.segments,
        ) by {
            if method == last.method {
                let t = if before.contains_key(method) {
                    before[method]
                } else {
                    no_routes()
                };
                if k < t.dynamics.len() {
                    assert(after[method].dynamics[k] == t.dynamics[k]);
                    assert(before[method].dynamics[k] == t.dynamics[k]);
                }
            } else {
                assert(after[method] == before[method]);
            }
        }
    }
}

/// Where no name stands twice, every pair that was bound can be had from the
/// store with exactly its value.
pub proof fn lemma_bound_distinct(
    store: Map<(Symbol, Seq<char>), Seq<char>>,
    params: Seq<(Seq<char>, Seq<char>)>,
    k: int,
)
    requires
        distinct_names(params),
        0 <= k < params.len(),
    ensures
        lookup(bound(store, params), Symbol::router(), params[k].0) == Some(params[k].1),
    decreases params.len(),
{
    let init = params.drop_last();
    if k < params.len() - 1 {
        assert(init[k] == params[k]);
        assert forall|i: int, j: int| 0 <= i < j < init.len() implies init[i].0 != init[j].0 by {
            assert(init[i] == params[i] && init[j] == params[j]);
        }
        lemma_bound_distinct(store, init, k);
        assert(params[k].0 != params[params.len() - 1].0);
    }
}

/// The variables of a resolved route. Once the router has bound what a
/// request resolved to, every variable that the route declares can be had
/// from the store with exactly the segment that stood at its place, and a
/// name that the route does not declare gives what the store held under it
/// before: in a context as new, nothing.
pub proof fn lemma_route_variables(
    entries: Seq<EntryView>,
    method: Seq<char>,
    raw: Seq<char>,
    r: Result<MatchedView, ErrorView>,
    store: Map<(Symbol, Seq<char>), Seq<char>>,
)
    requires
        built(entries) is Ok,
        dispatched(built(entries)->Ok_0, method, raw, r),
        r is Ok,
    ensures
        forall|k: int|
            0 <= k < r->Ok_0.params.len() ==> lookup(
                bound(store, r->Ok_0.params),
                Symbol::router(),
                (#[trigger] r->Ok_0.params[k]).0,
            ) == Some(r->Ok_0.params[k].1),
        forall|name: Seq<char>|
            (forall|k: int| 0 <= k < r->Ok_0.params.len() ==> r->Ok_0.params[k].0 != name)
                ==> lookup(bound(store, r->Ok_0.params), Symbol::router(), name) == lookup(
                store,
                Symbol::router(),
                name,
            ),
{
    let tables = built(entries)->Ok_0;
    let params = r->Ok_0.params;
    lemma_built_patterns(entries);
    assert(tables.contains_key(method));
    let t = tables[method];
    let path = decoded(raw)->0;
    assert(r == resolved(t, path));
    let segs = segments_of(path);
    if t.statics.contains_key(standard(path)) {
        assert(distinct_names(params));
    } else {
        lemma_first_match_in_range(t.dynamics, segs);
        let i = first_match(t.dynamics, segs)->0;
        assert(well_named(t.dynamics[i].0.segments));
        lemma_captured_distinct(t.dynamics[i].0.segments, segs);
    }
    assert forall|k: int| 0 <= k < params.len() implies lookup(
        bound(store, params),
        Symbol::router(),
        (#[trigger] params[k]).0,
    ) == Some(params[k].1) by {
        lemma_bound_distinct(store, params, k);
    }
    assert forall|name: Seq<char>|
        (forall|k: int| 0 <= k < params.len() ==> params[k].0 != name) implies lookup(
        bound(store, params),
        Symbol::router(),
        name,
    ) == lookup(store, Symbol::router(), name) by {
        lemma_bound_elsewhere(store, params, Symbol::router(), name);
    }
}

} // verus!
