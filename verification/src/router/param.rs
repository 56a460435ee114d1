//! The variables that a pattern took from a path, kept in the context for
//! the handlers.

use vstd::prelude::*;
use vstd::string::StringExecFns;
use crate::context::{lookup, Context, Store, Symbol};
use crate::error::{error_of, Error, ErrorView, BAD_REQUEST};
use crate::request::text_view;
use crate::router::path::{captured, declares, fits, pair_views, well_named, SegmentView};

verus! {

/// The store after the router has kept each variable under its name, one
/// after the other from the first.
pub open spec fn bound(
    store: Map<(Symbol, Seq<char>), Seq<char>>,
    params: Seq<(Seq<char>, Seq<char>)>,
) -> Map<(Symbol, Seq<char>), Seq<char>>
    decreases params.len(),
{
    if params.len() == 0 {
        store
    } else {
        bound(store, params.drop_last()).insert(
            (Symbol::router(), params.last().0),
            params.last().1,
        )
    }
}

/// Keeps the variables of a resolved route in the store, under the router's
/// own namespace.
pub fn bind_store(store: &mut Store, params: &Vec<(String, String)>)
    ensures
        final(store)@ == bound(old(store)@, pair_views(params@)),
{
    let ghost all = pair_views(params@);
    let ghost start = store@;
    let mut i: usize = 0;
    while i < params.len()
        invariant
            i <= params.len(),
            all == pair_views(params@),
            store@ == bound(start, all.take(i as int)),
        decreases params.len() - i,
    {
        proof {
            assert(all.take(i as int + 1).drop_last() =~= all.take(i as int));
        }
        store.put(Symbol::for_router(), params[i].0.as_str(), params[i].1.clone());
        i += 1;
    }
    assert(all.take(params.len() as int) =~= all);
}

/// Keeps the variables of a resolved route in the context, under the
/// router's own namespace. Nothing else in the context changes.
pub fn bind<S>(ctx: &mut Context<S>, params: &Vec<(String, String)>)
    ensures
        final(ctx).storage@ == bound(old(ctx).storage@, pair_views(params@)),
        final(ctx).request == old(ctx).request,
        final(ctx).response == old(ctx).response,
        final(ctx).state == old(ctx).state,
        final(ctx).peer_addr == old(ctx).peer_addr,
{
    bind_store(&mut ctx.storage, params);
}

/// The answer to a handler that asks for a variable its route does not
/// have: 400, an error of the client, with a message that names the
/// variable and may be shown.
pub open spec fn missing_param(name: Seq<char>) -> ErrorView {
    error_of(BAD_REQUEST, "router variable `"@ + name + "` is required"@, true)
}

/// What a request for a variable gives: its value, or the answer of
/// [`missing_param`].
pub open spec fn required(value: Option<Seq<char>>, name: Seq<char>) -> Result<
    Seq<char>,
    ErrorView,
> {
    match value {
        Some(v) => Ok(v),
        None => Err(missing_param(name)),
    }
}

/// The outcome of a request for a variable, over sequences.
pub open spec fn param_view(r: Result<String, Error>) -> Result<Seq<char>, ErrorView> {
    match r {
        Ok(v) => Ok(v@),
        Err(e) => Err(e@),
    }
}

/// Access to the variables of the route that a request resolved to.
pub trait RouterParam {
    /// The value of the variable `name`, if the route has one of that name.
    spec fn variable(&self, name: Seq<char>) -> Option<Seq<char>>;

    /// The value of a variable that the handler cannot do without.
    fn param(&self, name: &str) -> (r: Result<String, Error>)
        ensures
            param_view(r) == required(self.variable(name@), name@),
    ;

    /// The value of a variable, if the route has one of that name.
    fn try_param(&self, name: &str) -> (r: Option<String>)
        ensures
            text_view(r) == self.variable(name@),
    ;
}

impl RouterParam for Store {
    open spec fn variable(&self, name: Seq<char>) -> Option<Seq<char>> {
        lookup(self@, Symbol::router(), name)
    }

    fn param(&self, name: &str) -> (r: Result<String, Error>) {
        match self.try_param(name) {
            Some(value) => Ok(value),
            None => {
                let mut message = String::from_str("router variable `");
                message.append(name);
                message.append("` is required");
                Err(Error::new(BAD_REQUEST, message, true))
            },
        }
    }

    fn try_param(&self, name: &str) -> (r: Option<String>) {
        self.get(Symbol::for_router(), name)
    }
}

impl<S> RouterParam for Context<S> {
    open spec fn variable(&self, name: Seq<char>) -> Option<Seq<char>> {
        lookup(self.storage@, Symbol::router(), name)
    }

    fn param(&self, name: &str) -> (r: Result<String, Error>) {
        self.storage.param(name)
    }

    fn try_param(&self, name: &str) -> (r: Option<String>) {
        self.storage.try_param(name)
    }
}

/// Binding touches the router's namespace only, and there only the names
/// that were bound.
pub proof fn lemma_bound_elsewhere(
    store: Map<(Symbol, Seq<char>), Seq<char>>,
    params: Seq<(Seq<char>, Seq<char>)>,
    symbol: Symbol,
    name: Seq<char>,
)
    requires
        symbol != Symbol::router() || forall|k: int| 0 <= k < params.len() ==> params[k].0 != name,
    ensures
        lookup(bound(store, params), symbol, name) == lookup(store, symbol, name),
    decreases params.len(),
{
    if params.len() > 0 {
        let init = params.drop_last();
        assert forall|k: int| 0 <= k < init.len() implies init[k] == params[k] by {}
        lemma_bound_elsewhere(store, init, symbol, name);
    }
}

/// Unfolds what binding does with the last of the pairs.
proof fn lemma_bound_push(
    store: Map<(Symbol, Seq<char>), Seq<char>>,
    params: Seq<(Seq<char>, Seq<char>)>,
    name: Seq<char>,
    value: Seq<char>,
)
    ensures
        bound(store, params.push((name, value))) == bound(store, params).insert(
            (Symbol::router(), name),
            value,
        ),
{
    assert(params.push((name, value)).drop_last() =~= params);
}

/// The names that a pattern's variables give are the names it declares.
proof fn lemma_captured_names(p: Seq<SegmentView>, segs: Seq<Seq<char>>, name: Seq<char>)
    requires
        !declares(p, name),
    ensures
        forall|k: int| 0 <= k < captured(p, segs).len() ==> captured(p, segs)[k].0 != name,
    decreases p.len(),
{
    if p.len() > 0 {
        let init = p.drop_last();
        if declares(init, name) {
            let i = choose|i: int| 0 <= i < init.len() && init[i] == SegmentView::Variable(name);
            assert(p[i] == SegmentView::Variable(name));
        }
        lemma_captured_names(init, segs, name);
        assert(p.last() == p[p.len() - 1]);
        assert(p[p.len() - 1] != SegmentView::Variable(name));
        assert forall|k: int| 0 <= k < captured(p, segs).len() implies captured(p, segs)[k].0
            != name by {
            if k < captured(init, segs).len() {
                assert(captured(p, segs)[k] == captured(init, segs)[k]);
            }
        }
    }
}

/// Every variable of the matched pattern can be had from the store, with
/// exactly the segment that stood at its place; a name that the pattern does
/// not declare gives what the store held under it before, which in a context
/// as new is nothing.
pub proof fn lemma_variables_bound(
    store: Map<(Symbol, Seq<char>), Seq<char>>,
    p: Seq<SegmentView>,
    segs: Seq<Seq<char>>,
    name: Seq<char>,
)
    requires
        well_named(p),
        fits(p, segs),
    ensures
        forall|i: int|
            0 <= i < p.len() && p[i] == SegmentView::Variable(name) ==> lookup(
                bound(store, captured(p, segs)),
                Symbol::router(),
                name,
            ) == Some(segs[i]),
        !declares(p, name) ==> lookup(bound(store, captured(p, segs)), Symbol::router(), name)
            == lookup(store, Symbol::router(), name),
{
    if !declares(p, name) {
        lemma_captured_names(p, segs, name);
        lemma_bound_elsewhere(store, captured(p, segs), Symbol::router(), name);
    }
    assert forall|i: int| 0 <= i < p.len() && p[i] == SegmentView::Variable(name) implies lookup(
        bound(store, captured(p, segs)),
        Symbol::router(),
        name,
    ) == Some(segs[i]) by {
        lemma_variable_bound(store, p, segs, name, i);
    }
}

proof fn lemma_variable_bound(
    store: Map<(Symbol, Seq<char>), Seq<char>>,
    p: Seq<SegmentView>,
    segs: Seq<Seq<char>>,
    name: Seq<char>,
    i: int,
)
    requires
        well_named(p),
        0 <= i < p.len() <= segs.len(),
        p[i] == SegmentView::Variable(name),
    ensures
        lookup(bound(store, captured(p, segs)), Symbol::router(), name) == Some(segs[i]),
    decreases p.len(),
{
    let init = p.drop_last();
    let last = p[p.len() - 1];
    assert forall|k: int| 0 <= k < init.len() implies init[k] == p[k] by {}
    if i == p.len() - 1 {
        lemma_bound_push(store, captured(init, segs), name, segs[i]);
    } else {
        lemma_variable_bound(store, init, segs, name, i);
        match last {
            SegmentView::Literal(_) => {},
            SegmentView::Variable(other) => {
                lemma_bound_push(store, captured(init, segs), other, segs[p.len() - 1]);
            },
        }
    }
}

} // verus!
