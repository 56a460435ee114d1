//! The routes of one method: an exact-match index of literal paths and an
//! ordered list of patterns.

use vstd::prelude::*;
use vstd::string::StringExecFns;
use radix_trie::Trie;
use crate::chain::Chain;
use crate::error::{error_of, Error, ErrorView, BAD_REQUEST, NOT_FOUND};
use crate::router::decode::{decoded, percent_decode};
use crate::router::err::{Conflict, ConflictView, RouterError, RouterErrorView};
use crate::router::index::{trie_entries, trie_get, trie_insert, trie_new};
use crate::router::path::{
    captured, distinct_names, fits, pair_views, parsed, segments, segments_of, standard,
    standard_chars, Path, PathView, Pattern, PatternView,
};
use crate::text::{chars_of, string_of, views};

verus! {

/// The routes of one method.
#[derive(Debug)]
pub struct RouteTable {
    static_route: Trie<String, Vec<usize>>,
    dynamic_route: Vec<(Pattern, Chain<usize>)>,
}

/// What a [`RouteTable`] holds: under each literal path the chain it leads
/// to, and the patterns with their chains, in the order of registration.
pub struct RoutesView {
    pub statics: Map<Seq<char>, Seq<usize>>,
    pub dynamics: Seq<(PatternView, Seq<usize>)>,
}

/// The route that a request resolved to: the chain of handlers to run, and
/// the variables that the path gave, each with its name.
#[derive(Debug, Clone, PartialEq, Eq)]
pub struct Matched {
    pub chain: Chain<usize>,
    pub params: Vec<(String, String)>,
}

/// A [`Matched`] over sequences.
pub struct MatchedView {
    pub chain: Seq<usize>,
    pub params: Seq<(Seq<char>, Seq<char>)>,
}

impl View for Matched {
    type V = MatchedView;

    open spec fn view(&self) -> MatchedView {
        MatchedView { chain: self.chain@, params: pair_views(self.params@) }
    }
}

/// The outcome of a resolution, over sequences.
pub open spec fn matched_view(r: Result<Matched, Error>) -> Result<MatchedView, ErrorView> {
    match r {
        Ok(m) => Ok(m@),
        Err(e) => Err(e@),
    }
}

/// The table without routes.
pub open spec fn no_routes() -> RoutesView {
    RoutesView { statics: Map::empty(), dynamics: Seq::empty() }
}

/// The table after the registration of `chain` under `raw`, or why the
/// registration is refused: the path is ill-formed, or it is literal and
/// its normal form already stands in the table.
pub open spec fn inserted(t: RoutesView, raw: Seq<char>, chain: Seq<usize>) -> Result<
    RoutesView,
    RouterErrorView,
> {
    match parsed(raw) {
        Err(e) => Err(e),
        Ok(PathView::Static(p)) => if t.statics.contains_key(p) {
            Err(RouterErrorView::Conflict(ConflictView::Path(p)))
        } else {
            Ok(RoutesView { statics: t.statics.insert(p, chain), dynamics: t.dynamics })
        },
        Ok(PathView::Dynamic(pattern)) => Ok(
            RoutesView { statics: t.statics, dynamics: t.dynamics.push((pattern, chain)) },
        ),
    }
}

/// The place of the first pattern, in the order of registration, that the
/// segments fit.
pub open spec fn first_match(dynamics: Seq<(PatternView, Seq<usize>)>, segs: Seq<Seq<char>>) -> Option<int>
    decreases dynamics.len(),
{
    if dynamics.len() == 0 {
        None
    } else {
        match first_match(dynamics.drop_last(), segs) {
            Some(i) => Some(i),
            None => if fits(dynamics.last().0.segments, segs) {
                Some(dynamics.len() - 1)
            } else {
                None
            },
        }
    }
}

/// The answer to a path that no route serves.
pub open spec fn not_found() -> ErrorView {
    error_of(NOT_FOUND, Seq::empty(), true)
}

/// What a decoded path resolves to. A literal route for its normal form
/// comes first and gives no variables. Else the first pattern that its
/// segments fit decides, and gives what its variables took. Else the answer
/// is 404.
pub open spec fn resolved(t: RoutesView, path: Seq<char>) -> Result<MatchedView, ErrorView> {
    let key = standard(path);
    let segs = segments_of(path);
    if t.statics.contains_key(key) {
        Ok(MatchedView { chain: t.statics[key], params: Seq::empty() })
    } else {
        match first_match(t.dynamics, segs) {
            Some(i) => Ok(
                MatchedView {
                    chain: t.dynamics[i].1,
                    params: captured(t.dynamics[i].0.segments, segs),
                },
            ),
            None => Err(not_found()),
        }
    }
}

/// The answer to a path whose decoded bytes are no UTF-8: 400, with a
/// message that ends by naming the path as it was sent. `detail` is what
/// the decoder said of the bytes.
pub open spec fn bad_path(raw: Seq<char>, detail: Seq<char>) -> ErrorView {
    error_of(
        BAD_REQUEST,
        detail + "\npath `"@ + raw + "` is not a valid utf-8 string"@,
        true,
    )
}

/// What decoding a requested path gives: its text, or the answer of
/// [`bad_path`], with some detail, where its decoded bytes are no UTF-8.
pub open spec fn path_decoded(raw: Seq<char>, r: Result<Seq<char>, ErrorView>) -> bool {
    match decoded(raw) {
        Some(path) => r == Ok::<Seq<char>, ErrorView>(path),
        None => exists|detail: Seq<char>| r == Err::<Seq<char>, ErrorView>(bad_path(raw, detail)),
    }
}

/// The outcome of a decoding, over sequences.
pub open spec fn decoding_view(r: Result<String, Error>) -> Result<Seq<char>, ErrorView> {
    match r {
        Ok(path) => Ok(path@),
        Err(e) => Err(e@),
    }
}

/// What a requested path, as it was sent, resolves to: what its decoded text
/// resolves to, or the answer of [`bad_path`], with some detail, where it
/// cannot be decoded.
pub open spec fn routed(t: RoutesView, raw: Seq<char>, r: Result<MatchedView, ErrorView>) -> bool {
    match decoded(raw) {
        Some(path) => r == resolved(t, path),
        None => exists|detail: Seq<char>| r == Err::<MatchedView, ErrorView>(bad_path(raw, detail)),
    }
}

/// The error for a path that cannot be decoded.
pub fn bad_path_error(uri_path: &str, detail: &str) -> (e: Error)
    ensures
        e@ == bad_path(uri_path@, detail@),
{
    let mut message = String::from_str(detail);
    message.append("\npath `");
    message.append(uri_path);
    message.append("` is not a valid utf-8 string");
    Error::new(BAD_REQUEST, message, true)
}

/// The outcome of a registration, over sequences: the table as it is now,
/// or the refusal.
pub open spec fn insert_view(r: Result<(), RouterError>, now: RouteTable) -> Result<
    RoutesView,
    RouterErrorView,
> {
    match r {
        Ok(_) => Ok(now@),
        Err(e) => Err(e@),
    }
}

/// Decodes a requested path. The error, where there is one, is the answer
/// to the request: 400, with a message that ends by naming the path as it
/// was sent.
pub fn decode_path(uri_path: &str) -> (r: Result<String, Error>)
    ensures
        path_decoded(uri_path@, decoding_view(r)),
{
    match percent_decode(uri_path) {
        Ok(path) => Ok(path),
        Err(e) => {
            let detail = e.to_string();
            let error = bad_path_error(uri_path, detail.as_str());
            assert(decoding_view(Err(error)) == Err::<Seq<char>, ErrorView>(
                bad_path(uri_path@, detail@),
            ));
            Err(error)
        },
    }
}

impl View for RouteTable {
    type V = RoutesView;

    closed spec fn view(&self) -> RoutesView {
        RoutesView {
            statics: trie_entries(self.static_route),
            dynamics: Seq::new(
                self.dynamic_route@.len(),
                |i: int| (self.dynamic_route@[i].0@, self.dynamic_route@[i].1@),
            ),
        }
    }
}

impl RouteTable {
    /// A table without routes.
    pub fn new() -> (t: RouteTable)
        ensures
            t@ == no_routes(),
    {
        let t = RouteTable { static_route: trie_new(), dynamic_route: Vec::new() };
        assert(t@.statics =~= Map::empty());
        assert(t@.dynamics =~= Seq::empty());
        t
    }

    /// Registers `endpoint` under `raw_path`. A registration that is refused
    /// leaves the table as it was.
    pub fn insert(&mut self, raw_path: &str, endpoint: Chain<usize>) -> (r: Result<
        (),
        RouterError,
    >)
        ensures
            insert_view(r, *final(self)) == inserted(old(self)@, raw_path@, endpoint@),
            r is Err ==> final(self)@ == old(self)@,
    {
        let ghost before = self@;
        match Path::parse(raw_path) {
            Err(e) => Err(e),
            Ok(Path::Static(path)) => {
                match trie_get(&self.static_route, path.as_str()) {
                    Some(_) => Err(RouterError::Conflict(Conflict::Path(path))),
                    None => {
                        trie_insert(&mut self.static_route, path, endpoint.into_layers());
                        proof {
                            assert(self@.dynamics =~= before.dynamics);
                        }
                        Ok(())
                    },
                }
            },
            Ok(Path::Dynamic(pattern)) => {
                self.dynamic_route.push((pattern, endpoint));
                proof {
                    assert(self@.dynamics =~= before.dynamics.push((pattern@, endpoint@)));
                }
                Ok(())
            },
        }
    }

    /// Resolves a decoded path. Among the variables of the route that it
    /// resolves to, no name stands twice.
    pub fn resolve(&self, path: &str) -> (r: Result<Matched, Error>)
        ensures
            matched_view(r) == resolved(self@, path@),
            r matches Ok(m) ==> distinct_names(m@.params),
    {
        let v = chars_of(path);
        let normal = standard_chars(&v);
        let key = string_of(&normal);
        match trie_get(&self.static_route, key.as_str()) {
            Some(layers) => {
                let found = Matched { chain: Chain::of(layers), params: Vec::new() };
                assert(found@.params =~= Seq::empty());
                return Ok(found);
            },
            None => {},
        }
        let segs = segments(&v);
        let ghost d = self@.dynamics;
        let mut i: usize = 0;
        while i < self.dynamic_route.len()
            invariant
                i <= self.dynamic_route.len(),
                d == self@.dynamics,
                d.len() == self.dynamic_route.len(),
                views(segs@) == segments_of(path@),
                !self@.statics.contains_key(standard(path@)),
                first_match(d.take(i as int), views(segs@)) is None,
            decreases self.dynamic_route.len() - i,
        {
            let ghost upto = d.take(i as int + 1);
            proof {
                assert(upto.drop_last() =~= d.take(i as int));
            }
            match self.dynamic_route[i].0.captures_segments(&segs) {
                Some(params) => {
                    proof {
                        lemma_first_match_stays(d, i as int + 1, views(segs@));
                    }
                    return Ok(Matched { chain: self.dynamic_route[i].1.duplicate(), params });
                },
                None => {},
            }
            i += 1;
        }
        assert(d.take(self.dynamic_route.len() as int) =~= d);
        Err(Error::new(NOT_FOUND, String::new(), true))
    }

    /// Resolves a requested path as it was sent: decodes it, then resolves
    /// the text.
    pub fn end(&self, uri_path: &str) -> (r: Result<Matched, Error>)
        ensures
            routed(self@, uri_path@, matched_view(r)),
            r matches Ok(m) ==> distinct_names(m@.params),
    {
        match decode_path(uri_path) {
            Ok(path) => self.resolve(path.as_str()),
            Err(e) => Err(e),
        }
    }
}

/// Once a pattern has matched, later patterns do not change which is first.
proof fn lemma_first_match_stays(
    d: Seq<(PatternView, Seq<usize>)>,
    k: int,
    segs: Seq<Seq<char>>,
)
    requires
        0 <= k <= d.len(),
        first_match(d.take(k), segs) is Some,
    ensures
        first_match(d, segs) == first_match(d.take(k), segs),
    decreases d.len(),
{
    if k == d.len() {
        assert(d.take(k) =~= d);
    } else {
        assert(d.drop_last().take(k) =~= d.take(k));
        lemma_first_match_stays(d.drop_last(), k, segs);
    }
}

} // verus!
