//! The router's path model: normalising registered and requested paths,
//! telling literal paths from patterns with named variables, and matching a
//! requested path against a pattern.

use vstd::prelude::*;
use crate::router::err::{Conflict, ConflictView, RouterError, RouterErrorView};
use crate::text::{chars_of, copy_chars, pieces, same_chars, split_on, string_of, views};

verus! {

/// `s` without its leading slashes.
pub open spec fn trim_start(s: Seq<char>) -> Seq<char>
    decreases s.len(),
{
    if s.len() > 0 && s[0] == '/' {
        trim_start(s.drop_first())
    } else {
        s
    }
}

/// `s` without its trailing slashes.
pub open spec fn trim_end(s: Seq<char>) -> Seq<char>
    decreases s.len(),
{
    if s.len() > 0 && s.last() == '/' {
        trim_end(s.drop_last())
    } else {
        s
    }
}

/// `s` without leading and trailing slashes.
pub open spec fn trimmed(s: Seq<char>) -> Seq<char> {
    trim_end(trim_start(s))
}

/// The normal form of a path: one leading slash, then the path without the
/// slashes at its ends. The root is the single slash.
pub open spec fn standard(s: Seq<char>) -> Seq<char> {
    seq!['/'] + trimmed(s)
}

/// Where the trimmed part of `v` lies: the characters from the first bound up
/// to the second are `v` without the slashes at its ends.
fn trim_bounds(v: &Vec<char>) -> (r: (usize, usize))
    ensures
        r.0 <= r.1 <= v.len(),
        v@.subrange(r.0 as int, r.1 as int) == trimmed(v@),
{
    let mut lo: usize = 0;
    assert(v@.skip(0) =~= v@);
    while lo < v.len() && v[lo] == '/'
        invariant
            lo <= v.len(),
            trim_start(v@) == trim_start(v@.skip(lo as int)),
        decreases v.len() - lo,
    {
        assert(v@.skip(lo as int).drop_first() =~= v@.skip(lo as int + 1));
        lo += 1;
    }
    let mut hi: usize = v.len();
    while hi > lo && v[hi - 1] == '/'
        invariant
            lo <= hi <= v.len(),
            trim_end(v@.skip(lo as int)) == trim_end(v@.subrange(lo as int, hi as int)),
        decreases hi,
    {
        assert(v@.subrange(lo as int, hi as int).drop_last() =~= v@.subrange(
            lo as int,
            hi as int - 1,
        ));
        hi -= 1;
    }
    (lo, hi)
}

/// The normal form of `v`.
pub fn standard_chars(v: &Vec<char>) -> (r: Vec<char>)
    ensures
        r@ == standard(v@),
{
    let (lo, hi) = trim_bounds(v);
    let mut r: Vec<char> = Vec::new();
    r.push('/');
    let mut i: usize = lo;
    while i < hi
        invariant
            lo <= i <= hi <= v.len(),
            r@ == seq!['/'] + v@.subrange(lo as int, i as int),
        decreases hi - i,
    {
        r.push(v[i]);
        i += 1;
    }
    r
}

/// Brings a path into its normal form: `user/`, `/user` and `/user/` all
/// become `/user`, and the empty path becomes `/`.
pub fn standardize_path(raw_path: &str) -> (r: String)
    ensures
        r@ == standard(raw_path@),
{
    let v = chars_of(raw_path);
    let r = standard_chars(&v);
    string_of(&r)
}

/// The paths joined into one: each part loses the slashes at its ends, empty
/// parts are dropped, and one slash stands between what is left.
pub open spec fn joined(parts: Seq<Seq<char>>) -> Seq<char>
    decreases parts.len(),
{
    if parts.len() == 0 {
        Seq::empty()
    } else {
        let init = joined(parts.drop_last());
        let last = trimmed(parts.last());
        if last.len() == 0 {
            init
        } else if init.len() == 0 {
            last
        } else {
            init + seq!['/'] + last
        }
    }
}

/// The character sequences of a list of strings.
pub open spec fn str_views(parts: Seq<&str>) -> Seq<Seq<char>> {
    Seq::new(parts.len(), |i: int| parts[i]@)
}

/// Joins path fragments, as a prefix and a path below it: `["/user/", "/:id"]`
/// gives `user/:id`.
pub fn join_path(paths: &[&str]) -> (r: String)
    ensures
        r@ == joined(str_views(paths@)),
{
    let mut out: Vec<char> = Vec::new();
    let mut i: usize = 0;
    assert(str_views(paths@).take(0) =~= Seq::empty());
    while i < paths.len()
        invariant
            i <= paths.len(),
            out@ == joined(str_views(paths@).take(i as int)),
        decreases paths.len() - i,
    {
        let part = chars_of(paths[i]);
        let (lo, hi) = trim_bounds(&part);
        proof {
            let upto = str_views(paths@).take(i as int + 1);
            assert(upto.drop_last() =~= str_views(paths@).take(i as int));
            assert(upto.last() == part@);
        }
        if lo < hi {
            if out.len() > 0 {
                out.push('/');
            }
            let ghost before = out@;
            let mut k: usize = lo;
            while k < hi
                invariant
                    lo <= k <= hi <= part.len(),
                    out@ == before + part@.subrange(lo as int, k as int),
                decreases hi - k,
            {
                out.push(part[k]);
                k += 1;
                assert(out@ =~= before + part@.subrange(lo as int, k as int));
            }
        }
        i += 1;
    }
    assert(str_views(paths@).take(paths.len() as int) =~= str_views(paths@));
    string_of(&out)
}

/// The segments of a path: the pieces between the slashes of its trimmed
/// form. The root has none.
pub open spec fn segments_of(path: Seq<char>) -> Seq<Seq<char>> {
    if trimmed(path).len() == 0 {
        Seq::empty()
    } else {
        split_on(trimmed(path), '/')
    }
}

/// The segments of the path `v`.
pub fn segments(v: &Vec<char>) -> (segs: Vec<Vec<char>>)
    ensures
        views(segs@) == segments_of(v@),
{
    let (lo, hi) = trim_bounds(v);
    if lo == hi {
        let segs: Vec<Vec<char>> = Vec::new();
        segs
    } else {
        pieces(v, lo, hi, '/')
    }
}

/// One segment of a registered path.
#[derive(Debug, Clone, PartialEq, Eq)]
pub enum Segment {
    /// Text that a requested segment must equal.
    Literal(Vec<char>),
    /// A named variable, which takes whatever non-empty segment is requested.
    Variable(Vec<char>),
}

/// A [`Segment`] over character sequences.
pub enum SegmentView {
    Literal(Seq<char>),
    Variable(Seq<char>),
}

impl View for Segment {
    type V = SegmentView;

    open spec fn view(&self) -> SegmentView {
        match *self {
            Segment::Literal(text) => SegmentView::Literal(text@),
            Segment::Variable(name) => SegmentView::Variable(name@),
        }
    }
}

/// How a segment of a registered path is read: a colon in front makes it a
/// variable, named by what follows the colon.
pub open spec fn to_segment(seg: Seq<char>) -> SegmentView {
    if seg.len() > 0 && seg[0] == ':' {
        SegmentView::Variable(seg.skip(1))
    } else {
        SegmentView::Literal(seg)
    }
}

/// The segments of a registered path, each read by [`to_segment`].
pub open spec fn pattern_of(raw: Seq<char>) -> Seq<SegmentView> {
    let segs = segments_of(raw);
    Seq::new(segs.len(), |i: int| to_segment(segs[i]))
}

/// Whether a variable of this name stands among the segments.
pub open spec fn declares(p: Seq<SegmentView>, name: Seq<char>) -> bool {
    exists|i: int| 0 <= i < p.len() && p[i] == SegmentView::Variable(name)
}

/// Whether no segment is a variable.
pub open spec fn is_static(p: Seq<SegmentView>) -> bool {
    forall|i: int| 0 <= i < p.len() ==> p[i] is Literal
}

/// Whether every variable has a name and no name is used twice.
pub open spec fn well_named(p: Seq<SegmentView>) -> bool {
    &&& forall|i: int| 0 <= i < p.len() && p[i] is Variable ==> (#[trigger] p[i])->Variable_0.len() > 0
    &&& forall|i: int, j: int|
        0 <= i < j < p.len() && p[i] is Variable && p[j] is Variable ==> p[i] != p[j]
}

/// What is wrong with the first segment, from the left, that is a variable
/// without a name or with the name of an earlier variable; `None` where no
/// segment is.
pub open spec fn fault(p: Seq<SegmentView>, path: Seq<char>) -> Option<RouterErrorView>
    decreases p.len(),
{
    if p.len() == 0 {
        None
    } else {
        match fault(p.drop_last(), path) {
            Some(e) => Some(e),
            None => match p.last() {
                SegmentView::Literal(_) => None,
                SegmentView::Variable(name) => if name.len() == 0 {
                    Some(RouterErrorView::MissingVariable(path))
                } else if declares(p.drop_last(), name) {
                    Some(
                        RouterErrorView::Conflict(
                            ConflictView::Variable { path: path, var_name: name },
                        ),
                    )
                } else {
                    None
                },
            },
        }
    }
}

/// A pattern has no fault exactly when it is well named.
pub proof fn lemma_fault_free_is_well_named(p: Seq<SegmentView>, path: Seq<char>)
    ensures
        fault(p, path) is None <==> well_named(p),
    decreases p.len(),
{
    if p.len() > 0 {
        let init = p.drop_last();
        lemma_fault_free_is_well_named(init, path);
        assert forall|i: int| 0 <= i < init.len() implies init[i] == p[i] by {}
        if well_named(p) {
            assert(well_named(init));
            if let SegmentView::Variable(name) = p.last() {
                assert(p[p.len() - 1] is Variable);
                if declares(init, name) {
                    let i = choose|i: int| 0 <= i < init.len() && init[i] == SegmentView::Variable(name);
                    assert(p[i] == p[p.len() - 1]);
                }
            }
        }
        if fault(p, path) is None {
            assert(well_named(init));
            assert forall|i: int, j: int|
                0 <= i < j < p.len() && p[i] is Variable && p[j] is Variable implies p[i] != p[j] by {
                if j == p.len() - 1 {
                    assert(init[i] == p[i]);
                } else {
                    assert(init[i] == p[i] && init[j] == p[j]);
                }
            }
            assert forall|i: int| 0 <= i < p.len() && p[i] is Variable implies (#[trigger] p[i])->Variable_0.len() > 0 by {
                if i < p.len() - 1 {
                    assert(init[i] == p[i]);
                }
            }
        }
    }
}

/// Once a fault has shown, further segments do not change it.
proof fn lemma_fault_stays(p: Seq<SegmentView>, k: int, path: Seq<char>)
    requires
        0 <= k <= p.len(),
        fault(p.take(k), path) is Some,
    ensures
        fault(p, path) == fault(p.take(k), path),
    decreases p.len(),
{
    if k == p.len() {
        assert(p.take(k) =~= p);
    } else {
        assert(p.drop_last().take(k) =~= p.take(k));
        lemma_fault_stays(p.drop_last(), k, path);
    }
}

/// The views of a list of segments.
pub open spec fn segment_views(segs: Seq<Segment>) -> Seq<SegmentView> {
    Seq::new(segs.len(), |i: int| segs[i]@)
}

/// A registered path with at least one variable, ready to be matched.
#[derive(Debug, PartialEq, Eq)]
pub struct Pattern {
    raw: Vec<char>,
    segments: Vec<Segment>,
}

/// A [`Pattern`] over character sequences: the normal form of the path it
/// was made from, and its segments.
pub struct PatternView {
    pub raw: Seq<char>,
    pub segments: Seq<SegmentView>,
}

impl View for Pattern {
    type V = PatternView;

    closed spec fn view(&self) -> PatternView {
        PatternView { raw: self.raw@, segments: segment_views(self.segments@) }
    }
}

/// A registered path: literal text, or a pattern with variables.
#[derive(Debug, Clone, PartialEq, Eq)]
pub enum Path {
    Static(String),
    Dynamic(Pattern),
}

/// A [`Path`] over character sequences.
pub enum PathView {
    Static(Seq<char>),
    Dynamic(PatternView),
}

impl View for Path {
    type V = PathView;

    open spec fn view(&self) -> PathView {
        match *self {
            Path::Static(p) => PathView::Static(p@),
            Path::Dynamic(pattern) => PathView::Dynamic(pattern@),
        }
    }
}

/// What a registered path is read as. A path without variables is the
/// literal of its normal form. A path with variables is a pattern, unless a
/// variable lacks a name or two share one: then it is refused, with the
/// first such segment from the left named as the cause.
pub open spec fn parsed(raw: Seq<char>) -> Result<PathView, RouterErrorView> {
    let p = pattern_of(raw);
    if is_static(p) {
        Ok(PathView::Static(standard(raw)))
    } else {
        match fault(p, standard(raw)) {
            Some(e) => Err(e),
            None => Ok(PathView::Dynamic(PatternView { raw: standard(raw), segments: p })),
        }
    }
}

/// The outcome of reading a path, over character sequences.
pub open spec fn parse_view(r: Result<Path, RouterError>) -> Result<PathView, RouterErrorView> {
    match r {
        Ok(path) => Ok(path@),
        Err(e) => Err(e@),
    }
}

/// Whether a variable named `name` stands among `segs`.
fn declared(segs: &Vec<Segment>, name: &Vec<char>) -> (r: bool)
    ensures
        r == declares(segment_views(segs@), name@),
{
    let mut i: usize = 0;
    while i < segs.len()
        invariant
            i <= segs.len(),
            forall|k: int| 0 <= k < i ==> segment_views(segs@)[k] != SegmentView::Variable(name@),
        decreases segs.len() - i,
    {
        match &segs[i] {
            Segment::Variable(other) => {
                if same_chars(other, name) {
                    assert(segment_views(segs@)[i as int] == SegmentView::Variable(name@));
                    return true;
                }
            },
            Segment::Literal(_) => {},
        }
        i += 1;
    }
    false
}

/// The characters of `seg` after the first.
fn after_first(seg: &Vec<char>) -> (r: Vec<char>)
    requires
        seg.len() > 0,
    ensures
        r@ == seg@.skip(1),
{
    let mut r: Vec<char> = Vec::new();
    let mut i: usize = 1;
    while i < seg.len()
        invariant
            1 <= i <= seg.len(),
            r@ == seg@.subrange(1, i as int),
        decreases seg.len() - i,
    {
        r.push(seg[i]);
        i += 1;
        assert(r@ =~= seg@.subrange(1, i as int));
    }
    r
}

impl Path {
    /// Reads a registered path.
    pub fn parse(raw_path: &str) -> (r: Result<Path, RouterError>)
        ensures
            parse_view(r) == parsed(raw_path@),
    {
        let v = chars_of(raw_path);
        let normal = standard_chars(&v);
        let segs = segments(&v);
        let ghost p = pattern_of(raw_path@);
        let mut out: Vec<Segment> = Vec::new();
        let mut dynamic = false;
        let mut i: usize = 0;
        assert(segment_views(out@) =~= p.take(0));
        while i < segs.len()
            invariant
                i <= segs.len(),
                v@ == raw_path@,
                normal@ == standard(raw_path@),
                views(segs@) == segments_of(raw_path@),
                p == pattern_of(raw_path@),
                segment_views(out@) == p.take(i as int),
                fault(p.take(i as int), normal@) is None,
                dynamic <==> !is_static(p.take(i as int)),
            decreases segs.len() - i,
        {
            let seg = &segs[i];
            let ghost upto = p.take(i as int + 1);
            let ghost done = segment_views(out@);
            proof {
                assert(views(segs@)[i as int] == seg@);
                assert(upto.drop_last() =~= p.take(i as int));
                assert(upto.last() == to_segment(seg@));
            }
            if seg.len() > 0 && seg[0] == ':' {
                let name = after_first(seg);
                if name.len() == 0 {
                    proof {
                        lemma_fault_stays(p, i as int + 1, normal@);
                        assert(p[i as int] is Variable);
                    }
                    return Err(RouterError::MissingVariable(string_of(&normal)));
                }
                if declared(&out, &name) {
                    proof {
                        lemma_fault_stays(p, i as int + 1, normal@);
                        assert(p[i as int] is Variable);
                    }
                    return Err(
                        RouterError::Conflict(
                            Conflict::Variable {
                                path: string_of(&normal),
                                var_name: string_of(&name),
                            },
                        ),
                    );
                }
                out.push(Segment::Variable(name));
                dynamic = true;
                assert(upto[i as int] is Variable);
            } else {
                out.push(Segment::Literal(copy_chars(seg)));
                proof {
                    if is_static(p.take(i as int)) {
                        assert forall|k: int| 0 <= k < upto.len() implies upto[k] is Literal by {
                            if k < i {
                                assert(p.take(i as int)[k] is Literal);
                            }
                        }
                    } else {
                        let k = choose|k: int| 0 <= k < i && !(p.take(i as int)[k] is Literal);
                        assert(upto[k] == p.take(i as int)[k]);
                    }
                }
            }
            assert(segment_views(out@) =~= done.push(to_segment(seg@)));
            assert(segment_views(out@) =~= upto);
            i += 1;
        }
        assert(p.take(segs.len() as int) =~= p);
        if dynamic {
            proof {
                lemma_fault_free_is_well_named(p, normal@);
            }
            Ok(Path::Dynamic(Pattern { raw: normal, segments: out }))
        } else {
            Ok(Path::Static(string_of(&normal)))
        }
    }
}

/// Whether requested segments fit a pattern: there are as many as the
/// pattern has, each literal is met by equal text, and each variable by a
/// segment that is not empty.
pub open spec fn fits(p: Seq<SegmentView>, segs: Seq<Seq<char>>) -> bool {
    &&& p.len() == segs.len()
    &&& forall|i: int|
        0 <= i < p.len() ==> match #[trigger] p[i] {
            SegmentView::Literal(text) => segs[i] == text,
            SegmentView::Variable(_) => segs[i].len() > 0,
        }
}

/// What the variables of a pattern take from the requested segments: for
/// each variable, from the left, its name and the segment at its place.
pub open spec fn captured(p: Seq<SegmentView>, segs: Seq<Seq<char>>) -> Seq<(Seq<char>, Seq<char>)>
    decreases p.len(),
{
    if p.len() == 0 {
        Seq::empty()
    } else {
        let init = captured(p.drop_last(), segs);
        match p.last() {
            SegmentView::Literal(_) => init,
            SegmentView::Variable(name) => init.push((name, segs[p.len() - 1])),
        }
    }
}

/// The character sequences of a list of string pairs.
pub open spec fn pair_views(pairs: Seq<(String, String)>) -> Seq<(Seq<char>, Seq<char>)> {
    Seq::new(pairs.len(), |i: int| (pairs[i].0@, pairs[i].1@))
}

/// Whether no name stands twice among the pairs.
pub open spec fn distinct_names(params: Seq<(Seq<char>, Seq<char>)>) -> bool {
    forall|i: int, j: int| 0 <= i < j < params.len() ==> params[i].0 != params[j].0
}

/// Each pair that a pattern gives holds the name of one of its variables.
proof fn lemma_captured_declared(p: Seq<SegmentView>, segs: Seq<Seq<char>>, k: int)
    requires
        0 <= k < captured(p, segs).len(),
    ensures
        declares(p, captured(p, segs)[k].0),
    decreases p.len(),
{
    let init = p.drop_last();
    let name = captured(p, segs)[k].0;
    if k < captured(init, segs).len() {
        assert(captured(p, segs)[k] == captured(init, segs)[k]);
        lemma_captured_declared(init, segs, k);
        let i = choose|i: int| 0 <= i < init.len() && init[i] == SegmentView::Variable(name);
        assert(p[i] == SegmentView::Variable(name));
    } else {
        assert(p[p.len() - 1] == SegmentView::Variable(name));
    }
}

/// A well-named pattern gives no name twice.
pub proof fn lemma_captured_distinct(p: Seq<SegmentView>, segs: Seq<Seq<char>>)
    requires
        well_named(p),
    ensures
        distinct_names(captured(p, segs)),
    decreases p.len(),
{
    if p.len() > 0 {
        let init = p.drop_last();
        assert forall|i: int| 0 <= i < init.len() implies init[i] == p[i] by {}
        assert(well_named(init));
        lemma_captured_distinct(init, segs);
        let all = captured(p, segs);
        assert forall|i: int, j: int| 0 <= i < j < all.len() implies all[i].0 != all[j].0 by {
            if j < captured(init, segs).len() {
                assert(all[i] == captured(init, segs)[i]);
                assert(all[j] == captured(init, segs)[j]);
            } else {
                let name = all[j].0;
                assert(p[p.len() - 1] == SegmentView::Variable(name));
                assert(all[i] == captured(init, segs)[i]);
                lemma_captured_declared(init, segs, i);
                if all[i].0 == name {
                    let at = choose|at: int|
                        0 <= at < init.len() && init[at] == SegmentView::Variable(name);
                    assert(p[at] == p[p.len() - 1]);
                }
            }
        }
    }
}

/// The names of the variables among the segments, from the left.
pub open spec fn names_of(p: Seq<SegmentView>) -> Seq<Seq<char>>
    decreases p.len(),
{
    if p.len() == 0 {
        Seq::empty()
    } else {
        match p.last() {
            SegmentView::Literal(_) => names_of(p.drop_last()),
            SegmentView::Variable(name) => names_of(p.drop_last()).push(name),
        }
    }
}

/// The character sequences of a list of strings.
pub open spec fn name_views(names: Seq<String>) -> Seq<Seq<char>> {
    Seq::new(names.len(), |i: int| names[i]@)
}

/// A path that was read as a pattern has a variable, every variable of it
/// has a name, and no two have the same.
pub proof fn lemma_parsed_pattern(raw: Seq<char>)
    ensures
        parsed(raw) matches Ok(PathView::Dynamic(pattern)) ==> well_named(pattern.segments)
            && !is_static(pattern.segments),
{
    lemma_fault_free_is_well_named(pattern_of(raw), standard(raw));
}

impl Clone for Pattern {
    /// A second pattern of the same segments.
    fn clone(&self) -> (r: Pattern)
        ensures
            r@ == self@,
    {
        proof {
            use_type_invariant(self);
        }
        let mut segments: Vec<Segment> = Vec::new();
        let mut i: usize = 0;
        while i < self.segments.len()
            invariant
                i <= self.segments.len(),
                segment_views(segments@) == segment_views(self.segments@).take(i as int),
            decreases self.segments.len() - i,
        {
            let ghost done = segment_views(segments@);
            let copy = match &self.segments[i] {
                Segment::Literal(text) => Segment::Literal(copy_chars(text)),
                Segment::Variable(name) => Segment::Variable(copy_chars(name)),
            };
            segments.push(copy);
            assert(segment_views(segments@) =~= done.push(self.segments@[i as int]@));
            i += 1;
        }
        assert(segment_views(self.segments@).take(self.segments.len() as int) =~= segment_views(
            self.segments@,
        ));
        Pattern { raw: copy_chars(&self.raw), segments }
    }
}

impl Pattern {
    #[verifier::type_invariant]
    spec fn named(self) -> bool {
        well_named(segment_views(self.segments@))
    }

    /// The names of the pattern's variables, from the left.
    pub fn vars(&self) -> (names: Vec<String>)
        ensures
            name_views(names@) == names_of(self@.segments),
    {
        let ghost p = self@.segments;
        let mut names: Vec<String> = Vec::new();
        let mut i: usize = 0;
        assert(name_views(names@) =~= names_of(p.take(0)));
        while i < self.segments.len()
            invariant
                i <= self.segments.len(),
                p == self@.segments,
                name_views(names@) == names_of(p.take(i as int)),
            decreases self.segments.len() - i,
        {
            let ghost done = name_views(names@);
            proof {
                assert(p.take(i as int + 1).drop_last() =~= p.take(i as int));
                assert(p.take(i as int + 1).last() == self.segments@[i as int]@);
            }
            match &self.segments[i] {
                Segment::Literal(_) => {},
                Segment::Variable(name) => {
                    names.push(string_of(name));
                    assert(name_views(names@) =~= done.push(name@));
                },
            }
            i += 1;
        }
        assert(p.take(self.segments.len() as int) =~= p);
        names
    }

    /// The normal form of the path that the pattern was made from.
    pub fn raw(&self) -> (r: String)
        ensures
            r@ == self@.raw,
    {
        string_of(&self.raw)
    }

    /// Matches requested segments against the pattern. Where they fit, the
    /// result holds each variable's name with the segment it took.
    pub fn captures_segments(&self, segs: &Vec<Vec<char>>) -> (r: Option<Vec<(String, String)>>)
        ensures
            r is Some <==> fits(self@.segments, views(segs@)),
            r matches Some(pairs) ==> pair_views(pairs@) == captured(
                self@.segments,
                views(segs@),
            ),
            r matches Some(pairs) ==> distinct_names(pair_views(pairs@)),
    {
        let ghost p = self@.segments;
        proof {
            use_type_invariant(self);
            lemma_captured_distinct(p, views(segs@));
        }
        let ghost s = views(segs@);
        if self.segments.len() != segs.len() {
            return None;
        }
        let mut out: Vec<(String, String)> = Vec::new();
        let mut i: usize = 0;
        while i < self.segments.len()
            invariant
                i <= self.segments.len(),
                self.segments.len() == segs.len(),
                p == self@.segments,
                s == views(segs@),
                forall|k: int|
                    0 <= k < i ==> match #[trigger] p[k] {
                        SegmentView::Literal(text) => s[k] == text,
                        SegmentView::Variable(_) => s[k].len() > 0,
                    },
                pair_views(out@) == captured(p.take(i as int), s),
            decreases self.segments.len() - i,
        {
            let seg = &segs[i];
            let ghost upto = p.take(i as int + 1);
            proof {
                assert(upto.drop_last() =~= p.take(i as int));
                assert(p[i as int] == self.segments@[i as int]@);
            }
            match &self.segments[i] {
                Segment::Literal(text) => {
                    if !same_chars(text, seg) {
                        return None;
                    }
                },
                Segment::Variable(name) => {
                    if seg.len() == 0 {
                        return None;
                    }
                    out.push((string_of(name), string_of(seg)));
                },
            }
            i += 1;
        }
        assert(p.take(self.segments.len() as int) =~= p);
        Some(out)
    }

    /// Matches a requested path against the pattern.
    pub fn captures(&self, path: &str) -> (r: Option<Vec<(String, String)>>)
        ensures
            r is Some <==> fits(self@.segments, segments_of(path@)),
            r matches Some(pairs) ==> pair_views(pairs@) == captured(
                self@.segments,
                segments_of(path@),
            ),
            r matches Some(pairs) ==> distinct_names(pair_views(pairs@)),
    {
        let v = chars_of(path);
        let segs = segments(&v);
        self.captures_segments(&segs)
    }
}

} // verus!
