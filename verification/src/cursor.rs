//! Running a chain: the order in which its layers are entered and resumed.
//!
//! A layer runs its code up to the point where it calls `next`, waits while
//! everything inside it runs, and then runs the rest of its code with what
//! `next` returned. A layer that returns without calling `next` keeps
//! everything inside it from running. The innermost `next` is the one that
//! the whole chain was given; here it is called the terminal.
//!
//! The [`Cursor`] holds where a run stands. Whoever drives the layers tells
//! it what the running layer has just done, with a [`Signal`], and is told
//! what has to happen next, with a [`Step`]. The cursor never looks into
//! what a layer returns: it hands it to the layer outside, unchanged.

use vstd::prelude::*;

verus! {

/// Where a run stands.
#[derive(Debug, Clone, Copy, PartialEq, Eq, Structural)]
pub enum State {
    /// Nothing has run yet.
    Ready,
    /// The layer at this depth runs and has not called `next`.
    Before(usize),
    /// Every layer has called `next`, and the terminal runs.
    Inside,
    /// The layer at this depth runs again: its `next` has returned.
    After(usize),
    /// The outermost layer has returned.
    Done,
}

/// What the driver reports.
#[derive(Debug, PartialEq, Eq)]
pub enum Signal<R> {
    /// The run begins.
    Begin,
    /// The running layer has called `next`.
    Next,
    /// What runs now, a layer or the terminal, has returned this.
    Return(R),
}

/// What the driver has to do.
#[derive(Debug, PartialEq, Eq)]
pub enum Step<R> {
    /// Run the layer at this depth from its start.
    Enter(usize),
    /// Run the terminal.
    Terminal,
    /// Let the `next` of the layer at this depth return this.
    Resume(usize, R),
    /// The run is over, and this is what the chain returns.
    Finish(R),
}

/// Going one level in: into the layer at `depth`, or into the terminal
/// where the chain has no such layer.
pub open spec fn descend<R>(len: usize, depth: int) -> (State, Step<R>) {
    if depth < len {
        (State::Before(depth as usize), Step::Enter(depth as usize))
    } else {
        (State::Inside, Step::Terminal)
    }
}

/// Coming one level out: what ran at `depth` has returned `r`, which goes
/// to the layer outside it, or ends the run where there is none.
pub open spec fn ascend<R>(depth: int, r: R) -> (State, Step<R>) {
    if depth <= 0 {
        (State::Done, Step::Finish(r))
    } else {
        (State::After((depth - 1) as usize), Step::Resume((depth - 1) as usize, r))
    }
}

/// The new state and the step for a signal, or `None` for a signal that
/// cannot come in this state: a second `Begin`, a `Next` from the terminal
/// or from a layer whose `next` has already returned, or anything once the
/// run is over.
pub open spec fn react<R>(len: usize, state: State, signal: Signal<R>) -> Option<(State, Step<R>)> {
    match (state, signal) {
        (State::Ready, Signal::Begin) => Some(descend(len, 0)),
        (State::Before(i), Signal::Next) => Some(descend(len, i + 1)),
        (State::Before(i), Signal::Return(r)) => Some(ascend(i as int, r)),
        (State::Inside, Signal::Return(r)) => Some(ascend(len as int, r)),
        (State::After(i), Signal::Return(r)) => Some(ascend(i as int, r)),
        _ => None,
    }
}

/// The position in a run of a chain of `len` layers.
#[derive(Debug, Clone, Copy, PartialEq, Eq, Structural)]
pub struct Cursor {
    pub len: usize,
    pub state: State,
}

impl Cursor {
    /// A cursor for a chain of `len` layers, before the run.
    pub fn new(len: usize) -> (c: Cursor)
        ensures
            c.len == len,
            c.state == State::Ready,
    {
        Cursor { len, state: State::Ready }
    }

    /// Takes a signal and says what has to happen next. A signal that cannot
    /// come in this state is answered with `None` and changes nothing.
    pub fn step<R>(&mut self, signal: Signal<R>) -> (r: Option<Step<R>>)
        ensures
            final(self).len == old(self).len,
            match react(old(self).len, old(self).state, signal) {
                Some((state, step)) => final(self).state == state && r == Some(step),
                None => final(self).state == old(self).state && r is None,
            },
    {
        let len = self.len;
        match (self.state, signal) {
            (State::Ready, Signal::Begin) => Some(self.go_in(0)),
            (State::Before(i), Signal::Next) => {
                if i < len {
                    Some(self.go_in(i + 1))
                } else {
                    self.state = State::Inside;
                    Some(Step::Terminal)
                }
            },
            (State::Before(i), Signal::Return(r)) => Some(self.go_out(i, r)),
            (State::Inside, Signal::Return(r)) => Some(self.go_out(len, r)),
            (State::After(i), Signal::Return(r)) => Some(self.go_out(i, r)),
            _ => None,
        }
    }

    fn go_in<R>(&mut self, depth: usize) -> (step: Step<R>)
        ensures
            final(self).len == old(self).len,
            (final(self).state, step) == descend::<R>(old(self).len, depth as int),
    {
        if depth < self.len {
            self.state = State::Before(depth);
            Step::Enter(depth)
        } else {
            self.state = State::Inside;
            Step::Terminal
        }
    }

    fn go_out<R>(&mut self, depth: usize, r: R) -> (step: Step<R>)
        ensures
            final(self).len == old(self).len,
            (final(self).state, step) == ascend(depth as int, r),
    {
        if depth == 0 {
            self.state = State::Done;
            Step::Finish(r)
        } else {
            self.state = State::After(depth - 1);
            Step::Resume(depth - 1, r)
        }
    }

    /// Whether the run is over.
    pub fn finished(&self) -> (r: bool)
        ensures
            r == (self.state == State::Done),
    {
        match self.state {
            State::Done => true,
            _ => false,
        }
    }
}

/// The state after a list of signals, taken in turn from `state`, and the
/// steps that answered them; `None` where one of them could not come.
pub open spec fn run<R>(len: usize, state: State, signals: Seq<Signal<R>>) -> Option<
    (State, Seq<Step<R>>),
>
    decreases signals.len(),
{
    if signals.len() == 0 {
        Some((state, Seq::empty()))
    } else {
        match react(len, state, signals[0]) {
            None => None,
            Some((next, step)) => match run(len, next, signals.drop_first()) {
                None => None,
                Some((last, steps)) => Some((last, seq![step] + steps)),
            },
        }
    }
}

/// The signals of a run in which the layers at depths below `depth` each
/// call `next`, and what runs at `depth` returns without calling it: the
/// layer there, or the terminal where `depth` is the chain's length. Then
/// each returns in turn, from the inside out, `results[0]` being what came
/// from `depth`.
pub open spec fn cascade<R>(depth: nat, results: Seq<R>) -> Seq<Signal<R>> {
    seq![Signal::Begin] + calls(depth) + outcomes(results)
}

/// `n` calls of `next`.
pub open spec fn calls<R>(n: nat) -> Seq<Signal<R>> {
    Seq::new(n, |i: int| Signal::Next)
}

/// One return for each result.
pub open spec fn outcomes<R>(results: Seq<R>) -> Seq<Signal<R>> {
    Seq::new(results.len(), |j: int| Signal::Return(results[j]))
}

/// The way in: the layers from `from` to `depth` are entered in order, the
/// terminal standing for the depth that is the chain's length.
pub open spec fn way_in<R>(len: usize, from: int, depth: int) -> Seq<Step<R>> {
    Seq::new(
        (depth - from + 1) as nat,
        |i: int|
            if from + i < len {
                Step::Enter((from + i) as usize)
            } else {
                Step::Terminal
            },
    )
}

/// The way out: the layers below `depth` are resumed in the reverse order,
/// each with what the one inside it returned, and the run ends with what the
/// outermost returned.
pub open spec fn way_out<R>(depth: int, results: Seq<R>) -> Seq<Step<R>> {
    Seq::new(
        (depth + 1) as nat,
        |j: int|
            if j < depth {
                Step::Resume((depth - 1 - j) as usize, results[j])
            } else {
                Step::Finish(results[j])
            },
    )
}

/// What runs at `depth`: the layer there, or the terminal.
pub open spec fn running(len: usize, depth: int) -> State {
    if depth < len {
        State::Before(depth as usize)
    } else {
        State::Inside
    }
}

proof fn lemma_way_out<R>(len: usize, state: State, depth: int, results: Seq<R>)
    requires
        0 <= depth <= len,
        results.len() == depth + 1,
        state == running(len, depth) || (depth < len && state == State::After(depth as usize)),
    ensures
        run(len, state, outcomes(results)) == Some((State::Done, way_out(depth, results))),
    decreases depth,
{
    let signals = outcomes(results);
    let rest = signals.drop_first();
    if depth == 0 {
        assert(run(len, State::Done, rest) == Some((State::Done, Seq::<Step<R>>::empty())));
    } else {
        assert(rest =~= outcomes(results.drop_first()));
        lemma_way_out(len, State::After((depth - 1) as usize), depth - 1, results.drop_first());
    }
}

proof fn lemma_way_in<R>(len: usize, from: int, depth: int, results: Seq<R>)
    requires
        0 <= from <= depth <= len,
        results.len() == depth + 1,
    ensures
        run(len, running(len, from), calls::<R>((depth - from) as nat) + outcomes(results)) == Some(
            (State::Done, way_in::<R>(len, from + 1, depth) + way_out(depth, results)),
        ),
    decreases depth - from,
{
    let signals = calls::<R>((depth - from) as nat) + outcomes(results);
    if from == depth {
        lemma_way_out(len, running(len, from), depth, results);
    } else {
        assert(signals.drop_first() =~= calls::<R>((depth - from - 1) as nat) + outcomes(results));
        lemma_way_in(len, from + 1, depth, results);
    }
}

/// The cascade. In a run in which the layers down to `depth` call `next`,
/// the steps are: enter the layers in their order, from the outermost to the
/// one at `depth`, or to the terminal where every layer called `next`; then
/// resume them in the reverse order, each with what came back from inside;
/// then finish with what the outermost returned. No layer beyond `depth` is
/// ever entered, and what is returned passes outward unchanged.
pub proof fn lemma_cascade<R>(len: usize, depth: int, results: Seq<R>)
    requires
        0 <= depth <= len,
        results.len() == depth + 1,
    ensures
        run(len, State::Ready, cascade(depth as nat, results)) == Some(
            (State::Done, way_in::<R>(len, 0, depth) + way_out(depth, results)),
        ),
{
    let signals = cascade(depth as nat, results);
    assert(signals.drop_first() =~= calls::<R>(depth as nat) + outcomes(results));
    lemma_way_in(len, 0, depth, results);
}

/// A chain without layers does what its `next` does: the terminal runs at
/// once, and the run ends with what the terminal returned.
pub proof fn lemma_empty_chain_passes_through<R>(result: R)
    ensures
        run(0, State::Ready, seq![Signal::Begin, Signal::Return(result)]) == Some(
            (State::Done, seq![Step::Terminal, Step::Finish(result)]),
        ),
{
    lemma_cascade(0, 0, seq![result]);
    assert(cascade(0, seq![result]) =~= seq![Signal::Begin, Signal::Return(result)]);
}

} // verus!
