//! Composition of middlewares.
//!
//! A middleware gets a continuation, `next`, and may run code before it
//! calls `next` and after `next` has returned. Composing two middlewares
//! makes the first one's `next` the second; composing a list nests them all.
//! A composite is therefore an ordered list of layers, outermost first, and
//! that list is all this module keeps: how a list is run is the business of
//! [`crate::cursor`].

use vstd::prelude::*;

verus! {

/// A composed middleware: its layers, outermost first.
#[derive(Debug, Clone, PartialEq, Eq)]
pub struct Chain<T> {
    layers: Vec<T>,
}

impl<T> View for Chain<T> {
    type V = Seq<T>;

    closed spec fn view(&self) -> Seq<T> {
        self.layers@
    }
}

impl<T> Chain<T> {
    /// The composite of no layers, which does nothing but call its `next`.
    pub fn empty() -> (c: Chain<T>)
        ensures
            c@ == Seq::<T>::empty(),
    {
        Chain { layers: Vec::new() }
    }

    /// A single layer as a chain.
    pub fn unit(layer: T) -> (c: Chain<T>)
        ensures
            c@ == seq![layer],
    {
        let mut layers: Vec<T> = Vec::new();
        layers.push(layer);
        Chain { layers }
    }

    /// The chain of the given layers, the first outermost.
    pub fn of(layers: Vec<T>) -> (c: Chain<T>)
        ensures
            c@ == layers@,
    {
        Chain { layers }
    }

    /// The layers, the outermost first.
    pub fn into_layers(self) -> (layers: Vec<T>)
        ensures
            layers@ == self@,
    {
        self.layers
    }

    /// How many layers the chain has.
    pub fn len(&self) -> (n: usize)
        ensures
            n == self@.len(),
    {
        self.layers.len()
    }

    /// The layer at depth `i`, the outermost being at depth 0.
    pub fn layer(&self, i: usize) -> (r: Option<&T>)
        ensures
            i < self@.len() ==> r == Some(&self@[i as int]),
            i >= self@.len() ==> r is None,
    {
        if i < self.layers.len() {
            Some(&self.layers[i])
        } else {
            None
        }
    }

    /// Puts `layer` innermost.
    pub fn push(&mut self, layer: T)
        ensures
            final(self)@ == old(self)@.push(layer),
    {
        self.layers.push(layer);
    }
}

impl Chain<usize> {
    /// A second chain of the same layers.
    pub fn duplicate(&self) -> (c: Chain<usize>)
        ensures
            c@ == self@,
    {
        let mut layers: Vec<usize> = Vec::new();
        let mut i: usize = 0;
        while i < self.layers.len()
            invariant
                i <= self.layers.len(),
                layers@ == self.layers@.take(i as int),
            decreases self.layers.len() - i,
        {
            layers.push(self.layers[i]);
            i += 1;
        }
        Chain { layers }
    }
}

/// Composes two middlewares: `a` runs with `b` as its `next`, and `b` with
/// the `next` that the composite is given. The layers of the result are
/// those of `a`, then those of `b`.
pub fn join<T>(a: Chain<T>, b: Chain<T>) -> (c: Chain<T>)
    ensures
        c@ == a@ + b@,
{
    let mut a = a;
    let mut b = b;
    a.layers.append(&mut b.layers);
    a
}

/// The layers of a list of chains, one chain after the other: what nesting
/// them from the right gives, the empty list giving no layer at all.
pub open spec fn flat<T>(chains: Seq<Seq<T>>) -> Seq<T>
    decreases chains.len(),
{
    if chains.len() == 0 {
        Seq::empty()
    } else {
        chains[0] + flat(chains.drop_first())
    }
}

/// The layer lists of a list of chains.
pub open spec fn chain_views<T>(list: Seq<Chain<T>>) -> Seq<Seq<T>> {
    Seq::new(list.len(), |i: int| list[i]@)
}

/// Composes a list of middlewares, the first outermost, by joining from the
/// right. The empty list gives the empty chain.
pub fn join_all<T>(list: Vec<Chain<T>>) -> (c: Chain<T>)
    ensures
        c@ == flat(chain_views(list@)),
{
    let ghost all = chain_views(list@);
    let mut list = list;
    let mut acc: Chain<T> = Chain::empty();
    while list.len() > 0
        invariant
            list.len() <= all.len(),
            chain_views(list@) == all.take(list.len() as int),
            acc@ == flat(all.skip(list.len() as int)),
        decreases list.len(),
    {
        let ghost k = list.len() as int;
        let ghost before = chain_views(list@);
        let head = list.pop().unwrap();
        proof {
            assert(head@ == before[k - 1]);
            assert(all.skip(k - 1).drop_first() =~= all.skip(k));
        }
        acc = join(head, acc);
    }
    assert(all.skip(0) =~= all);
    acc
}

/// Joining is associative, and the empty chain is its unit: however a
/// composite was nested, its layers run in the one order in which they
/// were listed.
pub proof fn lemma_join_laws<T>(a: Seq<T>, b: Seq<T>, c: Seq<T>)
    ensures
        (a + b) + c == a + (b + c),
        Seq::<T>::empty() + a == a,
        a + Seq::<T>::empty() == a,
{
}

} // verus!
