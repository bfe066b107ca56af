use vstd::prelude::*;

use super::super::skip::Skip;
use super::super::step::Step;
use super::{with_step, Collection, Scope};
use crate::controller::Fetched;

verus! {

impl Scope for () {
    open spec fn spec_probe(&self) -> Option<u64> {
        None
    }

    open spec fn spec_try_skip(&self, reached: bool) -> Skip {
        Skip::Proceed
    }

    open spec fn spec_suffix(&self) -> Seq<char> {
        Seq::empty()
    }

    /// Nothing is fetched for the trivial scope.
    fn probe(&self) -> (guild: Option<u64>) {
        None
    }

    /// A step under the trivial scope always goes ahead.
    fn try_skip<G, E>(&self, fetched: Fetched<G, E>) -> (skip: Skip) {
        Skip::Proceed
    }

    /// The trivial scope adds nothing to a name.
    fn suffix(&self) -> (suffix: String) {
        String::new()
    }
}

/// The collection of a step type that has a single instance. It hands out
/// that instance once: a second registration path for such a step is a
/// mistake in the wiring of the features, and `factory` does not admit it.
pub struct UniqueCollection<S: Step>(Option<S>);

impl<S: Step> UniqueCollection<S> {
    /// The instance, where it was created.
    pub closed spec fn slot(&self) -> Option<S> {
        self.0
    }

    /// Whether the instance has not been created yet.
    pub open spec fn vacant(&self) -> bool {
        self.slot() is None
    }

    /// Whether the instance has not been created yet. `factory` may be called
    /// only while this holds.
    pub fn is_vacant(&self) -> (vacant: bool)
        ensures
            vacant == self.vacant(),
    {
        self.0.is_none()
    }

    /// Hands the instance over, for a run to take it.
    pub fn into_iter(self) -> (iter: IntoIter<S>)
        ensures
            iter.remaining() == self.slot(),
    {
        IntoIter(self)
    }
}

impl<S: Step<Scope = ()>> Collection<S> for UniqueCollection<S> {
    /// The instance under the trivial scope, where it was created.
    open spec fn entries(&self) -> Seq<((), S)> {
        match self.slot() {
            Some(step) => seq![((), step)],
            None => Seq::empty(),
        }
    }

    /// The single instance can be created once.
    open spec fn admits(&self, scope: ()) -> bool {
        self.vacant()
    }

    /// Creates the instance. From then on the collection is not vacant, so
    /// that no second call is admitted.
    fn factory(&mut self, scope: ()) -> (step: &mut S)
        ensures
            final(self).slot() == Some(*final(step)),
            !final(self).vacant(),
    {
        assert(old(self).entries() =~= Seq::empty());
        let step = self.0.insert(S::new(scope));
        proof {
            let placed = Seq::<((), S)>::empty().push(((), *final(step)));
            assert(placed =~= seq![((), *final(step))]);
            assert(with_step(old(self).entries(), scope, *final(step)) == placed);
        }
        step
    }

    fn into_pairs(self) -> (pairs: Vec<((), S)>) {
        let mut iter = self.into_iter();
        let mut pairs = Vec::new();
        match iter.next() {
            Some(pair) => {
                pairs.push(pair);
            },
            None => {},
        }
        assert(pairs@ =~= self.entries());
        pairs
    }
}

impl<S: Step> Default for UniqueCollection<S> {
    /// A collection whose instance has not been created.
    fn default() -> (collection: Self)
        ensures
            collection.vacant(),
    {
        UniqueCollection(None)
    }
}

/// Hands out the instance of a `UniqueCollection`, once.
pub struct IntoIter<S: Step>(UniqueCollection<S>);

impl<S: Step> IntoIter<S> {
    /// The instance that is still to be handed out.
    pub closed spec fn remaining(&self) -> Option<S> {
        self.0.0
    }

    /// The instance under its scope the first time, where it was created;
    /// `None` from then on.
    pub fn next(&mut self) -> (item: Option<((), S)>)
        ensures
            item == match old(self).remaining() {
                Some(step) => Some(((), step)),
                None => None,
            },
            final(self).remaining() is None,
    {
        match self.0.0.take() {
            Some(step) => Some(((), step)),
            None => None,
        }
    }
}

} // verus!
