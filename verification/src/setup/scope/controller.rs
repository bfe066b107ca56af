use vstd::prelude::*;
use vstd::string::StringExecFns;

use super::super::skip::Skip;
use super::super::step::Step;
use super::{has_scope, scope_index, with_step, Collection, Scope};
use crate::controller::{Controller, Fetched};

verus! {

impl Scope for Controller {
    open spec fn spec_probe(&self) -> Option<u64> {
        self.brain.spec_probe(self.environment)
    }

    open spec fn spec_try_skip(&self, reached: bool) -> Skip {
        if self.brain.spec_probe(self.environment) is None || reached {
            Skip::Proceed
        } else {
            Skip::Skip
        }
    }

    open spec fn spec_suffix(&self) -> Seq<char> {
        "::"@ + self.spec_display()
    }

    /// The guild that `is_connected` asks for.
    fn probe(&self) -> (guild: Option<u64>) {
        Controller::probe(self)
    }

    /// A step goes ahead if and only if its controller is connected.
    fn try_skip<G, E>(&self, fetched: Fetched<G, E>) -> (skip: Skip)
        ensures
            skip == Skip::Skip <==> !self.spec_is_connected(fetched),
    {
        if self.is_connected(fetched) {
            return Skip::Proceed;
        }
        Skip::Skip
    }

    /// Two colons, then the display form of the controller.
    fn suffix(&self) -> (suffix: String) {
        String::from_str("::").concat(self.to_string().as_str())
    }
}

/// The collection of a step type that has one instance for each controller.
/// The instances stand in the order in which their controllers were first
/// registered under.
pub struct ControllerCollection<S: Step>(Vec<(Controller, S)>);

impl<S: Step> ControllerCollection<S> {
    /// The instances with their controllers, in order.
    pub closed spec fn pairs(&self) -> Seq<(Controller, S)> {
        self.0@
    }

    /// The place of the instance of `scope`, where there is one.
    fn position(&self, scope: Controller) -> (place: Option<usize>)
        ensures
            place is Some <==> has_scope(self.pairs(), scope),
            place matches Some(i) ==> i < self.pairs().len() && self.pairs()[i as int].0 == scope,
    {
        let mut i: usize = 0;
        while i < self.0.len()
            invariant
                i <= self.0.len(),
                forall|j: int| 0 <= j < i ==> (#[trigger] self.0@[j]).0 != scope,
            decreases self.0.len() - i,
        {
            if self.0[i].0 == scope {
                return Some(i);
            }
            i += 1;
        }
        None
    }
}

impl<S: Step<Scope = Controller>> Collection<S> for ControllerCollection<S> {
    open spec fn entries(&self) -> Seq<(Controller, S)> {
        self.pairs()
    }

    /// There is room for every controller.
    open spec fn admits(&self, scope: Controller) -> bool {
        true
    }

    fn factory(&mut self, scope: Controller) -> (step: &mut S) {
        let place = match self.position(scope) {
            Some(place) => place,
            None => {
                self.0.push((scope, S::new(scope)));
                self.0.len() - 1
            },
        };
        proof {
            let before = old(self).entries();
            let now = self.0@;
            if has_scope(before, scope) {
                assert(scope_index(before, scope) == place as int);
            }
            assert forall|put: S| #[trigger]
                with_step(before, scope, put) == now.update(place as int, (scope, put)) by {
                assert(with_step(before, scope, put) =~= now.update(place as int, (scope, put)));
            }
        }
        &mut self.0[place].1
    }

    fn into_pairs(self) -> (pairs: Vec<(Controller, S)>) {
        self.0
    }
}

impl<S: Step> Default for ControllerCollection<S> {
    /// A collection without instances.
    fn default() -> (collection: Self)
        ensures
            collection.pairs() == Seq::<(Controller, S)>::empty(),
    {
        ControllerCollection(Vec::new())
    }
}

} // verus!
