//! The setup builder and the pieces it is made of.

use vstd::prelude::*;

pub mod outcome;
pub mod registration;
pub mod run;
pub mod scope;
pub mod skip;
pub mod step;

use crate::controller::Controller;
use crate::init::merge::names_distinct;
use crate::init::{Init, InitStep};
use registration::{
    lemma_registered, operands_under, plan, registered, steps_wf, Registered,
};
use run::SetupRun;
use scope::controller::ControllerCollection;
use scope::{has_scope, scope_index, scopes_distinct, with_step, Collection};
use step::Step;

verus! {

/// The builder of the setup. Features register with it; `setup` then turns it
/// into a run, and the builder is gone.
pub struct Setup<F> {
    inits: ControllerCollection<InitStep<F>>,
}

impl<F> View for Setup<F> {
    type V = Registered<F>;

    /// The controllers that something was registered under, each with its
    /// initializers, in the order in which a run takes them.
    closed spec fn view(&self) -> Registered<F> {
        plan(self.inits.entries())
    }
}

impl<F> Setup<F> {
    /// No controller occurs twice, and no name occurs twice under a
    /// controller.
    pub open spec fn wf(&self) -> bool {
        steps_wf(self@)
    }

    /// A builder that nothing is registered with.
    pub fn new() -> (setup: Self)
        ensures
            setup.wf(),
            setup@ == Seq::<(Controller, Seq<Init<F>>)>::empty(),
    {
        let setup = Setup { inits: ControllerCollection::default() };
        assert(setup@ =~= Seq::<(Controller, Seq<Init<F>>)>::empty());
        setup
    }

    /// Hands the builder to `f` and gives back what `f` made of it. A feature
    /// that registers several things is such an `f`.
    pub fn add_from(self, f: impl FnOnce(Self) -> Self) -> (setup: Self)
        requires
            call_requires(f, (self,)),
        ensures
            call_ensures(f, (self,), setup),
    {
        f(self)
    }

    /// Registers the initializer `init` under `controller`. The first
    /// registration under a controller creates its step, behind the steps
    /// that are there. An initializer that was registered under the same
    /// controller and name before is replaced.
    pub fn add_init(self, controller: Controller, init: Init<F>) -> (setup: Self)
        requires
            self.wf(),
        ensures
            setup.wf(),
            setup@ == registered(self@, controller, init),
    {
        let mut setup = self;
        proof {
            setup.lemma_collection_wf();
            lemma_registered(self@, controller, init);
        }
        let ghost before = setup.inits.entries();
        let step = setup.inits.factory(controller);
        let ghost found = *step;
        step.append(init);
        proof {
            let after = setup.inits.entries();
            assert(after == with_step(before, controller, *final(step)));
            lemma_plan_with_step(before, controller, found, *final(step), init);
        }
        setup
    }

    /// Ends the registration and starts the run over what was registered, for
    /// executions on `client`.
    pub fn setup<'a, C>(self, client: &'a C) -> (run: SetupRun<'a, C, InitStep<F>>)
        requires
            self.wf(),
        ensures
            run.client() == client,
            plan(run@.pending) == self@,
            scopes_distinct(run@.pending),
            run@.completed == Seq::<Seq<char>>::empty(),
            run@.skipped == Seq::<Seq<char>>::empty(),
    {
        proof {
            self.lemma_collection_wf();
        }
        Self::setup_step(self.inits, client)
    }

    /// Starts the run over the steps of one type.
    pub fn setup_step<'a, C, S: Step, L: Collection<S>>(collection: L, client: &'a C) -> (run:
        SetupRun<'a, C, S>)
        ensures
            run.client() == client,
            run@.pending == collection.entries(),
            run@.completed == Seq::<Seq<char>>::empty(),
            run@.skipped == Seq::<Seq<char>>::empty(),
    {
        SetupRun::new(collection, client)
    }

    proof fn lemma_collection_wf(&self)
        requires
            self.wf(),
        ensures
            self.inits.wf(),
    {
        let entries = self.inits.entries();
        assert forall|i: int, j: int| 0 <= i < j < entries.len() implies (#[trigger] entries[i]).0
            != (#[trigger] entries[j]).0 by {
            assert(self@[i].0 != self@[j].0);
        }
        assert forall|i: int| 0 <= i < entries.len() implies (#[trigger] entries[i]).1.wf() by {
            assert(names_distinct(self@[i].1));
        }
    }
}

/// The plan of a collection after a step was found or created under
/// `controller` and `init` was appended to it.
proof fn lemma_plan_with_step<F>(
    before: Seq<(Controller, InitStep<F>)>,
    controller: Controller,
    found: InitStep<F>,
    changed: InitStep<F>,
    init: Init<F>,
)
    requires
        scopes_distinct(before),
        has_scope(before, controller) ==> found == before[scope_index(before, controller)].1,
        !has_scope(before, controller) ==> found.operands() == Seq::<Init<F>>::empty(),
        changed.operands() == InitStep::<F>::merged(found.operands(), init),
    ensures
        plan(with_step(before, controller, changed)) == registered(plan(before), controller, init),
{
    let steps = plan(before);
    if has_scope(before, controller) {
        let at = scope_index(before, controller);
        assert(steps[at].0 == controller);
        assert(has_scope(steps, controller));
        let there = scope_index(steps, controller);
        assert(before[there].0 == controller);
        assert(there == at);
    } else {
        if has_scope(steps, controller) {
            let there = scope_index(steps, controller);
            assert(before[there].0 == controller);
        }
    }
    assert(operands_under(steps, controller) == found.operands());
    assert(plan(with_step(before, controller, changed)) =~= registered(steps, controller, init));
}

} // verus!
