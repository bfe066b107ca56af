//! What a builder holds after a number of registrations.

use vstd::prelude::*;

use super::outcome::{lemma_absent_never_handed, outcome, Verdict};
use super::run::RunView;
use super::scope::{has_scope, lemma_with_step, scope_index, scopes_distinct, with_step};
use super::step::Step;
use crate::controller::Controller;
use crate::init::merge::{
    lemma_merged_all_count, lemma_upsert, merged_all, names, names_distinct, upsert,
};
use crate::init::{Init, InitStep};

verus! {

/// The controllers that something was registered under, each with its
/// initializers.
pub type Registered<F> = Seq<(Controller, Seq<Init<F>>)>;

/// The steps of `entries` as what was registered: each controller with the
/// initializers of its step.
pub open spec fn plan<F>(entries: Seq<(Controller, InitStep<F>)>) -> Registered<F> {
    Seq::new(entries.len(), |i: int| (entries[i].0, entries[i].1.operands()))
}

/// The initializers that stand under `controller`: none where nothing was
/// registered under it.
pub open spec fn operands_under<F>(steps: Registered<F>, controller: Controller) -> Seq<Init<F>> {
    if has_scope(steps, controller) {
        steps[scope_index(steps, controller)].1
    } else {
        Seq::empty()
    }
}

/// `steps` after `init` was registered under `controller`.
pub open spec fn registered<F>(steps: Registered<F>, controller: Controller, init: Init<F>)
    -> Registered<F> {
    with_step(steps, controller, upsert(operands_under(steps, controller), init))
}

/// What a builder holds after the registrations `calls` were made one by one,
/// starting with none.
pub open spec fn registered_all<F>(calls: Seq<(Controller, Init<F>)>) -> Registered<F>
    decreases calls.len(),
{
    if calls.len() == 0 {
        Seq::empty()
    } else {
        registered(registered_all(calls.drop_last()), calls.last().0, calls.last().1)
    }
}

/// No controller occurs twice, and no name occurs twice under a controller.
pub open spec fn steps_wf<F>(steps: Registered<F>) -> bool {
    &&& scopes_distinct(steps)
    &&& forall|i: int| 0 <= i < steps.len() ==> names_distinct((#[trigger] steps[i]).1)
}

/// A registration touches the step of its controller only: that step takes
/// the initializer in, by name, and the steps of the other controllers stay
/// as and where they are. A step is created only for the controller that
/// something is registered under.
pub proof fn lemma_registered<F>(steps: Registered<F>, controller: Controller, init: Init<F>)
    requires
        steps_wf(steps),
    ensures
        steps_wf(registered(steps, controller, init)),
        has_scope(registered(steps, controller, init), controller),
        operands_under(registered(steps, controller, init), controller) == upsert(
            operands_under(steps, controller),
            init,
        ),
        forall|other: Controller|
            other != controller ==> (has_scope(registered(steps, controller, init), other)
                <==> has_scope(steps, other)),
        forall|other: Controller|
            other != controller ==> operands_under(registered(steps, controller, init), other)
                == operands_under(steps, other),
        forall|i: int|
            0 <= i < steps.len() ==> (#[trigger] registered(steps, controller, init)[i]).0
                == steps[i].0,
        registered(steps, controller, init).len() == steps.len() + (if has_scope(
            steps,
            controller,
        ) {
            0int
        } else {
            1int
        }),
{
    let under = upsert(operands_under(steps, controller), init);
    let after = registered(steps, controller, init);
    lemma_with_step(steps, controller, under);
    if has_scope(steps, controller) {
        assert(names_distinct(steps[scope_index(steps, controller)].1));
    }
    lemma_upsert(operands_under(steps, controller), init);
    assert forall|i: int| 0 <= i < after.len() implies names_distinct((#[trigger] after[i]).1) by {
        if has_scope(steps, controller) {
            if i != scope_index(steps, controller) {
                assert(after[i] == steps[i]);
            }
        } else {
            if i < steps.len() {
                assert(after[i] == steps[i]);
            }
        }
    }
    assert forall|other: Controller| other != controller implies operands_under(after, other)
        == operands_under(steps, other) by {
        if has_scope(steps, other) {
            let i = scope_index(steps, other);
            assert(after[i] == steps[i]);
            assert(has_scope(after, other));
            let j = scope_index(after, other);
            if i < j {
                assert(after[i].0 != after[j].0);
            }
            if j < i {
                assert(after[j].0 != after[i].0);
            }
        }
    }
}

/// Whether one of `calls` registers under `controller`.
pub open spec fn called<F>(calls: Seq<(Controller, Init<F>)>, controller: Controller) -> bool {
    exists|a: int| 0 <= a < calls.len() && (#[trigger] calls[a]).0 == controller
}

/// The initializers that `calls` register under `controller`, in the order of
/// the calls.
pub open spec fn calls_under<F>(calls: Seq<(Controller, Init<F>)>, controller: Controller) -> Seq<
    Init<F>,
>
    decreases calls.len(),
{
    if calls.len() == 0 {
        Seq::empty()
    } else if calls.last().0 == controller {
        calls_under(calls.drop_last(), controller).push(calls.last().1)
    } else {
        calls_under(calls.drop_last(), controller)
    }
}

/// Whether the call at `a` is the first of `calls` that registers under
/// `controller`.
pub open spec fn is_first_call<F>(
    calls: Seq<(Controller, Init<F>)>,
    controller: Controller,
    a: int,
) -> bool {
    &&& 0 <= a < calls.len()
    &&& calls[a].0 == controller
    &&& forall|b: int| 0 <= b < a ==> (#[trigger] calls[b]).0 != controller
}

/// The place of the first of `calls` that registers under `controller`.
pub open spec fn first_call<F>(calls: Seq<(Controller, Init<F>)>, controller: Controller) -> int {
    choose|a: int| is_first_call(calls, controller, a)
}

/// Whatever was registered, the builder is well formed.
pub proof fn lemma_registered_all_wf<F>(calls: Seq<(Controller, Init<F>)>)
    ensures
        steps_wf(registered_all(calls)),
    decreases calls.len(),
{
    if calls.len() > 0 {
        lemma_registered_all_wf(calls.drop_last());
        lemma_registered(registered_all(calls.drop_last()), calls.last().0, calls.last().1);
    }
}

/// Steps are created on demand: a controller has a step if and only if
/// something was registered under it.
pub proof fn lemma_step_iff_called<F>(calls: Seq<(Controller, Init<F>)>, controller: Controller)
    ensures
        has_scope(registered_all(calls), controller) <==> called(calls, controller),
    decreases calls.len(),
{
    if calls.len() > 0 {
        let earlier = calls.drop_last();
        lemma_registered_all_wf(earlier);
        lemma_step_iff_called(earlier, controller);
        lemma_registered(registered_all(earlier), calls.last().0, calls.last().1);
        if called(earlier, controller) {
            let a = choose|a: int| 0 <= a < earlier.len() && (#[trigger] earlier[a]).0 == controller;
            assert(calls[a].0 == controller);
        }
        if called(calls, controller) {
            let a = choose|a: int| 0 <= a < calls.len() && (#[trigger] calls[a]).0 == controller;
            if a < earlier.len() {
                assert(earlier[a].0 == controller);
            }
        }
        assert(calls[calls.len() - 1] == calls.last());
    }
}

/// A controller that nothing was registered under is left alone by the run
/// over what was registered: it has no pending step, so that its skip check
/// is never asked for, and nothing is executed under it.
pub proof fn lemma_uncalled_never_handed<F, E>(
    calls: Seq<(Controller, Init<F>)>,
    run: RunView<InitStep<F>>,
    verdicts: Seq<Verdict<E>>,
    controller: Controller,
)
    requires
        plan(run.pending) == registered_all(calls),
        !called(calls, controller),
    ensures
        !has_scope(run.pending, controller),
        !has_scope(outcome(run, verdicts).handed, controller),
        !has_scope(outcome(run, verdicts).end.pending, controller),
{
    lemma_step_iff_called(calls, controller);
    if has_scope(run.pending, controller) {
        let i = scope_index(run.pending, controller);
        assert(plan(run.pending)[i].0 == controller);
    }
    lemma_absent_never_handed(run, verdicts, controller);
}

/// The step of a controller holds what was registered under that controller,
/// merged by name in the order of the calls. Calls for other controllers
/// leave it alone.
pub proof fn lemma_step_holds_its_calls<F>(calls: Seq<(Controller, Init<F>)>, controller: Controller)
    ensures
        operands_under(registered_all(calls), controller) == merged_all(
            calls_under(calls, controller),
        ),
    decreases calls.len(),
{
    if calls.len() > 0 {
        let earlier = calls.drop_last();
        lemma_registered_all_wf(earlier);
        lemma_step_holds_its_calls(earlier, controller);
        lemma_registered(registered_all(earlier), calls.last().0, calls.last().1);
        if calls.last().0 == controller {
            let under = calls_under(calls, controller);
            assert(under.drop_last() =~= calls_under(earlier, controller));
        }
    }
}

/// Under one controller, the step holds as many initializers as there were
/// distinct names among those registered under it.
pub proof fn lemma_step_count<F>(calls: Seq<(Controller, Init<F>)>, controller: Controller)
    ensures
        operands_under(registered_all(calls), controller).len() == names(
            calls_under(calls, controller),
        ).to_set().len(),
{
    lemma_step_holds_its_calls(calls, controller);
    lemma_merged_all_count(calls_under(calls, controller));
}

/// Where something was registered under a controller, one of the calls was
/// the first to do so.
pub proof fn lemma_first_call<F>(calls: Seq<(Controller, Init<F>)>, controller: Controller)
    requires
        called(calls, controller),
    ensures
        is_first_call(calls, controller, first_call(calls, controller)),
    decreases calls.len(),
{
    let earlier = calls.drop_last();
    if called(earlier, controller) {
        lemma_first_call(earlier, controller);
        let a = first_call(earlier, controller);
        assert(calls[a] == earlier[a]);
        assert forall|b: int| 0 <= b < a implies (#[trigger] calls[b]).0 != controller by {
            assert(earlier[b].0 != controller);
        }
        assert(is_first_call(calls, controller, a));
    } else {
        let w = choose|a: int| 0 <= a < calls.len() && (#[trigger] calls[a]).0 == controller;
        if w < earlier.len() {
            assert(earlier[w].0 == controller);
        }
        assert forall|b: int| 0 <= b < calls.len() - 1 implies (#[trigger] calls[b]).0
            != controller by {
            assert(earlier[b].0 == calls[b].0);
        }
        assert(is_first_call(calls, controller, calls.len() - 1));
    }
}

/// The steps stand in the order in which their controllers were first
/// registered under: this is the order in which a run takes them, whatever
/// else was registered in between.
pub proof fn lemma_order_of_first_call<F>(calls: Seq<(Controller, Init<F>)>, i: int, j: int)
    requires
        0 <= i < j < registered_all(calls).len(),
    ensures
        called(calls, registered_all(calls)[i].0),
        called(calls, registered_all(calls)[j].0),
        first_call(calls, registered_all(calls)[i].0) < first_call(
            calls,
            registered_all(calls)[j].0,
        ),
    decreases calls.len(),
{
    let steps = registered_all(calls);
    let earlier = calls.drop_last();
    let before = registered_all(earlier);
    lemma_registered_all_wf(earlier);
    lemma_registered(before, calls.last().0, calls.last().1);
    lemma_step_iff_called(calls, steps[i].0);
    lemma_step_iff_called(calls, steps[j].0);
    assert(has_scope(steps, steps[i].0));
    assert(has_scope(steps, steps[j].0));
    lemma_first_call(calls, steps[i].0);
    lemma_first_call(calls, steps[j].0);
    assert(steps[i].0 == before[i].0);
    assert(has_scope(before, before[i].0));
    lemma_step_iff_called(earlier, before[i].0);
    lemma_first_call(earlier, before[i].0);
    lemma_first_call_stays(calls, before[i].0);
    if j < before.len() {
        assert(steps[j].0 == before[j].0);
        assert(has_scope(before, before[j].0));
        lemma_step_iff_called(earlier, before[j].0);
        lemma_first_call_stays(calls, before[j].0);
        lemma_order_of_first_call(earlier, i, j);
    } else {
        // the last call created the step at `j`
        lemma_step_iff_called(earlier, calls.last().0);
        assert(steps[j].0 == calls.last().0);
        let a = first_call(calls, steps[j].0);
        if a < earlier.len() {
            assert(earlier[a].0 == calls.last().0);
        }
    }
}

/// A later call does not change which call was the first for a controller.
proof fn lemma_first_call_stays<F>(calls: Seq<(Controller, Init<F>)>, controller: Controller)
    requires
        calls.len() > 0,
        called(calls.drop_last(), controller),
    ensures
        first_call(calls, controller) == first_call(calls.drop_last(), controller),
        first_call(calls, controller) < calls.len() - 1,
{
    let earlier = calls.drop_last();
    lemma_first_call(earlier, controller);
    let a = first_call(earlier, controller);
    assert(calls[a] == earlier[a]);
    assert forall|b: int| 0 <= b < a implies (#[trigger] calls[b]).0 != controller by {
        assert(earlier[b].0 != controller);
    }
    assert(is_first_call(calls, controller, a));
    let c = first_call(calls, controller);
    if c < a {
        assert(earlier[c].0 == calls[c].0);
    }
    if a < c {
        assert(calls[a].0 == controller);
    }
}

} // verus!
