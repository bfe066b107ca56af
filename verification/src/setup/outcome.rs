//! What a whole run comes to, given what its driver found for each step.

use vstd::prelude::*;

use super::run::RunView;
use super::scope::{has_scope, scopes_distinct, Scope};
use super::skip::Skip;
use super::step::Step;
use crate::controller::{fetch_succeeded, Controller, Fetched};

verus! {

/// What the driver of a run found for one step.
pub enum Verdict<E> {
    /// The skip check said that the step is left out.
    Skipped,
    /// The step went ahead and its execution succeeded.
    Succeeded,
    /// The step went ahead and its execution failed.
    Failed(E),
}

/// Where a run stands after a number of steps.
pub struct Outcome<S: Step, E> {
    /// The run itself: what is still pending and what was put down.
    pub end: RunView<S>,
    /// The steps that were handed out for execution, with their scopes, in
    /// order.
    pub handed: Seq<(S::Scope, S)>,
    /// `Err` with the failure that ended the run, `Ok` where none did.
    pub result: Result<(), E>,
}

/// The run `run` driven on with `verdicts`, the first of them for the first
/// pending step. The run takes the steps in order, hands out those that go
/// ahead, and stops at the first failure, or where the steps or the verdicts
/// run out.
pub open spec fn outcome<S: Step, E>(run: RunView<S>, verdicts: Seq<Verdict<E>>) -> Outcome<S, E>
    decreases verdicts.len(),
{
    if run.pending.len() == 0 || verdicts.len() == 0 {
        Outcome { end: run, handed: Seq::empty(), result: Ok(()) }
    } else {
        match verdicts[0] {
            Verdict::Skipped => outcome(run.skip(), verdicts.drop_first()),
            Verdict::Succeeded => {
                let later = outcome(run.complete(), verdicts.drop_first());
                Outcome {
                    end: later.end,
                    handed: seq![run.pending[0]] + later.handed,
                    result: later.result,
                }
            },
            Verdict::Failed(error) => Outcome {
                end: run.fail(),
                handed: seq![run.pending[0]],
                result: Err(error),
            },
        }
    }
}

/// One verdict takes a run one step on: a skipped step is put down as
/// skipped, a step that went ahead is handed out and, after a success, put
/// down as completed. These are the steps that `Check::resolve` and
/// `Running::complete` take.
pub proof fn lemma_outcome_of_one<S: Step, E>(run: RunView<S>, verdict: Verdict<E>)
    requires
        run.pending.len() > 0,
    ensures
        outcome(run, seq![verdict]) == match verdict {
            Verdict::Skipped => Outcome {
                end: run.skip(),
                handed: Seq::empty(),
                result: Ok::<(), E>(()),
            },
            Verdict::Succeeded => Outcome {
                end: run.complete(),
                handed: seq![run.pending[0]],
                result: Ok::<(), E>(()),
            },
            Verdict::Failed(error) => Outcome {
                end: run.fail(),
                handed: seq![run.pending[0]],
                result: Err::<(), E>(error),
            },
        },
{
    reveal_with_fuel(outcome, 2);
    let one = seq![verdict];
    assert(one[0] == verdict);
    assert(one.drop_first().len() == 0);
    let head = seq![run.pending[0]];
    assert(head + Seq::<(S::Scope, S)>::empty() =~= head);
}

/// A run can be driven in parts: what it comes to with the verdicts `first`
/// and then `then` is what the run that `first` leaves behind comes to with
/// `then`, unless a failure among `first` has ended it.
pub proof fn lemma_outcome_in_parts<S: Step, E>(
    run: RunView<S>,
    first: Seq<Verdict<E>>,
    then: Seq<Verdict<E>>,
)
    ensures
        outcome(run, first).result is Err ==> outcome(run, first + then) == outcome(run, first),
        outcome(run, first).result is Ok ==> {
            &&& outcome(run, first + then).end == outcome(outcome(run, first).end, then).end
            &&& outcome(run, first + then).result == outcome(outcome(run, first).end, then).result
            &&& outcome(run, first + then).handed == outcome(run, first).handed + outcome(
                outcome(run, first).end,
                then,
            ).handed
        },
    decreases first.len(),
{
    if first.len() == 0 {
        assert(first + then =~= then);
        assert(Seq::<(S::Scope, S)>::empty() + outcome(run, then).handed =~= outcome(
            run,
            then,
        ).handed);
    } else if run.pending.len() == 0 {
        let none = Seq::<(S::Scope, S)>::empty();
        assert(none + none =~= none);
    } else {
        assert((first + then)[0] == first[0]);
        assert((first + then).drop_first() =~= first.drop_first() + then);
        match first[0] {
            Verdict::Skipped => {
                lemma_outcome_in_parts(run.skip(), first.drop_first(), then);
            },
            Verdict::Succeeded => {
                lemma_outcome_in_parts(run.complete(), first.drop_first(), then);
                let head = seq![run.pending[0]];
                let a = outcome(run.complete(), first.drop_first());
                let b = outcome(a.end, then);
                assert(head + (a.handed + b.handed) =~= (head + a.handed) + b.handed);
            },
            Verdict::Failed(_) => {},
        }
    }
}

/// Every step that a run hands out was pending, and its verdict was not to
/// leave it out. The run hands the steps out in the order in which they were
/// pending.
pub proof fn lemma_handed_were_pending<S: Step, E>(
    run: RunView<S>,
    verdicts: Seq<Verdict<E>>,
    k: int,
) -> (i: int)
    requires
        0 <= k < outcome(run, verdicts).handed.len(),
    ensures
        k <= i < run.pending.len(),
        i < verdicts.len(),
        outcome(run, verdicts).handed[k] == run.pending[i],
        !(verdicts[i] is Skipped),
        forall|j: int| 0 <= j < i ==> !(#[trigger] verdicts[j] is Failed),
    decreases verdicts.len(),
{
    let later = verdicts.drop_first();
    match verdicts[0] {
        Verdict::Skipped => {
            let i = lemma_handed_were_pending(run.skip(), later, k);
            assert forall|j: int| 0 <= j < i + 1 implies !(#[trigger] verdicts[j] is Failed) by {
                if j > 0 {
                    assert(later[j - 1] == verdicts[j]);
                }
            }
            i + 1
        },
        Verdict::Succeeded => {
            if k == 0 {
                0
            } else {
                assert(outcome(run, verdicts).handed[k] == outcome(
                    run.complete(),
                    later,
                ).handed[k - 1]);
                let i = lemma_handed_were_pending(run.complete(), later, k - 1);
                assert forall|j: int| 0 <= j < i + 1 implies !(#[trigger] verdicts[j] is Failed) by {
                    if j > 0 {
                        assert(later[j - 1] == verdicts[j]);
                    }
                }
                i + 1
            }
        },
        Verdict::Failed(_) => 0,
    }
}

/// A step whose skip check says that it is left out is not executed in that
/// run: no step under its scope is handed out.
pub proof fn lemma_skipped_never_handed<S: Step, E>(
    run: RunView<S>,
    verdicts: Seq<Verdict<E>>,
    i: int,
)
    requires
        scopes_distinct(run.pending),
        0 <= i < run.pending.len(),
        i < verdicts.len(),
        verdicts[i] is Skipped,
    ensures
        !has_scope(outcome(run, verdicts).handed, run.pending[i].0),
{
    let handed = outcome(run, verdicts).handed;
    if has_scope(handed, run.pending[i].0) {
        let k = choose|k: int| 0 <= k < handed.len() && (#[trigger] handed[k]).0 == run.pending[i].0;
        let j = lemma_handed_were_pending(run, verdicts, k);
        if i < j {
            assert(run.pending[i].0 != run.pending[j].0);
        } else if j < i {
            assert(run.pending[j].0 != run.pending[i].0);
        }
    }
}

/// The verdict on a step whose skip check came to `skip`. `result` is the
/// result of the execution, for a step that goes ahead.
pub open spec fn verdict<E>(skip: Skip, result: Result<(), E>) -> Verdict<E> {
    match (skip, result) {
        (Skip::Skip, _) => Verdict::Skipped,
        (Skip::Proceed, Ok(_)) => Verdict::Succeeded,
        (Skip::Proceed, Err(error)) => Verdict::Failed(error),
    }
}

/// A step whose controller is not connected is not executed in that run,
/// whatever the execution would have come to. `fetched` is what the fetch
/// for the skip check of the step brought.
pub proof fn lemma_disconnected_never_handed<S: Step<Scope = Controller>, G, X, E>(
    run: RunView<S>,
    verdicts: Seq<Verdict<E>>,
    i: int,
    fetched: Fetched<G, X>,
    result: Result<(), E>,
)
    requires
        scopes_distinct(run.pending),
        0 <= i < run.pending.len(),
        i < verdicts.len(),
        !run.pending[i].0.spec_is_connected(fetched),
        verdicts[i] == verdict(run.pending[i].0.spec_try_skip(fetch_succeeded(fetched)), result),
    ensures
        verdicts[i] is Skipped,
        !has_scope(outcome(run, verdicts).handed, run.pending[i].0),
{
    lemma_skipped_never_handed(run, verdicts, i);
}

/// Nothing is executed under a scope that no pending step stands under.
pub proof fn lemma_absent_never_handed<S: Step, E>(
    run: RunView<S>,
    verdicts: Seq<Verdict<E>>,
    scope: S::Scope,
)
    requires
        !has_scope(run.pending, scope),
    ensures
        !has_scope(outcome(run, verdicts).handed, scope),
        !has_scope(outcome(run, verdicts).end.pending, scope),
{
    let handed = outcome(run, verdicts).handed;
    if has_scope(handed, scope) {
        let k = choose|k: int| 0 <= k < handed.len() && (#[trigger] handed[k]).0 == scope;
        let j = lemma_handed_were_pending(run, verdicts, k);
        assert(run.pending[j].0 == scope);
    }
    lemma_end_is_suffix(run, verdicts);
    let end = outcome(run, verdicts).end.pending;
    if has_scope(end, scope) {
        let k = choose|k: int| 0 <= k < end.len() && (#[trigger] end[k]).0 == scope;
        let from = run.pending.len() - end.len();
        assert(run.pending[from + k].0 == scope);
    }
}

/// What is pending at the end of a run is the tail of what was pending at
/// its start, and the run has put down one name for every step that it
/// skipped or completed.
pub proof fn lemma_end_is_suffix<S: Step, E>(run: RunView<S>, verdicts: Seq<Verdict<E>>)
    ensures
        outcome(run, verdicts).end.pending.len() <= run.pending.len(),
        outcome(run, verdicts).end.pending == run.pending.skip(
            run.pending.len() - outcome(run, verdicts).end.pending.len(),
        ),
        outcome(run, verdicts).result is Ok ==> outcome(run, verdicts).end.completed.len()
            + outcome(run, verdicts).end.skipped.len() + outcome(run, verdicts).end.pending.len()
            == run.completed.len() + run.skipped.len() + run.pending.len(),
        outcome(run, verdicts).result is Ok ==> outcome(run, verdicts).end.completed.len()
            == run.completed.len() + outcome(run, verdicts).handed.len(),
    decreases verdicts.len(),
{
    if run.pending.len() == 0 || verdicts.len() == 0 {
        assert(run.pending.skip(0) =~= run.pending);
    } else {
        let later = verdicts.drop_first();
        let next = match verdicts[0] {
            Verdict::Skipped => run.skip(),
            Verdict::Succeeded => run.complete(),
            Verdict::Failed(_) => run.fail(),
        };
        let end = outcome(run, verdicts).end.pending;
        match verdicts[0] {
            Verdict::Failed(_) => {
                assert(end =~= run.pending.skip(1));
            },
            _ => {
                lemma_end_is_suffix(next, later);
                let from = next.pending.len() - end.len();
                assert(next.pending.skip(from) =~= run.pending.skip(from + 1));
            },
        }
    }
}

/// The first failure ends the run: the run hands the failure on as it is,
/// the failed step is the last that was handed out, and the steps behind it
/// stay pending for good, neither skipped nor executed.
pub proof fn lemma_failure_ends_run<S: Step, E>(
    run: RunView<S>,
    verdicts: Seq<Verdict<E>>,
    k: int,
)
    requires
        0 <= k < run.pending.len(),
        k < verdicts.len(),
        verdicts[k] is Failed,
        forall|j: int| 0 <= j < k ==> !(#[trigger] verdicts[j] is Failed),
    ensures
        outcome(run, verdicts).result == Err::<(), E>(verdicts[k]->Failed_0),
        outcome(run, verdicts).handed.len() > 0,
        outcome(run, verdicts).handed.last() == run.pending[k],
        outcome(run, verdicts).end.pending == run.pending.skip(k + 1),
        scopes_distinct(run.pending) ==> forall|j: int|
            k < j < run.pending.len() ==> !has_scope(
                outcome(run, verdicts).handed,
                (#[trigger] run.pending[j]).0,
            ),
    decreases k,
{
    let later = verdicts.drop_first();
    if k == 0 {
        assert(outcome(run, verdicts).end.pending =~= run.pending.skip(1));
    } else {
        let next = match verdicts[0] {
            Verdict::Skipped => run.skip(),
            _ => run.complete(),
        };
        assert(later[k - 1] == verdicts[k]);
        assert forall|j: int| 0 <= j < k - 1 implies !(#[trigger] later[j] is Failed) by {
            assert(later[j] == verdicts[j + 1]);
        }
        assert(!(verdicts[0] is Failed));
        lemma_failure_ends_run(next, later, k - 1);
        assert(next.pending.skip(k) =~= run.pending.skip(k + 1));
        assert(next.pending[k - 1] == run.pending[k]);
    }
    if scopes_distinct(run.pending) {
        assert forall|j: int| k < j < run.pending.len() implies !has_scope(
            outcome(run, verdicts).handed,
            (#[trigger] run.pending[j]).0,
        ) by {
            let handed = outcome(run, verdicts).handed;
            let scope = run.pending[j].0;
            if has_scope(handed, scope) {
                let h = choose|h: int| 0 <= h < handed.len() && (#[trigger] handed[h]).0 == scope;
                let i = lemma_handed_were_pending(run, verdicts, h);
                // the step at `i` was reached, so it does not stand behind the failure
                if i > k {
                    assert(verdicts[k] is Failed);
                }
                if i < j {
                    assert(run.pending[i].0 != run.pending[j].0);
                }
            }
        }
    }
}

/// A run with a verdict for every step, none of them a failure, ends in
/// success with nothing pending.
pub proof fn lemma_run_without_failure<S: Step, E>(run: RunView<S>, verdicts: Seq<Verdict<E>>)
    requires
        verdicts.len() >= run.pending.len(),
        forall|j: int| 0 <= j < run.pending.len() ==> !(#[trigger] verdicts[j] is Failed),
    ensures
        outcome(run, verdicts).result is Ok,
        outcome(run, verdicts).end.pending.len() == 0,
    decreases verdicts.len(),
{
    if run.pending.len() > 0 {
        let later = verdicts.drop_first();
        assert(!(verdicts[0] is Failed));
        let next = match verdicts[0] {
            Verdict::Skipped => run.skip(),
            _ => run.complete(),
        };
        assert forall|j: int| 0 <= j < next.pending.len() implies !(#[trigger] later[j] is Failed) by {
            assert(later[j] == verdicts[j + 1]);
        }
        lemma_run_without_failure(next, later);
    }
}

/// Whether `a` and `b` hold the same operands under the same scopes, in the
/// same order.
pub open spec fn alike<S: Step>(a: Seq<(S::Scope, S)>, b: Seq<(S::Scope, S)>) -> bool {
    &&& a.len() == b.len()
    &&& forall|i: int|
        0 <= i < a.len() ==> (#[trigger] a[i]).0 == b[i].0 && a[i].1.operands()
            == b[i].1.operands()
}

/// A run is decided by what was registered and by what its driver finds:
/// two runs over the same operands under the same scopes, driven with the
/// same verdicts, hand out the same steps in the same order, put down the
/// same names, and end alike.
pub proof fn lemma_same_steps_same_run<S: Step, E>(
    a: RunView<S>,
    b: RunView<S>,
    verdicts: Seq<Verdict<E>>,
)
    requires
        alike(a.pending, b.pending),
        a.completed == b.completed,
        a.skipped == b.skipped,
    ensures
        outcome(a, verdicts).result == outcome(b, verdicts).result,
        outcome(a, verdicts).end.completed == outcome(b, verdicts).end.completed,
        outcome(a, verdicts).end.skipped == outcome(b, verdicts).end.skipped,
        alike(outcome(a, verdicts).handed, outcome(b, verdicts).handed),
        alike(outcome(a, verdicts).end.pending, outcome(b, verdicts).end.pending),
    decreases verdicts.len(),
{
    if a.pending.len() > 0 && verdicts.len() > 0 {
        let later = verdicts.drop_first();
        assert(a.pending[0].0 == b.pending[0].0);
        assert forall|i: int| 0 <= i < a.pending.drop_first().len() implies (
        #[trigger] a.pending.drop_first()[i]).0 == b.pending.drop_first()[i].0
            && a.pending.drop_first()[i].1.operands() == b.pending.drop_first()[i].1.operands() by {
            assert(a.pending[i + 1].0 == b.pending[i + 1].0);
        }
        match verdicts[0] {
            Verdict::Skipped => {
                lemma_same_steps_same_run(a.skip(), b.skip(), later);
            },
            Verdict::Succeeded => {
                lemma_same_steps_same_run(a.complete(), b.complete(), later);
                let ha = outcome(a, verdicts).handed;
                let hb = outcome(b, verdicts).handed;
                let la = outcome(a.complete(), later).handed;
                let lb = outcome(b.complete(), later).handed;
                assert forall|i: int| 0 <= i < ha.len() implies (#[trigger] ha[i]).0 == hb[i].0
                    && ha[i].1.operands() == hb[i].1.operands() by {
                    if i > 0 {
                        assert(ha[i] == la[i - 1]);
                        assert(hb[i] == lb[i - 1]);
                        assert(la[i - 1].0 == lb[i - 1].0);
                    }
                }
            },
            Verdict::Failed(_) => {},
        }
    }
}

} // verus!
