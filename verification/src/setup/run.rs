//! A run of the setup: the steps of one type are dealt with one after the
//! other, in the order of their collection.
//!
//! The run decides and whoever drives it acts. For the first pending step the
//! driver makes the skip check and hands back the verdict. Where the step goes
//! ahead the driver is given the step to execute and hands back the result.
//! The first failure ends the run; the steps behind it are never looked at.

use vstd::prelude::*;

use super::scope::{Collection, Scope};
use super::skip::Skip;
use super::step::{Step, StepArgs};

verus! {

/// The name of the step `pair.1` under its scope `pair.0`.
pub open spec fn name_of<S: Step>(pair: (S::Scope, S)) -> Seq<char> {
    S::spec_name() + pair.0.spec_suffix()
}

/// What a run has done and what it still has to do.
pub struct RunView<S: Step> {
    /// The steps that have not been looked at, with their scopes. The first
    /// is the next.
    pub pending: Seq<(S::Scope, S)>,
    /// The names of the steps that were executed with success, in order.
    pub completed: Seq<Seq<char>>,
    /// The names of the steps that were left out, in order.
    pub skipped: Seq<Seq<char>>,
}

impl<S: Step> RunView<S> {
    /// The run after its first pending step was left out.
    pub open spec fn skip(self) -> Self {
        RunView {
            pending: self.pending.drop_first(),
            completed: self.completed,
            skipped: self.skipped.push(name_of(self.pending[0])),
        }
    }

    /// The run after its first pending step was handed out and executed with
    /// success.
    pub open spec fn complete(self) -> Self {
        RunView {
            pending: self.pending.drop_first(),
            completed: self.completed.push(name_of(self.pending[0])),
            skipped: self.skipped,
        }
    }

    /// The run after its first pending step was handed out and its execution
    /// failed.
    pub open spec fn fail(self) -> Self {
        RunView {
            pending: self.pending.drop_first(),
            completed: self.completed,
            skipped: self.skipped,
        }
    }
}

/// The texts of `lines`.
pub open spec fn texts(lines: Seq<String>) -> Seq<Seq<char>> {
    Seq::new(lines.len(), |i: int| lines[i]@)
}

/// What a run that came to its end has to tell.
pub struct SetupReport {
    /// The names of the steps that were executed, in order.
    pub completed: Vec<String>,
    /// The names of the steps that were left out because their skip check
    /// said so, in order.
    pub skipped: Vec<String>,
}

/// A run between two steps.
pub struct SetupRun<'a, C, S: Step> {
    client: &'a C,
    pending: Vec<(S::Scope, S)>,
    completed: Vec<String>,
    skipped: Vec<String>,
}

/// What a run asks for next.
pub enum Next<'a, C, S: Step> {
    /// No step is pending: the run is over, with success.
    Finished(SetupReport),
    /// The skip check of the first pending step is due.
    Check(Check<'a, C, S>),
}

/// A run that waits for the verdict of a skip check.
pub struct Check<'a, C, S: Step> {
    scope: S::Scope,
    step: S,
    rest: SetupRun<'a, C, S>,
}

/// What a verdict leads to.
pub enum Resolved<'a, C, S: Step> {
    /// The step was left out. The run goes on behind it.
    Skipped(SetupRun<'a, C, S>),
    /// The step goes ahead: it is handed out to be executed, and the run
    /// waits for the result.
    Proceed(Job<'a, C, S>, Running<'a, C, S>),
}

/// A step that is due for execution, with what its execution is given.
pub struct Job<'a, C, S: Step> {
    pub args: StepArgs<'a, C, S>,
    pub step: S,
}

/// A run that waits for the result of an execution.
pub struct Running<'a, C, S: Step> {
    name: String,
    rest: SetupRun<'a, C, S>,
}

impl<'a, C, S: Step> View for SetupRun<'a, C, S> {
    type V = RunView<S>;

    closed spec fn view(&self) -> RunView<S> {
        RunView {
            pending: self.pending@,
            completed: texts(self.completed@),
            skipped: texts(self.skipped@),
        }
    }
}

impl<'a, C, S: Step> View for Check<'a, C, S> {
    type V = RunView<S>;

    /// The run as it was before the step was taken up.
    closed spec fn view(&self) -> RunView<S> {
        RunView {
            pending: seq![(self.scope, self.step)] + self.rest@.pending,
            completed: self.rest@.completed,
            skipped: self.rest@.skipped,
        }
    }
}

impl<'a, C, S: Step> View for Running<'a, C, S> {
    type V = RunView<S>;

    /// The run as it is once the execution has succeeded.
    closed spec fn view(&self) -> RunView<S> {
        RunView {
            pending: self.rest@.pending,
            completed: self.rest@.completed.push(self.name@),
            skipped: self.rest@.skipped,
        }
    }
}

impl<'a, C, S: Step> SetupRun<'a, C, S> {
    /// The client that every execution is given.
    pub closed spec fn client(&self) -> &'a C {
        self.client
    }

    /// A run over the steps of `collection`, for executions on `client`.
    pub fn new<L: Collection<S>>(collection: L, client: &'a C) -> (run: Self)
        ensures
            run.client() == client,
            run@.pending == collection.entries(),
            run@.completed == Seq::<Seq<char>>::empty(),
            run@.skipped == Seq::<Seq<char>>::empty(),
    {
        let run = SetupRun {
            client,
            pending: collection.into_pairs(),
            completed: Vec::new(),
            skipped: Vec::new(),
        };
        assert(run@.completed =~= Seq::<Seq<char>>::empty());
        assert(run@.skipped =~= Seq::<Seq<char>>::empty());
        run
    }

    /// Takes up the first pending step, or ends the run where none is
    /// pending.
    pub fn next(self) -> (next: Next<'a, C, S>)
        ensures
            self@.pending.len() == 0 <==> next is Finished,
            next matches Next::Finished(report) ==> texts(report.completed@) == self@.completed
                && texts(report.skipped@) == self@.skipped,
            next matches Next::Check(check) ==> check@ == self@ && check.client() == self.client(),
    {
        let mut run = self;
        if run.pending.len() == 0 {
            return Next::Finished(
                SetupReport { completed: run.completed, skipped: run.skipped },
            );
        }
        let (scope, step) = run.pending.remove(0);
        let check = Check { scope, step, rest: run };
        assert(check@.pending =~= self@.pending);
        Next::Check(check)
    }
}

impl<'a, C, S: Step> Check<'a, C, S> {
    /// The client that every execution is given.
    pub closed spec fn client(&self) -> &'a C {
        self.rest.client
    }

    /// The scope whose skip check is due.
    pub fn scope(&self) -> (scope: &S::Scope)
        ensures
            self@.pending.len() > 0,
            *scope == self@.pending[0].0,
    {
        &self.scope
    }

    /// The name of the step whose skip check is due.
    pub fn name(&self) -> (name: String)
        ensures
            self@.pending.len() > 0,
            name@ == name_of(self@.pending[0]),
    {
        self.step.name_in(&self.scope)
    }

    /// Takes the verdict of the skip check. On `Skip` the step is dropped
    /// and its name is put down as skipped. On `Proceed` the step is handed
    /// out with its arguments, for the driver to execute it.
    pub fn resolve(self, skip: Skip) -> (resolved: Resolved<'a, C, S>)
        ensures
            self@.pending.len() > 0,
            skip == Skip::Skip <==> resolved is Skipped,
            resolved matches Resolved::Skipped(run) ==> run@ == self@.skip() && run.client()
                == self.client(),
            resolved matches Resolved::Proceed(job, running) ==> {
                &&& job.args.client == self.client()
                &&& job.args.scope == self@.pending[0].0
                &&& job.step == self@.pending[0].1
                &&& running@ == self@.complete()
                &&& running.failed() == self@.fail()
                &&& running.client() == self.client()
            },
    {
        let name = self.name();
        let Check { scope, step, rest } = self;
        let mut rest = rest;
        if skip.should_skip() {
            rest.skipped.push(name);
            assert(rest@.skipped =~= self@.skip().skipped);
            assert(rest@.pending =~= self@.skip().pending);
            Resolved::Skipped(rest)
        } else {
            let client = rest.client;
            let running = Running { name, rest };
            assert(running@.pending =~= self@.complete().pending);
            assert(running.failed().pending =~= self@.fail().pending);
            Resolved::Proceed(Job { args: StepArgs { client, scope }, step }, running)
        }
    }
}

impl<'a, C, S: Step> Running<'a, C, S> {
    /// The client that every execution is given.
    pub closed spec fn client(&self) -> &'a C {
        self.rest.client
    }

    /// The run as it is once the execution has failed.
    pub closed spec fn failed(&self) -> RunView<S> {
        self.rest@
    }

    /// Takes the result of the execution. After a success the name of the
    /// step is put down as completed and the run goes on. A failure ends the
    /// run and is handed on as it is; the steps that were still pending are
    /// dropped.
    pub fn complete<E>(self, result: Result<(), E>) -> (next: Result<SetupRun<'a, C, S>, E>)
        ensures
            match result {
                Ok(_) => next matches Ok(run) && run@ == self@ && run.client() == self.client(),
                Err(error) => next == Err::<SetupRun<'a, C, S>, E>(error),
            },
    {
        match result {
            Ok(_) => {
                let Running { name, rest } = self;
                let mut rest = rest;
                rest.completed.push(name);
                assert(rest@.completed =~= self@.completed);
                Ok(rest)
            },
            Err(error) => Err(error),
        }
    }
}

} // verus!
