//! Initializers: named functions that run at the end of setup, as one step
//! for each controller they were registered under.

use vstd::prelude::*;

pub mod merge;

use crate::controller::environment::Environment;
use crate::controller::{Controller, Fetched};
use crate::setup::step::{Step, StepArgs};
use merge::{has_name, lemma_upsert, name_index, names_distinct, upsert};

verus! {

/// An initializer: a function under a name. The name is the key by which the
/// initializers of one controller are told apart.
pub struct Init<F> {
    /// The name of the initializer.
    pub name: &'static str,
    /// The function. Call it through `Init::exec`.
    pub function: F,
}

impl<F> Init<F> {
    /// Runs the initializer on `args`.
    pub fn exec<'a, C, G>(&self, args: &InitArgs<'a, C, G>) where F: Fn(&InitArgs<'a, C, G>)
        requires
            call_requires(self.function, (args,)),
        ensures
            call_ensures(self.function, (args,), ()),
    {
        (self.function)(args)
    }
}

/// What a running initializer is given.
pub struct InitArgs<'a, C, G> {
    /// The client. It is shared, and nothing here changes it.
    pub client: &'a C,
    /// The controller the initializer was registered under.
    pub controller: Controller,
    /// The guild of the controller, where it has one and the fetch brought
    /// it.
    pub guild: Option<G>,
}

impl<'a, C, G> InitArgs<'a, C, G> {
    /// The arguments for the initializers of one step. `fetched` is the
    /// outcome of fetching the guild that the `guild_id` of the step's
    /// controller names, `None` where nothing was fetched. A fetch that
    /// failed leaves the arguments without a guild.
    ///
    /// In staging the staging guild must have been fetched.
    pub fn new<F, E>(step_args: StepArgs<'a, C, InitStep<F>>, fetched: Fetched<G, E>) -> (args:
        Self)
        requires
            step_args.scope.environment == Environment::Staging ==> fetched matches Some(Ok(_)),
        ensures
            args.client == step_args.client,
            args.controller == step_args.scope,
            args.guild == step_args.scope.spec_guild(fetched),
    {
        InitArgs {
            client: step_args.client,
            controller: step_args.scope,
            guild: step_args.scope.try_get_guild(fetched),
        }
    }
}

/// Compares two names with `str`'s `==` of the standard library: the result
/// is true if and only if the two hold the same characters. Nothing is
/// proved of this: it is what the standard library says of `==` on `str`.
#[verifier::external_body]
fn same_name(a: &str, b: &str) -> (same: bool)
    ensures
        same == (a@ == b@),
{
    a == b
}

/// The step that runs the initializers of one controller.
pub struct InitStep<F> {
    controller: Controller,
    inits: Vec<Init<F>>,
}

/// The initializers of one step with what they are run on.
pub struct Invocation<'a, C, G, F> {
    /// What every initializer is given.
    pub args: InitArgs<'a, C, G>,
    /// The initializers, in the order in which they run.
    pub inits: Vec<Init<F>>,
}

impl<'a, C, G, F> Invocation<'a, C, G, F> {
    /// Runs every initializer on the arguments, one after the other, in
    /// order.
    pub fn run(&self) where F: Fn(&InitArgs<'a, C, G>)
        requires
            forall|i: int|
                0 <= i < self.inits@.len() ==> call_requires(
                    (#[trigger] self.inits@[i]).function,
                    (&self.args,),
                ),
        ensures
            forall|i: int|
                0 <= i < self.inits@.len() ==> call_ensures(
                    (#[trigger] self.inits@[i]).function,
                    (&self.args,),
                    (),
                ),
    {
        let mut done: usize = 0;
        while done < self.inits.len()
            invariant
                done <= self.inits@.len(),
                forall|i: int|
                    0 <= i < self.inits@.len() ==> call_requires(
                        (#[trigger] self.inits@[i]).function,
                        (&self.args,),
                    ),
                forall|i: int|
                    0 <= i < done ==> call_ensures(
                        (#[trigger] self.inits@[i]).function,
                        (&self.args,),
                        (),
                    ),
            decreases self.inits@.len() - done,
        {
            self.inits[done].exec(&self.args);
            done += 1;
        }
    }
}

impl<F> InitStep<F> {
    /// The controller the step was made for.
    pub closed spec fn spec_controller(&self) -> Controller {
        self.controller
    }

    /// The controller the step was made for. It stays the same for as long
    /// as the step lives.
    pub fn controller(&self) -> (controller: Controller)
        ensures
            controller == self.spec_controller(),
    {
        self.controller
    }

    /// The place of the initializer of the name `name`, where there is one.
    fn position(&self, name: &str) -> (place: Option<usize>)
        ensures
            place is Some <==> has_name(self.operands(), name@),
            place matches Some(i) ==> i < self.operands().len() && self.operands()[i as int].name@
                == name@,
    {
        let mut i: usize = 0;
        while i < self.inits.len()
            invariant
                i <= self.inits.len(),
                forall|j: int| 0 <= j < i ==> (#[trigger] self.inits@[j]).name@ != name@,
            decreases self.inits.len() - i,
        {
            if same_name(self.inits[i].name, name) {
                return Some(i);
            }
            i += 1;
        }
        None
    }

    /// The failure that keeps the arguments of a step under `scope` from
    /// being built: that of the fetch, where the scope has a guild and
    /// fetching it failed.
    pub open spec fn spec_failure<G, E>(scope: Controller, fetched: Fetched<G, E>) -> Option<E> {
        match (scope.spec_guild_id(), fetched) {
            (Some(_), Some(Err(error))) => Some(error),
            _ => None,
        }
    }

    /// Builds the arguments and hands out the initializers in the order in
    /// which they run, each of them once, to be run on the arguments (see
    /// `Invocation::run`). `fetched` is the outcome of fetching the guild that the
    /// `guild_id` of `args.scope` names, `None` where nothing was fetched.
    ///
    /// Where the scope has a guild and fetching it failed, no initializer is
    /// handed out and the failure is returned as it is. There is no second
    /// try.
    ///
    /// In staging the staging guild must have been asked for.
    pub fn execute<'a, C, G, E>(self, args: StepArgs<'a, C, Self>, fetched: Fetched<G, E>) -> (run:
        Result<Invocation<'a, C, G, F>, E>)
        requires
            args.scope.environment == Environment::Staging ==> fetched is Some,
        ensures
            match Self::spec_failure(args.scope, fetched) {
                Some(error) => run == Err::<Invocation<'a, C, G, F>, E>(error),
                None => run matches Ok(invocation) && {
                    &&& invocation.args.client == args.client
                    &&& invocation.args.controller == args.scope
                    &&& invocation.args.guild == args.scope.spec_guild(fetched)
                    &&& invocation.inits@ == self.operands()
                },
            },
    {
        match (args.scope.guild_id(), fetched) {
            (Some(_), Some(Err(error))) => Err(error),
            (_, fetched) => {
                let init_args = InitArgs::new(args, fetched);
                Ok(Invocation { args: init_args, inits: self.inits })
            },
        }
    }
}

impl<F> Step for InitStep<F> {
    type Operand = Init<F>;

    type Scope = Controller;

    open spec fn spec_name() -> Seq<char> {
        "init"@
    }

    /// No two initializers of a step have the same name.
    open spec fn wf(&self) -> bool {
        names_distinct(self.operands())
    }

    closed spec fn operands(&self) -> Seq<Init<F>> {
        self.inits@
    }

    /// A name is registered once: the later initializer takes the place of
    /// the earlier one.
    open spec fn merged(operands: Seq<Init<F>>, operand: Init<F>) -> Seq<Init<F>> {
        upsert(operands, operand)
    }

    fn name() -> (name: &'static str) {
        "init"
    }

    fn operand_count(&self) -> (count: usize) {
        self.inits.len()
    }

    fn new(controller: Controller) -> (step: Self)
        ensures
            step.spec_controller() == controller,
    {
        InitStep { controller, inits: Vec::new() }
    }

    /// Registers `init` under its name. An initializer that was registered
    /// under the same name before is replaced, in its place.
    fn append(&mut self, init: Init<F>)
        ensures
            final(self).spec_controller() == old(self).spec_controller(),
    {
        proof {
            lemma_upsert(self.inits@, init);
        }
        match self.position(init.name) {
            Some(place) => {
                assert(name_index(self.inits@, init.name@) == place as int);
                self.inits.set(place, init);
            },
            None => {
                self.inits.push(init);
            },
        }
    }
}

} // verus!
